//! The record that the gates passed for the inputs that they looked at. While
//! the inputs stay the same the gates need not run again; any doubt makes them
//! run.
use vstd::prelude::*;
use vstd::utf8::encode_utf8;
use crate::clock::{rfc3339, write_rfc3339, Timestamp};
use crate::path::{is_relative, join_path, joined, lemma_json_files};
use crate::text::{
    at_most, cat2, chars_of, lemma_text_le_total, lemma_text_le_trans, push_bytes, same_text, text_le,
};

verus! {

/// The record of a pass: the hash of the inputs, and when it was made.
#[derive(Debug, Clone, PartialEq, Eq)]
pub struct GatePassRecord {
    pub inputs_hash: String,
    pub recorded_at: String,
}

/// Where the records of a workspace are kept.
pub open spec fn gate_pass_place(state_dir: Seq<char>, workspace_basename: Seq<char>) -> Seq<char> {
    joined(joined(state_dir, "gate-pass"@), workspace_basename)
}

/// Where the records of a workspace are kept.
pub fn gate_pass_dir(state_dir: &str, workspace_basename: &str) -> (r: String)
    ensures
        r@ == gate_pass_place(state_dir@, workspace_basename@),
{
    join_path(join_path(state_dir, "gate-pass").as_str(), workspace_basename)
}

/// Where the record of a change is kept.
pub open spec fn record_place(
    state_dir: Seq<char>,
    workspace_basename: Seq<char>,
    change: Seq<char>,
) -> Seq<char> {
    joined(gate_pass_place(state_dir, workspace_basename), change + ".json"@)
}

/// Where the record of a change is kept.
pub fn gate_pass_path(state_dir: &str, workspace_basename: &str, change: &str) -> (r: String)
    ensures
        r@ == record_place(state_dir@, workspace_basename@, change@),
{
    join_path(
        gate_pass_dir(state_dir, workspace_basename).as_str(),
        cat2(change, ".json").as_str(),
    )
}

/// A record of inputs, made now; none where the moment cannot be written down.
pub fn new_record(inputs_hash: &str, now: Timestamp) -> (r: Option<GatePassRecord>)
    ensures
        match rfc3339(now) {
            Some(t) => r matches Some(record) && record.inputs_hash@ == inputs_hash@
                && record.recorded_at@ == t,
            None => r is None,
        },
{
    match write_rfc3339(now) {
        Some(recorded_at) => Some(
            GatePassRecord { inputs_hash: inputs_hash.to_owned(), recorded_at },
        ),
        None => None,
    }
}

/// A file in the directory of a change: its name where that is text, its path
/// from there, and its bytes or why they could not be read.
#[derive(Debug)]
pub struct TreeFile {
    pub name: Option<String>,
    pub path: String,
    pub bytes: Result<Vec<u8>, String>,
}

/// Whether a file is one that the daemon keeps for itself. It is no input of the
/// gates.
pub open spec fn is_marker(name: Option<String>) -> bool {
    match name {
        Some(n) => n@ == ".in-progress"@ || n@ == ".question.json"@ || n@ == ".answer.json"@ || n@
            == ".needs-spec-revision.json"@ || n@ == ".perma-stuck.json"@ || n@ == ".priority.json"@
            || n@ == ".ignore-for-queue.json"@,
        None => false,
    }
}

/// Whether a file is one that the daemon keeps for itself. Such a file need not
/// be read.
pub fn is_excluded(name: &Option<String>) -> (r: bool)
    ensures
        r == is_marker(*name),
{
    match name {
        Some(n) => {
            let n = n.as_str();
            same_text(n, ".in-progress") || same_text(n, ".question.json") || same_text(
                n,
                ".answer.json",
            ) || same_text(n, ".needs-spec-revision.json") || same_text(n, ".perma-stuck.json")
                || same_text(n, ".priority.json") || same_text(n, ".ignore-for-queue.json")
        },
        None => false,
    }
}

/// A path with its parts set apart by slashes.
pub open spec fn slashed(path: Seq<char>) -> Seq<char> {
    Seq::new(
        path.len(),
        |i: int|
            if path[i] == '\\' {
                '/'
            } else {
                path[i]
            },
    )
}

fn with_slashes(path: &str) -> (r: String)
    ensures
        r@ == slashed(path@),
{
    let v = chars_of(path);
    let mut out = String::new();
    let mut i: usize = 0;
    while i < v.len()
        invariant
            i <= v@.len(),
            v@ == path@,
            out@ == slashed(path@).take(i as int),
        decreases v@.len() - i,
    {
        let c = if v[i] == '\\' {
            '/'
        } else {
            v[i]
        };
        out.push(c);
        i += 1;
        proof {
            assert(slashed(path@).take(i as int) =~= slashed(path@).take(i - 1).push(c));
        }
    }
    proof {
        assert(slashed(path@).take(v@.len() as int) =~= slashed(path@));
    }
    out
}

/// A path and the bytes under it.
pub type InputV = (Seq<char>, Seq<u8>);

/// Where `key` is put among paths in order: behind all that are not greater.
pub open spec fn place_of(s: Seq<InputV>, key: Seq<char>) -> int
    decreases s.len(),
{
    if s.len() == 0 || !text_le(s[0].0, key) {
        0
    } else {
        1 + place_of(s.drop_first(), key)
    }
}

proof fn lemma_place(s: Seq<InputV>, key: Seq<char>)
    ensures
        0 <= place_of(s, key) <= s.len(),
        forall|i: int| 0 <= i < place_of(s, key) ==> text_le((#[trigger] s[i]).0, key),
        place_of(s, key) < s.len() ==> !text_le(s[place_of(s, key)].0, key),
    decreases s.len(),
{
    if s.len() > 0 && text_le(s[0].0, key) {
        lemma_place(s.drop_first(), key);
        assert forall|i: int| 0 <= i < place_of(s, key) implies text_le(
            (#[trigger] s[i]).0,
            key,
        ) by {
            if i > 0 {
                assert(s[i] == s.drop_first()[i - 1]);
            }
        }
    }
}

/// The inputs in the order of their paths; those under the same path stay in the
/// order in which they came.
pub open spec fn by_path(inputs: Seq<InputV>) -> Seq<InputV>
    decreases inputs.len(),
{
    if inputs.len() == 0 {
        Seq::empty()
    } else {
        let before = by_path(inputs.drop_last());
        before.insert(place_of(before, inputs.last().0), inputs.last())
    }
}

/// The inputs among files: their paths and bytes, without what the daemon keeps
/// for itself.
pub open spec fn inputs_of(files: Seq<TreeFile>) -> Seq<InputV>
    decreases files.len(),
{
    if files.len() == 0 {
        Seq::empty()
    } else {
        let before = inputs_of(files.drop_last());
        let file = files.last();
        match file.bytes {
            Ok(bytes) if !is_marker(file.name) => before.push((slashed(file.path@), bytes@)),
            _ => before,
        }
    }
}

/// The error on the first input that could not be read.
pub open spec fn first_error(files: Seq<TreeFile>) -> Option<Seq<char>>
    decreases files.len(),
{
    if files.len() == 0 {
        None
    } else {
        match first_error(files.drop_last()) {
            Some(e) => Some(e),
            None => match files.last().bytes {
                Err(e) if !is_marker(files.last().name) => Some(e@),
                _ => None,
            },
        }
    }
}

/// A number in `k` bytes, the least significant first.
pub open spec fn le_bytes(n: nat, k: nat) -> Seq<u8>
    decreases k,
{
    if k == 0 {
        Seq::empty()
    } else {
        Seq::empty().push((n % 256) as u8) + le_bytes(n / 256, (k - 1) as nat)
    }
}

/// What one input adds to the text that is hashed: its path, a zero, the number
/// of its bytes, and its bytes.
pub open spec fn framed(input: InputV) -> Seq<u8> {
    encode_utf8(input.0) + Seq::empty().push(0u8) + le_bytes(input.1.len(), 8) + input.1
}

/// The text that is hashed.
pub open spec fn frame(inputs: Seq<InputV>) -> Seq<u8>
    decreases inputs.len(),
{
    if inputs.len() == 0 {
        Seq::empty()
    } else {
        framed(inputs[0]) + frame(inputs.drop_first())
    }
}

pub open spec fn hex_digit(n: u8) -> char {
    if n == 0 {
        '0'
    } else if n == 1 {
        '1'
    } else if n == 2 {
        '2'
    } else if n == 3 {
        '3'
    } else if n == 4 {
        '4'
    } else if n == 5 {
        '5'
    } else if n == 6 {
        '6'
    } else if n == 7 {
        '7'
    } else if n == 8 {
        '8'
    } else if n == 9 {
        '9'
    } else if n == 10 {
        'a'
    } else if n == 11 {
        'b'
    } else if n == 12 {
        'c'
    } else if n == 13 {
        'd'
    } else if n == 14 {
        'e'
    } else {
        'f'
    }
}

fn show_digit(n: u8) -> (r: char)
    ensures
        r == hex_digit(n),
{
    match n {
        0 => '0',
        1 => '1',
        2 => '2',
        3 => '3',
        4 => '4',
        5 => '5',
        6 => '6',
        7 => '7',
        8 => '8',
        9 => '9',
        10 => 'a',
        11 => 'b',
        12 => 'c',
        13 => 'd',
        14 => 'e',
        _ => 'f',
    }
}

/// Bytes as two hexadecimal digits each.
pub open spec fn hex(bytes: Seq<u8>) -> Seq<char>
    decreases bytes.len(),
{
    if bytes.len() == 0 {
        Seq::empty()
    } else {
        hex(bytes.drop_last()).push(hex_digit(bytes.last() / 16)).push(hex_digit(bytes.last() % 16))
    }
}

fn hex_text(bytes: &Vec<u8>) -> (r: String)
    ensures
        r@ == hex(bytes@),
{
    let mut out = String::new();
    let mut i: usize = 0;
    while i < bytes.len()
        invariant
            i <= bytes@.len(),
            out@ == hex(bytes@.take(i as int)),
        decreases bytes@.len() - i,
    {
        proof {
            assert(bytes@.take(i + 1).drop_last() =~= bytes@.take(i as int));
        }
        out.push(show_digit(bytes[i] / 16));
        out.push(show_digit(bytes[i] % 16));
        i += 1;
    }
    proof {
        assert(bytes@.take(bytes@.len() as int) =~= bytes@);
    }
    out
}

/// The SHA-256 digest of some bytes.
pub uninterp spec fn sha256_of(data: Seq<u8>) -> Seq<u8>;

/// The most bytes that are hashed: their number in bits has to fit into 64 bits.
pub const HASH_LIMIT: u64 = 0x1fff_ffff_ffff_ffff;

/// `ring::digest::digest` with `ring::digest::SHA256`. Its result depends on the
/// bytes alone, is named [`sha256_of`], and is 32 bytes long. It panics where the
/// number of bits does not fit into 64 bits.
#[verifier::external_body]
fn sha256(data: &Vec<u8>) -> (r: Vec<u8>)
    requires
        data@.len() <= HASH_LIMIT,
    ensures
        r@ == sha256_of(data@),
        r@.len() == 32,
{
    ring::digest::digest(&ring::digest::SHA256, data.as_slice()).as_ref().to_vec()
}

/// The inputs of a list of paths and bytes.
pub open spec fn input_views(v: Seq<(String, &Vec<u8>)>) -> Seq<InputV> {
    Seq::new(v.len(), |i: int| (v[i].0@, v[i].1@))
}

/// The inputs among files, in the order of their paths, or why one of them could
/// not be read.
fn collect<'a>(files: &'a Vec<TreeFile>) -> (r: Result<Vec<(String, &'a Vec<u8>)>, String>)
    ensures
        match first_error(files@) {
            Some(e) => r matches Err(why) && why@ == e,
            None => r matches Ok(v) && input_views(v@) == by_path(inputs_of(files@)),
        },
{
    let mut out: Vec<(String, &'a Vec<u8>)> = Vec::new();
    let mut i: usize = 0;
    proof {
        assert(input_views(out@) =~= Seq::<InputV>::empty());
    }
    while i < files.len()
        invariant
            i <= files@.len(),
            first_error(files@.take(i as int)) is None,
            input_views(out@) == by_path(inputs_of(files@.take(i as int))),
        decreases files@.len() - i,
    {
        let ghost before = files@.take(i as int);
        proof {
            assert(files@.take(i + 1).drop_last() =~= before);
        }
        if !is_excluded(&files[i].name) {
            match &files[i].bytes {
                Err(e) => {
                    proof {
                        lemma_error_stays(files@, i + 1);
                    }
                    return Err(e.clone());
                },
                Ok(bytes) => {
                    let path = with_slashes(files[i].path.as_str());
                    let mut j: usize = 0;
                    let ghost all = input_views(out@);
                    proof {
                        assert(all.subrange(0, all.len() as int) =~= all);
                    }
                    while j < out.len() && at_most(out[j].0.as_str(), path.as_str())
                        invariant
                            j <= out@.len(),
                            all == input_views(out@),
                            place_of(all, path@) == j + place_of(
                                all.subrange(j as int, all.len() as int),
                                path@,
                            ),
                        decreases out@.len() - j,
                    {
                        proof {
                            let rest = all.subrange(j as int, all.len() as int);
                            assert(rest[0].0 == out@[j as int].0@);
                            assert(rest.drop_first() =~= all.subrange(j + 1, all.len() as int));
                        }
                        j += 1;
                    }
                    proof {
                        let rest = all.subrange(j as int, all.len() as int);
                        if j < out@.len() {
                            assert(rest[0].0 == out@[j as int].0@);
                        }
                        assert(place_of(all, path@) == j);
                        let input = (path@, bytes@);
                        let next = inputs_of(files@.take(i + 1));
                        assert(next.drop_last() =~= inputs_of(before));
                        assert(input_views(out@.insert(j as int, (path, bytes))) =~= all.insert(
                            j as int,
                            input,
                        ));
                    }
                    out.insert(j, (path, bytes));
                },
            }
        }
        i += 1;
    }
    proof {
        assert(files@.take(files@.len() as int) =~= files@);
    }
    Ok(out)
}

proof fn lemma_error_stays(files: Seq<TreeFile>, n: int)
    requires
        0 <= n <= files.len(),
        first_error(files.take(n)) is Some,
    ensures
        first_error(files) == first_error(files.take(n)),
    decreases files.len(),
{
    if n == files.len() {
        assert(files.take(n) =~= files);
    } else {
        assert(files.drop_last().take(n) =~= files.take(n));
        lemma_error_stays(files.drop_last(), n);
    }
}

fn push_number(out: &mut Vec<u8>, n: u64)
    ensures
        final(out)@ == old(out)@ + le_bytes(n as nat, 8),
{
    let mut rest: u64 = n;
    let mut k: u64 = 8;
    while k > 0
        invariant
            k <= 8,
            old(out)@ + le_bytes(n as nat, 8) == out@ + le_bytes(rest as nat, k as nat),
        decreases k,
    {
        let byte: u8 = (rest % 256) as u8;
        proof {
            assert(out@ + (Seq::empty().push(byte) + le_bytes((rest / 256) as nat, (k - 1) as nat))
                =~= out@.push(byte) + le_bytes((rest / 256) as nat, (k - 1) as nat));
        }
        out.push(byte);
        rest = rest / 256;
        k -= 1;
    }
    proof {
        assert(out@ + Seq::<u8>::empty() =~= out@);
    }
}

/// The text that is hashed.
fn frame_bytes(inputs: &Vec<(String, &Vec<u8>)>) -> (r: Vec<u8>)
    ensures
        r@ == frame(input_views(inputs@)),
{
    let mut out: Vec<u8> = Vec::new();
    let ghost all = input_views(inputs@);
    let mut i: usize = 0;
    proof {
        assert(all.skip(0) =~= all);
        assert(out@ + frame(all) =~= frame(all));
    }
    while i < inputs.len()
        invariant
            i <= inputs@.len(),
            all == input_views(inputs@),
            frame(all) == out@ + frame(all.skip(i as int)),
        decreases inputs@.len() - i,
    {
        let ghost before = out@;
        let ghost input = all[i as int];
        push_bytes(&mut out, inputs[i].0.as_str().as_bytes());
        out.push(0);
        push_number(&mut out, inputs[i].1.len() as u64);
        push_bytes(&mut out, inputs[i].1.as_slice());
        proof {
            let rest = all.skip(i as int);
            assert(rest[0] == input);
            assert(rest.drop_first() =~= all.skip(i + 1));
            assert(out@ =~= before + framed(input));
            assert(before + (framed(input) + frame(all.skip(i + 1))) =~= out@ + frame(
                all.skip(i + 1),
            ));
        }
        i += 1;
    }
    proof {
        assert(all.skip(all.len() as int) =~= Seq::<InputV>::empty());
        assert(out@ + Seq::<u8>::empty() =~= out@);
    }
    out
}

/// The hash of the inputs among files.
pub open spec fn inputs_hash(files: Seq<TreeFile>) -> Seq<char> {
    hex(sha256_of(frame(by_path(inputs_of(files)))))
}

/// Whether the inputs among files can be hashed at all.
pub open spec fn can_be_hashed(files: Seq<TreeFile>) -> bool {
    frame(by_path(inputs_of(files))).len() <= HASH_LIMIT
}

/// Whether a character is a hexadecimal digit, in small letters.
pub open spec fn is_hex(c: char) -> bool {
    ('0' <= c <= '9') || ('a' <= c <= 'f')
}

proof fn lemma_hex(bytes: Seq<u8>)
    ensures
        hex(bytes).len() == 2 * bytes.len(),
        forall|i: int| 0 <= i < hex(bytes).len() ==> is_hex(#[trigger] hex(bytes)[i]),
    decreases bytes.len(),
{
    if bytes.len() > 0 {
        lemma_hex(bytes.drop_last());
    }
}

/// The hash of the inputs among files, in 64 digits, or why one of them could not
/// be read.
pub fn compute_inputs_hash(files: &Vec<TreeFile>) -> (r: Result<String, String>)
    requires
        can_be_hashed(files@),
    ensures
        match first_error(files@) {
            Some(e) => r matches Err(why) && why@ == e,
            None => {
                &&& r matches Ok(h)
                &&& h@ == inputs_hash(files@)
                &&& h@.len() == 64
                &&& forall|i: int| 0 <= i < 64 ==> is_hex(#[trigger] h@[i])
            },
        },
{
    match collect(files) {
        Ok(inputs) => {
            let digest = sha256(&frame_bytes(&inputs));
            proof {
                lemma_hex(digest@);
            }
            Ok(hex_text(&digest))
        },
        Err(e) => Err(e),
    }
}

/// Whether a record stands for a hash. Any doubt is a no.
pub fn is_recorded(record: &Option<GatePassRecord>, current: &Result<String, String>) -> (r: bool)
    ensures
        r == match (record, current) {
            (Some(rec), Ok(h)) => h@ == rec.inputs_hash@,
            _ => false,
        },
{
    match (record, current) {
        (Some(rec), Ok(h)) => same_text(h.as_str(), rec.inputs_hash.as_str()),
        _ => false,
    }
}

/// Whether there is a record and it stands for the inputs among files. Any doubt
/// is a no: no record, a directory or a file that could not be read.
pub fn hash_matches(record: &Option<GatePassRecord>, files: &Result<Vec<TreeFile>, String>) -> (r:
    bool)
    requires
        files matches Ok(v) ==> can_be_hashed(v@),
    ensures
        r == match (record, files) {
            (Some(rec), Ok(v)) => first_error(v@) is None && inputs_hash(v@) == rec.inputs_hash@,
            _ => false,
        },
{
    match files {
        Ok(v) => is_recorded(record, &compute_inputs_hash(v)),
        Err(_) => false,
    }
}

/// Each change has a record of its own: no two changes of a workspace share a file.
/// The name of a change is no path from the root.
pub proof fn records_have_their_own_files(
    state_dir: Seq<char>,
    workspace_basename: Seq<char>,
    a: Seq<char>,
    b: Seq<char>,
)
    requires
        is_relative(a),
        is_relative(b),
        a != b,
    ensures
        record_place(state_dir, workspace_basename, a) != record_place(
            state_dir,
            workspace_basename,
            b,
        ),
{
    if record_place(state_dir, workspace_basename, a) == record_place(
        state_dir,
        workspace_basename,
        b,
    ) {
        lemma_json_files(gate_pass_place(state_dir, workspace_basename), a, b);
    }
}

/// What the daemon keeps for itself has no part in the hash: the inputs are the
/// same with such a file and without it.
pub proof fn markers_are_no_inputs(files: Seq<TreeFile>, i: int)
    requires
        0 <= i < files.len(),
        is_marker(files[i].name),
    ensures
        inputs_of(files.remove(i)) == inputs_of(files),
        first_error(files.remove(i)) == first_error(files),
    decreases files.len(),
{
    let without = files.remove(i);
    if i == files.len() - 1 {
        assert(without =~= files.drop_last());
    } else {
        assert(without.drop_last() =~= files.drop_last().remove(i));
        assert(without.last() == files.last());
        markers_are_no_inputs(files.drop_last(), i);
    }
}

/// Whether a path holds no zero.
pub open spec fn is_plain(path: Seq<char>) -> bool {
    forall|i: int| 0 <= i < path.len() ==> #[trigger] path[i] != '\0'
}

proof fn lemma_char_not_zero(c: char)
    requires
        c != '\0',
    ensures
        c as u32 != 0,
{
}

proof fn lemma_no_zero(path: Seq<char>)
    requires
        is_plain(path),
    ensures
        forall|i: int| 0 <= i < encode_utf8(path).len() ==> #[trigger] encode_utf8(path)[i] != 0u8,
    decreases path.len(),
{
    if path.len() > 0 {
        let rest = path.drop_first();
        assert forall|i: int| 0 <= i < rest.len() implies #[trigger] rest[i] != '\0' by {
            assert(rest[i] == path[i + 1]);
        }
        lemma_no_zero(rest);
        let c = path[0] as u32;
        lemma_char_not_zero(path[0]);
        assert(c <= 0x7f ==> (c & 0x7F) as u8 != 0) by (bit_vector)
            requires
                c != 0,
        ;
        assert(0xC0u8 | ((c >> 6) & 0x1F) as u8 != 0) by (bit_vector);
        assert(0xE0u8 | ((c >> 12) & 0x0F) as u8 != 0) by (bit_vector);
        assert(0xF0u8 | ((c >> 18) & 0x7) as u8 != 0) by (bit_vector);
        assert(0x80u8 | (c & 0x3F) as u8 != 0) by (bit_vector);
        assert(0x80u8 | ((c >> 6) & 0x3F) as u8 != 0) by (bit_vector);
        assert(0x80u8 | ((c >> 12) & 0x3F) as u8 != 0) by (bit_vector);
        let head = vstd::utf8::encode_scalar(c);
        assert forall|i: int| 0 <= i < head.len() implies #[trigger] head[i] != 0u8 by {}
        assert forall|i: int| 0 <= i < encode_utf8(path).len() implies #[trigger] encode_utf8(
            path,
        )[i] != 0u8 by {
            if i >= head.len() {
                assert(encode_utf8(path)[i] == encode_utf8(rest)[i - head.len()]);
            } else {
                assert(encode_utf8(path)[i] == head[i]);
            }
        }
    }
}

/// 256 to the power of `k`.
pub open spec fn pow256(k: nat) -> nat
    decreases k,
{
    if k == 0 {
        1
    } else {
        256 * pow256((k - 1) as nat)
    }
}

proof fn lemma_le_bytes(a: nat, b: nat, k: nat)
    requires
        a < pow256(k),
        b < pow256(k),
    ensures
        le_bytes(a, k).len() == k,
        le_bytes(a, k) == le_bytes(b, k) ==> a == b,
    decreases k,
{
    if k > 0 {
        lemma_le_bytes(a / 256, b / 256, (k - 1) as nat);
        lemma_le_bytes(b / 256, a / 256, (k - 1) as nat);
        let ta = le_bytes(a / 256, (k - 1) as nat);
        let tb = le_bytes(b / 256, (k - 1) as nat);
        if le_bytes(a, k) == le_bytes(b, k) {
            assert(le_bytes(a, k)[0] == (a % 256) as u8);
            assert(le_bytes(b, k)[0] == (b % 256) as u8);
            assert(le_bytes(a, k).drop_first() =~= ta);
            assert(le_bytes(b, k).drop_first() =~= tb);
        }
    }
}

/// Whether inputs are such as files have: paths without a zero, and as many bytes
/// as 64 bits can count.
pub open spec fn are_files(inputs: Seq<InputV>) -> bool {
    forall|i: int|
        0 <= i < inputs.len() ==> is_plain((#[trigger] inputs[i]).0) && inputs[i].1.len()
            <= u64::MAX
}

/// Two lists of inputs that differ are hashed as texts that differ: where one
/// input ends and the next begins can be told from the text.
pub proof fn frames_tell_inputs_apart(a: Seq<InputV>, b: Seq<InputV>)
    requires
        are_files(a),
        are_files(b),
        frame(a) == frame(b),
    ensures
        a == b,
    decreases a.len(),
{
    if a.len() == 0 {
        if b.len() > 0 {
            assert(frame(b).len() >= framed(b[0]).len());
            assert(framed(b[0])[encode_utf8(b[0].0).len() as int] == 0u8);
        }
        assert(a =~= b);
    } else if b.len() == 0 {
        assert(frame(a).len() >= framed(a[0]).len());
        assert(framed(a[0])[encode_utf8(a[0].0).len() as int] == 0u8);
    } else {
        let f = frame(a);
        let pa = encode_utf8(a[0].0);
        let pb = encode_utf8(b[0].0);
        let ra = a.drop_first();
        let rb = b.drop_first();
        lemma_no_zero(a[0].0);
        lemma_no_zero(b[0].0);
        assert(f[pa.len() as int] == 0u8);
        assert(f[pb.len() as int] == 0u8);
        if pa.len() < pb.len() {
            assert(f[pa.len() as int] == pb[pa.len() as int]);
        }
        if pb.len() < pa.len() {
            assert(f[pb.len() as int] == pa[pb.len() as int]);
        }
        let n = pa.len() as int;
        assert(f.subrange(0, n) =~= pa);
        assert(f.subrange(0, n) =~= pb);
        vstd::utf8::encode_utf8_decode_utf8(a[0].0);
        vstd::utf8::encode_utf8_decode_utf8(b[0].0);
        assert(a[0].0 == b[0].0);
        reveal_with_fuel(pow256, 9);
        lemma_le_bytes(a[0].1.len(), b[0].1.len(), 8);
        lemma_le_bytes(b[0].1.len(), a[0].1.len(), 8);
        assert(f.subrange(n + 1, n + 9) =~= le_bytes(a[0].1.len(), 8));
        assert(f.subrange(n + 1, n + 9) =~= le_bytes(b[0].1.len(), 8));
        let m = a[0].1.len() as int;
        assert(f.subrange(n + 9, n + 9 + m) =~= a[0].1);
        assert(f.subrange(n + 9, n + 9 + m) =~= b[0].1);
        assert(a[0] == b[0]);
        assert(f.subrange(n + 9 + m, f.len() as int) =~= frame(ra));
        assert(f.subrange(n + 9 + m, f.len() as int) =~= frame(rb));
        assert(are_files(ra)) by {
            assert forall|i: int| 0 <= i < ra.len() implies is_plain((#[trigger] ra[i]).0)
                && ra[i].1.len() <= u64::MAX by {
                assert(ra[i] == a[i + 1]);
            }
        }
        assert(are_files(rb)) by {
            assert forall|i: int| 0 <= i < rb.len() implies is_plain((#[trigger] rb[i]).0)
                && rb[i].1.len() <= u64::MAX by {
                assert(rb[i] == b[i + 1]);
            }
        }
        frames_tell_inputs_apart(ra, rb);
        assert forall|i: int| 0 <= i < a.len() implies a[i] == b[i] by {
            if i > 0 {
                assert(a[i] == ra[i - 1]);
                assert(b[i] == rb[i - 1]);
            }
        }
        assert(a.len() == ra.len() + 1);
        assert(b.len() == rb.len() + 1);
        assert(a =~= b);
    }
}

/// Whether no two inputs are under the same path.
pub open spec fn paths_differ(s: Seq<InputV>) -> bool {
    forall|i: int, j: int| 0 <= i < j < s.len() ==> (#[trigger] s[i]).0 != (#[trigger] s[j]).0
}

/// Whether inputs stand in the order of their paths.
pub open spec fn in_order(s: Seq<InputV>) -> bool {
    forall|i: int, j: int|
        0 <= i < j < s.len() ==> text_le((#[trigger] s[i]).0, (#[trigger] s[j]).0)
}

/// Whether two lists hold the same inputs.
pub open spec fn same_inputs(a: Seq<InputV>, b: Seq<InputV>) -> bool {
    forall|x: InputV| #[trigger] a.contains(x) == b.contains(x)
}

proof fn lemma_insert_contains(s: Seq<InputV>, i: int, x: InputV, y: InputV)
    requires
        0 <= i <= s.len(),
    ensures
        s.insert(i, x).contains(y) == (s.contains(y) || y == x),
{
    let t = s.insert(i, x);
    if s.contains(y) {
        let k = choose|k: int| 0 <= k < s.len() && s[k] == y;
        if k < i {
            assert(t[k] == y);
        } else {
            assert(t[k + 1] == y);
        }
    }
    if y == x {
        assert(t[i] == y);
    }
    if t.contains(y) {
        let k = choose|k: int| 0 <= k < t.len() && t[k] == y;
        if k < i {
            assert(s[k] == y);
        } else if k > i {
            assert(s[k - 1] == y);
        }
    }
}

proof fn lemma_push_contains(s: Seq<InputV>, y: InputV)
    requires
        s.len() > 0,
    ensures
        s.contains(y) == (s.drop_last().contains(y) || y == s.last()),
{
    if s.contains(y) {
        let k = choose|k: int| 0 <= k < s.len() && s[k] == y;
        if k < s.len() - 1 {
            assert(s.drop_last()[k] == y);
        }
    }
    if s.drop_last().contains(y) {
        let k = choose|k: int| 0 <= k < s.drop_last().len() && s.drop_last()[k] == y;
        assert(s[k] == y);
    }
    if y == s.last() {
        assert(s[s.len() - 1] == y);
    }
}

/// The inputs are hashed in the order of their paths, and none is lost or added.
pub proof fn inputs_are_put_in_order(s: Seq<InputV>)
    ensures
        in_order(by_path(s)),
        same_inputs(by_path(s), s),
        by_path(s).len() == s.len(),
    decreases s.len(),
{
    if s.len() > 0 {
        let before = by_path(s.drop_last());
        let x = s.last();
        let at = place_of(before, x.0);
        let after = by_path(s);
        inputs_are_put_in_order(s.drop_last());
        lemma_place(before, x.0);
        assert forall|i: int, j: int| 0 <= i < j < after.len() implies text_le(
            (#[trigger] after[i]).0,
            (#[trigger] after[j]).0,
        ) by {
            if j < at {
                assert(after[i] == before[i] && after[j] == before[j]);
            } else if j == at {
                assert(after[i] == before[i] && after[j] == x);
            } else {
                assert(after[j] == before[j - 1]);
                if i < at {
                    assert(after[i] == before[i]);
                    if i < j - 1 {
                        assert(text_le(before[i].0, before[j - 1].0));
                    }
                } else if i == at {
                    assert(after[i] == x);
                    lemma_text_le_total(before[at].0, x.0);
                    if at < j - 1 {
                        assert(text_le(before[at].0, before[j - 1].0));
                        lemma_text_le_trans(x.0, before[at].0, before[j - 1].0);
                    }
                } else {
                    assert(after[i] == before[i - 1]);
                    assert(text_le(before[i - 1].0, before[j - 1].0));
                }
            }
        }
        assert forall|y: InputV| #[trigger] after.contains(y) == s.contains(y) by {
            lemma_insert_contains(before, at, x, y);
            lemma_push_contains(s, y);
            assert(before.contains(y) == s.drop_last().contains(y));
        }
    }
}

proof fn lemma_paths_still_differ(s: Seq<InputV>)
    requires
        paths_differ(s),
    ensures
        paths_differ(by_path(s)),
    decreases s.len(),
{
    if s.len() > 0 {
        let init = s.drop_last();
        let before = by_path(init);
        let x = s.last();
        let after = by_path(s);
        assert forall|i: int, j: int| 0 <= i < j < init.len() implies (#[trigger] init[i]).0 != (
        #[trigger] init[j]).0 by {
            assert(s[i].0 != s[j].0);
        }
        lemma_paths_still_differ(init);
        inputs_are_put_in_order(init);
        lemma_place(before, x.0);
        let at = place_of(before, x.0);
        assert forall|k: int| 0 <= k < before.len() implies (#[trigger] before[k]).0 != x.0 by {
            assert(before.contains(before[k]));
            assert(init.contains(before[k]));
            let m = choose|m: int| 0 <= m < init.len() && init[m] == before[k];
            assert(s[m].0 != s[s.len() - 1].0);
        }
        assert forall|i: int, j: int| 0 <= i < j < after.len() implies (#[trigger] after[i]).0 != (
        #[trigger] after[j]).0 by {
            let p = if i < at {
                i
            } else {
                i - 1
            };
            let q = if j < at {
                j
            } else {
                j - 1
            };
            if i != at && j != at {
                assert(after[i] == before[p] && after[j] == before[q]);
            }
        }
    }
}

proof fn lemma_order_is_unique(a: Seq<InputV>, b: Seq<InputV>)
    requires
        in_order(a),
        in_order(b),
        paths_differ(a),
        paths_differ(b),
        same_inputs(a, b),
    ensures
        a == b,
    decreases a.len(),
{
    if a.len() == 0 {
        if b.len() > 0 {
            assert(b.contains(b[0]));
            assert(a.contains(b[0]));
        }
        assert(a =~= b);
    } else {
        assert(a.contains(a[a.len() - 1]));
        assert(b.contains(a.last()));
        let j = choose|j: int| 0 <= j < b.len() && b[j] == a.last();
        assert(b.contains(b[b.len() - 1]));
        assert(a.contains(b.last()));
        let i = choose|i: int| 0 <= i < a.len() && a[i] == b.last();
        if i < a.len() - 1 {
            assert(text_le(a[i].0, a[a.len() - 1].0));
        }
        if j < b.len() - 1 {
            assert(text_le(b[j].0, b[b.len() - 1].0));
            assert(b[j].0 != b[b.len() - 1].0);
        }
        lemma_text_le_total(a.last().0, b.last().0);
        assert(a.last() == b.last());
        let ai = a.drop_last();
        let bi = b.drop_last();
        assert forall|x: InputV| #[trigger] ai.contains(x) == bi.contains(x) by {
            lemma_push_contains(a, x);
            lemma_push_contains(b, x);
            assert(a.contains(x) == b.contains(x));
            if ai.contains(x) {
                let k = choose|k: int| 0 <= k < ai.len() && ai[k] == x;
                assert(a[k].0 != a[a.len() - 1].0);
            }
            if bi.contains(x) {
                let k = choose|k: int| 0 <= k < bi.len() && bi[k] == x;
                assert(b[k].0 != b[b.len() - 1].0);
            }
        }
        assert(in_order(ai) && in_order(bi)) by {
            assert forall|p: int, q: int| 0 <= p < q < ai.len() implies text_le(
                (#[trigger] ai[p]).0,
                (#[trigger] ai[q]).0,
            ) by {
                assert(text_le(a[p].0, a[q].0));
            }
            assert forall|p: int, q: int| 0 <= p < q < bi.len() implies text_le(
                (#[trigger] bi[p]).0,
                (#[trigger] bi[q]).0,
            ) by {
                assert(text_le(b[p].0, b[q].0));
            }
        }
        assert(paths_differ(ai) && paths_differ(bi)) by {
            assert forall|p: int, q: int| 0 <= p < q < ai.len() implies (#[trigger] ai[p]).0 != (
            #[trigger] ai[q]).0 by {
                assert(a[p].0 != a[q].0);
            }
            assert forall|p: int, q: int| 0 <= p < q < bi.len() implies (#[trigger] bi[p]).0 != (
            #[trigger] bi[q]).0 by {
                assert(b[p].0 != b[q].0);
            }
        }
        lemma_order_is_unique(ai, bi);
        assert(a =~= ai.push(a.last()));
        assert(b =~= bi.push(b.last()));
    }
}

/// The order in which a directory is listed has no part in the hash: the same
/// files under different paths are hashed as the same text.
pub proof fn listing_order_does_not_matter(a: Seq<InputV>, b: Seq<InputV>)
    requires
        paths_differ(a),
        paths_differ(b),
        same_inputs(a, b),
    ensures
        by_path(a) == by_path(b),
        frame(by_path(a)) == frame(by_path(b)),
{
    inputs_are_put_in_order(a);
    inputs_are_put_in_order(b);
    lemma_paths_still_differ(a);
    lemma_paths_still_differ(b);
    assert forall|x: InputV| #[trigger] by_path(a).contains(x) == by_path(b).contains(x) by {
        assert(a.contains(x) == b.contains(x));
    }
    lemma_order_is_unique(by_path(a), by_path(b));
}

/// The daemon keeps seven kinds of files for itself, by their names; any other file, and one whose
/// name is no text, is an input.
pub proof fn only_files_of_the_daemon_are_left_out(name: Option<String>, r: bool)
    requires
        call_ensures(is_excluded, (&name,), r),
    ensures
        name is None ==> !r,
        name matches Some(n) ==> (r <==> (n@ == ".in-progress"@ || n@ == ".question.json"@ || n@
            == ".answer.json"@ || n@ == ".needs-spec-revision.json"@ || n@ == ".perma-stuck.json"@
            || n@ == ".priority.json"@ || n@ == ".ignore-for-queue.json"@)),
{
}

/// A path goes into the hash with slashes for backslashes, and as it is otherwise.
pub proof fn backslashes_alone_become_slashes(path: Seq<char>, i: int)
    requires
        0 <= i < path.len(),
    ensures
        slashed(path).len() == path.len(),
        path[i] == '\\' ==> slashed(path)[i] == '/',
        path[i] != '\\' ==> slashed(path)[i] == path[i],
{
}

/// The inputs go file by file: each with its path and its bytes, but for those that the daemon
/// keeps for itself; and the first one that cannot be read is why there is no hash.
pub proof fn inputs_go_file_by_file(list: Seq<TreeFile>, more: Seq<TreeFile>)
    ensures
        inputs_of(Seq::empty()) == Seq::<InputV>::empty(),
        first_error(Seq::empty()) is None,
        list.len() == 1 && is_marker(list[0].name) ==> inputs_of(list).len() == 0 && first_error(
            list,
        ) is None,
        list.len() == 1 && !is_marker(list[0].name) ==> match list[0].bytes {
            Ok(bytes) => inputs_of(list) == Seq::empty().push((slashed(list[0].path@), bytes@))
                && first_error(list) is None,
            Err(e) => inputs_of(list).len() == 0 && first_error(list) == Some(e@),
        },
        inputs_of(list + more) == inputs_of(list) + inputs_of(more),
        first_error(list + more) == if first_error(list) is Some {
            first_error(list)
        } else {
            first_error(more)
        },
    decreases more.len(),
{
    if list.len() == 1 {
        assert(list.drop_last() =~= Seq::<TreeFile>::empty());
        assert(inputs_of(list.drop_last()) =~= Seq::<InputV>::empty());
        assert(first_error(list.drop_last()) is None);
        assert(list.last() == list[0]);
    }
    if more.len() == 0 {
        assert(list + more =~= list);
        assert(inputs_of(list) + inputs_of(more) =~= inputs_of(list));
    } else {
        inputs_go_file_by_file(list, more.drop_last());
        assert((list + more).drop_last() =~= list + more.drop_last());
        assert((list + more).last() == more.last());
        assert(inputs_of(list + more) =~= inputs_of(list) + inputs_of(more));
    }
}

/// The text that is hashed goes input by input: the path, a zero, the number of bytes in eight
/// bytes, and the bytes.
pub proof fn the_text_goes_input_by_input(list: Seq<InputV>, more: Seq<InputV>)
    ensures
        frame(Seq::empty()) == Seq::<u8>::empty(),
        list.len() == 1 ==> frame(list) == encode_utf8(list[0].0) + Seq::empty().push(0u8)
            + le_bytes(list[0].1.len(), 8) + list[0].1,
        frame(list + more) == frame(list) + frame(more),
    decreases list.len(),
{
    if list.len() == 1 {
        assert(list.drop_first() =~= Seq::<InputV>::empty());
        assert(frame(list.drop_first()) =~= Seq::<u8>::empty());
        assert(frame(list) =~= framed(list[0]));
    }
    if list.len() == 0 {
        assert(list + more =~= more);
        assert(frame(list) + frame(more) =~= frame(more));
    } else {
        the_text_goes_input_by_input(list.drop_first(), more);
        assert((list + more).drop_first() =~= list.drop_first() + more);
        assert((list + more)[0] == list[0]);
        assert(frame(list + more) =~= frame(list) + frame(more));
    }
}

/// A number is written byte by byte, the least first: each byte counts 256 times as much as the
/// one before it.
pub proof fn the_least_byte_comes_first(n: nat, k: nat)
    ensures
        le_bytes(n, k).len() == k,
        k > 0 ==> le_bytes(n, k)[0] as nat == n % 256,
        k > 0 ==> le_bytes(n, k).drop_first() == le_bytes(n / 256, (k - 1) as nat),
    decreases k,
{
    if k > 0 {
        the_least_byte_comes_first(n / 256, (k - 1) as nat);
        assert(le_bytes(n, k).drop_first() =~= le_bytes(n / 256, (k - 1) as nat));
    }
}

/// The value of a digit in base sixteen, in small letters.
pub open spec fn digit_value(c: char) -> int {
    if '0' <= c <= '9' {
        c as int - '0' as int
    } else if 'a' <= c <= 'f' {
        c as int - 'a' as int + 10
    } else {
        -1
    }
}

/// A hash is written with two digits for each byte, the greater first.
pub proof fn two_digits_stand_for_a_byte(bytes: Seq<u8>, i: int)
    requires
        0 <= i < bytes.len(),
    ensures
        hex(bytes).len() == 2 * bytes.len(),
        digit_value(hex(bytes)[2 * i]) * 16 + digit_value(hex(bytes)[2 * i + 1]) == bytes[i],
    decreases bytes.len(),
{
    lemma_hex(bytes);
    lemma_hex(bytes.drop_last());
    let before = hex(bytes.drop_last());
    if i < bytes.len() - 1 {
        two_digits_stand_for_a_byte(bytes.drop_last(), i);
        assert(hex(bytes)[2 * i] == before[2 * i]);
        assert(hex(bytes)[2 * i + 1] == before[2 * i + 1]);
    }
}

/// The gates need not run again exactly where a record was made, every input could be read, and
/// the record holds the hash of what was read.
pub proof fn a_record_stands_for_its_inputs_alone(
    record: Option<GatePassRecord>,
    files: Result<Vec<TreeFile>, String>,
    r: bool,
    current: Result<String, String>,
    recorded: bool,
)
    requires
        files matches Ok(v) ==> can_be_hashed(v@),
        call_ensures(hash_matches, (&record, &files), r),
        call_ensures(is_recorded, (&record, &current), recorded),
    ensures
        r <==> (record matches Some(rec) && (files matches Ok(v) && first_error(v@) is None
            && rec.inputs_hash@ == hex(sha256_of(frame(by_path(inputs_of(v@))))))),
        recorded <==> (record matches Some(rec) && (current matches Ok(h) && h@
            == rec.inputs_hash@)),
{
}

/// A record holds the hash that it is made of and the moment, and is kept under the name of its
/// change, in the directory of its workspace.
pub proof fn a_record_holds_hash_and_moment(
    hash: &str,
    now: Timestamp,
    r: Option<GatePassRecord>,
    state_dir: &str,
    workspace_basename: &str,
    change: &str,
    path: String,
)
    requires
        call_ensures(new_record, (hash, now), r),
        call_ensures(gate_pass_path, (state_dir, workspace_basename, change), path),
    ensures
        r is None <==> rfc3339(now) is None,
        r matches Some(record) ==> record.inputs_hash@ == hash@ && Some(record.recorded_at@)
            == rfc3339(now),
        path@ == joined(
            joined(joined(state_dir@, "gate-pass"@), workspace_basename@),
            change@ + ".json"@,
        ),
{
}

/// The hash of files: of the text of their inputs, in the order of the paths, where all could be
/// read.
pub proof fn the_hash_is_of_the_inputs(files: Vec<TreeFile>, r: Result<String, String>)
    requires
        can_be_hashed(files@),
        call_ensures(compute_inputs_hash, (&files,), r),
    ensures
        r matches Ok(h) ==> first_error(files@) is None && h@ == hex(
            sha256_of(frame(by_path(inputs_of(files@)))),
        ),
        r matches Err(e) ==> first_error(files@) == Some(e@),
{
}

} // verus!
