//! The logs of a change: a summary, with what was asked and what was answered,
//! and a stream of all that was done in between. What an agent does never gets
//! into the summary, so that nothing in it can be taken for a section.
use vstd::prelude::*;
use vstd::utf8::encode_utf8;
use crate::path::{file_name, file_name_of, join_path, joined, parent, parent_of, stem, stem_of};
use crate::text::{
    cat2, cat3, cat4, chars_of, clone_opt, dec, ends_with, find, find_in, lemma_find, number_text,
    opt_text, push_bytes, starts_with, text_of,
};

verus! {

/// What a line of the stream tells of.
#[derive(Debug, Clone, PartialEq)]
pub enum ActionKind {
    ToolUse,
    ToolResult,
    Assistant,
    Raw,
    Unknown(String),
}

impl ActionKind {
    pub open spec fn prefix_text(self) -> Seq<char> {
        match self {
            ActionKind::ToolUse => "[tool_use]"@,
            ActionKind::ToolResult => "[tool_result]"@,
            ActionKind::Assistant => "[assistant]"@,
            ActionKind::Raw => "[raw]"@,
            ActionKind::Unknown(t) => "[unknown:"@ + t@ + "]"@,
        }
    }

    fn prefix(&self) -> (r: String)
        ensures
            r@ == self.prefix_text(),
    {
        match self {
            ActionKind::ToolUse => "[tool_use]".to_owned(),
            ActionKind::ToolResult => "[tool_result]".to_owned(),
            ActionKind::Assistant => "[assistant]".to_owned(),
            ActionKind::Raw => "[raw]".to_owned(),
            ActionKind::Unknown(t) => cat3("[unknown:", t.as_str(), "]"),
        }
    }
}

/// Where the stream that belongs to a summary is: beside it, with the extension
/// `stream.log`.
pub open spec fn stream_place(summary_path: Seq<char>) -> Seq<char> {
    let name = match file_name(summary_path) {
        Some(n) => stem(n),
        None => "stream"@,
    };
    match parent(summary_path) {
        Some(dir) => joined(dir, name + ".stream.log"@),
        None => name + ".stream.log"@,
    }
}

/// Where the stream that belongs to a summary is.
pub fn stream_path_for(summary_path: &str) -> (r: String)
    ensures
        r@ == stream_place(summary_path@),
{
    let name = match file_name_of(summary_path) {
        Some(n) => stem_of(n.as_str()),
        None => "stream".to_owned(),
    };
    let file = cat2(name.as_str(), ".stream.log");
    match parent_of(summary_path) {
        Some(dir) => join_path(dir.as_str(), file.as_str()),
        None => file,
    }
}

/// The number of bytes of a text.
pub open spec fn byte_count(s: Seq<char>) -> nat {
    encode_utf8(s).len()
}

fn show_byte_count(s: &str) -> (r: String)
    ensures
        r@ == dec(byte_count(s@)),
{
    let n: usize = s.as_bytes().len();
    number_text(n as u64)
}

/// A text that ends with a new line.
pub open spec fn ended(s: Seq<char>) -> Seq<char> {
    if "\n"@.is_suffix_of(s) {
        s
    } else {
        s + "\n"@
    }
}

/// What a summary begins with: what was asked, and where the stream is.
pub open spec fn prompt_section(prompt: Seq<char>, stream_path: Seq<char>) -> Seq<char> {
    let file = match file_name(stream_path) {
        Some(n) => n,
        None => "<change>.stream.log"@,
    };
    "=== PROMPT ("@ + dec(byte_count(prompt)) + " bytes) ===\n"@ + ended(prompt)
        + ("\n=== ACTIONS (see "@ + file + ") ===\n"@)
}

/// The section of a summary that holds the answer.
pub open spec fn final_section(answer: Seq<char>) -> Seq<char> {
    "\n=== FINAL ANSWER ("@ + dec(byte_count(answer)) + " bytes) ===\n"@ + if answer.len() == 0 {
        answer
    } else {
        ended(answer)
    }
}

/// The head of the section that holds what was written to the standard error.
pub open spec fn stderr_head(n: nat) -> Seq<char> {
    "\n=== STDERR ("@ + dec(n) + " bytes) ===\n"@
}

/// Bytes that end with a new line, where there are any.
pub open spec fn ended_bytes(bytes: Seq<u8>) -> Seq<u8> {
    if bytes.len() == 0 || bytes.last() == 10u8 {
        bytes
    } else {
        bytes.push(10u8)
    }
}

/// What a summary ends with.
pub open spec fn trailer(answer: Option<Seq<char>>, stderr: Seq<u8>) -> Seq<u8> {
    let text = match answer {
        Some(a) => a,
        None => ""@,
    };
    encode_utf8(final_section(text) + stderr_head(stderr.len())) + ended_bytes(stderr)
}

fn end_text(s: &str) -> (r: String)
    ensures
        r@ == ended(s@),
{
    if ends_with(s, "\n") {
        s.to_owned()
    } else {
        cat2(s, "\n")
    }
}

/// The state of the logs of one change. The files themselves are written by who
/// holds it, with the texts that it gives.
#[derive(Debug)]
pub struct StructuredLogWriter {
    summary_path: String,
    stream_path: String,
    answer: Option<String>,
    stderr: Vec<u8>,
    finalized: bool,
    session: Option<String>,
}

/// The logs of a change, with nothing in them yet.
pub fn open(summary_path: &str) -> (r: StructuredLogWriter)
    ensures
        r.summary_place() == summary_path@,
        r.stream_place() == stream_place(summary_path@),
        r.answer_text() is None,
        r.stderr_bytes().len() == 0,
        !r.is_finalized(),
        r.session_text() is None,
{
    StructuredLogWriter {
        summary_path: summary_path.to_owned(),
        stream_path: stream_path_for(summary_path),
        answer: None,
        stderr: Vec::new(),
        finalized: false,
        session: None,
    }
}

impl StructuredLogWriter {
    pub closed spec fn summary_place(&self) -> Seq<char> {
        self.summary_path@
    }

    pub closed spec fn stream_place(&self) -> Seq<char> {
        self.stream_path@
    }

    pub closed spec fn answer_text(&self) -> Option<Seq<char>> {
        opt_text(self.answer)
    }

    pub closed spec fn stderr_bytes(&self) -> Seq<u8> {
        self.stderr@
    }

    pub closed spec fn is_finalized(&self) -> bool {
        self.finalized
    }

    pub closed spec fn session_text(&self) -> Option<Seq<char>> {
        opt_text(self.session)
    }

    /// Whether two states are of the same files.
    pub open spec fn same_files(&self, other: &StructuredLogWriter) -> bool {
        self.summary_place() == other.summary_place() && self.stream_place()
            == other.stream_place()
    }

    /// What the summary begins with.
    pub fn write_prompt(&self, prompt: &str) -> (r: String)
        ensures
            r@ == prompt_section(prompt@, self.stream_place()),
    {
        let file = match file_name_of(self.stream_path.as_str()) {
            Some(n) => n,
            None => "<change>.stream.log".to_owned(),
        };
        let head = cat4(
            "=== PROMPT (",
            show_byte_count(prompt).as_str(),
            " bytes) ===\n",
            end_text(prompt).as_str(),
        );
        let pointer = cat3("\n=== ACTIONS (see ", file.as_str(), ") ===\n");
        cat2(head.as_str(), pointer.as_str())
    }

    /// The line that goes to the stream.
    pub fn append_action(&self, kind: &ActionKind, content: &str) -> (r: String)
        ensures
            r@ == kind.prefix_text() + " "@ + content@ + "\n"@,
    {
        cat4(kind.prefix().as_str(), " ", content, "\n")
    }

    /// Keeps the answer until the end. A later one takes its place.
    pub fn set_final_answer(&mut self, text: String)
        ensures
            final(self).answer_text() == Some(text@),
            final(self).same_files(old(self)),
            final(self).stderr_bytes() == old(self).stderr_bytes(),
            final(self).is_finalized() == old(self).is_finalized(),
            final(self).session_text() == old(self).session_text(),
    {
        self.answer = Some(text);
    }

    /// Keeps what was written to the standard error until the end.
    pub fn append_stderr(&mut self, bytes: &[u8])
        ensures
            final(self).stderr_bytes() == old(self).stderr_bytes() + bytes@,
            final(self).same_files(old(self)),
            final(self).answer_text() == old(self).answer_text(),
            final(self).is_finalized() == old(self).is_finalized(),
            final(self).session_text() == old(self).session_text(),
    {
        push_bytes(&mut self.stderr, bytes);
    }

    /// What the summary ends with, and nothing where that was written before.
    /// What was kept of the standard error is given once.
    pub fn finalize(&mut self) -> (r: Vec<u8>)
        ensures
            if old(self).is_finalized() {
                r@.len() == 0 && *final(self) == *old(self)
            } else {
                &&& r@ == trailer(old(self).answer_text(), old(self).stderr_bytes())
                &&& final(self).stderr_bytes().len() == 0
                &&& final(self).same_files(old(self))
                &&& final(self).answer_text() == old(self).answer_text()
                &&& !final(self).is_finalized()
                &&& final(self).session_text() == old(self).session_text()
            },
    {
        if self.finalized {
            return Vec::new();
        }
        let answer = match &self.answer {
            Some(a) => a.clone(),
            None => "".to_owned(),
        };
        let mut stderr: Vec<u8> = Vec::new();
        std::mem::swap(&mut stderr, &mut self.stderr);
        proof {
            reveal_strlit("");
        }
        let body = if answer.as_str().is_empty() {
            answer.clone()
        } else {
            end_text(answer.as_str())
        };
        let last = cat4(
            "\n=== FINAL ANSWER (",
            show_byte_count(answer.as_str()).as_str(),
            " bytes) ===\n",
            body.as_str(),
        );
        let head = cat3(
            "\n=== STDERR (",
            number_text(stderr.len() as u64).as_str(),
            " bytes) ===\n",
        );
        let text = cat2(last.as_str(), head.as_str());
        let mut out: Vec<u8> = Vec::new();
        push_bytes(&mut out, text.as_str().as_bytes());
        push_bytes(&mut out, stderr.as_slice());
        if stderr.len() > 0 && stderr[stderr.len() - 1] != 10u8 {
            out.push(10u8);
        }
        proof {
            assert(out@ =~= trailer(old(self).answer_text(), old(self).stderr_bytes()));
        }
        out
    }

    /// Takes note that the end of the summary was written.
    pub fn close(&mut self)
        ensures
            final(self).is_finalized(),
            final(self).same_files(old(self)),
            final(self).answer_text() == old(self).answer_text(),
            final(self).stderr_bytes() == old(self).stderr_bytes(),
            final(self).session_text() == old(self).session_text(),
    {
        self.finalized = true;
    }

    /// The answer, where there was one.
    pub fn final_answer(&self) -> (r: Option<String>)
        ensures
            opt_text(r) == self.answer_text(),
    {
        clone_opt(&self.answer)
    }

    /// Keeps the name of the session.
    pub fn set_session_id(&mut self, id: String)
        ensures
            final(self).session_text() == Some(id@),
            final(self).same_files(old(self)),
            final(self).answer_text() == old(self).answer_text(),
            final(self).stderr_bytes() == old(self).stderr_bytes(),
            final(self).is_finalized() == old(self).is_finalized(),
    {
        self.session = Some(id);
    }

    /// The name of the session, where it was told.
    pub fn session_id(&self) -> (r: Option<String>)
        ensures
            opt_text(r) == self.session_text(),
    {
        clone_opt(&self.session)
    }

    /// Where the summary is.
    pub fn path(&self) -> (r: &str)
        ensures
            r@ == self.summary_place(),
    {
        self.summary_path.as_str()
    }

    /// Where the stream is.
    pub fn stream_path(&self) -> (r: &str)
        ensures
            r@ == self.stream_place(),
    {
        self.stream_path.as_str()
    }
}

/// A text without the new lines at its end.
pub open spec fn without_newlines(s: Seq<char>) -> Seq<char>
    decreases s.len(),
{
    if s.len() > 0 && s.last() == '\n' {
        without_newlines(s.drop_last())
    } else {
        s
    }
}

/// What stands behind the head of the answer in the text of a summary.
pub open spec fn behind_answer_head(raw: Seq<char>) -> Option<Seq<char>> {
    match find(raw, "=== FINAL ANSWER ("@) {
        Some(h) => {
            let section = raw.subrange(h, raw.len() as int);
            match find(section, "\n"@) {
                Some(n) => Some(section.subrange(n + 1, section.len() as int)),
                None => None,
            }
        },
        None => None,
    }
}

/// What stands before the next head. A head begins a line, the first one too.
pub open spec fn up_to_next_head(body: Seq<char>) -> Seq<char> {
    if "=== "@.is_prefix_of(body) {
        Seq::empty()
    } else {
        match find(body, "\n=== "@) {
            Some(e) => body.subrange(0, e),
            None => body,
        }
    }
}

/// The answer in the text of a summary: what stands between the head of its
/// section and the next head, without the new lines at its end. An empty section
/// holds none.
pub open spec fn answer_in(raw: Seq<char>) -> Option<Seq<char>> {
    match behind_answer_head(raw) {
        Some(body) => {
            let text = without_newlines(up_to_next_head(body));
            if text.len() == 0 {
                None
            } else {
                Some(text)
            }
        },
        None => None,
    }
}

/// The answer in the text of a summary.
pub fn extract_final_answer(raw: &str) -> (r: Option<String>)
    ensures
        opt_text(r) == answer_in(raw@),
{
    let v = chars_of(raw);
    let len: usize = v.len();
    proof {
        assert(v@.subrange(0, v@.len() as int) =~= v@);
        reveal_strlit("\n");
    }
    let header: usize = match find_in(&v, 0, &chars_of("=== FINAL ANSWER (")) {
        Some(i) => i,
        None => return None,
    };
    let ghost section = v@.subrange(header as int, v@.len() as int);
    let new_line = chars_of("\n");
    assert(new_line@.len() == 1);
    let line_end: usize = match find_in(&v, header, &new_line) {
        Some(i) => i,
        None => return None,
    };
    assert(line_end + 1 <= len);
    let start: usize = line_end + 1;
    let ghost body = section.subrange(start - header, section.len() as int);
    proof {
        assert(body =~= v@.subrange(start as int, v@.len() as int));
    }
    if starts_with(text_of(&v, start, len).as_str(), "=== ") {
        return None;
    }
    let stop: usize = match find_in(&v, start, &chars_of("\n=== ")) {
        Some(i) => i,
        None => len,
    };
    let ghost text = v@.subrange(start as int, stop as int);
    proof {
        assert(text =~= up_to_next_head(body));
    }
    let mut end: usize = stop;
    while end > start && v[end - 1] == '\n'
        invariant
            start <= end <= v@.len(),
            without_newlines(text) == without_newlines(v@.subrange(start as int, end as int)),
        decreases end,
    {
        proof {
            assert(v@.subrange(start as int, end as int).drop_last() =~= v@.subrange(
                start as int,
                end - 1,
            ));
        }
        end -= 1;
    }
    if end == start {
        None
    } else {
        Some(text_of(&v, start, end))
    }
}

/// The answer in a summary that was read; none where it could not be read.
pub fn read_final_answer(read: &Option<String>) -> (r: Option<String>)
    ensures
        opt_text(r) == match read {
            Some(raw) => answer_in(raw@),
            None => None,
        },
{
    match read {
        Some(raw) => extract_final_answer(raw.as_str()),
        None => None,
    }
}

proof fn lemma_find_is(s: Seq<char>, p: Seq<char>, i: int)
    requires
        0 <= i <= s.len() - p.len(),
        s.subrange(i, i + p.len()) == p,
        forall|j: int| 0 <= j < i ==> !p.is_prefix_of(#[trigger] s.subrange(j, s.len() as int)),
    ensures
        find(s, p) == Some(i),
{
    lemma_find(s, p);
    let rest = s.subrange(i, s.len() as int);
    assert(rest.subrange(0, p.len() as int) =~= s.subrange(i, i + p.len()));
    assert(p.is_prefix_of(rest));
    if let Some(k) = find(s, p) {
        let other = s.subrange(k, s.len() as int);
        assert(other.subrange(0, p.len() as int) =~= s.subrange(k, k + p.len()));
        assert(p.is_prefix_of(other));
    }
}

proof fn lemma_not_found(s: Seq<char>, p: Seq<char>, j: int)
    requires
        find(s, p) is None,
        0 <= j,
        j + p.len() <= s.len(),
    ensures
        s.subrange(j, j + p.len()) != p,
{
    lemma_find(s, p);
    let rest = s.subrange(j, s.len() as int);
    assert(rest.subrange(0, p.len() as int) =~= s.subrange(j, j + p.len()));
}

/// Whether a text stands in one line.
pub open spec fn one_line(s: Seq<char>) -> bool {
    forall|i: int| 0 <= i < s.len() ==> #[trigger] s[i] != '\n'
}

proof fn lemma_digits(n: nat)
    ensures
        one_line(dec(n)),
    decreases n,
{
    if n >= 10 {
        lemma_digits(n / 10);
    }
}

proof fn lemma_literals()
    ensures
        "\n=== FINAL ANSWER ("@ == Seq::empty().push('\n') + "=== FINAL ANSWER ("@,
        one_line("=== FINAL ANSWER ("@),
        " bytes) ===\n"@ == " bytes) ==="@ + "\n"@,
        one_line(" bytes) ==="@),
        "\n"@ == Seq::empty().push('\n'),
        "\n=== "@.is_prefix_of("\n=== STDERR ("@),
        "\n=== "@.len() == 5,
        "\n=== "@[0] == '\n',
        forall|i: int| 1 <= i < 5 ==> #[trigger] "\n=== "@[i] != '\n',
{
    reveal_strlit("\n=== FINAL ANSWER (");
    reveal_strlit("=== FINAL ANSWER (");
    reveal_strlit(" bytes) ===\n");
    reveal_strlit(" bytes) ===");
    reveal_strlit("\n");
    reveal_strlit("\n=== STDERR (");
    reveal_strlit("\n=== ");
    assert("\n=== FINAL ANSWER ("@ =~= Seq::empty().push('\n') + "=== FINAL ANSWER ("@);
    assert(" bytes) ===\n"@ =~= " bytes) ==="@ + "\n"@);
    assert("\n"@ =~= Seq::empty().push('\n'));
    assert("\n=== STDERR ("@.subrange(0, 5) =~= "\n=== "@);
}

/// Where the head of the section stands: behind what comes before it, where that
/// does not hold such a head itself.
proof fn lemma_header_found(before: Seq<char>, rest: Seq<char>)
    requires
        find(before, "=== FINAL ANSWER ("@) is None,
        "=== FINAL ANSWER ("@.is_prefix_of(rest),
    ensures
        find(before + "\n"@ + rest, "=== FINAL ANSWER ("@) == Some(before.len() as int + 1),
{
    lemma_literals();
    let m = "=== FINAL ANSWER ("@;
    let raw = before + "\n"@ + rest;
    let at = before.len() as int + 1;
    assert(raw.subrange(at, at + m.len()) =~= rest.subrange(0, m.len() as int));
    assert forall|j: int| 0 <= j < at implies !m.is_prefix_of(
        #[trigger] raw.subrange(j, raw.len() as int),
    ) by {
        let tail = raw.subrange(j, raw.len() as int);
        if m.is_prefix_of(tail) {
            assert(tail.subrange(0, m.len() as int) == m);
            if j + m.len() <= before.len() {
                assert(before.subrange(j, j + m.len()) =~= tail.subrange(0, m.len() as int));
                lemma_not_found(before, m, j);
            } else {
                assert(raw[before.len() as int] == '\n');
                assert(tail.subrange(0, m.len() as int)[before.len() - j] == raw[before.len() as int]);
            }
        }
    }
    lemma_find_is(raw, m, at);
}

proof fn lemma_line_end(line: Seq<char>, rest: Seq<char>)
    requires
        one_line(line),
    ensures
        find(line + "\n"@ + rest, "\n"@) == Some(line.len() as int),
{
    lemma_literals();
    let nl = "\n"@;
    let s = line + nl + rest;
    assert(s.subrange(line.len() as int, line.len() as int + nl.len()) =~= nl);
    assert forall|j: int| 0 <= j < line.len() implies !nl.is_prefix_of(
        #[trigger] s.subrange(j, s.len() as int),
    ) by {
        let tail = s.subrange(j, s.len() as int);
        if nl.is_prefix_of(tail) {
            assert(tail.subrange(0, 1) == nl);
            assert(tail.subrange(0, 1)[0] == line[j]);
        }
    }
    lemma_find_is(s, nl, line.len() as int);
}

/// Where the section ends: at the next head, which stands on a line of its own.
proof fn lemma_section_end(answer: Seq<char>, rest: Seq<char>)
    requires
        find(answer, "\n=== "@) is None,
        "\n=== "@.is_prefix_of(rest),
    ensures
        find(answer + "\n"@ + rest, "\n=== "@) == Some(answer.len() as int + 1),
{
    lemma_literals();
    let p = "\n=== "@;
    let s = answer + "\n"@ + rest;
    let at = answer.len() as int + 1;
    assert(s.subrange(at, at + p.len()) =~= rest.subrange(0, p.len() as int));
    assert forall|j: int| 0 <= j < at implies !p.is_prefix_of(
        #[trigger] s.subrange(j, s.len() as int),
    ) by {
        let tail = s.subrange(j, s.len() as int);
        if p.is_prefix_of(tail) {
            let head = tail.subrange(0, p.len() as int);
            assert(head == p);
            if j + p.len() <= answer.len() {
                assert(answer.subrange(j, j + p.len()) =~= head);
                lemma_not_found(answer, p, j);
            } else if j < answer.len() {
                assert(head[answer.len() - j] == s[answer.len() as int]);
                assert(s[answer.len() as int] == '\n');
            } else {
                assert(head[1] == s[at]);
                assert(s[at] == rest[0]);
                assert(rest.subrange(0, p.len() as int)[0] == rest[0]);
            }
        }
    }
    lemma_find_is(s, p, at);
}

/// What is read of a summary is what was answered: the answer comes back as it
/// was, where it does not end with a new line, no line of it begins like a head,
/// and what stands before its section does not hold the head of it; and nothing is
/// read where nothing was answered.
pub proof fn the_answer_is_read_back(
    before: Seq<char>,
    answer: Seq<char>,
    stderr_len: nat,
    after: Seq<char>,
)
    requires
        find(before, "=== FINAL ANSWER ("@) is None,
        find(answer, "\n=== "@) is None,
        !"=== "@.is_prefix_of(answer),
        answer.len() > 0 ==> answer.last() != '\n',
    ensures
        answer_in(before + final_section(answer) + stderr_head(stderr_len) + after) == if answer.len()
            == 0 {
            None::<Seq<char>>
        } else {
            Some(answer)
        },
{
    lemma_literals();
    lemma_digits(byte_count(answer));
    let nl = "\n"@;
    let m = "=== FINAL ANSWER ("@;
    let raw = before + final_section(answer) + stderr_head(stderr_len) + after;
    let line = m + dec(byte_count(answer)) + " bytes) ==="@;
    let tail = stderr_head(stderr_len) + after;
    let shown = if answer.len() == 0 {
        answer
    } else {
        ended(answer)
    };
    if answer.len() > 0 {
        assert(!nl.is_suffix_of(answer)) by {
            if nl.is_suffix_of(answer) {
                assert(answer.subrange(answer.len() - 1, answer.len() as int)[0] == nl[0]);
            }
        }
    }
    let section = line + nl + (shown + tail);
    assert(raw =~= before + nl + section);
    assert(m.is_prefix_of(section)) by {
        assert(section.subrange(0, m.len() as int) =~= m);
    }
    lemma_header_found(before, section);
    assert(raw.subrange(before.len() as int + 1, raw.len() as int) =~= section);
    assert(one_line(line)) by {
        assert forall|i: int| 0 <= i < line.len() implies #[trigger] line[i] != '\n' by {
            if i < m.len() {
                assert(line[i] == m[i]);
            } else if i < m.len() + dec(byte_count(answer)).len() {
                assert(line[i] == dec(byte_count(answer))[i - m.len()]);
            } else {
                assert(line[i] == " bytes) ==="@[i - m.len() - dec(byte_count(answer)).len()]);
            }
        }
    }
    lemma_line_end(line, shown + tail);
    let body = section.subrange(line.len() as int + 1, section.len() as int);
    assert(body =~= shown + tail);
    let p = "\n=== "@;
    assert(p.is_prefix_of(tail)) by {
        assert(tail.subrange(0, 5) =~= "\n=== STDERR ("@.subrange(0, 5));
    }
    assert(behind_answer_head(raw) == Some(body));
    lemma_answer_of_body(answer, tail);
    assert(body =~= if answer.len() == 0 {
        tail
    } else {
        answer + nl + tail
    });
}

/// The section of an answer, in front of the head that follows: no head begins it,
/// and what stands before the next one is the answer.
proof fn lemma_answer_of_body(answer: Seq<char>, tail: Seq<char>)
    requires
        find(answer, "\n=== "@) is None,
        !"=== "@.is_prefix_of(answer),
        answer.len() > 0 ==> answer.last() != '\n',
        "\n=== "@.is_prefix_of(tail),
    ensures
        without_newlines(
            up_to_next_head(
                if answer.len() == 0 {
                    tail
                } else {
                    answer + "\n"@ + tail
                },
            ),
        ) == answer,
{
    let nl = "\n"@;
    let p = "\n=== "@;
    let q = "=== "@;
    reveal_strlit("\n");
    reveal_strlit("=== ");
    reveal_strlit("\n=== ");
    if answer.len() == 0 {
        assert(tail.subrange(0, p.len() as int)[0] == tail[0]);
        assert(!q.is_prefix_of(tail)) by {
            if q.is_prefix_of(tail) {
                assert(tail.subrange(0, q.len() as int)[0] == q[0]);
            }
        }
        assert(tail.subrange(0, 0int + p.len()) == p);
        lemma_find_is(tail, p, 0);
        assert(tail.subrange(0, 0) =~= answer);
        assert(without_newlines(answer) == answer);
    } else {
        let body = answer + nl + tail;
        assert(!q.is_prefix_of(body)) by {
            if q.is_prefix_of(body) {
                let head = body.subrange(0, q.len() as int);
                if answer.len() >= q.len() {
                    assert(answer.subrange(0, q.len() as int) =~= head);
                } else {
                    let n = answer.len() as int;
                    assert(head[n] == body[n]);
                    assert(body[n] == '\n');
                }
            }
        }
        lemma_section_end(answer, tail);
        let text = body.subrange(0, answer.len() as int + 1);
        assert(text.drop_last() =~= answer);
        assert(text.last() == '\n');
        assert(without_newlines(answer) == answer);
        assert(without_newlines(text) == answer);
    }
}

/// A text is ended by one new line where it has none, and stays otherwise.
pub proof fn a_text_is_ended_once(s: Seq<char>)
    ensures
        s.len() > 0 && s.last() == '\n' ==> ended(s) == s,
        s.len() == 0 || s.last() != '\n' ==> ended(s) == s.push('\n'),
{
    reveal_strlit("\n");
    if s.len() > 0 {
        assert(s.subrange(s.len() - 1, s.len() as int)[0] == s.last());
        if s.last() == '\n' {
            assert(s.subrange(s.len() - 1, s.len() as int) =~= "\n"@);
        }
    }
    assert(s + "\n"@ =~= s.push('\n'));
}

/// The new lines at the end of a text are taken off, and nothing else.
pub proof fn the_last_new_lines_are_taken_off(s: Seq<char>, tail: Seq<char>)
    requires
        s.len() > 0 ==> s.last() != '\n',
        forall|i: int| 0 <= i < tail.len() ==> #[trigger] tail[i] == '\n',
    ensures
        without_newlines(s + tail) == s,
    decreases tail.len(),
{
    if tail.len() == 0 {
        assert(s + tail =~= s);
    } else {
        assert((s + tail).drop_last() =~= s + tail.drop_last());
        assert((s + tail).last() == tail.last());
        the_last_new_lines_are_taken_off(s, tail.drop_last());
    }
}

/// A summary begins with what was asked, under a head that counts its bytes, and with the name of
/// the stream.
pub proof fn a_summary_begins_with_the_prompt(w: StructuredLogWriter, prompt: &str, r: String)
    requires
        call_ensures(StructuredLogWriter::write_prompt, (&w, prompt), r),
    ensures
        ({
            let stream = match file_name(w.stream_place()) {
                Some(n) => n,
                None => "<change>.stream.log"@,
            };
            r@ == "=== PROMPT ("@ + dec(encode_utf8(prompt@).len()) + " bytes) ===\n"@ + ended(
                prompt@,
            ) + ("\n=== ACTIONS (see "@ + stream + ") ===\n"@)
        }),
{
}

/// The stream of a summary lies beside it, under its name without the extension.
pub proof fn the_stream_lies_beside_the_summary(path: &str, r: String, w: StructuredLogWriter)
    requires
        call_ensures(stream_path_for, (path,), r),
        call_ensures(open, (path,), w),
    ensures
        ({
            let name = match file_name(path@) {
                Some(n) => stem(n),
                None => "stream"@,
            };
            &&& (parent(path@) matches Some(dir) ==> r@ == joined(dir, name + ".stream.log"@))
            &&& parent(path@) is None ==> r@ == name + ".stream.log"@
        }),
        w.summary_place() == path@,
        w.stream_place() == r@,
        w.answer_text() is None && w.session_text() is None,
        w.stderr_bytes().len() == 0,
        !w.is_finalized(),
{
}

/// A line of the stream names its kind, and holds what it tells of.
pub proof fn a_line_of_the_stream_names_its_kind(
    w: StructuredLogWriter,
    kind: ActionKind,
    content: &str,
    r: String,
)
    requires
        call_ensures(StructuredLogWriter::append_action, (&w, &kind, content), r),
    ensures
        ({
            let prefix = match kind {
                ActionKind::ToolUse => "[tool_use]"@,
                ActionKind::ToolResult => "[tool_result]"@,
                ActionKind::Assistant => "[assistant]"@,
                ActionKind::Raw => "[raw]"@,
                ActionKind::Unknown(t) => "[unknown:"@ + t@ + "]"@,
            };
            r@ == prefix + " "@ + content@ + "\n"@
        }),
{
}

/// The end of a summary: the answer, empty where there was none, and what was written to the
/// standard error, each under a head that counts its bytes. It is given as long as the end was
/// not written, and what was kept of the standard error is given once.
pub proof fn a_summary_ends_with_answer_and_errors(q: Ghost<&mut StructuredLogWriter>, r: Vec<u8>)
    requires
        call_ensures(StructuredLogWriter::finalize, (q@,), r),
    ensures
        (*q@).is_finalized() ==> r@.len() == 0 && *final(q@) == *q@,
        !(*q@).is_finalized() ==> {
            let answer = match (*q@).answer_text() {
                Some(a) => a,
                None => ""@,
            };
            let shown = if answer.len() == 0 {
                answer
            } else {
                ended(answer)
            };
            let err = (*q@).stderr_bytes();
            let text = "\n=== FINAL ANSWER ("@ + dec(encode_utf8(answer).len()) + " bytes) ===\n"@
                + shown + ("\n=== STDERR ("@ + dec(err.len()) + " bytes) ===\n"@);
            &&& r@ == encode_utf8(text) + if err.len() == 0 || err.last() == 10u8 {
                err
            } else {
                err.push(10u8)
            }
            &&& (*final(q@)).stderr_bytes().len() == 0
            &&& (*final(q@)).answer_text() == (*q@).answer_text()
            &&& (*final(q@)).session_text() == (*q@).session_text()
            &&& !(*final(q@)).is_finalized()
        },
{
}

/// What is kept: the last answer and the last name of a session as they were given, all that was
/// written to the standard error, in order, and that the end was written. Nothing else changes
/// with it.
pub proof fn what_is_told_is_kept(
    a: Ghost<&mut StructuredLogWriter>,
    text: String,
    b: Ghost<&mut StructuredLogWriter>,
    bytes: &[u8],
    c: Ghost<&mut StructuredLogWriter>,
    id: String,
    d: Ghost<&mut StructuredLogWriter>,
)
    requires
        call_ensures(StructuredLogWriter::set_final_answer, (a@, text), ()),
        call_ensures(StructuredLogWriter::append_stderr, (b@, bytes), ()),
        call_ensures(StructuredLogWriter::set_session_id, (c@, id), ()),
        call_ensures(StructuredLogWriter::close, (d@,), ()),
    ensures
        (*final(a@)).answer_text() == Some(text@),
        (*final(a@)).stderr_bytes() == (*a@).stderr_bytes(),
        (*final(a@)).session_text() == (*a@).session_text(),
        (*final(a@)).is_finalized() == (*a@).is_finalized(),
        (*final(b@)).answer_text() == (*b@).answer_text(),
        (*final(b@)).stderr_bytes() == (*b@).stderr_bytes() + bytes@,
        (*final(b@)).session_text() == (*b@).session_text(),
        (*final(b@)).is_finalized() == (*b@).is_finalized(),
        (*final(c@)).answer_text() == (*c@).answer_text(),
        (*final(c@)).stderr_bytes() == (*c@).stderr_bytes(),
        (*final(c@)).session_text() == Some(id@),
        (*final(c@)).is_finalized() == (*c@).is_finalized(),
        (*final(d@)).answer_text() == (*d@).answer_text(),
        (*final(d@)).stderr_bytes() == (*d@).stderr_bytes(),
        (*final(d@)).session_text() == (*d@).session_text(),
        (*final(d@)).is_finalized(),
{
}

/// What was told can be read.
pub proof fn what_was_told_can_be_read(
    w: StructuredLogWriter,
    answer: Option<String>,
    session: Option<String>,
    path: &str,
    stream: &str,
)
    requires
        call_ensures(StructuredLogWriter::final_answer, (&w,), answer),
        call_ensures(StructuredLogWriter::session_id, (&w,), session),
        call_ensures(StructuredLogWriter::path, (&w,), path),
        call_ensures(StructuredLogWriter::stream_path, (&w,), stream),
    ensures
        opt_text(answer) == w.answer_text(),
        opt_text(session) == w.session_text(),
        path@ == w.summary_place(),
        stream@ == w.stream_place(),
{
}

/// No answer is read of a text that does not hold the head of the section, or that ends in it,
/// nor where nothing could be read.
pub proof fn no_section_holds_no_answer(raw: Seq<char>, r: Option<String>)
    requires
        call_ensures(read_final_answer, (&None::<String>,), r),
    ensures
        r is None,
        find(raw, "=== FINAL ANSWER ("@) is None ==> answer_in(raw) is None,
{
}

/// The answer that is taken of a summary is the one that it holds.
pub proof fn the_answer_is_the_one_it_holds(
    raw: &str,
    a: Option<String>,
    read: String,
    b: Option<String>,
)
    requires
        call_ensures(extract_final_answer, (raw,), a),
        call_ensures(read_final_answer, (&Some(read),), b),
    ensures
        opt_text(a) == answer_in(raw@),
        opt_text(b) == answer_in(read@),
{
}

/// The section of the answer goes to the next line that begins like a head, also where that is
/// its first line, and to the end where there is none; the new lines at its end are no part of
/// the answer.
pub proof fn a_section_goes_to_the_next_head(before: Seq<char>, line: Seq<char>, body: Seq<char>)
    requires
        find(before, "=== FINAL ANSWER ("@) is None,
        one_line(line),
    ensures
        ({
            let raw = before + "\n"@ + ("=== FINAL ANSWER ("@ + line + "\n"@ + body);
            let all = without_newlines(body);
            &&& "=== "@.is_prefix_of(body) ==> answer_in(raw) is None
            &&& !"=== "@.is_prefix_of(body) && find(body, "\n=== "@) is None ==> answer_in(raw)
                == if all.len() == 0 {
                None
            } else {
                Some(all)
            }
        }),
{
    lemma_literals();
    let m = "=== FINAL ANSWER ("@;
    let head = m + line;
    let section = head + "\n"@ + body;
    let raw = before + "\n"@ + section;
    assert(m.is_prefix_of(section)) by {
        assert(section.subrange(0, m.len() as int) =~= m);
    }
    lemma_header_found(before, section);
    assert(raw.subrange(before.len() as int + 1, raw.len() as int) =~= section);
    assert(one_line(head)) by {
        assert forall|i: int| 0 <= i < head.len() implies #[trigger] head[i] != '\n' by {
            if i < m.len() {
                assert(head[i] == m[i]);
            } else {
                assert(head[i] == line[i - m.len()]);
            }
        }
    }
    lemma_line_end(head, body);
    assert(section.subrange(head.len() as int + 1, section.len() as int) =~= body);
    assert(behind_answer_head(raw) == Some(body));
    assert(without_newlines(Seq::<char>::empty()).len() == 0);
}

} // verus!
