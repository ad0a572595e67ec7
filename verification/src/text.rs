//! Text handled as a sequence of characters: concatenation, trimming, lines,
//! searching, decimal numbers, the order of strings, and sorting.
use vstd::prelude::*;

verus! {

/// `String::push` of std: appends the given character to the end of the string.
pub assume_specification[ String::push ](s: &mut String, c: char)
    ensures
        final(s)@ == old(s)@.push(c),
;

/// The characters of each string of a list.
pub open spec fn texts(v: Seq<String>) -> Seq<Seq<char>> {
    Seq::new(v.len(), |i: int| v[i]@)
}

pub proof fn lemma_texts_push(v: Seq<String>, s: String)
    ensures
        texts(v.push(s)) == texts(v).push(s@),
{
    assert(texts(v.push(s)) =~= texts(v).push(s@));
}

pub proof fn lemma_texts_empty()
    ensures
        texts(Seq::<String>::empty()) == Seq::<Seq<char>>::empty(),
{
    assert(texts(Seq::<String>::empty()) =~= Seq::<Seq<char>>::empty());
}

/// The characters of an optional string.
pub open spec fn opt_text(o: Option<String>) -> Option<Seq<char>> {
    match o {
        Some(s) => Some(s@),
        None => None,
    }
}

/// A copy of an optional string.
pub fn clone_opt(o: &Option<String>) -> (r: Option<String>)
    ensures
        r == *o,
{
    match o {
        Some(s) => Some(s.clone()),
        None => None,
    }
}

pub fn cat2(a: &str, b: &str) -> (r: String)
    ensures
        r@ == a@ + b@,
{
    let mut s = a.to_owned();
    s.append(b);
    s
}

pub fn cat3(a: &str, b: &str, c: &str) -> (r: String)
    ensures
        r@ == a@ + b@ + c@,
{
    let mut s = a.to_owned();
    s.append(b);
    s.append(c);
    s
}

pub fn cat4(a: &str, b: &str, c: &str, d: &str) -> (r: String)
    ensures
        r@ == a@ + b@ + c@ + d@,
{
    let mut s = a.to_owned();
    s.append(b);
    s.append(c);
    s.append(d);
    s
}

pub fn cat5(a: &str, b: &str, c: &str, d: &str, e: &str) -> (r: String)
    ensures
        r@ == a@ + b@ + c@ + d@ + e@,
{
    let mut s = a.to_owned();
    s.append(b);
    s.append(c);
    s.append(d);
    s.append(e);
    s
}

/// Whether two strings hold the same characters.
pub fn same_text(a: &str, b: &str) -> (r: bool)
    ensures
        r == (a@ == b@),
{
    let x = a.to_owned();
    let y = b.to_owned();
    x == y
}

/// The characters of a string, in order.
pub fn chars_of(s: &str) -> (r: Vec<char>)
    ensures
        r@ == s@,
{
    let mut out: Vec<char> = Vec::new();
    for c in iter: s.chars()
        invariant
            iter.seq() == s@,
            out@ == s@.take(iter.index() as int),
    {
        proof {
            assert(s@.take(iter.index() + 1) =~= s@.take(iter.index() as int).push(c));
        }
        out.push(c);
    }
    proof {
        assert(s@.take(s@.len() as int) =~= s@);
    }
    out
}

/// The string made of the characters `from..to`.
pub fn text_of(v: &Vec<char>, from: usize, to: usize) -> (r: String)
    requires
        from <= to <= v@.len(),
    ensures
        r@ == v@.subrange(from as int, to as int),
{
    let mut s = String::new();
    let mut i: usize = from;
    proof {
        assert(v@.subrange(from as int, from as int) =~= Seq::<char>::empty());
    }
    while i < to
        invariant
            from <= i <= to <= v@.len(),
            s@ == v@.subrange(from as int, i as int),
        decreases to - i,
    {
        s.push(v[i]);
        i += 1;
        proof {
            assert(v@.subrange(from as int, i as int) =~= v@.subrange(from as int, i - 1).push(
                v@[i - 1],
            ));
        }
    }
    s
}

/// The characters with the Unicode property White_Space.
pub open spec fn is_white(c: char) -> bool {
    let n = c as u32;
    ||| 9 <= n <= 13
    ||| n == 0x20
    ||| n == 0x85
    ||| n == 0xA0
    ||| n == 0x1680
    ||| 0x2000 <= n <= 0x200A
    ||| n == 0x2028
    ||| n == 0x2029
    ||| n == 0x202F
    ||| n == 0x205F
    ||| n == 0x3000
}

pub fn white(c: char) -> (r: bool)
    ensures
        r == is_white(c),
{
    let n: u32 = c as u32;
    (9 <= n && n <= 13) || n == 0x20 || n == 0x85 || n == 0xA0 || n == 0x1680 || (0x2000 <= n && n
        <= 0x200A) || n == 0x2028 || n == 0x2029 || n == 0x202F || n == 0x205F || n == 0x3000
}

/// What is left of `s` without its leading white space.
pub open spec fn trim_start(s: Seq<char>) -> Seq<char>
    decreases s.len(),
{
    if s.len() > 0 && is_white(s[0]) {
        trim_start(s.drop_first())
    } else {
        s
    }
}

/// What is left of `s` without its trailing white space.
pub open spec fn trim_end(s: Seq<char>) -> Seq<char>
    decreases s.len(),
{
    if s.len() > 0 && is_white(s.last()) {
        trim_end(s.drop_last())
    } else {
        s
    }
}

/// What is left of `s` without leading and trailing white space.
pub open spec fn trim(s: Seq<char>) -> Seq<char> {
    trim_end(trim_start(s))
}

/// Whether `s` holds nothing but white space.
pub open spec fn is_blank(s: Seq<char>) -> bool {
    trim(s).len() == 0
}

/// Index of the first character that is not white space, at or after `from`.
fn skip_white(v: &Vec<char>, from: usize) -> (r: usize)
    requires
        from <= v@.len(),
    ensures
        from <= r <= v@.len(),
        trim_start(v@.subrange(from as int, v@.len() as int)) == v@.subrange(
            r as int,
            v@.len() as int,
        ),
{
    let mut i: usize = from;
    while i < v.len() && white(v[i])
        invariant
            from <= i <= v@.len(),
            trim_start(v@.subrange(from as int, v@.len() as int)) == trim_start(
                v@.subrange(i as int, v@.len() as int),
            ),
        decreases v@.len() - i,
    {
        proof {
            assert(v@.subrange(i as int, v@.len() as int).drop_first() =~= v@.subrange(
                i + 1,
                v@.len() as int,
            ));
        }
        i += 1;
    }
    i
}

/// End of the text `from..to` without its trailing white space.
fn skip_white_back(v: &Vec<char>, from: usize, to: usize) -> (r: usize)
    requires
        from <= to <= v@.len(),
    ensures
        from <= r <= to,
        trim_end(v@.subrange(from as int, to as int)) == v@.subrange(from as int, r as int),
{
    let mut i: usize = to;
    while i > from && white(v[i - 1])
        invariant
            from <= i <= to <= v@.len(),
            trim_end(v@.subrange(from as int, to as int)) == trim_end(
                v@.subrange(from as int, i as int),
            ),
        decreases i,
    {
        proof {
            assert(v@.subrange(from as int, i as int).drop_last() =~= v@.subrange(
                from as int,
                i - 1,
            ));
        }
        i -= 1;
    }
    i
}

/// `s` without leading white space.
pub fn trim_start_text(s: &str) -> (r: String)
    ensures
        r@ == trim_start(s@),
{
    let v = chars_of(s);
    proof {
        assert(v@.subrange(0, v@.len() as int) =~= v@);
    }
    let i: usize = skip_white(&v, 0);
    text_of(&v, i, v.len())
}

/// `s` without trailing white space.
pub fn trim_end_text(s: &str) -> (r: String)
    ensures
        r@ == trim_end(s@),
{
    let v = chars_of(s);
    proof {
        assert(v@.subrange(0, v@.len() as int) =~= v@);
    }
    let i: usize = skip_white_back(&v, 0, v.len());
    text_of(&v, 0, i)
}

/// `s` without leading and trailing white space.
pub fn trim_text(s: &str) -> (r: String)
    ensures
        r@ == trim(s@),
{
    let v = chars_of(s);
    proof {
        assert(v@.subrange(0, v@.len() as int) =~= v@);
    }
    let i: usize = skip_white(&v, 0);
    let j: usize = skip_white_back(&v, i, v.len());
    text_of(&v, i, j)
}

/// Whether `s` holds nothing but white space.
pub fn blank(s: &str) -> (r: bool)
    ensures
        r == is_blank(s@),
{
    let t = trim_text(s);
    t.as_str().is_empty()
}

/// Length of the word that `s` begins with.
pub open spec fn word_len(s: Seq<char>) -> int
    decreases s.len(),
{
    if s.len() == 0 || is_white(s[0]) {
        0
    } else {
        1 + word_len(s.drop_first())
    }
}

pub proof fn lemma_word(s: Seq<char>)
    ensures
        trim_start(s).len() <= s.len(),
        trim_start(s).len() > 0 ==> !is_white(trim_start(s)[0]),
        0 <= word_len(s) <= s.len(),
        s.len() > 0 && !is_white(s[0]) ==> word_len(s) > 0,
    decreases s.len(),
{
    if s.len() > 0 {
        lemma_word(s.drop_first());
    }
}

/// The words of `s`: what stands between white space.
pub open spec fn words(s: Seq<char>) -> Seq<Seq<char>>
    decreases s.len(),
{
    let t = trim_start(s);
    let n = word_len(t);
    if t.len() == 0 {
        Seq::empty()
    } else {
        proof {
            lemma_word(s);
            lemma_word(t);
        }
        Seq::empty().push(t.subrange(0, n)) + words(t.subrange(n, t.len() as int))
    }
}

/// End of the word that begins at `from`.
fn word_end(v: &Vec<char>, from: usize) -> (r: usize)
    requires
        from <= v@.len(),
    ensures
        from <= r <= v@.len(),
        r == from + word_len(v@.subrange(from as int, v@.len() as int)),
{
    let mut i: usize = from;
    while i < v.len() && !white(v[i])
        invariant
            from <= i <= v@.len(),
            from + word_len(v@.subrange(from as int, v@.len() as int)) == i + word_len(
                v@.subrange(i as int, v@.len() as int),
            ),
        decreases v@.len() - i,
    {
        proof {
            assert(v@.subrange(i as int, v@.len() as int).drop_first() =~= v@.subrange(
                i + 1,
                v@.len() as int,
            ));
        }
        i += 1;
    }
    i
}

/// The words of `s`.
pub fn words_of(s: &str) -> (r: Vec<String>)
    ensures
        texts(r@) == words(s@),
{
    let v = chars_of(s);
    let mut out: Vec<String> = Vec::new();
    let mut i: usize = skip_white(&v, 0);
    proof {
        lemma_texts_empty();
        assert(v@.subrange(0, v@.len() as int) =~= v@);
        lemma_word(v@);
        lemma_same_words(v@);
        assert(texts(out@) + words(v@) =~= words(v@));
        if i < v@.len() {
            assert(trim_start(v@)[0] == v@[i as int]);
        }
    }
    while i < v.len()
        invariant
            i <= v@.len(),
            i < v@.len() ==> !is_white(v@[i as int]),
            words(v@) == texts(out@) + words(v@.subrange(i as int, v@.len() as int)),
        decreases v@.len() - i,
    {
        let j: usize = word_end(&v, i);
        let word = text_of(&v, i, j);
        let next: usize = skip_white(&v, j);
        proof {
            let rest = v@.subrange(i as int, v@.len() as int);
            lemma_word(rest);
            assert(trim_start(rest) == rest);
            assert(rest.subrange(0, j - i) =~= word@);
            assert(rest.subrange(j - i, rest.len() as int) =~= v@.subrange(
                j as int,
                v@.len() as int,
            ));
            lemma_same_words(v@.subrange(j as int, v@.len() as int));
            lemma_word(v@.subrange(j as int, v@.len() as int));
            lemma_texts_push(out@, word);
            assert(texts(out@) + (Seq::empty().push(word@) + words(
                v@.subrange(next as int, v@.len() as int),
            )) =~= texts(out@).push(word@) + words(v@.subrange(next as int, v@.len() as int)));
            if next < v@.len() {
                assert(trim_start(v@.subrange(j as int, v@.len() as int))[0] == v@[next as int]);
            }
        }
        out.push(word);
        i = next;
    }
    proof {
        assert(v@.subrange(v@.len() as int, v@.len() as int) =~= Seq::<char>::empty());
        assert(texts(out@) + Seq::<Seq<char>>::empty() =~= texts(out@));
    }
    out
}

proof fn lemma_same_words(s: Seq<char>)
    ensures
        words(trim_start(s)) == words(s),
{
    lemma_word(s);
    assert(trim_start(trim_start(s)) == trim_start(s));
}

/// Index of the first `c` in `s`, or the length of `s` where there is none.
pub open spec fn first_index(s: Seq<char>, c: char) -> int
    decreases s.len(),
{
    if s.len() == 0 || s[0] == c {
        0
    } else {
        1 + first_index(s.drop_first(), c)
    }
}

pub proof fn lemma_first_index(s: Seq<char>, c: char)
    ensures
        0 <= first_index(s, c) <= s.len(),
        first_index(s, c) < s.len() ==> s[first_index(s, c)] == c,
        forall|j: int| 0 <= j < first_index(s, c) ==> s[j] != c,
        first_index(s, c) == s.len() <==> !s.contains(c),
    decreases s.len(),
{
    if s.len() == 0 || s[0] == c {
    } else {
        lemma_first_index(s.drop_first(), c);
        assert forall|j: int| 0 <= j < first_index(s, c) implies s[j] != c by {
            if j > 0 {
                assert(s.drop_first()[j - 1] == s[j]);
            }
        }
        if first_index(s, c) < s.len() {
            assert(s[first_index(s, c)] == s.drop_first()[first_index(s, c) - 1]);
        }
    }
}

pub proof fn lemma_first_index_is(s: Seq<char>, c: char, i: int)
    requires
        0 <= i <= s.len(),
        i < s.len() ==> s[i] == c,
        forall|j: int| 0 <= j < i ==> s[j] != c,
    ensures
        first_index(s, c) == i,
{
    lemma_first_index(s, c);
}

/// Index of the first `c` at or after `from`, or the length where there is none.
pub fn find_char(v: &Vec<char>, from: usize, c: char) -> (r: usize)
    requires
        from <= v@.len(),
    ensures
        from <= r <= v@.len(),
        r == from + first_index(v@.subrange(from as int, v@.len() as int), c),
        r < v@.len() ==> v@[r as int] == c,
        forall|j: int| from <= j < r ==> v@[j] != c,
{
    let mut i: usize = from;
    while i < v.len() && v[i] != c
        invariant
            from <= i <= v@.len(),
            forall|j: int| from <= j < i ==> v@[j] != c,
        decreases v@.len() - i,
    {
        i += 1;
    }
    proof {
        let s = v@.subrange(from as int, v@.len() as int);
        assert forall|j: int| 0 <= j < i - from implies s[j] != c by {
            assert(s[j] == v@[j + from]);
        }
        lemma_first_index_is(s, c, i - from);
    }
    i
}

/// A line without the carriage return before its newline.
pub open spec fn strip_cr(s: Seq<char>) -> Seq<char> {
    if s.len() > 0 && s.last() == '\r' {
        s.drop_last()
    } else {
        s
    }
}

/// The lines of a text. A newline ends a line, a carriage return before it is
/// dropped, and a last line needs no newline.
pub open spec fn lines(s: Seq<char>) -> Seq<Seq<char>>
    decreases s.len(),
{
    let i = first_index(s, '\n');
    proof {
        lemma_first_index(s, '\n');
    }
    if s.len() == 0 {
        Seq::empty()
    } else if i == s.len() {
        seq![s]
    } else {
        seq![strip_cr(s.subrange(0, i))] + lines(s.subrange(i + 1, s.len() as int))
    }
}

/// The lines of a text.
pub fn lines_of(s: &str) -> (r: Vec<String>)
    ensures
        texts(r@) == lines(s@),
{
    let v = chars_of(s);
    let n: usize = v.len();
    let mut out: Vec<String> = Vec::new();
    let mut start: usize = 0;
    proof {
        assert(v@.subrange(0, v@.len() as int) =~= v@);
        assert(texts(out@) + lines(v@) =~= lines(v@));
    }
    while start < n
        invariant
            n == v@.len(),
            start <= n,
            lines(v@) == texts(out@) + lines(v@.subrange(start as int, n as int)),
        decreases n - start,
    {
        let ghost rest = v@.subrange(start as int, n as int);
        let end: usize = find_char(&v, start, '\n');
        proof {
            lemma_first_index(rest, '\n');
        }
        let mut stop: usize = end;
        if end < n && end > start && v[end - 1] == '\r' {
            stop = end - 1;
        }
        let line = text_of(&v, start, stop);
        let ghost before = texts(out@);
        proof {
            lemma_texts_push(out@, line);
            if end < n {
                let head = rest.subrange(0, end - start);
                assert(head =~= v@.subrange(start as int, end as int));
                if end > start {
                    assert(head.last() == v@[end - 1]);
                }
                assert(strip_cr(head) =~= line@);
                assert(rest.subrange(end - start + 1, rest.len() as int) =~= v@.subrange(
                    end + 1,
                    n as int,
                ));
                assert(lines(rest) == seq![line@] + lines(v@.subrange(end + 1, n as int)));
                assert(before + lines(rest) =~= before.push(line@) + lines(
                    v@.subrange(end + 1, n as int),
                ));
            } else {
                assert(rest =~= line@);
                assert(lines(rest) == seq![line@]);
                assert(v@.subrange(n as int, n as int) =~= Seq::<char>::empty());
                assert(before + lines(rest) =~= before.push(line@) + lines(
                    v@.subrange(n as int, n as int),
                ));
            }
        }
        out.push(line);
        if end < n {
            start = end + 1;
        } else {
            start = n;
        }
    }
    proof {
        assert(v@.subrange(n as int, n as int) =~= Seq::<char>::empty());
        assert(texts(out@) + Seq::<Seq<char>>::empty() =~= texts(out@));
    }
    out
}

/// Whether the characters of `p` stand in `v` at `at`.
fn matches_at(v: &Vec<char>, at: usize, p: &Vec<char>) -> (r: bool)
    requires
        at <= v@.len(),
    ensures
        r == p@.is_prefix_of(v@.subrange(at as int, v@.len() as int)),
{
    if p.len() > v.len() - at {
        return false;
    }
    let ghost rest = v@.subrange(at as int, v@.len() as int);
    let mut i: usize = 0;
    while i < p.len()
        invariant
            i <= p@.len(),
            at + p@.len() <= v.len(),
            rest == v@.subrange(at as int, v@.len() as int),
            forall|j: int| 0 <= j < i ==> p@[j] == rest[j],
        decreases p@.len() - i,
    {
        if p[i] != v[at + i] {
            proof {
                assert(rest[i as int] == v@[at + i]);
                assert(rest.subrange(0, p@.len() as int)[i as int] == rest[i as int]);
            }
            return false;
        }
        i += 1;
    }
    proof {
        assert(p@ =~= rest.subrange(0, p@.len() as int));
    }
    true
}

/// Whether `s` begins with `p`.
pub fn starts_with(s: &str, p: &str) -> (r: bool)
    ensures
        r == p@.is_prefix_of(s@),
{
    let v = chars_of(s);
    let q = chars_of(p);
    proof {
        assert(v@.subrange(0, v@.len() as int) =~= v@);
    }
    matches_at(&v, 0, &q)
}

/// Whether `s` ends with `p`.
pub fn ends_with(s: &str, p: &str) -> (r: bool)
    ensures
        r == p@.is_suffix_of(s@),
{
    let v = chars_of(s);
    let q = chars_of(p);
    if q.len() > v.len() {
        return false;
    }
    let at: usize = v.len() - q.len();
    let ghost rest = v@.subrange(at as int, v@.len() as int);
    proof {
        assert(rest.subrange(0, q@.len() as int) =~= rest);
    }
    matches_at(&v, at, &q)
}

/// `s` without the prefix `p`, where it begins with `p`.
pub open spec fn without_prefix(s: Seq<char>, p: Seq<char>) -> Option<Seq<char>> {
    if p.is_prefix_of(s) {
        Some(s.subrange(p.len() as int, s.len() as int))
    } else {
        None
    }
}

/// `s` without the prefix `p`, where it begins with `p`.
pub fn strip_prefix(s: &str, p: &str) -> (r: Option<String>)
    ensures
        opt_text(r) == without_prefix(s@, p@),
{
    if starts_with(s, p) {
        let v = chars_of(s);
        let n: usize = p.unicode_len();
        Some(text_of(&v, n, v.len()))
    } else {
        None
    }
}

/// `s` without the suffix `p`, where it ends with `p`.
pub open spec fn without_suffix(s: Seq<char>, p: Seq<char>) -> Option<Seq<char>> {
    if p.is_suffix_of(s) {
        Some(s.subrange(0, s.len() - p.len()))
    } else {
        None
    }
}

/// `s` without the suffix `p`, where it ends with `p`.
pub fn strip_suffix(s: &str, p: &str) -> (r: Option<String>)
    ensures
        opt_text(r) == without_suffix(s@, p@),
{
    if ends_with(s, p) {
        let v = chars_of(s);
        let n: usize = p.unicode_len();
        Some(text_of(&v, 0, v.len() - n))
    } else {
        None
    }
}

/// Where `p` first stands in `s`.
pub open spec fn find(s: Seq<char>, p: Seq<char>) -> Option<int>
    decreases s.len(),
{
    if p.is_prefix_of(s) {
        Some(0)
    } else if s.len() == 0 {
        None
    } else {
        match find(s.drop_first(), p) {
            Some(i) => Some(i + 1),
            None => None,
        }
    }
}

/// What `find` gives: the first place where `p` stands, or none at all.
pub proof fn lemma_find(s: Seq<char>, p: Seq<char>)
    ensures
        match find(s, p) {
            Some(i) => {
                &&& 0 <= i <= s.len() - p.len()
                &&& s.subrange(i, i + p.len()) == p
                &&& forall|j: int|
                    0 <= j < i ==> !p.is_prefix_of(#[trigger] s.subrange(j, s.len() as int))
            },
            None => forall|j: int|
                0 <= j <= s.len() ==> !p.is_prefix_of(#[trigger] s.subrange(j, s.len() as int)),
        },
    decreases s.len(),
{
    assert(s.subrange(0, s.len() as int) =~= s);
    if p.is_prefix_of(s) {
    } else if s.len() == 0 {
    } else {
        let t = s.drop_first();
        lemma_find(t, p);
        assert forall|j: int| 1 <= j <= s.len() implies #[trigger] s.subrange(j, s.len() as int)
            == t.subrange(j - 1, t.len() as int) by {
            assert(s.subrange(j, s.len() as int) =~= t.subrange(j - 1, t.len() as int));
        }
        if let Some(i) = find(t, p) {
            assert(s.subrange(i + 1, i + 1 + p.len()) =~= t.subrange(i, i + p.len()));
        }
    }
}

/// Where `p` first stands in `v` at or after `from`.
pub fn find_in(v: &Vec<char>, from: usize, p: &Vec<char>) -> (r: Option<usize>)
    requires
        from <= v@.len(),
    ensures
        match r {
            Some(i) => from <= i && i + p@.len() <= v@.len() && find(
                v@.subrange(from as int, v@.len() as int),
                p@,
            ) == Some(i - from),
            None => find(v@.subrange(from as int, v@.len() as int), p@) is None,
        },
{
    let ghost s = v@.subrange(from as int, v@.len() as int);
    let mut i: usize = from;
    proof {
        lemma_find(s, p@);
    }
    loop
        invariant
            from <= i <= v@.len(),
            s == v@.subrange(from as int, v@.len() as int),
            match find(s, p@) {
                Some(k) => match find(v@.subrange(i as int, v@.len() as int), p@) {
                    Some(m) => k == m + (i - from) && k <= s.len() - p@.len(),
                    None => false,
                },
                None => find(v@.subrange(i as int, v@.len() as int), p@) is None,
            },
        decreases v@.len() - i,
    {
        let ghost rest = v@.subrange(i as int, v@.len() as int);
        if matches_at(v, i, p) {
            return Some(i);
        }
        if i == v.len() {
            return None;
        }
        proof {
            assert(rest.drop_first() =~= v@.subrange(i + 1, v@.len() as int));
        }
        i += 1;
    }
}

/// The decimal digit of a number below ten.
pub open spec fn digit(n: int) -> char {
    if n == 0 {
        '0'
    } else if n == 1 {
        '1'
    } else if n == 2 {
        '2'
    } else if n == 3 {
        '3'
    } else if n == 4 {
        '4'
    } else if n == 5 {
        '5'
    } else if n == 6 {
        '6'
    } else if n == 7 {
        '7'
    } else if n == 8 {
        '8'
    } else {
        '9'
    }
}

fn digit_char(n: u64) -> (r: char)
    requires
        n < 10,
    ensures
        r == digit(n as int),
{
    if n == 0 {
        '0'
    } else if n == 1 {
        '1'
    } else if n == 2 {
        '2'
    } else if n == 3 {
        '3'
    } else if n == 4 {
        '4'
    } else if n == 5 {
        '5'
    } else if n == 6 {
        '6'
    } else if n == 7 {
        '7'
    } else if n == 8 {
        '8'
    } else {
        '9'
    }
}

/// A number in decimal, without leading zeros.
pub open spec fn dec(n: nat) -> Seq<char>
    decreases n,
{
    if n < 10 {
        seq![digit(n as int)]
    } else {
        dec(n / 10).push(digit((n % 10) as int))
    }
}

/// A number in decimal.
pub fn number_text(n: u64) -> (r: String)
    ensures
        r@ == dec(n as nat),
    decreases n,
{
    if n < 10 {
        let mut s = String::new();
        s.push(digit_char(n));
        s
    } else {
        let mut s = number_text(n / 10);
        s.push(digit_char(n % 10));
        s
    }
}

/// `parts` with `sep` between each two of them.
pub open spec fn join(parts: Seq<Seq<char>>, sep: Seq<char>) -> Seq<char>
    decreases parts.len(),
{
    if parts.len() == 0 {
        Seq::empty()
    } else if parts.len() == 1 {
        parts[0]
    } else {
        join(parts.drop_last(), sep) + sep + parts.last()
    }
}

/// Joining part of a list and the rest of it, and then the two, joins the list; what is
/// joined of one part is that part, and of none nothing.
pub proof fn joins_can_be_split(parts: Seq<Seq<char>>, sep: Seq<char>, k: int)
    requires
        0 <= k <= parts.len(),
    ensures
        parts.len() == 0 ==> join(parts, sep) == Seq::<char>::empty(),
        parts.len() == 1 ==> join(parts, sep) == parts[0],
        0 < k < parts.len() ==> join(parts, sep) == join(parts.take(k), sep) + sep + join(
            parts.skip(k),
            sep,
        ),
    decreases parts.len(),
{
    if 0 < k < parts.len() {
        let init = parts.drop_last();
        if k < parts.len() - 1 {
            joins_can_be_split(init, sep, k);
            assert(init.take(k) =~= parts.take(k));
            assert(init.skip(k) =~= parts.skip(k).drop_last());
            assert(parts.skip(k).last() == parts.last());
            assert(join(parts, sep) =~= join(parts.take(k), sep) + sep + join(parts.skip(k), sep));
        } else {
            assert(parts.take(k) =~= init);
            assert(parts.skip(k).len() == 1);
            assert(parts.skip(k)[0] == parts.last());
        }
    }
}

/// A text holds what was put into it.
pub proof fn lemma_holds(before: Seq<char>, part: Seq<char>, after: Seq<char>)
    ensures
        find(before + part + after, part) is Some,
{
    let s = before + part + after;
    lemma_find(s, part);
    let rest = s.subrange(before.len() as int, s.len() as int);
    assert(rest.subrange(0, part.len() as int) =~= part);
    assert(part.is_prefix_of(rest));
}

/// What is joined holds each part.
pub proof fn lemma_join_holds(parts: Seq<Seq<char>>, sep: Seq<char>, k: int)
    requires
        0 <= k < parts.len(),
    ensures
        find(join(parts, sep), parts[k]) is Some,
{
    let none = Seq::<char>::empty();
    let (head, rest) = if k == 0 {
        (none, parts)
    } else {
        joins_can_be_split(parts, sep, k);
        (join(parts.take(k), sep) + sep, parts.skip(k))
    };
    assert(join(parts, sep) =~= head + join(rest, sep));
    assert(rest[0] == parts[k]);
    let tail = if rest.len() == 1 {
        none
    } else {
        joins_can_be_split(rest, sep, 1);
        assert(rest.take(1).len() == 1 && rest.take(1)[0] == parts[k]);
        sep + join(rest.skip(1), sep)
    };
    assert(join(parts, sep) =~= head + parts[k] + tail);
    lemma_holds(head, parts[k], tail);
}

/// `parts` with `sep` between each two of them.
pub fn join_texts(parts: &Vec<String>, sep: &str) -> (r: String)
    ensures
        r@ == join(texts(parts@), sep@),
{
    let mut s = String::new();
    let mut i: usize = 0;
    let ghost all = texts(parts@);
    while i < parts.len()
        invariant
            i <= parts@.len(),
            all == texts(parts@),
            s@ == join(all.take(i as int), sep@),
        decreases parts@.len() - i,
    {
        proof {
            assert(all.take(i + 1).drop_last() =~= all.take(i as int));
        }
        if i > 0 {
            s.append(sep);
        }
        s.append(parts[i].as_str());
        i += 1;
        proof {
            assert(all.take(i as int).last() == parts@[i - 1]@);
            if i == 1 {
                assert(s@ =~= all.take(1)[0]);
            }
        }
    }
    proof {
        assert(all.take(all.len() as int) =~= all);
    }
    s
}

/// The order of strings: by their characters, the first difference decides.
pub open spec fn text_le(a: Seq<char>, b: Seq<char>) -> bool
    decreases a.len(),
{
    if a.len() == 0 {
        true
    } else if b.len() == 0 {
        false
    } else if a[0] == b[0] {
        text_le(a.drop_first(), b.drop_first())
    } else {
        (a[0] as int) < (b[0] as int)
    }
}

pub proof fn lemma_text_le_total(a: Seq<char>, b: Seq<char>)
    ensures
        text_le(a, b) || text_le(b, a),
        text_le(a, b) && text_le(b, a) ==> a == b,
        a == b ==> text_le(a, b),
    decreases a.len(),
{
    if a.len() > 0 && b.len() > 0 && a[0] == b[0] {
        lemma_text_le_total(a.drop_first(), b.drop_first());
        if a.drop_first() == b.drop_first() {
            assert(a =~= seq![a[0]] + a.drop_first());
            assert(b =~= seq![b[0]] + b.drop_first());
        }
    } else if a.len() == 0 && b.len() == 0 {
        assert(a =~= b);
    }
}

pub proof fn lemma_text_le_trans(a: Seq<char>, b: Seq<char>, c: Seq<char>)
    requires
        text_le(a, b),
        text_le(b, c),
    ensures
        text_le(a, c),
    decreases a.len(),
{
    if a.len() > 0 && b.len() > 0 && c.len() > 0 {
        if a[0] == b[0] && b[0] == c[0] {
            lemma_text_le_trans(a.drop_first(), b.drop_first(), c.drop_first());
        }
    }
}

/// The code point of a character.
fn code_point(c: char) -> (r: u32)
    ensures
        r as int == c as int,
{
    c as u32
}

/// Whether `a` comes no later than `b` in the order of strings.
pub fn at_most(a: &str, b: &str) -> (r: bool)
    ensures
        r == text_le(a@, b@),
{
    let x = chars_of(a);
    let y = chars_of(b);
    let mut i: usize = 0;
    proof {
        assert(x@.subrange(0, x@.len() as int) =~= x@);
        assert(y@.subrange(0, y@.len() as int) =~= y@);
    }
    while i < x.len() && i < y.len() && x[i] == y[i]
        invariant
            i <= x@.len(),
            i <= y@.len(),
            text_le(a@, b@) == text_le(
                x@.subrange(i as int, x@.len() as int),
                y@.subrange(i as int, y@.len() as int),
            ),
        decreases x@.len() - i,
    {
        proof {
            assert(x@.subrange(i as int, x@.len() as int).drop_first() =~= x@.subrange(
                i + 1,
                x@.len() as int,
            ));
            assert(y@.subrange(i as int, y@.len() as int).drop_first() =~= y@.subrange(
                i + 1,
                y@.len() as int,
            ));
        }
        i += 1;
    }
    if i == x.len() {
        true
    } else if i == y.len() {
        false
    } else {
        code_point(x[i]) < code_point(y[i])
    }
}

/// Whether a list of strings is in order.
pub open spec fn is_sorted(s: Seq<Seq<char>>) -> bool {
    forall|i: int, j: int| 0 <= i <= j < s.len() ==> text_le(#[trigger] s[i], #[trigger] s[j])
}

/// The strings of a list in order: what an ordered list with the same
/// strings, each as often, must be.
pub proof fn lemma_sorted_unique(a: Seq<Seq<char>>, b: Seq<Seq<char>>)
    requires
        is_sorted(a),
        is_sorted(b),
        a.to_multiset() == b.to_multiset(),
    ensures
        a == b,
    decreases a.len(),
{
    broadcast use vstd::seq_lib::group_to_multiset_ensures;

    assert(a.len() == a.to_multiset().len());
    assert(b.len() == b.to_multiset().len());
    if a.len() > 0 {
        let x = a[0];
        let y = b[0];
        assert(a.contains(x));
        assert(a.to_multiset().contains(x));
        assert(b.contains(x));
        assert(b.to_multiset().contains(y));
        assert(a.contains(y));
        let i = choose|i: int| 0 <= i < b.len() && b[i] == x;
        let j = choose|j: int| 0 <= j < a.len() && a[j] == y;
        assert(text_le(b[0], b[i]));
        assert(text_le(a[0], a[j]));
        lemma_text_le_total(x, y);
        let c = a.drop_first();
        let d = b.drop_first();
        assert(c =~= a.remove(0));
        assert(d =~= b.remove(0));
        assert forall|i: int, j: int| 0 <= i <= j < c.len() implies text_le(
            #[trigger] c[i],
            #[trigger] c[j],
        ) by {
            assert(text_le(a[i + 1], a[j + 1]));
        }
        assert forall|i: int, j: int| 0 <= i <= j < d.len() implies text_le(
            #[trigger] d[i],
            #[trigger] d[j],
        ) by {
            assert(text_le(b[i + 1], b[j + 1]));
        }
        lemma_sorted_unique(c, d);
        assert(a =~= seq![x] + c);
        assert(b =~= seq![y] + d);
    } else {
        assert(a =~= b);
    }
}

/// The strings of a list, in order.
pub open spec fn sorted(s: Seq<Seq<char>>) -> Seq<Seq<char>> {
    choose|t: Seq<Seq<char>>| #[trigger] is_sorted(t) && t.to_multiset() == s.to_multiset()
}

/// Puts `s` into an ordered list so that it stays in order.
fn insert_text(v: &mut Vec<String>, s: String)
    requires
        is_sorted(texts(old(v)@)),
        old(v)@.len() < usize::MAX,
    ensures
        is_sorted(texts(final(v)@)),
        texts(final(v)@).to_multiset() == texts(old(v)@).to_multiset().insert(s@),
        final(v)@.len() == old(v)@.len() + 1,
{
    let mut i: usize = v.len();
    let ghost a = texts(v@);
    while i > 0 && !at_most(v[i - 1].as_str(), s.as_str())
        invariant
            i <= v@.len(),
            v@ == old(v)@,
            a == texts(v@),
            is_sorted(a),
            forall|j: int| i <= j < a.len() ==> text_le(s@, #[trigger] a[j]),
        decreases i,
    {
        i -= 1;
        proof {
            assert(a[i as int] == v@[i as int]@);
            lemma_text_le_total(a[i as int], s@);
        }
    }
    proof {
        assert forall|j: int| 0 <= j < i implies text_le(#[trigger] a[j], s@) by {
            assert(a[i - 1] == v@[i - 1]@);
            assert(text_le(a[j], a[i - 1]));
            lemma_text_le_trans(a[j], a[i - 1], s@);
        }
    }
    let ghost t = s@;
    v.insert(i, s);
    proof {
        let b = texts(v@);
        assert(b =~= a.insert(i as int, t));
        vstd::seq_lib::to_multiset_insert(a, i as int, t);
        assert forall|j: int, k: int| 0 <= j <= k < b.len() implies text_le(
            #[trigger] b[j],
            #[trigger] b[k],
        ) by {
            lemma_text_le_total(t, t);
            let p = if j < i {
                j
            } else {
                j - 1
            };
            let q = if k < i {
                k
            } else {
                k - 1
            };
            if j != i && k != i {
                assert(b[j] == a[p]);
                assert(b[k] == a[q]);
                assert(text_le(a[p], a[q]));
            } else if j == i && k != i {
                assert(b[k] == a[q]);
            } else if k == i && j != i {
                assert(b[j] == a[p]);
            }
        }
    }
}

/// The strings of a list, in order.
pub fn sort_texts(v: &Vec<String>) -> (r: Vec<String>)
    ensures
        is_sorted(texts(r@)),
        texts(r@).to_multiset() == texts(v@).to_multiset(),
        texts(r@) == sorted(texts(v@)),
{
    broadcast use vstd::seq_lib::group_to_multiset_ensures;

    let mut out: Vec<String> = Vec::new();
    let mut i: usize = 0;
    let ghost all = texts(v@);
    proof {
        lemma_texts_empty();
        assert(all.take(0) =~= Seq::<Seq<char>>::empty());
    }
    while i < v.len()
        invariant
            i <= v@.len(),
            out@.len() == i,
            all == texts(v@),
            is_sorted(texts(out@)),
            texts(out@).to_multiset() == all.take(i as int).to_multiset(),
        decreases v@.len() - i,
    {
        broadcast use vstd::seq_lib::group_to_multiset_ensures;

        let s = v[i].clone();
        insert_text(&mut out, s);
        i += 1;
        proof {
            assert(all.take(i as int) =~= all.take(i - 1).push(all[i - 1]));
        }
    }
    proof {
        assert(all.take(all.len() as int) =~= all);
        assert(is_sorted(texts(out@)));
        lemma_sorted_unique(texts(out@), sorted(all));
    }
    out
}

/// Appends bytes.
pub fn push_bytes(out: &mut Vec<u8>, more: &[u8])
    ensures
        final(out)@ == old(out)@ + more@,
{
    let mut i: usize = 0;
    proof {
        assert(out@ + more@.take(0) =~= out@);
    }
    while i < more.len()
        invariant
            i <= more@.len(),
            out@ == old(out)@ + more@.take(i as int),
        decreases more@.len() - i,
    {
        out.push(more[i]);
        i += 1;
        proof {
            assert(old(out)@ + more@.take(i as int) =~= (old(out)@ + more@.take(i - 1)).push(
                more@[i - 1],
            ));
        }
    }
    proof {
        assert(more@.take(more@.len() as int) =~= more@);
    }
}

/// What stands before the first `c` of `s` and what stands behind it.
pub open spec fn split_once(s: Seq<char>, c: char) -> Option<(Seq<char>, Seq<char>)> {
    let i = first_index(s, c);
    if i < s.len() {
        Some((s.subrange(0, i), s.subrange(i + 1, s.len() as int)))
    } else {
        None
    }
}

/// The characters of an optional pair of strings.
pub open spec fn opt_pair(o: Option<(String, String)>) -> Option<(Seq<char>, Seq<char>)> {
    match o {
        Some((a, b)) => Some((a@, b@)),
        None => None,
    }
}

/// What stands before the first `c` of `s` and what stands behind it.
pub fn split_at_first(s: &str, c: char) -> (r: Option<(String, String)>)
    ensures
        opt_pair(r) == split_once(s@, c),
{
    let v = chars_of(s);
    proof {
        assert(v@.subrange(0, v@.len() as int) =~= v@);
    }
    let i: usize = find_char(&v, 0, c);
    if i < v.len() {
        Some((text_of(&v, 0, i), text_of(&v, i + 1, v.len())))
    } else {
        None
    }
}

/// Index of the last `c` in `s`, or minus one where there is none.
pub open spec fn last_index(s: Seq<char>, c: char) -> int
    decreases s.len(),
{
    if s.len() == 0 {
        -1
    } else if s.last() == c {
        s.len() - 1
    } else {
        last_index(s.drop_last(), c)
    }
}

/// What stands before the last `c` of `s` and what stands behind it.
pub open spec fn rsplit_once(s: Seq<char>, c: char) -> Option<(Seq<char>, Seq<char>)> {
    let i = last_index(s, c);
    if i >= 0 {
        Some((s.subrange(0, i), s.subrange(i + 1, s.len() as int)))
    } else {
        None
    }
}

/// What stands before the last `c` of `s` and what stands behind it.
pub fn split_at_last(s: &str, c: char) -> (r: Option<(String, String)>)
    ensures
        opt_pair(r) == rsplit_once(s@, c),
{
    let v = chars_of(s);
    let mut i: usize = v.len();
    proof {
        assert(v@.subrange(0, v@.len() as int) =~= v@);
    }
    while i > 0 && v[i - 1] != c
        invariant
            i <= v@.len(),
            last_index(v@, c) == last_index(v@.subrange(0, i as int), c),
        decreases i,
    {
        proof {
            assert(v@.subrange(0, i as int).drop_last() =~= v@.subrange(0, i - 1));
        }
        i -= 1;
    }
    if i == 0 {
        None
    } else {
        Some((text_of(&v, 0, i - 1), text_of(&v, i, v.len())))
    }
}

/// `s` without the `c`s that it begins with.
pub open spec fn strip_front(s: Seq<char>, c: char) -> Seq<char>
    decreases s.len(),
{
    if s.len() > 0 && s[0] == c {
        strip_front(s.drop_first(), c)
    } else {
        s
    }
}

/// `s` without the `c`s that it ends with.
pub open spec fn strip_back(s: Seq<char>, c: char) -> Seq<char>
    decreases s.len(),
{
    if s.len() > 0 && s.last() == c {
        strip_back(s.drop_last(), c)
    } else {
        s
    }
}

/// `s` without the `c`s around it.
pub fn trim_char(s: &str, c: char) -> (r: String)
    ensures
        r@ == strip_back(strip_front(s@, c), c),
{
    let v = chars_of(s);
    let mut i: usize = 0;
    proof {
        assert(v@.subrange(0, v@.len() as int) =~= v@);
    }
    while i < v.len() && v[i] == c
        invariant
            i <= v@.len(),
            strip_front(v@, c) == strip_front(v@.subrange(i as int, v@.len() as int), c),
        decreases v@.len() - i,
    {
        proof {
            assert(v@.subrange(i as int, v@.len() as int).drop_first() =~= v@.subrange(
                i + 1,
                v@.len() as int,
            ));
        }
        i += 1;
    }
    let mut j: usize = v.len();
    let ghost front = v@.subrange(i as int, v@.len() as int);
    while j > i && v[j - 1] == c
        invariant
            i <= j <= v@.len(),
            strip_back(front, c) == strip_back(v@.subrange(i as int, j as int), c),
        decreases j,
    {
        proof {
            assert(v@.subrange(i as int, j as int).drop_last() =~= v@.subrange(i as int, j - 1));
        }
        j -= 1;
    }
    text_of(&v, i, j)
}

/// A letter from `A` to `Z` as its small counterpart; any other character as it
/// is.
pub open spec fn small(c: char) -> char {
    if 'A' <= c <= 'Z' {
        ((c as u8) + 32) as u8 as char
    } else {
        c
    }
}

/// A text in small letters, as far as it is ASCII.
pub open spec fn lowered(s: Seq<char>) -> Seq<char> {
    Seq::new(s.len(), |i: int| small(s[i]))
}

fn small_letter(c: char) -> (r: char)
    ensures
        r == small(c),
{
    if 'A' <= c && c <= 'Z' {
        let b: u8 = c as u8;
        (b + 32) as char
    } else {
        c
    }
}

/// A text in small letters, as far as it is ASCII.
pub fn lower_text(s: &str) -> (r: String)
    ensures
        r@ == lowered(s@),
{
    let v = chars_of(s);
    let mut out = String::new();
    let mut i: usize = 0;
    while i < v.len()
        invariant
            i <= v@.len(),
            v@ == s@,
            out@ == lowered(s@).take(i as int),
        decreases v@.len() - i,
    {
        out.push(small_letter(v[i]));
        i += 1;
        proof {
            assert(lowered(s@).take(i as int) =~= lowered(s@).take(i - 1).push(small(s@[i - 1])));
        }
    }
    proof {
        assert(lowered(s@).take(v@.len() as int) =~= lowered(s@));
    }
    out
}

/// Which characters are white space: of the visible ones of ASCII none, of the others there
/// the space, the tab and those that end a line.
pub proof fn visible_characters_are_not_white(c: char)
    ensures
        '!' <= c <= '~' ==> !is_white(c),
        c == ' ' || c == '\t' || c == '\n' || c == '\r' || c as u32 == 11 || c as u32 == 12
            ==> is_white(c),
        c as u32 <= 8 || 14 <= c as u32 <= 31 || c as u32 == 127 ==> !is_white(c),
        c as u32 == 0x85 || c as u32 == 0xA0 || c as u32 == 0x1680 || 0x2000 <= c as u32 <= 0x200A
            || c as u32 == 0x2028 || c as u32 == 0x2029 || c as u32 == 0x202F || c as u32 == 0x205F
            || c as u32 == 0x3000 ==> is_white(c),
{
}

/// Trimming takes white space away at both ends, all of it, and nothing else.
pub proof fn trimming_takes_white_space_alone(s: Seq<char>) -> (r: (int, int))
    ensures
        0 <= r.0 <= r.1 <= s.len(),
        trim(s) == s.subrange(r.0, r.1),
        forall|i: int| 0 <= i < r.0 ==> is_white(#[trigger] s[i]),
        forall|i: int| r.1 <= i < s.len() ==> is_white(#[trigger] s[i]),
        r.0 < r.1 ==> !is_white(s[r.0]) && !is_white(s[r.1 - 1]),
        is_blank(s) <==> forall|i: int| 0 <= i < s.len() ==> is_white(#[trigger] s[i]),
{
    let a = lemma_trim_start(s);
    let t = trim_start(s);
    let n = lemma_trim_end(t);
    assert(trim(s) =~= s.subrange(a, a + n));
    assert forall|i: int| a + n <= i < s.len() implies is_white(#[trigger] s[i]) by {
        assert(t[i - a] == s[i]);
    }
    if n > 0 {
        assert(t[n - 1] == s[a + n - 1]);
        if a < s.len() {
            assert(t[0] == s[a]);
        }
    }
    (a, a + n)
}

proof fn lemma_trim_start(s: Seq<char>) -> (a: int)
    ensures
        0 <= a <= s.len(),
        trim_start(s) == s.subrange(a, s.len() as int),
        forall|i: int| 0 <= i < a ==> is_white(#[trigger] s[i]),
        a < s.len() ==> !is_white(s[a]),
    decreases s.len(),
{
    if s.len() > 0 && is_white(s[0]) {
        let rest = s.drop_first();
        let b = lemma_trim_start(rest);
        assert(trim_start(s) =~= s.subrange(b + 1, s.len() as int));
        assert forall|i: int| 0 <= i < b + 1 implies is_white(#[trigger] s[i]) by {
            if i > 0 {
                assert(rest[i - 1] == s[i]);
            }
        }
        b + 1
    } else {
        assert(s.subrange(0, s.len() as int) =~= s);
        0
    }
}

proof fn lemma_trim_end(s: Seq<char>) -> (n: int)
    ensures
        0 <= n <= s.len(),
        trim_end(s) == s.subrange(0, n),
        forall|i: int| n <= i < s.len() ==> is_white(#[trigger] s[i]),
        n > 0 ==> !is_white(s[n - 1]),
    decreases s.len(),
{
    if s.len() > 0 && is_white(s.last()) {
        let rest = s.drop_last();
        let n = lemma_trim_end(rest);
        assert(trim_end(s) =~= s.subrange(0, n));
        assert forall|i: int| n <= i < s.len() implies is_white(#[trigger] s[i]) by {
            if i < rest.len() {
                assert(rest[i] == s[i]);
            }
        }
        n
    } else {
        assert(s.subrange(0, s.len() as int) =~= s);
        s.len() as int
    }
}

/// White space alone parts words: a text without any is one word, and the words of two texts
/// with white space between them are those of the one and then of the other.
pub proof fn white_space_parts_words(a: Seq<char>, c: char, b: Seq<char>)
    requires
        is_white(c),
    ensures
        words(Seq::empty()) == Seq::<Seq<char>>::empty(),
        a.len() > 0 && (forall|i: int| 0 <= i < a.len() ==> !is_white(#[trigger] a[i])) ==> words(a)
            == seq![a],
        words(a.push(c) + b) == words(a) + words(b),
    decreases a.len(),
{
    assert(words(Seq::<char>::empty()) =~= Seq::<Seq<char>>::empty());
    let s = a.push(c) + b;
    if a.len() == 0 {
        assert(s[0] == c);
        assert(s.drop_first() =~= b);
        lemma_same_words(b);
        lemma_same_words(s);
        assert(trim_start(s) == trim_start(b));
        assert(words(a) + words(b) =~= words(b));
    } else if is_white(a[0]) {
        let rest = a.drop_first();
        white_space_parts_words(rest, c, b);
        assert(s.drop_first() =~= rest.push(c) + b);
        lemma_same_words(a);
        lemma_same_words(rest);
        lemma_same_words(s);
        lemma_same_words(rest.push(c) + b);
        assert(trim_start(s) == trim_start(rest.push(c) + b));
        assert(trim_start(a) == trim_start(rest));
    } else {
        let n = word_len(a);
        lemma_word(a);
        lemma_word_len(a, c, b);
        let rest = a.subrange(n, a.len() as int);
        white_space_parts_words(rest, c, b);
        assert(s.subrange(0, n) =~= a.subrange(0, n));
        assert(s.subrange(n, s.len() as int) =~= rest.push(c) + b);
        assert(s[0] == a[0]);
        let none = Seq::<Seq<char>>::empty();
        assert((none.push(a.subrange(0, n)) + words(rest)) + words(b) =~= none.push(
            a.subrange(0, n),
        ) + (words(rest) + words(b)));
        if forall|i: int| 0 <= i < a.len() ==> !is_white(#[trigger] a[i]) {
            lemma_whole_word(a);
            assert(a.subrange(0, n) =~= a);
            assert(rest =~= Seq::<char>::empty());
            assert(words(a) =~= seq![a]);
        }
    }
}

proof fn lemma_word_len(a: Seq<char>, c: char, b: Seq<char>)
    requires
        is_white(c),
    ensures
        word_len(a.push(c) + b) == word_len(a),
    decreases a.len(),
{
    let s = a.push(c) + b;
    if a.len() == 0 {
        assert(s[0] == c);
    } else {
        assert(s[0] == a[0]);
        assert(s.drop_first() =~= a.drop_first().push(c) + b);
        lemma_word_len(a.drop_first(), c, b);
    }
}

proof fn lemma_whole_word(a: Seq<char>)
    requires
        forall|i: int| 0 <= i < a.len() ==> !is_white(#[trigger] a[i]),
    ensures
        word_len(a) == a.len(),
    decreases a.len(),
{
    if a.len() > 0 {
        let rest = a.drop_first();
        assert(!is_white(a[0]));
        assert forall|i: int| 0 <= i < rest.len() implies !is_white(#[trigger] rest[i]) by {
            assert(rest[i] == a[i + 1]);
        }
        lemma_whole_word(rest);
    }
}

/// A newline ends a line: what stands before the first one is the first line, without a
/// carriage return at its end, and the lines behind it follow; a last line needs none.
pub proof fn newlines_part_lines(a: Seq<char>, b: Seq<char>)
    requires
        forall|i: int| 0 <= i < a.len() ==> #[trigger] a[i] != '\n',
    ensures
        lines(Seq::empty()) == Seq::<Seq<char>>::empty(),
        a.len() > 0 ==> lines(a) == seq![a],
        lines(a.push('\n') + b) == seq![
            if a.len() > 0 && a.last() == '\r' {
                a.drop_last()
            } else {
                a
            },
        ] + lines(b),
{
    assert(lines(Seq::<char>::empty()) =~= Seq::<Seq<char>>::empty());
    lemma_first_index_is(a, '\n', a.len() as int);
    let s = a.push('\n') + b;
    assert forall|j: int| 0 <= j < a.len() implies s[j] != '\n' by {
        assert(s[j] == a[j]);
    }
    lemma_first_index_is(s, '\n', a.len() as int);
    assert(s.subrange(0, a.len() as int) =~= a);
    assert(s.subrange(a.len() as int + 1, s.len() as int) =~= b);
}

/// The number that decimal digits stand for.
pub open spec fn value_of(s: Seq<char>) -> int
    decreases s.len(),
{
    if s.len() == 0 {
        0
    } else {
        value_of(s.drop_last()) * 10 + (s.last() as int - '0' as int)
    }
}

/// A number is written in decimal digits that stand for it, without a zero in front of others.
pub proof fn digits_stand_for_the_number(n: nat)
    ensures
        value_of(dec(n)) == n,
        dec(n).len() > 0,
        forall|i: int| 0 <= i < dec(n).len() ==> '0' <= #[trigger] dec(n)[i] <= '9',
        dec(n).len() > 1 ==> dec(n)[0] != '0',
    decreases n,
{
    if n < 10 {
        assert(dec(n).drop_last() =~= Seq::<char>::empty());
        assert(value_of(dec(n).drop_last()) == 0);
        assert(dec(n).last() == digit(n as int));
    } else {
        digits_stand_for_the_number(n / 10);
        assert(dec(n).drop_last() =~= dec(n / 10));
        assert(dec(n).last() == digit((n % 10) as int));
        assert forall|i: int| 0 <= i < dec(n).len() implies '0' <= #[trigger] dec(n)[i] <= '9' by {
            if i < dec(n / 10).len() {
                assert(dec(n)[i] == dec(n / 10)[i]);
            }
        }
        if dec(n / 10).len() == 1 {
            assert(value_of(dec(n / 10).drop_last()) == 0) by {
                assert(dec(n / 10).drop_last() =~= Seq::<char>::empty());
            }
        }
        assert(dec(n)[0] == dec(n / 10)[0]);
    }
}

/// A text is taken off at an end exactly where it stands there, and gives the rest.
pub proof fn what_is_taken_off_stood_there(s: Seq<char>, p: Seq<char>, rest: Seq<char>)
    ensures
        without_prefix(s, p) == Some(rest) <==> s == p + rest,
        without_suffix(s, p) == Some(rest) <==> s == rest + p,
{
    if without_prefix(s, p) == Some(rest) {
        assert(s =~= p + rest);
    }
    if s == p + rest {
        assert(s.subrange(0, p.len() as int) =~= p);
        assert(s.subrange(p.len() as int, s.len() as int) =~= rest);
    }
    if without_suffix(s, p) == Some(rest) {
        assert(s =~= rest + p);
    }
    if s == rest + p {
        assert(s.subrange(s.len() - p.len(), s.len() as int) =~= p);
        assert(s.subrange(0, s.len() - p.len()) =~= rest);
    }
}

/// A text is parted at the first, or at the last, of a character: what stands before it and
/// what stands behind it, where it occurs at all.
pub proof fn a_text_is_parted_at_a_character(s: Seq<char>, c: char, a: Seq<char>, b: Seq<char>)
    ensures
        split_once(s, c) == Some((a, b)) <==> s == a.push(c) + b && !a.contains(c),
        rsplit_once(s, c) == Some((a, b)) <==> s == a.push(c) + b && !b.contains(c),
        split_once(s, c) is None <==> !s.contains(c),
        rsplit_once(s, c) is None <==> !s.contains(c),
{
    lemma_first_index(s, c);
    lemma_last_index(s, c);
    if split_once(s, c) == Some((a, b)) {
        assert(s =~= a.push(c) + b);
    }
    if rsplit_once(s, c) == Some((a, b)) {
        assert(s =~= a.push(c) + b);
    }
    if s == a.push(c) + b {
        let n = a.len() as int;
        assert(s[n] == c);
        assert(s.subrange(0, n) =~= a);
        assert(s.subrange(n + 1, s.len() as int) =~= b);
        if !a.contains(c) {
            assert forall|j: int| 0 <= j < n implies s[j] != c by {
                assert(a[j] == s[j]);
            }
            lemma_first_index_is(s, c, n);
        }
        if !b.contains(c) {
            let i = last_index(s, c);
            assert(i >= n) by {
                if i < n {
                    assert(s[n] != c);
                }
            }
            if i > n {
                assert(b[i - n - 1] == s[i]);
            }
        }
    }
}

proof fn lemma_last_index(s: Seq<char>, c: char)
    ensures
        -1 <= last_index(s, c) < s.len(),
        last_index(s, c) >= 0 ==> s[last_index(s, c)] == c,
        forall|j: int| last_index(s, c) < j < s.len() ==> #[trigger] s[j] != c,
        last_index(s, c) == -1 <==> !s.contains(c),
    decreases s.len(),
{
    if s.len() > 0 && s.last() != c {
        let init = s.drop_last();
        lemma_last_index(init, c);
        assert forall|j: int| last_index(s, c) < j < s.len() implies #[trigger] s[j] != c by {
            if j < init.len() {
                assert(init[j] == s[j]);
            }
        }
        if init.contains(c) {
            let k = init.index_of(c);
            assert(s[k] == c);
        }
        if s.contains(c) {
            let k = s.index_of(c);
            assert(init[k] == c);
        }
    } else if s.len() > 0 {
        assert(s[s.len() - 1] == c);
    }
}

/// A character is taken off at both ends as often as it stands there, and nothing else is.
pub proof fn a_character_is_taken_off_at_both_ends(s: Seq<char>, c: char)
    ensures
        ({
            let t = strip_back(strip_front(s, c), c);
            &&& t.len() > 0 ==> t[0] != c && t.last() != c
            &&& exists|i: int, j: int|
                #![trigger s.subrange(i, j)]
                0 <= i <= j <= s.len() && t == s.subrange(i, j) && (forall|k: int|
                    0 <= k < i ==> #[trigger] s[k] == c) && (forall|k: int|
                    j <= k < s.len() ==> #[trigger] s[k] == c)
        }),
{
    let i = lemma_strip_front(s, c);
    let f = strip_front(s, c);
    let n = lemma_strip_back(f, c);
    let t = strip_back(f, c);
    assert(t =~= s.subrange(i, i + n));
    assert forall|k: int| i + n <= k < s.len() implies #[trigger] s[k] == c by {
        assert(f[k - i] == s[k]);
    }
    if n > 0 {
        assert(t[0] == f[0]);
        assert(t.last() == f[n - 1]);
    }
}

proof fn lemma_strip_front(s: Seq<char>, c: char) -> (i: int)
    ensures
        0 <= i <= s.len(),
        strip_front(s, c) == s.subrange(i, s.len() as int),
        forall|k: int| 0 <= k < i ==> #[trigger] s[k] == c,
        i < s.len() ==> s[i] != c,
    decreases s.len(),
{
    if s.len() > 0 && s[0] == c {
        let rest = s.drop_first();
        let j = lemma_strip_front(rest, c);
        assert(strip_front(s, c) =~= s.subrange(j + 1, s.len() as int));
        assert forall|k: int| 0 <= k < j + 1 implies #[trigger] s[k] == c by {
            if k > 0 {
                assert(rest[k - 1] == s[k]);
            }
        }
        j + 1
    } else {
        assert(s.subrange(0, s.len() as int) =~= s);
        0
    }
}

proof fn lemma_strip_back(s: Seq<char>, c: char) -> (n: int)
    ensures
        0 <= n <= s.len(),
        strip_back(s, c) == s.subrange(0, n),
        forall|k: int| n <= k < s.len() ==> #[trigger] s[k] == c,
        n > 0 ==> s[n - 1] != c,
    decreases s.len(),
{
    if s.len() > 0 && s.last() == c {
        let rest = s.drop_last();
        let n = lemma_strip_back(rest, c);
        assert(strip_back(s, c) =~= s.subrange(0, n));
        assert forall|k: int| n <= k < s.len() implies #[trigger] s[k] == c by {
            if k < rest.len() {
                assert(rest[k] == s[k]);
            }
        }
        n
    } else {
        assert(s.subrange(0, s.len() as int) =~= s);
        s.len() as int
    }
}

/// In small letters every capital of ASCII becomes its counterpart, and nothing else changes.
pub proof fn capitals_alone_become_small(s: Seq<char>, i: int)
    requires
        0 <= i < s.len(),
    ensures
        lowered(s).len() == s.len(),
        'A' <= s[i] <= 'Z' ==> lowered(s)[i] as int == s[i] as int + 32,
        !('A' <= s[i] <= 'Z') ==> lowered(s)[i] == s[i],
{
}

/// The order of texts: what they begin with alike is passed over; then the smaller character
/// decides, and a text that has ended comes first.
pub proof fn the_first_difference_decides(
    head: Seq<char>,
    a: Seq<char>,
    b: Seq<char>,
    x: char,
    y: char,
)
    ensures
        text_le(head + a, head + b) == text_le(a, b),
        text_le(Seq::empty(), b),
        !text_le(seq![x] + a, Seq::empty()),
        x != y ==> (text_le(seq![x] + a, seq![y] + b) <==> (x as int) < (y as int)),
    decreases head.len(),
{
    if head.len() == 0 {
        assert(head + a =~= a);
        assert(head + b =~= b);
    } else {
        the_first_difference_decides(head.drop_first(), a, b, x, y);
        assert((head + a).drop_first() =~= head.drop_first() + a);
        assert((head + b).drop_first() =~= head.drop_first() + b);
    }
    assert((seq![x] + a)[0] == x);
    assert((seq![y] + b)[0] == y);
}

/// A list that was put in order holds the same texts, each as often, and of two neighbours the
/// first comes no later.
pub proof fn sorting_keeps_the_texts(v: Vec<String>, r: Vec<String>, i: int)
    requires
        call_ensures(sort_texts, (&v,), r),
        0 <= i < r@.len() - 1,
    ensures
        text_le(r@[i]@, r@[i + 1]@),
        texts(r@).to_multiset() == texts(v@).to_multiset(),
        texts(r@) == sorted(texts(v@)),
{
    assert(texts(r@)[i] == r@[i]@ && texts(r@)[i + 1] == r@[i + 1]@);
}

} // verus!
