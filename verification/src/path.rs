//! Paths as text, joined the way a Unix path is.
use vstd::prelude::*;
use crate::text::{
    a_text_is_parted_at_a_character, cat2, cat3, chars_of, opt_text, rsplit_once, same_text,
    split_at_last, text_of,
};

verus! {

/// `base` with `part` behind it. An absolute `part` takes the place of `base`.
pub open spec fn joined(base: Seq<char>, part: Seq<char>) -> Seq<char> {
    if part.len() > 0 && part[0] == '/' {
        part
    } else if base.len() == 0 || base.last() == '/' {
        base + part
    } else {
        base + "/"@ + part
    }
}

/// `base` with `part` behind it.
pub fn join_path(base: &str, part: &str) -> (r: String)
    ensures
        r@ == joined(base@, part@),
{
    let b = chars_of(base);
    let p = chars_of(part);
    if p.len() > 0 && p[0] == '/' {
        part.to_owned()
    } else if b.len() == 0 || b[b.len() - 1] == '/' {
        cat2(base, part)
    } else {
        cat3(base, "/", part)
    }
}

/// Whether a name is no path from the root.
pub open spec fn is_relative(name: Seq<char>) -> bool {
    name.len() == 0 || name[0] != '/'
}

/// In one directory, JSON files that stand at one place have one name.
pub proof fn lemma_json_files(dir: Seq<char>, a: Seq<char>, b: Seq<char>)
    requires
        is_relative(a),
        is_relative(b),
        joined(dir, a + ".json"@) == joined(dir, b + ".json"@),
    ensures
        a == b,
{
    reveal_strlit(".json");
    let x = a + ".json"@;
    let y = b + ".json"@;
    let head = if dir.len() == 0 || dir.last() == '/' {
        dir
    } else {
        dir + "/"@
    };
    assert(x[0] != '/' && y[0] != '/');
    lemma_behind(head, x);
    lemma_behind(head, y);
    lemma_before(a, ".json"@);
    lemma_before(b, ".json"@);
}

proof fn lemma_behind(head: Seq<char>, s: Seq<char>)
    ensures
        (head + s).subrange(head.len() as int, (head.len() + s.len()) as int) == s,
        (head + s).len() == head.len() + s.len(),
{
    assert((head + s).subrange(head.len() as int, (head.len() + s.len()) as int) =~= s);
}

proof fn lemma_before(s: Seq<char>, tail: Seq<char>)
    ensures
        (s + tail).subrange(0, (s + tail).len() - tail.len()) == s,
{
    assert((s + tail).subrange(0, (s + tail).len() - tail.len()) =~= s);
}

/// A path without the slashes and the `.` parts at its end.
pub open spec fn without_tail(p: Seq<char>) -> Seq<char>
    decreases p.len(),
{
    if p.len() > 0 && p.last() == '/' {
        without_tail(p.drop_last())
    } else if p.len() > 1 && p.last() == '.' && p[p.len() - 2] == '/' {
        without_tail(p.drop_last())
    } else {
        p
    }
}

/// A path without the slashes and the `.` parts at its end.
pub fn trim_tail(path: &str) -> (r: String)
    ensures
        r@ == without_tail(path@),
{
    let v = chars_of(path);
    let mut n: usize = v.len();
    proof {
        assert(v@.subrange(0, v@.len() as int) =~= v@);
    }
    while n > 0 && (v[n - 1] == '/' || (n > 1 && v[n - 1] == '.' && v[n - 2] == '/'))
        invariant
            n <= v@.len(),
            without_tail(v@) == without_tail(v@.subrange(0, n as int)),
        decreases n,
    {
        proof {
            assert(v@.subrange(0, n as int).drop_last() =~= v@.subrange(0, n - 1));
        }
        n -= 1;
    }
    text_of(&v, 0, n)
}

/// What follows the last slash of `s`.
pub open spec fn last_part(s: Seq<char>) -> Seq<char>
    decreases s.len(),
{
    if s.len() == 0 || s.last() == '/' {
        Seq::empty()
    } else {
        last_part(s.drop_last()).push(s.last())
    }
}

/// The last part of a path that names a file or directory.
pub open spec fn file_name(path: Seq<char>) -> Option<Seq<char>> {
    let name = last_part(without_tail(path));
    if name.len() == 0 || name == "."@ || name == ".."@ {
        None
    } else {
        Some(name)
    }
}

/// What follows the last slash of `s`.
fn part_after_slash(s: &str) -> (r: String)
    ensures
        r@ == last_part(s@),
{
    let v = chars_of(s);
    let mut i: usize = v.len();
    proof {
        assert(v@.subrange(0, v@.len() as int) =~= v@);
        assert(v@.subrange(v@.len() as int, v@.len() as int) =~= Seq::<char>::empty());
        assert(last_part(v@) + Seq::<char>::empty() =~= last_part(v@));
    }
    while i > 0 && v[i - 1] != '/'
        invariant
            i <= v@.len(),
            last_part(v@) == last_part(v@.subrange(0, i as int)) + v@.subrange(
                i as int,
                v@.len() as int,
            ),
        decreases i,
    {
        proof {
            let head = v@.subrange(0, i as int);
            assert(head.drop_last() =~= v@.subrange(0, i - 1));
            assert(last_part(head.drop_last()).push(v@[i - 1]) + v@.subrange(
                i as int,
                v@.len() as int,
            ) =~= last_part(head.drop_last()) + v@.subrange(i - 1, v@.len() as int));
        }
        i -= 1;
    }
    proof {
        assert(Seq::<char>::empty() + v@.subrange(i as int, v@.len() as int) =~= v@.subrange(
            i as int,
            v@.len() as int,
        ));
    }
    text_of(&v, i, v.len())
}

/// The last part of a path that names a file or directory.
pub fn file_name_of(path: &str) -> (r: Option<String>)
    ensures
        opt_text(r) == file_name(path@),
{
    let trimmed = trim_tail(path);
    let name = part_after_slash(trimmed.as_str());
    if name.as_str().is_empty() || same_text(name.as_str(), ".")
        || same_text(name.as_str(), "..") {
        None
    } else {
        Some(name)
    }
}

/// The directory that a path lies in; none where the path has no part.
pub open spec fn parent(path: Seq<char>) -> Option<Seq<char>> {
    let t = without_tail(path);
    let head = t.subrange(0, t.len() - last_part(t).len());
    let dir = without_tail(head);
    if t.len() == 0 {
        None
    } else if dir.len() == 0 && head.len() > 0 {
        Some("/"@)
    } else {
        Some(dir)
    }
}

proof fn lemma_last_part(s: Seq<char>)
    ensures
        last_part(s).len() <= s.len(),
    decreases s.len(),
{
    if s.len() > 0 && s.last() != '/' {
        lemma_last_part(s.drop_last());
    }
}

/// The directory that a path lies in; none where the path has no part.
pub fn parent_of(path: &str) -> (r: Option<String>)
    ensures
        opt_text(r) == parent(path@),
{
    let t = chars_of(trim_tail(path).as_str());
    if t.len() == 0 {
        return None;
    }
    let name = part_after_slash(text_of(&t, 0, t.len()).as_str());
    let n = chars_of(name.as_str());
    proof {
        assert(t@.subrange(0, t@.len() as int) =~= t@);
        lemma_last_part(t@);
    }
    let head = text_of(&t, 0, t.len() - n.len());
    let dir = trim_tail(head.as_str());
    if dir.as_str().is_empty() && !head.as_str().is_empty() {
        Some("/".to_owned())
    } else {
        Some(dir)
    }
}

/// A path without the slashes and the `.` parts at its front.
pub open spec fn behind_dots(s: Seq<char>) -> Seq<char>
    decreases s.len(),
{
    if s.len() > 0 && (s[0] == '/' || (s[0] == '.' && (s.len() == 1 || s[1] == '/'))) {
        behind_dots(s.drop_first())
    } else {
        s
    }
}

/// What precedes the first slash of `s`.
pub open spec fn first_part(s: Seq<char>) -> Seq<char>
    decreases s.len(),
{
    if s.len() == 0 || s[0] == '/' {
        Seq::empty()
    } else {
        seq![s[0]] + first_part(s.drop_first())
    }
}

pub proof fn lemma_behind_dots(s: Seq<char>)
    ensures
        behind_dots(s).len() <= s.len(),
        behind_dots(s).len() > 0 ==> behind_dots(s)[0] != '/',
    decreases s.len(),
{
    if s.len() > 0 {
        lemma_behind_dots(s.drop_first());
    }
}

pub proof fn lemma_first_part(s: Seq<char>)
    ensures
        first_part(s).len() <= s.len(),
        s.len() > 0 && s[0] != '/' ==> first_part(s).len() > 0,
    decreases s.len(),
{
    if s.len() > 0 {
        lemma_first_part(s.drop_first());
    }
}

/// What is left of a path behind the parts of `dir`; none where the parts differ.
pub open spec fn inside(path: Seq<char>, dir: Seq<char>) -> Option<Seq<char>>
    decreases path.len(),
{
    proof {
        lemma_behind_dots(path);
        lemma_first_part(behind_dots(path));
    }
    let p = behind_dots(path);
    let d = behind_dots(dir);
    if d.len() == 0 {
        Some(without_tail(p))
    } else if p.len() == 0 || first_part(p) != first_part(d) {
        None
    } else {
        inside(
            p.subrange(first_part(p).len() as int, p.len() as int),
            d.subrange(first_part(d).len() as int, d.len() as int),
        )
    }
}

/// What is left of an absolute path behind a directory; none where it does not
/// lie in it.
pub open spec fn beneath(path: Seq<char>, dir: Seq<char>) -> Option<Seq<char>> {
    if dir.len() == 0 {
        Some(
            if without_tail(path).len() == 0 {
                "/"@
            } else {
                without_tail(path)
            },
        )
    } else if dir[0] != '/' {
        None
    } else {
        inside(path.drop_first(), dir.drop_first())
    }
}

fn skip_dots(v: &Vec<char>, from: usize) -> (r: usize)
    requires
        from <= v@.len(),
    ensures
        from <= r <= v@.len(),
        behind_dots(v@.subrange(from as int, v@.len() as int)) == v@.subrange(
            r as int,
            v@.len() as int,
        ),
{
    let mut i: usize = from;
    while i < v.len() && (v[i] == '/' || (v[i] == '.' && (v.len() - i == 1 || v[i + 1] == '/')))
        invariant
            from <= i <= v@.len(),
            behind_dots(v@.subrange(from as int, v@.len() as int)) == behind_dots(
                v@.subrange(i as int, v@.len() as int),
            ),
        decreases v@.len() - i,
    {
        proof {
            assert(v@.subrange(i as int, v@.len() as int).drop_first() =~= v@.subrange(
                i + 1,
                v@.len() as int,
            ));
        }
        i += 1;
    }
    i
}

fn end_of_part(v: &Vec<char>, from: usize) -> (r: usize)
    requires
        from <= v@.len(),
    ensures
        from <= r <= v@.len(),
        first_part(v@.subrange(from as int, v@.len() as int)) == v@.subrange(
            from as int,
            r as int,
        ),
{
    let mut i: usize = from;
    proof {
        assert(v@.subrange(from as int, from as int) + first_part(
            v@.subrange(from as int, v@.len() as int),
        ) =~= first_part(v@.subrange(from as int, v@.len() as int)));
    }
    while i < v.len() && v[i] != '/'
        invariant
            from <= i <= v@.len(),
            first_part(v@.subrange(from as int, v@.len() as int)) == v@.subrange(
                from as int,
                i as int,
            ) + first_part(v@.subrange(i as int, v@.len() as int)),
        decreases v@.len() - i,
    {
        proof {
            let rest = v@.subrange(i as int, v@.len() as int);
            assert(rest.drop_first() =~= v@.subrange(i + 1, v@.len() as int));
            assert(v@.subrange(from as int, i as int) + first_part(rest) =~= v@.subrange(
                from as int,
                i + 1,
            ) + first_part(rest.drop_first()));
        }
        i += 1;
    }
    proof {
        assert(v@.subrange(from as int, i as int) + Seq::<char>::empty() =~= v@.subrange(
            from as int,
            i as int,
        ));
    }
    i
}

/// What is left of an absolute path behind a directory; none where it does not
/// lie in it.
pub fn strip_prefix(path: &str, dir: &str) -> (r: Option<String>)
    requires
        path@.len() > 0,
        path@[0] == '/',
    ensures
        opt_text(r) == beneath(path@, dir@),
{
    let p = chars_of(path);
    let d = chars_of(dir);
    if d.len() == 0 {
        let whole = trim_tail(path);
        if whole.as_str().is_empty() {
            return Some("/".to_owned());
        }
        return Some(whole);
    }
    if d[0] != '/' {
        return None;
    }
    let mut i: usize = 1;
    let mut j: usize = 1;
    proof {
        assert(p@.drop_first() =~= p@.subrange(1, p@.len() as int));
        assert(d@.drop_first() =~= d@.subrange(1, d@.len() as int));
    }
    loop
        invariant
            i <= p@.len(),
            j <= d@.len(),
            beneath(path@, dir@) == inside(
                p@.subrange(i as int, p@.len() as int),
                d@.subrange(j as int, d@.len() as int),
            ),
        decreases p@.len() - i,
    {
        let a: usize = skip_dots(&p, i);
        let b: usize = skip_dots(&d, j);
        proof {
            lemma_behind_dots(p@.subrange(i as int, p@.len() as int));
            lemma_first_part(p@.subrange(a as int, p@.len() as int));
        }
        if b == d.len() {
            return Some(trim_tail(text_of(&p, a, p.len()).as_str()));
        }
        if a == p.len() {
            return None;
        }
        let c: usize = end_of_part(&p, a);
        let e: usize = end_of_part(&d, b);
        if !same_text(text_of(&p, a, c).as_str(), text_of(&d, b, e).as_str()) {
            return None;
        }
        proof {
            let rest = p@.subrange(a as int, p@.len() as int);
            let other = d@.subrange(b as int, d@.len() as int);
            assert(rest.subrange(c - a, rest.len() as int) =~= p@.subrange(
                c as int,
                p@.len() as int,
            ));
            assert(other.subrange(e - b, other.len() as int) =~= d@.subrange(
                e as int,
                d@.len() as int,
            ));
        }
        i = c;
        j = e;
    }
}

/// A name without its extension. A dot at the front begins no extension.
pub open spec fn stem(name: Seq<char>) -> Seq<char> {
    match rsplit_once(name, '.') {
        Some((head, _)) if head.len() > 0 => head,
        _ => name,
    }
}

/// A name without its extension.
pub fn stem_of(name: &str) -> (r: String)
    ensures
        r@ == stem(name@),
{
    match split_at_last(name, '.') {
        Some((head, _)) => {
            if head.as_str().is_empty() {
                name.to_owned()
            } else {
                head
            }
        },
        None => name.to_owned(),
    }
}

/// The directories of the daemon.
#[derive(Debug)]
pub struct DaemonPaths {
    /// What outlives a restart.
    pub state: String,
    /// What is gone after one.
    pub runtime: String,
}

/// A part behind a directory stands there with one slash between; behind nothing or behind a
/// slash none is added, and a part that begins with one stands for itself.
pub proof fn a_part_stands_behind_its_directory(base: Seq<char>, part: Seq<char>)
    ensures
        part.len() > 0 && part[0] == '/' ==> joined(base, part) == part,
        part.len() == 0 || part[0] != '/' ==> {
            &&& base.len() > 0 && base.last() != '/' ==> joined(base, part) == base.push('/') + part
            &&& base.len() == 0 || base.last() == '/' ==> joined(base, part) == base + part
        },
{
    reveal_strlit("/");
    assert("/"@ =~= seq!['/']);
    assert(base + "/"@ =~= base.push('/'));
}

proof fn lemma_plain_part(dir: Seq<char>, name: Seq<char>)
    requires
        forall|i: int| 0 <= i < name.len() ==> #[trigger] name[i] != '/',
    ensures
        last_part(dir.push('/') + name) == name,
    decreases name.len(),
{
    let s = dir.push('/') + name;
    if name.len() == 0 {
        assert(s =~= dir.push('/'));
        assert(last_part(s) =~= name);
    } else {
        assert(s.drop_last() =~= dir.push('/') + name.drop_last());
        assert(s.last() == name.last());
        lemma_plain_part(dir, name.drop_last());
        assert(last_part(s) =~= name);
    }
}

/// The name of what stands in a directory is its last part, also with slashes behind it, and
/// the directory is what stands before that.
pub proof fn a_name_is_the_last_part(dir: Seq<char>, name: Seq<char>)
    requires
        name.len() > 0,
        forall|i: int| 0 <= i < name.len() ==> #[trigger] name[i] != '/',
        name != "."@,
        name != ".."@,
        name.last() != '.' || name.len() > 1,
    ensures
        file_name(dir.push('/') + name) == Some(name),
        file_name((dir.push('/') + name).push('/')) == Some(name),
        dir.len() > 0 && dir.last() != '/' && dir.last() != '.' ==> parent(dir.push('/') + name)
            == Some(dir),
{
    reveal_strlit(".");
    let s = dir.push('/') + name;
    lemma_plain_part(dir, name);
    assert(s.last() == name.last());
    if name.last() == '.' {
        assert(s[s.len() - 2] == name[name.len() - 2]);
    }
    assert(without_tail(s) == s);
    assert(s.push('/').drop_last() =~= s);
    assert(without_tail(s.push('/')) == s);
    if dir.len() > 0 && dir.last() != '/' && dir.last() != '.' {
        let head = s.subrange(0, s.len() - name.len());
        assert(head =~= dir.push('/'));
        assert(head.drop_last() =~= dir);
        assert(without_tail(dir) == dir);
        assert(without_tail(head) == dir);
    }
}

/// The stem of a name is what stands before its last dot, where anything does; a name
/// without a dot is its own stem.
pub proof fn a_stem_ends_at_the_last_dot(head: Seq<char>, tail: Seq<char>)
    requires
        !tail.contains('.'),
    ensures
        head.len() > 0 ==> stem(head.push('.') + tail) == head,
        stem(seq!['.'] + tail) == seq!['.'] + tail,
        stem(tail) == tail,
{
    a_text_is_parted_at_a_character(head.push('.') + tail, '.', head, tail);
    a_text_is_parted_at_a_character(tail, '.', head, tail);
    let none = Seq::<char>::empty();
    assert(seq!['.'] + tail =~= none.push('.') + tail);
    a_text_is_parted_at_a_character(none.push('.') + tail, '.', none, tail);
}

proof fn lemma_behind_dots_of(d: Seq<char>, rest: Seq<char>)
    ensures
        behind_dots(d).len() > 0 ==> behind_dots(d.push('/') + rest) == behind_dots(d).push('/')
            + rest,
        behind_dots(d).len() == 0 ==> behind_dots(d.push('/') + rest) == behind_dots(rest),
    decreases d.len(),
{
    let s = d.push('/') + rest;
    if d.len() == 0 {
        assert(s.drop_first() =~= rest);
    } else {
        assert(s.drop_first() =~= d.drop_first().push('/') + rest);
        assert(s[0] == d[0]);
        lemma_behind_dots_of(d.drop_first(), rest);
    }
}

proof fn lemma_first_part_of(d: Seq<char>, rest: Seq<char>)
    ensures
        first_part(d.push('/') + rest) == first_part(d),
        first_part(d).len() <= d.len(),
        first_part(d) == d.subrange(0, first_part(d).len() as int),
    decreases d.len(),
{
    let s = d.push('/') + rest;
    if d.len() == 0 {
        assert(first_part(s) =~= first_part(d));
        assert(first_part(d) =~= d.subrange(0, 0));
    } else {
        assert(s.drop_first() =~= d.drop_first().push('/') + rest);
        assert(s[0] == d[0]);
        lemma_first_part_of(d.drop_first(), rest);
        if d[0] == '/' {
            assert(first_part(d) =~= d.subrange(0, 0));
        } else {
            let f = first_part(d.drop_first());
            assert(first_part(d) =~= d.subrange(0, 1int + f.len()));
        }
    }
}

proof fn lemma_inside_of(d: Seq<char>, rest: Seq<char>)
    ensures
        inside(d.push('/') + rest, d) == Some(without_tail(behind_dots(rest))),
    decreases d.len(),
{
    let p = behind_dots(d.push('/') + rest);
    let e = behind_dots(d);
    lemma_behind_dots_of(d, rest);
    lemma_behind_dots(d);
    if e.len() > 0 {
        lemma_first_part_of(e, rest);
        lemma_first_part(e);
        let n = first_part(e).len() as int;
        let tail = e.subrange(n, e.len() as int);
        assert(p.subrange(n, p.len() as int) =~= tail.push('/') + rest);
        lemma_inside_of(tail, rest);
    }
}

/// What lies in a directory is told by what stands behind the directory and a slash; a path that
/// begins with another part than the directory does not lie in it, and in a directory that is no
/// path from the root lies nothing.
pub proof fn what_lies_in_a_directory(
    d: Seq<char>,
    rest: Seq<char>,
    a: Seq<char>,
    b: Seq<char>,
    more: Seq<char>,
)
    requires
        rest.len() > 0,
        rest[0] != '/' && rest[0] != '.',
        rest.last() != '/' && rest.last() != '.',
        a.len() > 0 && a[0] != '.' && !a.contains('/'),
        b.len() > 0 && b[0] != '.' && !b.contains('/'),
        a != b,
    ensures
        beneath(seq!['/'] + (d.push('/') + rest), seq!['/'] + d) == Some(rest),
        beneath(seq!['/'] + (a.push('/') + rest), seq!['/'] + (b.push('/') + more)) is None,
        beneath(rest, rest) is None,
{
    assert((seq!['/'] + (d.push('/') + rest)).drop_first() =~= d.push('/') + rest);
    assert((seq!['/'] + d).drop_first() =~= d);
    lemma_inside_of(d, rest);
    let p = a.push('/') + rest;
    let q = b.push('/') + more;
    assert((seq!['/'] + p).drop_first() =~= p);
    assert((seq!['/'] + q).drop_first() =~= q);
    assert(a.contains(a[0]) && b.contains(b[0]));
    assert(p[0] == a[0] && q[0] == b[0]);
    assert(behind_dots(p) == p && behind_dots(q) == q);
    lemma_first_part_of(a, rest);
    lemma_first_part_of(b, more);
    lemma_whole_part(a);
    lemma_whole_part(b);
}

proof fn lemma_whole_part(a: Seq<char>)
    requires
        !a.contains('/'),
    ensures
        first_part(a) == a,
    decreases a.len(),
{
    if a.len() > 0 {
        let tail = a.drop_first();
        assert(a.contains(a[0]));
        assert(!tail.contains('/')) by {
            assert(forall|i: int| 0 <= i < tail.len() ==> tail[i] == a[i + 1]);
        }
        lemma_whole_part(tail);
        assert(seq![a[0]] + tail =~= a);
    }
}

/// The slashes and the dots that stand for the same place are taken off the end of a path, and
/// nothing else.
pub proof fn the_end_of_a_path_is_bared(p: Seq<char>)
    ensures
        without_tail(p.push('/')) == without_tail(p),
        without_tail(p.push('/').push('.')) == without_tail(p),
        p.len() > 0 && p.last() != '/' && p.last() != '.' ==> without_tail(p) == p,
{
    assert(p.push('/').drop_last() =~= p);
    assert(p.push('/').push('.').drop_last() =~= p.push('/'));
}

} // verus!
