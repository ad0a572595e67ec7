//! What is left to do in a list of tasks: the boxes that are not ticked, outside
//! of fenced blocks.
use vstd::prelude::*;
use crate::path::{join_path, joined};
use crate::text::{
    chars_of, lines, lines_of, starts_with, strip_prefix, text_of, texts, trim_end, trim_end_text,
    trim_start, trim_start_text, without_prefix,
};

verus! {

/// A task that is not ticked.
#[derive(Debug, Clone, PartialEq, Eq)]
pub struct UncheckedTask {
    /// The line that it stands on, counted from one.
    pub line_number: usize,
    /// What follows the box, without white space at its end.
    pub trailing_text: String,
}

/// The mathematical counterpart of [`UncheckedTask`].
pub struct TaskV {
    pub line_number: int,
    pub trailing_text: Seq<char>,
}

impl UncheckedTask {
    pub open spec fn view(&self) -> TaskV {
        TaskV { line_number: self.line_number as int, trailing_text: self.trailing_text@ }
    }
}

/// The tasks of a list.
pub open spec fn task_views(v: Seq<UncheckedTask>) -> Seq<TaskV> {
    Seq::new(v.len(), |i: int| v[i]@)
}

/// Whether a line opens or closes a fenced block.
pub open spec fn is_fence(line: Seq<char>) -> bool {
    "```"@.is_prefix_of(trim_start(line))
}

fn is_fence_line(line: &str) -> (r: bool)
    ensures
        r == is_fence(line@),
{
    starts_with(trim_start_text(line).as_str(), "```")
}

/// A line without the spaces and tabs that it begins with.
pub open spec fn dedent(line: Seq<char>) -> Seq<char>
    decreases line.len(),
{
    if line.len() > 0 && (line[0] == ' ' || line[0] == '\t') {
        dedent(line.drop_first())
    } else {
        line
    }
}

/// What follows the empty box that a line begins with.
pub open spec fn unchecked_text(line: Seq<char>) -> Option<Seq<char>> {
    match without_prefix(dedent(line), "- [ ] "@) {
        Some(tail) => Some(trim_end(tail)),
        None => None,
    }
}

fn extract_unchecked(line: &str) -> (r: Option<String>)
    ensures
        crate::text::opt_text(r) == unchecked_text(line@),
{
    let v = chars_of(line);
    let mut i: usize = 0;
    proof {
        assert(v@.subrange(0, v@.len() as int) =~= v@);
    }
    while i < v.len() && (v[i] == ' ' || v[i] == '\t')
        invariant
            i <= v@.len(),
            dedent(v@) == dedent(v@.subrange(i as int, v@.len() as int)),
        decreases v@.len() - i,
    {
        proof {
            assert(v@.subrange(i as int, v@.len() as int).drop_first() =~= v@.subrange(
                i + 1,
                v@.len() as int,
            ));
        }
        i += 1;
    }
    let body = text_of(&v, i, v.len());
    match strip_prefix(body.as_str(), "- [ ] ") {
        Some(tail) => Some(trim_end_text(tail.as_str())),
        None => None,
    }
}

/// Whether the line behind the given ones stands in a fenced block.
pub open spec fn in_fence(before: Seq<Seq<char>>) -> bool
    decreases before.len(),
{
    if before.len() == 0 {
        false
    } else if is_fence(before.last()) {
        !in_fence(before.drop_last())
    } else {
        in_fence(before.drop_last())
    }
}

/// The tasks that are not ticked, in the order of their lines.
pub open spec fn unchecked_tasks(all: Seq<Seq<char>>) -> Seq<TaskV>
    decreases all.len(),
{
    if all.len() == 0 {
        Seq::empty()
    } else {
        let before = unchecked_tasks(all.drop_last());
        if is_fence(all.last()) || in_fence(all.drop_last()) {
            before
        } else {
            match unchecked_text(all.last()) {
                Some(t) => before.push(TaskV { line_number: all.len() as int, trailing_text: t }),
                None => before,
            }
        }
    }
}

/// The tasks that are not ticked.
pub fn parse_unchecked_tasks(content: &str) -> (r: Vec<UncheckedTask>)
    ensures
        task_views(r@) == unchecked_tasks(lines(content@)),
{
    let rows = lines_of(content);
    let ghost all = lines(content@);
    let mut out: Vec<UncheckedTask> = Vec::new();
    let mut fenced = false;
    let mut i: usize = 0;
    proof {
        assert(task_views(out@) =~= unchecked_tasks(all.take(0)));
    }
    while i < rows.len()
        invariant
            i <= rows.len(),
            all == texts(rows@),
            fenced == in_fence(all.take(i as int)),
            task_views(out@) == unchecked_tasks(all.take(i as int)),
        decreases rows.len() - i,
    {
        proof {
            assert(all.take(i + 1).drop_last() =~= all.take(i as int));
            assert(all.take(i + 1).last() == rows@[i as int]@);
        }
        if is_fence_line(rows[i].as_str()) {
            fenced = !fenced;
        } else if !fenced {
            if let Some(trailing_text) = extract_unchecked(rows[i].as_str()) {
                let task = UncheckedTask { line_number: i + 1, trailing_text };
                proof {
                    assert(task_views(out@.push(task)) =~= task_views(out@).push(task@));
                }
                out.push(task);
            }
        }
        i += 1;
    }
    proof {
        assert(all.take(all.len() as int) =~= all);
    }
    out
}

/// Where the tasks of a change are listed.
pub open spec fn tasks_place(workspace: Seq<char>, change: Seq<char>) -> Seq<char> {
    joined(joined(joined(workspace, "openspec/changes"@), change), "tasks.md"@)
}

/// Where the tasks of a change are listed.
pub fn tasks_path(workspace: &str, change: &str) -> (r: String)
    ensures
        r@ == tasks_place(workspace@, change@),
{
    let changes = join_path(workspace, "openspec/changes");
    let dir = join_path(changes.as_str(), change);
    join_path(dir.as_str(), "tasks.md")
}

/// The tasks that are not ticked in a file that was read, and none where it
/// could not be read.
pub fn scan_change_tasks_md(read: &Option<String>) -> (r: Vec<UncheckedTask>)
    ensures
        match read {
            Some(content) => task_views(r@) == unchecked_tasks(lines(content@)),
            None => r@.len() == 0,
        },
{
    match read {
        Some(content) => parse_unchecked_tasks(content.as_str()),
        None => Vec::new(),
    }
}

/// Whether a line counts as a task that is not ticked.
pub open spec fn counts(all: Seq<Seq<char>>, n: int) -> bool {
    &&& 1 <= n <= all.len()
    &&& !is_fence(all[n - 1])
    &&& !in_fence(all.take(n - 1))
    &&& unchecked_text(all[n - 1]) is Some
}

/// The list is what it should be: every task in it stands on a line with an
/// empty box outside of fenced blocks, every such line is in it, and the lines
/// come in order.
pub proof fn tasks_are_the_open_boxes(all: Seq<Seq<char>>)
    ensures
        forall|k: int|
            #![trigger unchecked_tasks(all)[k]]
            0 <= k < unchecked_tasks(all).len() ==> {
                let task = unchecked_tasks(all)[k];
                counts(all, task.line_number) && unchecked_text(all[task.line_number - 1]) == Some(
                    task.trailing_text,
                )
            },
        forall|n: int| #[trigger]
            counts(all, n) ==> exists|k: int|
                0 <= k < unchecked_tasks(all).len() && (#[trigger] unchecked_tasks(all)[k]).line_number
                    == n,
        forall|j: int, k: int|
            0 <= j < k < unchecked_tasks(all).len() ==> (#[trigger] unchecked_tasks(
                all,
            )[j]).line_number < (#[trigger] unchecked_tasks(all)[k]).line_number,
    decreases all.len(),
{
    if all.len() > 0 {
        let init = all.drop_last();
        let before = unchecked_tasks(init);
        let tasks = unchecked_tasks(all);
        tasks_are_the_open_boxes(init);
        assert forall|n: int| 1 <= n < all.len() implies #[trigger] counts(all, n) == counts(
            init,
            n,
        ) by {
            assert(all.take(n - 1) =~= init.take(n - 1));
        }
        assert(all.take(all.len() - 1) =~= init);
        assert forall|k: int|
            #![trigger tasks[k]]
            0 <= k < tasks.len() implies counts(all, tasks[k].line_number) && unchecked_text(
            all[tasks[k].line_number - 1],
        ) == Some(tasks[k].trailing_text) by {
            if k < before.len() {
                assert(tasks[k] == before[k]);
                assert(counts(init, before[k].line_number));
                assert(counts(all, before[k].line_number));
            } else {
                assert(counts(all, all.len() as int));
            }
        }
        assert forall|n: int| #[trigger] counts(all, n) implies exists|k: int|
            0 <= k < tasks.len() && (#[trigger] tasks[k]).line_number == n by {
            if n < all.len() {
                assert(counts(init, n));
                let k = choose|k: int|
                    0 <= k < before.len() && (#[trigger] before[k]).line_number == n;
                assert(tasks[k] == before[k]);
            } else {
                assert(tasks[tasks.len() - 1].line_number == n);
            }
        }
        assert forall|j: int, k: int| 0 <= j < k < tasks.len() implies (
        #[trigger] tasks[j]).line_number < (#[trigger] tasks[k]).line_number by {
            assert(tasks[j] == before[j]);
            assert(counts(init, before[j].line_number));
            if k < before.len() {
                assert(tasks[k] == before[k]);
                assert(before[j].line_number < before[k].line_number);
            }
        }
    }
}

/// Fences open and close in turn: behind two lists of lines one stands in a block exactly where
/// one does behind just one of them, and a line alone opens one where it begins, behind white
/// space, with three backticks.
pub proof fn fences_open_and_close_in_turn(a: Seq<Seq<char>>, b: Seq<Seq<char>>)
    ensures
        !in_fence(Seq::empty()),
        a.len() == 1 ==> in_fence(a) == "```"@.is_prefix_of(trim_start(a[0])),
        in_fence(a + b) == (in_fence(a) != in_fence(b)),
    decreases b.len(),
{
    if a.len() == 1 {
        assert(a.drop_last() =~= Seq::<Seq<char>>::empty());
        assert(!in_fence(a.drop_last()));
        assert(a.last() == a[0]);
    }
    if b.len() == 0 {
        assert(a + b =~= a);
    } else {
        fences_open_and_close_in_turn(a, b.drop_last());
        assert((a + b).drop_last() =~= a + b.drop_last());
        assert((a + b).last() == b.last());
    }
}

/// An open box is what a line begins with behind spaces and tabs; its text is the rest of the
/// line without the white space at its end.
pub proof fn an_open_box_begins_its_line(indent: Seq<char>, tail: Seq<char>)
    requires
        forall|i: int| 0 <= i < indent.len() ==> #[trigger] indent[i] == ' ' || indent[i] == '\t',
    ensures
        unchecked_text(indent + ("- [ ] "@ + tail)) == Some(trim_end(tail)),
{
    reveal_strlit("- [ ] ");
    lemma_dedent(indent, "- [ ] "@ + tail);
    crate::text::what_is_taken_off_stood_there("- [ ] "@ + tail, "- [ ] "@, tail);
}

/// A line without an open box behind its spaces and tabs holds no task.
pub proof fn no_box_is_no_task(indent: Seq<char>, rest: Seq<char>)
    requires
        forall|i: int| 0 <= i < indent.len() ==> #[trigger] indent[i] == ' ' || indent[i] == '\t',
        rest.len() > 0 ==> rest[0] != ' ' && rest[0] != '\t',
        !"- [ ] "@.is_prefix_of(rest),
    ensures
        unchecked_text(indent + rest) is None,
{
    lemma_dedent(indent, rest);
}

proof fn lemma_dedent(indent: Seq<char>, rest: Seq<char>)
    requires
        forall|i: int| 0 <= i < indent.len() ==> #[trigger] indent[i] == ' ' || indent[i] == '\t',
        rest.len() > 0 ==> rest[0] != ' ' && rest[0] != '\t',
    ensures
        dedent(indent + rest) == rest,
    decreases indent.len(),
{
    if indent.len() == 0 {
        assert(indent + rest =~= rest);
    } else {
        let tail = indent.drop_first();
        assert((indent + rest).drop_first() =~= tail + rest);
        assert((indent + rest)[0] == indent[0]);
        assert forall|i: int| 0 <= i < tail.len() implies #[trigger] tail[i] == ' ' || tail[i]
            == '\t' by {
            assert(tail[i] == indent[i + 1]);
        }
        lemma_dedent(tail, rest);
    }
}

/// The tasks of a list are those of its lines; none are found where it could not be read. The
/// list of a change stands in its directory.
pub proof fn a_list_is_read_line_by_line(
    read: Option<String>,
    r: Vec<UncheckedTask>,
    workspace: &str,
    change: &str,
    path: String,
)
    requires
        call_ensures(scan_change_tasks_md, (&read,), r),
        call_ensures(tasks_path, (workspace, change), path),
    ensures
        read is None ==> r@.len() == 0,
        read matches Some(content) ==> {
            let tasks = unchecked_tasks(lines(content@));
            &&& r@.len() == tasks.len()
            &&& forall|i: int|
                0 <= i < r@.len() ==> (#[trigger] r@[i]).line_number == tasks[i].line_number
                    && r@[i].trailing_text@ == tasks[i].trailing_text
        },
        path@ == joined(joined(joined(workspace@, "openspec/changes"@), change@), "tasks.md"@),
{
    if let Some(content) = read {
        let tasks = unchecked_tasks(lines(content@));
        assert(task_views(r@).len() == r@.len());
        assert forall|i: int| 0 <= i < r@.len() implies (#[trigger] r@[i]).line_number
            == tasks[i].line_number && r@[i].trailing_text@ == tasks[i].trailing_text by {
            assert(task_views(r@)[i] == r@[i]@);
        }
    }
}

/// The tasks of a text are those of its lines.
pub proof fn the_tasks_are_those_of_the_lines(content: &str, r: Vec<UncheckedTask>)
    requires
        call_ensures(parse_unchecked_tasks, (content,), r),
    ensures
        r@.len() == unchecked_tasks(lines(content@)).len(),
        forall|i: int|
            0 <= i < r@.len() ==> (#[trigger] r@[i])@ == unchecked_tasks(lines(content@))[i],
{
    assert(task_views(r@).len() == r@.len());
    assert forall|i: int| 0 <= i < r@.len() implies (#[trigger] r@[i])@ == unchecked_tasks(
        lines(content@),
    )[i] by {
        assert(task_views(r@)[i] == r@[i]@);
    }
}

} // verus!
