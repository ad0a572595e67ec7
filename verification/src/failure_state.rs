//! The count of consecutive failures of each change. A failure adds one, an
//! archived change loses its count, and a change that is gone is forgotten.
use vstd::prelude::*;
use crate::clock::Timestamp;
use crate::path::{file_name, file_name_of, is_relative, join_path, joined, lemma_json_files};
use crate::text::{
    cat2, lemma_texts_empty, lemma_texts_push, same_text, strip_suffix, texts,
    what_is_taken_off_stood_there, without_suffix,
};

verus! {

/// What is known of the failures of one change.
#[derive(Debug, Clone)]
pub struct FailureEntry {
    pub count: u32,
    pub last_reason: String,
    pub last_failed_at: Timestamp,
}

/// The mathematical counterpart of [`FailureEntry`].
pub struct FailureV {
    pub count: u32,
    pub last_reason: Seq<char>,
    pub last_failed_at: Timestamp,
}

impl FailureEntry {
    pub open spec fn view(&self) -> FailureV {
        FailureV {
            count: self.count,
            last_reason: self.last_reason@,
            last_failed_at: self.last_failed_at,
        }
    }
}

/// The failures of the changes of one repository.
#[derive(Debug, Clone)]
pub struct FailureState {
    pub entries: Vec<(String, FailureEntry)>,
}

/// The entry after one more failure.
pub open spec fn after_failure(
    before: Option<FailureV>,
    reason: Seq<char>,
    now: Timestamp,
) -> FailureV {
    let count: u32 = match before {
        Some(e) => e.count,
        None => 0,
    };
    FailureV {
        count: if count == u32::MAX {
            u32::MAX
        } else {
            (count + 1) as u32
        },
        last_reason: reason,
        last_failed_at: now,
    }
}

/// Where the entries of one repository are kept: under the last part of the
/// path of its workspace.
pub open spec fn repo_dir_path(state_dir: Seq<char>, workspace: Seq<char>) -> Seq<char> {
    joined(
        joined(state_dir, "failure-state"@),
        match file_name(workspace) {
            Some(name) => name,
            None => "unknown"@,
        },
    )
}

/// Where the entries of one repository are kept.
pub fn repo_dir(state_dir: &str, workspace: &str) -> (r: String)
    ensures
        r@ == repo_dir_path(state_dir@, workspace@),
{
    let base = join_path(state_dir, "failure-state");
    match file_name_of(workspace) {
        Some(name) => join_path(base.as_str(), name.as_str()),
        None => join_path(base.as_str(), "unknown"),
    }
}

/// Where the entry of one change is kept.
pub open spec fn change_place(
    state_dir: Seq<char>,
    workspace: Seq<char>,
    change: Seq<char>,
) -> Seq<char> {
    joined(repo_dir_path(state_dir, workspace), change + ".json"@)
}

/// Where the entry of one change is kept.
pub fn change_file(state_dir: &str, workspace: &str, change: &str) -> (r: String)
    ensures
        r@ == change_place(state_dir@, workspace@, change@),
{
    let dir = repo_dir(state_dir, workspace);
    let name = cat2(change, ".json");
    join_path(dir.as_str(), name.as_str())
}

/// One more failure of a change whose entry is `before`, where it has one.
pub fn note_failure(before: &Option<FailureEntry>, reason: &str, now: Timestamp) -> (r: FailureEntry)
    ensures
        r@ == after_failure(
            match before {
                Some(e) => Some(e@),
                None => None,
            },
            reason@,
            now,
        ),
{
    let count: u32 = match before {
        Some(e) => e.count,
        None => 0,
    };
    FailureEntry {
        count: count.saturating_add(1),
        last_reason: reason.to_owned(),
        last_failed_at: now,
    }
}

/// The entry of a change, by its name.
pub open spec fn entry_of(
    entries: Seq<(String, FailureEntry)>,
    change: Seq<char>,
) -> Option<FailureV>
    decreases entries.len(),
{
    if entries.len() == 0 {
        None
    } else if entries.last().0@ == change {
        Some(entries.last().1@)
    } else {
        entry_of(entries.drop_last(), change)
    }
}

proof fn lemma_entry_of(entries: Seq<(String, FailureEntry)>, change: Seq<char>)
    ensures
        entry_of(entries, change) is None <==> forall|i: int|
            0 <= i < entries.len() ==> (#[trigger] entries[i]).0@ != change,
        forall|i: int|
            0 <= i < entries.len() && (#[trigger] entries[i]).0@ == change && (forall|j: int|
                i < j < entries.len() ==> (#[trigger] entries[j]).0@ != change) ==> entry_of(
                entries,
                change,
            ) == Some(entries[i].1@),
    decreases entries.len(),
{
    if entries.len() > 0 {
        let init = entries.drop_last();
        lemma_entry_of(init, change);
        assert forall|i: int| 0 <= i < init.len() implies init[i] == entries[i] by {}
        if entries.last().0@ == change {
            assert(entries[entries.len() - 1].0@ == change);
        } else {
            assert forall|i: int|
                0 <= i < entries.len() && (#[trigger] entries[i]).0@ == change && (forall|j: int|
                    i < j < entries.len() ==> (#[trigger] entries[j]).0@
                        != change) implies entry_of(entries, change) == Some(entries[i].1@) by {
                assert(i < init.len());
                assert(init[i].0@ == change);
                assert forall|j: int| i < j < init.len() implies (#[trigger] init[j]).0@
                    != change by {
                    assert(entries[j].0@ != change);
                }
            }
            if forall|i: int| 0 <= i < init.len() ==> (#[trigger] init[i]).0@ != change {
                assert forall|i: int| 0 <= i < entries.len() implies (#[trigger] entries[i]).0@
                    != change by {
                    if i < init.len() {
                        assert(init[i].0@ != change);
                    }
                }
            } else {
                let i = choose|i: int| 0 <= i < init.len() && (#[trigger] init[i]).0@ == change;
                assert(entries[i].0@ == change);
            }
        }
    }
}

impl Default for FailureState {
    /// No failures.
    fn default() -> (r: FailureState)
        ensures
            r.wf(),
            forall|c: Seq<char>| #[trigger] r.entry(c) is None,
    {
        FailureState::new()
    }
}

impl FailureState {
    /// Whether no change has two entries.
    pub open spec fn wf(&self) -> bool {
        forall|i: int, j: int|
            0 <= i < j < self.entries@.len() ==> (#[trigger] self.entries@[i]).0@ != (
            #[trigger] self.entries@[j]).0@
    }

    /// The entry of a change.
    pub open spec fn entry(&self, change: Seq<char>) -> Option<FailureV> {
        entry_of(self.entries@, change)
    }

    /// No failures.
    pub fn new() -> (r: FailureState)
        ensures
            r.wf(),
            forall|c: Seq<char>| #[trigger] r.entry(c) is None,
    {
        FailureState { entries: Vec::new() }
    }

    fn position(&self, change: &str) -> (r: Option<usize>)
        requires
            self.wf(),
        ensures
            match r {
                Some(i) => i < self.entries@.len() && self.entries@[i as int].0@ == change@
                    && self.entry(change@) == Some(self.entries@[i as int].1@),
                None => self.entry(change@) is None && forall|i: int|
                    0 <= i < self.entries@.len() ==> (#[trigger] self.entries@[i]).0@ != change@,
            },
    {
        proof {
            lemma_entry_of(self.entries@, change@);
        }
        let mut i: usize = 0;
        while i < self.entries.len()
            invariant
                self.wf(),
                i <= self.entries@.len(),
                forall|j: int| 0 <= j < i ==> (#[trigger] self.entries@[j]).0@ != change@,
            decreases self.entries@.len() - i,
        {
            if same_text(self.entries[i].0.as_str(), change) {
                proof {
                    lemma_entry_of(self.entries@, change@);
                    assert forall|j: int| i < j < self.entries@.len() implies (
                    #[trigger] self.entries@[j]).0@ != change@ by {
                        assert(self.entries@[i as int].0@ != self.entries@[j].0@);
                    }
                }
                return Some(i);
            }
            i += 1;
        }
        None
    }

    /// The entry of a change.
    pub fn get(&self, change: &str) -> (r: Option<&FailureEntry>)
        requires
            self.wf(),
        ensures
            match r {
                Some(e) => self.entry(change@) == Some(e@),
                None => self.entry(change@) is None,
            },
    {
        match self.position(change) {
            Some(i) => Some(&self.entries[i].1),
            None => None,
        }
    }

    /// Gives a change the entry `entry`.
    pub fn put(&mut self, change: &str, entry: FailureEntry)
        requires
            old(self).wf(),
        ensures
            final(self).wf(),
            final(self).entry(change@) == Some(entry@),
            forall|c: Seq<char>| c != change@ ==> #[trigger] final(self).entry(c) == old(self).entry(c),
    {
        self.clear(change);
        let ghost cleared = *self;
        let ghost mid = self.entries@;
        let name = change.to_owned();
        let ghost pair = (name, entry);
        self.entries.push((name, entry));
        proof {
            assert(self.entries@ == mid.push(pair));
            assert(self.entries@.drop_last() =~= mid);
            lemma_entry_of(mid, change@);
            assert forall|c: Seq<char>| c != change@ implies #[trigger] self.entry(c) == old(
                self,
            ).entry(c) by {
                assert(self.entry(c) == cleared.entry(c));
            }
        }
    }

    /// One more failure of a change. Gives the new count.
    pub fn record_failure(&mut self, change: &str, reason: &str, now: Timestamp) -> (r: u32)
        requires
            old(self).wf(),
        ensures
            final(self).wf(),
            final(self).entry(change@) == Some(
                after_failure(old(self).entry(change@), reason@, now),
            ),
            r == after_failure(old(self).entry(change@), reason@, now).count,
            forall|c: Seq<char>| c != change@ ==> #[trigger] final(self).entry(c) == old(self).entry(c),
    {
        let count: u32 = match self.get(change) {
            Some(e) => e.count,
            None => 0,
        };
        let new_count: u32 = count.saturating_add(1);
        self.put(
            change,
            FailureEntry { count: new_count, last_reason: reason.to_owned(), last_failed_at: now },
        );
        new_count
    }

    /// Forgets a change. A change without an entry is left without one.
    pub fn clear(&mut self, change: &str)
        requires
            old(self).wf(),
        ensures
            final(self).wf(),
            final(self).entry(change@) is None,
            forall|c: Seq<char>| c != change@ ==> #[trigger] final(self).entry(c) == old(self).entry(c),
    {
        match self.position(change) {
            Some(i) => {
                let ghost before = self.entries@;
                self.entries.remove(i);
                proof {
                    let after = self.entries@;
                    assert(after == before.remove(i as int));
                    assert forall|j: int| 0 <= j < after.len() implies (#[trigger] after[j])
                        == before[if j < i {
                        j
                    } else {
                        j + 1
                    }] by {}
                    assert forall|j: int| 0 <= j < after.len() implies (#[trigger] after[j]).0@
                        != change@ by {
                        let k = if j < i {
                            j
                        } else {
                            j + 1
                        };
                        assert(before[k].0@ != before[i as int].0@ || k == i);
                    }
                    lemma_entry_of(after, change@);
                    assert forall|c: Seq<char>| c != change@ implies #[trigger] entry_of(after, c)
                        == entry_of(before, c) by {
                        lemma_remove_other(before, i as int, c);
                    }
                    assert forall|j: int, k: int| 0 <= j < k < after.len() implies (
                    #[trigger] after[j]).0@ != (#[trigger] after[k]).0@ by {
                        let p = if j < i {
                            j
                        } else {
                            j + 1
                        };
                        let q = if k < i {
                            k
                        } else {
                            k + 1
                        };
                        assert(before[p].0@ != before[q].0@);
                    }
                }
            },
            None => {},
        }
    }
}

proof fn lemma_remove_other(entries: Seq<(String, FailureEntry)>, i: int, c: Seq<char>)
    requires
        0 <= i < entries.len(),
        entries[i].0@ != c,
    ensures
        entry_of(entries.remove(i), c) == entry_of(entries, c),
    decreases entries.len(),
{
    let after = entries.remove(i);
    if i == entries.len() - 1 {
        assert(after =~= entries.drop_last());
    } else {
        assert(after.drop_last() =~= entries.drop_last().remove(i));
        assert(after.last() == entries.last());
        if entries.last().0@ != c {
            lemma_remove_other(entries.drop_last(), i, c);
        }
    }
}

/// The entry of a change that had none, after some failures: why each happened, and
/// when.
pub open spec fn after_failures(failures: Seq<(Seq<char>, Timestamp)>) -> Option<FailureV>
    decreases failures.len(),
{
    if failures.len() == 0 {
        None
    } else {
        Some(
            after_failure(
                after_failures(failures.drop_last()),
                failures.last().0,
                failures.last().1,
            ),
        )
    }
}

/// The count of a change is the number of its failures since it was cleared, up to
/// the largest count there is; the reason and the moment are those of the last one.
pub proof fn failures_count_up(failures: Seq<(Seq<char>, Timestamp)>)
    ensures
        failures.len() == 0 <==> after_failures(failures) is None,
        after_failures(failures) matches Some(e) ==> {
            &&& e.count == if failures.len() < u32::MAX {
                failures.len() as int
            } else {
                u32::MAX as int
            }
            &&& e.last_reason == failures.last().0
            &&& e.last_failed_at == failures.last().1
        },
    decreases failures.len(),
{
    if failures.len() > 0 {
        failures_count_up(failures.drop_last());
    }
}

/// Each change has a file of its own: no two changes of a repository share one. The
/// name of a change is no path from the root.
pub proof fn changes_have_their_own_files(
    state_dir: Seq<char>,
    workspace: Seq<char>,
    a: Seq<char>,
    b: Seq<char>,
)
    requires
        is_relative(a),
        is_relative(b),
        a != b,
    ensures
        change_place(state_dir, workspace, a) != change_place(state_dir, workspace, b),
{
    if change_place(state_dir, workspace, a) == change_place(state_dir, workspace, b) {
        lemma_json_files(repo_dir_path(state_dir, workspace), a, b);
    }
}

/// A file in the directory of a repository: its name, and the entry that it
/// holds where it could be read as one.
#[derive(Debug)]
pub struct StateFile {
    pub name: String,
    pub entry: Option<FailureEntry>,
}

/// The entries that a list of files gives: those of the `.json` files that hold
/// one. The change is the name without its ending; a later file of the same
/// change takes the place of an earlier.
pub open spec fn loaded(files: Seq<StateFile>, change: Seq<char>) -> Option<FailureV>
    decreases files.len(),
{
    if files.len() == 0 {
        None
    } else {
        let last = files.last();
        if last.entry is Some && without_suffix(last.name@, ".json"@) == Some(change) {
            Some(last.entry->0@)
        } else {
            loaded(files.drop_last(), change)
        }
    }
}

/// Collects the entries of a repository. A file that holds no entry counts as
/// no history.
pub fn load(files: Vec<StateFile>) -> (r: FailureState)
    ensures
        r.wf(),
        forall|c: Seq<char>| #[trigger] r.entry(c) == loaded(files@, c),
{
    let ghost all = files@;
    let mut state = FailureState::new();
    let mut rest = files;
    let mut queue: Vec<StateFile> = Vec::new();
    while rest.len() > 0
        invariant
            rest@.len() <= all.len(),
            rest@ == all.take(rest@.len() as int),
            queue@ == all.skip(rest@.len() as int).reverse(),
        decreases rest@.len(),
    {
        let ghost n = rest@.len() as int;
        match rest.pop() {
            Some(f) => {
                proof {
                    assert(f == all[n - 1]);
                    assert(all.skip(n - 1).reverse() =~= all.skip(n).reverse().push(f));
                    assert(all.take(n).drop_last() =~= all.take(n - 1));
                }
                queue.push(f);
            },
            None => {},
        }
    }
    proof {
        assert(all.skip(0) =~= all);
        assert(all.take(0) =~= Seq::<StateFile>::empty());
    }
    let ghost mut done: int = 0;
    while queue.len() > 0
        invariant
            0 <= done <= all.len(),
            queue@ == all.skip(done).reverse(),
            queue@.len() == all.len() - done,
            state.wf(),
            forall|c: Seq<char>| #[trigger] state.entry(c) == loaded(all.take(done), c),
        decreases queue@.len(),
    {
        match queue.pop() {
            Some(f) => {
                proof {
                    assert(f == all[done]);
                    assert(all.skip(done + 1).reverse() =~= all.skip(done).reverse().drop_last());
                    assert(all.take(done + 1).drop_last() =~= all.take(done));
                    assert(all.take(done + 1).last() == f);
                }
                let StateFile { name, entry } = f;
                match (strip_suffix(name.as_str(), ".json"), entry) {
                    (Some(change), Some(e)) => {
                        state.put(change.as_str(), e);
                    },
                    _ => {},
                }
                proof {
                    done = done + 1;
                }
            },
            None => {},
        }
    }
    proof {
        assert(all.take(all.len() as int) =~= all);
    }
    state
}

/// A file in the directory of a repository, and whether the change that it is
/// named after still has a directory in the workspace.
#[derive(Debug)]
pub struct KeptFile {
    pub name: String,
    pub change_exists: bool,
}

/// The changes to forget: those of the `.json` files whose change is gone.
pub open spec fn orphans(files: Seq<KeptFile>) -> Seq<Seq<char>>
    decreases files.len(),
{
    if files.len() == 0 {
        Seq::empty()
    } else {
        let before = orphans(files.drop_last());
        match without_suffix(files.last().name@, ".json"@) {
            Some(change) if !files.last().change_exists => before.push(change),
            _ => before,
        }
    }
}

/// Says which changes to forget: those whose directory is gone. A change that
/// is merely excluded from the queue keeps its count.
pub fn prune_orphans(files: &Vec<KeptFile>) -> (r: Vec<String>)
    ensures
        texts(r@) == orphans(files@),
{
    let mut out: Vec<String> = Vec::new();
    let mut i: usize = 0;
    proof {
        lemma_texts_empty();
    }
    while i < files.len()
        invariant
            i <= files@.len(),
            texts(out@) == orphans(files@.take(i as int)),
        decreases files@.len() - i,
    {
        proof {
            assert(files@.take(i + 1).drop_last() =~= files@.take(i as int));
            assert(files@.take(i + 1).last() == files@[i as int]);
        }
        if let Some(change) = strip_suffix(files[i].name.as_str(), ".json") {
            if !files[i].change_exists {
                proof {
                    lemma_texts_push(out@, change);
                }
                out.push(change);
            }
        }
        i += 1;
    }
    proof {
        assert(files@.take(files@.len() as int) =~= files@);
    }
    out
}

/// The changes to forget are found file by file, in their order: that of a `.json` file whose
/// change has no directory any more, by its name without the ending, and no other.
pub proof fn changes_that_are_gone_are_forgotten(list: Seq<KeptFile>, more: Seq<KeptFile>)
    ensures
        orphans(Seq::empty()) == Seq::<Seq<char>>::empty(),
        list.len() == 1 ==> orphans(list) == (match without_suffix(list[0].name@, ".json"@) {
            Some(change) => if list[0].change_exists {
                Seq::empty()
            } else {
                seq![change]
            },
            None => Seq::empty(),
        }),
        orphans(list + more) == orphans(list) + orphans(more),
    decreases more.len(),
{
    if list.len() == 1 {
        assert(list.drop_last() =~= Seq::<KeptFile>::empty());
        assert(orphans(list.drop_last()) =~= Seq::<Seq<char>>::empty());
        assert(orphans(list) =~= (match without_suffix(list[0].name@, ".json"@) {
            Some(change) => if list[0].change_exists {
                Seq::empty()
            } else {
                seq![change]
            },
            None => Seq::empty(),
        }));
    }
    if more.len() == 0 {
        assert(list + more =~= list);
        assert(orphans(list) + orphans(more) =~= orphans(list));
    } else {
        changes_that_are_gone_are_forgotten(list, more.drop_last());
        assert((list + more).drop_last() =~= list + more.drop_last());
        assert((list + more).last() == more.last());
        assert(orphans(list + more) =~= orphans(list) + orphans(more));
    }
}

/// A failure adds one to the count of its change, up to the largest count there is, and
/// leaves its reason and its moment; the count that is told is the new one, and no other
/// change is touched. A change that is cleared has none.
pub proof fn a_failure_adds_one(
    state: Ghost<&mut FailureState>,
    cleared: Ghost<&mut FailureState>,
    change: &str,
    other: Seq<char>,
    reason: &str,
    now: Timestamp,
    r: u32,
)
    requires
        call_ensures(FailureState::record_failure, (state@, change, reason, now), r),
        call_ensures(FailureState::clear, (cleared@, change), ()),
        other != change@,
    ensures
        ({
            let before: u32 = match (*state@).entry(change@) {
                Some(e) => e.count,
                None => 0,
            };
            &&& r == if before == u32::MAX {
                u32::MAX as int
            } else {
                before + 1
            }
            &&& (*final(state@)).entry(change@) matches Some(e)
            &&& e.count == r
            &&& e.last_reason == reason@
            &&& e.last_failed_at == now
            &&& (*final(state@)).entry(other) == (*state@).entry(other)
            &&& (*final(cleared@)).entry(change@) is None
            &&& (*final(cleared@)).entry(other) == (*cleared@).entry(other)
        }),
{
}

/// The entry after a failure does not depend on where it is kept.
pub proof fn a_noted_failure_adds_one(
    before: Option<FailureEntry>,
    reason: &str,
    now: Timestamp,
    r: FailureEntry,
)
    requires
        call_ensures(note_failure, (&before, reason, now), r),
    ensures
        before is None ==> r.count == 1,
        before matches Some(e) ==> r.count == if e.count == u32::MAX {
            u32::MAX as int
        } else {
            e.count + 1
        },
        r.last_reason@ == reason@,
        r.last_failed_at == now,
{
}

/// What is read back of a change is the entry of the last file that is named after it and
/// holds one; without such a file it has none.
pub proof fn the_last_file_of_a_change_counts(files: Seq<StateFile>, change: Seq<char>, i: int)
    requires
        0 <= i < files.len(),
        files[i].name@ == change + ".json"@,
        files[i].entry is Some,
        forall|j: int|
            i < j < files.len() ==> (#[trigger] files[j]).name@ != change + ".json"@
                || files[j].entry is None,
    ensures
        loaded(files, change) == Some(files[i].entry->0@),
    decreases files.len(),
{
    let last = files.last();
    what_is_taken_off_stood_there(last.name@, ".json"@, change);
    if i < files.len() - 1 {
        assert(files[files.len() - 1].name@ != change + ".json"@ || last.entry is None);
        let init = files.drop_last();
        assert forall|j: int| i < j < init.len() implies (#[trigger] init[j]).name@ != change
            + ".json"@ || init[j].entry is None by {
            assert(files[j].name@ != change + ".json"@ || files[j].entry is None);
        }
        the_last_file_of_a_change_counts(init, change, i);
    }
}

/// A change without a file that holds an entry has no history.
pub proof fn no_file_is_no_history(files: Seq<StateFile>, change: Seq<char>)
    requires
        forall|j: int|
            0 <= j < files.len() ==> (#[trigger] files[j]).name@ != change + ".json"@
                || files[j].entry is None,
    ensures
        loaded(files, change) is None,
    decreases files.len(),
{
    if files.len() > 0 {
        let init = files.drop_last();
        what_is_taken_off_stood_there(files.last().name@, ".json"@, change);
        assert(files[files.len() - 1].name@ != change + ".json"@ || files.last().entry is None);
        assert forall|j: int| 0 <= j < init.len() implies (#[trigger] init[j]).name@ != change
            + ".json"@ || init[j].entry is None by {
            assert(files[j].name@ != change + ".json"@ || files[j].entry is None);
        }
        no_file_is_no_history(init, change);
    }
}

/// Which entry a state has of a change: the one that stands under its name.
pub proof fn an_entry_stands_under_its_change(state: FailureState, i: int, change: Seq<char>)
    requires
        state.wf(),
        0 <= i < state.entries@.len(),
    ensures
        state.entry(state.entries@[i].0@) == Some(state.entries@[i].1@),
        (forall|j: int|
            0 <= j < state.entries@.len() ==> (#[trigger] state.entries@[j]).0@ != change)
            ==> state.entry(change) is None,
{
    lemma_entry_of(state.entries@, state.entries@[i].0@);
    lemma_entry_of(state.entries@, change);
    assert forall|j: int| i < j < state.entries@.len() implies (#[trigger] state.entries@[j]).0@
        != state.entries@[i].0@ by {
        assert(state.entries@[i].0@ != state.entries@[j].0@);
    }
}

/// The entries of a repository are kept under the last part of the path of its workspace.
pub proof fn entries_are_kept_by_workspace(
    state_dir: &str,
    workspace: &str,
    change: &str,
    dir: String,
    file: String,
)
    requires
        call_ensures(repo_dir, (state_dir, workspace), dir),
        call_ensures(change_file, (state_dir, workspace, change), file),
    ensures
        file@ == joined(dir@, change@ + ".json"@),
        dir@ == joined(
            joined(state_dir@, "failure-state"@),
            match file_name(workspace@) {
                Some(name) => name,
                None => "unknown"@,
            },
        ),
{
}

/// What is kept of failures: nothing in the beginning, what was put under its change, and what
/// the files hold; the changes to forget are found among the files.
pub proof fn failures_are_kept_by_change(
    fresh: FailureState,
    state: FailureState,
    change: &str,
    got: Option<&FailureEntry>,
    q: Ghost<&mut FailureState>,
    entry: FailureEntry,
    files: Vec<StateFile>,
    loaded_state: FailureState,
    kept: Vec<KeptFile>,
    gone: Vec<String>,
    other: Seq<char>,
)
    requires
        call_ensures(FailureState::new, (), fresh),
        state.wf(),
        call_ensures(FailureState::get, (&state, change), got),
        (*q@).wf(),
        call_ensures(FailureState::put, (q@, change, entry), ()),
        call_ensures(load, (files,), loaded_state),
        call_ensures(prune_orphans, (&kept,), gone),
    ensures
        fresh.entry(other) is None,
        got matches Some(e) ==> state.entry(change@) == Some(e@),
        got is None ==> state.entry(change@) is None,
        (*final(q@)).entry(change@) == Some(entry@),
        other != change@ ==> (*final(q@)).entry(other) == (*q@).entry(other),
        loaded_state.entry(other) == loaded(files@, other),
        texts(gone@) == orphans(kept@),
{
}

} // verus!
