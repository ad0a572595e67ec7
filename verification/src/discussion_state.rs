//! Discussions with operators: what is kept of each, and which of them have been
//! silent for too long.
use vstd::prelude::*;
use crate::clock::{Span, Timestamp};
use crate::path::{is_relative, join_path, joined, lemma_json_files, DaemonPaths};
use crate::text::{cat2, ends_with, lemma_texts_empty, lemma_texts_push, texts};

verus! {

/// Where a discussion stands.
#[derive(Debug, Clone, Copy, PartialEq, Eq, Structural)]
pub enum DiscussionStatus {
    Active,
    Executing,
    Completed,
}

impl DiscussionStatus {
    /// What the status is called.
    pub fn label(self) -> (r: &'static str)
        ensures
            r@ == match self {
                DiscussionStatus::Active => "active"@,
                DiscussionStatus::Executing => "executing"@,
                DiscussionStatus::Completed => "completed"@,
            },
    {
        match self {
            DiscussionStatus::Active => "active",
            DiscussionStatus::Executing => "executing",
            DiscussionStatus::Completed => "completed",
        }
    }
}

/// What is kept of a discussion.
#[derive(Debug, Clone, PartialEq, Eq)]
pub struct DiscussionState {
    pub thread_ts: String,
    pub channel: String,
    pub repo_url: String,
    pub request_id: String,
    pub operator_user: String,
    pub status: DiscussionStatus,
    /// The session of the agent, once it has had a turn.
    pub session_id: Option<String>,
    /// The change that was deferred for the sake of the discussion.
    pub deferred_slug: Option<String>,
    /// When the operator was reminded of a silent discussion.
    pub reminded_at: Option<Timestamp>,
    /// When somebody last had a turn.
    pub last_activity_at: Timestamp,
    pub created_at: Timestamp,
}

/// Where the states of all discussions are kept.
pub open spec fn discussions_place(root: Seq<char>) -> Seq<char> {
    joined(root, "discussions"@)
}

/// Where the state of one discussion is kept.
pub open spec fn discussion_place(root: Seq<char>, thread_ts: Seq<char>) -> Seq<char> {
    joined(discussions_place(root), thread_ts + ".json"@)
}

/// Where the state of one discussion is kept.
pub fn state_path(state_dir_root: &str, thread_ts: &str) -> (r: String)
    ensures
        r@ == discussion_place(state_dir_root@, thread_ts@),
{
    join_path(state_dir(state_dir_root).as_str(), cat2(thread_ts, ".json").as_str())
}

/// Where the states of all discussions are kept.
pub fn state_dir(root: &str) -> (r: String)
    ensures
        r@ == discussions_place(root@),
{
    join_path(root, "discussions")
}

/// Where states are kept by default.
pub fn default_state_root(paths: &DaemonPaths) -> (r: String)
    ensures
        r@ == paths.state@,
{
    paths.state.clone()
}

/// Whether a file of that name holds the state of a discussion: it has a name
/// and the extension `json`.
pub open spec fn is_state_name(name: Seq<char>) -> bool {
    ".json"@.is_suffix_of(name) && name != ".json"@
}

fn state_name(name: &str) -> (r: bool)
    ensures
        r == is_state_name(name@),
{
    ends_with(name, ".json") && !crate::text::same_text(name, ".json")
}

/// A file where the states are kept: its name, and what it holds where it could
/// be read.
#[derive(Debug)]
pub struct DiscussionFile {
    pub name: String,
    pub state: Option<DiscussionState>,
}

/// The state that a file holds.
pub open spec fn state_in(file: DiscussionFile) -> Option<DiscussionState> {
    if is_state_name(file.name@) {
        file.state
    } else {
        None
    }
}

/// The states that the files hold. A file that could not be read is passed over.
pub open spec fn states_of(files: Seq<DiscussionFile>) -> Seq<DiscussionState>
    decreases files.len(),
{
    if files.len() == 0 {
        Seq::empty()
    } else {
        let before = states_of(files.drop_last());
        match state_in(files.last()) {
            Some(s) => before.push(s),
            None => before,
        }
    }
}

/// The states that the files hold, in their order. One bad file does not keep
/// the others from being read.
pub fn list_states(files: Vec<DiscussionFile>) -> (r: Vec<DiscussionState>)
    ensures
        r@ == states_of(files@),
{
    let ghost all = files@;
    let mut rest = files;
    let mut back: Vec<DiscussionState> = Vec::new();
    proof {
        assert(all.take(all.len() as int) =~= all);
        assert(states_of(all) + back@.reverse() =~= states_of(all));
    }
    while rest.len() > 0
        invariant
            rest@.len() <= all.len(),
            rest@ == all.take(rest@.len() as int),
            states_of(rest@) + back@.reverse() == states_of(all),
        decreases rest@.len(),
    {
        let ghost now = rest@;
        let last = match rest.pop() {
            Some(f) => f,
            None => return back,
        };
        proof {
            assert(rest@ =~= now.drop_last());
            assert(rest@ =~= all.take(rest@.len() as int));
        }
        if state_name(last.name.as_str()) {
            if let Some(s) = last.state {
                proof {
                    assert(states_of(now.drop_last()).push(s) + back@.reverse() =~= states_of(
                        now.drop_last(),
                    ) + back@.push(s).reverse());
                }
                back.push(s);
            }
        }
    }
    let mut out: Vec<DiscussionState> = Vec::new();
    let ghost reversed = back@;
    proof {
        assert(states_of(rest@) + back@.reverse() =~= back@.reverse());
        assert(out@ + back@.reverse() =~= back@.reverse());
    }
    while back.len() > 0
        invariant
            out@ + back@.reverse() == reversed.reverse(),
        decreases back@.len(),
    {
        let ghost now = back@;
        if let Some(s) = back.pop() {
            proof {
                assert(back@ =~= now.drop_last());
                assert(out@.push(s) + back@.reverse() =~= out@ + now.reverse());
            }
            out.push(s);
        }
    }
    proof {
        assert(out@ + back@.reverse() =~= out@);
    }
    out
}

/// Whether a discussion has been silent for more than `max_age`.
pub open spec fn is_stale(state: DiscussionState, now: Timestamp, max_age: Span) -> bool {
    now.since(state.last_activity_at) > max_age.length()
}

/// The files of the discussions that have been silent for too long.
pub open spec fn stale_names(
    files: Seq<DiscussionFile>,
    now: Timestamp,
    max_age: Span,
) -> Seq<Seq<char>>
    decreases files.len(),
{
    if files.len() == 0 {
        Seq::empty()
    } else {
        let before = stale_names(files.drop_last(), now, max_age);
        match state_in(files.last()) {
            Some(s) if is_stale(s, now, max_age) => before.push(files.last().name@),
            _ => before,
        }
    }
}

/// Says which files to remove: those of the discussions that have been silent
/// for more than `max_age`, whatever their status. A file that could
/// not be read stays.
pub fn prune_stale_entries(files: &Vec<DiscussionFile>, now: Timestamp, max_age: Span) -> (r: Vec<
    String,
>)
    ensures
        texts(r@) == stale_names(files@, now, max_age),
{
    let mut out: Vec<String> = Vec::new();
    let mut i: usize = 0;
    proof {
        lemma_texts_empty();
    }
    while i < files.len()
        invariant
            i <= files@.len(),
            texts(out@) == stale_names(files@.take(i as int), now, max_age),
        decreases files@.len() - i,
    {
        proof {
            assert(files@.take(i + 1).drop_last() =~= files@.take(i as int));
        }
        if state_name(files[i].name.as_str()) {
            if let Some(s) = &files[i].state {
                if now.is_later_by_more_than(&s.last_activity_at, &max_age) {
                    let name = files[i].name.clone();
                    proof {
                        lemma_texts_push(out@, name);
                    }
                    out.push(name);
                }
            }
        }
        i += 1;
    }
    proof {
        assert(files@.take(files@.len() as int) =~= files@);
    }
    out
}

/// Each thread has a file of its own: no two threads share one. The name of a thread
/// is no path from the root.
pub proof fn threads_have_their_own_files(root: Seq<char>, a: Seq<char>, b: Seq<char>)
    requires
        is_relative(a),
        is_relative(b),
        a != b,
    ensures
        discussion_place(root, a) != discussion_place(root, b),
{
    if discussion_place(root, a) == discussion_place(root, b) {
        lemma_json_files(discussions_place(root), a, b);
    }
}

/// A discussion is forgotten for its silence alone: two states that differ in
/// anything but the moment of the last turn are kept or forgotten together.
pub proof fn silence_alone_decides(
    a: DiscussionState,
    b: DiscussionState,
    now: Timestamp,
    max_age: Span,
)
    requires
        a.last_activity_at == b.last_activity_at,
    ensures
        is_stale(a, now, max_age) == is_stale(b, now, max_age),
{
}

/// The states are listed file by file, in their order: a file gives the one that it holds,
/// where it has a name and ends in `.json`, and one that cannot be read gives none and
/// keeps no other from being listed.
pub proof fn every_state_that_can_be_read_is_listed(
    list: Seq<DiscussionFile>,
    more: Seq<DiscussionFile>,
)
    ensures
        states_of(Seq::empty()) == Seq::<DiscussionState>::empty(),
        list.len() == 1 ==> states_of(list) == (match list[0].state {
            Some(s) => if exists|name: Seq<char>|
                list[0].name@ == #[trigger] (name + ".json"@) && name.len() > 0 {
                seq![s]
            } else {
                Seq::empty()
            },
            None => Seq::empty(),
        }),
        states_of(list + more) == states_of(list) + states_of(more),
    decreases more.len(),
{
    if list.len() == 1 {
        lemma_state_name(list[0].name@);
    }
    if list.len() == 1 {
        assert(list.drop_last() =~= Seq::<DiscussionFile>::empty());
        assert(states_of(list.drop_last()) =~= Seq::<DiscussionState>::empty());
        assert(states_of(list) =~= (match list[0].state {
            Some(s) => if exists|name: Seq<char>|
                list[0].name@ == #[trigger] (name + ".json"@) && name.len() > 0 {
                seq![s]
            } else {
                Seq::empty()
            },
            None => Seq::empty(),
        }));
    }
    if more.len() == 0 {
        assert(list + more =~= list);
        assert(states_of(list) + states_of(more) =~= states_of(list));
    } else {
        every_state_that_can_be_read_is_listed(list, more.drop_last());
        assert((list + more).drop_last() =~= list + more.drop_last());
        assert((list + more).last() == more.last());
        assert(states_of(list + more) =~= states_of(list) + states_of(more));
    }
}

/// The files that are removed are found file by file, in their order: that of a discussion
/// whose last turn lies back by more than the given time, and no other.
pub proof fn silent_discussions_are_removed(
    list: Seq<DiscussionFile>,
    more: Seq<DiscussionFile>,
    now: Timestamp,
    max_age: Span,
)
    ensures
        stale_names(Seq::empty(), now, max_age) == Seq::<Seq<char>>::empty(),
        list.len() == 1 ==> stale_names(list, now, max_age) == (match state_in(list[0]) {
            Some(s) => if now.since(s.last_activity_at) > max_age.seconds * 1_000_000_000
                + max_age.nanos {
                seq![list[0].name@]
            } else {
                Seq::empty()
            },
            None => Seq::empty(),
        }),
        stale_names(list + more, now, max_age)
            == stale_names(list, now, max_age) + stale_names(more, now, max_age),
    decreases more.len(),
{
    if list.len() == 1 {
        assert(list.drop_last() =~= Seq::<DiscussionFile>::empty());
        assert(stale_names(list.drop_last(), now, max_age) =~= Seq::<Seq<char>>::empty());
        assert(stale_names(list, now, max_age) =~= (match state_in(list[0]) {
            Some(s) => if now.since(s.last_activity_at) > max_age.seconds * 1_000_000_000
                + max_age.nanos {
                seq![list[0].name@]
            } else {
                Seq::empty()
            },
            None => Seq::empty(),
        }));
    }
    if more.len() == 0 {
        assert(list + more =~= list);
        assert(stale_names(list, now, max_age)
            + stale_names(more, now, max_age) =~= stale_names(list, now, max_age));
    } else {
        silent_discussions_are_removed(list, more.drop_last(), now, max_age);
        assert((list + more).drop_last() =~= list + more.drop_last());
        assert((list + more).last() == more.last());
        assert(stale_names(list + more, now, max_age) =~= stale_names(list, now, max_age)
            + stale_names(more, now, max_age));
    }
}

proof fn lemma_state_name(name: Seq<char>)
    ensures
        is_state_name(name) <==> exists|stem: Seq<char>|
            name == #[trigger] (stem + ".json"@) && stem.len() > 0,
{
    if is_state_name(name) {
        let n = name.len() - ".json"@.len();
        let stem = name.subrange(0, n);
        assert(name.subrange(n, name.len() as int) == ".json"@);
        assert(name =~= stem + ".json"@);
        if stem.len() == 0 {
            assert(name =~= ".json"@);
        }
    }
    if exists|stem: Seq<char>| name == #[trigger] (stem + ".json"@) && stem.len() > 0 {
        let stem = choose|stem: Seq<char>| name == #[trigger] (stem + ".json"@) && stem.len() > 0;
        assert(name.subrange(name.len() - ".json"@.len(), name.len() as int) =~= ".json"@);
    }
}

/// A state is kept under the name of its thread, where all of them are kept; the root is that
/// of what outlives a restart.
pub proof fn a_state_is_kept_by_its_thread(
    root: &str,
    thread_ts: &str,
    path: String,
    dir: String,
    paths: DaemonPaths,
    default: String,
)
    requires
        call_ensures(state_path, (root, thread_ts), path),
        call_ensures(state_dir, (root,), dir),
        call_ensures(default_state_root, (&paths,), default),
    ensures
        dir@ == joined(root@, "discussions"@),
        path@ == joined(dir@, thread_ts@ + ".json"@),
        default@ == paths.state@,
{
}

/// A status goes by its name.
pub proof fn a_status_goes_by_its_name(status: DiscussionStatus, r: &'static str)
    requires
        call_ensures(DiscussionStatus::label, (status,), r),
    ensures
        status is Active ==> r@ == "active"@,
        status is Executing ==> r@ == "executing"@,
        status is Completed ==> r@ == "completed"@,
{
}

/// What is listed and what is removed are found among the files that there are.
pub proof fn discussions_are_found_among_their_files(
    files: Vec<DiscussionFile>,
    states: Vec<DiscussionState>,
    now: Timestamp,
    max_age: Span,
    names: Vec<String>,
)
    requires
        call_ensures(list_states, (files,), states),
        call_ensures(prune_stale_entries, (&files, now, max_age), names),
    ensures
        states@ == states_of(files@),
        texts(names@) == stale_names(files@, now, max_age),
{
}

} // verus!
