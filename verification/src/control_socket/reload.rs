//! Taking over a changed configuration: which sections take effect at once,
//! which need a restart, and which polling tasks start, stop or change.
use vstd::prelude::*;
use crate::json::{
    a_refusal_says_why, lemma_get_empty, lemma_get_with, lookup, obj, refusal, refuse, str_array,
    Fields, Json, JsonV,
};
use crate::text::{
    cat4, is_sorted, lemma_texts_empty, lemma_texts_push, same_text, sort_texts, texts,
};

verus! {

/// Whether the new configuration can be used at all, and what a reload is told
/// otherwise: it must load, no two repositories may share a workspace, and every
/// repository needs a token.
pub fn check_reload(
    path: &str,
    loaded: Result<(), String>,
    collisions: Result<(), String>,
    token_routes: Result<(), String>,
) -> (r: Result<(), Json>)
    ensures
        match (loaded, collisions, token_routes) {
            (Err(e), _, _) => r matches Err(j) && j@ == refusal(
                "config file "@ + path@ + ": "@ + e@,
            ),
            (Ok(_), Err(e), _) => r matches Err(j) && j@ == refusal(e@),
            (Ok(_), Ok(_), Err(e)) => r matches Err(j) && j@ == refusal(e@),
            (Ok(_), Ok(_), Ok(_)) => r is Ok,
        },
{
    match loaded {
        Ok(_) => {},
        Err(e) => return Err(
            refuse(cat4("config file ", path, ": ", e.as_str()).as_str()),
        ),
    }
    match collisions {
        Ok(_) => {},
        Err(e) => return Err(refuse(e.as_str())),
    }
    match token_routes {
        Ok(_) => Ok(()),
        Err(e) => Err(refuse(e.as_str())),
    }
}

/// A section of the configuration as text, as it was and as it is now.
#[derive(Debug)]
pub struct SectionText {
    pub current: String,
    pub new: String,
}

impl SectionText {
    pub open spec fn changed(self) -> bool {
        self.current@ != self.new@
    }

    /// Whether the section is another than before.
    pub fn differs(&self) -> (r: bool)
        ensures
            r == self.changed(),
    {
        !same_text(self.current.as_str(), self.new.as_str())
    }
}

/// The sections that are compared by their text.
#[derive(Debug)]
pub struct SectionTexts {
    /// The key of the section on reviews in the configuration file. The other
    /// sections go by fixed keys.
    pub reviewer_key: String,
    pub github: SectionText,
    pub reviewer: SectionText,
    pub chatops: SectionText,
    pub cache: SectionText,
    pub executor: SectionText,
}

/// A polling task as it is: the repository it serves, whether it was told to
/// stop, and the text of its configuration.
#[derive(Debug)]
pub struct TaskSnapshot {
    pub url: String,
    pub cancelled: bool,
    pub config: String,
}

/// A repository of the new configuration, with the text of its section.
#[derive(Debug)]
pub struct NewRepository {
    pub url: String,
    pub config: String,
}

/// What happens to the polling tasks.
#[derive(Debug)]
pub struct RepositoryPlan {
    /// Tasks to stop.
    pub cancel: Vec<String>,
    /// Tasks to give the new configuration.
    pub swap: Vec<String>,
    /// Repositories to start a task for.
    pub spawn: Vec<String>,
}

/// Whether a task serves that repository.
pub open spec fn has_task(current: Seq<TaskSnapshot>, url: Seq<char>) -> bool {
    exists|i: int| 0 <= i < current.len() && (#[trigger] current[i]).url@ == url
}

/// The text of the new configuration of a repository; the last one counts.
pub open spec fn new_config(new: Seq<NewRepository>, url: Seq<char>) -> Option<Seq<char>>
    decreases new.len(),
{
    if new.len() == 0 {
        None
    } else if new.last().url@ == url {
        Some(new.last().config@)
    } else {
        new_config(new.drop_last(), url)
    }
}

/// Whether the first task that serves a repository runs with another
/// configuration than the new one, and was not told to stop.
pub open spec fn needs_swap(
    current: Seq<TaskSnapshot>,
    new: Seq<NewRepository>,
    url: Seq<char>,
) -> bool
    decreases current.len(),
{
    if current.len() == 0 {
        false
    } else if current[0].url@ == url {
        &&& new_config(new, url) matches Some(c)
        &&& c != current[0].config@
        &&& !current[0].cancelled
    } else {
        needs_swap(current.drop_first(), new, url)
    }
}

/// Whether a list holds exactly the strings that satisfy `p`, in order and each once.
pub open spec fn lists(v: Seq<Seq<char>>, p: spec_fn(Seq<char>) -> bool) -> bool {
    &&& is_sorted(v)
    &&& v.no_duplicates()
    &&& forall|s: Seq<char>| #[trigger] v.contains(s) <==> p(s)
}

/// The plan that leads from the tasks to the new configuration: a task whose
/// repository is gone is stopped, a repository without a task gets one, and a
/// task whose configuration is another gets the new one unless it is stopping.
pub open spec fn is_plan(
    plan: RepositoryPlan,
    current: Seq<TaskSnapshot>,
    new: Seq<NewRepository>,
) -> bool {
    &&& lists(
        texts(plan.cancel@),
        |u: Seq<char>| has_task(current, u) && new_config(new, u) is None,
    )
    &&& lists(texts(plan.swap@), |u: Seq<char>| needs_swap(current, new, u))
    &&& lists(
        texts(plan.spawn@),
        |u: Seq<char>| !has_task(current, u) && new_config(new, u) is Some,
    )
}

fn position(v: &Vec<String>, s: &str) -> (r: bool)
    ensures
        r == texts(v@).contains(s@),
{
    let mut i: usize = 0;
    while i < v.len()
        invariant
            i <= v@.len(),
            forall|k: int| 0 <= k < i ==> (#[trigger] v@[k])@ != s@,
        decreases v@.len() - i,
    {
        if same_text(v[i].as_str(), s) {
            proof {
                assert(texts(v@)[i as int] == s@);
            }
            return true;
        }
        i += 1;
    }
    proof {
        assert forall|k: int| 0 <= k < texts(v@).len() implies texts(v@)[k] != s@ by {
            assert(v@[k]@ != s@);
        }
    }
    false
}

fn add_once(v: &mut Vec<String>, s: &str)
    requires
        texts(old(v)@).no_duplicates(),
    ensures
        texts(final(v)@).no_duplicates(),
        forall|t: Seq<char>|
            #[trigger] texts(final(v)@).contains(t) <==> texts(old(v)@).contains(t) || t == s@,
{
    if position(v, s) {
        return ;
    }
    let ghost before = texts(v@);
    let own = s.to_owned();
    proof {
        lemma_texts_push(v@, own);
    }
    v.push(own);
    proof {
        let after = texts(v@);
        assert(after == before.push(s@));
        assert forall|t: Seq<char>| #[trigger] after.contains(t) <==> before.contains(t) || t
            == s@ by {
            if before.contains(t) {
                let i = before.index_of(t);
                assert(after[i] == t);
            }
            if t == s@ {
                assert(after[before.len() as int] == t);
            }
            if after.contains(t) && t != s@ {
                let i = after.index_of(t);
                assert(before[i] == t);
            }
        }
        assert forall|i: int, j: int| 0 <= i < after.len() && 0 <= j < after.len() && i
            != j implies after[i] != after[j] by {
            if i == before.len() {
                assert(before.contains(after[j]) || j == before.len());
                assert(before[j] == after[j]);
            } else if j == before.len() {
                assert(before[i] == after[i]);
            } else {
                assert(before[i] == after[i]);
                assert(before[j] == after[j]);
            }
        }
    }
}

fn in_order(v: &Vec<String>) -> (r: Vec<String>)
    requires
        texts(v@).no_duplicates(),
    ensures
        is_sorted(texts(r@)),
        texts(r@).no_duplicates(),
        forall|t: Seq<char>| #[trigger] texts(r@).contains(t) <==> texts(v@).contains(t),
{
    let r = sort_texts(v);
    proof {
        broadcast use vstd::seq_lib::group_to_multiset_ensures;

        let a = texts(v@);
        let b = texts(r@);
        a.lemma_multiset_has_no_duplicates();
        assert forall|t: Seq<char>| #[trigger] b.contains(t) <==> a.contains(t) by {
            assert(a.to_multiset().count(t) == b.to_multiset().count(t));
        }
        assert forall|t: Seq<char>| b.to_multiset().contains(t) implies b.to_multiset().count(t)
            == 1 by {
            assert(a.to_multiset().contains(t));
        }
        b.lemma_multiset_has_no_duplicates_conv();
    }
    r
}

fn find_new(new: &Vec<NewRepository>, url: &str) -> (r: Option<usize>)
    ensures
        match r {
            Some(i) => i < new@.len() && new_config(new@, url@) == Some(new@[i as int].config@),
            None => new_config(new@, url@) is None,
        },
{
    let mut n: usize = new.len();
    proof {
        assert(new@.take(new@.len() as int) =~= new@);
    }
    while n > 0
        invariant
            n <= new@.len(),
            new_config(new@, url@) == new_config(new@.take(n as int), url@),
        decreases n,
    {
        proof {
            assert(new@.take(n as int).last() == new@[n - 1]);
            assert(new@.take(n as int).drop_last() =~= new@.take(n - 1));
        }
        if same_text(new[n - 1].url.as_str(), url) {
            return Some(n - 1);
        }
        n -= 1;
    }
    None
}

fn find_task(current: &Vec<TaskSnapshot>, url: &str) -> (r: Option<usize>)
    ensures
        match r {
            Some(i) => i < current@.len() && current@[i as int].url@ == url@ && forall|k: int|
                0 <= k < i ==> (#[trigger] current@[k]).url@ != url@,
            None => !has_task(current@, url@),
        },
{
    let mut i: usize = 0;
    while i < current.len()
        invariant
            i <= current@.len(),
            forall|k: int| 0 <= k < i ==> (#[trigger] current@[k]).url@ != url@,
        decreases current@.len() - i,
    {
        if same_text(current[i].url.as_str(), url) {
            return Some(i);
        }
        i += 1;
    }
    None
}

proof fn lemma_needs_swap(
    current: Seq<TaskSnapshot>,
    new: Seq<NewRepository>,
    url: Seq<char>,
    i: int,
)
    requires
        0 <= i < current.len(),
        current[i].url@ == url,
        forall|k: int| 0 <= k < i ==> (#[trigger] current[k]).url@ != url,
    ensures
        needs_swap(current, new, url) == (new_config(new, url) matches Some(c) && c
            != current[i].config@ && !current[i].cancelled),
    decreases i,
{
    if i > 0 {
        assert(current[0].url@ != url);
        let rest = current.drop_first();
        assert forall|k: int| 0 <= k < i - 1 implies (#[trigger] rest[k]).url@ != url by {
            assert(current[k + 1].url@ != url);
        }
        lemma_needs_swap(rest, new, url, i - 1);
    }
}

proof fn lemma_swap_has_task(current: Seq<TaskSnapshot>, new: Seq<NewRepository>, url: Seq<char>)
    ensures
        needs_swap(current, new, url) ==> has_task(current, url) && new_config(new, url) is Some,
    decreases current.len(),
{
    if current.len() > 0 {
        if current[0].url@ == url {
        } else {
            let rest = current.drop_first();
            lemma_swap_has_task(rest, new, url);
            if needs_swap(current, new, url) {
                let i = choose|i: int| 0 <= i < rest.len() && (#[trigger] rest[i]).url@ == url;
                assert(current[i + 1].url@ == url);
            }
        }
    }
}

/// Says what happens to the polling tasks so that they serve the new
/// configuration.
pub fn plan_repository_changes(current: &Vec<TaskSnapshot>, new: &Vec<NewRepository>) -> (r:
    RepositoryPlan)
    ensures
        is_plan(r, current@, new@),
{
    let mut cancel: Vec<String> = Vec::new();
    let mut swap: Vec<String> = Vec::new();
    let mut spawn: Vec<String> = Vec::new();
    proof {
        lemma_texts_empty();
    }
    let mut i: usize = 0;
    while i < current.len()
        invariant
            i <= current@.len(),
            texts(cancel@).no_duplicates(),
            texts(swap@).no_duplicates(),
            forall|u: Seq<char>|
                #[trigger] texts(cancel@).contains(u) <==> has_task(current@.take(i as int), u)
                    && new_config(new@, u) is None,
            forall|u: Seq<char>|
                #[trigger] texts(swap@).contains(u) <==> has_task(current@.take(i as int), u)
                    && needs_swap(current@, new@, u),
        decreases current@.len() - i,
    {
        let ghost past = current@.take(i as int);
        let ghost now = current@.take(i + 1);
        let ghost url = current@[i as int].url@;
        proof {
            assert forall|u: Seq<char>| #[trigger] has_task(now, u) <==> has_task(past, u) || u
                == url by {
                if has_task(past, u) {
                    let k = choose|k: int| 0 <= k < past.len() && (#[trigger] past[k]).url@ == u;
                    assert(now[k].url@ == u);
                }
                if u == url {
                    assert(now[i as int].url@ == u);
                }
                if has_task(now, u) && u != url {
                    let k = choose|k: int| 0 <= k < now.len() && (#[trigger] now[k]).url@ == u;
                    assert(past[k].url@ == u);
                }
            }
        }
        match find_new(new, current[i].url.as_str()) {
            None => {
                add_once(&mut cancel, current[i].url.as_str());
                proof {
                    lemma_swap_has_task(current@, new@, url);
                }
            },
            Some(n) => {
                let first = find_task(current, current[i].url.as_str());
                match first {
                    Some(t) => {
                        proof {
                            lemma_needs_swap(current@, new@, url, t as int);
                        }
                        if !current[t].cancelled && !same_text(
                            current[t].config.as_str(),
                            new[n].config.as_str(),
                        ) {
                            add_once(&mut swap, current[i].url.as_str());
                        }
                    },
                    None => {
                        proof {
                            assert(current@[i as int].url@ == url);
                            assert(false);
                        }
                    },
                }
            },
        }
        i += 1;
    }
    proof {
        assert(current@.take(current@.len() as int) =~= current@);
        assert forall|u: Seq<char>| #[trigger] texts(swap@).contains(u) <==> needs_swap(
            current@,
            new@,
            u,
        ) by {
            lemma_swap_has_task(current@, new@, u);
        }
    }
    let mut j: usize = 0;
    while j < new.len()
        invariant
            j <= new@.len(),
            texts(spawn@).no_duplicates(),
            forall|u: Seq<char>|
                #[trigger] texts(spawn@).contains(u) <==> !has_task(current@, u) && new_config(
                    new@.take(j as int),
                    u,
                ) is Some,
        decreases new@.len() - j,
    {
        proof {
            assert(new@.take(j + 1).drop_last() =~= new@.take(j as int));
            assert(new@.take(j + 1).last() == new@[j as int]);
        }
        if find_task(current, new[j].url.as_str()).is_none() {
            add_once(&mut spawn, new[j].url.as_str());
        } else {
            proof {
                assert(has_task(current@, new@[j as int].url@));
            }
        }
        j += 1;
    }
    proof {
        assert(new@.take(new@.len() as int) =~= new@);
    }
    RepositoryPlan { cancel: in_order(&cancel), swap: in_order(&swap), spawn: in_order(&spawn) }
}

/// No repository is both stopped and started, or stopped and changed, or started
/// and changed; and where the tasks run with the new configuration already,
/// nothing happens.
pub proof fn plan_parts_are_disjoint(
    plan: RepositoryPlan,
    current: Seq<TaskSnapshot>,
    new: Seq<NewRepository>,
    url: Seq<char>,
)
    requires
        is_plan(plan, current, new),
    ensures
        !(texts(plan.cancel@).contains(url) && texts(plan.spawn@).contains(url)),
        !(texts(plan.cancel@).contains(url) && texts(plan.swap@).contains(url)),
        !(texts(plan.spawn@).contains(url) && texts(plan.swap@).contains(url)),
        has_task(current, url) && new_config(new, url) is Some && !needs_swap(current, new, url)
            ==> !texts(plan.cancel@).contains(url) && !texts(plan.spawn@).contains(url) && !texts(
            plan.swap@,
        ).contains(url),
{
    lemma_swap_has_task(current, new, url);
}

/// What came of starting a task.
#[derive(Debug, Clone, Copy, PartialEq, Eq, Structural)]
pub enum SpawnOutcome {
    Spawned,
    /// A task for the repository is there still.
    AlreadyPresent,
    /// The workspace of the repository is not fit.
    StartupCheckFailed,
}

/// What happened to the polling tasks.
#[derive(Debug, Clone)]
pub struct RepositoriesDelta {
    pub added: Vec<String>,
    pub removed: Vec<String>,
    pub changed: Vec<String>,
}

/// The strings whose flag is set; a missing flag counts as not set.
pub open spec fn picked(names: Seq<Seq<char>>, flags: Seq<bool>) -> Seq<Seq<char>>
    decreases names.len(),
{
    if names.len() == 0 {
        Seq::empty()
    } else {
        let before = picked(names.drop_last(), flags);
        let i = names.len() - 1;
        if i < flags.len() && flags[i] {
            before.push(names[i])
        } else {
            before
        }
    }
}

fn pick(names: &Vec<String>, flags: &Vec<bool>) -> (r: Vec<String>)
    ensures
        texts(r@) == picked(texts(names@), flags@),
{
    let mut out: Vec<String> = Vec::new();
    let mut i: usize = 0;
    let ghost all = texts(names@);
    proof {
        lemma_texts_empty();
    }
    while i < names.len()
        invariant
            i <= names@.len(),
            all == texts(names@),
            texts(out@) == picked(all.take(i as int), flags@),
        decreases names@.len() - i,
    {
        proof {
            assert(all.take(i + 1).drop_last() =~= all.take(i as int));
        }
        if i < flags.len() && flags[i] {
            let name = names[i].clone();
            proof {
                lemma_texts_push(out@, name);
            }
            out.push(name);
        }
        i += 1;
    }
    proof {
        assert(all.take(all.len() as int) =~= all);
    }
    out
}

/// Which starts succeeded.
pub open spec fn spawned_flags(outcomes: Seq<SpawnOutcome>) -> Seq<bool> {
    Seq::new(outcomes.len(), |i: int| outcomes[i] == SpawnOutcome::Spawned)
}

impl RepositoriesDelta {
    /// Reports what came of a plan: only a task that was there to be stopped or
    /// changed, and only a task that was started, is counted.
    pub fn of(
        plan: &RepositoryPlan,
        cancelled: &Vec<bool>,
        swapped: &Vec<bool>,
        spawned: &Vec<SpawnOutcome>,
    ) -> (r: RepositoriesDelta)
        ensures
            texts(r.removed@) == picked(texts(plan.cancel@), cancelled@),
            texts(r.changed@) == picked(texts(plan.swap@), swapped@),
            texts(r.added@) == picked(texts(plan.spawn@), spawned_flags(spawned@)),
    {
        let mut flags: Vec<bool> = Vec::new();
        let mut i: usize = 0;
        while i < spawned.len()
            invariant
                i <= spawned@.len(),
                flags@.len() == i,
                forall|k: int|
                    0 <= k < i ==> flags@[k] == (spawned@[k] == SpawnOutcome::Spawned),
            decreases spawned@.len() - i,
        {
            flags.push(spawned[i] == SpawnOutcome::Spawned);
            i += 1;
        }
        proof {
            assert(flags@ =~= spawned_flags(spawned@));
        }
        RepositoriesDelta {
            added: pick(&plan.spawn, &flags),
            removed: pick(&plan.cancel, cancelled),
            changed: pick(&plan.swap, swapped),
        }
    }

    pub open spec fn is_empty_delta(self) -> bool {
        self.added@.len() == 0 && self.removed@.len() == 0 && self.changed@.len() == 0
    }
}

/// What becomes of a section.
#[derive(Debug, Clone, Copy, PartialEq, Eq, Structural)]
pub enum Fate {
    /// It is the same as before.
    Unchanged,
    /// It takes effect now.
    Applied,
    /// It takes effect after a restart.
    RequiresRestart,
    /// It could not be put into effect.
    Failed,
}

/// The sections, in the order in which they are reported, with the one on reviews
/// under its key.
pub open spec fn section_names(reviewer_key: Seq<char>) -> Seq<Seq<char>> {
    Seq::empty().push("github"@).push(reviewer_key).push("chatops"@).push("cache"@).push(
        "repositories"@,
    ).push("executor"@)
}

/// What becomes of a section that something has to be built for.
pub open spec fn built_fate(section: SectionText, built: Result<(), String>) -> Fate {
    if !section.changed() {
        Fate::Unchanged
    } else if built is Ok {
        Fate::Applied
    } else {
        Fate::Failed
    }
}

/// What becomes of each section.
pub open spec fn fates(
    sections: SectionTexts,
    reviewer: Result<(), String>,
    chatops: Result<(), String>,
    delta: RepositoriesDelta,
) -> Seq<Fate> {
    Seq::empty().push(
        if sections.github.changed() {
            Fate::Applied
        } else {
            Fate::Unchanged
        },
    ).push(built_fate(sections.reviewer, reviewer)).push(
        built_fate(sections.chatops, chatops),
    ).push(
        if sections.cache.changed() {
            Fate::Applied
        } else {
            Fate::Unchanged
        },
    ).push(
        if delta.is_empty_delta() {
            Fate::Unchanged
        } else {
            Fate::Applied
        },
    ).push(
        if sections.executor.changed() {
            Fate::RequiresRestart
        } else {
            Fate::Unchanged
        },
    )
}

/// Which of the fates is this one.
pub open spec fn fate_flags(fates: Seq<Fate>, fate: Fate) -> Seq<bool> {
    Seq::new(fates.len(), |i: int| fates[i] == fate)
}

/// The sections with a certain fate, in order.
pub open spec fn with_fate(reviewer_key: Seq<char>, fates: Seq<Fate>, fate: Fate) -> Seq<Seq<char>> {
    picked(section_names(reviewer_key), fate_flags(fates, fate))
}

/// Why sections could not be put into effect, by section.
pub open spec fn section_errors(
    sections: SectionTexts,
    reviewer: Result<(), String>,
    chatops: Result<(), String>,
) -> JsonV {
    let a = obj();
    let b = match reviewer {
        Err(e) if sections.reviewer.changed() => a.text(sections.reviewer_key@, e@),
        _ => a,
    };
    let c = match chatops {
        Err(e) if sections.chatops.changed() => b.text("chatops"@, e@),
        _ => b,
    };
    c.done()
}

/// The reply to a reload.
pub open spec fn reload_reply(
    sections: SectionTexts,
    reviewer: Result<(), String>,
    chatops: Result<(), String>,
    delta: RepositoriesDelta,
) -> JsonV {
    let f = fates(sections, reviewer, chatops, delta);
    let key = sections.reviewer_key@;
    let base = obj().flag("ok"@, true).texts("applied"@, with_fate(key, f, Fate::Applied)).texts(
        "requires_restart"@,
        with_fate(key, f, Fate::RequiresRestart),
    ).texts("unchanged"@, with_fate(key, f, Fate::Unchanged)).with(
        "repositories_delta"@,
        obj().texts("added"@, texts(delta.added@)).texts("removed"@, texts(delta.removed@)).texts(
            "changed"@,
            texts(delta.changed@),
        ).done(),
    );
    if f[1] == Fate::Failed || f[2] == Fate::Failed {
        base.with("section_errors"@, section_errors(sections, reviewer, chatops)).done()
    } else {
        base.done()
    }
}

fn fate_of_built(section: &SectionText, built: &Result<(), String>) -> (r: Fate)
    ensures
        r == built_fate(*section, *built),
{
    if !section.differs() {
        Fate::Unchanged
    } else if built.is_ok() {
        Fate::Applied
    } else {
        Fate::Failed
    }
}

fn name_list(reviewer_key: &str) -> (r: Vec<String>)
    ensures
        texts(r@) == section_names(reviewer_key@),
{
    let mut v: Vec<String> = Vec::new();
    v.push("github".to_owned());
    v.push(reviewer_key.to_owned());
    v.push("chatops".to_owned());
    v.push("cache".to_owned());
    v.push("repositories".to_owned());
    v.push("executor".to_owned());
    proof {
        assert(texts(v@) =~= section_names(reviewer_key@));
    }
    v
}

fn names_with(reviewer_key: &str, fates: &Vec<Fate>, fate: Fate) -> (r: Vec<String>)
    ensures
        texts(r@) == with_fate(reviewer_key@, fates@, fate),
{
    let mut flags: Vec<bool> = Vec::new();
    let mut i: usize = 0;
    while i < fates.len()
        invariant
            i <= fates@.len(),
            flags@.len() == i,
            forall|k: int| 0 <= k < i ==> flags@[k] == (fates@[k] == fate),
        decreases fates@.len() - i,
    {
        flags.push(fates[i] == fate);
        i += 1;
    }
    proof {
        assert(flags@ =~= fate_flags(fates@, fate));
    }
    let names = name_list(reviewer_key);
    pick(&names, &flags)
}

/// Says what becomes of each section. Two results tell what came of building
/// what a section is for anew, which is done only where the section has changed.
pub fn decide_fates(
    sections: &SectionTexts,
    reviewer: &Result<(), String>,
    chatops: &Result<(), String>,
    delta: &RepositoriesDelta,
) -> (r: Vec<Fate>)
    ensures
        r@ == fates(*sections, *reviewer, *chatops, *delta),
{
    let mut v: Vec<Fate> = Vec::new();
    v.push(
        if sections.github.differs() {
            Fate::Applied
        } else {
            Fate::Unchanged
        },
    );
    v.push(fate_of_built(&sections.reviewer, reviewer));
    v.push(fate_of_built(&sections.chatops, chatops));
    v.push(
        if sections.cache.differs() {
            Fate::Applied
        } else {
            Fate::Unchanged
        },
    );
    v.push(
        if delta.added.len() == 0 && delta.removed.len() == 0 && delta.changed.len() == 0 {
            Fate::Unchanged
        } else {
            Fate::Applied
        },
    );
    v.push(
        if sections.executor.differs() {
            Fate::RequiresRestart
        } else {
            Fate::Unchanged
        },
    );
    v
}

/// Answers a reload.
pub fn handle_reload(
    sections: &SectionTexts,
    reviewer: &Result<(), String>,
    chatops: &Result<(), String>,
    delta: &RepositoriesDelta,
) -> (r: Json)
    ensures
        r@ == reload_reply(*sections, *reviewer, *chatops, *delta),
{
    let fates = decide_fates(sections, reviewer, chatops, delta);
    let changes = Fields::new().texts("added", &delta.added).texts(
        "removed",
        &delta.removed,
    ).texts("changed", &delta.changed).finish();
    let key = sections.reviewer_key.as_str();
    let base = Fields::new().flag("ok", true).texts(
        "applied",
        &names_with(key, &fates, Fate::Applied),
    ).texts("requires_restart", &names_with(key, &fates, Fate::RequiresRestart)).texts(
        "unchanged",
        &names_with(key, &fates, Fate::Unchanged),
    ).with("repositories_delta", changes);
    if fates[1] == Fate::Failed || fates[2] == Fate::Failed {
        let mut errors = Fields::new();
        if let Err(e) = reviewer {
            if sections.reviewer.differs() {
                errors = errors.text(key, e.as_str());
            }
        }
        if let Err(e) = chatops {
            if sections.chatops.differs() {
                errors = errors.text("chatops", e.as_str());
            }
        }
        base.with("section_errors", errors.finish()).finish()
    } else {
        base.finish()
    }
}

proof fn lemma_picked(names: Seq<Seq<char>>, flags: Seq<bool>, i: int)
    requires
        0 <= i < names.len(),
        flags.len() == names.len(),
        names.no_duplicates(),
    ensures
        picked(names, flags).contains(names[i]) <==> flags[i],
        forall|s: Seq<char>| #[trigger] picked(names, flags).contains(s) ==> names.contains(s),
    decreases names.len(),
{
    let init = names.drop_last();
    let n = names.len() - 1;
    let before = picked(init, flags);
    assert(picked(init, flags) == picked(init, flags.drop_last())) by {
        lemma_picked_prefix(init, flags, flags.drop_last());
    }
    assert forall|s: Seq<char>| #[trigger] before.contains(s) implies init.contains(s) by {
        if init.len() > 0 {
            lemma_picked(init, flags.drop_last(), 0);
        }
    }
    assert forall|s: Seq<char>| #[trigger] picked(names, flags).contains(s) implies names.contains(
        s,
    ) by {
        if flags[n] && s == names[n] {
        } else {
            let k = picked(names, flags).index_of(s);
            assert(before[k] == s);
            assert(before.contains(s));
            let m = init.index_of(s);
            assert(names[m] == s);
        }
    }
    if i < n {
        lemma_picked(init, flags.drop_last(), i);
        if flags[i] {
            let k = before.index_of(names[i]);
            assert(picked(names, flags)[k] == names[i]);
        } else if picked(names, flags).contains(names[i]) {
            let k = picked(names, flags).index_of(names[i]);
            if k < before.len() {
                assert(before[k] == names[i]);
                assert(before.contains(init[i]));
            } else {
                assert(names[n] == names[i]);
            }
        }
    } else {
        if flags[n] {
            assert(picked(names, flags)[before.len() as int] == names[n]);
        } else if before.contains(names[n]) {
            assert(init.contains(names[n]));
            let m = init.index_of(names[n]);
            assert(names[m] == names[n]);
        }
    }
}

proof fn lemma_picked_prefix(names: Seq<Seq<char>>, a: Seq<bool>, b: Seq<bool>)
    requires
        names.len() <= a.len(),
        names.len() <= b.len(),
        forall|i: int| 0 <= i < names.len() ==> a[i] == b[i],
    ensures
        picked(names, a) == picked(names, b),
    decreases names.len(),
{
    if names.len() > 0 {
        lemma_picked_prefix(names.drop_last(), a, b);
    }
}

proof fn lemma_picked_once(names: Seq<Seq<char>>, flags: Seq<bool>)
    requires
        flags.len() == names.len(),
        names.no_duplicates(),
    ensures
        picked(names, flags).no_duplicates(),
    decreases names.len(),
{
    if names.len() > 0 {
        let init = names.drop_last();
        let n = names.len() - 1;
        lemma_picked_once(init, flags.drop_last());
        lemma_picked_prefix(init, flags, flags.drop_last());
        let before = picked(init, flags);
        if before.contains(names[n]) {
            lemma_picked(init, flags.drop_last(), 0);
            let m = init.index_of(names[n]);
            assert(names[m] == names[n]);
        }
        assert forall|i: int, j: int|
            0 <= i < j < picked(names, flags).len() implies picked(names, flags)[i] != picked(
            names,
            flags,
        )[j] by {
            assert(before[i] == picked(names, flags)[i]);
            assert(before.contains(before[i]));
        }
    }
}

/// Whether a key is none of those of the other sections.
pub open spec fn is_own_key(key: Seq<char>) -> bool {
    key != "github"@ && key != "chatops"@ && key != "cache"@ && key != "repositories"@ && key
        != "executor"@
}

proof fn lemma_section_names(key: Seq<char>)
    requires
        is_own_key(key),
    ensures
        section_names(key).no_duplicates(),
        section_names(key).len() == 6,
{
    reveal_strlit("github");
    reveal_strlit("chatops");
    reveal_strlit("cache");
    reveal_strlit("repositories");
    reveal_strlit("executor");
    let n = section_names(key);
    assert(n[0].len() == 6 && n[2].len() == 7 && n[3].len() == 5 && n[4].len() == 12 && n[5].len()
        == 8);
    assert(n[1] == key);
}

proof fn lemma_section_errors(
    sections: SectionTexts,
    reviewer: Result<(), String>,
    chatops: Result<(), String>,
    name: Seq<char>,
)
    requires
        is_own_key(sections.reviewer_key@),
    ensures
        section_errors(sections, reviewer, chatops).get(name) is Some <==> (name
            == sections.reviewer_key@ && built_fate(sections.reviewer, reviewer) == Fate::Failed)
            || (name == "chatops"@ && built_fate(sections.chatops, chatops) == Fate::Failed),
{
    reveal_with_fuel(lookup, 3);
    let fields = section_errors(sections, reviewer, chatops)->Obj_0;
    if fields.len() > 0 {
        assert(fields.drop_first().len() == fields.len() - 1);
        assert(fields.drop_last().len() == fields.len() - 1);
    }
}

/// A reload reports every section once: as applied, as unchanged, as in need of
/// a restart, or as failed; and what failed is told by section, under these keys
/// alone.
pub proof fn reload_reports_every_section_once(
    sections: SectionTexts,
    reviewer: Result<(), String>,
    chatops: Result<(), String>,
    delta: RepositoriesDelta,
    i: int,
)
    requires
        is_own_key(sections.reviewer_key@),
        0 <= i < section_names(sections.reviewer_key@).len(),
    ensures
        ({
            let f = fates(sections, reviewer, chatops, delta);
            let key = sections.reviewer_key@;
            let name = section_names(key)[i];
            &&& with_fate(key, f, Fate::Applied).contains(name) <==> f[i] == Fate::Applied
            &&& with_fate(key, f, Fate::Unchanged).contains(name) <==> f[i] == Fate::Unchanged
            &&& with_fate(key, f, Fate::RequiresRestart).contains(name) <==> f[i]
                == Fate::RequiresRestart
            &&& with_fate(key, f, Fate::Failed).contains(name) <==> f[i] == Fate::Failed
            &&& section_errors(sections, reviewer, chatops).get(name) is Some <==> f[i]
                == Fate::Failed
            &&& with_fate(key, f, Fate::Applied).no_duplicates()
            &&& with_fate(key, f, Fate::Unchanged).no_duplicates()
            &&& with_fate(key, f, Fate::RequiresRestart).no_duplicates()
        }),
{
    lemma_section_names(sections.reviewer_key@);
    let f = fates(sections, reviewer, chatops, delta);
    let names = section_names(sections.reviewer_key@);
    lemma_picked(names, fate_flags(f, Fate::Applied), i);
    lemma_picked(names, fate_flags(f, Fate::Unchanged), i);
    lemma_picked(names, fate_flags(f, Fate::RequiresRestart), i);
    lemma_picked(names, fate_flags(f, Fate::Failed), i);
    lemma_picked_once(names, fate_flags(f, Fate::Applied));
    lemma_picked_once(names, fate_flags(f, Fate::Unchanged));
    lemma_picked_once(names, fate_flags(f, Fate::RequiresRestart));
    lemma_section_errors(sections, reviewer, chatops, names[i]);
    assert(names[1] == sections.reviewer_key@ && names[2] == "chatops"@);
}

/// A configuration without changes is reported as such: nothing is applied and
/// nothing needs a restart.
pub proof fn unchanged_reload_applies_nothing(
    sections: SectionTexts,
    reviewer: Result<(), String>,
    chatops: Result<(), String>,
    delta: RepositoriesDelta,
)
    requires
        !sections.github.changed(),
        !sections.reviewer.changed(),
        !sections.chatops.changed(),
        !sections.cache.changed(),
        !sections.executor.changed(),
        delta.is_empty_delta(),
    ensures
        ({
            let f = fates(sections, reviewer, chatops, delta);
            let key = sections.reviewer_key@;
            &&& with_fate(key, f, Fate::Applied).len() == 0
            &&& with_fate(key, f, Fate::RequiresRestart).len() == 0
            &&& with_fate(key, f, Fate::Unchanged) == section_names(key)
        }),
{
    let f = fates(sections, reviewer, chatops, delta);
    let names = section_names(sections.reviewer_key@);
    assert forall|i: int| 0 <= i < f.len() implies f[i] == Fate::Unchanged by {}
    lemma_none_picked(names, fate_flags(f, Fate::Applied));
    lemma_none_picked(names, fate_flags(f, Fate::RequiresRestart));
    lemma_all_picked(names, fate_flags(f, Fate::Unchanged));
}

/// What the next reload compares the sections with: their texts as they were last
/// put into effect, or set down for the next start.
#[derive(Debug, Clone)]
pub struct Snapshot {
    pub github: String,
    pub reviewer: String,
    pub chatops: String,
    pub cache: String,
    pub executor: String,
}

/// The text of a section that stays: the new one, unless it could not be put into
/// effect.
pub open spec fn text_after(section: SectionText, built: Result<(), String>) -> Seq<char> {
    if built_fate(section, built) == Fate::Failed {
        section.current@
    } else {
        section.new@
    }
}

impl Snapshot {
    /// Whether this is what a reload leaves behind.
    pub open spec fn is_left_by(
        self,
        sections: SectionTexts,
        reviewer: Result<(), String>,
        chatops: Result<(), String>,
    ) -> bool {
        &&& self.github@ == sections.github.new@
        &&& self.reviewer@ == text_after(sections.reviewer, reviewer)
        &&& self.chatops@ == text_after(sections.chatops, chatops)
        &&& self.cache@ == sections.cache.new@
        &&& self.executor@ == sections.executor.new@
    }

    /// Whether sections are compared with this.
    pub open spec fn is_compared(self, sections: SectionTexts) -> bool {
        &&& sections.github.current@ == self.github@
        &&& sections.reviewer.current@ == self.reviewer@
        &&& sections.chatops.current@ == self.chatops@
        &&& sections.cache.current@ == self.cache@
        &&& sections.executor.current@ == self.executor@
    }
}

fn text_left(section: &SectionText, built: &Result<(), String>) -> (r: String)
    ensures
        r@ == text_after(*section, *built),
{
    match fate_of_built(section, built) {
        Fate::Failed => section.current.clone(),
        _ => section.new.clone(),
    }
}

/// What the next reload compares with: a section that could not be put into effect
/// stays as it was.
pub fn next_snapshot(
    sections: &SectionTexts,
    reviewer: &Result<(), String>,
    chatops: &Result<(), String>,
) -> (r: Snapshot)
    ensures
        r.is_left_by(*sections, *reviewer, *chatops),
{
    Snapshot {
        github: sections.github.new.clone(),
        reviewer: text_left(&sections.reviewer, reviewer),
        chatops: text_left(&sections.chatops, chatops),
        cache: sections.cache.new.clone(),
        executor: sections.executor.new.clone(),
    }
}

/// Whether two reloads read the same configuration.
pub open spec fn same_configuration(a: SectionTexts, b: SectionTexts) -> bool {
    &&& a.github.new@ == b.github.new@
    &&& a.reviewer.new@ == b.reviewer.new@
    &&& a.chatops.new@ == b.chatops.new@
    &&& a.cache.new@ == b.cache.new@
    &&& a.executor.new@ == b.executor.new@
}

/// A section that failed is tried again: where the next reload reads the same
/// configuration, the section is applied or fails once more, and is not taken for
/// unchanged. A section that did not fail is unchanged then.
pub proof fn a_failed_section_is_tried_again(
    first: SectionTexts,
    reviewer: Result<(), String>,
    chatops: Result<(), String>,
    left: Snapshot,
    second: SectionTexts,
    next_reviewer: Result<(), String>,
    next_chatops: Result<(), String>,
)
    requires
        left.is_left_by(first, reviewer, chatops),
        left.is_compared(second),
        same_configuration(first, second),
    ensures
        built_fate(first.reviewer, reviewer) == Fate::Failed <==> built_fate(
            second.reviewer,
            next_reviewer,
        ) != Fate::Unchanged,
        built_fate(first.chatops, chatops) == Fate::Failed <==> built_fate(
            second.chatops,
            next_chatops,
        ) != Fate::Unchanged,
        !second.github.changed(),
        !second.cache.changed(),
        !second.executor.changed(),
{
}

proof fn lemma_none_picked(names: Seq<Seq<char>>, flags: Seq<bool>)
    requires
        forall|i: int| 0 <= i < flags.len() ==> !flags[i],
    ensures
        picked(names, flags).len() == 0,
    decreases names.len(),
{
    if names.len() > 0 {
        lemma_none_picked(names.drop_last(), flags);
    }
}

proof fn lemma_all_picked(names: Seq<Seq<char>>, flags: Seq<bool>)
    requires
        names.len() <= flags.len(),
        forall|i: int| 0 <= i < names.len() ==> flags[i],
    ensures
        picked(names, flags) == names,
    decreases names.len(),
{
    if names.len() > 0 {
        lemma_all_picked(names.drop_last(), flags);
        assert(names =~= names.drop_last().push(names.last()));
    } else {
        assert(picked(names, flags) =~= names);
    }
}

/// What is picked of a list is what is picked of its first part and then of the rest;
/// of one item it is the item, where its flag is set.
pub proof fn picking_goes_item_by_item(names: Seq<Seq<char>>, flags: Seq<bool>, k: int)
    requires
        names.len() == flags.len(),
        0 <= k <= names.len(),
    ensures
        names.len() == 1 ==> picked(names, flags) == if flags[0] {
            seq![names[0]]
        } else {
            Seq::<Seq<char>>::empty()
        },
        picked(names, flags) == picked(names.take(k), flags.take(k)) + picked(
            names.skip(k),
            flags.skip(k),
        ),
    decreases names.len(),
{
    if names.len() == 1 {
        assert(picked(names.drop_last(), flags) =~= Seq::<Seq<char>>::empty());
        assert(picked(names, flags) =~= if flags[0] {
            seq![names[0]]
        } else {
            Seq::<Seq<char>>::empty()
        });
    }
    let n = names.len() as int;
    if k == n {
        assert(names.take(k) =~= names);
        assert(flags.take(k) =~= flags);
        assert(picked(names.skip(k), flags.skip(k)) =~= Seq::<Seq<char>>::empty());
        assert(picked(names, flags) + Seq::<Seq<char>>::empty() =~= picked(names, flags));
    } else {
        let init = names.drop_last();
        let fewer = flags.drop_last();
        picking_goes_item_by_item(init, fewer, k);
        lemma_picked_prefix(init, flags, fewer);
        assert(init.take(k) =~= names.take(k));
        assert(fewer.take(k) =~= flags.take(k));
        let rest = names.skip(k);
        assert(rest.drop_last() =~= init.skip(k));
        lemma_picked_prefix(rest.drop_last(), flags.skip(k), fewer.skip(k));
        assert(rest[rest.len() - 1] == names[n - 1]);
        assert(flags.skip(k)[rest.len() - 1] == flags[n - 1]);
        assert(picked(names, flags) =~= picked(names.take(k), flags.take(k)) + picked(
            rest,
            flags.skip(k),
        ));
    }
}

/// What came of a plan is told for each task: one that was there to be stopped or
/// changed, or was started, is told as such, in the order of the plan, and no other is.
pub proof fn a_delta_tells_what_was_done(
    plan: RepositoryPlan,
    cancelled: Vec<bool>,
    swapped: Vec<bool>,
    spawned: Vec<SpawnOutcome>,
    r: RepositoriesDelta,
    url: Seq<char>,
)
    requires
        call_ensures(RepositoriesDelta::of, (&plan, &cancelled, &swapped, &spawned), r),
        cancelled@.len() == plan.cancel@.len(),
        swapped@.len() == plan.swap@.len(),
        spawned@.len() == plan.spawn@.len(),
    ensures
        texts(r.removed@).contains(url) <==> exists|i: int|
            0 <= i < plan.cancel@.len() && (#[trigger] plan.cancel@[i])@ == url && cancelled@[i],
        texts(r.changed@).contains(url) <==> exists|i: int|
            0 <= i < plan.swap@.len() && (#[trigger] plan.swap@[i])@ == url && swapped@[i],
        texts(r.added@).contains(url) <==> exists|i: int|
            0 <= i < plan.spawn@.len() && (#[trigger] plan.spawn@[i])@ == url
                && spawned@[i] is Spawned,
{
    lemma_picked_where(texts(plan.cancel@), cancelled@, url);
    lemma_picked_where(texts(plan.swap@), swapped@, url);
    lemma_picked_where(texts(plan.spawn@), spawned_flags(spawned@), url);
    lemma_both_ways(plan.cancel@, cancelled@, url);
    lemma_both_ways(plan.swap@, swapped@, url);
    lemma_both_ways(plan.spawn@, spawned_flags(spawned@), url);
}

proof fn lemma_both_ways(names: Seq<String>, flags: Seq<bool>, url: Seq<char>)
    ensures
        (exists|i: int| 0 <= i < names.len() && #[trigger] texts(names)[i] == url && flags[i])
            <==> (exists|i: int|
            0 <= i < names.len() && (#[trigger] names[i])@ == url && flags[i]),
{
    if exists|i: int| 0 <= i < names.len() && #[trigger] texts(names)[i] == url && flags[i] {
        let i = choose|i: int|
            0 <= i < names.len() && #[trigger] texts(names)[i] == url && flags[i];
        assert(names[i]@ == url && flags[i]);
    }
    if exists|i: int| 0 <= i < names.len() && (#[trigger] names[i])@ == url && flags[i] {
        let i = choose|i: int|
            0 <= i < names.len() && (#[trigger] names[i])@ == url && flags[i];
        assert(texts(names)[i] == url && flags[i]);
    }
}

proof fn lemma_picked_where(names: Seq<Seq<char>>, flags: Seq<bool>, s: Seq<char>)
    requires
        names.len() == flags.len(),
    ensures
        picked(names, flags).contains(s) <==> exists|i: int|
            0 <= i < names.len() && #[trigger] names[i] == s && flags[i],
    decreases names.len(),
{
    let all = picked(names, flags);
    if names.len() == 0 {
        assert(all.len() == 0);
    } else {
        let init = names.drop_last();
        let n = names.len() - 1;
        lemma_picked_where(init, flags.drop_last(), s);
        lemma_picked_prefix(init, flags, flags.drop_last());
        let before = picked(init, flags);
        if all.contains(s) {
            let k = all.index_of(s);
            if k < before.len() {
                assert(before[k] == s);
                assert(before.contains(s));
                let i = choose|i: int|
                    0 <= i < init.len() && #[trigger] init[i] == s && flags.drop_last()[i];
                assert(names[i] == s && flags[i]);
            } else {
                assert(names[n] == s && flags[n]);
            }
        }
        if exists|i: int| 0 <= i < names.len() && #[trigger] names[i] == s && flags[i] {
            let i = choose|i: int| 0 <= i < names.len() && #[trigger] names[i] == s && flags[i];
            if i < n {
                assert(init[i] == s && flags.drop_last()[i]);
                let k = before.index_of(s);
                assert(all[k] == s);
            } else {
                assert(all[before.len() as int] == s);
            }
        }
    }
}

/// The names of the fields tell them apart.
proof fn lemma_field_names()
    ensures
        "ok"@.len() == 2,
        "added"@.len() == 5,
        "applied"@.len() == 7,
        "removed"@.len() == 7,
        "changed"@.len() == 7,
        "applied"@ != "removed"@,
        "applied"@ != "changed"@,
        "removed"@ != "changed"@,
        "unchanged"@.len() == 9,
        "section_errors"@.len() == 14,
        "requires_restart"@.len() == 16,
        "repositories_delta"@.len() == 18,
{
    reveal_strlit("ok");
    reveal_strlit("applied");
    reveal_strlit("requires_restart");
    reveal_strlit("unchanged");
    reveal_strlit("repositories_delta");
    reveal_strlit("section_errors");
    reveal_strlit("added");
    reveal_strlit("removed");
    reveal_strlit("changed");
    assert("applied"@[0] != "removed"@[0]);
    assert("applied"@[0] != "changed"@[0]);
    assert("removed"@[0] != "changed"@[0]);
}

/// What a reload reports of each section, by what was in the file before and is now. A
/// section stands under `applied`, `requires_restart` or `unchanged` in the order of the
/// sections: those on GitHub and on the cache are applied where their texts differ;
/// those that something is built for, where they differ and it was built; that on the
/// executor needs a restart where it differs; and the repositories are applied exactly
/// where at least one was added, removed or changed.
pub proof fn a_reload_tells_each_section(
    sections: SectionTexts,
    reviewer: Result<(), String>,
    chatops: Result<(), String>,
    delta: RepositoriesDelta,
)
    ensures
        ({
            let r = reload_reply(sections, reviewer, chatops, delta);
            let key = sections.reviewer_key@;
            let github = sections.github.current@ != sections.github.new@;
            let review = sections.reviewer.current@ != sections.reviewer.new@;
            let chat = sections.chatops.current@ != sections.chatops.new@;
            let cache = sections.cache.current@ != sections.cache.new@;
            let executor = sections.executor.current@ != sections.executor.new@;
            let repositories = delta.added@.len() + delta.removed@.len() + delta.changed@.len()
                > 0;
            &&& r.bool_at("ok"@) == Some(true)
            &&& r.get("applied"@) == Some(
                str_array(
                    only("github"@, github) + only(key, review && reviewer is Ok) + only(
                        "chatops"@,
                        chat && chatops is Ok,
                    ) + only("cache"@, cache) + only("repositories"@, repositories),
                ),
            )
            &&& r.get("requires_restart"@) == Some(str_array(only("executor"@, executor)))
            &&& r.get("unchanged"@) == Some(
                str_array(
                    only("github"@, !github) + only(key, !review) + only("chatops"@, !chat) + only(
                        "cache"@,
                        !cache,
                    ) + only("repositories"@, !repositories) + only("executor"@, !executor),
                ),
            )
        }),
{
    let f = fates(sections, reviewer, chatops, delta);
    let key = sections.reviewer_key@;
    lemma_lists(sections, reviewer, chatops, delta);
    lemma_six(section_names(key), fate_flags(f, Fate::Applied));
    lemma_six(section_names(key), fate_flags(f, Fate::RequiresRestart));
    lemma_six(section_names(key), fate_flags(f, Fate::Unchanged));
    assert(f.len() == 6);
    let none = Seq::<Seq<char>>::empty();
    let applied = only("github"@, f[0] == Fate::Applied) + only(key, f[1] == Fate::Applied) + only(
        "chatops"@,
        f[2] == Fate::Applied,
    ) + only("cache"@, f[3] == Fate::Applied) + only("repositories"@, f[4] == Fate::Applied);
    assert(applied + none =~= applied);
    assert(none + none =~= none);
    assert(none + only("executor"@, f[5] == Fate::RequiresRestart) =~= only(
        "executor"@,
        f[5] == Fate::RequiresRestart,
    ));
}

/// The lists of sections in a reply are those of their fates.
proof fn lemma_lists(
    sections: SectionTexts,
    reviewer: Result<(), String>,
    chatops: Result<(), String>,
    delta: RepositoriesDelta,
)
    ensures
        ({
            let r = reload_reply(sections, reviewer, chatops, delta);
            let f = fates(sections, reviewer, chatops, delta);
            let key = sections.reviewer_key@;
            &&& r.bool_at("ok"@) == Some(true)
            &&& r.get("applied"@) == Some(str_array(with_fate(key, f, Fate::Applied)))
            &&& r.get("requires_restart"@) == Some(
                str_array(with_fate(key, f, Fate::RequiresRestart)),
            )
            &&& r.get("unchanged"@) == Some(str_array(with_fate(key, f, Fate::Unchanged)))
        }),
{
    broadcast use {lemma_get_with, lemma_get_empty};

    lemma_field_names();
}

proof fn lemma_six(names: Seq<Seq<char>>, flags: Seq<bool>)
    requires
        names.len() == 6,
        flags.len() == 6,
    ensures
        picked(names, flags) == only(names[0], flags[0]) + only(names[1], flags[1]) + only(
            names[2],
            flags[2],
        ) + only(names[3], flags[3]) + only(names[4], flags[4]) + only(names[5], flags[5]),
{
    let none = Seq::<Seq<char>>::empty();
    assert(names.take(6) =~= names);
    assert(picked(names.take(0), flags) =~= none);
    assert forall|i: int| 0 <= i < 6 implies #[trigger] picked(names.take(i + 1), flags) == picked(
        names.take(i),
        flags,
    ) + only(names[i], flags[i]) by {
        assert(names.take(i + 1).drop_last() =~= names.take(i));
        assert(names.take(i + 1)[i] == names[i]);
        assert(picked(names.take(i + 1), flags) =~= picked(names.take(i), flags) + only(
            names[i],
            flags[i],
        ));
    }
    assert(none + only(names[0], flags[0]) =~= only(names[0], flags[0]));
    let a = picked(names.take(0int + 1), flags);
    let b = picked(names.take(1int + 1), flags);
    let c = picked(names.take(2int + 1), flags);
    let d = picked(names.take(3int + 1), flags);
    let e = picked(names.take(4int + 1), flags);
    let f = picked(names.take(5int + 1), flags);
    assert(f == picked(names, flags));
}

/// The one name, where it is there.
pub open spec fn only(name: Seq<char>, there: bool) -> Seq<Seq<char>> {
    if there {
        seq![name]
    } else {
        Seq::empty()
    }
}

/// A reload tells which repositories were added, removed and changed, and why a section
/// that something is built for could not be applied: under its key where it differs and
/// could not be built, and not at all otherwise.
pub proof fn a_reload_tells_changes_and_failures(
    sections: SectionTexts,
    reviewer: Result<(), String>,
    chatops: Result<(), String>,
    delta: RepositoriesDelta,
)
    requires
        is_own_key(sections.reviewer_key@),
    ensures
        ({
            let r = reload_reply(sections, reviewer, chatops, delta);
            let review = sections.reviewer.current@ != sections.reviewer.new@;
            let chat = sections.chatops.current@ != sections.chatops.new@;
            let failed = (review && reviewer is Err) || (chat && chatops is Err);
            &&& r.get("repositories_delta"@) matches Some(d)
            &&& d.get("added"@) == Some(str_array(texts(delta.added@)))
            &&& d.get("removed"@) == Some(str_array(texts(delta.removed@)))
            &&& d.get("changed"@) == Some(str_array(texts(delta.changed@)))
            &&& r.get("section_errors"@) is Some <==> failed
            &&& failed ==> {
                let e = r.get("section_errors"@)->0;
                &&& e.get(sections.reviewer_key@) == match reviewer {
                    Err(why) if review => Some(JsonV::Str(why@)),
                    _ => None,
                }
                &&& e.get("chatops"@) == match chatops {
                    Err(why) if chat => Some(JsonV::Str(why@)),
                    _ => None,
                }
            }
        }),
{
    broadcast use {lemma_get_with, lemma_get_empty};

    lemma_field_names();
}

/// What the next reload compares with: the new text of every section, but for one that
/// something was to be built for and could not be, whose old text stays.
pub proof fn a_reload_leaves_what_took_effect(
    sections: SectionTexts,
    reviewer: Result<(), String>,
    chatops: Result<(), String>,
    left: Snapshot,
)
    requires
        call_ensures(next_snapshot, (&sections, &reviewer, &chatops), left),
    ensures
        left.github@ == sections.github.new@,
        left.cache@ == sections.cache.new@,
        left.executor@ == sections.executor.new@,
        left.reviewer@ == if reviewer is Err {
            sections.reviewer.current@
        } else {
            sections.reviewer.new@
        },
        left.chatops@ == if chatops is Err {
            sections.chatops.current@
        } else {
            sections.chatops.new@
        },
{
}

/// What a plan does with the task of an address, by the tasks that run and the
/// repositories that are configured: where the address is configured no more it is
/// stopped; where it is and has no task it is started; and where its first task runs
/// with another text than the last one configured, and was not told to stop, it is
/// changed. Each list has an address once.
pub proof fn a_plan_serves_the_configuration(
    plan: RepositoryPlan,
    current: Seq<TaskSnapshot>,
    new: Seq<NewRepository>,
    url: Seq<char>,
)
    requires
        is_plan(plan, current, new),
    ensures
        texts(plan.cancel@).contains(url) <==> (exists|i: int|
            0 <= i < current.len() && (#[trigger] current[i]).url@ == url) && (forall|j: int|
            0 <= j < new.len() ==> (#[trigger] new[j]).url@ != url),
        texts(plan.spawn@).contains(url) <==> (forall|i: int|
            0 <= i < current.len() ==> (#[trigger] current[i]).url@ != url) && (exists|j: int|
            0 <= j < new.len() && (#[trigger] new[j]).url@ == url),
        texts(plan.swap@).contains(url) <==> exists|i: int, j: int|
            0 <= i < current.len() && 0 <= j < new.len() && (#[trigger] current[i]).url@ == url && (
            #[trigger] new[j]).url@ == url && (forall|k: int|
                0 <= k < i ==> (#[trigger] current[k]).url@ != url) && (forall|k: int|
                j < k < new.len() ==> (#[trigger] new[k]).url@ != url) && current[i].config@
                != new[j].config@ && !current[i].cancelled,
        texts(plan.cancel@).no_duplicates(),
        texts(plan.spawn@).no_duplicates(),
        texts(plan.swap@).no_duplicates(),
{
    lemma_new_config(new, url);
    assert forall|i: int, j: int|
        0 <= i < current.len() && 0 <= j < new.len() && (#[trigger] current[i]).url@ == url && (
        #[trigger] new[j]).url@ == url && (forall|k: int|
            0 <= k < i ==> (#[trigger] current[k]).url@ != url) && (forall|k: int|
            j < k < new.len() ==> (#[trigger] new[k]).url@ != url) && current[i].config@
            != new[j].config@ && !current[i].cancelled implies needs_swap(current, new, url) by {
        lemma_needs_swap(current, new, url, i);
        lemma_new_config_is(new, url, j);
    }
    if needs_swap(current, new, url) {
        lemma_swap_has_task(current, new, url);
        let w = choose|i: int| 0 <= i < current.len() && (#[trigger] current[i]).url@ == url;
        let i = lemma_first_task(current, url, w);
        lemma_needs_swap(current, new, url, i);
        let j = lemma_last_config(new, url);
        assert(current[i].url@ == url && new[j].url@ == url);
    }
}

proof fn lemma_first_task(current: Seq<TaskSnapshot>, url: Seq<char>, w: int) -> (i: int)
    requires
        0 <= w < current.len(),
        current[w].url@ == url,
    ensures
        0 <= i <= w,
        current[i].url@ == url,
        forall|k: int| 0 <= k < i ==> (#[trigger] current[k]).url@ != url,
    decreases w,
{
    if exists|k: int| 0 <= k < w && (#[trigger] current[k]).url@ == url {
        let k = choose|k: int| 0 <= k < w && (#[trigger] current[k]).url@ == url;
        lemma_first_task(current, url, k)
    } else {
        w
    }
}

proof fn lemma_new_config(new: Seq<NewRepository>, url: Seq<char>)
    ensures
        new_config(new, url) is None <==> forall|j: int|
            0 <= j < new.len() ==> (#[trigger] new[j]).url@ != url,
{
    if new_config(new, url) is Some {
        let j = lemma_last_config(new, url);
        assert(new[j].url@ == url);
    } else {
        assert forall|j: int| 0 <= j < new.len() implies (#[trigger] new[j]).url@ != url by {
            lemma_no_config(new, url, j);
        }
    }
}

proof fn lemma_no_config(new: Seq<NewRepository>, url: Seq<char>, j: int)
    requires
        new_config(new, url) is None,
        0 <= j < new.len(),
    ensures
        new[j].url@ != url,
    decreases new.len(),
{
    if j < new.len() - 1 {
        lemma_no_config(new.drop_last(), url, j);
    }
}

proof fn lemma_last_config(new: Seq<NewRepository>, url: Seq<char>) -> (j: int)
    requires
        new_config(new, url) is Some,
    ensures
        0 <= j < new.len(),
        new[j].url@ == url,
        new_config(new, url) == Some(new[j].config@),
        forall|k: int| j < k < new.len() ==> (#[trigger] new[k]).url@ != url,
    decreases new.len(),
{
    let n = new.len() - 1;
    if new.last().url@ == url {
        n
    } else {
        let init = new.drop_last();
        let j = lemma_last_config(init, url);
        assert forall|k: int| j < k < new.len() implies (#[trigger] new[k]).url@ != url by {
            if k < n {
                assert(init[k].url@ != url);
            }
        }
        j
    }
}

proof fn lemma_new_config_is(new: Seq<NewRepository>, url: Seq<char>, j: int)
    requires
        0 <= j < new.len(),
        new[j].url@ == url,
        forall|k: int| j < k < new.len() ==> (#[trigger] new[k]).url@ != url,
    ensures
        new_config(new, url) == Some(new[j].config@),
    decreases new.len(),
{
    let n = new.len() - 1;
    if j < n {
        assert(new[n].url@ != url);
        let init = new.drop_last();
        assert forall|k: int| j < k < init.len() implies (#[trigger] init[k]).url@ != url by {
            assert(new[k].url@ != url);
        }
        lemma_new_config_is(init, url, j);
    }
}

/// A configuration is taken up only where it could be read, no two repositories collide and every
/// repository has its token; otherwise it is told what stands against it, the first of these first.
pub proof fn a_bad_configuration_is_not_taken_up(
    path: &str,
    loaded: Result<(), String>,
    collisions: Result<(), String>,
    token_routes: Result<(), String>,
    r: Result<(), Json>,
)
    requires
        call_ensures(check_reload, (path, loaded, collisions, token_routes), r),
    ensures
        r is Ok <==> loaded is Ok && collisions is Ok && token_routes is Ok,
        r matches Err(j) ==> j@.bool_at("ok"@) == Some(false) && j@.str_at("error"@) == Some(
            match (loaded, collisions, token_routes) {
                (Err(e), _, _) => "config file "@ + path@ + ": "@ + e@,
                (Ok(_), Err(e), _) => e@,
                (Ok(_), Ok(_), Err(e)) => e@,
                (Ok(_), Ok(_), Ok(_)) => ""@,
            },
        ),
{
    assert forall|why: Seq<char>| (#[trigger] refusal(why)).bool_at("ok"@) == Some(false)
        && refusal(why).str_at("error"@) == Some(why) by {
        a_refusal_says_why(why);
    }
}

/// A reload plans by the tasks that there are, and answers with the fates of its sections; a
/// section is changed where its text is not what it was.
pub proof fn a_reload_goes_by_what_changed(
    current: Vec<TaskSnapshot>,
    new: Vec<NewRepository>,
    plan: RepositoryPlan,
    sections: SectionTexts,
    reviewer: Result<(), String>,
    chatops: Result<(), String>,
    delta: RepositoriesDelta,
    fate: Vec<Fate>,
    reply: Json,
    section: SectionText,
    differs: bool,
)
    requires
        call_ensures(plan_repository_changes, (&current, &new), plan),
        call_ensures(decide_fates, (&sections, &reviewer, &chatops, &delta), fate),
        call_ensures(handle_reload, (&sections, &reviewer, &chatops, &delta), reply),
        call_ensures(SectionText::differs, (&section,), differs),
    ensures
        is_plan(plan, current@, new@),
        fate@ == fates(sections, reviewer, chatops, delta),
        reply@ == reload_reply(sections, reviewer, chatops, delta),
        differs <==> section.current@ != section.new@,
{
}

} // verus!
