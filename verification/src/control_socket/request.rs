//! Reading the fields of a request.
use vstd::prelude::*;
use crate::json::{a_refusal_says_why, refusal, refuse, Json, JsonV};
use crate::text::{cat3, cat4};

verus! {

/// What a request is told that lacks a required string.
pub open spec fn missing_field(key: Seq<char>) -> Seq<char> {
    "missing `"@ + key + "` field"@
}

/// The text of a required string field, or the message that names the field.
pub fn require_str(parsed: &Json, key: &str) -> (r: Result<String, String>)
    ensures
        match r {
            Ok(s) => parsed@.str_at(key@) == Some(s@),
            Err(e) => parsed@.str_at(key@) is None && e@ == missing_field(key@),
        },
{
    match parsed.get_str(key) {
        Some(s) => Ok(s),
        None => Err(cat3("missing `", key, "` field")),
    }
}

/// The text of a required string field, or the refusal that names the field.
pub fn require(parsed: &Json, key: &str) -> (r: Result<String, Json>)
    ensures
        match r {
            Ok(s) => parsed@.str_at(key@) == Some(s@),
            Err(e) => parsed@.str_at(key@) is None && e@ == refusal(missing_field(key@)),
        },
{
    match require_str(parsed, key) {
        Ok(s) => Ok(s),
        Err(e) => Err(refuse(e.as_str())),
    }
}

/// The text of an optional string field, or `default` where there is none.
pub open spec fn str_or(v: JsonV, key: Seq<char>, default: Seq<char>) -> Seq<char> {
    match v.str_at(key) {
        Some(s) => s,
        None => default,
    }
}

/// The text of an optional string field, or `default` where there is none.
pub fn optional_str(parsed: &Json, key: &str, default: &str) -> (r: String)
    ensures
        r@ == str_or(parsed@, key@, default@),
{
    match parsed.get_str(key) {
        Some(s) => s,
        None => default.to_owned(),
    }
}

/// The truth value of an optional field, or `default` where there is none.
pub open spec fn flag_or(v: JsonV, key: Seq<char>, default: bool) -> bool {
    match v.bool_at(key) {
        Some(b) => b,
        None => default,
    }
}

/// The truth value of an optional field, or `default` where there is none.
pub fn optional_flag(parsed: &Json, key: &str, default: bool) -> (r: bool)
    ensures
        r == flag_or(parsed@, key@, default),
{
    match parsed.get_bool(key) {
        Some(b) => b,
        None => default,
    }
}

/// A repository under management: what the requests read of its configuration.
#[derive(Debug, Clone)]
pub struct RepositoryConfig {
    pub url: String,
    /// Path of the local clone.
    pub workspace: String,
    pub base_branch: String,
    pub agent_branch: String,
    /// Branch of the upstream that pull requests go to, where one is set.
    pub upstream_branch: Option<String>,
    pub poll_interval_sec: u64,
    /// Whether a pushed branch also gets a pull request.
    pub auto_submit_pr: bool,
}

/// The remote that the agent branch is pushed to.
pub open spec fn push_remote(fork: bool) -> Seq<char> {
    if fork {
        "fork"@
    } else {
        "origin"@
    }
}

/// The remote that the agent branch is pushed to.
pub fn push_remote_name(fork: bool) -> (r: String)
    ensures
        r@ == push_remote(fork),
{
    if fork {
        "fork".to_owned()
    } else {
        "origin".to_owned()
    }
}

/// The fork that the agent branch goes to, where one is configured.
#[derive(Debug)]
pub enum Fork {
    /// No fork: the agent branch goes to the repository itself.
    Unset,
    /// The address of the fork.
    Url(String),
    /// The address could not be derived, and why.
    Invalid(String),
}

impl Fork {
    /// The address of the fork, where there is one.
    pub open spec fn url(self) -> Option<String> {
        match self {
            Fork::Url(u) => Some(u),
            _ => None,
        }
    }
}

/// Repositories answer to an address; a lookup that finds none says why.
pub type Found = Result<RepositoryConfig, String>;

/// What an operation on a workspace is told that is not there yet.
pub open spec fn no_workspace_text(workspace: Seq<char>, purpose: Seq<char>) -> Seq<char> {
    "workspace "@ + workspace + " does not exist yet; the daemon must clone the repo before "@
        + purpose
}

/// The repository, if it is known and its workspace is there; otherwise the
/// refusal.
pub fn require_workspace(found: Found, is_dir: bool, purpose: &str) -> (r: Result<
    RepositoryConfig,
    Json,
>)
    ensures
        match found {
            Err(e) => r matches Err(j) && j@ == refusal(e@),
            Ok(repo) => if is_dir {
                r == Ok::<RepositoryConfig, Json>(repo)
            } else {
                r matches Err(j) && j@ == refusal(
                    no_workspace_text(repo.workspace@, purpose@),
                )
            },
        },
{
    match found {
        Err(e) => Err(refuse(e.as_str())),
        Ok(repo) => {
            if is_dir {
                Ok(repo)
            } else {
                let why = cat4(
                    "workspace ",
                    repo.workspace.as_str(),
                    " does not exist yet; the daemon must clone the repo before ",
                    purpose,
                );
                Err(refuse(why.as_str()))
            }
        },
    }
}

/// A required text is taken from its field; where the field is not there or is no text, the
/// request is refused, and told which field it lacks.
pub proof fn a_missing_field_is_named(
    parsed: Json,
    key: &str,
    a: Result<String, String>,
    b: Result<String, Json>,
)
    requires
        call_ensures(require_str, (&parsed, key), a),
        call_ensures(require, (&parsed, key), b),
    ensures
        a matches Ok(s) ==> parsed@.str_at(key@) == Some(s@),
        b matches Ok(s) ==> parsed@.str_at(key@) == Some(s@),
        a is Err <==> parsed@.str_at(key@) is None,
        b is Err <==> parsed@.str_at(key@) is None,
        a matches Err(e) ==> e@ == "missing `"@ + key@ + "` field"@,
        b matches Err(e) ==> e@.bool_at("ok"@) == Some(false) && e@.str_at("error"@) == Some(
            "missing `"@ + key@ + "` field"@,
        ),
{
    a_refusal_says_why("missing `"@ + key@ + "` field"@);
}

/// An optional field is taken where it is given, and what stands in for it otherwise.
pub proof fn an_optional_field_has_a_default(
    parsed: Json,
    key: &str,
    text: &str,
    s: String,
    truth: bool,
    b: bool,
)
    requires
        call_ensures(optional_str, (&parsed, key, text), s),
        call_ensures(optional_flag, (&parsed, key, truth), b),
    ensures
        parsed@.str_at(key@) is Some ==> parsed@.str_at(key@) == Some(s@),
        parsed@.str_at(key@) is None ==> s@ == text@,
        parsed@.bool_at(key@) is Some ==> parsed@.bool_at(key@) == Some(b),
        parsed@.bool_at(key@) is None ==> b == truth,
{
}

/// An operation goes on with the repository exactly where it is known and its workspace is there;
/// otherwise it is told which of these is wanting.
pub proof fn no_workspace_is_no_repository(
    found: Found,
    is_dir: bool,
    purpose: &str,
    r: Result<RepositoryConfig, Json>,
)
    requires
        call_ensures(require_workspace, (found, is_dir, purpose), r),
    ensures
        r matches Ok(repo) ==> is_dir && found == Ok::<RepositoryConfig, String>(repo),
        r is Ok <==> found is Ok && is_dir,
        r matches Err(j) ==> j@.bool_at("ok"@) == Some(false) && j@.str_at("error"@) == Some(
            match found {
                Err(e) => e@,
                Ok(repo) => "workspace "@ + repo.workspace@
                    + " does not exist yet; the daemon must clone the repo before "@ + purpose@,
            },
        ),
{
    assert forall|why: Seq<char>| (#[trigger] refusal(why)).bool_at("ok"@) == Some(false)
        && refusal(why).str_at("error"@) == Some(why) by {
        a_refusal_says_why(why);
    }
}

/// The agent branch goes to the fork where there is one, and to the repository itself otherwise.
pub proof fn a_fork_is_pushed_to_by_its_name(fork: bool, r: String, f: Fork)
    requires
        call_ensures(push_remote_name, (fork,), r),
    ensures
        fork ==> r@ == "fork"@,
        !fork ==> r@ == "origin"@,
        f matches Fork::Url(u) ==> f.url() == Some(u),
        f !is Url ==> f.url() is None,
{
}

} // verus!
