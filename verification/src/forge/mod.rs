//! The forges that repositories are hosted on: which one a repository is on, how
//! its address is read, and who may give commands in a comment.
use vstd::prelude::*;
use crate::clock::Timestamp;
use crate::text::{
    a_text_is_parted_at_a_character, cat2, cat3, cat5, chars_of, lower_text, lowered, opt_text,
    same_text, split_at_first, split_once, starts_with, strip_prefix, strip_suffix, text_of, trim,
    trim_text, what_is_taken_off_stood_there, without_prefix, without_suffix,
};
use crate::forge::gitlab::{gitlab_parts, parse_gitlab_url, GitlabForge};

pub mod gitlab;

verus! {

/// What a review comes to.
#[derive(Debug, Clone, Copy, PartialEq, Eq, Structural)]
pub enum ReviewDecision {
    Approve,
    RequestChanges,
    Comment,
}

/// Whether somebody may give commands in a comment. Who is not allowed to is
/// not.
#[derive(Debug, Clone, Copy, PartialEq, Eq, Structural)]
pub enum AuthLevel {
    Authorized,
    Unauthorized,
}

/// Who wrote a comment.
#[derive(Debug)]
pub struct IssueCommentUser {
    pub login: String,
}

/// A comment on a pull request.
#[derive(Debug)]
pub struct IssueComment {
    pub id: u64,
    pub body: String,
    pub user: Option<IssueCommentUser>,
    pub created_at: Timestamp,
    /// What the author is to the repository, as GitHub tells it.
    pub author_association: Option<String>,
}

impl IssueComment {
    pub open spec fn login(self) -> Seq<char> {
        match self.user {
            Some(u) => u.login@,
            None => ""@,
        }
    }

    /// The name of the author; empty where it is not known.
    pub fn user_login(&self) -> (r: &str)
        ensures
            r@ == self.login(),
    {
        match &self.user {
            Some(u) => u.login.as_str(),
            None => "",
        }
    }
}

/// Who may give commands in a comment.
#[derive(Debug)]
pub struct CommandAuthorizationConfig {
    pub allowed_users: Vec<String>,
    pub allowed_associations: Vec<String>,
}

impl CommandAuthorizationConfig {
    /// Whether a user is named. Small and capital letters are the same here, and
    /// an author without a name is not named.
    pub open spec fn names_user(self, login: Seq<char>) -> bool {
        login.len() > 0 && exists|i: int|
            0 <= i < self.allowed_users@.len() && lowered((#[trigger] self.allowed_users@[i])@)
                == lowered(login)
    }

    /// Whether an association is named, letter for letter.
    pub open spec fn names_association(self, association: Option<String>) -> bool {
        association matches Some(a) && exists|i: int|
            0 <= i < self.allowed_associations@.len() && (
            #[trigger] self.allowed_associations@[i])@ == a@
    }

    /// Whether a user is named.
    pub fn allows_user(&self, login: &str) -> (r: bool)
        ensures
            r == self.names_user(login@),
    {
        if login.is_empty() {
            return false;
        }
        let small = lower_text(login);
        let mut i: usize = 0;
        while i < self.allowed_users.len()
            invariant
                i <= self.allowed_users@.len(),
                login@.len() > 0,
                small@ == lowered(login@),
                forall|k: int|
                    0 <= k < i ==> lowered((#[trigger] self.allowed_users@[k])@) != lowered(login@),
            decreases self.allowed_users@.len() - i,
        {
            if same_text(lower_text(self.allowed_users[i].as_str()).as_str(), small.as_str()) {
                return true;
            }
            i += 1;
        }
        false
    }

    /// Whether an association is named.
    pub fn allows_association(&self, association: &Option<String>) -> (r: bool)
        ensures
            r == self.names_association(*association),
    {
        let a = match association {
            Some(a) => a,
            None => return false,
        };
        let mut i: usize = 0;
        while i < self.allowed_associations.len()
            invariant
                i <= self.allowed_associations@.len(),
                *association == Some(*a),
                forall|k: int| 0 <= k < i ==> (#[trigger] self.allowed_associations@[k])@ != a@,
            decreases self.allowed_associations@.len() - i,
        {
            if same_text(self.allowed_associations[i].as_str(), a.as_str()) {
                return true;
            }
            i += 1;
        }
        false
    }
}

/// The forge GitHub.
#[derive(Debug)]
pub struct GithubForge {
    pub api_base: String,
}

/// Where GitHub answers requests.
pub const DEFAULT_API_BASE: &'static str = "https://api.github.com";

impl GithubForge {
    /// GitHub itself.
    pub fn new() -> (r: GithubForge)
        ensures
            r.api_base@ == DEFAULT_API_BASE@,
    {
        GithubForge { api_base: DEFAULT_API_BASE.to_owned() }
    }

    /// A GitHub that answers elsewhere.
    pub fn with_api_base(api_base: &str) -> (r: GithubForge)
        ensures
            r.api_base@ == api_base@,
    {
        GithubForge { api_base: api_base.to_owned() }
    }

    /// The owner and the name of a repository. Any host will do, since a GitHub that
    /// answers elsewhere has its own: whether the host is GitHub is decided where the
    /// forge is chosen.
    pub fn parse_repo(&self, url: &str) -> (r: Result<(String, String), String>)
        ensures
            match github_parts(url@) {
                Some((owner, repo)) => r matches Ok(p) && p.0@ == owner && p.1@ == repo,
                None => r matches Err(e) && e@ == unrecognized_text(url@),
            },
    {
        parse_github_url(url)
    }

    /// Whether the author of a comment may give commands: by name, or by what
    /// they are to the repository.
    pub fn authorize(&self, comment: &IssueComment, auth: &CommandAuthorizationConfig) -> (r:
        AuthLevel)
        ensures
            r == if auth.names_user(comment.login()) || auth.names_association(
                comment.author_association,
            ) {
                AuthLevel::Authorized
            } else {
                AuthLevel::Unauthorized
            },
    {
        if auth.allows_user(comment.user_login()) || auth.allows_association(
            &comment.author_association,
        ) {
            AuthLevel::Authorized
        } else {
            AuthLevel::Unauthorized
        }
    }

    /// Where a branch can be looked at.
    pub fn branch_url(&self, owner: &str, repo: &str, branch: &str) -> (r: String)
        ensures
            r@ == "https://github.com/"@ + owner@ + "/"@ + repo@ + "/tree/"@ + branch@,
    {
        let head = cat5("https://github.com/", owner, "/", repo, "/tree/");
        cat2(head.as_str(), branch)
    }
}

/// An address without white space around it and without `.git` at its end.
pub open spec fn bare(url: Seq<char>) -> Seq<char> {
    match without_suffix(trim(url), ".git"@) {
        Some(s) => s,
        None => trim(url),
    }
}

/// An address without white space around it and without `.git` at its end.
pub fn bare_url(url: &str) -> (r: String)
    ensures
        r@ == bare(url@),
{
    let t = trim_text(url);
    match strip_suffix(t.as_str(), ".git") {
        Some(s) => s,
        None => t,
    }
}

/// What stands before the first slash or colon.
pub open spec fn up_to_separator(s: Seq<char>) -> Seq<char>
    decreases s.len(),
{
    if s.len() == 0 || s[0] == '/' || s[0] == ':' {
        Seq::empty()
    } else {
        Seq::empty().push(s[0]) + up_to_separator(s.drop_first())
    }
}

fn host_part(s: &str) -> (r: String)
    ensures
        r@ == up_to_separator(s@),
{
    let v = chars_of(s);
    let mut i: usize = 0;
    proof {
        assert(v@.subrange(0, v@.len() as int) =~= v@);
        assert(v@.subrange(0, 0) + up_to_separator(v@) =~= up_to_separator(v@));
    }
    while i < v.len() && v[i] != '/' && v[i] != ':'
        invariant
            i <= v@.len(),
            up_to_separator(v@) == v@.subrange(0, i as int) + up_to_separator(
                v@.subrange(i as int, v@.len() as int),
            ),
        decreases v@.len() - i,
    {
        proof {
            let rest = v@.subrange(i as int, v@.len() as int);
            assert(rest.drop_first() =~= v@.subrange(i + 1, v@.len() as int));
            assert(v@.subrange(0, i as int) + (Seq::empty().push(rest[0]) + up_to_separator(
                rest.drop_first(),
            )) =~= v@.subrange(0, i + 1) + up_to_separator(rest.drop_first()));
        }
        i += 1;
    }
    proof {
        assert(v@.subrange(0, i as int) + Seq::<char>::empty() =~= v@.subrange(0, i as int));
    }
    text_of(&v, 0, i)
}

/// The host behind a scheme, where the address has that scheme and a host.
pub open spec fn host_behind(address: Seq<char>, scheme: Seq<char>) -> Option<Seq<char>> {
    match without_prefix(address, scheme) {
        Some(rest) => if up_to_separator(rest).len() > 0 {
            Some(up_to_separator(rest))
        } else {
            None
        },
        None => None,
    }
}

fn find_host_behind(address: &str, scheme: &str) -> (r: Option<String>)
    ensures
        opt_text(r) == host_behind(address@, scheme@),
{
    match strip_prefix(address, scheme) {
        Some(rest) => {
            let host = host_part(rest.as_str());
            if host.as_str().is_empty() {
                None
            } else {
                Some(host)
            }
        },
        None => None,
    }
}

/// The host of a repository, by its address: `git@host:..`, or a host behind a
/// scheme. The user in `ssh://git@` is no part of a host.
pub open spec fn host_of(url: Seq<char>) -> Option<Seq<char>> {
    let address = bare(url);
    match without_prefix(address, "git@"@) {
        Some(rest) => match split_once(rest, ':') {
            Some((host, _)) if host.len() > 0 => Some(host),
            _ => None,
        },
        None => match host_behind(address, "https://"@) {
            Some(host) => Some(host),
            None => match host_behind(address, "http://"@) {
                Some(host) => Some(host),
                None => if "ssh://git@"@.is_prefix_of(address) {
                    host_behind(address, "ssh://git@"@)
                } else {
                    host_behind(address, "ssh://"@)
                },
            },
        },
    }
}

pub open spec fn unrecognized_text(url: Seq<char>) -> Seq<char> {
    "unrecognized repository URL `"@ + url
        + "`: expected an SSH (`git@host:owner/repo.git`) or HTTPS (`https://host/owner/repo(.git)?`) form"@
}

fn unrecognized_url_error(url: &str) -> (r: String)
    ensures
        r@ == unrecognized_text(url@),
{
    cat3(
        "unrecognized repository URL `",
        url,
        "`: expected an SSH (`git@host:owner/repo.git`) or HTTPS (`https://host/owner/repo(.git)?`) form",
    )
}

/// The host of a repository, by its address.
pub fn forge_host(url: &str) -> (r: Result<String, String>)
    ensures
        match host_of(url@) {
            Some(host) => r matches Ok(h) && h@ == host,
            None => r matches Err(e) && e@ == unrecognized_text(url@),
        },
{
    let address = bare_url(url);
    let address = address.as_str();
    if let Some(rest) = strip_prefix(address, "git@") {
        return match split_at_first(rest.as_str(), ':') {
            Some((host, _)) => {
                if host.as_str().is_empty() {
                    Err(unrecognized_url_error(url))
                } else {
                    Ok(host)
                }
            },
            None => Err(unrecognized_url_error(url)),
        };
    }
    if let Some(host) = find_host_behind(address, "https://") {
        return Ok(host);
    }
    if let Some(host) = find_host_behind(address, "http://") {
        return Ok(host);
    }
    let scheme = if starts_with(address, "ssh://git@") {
        "ssh://git@"
    } else {
        "ssh://"
    };
    match find_host_behind(address, scheme) {
        Some(host) => Ok(host),
        None => Err(unrecognized_url_error(url)),
    }
}

/// The owner and the name in an address on GitHub, where it has just these two
/// parts.
pub open spec fn github_parts(url: Seq<char>) -> Option<(Seq<char>, Seq<char>)> {
    match gitlab_parts(url) {
        Some((_, owner, repo)) => if split_once(owner, '/') is None {
            Some((owner, repo))
        } else {
            None
        },
        None => None,
    }
}

fn parse_github_url(url: &str) -> (r: Result<(String, String), String>)
    ensures
        match github_parts(url@) {
            Some((owner, repo)) => r matches Ok(p) && p.0@ == owner && p.1@ == repo,
            None => r matches Err(e) && e@ == unrecognized_text(url@),
        },
{
    match parse_gitlab_url(url) {
        Ok((_, owner, repo)) => match split_at_first(owner.as_str(), '/') {
            Some(_) => Err(unrecognized_url_error(url)),
            None => Ok((owner, repo)),
        },
        Err(_) => Err(unrecognized_url_error(url)),
    }
}

/// Whether a host is GitHub itself.
pub open spec fn is_github(host: Seq<char>) -> bool {
    lowered(host) == lowered("github.com"@)
}

fn is_github_host(host: &str) -> (r: bool)
    ensures
        r == is_github(host@),
{
    same_text(lower_text(host).as_str(), lower_text("github.com").as_str())
}

/// The kind of a forge.
#[derive(Debug, Clone, Copy, PartialEq, Eq, Structural)]
pub enum ForgeKind {
    Github,
    Gitlab,
}

/// What the configuration of a repository says of its forge.
#[derive(Debug)]
pub struct ForgeConfig {
    pub kind: ForgeKind,
    pub host: Option<String>,
    pub api_base: Option<String>,
}

/// The forge of a repository.
#[derive(Debug)]
pub enum Provider {
    Github(GithubForge),
    Gitlab(GitlabForge),
}

pub open spec fn no_provider_text(host: Seq<char>, url: Seq<char>) -> Seq<char> {
    "no forge provider is registered for host `"@ + host + "` (from `"@ + url
        + "`): declare a per-repo `forge:` block to select a provider (e.g. `forge: { kind: gitlab, host: "@
        + host + " }`)"@
}

fn no_provider_error(host: &str, url: &str) -> (r: String)
    ensures
        r@ == no_provider_text(host@, url@),
{
    let head = cat5(
        "no forge provider is registered for host `",
        host,
        "` (from `",
        url,
        "`): declare a per-repo `forge:` block to select a provider (e.g. `forge: { kind: gitlab, host: ",
    );
    cat3(head.as_str(), host, " }`)")
}

/// Where a forge answers requests: what is configured, or GitHub itself.
pub open spec fn github_base(cfg: ForgeConfig) -> Seq<char> {
    match cfg.api_base {
        Some(base) => base@,
        None => DEFAULT_API_BASE@,
    }
}

/// The forge of a repository. What is configured decides; otherwise the host is
/// GitHub, or nobody knows it. No other host is guessed from its name.
pub fn resolve_forge(forge: &Option<ForgeConfig>, url: &str) -> (r: Result<Provider, String>)
    ensures
        match forge {
            Some(cfg) => match cfg.kind {
                ForgeKind::Gitlab => r matches Ok(Provider::Gitlab(f)) && f.is_configured(
                    opt_text(cfg.host),
                    opt_text(cfg.api_base),
                    url@,
                ),
                ForgeKind::Github => r matches Ok(Provider::Github(f)) && f.api_base@
                    == github_base(*cfg),
            },
            None => match host_of(url@) {
                Some(host) => if is_github(host) {
                    r matches Ok(Provider::Github(f)) && f.api_base@ == DEFAULT_API_BASE@
                } else {
                    r matches Err(e) && e@ == no_provider_text(host, url@)
                },
                None => r matches Err(e) && e@ == unrecognized_text(url@),
            },
        },
{
    if let Some(cfg) = forge {
        return Ok(
            match cfg.kind {
                ForgeKind::Gitlab => Provider::Gitlab(
                    GitlabForge::from_config(&cfg.host, &cfg.api_base, url),
                ),
                ForgeKind::Github => match &cfg.api_base {
                    Some(base) => Provider::Github(GithubForge::with_api_base(base.as_str())),
                    None => Provider::Github(GithubForge::new()),
                },
            },
        );
    }
    let host = match forge_host(url) {
        Ok(h) => h,
        Err(e) => return Err(e),
    };
    if is_github_host(host.as_str()) {
        Ok(Provider::Github(GithubForge::new()))
    } else {
        Err(no_provider_error(host.as_str(), url))
    }
}

/// Why a repository cannot be placed on a forge.
pub open spec fn placing_error(forge: Option<ForgeConfig>, url: Seq<char>) -> Option<Seq<char>> {
    match forge {
        Some(_) => None,
        None => match host_of(url) {
            Some(host) => if is_github(host) {
                None
            } else {
                Some(no_provider_text(host, url))
            },
            None => Some(unrecognized_text(url)),
        },
    }
}

/// Whether the forge of a repository is GitLab.
pub open spec fn on_gitlab(forge: Option<ForgeConfig>) -> bool {
    forge matches Some(cfg) && cfg.kind == ForgeKind::Gitlab
}

/// The owner and the name of a repository, as its forge reads its address.
pub fn parse_repo_with(forge: &Option<ForgeConfig>, url: &str) -> (r: Result<
    (String, String),
    String,
>)
    ensures
        match placing_error(*forge, url@) {
            Some(e) => r matches Err(why) && why@ == e,
            None => if on_gitlab(*forge) {
                match gitlab_parts(url@) {
                    Some((_, owner, repo)) => r matches Ok(p) && p.0@ == owner && p.1@ == repo,
                    None => r matches Err(why) && why@ == gitlab::unrecognized_gitlab_text(url@),
                }
            } else {
                match github_parts(url@) {
                    Some((owner, repo)) => r matches Ok(p) && p.0@ == owner && p.1@ == repo,
                    None => r matches Err(why) && why@ == unrecognized_text(url@),
                }
            },
        },
{
    match resolve_forge(forge, url) {
        Ok(Provider::Github(f)) => f.parse_repo(url),
        Ok(Provider::Gitlab(f)) => f.parse_repo(url),
        Err(e) => Err(e),
    }
}

/// Who is not listed may give no commands: where no name is listed or the author
/// has none, and no association is listed or the author has none, the author is
/// turned away.
pub proof fn nobody_is_allowed_by_default(auth: CommandAuthorizationConfig, comment: IssueComment)
    requires
        auth.allowed_users@.len() == 0 || comment.login().len() == 0,
        auth.allowed_associations@.len() == 0 || comment.author_association is None,
    ensures
        !auth.names_user(comment.login()),
        !auth.names_association(comment.author_association),
{
}

/// On GitHub somebody may give commands exactly where their name is listed, in small or capital
/// letters, or what they are to the repository is listed, letter for letter.
pub proof fn who_is_listed_may_give_commands(
    forge: GithubForge,
    comment: IssueComment,
    auth: CommandAuthorizationConfig,
    r: AuthLevel,
)
    requires
        call_ensures(GithubForge::authorize, (&forge, &comment, &auth), r),
    ensures
        r is Authorized <==> ((comment.user matches Some(u) && u.login@.len() > 0 && exists|i: int|
            0 <= i < auth.allowed_users@.len() && lowered((#[trigger] auth.allowed_users@[i])@)
                == lowered(u.login@)) || (comment.author_association matches Some(a) && exists|
            i: int,
        |
            0 <= i < auth.allowed_associations@.len() && (
            #[trigger] auth.allowed_associations@[i])@ == a@)),
{
    reveal_strlit("");
}

/// An address is read without the white space around it and without one `.git` at its end.
pub proof fn an_address_is_bared(url: Seq<char>)
    ensures
        ".git"@.is_suffix_of(trim(url)) ==> trim(url) == bare(url) + ".git"@,
        !".git"@.is_suffix_of(trim(url)) ==> bare(url) == trim(url),
{
    what_is_taken_off_stood_there(trim(url), ".git"@, bare(url));
}

/// A host ends at the first slash or colon.
pub proof fn a_host_ends_at_a_separator(host: Seq<char>, rest: Seq<char>)
    requires
        !host.contains('/'),
        !host.contains(':'),
        rest.len() > 0 ==> rest[0] == '/' || rest[0] == ':',
    ensures
        up_to_separator(host + rest) == host,
    decreases host.len(),
{
    if host.len() == 0 {
        assert(host + rest =~= rest);
        assert(up_to_separator(rest) =~= host);
    } else {
        let tail = host.drop_first();
        assert((host + rest).drop_first() =~= tail + rest);
        assert((host + rest)[0] == host[0]);
        assert(host.contains(host[0]));
        assert(!tail.contains('/') && !tail.contains(':')) by {
            assert(forall|i: int| 0 <= i < tail.len() ==> tail[i] == host[i + 1]);
        }
        a_host_ends_at_a_separator(tail, rest);
        assert(Seq::empty().push(host[0]) + tail =~= host);
    }
}

/// The beginnings of addresses tell them apart.
proof fn lemma_schemes(rest: Seq<char>)
    ensures
        !"git@"@.is_prefix_of("https://"@ + rest),
        !"git@"@.is_prefix_of("http://"@ + rest),
        !"git@"@.is_prefix_of("ssh://git@"@ + rest),
        !"git@"@.is_prefix_of("ssh://"@ + rest),
        !"https://"@.is_prefix_of("http://"@ + rest),
        !"https://"@.is_prefix_of("ssh://git@"@ + rest),
        !"https://"@.is_prefix_of("ssh://"@ + rest),
        !"http://"@.is_prefix_of("https://"@ + rest),
        !"http://"@.is_prefix_of("ssh://git@"@ + rest),
        !"http://"@.is_prefix_of("ssh://"@ + rest),
        "ssh://git@"@.is_prefix_of("ssh://"@ + rest) <==> "git@"@.is_prefix_of(rest),
        "ssh://"@ + "git@"@ == "ssh://git@"@,
{
    reveal_strlit("git@");
    reveal_strlit("https://");
    reveal_strlit("http://");
    reveal_strlit("ssh://git@");
    reveal_strlit("ssh://");
    let a = "https://"@ + rest;
    let b = "http://"@ + rest;
    let c = "ssh://git@"@ + rest;
    let d = "ssh://"@ + rest;
    assert(a[0] == 'h' && b[0] == 'h' && c[0] == 's' && d[0] == 's');
    assert(a[4] == 's' && b[4] == ':');
    assert("ssh://"@ + "git@"@ =~= "ssh://git@"@);
    if "git@"@.is_prefix_of(rest) {
        assert("ssh://git@"@.is_prefix_of(d)) by {
            assert(d.subrange(0, 10) =~= "ssh://git@"@) by {
                assert(rest.subrange(0, 4) == "git@"@);
                assert(forall|i: int| 0 <= i < 4 ==> rest[i] == rest.subrange(0, 4)[i]);
            }
        }
    }
    if "ssh://git@"@.is_prefix_of(d) {
        assert("git@"@.is_prefix_of(rest)) by {
            assert(rest.subrange(0, 4) =~= "git@"@) by {
                assert(d.subrange(0, 10) == "ssh://git@"@);
                assert(forall|i: int| 0 <= i < 10 ==> d[i] == d.subrange(0, 10)[i]);
                assert(rest.len() >= 4);
                assert(rest[0] == d[6] && rest[1] == d[7] && rest[2] == d[8] && rest[3] == d[9]);
            }
        }
    }
    if "git@"@.is_prefix_of(a) {
        assert(a.subrange(0, 4)[0] == a[0]);
    }
    if "git@"@.is_prefix_of(b) {
        assert(b.subrange(0, 4)[0] == b[0]);
    }
    if "git@"@.is_prefix_of(c) {
        assert(c.subrange(0, 4)[0] == c[0]);
    }
    if "git@"@.is_prefix_of(d) {
        assert(d.subrange(0, 4)[0] == d[0]);
    }
    if "https://"@.is_prefix_of(b) {
        assert(b.subrange(0, 8)[4] == b[4]);
    }
    if "https://"@.is_prefix_of(c) {
        assert(c.subrange(0, 8)[0] == c[0]);
    }
    if "https://"@.is_prefix_of(d) {
        assert(d.subrange(0, 8)[0] == d[0]);
    }
    if "http://"@.is_prefix_of(a) {
        assert(a.subrange(0, 7)[4] == a[4]);
    }
    if "http://"@.is_prefix_of(c) {
        assert(c.subrange(0, 7)[0] == c[0]);
    }
    if "http://"@.is_prefix_of(d) {
        assert(d.subrange(0, 7)[0] == d[0]);
    }
}

proof fn lemma_host_behind(scheme: Seq<char>, host: Seq<char>, rest: Seq<char>)
    requires
        host.len() > 0,
        !host.contains('/'),
        !host.contains(':'),
        rest.len() > 0 ==> rest[0] == '/' || rest[0] == ':',
    ensures
        host_behind(scheme + (host + rest), scheme) == Some(host),
{
    a_host_ends_at_a_separator(host, rest);
    what_is_taken_off_stood_there(scheme + (host + rest), scheme, host + rest);
}

/// The host of an address: what stands between `git@` and the first colon, or behind one of the
/// schemes up to the first slash or colon, and without the user in `ssh://git@`.
pub proof fn the_host_stands_behind_the_scheme(url: Seq<char>, host: Seq<char>, rest: Seq<char>)
    requires
        host.len() > 0,
        !host.contains('/'),
        !host.contains(':'),
        rest.len() > 0 ==> rest[0] == '/' || rest[0] == ':',
        ({
            ||| bare(url) == "git@"@ + (host + rest) && rest.len() > 0 && rest[0] == ':'
            ||| bare(url) == "https://"@ + (host + rest)
            ||| bare(url) == "http://"@ + (host + rest)
            ||| bare(url) == "ssh://git@"@ + (host + rest)
            ||| bare(url) == "ssh://"@ + (host + rest) && !"git@"@.is_prefix_of(host + rest)
        }),
    ensures
        host_of(url) == Some(host),
{
    let a = bare(url);
    let tail = host + rest;
    lemma_schemes(tail);
    if a == "git@"@ + tail && rest.len() > 0 && rest[0] == ':' {
        what_is_taken_off_stood_there(a, "git@"@, tail);
        a_text_is_parted_at_a_character(tail, ':', host, rest.drop_first());
        assert(tail =~= host.push(':') + rest.drop_first());
    } else if a == "https://"@ + tail {
        lemma_host_behind("https://"@, host, rest);
    } else if a == "http://"@ + tail {
        lemma_host_behind("http://"@, host, rest);
    } else if a == "ssh://git@"@ + tail {
        lemma_host_behind("ssh://git@"@, host, rest);
        assert("ssh://git@"@.is_prefix_of(a)) by {
            assert(a.subrange(0, "ssh://git@"@.len() as int) =~= "ssh://git@"@);
        }
    } else {
        lemma_host_behind("ssh://"@, host, rest);
    }
}

/// No address has a host but one that begins with `git@` or one of the schemes.
pub proof fn other_addresses_have_no_host(url: Seq<char>)
    requires
        !"git@"@.is_prefix_of(bare(url)),
        !"https://"@.is_prefix_of(bare(url)),
        !"http://"@.is_prefix_of(bare(url)),
        !"ssh://"@.is_prefix_of(bare(url)),
    ensures
        host_of(url) is None,
        gitlab_parts(url) is None,
        github_parts(url) is None,
{
    let a = bare(url);
    if "ssh://git@"@.is_prefix_of(a) {
        reveal_strlit("ssh://git@");
        reveal_strlit("ssh://");
        assert(a.subrange(0, 10) == "ssh://git@"@);
        assert(forall|i: int| 0 <= i < 10 ==> a[i] == a.subrange(0, 10)[i]);
        assert(a.subrange(0, 6) =~= "ssh://"@);
    }
}

/// Where the path of an address begins.
proof fn lemma_path_behind_host(a: Seq<char>, host: Seq<char>, path: Seq<char>)
    requires
        !host.contains('/'),
        !host.contains(':'),
        ({
            ||| a == "git@"@ + (host.push(':') + path)
            ||| a == "https://"@ + (host.push('/') + path)
            ||| a == "http://"@ + (host.push('/') + path)
            ||| a == "ssh://git@"@ + (host.push('/') + path)
            ||| a == "ssh://"@ + (host.push('/') + path) && !"git@"@.is_prefix_of(
                host.push('/') + path,
            )
        }),
    ensures
        gitlab::host_and_path(a) == Some((host, path)),
{
    let s = host.push('/') + path;
    let c = host.push(':') + path;
    if a == "git@"@ + c {
        a_text_is_parted_at_a_character(c, ':', host, path);
        what_is_taken_off_stood_there(a, "git@"@, c);
    } else {
        lemma_schemes(s);
        a_text_is_parted_at_a_character(s, '/', host, path);
        what_is_taken_off_stood_there(a, "https://"@, s);
        what_is_taken_off_stood_there(a, "http://"@, s);
        what_is_taken_off_stood_there(a, "ssh://git@"@, s);
        what_is_taken_off_stood_there(a, "ssh://"@, s);
    }
}

/// The parts of an address: the host, the namespace, which may have parts itself, and the name,
/// which is the last part.
pub proof fn an_address_has_its_parts(
    url: Seq<char>,
    host: Seq<char>,
    namespace: Seq<char>,
    project: Seq<char>,
)
    requires
        host.len() > 0,
        !host.contains('/'),
        !host.contains(':'),
        namespace.len() > 0,
        namespace[0] != '/',
        project.len() > 0,
        !project.contains('/'),
        ({
            let path = namespace.push('/') + project;
            ||| bare(url) == "git@"@ + (host.push(':') + path)
            ||| bare(url) == "https://"@ + (host.push('/') + path)
            ||| bare(url) == "http://"@ + (host.push('/') + path)
            ||| bare(url) == "ssh://git@"@ + (host.push('/') + path)
            ||| bare(url) == "ssh://"@ + (host.push('/') + path) && !"git@"@.is_prefix_of(
                host.push('/') + path,
            )
        }),
    ensures
        gitlab_parts(url) == Some((host, namespace, project)),
        github_parts(url) == if namespace.contains('/') {
            None::<(Seq<char>, Seq<char>)>
        } else {
            Some((namespace, project))
        },
{
    let path = namespace.push('/') + project;
    lemma_path_behind_host(bare(url), host, path);
    a_text_is_parted_at_a_character(path, '/', namespace, project);
    assert(path[0] == namespace[0]);
    assert(path.last() == project.last());
    assert(project.contains(project.last()));
    assert(crate::text::strip_front(path, '/') == path);
    assert(crate::text::strip_back(path, '/') == path);
    a_text_is_parted_at_a_character(namespace, '/', namespace, project);
}

/// An address with a part that is empty has no parts, and what is read of one that has them is
/// not empty.
pub proof fn no_part_is_empty(url: Seq<char>)
    ensures
        gitlab_parts(url) matches Some((h, n, p)) ==> h.len() > 0 && n.len() > 0 && p.len() > 0
            && !p.contains('/'),
        github_parts(url) matches Some((o, p)) ==> o.len() > 0 && !o.contains('/') && p.len() > 0
            && !p.contains('/'),
{
    if let Some((h, n, p)) = gitlab_parts(url) {
        let (_, path) = gitlab::host_and_path(bare(url))->0;
        let t = crate::text::strip_back(crate::text::strip_front(path, '/'), '/');
        a_text_is_parted_at_a_character(t, '/', n, p);
        a_text_is_parted_at_a_character(n, '/', n, p);
    }
}

/// The forge of a repository: what is configured decides; without that it is GitHub, where the
/// host is `github.com` in small or capital letters, and otherwise there is none.
pub proof fn the_configuration_decides_the_forge(
    forge: Option<ForgeConfig>,
    url: &str,
    r: Result<Provider, String>,
)
    requires
        call_ensures(resolve_forge, (&forge, url), r),
    ensures
        forge matches Some(cfg) ==> {
            &&& cfg.kind is Github ==> (r matches Ok(Provider::Github(f)) && f.api_base@
                == match cfg.api_base {
                Some(base) => base@,
                None => "https://api.github.com"@,
            })
            &&& cfg.kind is Gitlab ==> r matches Ok(Provider::Gitlab(_))
        },
        forge is None ==> {
            &&& (r matches Ok(p) ==> p matches Provider::Github(f) && f.api_base@
                == "https://api.github.com"@)
            &&& r is Ok <==> (host_of(url@) matches Some(h) && lowered(h) == lowered(
                "github.com"@,
            ))
            &&& (host_of(url@) matches Some(h) ==> lowered(h) != lowered("github.com"@) ==> (
            r matches Err(e) && e@ == "no forge provider is registered for host `"@ + h
                + "` (from `"@ + url@
                + "`): declare a per-repo `forge:` block to select a provider (e.g. `forge: { kind: gitlab, host: "@
                + h + " }`)"@))
            &&& (host_of(url@) is None ==> (r matches Err(e) && e@ == unrecognized_text(url@)))
        },
{
}

/// The owner and the name of a repository are read as its forge reads them: on GitHub the owner
/// is one part, and on GitLab it may have more.
pub proof fn the_forge_reads_the_address(
    forge: Option<ForgeConfig>,
    url: &str,
    r: Result<(String, String), String>,
    provider: Result<Provider, String>,
)
    requires
        call_ensures(parse_repo_with, (&forge, url), r),
        call_ensures(resolve_forge, (&forge, url), provider),
    ensures
        provider matches Err(e) ==> (r matches Err(why) && why@ == e@),
        provider matches Ok(Provider::Github(_)) ==> {
            &&& (r matches Ok(p) ==> github_parts(url@) == Some((p.0@, p.1@)))
            &&& (r matches Err(why) ==> github_parts(url@) is None && why@ == unrecognized_text(
                url@,
            ))
        },
        provider matches Ok(Provider::Gitlab(_)) ==> {
            &&& (r matches Ok(p) ==> (gitlab_parts(url@) matches Some(q) && q.1 == p.0@ && q.2
                == p.1@))
            &&& (r matches Err(why) ==> gitlab_parts(url@) is None && why@
                == gitlab::unrecognized_gitlab_text(url@))
        },
{
}

/// A branch can be looked at under its repository on GitHub.
pub proof fn a_branch_has_an_address(
    forge: GithubForge,
    owner: &str,
    repo: &str,
    branch: &str,
    r: String,
)
    requires
        call_ensures(GithubForge::branch_url, (&forge, owner, repo, branch), r),
    ensures
        r@ == "https://github.com/"@ + owner@ + "/"@ + repo@ + "/tree/"@ + branch@,
{
}

/// An address that nobody knows is shown, with the forms that are known.
pub proof fn an_unknown_address_is_shown(url: Seq<char>)
    ensures
        unrecognized_text(url) == "unrecognized repository URL `"@ + url
            + "`: expected an SSH (`git@host:owner/repo.git`) or HTTPS (`https://host/owner/repo(.git)?`) form"@,
        gitlab::unrecognized_gitlab_text(url) == "unrecognized gitlab URL `"@ + url
            + "`: expected an SSH (`git@host:namespace/project.git`) or HTTPS (`https://host/namespace/project(.git)?`) form with a `namespace/project` path"@,
{
}

/// The functions on addresses and on who is listed do what is said of them.
pub proof fn a_repository_is_read_of_its_address(
    forge: GithubForge,
    url: &str,
    r: Result<(String, String), String>,
    host: Result<String, String>,
    short: String,
    auth: CommandAuthorizationConfig,
    login: &str,
    named: bool,
    association: Option<String>,
    associated: bool,
    base: &str,
    itself: GithubForge,
    elsewhere: GithubForge,
)
    requires
        call_ensures(GithubForge::parse_repo, (&forge, url), r),
        call_ensures(forge_host, (url,), host),
        call_ensures(bare_url, (url,), short),
        call_ensures(CommandAuthorizationConfig::allows_user, (&auth, login), named),
        call_ensures(
            CommandAuthorizationConfig::allows_association,
            (&auth, &association),
            associated,
        ),
        call_ensures(GithubForge::new, (), itself),
        call_ensures(GithubForge::with_api_base, (base,), elsewhere),
    ensures
        r matches Ok(p) ==> github_parts(url@) == Some((p.0@, p.1@)),
        r matches Err(e) ==> github_parts(url@) is None && e@ == unrecognized_text(url@),
        host matches Ok(h) ==> host_of(url@) == Some(h@),
        host matches Err(e) ==> host_of(url@) is None && e@ == unrecognized_text(url@),
        short@ == bare(url@),
        named <==> login@.len() > 0 && exists|i: int|
            0 <= i < auth.allowed_users@.len() && lowered((#[trigger] auth.allowed_users@[i])@)
                == lowered(login@),
        associated <==> (association matches Some(a) && exists|i: int|
            0 <= i < auth.allowed_associations@.len() && (
            #[trigger] auth.allowed_associations@[i])@ == a@),
        itself.api_base@ == "https://api.github.com"@,
        elsewhere.api_base@ == base@,
{
}

} // verus!
