//! The forge GitLab: how its projects are named, what is asked of it, and what
//! its answers mean.
use vstd::prelude::*;
use vstd::utf8::encode_utf8;
use crate::clock::Timestamp;
use crate::forge::{
    bare, bare_url, forge_host, host_of, AuthLevel, CommandAuthorizationConfig, IssueComment,
    IssueCommentUser, ReviewDecision,
};
use crate::json::{lemma_get_empty, lemma_get_with, obj, Fields, Json, JsonV};
use crate::text::{
    cat2, cat3, cat4, cat5, chars_of, dec, lower_text, lowered, number_text, opt_text,
    rsplit_once, same_text, split_at_first, split_at_last, split_once, starts_with, strip_back,
    strip_front, strip_prefix, strip_suffix, text_of, trim_char, trim_start, trim_start_text,
    without_prefix, without_suffix,
};

verus! {

/// The host of GitLab itself.
pub const DEFAULT_HOST: &'static str = "gitlab.com";

/// The access level of a developer: from here on, somebody may give commands.
pub const ACCESS_DEVELOPER: i64 = 30;

/// The forge GitLab: where it answers requests, and where it is looked at.
#[derive(Debug)]
pub struct GitlabForge {
    pub api_base: String,
    pub web_base: String,
}

/// The address behind which requests are answered, without the part that says
/// so.
pub open spec fn web_of(api_base: Seq<char>) -> Seq<char> {
    match without_suffix(api_base, "/api/v4"@) {
        Some(s) => s,
        None => api_base,
    }
}

impl GitlabForge {
    pub open spec fn at_host(self, host: Seq<char>) -> bool {
        self.api_base@ == "https://"@ + host + "/api/v4"@ && self.web_base@ == "https://"@ + host
    }

    pub open spec fn at_base(self, api_base: Seq<char>) -> bool {
        self.api_base@ == api_base && self.web_base@ == web_of(api_base)
    }

    /// Whether this is the forge that a configuration names: by where it answers,
    /// else by its host, else by the host of the repository, else GitLab itself.
    pub open spec fn is_configured(
        self,
        host: Option<Seq<char>>,
        api_base: Option<Seq<char>>,
        url: Seq<char>,
    ) -> bool {
        match (api_base, host, host_of(url)) {
            (Some(base), _, _) => self.at_base(base),
            (None, Some(h), _) => self.at_host(h),
            (None, None, Some(h)) => self.at_host(h),
            (None, None, None) => self.at_host(DEFAULT_HOST@),
        }
    }

    /// The forge on a host.
    pub fn new(host: &str) -> (r: GitlabForge)
        ensures
            r.at_host(host@),
    {
        GitlabForge {
            api_base: cat3("https://", host, "/api/v4"),
            web_base: cat2("https://", host),
        }
    }

    /// The forge that answers at an address.
    pub fn with_api_base(api_base: &str) -> (r: GitlabForge)
        ensures
            r.at_base(api_base@),
    {
        let web_base = match strip_suffix(api_base, "/api/v4") {
            Some(s) => s,
            None => api_base.to_owned(),
        };
        GitlabForge { api_base: api_base.to_owned(), web_base }
    }

    /// The forge that a configuration names.
    pub fn from_config(host: &Option<String>, api_base: &Option<String>, url: &str) -> (r:
        GitlabForge)
        ensures
            r.is_configured(opt_text(*host), opt_text(*api_base), url@),
    {
        if let Some(base) = api_base {
            return GitlabForge::with_api_base(base.as_str());
        }
        if let Some(h) = host {
            return GitlabForge::new(h.as_str());
        }
        match forge_host(url) {
            Ok(h) => GitlabForge::new(h.as_str()),
            Err(_) => GitlabForge::new(DEFAULT_HOST),
        }
    }

    /// Whether an access level is enough to give commands.
    pub fn authorize_access_level(level: i64) -> (r: AuthLevel)
        ensures
            r == if level >= ACCESS_DEVELOPER {
                AuthLevel::Authorized
            } else {
                AuthLevel::Unauthorized
            },
    {
        if level >= ACCESS_DEVELOPER {
            AuthLevel::Authorized
        } else {
            AuthLevel::Unauthorized
        }
    }

    /// Whether the author of a comment may give commands by name. What they are
    /// to the project is asked of GitLab, not of the comment.
    pub fn authorize(&self, comment: &IssueComment, auth: &CommandAuthorizationConfig) -> (r:
        AuthLevel)
        ensures
            r == if auth.names_user(comment.login()) {
                AuthLevel::Authorized
            } else {
                AuthLevel::Unauthorized
            },
    {
        if auth.allows_user(comment.user_login()) {
            AuthLevel::Authorized
        } else {
            AuthLevel::Unauthorized
        }
    }

    /// The namespace and the name of a project.
    pub fn parse_repo(&self, url: &str) -> (r: Result<(String, String), String>)
        ensures
            match gitlab_parts(url@) {
                Some((_, owner, repo)) => r matches Ok(p) && p.0@ == owner && p.1@ == repo,
                None => r matches Err(e) && e@ == unrecognized_gitlab_text(url@),
            },
    {
        match parse_gitlab_url(url) {
            Ok((_, owner, repo)) => Ok((owner, repo)),
            Err(e) => Err(e),
        }
    }

    /// Where a merge request for a branch can be opened.
    pub fn branch_url(&self, owner: &str, repo: &str, branch: &str) -> (r: String)
        ensures
            r@ == self.web_base@ + "/"@ + owner@ + "/"@ + repo@
                + "/-/merge_requests/new?merge_request%5Bsource_branch%5D="@ + branch@,
    {
        let head = cat5(self.web_base.as_str(), "/", owner, "/", repo);
        cat3(
            head.as_str(),
            "/-/merge_requests/new?merge_request%5Bsource_branch%5D=",
            branch,
        )
    }
}

/// The host and the path of an address behind a scheme.
pub open spec fn behind(address: Seq<char>, scheme: Seq<char>) -> Option<
    Option<(Seq<char>, Seq<char>)>,
> {
    match without_prefix(address, scheme) {
        Some(rest) => Some(split_once(rest, '/')),
        None => None,
    }
}

/// The host and the path of an address: the first scheme that it has decides.
pub open spec fn host_and_path(address: Seq<char>) -> Option<(Seq<char>, Seq<char>)> {
    match without_prefix(address, "git@"@) {
        Some(rest) => split_once(rest, ':'),
        None => match behind(address, "https://"@) {
            Some(p) => p,
            None => match behind(address, "http://"@) {
                Some(p) => p,
                None => match behind(address, "ssh://git@"@) {
                    Some(p) => p,
                    None => match behind(address, "ssh://"@) {
                        Some(p) => p,
                        None => None,
                    },
                },
            },
        },
    }
}

/// The host, the namespace and the name of a project, by its address. The
/// namespace may have parts; the name is the last one.
pub open spec fn gitlab_parts(url: Seq<char>) -> Option<(Seq<char>, Seq<char>, Seq<char>)> {
    match host_and_path(bare(url)) {
        Some((host, path)) => match rsplit_once(strip_back(strip_front(path, '/'), '/'), '/') {
            Some((namespace, project)) => if host.len() > 0 && namespace.len() > 0 && project.len()
                > 0 {
                Some((host, namespace, project))
            } else {
                None
            },
            None => None,
        },
        None => None,
    }
}

fn find_host_and_path(address: &str) -> (r: Option<(String, String)>)
    ensures
        crate::text::opt_pair(r) == host_and_path(address@),
{
    if let Some(rest) = strip_prefix(address, "git@") {
        return split_at_first(rest.as_str(), ':');
    }
    if let Some(rest) = strip_prefix(address, "https://") {
        return split_at_first(rest.as_str(), '/');
    }
    if let Some(rest) = strip_prefix(address, "http://") {
        return split_at_first(rest.as_str(), '/');
    }
    if let Some(rest) = strip_prefix(address, "ssh://git@") {
        return split_at_first(rest.as_str(), '/');
    }
    match strip_prefix(address, "ssh://") {
        Some(rest) => split_at_first(rest.as_str(), '/'),
        None => None,
    }
}

pub open spec fn unrecognized_gitlab_text(url: Seq<char>) -> Seq<char> {
    "unrecognized gitlab URL `"@ + url
        + "`: expected an SSH (`git@host:namespace/project.git`) or HTTPS (`https://host/namespace/project(.git)?`) form with a `namespace/project` path"@
}

fn unrecognized_gitlab_url(url: &str) -> (r: String)
    ensures
        r@ == unrecognized_gitlab_text(url@),
{
    cat3(
        "unrecognized gitlab URL `",
        url,
        "`: expected an SSH (`git@host:namespace/project.git`) or HTTPS (`https://host/namespace/project(.git)?`) form with a `namespace/project` path",
    )
}

/// The host, the namespace and the name of a project, by its address.
pub fn parse_gitlab_url(url: &str) -> (r: Result<(String, String, String), String>)
    ensures
        match gitlab_parts(url@) {
            Some((host, namespace, project)) => r matches Ok(p) && p.0@ == host && p.1@ == namespace
                && p.2@ == project,
            None => r matches Err(e) && e@ == unrecognized_gitlab_text(url@),
        },
{
    let address = bare_url(url);
    let (host, path) = match find_host_and_path(address.as_str()) {
        Some(p) => p,
        None => return Err(unrecognized_gitlab_url(url)),
    };
    let path = trim_char(path.as_str(), '/');
    let (namespace, project) = match split_at_last(path.as_str(), '/') {
        Some(p) => p,
        None => return Err(unrecognized_gitlab_url(url)),
    };
    if host.as_str().is_empty() || namespace.as_str().is_empty() || project.as_str().is_empty() {
        return Err(unrecognized_gitlab_url(url));
    }
    Ok((host, namespace, project))
}

/// Whether a byte stands for itself in an address.
pub open spec fn stands_for_itself(b: u8) -> bool {
    (65 <= b <= 90) || (97 <= b <= 122) || (48 <= b <= 57) || b == 45 || b == 95 || b == 46
}

pub open spec fn big_hex_digit(n: u8) -> char {
    if n < 10 {
        (48 + n) as u8 as char
    } else {
        (55 + n) as u8 as char
    }
}

fn show_big_digit(n: u8) -> (r: char)
    requires
        n < 16,
    ensures
        r == big_hex_digit(n),
{
    if n < 10 {
        let b: u8 = 48 + n;
        b as char
    } else {
        let b: u8 = 55 + n;
        b as char
    }
}

/// A byte in an address: itself, or a percent sign and two digits.
pub open spec fn encoded_byte(b: u8) -> Seq<char> {
    if stands_for_itself(b) {
        Seq::empty().push(b as char)
    } else {
        Seq::empty().push('%').push(big_hex_digit(b / 16)).push(big_hex_digit(b % 16))
    }
}

/// Bytes in an address.
pub open spec fn encoded(bytes: Seq<u8>) -> Seq<char>
    decreases bytes.len(),
{
    if bytes.len() == 0 {
        Seq::empty()
    } else {
        encoded(bytes.drop_last()) + encoded_byte(bytes.last())
    }
}

fn encode_path(path: &str) -> (r: String)
    ensures
        r@ == encoded(encode_utf8(path@)),
{
    let bytes = path.as_bytes();
    let mut out = String::new();
    let mut i: usize = 0;
    while i < bytes.len()
        invariant
            i <= bytes@.len(),
            out@ == encoded(bytes@.take(i as int)),
        decreases bytes@.len() - i,
    {
        let b: u8 = bytes[i];
        let ghost before = out@;
        proof {
            assert(bytes@.take(i + 1).drop_last() =~= bytes@.take(i as int));
        }
        if (65 <= b && b <= 90) || (97 <= b && b <= 122) || (48 <= b && b <= 57) || b == 45 || b
            == 95 || b == 46 {
            out.push(b as char);
        } else {
            out.push('%');
            out.push(show_big_digit(b / 16));
            out.push(show_big_digit(b % 16));
        }
        proof {
            assert(out@ =~= before + encoded_byte(b));
        }
        i += 1;
    }
    proof {
        assert(bytes@.take(bytes@.len() as int) =~= bytes@);
    }
    out
}

/// The name of a project in requests.
pub open spec fn id_of(owner: Seq<char>, repo: Seq<char>) -> Seq<char> {
    encoded(encode_utf8(owner + "/"@ + repo))
}

/// The name of a project in requests: its path, in which all but letters, digits
/// and a few signs are escaped.
pub fn project_id(owner: &str, repo: &str) -> (r: String)
    ensures
        r@ == id_of(owner@, repo@),
{
    encode_path(cat3(owner, "/", repo).as_str())
}

/// A branch without the owner that it may be qualified by.
pub open spec fn bare_branch(head: Seq<char>) -> Seq<char> {
    match split_once(head, ':') {
        Some((_, branch)) => branch,
        None => head,
    }
}

fn strip_head_owner(head: &str) -> (r: String)
    ensures
        r@ == bare_branch(head@),
{
    match split_at_first(head, ':') {
        Some((_, branch)) => branch,
        None => head.to_owned(),
    }
}

/// What follows the mark of a draft that a title begins with: `Draft:`, or `WIP:`
/// as it was before, in small or capital letters.
pub open spec fn after_mark(title: Seq<char>) -> Option<Seq<char>> {
    let t = trim_start(title);
    let low = lowered(t);
    if "draft:"@.is_prefix_of(low) {
        Some(t.subrange("draft:"@.len() as int, t.len() as int))
    } else if "wip:"@.is_prefix_of(low) {
        Some(t.subrange("wip:"@.len() as int, t.len() as int))
    } else {
        None
    }
}

fn text_after_mark(title: &str) -> (r: Option<String>)
    ensures
        opt_text(r) == after_mark(title@),
{
    let t = trim_start_text(title);
    let low = lower_text(t.as_str());
    let v = chars_of(t.as_str());
    proof {
        reveal_strlit("draft:");
        reveal_strlit("wip:");
    }
    if starts_with(low.as_str(), "draft:") {
        Some(text_of(&v, 6, v.len()))
    } else if starts_with(low.as_str(), "wip:") {
        Some(text_of(&v, 4, v.len()))
    } else {
        None
    }
}

/// A title that is marked as a draft.
pub open spec fn drafted(title: Seq<char>) -> Seq<char> {
    if after_mark(title) is Some {
        title
    } else {
        "Draft: "@ + title
    }
}

/// A title without the mark of a draft.
pub open spec fn undrafted(title: Seq<char>) -> Seq<char> {
    match after_mark(title) {
        Some(rest) => trim_start(rest),
        None => title,
    }
}

/// Marks a title as a draft, unless it is marked already.
pub fn ensure_draft_prefix(title: &str) -> (r: String)
    ensures
        r@ == drafted(title@),
{
    match text_after_mark(title) {
        Some(_) => title.to_owned(),
        None => cat2("Draft: ", title),
    }
}

/// Takes the mark of a draft away.
pub fn strip_draft_prefix(title: &str) -> (r: String)
    ensures
        r@ == undrafted(title@),
{
    match text_after_mark(title) {
        Some(rest) => trim_start_text(rest.as_str()),
        None => title.to_owned(),
    }
}

/// A review as it is shown in a merge request.
#[derive(Debug)]
pub struct ReviewText {
    pub markdown: String,
    /// The line that tells who reviewed.
    pub attribution_line: Option<String>,
}

pub open spec fn description_text(body: Seq<char>, review: Option<ReviewText>) -> Seq<char> {
    match review {
        None => body,
        Some(report) => body + "\n\n## Code Review\n\n"@ + report.markdown@
            + match report.attribution_line {
            Some(line) => "\n\n"@ + line@,
            None => ""@,
        },
    }
}

/// The description of a merge request, with the review where there is one.
pub fn compose_description(body: &str, review: &Option<ReviewText>) -> (r: String)
    ensures
        r@ == description_text(body@, *review),
{
    match review {
        None => body.to_owned(),
        Some(report) => {
            let suffix = match &report.attribution_line {
                Some(line) => cat2("\n\n", line.as_str()),
                None => "".to_owned(),
            };
            cat4(body, "\n\n## Code Review\n\n", report.markdown.as_str(), suffix.as_str())
        },
    }
}

/// How a request is made.
#[derive(Debug, Clone, Copy, PartialEq, Eq, Structural)]
pub enum Method {
    Get,
    Post,
    Put,
}

/// A request to GitLab.
#[derive(Debug)]
pub struct Request {
    pub method: Method,
    pub url: String,
    pub query: Vec<(String, String)>,
    pub body: Option<Json>,
}

/// The parameters of a request.
pub open spec fn query_views(q: Seq<(String, String)>) -> Seq<(Seq<char>, Seq<char>)> {
    Seq::new(q.len(), |i: int| (q[i].0@, q[i].1@))
}

/// Whether a request is the one that is described.
pub open spec fn is_request(
    r: Request,
    method: Method,
    url: Seq<char>,
    query: Seq<(Seq<char>, Seq<char>)>,
    body: Option<JsonV>,
) -> bool {
    &&& r.method == method
    &&& r.url@ == url
    &&& query_views(r.query@) == query
    &&& match (r.body, body) {
        (Some(b), Some(v)) => b@ == v,
        (None, None) => true,
        _ => false,
    }
}

pub open spec fn no_query() -> Seq<(Seq<char>, Seq<char>)> {
    Seq::empty()
}

fn plain(method: Method, url: String, body: Option<Json>) -> (r: Request)
    ensures
        r.method == method,
        r.url == url,
        r.body == body,
        query_views(r.query@) == no_query(),
{
    let query: Vec<(String, String)> = Vec::new();
    proof {
        assert(query_views(query@) =~= no_query());
    }
    Request { method, url, query, body }
}

fn with_param(r: Request, name: &str, value: &str) -> (s: Request)
    ensures
        s.method == r.method,
        s.url == r.url,
        s.body == r.body,
        query_views(s.query@) == query_views(r.query@).push((name@, value@)),
{
    let mut query = r.query;
    let ghost before = query@;
    query.push((name.to_owned(), value.to_owned()));
    proof {
        assert(query_views(query@) =~= query_views(before).push((name@, value@)));
    }
    Request { method: r.method, url: r.url, query, body: r.body }
}

impl GitlabForge {
    /// The address of the merge requests of a project.
    pub open spec fn mrs_url(self, owner: Seq<char>, repo: Seq<char>) -> Seq<char> {
        self.api_base@ + "/projects/"@ + id_of(owner, repo) + "/merge_requests"@
    }

    /// The address of one merge request.
    pub open spec fn mr_url(self, owner: Seq<char>, repo: Seq<char>, number: u64) -> Seq<char> {
        self.api_base@ + "/projects/"@ + id_of(owner, repo) + "/merge_requests/"@ + dec(
            number as nat,
        )
    }

    fn all_mrs(&self, owner: &str, repo: &str) -> (r: String)
        ensures
            r@ == self.mrs_url(owner@, repo@),
    {
        cat4(
            self.api_base.as_str(),
            "/projects/",
            project_id(owner, repo).as_str(),
            "/merge_requests",
        )
    }

    fn one_mr(&self, owner: &str, repo: &str, number: u64) -> (r: String)
        ensures
            r@ == self.mr_url(owner@, repo@, number),
    {
        cat5(
            self.api_base.as_str(),
            "/projects/",
            project_id(owner, repo).as_str(),
            "/merge_requests/",
            number_text(number).as_str(),
        )
    }

    /// The request that opens a merge request, as a draft where one is wanted.
    pub fn open_pr(
        &self,
        owner: &str,
        repo: &str,
        head: &str,
        base: &str,
        title: &str,
        body: &str,
        review: &Option<ReviewText>,
        draft: bool,
    ) -> (r: Request)
        ensures
            is_request(
                r,
                Method::Post,
                self.mrs_url(owner@, repo@),
                no_query(),
                Some(
                    obj().text("source_branch"@, bare_branch(head@)).text(
                        "target_branch"@,
                        base@,
                    ).text(
                        "title"@,
                        if draft {
                            drafted(title@)
                        } else {
                            title@
                        },
                    ).text("description"@, description_text(body@, *review)).done(),
                ),
            ),
    {
        let title = if draft {
            ensure_draft_prefix(title)
        } else {
            title.to_owned()
        };
        let payload = Fields::new().text("source_branch", strip_head_owner(head).as_str()).text(
            "target_branch",
            base,
        ).text("title", title.as_str()).text(
            "description",
            compose_description(body, review).as_str(),
        ).finish();
        plain(Method::Post, self.all_mrs(owner, repo), Some(payload))
    }

    /// The request for the merge requests that are open between two branches.
    pub fn list_open_prs(&self, owner: &str, repo: &str, head: &str, base: &str) -> (r: Request)
        ensures
            is_request(
                r,
                Method::Get,
                self.mrs_url(owner@, repo@),
                no_query().push(("state"@, "opened"@)).push(
                    ("source_branch"@, bare_branch(head@)),
                ).push(("target_branch"@, base@)),
                None,
            ),
    {
        let request = plain(Method::Get, self.all_mrs(owner, repo), None);
        let request = with_param(request, "state", "opened");
        let request = with_param(request, "source_branch", strip_head_owner(head).as_str());
        with_param(request, "target_branch", base)
    }

    /// The request for the merge requests that are open for a branch.
    pub fn find_pr_by_head(&self, owner: &str, repo: &str, head_branch: &str) -> (r: Request)
        ensures
            is_request(
                r,
                Method::Get,
                self.mrs_url(owner@, repo@),
                no_query().push(("state"@, "opened"@)).push(("source_branch"@, head_branch@)),
                None,
            ),
    {
        let request = plain(Method::Get, self.all_mrs(owner, repo), None);
        let request = with_param(request, "state", "opened");
        with_param(request, "source_branch", head_branch)
    }

    /// The request for the notes on a merge request, the oldest first.
    pub fn list_comments(&self, owner: &str, repo: &str, number: u64) -> (r: Request)
        ensures
            is_request(
                r,
                Method::Get,
                self.mr_url(owner@, repo@, number) + "/notes"@,
                no_query().push(("sort"@, "asc"@)).push(("order_by"@, "created_at"@)).push(
                    ("per_page"@, "100"@),
                ),
                None,
            ),
    {
        let url = cat2(self.one_mr(owner, repo, number).as_str(), "/notes");
        let request = plain(Method::Get, url, None);
        let request = with_param(request, "sort", "asc");
        let request = with_param(request, "order_by", "created_at");
        with_param(request, "per_page", "100")
    }

    /// The request that adds a note to a merge request.
    pub fn post_note(&self, owner: &str, repo: &str, number: u64, body: &str) -> (r: Request)
        ensures
            is_request(
                r,
                Method::Post,
                self.mr_url(owner@, repo@, number) + "/notes"@,
                no_query(),
                Some(obj().text("body"@, body@).done()),
            ),
    {
        let url = cat2(self.one_mr(owner, repo, number).as_str(), "/notes");
        plain(Method::Post, url, Some(Fields::new().text("body", body).finish()))
    }

    /// The request that posts a review. An approval is one; GitLab knows no other
    /// verdict, so anything else is a note.
    pub fn post_review(
        &self,
        owner: &str,
        repo: &str,
        number: u64,
        body: &str,
        decision: ReviewDecision,
    ) -> (r: Request)
        ensures
            if decision == ReviewDecision::Approve {
                is_request(
                    r,
                    Method::Post,
                    self.mr_url(owner@, repo@, number) + "/approve"@,
                    no_query(),
                    None,
                )
            } else {
                is_request(
                    r,
                    Method::Post,
                    self.mr_url(owner@, repo@, number) + "/notes"@,
                    no_query(),
                    Some(obj().text("body"@, body@).done()),
                )
            },
    {
        match decision {
            ReviewDecision::Approve => {
                let url = cat2(self.one_mr(owner, repo, number).as_str(), "/approve");
                plain(Method::Post, url, None)
            },
            ReviewDecision::RequestChanges | ReviewDecision::Comment => self.post_note(
                owner,
                repo,
                number,
                body,
            ),
        }
    }

    /// The request that forks a project.
    pub fn create_fork(&self, owner: &str, repo: &str) -> (r: Request)
        ensures
            is_request(
                r,
                Method::Post,
                self.api_base@ + "/projects/"@ + id_of(owner@, repo@) + "/fork"@,
                no_query(),
                None,
            ),
    {
        let url = cat4(
            self.api_base.as_str(),
            "/projects/",
            project_id(owner, repo).as_str(),
            "/fork",
        );
        plain(Method::Post, url, None)
    }

    /// The request for a page of the open issues of a project.
    pub fn list_open_issues(&self, owner: &str, repo: &str, page: u32) -> (r: Request)
        ensures
            is_request(
                r,
                Method::Get,
                self.api_base@ + "/projects/"@ + id_of(owner@, repo@) + "/issues"@,
                no_query().push(("state"@, "opened"@)).push(("per_page"@, "100"@)).push(
                    ("page"@, dec(page as nat)),
                ),
                None,
            ),
    {
        let url = cat4(
            self.api_base.as_str(),
            "/projects/",
            project_id(owner, repo).as_str(),
            "/issues",
        );
        let request = plain(Method::Get, url, None);
        let request = with_param(request, "state", "opened");
        let request = with_param(request, "per_page", "100");
        with_param(request, "page", number_text(page as u64).as_str())
    }

    /// The request for the membership of a user.
    pub fn member_request(&self, owner: &str, repo: &str, user_id: u64) -> (r: Request)
        ensures
            is_request(
                r,
                Method::Get,
                self.api_base@ + "/projects/"@ + id_of(owner@, repo@) + "/members/all/"@ + dec(
                    user_id as nat,
                ),
                no_query(),
                None,
            ),
    {
        let url = cat5(
            self.api_base.as_str(),
            "/projects/",
            project_id(owner, repo).as_str(),
            "/members/all/",
            number_text(user_id).as_str(),
        );
        plain(Method::Get, url, None)
    }

    /// The request for a merge request.
    pub fn mr_request(&self, owner: &str, repo: &str, number: u64) -> (r: Request)
        ensures
            is_request(r, Method::Get, self.mr_url(owner@, repo@, number), no_query(), None),
    {
        plain(Method::Get, self.one_mr(owner, repo, number), None)
    }

    /// The request that makes a merge request a draft or ends that, by its title;
    /// none where the title says so already.
    pub fn set_pr_draft(&self, owner: &str, repo: &str, number: u64, title: &str, draft: bool) -> (r:
        Option<Request>)
        ensures
            match r {
                Some(request) => retitled(title@, draft) != title@ && is_request(
                    request,
                    Method::Put,
                    self.mr_url(owner@, repo@, number),
                    no_query(),
                    Some(obj().text("title"@, retitled(title@, draft)).done()),
                ),
                None => retitled(title@, draft) == title@,
            },
    {
        let new_title = if draft {
            ensure_draft_prefix(title)
        } else {
            strip_draft_prefix(title)
        };
        if same_text(new_title.as_str(), title) {
            return None;
        }
        let payload = Fields::new().text("title", new_title.as_str()).finish();
        Some(plain(Method::Put, self.one_mr(owner, repo, number), Some(payload)))
    }
}

/// The title of a merge request that is to be a draft, or not.
pub open spec fn retitled(title: Seq<char>, draft: bool) -> Seq<char> {
    if draft {
        drafted(title)
    } else {
        undrafted(title)
    }
}

/// What is asked of GitLab.
#[derive(Debug, Clone, Copy, PartialEq, Eq, Structural)]
pub enum Call {
    OpenMr,
    ListMrs,
    FindMrs,
    Notes,
    Note,
    Approve,
    Fork,
    Issues,
    Member,
    ReadMr,
    ChangeMr,
}

impl Call {
    pub open spec fn name(self) -> Seq<char> {
        match self {
            Call::OpenMr => "gitlab MR POST"@,
            Call::ListMrs => "gitlab MR list GET"@,
            Call::FindMrs => "gitlab MR find GET"@,
            Call::Notes => "gitlab notes GET"@,
            Call::Note => "gitlab note POST"@,
            Call::Approve => "gitlab MR approve POST"@,
            Call::Fork => "gitlab fork POST"@,
            Call::Issues => "gitlab issue list GET"@,
            Call::Member => "gitlab members GET"@,
            Call::ReadMr => "gitlab MR GET"@,
            Call::ChangeMr => "gitlab MR PUT"@,
        }
    }

    /// What its answer is called.
    pub open spec fn answer_name(self) -> Seq<char> {
        match self {
            Call::OpenMr => "gitlab MR response"@,
            Call::ListMrs => "gitlab MR list"@,
            Call::FindMrs => "gitlab MR find"@,
            Call::Notes => "gitlab notes"@,
            Call::Issues => "gitlab issue list"@,
            Call::Member => "gitlab members response"@,
            Call::ReadMr => "gitlab MR title"@,
            _ => self.name(),
        }
    }

    fn show(self) -> (r: &'static str)
        ensures
            r@ == self.name(),
    {
        match self {
            Call::OpenMr => "gitlab MR POST",
            Call::ListMrs => "gitlab MR list GET",
            Call::FindMrs => "gitlab MR find GET",
            Call::Notes => "gitlab notes GET",
            Call::Note => "gitlab note POST",
            Call::Approve => "gitlab MR approve POST",
            Call::Fork => "gitlab fork POST",
            Call::Issues => "gitlab issue list GET",
            Call::Member => "gitlab members GET",
            Call::ReadMr => "gitlab MR GET",
            Call::ChangeMr => "gitlab MR PUT",
        }
    }

    fn show_answer(self) -> (r: &'static str)
        ensures
            r@ == self.answer_name(),
    {
        match self {
            Call::OpenMr => "gitlab MR response",
            Call::ListMrs => "gitlab MR list",
            Call::FindMrs => "gitlab MR find",
            Call::Notes => "gitlab notes",
            Call::Issues => "gitlab issue list",
            Call::Member => "gitlab members response",
            Call::ReadMr => "gitlab MR title",
            _ => self.show(),
        }
    }
}

/// The status of an answer: its code, the code with its name, and the text of
/// the answer where that could be read.
#[derive(Debug)]
pub struct Status {
    pub code: u16,
    pub text: String,
    pub body: Option<String>,
}

/// How an answer came.
#[derive(Debug)]
pub enum Answer<T> {
    /// None came.
    Unsent(String),
    /// GitLab refused.
    Refused(Status),
    /// It came, and could be read or not.
    Came(Result<T, String>),
}

/// Whether a status code tells of success.
pub open spec fn succeeded(code: u16) -> bool {
    200 <= code < 300
}

/// Whether a status code tells of success.
pub fn is_success(code: u16) -> (r: bool)
    ensures
        r == succeeded(code),
{
    200 <= code && code < 300
}

/// The beginning of the text of an answer.
pub open spec fn snippet(body: Option<String>) -> Seq<char> {
    match body {
        Some(t) => if t@.len() <= 500 {
            t@
        } else {
            t@.subrange(0, 500)
        },
        None => ""@,
    }
}

/// The beginning of the text of an answer.
pub fn body_snippet(body: &Option<String>) -> (r: String)
    ensures
        r@ == snippet(*body),
{
    match body {
        Some(t) => {
            let v = chars_of(t.as_str());
            if v.len() <= 500 {
                t.clone()
            } else {
                text_of(&v, 0, 500)
            }
        },
        None => "".to_owned(),
    }
}

/// Why there is no answer to use.
pub open spec fn trouble<T>(call: Call, target: Seq<char>, answer: Answer<T>) -> Option<Seq<char>> {
    match answer {
        Answer::Unsent(e) => Some(call.name() + " failed: "@ + e@),
        Answer::Refused(status) => Some(
            call.name() + " "@ + target + " returned "@ + status.text@ + ": "@ + snippet(
                status.body,
            ),
        ),
        Answer::Came(Err(e)) => Some(call.answer_name() + " decode failed: "@ + e@),
        Answer::Came(Ok(_)) => None,
    }
}

/// What an answer holds, or why there is none to use. `target` tells what was
/// asked about.
pub fn settle<T>(call: Call, target: &str, answer: Answer<T>) -> (r: Result<T, String>)
    ensures
        match trouble(call, target@, answer) {
            Some(e) => r matches Err(why) && why@ == e,
            None => answer matches Answer::Came(Ok(t)) && r == Ok::<T, String>(t),
        },
{
    match answer {
        Answer::Unsent(e) => Err(cat3(call.show(), " failed: ", e.as_str())),
        Answer::Refused(status) => {
            let head = cat5(call.show(), " ", target, " returned ", status.text.as_str());
            Err(cat3(head.as_str(), ": ", body_snippet(&status.body).as_str()))
        },
        Answer::Came(Err(e)) => Err(cat3(call.show_answer(), " decode failed: ", e.as_str())),
        Answer::Came(Ok(t)) => Ok(t),
    }
}

/// Whether a user may give commands: one who is no member may not, which is no
/// error.
pub fn authorize_member(target: &str, answer: Answer<i64>) -> (r: Result<AuthLevel, String>)
    ensures
        if answer matches Answer::Refused(status) && status.code == 404 {
            r == Ok::<AuthLevel, String>(AuthLevel::Unauthorized)
        } else {
            match trouble(Call::Member, target@, answer) {
                Some(e) => r matches Err(why) && why@ == e,
                None => answer matches Answer::Came(Ok(level)) && r == Ok::<AuthLevel, String>(
                    if level >= ACCESS_DEVELOPER {
                        AuthLevel::Authorized
                    } else {
                        AuthLevel::Unauthorized
                    },
                ),
            }
        },
{
    if let Answer::Refused(status) = &answer {
        if status.code == 404 {
            return Ok(AuthLevel::Unauthorized);
        }
    }
    match settle(Call::Member, target, answer) {
        Ok(level) => Ok(GitlabForge::authorize_access_level(level)),
        Err(e) => Err(e),
    }
}

/// A merge request as GitLab tells of it.
#[derive(Debug)]
pub struct MrFull {
    pub iid: u64,
    pub title: String,
    pub web_url: String,
    pub state: String,
    pub description: Option<String>,
    pub created_at: Timestamp,
    pub source_branch: String,
    pub target_branch: String,
}

/// A pull request.
#[derive(Debug)]
pub struct PrSummary {
    pub number: u64,
    pub title: String,
    pub url: String,
    pub state: String,
    pub body: Option<String>,
    pub created_at: Timestamp,
    pub head: String,
    pub base: String,
}

impl MrFull {
    /// A merge request as a pull request.
    pub fn into_summary(self) -> (r: PrSummary)
        ensures
            r.number == self.iid,
            r.title == self.title,
            r.url == self.web_url,
            r.state == self.state,
            r.body == self.description,
            r.created_at == self.created_at,
            r.head == self.source_branch,
            r.base == self.target_branch,
    {
        PrSummary {
            number: self.iid,
            title: self.title,
            url: self.web_url,
            state: self.state,
            body: self.description,
            created_at: self.created_at,
            head: self.source_branch,
            base: self.target_branch,
        }
    }
}

/// A note on a merge request as GitLab tells of it.
#[derive(Debug)]
pub struct NoteItem {
    pub id: u64,
    pub body: String,
    pub author: Option<String>,
    pub created_at: Timestamp,
    /// Whether GitLab wrote it by itself.
    pub system: bool,
}

/// Whether a comment is what a note says. Notes carry no association.
pub open spec fn is_comment_of(note: NoteItem, c: IssueComment) -> bool {
    &&& c.id == note.id
    &&& c.body@ == note.body@
    &&& match (note.author, c.user) {
        (Some(name), Some(u)) => u.login@ == name@,
        (None, None) => true,
        _ => false,
    }
    &&& c.created_at == note.created_at
    &&& c.author_association is None
}

impl NoteItem {
    fn to_comment(&self) -> (r: IssueComment)
        ensures
            is_comment_of(*self, r),
    {
        IssueComment {
            id: self.id,
            body: self.body.clone(),
            user: match &self.author {
                Some(name) => Some(IssueCommentUser { login: name.clone() }),
                None => None,
            },
            created_at: self.created_at,
            author_association: None,
        }
    }
}

/// The notes that people wrote since a moment.
pub open spec fn recent_notes(notes: Seq<NoteItem>, since: Timestamp) -> Seq<NoteItem>
    decreases notes.len(),
{
    if notes.len() == 0 {
        Seq::empty()
    } else {
        let before = recent_notes(notes.drop_last(), since);
        if !notes.last().system && since.le(notes.last().created_at) {
            before.push(notes.last())
        } else {
            before
        }
    }
}

/// The comments that people wrote since a moment: what GitLab wrote by itself is
/// left out.
pub fn list_comments_since(notes: &Vec<NoteItem>, since: Timestamp) -> (r: Vec<IssueComment>)
    ensures
        r@.len() == recent_notes(notes@, since).len(),
        forall|i: int|
            0 <= i < r@.len() ==> is_comment_of(recent_notes(notes@, since)[i], #[trigger] r@[i]),
{
    let mut out: Vec<IssueComment> = Vec::new();
    let mut i: usize = 0;
    while i < notes.len()
        invariant
            i <= notes@.len(),
            out@.len() == recent_notes(notes@.take(i as int), since).len(),
            forall|k: int|
                0 <= k < out@.len() ==> is_comment_of(
                    recent_notes(notes@.take(i as int), since)[k],
                    #[trigger] out@[k],
                ),
        decreases notes@.len() - i,
    {
        proof {
            assert(notes@.take(i + 1).drop_last() =~= notes@.take(i as int));
        }
        if !notes[i].system && since.at_most(&notes[i].created_at) {
            out.push(notes[i].to_comment());
        }
        i += 1;
    }
    proof {
        assert(notes@.take(notes@.len() as int) =~= notes@);
    }
    out
}

/// An issue.
#[derive(Debug)]
pub struct ForgeIssue {
    pub number: u64,
    pub title: String,
    pub body: String,
    pub author_association: Option<String>,
    pub url: String,
}

/// An issue as GitLab tells of it.
#[derive(Debug)]
pub struct GlIssue {
    pub iid: u64,
    pub title: String,
    pub description: Option<String>,
    pub web_url: String,
}

/// Whether an issue is the one that GitLab tells of.
pub open spec fn is_issue_of(g: GlIssue, i: ForgeIssue) -> bool {
    &&& i.number == g.iid
    &&& i.title@ == g.title@
    &&& i.body@ == match g.description {
        Some(d) => d@,
        None => ""@,
    }
    &&& i.author_association is None
    &&& i.url@ == g.web_url@
}

impl GlIssue {
    fn to_issue(&self) -> (r: ForgeIssue)
        ensures
            is_issue_of(*self, r),
    {
        ForgeIssue {
            number: self.iid,
            title: self.title.clone(),
            body: match &self.description {
                Some(d) => d.clone(),
                None => "".to_owned(),
            },
            author_association: None,
            url: self.web_url.clone(),
        }
    }
}

/// The issues of the pages that have come, and which page is next.
#[derive(Debug)]
pub struct IssuePages {
    pub issues: Vec<ForgeIssue>,
    pub page: u32,
}

/// The most pages that are asked for.
pub const LAST_PAGE: u32 = 50;

/// Whether another page is asked for: the last one was full, and the limit is
/// not reached.
pub open spec fn wants_more(count: nat, page: u32) -> bool {
    count >= 100 && page < LAST_PAGE
}

impl IssuePages {
    pub open spec fn wf(self) -> bool {
        1 <= self.page <= LAST_PAGE
    }

    /// Begins with the first page.
    pub fn start() -> (r: IssuePages)
        ensures
            r.wf(),
            r.page == 1,
            r.issues@.len() == 0,
    {
        IssuePages { issues: Vec::new(), page: 1 }
    }

    /// Takes a page, and tells whether the next one is to be asked for.
    pub fn take(&mut self, items: &Vec<GlIssue>) -> (more: bool)
        requires
            old(self).wf(),
        ensures
            final(self).wf(),
            more == wants_more(items@.len(), old(self).page),
            final(self).page == if more {
                (old(self).page + 1) as u32
            } else {
                old(self).page
            },
            final(self).issues@.len() == old(self).issues@.len() + items@.len(),
            final(self).issues@.take(old(self).issues@.len() as int) == old(self).issues@,
            forall|i: int|
                0 <= i < items@.len() ==> is_issue_of(
                    #[trigger] items@[i],
                    final(self).issues@[old(self).issues@.len() + i],
                ),
    {
        let ghost before = self.issues@;
        let mut i: usize = 0;
        proof {
            assert(self.issues@.take(before.len() as int) =~= before);
        }
        while i < items.len()
            invariant
                i <= items@.len(),
                self.page == old(self).page,
                self.issues@.len() == before.len() + i,
                self.issues@.take(before.len() as int) == before,
                forall|k: int|
                    0 <= k < i ==> is_issue_of(
                        #[trigger] items@[k],
                        self.issues@[before.len() + k],
                    ),
            decreases items@.len() - i,
        {
            let ghost now = self.issues@;
            self.issues.push(items[i].to_issue());
            proof {
                assert(self.issues@.take(before.len() as int) =~= now.take(before.len() as int));
            }
            i += 1;
        }
        if items.len() < 100 || self.page >= LAST_PAGE {
            false
        } else {
            self.page = self.page + 1;
            true
        }
    }
}

/// To mark a draft twice is to mark it once.
pub proof fn drafting_twice_changes_nothing(title: Seq<char>)
    ensures
        drafted(drafted(title)) == drafted(title),
        after_mark(drafted(title)) is Some,
{
    lemma_marked(title);
}

/// The mark of a draft that was set can be taken away again: what comes back is
/// the title, without the white space that it began with.
pub proof fn undrafting_undoes_drafting(title: Seq<char>)
    requires
        after_mark(title) is None,
    ensures
        undrafted(drafted(title)) == trim_start(title),
        undrafted(title) == title,
{
    lemma_marked(title);
}

proof fn lemma_marked(title: Seq<char>)
    ensures
        after_mark("Draft: "@ + title) == Some(" "@ + title),
        trim_start(" "@ + title) == trim_start(title),
{
    reveal_strlit("Draft: ");
    reveal_strlit("draft:");
    reveal_strlit(" ");
    let t = "Draft: "@ + title;
    assert(t[0] == 'D');
    assert(!crate::text::is_white('D'));
    assert(trim_start(t) == t);
    let low = lowered(t);
    assert("draft:"@.is_prefix_of(low)) by {
        assert(low.subrange(0, 6) =~= "draft:"@);
    }
    assert(t.subrange(6, t.len() as int) =~= " "@ + title);
    let s = " "@ + title;
    assert(s[0] == ' ');
    assert(crate::text::is_white(' '));
    assert(s.drop_first() =~= title);
}

proof fn lemma_encoded_byte(b: u8)
    ensures
        stands_for_itself(b) ==> encoded_byte(b).len() == 1 && encoded_byte(b)[0] == b as char
            && b as char != '%',
        !stands_for_itself(b) ==> encoded_byte(b).len() == 3,
{
}

/// A list of bytes, from its front.
proof fn lemma_encoded_front(bytes: Seq<u8>)
    requires
        bytes.len() > 0,
    ensures
        encoded(bytes) == encoded_byte(bytes[0]) + encoded(bytes.drop_first()),
    decreases bytes.len(),
{
    if bytes.len() == 1 {
        assert(bytes.drop_last() =~= Seq::<u8>::empty());
        assert(bytes.drop_first() =~= Seq::<u8>::empty());
        assert(encoded(bytes) =~= encoded_byte(bytes[0]) + encoded(bytes.drop_first()));
    } else {
        let init = bytes.drop_last();
        lemma_encoded_front(init);
        assert(init.drop_first() =~= bytes.drop_first().drop_last());
        assert(bytes.drop_first().last() == bytes.last());
        assert(encoded(bytes) =~= encoded_byte(bytes[0]) + (encoded(init.drop_first())
            + encoded_byte(bytes.last())));
    }
}

proof fn lemma_same_byte(a: u8, b: u8)
    requires
        big_hex_digit(a / 16) == big_hex_digit(b / 16),
        big_hex_digit(a % 16) == big_hex_digit(b % 16),
    ensures
        a == b,
{
}

proof fn lemma_encoded_injective(a: Seq<u8>, b: Seq<u8>)
    requires
        encoded(a) == encoded(b),
    ensures
        a == b,
    decreases a.len(),
{
    if a.len() == 0 && b.len() == 0 {
        assert(a =~= b);
    } else if a.len() == 0 {
        lemma_encoded_front(b);
        lemma_encoded_byte(b[0]);
    } else if b.len() == 0 {
        lemma_encoded_front(a);
        lemma_encoded_byte(a[0]);
    } else {
        lemma_encoded_front(a);
        lemma_encoded_front(b);
        lemma_encoded_byte(a[0]);
        lemma_encoded_byte(b[0]);
        let f = encoded(a);
        let n = encoded_byte(a[0]).len() as int;
        assert(f[0] == encoded_byte(a[0])[0]);
        assert(f[0] == encoded_byte(b[0])[0]);
        assert(stands_for_itself(a[0]) == stands_for_itself(b[0]));
        if !stands_for_itself(a[0]) {
            assert(f[1] == encoded_byte(a[0])[1] && f[1] == encoded_byte(b[0])[1]);
            assert(f[2] == encoded_byte(a[0])[2] && f[2] == encoded_byte(b[0])[2]);
            lemma_same_byte(a[0], b[0]);
        }
        assert(a[0] == b[0]);
        assert(f.subrange(n, f.len() as int) =~= encoded(a.drop_first()));
        assert(f.subrange(n, f.len() as int) =~= encoded(b.drop_first()));
        lemma_encoded_injective(a.drop_first(), b.drop_first());
        assert(a =~= Seq::empty().push(a[0]) + a.drop_first());
        assert(b =~= Seq::empty().push(b[0]) + b.drop_first());
    }
}

/// Two projects whose paths differ are named differently in requests.
pub proof fn project_ids_tell_projects_apart(
    owner: Seq<char>,
    repo: Seq<char>,
    other_owner: Seq<char>,
    other_repo: Seq<char>,
)
    requires
        id_of(owner, repo) == id_of(other_owner, other_repo),
    ensures
        owner + "/"@ + repo == other_owner + "/"@ + other_repo,
{
    let a = owner + "/"@ + repo;
    let b = other_owner + "/"@ + other_repo;
    lemma_encoded_injective(encode_utf8(a), encode_utf8(b));
    vstd::utf8::encode_utf8_decode_utf8(a);
    vstd::utf8::encode_utf8_decode_utf8(b);
}

/// Where a GitLab answers and where it is looked at: at the address that is configured, else on
/// the host that is, else on the host of the repository, else on `gitlab.com`.
pub proof fn a_gitlab_is_found_where_it_is_configured(
    host: Option<String>,
    api_base: Option<String>,
    url: &str,
    r: GitlabForge,
)
    requires
        call_ensures(GitlabForge::from_config, (&host, &api_base, url), r),
    ensures
        api_base matches Some(base) ==> {
            &&& r.api_base@ == base@
            &&& "/api/v4"@.is_suffix_of(base@) ==> base@ == r.web_base@ + "/api/v4"@
            &&& !"/api/v4"@.is_suffix_of(base@) ==> r.web_base@ == base@
        },
        api_base is None ==> {
            let h = match (host, host_of(url@)) {
                (Some(h), _) => h@,
                (None, Some(h)) => h,
                (None, None) => "gitlab.com"@,
            };
            r.api_base@ == "https://"@ + h + "/api/v4"@ && r.web_base@ == "https://"@ + h
        },
{
    if let Some(base) = api_base {
        crate::text::what_is_taken_off_stood_there(base@, "/api/v4"@, r.web_base@);
    }
}

/// On GitLab somebody may give commands by name; and a member may, from the level of a developer
/// on. One who is no member may not, and no answer to use is no permission.
pub proof fn a_developer_may_give_commands(
    forge: GitlabForge,
    comment: IssueComment,
    auth: CommandAuthorizationConfig,
    by_name: AuthLevel,
    level: i64,
    by_level: AuthLevel,
    target: &str,
    answer: Answer<i64>,
    member: Result<AuthLevel, String>,
)
    requires
        call_ensures(GitlabForge::authorize, (&forge, &comment, &auth), by_name),
        call_ensures(GitlabForge::authorize_access_level, (level,), by_level),
        call_ensures(authorize_member, (target, answer), member),
    ensures
        by_name is Authorized <==> (comment.user matches Some(u) && u.login@.len() > 0 && exists|
            i: int,
        |
            0 <= i < auth.allowed_users@.len() && lowered((#[trigger] auth.allowed_users@[i])@)
                == lowered(u.login@)),
        by_level is Authorized <==> level >= 30,
        member == Ok::<AuthLevel, String>(AuthLevel::Authorized) <==> (answer matches Answer::Came(
            Ok(l),
        ) && l >= 30),
        member == Ok::<AuthLevel, String>(AuthLevel::Unauthorized) <==> ((answer matches Answer::Came(
            Ok(l),
        ) && l < 30) || (answer matches Answer::Refused(s) && s.code == 404)),
{
    reveal_strlit("");
}

/// Why there is no answer to use: what was asked, with what went wrong, and, where GitLab
/// refused, its status and the beginning of what it said.
pub proof fn no_answer_is_told_by_what_was_asked<T>(
    call: Call,
    target: &str,
    answer: Answer<T>,
    r: Result<T, String>,
)
    requires
        call_ensures(settle::<T>, (call, target, answer), r),
    ensures
        ({
            let asked = match call {
                Call::OpenMr => "gitlab MR POST"@,
                Call::ListMrs => "gitlab MR list GET"@,
                Call::FindMrs => "gitlab MR find GET"@,
                Call::Notes => "gitlab notes GET"@,
                Call::Note => "gitlab note POST"@,
                Call::Approve => "gitlab MR approve POST"@,
                Call::Fork => "gitlab fork POST"@,
                Call::Issues => "gitlab issue list GET"@,
                Call::Member => "gitlab members GET"@,
                Call::ReadMr => "gitlab MR GET"@,
                Call::ChangeMr => "gitlab MR PUT"@,
            };
            let read = match call {
                Call::OpenMr => "gitlab MR response"@,
                Call::ListMrs => "gitlab MR list"@,
                Call::FindMrs => "gitlab MR find"@,
                Call::Notes => "gitlab notes"@,
                Call::Note => "gitlab note POST"@,
                Call::Approve => "gitlab MR approve POST"@,
                Call::Fork => "gitlab fork POST"@,
                Call::Issues => "gitlab issue list"@,
                Call::Member => "gitlab members response"@,
                Call::ReadMr => "gitlab MR title"@,
                Call::ChangeMr => "gitlab MR PUT"@,
            };
            &&& (answer matches Answer::Came(Ok(t)) ==> r == Ok::<T, String>(t))
            &&& (answer matches Answer::Came(Err(e)) ==> (r matches Err(why) && why@ == read
                + " decode failed: "@ + e@))
            &&& (answer matches Answer::Unsent(e) ==> (r matches Err(why) && why@ == asked
                + " failed: "@ + e@))
            &&& (answer matches Answer::Refused(status) ==> (r matches Err(why) && why@ == asked
                + " "@ + target@ + " returned "@ + status.text@ + ": "@ + match status.body {
                Some(t) => if t@.len() <= 500 {
                    t@
                } else {
                    t@.take(500)
                },
                None => ""@,
            }))
        }),
{
    if let Answer::Refused(status) = answer {
        if let Some(t) = status.body {
            if t@.len() > 500 {
                assert(t@.subrange(0, 500) =~= t@.take(500));
            }
        }
    }
}

/// Success is told by the codes from two hundred on and below three hundred.
pub proof fn success_is_told_by_the_code(code: u16, r: bool)
    requires
        call_ensures(is_success, (code,), r),
    ensures
        r <==> code / 100 == 2,
{
}

/// The name of a project in requests goes byte by byte: letters, digits and `-`, `_` and `.` stand
/// for themselves, and any other byte is a percent sign with its two digits in base sixteen.
pub proof fn a_path_is_escaped_byte_by_byte(a: Seq<u8>, b: Seq<u8>)
    ensures
        encoded(Seq::empty()) == Seq::<char>::empty(),
        encoded(a + b) == encoded(a) + encoded(b),
        a.len() == 1 ==> {
            let c = a[0] as char;
            let e = encoded(a);
            if ('a' <= c <= 'z') || ('A' <= c <= 'Z') || ('0' <= c <= '9') || c == '-' || c == '_'
                || c
                == '.' {
                e.len() == 1 && e[0] == c
            } else {
                e.len() == 3 && e[0] == '%' && sixteenth(e[1]) * 16 + sixteenth(e[2]) == a[0]
            }
        },
    decreases b.len(),
{
    if a.len() == 1 {
        assert(a.drop_last() =~= Seq::<u8>::empty());
        assert(encoded(a.drop_last()) =~= Seq::<char>::empty());
        assert(encoded(a) =~= encoded_byte(a[0]));
        lemma_encoded_byte(a[0]);
        lemma_sixteenth(a[0] / 16);
        lemma_sixteenth(a[0] % 16);
    }
    if b.len() == 0 {
        assert(a + b =~= a);
        assert(encoded(a) + encoded(b) =~= encoded(a));
    } else {
        a_path_is_escaped_byte_by_byte(a, b.drop_last());
        assert((a + b).drop_last() =~= a + b.drop_last());
        assert((a + b).last() == b.last());
        assert(encoded(a + b) =~= encoded(a) + encoded(b));
    }
}

/// The value of a digit in base sixteen, in capital letters.
pub open spec fn sixteenth(c: char) -> int {
    if '0' <= c <= '9' {
        c as int - '0' as int
    } else if 'A' <= c <= 'F' {
        c as int - 'A' as int + 10
    } else {
        -1
    }
}

proof fn lemma_sixteenth(n: u8)
    requires
        n < 16,
    ensures
        sixteenth(big_hex_digit(n)) == n,
{
}

/// A project goes by its path, escaped.
pub proof fn a_project_goes_by_its_path(owner: &str, repo: &str, r: String)
    requires
        call_ensures(project_id, (owner, repo), r),
    ensures
        r@ == encoded(encode_utf8(owner@ + "/"@ + repo@)),
{
}

/// A title is marked as a draft where it begins, behind white space, with `draft:` or `wip:` in
/// small or capital letters. Such a title stays where a draft is wanted, and loses the mark and
/// the white space around it otherwise; any other title is marked, or stays.
pub proof fn a_draft_is_marked_by_its_title(title: Seq<char>, mark: Seq<char>, rest: Seq<char>)
    requires
        trim_start(title) == mark + rest,
        lowered(mark) == "draft:"@ || lowered(mark) == "wip:"@,
    ensures
        drafted(title) == title,
        undrafted(title) == trim_start(rest),
{
    reveal_strlit("draft:");
    reveal_strlit("wip:");
    let t = mark + rest;
    let low = lowered(t);
    assert(lowered(mark).len() == mark.len());
    assert(low.subrange(0, mark.len() as int) =~= lowered(mark));
    assert(t.subrange(mark.len() as int, t.len() as int) =~= rest);
    if lowered(mark) == "wip:"@ {
        assert(low[0] == low.subrange(0, mark.len() as int)[0]);
        if "draft:"@.is_prefix_of(low) {
            assert(low.subrange(0, 6)[0] == low[0]);
        }
    }
}

/// A title without such a mark is marked by `Draft: ` in front of it, and stays where no draft is
/// wanted.
pub proof fn an_unmarked_title_is_marked(title: Seq<char>)
    requires
        !"draft:"@.is_prefix_of(lowered(trim_start(title))),
        !"wip:"@.is_prefix_of(lowered(trim_start(title))),
    ensures
        drafted(title) == "Draft: "@ + title,
        undrafted(title) == title,
{
}

/// The functions on titles do what is said of drafts.
pub proof fn titles_are_marked_and_unmarked(title: &str, a: String, b: String)
    requires
        call_ensures(ensure_draft_prefix, (title,), a),
        call_ensures(strip_draft_prefix, (title,), b),
    ensures
        a@ == drafted(title@),
        b@ == undrafted(title@),
{
}

/// A description holds the review, under its title and with who made it, behind the body.
pub proof fn the_review_stands_behind_the_body(body: &str, review: Option<ReviewText>, r: String)
    requires
        call_ensures(compose_description, (body, &review), r),
    ensures
        review is None ==> r@ == body@,
        review matches Some(report) ==> {
            let shown = body@ + "\n\n## Code Review\n\n"@ + report.markdown@;
            &&& report.attribution_line is None ==> r@ == shown
            &&& (report.attribution_line matches Some(line) ==> r@ == shown + ("\n\n"@ + line@))
        },
{
    reveal_strlit("");
    if let Some(report) = review {
        let shown = body@ + "\n\n## Code Review\n\n"@ + report.markdown@;
        assert(shown + ""@ =~= shown);
    }
}

/// A branch is named without its owner: by what stands behind the first colon, where there is
/// one.
pub proof fn a_branch_goes_without_its_owner(head: Seq<char>, owner: Seq<char>, branch: Seq<char>)
    ensures
        !head.contains(':') ==> bare_branch(head) == head,
        head == owner.push(':') + branch && !owner.contains(':') ==> bare_branch(head) == branch,
{
    crate::text::a_text_is_parted_at_a_character(head, ':', owner, branch);
}

/// A merge request is opened with a post to the merge requests of its project, from the branch
/// without its owner, under a title that is marked where a draft is wanted.
pub proof fn a_merge_request_is_opened_as_asked(
    forge: GitlabForge,
    owner: &str,
    repo: &str,
    head: &str,
    base: &str,
    title: &str,
    body: &str,
    review: Option<ReviewText>,
    draft: bool,
    r: Request,
)
    requires
        call_ensures(
            GitlabForge::open_pr,
            (&forge, owner, repo, head, base, title, body, &review, draft),
            r,
        ),
    ensures
        r.method is Post,
        r.url@ == forge.api_base@ + "/projects/"@ + id_of(owner@, repo@) + "/merge_requests"@,
        r.query@.len() == 0,
        r.body is Some,
        r.body->0@.str_at("source_branch"@) == Some(bare_branch(head@)),
        r.body->0@.str_at("target_branch"@) == Some(base@),
        r.body->0@.str_at("title"@) == Some(
            if draft {
                drafted(title@)
            } else {
                title@
            },
        ),
        r.body->0@.str_at("description"@) == Some(description_text(body@, review)),
{
    broadcast use {lemma_get_with, lemma_get_empty};

    lemma_field_names();
    assert(query_views(r.query@).len() == r.query@.len());
}

/// What is open between two branches, or for one, is asked of the merge requests of a project.
pub proof fn open_merge_requests_are_asked_by_branch(
    forge: GitlabForge,
    owner: &str,
    repo: &str,
    head: &str,
    base: &str,
    both: Request,
    one: Request,
)
    requires
        call_ensures(GitlabForge::list_open_prs, (&forge, owner, repo, head, base), both),
        call_ensures(GitlabForge::find_pr_by_head, (&forge, owner, repo, head), one),
    ensures
        both.method is Get && one.method is Get,
        both.body is None && one.body is None,
        both.url@ == forge.api_base@ + "/projects/"@ + id_of(owner@, repo@) + "/merge_requests"@,
        one.url@ == both.url@,
        both.query@.len() == 3 && one.query@.len() == 2,
        both.query@[0].0@ == "state"@ && both.query@[0].1@ == "opened"@,
        both.query@[1].0@ == "source_branch"@ && both.query@[1].1@ == bare_branch(head@),
        both.query@[2].0@ == "target_branch"@ && both.query@[2].1@ == base@,
        one.query@[0].0@ == "state"@ && one.query@[0].1@ == "opened"@,
        one.query@[1].0@ == "source_branch"@ && one.query@[1].1@ == head@,
{
    let q = query_views(both.query@);
    assert(q.len() == both.query@.len());
    assert(q[0] == (both.query@[0].0@, both.query@[0].1@));
    assert(q[1] == (both.query@[1].0@, both.query@[1].1@));
    assert(q[2] == (both.query@[2].0@, both.query@[2].1@));
    let p = query_views(one.query@);
    assert(p.len() == one.query@.len());
    assert(p[0] == (one.query@[0].0@, one.query@[0].1@));
    assert(p[1] == (one.query@[1].0@, one.query@[1].1@));
}

/// Notes are asked for the oldest first, a hundred at a time; a note is posted where they are
/// read.
pub proof fn notes_are_read_and_posted_at_one_place(
    forge: GitlabForge,
    owner: &str,
    repo: &str,
    number: u64,
    body: &str,
    read: Request,
    post: Request,
)
    requires
        call_ensures(GitlabForge::list_comments, (&forge, owner, repo, number), read),
        call_ensures(GitlabForge::post_note, (&forge, owner, repo, number, body), post),
    ensures
        read.method is Get && post.method is Post,
        read.url@ == forge.api_base@ + "/projects/"@ + id_of(owner@, repo@) + "/merge_requests/"@
            + dec(number as nat) + "/notes"@,
        post.url@ == read.url@,
        read.body is None,
        read.query@.len() == 3 && post.query@.len() == 0,
        read.query@[0].0@ == "sort"@ && read.query@[0].1@ == "asc"@,
        read.query@[1].0@ == "order_by"@ && read.query@[1].1@ == "created_at"@,
        read.query@[2].0@ == "per_page"@ && read.query@[2].1@ == "100"@,
        post.body is Some,
        post.body->0@.str_at("body"@) == Some(body@),
{
    broadcast use {lemma_get_with, lemma_get_empty};

    let q = query_views(read.query@);
    assert(q.len() == read.query@.len());
    assert(q[0] == (read.query@[0].0@, read.query@[0].1@));
    assert(q[1] == (read.query@[1].0@, read.query@[1].1@));
    assert(q[2] == (read.query@[2].0@, read.query@[2].1@));
    assert(query_views(post.query@).len() == post.query@.len());
}

/// An approval is posted as one; any other verdict is a note with its text.
pub proof fn only_an_approval_approves(
    forge: GitlabForge,
    owner: &str,
    repo: &str,
    number: u64,
    body: &str,
    decision: ReviewDecision,
    r: Request,
)
    requires
        call_ensures(GitlabForge::post_review, (&forge, owner, repo, number, body, decision), r),
    ensures
        r.method is Post,
        r.query@.len() == 0,
        decision is Approve ==> r.body is None && r.url@ == forge.api_base@ + "/projects/"@ + id_of(
            owner@,
            repo@,
        ) + "/merge_requests/"@ + dec(number as nat) + "/approve"@,
        decision !is Approve ==> (r.body matches Some(b) && b@.str_at("body"@) == Some(body@))
            && r.url@ == forge.api_base@ + "/projects/"@ + id_of(owner@, repo@)
            + "/merge_requests/"@ + dec(number as nat) + "/notes"@,
{
    broadcast use {lemma_get_with, lemma_get_empty};

    assert(query_views(r.query@).len() == r.query@.len());
}

/// A fork, a member and a merge request are asked for at their own places.
pub proof fn each_thing_is_asked_at_its_place(
    forge: GitlabForge,
    owner: &str,
    repo: &str,
    number: u64,
    fork: Request,
    member: Request,
    one: Request,
)
    requires
        call_ensures(GitlabForge::create_fork, (&forge, owner, repo), fork),
        call_ensures(GitlabForge::member_request, (&forge, owner, repo, number), member),
        call_ensures(GitlabForge::mr_request, (&forge, owner, repo, number), one),
    ensures
        fork.method is Post && member.method is Get && one.method is Get,
        fork.body is None && member.body is None && one.body is None,
        fork.query@.len() == 0 && member.query@.len() == 0 && one.query@.len() == 0,
        fork.url@ == forge.api_base@ + "/projects/"@ + id_of(owner@, repo@) + "/fork"@,
        member.url@ == forge.api_base@ + "/projects/"@ + id_of(owner@, repo@) + "/members/all/"@
            + dec(number as nat),
        one.url@ == forge.api_base@ + "/projects/"@ + id_of(owner@, repo@) + "/merge_requests/"@
            + dec(number as nat),
{
    assert(query_views(fork.query@).len() == fork.query@.len());
    assert(query_views(member.query@).len() == member.query@.len());
    assert(query_views(one.query@).len() == one.query@.len());
}

/// The open issues are asked for page by page, a hundred at a time.
pub proof fn issues_are_asked_page_by_page(
    forge: GitlabForge,
    owner: &str,
    repo: &str,
    page: u32,
    r: Request,
)
    requires
        call_ensures(GitlabForge::list_open_issues, (&forge, owner, repo, page), r),
    ensures
        r.method is Get,
        r.body is None,
        r.url@ == forge.api_base@ + "/projects/"@ + id_of(owner@, repo@) + "/issues"@,
        r.query@.len() == 3,
        r.query@[0].0@ == "state"@ && r.query@[0].1@ == "opened"@,
        r.query@[1].0@ == "per_page"@ && r.query@[1].1@ == "100"@,
        r.query@[2].0@ == "page"@ && r.query@[2].1@ == dec(page as nat),
{
    let q = query_views(r.query@);
    assert(q.len() == r.query@.len());
    assert(q[0] == (r.query@[0].0@, r.query@[0].1@));
    assert(q[1] == (r.query@[1].0@, r.query@[1].1@));
    assert(q[2] == (r.query@[2].0@, r.query@[2].1@));
}

/// A merge request is made a draft, or none, by its title; nothing is asked where the title says
/// so already.
pub proof fn a_draft_is_set_by_the_title(
    forge: GitlabForge,
    owner: &str,
    repo: &str,
    number: u64,
    title: &str,
    draft: bool,
    r: Option<Request>,
)
    requires
        call_ensures(GitlabForge::set_pr_draft, (&forge, owner, repo, number, title, draft), r),
    ensures
        ({
            let wanted = if draft {
                drafted(title@)
            } else {
                undrafted(title@)
            };
            &&& r is None <==> wanted == title@
            &&& (r matches Some(q) ==> q.method is Put && q.query@.len() == 0 && q.url@
                == forge.api_base@ + "/projects/"@ + id_of(owner@, repo@) + "/merge_requests/"@
                + dec(number as nat) && (q.body matches Some(b) && b@.str_at("title"@) == Some(
                wanted,
            )))
        }),
{
    broadcast use {lemma_get_with, lemma_get_empty};

    if let Some(q) = r {
        assert(query_views(q.query@).len() == q.query@.len());
    }
}

/// A merge request can be opened from its branch in the browser.
pub proof fn a_branch_leads_to_a_merge_request(
    forge: GitlabForge,
    owner: &str,
    repo: &str,
    branch: &str,
    r: String,
)
    requires
        call_ensures(GitlabForge::branch_url, (&forge, owner, repo, branch), r),
    ensures
        r@ == forge.web_base@ + "/"@ + owner@ + "/"@ + repo@
            + "/-/merge_requests/new?merge_request%5Bsource_branch%5D="@ + branch@,
{
}

/// A merge request is told as a pull request, field by field.
pub proof fn a_merge_request_is_a_pull_request(mr: MrFull, r: PrSummary)
    requires
        call_ensures(MrFull::into_summary, (mr,), r),
    ensures
        r.number == mr.iid,
        r.title == mr.title,
        r.url == mr.web_url,
        r.state == mr.state,
        r.body == mr.description,
        r.created_at == mr.created_at,
        r.head == mr.source_branch,
        r.base == mr.target_branch,
{
}

/// The notes are taken one by one: those that people wrote, from the moment on, in their order.
pub proof fn notes_are_taken_one_by_one(list: Seq<NoteItem>, more: Seq<NoteItem>, since: Timestamp)
    ensures
        recent_notes(Seq::empty(), since) == Seq::<NoteItem>::empty(),
        list.len() == 1 ==> recent_notes(list, since) == if list[0].system || !since.le(
            list[0].created_at,
        ) {
            Seq::empty()
        } else {
            list
        },
        recent_notes(list + more, since) == recent_notes(list, since) + recent_notes(more, since),
    decreases more.len(),
{
    if list.len() == 1 {
        assert(list.drop_last() =~= Seq::<NoteItem>::empty());
        assert(recent_notes(list.drop_last(), since) =~= Seq::<NoteItem>::empty());
        assert(Seq::empty().push(list[0]) =~= list);
    }
    if more.len() == 0 {
        assert(list + more =~= list);
        assert(recent_notes(list, since) + recent_notes(more, since) =~= recent_notes(list, since));
    } else {
        notes_are_taken_one_by_one(list, more.drop_last(), since);
        assert((list + more).drop_last() =~= list + more.drop_last());
        assert((list + more).last() == more.last());
        assert(recent_notes(list + more, since) =~= recent_notes(list, since) + recent_notes(
            more,
            since,
        ));
    }
}

/// A comment says what its note says, and an issue what GitLab tells of it.
pub proof fn a_comment_says_what_its_note_says(
    notes: Vec<NoteItem>,
    since: Timestamp,
    r: Vec<IssueComment>,
    i: int,
)
    requires
        call_ensures(list_comments_since, (&notes, since), r),
        0 <= i < r@.len(),
    ensures
        r@.len() == recent_notes(notes@, since).len(),
        ({
            let note = recent_notes(notes@, since)[i];
            let c = r@[i];
            &&& c.id == note.id && c.body@ == note.body@ && c.created_at == note.created_at
            &&& c.author_association is None
            &&& (note.author matches Some(name) ==> (c.user matches Some(u) && u.login@ == name@))
            &&& note.author is None ==> c.user is None
        }),
{
}

/// A page of issues adds its issues behind those that have come; the next one is asked for where
/// the page was full and fewer than fifty have come.
pub proof fn a_full_page_asks_for_the_next(
    q: Ghost<&mut IssuePages>,
    items: Vec<GlIssue>,
    more: bool,
    i: int,
)
    requires
        (*q@).wf(),
        call_ensures(IssuePages::take, (q@, &items), more),
        0 <= i < items@.len(),
    ensures
        more <==> items@.len() >= 100 && (*q@).page < 50,
        (*final(q@)).page == (*q@).page + if more {
            1int
        } else {
            0int
        },
        (*final(q@)).issues@.len() == (*q@).issues@.len() + items@.len(),
        ({
            let issue = (*final(q@)).issues@[(*q@).issues@.len() + i];
            let told = items@[i];
            &&& issue.number == told.iid && issue.title@ == told.title@ && issue.url@
                == told.web_url@
            &&& issue.author_association is None
            &&& issue.body@ == match told.description {
                Some(d) => d@,
                None => ""@,
            }
        }),
        forall|k: int|
            0 <= k < (*q@).issues@.len() ==> #[trigger] (*final(q@)).issues@[k]
                == (*q@).issues@[k],
{
    let n = (*q@).issues@.len() as int;
    assert forall|k: int| 0 <= k < n implies #[trigger] (*final(q@)).issues@[k]
        == (*q@).issues@[k] by {
        assert((*final(q@)).issues@.take(n)[k] == (*final(q@)).issues@[k]);
    }
}

/// The names of the fields tell them apart.
proof fn lemma_field_names()
    ensures
        "title"@.len() == 5,
        "description"@.len() == 11,
        "source_branch"@.len() == 13,
        "target_branch"@.len() == 13,
        "source_branch"@ != "target_branch"@,
{
    reveal_strlit("source_branch");
    reveal_strlit("target_branch");
    reveal_strlit("title");
    reveal_strlit("description");
    assert("source_branch"@[0] != "target_branch"@[0]);
}

/// The functions on addresses, answers and pages do what is said of them.
pub proof fn a_project_is_read_of_its_address(
    forge: GitlabForge,
    url: &str,
    r: Result<(String, String), String>,
    p: Result<(String, String, String), String>,
    base: &str,
    at_base: GitlabForge,
    host: &str,
    on_host: GitlabForge,
    pages: IssuePages,
)
    requires
        call_ensures(GitlabForge::parse_repo, (&forge, url), r),
        call_ensures(parse_gitlab_url, (url,), p),
        call_ensures(GitlabForge::with_api_base, (base,), at_base),
        call_ensures(GitlabForge::new, (host,), on_host),
        call_ensures(IssuePages::start, (), pages),
    ensures
        p matches Ok(q) ==> gitlab_parts(url@) == Some((q.0@, q.1@, q.2@)),
        p matches Err(e) ==> gitlab_parts(url@) is None && e@ == unrecognized_gitlab_text(url@),
        r is Ok <==> p is Ok,
        r matches Ok(q) ==> (p matches Ok(t) && q.0@ == t.1@ && q.1@ == t.2@),
        r matches Err(e) ==> e@ == unrecognized_gitlab_text(url@),
        at_base.api_base@ == base@,
        on_host.api_base@ == "https://"@ + host@ + "/api/v4"@,
        on_host.web_base@ == "https://"@ + host@,
        pages.page == 1 && pages.issues@.len() == 0,
{
}

} // verus!
