use autocoder::clock::Timestamp;
use autocoder::forge::gitlab::{
    authorize_member, body_snippet, compose_description, ensure_draft_prefix, is_success,
    list_comments_since, parse_gitlab_url, project_id, settle, strip_draft_prefix, Answer, Call,
    GitlabForge, GlIssue, IssuePages, Method, MrFull, NoteItem, Request, ReviewText, Status,
};
use autocoder::forge::{
    AuthLevel, CommandAuthorizationConfig, IssueComment, IssueCommentUser, ReviewDecision,
};
use autocoder::json::Json;

fn auth(users: &[&str]) -> CommandAuthorizationConfig {
    CommandAuthorizationConfig {
        allowed_associations: Vec::new(),
        allowed_users: users.iter().map(|s| s.to_string()).collect(),
    }
}

fn params(r: &Request) -> Vec<(&str, &str)> {
    r.query.iter().map(|(a, b)| (a.as_str(), b.as_str())).collect()
}

fn fields(r: &Request) -> Vec<(String, String)> {
    match &r.body {
        Some(Json::Object(f)) => f
            .iter()
            .map(|(k, v)| match v {
                Json::Str(s) => (k.clone(), s.clone()),
                other => panic!("{other:?}"),
            })
            .collect(),
        None => Vec::new(),
        other => panic!("{other:?}"),
    }
}

fn pair(a: &str, b: &str) -> (String, String) {
    (a.to_string(), b.to_string())
}

#[test]
fn parse_repo_handles_nested_group_and_encodes_path() {
    let forge = GitlabForge::new("gitlab.example.com");
    for url in [
        "https://gitlab.example.com/group/subgroup/project.git",
        "git@gitlab.example.com:group/subgroup/project.git",
        "https://gitlab.example.com/group/subgroup/project",
    ] {
        let (owner, repo) = forge.parse_repo(url).expect("nested gitlab URL must parse");
        assert_eq!((owner.as_str(), repo.as_str()), ("group/subgroup", "project"), "{url}");
        assert_eq!(project_id(&owner, &repo), "group%2Fsubgroup%2Fproject", "{url}");
    }
}

#[test]
fn parse_repo_handles_single_level_path() {
    let forge = GitlabForge::new("gitlab.com");
    let (owner, repo) = forge.parse_repo("https://gitlab.com/owner/project.git").unwrap();
    assert_eq!((owner.as_str(), repo.as_str()), ("owner", "project"));
    assert_eq!(project_id(&owner, &repo), "owner%2Fproject");
}

#[test]
fn parse_gitlab_url_extracts_host() {
    let (host, ns, proj) =
        parse_gitlab_url("https://gitlab.example.com/group/sub/proj.git").unwrap();
    assert_eq!(host, "gitlab.example.com");
    assert_eq!(ns, "group/sub");
    assert_eq!(proj, "proj");
}

#[test]
fn addresses_without_a_namespace_are_rejected() {
    for url in [
        "https://gitlab.com/only",
        "https://gitlab.com",
        "https:///a/b",
        "git@gitlab.com",
        "ftp://gitlab.com/a/b",
        "",
    ] {
        assert_eq!(
            parse_gitlab_url(url).unwrap_err(),
            format!("unrecognized gitlab URL `{url}`: expected an SSH (`git@host:namespace/project.git`) or HTTPS (`https://host/namespace/project(.git)?`) form with a `namespace/project` path")
        );
    }
    let (host, ns, proj) = parse_gitlab_url(" ssh://git@h//a/b// ").unwrap();
    assert_eq!((host.as_str(), ns.as_str(), proj.as_str()), ("h", "a", "b"));
}

#[test]
fn ids_escape_all_but_letters_digits_and_three_signs() {
    assert_eq!(project_id("a-b_c.d", "e~f g"), "a-b_c.d%2Fe%7Ef%20g");
    assert_eq!(project_id("é", "Z9"), "%C3%A9%2FZ9");
}

#[test]
fn draft_prefix_add_and_strip_round_trip() {
    assert_eq!(ensure_draft_prefix("My MR"), "Draft: My MR");
    assert_eq!(ensure_draft_prefix("Draft: My MR"), "Draft: My MR");
    assert_eq!(strip_draft_prefix("Draft: My MR"), "My MR");
    assert_eq!(strip_draft_prefix("draft: My MR"), "My MR");
    assert_eq!(strip_draft_prefix("WIP: My MR"), "My MR");
    assert_eq!(strip_draft_prefix("My MR"), "My MR");
}

#[test]
fn drafts_are_marked_once() {
    for title in ["x", "  wIp:x", "Draft:", "drafty", " y"] {
        let once = ensure_draft_prefix(title);
        assert_eq!(ensure_draft_prefix(&once), once);
    }
    assert_eq!(ensure_draft_prefix("  wIp:x"), "  wIp:x");
    assert_eq!(ensure_draft_prefix("drafty"), "Draft: drafty");
    assert_eq!(strip_draft_prefix(&ensure_draft_prefix("  y ")), "y ");
    assert_eq!(strip_draft_prefix("Draft: Draft: y"), "Draft: y");
}

#[test]
fn authorize_access_level_developer_and_above() {
    for level in [50, 40, 30] {
        assert_eq!(
            GitlabForge::authorize_access_level(level),
            AuthLevel::Authorized,
            "level {level} must authorize"
        );
    }
    for level in [20, 10, 5, 0] {
        assert_eq!(
            GitlabForge::authorize_access_level(level),
            AuthLevel::Unauthorized,
            "level {level} must be denied"
        );
    }
}

#[test]
fn authorize_member_maps_access_level_via_api() {
    let forge = GitlabForge::with_api_base("http://localhost");
    let request = forge.member_request("group", "proj", 7);
    assert_eq!(request.url, "http://localhost/projects/group%2Fproj/members/all/7");
    assert_eq!(request.method, Method::Get);
    let target = "group/proj user 7";
    assert_eq!(authorize_member(target, Answer::Came(Ok(30))), Ok(AuthLevel::Authorized));
    assert_eq!(authorize_member(target, Answer::Came(Ok(20))), Ok(AuthLevel::Unauthorized));
    let missing = Answer::Refused(Status {
        code: 404,
        text: "404 Not Found".to_string(),
        body: Some("{}".to_string()),
    });
    assert_eq!(authorize_member(target, missing), Ok(AuthLevel::Unauthorized));
    let broken = Answer::Refused(Status {
        code: 500,
        text: "500 Internal Server Error".to_string(),
        body: Some("boom".to_string()),
    });
    assert_eq!(
        authorize_member(target, broken),
        Err("gitlab members GET group/proj user 7 returned 500 Internal Server Error: boom".to_string())
    );
    assert_eq!(
        authorize_member(target, Answer::Came(Err("bad".to_string()))),
        Err("gitlab members response decode failed: bad".to_string())
    );
}

#[test]
fn authorize_trait_matches_allowed_user() {
    let forge = GitlabForge::new("gitlab.com");
    let a = auth(&["Trusted-User"]);
    let comment = IssueComment {
        id: 1,
        body: "@bot revise".into(),
        user: Some(IssueCommentUser { login: "trusted-user".into() }),
        created_at: Timestamp { seconds: 0, nanos: 0 },
        author_association: None,
    };
    assert_eq!(forge.authorize(&comment, &a), AuthLevel::Authorized);
    let stranger = IssueComment {
        id: 2,
        body: "@bot revise".into(),
        user: Some(IssueCommentUser { login: "stranger".into() }),
        created_at: Timestamp { seconds: 0, nanos: 0 },
        author_association: Some("OWNER".into()),
    };
    assert_eq!(forge.authorize(&stranger, &a), AuthLevel::Unauthorized);
}

#[test]
fn branch_url_is_gitlab_mr_create_url() {
    let forge = GitlabForge::new("gitlab.example.com");
    assert_eq!(
        forge.branch_url("group/sub", "proj", "agent-q"),
        "https://gitlab.example.com/group/sub/proj/-/merge_requests/new?merge_request%5Bsource_branch%5D=agent-q"
    );
}

#[test]
fn with_api_base_trims_api_v4_for_web_base() {
    let forge = GitlabForge::with_api_base("https://gitlab.example.com/api/v4");
    assert_eq!(
        forge.branch_url("o", "r", "b"),
        "https://gitlab.example.com/o/r/-/merge_requests/new?merge_request%5Bsource_branch%5D=b"
    );
}

#[test]
fn the_endpoint_follows_from_the_configuration() {
    let url = "https://git.acme.io/a/b";
    let base = GitlabForge::from_config(&Some("h".into()), &Some("http://x/api/v4".into()), url);
    assert_eq!((base.api_base.as_str(), base.web_base.as_str()), ("http://x/api/v4", "http://x"));
    let host = GitlabForge::from_config(&Some("h".into()), &None, url);
    assert_eq!((host.api_base.as_str(), host.web_base.as_str()), ("https://h/api/v4", "https://h"));
    let inferred = GitlabForge::from_config(&None, &None, url);
    assert_eq!(inferred.web_base, "https://git.acme.io");
    let default = GitlabForge::from_config(&None, &None, "nothing");
    assert_eq!(default.web_base, "https://gitlab.com");
}

#[test]
fn open_pr_posts_merge_request() {
    let forge = GitlabForge::with_api_base("http://localhost");
    let r = forge.open_pr("group", "proj", "agent-q", "main", "My MR", "body", &None, false);
    assert_eq!(r.method, Method::Post);
    assert_eq!(r.url, "http://localhost/projects/group%2Fproj/merge_requests");
    assert_eq!(
        fields(&r),
        vec![
            pair("source_branch", "agent-q"),
            pair("target_branch", "main"),
            pair("title", "My MR"),
            pair("description", "body"),
        ]
    );
}

#[test]
fn open_pr_draft_prefixes_title() {
    let forge = GitlabForge::with_api_base("http://localhost");
    let r = forge.open_pr("group", "proj", "me:agent-q", "main", "My MR", "body", &None, true);
    assert_eq!(fields(&r)[0], pair("source_branch", "agent-q"));
    assert_eq!(fields(&r)[2], pair("title", "Draft: My MR"));
}

#[test]
fn list_open_prs_parses_iids() {
    let forge = GitlabForge::with_api_base("http://localhost");
    let r = forge.list_open_prs("group", "proj", "agent-q", "main");
    assert_eq!(r.method, Method::Get);
    assert_eq!(
        params(&r),
        vec![("state", "opened"), ("source_branch", "agent-q"), ("target_branch", "main")]
    );
}

#[test]
fn find_pr_by_head_matches_source_branch() {
    let forge = GitlabForge::with_api_base("http://localhost");
    let r = forge.find_pr_by_head("group", "proj", "agent-q");
    assert_eq!(params(&r), vec![("state", "opened"), ("source_branch", "agent-q")]);
    let summary = MrFull {
        iid: 7,
        title: "x".into(),
        web_url: "u".into(),
        state: "opened".into(),
        description: Some("d".into()),
        created_at: Timestamp { seconds: 5, nanos: 0 },
        source_branch: "agent-q".into(),
        target_branch: "main".into(),
    }
    .into_summary();
    assert_eq!(summary.number, 7);
    assert_eq!(summary.head, "agent-q");
    assert_eq!(summary.base, "main");
    assert_eq!(summary.body.as_deref(), Some("d"));
}

#[test]
fn set_pr_draft_adds_then_removes_prefix() {
    let forge = GitlabForge::with_api_base("http://localhost");
    let url = "http://localhost/projects/group%2Fproj/merge_requests/5";
    assert_eq!(forge.mr_request("group", "proj", 5).url, url);
    let on = forge.set_pr_draft("group", "proj", 5, "My MR", true).unwrap();
    assert_eq!((on.method, on.url.as_str()), (Method::Put, url));
    assert_eq!(fields(&on), vec![pair("title", "Draft: My MR")]);
    let off = forge.set_pr_draft("group", "proj", 5, "Draft: My MR", false).unwrap();
    assert_eq!(fields(&off), vec![pair("title", "My MR")]);
    assert!(forge.set_pr_draft("group", "proj", 5, "Draft: My MR", true).is_none());
    assert!(forge.set_pr_draft("group", "proj", 5, "My MR", false).is_none());
}

#[test]
fn post_review_approve_hits_approval_endpoint() {
    let forge = GitlabForge::with_api_base("http://localhost");
    let r = forge.post_review("group", "proj", 5, "fine", ReviewDecision::Approve);
    assert_eq!(r.url, "http://localhost/projects/group%2Fproj/merge_requests/5/approve");
    assert!(r.body.is_none());
}

#[test]
fn post_review_request_changes_posts_note() {
    let forge = GitlabForge::with_api_base("http://localhost");
    for decision in [ReviewDecision::RequestChanges, ReviewDecision::Comment] {
        let r = forge.post_review("group", "proj", 5, "please fix", decision);
        assert_eq!(r.url, "http://localhost/projects/group%2Fproj/merge_requests/5/notes");
        assert_eq!(fields(&r), vec![pair("body", "please fix")]);
    }
}

#[test]
fn forks_and_notes_are_asked_for() {
    let forge = GitlabForge::with_api_base("http://localhost");
    let fork = forge.create_fork("up", "repo");
    assert_eq!(fork.url, "http://localhost/projects/up%2Frepo/fork");
    assert_eq!(fork.method, Method::Post);
    let notes = forge.list_comments("group", "proj", 5);
    assert_eq!(notes.url, "http://localhost/projects/group%2Fproj/merge_requests/5/notes");
    assert_eq!(
        params(&notes),
        vec![("sort", "asc"), ("order_by", "created_at"), ("per_page", "100")]
    );
    let issues = forge.list_open_issues("group", "proj", 3);
    assert_eq!(issues.url, "http://localhost/projects/group%2Fproj/issues");
    assert_eq!(params(&issues), vec![("state", "opened"), ("per_page", "100"), ("page", "3")]);
}

fn note(id: u64, seconds: i64, system: bool) -> NoteItem {
    NoteItem {
        id,
        body: "@bot revise".into(),
        author: Some("alice".into()),
        created_at: Timestamp { seconds, nanos: 0 },
        system,
    }
}

#[test]
fn list_comments_since_filters_system_and_old_notes() {
    let notes = vec![note(1, 10, false), note(2, 30, true), note(3, 30, false), note(4, 20, false)];
    let comments = list_comments_since(&notes, Timestamp { seconds: 20, nanos: 0 });
    let ids: Vec<u64> = comments.iter().map(|c| c.id).collect();
    assert_eq!(ids, vec![3, 4]);
    assert_eq!(comments[0].user_login(), "alice");
    assert!(comments[0].author_association.is_none());
}

fn issues(n: usize) -> Vec<GlIssue> {
    (0..n)
        .map(|i| GlIssue {
            iid: i as u64,
            title: "t".into(),
            description: if i == 0 { None } else { Some("d".into()) },
            web_url: "u".into(),
        })
        .collect()
}

#[test]
fn pages_are_read_until_one_is_not_full_or_the_limit_is_reached() {
    let mut pages = IssuePages::start();
    assert!(pages.take(&issues(100)));
    assert_eq!(pages.page, 2);
    assert!(!pages.take(&issues(99)));
    assert_eq!(pages.page, 2);
    assert_eq!(pages.issues.len(), 199);
    assert_eq!(pages.issues[0].body, "");
    assert_eq!(pages.issues[101].number, 1);
    let mut all = IssuePages::start();
    let mut asked = 1;
    while all.take(&issues(100)) {
        asked += 1;
    }
    assert_eq!(asked, 50);
    assert_eq!(all.issues.len(), 5000);
}

#[test]
fn answers_that_cannot_be_used_are_explained() {
    assert_eq!(
        settle::<u64>(Call::OpenMr, "o/r", Answer::Unsent("no route".into())),
        Err("gitlab MR POST failed: no route".to_string())
    );
    let refused = Answer::<u64>::Refused(Status {
        code: 403,
        text: "403 Forbidden".into(),
        body: None,
    });
    assert_eq!(
        settle(Call::Note, "o/r!5", refused),
        Err("gitlab note POST o/r!5 returned 403 Forbidden: ".to_string())
    );
    assert_eq!(
        settle::<u64>(Call::Issues, "o/r", Answer::Came(Err("eof".into()))),
        Err("gitlab issue list decode failed: eof".to_string())
    );
    assert_eq!(settle(Call::Fork, "o/r", Answer::Came(Ok(4u64))), Ok(4));
    for (call, name) in [
        (Call::ListMrs, "gitlab MR list GET"),
        (Call::FindMrs, "gitlab MR find GET"),
        (Call::Notes, "gitlab notes GET"),
        (Call::Approve, "gitlab MR approve POST"),
        (Call::Fork, "gitlab fork POST"),
        (Call::Member, "gitlab members GET"),
        (Call::ReadMr, "gitlab MR GET"),
        (Call::ChangeMr, "gitlab MR PUT"),
    ] {
        assert_eq!(
            settle::<u64>(call, "x", Answer::Unsent("e".into())),
            Err(format!("{name} failed: e"))
        );
    }
}

#[test]
fn snippets_are_short() {
    assert_eq!(body_snippet(&Some("é".repeat(501))), "é".repeat(500));
    assert_eq!(body_snippet(&Some("x".repeat(500))).len(), 500);
    assert_eq!(body_snippet(&None), "");
    assert!(is_success(200) && is_success(299) && !is_success(199) && !is_success(300));
}

#[test]
fn compose_description_appends_review_section() {
    let report = ReviewText { markdown: "VERDICT".to_string(), attribution_line: None };
    let out = compose_description("base", &Some(report));
    assert_eq!(out, "base\n\n## Code Review\n\nVERDICT");
    assert_eq!(compose_description("base", &None), "base");
    let named = ReviewText { markdown: "V".to_string(), attribution_line: Some("by r".to_string()) };
    assert_eq!(compose_description("b", &Some(named)), "b\n\n## Code Review\n\nV\n\nby r");
}
