use autocoder::clock::Timestamp;
use autocoder::forge::gitlab::{settle, Answer, Call, Method};
use autocoder::forge::{
    forge_host, parse_repo_with, resolve_forge, AuthLevel, CommandAuthorizationConfig, ForgeConfig,
    ForgeKind, GithubForge, IssueComment, IssueCommentUser, Provider,
};

fn auth(users: &[&str], assocs: &[&str]) -> CommandAuthorizationConfig {
    CommandAuthorizationConfig {
        allowed_users: users.iter().map(|s| s.to_string()).collect(),
        allowed_associations: assocs.iter().map(|s| s.to_string()).collect(),
    }
}

fn comment(login: &str, assoc: Option<&str>) -> IssueComment {
    IssueComment {
        id: 1,
        body: "@bot revise do thing".to_string(),
        user: Some(IssueCommentUser { login: login.to_string() }),
        created_at: Timestamp { seconds: 0, nanos: 0 },
        author_association: assoc.map(|s| s.to_string()),
    }
}

fn parse(provider: &Provider, url: &str) -> Result<(String, String), String> {
    match provider {
        Provider::Github(f) => f.parse_repo(url),
        Provider::Gitlab(f) => f.parse_repo(url),
    }
}

fn gitlab_block(api_base: Option<&str>) -> ForgeConfig {
    ForgeConfig {
        kind: ForgeKind::Gitlab,
        host: Some("gitlab.example.com".into()),
        api_base: api_base.map(|s| s.to_string()),
    }
}

fn github_block(api_base: Option<&str>) -> ForgeConfig {
    ForgeConfig {
        kind: ForgeKind::Github,
        host: None,
        api_base: api_base.map(|s| s.to_string()),
    }
}

#[test]
fn github_host_resolves_to_github_forge() {
    for url in [
        "git@github.com:owner/repo.git",
        "https://github.com/owner/repo.git",
        "https://github.com/owner/repo",
    ] {
        let forge = resolve_forge(&None, url).expect("github URL must resolve");
        let (owner, repo) = parse(&forge, url).expect("github URL must parse");
        assert_eq!((owner.as_str(), repo.as_str()), ("owner", "repo"), "{url}");
    }
}

#[test]
fn unsupported_host_errors_naming_the_host() {
    let msg = match resolve_forge(&None, "https://gitlab.example.com/owner/repo.git") {
        Ok(_) => panic!("non-github host must not resolve"),
        Err(e) => e,
    };
    assert!(
        msg.contains("gitlab.example.com"),
        "error must name the offending host; got: {msg}"
    );
}

#[test]
fn parse_repo_with_rejects_unsupported_host_by_name() {
    let err = parse_repo_with(&None, "https://gitlab.example.com/owner/repo.git")
        .expect_err("non-github host must not parse");
    assert!(err.contains("gitlab.example.com"));
}

#[test]
fn explicit_gitlab_block_selects_gitlab_forge() {
    let url = "https://gitlab.example.com/group/subgroup/project.git";
    let cfg = Some(gitlab_block(None));
    let forge = resolve_forge(&cfg, url).expect("gitlab block must resolve");
    let (owner, repo) = parse(&forge, url).expect("gitlab URL must parse");
    assert_eq!((owner.as_str(), repo.as_str()), ("group/subgroup", "project"));
    assert_eq!(
        parse_repo_with(&cfg, url),
        Ok(("group/subgroup".to_string(), "project".to_string()))
    );
    assert!(parse_repo_with(&cfg, "nothing").unwrap_err().starts_with("unrecognized gitlab URL `nothing`"));
}

#[test]
fn github_com_without_block_selects_github_forge() {
    let url = "https://github.com/owner/repo";
    let forge = resolve_forge(&None, url).expect("github.com must resolve without a block");
    let (owner, repo) = parse(&forge, url).expect("github URL must parse");
    assert_eq!((owner.as_str(), repo.as_str()), ("owner", "repo"));
}

#[test]
fn gitlab_host_without_block_returns_no_provider_error() {
    let msg = match resolve_forge(&None, "https://gitlab.example.com/owner/repo.git") {
        Ok(_) => panic!("gitlab host without a block must not resolve"),
        Err(e) => e,
    };
    assert!(msg.contains("gitlab.example.com"), "must name host; got: {msg}");
    assert!(msg.contains("forge:"), "must direct to a forge block; got: {msg}");
    assert_eq!(
        msg,
        "no forge provider is registered for host `gitlab.example.com` (from `https://gitlab.example.com/owner/repo.git`): declare a per-repo `forge:` block to select a provider (e.g. `forge: { kind: gitlab, host: gitlab.example.com }`)"
    );
}

#[test]
fn a_github_block_takes_its_own_endpoint() {
    let url = "https://ghe.example.com/owner/repo";
    match resolve_forge(&Some(github_block(Some("https://ghe.example.com/api"))), url) {
        Ok(Provider::Github(f)) => assert_eq!(f.api_base, "https://ghe.example.com/api"),
        other => panic!("{other:?}"),
    }
    match resolve_forge(&Some(github_block(None)), url) {
        Ok(Provider::Github(f)) => assert_eq!(f.api_base, "https://api.github.com"),
        other => panic!("{other:?}"),
    }
    assert_eq!(
        parse_repo_with(&Some(github_block(None)), url),
        Ok(("owner".to_string(), "repo".to_string()))
    );
}

#[test]
fn github_rejects_nested_paths() {
    let f = GithubForge::new();
    assert!(f.parse_repo("https://github.com/a/b/c").is_err());
    assert!(f.parse_repo("https://github.com/only").is_err());
}

#[test]
fn forge_host_extracts_each_url_form() {
    assert_eq!(forge_host("git@github.com:o/r.git").unwrap(), "github.com");
    assert_eq!(forge_host("https://github.com/o/r").unwrap(), "github.com");
    assert_eq!(forge_host("ssh://git@gitlab.acme.io/o/r.git").unwrap(), "gitlab.acme.io");
    assert!(forge_host("not-a-url").is_err());
}

#[test]
fn forge_host_handles_ports_blanks_and_empty_hosts() {
    assert_eq!(forge_host("  https://h:8443/o/r.git \n").unwrap(), "h");
    assert_eq!(forge_host("http://h").unwrap(), "h");
    assert_eq!(forge_host("ssh://h/o/r").unwrap(), "h");
    assert!(forge_host("git@:o/r").is_err());
    assert!(forge_host("git@host").is_err());
    assert!(forge_host("https:///o/r").is_err());
    assert_eq!(
        forge_host("x").unwrap_err(),
        "unrecognized repository URL `x`: expected an SSH (`git@host:owner/repo.git`) or HTTPS (`https://host/owner/repo(.git)?`) form"
    );
}

#[test]
fn the_host_is_compared_without_regard_to_case() {
    assert!(resolve_forge(&None, "https://GitHub.COM/o/r").is_ok());
}

#[test]
fn authorize_matches_allowed_association() {
    let f = GithubForge::new();
    let a = auth(&[], &["OWNER", "MEMBER"]);
    assert_eq!(f.authorize(&comment("alice", Some("MEMBER")), &a), AuthLevel::Authorized);
    assert_eq!(f.authorize(&comment("bob", Some("CONTRIBUTOR")), &a), AuthLevel::Unauthorized);
}

#[test]
fn authorize_matches_allowed_user_case_insensitively() {
    let f = GithubForge::new();
    let a = auth(&["Trusted-User"], &["OWNER"]);
    assert_eq!(f.authorize(&comment("trusted-user", Some("NONE")), &a), AuthLevel::Authorized);
}

#[test]
fn authorize_association_match_is_case_sensitive() {
    let f = GithubForge::new();
    let a = auth(&[], &["OWNER"]);
    assert_eq!(f.authorize(&comment("x", Some("owner")), &a), AuthLevel::Unauthorized);
}

#[test]
fn authorize_absent_association_and_unknown_user_is_unauthorized() {
    let f = GithubForge::new();
    let a = auth(&["someone"], &["OWNER"]);
    assert_eq!(f.authorize(&comment("stranger", None), &a), AuthLevel::Unauthorized);
}

#[test]
fn an_author_without_a_name_is_not_named() {
    let f = GithubForge::new();
    let a = auth(&[""], &[]);
    assert_eq!(f.authorize(&comment("", None), &a), AuthLevel::Unauthorized);
    let mut nameless = comment("x", None);
    nameless.user = None;
    assert_eq!(f.authorize(&nameless, &a), AuthLevel::Unauthorized);
}

#[test]
fn branch_url_is_github_tree_url() {
    let f = GithubForge::new();
    assert_eq!(
        f.branch_url("owner", "repo", "agent-q"),
        "https://github.com/owner/repo/tree/agent-q"
    );
}

#[test]
fn a_user_without_a_host_is_no_host() {
    for url in ["ssh://git@/o/r", "ssh://git@", "ssh:///o/r", "https:///o/r"] {
        assert!(forge_host(url).unwrap_err().starts_with("unrecognized repository URL"), "{url}");
    }
    assert_eq!(forge_host("ssh://git@h/o/r"), Ok("h".to_string()));
    assert_eq!(forge_host("ssh://h:22/o/r"), Ok("h".to_string()));
}

#[test]
fn gitlab_block_open_pr_uses_gitlab_api_shape() {
    let cfg = Some(gitlab_block(Some("http://127.0.0.1:1234")));
    let forge = match resolve_forge(&cfg, "https://gitlab.example.com/group/proj.git") {
        Ok(Provider::Gitlab(f)) => f,
        other => panic!("gitlab block must resolve: {other:?}"),
    };
    let request = forge.open_pr("group", "proj", "agent-q", "main", "t", "b", &None, false);
    assert_eq!(request.method, Method::Post);
    assert_eq!(request.url, "http://127.0.0.1:1234/projects/group%2Fproj/merge_requests");
    let answer = Answer::Came(Ok((1, "u")));
    assert_eq!(settle(Call::OpenMr, "group/proj", answer), Ok((1, "u")));
}
