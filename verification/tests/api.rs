use github_notifications::api::{
    after_validation, auth_state, ensure_success, error_body, full_name, mark_request, mute_path,
    needs_validation, org_repos, org_repos_request, provider_name, push_thread_ids, state_response, sync_state, sync_status_response,
    watch_path, MarkPass, MarkRequest,
};
use github_notifications::config::{AuthProvider, Config, RepoSet, Workspace};
use github_notifications::github::Validation;
use github_notifications::http::{StatusCode, Target};
use github_notifications::db::{Database, Param, Statement, SCHEMA};
use github_notifications::models::{
    GithubIssue, GithubUser, NotificationThread, ThreadRepository, ThreadSubject, WatchedRepo,
};
use github_notifications::sync::engine::SyncStatus;
use github_notifications::sync::repos::IssueKind;
use rusqlite::types::Value as Sql;

// ---- a cache in memory ----------------------------------------------------

fn open() -> rusqlite::Connection {
    let conn = rusqlite::Connection::open_in_memory().expect("open");
    conn.execute_batch(SCHEMA).expect("schema");
    conn
}

/// Runs a statement and gives its rows, of which the first `width` columns.
fn rows(conn: &rusqlite::Connection, s: &Statement, width: usize) -> Vec<Vec<Sql>> {
    let params: Vec<Sql> = s
        .params
        .iter()
        .map(|p| match p {
            Param::Null => Sql::Null,
            Param::Text(t) => Sql::Text(t.clone()),
            Param::Integer(n) => Sql::Integer(*n),
            Param::Unsigned(n) => Sql::Integer(*n as i64),
            Param::Flag(b) => Sql::Integer(*b as i64),
        })
        .collect();
    let mut stmt = conn.prepare(&s.sql).expect("prepare");
    let mut found = stmt
        .query(rusqlite::params_from_iter(params))
        .expect("query");
    let mut out = Vec::new();
    while let Some(row) = found.next().expect("row") {
        out.push((0..width).map(|i| row.get(i).expect("column")).collect());
    }
    out
}

fn number(conn: &rusqlite::Connection, s: &Statement) -> i64 {
    match rows(conn, s, 1)[0][0] {
        Sql::Integer(n) => n,
        ref other => panic!("{other:?}"),
    }
}

fn text(v: &Sql) -> String {
    match v {
        Sql::Text(t) => t.clone(),
        other => panic!("{other:?}"),
    }
}

fn one_text(conn: &rusqlite::Connection, s: &Statement) -> Option<String> {
    rows(conn, s, 1).first().map(|r| text(&r[0]))
}

fn upsert_repo(conn: &rusqlite::Connection) -> i64 {
    number(conn, &Database::upsert_repo("o/r", Some("https://github.com/o/r")))
}

fn code(n: u16) -> StatusCode {
    StatusCode::from_u16(n).expect("status")
}

#[test]
fn state_endpoint_reports_config() {
    let validation = Validation {
        login: Some("octocat".into()),
        scopes: vec!["notifications".into(), "repo".into()],
        missing: Vec::new(),
        sso_hint: None,
        ok: true,
        message: None,
    };
    let mut config = Config::default();
    config.workspaces.push(Workspace {
        name: "personal".into(),
        ..Default::default()
    });
    let state = state_response(
        "0.1.0",
        &config,
        true,
        &Some(validation),
        &SyncStatus::default(),
        Some("stored".into()),
    );
    assert_eq!(state.version, "0.1.0");
    assert_eq!(state.workspaces[0].name, "personal");
    assert_eq!(state.sync.last_sync.as_deref(), Some("stored"));
    let auth = state.auth;
    assert_eq!(auth.provider, "pat");
    assert_eq!(auth.authenticated, true);
    assert_eq!(auth.login.as_deref(), Some("octocat"));
    assert_eq!(auth.ok, true);
    assert_eq!(auth.scopes.len(), 2);

    let auth = auth_state(AuthProvider::OAuthDevice, false, &None);
    assert_eq!(auth.provider, "oauth-device");
    assert!(!auth.ok && auth.login.is_none() && auth.scopes.is_empty());
    assert_eq!(provider_name(AuthProvider::GhToken), "gh-token");
}

#[test]
fn a_validation_is_fetched_once() {
    let found = |login: &str| {
        Some(Validation {
            login: Some(login.into()),
            scopes: Vec::new(),
            missing: Vec::new(),
            sso_hint: None,
            ok: true,
            message: None,
        })
    };
    assert!(needs_validation(&None));
    assert!(!needs_validation(&found("a")));
    let login = |v: Option<Validation>| v.and_then(|v| v.login);
    assert_eq!(login(after_validation(found("a"), found("b"))).as_deref(), Some("a"));
    assert_eq!(login(after_validation(None, found("b"))).as_deref(), Some("b"));
    // A failure is not remembered.
    let failed = after_validation(None, None);
    assert!(needs_validation(&failed));
}

#[test]
fn sync_state_falls_back_to_the_cache() {
    let mut status = SyncStatus::default();
    assert_eq!(
        sync_state(&status, Some("stored".into())).last_sync.as_deref(),
        Some("stored")
    );
    let response = sync_status_response(&status, &None, None);
    assert!(!response.populated);
    let response = sync_status_response(&status, &Some("stored".into()), Some("r".into()));
    assert!(response.populated);
    assert_eq!(response.last_sync, None);
    assert_eq!(response.rebuild.as_deref(), Some("r"));
    status.last_sync = Some("live".into());
    assert_eq!(
        sync_state(&status, Some("stored".into())).last_sync.as_deref(),
        Some("live")
    );
    assert!(sync_status_response(&status, &None, None).populated);
}

#[test]
fn issues_mark_read_calls_github_and_updates_local() {
    let conn = open();
    let repo_id = upsert_repo(&conn);
    let issue = GithubIssue {
        id: 1,
        number: 3,
        title: "t".into(),
        state: "open".into(),
        user: Some(GithubUser { login: "a".into() }),
        created_at: "2026-01-01T00:00:00Z".into(),
        updated_at: "2026-01-01T00:00:00Z".into(),
        closed_at: None,
        html_url: "https://github.com/o/r/issues/3".into(),
        url: "https://api.github.com/repos/o/r/issues/3".into(),
        pull_request: None,
    };
    rows(
        &conn,
        &Database::upsert_issue(repo_id, &issue, IssueKind::Issue, &None),
        0,
    );
    let thread = NotificationThread {
        id: "1:111".into(),
        unread: true,
        reason: "mention".into(),
        updated_at: "2026-01-02T00:00:00Z".into(),
        last_read_at: None,
        subject: ThreadSubject {
            title: "t".into(),
            kind: "Issue".into(),
            url: Some("https://api.github.com/repos/o/r/issues/3".into()),
            latest_comment_url: None,
        },
        repository: Some(ThreadRepository {
            full_name: "o/r".into(),
            html_url: "https://github.com/o/r".into(),
        }),
        url: "https://api.github.com/notifications/threads/111".into(),
    };
    rows(&conn, &Database::upsert_thread(&thread, repo_id), 0);
    assert_eq!(number(&conn, &Database::unread_thread_count()), 1);
    let issue_id: i64 = conn
        .query_row("SELECT id FROM issues WHERE number = 3", [], |r| r.get(0))
        .expect("issue id");

    let url = one_text(&conn, &Database::issue_api_url(issue_id)).expect("url");
    let threads = rows(&conn, &Database::threads_for_subject(&url), 2);
    let mut ids = Vec::new();
    push_thread_ids(
        &mut ids,
        threads.iter().map(|r| (text(&r[0]), text(&r[1]))).collect(),
    );
    let mut pass = MarkPass::new(ids);
    let mut patched = Vec::new();
    while let Some(id) = pass.current().map(str::to_string) {
        let url = one_text(&conn, &Database::thread_api_url(&id));
        if let Some(path) = pass.on_url(&url) {
            patched.push(path);
            if let Some(read) = pass.on_status(code(205)) {
                rows(&conn, &Database::set_thread_unread(&read, false), 0);
            }
        }
    }
    assert_eq!(patched, vec!["/notifications/threads/111"]);
    assert_eq!(number(&conn, &Database::unread_thread_count()), 0);
}

#[test]
fn marking_skips_what_cannot_be_marked() {
    let mut ids = Vec::new();
    push_thread_ids(
        &mut ids,
        vec![
            ("1:111".into(), "https://api.github.com/notifications/threads/111".into()),
            ("unknown".into(), "x".into()),
        ],
    );
    push_thread_ids(&mut ids, vec![("3:333".into(), "y".into())]);
    assert_eq!(ids, vec!["1:111", "unknown", "3:333"]);

    let mut pass = MarkPass::new(ids);
    assert_eq!(pass.current(), Some("1:111"));
    assert_eq!(
        pass.on_url(&Some(
            "https://api.github.com/notifications/threads/111".into()
        ))
        .as_deref(),
        Some("/notifications/threads/111")
    );
    assert_eq!(pass.on_status(code(205)).as_deref(), Some("1:111"));
    // A thread that the cache does not know is skipped.
    assert_eq!(pass.current(), Some("unknown"));
    assert_eq!(pass.on_url(&None), None);
    // One that GitHub refuses is not marked locally.
    assert_eq!(pass.current(), Some("3:333"));
    assert!(pass.on_url(&Some("y".into())).is_some());
    assert_eq!(pass.on_status(code(500)), None);
    assert_eq!(pass.current(), None);
    assert_eq!(pass.count(), 1);
    // Nothing happens after the end.
    assert_eq!(pass.on_url(&Some("z".into())), None);
    assert_eq!(pass.on_status(code(205)), None);
    assert_eq!(pass.count(), 1);
}

#[test]
fn marking_all_covers_the_workspace() {
    let ws = Workspace {
        name: "w".into(),
        repo_sets: vec![RepoSet {
            name: "s".into(),
            repos: vec!["b/b".into(), "a/a".into()],
        }],
        ..Default::default()
    };
    match mark_request(Some(true), Some(vec!["1".into()]), &ws) {
        MarkRequest::All(repos) => assert_eq!(repos, vec!["a/a", "b/b"]),
        other => panic!("{other:?}"),
    }
    for all in [None, Some(false)] {
        match mark_request(all, Some(vec!["1".into()]), &ws) {
            MarkRequest::Ids(ids) => assert_eq!(ids, vec!["1"]),
            other => panic!("{other:?}"),
        }
    }
    match mark_request(None, None, &ws) {
        MarkRequest::Ids(ids) => assert!(ids.is_empty()),
        other => panic!("{other:?}"),
    }
}

#[test]
fn repo_watch_and_unwatch_update_local_flag() {
    let conn = open();
    upsert_repo(&conn);
    for (watched, flag) in [(true, 1i64), (false, 0)] {
        assert_eq!(watch_path("o", "r"), "/user/subscriptions/o/r");
        assert_eq!(ensure_success(code(204), "watch repo"), Ok(()));
        rows(
            &conn,
            &Database::set_repo_watched(&full_name("o", "r"), watched),
            0,
        );
        let stored: i64 = conn
            .query_row(
                "SELECT is_watched FROM repos WHERE full_name='o/r'",
                [],
                |r| r.get(0),
            )
            .expect("watched");
        assert_eq!(stored, flag);
    }
}

#[test]
fn refused_actions_are_reported() {
    assert_eq!(
        ensure_success(code(404), "watch repo"),
        Err("watch repo returned 404 Not Found".to_string())
    );
    assert_eq!(
        mute_path("https://api.github.com/notifications/threads/9"),
        "/notifications/threads/9/subscription"
    );
}

#[test]
fn errors_are_quoted() {
    assert_eq!(error_body("a \"b\""), "{\"error\":\"a \\\"b\\\"\"}");
}

#[test]
fn org_repos_browses_and_filters() {
    let request = org_repos_request("o", None);
    match &request.target {
        Target::Path(p) => assert_eq!(p, "/orgs/o/repos"),
        other => panic!("{other:?}"),
    }
    assert_eq!(
        request.query,
        vec![
            ("per_page".to_string(), "100".to_string()),
            ("page".to_string(), "1".to_string())
        ]
    );
    assert_eq!(org_repos_request("o", Some(0)).query[1].1, "1");
    assert_eq!(org_repos_request("o", Some(12)).query[1].1, "12");

    let repo = |n: &str| WatchedRepo {
        full_name: n.into(),
        html_url: format!("https://github.com/{n}"),
    };
    let link = Some("<https://api.github.com/orgs/o/repos?page=2>; rel=\"next\"".to_string());
    let page = org_repos(vec![repo("o/repo-a"), repo("o/repo-b")], "repo-a", &link);
    assert!(page.has_more);
    assert_eq!(page.repos.len(), 1);
    assert_eq!(page.repos[0].full_name, "o/repo-a");
    let page = org_repos(vec![repo("o/repo-a"), repo("o/repo-b")], "", &None);
    assert!(!page.has_more);
    assert_eq!(page.repos.len(), 2);
}
