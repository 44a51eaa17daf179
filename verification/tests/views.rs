use github_notifications::config::{RepoSet, Workspace};
use github_notifications::db::{
    thread_repo, Database, InboxItem, Param, QueueItem, RepoItem, Statement, SCHEMA,
};
use github_notifications::html::escape;
use github_notifications::models::{
    GithubIssue, GithubUser, NotificationThread, ThreadRepository, ThreadSubject,
};
use github_notifications::sync::repos::IssueKind;
use github_notifications::sync::subscriptions::SubscriptionState;
use github_notifications::views::{
    filter_value, inbox_statement, queue_statement, render_inbox, render_queue, render_repos,
    render_settings, repo_set_names, repos_for_filter, repos_statement, resolve_workspace,
    InboxParams, QueueParams, RepoParams,
};
use rusqlite::types::Value as Sql;

struct Cache {
    conn: rusqlite::Connection,
}

impl Cache {
    fn new() -> Self {
        let conn = rusqlite::Connection::open_in_memory().expect("open");
        conn.execute_batch(SCHEMA).expect("schema");
        Cache { conn }
    }

    fn rows(&self, s: &Statement, columns: usize) -> Vec<Vec<Sql>> {
        let values: Vec<Sql> = s
            .params
            .iter()
            .map(|p| match p {
                Param::Null => Sql::Null,
                Param::Text(t) => Sql::Text(t.clone()),
                Param::Integer(n) => Sql::Integer(*n),
                Param::Unsigned(n) => Sql::Integer(*n as i64),
                Param::Flag(b) => Sql::Integer(*b as i64),
            })
            .collect();
        let mut stmt = self.conn.prepare(&s.sql).expect("prepare");
        let mut rows = stmt
            .query(rusqlite::params_from_iter(values))
            .expect("query");
        let mut out = Vec::new();
        while let Some(row) = rows.next().expect("row") {
            out.push((0..columns).map(|i| row.get(i).expect("column")).collect());
        }
        out
    }

    fn upsert_repo(&self, full_name: &str, html_url: &str) -> i64 {
        number(&self.rows(&Database::upsert_repo(full_name, Some(html_url)), 1)[0][0])
    }

    fn upsert_issue(&self, repo_id: i64, issue: &GithubIssue) {
        self.rows(
            &Database::upsert_issue(repo_id, issue, IssueKind::Issue, &None),
            0,
        );
    }

    fn queue(&self, ws: &Workspace, q: &QueueParams) -> String {
        let items = self
            .rows(&queue_statement(ws, q), 12)
            .iter()
            .map(|r| {
                QueueItem::from_row(
                    number(&r[0]),
                    text(&r[1]),
                    text(&r[2]),
                    number(&r[3]),
                    text(&r[4]),
                    text(&r[5]),
                    text(&r[6]),
                    text(&r[7]),
                    text(&r[8]),
                    number(&r[9]),
                    opt(&r[10]),
                    opt(&r[11]),
                )
            })
            .collect();
        render_queue(ws, q, &items)
    }

    fn inbox(&self, ws: &Workspace, q: &InboxParams) -> String {
        let items = self
            .rows(&inbox_statement(ws, q), 8)
            .iter()
            .map(|r| {
                InboxItem::from_row(
                    text(&r[0]),
                    text(&r[1]),
                    text(&r[2]),
                    text(&r[3]),
                    text(&r[4]),
                    number(&r[5]),
                    text(&r[6]),
                    opt(&r[7]),
                )
            })
            .collect();
        render_inbox(ws, q, &items)
    }

    fn repos(&self, ws: &Workspace, q: &RepoParams) -> String {
        let names = ws.tracked_repos();
        let items = self
            .rows(&repos_statement(ws, q), 5)
            .iter()
            .map(|r| {
                RepoItem::from_row(
                    &names,
                    text(&r[0]),
                    text(&r[1]),
                    number(&r[2]),
                    opt(&r[3]),
                    opt(&r[4]),
                )
            })
            .collect();
        render_repos(ws, q, &items)
    }
}

fn opt(v: &Sql) -> Option<String> {
    match v {
        Sql::Text(t) => Some(t.clone()),
        _ => None,
    }
}

fn text(v: &Sql) -> String {
    opt(v).expect("text")
}

fn number(v: &Sql) -> i64 {
    match v {
        Sql::Integer(n) => *n,
        other => panic!("not a number: {other:?}"),
    }
}

fn an_issue(id: u64, number: u64, title: &str, full: &str) -> GithubIssue {
    GithubIssue {
        id,
        number,
        title: title.into(),
        state: "open".into(),
        user: Some(GithubUser { login: "a".into() }),
        created_at: "2026-01-01T00:00:00Z".into(),
        updated_at: "2026-01-02T00:00:00Z".into(),
        closed_at: None,
        html_url: format!("https://github.com/{full}/issues/{number}"),
        url: format!("https://api.github.com/repos/{full}/issues/{number}"),
        pull_request: None,
    }
}

fn seed(db: &Cache) {
    let repo_id = db.upsert_repo("o/r", "https://github.com/o/r");
    db.upsert_issue(repo_id, &an_issue(1, 3, "an open issue", "o/r"));
    let thread = NotificationThread {
        id: "1:111".into(),
        unread: true,
        reason: "mention".into(),
        updated_at: "2026-01-03T00:00:00Z".into(),
        last_read_at: None,
        subject: ThreadSubject {
            title: "an open issue".into(),
            kind: "Issue".into(),
            url: Some("https://api.github.com/repos/o/r/issues/3".into()),
            latest_comment_url: None,
        },
        repository: Some(ThreadRepository {
            full_name: "o/r".into(),
            html_url: "https://github.com/o/r".into(),
        }),
        url: "https://api.github.com/notifications/threads/111".into(),
    };
    assert!(thread_repo(&thread).is_some());
    db.rows(&Database::upsert_thread(&thread, repo_id), 0);
}

fn set(name: &str, repos: &[&str]) -> RepoSet {
    RepoSet {
        name: name.into(),
        repos: repos.iter().map(|r| r.to_string()).collect(),
    }
}

fn workspace(sets: Vec<RepoSet>) -> Workspace {
    Workspace {
        name: "w".into(),
        repo_sets: sets,
        ..Default::default()
    }
}

fn queue_params(repo_set: &str) -> QueueParams {
    QueueParams {
        ws: "w".into(),
        repo_set: repo_set.into(),
        kind: "all".into(),
        unread: false,
        q: String::new(),
        sort: "attention".into(),
    }
}

fn inbox_params() -> InboxParams {
    InboxParams {
        ws: "w".into(),
        repo_set: "all".into(),
        subject_type: "all".into(),
        reason: "all".into(),
        unread: false,
        sort: "updated".into(),
    }
}

#[test]
fn queue_renders_rows() {
    let db = Cache::new();
    seed(&db);
    let ws = workspace(vec![set("s", &["o/r"])]);
    let html = db.queue(&ws, &queue_params("all"));
    assert!(html.contains("an open issue"));
    assert!(html.contains("o/r"));
    assert!(html.contains("class=\"unread\""));
}

#[test]
fn queue_filters_by_repo_set() {
    let db = Cache::new();
    // Seed two repos in two repo sets.
    for (full, n) in [("a/r", 1u64), ("b/r", 2)] {
        let repo_id = db.upsert_repo(full, &format!("https://github.com/{full}"));
        db.upsert_issue(repo_id, &an_issue(n, n, &format!("issue {n}"), full));
    }
    let ws = workspace(vec![set("set-a", &["a/r"]), set("set-b", &["b/r"])]);
    // Only set-a's repo.
    let html = db.queue(&ws, &queue_params("set-a"));
    assert!(html.contains("issue 1"));
    assert!(!html.contains("issue 2"));
    // Only set-b's repo.
    let html = db.queue(&ws, &queue_params("set-b"));
    assert!(html.contains("issue 2"));
    assert!(!html.contains("issue 1"));
    // "all" shows both.
    let html = db.queue(&ws, &queue_params("all"));
    assert!(html.contains("issue 1") && html.contains("issue 2"));
    // A set that does not exist has no repos.
    let html = db.queue(&ws, &queue_params("set-c"));
    assert!(html.contains("No items match your filters"));
}

#[test]
fn queue_renders_empty_state() {
    let db = Cache::new();
    let ws = workspace(vec![set("s", &["o/r"])]);
    let html = db.queue(&ws, &queue_params("all"));
    assert!(html.contains("No items match your filters"));
}

#[test]
fn queue_narrows_to_unread() {
    let db = Cache::new();
    seed(&db);
    let repo = db.upsert_repo("o/r", "https://github.com/o/r");
    db.upsert_issue(repo, &an_issue(2, 4, "a quiet issue", "o/r"));
    let ws = workspace(vec![set("s", &["o/r"])]);
    let mut params = queue_params("all");
    let html = db.queue(&ws, &params);
    assert!(html.contains("a quiet issue"));
    params.unread = true;
    let html = db.queue(&ws, &params);
    assert!(html.contains("an open issue"));
    assert!(!html.contains("a quiet issue"));
    assert!(html.contains("value=\"true\" checked"));
    params.unread = false;
    params.q = "quiet".into();
    let html = db.queue(&ws, &params);
    assert!(!html.contains("an open issue"));
    assert!(html.contains("a quiet issue"));
    params.q = String::new();
    params.kind = "pr".into();
    assert!(db
        .queue(&ws, &params)
        .contains("No items match your filters"));
}

#[test]
fn inbox_renders_rows() {
    let db = Cache::new();
    seed(&db);
    let ws = workspace(vec![set("s", &["o/r"])]);
    let html = db.inbox(&ws, &inbox_params());
    assert!(html.contains("an open issue"));
    assert!(html.contains("mention"));
    assert!(html.contains("href=\"https://github.com/o/r/issues/3\""));
    let mut other = inbox_params();
    other.reason = "assign".into();
    assert!(db.inbox(&ws, &other).contains("No items match"));
    other.reason = "mention".into();
    other.unread = true;
    other.sort = "repo".into();
    assert!(db.inbox(&ws, &other).contains("an open issue"));
}

#[test]
fn queue_filter_controls_are_htmx_wired() {
    let db = Cache::new();
    seed(&db);
    let ws = workspace(vec![set("s", &["o/r"])]);
    let html = db.queue(&ws, &queue_params("all"));
    // Repo set, kind, unread checkbox, and sort all reload on `change`.
    assert_eq!(html.matches(r#"hx-trigger="change""#).count(), 4);
    assert!(html.contains(r#"hx-get="/api/views/queue""#));
    assert!(html.contains(r#"hx-include="closest form""#));
    // The unread checkbox must submit a value that reads as a `bool`.
    assert!(html.contains(r#"name="unread" value="true""#));
}

#[test]
fn inbox_filter_controls_are_htmx_wired() {
    let db = Cache::new();
    seed(&db);
    let ws = workspace(vec![set("s", &["o/r"])]);
    let html = db.inbox(&ws, &inbox_params());
    // Repo set, type, reason, unread checkbox, and sort all reload on `change`.
    assert_eq!(html.matches(r#"hx-trigger="change""#).count(), 5);
    assert!(html.contains(r#"hx-get="/api/views/inbox""#));
    assert!(html.contains(r#"hx-include="closest form""#));
    assert!(html.contains(r#"name="unread" value="true""#));
}

#[test]
fn settings_empty_state_renders_em_dash() {
    let ws = Workspace {
        name: "w".into(),
        repo_sets: vec![],
        ..Default::default()
    };
    let html = render_settings(&ws);
    // Regression: a literal `\u2014` in the template was rendered as text.
    assert!(!html.contains(r"\u2014"));
    assert!(html.contains("&mdash;"));
}

#[test]
fn settings_list_the_repo_sets() {
    let html = render_settings(&workspace(vec![set("mine", &["a/r", "b/r"])]));
    assert!(!html.contains("&mdash;"));
    assert!(html.contains("<h3>mine</h3>"));
    assert!(html.contains("<li>a/r<button") && html.contains("<li>b/r<button"));
}

#[test]
fn repos_renders_subscription_badges() {
    let db = Cache::new();
    for (full, watched, state) in [
        ("a/w", true, SubscriptionState::Watched),
        ("a/i", false, SubscriptionState::Ignored),
        ("a/p", false, SubscriptionState::Participating),
    ] {
        db.upsert_repo(full, &format!("https://github.com/{full}"));
        db.rows(&Database::set_repo_watched(full, watched), 0);
        db.rows(&Database::set_repo_subscription_state(full, state), 0);
    }
    let ws = workspace(vec![set("s", &["a/w", "a/i", "a/p"])]);
    let params = |show: &str| RepoParams {
        ws: "w".into(),
        show: show.into(),
        q: String::new(),
    };
    let html = db.repos(&ws, &params("all"));
    assert!(html.contains("class=\"badge ok\">watched"));
    assert!(html.contains("class=\"badge ignored\">ignored"));
    assert!(html.contains("class=\"badge\">participating"));
    // The ignored filter option is present.
    assert!(html.contains("value=\"ignored\""));
    let html = db.repos(&ws, &params("ignored"));
    assert!(html.contains("a/i") && !html.contains("a/p") && !html.contains("a/w"));
}

#[test]
fn filters_read_all_as_none() {
    assert_eq!(filter_value(""), None);
    assert_eq!(filter_value("all"), None);
    assert_eq!(filter_value("pr"), Some("pr"));
    let ws = workspace(vec![set("x", &["b/b", "a/a", ""]), set("y", &["a/a"])]);
    assert_eq!(repos_for_filter(&ws, ""), vec!["a/a", "b/b"]);
    assert_eq!(repos_for_filter(&ws, "all"), vec!["a/a", "b/b"]);
    assert_eq!(repos_for_filter(&ws, "x"), vec!["b/b", "a/a", ""]);
    assert!(repos_for_filter(&ws, "z").is_empty());
    assert_eq!(repo_set_names(&ws), vec!["x", "y"]);
}

#[test]
fn text_is_escaped() {
    assert_eq!(
        escape("<a href=\"x\">&'</a>"),
        "&#60;a href=&#34;x&#34;&#62;&#38;&#39;&#60;/a&#62;"
    );
    let html = render_settings(&workspace(vec![set("<b>", &["\"x\"/y"])]));
    assert!(html.contains("<h3>&#60;b&#62;</h3>"));
    assert!(html.contains("<li>&#34;x&#34;/y<button"));
}

#[test]
fn unknown_workspaces_fall_back() {
    let mut config = github_notifications::config::Config::default();
    assert_eq!(resolve_workspace(&config, "x").name, "");
    config.workspaces = vec![workspace(vec![]), workspace(vec![set("s", &[])])];
    config.workspaces[1].name = "v".into();
    assert_eq!(resolve_workspace(&config, "x").name, "w");
    assert_eq!(resolve_workspace(&config, "v").repo_sets.len(), 1);
}
