use github_notifications::db::{
    default_data_dir, in_clause, split_repo, subject_html_url, Database, InboxFilter, InboxItem,
    Param, QueueFilter, RepoFilter, Statement, SCHEMA,
};
use github_notifications::models::{GithubIssue, GithubUser};
use github_notifications::sync::repos::IssueKind;
use rusqlite::types::Value as Sql;

fn open() -> rusqlite::Connection {
    let conn = rusqlite::Connection::open_in_memory().expect("open");
    conn.execute_batch(SCHEMA).expect("schema");
    conn
}

fn values(s: &Statement) -> Vec<Sql> {
    s.params
        .iter()
        .map(|p| match p {
            Param::Null => Sql::Null,
            Param::Text(t) => Sql::Text(t.clone()),
            Param::Integer(n) => Sql::Integer(*n),
            Param::Unsigned(n) => Sql::Integer(*n as i64),
            Param::Flag(b) => Sql::Integer(*b as i64),
        })
        .collect()
}

fn run(conn: &rusqlite::Connection, s: &Statement) -> usize {
    conn.execute(&s.sql, rusqlite::params_from_iter(values(s)))
        .expect("execute")
}

fn first(conn: &rusqlite::Connection, s: &Statement) -> Option<Sql> {
    let mut stmt = conn.prepare(&s.sql).expect("prepare");
    let mut rows = stmt
        .query(rusqlite::params_from_iter(values(s)))
        .expect("query");
    rows.next()
        .expect("row")
        .map(|r| r.get(0).expect("column"))
}

fn column(conn: &rusqlite::Connection, s: &Statement) -> Vec<Sql> {
    let mut stmt = conn.prepare(&s.sql).expect("prepare");
    let mut rows = stmt
        .query(rusqlite::params_from_iter(values(s)))
        .expect("query");
    let mut out = Vec::new();
    while let Some(r) = rows.next().expect("row") {
        out.push(r.get(0).expect("column"));
    }
    out
}

fn strings(list: &[&str]) -> Vec<String> {
    list.iter().map(|s| s.to_string()).collect()
}

#[test]
fn open_creates_schema() {
    let conn = open();
    // Initializing an existing database is harmless.
    conn.execute_batch(SCHEMA).expect("schema again");
}

#[test]
fn sync_state_round_trip() {
    let conn = open();
    assert_eq!(first(&conn, &Database::get_sync_state("last_sync")), None);
    run(
        &conn,
        &Database::set_sync_state("last_sync", "2026-01-01T00:00:00Z"),
    );
    assert_eq!(
        first(&conn, &Database::get_sync_state("last_sync")),
        Some(Sql::Text("2026-01-01T00:00:00Z".into()))
    );
    run(&conn, &Database::set_sync_state("last_sync", "later"));
    assert_eq!(
        first(&conn, &Database::get_sync_state("last_sync")),
        Some(Sql::Text("later".into()))
    );
}

#[test]
fn data_dir_respects_env_override() {
    assert_eq!(
        default_data_dir(Some("/tmp/custom".into()), Some("/x".into()), None),
        "/tmp/custom"
    );
    assert_eq!(
        default_data_dir(None, Some("/x".into()), Some("/home/u".into())),
        "/x/github-notifications"
    );
    assert_eq!(
        default_data_dir(None, None, Some("/home/u/".into())),
        "/home/u/.local/share/github-notifications"
    );
    assert_eq!(default_data_dir(None, None, None), "data");
}

#[test]
fn schema_tables_exist() {
    let conn = open();
    let tables = column(
        &conn,
        &Statement {
            sql: "SELECT name FROM sqlite_master WHERE type = 'table'".into(),
            params: vec![],
        },
    );
    for expected in ["repos", "issues", "threads", "sync_state"] {
        assert!(
            tables.iter().any(|t| *t == Sql::Text(expected.into())),
            "missing table {expected}"
        );
    }
}

#[test]
fn placeholders_are_numbered() {
    assert_eq!(in_clause(0), "()");
    assert_eq!(in_clause(1), "(?1)");
    assert_eq!(in_clause(3), "(?1,?2,?3)");
    assert!(in_clause(12).ends_with(",?10,?11,?12)"));
    assert_eq!(in_clause(12).matches('?').count(), 12);
}

#[test]
fn repos_are_split_at_the_slash() {
    assert_eq!(split_repo("o/r"), ("o", "r"));
    assert_eq!(split_repo("o/r/x"), ("o", "r/x"));
    assert_eq!(split_repo("alone"), ("", "alone"));
}

#[test]
fn subject_urls_become_pages() {
    let url = |s: &str| subject_html_url(&Some(s.to_string()));
    assert_eq!(
        url("https://api.github.com/repos/o/r/pulls/7").as_deref(),
        Some("https://github.com/o/r/pull/7")
    );
    assert_eq!(
        url("https://api.github.com/repos/o/r/commits/abc").as_deref(),
        Some("https://github.com/o/r/commit/abc")
    );
    assert_eq!(
        url("https://api.github.com/repos/o/r/issues/3/x").as_deref(),
        Some("https://github.com/o/r/issues/3/x")
    );
    assert_eq!(url("https://api.github.com/repos/o/r/issues"), None);
    assert_eq!(url("https://example.com/repos/o/r/issues/3"), None);
    assert_eq!(subject_html_url(&None), None);
}

#[test]
fn inbox_rows_carry_their_page() {
    let item = InboxItem::from_row(
        "1".into(),
        "o/r".into(),
        "PullRequest".into(),
        "t".into(),
        "mention".into(),
        1,
        "2026".into(),
        Some("https://api.github.com/repos/o/r/pulls/7".into()),
    );
    assert!(item.unread);
    assert_eq!(
        item.subject_html_url.as_deref(),
        Some("https://github.com/o/r/pull/7")
    );
}

#[test]
fn queue_query_is_exact() {
    let repos = strings(&["a/b", "c/d"]);
    let s = Database::list_queue(&QueueFilter {
        repos: &repos,
        kind: Some("pr"),
        unread_only: true,
        search: Some("fix"),
        sort: "repo",
    });
    assert!(s.sql.contains(" AND r.full_name IN (?1,?2) AND i.kind = ?"));
    assert!(s.sql.contains("AND t.unread = 1)"));
    assert!(s
        .sql
        .ends_with(" AND i.title LIKE ? ORDER BY r.full_name, i.number DESC"));
    assert_eq!(
        values(&s),
        vec![
            Sql::Text("a/b".into()),
            Sql::Text("c/d".into()),
            Sql::Text("pr".into()),
            Sql::Text("%fix%".into()),
        ]
    );
    let plain = |sort: &'static str| {
        Database::list_queue(&QueueFilter {
            repos: &[],
            kind: None,
            unread_only: false,
            search: Some(""),
            sort,
        })
        .sql
    };
    assert!(plain("updated").ends_with("IN () ORDER BY i.updated_at DESC"));
    assert!(plain("created").ends_with(" ORDER BY i.created_at DESC"));
    assert!(plain("attention")
        .ends_with(" ORDER BY COALESCE(thread_updated, i.updated_at) DESC"));
}

#[test]
fn inbox_and_repos_queries_are_exact() {
    let repos = strings(&["a/b"]);
    let s = Database::list_inbox(&InboxFilter {
        repos: &repos,
        subject_type: Some("Issue"),
        reason: Some("all"),
        unread_only: true,
        sort: "updated",
    });
    assert!(s.sql.ends_with(
        " AND r.full_name IN (?1) AND t.unread = 1 AND t.subject_type = ? ORDER BY t.updated_at DESC"
    ));
    assert_eq!(s.params.len(), 2);
    let s = Database::list_repos(&RepoFilter {
        workspace_repos: &repos,
        show: "untracked",
        search: Some("x"),
    });
    assert!(s.sql.ends_with(
        " OR r.full_name IN (?1)) AND r.is_watched = 0 AND r.full_name LIKE ? ORDER BY r.full_name"
    ));
    let s = Database::list_repos(&RepoFilter {
        workspace_repos: &[],
        show: "watched",
        search: None,
    });
    assert!(s
        .sql
        .ends_with("(r.is_watched = 1) AND r.is_watched = 1 ORDER BY r.full_name"));
}

fn issue(number: u64, url: &str) -> GithubIssue {
    GithubIssue {
        id: number,
        number,
        title: format!("issue {number}"),
        state: "open".into(),
        user: Some(GithubUser { login: "a".into() }),
        created_at: "2026-01-01T00:00:00Z".into(),
        updated_at: "2026-01-02T00:00:00Z".into(),
        closed_at: None,
        html_url: "h".into(),
        url: url.into(),
        pull_request: None,
    }
}

#[test]
fn stale_issues_are_deleted() {
    let conn = open();
    let Some(Sql::Integer(repo)) = first(&conn, &Database::upsert_repo("o/r", Some("u"))) else {
        panic!("no row id");
    };
    let Some(Sql::Integer(other)) = first(&conn, &Database::upsert_repo("o/s", None)) else {
        panic!("no row id");
    };
    for (id, n, url) in [(repo, 1, "one"), (repo, 2, "two"), (other, 3, "three")] {
        run(
            &conn,
            &Database::upsert_issue(id, &issue(n, url), IssueKind::Issue, &None),
        );
    }
    run(
        &conn,
        &Database::delete_stale_issues_not_in(repo, &strings(&["two"])),
    );
    let left = Statement {
        sql: "SELECT api_url FROM issues ORDER BY api_url".into(),
        params: vec![],
    };
    assert_eq!(
        column(&conn, &left),
        vec![Sql::Text("three".into()), Sql::Text("two".into())]
    );
    run(&conn, &Database::delete_stale_issues_not_in(repo, &[]));
    assert_eq!(column(&conn, &left), vec![Sql::Text("three".into())]);
    // The same issue again is the same row.
    let api_url = |id: i64| first(&conn, &Database::issue_api_url(id));
    run(
        &conn,
        &Database::upsert_issue(other, &issue(3, "moved"), IssueKind::Issue, &None),
    );
    assert_eq!(column(&conn, &left), vec![Sql::Text("moved".into())]);
    assert_eq!(api_url(3), Some(Sql::Text("moved".into())));
    assert_eq!(api_url(99), None);
}

#[test]
fn unread_flags_are_set_in_bulk() {
    let conn = open();
    let Some(Sql::Integer(repo)) = first(&conn, &Database::upsert_repo("o/r", None)) else {
        panic!("no row id");
    };
    for id in ["1", "2", "3"] {
        run(
            &conn,
            &Statement {
                sql: "INSERT INTO threads (thread_id, repo_id, subject_type, api_url, subject_api_url) VALUES (?1, ?2, 'PullRequest', 'a', 's')"
                    .into(),
                params: vec![Param::Text(id.into()), Param::Integer(repo)],
            },
        );
    }
    let unread = || first(&conn, &Database::unread_thread_count());
    assert_eq!(unread(), Some(Sql::Integer(3)));
    assert_eq!(column(&conn, &Database::get_unread_pr_threads()).len(), 3);
    let s = Database::set_threads_unread(&strings(&["1", "2"]), false).expect("statement");
    assert!(s.sql.starts_with("UPDATE threads SET unread = ?3 WHERE"));
    run(&conn, &s);
    assert_eq!(unread(), Some(Sql::Integer(1)));
    assert!(Database::set_threads_unread(&[], false).is_none());
    assert!(Database::set_unread_for_repos(&[], false).is_none());
    let s = Database::set_unread_for_repos(&strings(&["o/r"]), true).expect("statement");
    run(&conn, &s);
    assert_eq!(unread(), Some(Sql::Integer(3)));
    run(&conn, &Database::set_thread_unread("3", false));
    assert_eq!(unread(), Some(Sql::Integer(2)));
    assert_eq!(
        column(&conn, &Database::threads_for_subject("s")).len(),
        3
    );
    run(&conn, &Database::delete_threads(&strings(&["1", "3"])));
    assert_eq!(first(&conn, &Database::thread_api_url("1")), None);
    assert_eq!(
        first(&conn, &Database::thread_api_url("2")),
        Some(Sql::Text("a".into()))
    );
}
