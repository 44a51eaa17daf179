use std::cell::RefCell;
use std::collections::HashMap;

use github_notifications::config::{Config, GithubConfig, RepoSet, Workspace};
use github_notifications::db::{Database, Param, RepoFilter, RepoItem, Statement, SCHEMA};
use github_notifications::http::{Head, Request, StatusCode, Target};
use github_notifications::models::{
    ActionsRuns, CheckRun, GithubIssue, GithubPullRequest, GithubUser, NotificationThread,
    RepoSubscription, ThreadRepository, ThreadSubject, WatchedRepo, WorkflowRun,
};
use github_notifications::sync::dismiss::{Dismissal, DismissPass, PrThread, Step};
use github_notifications::sync::engine::{
    first_failure, plan, plan_at, plan_for, repo_refresh_key, Phase, Plan, SyncEngine, SyncStatus, Trigger,
    LAST_SYNC_KEY,
};
use github_notifications::sync::paging::Next;
use github_notifications::sync::repos::{self, IssueKind, RepoSync};
use github_notifications::sync::runs::{
    parse_workflow_title, status_word_to_conclusion, RunSearch, SearchStep,
};
use github_notifications::sync::subjects::{
    self, Lookup, SubjectBody, SubjectChange, SubjectKind, SubjectState, SubjectThread,
};
use github_notifications::sync::subscriptions::{self, SubscriptionChange, SubscriptionState};
use github_notifications::sync::{notifications, watches};
use github_notifications::time::{now_utc, parse_time};
use rusqlite::types::Value as Sql;
use serde_json::Value;

// ---- a cache in memory ----------------------------------------------------

struct Cache {
    conn: rusqlite::Connection,
}

fn values(s: &Statement) -> Vec<Sql> {
    s.params
        .iter()
        .map(|p| match p {
            Param::Null => Sql::Null,
            Param::Text(t) => Sql::Text(t.clone()),
            Param::Integer(n) => Sql::Integer(*n),
            Param::Unsigned(n) => Sql::Integer(*n as i64),
            Param::Flag(b) => Sql::Integer(*b as i64),
        })
        .collect()
}

impl Cache {
    fn new() -> Self {
        let conn = rusqlite::Connection::open_in_memory().expect("open");
        conn.execute_batch(SCHEMA).expect("schema");
        Cache { conn }
    }

    fn run(&self, s: &Statement) -> usize {
        self.conn
            .execute(&s.sql, rusqlite::params_from_iter(values(s)))
            .expect("execute")
    }

    fn rows(&self, s: &Statement, columns: usize) -> Vec<Vec<Sql>> {
        let mut stmt = self.conn.prepare(&s.sql).expect("prepare");
        let mut rows = stmt
            .query(rusqlite::params_from_iter(values(s)))
            .expect("query");
        let mut out = Vec::new();
        while let Some(row) = rows.next().expect("row") {
            out.push((0..columns).map(|i| row.get(i).expect("column")).collect());
        }
        out
    }

    fn text(&self, s: &Statement) -> Option<String> {
        self.rows(s, 1).first().and_then(|r| opt(&r[0]))
    }

    fn texts(&self, s: &Statement) -> Vec<String> {
        self.rows(s, 1).iter().filter_map(|r| opt(&r[0])).collect()
    }

    fn first_number(&self, s: &Statement) -> i64 {
        number(&self.rows(s, 1)[0][0])
    }

    fn count(&self, table: &str) -> i64 {
        self.first_number(&Database::count(table))
    }

    fn upsert_repo(&self, full_name: &str, html_url: Option<&str>) -> i64 {
        self.first_number(&Database::upsert_repo(full_name, html_url))
    }

    fn upsert_thread(&self, thread: &NotificationThread) {
        if let Some(repo) = github_notifications::db::thread_repo(thread) {
            let id = self.upsert_repo(&repo.full_name, Some(&repo.html_url));
            self.run(&Database::upsert_thread(thread, id));
        }
    }

    fn is_watched(&self, full_name: &str) -> bool {
        self.rows(&Database::is_repo_watched(full_name), 1)
            .first()
            .map(|r| number(&r[0]) != 0)
            .unwrap_or(false)
    }
}

fn opt(v: &Sql) -> Option<String> {
    match v {
        Sql::Text(t) => Some(t.clone()),
        _ => None,
    }
}

fn number(v: &Sql) -> i64 {
    match v {
        Sql::Integer(n) => *n,
        other => panic!("not a number: {other:?}"),
    }
}

// ---- a GitHub on paper ----------------------------------------------------

const BASE: &str = "http://github.test";

#[derive(Clone)]
struct Reply {
    status: u16,
    etag: Option<String>,
    link: Option<String>,
    body: String,
}

fn ok(body: &str) -> Reply {
    Reply {
        status: 200,
        etag: None,
        link: None,
        body: body.to_string(),
    }
}

fn tagged(etag: &str, body: &str) -> Reply {
    Reply {
        etag: Some(etag.to_string()),
        ..ok(body)
    }
}

fn status(code: u16) -> Reply {
    Reply {
        status: code,
        ..ok("")
    }
}

struct Github {
    replies: HashMap<String, Reply>,
    calls: RefCell<Vec<String>>,
}

impl Github {
    fn new(replies: Vec<(&str, Reply)>) -> Self {
        Github {
            replies: replies
                .into_iter()
                .map(|(k, v)| (k.to_string(), v))
                .collect(),
            calls: RefCell::new(Vec::new()),
        }
    }

    fn answer(&self, path: &str, etag: &Option<String>) -> (Head, Vec<u8>) {
        self.calls.borrow_mut().push(path.to_string());
        let mut reply = self.replies.get(path).cloned().unwrap_or(status(404));
        if etag.is_some() && reply.etag == *etag {
            reply = status(304);
        }
        let head = Head {
            status: StatusCode::from_u16(reply.status).expect("status"),
            etag: reply.etag,
            link: reply.link,
        };
        (head, reply.body.into_bytes())
    }

    fn get(&self, request: &Request) -> (Head, Vec<u8>) {
        let path = match &request.target {
            Target::Path(p) => p.clone(),
            Target::Url(u) => u.strip_prefix(BASE).unwrap_or(u).to_string(),
        };
        self.answer(&path, &request.etag)
    }

    fn calls_to(&self, path: &str) -> usize {
        self.calls.borrow().iter().filter(|c| *c == path).count()
    }
}

// ---- reading payloads -----------------------------------------------------

fn text_at(v: &Value, key: &str) -> Option<String> {
    v.get(key).and_then(Value::as_str).map(str::to_string)
}

fn list<T>(body: &[u8], f: fn(&Value) -> Option<T>) -> Option<Vec<T>> {
    let v: Value = serde_json::from_slice(body).ok()?;
    v.as_array()?.iter().map(f).collect()
}

fn thread_in(v: &Value) -> Option<NotificationThread> {
    let subject = v.get("subject")?;
    Some(NotificationThread {
        id: text_at(v, "id")?,
        unread: v.get("unread")?.as_bool()?,
        reason: text_at(v, "reason")?,
        updated_at: text_at(v, "updated_at")?,
        last_read_at: text_at(v, "last_read_at"),
        subject: ThreadSubject {
            title: text_at(subject, "title")?,
            kind: text_at(subject, "type")?,
            url: text_at(subject, "url"),
            latest_comment_url: text_at(subject, "latest_comment_url"),
        },
        repository: v.get("repository").and_then(|r| {
            Some(ThreadRepository {
                full_name: text_at(r, "full_name")?,
                html_url: text_at(r, "html_url")?,
            })
        }),
        url: text_at(v, "url")?,
    })
}

fn user_in(v: &Value) -> Option<GithubUser> {
    v.get("user").and_then(|u| {
        Some(GithubUser {
            login: text_at(u, "login")?,
        })
    })
}

fn issue_in(v: &Value) -> Option<GithubIssue> {
    Some(GithubIssue {
        id: v.get("id")?.as_u64()?,
        number: v.get("number")?.as_u64()?,
        title: text_at(v, "title")?,
        state: text_at(v, "state")?,
        user: user_in(v),
        created_at: text_at(v, "created_at")?,
        updated_at: text_at(v, "updated_at")?,
        closed_at: text_at(v, "closed_at"),
        html_url: text_at(v, "html_url")?,
        url: text_at(v, "url")?,
        pull_request: v.get("pull_request").map(|p| p.to_string()),
    })
}

fn repo_in(v: &Value) -> Option<WatchedRepo> {
    Some(WatchedRepo {
        full_name: text_at(v, "full_name")?,
        html_url: text_at(v, "html_url")?,
    })
}

fn pr_in(body: &[u8]) -> Option<GithubPullRequest> {
    let v: Value = serde_json::from_slice(body).ok()?;
    Some(GithubPullRequest {
        state: text_at(&v, "state")?,
        merged_at: text_at(&v, "merged_at"),
        html_url: text_at(&v, "html_url").unwrap_or_default(),
        user: user_in(&v),
    })
}

fn check_in(body: &[u8]) -> Option<CheckRun> {
    let v: Value = serde_json::from_slice(body).ok()?;
    Some(CheckRun {
        status: text_at(&v, "status"),
        conclusion: text_at(&v, "conclusion"),
        html_url: text_at(&v, "html_url"),
    })
}

fn run_in(v: &Value) -> Option<WorkflowRun> {
    Some(WorkflowRun {
        name: text_at(v, "name")?,
        conclusion: text_at(v, "conclusion"),
        html_url: text_at(v, "html_url")?,
        created_at: text_at(v, "created_at")?,
    })
}

fn runs_in(body: &[u8]) -> Option<ActionsRuns> {
    let v: Value = serde_json::from_slice(body).ok()?;
    let runs: Option<Vec<WorkflowRun>> =
        v.get("workflow_runs")?.as_array()?.iter().map(run_in).collect();
    Some(ActionsRuns {
        workflow_runs: runs?,
    })
}

fn subscription_in(body: &[u8]) -> Option<RepoSubscription> {
    let v: Value = serde_json::from_slice(body).ok()?;
    Some(RepoSubscription {
        subscribed: v.get("subscribed").and_then(Value::as_bool).unwrap_or(false),
        ignored: v.get("ignored").and_then(Value::as_bool).unwrap_or(false),
    })
}

// ---- one pass -------------------------------------------------------------

fn sync_notifications(gh: &Github, db: &Cache) -> Result<(), String> {
    let etag = db.text(&Database::get_sync_state(notifications::ETAG_KEY));
    let since = db.text(&Database::get_sync_state(notifications::LAST_SYNC_KEY));
    let mut request = notifications::first_request(etag, since);
    loop {
        let (head, body) = gh.get(&request);
        let dismissed = db.texts(&Database::dismissed_subjects());
        let page = notifications::on_page(&head, list(&body, thread_in), &dismissed);
        for thread in &page.store {
            db.upsert_thread(thread);
        }
        if let Some(etag) = &page.etag {
            db.run(&Database::set_sync_state(notifications::ETAG_KEY, etag));
        }
        match page.next {
            Next::Fetch(next) => request = next,
            Next::Done => break,
            Next::Fail(message) => return Err(message),
        }
    }
    db.run(&Database::set_sync_state(
        notifications::LAST_SYNC_KEY,
        &now_utc(),
    ));
    Ok(())
}

fn sync_one_repo(gh: &Github, db: &Cache, full_name: &str) -> Result<(), String> {
    let key = repos::etag_key(full_name);
    let etag = db.text(&Database::get_sync_state(&key));
    let cached = db.texts(&Database::issue_open_set(full_name));
    let Some(mut pass) = RepoSync::new(full_name.to_string(), etag, cached) else {
        return Ok(());
    };
    let repo_id = db.upsert_repo(full_name, Some(&repos::html_url(full_name)));
    let mut request = pass.first_request();
    loop {
        let (head, body) = gh.get(&request);
        let page = pass.on_page(&head, list(&body, issue_in));
        for entry in &page.store {
            db.run(&Database::upsert_issue(
                repo_id,
                &entry.issue,
                entry.kind,
                &None,
            ));
        }
        if let Some(keep) = &page.keep_only {
            db.run(&Database::delete_stale_issues_not_in(repo_id, keep));
        }
        if let Some(etag) = &page.etag {
            db.run(&Database::set_sync_state(&key, etag));
        }
        match page.next {
            Next::Fetch(next) => request = next,
            Next::Done => break,
            Next::Fail(message) => return Err(message),
        }
    }
    if let Some(open) = pass.finish() {
        db.run(&Database::clear_issue_open_set(full_name));
        for url in &open {
            db.run(&Database::add_to_issue_open_set(full_name, url));
        }
        db.run(&Database::delete_stale_issues_not_in(repo_id, &open));
    }
    db.run(&Database::set_repo_refreshed(full_name, &now_utc()));
    Ok(())
}

fn sync_watches(gh: &Github, db: &Cache) -> Result<(), String> {
    let etag = db.text(&Database::get_sync_state(watches::ETAG_KEY));
    let mut request = watches::first_request(etag);
    let mut first = true;
    loop {
        let (head, body) = gh.get(&request);
        let page = watches::on_page(first, &head, list(&body, repo_in));
        if page.reset {
            db.run(&Database::clear_watched());
        }
        for repo in &page.store {
            let id = db.first_number(&Database::upsert_watched_repo(
                &repo.full_name,
                &repo.html_url,
            ));
            db.run(&Database::mark_watched(id));
        }
        if let Some(etag) = &page.etag {
            db.run(&Database::set_sync_state(watches::ETAG_KEY, etag));
        }
        first = false;
        match page.next {
            Next::Fetch(next) => request = next,
            Next::Done => return Ok(()),
            Next::Fail(message) => return Err(message),
        }
    }
}

fn sync_one_subscription(gh: &Github, db: &Cache, full_name: &str) -> Result<(), String> {
    let watched = db.is_watched(full_name);
    let etag = db.text(&Database::repo_subscription_etag(full_name));
    let Some(request) = subscriptions::plan(full_name, watched, etag) else {
        return Ok(());
    };
    db.upsert_repo(full_name, Some(&repos::html_url(full_name)));
    let (head, body) = gh.get(&request);
    match subscriptions::on_answer(full_name, &head, subscription_in(&body)) {
        SubscriptionChange::Touch => {
            db.run(&Database::touch_repo_subscription(full_name, &now_utc()));
        }
        SubscriptionChange::Store(state, etag) => {
            db.run(&Database::set_repo_subscription(
                full_name,
                state,
                &etag,
                &now_utc(),
            ));
        }
        SubscriptionChange::Skip => {}
        SubscriptionChange::Fail(message) => return Err(message),
    }
    Ok(())
}

fn store_subject(db: &Cache, thread_id: &str, state: &SubjectState) {
    db.run(&Database::set_subject_state(thread_id, state, &now_utc()));
    if let Some(author) = &state.author {
        db.run(&Database::set_subject_author(thread_id, author));
    }
}

fn search_run(gh: &Github, mut search: RunSearch) -> Option<String> {
    let mut request = search.first_request();
    loop {
        let (head, body) = gh.get(&request);
        match search.on_page(&head, runs_in(&body)) {
            SearchStep::Fetch(next) => request = next,
            SearchStep::Found(url) => return url,
        }
    }
}

fn sync_one_subject(gh: &Github, db: &Cache, thread: &SubjectThread) -> Result<(), String> {
    let etag = db.text(&Database::subject_state_etag(&thread.thread_id));
    match subjects::lookup(thread, etag) {
        Lookup::Nothing => Ok(()),
        Lookup::Known(state) => {
            store_subject(db, &thread.thread_id, &state);
            Ok(())
        }
        Lookup::Search(search, state) => {
            let url = search_run(gh, search);
            store_subject(db, &thread.thread_id, &subjects::known(state, url));
            Ok(())
        }
        Lookup::Fetch(request) => {
            let (head, body) = gh.get(&request);
            let parsed = match thread.kind() {
                SubjectKind::PullRequest => pr_in(&body).map(SubjectBody::PullRequest),
                SubjectKind::Issue => serde_json::from_slice(&body)
                    .ok()
                    .and_then(|v: Value| issue_in(&v))
                    .map(SubjectBody::Issue),
                SubjectKind::Check => check_in(&body).map(SubjectBody::Check),
            };
            match subjects::on_answer(thread, &head, parsed.unwrap_or(SubjectBody::Unreadable)) {
                SubjectChange::Touch => {
                    db.run(&Database::touch_subject_state(&thread.thread_id, &now_utc()));
                }
                SubjectChange::Store(state) => store_subject(db, &thread.thread_id, &state),
                SubjectChange::Skip => {}
                SubjectChange::Fail(message) => return Err(message),
            }
            Ok(())
        }
    }
}

fn refresh_subjects(gh: &Github, db: &Cache, ws: &Workspace) -> Result<(), String> {
    let statement = Database::subject_threads_needing_refresh(&ws.tracked_repos());
    let results = db
        .rows(&statement, 7)
        .iter()
        .map(|r| {
            let thread = SubjectThread {
                thread_id: opt(&r[0]).expect("id"),
                subject_type: opt(&r[1]).expect("type"),
                subject_api_url: opt(&r[2]),
                subject_check_url: opt(&r[3]),
                subject_title: opt(&r[4]).expect("title"),
                repo: opt(&r[5]).expect("repo"),
                updated_at: opt(&r[6]),
            };
            sync_one_subject(gh, db, &thread)
        })
        .collect();
    first_failure(results)
}

fn dismiss(gh: &Github, db: &Cache, ws: &Workspace) -> Dismissal {
    let statement = Database::get_pr_threads(&ws.tracked_repos());
    let threads = db
        .rows(&statement, 5)
        .iter()
        .map(|r| {
            PrThread::from_row(
                opt(&r[0]).expect("id"),
                opt(&r[1]).expect("url"),
                opt(&r[2]).expect("subject"),
                opt(&r[3]),
                number(&r[4]),
            )
        })
        .collect();
    let mut pass = DismissPass::new(threads);
    loop {
        match pass.next() {
            Step::FetchSubject(url, key) => {
                let etag = db.text(&Database::get_sync_state(&key));
                let request = github_notifications::http::get_url(url, etag);
                let (head, body) = gh.get(&request);
                if let Some(etag) = pass.on_subject(&head, pr_in(&body)) {
                    db.run(&Database::set_sync_state(&key, &etag));
                }
            }
            Step::MarkRead(path) => {
                let (head, _) = gh.answer(&path, &None);
                pass.on_marked(head.status);
            }
            Step::Done => break,
        }
    }
    let done = pass.finish();
    if !done.ids.is_empty() {
        for subject in &done.subjects {
            db.run(&Database::record_dismissed_subject(subject));
        }
        db.run(&Database::delete_threads(&done.ids));
    }
    done
}

fn sync_once(
    gh: &Github,
    db: &Cache,
    config: &Config,
    ws: &Workspace,
    force: bool,
) -> Result<String, String> {
    let now = now_utc();
    let key = repo_refresh_key(ws);
    let last = db.text(&Database::get_sync_state(&key));
    let plan = plan(
        ws,
        force,
        &last,
        config.github.repo_refresh_interval_seconds,
    );
    let mut phase = Some(Phase::Notifications);
    while let Some(current) = phase {
        match current {
            Phase::Notifications => sync_notifications(gh, db)?,
            Phase::Repos => first_failure(
                ws.tracked_repos()
                    .iter()
                    .map(|r| sync_one_repo(gh, db, r))
                    .collect(),
            )?,
            Phase::Watches => sync_watches(gh, db)?,
            Phase::Subscriptions => first_failure(
                ws.tracked_repos()
                    .iter()
                    .map(|r| sync_one_subscription(gh, db, r))
                    .collect(),
            )?,
            Phase::Subjects => refresh_subjects(gh, db, ws)?,
            Phase::NoteRefresh => {
                db.run(&Database::set_sync_state(&key, &now));
            }
            Phase::Dismiss => {
                dismiss(gh, db, ws);
            }
            Phase::NoteSync => {
                db.run(&Database::set_sync_state(LAST_SYNC_KEY, &now));
            }
        }
        phase = current.next(plan);
    }
    Ok(now)
}

// ---- fixtures -------------------------------------------------------------

fn workspace(name: &str, auto_dismiss: bool, repos: &[&str]) -> Workspace {
    Workspace {
        name: name.into(),
        auto_dismiss_closed_merged: auto_dismiss,
        repo_sets: vec![RepoSet {
            name: "set".into(),
            repos: repos.iter().map(|r| r.to_string()).collect(),
        }],
    }
}

fn config(workspaces: Vec<Workspace>) -> Config {
    Config {
        github: GithubConfig {
            auth_token: "ghp_x".into(),
            poll_interval_seconds: 60,
            repo_refresh_interval_seconds: 60,
            ..Default::default()
        },
        workspaces,
    }
}

const NOTIFICATIONS: &str = r#"[
    {"id": "1:111", "unread": true, "reason": "mention",
     "updated_at": "2026-09-03T12:00:00Z", "last_read_at": null,
     "subject": {"title": "PR title", "type": "PullRequest",
                 "url": "http://github.test/repos/o/r/pulls/7", "latest_comment_url": null},
     "repository": {"full_name": "o/r", "html_url": "https://github.com/o/r"},
     "url": "http://github.test/notifications/threads/111"},
    {"id": "2:222", "unread": true, "reason": "assign",
     "updated_at": "2026-09-03T12:00:00Z", "last_read_at": null,
     "subject": {"title": "Issue title", "type": "Issue",
                 "url": "http://github.test/repos/o/r/issues/3", "latest_comment_url": null},
     "repository": {"full_name": "o/r", "html_url": "https://github.com/o/r"},
     "url": "http://github.test/notifications/threads/222"}
]"#;

const ISSUES: &str = r#"[
    {"id": 1, "number": 3, "title": "an issue", "state": "open", "user": {"login": "a"},
     "created_at": "2026-01-01T00:00:00Z", "updated_at": "2026-01-01T00:00:00Z",
     "closed_at": null, "html_url": "http://github.test/repos/o/r/issues/3",
     "url": "http://github.test/repos/o/r/issues/3"},
    {"id": 2, "number": 7, "title": "a pr", "state": "open", "user": {"login": "b"},
     "created_at": "2026-01-01T00:00:00Z", "updated_at": "2026-01-01T00:00:00Z",
     "closed_at": null, "html_url": "http://github.test/repos/o/r/pull/7",
     "url": "http://github.test/repos/o/r/pulls/7",
     "pull_request": {"url": "http://github.test/repos/o/r/pulls/7"}}
]"#;

fn mock_github() -> Github {
    Github::new(vec![
        ("/notifications", tagged("\"n1\"", NOTIFICATIONS)),
        ("/repos/o/r/issues", tagged("\"i1\"", ISSUES)),
        (
            "/user/subscriptions",
            ok(r#"[{"full_name":"o/r","html_url":"https://github.com/o/r"}]"#),
        ),
        (
            "/repos/o/r/pulls/7",
            ok(r#"{"state":"closed","merged_at":"2026-02-01T00:00:00Z"}"#),
        ),
        ("/notifications/threads/111", status(205)),
        ("/repos/o/missing/issues", status(404)),
    ])
}

fn issue(title: &str, id: u64) -> Reply {
    ok(&format!(
        r#"[{{"id":{id},"number":1,"title":"{title}","state":"open","user":{{"login":"u"}},
             "created_at":"2026-01-01T00:00:00Z","updated_at":"2026-01-01T00:00:00Z",
             "closed_at":null,"html_url":"https://github.com/a/r{id}/issues/1",
             "url":"https://api.github.com/repos/a/r{id}/issues/1"}}]"#
    ))
}

fn thread(
    id: &str,
    num: &str,
    kind: &str,
    repo: &str,
    url: Option<String>,
    check: Option<String>,
) -> NotificationThread {
    NotificationThread {
        id: id.into(),
        unread: true,
        reason: "mention".into(),
        updated_at: "2026-01-01T00:00:00Z".into(),
        last_read_at: None,
        subject: ThreadSubject {
            title: "subject".into(),
            kind: kind.into(),
            url,
            latest_comment_url: check,
        },
        repository: Some(ThreadRepository {
            full_name: repo.into(),
            html_url: format!("https://github.com/{repo}"),
        }),
        url: format!("https://api.github.com/notifications/threads/{num}"),
    }
}

fn head(code: u16, etag: Option<&str>, link: Option<&str>) -> Head {
    Head {
        status: StatusCode::from_u16(code).expect("status"),
        etag: etag.map(str::to_string),
        link: link.map(str::to_string),
    }
}

fn a_pr_thread(id: &str, subject: &str, state: Option<&str>, unread: bool) -> PrThread {
    PrThread {
        thread_id: id.into(),
        api_url: format!("https://api.github.com/notifications/threads/{id}"),
        subject_api_url: subject.into(),
        subject_state: state.map(str::to_string),
        unread,
    }
}

fn a_pr(state: &str) -> GithubPullRequest {
    GithubPullRequest {
        state: state.into(),
        merged_at: None,
        html_url: "h".into(),
        user: None,
    }
}

// ---- tests ----------------------------------------------------------------

#[test]
fn parse_workflow_title_parses() {
    let (n, s, b) =
        parse_workflow_title("Renovate workflow run failed for main branch").expect("parse");
    assert_eq!(
        (n.as_str(), s.as_str(), b.as_str()),
        ("Renovate", "failed", "main")
    );

    let (n, s, b) = parse_workflow_title("Build and Release workflow run failed for main branch")
        .expect("parse");
    assert_eq!(
        (n.as_str(), s.as_str(), b.as_str()),
        ("Build and Release", "failed", "main")
    );

    let (n, s, b) = parse_workflow_title(
        "Java PR Test Build workflow run, Attempt #2 failed for java/spring-boot branch",
    )
    .expect("parse");
    assert_eq!(
        (n.as_str(), s.as_str(), b.as_str()),
        ("Java PR Test Build", "failed", "java/spring-boot")
    );

    assert!(parse_workflow_title("org.apache.artemis:artemis-core-client:2.50.0").is_none());
    assert_eq!(status_word_to_conclusion("failed"), Some("failure"));
    assert_eq!(status_word_to_conclusion("succeeded"), Some("success"));
    assert_eq!(status_word_to_conclusion("weird"), None);
}

#[test]
fn workflow_titles_need_every_part() {
    assert!(parse_workflow_title(" workflow run failed for main branch").is_none());
    assert!(parse_workflow_title("CI workflow run failed for  branch").is_none());
    assert!(parse_workflow_title("CI workflow run failed on main branch").is_none());
    assert!(parse_workflow_title("CI workflow run failed for main").is_none());
    assert!(parse_workflow_title("CI workflow run").is_none());
    assert_eq!(status_word_to_conclusion("cancelled"), Some("cancelled"));
    assert_eq!(status_word_to_conclusion("timed_out"), Some("timed_out"));
    assert_eq!(status_word_to_conclusion("skipped"), Some("skipped"));
}

#[test]
fn sync_once_caches_notifications_repos_and_auto_dismisses() {
    let gh = mock_github();
    let db = Cache::new();
    let config = config(vec![workspace("test", true, &["o/r"])]);

    let result = sync_once(&gh, &db, &config, &config.workspaces[0], true);
    assert!(result.is_ok(), "sync failed: {:?}", result.err());

    assert!(db.count("repos") >= 1);
    assert_eq!(db.count("issues"), 2);
    // Auto-dismiss removes the merged PR thread; the issue thread stays.
    assert_eq!(db.count("threads"), 1);
    assert_eq!(db.first_number(&Database::unread_thread_count()), 1);
}

#[test]
fn dismissed_threads_do_not_come_back() {
    let gh = mock_github();
    let db = Cache::new();
    let config = config(vec![workspace("test", true, &["o/r"])]);
    for _ in 0..2 {
        db.run(&Database::set_sync_state(notifications::ETAG_KEY, "stale"));
        sync_once(&gh, &db, &config, &config.workspaces[0], true).expect("sync");
        assert_eq!(db.count("threads"), 1);
    }
    assert_eq!(
        db.texts(&Database::dismissed_subjects()),
        vec!["http://github.test/repos/o/r/pulls/7".to_string()]
    );
}

#[test]
fn sync_repo_subscriptions_caches_states() {
    let gh = Github::new(vec![
        ("/notifications", tagged("\"n1\"", "[]")),
        (
            "/user/subscriptions",
            tagged(
                "\"w1\"",
                r#"[{"full_name":"o/r","html_url":"https://github.com/o/r"}]"#,
            ),
        ),
        (
            "/repos/o/ignored/subscription",
            tagged("\"ig1\"", r#"{"subscribed":false,"ignored":true}"#),
        ),
        ("/repos/o/plain/subscription", status(404)),
    ]);
    let db = Cache::new();
    let repos = ["o/r", "o/ignored", "o/plain"];
    let config = config(vec![workspace("test", false, &repos)]);

    sync_once(&gh, &db, &config, &config.workspaces[0], true).expect("first sync");

    let names: Vec<String> = repos.iter().map(|n| n.to_string()).collect();
    let states: Vec<(String, String)> = db
        .rows(
            &Database::list_repos(&RepoFilter {
                workspace_repos: &names,
                show: "all",
                search: None,
            }),
            5,
        )
        .iter()
        .map(|r| {
            let item = RepoItem::from_row(
                &names,
                opt(&r[0]).expect("name"),
                opt(&r[1]).unwrap_or_default(),
                number(&r[2]),
                opt(&r[3]),
                opt(&r[4]),
            );
            assert!(item.in_workspace);
            (item.full_name, item.subscription_state.unwrap_or_default())
        })
        .collect();
    assert!(states.iter().any(|(n, s)| n == "o/r" && s == "watched"));
    assert!(states.iter().any(|(n, s)| n == "o/ignored" && s == "ignored"));
    assert!(states
        .iter()
        .any(|(n, s)| n == "o/plain" && s == "participating"));
    assert_eq!(
        db.text(&Database::get_sync_state("etag:subscriptions"))
            .as_deref(),
        Some("\"w1\"")
    );
    assert_eq!(
        db.text(&Database::repo_subscription_etag("o/ignored"))
            .as_deref(),
        Some("\"ig1\"")
    );

    // The second pass finds both lists unchanged and keeps what is cached.
    sync_once(&gh, &db, &config, &config.workspaces[0], true).expect("second sync");
    assert!(db.is_watched("o/r"));
    assert_eq!(
        db.text(&Database::repo_subscription_etag("o/ignored"))
            .as_deref(),
        Some("\"ig1\"")
    );
    assert_eq!(
        gh.calls_to("/repos/o/ignored/subscription"),
        2,
        "one full fetch + one 304"
    );
    assert_eq!(gh.calls_to("/repos/o/r/subscription"), 0);
}

#[test]
fn sync_repos_skips_missing_repos() {
    let gh = mock_github();
    let db = Cache::new();
    let config = config(vec![workspace("test", false, &["o/r", "o/missing"])]);
    // A missing repo (404) must not abort the sync; o/r is still cached.
    let result = sync_once(&gh, &db, &config, &config.workspaces[0], true);
    assert!(result.is_ok(), "sync failed: {:?}", result.err());
    assert_eq!(db.count("issues"), 2);
}

#[test]
fn sync_fetches_all_tracked_repos() {
    let gh = Github::new(vec![
        ("/notifications", tagged("\"n1\"", "[]")),
        ("/user/subscriptions", ok("[]")),
        ("/repos/a/r1/issues", issue("t1", 1)),
        ("/repos/a/r2/issues", issue("t2", 2)),
        ("/repos/a/r3/issues", issue("t3", 3)),
        ("/repos/a/r1/subscription", status(404)),
        ("/repos/a/r2/subscription", status(404)),
        ("/repos/a/r3/subscription", status(404)),
    ]);
    let db = Cache::new();
    let mut config = config(vec![workspace("test", false, &["a/r1", "a/r2", "a/r3"])]);
    config.github.sync_concurrency = 10;
    assert_eq!(config.github.effective_sync_concurrency(), 10);

    let result = sync_once(&gh, &db, &config, &config.workspaces[0], true);
    assert!(result.is_ok(), "sync failed: {:?}", result.err());
    // All three repos were fetched and cached (not just the first).
    assert_eq!(db.count("issues"), 3);
    for repo in ["a/r1", "a/r2", "a/r3"] {
        assert!(!db.is_watched(repo), "{repo} not watched");
    }
}

#[test]
fn sync_once_scopes_repos_to_workspace() {
    let gh = Github::new(vec![
        ("/notifications", tagged("\"n1\"", "[]")),
        ("/user/subscriptions", ok("[]")),
        ("/repos/a/r1/issues", issue("t1", 1)),
        ("/repos/a/r1/subscription", status(404)),
        ("/repos/b/r1/issues", ok("[]")),
    ]);
    let db = Cache::new();
    let config = config(vec![
        workspace("A", false, &["a/r1"]),
        workspace("B", false, &["b/r1"]),
    ]);
    // Only workspace A's repos are fetched; B's are left alone.
    sync_once(&gh, &db, &config, &config.workspaces[0], true).expect("sync");
    assert_eq!(db.count("issues"), 1);
    assert_eq!(
        gh.calls_to("/repos/b/r1/issues"),
        0,
        "workspace B repo not fetched"
    );
}

fn subject_row(db: &Cache, thread_id: &str) -> (String, String) {
    let rows = db.rows(
        &Statement {
            sql: "SELECT subject_state, subject_state_html_url FROM threads WHERE thread_id=?1"
                .into(),
            params: vec![Param::Text(thread_id.into())],
        },
        2,
    );
    (
        opt(&rows[0][0]).expect("state"),
        opt(&rows[0][1]).unwrap_or_default(),
    )
}

#[test]
fn refresh_subject_states_caches_pr_and_check_status() {
    let gh = Github::new(vec![
        (
            "/repos/o/r/pulls/7",
            tagged(
                "\"p1\"",
                r#"{"state":"closed","merged_at":"2026-02-01T00:00:00Z","html_url":"https://github.com/o/r/pull/7"}"#,
            ),
        ),
        (
            "/repos/o/r/check-runs/55",
            tagged(
                "\"c1\"",
                r#"{"status":"completed","conclusion":"success","html_url":"https://github.com/o/r/actions/runs/55"}"#,
            ),
        ),
        (
            "/repos/o/r/issues/3",
            tagged(
                "\"i1\"",
                r#"{"id":3,"number":3,"title":"an issue","state":"open","user":{"login":"a"},"created_at":"2026-01-01T00:00:00Z","updated_at":"2026-01-01T00:00:00Z","closed_at":null,"html_url":"https://github.com/o/r/issues/3","url":"https://api.github.com/repos/o/r/issues/3"}"#,
            ),
        ),
    ]);
    let db = Cache::new();
    db.upsert_thread(&thread(
        "1:pr",
        "1:pr",
        "PullRequest",
        "o/r",
        Some(format!("{BASE}/repos/o/r/pulls/7")),
        None,
    ));
    db.upsert_thread(&thread(
        "2:ci",
        "2:ci",
        "CheckSuite",
        "o/r",
        None,
        Some(format!("{BASE}/repos/o/r/check-runs/55")),
    ));
    db.upsert_thread(&thread(
        "3:issue",
        "3:issue",
        "Issue",
        "o/r",
        Some(format!("{BASE}/repos/o/r/issues/3")),
        None,
    ));
    let ws = workspace("test", false, &["o/r"]);

    refresh_subjects(&gh, &db, &ws).expect("refresh");
    assert_eq!(subject_row(&db, "1:pr").0, "merged");
    assert_eq!(subject_row(&db, "1:pr").1, "https://github.com/o/r/pull/7");
    assert_eq!(subject_row(&db, "2:ci").0, "success");
    assert_eq!(
        subject_row(&db, "2:ci").1,
        "https://github.com/o/r/actions/runs/55"
    );
    assert_eq!(subject_row(&db, "3:issue").0, "open");
    assert_eq!(
        subject_row(&db, "3:issue").1,
        "https://github.com/o/r/issues/3"
    );

    // A second pass re-verifies and keeps the states.
    refresh_subjects(&gh, &db, &ws).expect("refresh");
    assert_eq!(subject_row(&db, "1:pr").0, "merged");
    assert_eq!(subject_row(&db, "2:ci").0, "success");
    assert_eq!(gh.calls_to("/repos/o/r/pulls/7"), 2);
}

#[test]
fn refresh_subject_states_resolves_check_run_from_title() {
    let gh = Github::new(vec![(
        "/repos/o/r/actions/runs",
        tagged(
            "\"r1\"",
            r#"{"workflow_runs":[
                {"name":"Renovate","conclusion":"failure","html_url":"https://github.com/o/r/actions/runs/123","created_at":"2026-09-07T11:56:48Z"},
                {"name":"CI","conclusion":"success","html_url":"https://github.com/o/r/actions/runs/1","created_at":"2026-09-07T01:31:49Z"}
            ]}"#,
        ),
    )]);
    let db = Cache::new();
    let mut check = thread("1:check", "check", "CheckSuite", "o/r", None, None);
    check.reason = "ci_activity".into();
    check.updated_at = "2026-09-07T11:57:15Z".into();
    check.subject.title = "Renovate workflow run failed for main branch".into();
    db.upsert_thread(&check);

    let ws = workspace("test", false, &["o/r"]);
    refresh_subjects(&gh, &db, &ws).expect("refresh");
    let (state, url) = subject_row(&db, "1:check");
    assert_eq!(state, "failure");
    assert_eq!(url, "https://github.com/o/r/actions/runs/123");

    // The outcome is final: the run is searched for once.
    refresh_subjects(&gh, &db, &ws).expect("refresh");
    assert_eq!(gh.calls_to("/repos/o/r/actions/runs"), 1);
}

#[test]
fn unparsed_check_titles_stay_unresolved() {
    let gh = Github::new(vec![]);
    let db = Cache::new();
    let mut check = thread("1:check", "check", "CheckSuite", "o/r", None, None);
    check.subject.title = "org.apache.artemis:artemis-core-client:2.50.0".into();
    db.upsert_thread(&check);
    refresh_subjects(&gh, &db, &workspace("test", false, &["o/r"])).expect("refresh");
    assert_eq!(subject_row(&db, "1:check").0, "unresolved");
    assert!(gh.calls.borrow().is_empty());
}

#[test]
fn dismiss_closed_merged_only_touches_workspace_repos() {
    let closed = |url: &str| {
        ok(&format!(
            r#"{{"state":"closed","merged_at":"2026-02-01T00:00:00Z","html_url":"{url}"}}"#
        ))
    };
    let gh = Github::new(vec![
        ("/repos/o/r/pulls/7", closed("https://github.com/o/r/pull/7")),
        (
            "/repos/work/r/pulls/99",
            closed("https://github.com/work/r/pull/99"),
        ),
        ("/notifications/threads/1", status(205)),
    ]);
    let db = Cache::new();
    // A merged PR on the workspace's repo, and one on a repo outside it.
    db.upsert_thread(&thread(
        "1:in",
        "1",
        "PullRequest",
        "o/r",
        Some(format!("{BASE}/repos/o/r/pulls/7")),
        None,
    ));
    db.upsert_thread(&thread(
        "2:work",
        "2",
        "PullRequest",
        "work/r",
        Some(format!("{BASE}/repos/work/r/pulls/99")),
        None,
    ));
    let done = dismiss(&gh, &db, &workspace("test", false, &["o/r"]));
    assert_eq!(
        done.count, 1,
        "the workspace repo's merged PR is dismissed"
    );
    assert_eq!(
        gh.calls_to("/repos/work/r/pulls/99"),
        0,
        "the out-of-workspace PR must not be fetched"
    );
    assert_eq!(db.count("threads"), 1);
}

#[test]
fn sync_notifications_skips_dismissed_subjects() {
    let payload = format!(
        r#"[{{"id":"1:pr","unread":true,"reason":"mention",
             "updated_at":"2026-01-01T00:00:00Z","last_read_at":null,
             "subject":{{"title":"pr","type":"PullRequest","url":"{BASE}/repos/o/r/pulls/7","latest_comment_url":null}},
             "repository":{{"full_name":"o/r","html_url":"https://github.com/o/r"}},
             "url":"{BASE}/notifications/threads/7"}}]"#
    );
    let gh = Github::new(vec![
        ("/notifications", tagged("\"n1\"", &payload)),
        ("/user/subscriptions", ok("[]")),
        ("/repos/o/r/issues", tagged("\"i1\"", "[]")),
        ("/repos/o/r/subscription", status(404)),
    ]);
    let db = Cache::new();
    // The subject was dismissed; the notification sync must not re-add it.
    db.run(&Database::record_dismissed_subject(&format!(
        "{BASE}/repos/o/r/pulls/7"
    )));
    let config = config(vec![workspace("test", false, &["o/r"])]);
    sync_once(&gh, &db, &config, &config.workspaces[0], true).expect("sync");
    assert_eq!(db.count("threads"), 0);
}

#[test]
fn closed_issues_leave_the_queue() {
    let db = Cache::new();
    let config = config(vec![workspace("test", false, &["o/r"])]);
    let gh = mock_github();
    sync_once(&gh, &db, &config, &config.workspaces[0], true).expect("sync");
    assert_eq!(db.count("issues"), 2);

    // Unchanged on GitHub: a row that is not in the open set is cleaned up.
    db.run(&Statement {
        sql: "UPDATE issues SET api_url = 'gone' WHERE number = 7".into(),
        params: vec![],
    });
    sync_once(&gh, &db, &config, &config.workspaces[0], true).expect("sync");
    assert_eq!(db.count("issues"), 1);

    // A fresh list without entries empties the queue.
    let gh = Github::new(vec![
        ("/notifications", tagged("\"n2\"", "[]")),
        ("/repos/o/r/issues", tagged("\"i2\"", "[]")),
        ("/user/subscriptions", ok("[]")),
    ]);
    sync_once(&gh, &db, &config, &config.workspaces[0], true).expect("sync");
    assert_eq!(db.count("issues"), 0);
}

#[test]
fn pages_are_followed_by_link() {
    let next = r#"<http://github.test/user/subscriptions?page=2>; rel="next", <x>; rel="last""#;
    let gh = Github::new(vec![
        (
            "/user/subscriptions",
            Reply {
                link: Some(next.into()),
                ..ok(r#"[{"full_name":"a/1","html_url":"u"}]"#)
            },
        ),
        (
            "/user/subscriptions?page=2",
            ok(r#"[{"full_name":"a/2","html_url":"u"}]"#),
        ),
    ]);
    let db = Cache::new();
    let old = db.upsert_repo("a/old", None);
    db.run(&Database::mark_watched(old));
    sync_watches(&gh, &db).expect("watches");
    assert!(db.is_watched("a/1") && db.is_watched("a/2"));
    assert!(!db.is_watched("a/old"));
}

#[test]
fn failing_endpoints_report_their_status() {
    let db = Cache::new();
    let gh = Github::new(vec![("/notifications", status(500))]);
    assert_eq!(
        sync_notifications(&gh, &db),
        Err("notifications endpoint returned 500 Internal Server Error".to_string())
    );
    let gh = Github::new(vec![("/user/subscriptions", status(403))]);
    assert_eq!(
        sync_watches(&gh, &db),
        Err("subscriptions endpoint returned 403 Forbidden".to_string())
    );
}

#[test]
fn unreadable_bodies_are_failures() {
    let db = Cache::new();
    let gh = Github::new(vec![
        ("/notifications", ok("{")),
        ("/user/subscriptions", ok("{")),
        ("/repos/o/r/issues", ok("{")),
        ("/repos/o/r/subscription", ok("[")),
        ("/repos/o/r/pulls/7", ok("[")),
        ("/repos/o/r/issues/3", ok("[")),
        ("/repos/o/r/check-runs/5", ok("{")),
    ]);
    assert_eq!(
        sync_notifications(&gh, &db),
        Err("parsing notifications response".to_string())
    );
    assert_eq!(
        sync_watches(&gh, &db),
        Err("parsing subscriptions response".to_string())
    );
    assert_eq!(
        sync_one_repo(&gh, &db, "o/r"),
        Err("parsing issues for o/r".to_string())
    );
    assert_eq!(
        sync_one_subscription(&gh, &db, "o/r"),
        Err("parsing subscription for o/r".to_string())
    );
    let subject = |kind: &str, url: &str| SubjectThread {
        thread_id: "t".into(),
        subject_type: kind.into(),
        subject_api_url: Some(format!("{BASE}{url}")),
        subject_check_url: None,
        subject_title: "x".into(),
        repo: "o/r".into(),
        updated_at: None,
    };
    assert_eq!(
        sync_one_subject(&gh, &db, &subject("PullRequest", "/repos/o/r/pulls/7")),
        Err("parsing PR subject for t".to_string())
    );
    assert_eq!(
        sync_one_subject(&gh, &db, &subject("Issue", "/repos/o/r/issues/3")),
        Err("parsing issue subject for t".to_string())
    );
    assert_eq!(
        sync_one_subject(&gh, &db, &subject("CheckRun", "/repos/o/r/check-runs/5")),
        Err("parsing check run for t".to_string())
    );
}

#[test]
fn first_requests_are_exact() {
    let request = notifications::first_request(Some("e".into()), Some("2026".into()));
    assert_eq!(
        request.query,
        vec![
            ("per_page".to_string(), "50".to_string()),
            ("all".to_string(), "true".to_string()),
            ("since".to_string(), "2026".to_string()),
        ]
    );
    assert_eq!(request.etag.as_deref(), Some("e"));

    // Without an open set the first fetch is unconditional.
    let pass = RepoSync::new("o/r".into(), Some("e".into()), vec![]).expect("pass");
    assert_eq!(pass.first_request().etag, None);
    let pass = RepoSync::new("o/r".into(), Some("e".into()), vec!["u".into()]).expect("pass");
    assert_eq!(pass.first_request().etag.as_deref(), Some("e"));
    assert!(RepoSync::new("no-slash".into(), None, vec![]).is_none());
    assert!(subscriptions::plan("no-slash", false, None).is_none());
    assert!(subscriptions::plan("o/r", true, None).is_none());
}

#[test]
fn subscription_states_follow_github() {
    let sub = |subscribed: bool, ignored: bool| {
        SubscriptionState::of(&RepoSubscription {
            subscribed,
            ignored,
        })
        .name()
    };
    assert_eq!(sub(true, true), "ignored");
    assert_eq!(sub(true, false), "watched");
    assert_eq!(sub(false, false), "participating");
    let skipped = subscriptions::on_answer("o/r", &head(500, None, None), None);
    assert!(matches!(skipped, SubscriptionChange::Skip));
}

#[test]
fn subject_states_follow_their_kind() {
    let thread = |kind: &str| SubjectThread {
        thread_id: "t".into(),
        subject_type: kind.into(),
        subject_api_url: Some("api".into()),
        subject_check_url: Some("check".into()),
        subject_title: "x".into(),
        repo: "o/r".into(),
        updated_at: None,
    };
    let state = |kind: &str, body: SubjectBody| match subjects::on_answer(
        &thread(kind),
        &head(200, Some("e"), None),
        body,
    ) {
        SubjectChange::Store(s) => s.state,
        other => panic!("{other:?}"),
    };
    assert_eq!(
        state("PullRequest", SubjectBody::PullRequest(a_pr("open"))),
        "open"
    );
    assert_eq!(
        state("PullRequest", SubjectBody::PullRequest(a_pr("closed"))),
        "closed"
    );
    let run = |status: Option<&str>, conclusion: Option<&str>| {
        SubjectBody::Check(CheckRun {
            status: status.map(str::to_string),
            conclusion: conclusion.map(str::to_string),
            html_url: None,
        })
    };
    assert_eq!(
        state("CheckSuite", run(Some("in_progress"), None)),
        "in_progress"
    );
    assert_eq!(state("CheckSuite", run(None, None)), "unknown");
    assert!(matches!(
        subjects::on_answer(
            &thread("Issue"),
            &head(304, None, None),
            SubjectBody::Unreadable
        ),
        SubjectChange::Touch
    ));
    assert!(matches!(
        subjects::on_answer(
            &thread("Issue"),
            &head(410, None, None),
            SubjectBody::Unreadable
        ),
        SubjectChange::Skip
    ));
    // A check's own URL comes first; other subjects have only the one.
    let url = |kind: &str| match subjects::lookup(&thread(kind), None) {
        Lookup::Fetch(r) => match r.target {
            Target::Url(u) => u,
            other => panic!("{other:?}"),
        },
        _ => panic!("no request"),
    };
    assert_eq!(url("CheckSuite"), "check");
    assert_eq!(url("PullRequest"), "api");
}

fn run_at(name: &str, conclusion: &str, url: &str, at: &str) -> WorkflowRun {
    WorkflowRun {
        name: name.into(),
        conclusion: Some(conclusion.into()),
        html_url: url.into(),
        created_at: at.into(),
    }
}

#[test]
fn nearest_matching_run_is_found() {
    let search = || {
        RunSearch::new(
            "o/r".into(),
            "CI".into(),
            Some("failure".into()),
            "main".into(),
            "2026-09-07T12:00:00Z",
        )
        .expect("search")
    };
    let page = vec![
        run_at("CI", "failure", "late", "2026-09-07T12:06:00Z"),
        run_at("CI", "failure", "after", "2026-09-07T12:04:00Z"),
        run_at("CI", "success", "wrong", "2026-09-07T12:00:00Z"),
        run_at("Other", "failure", "other", "2026-09-07T12:00:00Z"),
        run_at("CI", "failure", "unreadable", "yesterday"),
        run_at("CI", "failure", "before", "2026-09-07T11:58:00Z"),
        run_at("CI", "failure", "tie", "2026-09-07T11:58:00+00:00"),
        run_at("CI", "failure", "old", "2026-09-07T11:44:59Z"),
        run_at("CI", "failure", "never seen", "2026-09-07T12:00:00Z"),
    ];
    let runs = |r: Vec<WorkflowRun>| Some(ActionsRuns { workflow_runs: r });
    match search().on_page(&head(200, None, None), runs(page.clone())) {
        SearchStep::Found(url) => assert_eq!(url.as_deref(), Some("before")),
        other => panic!("{other:?}"),
    }
    // Nothing is found on an error, nor in what cannot be read.
    let mut failed = search();
    let link = Some(r#"<http://x/2>; rel="next""#);
    match failed.on_page(&head(200, None, link), runs(page[1..2].to_vec())) {
        SearchStep::Fetch(_) => {}
        other => panic!("{other:?}"),
    }
    match failed.on_page(&head(500, None, None), None) {
        SearchStep::Found(url) => assert_eq!(url, None),
        other => panic!("{other:?}"),
    }
    assert!(RunSearch::new("x".into(), "CI".into(), None, "m".into(), "2026-09-07T12:00:00Z").is_none());
    assert!(RunSearch::new("o/r".into(), "CI".into(), None, "m".into(), "noon").is_none());
}

#[test]
fn run_search_reads_ten_pages_at_most() {
    let mut search = RunSearch::new(
        "o/r".into(),
        "CI".into(),
        None,
        "main".into(),
        "2026-09-07T12:00:00Z",
    )
    .expect("search");
    let link = Some(r#"<http://x/next>; rel="next""#);
    let mut pages = 0;
    loop {
        pages += 1;
        let runs = ActionsRuns {
            workflow_runs: vec![],
        };
        match search.on_page(&head(200, None, link), Some(runs)) {
            SearchStep::Fetch(_) => {}
            SearchStep::Found(url) => {
                assert_eq!(url, None);
                break;
            }
        }
    }
    assert_eq!(pages, 10);
}

#[test]
fn each_subject_is_fetched_once() {
    let mut pass = DismissPass::new(vec![
        a_pr_thread("1", "s", None, true),
        a_pr_thread("2", "s", None, false),
        a_pr_thread("3", "t", Some("merged"), false),
        a_pr_thread("4", "u", None, true),
        a_pr_thread("5", "u", None, true),
    ]);
    match pass.next() {
        Step::FetchSubject(url, key) => assert_eq!((url.as_str(), key.as_str()), ("s", "etag:pr:s")),
        other => panic!("{other:?}"),
    }
    assert_eq!(
        pass.on_subject(&head(200, Some("e"), None), Some(a_pr("closed"))),
        None
    );
    match pass.next() {
        Step::MarkRead(path) => assert_eq!(path, "/notifications/threads/1"),
        other => panic!("{other:?}"),
    }
    pass.on_marked(StatusCode::from_u16(205).expect("status"));
    match pass.next() {
        Step::FetchSubject(url, _) => assert_eq!(url, "u"),
        other => panic!("{other:?}"),
    }
    // An ETag is remembered of open ones alone, so unchanged means not closed.
    assert_eq!(pass.on_subject(&head(304, Some("e"), None), None), None);
    assert!(matches!(pass.next(), Step::Done));
    let done = pass.finish();
    assert_eq!(done.count, 3);
    assert_eq!(done.ids, vec!["1", "2", "3"]);
    assert_eq!(done.subjects, vec!["s", "s", "t"]);
}

#[test]
fn unmarked_threads_are_kept() {
    let mut pass = DismissPass::new(vec![a_pr_thread("1", "s", Some("closed"), true)]);
    assert!(matches!(pass.next(), Step::MarkRead(_)));
    pass.on_marked(StatusCode::from_u16(500).expect("status"));
    assert!(matches!(pass.next(), Step::Done));
    assert_eq!(pass.finish().count, 0);
}

#[test]
fn a_second_run_waits_for_the_first() {
    let mut status = SyncStatus::default();
    assert!(status.begin());
    assert!(!status.begin());
    status.finish(Err("boom".into()));
    assert_eq!(status.last_error.as_deref(), Some("boom"));
    assert_eq!(status.last_sync, None);
    assert!(status.begin());
    assert_eq!(status.last_error, None);
    status.finish(Ok("2026".into()));
    assert_eq!(status.last_sync.as_deref(), Some("2026"));
    assert!(status.begin());
    status.finish(Err("again".into()));
    assert_eq!(status.last_sync.as_deref(), Some("2026"));
}

#[test]
fn passes_follow_their_plan() {
    let steps = |plan: Plan| {
        let mut out = vec![Phase::Notifications];
        while let Some(next) = out.last().expect("phase").next(plan) {
            out.push(next);
        }
        out
    };
    assert_eq!(
        steps(Plan {
            refresh: true,
            dismiss: true
        }),
        vec![
            Phase::Notifications,
            Phase::Repos,
            Phase::Watches,
            Phase::Subscriptions,
            Phase::Subjects,
            Phase::NoteRefresh,
            Phase::Dismiss,
            Phase::NoteSync,
        ]
    );
    assert_eq!(
        steps(Plan {
            refresh: false,
            dismiss: false
        }),
        vec![Phase::Notifications, Phase::NoteSync]
    );
    // Only a workspace that opted in has its threads dismissed.
    assert!(!plan_for(&workspace("a", false, &[]), true).dismiss);
    assert!(plan_for(&workspace("b", true, &[]), true).dismiss);
    assert!(Trigger::Startup.forces_refresh() && Trigger::Request.forces_refresh());
    assert!(!Trigger::Tick.forces_refresh());
    // A refresh that just happened is not due; a forced one always is.
    let ws = workspace("a", false, &[]);
    let now = Some(now_utc());
    assert_eq!(
        plan(&ws, false, &now, 600),
        Plan {
            refresh: false,
            dismiss: false
        }
    );
    assert_eq!(
        plan(&ws, true, &now, 600),
        Plan {
            refresh: true,
            dismiss: false
        }
    );
    assert!(!plan(&ws, false, &now, u64::MAX).refresh);
    assert!(plan(&ws, false, &None, u64::MAX).refresh);
    // At a given time, the cadence decides.
    let at = parse_time("2026-01-01T00:10:00Z").expect("time");
    let last = Some("2026-01-01T00:00:00Z".to_string());
    assert!(plan_at(&at, &ws, false, &last, 600).refresh);
    assert!(!plan_at(&at, &ws, false, &last, 601).refresh);
    assert!(plan_at(&at, &ws, true, &last, 601).refresh);
    assert!(!plan_at(&at, &ws, true, &last, 601).dismiss);
    assert_eq!(repo_refresh_key(&ws), "last_repo_refresh:a");
}

#[test]
fn first_failure_wins() {
    assert_eq!(first_failure(vec![Ok(()), Ok(())]), Ok(()));
    assert_eq!(
        first_failure(vec![Ok(()), Err("a".into()), Err("b".into())]),
        Err("a".to_string())
    );
}

#[test]
fn issue_kinds_are_told_apart() {
    assert_eq!(IssueKind::Issue.name(), "issue");
    assert_eq!(IssueKind::Pr.name(), "pr");
    let mut pass = RepoSync::new("o/r".into(), None, vec![]).expect("pass");
    let page = pass.on_page(
        &head(200, Some("e"), None),
        list(ISSUES.as_bytes(), issue_in),
    );
    assert_eq!(page.store[0].kind, IssueKind::Issue);
    assert_eq!(page.store[1].kind, IssueKind::Pr);
    assert_eq!(page.etag.as_deref(), Some("e"));
    assert_eq!(
        pass.finish(),
        Some(vec![
            "http://github.test/repos/o/r/issues/3".to_string(),
            "http://github.test/repos/o/r/pulls/7".to_string(),
        ])
    );
}

#[test]
fn runs_on_later_pages_count_too() {
    let mut search = RunSearch::new(
        "o/r".into(),
        "CI".into(),
        None,
        "main".into(),
        "2026-09-07T12:00:00Z",
    )
    .expect("search");
    let page = |url: &str, at: &str| {
        Some(ActionsRuns {
            workflow_runs: vec![run_at("CI", "success", url, at)],
        })
    };
    let link = Some(r#"<http://x/2>; rel="next""#);
    match search.on_page(&head(200, None, link), page("far", "2026-09-07T12:04:00Z")) {
        SearchStep::Fetch(request) => assert_eq!(request.target.url("base"), "http://x/2"),
        other => panic!("{other:?}"),
    }
    match search.on_page(&head(200, None, None), page("near", "2026-09-07T11:59:00Z")) {
        SearchStep::Found(url) => assert_eq!(url.as_deref(), Some("near")),
        other => panic!("{other:?}"),
    }
}

#[test]
fn a_list_cut_short_drops_nothing() {
    let link = Some(r#"<http://x/2>; rel="next""#);
    let entries = || list(ISSUES.as_bytes(), issue_in);
    for code in [304, 403, 404, 500, 502] {
        let cached = vec!["on-page-two".to_string()];
        let mut pass = RepoSync::new("o/r".into(), None, cached).expect("pass");
        let page = pass.on_page(&head(200, Some("one"), link), entries());
        assert!(matches!(page.next, Next::Fetch(_)));
        assert_eq!((page.store.len(), page.keep_only, page.etag), (2, None, None));
        let page = pass.on_page(&head(code, Some("two"), None), None);
        assert!(matches!(page.next, Next::Done));
        assert_eq!((page.keep_only, page.etag), (None, None));
        assert_eq!(pass.finish(), None);
    }

    // Nor does a later page that cannot be read.
    let mut pass = RepoSync::new("o/r".into(), None, vec![]).expect("pass");
    pass.on_page(&head(200, None, link), entries());
    let page = pass.on_page(&head(200, Some("two"), None), None);
    assert!(matches!(page.next, Next::Fail(_)));
    assert_eq!(page.etag, None);
    assert_eq!(pass.finish(), None);
}

#[test]
fn a_list_read_to_its_end_is_the_open_set() {
    let link = Some(r#"<http://x/2>; rel="next""#);
    let mut pass = RepoSync::new("o/r".into(), None, vec![]).expect("pass");
    pass.on_page(&head(200, Some("one"), link), list(ISSUES.as_bytes(), issue_in));
    let page = pass.on_page(&head(200, Some("two"), None), Some(vec![]));
    assert_eq!(page.etag.as_deref(), Some("two"));
    assert_eq!(pass.finish().expect("open set").len(), 2);

    // The last ETag counts, whichever page carried it.
    let mut pass = RepoSync::new("o/r".into(), None, vec![]).expect("pass");
    let page = pass.on_page(&head(200, Some("one"), link), Some(vec![]));
    assert_eq!(page.etag, None);
    let page = pass.on_page(&head(200, None, None), Some(vec![]));
    assert_eq!(page.etag.as_deref(), Some("one"));

    // An unchanged list is held against the remembered open set.
    let mut pass = RepoSync::new("o/r".into(), None, vec!["u".into()]).expect("pass");
    let page = pass.on_page(&head(304, None, None), None);
    assert_eq!(page.keep_only, Some(vec!["u".to_string()]));
    assert_eq!(pass.finish(), None);
}

#[test]
fn open_issues_stay_cached_when_a_later_page_fails() {
    let issues = |tag: &str, link: Option<&str>, body: &str| Reply {
        link: link.map(str::to_string),
        ..tagged(tag, body)
    };
    let next = Some(r#"<http://github.test/more>; rel="next""#);
    let first = r#"[{"id":1,"number":1,"title":"a","state":"open","url":"u1","html_url":"h1","updated_at":"2026-01-01T00:00:00Z","created_at":"2026-01-01T00:00:00Z"}]"#;
    let second = r#"[{"id":2,"number":2,"title":"b","state":"open","url":"u2","html_url":"h2","updated_at":"2026-01-01T00:00:00Z","created_at":"2026-01-01T00:00:00Z"}]"#;
    let db = Cache::new();
    let gh = Github::new(vec![
        ("/repos/o/r/issues", issues("p1", next, first)),
        ("/more", issues("p2", None, second)),
    ]);
    sync_one_repo(&gh, &db, "o/r").expect("sync");
    assert_eq!(db.count("issues"), 2);

    let gh = Github::new(vec![
        ("/repos/o/r/issues", issues("p1", next, first)),
        ("/more", status(500)),
    ]);
    sync_one_repo(&gh, &db, "o/r").expect("sync");
    assert_eq!(db.count("issues"), 2);

    // Once the list is whole again, what it no longer names is gone.
    let gh = Github::new(vec![("/repos/o/r/issues", issues("p1", None, first))]);
    sync_one_repo(&gh, &db, "o/r").expect("sync");
    assert_eq!(db.count("issues"), 1);
}

#[test]
fn a_closed_pull_request_is_read_until_its_thread_is_gone() {
    // A closed pull request leaves no ETag behind, so that a thread that could
    // not be marked read is dismissed by the next pass.
    let thread = || vec![a_pr_thread("1", "s", None, true)];
    let mut pass = DismissPass::new(thread());
    assert!(matches!(pass.next(), Step::FetchSubject(_, _)));
    let etag = pass.on_subject(&head(200, Some("e"), None), Some(a_pr("closed")));
    assert_eq!(etag, None);
    assert!(matches!(pass.next(), Step::MarkRead(_)));
    pass.on_marked(StatusCode::from_u16(500).expect("status"));
    assert!(matches!(pass.next(), Step::Done));
    assert_eq!(pass.finish().count, 0);

    let mut pass = DismissPass::new(thread());
    pass.next();
    pass.on_subject(&head(200, Some("e"), None), Some(a_pr("closed")));
    pass.next();
    pass.on_marked(StatusCode::from_u16(205).expect("status"));
    assert!(matches!(pass.next(), Step::Done));
    let done = pass.finish();
    assert_eq!(done.count, 1);
    assert_eq!(done.ids, vec!["1".to_string()]);
    assert_eq!(done.subjects, vec!["s".to_string()]);

    // An open one does leave an ETag, and an unreadable one does not.
    let mut pass = DismissPass::new(thread());
    pass.next();
    let etag = pass.on_subject(&head(200, Some("e"), None), Some(a_pr("open")));
    assert_eq!(etag.as_deref(), Some("e"));
    let mut pass = DismissPass::new(thread());
    pass.next();
    assert_eq!(pass.on_subject(&head(200, Some("e"), None), None), None);
}

#[test]
fn an_unreadable_watched_list_keeps_the_flags() {
    let page = watches::on_page(true, &head(200, Some("e"), None), None);
    assert!(!page.reset && page.etag.is_none() && page.store.is_empty());
    assert!(matches!(page.next, Next::Fail(_)));
    let page = watches::on_page(true, &head(200, Some("e"), None), Some(vec![]));
    assert!(page.reset && page.etag.is_some());
    assert!(!watches::on_page(false, &head(200, None, None), Some(vec![])).reset);
}

#[test]
fn the_engine_follows_the_current_workspace() {
    let config = config(vec![
        workspace("A", false, &["a/r1"]),
        workspace("B", false, &["b/r1"]),
    ]);
    let mut engine = SyncEngine::new(&config);
    let pass = engine.next_pass(&config, Trigger::Startup);
    assert_eq!((pass.workspace.name.as_str(), pass.force), ("A", true));
    engine.set_current_workspace("B");
    let pass = engine.next_pass(&config, Trigger::Tick);
    assert_eq!((pass.workspace.name.as_str(), pass.force), ("B", false));
    engine.set_current_workspace("gone");
    let pass = engine.next_pass(&config, Trigger::Request);
    assert_eq!((pass.workspace.name.as_str(), pass.force), ("A", true));
}
