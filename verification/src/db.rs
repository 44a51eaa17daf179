//! The local SQLite cache: its schema, the statements that read and write it,
//! and what its rows stand for. Statements are built here and run by the app.
use vstd::prelude::*;

use crate::config::{join, joined};
use crate::http::opt_text;
use crate::models::{GithubIssue, NotificationThread, ThreadRepository};
use crate::sync::repos::{kind_name, IssueKind};
use crate::sync::subjects::{login_of, SubjectState};
use crate::sync::subscriptions::{state_name, SubscriptionState};
use crate::text;
use crate::text::{cut_once, decimal, has_substring, texts, without_prefix};

verus! {

broadcast use vstd::string::group_string_axioms;

// ---- statements -----------------------------------------------------------

/// A value bound to a placeholder of a statement.
#[derive(Debug, Clone)]
pub enum Param {
    Null,
    Text(String),
    Integer(i64),
    Unsigned(u64),
    Flag(bool),
}

/// A value bound to a placeholder.
pub enum ParamView {
    Null,
    Text(Seq<char>),
    Integer(i64),
    Unsigned(u64),
    Flag(bool),
}

impl View for Param {
    type V = ParamView;

    open spec fn view(&self) -> ParamView {
        match self {
            Param::Null => ParamView::Null,
            Param::Text(s) => ParamView::Text(s@),
            Param::Integer(n) => ParamView::Integer(*n),
            Param::Unsigned(n) => ParamView::Unsigned(*n),
            Param::Flag(b) => ParamView::Flag(*b),
        }
    }
}

/// A statement with the values of its placeholders, in order.
#[derive(Debug, Clone)]
pub struct Statement {
    pub sql: String,
    pub params: Vec<Param>,
}

/// A statement with the values of its placeholders.
pub struct StatementView {
    pub sql: Seq<char>,
    pub params: Seq<ParamView>,
}

/// The contents of a list of values.
pub open spec fn param_views(params: Seq<Param>) -> Seq<ParamView> {
    params.map_values(|p: Param| p@)
}

impl View for Statement {
    type V = StatementView;

    open spec fn view(&self) -> StatementView {
        StatementView { sql: self.sql@, params: param_views(self.params@) }
    }
}

/// A text, or null.
pub open spec fn opt_param(s: Option<Seq<char>>) -> ParamView {
    match s {
        Some(t) => ParamView::Text(t),
        None => ParamView::Null,
    }
}

/// The values for a list of texts.
pub open spec fn text_params(list: Seq<Seq<char>>) -> Seq<ParamView> {
    list.map_values(|s: Seq<char>| ParamView::Text(s))
}

/// A text.
fn text_param(s: &str) -> (r: Param)
    ensures
        r@ == ParamView::Text(s@),
{
    Param::Text(s.to_owned())
}

/// A text, or null.
fn opt_text_param(s: &Option<String>) -> (r: Param)
    ensures
        r@ == opt_param(opt_text(*s)),
{
    match s {
        Some(t) => Param::Text(t.clone()),
        None => Param::Null,
    }
}

/// Appends a value.
fn bind(params: &mut Vec<Param>, p: Param)
    ensures
        param_views(final(params)@) == param_views(old(params)@).push(p@),
{
    let ghost before = params@;
    params.push(p);
    assert(param_views(params@) =~= param_views(before).push(p@));
}

/// An empty list of values.
fn no_params() -> (r: Vec<Param>)
    ensures
        param_views(r@) == Seq::<ParamView>::empty(),
{
    let r: Vec<Param> = Vec::new();
    assert(param_views(r@) =~= Seq::empty());
    r
}

/// The values for a list of texts.
fn bind_texts(list: &[String]) -> (r: Vec<Param>)
    ensures
        param_views(r@) == text_params(texts(list@)),
{
    let ghost all = text_params(texts(list@));
    let mut params = no_params();
    assert(all.take(0) =~= Seq::empty());
    let mut i: usize = 0;
    while i < list.len()
        invariant
            i <= list@.len(),
            all == text_params(texts(list@)),
            param_views(params@) == all.take(i as int),
        decreases list@.len() - i,
    {
        assert(all[i as int] == ParamView::Text(list@[i as int]@));
        assert(all.take(i + 1) =~= all.take(i as int).push(all[i as int]));
        bind(&mut params, text_param(list[i].as_str()));
        i += 1;
    }
    assert(all.take(all.len() as int) =~= all);
    params
}

/// A statement without placeholders.
fn plain(sql: &str) -> (r: Statement)
    ensures
        r@ == (StatementView { sql: sql@, params: Seq::empty() }),
{
    Statement { sql: sql.to_owned(), params: no_params() }
}

/// A statement with one value.
fn with_one(sql: &str, a: Param) -> (r: Statement)
    ensures
        r@ == (StatementView { sql: sql@, params: seq![a@] }),
{
    let mut params = no_params();
    bind(&mut params, a);
    assert(param_views(params@) =~= seq![a@]);
    Statement { sql: sql.to_owned(), params }
}

/// A statement with two values.
fn with_two(sql: &str, a: Param, b: Param) -> (r: Statement)
    ensures
        r@ == (StatementView { sql: sql@, params: seq![a@, b@] }),
{
    let mut params = no_params();
    bind(&mut params, a);
    bind(&mut params, b);
    assert(param_views(params@) =~= seq![a@, b@]);
    Statement { sql: sql.to_owned(), params }
}

// ---- placeholders ---------------------------------------------------------

/// `?1,?2,...` for `count` values.
pub open spec fn placeholders(count: nat) -> Seq<char>
    decreases count,
{
    if count == 0 {
        Seq::empty()
    } else if count == 1 {
        "?"@ + decimal(1)
    } else {
        placeholders((count - 1) as nat) + ",?"@ + decimal(count)
    }
}

/// A placeholder clause for `count` values.
pub open spec fn in_list(count: nat) -> Seq<char> {
    "("@ + placeholders(count) + ")"@
}

/// Build an `(?1,?2,...)` placeholder clause for `count` values.
pub fn in_clause(count: usize) -> (r: String)
    ensures
        r@ == in_list(count as nat),
{
    let mut marks = String::new();
    assert(marks@ =~= placeholders(0));
    let mut i: usize = 0;
    while i < count
        invariant
            i <= count,
            marks@ == placeholders(i as nat),
        decreases count - i,
    {
        if i == 0 {
            assert(marks@ + "?"@ =~= "?"@);
            marks.append("?");
        } else {
            marks.append(",?");
        }
        let n: u128 = i as u128 + 1;
        marks.append(text::decimal_text(n).as_str());
        i += 1;
    }
    "(".to_owned().concat(marks.as_str()).concat(")")
}

// ---- names and URLs -------------------------------------------------------

/// The owner and the name of a repository's full name. A name without a slash
/// is all name.
pub open spec fn repo_parts(full_name: Seq<char>) -> (Seq<char>, Seq<char>) {
    match cut_once(full_name, "/"@) {
        Some((owner, name)) => (owner, name),
        None => (Seq::empty(), full_name),
    }
}

/// Split an `owner/repo` full name into its parts. Falls back to treating the
/// whole string as the repo name when there is no slash.
pub fn split_repo<'a>(full_name: &'a str) -> (r: (&'a str, &'a str))
    ensures
        (r.0@, r.1@) == repo_parts(full_name@),
{
    match text::split_once(full_name, "/") {
        Some(p) => p,
        None => {
            let empty = full_name.substring_char(0, 0);
            assert(empty@ =~= Seq::empty());
            (empty, full_name)
        },
    }
}

/// The kind of a subject in a web URL.
pub open spec fn html_kind(kind: Seq<char>) -> Seq<char> {
    if kind == "pulls"@ {
        "pull"@
    } else if kind == "commits"@ {
        "commit"@
    } else {
        kind
    }
}

/// The web page of a subject, from its API URL.
pub open spec fn html_url_of(api: Option<Seq<char>>) -> Option<Seq<char>> {
    match api {
        Some(url) => match without_prefix(url, "https://api.github.com/repos/"@) {
            Some(rest) => match cut_once(rest, "/"@) {
                Some((owner, rest)) => match cut_once(rest, "/"@) {
                    Some((repo, rest)) => match cut_once(rest, "/"@) {
                        Some((kind, id)) => Some(
                            "https://github.com/"@ + owner + "/"@ + repo + "/"@ + html_kind(kind)
                                + "/"@ + id,
                        ),
                        None => None,
                    },
                    None => None,
                },
                None => None,
            },
            None => None,
        },
        None => None,
    }
}

/// Convert a subject API url (e.g. `https://api.github.com/repos/o/r/pulls/7`)
/// into the corresponding github.com HTML url.
pub fn subject_html_url(api: &Option<String>) -> (r: Option<String>)
    ensures
        opt_text(r) == html_url_of(opt_text(*api)),
{
    let url = match api {
        Some(u) => u,
        None => return None,
    };
    let rest = match text::strip_prefix(url.as_str(), "https://api.github.com/repos/") {
        Some(r) => r,
        None => return None,
    };
    let (owner, rest) = match text::split_once(rest, "/") {
        Some(p) => p,
        None => return None,
    };
    let (repo, rest) = match text::split_once(rest, "/") {
        Some(p) => p,
        None => return None,
    };
    let (kind, id) = match text::split_once(rest, "/") {
        Some(p) => p,
        None => return None,
    };
    let kind = if text::str_eq(kind, "pulls") {
        "pull"
    } else if text::str_eq(kind, "commits") {
        "commit"
    } else {
        kind
    };
    Some(
        "https://github.com/".to_owned().concat(owner).concat("/").concat(repo).concat("/").concat(
            kind,
        ).concat("/").concat(id),
    )
}

/// The check run that a thread's latest comment points to.
pub open spec fn check_url_of(latest_comment_url: Option<Seq<char>>) -> Option<Seq<char>> {
    match latest_comment_url {
        Some(url) => if has_substring(url, "/check-runs/"@) {
            Some(url)
        } else {
            None
        },
        None => None,
    }
}

/// The check run that a thread's latest comment points to.
fn check_url(latest_comment_url: &Option<String>) -> (r: Option<String>)
    ensures
        opt_text(r) == check_url_of(opt_text(*latest_comment_url)),
{
    match latest_comment_url {
        Some(url) => if text::contains(url.as_str(), "/check-runs/") {
            Some(url.clone())
        } else {
            None
        },
        None => None,
    }
}

/// Where local data is kept: the configured directory, or else below the XDG
/// data directory, or else below the home directory, or else here.
pub open spec fn data_dir(
    configured: Option<Seq<char>>,
    xdg: Option<Seq<char>>,
    home: Option<Seq<char>>,
) -> Seq<char> {
    match (configured, xdg, home) {
        (Some(dir), _, _) => dir,
        (None, Some(dir), _) => joined(dir, "github-notifications"@),
        (None, None, Some(dir)) => joined(dir, ".local/share/github-notifications"@),
        (None, None, None) => "data"@,
    }
}

/// Resolve the directory holding local data files from the values of
/// `GHNOTIFY_DATA_DIR`, `XDG_DATA_HOME` and `HOME`, in that order.
pub fn default_data_dir(
    configured: Option<String>,
    xdg: Option<String>,
    home: Option<String>,
) -> (r: String)
    ensures
        r@ == data_dir(opt_text(configured), opt_text(xdg), opt_text(home)),
{
    match (configured, xdg, home) {
        (Some(dir), _, _) => dir,
        (None, Some(dir), _) => join(dir.as_str(), "github-notifications"),
        (None, None, Some(dir)) => join(dir.as_str(), ".local/share/github-notifications"),
        (None, None, None) => "data".to_owned(),
    }
}

// ---- rows -----------------------------------------------------------------

/// One row of the queue (an open issue or PR joined to its latest thread).
#[derive(Debug, Clone)]
pub struct QueueItem {
    pub id: i64,
    pub repo: String,
    pub kind: String,
    pub number: i64,
    pub title: String,
    pub state: String,
    pub updated_at: String,
    pub created_at: String,
    pub html_url: String,
    pub thread_unread: bool,
    pub thread_reason: Option<String>,
    pub thread_updated: Option<String>,
}

/// Filters for the queue query.
#[derive(Debug, Clone, Copy)]
pub struct QueueFilter<'a> {
    pub repos: &'a [String],
    pub kind: Option<&'a str>,
    pub unread_only: bool,
    pub search: Option<&'a str>,
    /// "attention" | "updated" | "created" | "repo"
    pub sort: &'a str,
}

/// One row of the inbox (a notification thread).
#[derive(Debug, Clone)]
pub struct InboxItem {
    pub thread_id: String,
    pub repo: String,
    pub subject_type: String,
    pub subject_title: String,
    pub reason: String,
    pub unread: bool,
    pub updated_at: String,
    pub subject_api_url: Option<String>,
    pub subject_html_url: Option<String>,
}

/// Filters for the inbox query.
#[derive(Debug, Clone, Copy)]
pub struct InboxFilter<'a> {
    pub repos: &'a [String],
    pub subject_type: Option<&'a str>,
    pub reason: Option<&'a str>,
    pub unread_only: bool,
    pub sort: &'a str,
}

/// One row of the repos view.
#[derive(Debug, Clone)]
pub struct RepoItem {
    pub full_name: String,
    pub html_url: String,
    pub is_watched: bool,
    pub in_workspace: bool,
    pub last_refreshed_at: Option<String>,
    /// "watched" | "ignored" | "participating", once it is known.
    pub subscription_state: Option<String>,
}

/// Filters for the repos query.
#[derive(Debug, Clone, Copy)]
pub struct RepoFilter<'a> {
    /// Repos tracked by the current workspace (determines `in_workspace`).
    pub workspace_repos: &'a [String],
    /// "all" | "watched" | "untracked" | "ignored" (show mode)
    pub show: &'a str,
    pub search: Option<&'a str>,
}

/// Filters for the queue query.
pub struct QueueFilterView {
    pub repos: Seq<Seq<char>>,
    pub kind: Option<Seq<char>>,
    pub unread_only: bool,
    pub search: Option<Seq<char>>,
    pub sort: Seq<char>,
}

impl<'a> View for QueueFilter<'a> {
    type V = QueueFilterView;

    open spec fn view(&self) -> QueueFilterView {
        QueueFilterView {
            repos: texts(self.repos@),
            kind: opt_str(self.kind),
            unread_only: self.unread_only,
            search: opt_str(self.search),
            sort: self.sort@,
        }
    }
}

/// Filters for the inbox query.
pub struct InboxFilterView {
    pub repos: Seq<Seq<char>>,
    pub subject_type: Option<Seq<char>>,
    pub reason: Option<Seq<char>>,
    pub unread_only: bool,
    pub sort: Seq<char>,
}

impl<'a> View for InboxFilter<'a> {
    type V = InboxFilterView;

    open spec fn view(&self) -> InboxFilterView {
        InboxFilterView {
            repos: texts(self.repos@),
            subject_type: opt_str(self.subject_type),
            reason: opt_str(self.reason),
            unread_only: self.unread_only,
            sort: self.sort@,
        }
    }
}

/// Filters for the repos query.
pub struct RepoFilterView {
    pub workspace_repos: Seq<Seq<char>>,
    pub show: Seq<char>,
    pub search: Option<Seq<char>>,
}

impl<'a> View for RepoFilter<'a> {
    type V = RepoFilterView;

    open spec fn view(&self) -> RepoFilterView {
        RepoFilterView {
            workspace_repos: texts(self.workspace_repos@),
            show: self.show@,
            search: opt_str(self.search),
        }
    }
}

impl QueueItem {
    /// The item for the columns of a row.
    pub fn from_row(
        id: i64,
        repo: String,
        kind: String,
        number: i64,
        title: String,
        state: String,
        updated_at: String,
        created_at: String,
        html_url: String,
        thread_unread: i64,
        thread_reason: Option<String>,
        thread_updated: Option<String>,
    ) -> (r: QueueItem)
        ensures
            r == (QueueItem {
                id,
                repo,
                kind,
                number,
                title,
                state,
                updated_at,
                created_at,
                html_url,
                thread_unread: thread_unread != 0,
                thread_reason,
                thread_updated,
            }),
    {
        QueueItem {
            id,
            repo,
            kind,
            number,
            title,
            state,
            updated_at,
            created_at,
            html_url,
            thread_unread: thread_unread != 0,
            thread_reason,
            thread_updated,
        }
    }
}

impl InboxItem {
    /// The item for the columns of a row.
    pub fn from_row(
        thread_id: String,
        repo: String,
        subject_type: String,
        subject_title: String,
        reason: String,
        unread: i64,
        updated_at: String,
        subject_api_url: Option<String>,
    ) -> (r: InboxItem)
        ensures
            r.thread_id == thread_id,
            r.repo == repo,
            r.subject_type == subject_type,
            r.subject_title == subject_title,
            r.reason == reason,
            r.unread == (unread != 0),
            r.updated_at == updated_at,
            r.subject_api_url == subject_api_url,
            opt_text(r.subject_html_url) == html_url_of(opt_text(subject_api_url)),
    {
        let subject_html_url = subject_html_url(&subject_api_url);
        InboxItem {
            thread_id,
            repo,
            subject_type,
            subject_title,
            reason,
            unread: unread != 0,
            updated_at,
            subject_api_url,
            subject_html_url,
        }
    }
}

impl RepoItem {
    /// The item for the columns of a row, given the workspace's repos.
    pub fn from_row(
        workspace_repos: &Vec<String>,
        full_name: String,
        html_url: String,
        is_watched: i64,
        last_refreshed_at: Option<String>,
        subscription_state: Option<String>,
    ) -> (r: RepoItem)
        ensures
            r.full_name == full_name,
            r.html_url == html_url,
            r.is_watched == (is_watched != 0),
            r.in_workspace == texts(workspace_repos@).contains(full_name@),
            r.last_refreshed_at == last_refreshed_at,
            r.subscription_state == subscription_state,
    {
        let in_workspace = text::holds(workspace_repos, full_name.as_str());
        RepoItem {
            full_name,
            html_url,
            is_watched: is_watched != 0,
            in_workspace,
            last_refreshed_at,
            subscription_state,
        }
    }
}

/// The repository of a thread. Threads without one are not cached.
pub fn thread_repo(thread: &NotificationThread) -> (r: Option<&ThreadRepository>)
    ensures
        match r {
            Some(repo) => thread.repository == Some(*repo),
            None => thread.repository is None,
        },
{
    match &thread.repository {
        Some(repo) => Some(repo),
        None => None,
    }
}

// ---- the schema -----------------------------------------------------------

/// The tables of the cache.
pub const SCHEMA: &'static str = "
CREATE TABLE IF NOT EXISTS repos (
    id               INTEGER PRIMARY KEY,
    full_name        TEXT NOT NULL UNIQUE,
    owner            TEXT NOT NULL,
    name             TEXT NOT NULL,
    html_url         TEXT,
    is_watched       INTEGER NOT NULL DEFAULT 0,
    last_refreshed_at TEXT,
    subscription_state TEXT,
    subscription_etag TEXT,
    subscription_checked_at TEXT
);

CREATE TABLE IF NOT EXISTS issues (
    id         INTEGER PRIMARY KEY,
    repo_id    INTEGER NOT NULL REFERENCES repos(id) ON DELETE CASCADE,
    github_id  INTEGER NOT NULL,
    number     INTEGER NOT NULL,
    kind       TEXT NOT NULL CHECK (kind IN ('issue', 'pr')),
    title      TEXT NOT NULL,
    state      TEXT NOT NULL,
    author     TEXT,
    created_at TEXT,
    updated_at TEXT,
    closed_at  TEXT,
    merged_at  TEXT,
    html_url   TEXT,
    api_url    TEXT NOT NULL UNIQUE,
    UNIQUE (repo_id, kind, number)
);

CREATE TABLE IF NOT EXISTS threads (
    id            INTEGER PRIMARY KEY,
    thread_id     TEXT NOT NULL UNIQUE,
    repo_id       INTEGER REFERENCES repos(id) ON DELETE CASCADE,
    subject_type  TEXT,
    subject_title TEXT,
    subject_url   TEXT,
    subject_api_url TEXT,
    subject_check_url TEXT,
    subject_state TEXT,
    subject_state_html_url TEXT,
    subject_state_etag TEXT,
    subject_state_checked_at TEXT,
    subject_author TEXT,
    reason        TEXT,
    unread        INTEGER NOT NULL DEFAULT 1,
    updated_at    TEXT,
    last_read_at  TEXT,
    api_url       TEXT
);

CREATE TABLE IF NOT EXISTS sync_state (
    key   TEXT PRIMARY KEY,
    value TEXT
);

CREATE TABLE IF NOT EXISTS open_issues (
    full_name TEXT NOT NULL,
    api_url   TEXT NOT NULL,
    PRIMARY KEY (full_name, api_url)
);

CREATE TABLE IF NOT EXISTS dismissed_subjects (
    subject_api_url TEXT PRIMARY KEY
);
";

pub const SELECT_SYNC_STATE: &'static str = "SELECT value FROM sync_state WHERE key = ?1";

pub const UPSERT_SYNC_STATE: &'static str = "INSERT INTO sync_state (key, value) VALUES (?1, ?2)
             ON CONFLICT (key) DO UPDATE SET value = excluded.value";

pub const UPSERT_REPO: &'static str = "INSERT INTO repos (full_name, owner, name, html_url)
                 VALUES (?1, ?2, ?3, ?4)
                 ON CONFLICT (full_name) DO UPDATE SET
                   html_url = COALESCE(repos.html_url, excluded.html_url)
                 RETURNING id";

pub const UPSERT_ISSUE: &'static str = "INSERT INTO issues
               (repo_id, github_id, number, kind, title, state, author,
                created_at, updated_at, closed_at, merged_at, html_url, api_url)
             VALUES (?1, ?2, ?3, ?4, ?5, ?6, ?7, ?8, ?9, ?10, ?11, ?12, ?13)
             ON CONFLICT (repo_id, kind, number) DO UPDATE SET
               github_id = excluded.github_id,
               title = excluded.title,
               state = excluded.state,
               author = excluded.author,
               updated_at = excluded.updated_at,
               closed_at = excluded.closed_at,
               merged_at = excluded.merged_at,
               html_url = excluded.html_url,
               api_url = excluded.api_url,
               created_at = COALESCE(issues.created_at, excluded.created_at)";

pub const UPSERT_THREAD: &'static str = "INSERT INTO threads
               (thread_id, repo_id, subject_type, subject_title, subject_url,
                subject_api_url, reason, unread, updated_at, last_read_at, api_url,
                subject_check_url)
             VALUES (?1, ?2, ?3, ?4, ?5, ?6, ?7, ?8, ?9, ?10, ?11, ?12)
             ON CONFLICT (thread_id) DO UPDATE SET
               repo_id = excluded.repo_id,
               subject_type = excluded.subject_type,
               subject_title = excluded.subject_title,
               subject_url = excluded.subject_url,
               subject_api_url = excluded.subject_api_url,
               subject_check_url = excluded.subject_check_url,
               reason = excluded.reason,
               unread = excluded.unread,
               updated_at = excluded.updated_at,
               last_read_at = excluded.last_read_at";

pub const UPDATE_THREAD_UNREAD: &'static str = "UPDATE threads SET unread = ?2 WHERE thread_id = ?1";

pub const SELECT_UNREAD_PR_THREADS: &'static str = "SELECT thread_id, api_url, subject_api_url FROM threads
                 WHERE unread = 1 AND subject_type = 'PullRequest'
                   AND api_url IS NOT NULL AND subject_api_url IS NOT NULL";

pub const CLEAR_WATCHED: &'static str = "UPDATE repos SET is_watched = 0";

pub const MARK_WATCHED: &'static str = "UPDATE repos SET is_watched = 1 WHERE id = ?1";

pub const UPDATE_REPO_REFRESHED: &'static str = "UPDATE repos SET last_refreshed_at = ?2 WHERE full_name = ?1";

pub const COUNT_UNREAD_THREADS: &'static str = "SELECT COUNT(*) FROM threads WHERE unread = 1";

pub const SELECT_ISSUE_API_URL: &'static str = "SELECT api_url FROM issues WHERE id = ?1";

pub const SELECT_THREAD_API_URL: &'static str = "SELECT api_url FROM threads WHERE thread_id = ?1";

pub const SELECT_THREADS_FOR_SUBJECT: &'static str = "SELECT thread_id, api_url FROM threads WHERE subject_api_url = ?1";

pub const UPDATE_REPO_WATCHED: &'static str = "UPDATE repos SET is_watched = ?2 WHERE full_name = ?1";

pub const SELECT_REPO_WATCHED: &'static str = "SELECT is_watched FROM repos WHERE full_name = ?1";

pub const SELECT_SUBSCRIPTION_ETAG: &'static str = "SELECT subscription_etag FROM repos WHERE full_name = ?1";

pub const TOUCH_SUBSCRIPTION: &'static str = "UPDATE repos SET subscription_checked_at = ?2 WHERE full_name = ?1";

pub const UPDATE_SUBSCRIPTION: &'static str = "UPDATE repos SET subscription_state = ?2, subscription_etag = ?3,
               subscription_checked_at = ?4 WHERE full_name = ?1";

pub const UPDATE_SUBSCRIPTION_STATE: &'static str = "UPDATE repos SET subscription_state = ?2 WHERE full_name = ?1";

pub const SELECT_SUBJECT_ETAG: &'static str = "SELECT subject_state_etag FROM threads WHERE thread_id = ?1";

pub const TOUCH_SUBJECT: &'static str = "UPDATE threads SET subject_state_checked_at = ?2 WHERE thread_id = ?1";

pub const UPDATE_SUBJECT: &'static str = "UPDATE threads SET subject_state = ?2, subject_state_html_url = ?3,
               subject_state_etag = ?4, subject_state_checked_at = ?5 WHERE thread_id = ?1";

pub const UPDATE_SUBJECT_AUTHOR: &'static str = "UPDATE threads SET subject_author = ?2 WHERE thread_id = ?1";

pub const SELECT_DISMISSED: &'static str = "SELECT subject_api_url FROM dismissed_subjects";

pub const INSERT_DISMISSED: &'static str = "INSERT OR IGNORE INTO dismissed_subjects (subject_api_url) VALUES (?1)";

pub const SELECT_OPEN_ISSUES: &'static str = "SELECT api_url FROM open_issues WHERE full_name = ?1";

pub const CLEAR_OPEN_ISSUES: &'static str = "DELETE FROM open_issues WHERE full_name = ?1";

pub const INSERT_OPEN_ISSUE: &'static str = "INSERT OR IGNORE INTO open_issues (full_name, api_url) VALUES (?1, ?2)";

pub const SELECT_QUEUE: &'static str = "SELECT i.id, r.full_name, i.kind, i.number, i.title, i.state,
                    i.updated_at, i.created_at, i.html_url,
                    COALESCE((SELECT t.unread FROM threads t
                              WHERE t.repo_id = i.repo_id AND t.subject_api_url = i.api_url
                              ORDER BY t.updated_at DESC LIMIT 1), 0) AS thread_unread,
                    (SELECT t.reason FROM threads t
                     WHERE t.repo_id = i.repo_id AND t.subject_api_url = i.api_url
                     ORDER BY t.updated_at DESC LIMIT 1) AS thread_reason,
                    (SELECT t.updated_at FROM threads t
                     WHERE t.repo_id = i.repo_id AND t.subject_api_url = i.api_url
                     ORDER BY t.updated_at DESC LIMIT 1) AS thread_updated
             FROM issues i JOIN repos r ON r.id = i.repo_id
             WHERE i.state = 'open'";

pub const QUEUE_UNREAD: &'static str = " AND EXISTS (SELECT 1 FROM threads t
                             WHERE t.repo_id = i.repo_id AND t.subject_api_url = i.api_url
                               AND t.unread = 1)";

pub const SELECT_INBOX: &'static str = "SELECT t.thread_id, r.full_name, t.subject_type, t.subject_title,
                    t.reason, t.unread, t.updated_at, t.subject_api_url
             FROM threads t JOIN repos r ON r.id = t.repo_id
             WHERE 1 = 1";

pub const SELECT_REPOS: &'static str = "SELECT r.full_name, r.html_url, r.is_watched, r.last_refreshed_at,
                    CASE WHEN r.is_watched = 1 THEN 'watched' ELSE r.subscription_state END
             FROM repos r WHERE (r.is_watched = 1";

pub const SELECT_SUBJECT_THREADS: &'static str = "SELECT t.thread_id, t.subject_type, t.subject_api_url, t.subject_check_url,
                    t.subject_title, r.full_name, t.updated_at
             FROM threads t JOIN repos r ON r.id = t.repo_id
             WHERE t.subject_type IN ('PullRequest', 'Issue', 'CheckSuite', 'CheckRun')
               AND (t.subject_api_url IS NOT NULL OR t.subject_check_url IS NOT NULL
                    OR t.subject_state IS NULL)";

pub const SELECT_PR_THREADS: &'static str = "SELECT t.thread_id, t.api_url, t.subject_api_url, t.subject_state, t.unread
             FROM threads t JOIN repos r ON r.id = t.repo_id
             WHERE t.subject_type = 'PullRequest'
               AND t.api_url IS NOT NULL AND t.subject_api_url IS NOT NULL";

// ---- queries with filters -------------------------------------------------

/// The condition that a row belongs to one of `count` repos.
pub open spec fn repo_condition(count: nat) -> Seq<char> {
    " AND r.full_name IN "@ + in_list(count)
}

/// The pattern that finds a text anywhere.
pub open spec fn like_pattern(search: Seq<char>) -> Seq<char> {
    "%"@ + search + "%"@
}

/// The contents of an optional text.
pub open spec fn opt_str(s: Option<&str>) -> Option<Seq<char>> {
    match s {
        Some(t) => Some(t@),
        None => None,
    }
}

/// The contents of an optional text, or nothing.
pub open spec fn text_or_empty(s: Option<Seq<char>>) -> Seq<char> {
    match s {
        Some(t) => t,
        None => Seq::empty(),
    }
}

/// The order of the queue: by what wants attention, unless another is asked for.
pub open spec fn queue_order(sort: Seq<char>) -> Seq<char> {
    if sort == "updated"@ {
        " ORDER BY i.updated_at DESC"@
    } else if sort == "created"@ {
        " ORDER BY i.created_at DESC"@
    } else if sort == "repo"@ {
        " ORDER BY r.full_name, i.number DESC"@
    } else {
        " ORDER BY COALESCE(thread_updated, i.updated_at) DESC"@
    }
}

/// The queue query: open issues and pull requests of the given repos, narrowed
/// by kind, by unread threads and by a text in the title.
pub open spec fn queue_query(f: QueueFilterView) -> StatementView {
    let repos = f.repos;
    let by_kind = f.kind is Some;
    let by_title = f.search is Some && f.search->0.len() > 0;
    StatementView {
        sql: SELECT_QUEUE@ + repo_condition(repos.len()) + (if by_kind {
            " AND i.kind = ?"@
        } else {
            ""@
        }) + (if f.unread_only {
            QUEUE_UNREAD@
        } else {
            ""@
        }) + (if by_title {
            " AND i.title LIKE ?"@
        } else {
            ""@
        }) + queue_order(f.sort),
        params: text_params(repos) + (if by_kind {
            seq![ParamView::Text(f.kind->0)]
        } else {
            Seq::empty()
        }) + (if by_title {
            seq![ParamView::Text(like_pattern(f.search->0))]
        } else {
            Seq::empty()
        }),
    }
}

/// Whether a filter value narrows a query: "all" does not.
pub open spec fn narrows(value: Option<Seq<char>>) -> bool {
    value matches Some(v) && v != "all"@
}

/// The inbox query: threads of the given repos, narrowed by unread, by subject
/// type and by reason.
pub open spec fn inbox_query(f: InboxFilterView) -> StatementView {
    let repos = f.repos;
    StatementView {
        sql: SELECT_INBOX@ + repo_condition(repos.len()) + (if f.unread_only {
            " AND t.unread = 1"@
        } else {
            ""@
        }) + (if narrows(f.subject_type) {
            " AND t.subject_type = ?"@
        } else {
            ""@
        }) + (if narrows(f.reason) {
            " AND t.reason = ?"@
        } else {
            ""@
        }) + (if f.sort == "repo"@ {
            " ORDER BY r.full_name, t.updated_at DESC"@
        } else {
            " ORDER BY t.updated_at DESC"@
        }),
        params: text_params(repos) + (if narrows(f.subject_type) {
            seq![ParamView::Text(f.subject_type->0)]
        } else {
            Seq::empty()
        }) + (if narrows(f.reason) {
            seq![ParamView::Text(f.reason->0)]
        } else {
            Seq::empty()
        }),
    }
}

/// The condition of a show mode of the repos view.
pub open spec fn show_condition(show: Seq<char>) -> Seq<char> {
    if show == "watched"@ {
        " AND r.is_watched = 1"@
    } else if show == "untracked"@ {
        " AND r.is_watched = 0"@
    } else if show == "ignored"@ {
        " AND r.is_watched = 0 AND r.subscription_state = 'ignored'"@
    } else {
        ""@
    }
}

/// The repos query: repos that are watched or tracked by the workspace,
/// narrowed by show mode and by a text in the name.
pub open spec fn repos_query(f: RepoFilterView) -> StatementView {
    let repos = f.workspace_repos;
    let by_name = f.search is Some && f.search->0.len() > 0;
    StatementView {
        sql: SELECT_REPOS@ + (if repos.len() > 0 {
            " OR r.full_name IN "@ + in_list(repos.len())
        } else {
            ""@
        }) + ")"@ + show_condition(f.show) + (if by_name {
            " AND r.full_name LIKE ?"@
        } else {
            ""@
        }) + " ORDER BY r.full_name"@,
        params: text_params(repos) + (if by_name {
            seq![ParamView::Text(like_pattern(f.search->0))]
        } else {
            Seq::empty()
        }),
    }
}

/// An update of the unread flag of several rows: the rows' values come first,
/// then the flag.
pub open spec fn unread_update(head: Seq<char>, middle: Seq<char>, tail: Seq<char>, ids: Seq<
    Seq<char>,
>, unread: bool) -> StatementView {
    StatementView {
        sql: head + decimal((ids.len() + 1) as nat) + middle + in_list(ids.len()) + tail,
        params: text_params(ids).push(ParamView::Flag(unread)),
    }
}

/// A condition on a list of texts at the end of a statement.
pub open spec fn with_list(sql: Seq<char>, list: Seq<Seq<char>>) -> StatementView {
    StatementView { sql: sql + in_list(list.len()), params: text_params(list) }
}

/// An optional text is appended when a condition holds.
proof fn lemma_append_nothing(s: Seq<char>)
    ensures
        s + ""@ == s,
{
    reveal_strlit("");
    assert(s + ""@ =~= s);
}

/// The pattern that finds a text anywhere.
fn like(search: &str) -> (r: Param)
    ensures
        r@ == ParamView::Text(like_pattern(search@)),
{
    Param::Text("%".to_owned().concat(search).concat("%"))
}

/// The statements of the local cache of GitHub data.
pub struct Database {}

impl Database {
    /// The stored sync state value for `key`, if any.
    pub fn get_sync_state(key: &str) -> (r: Statement)
        ensures
            r@ == (StatementView { sql: "SELECT value FROM sync_state WHERE key = ?1"@, params: seq![ParamView::Text(key@)] }),
    {
        with_one(SELECT_SYNC_STATE, text_param(key))
    }

    /// Set the stored sync state value for `key`.
    pub fn set_sync_state(key: &str, value: &str) -> (r: Statement)
        ensures
            r@ == (StatementView {
                sql: "INSERT INTO sync_state (key, value) VALUES (?1, ?2)
             ON CONFLICT (key) DO UPDATE SET value = excluded.value"@,
                params: seq![ParamView::Text(key@), ParamView::Text(value@)],
            }),
    {
        with_two(UPSERT_SYNC_STATE, text_param(key), text_param(value))
    }

    /// Upsert a repository by full name, returning its row id.
    pub fn upsert_repo(full_name: &str, html_url: Option<&str>) -> (r: Statement)
        ensures
            r@ == (StatementView {
                sql: "INSERT INTO repos (full_name, owner, name, html_url)
                 VALUES (?1, ?2, ?3, ?4)
                 ON CONFLICT (full_name) DO UPDATE SET
                   html_url = COALESCE(repos.html_url, excluded.html_url)
                 RETURNING id"@,
                params: seq![
                    ParamView::Text(full_name@),
                    ParamView::Text(repo_parts(full_name@).0),
                    ParamView::Text(repo_parts(full_name@).1),
                    ParamView::Text(text_or_empty(opt_str(html_url))),
                ],
            }),
    {
        let (owner, name) = split_repo(full_name);
        let mut params = no_params();
        bind(&mut params, text_param(full_name));
        bind(&mut params, text_param(owner));
        bind(&mut params, text_param(name));
        let url = match html_url {
            Some(u) => u.to_owned(),
            None => {
                let empty = String::new();
                assert(empty@ =~= Seq::empty());
                empty
            },
        };
        bind(&mut params, Param::Text(url));
        assert(param_views(params@) =~= seq![
            ParamView::Text(full_name@),
            ParamView::Text(repo_parts(full_name@).0),
            ParamView::Text(repo_parts(full_name@).1),
            ParamView::Text(text_or_empty(opt_str(html_url))),
        ]);
        Statement { sql: UPSERT_REPO.to_owned(), params }
    }

    /// Upsert an issue or pull request belonging to `repo_id`.
    pub fn upsert_issue(
        repo_id: i64,
        issue: &GithubIssue,
        kind: IssueKind,
        merged_at: &Option<String>,
    ) -> (r: Statement)
        ensures
            r@ == (StatementView {
                sql: "INSERT INTO issues
               (repo_id, github_id, number, kind, title, state, author,
                created_at, updated_at, closed_at, merged_at, html_url, api_url)
             VALUES (?1, ?2, ?3, ?4, ?5, ?6, ?7, ?8, ?9, ?10, ?11, ?12, ?13)
             ON CONFLICT (repo_id, kind, number) DO UPDATE SET
               github_id = excluded.github_id,
               title = excluded.title,
               state = excluded.state,
               author = excluded.author,
               updated_at = excluded.updated_at,
               closed_at = excluded.closed_at,
               merged_at = excluded.merged_at,
               html_url = excluded.html_url,
               api_url = excluded.api_url,
               created_at = COALESCE(issues.created_at, excluded.created_at)"@,
                params: seq![
                    ParamView::Integer(repo_id),
                    ParamView::Unsigned(issue.id),
                    ParamView::Unsigned(issue.number),
                    ParamView::Text(kind_name(kind)),
                    ParamView::Text(issue.title@),
                    ParamView::Text(issue.state@),
                    opt_param(login_of(issue.user)),
                    ParamView::Text(issue.created_at@),
                    ParamView::Text(issue.updated_at@),
                    opt_param(opt_text(issue.closed_at)),
                    opt_param(opt_text(*merged_at)),
                    ParamView::Text(issue.html_url@),
                    ParamView::Text(issue.url@),
                ],
            }),
    {
        let author = match &issue.user {
            Some(u) => Param::Text(u.login.clone()),
            None => Param::Null,
        };
        let mut params = no_params();
        bind(&mut params, Param::Integer(repo_id));
        bind(&mut params, Param::Unsigned(issue.id));
        bind(&mut params, Param::Unsigned(issue.number));
        bind(&mut params, text_param(kind.name()));
        bind(&mut params, text_param(issue.title.as_str()));
        bind(&mut params, text_param(issue.state.as_str()));
        bind(&mut params, author);
        bind(&mut params, text_param(issue.created_at.as_str()));
        bind(&mut params, text_param(issue.updated_at.as_str()));
        bind(&mut params, opt_text_param(&issue.closed_at));
        bind(&mut params, opt_text_param(merged_at));
        bind(&mut params, text_param(issue.html_url.as_str()));
        bind(&mut params, text_param(issue.url.as_str()));
        assert(param_views(params@) =~= seq![
            ParamView::Integer(repo_id),
            ParamView::Unsigned(issue.id),
            ParamView::Unsigned(issue.number),
            ParamView::Text(kind_name(kind)),
            ParamView::Text(issue.title@),
            ParamView::Text(issue.state@),
            opt_param(login_of(issue.user)),
            ParamView::Text(issue.created_at@),
            ParamView::Text(issue.updated_at@),
            opt_param(opt_text(issue.closed_at)),
            opt_param(opt_text(*merged_at)),
            ParamView::Text(issue.html_url@),
            ParamView::Text(issue.url@),
        ]);
        Statement { sql: UPSERT_ISSUE.to_owned(), params }
    }

    /// Upsert a notification thread of the repository `repo_id`.
    pub fn upsert_thread(thread: &NotificationThread, repo_id: i64) -> (r: Statement)
        ensures
            r@ == (StatementView {
                sql: "INSERT INTO threads
               (thread_id, repo_id, subject_type, subject_title, subject_url,
                subject_api_url, reason, unread, updated_at, last_read_at, api_url,
                subject_check_url)
             VALUES (?1, ?2, ?3, ?4, ?5, ?6, ?7, ?8, ?9, ?10, ?11, ?12)
             ON CONFLICT (thread_id) DO UPDATE SET
               repo_id = excluded.repo_id,
               subject_type = excluded.subject_type,
               subject_title = excluded.subject_title,
               subject_url = excluded.subject_url,
               subject_api_url = excluded.subject_api_url,
               subject_check_url = excluded.subject_check_url,
               reason = excluded.reason,
               unread = excluded.unread,
               updated_at = excluded.updated_at,
               last_read_at = excluded.last_read_at"@,
                params: seq![
                    ParamView::Text(thread.id@),
                    ParamView::Integer(repo_id),
                    ParamView::Text(thread.subject.kind@),
                    ParamView::Text(thread.subject.title@),
                    opt_param(opt_text(thread.subject.url)),
                    opt_param(opt_text(thread.subject.url)),
                    ParamView::Text(thread.reason@),
                    ParamView::Flag(thread.unread),
                    ParamView::Text(thread.updated_at@),
                    opt_param(opt_text(thread.last_read_at)),
                    ParamView::Text(thread.url@),
                    opt_param(check_url_of(opt_text(thread.subject.latest_comment_url))),
                ],
            }),
    {
        let check = check_url(&thread.subject.latest_comment_url);
        let mut params = no_params();
        bind(&mut params, text_param(thread.id.as_str()));
        bind(&mut params, Param::Integer(repo_id));
        bind(&mut params, text_param(thread.subject.kind.as_str()));
        bind(&mut params, text_param(thread.subject.title.as_str()));
        bind(&mut params, opt_text_param(&thread.subject.url));
        bind(&mut params, opt_text_param(&thread.subject.url));
        bind(&mut params, text_param(thread.reason.as_str()));
        bind(&mut params, Param::Flag(thread.unread));
        bind(&mut params, text_param(thread.updated_at.as_str()));
        bind(&mut params, opt_text_param(&thread.last_read_at));
        bind(&mut params, text_param(thread.url.as_str()));
        bind(&mut params, opt_text_param(&check));
        assert(param_views(params@) =~= seq![
            ParamView::Text(thread.id@),
            ParamView::Integer(repo_id),
            ParamView::Text(thread.subject.kind@),
            ParamView::Text(thread.subject.title@),
            opt_param(opt_text(thread.subject.url)),
            opt_param(opt_text(thread.subject.url)),
            ParamView::Text(thread.reason@),
            ParamView::Flag(thread.unread),
            ParamView::Text(thread.updated_at@),
            opt_param(opt_text(thread.last_read_at)),
            ParamView::Text(thread.url@),
            opt_param(check_url_of(opt_text(thread.subject.latest_comment_url))),
        ]);
        Statement { sql: UPSERT_THREAD.to_owned(), params }
    }

    /// Set a thread's unread flag locally (after marking read on GitHub).
    pub fn set_thread_unread(thread_id: &str, unread: bool) -> (r: Statement)
        ensures
            r@ == (StatementView {
                sql: "UPDATE threads SET unread = ?2 WHERE thread_id = ?1"@,
                params: seq![ParamView::Text(thread_id@), ParamView::Flag(unread)],
            }),
    {
        with_two(UPDATE_THREAD_UNREAD, text_param(thread_id), Param::Flag(unread))
    }

    /// Notification id, thread API url, and subject API url for unread
    /// pull-request threads.
    pub fn get_unread_pr_threads() -> (r: Statement)
        ensures
            r@ == (StatementView { sql: "SELECT thread_id, api_url, subject_api_url FROM threads
                 WHERE unread = 1 AND subject_type = 'PullRequest'
                   AND api_url IS NOT NULL AND subject_api_url IS NOT NULL"@, params: Seq::empty() }),
    {
        plain(SELECT_UNREAD_PR_THREADS)
    }

    /// Mark every repo as not watched (start of a watch sync pass).
    pub fn clear_watched() -> (r: Statement)
        ensures
            r@ == (StatementView { sql: "UPDATE repos SET is_watched = 0"@, params: Seq::empty() }),
    {
        plain(CLEAR_WATCHED)
    }

    /// Upsert a watched repository, returning its row id; `mark_watched` then
    /// flags the row.
    pub fn upsert_watched_repo(full_name: &str, html_url: &str) -> (r: Statement)
        ensures
            r@ == (StatementView {
                sql: "INSERT INTO repos (full_name, owner, name, html_url)
                 VALUES (?1, ?2, ?3, ?4)
                 ON CONFLICT (full_name) DO UPDATE SET
                   html_url = COALESCE(repos.html_url, excluded.html_url)
                 RETURNING id"@,
                params: seq![
                    ParamView::Text(full_name@),
                    ParamView::Text(repo_parts(full_name@).0),
                    ParamView::Text(repo_parts(full_name@).1),
                    ParamView::Text(html_url@),
                ],
            }),
    {
        Database::upsert_repo(full_name, Some(html_url))
    }

    /// Flag the repository `id` as watched.
    pub fn mark_watched(id: i64) -> (r: Statement)
        ensures
            r@ == (StatementView { sql: "UPDATE repos SET is_watched = 1 WHERE id = ?1"@, params: seq![ParamView::Integer(id)] }),
    {
        with_one(MARK_WATCHED, Param::Integer(id))
    }

    /// Record the last refresh time for a repository.
    pub fn set_repo_refreshed(full_name: &str, at: &str) -> (r: Statement)
        ensures
            r@ == (StatementView {
                sql: "UPDATE repos SET last_refreshed_at = ?2 WHERE full_name = ?1"@,
                params: seq![ParamView::Text(full_name@), ParamView::Text(at@)],
            }),
    {
        with_two(UPDATE_REPO_REFRESHED, text_param(full_name), text_param(at))
    }

    /// Count rows in a table (used by tests and status reporting).
    pub fn count(table: &str) -> (r: Statement)
        ensures
            r@ == (StatementView { sql: "SELECT COUNT(*) FROM "@ + table@, params: Seq::empty() }),
    {
        plain("SELECT COUNT(*) FROM ".to_owned().concat(table).as_str())
    }

    /// Number of unread threads currently cached.
    pub fn unread_thread_count() -> (r: Statement)
        ensures
            r@ == (StatementView { sql: "SELECT COUNT(*) FROM threads WHERE unread = 1"@, params: Seq::empty() }),
    {
        plain(COUNT_UNREAD_THREADS)
    }

    /// List open issues/PRs for the given repos, joined to their latest thread.
    pub fn list_queue(f: &QueueFilter) -> (r: Statement)
        ensures
            r@ == queue_query(f@),
            r@.sql == "SELECT i.id, r.full_name, i.kind, i.number, i.title, i.state,
                    i.updated_at, i.created_at, i.html_url,
                    COALESCE((SELECT t.unread FROM threads t
                              WHERE t.repo_id = i.repo_id AND t.subject_api_url = i.api_url
                              ORDER BY t.updated_at DESC LIMIT 1), 0) AS thread_unread,
                    (SELECT t.reason FROM threads t
                     WHERE t.repo_id = i.repo_id AND t.subject_api_url = i.api_url
                     ORDER BY t.updated_at DESC LIMIT 1) AS thread_reason,
                    (SELECT t.updated_at FROM threads t
                     WHERE t.repo_id = i.repo_id AND t.subject_api_url = i.api_url
                     ORDER BY t.updated_at DESC LIMIT 1) AS thread_updated
             FROM issues i JOIN repos r ON r.id = i.repo_id
             WHERE i.state = 'open'"@ + (" AND r.full_name IN "@ + ("("@ + placeholders(f.repos@.len()) + ")"@))
                + (if f.kind is Some {
                " AND i.kind = ?"@
            } else {
                ""@
            }) + (if f.unread_only {
                " AND EXISTS (SELECT 1 FROM threads t
                             WHERE t.repo_id = i.repo_id AND t.subject_api_url = i.api_url
                               AND t.unread = 1)"@
            } else {
                ""@
            }) + (if f.search matches Some(t) && t@.len() > 0 {
                " AND i.title LIKE ?"@
            } else {
                ""@
            }) + (if f.sort@ == "updated"@ {
                " ORDER BY i.updated_at DESC"@
            } else if f.sort@ == "created"@ {
                " ORDER BY i.created_at DESC"@
            } else if f.sort@ == "repo"@ {
                " ORDER BY r.full_name, i.number DESC"@
            } else {
                " ORDER BY COALESCE(thread_updated, i.updated_at) DESC"@
            }),
    {
        let mut sql = SELECT_QUEUE.to_owned();
        sql.append(" AND r.full_name IN ".to_owned().concat(in_clause(f.repos.len()).as_str()).as_str());
        let mut params = bind_texts(f.repos);
        proof {
            lemma_append_nothing(sql@);
        }
        if let Some(kind) = f.kind {
            sql.append(" AND i.kind = ?");
            bind(&mut params, text_param(kind));
        }
        assert(param_views(params@) =~= text_params(texts(f.repos@)) + (if f.kind is Some {
            seq![ParamView::Text((f.kind->0)@)]
        } else {
            Seq::empty()
        }));
        proof {
            lemma_append_nothing(sql@);
        }
        if f.unread_only {
            sql.append(QUEUE_UNREAD);
        }
        proof {
            lemma_append_nothing(sql@);
        }
        if let Some(search) = f.search {
            if search.unicode_len() > 0 {
                sql.append(" AND i.title LIKE ?");
                bind(&mut params, like(search));
            }
        }
        assert(param_views(params@) =~= queue_query(f@).params);
        let order = if text::str_eq(f.sort, "updated") {
            " ORDER BY i.updated_at DESC"
        } else if text::str_eq(f.sort, "created") {
            " ORDER BY i.created_at DESC"
        } else if text::str_eq(f.sort, "repo") {
            " ORDER BY r.full_name, i.number DESC"
        } else {
            " ORDER BY COALESCE(thread_updated, i.updated_at) DESC"
        };
        sql.append(order);
        Statement { sql, params }
    }

    /// List notification threads for the given repos.
    pub fn list_inbox(f: &InboxFilter) -> (r: Statement)
        ensures
            r@ == inbox_query(f@),
            r@.sql == "SELECT t.thread_id, r.full_name, t.subject_type, t.subject_title,
                    t.reason, t.unread, t.updated_at, t.subject_api_url
             FROM threads t JOIN repos r ON r.id = t.repo_id
             WHERE 1 = 1"@ + (" AND r.full_name IN "@ + ("("@ + placeholders(f.repos@.len()) + ")"@))
                + (if f.unread_only {
                " AND t.unread = 1"@
            } else {
                ""@
            }) + (if f.subject_type matches Some(t) && t@ != "all"@ {
                " AND t.subject_type = ?"@
            } else {
                ""@
            }) + (if f.reason matches Some(t) && t@ != "all"@ {
                " AND t.reason = ?"@
            } else {
                ""@
            }) + (if f.sort@ == "repo"@ {
                " ORDER BY r.full_name, t.updated_at DESC"@
            } else {
                " ORDER BY t.updated_at DESC"@
            }),
    {
        let mut sql = SELECT_INBOX.to_owned();
        sql.append(" AND r.full_name IN ".to_owned().concat(in_clause(f.repos.len()).as_str()).as_str());
        let mut params = bind_texts(f.repos);
        proof {
            lemma_append_nothing(sql@);
        }
        if f.unread_only {
            sql.append(" AND t.unread = 1");
        }
        proof {
            lemma_append_nothing(sql@);
        }
        if let Some(kind) = f.subject_type {
            if !text::str_eq(kind, "all") {
                sql.append(" AND t.subject_type = ?");
                bind(&mut params, text_param(kind));
            }
        }
        assert(param_views(params@) =~= text_params(texts(f.repos@)) + (if narrows(
            f@.subject_type,
        ) {
            seq![ParamView::Text(f@.subject_type->0)]
        } else {
            Seq::empty()
        }));
        proof {
            lemma_append_nothing(sql@);
        }
        if let Some(reason) = f.reason {
            if !text::str_eq(reason, "all") {
                sql.append(" AND t.reason = ?");
                bind(&mut params, text_param(reason));
            }
        }
        assert(param_views(params@) =~= inbox_query(f@).params);
        if text::str_eq(f.sort, "repo") {
            sql.append(" ORDER BY r.full_name, t.updated_at DESC");
        } else {
            sql.append(" ORDER BY t.updated_at DESC");
        }
        Statement { sql, params }
    }

    /// List repos that are watched or tracked by the workspace.
    pub fn list_repos(f: &RepoFilter) -> (r: Statement)
        ensures
            r@ == repos_query(f@),
            r@.sql == "SELECT r.full_name, r.html_url, r.is_watched, r.last_refreshed_at,
                    CASE WHEN r.is_watched = 1 THEN 'watched' ELSE r.subscription_state END
             FROM repos r WHERE (r.is_watched = 1"@ + (if f.workspace_repos@.len() > 0 {
                " OR r.full_name IN "@ + ("("@ + placeholders(f.workspace_repos@.len()) + ")"@)
            } else {
                ""@
            }) + ")"@ + (if f.show@ == "watched"@ {
                " AND r.is_watched = 1"@
            } else if f.show@ == "untracked"@ {
                " AND r.is_watched = 0"@
            } else if f.show@ == "ignored"@ {
                " AND r.is_watched = 0 AND r.subscription_state = 'ignored'"@
            } else {
                ""@
            }) + (if f.search matches Some(t) && t@.len() > 0 {
                " AND r.full_name LIKE ?"@
            } else {
                ""@
            }) + " ORDER BY r.full_name"@,
    {
        let mut sql = SELECT_REPOS.to_owned();
        proof {
            lemma_append_nothing(sql@);
        }
        if f.workspace_repos.len() > 0 {
            let marks = in_clause(f.workspace_repos.len());
            sql.append(" OR r.full_name IN ".to_owned().concat(marks.as_str()).as_str());
        }
        let mut params = bind_texts(f.workspace_repos);
        sql.append(")");
        proof {
            lemma_append_nothing(sql@);
        }
        if text::str_eq(f.show, "watched") {
            sql.append(" AND r.is_watched = 1");
        } else if text::str_eq(f.show, "untracked") {
            sql.append(" AND r.is_watched = 0");
        } else if text::str_eq(f.show, "ignored") {
            sql.append(" AND r.is_watched = 0 AND r.subscription_state = 'ignored'");
        }
        proof {
            lemma_append_nothing(sql@);
        }
        if let Some(search) = f.search {
            if search.unicode_len() > 0 {
                sql.append(" AND r.full_name LIKE ?");
                bind(&mut params, like(search));
            }
        }
        assert(param_views(params@) =~= repos_query(f@).params);
        sql.append(" ORDER BY r.full_name");
        Statement { sql, params }
    }

    /// The API url of an issue/PR row, if present.
    pub fn issue_api_url(id: i64) -> (r: Statement)
        ensures
            r@ == (StatementView {
                sql: "SELECT api_url FROM issues WHERE id = ?1"@,
                params: seq![ParamView::Integer(id)],
            }),
    {
        with_one(SELECT_ISSUE_API_URL, Param::Integer(id))
    }

    /// The API url of a thread by its notification id.
    pub fn thread_api_url(thread_id: &str) -> (r: Statement)
        ensures
            r@ == (StatementView {
                sql: "SELECT api_url FROM threads WHERE thread_id = ?1"@,
                params: seq![ParamView::Text(thread_id@)],
            }),
    {
        with_one(SELECT_THREAD_API_URL, text_param(thread_id))
    }

    /// Thread ids + API urls for threads whose subject matches an issue API
    /// url (used to mark a queue item's threads read).
    pub fn threads_for_subject(subject_api_url: &str) -> (r: Statement)
        ensures
            r@ == (StatementView {
                sql: "SELECT thread_id, api_url FROM threads WHERE subject_api_url = ?1"@,
                params: seq![ParamView::Text(subject_api_url@)],
            }),
    {
        with_one(SELECT_THREADS_FOR_SUBJECT, text_param(subject_api_url))
    }

    /// Set the unread flag for a set of thread ids. Nothing is to be done for
    /// an empty set.
    pub fn set_threads_unread(thread_ids: &[String], unread: bool) -> (r: Option<Statement>)
        ensures
            r is None <==> thread_ids@.len() == 0,
            r matches Some(s) ==> s@ == unread_update(
                "UPDATE threads SET unread = ?"@,
                " WHERE thread_id IN "@,
                ""@,
                texts(thread_ids@),
                unread,
            ),
            r matches Some(s) ==> s@.params.len() == thread_ids@.len() + 1 && s@.params.last()
                == ParamView::Flag(unread) && forall|i: int|
                0 <= i < thread_ids@.len() ==> #[trigger] s@.params[i] == ParamView::Text(
                    thread_ids@[i]@,
                ),
    {
        let n: usize = thread_ids.len();
        if n == 0 {
            return None;
        }
        let mut sql = "UPDATE threads SET unread = ?".to_owned();
        sql.append(text::decimal_text(n as u128 + 1).as_str());
        sql.append(" WHERE thread_id IN ");
        sql.append(in_clause(n).as_str());
        proof {
            lemma_append_nothing(sql@);
        }
        let mut params = bind_texts(thread_ids);
        bind(&mut params, Param::Flag(unread));
        Some(Statement { sql, params })
    }

    /// Set the unread flag for all threads in the given repos. Nothing is to be
    /// done for an empty list.
    pub fn set_unread_for_repos(repos: &[String], unread: bool) -> (r: Option<Statement>)
        ensures
            r is None <==> repos@.len() == 0,
            r matches Some(s) ==> s@ == unread_update(
                "UPDATE threads SET unread = ?"@,
                " WHERE repo_id IN (SELECT id FROM repos WHERE full_name IN "@,
                ")"@,
                texts(repos@),
                unread,
            ),
            r matches Some(s) ==> s@.params.len() == repos@.len() + 1 && s@.params.last()
                == ParamView::Flag(unread) && forall|i: int|
                0 <= i < repos@.len() ==> #[trigger] s@.params[i] == ParamView::Text(repos@[i]@),
    {
        let n: usize = repos.len();
        if n == 0 {
            return None;
        }
        let mut sql = "UPDATE threads SET unread = ?".to_owned();
        sql.append(text::decimal_text(n as u128 + 1).as_str());
        sql.append(" WHERE repo_id IN (SELECT id FROM repos WHERE full_name IN ");
        sql.append(in_clause(n).as_str());
        sql.append(")");
        let mut params = bind_texts(repos);
        bind(&mut params, Param::Flag(unread));
        Some(Statement { sql, params })
    }

    /// Set a repo's watched flag locally.
    pub fn set_repo_watched(full_name: &str, watched: bool) -> (r: Statement)
        ensures
            r@ == (StatementView {
                sql: "UPDATE repos SET is_watched = ?2 WHERE full_name = ?1"@,
                params: seq![ParamView::Text(full_name@), ParamView::Flag(watched)],
            }),
    {
        with_two(UPDATE_REPO_WATCHED, text_param(full_name), Param::Flag(watched))
    }

    /// Whether a repo is watched.
    pub fn is_repo_watched(full_name: &str) -> (r: Statement)
        ensures
            r@ == (StatementView {
                sql: "SELECT is_watched FROM repos WHERE full_name = ?1"@,
                params: seq![ParamView::Text(full_name@)],
            }),
    {
        with_one(SELECT_REPO_WATCHED, text_param(full_name))
    }

    /// The ETag of a repo's subscription.
    pub fn repo_subscription_etag(full_name: &str) -> (r: Statement)
        ensures
            r@ == (StatementView {
                sql: "SELECT subscription_etag FROM repos WHERE full_name = ?1"@,
                params: seq![ParamView::Text(full_name@)],
            }),
    {
        with_one(SELECT_SUBSCRIPTION_ETAG, text_param(full_name))
    }

    /// Note when a repo's subscription was last checked.
    pub fn touch_repo_subscription(full_name: &str, checked_at: &str) -> (r: Statement)
        ensures
            r@ == (StatementView {
                sql: "UPDATE repos SET subscription_checked_at = ?2 WHERE full_name = ?1"@,
                params: seq![ParamView::Text(full_name@), ParamView::Text(checked_at@)],
            }),
    {
        with_two(TOUCH_SUBSCRIPTION, text_param(full_name), text_param(checked_at))
    }

    /// Store a repo's subscription state with its ETag.
    pub fn set_repo_subscription(
        full_name: &str,
        state: SubscriptionState,
        etag: &Option<String>,
        checked_at: &str,
    ) -> (r: Statement)
        ensures
            r@ == (StatementView {
                sql: "UPDATE repos SET subscription_state = ?2, subscription_etag = ?3,
               subscription_checked_at = ?4 WHERE full_name = ?1"@,
                params: seq![
                    ParamView::Text(full_name@),
                    ParamView::Text(state_name(state)),
                    opt_param(opt_text(*etag)),
                    ParamView::Text(checked_at@),
                ],
            }),
    {
        let mut params = no_params();
        bind(&mut params, text_param(full_name));
        bind(&mut params, text_param(state.name()));
        bind(&mut params, opt_text_param(etag));
        bind(&mut params, text_param(checked_at));
        assert(param_views(params@) =~= seq![
            ParamView::Text(full_name@),
            ParamView::Text(state_name(state)),
            opt_param(opt_text(*etag)),
            ParamView::Text(checked_at@),
        ]);
        Statement { sql: UPDATE_SUBSCRIPTION.to_owned(), params }
    }

    /// Store a repo's subscription state alone.
    pub fn set_repo_subscription_state(full_name: &str, state: SubscriptionState) -> (r: Statement)
        ensures
            r@ == (StatementView {
                sql: "UPDATE repos SET subscription_state = ?2 WHERE full_name = ?1"@,
                params: seq![ParamView::Text(full_name@), ParamView::Text(state_name(state))],
            }),
    {
        with_two(UPDATE_SUBSCRIPTION_STATE, text_param(full_name), text_param(state.name()))
    }

    /// The ETag of a thread's subject.
    pub fn subject_state_etag(thread_id: &str) -> (r: Statement)
        ensures
            r@ == (StatementView {
                sql: "SELECT subject_state_etag FROM threads WHERE thread_id = ?1"@,
                params: seq![ParamView::Text(thread_id@)],
            }),
    {
        with_one(SELECT_SUBJECT_ETAG, text_param(thread_id))
    }

    /// Note when a thread's subject was last checked.
    pub fn touch_subject_state(thread_id: &str, checked_at: &str) -> (r: Statement)
        ensures
            r@ == (StatementView {
                sql: "UPDATE threads SET subject_state_checked_at = ?2 WHERE thread_id = ?1"@,
                params: seq![ParamView::Text(thread_id@), ParamView::Text(checked_at@)],
            }),
    {
        with_two(TOUCH_SUBJECT, text_param(thread_id), text_param(checked_at))
    }

    /// Store the state of a thread's subject.
    pub fn set_subject_state(thread_id: &str, s: &SubjectState, checked_at: &str) -> (r: Statement)
        ensures
            r@ == (StatementView {
                sql: "UPDATE threads SET subject_state = ?2, subject_state_html_url = ?3,
               subject_state_etag = ?4, subject_state_checked_at = ?5 WHERE thread_id = ?1"@,
                params: seq![
                    ParamView::Text(thread_id@),
                    ParamView::Text(s@.state),
                    opt_param(s@.html_url),
                    opt_param(s@.etag),
                    ParamView::Text(checked_at@),
                ],
            }),
    {
        let mut params = no_params();
        bind(&mut params, text_param(thread_id));
        bind(&mut params, text_param(s.state.as_str()));
        bind(&mut params, opt_text_param(&s.html_url));
        bind(&mut params, opt_text_param(&s.etag));
        bind(&mut params, text_param(checked_at));
        assert(param_views(params@) =~= seq![
            ParamView::Text(thread_id@),
            ParamView::Text(s@.state),
            opt_param(s@.html_url),
            opt_param(s@.etag),
            ParamView::Text(checked_at@),
        ]);
        Statement { sql: UPDATE_SUBJECT.to_owned(), params }
    }

    /// Store the author of a thread's subject.
    pub fn set_subject_author(thread_id: &str, author: &Option<String>) -> (r: Statement)
        ensures
            r@ == (StatementView {
                sql: "UPDATE threads SET subject_author = ?2 WHERE thread_id = ?1"@,
                params: seq![ParamView::Text(thread_id@), opt_param(opt_text(*author))],
            }),
    {
        with_two(UPDATE_SUBJECT_AUTHOR, text_param(thread_id), opt_text_param(author))
    }

    /// The threads of the given repos whose subject state is refreshed: those
    /// with a subject to fetch, and those that were never resolved.
    pub fn subject_threads_needing_refresh(repos: &[String]) -> (r: Statement)
        ensures
            r@ == with_list("SELECT t.thread_id, t.subject_type, t.subject_api_url, t.subject_check_url,
                    t.subject_title, r.full_name, t.updated_at
             FROM threads t JOIN repos r ON r.id = t.repo_id
             WHERE t.subject_type IN ('PullRequest', 'Issue', 'CheckSuite', 'CheckRun')
               AND (t.subject_api_url IS NOT NULL OR t.subject_check_url IS NOT NULL
                    OR t.subject_state IS NULL)"@ + " AND r.full_name IN "@, texts(repos@)),
    {
        let mut sql = SELECT_SUBJECT_THREADS.to_owned();
        sql.append(" AND r.full_name IN ");
        sql.append(in_clause(repos.len()).as_str());
        Statement { sql, params: bind_texts(repos) }
    }

    /// The pull-request threads of the given repos.
    pub fn get_pr_threads(repos: &[String]) -> (r: Statement)
        ensures
            r@ == with_list("SELECT t.thread_id, t.api_url, t.subject_api_url, t.subject_state, t.unread
             FROM threads t JOIN repos r ON r.id = t.repo_id
             WHERE t.subject_type = 'PullRequest'
               AND t.api_url IS NOT NULL AND t.subject_api_url IS NOT NULL"@ + " AND r.full_name IN "@, texts(repos@)),
    {
        let mut sql = SELECT_PR_THREADS.to_owned();
        sql.append(" AND r.full_name IN ");
        sql.append(in_clause(repos.len()).as_str());
        Statement { sql, params: bind_texts(repos) }
    }

    /// The subjects of dismissed threads.
    pub fn dismissed_subjects() -> (r: Statement)
        ensures
            r@ == (StatementView { sql: "SELECT subject_api_url FROM dismissed_subjects"@, params: Seq::empty() }),
    {
        plain(SELECT_DISMISSED)
    }

    /// Remember a subject as dismissed.
    pub fn record_dismissed_subject(subject_api_url: &str) -> (r: Statement)
        ensures
            r@ == (StatementView {
                sql: "INSERT OR IGNORE INTO dismissed_subjects (subject_api_url) VALUES (?1)"@,
                params: seq![ParamView::Text(subject_api_url@)],
            }),
    {
        with_one(INSERT_DISMISSED, text_param(subject_api_url))
    }

    /// Drop threads from the cache.
    pub fn delete_threads(thread_ids: &[String]) -> (r: Statement)
        ensures
            r@ == with_list("DELETE FROM threads WHERE thread_id IN "@, texts(thread_ids@)),
    {
        let mut sql = "DELETE FROM threads WHERE thread_id IN ".to_owned();
        sql.append(in_clause(thread_ids.len()).as_str());
        Statement { sql, params: bind_texts(thread_ids) }
    }

    /// The API urls that were open at a repo's last complete fetch.
    pub fn issue_open_set(full_name: &str) -> (r: Statement)
        ensures
            r@ == (StatementView {
                sql: "SELECT api_url FROM open_issues WHERE full_name = ?1"@,
                params: seq![ParamView::Text(full_name@)],
            }),
    {
        with_one(SELECT_OPEN_ISSUES, text_param(full_name))
    }

    /// Forget a repo's open set.
    pub fn clear_issue_open_set(full_name: &str) -> (r: Statement)
        ensures
            r@ == (StatementView {
                sql: "DELETE FROM open_issues WHERE full_name = ?1"@,
                params: seq![ParamView::Text(full_name@)],
            }),
    {
        with_one(CLEAR_OPEN_ISSUES, text_param(full_name))
    }

    /// Add to a repo's open set.
    pub fn add_to_issue_open_set(full_name: &str, api_url: &str) -> (r: Statement)
        ensures
            r@ == (StatementView {
                sql: "INSERT OR IGNORE INTO open_issues (full_name, api_url) VALUES (?1, ?2)"@,
                params: seq![ParamView::Text(full_name@), ParamView::Text(api_url@)],
            }),
    {
        with_two(INSERT_OPEN_ISSUE, text_param(full_name), text_param(api_url))
    }

    /// Drop the issues of a repo whose API url is not in the list.
    pub fn delete_stale_issues_not_in(repo_id: i64, api_urls: &[String]) -> (r: Statement)
        ensures
            r@ == (StatementView {
                sql: "DELETE FROM issues WHERE api_url NOT IN "@ + in_list(api_urls@.len())
                    + " AND repo_id = ?"@,
                params: text_params(texts(api_urls@)).push(ParamView::Integer(repo_id)),
            }),
    {
        let mut sql = "DELETE FROM issues WHERE api_url NOT IN ".to_owned();
        sql.append(in_clause(api_urls.len()).as_str());
        sql.append(" AND repo_id = ?");
        let mut params = bind_texts(api_urls);
        bind(&mut params, Param::Integer(repo_id));
        Statement { sql, params }
    }
}

// ---- laws -----------------------------------------------------------------

/// How many placeholders a text holds.
pub open spec fn marks(s: Seq<char>) -> nat
    decreases s.len(),
{
    if s.len() == 0 {
        0
    } else {
        marks(s.drop_last()) + (if s.last() == '?' {
            1nat
        } else {
            0nat
        })
    }
}

/// The placeholders of two texts add up.
proof fn lemma_marks_add(a: Seq<char>, b: Seq<char>)
    ensures
        marks(a + b) == marks(a) + marks(b),
    decreases b.len(),
{
    if b.len() == 0 {
        assert(a + b =~= a);
    } else {
        assert((a + b).drop_last() =~= a + b.drop_last());
        lemma_marks_add(a, b.drop_last());
    }
}

/// A decimal number holds no placeholder.
proof fn lemma_marks_decimal(n: nat)
    ensures
        marks(decimal(n)) == 0,
    decreases n,
{
    reveal_with_fuel(marks, 2);
    let s = decimal(n);
    if n >= 10 {
        lemma_marks_decimal(n / 10);
        assert(s.drop_last() =~= decimal(n / 10));
    } else {
        assert(s.drop_last() =~= Seq::empty());
    }
    let d = n % 10;
    assert(s.last() == text::digit_char(d));
    assert(0 <= d < 10);
    assert(((48 + d) as char) as int == 48 + d);
    assert(s.last() != '?');
}

/// A placeholder clause has one placeholder for each value.
pub proof fn law_one_placeholder_per_value(count: nat)
    ensures
        marks(in_list(count)) == count,
{
    lemma_marks_placeholders(count);
    reveal_strlit("(");
    reveal_strlit(")");
    reveal_with_fuel(marks, 2);
    assert("("@.drop_last() =~= Seq::empty());
    assert(")"@.drop_last() =~= Seq::empty());
    lemma_marks_add("("@, placeholders(count));
    lemma_marks_add("("@ + placeholders(count), ")"@);
}

/// A list of placeholders has one for each value.
proof fn lemma_marks_placeholders(count: nat)
    ensures
        marks(placeholders(count)) == count,
    decreases count,
{
    reveal_strlit("?");
    reveal_strlit(",?");
    reveal_with_fuel(marks, 3);
    assert("?"@.drop_last() =~= Seq::empty());
    assert(",?"@.drop_last() =~= seq![',']);
    assert(seq![','].drop_last() =~= Seq::empty());
    lemma_marks_decimal(count);
    if count == 1 {
        lemma_marks_add("?"@, decimal(1));
    } else if count > 1 {
        let before = placeholders((count - 1) as nat);
        lemma_marks_placeholders((count - 1) as nat);
        lemma_marks_add(before, ",?"@);
        lemma_marks_add(before + ",?"@, decimal(count));
    }
}

/// A list of values is bound in order, each to its own placeholder.
pub proof fn law_values_are_bound_in_order(list: Seq<Seq<char>>, i: int)
    requires
        0 <= i < list.len(),
    ensures
        text_params(list).len() == list.len(),
        text_params(list)[i] == ParamView::Text(list[i]),
{
}

/// Placeholders are numbered from one on, with a comma between them.
pub proof fn law_placeholders_are_numbered(count: nat)
    requires
        count > 0,
    ensures
        placeholders(0).len() == 0,
        placeholders(1) == "?"@ + decimal(1),
        placeholders(count + 1) == placeholders(count) + ",?"@ + decimal(count + 1),
        in_list(count) == "("@ + placeholders(count) + ")"@,
{
}

/// A statement on several rows binds the rows' values and then the flag, and
/// names the flag's placeholder by its number.
pub proof fn law_unread_updates_name_their_flag(
    head: Seq<char>,
    middle: Seq<char>,
    tail: Seq<char>,
    ids: Seq<Seq<char>>,
    unread: bool,
)
    ensures
        unread_update(head, middle, tail, ids, unread).sql == head + decimal(ids.len() + 1) + middle
            + ("("@ + placeholders(ids.len()) + ")"@) + tail,
        unread_update(head, middle, tail, ids, unread).params.len() == ids.len() + 1,
        unread_update(head, middle, tail, ids, unread).params.last() == ParamView::Flag(unread),
        with_list(head, ids).sql == head + ("("@ + placeholders(ids.len()) + ")"@),
        with_list(head, ids).params.len() == ids.len(),
        forall|i: int|
            0 <= i < ids.len() ==> #[trigger] with_list(head, ids).params[i] == ParamView::Text(
                ids[i],
            ),
{
}

/// A full name is its owner, a slash and its name; one without a slash is all
/// name.
pub proof fn law_full_names_come_apart(owner: Seq<char>, name: Seq<char>)
    requires
        !owner.contains('/'),
    ensures
        repo_parts(owner + "/"@ + name) == (owner, name),
        repo_parts(owner) == (Seq::<char>::empty(), owner),
{
    lemma_slash(owner, name);
    reveal_strlit("/");
    assert("/"@ =~= seq!['/']);
    assert forall|j: int| 0 <= j < owner.len() implies owner[j] != '/' by {
        assert(owner.contains(owner[j]));
    }
    text::lemma_no_char(owner, '/');
}

/// A text without a slash, a slash and a rest come apart at that slash.
proof fn lemma_slash(before: Seq<char>, after: Seq<char>)
    requires
        !before.contains('/'),
    ensures
        cut_once(before + "/"@ + after, "/"@) == Some((before, after)),
{
    reveal_strlit("/");
    assert("/"@ =~= seq!['/']);
    let whole = before + "/"@ + after;
    let n = before.len() as int;
    assert forall|j: int| 0 <= j < n implies whole[j] != '/' by {
        assert(whole[j] == before[j]);
        assert(before.contains(before[j]));
    }
    assert(whole[n] == '/');
    text::lemma_find_char(whole, '/', n);
    assert(whole.take(n) =~= before);
    assert(whole.skip(n + 1) =~= after);
}

/// The web page of a subject is that of its API URL: the same owner, repository
/// and id, with "pull" for "pulls" and "commit" for "commits". A URL of another
/// service has none.
pub proof fn law_web_page_of_a_subject(
    owner: Seq<char>,
    repo: Seq<char>,
    kind: Seq<char>,
    id: Seq<char>,
    other: Seq<char>,
)
    requires
        !owner.contains('/'),
        !repo.contains('/'),
        !kind.contains('/'),
    ensures
        ({
            let api = "https://api.github.com/repos/"@ + (owner + "/"@ + (repo + "/"@ + (kind + "/"@
                + id)));
            let page = "https://github.com/"@ + owner + "/"@ + repo + "/"@;
            &&& kind == "pulls"@ ==> html_url_of(Some(api)) == Some(page + "pull"@ + "/"@ + id)
            &&& kind == "commits"@ ==> html_url_of(Some(api)) == Some(page + "commit"@ + "/"@ + id)
            &&& kind != "pulls"@ && kind != "commits"@ ==> html_url_of(Some(api)) == Some(
                page + kind + "/"@ + id,
            )
        }),
        html_url_of(None) is None,
        !text::has_prefix(other, "https://api.github.com/repos/"@) ==> html_url_of(Some(other))
            is None,
{
    let c = kind + "/"@ + id;
    let b = repo + "/"@ + c;
    let a = owner + "/"@ + b;
    let prefix = "https://api.github.com/repos/"@;
    text::law_ends_come_off(prefix, a, prefix + a);
    lemma_slash(owner, b);
    lemma_slash(repo, c);
    lemma_slash(kind, id);
    reveal_strlit("pulls");
    reveal_strlit("commits");
    assert("pulls"@.len() != "commits"@.len());
}

/// A thread's latest comment is kept as its check run exactly when it points to
/// one.
pub proof fn law_check_runs_are_recognized(url: Seq<char>)
    ensures
        check_url_of(None) is None,
        has_substring(url, "/check-runs/"@) ==> check_url_of(Some(url)) == Some(url),
        !has_substring(url, "/check-runs/"@) ==> check_url_of(Some(url)) is None,
{
}

/// Local data is kept in the configured directory as it is given, or else under
/// the app's name below the XDG data directory, or else below the home directory.
pub proof fn law_data_has_its_place(
    dir: Seq<char>,
    xdg: Option<Seq<char>>,
    home: Option<Seq<char>>,
)
    requires
        dir.len() > 0,
        dir.last() != '/',
    ensures
        data_dir(Some(dir), xdg, home) == dir,
        data_dir(None, Some(dir), home) == dir + "/"@ + "github-notifications"@,
        data_dir(None, None, Some(dir)) == dir + "/"@ + ".local/share/github-notifications"@,
        data_dir(None, None, None) == "data"@,
{
}

/// Whether a statement is another one with one more condition, and the values of
/// that condition.
pub open spec fn narrows_by(
    more: StatementView,
    base: StatementView,
    condition: Seq<char>,
    values: Seq<ParamView>,
) -> bool {
    exists|i: int, j: int|
        0 <= i <= base.sql.len() && 0 <= j <= base.params.len() && more.sql == #[trigger] base.sql.take(
            i,
        ) + condition + base.sql.skip(i) && more.params == #[trigger] base.params.take(j) + values
            + base.params.skip(j)
}

/// A condition between a beginning and an end narrows a statement by itself.
pub proof fn lemma_narrows(
    more: StatementView,
    base: StatementView,
    head: Seq<char>,
    condition: Seq<char>,
    tail: Seq<char>,
    first: Seq<ParamView>,
    values: Seq<ParamView>,
    last: Seq<ParamView>,
)
    requires
        base.sql == head + tail,
        more.sql == head + condition + tail,
        base.params == first + last,
        more.params == first + values + last,
    ensures
        narrows_by(more, base, condition, values),
{
    let i = head.len() as int;
    let j = first.len() as int;
    assert(base.sql.take(i) =~= head);
    assert(base.sql.skip(i) =~= tail);
    assert(base.params.take(j) =~= first);
    assert(base.params.skip(j) =~= last);
}

/// Nothing is appended.
pub proof fn lemma_nothing_added(s: Seq<char>)
    ensures
        s + ""@ == s,
        ""@ + s == s,
{
    reveal_strlit("");
    assert(s + ""@ =~= s);
    assert(""@ + s =~= s);
}

} // verus!
