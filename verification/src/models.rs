//! The payloads of the GitHub REST API that the sync logic reads.
use vstd::prelude::*;

verus! {

/// A notification thread as returned by `GET /notifications`.
#[derive(Debug, Clone)]
pub struct NotificationThread {
    pub id: String,
    pub unread: bool,
    pub reason: String,
    pub updated_at: String,
    pub last_read_at: Option<String>,
    pub subject: ThreadSubject,
    /// The repository that triggered the notification. Absent for some
    /// notification types.
    pub repository: Option<ThreadRepository>,
    /// API url of the thread itself (e.g. `.../notifications/threads/123`).
    pub url: String,
}

/// What a notification thread is about.
#[derive(Debug, Clone)]
pub struct ThreadSubject {
    pub title: String,
    /// The subject type, e.g. `PullRequest`.
    pub kind: String,
    /// API url of the subject. Absent for some types (e.g. `CheckSuite`).
    pub url: Option<String>,
    pub latest_comment_url: Option<String>,
}

/// The repository of a notification thread.
#[derive(Debug, Clone)]
pub struct ThreadRepository {
    pub full_name: String,
    pub html_url: String,
}

/// An issue or pull request from `GET /repos/{o}/{r}/issues`. Pull requests
/// are distinguished by the presence of `pull_request`.
#[derive(Debug, Clone)]
pub struct GithubIssue {
    pub id: u64,
    pub number: u64,
    pub title: String,
    pub state: String,
    pub user: Option<GithubUser>,
    pub created_at: String,
    pub updated_at: String,
    pub closed_at: Option<String>,
    pub html_url: String,
    pub url: String,
    /// The JSON text of the `pull_request` member.
    pub pull_request: Option<String>,
}

/// A GitHub account.
#[derive(Debug, Clone)]
pub struct GithubUser {
    pub login: String,
}

/// PR detail (`GET /repos/{o}/{r}/pulls/{n}`).
#[derive(Debug, Clone)]
pub struct GithubPullRequest {
    pub state: String,
    pub merged_at: Option<String>,
    pub html_url: String,
    pub user: Option<GithubUser>,
}

/// A repository from `GET /user/subscriptions`.
#[derive(Debug, Clone)]
pub struct WatchedRepo {
    pub full_name: String,
    pub html_url: String,
}

/// The authenticated user's subscription for a repository
/// (`GET /repos/{owner}/{repo}/subscription`).
#[derive(Debug, Clone, Copy)]
pub struct RepoSubscription {
    pub subscribed: bool,
    pub ignored: bool,
}

/// A check run (`GET /repos/{o}/{r}/check-runs/{id}`).
#[derive(Debug, Clone)]
pub struct CheckRun {
    pub status: Option<String>,
    pub conclusion: Option<String>,
    pub html_url: Option<String>,
}

/// A page of `GET /repos/{o}/{r}/actions/runs`.
#[derive(Debug, Clone)]
pub struct ActionsRuns {
    pub workflow_runs: Vec<WorkflowRun>,
}

/// One workflow run.
#[derive(Debug, Clone)]
pub struct WorkflowRun {
    pub name: String,
    pub conclusion: Option<String>,
    pub html_url: String,
    pub created_at: String,
}

} // verus!
