//! Refreshing the state of what a notification is about: open, closed or
//! merged for issues and pull requests, pass or fail for checks.
use vstd::prelude::*;

use crate::http::{get_url, opt_text, url_request, Head, Request, RequestView, TargetView};
use crate::models::{CheckRun, GithubIssue, GithubPullRequest, GithubUser};
use crate::sync::runs::{conclusion_of, parse_workflow_title, status_word_to_conclusion, title_parts, RunSearch, RunSearchView, Wanted, MAX_PAGES};
use crate::text;
use crate::text::has_substring;
use crate::time::{instant_of, parse_time, Timestamp};

verus! {

broadcast use vstd::string::group_string_axioms;

/// A cached thread whose subject state is to be refreshed.
#[derive(Debug, Clone)]
pub struct SubjectThread {
    pub thread_id: String,
    pub subject_type: String,
    pub subject_api_url: Option<String>,
    /// The check run that the thread's latest comment points to.
    pub subject_check_url: Option<String>,
    pub subject_title: String,
    pub repo: String,
    pub updated_at: Option<String>,
}

/// How the subject of a thread is read.
#[derive(Debug, Clone, Copy, PartialEq, Eq, Structural)]
pub enum SubjectKind {
    PullRequest,
    Issue,
    Check,
}

/// How a subject type is read: what is neither a pull request nor an issue is
/// read as a check.
pub open spec fn kind_of(subject_type: Seq<char>) -> SubjectKind {
    if subject_type == "PullRequest"@ {
        SubjectKind::PullRequest
    } else if subject_type == "Issue"@ {
        SubjectKind::Issue
    } else {
        SubjectKind::Check
    }
}

/// The URL from which a thread's subject is read. A check's own URL comes
/// before the one that the notification carries.
pub open spec fn subject_url(thread: SubjectThread) -> Option<Seq<char>> {
    if kind_of(thread.subject_type@) is Check && thread.subject_check_url is Some {
        opt_text(thread.subject_check_url)
    } else {
        opt_text(thread.subject_api_url)
    }
}

impl SubjectThread {
    /// How the subject is read.
    pub fn kind(&self) -> (r: SubjectKind)
        ensures
            r == kind_of(self.subject_type@),
            r is PullRequest <==> self.subject_type@ == "PullRequest"@,
            r is Issue <==> self.subject_type@ == "Issue"@,
    {
        proof {
            law_subject_types_are_told_apart(self.subject_type@);
        }
        if text::str_eq(self.subject_type.as_str(), "PullRequest") {
            SubjectKind::PullRequest
        } else if text::str_eq(self.subject_type.as_str(), "Issue") {
            SubjectKind::Issue
        } else {
            SubjectKind::Check
        }
    }
}

/// The body of an answer, parsed as the subject's kind asks.
#[derive(Debug, Clone)]
pub enum SubjectBody {
    PullRequest(GithubPullRequest),
    Issue(GithubIssue),
    Check(CheckRun),
    /// The body could not be parsed.
    Unreadable,
}

/// A new state for a subject.
#[derive(Debug, Clone)]
pub struct SubjectState {
    pub state: String,
    pub html_url: Option<String>,
    pub etag: Option<String>,
    /// The author to store, where the subject has one; the inner option is
    /// absent when GitHub names nobody.
    pub author: Option<Option<String>>,
}

/// A new state for a subject.
pub struct SubjectStateView {
    pub state: Seq<char>,
    pub html_url: Option<Seq<char>>,
    pub etag: Option<Seq<char>>,
    pub author: Option<Option<Seq<char>>>,
}

impl View for SubjectState {
    type V = SubjectStateView;

    open spec fn view(&self) -> SubjectStateView {
        SubjectStateView {
            state: self.state@,
            html_url: opt_text(self.html_url),
            etag: opt_text(self.etag),
            author: match self.author {
                Some(a) => Some(opt_text(a)),
                None => None,
            },
        }
    }
}

/// The state of a pull request.
pub open spec fn pr_state(pr: GithubPullRequest) -> Seq<char> {
    if pr.merged_at is Some {
        "merged"@
    } else if pr.state@ == "closed"@ {
        "closed"@
    } else {
        "open"@
    }
}

/// The state of an issue.
pub open spec fn issue_state(issue: GithubIssue) -> Seq<char> {
    if issue.state@ == "closed"@ {
        "closed"@
    } else {
        "open"@
    }
}

/// The state of a check: its conclusion, or else its status.
pub open spec fn check_state(run: CheckRun) -> Seq<char> {
    match (run.conclusion, run.status) {
        (Some(c), _) => c@,
        (None, Some(s)) => s@,
        (None, None) => "unknown"@,
    }
}

/// The login of an account, where there is one.
pub open spec fn login_of(user: Option<GithubUser>) -> Option<Seq<char>> {
    match user {
        Some(u) => Some(u.login@),
        None => None,
    }
}

/// The state that a body holds; nothing when it is not of the given kind.
pub open spec fn state_in(kind: SubjectKind, body: SubjectBody, etag: Option<Seq<char>>) -> Option<
    SubjectStateView,
> {
    match (kind, body) {
        (SubjectKind::PullRequest, SubjectBody::PullRequest(pr)) => Some(
            SubjectStateView {
                state: pr_state(pr),
                html_url: Some(pr.html_url@),
                etag,
                author: Some(login_of(pr.user)),
            },
        ),
        (SubjectKind::Issue, SubjectBody::Issue(issue)) => Some(
            SubjectStateView {
                state: issue_state(issue),
                html_url: Some(issue.html_url@),
                etag,
                author: Some(login_of(issue.user)),
            },
        ),
        (SubjectKind::Check, SubjectBody::Check(run)) => Some(
            SubjectStateView {
                state: check_state(run),
                html_url: opt_text(run.html_url),
                etag,
                author: None,
            },
        ),
        _ => None,
    }
}

/// The message for a body that cannot be read.
pub open spec fn unreadable(kind: SubjectKind, thread_id: Seq<char>) -> Seq<char> {
    match kind {
        SubjectKind::PullRequest => "parsing PR subject for "@ + thread_id,
        SubjectKind::Issue => "parsing issue subject for "@ + thread_id,
        SubjectKind::Check => "parsing check run for "@ + thread_id,
    }
}

/// What an answer does to the cached state.
#[derive(Debug, Clone)]
pub enum SubjectChange {
    /// Only the time of the check is noted.
    Touch,
    Store(SubjectState),
    /// The subject is skipped.
    Skip,
    Fail(String),
}

/// What an answer does to the cached state.
pub enum SubjectChangeView {
    Touch,
    Store(SubjectStateView),
    Skip,
    Fail(Seq<char>),
}

impl View for SubjectChange {
    type V = SubjectChangeView;

    open spec fn view(&self) -> SubjectChangeView {
        match self {
            SubjectChange::Touch => SubjectChangeView::Touch,
            SubjectChange::Store(s) => SubjectChangeView::Store(s@),
            SubjectChange::Skip => SubjectChangeView::Skip,
            SubjectChange::Fail(m) => SubjectChangeView::Fail(m@),
        }
    }
}

/// What an answer does: an unchanged subject is only touched, and any other
/// status but 200 skips it.
pub open spec fn change(
    thread: SubjectThread,
    status: u16,
    etag: Option<Seq<char>>,
    body: SubjectBody,
) -> SubjectChangeView {
    let kind = kind_of(thread.subject_type@);
    if status == 304 {
        SubjectChangeView::Touch
    } else if status != 200 {
        SubjectChangeView::Skip
    } else {
        match state_in(kind, body, etag) {
            Some(s) => SubjectChangeView::Store(s),
            None => SubjectChangeView::Fail(unreadable(kind, thread.thread_id@)),
        }
    }
}

/// The login of an account, where there is one.
fn login(user: &Option<GithubUser>) -> (r: Option<String>)
    ensures
        opt_text(r) == login_of(*user),
{
    match user {
        Some(u) => Some(u.login.clone()),
        None => None,
    }
}

/// The decision on an answer. `body` is parsed as the subject's kind asks.
pub fn on_answer(thread: &SubjectThread, head: &Head, body: SubjectBody) -> (r: SubjectChange)
    ensures
        r@ == change(*thread, head.status@, opt_text(head.etag), body),
        r is Touch <==> head.status@ == 304,
        r is Skip <==> head.status@ != 304 && head.status@ != 200,
        r matches SubjectChange::Fail(m) ==> m@ == (if thread.subject_type@ == "PullRequest"@ {
            "parsing PR subject for "@
        } else if thread.subject_type@ == "Issue"@ {
            "parsing issue subject for "@
        } else {
            "parsing check run for "@
        }) + thread.thread_id@,
        head.status@ == 200 && thread.subject_type@ == "Issue"@ && body is Issue ==> (r matches
            SubjectChange::Store(s) && (s.state@ == "closed"@ <==> (body->Issue_0).state@
            == "closed"@) && (s.state@ == "open"@ <==> (body->Issue_0).state@ != "closed"@)),
        head.status@ == 200 && thread.subject_type@ == "PullRequest"@ && body is PullRequest ==> (
        r matches SubjectChange::Store(s) && (s.state@ == "merged"@ <==> (
        body->PullRequest_0).merged_at is Some) && (s.state@ == "closed"@ <==> (
        body->PullRequest_0).merged_at is None && (body->PullRequest_0).state@ == "closed"@)),
{
    proof {
        law_subject_types_are_told_apart(thread.subject_type@);
        if body is Issue && thread.subject_type@ == "Issue"@ {
            law_issue_is_stored_as_it_is(*thread, opt_text(head.etag), body->Issue_0);
        }
        if body is PullRequest && thread.subject_type@ == "PullRequest"@ {
            law_pull_request_is_stored_as_it_is(
                *thread,
                opt_text(head.etag),
                body->PullRequest_0,
            );
        }
    }
    let status = head.status.as_u16();
    if status == 304 {
        return SubjectChange::Touch;
    }
    if status != 200 {
        return SubjectChange::Skip;
    }
    let etag = head.etag.clone();
    let kind = thread.kind();
    match (kind, body) {
        (SubjectKind::PullRequest, SubjectBody::PullRequest(pr)) => {
            let state = if pr.merged_at.is_some() {
                "merged"
            } else if text::str_eq(pr.state.as_str(), "closed") {
                "closed"
            } else {
                "open"
            };
            let author = Some(login(&pr.user));
            SubjectChange::Store(
                SubjectState { state: state.to_owned(), html_url: Some(pr.html_url), etag, author },
            )
        },
        (SubjectKind::Issue, SubjectBody::Issue(issue)) => {
            let state = if text::str_eq(issue.state.as_str(), "closed") {
                "closed"
            } else {
                "open"
            };
            let author = Some(login(&issue.user));
            SubjectChange::Store(
                SubjectState { state: state.to_owned(), html_url: Some(issue.html_url), etag, author },
            )
        },
        (SubjectKind::Check, SubjectBody::Check(run)) => {
            let state = match (run.conclusion, run.status) {
                (Some(c), _) => c,
                (None, Some(s)) => s,
                (None, None) => "unknown".to_owned(),
            };
            SubjectChange::Store(
                SubjectState { state, html_url: run.html_url, etag, author: None },
            )
        },
        _ => {
            let prefix = match kind {
                SubjectKind::PullRequest => "parsing PR subject for ",
                SubjectKind::Issue => "parsing issue subject for ",
                SubjectKind::Check => "parsing check run for ",
            };
            SubjectChange::Fail(prefix.to_owned().concat(thread.thread_id.as_str()))
        },
    }
}

// ---- how a subject is looked up -------------------------------------------

/// How a thread's subject is looked up.
pub enum Lookup {
    /// By a conditional request for its URL.
    Fetch(Request),
    /// By a search for the workflow run that the title names; the state is
    /// known already.
    Search(RunSearch, String),
    /// Not at all: the state is known.
    Known(SubjectState),
    /// Not at all: there is nothing to look up.
    Nothing,
}

/// How a thread's subject is looked up.
pub enum LookupView {
    Fetch(RequestView),
    Search(RunSearchView, Seq<char>),
    Known(SubjectStateView),
    Nothing,
}

impl View for Lookup {
    type V = LookupView;

    open spec fn view(&self) -> LookupView {
        match self {
            Lookup::Fetch(r) => LookupView::Fetch(r@),
            Lookup::Search(s, state) => LookupView::Search(s@, state@),
            Lookup::Known(s) => LookupView::Known(s@),
            Lookup::Nothing => LookupView::Nothing,
        }
    }
}

/// A state that was read from a title, with the page of its run.
pub open spec fn titled_state(state: Seq<char>, run_url: Option<Seq<char>>) -> SubjectStateView {
    SubjectStateView { state, html_url: run_url, etag: None, author: None }
}

/// How a check is looked up by its title. A title that speaks of no workflow
/// run stays unresolved; a run is searched for where the repository and the
/// time of the notification allow it.
pub open spec fn title_lookup(thread: SubjectThread, time: Option<Timestamp>) -> LookupView {
    match title_parts(thread.subject_title@) {
        None => LookupView::Known(titled_state("unresolved"@, None)),
        Some((name, word, branch)) => {
            let state = match conclusion_of(word) {
                Some(c) => c,
                None => word,
            };
            if has_substring(thread.repo@, "/"@) && time is Some {
                LookupView::Search(
                    RunSearchView {
                        repo: thread.repo@,
                        branch,
                        wanted: Wanted {
                            workflow: name,
                            conclusion: conclusion_of(word),
                            time: time->0,
                        },
                        best: None,
                        pages_left: MAX_PAGES as nat,
                    },
                    state,
                )
            } else {
                LookupView::Known(titled_state(state, None))
            }
        },
    }
}

/// The time of a thread's notification, where it can be read.
pub open spec fn thread_time(thread: SubjectThread) -> Option<Timestamp> {
    match thread.updated_at {
        Some(t) => instant_of(t@),
        None => None,
    }
}

/// How a thread's subject is looked up, given the ETag of its last answer and
/// the time of its notification.
pub open spec fn lookup_of(
    thread: SubjectThread,
    etag: Option<Seq<char>>,
    time: Option<Timestamp>,
) -> LookupView {
    match subject_url(thread) {
        Some(url) => LookupView::Fetch(url_request(url, etag)),
        None => if thread.subject_type@ == "CheckSuite"@ {
            title_lookup(thread, time)
        } else {
            LookupView::Nothing
        },
    }
}

/// How a thread's subject is looked up, given the ETag of its last answer.
/// Check suites carry no URL, so their outcome is read from the title.
pub fn lookup(thread: &SubjectThread, etag: Option<String>) -> (r: Lookup)
    ensures
        r@ == lookup_of(*thread, opt_text(etag), thread_time(*thread)),
        r@ == lookup_of(
            *thread,
            opt_text(etag),
            match thread.updated_at {
                Some(t) => instant_of(t@),
                None => None,
            },
        ),
{
    let time = match &thread.updated_at {
        Some(t) => parse_time(t.as_str()),
        None => None,
    };
    lookup_at(thread, etag, time)
}

/// How a thread's subject is looked up, given the time of its notification.
pub fn lookup_at(thread: &SubjectThread, etag: Option<String>, time: Option<Timestamp>) -> (r:
    Lookup)
    ensures
        r@ == lookup_of(*thread, opt_text(etag), time),
{
    let check = match thread.kind() {
        SubjectKind::Check => thread.subject_check_url.clone(),
        _ => None,
    };
    let url = match check {
        Some(u) => Some(u),
        None => thread.subject_api_url.clone(),
    };
    if let Some(u) = url {
        return Lookup::Fetch(get_url(u, etag));
    }
    if !text::str_eq(thread.subject_type.as_str(), "CheckSuite") {
        return Lookup::Nothing;
    }
    lookup_title(thread, time)
}

/// How a check is looked up by its title.
fn lookup_title(thread: &SubjectThread, time: Option<Timestamp>) -> (r: Lookup)
    ensures
        r@ == title_lookup(*thread, time),
{
    let (name, word, branch) = match parse_workflow_title(thread.subject_title.as_str()) {
        Some(p) => p,
        None => return Lookup::Known(known("unresolved".to_owned(), None)),
    };
    let conclusion = match status_word_to_conclusion(word.as_str()) {
        Some(c) => Some(c.to_owned()),
        None => None,
    };
    let state = match &conclusion {
        Some(c) => c.clone(),
        None => word,
    };
    if let Some(t) = time {
        let search = RunSearch::around(thread.repo.clone(), name, conclusion, branch, t);
        if let Some(s) = search {
            return Lookup::Search(s, state);
        }
    }
    Lookup::Known(known(state, None))
}

/// The state that a title gives, with the page of the run that was found.
pub fn known(state: String, run_url: Option<String>) -> (r: SubjectState)
    ensures
        r@ == titled_state(state@, opt_text(run_url)),
{
    SubjectState { state, html_url: run_url, etag: None, author: None }
}

// ---- laws -----------------------------------------------------------------

/// Pull requests and issues are told apart by the type that GitHub gives them,
/// and everything else is read as a check.
pub proof fn law_subject_types_are_told_apart(subject_type: Seq<char>)
    ensures
        kind_of(subject_type) is PullRequest <==> subject_type == "PullRequest"@,
        kind_of(subject_type) is Issue <==> subject_type == "Issue"@,
{
    reveal_strlit("PullRequest");
    reveal_strlit("Issue");
    assert("PullRequest"@.len() != "Issue"@.len());
}

/// The states of subjects are different texts.
proof fn lemma_states_differ()
    ensures
        "open"@ != "closed"@,
        "open"@ != "merged"@,
        "closed"@ != "merged"@,
{
    reveal_strlit("open");
    reveal_strlit("closed");
    reveal_strlit("merged");
    assert("open"@.len() != "closed"@.len());
    assert("open"@.len() != "merged"@.len());
    assert("closed"@[0] != "merged"@[0]);
}

/// An issue is stored as closed exactly when GitHub calls it closed, and as open
/// otherwise, with its own page, ETag and author.
pub proof fn law_issue_is_stored_as_it_is(
    thread: SubjectThread,
    etag: Option<Seq<char>>,
    issue: GithubIssue,
)
    requires
        thread.subject_type@ == "Issue"@,
    ensures
        change(thread, 200, etag, SubjectBody::Issue(issue)) matches SubjectChangeView::Store(s) && {
            &&& s.state == "closed"@ <==> issue.state@ == "closed"@
            &&& s.state == "open"@ <==> issue.state@ != "closed"@
            &&& s.html_url == Some(issue.html_url@)
            &&& s.etag == etag
            &&& match issue.user {
                Some(u) => s.author == Some(Some(u.login@)),
                None => s.author == Some(None::<Seq<char>>),
            }
        },
{
    law_subject_types_are_told_apart("Issue"@);
    lemma_states_differ();
}

/// A pull request is stored as merged exactly when it has a time of its merge,
/// otherwise as closed exactly when GitHub calls it closed, and otherwise as
/// open, with its own page, ETag and author.
pub proof fn law_pull_request_is_stored_as_it_is(
    thread: SubjectThread,
    etag: Option<Seq<char>>,
    pr: GithubPullRequest,
)
    requires
        thread.subject_type@ == "PullRequest"@,
    ensures
        change(thread, 200, etag, SubjectBody::PullRequest(pr)) matches SubjectChangeView::Store(s) && {
            &&& s.state == "merged"@ <==> pr.merged_at is Some
            &&& s.state == "closed"@ <==> pr.merged_at is None && pr.state@ == "closed"@
            &&& s.state == "open"@ <==> pr.merged_at is None && pr.state@ != "closed"@
            &&& s.html_url == Some(pr.html_url@)
            &&& s.etag == etag
            &&& match pr.user {
                Some(u) => s.author == Some(Some(u.login@)),
                None => s.author == Some(None::<Seq<char>>),
            }
        },
{
    law_subject_types_are_told_apart("PullRequest"@);
    lemma_states_differ();
}

/// A check is stored under its conclusion once it has one, under its status
/// until then, and as unknown when it has neither.
pub proof fn law_check_is_stored_as_it_is(
    thread: SubjectThread,
    etag: Option<Seq<char>>,
    run: CheckRun,
)
    requires
        thread.subject_type@ != "PullRequest"@,
        thread.subject_type@ != "Issue"@,
    ensures
        change(thread, 200, etag, SubjectBody::Check(run)) matches SubjectChangeView::Store(s) && {
            &&& run.conclusion matches Some(c) ==> s.state == c@
            &&& run.conclusion is None ==> (run.status matches Some(w) ==> s.state == w@)
            &&& run.conclusion is None && run.status is None ==> s.state == "unknown"@
            &&& s.html_url == opt_text(run.html_url)
            &&& s.etag == etag
            &&& s.author is None
        },
{
}

/// A state changes only on an answer of 200 that can be read: 304 touches it,
/// any other status skips it, and a body that is not what the subject's type
/// asks for is a failure.
pub proof fn law_other_answers_store_nothing(
    thread: SubjectThread,
    status: u16,
    etag: Option<Seq<char>>,
    body: SubjectBody,
)
    ensures
        status == 304 ==> change(thread, status, etag, body) is Touch,
        status != 304 && status != 200 ==> change(thread, status, etag, body) is Skip,
        change(thread, status, etag, body) is Store ==> status == 200,
        status == 200 && body is Unreadable ==> change(thread, status, etag, body) is Fail,
        status == 200 && thread.subject_type@ == "Issue"@ && !(body is Issue) ==> change(
            thread,
            status,
            etag,
            body,
        ) is Fail,
        status == 200 && thread.subject_type@ == "PullRequest"@ && !(body is PullRequest) ==> change(
            thread,
            status,
            etag,
            body,
        ) is Fail,
{
    law_subject_types_are_told_apart(thread.subject_type@);
}

/// A subject with a URL is fetched from it, conditional on the ETag that it left
/// behind. A check run's own URL comes first, except for issues and pull
/// requests, which are fetched from theirs.
pub proof fn law_subject_is_fetched_from_its_url(
    thread: SubjectThread,
    etag: Option<Seq<char>>,
    time: Option<Timestamp>,
)
    ensures
        ({
            let plain = thread.subject_type@ == "Issue"@ || thread.subject_type@ == "PullRequest"@;
            let url = if !plain && thread.subject_check_url is Some {
                thread.subject_check_url
            } else {
                thread.subject_api_url
            };
            url matches Some(u) ==> (lookup_of(thread, etag, time) matches LookupView::Fetch(request)
                && request.target == TargetView::Url(u@) && request.query.len() == 0 && request.etag
                == etag)
        }),
{
    law_subject_types_are_told_apart(thread.subject_type@);
}

/// A subject without a URL is looked up only for a check suite.
pub proof fn law_only_check_suites_are_searched(
    thread: SubjectThread,
    etag: Option<Seq<char>>,
    time: Option<Timestamp>,
)
    requires
        thread.subject_api_url is None,
        thread.subject_check_url is None,
        thread.subject_type@ != "CheckSuite"@,
    ensures
        lookup_of(thread, etag, time) is Nothing,
{
}

/// A check suite is looked up by its title: the search is for the workflow and
/// the branch that the title names, in the thread's repository, around the time
/// of the notification, for a failure if the title says "failed" and for a
/// success if it says "succeeded". The state is that conclusion, or the title's
/// own word for what has none.
pub proof fn law_check_suite_is_searched_by_its_title(
    thread: SubjectThread,
    etag: Option<Seq<char>>,
    time: Timestamp,
)
    requires
        thread.subject_type@ == "CheckSuite"@,
        thread.subject_api_url is None,
        thread.subject_check_url is None,
        title_parts(thread.subject_title@) is Some,
        has_substring(thread.repo@, "/"@),
    ensures
        ({
            let (workflow, word, branch) = title_parts(thread.subject_title@)->0;
            lookup_of(thread, etag, Some(time)) matches LookupView::Search(search, state) && {
                &&& search.repo == thread.repo@
                &&& search.branch == branch
                &&& search.wanted.workflow == workflow
                &&& search.wanted.time == time
                &&& search.best is None
                &&& search.pages_left == 10
                &&& word == "failed"@ ==> search.wanted.conclusion == Some("failure"@) && state
                    == "failure"@
                &&& word == "succeeded"@ ==> search.wanted.conclusion == Some("success"@) && state
                    == "success"@
                &&& word == "cancelled"@ || word == "timed_out"@ || word == "skipped"@
                    ==> search.wanted.conclusion == Some(word) && state == word
                &&& word != "failed"@ && word != "succeeded"@ && word != "cancelled"@ && word
                    != "timed_out"@ && word != "skipped"@ ==> search.wanted.conclusion is None
                    && state == word
            }
        }),
{
    crate::sync::runs::law_status_words(
        (title_parts(thread.subject_title@)->0).1,
    );
}

/// A check suite whose title names no workflow run stays unresolved; one whose
/// run cannot be searched for keeps the state that its title gives, without a
/// page.
pub proof fn law_unsearchable_check_suites_keep_their_title(
    thread: SubjectThread,
    etag: Option<Seq<char>>,
    time: Option<Timestamp>,
)
    requires
        thread.subject_type@ == "CheckSuite"@,
        thread.subject_api_url is None,
        thread.subject_check_url is None,
    ensures
        title_parts(thread.subject_title@) is None ==> (lookup_of(thread, etag, time) matches
            LookupView::Known(s) && s.state == "unresolved"@ && s.html_url is None && s.etag is None
            && s.author is None),
        title_parts(thread.subject_title@) is Some && (time is None || !has_substring(
            thread.repo@,
            "/"@,
        )) ==> (lookup_of(thread, etag, time) matches LookupView::Known(s) && s.html_url is None
            && s.etag is None && s.author is None && {
            let word = (title_parts(thread.subject_title@)->0).1;
            &&& word == "failed"@ ==> s.state == "failure"@
            &&& word == "succeeded"@ ==> s.state == "success"@
            &&& word != "failed"@ && word != "succeeded"@ ==> s.state == word
        }),
{
    if title_parts(thread.subject_title@) is Some {
        crate::sync::runs::law_status_words((title_parts(thread.subject_title@)->0).1);
    }
}

/// What a search found is stored with the state that was known: the page is the
/// run's, and nothing else is claimed.
pub proof fn law_found_run_becomes_the_page(state: Seq<char>, url: Option<Seq<char>>)
    ensures
        titled_state(state, url).state == state,
        titled_state(state, url).html_url == url,
        titled_state(state, url).etag is None,
        titled_state(state, url).author is None,
{
}

} // verus!
