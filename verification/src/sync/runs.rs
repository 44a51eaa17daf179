//! Finding the workflow run that a notification title speaks of.
use vstd::prelude::*;

use crate::http::{asks_for, next_page_of, opt_text, pair_texts, url_request, Head, Request, RequestView, Target, TargetView};
use crate::models::{ActionsRuns, WorkflowRun};
use crate::sync::paging::{follow, Next};
use crate::sync::repos::names_repo;
use crate::text;
use crate::text::{cut_once, has_substring, is_digit, trimmed, trimmed_start, without_prefix, without_suffix};
use crate::time::{instant_of, is_before, nanos_between, parse_time, stepped, Timestamp};

verus! {

broadcast use vstd::string::group_string_axioms;

// ---- titles ---------------------------------------------------------------

/// What is left of a text after its leading digits.
pub open spec fn after_digits(s: Seq<char>) -> Seq<char>
    decreases s.len(),
{
    if s.len() > 0 && is_digit(s[0]) {
        after_digits(s.skip(1))
    } else {
        s
    }
}

/// A title's tail without its attempt number.
pub open spec fn after_attempt(s: Seq<char>) -> Seq<char> {
    match without_prefix(s, ", Attempt #"@) {
        Some(r) => trimmed_start(after_digits(r)),
        None => s,
    }
}

/// The branch that a title's tail names.
pub open spec fn branch_in(s: Seq<char>) -> Option<Seq<char>> {
    match without_prefix(s, "for "@) {
        Some(r) => match without_suffix(r, " branch"@) {
            Some(b) => if trimmed(b).len() > 0 {
                Some(trimmed(b))
            } else {
                None
            },
            None => None,
        },
        None => None,
    }
}

/// The workflow name, status word and branch of a title
/// `"<workflow> workflow run[, Attempt #N] <status> for <branch> branch"`.
pub open spec fn title_parts(title: Seq<char>) -> Option<(Seq<char>, Seq<char>, Seq<char>)> {
    match cut_once(title, " workflow run"@) {
        Some((name, rest)) => match cut_once(after_attempt(trimmed_start(rest)), " "@) {
            Some((status, rest)) => match branch_in(trimmed_start(rest)) {
                Some(branch) => if trimmed(name).len() > 0 {
                    Some((trimmed(name), status, branch))
                } else {
                    None
                },
                None => None,
            },
            None => None,
        },
        None => None,
    }
}

/// The text after its leading digits.
fn skip_digits<'a>(s: &'a str) -> (r: &'a str)
    ensures
        r@ == after_digits(s@),
{
    let n: usize = s.unicode_len();
    let mut i: usize = 0;
    assert(s@.skip(0) =~= s@);
    while i < n && text::char_is_digit(s.get_char(i))
        invariant
            n == s@.len(),
            i <= n,
            after_digits(s@) == after_digits(s@.skip(i as int)),
        decreases n - i,
    {
        assert(s@.skip(i as int).skip(1) =~= s@.skip(i + 1));
        i += 1;
    }
    assert(s@.skip(i as int) =~= s@.subrange(i as int, n as int));
    s.substring_char(i, n)
}

/// Parse `"<workflow> workflow run[, Attempt #N] <status> for <branch> branch"`
/// into (workflow name, status word, branch).
pub fn parse_workflow_title(title: &str) -> (r: Option<(String, String, String)>)
    ensures
        match r {
            Some((name, status, branch)) => title_parts(title@) == Some(
                (name@, status@, branch@),
            ),
            None => title_parts(title@) is None,
        },
{
    let (name, rest) = match text::split_once(title, " workflow run") {
        Some(p) => p,
        None => return None,
    };
    let mut rest = text::trim_start(rest);
    if let Some(r) = text::strip_prefix(rest, ", Attempt #") {
        rest = text::trim_start(skip_digits(r));
    }
    let (status, rest) = match text::split_once(rest, " ") {
        Some(p) => p,
        None => return None,
    };
    let rest = text::trim_start(rest);
    let rest = match text::strip_prefix(rest, "for ") {
        Some(r) => r,
        None => return None,
    };
    let branch = match text::strip_suffix(rest, " branch") {
        Some(b) => text::trim(b),
        None => return None,
    };
    let name = text::trim(name);
    if name.unicode_len() == 0 || branch.unicode_len() == 0 {
        return None;
    }
    Some((name.to_owned(), status.to_owned(), branch.to_owned()))
}

/// The run conclusion that a status word stands for.
pub open spec fn conclusion_of(word: Seq<char>) -> Option<Seq<char>> {
    if word == "failed"@ {
        Some("failure"@)
    } else if word == "succeeded"@ {
        Some("success"@)
    } else if word == "cancelled"@ {
        Some("cancelled"@)
    } else if word == "timed_out"@ {
        Some("timed_out"@)
    } else if word == "skipped"@ {
        Some("skipped"@)
    } else {
        None
    }
}

/// Map the status word in a title ("failed", "succeeded", ...) to the GitHub
/// run conclusion.
pub fn status_word_to_conclusion(word: &str) -> (r: Option<&'static str>)
    ensures
        match r {
            Some(c) => conclusion_of(word@) == Some(c@),
            None => conclusion_of(word@) is None,
        },
        match r {
            Some(c) => (c@ == "failure"@ && word@ == "failed"@) || (c@ == "success"@ && word@
                == "succeeded"@) || (c@ == word@ && (word@ == "cancelled"@ || word@
                == "timed_out"@ || word@ == "skipped"@)),
            None => word@ != "failed"@ && word@ != "succeeded"@ && word@ != "cancelled"@ && word@
                != "timed_out"@ && word@ != "skipped"@,
        },
{
    if text::str_eq(word, "failed") {
        Some("failure")
    } else if text::str_eq(word, "succeeded") {
        Some("success")
    } else if text::str_eq(word, "cancelled") {
        Some("cancelled")
    } else if text::str_eq(word, "timed_out") {
        Some("timed_out")
    } else if text::str_eq(word, "skipped") {
        Some("skipped")
    } else {
        None
    }
}

// ---- the search -----------------------------------------------------------

/// How long before the notification a run may have been created, in seconds.
pub const WINDOW_BEFORE: i64 = 900;

/// How long after the notification a run may have been created, in seconds.
pub const WINDOW_AFTER: i64 = 300;

/// The most pages of runs that a search reads.
pub const MAX_PAGES: u8 = 10;

/// A workflow run whose time has been read, where it can be.
#[derive(Debug, Clone)]
pub struct TimedRun {
    pub name: String,
    pub conclusion: Option<String>,
    pub html_url: String,
    pub created: Option<Timestamp>,
}

/// A run with its time read.
pub open spec fn timed(run: WorkflowRun) -> TimedRun {
    TimedRun {
        name: run.name,
        conclusion: run.conclusion,
        html_url: run.html_url,
        created: instant_of(run.created_at@),
    }
}

/// What a search looks for.
pub struct Wanted {
    pub workflow: Seq<char>,
    pub conclusion: Option<Seq<char>>,
    /// The time of the notification.
    pub time: Timestamp,
}

/// The best run so far: its page and its distance in time from the notification.
pub type Best = Option<(Seq<char>, int)>;

impl Wanted {
    /// Whether a run was created before the window: runs come newest first, so
    /// nothing after it can match.
    pub open spec fn is_past(self, run: TimedRun) -> bool {
        let start = stepped(self.time, -(WINDOW_BEFORE as int));
        run.created matches Some(t) && is_before(
            t.secs as int,
            t.nanos as int,
            start.0,
            start.1,
        )
    }

    /// Whether a run may be the one: created within the window, by the right
    /// workflow, with the right conclusion where one is known.
    pub open spec fn is_match(self, run: TimedRun) -> bool {
        let end = stepped(self.time, WINDOW_AFTER as int);
        &&& run.created matches Some(t) && !is_before(
            end.0,
            end.1,
            t.secs as int,
            t.nanos as int,
        )
        &&& !self.is_past(run)
        &&& run.name@ == self.workflow
        &&& self.conclusion matches Some(c) ==> opt_text(run.conclusion) == Some(c)
    }

    /// The distance in time of a run from the notification.
    pub open spec fn distance(self, run: TimedRun) -> int {
        let d = nanos_between(run.created->0, self.time);
        if d < 0 {
            -d
        } else {
            d
        }
    }

    /// The best run after one more: a match that is nearer takes the place.
    pub open spec fn improved(self, best: Best, run: TimedRun) -> Best {
        if self.is_match(run) && (best is None || self.distance(run) < (best->0).1) {
            Some((run.html_url@, self.distance(run)))
        } else {
            best
        }
    }

    /// The best run after a list of runs, and whether the list left the window.
    pub open spec fn scan(self, runs: Seq<TimedRun>, best: Best) -> (Best, bool)
        decreases runs.len(),
    {
        if runs.len() == 0 {
            (best, false)
        } else if self.is_past(runs[0]) {
            (best, true)
        } else {
            self.scan(runs.skip(1), self.improved(best, runs[0]))
        }
    }
}

/// A search for the run of a workflow on a branch, nearest to a notification.
pub struct RunSearch {
    repo: String,
    branch: String,
    workflow: String,
    conclusion: Option<String>,
    time: Timestamp,
    best: Option<(String, i128)>,
    pages_left: u8,
}

/// The state of a search.
pub struct RunSearchView {
    pub repo: Seq<char>,
    pub branch: Seq<char>,
    pub wanted: Wanted,
    pub best: Best,
    /// How many more pages the search may read.
    pub pages_left: nat,
}

/// The best run as a model value.
spec fn best_view(best: Option<(String, i128)>) -> Best {
    match best {
        Some((url, d)) => Some((url@, d as int)),
        None => None,
    }
}

impl View for RunSearch {
    type V = RunSearchView;

    closed spec fn view(&self) -> RunSearchView {
        RunSearchView {
            repo: self.repo@,
            branch: self.branch@,
            wanted: Wanted {
                workflow: self.workflow@,
                conclusion: opt_text(self.conclusion),
                time: self.time,
            },
            best: best_view(self.best),
            pages_left: self.pages_left as nat,
        }
    }
}

/// What follows a page of runs.
#[derive(Debug, Clone)]
pub enum SearchStep {
    Fetch(Request),
    /// The end of the search, with the web page of the run.
    Found(Option<String>),
}

/// What follows a page of runs.
pub enum SearchStepView {
    Fetch(RequestView),
    Found(Option<Seq<char>>),
}

impl View for SearchStep {
    type V = SearchStepView;

    open spec fn view(&self) -> SearchStepView {
        match self {
            SearchStep::Fetch(r) => SearchStepView::Fetch(r@),
            SearchStep::Found(u) => SearchStepView::Found(opt_text(*u)),
        }
    }
}

/// The page of the best run.
pub open spec fn best_url(best: Best) -> Option<Seq<char>> {
    match best {
        Some((url, _)) => Some(url),
        None => None,
    }
}

/// The first request of a search.
pub open spec fn runs_request(st: RunSearchView) -> RequestView {
    RequestView {
        target: TargetView::Path("/repos/"@ + st.repo + "/actions/runs"@),
        query: seq![("branch"@, st.branch), ("per_page"@, "100"@)],
        etag: None,
    }
}

/// The state after a page. An error, or a body that cannot be read, leaves the
/// best run as it was.
pub open spec fn searched(
    st: RunSearchView,
    status: u16,
    runs: Option<Seq<TimedRun>>,
) -> RunSearchView {
    RunSearchView {
        best: if status == 200 && runs is Some {
            st.wanted.scan(runs->0, st.best).0
        } else {
            st.best
        },
        pages_left: if st.pages_left > 0 {
            (st.pages_left - 1) as nat
        } else {
            0
        },
        ..st
    }
}

/// What follows a page: nothing is found on an error or a body that cannot be
/// read; the best run is found once the runs leave the window, the pages end,
/// or enough of them have been read.
pub open spec fn search_step(
    st: RunSearchView,
    status: u16,
    link: Option<Seq<char>>,
    runs: Option<Seq<TimedRun>>,
) -> SearchStepView {
    let after = searched(st, status, runs);
    if status != 200 || runs is None {
        SearchStepView::Found(None)
    } else if st.wanted.scan(runs->0, st.best).1 || after.pages_left == 0 {
        SearchStepView::Found(best_url(after.best))
    } else {
        match next_page_of(link) {
            Some(url) => SearchStepView::Fetch(url_request(url, None)),
            None => SearchStepView::Found(best_url(after.best)),
        }
    }
}

/// The runs of an optional page, with their times read.
pub open spec fn opt_runs(runs: Option<ActionsRuns>) -> Option<Seq<TimedRun>> {
    match runs {
        Some(r) => Some(timed_all(r.workflow_runs@)),
        None => None,
    }
}

/// A list of runs with their times read.
pub open spec fn timed_all(runs: Seq<WorkflowRun>) -> Seq<TimedRun> {
    runs.map_values(|r: WorkflowRun| timed(r))
}

/// The runs of an optional page.
pub open spec fn opt_timed(runs: Option<Vec<TimedRun>>) -> Option<Seq<TimedRun>> {
    match runs {
        Some(r) => Some(r@),
        None => None,
    }
}

/// Reads the times of the runs of a page.
pub fn read_times(runs: ActionsRuns) -> (r: Vec<TimedRun>)
    ensures
        r@ == timed_all(runs.workflow_runs@),
{
    let ghost all = timed_all(runs.workflow_runs@);
    let mut out: Vec<TimedRun> = Vec::new();
    for run in it: runs.workflow_runs.into_iter()
        invariant
            it.seq() == runs.workflow_runs@,
            all == timed_all(runs.workflow_runs@),
            out@ == all.take(it.index() as int),
    {
        let created = parse_time(run.created_at.as_str());
        out.push(
            TimedRun {
                name: run.name,
                conclusion: run.conclusion,
                html_url: run.html_url,
                created,
            },
        );
        assert(all[it.index() as int] == timed(run));
        assert(all.take(it.index() + 1) =~= all.take(it.index() as int).push(timed(run)));
    }
    assert(all.take(all.len() as int) =~= all);
    out
}

impl RunSearch {
    /// A search in `repo`, unless that names no repository or the time of the
    /// notification cannot be read.
    pub fn new(
        repo: String,
        workflow: String,
        conclusion: Option<String>,
        branch: String,
        updated_at: &str,
    ) -> (r: Option<RunSearch>)
        ensures
            r is Some <==> has_substring(repo@, "/"@) && instant_of(updated_at@) is Some,
            r matches Some(s) ==> s@ == (RunSearchView {
                repo: repo@,
                branch: branch@,
                wanted: Wanted {
                    workflow: workflow@,
                    conclusion: opt_text(conclusion),
                    time: instant_of(updated_at@)->0,
                },
                best: None,
                pages_left: MAX_PAGES as nat,
            }),
    {
        match parse_time(updated_at) {
            Some(time) => RunSearch::around(repo, workflow, conclusion, branch, time),
            None => None,
        }
    }

    /// A search in `repo` for the run nearest to a time, unless that names no
    /// repository.
    pub fn around(
        repo: String,
        workflow: String,
        conclusion: Option<String>,
        branch: String,
        time: Timestamp,
    ) -> (r: Option<RunSearch>)
        ensures
            r is Some <==> has_substring(repo@, "/"@),
            r matches Some(s) ==> s@ == (RunSearchView {
                repo: repo@,
                branch: branch@,
                wanted: Wanted { workflow: workflow@, conclusion: opt_text(conclusion), time },
                best: None,
                pages_left: MAX_PAGES as nat,
            }),
            r matches Some(s) ==> s@.pages_left == 10,
    {
        if !names_repo(repo.as_str()) {
            return None;
        }
        Some(
            RunSearch {
                repo,
                branch,
                workflow,
                conclusion,
                time,
                best: None,
                pages_left: MAX_PAGES,
            },
        )
    }

    /// The first request of the search.
    pub fn first_request(&self) -> (r: Request)
        ensures
            r@ == runs_request(self@),
            r.target matches Target::Path(path) && path@ == "/repos/"@ + self@.repo
                + "/actions/runs"@,
            asks_for(r@.query, "branch"@, self@.branch),
            asks_for(r@.query, "per_page"@, "100"@),
            r.etag is None,
    {
        proof {
            law_search_asks_for_its_branch(self@);
        }
        let mut query: Vec<(String, String)> = Vec::new();
        query.push(("branch".to_owned(), self.branch.clone()));
        query.push(("per_page".to_owned(), "100".to_owned()));
        assert(pair_texts(query@) =~= seq![("branch"@, self.branch@), ("per_page"@, "100"@)]);
        let path = "/repos/".to_owned().concat(self.repo.as_str()).concat("/actions/runs");
        Request { target: Target::Path(path), query, etag: None }
    }

    /// Takes one run into account; the result tells whether it lies before the
    /// window.
    fn consider(&mut self, run: &TimedRun) -> (past: bool)
        ensures
            past == old(self)@.wanted.is_past(*run),
            final(self)@ == (RunSearchView {
                best: if past {
                    old(self)@.best
                } else {
                    old(self)@.wanted.improved(old(self)@.best, *run)
                },
                ..old(self)@
            }),
    {
        let created = match run.created {
            Some(t) => t,
            None => return false,
        };
        if created.before_step(&self.time, -WINDOW_BEFORE) {
            return true;
        }
        if created.after_step(&self.time, WINDOW_AFTER) {
            return false;
        }
        if !text::str_eq(run.name.as_str(), self.workflow.as_str()) {
            return false;
        }
        if let Some(wanted) = &self.conclusion {
            let same = match &run.conclusion {
                Some(c) => text::str_eq(c.as_str(), wanted.as_str()),
                None => false,
            };
            if !same {
                return false;
            }
        }
        let apart: i128 = created.nanos_since(&self.time);
        let distance: i128 = if apart < 0 {
            -apart
        } else {
            apart
        };
        let nearer = match &self.best {
            Some((_, d)) => distance < *d,
            None => true,
        };
        if nearer {
            self.best = Some((run.html_url.clone(), distance));
        }
        false
    }

    /// The decision on a page of runs. `runs` is the parsed body, absent when
    /// the body could not be parsed.
    pub fn on_page(&mut self, head: &Head, runs: Option<ActionsRuns>) -> (r: SearchStep)
        ensures
            final(self)@ == searched(old(self)@, head.status@, opt_runs(runs)),
            r@ == search_step(old(self)@, head.status@, opt_text(head.link), opt_runs(runs)),
    {
        let read = match runs {
            Some(r) => Some(read_times(r)),
            None => None,
        };
        self.on_timed_page(head, read)
    }

    /// The decision on a page of runs whose times have been read.
    pub fn on_timed_page(&mut self, head: &Head, runs: Option<Vec<TimedRun>>) -> (r: SearchStep)
        ensures
            final(self)@ == searched(old(self)@, head.status@, opt_timed(runs)),
            r@ == search_step(old(self)@, head.status@, opt_text(head.link), opt_timed(runs)),
    {
        if self.pages_left > 0 {
            self.pages_left = self.pages_left - 1;
        }
        if head.status.as_u16() != 200 {
            return SearchStep::Found(None);
        }
        let runs = match runs {
            Some(r) => r,
            None => return SearchStep::Found(None),
        };
        let ghost start = self@;
        let ghost all = runs@;
        let ghost wanted = self@.wanted;
        let mut past = false;
        let mut i: usize = 0;
        assert(all.skip(0) =~= all);
        while i < runs.len() && !past
            invariant
                i <= runs@.len(),
                all == runs@,
                wanted == self@.wanted,
                self@ == (RunSearchView { best: self@.best, ..start }),
                past ==> wanted.scan(all, start.best) == (self@.best, true),
                !past ==> wanted.scan(all, start.best) == wanted.scan(all.skip(i as int), self@.best),
            decreases runs@.len() - i + (if past { 0int } else { 1 }),
        {
            assert(all.skip(i as int).skip(1) =~= all.skip(i + 1));
            assert(all.skip(i as int)[0] == runs@[i as int]);
            past = self.consider(&runs[i]);
            if !past {
                i += 1;
            }
        }
        if past || self.pages_left == 0 {
            return SearchStep::Found(self.found());
        }
        match follow(&head.link) {
            Next::Fetch(request) => SearchStep::Fetch(request),
            _ => SearchStep::Found(self.found()),
        }
    }

    /// The page of the best run so far.
    fn found(&self) -> (r: Option<String>)
        ensures
            opt_text(r) == best_url(self@.best),
    {
        match &self.best {
            Some((url, _)) => Some(url.clone()),
            None => None,
        }
    }
}

// ---- laws -----------------------------------------------------------------

/// The runs of a list before the first that lies before the window.
pub open spec fn seen(wanted: Wanted, runs: Seq<TimedRun>) -> Seq<TimedRun>
    decreases runs.len(),
{
    if runs.len() == 0 || wanted.is_past(runs[0]) {
        Seq::empty()
    } else {
        seq![runs[0]] + seen(wanted, runs.skip(1))
    }
}

/// The best run stands for one that was seen and matches, or is the one that
/// the scan began with; no match that was seen is nearer.
proof fn lemma_scan(wanted: Wanted, runs: Seq<TimedRun>, best: Best)
    ensures
        ({
            let end = wanted.scan(runs, best).0;
            &&& best is Some ==> end is Some && (end->0).1 <= (best->0).1
            &&& end == best || exists|i: int|
                0 <= i < seen(wanted, runs).len() && wanted.is_match(
                    #[trigger] seen(wanted, runs)[i],
                ) && end == Some(
                    (
                        seen(wanted, runs)[i].html_url@,
                        wanted.distance(seen(wanted, runs)[i]),
                    ),
                )
            &&& forall|i: int|
                0 <= i < seen(wanted, runs).len() && wanted.is_match(
                    #[trigger] seen(wanted, runs)[i],
                ) ==> end is Some && (end->0).1 <= wanted.distance(seen(wanted, runs)[i])
        }),
    decreases runs.len(),
{
    if runs.len() > 0 && !wanted.is_past(runs[0]) {
        let rest = runs.skip(1);
        let mid = wanted.improved(best, runs[0]);
        lemma_scan(wanted, rest, mid);
        let here = seen(wanted, runs);
        let tail = seen(wanted, rest);
        let end = wanted.scan(runs, best).0;
        assert forall|i: int| 0 <= i < here.len() && wanted.is_match(#[trigger] here[i]) implies end
            is Some && (end->0).1 <= wanted.distance(here[i]) by {
            if i > 0 {
                assert(here[i] == tail[i - 1]);
            }
        }
        if end != best {
            if end == mid {
                assert(here[0] == runs[0]);
            } else {
                let i = choose|i: int|
                    0 <= i < tail.len() && wanted.is_match(#[trigger] tail[i]) && end == Some(
                        (tail[i].html_url@, wanted.distance(tail[i])),
                    );
                assert(here[i + 1] == tail[i]);
            }
        }
    }
}

/// A search finds the matching run that is nearest to the notification: what
/// it finds is a match among the runs that it saw, and no match among them is
/// nearer; it finds nothing only when none of them matches.
pub proof fn law_nearest_match_is_found(wanted: Wanted, runs: Seq<TimedRun>)
    ensures
        ({
            let found = wanted.scan(runs, None).0;
            let runs = seen(wanted, runs);
            match found {
                Some((url, d)) => (exists|i: int|
                    0 <= i < runs.len() && wanted.is_match(#[trigger] runs[i]) && runs[i].html_url@
                        == url && wanted.distance(runs[i]) == d) && (forall|i: int|
                    0 <= i < runs.len() && wanted.is_match(#[trigger] runs[i]) ==> d
                        <= wanted.distance(runs[i])),
                None => forall|i: int|
                    0 <= i < runs.len() ==> !wanted.is_match(#[trigger] runs[i]),
            }
        }),
{
    lemma_scan(wanted, runs, None);
}

/// Pages read one after the other are read as one list: scanning a second page
/// with the best run of the first gives what scanning both at once gives.
pub proof fn law_pages_scan_as_one(
    wanted: Wanted,
    first: Seq<TimedRun>,
    second: Seq<TimedRun>,
    best: Best,
)
    requires
        !wanted.scan(first, best).1,
    ensures
        wanted.scan(second, wanted.scan(first, best).0) == wanted.scan(first + second, best),
    decreases first.len(),
{
    if first.len() == 0 {
        assert(first + second =~= second);
    } else {
        assert((first + second).skip(1) =~= first.skip(1) + second);
        law_pages_scan_as_one(
            wanted,
            first.skip(1),
            second,
            wanted.improved(best, first[0]),
        );
    }
}

/// A page of runs as it arrived.
pub struct Answer {
    pub status: u16,
    pub link: Option<Seq<char>>,
    /// The parsed body, absent when it could not be parsed.
    pub runs: Option<Seq<TimedRun>>,
}

/// The state in which a search ends that is answered in turn.
pub open spec fn search_end(st: RunSearchView, answers: Seq<Answer>) -> RunSearchView
    decreases answers.len(),
{
    if answers.len() == 0 {
        st
    } else {
        let a = answers[0];
        if search_step(st, a.status, a.link, a.runs) is Fetch {
            search_end(searched(st, a.status, a.runs), answers.skip(1))
        } else {
            searched(st, a.status, a.runs)
        }
    }
}

/// The runs on the pages that such a search reads, one page after the other.
pub open spec fn runs_read(st: RunSearchView, answers: Seq<Answer>) -> Seq<TimedRun>
    decreases answers.len(),
{
    if answers.len() == 0 {
        Seq::empty()
    } else {
        let a = answers[0];
        if search_step(st, a.status, a.link, a.runs) is Fetch {
            a.runs->0 + runs_read(searched(st, a.status, a.runs), answers.skip(1))
        } else {
            a.runs->0
        }
    }
}

/// A search that meets no error ends with the best of all the runs that it
/// read, as if they had come on one page.
pub proof fn law_search_covers_all_pages(st: RunSearchView, answers: Seq<Answer>)
    requires
        forall|i: int|
            0 <= i < answers.len() ==> (#[trigger] answers[i]).status == 200 && answers[i].runs is Some,
    ensures
        search_end(st, answers).best == st.wanted.scan(runs_read(st, answers), st.best).0,
    decreases answers.len(),
{
    if answers.len() > 0 {
        let a = answers[0];
        if search_step(st, a.status, a.link, a.runs) is Fetch {
            let mid = searched(st, a.status, a.runs);
            let rest = answers.skip(1);
            assert forall|i: int| 0 <= i < rest.len() implies (#[trigger] rest[i]).status == 200
                && rest[i].runs is Some by {
                assert(rest[i] == answers[i + 1]);
            }
            law_search_covers_all_pages(mid, rest);
            law_pages_scan_as_one(st.wanted, a.runs->0, runs_read(mid, rest), st.best);
        }
    }
}

/// A search reads a bounded number of pages: each request that follows a page
/// uses up one of those that are left, and the last one is never exceeded.
pub proof fn law_search_is_bounded(
    st: RunSearchView,
    status: u16,
    link: Option<Seq<char>>,
    runs: Option<Seq<TimedRun>>,
)
    requires
        search_step(st, status, link, runs) is Fetch,
    ensures
        0 < searched(st, status, runs).pages_left < st.pages_left,
{
}

/// A search asks for the runs of its own repository on its own branch.
pub proof fn law_search_asks_for_its_branch(st: RunSearchView)
    ensures
        runs_request(st).target == TargetView::Path("/repos/"@ + st.repo + "/actions/runs"@),
        asks_for(runs_request(st).query, "branch"@, st.branch),
        asks_for(runs_request(st).query, "per_page"@, "100"@),
        runs_request(st).etag is None,
{
    reveal_strlit("branch");
    reveal_strlit("per_page");
    let query = runs_request(st).query;
    assert("branch"@.len() != "per_page"@.len());
    assert(query[0] == ("branch"@, st.branch));
    assert(query[1] == ("per_page"@, "100"@));
}

/// The time from `b` to `a` in nanoseconds, for instants outside leap seconds.
pub open spec fn apart(a: Timestamp, b: Timestamp) -> int {
    (a.secs - b.secs) * 1_000_000_000 + a.nanos - b.nanos
}

/// Whether a run may be the one that a notification speaks of: it is a run of
/// the workflow, its conclusion is the one that is named, if one is, and it was
/// created at most a quarter of an hour before the notification and at most five
/// minutes after it.
pub open spec fn may_be(run: TimedRun, wanted: Wanted) -> bool {
    &&& run.name@ == wanted.workflow
    &&& wanted.conclusion matches Some(c) ==> run.conclusion matches Some(d) && d@ == c
    &&& run.created matches Some(t) && -900_000_000_000 <= apart(t, wanted.time) <= 300_000_000_000
}

/// Whether a run's time is known and lies outside leap seconds.
pub open spec fn is_plainly_timed(run: TimedRun) -> bool {
    run.created matches Some(t) && t.nanos < 1_000_000_000
}

/// A run that may be the one matches, and only such a run does.
proof fn lemma_match_is_may_be(wanted: Wanted, run: TimedRun)
    requires
        wanted.time.nanos < 1_000_000_000,
        is_plainly_timed(run),
    ensures
        wanted.is_match(run) == may_be(run, wanted),
        wanted.is_past(run) == (apart(run.created->0, wanted.time) < -900_000_000_000),
        wanted.distance(run) == (if apart(run.created->0, wanted.time) < 0 {
            -apart(run.created->0, wanted.time)
        } else {
            apart(run.created->0, wanted.time)
        }),
{
}

/// In a list with the newest runs first, every run that may be the one is seen.
proof fn lemma_candidates_are_seen(wanted: Wanted, runs: Seq<TimedRun>, j: int)
    requires
        wanted.time.nanos < 1_000_000_000,
        forall|i: int| 0 <= i < runs.len() ==> is_plainly_timed(#[trigger] runs[i]),
        forall|a: int, b: int|
            0 <= a < b < runs.len() ==> apart(
                (#[trigger] runs[a]).created->0,
                (#[trigger] runs[b]).created->0,
            ) >= 0,
        0 <= j < runs.len(),
        may_be(runs[j], wanted),
    ensures
        seen(wanted, runs).contains(runs[j]),
    decreases runs.len(),
{
    lemma_match_is_may_be(wanted, runs[0]);
    if j > 0 {
        assert(apart(runs[0].created->0, runs[j].created->0) >= 0);
    }
    assert(!wanted.is_past(runs[0]));
    let here = seen(wanted, runs);
    let rest = runs.skip(1);
    if j == 0 {
        assert(here[0] == runs[0]);
    } else {
        assert forall|i: int| 0 <= i < rest.len() implies is_plainly_timed(#[trigger] rest[i]) by {
            assert(rest[i] == runs[i + 1]);
        }
        assert forall|a: int, b: int| 0 <= a < b < rest.len() implies apart(
            (#[trigger] rest[a]).created->0,
            (#[trigger] rest[b]).created->0,
        ) >= 0 by {
            assert(rest[a] == runs[a + 1]);
            assert(rest[b] == runs[b + 1]);
        }
        assert(rest[j - 1] == runs[j]);
        lemma_candidates_are_seen(wanted, rest, j - 1);
        let tail = seen(wanted, rest);
        let k = choose|k: int| 0 <= k < tail.len() && tail[k] == runs[j];
        assert(here[k + 1] == runs[j]);
    }
}

/// What is seen stands in the list.
proof fn lemma_seen_is_listed(wanted: Wanted, runs: Seq<TimedRun>, k: int)
    requires
        0 <= k < seen(wanted, runs).len(),
    ensures
        runs.contains(seen(wanted, runs)[k]),
    decreases runs.len(),
{
    if k == 0 {
        assert(runs[0] == seen(wanted, runs)[0]);
    } else {
        lemma_seen_is_listed(wanted, runs.skip(1), k - 1);
        let rest = runs.skip(1);
        let m = choose|m: int| 0 <= m < rest.len() && rest[m] == seen(wanted, rest)[k - 1];
        assert(runs[m + 1] == seen(wanted, runs)[k]);
    }
}

/// A search finds the run that a notification speaks of: of the runs that may be
/// the one, one that no other is nearer to in time. It finds nothing only when
/// no run may be the one. The list has the newest runs first.
pub proof fn law_right_run_is_found(wanted: Wanted, runs: Seq<TimedRun>)
    requires
        wanted.time.nanos < 1_000_000_000,
        forall|i: int| 0 <= i < runs.len() ==> is_plainly_timed(#[trigger] runs[i]),
        forall|a: int, b: int|
            0 <= a < b < runs.len() ==> apart(
                (#[trigger] runs[a]).created->0,
                (#[trigger] runs[b]).created->0,
            ) >= 0,
    ensures
        match wanted.scan(runs, None).0 {
            Some((url, d)) => (exists|i: int|
                0 <= i < runs.len() && may_be(#[trigger] runs[i], wanted) && runs[i].html_url@
                    == url && (d == apart(runs[i].created->0, wanted.time) || d == -apart(
                    runs[i].created->0,
                    wanted.time,
                ))) && d >= 0 && (forall|j: int|
                0 <= j < runs.len() && may_be(#[trigger] runs[j], wanted) ==> d <= apart(
                    runs[j].created->0,
                    wanted.time,
                ) || d <= -apart(runs[j].created->0, wanted.time)),
            None => forall|j: int| 0 <= j < runs.len() ==> !may_be(#[trigger] runs[j], wanted),
        },
{
    law_nearest_match_is_found(wanted, runs);
    let near = seen(wanted, runs);
    assert forall|k: int| 0 <= k < near.len() implies runs.contains(#[trigger] near[k]) by {
        lemma_seen_is_listed(wanted, runs, k);
    }
    assert forall|j: int| 0 <= j < runs.len() && may_be(#[trigger] runs[j], wanted) implies exists|
        k: int,
    | 0 <= k < near.len() && #[trigger] near[k] == runs[j] && wanted.is_match(near[k]) by {
        lemma_candidates_are_seen(wanted, runs, j);
        lemma_match_is_may_be(wanted, runs[j]);
        let k = choose|k: int| 0 <= k < near.len() && near[k] == runs[j];
        assert(near[k] == runs[j]);
    }
    match wanted.scan(runs, None).0 {
        Some((url, d)) => {
            let k = choose|k: int|
                0 <= k < near.len() && wanted.is_match(#[trigger] near[k]) && near[k].html_url@ == url
                    && wanted.distance(near[k]) == d;
            assert(runs.contains(near[k]));
            let i = choose|i: int| 0 <= i < runs.len() && runs[i] == near[k];
            lemma_match_is_may_be(wanted, runs[i]);
            assert(may_be(runs[i], wanted));
            assert forall|j: int| 0 <= j < runs.len() && may_be(#[trigger] runs[j], wanted) implies d
                <= apart(runs[j].created->0, wanted.time) || d <= -apart(
                runs[j].created->0,
                wanted.time,
            ) by {
                lemma_match_is_may_be(wanted, runs[j]);
                let m = choose|m: int|
                    0 <= m < near.len() && #[trigger] near[m] == runs[j] && wanted.is_match(near[m]);
                assert(d <= wanted.distance(near[m]));
            }
        },
        None => {
            assert forall|j: int| 0 <= j < runs.len() implies !may_be(#[trigger] runs[j], wanted) by {
                if may_be(runs[j], wanted) {
                    let m = choose|m: int|
                        0 <= m < near.len() && #[trigger] near[m] == runs[j] && wanted.is_match(
                            near[m],
                        );
                    assert(!wanted.is_match(near[m]));
                }
            }
        },
    }
}

/// How a search goes on from a page: an error or an unreadable body ends it with
/// nothing; a page that is followed is followed to the page that it links to,
/// and only while fewer than ten pages have been read; otherwise the search ends
/// with the best run so far.
pub proof fn law_search_goes_on(
    st: RunSearchView,
    status: u16,
    link: Option<Seq<char>>,
    runs: Option<Seq<TimedRun>>,
)
    ensures
        MAX_PAGES == 10,
        status != 200 || runs is None ==> search_step(st, status, link, runs)
            == SearchStepView::Found(None),
        search_step(st, status, link, runs) matches SearchStepView::Fetch(request) ==> st.pages_left
            > 1 && next_page_of(link) is Some && request.target == TargetView::Url(
            next_page_of(link)->0,
        ) && request.query.len() == 0 && request.etag is None,
        status == 200 && runs is Some ==> (search_step(st, status, link, runs) matches
            SearchStepView::Found(url) ==> match searched(st, status, runs).best {
            Some((best, _)) => url == Some(best),
            None => url is None,
        }),
        status == 200 && runs is Some && st.pages_left > 1 && next_page_of(link) is Some && !(
        st.wanted.scan(runs->0, st.best).1) ==> search_step(st, status, link, runs) is Fetch,
        status == 200 && runs is Some ==> searched(st, status, runs).best == st.wanted.scan(
            runs->0,
            st.best,
        ).0,
        searched(st, status, runs).wanted == st.wanted,
        searched(st, status, runs).repo == st.repo,
        searched(st, status, runs).branch == st.branch,
{
}

/// A scan stops at the first run from before the window, and at no other.
pub proof fn law_scan_stops_at_old_runs(wanted: Wanted, runs: Seq<TimedRun>, best: Best)
    requires
        wanted.time.nanos < 1_000_000_000,
        forall|i: int| 0 <= i < runs.len() ==> is_plainly_timed(#[trigger] runs[i]),
    ensures
        wanted.scan(runs, best).1 <==> exists|i: int|
            0 <= i < runs.len() && apart((#[trigger] runs[i]).created->0, wanted.time)
                < -900_000_000_000,
    decreases runs.len(),
{
    if runs.len() > 0 {
        lemma_match_is_may_be(wanted, runs[0]);
        let rest = runs.skip(1);
        assert forall|i: int| 0 <= i < rest.len() implies is_plainly_timed(#[trigger] rest[i]) by {
            assert(rest[i] == runs[i + 1]);
        }
        if !wanted.is_past(runs[0]) {
            law_scan_stops_at_old_runs(wanted, rest, wanted.improved(best, runs[0]));
            if wanted.scan(runs, best).1 {
                let i = choose|i: int|
                    0 <= i < rest.len() && apart((#[trigger] rest[i]).created->0, wanted.time)
                        < -900_000_000_000;
                assert(runs[i + 1] == rest[i]);
            }
            if exists|i: int|
                0 <= i < runs.len() && apart((#[trigger] runs[i]).created->0, wanted.time)
                    < -900_000_000_000 {
                let i = choose|i: int|
                    0 <= i < runs.len() && apart((#[trigger] runs[i]).created->0, wanted.time)
                        < -900_000_000_000;
                assert(rest[i - 1] == runs[i]);
            }
        }
    }
}

/// The runs of a page are taken as they came, with their times read.
pub proof fn law_runs_keep_their_fields(runs: Seq<WorkflowRun>, i: int)
    requires
        0 <= i < runs.len(),
    ensures
        timed_all(runs).len() == runs.len(),
        timed_all(runs)[i].name == runs[i].name,
        timed_all(runs)[i].conclusion == runs[i].conclusion,
        timed_all(runs)[i].html_url == runs[i].html_url,
        timed_all(runs)[i].created == instant_of(runs[i].created_at@),
{
}

/// A space in front of a text that begins with none is trimmed.
proof fn lemma_space_goes(s: Seq<char>)
    requires
        s.len() > 0,
        !text::is_space(s[0]),
    ensures
        trimmed_start(seq![' '] + s) == s,
        trimmed_start(s) == s,
{
    let spaced = seq![' '] + s;
    assert(spaced.skip(1) =~= s);
    reveal_with_fuel(trimmed_start, 2);
}

/// Digits in front of a text that begins with none are dropped.
proof fn lemma_digits_go(digits: Seq<char>, s: Seq<char>)
    requires
        text::all_digits(digits),
        s.len() > 0,
        !is_digit(s[0]),
    ensures
        after_digits(digits + s) == s,
    decreases digits.len(),
{
    if digits.len() == 0 {
        assert(digits + s =~= s);
    } else {
        assert(is_digit((digits + s)[0]));
        assert((digits + s).skip(1) =~= digits.skip(1) + s);
        assert forall|i: int| 0 <= i < digits.skip(1).len() implies is_digit(
            #[trigger] digits.skip(1)[i],
        ) by {
            assert(digits.skip(1)[i] == digits[i + 1]);
        }
        lemma_digits_go(digits.skip(1), s);
    }
}

/// What stands after the workflow's name in a title.
proof fn lemma_title_tail(word: Seq<char>, branch: Seq<char>)
    requires
        word.len() > 0,
        !text::is_space(word[0]),
        !word.contains(' '),
        branch.len() > 0,
        !text::is_space(branch[0]),
        !text::is_space(branch.last()),
    ensures
        ({
            let tail = word + " for "@ + branch + " branch"@;
            &&& without_prefix(tail, ", Attempt #"@) is None
            &&& cut_once(tail, " "@) == Some((word, "for "@ + branch + " branch"@))
            &&& branch_in("for "@ + branch + " branch"@) == Some(branch)
            &&& trimmed_start("for "@ + branch + " branch"@) == "for "@ + branch + " branch"@
        }),
{
    reveal_strlit(" for ");
    reveal_strlit("for ");
    reveal_strlit(" branch");
    reveal_strlit(", Attempt #");
    reveal_strlit(" ");
    let tail = word + " for "@ + branch + " branch"@;
    let rest = "for "@ + branch + " branch"@;
    if text::has_prefix(tail, ", Attempt #"@) {
        let p = tail.take(11);
        assert(p[1] == ' ' && p[2] == 'A');
        if word.len() >= 2 {
            assert(word[1] == tail[1]);
        } else {
            assert(tail[2] == 'f');
        }
    }
    assert(" "@ =~= seq![' ']);
    assert(tail[word.len() as int] == ' ');
    assert forall|i: int| 0 <= i < word.len() implies tail[i] != ' ' by {
        assert(tail[i] == word[i]);
        assert(word.contains(word[i]));
    }
    text::lemma_find_char(tail, ' ', word.len() as int);
    assert(tail.take(word.len() as int) =~= word);
    assert(tail.skip(word.len() as int + 1) =~= rest);
    text::law_ends_come_off("for "@, branch + " branch"@, rest);
    assert(rest =~= "for "@ + (branch + " branch"@));
    text::law_ends_come_off(" branch"@, branch, rest);
    text::law_trimmed_stays(branch);
    assert(rest[0] == 'f');
}

/// A title names its workflow, its status and its branch: whatever they are,
/// they are read back from `"<workflow> workflow run <status> for <branch>
/// branch"`, and an attempt number in between changes nothing. The workflow is
/// what stands before the first " workflow run", and the status is one word.
pub proof fn law_titles_are_read_back(
    workflow: Seq<char>,
    attempt: Option<Seq<char>>,
    word: Seq<char>,
    branch: Seq<char>,
    title: Seq<char>,
)
    requires
        workflow.len() > 0,
        !text::is_space(workflow[0]),
        !text::is_space(workflow.last()),
        word.len() > 0,
        !text::is_space(word[0]),
        !word.contains(' '),
        branch.len() > 0,
        !text::is_space(branch[0]),
        !text::is_space(branch.last()),
        attempt matches Some(n) ==> text::all_digits(n),
        title == workflow + " workflow run"@ + (match attempt {
            Some(n) => ", Attempt #"@ + n + " "@,
            None => " "@,
        }) + (word + " for "@ + branch + " branch"@),
        forall|i: int|
            0 <= i < workflow.len() ==> #[trigger] title.subrange(i, i + 13) != " workflow run"@,
    ensures
        title_parts(title) == Some((workflow, word, branch)),
{
    reveal_strlit(" workflow run");
    reveal_strlit(", Attempt #");
    reveal_strlit(" ");
    let mark = " workflow run"@;
    let tail = word + " for "@ + branch + " branch"@;
    lemma_title_tail(word, branch);
    text::law_trimmed_stays(workflow);
    let n = workflow.len() as int;
    let rest = (match attempt {
        Some(d) => ", Attempt #"@ + d + " "@,
        None => " "@,
    }) + tail;
    assert(title.subrange(n, n + 13) =~= mark);
    assert forall|i: int| 0 <= i < n implies !text::occurs_at(title, mark, i) by {
        assert(title.subrange(i, i + 13) != mark);
    }
    assert(text::occurs_at(title, mark, n));
    text::lemma_first_at(title, mark, n);
    assert(title.take(n) =~= workflow);
    assert(title.skip(n + 13) =~= rest);
    assert(tail[0] == word[0]);
    lemma_space_goes(tail);
    assert(" "@ =~= seq![' ']);
    match attempt {
        Some(d) => {
            let spaced = " "@ + tail;
            assert(rest =~= ", Attempt #"@ + (d + spaced));
            assert(rest[0] == ',');
            text::law_ends_come_off(", Attempt #"@, d + spaced, rest);
            assert(spaced[0] == ' ');
            lemma_digits_go(d, spaced);
            assert(after_attempt(trimmed_start(rest)) == tail);
        },
        None => {
            assert(rest == seq![' '] + tail);
            assert(after_attempt(trimmed_start(rest)) == tail);
        },
    }
}

/// A title is read only where it has every part: it holds " workflow run" after
/// something, it ends with " branch", and neither name is blank.
pub proof fn law_incomplete_titles_are_not_read(title: Seq<char>)
    requires
        title_parts(title) is Some,
    ensures
        has_substring(title, " workflow run"@),
        text::has_suffix(title, " branch"@),
        (title_parts(title)->0).0.len() > 0,
        (title_parts(title)->0).2.len() > 0,
{
    let (name, rest) = cut_once(title, " workflow run"@)->0;
    let t1 = trimmed_start(rest);
    let t2 = after_attempt(t1);
    let t3 = (cut_once(t2, " "@)->0).1;
    let t4 = trimmed_start(t3);
    let t5 = without_prefix(t4, "for "@)->0;
    assert(has_substring(title, " workflow run"@)) by {
        text::law_cut_at_first(title, " workflow run"@);
        text::law_substring_stands_between(name, " workflow run"@, rest, title);
    }
    assert(is_end(t5, title)) by {
        lemma_cut_leaves_end(title, " workflow run"@);
        text::lemma_trimmed_start(rest);
        lemma_end_of_end(t1, rest, title);
        lemma_after_attempt_is_end(t1);
        lemma_end_of_end(t2, t1, title);
        lemma_cut_leaves_end(t2, " "@);
        lemma_end_of_end(t3, t2, title);
        text::lemma_trimmed_start(t3);
        lemma_end_of_end(t4, t3, title);
        lemma_prefix_leaves_end(t4, "for "@);
        lemma_end_of_end(t5, t4, title);
    }
    lemma_suffix_of_end(t5, title, " branch"@);
}

/// Whether a text is the end of another.
spec fn is_end(a: Seq<char>, b: Seq<char>) -> bool {
    a.len() <= b.len() && a == b.skip(b.len() - a.len())
}

/// The end of an end is an end.
proof fn lemma_end_of_end(a: Seq<char>, b: Seq<char>, c: Seq<char>)
    requires
        is_end(a, b),
        is_end(b, c),
    ensures
        is_end(a, c),
{
    assert(c.skip(c.len() - a.len()) =~= b.skip(b.len() - a.len()));
}

/// What follows a cut is an end.
proof fn lemma_cut_leaves_end(s: Seq<char>, pat: Seq<char>)
    requires
        cut_once(s, pat) is Some,
    ensures
        is_end((cut_once(s, pat)->0).1, s),
{
    text::law_cut_at_first(s, pat);
    let (before, after) = cut_once(s, pat)->0;
    assert((before + pat + after).skip((before + pat).len() as int) =~= after);
}

/// What follows a prefix is an end.
proof fn lemma_prefix_leaves_end(s: Seq<char>, start: Seq<char>)
    requires
        without_prefix(s, start) is Some,
    ensures
        is_end(without_prefix(s, start)->0, s),
{
    let r = without_prefix(s, start)->0;
    text::law_ends_come_off(start, r, s);
    assert((start + r).skip(start.len() as int) =~= r);
}

/// A text ends with what its end ends with.
proof fn lemma_suffix_of_end(a: Seq<char>, b: Seq<char>, suffix: Seq<char>)
    requires
        is_end(a, b),
        text::has_suffix(a, suffix),
    ensures
        text::has_suffix(b, suffix),
{
    assert(b.skip(b.len() - suffix.len()) =~= a.skip(a.len() - suffix.len()));
}

/// What is left after the attempt is an end.
proof fn lemma_after_attempt_is_end(s: Seq<char>)
    ensures
        is_end(after_attempt(s), s),
{
    match without_prefix(s, ", Attempt #"@) {
        Some(r) => {
            lemma_prefix_leaves_end(s, ", Attempt #"@);
            lemma_after_digits_is_end(r);
            text::lemma_trimmed_start(after_digits(r));
            lemma_end_of_end(after_attempt(s), after_digits(r), r);
            lemma_end_of_end(after_attempt(s), r, s);
        },
        None => {
            assert(s.skip(0) =~= s);
        },
    }
}

/// What is left after digits is an end.
proof fn lemma_after_digits_is_end(s: Seq<char>)
    ensures
        is_end(after_digits(s), s),
    decreases s.len(),
{
    if s.len() > 0 && is_digit(s[0]) {
        lemma_after_digits_is_end(s.skip(1));
        assert(is_end(s.skip(1), s));
        lemma_end_of_end(after_digits(s), s.skip(1), s);
    } else {
        assert(s.skip(0) =~= s);
    }
}

/// The status words of titles stand for the conclusions of runs: "failed" for a
/// failure, "succeeded" for a success, and three words for themselves. No other
/// word stands for any.
pub proof fn law_status_words(word: Seq<char>)
    ensures
        word == "failed"@ ==> conclusion_of(word) == Some("failure"@),
        word == "succeeded"@ ==> conclusion_of(word) == Some("success"@),
        word == "cancelled"@ || word == "timed_out"@ || word == "skipped"@ ==> conclusion_of(word)
            == Some(word),
        word != "failed"@ && word != "succeeded"@ && word != "cancelled"@ && word != "timed_out"@
            && word != "skipped"@ ==> conclusion_of(word) is None,
{
    reveal_strlit("failed");
    reveal_strlit("succeeded");
    reveal_strlit("cancelled");
    reveal_strlit("timed_out");
    reveal_strlit("skipped");
    assert("failed"@.len() == 6 && "skipped"@.len() == 7);
    assert("succeeded"@[0] == 's' && "cancelled"@[0] == 'c' && "timed_out"@[0] == 't');
    assert("succeeded"@.len() == 9 && "cancelled"@.len() == 9 && "timed_out"@.len() == 9);
}

} // verus!
