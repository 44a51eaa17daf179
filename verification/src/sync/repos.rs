//! Fetching the open issues and pull requests of one tracked repository.
use vstd::prelude::*;

use crate::http::{asks_for, next_page_of, opt_text, pair_texts, Head, Request, RequestView, Target, TargetView};
use crate::models::GithubIssue;
use crate::sync::paging::{follow, following, Next, NextView};
use crate::text;
use crate::text::{has_substring, texts};

verus! {

broadcast use vstd::string::group_string_axioms;

/// Whether a row of the queue is an issue or a pull request.
#[derive(Debug, Clone, Copy, PartialEq, Eq, Structural)]
pub enum IssueKind {
    Issue,
    Pr,
}

/// The name of a kind in the `kind` column.
pub open spec fn kind_name(kind: IssueKind) -> Seq<char> {
    match kind {
        IssueKind::Issue => "issue"@,
        IssueKind::Pr => "pr"@,
    }
}

impl IssueKind {
    /// The name of the kind in the `kind` column.
    pub fn name(&self) -> (r: &'static str)
        ensures
            r@ == kind_name(*self),
            *self is Issue ==> r@ == "issue"@,
            *self is Pr ==> r@ == "pr"@,
    {
        match self {
            IssueKind::Issue => "issue",
            IssueKind::Pr => "pr",
        }
    }
}

/// The kind of an entry of the issues endpoint.
pub open spec fn kind_of(issue: GithubIssue) -> IssueKind {
    if issue.pull_request is Some {
        IssueKind::Pr
    } else {
        IssueKind::Issue
    }
}

/// Whether `full_name` names a repository: an owner and a name around a slash.
pub fn names_repo(full_name: &str) -> (r: bool)
    ensures
        r == has_substring(full_name@, "/"@),
{
    text::contains(full_name, "/")
}

/// Where the ETag of a repository's open issues is remembered.
pub fn etag_key(full_name: &str) -> (r: String)
    ensures
        r@ == "etag:issues:"@ + full_name@,
{
    "etag:issues:".to_owned().concat(full_name)
}

/// The web page of a repository.
pub fn html_url(full_name: &str) -> (r: String)
    ensures
        r@ == "https://github.com/"@ + full_name@,
{
    "https://github.com/".to_owned().concat(full_name)
}

/// One pass over the open issues of a repository.
pub struct RepoSync {
    full_name: String,
    etag: Option<String>,
    cached_open: Vec<String>,
    fetched: Vec<String>,
    fresh_etag: Option<String>,
    begun: bool,
    complete: bool,
}

/// The state of a pass.
pub struct RepoSyncView {
    pub full_name: Seq<char>,
    /// The ETag that the last complete pass left behind.
    pub etag: Option<Seq<char>>,
    /// The API URLs that were open at the last complete pass.
    pub cached_open: Seq<Seq<char>>,
    /// The API URLs fetched in this pass, in order.
    pub fetched: Seq<Seq<char>>,
    /// The last ETag that a page of this pass carried.
    pub fresh_etag: Option<Seq<char>>,
    /// Whether an answer has arrived.
    pub begun: bool,
    /// Whether the list has been read to its end, so that what was fetched is
    /// all that is open.
    pub complete: bool,
}

impl View for RepoSync {
    type V = RepoSyncView;

    closed spec fn view(&self) -> RepoSyncView {
        RepoSyncView {
            full_name: self.full_name@,
            etag: opt_text(self.etag),
            cached_open: texts(self.cached_open@),
            fetched: texts(self.fetched@),
            fresh_etag: opt_text(self.fresh_etag),
            begun: self.begun,
            complete: self.complete,
        }
    }
}

/// An entry to store, with its kind.
#[derive(Debug, Clone)]
pub struct StoredIssue {
    pub issue: GithubIssue,
    pub kind: IssueKind,
}

/// What to do with a page, and what follows it.
#[derive(Debug, Clone)]
pub struct RepoPage {
    pub store: Vec<StoredIssue>,
    /// When present, the cached rows whose API URL is not in the list are dropped.
    pub keep_only: Option<Vec<String>>,
    /// The ETag to remember, once the list has been read to its end.
    pub etag: Option<String>,
    pub next: Next,
}

/// A page of the issues endpoint as it arrived.
pub struct Answer {
    pub status: u16,
    pub etag: Option<Seq<char>>,
    pub link: Option<Seq<char>>,
    /// The parsed body, absent when it could not be parsed.
    pub issues: Option<Seq<GithubIssue>>,
}

/// The entries of a page with their kinds.
pub open spec fn with_kinds(issues: Seq<GithubIssue>) -> Seq<StoredIssue> {
    issues.map_values(|i: GithubIssue| StoredIssue { issue: i, kind: kind_of(i) })
}

/// The API URLs of the entries of a page.
pub open spec fn urls(issues: Seq<StoredIssue>) -> Seq<Seq<char>> {
    issues.map_values(|i: StoredIssue| i.issue.url@)
}

impl Answer {
    /// A fresh, readable page.
    pub open spec fn is_fresh(self) -> bool {
        self.status == 200 && self.issues is Some
    }

    /// What is stored of the page.
    pub open spec fn store(self) -> Seq<StoredIssue> {
        if self.is_fresh() {
            with_kinds(self.issues->0)
        } else {
            Seq::empty()
        }
    }

    /// Whether the page is the last of the list.
    pub open spec fn completes(self) -> bool {
        self.is_fresh() && next_page_of(self.link) is None
    }

    /// What follows the page. A missing or inaccessible repository ends the
    /// pass without failing it.
    pub open spec fn next(self, full_name: Seq<char>) -> NextView {
        if self.status != 200 {
            NextView::Done
        } else if self.issues is None {
            NextView::Fail("parsing issues for "@ + full_name)
        } else {
            following(self.link)
        }
    }
}

/// The first request of a pass. It is conditional only when the open set of an
/// earlier pass is at hand, so that stale rows can be dropped on a 304.
pub open spec fn issues_request(st: RepoSyncView) -> RequestView {
    RequestView {
        target: TargetView::Path("/repos/"@ + st.full_name + "/issues"@),
        query: seq![("state"@, "open"@), ("per_page"@, "100"@)],
        etag: if st.cached_open.len() > 0 {
            st.etag
        } else {
            None
        },
    }
}

/// The last ETag that a pass has seen after a page.
pub open spec fn seen_etag(st: RepoSyncView, a: Answer) -> Option<Seq<char>> {
    if a.is_fresh() && a.etag is Some {
        a.etag
    } else {
        st.fresh_etag
    }
}

/// The ETag to remember after a page: the last one of the pass, when the page
/// completes the list. A list that was not read to its end leaves none behind,
/// so that it is read anew.
pub open spec fn kept_etag(st: RepoSyncView, a: Answer) -> Option<Seq<char>> {
    if a.completes() {
        seen_etag(st, a)
    } else {
        None
    }
}

/// The state after a page. Only the last page of the list completes it: an error
/// or an unreadable body on the way leaves it incomplete.
pub open spec fn advanced(st: RepoSyncView, a: Answer) -> RepoSyncView {
    RepoSyncView {
        fetched: st.fetched + urls(a.store()),
        fresh_etag: seen_etag(st, a),
        begun: true,
        complete: a.completes(),
        ..st
    }
}

/// Whether an answer says that the list is still the one that the last complete
/// pass read. Only the first request asks for that.
pub open spec fn is_unchanged(st: RepoSyncView, status: u16) -> bool {
    status == 304 && !st.begun
}

/// A page as the decision sees it.
pub open spec fn answer(head: Head, issues: Option<Vec<GithubIssue>>) -> Answer {
    Answer {
        status: head.status@,
        etag: opt_text(head.etag),
        link: opt_text(head.link),
        issues: match issues {
            Some(v) => Some(v@),
            None => None,
        },
    }
}

/// The contents of an optional list of strings.
pub open spec fn opt_texts(o: Option<Vec<String>>) -> Option<Seq<Seq<char>>> {
    match o {
        Some(v) => Some(texts(v@)),
        None => None,
    }
}

impl RepoSync {
    /// A pass over `full_name`, unless it names no repository. `etag` and
    /// `cached_open` are what the last pass left behind.
    pub fn new(full_name: String, etag: Option<String>, cached_open: Vec<String>) -> (r: Option<
        RepoSync,
    >)
        ensures
            r is Some <==> has_substring(full_name@, "/"@),
            r matches Some(s) ==> s@ == (RepoSyncView {
                full_name: full_name@,
                etag: opt_text(etag),
                cached_open: texts(cached_open@),
                fetched: Seq::empty(),
                fresh_etag: None,
                begun: false,
                complete: false,
            }),
    {
        if !names_repo(full_name.as_str()) {
            return None;
        }
        let fetched: Vec<String> = Vec::new();
        assert(texts(fetched@) =~= Seq::empty());
        Some(
            RepoSync {
                full_name,
                etag,
                cached_open,
                fetched,
                fresh_etag: None,
                begun: false,
                complete: false,
            },
        )
    }

    /// The first request of the pass.
    pub fn first_request(&self) -> (r: Request)
        ensures
            r@ == issues_request(self@),
            r.target matches Target::Path(path) && path@ == "/repos/"@ + self@.full_name
                + "/issues"@,
            asks_for(r@.query, "state"@, "open"@),
            asks_for(r@.query, "per_page"@, "100"@),
            opt_text(r.etag) == (if self@.cached_open.len() > 0 {
                self@.etag
            } else {
                None
            }),
    {
        proof {
            law_pass_asks_for_open_entries(self@);
        }
        let mut query: Vec<(String, String)> = Vec::new();
        query.push(("state".to_owned(), "open".to_owned()));
        query.push(("per_page".to_owned(), "100".to_owned()));
        assert(pair_texts(query@) =~= seq![("state"@, "open"@), ("per_page"@, "100"@)]);
        let path = "/repos/".to_owned().concat(self.full_name.as_str()).concat("/issues");
        let etag = if self.cached_open.len() > 0 {
            self.etag.clone()
        } else {
            None
        };
        Request { target: Target::Path(path), query, etag }
    }

    /// The decision on one page. `issues` is the parsed body, absent when the
    /// body could not be parsed.
    pub fn on_page(&mut self, head: &Head, issues: Option<Vec<GithubIssue>>) -> (r: RepoPage)
        ensures
            final(self)@ == advanced(old(self)@, answer(*head, issues)),
            r.store@ == answer(*head, issues).store(),
            r.next@ == answer(*head, issues).next(old(self)@.full_name),
            opt_texts(r.keep_only) == (if is_unchanged(old(self)@, head.status@) {
                Some(old(self)@.cached_open)
            } else {
                None
            }),
            opt_text(r.etag) == kept_etag(old(self)@, answer(*head, issues)),
            head.status@ == 200 && issues is Some ==> r.store@.len() == (issues->0)@.len() && (forall|
                i: int,
            |
                0 <= i < r.store@.len() ==> (#[trigger] r.store@[i]).issue == (issues->0)@[i] && (
                r.store@[i].kind is Pr <==> (issues->0)@[i].pull_request is Some)),
            head.status@ != 200 || issues is None ==> r.store@.len() == 0,
            r.keep_only is Some <==> head.status@ == 304 && !old(self)@.begun,
            r.next is Fail <==> head.status@ == 200 && issues is None,
    {
        proof {
            law_page_is_stored_whole(answer(*head, issues));
        }
        let ghost start = self@;
        let ghost a = answer(*head, issues);
        let status = head.status.as_u16();
        let first = !self.begun;
        self.begun = true;
        self.complete = false;
        assert(urls(Seq::<StoredIssue>::empty()) =~= Seq::empty());
        assert(start.fetched + Seq::<Seq<char>>::empty() =~= start.fetched);
        if status != 200 {
            let keep_only = if first && status == 304 {
                Some(text::copy_list(&self.cached_open))
            } else {
                None
            };
            return RepoPage { store: Vec::new(), keep_only, etag: None, next: Next::Done };
        }
        let issues = match issues {
            Some(v) => v,
            None => {
                let message = "parsing issues for ".to_owned().concat(self.full_name.as_str());
                return RepoPage {
                    store: Vec::new(),
                    keep_only: None,
                    etag: None,
                    next: Next::Fail(message),
                };
            },
        };
        let ghost all = issues@;
        let mut store: Vec<StoredIssue> = Vec::new();
        assert(with_kinds(all.take(0)) =~= Seq::empty());
        for issue in it: issues.into_iter()
            invariant
                it.seq() == all,
                store@ == with_kinds(all.take(it.index() as int)),
                self@ == (RepoSyncView {
                    fetched: start.fetched + urls(store@),
                    begun: true,
                    complete: false,
                    ..start
                }),
        {
            let kind = if issue.pull_request.is_some() {
                IssueKind::Pr
            } else {
                IssueKind::Issue
            };
            let ghost before = store@;
            let ghost fetched = self.fetched@;
            let url = issue.url.clone();
            self.fetched.push(url);
            store.push(StoredIssue { issue, kind });
            assert(texts(self.fetched@) =~= texts(fetched).push(url@));
            assert(urls(store@) =~= urls(before).push(url@));
            assert(store@ =~= with_kinds(all.take(it.index() + 1)));
            assert(texts(self.fetched@) =~= start.fetched + urls(store@));
        }
        assert(all.take(all.len() as int) =~= all);
        if head.etag.is_some() {
            self.fresh_etag = head.etag.clone();
        }
        let next = follow(&head.link);
        let etag = match next {
            Next::Done => {
                self.complete = true;
                self.fresh_etag.clone()
            },
            _ => None,
        };
        RepoPage { store, keep_only: None, etag, next }
    }

    /// The end of the pass: the open set to remember, against which stale rows
    /// are dropped, when the list has been read to its end.
    pub fn finish(self) -> (r: Option<Vec<String>>)
        ensures
            opt_texts(r) == (if self@.complete {
                Some(self@.fetched)
            } else {
                None
            }),
    {
        if self.complete {
            Some(self.fetched)
        } else {
            None
        }
    }
}

// ---- laws -----------------------------------------------------------------

/// What a pass stores, page after page, until one has no successor.
pub open spec fn pass_store(full_name: Seq<char>, answers: Seq<Answer>) -> Seq<StoredIssue>
    decreases answers.len(),
{
    if answers.len() == 0 {
        Seq::empty()
    } else if answers[0].next(full_name) is Fetch {
        answers[0].store() + pass_store(full_name, answers.skip(1))
    } else {
        answers[0].store()
    }
}

/// The state that a pass ends in.
pub open spec fn pass_end(st: RepoSyncView, answers: Seq<Answer>) -> RepoSyncView
    decreases answers.len(),
{
    if answers.len() == 0 {
        st
    } else if answers[0].next(st.full_name) is Fetch {
        pass_end(advanced(st, answers[0]), answers.skip(1))
    } else {
        advanced(st, answers[0])
    }
}

/// The queue never keeps a stale row and never drops a fresh one: the open set
/// that a pass ends with holds exactly the API URLs of the entries that it
/// stored, in order.
pub proof fn law_open_set_is_what_was_stored(st: RepoSyncView, answers: Seq<Answer>)
    ensures
        pass_end(st, answers).fetched == st.fetched + urls(pass_store(st.full_name, answers)),
    decreases answers.len(),
{
    if answers.len() == 0 {
        assert(st.fetched + urls(Seq::empty()) =~= st.fetched);
    } else if answers[0].next(st.full_name) is Fetch {
        let rest = answers.skip(1);
        let mid = advanced(st, answers[0]);
        law_open_set_is_what_was_stored(mid, rest);
        let here = answers[0].store();
        let tail = pass_store(st.full_name, rest);
        assert(urls(here + tail) =~= urls(here) + urls(tail));
        assert((st.fetched + urls(here)) + urls(tail) =~= st.fetched + (urls(here) + urls(tail)));
    }
}

/// Nothing that is open leaves the queue: the URL of every entry on a page that
/// a pass reads is among those against which rows are dropped.
pub proof fn law_open_entries_stay_queued(
    st: RepoSyncView,
    answers: Seq<Answer>,
    i: int,
    issue: GithubIssue,
)
    requires
        0 <= i < answers.len(),
        forall|j: int| 0 <= j < i ==> (#[trigger] answers[j]).next(st.full_name) is Fetch,
        answers[i].is_fresh(),
        answers[i].issues->0.contains(issue),
    ensures
        pass_end(st, answers).fetched.contains(issue.url@),
{
    law_open_set_is_what_was_stored(st, answers);
    lemma_entry_is_stored(st.full_name, answers, i, issue);
    let stored = pass_store(st.full_name, answers);
    let k = choose|k: int| 0 <= k < stored.len() && stored[k].issue == issue;
    let end = pass_end(st, answers).fetched;
    assert(end[st.fetched.len() + k] == issue.url@);
}

/// Every entry on a page that a pass reads is stored.
proof fn lemma_entry_is_stored(
    full_name: Seq<char>,
    answers: Seq<Answer>,
    i: int,
    issue: GithubIssue,
)
    requires
        0 <= i < answers.len(),
        forall|j: int| 0 <= j < i ==> (#[trigger] answers[j]).next(full_name) is Fetch,
        answers[i].is_fresh(),
        answers[i].issues->0.contains(issue),
    ensures
        exists|k: int|
            0 <= k < pass_store(full_name, answers).len() && (#[trigger] pass_store(
                full_name,
                answers,
            )[k]).issue == issue,
    decreases answers.len(),
{
    let here = answers[0].store();
    let all = pass_store(full_name, answers);
    if i == 0 {
        let m = answers[0].issues->0.index_of(issue);
        assert(here[m].issue == issue);
        assert(all[m] == here[m]);
    } else {
        let rest = answers.skip(1);
        assert(answers[0].next(full_name) is Fetch);
        assert forall|j: int| 0 <= j < i - 1 implies (#[trigger] rest[j]).next(
            full_name,
        ) is Fetch by {
            assert(rest[j] == answers[j + 1]);
        }
        lemma_entry_is_stored(full_name, rest, i - 1, issue);
        let tail = pass_store(full_name, rest);
        let k = choose|k: int| 0 <= k < tail.len() && (#[trigger] tail[k]).issue == issue;
        assert(all[here.len() + k] == tail[k]);
    }
}

/// Whether the answers of a pass are a whole list: fresh pages, each but the last
/// of which has a successor.
pub open spec fn whole_list(answers: Seq<Answer>) -> bool {
    &&& answers.len() > 0
    &&& forall|i: int| 0 <= i < answers.len() ==> (#[trigger] answers[i]).is_fresh()
    &&& forall|i: int|
        0 <= i < answers.len() - 1 ==> next_page_of((#[trigger] answers[i]).link) is Some
    &&& next_page_of(answers.last().link) is None
}

/// Past its first page, a whole list is a whole list.
proof fn lemma_rest_of_whole(answers: Seq<Answer>)
    requires
        whole_list(answers),
        answers.len() > 1,
    ensures
        whole_list(answers.skip(1)),
{
    let rest = answers.skip(1);
    assert forall|i: int| 0 <= i < rest.len() implies (#[trigger] rest[i]).is_fresh() by {
        assert(rest[i] == answers[i + 1]);
    }
    assert forall|i: int| 0 <= i < rest.len() - 1 implies next_page_of(
        (#[trigger] rest[i]).link,
    ) is Some by {
        assert(rest[i] == answers[i + 1]);
    }
    assert(rest.last() == answers.last());
}

/// A pass over a whole list ends complete.
proof fn lemma_whole_list(st: RepoSyncView, answers: Seq<Answer>)
    requires
        whole_list(answers),
    ensures
        pass_end(st, answers).complete,
    decreases answers.len(),
{
    assert(answers[0].is_fresh());
    if answers.len() > 1 {
        assert(next_page_of(answers[0].link) is Some);
        lemma_rest_of_whole(answers);
        lemma_whole_list(advanced(st, answers[0]), answers.skip(1));
    }
}

/// A missing or inaccessible repository leaves the cache alone: when the first
/// answer is neither a page nor "unchanged", nothing is stored and no open set
/// is remembered.
pub proof fn law_missing_repo_is_skipped(st: RepoSyncView, answers: Seq<Answer>)
    requires
        answers.len() > 0,
        answers[0].status != 200,
    ensures
        pass_store(st.full_name, answers).len() == 0,
        !pass_end(st, answers).complete,
        pass_end(st, answers).fetched == st.fetched,
{
    assert(st.fetched + urls(Seq::empty()) =~= st.fetched);
}

/// The URLs of the cached rows of a repository after a page: those of its
/// entries are added, and an unchanged list drops what is not in the open set.
pub open spec fn rows_after_page(rows: Set<Seq<char>>, st: RepoSyncView, a: Answer) -> Set<
    Seq<char>,
> {
    let stored = rows + urls(a.store()).to_set();
    if is_unchanged(st, a.status) {
        stored.intersect(st.cached_open.to_set())
    } else {
        stored
    }
}

/// The URLs of the cached rows when the pages of a pass have been stored.
pub open spec fn rows_after_pages(rows: Set<Seq<char>>, st: RepoSyncView, answers: Seq<Answer>) -> Set<
    Seq<char>,
>
    decreases answers.len(),
{
    if answers.len() == 0 {
        rows
    } else if answers[0].next(st.full_name) is Fetch {
        rows_after_pages(
            rows_after_page(rows, st, answers[0]),
            advanced(st, answers[0]),
            answers.skip(1),
        )
    } else {
        rows_after_page(rows, st, answers[0])
    }
}

/// The URLs of the cached rows at the end of a pass: when the list has been read
/// to its end, what is not in the open set is dropped.
pub open spec fn rows_after_pass(rows: Set<Seq<char>>, st: RepoSyncView, answers: Seq<Answer>) -> Set<
    Seq<char>,
> {
    let stored = rows_after_pages(rows, st, answers);
    let end = pass_end(st, answers);
    if end.complete {
        stored.intersect(end.fetched.to_set())
    } else {
        stored
    }
}

/// Unless the list is unchanged, the pages of a pass only add rows.
proof fn lemma_pages_add(rows: Set<Seq<char>>, st: RepoSyncView, answers: Seq<Answer>)
    requires
        answers.len() > 0 ==> !is_unchanged(st, answers[0].status),
    ensures
        rows_after_pages(rows, st, answers) =~= rows + urls(
            pass_store(st.full_name, answers),
        ).to_set(),
    decreases answers.len(),
{
    if answers.len() == 0 {
        assert(urls(Seq::empty()) =~= Seq::empty());
    } else if answers[0].next(st.full_name) is Fetch {
        let rest = answers.skip(1);
        let mid = advanced(st, answers[0]);
        lemma_pages_add(rows_after_page(rows, st, answers[0]), mid, rest);
        let a = urls(answers[0].store());
        let b = urls(pass_store(st.full_name, rest));
        assert(urls(answers[0].store() + pass_store(st.full_name, rest)) =~= a + b);
        lemma_to_set_adds(a, b);
        assert((rows + a.to_set()) + b.to_set() =~= rows + (a.to_set() + b.to_set()));
    }
}

/// The members of two lists together are those of either.
proof fn lemma_to_set_adds(a: Seq<Seq<char>>, b: Seq<Seq<char>>)
    ensures
        (a + b).to_set() =~= a.to_set() + b.to_set(),
{
    let all = a + b;
    assert forall|s: Seq<char>| all.contains(s) <==> a.contains(s) || b.contains(s) by {
        if a.contains(s) {
            let i = choose|i: int| 0 <= i < a.len() && a[i] == s;
            assert(all[i] == s);
        }
        if b.contains(s) {
            let i = choose|i: int| 0 <= i < b.len() && b[i] == s;
            assert(all[a.len() + i] == s);
        }
        if all.contains(s) {
            let i = choose|i: int| 0 <= i < all.len() && all[i] == s;
            if i < a.len() {
                assert(a[i] == s);
            } else {
                assert(b[i - a.len()] == s);
            }
        }
    }
}

/// The queue mirrors GitHub: whatever rows were cached, after a pass that reads
/// a fresh list to its end they are exactly the entries of that list. What is still listed
/// stays, and what is closed is gone.
pub proof fn law_queue_mirrors_fresh_list(
    rows: Set<Seq<char>>,
    st: RepoSyncView,
    answers: Seq<Answer>,
)
    requires
        whole_list(answers),
        st.fetched.len() == 0,
    ensures
        rows_after_pass(rows, st, answers) == urls(pass_store(st.full_name, answers)).to_set(),
{
    lemma_pages_add(rows, st, answers);
    law_open_set_is_what_was_stored(st, answers);
    lemma_whole_list(st, answers);
    let listed = urls(pass_store(st.full_name, answers));
    assert(st.fetched + listed =~= listed);
    assert(rows_after_pass(rows, st, answers) =~= listed.to_set());
}

/// An unchanged list drops exactly the rows that are not in the remembered open
/// set, so stale rows go even then.
pub proof fn law_unchanged_list_drops_stale_rows(
    rows: Set<Seq<char>>,
    st: RepoSyncView,
    answers: Seq<Answer>,
)
    requires
        answers.len() > 0,
        is_unchanged(st, answers[0].status),
    ensures
        rows_after_pass(rows, st, answers) == rows.intersect(st.cached_open.to_set()),
{
    assert(urls(Seq::empty()) =~= Seq::empty());
    assert(rows + Seq::<Seq<char>>::empty().to_set() =~= rows);
    assert(rows_after_pass(rows, st, answers) =~= rows.intersect(st.cached_open.to_set()));
}

/// Nothing leaves the queue on the word of half a list: a pass that does not
/// read the list to its end, for an error or a body that cannot be read, keeps
/// every row that was cached.
pub proof fn law_incomplete_list_keeps_rows(
    rows: Set<Seq<char>>,
    st: RepoSyncView,
    answers: Seq<Answer>,
    url: Seq<char>,
)
    requires
        !pass_end(st, answers).complete,
        answers.len() > 0 ==> !is_unchanged(st, answers[0].status),
        rows.contains(url),
    ensures
        rows_after_pass(rows, st, answers).contains(url),
{
    lemma_pages_add(rows, st, answers);
}

/// The ETag that a pass leaves behind, if any.
pub open spec fn pass_etag(st: RepoSyncView, answers: Seq<Answer>) -> Option<Seq<char>>
    decreases answers.len(),
{
    if answers.len() == 0 {
        None
    } else if answers[0].next(st.full_name) is Fetch {
        pass_etag(advanced(st, answers[0]), answers.skip(1))
    } else {
        kept_etag(st, answers[0])
    }
}

/// The last ETag on the pages of a list.
pub open spec fn last_etag(answers: Seq<Answer>) -> Option<Seq<char>>
    decreases answers.len(),
{
    if answers.len() == 0 {
        None
    } else if answers.last().etag is Some {
        answers.last().etag
    } else {
        last_etag(answers.drop_last())
    }
}

/// The last ETag of a list is that of its later pages, or else the first page's.
proof fn lemma_last_etag(answers: Seq<Answer>)
    requires
        answers.len() > 0,
    ensures
        last_etag(answers) == (if last_etag(answers.skip(1)) is Some {
            last_etag(answers.skip(1))
        } else {
            answers[0].etag
        }),
    decreases answers.len(),
{
    let rest = answers.skip(1);
    if answers.len() == 1 {
        assert(last_etag(answers.drop_last()) is None);
        assert(last_etag(rest) is None);
    } else {
        assert(rest.last() == answers.last());
        if answers.last().etag is None {
            lemma_last_etag(answers.drop_last());
            assert(answers.drop_last().skip(1) =~= rest.drop_last());
        }
    }
}

/// A list that was read to its end leaves its last ETag behind, whichever page
/// carried it.
pub proof fn law_whole_list_leaves_its_last_etag(st: RepoSyncView, answers: Seq<Answer>)
    requires
        whole_list(answers),
    ensures
        pass_etag(st, answers) == (if last_etag(answers) is Some {
            last_etag(answers)
        } else {
            st.fresh_etag
        }),
    decreases answers.len(),
{
    assert(answers[0].is_fresh());
    lemma_last_etag(answers);
    let rest = answers.skip(1);
    if answers.len() > 1 {
        assert(next_page_of(answers[0].link) is Some);
        lemma_rest_of_whole(answers);
        law_whole_list_leaves_its_last_etag(advanced(st, answers[0]), rest);
    } else {
        assert(last_etag(rest) is None);
    }
}

/// A list that was not read to its end is read anew: the pass leaves no ETag
/// behind, so that no later pass takes what it stored for the whole list. A
/// page with a successor never does.
pub proof fn law_incomplete_list_leaves_no_etag(st: RepoSyncView, answers: Seq<Answer>)
    ensures
        pass_etag(st, answers) is Some ==> pass_end(st, answers).complete,
        forall|i: int, mid: RepoSyncView|
            0 <= i < answers.len() && answers[i].next(st.full_name) is Fetch
                ==> (#[trigger] kept_etag(mid, answers[i])) is None,
    decreases answers.len(),
{
    if answers.len() > 0 && answers[0].next(st.full_name) is Fetch {
        law_incomplete_list_leaves_no_etag(advanced(st, answers[0]), answers.skip(1));
    }
}

/// An error leaves the cached rows as they were.
pub proof fn law_failed_fetch_keeps_rows(
    rows: Set<Seq<char>>,
    st: RepoSyncView,
    answers: Seq<Answer>,
)
    requires
        answers.len() > 0,
        answers[0].status != 200,
        answers[0].status != 304,
    ensures
        rows_after_pass(rows, st, answers) == rows,
{
    assert(urls(Seq::empty()) =~= Seq::empty());
    assert(rows_after_pass(rows, st, answers) =~= rows);
}

/// A pass asks for the open entries of its own repository: closed ones are not
/// asked for, and the request is conditional only when the open set of an
/// earlier pass is at hand.
pub proof fn law_pass_asks_for_open_entries(st: RepoSyncView)
    ensures
        issues_request(st).target == TargetView::Path("/repos/"@ + st.full_name + "/issues"@),
        asks_for(issues_request(st).query, "state"@, "open"@),
        asks_for(issues_request(st).query, "per_page"@, "100"@),
        st.cached_open.len() > 0 ==> issues_request(st).etag == st.etag,
        st.cached_open.len() == 0 ==> issues_request(st).etag is None,
{
    reveal_strlit("state");
    reveal_strlit("per_page");
    let query = issues_request(st).query;
    assert("state"@.len() != "per_page"@.len());
    assert(query[0] == ("state"@, "open"@));
    assert(query[1] == ("per_page"@, "100"@));
}

/// A fresh page is stored whole and in order: each of its entries, as a pull
/// request exactly when GitHub says that it is one. Of any other page nothing is
/// stored.
pub proof fn law_page_is_stored_whole(a: Answer)
    ensures
        a.status == 200 && a.issues is Some ==> a.store().len() == (a.issues->0).len() && (forall|
            i: int,
        |
            0 <= i < a.store().len() ==> (#[trigger] a.store()[i]).issue == (a.issues->0)[i] && (
            a.store()[i].kind is Pr <==> (a.issues->0)[i].pull_request is Some)),
        a.status != 200 || a.issues is None ==> a.store().len() == 0,
{
}

/// How a pass goes on from a page: to the page that it links to, if it was read;
/// an unreadable one fails the pass, and any other status ends it.
pub proof fn law_pass_goes_on(a: Answer, full_name: Seq<char>)
    ensures
        a.status != 200 ==> a.next(full_name) is Done,
        a.status == 200 && a.issues is None ==> a.next(full_name) == NextView::Fail(
            "parsing issues for "@ + full_name,
        ),
        a.status == 200 && a.issues is Some ==> match next_page_of(a.link) {
            Some(url) => a.next(full_name) matches NextView::Fetch(request) && request.target
                == TargetView::Url(url) && request.query.len() == 0 && request.etag is None,
            None => a.next(full_name) is Done,
        },
{
}

/// What a pass remembers of a page: the URL of each entry after those of the
/// pages before it, whether the list has come to its end, and the last ETag. An
/// answer of 304 counts as "unchanged" only at the beginning.
pub proof fn law_pass_remembers_its_pages(st: RepoSyncView, a: Answer)
    ensures
        ({
            let after = advanced(st, a);
            &&& a.status == 200 && a.issues is Some ==> after.fetched.len() == st.fetched.len() + (
            a.issues->0).len() && (forall|i: int|
                0 <= i < (a.issues->0).len() ==> after.fetched[st.fetched.len() + i] == (
                #[trigger] (a.issues->0)[i]).url@)
            &&& forall|i: int|
                0 <= i < st.fetched.len() ==> #[trigger] after.fetched[i] == st.fetched[i]
            &&& a.status != 200 || a.issues is None ==> after.fetched == st.fetched
            &&& after.complete <==> a.status == 200 && a.issues is Some && next_page_of(
                a.link,
            ) is None
            &&& a.status == 200 && a.issues is Some && a.etag is Some ==> after.fresh_etag == a.etag
            &&& a.etag is None || a.status != 200 ==> after.fresh_etag == st.fresh_etag
            &&& after.begun && after.full_name == st.full_name && after.cached_open
                == st.cached_open
            &&& is_unchanged(st, a.status) <==> a.status == 304 && !st.begun
            &&& kept_etag(st, a) == (if after.complete {
                after.fresh_etag
            } else {
                None
            })
        }),
{
    let after = advanced(st, a);
    assert(urls(Seq::<StoredIssue>::empty()) =~= Seq::empty());
    if a.status != 200 || a.issues is None {
        assert(after.fetched =~= st.fetched);
    } else {
        assert forall|i: int| 0 <= i < (a.issues->0).len() implies after.fetched[st.fetched.len()
            + i] == (#[trigger] (a.issues->0)[i]).url@ by {
            assert(urls(a.store())[i] == a.store()[i].issue.url@);
        }
    }
}

} // verus!
