//! Dismissing the notification threads of closed pull requests.
use vstd::prelude::*;

use crate::http::{is_marked_read, opt_text, Head, StatusCode};
use crate::models::{GithubPullRequest, NotificationThread};
use crate::sync::notifications;
use crate::text;
use crate::text::{after_last, texts};

verus! {

broadcast use vstd::string::group_string_axioms;

/// A cached pull-request thread.
#[derive(Debug, Clone)]
pub struct PrThread {
    pub thread_id: String,
    /// The API URL of the thread itself.
    pub api_url: String,
    pub subject_api_url: String,
    pub subject_state: Option<String>,
    pub unread: bool,
}

/// A cached pull-request thread.
pub struct PrThreadView {
    pub thread_id: Seq<char>,
    pub api_url: Seq<char>,
    pub subject: Seq<char>,
    pub state: Option<Seq<char>>,
    pub unread: bool,
}

impl View for PrThread {
    type V = PrThreadView;

    open spec fn view(&self) -> PrThreadView {
        PrThreadView {
            thread_id: self.thread_id@,
            api_url: self.api_url@,
            subject: self.subject_api_url@,
            state: opt_text(self.subject_state),
            unread: self.unread,
        }
    }
}

impl PrThread {
    /// The thread for the columns of a row.
    pub fn from_row(
        thread_id: String,
        api_url: String,
        subject_api_url: String,
        subject_state: Option<String>,
        unread: i64,
    ) -> (r: PrThread)
        ensures
            r == (PrThread {
                thread_id,
                api_url,
                subject_api_url,
                subject_state,
                unread: unread != 0,
            }),
    {
        PrThread { thread_id, api_url, subject_api_url, subject_state, unread: unread != 0 }
    }
}

/// What the pass waits for.
#[derive(Debug, Clone, Copy, PartialEq, Eq, Structural)]
pub enum Waiting {
    Nothing,
    /// The pull request of the current thread.
    Subject,
    /// The answer to marking the current thread read.
    Mark,
}

/// What is to be done next.
#[derive(Debug, Clone)]
pub enum Step {
    /// Fetch a pull request, conditional on the ETag remembered under the key.
    FetchSubject(String, String),
    /// Mark a thread read, by a `PATCH` of the path.
    MarkRead(String),
    Done,
}

/// What is to be done next.
pub enum StepView {
    FetchSubject(Seq<char>, Seq<char>),
    MarkRead(Seq<char>),
    Done,
}

impl View for Step {
    type V = StepView;

    open spec fn view(&self) -> StepView {
        match self {
            Step::FetchSubject(url, key) => StepView::FetchSubject(url@, key@),
            Step::MarkRead(path) => StepView::MarkRead(path@),
            Step::Done => StepView::Done,
        }
    }
}

/// The state of a pass over pull-request threads.
pub struct PassView {
    pub threads: Seq<PrThreadView>,
    /// The current thread.
    pub at: int,
    pub waiting: Waiting,
    /// The subjects that are known to be closed.
    pub closed: Seq<Seq<char>>,
    /// The subjects that are known not to be closed.
    pub open: Seq<Seq<char>>,
    /// The dismissed threads.
    pub ids: Seq<Seq<char>>,
    /// The subjects of the dismissed threads.
    pub subjects: Seq<Seq<char>>,
}

/// Whether the cache already says that a pull request is closed.
pub open spec fn cached_closed(state: Option<Seq<char>>) -> bool {
    state == Some("merged"@) || state == Some("closed"@)
}

/// Where the ETag of a pull request is remembered.
pub open spec fn etag_key(subject: Seq<char>) -> Seq<char> {
    "etag:pr:"@ + subject
}

/// The path by which a thread is marked read.
pub open spec fn mark_path(api_url: Seq<char>) -> Seq<char> {
    "/notifications/threads/"@ + after_last(api_url, '/')
}

/// The ETag to remember of a pull request that has arrived. It is remembered
/// only of one that was read and is not closed: an unchanged pull request is
/// then one that is not closed, and a closed one is read anew in every pass
/// until its threads are dismissed.
pub open spec fn subject_etag(
    status: u16,
    etag: Option<Seq<char>>,
    state: Option<Seq<char>>,
) -> Option<Seq<char>> {
    if status == 200 && state is Some && state != Some("closed"@) {
        etag
    } else {
        None
    }
}

impl PassView {
    /// A pass that has not begun.
    pub open spec fn start(threads: Seq<PrThreadView>) -> PassView {
        PassView {
            threads,
            at: 0,
            waiting: Waiting::Nothing,
            closed: Seq::empty(),
            open: Seq::empty(),
            ids: Seq::empty(),
            subjects: Seq::empty(),
        }
    }

    /// Whether there is a current thread.
    pub open spec fn in_range(self) -> bool {
        0 <= self.at < self.threads.len()
    }

    /// The current thread.
    pub open spec fn current(self) -> PrThreadView {
        self.threads[self.at]
    }

    /// Whether the pass knows a subject's state.
    pub open spec fn knows(self, subject: Seq<char>) -> bool {
        self.closed.contains(subject) || self.open.contains(subject)
    }

    /// The pass with the next thread as the current one.
    pub open spec fn skipped(self) -> PassView {
        PassView { at: self.at + 1, waiting: Waiting::Nothing, ..self }
    }

    /// The pass with the current thread dismissed.
    pub open spec fn dismissed(self) -> PassView {
        PassView {
            ids: self.ids.push(self.current().thread_id),
            subjects: self.subjects.push(self.current().subject),
            ..self.skipped()
        }
    }

    /// The pass with the cached state of the current subject noted.
    pub open spec fn noted(self) -> PassView {
        let t = self.current();
        if !self.knows(t.subject) && cached_closed(t.state) {
            PassView { closed: self.closed.push(t.subject), ..self }
        } else {
            self
        }
    }

    /// The pass when the next request is due, and that request. Threads whose
    /// subject is not closed are passed over, and read threads of closed
    /// subjects are dismissed without a request.
    pub open spec fn advance(self) -> (PassView, StepView)
        decreases self.threads.len() - self.at,
    {
        if !self.in_range() {
            (PassView { waiting: Waiting::Nothing, ..self }, StepView::Done)
        } else {
            let st = self.noted();
            let t = self.current();
            if !st.knows(t.subject) {
                (
                    PassView { waiting: Waiting::Subject, ..st },
                    StepView::FetchSubject(t.subject, etag_key(t.subject)),
                )
            } else if !st.closed.contains(t.subject) {
                st.skipped().advance()
            } else if t.unread {
                (
                    PassView { waiting: Waiting::Mark, ..st },
                    StepView::MarkRead(mark_path(t.api_url)),
                )
            } else {
                st.dismissed().advance()
            }
        }
    }

    /// The pass after the current subject has arrived. A subject that could not
    /// be read or is gone counts as not closed, and so does one that has not
    /// changed since its ETag was remembered.
    pub open spec fn subject_read(self, status: u16, state: Option<Seq<char>>) -> PassView {
        if self.waiting != Waiting::Subject || !self.in_range() {
            self
        } else if status == 200 && state == Some("closed"@) {
            PassView {
                closed: self.closed.push(self.current().subject),
                waiting: Waiting::Nothing,
                ..self
            }
        } else {
            PassView {
                open: self.open.push(self.current().subject),
                waiting: Waiting::Nothing,
                ..self
            }
        }
    }

    /// The pass after the answer to marking the current thread read. A thread
    /// that could not be marked is kept.
    pub open spec fn marked(self, status: u16) -> PassView {
        if self.waiting != Waiting::Mark || !self.in_range() {
            self
        } else if is_marked_read(status) {
            self.dismissed()
        } else {
            self.skipped()
        }
    }
}

/// One pass over pull-request threads.
pub struct DismissPass {
    threads: Vec<PrThread>,
    at: usize,
    waiting: Waiting,
    closed: Vec<String>,
    open: Vec<String>,
    ids: Vec<String>,
    subjects: Vec<String>,
}

/// The contents of a list of threads.
pub open spec fn thread_views(threads: Seq<PrThread>) -> Seq<PrThreadView> {
    threads.map_values(|t: PrThread| t@)
}

impl View for DismissPass {
    type V = PassView;

    closed spec fn view(&self) -> PassView {
        PassView {
            threads: thread_views(self.threads@),
            at: self.at as int,
            waiting: self.waiting,
            closed: texts(self.closed@),
            open: texts(self.open@),
            ids: texts(self.ids@),
            subjects: texts(self.subjects@),
        }
    }
}

/// What a pass dismissed: the threads to drop from the cache, and the subjects
/// to remember so that they are not added again.
#[derive(Debug, Clone)]
pub struct Dismissal {
    pub count: usize,
    pub ids: Vec<String>,
    pub subjects: Vec<String>,
}

/// The state of a parsed pull request.
pub open spec fn pr_state(pr: Option<GithubPullRequest>) -> Option<Seq<char>> {
    match pr {
        Some(p) => Some(p.state@),
        None => None,
    }
}

/// Appends to a list of strings.
fn push_text(list: &mut Vec<String>, s: &String)
    ensures
        texts(final(list)@) == texts(old(list)@).push(s@),
{
    let ghost before = list@;
    list.push(s.clone());
    assert(texts(list@) =~= texts(before).push(s@));
}

impl DismissPass {
    /// A pass over `threads`.
    pub fn new(threads: Vec<PrThread>) -> (r: DismissPass)
        ensures
            r@ == PassView::start(thread_views(threads@)),
    {
        let r = DismissPass {
            threads,
            at: 0,
            waiting: Waiting::Nothing,
            closed: Vec::new(),
            open: Vec::new(),
            ids: Vec::new(),
            subjects: Vec::new(),
        };
        assert(texts(r.closed@) =~= Seq::empty());
        assert(texts(r.open@) =~= Seq::empty());
        assert(texts(r.ids@) =~= Seq::empty());
        assert(texts(r.subjects@) =~= Seq::empty());
        r
    }

    /// Makes the next thread the current one.
    fn skip(&mut self)
        requires
            old(self)@.in_range(),
        ensures
            final(self)@ == old(self)@.skipped(),
    {
        assert(self.at < self.threads.len());
        self.at = self.at + 1;
        self.waiting = Waiting::Nothing;
    }

    /// Dismisses the current thread.
    fn dismiss(&mut self)
        requires
            old(self)@.in_range(),
        ensures
            final(self)@ == old(self)@.dismissed(),
    {
        let ghost t = self@.current();
        assert(t == self.threads@[self.at as int]@);
        push_text(&mut self.ids, &self.threads[self.at].thread_id);
        push_text(&mut self.subjects, &self.threads[self.at].subject_api_url);
        self.skip();
    }

    /// Goes on until a request is due, and gives that request.
    pub fn next(&mut self) -> (r: Step)
        ensures
            final(self)@ == old(self)@.advance().0,
            r@ == old(self)@.advance().1,
    {
        let ghost start = self@;
        while self.at < self.threads.len()
            invariant
                start == old(self)@,
                self@.advance() == start.advance(),
                self@.at >= 0,
            decreases self@.threads.len() - self@.at,
        {
            let ghost here = self@;
            let thread = &self.threads[self.at];
            assert(here.current() == thread@);
            let subject = thread.subject_api_url.as_str();
            let mut closed = text::holds(&self.closed, subject);
            if !closed && !text::holds(&self.open, subject) {
                let known = match &thread.subject_state {
                    Some(s) => text::str_eq(s.as_str(), "merged") || text::str_eq(
                        s.as_str(),
                        "closed",
                    ),
                    None => false,
                };
                assert(known == cached_closed(here.current().state));
                if !known {
                    assert(here.noted() == here);
                    let url = thread.subject_api_url.clone();
                    let key = "etag:pr:".to_owned().concat(subject);
                    self.waiting = Waiting::Subject;
                    return Step::FetchSubject(url, key);
                }
                push_text(&mut self.closed, &self.threads[self.at].subject_api_url);
                assert(self@.closed.last() == here.current().subject);
                closed = true;
            }
            assert(self@ == here.noted());
            assert(closed == self@.closed.contains(here.current().subject));
            assert(self@.current() == here.current());
            assert(self@.current() == self.threads@[self.at as int]@);
            if !closed {
                self.skip();
            } else if self.threads[self.at].unread {
                let thread = &self.threads[self.at];
                let path = "/notifications/threads/".to_owned().concat(
                    text::last_segment(thread.api_url.as_str(), '/'),
                );
                self.waiting = Waiting::Mark;
                return Step::MarkRead(path);
            } else {
                self.dismiss();
            }
        }
        self.waiting = Waiting::Nothing;
        Step::Done
    }

    /// Takes the pull request that was asked for. `pr` is the parsed body,
    /// absent when the body could not be parsed. The result is the ETag to
    /// remember.
    pub fn on_subject(&mut self, head: &Head, pr: Option<GithubPullRequest>) -> (r: Option<String>)
        ensures
            final(self)@ == old(self)@.subject_read(head.status@, pr_state(pr)),
            opt_text(r) == subject_etag(head.status@, opt_text(head.etag), pr_state(pr)),
    {
        let ok = head.status.as_u16() == 200;
        let closed = match &pr {
            Some(p) => ok && text::str_eq(p.state.as_str(), "closed"),
            None => false,
        };
        let etag = if ok && pr.is_some() && !closed {
            head.etag.clone()
        } else {
            None
        };
        let waits = match self.waiting {
            Waiting::Subject => true,
            _ => false,
        };
        if !waits || self.at >= self.threads.len() {
            return etag;
        }
        let ghost here = self@;
        assert(here.current() == self.threads@[self.at as int]@);
        if closed {
            push_text(&mut self.closed, &self.threads[self.at].subject_api_url);
        } else {
            push_text(&mut self.open, &self.threads[self.at].subject_api_url);
        }
        self.waiting = Waiting::Nothing;
        etag
    }

    /// Takes the answer to marking the current thread read.
    pub fn on_marked(&mut self, status: StatusCode)
        ensures
            final(self)@ == old(self)@.marked(status@),
    {
        let waits = match self.waiting {
            Waiting::Mark => true,
            _ => false,
        };
        if !waits || self.at >= self.threads.len() {
            return ;
        }
        if status.marked_read() {
            self.dismiss();
        } else {
            self.skip();
        }
    }

    /// What the pass dismissed.
    pub fn finish(self) -> (r: Dismissal)
        ensures
            texts(r.ids@) == self@.ids,
            texts(r.subjects@) == self@.subjects,
            r.count == self@.ids.len(),
    {
        Dismissal { count: self.ids.len(), ids: self.ids, subjects: self.subjects }
    }
}

// ---- laws -----------------------------------------------------------------

/// Whether one of the first `n` threads has the given id and subject.
pub open spec fn is_among(
    threads: Seq<PrThreadView>,
    n: int,
    id: Seq<char>,
    subject: Seq<char>,
) -> bool {
    exists|j: int|
        0 <= j < n && (#[trigger] threads[j]).thread_id == id && threads[j].subject == subject
}

impl PassView {
    /// What holds at every point of a pass: each dismissed thread is one that
    /// the pass has gone over, its subject is closed and is listed beside it,
    /// no subject is both closed and open, a thread is only ever marked read
    /// for a closed subject, and no read thread of a closed subject has been
    /// kept.
    pub open spec fn sound(self) -> bool {
        &&& 0 <= self.at <= self.threads.len()
        &&& self.ids.len() == self.subjects.len()
        &&& forall|k: int|
            0 <= k < self.ids.len() ==> self.closed.contains(#[trigger] self.subjects[k])
        &&& forall|k: int|
            0 <= k < self.ids.len() ==> is_among(
                self.threads,
                self.at,
                #[trigger] self.ids[k],
                self.subjects[k],
            )
        &&& forall|s: Seq<char>| !(#[trigger] self.closed.contains(s) && self.open.contains(s))
        &&& forall|j: int|
            0 <= j < self.at ==> self.knows((#[trigger] self.threads[j]).subject)
        &&& forall|j: int|
            0 <= j < self.at && !self.threads[j].unread && self.closed.contains(
                (#[trigger] self.threads[j]).subject,
            ) ==> self.ids.contains(self.threads[j].thread_id)
        &&& self.waiting == Waiting::Subject ==> self.in_range() && !self.knows(
            self.current().subject,
        )
        &&& self.waiting == Waiting::Mark ==> self.in_range() && self.current().unread
            && self.closed.contains(self.current().subject)
    }
}

impl PassView {
    /// Whether every thread of a closed subject that the pass has gone over is
    /// dismissed, but for unread threads that GitHub refused to mark read.
    /// `accepted` holds the paths of those that it did mark.
    pub open spec fn thorough(self, accepted: Set<Seq<char>>) -> bool {
        forall|j: int|
            0 <= j < self.at && self.closed.contains((#[trigger] self.threads[j]).subject) && (
            self.threads[j].unread ==> accepted.contains(mark_path(self.threads[j].api_url)))
                ==> self.ids.contains(self.threads[j].thread_id)
    }
}

/// A subject that is newly known to be closed or open, and is not the subject
/// of a thread that was gone over, keeps a pass sound.
proof fn lemma_learned(st: PassView, subject: Seq<char>, is_closed: bool)
    requires
        st.sound(),
        !st.knows(subject),
    ensures
        (PassView {
            closed: if is_closed {
                st.closed.push(subject)
            } else {
                st.closed
            },
            open: if is_closed {
                st.open
            } else {
                st.open.push(subject)
            },
            waiting: Waiting::Nothing,
            ..st
        }).sound(),
{
    let closed = if is_closed {
        st.closed.push(subject)
    } else {
        st.closed
    };
    let open = if is_closed {
        st.open
    } else {
        st.open.push(subject)
    };
    let after = PassView { closed, open, waiting: Waiting::Nothing, ..st };
    assert forall|s: Seq<char>| closed.contains(s) == (st.closed.contains(s) || (is_closed && s
        == subject)) by {
        if st.closed.contains(s) {
            let i = choose|i: int| 0 <= i < st.closed.len() && st.closed[i] == s;
            assert(closed[i] == s);
        }
        if is_closed {
            assert(closed.last() == subject);
        }
    }
    assert forall|s: Seq<char>| open.contains(s) == (st.open.contains(s) || (!is_closed && s
        == subject)) by {
        if st.open.contains(s) {
            let i = choose|i: int| 0 <= i < st.open.len() && st.open[i] == s;
            assert(open[i] == s);
        }
        if !is_closed {
            assert(open.last() == subject);
        }
    }
    assert forall|k: int| 0 <= k < after.ids.len() implies after.closed.contains(
        #[trigger] after.subjects[k],
    ) by {
        assert(st.closed.contains(st.subjects[k]));
    }
    assert forall|j: int| 0 <= j < after.at implies after.knows(
        (#[trigger] after.threads[j]).subject,
    ) by {
        assert(st.knows(st.threads[j].subject));
    }
    assert forall|j: int|
        0 <= j < after.at && !after.threads[j].unread && after.closed.contains(
            (#[trigger] after.threads[j]).subject,
        ) implies after.ids.contains(after.threads[j].thread_id) by {
        assert(st.knows(st.threads[j].subject));
    }
}

/// Passing over a thread that is open, or that could not be marked read, keeps
/// a pass sound.
proof fn lemma_skipped(st: PassView)
    requires
        st.sound(),
        st.in_range(),
        st.knows(st.current().subject),
        st.closed.contains(st.current().subject) ==> st.current().unread,
    ensures
        st.skipped().sound(),
{
    let after = st.skipped();
    assert forall|k: int| 0 <= k < after.ids.len() implies is_among(
        after.threads,
        after.at,
        #[trigger] after.ids[k],
        after.subjects[k],
    ) by {
        assert(is_among(st.threads, st.at, st.ids[k], st.subjects[k]));
    }
}

/// Dismissing a thread of a closed subject keeps a pass sound.
proof fn lemma_dismissed(st: PassView)
    requires
        st.sound(),
        st.in_range(),
        st.closed.contains(st.current().subject),
    ensures
        st.dismissed().sound(),
{
    let after = st.dismissed();
    assert forall|k: int| 0 <= k < after.ids.len() implies after.closed.contains(
        #[trigger] after.subjects[k],
    ) by {
        if k < st.ids.len() {
            assert(after.subjects[k] == st.subjects[k]);
        }
    }
    assert forall|k: int| 0 <= k < after.ids.len() implies is_among(
        after.threads,
        after.at,
        #[trigger] after.ids[k],
        after.subjects[k],
    ) by {
        if k < st.ids.len() {
            assert(is_among(st.threads, st.at, st.ids[k], st.subjects[k]));
        } else {
            assert(after.threads[st.at].thread_id == after.ids[k]);
        }
    }
    assert forall|j: int|
        0 <= j < after.at && !after.threads[j].unread && after.closed.contains(
            (#[trigger] after.threads[j]).subject,
        ) implies after.ids.contains(after.threads[j].thread_id) by {
        if j < st.at {
            let id = st.threads[j].thread_id;
            assert(st.ids.contains(id));
            let i = choose|i: int| 0 <= i < st.ids.len() && st.ids[i] == id;
            assert(after.ids[i] == id);
        } else {
            assert(after.ids.last() == after.threads[j].thread_id);
        }
    }
}

/// A pass begins sound.
pub proof fn law_pass_begins_sound(threads: Seq<PrThreadView>)
    ensures
        PassView::start(threads).sound(),
{
}

/// Going on to the next request keeps a pass sound.
pub proof fn law_advance_keeps_sound(st: PassView)
    requires
        st.sound(),
    ensures
        st.advance().0.sound(),
        st.advance().1 is Done ==> st.advance().0.at == st.threads.len(),
        st.advance().0.threads == st.threads,
    decreases st.threads.len() - st.at,
{
    if st.in_range() {
        let t = st.current();
        if !st.knows(t.subject) && cached_closed(t.state) {
            lemma_learned(st, t.subject, true);
        }
        let here = st.noted();
        let calm = PassView { waiting: Waiting::Nothing, ..here };
        assert(calm.sound());
        if !here.knows(t.subject) {
        } else if !here.closed.contains(t.subject) {
            lemma_skipped(calm);
            assert(calm.skipped() == here.skipped());
            law_advance_keeps_sound(here.skipped());
        } else if t.unread {
            assert((PassView { waiting: Waiting::Mark, ..calm }).sound());
        } else {
            lemma_dismissed(calm);
            assert(calm.dismissed() == here.dismissed());
            law_advance_keeps_sound(here.dismissed());
        }
    }
}

/// Whatever answers arrive, they keep a pass sound.
pub proof fn law_answers_keep_sound(st: PassView, status: u16, state: Option<Seq<char>>)
    requires
        st.sound(),
    ensures
        st.subject_read(status, state).sound(),
        st.marked(status).sound(),
{
    if st.waiting == Waiting::Subject {
        lemma_learned(st, st.current().subject, status == 200 && state == Some("closed"@));
    }
    if st.waiting == Waiting::Mark {
        if is_marked_read(status) {
            lemma_dismissed(st);
        } else {
            lemma_skipped(st);
        }
    }
}

/// A newly known subject keeps a pass thorough.
proof fn lemma_learned_thorough(st: PassView, after: PassView, accepted: Set<Seq<char>>)
    requires
        st.sound(),
        st.thorough(accepted),
        st.in_range(),
        !st.knows(st.current().subject),
        after.threads == st.threads,
        after.at == st.at,
        after.ids == st.ids,
        after.closed == st.closed || after.closed == st.closed.push(st.current().subject),
    ensures
        after.thorough(accepted),
{
    assert forall|j: int|
        0 <= j < after.at && after.closed.contains((#[trigger] after.threads[j]).subject) && (
        after.threads[j].unread ==> accepted.contains(
            mark_path(after.threads[j].api_url),
        )) implies after.ids.contains(after.threads[j].thread_id) by {
        let subject = st.threads[j].subject;
        assert(st.knows(subject));
        assert(st.closed.contains(subject)) by {
            let i = choose|i: int| 0 <= i < after.closed.len() && after.closed[i] == subject;
            assert(after.closed[i] == subject);
            if i < st.closed.len() {
                assert(st.closed[i] == subject);
            }
        }
    }
}

/// Dismissing the current thread keeps a pass thorough.
proof fn lemma_dismissed_thorough(st: PassView, accepted: Set<Seq<char>>)
    requires
        st.thorough(accepted),
        st.in_range(),
    ensures
        st.dismissed().thorough(accepted),
{
    let after = st.dismissed();
    assert forall|j: int|
        0 <= j < after.at && after.closed.contains((#[trigger] after.threads[j]).subject) && (
        after.threads[j].unread ==> accepted.contains(
            mark_path(after.threads[j].api_url),
        )) implies after.ids.contains(after.threads[j].thread_id) by {
        if j < st.at {
            lemma_push_keeps(st.ids, st.current().thread_id, st.threads[j].thread_id);
        } else {
            assert(after.ids.last() == after.threads[j].thread_id);
        }
    }
}

/// A pass begins thorough, and going on to the next request keeps it so.
pub proof fn law_advance_keeps_thorough(st: PassView, accepted: Set<Seq<char>>)
    requires
        st.sound(),
        st.thorough(accepted),
    ensures
        PassView::start(st.threads).thorough(accepted),
        st.advance().0.thorough(accepted),
    decreases st.threads.len() - st.at,
{
    if st.in_range() {
        let t = st.current();
        let here = st.noted();
        let calm = PassView { waiting: Waiting::Nothing, ..here };
        if !st.knows(t.subject) {
            lemma_learned_thorough(st, here, accepted);
            if cached_closed(t.state) {
                lemma_learned(st, t.subject, true);
            }
        }
        assert(calm.sound());
        assert(calm.thorough(accepted));
        if !here.knows(t.subject) {
        } else if !here.closed.contains(t.subject) {
            lemma_skipped(calm);
            assert(calm.skipped() == here.skipped());
            law_advance_keeps_thorough(here.skipped(), accepted);
        } else if !t.unread {
            lemma_dismissed(calm);
            lemma_dismissed_thorough(calm, accepted);
            assert(calm.dismissed() == here.dismissed());
            law_advance_keeps_thorough(here.dismissed(), accepted);
        }
    }
}

/// Every thread whose pull request is closed is removed: answers keep a pass
/// thorough, so that an unread thread of a closed subject is dismissed when
/// GitHub marks it read, and kept only when it refuses.
pub proof fn law_answers_keep_thorough(
    st: PassView,
    accepted: Set<Seq<char>>,
    status: u16,
    state: Option<Seq<char>>,
)
    requires
        st.sound(),
        st.thorough(accepted),
        st.waiting == Waiting::Mark ==> is_marked_read(status) == accepted.contains(
            mark_path(st.current().api_url),
        ),
    ensures
        st.subject_read(status, state).thorough(accepted),
        st.marked(status).thorough(accepted),
        st.waiting == Waiting::Mark && is_marked_read(status) ==> st.marked(status).ids.contains(
            st.current().thread_id,
        ),
{
    if st.waiting == Waiting::Subject {
        lemma_learned_thorough(st, st.subject_read(status, state), accepted);
    }
    if st.waiting == Waiting::Mark {
        lemma_dismissed_thorough(st, accepted);
        assert(st.dismissed().ids.last() == st.current().thread_id);
    }
}

/// When a pass is done, each of its threads whose subject it found closed is
/// dismissed, but for unread ones that GitHub refused to mark read.
pub proof fn law_closed_threads_are_dismissed(st: PassView, accepted: Set<Seq<char>>, j: int)
    requires
        st.sound(),
        st.thorough(accepted),
        st.advance().1 is Done,
        0 <= j < st.threads.len(),
        st.advance().0.closed.contains(st.threads[j].subject),
        st.threads[j].unread ==> accepted.contains(mark_path(st.threads[j].api_url)),
    ensures
        st.advance().0.ids.contains(st.threads[j].thread_id),
{
    law_advance_keeps_sound(st);
    law_advance_keeps_thorough(st, accepted);
    assert(st.advance().0.threads[j] == st.threads[j]);
}

/// An unchanged pull request is read as it was before: whatever answer left the
/// ETag behind, the answer that nothing has changed tells the pass the same. No
/// closed pull request leaves one behind.
pub proof fn law_unchanged_subject_reads_the_same(
    st: PassView,
    status: u16,
    etag: Option<Seq<char>>,
    state: Option<Seq<char>>,
)
    ensures
        subject_etag(status, etag, state) is Some ==> st.subject_read(304, None)
            == st.subject_read(status, state),
        state == Some("closed"@) ==> subject_etag(status, etag, state) is None,
{
}

/// A pull request is fetched at most once in a pass: one whose state is known
/// is not asked for again, and what is known stays known.
pub proof fn law_subject_is_fetched_once(st: PassView, subject: Seq<char>)
    requires
        st.knows(subject),
    ensures
        st.advance().0.knows(subject),
        st.advance().1 matches StepView::FetchSubject(url, _) ==> url != subject,
        forall|status: u16, state: Option<Seq<char>>|
            (#[trigger] st.subject_read(status, state)).knows(subject),
        forall|status: u16| (#[trigger] st.marked(status)).knows(subject),
    decreases st.threads.len() - st.at,
{
    let here = st.noted();
    if st.in_range() {
        let t = st.current();
        assert(here.knows(subject)) by {
            lemma_push_keeps(st.closed, t.subject, subject);
        }
        if here.knows(t.subject) {
            if !here.closed.contains(t.subject) {
                law_subject_is_fetched_once(here.skipped(), subject);
            } else if !t.unread {
                law_subject_is_fetched_once(here.dismissed(), subject);
            }
        }
        lemma_push_keeps(st.open, t.subject, subject);
        lemma_push_keeps(st.closed, t.subject, subject);
    }
}

/// Appending to a list keeps what it holds.
proof fn lemma_push_keeps(list: Seq<Seq<char>>, added: Seq<char>, kept: Seq<char>)
    ensures
        list.contains(kept) ==> list.push(added).contains(kept),
{
    if list.contains(kept) {
        let i = choose|i: int| 0 <= i < list.len() && list[i] == kept;
        assert(list.push(added)[i] == kept);
    }
}

/// A dismissed thread does not come back: once the subjects of a pass are
/// remembered, no page of the inbox stores a thread about one of them.
pub proof fn law_dismissed_is_not_added_again(
    st: PassView,
    k: int,
    page: notifications::Answer,
    thread: NotificationThread,
)
    requires
        0 <= k < st.subjects.len(),
        forall|i: int|
            0 <= i < st.subjects.len() ==> page.dismissed.contains(#[trigger] st.subjects[i]),
        opt_text(thread.subject.url) == Some(st.subjects[k]),
    ensures
        !page.store().contains(thread),
{
    if page.is_fresh() {
        let pred = |t: NotificationThread| !notifications::is_dismissed(t, page.dismissed);
        let all = page.threads->0;
        if page.store().contains(thread) {
            let i = choose|i: int| 0 <= i < page.store().len() && page.store()[i] == thread;
            all.lemma_filter_pred(pred, i);
            assert(page.dismissed.contains(st.subjects[k]));
        }
    }
}

/// What happens in a pass: it goes on, the pull request that it asked for
/// arrives, or the answer to marking a thread read does.
pub enum Event {
    Next,
    /// The status, and the state of the pull request where it could be read.
    Subject(u16, Option<Seq<char>>),
    Marked(u16),
}

impl PassView {
    /// The pass after an event.
    pub open spec fn step(self, event: Event) -> PassView {
        match event {
            Event::Next => self.advance().0,
            Event::Subject(status, state) => self.subject_read(status, state),
            Event::Marked(status) => self.marked(status),
        }
    }
}

/// The pass over `threads` after some events.
pub open spec fn ran(threads: Seq<PrThreadView>, events: Seq<Event>) -> PassView
    decreases events.len(),
{
    if events.len() == 0 {
        PassView::start(threads)
    } else {
        ran(threads, events.drop_last()).step(events.last())
    }
}

/// Whether a pull request was fetched in a pass and found closed.
pub open spec fn was_found_closed(
    threads: Seq<PrThreadView>,
    events: Seq<Event>,
    subject: Seq<char>,
) -> bool {
    exists|n: int|
        #![trigger events[n]]
        0 <= n < events.len() && events[n] == Event::Subject(200, Some("closed"@)) && ran(
            threads,
            events.take(n),
        ).waiting == Waiting::Subject && 0 <= ran(threads, events.take(n)).at < threads.len()
            && threads[ran(threads, events.take(n)).at].subject == subject
}

/// Whether GitHub marked a thread read in a pass.
pub open spec fn was_marked_read(threads: Seq<PrThreadView>, events: Seq<Event>, j: int) -> bool {
    exists|n: int|
        #![trigger events[n]]
        0 <= n < events.len() && (events[n] == Event::Marked(200) || events[n] == Event::Marked(204)
            || events[n] == Event::Marked(205)) && ran(threads, events.take(n)).waiting
            == Waiting::Mark && ran(threads, events.take(n)).at == j
}

/// What going on can add: only subjects with a cached state of "merged" or
/// "closed", and only read threads of closed subjects.
proof fn lemma_advance_adds(st: PassView)
    requires
        0 <= st.at,
        st.ids.len() == st.subjects.len(),
    ensures
        ({
            let end = st.advance().0;
            &&& end.threads == st.threads
            &&& end.at >= st.at
            &&& end.ids.len() == end.subjects.len()
            &&& forall|s: Seq<char>| #[trigger]
                end.closed.contains(s) ==> st.closed.contains(s) || exists|j: int|
                    0 <= j < st.threads.len() && (#[trigger] st.threads[j]).subject == s && (
                    st.threads[j].state == Some("merged"@) || st.threads[j].state == Some(
                        "closed"@,
                    ))
            &&& forall|k: int|
                0 <= k < st.ids.len() ==> #[trigger] end.ids[k] == st.ids[k] && end.subjects[k]
                    == st.subjects[k]
            &&& end.ids.len() >= st.ids.len()
            &&& forall|k: int|
                st.ids.len() <= k < end.ids.len() ==> exists|j: int|
                    0 <= j < st.threads.len() && (#[trigger] st.threads[j]).thread_id
                        == #[trigger] end.ids[k] && st.threads[j].subject == end.subjects[k]
                        && !st.threads[j].unread && end.closed.contains(end.subjects[k])
            &&& forall|s: Seq<char>| st.closed.contains(s) ==> #[trigger] end.closed.contains(s)
        }),
    decreases st.threads.len() - st.at,
{
    if st.in_range() {
        let t = st.current();
        let here = st.noted();
        let end = st.advance().0;
        assert forall|s: Seq<char>| #[trigger] here.closed.contains(s) implies st.closed.contains(s)
            || exists|j: int|
                0 <= j < st.threads.len() && (#[trigger] st.threads[j]).subject == s && (
                st.threads[j].state == Some("merged"@) || st.threads[j].state == Some("closed"@)) by {
            if !st.closed.contains(s) {
                let i = choose|i: int| 0 <= i < here.closed.len() && here.closed[i] == s;
                if i < st.closed.len() {
                    assert(st.closed[i] == s);
                }
                assert(st.threads[st.at].subject == s);
            }
        }
        assert forall|s: Seq<char>| st.closed.contains(s) implies #[trigger] here.closed.contains(
            s,
        ) by {
            lemma_push_keeps(st.closed, t.subject, s);
        }
        if here.knows(t.subject) {
            if !here.closed.contains(t.subject) {
                lemma_advance_adds(here.skipped());
            } else if !t.unread {
                let next = here.dismissed();
                lemma_advance_adds(next);
                assert forall|k: int| st.ids.len() <= k < end.ids.len() implies exists|j: int|
                    0 <= j < st.threads.len() && (#[trigger] st.threads[j]).thread_id
                        == #[trigger] end.ids[k] && st.threads[j].subject == end.subjects[k]
                        && !st.threads[j].unread && end.closed.contains(end.subjects[k]) by {
                    if k == st.ids.len() {
                        assert(next.ids[k] == t.thread_id);
                        assert(next.subjects[k] == t.subject);
                        assert(end.ids[k] == next.ids[k]);
                        assert(next.closed.contains(t.subject));
                        assert(end.closed.contains(t.subject));
                        assert(st.threads[st.at] == t);
                    }
                }
                assert forall|k: int| 0 <= k < st.ids.len() implies #[trigger] end.ids[k]
                    == st.ids[k] && end.subjects[k] == st.subjects[k] by {
                    assert(next.ids[k] == st.ids[k]);
                    assert(end.ids[k] == next.ids[k]);
                }
            }
        }
    }
}

/// What happened before the last event happened.
proof fn lemma_earlier_evidence(threads: Seq<PrThreadView>, events: Seq<Event>, subject: Seq<char>, j: int)
    requires
        events.len() > 0,
    ensures
        was_found_closed(threads, events.drop_last(), subject) ==> was_found_closed(
            threads,
            events,
            subject,
        ),
        was_marked_read(threads, events.drop_last(), j) ==> was_marked_read(threads, events, j),
{
    let before = events.drop_last();
    if was_found_closed(threads, before, subject) {
        let n = choose|n: int|
            #![trigger before[n]]
            0 <= n < before.len() && before[n] == Event::Subject(200, Some("closed"@)) && ran(
                threads,
                before.take(n),
            ).waiting == Waiting::Subject && 0 <= ran(threads, before.take(n)).at < threads.len()
                && threads[ran(threads, before.take(n)).at].subject == subject;
        assert(events[n] == before[n]);
        assert(events.take(n) =~= before.take(n));
    }
    if was_marked_read(threads, before, j) {
        let n = choose|n: int|
            #![trigger before[n]]
            0 <= n < before.len() && (before[n] == Event::Marked(200) || before[n]
                == Event::Marked(204) || before[n] == Event::Marked(205)) && ran(
                threads,
                before.take(n),
            ).waiting == Waiting::Mark && ran(threads, before.take(n)).at == j;
        assert(events[n] == before[n]);
        assert(events.take(n) =~= before.take(n));
    }
}

/// Whether a subject's closedness has a ground in a pass.
spec fn has_ground(threads: Seq<PrThreadView>, events: Seq<Event>, subject: Seq<char>) -> bool {
    (exists|j: int|
        0 <= j < threads.len() && (#[trigger] threads[j]).subject == subject && (threads[j].state
            == Some("merged"@) || threads[j].state == Some("closed"@))) || was_found_closed(
        threads,
        events,
        subject,
    )
}

/// Whether a dismissal has a ground in a pass.
spec fn is_due(
    threads: Seq<PrThreadView>,
    events: Seq<Event>,
    id: Seq<char>,
    subject: Seq<char>,
) -> bool {
    exists|j: int|
        0 <= j < threads.len() && (#[trigger] threads[j]).thread_id == id && threads[j].subject
            == subject && (threads[j].unread ==> was_marked_read(threads, events, j))
}

/// Everything in a pass has its ground.
proof fn lemma_grounds(threads: Seq<PrThreadView>, events: Seq<Event>)
    ensures
        ({
            let st = ran(threads, events);
            &&& st.threads == threads
            &&& st.at >= 0
            &&& st.ids.len() == st.subjects.len()
            &&& forall|s: Seq<char>| #[trigger]
                st.closed.contains(s) ==> has_ground(threads, events, s)
            &&& forall|k: int|
                0 <= k < st.ids.len() ==> st.closed.contains(#[trigger] st.subjects[k])
            &&& forall|k: int|
                0 <= k < st.ids.len() ==> is_due(threads, events, #[trigger] st.ids[k], st.subjects[k])
            &&& st.waiting == Waiting::Mark ==> st.in_range() && st.closed.contains(
                st.current().subject,
            )
        }),
    decreases events.len(),
{
    if events.len() > 0 {
        let before = events.drop_last();
        let st = ran(threads, before);
        let end = ran(threads, events);
        lemma_grounds(threads, before);
        assert(events.take(events.len() - 1) =~= before);
        assert(events.last() == events[events.len() - 1]);
        assert forall|s: Seq<char>| has_ground(threads, before, s) implies #[trigger] has_ground(
            threads,
            events,
            s,
        ) by {
            lemma_earlier_evidence(threads, events, s, 0);
        }
        assert forall|id: Seq<char>, s: Seq<char>| is_due(threads, before, id, s) implies #[trigger] is_due(
            threads,
            events,
            id,
            s,
        ) by {
            let j = choose|j: int|
                0 <= j < threads.len() && (#[trigger] threads[j]).thread_id == id
                    && threads[j].subject == s && (threads[j].unread ==> was_marked_read(
                    threads,
                    before,
                    j,
                ));
            lemma_earlier_evidence(threads, events, s, j);
        }
        match events.last() {
            Event::Next => {
                lemma_advance_adds(st);
                lemma_mark_needs_closed(st);
                assert forall|k: int| 0 <= k < end.ids.len() implies is_due(
                    threads,
                    events,
                    #[trigger] end.ids[k],
                    end.subjects[k],
                ) && end.closed.contains(end.subjects[k]) by {
                    if k < st.ids.len() {
                        assert(end.ids[k] == st.ids[k]);
                        assert(is_due(threads, before, st.ids[k], st.subjects[k]));
                        assert(st.closed.contains(st.subjects[k]));
                    }
                }
                assert forall|k: int| 0 <= k < end.ids.len() implies end.closed.contains(
                    #[trigger] end.subjects[k],
                ) by {
                    assert(is_due(threads, events, end.ids[k], end.subjects[k]));
                }
                assert forall|s: Seq<char>| #[trigger] end.closed.contains(s) implies has_ground(
                    threads,
                    events,
                    s,
                ) by {
                    if st.closed.contains(s) {
                        assert(has_ground(threads, before, s));
                    }
                }
            },
            Event::Subject(status, state) => {
                assert forall|s: Seq<char>| #[trigger] end.closed.contains(s) implies has_ground(
                    threads,
                    events,
                    s,
                ) by {
                    if st.closed.contains(s) {
                        assert(has_ground(threads, before, s));
                    } else {
                        let i = choose|i: int| 0 <= i < end.closed.len() && end.closed[i] == s;
                        if i < st.closed.len() {
                            assert(st.closed[i] == s);
                        }
                        assert(was_found_closed(threads, events, s));
                    }
                }
                assert forall|s: Seq<char>| st.closed.contains(s) implies #[trigger] end.closed.contains(
                    s,
                ) by {
                    lemma_push_keeps(st.closed, st.current().subject, s);
                }
                assert forall|k: int| 0 <= k < end.ids.len() implies is_due(
                    threads,
                    events,
                    #[trigger] end.ids[k],
                    end.subjects[k],
                ) by {
                    assert(is_due(threads, before, st.ids[k], st.subjects[k]));
                }
            },
            Event::Marked(status) => {
                assert forall|s: Seq<char>| #[trigger] end.closed.contains(s) implies has_ground(
                    threads,
                    events,
                    s,
                ) by {
                    assert(has_ground(threads, before, s));
                }
                assert forall|k: int| 0 <= k < end.ids.len() implies is_due(
                    threads,
                    events,
                    #[trigger] end.ids[k],
                    end.subjects[k],
                ) && end.closed.contains(end.subjects[k]) by {
                    if k < st.ids.len() {
                        assert(end.ids[k] == st.ids[k]);
                        assert(end.subjects[k] == st.subjects[k]);
                        assert(is_due(threads, before, st.ids[k], st.subjects[k]));
                        assert(st.closed.contains(st.subjects[k]));
                    } else {
                        assert(was_marked_read(threads, events, st.at));
                        assert(threads[st.at].thread_id == end.ids[k]);
                    }
                }
                assert forall|k: int| 0 <= k < end.ids.len() implies end.closed.contains(
                    #[trigger] end.subjects[k],
                ) by {
                    assert(is_due(threads, events, end.ids[k], end.subjects[k]));
                }
            },
        }
    }
}

/// A pass waits for a thread to be marked read only when its subject is closed.
proof fn lemma_mark_needs_closed(st: PassView)
    requires
        0 <= st.at,
    ensures
        st.advance().0.waiting == Waiting::Mark ==> st.advance().0.in_range()
            && st.advance().0.closed.contains(st.advance().0.current().subject),
    decreases st.threads.len() - st.at,
{
    if st.in_range() {
        let t = st.current();
        let here = st.noted();
        if here.knows(t.subject) {
            if !here.closed.contains(t.subject) {
                lemma_mark_needs_closed(here.skipped());
            } else if !t.unread {
                lemma_mark_needs_closed(here.dismissed());
            }
        }
    }
}

/// Only threads of closed pull requests are dismissed. Whatever happens in a
/// pass, a dismissed thread is one of its threads, and of its pull request some
/// thread in the cache says "merged" or "closed", or it was fetched in the pass
/// and answered 200 with the state "closed". If the thread was unread, GitHub
/// answered 200, 204 or 205 to marking it read.
pub proof fn law_only_closed_pull_requests_are_dismissed(
    threads: Seq<PrThreadView>,
    events: Seq<Event>,
    k: int,
)
    requires
        0 <= k < ran(threads, events).ids.len(),
    ensures
        ({
            let st = ran(threads, events);
            let subject = st.subjects[k];
            &&& exists|j: int|
                0 <= j < threads.len() && (#[trigger] threads[j]).thread_id == st.ids[k]
                    && threads[j].subject == subject && (threads[j].unread ==> was_marked_read(
                    threads,
                    events,
                    j,
                ))
            &&& (exists|j: int|
                0 <= j < threads.len() && (#[trigger] threads[j]).subject == subject && (
                threads[j].state == Some("merged"@) || threads[j].state == Some("closed"@)))
                || was_found_closed(threads, events, subject)
        }),
{
    lemma_grounds(threads, events);
    let st = ran(threads, events);
    assert(is_due(threads, events, st.ids[k], st.subjects[k]));
    assert(st.closed.contains(st.subjects[k]));
    assert(has_ground(threads, events, st.subjects[k]));
}

/// A pull request that is not closed keeps its threads: when no thread in the
/// cache calls it "merged" or "closed", and no answer of the pass does either,
/// none of its threads is dismissed and none is marked read.
pub proof fn law_open_pull_requests_keep_their_threads(
    threads: Seq<PrThreadView>,
    events: Seq<Event>,
    subject: Seq<char>,
)
    requires
        forall|j: int|
            0 <= j < threads.len() && (#[trigger] threads[j]).subject == subject
                ==> threads[j].state != Some("merged"@) && threads[j].state != Some("closed"@),
        forall|n: int|
            0 <= n < events.len() && #[trigger] events[n] == Event::Subject(200, Some("closed"@))
                ==> ran(threads, events.take(n)).waiting != Waiting::Subject || threads[ran(
                threads,
                events.take(n),
            ).at].subject != subject,
    ensures
        !ran(threads, events).subjects.contains(subject),
        ran(threads, events).waiting == Waiting::Mark ==> threads[ran(threads, events).at].subject
            != subject,
{
    lemma_grounds(threads, events);
    let st = ran(threads, events);
    if st.closed.contains(subject) {
        assert(has_ground(threads, events, subject));
        assert(was_found_closed(threads, events, subject));
    }
    if st.subjects.contains(subject) {
        let k = choose|k: int| 0 <= k < st.subjects.len() && st.subjects[k] == subject;
        assert(st.closed.contains(st.subjects[k]));
    }
}

/// What a pass asks for: the pull request of the thread that it has reached, by
/// its own URL, and only while the cache calls it neither "merged" nor
/// "closed"; or that the thread be marked read, by the last segment of its API
/// URL, and only if it is unread. It is done when it has reached the end.
pub proof fn law_pass_asks_about_its_thread(st: PassView)
    requires
        0 <= st.at,
    ensures
        ({
            let end = st.advance().0;
            match st.advance().1 {
                StepView::FetchSubject(url, key) => {
                    &&& end.waiting == Waiting::Subject && end.in_range()
                    &&& url == end.threads[end.at].subject
                    &&& key == "etag:pr:"@ + url
                    &&& end.threads[end.at].state != Some("merged"@)
                    &&& end.threads[end.at].state != Some("closed"@)
                },
                StepView::MarkRead(path) => {
                    &&& end.waiting == Waiting::Mark && end.in_range()
                    &&& end.threads[end.at].unread
                    &&& path == "/notifications/threads/"@ + after_last(
                        end.threads[end.at].api_url,
                        '/',
                    )
                },
                StepView::Done => end.waiting == Waiting::Nothing && end.at >= end.threads.len(),
            }
        }),
    decreases st.threads.len() - st.at,
{
    if st.in_range() {
        let t = st.current();
        let here = st.noted();
        if !st.knows(t.subject) && cached_closed(t.state) {
            assert(here.closed.last() == t.subject);
        }
        if here.knows(t.subject) {
            if !here.closed.contains(t.subject) {
                law_pass_asks_about_its_thread(here.skipped());
            } else if !t.unread {
                law_pass_asks_about_its_thread(here.dismissed());
            }
        }
    }
}

/// What the answers mean: a pull request that was asked for is closed exactly
/// when the answer is 200 and its state is "closed", and a thread is dismissed
/// exactly when GitHub answers 200, 204 or 205 to marking it read. Either way
/// the pass goes on from there.
pub proof fn law_answers_decide(st: PassView, status: u16, state: Option<Seq<char>>)
    requires
        st.in_range(),
    ensures
        st.waiting == Waiting::Subject && !st.knows(st.current().subject) ==> {
            let after = st.subject_read(status, state);
            &&& after.closed.contains(st.current().subject) <==> status == 200 && state == Some(
                "closed"@,
            )
            &&& after.open.contains(st.current().subject) <==> !(status == 200 && state == Some(
                "closed"@,
            ))
            &&& after.at == st.at && after.ids == st.ids && after.waiting == Waiting::Nothing
        },
        st.waiting == Waiting::Mark ==> {
            let after = st.marked(status);
            &&& status == 200 || status == 204 || status == 205 ==> after.ids == st.ids.push(
                st.current().thread_id,
            ) && after.subjects == st.subjects.push(st.current().subject)
            &&& status != 200 && status != 204 && status != 205 ==> after.ids == st.ids
                && after.subjects == st.subjects
            &&& after.at == st.at + 1 && after.waiting == Waiting::Nothing
        },
{
    let subject = st.current().subject;
    if st.waiting == Waiting::Subject {
        assert(st.closed.push(subject).last() == subject);
        assert(st.open.push(subject).last() == subject);
    }
}

/// Read threads of pull requests that the cache calls "merged" or "closed" are
/// dismissed without asking, when the pass has not learnt otherwise.
pub proof fn law_known_closed_threads_go(st: PassView)
    requires
        st.in_range(),
        st.threads[st.at].state == Some("merged"@) || st.threads[st.at].state == Some("closed"@),
        !st.open.contains(st.threads[st.at].subject),
        !st.threads[st.at].unread,
    ensures
        st.advance().0.ids.contains(st.threads[st.at].thread_id),
        st.advance().0.subjects.contains(st.threads[st.at].subject),
{
    let t = st.current();
    let here = st.noted();
    assert(here.closed.contains(t.subject)) by {
        if !st.closed.contains(t.subject) {
            assert(here.closed.last() == t.subject);
        }
    }
    let next = here.dismissed();
    assert(next.ids.last() == t.thread_id);
    assert(next.subjects.last() == t.subject);
    lemma_advance_keeps_ids(next, t.thread_id, t.subject);
}

/// Going on keeps what was dismissed.
proof fn lemma_advance_keeps_ids(st: PassView, id: Seq<char>, subject: Seq<char>)
    requires
        st.ids.contains(id),
        st.subjects.contains(subject),
    ensures
        st.advance().0.ids.contains(id),
        st.advance().0.subjects.contains(subject),
    decreases st.threads.len() - st.at,
{
    if st.in_range() {
        let t = st.current();
        let here = st.noted();
        if here.knows(t.subject) {
            if !here.closed.contains(t.subject) {
                lemma_advance_keeps_ids(here.skipped(), id, subject);
            } else if !t.unread {
                lemma_push_keeps(st.ids, t.thread_id, id);
                lemma_push_keeps(st.subjects, t.subject, subject);
                lemma_advance_keeps_ids(here.dismissed(), id, subject);
            }
        }
    }
}

/// An ETag is remembered exactly of a pull request that was read and is not
/// closed.
pub proof fn law_open_pull_request_leaves_its_etag(
    status: u16,
    etag: Option<Seq<char>>,
    state: Option<Seq<char>>,
)
    ensures
        status == 200 && state is Some && state != Some("closed"@) ==> subject_etag(
            status,
            etag,
            state,
        ) == etag,
        status != 200 || state is None || state == Some("closed"@) ==> subject_etag(
            status,
            etag,
            state,
        ) is None,
{
}

} // verus!
