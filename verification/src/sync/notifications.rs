//! Polling the notification inbox, page by page.
use vstd::prelude::*;

use crate::http::{asks_for, next_page_of, opt_text, pair_texts, status_line, Head, Request, RequestView, Target, TargetView};
use crate::models::NotificationThread;
use crate::sync::paging::{follow, following, Next, NextView};
use crate::text;

verus! {

broadcast use vstd::string::group_string_axioms;

/// Where the ETag of the inbox is remembered.
pub const ETAG_KEY: &'static str = "etag:notifications";

/// Where the time of the last inbox poll is remembered.
pub const LAST_SYNC_KEY: &'static str = "last_notification_sync";

/// The first request of a poll: the whole inbox, or what is new since `since`.
pub open spec fn inbox_request(etag: Option<Seq<char>>, since: Option<Seq<char>>) -> RequestView {
    let all = seq![("per_page"@, "50"@), ("all"@, "true"@)];
    RequestView {
        target: TargetView::Path("/notifications"@),
        query: match since {
            Some(s) => all.push(("since"@, s)),
            None => all,
        },
        etag,
    }
}

/// The first request of a poll.
pub fn first_request(etag: Option<String>, since: Option<String>) -> (r: Request)
    ensures
        r@ == inbox_request(opt_text(etag), opt_text(since)),
        r.target matches Target::Path(path) && path@ == "/notifications"@,
        asks_for(r@.query, "all"@, "true"@),
        asks_for(r@.query, "per_page"@, "50"@),
        since matches Some(s) ==> asks_for(r@.query, "since"@, s@),
        since is None ==> r.query@.len() == 2,
        opt_text(r.etag) == opt_text(etag),
{
    proof {
        law_poll_asks_for_the_whole_inbox(opt_text(etag), opt_text(since));
    }
    let mut query: Vec<(String, String)> = Vec::new();
    query.push(("per_page".to_owned(), "50".to_owned()));
    query.push(("all".to_owned(), "true".to_owned()));
    assert(pair_texts(query@) =~= seq![("per_page"@, "50"@), ("all"@, "true"@)]);
    if let Some(s) = since {
        let ghost before = query@;
        query.push(("since".to_owned(), s));
        assert(pair_texts(query@) =~= pair_texts(before).push(("since"@, s@)));
    }
    Request { target: Target::Path("/notifications".to_owned()), query, etag }
}

/// The thread's subject is among the dismissed ones.
pub open spec fn is_dismissed(thread: NotificationThread, dismissed: Seq<Seq<char>>) -> bool {
    thread.subject.url matches Some(url) && dismissed.contains(url@)
}

/// The threads of a page that are stored: those whose subject is not dismissed.
pub open spec fn kept(
    threads: Seq<NotificationThread>,
    dismissed: Seq<Seq<char>>,
) -> Seq<NotificationThread> {
    threads.filter(|t: NotificationThread| !is_dismissed(t, dismissed))
}

/// What to store of a page, and what follows it.
#[derive(Debug, Clone)]
pub struct Page {
    pub store: Vec<NotificationThread>,
    /// The ETag to remember.
    pub etag: Option<String>,
    pub next: Next,
}

/// A page of the inbox as it arrived, and the dismissed subjects at that time.
pub struct Answer {
    pub status: u16,
    pub etag: Option<Seq<char>>,
    pub link: Option<Seq<char>>,
    /// The parsed body, absent when it could not be parsed.
    pub threads: Option<Seq<NotificationThread>>,
    pub dismissed: Seq<Seq<char>>,
}

impl Answer {
    /// A fresh, readable page.
    pub open spec fn is_fresh(self) -> bool {
        self.status == 200 && self.threads is Some
    }

    /// What is stored of the page.
    pub open spec fn store(self) -> Seq<NotificationThread> {
        if self.is_fresh() {
            kept(self.threads->0, self.dismissed)
        } else {
            Seq::empty()
        }
    }

    /// What follows the page.
    pub open spec fn next(self) -> NextView {
        if self.status == 304 {
            NextView::Done
        } else if self.status != 200 {
            NextView::Fail("notifications endpoint returned "@ + status_line(self.status))
        } else if self.threads is None {
            NextView::Fail("parsing notifications response"@)
        } else {
            following(self.link)
        }
    }
}

/// What a poll stores, page after page, until one has no successor.
pub open spec fn poll_store(answers: Seq<Answer>) -> Seq<NotificationThread>
    decreases answers.len(),
{
    if answers.len() == 0 {
        Seq::empty()
    } else if answers[0].next() is Fetch {
        answers[0].store() + poll_store(answers.skip(1))
    } else {
        answers[0].store()
    }
}

/// A page as the decision sees it.
pub open spec fn answer(
    head: Head,
    threads: Option<Vec<NotificationThread>>,
    dismissed: Vec<String>,
) -> Answer {
    Answer {
        status: head.status@,
        etag: opt_text(head.etag),
        link: opt_text(head.link),
        threads: match threads {
            Some(t) => Some(t@),
            None => None,
        },
        dismissed: text::texts(dismissed@),
    }
}

/// The decision on one page of the inbox. `threads` is the parsed body, absent
/// when the body could not be parsed; `dismissed` holds the subject API URLs
/// of dismissed threads, which are never stored again.
pub fn on_page(
    head: &Head,
    threads: Option<Vec<NotificationThread>>,
    dismissed: &Vec<String>,
) -> (r: Page)
    ensures
        r.store@ == answer(*head, threads, *dismissed).store(),
        r.next@ == answer(*head, threads, *dismissed).next(),
        opt_text(r.etag) == (if answer(*head, threads, *dismissed).is_fresh() {
            opt_text(head.etag)
        } else {
            None
        }),
        forall|t: NotificationThread| #[trigger]
            r.store@.contains(t) <==> head.status@ == 200 && threads is Some && (
            threads->0)@.contains(t) && !(t.subject.url matches Some(url) && text::texts(
                dismissed@,
            ).contains(url@)),
        head.status@ == 304 ==> r.next is Done && r.etag is None,
        head.status@ != 304 && head.status@ != 200 ==> r.next is Fail && r.etag is None,
        head.status@ == 200 && threads is Some ==> opt_text(r.etag) == opt_text(head.etag),
{
    let ghost a = answer(*head, threads, *dismissed);
    proof {
        law_page_keeps_what_is_not_dismissed(a);
    }
    let status = head.status.as_u16();
    if status == 304 {
        return Page { store: Vec::new(), etag: None, next: Next::Done };
    }
    if status != 200 {
        let mut message = "notifications endpoint returned ".to_owned();
        message.append(head.status.text().as_str());
        return Page { store: Vec::new(), etag: None, next: Next::Fail(message) };
    }
    let threads = match threads {
        Some(t) => t,
        None => {
            return Page {
                store: Vec::new(),
                etag: None,
                next: Next::Fail("parsing notifications response".to_owned()),
            };
        },
    };
    let store = keep(threads, dismissed);
    assert(store@ == a.store());
    Page { store, etag: head.etag.clone(), next: follow(&head.link) }
}

/// The threads whose subject is not dismissed.
fn keep(threads: Vec<NotificationThread>, dismissed: &Vec<String>) -> (r: Vec<NotificationThread>)
    ensures
        r@ == kept(threads@, text::texts(dismissed@)),
{
    let ghost all = threads@;
    let ghost gone = text::texts(dismissed@);
    let ghost pred = |t: NotificationThread| !is_dismissed(t, gone);
    let mut store: Vec<NotificationThread> = Vec::new();
    for thread in it: threads.into_iter()
        invariant
            it.seq() == all,
            gone == text::texts(dismissed@),
            pred == (|t: NotificationThread| !is_dismissed(t, gone)),
            store@ == all.take(it.index() as int).filter(pred),
    {
        let ghost t = all.take(it.index() as int);
        proof {
            assert(all.take(it.index() + 1) =~= t.push(thread));
            t.lemma_filter_push(thread, pred);
        }
        let skip = match &thread.subject.url {
            Some(url) => text::holds(dismissed, url.as_str()),
            None => false,
        };
        if !skip {
            store.push(thread);
        }
    }
    assert(all.take(all.len() as int) =~= all);
    store
}

// ---- laws -----------------------------------------------------------------

/// A dismissed thread is never stored again: whatever the pages of a poll
/// hold, a thread that the poll stores came on one of its pages and is not
/// among the subjects that were dismissed when the page was read.
pub proof fn law_dismissed_threads_stay_away(answers: Seq<Answer>, k: int)
    requires
        0 <= k < poll_store(answers).len(),
    ensures
        exists|i: int|
            #![trigger answers[i]]
            0 <= i < answers.len() && answers[i].is_fresh() && answers[i].threads->0.contains(
                poll_store(answers)[k],
            ) && !is_dismissed(poll_store(answers)[k], answers[i].dismissed),
    decreases answers.len(),
{
    let here = answers[0].store();
    let thread = poll_store(answers)[k];
    if k < here.len() {
        let pred = |t: NotificationThread| !is_dismissed(t, answers[0].dismissed);
        answers[0].threads->0.lemma_filter_pred(pred, k);
        assert(here.contains(here[k]));
        answers[0].threads->0.lemma_filter_contains_rev(pred, here[k]);
        assert(here[k] == thread);
    } else {
        let rest = answers.skip(1);
        law_dismissed_threads_stay_away(rest, k - here.len());
        let i = choose|i: int|
            #![trigger rest[i]]
            0 <= i < rest.len() && rest[i].is_fresh() && rest[i].threads->0.contains(
                poll_store(rest)[k - here.len()],
            ) && !is_dismissed(poll_store(rest)[k - here.len()], rest[i].dismissed);
        assert(answers[i + 1] == rest[i]);
    }
}

/// Nothing else is lost: every thread of a fresh page that a poll reaches is
/// stored, unless its subject is dismissed.
pub proof fn law_other_threads_are_stored(answers: Seq<Answer>, i: int, thread: NotificationThread)
    requires
        0 <= i < answers.len(),
        forall|j: int| 0 <= j < i ==> (#[trigger] answers[j]).next() is Fetch,
        answers[i].is_fresh(),
        answers[i].threads->0.contains(thread),
        !is_dismissed(thread, answers[i].dismissed),
    ensures
        poll_store(answers).contains(thread),
    decreases answers.len(),
{
    let here = answers[0].store();
    if i == 0 {
        let pred = |t: NotificationThread| !is_dismissed(t, answers[0].dismissed);
        let all = answers[0].threads->0;
        let m = all.index_of(thread);
        all.lemma_filter_contains(pred, m);
        assert(here.contains(thread));
        let k = choose|k: int| 0 <= k < here.len() && here[k] == thread;
        assert(poll_store(answers)[k] == thread);
    } else {
        let rest = answers.skip(1);
        assert(answers[0].next() is Fetch);
        assert forall|j: int| 0 <= j < i - 1 implies (#[trigger] rest[j]).next() is Fetch by {
            assert(rest[j] == answers[j + 1]);
        }
        law_other_threads_are_stored(rest, i - 1, thread);
        let tail = poll_store(rest);
        let k = choose|k: int| 0 <= k < tail.len() && tail[k] == thread;
        assert(poll_store(answers)[here.len() + k] == thread);
    }
}

/// A poll asks for the whole inbox, read threads included, or for what is new
/// since the given time.
pub proof fn law_poll_asks_for_the_whole_inbox(etag: Option<Seq<char>>, since: Option<Seq<char>>)
    ensures
        inbox_request(etag, since).target == TargetView::Path("/notifications"@),
        asks_for(inbox_request(etag, since).query, "all"@, "true"@),
        asks_for(inbox_request(etag, since).query, "per_page"@, "50"@),
        since matches Some(s) ==> asks_for(inbox_request(etag, since).query, "since"@, s),
        since is None ==> inbox_request(etag, since).query.len() == 2,
        inbox_request(etag, since).etag == etag,
{
    reveal_strlit("all");
    reveal_strlit("per_page");
    reveal_strlit("since");
    assert("all"@.len() == 3 && "per_page"@.len() == 8 && "since"@.len() == 5);
    let query = inbox_request(etag, since).query;
    assert(query[0] == ("per_page"@, "50"@));
    assert(query[1] == ("all"@, "true"@));
    if since is Some {
        assert(query[2] == ("since"@, since->0));
    }
}

/// Of a fresh page exactly the threads are stored whose subject has no URL or a
/// URL that was not dismissed, in the order of the page; of any other page
/// nothing is.
pub proof fn law_page_keeps_what_is_not_dismissed(a: Answer)
    ensures
        forall|t: NotificationThread| #[trigger]
            a.store().contains(t) <==> a.status == 200 && a.threads is Some && (
            a.threads->0).contains(t) && !(t.subject.url matches Some(url) && a.dismissed.contains(
                url@,
            )),
        a.status == 200 && a.threads is Some && (forall|t: NotificationThread|
            (a.threads->0).contains(t) ==> !(#[trigger] t.subject.url matches Some(url)
                && a.dismissed.contains(url@))) ==> a.store() == a.threads->0,
{
    if a.status == 200 && a.threads is Some {
        let all = a.threads->0;
        let pred = |t: NotificationThread| !is_dismissed(t, a.dismissed);
        assert forall|t: NotificationThread| #[trigger] a.store().contains(t) <==> all.contains(t)
            && !(t.subject.url matches Some(url) && a.dismissed.contains(url@)) by {
            if a.store().contains(t) {
                all.lemma_filter_contains_rev(pred, t);
                let i = choose|i: int| 0 <= i < a.store().len() && a.store()[i] == t;
                all.lemma_filter_pred(pred, i);
            }
            if all.contains(t) && pred(t) {
                let i = choose|i: int| 0 <= i < all.len() && all[i] == t;
                all.lemma_filter_contains(pred, i);
            }
        }
        if forall|t: NotificationThread|
            all.contains(t) ==> !(#[trigger] t.subject.url matches Some(url)
                && a.dismissed.contains(url@)) {
            lemma_all_kept(all, pred);
        }
    }
}

/// Where every element is kept, a filter keeps the whole list.
proof fn lemma_all_kept(all: Seq<NotificationThread>, pred: spec_fn(NotificationThread) -> bool)
    requires
        forall|t: NotificationThread| all.contains(t) ==> #[trigger] pred(t),
    ensures
        all.filter(pred) == all,
    decreases all.len(),
{
    if all.len() == 0 {
        assert(all.filter(pred) =~= all);
    } else {
        let before = all.drop_last();
        assert forall|t: NotificationThread| before.contains(t) implies #[trigger] pred(t) by {
            let i = choose|i: int| 0 <= i < before.len() && before[i] == t;
            assert(all[i] == t);
        }
        lemma_all_kept(before, pred);
        assert(all =~= before.push(all.last()));
        assert(all.contains(all.last()));
        before.lemma_filter_push(all.last(), pred);
    }
}

/// How a poll goes on from a page: an unchanged inbox ends it, an error or a body
/// that cannot be read fails it, and a page is followed to the page that it links
/// to.
pub proof fn law_poll_goes_on(a: Answer)
    ensures
        a.status == 304 ==> a.next() is Done,
        a.status != 304 && a.status != 200 ==> a.next() == NextView::Fail(
            "notifications endpoint returned "@ + status_line(a.status),
        ),
        a.status == 200 && a.threads is None ==> a.next() == NextView::Fail(
            "parsing notifications response"@,
        ),
        a.status == 200 && a.threads is Some ==> match next_page_of(a.link) {
            Some(url) => a.next() matches NextView::Fetch(request) && request.target
                == TargetView::Url(url) && request.query.len() == 0 && request.etag is None,
            None => a.next() is Done,
        },
{
}

} // verus!
