//! Refreshing the list of watched repositories.
use vstd::prelude::*;

use crate::http::{asks_for, next_page_of, opt_text, pair_texts, status_line, Head, Request, RequestView, Target, TargetView};
use crate::models::WatchedRepo;
use crate::sync::paging::{follow, following, Next, NextView};

verus! {

broadcast use vstd::string::group_string_axioms;

/// Where the ETag of the watched list is remembered.
pub const ETAG_KEY: &'static str = "etag:subscriptions";

/// The first request of a pass.
pub open spec fn watched_request(etag: Option<Seq<char>>) -> RequestView {
    RequestView {
        target: TargetView::Path("/user/subscriptions"@),
        query: seq![("per_page"@, "100"@)],
        etag,
    }
}

/// The first request of a pass.
pub fn first_request(etag: Option<String>) -> (r: Request)
    ensures
        r@ == watched_request(opt_text(etag)),
        r.target matches Target::Path(path) && path@ == "/user/subscriptions"@,
        asks_for(r@.query, "per_page"@, "100"@),
        opt_text(r.etag) == opt_text(etag),
{
    proof {
        law_pass_asks_for_the_watched_list(opt_text(etag));
    }
    let mut query: Vec<(String, String)> = Vec::new();
    query.push(("per_page".to_owned(), "100".to_owned()));
    assert(pair_texts(query@) =~= seq![("per_page"@, "100"@)]);
    Request { target: Target::Path("/user/subscriptions".to_owned()), query, etag }
}

/// What to do with a page of the watched list, and what follows it.
#[derive(Debug, Clone)]
pub struct WatchPage {
    /// Whether all watched flags are reset before the page is stored.
    pub reset: bool,
    /// The repositories to flag as watched.
    pub store: Vec<WatchedRepo>,
    /// The ETag to remember.
    pub etag: Option<String>,
    pub next: Next,
}

/// A page of the watched list as it arrived.
pub struct Answer {
    pub status: u16,
    pub etag: Option<Seq<char>>,
    pub link: Option<Seq<char>>,
    /// The parsed body, absent when it could not be parsed.
    pub repos: Option<Seq<WatchedRepo>>,
}

impl Answer {
    /// A fresh, readable page.
    pub open spec fn is_fresh(self) -> bool {
        self.status == 200 && self.repos is Some
    }

    /// What is stored of the page.
    pub open spec fn store(self) -> Seq<WatchedRepo> {
        if self.is_fresh() {
            self.repos->0
        } else {
            Seq::empty()
        }
    }

    /// What follows the page.
    pub open spec fn next(self) -> NextView {
        if self.status == 304 {
            NextView::Done
        } else if self.status != 200 {
            NextView::Fail("subscriptions endpoint returned "@ + status_line(self.status))
        } else if self.repos is None {
            NextView::Fail("parsing subscriptions response"@)
        } else {
            following(self.link)
        }
    }
}

/// A page as the decision sees it.
pub open spec fn answer(head: Head, repos: Option<Vec<WatchedRepo>>) -> Answer {
    Answer {
        status: head.status@,
        etag: opt_text(head.etag),
        link: opt_text(head.link),
        repos: match repos {
            Some(v) => Some(v@),
            None => None,
        },
    }
}

/// The decision on one page of the watched list. `first` tells the first page
/// of a pass from the others: the flags are reset only once a fresh list has
/// begun to arrive, and only the first page's ETag is remembered.
pub fn on_page(first: bool, head: &Head, repos: Option<Vec<WatchedRepo>>) -> (r: WatchPage)
    ensures
        r.reset == (first && answer(*head, repos).is_fresh()),
        r.reset <==> first && head.status@ == 200 && repos is Some,
        head.status@ == 200 && repos is Some ==> r.store@ == (repos->0)@,
        head.status@ != 200 || repos is None ==> r.store@.len() == 0,
        head.status@ == 304 ==> r.next is Done,
        head.status@ != 304 && (head.status@ != 200 || repos is None) ==> r.next is Fail,
        r.etag is Some ==> first && head.status@ == 200 && repos is Some,
        r.store@ == answer(*head, repos).store(),
        r.next@ == answer(*head, repos).next(),
        opt_text(r.etag) == (if first && answer(*head, repos).is_fresh() {
            opt_text(head.etag)
        } else {
            None
        }),
{
    let status = head.status.as_u16();
    if status == 304 {
        return WatchPage { reset: false, store: Vec::new(), etag: None, next: Next::Done };
    }
    if status != 200 {
        let message = "subscriptions endpoint returned ".to_owned().concat(
            head.status.text().as_str(),
        );
        return WatchPage { reset: false, store: Vec::new(), etag: None, next: Next::Fail(message) };
    }
    match repos {
        Some(store) => {
            let etag = if first {
                head.etag.clone()
            } else {
                None
            };
            WatchPage { reset: first, store, etag, next: follow(&head.link) }
        },
        None => WatchPage {
            reset: false,
            store: Vec::new(),
            etag: None,
            next: Next::Fail("parsing subscriptions response".to_owned()),
        },
    }
}

// ---- laws -----------------------------------------------------------------

/// The names of the repositories of a page.
pub open spec fn names(repos: Seq<WatchedRepo>) -> Set<Seq<char>> {
    repos.map_values(|r: WatchedRepo| r.full_name@).to_set()
}

/// The watched repositories after a page, when `watched` were before it.
pub open spec fn watched_after(watched: Set<Seq<char>>, first: bool, a: Answer) -> Set<Seq<char>> {
    if first && a.is_fresh() {
        names(a.store())
    } else {
        watched + names(a.store())
    }
}

/// The watched repositories after a pass over `answers`.
pub open spec fn pass_watched(
    watched: Set<Seq<char>>,
    first: bool,
    answers: Seq<Answer>,
) -> Set<Seq<char>>
    decreases answers.len(),
{
    if answers.len() == 0 {
        watched
    } else if answers[0].next() is Fetch {
        pass_watched(watched_after(watched, first, answers[0]), false, answers.skip(1))
    } else {
        watched_after(watched, first, answers[0])
    }
}

/// The names on the pages of a pass, up to the first that has no successor.
pub open spec fn listed(answers: Seq<Answer>) -> Set<Seq<char>>
    decreases answers.len(),
{
    if answers.len() == 0 {
        Set::empty()
    } else if answers[0].next() is Fetch {
        names(answers[0].store()) + listed(answers.skip(1))
    } else {
        names(answers[0].store())
    }
}

/// After the first page a pass only adds names.
proof fn lemma_later_pages_add(watched: Set<Seq<char>>, answers: Seq<Answer>)
    ensures
        pass_watched(watched, false, answers) =~= watched + listed(answers),
    decreases answers.len(),
{
    if answers.len() > 0 && answers[0].next() is Fetch {
        lemma_later_pages_add(watched_after(watched, false, answers[0]), answers.skip(1));
    }
}

/// Once a fresh list arrives, what is watched is exactly what the list names:
/// nothing of the old list is left.
pub proof fn law_fresh_list_replaces_old(watched: Set<Seq<char>>, answers: Seq<Answer>)
    requires
        answers.len() > 0,
        answers[0].is_fresh(),
    ensures
        pass_watched(watched, true, answers) == listed(answers),
{
    if answers[0].next() is Fetch {
        lemma_later_pages_add(names(answers[0].store()), answers.skip(1));
    }
    assert(pass_watched(watched, true, answers) =~= listed(answers));
}

/// An unchanged list, an answer that is an error, or a body that cannot be read
/// keeps the flags.
pub proof fn law_unchanged_list_keeps_flags(watched: Set<Seq<char>>, answers: Seq<Answer>)
    requires
        answers.len() > 0,
        !answers[0].is_fresh(),
    ensures
        pass_watched(watched, true, answers) == watched,
{
    assert(names(Seq::empty()) =~= Set::empty()) by {
        assert(Seq::<WatchedRepo>::empty().map_values(|r: WatchedRepo| r.full_name@) =~= Seq::empty());
    }
    assert(pass_watched(watched, true, answers) =~= watched);
}

/// A pass asks for the list of watched repositories, conditional on its ETag.
pub proof fn law_pass_asks_for_the_watched_list(etag: Option<Seq<char>>)
    ensures
        watched_request(etag).target == TargetView::Path("/user/subscriptions"@),
        asks_for(watched_request(etag).query, "per_page"@, "100"@),
        watched_request(etag).etag == etag,
{
    assert(watched_request(etag).query[0] == ("per_page"@, "100"@));
}

/// A fresh page is stored whole, of any other nothing is; a page is followed to
/// the page that it links to, an unchanged list ends the pass, and anything else
/// fails it.
pub proof fn law_pass_goes_on(a: Answer)
    ensures
        a.status == 200 && a.repos is Some ==> a.store() == a.repos->0,
        a.status != 200 || a.repos is None ==> a.store().len() == 0,
        a.status == 304 ==> a.next() is Done,
        a.status != 304 && a.status != 200 ==> a.next() == NextView::Fail(
            "subscriptions endpoint returned "@ + status_line(a.status),
        ),
        a.status == 200 && a.repos is None ==> a.next() == NextView::Fail(
            "parsing subscriptions response"@,
        ),
        a.status == 200 && a.repos is Some ==> match next_page_of(a.link) {
            Some(url) => a.next() matches NextView::Fetch(request) && request.target
                == TargetView::Url(url) && request.query.len() == 0 && request.etag is None,
            None => a.next() is Done,
        },
{
}

/// A repository is watched after a pass over a fresh list exactly when one of
/// the pages that were read names it.
pub proof fn law_watched_is_what_pages_name(
    watched: Set<Seq<char>>,
    answers: Seq<Answer>,
    name: Seq<char>,
)
    requires
        answers.len() > 0,
        answers[0].status == 200 && answers[0].repos is Some,
        forall|i: int|
            0 <= i < answers.len() - 1 ==> (#[trigger] answers[i]).next() is Fetch,
    ensures
        pass_watched(watched, true, answers).contains(name) <==> exists|i: int, k: int|
            0 <= i < answers.len() && (#[trigger] answers[i]).status == 200
                && answers[i].repos is Some && 0 <= k < (answers[i].repos->0).len() && (
            #[trigger] (answers[i].repos->0)[k]).full_name@ == name,
{
    law_fresh_list_replaces_old(watched, answers);
    lemma_listed(answers, name);
}

/// A name is listed exactly when a page names it.
proof fn lemma_listed(answers: Seq<Answer>, name: Seq<char>)
    requires
        forall|i: int|
            0 <= i < answers.len() - 1 ==> (#[trigger] answers[i]).next() is Fetch,
    ensures
        listed(answers).contains(name) <==> exists|i: int, k: int|
            0 <= i < answers.len() && (#[trigger] answers[i]).status == 200
                && answers[i].repos is Some && 0 <= k < (answers[i].repos->0).len() && (
            #[trigger] (answers[i].repos->0)[k]).full_name@ == name,
    decreases answers.len(),
{
    if answers.len() > 0 {
        let a = answers[0];
        lemma_named(a, name);
        let rest = answers.skip(1);
        if a.next() is Fetch {
            assert forall|i: int| 0 <= i < rest.len() - 1 implies (#[trigger] rest[i]).next() is Fetch by {
                assert(rest[i] == answers[i + 1]);
            }
            lemma_listed(rest, name);
        } else {
            assert(answers.len() == 1);
        }
        if listed(answers).contains(name) && !names(a.store()).contains(name) {
            let (i, k) = choose|i: int, k: int|
                0 <= i < rest.len() && (#[trigger] rest[i]).status == 200 && rest[i].repos is Some
                    && 0 <= k < (rest[i].repos->0).len() && (#[trigger] (rest[i].repos->0)[k]).full_name@
                    == name;
            assert(answers[i + 1] == rest[i]);
            assert((answers[i + 1].repos->0)[k].full_name@ == name);
        }
        if names(a.store()).contains(name) {
            let k = choose|k: int|
                0 <= k < (a.repos->0).len() && (#[trigger] (a.repos->0)[k]).full_name@ == name;
            assert((answers[0].repos->0)[k].full_name@ == name);
        }
        if exists|i: int, k: int|
            0 <= i < answers.len() && (#[trigger] answers[i]).status == 200
                && answers[i].repos is Some && 0 <= k < (answers[i].repos->0).len() && (
            #[trigger] (answers[i].repos->0)[k]).full_name@ == name {
            let (i, k) = choose|i: int, k: int|
                0 <= i < answers.len() && (#[trigger] answers[i]).status == 200
                    && answers[i].repos is Some && 0 <= k < (answers[i].repos->0).len() && (
                #[trigger] (answers[i].repos->0)[k]).full_name@ == name;
            if i > 0 {
                assert(answers[0].next() is Fetch);
                assert(rest[i - 1] == answers[i]);
                assert((rest[i - 1].repos->0)[k].full_name@ == name);
            }
        }
    }
}

/// A page's names are those of its repositories.
proof fn lemma_named(a: Answer, name: Seq<char>)
    ensures
        names(a.store()).contains(name) <==> a.status == 200 && a.repos is Some && exists|k: int|
            0 <= k < (a.repos->0).len() && (#[trigger] (a.repos->0)[k]).full_name@ == name,
{
    let list = a.store().map_values(|r: WatchedRepo| r.full_name@);
    if names(a.store()).contains(name) {
        assert(list.contains(name));
        let k = choose|k: int| 0 <= k < list.len() && list[k] == name;
        assert(a.store()[k].full_name@ == name);
        assert((a.repos->0)[k].full_name@ == name);
    }
    if a.status == 200 && a.repos is Some && exists|k: int|
        0 <= k < (a.repos->0).len() && (#[trigger] (a.repos->0)[k]).full_name@ == name {
        let k = choose|k: int|
            0 <= k < (a.repos->0).len() && (#[trigger] (a.repos->0)[k]).full_name@ == name;
        assert(list[k] == name);
        assert(list.contains(name));
    }
}

} // verus!
