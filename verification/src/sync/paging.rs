//! Following the pages of a GitHub list endpoint.
use vstd::prelude::*;

use crate::http::{get_url, next_link, next_page_of, opt_text, url_request, Request, RequestView, TargetView};

verus! {

/// What follows a page: another page, the end, or a failure.
#[derive(Debug, Clone)]
pub enum Next {
    Fetch(Request),
    Done,
    Fail(String),
}

/// What follows a page.
pub enum NextView {
    Fetch(RequestView),
    Done,
    Fail(Seq<char>),
}

impl View for Next {
    type V = NextView;

    open spec fn view(&self) -> NextView {
        match self {
            Next::Fetch(r) => NextView::Fetch(r@),
            Next::Done => NextView::Done,
            Next::Fail(m) => NextView::Fail(m@),
        }
    }
}

/// The page after one with the given `Link` header.
pub open spec fn following(link: Option<Seq<char>>) -> NextView {
    match next_page_of(link) {
        Some(url) => NextView::Fetch(url_request(url, None)),
        None => NextView::Done,
    }
}

/// The page after one with the given `Link` header.
pub fn follow(link: &Option<String>) -> (r: Next)
    ensures
        r@ == following(opt_text(*link)),
        match next_page_of(opt_text(*link)) {
            Some(url) => r@ matches NextView::Fetch(q) && q.target == TargetView::Url(url)
                && q.query.len() == 0 && q.etag is None,
            None => r is Done,
        },
{
    match next_link(link) {
        Some(url) => Next::Fetch(get_url(url, None)),
        None => Next::Done,
    }
}

} // verus!
