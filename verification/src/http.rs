//! The parts of HTTP that the sync logic reads and writes: status codes,
//! requests to the GitHub API, and the head of a response.
use vstd::prelude::*;

use crate::text;
use crate::text::{cut_once, has_substring, parts, texts};

verus! {

broadcast use vstd::string::group_string_axioms;

// ---- status codes ---------------------------------------------------------

/// An HTTP status code, between 100 and 999.
#[derive(Debug, Clone, Copy, PartialEq, Eq)]
pub struct StatusCode {
    code: u16,
}

impl View for StatusCode {
    type V = u16;

    closed spec fn view(&self) -> u16 {
        self.code
    }
}

/// The numbers that are HTTP status codes.
pub open spec fn is_status(code: u16) -> bool {
    100 <= code <= 999
}

/// The statuses that report success.
pub open spec fn is_success_code(code: u16) -> bool {
    200 <= code <= 299
}

/// The statuses that GitHub answers with when it has marked a thread read.
pub open spec fn is_marked_read(code: u16) -> bool {
    code == 200 || code == 204 || code == 205
}

impl StatusCode {
    #[verifier::type_invariant]
    spec fn in_range(self) -> bool {
        is_status(self.code)
    }

    /// The status with the given number, if it is one.
    pub fn from_u16(code: u16) -> (r: Option<StatusCode>)
        ensures
            r is Some <==> is_status(code),
            r matches Some(s) ==> s@ == code,
    {
        if 100 <= code && code <= 999 {
            Some(StatusCode { code })
        } else {
            None
        }
    }

    /// The number of the status.
    pub fn as_u16(&self) -> (r: u16)
        ensures
            r == self@,
            is_status(r),
    {
        proof {
            use_type_invariant(self);
        }
        self.code
    }

    /// Whether the status reports success.
    pub fn is_success(&self) -> (r: bool)
        ensures
            r == is_success_code(self@),
            r == (200 <= self@ < 300),
    {
        200 <= self.code && self.code <= 299
    }

    /// Whether the status answers a request to mark a thread read with success.
    pub fn marked_read(&self) -> (r: bool)
        ensures
            r == is_marked_read(self@),
            r == (self@ == 200 || self@ == 204 || self@ == 205),
    {
        self.code == 200 || self.code == 204 || self.code == 205
    }

    /// The number of the status and its reason phrase.
    pub fn text(&self) -> (r: String)
        ensures
            r@ == status_line(self@),
    {
        proof {
            use_type_invariant(self);
        }
        status_text(self.code)
    }
}

/// The number and reason phrase that `http` prints for a status code.
pub uninterp spec fn status_line(code: u16) -> Seq<char>;

/// `http::StatusCode::from_u16` followed by its `Display`: a function of the
/// number alone, defined for 100 to 999.
#[verifier::external_body]
fn status_text(code: u16) -> (r: String)
    requires
        is_status(code),
    ensures
        r@ == status_line(code),
{
    axum::http::StatusCode::from_u16(code).unwrap().to_string()
}

// ---- requests -------------------------------------------------------------

/// Where a request goes: a path under the API base, or a whole URL.
#[derive(Debug, Clone)]
pub enum Target {
    Path(String),
    Url(String),
}

/// A conditional `GET` request.
#[derive(Debug, Clone)]
pub struct Request {
    pub target: Target,
    pub query: Vec<(String, String)>,
    /// The value of `If-None-Match`.
    pub etag: Option<String>,
}

/// A request target.
pub enum TargetView {
    Path(Seq<char>),
    Url(Seq<char>),
}

/// A conditional `GET` request.
pub struct RequestView {
    pub target: TargetView,
    pub query: Seq<(Seq<char>, Seq<char>)>,
    pub etag: Option<Seq<char>>,
}

/// The contents of an optional string.
pub open spec fn opt_text(o: Option<String>) -> Option<Seq<char>> {
    match o {
        Some(s) => Some(s@),
        None => None,
    }
}

/// The contents of a list of pairs of strings.
pub open spec fn pair_texts(v: Seq<(String, String)>) -> Seq<(Seq<char>, Seq<char>)> {
    v.map_values(|p: (String, String)| (p.0@, p.1@))
}

impl View for Target {
    type V = TargetView;

    open spec fn view(&self) -> TargetView {
        match self {
            Target::Path(s) => TargetView::Path(s@),
            Target::Url(s) => TargetView::Url(s@),
        }
    }
}

/// The URL of a target under an API base.
pub open spec fn absolute_url(base: Seq<char>, target: TargetView) -> Seq<char> {
    match target {
        TargetView::Path(path) => base + path,
        TargetView::Url(url) => url,
    }
}

impl Target {
    /// The URL of the target under the API base `base`.
    pub fn url(&self, base: &str) -> (r: String)
        ensures
            r@ == absolute_url(base@, self@),
            *self matches Target::Path(path) ==> r@ == base@ + path@,
            *self matches Target::Url(url) ==> r@ == url@,
    {
        match self {
            Target::Path(path) => base.to_owned().concat(path.as_str()),
            Target::Url(url) => url.clone(),
        }
    }
}

impl View for Request {
    type V = RequestView;

    open spec fn view(&self) -> RequestView {
        RequestView {
            target: self.target@,
            query: pair_texts(self.query@),
            etag: opt_text(self.etag),
        }
    }
}

/// The request for a page that an earlier response links to.
pub open spec fn url_request(url: Seq<char>, etag: Option<Seq<char>>) -> RequestView {
    RequestView { target: TargetView::Url(url), query: Seq::empty(), etag }
}

/// A request for a whole URL.
pub fn get_url(url: String, etag: Option<String>) -> (r: Request)
    ensures
        r@ == url_request(url@, opt_text(etag)),
        r.target matches Target::Url(u) && u@ == url@,
        r.query@.len() == 0,
        opt_text(r.etag) == opt_text(etag),
{
    let r = Request { target: Target::Url(url), query: Vec::new(), etag };
    assert(pair_texts(r.query@) =~= Seq::empty());
    r
}

/// Whether a query asks for exactly one value under a key, the given one.
pub open spec fn asks_for(
    query: Seq<(Seq<char>, Seq<char>)>,
    key: Seq<char>,
    value: Seq<char>,
) -> bool {
    &&& query.contains((key, value))
    &&& forall|i: int, j: int|
        0 <= i < query.len() && 0 <= j < query.len() && (#[trigger] query[i]).0 == key && (
        #[trigger] query[j]).0 == key ==> i == j
}

// ---- the head of a response -----------------------------------------------

/// What the sync logic reads of a response besides its body.
#[derive(Debug, Clone)]
pub struct Head {
    pub status: StatusCode,
    /// The `ETag` header.
    pub etag: Option<String>,
    /// The `Link` header.
    pub link: Option<String>,
}

/// The URL of one entry of a `Link` header, if the entry links to the next page.
pub open spec fn next_target(entry: Seq<char>) -> Option<Seq<char>> {
    if has_substring(entry, "rel=\"next\""@) {
        match cut_once(entry, "<"@) {
            Some((_, rest)) => match cut_once(rest, ">"@) {
                Some((url, _)) => Some(url),
                None => None,
            },
            None => None,
        }
    } else {
        None
    }
}

/// The first next-page URL among the entries from `i` on.
pub open spec fn first_next_target(entries: Seq<Seq<char>>, i: int) -> Option<Seq<char>>
    decreases entries.len() - i,
{
    if i < 0 || i >= entries.len() {
        None
    } else if next_target(entries[i]) is Some {
        next_target(entries[i])
    } else {
        first_next_target(entries, i + 1)
    }
}

/// The next-page URL of a `Link` header.
pub open spec fn next_page_of(link: Option<Seq<char>>) -> Option<Seq<char>> {
    match link {
        Some(header) => first_next_target(parts(header, ','), 0),
        None => None,
    }
}

/// The URL of the next page, from a `Link` header such as
/// `<https://api.github.com/orgs/o/repos?page=2>; rel="next"`.
pub fn next_link(link: &Option<String>) -> (r: Option<String>)
    ensures
        opt_text(r) == next_page_of(opt_text(*link)),
{
    let header = match link {
        Some(h) => h,
        None => return None,
    };
    let entries = text::split(header.as_str(), ',');
    let ghost seen = texts(entries@);
    let mut i: usize = 0;
    while i < entries.len()
        invariant
            i <= entries@.len(),
            seen == texts(entries@),
            seen == parts(header@, ','),
            first_next_target(seen, 0) == first_next_target(seen, i as int),
            link == Some(*header),
        decreases entries@.len() - i,
    {
        let entry = entries[i].as_str();
        assert(seen[i as int] == entry@);
        if text::contains(entry, "rel=\"next\"") {
            if let Some((_, rest)) = text::split_once(entry, "<") {
                if let Some((url, _)) = text::split_once(rest, ">") {
                    return Some(url.to_owned());
                }
            }
        }
        i += 1;
    }
    None
}

/// Whether a `Link` header names a next page.
pub fn has_next(link: &Option<String>) -> (r: bool)
    ensures
        r == (next_page_of(opt_text(*link)) is Some),
{
    next_link(link).is_some()
}

// ---- laws -----------------------------------------------------------------

/// A `Link` header that names the next page is followed: whatever URL stands
/// between the angle brackets of an entry with `rel="next"`, it is the next
/// page, unless it holds a comma or an angle bracket.
pub proof fn law_linked_page_is_next(url: Seq<char>)
    requires
        forall|i: int| 0 <= i < url.len() ==> #[trigger] url[i] != ',' && url[i] != '<' && url[i] != '>',
    ensures
        next_page_of(Some("<"@ + url + ">; rel=\"next\""@)) == Some(url),
{
    let tail = ">; rel=\"next\""@;
    let header = "<"@ + url + tail;
    reveal_strlit("<");
    reveal_strlit(">");
    reveal_strlit(">; rel=\"next\"");
    reveal_strlit("rel=\"next\"");
    assert forall|i: int| 0 <= i < header.len() implies header[i] != ',' by {
        if 1 <= i < 1 + url.len() {
            assert(header[i] == url[i - 1]);
        } else if i >= 1 + url.len() {
            assert(header[i] == tail[i - 1 - url.len()]);
        }
    }
    text::lemma_no_char(header, ',');
    assert(parts(header, ',') =~= seq![header]);
    reveal_with_fuel(first_next_target, 2);
    let at = header.len() - 10;
    assert(header.subrange(at, at + 10) =~= "rel=\"next\""@);
    assert(text::occurs_at(header, "rel=\"next\""@, at));
    assert(header.subrange(0, 1) =~= "<"@);
    assert(text::occurs_at(header, "<"@, 0));
    let rest = url + tail;
    assert(header.skip(1) =~= rest);
    assert(cut_once(header, "<"@) == Some((header.take(0), header.skip(1))));
    assert forall|i: int| 0 <= i < url.len() implies !text::occurs_at(rest, ">"@, i) by {
        if text::occurs_at(rest, ">"@, i) {
            assert(rest.subrange(i, i + 1)[0] == url[i]);
        }
    }
    let n = url.len() as int;
    assert(rest.subrange(n, n + 1) =~= ">"@);
    assert(text::occurs_at(rest, ">"@, url.len() as int));
    text::lemma_first_at(rest, ">"@, url.len() as int);
    assert(rest.take(url.len() as int) =~= url);
    assert(next_target(header) == Some(url));
    assert(seq![header][0] == header);
}

/// Only what is linked is followed: without a `Link` header, or without an
/// entry that says `rel="next"`, there is no next page, and the next page is
/// always a URL that stands in the header.
pub proof fn law_no_other_page_is_next(header: Seq<char>)
    ensures
        next_page_of(None) is None,
        next_page_of(Some(header)) is Some ==> exists|i: int|
            0 <= i < parts(header, ',').len() && has_substring(
                #[trigger] parts(header, ',')[i],
                "rel=\"next\""@,
            ),
{
    lemma_next_entry(parts(header, ','), 0);
}

/// A next page stands in an entry that says so.
proof fn lemma_next_entry(entries: Seq<Seq<char>>, i: int)
    requires
        0 <= i,
    ensures
        first_next_target(entries, i) is Some ==> exists|k: int|
            i <= k < entries.len() && has_substring(#[trigger] entries[k], "rel=\"next\""@),
    decreases entries.len() - i,
{
    if i < entries.len() && next_target(entries[i]) is None {
        lemma_next_entry(entries, i + 1);
    }
}

} // verus!
