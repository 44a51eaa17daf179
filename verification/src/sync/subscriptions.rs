//! Refreshing the subscription state of one tracked repository.
use vstd::prelude::*;

use crate::http::{opt_text, pair_texts, Head, Request, RequestView, Target, TargetView};
use crate::models::RepoSubscription;
use crate::sync::repos::names_repo;
use crate::text::has_substring;

verus! {

broadcast use vstd::string::group_string_axioms;

/// The authenticated user's subscription to a repository.
#[derive(Debug, Clone, Copy, PartialEq, Eq, Structural)]
pub enum SubscriptionState {
    Ignored,
    Watched,
    /// No explicit subscription: participating and @mentions.
    Participating,
}

/// The name of a state in the `subscription_state` column.
pub open spec fn state_name(state: SubscriptionState) -> Seq<char> {
    match state {
        SubscriptionState::Ignored => "ignored"@,
        SubscriptionState::Watched => "watched"@,
        SubscriptionState::Participating => "participating"@,
    }
}

/// The state that a subscription stands for.
pub open spec fn state_of(sub: RepoSubscription) -> SubscriptionState {
    if sub.ignored {
        SubscriptionState::Ignored
    } else if sub.subscribed {
        SubscriptionState::Watched
    } else {
        SubscriptionState::Participating
    }
}

impl SubscriptionState {
    /// The name of the state in the `subscription_state` column.
    pub fn name(&self) -> (r: &'static str)
        ensures
            r@ == state_name(*self),
            *self is Ignored ==> r@ == "ignored"@,
            *self is Watched ==> r@ == "watched"@,
            *self is Participating ==> r@ == "participating"@,
    {
        match self {
            SubscriptionState::Ignored => "ignored",
            SubscriptionState::Watched => "watched",
            SubscriptionState::Participating => "participating",
        }
    }

    /// The state that a subscription stands for.
    pub fn of(sub: &RepoSubscription) -> (r: SubscriptionState)
        ensures
            r == state_of(*sub),
            r is Ignored <==> sub.ignored,
            r is Watched <==> sub.subscribed && !sub.ignored,
    {
        if sub.ignored {
            SubscriptionState::Ignored
        } else if sub.subscribed {
            SubscriptionState::Watched
        } else {
            SubscriptionState::Participating
        }
    }
}

/// The request for a repository's subscription.
pub open spec fn subscription_request(full_name: Seq<char>, etag: Option<Seq<char>>) -> RequestView {
    RequestView {
        target: TargetView::Path("/repos/"@ + full_name + "/subscription"@),
        query: Seq::empty(),
        etag,
    }
}

/// The request for the subscription of `full_name`. There is none for a name
/// that names no repository, nor for a watched repository: the watched list
/// already knows it.
pub fn plan(full_name: &str, watched: bool, etag: Option<String>) -> (r: Option<Request>)
    ensures
        r is Some <==> has_substring(full_name@, "/"@) && !watched,
        r matches Some(q) ==> q@ == subscription_request(full_name@, opt_text(etag)),
        r matches Some(q) ==> (q.target matches Target::Path(path) && path@ == "/repos/"@
            + full_name@ + "/subscription"@) && q.query@.len() == 0 && opt_text(q.etag) == opt_text(
            etag,
        ),
{
    if !names_repo(full_name) || watched {
        return None;
    }
    let path = "/repos/".to_owned().concat(full_name).concat("/subscription");
    let query: Vec<(String, String)> = Vec::new();
    assert(pair_texts(query@) =~= Seq::empty());
    Some(Request { target: Target::Path(path), query, etag })
}

/// What an answer does to the cached state.
#[derive(Debug, Clone)]
pub enum SubscriptionChange {
    /// Only the time of the check is noted.
    Touch,
    /// The state is set, with the ETag of the answer.
    Store(SubscriptionState, Option<String>),
    /// The repository is skipped.
    Skip,
    Fail(String),
}

/// What an answer does to the cached state.
pub enum ChangeView {
    Touch,
    Store(SubscriptionState, Option<Seq<char>>),
    Skip,
    Fail(Seq<char>),
}

impl View for SubscriptionChange {
    type V = ChangeView;

    open spec fn view(&self) -> ChangeView {
        match self {
            SubscriptionChange::Touch => ChangeView::Touch,
            SubscriptionChange::Store(s, e) => ChangeView::Store(*s, opt_text(*e)),
            SubscriptionChange::Skip => ChangeView::Skip,
            SubscriptionChange::Fail(m) => ChangeView::Fail(m@),
        }
    }
}

/// What an answer with the given status does: an unchanged subscription is only
/// touched, a missing one means participating, and any other status but 200
/// skips the repository.
pub open spec fn change(
    full_name: Seq<char>,
    status: u16,
    etag: Option<Seq<char>>,
    sub: Option<RepoSubscription>,
) -> ChangeView {
    if status == 304 {
        ChangeView::Touch
    } else if status == 404 {
        ChangeView::Store(SubscriptionState::Participating, None)
    } else if status != 200 {
        ChangeView::Skip
    } else {
        match sub {
            Some(s) => ChangeView::Store(state_of(s), etag),
            None => ChangeView::Fail("parsing subscription for "@ + full_name),
        }
    }
}

/// The decision on an answer. `sub` is the parsed body, absent when the body
/// could not be parsed.
pub fn on_answer(full_name: &str, head: &Head, sub: Option<RepoSubscription>) -> (r:
    SubscriptionChange)
    ensures
        r@ == change(full_name@, head.status@, opt_text(head.etag), sub),
        r is Touch <==> head.status@ == 304,
        head.status@ == 404 ==> (r matches SubscriptionChange::Store(s, e) && s is Participating
            && e is None),
        head.status@ == 200 ==> (sub matches Some(b) ==> (r matches SubscriptionChange::Store(s, e)
            && (s is Ignored <==> b.ignored) && (s is Watched <==> b.subscribed && !b.ignored)
            && opt_text(e) == opt_text(head.etag))),
        head.status@ == 200 && sub is None ==> r is Fail,
        head.status@ != 304 && head.status@ != 404 && head.status@ != 200 ==> r is Skip,
{
    let status = head.status.as_u16();
    if status == 304 {
        SubscriptionChange::Touch
    } else if status == 404 {
        SubscriptionChange::Store(SubscriptionState::Participating, None)
    } else if status != 200 {
        SubscriptionChange::Skip
    } else {
        match sub {
            Some(s) => SubscriptionChange::Store(SubscriptionState::of(&s), head.etag.clone()),
            None => SubscriptionChange::Fail(
                "parsing subscription for ".to_owned().concat(full_name),
            ),
        }
    }
}

// ---- laws -----------------------------------------------------------------

/// What an answer says of a subscription: an ignored repository is ignored even
/// if it is subscribed to, a subscribed one is watched, and every other one, or
/// one without a subscription, is participated in. An unchanged answer changes
/// nothing, and an error skips the repository.
pub proof fn law_subscription_is_stored_as_it_is(
    full_name: Seq<char>,
    status: u16,
    etag: Option<Seq<char>>,
    sub: Option<RepoSubscription>,
)
    ensures
        status == 304 ==> change(full_name, status, etag, sub) is Touch,
        status == 404 ==> change(full_name, status, etag, sub) == ChangeView::Store(
            SubscriptionState::Participating,
            None,
        ),
        status == 200 ==> (sub matches Some(s) ==> (change(full_name, status, etag, sub) matches
            ChangeView::Store(state, e) && e == etag && (state is Ignored <==> s.ignored) && (
        state is Watched <==> s.subscribed && !s.ignored) && (state is Participating
            <==> !s.subscribed && !s.ignored))),
        status == 200 && sub is None ==> change(full_name, status, etag, sub) == ChangeView::Fail(
            "parsing subscription for "@ + full_name,
        ),
        status != 304 && status != 404 && status != 200 ==> change(full_name, status, etag, sub)
            is Skip,
{
}

/// The states are stored under different names.
pub proof fn law_states_have_their_names(state: SubscriptionState)
    ensures
        state is Ignored <==> state_name(state) == "ignored"@,
        state is Watched <==> state_name(state) == "watched"@,
        state is Participating <==> state_name(state) == "participating"@,
{
    reveal_strlit("ignored");
    reveal_strlit("watched");
    reveal_strlit("participating");
    assert("ignored"@[0] != "watched"@[0]);
    assert("participating"@.len() != "watched"@.len());
    assert("participating"@.len() != "ignored"@.len());
}

} // verus!
