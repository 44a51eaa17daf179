//! What the HTTP handlers decide and answer.
use vstd::prelude::*;

use crate::config::{copy_workspaces, provider_text, workspace_views, AuthProvider, Config, Workspace};
use crate::github::{RateLimit, Validation};
use crate::http::{asks_for, has_next, is_marked_read, is_success_code, next_page_of, opt_text, pair_texts, status_line, Request, RequestView, StatusCode, Target, TargetView};
use crate::models::WatchedRepo;
use crate::sync::dismiss::mark_path;
use crate::sync::engine::SyncStatus;
use crate::text;
use crate::text::{after_last, debug_text, decimal, has_substring, texts};

verus! {

broadcast use vstd::string::group_string_axioms;

// ---- errors ---------------------------------------------------------------

/// The body that reports an error.
pub fn error_body(message: &str) -> (r: String)
    ensures
        r@ == "{\"error\":"@ + debug_text(message@) + "}"@,
{
    "{\"error\":".to_owned().concat(text::quoted(message).as_str()).concat("}")
}

/// Passes on success, and turns any other status into an error.
pub fn ensure_success(status: StatusCode, what: &str) -> (r: Result<(), String>)
    ensures
        r is Ok <==> is_success_code(status@),
        r is Ok <==> 200 <= status@ < 300,
        r matches Err(m) ==> m@ == what@ + " returned "@ + status_line(status@),
{
    if status.is_success() {
        Ok(())
    } else {
        Err(what.to_owned().concat(" returned ").concat(status.text().as_str()))
    }
}

/// The name of the auth provider.
pub fn provider_name(provider: AuthProvider) -> (r: &'static str)
    ensures
        r@ == provider_text(provider),
{
    provider.name()
}

// ---- the state of the app -------------------------------------------------

/// The state of the credential.
#[derive(Debug, Clone)]
pub struct AuthState {
    pub provider: String,
    pub authenticated: bool,
    pub login: Option<String>,
    pub scopes: Vec<String>,
    pub missing: Vec<String>,
    pub ok: bool,
}

/// The state of the credential.
pub struct AuthStateView {
    pub provider: Seq<char>,
    pub authenticated: bool,
    pub login: Option<Seq<char>>,
    pub scopes: Seq<Seq<char>>,
    pub missing: Seq<Seq<char>>,
    pub ok: bool,
}

impl View for AuthState {
    type V = AuthStateView;

    open spec fn view(&self) -> AuthStateView {
        AuthStateView {
            provider: self.provider@,
            authenticated: self.authenticated,
            login: opt_text(self.login),
            scopes: texts(self.scopes@),
            missing: texts(self.missing@),
            ok: self.ok,
        }
    }
}

/// The state of the credential, given whether a token could be had and what
/// GitHub said of it.
pub open spec fn auth_view(
    provider: AuthProvider,
    authenticated: bool,
    validation: Option<Validation>,
) -> AuthStateView {
    AuthStateView {
        provider: provider_text(provider),
        authenticated,
        login: match validation {
            Some(v) => opt_text(v.login),
            None => None,
        },
        scopes: match validation {
            Some(v) => texts(v.scopes@),
            None => Seq::empty(),
        },
        missing: match validation {
            Some(v) => texts(v.missing@),
            None => Seq::empty(),
        },
        ok: validation matches Some(v) && v.ok,
    }
}

/// The state of the credential. `authenticated` tells whether a token could be
/// had, `validation` what GitHub said of it, if it was asked.
pub fn auth_state(
    provider: AuthProvider,
    authenticated: bool,
    validation: &Option<Validation>,
) -> (r: AuthState)
    ensures
        r@ == auth_view(provider, authenticated, *validation),
{
    let provider = provider_name(provider).to_owned();
    match validation {
        Some(v) => AuthState {
            provider,
            authenticated,
            login: v.login.clone(),
            scopes: text::copy_list(&v.scopes),
            missing: text::copy_list(&v.missing),
            ok: v.ok,
        },
        None => {
            let r = AuthState {
                provider,
                authenticated,
                login: None,
                scopes: Vec::new(),
                missing: Vec::new(),
                ok: false,
            };
            assert(texts(r.scopes@) =~= Seq::empty());
            assert(texts(r.missing@) =~= Seq::empty());
            r
        },
    }
}

/// Whether GitHub has to be asked what it says of the credential. What it said
/// once is not asked for again.
pub fn needs_validation(cached: &Option<Validation>) -> (r: bool)
    ensures
        r == (*cached is None),
{
    cached.is_none()
}

/// What is known of the credential after GitHub may have been asked. `fetched` is
/// absent when it was not asked or could not be reached; that is not remembered,
/// so that it is asked again.
pub fn after_validation(cached: Option<Validation>, fetched: Option<Validation>) -> (r: Option<
    Validation,
>)
    ensures
        r == (if cached is Some {
            cached
        } else {
            fetched
        }),
{
    match cached {
        Some(v) => Some(v),
        None => fetched,
    }
}

/// The state of the sync engine.
#[derive(Debug, Clone)]
pub struct SyncState {
    pub running: bool,
    pub last_sync: Option<String>,
    pub last_error: Option<String>,
    pub rate_limit: Option<RateLimit>,
}

/// The first of two texts that is there.
pub open spec fn first_of(a: Option<Seq<char>>, b: Option<Seq<char>>) -> Option<Seq<char>> {
    if a is Some {
        a
    } else {
        b
    }
}

/// Whether `r` is the state of the sync engine, given its status and the time of
/// the last pass that the cache remembers.
pub open spec fn is_sync_state(r: SyncState, status: SyncStatus, stored: Option<String>) -> bool {
    &&& r.running == status.running
    &&& opt_text(r.last_sync) == first_of(opt_text(status.last_sync), opt_text(stored))
    &&& opt_text(r.last_error) == opt_text(status.last_error)
    &&& r.rate_limit == status.rate_limit
}

/// The state of the sync engine. `stored` is the time of the last pass that the
/// cache remembers, from before the app was started.
pub fn sync_state(status: &SyncStatus, stored: Option<String>) -> (r: SyncState)
    ensures
        is_sync_state(r, *status, stored),
{
    let last_sync = match &status.last_sync {
        Some(t) => Some(t.clone()),
        None => stored,
    };
    let rate_limit = match &status.rate_limit {
        Some(l) => Some(*l),
        None => None,
    };
    SyncState {
        running: status.running,
        last_sync,
        last_error: status.last_error.clone(),
        rate_limit,
    }
}

/// The state of the app.
#[derive(Debug, Clone)]
pub struct StateResponse {
    pub version: String,
    pub workspaces: Vec<Workspace>,
    pub auth: AuthState,
    pub sync: SyncState,
}

/// The state of the app: its version, the configured workspaces, and the states
/// of the credential and of the sync engine.
pub fn state_response(
    version: &str,
    config: &Config,
    authenticated: bool,
    validation: &Option<Validation>,
    status: &SyncStatus,
    stored: Option<String>,
) -> (r: StateResponse)
    ensures
        r.version@ == version@,
        workspace_views(r.workspaces@) == workspace_views(config.workspaces@),
        r.auth@ == auth_view(config.github.auth_provider, authenticated, *validation),
        is_sync_state(r.sync, *status, stored),
{
    StateResponse {
        version: version.to_owned(),
        workspaces: copy_workspaces(&config.workspaces),
        auth: auth_state(config.github.auth_provider, authenticated, validation),
        sync: sync_state(status, stored),
    }
}

/// The progress of the sync engine.
#[derive(Debug, Clone)]
pub struct SyncStatusResponse {
    /// Whether the cache has been populated by at least one completed sync.
    pub populated: bool,
    pub running: bool,
    pub last_sync: Option<String>,
    pub last_error: Option<String>,
    /// Set when the cache was rebuilt (e.g. after a schema change).
    pub rebuild: Option<String>,
}

/// The progress of the sync engine. `stored` is the time of the last pass that
/// the cache remembers, `rebuild` when it was last rebuilt.
pub fn sync_status_response(
    status: &SyncStatus,
    stored: &Option<String>,
    rebuild: Option<String>,
) -> (r: SyncStatusResponse)
    ensures
        r.populated == (status.last_sync is Some || *stored is Some),
        r.running == status.running,
        opt_text(r.last_sync) == opt_text(status.last_sync),
        opt_text(r.last_error) == opt_text(status.last_error),
        r.rebuild == rebuild,
{
    SyncStatusResponse {
        populated: status.last_sync.is_some() || stored.is_some(),
        running: status.running,
        last_sync: status.last_sync.clone(),
        last_error: status.last_error.clone(),
        rebuild,
    }
}

// ---- marking threads read -------------------------------------------------

/// What a request to mark threads read asks for.
#[derive(Debug, Clone)]
pub enum MarkRequest {
    /// Every thread of the given repos.
    All(Vec<String>),
    /// The threads with the given ids.
    Ids(Vec<String>),
}

/// What a request to mark threads read asks for: every thread of the workspace,
/// or the listed ones.
pub fn mark_request(all: Option<bool>, ids: Option<Vec<String>>, workspace: &Workspace) -> (r:
    MarkRequest)
    ensures
        match r {
            MarkRequest::All(repos) => all == Some(true) && texts(repos@)
                == workspace@.tracked_list(),
            MarkRequest::Ids(list) => all != Some(true) && (match ids {
                Some(v) => list@ == v@,
                None => list@.len() == 0,
            }),
        },
{
    let everything = match all {
        Some(b) => b,
        None => false,
    };
    if everything {
        return MarkRequest::All(workspace.tracked_repos());
    }
    match ids {
        Some(list) => MarkRequest::Ids(list),
        None => MarkRequest::Ids(Vec::new()),
    }
}

/// Adds the ids of threads, given with their API URLs, to a list.
pub fn push_thread_ids(ids: &mut Vec<String>, threads: Vec<(String, String)>)
    ensures
        texts(final(ids)@) == texts(old(ids)@) + pair_texts(threads@).map_values(
            |p: (Seq<char>, Seq<char>)| p.0,
        ),
{
    let ghost start = texts(ids@);
    let ghost all = threads@;
    let ghost firsts = pair_texts(all).map_values(|p: (Seq<char>, Seq<char>)| p.0);
    assert(start + firsts.take(0) =~= start);
    for thread in it: threads.into_iter()
        invariant
            it.seq() == all,
            firsts == pair_texts(all).map_values(|p: (Seq<char>, Seq<char>)| p.0),
            texts(ids@) == start + firsts.take(it.index() as int),
    {
        let ghost before = ids@;
        let (id, _) = thread;
        assert(firsts[it.index() as int] == id@);
        ids.push(id);
        assert(texts(ids@) =~= texts(before).push(id@));
        assert(start + firsts.take(it.index() + 1) =~= (start + firsts.take(it.index() as int)).push(
            id@,
        ));
    }
    assert(firsts.take(firsts.len() as int) =~= firsts);
}

/// What a pass that marks threads read waits for.
#[derive(Debug, Clone, Copy, PartialEq, Eq, Structural)]
pub enum MarkWaiting {
    /// The API URL of the current thread.
    Url,
    /// GitHub's answer for the current thread.
    Answer,
}

/// A pass that marks threads read on GitHub and locally.
pub struct MarkPass {
    ids: Vec<String>,
    at: usize,
    waiting: MarkWaiting,
    count: usize,
}

/// The state of a pass.
pub struct MarkPassView {
    pub ids: Seq<Seq<char>>,
    /// The current thread.
    pub at: int,
    pub waiting: MarkWaiting,
    /// How many threads have been marked.
    pub count: int,
}

impl View for MarkPass {
    type V = MarkPassView;

    closed spec fn view(&self) -> MarkPassView {
        MarkPassView {
            ids: texts(self.ids@),
            at: self.at as int,
            waiting: self.waiting,
            count: self.count as int,
        }
    }
}

impl MarkPassView {
    /// A pass that has not begun.
    pub open spec fn start(ids: Seq<Seq<char>>) -> MarkPassView {
        MarkPassView { ids, at: 0, waiting: MarkWaiting::Url, count: 0 }
    }

    /// The current thread, until the pass is over.
    pub open spec fn current(self) -> Option<Seq<char>> {
        if 0 <= self.at < self.ids.len() {
            Some(self.ids[self.at])
        } else {
            None
        }
    }

    /// The pass with the next thread as the current one.
    pub open spec fn skipped(self) -> MarkPassView {
        MarkPassView { at: self.at + 1, waiting: MarkWaiting::Url, ..self }
    }

    /// The pass after the API URL of the current thread has been looked up. A
    /// thread that the cache does not know is skipped.
    pub open spec fn located(self, known: bool) -> MarkPassView {
        if self.current() is None || self.waiting != MarkWaiting::Url {
            self
        } else if known {
            MarkPassView { waiting: MarkWaiting::Answer, ..self }
        } else {
            self.skipped()
        }
    }

    /// The pass after GitHub's answer for the current thread.
    pub open spec fn answered(self, status: u16) -> MarkPassView {
        if self.current() is None || self.waiting != MarkWaiting::Answer {
            self
        } else if is_marked_read(status) {
            MarkPassView { count: self.count + 1, ..self.skipped() }
        } else {
            self.skipped()
        }
    }
}

impl MarkPass {
    #[verifier::type_invariant]
    spec fn counts_up(self) -> bool {
        self.count <= self.at <= self.ids@.len()
    }

    /// A pass over threads.
    pub fn new(ids: Vec<String>) -> (r: MarkPass)
        ensures
            r@ == MarkPassView::start(texts(ids@)),
    {
        MarkPass { ids, at: 0, waiting: MarkWaiting::Url, count: 0 }
    }

    /// The current thread, whose API URL is to be looked up, until the pass is
    /// over.
    pub fn current(&self) -> (r: Option<&str>)
        ensures
            match r {
                Some(id) => self@.current() == Some(id@),
                None => self@.current() is None,
            },
    {
        if self.at < self.ids.len() {
            assert(texts(self.ids@)[self.at as int] == self.ids@[self.at as int]@);
            Some(self.ids[self.at].as_str())
        } else {
            None
        }
    }

    /// Takes the API URL of the current thread. The result is the path to
    /// `PATCH`.
    pub fn on_url(&mut self, api_url: &Option<String>) -> (r: Option<String>)
        ensures
            final(self)@ == old(self)@.located(*api_url is Some),
            opt_text(r) == (match *api_url {
                Some(url) => if old(self)@.current() is Some && old(self)@.waiting
                    == MarkWaiting::Url {
                    Some(mark_path(url@))
                } else {
                    None
                },
                None => None,
            }),
            r matches Some(path) ==> *api_url is Some && path@ == "/notifications/threads/"@
                + after_last((api_url->0)@, '/'),
    {
        proof {
            use_type_invariant(&*self);
        }
        let waits = match self.waiting {
            MarkWaiting::Url => true,
            _ => false,
        };
        if self.at >= self.ids.len() || !waits {
            return None;
        }
        match api_url {
            Some(url) => {
                self.waiting = MarkWaiting::Answer;
                Some(
                    "/notifications/threads/".to_owned().concat(
                        text::last_segment(url.as_str(), '/'),
                    ),
                )
            },
            None => {
                self.at = self.at + 1;
                None
            },
        }
    }

    /// Takes GitHub's answer for the current thread. The result is the thread
    /// to mark read locally.
    pub fn on_status(&mut self, status: StatusCode) -> (r: Option<String>)
        ensures
            final(self)@ == old(self)@.answered(status@),
            opt_text(r) == (if old(self)@.waiting == MarkWaiting::Answer && is_marked_read(
                status@,
            ) {
                old(self)@.current()
            } else {
                None
            }),
            r is Some ==> status@ == 200 || status@ == 204 || status@ == 205,
            r is Some ==> final(self)@.count == old(self)@.count + 1,
            r is None ==> final(self)@.count == old(self)@.count,
    {
        proof {
            use_type_invariant(&*self);
        }
        let waits = match self.waiting {
            MarkWaiting::Answer => true,
            _ => false,
        };
        if self.at >= self.ids.len() || !waits {
            return None;
        }
        assert(texts(self.ids@)[self.at as int] == self.ids@[self.at as int]@);
        let id = self.ids[self.at].clone();
        self.at = self.at + 1;
        self.waiting = MarkWaiting::Url;
        if status.marked_read() {
            self.count = self.count + 1;
            Some(id)
        } else {
            None
        }
    }

    /// How many threads have been marked.
    pub fn count(&self) -> (r: usize)
        ensures
            r == self@.count,
            self@.count <= self@.ids.len(),
    {
        proof {
            use_type_invariant(&*self);
        }
        self.count
    }
}

// ---- subscriptions --------------------------------------------------------

/// The path by which a thread is muted.
pub fn mute_path(api_url: &str) -> (r: String)
    ensures
        r@ == "/notifications/threads/"@ + after_last(api_url@, '/') + "/subscription"@,
{
    "/notifications/threads/".to_owned().concat(text::last_segment(api_url, '/')).concat(
        "/subscription",
    )
}

/// The path by which a repo is watched or unwatched.
pub fn watch_path(owner: &str, repo: &str) -> (r: String)
    ensures
        r@ == "/user/subscriptions/"@ + owner@ + "/"@ + repo@,
{
    "/user/subscriptions/".to_owned().concat(owner).concat("/").concat(repo)
}

/// The full name of a repo.
pub fn full_name(owner: &str, repo: &str) -> (r: String)
    ensures
        r@ == owner@ + "/"@ + repo@,
{
    owner.to_owned().concat("/").concat(repo)
}

// ---- browsing an organization ---------------------------------------------

/// The page that is asked for: the first one, unless a later one is.
pub open spec fn page_number(page: Option<u32>) -> nat {
    match page {
        Some(n) => if n < 1 {
            1
        } else {
            n as nat
        },
        None => 1,
    }
}

/// The request for a page of an organization's repos.
pub fn org_repos_request(org: &str, page: Option<u32>) -> (r: Request)
    ensures
        r@ == (RequestView {
            target: TargetView::Path("/orgs/"@ + org@ + "/repos"@),
            query: seq![("per_page"@, "100"@), ("page"@, decimal(page_number(page)))],
            etag: None,
        }),
        asks_for(
            r@.query,
            "page"@,
            decimal(
                if page matches Some(n) && n >= 1 {
                    page->0 as nat
                } else {
                    1nat
                },
            ),
        ),
        asks_for(r@.query, "per_page"@, "100"@),
{
    proof {
        reveal_strlit("page");
        reveal_strlit("per_page");
        assert("page"@.len() != "per_page"@.len());
    }
    let n: u128 = match page {
        Some(n) => if n < 1 {
            1
        } else {
            n as u128
        },
        None => 1,
    };
    let mut query: Vec<(String, String)> = Vec::new();
    query.push(("per_page".to_owned(), "100".to_owned()));
    query.push(("page".to_owned(), text::decimal_text(n)));
    assert(pair_texts(query@) =~= seq![("per_page"@, "100"@), ("page"@, decimal(n as nat))]);
    let path = "/orgs/".to_owned().concat(org).concat("/repos");
    assert(pair_texts(query@)[0] == ("per_page"@, "100"@));
    assert(pair_texts(query@)[1] == ("page"@, decimal(n as nat)));
    Request { target: Target::Path(path), query, etag: None }
}

/// Whether a repo's name matches a search; an empty search matches all.
pub open spec fn name_matches(repo: WatchedRepo, q: Seq<char>) -> bool {
    q.len() == 0 || has_substring(repo.full_name@, q)
}

/// A page of an organization's repos.
#[derive(Debug, Clone)]
pub struct OrgReposResponse {
    pub repos: Vec<WatchedRepo>,
    pub has_more: bool,
}

/// The repos of a page that match a search, and whether there are more pages.
pub fn org_repos(repos: Vec<WatchedRepo>, q: &str, link: &Option<String>) -> (r: OrgReposResponse)
    ensures
        r.repos@ == repos@.filter(|w: WatchedRepo| name_matches(w, q@)),
        forall|w: WatchedRepo| #[trigger]
            r.repos@.contains(w) <==> repos@.contains(w) && (q@.len() == 0 || has_substring(
                w.full_name@,
                q@,
            )),
        r.has_more == (next_page_of(opt_text(*link)) is Some),
{
    let ghost all = repos@;
    let ghost pred = |w: WatchedRepo| name_matches(w, q@);
    let any = q.unicode_len() == 0;
    let mut kept: Vec<WatchedRepo> = Vec::new();
    assert(all.take(0).filter(pred) =~= Seq::empty());
    for repo in it: repos.into_iter()
        invariant
            it.seq() == all,
            pred == (|w: WatchedRepo| name_matches(w, q@)),
            any == (q@.len() == 0),
            kept@ == all.take(it.index() as int).filter(pred),
    {
        proof {
            let taken = all.take(it.index() as int);
            assert(all.take(it.index() + 1) =~= taken.push(repo));
            taken.lemma_filter_push(repo, pred);
        }
        if any || text::contains(repo.full_name.as_str(), q) {
            kept.push(repo);
        }
    }
    assert(all.take(all.len() as int) =~= all);
    proof {
        lemma_kept_members(all, pred);
    }
    OrgReposResponse { repos: kept, has_more: has_next(link) }
}

// ---- laws -----------------------------------------------------------------

/// A thread is marked read locally only after GitHub has done so: of all the
/// answers, only those that report success count.
pub proof fn law_only_marked_threads_count(st: MarkPassView, status: u16)
    requires
        st.answered(status).count != st.count,
    ensures
        is_marked_read(status),
        st.current() is Some,
        st.answered(status).count == st.count + 1,
        st.answered(status).at == st.at + 1,
{
}

/// What a filter keeps of a list is what fits it.
proof fn lemma_kept_members(repos: Seq<WatchedRepo>, pred: spec_fn(WatchedRepo) -> bool)
    ensures
        forall|w: WatchedRepo| #[trigger]
            repos.filter(pred).contains(w) <==> repos.contains(w) && pred(w),
{
    let left = repos.filter(pred);
    assert forall|w: WatchedRepo| #[trigger] left.contains(w) <==> repos.contains(w) && pred(w) by {
        if left.contains(w) {
            let i = choose|i: int| 0 <= i < left.len() && left[i] == w;
            repos.lemma_filter_pred(pred, i);
            repos.lemma_filter_contains_rev(pred, w);
        }
        if repos.contains(w) && pred(w) {
            let i = choose|i: int| 0 <= i < repos.len() && repos[i] == w;
            repos.lemma_filter_contains(pred, i);
        }
    }
}

/// How a pass that marks threads read goes on: a thread that the cache knows is
/// asked about, one that it does not know is skipped; whatever GitHub answers,
/// the pass goes on to the next thread, and counts the thread exactly when the
/// answer is 200, 204 or 205.
pub proof fn law_marking_goes_thread_by_thread(st: MarkPassView, known: bool, status: u16)
    requires
        0 <= st.at < st.ids.len(),
    ensures
        st.current() == Some(st.ids[st.at]),
        st.waiting == MarkWaiting::Url ==> {
            let after = st.located(known);
            &&& known ==> after.waiting == MarkWaiting::Answer && after.at == st.at
            &&& !known ==> after.waiting == MarkWaiting::Url && after.at == st.at + 1
            &&& after.ids == st.ids && after.count == st.count
        },
        st.waiting == MarkWaiting::Answer ==> {
            let after = st.answered(status);
            &&& after.at == st.at + 1 && after.waiting == MarkWaiting::Url && after.ids == st.ids
            &&& status == 200 || status == 204 || status == 205 ==> after.count == st.count + 1
            &&& status != 200 && status != 204 && status != 205 ==> after.count == st.count
        },
{
}

/// What the state of the app says of the credential is what GitHub said of it,
/// and nothing when GitHub was not asked.
pub proof fn law_credential_is_shown_as_validated(
    provider: AuthProvider,
    authenticated: bool,
    v: Validation,
)
    ensures
        ({
            let asked = auth_view(provider, authenticated, Some(v));
            let unasked = auth_view(provider, authenticated, None);
            &&& asked.login == opt_text(v.login) && asked.ok == v.ok
            &&& asked.scopes == texts(v.scopes@) && asked.missing == texts(v.missing@)
            &&& asked.authenticated == authenticated && unasked.authenticated == authenticated
            &&& unasked.login is None && !unasked.ok
            &&& unasked.scopes.len() == 0 && unasked.missing.len() == 0
            &&& provider is Pat ==> asked.provider == "pat"@ && unasked.provider == "pat"@
            &&& provider is GhToken ==> asked.provider == "gh-token"@ && unasked.provider
                == "gh-token"@
            &&& provider is OAuthDevice ==> asked.provider == "oauth-device"@ && unasked.provider
                == "oauth-device"@
        }),
{
}

/// The last pass of this run of the app comes before the one that the cache
/// remembers.
pub proof fn law_live_status_comes_first(r: SyncState, status: SyncStatus, stored: Option<String>)
    requires
        is_sync_state(r, status, stored),
    ensures
        status.last_sync matches Some(t) ==> opt_text(r.last_sync) == Some(t@),
        status.last_sync is None ==> opt_text(r.last_sync) == opt_text(stored),
        opt_text(r.last_error) == opt_text(status.last_error),
        r.running == status.running,
        r.rate_limit == status.rate_limit,
{
}

} // verus!
