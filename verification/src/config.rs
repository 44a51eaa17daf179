//! The configuration: credentials, intervals, and workspaces with their
//! explicit lists of repositories.
use vstd::prelude::*;

use crate::http::opt_text;
use crate::text;
use crate::text::{lemma_text_lt_asym, lemma_text_lt_total, lemma_text_lt_trans, parsed_number, text_lt, texts};

verus! {

broadcast use vstd::string::group_string_axioms;

/// The default configuration file name used within the config directory.
pub const CONFIG_FILE_NAME: &'static str = "config.toml";

/// The name of the application's own directories.
pub const APP_DIR_NAME: &'static str = "github-notifications";

/// The auth provider used to obtain GitHub API credentials.
#[derive(Debug, Clone, Copy, PartialEq, Eq, Structural)]
pub enum AuthProvider {
    /// A classic personal access token configured in `[github] auth_token` or
    /// the `GITHUB_TOKEN` environment variable.
    Pat,
    /// Reuse the token managed by the GitHub CLI (`gh auth token`).
    GhToken,
    /// OAuth device flow using a registered OAuth app (`[github] oauth_client_id`).
    OAuthDevice,
}

impl Default for AuthProvider {
    fn default() -> (r: AuthProvider)
        ensures
            r == AuthProvider::Pat,
    {
        AuthProvider::Pat
    }
}

/// The name of a provider in the config file and in the UI.
pub open spec fn provider_text(provider: AuthProvider) -> Seq<char> {
    match provider {
        AuthProvider::Pat => "pat"@,
        AuthProvider::GhToken => "gh-token"@,
        AuthProvider::OAuthDevice => "oauth-device"@,
    }
}

impl AuthProvider {
    /// The name of the provider in the config file and in the UI.
    pub fn name(&self) -> (r: &'static str)
        ensures
            r@ == provider_text(*self),
            *self is Pat ==> r@ == "pat"@,
            *self is GhToken ==> r@ == "gh-token"@,
            *self is OAuthDevice ==> r@ == "oauth-device"@,
    {
        match self {
            AuthProvider::Pat => "pat",
            AuthProvider::GhToken => "gh-token",
            AuthProvider::OAuthDevice => "oauth-device",
        }
    }
}

/// How often notifications are polled by default, in seconds.
pub const DEFAULT_POLL_INTERVAL: u64 = 300;

/// How often issues and pull requests are refreshed by default, in seconds.
pub const DEFAULT_REPO_REFRESH_INTERVAL: u64 = 600;

/// How many repositories are fetched at a time by default.
pub const DEFAULT_SYNC_CONCURRENCY: usize = 4;

/// The `[github]` section.
#[derive(Debug, Clone)]
pub struct GithubConfig {
    pub auth_provider: AuthProvider,
    pub auth_token: String,
    pub oauth_client_id: String,
    pub poll_interval_seconds: u64,
    pub repo_refresh_interval_seconds: u64,
    pub sync_concurrency: usize,
}

impl Default for GithubConfig {
    fn default() -> (r: GithubConfig)
        ensures
            r.auth_provider == AuthProvider::Pat,
            r.auth_token@.len() == 0,
            r.oauth_client_id@.len() == 0,
            r.poll_interval_seconds == DEFAULT_POLL_INTERVAL,
            r.repo_refresh_interval_seconds == DEFAULT_REPO_REFRESH_INTERVAL,
            r.sync_concurrency == DEFAULT_SYNC_CONCURRENCY,
            r.poll_interval_seconds == 300,
            r.repo_refresh_interval_seconds == 600,
            r.sync_concurrency == 4,
    {
        GithubConfig {
            auth_provider: AuthProvider::Pat,
            auth_token: String::new(),
            oauth_client_id: String::new(),
            poll_interval_seconds: DEFAULT_POLL_INTERVAL,
            repo_refresh_interval_seconds: DEFAULT_REPO_REFRESH_INTERVAL,
            sync_concurrency: DEFAULT_SYNC_CONCURRENCY,
        }
    }
}

/// The seconds between polls that an `X-Poll-Interval` header asks for at least:
/// none when it is missing or is no number.
pub open spec fn asked_interval(header: Option<Seq<char>>) -> nat {
    match header {
        Some(h) => match parsed_number(h, u64::MAX as nat) {
            Some(n) => n,
            None => 0,
        },
        None => 0,
    }
}

impl GithubConfig {
    /// How many repositories are fetched at a time: at least one.
    pub fn effective_sync_concurrency(&self) -> (r: usize)
        ensures
            r == (if self.sync_concurrency == 0 {
                1
            } else {
                self.sync_concurrency
            }),
    {
        if self.sync_concurrency == 0 {
            1
        } else {
            self.sync_concurrency
        }
    }

    /// How often notifications are polled, in seconds: at most every half minute.
    pub fn effective_poll_interval(&self) -> (r: u64)
        ensures
            r == (if self.poll_interval_seconds < 30 {
                30
            } else {
                self.poll_interval_seconds
            }),
    {
        if self.poll_interval_seconds < 30 {
            30
        } else {
            self.poll_interval_seconds
        }
    }

    /// How often notifications are polled once GitHub has answered, in seconds.
    /// `header` is the `X-Poll-Interval` that the answer carried. It can only
    /// slow polling down.
    pub fn poll_interval_after(&self, header: &Option<String>) -> (r: u64)
        ensures
            r >= 30,
            r >= self.poll_interval_seconds,
            r >= asked_interval(opt_text(*header)),
            r == 30 || r == self.poll_interval_seconds || r == asked_interval(opt_text(*header)),
    {
        let own = self.effective_poll_interval();
        let asked: u64 = match header {
            Some(h) => match text::parse_number(h.as_str(), u64::MAX) {
                Some(n) => n,
                None => 0,
            },
            None => 0,
        };
        if asked > own {
            asked
        } else {
            own
        }
    }
}

/// A named, explicit list of repositories.
#[derive(Debug, Clone)]
pub struct RepoSet {
    pub name: String,
    pub repos: Vec<String>,
}

/// A named, explicit list of repositories.
pub struct RepoSetView {
    pub name: Seq<char>,
    pub repos: Seq<Seq<char>>,
}

impl View for RepoSet {
    type V = RepoSetView;

    open spec fn view(&self) -> RepoSetView {
        RepoSetView { name: self.name@, repos: texts(self.repos@) }
    }
}

impl Default for RepoSet {
    fn default() -> (r: RepoSet)
        ensures
            r@ == (RepoSetView { name: Seq::empty(), repos: Seq::empty() }),
    {
        let r = RepoSet { name: String::new(), repos: Vec::new() };
        assert(r.name@ =~= Seq::empty());
        assert(texts(r.repos@) =~= Seq::empty());
        r
    }
}

impl RepoSet {
    /// A copy of the set.
    pub fn copy(&self) -> (r: RepoSet)
        ensures
            r@ == self@,
    {
        RepoSet { name: self.name.clone(), repos: text::copy_list(&self.repos) }
    }
}

/// A view of the tracked repositories, e.g. personal or work.
#[derive(Debug, Clone)]
pub struct Workspace {
    pub name: String,
    /// Whether threads of closed pull requests are dismissed on every sync.
    pub auto_dismiss_closed_merged: bool,
    pub repo_sets: Vec<RepoSet>,
}

/// A view of the tracked repositories.
pub struct WorkspaceView {
    pub name: Seq<char>,
    pub auto_dismiss: bool,
    pub repo_sets: Seq<RepoSetView>,
}

/// The contents of a list of repo sets.
pub open spec fn set_views(sets: Seq<RepoSet>) -> Seq<RepoSetView> {
    sets.map_values(|s: RepoSet| s@)
}

impl View for Workspace {
    type V = WorkspaceView;

    open spec fn view(&self) -> WorkspaceView {
        WorkspaceView {
            name: self.name@,
            auto_dismiss: self.auto_dismiss_closed_merged,
            repo_sets: set_views(self.repo_sets@),
        }
    }
}

/// The workspace shown when the config has no workspaces yet.
pub open spec fn empty_workspace() -> WorkspaceView {
    WorkspaceView { name: Seq::empty(), auto_dismiss: false, repo_sets: Seq::empty() }
}

impl Default for Workspace {
    fn default() -> (r: Workspace)
        ensures
            r@ == empty_workspace(),
    {
        let r = Workspace {
            name: String::new(),
            auto_dismiss_closed_merged: false,
            repo_sets: Vec::new(),
        };
        assert(r.name@ =~= Seq::empty());
        assert(set_views(r.repo_sets@) =~= Seq::empty());
        r
    }
}

/// Whether a list is strictly increasing: sorted, and without repetitions.
pub open spec fn increasing(list: Seq<Seq<char>>) -> bool {
    forall|i: int, j: int|
        #![trigger list[i], list[j]]
        0 <= i < j < list.len() ==> text_lt(list[i], list[j])
}

impl WorkspaceView {
    /// Whether a repository is listed in one of the repo sets.
    pub open spec fn tracks(self, repo: Seq<char>) -> bool {
        repo.len() > 0 && exists|i: int|
            0 <= i < self.repo_sets.len() && (#[trigger] self.repo_sets[i]).repos.contains(repo)
    }

    /// Whether a list holds the tracked repositories: exactly those, sorted and
    /// without repetitions.
    pub open spec fn is_tracked_list(self, list: Seq<Seq<char>>) -> bool {
        &&& increasing(list)
        &&& forall|repo: Seq<char>| #[trigger] list.contains(repo) <==> self.tracks(repo)
    }

    /// The tracked repositories, sorted and without repetitions.
    pub open spec fn tracked_list(self) -> Seq<Seq<char>> {
        choose|list: Seq<Seq<char>>| self.is_tracked_list(list)
    }

    /// The position of the first repo set with the given name.
    pub open spec fn find_set(self, name: Seq<char>) -> Option<int> {
        first_named(self.repo_sets, name, 0)
    }
}

/// The position, from `i` on, of the first repo set with the given name.
pub open spec fn first_named(sets: Seq<RepoSetView>, name: Seq<char>, i: int) -> Option<int>
    decreases sets.len() - i,
{
    if i < 0 || i >= sets.len() {
        None
    } else if sets[i].name == name {
        Some(i)
    } else {
        first_named(sets, name, i + 1)
    }
}

/// Puts a text in its place in a strictly increasing list, unless it is there.
fn insert_sorted(list: &mut Vec<String>, s: &String)
    requires
        increasing(texts(old(list)@)),
    ensures
        increasing(texts(final(list)@)),
        forall|t: Seq<char>| #[trigger]
            texts(final(list)@).contains(t) <==> texts(old(list)@).contains(t) || t == s@,
{
    let ghost before = texts(list@);
    let mut i: usize = 0;
    while i < list.len() && text::str_lt(list[i].as_str(), s.as_str())
        invariant
            i <= list@.len(),
            before == texts(list@),
            increasing(before),
            forall|j: int| 0 <= j < i ==> text_lt(#[trigger] before[j], s@),
        decreases list@.len() - i,
    {
        assert(before[i as int] == list@[i as int]@);
        i += 1;
    }
    if i < list.len() && text::str_eq(list[i].as_str(), s.as_str()) {
        assert(before[i as int] == s@);
        return ;
    }
    list.insert(i, s.clone());
    let ghost after = texts(list@);
    proof {
        assert(after =~= before.insert(i as int, s@));
        assert forall|t: Seq<char>| #[trigger] after.contains(t) <==> before.contains(t) || t
            == s@ by {
            if before.contains(t) {
                let k = choose|k: int| 0 <= k < before.len() && before[k] == t;
                if k < i {
                    assert(after[k] == t);
                } else {
                    assert(after[k + 1] == t);
                }
            }
            if t == s@ {
                assert(after[i as int] == t);
            }
            if after.contains(t) {
                let k = choose|k: int| 0 <= k < after.len() && after[k] == t;
                if k < i {
                    assert(before[k] == t);
                } else if k > i {
                    assert(before[k - 1] == t);
                }
            }
        }
        assert forall|a: int, b: int|
            #![trigger after[a], after[b]]
            0 <= a < b < after.len() implies text_lt(after[a], after[b]) by {
            if i < before.len() {
                lemma_text_lt_total(before[i as int], s@);
                if a == i {
                    assert(after[b] == before[b - 1]);
                    if b - 1 > i {
                        lemma_text_lt_trans(s@, before[i as int], before[b - 1]);
                    }
                }
            }
            if a < i && b < i {
                assert(after[a] == before[a] && after[b] == before[b]);
            } else if a < i && b > i {
                assert(after[a] == before[a] && after[b] == before[b - 1]);
            } else if a > i {
                assert(after[a] == before[a - 1] && after[b] == before[b - 1]);
            }
        }
    }
}

impl Workspace {
    /// A copy of the workspace.
    pub fn copy(&self) -> (r: Workspace)
        ensures
            r@ == self@,
    {
        let mut repo_sets: Vec<RepoSet> = Vec::new();
        let mut i: usize = 0;
        while i < self.repo_sets.len()
            invariant
                i <= self.repo_sets@.len(),
                set_views(repo_sets@) =~= set_views(self.repo_sets@).take(i as int),
            decreases self.repo_sets@.len() - i,
        {
            let ghost before = repo_sets@;
            let set = self.repo_sets[i].copy();
            repo_sets.push(set);
            assert(set_views(repo_sets@) =~= set_views(before).push(set@));
            assert(set_views(self.repo_sets@)[i as int] == set@);
            i += 1;
        }
        assert(set_views(repo_sets@) =~= set_views(self.repo_sets@));
        Workspace {
            name: self.name.clone(),
            auto_dismiss_closed_merged: self.auto_dismiss_closed_merged,
            repo_sets,
        }
    }

    /// All repos across this workspace's repo sets, deduplicated and sorted.
    pub fn tracked_repos(&self) -> (r: Vec<String>)
        ensures
            texts(r@) == self@.tracked_list(),
            self@.is_tracked_list(texts(r@)),
            forall|repo: Seq<char>| #[trigger]
                texts(r@).contains(repo) <==> repo.len() > 0 && exists|i: int|
                    0 <= i < self@.repo_sets.len() && (
                    #[trigger] self@.repo_sets[i]).repos.contains(repo),
            forall|i: int, j: int|
                #![trigger texts(r@)[i], texts(r@)[j]]
                0 <= i < j < r@.len() ==> text_lt(texts(r@)[i], texts(r@)[j]),
    {
        let mut list: Vec<String> = Vec::new();
        let ghost sets = self@.repo_sets;
        let mut i: usize = 0;
        while i < self.repo_sets.len()
            invariant
                i <= self.repo_sets@.len(),
                sets == set_views(self.repo_sets@),
                increasing(texts(list@)),
                forall|t: Seq<char>| #[trigger]
                    texts(list@).contains(t) <==> t.len() > 0 && exists|k: int|
                        0 <= k < i && (#[trigger] sets[k]).repos.contains(t),
            decreases self.repo_sets@.len() - i,
        {
            let repos = &self.repo_sets[i].repos;
            let ghost names = texts(repos@);
            assert(sets[i as int].repos == names);
            let ghost before = texts(list@);
            let mut j: usize = 0;
            while j < repos.len()
                invariant
                    j <= repos@.len(),
                    names == texts(repos@),
                    increasing(texts(list@)),
                    forall|t: Seq<char>| #[trigger]
                        texts(list@).contains(t) <==> before.contains(t) || (t.len() > 0
                            && exists|m: int| 0 <= m < j && #[trigger] names[m] == t),
                decreases repos@.len() - j,
            {
                let ghost so_far = texts(list@);
                assert(names[j as int] == repos@[j as int]@);
                if repos[j].as_str().unicode_len() > 0 {
                    insert_sorted(&mut list, &repos[j]);
                }
                assert forall|t: Seq<char>| #[trigger] texts(list@).contains(t) <==> before.contains(
                    t,
                ) || (t.len() > 0 && exists|m: int| 0 <= m < j + 1 && #[trigger] names[m] == t) by {
                    assert(so_far.contains(t) <==> before.contains(t) || (t.len() > 0 && exists|
                        m: int,
                    |
                        0 <= m < j && #[trigger] names[m] == t));
                }
                j += 1;
            }
            assert forall|t: Seq<char>| #[trigger] texts(list@).contains(t) <==> t.len() > 0
                && exists|k: int| 0 <= k < i + 1 && (#[trigger] sets[k]).repos.contains(t) by {
                assert(before.contains(t) <==> t.len() > 0 && exists|k: int|
                    0 <= k < i && (#[trigger] sets[k]).repos.contains(t));
                if t.len() > 0 && names.contains(t) {
                    let m = choose|m: int| 0 <= m < names.len() && names[m] == t;
                    assert(names[m] == t);
                    assert(sets[i as int].repos.contains(t));
                }
                if t.len() > 0 && exists|m: int| 0 <= m < names.len() && #[trigger] names[m] == t {
                    assert(names.contains(t));
                    assert(sets[i as int].repos.contains(t));
                }
            }
            i += 1;
        }
        proof {
            law_tracked_list_is_unique(self@, self@, texts(list@), self@.tracked_list());
        }
        list
    }

    /// The position of the first repo set with the given name.
    pub fn find_set(&self, name: &str) -> (r: Option<usize>)
        ensures
            match r {
                Some(i) => self@.find_set(name@) == Some(i as int) && i < self.repo_sets@.len(),
                None => self@.find_set(name@) is None,
            },
    {
        let ghost sets = self@.repo_sets;
        let mut i: usize = 0;
        while i < self.repo_sets.len()
            invariant
                i <= self.repo_sets@.len(),
                sets == set_views(self.repo_sets@),
                first_named(sets, name@, 0) == first_named(sets, name@, i as int),
            decreases self.repo_sets@.len() - i,
        {
            assert(sets[i as int] == self.repo_sets@[i as int]@);
            if text::str_eq(self.repo_sets[i].name.as_str(), name) {
                return Some(i);
            }
            i += 1;
        }
        None
    }

    /// The repos of the repo set with the given name, as they are listed.
    pub fn repo_set_repos(&self, name: &str) -> (r: Option<Vec<String>>)
        ensures
            match self@.find_set(name@) {
                Some(i) => r matches Some(list) && texts(list@) == self@.repo_sets[i].repos,
                None => r is None,
            },
    {
        match self.find_set(name) {
            Some(i) => {
                assert(self@.repo_sets[i as int] == self.repo_sets@[i as int]@);
                Some(text::copy_list(&self.repo_sets[i].repos))
            },
            None => None,
        }
    }
}

/// The whole configuration.
#[derive(Debug, Clone)]
pub struct Config {
    pub github: GithubConfig,
    pub workspaces: Vec<Workspace>,
}

/// The contents of a list of workspaces.
pub open spec fn workspace_views(list: Seq<Workspace>) -> Seq<WorkspaceView> {
    list.map_values(|w: Workspace| w@)
}

/// A copy of a list of workspaces.
pub fn copy_workspaces(list: &Vec<Workspace>) -> (r: Vec<Workspace>)
    ensures
        workspace_views(r@) == workspace_views(list@),
{
    let mut out: Vec<Workspace> = Vec::new();
    let mut i: usize = 0;
    while i < list.len()
        invariant
            i <= list@.len(),
            workspace_views(out@) =~= workspace_views(list@).take(i as int),
        decreases list@.len() - i,
    {
        let ghost before = out@;
        let workspace = list[i].copy();
        out.push(workspace);
        assert(workspace_views(out@) =~= workspace_views(before).push(workspace@));
        assert(workspace_views(list@)[i as int] == workspace@);
        i += 1;
    }
    assert(workspace_views(out@) =~= workspace_views(list@));
    out
}

impl Default for Config {
    fn default() -> (r: Config)
        ensures
            r.github.auth_provider == AuthProvider::Pat,
            r.github.auth_token@.len() == 0,
            r.github.oauth_client_id@.len() == 0,
            r.github.poll_interval_seconds == DEFAULT_POLL_INTERVAL,
            r.github.repo_refresh_interval_seconds == DEFAULT_REPO_REFRESH_INTERVAL,
            r.github.sync_concurrency == DEFAULT_SYNC_CONCURRENCY,
            r.workspaces@.len() == 0,
    {
        Config { github: GithubConfig::default(), workspaces: Vec::new() }
    }
}

/// The position, from `i` on, of the first workspace with the given name.
pub open spec fn first_workspace(list: Seq<WorkspaceView>, name: Seq<char>, i: int) -> Option<int>
    decreases list.len() - i,
{
    if i < 0 || i >= list.len() {
        None
    } else if list[i].name == name {
        Some(i)
    } else {
        first_workspace(list, name, i + 1)
    }
}

/// The workspace that a name stands for: the one of that name, or else the
/// first, or else an empty one.
pub open spec fn resolved(list: Seq<WorkspaceView>, name: Seq<char>) -> WorkspaceView {
    match first_workspace(list, name, 0) {
        Some(i) => list[i],
        None => if list.len() > 0 {
            list[0]
        } else {
            empty_workspace()
        },
    }
}

impl Config {
    /// The effective GitHub API token: the configured one, or else the value of
    /// the `GITHUB_TOKEN` environment variable. Empty when there is neither.
    pub fn effective_token(&self, env_token: Option<String>) -> (r: String)
        ensures
            r@ == (if self.github.auth_token@.len() > 0 {
                self.github.auth_token@
            } else {
                match env_token {
                    Some(t) => t@,
                    None => Seq::empty(),
                }
            }),
    {
        if self.github.auth_token.as_str().unicode_len() > 0 {
            self.github.auth_token.clone()
        } else {
            match env_token {
                Some(t) => t,
                None => {
                    let empty = String::new();
                    assert(empty@ =~= Seq::empty());
                    empty
                },
            }
        }
    }

    /// Whether the file that the config is saved to holds a token, and so has
    /// its permissions locked down.
    pub fn holds_token(&self) -> (r: bool)
        ensures
            r == (self.github.auth_token@.len() > 0),
    {
        self.github.auth_token.as_str().unicode_len() > 0
    }

    /// The name of the first workspace, or an empty name.
    pub fn first_name(&self) -> (r: String)
        ensures
            r@ == (if self.workspaces@.len() > 0 {
                self.workspaces@[0].name@
            } else {
                Seq::empty()
            }),
    {
        if self.workspaces.len() > 0 {
            self.workspaces[0].name.clone()
        } else {
            let empty = String::new();
            assert(empty@ =~= Seq::empty());
            empty
        }
    }

    /// The position of the first workspace with the given name.
    fn find_workspace(&self, name: &str) -> (r: Option<usize>)
        ensures
            match r {
                Some(i) => first_workspace(workspace_views(self.workspaces@), name@, 0) == Some(
                    i as int,
                ) && i < self.workspaces@.len(),
                None => first_workspace(workspace_views(self.workspaces@), name@, 0) is None,
            },
    {
        let ghost list = workspace_views(self.workspaces@);
        let mut i: usize = 0;
        while i < self.workspaces.len()
            invariant
                i <= self.workspaces@.len(),
                list == workspace_views(self.workspaces@),
                first_workspace(list, name@, 0) == first_workspace(list, name@, i as int),
            decreases self.workspaces@.len() - i,
        {
            assert(list[i as int] == self.workspaces@[i as int]@);
            if text::str_eq(self.workspaces[i].name.as_str(), name) {
                return Some(i);
            }
            i += 1;
        }
        None
    }
}

/// Resolve the workspace named `name`, falling back to the first configured
/// workspace, or an empty workspace when none exist.
pub fn resolve_workspace(config: &Config, name: &str) -> (r: Workspace)
    ensures
        r@ == resolved(workspace_views(config.workspaces@), name@),
{
    let ghost list = workspace_views(config.workspaces@);
    if let Some(i) = config.find_workspace(name) {
        assert(list[i as int] == config.workspaces@[i as int]@);
        return config.workspaces[i].copy();
    }
    if config.workspaces.len() > 0 {
        assert(list[0] == config.workspaces@[0]@);
        return config.workspaces[0].copy();
    }
    Workspace::default()
}

// ---- editing repo sets ----------------------------------------------------

/// Why an edit of the configuration was refused.
#[derive(Debug, Clone)]
pub enum ConfigError {
    /// There is no workspace of that name.
    NoWorkspace(String),
    /// There is no repo set of that name.
    NoRepoSet(String),
}

impl ConfigError {
    /// The message of the error.
    pub fn message(&self) -> (r: String)
        ensures
            r@ == match *self {
                ConfigError::NoWorkspace(n) => "no workspace named "@ + n@,
                ConfigError::NoRepoSet(n) => "no repo set named "@ + n@,
            },
    {
        match self {
            ConfigError::NoWorkspace(n) => "no workspace named ".to_owned().concat(n.as_str()),
            ConfigError::NoRepoSet(n) => "no repo set named ".to_owned().concat(n.as_str()),
        }
    }
}

/// Whether an edit was refused because a workspace is missing.
pub open spec fn is_no_workspace(r: Result<(), ConfigError>, name: Seq<char>) -> bool {
    r matches Err(ConfigError::NoWorkspace(n)) && n@ == name
}

/// Whether an edit was refused because a repo set is missing.
pub open spec fn is_no_repo_set(r: Result<(), ConfigError>, name: Seq<char>) -> bool {
    r matches Err(ConfigError::NoRepoSet(n)) && n@ == name
}

/// The texts other than one.
pub open spec fn other_than(s: Seq<char>) -> spec_fn(Seq<char>) -> bool {
    |t: Seq<char>| t != s
}

impl WorkspaceView {
    /// The workspace with a repo set added: in place of the first of the same
    /// name, or else at the end.
    pub open spec fn with_set(self, set: RepoSetView) -> WorkspaceView {
        WorkspaceView {
            repo_sets: match self.find_set(set.name) {
                Some(k) => self.repo_sets.update(k, set),
                None => self.repo_sets.push(set),
            },
            ..self
        }
    }

    /// The workspace without its `k`-th repo set.
    pub open spec fn without_set(self, k: int) -> WorkspaceView {
        WorkspaceView { repo_sets: self.repo_sets.remove(k), ..self }
    }

    /// The workspace with a repository taken out of its `k`-th repo set.
    pub open spec fn without_repo(self, k: int, repo: Seq<char>) -> WorkspaceView {
        let set = self.repo_sets[k];
        let left = RepoSetView { repos: set.repos.filter(other_than(repo)), ..set };
        WorkspaceView { repo_sets: self.repo_sets.update(k, left), ..self }
    }
}

/// The texts of a list but for one.
fn without_text(list: &Vec<String>, s: &str) -> (r: Vec<String>)
    ensures
        texts(r@) == texts(list@).filter(other_than(s@)),
{
    let ghost all = texts(list@);
    let ghost pred = other_than(s@);
    let mut out: Vec<String> = Vec::new();
    assert(texts(out@) =~= all.take(0).filter(pred));
    let mut i: usize = 0;
    while i < list.len()
        invariant
            i <= list@.len(),
            all == texts(list@),
            pred == other_than(s@),
            texts(out@) == all.take(i as int).filter(pred),
        decreases list@.len() - i,
    {
        let ghost before = out@;
        let ghost taken = all.take(i as int);
        proof {
            assert(all[i as int] == list@[i as int]@);
            assert(all.take(i + 1) =~= taken.push(all[i as int]));
            taken.lemma_filter_push(all[i as int], pred);
        }
        if !text::str_eq(list[i].as_str(), s) {
            out.push(list[i].clone());
            assert(texts(out@) =~= texts(before).push(all[i as int]));
        }
        i += 1;
    }
    assert(all.take(all.len() as int) =~= all);
    out
}

impl Config {
    /// Replaces the `i`-th workspace.
    fn put_workspace(&mut self, i: usize, ws: Workspace)
        requires
            i < old(self).workspaces@.len(),
        ensures
            final(self).github == old(self).github,
            workspace_views(final(self).workspaces@) == workspace_views(
                old(self).workspaces@,
            ).update(i as int, ws@),
    {
        let ghost before = self.workspaces@;
        self.workspaces.set(i, ws);
        assert(workspace_views(self.workspaces@) =~= workspace_views(before).update(i as int, ws@));
    }

    /// Adds a repo set to a workspace, in place of one of the same name.
    pub fn add_repo_set(&mut self, workspace: &str, set: RepoSet) -> (r: Result<(), ConfigError>)
        ensures
            final(self).github == old(self).github,
            (r matches Err(ConfigError::NoWorkspace(n)) && n@ == workspace@) <==> forall|i: int|
                0 <= i < old(self).workspaces@.len() ==> (#[trigger] old(
                    self,
                ).workspaces@[i]).name@ != workspace@,
            ({
                let before = workspace_views(old(self).workspaces@);
                let after = workspace_views(final(self).workspaces@);
                match first_workspace(before, workspace@, 0) {
                    Some(i) => r is Ok && after == before.update(i, before[i].with_set(set@)),
                    None => is_no_workspace(r, workspace@) && after == before,
                }
            }),
    {
        let ghost before = workspace_views(self.workspaces@);
        proof {
            law_workspace_is_found_by_name(before, workspace@, 0);
            assert forall|i: int| 0 <= i < self.workspaces@.len() implies (
            #[trigger] self.workspaces@[i]).name@ == before[i].name by {}
        }
        let i: usize = match self.find_workspace(workspace) {
            Some(i) => i,
            None => return Err(ConfigError::NoWorkspace(workspace.to_owned())),
        };
        assert(before[i as int] == self.workspaces@[i as int]@);
        let mut ws = self.workspaces[i].copy();
        let ghost sets = ws.repo_sets@;
        match ws.find_set(set.name.as_str()) {
            Some(k) => {
                ws.repo_sets.set(k, set);
                assert(set_views(ws.repo_sets@) =~= set_views(sets).update(k as int, set@));
            },
            None => {
                ws.repo_sets.push(set);
                assert(set_views(ws.repo_sets@) =~= set_views(sets).push(set@));
            },
        }
        assert(ws@ == before[i as int].with_set(set@));
        self.put_workspace(i, ws);
        Ok(())
    }

    /// Removes a repo set from a workspace.
    pub fn remove_repo_set(&mut self, workspace: &str, set: &str) -> (r: Result<(), ConfigError>)
        ensures
            final(self).github == old(self).github,
            (r matches Err(ConfigError::NoWorkspace(n)) && n@ == workspace@) <==> forall|i: int|
                0 <= i < old(self).workspaces@.len() ==> (#[trigger] old(
                    self,
                ).workspaces@[i]).name@ != workspace@,
            ({
                let before = workspace_views(old(self).workspaces@);
                let after = workspace_views(final(self).workspaces@);
                match first_workspace(before, workspace@, 0) {
                    Some(i) => match before[i].find_set(set@) {
                        Some(k) => r is Ok && after == before.update(i, before[i].without_set(k)),
                        None => is_no_repo_set(r, set@) && after == before,
                    },
                    None => is_no_workspace(r, workspace@) && after == before,
                }
            }),
    {
        let ghost before = workspace_views(self.workspaces@);
        proof {
            law_workspace_is_found_by_name(before, workspace@, 0);
            assert forall|i: int| 0 <= i < self.workspaces@.len() implies (
            #[trigger] self.workspaces@[i]).name@ == before[i].name by {}
        }
        let i: usize = match self.find_workspace(workspace) {
            Some(i) => i,
            None => return Err(ConfigError::NoWorkspace(workspace.to_owned())),
        };
        assert(before[i as int] == self.workspaces@[i as int]@);
        let mut ws = self.workspaces[i].copy();
        let ghost sets = ws.repo_sets@;
        let k: usize = match ws.find_set(set) {
            Some(k) => k,
            None => return Err(ConfigError::NoRepoSet(set.to_owned())),
        };
        ws.repo_sets.remove(k);
        assert(set_views(ws.repo_sets@) =~= set_views(sets).remove(k as int));
        assert(ws@ == before[i as int].without_set(k as int));
        self.put_workspace(i, ws);
        Ok(())
    }

    /// Removes a repository from a repo set of a workspace.
    pub fn remove_repo(&mut self, workspace: &str, set: &str, repo: &str) -> (r: Result<
        (),
        ConfigError,
    >)
        ensures
            final(self).github == old(self).github,
            (r matches Err(ConfigError::NoWorkspace(n)) && n@ == workspace@) <==> forall|i: int|
                0 <= i < old(self).workspaces@.len() ==> (#[trigger] old(
                    self,
                ).workspaces@[i]).name@ != workspace@,
            ({
                let before = workspace_views(old(self).workspaces@);
                let after = workspace_views(final(self).workspaces@);
                match first_workspace(before, workspace@, 0) {
                    Some(i) => match before[i].find_set(set@) {
                        Some(k) => r is Ok && after == before.update(
                            i,
                            before[i].without_repo(k, repo@),
                        ),
                        None => is_no_repo_set(r, set@) && after == before,
                    },
                    None => is_no_workspace(r, workspace@) && after == before,
                }
            }),
    {
        let ghost before = workspace_views(self.workspaces@);
        proof {
            law_workspace_is_found_by_name(before, workspace@, 0);
            assert forall|i: int| 0 <= i < self.workspaces@.len() implies (
            #[trigger] self.workspaces@[i]).name@ == before[i].name by {}
        }
        let i: usize = match self.find_workspace(workspace) {
            Some(i) => i,
            None => return Err(ConfigError::NoWorkspace(workspace.to_owned())),
        };
        assert(before[i as int] == self.workspaces@[i as int]@);
        let mut ws = self.workspaces[i].copy();
        let ghost sets = ws.repo_sets@;
        let k: usize = match ws.find_set(set) {
            Some(k) => k,
            None => return Err(ConfigError::NoRepoSet(set.to_owned())),
        };
        assert(set_views(sets)[k as int] == sets[k as int]@);
        let left = RepoSet {
            name: ws.repo_sets[k].name.clone(),
            repos: without_text(&ws.repo_sets[k].repos, repo),
        };
        ws.repo_sets.set(k, left);
        assert(set_views(ws.repo_sets@) =~= set_views(sets).update(k as int, left@));
        assert(ws@ == before[i as int].without_repo(k as int, repo@));
        self.put_workspace(i, ws);
        Ok(())
    }
}

// ---- where files are kept -------------------------------------------------

/// A path below a directory.
pub open spec fn joined(dir: Seq<char>, part: Seq<char>) -> Seq<char> {
    if dir.len() == 0 {
        part
    } else if dir.last() == '/' {
        dir + part
    } else {
        dir + "/"@ + part
    }
}

/// A path below a directory. `part` is relative.
pub fn join(dir: &str, part: &str) -> (r: String)
    ensures
        r@ == joined(dir@, part@),
{
    let n: usize = dir.unicode_len();
    if n == 0 {
        return part.to_owned();
    }
    let last = dir.get_char(n - 1);
    if last == '/' {
        dir.to_owned().concat(part)
    } else {
        dir.to_owned().concat("/").concat(part)
    }
}

/// Where the config file is: below the XDG config directory, or else below the
/// home directory, or else here.
pub open spec fn config_path(xdg: Option<Seq<char>>, home: Option<Seq<char>>) -> Seq<char> {
    match (xdg, home) {
        (Some(dir), _) => joined(joined(dir, APP_DIR_NAME@), CONFIG_FILE_NAME@),
        (None, Some(dir)) => joined(
            joined(joined(dir, ".config"@), APP_DIR_NAME@),
            CONFIG_FILE_NAME@,
        ),
        (None, None) => CONFIG_FILE_NAME@,
    }
}

/// Resolve the default configuration path following the XDG base directory
/// layout, from the values of `XDG_CONFIG_HOME` and `HOME`.
pub fn default_config_path(xdg: Option<String>, home: Option<String>) -> (r: String)
    ensures
        r@ == config_path(opt_text(xdg), opt_text(home)),
{
    match (xdg, home) {
        (Some(dir), _) => join(join(dir.as_str(), APP_DIR_NAME).as_str(), CONFIG_FILE_NAME),
        (None, Some(dir)) => {
            let base = join(dir.as_str(), ".config");
            join(join(base.as_str(), APP_DIR_NAME).as_str(), CONFIG_FILE_NAME)
        },
        (None, None) => CONFIG_FILE_NAME.to_owned(),
    }
}

/// A full, commented example configuration written to disk on first run so
/// new users can see every option and an example workspace.
pub const CONFIG_TEMPLATE: &'static str = r#"# github-notifications configuration.
#
# Created on first run. Edit this file and restart the app to apply changes.
# See docs/setup.md for authentication setup and a plain example.

[github]
# Which credential source to use:
#   pat          - a classic personal access token (auth_token or GITHUB_TOKEN)
#   gh-token     - reuse the GitHub CLI's token (requires a logged-in `gh`)
#   oauth-device - browser OAuth device flow (uses oauth_client_id)
auth_provider = "pat"

# Classic PAT. Only used when auth_provider = "pat".
# Can also be provided via the GITHUB_TOKEN environment variable.
auth_token = ""

# OAuth app client ID. Only used when auth_provider = "oauth-device".
oauth_client_id = ""

# How often to poll GitHub for new notifications, in seconds.
poll_interval_seconds = 300

# How often to refresh open issues and pull requests for each tracked repo,
# in seconds.
repo_refresh_interval_seconds = 600

# Workspaces group repos and saved filters into separate views (e.g. personal
# vs work). Each workspace has one or more repo sets: explicit lists of repos
# to track.
#
# Orgs are not wildcards; every tracked repo must be listed.
#
# Uncomment and edit the example below to add your first workspace.
#
# [[workspaces]]
# name = "Personal"
# # When enabled, threads for closed + merged pull requests are auto-marked read.
# auto_dismiss_closed_merged = false
#
# [[workspaces.repo_sets]]
# name = "Org 1 Repos"
# repos = [
#   "org1/repo-a",
#   "org1/repo-b",
# ]
#
# [[workspaces.repo_sets]]
# name = "My Projects"
# repos = ["me/repo-a"]
"#;

// ---- laws -----------------------------------------------------------------

/// Strictly increasing lists with the same members are the same list.
pub proof fn lemma_increasing_unique(a: Seq<Seq<char>>, b: Seq<Seq<char>>)
    requires
        increasing(a),
        increasing(b),
        forall|s: Seq<char>| #[trigger] a.contains(s) <==> b.contains(s),
    ensures
        a == b,
    decreases a.len(),
{
    if a.len() == 0 {
        if b.len() > 0 {
            assert(b.contains(b[0]));
            assert(a.contains(b[0]));
        }
        assert(a =~= b);
    } else {
        assert(a.contains(a[0]));
        assert(b.len() > 0);
        assert(b.contains(b[0]));
        assert(a.contains(b[0]));
        let j = choose|j: int| 0 <= j < b.len() && b[j] == a[0];
        let k = choose|k: int| 0 <= k < a.len() && a[k] == b[0];
        if a[0] != b[0] {
            assert(text_lt(b[0], b[j]));
            assert(text_lt(a[0], a[k]));
            lemma_text_lt_asym(a[0], b[0]);
        }
        let ra = a.skip(1);
        let rb = b.skip(1);
        assert forall|i: int, j: int|
            #![trigger ra[i], ra[j]]
            0 <= i < j < ra.len() implies text_lt(ra[i], ra[j]) by {
            assert(ra[i] == a[i + 1] && ra[j] == a[j + 1]);
        }
        assert forall|i: int, j: int|
            #![trigger rb[i], rb[j]]
            0 <= i < j < rb.len() implies text_lt(rb[i], rb[j]) by {
            assert(rb[i] == b[i + 1] && rb[j] == b[j + 1]);
        }
        assert forall|s: Seq<char>| #[trigger] ra.contains(s) <==> rb.contains(s) by {
            if ra.contains(s) {
                let i = choose|i: int| 0 <= i < ra.len() && ra[i] == s;
                assert(a[i + 1] == s);
                assert(text_lt(a[0], a[i + 1]));
                lemma_text_lt_asym(a[0], a[i + 1]);
                assert(a.contains(s));
                let m = choose|m: int| 0 <= m < b.len() && b[m] == s;
                assert(m > 0);
                assert(rb[m - 1] == s);
            }
            if rb.contains(s) {
                let i = choose|i: int| 0 <= i < rb.len() && rb[i] == s;
                assert(b[i + 1] == s);
                assert(text_lt(b[0], b[i + 1]));
                lemma_text_lt_asym(b[0], b[i + 1]);
                assert(b.contains(s));
                assert(a.contains(s));
                let m = choose|m: int| 0 <= m < a.len() && a[m] == s;
                assert(m > 0);
                assert(ra[m - 1] == s);
            }
        }
        lemma_increasing_unique(ra, rb);
        assert(a =~= seq![a[0]] + ra);
        assert(b =~= seq![b[0]] + rb);
    }
}

/// The list of tracked repositories depends only on which repositories the
/// repo sets name, not on how they are grouped, ordered or repeated.
pub proof fn law_tracked_list_is_unique(
    a: WorkspaceView,
    b: WorkspaceView,
    list_a: Seq<Seq<char>>,
    list_b: Seq<Seq<char>>,
)
    requires
        a.is_tracked_list(list_a),
        b.is_tracked_list(list_b),
        forall|repo: Seq<char>| a.tracks(repo) <==> b.tracks(repo),
    ensures
        list_a == list_b,
{
    assert forall|s: Seq<char>| #[trigger] list_a.contains(s) <==> list_b.contains(s) by {
        assert(a.tracks(s) <==> b.tracks(s));
    }
    lemma_increasing_unique(list_a, list_b);
}

/// A name that no repo set has is not found.
proof fn lemma_not_named(sets: Seq<RepoSetView>, name: Seq<char>, i: int)
    requires
        0 <= i <= sets.len(),
        first_named(sets, name, i) is None,
    ensures
        forall|k: int| i <= k < sets.len() ==> (#[trigger] sets[k]).name != name,
    decreases sets.len() - i,
{
    if i < sets.len() {
        lemma_not_named(sets, name, i + 1);
    }
}

/// A repo set that comes after others of other names is found.
proof fn lemma_last_named(sets: Seq<RepoSetView>, set: RepoSetView, i: int)
    requires
        0 <= i <= sets.len(),
        forall|k: int| i <= k < sets.len() ==> (#[trigger] sets[k]).name != set.name,
    ensures
        first_named(sets.push(set), set.name, i) == Some(sets.len() as int),
    decreases sets.len() - i,
{
    let all = sets.push(set);
    if i < sets.len() {
        assert(all[i] == sets[i]);
        lemma_last_named(sets, set, i + 1);
    } else {
        assert(all[i] == set);
    }
}

/// Adding a repo set under a new name can be undone: the set is found under its
/// name, and removing it gives back the workspace as it was.
pub proof fn law_added_set_can_be_removed(ws: WorkspaceView, set: RepoSetView)
    requires
        ws.find_set(set.name) is None,
    ensures
        ws.with_set(set).find_set(set.name) == Some(ws.repo_sets.len() as int),
        ws.with_set(set).repo_sets[ws.repo_sets.len() as int] == set,
        ws.with_set(set).without_set(ws.repo_sets.len() as int) == ws,
{
    lemma_not_named(ws.repo_sets, set.name, 0);
    lemma_last_named(ws.repo_sets, set, 0);
    assert(ws.repo_sets.push(set).remove(ws.repo_sets.len() as int) =~= ws.repo_sets);
}

/// A repository that is removed from a repo set is gone from it, and the others
/// stay.
pub proof fn law_removed_repo_is_gone(ws: WorkspaceView, k: int, repo: Seq<char>, other: Seq<char>)
    requires
        0 <= k < ws.repo_sets.len(),
    ensures
        ws.without_repo(k, repo).repo_sets[k].repos.contains(other) <==> other != repo
            && ws.repo_sets[k].repos.contains(other),
{
    let all = ws.repo_sets[k].repos;
    let pred = other_than(repo);
    let left = all.filter(pred);
    if left.contains(other) {
        let i = choose|i: int| 0 <= i < left.len() && left[i] == other;
        all.lemma_filter_pred(pred, i);
        all.lemma_filter_contains_rev(pred, other);
    }
    if other != repo && all.contains(other) {
        let i = choose|i: int| 0 <= i < all.len() && all[i] == other;
        all.lemma_filter_contains(pred, i);
    }
}

/// The workspace that a configured name stands for has that name.
pub proof fn law_configured_name_resolves(list: Seq<WorkspaceView>, name: Seq<char>, i: int)
    requires
        0 <= i < list.len(),
        list[i].name == name,
    ensures
        resolved(list, name).name == name,
{
    lemma_first_workspace(list, name, 0, i);
}

/// A workspace of the given name is found.
proof fn lemma_first_workspace(list: Seq<WorkspaceView>, name: Seq<char>, from: int, i: int)
    requires
        0 <= from <= i < list.len(),
        list[i].name == name,
    ensures
        first_workspace(list, name, from) matches Some(k) && from <= k <= i && list[k].name == name,
    decreases i - from,
{
    if list[from].name != name {
        lemma_first_workspace(list, name, from + 1, i);
    }
}

/// What is tracked: exactly the repositories that some repo set lists, each once
/// and in order.
pub proof fn law_tracked_is_what_sets_list(ws: WorkspaceView, list: Seq<Seq<char>>, repo: Seq<char>)
    requires
        ws.is_tracked_list(list),
    ensures
        list.contains(repo) <==> repo.len() > 0 && exists|i: int|
            0 <= i < ws.repo_sets.len() && (#[trigger] ws.repo_sets[i]).repos.contains(repo),
        forall|i: int, j: int|
            #![trigger list[i], list[j]]
            0 <= i < j < list.len() ==> text_lt(list[i], list[j]) && list[i] != list[j],
{
    assert(list.contains(repo) <==> ws.tracks(repo));
    assert forall|i: int, j: int|
        #![trigger list[i], list[j]]
        0 <= i < j < list.len() implies text_lt(list[i], list[j]) && list[i] != list[j] by {
        lemma_text_lt_asym(list[i], list[j]);
    }
}

/// A repo set is found by its name: the first that has it, and none only when
/// none has it.
pub proof fn law_set_is_found_by_name(ws: WorkspaceView, name: Seq<char>)
    ensures
        match ws.find_set(name) {
            Some(k) => 0 <= k < ws.repo_sets.len() && ws.repo_sets[k].name == name && forall|i: int|
                0 <= i < k ==> (#[trigger] ws.repo_sets[i]).name != name,
            None => forall|i: int|
                0 <= i < ws.repo_sets.len() ==> (#[trigger] ws.repo_sets[i]).name != name,
        },
{
    lemma_first_named(ws.repo_sets, name, 0);
}

/// The first repo set of a name comes before all others of that name.
proof fn lemma_first_named(sets: Seq<RepoSetView>, name: Seq<char>, from: int)
    requires
        0 <= from,
    ensures
        match first_named(sets, name, from) {
            Some(k) => from <= k < sets.len() && sets[k].name == name && forall|i: int|
                from <= i < k ==> (#[trigger] sets[i]).name != name,
            None => forall|i: int| from <= i < sets.len() ==> (#[trigger] sets[i]).name != name,
        },
    decreases sets.len() - from,
{
    if from < sets.len() && sets[from].name != name {
        lemma_first_named(sets, name, from + 1);
    }
}

/// A workspace is found by its name: the first that has it, and none exactly
/// when no workspace has it.
pub proof fn law_workspace_is_found_by_name(list: Seq<WorkspaceView>, name: Seq<char>, from: int)
    requires
        0 <= from,
    ensures
        match first_workspace(list, name, from) {
            Some(k) => from <= k < list.len() && list[k].name == name && forall|i: int|
                from <= i < k ==> (#[trigger] list[i]).name != name,
            None => forall|i: int| from <= i < list.len() ==> (#[trigger] list[i]).name != name,
        },
    decreases list.len() - from,
{
    if from < list.len() && list[from].name != name {
        law_workspace_is_found_by_name(list, name, from + 1);
    }
}

/// A repository that is removed from a set is gone from it, and every other one
/// stays.
pub proof fn law_removing_a_repo_keeps_the_other_repos(
    ws: WorkspaceView,
    k: int,
    repo: Seq<char>,
    other: Seq<char>,
)
    requires
        0 <= k < ws.repo_sets.len(),
        other != repo,
    ensures
        !ws.without_repo(k, repo).repo_sets[k].repos.contains(repo),
        ws.without_repo(k, repo).repo_sets[k].repos.contains(other)
            <==> ws.repo_sets[k].repos.contains(other),
{
    let repos = ws.repo_sets[k].repos;
    let pred = other_than(repo);
    let left = repos.filter(pred);
    if left.contains(repo) {
        let i = choose|i: int| 0 <= i < left.len() && left[i] == repo;
        repos.lemma_filter_pred(pred, i);
    }
    if left.contains(other) {
        repos.lemma_filter_contains_rev(pred, other);
    }
    if repos.contains(other) {
        let i = choose|i: int| 0 <= i < repos.len() && repos[i] == other;
        repos.lemma_filter_contains(pred, i);
    }
}

/// A name stands for the first workspace that has it; a name that none has
/// stands for the first workspace, and for an empty one when there is none.
pub proof fn law_name_stands_for_its_workspace(list: Seq<WorkspaceView>, name: Seq<char>, i: int)
    ensures
        0 <= i < list.len() && list[i].name == name && (forall|k: int|
            0 <= k < i ==> (#[trigger] list[k]).name != name) ==> resolved(list, name) == list[i],
        list.len() > 0 && (forall|k: int|
            0 <= k < list.len() ==> (#[trigger] list[k]).name != name) ==> resolved(list, name)
            == list[0],
        list.len() == 0 ==> resolved(list, name).name.len() == 0 && resolved(
            list,
            name,
        ).repo_sets.len() == 0 && !resolved(list, name).auto_dismiss,
{
    if 0 <= i < list.len() && list[i].name == name {
        lemma_first_workspace(list, name, 0, i);
    }
    lemma_first_is_some_name(list, name, 0);
}

/// What is found by a name has it.
proof fn lemma_first_is_some_name(list: Seq<WorkspaceView>, name: Seq<char>, from: int)
    requires
        0 <= from,
    ensures
        first_workspace(list, name, from) matches Some(k) ==> from <= k < list.len()
            && list[k].name == name,
    decreases list.len() - from,
{
    if from < list.len() && list[from].name != name {
        lemma_first_is_some_name(list, name, from + 1);
    }
}

/// Adding a repo set adds it and nothing else: one of the same name makes room
/// for it in its place, otherwise it comes last, and every other set stays where
/// it was.
pub proof fn law_adding_a_set_keeps_the_others(ws: WorkspaceView, set: RepoSetView, i: int)
    ensures
        ({
            let after = ws.with_set(set);
            &&& after.name == ws.name && after.auto_dismiss == ws.auto_dismiss
            &&& after.repo_sets.contains(set)
            &&& (exists|k: int|
                0 <= k < ws.repo_sets.len() && (#[trigger] ws.repo_sets[k]).name == set.name)
                ==> after.repo_sets.len() == ws.repo_sets.len()
            &&& (forall|k: int|
                0 <= k < ws.repo_sets.len() ==> (#[trigger] ws.repo_sets[k]).name != set.name)
                ==> after.repo_sets == ws.repo_sets.push(set)
            &&& 0 <= i < ws.repo_sets.len() && ws.repo_sets[i].name != set.name
                ==> after.repo_sets[i] == ws.repo_sets[i]
        }),
{
    law_set_is_found_by_name(ws, set.name);
    let after = ws.with_set(set);
    match ws.find_set(set.name) {
        Some(k) => {
            assert(after.repo_sets[k] == set);
        },
        None => {
            assert(after.repo_sets.last() == set);
        },
    }
}

/// Removing a repo set removes it and nothing else.
pub proof fn law_removing_a_set_keeps_the_others(ws: WorkspaceView, k: int, i: int)
    requires
        0 <= k < ws.repo_sets.len(),
        0 <= i < ws.repo_sets.len() - 1,
    ensures
        ws.without_set(k).repo_sets.len() == ws.repo_sets.len() - 1,
        ws.without_set(k).repo_sets[i] == (if i < k {
            ws.repo_sets[i]
        } else {
            ws.repo_sets[i + 1]
        }),
        ws.without_set(k).name == ws.name,
        ws.without_set(k).auto_dismiss == ws.auto_dismiss,
{
}

/// Removing a repository from one repo set touches no other set, and no set's
/// name.
pub proof fn law_removing_a_repo_keeps_the_other_sets(
    ws: WorkspaceView,
    k: int,
    repo: Seq<char>,
    i: int,
)
    requires
        0 <= k < ws.repo_sets.len(),
        0 <= i < ws.repo_sets.len(),
    ensures
        ws.without_repo(k, repo).repo_sets.len() == ws.repo_sets.len(),
        i != k ==> ws.without_repo(k, repo).repo_sets[i] == ws.repo_sets[i],
        ws.without_repo(k, repo).repo_sets[i].name == ws.repo_sets[i].name,
        ws.without_repo(k, repo).name == ws.name,
        ws.without_repo(k, repo).auto_dismiss == ws.auto_dismiss,
{
}

/// The config file is kept below the XDG config directory if there is one, else
/// below the home directory, under the name of the app.
pub proof fn law_config_file_has_its_place(dir: Seq<char>, home: Option<Seq<char>>)
    requires
        dir.len() > 0,
        dir.last() != '/',
    ensures
        config_path(Some(dir), home) == dir + "/github-notifications/config.toml"@,
        config_path(None, Some(dir)) == dir + "/.config/github-notifications/config.toml"@,
        config_path(None, None) == "config.toml"@,
{
    reveal_strlit("/");
    reveal_strlit(".config");
    reveal_strlit("github-notifications");
    reveal_strlit("config.toml");
    reveal_strlit("/github-notifications/config.toml");
    reveal_strlit("/.config/github-notifications/config.toml");
    assert(APP_DIR_NAME@ == "github-notifications"@);
    assert(CONFIG_FILE_NAME@ == "config.toml"@);
    let a = dir + "/"@ + APP_DIR_NAME@;
    assert(a.last() != '/');
    assert(joined(dir, APP_DIR_NAME@) == a);
    assert(config_path(Some(dir), home) =~= dir + "/github-notifications/config.toml"@);
    let b = dir + "/"@ + ".config"@;
    assert(b.last() == 'g');
    let c = b + "/"@ + APP_DIR_NAME@;
    assert(c.last() == 's');
    assert(config_path(None, Some(dir)) =~= dir + "/.config/github-notifications/config.toml"@);
}

/// A path below a directory is the directory, one slash, and the path.
pub proof fn law_paths_are_joined_by_one_slash(dir: Seq<char>, part: Seq<char>)
    ensures
        dir.len() > 0 && dir.last() != '/' ==> joined(dir, part) == dir + seq!['/'] + part,
        dir.len() > 0 && dir.last() == '/' ==> joined(dir, part) == dir + part,
        dir.len() == 0 ==> joined(dir, part) == part,
{
    reveal_strlit("/");
    assert("/"@ =~= seq!['/']);
}

/// What GitHub asks for is the number that its header holds; a missing header or
/// one that holds none asks for nothing.
pub proof fn law_asked_interval_is_the_header(n: nat, header: Seq<char>)
    requires
        n <= u64::MAX,
    ensures
        asked_interval(Some(text::decimal(n))) == n,
        asked_interval(None) == 0,
        header.len() == 0 || !(header[0] == '+' || text::is_digit(header[0])) ==> asked_interval(
            Some(header),
        ) == 0,
{
    text::law_numbers_read_back(n, u64::MAX as nat);
}

} // verus!
