use github_notifications::config::{
    default_config_path, AuthProvider, Config, ConfigError, GithubConfig, RepoSet, Workspace,
    CONFIG_TEMPLATE,
};

fn set(name: &str, repos: &[&str]) -> RepoSet {
    RepoSet {
        name: name.into(),
        repos: repos.iter().map(|r| r.to_string()).collect(),
    }
}

fn personal() -> Config {
    Config {
        github: GithubConfig {
            auth_provider: AuthProvider::GhToken,
            ..Default::default()
        },
        workspaces: vec![Workspace {
            name: "personal".into(),
            ..Default::default()
        }],
    }
}

#[test]
fn template_parses_as_valid_config() {
    let value: toml::Value = toml::from_str(CONFIG_TEMPLATE).expect("template parses");
    let github = &value["github"];
    assert_eq!(
        github["auth_provider"].as_str(),
        Some(AuthProvider::Pat.name())
    );
    assert_eq!(github["poll_interval_seconds"].as_integer(), Some(300));
    assert!(value.get("workspaces").is_none());
    assert!(CONFIG_TEMPLATE.contains("# github-notifications configuration"));
    assert!(CONFIG_TEMPLATE.contains("auto_dismiss_closed_merged"));
}

#[test]
fn effective_token_prefers_config() {
    let config = Config {
        github: GithubConfig {
            auth_token: "config-token".into(),
            ..Default::default()
        },
        ..Default::default()
    };
    assert_eq!(config.effective_token(Some("env".into())), "config-token");
    assert_eq!(config.effective_token(None), "config-token");
    assert_eq!(
        Config::default().effective_token(Some("env".into())),
        "env"
    );
    assert_eq!(Config::default().effective_token(None), "");
}

#[test]
fn saved_tokens_are_private() {
    let mut config = Config::default();
    assert!(!config.holds_token());
    config.github.auth_token = "ghp_secret".into();
    assert!(config.holds_token());
}

#[test]
fn defaults_match_the_template() {
    let config = Config::default();
    assert_eq!(config.github.auth_provider, AuthProvider::Pat);
    assert_eq!(config.github.poll_interval_seconds, 300);
    assert_eq!(config.github.repo_refresh_interval_seconds, 600);
    assert!(config.workspaces.is_empty());
    assert_eq!(config.first_name(), "");
    assert_eq!(personal().first_name(), "personal");
}

#[test]
fn intervals_have_floors() {
    let mut github = GithubConfig::default();
    github.poll_interval_seconds = 5;
    assert_eq!(github.effective_poll_interval(), 30);
    github.poll_interval_seconds = 31;
    assert_eq!(github.effective_poll_interval(), 31);
    // GitHub can only slow polling down.
    let after = |github: &GithubConfig, h: &str| github.poll_interval_after(&Some(h.to_string()));
    assert_eq!(github.poll_interval_after(&None), 31);
    assert_eq!(after(&github, "60"), 60);
    assert_eq!(after(&github, "30"), 31);
    assert_eq!(after(&github, "soon"), 31);
    assert_eq!(after(&github, "18446744073709551615"), u64::MAX);
    github.poll_interval_seconds = 1;
    assert_eq!(after(&github, "20"), 30);
    github.sync_concurrency = 0;
    assert_eq!(github.effective_sync_concurrency(), 1);
}

#[test]
fn tracked_repos_are_sorted_and_unique() {
    let ws = Workspace {
        name: "w".into(),
        repo_sets: vec![
            set("a", &["b/z", "", "a/b", "\u{e9}/x"]),
            set("b", &["a/b", "a/B", "a"]),
        ],
        ..Default::default()
    };
    assert_eq!(
        ws.tracked_repos(),
        vec!["a", "a/B", "a/b", "b/z", "\u{e9}/x"]
    );
    let mut outside = std::collections::BTreeSet::new();
    for s in &ws.repo_sets {
        outside.extend(s.repos.iter().filter(|r| !r.is_empty()).cloned());
    }
    assert_eq!(
        ws.tracked_repos(),
        outside.into_iter().collect::<Vec<String>>()
    );
}

#[test]
fn repo_set_endpoints_update_config() {
    let mut config = personal();
    config
        .add_repo_set("personal", set("mine", &["a/r", "b/r"]))
        .expect("added");
    assert_eq!(config.workspaces[0].repo_sets[0].name, "mine");
    assert_eq!(
        config.workspaces[0].repo_sets[0].repos,
        vec!["a/r".to_string(), "b/r".to_string()]
    );
    assert_eq!(
        config.workspaces[0].repo_set_repos("mine"),
        Some(vec!["a/r".to_string(), "b/r".to_string()])
    );
    // A set of the same name is replaced.
    config
        .add_repo_set("personal", set("mine", &["c/r", "d/r", "c/r"]))
        .expect("replaced");
    assert_eq!(config.workspaces[0].repo_sets.len(), 1);
    config
        .remove_repo("personal", "mine", "c/r")
        .expect("removed");
    assert_eq!(
        config.workspaces[0].repo_sets[0].repos,
        vec!["d/r".to_string()]
    );
}

#[test]
fn repo_set_delete_updates_config() {
    let mut config = personal();
    config
        .add_repo_set("personal", set("mine", &["a/r"]))
        .expect("added");
    config.remove_repo_set("personal", "mine").expect("removed");
    assert!(config.workspaces[0].repo_sets.is_empty());
}

#[test]
fn edits_of_what_is_missing_are_refused() {
    let mut config = personal();
    let e = config.add_repo_set("work", set("x", &[])).unwrap_err();
    assert!(matches!(e, ConfigError::NoWorkspace(_)));
    assert_eq!(e.message(), "no workspace named work");
    let e = config.remove_repo_set("personal", "x").unwrap_err();
    assert!(matches!(e, ConfigError::NoRepoSet(_)));
    assert_eq!(e.message(), "no repo set named x");
    assert!(config.remove_repo_set("work", "x").is_err());
    assert!(config.remove_repo("personal", "x", "a/r").is_err());
    assert!(config.remove_repo("work", "x", "a/r").is_err());
}

#[test]
fn config_path_follows_xdg() {
    assert_eq!(
        default_config_path(Some("/x".into()), Some("/home/u".into())),
        "/x/github-notifications/config.toml"
    );
    assert_eq!(
        default_config_path(None, Some("/home/u".into())),
        "/home/u/.config/github-notifications/config.toml"
    );
    assert_eq!(default_config_path(None, None), "config.toml");
    for dir in ["/x", "/x/", "", "rel"] {
        let outside = std::path::PathBuf::from(dir)
            .join("github-notifications")
            .join("config.toml");
        assert_eq!(
            default_config_path(Some(dir.into()), None),
            outside.to_str().expect("utf-8")
        );
    }
}
