use github_notifications::auth::gh::{GhRun, GhToken};
use github_notifications::auth::oauth::{
    verification_url, DeviceCode, DeviceFlow, OAuthDevice, PollStep, Start,
};
use github_notifications::auth::pat::ClassicPat;
use github_notifications::auth::{from_config, AuthError, Provider, StoredToken, TokenStore};
use github_notifications::config::{AuthProvider, Config, GithubConfig};

fn config(provider: AuthProvider) -> Config {
    Config {
        github: GithubConfig {
            auth_provider: provider,
            ..Default::default()
        },
        ..Default::default()
    }
}

#[test]
fn from_config_builds_expected_provider() {
    let provider = from_config(
        &config(AuthProvider::GhToken),
        None,
        TokenStore::new("/tmp/ignored".into()),
    );
    assert_eq!(provider.name(), "gh-token");
    let provider = from_config(
        &config(AuthProvider::Pat),
        Some("env".into()),
        TokenStore::new("x".into()),
    );
    assert_eq!(provider.name(), "pat");
    match provider {
        Provider::Pat(p) => assert_eq!(p.token().expect("token"), "env"),
        _ => panic!("not a pat"),
    }
    let mut oauth = config(AuthProvider::OAuthDevice);
    oauth.github.oauth_client_id = "client".into();
    let provider = from_config(&oauth, None, TokenStore::new("auth.toml".into()));
    assert_eq!(provider.name(), "oauth-device");
    match provider {
        Provider::OAuth(p) => {
            assert_eq!(p.client_id(), "client");
            assert_eq!(p.store_path(), "auth.toml");
        }
        _ => panic!("not a device flow"),
    }
}

#[test]
fn returns_configured_token() {
    let provider = ClassicPat::new("ghp_abc".into());
    assert_eq!(provider.token().expect("token"), "ghp_abc");
    assert_eq!(provider.refresh().expect("refresh"), "ghp_abc");
}

#[test]
fn empty_token_is_error() {
    let provider = ClassicPat::new(String::new());
    assert!(matches!(
        provider.token(),
        Err(AuthError::NotConfigured(_))
    ));
}

#[test]
fn fails_gracefully_when_gh_missing() {
    let mut provider = GhToken::new();
    assert!(matches!(
        provider.on_run(GhRun::NotFound),
        Err(AuthError::GhNotLoggedIn)
    ));
    assert!(matches!(
        provider.on_run(GhRun::Exited(false, b"x".to_vec())),
        Err(AuthError::GhNotLoggedIn)
    ));
    assert!(matches!(
        provider.on_run(GhRun::Failed("denied".into())),
        Err(AuthError::Io(_))
    ));
    assert_eq!(provider.cached(), None);
}

#[test]
fn gh_tokens_are_cached_until_forgotten() {
    let mut provider = GhToken::default();
    assert_eq!(provider.cached(), None);
    let token = provider
        .on_run(GhRun::Exited(true, b" gho_abc\n".to_vec()))
        .expect("token");
    assert_eq!(token, "gho_abc");
    assert_eq!(provider.cached().as_deref(), Some("gho_abc"));
    // A failing run keeps what is cached.
    assert!(provider.on_run(GhRun::NotFound).is_err());
    assert_eq!(provider.cached().as_deref(), Some("gho_abc"));
    provider.forget();
    assert_eq!(provider.cached(), None);
    assert_eq!(provider.on_printed("\tgho_def\r\n"), "gho_def");
    assert_eq!(provider.cached().as_deref(), Some("gho_def"));
    let token = provider
        .on_run(GhRun::Exited(true, vec![0x61, 0xff, 0x62, 0x0a]))
        .expect("token");
    assert_eq!(token, "a\u{fffd}b");
}

fn flow(interval: u64) -> DeviceFlow {
    DeviceFlow::new(
        "client-123".into(),
        DeviceCode {
            device_code: "dev-1".into(),
            user_code: "ABCD-EFGH".into(),
            verification_uri: "http://localhost/verify".into(),
            interval,
        },
    )
}

#[test]
fn device_flow_obtains_and_stores_token() {
    let provider = OAuthDevice::new("client-123".into(), TokenStore::new("auth.toml".into()));
    assert!(matches!(provider.start(None), Start::RunFlow));
    assert_eq!(
        provider.code_form(),
        vec![
            ("client_id".to_string(), "client-123".to_string()),
            (
                "scope".to_string(),
                "notifications repo read:org".to_string()
            ),
        ]
    );
    let mut flow = flow(0);
    assert_eq!(flow.interval(), 1);
    assert_eq!(
        flow.poll_form(),
        vec![
            ("client_id".to_string(), "client-123".to_string()),
            ("device_code".to_string(), "dev-1".to_string()),
            (
                "grant_type".to_string(),
                "urn:ietf:params:oauth:grant-type:device_code".to_string()
            ),
        ]
    );
    assert!(matches!(
        flow.on_body(br#"{"error":"authorization_pending"}"#),
        Some(PollStep::Wait)
    ));
    let token = match flow.on_body(br#"{"access_token":"tok-42","token_type":"bearer"}"#) {
        Some(PollStep::Token(t)) => t,
        other => panic!("{other:?}"),
    };
    assert_eq!(token, "tok-42");

    // The token is persisted and reused without re-running the flow.
    let entry = OAuthDevice::entry(&token);
    assert_eq!(entry.scope, None);
    match provider.start(Some(entry)) {
        Start::Stored(t) => assert_eq!(t, "tok-42"),
        other => panic!("{other:?}"),
    }
    // Once it is rejected, the user is asked again.
    assert!(matches!(provider.restart(), Start::RunFlow));
}

#[test]
fn device_flow_requires_client_id() {
    let provider = OAuthDevice::new(String::new(), TokenStore::new("auth.toml".into()));
    assert!(matches!(
        provider.start(None),
        Start::Fail(AuthError::NotConfigured(_))
    ));
    // An empty stored token does not count.
    assert!(matches!(
        provider.start(Some(StoredToken::default())),
        Start::Fail(AuthError::NotConfigured(_))
    ));
}

#[test]
fn device_flow_slows_down() {
    let mut flow = flow(3);
    assert!(matches!(
        flow.on_body(br#"{"error":"slow_down"}"#),
        Some(PollStep::Wait)
    ));
    assert_eq!(flow.interval(), 8);
    assert!(flow.on_body(b"not json").is_none());
    assert_eq!(flow.interval(), 8);
    let mut late = DeviceFlow::new(
        "c".into(),
        DeviceCode {
            device_code: "d".into(),
            user_code: "u".into(),
            verification_uri: "v".into(),
            interval: u64::MAX,
        },
    );
    assert!(late.on_body(br#"{"error":"slow_down"}"#).is_none());
}

#[test]
fn device_flow_reports_failures() {
    let message = |body: &str| match flow(1).on_body(body.as_bytes()) {
        Some(PollStep::Fail(e)) => e.message(),
        other => panic!("{other:?}"),
    };
    assert_eq!(
        message(r#"{"error":"access_denied"}"#),
        "OAuth device flow failed: authorization was denied"
    );
    assert_eq!(
        message(r#"{"error":"expired_token"}"#),
        "OAuth device flow failed: device code expired; please try again"
    );
    assert_eq!(
        message(r#"{"error":"odd \"one\""}"#),
        "OAuth device flow failed: unexpected error \"odd \\\"one\\\"\""
    );
    assert_eq!(
        message(r#"{"access_token":7}"#),
        "OAuth device flow failed: response contained neither access_token nor error"
    );
    assert_eq!(
        message("[]"),
        "OAuth device flow failed: response contained neither access_token nor error"
    );
}

#[test]
fn verification_url_carries_the_code() {
    let device = DeviceCode {
        device_code: "d".into(),
        user_code: "ABCD".into(),
        verification_uri: "http://localhost/verify".into(),
        interval: 5,
    };
    assert_eq!(
        verification_url(&device),
        "http://localhost/verify?user_code=ABCD"
    );
}

#[test]
fn auth_errors_have_messages() {
    let m = |e: AuthError| e.message();
    assert_eq!(
        m(AuthError::NotConfigured("x".into())),
        "no token configured: x"
    );
    assert_eq!(
        m(AuthError::GhNotLoggedIn),
        "GitHub CLI is not logged in; run `gh auth login`"
    );
    assert_eq!(m(AuthError::Http("x".into())), "HTTP error: x");
    assert_eq!(m(AuthError::Io("x".into())), "I/O error: x");
    assert_eq!(m(AuthError::Toml("x".into())), "TOML parse error: x");
    assert_eq!(m(AuthError::TomlSer("x".into())), "TOML serialize error: x");
}
