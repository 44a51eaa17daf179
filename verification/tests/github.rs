use github_notifications::auth::AuthError;
use github_notifications::github::{
    parse_scopes, rate_limit_from, validate, validation, Attempt, ClientError, RateLimit,
    Validation, Verdict,
};
use github_notifications::http::{has_next, next_link, StatusCode};

fn code(n: u16) -> StatusCode {
    StatusCode::from_u16(n).expect("status")
}

fn user(scopes: &str) -> Validation {
    validate(
        code(200),
        &Some(scopes.to_string()),
        None,
        br#"{"login":"octocat"}"#,
    )
}

#[test]
fn validate_reports_ok_scopes() {
    let v = user("notifications, repo, read:org");
    assert!(v.ok);
    assert_eq!(v.login.as_deref(), Some("octocat"));
    assert!(v.scopes.contains(&"notifications".to_string()));
    assert!(v.missing.is_empty());
    assert!(v.sso_hint.is_none());
}

#[test]
fn validate_flags_missing_inbox_scope() {
    let v = user("read:org");
    assert!(!v.ok);
    assert!(v
        .missing
        .iter()
        .any(|s| s == "notifications" || s == "repo"));
    assert_eq!(v.login.as_deref(), Some("octocat"));
    assert_eq!(v.missing, vec!["notifications", "repo"]);
    assert_eq!(
        v.message.as_deref(),
        Some("token lacks the `notifications` or `repo` scope; the inbox is unavailable")
    );
}

#[test]
fn either_inbox_scope_is_enough() {
    assert!(user("repo").ok);
    assert!(user("notifications").ok);
    assert!(user("repo").missing.is_empty());
}

#[test]
fn other_statuses_are_not_ok() {
    let v = validation(
        code(403),
        &Some("repo".into()),
        Some("required".into()),
        None,
    );
    assert!(!v.ok);
    assert_eq!(v.missing, vec!["notifications"]);
    assert_eq!(v.sso_hint.as_deref(), Some("required"));
    assert_eq!(
        v.message.as_deref(),
        Some("token forbidden; it may need SAML SSO authorization")
    );
    let v = validation(code(502), &None, Some("x".into()), Some("y".into()));
    assert_eq!(v.message.as_deref(), Some("unexpected status 502 Bad Gateway"));
    assert_eq!((v.login, v.sso_hint), (None, None));
}

#[test]
fn unreadable_users_have_no_login() {
    for body in [&b"nope"[..], b"[]", br#"{"login":3}"#] {
        let v = validate(code(200), &Some("repo".into()), None, body);
        assert!(v.ok);
        assert_eq!(v.login, None);
    }
}

#[test]
fn get_retries_once_after_401() {
    let mut attempt = Attempt::first();
    assert_eq!(attempt.on_answer(code(401)), Verdict::RefreshAndRetry);
    assert_eq!(attempt.on_answer(code(200)), Verdict::Deliver);
    // What the retry delivers is a successful validation.
    let v = validate(
        code(200),
        &Some("repo".into()),
        None,
        br#"{"login":"octocat"}"#,
    );
    assert!(v.ok);
    assert_eq!(v.login.as_deref(), Some("octocat"));
    let mut attempt = Attempt::first();
    assert_eq!(attempt.on_answer(code(401)), Verdict::RefreshAndRetry);
    assert_eq!(attempt.on_answer(code(401)), Verdict::Deliver);
    assert_eq!(Attempt::first().on_answer(code(403)), Verdict::Deliver);
}

#[test]
fn scopes_are_trimmed() {
    assert_eq!(
        parse_scopes(&Some(" a , ,b,".into())),
        vec!["a".to_string(), "b".to_string()]
    );
    assert!(parse_scopes(&Some(String::new())).is_empty());
    assert!(parse_scopes(&None).is_empty());
}

#[test]
fn rate_limits_are_numbers() {
    let text = |s: &str| Some(s.to_string());
    assert_eq!(
        rate_limit_from(&text("5000"), &text("x"), &None),
        RateLimit {
            limit: Some(5000),
            remaining: None,
            reset: None
        }
    );
    assert_eq!(
        rate_limit_from(&text("18446744073709551615"), &text("18446744073709551616"), &text("0"))
            .limit,
        Some(u64::MAX)
    );
    assert_eq!(
        rate_limit_from(&None, &text("18446744073709551616"), &None).remaining,
        None
    );
}

#[test]
fn client_errors_have_messages() {
    assert_eq!(
        ClientError::Auth(AuthError::NotConfigured("x".into())).message(),
        "auth: no token configured: x"
    );
    assert_eq!(
        ClientError::Http("x".into()).message(),
        "HTTP request failed: x"
    );
    assert_eq!(
        ClientError::Github(code(404), "gone".into()).message(),
        "GitHub returned 404 Not Found: gone"
    );
}

#[test]
fn next_links_are_found() {
    let link = |s: &str| next_link(&Some(s.to_string()));
    assert_eq!(
        link("<https://api.github.com/orgs/o/repos?page=2>; rel=\"next\"").as_deref(),
        Some("https://api.github.com/orgs/o/repos?page=2")
    );
    assert_eq!(
        link("<https://x?page=1>; rel=\"prev\", <https://x?page=3>; rel=\"next\"").as_deref(),
        Some("https://x?page=3")
    );
    assert_eq!(link("<https://x?page=1>; rel=\"prev\""), None);
    assert_eq!(link("rel=\"next\""), None);
    assert_eq!(next_link(&None), None);
    assert!(has_next(&Some("<u>; rel=\"next\"".into())));
    assert!(!has_next(&None));
}

#[test]
fn statuses_print_their_reason() {
    assert_eq!(code(200).text(), "200 OK");
    assert_eq!(code(299).text(), "299 <unknown status code>");
    assert!(StatusCode::from_u16(99).is_none());
    assert!(StatusCode::from_u16(1000).is_none());
    assert!(code(205).marked_read() && !code(206).marked_read());
    assert!(code(206).is_success() && !code(304).is_success());
}
