use github_notifications::config::{AuthProvider, Config, Workspace};
use github_notifications::server::{
    bind_host, resolve_bind_with_env, should_open_browser, startup, validates_at_startup,
    Endpoint, HostIp, Startup,
};

const LOCALHOST: HostIp = HostIp::V4(127, 0, 0, 1);

fn addr(ip: HostIp, port: u16) -> Endpoint {
    Endpoint {
        ip,
        port,
        flow_info: 0,
        scope_id: 0,
    }
}

/// The addresses that the tests write.
fn parse(host: &str) -> Option<HostIp> {
    match host {
        "0.0.0.0" => Some(HostIp::V4(0, 0, 0, 0)),
        "127.0.0.1" => Some(LOCALHOST),
        "::1" => Some(HostIp::V6(1)),
        _ => None,
    }
}

fn resolve(cli: Option<Endpoint>, host: Option<&str>, port: Option<&str>) -> Endpoint {
    let host = host.map(str::to_string);
    let parsed = parse(&bind_host(&host));
    resolve_bind_with_env(cli, &host, parsed, &port.map(str::to_string))
}

#[test]
fn bind_prefers_explicit() {
    let cli = addr(LOCALHOST, 9999);
    assert_eq!(resolve(Some(cli), Some("0.0.0.0"), Some("9090")), cli);
}

#[test]
fn an_explicit_bind_keeps_its_zone() {
    let cli = Endpoint {
        ip: HostIp::V6(0xfe80 << 112 | 1),
        port: 8080,
        flow_info: 7,
        scope_id: 3,
    };
    let bound = resolve(Some(cli), None, None);
    assert_eq!(bound, cli);
    assert_eq!((bound.flow_info, bound.scope_id), (7, 3));
    let bound = resolve(None, Some("::1"), None);
    assert_eq!((bound.flow_info, bound.scope_id), (0, 0));
}

#[test]
fn bind_uses_port_on_localhost() {
    assert_eq!(resolve(None, None, Some("9090")), addr(LOCALHOST, 9090));
}

#[test]
fn bind_uses_host_override() {
    assert_eq!(
        resolve(None, Some("0.0.0.0"), Some("9090")),
        addr(HostIp::V4(0, 0, 0, 0), 9090)
    );
    assert_eq!(
        resolve(None, Some("::1"), Some("9090")),
        addr(HostIp::V6(1), 9090)
    );
}

#[test]
fn bind_maps_localhost() {
    assert_eq!(resolve(None, Some("localhost"), None), addr(LOCALHOST, 8080));
}

#[test]
fn bind_defaults_to_localhost() {
    assert_eq!(resolve(None, None, None), addr(LOCALHOST, 8080));
    assert_eq!(resolve(None, Some(""), None), addr(LOCALHOST, 8080));
    assert_eq!(resolve(None, Some("nowhere"), None), addr(LOCALHOST, 8080));
    for port in ["", "x", "65536", "-1"] {
        assert_eq!(resolve(None, None, Some(port)), addr(LOCALHOST, 8080));
    }
    assert_eq!(resolve(None, None, Some("65535")), addr(LOCALHOST, 65535));
}

#[test]
fn opens_browser_by_default_on_loopback() {
    assert!(should_open_browser(false, addr(LOCALHOST, 8080)));
    assert!(should_open_browser(false, addr(HostIp::V6(1), 8080)));
}

#[test]
fn no_open_disables_browser() {
    assert!(!should_open_browser(true, addr(LOCALHOST, 8080)));
}

#[test]
fn never_opens_browser_for_non_loopback() {
    assert!(!should_open_browser(false, addr(HostIp::V4(0, 0, 0, 0), 8080)));
    assert!(!should_open_browser(false, addr(HostIp::V6(0), 8080)));
}

#[test]
fn startup_needs_a_workspace() {
    let mut config = Config::default();
    assert_eq!(startup(&config, true), Startup::ExplainCreated);
    assert_eq!(startup(&config, false), Startup::NoWorkspaces);
    config.workspaces.push(Workspace::default());
    assert_eq!(startup(&config, false), Startup::Serve);
    assert!(validates_at_startup(AuthProvider::Pat));
    assert!(!validates_at_startup(AuthProvider::OAuthDevice));
}
