//! Where the HTTP server listens, and what happens at startup.
use vstd::prelude::*;

use crate::config::{AuthProvider, Config};
use crate::http::opt_text;
use crate::text;
use crate::text::parsed_number;

verus! {

broadcast use vstd::string::group_string_axioms;

/// An IP address.
#[derive(Debug, Clone, Copy, PartialEq, Eq, Structural)]
pub enum HostIp {
    V4(u8, u8, u8, u8),
    V6(u128),
}

/// A listen address.
#[derive(Debug, Clone, Copy, PartialEq, Eq, Structural)]
pub struct Endpoint {
    pub ip: HostIp,
    pub port: u16,
    /// The flow information of an IPv6 address, else zero.
    pub flow_info: u32,
    /// The zone of an IPv6 address, else zero.
    pub scope_id: u32,
}

/// The loopback address that the server keeps to by default.
pub open spec fn localhost() -> HostIp {
    HostIp::V4(127, 0, 0, 1)
}

/// Whether an address is reachable from this machine only.
pub open spec fn is_loopback_ip(ip: HostIp) -> bool {
    match ip {
        HostIp::V4(a, _, _, _) => a == 127,
        HostIp::V6(n) => n == 1,
    }
}

impl HostIp {
    /// Whether the address is reachable from this machine only.
    pub fn is_loopback(&self) -> (r: bool)
        ensures
            r == is_loopback_ip(*self),
    {
        match self {
            HostIp::V4(a, _, _, _) => *a == 127,
            HostIp::V6(n) => *n == 1,
        }
    }
}

/// The host to listen on: `$HOST`, or the loopback address when it is unset or
/// empty.
pub open spec fn host_text(host: Option<Seq<char>>) -> Seq<char> {
    match host {
        Some(h) => if h.len() > 0 {
            h
        } else {
            "127.0.0.1"@
        },
        None => "127.0.0.1"@,
    }
}

/// The host to listen on.
pub fn bind_host(host: &Option<String>) -> (r: String)
    ensures
        r@ == host_text(opt_text(*host)),
{
    match host {
        Some(h) => if h.as_str().unicode_len() > 0 {
            h.clone()
        } else {
            "127.0.0.1".to_owned()
        },
        None => "127.0.0.1".to_owned(),
    }
}

/// The address of a host: `localhost` and what is no address stand for the
/// loopback address.
pub open spec fn host_ip(host: Seq<char>, parsed: Option<HostIp>) -> HostIp {
    if host == "localhost"@ {
        localhost()
    } else {
        match parsed {
            Some(ip) => ip,
            None => localhost(),
        }
    }
}

/// The address of a host. `parsed` is the address that the text denotes, absent
/// when it is none.
pub fn parse_host(host: &str, parsed: Option<HostIp>) -> (r: HostIp)
    ensures
        r == host_ip(host@, parsed),
{
    if text::str_eq(host, "localhost") {
        return HostIp::V4(127, 0, 0, 1);
    }
    match parsed {
        Some(ip) => ip,
        None => HostIp::V4(127, 0, 0, 1),
    }
}

/// The port to listen on: `$PORT`, or 8080 when it is no port number.
pub open spec fn port_number(port: Option<Seq<char>>) -> nat {
    match port {
        Some(p) => match parsed_number(p, 65535) {
            Some(n) => n,
            None => 8080,
        },
        None => 8080,
    }
}

/// The port to listen on.
pub fn bind_port(port: &Option<String>) -> (r: u16)
    ensures
        r == port_number(opt_text(*port)),
{
    match port {
        Some(p) => match text::parse_number(p.as_str(), 65535) {
            Some(n) => n as u16,
            None => 8080,
        },
        None => 8080,
    }
}

/// Determine the listen address: explicit `--bind`, then `$HOST:$PORT`
/// (defaults to `127.0.0.1:8080` so the server stays on loopback). `parsed` is
/// the address that the host to listen on denotes, absent when it is none.
pub fn resolve_bind_with_env(
    cli_bind: Option<Endpoint>,
    host: &Option<String>,
    parsed: Option<HostIp>,
    port: &Option<String>,
) -> (r: Endpoint)
    ensures
        r == (match cli_bind {
            Some(addr) => addr,
            None => Endpoint {
                ip: host_ip(host_text(opt_text(*host)), parsed),
                port: port_number(opt_text(*port)) as u16,
                flow_info: 0,
                scope_id: 0,
            },
        }),
{
    if let Some(addr) = cli_bind {
        return addr;
    }
    let host = bind_host(host);
    Endpoint {
        ip: parse_host(host.as_str(), parsed),
        port: bind_port(port),
        flow_info: 0,
        scope_id: 0,
    }
}

/// Whether to auto-open the browser: opt-out flag wins, and we never open one
/// for a non-loopback bind (containers/remote hosts).
pub fn should_open_browser(no_open: bool, addr: Endpoint) -> (r: bool)
    ensures
        r == (!no_open && is_loopback_ip(addr.ip)),
        r ==> !no_open && (addr.ip == HostIp::V6(1) || (addr.ip matches HostIp::V4(127, _, _, _))),
        !no_open && (addr.ip == HostIp::V6(1) || (addr.ip matches HostIp::V4(127, _, _, _))) ==> r,
{
    if no_open {
        return false;
    }
    addr.ip.is_loopback()
}

/// What to do with the configuration at startup.
#[derive(Debug, Clone, Copy, PartialEq, Eq, Structural)]
pub enum Startup {
    Serve,
    /// Point out the example configuration that was just created.
    ExplainCreated,
    /// Fail, as there is nothing to show.
    NoWorkspaces,
}

/// What to do with the configuration at startup. `created` tells whether its
/// file was just created.
pub fn startup(config: &Config, created: bool) -> (r: Startup)
    ensures
        r == (if config.workspaces@.len() > 0 {
            Startup::Serve
        } else if created {
            Startup::ExplainCreated
        } else {
            Startup::NoWorkspaces
        }),
{
    if config.workspaces.len() > 0 {
        Startup::Serve
    } else if created {
        Startup::ExplainCreated
    } else {
        Startup::NoWorkspaces
    }
}

/// Whether credentials are validated at startup. The device flow waits for the
/// user to authorize from the web UI.
pub fn validates_at_startup(provider: AuthProvider) -> (r: bool)
    ensures
        r == (provider != AuthProvider::OAuthDevice),
{
    match provider {
        AuthProvider::OAuthDevice => false,
        _ => true,
    }
}

// ---- laws -----------------------------------------------------------------

/// The server stays on loopback unless told otherwise: without `--bind`, and
/// with a host that is unset, empty, `localhost` or no address at all, the
/// address is a loopback one.
pub proof fn law_stays_on_loopback(host: Option<Seq<char>>, parsed: Option<HostIp>)
    requires
        host_text(host) == "localhost"@ || parsed is None || parsed == Some(localhost()),
    ensures
        is_loopback_ip(host_ip(host_text(host), parsed)),
{
}

/// Where the server listens: at an explicit address as it is given; otherwise at
/// the port that `$PORT` names, or 8080, of the address that `$HOST` names, or
/// 127.0.0.1.
pub proof fn law_host_and_port_are_the_given_ones(
    host: Seq<char>,
    parsed: HostIp,
    port: nat,
    other: Seq<char>,
)
    requires
        port <= 65535,
        other.len() == 0 || !(other[0] == '+' || text::is_digit(other[0])),
    ensures
        port_number(Some(text::decimal(port))) == port,
        port_number(None) == 8080,
        port_number(Some(other)) == 8080,
        host.len() > 0 ==> host_text(Some(host)) == host,
        host_text(None) == "127.0.0.1"@,
        host_text(Some(Seq::empty())) == "127.0.0.1"@,
        host != "localhost"@ ==> host_ip(host, Some(parsed)) == parsed,
        host_ip("localhost"@, Some(parsed)) == HostIp::V4(127, 0, 0, 1),
        host_ip(host, None) == HostIp::V4(127, 0, 0, 1),
{
    text::law_numbers_read_back(port, 65535);
}

/// Only this machine reaches 127.x.x.x and ::1.
pub proof fn law_loopback_addresses(a: u8, b: u8, c: u8, d: u8, n: u128)
    ensures
        is_loopback_ip(HostIp::V4(a, b, c, d)) <==> a == 127,
        is_loopback_ip(HostIp::V6(n)) <==> n == 1,
{
}

} // verus!
