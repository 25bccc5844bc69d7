//! The server URL handed to agent children: a `ws://` URL on a wildcard or
//! locally reachable host is rewritten to the IPv4 loopback address.

use vstd::prelude::*;

use crate::text::{chars_of, eq_str, is_blank, owned, trim};

verus! {

/// What `url::Url::parse` gives for `s`, reduced to the parts this module
/// reads: the scheme, `host_str()` and `port_or_known_default()`; `None`
/// when `s` does not parse.
pub uninterp spec fn url_parts(s: Seq<char>) -> Option<(Seq<char>, Option<Seq<char>>, Option<u16>)>;

/// The serialisation of `s` parsed by `url::Url::parse` after
/// `set_host(Some(host))`; `None` when parsing or `set_host` fails.
pub uninterp spec fn url_with_host(s: Seq<char>, host: Seq<char>) -> Option<Seq<char>>;

/// The IPv4 loopback address that URLs are rewritten to.
pub const LOOPBACK_HOST: &'static str = "127.0.0.1";

/// `s` with its host replaced by the IPv4 loopback address.
pub open spec fn loopback_rewrite(s: Seq<char>) -> Option<Seq<char>> {
    url_with_host(s, "127.0.0.1"@)
}

/// Host names that already denote this machine; such URLs are kept.
pub open spec fn is_loopback_host(h: Seq<char>) -> bool {
    h == "127.0.0.1"@ || h == "localhost"@ || h == "::1"@
}

/// Wildcard bind addresses; such URLs are always rewritten.
pub open spec fn is_wildcard_host(h: Seq<char>) -> bool {
    h == "0.0.0.0"@ || h == "::"@
}

/// The port a URL would be probed on, when the decision needs a probe:
/// an explicit override is absent or blank, the URL parses as `ws` with a
/// host that is neither loopback nor wildcard, it has a port, and the
/// caller did not already assume a local server.
pub open spec fn probe_port(server: Seq<char>, explicit: Option<Seq<char>>, assume_local: bool) -> Option<u16> {
    if explicit is Some && trim(explicit->0).len() != 0 {
        None
    } else {
        match url_parts(server) {
            Some((scheme, Some(host), Some(port))) =>
                if scheme == "ws"@ && !is_loopback_host(host) && !is_wildcard_host(host) && !assume_local {
                    Some(port)
                } else {
                    None
                },
            _ => None,
        }
    }
}

/// The URL a child agent should use. `explicit` is an override taken from
/// the environment; `accepts` is whether something listens on the URL's
/// port on the loopback interface (consulted only when `probe_port` is
/// `Some`).
pub open spec fn child_url(server: Seq<char>, explicit: Option<Seq<char>>, assume_local: bool, accepts: bool) -> Seq<char> {
    if explicit is Some && trim(explicit->0).len() != 0 {
        explicit->0
    } else {
        match url_parts(server) {
            None => server,
            Some((scheme, host, port)) =>
                if scheme != "ws"@ || host is None || is_loopback_host(host->0) || port is None {
                    server
                } else if (assume_local || is_wildcard_host(host->0) || accepts)
                    && loopback_rewrite(server) is Some {
                    loopback_rewrite(server)->0
                } else {
                    server
                },
        }
    }
}

/// The views of an optional string.
pub open spec fn opt_view(o: Option<String>) -> Option<Seq<char>> {
    match o {
        Some(s) => Some(s@),
        None => None,
    }
}

/// Calls `url::Url::parse` and reads `scheme()`, `host_str()` and
/// `port_or_known_default()` of the result; the contract only names what
/// comes back (`url_parts`).
#[verifier::external_body]
fn parse_url_parts(s: &str) -> (r: Option<(String, Option<String>, Option<u16>)>)
    ensures
        match r {
            None => url_parts(s@) is None,
            Some((scheme, host, port)) => url_parts(s@) == Some((scheme@, opt_view(host), port)),
        },
{
    match url::Url::parse(s) {
        Ok(u) => Some((u.scheme().to_string(), u.host_str().map(|h| h.to_string()), u.port_or_known_default())),
        Err(_) => None,
    }
}

/// Calls `url::Url::parse`, then `set_host(Some(host))`, and serialises the
/// result; the contract only names what comes back (`url_with_host`).
#[verifier::external_body]
fn set_url_host(s: &str, host: &str) -> (r: Option<String>)
    ensures
        opt_view(r) == url_with_host(s@, host@),
{
    let mut u = match url::Url::parse(s) {
        Ok(u) => u,
        Err(_) => return None,
    };
    match u.set_host(Some(host)) {
        Ok(()) => Some(u.to_string()),
        Err(_) => None,
    }
}

fn is_loopback_host_str(h: &str) -> (b: bool)
    ensures
        b == is_loopback_host(h@),
{
    let c = chars_of(h);
    eq_str(&c, "127.0.0.1") || eq_str(&c, "localhost") || eq_str(&c, "::1")
}

fn is_wildcard_host_str(h: &str) -> (b: bool)
    ensures
        b == is_wildcard_host(h@),
{
    let c = chars_of(h);
    eq_str(&c, "0.0.0.0") || eq_str(&c, "::")
}

/// The child URL, consulting `loopback_accepts` for the port when (and only
/// when) `probe_port` says a probe is needed.
pub fn child_server_url<F: Fn(u16) -> bool>(
    server_url: &str,
    explicit: Option<&str>,
    assume_local: bool,
    loopback_accepts: F,
) -> (out: String)
    requires
        forall|p: u16| loopback_accepts.requires((p,)),
    ensures
        probe_port(server_url@, opt_str_view(explicit), assume_local) is None
            ==> out@ == child_url(server_url@, opt_str_view(explicit), assume_local, false),
        probe_port(server_url@, opt_str_view(explicit), assume_local) matches Some(p)
            ==> exists|a: bool| loopback_accepts.ensures((p,), a)
                && out@ == child_url(server_url@, opt_str_view(explicit), assume_local, a),
{
    if let Some(e) = explicit {
        let ec = chars_of(e);
        if !is_blank(&ec) {
            return owned(e);
        }
    }
    let parts = parse_url_parts(server_url);
    let (scheme, host, port) = match parts {
        None => return owned(server_url),
        Some(p) => p,
    };
    if !eq_str(&chars_of(scheme.as_str()), "ws") {
        return owned(server_url);
    }
    let host = match host {
        None => return owned(server_url),
        Some(h) => h,
    };
    if is_loopback_host_str(host.as_str()) {
        return owned(server_url);
    }
    let port = match port {
        None => return owned(server_url),
        Some(p) => p,
    };
    let go = if assume_local || is_wildcard_host_str(host.as_str()) {
        true
    } else {
        loopback_accepts(port)
    };
    let rewritten = if go {
        proof {
            reveal_strlit("127.0.0.1");
        }
        set_url_host(server_url, LOOPBACK_HOST)
    } else {
        None
    };
    let out = match rewritten {
        Some(u) => u,
        None => owned(server_url),
    };
    proof {
        if probe_port(server_url@, opt_str_view(explicit), assume_local) is Some {
            assert(loopback_accepts.ensures((port,), go));
            assert(out@ == child_url(server_url@, opt_str_view(explicit), assume_local, go));
        }
    }
    out
}

/// The views of an optional `&str`.
pub open spec fn opt_str_view(o: Option<&str>) -> Option<Seq<char>> {
    match o {
        Some(s) => Some(s@),
        None => None,
    }
}

/// The URL an agent child should connect to: the override when one is set,
/// else `server_url`, rewritten to `127.0.0.1` when its host is a wildcard
/// address or the port answers on the loopback interface.
pub fn agent_child_server_url<F: Fn(u16) -> bool>(server_url: &str, explicit: Option<&str>, loopback_accepts: F) -> (out: String)
    requires
        forall|p: u16| loopback_accepts.requires((p,)),
    ensures
        probe_port(server_url@, opt_str_view(explicit), false) is None
            ==> out@ == child_url(server_url@, opt_str_view(explicit), false, false),
        probe_port(server_url@, opt_str_view(explicit), false) matches Some(p)
            ==> exists|a: bool| loopback_accepts.ensures((p,), a)
                && out@ == child_url(server_url@, opt_str_view(explicit), false, a),
{
    child_server_url(server_url, explicit, false, loopback_accepts)
}

/// As `agent_child_server_url`, for a child known to run on the server's
/// machine: any remote `ws` host is rewritten, with no probe.
pub fn local_agent_child_server_url(server_url: &str, explicit: Option<&str>) -> (out: String)
    ensures
        out@ == child_url(server_url@, opt_str_view(explicit), true, false),
{
    child_server_url(server_url, explicit, true, |p: u16| -> (r: bool) ensures r == false { false })
}

} // verus!
