//! Which DevTools WebSocket addresses the launcher accepts: plain `ws`, a
//! loopback host, and exactly the debug port that the launcher chose.
use crate::text::{chars_of, occurs_at_exec, strip_bounds, strip_leading, strip_trailing};
use vstd::prelude::*;
use vstd::string::StringExecFns;

verus! {

/// The parts of a parsed URI that the check reads.
#[derive(Debug)]
pub struct UriParts {
    pub scheme: Option<String>,
    pub host: Option<String>,
    pub port: Option<u16>,
}

/// Why a WebSocket address was refused.
#[derive(Debug)]
pub enum UrlError {
    /// The text is no URI; the parser's own description.
    InvalidUri(String),
    /// The scheme is not `ws`.
    NotWs,
    /// The host is neither `127.0.0.1` nor `::1`.
    NotLoopback,
    /// The port is missing or differs from the expected one.
    WrongPort,
}

/// The message the launcher shows for a refused WebSocket address.
pub open spec fn url_error_text(e: UrlError) -> Seq<char> {
    match e {
        UrlError::InvalidUri(d) => "调试页面返回了无效 WebSocket 地址："@ + d@,
        UrlError::NotWs => "调试 WebSocket 必须使用本机 ws 协议"@,
        UrlError::NotLoopback => "调试 WebSocket 地址不是本机回环地址，已拒绝连接"@,
        UrlError::WrongPort => "调试 WebSocket 端口与启动器选择的端口不一致"@,
    }
}

impl UrlError {
    /// The message the launcher shows for this error.
    pub fn message(&self) -> (r: String)
        ensures
            r@ == url_error_text(*self),
    {
        match self {
            UrlError::InvalidUri(d) => {
                let mut m = String::from_str("调试页面返回了无效 WebSocket 地址：");
                m.append(d.as_str());
                m
            },
            UrlError::NotWs => String::from_str("调试 WebSocket 必须使用本机 ws 协议"),
            UrlError::NotLoopback => String::from_str("调试 WebSocket 地址不是本机回环地址，已拒绝连接"),
            UrlError::WrongPort => String::from_str("调试 WebSocket 端口与启动器选择的端口不一致"),
        }
    }
}

/// What the `http` crate's URI parser makes of `url`: scheme, host and port,
/// or its error text.
pub uninterp spec fn uri_components(url: Seq<char>) -> Result<
    (Option<Seq<char>>, Option<Seq<char>>, Option<u16>),
    Seq<char>,
>;

pub open spec fn opt_text(o: Option<String>) -> Option<Seq<char>> {
    match o {
        Some(s) => Some(s@),
        None => None,
    }
}

pub open spec fn parts_model(p: UriParts) -> (Option<Seq<char>>, Option<Seq<char>>, Option<u16>) {
    (opt_text(p.scheme), opt_text(p.host), p.port)
}

/// `http::Uri::from_str` on `url`, read back as its scheme (`scheme_str`), host
/// (`host`) and port (`port_u16`), or the `Display` text of `InvalidUri`.
/// The contract only ties both outcomes to the name `uri_components`: the
/// parser's grammar is not restated here.
#[verifier::external_body]
fn split_uri(url: &str) -> (r: Result<UriParts, String>)
    ensures
        match r {
            Ok(p) => uri_components(url@) == Ok::<_, Seq<char>>(parts_model(p)),
            Err(e) => uri_components(url@) == Err::<(Option<Seq<char>>, Option<Seq<char>>, Option<u16>), _>(e@),
        },
{
    match url.parse::<tungstenite::http::Uri>() {
        Ok(uri) => Ok(UriParts {
            scheme: uri.scheme_str().map(String::from),
            host: uri.host().map(String::from),
            port: uri.port_u16(),
        }),
        Err(error) => Err(error.to_string()),
    }
}

/// The host with its IPv6 brackets taken off is a loopback address.
pub open spec fn loopback_host(host: Seq<char>) -> bool {
    let bare = strip_trailing(strip_leading(host, '['), ']');
    bare == "127.0.0.1"@ || bare == "::1"@
}

/// The verdict on parsed parts: scheme first, then host, then port.
pub open spec fn parts_verdict(
    p: (Option<Seq<char>>, Option<Seq<char>>, Option<u16>),
    expected_port: u16,
) -> Result<(), UrlError> {
    let host = match p.1 {
        Some(h) => h,
        None => Seq::<char>::empty(),
    };
    if p.0 != Some("ws"@) {
        Err(UrlError::NotWs)
    } else if !loopback_host(host) {
        Err(UrlError::NotLoopback)
    } else if p.2 != Some(expected_port) {
        Err(UrlError::WrongPort)
    } else {
        Ok(())
    }
}

fn equal_range(s: &[char], i: usize, j: usize, lit: &str) -> (r: bool)
    requires
        i <= j <= s@.len(),
    ensures
        r == (s@.subrange(i as int, j as int) == lit@),
{
    let l = chars_of(lit);
    if j - i != l.len() {
        return false;
    }
    occurs_at_exec(s, l.as_slice(), i)
}

/// Checks parsed URI parts against the rules for the debug WebSocket.
pub fn check_websocket_parts(parts: &UriParts, expected_port: u16) -> (r: Result<(), UrlError>)
    ensures
        r == parts_verdict(parts_model(*parts), expected_port),
{
    let ws = String::from_str("ws");
    let scheme_ok = match &parts.scheme {
        Some(s) => *s == ws,
        None => false,
    };
    if !scheme_ok {
        return Err(UrlError::NotWs);
    }
    let host: Vec<char> = match &parts.host {
        Some(h) => chars_of(h.as_str()),
        None => Vec::new(),
    };
    proof {
        let hm = match parts_model(*parts).1 {
            Some(h) => h,
            None => Seq::<char>::empty(),
        };
        assert(host@ == hm);
    }
    let (i, j) = strip_bounds(host.as_slice(), '[', ']');
    if !(equal_range(host.as_slice(), i, j, "127.0.0.1") || equal_range(host.as_slice(), i, j, "::1")) {
        return Err(UrlError::NotLoopback);
    }
    if parts.port != Some(expected_port) {
        return Err(UrlError::WrongPort);
    }
    Ok(())
}

/// The verdict on the text `url`: a parse failure, or the verdict on its parts.
pub open spec fn websocket_verdict_holds(url: Seq<char>, expected_port: u16, r: Result<(), UrlError>) -> bool {
    match r {
        Err(UrlError::InvalidUri(m)) => uri_components(url) == Err::<(Option<Seq<char>>, Option<Seq<char>>, Option<u16>), _>(m@),
        _ => match uri_components(url) {
            Ok(p) => r == parts_verdict(p, expected_port),
            Err(_) => false,
        },
    }
}

/// Accepts `url` only as a plain `ws` address on a loopback host at `expected_port`.
pub fn validate_websocket_url(url: &str, expected_port: u16) -> (r: Result<(), UrlError>)
    ensures
        websocket_verdict_holds(url@, expected_port, r),
{
    match split_uri(url) {
        Ok(parts) => check_websocket_parts(&parts, expected_port),
        Err(message) => Err(UrlError::InvalidUri(message)),
    }
}


/// The host that parsed parts name, empty where they name none.
pub open spec fn host_text(p: (Option<Seq<char>>, Option<Seq<char>>, Option<u16>)) -> Seq<char> {
    match p.1 {
        Some(h) => h,
        None => Seq::<char>::empty(),
    }
}

/// Whatever the address, an accepted one is a plain `ws` address on a loopback
/// host at exactly the expected port.
pub proof fn law_accepted_socket_is_loopback(url: Seq<char>, expected_port: u16)
    requires
        websocket_verdict_holds(url, expected_port, Ok(())),
    ensures
        uri_components(url) matches Ok(p) && p.0 == Some("ws"@) && loopback_host(host_text(p))
            && p.2 == Some(expected_port),
{
}

} // verus!
