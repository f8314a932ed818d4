//! The HTTP proxy's request logic: which hosts and URLs are accepted,
//! which headers are forwarded, and the exact text that goes on the wire.

use vstd::prelude::*;
use crate::http_parse::{
    from_utf8_lossy, httparse_request, lossy_utf8, lowercase, scan_request, to_lower, trim,
    trim_whitespace, RawHeaderView,
    RawRequest, RawRequestView, RequestScan, RequestScanView,
};
use crate::text::{
    lacks, lemma_decimal_lacks, lemma_find_from, lemma_find_from_skip, lemma_find_last_skip, law_decimal_round_trip,
    chars_of, contains_chars, contains_seq, decimal, push_decimal, push_signed_decimal, signed_decimal, ends_with, find_char, find_first, find_last, has_prefix_at, parse_decimal,
    parse_decimal_range, rfind_char, same_chars, starts_with, str_eq, string_of, sub_chars,
};

verus! {

/// Why the proxy refuses or fails a request, with the text sent to the client.
#[derive(Debug)]
pub enum ProxyError {
    /// The request is malformed (HTTP 400).
    BadRequest(String),
    /// The request names a host the proxy does not serve (HTTP 403).
    Forbidden(String),
    /// The remote node could not be reached or answered badly (HTTP 502).
    BadGateway(String),
    /// The remote node did not answer in time (HTTP 504).
    GatewayTimeout(String),
}

/// The abstract value of a [`ProxyError`].
pub enum ProxyErrorView {
    BadRequest(Seq<char>),
    Forbidden(Seq<char>),
    BadGateway(Seq<char>),
    GatewayTimeout(Seq<char>),
}

impl ProxyErrorView {
    pub open spec fn status_code(self) -> u16 {
        match self {
            ProxyErrorView::BadRequest(_) => 400,
            ProxyErrorView::Forbidden(_) => 403,
            ProxyErrorView::BadGateway(_) => 502,
            ProxyErrorView::GatewayTimeout(_) => 504,
        }
    }

    pub open spec fn message(self) -> Seq<char> {
        match self {
            ProxyErrorView::BadRequest(m) => m,
            ProxyErrorView::Forbidden(m) => m,
            ProxyErrorView::BadGateway(m) => m,
            ProxyErrorView::GatewayTimeout(m) => m,
        }
    }
}

impl View for ProxyError {
    type V = ProxyErrorView;

    open spec fn view(&self) -> ProxyErrorView {
        match self {
            ProxyError::BadRequest(m) => ProxyErrorView::BadRequest(m@),
            ProxyError::Forbidden(m) => ProxyErrorView::Forbidden(m@),
            ProxyError::BadGateway(m) => ProxyErrorView::BadGateway(m@),
            ProxyError::GatewayTimeout(m) => ProxyErrorView::GatewayTimeout(m@),
        }
    }
}

impl ProxyError {
    /// The HTTP status code that answers this error.
    pub fn status_code(&self) -> (r: u16)
        ensures
            r == self@.status_code(),
    {
        match self {
            ProxyError::BadRequest(_) => 400,
            ProxyError::Forbidden(_) => 403,
            ProxyError::BadGateway(_) => 502,
            ProxyError::GatewayTimeout(_) => 504,
        }
    }

    /// The human-readable description of this error.
    pub fn message(&self) -> (r: &String)
        ensures
            r@ == self@.message(),
    {
        match self {
            ProxyError::BadRequest(m) => m,
            ProxyError::Forbidden(m) => m,
            ProxyError::BadGateway(m) => m,
            ProxyError::GatewayTimeout(m) => m,
        }
    }
}

/// `prefix` followed by `tail`, as a new string.
pub fn joined(prefix: &str, tail: &str) -> (r: String)
    ensures
        r@ == prefix@ + tail@,
{
    let mut s = String::from_str(prefix);
    s.append(tail);
    s
}

/// Where a proxied request goes.
#[derive(Debug)]
pub struct ProxyTarget {
    /// The node that serves the request.
    pub node_number: i32,
    /// The port on that node (80 unless the URL names one).
    pub port: u16,
    /// The path, with its query string (such as `/path?query=1`).
    pub path: String,
}

pub struct ProxyTargetView {
    pub node_number: i32,
    pub port: u16,
    pub path: Seq<char>,
}

impl View for ProxyTarget {
    type V = ProxyTargetView;

    open spec fn view(&self) -> ProxyTargetView {
        ProxyTargetView { node_number: self.node_number, port: self.port, path: self.path@ }
    }
}

/// A hostname of the form `<node>.wispers.link`.
#[derive(Debug)]
pub struct WispersHost {
    /// The node that the hostname names.
    pub node_number: i32,
}

pub open spec fn wispers_suffix() -> Seq<char> {
    ".wispers.link"@
}

/// The node that `host` names, `Err(None)` when `host` is not under
/// `wispers.link`, and `Err(Some(..))` when its node label is not a positive
/// number that fits an `i32`.
pub open spec fn spec_wispers_host(host: Seq<char>) -> Result<i32, Option<ProxyErrorView>> {
    if !ends_with(host, wispers_suffix()) {
        Err(None)
    } else {
        let label = host.take(host.len() - wispers_suffix().len());
        match parse_decimal(label, 0x7fff_ffff) {
            Some(n) => if n >= 1 {
                Ok(n as i32)
            } else {
                Err(Some(ProxyErrorView::BadRequest("invalid node number in hostname: "@ + host)))
            },
            None => Err(Some(ProxyErrorView::BadRequest("invalid node number in hostname: "@ + host))),
        }
    }
}

/// The node number in `v[from..to]`, read as a hostname.
fn wispers_node_in(v: &Vec<char>, from: usize, to: usize) -> (r: Result<i32, Option<ProxyError>>)
    requires
        from <= to <= v@.len(),
    ensures
        match r {
            Ok(n) => spec_wispers_host(v@.subrange(from as int, to as int)) == Ok::<
                i32,
                Option<ProxyErrorView>,
            >(n),
            Err(None) => spec_wispers_host(v@.subrange(from as int, to as int)) == Err::<
                i32,
                Option<ProxyErrorView>,
            >(None),
            Err(Some(e)) => spec_wispers_host(v@.subrange(from as int, to as int)) == Err::<
                i32,
                Option<ProxyErrorView>,
            >(Some(e@)),
        },
{
    let ghost host = v@.subrange(from as int, to as int);
    let suffix = chars_of(".wispers.link");
    let n = suffix.len();
    if to - from < n {
        return Err(None);
    }
    let label_end = to - n;
    let h = string_of(v, from, to);
    let tail = string_of(v, label_end, to);
    let tail_chars = chars_of(tail.as_str());
    assert(host.subrange(host.len() - n, host.len() as int) =~= v@.subrange(
        label_end as int,
        to as int,
    ));
    if !same_chars(&tail_chars, &suffix) {
        return Err(None);
    }
    assert(host.take(host.len() - n) =~= v@.subrange(from as int, label_end as int));
    let ghost label = v@.subrange(from as int, label_end as int);
    match parse_decimal_range(v, from, label_end, 0x7fff_ffff) {
        Some(k) => {
            assert(parse_decimal(label, 0x7fff_ffff) == Some(k as int));
            assert(k <= 0x7fff_ffff);
            if k >= 1 {
                Ok(k as i32)
            } else {
                Err(Some(ProxyError::BadRequest(joined("invalid node number in hostname: ", h.as_str()))))
            }
        },
        None => Err(Some(ProxyError::BadRequest(joined("invalid node number in hostname: ", h.as_str())))),
    }
}

/// Reads a hostname of the form `<node>.wispers.link`.
///
/// Returns `Err(None)` for a host outside `wispers.link`, and a bad-request
/// error for a `wispers.link` host whose node label is not a positive number.
pub fn parse_wispers_host(host: &str) -> (r: Result<WispersHost, Option<ProxyError>>)
    ensures
        match r {
            Ok(h) => spec_wispers_host(host@) == Ok::<i32, Option<ProxyErrorView>>(h.node_number),
            Err(None) => spec_wispers_host(host@) == Err::<i32, Option<ProxyErrorView>>(None),
            Err(Some(e)) => spec_wispers_host(host@) == Err::<i32, Option<ProxyErrorView>>(
                Some(e@),
            ),
        },
{
    let v = chars_of(host);
    assert(v@.subrange(0, v@.len() as int) =~= host@);
    match wispers_node_in(&v, 0, v.len()) {
        Ok(n) => Ok(WispersHost { node_number: n }),
        Err(e) => Err(e),
    }
}

pub open spec fn http_scheme() -> Seq<char> {
    "http://"@
}

/// What [`parse_proxy_target`] makes of an absolute URL
/// `http://<node>.wispers.link[:port]/path`.
pub open spec fn spec_parse_proxy_target(url: Seq<char>) -> Result<ProxyTargetView, ProxyErrorView> {
    if !starts_with(url, http_scheme()) {
        Err(ProxyErrorView::BadRequest("proxy requests must use absolute URLs (http://...)"@))
    } else {
        let rest = url.skip(http_scheme().len() as int);
        let slash = find_first(rest, '/');
        let host_port = if slash >= 0 { rest.take(slash) } else { rest };
        let path = if slash >= 0 { rest.skip(slash) } else { "/"@ };
        spec_target_from_parts(host_port, path)
    }
}

/// The target named by the `host[:port]` part of a URL and its path.
pub open spec fn spec_target_from_parts(host_port: Seq<char>, path: Seq<char>) -> Result<
    ProxyTargetView,
    ProxyErrorView,
> {
    let colon = find_last(host_port, ':');
    let host = if colon >= 0 { host_port.take(colon) } else { host_port };
    let port_text = host_port.skip(colon + 1);
    let port = if colon >= 0 { parse_decimal(port_text, 65535) } else { Some(80) };
    match port {
        None => Err(ProxyErrorView::BadRequest("invalid port: "@ + port_text)),
        Some(p) => match spec_wispers_host(host) {
            Ok(n) => Ok(ProxyTargetView { node_number: n, port: p as u16, path }),
            Err(None) => Err(
                ProxyErrorView::Forbidden("only *.wispers.link hosts are allowed, got: "@ + host),
            ),
            Err(Some(e)) => Err(e),
        },
    }
}

pub open spec fn target_result_view(r: Result<ProxyTarget, ProxyError>) -> Result<
    ProxyTargetView,
    ProxyErrorView,
> {
    match r {
        Ok(t) => Ok(t@),
        Err(e) => Err(e@),
    }
}

/// Reads the target of a proxy request from its absolute URL, expected as
/// `http://<node_number>.wispers.link[:port]/path`.
pub fn parse_proxy_target(url: &str) -> (r: Result<ProxyTarget, ProxyError>)
    ensures
        target_result_view(r) == spec_parse_proxy_target(url@),
{
    let u = chars_of(url);
    let scheme = chars_of("http://");
    assert(u@.subrange(0, u@.len() as int) =~= u@);
    if !has_prefix_at(&u, 0, &scheme) {
        return Err(
            ProxyError::BadRequest(
                String::from_str("proxy requests must use absolute URLs (http://...)"),
            ),
        );
    }
    let rest = sub_chars(&u, scheme.len(), u.len());
    assert(rest@ =~= url@.skip(http_scheme().len() as int));
    let rest_len = rest.len();
    let ghost slash = find_first(rest@, '/');
    let (host_port, path) = match find_char(&rest, '/') {
        Some(pos) => (sub_chars(&rest, 0, pos), string_of(&rest, pos, rest_len)),
        None => {
            assert(rest@.subrange(0, rest_len as int) =~= rest@);
            (sub_chars(&rest, 0, rest_len), String::from_str("/"))
        },
    };
    assert(host_port@ =~= (if slash >= 0 { rest@.take(slash) } else { rest@ }));
    assert(path@ =~= (if slash >= 0 { rest@.skip(slash) } else { "/"@ }));
    let hp_len = host_port.len();
    let ghost colon = find_last(host_port@, ':');
    let ghost port_text = host_port@.skip(colon + 1);
    let (host_end, port) = match rfind_char(&host_port, ':') {
        Some(pos) => {
            assert(host_port@.subrange(pos + 1, hp_len as int) =~= port_text);
            match parse_decimal_range(&host_port, pos + 1, hp_len, 65535) {
                Some(p) => (pos, p as u16),
                None => {
                    let port_text_s = string_of(&host_port, pos + 1, hp_len);
                    return Err(
                        ProxyError::BadRequest(joined("invalid port: ", port_text_s.as_str())),
                    );
                },
            }
        },
        None => (hp_len, 80u16),
    };
    assert(host_port@.subrange(0, host_end as int) =~= (if colon >= 0 {
        host_port@.take(colon)
    } else {
        host_port@
    }));
    match wispers_node_in(&host_port, 0, host_end) {
        Ok(n) => Ok(ProxyTarget { node_number: n, port, path }),
        Err(None) => {
            let host = string_of(&host_port, 0, host_end);
            Err(
                ProxyError::Forbidden(
                    joined("only *.wispers.link hosts are allowed, got: ", host.as_str()),
                ),
            )
        },
        Err(Some(e)) => Err(e),
    }
}

/// A request that the proxy has accepted, ready to forward.
#[derive(Debug)]
pub struct ParsedRequest {
    /// Where the request goes.
    pub target: ProxyTarget,
    /// The request method, such as `GET`.
    pub method: String,
    /// The HTTP minor version: 0 for HTTP/1.0, 1 for HTTP/1.1.
    pub version: u8,
    /// The headers to forward, hop-by-hop headers left out.
    pub headers: Vec<(String, String)>,
    /// Whether the client connection stays open after the response.
    pub keep_alive: bool,
}

pub struct ParsedRequestView {
    pub target: ProxyTargetView,
    pub method: Seq<char>,
    pub version: u8,
    pub headers: Seq<(Seq<char>, Seq<char>)>,
    pub keep_alive: bool,
}

impl View for ParsedRequest {
    type V = ParsedRequestView;

    open spec fn view(&self) -> ParsedRequestView {
        ParsedRequestView {
            target: self.target@,
            method: self.method@,
            version: self.version,
            headers: self.headers.deep_view(),
            keep_alive: self.keep_alive,
        }
    }
}

/// `name: value\r\n` for each header, in order.
pub open spec fn header_lines(hs: Seq<(Seq<char>, Seq<char>)>) -> Seq<char>
    decreases hs.len(),
{
    if hs.len() == 0 {
        Seq::empty()
    } else {
        header_lines(hs.drop_last()) + hs.last().0 + ": "@ + hs.last().1 + "\r\n"@
    }
}

pub open spec fn version_text(version: u8) -> Seq<char> {
    if version == 0 {
        "1.0"@
    } else {
        "1.1"@
    }
}

/// The text of the request that goes to the remote server.
pub open spec fn request_text(r: ParsedRequestView) -> Seq<char> {
    r.method + " "@ + r.target.path + " HTTP/"@ + version_text(r.version) + "\r\n"@ + header_lines(
        r.headers,
    ) + "\r\n"@
}

/// Builds the HTTP request that goes to the remote server: the request line
/// `METHOD /path HTTP/1.x`, one line per header, and an empty line.
pub fn build_http_request(request: &ParsedRequest) -> (r: String)
    ensures
        r@ == request_text(request@),
{
    let mut http = String::new();
    http.append(request.method.as_str());
    http.append(" ");
    http.append(request.target.path.as_str());
    http.append(" HTTP/");
    let version = if request.version == 0 {
        "1.0"
    } else {
        "1.1"
    };
    http.append(version);
    http.append("\r\n");
    let ghost start = http@;
    let ghost hs = request@.headers;
    assert(hs.take(0) =~= Seq::<(Seq<char>, Seq<char>)>::empty());
    let mut i: usize = 0;
    while i < request.headers.len()
        invariant
            i <= request.headers@.len(),
            hs == request.headers.deep_view(),
            hs.len() == request.headers@.len(),
            http@ == start + header_lines(hs.take(i as int)),
        decreases request.headers@.len() - i,
    {
        let (name, value) = &request.headers[i];
        assert(hs[i as int] == (name@, value@));
        http.append(name.as_str());
        http.append(": ");
        http.append(value.as_str());
        http.append("\r\n");
        assert(hs.take(i + 1).drop_last() =~= hs.take(i as int));
        i = i + 1;
        assert(http@ =~= start + header_lines(hs.take(i as int)));
    }
    assert(hs.take(i as int) =~= hs);
    http.append("\r\n");
    assert(http@ =~= request_text(request@));
    http
}

/// Header names (in lower case) that apply to one connection only.
pub open spec fn spec_is_hop_by_hop(name: Seq<char>) -> bool {
    ||| name == "connection"@
    ||| name == "keep-alive"@
    ||| name == "proxy-authenticate"@
    ||| name == "proxy-authorization"@
    ||| name == "te"@
    ||| name == "trailers"@
    ||| name == "transfer-encoding"@
    ||| name == "upgrade"@
}

/// Whether a (lower-case) header name belongs to one connection only, so
/// that the proxy does not forward it.
pub fn is_hop_by_hop_header(name: &str) -> (r: bool)
    ensures
        r == spec_is_hop_by_hop(name@),
{
    str_eq(name, "connection") || str_eq(name, "keep-alive") || str_eq(name, "proxy-authenticate")
        || str_eq(name, "proxy-authorization") || str_eq(name, "te") || str_eq(name, "trailers")
        || str_eq(name, "transfer-encoding") || str_eq(name, "upgrade")
}

/// The reason phrase that goes with an HTTP status code.
pub open spec fn spec_status_text(status: u16) -> Seq<char> {
    if status == 400 {
        "Bad Request"@
    } else if status == 403 {
        "Forbidden"@
    } else if status == 502 {
        "Bad Gateway"@
    } else if status == 504 {
        "Gateway Timeout"@
    } else {
        "Error"@
    }
}

/// The reason phrase that goes with an HTTP status code ("Error" for codes
/// the proxy does not send itself).
pub fn status_text(status: u16) -> (r: &'static str)
    ensures
        r@ == spec_status_text(status),
{
    if status == 400 {
        "Bad Request"
    } else if status == 403 {
        "Forbidden"
    } else if status == 502 {
        "Bad Gateway"
    } else if status == 504 {
        "Gateway Timeout"
    } else {
        "Error"
    }
}

/// The full text of an error response: status line, plain-text headers that
/// close the connection, and the message as body.
pub open spec fn error_response_text(status: u16, message: Seq<char>) -> Seq<char> {
    "HTTP/1.1 "@ + decimal(status as nat) + " "@ + spec_status_text(status)
        + "\r\nContent-Type: text/plain\r\nConnection: close\r\n\r\n"@ + message + "\n"@
}

/// Builds the error response that the proxy sends to its client.
pub fn error_response(status: u16, message: &str) -> (r: String)
    ensures
        r@ == error_response_text(status, message@),
{
    let mut out = String::from_str("HTTP/1.1 ");
    push_decimal(&mut out, status as u64);
    out.append(" ");
    out.append(status_text(status));
    out.append("\r\nContent-Type: text/plain\r\nConnection: close\r\n\r\n");
    out.append(message);
    out.append("\n");
    out
}

impl ProxyError {
    /// The error response that answers this error.
    pub fn response(&self) -> (r: String)
        ensures
            r@ == error_response_text(self@.status_code(), self@.message()),
    {
        error_response(self.status_code(), self.message().as_str())
    }
}

/// The command that asks the remote node to open a stream to `port`.
pub open spec fn forward_command_text(port: u16) -> Seq<char> {
    "FORWARD "@ + decimal(port as nat) + "\n"@
}

/// Builds the `FORWARD <port>` command line sent on a fresh stream.
pub fn forward_command(port: u16) -> (r: String)
    ensures
        r@ == forward_command_text(port),
{
    let mut out = String::from_str("FORWARD ");
    push_decimal(&mut out, port as u64);
    out.append("\n");
    out
}

/// A header name, lower-cased.
pub open spec fn lower_name(h: RawHeaderView) -> Seq<char> {
    to_lower(h.name)
}

/// Whether the proxy passes this header on.
pub open spec fn is_forwarded(h: RawHeaderView) -> bool {
    lower_name(h) != "connection"@ && !spec_is_hop_by_hop(lower_name(h))
}

/// The headers that the proxy passes on, in order, with values decoded as text.
pub open spec fn forwarded_headers(hs: Seq<RawHeaderView>) -> Seq<(Seq<char>, Seq<char>)>
    decreases hs.len(),
{
    if hs.len() == 0 {
        Seq::empty()
    } else if is_forwarded(hs.last()) {
        forwarded_headers(hs.drop_last()).push((hs.last().name, lossy_utf8(hs.last().value)))
    } else {
        forwarded_headers(hs.drop_last())
    }
}

/// Whether the connection stays open: the last `Connection` header decides
/// (it must name `keep-alive`), and without one the default holds.
pub open spec fn keep_alive_after(hs: Seq<RawHeaderView>, default: bool) -> bool
    decreases hs.len(),
{
    if hs.len() == 0 {
        default
    } else if lower_name(hs.last()) == "connection"@ {
        contains_seq(to_lower(lossy_utf8(hs.last().value)), "keep-alive"@)
    } else {
        keep_alive_after(hs.drop_last(), default)
    }
}

/// Whether the request carries a `Host` header.
pub open spec fn has_host_header(hs: Seq<RawHeaderView>) -> bool {
    exists|i: int| 0 <= i < hs.len() && lower_name(#[trigger] hs[i]) == "host"@
}

/// The `Host` header value that names a target.
pub open spec fn default_host(t: ProxyTargetView) -> Seq<char> {
    if t.port == 80 {
        signed_decimal(t.node_number as int) + ".wispers.link"@
    } else {
        signed_decimal(t.node_number as int) + ".wispers.link:"@ + decimal(t.port as nat)
    }
}

/// What the proxy makes of a scanned request head.
pub open spec fn spec_request_from_raw(raw: RawRequestView) -> Result<ParsedRequestView, ProxyErrorView> {
    match raw.method {
        None => Err(ProxyErrorView::BadRequest("missing method"@)),
        Some(method) => match raw.path {
            None => Err(ProxyErrorView::BadRequest("missing path"@)),
            Some(path) => match raw.version {
                None => Err(ProxyErrorView::BadRequest("missing version"@)),
                Some(version) => match spec_parse_proxy_target(path) {
                    Err(e) => Err(e),
                    Ok(target) => {
                        let fwd = forwarded_headers(raw.headers);
                        Ok(
                            ParsedRequestView {
                                target,
                                method,
                                version,
                                headers: if has_host_header(raw.headers) {
                                    fwd
                                } else {
                                    fwd.push(("Host"@, default_host(target)))
                                },
                                keep_alive: keep_alive_after(raw.headers, version == 1),
                            },
                        )
                    },
                },
            },
        },
    }
}

/// What [`parse_request`] makes of a buffer.
pub open spec fn spec_parse_request(buf: Seq<u8>) -> Result<ParsedRequestView, ProxyErrorView> {
    match httparse_request(buf) {
        Err(d) => Err(ProxyErrorView::BadRequest("failed to parse HTTP request: "@ + d)),
        Ok(RequestScanView::Partial) => Err(ProxyErrorView::BadRequest("incomplete HTTP request"@)),
        Ok(RequestScanView::Complete(raw)) => spec_request_from_raw(raw),
    }
}

pub open spec fn request_result_view(r: Result<ParsedRequest, ProxyError>) -> Result<
    ParsedRequestView,
    ProxyErrorView,
> {
    match r {
        Ok(p) => Ok(p@),
        Err(e) => Err(e@),
    }
}

/// Builds the `Host` value `<node>.wispers.link[:port]` for a target.
fn host_for(target: &ProxyTarget) -> (r: String)
    ensures
        r@ == default_host(target@),
{
    let mut out = String::new();
    push_signed_decimal(&mut out, target.node_number as i64);
    if target.port == 80 {
        out.append(".wispers.link");
    } else {
        out.append(".wispers.link:");
        push_decimal(&mut out, target.port as u64);
    }
    out
}

/// Turns a scanned request head into a request to forward: reads the target
/// from the absolute URL, drops hop-by-hop headers, takes the keep-alive
/// choice from the `Connection` header (HTTP/1.1 keeps alive by default),
/// and adds a `Host` header when the client sent none.
pub fn request_from_raw(raw: RawRequest) -> (r: Result<ParsedRequest, ProxyError>)
    ensures
        request_result_view(r) == spec_request_from_raw(raw@),
{
    let method = match &raw.method {
        Some(m) => m.clone(),
        None => {
            return Err(ProxyError::BadRequest(String::from_str("missing method")));
        },
    };
    let path = match &raw.path {
        Some(p) => p,
        None => {
            return Err(ProxyError::BadRequest(String::from_str("missing path")));
        },
    };
    let version = match raw.version {
        Some(v) => v,
        None => {
            return Err(ProxyError::BadRequest(String::from_str("missing version")));
        },
    };
    let target = match parse_proxy_target(path.as_str()) {
        Ok(t) => t,
        Err(e) => {
            return Err(e);
        },
    };
    let ghost hs = raw@.headers;
    let keep_alive_word = chars_of("keep-alive");
    let mut parsed_headers: Vec<(String, String)> = Vec::new();
    let mut keep_alive = version == 1;
    let mut host_seen = false;
    let mut i: usize = 0;
    assert(hs.take(0) =~= Seq::<RawHeaderView>::empty());
    proof {
        reveal_strlit("host");
        reveal_strlit("connection");
        reveal_strlit("keep-alive");
        reveal_strlit("proxy-authenticate");
        reveal_strlit("proxy-authorization");
        reveal_strlit("te");
        reveal_strlit("trailers");
        reveal_strlit("transfer-encoding");
        reveal_strlit("upgrade");
        assert("host"@.len() == 4);
        assert("connection"@.len() == 10);
        assert("keep-alive"@.len() == 10);
        assert("proxy-authenticate"@.len() == 18);
        assert("proxy-authorization"@.len() == 19);
        assert("te"@.len() == 2);
        assert("trailers"@.len() == 8);
        assert("transfer-encoding"@.len() == 17);
        assert("upgrade"@.len() == 7);
        assert(!spec_is_hop_by_hop("host"@));
        assert("host"@ != "connection"@);
    }
    while i < raw.headers.len()
        invariant
            i <= raw.headers@.len(),
            hs == raw@.headers,
            hs.len() == raw.headers@.len(),
            keep_alive_word@ == "keep-alive"@,
            !spec_is_hop_by_hop("host"@),
            "host"@ != "connection"@,
            parsed_headers.deep_view() == forwarded_headers(hs.take(i as int)),
            keep_alive == keep_alive_after(hs.take(i as int), version == 1),
            host_seen == has_host_header(hs.take(i as int)),
        decreases raw.headers@.len() - i,
    {
        let header = &raw.headers[i];
        assert(hs[i as int] == header@);
        let ghost prefix = hs.take(i as int);
        let ghost next = hs.take(i + 1);
        assert(next.drop_last() =~= prefix);
        assert(next.last() == header@);
        let name = lowercase(header.name.as_str());
        let value = from_utf8_lossy(header.value.as_slice());
        let is_host = str_eq(name.as_str(), "host");
        assert(has_host_header(next) == (has_host_header(prefix) || is_host)) by {
            if has_host_header(prefix) {
                let k = choose|k: int| 0 <= k < prefix.len() && lower_name(#[trigger] prefix[k]) == "host"@;
                assert(next[k] == prefix[k]);
            }
            if has_host_header(next) && !is_host {
                let k = choose|k: int| 0 <= k < next.len() && lower_name(#[trigger] next[k]) == "host"@;
                assert(k < prefix.len());
                assert(prefix[k] == next[k]);
            }
            if is_host {
                assert(lower_name(next[i as int]) == "host"@);
            }
        }
        if str_eq(name.as_str(), "connection") {
            let lowered = lowercase(value.as_str());
            let lowered_chars = chars_of(lowered.as_str());
            keep_alive = contains_chars(&lowered_chars, &keep_alive_word);
            assert(!is_host);
        } else if is_hop_by_hop_header(name.as_str()) {
            assert(!is_host);
        } else {
            if is_host {
                host_seen = true;
            }
            parsed_headers.push((header.name.clone(), value));
            assert(parsed_headers.deep_view() =~= forwarded_headers(next));
        }
        assert(parsed_headers.deep_view() =~= forwarded_headers(next));
        i = i + 1;
    }
    assert(hs.take(i as int) =~= hs);
    if !host_seen {
        let host = host_for(&target);
        parsed_headers.push((String::from_str("Host"), host));
    }
    let result = ParsedRequest { target, method, version, headers: parsed_headers, keep_alive };
    assert(result@.headers =~= (if has_host_header(hs) {
        forwarded_headers(hs)
    } else {
        forwarded_headers(hs).push(("Host"@, default_host(result@.target)))
    }));
    Ok(result)
}

/// Parses an HTTP request head from a buffer with `httparse` and turns it
/// into a request to forward (see [`request_from_raw`]).
pub fn parse_request(buf: &[u8]) -> (r: Result<ParsedRequest, ProxyError>)
    ensures
        request_result_view(r) == spec_parse_request(buf@),
{
    match scan_request(buf) {
        Err(description) => Err(
            ProxyError::BadRequest(joined("failed to parse HTTP request: ", description.as_str())),
        ),
        Ok(RequestScan::Partial) => Err(
            ProxyError::BadRequest(String::from_str("incomplete HTTP request")),
        ),
        Ok(RequestScan::Complete(raw)) => request_from_raw(raw),
    }
}

/// What the proxy makes of the remote node's answer to a `FORWARD` command,
/// once decoded and trimmed: `OK` lets the request through, `ERROR <why>`
/// and anything else are answered with a bad-gateway error.
pub open spec fn spec_reply_verdict(t: Seq<char>) -> Result<(), ProxyErrorView> {
    if starts_with(t, "ERROR "@) {
        Err(ProxyErrorView::BadGateway("Remote error: "@ + t.skip("ERROR "@.len() as int)))
    } else if t != "OK"@ {
        Err(ProxyErrorView::BadGateway("Unexpected response: "@ + t))
    } else {
        Ok(())
    }
}

/// How the proxy reads the remote node's answer: the reply bytes are
/// decoded as text and trimmed, then judged by [`spec_reply_verdict`].
pub open spec fn spec_forward_reply(reply: Seq<u8>) -> Result<(), ProxyErrorView> {
    spec_reply_verdict(trim_whitespace(lossy_utf8(reply)))
}

pub open spec fn unit_result_view(r: Result<(), ProxyError>) -> Result<(), ProxyErrorView> {
    match r {
        Ok(()) => Ok(()),
        Err(e) => Err(e@),
    }
}

/// Judges the remote node's decoded and trimmed answer to a `FORWARD`
/// command.
pub fn reply_verdict(trimmed: &str) -> (r: Result<(), ProxyError>)
    ensures
        unit_result_view(r) == spec_reply_verdict(trimmed@),
{
    let t = chars_of(trimmed);
    let error_word = chars_of("ERROR ");
    assert(t@.subrange(0, t@.len() as int) =~= t@);
    if has_prefix_at(&t, 0, &error_word) {
        let why = string_of(&t, error_word.len(), t.len());
        return Err(ProxyError::BadGateway(joined("Remote error: ", why.as_str())));
    }
    let ok_word = chars_of("OK");
    if !same_chars(&t, &ok_word) {
        return Err(ProxyError::BadGateway(joined("Unexpected response: ", trimmed)));
    }
    Ok(())
}

/// Checks the remote node's answer to a `FORWARD` command.
pub fn check_forward_reply(reply: &[u8]) -> (r: Result<(), ProxyError>)
    ensures
        unit_result_view(r) == spec_forward_reply(reply@),
{
    let text = from_utf8_lossy(reply);
    let trimmed = trim(text.as_str());
    reply_verdict(trimmed.as_str())
}

/// The URL `http://<node>.wispers.link[:port]<path>` for a target.
pub open spec fn target_url(node_number: i32, port: Option<u16>, path: Seq<char>) -> Seq<char> {
    "http://"@ + decimal(node_number as nat) + ".wispers.link"@ + match port {
        Some(p) => seq![':'] + decimal(p as nat),
        None => Seq::<char>::empty(),
    } + path
}

/// A URL's text after `http://`, split at its first `/` when the host part
/// holds none.
proof fn lemma_split_at_path(host_part: Seq<char>, path: Seq<char>)
    requires
        lacks(host_part, '/'),
        path.len() == 0 || path[0] == '/',
    ensures
        ({
            let rest = host_part + path;
            let slash = find_first(rest, '/');
            &&& (if slash >= 0 { rest.take(slash) } else { rest }) == host_part
            &&& (if slash >= 0 { rest.skip(slash) } else { "/"@ }) == (if path.len() == 0 {
                "/"@
            } else {
                path
            })
        }),
{
    let rest = host_part + path;
    assert forall|j: int| 0 <= j < host_part.len() implies rest[j] != '/' by {
        assert(rest[j] == host_part[j]);
    }
    lemma_find_from_skip(rest, '/', 0, host_part.len() as int);
    if path.len() == 0 {
        assert(rest =~= host_part);
    } else {
        assert(rest[host_part.len() as int] == '/');
        assert(rest.take(host_part.len() as int) =~= host_part);
        assert(rest.skip(host_part.len() as int) =~= path);
    }
}

/// Every positive node number reads back from its host name
/// `<node>.wispers.link`; the name holds no `/` or `:`, so it stands in a
/// URL as a whole host.
pub proof fn law_node_host_round_trip(node_number: i32)
    requires
        node_number >= 1,
    ensures
        spec_wispers_host(decimal(node_number as nat) + wispers_suffix()) == Ok::<
            i32,
            Option<ProxyErrorView>,
        >(node_number),
        lacks(decimal(node_number as nat) + wispers_suffix(), '/'),
        lacks(decimal(node_number as nat) + wispers_suffix(), ':'),
{
    reveal_strlit(".wispers.link");
    let num = decimal(node_number as nat);
    let sfx = wispers_suffix();
    let a = num + sfx;
    lemma_decimal_lacks(node_number as nat, '/');
    lemma_decimal_lacks(node_number as nat, ':');
    assert forall|j: int| 0 <= j < a.len() implies a[j] != '/' && a[j] != ':' by {
        if j < num.len() {
            assert(a[j] == num[j]);
        } else {
            assert(a[j] == sfx[j - num.len()]);
        }
    }
    assert(a.subrange(a.len() - sfx.len(), a.len() as int) =~= sfx);
    assert(a.take(a.len() - sfx.len()) =~= num);
    law_decimal_round_trip(node_number as nat, 0x7fff_ffff);
}

/// The `host[:port]` part of a documented URL reads back as its node and port.
proof fn lemma_node_host_port(node_number: i32, port: Option<u16>, path: Seq<char>)
    requires
        node_number >= 1,
    ensures
        ({
            let a = decimal(node_number as nat) + wispers_suffix();
            let host_part = a + match port {
                Some(p) => seq![':'] + decimal(p as nat),
                None => Seq::<char>::empty(),
            };
            &&& lacks(host_part, '/')
            &&& spec_target_from_parts(host_part, path) == Ok::<ProxyTargetView, ProxyErrorView>(
                ProxyTargetView {
                    node_number,
                    port: match port {
                        Some(p) => p,
                        None => 80,
                    },
                    path,
                },
            )
        }),
{
    law_node_host_round_trip(node_number);
    let a = decimal(node_number as nat) + wispers_suffix();
    match port {
        Some(p) => {
            let dp = decimal(p as nat);
            let host_part = a + (seq![':'] + dp);
            lemma_decimal_lacks(p as nat, '/');
            lemma_decimal_lacks(p as nat, ':');
            assert forall|j: int| 0 <= j < host_part.len() implies host_part[j] != '/' by {
                if j < a.len() {
                    assert(host_part[j] == a[j]);
                } else if j > a.len() {
                    assert(host_part[j] == dp[j - a.len() - 1]);
                }
            }
            assert forall|j: int| a.len() + 1 <= j < host_part.len() implies host_part[j]
                != ':' by {
                assert(host_part[j] == dp[j - a.len() - 1]);
            }
            lemma_find_last_skip(host_part, ':', (a.len() + 1) as int, host_part.len() as int);
            assert(host_part[a.len() as int] == ':');
            assert(find_last(host_part, ':') == a.len());
            assert(host_part.skip((a.len() + 1) as int) =~= dp);
            law_decimal_round_trip(p as nat, 65535);
            assert(host_part.take(a.len() as int) =~= a);
        },
        None => {
            let host_part = a + Seq::<char>::empty();
            assert(host_part =~= a);
            lemma_find_last_skip(host_part, ':', 0, host_part.len() as int);
        },
    }
}

/// Every URL of the documented form `http://<node>.wispers.link[:port]/path`
/// reads back as its target: the node, the port (80 when none is given) and
/// the path (`/` when none is given).
pub proof fn law_target_url_round_trip(node_number: i32, port: Option<u16>, path: Seq<char>)
    requires
        node_number >= 1,
        path.len() == 0 || path[0] == '/',
    ensures
        spec_parse_proxy_target(target_url(node_number, port, path)) == Ok::<
            ProxyTargetView,
            ProxyErrorView,
        >(
            ProxyTargetView {
                node_number,
                port: match port {
                    Some(p) => p,
                    None => 80,
                },
                path: if path.len() == 0 {
                    "/"@
                } else {
                    path
                },
            },
        ),
{
    reveal_strlit("http://");
    let url = target_url(node_number, port, path);
    let scheme = http_scheme();
    let a = decimal(node_number as nat) + wispers_suffix();
    let host_part = a + match port {
        Some(p) => seq![':'] + decimal(p as nat),
        None => Seq::<char>::empty(),
    };
    let out_path = if path.len() == 0 {
        "/"@
    } else {
        path
    };
    lemma_node_host_port(node_number, port, out_path);
    assert(url =~= scheme + (host_part + path));
    assert(url.subrange(0, scheme.len() as int) =~= scheme);
    assert(url.skip(scheme.len() as int) =~= host_part + path);
    lemma_split_at_path(host_part, path);
}

/// A target read from a URL names a positive node and an absolute path,
/// and a URL that is refused is refused as a client error: bad request
/// (400) or forbidden host (403).
pub proof fn law_target_shape(url: Seq<char>)
    ensures
        spec_parse_proxy_target(url) matches Ok(t) ==> t.node_number >= 1 && t.path.len() > 0
            && t.path[0] == '/',
        spec_parse_proxy_target(url) matches Err(e) ==> e.status_code() == 400
            || e.status_code() == 403,
{
    reveal_strlit("/");
    if starts_with(url, http_scheme()) {
        let rest = url.skip(http_scheme().len() as int);
        lemma_find_from(rest, '/', 0);
    }
}

/// The forwarded request starts with the request line `METHOD path
/// HTTP/1.x` and a line break, the stored path carried whole, query string
/// included; HTTP/1.0 requests go out as 1.0, all others as 1.1.
pub proof fn law_request_line(r: ParsedRequestView)
    ensures
        ({
            let line = r.method + " "@ + r.target.path + " HTTP/"@ + (if r.version == 0 {
                "1.0"@
            } else {
                "1.1"@
            }) + "\r\n"@;
            &&& line.len() <= request_text(r).len()
            &&& request_text(r).take(line.len() as int) == line
        }),
{
    let line = r.method + " "@ + r.target.path + " HTTP/"@ + (if r.version == 0 {
        "1.0"@
    } else {
        "1.1"@
    }) + "\r\n"@;
    let t = request_text(r);
    assert(t == line + header_lines(r.headers) + "\r\n"@);
    assert(t.take(line.len() as int) =~= line);
}

/// The hop-by-hop header names are exactly these eight: `connection`,
/// `keep-alive`, `proxy-authenticate`, `proxy-authorization`, `te`,
/// `trailers`, `transfer-encoding` and `upgrade`. A client header is passed
/// on exactly when its lower-cased name is none of them, so every other
/// header (such as `cookie` or `host`) reaches the remote node.
pub proof fn law_hop_by_hop_names(name: Seq<char>, h: RawHeaderView)
    ensures
        spec_is_hop_by_hop(name) <==> (name == "connection"@ || name == "keep-alive"@ || name
            == "proxy-authenticate"@ || name == "proxy-authorization"@ || name == "te"@ || name
            == "trailers"@ || name == "transfer-encoding"@ || name == "upgrade"@),
        is_forwarded(h) <==> !(lower_name(h) == "connection"@ || lower_name(h) == "keep-alive"@
            || lower_name(h) == "proxy-authenticate"@ || lower_name(h) == "proxy-authorization"@
            || lower_name(h) == "te"@ || lower_name(h) == "trailers"@ || lower_name(h)
            == "transfer-encoding"@ || lower_name(h) == "upgrade"@),
{
}

/// Every error the proxy answers with goes out under its own reason
/// phrase, never the generic `Error`.
pub proof fn law_error_reason(e: ProxyErrorView)
    ensures
        spec_status_text(e.status_code()) != "Error"@,
{
    reveal_strlit("Error");
    reveal_strlit("Bad Request");
    reveal_strlit("Forbidden");
    reveal_strlit("Bad Gateway");
    reveal_strlit("Gateway Timeout");
    assert("Bad Request"@.len() != "Error"@.len());
    assert("Forbidden"@.len() != "Error"@.len());
    assert("Bad Gateway"@.len() != "Error"@.len());
    assert("Gateway Timeout"@.len() != "Error"@.len());
}

/// The entry that the proxy forwards for the header `h`: its name and its
/// value decoded as text.
pub open spec fn forwarded_entry(h: RawHeaderView) -> (Seq<char>, Seq<char>) {
    (h.name, lossy_utf8(h.value))
}

/// The headers that the proxy passes on are exactly the client's headers
/// that are neither `Connection` nor hop-by-hop, in the client's order, by
/// name and decoded value.
pub proof fn law_forwarded_headers(hs: Seq<RawHeaderView>)
    ensures
        forwarded_headers(hs) == hs.filter(|h: RawHeaderView| is_forwarded(h)).map_values(
            |h: RawHeaderView| forwarded_entry(h),
        ),
    decreases hs.len(),
{
    reveal(Seq::filter);
    if hs.len() > 0 {
        let init = hs.drop_last();
        law_forwarded_headers(init);
        let kept = hs.filter(|h: RawHeaderView| is_forwarded(h));
        let kept_init = init.filter(|h: RawHeaderView| is_forwarded(h));
        if is_forwarded(hs.last()) {
            assert(kept == kept_init.push(hs.last()));
            assert(kept.map_values(|h: RawHeaderView| forwarded_entry(h)) =~= kept_init.map_values(
                |h: RawHeaderView| forwarded_entry(h),
            ).push(forwarded_entry(hs.last())));
        } else {
            assert(kept == kept_init);
        }
    }
}

/// Without a `Connection` header, the connection stays open exactly when
/// the default says so (HTTP/1.1 keeps alive, HTTP/1.0 closes).
pub proof fn law_keep_alive_default(hs: Seq<RawHeaderView>, default: bool)
    requires
        forall|j: int| 0 <= j < hs.len() ==> lower_name(#[trigger] hs[j]) != "connection"@,
    ensures
        keep_alive_after(hs, default) == default,
    decreases hs.len(),
{
    if hs.len() > 0 {
        let init = hs.drop_last();
        assert(lower_name(hs[hs.len() - 1]) != "connection"@);
        assert forall|j: int| 0 <= j < init.len() implies lower_name(#[trigger] init[j])
            != "connection"@ by {
            assert(init[j] == hs[j]);
        }
        law_keep_alive_default(init, default);
    }
}

/// The last `Connection` header decides whether the connection stays open:
/// it stays open exactly when that header's value names `keep-alive`, in
/// any case, whatever headers precede it and whatever the HTTP version.
pub proof fn law_last_connection_header_decides(hs: Seq<RawHeaderView>, default: bool, k: int)
    requires
        0 <= k < hs.len(),
        lower_name(hs[k]) == "connection"@,
        forall|j: int| k < j < hs.len() ==> lower_name(#[trigger] hs[j]) != "connection"@,
    ensures
        keep_alive_after(hs, default) == contains_seq(to_lower(lossy_utf8(hs[k].value)), "keep-alive"@),
    decreases hs.len(),
{
    if k < hs.len() - 1 {
        let init = hs.drop_last();
        assert(lower_name(hs[hs.len() - 1]) != "connection"@);
        assert(init[k] == hs[k]);
        assert forall|j: int| k < j < init.len() implies lower_name(#[trigger] init[j])
            != "connection"@ by {
            assert(init[j] == hs[j]);
        }
        law_last_connection_header_decides(init, default, k);
    }
}

/// A request accepted by the proxy always carries a `Host` header: the
/// client's own, or one that names the target.
pub proof fn law_request_has_host(raw: RawRequestView)
    ensures
        spec_request_from_raw(raw) matches Ok(p) ==> has_host_header(raw.headers) || (p.headers.len()
            > 0 && p.headers.last() == ("Host"@, default_host(p.target))),
{
}

/// The request text sent to the remote server is a complete request head:
/// it ends with the blank line `\r\n\r\n`.
pub proof fn law_request_text_is_complete(r: ParsedRequestView)
    ensures
        ends_with(request_text(r), "\r\n\r\n"@),
{
    reveal_strlit("\r\n");
    reveal_strlit("\r\n\r\n");
    let t = request_text(r);
    let lines = header_lines(r.headers);
    if r.headers.len() == 0 {
        assert(lines =~= Seq::<char>::empty());
    } else {
        reveal_strlit(": ");
    }
    assert(t.subrange(t.len() - 4, t.len() as int) =~= "\r\n\r\n"@);
}

} // verus!
