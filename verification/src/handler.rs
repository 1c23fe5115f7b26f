//! The reverse-proxy request handler.
//!
//! For each inbound request the handler resolves the upstream from the `Host`
//! header (falling back to a fixed upstream when the host is absent, unmapped
//! or mapped to an unparsable URI), rebuilds the outbound request with the
//! upstream's scheme and authority and the original method, version and
//! path, and runs the header policy. For responses it strips hop-by-hop
//! headers and, on `101 Switching Protocols`, reinstates the upgrade pair
//! and directs the caller to splice the two connections.

use vstd::prelude::*;

use crate::headers::find_ci;
use crate::headers::find_header;
use crate::headers::forward_headers;
use crate::headers::forward_headers_spec;
use crate::headers::hs_view;
use crate::headers::insert_header;
use crate::headers::insert_spec;
use crate::headers::strip_connection_and_hop_headers;
use crate::headers::strip_spec;
use crate::headers::upgrade_value;
use crate::headers::find_upgrade_type;
use crate::headers::Header;
use crate::settings::lookup_spec;
use crate::settings::ServerMap;
use crate::upstream::fallback_upstream;
use crate::upstream::fallback_upstream_spec;
use crate::upstream::parse_uri_scheme_authority;
use crate::upstream::parts_view;
use crate::upstream::uri_parts_of;

verus! {

/// An HTTP protocol version, carried through unchanged.
#[derive(Clone, Copy, PartialEq, Eq, Structural, Debug)]
pub enum HttpVersion {
    Http09,
    Http10,
    Http11,
    Http2,
    Http3,
}

/// An inbound request, as the values the rewrite reads: method, version, the
/// path-and-query part of the target, and the headers.
#[derive(Debug)]
pub struct HttpRequest {
    pub method: String,
    pub version: HttpVersion,
    pub path_and_query: String,
    pub headers: Vec<Header>,
}

/// The rewritten outbound request: the upstream's scheme and authority with
/// the original method, version and path-and-query, and the filtered
/// headers.
#[derive(Debug)]
pub struct OutboundRequest {
    pub method: String,
    pub version: HttpVersion,
    pub scheme: String,
    pub authority: String,
    pub path_and_query: String,
    pub headers: Vec<Header>,
}

/// Why a request could not be rewritten.
#[derive(Clone, Copy, PartialEq, Eq, Structural, Debug)]
pub enum ProxyError {
    /// The chosen upstream string does not parse as a URI.
    UpstreamUriInvalid,
    /// The chosen upstream URI has no authority to direct the request to.
    UpstreamUriMissingAuthority,
    /// The buffered request body exceeds the size bound.
    PayloadTooLarge,
}

/// Largest request body the proxy buffers before forwarding.
pub const MAX_BODY_BYTES: usize = 8388608;

/// The status code that switches the exchange to a raw byte splice.
pub const SWITCHING_PROTOCOLS: u16 = 101;

/// The value of the first `Host` header, if any.
pub open spec fn requested_host(hs: Seq<(Seq<char>, Seq<char>)>) -> Option<Seq<char>> {
    let i = find_ci(hs, "host"@);
    if i == -1 {
        None
    } else {
        Some(hs[i].1)
    }
}

/// The upstream URI string the handler forwards to: the mapped upstream when
/// the `Host` header is present, mapped, and its target parses as a URI; the
/// fixed fallback otherwise.
pub open spec fn chosen_upstream(
    map: Seq<(Seq<char>, Seq<char>)>,
    hs: Seq<(Seq<char>, Seq<char>)>,
) -> Seq<char> {
    match requested_host(hs) {
        None => fallback_upstream_spec(),
        Some(h) => match lookup_spec(map, h) {
            None => fallback_upstream_spec(),
            Some(u) => if uri_parts_of(u) is Some {
                u
            } else {
                fallback_upstream_spec()
            },
        },
    }
}

/// A request whose `Host` header is absent, or whose host maps to no
/// configured upstream, is forwarded to the fixed fallback upstream.
pub proof fn lemma_unmapped_host_uses_fallback(
    map: Seq<(Seq<char>, Seq<char>)>,
    hs: Seq<(Seq<char>, Seq<char>)>,
)
    requires
        match requested_host(hs) {
            Some(h) => lookup_spec(map, h) is None,
            None => true,
        },
    ensures
        chosen_upstream(map, hs) == fallback_upstream_spec(),
{
}

/// The response headers sent back to the client: hop-by-hop headers
/// stripped; on `101 Switching Protocols` the upgrade pair is reinstated so
/// the client sees the completed upgrade.
pub open spec fn response_headers_spec(status: u16, hs: Seq<(Seq<char>, Seq<char>)>) -> Seq<
    (Seq<char>, Seq<char>),
> {
    let stripped = strip_spec(hs);
    if status == SWITCHING_PROTOCOLS {
        match upgrade_value(hs) {
            Some(up) => insert_spec(
                insert_spec(stripped, "connection"@, "upgrade"@),
                "upgrade"@,
                up,
            ),
            None => stripped,
        }
    } else {
        stripped
    }
}

/// The reverse-proxy handler: holds the host → upstream map.
pub struct Handler {
    servers_map: ServerMap,
}

impl View for Handler {
    type V = Seq<(Seq<char>, Seq<char>)>;

    closed spec fn view(&self) -> Seq<(Seq<char>, Seq<char>)> {
        self.servers_map@
    }
}

impl Handler {
    pub fn new(servers_map: ServerMap) -> (r: Handler)
        ensures
            r@ == servers_map@,
    {
        Handler { servers_map }
    }

    /// Rebuilds an inbound request for its upstream: same method, version and
    /// path-and-query; scheme and authority from the chosen upstream URI
    /// (scheme defaulting to `http`); headers run through the forwarding
    /// policy.
    pub fn rewrite_request(&self, addr: &str, req: &HttpRequest) -> (r: Result<
        OutboundRequest,
        ProxyError,
    >)
        ensures
            ({
                let chosen = chosen_upstream(self@, hs_view(req.headers@));
                match uri_parts_of(chosen) {
                    Some(parts) => match parts.1 {
                        Some(auth) => match r {
                            Ok(out) => out.method@ == req.method@ && out.version == req.version
                                && out.path_and_query@ == req.path_and_query@ && out.authority@
                                == auth && out.scheme@ == (match parts.0 {
                                Some(sch) => sch,
                                None => "http"@,
                            }) && hs_view(out.headers@) == forward_headers_spec(
                                hs_view(req.headers@),
                                addr@,
                            ),
                            Err(_) => false,
                        },
                        None => r == Err::<OutboundRequest, ProxyError>(
                            ProxyError::UpstreamUriMissingAuthority,
                        ),
                    },
                    None => r == Err::<OutboundRequest, ProxyError>(ProxyError::UpstreamUriInvalid),
                }
            }),
    {
        let ghost hsv = hs_view(req.headers@);
        let ghost chosen = chosen_upstream(self@, hsv);
        let parsed: Option<(Option<String>, Option<String>)> = match find_header(
            &req.headers,
            "host",
        ) {
            Some(i) => {
                assert(requested_host(hsv) == Some(req.headers@[i as int].value@));
                match self.servers_map.lookup(&req.headers[i].value) {
                    Some(u) => {
                        let p = parse_uri_scheme_authority(u.as_str());
                        match p {
                            Some(parts) => {
                                assert(chosen == u@);
                                Some(parts)
                            },
                            None => {
                                assert(chosen == fallback_upstream_spec());
                                parse_uri_scheme_authority(fallback_upstream())
                            },
                        }
                    },
                    None => {
                        assert(chosen == fallback_upstream_spec());
                        parse_uri_scheme_authority(fallback_upstream())
                    },
                }
            },
            None => {
                assert(chosen == fallback_upstream_spec());
                parse_uri_scheme_authority(fallback_upstream())
            },
        };
        assert(parts_view(parsed) == uri_parts_of(chosen));
        match parsed {
            None => Err(ProxyError::UpstreamUriInvalid),
            Some((sch_opt, auth_opt)) => match auth_opt {
                None => Err(ProxyError::UpstreamUriMissingAuthority),
                Some(authority) => {
                    let scheme = match sch_opt {
                        Some(s) => s,
                        None => "http".to_owned(),
                    };
                    let headers = forward_headers(&req.headers, addr);
                    Ok(
                        OutboundRequest {
                            method: req.method.clone(),
                            version: req.version,
                            scheme,
                            authority,
                            path_and_query: req.path_and_query.clone(),
                            headers,
                        },
                    )
                },
            },
        }
    }
}

/// Prepares an upstream response for the client: strips hop-by-hop headers,
/// reinstates the upgrade pair on `101 Switching Protocols`, and says
/// whether the caller must splice the two connections.
pub fn rewrite_response(status: u16, headers: &Vec<Header>) -> (r: (Vec<Header>, bool))
    ensures
        hs_view(r.0@) == response_headers_spec(status, hs_view(headers@)),
        r.1 == (status == SWITCHING_PROTOCOLS),
{
    let upgrade = find_upgrade_type(headers);
    let mut out = crate::headers::clone_headers(headers);
    strip_connection_and_hop_headers(&mut out);
    let splice = status == SWITCHING_PROTOCOLS;
    if splice {
        if let Some(up) = upgrade {
            insert_header(&mut out, "connection", "upgrade".to_owned());
            insert_header(&mut out, "upgrade", up);
        }
    }
    (out, splice)
}

/// Accepts a buffered request body only up to the size bound; a larger body
/// is refused as payload-too-large rather than forwarded.
pub fn check_body_size(len: usize) -> (r: Result<(), ProxyError>)
    ensures
        match r {
            Ok(_) => len <= MAX_BODY_BYTES,
            Err(e) => len > MAX_BODY_BYTES && e == ProxyError::PayloadTooLarge,
        },
{
    if len <= MAX_BODY_BYTES {
        Ok(())
    } else {
        Err(ProxyError::PayloadTooLarge)
    }
}

} // verus!
