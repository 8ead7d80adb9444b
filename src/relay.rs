//! The relay's decisions: routing a public request to a tunnel, building what
//! is sent to the agent, turning the agent's answer into the public response,
//! telling events apart, and the polling and retry schedules.

use vstd::prelude::*;
use vstd::string::StringSliceAdditionalSpecFns;
use vstd::utf8::encode_utf8;
use crate::constants::{
    CONNECTION_TTL_SECS, MAX_BODY_SIZE_BYTES, POLL_MAX_INTERVAL_MS,
};
use crate::encoding::{b64_encode, decode_body, encode_body};
use crate::models::ConnectionMetadata;
use crate::protocol::{
    add_value, delete, lookup, upsert, values_view, HeaderEntries, Headers, HttpRequest,
    HttpResponse,
};
use crate::rewrite::{rewrite_response_content, rewritten_body, trim_slashes, RewriteStrategy};
use crate::text::{
    chars_of, decimal, decimal_string, lossy_text, push_char, string_of, strip_controls, utf8_lossy,
};
use crate::validation::{
    is_tunnel_id, rooted, validate_path, validate_tunnel_id, ValidationError,
    MAX_PATH_LENGTH,
};

verus! {

/// Why a public request could not be served.
#[derive(Debug, Clone, PartialEq, Eq)]
pub enum RelayError {
    /// The path names no tunnel.
    MissingTunnelId,
    /// A tunnel id, path or header failed validation.
    Invalid(ValidationError),
    /// The request body is over the size limit.
    BodyTooLarge,
    /// No channel holds the tunnel id.
    TunnelNotFound,
    /// The token was missing or invalid.
    Unauthorized,
    /// The agent did not answer in time.
    UpstreamTimeout,
    /// Sending to the agent failed.
    Transport,
    /// A store or serialisation failure.
    Internal,
}

pub open spec fn relay_status(e: RelayError) -> u16 {
    match e {
        RelayError::MissingTunnelId => 400,
        RelayError::Invalid(_) => 400,
        RelayError::BodyTooLarge => 413,
        RelayError::TunnelNotFound => 404,
        RelayError::Unauthorized => 401,
        RelayError::UpstreamTimeout => 504,
        RelayError::Transport => 502,
        RelayError::Internal => 500,
    }
}

impl RelayError {
    /// The HTTP status the public side answers with.
    pub fn status_code(&self) -> (r: u16)
        ensures
            r == relay_status(*self),
    {
        match self {
            RelayError::MissingTunnelId => 400,
            RelayError::Invalid(_) => 400,
            RelayError::BodyTooLarge => 413,
            RelayError::TunnelNotFound => 404,
            RelayError::Unauthorized => 401,
            RelayError::UpstreamTimeout => 504,
            RelayError::Transport => 502,
            RelayError::Internal => 500,
        }
    }

    pub open spec fn text(&self) -> Seq<char> {
        match self {
            RelayError::MissingTunnelId => "Missing tunnel ID in path"@,
            RelayError::Invalid(v) => v.text(),
            RelayError::BodyTooLarge => "Request entity too large"@,
            RelayError::TunnelNotFound => "Tunnel not found"@,
            RelayError::Unauthorized => "Unauthorized"@,
            RelayError::UpstreamTimeout => "Gateway Timeout: No response from agent"@,
            RelayError::Transport => "Bad Gateway"@,
            RelayError::Internal => crate::error_handling::INTERNAL_ERROR_MESSAGE@,
        }
    }

    /// What the client is told: validation and lookup errors say what went
    /// wrong, the rest say no more than a fixed phrase.
    pub fn message(&self) -> (r: String)
        ensures
            r@ == self.text(),
    {
        match self {
            RelayError::MissingTunnelId => String::from_str("Missing tunnel ID in path"),
            RelayError::Invalid(v) => v.message(),
            RelayError::BodyTooLarge => String::from_str("Request entity too large"),
            RelayError::TunnelNotFound => String::from_str("Tunnel not found"),
            RelayError::Unauthorized => String::from_str("Unauthorized"),
            RelayError::UpstreamTimeout => String::from_str(
                "Gateway Timeout: No response from agent",
            ),
            RelayError::Transport => String::from_str("Bad Gateway"),
            RelayError::Internal => String::from_str(crate::error_handling::INTERNAL_ERROR_MESSAGE),
        }
    }
}

/// The index of the first `c` in `s` at or after `k`, or the length.
pub open spec fn find_char(s: Seq<char>, c: char, k: int) -> int
    decreases s.len() - k,
{
    if k < 0 || k >= s.len() {
        s.len() as int
    } else if s[k] == c {
        k
    } else {
        find_char(s, c, k + 1)
    }
}

fn find_char_exec(s: &[char], c: char, k: usize) -> (r: usize)
    requires
        k <= s@.len(),
    ensures
        r == find_char(s@, c, k as int),
        k <= r <= s@.len(),
{
    let mut j = k;
    while j < s.len() && s[j] != c
        invariant
            k <= j <= s@.len(),
            find_char(s@, c, k as int) == find_char(s@, c, j as int),
        decreases s@.len() - j,
    {
        j = j + 1;
    }
    j
}

fn trim_leading_slashes(s: &[char]) -> (r: Vec<char>)
    ensures
        r@ == trim_slashes(s@),
{
    let mut i: usize = 0;
    assert(s@.skip(0) =~= s@);
    while i < s.len() && s[i] == '/'
        invariant
            i <= s@.len(),
            trim_slashes(s@) == trim_slashes(s@.skip(i as int)),
        decreases s@.len() - i,
    {
        assert(s@.skip(i as int).drop_first() =~= s@.skip(i + 1));
        i = i + 1;
    }
    let mut out: Vec<char> = Vec::new();
    let mut k = i;
    while k < s.len()
        invariant
            i <= k <= s@.len(),
            out@ == s@.subrange(i as int, k as int),
        decreases s@.len() - k,
    {
        out.push(s[k]);
        k = k + 1;
        assert(out@ =~= s@.subrange(i as int, k as int));
    }
    assert(out@ =~= s@.skip(i as int));
    out
}

/// The first segment of a path: up to the first `/` after the leading slashes.
pub open spec fn first_segment(path: Seq<char>) -> Seq<char> {
    let t = trim_slashes(path);
    t.take(find_char(t, '/', 0))
}

/// Takes the tunnel id from the first path segment: `/abc123/api/users` gives `abc123`.
pub fn extract_tunnel_id_from_path(path: &str) -> (r: Result<String, RelayError>)
    ensures
        first_segment(path@).len() > 0 ==> (r matches Ok(t) && t@ == first_segment(path@)),
        first_segment(path@).len() == 0 ==> r == Err::<String, RelayError>(
            RelayError::MissingTunnelId,
        ),
{
    let cs = chars_of(path);
    let t = trim_leading_slashes(cs.as_slice());
    let cut = find_char_exec(t.as_slice(), '/', 0);
    if cut == 0 {
        return Err(RelayError::MissingTunnelId);
    }
    let mut seg: Vec<char> = Vec::new();
    let mut k: usize = 0;
    while k < cut
        invariant
            k <= cut <= t@.len(),
            seg@ == t@.take(k as int),
        decreases cut - k,
    {
        seg.push(t[k]);
        k = k + 1;
        assert(seg@ =~= t@.take(k as int));
    }
    Ok(string_of(seg.as_slice()))
}

/// The path the local service sees: what follows the first segment, or `/`.
pub open spec fn forwarded_path(path: Seq<char>) -> Seq<char> {
    let t = trim_slashes(path);
    let cut = find_char(t, '/', 0);
    if cut < t.len() && t.len() - cut > 1 {
        t.skip(cut)
    } else {
        seq!['/']
    }
}

/// Drops the tunnel id segment: `/abc123/api/users` gives `/api/users`, `/abc123` gives `/`.
pub fn strip_tunnel_id_from_path(path: &str) -> (r: String)
    ensures
        r@ == forwarded_path(path@),
{
    let cs = chars_of(path);
    let t = trim_leading_slashes(cs.as_slice());
    let cut = find_char_exec(t.as_slice(), '/', 0);
    if cut < t.len() && t.len() - cut > 1 {
        let mut out = String::new();
        let mut k = cut;
        while k < t.len()
            invariant
                cut <= k <= t@.len(),
                out@ == t@.subrange(cut as int, k as int),
            decreases t@.len() - k,
        {
            push_char(&mut out, t[k]);
            k = k + 1;
            assert(out@ =~= t@.subrange(cut as int, k as int));
        }
        assert(out@ =~= t@.skip(cut as int));
        out
    } else {
        let mut out = String::new();
        push_char(&mut out, '/');
        assert(out@ =~= seq!['/']);
        out
    }
}

/// The host up to its first dot: `abc123.tunnel.example.com` gives `abc123`.
pub fn extract_subdomain(host: &str) -> (r: Result<String, RelayError>)
    ensures
        r matches Ok(s) && s@ == host@.take(find_char(host@, '.', 0)),
{
    let cs = chars_of(host);
    let cut = find_char_exec(cs.as_slice(), '.', 0);
    let mut out = String::new();
    let mut k: usize = 0;
    while k < cut
        invariant
            k <= cut <= cs@.len(),
            out@ == cs@.take(k as int),
        decreases cut - k,
    {
        push_char(&mut out, cs[k]);
        k = k + 1;
        assert(out@ =~= cs@.take(k as int));
    }
    Ok(out)
}

/// Routes a public request path: its first segment must be a valid tunnel id;
/// the rest, sanitised and rooted at `/`, is what the local service receives.
pub fn route_public_path(path: &str) -> (r: Result<(String, String), RelayError>)
    ensures
        first_segment(path@).len() == 0 ==> r == Err::<(String, String), RelayError>(
            RelayError::MissingTunnelId,
        ),
        first_segment(path@).len() > 0 && !is_tunnel_id(first_segment(path@)) ==> (r matches Err(
            RelayError::Invalid(ValidationError::InvalidTunnelId(m)),
        ) && m@ == crate::validation::echo(first_segment(path@))),
        is_tunnel_id(first_segment(path@)) && encode_utf8(forwarded_path(path@)).len()
            > MAX_PATH_LENGTH ==> (r matches Err(RelayError::Invalid(ValidationError::PathTooLong(_, _)))),
        is_tunnel_id(first_segment(path@)) && encode_utf8(forwarded_path(path@)).len()
            <= MAX_PATH_LENGTH ==> (r matches Ok((t, p)) && t@ == first_segment(path@) && p@
            == rooted(strip_controls(forwarded_path(path@), true))),
{
    let tunnel_id = match extract_tunnel_id_from_path(path) {
        Ok(t) => t,
        Err(e) => return Err(e),
    };
    match validate_tunnel_id(tunnel_id.as_str()) {
        Ok(_) => {},
        Err(e) => return Err(RelayError::Invalid(e)),
    }
    let rest = strip_tunnel_id_from_path(path);
    match validate_path(rest.as_str()) {
        Ok(p) => Ok((tunnel_id, p)),
        Err(e) => Err(RelayError::Invalid(e)),
    }
}

fn push_text(out: &mut String, s: &str)
    ensures
        final(out)@ == old(out)@ + s@,
{
    let cs = chars_of(s);
    let ghost start = out@;
    let mut i: usize = 0;
    while i < cs.len()
        invariant
            i <= cs@.len(),
            cs@ == s@,
            out@ == start + cs@.take(i as int),
        decreases cs@.len() - i,
    {
        push_char(out, cs[i]);
        i = i + 1;
        assert(out@ =~= start + cs@.take(i as int));
    }
    assert(cs@.take(i as int) =~= cs@);
}

/// `https://{domain}/{tunnel_id}`
pub open spec fn path_based_url(domain: Seq<char>, tunnel_id: Seq<char>) -> Seq<char> {
    "https://"@ + domain + "/"@ + tunnel_id
}

/// `https://{tunnel_id}.{domain}`
pub open spec fn subdomain_url(domain: Seq<char>, tunnel_id: Seq<char>) -> Seq<char> {
    "https://"@ + tunnel_id + "."@ + domain
}

/// The record of a newly opened channel: both URL forms (the subdomain one
/// only where subdomain routing is on, and then as the primary URL), and an
/// expiry `CONNECTION_TTL_SECS` after `created_at`.
pub fn connection_record(
    connection_id: String,
    tunnel_id: String,
    domain: &str,
    subdomain_enabled: bool,
    created_at: i64,
) -> (r: ConnectionMetadata)
    ensures
        r.connection_id == connection_id,
        r.tunnel_id == tunnel_id,
        r.path_based_url matches Some(u) && u@ == path_based_url(domain@, tunnel_id@),
        subdomain_enabled ==> (r.subdomain_url matches Some(u) && u@ == subdomain_url(
            domain@,
            tunnel_id@,
        ) && r.public_url@ == u@),
        !subdomain_enabled ==> r.subdomain_url is None && r.public_url@ == path_based_url(
            domain@,
            tunnel_id@,
        ),
        r.created_at == created_at,
        r.ttl as int == crate::time::clamp_i64(created_at + CONNECTION_TTL_SECS),
        r.client_info is None,
{
    let mut path_url = String::new();
    push_text(&mut path_url, "https://");
    push_text(&mut path_url, domain);
    push_text(&mut path_url, "/");
    push_text(&mut path_url, tunnel_id.as_str());
    let (public_url, sub) = if subdomain_enabled {
        let mut u = String::new();
        push_text(&mut u, "https://");
        push_text(&mut u, tunnel_id.as_str());
        push_text(&mut u, ".");
        push_text(&mut u, domain);
        (u.clone(), Some(u))
    } else {
        (path_url.clone(), None)
    };
    ConnectionMetadata {
        connection_id,
        tunnel_id,
        public_url,
        subdomain_url: sub,
        path_based_url: Some(path_url),
        created_at,
        ttl: crate::time::ttl_at(created_at, CONNECTION_TTL_SECS),
        client_info: None,
    }
}

/// The answer to an agent's `ready`: the details of its channel.
pub fn connection_established(record: &ConnectionMetadata) -> (r: crate::protocol::Message)
    ensures
        r matches crate::protocol::Message::ConnectionEstablished {
            connection_id,
            tunnel_id,
            public_url,
            subdomain_url,
            path_based_url,
        } && connection_id == record.connection_id && tunnel_id == record.tunnel_id
            && public_url == record.public_url && subdomain_url == record.subdomain_url
            && path_based_url == record.path_based_url,
{
    crate::protocol::Message::ConnectionEstablished {
        connection_id: record.connection_id.clone(),
        tunnel_id: record.tunnel_id.clone(),
        public_url: record.public_url.clone(),
        subdomain_url: match &record.subdomain_url {
            Some(u) => Some(u.clone()),
            None => None,
        },
        path_based_url: match &record.path_based_url {
            Some(u) => Some(u.clone()),
            None => None,
        },
    }
}

/// `k=v` pairs joined by `&`.
pub open spec fn query_text(q: Seq<(Seq<char>, Seq<char>)>) -> Seq<char>
    decreases q.len(),
{
    if q.len() == 0 {
        Seq::empty()
    } else if q.len() == 1 {
        q[0].0 + "="@ + q[0].1
    } else {
        query_text(q.drop_last()) + "&"@ + q.last().0 + "="@ + q.last().1
    }
}

pub open spec fn pairs_view(v: Seq<(String, String)>) -> Seq<(Seq<char>, Seq<char>)> {
    v.map_values(|p: (String, String)| (p.0@, p.1@))
}

/// The URI sent to the agent: the path, then `?` and the query when there is one.
pub open spec fn request_uri(path: Seq<char>, q: Seq<(Seq<char>, Seq<char>)>) -> Seq<char> {
    if q.len() == 0 {
        path
    } else {
        path + "?"@ + query_text(q)
    }
}

/// Whether a header survives sanitising, and what it becomes.
pub open spec fn header_kept(name: Seq<char>, value: Seq<char>) -> bool {
    &&& forall|i: int| 0 <= i < name.len() ==> crate::validation::is_ascii_char(#[trigger] name[i])
    &&& strip_controls(name, false).len() > 0
    &&& encode_utf8(value).len() <= crate::validation::MAX_HEADER_VALUE_LENGTH
}

/// The public request's headers as sent to the agent: names in canonical form,
/// control characters stripped, repeated names gathered, unsafe headers dropped.
pub open spec fn forwarded_headers(h: Seq<(Seq<char>, Seq<char>)>) -> HeaderEntries
    decreases h.len(),
{
    if h.len() == 0 {
        Seq::empty()
    } else {
        let prev = forwarded_headers(h.drop_last());
        let (n, v) = h.last();
        if header_kept(n, v) {
            add_value(prev, crate::validation::lower_all(strip_controls(n, false)), strip_controls(v, true))
        } else {
            prev
        }
    }
}

/// The largest base64 text of a body within the size limit.
pub const MAX_ENCODED_BODY_CHARS: usize = 2796204;

/// What the agent receives for a public request.
pub fn build_http_request(
    method: &str,
    path: &str,
    query: &Vec<(String, String)>,
    headers: &Vec<(String, String)>,
    body: Option<&str>,
    is_base64_encoded: bool,
    request_id: String,
    timestamp: u64,
) -> (r: Result<HttpRequest, RelayError>)
    ensures
        match body {
            Some(b) => if is_base64_encoded {
                b.spec_bytes().len() > MAX_ENCODED_BODY_CHARS
            } else {
                b.spec_bytes().len() > MAX_BODY_SIZE_BYTES
            },
            None => false,
        } <==> r is Err,
        r matches Err(e) ==> e == RelayError::BodyTooLarge,
        r matches Ok(req) ==> {
            &&& req.method@ == method@
            &&& req.uri@ == request_uri(path@, pairs_view(query@))
            &&& req.headers@ == forwarded_headers(pairs_view(headers@))
            &&& req.headers.well_formed()
            &&& req.request_id == request_id
            &&& req.timestamp == timestamp
            &&& req.body@ == match body {
                Some(b) => if is_base64_encoded {
                    b@
                } else {
                    b64_encode(b.spec_bytes())
                },
                None => Seq::empty(),
            }
        },
{
    let body_text = match body {
        Some(b) => {
            let n = b.as_bytes().len();
            if is_base64_encoded {
                if n > MAX_ENCODED_BODY_CHARS {
                    return Err(RelayError::BodyTooLarge);
                }
                String::from_str(b)
            } else {
                if n > MAX_BODY_SIZE_BYTES {
                    return Err(RelayError::BodyTooLarge);
                }
                encode_body(b.as_bytes())
            }
        },
        None => String::new(),
    };
    let mut uri = String::from_str(path);
    if query.len() > 0 {
        push_text(&mut uri, "?");
        let mut i: usize = 0;
        let ghost q = pairs_view(query@);
        while i < query.len()
            invariant
                i <= query@.len(),
                q == pairs_view(query@),
                q.len() > 0,
                i == 0 ==> uri@ == path@ + "?"@,
                i > 0 ==> uri@ == path@ + "?"@ + query_text(q.take(i as int)),
            decreases query@.len() - i,
        {
            let ghost before = uri@;
            if i > 0 {
                push_text(&mut uri, "&");
            }
            push_text(&mut uri, query[i].0.as_str());
            push_text(&mut uri, "=");
            push_text(&mut uri, query[i].1.as_str());
            assert(q.take(i + 1).drop_last() =~= q.take(i as int));
            i = i + 1;
            assert(uri@ =~= path@ + "?"@ + query_text(q.take(i as int)));
        }
        assert(q.take(i as int) =~= q);
    }
    let mut hs = Headers::new();
    let ghost h = pairs_view(headers@);
    let mut k: usize = 0;
    while k < headers.len()
        invariant
            k <= headers@.len(),
            h == pairs_view(headers@),
            hs@ == forwarded_headers(h.take(k as int)),
            hs.well_formed(),
        decreases headers@.len() - k,
    {
        let name = &headers[k].0;
        let value = &headers[k].1;
        assert(h.take(k + 1).drop_last() =~= h.take(k as int));
        assert(h.take(k + 1).last() == (name@, value@));
        match crate::validation::sanitize_header_name(name.as_str()) {
            Ok(n) => match crate::validation::sanitize_header_value(value.as_str()) {
                Ok(v) => {
                    hs.append(n, v);
                },
                Err(_) => {},
            },
            Err(_) => {},
        }
        k = k + 1;
    }
    assert(h.take(k as int) =~= h);
    Ok(HttpRequest {
        request_id,
        method: String::from_str(method),
        uri,
        headers: hs,
        body: body_text,
        timestamp,
    })
}


/// The first value under `content-type`, or the empty text.
pub open spec fn content_type_of(h: HeaderEntries) -> Seq<char> {
    match lookup(h, "content-type"@) {
        Some(vs) => if vs.len() > 0 {
            vs[0]
        } else {
            Seq::empty()
        },
        None => Seq::empty(),
    }
}

fn content_type(h: &Headers) -> (r: String)
    ensures
        r@ == content_type_of(h@),
{
    match h.get("content-type") {
        Some(vs) => {
            if vs.len() > 0 {
                proof {
                    assert(values_view(vs@)[0] == vs@[0]@);
                }
                vs[0].clone()
            } else {
                String::new()
            }
        },
        None => String::new(),
    }
}

/// The headers of a rewritten response: the new length, no transfer encoding,
/// and the marker that rewriting happened.
pub open spec fn rewritten_headers(h: HeaderEntries, byte_len: nat) -> HeaderEntries {
    upsert(
        delete(upsert(h, "content-length"@, seq![decimal(byte_len)]), "transfer-encoding"@),
        "x-tunnel-rewrite-applied"@,
        seq!["true"@],
    )
}

/// In the headers of a rewritten response, `x-tunnel-rewrite-applied` is
/// `true`, `content-length` is the new body's length, and there is no
/// `transfer-encoding`.
pub proof fn lemma_rewritten_headers(h: HeaderEntries, byte_len: nat)
    requires
        crate::protocol::names_unique(h),
    ensures
        lookup(rewritten_headers(h, byte_len), "x-tunnel-rewrite-applied"@) == Some(seq!["true"@]),
        lookup(rewritten_headers(h, byte_len), "content-length"@) == Some(seq![decimal(byte_len)]),
        lookup(rewritten_headers(h, byte_len), "transfer-encoding"@) is None,
{
    reveal_strlit("x-tunnel-rewrite-applied");
    reveal_strlit("content-length");
    reveal_strlit("transfer-encoding");
    let a = upsert(h, "content-length"@, seq![decimal(byte_len)]);
    let b = delete(a, "transfer-encoding"@);
    crate::protocol::lemma_upsert_unique(h, "content-length"@, seq![decimal(byte_len)]);
    crate::protocol::lemma_lookup_upsert(h, "content-length"@, seq![decimal(byte_len)], "content-length"@);
    crate::protocol::lemma_lookup_delete(a, "transfer-encoding"@, "content-length"@);
    crate::protocol::lemma_lookup_delete(a, "transfer-encoding"@, "transfer-encoding"@);
    assert("content-length"@ != "transfer-encoding"@) by {
        assert("content-length"@.len() != "transfer-encoding"@.len());
    }
    assert("x-tunnel-rewrite-applied"@ != "transfer-encoding"@) by {
        assert("x-tunnel-rewrite-applied"@.len() != "transfer-encoding"@.len());
    }
    assert("x-tunnel-rewrite-applied"@ != "content-length"@) by {
        assert("x-tunnel-rewrite-applied"@.len() != "content-length"@.len());
    }
    crate::protocol::lemma_lookup_upsert(b, "x-tunnel-rewrite-applied"@, seq!["true"@], "x-tunnel-rewrite-applied"@);
    crate::protocol::lemma_lookup_upsert(b, "x-tunnel-rewrite-applied"@, seq!["true"@], "content-length"@);
    crate::protocol::lemma_lookup_upsert(b, "x-tunnel-rewrite-applied"@, seq!["true"@], "transfer-encoding"@);
}

/// The largest rewritten body, in bytes, that is sent on.
pub const MAX_REWRITTEN_BYTES: usize = 67108864;

/// Applies content rewriting to a response whose body decoded to `text`.
/// When rewriting changes the text, the body is re-encoded and the headers
/// updated; otherwise, or when the new body is over the size limit, the
/// response is returned as it came.
pub fn apply_rewrite(response: HttpResponse, text: &str, tunnel_id: &str) -> (r: HttpResponse)
    ensures
        ({
            let out = rewritten_body(
                text@,
                content_type_of(response.headers@),
                tunnel_id@,
                RewriteStrategy::FullRewrite,
            );
            if out != text@ && encode_utf8(out).len() <= MAX_REWRITTEN_BYTES {
                &&& r.body@ == b64_encode(encode_utf8(out))
                &&& r.headers@ == rewritten_headers(response.headers@, encode_utf8(out).len())
                &&& r.request_id == response.request_id
                &&& r.status_code == response.status_code
                &&& r.processing_time_ms == response.processing_time_ms
            } else {
                r == response
            }
        }),
        response.headers.well_formed() ==> r.headers.well_formed(),
{
    let ct = content_type(&response.headers);
    let rewritten = rewrite_response_content(
        text,
        ct.as_str(),
        tunnel_id,
        RewriteStrategy::FullRewrite,
    );
    match rewritten {
        Ok((out, changed)) => {
            if !changed {
                return response;
            }
            let bytes = out.as_str().as_bytes();
            let n = bytes.len();
            if n > MAX_REWRITTEN_BYTES {
                return response;
            }
            let mut resp = response;
            resp.body = encode_body(bytes);
            let mut len_values: Vec<String> = Vec::new();
            len_values.push(decimal_string(n as u64));
            assert(values_view(len_values@) =~= seq![decimal(n as nat)]);
            resp.headers.insert(String::from_str("content-length"), len_values);
            resp.headers.remove("transfer-encoding");
            let mut marker: Vec<String> = Vec::new();
            marker.push(String::from_str("true"));
            assert(values_view(marker@) =~= seq!["true"@]);
            resp.headers.insert(String::from_str("x-tunnel-rewrite-applied"), marker);
            resp
        },
        Err(_) => response,
    }
}

/// The agent's response as the public side receives it: the body decoded (a
/// body that is not base64 is left alone), read as UTF-8, and rewritten for the
/// tunnel prefix.
pub fn finish_response(response: HttpResponse, tunnel_id: &str) -> (r: HttpResponse)
    ensures
        match decode_spec(response.body@) {
            Some(bytes) => {
                let text = utf8_lossy(bytes);
                let out = rewritten_body(
                    text,
                    content_type_of(response.headers@),
                    tunnel_id@,
                    RewriteStrategy::FullRewrite,
                );
                if out != text && encode_utf8(out).len() <= MAX_REWRITTEN_BYTES {
                    &&& r.body@ == b64_encode(encode_utf8(out))
                    &&& r.headers@ == rewritten_headers(response.headers@, encode_utf8(out).len())
                    &&& r.status_code == response.status_code
                } else {
                    r == response
                }
            },
            None => r == response,
        },
{
    let decoded = decode_body(response.body.as_str());
    match decoded {
        Ok(bytes) => {
            proof {
                crate::encoding::lemma_encode_injective(bytes@, choose|b: Seq<u8>| b64_encode(b) == response.body@);
            }
            let text = lossy_text(bytes.as_slice());
            apply_rewrite(response, text.as_str(), tunnel_id)
        },
        Err(_) => response,
    }
}

/// The bytes a base64 text encodes, if it is an encoding.
pub open spec fn decode_spec(s: Seq<char>) -> Option<Seq<u8>> {
    if exists|b: Seq<u8>| b64_encode(b) == s {
        Some(choose|b: Seq<u8>| b64_encode(b) == s)
    } else {
        None
    }
}

/// A response for the public side.
#[derive(Debug, Clone)]
pub struct PublicResponse {
    pub status_code: u16,
    /// One value per header name.
    pub headers: Headers,
    pub body: Option<String>,
    /// Whether `body` is base64.
    pub is_base64_encoded: bool,
}

/// Each name with its first value; names without values are left out.
pub open spec fn first_values(h: HeaderEntries) -> HeaderEntries
    decreases h.len(),
{
    if h.len() == 0 {
        Seq::empty()
    } else {
        let prev = first_values(h.drop_last());
        if h.last().1.len() > 0 {
            prev.push((h.last().0, seq![h.last().1[0]]))
        } else {
            prev
        }
    }
}

/// The public response for an agent's response: its status, the first value of
/// each header, its base64 body if it has one.
pub fn build_api_gateway_response(response: HttpResponse) -> (r: PublicResponse)
    ensures
        r.status_code == response.status_code,
        r.headers@ == first_values(response.headers@),
        response.body@.len() == 0 ==> r.body is None,
        response.body@.len() > 0 ==> (r.body matches Some(b) && b == response.body),
        r.is_base64_encoded,
{
    let mut hs = Headers::new();
    let mut i: usize = 0;
    let n = response.headers.len();
    while i < n
        invariant
            i <= n == response.headers@.len(),
            hs@ == first_values(response.headers@.take(i as int)),
        decreases n - i,
    {
        let (name, values) = response.headers.entry(i);
        assert(response.headers@.take(i + 1).drop_last() =~= response.headers@.take(i as int));
        if values.len() > 0 {
            let ghost before = hs@;
            let mut one: Vec<String> = Vec::new();
            one.push(values[0].clone());
            assert(values_view(one@) =~= seq![values_view(values@)[0]]);
            hs.push_entry(name.clone(), one);
            assert(hs@ =~= before.push((name@, seq![values_view(values@)[0]])));
        }
        i = i + 1;
    }
    assert(response.headers@.take(i as int) =~= response.headers@);
    let body = if response.body.as_str().is_empty() {
        None
    } else {
        Some(response.body)
    };
    PublicResponse { status_code: response.status_code, headers: hs, body, is_base64_encoded: true }
}

/// 504 with `x-tunnel-error: Gateway Timeout`, for an agent that did not answer.
pub fn timeout_response() -> (r: PublicResponse)
    ensures
        r.status_code == 504,
        r.headers@ == seq![
            ("content-type"@, seq!["text/plain"@]),
            ("x-tunnel-error"@, seq!["Gateway Timeout"@]),
        ],
        r.body matches Some(b) && b@ == "Gateway Timeout: No response from agent"@,
        !r.is_base64_encoded,
{
    let mut hs = Headers::new();
    let mut a: Vec<String> = Vec::new();
    a.push(String::from_str("text/plain"));
    assert(values_view(a@) =~= seq!["text/plain"@]);
    hs.push_entry(String::from_str("content-type"), a);
    let mut b: Vec<String> = Vec::new();
    b.push(String::from_str("Gateway Timeout"));
    assert(values_view(b@) =~= seq!["Gateway Timeout"@]);
    hs.push_entry(String::from_str("x-tunnel-error"), b);
    assert(hs@ =~= seq![
        ("content-type"@, seq!["text/plain"@]),
        ("x-tunnel-error"@, seq!["Gateway Timeout"@]),
    ]);
    PublicResponse {
        status_code: 504,
        headers: hs,
        body: Some(String::from_str("Gateway Timeout: No response from agent")),
        is_base64_encoded: false,
    }
}

/// The public response for a failed request: the error's status and message.
pub fn error_public_response(error: &RelayError) -> (r: PublicResponse)
    ensures
        r.status_code == relay_status(*error),
        r.headers@ == seq![("content-type"@, seq!["text/plain"@])],
        r.body matches Some(b) && b@ == error.text(),
        !r.is_base64_encoded,
{
    let mut hs = Headers::new();
    let mut a: Vec<String> = Vec::new();
    a.push(String::from_str("text/plain"));
    assert(values_view(a@) =~= seq!["text/plain"@]);
    hs.push_entry(String::from_str("content-type"), a);
    assert(hs@ =~= seq![("content-type"@, seq!["text/plain"@])]);
    PublicResponse {
        status_code: error.status_code(),
        headers: hs,
        body: Some(error.message()),
        is_base64_encoded: false,
    }
}

/// The kinds of event the relay's single entry point handles.
#[derive(Debug, Clone, Copy, PartialEq, Eq, Structural)]
pub enum EventType {
    WebSocketConnect,
    WebSocketDisconnect,
    WebSocketDefault,
    HttpApi,
    ScheduledCleanup,
    DynamoDbStream,
}

/// The few fields of an incoming payload that tell its kind.
#[derive(Debug, Clone)]
pub struct EventShape {
    /// `Records[0].eventSource`, when present.
    pub first_record_source: Option<String>,
    /// The top-level `source`, when it is a string.
    pub source: Option<String>,
    /// Whether a top-level `detail-type` is present.
    pub has_detail_type: bool,
    /// Whether `requestContext.http` is present.
    pub has_http_context: bool,
    /// `requestContext.routeKey`, when it is a string.
    pub route_key: Option<String>,
    /// Whether a top-level `httpMethod` is present.
    pub has_http_method: bool,
}

/// Why a payload's kind could not be told.
#[derive(Debug, Clone, PartialEq, Eq)]
pub enum EventError {
    UnknownRoute(String),
    Undetermined,
}

pub open spec fn opt_is(o: Option<String>, s: Seq<char>) -> bool {
    o matches Some(x) && x@ == s
}

/// The kind of a payload, by the first rule that applies.
pub open spec fn event_kind(e: EventShape) -> Result<EventType, EventError> {
    if opt_is(e.first_record_source, "aws:dynamodb"@) {
        Ok(EventType::DynamoDbStream)
    } else if opt_is(e.source, "aws.events"@) && e.has_detail_type {
        Ok(EventType::ScheduledCleanup)
    } else if e.has_http_context {
        Ok(EventType::HttpApi)
    } else if e.route_key is Some {
        if opt_is(e.route_key, "$connect"@) {
            Ok(EventType::WebSocketConnect)
        } else if opt_is(e.route_key, "$disconnect"@) {
            Ok(EventType::WebSocketDisconnect)
        } else if opt_is(e.route_key, "$default"@) {
            Ok(EventType::WebSocketDefault)
        } else {
            Err(EventError::UnknownRoute(e.route_key->Some_0))
        }
    } else if e.has_http_method {
        Ok(EventType::HttpApi)
    } else {
        Err(EventError::Undetermined)
    }
}

fn opt_is_exec(o: &Option<String>, s: &str) -> (r: bool)
    ensures
        r == opt_is(*o, s@),
{
    match o {
        Some(x) => {
            let a = chars_of(x.as_str());
            let b = chars_of(s);
            if a.len() != b.len() {
                return false;
            }
            let mut i: usize = 0;
            while i < a.len()
                invariant
                    i <= a@.len() == b@.len(),
                    a@ == x@,
                    b@ == s@,
                    *o == Some(*x),
                    forall|j: int| 0 <= j < i ==> a@[j] == b@[j],
                decreases a@.len() - i,
            {
                if a[i] != b[i] {
                    assert(a@[i as int] != b@[i as int]);
                    return false;
                }
                i = i + 1;
            }
            assert(a@ =~= b@);
            true
        },
        None => false,
    }
}

/// Tells what kind of event a payload is.
pub fn detect_event_type(e: &EventShape) -> (r: Result<EventType, EventError>)
    ensures
        r == event_kind(*e),
{
    if opt_is_exec(&e.first_record_source, "aws:dynamodb") {
        Ok(EventType::DynamoDbStream)
    } else if opt_is_exec(&e.source, "aws.events") && e.has_detail_type {
        Ok(EventType::ScheduledCleanup)
    } else if e.has_http_context {
        Ok(EventType::HttpApi)
    } else if e.route_key.is_some() {
        if opt_is_exec(&e.route_key, "$connect") {
            Ok(EventType::WebSocketConnect)
        } else if opt_is_exec(&e.route_key, "$disconnect") {
            Ok(EventType::WebSocketDisconnect)
        } else if opt_is_exec(&e.route_key, "$default") {
            Ok(EventType::WebSocketDefault)
        } else {
            match &e.route_key {
                Some(k) => Err(EventError::UnknownRoute(k.clone())),
                None => Err(EventError::Undetermined),
            }
        }
    } else if e.has_http_method {
        Ok(EventType::HttpApi)
    } else {
        Err(EventError::Undetermined)
    }
}

/// The next interval between polls: doubled, at most `POLL_MAX_INTERVAL_MS`.
pub fn next_poll_interval(current_ms: u64) -> (r: u64)
    ensures
        r as int == if current_ms * 2 > POLL_MAX_INTERVAL_MS {
            POLL_MAX_INTERVAL_MS as int
        } else {
            current_ms * 2
        },
{
    if current_ms > POLL_MAX_INTERVAL_MS / 2 {
        POLL_MAX_INTERVAL_MS
    } else {
        current_ms * 2
    }
}

/// What a pending record showed when it was read.
#[derive(Debug, Clone)]
pub enum PendingObservation {
    Missing,
    Waiting,
    Completed(String),
}

/// What the waiting handler does next.
#[derive(Debug, Clone)]
pub enum PollAction {
    /// The answer is in: this response blob.
    Done(String),
    /// Out of time: answer 504.
    GiveUp,
    /// Read again after this many milliseconds.
    Wait(u64),
}

/// One step of waiting for an agent's answer: done once the record is
/// completed, out of time once more than `budget_ms` has elapsed, else wait
/// the current interval.
pub fn poll_step(
    elapsed_ms: u64,
    budget_ms: u64,
    interval_ms: u64,
    seen: PendingObservation,
) -> (r: PollAction)
    ensures
        elapsed_ms > budget_ms ==> r matches PollAction::GiveUp,
        elapsed_ms <= budget_ms ==> match seen {
            PendingObservation::Completed(blob) => r matches PollAction::Done(b) && b == blob,
            _ => r matches PollAction::Wait(ms) && ms == interval_ms,
        },
{
    if elapsed_ms > budget_ms {
        return PollAction::GiveUp;
    }
    match seen {
        PendingObservation::Completed(blob) => PollAction::Done(blob),
        _ => PollAction::Wait(interval_ms),
    }
}

/// Attempts at sending the connection details to a new agent.
pub const READY_SEND_ATTEMPTS: u32 = 3;

/// Milliseconds before the first retry of that send.
pub const READY_RETRY_INITIAL_MS: u64 = 100;

/// The wait after the `failures`-th failed send of the connection details:
/// 100 ms, then twice as long each time; none once three attempts have failed.
pub fn ready_retry_delay(failures: u32) -> (r: Option<u64>)
    requires
        failures >= 1,
    ensures
        failures >= READY_SEND_ATTEMPTS ==> r is None,
        failures == 1 ==> r == Some(100u64),
        failures == 2 ==> r == Some(200u64),
{
    if failures >= READY_SEND_ATTEMPTS {
        None
    } else if failures == 1 {
        Some(READY_RETRY_INITIAL_MS)
    } else {
        Some(READY_RETRY_INITIAL_MS * 2)
    }
}

/// Whether a store change is a pending record turning `completed`: every
/// insert is, a modification is unless the old record was already completed
/// (an old record that cannot be read counts as not completed), other changes
/// are not.
pub fn is_status_change_to_completed(event_name: &str, old_status: Option<&str>) -> (r: bool)
    ensures
        r == (event_name@ == "INSERT"@ || (event_name@ == "MODIFY"@ && !(old_status matches Some(
            s,
        ) && s@ == "completed"@))),
{
    let name = Some(String::from_str(event_name));
    if opt_is_exec(&name, "INSERT") {
        return true;
    }
    if !opt_is_exec(&name, "MODIFY") {
        return false;
    }
    match old_status {
        Some(s) => !opt_is_exec(&Some(String::from_str(s)), "completed"),
        None => true,
    }
}

/// The token a new channel presents: the `Authorization` header's value after
/// `Bearer `, when the header has that form; otherwise the `token` query parameter.
pub open spec fn token_of(authorization: Option<Seq<char>>, query_token: Option<Seq<char>>) -> Option<
    Seq<char>,
> {
    match authorization {
        Some(h) if crate::rewrite::seq_starts(h, "Bearer "@) => Some(h.skip(7)),
        _ => query_token,
    }
}

pub open spec fn opt_view(o: Option<&str>) -> Option<Seq<char>> {
    match o {
        Some(s) => Some(s@),
        None => None,
    }
}

/// Picks the bearer token of a channel-open request: header first, query second.
pub fn extract_token(authorization: Option<&str>, query_token: Option<&str>) -> (r: Option<String>)
    ensures
        r matches Some(t) ==> token_of(opt_view(authorization), opt_view(query_token)) == Some(
            t@,
        ),
        r is None ==> token_of(opt_view(authorization), opt_view(query_token)) is None,
{
    proof {
        reveal_strlit("Bearer ");
    }
    if let Some(h) = authorization {
        let cs = chars_of(h);
        let bearer = chars_of("Bearer ");
        if crate::rewrite::starts_with(cs.as_slice(), bearer.as_slice()) {
            let mut out = String::new();
            let mut k: usize = 7;
            while k < cs.len()
                invariant
                    7 <= k <= cs@.len(),
                    out@ == cs@.subrange(7, k as int),
                decreases cs@.len() - k,
            {
                push_char(&mut out, cs[k]);
                k = k + 1;
                assert(out@ =~= cs@.subrange(7, k as int));
            }
            assert(out@ =~= cs@.skip(7));
            return Some(out);
        }
    }
    match query_token {
        Some(q) => Some(String::from_str(q)),
        None => None,
    }
}

} // verus!
