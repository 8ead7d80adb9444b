//! The messages exchanged over the agent channel, and the HTTP request and
//! response they carry.

use vstd::prelude::*;
use vstd::string::StringSliceAdditionalSpecFns;
use vstd::utf8::encode_utf8;
use crate::encoding::{b64_encode, encode_body};

verus! {

/// The model of a header map: names with their values, in order of first insertion.
pub type HeaderEntries = Seq<(Seq<char>, Seq<Seq<char>>)>;

/// The index of the entry named `name` at or after `i`, or the length if none.
pub open spec fn index_from(s: HeaderEntries, name: Seq<char>, i: int) -> int
    decreases s.len() - i,
{
    if i < 0 || i >= s.len() {
        s.len() as int
    } else if s[i].0 == name {
        i
    } else {
        index_from(s, name, i + 1)
    }
}

pub open spec fn index_of(s: HeaderEntries, name: Seq<char>) -> int {
    index_from(s, name, 0)
}

/// The values under `name`.
pub open spec fn lookup(s: HeaderEntries, name: Seq<char>) -> Option<Seq<Seq<char>>> {
    if index_of(s, name) < s.len() {
        Some(s[index_of(s, name)].1)
    } else {
        None
    }
}

/// `s` with the values under `name` set to `values`.
pub open spec fn upsert(s: HeaderEntries, name: Seq<char>, values: Seq<Seq<char>>) -> HeaderEntries {
    if index_of(s, name) < s.len() {
        s.update(index_of(s, name), (name, values))
    } else {
        s.push((name, values))
    }
}

/// `s` without the entry named `name`.
pub open spec fn delete(s: HeaderEntries, name: Seq<char>) -> HeaderEntries {
    if index_of(s, name) < s.len() {
        s.remove(index_of(s, name))
    } else {
        s
    }
}

/// `s` with `value` added after the values already under `name`.
pub open spec fn add_value(s: HeaderEntries, name: Seq<char>, value: Seq<char>) -> HeaderEntries {
    match lookup(s, name) {
        Some(vs) => upsert(s, name, vs.push(value)),
        None => s.push((name, seq![value])),
    }
}

pub open spec fn names_unique(s: HeaderEntries) -> bool {
    forall|i: int, j: int| 0 <= i < j < s.len() ==> #[trigger] s[i].0 != #[trigger] s[j].0
}

pub proof fn lemma_index_from(s: HeaderEntries, name: Seq<char>, i: int)
    requires
        0 <= i <= s.len(),
    ensures
        i <= index_from(s, name, i) <= s.len(),
        index_from(s, name, i) < s.len() ==> s[index_from(s, name, i)].0 == name,
        forall|j: int| i <= j < index_from(s, name, i) ==> #[trigger] s[j].0 != name,
    decreases s.len() - i,
{
    if i < s.len() && s[i].0 != name {
        lemma_index_from(s, name, i + 1);
    }
}

/// A copy of `v`.
pub fn copy_strings(v: &Vec<String>) -> (r: Vec<String>)
    ensures
        r@ == v@,
{
    let mut out: Vec<String> = Vec::new();
    let mut i: usize = 0;
    while i < v.len()
        invariant
            i <= v@.len(),
            out@ == v@.take(i as int),
        decreases v@.len() - i,
    {
        out.push(v[i].clone());
        i = i + 1;
        assert(out@ =~= v@.take(i as int));
    }
    assert(v@.take(i as int) =~= v@);
    out
}

/// The first entry named `name` is the one before which no entry has that name.
pub proof fn lemma_index_is(s: HeaderEntries, name: Seq<char>, i: int)
    requires
        0 <= i <= s.len(),
        i < s.len() ==> s[i].0 == name,
        forall|p: int| 0 <= p < i ==> #[trigger] s[p].0 != name,
    ensures
        index_of(s, name) == i,
{
    lemma_index_from(s, name, 0);
    let f = index_of(s, name);
    if f < i {
        assert(s[f].0 != name);
    } else if f > i {
        assert(s[i].0 != name);
    }
}

/// What `lookup` finds after setting the values of `n`.
pub proof fn lemma_lookup_upsert(s: HeaderEntries, n: Seq<char>, vs: Seq<Seq<char>>, k: Seq<char>)
    ensures
        lookup(upsert(s, n, vs), k) == if k == n {
            Some(vs)
        } else {
            lookup(s, k)
        },
{
    lemma_index_from(s, n, 0);
    lemma_index_from(s, k, 0);
    let i = index_of(s, n);
    let j = index_of(s, k);
    let t = upsert(s, n, vs);
    assert forall|p: int| 0 <= p < s.len() && p != i implies #[trigger] t[p] == s[p] by {}
    assert forall|p: int| 0 <= p < s.len() implies #[trigger] t[p].0 == s[p].0 by {}
    if k == n {
        lemma_index_is(t, n, i);
    } else {
        if j < s.len() {
            lemma_index_is(t, k, j);
        } else {
            assert forall|p: int| 0 <= p < t.len() implies #[trigger] t[p].0 != k by {
                if p < s.len() {
                    assert(t[p].0 == s[p].0);
                }
            }
            lemma_index_is(t, k, t.len() as int);
        }
    }
}

/// Setting the values of a name keeps names unique.
pub proof fn lemma_upsert_unique(s: HeaderEntries, n: Seq<char>, vs: Seq<Seq<char>>)
    requires
        names_unique(s),
    ensures
        names_unique(upsert(s, n, vs)),
{
    lemma_index_from(s, n, 0);
    let t = upsert(s, n, vs);
    assert forall|i: int, j: int| 0 <= i < j < t.len() implies #[trigger] t[i].0 != #[trigger] t[j].0 by {
        if j == s.len() {
            assert(t[i].0 == s[i].0);
        } else {
            assert(t[i].0 == s[i].0 && t[j].0 == s[j].0);
        }
    }
}

/// What `lookup` finds after deleting a name from headers with unique names.
pub proof fn lemma_lookup_delete(s: HeaderEntries, n: Seq<char>, k: Seq<char>)
    requires
        names_unique(s),
    ensures
        lookup(delete(s, n), k) == if k == n {
            None
        } else {
            lookup(s, k)
        },
{
    lemma_index_from(s, n, 0);
    lemma_index_from(s, k, 0);
    let i = index_of(s, n);
    let j = index_of(s, k);
    if i < s.len() {
        let t = s.remove(i);
        if k == n {
            assert forall|p: int| 0 <= p < t.len() implies #[trigger] t[p].0 != k by {
                if p < i {
                    assert(t[p] == s[p]);
                } else {
                    assert(t[p] == s[p + 1]);
                    assert(s[i].0 != s[p + 1].0);
                }
            }
            lemma_index_is(t, k, t.len() as int);
        } else if j < s.len() {
            if j < i {
                assert forall|p: int| 0 <= p < j implies #[trigger] t[p].0 != k by {
                    assert(t[p] == s[p]);
                }
                assert(t[j] == s[j]);
                lemma_index_is(t, k, j);
            } else {
                assert(j != i);
                assert forall|p: int| 0 <= p < j - 1 implies #[trigger] t[p].0 != k by {
                    if p < i {
                        assert(t[p] == s[p]);
                    } else {
                        assert(t[p] == s[p + 1]);
                    }
                }
                assert(t[j - 1] == s[j]);
                lemma_index_is(t, k, j - 1);
            }
        } else {
            assert forall|p: int| 0 <= p < t.len() implies #[trigger] t[p].0 != k by {
                if p < i {
                    assert(t[p] == s[p]);
                } else {
                    assert(t[p] == s[p + 1]);
                }
            }
            lemma_index_is(t, k, t.len() as int);
        }
    }
}

/// Header names with their values. Each name occurs once; a name keeps the
/// place where it was first inserted.
#[derive(Debug, Clone)]
pub struct Headers {
    entries: Vec<(String, Vec<String>)>,
}

pub open spec fn entry_view(e: (String, Vec<String>)) -> (Seq<char>, Seq<Seq<char>>) {
    (e.0@, e.1@.map_values(|v: String| v@))
}

pub open spec fn values_view(v: Seq<String>) -> Seq<Seq<char>> {
    v.map_values(|x: String| x@)
}

impl View for Headers {
    type V = HeaderEntries;

    closed spec fn view(&self) -> HeaderEntries {
        self.entries@.map_values(|e: (String, Vec<String>)| entry_view(e))
    }
}

impl Headers {
    /// Each name occurs once.
    pub open spec fn well_formed(&self) -> bool {
        names_unique(self@)
    }

    pub fn new() -> (r: Self)
        ensures
            r@ == Seq::<(Seq<char>, Seq<Seq<char>>)>::empty(),
            r.well_formed(),
    {
        let r = Headers { entries: Vec::new() };
        assert(r@ =~= Seq::<(Seq<char>, Seq<Seq<char>>)>::empty());
        r
    }

    /// The number of distinct names.
    pub fn len(&self) -> (r: usize)
        ensures
            r == self@.len(),
    {
        self.entries.len()
    }

    pub fn is_empty(&self) -> (r: bool)
        ensures
            r == (self@.len() == 0),
    {
        self.entries.len() == 0
    }

    /// The name and values of the `i`-th entry.
    pub fn entry(&self, i: usize) -> (r: (&String, &Vec<String>))
        requires
            i < self@.len(),
        ensures
            r.0@ == self@[i as int].0,
            values_view(r.1@) == self@[i as int].1,
    {
        let e = &self.entries[i];
        (&e.0, &e.1)
    }

    fn find(&self, name: &String) -> (r: usize)
        ensures
            r == index_of(self@, name@),
            r <= self@.len(),
    {
        let mut i: usize = 0;
        while i < self.entries.len()
            invariant
                i <= self@.len(),
                self@.len() == self.entries@.len(),
                index_of(self@, name@) == index_from(self@, name@, i as int),
            decreases self@.len() - i,
        {
            assert(self@[i as int].0 == self.entries@[i as int].0@);
            if self.entries[i].0 == *name {
                return i;
            }
            i = i + 1;
        }
        i
    }

    /// The values under `name`.
    pub fn get(&self, name: &str) -> (r: Option<&Vec<String>>)
        ensures
            r matches Some(v) ==> lookup(self@, name@) == Some(values_view(v@)),
            r is None ==> lookup(self@, name@) is None,
    {
        let key = String::from_str(name);
        let i = self.find(&key);
        if i < self.entries.len() {
            assert(self@[i as int] == entry_view(self.entries@[i as int]));
            Some(&self.entries[i].1)
        } else {
            None
        }
    }

    /// Sets the values under `name`, replacing any earlier ones.
    pub fn insert(&mut self, name: String, values: Vec<String>)
        ensures
            final(self)@ == upsert(old(self)@, name@, values_view(values@)),
            old(self).well_formed() ==> final(self).well_formed(),
    {
        let i = self.find(&name);
        let ghost old_view = self@;
        proof {
            lemma_index_from(old_view, name@, 0);
        }
        if i < self.entries.len() {
            self.entries.set(i, (name, values));
        } else {
            self.entries.push((name, values));
        }
        assert(self@ =~= upsert(old_view, name@, values_view(values@)));
    }

    /// Adds `value` after the values already under `name`.
    pub fn append(&mut self, name: String, value: String)
        ensures
            final(self)@ == add_value(old(self)@, name@, value@),
            old(self).well_formed() ==> final(self).well_formed(),
    {
        let i = self.find(&name);
        let ghost old_view = self@;
        proof {
            lemma_index_from(old_view, name@, 0);
        }
        if i < self.entries.len() {
            let mut vs = copy_strings(&self.entries[i].1);
            assert(old_view[i as int] == entry_view(self.entries@[i as int]));
            let ghost before = values_view(vs@);
            vs.push(value);
            assert(values_view(vs@) =~= before.push(value@));
            self.entries.set(i, (name, vs));
        } else {
            let mut vs: Vec<String> = Vec::new();
            vs.push(value);
            assert(values_view(vs@) =~= seq![value@]);
            self.entries.push((name, vs));
        }
        assert(self@ =~= add_value(old_view, name@, value@));
    }

    /// Adds an entry at the end, whatever the names before it; callers that
    /// keep names unique pass a new name.
    pub fn push_entry(&mut self, name: String, values: Vec<String>)
        ensures
            final(self)@ == old(self)@.push((name@, values_view(values@))),
    {
        let ghost old_view = self@;
        self.entries.push((name, values));
        assert(self@ =~= old_view.push((name@, values_view(values@))));
    }

    /// Removes the entry named `name`.
    pub fn remove(&mut self, name: &str)
        ensures
            final(self)@ == delete(old(self)@, name@),
            old(self).well_formed() ==> final(self).well_formed(),
    {
        let key = String::from_str(name);
        let i = self.find(&key);
        let ghost old_view = self@;
        if i < self.entries.len() {
            self.entries.remove(i);
        }
        assert(self@ =~= delete(old_view, name@));
    }
}

/// An HTTP request forwarded from the public endpoint to the agent.
#[derive(Debug, Clone)]
pub struct HttpRequest {
    /// Correlates the request with its response.
    pub request_id: String,
    pub method: String,
    /// Path and query, e.g. `/api/v1/users?limit=10`.
    pub uri: String,
    pub headers: Headers,
    /// The body in base64; empty when there is none.
    pub body: String,
    /// When the request was received, in milliseconds since the epoch.
    pub timestamp: u64,
}

impl HttpRequest {
    pub fn new(method: String, uri: String, request_id: String, timestamp: u64) -> (r: Self)
        ensures
            r.method == method,
            r.uri == uri,
            r.request_id == request_id,
            r.timestamp == timestamp,
            r.headers@.len() == 0,
            r.headers.well_formed(),
            r.body@.len() == 0,
    {
        HttpRequest { request_id, method, uri, headers: Headers::new(), body: String::new(), timestamp }
    }

    pub fn has_body(&self) -> (r: bool)
        ensures
            r == (self.body@.len() > 0),
    {
        !self.body.as_str().is_empty()
    }
}

/// The local service's response, sent back through the tunnel.
#[derive(Debug, Clone)]
pub struct HttpResponse {
    /// The `request_id` of the request answered.
    pub request_id: String,
    pub status_code: u16,
    pub headers: Headers,
    /// The body in base64; empty when there is none.
    pub body: String,
    /// How long the local service took, in milliseconds.
    pub processing_time_ms: u64,
}

impl HttpResponse {
    pub fn new(request_id: String, status_code: u16) -> (r: Self)
        ensures
            r.request_id == request_id,
            r.status_code == status_code,
            r.headers@.len() == 0,
            r.headers.well_formed(),
            r.body@.len() == 0,
            r.processing_time_ms == 0,
    {
        HttpResponse {
            request_id,
            status_code,
            headers: Headers::new(),
            body: String::new(),
            processing_time_ms: 0,
        }
    }

    pub fn has_body(&self) -> (r: bool)
        ensures
            r == (self.body@.len() > 0),
    {
        !self.body.as_str().is_empty()
    }

    /// A 2xx status.
    pub fn is_success(&self) -> (r: bool)
        ensures
            r == (200 <= self.status_code < 300),
    {
        200 <= self.status_code && self.status_code < 300
    }

    /// A 4xx status.
    pub fn is_client_error(&self) -> (r: bool)
        ensures
            r == (400 <= self.status_code < 500),
    {
        400 <= self.status_code && self.status_code < 500
    }

    /// A 5xx status.
    pub fn is_server_error(&self) -> (r: bool)
        ensures
            r == (500 <= self.status_code < 600),
    {
        500 <= self.status_code && self.status_code < 600
    }
}

/// Why the agent could not answer a request.
#[derive(Debug, Clone, Copy, PartialEq, Eq, Structural)]
pub enum ErrorCode {
    InvalidRequest,
    Timeout,
    LocalServiceUnavailable,
    InternalError,
}

pub open spec fn error_status(code: ErrorCode) -> u16 {
    match code {
        ErrorCode::InvalidRequest => 400,
        ErrorCode::Timeout => 504,
        ErrorCode::LocalServiceUnavailable => 503,
        ErrorCode::InternalError => 502,
    }
}

/// The HTTP status that stands for an agent error code.
pub fn status_for_error(code: ErrorCode) -> (r: u16)
    ensures
        r == error_status(code),
{
    match code {
        ErrorCode::InvalidRequest => 400,
        ErrorCode::Timeout => 504,
        ErrorCode::LocalServiceUnavailable => 503,
        ErrorCode::InternalError => 502,
    }
}

/// Every message on the agent channel; on the wire a JSON object whose `type`
/// field holds the variant's name in snake case.
#[derive(Debug, Clone)]
pub enum Message {
    Ping,
    Pong,
    /// Sent by the forwarder once connected, to ask for its connection details.
    Ready,
    ConnectionEstablished {
        connection_id: String,
        tunnel_id: String,
        public_url: String,
        subdomain_url: Option<String>,
        path_based_url: Option<String>,
    },
    HttpRequest(HttpRequest),
    HttpResponse(HttpResponse),
    Error { request_id: Option<String>, code: ErrorCode, message: String },
}

/// The response that stands in for an agent's error report: the mapped status,
/// a plain-text content type, and the message as the body.
pub fn error_response(request_id: &str, code: ErrorCode, message: &str) -> (r: HttpResponse)
    requires
        (message.spec_bytes().len() / 3) * 4 + 4 <= usize::MAX,
    ensures
        r.request_id@ == request_id@,
        r.status_code == error_status(code),
        r.headers@ == seq![("Content-Type"@, seq!["text/plain"@])],
        r.headers.well_formed(),
        r.body@ == b64_encode(message.spec_bytes()),
        r.processing_time_ms == 0,
{
    let mut headers = Headers::new();
    let mut values: Vec<String> = Vec::new();
    values.push(String::from_str("text/plain"));
    let ghost vv = values_view(values@);
    assert(vv =~= seq!["text/plain"@]);
    headers.insert(String::from_str("Content-Type"), values);
    assert(headers@ =~= seq![("Content-Type"@, seq!["text/plain"@])]);
    HttpResponse {
        request_id: String::from_str(request_id),
        status_code: status_for_error(code),
        headers,
        body: encode_body(message.as_bytes()),
        processing_time_ms: 0,
    }
}

/// What the relay does with a message that arrived from an agent.
#[derive(Debug, Clone)]
pub enum AgentAction {
    /// Look up the channel and answer with its connection details.
    SendConnectionInfo,
    /// Complete the pending request with this response.
    Complete(HttpResponse),
    /// Nothing to do: heartbeats, errors without a request, unexpected kinds.
    Ignore,
}

/// Decides what the relay does with an agent's message.
pub fn agent_action(msg: Message) -> (r: AgentAction)
    requires
        msg matches Message::Error { message, .. } ==> (encode_utf8(message@).len() / 3) * 4 + 4
            <= usize::MAX,
    ensures
        match msg {
            Message::Ready => r matches AgentAction::SendConnectionInfo,
            Message::HttpResponse(resp) => r matches AgentAction::Complete(c) && c == resp,
            Message::Error { request_id: Some(id), code, message } => r matches AgentAction::Complete(
                c,
            ) && c.request_id@ == id@ && c.status_code == error_status(code) && c.body@
                == b64_encode(encode_utf8(message@)),
            _ => r matches AgentAction::Ignore,
        },
{
    match msg {
        Message::Ready => AgentAction::SendConnectionInfo,
        Message::HttpResponse(resp) => AgentAction::Complete(resp),
        Message::Error { request_id: Some(id), code, message } => {
            AgentAction::Complete(error_response(id.as_str(), code, message.as_str()))
        },
        _ => AgentAction::Ignore,
    }
}

} // verus!
