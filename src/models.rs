//! The records the relay keeps: channels and pending requests.

use vstd::prelude::*;

verus! {

/// A live agent channel.
#[derive(Debug, Clone)]
pub struct ConnectionMetadata {
    /// The transport's id for the channel.
    pub connection_id: String,
    /// The tunnel id assigned to the channel (the public path segment).
    pub tunnel_id: String,
    /// The primary public URL.
    pub public_url: String,
    /// `https://{tunnel_id}.{domain}`, where subdomain routing is on.
    pub subdomain_url: Option<String>,
    /// `https://{domain}/{tunnel_id}`.
    pub path_based_url: Option<String>,
    /// When the channel opened, in seconds since the epoch.
    pub created_at: i64,
    /// When the record expires, in seconds since the epoch.
    pub ttl: i64,
    pub client_info: Option<ClientInfo>,
}

impl ConnectionMetadata {
    pub fn new(
        connection_id: String,
        tunnel_id: String,
        public_url: String,
        created_at: i64,
        ttl: i64,
    ) -> (r: Self)
        ensures
            r.connection_id == connection_id,
            r.tunnel_id == tunnel_id,
            r.public_url == public_url,
            r.subdomain_url is None,
            r.path_based_url is None,
            r.created_at == created_at,
            r.ttl == ttl,
            r.client_info is None,
    {
        ConnectionMetadata {
            connection_id,
            tunnel_id,
            public_url,
            subdomain_url: None,
            path_based_url: None,
            created_at,
            ttl,
            client_info: None,
        }
    }

    /// The same record, with the client's description attached.
    pub fn with_client_info(self, client_info: ClientInfo) -> (r: Self)
        ensures
            r == (ConnectionMetadata { client_info: Some(client_info), ..self }),
    {
        let mut m = self;
        m.client_info = Some(client_info);
        m
    }
}

/// What the agent says about itself.
#[derive(Debug, Clone)]
pub struct ClientInfo {
    pub version: String,
    pub platform: String,
}

impl ClientInfo {
    pub fn new(version: String, platform: String) -> (r: Self)
        ensures
            r.version == version,
            r.platform == platform,
    {
        ClientInfo { version, platform }
    }
}

/// A request forwarded to an agent and not yet answered.
#[derive(Debug, Clone)]
pub struct PendingRequest {
    pub request_id: String,
    /// The channel that should answer.
    pub connection_id: String,
    /// The public side's id for the request, for diagnostics.
    pub api_gateway_request_id: String,
    /// When the request was forwarded, in seconds since the epoch.
    pub created_at: i64,
    /// When the record expires, in seconds since the epoch.
    pub ttl: i64,
}

impl PendingRequest {
    pub fn new(
        request_id: String,
        connection_id: String,
        api_gateway_request_id: String,
        created_at: i64,
        ttl: i64,
    ) -> (r: Self)
        ensures
            r.request_id == request_id,
            r.connection_id == connection_id,
            r.api_gateway_request_id == api_gateway_request_id,
            r.created_at == created_at,
            r.ttl == ttl,
    {
        PendingRequest { request_id, connection_id, api_gateway_request_id, created_at, ttl }
    }

    /// Expired once the time is past the ttl.
    pub fn is_expired(&self, current_timestamp: i64) -> (r: bool)
        ensures
            r == (current_timestamp > self.ttl),
    {
        current_timestamp > self.ttl
    }

    /// Seconds since the request was forwarded.
    pub fn age_secs(&self, current_timestamp: i64) -> (r: i64)
        requires
            i64::MIN <= current_timestamp - self.created_at <= i64::MAX,
        ensures
            r == current_timestamp - self.created_at,
    {
        current_timestamp - self.created_at
    }
}

} // verus!
