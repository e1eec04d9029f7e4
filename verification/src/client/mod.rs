//! Client mode: talking to a remote inference server. The configuration
//! derives the WebSocket address from the HTTP one and builds the endpoint
//! addresses.
use vstd::prelude::*;
use crate::text::{chars_of, concat, replace_all, replace_chars, string_of};

pub mod api;

pub use api::{GenerateResponse, HealthResponse};

verus! {

/// Addresses of a remote server.
#[derive(Debug, Clone)]
pub struct ClientConfig {
    /// Base address of the server (e.g. "http://192.168.1.100:8080").
    pub server_url: String,
    /// WebSocket base address, derived from `server_url`.
    pub ws_url: String,
}

/// The WebSocket form of a server address: every "http://" becomes "ws://",
/// then every "https://" becomes "wss://".
pub open spec fn websocket_url(server_url: Seq<char>) -> Seq<char> {
    replace_all(replace_all(server_url, "http://"@, "ws://"@), "https://"@, "wss://"@)
}

impl ClientConfig {
    /// A configuration for the server at `server_url`.
    pub fn new(server_url: String) -> (c: Self)
        ensures
            c.server_url@ == server_url@,
            c.ws_url@ == websocket_url(server_url@),
    {
        proof {
            reveal_strlit("http://");
            reveal_strlit("https://");
        }
        let s = chars_of(server_url.as_str());
        let step = replace_chars(&s, &chars_of("http://"), &chars_of("ws://"));
        let ws = replace_chars(&step, &chars_of("https://"), &chars_of("wss://"));
        ClientConfig { server_url, ws_url: string_of(&ws) }
    }

    /// The REST API base address.
    pub fn api_base(&self) -> (s: String)
        ensures
            s@ == self.server_url@ + "/api/v1"@,
    {
        concat(self.server_url.as_str(), "/api/v1")
    }

    /// The WebSocket endpoint address.
    pub fn ws_url(&self) -> (s: String)
        ensures
            s@ == self.ws_url@ + "/api/v1/ws"@,
    {
        concat(self.ws_url.as_str(), "/api/v1/ws")
    }
}

} // verus!
