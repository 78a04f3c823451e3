//! The settings of one live session: where its API and event stream listen and the
//! credentials every request carries. A value is never edited: a new session gets a new one.
use vstd::prelude::*;

use crate::models::lcu_process::{LcuProcess, ProcessInfo};
use crate::models::lockfile::{Handshake, Lockfile};
use crate::text::{decimal_string, decimal_text};

verus! {

/// The REST root of the session listening on `port`.
pub open spec fn api_base_url_of(port: int) -> Seq<char> {
    "https://127.0.0.1:"@ + decimal_text(port)
}

/// The event-stream root of the session listening on `port`.
pub open spec fn websocket_url_of(port: int) -> Seq<char> {
    "wss://localhost:"@ + decimal_text(port) + "/"@
}

/// The `Authorization` header value for a bearer credential.
pub open spec fn authorization_of(token: Seq<char>) -> Seq<char> {
    "Basic "@ + token
}

/// What a connection holds.
pub struct ConnectionView {
    pub process: ProcessInfo,
    pub handshake: Handshake,
    pub authorization: Seq<char>,
    pub api_base_url: Seq<char>,
    pub websocket_base_url: Seq<char>,
}

/// Every part of a connection comes from one handshake: its URLs name the handshake's port
/// and its credential is the handshake's token.
pub open spec fn consistent(c: ConnectionView) -> bool {
    &&& c.api_base_url == api_base_url_of(c.handshake.port)
    &&& c.websocket_base_url == websocket_url_of(c.handshake.port)
    &&& c.authorization == authorization_of(c.handshake.token)
}

/// One session's connection settings, built whole from a located process and its handshake.
pub struct Connection {
    process: LcuProcess,
    lockfile: Lockfile,
    authorization: String,
    api_base_url: String,
    websocket_base_url: String,
}

impl View for Connection {
    type V = ConnectionView;

    closed spec fn view(&self) -> ConnectionView {
        ConnectionView {
            process: self.process@,
            handshake: self.lockfile@,
            authorization: self.authorization@,
            api_base_url: self.api_base_url@,
            websocket_base_url: self.websocket_base_url@,
        }
    }
}

impl Connection {
    #[verifier::type_invariant]
    closed spec fn inv(&self) -> bool {
        consistent(self@)
    }

    /// The connection to the session that `lockfile` describes, for `process`.
    pub fn new(process: LcuProcess, lockfile: Lockfile) -> (r: Connection)
        ensures
            r@.process == process@,
            r@.handshake == lockfile@,
            consistent(r@),
    {
        proof {
            reveal_strlit("/");
        }
        let port = decimal_string(lockfile.port() as i128);
        let authorization = String::from_str("Basic ").concat(lockfile.token());
        let api_base_url = String::from_str("https://127.0.0.1:").concat(port.as_str());
        let websocket_base_url = String::from_str("wss://localhost:").concat(port.as_str()).concat(
            "/",
        );
        Connection { process, lockfile, authorization, api_base_url, websocket_base_url }
    }

    pub fn process(&self) -> (r: &LcuProcess)
        ensures
            r@ == self@.process,
    {
        &self.process
    }

    pub fn lockfile(&self) -> (r: &Lockfile)
        ensures
            r@ == self@.handshake,
    {
        &self.lockfile
    }

    pub fn authorization(&self) -> (r: &str)
        ensures
            r@ == self@.authorization,
            r@ == authorization_of(self@.handshake.token),
    {
        proof {
            use_type_invariant(self);
        }
        self.authorization.as_str()
    }

    pub fn api_base_url(&self) -> (r: &str)
        ensures
            r@ == self@.api_base_url,
            r@ == api_base_url_of(self@.handshake.port),
    {
        proof {
            use_type_invariant(self);
        }
        self.api_base_url.as_str()
    }

    pub fn websocket_base_url(&self) -> (r: &str)
        ensures
            r@ == self@.websocket_base_url,
            r@ == websocket_url_of(self@.handshake.port),
    {
        proof {
            use_type_invariant(self);
        }
        self.websocket_base_url.as_str()
    }

    /// The headers sent with every request of this session: any media type is accepted,
    /// and the session's credential is attached.
    pub fn default_headers(&self) -> (r: Vec<(String, String)>)
        ensures
            r@.len() == 2,
            r@[0].0@ == "Accept"@ && r@[0].1@ == "*/*"@,
            r@[1].0@ == "Authorization"@ && r@[1].1@ == authorization_of(self@.handshake.token),
    {
        proof {
            use_type_invariant(self);
        }
        let mut headers: Vec<(String, String)> = Vec::new();
        headers.push((String::from_str("Accept"), String::from_str("*/*")));
        headers.push((String::from_str("Authorization"), self.authorization.clone()));
        headers
    }
}

} // verus!
