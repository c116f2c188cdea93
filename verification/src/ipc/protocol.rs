//! The messages between client and server.

use vstd::prelude::*;

verus! {

/// The protocol version that both sides speak.
pub const PROTOCOL_VERSION: u8 = 1;

/// Where the server listens, and what a client must know to be heard.
#[derive(Debug)]
pub struct EndpointFile {
    pub version: u8,
    pub host: String,
    pub port: u16,
    pub token: String,
}

impl Clone for EndpointFile {
    fn clone(&self) -> (r: Self)
        ensures
            r == *self,
    {
        EndpointFile {
            version: self.version,
            host: self.host.clone(),
            port: self.port,
            token: self.token.clone(),
        }
    }
}

#[derive(Debug)]
pub struct ClientRequest {
    pub version: u8,
    pub token: String,
    pub action: String,
    pub secret: Option<String>,
    pub profile: Option<String>,
    pub pid: u32,
}

#[derive(Debug)]
pub struct ClientResponse {
    pub ok: bool,
    pub value: Option<String>,
    pub error: Option<String>,
}

} // verus!
