//! What the client asks, and what it makes of the answer.

use vstd::prelude::*;

use crate::ipc::protocol::{ClientRequest, ClientResponse, EndpointFile, PROTOCOL_VERSION};
use crate::text;

verus! {

/// How long the client waits for an answer.
pub const RESPONSE_TIMEOUT_SECONDS: u64 = 1_500;

/// The longest answer that the client reads.
pub const MAX_RESPONSE_BYTES: u64 = 1_048_576;

/// Whether an endpoint is one that the client talks to: on this machine, and
/// with a token.
pub open spec fn is_usable(endpoint: EndpointFile) -> bool {
    &&& endpoint.version == PROTOCOL_VERSION
    &&& endpoint.host@ == "127.0.0.1"@
    &&& endpoint.token@.len() > 0
}

/// Whether a request is the one that was meant.
pub open spec fn is_asked(
    request: ClientRequest,
    endpoint: EndpointFile,
    action: Seq<char>,
    secret: Option<Seq<char>>,
    profile: Option<Seq<char>>,
    pid: u32,
) -> bool {
    &&& request.version == PROTOCOL_VERSION
    &&& request.token == endpoint.token
    &&& request.action@ == action
    &&& text_view(request.secret) == secret
    &&& text_view(request.profile) == profile
    &&& request.pid == pid
}

/// The characters of a text, if there is one.
pub open spec fn text_view(value: Option<String>) -> Option<Seq<char>> {
    match value {
        Some(value) => Some(value@),
        None => None,
    }
}

/// What an answer gives: its value, or why there is none.
pub open spec fn value_of(response: ClientResponse) -> Result<Seq<char>, Seq<char>> {
    if response.ok {
        match response.value {
            Some(value) => Ok(value@),
            None => Err("SecretD returned an invalid response"@),
        }
    } else {
        match response.error {
            Some(error) => Err(error@),
            None => Err("Secret request failed"@),
        }
    }
}

pub fn interpret_response(response: ClientResponse) -> (r: Result<String, String>)
    ensures
        match r {
            Ok(value) => value_of(response) == Ok::<Seq<char>, Seq<char>>(value@),
            Err(error) => value_of(response) == Err::<Seq<char>, Seq<char>>(error@),
        },
{
    if response.ok {
        return match response.value {
            Some(value) => Ok(value),
            None => Err("SecretD returned an invalid response".to_owned()),
        };
    }
    match response.error {
        Some(error) => Err(error),
        None => Err("Secret request failed".to_owned()),
    }
}

/// What comes of asking: nothing is sent to an endpoint that cannot be used;
/// else the request is exchanged for an answer, whose absence is an error.
pub open spec fn ask_outcome<
    X: Fn(&EndpointFile, &ClientRequest) -> Result<Option<ClientResponse>, String>,
>(
    endpoint: Result<EndpointFile, String>,
    action: Seq<char>,
    secret: Option<Seq<char>>,
    profile: Option<Seq<char>>,
    pid: u32,
    exchange: X,
    r: Result<String, String>,
) -> bool {
    match endpoint {
        Err(error) => r == Err::<String, String>(error),
        Ok(endpoint) => if !is_usable(endpoint) {
            r is Err && r->Err_0@ == "SecretD runtime file is invalid"@
        } else {
            exists|request: ClientRequest, reply: Result<Option<ClientResponse>, String>|
                {
                    &&& is_asked(request, endpoint, action, secret, profile, pid)
                    &&& #[trigger] call_ensures(exchange, (&endpoint, &request), reply)
                    &&& match reply {
                        Err(error) => r == Err::<String, String>(error),
                        Ok(None) => r is Err && r->Err_0@ == "SecretD closed the request"@,
                        Ok(Some(response)) => match value_of(response) {
                            Ok(value) => r is Ok && r->Ok_0@ == value,
                            Err(error) => r is Err && r->Err_0@ == error,
                        },
                    }
                }
        },
    }
}

fn request<X: Fn(&EndpointFile, &ClientRequest) -> Result<Option<ClientResponse>, String>>(
    endpoint: Result<EndpointFile, String>,
    action: &str,
    secret: Option<String>,
    profile: Option<String>,
    pid: u32,
    exchange: &X,
) -> (r: Result<String, String>)
    requires
        forall|e: &EndpointFile, q: &ClientRequest| call_requires(*exchange, (e, q)),
    ensures
        ask_outcome(
            endpoint,
            action@,
            text_view(secret),
            text_view(profile),
            pid,
            *exchange,
            r,
        ),
{
    let endpoint = match endpoint {
        Ok(endpoint) => endpoint,
        Err(error) => {
            return Err(error);
        },
    };
    if endpoint.version != PROTOCOL_VERSION || !text::str_eq(endpoint.host.as_str(), "127.0.0.1")
        || endpoint.token.as_str().is_empty() {
        return Err("SecretD runtime file is invalid".to_owned());
    }
    let request = ClientRequest {
        version: PROTOCOL_VERSION,
        token: endpoint.token.clone(),
        action: action.to_owned(),
        secret,
        profile,
        pid,
    };
    let reply = (*exchange)(&endpoint, &request);
    match reply {
        Err(error) => Err(error),
        Ok(None) => Err("SecretD closed the request".to_owned()),
        Ok(Some(response)) => interpret_response(response),
    }
}

/// Asks for a secret. `endpoint` is what the runtime file holds, `pid` the
/// client's process number, and `exchange` sends a request and reads the
/// answer.
pub fn get_secret<X: Fn(&EndpointFile, &ClientRequest) -> Result<Option<ClientResponse>, String>>(
    endpoint: Result<EndpointFile, String>,
    secret: &str,
    pid: u32,
    exchange: &X,
) -> (r: Result<String, String>)
    requires
        forall|e: &EndpointFile, q: &ClientRequest| call_requires(*exchange, (e, q)),
    ensures
        ask_outcome(endpoint, "get"@, Some(secret@), None, pid, *exchange, r),
{
    request(endpoint, "get", Some(secret.to_owned()), None, pid, exchange)
}

/// Asks for the credentials of a profile.
pub fn get_aws_credentials<
    X: Fn(&EndpointFile, &ClientRequest) -> Result<Option<ClientResponse>, String>,
>(
    endpoint: Result<EndpointFile, String>,
    profile: &str,
    pid: u32,
    exchange: &X,
) -> (r: Result<String, String>)
    requires
        forall|e: &EndpointFile, q: &ClientRequest| call_requires(*exchange, (e, q)),
    ensures
        ask_outcome(endpoint, "aws-credentials"@, None, Some(profile@), pid, *exchange, r),
{
    request(endpoint, "aws-credentials", None, Some(profile.to_owned()), pid, exchange)
}

/// Asks for an AWS login.
pub fn start_aws_login<
    X: Fn(&EndpointFile, &ClientRequest) -> Result<Option<ClientResponse>, String>,
>(endpoint: Result<EndpointFile, String>, pid: u32, exchange: &X) -> (r: Result<String, String>)
    requires
        forall|e: &EndpointFile, q: &ClientRequest| call_requires(*exchange, (e, q)),
    ensures
        ask_outcome(endpoint, "aws-login"@, None, None, pid, *exchange, r),
{
    request(endpoint, "aws-login", None, None, pid, exchange)
}

} // verus!
