//! How the server answers a request.

use vstd::prelude::*;

use crate::aws;
use crate::aws::{
    AwsAccessLevel, AwsCredentialProcessOutput, AwsDeviceAuthorization, AwsLoginStatus,
    AwsSettings,
};
use crate::controller;
use crate::controller::{
    AwsRequestOutcome, AwsRequestResolution, Controller, RequestOutcome, RequestResolution,
};
use crate::controller_aws;
use crate::crypto;
use crate::ipc::protocol::{ClientRequest, EndpointFile, PROTOCOL_VERSION};
use crate::process::ProcessIdentity;
use crate::text;
use crate::vault;
use crate::vault::{VaultError, VaultFile, VaultPlaintext};

verus! {

/// The longest request that is read.
pub const MAX_REQUEST_BYTES: u64 = 16_384;

/// How long a person may take to answer a request for a secret.
pub const REQUEST_TIMEOUT_SECONDS: u64 = 120;

/// How long a person may take to answer a request for AWS credentials.
pub const AWS_REQUEST_TIMEOUT_SECONDS: u64 = 600;

/// How many requests may be open at once.
pub const MAX_CONNECTIONS: usize = 64;

/// How many random bytes a token has.
pub const TOKEN_BYTES: usize = 32;

/// How far the lineage of a request is followed.
pub const PROCESS_TREE_LIMIT: usize = 12;

/// Whether one more request is taken on.
pub fn admits(active: usize) -> (r: bool)
    ensures
        r == (active < MAX_CONNECTIONS),
{
    active < MAX_CONNECTIONS
}

/// Compares two tokens in a time that depends on their lengths alone.
pub fn constant_time_equal(left: &str, right: &str) -> (r: bool)
    ensures
        r == (left@ == right@),
{
    let a = left.as_bytes();
    let b = right.as_bytes();
    let m: usize = a.len();
    let n: usize = b.len();
    let longest: usize = if m > n {
        m
    } else {
        n
    };
    let mut difference: usize = m ^ n;
    assert((m ^ n) == 0 <==> m == n) by (bit_vector);
    for i in 0..longest
        invariant
            m == a@.len(),
            n == b@.len(),
            longest >= m,
            longest >= n,
            longest == m || longest == n,
            difference == 0 <==> m == n && forall|j: int| 0 <= j < i ==> a@[j] == b@[j],
    {
        let x: usize = if i < m {
            a[i] as usize
        } else {
            0
        };
        let y: usize = if i < n {
            b[i] as usize
        } else {
            0
        };
        let before: usize = difference;
        difference = before | (x ^ y);
        assert((before | (x ^ y)) == 0 <==> before == 0 && x == y) by (bit_vector);
    }
    proof {
        if difference == 0 {
            assert(a@ =~= b@);
            vstd::utf8::encode_utf8_decode_utf8(left@);
            vstd::utf8::encode_utf8_decode_utf8(right@);
        }
    }
    difference == 0
}

/// What a client wants, once it has been heard.
#[derive(Debug)]
pub enum ServerRequest {
    Get { secret: String, pid: u32 },
    AwsCredentials { profile: String, pid: u32 },
    AwsLogin,
}

/// Whether a value was given that is not empty.
pub open spec fn is_given(value: Option<String>) -> bool {
    match value {
        Some(value) => value@.len() > 0,
        None => false,
    }
}

/// What a client that knows the token wants, or why it is not heard.
pub open spec fn wanted(request: ClientRequest, token: Seq<char>) -> Result<
    ServerRequest,
    Seq<char>,
> {
    if request.token@ != token {
        Err("Authentication failed"@)
    } else if request.version != PROTOCOL_VERSION || request.pid == 0 {
        Err("Invalid request"@)
    } else if request.action@ == "get"@ && is_given(request.secret) {
        Ok(ServerRequest::Get { secret: request.secret->Some_0, pid: request.pid })
    } else if request.action@ == "aws-credentials"@ && is_given(request.profile) {
        Ok(ServerRequest::AwsCredentials { profile: request.profile->Some_0, pid: request.pid })
    } else if request.action@ == "aws-login"@ {
        Ok(ServerRequest::AwsLogin)
    } else {
        Err("Invalid request"@)
    }
}

proof fn actions_differ()
    ensures
        "get"@ != "aws-credentials"@,
        "get"@ != "aws-login"@,
        "aws-credentials"@ != "aws-login"@,
{
    reveal_strlit("get");
    reveal_strlit("aws-credentials");
    reveal_strlit("aws-login");
    assert("get"@.len() == 3);
    assert("aws-credentials"@.len() == 15);
    assert("aws-login"@.len() == 9);
}

/// Decides what a request wants.
pub fn check_request(request: ClientRequest, token: &str) -> (r: Result<ServerRequest, String>)
    ensures
        match wanted(request, token@) {
            Ok(wanted) => r == Ok::<ServerRequest, String>(wanted),
            Err(error) => r is Err && r->Err_0@ == error,
        },
{
    proof {
        actions_differ();
    }
    if !constant_time_equal(request.token.as_str(), token) {
        return Err("Authentication failed".to_owned());
    }
    if request.version != PROTOCOL_VERSION || request.pid == 0 {
        return Err("Invalid request".to_owned());
    }
    let action = request.action.as_str();
    if text::str_eq(action, "get") {
        match request.secret {
            Some(secret) => {
                if !secret.as_str().is_empty() {
                    return Ok(ServerRequest::Get { secret, pid: request.pid });
                }
            },
            None => {},
        }
        return Err("Invalid request".to_owned());
    }
    if text::str_eq(action, "aws-credentials") {
        match request.profile {
            Some(profile) => {
                if !profile.as_str().is_empty() {
                    return Ok(ServerRequest::AwsCredentials { profile, pid: request.pid });
                }
            },
            None => {},
        }
        return Err("Invalid request".to_owned());
    }
    if text::str_eq(action, "aws-login") {
        return Ok(ServerRequest::AwsLogin);
    }
    Err("Invalid request".to_owned())
}

/// What was read of a request: too much is refused, and so is what `parse`
/// cannot read.
pub fn read_request<P: Fn(&Vec<u8>) -> Option<ClientRequest>>(
    bytes: Result<Vec<u8>, String>,
    parse: &P,
) -> (r: Result<ClientRequest, String>)
    requires
        forall|b: &Vec<u8>| call_requires(*parse, (b,)),
    ensures
        match bytes {
            Err(_) => r is Err && r->Err_0@ == "Invalid request"@,
            Ok(bytes) => if bytes@.len() > MAX_REQUEST_BYTES {
                r is Err && r->Err_0@ == "Request is too large"@
            } else {
                exists|parsed: Option<ClientRequest>|
                    #![trigger call_ensures(*parse, (&bytes,), parsed)]
                    call_ensures(*parse, (&bytes,), parsed) && match parsed {
                        Some(request) => r == Ok::<ClientRequest, String>(request),
                        None => r is Err && r->Err_0@ == "Invalid request"@,
                    }
            },
        },
{
    let bytes = match bytes {
        Ok(bytes) => bytes,
        Err(_) => {
            return Err("Invalid request".to_owned());
        },
    };
    if bytes.len() as u64 > MAX_REQUEST_BYTES {
        return Err("Request is too large".to_owned());
    }
    let parsed = (*parse)(&bytes);
    match parsed {
        Some(request) => Ok(request),
        None => Err("Invalid request".to_owned()),
    }
}

/// The endpoint of a server on this machine.
pub open spec fn is_endpoint(endpoint: EndpointFile, port: u16, token: Seq<u8>) -> bool {
    &&& endpoint.version == PROTOCOL_VERSION
    &&& endpoint.host@ == "127.0.0.1"@
    &&& endpoint.port == port
    &&& endpoint.token@ == crypto::base64_encoded(token)
}

/// Whether drawing a token gave as many bytes as a token has, or an error.
pub open spec fn is_token(drawn: Result<Vec<u8>, String>) -> bool {
    drawn matches Ok(token) ==> token@.len() == TOKEN_BYTES
}

/// What comes of an endpoint for a port, given what drawing its token gave:
/// the endpoint with that token, or the error.
pub open spec fn endpoint_outcome(
    port: u16,
    drawn: Result<Vec<u8>, String>,
    r: Result<EndpointFile, String>,
) -> bool {
    match drawn {
        Ok(token) => r is Ok && is_endpoint(r->Ok_0, port, token@),
        Err(error) => r == Err::<EndpointFile, String>(error),
    }
}

/// The endpoint for a port, with a fresh token. Whether there are random bytes
/// for one, and which, is the system's to say.
pub fn new_endpoint(port: u16) -> (r: Result<EndpointFile, String>)
    ensures
        exists|drawn: Result<Vec<u8>, String>| #[trigger]
            endpoint_outcome(port, drawn, r) && is_token(drawn),
{
    let count: usize = TOKEN_BYTES;
    let mut token: Vec<u8> = vec![0u8; count];
    let drawn = match crypto::fill_random(&mut token) {
        Ok(()) => Ok(token),
        Err(error) => Err(crypto::random_error_text(&error)),
    };
    assert(is_token(drawn));
    endpoint_from(port, drawn)
}

/// The endpoint for a port, from what drawing its token gave.
pub fn endpoint_from(port: u16, drawn: Result<Vec<u8>, String>) -> (r: Result<
    EndpointFile,
    String,
>)
    ensures
        endpoint_outcome(port, drawn, r),
{
    match drawn {
        Ok(token) => {
            let mut token = token;
            let endpoint = endpoint_for(port, &token);
            crypto::wipe_bytes(&mut token);
            Ok(endpoint)
        },
        Err(error) => Err(error),
    }
}

/// The endpoint for a port and the bytes of a token.
pub fn endpoint_for(port: u16, token: &Vec<u8>) -> (r: EndpointFile)
    ensures
        is_endpoint(r, port, token@),
{
    EndpointFile {
        version: PROTOCOL_VERSION,
        host: "127.0.0.1".to_owned(),
        port,
        token: crypto::encode_base64(token.as_slice()),
    }
}

/// Who asks: whether the connection was verified, and the lineage, which must
/// not be empty.
pub fn requester(verified: bool, tree: Result<Vec<ProcessIdentity>, String>) -> (r: Result<
    (bool, Vec<ProcessIdentity>),
    String,
>)
    ensures
        match tree {
            Err(error) => r == Err::<(bool, Vec<ProcessIdentity>), String>(error),
            Ok(tree) => if tree@.len() == 0 {
                r is Err && r->Err_0@ == "Unable to inspect the requesting process"@
            } else {
                r == Ok::<(bool, Vec<ProcessIdentity>), String>((verified, tree))
            },
        },
{
    match tree {
        Err(error) => Err(error),
        Ok(tree) => if tree.len() == 0 {
            Err("Unable to inspect the requesting process".to_owned())
        } else {
            Ok((verified, tree))
        },
    }
}

/// Whether a result says the same as one with a vault error in it.
pub open spec fn same_result<T>(r: Result<T, String>, inner: Result<T, VaultError>) -> bool {
    match inner {
        Ok(value) => r == Ok::<T, String>(value),
        Err(error) => r == Err::<T, String>(error.0),
    }
}

/// A request for a secret that waits for an answer: the identifier it goes by,
/// and what the client asked for.
#[derive(Debug)]
pub struct SecretWait {
    pub id: String,
    pub secret: String,
}

/// What serving a request for a secret comes to at first: the secret at once,
/// or a wait.
#[derive(Debug)]
pub enum SecretServe {
    Released(String),
    Waiting(SecretWait),
}

/// Whether serving a request for a secret follows what the controller said.
pub open spec fn secret_served(
    secret: Seq<char>,
    outcome: Result<RequestOutcome, VaultError>,
    r: Result<SecretServe, String>,
) -> bool {
    match outcome {
        Err(error) => r == Err::<SecretServe, String>(error.0),
        Ok(RequestOutcome::Immediate(value)) => r == Ok::<SecretServe, String>(
            SecretServe::Released(value),
        ),
        Ok(RequestOutcome::Pending { id }) => {
            &&& r matches Ok(SecretServe::Waiting(wait))
            &&& wait.id == id
            &&& wait.secret@ == secret
        },
    }
}

/// Asks the controller for a secret on behalf of a client.
pub fn begin_secret_request(
    controller: &mut Controller,
    secret: &str,
    requester: Result<(bool, Vec<ProcessIdentity>), String>,
) -> (r: Result<SecretServe, String>)
    requires
        old(controller).wf(),
    ensures
        final(controller).wf(),
        match requester {
            Err(error) => r == Err::<SecretServe, String>(error) && *final(controller) == *old(
                controller),
            Ok((verified, tree)) => exists|
                id: Seq<char>,
                now: u64,
                inner: Result<RequestOutcome, VaultError>,
            | #[trigger]
                controller::begin_outcome(
                    *old(controller),
                    secret@,
                    tree@,
                    verified,
                    id,
                    now,
                    *final(controller),
                    inner,
                ) && secret_served(secret@, inner, r),
        },
{
    match requester {
        Err(error) => Err(error),
        Ok((verified, tree)) => {
            let inner = controller.begin_request(secret, tree, verified);
            match inner {
                Ok(RequestOutcome::Immediate(value)) => Ok(SecretServe::Released(value)),
                Ok(RequestOutcome::Pending { id }) => Ok(
                    SecretServe::Waiting(SecretWait { id, secret: secret.to_owned() }),
                ),
                Err(error) => Err(error.0),
            }
        },
    }
}

/// Answers a client whose request for a secret waited: with the secret that was
/// asked for only where a person approved. Without an answer in time the request is given up.
pub fn answer_secret_request(
    controller: &mut Controller,
    wait: &SecretWait,
    resolution: Option<RequestResolution>,
) -> (r: Result<String, String>)
    requires
        old(controller).wf(),
    ensures
        final(controller).wf(),
        match resolution {
            Some(RequestResolution::Approved) => {
                &&& *final(controller) == *old(controller)
                &&& match vault::revealed(old(controller).vault, wait.secret@) {
                    Ok(entry) => r == Ok::<String, String>(entry.value),
                    Err(error) => r is Err && r->Err_0@ == error,
                }
            },
            Some(RequestResolution::Denied) => {
                &&& *final(controller) == *old(controller)
                &&& r is Err && r->Err_0@ == "Request denied or timed out"@
            },
            Some(RequestResolution::Failed(error)) => {
                &&& *final(controller) == *old(controller)
                &&& r == Err::<String, String>(error)
            },
            None => {
                &&& exists|now: u64| #[trigger]
                    controller::timeout_outcome(
                        *old(controller),
                        wait.id@,
                        now,
                        *final(controller),
                    )
                &&& r is Err && r->Err_0@ == "Request denied or timed out"@
            },
        },
{
    match resolution {
        Some(RequestResolution::Approved) => match controller.release_after_approval(
            wait.secret.as_str(),
        ) {
            Ok(value) => Ok(value),
            Err(error) => Err(error.0),
        },
        Some(RequestResolution::Denied) => Err("Request denied or timed out".to_owned()),
        Some(RequestResolution::Failed(error)) => Err(error),
        None => {
            controller.timeout_request(wait.id.as_str());
            Err("Request denied or timed out".to_owned())
        },
    }
}

/// What serving a request for AWS credentials does next.
pub enum AwsServeAction {
    Await { id: String },
    Acquire,
    Fetch { settings: AwsSettings, profile: String, level: AwsAccessLevel },
    LogIn { settings: AwsSettings },
    Respond(Result<AwsCredentialProcessOutput, String>),
}

/// What serving a request for AWS credentials is told: the answer of a person
/// (none in time), whether the turn was given, what fetching gave with the
/// settings it leaves, how the login ended.
pub enum AwsServeEvent {
    Answered(Option<AwsRequestResolution>),
    Acquired(Result<(), String>),
    Fetched { settings: AwsSettings, result: Result<AwsCredentialProcessOutput, String> },
    LoggedIn(Result<(), String>),
}

/// What serving a request for AWS credentials waits for, with the profile that
/// was asked for and the level, once there is one.
pub enum AwsServe {
    Waiting { id: String, profile: String },
    Acquiring { profile: String, level: AwsAccessLevel },
    Fetching { profile: String, level: AwsAccessLevel },
    LoggingIn { profile: String, level: AwsAccessLevel },
    FetchingAgain { profile: String, level: AwsAccessLevel },
    Ended,
}

/// The profile that a stage serves.
pub open spec fn served_profile(stage: AwsServe) -> Option<Seq<char>> {
    match stage {
        AwsServe::Waiting { profile, .. } => Some(profile@),
        AwsServe::Acquiring { profile, .. } => Some(profile@),
        AwsServe::Fetching { profile, .. } => Some(profile@),
        AwsServe::LoggingIn { profile, .. } => Some(profile@),
        AwsServe::FetchingAgain { profile, .. } => Some(profile@),
        AwsServe::Ended => None,
    }
}

/// A step: where it leads, what is done, and whether what is shown changes.
pub struct AwsServeStep {
    pub stage: AwsServe,
    pub action: AwsServeAction,
    pub notify: bool,
}

/// Whether an event is one that a stage waits for.
pub open spec fn serve_expects(stage: AwsServe, event: AwsServeEvent) -> bool {
    match (stage, event) {
        (AwsServe::Waiting { .. }, AwsServeEvent::Answered(_)) => true,
        (AwsServe::Acquiring { .. }, AwsServeEvent::Acquired(_)) => true,
        (AwsServe::Fetching { .. }, AwsServeEvent::Fetched { .. }) => true,
        (AwsServe::LoggingIn { .. }, AwsServeEvent::LoggedIn(_)) => true,
        (AwsServe::FetchingAgain { .. }, AwsServeEvent::Fetched { .. }) => true,
        _ => false,
    }
}

/// Whether a step ends with an error.
pub open spec fn serve_refuses(step: AwsServeStep, error: Seq<char>) -> bool {
    &&& step.stage is Ended
    &&& step.action matches AwsServeAction::Respond(Err(told))
    &&& told@ == error
}

/// Whether a step ends with what fetching gave.
pub open spec fn serve_responds(
    step: AwsServeStep,
    result: Result<AwsCredentialProcessOutput, String>,
) -> bool {
    step.stage is Ended && step.action == AwsServeAction::Respond(result)
}

/// Why credentials cannot be fetched: the vault is locked or nothing is
/// configured.
pub open spec fn context_error(controller: Controller) -> Option<Seq<char>> {
    if !vault::is_unlocked(controller.vault) {
        Some("Vault is locked"@)
    } else if controller.vault.data->Some_0.aws is None {
        Some("AWS SSO is not configured in secretd"@)
    } else {
        None
    }
}

/// Whether a step asks for the turn to fetch, where credentials can be fetched.
pub open spec fn serve_acquires(
    controller: Controller,
    profile: Seq<char>,
    level: AwsAccessLevel,
    step: AwsServeStep,
) -> bool {
    &&& !step.notify
    &&& match context_error(controller) {
        Some(error) => serve_refuses(step, error),
        None => {
            &&& step.stage matches AwsServe::Acquiring { profile: asked, level: given }
            &&& asked@ == profile
            &&& given == level
            &&& step.action is Acquire
        },
    }
}

/// Whether a step fetches credentials of a level for a profile with the settings
/// that are kept now.
pub open spec fn serve_fetches(
    controller: Controller,
    profile: Seq<char>,
    level: AwsAccessLevel,
    stage: AwsServe,
    step: AwsServeStep,
) -> bool {
    &&& !step.notify
    &&& match context_error(controller) {
        Some(error) => serve_refuses(step, error),
        None => {
            &&& step.stage == stage
            &&& step.action matches AwsServeAction::Fetch { settings, profile: wanted, level: asked }
            &&& wanted@ == profile
            &&& asked == level
            &&& aws::same_settings(settings, controller.vault.data->Some_0.aws->Some_0)
        },
    }
}

pub open spec fn denied_message() -> Seq<char> {
    "AWS credential request denied or timed out"@
}

/// The first step, from what the controller said.
pub open spec fn serve_starts(
    controller: Controller,
    profile: Seq<char>,
    outcome: Result<AwsRequestOutcome, String>,
    step: AwsServeStep,
) -> bool {
    match outcome {
        Err(error) => serve_refuses(step, error@) && !step.notify,
        Ok(AwsRequestOutcome::Denied) => serve_refuses(step, denied_message()) && !step.notify,
        Ok(AwsRequestOutcome::Immediate(level)) => serve_acquires(
            controller,
            profile,
            level,
            step,
        ),
        Ok(AwsRequestOutcome::Pending { id }) => {
            &&& step.stage matches AwsServe::Waiting { id: awaited, profile: asked }
            &&& awaited == id
            &&& asked@ == profile
            &&& step.action == (AwsServeAction::Await { id })
            &&& step.notify
        },
    }
}

/// A later step. What fetching leaves in the settings is kept before anything
/// else; a session that has expired leads to one login and one more attempt.
pub open spec fn serve_continues<
    E: Fn(&VaultPlaintext) -> Result<Vec<u8>, String>,
    W: Fn(&VaultFile) -> Result<(), VaultError>,
>(
    stage: AwsServe,
    before: Controller,
    event: AwsServeEvent,
    encode: E,
    write: W,
    after: Controller,
    step: AwsServeStep,
) -> bool {
    match (stage, event) {
        (AwsServe::Waiting { id, profile }, AwsServeEvent::Answered(answer)) => match answer {
            Some(AwsRequestResolution::Approved(level)) => after == before && serve_acquires(
                before,
                profile@,
                level,
                step,
            ),
            Some(AwsRequestResolution::Denied) => after == before && serve_refuses(
                step,
                denied_message(),
            ) && step.notify,
            None => {
                &&& exists|denial_id: String, now: u64| #[trigger]
                    controller_aws::timeout_aws_outcome(before, id@, denial_id, now, after)
                &&& serve_refuses(step, denied_message())
                &&& step.notify
            },
        },
        (AwsServe::Acquiring { profile, level }, AwsServeEvent::Acquired(given)) => {
            &&& after == before
            &&& match given {
                Err(error) => serve_refuses(step, error@) && !step.notify,
                Ok(_) => serve_fetches(
                    before,
                    profile@,
                    level,
                    AwsServe::Fetching { profile, level },
                    step,
                ),
            }
        },
        (AwsServe::Fetching { profile, level }, AwsServeEvent::Fetched { settings, result }) => exists|
            nonce: Result<Vec<u8>, VaultError>,
            done: Result<(), VaultError>,
            middle: Controller,
        |
            {
                &&& vault::is_nonce(nonce)
                &&& #[trigger] controller_aws::persist_outcome(
                    before.vault,
                    settings,
                    false,
                    nonce,
                    encode,
                    write,
                    middle.vault,
                    done,
                )
                &&& middle == (Controller { vault: middle.vault, ..before })
                &&& match done {
                    Err(error) => after == middle && serve_refuses(step, error.0@) && !step.notify,
                    Ok(_) => match result {
                        Ok(_) => after == middle && serve_responds(step, result) && step.notify,
                        Err(error) => if error@ != aws::AWS_SESSION_EXPIRED@ {
                            after == middle && serve_responds(step, result) && !step.notify
                        } else {
                            match controller_aws::login_error(middle) {
                                Some(error) => after == middle && serve_refuses(step, error)
                                    && !step.notify,
                                None => {
                                    &&& after == (Controller {
                                        aws_login: AwsLoginStatus::Starting,
                                        ..middle
                                    })
                                    &&& step.stage == (AwsServe::LoggingIn { profile, level })
                                    &&& step.action matches AwsServeAction::LogIn { settings: kept }
                                    &&& aws::same_settings(
                                        kept,
                                        middle.vault.data->Some_0.aws->Some_0,
                                    )
                                    &&& step.notify
                                },
                            }
                        },
                    },
                }
            },
        (AwsServe::LoggingIn { profile, level }, AwsServeEvent::LoggedIn(done)) => {
            &&& after == before
            &&& match done {
                Err(error) => serve_refuses(step, error@) && !step.notify,
                Ok(_) => serve_fetches(
                    before,
                    profile@,
                    level,
                    AwsServe::FetchingAgain { profile, level },
                    step,
                ),
            }
        },
        (AwsServe::FetchingAgain { .. }, AwsServeEvent::Fetched { settings, result }) => exists|
            nonce: Result<Vec<u8>, VaultError>,
            done: Result<(), VaultError>,
        |
            {
                &&& vault::is_nonce(nonce)
                &&& #[trigger] controller_aws::persist_outcome(
                    before.vault,
                    settings,
                    false,
                    nonce,
                    encode,
                    write,
                    after.vault,
                    done,
                )
                &&& after == (Controller { vault: after.vault, ..before })
                &&& match done {
                    Err(error) => serve_refuses(step, error.0@) && !step.notify,
                    Ok(_) => serve_responds(step, result) && step.notify == (result is Ok),
                }
            },
        _ => false,
    }
}

/// Asks the controller for AWS credentials on behalf of a client.
pub fn begin_aws_credentials<F: Fn(u32) -> Result<Option<ProcessIdentity>, String>>(
    controller: &mut Controller,
    profile: &str,
    requester: Result<(bool, Vec<ProcessIdentity>), String>,
    inspect: &F,
) -> (step: AwsServeStep)
    requires
        old(controller).wf(),
        forall|number: u32| call_requires(*inspect, (number,)),
    ensures
        final(controller).wf(),
        match requester {
            Err(error) => {
                &&& *final(controller) == *old(controller)
                &&& serve_starts(
                    *final(controller),
                    profile@,
                    Err::<AwsRequestOutcome, String>(error),
                    step,
                )
            },
            Ok((verified, tree)) => exists|
                alive: Seq<bool>,
                id: Seq<char>,
                now: u64,
                inner: Result<AwsRequestOutcome, VaultError>,
                outcome: Result<AwsRequestOutcome, String>,
            |
                {
                    &&& controller_aws::all_reported(
                        *inspect,
                        old(controller).aws_process_decisions@,
                        alive,
                    )
                    &&& #[trigger] controller_aws::begin_aws_outcome(
                        *old(controller),
                        profile@,
                        tree@,
                        verified,
                        alive,
                        id,
                        now,
                        *final(controller),
                        inner,
                    )
                    &&& #[trigger] same_result(outcome, inner)
                    &&& serve_starts(*final(controller), profile@, outcome, step)
                },
        },
{
    match requester {
        Err(error) => serve_first(controller, profile, Err(error)),
        Ok((verified, tree)) => {
            let inner = controller.begin_aws_request(profile, tree, verified, inspect);
            let ghost said = inner;
            let outcome = match inner {
                Ok(outcome) => Ok(outcome),
                Err(error) => Err(error.0),
            };
            assert(same_result(outcome, said));
            serve_first(controller, profile, outcome)
        },
    }
}

/// The first step, from what the controller said.
pub fn serve_first(
    controller: &Controller,
    profile: &str,
    outcome: Result<AwsRequestOutcome, String>,
) -> (step: AwsServeStep)
    ensures
        serve_starts(*controller, profile@, outcome, step),
{
    match outcome {
        Err(error) => refuse(error, false),
        Ok(AwsRequestOutcome::Denied) => refuse(
            "AWS credential request denied or timed out".to_owned(),
            false,
        ),
        Ok(AwsRequestOutcome::Immediate(level)) => acquire(controller, profile.to_owned(), level),
        Ok(AwsRequestOutcome::Pending { id }) => AwsServeStep {
            stage: AwsServe::Waiting { id: id.clone(), profile: profile.to_owned() },
            action: AwsServeAction::Await { id },
            notify: true,
        },
    }
}

fn refuse(error: String, notify: bool) -> (step: AwsServeStep)
    ensures
        serve_refuses(step, error@),
        step.notify == notify,
        step.action == AwsServeAction::Respond(Err(error)),
        step.stage is Ended,
{
    AwsServeStep {
        stage: AwsServe::Ended,
        action: AwsServeAction::Respond(Err(error)),
        notify,
    }
}

fn acquire(controller: &Controller, profile: String, level: AwsAccessLevel) -> (step: AwsServeStep)
    ensures
        serve_acquires(*controller, profile@, level, step),
{
    match controller.aws_credential_context() {
        Err(error) => refuse(error.0, false),
        Ok(_) => AwsServeStep {
            stage: AwsServe::Acquiring { profile, level },
            action: AwsServeAction::Acquire,
            notify: false,
        },
    }
}

fn fetch(
    controller: &Controller,
    profile: String,
    level: AwsAccessLevel,
    stage: AwsServe,
) -> (step: AwsServeStep)
    ensures
        serve_fetches(*controller, profile@, level, stage, step),
{
    match controller.aws_credential_context() {
        Err(error) => refuse(error.0, false),
        Ok(settings) => AwsServeStep {
            stage,
            action: AwsServeAction::Fetch { settings, profile, level },
            notify: false,
        },
    }
}

/// Goes on serving with what happened.
pub fn serve_next<
    E: Fn(&VaultPlaintext) -> Result<Vec<u8>, String>,
    W: Fn(&VaultFile) -> Result<(), VaultError>,
>(
    stage: AwsServe,
    controller: &mut Controller,
    event: AwsServeEvent,
    encode: &E,
    write: &W,
) -> (step: AwsServeStep)
    requires
        old(controller).wf(),
        serve_expects(stage, event),
        forall|d: &VaultPlaintext| call_requires(*encode, (d,)),
        forall|f: &VaultFile| call_requires(*write, (f,)),
    ensures
        final(controller).wf(),
        serve_continues(
            stage,
            *old(controller),
            event,
            *encode,
            *write,
            *final(controller),
            step,
        ),
{
    match (stage, event) {
        (AwsServe::Waiting { id, profile }, AwsServeEvent::Answered(answer)) => match answer {
            Some(AwsRequestResolution::Approved(level)) => acquire(controller, profile, level),
            Some(AwsRequestResolution::Denied) => refuse(
                "AWS credential request denied or timed out".to_owned(),
                true,
            ),
            None => {
                controller.timeout_aws_request(id.as_str());
                refuse("AWS credential request denied or timed out".to_owned(), true)
            },
        },
        (AwsServe::Acquiring { profile, level }, AwsServeEvent::Acquired(given)) => match given {
            Err(error) => refuse(error, false),
            Ok(_) => fetch(
                controller,
                profile.clone(),
                level,
                AwsServe::Fetching { profile, level },
            ),
        },
        (AwsServe::Fetching { profile, level }, AwsServeEvent::Fetched { settings, result }) => {
            let done = controller.persist_aws_settings(&settings, encode, write);
            let ghost middle = *controller;
            match done {
                Err(error) => refuse(error.0, false),
                Ok(_) => match result {
                    Ok(credentials) => AwsServeStep {
                        stage: AwsServe::Ended,
                        action: AwsServeAction::Respond(Ok(credentials)),
                        notify: true,
                    },
                    Err(error) => if !aws::is_session_expired_error(error.as_str()) {
                        refuse(error, false)
                    } else {
                        match controller.prepare_aws_login() {
                            Err(error) => refuse(error.0, false),
                            Ok(kept) => AwsServeStep {
                                stage: AwsServe::LoggingIn { profile, level },
                                action: AwsServeAction::LogIn { settings: kept },
                                notify: true,
                            },
                        }
                    },
                },
            }
        },
        (AwsServe::LoggingIn { profile, level }, AwsServeEvent::LoggedIn(done)) => match done {
            Err(error) => refuse(error, false),
            Ok(_) => fetch(
                controller,
                profile.clone(),
                level,
                AwsServe::FetchingAgain { profile, level },
            ),
        },
        (AwsServe::FetchingAgain { .. }, AwsServeEvent::Fetched { settings, result }) => {
            let done = controller.persist_aws_settings(&settings, encode, write);
            match done {
                Err(error) => refuse(error.0, false),
                Ok(_) => {
                    let notify = result.is_ok();
                    AwsServeStep {
                        stage: AwsServe::Ended,
                        action: AwsServeAction::Respond(result),
                        notify,
                    }
                },
            }
        },
        _ => refuse(String::new(), false),
    }
}

/// Whether a login that was asked for may be tried, and when the token that
/// there is expires.
pub fn begin_aws_login(controller: &Controller) -> (r: Result<Option<u64>, String>)
    ensures
        match controller_aws::login_error(*controller) {
            Some(error) => r is Err && r->Err_0@ == error,
            None => r == Ok::<Option<u64>, String>(
                expiry_of(controller.vault.data->Some_0.aws->Some_0),
            ),
        },
{
    match controller.preview_aws_login() {
        Err(error) => Err(error.0),
        Ok(settings) => Ok(token_expiry(&settings)),
    }
}

/// When the access token of settings expires, if there is one.
pub open spec fn expiry_of(settings: AwsSettings) -> Option<u64> {
    match settings.token {
        Some(token) => Some(token.access_token_expires_at),
        None => None,
    }
}

fn token_expiry(settings: &AwsSettings) -> (r: Option<u64>)
    ensures
        r == expiry_of(*settings),
{
    match &settings.token {
        Some(token) => Some(token.access_token_expires_at),
        None => None,
    }
}

/// Starts the login once its turn has come, unless another one has renewed the
/// session meanwhile.
pub fn claim_aws_login(controller: &mut Controller, initial: Option<u64>) -> (r: Result<
    Option<AwsSettings>,
    String,
>)
    requires
        old(controller).wf(),
    ensures
        final(controller).wf(),
        match context_error(*old(controller)) {
            Some(error) => r is Err && r->Err_0@ == error && *final(controller) == *old(
                controller),
            None => {
                let kept = old(controller).vault.data->Some_0.aws->Some_0;
                if expiry_of(kept) != initial {
                    r is Ok && r->Ok_0 is None && *final(controller) == *old(controller)
                } else {
                    match controller_aws::login_error(*old(controller)) {
                        Some(error) => r is Err && r->Err_0@ == error && *final(controller)
                            == *old(controller),
                        None => {
                            &&& r matches Ok(Some(settings))
                            &&& aws::same_settings(settings, kept)
                            &&& *final(controller) == (Controller {
                                aws_login: AwsLoginStatus::Starting,
                                ..*old(controller)
                            })
                        },
                    }
                }
            },
        },
{
    let current: Option<u64> = match controller.aws_credential_context() {
        Err(error) => {
            return Err(error.0);
        },
        Ok(settings) => token_expiry(&settings),
    };
    let same = match (current, initial) {
        (Some(current), Some(initial)) => current == initial,
        (None, None) => true,
        _ => false,
    };
    if !same {
        return Ok(None);
    }
    match controller.prepare_aws_login() {
        Err(error) => Err(error.0),
        Ok(settings) => Ok(Some(settings)),
    }
}

/// Shows what a person must do to approve a login.
pub fn login_announced(controller: &mut Controller, authorization: AwsDeviceAuthorization)
    ensures
        *final(controller) == (Controller {
            aws_login: AwsLoginStatus::AwaitingUser(authorization),
            ..*old(controller)
        }),
{
    controller.set_aws_login_status(AwsLoginStatus::AwaitingUser(authorization));
}

/// Goes on to the discovery after a login, or shows why the login failed.
pub fn login_returned<
    E: Fn(&VaultPlaintext) -> Result<Vec<u8>, String>,
    W: Fn(&VaultFile) -> Result<(), VaultError>,
>(
    controller: &mut Controller,
    result: Result<AwsSettings, String>,
    encode: &E,
    write: &W,
) -> (r: Result<AwsSettings, String>)
    requires
        old(controller).wf(),
        forall|d: &VaultPlaintext| call_requires(*encode, (d,)),
        forall|f: &VaultFile| call_requires(*write, (f,)),
    ensures
        final(controller).wf(),
        r == result,
        match result {
            Ok(_) => *final(controller) == (Controller {
                aws_login: AwsLoginStatus::Discovering,
                ..*old(controller)
            }),
            Err(error) => {
                &&& controller_aws::shows_failure(final(controller).aws_login, error@)
                &&& *final(controller) == (Controller {
                    aws_login: final(controller).aws_login,
                    ..*old(controller)
                })
            },
        },
{
    match result {
        Ok(settings) => {
            controller.set_aws_login_status(AwsLoginStatus::Discovering);
            Ok(settings)
        },
        Err(error) => {
            controller.complete_aws_login(Err(error.clone()), encode, write);
            Err(error)
        },
    }
}

/// Keeps what a login and its discovery gave.
pub fn discovery_returned<
    E: Fn(&VaultPlaintext) -> Result<Vec<u8>, String>,
    W: Fn(&VaultFile) -> Result<(), VaultError>,
>(
    controller: &mut Controller,
    settings: AwsSettings,
    result: Result<(), String>,
    encode: &E,
    write: &W,
)
    requires
        old(controller).wf(),
        forall|d: &VaultPlaintext| call_requires(*encode, (d,)),
        forall|f: &VaultFile| call_requires(*write, (f,)),
    ensures
        final(controller).wf(),
        exists|nonce: Result<Vec<u8>, VaultError>|
            {
                &&& #[trigger] vault::is_nonce(nonce)
                &&& match result {
                    Ok(_) => controller_aws::complete_outcome(
                        *old(controller),
                        Ok::<AwsSettings, String>(settings),
                        nonce,
                        *encode,
                        *write,
                        *final(controller),
                    ),
                    Err(error) => controller_aws::discovery_failure_outcome(
                        *old(controller),
                        settings,
                        error@,
                        nonce,
                        *encode,
                        *write,
                        *final(controller),
                    ),
                }
            },
{
    match result {
        Ok(_) => controller.complete_aws_login(Ok(settings), encode, write),
        Err(error) => controller.complete_aws_discovery_failure(&settings, error, encode, write),
    }
}

/// Credentials are fetched only once a decision has given a level, for that
/// level alone, and for the profile that was asked for.
pub proof fn credentials_are_fetched_only_when_approved<
    E: Fn(&VaultPlaintext) -> Result<Vec<u8>, String>,
    W: Fn(&VaultFile) -> Result<(), VaultError>,
>(
    stage: AwsServe,
    before: Controller,
    event: AwsServeEvent,
    encode: E,
    write: W,
    after: Controller,
    step: AwsServeStep,
)
    requires
        serve_continues(stage, before, event, encode, write, after, step),
        step.action is Fetch,
    ensures
        stage matches AwsServe::Acquiring { level, .. } ==> step.action->Fetch_level == level,
        stage matches AwsServe::LoggingIn { level, .. } ==> step.action->Fetch_level == level,
        served_profile(stage) == Some(step.action->Fetch_profile@),
        stage is Acquiring || stage is LoggingIn,
{
}

/// From the first step to the last, serving is about the profile that was asked
/// for.
pub proof fn serving_keeps_the_profile<
    E: Fn(&VaultPlaintext) -> Result<Vec<u8>, String>,
    W: Fn(&VaultFile) -> Result<(), VaultError>,
>(
    controller: Controller,
    profile: Seq<char>,
    outcome: Result<AwsRequestOutcome, String>,
    first: AwsServeStep,
    stage: AwsServe,
    before: Controller,
    event: AwsServeEvent,
    encode: E,
    write: W,
    after: Controller,
    step: AwsServeStep,
)
    requires
        serve_starts(controller, profile, outcome, first),
        serve_continues(stage, before, event, encode, write, after, step),
    ensures
        first.stage is Ended || served_profile(first.stage) == Some(profile),
        step.stage is Ended || served_profile(step.stage) == served_profile(stage),
{
}

/// A request that was denied, or that nobody answered, is refused and fetches
/// nothing.
pub proof fn denied_requests_are_refused<
    E: Fn(&VaultPlaintext) -> Result<Vec<u8>, String>,
    W: Fn(&VaultFile) -> Result<(), VaultError>,
>(
    id: String,
    profile: String,
    before: Controller,
    answer: Option<AwsRequestResolution>,
    encode: E,
    write: W,
    after: Controller,
    step: AwsServeStep,
)
    requires
        serve_continues(
            AwsServe::Waiting { id, profile },
            before,
            AwsServeEvent::Answered(answer),
            encode,
            write,
            after,
            step,
        ),
        !(answer matches Some(AwsRequestResolution::Approved(_))),
    ensures
        serve_refuses(step, denied_message()),
{
}

/// A request whose session has expired goes on after the login: credentials of
/// the level that was approved are fetched for the same profile with the
/// settings that are kept by then.
pub proof fn a_request_goes_on_after_a_login<
    E: Fn(&VaultPlaintext) -> Result<Vec<u8>, String>,
    W: Fn(&VaultFile) -> Result<(), VaultError>,
>(
    profile: String,
    level: AwsAccessLevel,
    before: Controller,
    settings: AwsSettings,
    error: String,
    encode: E,
    write: W,
    after: Controller,
    first: AwsServeStep,
    later_before: Controller,
    later_after: Controller,
    later: AwsServeStep,
)
    requires
        serve_continues(
            AwsServe::Fetching { profile, level },
            before,
            AwsServeEvent::Fetched { settings, result: Err(error) },
            encode,
            write,
            after,
            first,
        ),
        error@ == aws::AWS_SESSION_EXPIRED@,
        first.stage !is Ended,
        serve_continues(
            first.stage,
            later_before,
            AwsServeEvent::LoggedIn(Ok(())),
            encode,
            write,
            later_after,
            later,
        ),
        context_error(later_before) is None,
    ensures
        first.action is LogIn,
        after.aws_login is Starting,
        later.action matches AwsServeAction::Fetch { settings: kept, profile: wanted, level: asked }
            && wanted@ == profile@ && asked == level && aws::same_settings(kept, later_before.vault.data->Some_0.aws->Some_0),
{
}

/// Serving ends: every step leads to a later stage, so that at most one login
/// and at most two attempts to fetch are made.
pub proof fn serving_ends<
    E: Fn(&VaultPlaintext) -> Result<Vec<u8>, String>,
    W: Fn(&VaultFile) -> Result<(), VaultError>,
>(
    stage: AwsServe,
    before: Controller,
    event: AwsServeEvent,
    encode: E,
    write: W,
    after: Controller,
    step: AwsServeStep,
)
    requires
        serve_expects(stage, event),
        serve_continues(stage, before, event, encode, write, after, step),
    ensures
        stage_rank(step.stage) > stage_rank(stage),
{
}

/// How far serving has come.
pub open spec fn stage_rank(stage: AwsServe) -> int {
    match stage {
        AwsServe::Waiting { .. } => 0,
        AwsServe::Acquiring { .. } => 1,
        AwsServe::Fetching { .. } => 2,
        AwsServe::LoggingIn { .. } => 3,
        AwsServe::FetchingAgain { .. } => 4,
        AwsServe::Ended => 5,
    }
}

/// A request without the token is refused, whatever it asks.
pub proof fn requests_need_the_token(request: ClientRequest, token: Seq<char>)
    requires
        request.token@ != token,
    ensures
        wanted(request, token) == Err::<ServerRequest, Seq<char>>("Authentication failed"@),
{
}

} // verus!
