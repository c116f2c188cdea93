//! What the two sides of the connection promise each other, stated over the
//! messages and the steps themselves.

use vstd::prelude::*;

use crate::aws::{AwsAccessLevel, AwsCredentialProcessOutput, AwsSettings};
use crate::controller::{AwsRequestOutcome, AwsRequestResolution, Controller, RequestOutcome};
use crate::crypto;
use crate::ipc::client;
use crate::ipc::protocol::{ClientRequest, ClientResponse, EndpointFile};
use crate::ipc::server;
use crate::ipc::server::{
    AwsServe, AwsServeAction, AwsServeEvent, AwsServeStep, SecretServe, ServerRequest,
};
use crate::vault::{VaultError, VaultFile, VaultPlaintext};

verus! {

/// A request is heard exactly where it carries the token, speaks the one
/// version, names a process and asks for one of three things: a secret by its
/// name, the credentials of a profile, or a login.
pub proof fn requests_are_heard(request: ClientRequest, token: Seq<char>)
    ensures
        server::wanted(request, token) is Ok <==> {
            &&& request.token@ == token
            &&& request.version == 1
            &&& request.pid != 0
            &&& {
                ||| request.action@ == "get"@ && request.secret is Some
                    && request.secret->Some_0@.len() > 0
                ||| request.action@ == "aws-credentials"@ && request.profile is Some
                    && request.profile->Some_0@.len() > 0
                ||| request.action@ == "aws-login"@
            }
        },
        server::wanted(request, token) matches Ok(ServerRequest::Get { secret, pid })
            ==> request.action@ == "get"@ && request.secret == Some(secret) && pid == request.pid,
        server::wanted(request, token) matches Ok(ServerRequest::AwsCredentials { profile, pid })
            ==> request.action@ == "aws-credentials"@ && request.profile == Some(profile) && pid
            == request.pid,
        server::wanted(request, token) matches Ok(ServerRequest::AwsLogin) ==> request.action@
            == "aws-login"@,
{
}

/// What a client that talks to a server of this machine asks for is heard as
/// what it meant.
pub proof fn clients_are_understood(
    request: ClientRequest,
    endpoint: EndpointFile,
    name: Seq<char>,
    pid: u32,
)
    requires
        client::is_usable(endpoint),
        pid != 0,
        name.len() > 0,
    ensures
        client::is_asked(request, endpoint, "get"@, Some(name), None, pid) ==> (server::wanted(
            request,
            endpoint.token@,
        ) matches Ok(ServerRequest::Get { secret, pid: asked }) && secret@ == name && asked == pid),
        client::is_asked(request, endpoint, "aws-credentials"@, None, Some(name), pid) ==> (
        server::wanted(request, endpoint.token@) matches Ok(
            ServerRequest::AwsCredentials { profile, pid: asked },
        ) && profile@ == name && asked == pid),
        client::is_asked(request, endpoint, "aws-login"@, None, None, pid) ==> (server::wanted(
            request,
            endpoint.token@,
        ) matches Ok(ServerRequest::AwsLogin)),
{
    reveal_strlit("get");
    reveal_strlit("aws-credentials");
    reveal_strlit("aws-login");
    assert("get"@.len() == 3);
    assert("aws-credentials"@.len() == 15);
    assert("aws-login"@.len() == 9);
}

/// A client asks with the token of the endpoint, for what was meant and nothing
/// else, and only an endpoint of this machine that has a token.
pub proof fn clients_ask_for_what_is_meant(
    request: ClientRequest,
    endpoint: EndpointFile,
    action: Seq<char>,
    secret: Option<Seq<char>>,
    profile: Option<Seq<char>>,
    pid: u32,
)
    ensures
        client::is_asked(request, endpoint, action, secret, profile, pid) ==> {
            &&& request.version == 1
            &&& request.token == endpoint.token
            &&& request.action@ == action
            &&& request.pid == pid
            &&& request.secret is Some <==> secret is Some
            &&& request.secret matches Some(name) ==> name@ == secret->Some_0
            &&& request.profile is Some <==> profile is Some
            &&& request.profile matches Some(name) ==> name@ == profile->Some_0
        },
        client::is_usable(endpoint) <==> endpoint.version == 1 && endpoint.host@ == "127.0.0.1"@
            && endpoint.token@.len() > 0,
{
}

/// What a client makes of an answer: its value where it is a success with one,
/// else its error.
pub proof fn answers_are_taken_at_their_word(response: ClientResponse)
    ensures
        match client::value_of(response) {
            Ok(value) => response.ok && response.value is Some && value
                == response.value->Some_0@,
            Err(error) => if response.ok {
                response.value is None
            } else {
                response.error matches Some(told) ==> error == told@
            },
        },
        response.ok && response.value is Some ==> client::value_of(response) is Ok,
{
}

/// An endpoint that is made is one that clients use, once its token is not
/// empty: on this machine, at its port, with the token in base64.
pub proof fn endpoints_can_be_used(
    port: u16,
    drawn: Result<Vec<u8>, String>,
    r: Result<EndpointFile, String>,
)
    requires
        server::endpoint_outcome(port, drawn, r),
    ensures
        drawn is Err ==> r is Err,
        drawn matches Ok(token) ==> {
            &&& r is Ok
            &&& r->Ok_0.version == 1
            &&& r->Ok_0.host@ == "127.0.0.1"@
            &&& r->Ok_0.port == port
            &&& r->Ok_0.token@ == crypto::base64_encoded(token@)
            &&& r->Ok_0.token@.len() > 0 ==> client::is_usable(r->Ok_0)
        },
        server::is_token(drawn) && drawn is Ok ==> drawn->Ok_0@.len() == 32,
{
}

/// A secret that is given out at once is the one that the controller gave; a
/// request that waits does so under its identifier, for what was asked.
pub proof fn secrets_are_passed_on(
    secret: Seq<char>,
    outcome: Result<RequestOutcome, VaultError>,
    r: Result<SecretServe, String>,
)
    requires
        server::secret_served(secret, outcome, r),
    ensures
        r matches Ok(SecretServe::Released(value)) ==> outcome == Ok::<RequestOutcome, VaultError>(
            RequestOutcome::Immediate(value),
        ),
        r matches Ok(SecretServe::Waiting(wait)) ==> wait.secret@ == secret && outcome == Ok::<
            RequestOutcome,
            VaultError,
        >(RequestOutcome::Pending { id: wait.id }),
        r matches Err(error) ==> outcome is Err && error == outcome->Err_0.0,
{
}

/// Whether a vault is open and AWS is configured in it.
pub open spec fn can_fetch(controller: Controller) -> bool {
    &&& controller.vault.key is Some
    &&& controller.vault.salt is Some
    &&& controller.vault.data is Some
    &&& controller.vault.data->Some_0.aws is Some
}

/// Serving starts with what the controller said: a refusal or a denial ends it
/// with an error, a level that was decided on goes on at that very level, and
/// everything else waits for the answer to that request.
pub proof fn serving_starts_as_decided(
    controller: Controller,
    profile: Seq<char>,
    outcome: Result<AwsRequestOutcome, String>,
    step: AwsServeStep,
)
    requires
        server::serve_starts(controller, profile, outcome, step),
    ensures
        outcome is Err || outcome->Ok_0 is Denied ==> step.stage is Ended && step.action is Respond
            && step.action->Respond_0 is Err,
        outcome matches Err(error) ==> step.action->Respond_0->Err_0@ == error@,
        outcome matches Ok(AwsRequestOutcome::Immediate(level)) ==> if can_fetch(controller) {
            &&& step.stage matches AwsServe::Acquiring { profile: asked, level: given }
            &&& asked@ == profile
            &&& given == level
            &&& step.action is Acquire
        } else {
            step.stage is Ended && step.action is Respond && step.action->Respond_0 is Err
        },
        outcome matches Ok(AwsRequestOutcome::Pending { id }) ==> {
            &&& step.stage matches AwsServe::Waiting { id: awaited, profile: asked }
            &&& awaited == id
            &&& asked@ == profile
            &&& step.action matches AwsServeAction::Await { id: told }
            &&& told == id
        },
{
}

/// A person's answer is followed: an approval goes on at the level that was
/// approved and no other, a denial or none at all ends with an error.
pub proof fn answers_are_followed<
    E: Fn(&VaultPlaintext) -> Result<Vec<u8>, String>,
    W: Fn(&VaultFile) -> Result<(), VaultError>,
>(
    id: String,
    profile: String,
    before: Controller,
    answer: Option<AwsRequestResolution>,
    encode: E,
    write: W,
    after: Controller,
    step: AwsServeStep,
)
    requires
        server::serve_continues(
            AwsServe::Waiting { id, profile },
            before,
            AwsServeEvent::Answered(answer),
            encode,
            write,
            after,
            step,
        ),
    ensures
        answer matches Some(AwsRequestResolution::Approved(level)) ==> if can_fetch(before) {
            &&& step.stage matches AwsServe::Acquiring { profile: asked, level: given }
            &&& asked@ == profile@
            &&& given == level
            &&& step.action is Acquire
        } else {
            step.stage is Ended && step.action is Respond && step.action->Respond_0 is Err
        },
        !(answer matches Some(AwsRequestResolution::Approved(_))) ==> step.stage is Ended
            && step.action is Respond && step.action->Respond_0 is Err,
        answer is Some ==> after == before,
{
}

/// Once it is its turn, a request fetches credentials of its level for its
/// profile, with the portal, the session and the profiles that are kept then.
pub proof fn credentials_are_fetched_as_approved<
    E: Fn(&VaultPlaintext) -> Result<Vec<u8>, String>,
    W: Fn(&VaultFile) -> Result<(), VaultError>,
>(
    profile: String,
    level: AwsAccessLevel,
    before: Controller,
    given: Result<(), String>,
    encode: E,
    write: W,
    after: Controller,
    step: AwsServeStep,
)
    requires
        server::serve_continues(
            AwsServe::Acquiring { profile, level },
            before,
            AwsServeEvent::Acquired(given),
            encode,
            write,
            after,
            step,
        ),
    ensures
        after == before,
        given is Err || !can_fetch(before) ==> step.stage is Ended && step.action is Respond
            && step.action->Respond_0 is Err,
        given is Ok && can_fetch(before) ==> {
            let kept = before.vault.data->Some_0.aws->Some_0;
            &&& step.stage matches AwsServe::Fetching { profile: asked, level: chosen }
            &&& asked == profile
            &&& chosen == level
            &&& step.action matches AwsServeAction::Fetch {
                settings,
                profile: wanted,
                level: fetched,
            }
            &&& wanted@ == profile@
            &&& fetched == level
            &&& settings.start_url == kept.start_url
            &&& settings.sso_region == kept.sso_region
            &&& settings.targets@ == kept.targets@
            &&& settings.token == kept.token
            &&& settings.registration == kept.registration
        },
{
}

/// What fetching gave is what the client is told: the credentials, or the error
/// where it is not that of an expired session. The session that fetching left is
/// kept before that; where it cannot be kept, the client is told so.
pub proof fn what_was_fetched_is_passed_on<
    E: Fn(&VaultPlaintext) -> Result<Vec<u8>, String>,
    W: Fn(&VaultFile) -> Result<(), VaultError>,
>(
    profile: String,
    level: AwsAccessLevel,
    again: bool,
    before: Controller,
    settings: AwsSettings,
    result: Result<AwsCredentialProcessOutput, String>,
    encode: E,
    write: W,
    after: Controller,
    step: AwsServeStep,
)
    requires
        server::serve_continues(
            if again {
                AwsServe::FetchingAgain { profile, level }
            } else {
                AwsServe::Fetching { profile, level }
            },
            before,
            AwsServeEvent::Fetched { settings, result },
            encode,
            write,
            after,
            step,
        ),
    ensures
        step.action matches AwsServeAction::Respond(Ok(output)) ==> {
            &&& result == Ok::<AwsCredentialProcessOutput, String>(output)
            &&& step.stage is Ended
            &&& after.vault.data is Some
            &&& after.vault.data->Some_0.aws is Some
            &&& after.vault.data->Some_0.aws->Some_0.token == settings.token
            &&& after.vault.data->Some_0.aws->Some_0.registration == settings.registration
        },
        again ==> step.stage is Ended && step.action is Respond,
        step.action is LogIn ==> !again && result is Err && result->Err_0@
            == "AWS SSO session has expired"@ && (step.stage matches AwsServe::LoggingIn {
            profile: asked,
            level: chosen,
        } && asked == profile && chosen == level) && after.aws_login is Starting,
        step.action is Respond || step.action is LogIn,
        after.grants == before.grants,
        after.pending_aws == before.pending_aws,
        after.aws_process_decisions == before.aws_process_decisions,
        after.aws_process_denials == before.aws_process_denials,
{
}

/// A session is known by the end of its access token: two are taken for the same
/// exactly where both end at one time or neither has a token.
pub proof fn sessions_are_told_apart_by_their_end(one: AwsSettings, other: AwsSettings)
    ensures
        server::expiry_of(one) == server::expiry_of(other) <==> (one.token is Some <==> other.token
            is Some) && (one.token is Some ==> one.token->Some_0.access_token_expires_at
            == other.token->Some_0.access_token_expires_at),
        one.token is Some ==> server::expiry_of(one) == Some(
            one.token->Some_0.access_token_expires_at,
        ),
{
}

/// A client whose request was denied, or not answered in time, is told so, and
/// gets no credentials.
pub proof fn denied_clients_are_told<
    E: Fn(&VaultPlaintext) -> Result<Vec<u8>, String>,
    W: Fn(&VaultFile) -> Result<(), VaultError>,
>(
    id: String,
    profile: String,
    before: Controller,
    answer: Option<AwsRequestResolution>,
    encode: E,
    write: W,
    after: Controller,
    step: AwsServeStep,
)
    requires
        server::serve_continues(
            AwsServe::Waiting { id, profile },
            before,
            AwsServeEvent::Answered(answer),
            encode,
            write,
            after,
            step,
        ),
        !(answer matches Some(AwsRequestResolution::Approved(_))),
    ensures
        step.stage is Ended,
        step.action matches AwsServeAction::Respond(Err(error)) && error@
            == "AWS credential request denied or timed out"@,
        step.notify,
{
}

/// A request that is answered at once with a denial is told so; an approval
/// leads on only while the vault is open and AWS is configured.
pub proof fn immediate_answers_are_told(
    controller: Controller,
    profile: Seq<char>,
    outcome: Result<AwsRequestOutcome, String>,
    step: AwsServeStep,
)
    requires
        server::serve_starts(controller, profile, outcome, step),
    ensures
        outcome matches Err(said) ==> step.stage is Ended && (step.action matches
            AwsServeAction::Respond(Err(error)) && error@ == said@),
        outcome matches Ok(AwsRequestOutcome::Denied) ==> step.stage is Ended && (step.action
            matches AwsServeAction::Respond(Err(error)) && error@
            == "AWS credential request denied or timed out"@),
        outcome matches Ok(AwsRequestOutcome::Immediate(_)) ==> {
            let open = controller.vault.data is Some && controller.vault.key is Some
                && controller.vault.salt is Some;
            let configured = controller.vault.data->Some_0.aws is Some;
            &&& open && configured ==> step.action is Acquire
            &&& open && !configured ==> step.stage is Ended && (step.action matches
                AwsServeAction::Respond(Err(error)) && error@
                == "AWS SSO is not configured in secretd"@)
            &&& !open ==> step.stage is Ended && (step.action matches AwsServeAction::Respond(
                Err(error),
            ) && error@ == "Vault is locked"@)
        },
        step.notify <==> (outcome matches Ok(AwsRequestOutcome::Pending { .. })),
{
}

} // verus!
