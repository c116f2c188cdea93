//! What signing in and fetching credentials are for, stated over the settings,
//! the answers of the provider and what is asked of it.

use vstd::prelude::*;

use crate::aws;
use crate::aws::{AwsAccessLevel, AwsSettings};
use crate::aws_flow;
use crate::aws_flow::{
    CredentialAction, CredentialEvent, CredentialFlow, CredentialStage, DeviceLogin, DeviceReply,
    LoginAction, LoginEvent, LoginFlow, LoginStage, RegistrationReply, RoleCredentialsReply,
    RoleFailure, TokenAnswer, TokenReply,
};
use crate::seqs;

verus! {

proof fn fetched_target(flow: CredentialFlow, now: u64, action: CredentialAction) -> (i: int)
    requires
        aws_flow::credential_fetches(flow, now, action),
        action is Fetch,
    ensures
        0 <= i < flow.settings.targets@.len(),
        flow.stage == (CredentialStage::Fetching { target: flow.settings.targets@[i] }),
        flow.settings.targets@[i].profile@ == flow.profile@,
        forall|j: int| 0 <= j < i ==> (#[trigger] flow.settings.targets@[j]).profile@
            != flow.profile@,
        action->Fetch_account_id@ == flow.settings.targets@[i].account_id@,
        flow.level == AwsAccessLevel::ReadOnly ==> action->Fetch_role@
            == flow.settings.targets@[i].read_only_role@,
        flow.level == AwsAccessLevel::Admin ==> action->Fetch_role@
            == flow.settings.targets@[i].admin_role@,
        flow.settings.token is Some,
        action->Fetch_access_token@ == flow.settings.token->Some_0.access_token@,
        flow.settings.token->Some_0.access_token_expires_at > now + 60,
{
    seqs::first_index_meaning(flow.settings.targets@, aws::is_named(flow.profile@));
    aws::target_index(flow.settings.targets@, flow.profile@)->Some_0
}

/// Whenever credentials are asked for at the start, they are for the account of
/// the target with the profile that was asked for, under its read-only role
/// where the level is read-only and under its admin role where it is admin,
/// with an access token that lasts for more than another minute.
pub proof fn credentials_are_of_the_approved_role(
    settings: AwsSettings,
    now: u64,
    flow: CredentialFlow,
    action: CredentialAction,
)
    requires
        aws_flow::credential_starts(settings, now, flow, action),
        action is Fetch,
    ensures
        exists|i: int|
            {
                &&& 0 <= i < settings.targets@.len()
                &&& (#[trigger] settings.targets@[i]).profile@ == flow.profile@
                &&& action->Fetch_account_id@ == settings.targets@[i].account_id@
                &&& flow.level == AwsAccessLevel::ReadOnly ==> action->Fetch_role@
                    == settings.targets@[i].read_only_role@
                &&& flow.level == AwsAccessLevel::Admin ==> action->Fetch_role@
                    == settings.targets@[i].admin_role@
                &&& flow.stage == (CredentialStage::Fetching { target: settings.targets@[i] })
                &&& forall|j: int|
                    0 <= j < i ==> (#[trigger] settings.targets@[j]).profile@ != flow.profile@
            },
        settings.token is Some,
        action->Fetch_access_token@ == settings.token->Some_0.access_token@,
        settings.token->Some_0.access_token_expires_at > now + 60,
{
    let i = fetched_target(flow, now, action);
    assert(settings.targets@[i].profile@ == flow.profile@);
}

/// The same holds once a session has been renewed: the role, the account and
/// the profile are those of the settings that were there before.
pub proof fn renewed_credentials_are_of_the_approved_role(
    before: CredentialFlow,
    event: CredentialEvent,
    now: u64,
    after: CredentialFlow,
    action: CredentialAction,
)
    requires
        aws_flow::credential_expects(before.stage, event),
        aws_flow::credential_continues(before, event, now, after, action),
        action is Fetch,
    ensures
        exists|i: int|
            {
                &&& 0 <= i < before.settings.targets@.len()
                &&& (#[trigger] before.settings.targets@[i]).profile@ == before.profile@
                &&& action->Fetch_account_id@ == before.settings.targets@[i].account_id@
                &&& before.level == AwsAccessLevel::ReadOnly ==> action->Fetch_role@
                    == before.settings.targets@[i].read_only_role@
                &&& before.level == AwsAccessLevel::Admin ==> action->Fetch_role@
                    == before.settings.targets@[i].admin_role@
                &&& after.stage == (CredentialStage::Fetching {
                    target: before.settings.targets@[i],
                })
            },
        event matches CredentialEvent::Renewed(Some(reply)) && reply.access_token is Some
            && action->Fetch_access_token@ == reply.access_token->Some_0@,
{
    let i = fetched_target(after, now, action);
    assert(before.settings.targets@[i].profile@ == before.profile@);
}

/// Credentials are asked for at once where the settings hold up, the profile is
/// configured and the access token lasts for more than another minute.
pub proof fn a_working_session_is_used(
    settings: AwsSettings,
    now: u64,
    flow: CredentialFlow,
    action: CredentialAction,
    i: int,
)
    requires
        aws_flow::credential_starts(settings, now, flow, action),
        aws::settings_error(settings) is None,
        settings.token is Some,
        settings.token->Some_0.access_token_expires_at > now + 60,
        0 <= i < settings.targets@.len(),
        settings.targets@[i].profile@ == flow.profile@,
    ensures
        action is Fetch,
{
    seqs::first_index_meaning(settings.targets@, aws::is_named(flow.profile@));
    assert(aws::is_named(flow.profile@)(settings.targets@[i]));
}

/// A session whose access token ends within a minute is renewed with its own
/// refresh token while the registration lasts for more than another minute; else
/// it has expired.
pub proof fn an_ending_session_is_renewed(
    settings: AwsSettings,
    now: u64,
    flow: CredentialFlow,
    action: CredentialAction,
)
    requires
        aws_flow::credential_starts(settings, now, flow, action),
        aws::settings_error(settings) is None,
        settings.token is None || settings.token->Some_0.access_token_expires_at <= now + 60,
    ensures
        ({
            let renewable = settings.token is Some
                && settings.token->Some_0.refresh_token@.len() > 0
                && settings.registration is Some
                && settings.registration->Some_0.client_secret_expires_at > now + 60;
            &&& renewable ==> action is Renew && action->Renew_refresh_token@
                == settings.token->Some_0.refresh_token@ && action->Renew_client_id@
                == settings.registration->Some_0.client_id@ && action->Renew_client_secret@
                == settings.registration->Some_0.client_secret@ && (flow.stage matches
                CredentialStage::Renewing { refresh_token } && refresh_token@
                == settings.token->Some_0.refresh_token@)
            &&& !renewable ==> action is Fail && action->Fail_0@
                == "AWS SSO session has expired"@
            &&& flow.settings == settings
        }),
{
}

/// A profile that is not configured is refused, not served by another one.
pub proof fn unknown_profiles_are_refused(
    settings: AwsSettings,
    now: u64,
    flow: CredentialFlow,
    action: CredentialAction,
)
    requires
        aws_flow::credential_starts(settings, now, flow, action),
        forall|i: int|
            0 <= i < settings.targets@.len() ==> (#[trigger] settings.targets@[i]).profile@
                != flow.profile@,
    ensures
        !(action is Fetch),
        !(action is Succeed),
{
    seqs::first_index_meaning(settings.targets@, aws::is_named(flow.profile@));
}

/// The credentials that are handed out are those that the provider gave, with
/// the number of the account that was asked for.
pub proof fn handed_out_credentials_are_the_providers(
    before: CredentialFlow,
    event: CredentialEvent,
    now: u64,
    after: CredentialFlow,
    action: CredentialAction,
)
    requires
        aws_flow::credential_expects(before.stage, event),
        aws_flow::credential_continues(before, event, now, after, action),
        action is Succeed,
    ensures
        before.stage is Fetching,
        event matches CredentialEvent::Fetched(Ok(Some(reply))) && {
            let output = action->Succeed_0;
            &&& reply.access_key_id is Some && reply.access_key_id->Some_0@.len() > 0
            &&& reply.secret_access_key is Some && reply.secret_access_key->Some_0@.len() > 0
            &&& reply.session_token is Some && reply.session_token->Some_0@.len() > 0
            &&& output.access_key_id@ == reply.access_key_id->Some_0@
            &&& output.secret_access_key@ == reply.secret_access_key->Some_0@
            &&& output.session_token@ == reply.session_token->Some_0@
            &&& reply.expiration >= 0
            &&& aws_flow::utc_seconds(reply.expiration) == Some(output.expiration@)
            &&& output.account_id@ == before.stage->target.account_id@
            &&& output.version == 1
        },
        after.settings == before.settings,
{
}

/// Complete credentials are handed out.
pub proof fn complete_credentials_are_handed_out(
    before: CredentialFlow,
    reply: RoleCredentialsReply,
    now: u64,
    after: CredentialFlow,
    action: CredentialAction,
)
    requires
        before.stage is Fetching,
        aws_flow::credential_continues(
            before,
            CredentialEvent::Fetched(Ok(Some(reply))),
            now,
            after,
            action,
        ),
        reply.access_key_id is Some && reply.access_key_id->Some_0@.len() > 0,
        reply.secret_access_key is Some && reply.secret_access_key->Some_0@.len() > 0,
        reply.session_token is Some && reply.session_token->Some_0@.len() > 0,
        reply.expiration >= 0,
        aws_flow::utc_seconds(reply.expiration) is Some,
    ensures
        action is Succeed,
{
}

/// A provider that does not accept the token ends the session; any other refusal
/// is told with the level, the profile and the provider's own words.
pub proof fn refused_credentials_are_told(
    before: CredentialFlow,
    failure: RoleFailure,
    now: u64,
    after: CredentialFlow,
    action: CredentialAction,
)
    requires
        before.stage is Fetching,
        aws_flow::credential_continues(
            before,
            CredentialEvent::Fetched(Err(failure)),
            now,
            after,
            action,
        ),
    ensures
        action is Fail,
        failure is Unauthorized ==> action->Fail_0@ == "AWS SSO session has expired"@,
        failure matches RoleFailure::Other(error) ==> action->Fail_0@ == "Could not get "@ + (
        if before.level == AwsAccessLevel::ReadOnly {
            "read-only"@
        } else {
            "admin"@
        }) + " credentials for '"@ + before.stage->target.profile@ + "': "@ + error@,
{
}

/// A token that was granted is kept as it was granted: its access token, its
/// refresh token, and the time at which it ends. Nothing else in the settings
/// changes.
pub proof fn a_granted_login_keeps_its_session(
    before: LoginFlow,
    reply: TokenReply,
    now: u64,
    after: LoginFlow,
    action: LoginAction,
)
    requires
        before.stage is Polling,
        aws_flow::login_continues(
            before,
            LoginEvent::Answered(TokenAnswer::Granted(reply)),
            now,
            after,
            action,
        ),
    ensures
        action is Succeed <==> reply.access_token is Some && reply.access_token->Some_0@.len() > 0
            && reply.expires_in > 0,
        action is Succeed ==> {
            &&& after.settings.token is Some
            &&& after.settings.token->Some_0.access_token@ == reply.access_token->Some_0@
            &&& now + reply.expires_in <= u64::MAX ==>
                after.settings.token->Some_0.access_token_expires_at == now + reply.expires_in
            &&& reply.refresh_token is Some ==> after.settings.token->Some_0.refresh_token@
                == reply.refresh_token->Some_0@
            &&& reply.refresh_token is None ==> after.settings.token->Some_0.refresh_token@.len()
                == 0
            &&& after.settings.registration == before.settings.registration
            &&& after.settings.start_url == before.settings.start_url
            &&& after.settings.sso_region == before.settings.sso_region
            &&& after.settings.targets == before.settings.targets
            &&& after.settings.discovered_accounts == before.settings.discovered_accounts
        },
        !(action is Succeed) ==> action is Fail && after.settings == before.settings,
{
}

/// After a login with a refresh token, the session is renewed with that refresh
/// token, and by no person, once its access token ends, while the registration
/// lasts.
pub proof fn a_login_can_be_renewed(
    before: LoginFlow,
    reply: TokenReply,
    now: u64,
    after: LoginFlow,
    done: LoginAction,
    later: u64,
    flow: CredentialFlow,
    action: CredentialAction,
)
    requires
        before.stage is Polling,
        aws_flow::login_continues(
            before,
            LoginEvent::Answered(TokenAnswer::Granted(reply)),
            now,
            after,
            done,
        ),
        done is Succeed,
        reply.refresh_token is Some && reply.refresh_token->Some_0@.len() > 0,
        before.settings.registration is Some,
        before.settings.registration->Some_0.client_secret_expires_at > later + 60,
        aws::settings_error(after.settings) is None,
        after.settings.token->Some_0.access_token_expires_at <= later + 60,
        aws_flow::credential_starts(after.settings, later, flow, action),
    ensures
        action is Renew,
        action->Renew_refresh_token@ == reply.refresh_token->Some_0@,
        action->Renew_client_id@ == before.settings.registration->Some_0.client_id@,
        action->Renew_client_secret@ == before.settings.registration->Some_0.client_secret@,
{
}

/// A renewal keeps the token that was granted; a new refresh token takes the
/// place of the one that was used, which is kept where there is no new one.
/// Nothing else in the settings changes.
pub proof fn a_renewal_keeps_the_session(
    before: AwsSettings,
    reply: Option<TokenReply>,
    previous: String,
    now: u64,
    after: AwsSettings,
    r: Result<(), String>,
)
    requires
        aws_flow::renewed(before, reply, previous, now, after, r),
    ensures
        r is Ok <==> reply is Some && reply->Some_0.access_token is Some
            && reply->Some_0.access_token->Some_0@.len() > 0 && reply->Some_0.expires_in > 0,
        r is Err ==> after == before,
        reply is None ==> r is Err && r->Err_0@ == "AWS SSO session has expired"@,
        r is Ok ==> {
            let given = reply->Some_0;
            &&& after.token is Some
            &&& after.token->Some_0.access_token@ == given.access_token->Some_0@
            &&& now + given.expires_in <= u64::MAX ==> after.token->Some_0.access_token_expires_at
                == now + given.expires_in
            &&& given.refresh_token is Some ==> after.token->Some_0.refresh_token@
                == given.refresh_token->Some_0@
            &&& given.refresh_token is None ==> after.token->Some_0.refresh_token@ == previous@
            &&& after.registration == before.registration
            &&& after.start_url == before.start_url
            &&& after.sso_region == before.sso_region
            &&& after.targets == before.targets
            &&& after.discovered_accounts == before.discovered_accounts
            &&& after.discovery_complete == before.discovery_complete
        },
{
}

/// A token made of a reply says what the reply says: its refresh token is the
/// one of the reply, or else the one that was there.
pub proof fn a_token_says_what_was_granted(
    token: aws::AwsSsoToken,
    reply: TokenReply,
    fallback: Option<String>,
    now: u64,
)
    requires
        aws_flow::token_error(reply) is None,
        aws_flow::is_token_of(token, reply, fallback, now),
    ensures
        token.access_token@ == reply.access_token->Some_0@,
        now + reply.expires_in <= u64::MAX ==> token.access_token_expires_at == now
            + reply.expires_in,
        now + reply.expires_in > u64::MAX ==> token.access_token_expires_at == u64::MAX,
        reply.refresh_token is Some ==> token.refresh_token@ == reply.refresh_token->Some_0@,
        reply.refresh_token is None && fallback is Some ==> token.refresh_token@
            == fallback->Some_0@,
        reply.refresh_token is None && fallback is None ==> token.refresh_token@.len() == 0,
{
}

/// Which granted tokens are taken: those with an access token and a time to
/// live.
pub proof fn tokens_without_access_are_refused(reply: TokenReply)
    ensures
        aws_flow::token_error(reply) is None <==> reply.access_token is Some
            && reply.access_token->Some_0@.len() > 0 && reply.expires_in > 0,
        reply.access_token is None ==> aws_flow::token_error(reply) == Some(
            "AWS SSO did not return "@ + "SSO access token"@,
        ),
{
}

/// A login uses the registration that is kept while it lasts for more than
/// another minute, with the address of the portal. Else it drops the session
/// and asks for a new registration.
pub proof fn logins_start_with_a_registration(
    settings: AwsSettings,
    now: u64,
    flow: LoginFlow,
    action: LoginAction,
)
    requires
        aws_flow::login_starts(settings, now, flow, action),
        aws::settings_error(settings) is None,
    ensures
        ({
            let lasting = settings.registration is Some
                && settings.registration->Some_0.client_secret_expires_at > now + 60;
            &&& lasting ==> {
                &&& action is Authorize
                &&& action->Authorize_client_id@ == settings.registration->Some_0.client_id@
                &&& action->Authorize_client_secret@
                    == settings.registration->Some_0.client_secret@
                &&& action->Authorize_start_url@ == settings.start_url@
                &&& flow.settings == settings
            }
            &&& !lasting ==> {
                &&& action is Register
                &&& flow.settings.token is None && flow.settings.registration is None
                &&& flow.settings.start_url == settings.start_url
                &&& flow.settings.sso_region == settings.sso_region
                &&& flow.settings.targets == settings.targets
                &&& flow.settings.discovered_accounts == settings.discovered_accounts
            }
        }),
{
}

/// The registration that the provider gives is kept and used.
pub proof fn registrations_are_kept_and_used(
    before: LoginFlow,
    reply: RegistrationReply,
    now: u64,
    after: LoginFlow,
    action: LoginAction,
)
    requires
        before.stage is Registering,
        aws_flow::login_continues(
            before,
            LoginEvent::Registered(Ok(reply)),
            now,
            after,
            action,
        ),
    ensures
        ({
            let complete = reply.client_id is Some && reply.client_id->Some_0@.len() > 0
                && reply.client_secret is Some && reply.client_secret->Some_0@.len() > 0
                && reply.client_secret_expires_at >= 0;
            &&& complete ==> {
                &&& action is Authorize
                &&& action->Authorize_client_id@ == reply.client_id->Some_0@
                &&& action->Authorize_client_secret@ == reply.client_secret->Some_0@
                &&& action->Authorize_start_url@ == before.settings.start_url@
                &&& after.settings.registration is Some
                &&& after.settings.registration->Some_0.client_id@ == reply.client_id->Some_0@
                &&& after.settings.registration->Some_0.client_secret@
                    == reply.client_secret->Some_0@
                &&& after.settings.registration->Some_0.client_secret_expires_at
                    == reply.client_secret_expires_at
                &&& after.settings.start_url == before.settings.start_url
                &&& after.settings.targets == before.settings.targets
            }
            &&& !complete ==> action is Fail && after.settings == before.settings
        }),
{
}

/// A person is shown the address and the code that the provider gave, and how
/// long they are good for.
pub proof fn a_person_is_shown_the_code(
    before: LoginFlow,
    reply: DeviceReply,
    now: u64,
    after: LoginFlow,
    action: LoginAction,
)
    requires
        before.stage is Authorizing,
        aws_flow::login_continues(before, LoginEvent::Authorized(Ok(reply)), now, after, action),
        reply.device_code is Some,
        reply.verification_uri is Some,
        reply.user_code is Some,
    ensures
        action is Announce,
        action->Announce_0.verification_uri@ == reply.verification_uri->Some_0@,
        action->Announce_0.verification_uri_complete == reply.verification_uri_complete,
        action->Announce_0.user_code@ == reply.user_code->Some_0@,
        reply.expires_in >= 1 && now + reply.expires_in <= u64::MAX ==>
            action->Announce_0.expires_at == now + reply.expires_in,
        after.stage matches LoginStage::Announcing(device) && {
            &&& device.device_code@ == reply.device_code->Some_0@
            &&& reply.interval >= 1 ==> device.interval == reply.interval
            &&& reply.interval < 1 ==> device.interval == 1
            &&& device.deadline == action->Announce_0.expires_at
        },
        after.settings == before.settings,
{
}

/// Between two attempts a login waits for the interval that the provider asked
/// for, five seconds longer after each request to slow down, and asks with the
/// code of the same device; once its time is over it fails.
pub proof fn logins_wait_as_they_are_told(
    before: LoginFlow,
    event: LoginEvent,
    now: u64,
    after: LoginFlow,
    action: LoginAction,
    device: DeviceLogin,
)
    requires
        aws_flow::login_continues(before, event, now, after, action),
        before.stage == LoginStage::Announcing(device) && event is Announced || before.stage
            == LoginStage::Polling(device) && event is Answered && (event->Answered_0 is Pending
            || event->Answered_0 is SlowDown),
    ensures
        now >= device.deadline ==> action is Fail && action->Fail_0@
            == "AWS SSO login expired before it was approved"@,
        now < device.deadline ==> {
            &&& action is Wait
            &&& after.stage matches LoginStage::Waiting(next) && {
                &&& next.device_code@ == device.device_code@
                &&& next.deadline == device.deadline
                &&& next.interval == action->Wait_seconds
            }
            &&& !(event is Answered && event->Answered_0 is SlowDown) ==> action->Wait_seconds
                == device.interval
            &&& event is Answered && event->Answered_0 is SlowDown && device.interval + 5
                <= u64::MAX ==> action->Wait_seconds == device.interval + 5
        },
        after.settings == before.settings,
{
}

/// A token is asked for with the registration and the code of the device.
pub proof fn tokens_are_asked_for_with_the_device_code(
    before: LoginFlow,
    now: u64,
    after: LoginFlow,
    action: LoginAction,
    device: DeviceLogin,
)
    requires
        before.stage == LoginStage::Waiting(device),
        before.settings.registration is Some,
        aws_flow::login_continues(before, LoginEvent::Waited, now, after, action),
    ensures
        action is CreateToken,
        action->CreateToken_client_id@ == before.settings.registration->Some_0.client_id@,
        action->CreateToken_client_secret@ == before.settings.registration->Some_0.client_secret@,
        action->CreateToken_device_code@ == device.device_code@,
        after.stage == LoginStage::Polling(device),
        after.settings == before.settings,
{
}

/// A login succeeds only where the provider granted a token.
pub proof fn logins_succeed_only_when_granted(
    before: LoginFlow,
    event: LoginEvent,
    now: u64,
    after: LoginFlow,
    action: LoginAction,
)
    requires
        aws_flow::login_expects(before.stage, event),
        aws_flow::login_continues(before, event, now, after, action),
        action is Succeed,
    ensures
        event is Answered && event->Answered_0 is Granted,
{
}

/// A login whose settings do not hold up fails with what is wrong with them; a
/// login that is refused on its way fails with the words of the provider. The
/// settings stay as they are.
pub proof fn failed_logins_say_why(
    before: LoginFlow,
    event: LoginEvent,
    now: u64,
    after: LoginFlow,
    action: LoginAction,
)
    requires
        aws_flow::login_expects(before.stage, event),
        aws_flow::login_continues(before, event, now, after, action),
    ensures
        event matches LoginEvent::Registered(Err(error)) ==> action is Fail && action->Fail_0@
            == "Could not register secretd with AWS SSO: "@ + error@,
        event matches LoginEvent::Authorized(Err(error)) ==> action is Fail && action->Fail_0@
            == "Could not start AWS SSO login: "@ + error@,
        event matches LoginEvent::Answered(TokenAnswer::Refused(error)) ==> action is Fail
            && action->Fail_0@ == "AWS SSO login failed: "@ + error@,
        action is Fail ==> after.settings == before.settings && after.stage is Ended,
        after.settings.discovery_complete == before.settings.discovery_complete,
        after.settings.discovered_accounts == before.settings.discovered_accounts,
        after.settings.targets == before.settings.targets,
        after.settings.start_url == before.settings.start_url,
        after.settings.sso_region == before.settings.sso_region,
{
}

/// Settings that do not hold up start no login and no fetching of credentials.
pub proof fn unsound_settings_are_refused(
    settings: AwsSettings,
    now: u64,
    login: LoginFlow,
    login_action: LoginAction,
    flow: CredentialFlow,
    action: CredentialAction,
)
    requires
        aws_flow::login_starts(settings, now, login, login_action),
        aws_flow::credential_starts(settings, now, flow, action),
    ensures
        login_action is Fail <==> aws::settings_error(settings) is Some,
        aws::settings_error(settings) matches Some(error) ==> {
            &&& login_action->Fail_0@ == error
            &&& action is Fail && action->Fail_0@ == error
            &&& login.settings == settings && login.stage is Ended && flow.stage is Ended
        },
        login.settings.discovery_complete == settings.discovery_complete,
        login.settings.discovered_accounts == settings.discovered_accounts,
        login.settings.targets == settings.targets,
{
}

/// Which part of a reply is missed first.
pub proof fn missing_parts_are_named(
    registering: LoginFlow,
    registration: RegistrationReply,
    registered: LoginFlow,
    first: LoginAction,
    authorizing: LoginFlow,
    device: DeviceReply,
    authorized: LoginFlow,
    second: LoginAction,
    now: u64,
)
    requires
        registering.stage is Registering,
        aws_flow::login_continues(
            registering,
            LoginEvent::Registered(Ok(registration)),
            now,
            registered,
            first,
        ),
        authorizing.stage is Authorizing,
        aws_flow::login_continues(
            authorizing,
            LoginEvent::Authorized(Ok(device)),
            now,
            authorized,
            second,
        ),
    ensures
        ({
            let named = registration.client_id is Some
                && registration.client_id->Some_0@.len() > 0;
            let secret = registration.client_secret is Some
                && registration.client_secret->Some_0@.len() > 0;
            &&& !named ==> first is Fail && first->Fail_0@ == "AWS SSO did not return "@
                + "OIDC client ID"@
            &&& named && !secret ==> first is Fail && first->Fail_0@ == "AWS SSO did not return "@
                + "OIDC client secret"@
            &&& named && secret && registration.client_secret_expires_at < 0 ==> first is Fail
                && first->Fail_0@ == "AWS SSO returned an invalid client expiration"@
        }),
        device.device_code is None ==> second is Fail && second->Fail_0@
            == "AWS SSO did not return a device code"@,
        device.device_code is Some && device.verification_uri is None ==> second is Fail
            && second->Fail_0@ == "AWS SSO did not return a verification URL"@,
        device.device_code is Some && device.verification_uri is Some && device.user_code is None
            ==> second is Fail && second->Fail_0@ == "AWS SSO did not return a user code"@,
{
}

/// A code is good for at least a second, and never beyond the end of time.
pub proof fn codes_are_good_for_a_while(
    before: LoginFlow,
    reply: DeviceReply,
    now: u64,
    after: LoginFlow,
    action: LoginAction,
)
    requires
        before.stage is Authorizing,
        aws_flow::login_continues(before, LoginEvent::Authorized(Ok(reply)), now, after, action),
        action is Announce,
    ensures
        ({
            let lasting = if reply.expires_in >= 1 {
                reply.expires_in as int
            } else {
                1
            };
            &&& now + lasting <= u64::MAX ==> action->Announce_0.expires_at == now + lasting
            &&& now + lasting > u64::MAX ==> action->Announce_0.expires_at == u64::MAX
        }),
        reply.device_code is Some && reply.verification_uri is Some && reply.user_code is Some,
{
}

/// Fetching credentials keeps the profile and the level that were asked for.
/// Credentials that lack a part are refused with its name.
pub proof fn incomplete_credentials_are_refused(
    before: CredentialFlow,
    event: CredentialEvent,
    now: u64,
    after: CredentialFlow,
    action: CredentialAction,
)
    requires
        aws_flow::credential_expects(before.stage, event),
        aws_flow::credential_continues(before, event, now, after, action),
    ensures
        after.profile == before.profile,
        after.level == before.level,
        action is Fail || action is Succeed ==> after.stage is Ended,
        event matches CredentialEvent::Fetched(Ok(None)) ==> action is Fail && action->Fail_0@
            == "AWS SSO did not return role credentials"@,
        event matches CredentialEvent::Fetched(Ok(Some(reply))) ==> {
            let dated = reply.expiration >= 0 && aws_flow::utc_seconds(reply.expiration) is Some;
            let key = reply.access_key_id is Some && reply.access_key_id->Some_0@.len() > 0;
            let secret = reply.secret_access_key is Some
                && reply.secret_access_key->Some_0@.len() > 0;
            let session = reply.session_token is Some && reply.session_token->Some_0@.len() > 0;
            &&& !dated ==> action is Fail && action->Fail_0@
                == "AWS SSO returned an invalid credential expiration"@
            &&& dated && !key ==> action is Fail && action->Fail_0@ == "AWS SSO did not return "@
                + "access key ID"@
            &&& dated && key && !secret ==> action is Fail && action->Fail_0@
                == "AWS SSO did not return "@ + "secret access key"@
            &&& dated && key && secret && !session ==> action is Fail && action->Fail_0@
                == "AWS SSO did not return "@ + "session token"@
        },
        event matches CredentialEvent::Renewed(None) ==> action is Fail && action->Fail_0@
            == "AWS SSO session has expired"@,
        before.stage is Fetching ==> after.settings == before.settings && !(action is Fetch)
            && !(action is Renew),
{
}

/// A renewed session is used at once where the profile is configured and the new
/// access token lasts for more than another minute.
pub proof fn a_renewed_session_is_used(
    before: CredentialFlow,
    reply: TokenReply,
    now: u64,
    after: CredentialFlow,
    action: CredentialAction,
    i: int,
)
    requires
        before.stage is Renewing,
        aws_flow::credential_continues(
            before,
            CredentialEvent::Renewed(Some(reply)),
            now,
            after,
            action,
        ),
        reply.access_token is Some && reply.access_token->Some_0@.len() > 0,
        reply.expires_in > 60,
        now + reply.expires_in <= u64::MAX,
        0 <= i < before.settings.targets@.len(),
        before.settings.targets@[i].profile@ == before.profile@,
    ensures
        action is Fetch,
        action->Fetch_access_token@ == reply.access_token->Some_0@,
        after.settings.token is Some,
        reply.refresh_token is Some ==> after.settings.token->Some_0.refresh_token@
            == reply.refresh_token->Some_0@,
        reply.refresh_token is None ==> after.settings.token->Some_0.refresh_token@
            == before.stage->refresh_token@,
{
    seqs::first_index_meaning(before.settings.targets@, aws::is_named(before.profile@));
    assert(aws::is_named(before.profile@)(before.settings.targets@[i]));
}

} // verus!
