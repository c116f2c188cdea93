//! The conversations with the AWS identity provider, step by step: what is asked
//! next, given what was answered. Each flow hands out an action and takes the
//! event that it led to; the network is somebody else's.

use vstd::prelude::*;

use crate::aws;
use crate::aws::{
    AwsAccessLevel, AwsCredentialProcessOutput, AwsDeviceAuthorization, AwsOidcRegistration,
    AwsSettings, AwsSsoToken, AwsTarget, AWS_SESSION_EXPIRED,
};
use crate::text;

verus! {

pub const DEVICE_CODE_GRANT: &'static str = "urn:ietf:params:oauth:grant-type:device_code";

pub const REFRESH_TOKEN_GRANT: &'static str = "refresh_token";

pub const SSO_SCOPE: &'static str = "sso:account:access";

/// What a slow-down answer adds to the time between two attempts.
pub const SLOW_DOWN_SECONDS: u64 = 5;

/// What the provider answers when the client is registered.
pub struct RegistrationReply {
    pub client_id: Option<String>,
    pub client_secret: Option<String>,
    pub client_secret_expires_at: i64,
}

/// What the provider answers when a device login is started.
pub struct DeviceReply {
    pub device_code: Option<String>,
    pub verification_uri: Option<String>,
    pub verification_uri_complete: Option<String>,
    pub user_code: Option<String>,
    pub expires_in: i32,
    pub interval: i32,
}

/// What the provider answers when it grants a token.
pub struct TokenReply {
    pub access_token: Option<String>,
    pub expires_in: i32,
    pub refresh_token: Option<String>,
}

/// How the provider answers a request for a token.
pub enum TokenAnswer {
    Granted(TokenReply),
    Pending,
    SlowDown,
    Refused(String),
}

/// What the provider answers when role credentials are asked for.
pub struct RoleCredentialsReply {
    pub access_key_id: Option<String>,
    pub secret_access_key: Option<String>,
    pub session_token: Option<String>,
    pub expiration: i64,
}

/// Why role credentials were not given.
pub enum RoleFailure {
    Unauthorized,
    Other(String),
}

/// An account as the provider lists it.
pub struct AccountInfo {
    pub account_id: Option<String>,
    pub account_name: Option<String>,
    pub email_address: Option<String>,
}

/// A page of accounts.
pub struct AccountsPage {
    pub accounts: Vec<AccountInfo>,
    pub next_token: Option<String>,
}

/// A page of roles.
pub struct RolesPage {
    pub roles: Vec<Option<String>>,
    pub next_token: Option<String>,
}

/// The sum, or the largest number where it does not fit.
pub open spec fn sum_or_max(a: u64, b: u64) -> u64 {
    if a + b <= u64::MAX {
        (a + b) as u64
    } else {
        u64::MAX
    }
}

fn saturating_sum(a: u64, b: u64) -> (r: u64)
    ensures
        r == sum_or_max(a, b),
{
    if a <= u64::MAX - b {
        a + b
    } else {
        u64::MAX
    }
}

/// A duration that is at least one second.
pub open spec fn at_least_one(seconds: i32) -> u64 {
    if seconds > 1 {
        seconds as u64
    } else {
        1
    }
}

fn positive_seconds(seconds: i32) -> (r: u64)
    ensures
        r == at_least_one(seconds),
{
    if seconds > 1 {
        seconds as u64
    } else {
        1
    }
}

/// Whether a value was given that is not empty.
pub open spec fn is_given(value: Option<String>) -> bool {
    match value {
        Some(value) => value@.len() > 0,
        None => false,
    }
}

/// The complaint about a value that is missing.
pub open spec fn missing(label: Seq<char>) -> Seq<char> {
    "AWS SSO did not return "@ + label
}

pub fn required(value: Option<String>, label: &str) -> (r: Result<String, String>)
    ensures
        if is_given(value) {
            r == Ok::<String, String>(value->Some_0)
        } else {
            r is Err && r->Err_0@ == missing(label@)
        },
{
    match value {
        Some(value) => if value.as_str().is_empty() {
            Err(text::concat("AWS SSO did not return ", label))
        } else {
            Ok(value)
        },
        None => Err(text::concat("AWS SSO did not return ", label)),
    }
}

/// The complaint about a registration.
pub open spec fn registration_error(reply: RegistrationReply) -> Option<Seq<char>> {
    if !is_given(reply.client_id) {
        Some(missing("OIDC client ID"@))
    } else if !is_given(reply.client_secret) {
        Some(missing("OIDC client secret"@))
    } else if reply.client_secret_expires_at < 0 {
        Some("AWS SSO returned an invalid client expiration"@)
    } else {
        None
    }
}

/// The registration that a reply gives.
pub open spec fn registration_of(reply: RegistrationReply) -> AwsOidcRegistration {
    AwsOidcRegistration {
        client_id: reply.client_id->Some_0,
        client_secret: reply.client_secret->Some_0,
        client_secret_expires_at: reply.client_secret_expires_at as u64,
    }
}

pub fn registration_from_reply(reply: RegistrationReply) -> (r: Result<
    AwsOidcRegistration,
    String,
>)
    ensures
        match registration_error(reply) {
            Some(error) => r is Err && r->Err_0@ == error,
            None => r == Ok::<AwsOidcRegistration, String>(registration_of(reply)),
        },
{
    let client_id = match required(reply.client_id, "OIDC client ID") {
        Ok(client_id) => client_id,
        Err(error) => {
            return Err(error);
        },
    };
    let client_secret = match required(reply.client_secret, "OIDC client secret") {
        Ok(client_secret) => client_secret,
        Err(error) => {
            return Err(error);
        },
    };
    if reply.client_secret_expires_at < 0 {
        return Err("AWS SSO returned an invalid client expiration".to_owned());
    }
    Ok(
        AwsOidcRegistration {
            client_id,
            client_secret,
            client_secret_expires_at: reply.client_secret_expires_at as u64,
        },
    )
}

/// The complaint about a granted token.
pub open spec fn token_error(reply: TokenReply) -> Option<Seq<char>> {
    if !is_given(reply.access_token) {
        Some(missing("SSO access token"@))
    } else if reply.expires_in <= 0 {
        Some("AWS SSO returned an invalid token expiration"@)
    } else {
        None
    }
}

/// Whether a token is what a reply gives at `now`; without a new refresh token
/// the one that was used is kept.
pub open spec fn is_token_of(
    token: AwsSsoToken,
    reply: TokenReply,
    fallback: Option<String>,
    now: u64,
) -> bool {
    &&& token.access_token == reply.access_token->Some_0
    &&& token.access_token_expires_at == sum_or_max(now, reply.expires_in as u64)
    &&& token.refresh_token@ == match (reply.refresh_token, fallback) {
        (Some(refresh_token), _) => refresh_token@,
        (None, Some(fallback)) => fallback@,
        (None, None) => Seq::<char>::empty(),
    }
}

pub fn token_from_reply(reply: TokenReply, fallback: Option<String>, now: u64) -> (r: Result<
    AwsSsoToken,
    String,
>)
    ensures
        match token_error(reply) {
            Some(error) => r is Err && r->Err_0@ == error,
            None => r is Ok && is_token_of(r->Ok_0, reply, fallback, now),
        },
{
    let access_token = match required(reply.access_token, "SSO access token") {
        Ok(access_token) => access_token,
        Err(error) => {
            return Err(error);
        },
    };
    if reply.expires_in <= 0 {
        return Err("AWS SSO returned an invalid token expiration".to_owned());
    }
    let refresh_token = match (reply.refresh_token, fallback) {
        (Some(refresh_token), _) => refresh_token,
        (None, Some(fallback)) => fallback,
        (None, None) => String::new(),
    };
    Ok(
        AwsSsoToken {
            access_token,
            access_token_expires_at: saturating_sum(now, reply.expires_in as u64),
            refresh_token,
        },
    )
}

/// A device login that waits for its approval.
pub struct DeviceLogin {
    pub device_code: String,
    pub interval: u64,
    pub deadline: u64,
}

/// The complaint about the start of a device login.
pub open spec fn device_error(reply: DeviceReply) -> Option<Seq<char>> {
    if reply.device_code is None {
        Some("AWS SSO did not return a device code"@)
    } else if reply.verification_uri is None {
        Some("AWS SSO did not return a verification URL"@)
    } else if reply.user_code is None {
        Some("AWS SSO did not return a user code"@)
    } else {
        None
    }
}

/// The device login that a reply at `now` starts.
pub open spec fn device_of(reply: DeviceReply, now: u64) -> DeviceLogin {
    DeviceLogin {
        device_code: reply.device_code->Some_0,
        interval: at_least_one(reply.interval),
        deadline: sum_or_max(now, at_least_one(reply.expires_in)),
    }
}

/// What a person is shown of it.
pub open spec fn authorization_of(reply: DeviceReply, now: u64) -> AwsDeviceAuthorization {
    AwsDeviceAuthorization {
        verification_uri: reply.verification_uri->Some_0,
        verification_uri_complete: reply.verification_uri_complete,
        user_code: reply.user_code->Some_0,
        expires_at: sum_or_max(now, at_least_one(reply.expires_in)),
    }
}

pub fn device_from_reply(reply: DeviceReply, now: u64) -> (r: Result<
    (DeviceLogin, AwsDeviceAuthorization),
    String,
>)
    ensures
        match device_error(reply) {
            Some(error) => r is Err && r->Err_0@ == error,
            None => r == Ok::<(DeviceLogin, AwsDeviceAuthorization), String>(
                (device_of(reply, now), authorization_of(reply, now)),
            ),
        },
{
    let device_code = match reply.device_code {
        Some(device_code) => device_code,
        None => {
            return Err("AWS SSO did not return a device code".to_owned());
        },
    };
    let verification_uri = match reply.verification_uri {
        Some(verification_uri) => verification_uri,
        None => {
            return Err("AWS SSO did not return a verification URL".to_owned());
        },
    };
    let user_code = match reply.user_code {
        Some(user_code) => user_code,
        None => {
            return Err("AWS SSO did not return a user code".to_owned());
        },
    };
    let deadline: u64 = saturating_sum(now, positive_seconds(reply.expires_in));
    Ok(
        (
            DeviceLogin { device_code, interval: positive_seconds(reply.interval), deadline },
            AwsDeviceAuthorization {
                verification_uri,
                verification_uri_complete: reply.verification_uri_complete,
                user_code,
                expires_at: deadline,
            },
        ),
    )
}

/// What a login does next.
pub enum LoginAction {
    Register,
    Authorize { client_id: String, client_secret: String, start_url: String },
    Announce(AwsDeviceAuthorization),
    Wait { seconds: u64 },
    CreateToken { client_id: String, client_secret: String, device_code: String },
    Succeed,
    Fail(String),
}

/// What a login is told.
pub enum LoginEvent {
    Registered(Result<RegistrationReply, String>),
    Authorized(Result<DeviceReply, String>),
    Announced,
    Waited,
    Answered(TokenAnswer),
}

/// What a login waits for.
pub enum LoginStage {
    Registering,
    Authorizing,
    Announcing(DeviceLogin),
    Waiting(DeviceLogin),
    Polling(DeviceLogin),
    Ended,
}

/// A login. Once it succeeds its settings hold the new session.
pub struct LoginFlow {
    pub settings: AwsSettings,
    pub stage: LoginStage,
}

/// Whether an event is one that a stage waits for.
pub open spec fn login_expects(stage: LoginStage, event: LoginEvent) -> bool {
    match (stage, event) {
        (LoginStage::Registering, LoginEvent::Registered(_)) => true,
        (LoginStage::Authorizing, LoginEvent::Authorized(_)) => true,
        (LoginStage::Announcing(_), LoginEvent::Announced) => true,
        (LoginStage::Waiting(_), LoginEvent::Waited) => true,
        (LoginStage::Polling(_), LoginEvent::Answered(_)) => true,
        _ => false,
    }
}

/// Whether a login ended with an error.
pub open spec fn login_failed(flow: LoginFlow, action: LoginAction, error: Seq<char>) -> bool {
    flow.stage is Ended && action is Fail && action->Fail_0@ == error
}

/// Whether the registration in the settings is used to start a device login.
pub open spec fn login_authorizes(flow: LoginFlow, action: LoginAction) -> bool {
    &&& flow.stage is Authorizing
    &&& flow.settings.registration matches Some(registration)
    &&& action == (LoginAction::Authorize {
        client_id: registration.client_id,
        client_secret: registration.client_secret,
        start_url: flow.settings.start_url,
    })
}

/// Whether a login tries again: it waits as long as it must, unless its time
/// is over.
pub open spec fn login_waits(
    flow: LoginFlow,
    device: DeviceLogin,
    now: u64,
    action: LoginAction,
) -> bool {
    if now >= device.deadline {
        login_failed(flow, action, "AWS SSO login expired before it was approved"@)
    } else {
        flow.stage == LoginStage::Waiting(device) && action == (LoginAction::Wait {
            seconds: device.interval,
        })
    }
}

/// The first step of a login with settings: a registration that can be used is
/// used, else the old session is dropped and a new registration is asked for.
pub open spec fn login_starts(
    settings: AwsSettings,
    now: u64,
    flow: LoginFlow,
    action: LoginAction,
) -> bool {
    match aws::settings_error(settings) {
        Some(error) => login_failed(flow, action, error) && flow.settings == settings,
        None => if aws::registration_usable(settings.registration, now) {
            flow.settings == settings && login_authorizes(flow, action)
        } else {
            &&& flow.stage is Registering
            &&& action is Register
            &&& flow.settings == (AwsSettings { registration: None, token: None, ..settings })
        },
    }
}

/// A step of a login.
pub open spec fn login_continues(
    before: LoginFlow,
    event: LoginEvent,
    now: u64,
    after: LoginFlow,
    action: LoginAction,
) -> bool {
    match (before.stage, event) {
        (LoginStage::Registering, LoginEvent::Registered(Err(error))) => {
            &&& login_failed(
                after,
                action,
                "Could not register secretd with AWS SSO: "@ + error@,
            )
            &&& after.settings == before.settings
        },
        (LoginStage::Registering, LoginEvent::Registered(Ok(reply))) => match registration_error(
            reply,
        ) {
            Some(error) => login_failed(after, action, error) && after.settings
                == before.settings,
            None => {
                &&& after.settings == (AwsSettings {
                    registration: Some(registration_of(reply)),
                    ..before.settings
                })
                &&& login_authorizes(after, action)
            },
        },
        (LoginStage::Authorizing, LoginEvent::Authorized(Err(error))) => {
            &&& login_failed(after, action, "Could not start AWS SSO login: "@ + error@)
            &&& after.settings == before.settings
        },
        (LoginStage::Authorizing, LoginEvent::Authorized(Ok(reply))) => {
            &&& after.settings == before.settings
            &&& match device_error(reply) {
                Some(error) => login_failed(after, action, error),
                None => after.stage == LoginStage::Announcing(device_of(reply, now)) && action
                    == LoginAction::Announce(authorization_of(reply, now)),
            }
        },
        (LoginStage::Announcing(device), LoginEvent::Announced) => {
            &&& after.settings == before.settings
            &&& login_waits(after, device, now, action)
        },
        (LoginStage::Waiting(device), LoginEvent::Waited) => {
            &&& after.settings == before.settings
            &&& after.stage == LoginStage::Polling(device)
            &&& before.settings.registration matches Some(registration)
            &&& action == (LoginAction::CreateToken {
                client_id: registration.client_id,
                client_secret: registration.client_secret,
                device_code: device.device_code,
            })
        },
        (LoginStage::Polling(device), LoginEvent::Answered(answer)) => match answer {
            TokenAnswer::Granted(reply) => match token_error(reply) {
                Some(error) => login_failed(after, action, error) && after.settings
                    == before.settings,
                None => {
                    &&& after.stage is Ended
                    &&& action is Succeed
                    &&& after.settings.token is Some
                    &&& is_token_of(after.settings.token->Some_0, reply, None, now)
                    &&& after.settings == (AwsSettings {
                        token: after.settings.token,
                        ..before.settings
                    })
                },
            },
            TokenAnswer::Pending => {
                &&& after.settings == before.settings
                &&& login_waits(after, device, now, action)
            },
            TokenAnswer::SlowDown => {
                &&& after.settings == before.settings
                &&& login_waits(
                    after,
                    (DeviceLogin {
                        interval: sum_or_max(device.interval, SLOW_DOWN_SECONDS),
                        ..device
                    }),
                    now,
                    action,
                )
            },
            TokenAnswer::Refused(error) => {
                &&& login_failed(after, action, "AWS SSO login failed: "@ + error@)
                &&& after.settings == before.settings
            },
        },
        _ => false,
    }
}

impl LoginFlow {
    /// Whether there is a registration where one is used.
    pub open spec fn wf(self) -> bool {
        match self.stage {
            LoginStage::Registering | LoginStage::Ended => true,
            _ => self.settings.registration is Some,
        }
    }

    pub fn start(settings: AwsSettings, now: u64) -> (r: (LoginFlow, LoginAction))
        ensures
            r.0.wf(),
            login_starts(settings, now, r.0, r.1),
    {
        match settings.validate() {
            Ok(()) => {},
            Err(error) => {
                return (
                    LoginFlow { settings, stage: LoginStage::Ended },
                    LoginAction::Fail(error),
                );
            },
        }
        if aws::registration_is_usable(&settings.registration, now) {
            return LoginFlow::authorize(settings);
        }
        let mut settings = settings;
        settings.registration = None;
        settings.token = None;
        (LoginFlow { settings, stage: LoginStage::Registering }, LoginAction::Register)
    }

    fn authorize(settings: AwsSettings) -> (r: (LoginFlow, LoginAction))
        requires
            settings.registration is Some,
        ensures
            r.0.wf(),
            r.0.settings == settings,
            login_authorizes(r.0, r.1),
    {
        let action = match &settings.registration {
            Some(registration) => LoginAction::Authorize {
                client_id: registration.client_id.clone(),
                client_secret: registration.client_secret.clone(),
                start_url: settings.start_url.clone(),
            },
            None => LoginAction::Register,
        };
        (LoginFlow { settings, stage: LoginStage::Authorizing }, action)
    }

    fn fail(settings: AwsSettings, error: String) -> (r: (LoginFlow, LoginAction))
        ensures
            r.0.wf(),
            r.0.settings == settings,
            login_failed(r.0, r.1, error@),
    {
        (LoginFlow { settings, stage: LoginStage::Ended }, LoginAction::Fail(error))
    }

    fn wait(settings: AwsSettings, device: DeviceLogin, now: u64) -> (r: (LoginFlow, LoginAction))
        requires
            settings.registration is Some,
        ensures
            r.0.wf(),
            r.0.settings == settings,
            login_waits(r.0, device, now, r.1),
    {
        if now >= device.deadline {
            return LoginFlow::fail(
                settings,
                "AWS SSO login expired before it was approved".to_owned(),
            );
        }
        let seconds: u64 = device.interval;
        (
            LoginFlow { settings, stage: LoginStage::Waiting(device) },
            LoginAction::Wait { seconds },
        )
    }

    /// Goes on with what was answered.
    pub fn proceed(self, event: LoginEvent, now: u64) -> (r: (LoginFlow, LoginAction))
        requires
            self.wf(),
            login_expects(self.stage, event),
        ensures
            r.0.wf(),
            login_continues(self, event, now, r.0, r.1),
    {
        let mut settings = self.settings;
        match (self.stage, event) {
            (LoginStage::Registering, LoginEvent::Registered(reply)) => match reply {
                Err(error) => LoginFlow::fail(
                    settings,
                    text::concat("Could not register secretd with AWS SSO: ", error.as_str()),
                ),
                Ok(reply) => match registration_from_reply(reply) {
                    Err(error) => LoginFlow::fail(settings, error),
                    Ok(registration) => {
                        settings.registration = Some(registration);
                        LoginFlow::authorize(settings)
                    },
                },
            },
            (LoginStage::Authorizing, LoginEvent::Authorized(reply)) => match reply {
                Err(error) => LoginFlow::fail(
                    settings,
                    text::concat("Could not start AWS SSO login: ", error.as_str()),
                ),
                Ok(reply) => match device_from_reply(reply, now) {
                    Err(error) => LoginFlow::fail(settings, error),
                    Ok((device, authorization)) => (
                        LoginFlow { settings, stage: LoginStage::Announcing(device) },
                        LoginAction::Announce(authorization),
                    ),
                },
            },
            (LoginStage::Announcing(device), LoginEvent::Announced) => LoginFlow::wait(
                settings,
                device,
                now,
            ),
            (LoginStage::Waiting(device), LoginEvent::Waited) => {
                let action = match &settings.registration {
                    Some(registration) => LoginAction::CreateToken {
                        client_id: registration.client_id.clone(),
                        client_secret: registration.client_secret.clone(),
                        device_code: device.device_code.clone(),
                    },
                    None => LoginAction::Register,
                };
                (LoginFlow { settings, stage: LoginStage::Polling(device) }, action)
            },
            (LoginStage::Polling(device), LoginEvent::Answered(answer)) => match answer {
                TokenAnswer::Granted(reply) => match token_from_reply(reply, None, now) {
                    Err(error) => LoginFlow::fail(settings, error),
                    Ok(token) => {
                        settings.token = Some(token);
                        (
                            LoginFlow { settings, stage: LoginStage::Ended },
                            LoginAction::Succeed,
                        )
                    },
                },
                TokenAnswer::Pending => LoginFlow::wait(settings, device, now),
                TokenAnswer::SlowDown => {
                    let slower = DeviceLogin {
                        device_code: device.device_code,
                        interval: saturating_sum(device.interval, SLOW_DOWN_SECONDS),
                        deadline: device.deadline,
                    };
                    LoginFlow::wait(settings, slower, now)
                },
                TokenAnswer::Refused(error) => LoginFlow::fail(
                    settings,
                    text::concat("AWS SSO login failed: ", error.as_str()),
                ),
            },
            _ => (LoginFlow { settings, stage: LoginStage::Ended }, LoginAction::Succeed),
        }
    }
}

/// A login never asks for a token once its time is over.
pub proof fn logins_end_with_their_deadline(
    before: LoginFlow,
    event: LoginEvent,
    now: u64,
    after: LoginFlow,
    action: LoginAction,
)
    requires
        login_expects(before.stage, event),
        login_continues(before, event, now, after, action),
        action is Wait,
    ensures
        after.stage matches LoginStage::Waiting(device) && now < device.deadline,
{
}

/// Whether a session has to be renewed before it is used, and with what.
pub enum Renewal {
    Ready,
    Renew { client_id: String, client_secret: String, refresh_token: String },
    Expired,
}

/// Whether the access token works at `now`.
pub open spec fn token_usable(token: Option<AwsSsoToken>, now: u64) -> bool {
    match token {
        Some(token) => !aws::expired(token, now),
        None => false,
    }
}

/// What has to be done before the session is used at `now`.
pub open spec fn renewal_of(settings: AwsSettings, now: u64) -> Renewal {
    if token_usable(settings.token, now) {
        Renewal::Ready
    } else if !aws::registration_usable(settings.registration, now) {
        Renewal::Expired
    } else {
        match settings.token {
            Some(token) => if token.refresh_token@.len() > 0 {
                Renewal::Renew {
                    client_id: settings.registration->Some_0.client_id,
                    client_secret: settings.registration->Some_0.client_secret,
                    refresh_token: token.refresh_token,
                }
            } else {
                Renewal::Expired
            },
            None => Renewal::Expired,
        }
    }
}

pub fn renewal(settings: &AwsSettings, now: u64) -> (r: Renewal)
    ensures
        r == renewal_of(*settings, now),
{
    match &settings.token {
        Some(token) => {
            if !aws::token_expired(token, now) {
                return Renewal::Ready;
            }
            if !aws::registration_is_usable(&settings.registration, now) {
                return Renewal::Expired;
            }
            match &settings.registration {
                Some(registration) => if token.refresh_token.as_str().is_empty() {
                    Renewal::Expired
                } else {
                    Renewal::Renew {
                        client_id: registration.client_id.clone(),
                        client_secret: registration.client_secret.clone(),
                        refresh_token: token.refresh_token.clone(),
                    }
                },
                None => Renewal::Expired,
            }
        },
        None => Renewal::Expired,
    }
}

/// The outcome of a renewal: whatever kept it from being granted counts as an
/// expired session.
pub open spec fn renewed(
    before: AwsSettings,
    reply: Option<TokenReply>,
    previous: String,
    now: u64,
    after: AwsSettings,
    r: Result<(), String>,
) -> bool {
    match reply {
        None => after == before && r is Err && r->Err_0@ == AWS_SESSION_EXPIRED@,
        Some(reply) => match token_error(reply) {
            Some(error) => after == before && r is Err && r->Err_0@ == error,
            None => {
                &&& r is Ok
                &&& after.token is Some
                &&& is_token_of(after.token->Some_0, reply, Some(previous), now)
                &&& after == (AwsSettings { token: after.token, ..before })
            },
        },
    }
}

pub fn finish_renewal(
    settings: &mut AwsSettings,
    reply: Option<TokenReply>,
    previous: String,
    now: u64,
) -> (r: Result<(), String>)
    ensures
        renewed(*old(settings), reply, previous, now, *final(settings), r),
{
    match reply {
        None => Err(AWS_SESSION_EXPIRED.to_owned()),
        Some(reply) => match token_from_reply(reply, Some(previous), now) {
            Err(error) => Err(error),
            Ok(token) => {
                settings.token = Some(token);
                Ok(())
            },
        },
    }
}

/// The text that chrono gives for a time in milliseconds since the epoch: UTC,
/// whole seconds, ending in `Z`; nothing for a time out of range.
pub uninterp spec fn utc_seconds(millis: i64) -> Option<Seq<char>>;

/// `chrono::DateTime::from_timestamp_millis` with `to_rfc3339_opts`: the time
/// as text in UTC with whole seconds, or nothing for a time out of range; both
/// depend on the argument alone.
#[verifier::external_body]
fn utc_seconds_text(millis: i64) -> (r: Option<String>)
    ensures
        match r {
            Some(shown) => utc_seconds(millis) == Some(shown@),
            None => utc_seconds(millis) is None,
        },
{
    chrono::DateTime::from_timestamp_millis(millis).map(
        |time| time.to_rfc3339_opts(chrono::SecondsFormat::Secs, true),
    )
}

/// The complaint about role credentials, given how their expiry is written.
pub open spec fn role_error(
    reply: RoleCredentialsReply,
    expiration: Option<Seq<char>>,
) -> Option<Seq<char>> {
    if reply.expiration < 0 || expiration is None {
        Some("AWS SSO returned an invalid credential expiration"@)
    } else if !is_given(reply.access_key_id) {
        Some(missing("access key ID"@))
    } else if !is_given(reply.secret_access_key) {
        Some(missing("secret access key"@))
    } else if !is_given(reply.session_token) {
        Some(missing("session token"@))
    } else {
        None
    }
}

/// Whether an output carries role credentials.
pub open spec fn is_output_of(
    output: AwsCredentialProcessOutput,
    reply: RoleCredentialsReply,
    expiration: Seq<char>,
    account_id: Seq<char>,
) -> bool {
    &&& output.version == 1
    &&& output.access_key_id == reply.access_key_id->Some_0
    &&& output.secret_access_key == reply.secret_access_key->Some_0
    &&& output.session_token == reply.session_token->Some_0
    &&& output.expiration@ == expiration
    &&& output.account_id@ == account_id
}

/// The output for role credentials whose expiry is written as `expiration`.
pub fn credentials_with_expiration(
    reply: RoleCredentialsReply,
    expiration: Option<String>,
    account_id: &str,
) -> (r: Result<AwsCredentialProcessOutput, String>)
    ensures
        ({
            let shown = match expiration {
                Some(expiration) => Some(expiration@),
                None => None,
            };
            match role_error(reply, shown) {
                Some(error) => r is Err && r->Err_0@ == error,
                None => r is Ok && is_output_of(r->Ok_0, reply, shown->Some_0, account_id@),
            }
        }),
{
    let expiration = match expiration {
        Some(expiration) => expiration,
        None => {
            return Err("AWS SSO returned an invalid credential expiration".to_owned());
        },
    };
    if reply.expiration < 0 {
        return Err("AWS SSO returned an invalid credential expiration".to_owned());
    }
    let access_key_id = match required(reply.access_key_id, "access key ID") {
        Ok(access_key_id) => access_key_id,
        Err(error) => {
            return Err(error);
        },
    };
    let secret_access_key = match required(reply.secret_access_key, "secret access key") {
        Ok(secret_access_key) => secret_access_key,
        Err(error) => {
            return Err(error);
        },
    };
    let session_token = match required(reply.session_token, "session token") {
        Ok(session_token) => session_token,
        Err(error) => {
            return Err(error);
        },
    };
    Ok(
        AwsCredentialProcessOutput {
            version: 1,
            access_key_id,
            secret_access_key,
            session_token,
            expiration,
            account_id: account_id.to_owned(),
        },
    )
}

/// Why role credentials were not given, as it is told.
pub open spec fn role_failure_message(
    failure: RoleFailure,
    level: AwsAccessLevel,
    profile: Seq<char>,
) -> Seq<char> {
    match failure {
        RoleFailure::Unauthorized => AWS_SESSION_EXPIRED@,
        RoleFailure::Other(error) => "Could not get "@ + aws::level_label(level)
            + " credentials for '"@ + profile + "': "@ + error@,
    }
}

fn role_failure_text(failure: RoleFailure, level: AwsAccessLevel, profile: &str) -> (r: String)
    ensures
        r@ == role_failure_message(failure, level, profile@),
{
    match failure {
        RoleFailure::Unauthorized => AWS_SESSION_EXPIRED.to_owned(),
        RoleFailure::Other(error) => {
            let mut r = "Could not get ".to_owned();
            r.append(level.label());
            r.append(" credentials for '");
            r.append(profile);
            r.append("': ");
            r.append(error.as_str());
            r
        },
    }
}

/// What fetching credentials does next.
pub enum CredentialAction {
    Renew { client_id: String, client_secret: String, refresh_token: String },
    Fetch { account_id: String, role: String, access_token: String },
    Succeed(AwsCredentialProcessOutput),
    Fail(String),
}

/// What fetching credentials is told.
pub enum CredentialEvent {
    Renewed(Option<TokenReply>),
    Fetched(Result<Option<RoleCredentialsReply>, RoleFailure>),
}

/// What fetching credentials waits for.
pub enum CredentialStage {
    Renewing { refresh_token: String },
    Fetching { target: AwsTarget },
    Ended,
}

/// Fetching the credentials of one role. Its settings hold a renewed session
/// also where the fetching failed.
pub struct CredentialFlow {
    pub settings: AwsSettings,
    pub profile: String,
    pub level: AwsAccessLevel,
    pub stage: CredentialStage,
}

/// Whether an event is one that a stage waits for.
pub open spec fn credential_expects(stage: CredentialStage, event: CredentialEvent) -> bool {
    match (stage, event) {
        (CredentialStage::Renewing { .. }, CredentialEvent::Renewed(_)) => true,
        (CredentialStage::Fetching { .. }, CredentialEvent::Fetched(_)) => true,
        _ => false,
    }
}

/// Whether fetching ended with an error.
pub open spec fn credential_failed(
    flow: CredentialFlow,
    action: CredentialAction,
    error: Seq<char>,
) -> bool {
    flow.stage is Ended && action is Fail && action->Fail_0@ == error
}

/// The role that a level stands for.
pub open spec fn role_of(target: AwsTarget, level: AwsAccessLevel) -> Seq<char> {
    match level {
        AwsAccessLevel::ReadOnly => target.read_only_role@,
        AwsAccessLevel::Admin => target.admin_role@,
    }
}

/// Whether the role of the profile is asked for with a token that works.
pub open spec fn credential_fetches(
    flow: CredentialFlow,
    now: u64,
    action: CredentialAction,
) -> bool {
    match aws::target_index(flow.settings.targets@, flow.profile@) {
        None => credential_failed(flow, action, aws::unknown_profile(flow.profile@)),
        Some(i) => {
            let target = flow.settings.targets@[i];
            if !token_usable(flow.settings.token, now) {
                credential_failed(flow, action, AWS_SESSION_EXPIRED@)
            } else {
                &&& flow.stage == (CredentialStage::Fetching { target })
                &&& action matches CredentialAction::Fetch { account_id, role, access_token }
                &&& account_id == target.account_id
                &&& role@ == role_of(target, flow.level)
                &&& access_token == flow.settings.token->Some_0.access_token
            }
        },
    }
}

/// The first step: settings that do not hold up are refused, a session that has
/// expired is renewed where it can be.
pub open spec fn credential_starts(
    settings: AwsSettings,
    now: u64,
    flow: CredentialFlow,
    action: CredentialAction,
) -> bool {
    &&& flow.settings == settings
    &&& match aws::settings_error(settings) {
        Some(error) => credential_failed(flow, action, error),
        None => match renewal_of(settings, now) {
            Renewal::Ready => credential_fetches(flow, now, action),
            Renewal::Expired => credential_failed(flow, action, AWS_SESSION_EXPIRED@),
            Renewal::Renew { client_id, client_secret, refresh_token } => {
                &&& flow.stage == (CredentialStage::Renewing { refresh_token })
                &&& action == (CredentialAction::Renew {
                    client_id,
                    client_secret,
                    refresh_token,
                })
            },
        },
    }
}

/// A step of fetching credentials.
pub open spec fn credential_continues(
    before: CredentialFlow,
    event: CredentialEvent,
    now: u64,
    after: CredentialFlow,
    action: CredentialAction,
) -> bool {
    &&& after.profile == before.profile
    &&& after.level == before.level
    &&& match (before.stage, event) {
        (CredentialStage::Renewing { refresh_token }, CredentialEvent::Renewed(reply)) => exists|
            done: Result<(), String>,
        |
            {
                &&& #[trigger] renewed(
                    before.settings,
                    reply,
                    refresh_token,
                    now,
                    after.settings,
                    done,
                )
                &&& match done {
                    Err(error) => credential_failed(after, action, error@),
                    Ok(_) => credential_fetches(after, now, action),
                }
            },
        (CredentialStage::Fetching { target }, CredentialEvent::Fetched(reply)) => {
            &&& after.settings == before.settings
            &&& match reply {
                Err(failure) => credential_failed(
                    after,
                    action,
                    role_failure_message(failure, before.level, target.profile@),
                ),
                Ok(None) => credential_failed(
                    after,
                    action,
                    "AWS SSO did not return role credentials"@,
                ),
                Ok(Some(reply)) => match role_error(reply, utc_seconds(reply.expiration)) {
                    Some(error) => credential_failed(after, action, error),
                    None => {
                        &&& after.stage is Ended
                        &&& action matches CredentialAction::Succeed(output)
                        &&& is_output_of(
                            output,
                            reply,
                            utc_seconds(reply.expiration)->Some_0,
                            target.account_id@,
                        )
                    },
                },
            }
        },
        _ => false,
    }
}

impl CredentialFlow {
    pub fn start(settings: AwsSettings, profile: &str, level: AwsAccessLevel, now: u64) -> (r: (
        CredentialFlow,
        CredentialAction,
    ))
        ensures
            r.0.profile@ == profile@,
            r.0.level == level,
            credential_starts(settings, now, r.0, r.1),
    {
        let mut flow = CredentialFlow {
            settings,
            profile: profile.to_owned(),
            level,
            stage: CredentialStage::Ended,
        };
        match flow.settings.validate() {
            Ok(()) => {},
            Err(error) => {
                return (flow, CredentialAction::Fail(error));
            },
        }
        match renewal(&flow.settings, now) {
            Renewal::Ready => flow.fetch(now),
            Renewal::Expired => (flow, CredentialAction::Fail(AWS_SESSION_EXPIRED.to_owned())),
            Renewal::Renew { client_id, client_secret, refresh_token } => {
                flow.stage = CredentialStage::Renewing { refresh_token: refresh_token.clone() };
                (flow, CredentialAction::Renew { client_id, client_secret, refresh_token })
            },
        }
    }

    fn fetch(self, now: u64) -> (r: (CredentialFlow, CredentialAction))
        ensures
            r.0.settings == self.settings,
            r.0.profile == self.profile,
            r.0.level == self.level,
            credential_fetches(r.0, now, r.1),
    {
        let mut flow = self;
        let target = match flow.settings.target(flow.profile.as_str()) {
            Ok(target) => target.clone(),
            Err(error) => {
                flow.stage = CredentialStage::Ended;
                return (flow, CredentialAction::Fail(error));
            },
        };
        let access_token = match &flow.settings.token {
            Some(token) => if aws::token_expired(token, now) {
                None
            } else {
                Some(token.access_token.clone())
            },
            None => None,
        };
        match access_token {
            None => {
                flow.stage = CredentialStage::Ended;
                (flow, CredentialAction::Fail(AWS_SESSION_EXPIRED.to_owned()))
            },
            Some(access_token) => {
                let account_id = target.account_id.clone();
                let role = target.role(flow.level).to_owned();
                flow.stage = CredentialStage::Fetching { target };
                (flow, CredentialAction::Fetch { account_id, role, access_token })
            },
        }
    }

    /// Goes on with what was answered.
    pub fn proceed(self, event: CredentialEvent, now: u64) -> (r: (
        CredentialFlow,
        CredentialAction,
    ))
        requires
            credential_expects(self.stage, event),
        ensures
            credential_continues(self, event, now, r.0, r.1),
    {
        let mut flow = CredentialFlow {
            settings: self.settings,
            profile: self.profile,
            level: self.level,
            stage: CredentialStage::Ended,
        };
        match (self.stage, event) {
            (CredentialStage::Renewing { refresh_token }, CredentialEvent::Renewed(reply)) => {
                let done = finish_renewal(&mut flow.settings, reply, refresh_token, now);
                let ghost outcome = done;
                assert(renewed(
                    self.settings,
                    reply,
                    refresh_token,
                    now,
                    flow.settings,
                    outcome,
                ));
                match done {
                    Err(error) => (flow, CredentialAction::Fail(error)),
                    Ok(_) => flow.fetch(now),
                }
            },
            (CredentialStage::Fetching { target }, CredentialEvent::Fetched(reply)) => match reply {
                Err(failure) => {
                    let error = role_failure_text(failure, flow.level, target.profile.as_str());
                    (flow, CredentialAction::Fail(error))
                },
                Ok(None) => (
                    flow,
                    CredentialAction::Fail("AWS SSO did not return role credentials".to_owned()),
                ),
                Ok(Some(reply)) => {
                    let expiration = utc_seconds_text(reply.expiration);
                    match credentials_with_expiration(
                        reply,
                        expiration,
                        target.account_id.as_str(),
                    ) {
                        Ok(output) => (flow, CredentialAction::Succeed(output)),
                        Err(error) => (flow, CredentialAction::Fail(error)),
                    }
                },
            },
            _ => (flow, CredentialAction::Fail(String::new())),
        }
    }
}

} // verus!
