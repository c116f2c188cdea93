//! AWS settings, logins, discoveries and role credentials.

use secretd::aws::{
    is_session_expired_error, validate_aws_profile, AwsAccessLevel, AwsConfiguration,
    AwsDiscoveredAccount, AwsOidcRegistration, AwsSettings, AwsSsoToken, AwsTarget,
    AWS_SESSION_EXPIRED,
};
use secretd::aws_discovery::{
    finish_discovery, last_page, DiscoveryAction, DiscoveryEvent, DiscoveryFlow,
};
use secretd::aws_flow::{
    credentials_with_expiration, renewal, AccountInfo, AccountsPage, CredentialAction,
    CredentialEvent, CredentialFlow, DeviceReply, LoginAction, LoginEvent, LoginFlow,
    RegistrationReply, Renewal, RoleCredentialsReply, RoleFailure, RolesPage, TokenAnswer,
    TokenReply,
};

const NOW: u64 = 1_000_000;

fn settings() -> AwsSettings {
    AwsSettings {
        start_url: "https://example.awsapps.com/start".to_owned(),
        sso_region: "ca-central-1".to_owned(),
        targets: vec![AwsTarget {
            profile: "prod".to_owned(),
            account_id: "123456789012".to_owned(),
            read_only_role: "ReadOnly".to_owned(),
            admin_role: "Administrator".to_owned(),
            region: "ca-central-1".to_owned(),
        }],
        discovered_accounts: Vec::new(),
        discovery_complete: false,
        registration: None,
        token: None,
    }
}

fn registered(expires_at: u64) -> Option<AwsOidcRegistration> {
    Some(AwsOidcRegistration {
        client_id: "client".to_owned(),
        client_secret: "shh".to_owned(),
        client_secret_expires_at: expires_at,
    })
}

fn token(expires_at: u64, refresh: &str) -> Option<AwsSsoToken> {
    Some(AwsSsoToken {
        access_token: "access".to_owned(),
        access_token_expires_at: expires_at,
        refresh_token: refresh.to_owned(),
    })
}

fn account(id: &str, name: &str, roles: &[&str]) -> AwsDiscoveredAccount {
    AwsDiscoveredAccount {
        account_id: id.to_owned(),
        account_name: name.to_owned(),
        email_address: "mail@example.com".to_owned(),
        roles: roles.iter().map(|role| (*role).to_owned()).collect(),
    }
}

fn text(value: &str) -> Option<String> {
    Some(value.to_owned())
}

fn device_reply() -> DeviceReply {
    DeviceReply {
        device_code: text("device"),
        verification_uri: text("https://device.example"),
        verification_uri_complete: None,
        user_code: text("CODE"),
        expires_in: 600,
        interval: 2,
    }
}

fn token_reply() -> TokenReply {
    TokenReply { access_token: text("new"), expires_in: 3_600, refresh_token: None }
}

#[test]
fn validates_settings_and_selects_roles() {
    let settings = settings();
    settings.validate().unwrap();
    let target = settings.target("prod").unwrap();
    assert_eq!(target.role(AwsAccessLevel::ReadOnly), "ReadOnly");
    assert_eq!(target.role(AwsAccessLevel::Admin), "Administrator");
}

#[test]
fn rejects_duplicate_profiles_and_invalid_accounts() {
    let mut settings = settings();
    settings.targets.push(settings.targets[0].clone());
    assert!(settings.validate().is_err());
    settings.targets.pop();
    settings.targets[0].account_id = "123".to_owned();
    assert!(settings.validate().is_err());
}

#[test]
fn rejects_profile_aliases_the_credential_helper_cannot_use() {
    let mut settings = settings();
    settings.targets[0].profile = "prod.ca".to_owned();
    assert_eq!(settings.validate().unwrap_err(), "AWS profile is invalid");
}

#[test]
fn connection_can_be_saved_before_accounts_are_discovered() {
    let mut settings = settings();
    settings.targets.clear();
    settings.validate().unwrap();
    assert!(settings.target("prod").is_err());
}

#[test]
fn changing_the_sso_connection_clears_discovery_and_aliases() {
    let mut settings = settings();
    settings.discovered_accounts = vec![AwsDiscoveredAccount {
        account_id: "123456789012".to_owned(),
        account_name: "Production".to_owned(),
        email_address: "prod@example.com".to_owned(),
        roles: vec!["ReadOnly".to_owned(), "Administrator".to_owned()],
    }];
    settings
        .update_configuration(AwsConfiguration {
            start_url: "https://other.awsapps.com/start".to_owned(),
            sso_region: "us-east-1".to_owned(),
            targets: settings.targets.clone(),
        })
        .unwrap();
    assert!(settings.targets.is_empty());
    assert!(settings.discovered_accounts.is_empty());
}

#[test]
fn identifies_an_expired_session_for_interactive_reauthentication() {
    assert!(is_session_expired_error(AWS_SESSION_EXPIRED));
    assert!(!is_session_expired_error("Could not get admin credentials for 'prod'"));
}

#[test]
fn each_flaw_of_settings_is_named() {
    let complaint = |change: &dyn Fn(&mut AwsSettings)| {
        let mut settings = settings();
        change(&mut settings);
        settings.validate().unwrap_err()
    };
    assert_eq!(
        complaint(&|s| s.start_url = "http://example".to_owned()),
        "AWS access portal URL must be an HTTPS URL"
    );
    assert_eq!(complaint(&|s| s.sso_region = " x".to_owned()), "SSO region is invalid");
    assert_eq!(
        complaint(&|s| s.targets.push(s.targets[0].clone())),
        "AWS profile 'prod' is duplicated"
    );
    assert_eq!(
        complaint(&|s| s.targets[0].account_id = "12345678901x".to_owned()),
        "AWS profile 'prod' has an invalid account ID"
    );
    assert_eq!(
        complaint(&|s| s.targets[0].read_only_role = String::new()),
        "read-only role is invalid"
    );
    assert_eq!(
        complaint(&|s| s.targets[0].admin_role = "a\nb".to_owned()),
        "admin role is invalid"
    );
    assert_eq!(complaint(&|s| s.targets[0].region = " ".to_owned()), "AWS region is invalid");
    assert_eq!(
        complaint(&|s| s.discovered_accounts = vec![account("1", "x", &[])]),
        "AWS discovery contains an invalid account ID"
    );
    assert_eq!(
        complaint(&|s| s.discovered_accounts = vec![account("123456789012", "a\nb", &[])]),
        "AWS discovery contains invalid account metadata"
    );
    assert_eq!(
        complaint(&|s| s.discovered_accounts = vec![account("123456789012", "x", &[""])]),
        "AWS role is invalid"
    );
    assert_eq!(
        complaint(&|s| s.discovered_accounts = vec![account("210987654321", "x", &["A"])]),
        "AWS profile 'prod' refers to an account that is no longer assigned"
    );
    assert_eq!(
        complaint(&|s| s.discovered_accounts = vec![account("123456789012", "x", &["ReadOnly"])]),
        "AWS profile 'prod' refers to a role that is no longer assigned"
    );
    assert_eq!(
        settings().target("dev").unwrap_err(),
        "AWS profile 'dev' is not configured in secretd"
    );
    assert!(validate_aws_profile(&"a".repeat(128)).is_ok());
    assert!(validate_aws_profile(&"a".repeat(129)).is_err());
    assert!(validate_aws_profile("").is_err());
}

#[test]
fn summaries_tell_whether_the_session_works() {
    let mut settings = settings();
    assert!(!settings.logged_in_at(NOW));
    settings.token = token(NOW + 61, "");
    assert!(settings.logged_in_at(NOW));
    settings.token = token(NOW + 60, "");
    assert!(!settings.logged_in_at(NOW));
    let summary = settings.summary_at(NOW);
    assert_eq!(summary.access_token_expires_at, Some(NOW + 60));
    assert!(!summary.logged_in);
    assert_eq!(summary.configuration.targets.len(), 1);
}

#[test]
fn a_login_registers_announces_and_waits() {
    let (flow, action) = LoginFlow::start(settings(), NOW);
    assert!(matches!(action, LoginAction::Register));
    let reply = RegistrationReply {
        client_id: text("client"),
        client_secret: text("shh"),
        client_secret_expires_at: 2_000_000,
    };
    let (flow, action) = flow.proceed(LoginEvent::Registered(Ok(reply)), NOW);
    assert!(matches!(
        action,
        LoginAction::Authorize { client_id, client_secret, start_url }
            if client_id == "client" && client_secret == "shh"
                && start_url == "https://example.awsapps.com/start"
    ));
    let (flow, action) = flow.proceed(LoginEvent::Authorized(Ok(device_reply())), NOW);
    assert!(matches!(
        action,
        LoginAction::Announce(shown) if shown.user_code == "CODE" && shown.expires_at == NOW + 600
    ));
    let (flow, action) = flow.proceed(LoginEvent::Announced, NOW);
    assert!(matches!(action, LoginAction::Wait { seconds: 2 }));
    let (flow, action) = flow.proceed(LoginEvent::Waited, NOW + 2);
    assert!(matches!(
        action,
        LoginAction::CreateToken { device_code, .. } if device_code == "device"
    ));
    let (flow, action) = flow.proceed(LoginEvent::Answered(TokenAnswer::SlowDown), NOW + 3);
    assert!(matches!(action, LoginAction::Wait { seconds: 7 }));
    let (flow, _) = flow.proceed(LoginEvent::Waited, NOW + 10);
    let (flow, action) = flow.proceed(LoginEvent::Answered(TokenAnswer::Pending), NOW + 11);
    assert!(matches!(action, LoginAction::Wait { seconds: 7 }));
    let (flow, _) = flow.proceed(LoginEvent::Waited, NOW + 18);
    let (flow, action) =
        flow.proceed(LoginEvent::Answered(TokenAnswer::Granted(token_reply())), NOW + 20);
    assert!(matches!(action, LoginAction::Succeed));
    let token = flow.settings.token.unwrap();
    assert_eq!(token.access_token, "new");
    assert_eq!(token.access_token_expires_at, NOW + 20 + 3_600);
    assert_eq!(token.refresh_token, "");
}

#[test]
fn a_login_ends_with_its_deadline() {
    let mut known = settings();
    known.registration = registered(NOW + 1_000);
    let (flow, action) = LoginFlow::start(known, NOW);
    assert!(matches!(action, LoginAction::Authorize { .. }));
    let (flow, _) = flow.proceed(LoginEvent::Authorized(Ok(device_reply())), NOW);
    let (_, action) = flow.proceed(LoginEvent::Announced, NOW + 600);
    assert!(matches!(
        action,
        LoginAction::Fail(error) if error == "AWS SSO login expired before it was approved"
    ));
}

#[test]
fn logins_tell_what_went_wrong() {
    let fails = |action: LoginAction| match action {
        LoginAction::Fail(error) => error,
        _ => panic!("the login went on"),
    };
    let mut flawed = settings();
    flawed.sso_region = String::new();
    assert_eq!(fails(LoginFlow::start(flawed, NOW).1), "SSO region is invalid");
    let (flow, _) = LoginFlow::start(settings(), NOW);
    let (_, action) = flow.proceed(LoginEvent::Registered(Err("offline".to_owned())), NOW);
    assert_eq!(fails(action), "Could not register secretd with AWS SSO: offline");
    let (flow, _) = LoginFlow::start(settings(), NOW);
    let reply = RegistrationReply {
        client_id: None,
        client_secret: text("shh"),
        client_secret_expires_at: 1,
    };
    let (_, action) = flow.proceed(LoginEvent::Registered(Ok(reply)), NOW);
    assert_eq!(fails(action), "AWS SSO did not return OIDC client ID");
    let begin = || {
        let mut known = settings();
        known.registration = registered(NOW + 1_000);
        LoginFlow::start(known, NOW).0
    };
    let (_, action) = begin().proceed(LoginEvent::Authorized(Err("offline".to_owned())), NOW);
    assert_eq!(fails(action), "Could not start AWS SSO login: offline");
    let mut reply = device_reply();
    reply.device_code = None;
    let (_, action) = begin().proceed(LoginEvent::Authorized(Ok(reply)), NOW);
    assert_eq!(fails(action), "AWS SSO did not return a device code");
    let mut reply = device_reply();
    reply.verification_uri = None;
    let (_, action) = begin().proceed(LoginEvent::Authorized(Ok(reply)), NOW);
    assert_eq!(fails(action), "AWS SSO did not return a verification URL");
    let mut reply = device_reply();
    reply.user_code = None;
    let (_, action) = begin().proceed(LoginEvent::Authorized(Ok(reply)), NOW);
    assert_eq!(fails(action), "AWS SSO did not return a user code");
    let polling = || {
        let (flow, _) = begin().proceed(LoginEvent::Authorized(Ok(device_reply())), NOW);
        let (flow, _) = flow.proceed(LoginEvent::Announced, NOW);
        flow.proceed(LoginEvent::Waited, NOW).0
    };
    let (_, action) =
        polling().proceed(LoginEvent::Answered(TokenAnswer::Refused("no".to_owned())), NOW);
    assert_eq!(fails(action), "AWS SSO login failed: no");
    let mut reply = token_reply();
    reply.expires_in = 0;
    let (_, action) = polling().proceed(LoginEvent::Answered(TokenAnswer::Granted(reply)), NOW);
    assert_eq!(fails(action), "AWS SSO returned an invalid token expiration");
}

#[test]
fn sessions_are_renewed_where_they_can_be() {
    let mut known = settings();
    assert!(matches!(renewal(&known, NOW), Renewal::Expired));
    known.token = token(NOW + 100, "");
    assert!(matches!(renewal(&known, NOW), Renewal::Ready));
    known.token = token(NOW, "again");
    assert!(matches!(renewal(&known, NOW), Renewal::Expired));
    known.registration = registered(NOW + 100);
    assert!(matches!(
        renewal(&known, NOW),
        Renewal::Renew { refresh_token, .. } if refresh_token == "again"
    ));
}

#[test]
fn role_credentials_are_fetched_with_a_renewed_session() {
    let mut known = settings();
    known.registration = registered(NOW + 10_000);
    known.token = token(NOW, "again");
    let (flow, action) = CredentialFlow::start(known, "prod", AwsAccessLevel::Admin, NOW);
    assert!(matches!(action, CredentialAction::Renew { .. }));
    let (flow, action) = flow.proceed(CredentialEvent::Renewed(Some(token_reply())), NOW);
    assert!(matches!(
        action,
        CredentialAction::Fetch { account_id, role, access_token }
            if account_id == "123456789012" && role == "Administrator" && access_token == "new"
    ));
    let reply = RoleCredentialsReply {
        access_key_id: text("key"),
        secret_access_key: text("secret"),
        session_token: text("token"),
        expiration: 1_785_499_200_000,
    };
    let (flow, action) = flow.proceed(CredentialEvent::Fetched(Ok(Some(reply))), NOW);
    let CredentialAction::Succeed(output) = action else {
        panic!("credentials were given");
    };
    assert_eq!(output.version, 1);
    assert_eq!(output.access_key_id, "key");
    assert_eq!(output.secret_access_key, "secret");
    assert_eq!(output.session_token, "token");
    assert_eq!(output.expiration, "2026-07-31T12:00:00Z");
    assert_eq!(output.account_id, "123456789012");
    assert_eq!(flow.settings.token.unwrap().refresh_token, "again");
}

#[test]
fn role_credentials_tell_what_went_wrong() {
    let fails = |action: CredentialAction| match action {
        CredentialAction::Fail(error) => error,
        _ => panic!("the credentials were given"),
    };
    let ready = || {
        let mut known = settings();
        known.token = token(NOW + 10_000, "");
        known
    };
    let (_, action) = CredentialFlow::start(settings(), "prod", AwsAccessLevel::Admin, NOW);
    assert_eq!(fails(action), AWS_SESSION_EXPIRED);
    let (_, action) = CredentialFlow::start(ready(), "dev", AwsAccessLevel::Admin, NOW);
    assert_eq!(fails(action), "AWS profile 'dev' is not configured in secretd");
    let fetching = || CredentialFlow::start(ready(), "prod", AwsAccessLevel::ReadOnly, NOW).0;
    let (_, action) =
        fetching().proceed(CredentialEvent::Fetched(Err(RoleFailure::Unauthorized)), NOW);
    assert_eq!(fails(action), AWS_SESSION_EXPIRED);
    let failure = RoleFailure::Other("throttled".to_owned());
    let (_, action) = fetching().proceed(CredentialEvent::Fetched(Err(failure)), NOW);
    assert_eq!(fails(action), "Could not get read-only credentials for 'prod': throttled");
    let (_, action) = fetching().proceed(CredentialEvent::Fetched(Ok(None)), NOW);
    assert_eq!(fails(action), "AWS SSO did not return role credentials");
    let mut known = settings();
    known.registration = registered(NOW + 10_000);
    known.token = token(NOW, "again");
    let (flow, _) = CredentialFlow::start(known, "prod", AwsAccessLevel::Admin, NOW);
    let (_, action) = flow.proceed(CredentialEvent::Renewed(None), NOW);
    assert_eq!(fails(action), AWS_SESSION_EXPIRED);
}

#[test]
fn flawed_role_credentials_are_refused() {
    let reply = || RoleCredentialsReply {
        access_key_id: text("key"),
        secret_access_key: text("secret"),
        session_token: text("token"),
        expiration: 5,
    };
    let refused = |reply: RoleCredentialsReply, expiration: Option<String>| {
        credentials_with_expiration(reply, expiration, "1").unwrap_err()
    };
    let invalid = "AWS SSO returned an invalid credential expiration";
    assert_eq!(refused(reply(), None), invalid);
    let mut negative = reply();
    negative.expiration = -1;
    assert_eq!(refused(negative, text("then")), invalid);
    let mut keyless = reply();
    keyless.access_key_id = text("");
    assert_eq!(refused(keyless, text("then")), "AWS SSO did not return access key ID");
    let mut secretless = reply();
    secretless.secret_access_key = None;
    assert_eq!(refused(secretless, text("then")), "AWS SSO did not return secret access key");
    let mut tokenless = reply();
    tokenless.session_token = None;
    assert_eq!(refused(tokenless, text("then")), "AWS SSO did not return session token");
    let output = credentials_with_expiration(reply(), text("then"), "1").unwrap();
    assert_eq!(output.expiration, "then");
}

#[test]
fn a_discovery_reads_every_page() {
    let mut known = settings();
    known.token = token(NOW + 10_000, "");
    let (flow, action) = DiscoveryFlow::start(known, NOW);
    assert!(matches!(action, DiscoveryAction::ListAccounts { next_token: None, .. }));
    let info = |id: &str, name: &str| AccountInfo {
        account_id: text(id),
        account_name: text(name),
        email_address: None,
    };
    let page = AccountsPage { accounts: vec![info("123456789012", "prod")], next_token: text("2") };
    let (flow, action) = flow.proceed(DiscoveryEvent::AccountsListed(Ok(page)), NOW);
    assert!(matches!(
        action,
        DiscoveryAction::ListRoles { account_id, .. } if account_id == "123456789012"
    ));
    let page = RolesPage { roles: vec![text("ReadOnly"), None], next_token: text("more") };
    let (flow, action) = flow.proceed(DiscoveryEvent::RolesListed(Ok(page)), NOW);
    assert!(matches!(
        action,
        DiscoveryAction::ListRoles { next_token: Some(next), .. } if next == "more"
    ));
    let page = RolesPage {
        roles: vec![text("administrator"), text("Administrator"), text("ReadOnly")],
        next_token: text("more"),
    };
    let (flow, action) = flow.proceed(DiscoveryEvent::RolesListed(Ok(page)), NOW);
    assert!(matches!(
        action,
        DiscoveryAction::ListAccounts { next_token: Some(next), .. } if next == "2"
    ));
    let page = AccountsPage { accounts: vec![info("210987654321", "Dev")], next_token: None };
    let (flow, _) = flow.proceed(DiscoveryEvent::AccountsListed(Ok(page)), NOW);
    let page = RolesPage { roles: vec![text("Viewer")], next_token: text("") };
    let (flow, action) = flow.proceed(DiscoveryEvent::RolesListed(Ok(page)), NOW);
    assert!(matches!(action, DiscoveryAction::Succeed));
    let found = flow.settings.discovered_accounts;
    assert_eq!(found.len(), 2);
    assert_eq!(found[0].account_name, "Dev");
    assert_eq!(found[0].email_address, "");
    assert_eq!(found[1].roles, ["administrator", "Administrator", "ReadOnly"]);
    assert!(flow.settings.discovery_complete);
    assert_eq!(flow.settings.targets.len(), 1);
}

#[test]
fn a_discovery_tells_what_went_wrong() {
    let fails = |action: DiscoveryAction| match action {
        DiscoveryAction::Fail(error) => error,
        _ => panic!("the discovery went on"),
    };
    assert_eq!(fails(DiscoveryFlow::start(settings(), NOW).1), AWS_SESSION_EXPIRED);
    let begin = || {
        let mut known = settings();
        known.token = token(NOW + 10_000, "");
        DiscoveryFlow::start(known, NOW).0
    };
    let (_, action) =
        begin().proceed(DiscoveryEvent::AccountsListed(Err("offline".to_owned())), NOW);
    assert_eq!(fails(action), "Could not list AWS accounts: offline");
    let nameless = AccountInfo { account_id: None, account_name: None, email_address: None };
    let page = AccountsPage { accounts: vec![nameless], next_token: None };
    let (_, action) = begin().proceed(DiscoveryEvent::AccountsListed(Ok(page)), NOW);
    assert_eq!(fails(action), "AWS SSO did not return account ID");
    let known = AccountInfo { account_id: text("1"), account_name: None, email_address: None };
    let page = AccountsPage { accounts: vec![known], next_token: None };
    let (flow, _) = begin().proceed(DiscoveryEvent::AccountsListed(Ok(page)), NOW);
    let (_, action) = flow.proceed(DiscoveryEvent::RolesListed(Err("offline".to_owned())), NOW);
    assert_eq!(fails(action), "Could not list roles for AWS account 1: offline");
}

#[test]
fn a_discovery_drops_profiles_that_are_not_assigned() {
    let mut known = settings();
    finish_discovery(
        &mut known,
        vec![
            account("222222222222", "b", &["X"]),
            account("111111111111", "A", &["X"]),
            account("222222222222", "b again", &["Y"]),
        ],
    )
    .unwrap();
    assert!(known.targets.is_empty());
    let ids: Vec<&str> =
        known.discovered_accounts.iter().map(|account| account.account_id.as_str()).collect();
    assert_eq!(ids, ["111111111111", "222222222222"]);
    assert!(last_page(&None, &None));
    assert!(last_page(&text(""), &None));
    assert!(last_page(&text("a"), &text("a")));
    assert!(!last_page(&text("b"), &text("a")));
}
