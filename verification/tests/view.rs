//! What the windows show and what their controls do.

use secretd::aws::{
    AwsAccessLevel, AwsConfiguration, AwsDeviceAuthorization, AwsDiscoveredAccount,
    AwsLoginStatus, AwsSettingsSummary, AwsTarget,
};
use secretd::controller::{AppSnapshot, ApprovalDecision, AuditAction, Controller};
use secretd::process::ProcessIdentity;
use secretd::vault::{VaultError, VaultFile, VaultPlaintext};
use secretd::view::forms::{alias_targets, can_assign_aliases, Modal};
use secretd::view::labels::{
    audit_label, compact_process_label, default_grant_process, duration_since_at,
    duration_until_at, duration_until_seconds_at, process_details, suggested_alias,
    suggested_role,
};
use secretd::view::main_view::{GrantChange, MainView, Page};
use secretd::view::pages::{
    change_label, input_label, page_at, AwsAction, Content, FormInput, LoginNote, Moments, Screen,
};
use secretd::view::requests::{
    deny_oldest_request, oldest_request, Oldest, RequestButton, RequestView,
};

fn process(pid: u32, executable: &str) -> ProcessIdentity {
    ProcessIdentity {
        pid,
        ppid: pid.saturating_sub(1),
        started_at: format!("started-{pid}"),
        executable: executable.to_owned(),
        command: executable.to_owned(),
    }
}

fn inspect(_: u32) -> Result<Option<ProcessIdentity>, String> {
    Ok(None)
}

fn encode(_: &VaultPlaintext) -> Result<Vec<u8>, String> {
    Ok(b"{}".to_vec())
}

fn discard(_: &VaultFile) -> Result<(), VaultError> {
    Ok(())
}

fn nothing(_: &Vec<u8>) -> Option<VaultPlaintext> {
    None
}

fn no_file() -> Result<VaultFile, VaultError> {
    Err(VaultError("Vault does not exist".to_owned()))
}

fn open_controller() -> Controller {
    let mut controller = Controller::new("vault.json".to_owned());
    controller.create_vault("correct horse", Ok(false), &encode, &discard).unwrap();
    controller
}

fn snapshot(controller: &mut Controller) -> AppSnapshot {
    controller.snapshot(Ok(true))
}

fn account(id: &str, name: &str, roles: &[&str]) -> AwsDiscoveredAccount {
    AwsDiscoveredAccount {
        account_id: id.to_owned(),
        account_name: name.to_owned(),
        email_address: "mail@example.com".to_owned(),
        roles: roles.iter().map(|role| (*role).to_owned()).collect(),
    }
}

fn target(profile: &str, account_id: &str) -> AwsTarget {
    AwsTarget {
        profile: profile.to_owned(),
        account_id: account_id.to_owned(),
        read_only_role: "ReadOnly".to_owned(),
        admin_role: "Admin".to_owned(),
        region: "ca-central-1".to_owned(),
    }
}

fn summary(targets: Vec<AwsTarget>, accounts: Vec<AwsDiscoveredAccount>) -> AwsSettingsSummary {
    AwsSettingsSummary {
        configuration: AwsConfiguration {
            start_url: "https://example.awsapps.com/start".to_owned(),
            sso_region: "ca-central-1".to_owned(),
            targets,
        },
        discovered_accounts: accounts,
        discovery_complete: true,
        logged_in: true,
        access_token_expires_at: None,
    }
}

#[test]
fn account_names_become_safe_profile_aliases() {
    assert_eq!(suggested_alias("Pre Prod", "123456789012"), "pre-prod");
    assert_eq!(suggested_alias("!!!", "123456789012"), "account-9012");
}

#[test]
fn discovered_roles_are_suggested_by_access_level() {
    let roles = vec!["ViewOnlyAccess".to_owned(), "AdministratorAccess".to_owned()];
    assert_eq!(suggested_role(&roles, AwsAccessLevel::ReadOnly), "ViewOnlyAccess");
    assert_eq!(suggested_role(&roles, AwsAccessLevel::Admin), "AdministratorAccess");
}

#[test]
fn grant_boundary_defaults_to_the_requester_not_its_ancestor() {
    let requester = process(30, "/usr/local/bin/aws");
    let shell = process(20, "/bin/zsh");
    let launchd = process(1, "/sbin/launchd");
    let tree = vec![requester.clone(), shell, launchd];

    assert_eq!(default_grant_process(&tree), Some(requester));
}

#[test]
fn process_labels_show_the_program_and_compact_arguments() {
    let mut python = process(
        30,
        "/opt/homebrew/Cellar/python@3.14/3.14.6/Frameworks/Python.framework/Versions/3.14/Resources/Python.app/Contents/MacOS/Python",
    );
    python.command = format!("{} /opt/homebrew/bin/aws s3 ls", python.executable);

    assert_eq!(compact_process_label(&python), "Python aws s3 …");
}

#[test]
fn labels_stay_short() {
    let mut tool = process(30, "/bin/tool");
    tool.command = "tool a".to_owned();
    assert_eq!(compact_process_label(&tool), "tool a");
    tool.command = format!("tool {}", "x".repeat(38));
    assert_eq!(compact_process_label(&tool), "tool …");
    tool.command = format!("tool {}", "x".repeat(37));
    assert_eq!(compact_process_label(&tool), format!("tool {}", "x".repeat(37)));
    tool.command = "  ".to_owned();
    assert_eq!(compact_process_label(&tool), "tool");
    assert_eq!(process_details(&tool), "/bin/tool");
    tool.command = "tool --flag".to_owned();
    assert_eq!(process_details(&tool), "/bin/tool\ntool --flag");
    assert_eq!(
        default_grant_process(&vec![process(1, "/sbin/launchd")]),
        Some(process(1, "/sbin/launchd"))
    );
    assert_eq!(default_grant_process(&Vec::new()), None);
    assert_eq!(suggested_role(&vec!["Developer".to_owned()], AwsAccessLevel::Admin), "");
}

#[test]
fn durations_are_rounded_up() {
    assert_eq!(duration_until_at(1_001, 0), "2s");
    assert_eq!(duration_until_at(59_000, 0), "59s");
    assert_eq!(duration_until_at(60_000, 0), "1m");
    assert_eq!(duration_until_at(60_001, 0), "2m");
    assert_eq!(duration_until_at(0, 5), "0s");
    assert_eq!(duration_until_seconds_at(61, 0), "2m");
    assert_eq!(duration_until_seconds_at(7, 0), "7s");
    assert_eq!(duration_since_at(0, 9_000), "just now");
    assert_eq!(duration_since_at(0, 9_001), "10s ago");
    assert_eq!(duration_since_at(0, 59_001), "1m ago");
    assert_eq!(duration_since_at(0, 179_000), "2m ago");
    assert_eq!(audit_label(AuditAction::AutoGranted), "Automatically released");
    assert_eq!(audit_label(AuditAction::Unblocked), "Requests unblocked");
}

#[test]
fn accounts_are_proposed_with_profiles_of_their_own() {
    let summary = summary(
        vec![target("old", "111111111111")],
        vec![
            account("111111111111", "First", &["ReadOnly", "Admin"]),
            account("222222222222", "Dev", &["ViewOnly", "admin-role"]),
            account("333333333333", "dev", &[]),
            account("444444444444", "***", &[]),
        ],
    );
    assert!(can_assign_aliases(&summary));
    let mut controller = open_controller();
    let mut shown = snapshot(&mut controller);
    shown.aws = Some(summary);
    let mut view = MainView::new();
    view.open_aws_aliases(&shown);
    let profiles: Vec<&str> = view.aws_aliases.iter().map(|form| form.profile.as_str()).collect();
    assert_eq!(profiles, ["old", "dev", "dev-3333", "account-4444"]);
    assert_eq!(view.aws_aliases[0].read_only_role, "ReadOnly");
    assert_eq!(view.aws_aliases[0].region, "ca-central-1");
    assert_eq!(view.aws_aliases[1].read_only_role, "ViewOnly");
    assert_eq!(view.aws_aliases[1].admin_role, "admin-role");
    assert!(matches!(view.modal, Some(Modal::AwsAliases)));
    assert_eq!(
        alias_targets(&view.aws_aliases).unwrap_err(),
        "Select a read-only role for 'dev-3333'"
    );
    view.aws_aliases[2].profile = " ".to_owned();
    view.aws_aliases[3].profile = String::new();
    view.aws_aliases[1].admin_role = "other".to_owned();
    assert_eq!(
        alias_targets(&view.aws_aliases).unwrap_err(),
        "Select an admin role for 'dev'"
    );
    view.aws_aliases[1].admin_role = "admin-role".to_owned();
    view.aws_aliases[1].profile = " dev ".to_owned();
    let targets = alias_targets(&view.aws_aliases).unwrap();
    assert_eq!(targets.len(), 2);
    assert_eq!(targets[0], target_of("old", "111111111111", "ReadOnly", "Admin", "ca-central-1"));
    assert_eq!(targets[1], target_of("dev", "222222222222", "ViewOnly", "admin-role", ""));
    assert_eq!(
        alias_targets(&Vec::new()).unwrap_err(),
        "Assign an alias to at least one AWS account"
    );
}

fn target_of(profile: &str, id: &str, read: &str, admin: &str, region: &str) -> AwsTarget {
    AwsTarget {
        profile: profile.to_owned(),
        account_id: id.to_owned(),
        read_only_role: read.to_owned(),
        admin_role: admin.to_owned(),
        region: region.to_owned(),
    }
}

#[test]
fn the_window_makes_opens_and_wipes_the_vault() {
    let mut controller = Controller::new("vault.json".to_owned());
    let mut view = MainView::new();
    view.inputs.auth_password = "correct horse".to_owned();
    view.inputs.auth_confirmation = "another horse".to_owned();
    assert!(view
        .submit_auth_form(&mut controller, Ok(false), no_file(), &encode, &discard, &nothing)
        .is_none());
    assert_eq!(view.auth_error.as_deref(), Some("Passwords do not match"));
    view.inputs.auth_confirmation = "correct horse".to_owned();
    view.submit_auth_form(&mut controller, Ok(false), no_file(), &encode, &discard, &nothing)
        .unwrap()
        .unwrap();
    assert_eq!(view.auth_error, None);
    assert_eq!(view.inputs.auth_password, "");
    assert_eq!(view.inputs.auth_confirmation, "");

    view.open_secret(None, &controller, 0);
    view.inputs.secret_name = "token".to_owned();
    view.inputs.secret_value = "secret".to_owned();
    view.save_secret(&mut controller, 100, &encode, &discard).unwrap().unwrap();
    assert!(view.modal.is_none());
    let toast = view.toast.as_ref().unwrap();
    assert_eq!((toast.message.as_str(), toast.danger, toast.expires_at), ("Saved securely", false, 2_900));
    view.expire_toast(2_899);
    assert!(view.toast.is_some());
    view.expire_toast(2_900);
    assert!(view.toast.is_none());

    view.reveal_secret("token".to_owned(), &controller, 0);
    assert_eq!(view.revealed, Some(("token".to_owned(), "secret".to_owned())));
    view.reveal_secret("token".to_owned(), &controller, 0);
    assert_eq!(view.revealed, None);
    view.reveal_secret("gone".to_owned(), &controller, 0);
    assert_eq!(view.toast.as_ref().unwrap().message, "Secret not found");

    view.open_secret(Some("token".to_owned()), &controller, 0);
    assert_eq!(view.inputs.secret_value, "secret");
    view.close_modal();
    assert_eq!(view.inputs.secret_value, "");

    view.reveal_secret("token".to_owned(), &controller, 0);
    view.inputs.new_password = "typed".to_owned();
    view.lock_vault(&mut controller);
    assert_eq!(view.revealed, None);
    assert_eq!(view.inputs.new_password, "");
    view.inputs.auth_password = "correct horse".to_owned();
    let refused = view
        .submit_auth_form(&mut controller, Ok(true), no_file(), &encode, &discard, &nothing)
        .unwrap();
    assert!(refused.is_err());
    assert_eq!(view.auth_error.as_deref(), Some("Vault does not exist"));
    assert_eq!(view.inputs.auth_password, "correct horse");
}

#[test]
fn the_window_changes_passwords_and_deletes_secrets() {
    let mut controller = open_controller();
    let mut view = MainView::new();
    assert!(view.save_secret(&mut controller, 0, &encode, &discard).is_none());
    view.open_password();
    view.inputs.new_password = "different horse".to_owned();
    assert!(view.save_password(&mut controller, 0, &encode, &discard).is_none());
    assert_eq!(view.form_error.as_deref(), Some("Passwords do not match"));
    view.inputs.password_confirmation = "different horse".to_owned();
    view.save_password(&mut controller, 0, &encode, &discard).unwrap().unwrap();
    assert_eq!(view.toast.as_ref().unwrap().message, "Password changed");
    controller.save_secret("token", "secret", None, &encode, &discard).unwrap();
    view.ask_to_delete("token".to_owned());
    assert!(matches!(&view.modal, Some(Modal::Delete(name)) if name == "token"));
    view.delete_secret("token", &mut controller, 0, &encode, &discard).unwrap();
    assert_eq!(view.toast.as_ref().unwrap().message, "Credential deleted");
    assert!(view.delete_secret("token", &mut controller, 0, &encode, &discard).is_err());
    assert!(view.toast.as_ref().unwrap().danger);
}

#[test]
fn the_window_keeps_connections_and_profiles() {
    let mut controller = open_controller();
    let mut view = MainView::new();
    let shown = snapshot(&mut controller);
    view.open_aws_connection(&shown);
    view.inputs.aws_start_url = " https://example.awsapps.com/start ".to_owned();
    view.inputs.aws_region = " ca-central-1\n".to_owned();
    view.save_aws_connection(&mut controller, &encode, &discard).unwrap();
    view.login_begun(Ok(()), 0);
    assert_eq!(
        view.toast.as_ref().unwrap().message,
        "AWS connection saved; sign in to continue"
    );
    view.begin_aws_refresh(Err("busy".to_owned()), 0);
    assert_eq!(view.toast.as_ref().unwrap().message, "busy");
    view.begin_aws_refresh(Ok(()), 0);
    assert_eq!(view.toast.as_ref().unwrap().message, "AWS SSO login started");
    let shown = snapshot(&mut controller);
    assert_eq!(shown.aws.as_ref().unwrap().configuration.sso_region, "ca-central-1");
    view.open_aws_connection(&shown);
    assert_eq!(view.inputs.aws_start_url, "https://example.awsapps.com/start");
    view.inputs.aws_start_url = "ftp://example".to_owned();
    assert!(view.save_aws_connection(&mut controller, &encode, &discard).is_err());
    assert_eq!(
        view.form_error.as_deref(),
        Some("AWS access portal URL must be an HTTPS URL")
    );
    let mut offered = shown;
    offered.aws.as_mut().unwrap().discovered_accounts =
        vec![account("111111111111", "Dev", &["ReadOnly", "Admin"])];
    view.open_aws_aliases(&offered);
    view.save_aws_aliases(&offered, &mut controller, 0, &encode, &discard).unwrap().unwrap();
    assert!(view.aws_aliases.is_empty());
    let shown = snapshot(&mut controller);
    assert_eq!(shown.aws.unwrap().configuration.targets[0].profile, "dev");
    offered.aws = None;
    assert!(view.save_aws_aliases(&offered, &mut controller, 0, &encode, &discard).is_none());
    assert_eq!(
        view.form_error.as_deref(),
        Some("AWS connection is no longer available")
    );
}

#[test]
fn requests_are_shown_with_what_can_be_answered() {
    let mut controller = open_controller();
    controller.save_secret("token", "secret", None, &encode, &discard).unwrap();
    let tool = process(30, "/usr/bin/tool");
    let shell = process(20, "/bin/zsh");
    let launchd = process(1, "/sbin/launchd");
    let tree = vec![tool.clone(), shell.clone(), launchd];
    controller.begin_request("token", tree.clone(), true).unwrap();
    let mut view = RequestView::new();
    let shown = snapshot(&mut controller);
    let card = view.render(&shown).unwrap();
    assert_eq!(card.heading, "Secret requested");
    assert_eq!(card.subject, "token");
    assert_eq!(card.verification, Some("Process verified"));
    let pids: Vec<&str> = card.selector.rows.iter().map(|row| row.pid_label.as_str()).collect();
    assert_eq!(pids, ["PID 20", "PID 30"]);
    assert!(card.selector.rows[1].requester && card.selector.rows[1].selected);
    assert_eq!(card.selector.rows[0].depth, 0);
    assert_eq!(
        card.selector.summary.as_deref(),
        Some("Access will follow tool and its child processes.")
    );
    let labels: Vec<&str> = card.buttons.iter().map(|button| button.label()).collect();
    assert_eq!(labels, ["Deny", "Allow once", "Grant for 30 minutes"]);

    view.select_grant_process(card.request_id.clone(), shell.clone());
    let card = view.render(&shown).unwrap();
    assert!(card.selector.rows[0].selected && !card.selector.rows[1].selected);
    let Some(RequestButton::Grant(holder)) = card.buttons.into_iter().nth(2) else {
        panic!("a grant can be given");
    };
    assert_eq!(holder, Some(shell.clone()));
    assert_eq!(
        view.grant_process(&card.request_id, &vec![tool.clone()]),
        Some(tool.clone())
    );
    view.respond_secret(&mut controller, &card.request_id, ApprovalDecision::Temporary, holder)
        .unwrap();
    assert!(view.grant_process_choices.is_empty());
    assert_eq!(snapshot(&mut controller).grants[0].process, shell);
    assert!(view
        .respond_secret(&mut controller, &card.request_id, ApprovalDecision::Deny, None)
        .is_err());
    assert_eq!(view.error.as_deref(), Some("Request is no longer pending"));
    view.answered("x", Ok(()));
    assert_eq!(view.error, None);
}

#[test]
fn closed_vaults_and_unverified_processes_get_fewer_answers() {
    let mut controller = Controller::new("vault.json".to_owned());
    controller.begin_request("token", vec![process(30, "/usr/bin/tool")], false).unwrap();
    let shown = snapshot(&mut controller);
    let card = RequestView::new().render(&shown).unwrap();
    let labels: Vec<&str> = card.buttons.iter().map(|button| button.label()).collect();
    assert_eq!(labels, ["Deny", "Open secretd to unlock"]);
    assert!(card.warned);
    assert_eq!(card.verification, Some("Process could not be verified"));
    assert_eq!(card.selector.title, "Requesting process");
    assert_eq!(card.selector.summary, None);
    let open = RequestView::new().render_secret(&shown.pending[0], true);
    let labels: Vec<&str> = open.buttons.iter().map(|button| button.label()).collect();
    assert_eq!(labels, ["Deny", "Allow once"]);
}

#[test]
fn the_oldest_request_comes_first() {
    let mut controller = open_controller();
    assert_eq!(oldest_request(&snapshot(&mut controller)), Oldest::Nothing);
    let configuration = AwsConfiguration {
        start_url: "https://example.awsapps.com/start".to_owned(),
        sso_region: "ca-central-1".to_owned(),
        targets: vec![target("prod", "123456789012")],
    };
    controller.save_aws_configuration(configuration, &encode, &discard).unwrap();
    controller.save_secret("token", "secret", None, &encode, &discard).unwrap();
    controller.begin_request("token", vec![process(30, "/usr/bin/tool")], true).unwrap();
    controller
        .begin_aws_request("prod", vec![process(31, "/usr/bin/aws")], true, &inspect)
        .unwrap();
    let mut shown = snapshot(&mut controller);
    shown.pending[0].requested_at = 5;
    shown.pending_aws[0].requested_at = 5;
    assert_eq!(oldest_request(&shown), Oldest::Aws);
    let card = RequestView::new().render(&shown).unwrap();
    assert_eq!(card.subject, "Profile: prod");
    let labels: Vec<&str> = card.buttons.iter().map(|button| button.label()).collect();
    assert_eq!(labels, ["Deny", "Grant read-only", "Grant admin"]);
    shown.pending[0].requested_at = 4;
    assert_eq!(oldest_request(&shown), Oldest::Secret);
    deny_oldest_request(&mut controller, &shown);
    let shown = snapshot(&mut controller);
    assert!(shown.pending.is_empty());
    assert_eq!(shown.pending_aws.len(), 1);
    deny_oldest_request(&mut controller, &shown);
    let shown = snapshot(&mut controller);
    assert!(shown.pending_aws.is_empty());
    assert_eq!(shown.audit[0].action, AuditAction::Denied);
    deny_oldest_request(&mut controller, &shown);
}

#[test]
fn buttons_do_what_they_say() {
    let mut controller = open_controller();
    let configuration = AwsConfiguration {
        start_url: "https://example.awsapps.com/start".to_owned(),
        sso_region: "ca-central-1".to_owned(),
        targets: vec![target("prod", "123456789012")],
    };
    controller.save_aws_configuration(configuration, &encode, &discard).unwrap();
    controller.save_secret("token", "secret", None, &encode, &discard).unwrap();
    let tool = process(30, "/usr/bin/tool");
    let mut view = RequestView::new();
    let buttons = [
        (RequestButton::Deny, AuditAction::Denied),
        (RequestButton::AllowOnce, AuditAction::AllowedOnce),
        (RequestButton::Grant(Some(tool.clone())), AuditAction::GrantedTemporarily),
    ];
    for (button, action) in buttons {
        controller.begin_request("token", vec![tool.clone()], true).unwrap();
        let id = snapshot(&mut controller).pending[0].id.clone();
        assert!(view.press(&mut controller, &id, false, &RequestButton::OpenMain).is_none());
        assert_eq!(snapshot(&mut controller).pending.len(), 1);
        assert!(matches!(view.press(&mut controller, &id, false, &button), Some(Ok(()))));
        let shown = snapshot(&mut controller);
        assert!(shown.pending.is_empty());
        assert_eq!(shown.audit[0].action, action);
        assert_eq!(shown.audit[0].id.len(), 36);
    }
    assert_eq!(snapshot(&mut controller).grants[0].process, tool);
    controller.begin_aws_request("prod", vec![tool.clone()], true, &inspect).unwrap();
    let id = snapshot(&mut controller).pending_aws[0].id.clone();
    let admin = RequestButton::GrantLevel(AwsAccessLevel::Admin, Some(tool.clone()));
    assert!(matches!(view.press(&mut controller, &id, true, &admin), Some(Ok(()))));
    let shown = snapshot(&mut controller);
    assert_eq!(shown.aws_grants[0].level, AwsAccessLevel::Admin);
    assert_eq!(shown.aws_grants[0].process, tool);
    assert!(matches!(view.press(&mut controller, &id, true, &admin), Some(Err(_))));
    assert_eq!(view.error.as_deref(), Some("Request is no longer pending"));
}

#[test]
fn secrets_are_listed_and_searched() {
    let mut controller = open_controller();
    let mut view = MainView::new();
    let page = view.render_secrets(&snapshot(&mut controller));
    assert_eq!(page.empty, Some("Your vault is empty"));
    for name in ["Service/Alpha", "beta"] {
        controller.save_secret(name, "secret", None, &encode, &discard).unwrap();
    }
    view.inputs.search = "ALPH".to_owned();
    let page = view.render_secrets(&snapshot(&mut controller));
    assert_eq!(page.rows.len(), 1);
    assert_eq!(page.rows[0].name, "Service/Alpha");
    assert_eq!(page.rows[0].toggle_label, "Reveal");
    assert_eq!(page.rows[0].edit_id, "edit-Service/Alpha");
    view.inputs.search = "zeta".to_owned();
    let page = view.render_secrets(&snapshot(&mut controller));
    assert_eq!(page.empty, Some("No matching credentials"));
    view.inputs.search = String::new();
    view.reveal_secret("beta".to_owned(), &controller, 0);
    let page = view.render_secrets(&snapshot(&mut controller));
    assert_eq!(page.rows[1].value.as_deref(), Some("secret"));
    assert_eq!(page.rows[1].toggle_label, "Hide");
    assert_eq!(page.empty, None);
}

#[test]
fn the_aws_part_tells_what_to_do_next() {
    let mut controller = open_controller();
    let view = MainView::new();
    let mut shown = snapshot(&mut controller);
    let page = view.render_aws_at(&shown, 0);
    assert_eq!(page.actions, [AwsAction::Connect]);
    assert_eq!(page.note, Some("Step 1 · Enter your AWS access portal URL to begin"));
    shown.aws = Some(summary(
        vec![target("dev", "111111111111")],
        vec![account("111111111111", "Dev", &["ReadOnly", "Admin"])],
    ));
    shown.aws_login = AwsLoginStatus::AwaitingUser(AwsDeviceAuthorization {
        verification_uri: "https://device.example".to_owned(),
        verification_uri_complete: None,
        user_code: "CODE".to_owned(),
        expires_at: 90,
    });
    let page = view.render_aws_at(&shown, 0);
    assert_eq!(
        page.actions,
        [
            AwsAction::Refresh { working: true },
            AwsAction::Configure { aliases: true, enabled: false },
        ]
    );
    assert!(matches!(
        page.login,
        LoginNote::SignIn { code, url, expires }
            if code == "Verification code: CODE" && url == "https://device.example"
                && expires == "This request expires in 2m"
    ));
    assert_eq!(page.note, None);
    assert_eq!(page.connection.as_ref().unwrap().region, "Region · ca-central-1");
    assert_eq!(page.connection.as_ref().unwrap().status, "Available");
    assert_eq!(page.profiles[0].account, "Account 111111111111");
    assert_eq!(page.profiles[0].element_id, "aws-profile-dev");
    assert!(!page.assign);
    let aws = shown.aws.as_mut().unwrap();
    aws.configuration.targets.clear();
    aws.logged_in = false;
    shown.aws_login = AwsLoginStatus::LoggedIn { expires_at: 30 };
    let page = view.render_aws_at(&shown, 0);
    assert!(page.assign);
    assert_eq!(page.connection.as_ref().unwrap().status, "Sign in");
    assert!(matches!(
        page.login,
        LoginNote::SignedIn(words) if words == "Signed in · access token expires in 30s"
    ));
    shown.aws.as_mut().unwrap().discovered_accounts.clear();
    assert_eq!(
        view.render_aws_at(&shown, 0).note,
        Some("AWS returned no accounts assigned to this identity")
    );
    shown.aws.as_mut().unwrap().discovery_complete = false;
    assert_eq!(
        view.render_aws_at(&shown, 0).note,
        Some("Step 2 · Sign in to discover your AWS accounts")
    );
}

#[test]
fn grants_denials_and_activity_are_listed() {
    let mut controller = open_controller();
    let configuration = AwsConfiguration {
        start_url: "https://example.awsapps.com/start".to_owned(),
        sso_region: "ca-central-1".to_owned(),
        targets: vec![target("prod", "123456789012")],
    };
    controller.save_aws_configuration(configuration, &encode, &discard).unwrap();
    controller.save_secret("token", "secret", None, &encode, &discard).unwrap();
    controller.begin_request("token", vec![process(30, "/usr/bin/tool")], true).unwrap();
    let id = snapshot(&mut controller).pending[0].id.clone();
    controller.respond(&id, ApprovalDecision::Temporary, Some(60), None).unwrap();
    controller
        .begin_aws_request("prod", vec![process(31, "/usr/bin/aws")], true, &inspect)
        .unwrap();
    let id = snapshot(&mut controller).pending_aws[0].id.clone();
    controller.respond_aws(&id, None, None, None).unwrap();
    let mut view = MainView::new();
    let shown = snapshot(&mut controller);
    let now = shown.grants[0].created_at;
    let page = view.render_grants_at(&shown, now);
    assert!(!page.empty);
    assert_eq!(page.grants[0].title, "token");
    assert_eq!(page.grants[0].detail, "/usr/bin/tool · PID 30 · expires in 1m");
    assert_eq!(page.grants[0].changes, [GrantChange::Extend, GrantChange::Revoke]);
    assert_eq!(page.denials[0].title, "AWS prod · denied");
    assert_eq!(page.denials[0].changes, [GrantChange::Unblock]);
    assert_eq!(change_label(GrantChange::Extend), "+15 min");
    assert_eq!(change_label(GrantChange::Unblock), "Unblock");
    let rows = view.render_activity_at(&shown, shown.audit[0].occurred_at);
    assert_eq!(rows[0].label, "Request denied");
    assert!(rows[0].refused);
    assert_eq!(rows[0].subject, "aws/prod");
    assert_eq!(rows[0].when, "just now");
    assert_eq!(rows[0].process, "/usr/bin/aws · PID 31");
    assert_eq!(rows[1].label, "Access granted");
    assert!(!rows[1].refused);

    let header = view.render_header(&shown);
    assert_eq!(header.active_label, "Active, 1");
    assert_eq!(header.activity_label, "Activity, 2");
    view.switch_view(page_at(2));
    assert_eq!(view.render_header(&shown).selected_index, 2);
    view.mutate_grant(&mut controller, &page.grants[0].id, GrantChange::Revoke);
    view.mutate_grant(&mut controller, &page.denials[0].id, GrantChange::Unblock);
    let shown = snapshot(&mut controller);
    assert!(shown.grants.is_empty() && shown.aws_denials.is_empty());
    assert!(view.render_grants_at(&shown, now).empty);
    assert_eq!(shown.audit[0].action, AuditAction::Unblocked);
}

#[test]
fn a_closed_vault_shows_only_the_question_for_its_password() {
    let mut controller = Controller::new("vault.json".to_owned());
    let mut view = MainView::new();
    let shown = controller.snapshot(Ok(false));
    let Screen::Auth(page) = view.render(&shown, 0) else {
        panic!("a new vault is made first");
    };
    assert_eq!(page.title, "Create your vault");
    assert!(page.confirm);
    let shown = controller.snapshot(Ok(true));
    let Screen::Auth(page) = view.render(&shown, 0) else {
        panic!("the vault is closed");
    };
    assert_eq!(page.title, "Welcome back");
    assert_eq!(page.submit, "Unlock vault");
    let mut controller = open_controller();
    view.show_aws_login();
    assert_eq!(view.page, Page::Aws);
    view.open_password();
    view.show_toast("hello".to_owned(), false, 0);
    let shown = snapshot(&mut controller);
    let moments = Moments { window: 10_000, millis: 0, seconds: 0 };
    let Screen::Open(screen) = view.render_at(&shown, moments) else {
        panic!("the vault is open");
    };
    assert!(view.toast.is_none());
    assert!(matches!(screen.content, Content::Aws(_)));
    let panel = screen.modal.unwrap();
    assert_eq!(panel.title, "Change master password");
    assert_eq!(panel.inputs, [FormInput::NewPassword, FormInput::PasswordConfirmation]);
    assert_eq!(input_label(panel.inputs[1]), "Confirm password");
    assert_eq!(panel.width, 500);
    let panel = view.render_modal(&Modal::Delete("token".to_owned()));
    assert_eq!(
        panel.note.as_deref(),
        Some("Permanently delete “token” from the encrypted vault?")
    );
    assert!(panel.danger);
}
