//! Requests, grants and denials, from asking to the last answer.

use std::cell::RefCell;

use secretd::aws::{
    AwsAccessLevel, AwsConfiguration, AwsDiscoveredAccount, AwsLoginStatus, AwsOidcRegistration,
    AwsSettings, AwsSsoToken, AwsTarget,
};
use secretd::controller::{
    process_trees_overlap, validated_grant_seconds, AppSnapshot, ApprovalDecision, AuditAction,
    AwsCredentialGrant, AwsRequestOutcome, AwsRequestResolution, Controller, RequestOutcome,
    RequestResolution,
};
use secretd::grants::{
    now_millis, DEFAULT_GRANT_SECONDS, GRANT_EXTENSION_SECONDS, MAX_GRANT_SECONDS,
};
use secretd::process::ProcessIdentity;
use secretd::vault::{
    CipherHeader, KdfHeader, SecretRecord, VaultEntry, VaultError, VaultFile, VaultPlaintext,
    PBKDF2_ITERATIONS,
};
use serde_json::Value;

/// Where the last vault file that was written is kept.
struct Disk {
    file: RefCell<Option<VaultFile>>,
}

impl Disk {
    fn new() -> Self {
        Disk { file: RefCell::new(None) }
    }

    fn write(&self, file: &VaultFile) -> Result<(), VaultError> {
        *self.file.borrow_mut() = Some(copied(file));
        Ok(())
    }

    fn read(&self) -> Result<VaultFile, VaultError> {
        match &*self.file.borrow() {
            Some(file) => Ok(copied(file)),
            None => Err(VaultError("Vault does not exist".to_owned())),
        }
    }
}

fn copied(file: &VaultFile) -> VaultFile {
    VaultFile {
        version: file.version,
        kdf: KdfHeader {
            name: file.kdf.name.clone(),
            hash: file.kdf.hash.clone(),
            iterations: file.kdf.iterations,
            salt: file.kdf.salt.clone(),
        },
        cipher: CipherHeader { name: file.cipher.name.clone(), iv: file.cipher.iv.clone() },
        ciphertext: file.ciphertext.clone(),
    }
}

fn object(fields: Vec<(&str, Value)>) -> Value {
    let mut map = serde_json::Map::new();
    for (name, value) in fields {
        map.insert(name.to_owned(), value);
    }
    Value::Object(map)
}

fn words(text: &str) -> Value {
    Value::String(text.to_owned())
}

fn encode(data: &VaultPlaintext) -> Result<Vec<u8>, String> {
    let mut secrets = serde_json::Map::new();
    for record in &data.secrets {
        let mut fields = vec![
            ("value", words(&record.entry.value)),
            ("createdAt", words(&record.entry.created_at)),
            ("updatedAt", words(&record.entry.updated_at)),
        ];
        if let Some(group) = &record.entry.group {
            fields.push(("group", words(group)));
        }
        secrets.insert(record.name.clone(), object(fields));
    }
    let mut fields = vec![
        ("version", Value::from(data.version)),
        ("revision", Value::from(data.revision)),
        ("secrets", Value::Object(secrets)),
    ];
    if let Some(aws) = &data.aws {
        fields.push(("aws", encode_aws(aws)));
    }
    serde_json::to_vec(&object(fields)).map_err(|error| error.to_string())
}

fn encode_aws(aws: &AwsSettings) -> Value {
    let targets = aws.targets.iter().map(|target| {
        object(vec![
            ("profile", words(&target.profile)),
            ("accountId", words(&target.account_id)),
            ("readOnlyRole", words(&target.read_only_role)),
            ("adminRole", words(&target.admin_role)),
            ("region", words(&target.region)),
        ])
    });
    let accounts = aws.discovered_accounts.iter().map(|account| {
        object(vec![
            ("accountId", words(&account.account_id)),
            ("accountName", words(&account.account_name)),
            ("emailAddress", words(&account.email_address)),
            ("roles", Value::Array(account.roles.iter().map(|role| words(role)).collect())),
        ])
    });
    let mut fields = vec![
        ("startUrl", words(&aws.start_url)),
        ("ssoRegion", words(&aws.sso_region)),
        ("targets", Value::Array(targets.collect())),
        ("discoveredAccounts", Value::Array(accounts.collect())),
        ("discoveryComplete", Value::from(aws.discovery_complete)),
    ];
    if let Some(registration) = &aws.registration {
        fields.push((
            "registration",
            object(vec![
                ("clientId", words(&registration.client_id)),
                ("clientSecret", words(&registration.client_secret)),
                ("clientSecretExpiresAt", Value::from(registration.client_secret_expires_at)),
            ]),
        ));
    }
    if let Some(token) = &aws.token {
        fields.push((
            "token",
            object(vec![
                ("accessToken", words(&token.access_token)),
                ("accessTokenExpiresAt", Value::from(token.access_token_expires_at)),
                ("refreshToken", words(&token.refresh_token)),
            ]),
        ));
    }
    object(fields)
}

fn text_of(value: &Value, name: &str) -> Option<String> {
    value.get(name)?.as_str().map(|text| text.to_owned())
}

fn parse(bytes: &Vec<u8>) -> Option<VaultPlaintext> {
    let value: Value = serde_json::from_slice(bytes).ok()?;
    let mut secrets = Vec::new();
    for (name, entry) in value.get("secrets")?.as_object()? {
        secrets.push(SecretRecord {
            name: name.clone(),
            entry: VaultEntry {
                value: text_of(entry, "value")?,
                group: text_of(entry, "group"),
                created_at: text_of(entry, "createdAt")?,
                updated_at: text_of(entry, "updatedAt")?,
            },
        });
    }
    let aws = match value.get("aws") {
        Some(aws) => Some(parse_aws(aws)?),
        None => None,
    };
    Some(VaultPlaintext {
        version: value.get("version")?.as_u64()? as u8,
        revision: value.get("revision")?.as_u64()?,
        secrets,
        aws,
    })
}

fn parse_aws(value: &Value) -> Option<AwsSettings> {
    let mut targets = Vec::new();
    for target in value.get("targets")?.as_array()? {
        targets.push(AwsTarget {
            profile: text_of(target, "profile")?,
            account_id: text_of(target, "accountId")?,
            read_only_role: text_of(target, "readOnlyRole")?,
            admin_role: text_of(target, "adminRole")?,
            region: text_of(target, "region")?,
        });
    }
    let mut discovered_accounts = Vec::new();
    for account in value.get("discoveredAccounts")?.as_array()? {
        let mut roles = Vec::new();
        for role in account.get("roles")?.as_array()? {
            roles.push(role.as_str()?.to_owned());
        }
        discovered_accounts.push(AwsDiscoveredAccount {
            account_id: text_of(account, "accountId")?,
            account_name: text_of(account, "accountName")?,
            email_address: text_of(account, "emailAddress")?,
            roles,
        });
    }
    let registration = match value.get("registration") {
        Some(registration) => Some(AwsOidcRegistration {
            client_id: text_of(registration, "clientId")?,
            client_secret: text_of(registration, "clientSecret")?,
            client_secret_expires_at: registration.get("clientSecretExpiresAt")?.as_u64()?,
        }),
        None => None,
    };
    let token = match value.get("token") {
        Some(token) => Some(AwsSsoToken {
            access_token: text_of(token, "accessToken")?,
            access_token_expires_at: token.get("accessTokenExpiresAt")?.as_u64()?,
            refresh_token: text_of(token, "refreshToken")?,
        }),
        None => None,
    };
    Some(AwsSettings {
        start_url: text_of(value, "startUrl")?,
        sso_region: text_of(value, "ssoRegion")?,
        targets,
        discovered_accounts,
        discovery_complete: value.get("discoveryComplete")?.as_bool()?,
        registration,
        token,
    })
}

fn process(pid: u32, executable: &str) -> ProcessIdentity {
    ProcessIdentity {
        pid,
        ppid: pid.saturating_sub(1),
        started_at: format!("start-{pid}"),
        executable: executable.to_owned(),
        command: executable.to_owned(),
    }
}

/// The one process that is found when the system is asked.
fn live_process() -> ProcessIdentity {
    process(4_000, "/usr/bin/test-runner")
}

fn inspect(pid: u32) -> Result<Option<ProcessIdentity>, String> {
    if pid == live_process().pid {
        Ok(Some(live_process()))
    } else {
        Ok(None)
    }
}

fn aws_configuration() -> AwsConfiguration {
    AwsConfiguration {
        start_url: "https://example.awsapps.com/start".to_owned(),
        sso_region: "ca-central-1".to_owned(),
        targets: vec![AwsTarget {
            profile: "prod".to_owned(),
            account_id: "123456789012".to_owned(),
            read_only_role: "ReadOnly".to_owned(),
            admin_role: "Administrator".to_owned(),
            region: "ca-central-1".to_owned(),
        }],
    }
}

fn discard(_: &VaultFile) -> Result<(), VaultError> {
    Ok(())
}

fn open_controller() -> Controller {
    let mut controller = Controller::new("vault.json".to_owned());
    controller.create_vault("correct horse", Ok(false), &encode, &discard).unwrap();
    controller
}

fn aws_controller() -> Controller {
    let mut controller = open_controller();
    controller.save_aws_configuration(aws_configuration(), &encode, &discard).unwrap();
    controller
}

fn snapshot(controller: &mut Controller) -> AppSnapshot {
    controller.snapshot(Ok(true))
}

fn pending(outcome: RequestOutcome, otherwise: &str) -> String {
    match outcome {
        RequestOutcome::Pending { id } => id,
        RequestOutcome::Immediate(_) => panic!("{otherwise}"),
    }
}

fn pending_aws(outcome: AwsRequestOutcome, otherwise: &str) -> String {
    match outcome {
        AwsRequestOutcome::Pending { id } => id,
        _ => panic!("{otherwise}"),
    }
}

fn message<T>(result: Result<T, VaultError>) -> String {
    match result {
        Ok(_) => panic!("nothing was refused"),
        Err(error) => error.to_string(),
    }
}

#[test]
fn aws_role_is_chosen_by_approval_and_pinned_to_the_process() {
    let mut controller = aws_controller();
    let terraform = live_process();
    let outcome = controller
        .begin_aws_request("prod", vec![terraform.clone()], true, &inspect)
        .unwrap();
    let id = pending_aws(outcome, "first request should require a decision");
    controller.respond_aws(&id, Some(AwsAccessLevel::ReadOnly), None, None).unwrap();
    assert_eq!(
        controller.take_aws_resolution(&id).unwrap(),
        AwsRequestResolution::Approved(AwsAccessLevel::ReadOnly)
    );
    let shown = snapshot(&mut controller);
    assert_eq!(shown.aws_grants.len(), 1);
    assert_eq!(shown.aws_grants[0].profile, "prod");
    assert_eq!(shown.aws_grants[0].level, AwsAccessLevel::ReadOnly);
    assert_eq!(
        shown.aws_grants[0].expires_at.saturating_sub(shown.aws_grants[0].created_at),
        DEFAULT_GRANT_SECONDS * 1_000
    );
    let grant_id = shown.aws_grants[0].id.clone();
    let original_expiry = shown.aws_grants[0].expires_at;
    controller.extend_aws_grant(&grant_id);
    assert_eq!(
        snapshot(&mut controller).aws_grants[0].expires_at,
        original_expiry + GRANT_EXTENSION_SECONDS * 1_000
    );
    controller.extend_aws_grant(&grant_id);
    assert_eq!(
        snapshot(&mut controller).aws_grants[0].expires_at,
        original_expiry + 2 * GRANT_EXTENSION_SECONDS * 1_000
    );
    controller.extend_aws_grant(&grant_id);
    assert!(
        snapshot(&mut controller).aws_grants[0].expires_at
            <= now_millis() + MAX_GRANT_SECONDS * 1_000
    );

    let outcome = controller
        .begin_aws_request("prod", vec![terraform.clone()], true, &inspect)
        .unwrap();
    assert!(matches!(outcome, AwsRequestOutcome::Immediate(AwsAccessLevel::ReadOnly)));

    controller.revoke_aws_grant(&grant_id);
    assert!(snapshot(&mut controller).aws_grants.is_empty());
    assert!(matches!(
        controller.begin_aws_request("prod", vec![terraform], true, &inspect).unwrap(),
        AwsRequestOutcome::Pending { .. }
    ));
}

#[test]
fn aws_denial_is_audited_and_suppresses_the_same_process_lineage() {
    let mut controller = aws_controller();
    let ancestor = live_process();
    let first_requester = process(20, "/usr/local/bin/aws");
    let outcome = controller
        .begin_aws_request(
            "prod",
            vec![first_requester.clone(), ancestor.clone()],
            true,
            &inspect,
        )
        .unwrap();
    let id = pending_aws(outcome, "first request should be pending");

    controller.respond_aws(&id, None, None, None).unwrap();

    assert_eq!(controller.take_aws_resolution(&id).unwrap(), AwsRequestResolution::Denied);
    let shown = snapshot(&mut controller);
    assert_eq!(shown.audit.len(), 1);
    assert_eq!(shown.audit[0].action, AuditAction::Denied);
    assert_eq!(shown.audit[0].secret, "aws/prod");
    assert_eq!(shown.audit[0].ttl_seconds, Some(DEFAULT_GRANT_SECONDS));
    assert_eq!(shown.aws_denials.len(), 1);
    let denial_id = shown.aws_denials[0].id.clone();
    assert!(matches!(
        controller
            .begin_aws_request(
                "prod",
                vec![process(21, "/usr/local/bin/aws"), ancestor.clone()],
                true,
                &inspect,
            )
            .unwrap(),
        AwsRequestOutcome::Denied
    ));
    assert!(matches!(
        controller
            .begin_aws_request(
                "prod",
                vec![process(22, "/usr/local/bin/aws"), process(23, "/bin/zsh")],
                true,
                &inspect,
            )
            .unwrap(),
        AwsRequestOutcome::Pending { .. }
    ));

    controller.revoke_aws_denial(&denial_id);

    let shown = snapshot(&mut controller);
    assert!(shown.aws_denials.is_empty());
    assert_eq!(shown.audit[0].action, AuditAction::Unblocked);
    assert!(matches!(
        controller
            .begin_aws_request(
                "prod",
                vec![process(24, "/usr/local/bin/aws"), ancestor],
                true,
                &inspect,
            )
            .unwrap(),
        AwsRequestOutcome::Pending { .. }
    ));
}

#[test]
fn aws_timeout_is_audited_and_starts_the_deny_cooldown() {
    let mut controller = aws_controller();
    let requester = live_process();
    let outcome = controller
        .begin_aws_request("prod", vec![requester.clone()], true, &inspect)
        .unwrap();
    let id = pending_aws(outcome, "first request should be pending");

    controller.timeout_aws_request(&id);

    let shown = snapshot(&mut controller);
    assert_eq!(shown.audit.len(), 1);
    assert_eq!(shown.audit[0].action, AuditAction::TimedOut);
    assert_eq!(shown.audit[0].secret, "aws/prod");
    assert!(matches!(
        controller.begin_aws_request("prod", vec![requester], true, &inspect).unwrap(),
        AwsRequestOutcome::Denied
    ));
}

#[test]
fn latest_aws_approval_replaces_an_older_grant() {
    let mut controller = aws_controller();
    let terraform = live_process();
    let outcome = controller
        .begin_aws_request("prod", vec![terraform.clone()], true, &inspect)
        .unwrap();
    let admin_id = pending_aws(outcome, "admin request should be pending");
    let outcome = controller
        .begin_aws_request("prod", vec![terraform.clone()], true, &inspect)
        .unwrap();
    let read_only_id = pending_aws(outcome, "read-only request should be pending");

    controller.respond_aws(&admin_id, Some(AwsAccessLevel::Admin), None, None).unwrap();
    controller.respond_aws(&read_only_id, Some(AwsAccessLevel::ReadOnly), None, None).unwrap();

    let grants = snapshot(&mut controller).aws_grants;
    assert_eq!(grants.len(), 1);
    assert_eq!(grants[0].level, AwsAccessLevel::ReadOnly);
    assert!(matches!(
        controller.begin_aws_request("prod", vec![terraform], true, &inspect).unwrap(),
        AwsRequestOutcome::Immediate(AwsAccessLevel::ReadOnly)
    ));
}

#[test]
fn aws_grant_for_an_ancestor_is_reused_by_another_child() {
    let mut controller = aws_controller();
    let ancestor = live_process();
    let first_child = process(20, "/usr/local/bin/terraform");
    let outcome = controller
        .begin_aws_request("prod", vec![first_child, ancestor.clone()], true, &inspect)
        .unwrap();
    let id = pending_aws(outcome, "first child should require approval");
    controller
        .respond_aws(&id, Some(AwsAccessLevel::Admin), Some(ancestor.clone()), None)
        .unwrap();

    let second_child = process(21, "/usr/local/bin/terraform");
    assert!(matches!(
        controller
            .begin_aws_request("prod", vec![second_child, ancestor], true, &inspect)
            .unwrap(),
        AwsRequestOutcome::Immediate(AwsAccessLevel::Admin)
    ));
}

#[test]
fn explicit_cleanup_prunes_exited_aws_grants() {
    let mut controller = Controller::new("vault.json".to_owned());
    controller.aws_process_decisions.push(AwsCredentialGrant {
        id: "stale".to_owned(),
        profile: "prod".to_owned(),
        level: AwsAccessLevel::Admin,
        process: process(u32::MAX, "/missing/terraform"),
        created_at: now_millis(),
        expires_at: now_millis().saturating_add(DEFAULT_GRANT_SECONDS * 1_000),
    });
    controller.aws_process_decisions.push(AwsCredentialGrant {
        id: "expired".to_owned(),
        profile: "prod".to_owned(),
        level: AwsAccessLevel::ReadOnly,
        process: live_process(),
        created_at: now_millis().saturating_sub(DEFAULT_GRANT_SECONDS * 1_000),
        expires_at: now_millis().saturating_sub(1),
    });

    let shown = snapshot(&mut controller);
    assert_eq!(shown.aws_grants.len(), 1);
    assert_eq!(shown.aws_grants[0].id, "stale");

    controller.prune_exited_aws_grants(&inspect);

    assert!(snapshot(&mut controller).aws_grants.is_empty());
}

#[test]
fn aws_session_refresh_does_not_overwrite_newer_profile_configuration() {
    let mut controller = aws_controller();
    let mut stale = controller.aws_credential_context().unwrap();

    let mut updated = aws_configuration();
    updated.targets[0].admin_role = "NewAdministrator".to_owned();
    controller.save_aws_configuration(updated, &encode, &discard).unwrap();
    stale.token = Some(AwsSsoToken {
        access_token: "access".to_owned(),
        access_token_expires_at: u64::MAX,
        refresh_token: "refresh".to_owned(),
    });
    controller.persist_aws_settings(&stale, &encode, &discard).unwrap();

    let settings = controller.vault.aws_settings().unwrap().unwrap();
    assert_eq!(settings.targets[0].admin_role, "NewAdministrator");
    assert_eq!(
        settings.token.as_ref().map(|token| token.access_token.as_str()),
        Some("access")
    );
}

#[test]
fn secret_grant_for_an_ancestor_is_reused_by_another_child() {
    let mut controller = open_controller();
    controller.save_secret("deploy/token", "secret", None, &encode, &discard).unwrap();
    let ancestor = process(10, "/bin/zsh");
    let first_child = process(20, "/usr/local/bin/terraform");
    let outcome = controller
        .begin_request("deploy/token", vec![first_child, ancestor.clone()], true)
        .unwrap();
    let id = pending(outcome, "first child should require approval");
    controller
        .respond(&id, ApprovalDecision::Temporary, Some(300), Some(ancestor.clone()))
        .unwrap();

    let second_child = process(21, "/usr/local/bin/terraform");
    assert!(matches!(
        controller.begin_request("deploy/token", vec![second_child, ancestor], true).unwrap(),
        RequestOutcome::Immediate(_)
    ));
}

#[test]
fn launchd_cannot_be_selected_as_a_grant_boundary() {
    let mut controller = open_controller();
    controller.save_secret("token", "secret", None, &encode, &discard).unwrap();
    let launchd = process(1, "/sbin/launchd");
    let outcome = controller
        .begin_request(
            "token",
            vec![process(20, "/usr/local/bin/tool"), launchd.clone()],
            true,
        )
        .unwrap();
    let id = pending(outcome, "request should require approval");

    let error = controller
        .respond(&id, ApprovalDecision::Temporary, Some(300), Some(launchd))
        .unwrap_err();
    assert!(error.to_string().contains("launchd"));
}

#[test]
fn locked_request_waits_for_unlock_and_then_requires_approval() {
    let disk = Disk::new();
    let write = |file: &VaultFile| disk.write(file);
    let mut controller = Controller::new("vault.json".to_owned());
    controller.create_vault("correct horse", Ok(false), &encode, &write).unwrap();
    controller.save_secret("qwer", "correct password", None, &encode, &write).unwrap();
    controller.lock();

    let outcome = controller
        .begin_request("qwer", vec![process(20, "/usr/local/bin/tool")], true)
        .unwrap();
    let id = pending(outcome, "locked request should wait for unlock");
    assert_eq!(snapshot(&mut controller).pending.len(), 1);

    controller.unlock("correct horse", disk.read(), &parse).unwrap();
    controller.respond(&id, ApprovalDecision::Once, None, None).unwrap();
    assert_eq!(controller.take_resolution(&id).unwrap(), RequestResolution::Approved);
    assert_eq!(controller.release_after_approval("qwer").unwrap(), "correct password");
}

#[test]
fn locked_request_reports_validation_error_after_unlock() {
    let disk = Disk::new();
    let write = |file: &VaultFile| disk.write(file);
    let mut controller = Controller::new("vault.json".to_owned());
    controller.create_vault("correct horse", Ok(false), &encode, &write).unwrap();
    controller.lock();

    let outcome = controller
        .begin_request("missing", vec![process(20, "/usr/local/bin/tool")], true)
        .unwrap();
    let id = pending(outcome, "locked request should wait for unlock");

    controller.unlock("correct horse", disk.read(), &parse).unwrap();
    assert_eq!(
        controller.take_resolution(&id).unwrap(),
        RequestResolution::Failed("Secret not found".to_owned())
    );
    assert!(snapshot(&mut controller).pending.is_empty());
}

#[test]
fn grant_durations_default_to_thirty_minutes_and_cannot_start_over_one_hour() {
    assert_eq!(validated_grant_seconds(None).unwrap(), DEFAULT_GRANT_SECONDS);
    assert_eq!(
        validated_grant_seconds(Some(MAX_GRANT_SECONDS)).unwrap(),
        MAX_GRANT_SECONDS
    );
    assert!(validated_grant_seconds(Some(MAX_GRANT_SECONDS + 1)).is_err());
    assert_eq!(
        message(validated_grant_seconds(Some(0))),
        "Grant duration must be between 1 and 3600 seconds"
    );
}

#[test]
fn an_answer_is_given_once() {
    let mut controller = open_controller();
    controller.save_secret("token", "secret", None, &encode, &discard).unwrap();
    let tool = process(20, "/usr/local/bin/tool");
    let outcome = controller.begin_request("token", vec![tool], true).unwrap();
    let id = pending(outcome, "request should require approval");
    assert!(controller.take_resolution(&id).is_none());
    controller.respond(&id, ApprovalDecision::Deny, None, None).unwrap();
    assert_eq!(
        message(controller.respond(&id, ApprovalDecision::Once, None, None)),
        "Request is no longer pending"
    );
    assert_eq!(controller.take_resolution(&id).unwrap(), RequestResolution::Denied);
    assert!(controller.take_resolution(&id).is_none());
}

#[test]
fn unverified_requests_are_allowed_once_and_no_more() {
    let mut controller = open_controller();
    controller.save_secret("token", "secret", None, &encode, &discard).unwrap();
    let tool = process(20, "/usr/local/bin/tool");
    let outcome = controller.begin_request("token", vec![tool.clone()], false).unwrap();
    let id = pending(outcome, "request should require approval");
    assert!(controller.respond(&id, ApprovalDecision::Temporary, Some(300), None).is_err());
    controller.respond(&id, ApprovalDecision::Once, None, None).unwrap();
    assert!(snapshot(&mut controller).grants.is_empty());
    let outcome = controller.begin_request("token", vec![tool], false).unwrap();
    pending(outcome, "an allowance is not a grant");
}

#[test]
fn locking_denies_what_waits_and_takes_grants_away() {
    let mut controller = open_controller();
    controller.save_secret("token", "secret", None, &encode, &discard).unwrap();
    let tool = process(20, "/usr/local/bin/tool");
    let outcome = controller.begin_request("token", vec![tool.clone()], true).unwrap();
    let granted = pending(outcome, "request should require approval");
    controller.respond(&granted, ApprovalDecision::Temporary, None, None).unwrap();
    assert_eq!(snapshot(&mut controller).grants.len(), 1);
    let outcome =
        controller.begin_request("token", vec![process(30, "/usr/bin/other")], true).unwrap();
    let waiting = pending(outcome, "another process has no grant");
    controller.lock();
    assert_eq!(controller.vault.iterations, PBKDF2_ITERATIONS);
    assert_eq!(controller.take_resolution(&waiting).unwrap(), RequestResolution::Denied);
    let shown = snapshot(&mut controller);
    assert!(!shown.unlocked);
    assert!(shown.grants.is_empty());
    assert!(shown.pending.is_empty());
    assert!(shown.secrets.is_empty());
    assert!(shown.audit.iter().any(|entry| entry.action == AuditAction::Revoked));
    assert_eq!(message(controller.reveal_secret("token")), "Vault is locked");
}

#[test]
fn deleting_a_secret_ends_its_grants() {
    let mut controller = open_controller();
    for name in ["token", "other"] {
        controller.save_secret(name, "secret", None, &encode, &discard).unwrap();
        let outcome = controller
            .begin_request(name, vec![process(20, "/usr/local/bin/tool")], true)
            .unwrap();
        let id = pending(outcome, "request should require approval");
        controller.respond(&id, ApprovalDecision::Temporary, None, None).unwrap();
    }
    controller.delete_secret("token", &encode, &discard).unwrap();
    let shown = snapshot(&mut controller);
    assert_eq!(shown.grants.len(), 1);
    assert_eq!(shown.grants[0].resource, "other");
    let grant_id = shown.grants[0].id.clone();
    let expiry = shown.grants[0].expires_at;
    controller.extend_grant(&grant_id);
    assert_eq!(snapshot(&mut controller).grants[0].expires_at, expiry + 900 * 1_000);
    controller.revoke_grant(&grant_id);
    assert!(snapshot(&mut controller).grants.is_empty());
    assert_eq!(
        message(controller.delete_secret("token", &encode, &discard)),
        "Secret not found"
    );
}

#[test]
fn a_secret_can_be_saved_under_another_name() {
    let mut controller = open_controller();
    controller.save_secret("old", "one", None, &encode, &discard).unwrap();
    controller.save_secret("new", "two", Some("old"), &encode, &discard).unwrap();
    assert_eq!(message(controller.reveal_secret("old")), "Secret not found");
    assert_eq!(controller.reveal_secret("new").unwrap(), "two");
    assert_eq!(
        message(controller.save_secret("x", "y", Some("gone"), &encode, &discard)),
        "Secret not found"
    );
}

#[test]
fn requests_for_what_is_not_there_fail_at_once() {
    let mut controller = open_controller();
    let tool = vec![process(20, "/usr/local/bin/tool")];
    assert_eq!(
        message(controller.begin_request("missing", tool, true)),
        "Secret not found"
    );
    let mut controller = aws_controller();
    let tool = vec![process(20, "/usr/local/bin/tool")];
    assert_eq!(
        message(controller.begin_aws_request("dev", tool, true, &inspect)),
        "AWS profile 'dev' is not configured in secretd"
    );
}

#[test]
fn a_request_that_nobody_answers_is_given_up() {
    let mut controller = open_controller();
    controller.save_secret("token", "secret", None, &encode, &discard).unwrap();
    let outcome = controller
        .begin_request("token", vec![process(20, "/usr/local/bin/tool")], true)
        .unwrap();
    let id = pending(outcome, "request should require approval");
    controller.timeout_request(&id);
    let shown = snapshot(&mut controller);
    assert!(shown.pending.is_empty());
    assert_eq!(shown.audit[0].action, AuditAction::TimedOut);
    assert!(controller.take_resolution(&id).is_none());
}

#[test]
fn lineages_overlap_where_they_share_a_process() {
    let shell = process(10, "/bin/zsh");
    let left = vec![process(20, "/bin/a"), shell.clone()];
    let right = vec![process(30, "/bin/b"), shell];
    assert!(process_trees_overlap(&left, &right));
    assert!(!process_trees_overlap(&left, &vec![process(30, "/bin/b")]));
}

#[test]
fn a_new_connection_starts_afresh_and_a_login_needs_one() {
    let mut controller = open_controller();
    assert_eq!(
        message(controller.prepare_aws_login()),
        "Configure AWS SSO before logging in"
    );
    controller.save_aws_configuration(aws_configuration(), &encode, &discard).unwrap();
    controller.prepare_aws_login().unwrap();
    assert_eq!(
        message(controller.preview_aws_login()),
        "AWS SSO login is already in progress"
    );
    controller
        .complete_aws_login(Err("no network".to_owned()), &encode, &discard);
    assert!(matches!(
        snapshot(&mut controller).aws_login,
        AwsLoginStatus::Failed(error) if error == "no network"
    ));
    controller
        .save_aws_connection(
            "https://other.awsapps.com/start".to_owned(),
            "us-east-1".to_owned(),
            &encode,
            &discard,
        )
        .unwrap();
    let shown = snapshot(&mut controller).aws.unwrap();
    assert_eq!(shown.configuration.start_url, "https://other.awsapps.com/start");
    assert!(shown.configuration.targets.is_empty());
    assert_eq!(
        message(controller.save_aws_connection(
            "http://plain.example".to_owned(),
            "us-east-1".to_owned(),
            &encode,
            &discard
        )),
        "AWS access portal URL must be an HTTPS URL"
    );
}

#[test]
fn denials_go_by_the_identifier_they_were_given() {
    let mut controller = aws_controller();
    let now = now_millis();
    let ask = |controller: &mut Controller, pid: u32| {
        let tree = vec![process(pid, "/usr/local/bin/aws")];
        pending_aws(
            controller.begin_aws_request("prod", tree, true, &inspect).unwrap(),
            "request should be pending",
        )
    };
    let first = ask(&mut controller, 20);
    controller.respond_aws_at(&first, None, None, None, "one".to_owned(), now).unwrap();
    let second = ask(&mut controller, 30);
    controller.timeout_aws_request_at(&second, "two".to_owned(), now);
    let shown = snapshot(&mut controller);
    let ids: Vec<&str> = shown.aws_denials.iter().map(|denial| denial.id.as_str()).collect();
    assert_eq!(ids, vec!["one", "two"]);
    controller.revoke_aws_denial("one");
    let shown = snapshot(&mut controller);
    assert_eq!(shown.aws_denials.len(), 1);
    assert_eq!(shown.aws_denials[0].id, "two");
    ask(&mut controller, 20);
}

#[test]
fn requests_of_one_moment_stay_in_the_order_they_came() {
    let mut controller = open_controller();
    controller.save_secret("token", "secret", None, &encode, &discard).unwrap();
    for (id, at) in [("late", 9u64), ("first", 5), ("second", 5), ("early", 1)] {
        let tree = vec![process(20, "/usr/local/bin/tool")];
        controller.begin_request_at("token", tree, true, id.to_owned(), at).unwrap();
    }
    let shown = snapshot(&mut controller);
    let ids: Vec<&str> = shown.pending.iter().map(|request| request.id.as_str()).collect();
    assert_eq!(ids, vec!["early", "first", "second", "late"]);
}
