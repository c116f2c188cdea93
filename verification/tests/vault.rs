//! The vault with the real key derivation, cipher and encoding.

use std::cell::RefCell;

use secretd::aws::{
    AwsDiscoveredAccount, AwsOidcRegistration, AwsSettings, AwsSsoToken, AwsTarget,
};
use secretd::vault::{
    check_vault_metadata, normalize_secret_group, normalize_secret_name, CipherHeader, KdfHeader,
    SecretRecord, VaultEntry, VaultError, VaultFile, VaultPlaintext, VaultStore, MAX_VAULT_BYTES,
    PBKDF2_ITERATIONS,
};
use serde_json::Value;

/// Where the last vault file that was written is kept.
struct Disk {
    file: RefCell<Option<VaultFile>>,
}

impl Disk {
    fn new() -> Self {
        Disk { file: RefCell::new(None) }
    }

    fn write(&self, file: &VaultFile) -> Result<(), VaultError> {
        *self.file.borrow_mut() = Some(copied(file));
        Ok(())
    }

    fn read(&self) -> Result<VaultFile, VaultError> {
        match &*self.file.borrow() {
            Some(file) => Ok(copied(file)),
            None => Err(VaultError("Vault does not exist".to_owned())),
        }
    }
}

fn copied(file: &VaultFile) -> VaultFile {
    VaultFile {
        version: file.version,
        kdf: KdfHeader {
            name: file.kdf.name.clone(),
            hash: file.kdf.hash.clone(),
            iterations: file.kdf.iterations,
            salt: file.kdf.salt.clone(),
        },
        cipher: CipherHeader { name: file.cipher.name.clone(), iv: file.cipher.iv.clone() },
        ciphertext: file.ciphertext.clone(),
    }
}

fn object(fields: Vec<(&str, Value)>) -> Value {
    let mut map = serde_json::Map::new();
    for (name, value) in fields {
        map.insert(name.to_owned(), value);
    }
    Value::Object(map)
}

fn words(text: &str) -> Value {
    Value::String(text.to_owned())
}

fn encode(data: &VaultPlaintext) -> Result<Vec<u8>, String> {
    let mut secrets = serde_json::Map::new();
    for record in &data.secrets {
        let mut fields = vec![
            ("value", words(&record.entry.value)),
            ("createdAt", words(&record.entry.created_at)),
            ("updatedAt", words(&record.entry.updated_at)),
        ];
        if let Some(group) = &record.entry.group {
            fields.push(("group", words(group)));
        }
        secrets.insert(record.name.clone(), object(fields));
    }
    let mut fields = vec![
        ("version", Value::from(data.version)),
        ("revision", Value::from(data.revision)),
        ("secrets", Value::Object(secrets)),
    ];
    if let Some(aws) = &data.aws {
        fields.push(("aws", encode_aws(aws)));
    }
    serde_json::to_vec(&object(fields)).map_err(|error| error.to_string())
}

fn encode_aws(aws: &AwsSettings) -> Value {
    let targets = aws.targets.iter().map(|target| {
        object(vec![
            ("profile", words(&target.profile)),
            ("accountId", words(&target.account_id)),
            ("readOnlyRole", words(&target.read_only_role)),
            ("adminRole", words(&target.admin_role)),
            ("region", words(&target.region)),
        ])
    });
    let accounts = aws.discovered_accounts.iter().map(|account| {
        object(vec![
            ("accountId", words(&account.account_id)),
            ("accountName", words(&account.account_name)),
            ("emailAddress", words(&account.email_address)),
            ("roles", Value::Array(account.roles.iter().map(|role| words(role)).collect())),
        ])
    });
    let mut fields = vec![
        ("startUrl", words(&aws.start_url)),
        ("ssoRegion", words(&aws.sso_region)),
        ("targets", Value::Array(targets.collect())),
        ("discoveredAccounts", Value::Array(accounts.collect())),
        ("discoveryComplete", Value::from(aws.discovery_complete)),
    ];
    if let Some(registration) = &aws.registration {
        fields.push((
            "registration",
            object(vec![
                ("clientId", words(&registration.client_id)),
                ("clientSecret", words(&registration.client_secret)),
                ("clientSecretExpiresAt", Value::from(registration.client_secret_expires_at)),
            ]),
        ));
    }
    if let Some(token) = &aws.token {
        fields.push((
            "token",
            object(vec![
                ("accessToken", words(&token.access_token)),
                ("accessTokenExpiresAt", Value::from(token.access_token_expires_at)),
                ("refreshToken", words(&token.refresh_token)),
            ]),
        ));
    }
    object(fields)
}

fn text_of(value: &Value, name: &str) -> Option<String> {
    value.get(name)?.as_str().map(|text| text.to_owned())
}

fn parse(bytes: &Vec<u8>) -> Option<VaultPlaintext> {
    let value: Value = serde_json::from_slice(bytes).ok()?;
    let mut secrets = Vec::new();
    for (name, entry) in value.get("secrets")?.as_object()? {
        secrets.push(SecretRecord {
            name: name.clone(),
            entry: VaultEntry {
                value: text_of(entry, "value")?,
                group: text_of(entry, "group"),
                created_at: text_of(entry, "createdAt")?,
                updated_at: text_of(entry, "updatedAt")?,
            },
        });
    }
    let aws = match value.get("aws") {
        Some(aws) => Some(parse_aws(aws)?),
        None => None,
    };
    Some(VaultPlaintext {
        version: value.get("version")?.as_u64()? as u8,
        revision: value.get("revision")?.as_u64()?,
        secrets,
        aws,
    })
}

fn parse_aws(value: &Value) -> Option<AwsSettings> {
    let mut targets = Vec::new();
    for target in value.get("targets")?.as_array()? {
        targets.push(AwsTarget {
            profile: text_of(target, "profile")?,
            account_id: text_of(target, "accountId")?,
            read_only_role: text_of(target, "readOnlyRole")?,
            admin_role: text_of(target, "adminRole")?,
            region: text_of(target, "region")?,
        });
    }
    let mut discovered_accounts = Vec::new();
    for account in value.get("discoveredAccounts")?.as_array()? {
        let mut roles = Vec::new();
        for role in account.get("roles")?.as_array()? {
            roles.push(role.as_str()?.to_owned());
        }
        discovered_accounts.push(AwsDiscoveredAccount {
            account_id: text_of(account, "accountId")?,
            account_name: text_of(account, "accountName")?,
            email_address: text_of(account, "emailAddress")?,
            roles,
        });
    }
    let registration = match value.get("registration") {
        Some(registration) => Some(AwsOidcRegistration {
            client_id: text_of(registration, "clientId")?,
            client_secret: text_of(registration, "clientSecret")?,
            client_secret_expires_at: registration.get("clientSecretExpiresAt")?.as_u64()?,
        }),
        None => None,
    };
    let token = match value.get("token") {
        Some(token) => Some(AwsSsoToken {
            access_token: text_of(token, "accessToken")?,
            access_token_expires_at: token.get("accessTokenExpiresAt")?.as_u64()?,
            refresh_token: text_of(token, "refreshToken")?,
        }),
        None => None,
    };
    Some(AwsSettings {
        start_url: text_of(value, "startUrl")?,
        sso_region: text_of(value, "ssoRegion")?,
        targets,
        discovered_accounts,
        discovery_complete: value.get("discoveryComplete")?.as_bool()?,
        registration,
        token,
    })
}

fn message<T>(result: Result<T, VaultError>) -> String {
    match result {
        Ok(_) => panic!("nothing was refused"),
        Err(error) => error.to_string(),
    }
}

fn file_from(text: &str) -> VaultFile {
    let value: Value = serde_json::from_str(text).unwrap();
    VaultFile {
        version: value["version"].as_u64().unwrap() as u8,
        kdf: KdfHeader {
            name: value["kdf"]["name"].as_str().unwrap().to_owned(),
            hash: value["kdf"]["hash"].as_str().unwrap().to_owned(),
            iterations: value["kdf"]["iterations"].as_u64().unwrap() as u32,
            salt: value["kdf"]["salt"].as_str().unwrap().to_owned(),
        },
        cipher: CipherHeader {
            name: value["cipher"]["name"].as_str().unwrap().to_owned(),
            iv: value["cipher"]["iv"].as_str().unwrap().to_owned(),
        },
        ciphertext: value["ciphertext"].as_str().unwrap().to_owned(),
    }
}

const DENO_VAULT: &str = r#"{
  "version": 1,
  "kdf": {
    "name": "PBKDF2",
    "hash": "SHA-256",
    "iterations": 600000,
    "salt": "7nERh6PROz5ZPgpoZFBBwQ=="
  },
  "cipher": {
    "name": "AES-GCM",
    "iv": "KEsN6BDULJzxvHeX"
  },
  "ciphertext": "SKwkmOrsPmaNtzwGvqP4bkSEhtHIwUENc3vUyMM6yrge6TjiWT2+gjG6hWEyhIyoFM8i129i8SIzzloMhrEiFvqVlcmyOF2jxsN0F6iRcAsFWP+Ja+1CX/RcjaOqjL0igL+lFtMcFHaBSLXQqzjRlBw9vDzJ6MXbMZlXl9NDnp5CB4bawuHb9GMzwihcIsVDnmUp1eTPvskNkHLXn9b2m/XEZs8B5LYjnsIu0sKSsh+oOX2i0uWD8xiF0ykA4cxrpX+E1RXqbEoaeYhApz+awyz51g=="
}"#;

#[test]
fn round_trips_vault_and_changes_password() {
    let disk = Disk::new();
    let write = |file: &VaultFile| disk.write(file);
    let mut vault = VaultStore::new("vault.json".to_owned());
    vault.create("correct horse", Ok(false), &encode, &write).unwrap();
    vault
        .save_secret(" services/example ", "very secret", Some(" read-only "), &encode, &write)
        .unwrap();
    vault.lock();

    let mut reopened = VaultStore::new("vault.json".to_owned());
    reopened.unlock("correct horse", disk.read(), &parse).unwrap();
    assert_eq!(reopened.reveal_value("services/example").unwrap(), "very secret");
    assert_eq!(reopened.group("services/example").unwrap().as_deref(), Some("read-only"));
    reopened.change_password("different horse", &encode, &write).unwrap();
    reopened.lock();
    assert!(reopened.unlock("correct horse", disk.read(), &parse).is_err());
    reopened.unlock("different horse", disk.read(), &parse).unwrap();
}

#[test]
fn opens_vault_written_by_deno_implementation() {
    let mut vault = VaultStore::new("vault.json".to_owned());
    vault.unlock("correct horse", Ok(file_from(DENO_VAULT)), &parse).unwrap();
    assert_eq!(vault.reveal_value("services/github/token").unwrap(), "deno-secret");
    assert_eq!(
        vault.group("services/github/token").unwrap().as_deref(),
        Some("deployment-read-only")
    );
}

#[test]
fn rejects_invalid_names_and_groups() {
    assert_eq!(normalize_secret_name(" services/example ").unwrap(), "services/example");
    for name in ["", "a//b", "a/../b", "a/__proto__/b", "a\nb"] {
        assert!(normalize_secret_name(name).is_err(), "{name}");
    }
    assert_eq!(
        normalize_secret_group(" read-only ").unwrap().as_deref(),
        Some("read-only")
    );
    assert_eq!(normalize_secret_group(" ").unwrap(), None);
}

#[test]
fn names_are_refused_with_their_reason() {
    assert_eq!(message(normalize_secret_name(" ")), "Secret name is invalid");
    assert_eq!(message(normalize_secret_name(&"a".repeat(257))), "Secret name is invalid");
    assert!(normalize_secret_name(&"a".repeat(256)).is_ok());
    assert_eq!(
        message(normalize_secret_name("a\u{7}b")),
        "Secret name contains control characters"
    );
    assert_eq!(
        message(normalize_secret_name("a/./b")),
        "Secret name contains an invalid path segment"
    );
    assert_eq!(
        message(normalize_secret_name("prototype")),
        "Secret name contains a reserved path segment"
    );
    assert_eq!(normalize_secret_name("a\\b").unwrap(), "a/b");
    assert_eq!(message(normalize_secret_group(&"g".repeat(129))), "Secret group is invalid");
    assert_eq!(message(normalize_secret_group("a\u{1}b")), "Secret group is invalid");
}

#[test]
fn vault_files_are_looked_at_before_they_are_read() {
    assert!(check_vault_metadata(Ok((true, MAX_VAULT_BYTES))).is_ok());
    assert_eq!(
        message(check_vault_metadata(Ok((true, MAX_VAULT_BYTES + 1)))),
        "Vault file is invalid"
    );
    assert_eq!(message(check_vault_metadata(Ok((false, 10)))), "Vault file is invalid");
    assert_eq!(message(check_vault_metadata(Err(None))), "Vault does not exist");
    assert_eq!(message(check_vault_metadata(Err(Some("broken".to_owned())))), "broken");
    let vault = VaultStore::new("vault.json".to_owned());
    assert_eq!(vault.file_exists(Ok(true)).unwrap(), true);
    assert_eq!(vault.file_exists(Ok(false)).unwrap(), false);
    assert_eq!(vault.file_exists(Err(None)).unwrap(), false);
    assert_eq!(message(vault.file_exists(Err(Some("broken".to_owned())))), "broken");
}

#[test]
fn vaults_are_not_made_twice_or_under_short_passwords() {
    let disk = Disk::new();
    let write = |file: &VaultFile| disk.write(file);
    let mut vault = VaultStore::new("vault.json".to_owned());
    assert_eq!(
        message(vault.create("short!", Ok(false), &encode, &write)),
        "Master password must be at least 7 characters"
    );
    assert_eq!(
        message(vault.create("correct horse", Ok(true), &encode, &write)),
        "Vault already exists"
    );
    assert_eq!(
        message(vault.create(
            "correct horse",
            Err(VaultError("unreadable".to_owned())),
            &encode,
            &write
        )),
        "unreadable"
    );
    assert!(disk.file.borrow().is_none());
    assert!(!vault.unlocked());
}

#[test]
fn written_files_name_their_format() {
    let disk = Disk::new();
    let write = |file: &VaultFile| disk.write(file);
    let mut vault = VaultStore::new("vault.json".to_owned());
    vault.create("correct horse", Ok(false), &encode, &write).unwrap();
    let file = disk.read().unwrap();
    assert_eq!(file.version, 1);
    assert_eq!(file.kdf.name, "PBKDF2");
    assert_eq!(file.kdf.hash, "SHA-256");
    assert_eq!(file.kdf.iterations, PBKDF2_ITERATIONS);
    assert_eq!(file.cipher.name, "AES-GCM");
    // Sixteen bytes of salt and twelve of nonce in base64.
    assert_eq!(file.kdf.salt.len(), 24);
    assert_eq!(file.cipher.iv.len(), 16);
    assert!(!file.ciphertext.contains("secrets"));
}

#[test]
fn the_same_key_and_nonce_seal_the_same_text() {
    let disk = Disk::new();
    let write = |file: &VaultFile| disk.write(file);
    let salt = vec![7u8; 16];
    let nonce = vec![9u8; 12];
    let mut vault = VaultStore::new("vault.json".to_owned());
    vault
        .create_at("correct horse", Ok(false), Ok(salt.clone()), Ok(nonce.clone()), &encode, &write)
        .unwrap();
    let first = disk.read().unwrap();
    assert_eq!(first.kdf.salt, "BwcHBwcHBwcHBwcHBwcHBw==");
    assert_eq!(first.cipher.iv, "CQkJCQkJCQkJCQkJ");
    let mut again = VaultStore::new("vault.json".to_owned());
    again.create_at("correct horse", Ok(false), Ok(salt), Ok(nonce), &encode, &write).unwrap();
    assert_eq!(disk.read().unwrap().ciphertext, first.ciphertext);
}

#[test]
fn strange_vault_files_are_refused() {
    let mut vault = VaultStore::new("vault.json".to_owned());
    let unsupported = "Vault file has an unsupported format";
    let mut file = file_from(DENO_VAULT);
    file.version = 2;
    assert_eq!(message(vault.unlock("correct horse", Ok(file), &parse)), unsupported);
    let mut file = file_from(DENO_VAULT);
    file.kdf.hash = "SHA-1".to_owned();
    assert_eq!(message(vault.unlock("correct horse", Ok(file), &parse)), unsupported);
    let mut file = file_from(DENO_VAULT);
    file.kdf.iterations = 99_999;
    assert_eq!(message(vault.unlock("correct horse", Ok(file), &parse)), unsupported);
    let mut file = file_from(DENO_VAULT);
    file.cipher.name = "AES-CBC".to_owned();
    assert_eq!(message(vault.unlock("correct horse", Ok(file), &parse)), unsupported);
    assert_eq!(
        message(vault.unlock(
            "correct horse",
            Err(VaultError("Vault does not exist".to_owned())),
            &parse
        )),
        "Vault does not exist"
    );
    assert!(!vault.unlocked());
}

#[test]
fn a_changed_file_does_not_open() {
    let mut vault = VaultStore::new("vault.json".to_owned());
    let corrupted = "Invalid password or corrupted vault";
    let mut file = file_from(DENO_VAULT);
    let flipped = if file.ciphertext.starts_with('S') { "T" } else { "S" };
    file.ciphertext = format!("{flipped}{}", &file.ciphertext[1..]);
    assert_eq!(message(vault.unlock("correct horse", Ok(file), &parse)), corrupted);
    assert_eq!(
        message(vault.unlock("wrong horse", Ok(file_from(DENO_VAULT)), &parse)),
        corrupted
    );
    let mut file = file_from(DENO_VAULT);
    file.ciphertext = "not base64!".to_owned();
    assert_eq!(
        message(vault.unlock("correct horse", Ok(file), &parse)),
        "Vault ciphertext is invalid"
    );
    for salt in ["not base64!", "c2hvcnQ="] {
        let mut file = file_from(DENO_VAULT);
        file.kdf.salt = salt.to_owned();
        assert_eq!(
            message(vault.unlock("correct horse", Ok(file), &parse)),
            "Vault salt is invalid"
        );
    }
    for iv in ["not base64!", "c2hvcnQ="] {
        let mut file = file_from(DENO_VAULT);
        file.cipher.iv = iv.to_owned();
        assert_eq!(
            message(vault.unlock("correct horse", Ok(file), &parse)),
            "Vault IV is invalid"
        );
    }
    let nothing = |_: &Vec<u8>| None;
    assert_eq!(
        message(vault.unlock("correct horse", Ok(file_from(DENO_VAULT)), &nothing)),
        "Vault plaintext is invalid"
    );
    let newer = |bytes: &Vec<u8>| {
        let mut data = parse(bytes)?;
        data.version = 2;
        Some(data)
    };
    assert_eq!(
        message(vault.unlock("correct horse", Ok(file_from(DENO_VAULT)), &newer)),
        "Vault plaintext has an unsupported format"
    );
    assert!(!vault.unlocked());
}

#[test]
fn secrets_are_listed_renamed_and_deleted() {
    let disk = Disk::new();
    let write = |file: &VaultFile| disk.write(file);
    let mut vault = VaultStore::new("vault.json".to_owned());
    assert_eq!(message(vault.list()), "Vault is locked");
    vault.create("correct horse", Ok(false), &encode, &write).unwrap();
    vault.save_secret("b", "second", None, &encode, &write).unwrap();
    vault.save_secret("a", "first", Some("team"), &encode, &write).unwrap();
    let names: Vec<String> =
        vault.list().unwrap().into_iter().map(|secret| secret.name).collect();
    assert_eq!(names, vec!["a".to_owned(), "b".to_owned()]);
    assert_eq!(vault.list().unwrap()[0].group.as_deref(), Some("team"));

    assert_eq!(
        message(vault.rename("a", "b", &encode, &write)),
        "A secret with that name already exists"
    );
    vault.rename("a", "c", &encode, &write).unwrap();
    assert_eq!(vault.reveal_value("c").unwrap(), "first");
    assert_eq!(vault.group("c").unwrap().as_deref(), Some("team"));
    assert_eq!(message(vault.reveal_value("a")), "Secret not found");
    assert_eq!(message(vault.rename("a", "d", &encode, &write)), "Secret not found");

    vault.save_secret("c", "changed", None, &encode, &write).unwrap();
    assert_eq!(vault.group("c").unwrap().as_deref(), Some("team"));
    vault.delete("c", &encode, &write).unwrap();
    assert_eq!(message(vault.delete("c", &encode, &write)), "Secret not found");
    assert_eq!(vault.reveal_value("b").unwrap(), "second");
    vault.lock();
    assert_eq!(message(vault.reveal_value("b")), "Vault is locked");
    assert_eq!(message(vault.save_secret("b", "x", None, &encode, &write)), "Vault is locked");
}

#[test]
fn a_failed_write_is_reported() {
    let refuse = |_: &VaultFile| Err(VaultError("disk is full".to_owned()));
    let mut vault = VaultStore::new("vault.json".to_owned());
    assert_eq!(
        message(vault.create("correct horse", Ok(false), &encode, &refuse)),
        "disk is full"
    );
    assert!(!vault.unlocked());
    let stuck = |_: &VaultPlaintext| Err("no room".to_owned());
    let disk = Disk::new();
    let write = |file: &VaultFile| disk.write(file);
    assert_eq!(
        message(vault.create("correct horse", Ok(false), &stuck, &write)),
        "Could not encode vault: no room"
    );
}
