//! The encrypted vault: what it holds, how it is opened, and what it refuses.

use vstd::prelude::*;

use crate::aws;
use crate::aws::AwsSettings;
use crate::clock;
use crate::crypto;
use crate::numeral;
use crate::text;

verus! {

pub const VAULT_VERSION: u8 = 1;

pub const PBKDF2_ITERATIONS: u32 = 600_000;

pub const MIN_MASTER_PASSWORD_LENGTH: usize = 7;

/// The largest vault file that is read.
pub const MAX_VAULT_BYTES: u64 = 33_554_432;

pub const MIN_ITERATIONS: u32 = 100_000;

pub const MAX_ITERATIONS: u32 = 10_000_000;

/// Why a vault operation was refused.
#[derive(Debug, PartialEq, Eq)]
pub struct VaultError(pub String);

impl Clone for VaultError {
    fn clone(&self) -> (r: Self)
        ensures
            r == *self,
    {
        VaultError(self.0.clone())
    }
}

impl VaultError {
    pub fn to_string(&self) -> (r: String)
        ensures
            r == self.0,
    {
        self.0.clone()
    }
}

pub fn vault_error(message: &str) -> (r: VaultError)
    ensures
        r.0@ == message@,
{
    VaultError(message.to_owned())
}

/// What may be shown of a secret: everything but its value.
#[derive(Debug, PartialEq, Eq)]
pub struct SecretSummary {
    pub name: String,
    pub group: Option<String>,
    pub created_at: String,
    pub updated_at: String,
}

impl Clone for SecretSummary {
    fn clone(&self) -> (r: Self)
        ensures
            r == *self,
    {
        SecretSummary {
            name: self.name.clone(),
            group: self.group.clone(),
            created_at: self.created_at.clone(),
            updated_at: self.updated_at.clone(),
        }
    }
}

/// A secret value with what is kept about it.
#[derive(Debug)]
pub struct VaultEntry {
    pub value: String,
    pub group: Option<String>,
    pub created_at: String,
    pub updated_at: String,
}

/// A secret under its name.
#[derive(Debug)]
pub struct SecretRecord {
    pub name: String,
    pub entry: VaultEntry,
}

/// What the vault encrypts.
#[derive(Debug)]
pub struct VaultPlaintext {
    pub version: u8,
    pub revision: u64,
    pub secrets: Vec<SecretRecord>,
    pub aws: Option<AwsSettings>,
}

/// What is stored: the ciphertext and all that is needed to open it but the
/// password.
#[derive(Debug)]
pub struct VaultFile {
    pub version: u8,
    pub kdf: KdfHeader,
    pub cipher: CipherHeader,
    pub ciphertext: String,
}

#[derive(Debug)]
pub struct KdfHeader {
    pub name: String,
    pub hash: String,
    pub iterations: u32,
    pub salt: String,
}

#[derive(Debug)]
pub struct CipherHeader {
    pub name: String,
    pub iv: String,
}

/// The secrets of a list by name; of two with one name the later counts.
pub open spec fn entries(records: Seq<SecretRecord>) -> Map<Seq<char>, VaultEntry>
    decreases records.len(),
{
    if records.len() == 0 {
        Map::empty()
    } else {
        entries(records.drop_last()).insert(records.last().name@, records.last().entry)
    }
}

/// Whether the names of a list ascend, so that none occurs twice.
pub open spec fn sorted(records: Seq<SecretRecord>) -> bool {
    forall|i: int, j: int|
        0 <= i < j < records.len() ==> text::precedes(
            (#[trigger] records[i]).name@,
            (#[trigger] records[j]).name@,
        )
}

/// In a list with ascending names each name leads to its own entry.
pub proof fn entries_of_sorted(records: Seq<SecretRecord>)
    requires
        sorted(records),
    ensures
        forall|i: int|
            0 <= i < records.len() ==> entries(records).contains_pair(
                (#[trigger] records[i]).name@,
                records[i].entry,
            ),
        forall|name: Seq<char>| #[trigger]
            entries(records).dom().contains(name) ==> exists|i: int|
                0 <= i < records.len() && (#[trigger] records[i]).name@ == name,
    decreases records.len(),
{
    if records.len() > 0 {
        let before = records.drop_last();
        assert forall|i: int, j: int| 0 <= i < j < before.len() implies text::precedes(
            (#[trigger] before[i]).name@,
            (#[trigger] before[j]).name@,
        ) by {
            assert(before[i] == records[i] && before[j] == records[j]);
        }
        entries_of_sorted(before);
        assert forall|i: int| 0 <= i < records.len() implies entries(records).contains_pair(
            (#[trigger] records[i]).name@,
            records[i].entry,
        ) by {
            if i < before.len() {
                assert(before[i] == records[i]);
                assert(text::precedes(records[i].name@, records.last().name@));
                text::precedes_irreflexive(records[i].name@);
            }
        }
        assert forall|name: Seq<char>| #[trigger]
            entries(records).dom().contains(name) implies exists|i: int|
            0 <= i < records.len() && (#[trigger] records[i]).name@ == name by {
            if name == records.last().name@ {
                assert(records[records.len() - 1].name@ == name);
            } else {
                assert(entries(before).dom().contains(name));
                let i = choose|i: int|
                    0 <= i < before.len() && (#[trigger] before[i]).name@ == name;
                assert(records[i].name@ == name);
            }
        }
    }
}

/// The position of a name in a list with ascending names.
fn lookup(records: &Vec<SecretRecord>, name: &str) -> (r: Option<usize>)
    requires
        sorted(records@),
    ensures
        match r {
            Some(i) => i < records@.len() && records@[i as int].name@ == name@ && entries(
                records@,
            ).contains_pair(name@, records@[i as int].entry),
            None => !entries(records@).dom().contains(name@),
        },
{
    proof {
        entries_of_sorted(records@);
    }
    for i in 0..records.len()
        invariant
            forall|i: int|
                0 <= i < records@.len() ==> entries(records@).contains_pair(
                    (#[trigger] records@[i]).name@,
                    records@[i].entry,
                ),
            forall|j: int| 0 <= j < i ==> (#[trigger] records@[j]).name@ != name@,
    {
        if text::str_eq(records[i].name.as_str(), name) {
            return Some(i);
        }
    }
    None
}

/// Puts an entry under a name, in place of one that is there.
fn put(records: &mut Vec<SecretRecord>, name: String, entry: VaultEntry)
    requires
        sorted(old(records)@),
    ensures
        sorted(final(records)@),
        entries(final(records)@) == entries(old(records)@).insert(name@, entry),
{
    let ghost before = records@;
    let ghost record = SecretRecord { name, entry };
    match take(records, name.as_str()) {
        Some(mut old_entry) => {
            crypto::wipe_text(&mut old_entry.value);
        },
        None => {},
    }
    let ghost rest = records@;
    let n: usize = records.len();
    let mut at: usize = 0;
    while at < n && text::str_precedes(records[at].name.as_str(), name.as_str())
        invariant
            n == records@.len(),
            records@ == rest,
            at <= n,
            forall|j: int| 0 <= j < at ==> text::precedes((#[trigger] rest[j]).name@, name@),
        decreases n - at,
    {
        at = at + 1;
    }
    proof {
        entries_of_sorted(rest);
        let after = rest.insert(at as int, record);
        assert forall|j: int| at <= j < rest.len() implies text::precedes(
            name@,
            (#[trigger] rest[j]).name@,
        ) by {
            assert(rest[j].name@ != name@) by {
                assert(entries(rest).dom().contains(rest[j].name@));
            }
            text::precedes_total(rest[at as int].name@, name@);
            assert(rest[at as int].name@ != name@) by {
                assert(entries(rest).dom().contains(rest[at as int].name@));
            }
            if j > at {
                assert(text::precedes(rest[at as int].name@, rest[j].name@));
                text::precedes_transitive(name@, rest[at as int].name@, rest[j].name@);
            }
        }
        assert forall|i: int, j: int| 0 <= i < j < after.len() implies text::precedes(
            (#[trigger] after[i]).name@,
            (#[trigger] after[j]).name@,
        ) by {
            let left = if i < at {
                after[i] == rest[i]
            } else {
                i == at || after[i] == rest[i - 1]
            };
            let right = if j < at {
                after[j] == rest[j]
            } else {
                j == at || after[j] == rest[j - 1]
            };
            assert(left && right);
        }
        insertion(rest, at as int, record);
    }
    records.insert(at, SecretRecord { name, entry });
    assert(entries(records@) =~= entries(before).insert(name@, entry));
}

/// Inserting a record into a list inserts its entry.
proof fn insertion(records: Seq<SecretRecord>, at: int, record: SecretRecord)
    requires
        0 <= at <= records.len(),
        sorted(records),
        sorted(records.insert(at, record)),
    ensures
        entries(records.insert(at, record)) == entries(records).insert(
            record.name@,
            record.entry,
        ),
{
    let after = records.insert(at, record);
    entries_of_sorted(records);
    entries_of_sorted(after);
    let expected = entries(records).insert(record.name@, record.entry);
    assert forall|name: Seq<char>| expected.dom().contains(name) implies #[trigger] entries(
        after,
    ).contains_pair(name, expected[name]) by {
        if name == record.name@ {
            assert(after[at] == record);
        } else {
            assert(entries(records).dom().contains(name));
            let i = choose|i: int| 0 <= i < records.len() && (#[trigger] records[i]).name@ == name;
            if i < at {
                assert(after[i] == records[i]);
            } else {
                assert(after[i + 1] == records[i]);
            }
        }
    }
    assert forall|name: Seq<char>| #[trigger] entries(after).dom().contains(name) implies expected.dom().contains(
        name,
    ) by {
        let i = choose|i: int| 0 <= i < after.len() && (#[trigger] after[i]).name@ == name;
        if i < at {
            assert(after[i] == records[i]);
        } else if i > at {
            assert(after[i] == records[i - 1]);
        }
    }
    assert forall|name: Seq<char>| #[trigger] expected.dom().contains(name) implies entries(
        after,
    ).dom().contains(name) && entries(after)[name] == expected[name] by {
        assert(entries(after).contains_pair(name, expected[name]));
    }
    assert(entries(after) =~= expected);
}

/// Takes the entry under a name out.
fn take(records: &mut Vec<SecretRecord>, name: &str) -> (r: Option<VaultEntry>)
    requires
        sorted(old(records)@),
    ensures
        sorted(final(records)@),
        entries(final(records)@) == entries(old(records)@).remove(name@),
        match r {
            Some(entry) => entries(old(records)@).contains_pair(name@, entry),
            None => !entries(old(records)@).dom().contains(name@) && *final(records) == *old(
                records,
            ),
        },
{
    let ghost before = records@;
    match lookup(records, name) {
        Some(i) => {
            let record = records.remove(i);
            proof {
                let after = records@;
                assert(after =~= before.remove(i as int));
                assert forall|a: int, b: int| 0 <= a < b < after.len() implies text::precedes(
                    (#[trigger] after[a]).name@,
                    (#[trigger] after[b]).name@,
                ) by {
                    let left = if a < i {
                        a
                    } else {
                        a + 1
                    };
                    let right = if b < i {
                        b
                    } else {
                        b + 1
                    };
                    assert(after[a] == before[left] && after[b] == before[right]);
                }
                assert(before =~= after.insert(i as int, record));
                insertion(after, i as int, record);
                entries_of_sorted(after);
                assert(!entries(after).dom().contains(name@)) by {
                    if entries(after).dom().contains(name@) {
                        let k = choose|k: int|
                            0 <= k < after.len() && (#[trigger] after[k]).name@ == name@;
                        let other = if k < i {
                            k
                        } else {
                            k + 1
                        };
                        assert(before[other].name@ == name@);
                        assert(before[i as int].name@ == name@);
                        text::precedes_irreflexive(name@);
                    }
                }
                assert(entries(after) =~= entries(before).remove(name@));
            }
            Some(record.entry)
        },
        None => {
            assert(entries(before) =~= entries(before).remove(name@));
            None
        },
    }
}

/// A list with ascending names that holds the same secrets as any list.
fn table_of(records: Vec<SecretRecord>) -> (r: Vec<SecretRecord>)
    ensures
        sorted(r@),
        entries(r@) == entries(records@),
{
    let ghost all = records@;
    let ghost mut done: int = 0;
    let mut rest = records;
    let mut r: Vec<SecretRecord> = Vec::new();
    assert(all.skip(0) =~= all);
    while rest.len() > 0
        invariant
            0 <= done <= all.len(),
            rest@ == all.skip(done),
            sorted(r@),
            entries(r@) == entries(all.take(done)),
        decreases rest@.len(),
    {
        let record = rest.remove(0);
        proof {
            assert(record == all[done]);
            assert(all.take(done + 1).drop_last() =~= all.take(done));
            assert(rest@ =~= all.skip(done + 1));
            done = done + 1;
        }
        put(&mut r, record.name, record.entry);
    }
    assert(all.take(done) =~= all);
    r
}

/// Whether a segment of a name is empty or moves within a path.
pub open spec fn is_empty_or_dots(segment: Seq<char>) -> bool {
    segment.len() == 0 || segment == "."@ || segment == ".."@
}

/// Whether a segment of a name is reserved.
pub open spec fn is_reserved(segment: Seq<char>) -> bool {
    segment == "__proto__"@ || segment == "prototype"@ || segment == "constructor"@
}

/// The complaint about one segment of a name.
pub open spec fn segment_error(segment: Seq<char>) -> Option<Seq<char>> {
    if is_empty_or_dots(segment) {
        Some("Secret name contains an invalid path segment"@)
    } else if is_reserved(segment) {
        Some("Secret name contains a reserved path segment"@)
    } else {
        None
    }
}

/// The first complaint about the segments of a name.
pub open spec fn segments_error(segments: Seq<Seq<char>>) -> Option<Seq<char>>
    decreases segments.len(),
{
    if segments.len() == 0 {
        None
    } else {
        match segments_error(segments.drop_last()) {
            Some(error) => Some(error),
            None => segment_error(segments.last()),
        }
    }
}

/// A name as it is written in the vault: trimmed, with forward slashes.
pub open spec fn plain_name(name: Seq<char>) -> Seq<char> {
    text::replaced(text::trimmed(name), '\\', '/')
}

/// The name under which a secret is kept, or the complaint about it.
pub open spec fn normalized_name(name: Seq<char>) -> Result<Seq<char>, Seq<char>> {
    let plain = plain_name(name);
    if plain.len() == 0 || plain.len() > 256 {
        Err("Secret name is invalid"@)
    } else if text::has_control(plain) {
        Err("Secret name contains control characters"@)
    } else {
        match segments_error(text::split_on(plain, '/')) {
            Some(error) => Err(error),
            None => Ok(plain),
        }
    }
}

proof fn segments_error_lasts(segments: Seq<Seq<char>>, n: int)
    requires
        0 <= n <= segments.len(),
        segments_error(segments.take(n)) is Some,
    ensures
        segments_error(segments) == segments_error(segments.take(n)),
    decreases segments.len(),
{
    if n < segments.len() {
        assert(segments.drop_last().take(n) =~= segments.take(n));
        segments_error_lasts(segments.drop_last(), n);
    } else {
        assert(segments.take(n) =~= segments);
    }
}

fn check_segments(name: &str) -> (r: Result<(), VaultError>)
    ensures
        match r {
            Ok(()) => segments_error(text::split_on(name@, '/')) is None,
            Err(error) => segments_error(text::split_on(name@, '/')) == Some(error.0@),
        },
{
    let segments = text::split_char(name, '/');
    let ghost all = text::split_on(name@, '/');
    for i in 0..segments.len()
        invariant
            all == text::split_on(name@, '/'),
            all == text::views(segments@),
            segments_error(all.take(i as int)) is None,
    {
        let segment = segments[i].as_str();
        assert(all[i as int] == segment@);
        assert(all.take(i + 1).drop_last() =~= all.take(i as int));
        if segment.is_empty() || text::str_eq(segment, ".") || text::str_eq(segment, "..") {
            proof {
                segments_error_lasts(all, i + 1);
            }
            return Err(vault_error("Secret name contains an invalid path segment"));
        }
        if text::str_eq(segment, "__proto__") || text::str_eq(segment, "prototype")
            || text::str_eq(segment, "constructor") {
            proof {
                segments_error_lasts(all, i + 1);
            }
            return Err(vault_error("Secret name contains a reserved path segment"));
        }
    }
    assert(all.take(segments@.len() as int) =~= all);
    Ok(())
}

/// The name under which a secret is kept.
pub fn normalize_secret_name(name: &str) -> (r: Result<String, VaultError>)
    ensures
        match r {
            Ok(normalized) => normalized_name(name@) == Ok::<Seq<char>, Seq<char>>(normalized@),
            Err(error) => normalized_name(name@) == Err::<Seq<char>, Seq<char>>(error.0@),
        },
{
    let trimmed = text::trim(name);
    let normalized = text::replace_char(trimmed.as_str(), '\\', '/');
    if normalized.as_str().is_empty() || text::char_count(normalized.as_str()) > 256 {
        return Err(vault_error("Secret name is invalid"));
    }
    if text::contains_control(normalized.as_str()) {
        return Err(vault_error("Secret name contains control characters"));
    }
    match check_segments(normalized.as_str()) {
        Ok(()) => Ok(normalized),
        Err(error) => Err(error),
    }
}

/// The group of a secret as it is kept, none where it is blank, or the
/// complaint about it.
pub open spec fn normalized_group(group: Seq<char>) -> Result<Option<Seq<char>>, Seq<char>> {
    let trimmed = text::trimmed(group);
    if trimmed.len() == 0 {
        Ok(None)
    } else if trimmed.len() > 128 || text::has_control(trimmed) {
        Err("Secret group is invalid"@)
    } else {
        Ok(Some(trimmed))
    }
}

/// The characters of a group, if there is one.
pub open spec fn group_view(group: Option<String>) -> Option<Seq<char>> {
    match group {
        Some(group) => Some(group@),
        None => None,
    }
}

pub fn normalize_secret_group(group: &str) -> (r: Result<Option<String>, VaultError>)
    ensures
        match r {
            Ok(normalized) => normalized_group(group@) == Ok::<Option<Seq<char>>, Seq<char>>(
                group_view(normalized),
            ),
            Err(error) => normalized_group(group@) == Err::<Option<Seq<char>>, Seq<char>>(
                error.0@,
            ),
        },
{
    let normalized = text::trim(group);
    if normalized.as_str().is_empty() {
        return Ok(None);
    }
    if text::char_count(normalized.as_str()) > 128 || text::contains_control(
        normalized.as_str(),
    ) {
        return Err(vault_error("Secret group is invalid"));
    }
    Ok(Some(normalized))
}

/// The complaint about a password that is too short.
pub open spec fn password_message() -> Seq<char> {
    "Master password must be at least "@ + numeral::decimal(MIN_MASTER_PASSWORD_LENGTH as nat)
        + " characters"@
}

/// Whether a password is long enough.
pub open spec fn is_password(password: Seq<char>) -> bool {
    password.len() >= MIN_MASTER_PASSWORD_LENGTH
}

fn validate_password(password: &str) -> (r: Result<(), VaultError>)
    ensures
        r is Ok <==> is_password(password@),
        r matches Err(error) ==> error.0@ == password_message(),
{
    if text::char_count(password) < MIN_MASTER_PASSWORD_LENGTH {
        let start = text::concat(
            "Master password must be at least ",
            numeral::u64_text(MIN_MASTER_PASSWORD_LENGTH as u64).as_str(),
        );
        return Err(VaultError(text::concat(start.as_str(), " characters")));
    }
    Ok(())
}

/// The key that a password gives with a salt.
pub open spec fn password_key(password: Seq<char>, salt: Seq<u8>, iterations: u32) -> Seq<u8> {
    crypto::pbkdf2_sha256(vstd::utf8::encode_utf8(password), salt, iterations)
}

/// Whether a number of iterations is neither too cheap nor too slow.
pub open spec fn valid_iterations(iterations: u32) -> bool {
    MIN_ITERATIONS <= iterations <= MAX_ITERATIONS
}

fn derive_key(password: &str, salt: &Vec<u8>, iterations: u32) -> (r: Result<Vec<u8>, VaultError>)
    ensures
        match r {
            Ok(key) => valid_iterations(iterations) && key@.len() == 32 && key@ == password_key(
                password@,
                salt@,
                iterations,
            ),
            Err(error) => !valid_iterations(iterations) && error.0@
                == "Vault KDF parameters are invalid"@,
        },
{
    if iterations < MIN_ITERATIONS || iterations > MAX_ITERATIONS {
        return Err(vault_error("Vault KDF parameters are invalid"));
    }
    Ok(crypto::derive(password.as_bytes(), salt.as_slice(), iterations))
}

/// Whether a file says that it is in the one format that is read.
pub open spec fn supported(file: VaultFile) -> bool {
    &&& file.version == VAULT_VERSION
    &&& file.kdf.name@ == "PBKDF2"@
    &&& file.kdf.hash@ == "SHA-256"@
    &&& valid_iterations(file.kdf.iterations)
    &&& file.cipher.name@ == "AES-GCM"@
}

fn validate_header(file: &VaultFile) -> (r: Result<(), VaultError>)
    ensures
        r is Ok <==> supported(*file),
        r matches Err(error) ==> error.0@ == "Vault file has an unsupported format"@,
{
    if file.version != VAULT_VERSION || !text::str_eq(file.kdf.name.as_str(), "PBKDF2")
        || !text::str_eq(file.kdf.hash.as_str(), "SHA-256") || file.kdf.iterations
        < MIN_ITERATIONS || file.kdf.iterations > MAX_ITERATIONS || !text::str_eq(
        file.cipher.name.as_str(),
        "AES-GCM",
    ) {
        return Err(vault_error("Vault file has an unsupported format"));
    }
    Ok(())
}

/// The complaint about one record of a decrypted vault.
pub open spec fn record_error(record: SecretRecord) -> Option<Seq<char>> {
    entry_error(record.name@, record.entry)
}

/// The complaint about an entry under a name.
pub open spec fn entry_error(name: Seq<char>, entry: VaultEntry) -> Option<Seq<char>> {
    match normalized_name(name) {
        Err(error) => Some(error),
        Ok(_) => match entry.group {
            None => None,
            Some(group) => match normalized_group(group@) {
                Err(error) => Some(error),
                Ok(_) => None,
            },
        },
    }
}

/// The first complaint about the records of a decrypted vault.
pub open spec fn records_error(records: Seq<SecretRecord>) -> Option<Seq<char>>
    decreases records.len(),
{
    if records.len() == 0 {
        None
    } else {
        match records_error(records.drop_last()) {
            Some(error) => Some(error),
            None => record_error(records.last()),
        }
    }
}

/// Whether no name and no group of the secrets gives reason to complain.
pub open spec fn valid_entries(m: Map<Seq<char>, VaultEntry>) -> bool {
    forall|name: Seq<char>| #[trigger] m.dom().contains(name) ==> entry_error(name, m[name]) is None
}

/// A list with ascending names gives no complaint exactly where its secrets
/// give none.
pub proof fn records_are_valid(records: Seq<SecretRecord>)
    requires
        sorted(records),
    ensures
        records_error(records) is None <==> valid_entries(entries(records)),
    decreases records.len(),
{
    entries_of_sorted(records);
    if records.len() > 0 {
        let before = records.drop_last();
        assert forall|i: int, j: int| 0 <= i < j < before.len() implies text::precedes(
            (#[trigger] before[i]).name@,
            (#[trigger] before[j]).name@,
        ) by {
            assert(before[i] == records[i] && before[j] == records[j]);
        }
        records_are_valid(before);
        entries_of_sorted(before);
        let last = records.last();
        assert(records[records.len() - 1] == last);
        assert(!entries(before).dom().contains(last.name@)) by {
            if entries(before).dom().contains(last.name@) {
                let i = choose|i: int|
                    0 <= i < before.len() && (#[trigger] before[i]).name@ == last.name@;
                assert(text::precedes(records[i].name@, last.name@));
                text::precedes_irreflexive(last.name@);
            }
        }
        if valid_entries(entries(records)) {
            assert forall|name: Seq<char>| #[trigger]
                entries(before).dom().contains(name) implies entry_error(
                name,
                entries(before)[name],
            ) is None by {
                assert(entries(records).dom().contains(name));
            }
            assert(entries(records).dom().contains(last.name@));
        }
        if records_error(records) is None {
            assert forall|name: Seq<char>| #[trigger]
                entries(records).dom().contains(name) implies entry_error(
                name,
                entries(records)[name],
            ) is None by {
                if name != last.name@ {
                    assert(entries(before).dom().contains(name));
                }
            }
        }
    }
}

/// A name in the form in which it is kept is kept as it is.
pub proof fn normalizing_names_is_stable(name: Seq<char>)
    ensures
        normalized_name(name) matches Ok(kept) ==> normalized_name(kept) == Ok::<
            Seq<char>,
            Seq<char>,
        >(kept),
{
    let trimmed = text::trimmed(name);
    let plain = plain_name(name);
    text::trimming_is_stable(name);
    if plain.len() > 0 {
        assert(plain[0] == if trimmed[0] == '\\' {
            '/'
        } else {
            trimmed[0]
        });
        assert(plain.last() == if trimmed.last() == '\\' {
            '/'
        } else {
            trimmed.last()
        });
    }
    text::trimming_is_stable(plain);
    assert(text::replaced(plain, '\\', '/') =~= plain);
}

/// A group in the form in which it is kept is kept as it is.
pub proof fn normalizing_groups_is_stable(group: Seq<char>)
    ensures
        normalized_group(group) matches Ok(Some(kept)) ==> normalized_group(kept) == Ok::<
            Option<Seq<char>>,
            Seq<char>,
        >(Some(kept)),
{
    text::trimming_is_stable(group);
}

/// The complaint about a decrypted vault.
pub open spec fn plaintext_error(version: u8, records: Seq<SecretRecord>) -> Option<Seq<char>> {
    if version != VAULT_VERSION {
        Some("Vault plaintext has an unsupported format"@)
    } else {
        records_error(records)
    }
}

proof fn records_error_lasts(records: Seq<SecretRecord>, n: int)
    requires
        0 <= n <= records.len(),
        records_error(records.take(n)) is Some,
    ensures
        records_error(records) == records_error(records.take(n)),
    decreases records.len(),
{
    if n < records.len() {
        assert(records.drop_last().take(n) =~= records.take(n));
        records_error_lasts(records.drop_last(), n);
    } else {
        assert(records.take(n) =~= records);
    }
}

fn check_record(record: &SecretRecord) -> (r: Result<(), VaultError>)
    ensures
        match r {
            Ok(()) => record_error(*record) is None,
            Err(error) => record_error(*record) == Some(error.0@),
        },
{
    match normalize_secret_name(record.name.as_str()) {
        Ok(_) => {},
        Err(error) => {
            return Err(error);
        },
    }
    match &record.entry.group {
        Some(group) => match normalize_secret_group(group.as_str()) {
            Ok(_) => Ok(()),
            Err(error) => Err(error),
        },
        None => Ok(()),
    }
}

fn validate_plaintext(data: &VaultPlaintext) -> (r: Result<(), VaultError>)
    ensures
        match r {
            Ok(()) => plaintext_error(data.version, data.secrets@) is None,
            Err(error) => plaintext_error(data.version, data.secrets@) == Some(error.0@),
        },
{
    if data.version != VAULT_VERSION {
        return Err(vault_error("Vault plaintext has an unsupported format"));
    }
    let records = &data.secrets;
    for i in 0..records.len()
        invariant
            data.version == VAULT_VERSION,
            *records == data.secrets,
            records_error(records@.take(i as int)) is None,
    {
        assert(records@.take(i + 1).drop_last() =~= records@.take(i as int));
        match check_record(&records[i]) {
            Ok(()) => {},
            Err(error) => {
                proof {
                    records_error_lasts(records@, i + 1);
                }
                return Err(error);
            },
        }
    }
    assert(records@.take(records@.len() as int) =~= records@);
    Ok(())
}

/// What the ciphertext is bound to beside the key: the format and the key
/// derivation.
pub open spec fn bound_text(
    version: u8,
    name: Seq<char>,
    hash: Seq<char>,
    iterations: u32,
    salt: Seq<char>,
) -> Seq<char> {
    "secretd:"@ + numeral::decimal(version as nat) + ":"@ + name + ":"@ + hash + ":"@
        + numeral::decimal(iterations as nat) + ":"@ + salt
}

/// The associated data of a file.
pub open spec fn associated(file: VaultFile) -> Seq<u8> {
    vstd::utf8::encode_utf8(
        bound_text(
            file.version,
            file.kdf.name@,
            file.kdf.hash@,
            file.kdf.iterations,
            file.kdf.salt@,
        ),
    )
}

fn additional_data(version: u8, kdf: &KdfHeader) -> (r: String)
    ensures
        r@ == bound_text(version, kdf.name@, kdf.hash@, kdf.iterations, kdf.salt@),
{
    let mut r = "secretd:".to_owned();
    r.append(numeral::u64_text(version as u64).as_str());
    r.append(":");
    r.append(kdf.name.as_str());
    r.append(":");
    r.append(kdf.hash.as_str());
    r.append(":");
    r.append(numeral::u64_text(kdf.iterations as u64).as_str());
    r.append(":");
    r.append(kdf.salt.as_str());
    r
}

/// Whether a file is what saving `bytes` makes: in the supported format, and
/// what it holds opens with the key to exactly those bytes.
pub open spec fn seals(
    file: VaultFile,
    key: Seq<u8>,
    salt: Seq<u8>,
    iterations: u32,
    nonce: Seq<u8>,
    bytes: Seq<u8>,
) -> bool {
    &&& file.version == VAULT_VERSION
    &&& file.kdf.name@ == "PBKDF2"@
    &&& file.kdf.hash@ == "SHA-256"@
    &&& file.kdf.iterations == iterations
    &&& file.kdf.salt@ == crypto::base64_encoded(salt)
    &&& crypto::base64_decoded(file.kdf.salt@) == Some(salt)
    &&& file.cipher.name@ == "AES-GCM"@
    &&& file.cipher.iv@ == crypto::base64_encoded(nonce)
    &&& crypto::base64_decoded(file.cipher.iv@) == Some(nonce)
    &&& ({
        let sealed = crypto::gcm_sealed(key, nonce, bytes, associated(file));
        &&& file.ciphertext@ == crypto::base64_encoded(sealed)
        &&& crypto::base64_decoded(file.ciphertext@) == Some(sealed)
        &&& sealed.len() == bytes.len() + 16
        &&& crypto::gcm_opened(key, nonce, sealed, associated(file)) == Some(bytes)
    })
}

/// How many bytes a ciphertext is bound to: those of the format and the key
/// derivation, with the salt in Base64.
pub open spec fn bound_length(iterations: u32, salt: Seq<u8>) -> nat {
    bound_text(VAULT_VERSION, "PBKDF2"@, "SHA-256"@, iterations, Seq::empty()).len()
        + crypto::base64_length(salt.len())
}

/// Whether there is more to encrypt than can be.
pub open spec fn exceeds(bytes: Seq<u8>, iterations: u32, salt: Seq<u8>) -> bool {
    ||| bytes.len() > crypto::MAX_MESSAGE_BYTES
    ||| bound_length(iterations, salt) > crypto::MAX_ASSOCIATED_BYTES
}

/// What a ciphertext is bound to takes one byte for each character.
proof fn bound_bytes(iterations: u32, salt: Seq<u8>, shown: Seq<char>)
    requires
        shown.len() == crypto::base64_length(salt.len()),
        vstd::utf8::is_ascii_chars(shown),
    ensures
        vstd::utf8::encode_utf8(
            bound_text(VAULT_VERSION, "PBKDF2"@, "SHA-256"@, iterations, shown),
        ).len() == bound_length(iterations, salt),
{
    let all = bound_text(VAULT_VERSION, "PBKDF2"@, "SHA-256"@, iterations, shown);
    reveal_strlit("secretd:");
    reveal_strlit(":");
    reveal_strlit("PBKDF2");
    reveal_strlit("SHA-256");
    iterations_length(iterations);
    assert(vstd::utf8::is_ascii_chars(all));
    vstd::utf8::is_ascii_chars_encode_utf8(all);
}

/// The number of rounds takes at most ten digits.
proof fn iterations_length(iterations: u32)
    ensures
        vstd::utf8::is_ascii_chars(numeral::decimal(iterations as nat)),
        numeral::decimal(iterations as nat).len() <= 10,
{
    reveal_with_fuel(vstd::arithmetic::power::pow, 11);
    numeral::decimal_length(iterations as nat, 10);
}

/// No vault is too large on account of its salt: a message that AES-GCM takes
/// is never refused, unless the salt has more than half as many bytes as
/// AES-GCM takes of associated data.
pub proof fn ordinary_vaults_fit(bytes: Seq<u8>, iterations: u32, salt: Seq<u8>)
    requires
        bytes.len() <= crypto::MAX_MESSAGE_BYTES,
        salt.len() <= crypto::MAX_ASSOCIATED_BYTES / 2,
    ensures
        !exceeds(bytes, iterations, salt),
{
    reveal_strlit("secretd:");
    reveal_strlit(":");
    reveal_strlit("PBKDF2");
    reveal_strlit("SHA-256");
    iterations_length(iterations);
}

/// Whether fresh bytes, if any could be had, can serve as a nonce.
pub open spec fn is_nonce(nonce: Result<Vec<u8>, VaultError>) -> bool {
    nonce matches Ok(bytes) ==> bytes@.len() == 12
}

/// Whether fresh bytes, if any could be had, can serve as a salt.
pub open spec fn is_salt(salt: Result<Vec<u8>, VaultError>) -> bool {
    salt matches Ok(bytes) ==> bytes@.len() == 16
}

/// The outcome of saving: no nonce, no encoding, or too much to encrypt is an
/// error; else the sealed file is written, and the outcome is that of writing
/// it.
pub open spec fn save_outcome<
    E: Fn(&VaultPlaintext) -> Result<Vec<u8>, String>,
    W: Fn(&VaultFile) -> Result<(), VaultError>,
>(
    data: VaultPlaintext,
    key: Seq<u8>,
    salt: Seq<u8>,
    iterations: u32,
    nonce: Result<Vec<u8>, VaultError>,
    encode: E,
    write: W,
    r: Result<(), VaultError>,
) -> bool {
    match nonce {
        Err(error) => r == Err::<(), VaultError>(error),
        Ok(iv) => exists|encoded: Result<Vec<u8>, String>|
            #![trigger call_ensures(encode, (&data,), encoded)]
            call_ensures(encode, (&data,), encoded) && match encoded {
                Err(message) => r is Err && r->Err_0.0@ == "Could not encode vault: "@ + message@,
                Ok(bytes) => if exceeds(bytes@, iterations, salt) {
                    r is Err && r->Err_0.0@ == "Could not encrypt vault"@
                } else {
                    exists|file: VaultFile|
                        #![trigger call_ensures(write, (&file,), r)]
                        seals(file, key, salt, iterations, iv@, bytes@) && call_ensures(
                            write,
                            (&file,),
                            r,
                        )
                },
            },
    }
}

/// Encrypts and writes a vault.
fn save_with<
    E: Fn(&VaultPlaintext) -> Result<Vec<u8>, String>,
    W: Fn(&VaultFile) -> Result<(), VaultError>,
>(
    data: &VaultPlaintext,
    key: &Vec<u8>,
    salt: &Vec<u8>,
    iterations: u32,
    nonce: Result<Vec<u8>, VaultError>,
    encode: &E,
    write: &W,
) -> (r: Result<(), VaultError>)
    requires
        key@.len() == 32,
        is_nonce(nonce),
        forall|d: &VaultPlaintext| call_requires(*encode, (d,)),
        forall|f: &VaultFile| call_requires(*write, (f,)),
    ensures
        save_outcome(*data, key@, salt@, iterations, nonce, *encode, *write, r),
{
    let iv = match nonce {
        Ok(iv) => iv,
        Err(error) => {
            return Err(error);
        },
    };
    let kdf = KdfHeader {
        name: "PBKDF2".to_owned(),
        hash: "SHA-256".to_owned(),
        iterations,
        salt: crypto::encode_base64(salt.as_slice()),
    };
    let encoded = (*encode)(data);
    let mut plaintext = match encoded {
        Ok(plaintext) => plaintext,
        Err(error) => {
            return Err(VaultError(text::concat("Could not encode vault: ", error.as_str())));
        },
    };
    let ghost bytes = plaintext@;
    let aad = additional_data(VAULT_VERSION, &kdf);
    if plaintext.len() as u64 > crypto::MAX_MESSAGE_BYTES {
        crypto::wipe_bytes(&mut plaintext);
        return Err(vault_error("Could not encrypt vault"));
    }
    proof {
        bound_bytes(iterations, salt@, kdf.salt@);
    }
    let sealed = crypto::seal(
        key.as_slice(),
        iv.as_slice(),
        plaintext.as_slice(),
        aad.as_str().as_bytes(),
    );
    crypto::wipe_bytes(&mut plaintext);
    match sealed {
        Err(_) => Err(vault_error("Could not encrypt vault")),
        Ok(ciphertext) => {
            let file = VaultFile {
                version: VAULT_VERSION,
                kdf,
                cipher: CipherHeader {
                    name: "AES-GCM".to_owned(),
                    iv: crypto::encode_base64(iv.as_slice()),
                },
                ciphertext: crypto::encode_base64(ciphertext.as_slice()),
            };
            assert(seals(file, key@, salt@, iterations, iv@, bytes));
            (*write)(&file)
        },
    }
}

/// The salt of a file, or the complaint about it.
pub open spec fn file_salt(file: VaultFile) -> Option<Seq<u8>> {
    match crypto::base64_decoded(file.kdf.salt@) {
        Some(salt) => if salt.len() >= 16 {
            Some(salt)
        } else {
            None
        },
        None => None,
    }
}

/// The nonce of a file.
pub open spec fn file_nonce(file: VaultFile) -> Option<Seq<u8>> {
    match crypto::base64_decoded(file.cipher.iv@) {
        Some(iv) => if iv.len() == 12 {
            Some(iv)
        } else {
            None
        },
        None => None,
    }
}

/// The key that a password gives for a file with a usable salt.
pub open spec fn file_key(file: VaultFile, password: Seq<char>) -> Seq<u8> {
    password_key(password, file_salt(file)->Some_0, file.kdf.iterations)
}

/// What a password finds in a file, or the complaint: an unsupported format, a
/// part that cannot be read, a password that does not fit.
pub open spec fn opened(file: VaultFile, password: Seq<char>) -> Result<Seq<u8>, Seq<char>> {
    if !supported(file) {
        Err("Vault file has an unsupported format"@)
    } else if file_salt(file) is None {
        Err("Vault salt is invalid"@)
    } else if file_nonce(file) is None {
        Err("Vault IV is invalid"@)
    } else {
        match crypto::base64_decoded(file.ciphertext@) {
            None => Err("Vault ciphertext is invalid"@),
            Some(sealed) => if sealed.len() > crypto::MAX_MESSAGE_BYTES + 16 {
                Err("Invalid password or corrupted vault"@)
            } else {
                match crypto::gcm_opened(
                    file_key(file, password),
                    file_nonce(file)->Some_0,
                    sealed,
                    associated(file),
                ) {
                    Some(bytes) => Ok(bytes),
                    None => Err("Invalid password or corrupted vault"@),
                }
            },
        }
    }
}

/// A file that was opened.
struct OpenedFile {
    key: Vec<u8>,
    salt: Vec<u8>,
    plaintext: Vec<u8>,
}

fn open_file(file: &VaultFile, password: &str) -> (r: Result<OpenedFile, VaultError>)
    ensures
        match r {
            Ok(found) => {
                &&& opened(*file, password@) == Ok::<Seq<u8>, Seq<char>>(found.plaintext@)
                &&& found.key@ == file_key(*file, password@)
                &&& found.key@.len() == 32
                &&& Some(found.salt@) == file_salt(*file)
            },
            Err(error) => opened(*file, password@) == Err::<Seq<u8>, Seq<char>>(error.0@),
        },
{
    match validate_header(file) {
        Ok(()) => {},
        Err(error) => {
            return Err(error);
        },
    }
    let salt = match crypto::decode_base64(file.kdf.salt.as_str()) {
        Ok(salt) => salt,
        Err(_) => {
            return Err(vault_error("Vault salt is invalid"));
        },
    };
    if salt.len() < 16 {
        return Err(vault_error("Vault salt is invalid"));
    }
    let iv = match crypto::decode_base64(file.cipher.iv.as_str()) {
        Ok(iv) => iv,
        Err(_) => {
            return Err(vault_error("Vault IV is invalid"));
        },
    };
    if iv.len() != 12 {
        return Err(vault_error("Vault IV is invalid"));
    }
    let ciphertext = match crypto::decode_base64(file.ciphertext.as_str()) {
        Ok(ciphertext) => ciphertext,
        Err(_) => {
            return Err(vault_error("Vault ciphertext is invalid"));
        },
    };
    let mut key = match derive_key(password, &salt, file.kdf.iterations) {
        Ok(key) => key,
        Err(error) => {
            return Err(error);
        },
    };
    let aad = additional_data(file.version, &file.kdf);
    if ciphertext.len() as u64 > crypto::MAX_MESSAGE_BYTES + 16 {
        crypto::wipe_bytes(&mut key);
        return Err(vault_error("Invalid password or corrupted vault"));
    }
    match crypto::open(
        key.as_slice(),
        iv.as_slice(),
        ciphertext.as_slice(),
        aad.as_str().as_bytes(),
    ) {
        Ok(plaintext) => Ok(OpenedFile { key, salt, plaintext }),
        Err(_) => {
            crypto::wipe_bytes(&mut key);
            Err(vault_error("Invalid password or corrupted vault"))
        },
    }
}

/// Whether the metadata of a vault file, or why there is none (nothing for a
/// file that does not exist), says that there is a vault.
pub open spec fn found_vault(found: Result<bool, Option<String>>) -> Result<bool, Seq<char>> {
    match found {
        Ok(is_file) => Ok(is_file),
        Err(None) => Ok(false),
        Err(Some(error)) => Err(error@),
    }
}

/// Whether a vault file may be read, from whether it is a plain file and its
/// length, or from why there is none (nothing for a file that does not exist).
pub fn check_vault_metadata(found: Result<(bool, u64), Option<String>>) -> (r: Result<
    (),
    VaultError,
>)
    ensures
        match found {
            Ok((is_file, length)) => {
                &&& r is Ok <==> is_file && length <= MAX_VAULT_BYTES
                &&& r matches Err(error) ==> error.0@ == "Vault file is invalid"@
            },
            Err(None) => r is Err && r->Err_0.0@ == "Vault does not exist"@,
            Err(Some(message)) => r is Err && r->Err_0.0 == message,
        },
{
    match found {
        Ok((is_file, length)) => if !is_file || length > MAX_VAULT_BYTES {
            Err(vault_error("Vault file is invalid"))
        } else {
            Ok(())
        },
        Err(None) => Err(vault_error("Vault does not exist")),
        Err(Some(message)) => Err(VaultError(message)),
    }
}

/// Fresh random bytes.
fn draw(count: usize) -> (r: Result<Vec<u8>, VaultError>)
    ensures
        r matches Ok(bytes) ==> bytes@.len() == count,
{
    let mut bytes: Vec<u8> = vec![0u8; count];
    match crypto::fill_random(&mut bytes) {
        Ok(()) => Ok(bytes),
        Err(error) => Err(VaultError(crypto::random_error_text(&error))),
    }
}

pub(crate) fn draw_nonce() -> (r: Result<Vec<u8>, VaultError>)
    ensures
        is_nonce(r),
{
    draw(12)
}

pub(crate) fn draw_salt() -> (r: Result<Vec<u8>, VaultError>)
    ensures
        is_salt(r),
{
    draw(16)
}

/// The vault: locked, or unlocked with its key and what it holds.
pub struct VaultStore {
    pub path: String,
    pub key: Option<Vec<u8>>,
    pub salt: Option<Vec<u8>>,
    pub iterations: u32,
    pub data: Option<VaultPlaintext>,
}

/// Whether a vault is open.
pub open spec fn is_unlocked(store: VaultStore) -> bool {
    store.key is Some && store.salt is Some && store.data is Some
}

/// The secrets of an open vault by name.
pub open spec fn secrets(store: VaultStore) -> Map<Seq<char>, VaultEntry> {
    entries(store.data->Some_0.secrets@)
}

/// The next revision.
pub open spec fn next_revision(revision: u64) -> u64 {
    if revision < u64::MAX {
        (revision + 1) as u64
    } else {
        u64::MAX
    }
}

fn following_revision(revision: u64) -> (r: u64)
    ensures
        r == next_revision(revision),
{
    if revision < u64::MAX {
        revision + 1
    } else {
        revision
    }
}

/// Whether two stores are for one place and hold the same key.
pub open spec fn same_key(before: VaultStore, after: VaultStore) -> bool {
    &&& after.path == before.path
    &&& after.key == before.key
    &&& after.salt == before.salt
    &&& after.iterations == before.iterations
}

/// Whether an open vault was changed and saved: `r` is the outcome of saving,
/// and the change stays in memory also where saving failed.
pub open spec fn saved<
    E: Fn(&VaultPlaintext) -> Result<Vec<u8>, String>,
    W: Fn(&VaultFile) -> Result<(), VaultError>,
>(
    before: VaultStore,
    nonce: Result<Vec<u8>, VaultError>,
    encode: E,
    write: W,
    after: VaultStore,
    r: Result<(), VaultError>,
) -> bool {
    &&& is_unlocked(before)
    &&& is_unlocked(after)
    &&& same_key(before, after)
    &&& after.data->Some_0.version == before.data->Some_0.version
    &&& after.data->Some_0.revision == next_revision(before.data->Some_0.revision)
    &&& save_outcome(
        after.data->Some_0,
        after.key->Some_0@,
        after.salt->Some_0@,
        after.iterations,
        nonce,
        encode,
        write,
        r,
    )
}

/// Whether `r` refuses with a message.
pub open spec fn refuses<T>(r: Result<T, VaultError>, message: Seq<char>) -> bool {
    r is Err && r->Err_0.0@ == message
}

/// The value of a secret, or why it is not given.
pub open spec fn revealed(store: VaultStore, name: Seq<char>) -> Result<VaultEntry, Seq<char>> {
    match normalized_name(name) {
        Err(error) => Err(error),
        Ok(normalized) => if !is_unlocked(store) {
            Err("Vault is locked"@)
        } else if secrets(store).dom().contains(normalized) {
            Ok(secrets(store)[normalized])
        } else {
            Err("Secret not found"@)
        },
    }
}

/// The group that saving a secret gives it, or why it is refused: a chosen
/// group is normalized, without a choice the secret keeps its group.
pub open spec fn chosen_group(
    store: VaultStore,
    name: Seq<char>,
    group: Option<&str>,
) -> Result<Option<Seq<char>>, Seq<char>> {
    match group {
        Some(group) => normalized_group(group@),
        None => if !is_unlocked(store) {
            Err("Vault is locked"@)
        } else if secrets(store).dom().contains(name) {
            Ok(group_view(secrets(store)[name].group))
        } else {
            Ok(None)
        },
    }
}

/// Whether an entry is what saving `value` at `now` makes: the time of creation
/// stays that of an entry that was there.
pub open spec fn is_written(
    entry: VaultEntry,
    before: Map<Seq<char>, VaultEntry>,
    name: Seq<char>,
    value: Seq<char>,
    group: Option<Seq<char>>,
    now: Seq<char>,
) -> bool {
    &&& entry.value@ == value
    &&& group_view(entry.group) == group
    &&& entry.created_at@ == if before.dom().contains(name) {
        before[name].created_at@
    } else {
        now
    }
    &&& entry.updated_at@ == now
}

/// The outcome of saving a secret.
pub open spec fn save_secret_outcome<
    E: Fn(&VaultPlaintext) -> Result<Vec<u8>, String>,
    W: Fn(&VaultFile) -> Result<(), VaultError>,
>(
    before: VaultStore,
    name: Seq<char>,
    value: Seq<char>,
    group: Option<&str>,
    now: Seq<char>,
    nonce: Result<Vec<u8>, VaultError>,
    encode: E,
    write: W,
    after: VaultStore,
    r: Result<(), VaultError>,
) -> bool {
    match normalized_name(name) {
        Err(error) => refuses(r, error) && after == before,
        Ok(normalized) => match chosen_group(before, normalized, group) {
            Err(error) => refuses(r, error) && after == before,
            Ok(chosen) => if !is_unlocked(before) {
                refuses(r, "Vault is locked"@) && after == before
            } else {
                &&& saved(before, nonce, encode, write, after, r)
                &&& after.data->Some_0.aws == before.data->Some_0.aws
                &&& exists|entry: VaultEntry|
                    secrets(after) == #[trigger] secrets(before).insert(normalized, entry)
                        && is_written(entry, secrets(before), normalized, value, chosen, now)
            },
        },
    }
}

/// The outcome of renaming a secret: its entry moves, with a new time of
/// change.
pub open spec fn rename_outcome<
    E: Fn(&VaultPlaintext) -> Result<Vec<u8>, String>,
    W: Fn(&VaultFile) -> Result<(), VaultError>,
>(
    before: VaultStore,
    old_name: Seq<char>,
    new_name: Seq<char>,
    now: String,
    nonce: Result<Vec<u8>, VaultError>,
    encode: E,
    write: W,
    after: VaultStore,
    r: Result<(), VaultError>,
) -> bool {
    match (normalized_name(old_name), normalized_name(new_name)) {
        (Err(error), _) => refuses(r, error) && after == before,
        (Ok(_), Err(error)) => refuses(r, error) && after == before,
        (Ok(from), Ok(to)) => if !is_unlocked(before) {
            refuses(r, "Vault is locked"@) && after == before
        } else if from != to && secrets(before).dom().contains(to) {
            refuses(r, "A secret with that name already exists"@) && after == before
        } else if !secrets(before).dom().contains(from) {
            refuses(r, "Secret not found"@) && after == before
        } else {
            &&& saved(before, nonce, encode, write, after, r)
            &&& after.data->Some_0.aws == before.data->Some_0.aws
            &&& secrets(after) == secrets(before).remove(from).insert(
                to,
                VaultEntry { updated_at: now, ..secrets(before)[from] },
            )
        },
    }
}

/// The outcome of deleting a secret.
pub open spec fn delete_outcome<
    E: Fn(&VaultPlaintext) -> Result<Vec<u8>, String>,
    W: Fn(&VaultFile) -> Result<(), VaultError>,
>(
    before: VaultStore,
    name: Seq<char>,
    nonce: Result<Vec<u8>, VaultError>,
    encode: E,
    write: W,
    after: VaultStore,
    r: Result<(), VaultError>,
) -> bool {
    match normalized_name(name) {
        Err(error) => refuses(r, error) && after == before,
        Ok(normalized) => if !is_unlocked(before) {
            refuses(r, "Vault is locked"@) && after == before
        } else if !secrets(before).dom().contains(normalized) {
            refuses(r, "Secret not found"@) && after == before
        } else {
            &&& saved(before, nonce, encode, write, after, r)
            &&& after.data->Some_0.aws == before.data->Some_0.aws
            &&& secrets(after) == secrets(before).remove(normalized)
        },
    }
}

/// The outcome of saving AWS settings.
pub open spec fn save_aws_outcome<
    E: Fn(&VaultPlaintext) -> Result<Vec<u8>, String>,
    W: Fn(&VaultFile) -> Result<(), VaultError>,
>(
    before: VaultStore,
    settings: AwsSettings,
    nonce: Result<Vec<u8>, VaultError>,
    encode: E,
    write: W,
    after: VaultStore,
    r: Result<(), VaultError>,
) -> bool {
    if !is_unlocked(before) {
        refuses(r, "Vault is locked"@) && after == before
    } else {
        &&& saved(before, nonce, encode, write, after, r)
        &&& after.data->Some_0.aws == Some(settings)
        &&& after.data->Some_0.secrets == before.data->Some_0.secrets
    }
}

/// The outcome of making a vault: an open, empty vault under a fresh key, but
/// only where there was none and the new one could be written.
pub open spec fn create_outcome<
    E: Fn(&VaultPlaintext) -> Result<Vec<u8>, String>,
    W: Fn(&VaultFile) -> Result<(), VaultError>,
>(
    before: VaultStore,
    password: Seq<char>,
    exists_already: Result<bool, VaultError>,
    salt: Result<Vec<u8>, VaultError>,
    nonce: Result<Vec<u8>, VaultError>,
    encode: E,
    write: W,
    after: VaultStore,
    r: Result<(), VaultError>,
) -> bool {
    if !is_password(password) {
        refuses(r, password_message()) && after == before
    } else {
        match (exists_already, salt) {
            (Err(error), _) => r == Err::<(), VaultError>(error) && after == before,
            (Ok(true), _) => refuses(r, "Vault already exists"@) && after == before,
            (Ok(false), Err(error)) => r == Err::<(), VaultError>(error) && after == before,
            (Ok(false), Ok(salt)) => exists|data: VaultPlaintext|
                {
                    &&& is_empty_vault(data)
                    &&& #[trigger] save_outcome(
                        data,
                        password_key(password, salt@, PBKDF2_ITERATIONS),
                        salt@,
                        PBKDF2_ITERATIONS,
                        nonce,
                        encode,
                        write,
                        r,
                    )
                    &&& if r is Ok {
                        &&& is_unlocked(after)
                        &&& after.path == before.path
                        &&& after.key->Some_0@ == password_key(password, salt@, PBKDF2_ITERATIONS)
                        &&& after.salt == Some(salt)
                        &&& after.iterations == PBKDF2_ITERATIONS
                        &&& after.data == Some(data)
                    } else {
                        after == before
                    }
                },
        }
    }
}

/// Whether a vault is new: nothing in it, never changed.
pub open spec fn is_empty_vault(data: VaultPlaintext) -> bool {
    &&& data.version == VAULT_VERSION
    &&& data.revision == 0
    &&& data.secrets@.len() == 0
    &&& data.aws is None
}

/// The outcome of changing the password: the same data under a fresh key, but
/// only where it could be written.
pub open spec fn change_password_outcome<
    E: Fn(&VaultPlaintext) -> Result<Vec<u8>, String>,
    W: Fn(&VaultFile) -> Result<(), VaultError>,
>(
    before: VaultStore,
    password: Seq<char>,
    salt: Result<Vec<u8>, VaultError>,
    nonce: Result<Vec<u8>, VaultError>,
    encode: E,
    write: W,
    after: VaultStore,
    r: Result<(), VaultError>,
) -> bool {
    if !is_password(password) {
        refuses(r, password_message()) && after == before
    } else {
        match salt {
            Err(error) => r == Err::<(), VaultError>(error) && after == before,
            Ok(salt) => if !is_unlocked(before) {
                refuses(r, "Vault is locked"@) && after == before
            } else {
                &&& save_outcome(
                    before.data->Some_0,
                    password_key(password, salt@, PBKDF2_ITERATIONS),
                    salt@,
                    PBKDF2_ITERATIONS,
                    nonce,
                    encode,
                    write,
                    r,
                )
                &&& if r is Ok {
                    &&& after.path == before.path
                    &&& after.data == before.data
                    &&& after.key is Some
                    &&& after.key->Some_0@ == password_key(password, salt@, PBKDF2_ITERATIONS)
                    &&& after.salt == Some(salt)
                    &&& after.iterations == PBKDF2_ITERATIONS
                } else {
                    after == before
                }
            },
        }
    }
}

/// The outcome of unlocking with what was read: every complaint leaves the
/// store as it was; else it holds what the file held.
pub open spec fn unlock_outcome<P: Fn(&Vec<u8>) -> Option<VaultPlaintext>>(
    before: VaultStore,
    password: Seq<char>,
    file: Result<VaultFile, VaultError>,
    parse: P,
    after: VaultStore,
    r: Result<(), VaultError>,
) -> bool {
    if !is_password(password) {
        refuses(r, password_message()) && after == before
    } else {
        match file {
            Err(error) => r == Err::<(), VaultError>(error) && after == before,
            Ok(file) => match opened(file, password) {
                Err(error) => refuses(r, error) && after == before,
                Ok(bytes) => exists|buffer: Vec<u8>, parsed: Option<VaultPlaintext>|
                    {
                        &&& buffer@ == bytes
                        &&& #[trigger] call_ensures(parse, (&buffer,), parsed)
                        &&& match parsed {
                            None => refuses(r, "Vault plaintext is invalid"@) && after == before,
                            Some(found) => exists|table: Seq<SecretRecord>|
                                {
                                    &&& #[trigger] sorted(table)
                                    &&& entries(table) == entries(found.secrets@)
                                    &&& match plaintext_error(found.version, table) {
                                        Some(error) => refuses(r, error) && after == before,
                                        None => r is Ok && is_opened(
                                            after,
                                            before,
                                            file,
                                            password,
                                            found,
                                            table,
                                        ),
                                    }
                                },
                        }
                    },
            },
        }
    }
}

/// Whether a store holds what a file held.
pub open spec fn is_opened(
    after: VaultStore,
    before: VaultStore,
    file: VaultFile,
    password: Seq<char>,
    found: VaultPlaintext,
    table: Seq<SecretRecord>,
) -> bool {
    &&& is_unlocked(after)
    &&& after.path == before.path
    &&& after.key->Some_0@ == file_key(file, password)
    &&& Some(after.salt->Some_0@) == file_salt(file)
    &&& after.iterations == file.kdf.iterations
    &&& after.data->Some_0.version == found.version
    &&& after.data->Some_0.revision == found.revision
    &&& after.data->Some_0.aws == found.aws
    &&& after.data->Some_0.secrets@ == table
}

/// Overwrites the values of secrets.
fn wipe_records(records: Vec<SecretRecord>) {
    let mut rest = records;
    while rest.len() > 0
        decreases rest@.len(),
    {
        match rest.pop() {
            Some(mut record) => {
                crypto::wipe_text(&mut record.entry.value);
            },
            None => {},
        }
    }
}

impl VaultStore {
    /// Whether the parts of the store fit together: open in all parts or in
    /// none, a key of the right size, names in order, nothing to complain of.
    pub open spec fn wf(self) -> bool {
        &&& self.key is Some <==> self.data is Some
        &&& self.salt is Some <==> self.data is Some
        &&& self.key matches Some(key) ==> key@.len() == 32
        &&& self.data matches Some(data) ==> {
            &&& data.version == VAULT_VERSION
            &&& sorted(data.secrets@)
            &&& valid_entries(entries(data.secrets@))
        }
    }

    pub fn new(path: String) -> (r: Self)
        ensures
            r.wf(),
            r.path == path,
            !is_unlocked(r),
            r.key is None && r.salt is None && r.data is None,
            r.iterations == PBKDF2_ITERATIONS,
    {
        VaultStore { path, key: None, salt: None, iterations: PBKDF2_ITERATIONS, data: None }
    }

    pub fn unlocked(&self) -> (r: bool)
        ensures
            r == is_unlocked(*self),
    {
        self.key.is_some() && self.salt.is_some() && self.data.is_some()
    }

    /// Whether there is a vault file, from its metadata or from why there is
    /// none (nothing for a file that does not exist).
    pub fn file_exists(&self, found: Result<bool, Option<String>>) -> (r: Result<bool, VaultError>)
        ensures
            match r {
                Ok(is_file) => found_vault(found) == Ok::<bool, Seq<char>>(is_file),
                Err(error) => found_vault(found) == Err::<bool, Seq<char>>(error.0@),
            },
    {
        match found {
            Ok(is_file) => Ok(is_file),
            Err(None) => Ok(false),
            Err(Some(message)) => Err(VaultError(message)),
        }
    }

    /// Makes a new vault, unless `present` says that there is one or could not
    /// tell.
    pub fn create<
        E: Fn(&VaultPlaintext) -> Result<Vec<u8>, String>,
        W: Fn(&VaultFile) -> Result<(), VaultError>,
    >(
        &mut self,
        password: &str,
        present: Result<bool, VaultError>,
        encode: &E,
        write: &W,
    ) -> (r: Result<(), VaultError>)
        requires
            old(self).wf(),
            forall|d: &VaultPlaintext| call_requires(*encode, (d,)),
            forall|f: &VaultFile| call_requires(*write, (f,)),
        ensures
            final(self).wf(),
            exists|salt: Result<Vec<u8>, VaultError>, nonce: Result<Vec<u8>, VaultError>|
                is_salt(salt) && is_nonce(nonce) && #[trigger] create_outcome(
                    *old(self),
                    password@,
                    present,
                    salt,
                    nonce,
                    *encode,
                    *write,
                    *final(self),
                    r,
                ),
    {
        self.create_at(password, present, draw_salt(), draw_nonce(), encode, write)
    }

    pub fn create_at<
        E: Fn(&VaultPlaintext) -> Result<Vec<u8>, String>,
        W: Fn(&VaultFile) -> Result<(), VaultError>,
    >(
        &mut self,
        password: &str,
        present: Result<bool, VaultError>,
        salt: Result<Vec<u8>, VaultError>,
        nonce: Result<Vec<u8>, VaultError>,
        encode: &E,
        write: &W,
    ) -> (r: Result<(), VaultError>)
        requires
            old(self).wf(),
            is_nonce(nonce),
            forall|d: &VaultPlaintext| call_requires(*encode, (d,)),
            forall|f: &VaultFile| call_requires(*write, (f,)),
        ensures
            final(self).wf(),
            create_outcome(
                *old(self),
                password@,
                present,
                salt,
                nonce,
                *encode,
                *write,
                *final(self),
                r,
            ),
    {
        match validate_password(password) {
            Ok(()) => {},
            Err(error) => {
                return Err(error);
            },
        }
        match present {
            Err(error) => {
                return Err(error);
            },
            Ok(true) => {
                return Err(vault_error("Vault already exists"));
            },
            Ok(false) => {},
        }
        let salt = match salt {
            Ok(salt) => salt,
            Err(error) => {
                return Err(error);
            },
        };
        let mut key = match derive_key(password, &salt, PBKDF2_ITERATIONS) {
            Ok(key) => key,
            Err(error) => {
                return Err(error);
            },
        };
        let data = VaultPlaintext {
            version: VAULT_VERSION,
            revision: 0,
            secrets: Vec::new(),
            aws: None,
        };
        let r = save_with(&data, &key, &salt, PBKDF2_ITERATIONS, nonce, encode, write);
        if r.is_err() {
            crypto::wipe_bytes(&mut key);
            return r;
        }
        self.key = Some(key);
        self.salt = Some(salt);
        self.iterations = PBKDF2_ITERATIONS;
        self.data = Some(data);
        r
    }

    /// Opens the vault with what was read of its file; `parse` reads the
    /// decrypted bytes.
    pub fn unlock<P: Fn(&Vec<u8>) -> Option<VaultPlaintext>>(
        &mut self,
        password: &str,
        file: Result<VaultFile, VaultError>,
        parse: &P,
    ) -> (r: Result<(), VaultError>)
        requires
            old(self).wf(),
            forall|b: &Vec<u8>| call_requires(*parse, (b,)),
        ensures
            final(self).wf(),
            unlock_outcome(*old(self), password@, file, *parse, *final(self), r),
    {
        match validate_password(password) {
            Ok(()) => {},
            Err(error) => {
                return Err(error);
            },
        }
        let file = match file {
            Ok(file) => file,
            Err(error) => {
                return Err(error);
            },
        };
        let mut found = match open_file(&file, password) {
            Ok(found) => found,
            Err(error) => {
                return Err(error);
            },
        };
        let ghost buffer = found.plaintext;
        let parsed = (*parse)(&found.plaintext);
        assert(call_ensures(*parse, (&buffer,), parsed));
        crypto::wipe_bytes(&mut found.plaintext);
        let parsed = match parsed {
            Some(parsed) => parsed,
            None => {
                crypto::wipe_bytes(&mut found.key);
                return Err(vault_error("Vault plaintext is invalid"));
            },
        };
        let data = VaultPlaintext {
            version: parsed.version,
            revision: parsed.revision,
            secrets: table_of(parsed.secrets),
            aws: parsed.aws,
        };
        assert(sorted(data.secrets@));
        match validate_plaintext(&data) {
            Ok(()) => {},
            Err(error) => {
                crypto::wipe_bytes(&mut found.key);
                wipe_records(data.secrets);
                return Err(error);
            },
        }
        proof {
            records_are_valid(data.secrets@);
        }
        self.key = Some(found.key);
        self.salt = Some(found.salt);
        self.iterations = file.kdf.iterations;
        self.data = Some(data);
        Ok(())
    }

    /// Closes the vault and overwrites its key and secrets.
    pub fn lock(&mut self)
        ensures
            final(self).wf(),
            final(self).path == old(self).path,
            final(self).key is None && final(self).salt is None && final(self).data is None,
            final(self).iterations == PBKDF2_ITERATIONS,
    {
        match self.key.take() {
            Some(mut key) => {
                crypto::wipe_bytes(&mut key);
            },
            None => {},
        }
        match self.salt.take() {
            Some(mut salt) => {
                crypto::wipe_bytes(&mut salt);
            },
            None => {},
        }
        match self.data.take() {
            Some(data) => {
                wipe_records(data.secrets);
            },
            None => {},
        }
        self.iterations = PBKDF2_ITERATIONS;
    }

    /// What may be shown of the secrets, in the order of their names.
    pub fn list(&self) -> (r: Result<Vec<SecretSummary>, VaultError>)
        ensures
            !is_unlocked(*self) ==> refuses(r, "Vault is locked"@),
            is_unlocked(*self) ==> r is Ok && is_listing(
                r->Ok_0@,
                self.data->Some_0.secrets@,
            ),
    {
        if !self.unlocked() {
            return Err(vault_error("Vault is locked"));
        }
        let mut r: Vec<SecretSummary> = Vec::new();
        match &self.data {
            Some(data) => {
                let records = &data.secrets;
                for i in 0..records.len()
                    invariant
                        r@.len() == i,
                        forall|j: int| 0 <= j < i ==> is_summary(#[trigger] r@[j], records@[j]),
                {
                    let record = &records[i];
                    r.push(
                        SecretSummary {
                            name: record.name.clone(),
                            group: record.entry.group.clone(),
                            created_at: record.entry.created_at.clone(),
                            updated_at: record.entry.updated_at.clone(),
                        },
                    );
                }
            },
            None => {},
        }
        Ok(r)
    }

    /// The value of a secret.
    pub fn reveal_value(&self, name: &str) -> (r: Result<String, VaultError>)
        requires
            self.wf(),
        ensures
            match revealed(*self, name@) {
                Ok(entry) => r == Ok::<String, VaultError>(entry.value),
                Err(error) => refuses(r, error),
            },
    {
        let normalized = match normalize_secret_name(name) {
            Ok(normalized) => normalized,
            Err(error) => {
                return Err(error);
            },
        };
        if !self.unlocked() {
            return Err(vault_error("Vault is locked"));
        }
        match &self.data {
            Some(data) => match lookup(&data.secrets, normalized.as_str()) {
                Some(i) => Ok(data.secrets[i].entry.value.clone()),
                None => Err(vault_error("Secret not found")),
            },
            None => Err(vault_error("Vault is locked")),
        }
    }

    /// The group of a secret.
    pub fn group(&self, name: &str) -> (r: Result<Option<String>, VaultError>)
        requires
            self.wf(),
        ensures
            match revealed(*self, name@) {
                Ok(entry) => r == Ok::<Option<String>, VaultError>(entry.group),
                Err(error) => refuses(r, error),
            },
    {
        let normalized = match normalize_secret_name(name) {
            Ok(normalized) => normalized,
            Err(error) => {
                return Err(error);
            },
        };
        if !self.unlocked() {
            return Err(vault_error("Vault is locked"));
        }
        match &self.data {
            Some(data) => match lookup(&data.secrets, normalized.as_str()) {
                Some(i) => Ok(data.secrets[i].entry.group.clone()),
                None => Err(vault_error("Secret not found")),
            },
            None => Err(vault_error("Vault is locked")),
        }
    }

    /// Keeps a value under a name. Without a group the secret keeps the one it
    /// has.
    pub fn save_secret<
        E: Fn(&VaultPlaintext) -> Result<Vec<u8>, String>,
        W: Fn(&VaultFile) -> Result<(), VaultError>,
    >(
        &mut self,
        name: &str,
        value: &str,
        group: Option<&str>,
        encode: &E,
        write: &W,
    ) -> (r: Result<(), VaultError>)
        requires
            old(self).wf(),
            forall|d: &VaultPlaintext| call_requires(*encode, (d,)),
            forall|f: &VaultFile| call_requires(*write, (f,)),
        ensures
            final(self).wf(),
            exists|now: Seq<char>, nonce: Result<Vec<u8>, VaultError>|
                is_nonce(nonce) && #[trigger] save_secret_outcome(
                    *old(self),
                    name@,
                    value@,
                    group,
                    now,
                    nonce,
                    *encode,
                    *write,
                    *final(self),
                    r,
                ),
    {
        self.save_secret_at(name, value, group, clock::utc_text(), draw_nonce(), encode, write)
    }

    pub fn save_secret_at<
        E: Fn(&VaultPlaintext) -> Result<Vec<u8>, String>,
        W: Fn(&VaultFile) -> Result<(), VaultError>,
    >(
        &mut self,
        name: &str,
        value: &str,
        group: Option<&str>,
        now: String,
        nonce: Result<Vec<u8>, VaultError>,
        encode: &E,
        write: &W,
    ) -> (r: Result<(), VaultError>)
        requires
            old(self).wf(),
            is_nonce(nonce),
            forall|d: &VaultPlaintext| call_requires(*encode, (d,)),
            forall|f: &VaultFile| call_requires(*write, (f,)),
        ensures
            final(self).wf(),
            save_secret_outcome(
                *old(self),
                name@,
                value@,
                group,
                now@,
                nonce,
                *encode,
                *write,
                *final(self),
                r,
            ),
    {
        let normalized = match normalize_secret_name(name) {
            Ok(normalized) => normalized,
            Err(error) => {
                return Err(error);
            },
        };
        let chosen = match group {
            Some(group) => match normalize_secret_group(group) {
                Ok(chosen) => Some(chosen),
                Err(error) => {
                    return Err(error);
                },
            },
            None => None,
        };
        let (key, salt, mut data) = match (&self.key, &self.salt, self.data.take()) {
            (Some(key), Some(salt), Some(data)) => (key, salt, data),
            _ => {
                return Err(vault_error("Vault is locked"));
            },
        };
        let ghost before = entries(data.secrets@);
        let found = lookup(&data.secrets, normalized.as_str());
        let kept_group = match chosen {
            Some(chosen) => chosen,
            None => match found {
                Some(i) => data.secrets[i].entry.group.clone(),
                None => None,
            },
        };
        let created_at = match found {
            Some(i) => data.secrets[i].entry.created_at.clone(),
            None => now.clone(),
        };
        let entry = VaultEntry {
            value: value.to_owned(),
            group: kept_group,
            created_at,
            updated_at: now,
        };
        let ghost written = entry;
        proof {
            normalizing_names_is_stable(name@);
            if let Some(group) = group {
                normalizing_groups_is_stable(group@);
            }
            assert(entry_error(normalized@, written) is None);
        }
        put(&mut data.secrets, normalized, entry);
        assert(entries(data.secrets@) == before.insert(normalized@, written));
        data.revision = following_revision(data.revision);
        let r = save_with(&data, key, salt, self.iterations, nonce, encode, write);
        self.data = Some(data);
        r
    }

    /// Moves a secret to another name.
    pub fn rename<
        E: Fn(&VaultPlaintext) -> Result<Vec<u8>, String>,
        W: Fn(&VaultFile) -> Result<(), VaultError>,
    >(&mut self, old_name: &str, new_name: &str, encode: &E, write: &W) -> (r: Result<
        (),
        VaultError,
    >)
        requires
            old(self).wf(),
            forall|d: &VaultPlaintext| call_requires(*encode, (d,)),
            forall|f: &VaultFile| call_requires(*write, (f,)),
        ensures
            final(self).wf(),
            exists|now: String, nonce: Result<Vec<u8>, VaultError>|
                is_nonce(nonce) && #[trigger] rename_outcome(
                    *old(self),
                    old_name@,
                    new_name@,
                    now,
                    nonce,
                    *encode,
                    *write,
                    *final(self),
                    r,
                ),
    {
        self.rename_at(old_name, new_name, clock::utc_text(), draw_nonce(), encode, write)
    }

    pub fn rename_at<
        E: Fn(&VaultPlaintext) -> Result<Vec<u8>, String>,
        W: Fn(&VaultFile) -> Result<(), VaultError>,
    >(
        &mut self,
        old_name: &str,
        new_name: &str,
        now: String,
        nonce: Result<Vec<u8>, VaultError>,
        encode: &E,
        write: &W,
    ) -> (r: Result<(), VaultError>)
        requires
            old(self).wf(),
            is_nonce(nonce),
            forall|d: &VaultPlaintext| call_requires(*encode, (d,)),
            forall|f: &VaultFile| call_requires(*write, (f,)),
        ensures
            final(self).wf(),
            rename_outcome(
                *old(self),
                old_name@,
                new_name@,
                now,
                nonce,
                *encode,
                *write,
                *final(self),
                r,
            ),
    {
        let from = match normalize_secret_name(old_name) {
            Ok(from) => from,
            Err(error) => {
                return Err(error);
            },
        };
        let to = match normalize_secret_name(new_name) {
            Ok(to) => to,
            Err(error) => {
                return Err(error);
            },
        };
        let (key, salt, mut data) = match (&self.key, &self.salt, self.data.take()) {
            (Some(key), Some(salt), Some(data)) => (key, salt, data),
            _ => {
                return Err(vault_error("Vault is locked"));
            },
        };
        if from != to && lookup(&data.secrets, to.as_str()).is_some() {
            self.data = Some(data);
            return Err(vault_error("A secret with that name already exists"));
        }
        match take(&mut data.secrets, from.as_str()) {
            None => {
                self.data = Some(data);
                Err(vault_error("Secret not found"))
            },
            Some(entry) => {
                let moved = VaultEntry {
                    value: entry.value,
                    group: entry.group,
                    created_at: entry.created_at,
                    updated_at: now,
                };
                proof {
                    normalizing_names_is_stable(new_name@);
                    assert(entry_error(to@, moved) is None);
                }
                put(&mut data.secrets, to, moved);
                data.revision = following_revision(data.revision);
                let r = save_with(&data, key, salt, self.iterations, nonce, encode, write);
                self.data = Some(data);
                r
            },
        }
    }

    /// Deletes a secret.
    pub fn delete<
        E: Fn(&VaultPlaintext) -> Result<Vec<u8>, String>,
        W: Fn(&VaultFile) -> Result<(), VaultError>,
    >(&mut self, name: &str, encode: &E, write: &W) -> (r: Result<(), VaultError>)
        requires
            old(self).wf(),
            forall|d: &VaultPlaintext| call_requires(*encode, (d,)),
            forall|f: &VaultFile| call_requires(*write, (f,)),
        ensures
            final(self).wf(),
            exists|nonce: Result<Vec<u8>, VaultError>|
                is_nonce(nonce) && #[trigger] delete_outcome(
                    *old(self),
                    name@,
                    nonce,
                    *encode,
                    *write,
                    *final(self),
                    r,
                ),
    {
        self.delete_at(name, draw_nonce(), encode, write)
    }

    pub fn delete_at<
        E: Fn(&VaultPlaintext) -> Result<Vec<u8>, String>,
        W: Fn(&VaultFile) -> Result<(), VaultError>,
    >(
        &mut self,
        name: &str,
        nonce: Result<Vec<u8>, VaultError>,
        encode: &E,
        write: &W,
    ) -> (r: Result<(), VaultError>)
        requires
            old(self).wf(),
            is_nonce(nonce),
            forall|d: &VaultPlaintext| call_requires(*encode, (d,)),
            forall|f: &VaultFile| call_requires(*write, (f,)),
        ensures
            final(self).wf(),
            delete_outcome(*old(self), name@, nonce, *encode, *write, *final(self), r),
    {
        let normalized = match normalize_secret_name(name) {
            Ok(normalized) => normalized,
            Err(error) => {
                return Err(error);
            },
        };
        let (key, salt, mut data) = match (&self.key, &self.salt, self.data.take()) {
            (Some(key), Some(salt), Some(data)) => (key, salt, data),
            _ => {
                return Err(vault_error("Vault is locked"));
            },
        };
        match take(&mut data.secrets, normalized.as_str()) {
            None => {
                self.data = Some(data);
                Err(vault_error("Secret not found"))
            },
            Some(mut entry) => {
                crypto::wipe_text(&mut entry.value);
                data.revision = following_revision(data.revision);
                let r = save_with(&data, key, salt, self.iterations, nonce, encode, write);
                self.data = Some(data);
                r
            },
        }
    }

    /// Puts the vault under another password.
    pub fn change_password<
        E: Fn(&VaultPlaintext) -> Result<Vec<u8>, String>,
        W: Fn(&VaultFile) -> Result<(), VaultError>,
    >(&mut self, password: &str, encode: &E, write: &W) -> (r: Result<(), VaultError>)
        requires
            old(self).wf(),
            forall|d: &VaultPlaintext| call_requires(*encode, (d,)),
            forall|f: &VaultFile| call_requires(*write, (f,)),
        ensures
            final(self).wf(),
            exists|salt: Result<Vec<u8>, VaultError>, nonce: Result<Vec<u8>, VaultError>|
                is_salt(salt) && is_nonce(nonce) && #[trigger] change_password_outcome(
                    *old(self),
                    password@,
                    salt,
                    nonce,
                    *encode,
                    *write,
                    *final(self),
                    r,
                ),
    {
        self.change_password_at(password, draw_salt(), draw_nonce(), encode, write)
    }

    pub fn change_password_at<
        E: Fn(&VaultPlaintext) -> Result<Vec<u8>, String>,
        W: Fn(&VaultFile) -> Result<(), VaultError>,
    >(
        &mut self,
        password: &str,
        salt: Result<Vec<u8>, VaultError>,
        nonce: Result<Vec<u8>, VaultError>,
        encode: &E,
        write: &W,
    ) -> (r: Result<(), VaultError>)
        requires
            old(self).wf(),
            is_nonce(nonce),
            forall|d: &VaultPlaintext| call_requires(*encode, (d,)),
            forall|f: &VaultFile| call_requires(*write, (f,)),
        ensures
            final(self).wf(),
            change_password_outcome(
                *old(self),
                password@,
                salt,
                nonce,
                *encode,
                *write,
                *final(self),
                r,
            ),
    {
        match validate_password(password) {
            Ok(()) => {},
            Err(error) => {
                return Err(error);
            },
        }
        let salt = match salt {
            Ok(salt) => salt,
            Err(error) => {
                return Err(error);
            },
        };
        let mut key = match derive_key(password, &salt, PBKDF2_ITERATIONS) {
            Ok(key) => key,
            Err(error) => {
                return Err(error);
            },
        };
        if !self.unlocked() {
            crypto::wipe_bytes(&mut key);
            return Err(vault_error("Vault is locked"));
        }
        let r = match &self.data {
            Some(data) => save_with(data, &key, &salt, PBKDF2_ITERATIONS, nonce, encode, write),
            None => Ok(()),
        };
        if r.is_err() {
            crypto::wipe_bytes(&mut key);
            return r;
        }
        match self.key.take() {
            Some(mut old_key) => {
                crypto::wipe_bytes(&mut old_key);
            },
            None => {},
        }
        self.key = Some(key);
        self.salt = Some(salt);
        self.iterations = PBKDF2_ITERATIONS;
        r
    }

    /// The AWS settings that the vault keeps, if there are any.
    pub fn aws_settings(&self) -> (r: Result<Option<AwsSettings>, VaultError>)
        ensures
            !is_unlocked(*self) ==> refuses(r, "Vault is locked"@),
            is_unlocked(*self) ==> r is Ok && match (r->Ok_0, self.data->Some_0.aws) {
                (Some(copy), Some(settings)) => aws::same_settings(copy, settings),
                (None, None) => true,
                _ => false,
            },
    {
        if !self.unlocked() {
            return Err(vault_error("Vault is locked"));
        }
        match &self.data {
            Some(data) => match &data.aws {
                Some(settings) => Ok(Some(settings.clone())),
                None => Ok(None),
            },
            None => Err(vault_error("Vault is locked")),
        }
    }

    /// Keeps AWS settings.
    pub fn save_aws_settings<
        E: Fn(&VaultPlaintext) -> Result<Vec<u8>, String>,
        W: Fn(&VaultFile) -> Result<(), VaultError>,
    >(&mut self, settings: AwsSettings, encode: &E, write: &W) -> (r: Result<(), VaultError>)
        requires
            old(self).wf(),
            forall|d: &VaultPlaintext| call_requires(*encode, (d,)),
            forall|f: &VaultFile| call_requires(*write, (f,)),
        ensures
            final(self).wf(),
            exists|nonce: Result<Vec<u8>, VaultError>|
                is_nonce(nonce) && #[trigger] save_aws_outcome(
                    *old(self),
                    settings,
                    nonce,
                    *encode,
                    *write,
                    *final(self),
                    r,
                ),
    {
        self.save_aws_settings_at(settings, draw_nonce(), encode, write)
    }

    pub fn save_aws_settings_at<
        E: Fn(&VaultPlaintext) -> Result<Vec<u8>, String>,
        W: Fn(&VaultFile) -> Result<(), VaultError>,
    >(
        &mut self,
        settings: AwsSettings,
        nonce: Result<Vec<u8>, VaultError>,
        encode: &E,
        write: &W,
    ) -> (r: Result<(), VaultError>)
        requires
            old(self).wf(),
            is_nonce(nonce),
            forall|d: &VaultPlaintext| call_requires(*encode, (d,)),
            forall|f: &VaultFile| call_requires(*write, (f,)),
        ensures
            final(self).wf(),
            save_aws_outcome(*old(self), settings, nonce, *encode, *write, *final(self), r),
    {
        let (key, salt, mut data) = match (&self.key, &self.salt, self.data.take()) {
            (Some(key), Some(salt), Some(data)) => (key, salt, data),
            _ => {
                return Err(vault_error("Vault is locked"));
            },
        };
        data.aws = Some(settings);
        data.revision = following_revision(data.revision);
        let r = save_with(&data, key, salt, self.iterations, nonce, encode, write);
        self.data = Some(data);
        r
    }
}

/// Whether a summary shows a record.
pub open spec fn is_summary(summary: SecretSummary, record: SecretRecord) -> bool {
    &&& summary.name == record.name
    &&& summary.group == record.entry.group
    &&& summary.created_at == record.entry.created_at
    &&& summary.updated_at == record.entry.updated_at
}

/// Whether summaries show records, one for one and in their order.
pub open spec fn is_listing(summaries: Seq<SecretSummary>, records: Seq<SecretRecord>) -> bool {
    &&& summaries.len() == records.len()
    &&& forall|i: int| 0 <= i < summaries.len() ==> is_summary(#[trigger] summaries[i], records[i])
}

} // verus!
