//! What the operations of the vault promise together.

use vstd::prelude::*;

use crate::crypto;
use crate::vault;
use crate::vault::{SecretRecord, VaultEntry, VaultError, VaultFile, VaultPlaintext, VaultStore};

verus! {

/// A secret that was saved is revealed with the value it was saved with, under
/// any spelling of its name.
pub proof fn a_saved_secret_is_revealed<
    E: Fn(&VaultPlaintext) -> Result<Vec<u8>, String>,
    W: Fn(&VaultFile) -> Result<(), VaultError>,
>(
    before: VaultStore,
    name: Seq<char>,
    spelling: Seq<char>,
    value: Seq<char>,
    group: Option<&str>,
    now: Seq<char>,
    nonce: Result<Vec<u8>, VaultError>,
    encode: E,
    write: W,
    after: VaultStore,
    r: Result<(), VaultError>,
)
    requires
        vault::save_secret_outcome(
            before,
            name,
            value,
            group,
            now,
            nonce,
            encode,
            write,
            after,
            r,
        ),
        r is Ok,
        vault::normalized_name(spelling) == vault::normalized_name(name),
    ensures
        vault::revealed(after, spelling) matches Ok(entry) && entry.value@ == value
            && entry.updated_at@ == now,
{
}

/// Saving one secret leaves every other secret, and the AWS settings, as they
/// were.
pub proof fn saving_leaves_other_secrets_alone<
    E: Fn(&VaultPlaintext) -> Result<Vec<u8>, String>,
    W: Fn(&VaultFile) -> Result<(), VaultError>,
>(
    before: VaultStore,
    name: Seq<char>,
    other: Seq<char>,
    value: Seq<char>,
    group: Option<&str>,
    now: Seq<char>,
    nonce: Result<Vec<u8>, VaultError>,
    encode: E,
    write: W,
    after: VaultStore,
    r: Result<(), VaultError>,
)
    requires
        vault::save_secret_outcome(
            before,
            name,
            value,
            group,
            now,
            nonce,
            encode,
            write,
            after,
            r,
        ),
        vault::normalized_name(other) != vault::normalized_name(name),
    ensures
        vault::revealed(after, other) == vault::revealed(before, other),
        vault::is_unlocked(before) ==> after.data->Some_0.aws == before.data->Some_0.aws,
{
}

/// Saving a secret again without naming a group keeps its group and its time
/// of creation.
pub proof fn saving_again_keeps_group_and_creation<
    E: Fn(&VaultPlaintext) -> Result<Vec<u8>, String>,
    W: Fn(&VaultFile) -> Result<(), VaultError>,
>(
    before: VaultStore,
    name: Seq<char>,
    value: Seq<char>,
    now: Seq<char>,
    nonce: Result<Vec<u8>, VaultError>,
    encode: E,
    write: W,
    after: VaultStore,
    r: Result<(), VaultError>,
)
    requires
        vault::save_secret_outcome(
            before,
            name,
            value,
            None,
            now,
            nonce,
            encode,
            write,
            after,
            r,
        ),
        vault::revealed(before, name) is Ok,
    ensures
        ({
            let old_entry = vault::revealed(before, name)->Ok_0;
            &&& vault::revealed(after, name) matches Ok(entry)
            &&& vault::group_view(entry.group) == vault::group_view(old_entry.group)
            &&& entry.created_at@ == old_entry.created_at@
        }),
{
}

/// Renaming a secret moves its value, its group and its time of creation to
/// the new name, and touches no other secret.
pub proof fn renaming_moves_a_secret<
    E: Fn(&VaultPlaintext) -> Result<Vec<u8>, String>,
    W: Fn(&VaultFile) -> Result<(), VaultError>,
>(
    before: VaultStore,
    old_name: Seq<char>,
    new_name: Seq<char>,
    other: Seq<char>,
    now: String,
    nonce: Result<Vec<u8>, VaultError>,
    encode: E,
    write: W,
    after: VaultStore,
    r: Result<(), VaultError>,
)
    requires
        vault::rename_outcome(
            before,
            old_name,
            new_name,
            now,
            nonce,
            encode,
            write,
            after,
            r,
        ),
        r is Ok,
    ensures
        vault::revealed(before, old_name) is Ok,
        ({
            let moved = vault::revealed(before, old_name)->Ok_0;
            &&& vault::revealed(after, new_name) matches Ok(entry)
            &&& entry.value == moved.value
            &&& entry.group == moved.group
            &&& entry.created_at == moved.created_at
            &&& entry.updated_at == now
        }),
        vault::normalized_name(old_name) != vault::normalized_name(new_name) ==> vault::revealed(
            after,
            old_name,
        ) is Err,
        vault::normalized_name(other) != vault::normalized_name(old_name)
            && vault::normalized_name(other) != vault::normalized_name(new_name)
            ==> vault::revealed(after, other) == vault::revealed(before, other),
{
}

/// A deleted secret is not found, and every other one is as it was.
pub proof fn a_deleted_secret_is_gone<
    E: Fn(&VaultPlaintext) -> Result<Vec<u8>, String>,
    W: Fn(&VaultFile) -> Result<(), VaultError>,
>(
    before: VaultStore,
    name: Seq<char>,
    other: Seq<char>,
    nonce: Result<Vec<u8>, VaultError>,
    encode: E,
    write: W,
    after: VaultStore,
    r: Result<(), VaultError>,
)
    requires
        vault::delete_outcome(before, name, nonce, encode, write, after, r),
        r is Ok,
    ensures
        vault::revealed(after, name) == Err::<VaultEntry, Seq<char>>("Secret not found"@),
        vault::normalized_name(other) != vault::normalized_name(name) ==> vault::revealed(
            after,
            other,
        ) == vault::revealed(before, other),
{
}

/// A locked vault gives nothing out.
pub proof fn a_locked_vault_reveals_nothing(store: VaultStore, name: Seq<char>)
    requires
        !vault::is_unlocked(store),
    ensures
        vault::revealed(store, name) is Err,
{
}

/// A file that was saved opens, with the password that its key came from, to
/// the bytes that were saved.
pub proof fn a_saved_file_opens(
    file: VaultFile,
    password: Seq<char>,
    salt: Seq<u8>,
    iterations: u32,
    nonce: Seq<u8>,
    bytes: Seq<u8>,
)
    requires
        vault::seals(
            file,
            vault::password_key(password, salt, iterations),
            salt,
            iterations,
            nonce,
            bytes,
        ),
        salt.len() >= 16,
        nonce.len() == 12,
        vault::valid_iterations(iterations),
        bytes.len() <= crypto::MAX_MESSAGE_BYTES,
    ensures
        vault::opened(file, password) == Ok::<Seq<u8>, Seq<char>>(bytes),
{
}

/// Where saving succeeded, the file that was written opens with the password
/// to what `encode` made of the data.
pub proof fn what_is_saved_can_be_opened<
    E: Fn(&VaultPlaintext) -> Result<Vec<u8>, String>,
    W: Fn(&VaultFile) -> Result<(), VaultError>,
>(
    data: VaultPlaintext,
    password: Seq<char>,
    salt: Seq<u8>,
    iterations: u32,
    nonce: Result<Vec<u8>, VaultError>,
    encode: E,
    write: W,
    r: Result<(), VaultError>,
)
    requires
        vault::save_outcome(
            data,
            vault::password_key(password, salt, iterations),
            salt,
            iterations,
            nonce,
            encode,
            write,
            r,
        ),
        r is Ok,
        salt.len() >= 16,
        vault::is_nonce(nonce),
        vault::valid_iterations(iterations),
    ensures
        exists|file: VaultFile, bytes: Vec<u8>|
            #![trigger call_ensures(write, (&file,), r), call_ensures(
                encode,
                (&data,),
                Ok::<Vec<u8>, String>(bytes),
            )]
            {
                &&& call_ensures(write, (&file,), r)
                &&& call_ensures(encode, (&data,), Ok::<Vec<u8>, String>(bytes))
                &&& vault::opened(file, password) == Ok::<Seq<u8>, Seq<char>>(bytes@)
            },
{
    let encoded = choose|encoded: Result<Vec<u8>, String>|
        #![trigger call_ensures(encode, (&data,), encoded)]
        call_ensures(encode, (&data,), encoded) && match encoded {
            Err(message) => false,
            Ok(bytes) => if vault::exceeds(bytes@, iterations, salt) {
                false
            } else {
                exists|file: VaultFile|
                    #![trigger call_ensures(write, (&file,), r)]
                    vault::seals(
                        file,
                        vault::password_key(password, salt, iterations),
                        salt,
                        iterations,
                        nonce->Ok_0@,
                        bytes@,
                    ) && call_ensures(write, (&file,), r)
            },
        };
    let bytes = encoded->Ok_0;
    let file = choose|file: VaultFile|
        #![trigger call_ensures(write, (&file,), r)]
        vault::seals(
            file,
            vault::password_key(password, salt, iterations),
            salt,
            iterations,
            nonce->Ok_0@,
            bytes@,
        ) && call_ensures(write, (&file,), r);
    a_saved_file_opens(file, password, salt, iterations, nonce->Ok_0@, bytes@);
    assert(encoded == Ok::<Vec<u8>, String>(bytes));
}

/// Saving is left to writing alone: where there is a nonce, and the contents
/// are encoded in no more bytes than AES-GCM takes, a file that seals them is
/// handed to `write`, and its answer is the outcome.
pub proof fn ordinary_vaults_are_written<
    E: Fn(&VaultPlaintext) -> Result<Vec<u8>, String>,
    W: Fn(&VaultFile) -> Result<(), VaultError>,
>(
    data: VaultPlaintext,
    key: Seq<u8>,
    salt: Seq<u8>,
    iterations: u32,
    nonce: Result<Vec<u8>, VaultError>,
    encode: E,
    write: W,
    r: Result<(), VaultError>,
)
    requires
        vault::save_outcome(data, key, salt, iterations, nonce, encode, write, r),
        nonce is Ok,
        salt.len() <= crypto::MAX_ASSOCIATED_BYTES / 2,
        forall|encoded: Result<Vec<u8>, String>| #[trigger]
            call_ensures(encode, (&data,), encoded) ==> encoded is Ok && encoded->Ok_0@.len()
                <= crypto::MAX_MESSAGE_BYTES,
    ensures
        exists|file: VaultFile, bytes: Vec<u8>|
            #![trigger call_ensures(write, (&file,), r), call_ensures(
                encode,
                (&data,),
                Ok::<Vec<u8>, String>(bytes),
            )]
            {
                &&& call_ensures(encode, (&data,), Ok::<Vec<u8>, String>(bytes))
                &&& vault::seals(file, key, salt, iterations, nonce->Ok_0@, bytes@)
                &&& call_ensures(write, (&file,), r)
            },
{
    let encoded = choose|encoded: Result<Vec<u8>, String>|
        #![trigger call_ensures(encode, (&data,), encoded)]
        call_ensures(encode, (&data,), encoded) && match encoded {
            Err(message) => r is Err && r->Err_0.0@ == "Could not encode vault: "@ + message@,
            Ok(bytes) => if vault::exceeds(bytes@, iterations, salt) {
                r is Err && r->Err_0.0@ == "Could not encrypt vault"@
            } else {
                exists|file: VaultFile|
                    #![trigger call_ensures(write, (&file,), r)]
                    vault::seals(file, key, salt, iterations, nonce->Ok_0@, bytes@)
                        && call_ensures(write, (&file,), r)
            },
        };
    let bytes = encoded->Ok_0;
    vault::ordinary_vaults_fit(bytes@, iterations, salt);
    assert(encoded == Ok::<Vec<u8>, String>(bytes));
}

/// Unlocking with the right password gives back the secrets and the AWS
/// settings that were saved, whenever `parse` reads what `encode` wrote.
pub proof fn a_saved_vault_unlocks_to_what_it_held<P: Fn(&Vec<u8>) -> Option<VaultPlaintext>>(
    saved: VaultStore,
    before: VaultStore,
    password: Seq<char>,
    file: VaultFile,
    bytes: Seq<u8>,
    parse: P,
    after: VaultStore,
    r: Result<(), VaultError>,
)
    requires
        saved.wf(),
        vault::is_unlocked(saved),
        vault::is_password(password),
        vault::opened(file, password) == Ok::<Seq<u8>, Seq<char>>(bytes),
        forall|buffer: Vec<u8>, parsed: Option<VaultPlaintext>|
            buffer@ == bytes && #[trigger] call_ensures(parse, (&buffer,), parsed)
                ==> reads_back(parsed, saved.data->Some_0),
        vault::unlock_outcome(
            before,
            password,
            Ok::<VaultFile, VaultError>(file),
            parse,
            after,
            r,
        ),
    ensures
        r is Ok,
        vault::secrets(after) == vault::secrets(saved),
        after.data->Some_0.revision == saved.data->Some_0.revision,
        after.data->Some_0.aws == saved.data->Some_0.aws,
        forall|name: Seq<char>| #[trigger]
            vault::revealed(after, name) == vault::revealed(saved, name),
{
    let (buffer, parsed) = choose|buffer: Vec<u8>, parsed: Option<VaultPlaintext>|
        {
            &&& buffer@ == bytes
            &&& #[trigger] call_ensures(parse, (&buffer,), parsed)
            &&& match parsed {
                None => vault::refuses(r, "Vault plaintext is invalid"@) && after == before,
                Some(found) => exists|table: Seq<SecretRecord>|
                    {
                        &&& #[trigger] vault::sorted(table)
                        &&& vault::entries(table) == vault::entries(found.secrets@)
                        &&& match vault::plaintext_error(found.version, table) {
                            Some(error) => vault::refuses(r, error) && after == before,
                            None => r is Ok && vault::is_opened(
                                after,
                                before,
                                file,
                                password,
                                found,
                                table,
                            ),
                        }
                    },
            }
        };
    assert(reads_back(parsed, saved.data->Some_0));
    let found = parsed->Some_0;
    let table = choose|table: Seq<SecretRecord>|
        {
            &&& #[trigger] vault::sorted(table)
            &&& vault::entries(table) == vault::entries(found.secrets@)
            &&& match vault::plaintext_error(found.version, table) {
                Some(error) => vault::refuses(r, error) && after == before,
                None => r is Ok && vault::is_opened(after, before, file, password, found, table),
            }
        };
    vault::records_are_valid(table);
}

/// Whether what was parsed says the same as what was encoded.
pub open spec fn reads_back(parsed: Option<VaultPlaintext>, data: VaultPlaintext) -> bool {
    &&& parsed matches Some(found)
    &&& found.version == data.version
    &&& found.revision == data.revision
    &&& found.aws == data.aws
    &&& vault::entries(found.secrets@) == vault::entries(data.secrets@)
}

/// A vault that is made can be opened with its password from what was written.
pub proof fn a_new_vault_opens_with_its_password<
    E: Fn(&VaultPlaintext) -> Result<Vec<u8>, String>,
    W: Fn(&VaultFile) -> Result<(), VaultError>,
>(
    before: VaultStore,
    password: Seq<char>,
    present: Result<bool, VaultError>,
    salt: Result<Vec<u8>, VaultError>,
    nonce: Result<Vec<u8>, VaultError>,
    encode: E,
    write: W,
    after: VaultStore,
    r: Result<(), VaultError>,
)
    requires
        vault::create_outcome(
            before,
            password,
            present,
            salt,
            nonce,
            encode,
            write,
            after,
            r,
        ),
        r is Ok,
        vault::is_salt(salt),
        vault::is_nonce(nonce),
    ensures
        present == Ok::<bool, VaultError>(false),
        vault::secrets(after) == Map::<Seq<char>, VaultEntry>::empty(),
        exists|file: VaultFile, bytes: Vec<u8>|
            #![trigger call_ensures(write, (&file,), r), call_ensures(
                encode,
                (&after.data->Some_0,),
                Ok::<Vec<u8>, String>(bytes),
            )]
            {
                &&& call_ensures(write, (&file,), r)
                &&& call_ensures(encode, (&after.data->Some_0,), Ok::<Vec<u8>, String>(bytes))
                &&& vault::opened(file, password) == Ok::<Seq<u8>, Seq<char>>(bytes@)
            },
{
    what_is_saved_can_be_opened(
        after.data->Some_0,
        password,
        salt->Ok_0@,
        vault::PBKDF2_ITERATIONS,
        nonce,
        encode,
        write,
        r,
    );
}

/// After a change of password the file that was written opens with the new
/// password, and what the vault holds is unchanged.
pub proof fn a_changed_password_opens_the_same_vault<
    E: Fn(&VaultPlaintext) -> Result<Vec<u8>, String>,
    W: Fn(&VaultFile) -> Result<(), VaultError>,
>(
    before: VaultStore,
    password: Seq<char>,
    salt: Result<Vec<u8>, VaultError>,
    nonce: Result<Vec<u8>, VaultError>,
    encode: E,
    write: W,
    after: VaultStore,
    r: Result<(), VaultError>,
)
    requires
        vault::change_password_outcome(
            before,
            password,
            salt,
            nonce,
            encode,
            write,
            after,
            r,
        ),
        r is Ok,
        vault::is_salt(salt),
        vault::is_nonce(nonce),
    ensures
        after.data == before.data,
        exists|file: VaultFile, bytes: Vec<u8>|
            #![trigger call_ensures(write, (&file,), r), call_ensures(
                encode,
                (&after.data->Some_0,),
                Ok::<Vec<u8>, String>(bytes),
            )]
            {
                &&& call_ensures(write, (&file,), r)
                &&& call_ensures(encode, (&after.data->Some_0,), Ok::<Vec<u8>, String>(bytes))
                &&& vault::opened(file, password) == Ok::<Seq<u8>, Seq<char>>(bytes@)
            },
{
    what_is_saved_can_be_opened(
        before.data->Some_0,
        password,
        salt->Ok_0@,
        vault::PBKDF2_ITERATIONS,
        nonce,
        encode,
        write,
        r,
    );
}

} // verus!
