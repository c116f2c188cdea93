//! What the deeds of the main window do to the vault, the settings and the
//! grants, stated over these, and how the window is spoken of.

use vstd::prelude::*;

use crate::aws::AwsConfiguration;
use crate::controller::{AppSnapshot, Controller};
use crate::controller_aws;
use crate::controller_aws_requests;
use crate::controller_requests;
use crate::crypto;
use crate::text;
use crate::text_laws;
use crate::vault;
use crate::vault::{VaultEntry, VaultError, VaultFile, VaultPlaintext};
use crate::vault_records;
use crate::view::forms;
use crate::view::forms::{AliasForm, Modal, ModalState, TargetTexts};
use crate::view::labels;
use crate::view::main_view;
use crate::view::main_view::{GrantChange, MainView};
use crate::view::pages;
use crate::view::pages::{AuthPage, AwsAction, AwsPage};
use crate::view::requests;
use crate::view::requests::RequestView;

verus! {

/// The window is spoken of as it is: every input by what it holds, the value
/// that is shown by its secret, the message and the errors by their words.
pub proof fn windows_are_spoken_of_as_they_are(view: MainView)
    ensures
        view@.page == view.page,
        view@.inputs.auth_password == view.inputs.auth_password@,
        view@.inputs.auth_confirmation == view.inputs.auth_confirmation@,
        view@.inputs.search == view.inputs.search@,
        view@.inputs.secret_name == view.inputs.secret_name@,
        view@.inputs.secret_value == view.inputs.secret_value@,
        view@.inputs.new_password == view.inputs.new_password@,
        view@.inputs.password_confirmation == view.inputs.password_confirmation@,
        view@.inputs.aws_start_url == view.inputs.aws_start_url@,
        view@.inputs.aws_region == view.inputs.aws_region@,
        view@.revealed is Some <==> view.revealed is Some,
        view.revealed matches Some(shown) ==> view@.revealed == Some((shown.0@, shown.1@)),
        view@.modal is Some <==> view.modal is Some,
        view@.auth_error is Some <==> view.auth_error is Some,
        view.auth_error matches Some(error) ==> view@.auth_error == Some(error@),
        view@.form_error is Some <==> view.form_error is Some,
        view.form_error matches Some(error) ==> view@.form_error == Some(error@),
        view@.toast is Some <==> view.toast is Some,
        view.toast matches Some(toast) ==> view@.toast->Some_0.message == toast.message@
            && view@.toast->Some_0.danger == toast.danger && view@.toast->Some_0.expires_at
            == toast.expires_at,
        view@.aliases.len() == view.aws_aliases@.len(),
{
}

/// Forms and questions are spoken of as they are.
pub proof fn forms_are_spoken_of_as_they_are(form: AliasForm, modal: Modal, asked: RequestView)
    ensures
        form@.account_id == form.account_id@,
        form@.account_name == form.account_name@,
        form@.email_address == form.email_address@,
        form@.profile == form.profile@,
        form@.read_only_role == form.read_only_role@,
        form@.admin_role == form.admin_role@,
        form@.region == form.region@,
        form@.roles.len() == form.roles@.len(),
        forall|k: int| 0 <= k < form.roles@.len() ==> (#[trigger] form@.roles[k]) == form.roles@[k]@,
        modal is Secret <==> modal@ is Secret,
        modal is Password <==> modal@ is Password,
        modal is AwsConnection <==> modal@ is AwsConnection,
        modal is AwsAliases <==> modal@ is AwsAliases,
        modal matches Modal::Delete(name) ==> modal@ == ModalState::Delete(name@),
        modal matches Modal::Secret { original_name: Some(name) } ==> modal@ == (
        ModalState::Secret { original_name: Some(name@) }),
        modal matches Modal::Secret { original_name: None } ==> modal@ == (ModalState::Secret {
            original_name: None,
        }),
        asked@.error is Some <==> asked.error is Some,
        asked.error matches Some(error) ==> asked@.error == Some(error@),
{
}

/// A vault is made under the password that was typed: it is then open and empty,
/// under the key that this password gives.
pub proof fn made_vaults_open_with_what_was_typed<
    E: Fn(&VaultPlaintext) -> Result<Vec<u8>, String>,
    W: Fn(&VaultFile) -> Result<(), VaultError>,
>(
    before: Controller,
    password: Seq<char>,
    present: Result<bool, VaultError>,
    encode: E,
    write: W,
    after: Controller,
    r: Result<(), VaultError>,
)
    requires
        main_view::vault_created(before, password, present, encode, write, after, r),
    ensures
        password.len() < 7 ==> r is Err,
        r is Err ==> after.vault == before.vault && after.grants == before.grants,
        r is Ok ==> {
            &&& after.vault.data is Some
            &&& vault_records::records(after.vault).len() == 0
            &&& after.vault.key is Some && after.vault.salt is Some
            &&& after.vault.key->Some_0@ == crypto::pbkdf2_sha256(
                vstd::utf8::encode_utf8(password),
                after.vault.salt->Some_0@,
                600_000,
            )
            &&& after.vault.salt->Some_0@.len() == 16
            &&& after.waiting_for_unlock@.len() == 0
        },
{
    let (salt, nonce) = choose|
        salt: Result<Vec<u8>, VaultError>,
        nonce: Result<Vec<u8>, VaultError>,
    |
        vault::is_salt(salt) && vault::is_nonce(nonce) && #[trigger] vault::create_outcome(
            before.vault,
            password,
            present,
            salt,
            nonce,
            encode,
            write,
            after.vault,
            r,
        );
    vault_records::new_vaults_are_empty(
        before.vault,
        password,
        present,
        salt,
        nonce,
        encode,
        write,
        after.vault,
        r,
    );
}

/// The password is changed to the one that was typed, and nothing else.
pub proof fn the_typed_password_is_set<
    E: Fn(&VaultPlaintext) -> Result<Vec<u8>, String>,
    W: Fn(&VaultFile) -> Result<(), VaultError>,
>(
    before: Controller,
    password: Seq<char>,
    encode: E,
    write: W,
    after: Controller,
    r: Result<(), VaultError>,
)
    requires
        before.wf(),
        main_view::password_changed(before, password, encode, write, after, r),
    ensures
        r is Err ==> after == before,
        r is Ok ==> {
            &&& after.vault.data == before.vault.data
            &&& after.vault.key is Some && after.vault.salt is Some
            &&& after.vault.key->Some_0@ == crypto::pbkdf2_sha256(
                vstd::utf8::encode_utf8(password),
                after.vault.salt->Some_0@,
                600_000,
            )
            &&& after.vault.salt->Some_0@.len() == 16
        },
        after.grants == before.grants,
        after.pending == before.pending,
        after.audit == before.audit,
{
    let (salt, nonce) = choose|
        salt: Result<Vec<u8>, VaultError>,
        nonce: Result<Vec<u8>, VaultError>,
    |
        vault::is_salt(salt) && vault::is_nonce(nonce) && #[trigger] vault::change_password_outcome(
            before.vault,
            password,
            salt,
            nonce,
            encode,
            write,
            after.vault,
            r,
        );
    vault_records::changing_the_password_changes_the_key_alone(
        before.vault,
        password,
        salt,
        nonce,
        encode,
        write,
        after.vault,
        r,
    );
}

/// A new secret is kept under the name that was typed with the value that was
/// typed; every other secret stays.
pub proof fn the_typed_secret_is_kept<
    E: Fn(&VaultPlaintext) -> Result<Vec<u8>, String>,
    W: Fn(&VaultFile) -> Result<(), VaultError>,
>(
    before: Controller,
    name: Seq<char>,
    kept: Seq<char>,
    value: Seq<char>,
    encode: E,
    write: W,
    after: Controller,
    r: Result<(), VaultError>,
)
    requires
        before.wf(),
        after.wf(),
        before.vault.data is Some,
        vault::normalized_name(name) == Ok::<Seq<char>, Seq<char>>(kept),
        main_view::secret_saved(before, name, value, None, encode, write, after, r),
    ensures
        exists|i: int|
            0 <= i < vault_records::records(after.vault).len() && (#[trigger]
            vault_records::records(after.vault)[i]).name@ == kept && vault_records::records(
                after.vault,
            )[i].entry.value@ == value,
        forall|other: Seq<char>, entry: VaultEntry|
            other != kept ==> (#[trigger] vault_records::keeps(after.vault, other, entry)
                <==> vault_records::keeps(before.vault, other, entry)),
        after.grants == before.grants,
        after.pending == before.pending,
        after.audit == before.audit,
{
    let (now, rename_nonce, nonce) = choose|
        now: String,
        rename_nonce: Result<Vec<u8>, VaultError>,
        nonce: Result<Vec<u8>, VaultError>,
    |
        vault::is_nonce(rename_nonce) && vault::is_nonce(nonce) && #[trigger]
            crate::controller::save_outcome(
            before.vault,
            name,
            value,
            None,
            now,
            rename_nonce,
            nonce,
            encode,
            write,
            after.vault,
            r,
        );
    controller_requests::typed_secrets_are_saved(
        before.vault,
        name,
        kept,
        value,
        None,
        now,
        rename_nonce,
        nonce,
        encode,
        write,
        after.vault,
        r,
    );
}

/// A connection is kept with the portal and the region that were typed.
pub proof fn the_typed_connection_is_kept<
    E: Fn(&VaultPlaintext) -> Result<Vec<u8>, String>,
    W: Fn(&VaultFile) -> Result<(), VaultError>,
>(
    before: Controller,
    start_url: Seq<char>,
    region: Seq<char>,
    encode: E,
    write: W,
    after: Controller,
    r: Result<(), VaultError>,
)
    requires
        before.wf(),
        main_view::connection_saved(before, start_url, region, encode, write, after, r),
    ensures
        r is Ok ==> {
            &&& before.vault.data is Some
            &&& after.vault.data is Some
            &&& after.vault.data->Some_0.aws matches Some(settings)
            &&& settings.start_url@ == start_url
            &&& settings.sso_region@ == region
            &&& before.vault.data->Some_0.aws matches Some(kept) ==> if kept.start_url@ == start_url
                && kept.sso_region@ == region {
                settings.targets@ == kept.targets@ && settings.token == kept.token
            } else {
                settings.targets@.len() == 0 && settings.token is None
            }
            &&& before.vault.data->Some_0.aws is None ==> settings.targets@.len() == 0
        },
        after.grants == before.grants,
{
    let (nonce, configuration) = choose|
        nonce: Result<Vec<u8>, VaultError>,
        configuration: AwsConfiguration,
    |
        {
            &&& vault::is_nonce(nonce)
            &&& configuration.start_url@ == start_url
            &&& configuration.sso_region@ == region
            &&& vault::is_unlocked(before.vault) ==> configuration.targets@
                == main_view::kept_targets(before)
            &&& #[trigger] controller_aws::configure_outcome(
                before,
                configuration,
                nonce,
                encode,
                write,
                after,
                r,
            )
        };
    controller_aws_requests::configurations_are_kept(
        before,
        configuration,
        nonce,
        encode,
        write,
        after,
        r,
    );
}

/// Profiles are kept as they were asked for, where the connection stays the
/// same.
pub proof fn the_asked_profiles_are_kept<
    E: Fn(&VaultPlaintext) -> Result<Vec<u8>, String>,
    W: Fn(&VaultFile) -> Result<(), VaultError>,
>(
    before: Controller,
    start_url: Seq<char>,
    region: Seq<char>,
    targets: Seq<TargetTexts>,
    encode: E,
    write: W,
    after: Controller,
    r: Result<(), VaultError>,
    k: int,
)
    requires
        before.wf(),
        main_view::profiles_saved(before, start_url, region, targets, encode, write, after, r),
        r is Ok,
        before.vault.data is Some,
        before.vault.data->Some_0.aws is Some,
        before.vault.data->Some_0.aws->Some_0.start_url@ == start_url,
        before.vault.data->Some_0.aws->Some_0.sso_region@ == region,
        0 <= k < targets.len(),
    ensures
        after.vault.data is Some,
        after.vault.data->Some_0.aws is Some,
        ({
            let kept = after.vault.data->Some_0.aws->Some_0.targets@;
            &&& kept.len() == targets.len()
            &&& kept[k].profile@ == targets[k].profile
            &&& kept[k].account_id@ == targets[k].account_id
            &&& kept[k].read_only_role@ == targets[k].read_only_role
            &&& kept[k].admin_role@ == targets[k].admin_role
            &&& kept[k].region@ == targets[k].region
        }),
{
    let (nonce, configuration) = choose|
        nonce: Result<Vec<u8>, VaultError>,
        configuration: AwsConfiguration,
    |
        {
            &&& vault::is_nonce(nonce)
            &&& configuration.start_url@ == start_url
            &&& configuration.sso_region@ == region
            &&& forms::targets_texts(configuration.targets@) == targets
            &&& #[trigger] controller_aws::configure_outcome(
                before,
                configuration,
                nonce,
                encode,
                write,
                after,
                r,
            )
        };
    controller_aws_requests::configurations_are_kept(
        before,
        configuration,
        nonce,
        encode,
        write,
        after,
        r,
    );
    let shown = forms::targets_texts(configuration.targets@);
    assert(shown.len() == configuration.targets@.len());
    assert(shown[k] == forms::target_texts(configuration.targets@[k]));
}

/// Revoking a grant or a decision, and lifting a denial, takes one away, and an
/// extension none; the other kinds stay as they are.
pub proof fn changes_touch_one_kind(
    before: Controller,
    id: Seq<char>,
    change: GrantChange,
    after: Controller,
)
    requires
        main_view::grant_changed(before, id, change, after),
    ensures
        change is Extend || change is Revoke ==> after.aws_process_decisions
            == before.aws_process_decisions && after.aws_process_denials
            == before.aws_process_denials,
        change is ExtendAws || change is RevokeAws ==> after.grants == before.grants
            && after.aws_process_denials == before.aws_process_denials,
        change is Unblock ==> after.grants == before.grants && after.aws_process_decisions
            == before.aws_process_decisions,
        after.vault == before.vault,
        after.pending == before.pending,
        after.pending_aws == before.pending_aws,
        change is Revoke && (exists|j: int|
            0 <= j < before.grants.grants@.len() && (#[trigger] before.grants.grants@[j]).id@ == id)
            ==> after.grants.grants@.len() == before.grants.grants@.len() - 1,
        change is RevokeAws && (exists|j: int|
            0 <= j < before.aws_process_decisions@.len() && (
            #[trigger] before.aws_process_decisions@[j]).id@ == id)
            ==> after.aws_process_decisions@.len() == before.aws_process_decisions@.len() - 1,
        change is Unblock && (exists|j: int|
            0 <= j < before.aws_process_denials@.len() && (
            #[trigger] before.aws_process_denials@[j]).id@ == id)
            ==> after.aws_process_denials@.len() == before.aws_process_denials@.len() - 1,
        change is ExtendAws ==> after.aws_process_decisions@.len()
            == before.aws_process_decisions@.len(),
{
    match change {
        GrantChange::Revoke => {
            let now = choose|now: u64| #[trigger]
                crate::controller::revoke_outcome(before, id, now, after);
            controller_requests::a_revoked_grant_is_taken_away(before, id, now, after);
        },
        GrantChange::RevokeAws => {
            let now = choose|now: u64| #[trigger]
                controller_aws::revoke_aws_outcome(before, id, now, after);
            controller_aws_requests::a_revoked_decision_is_taken_away(before, id, now, after);
        },
        GrantChange::Unblock => {
            let now = choose|now: u64| #[trigger]
                controller_aws::unblock_outcome(before, id, now, after);
            controller_aws_requests::a_lifted_denial_is_taken_away(before, id, now, after);
        },
        GrantChange::ExtendAws => {
            let now = choose|now: u64| #[trigger]
                controller_aws::extend_aws_outcome(before, id, now, after);
            controller_aws_requests::live_decisions_are_found(
                before.aws_process_decisions@,
                id,
                now,
            );
        },
        _ => {},
    }
}

/// The AWS part shows the connection, every profile with its account and both
/// roles, and what can be done: connect first, then sign in, then assign
/// profiles. While a login is under way no other can be started.
pub proof fn the_aws_part_shows_the_settings(
    page: AwsPage,
    snapshot: AppSnapshot,
    seconds: u64,
    i: int,
)
    requires
        pages::is_aws_page(page, snapshot, seconds),
    ensures
        snapshot.aws is None ==> {
            &&& page.connection is None
            &&& page.profiles@.len() == 0
            &&& page.actions@ == seq![AwsAction::Connect]
            &&& !page.assign
        },
        snapshot.aws matches Some(summary) ==> {
            let working = snapshot.aws_login is Starting || snapshot.aws_login is AwaitingUser
                || snapshot.aws_login is Discovering;
            &&& page.connection is Some
            &&& page.connection->Some_0.start_url@ == summary.configuration.start_url@
            &&& page.connection->Some_0.logged_in == summary.logged_in
            &&& page.actions@ == seq![
                AwsAction::Refresh { working },
                AwsAction::Configure {
                    aliases: summary.discovered_accounts@.len() > 0,
                    enabled: !working,
                },
            ]
            &&& page.assign <==> summary.discovery_complete && summary.discovered_accounts@.len()
                > 0 && summary.configuration.targets@.len() == 0
            &&& page.profiles@.len() == summary.configuration.targets@.len()
            &&& 0 <= i < page.profiles@.len() ==> {
                let target = summary.configuration.targets@[i];
                &&& page.profiles@[i].profile@ == target.profile@
                &&& page.profiles@[i].account@ == "Account "@ + target.account_id@
                &&& page.profiles@[i].read_only_role@ == target.read_only_role@
                &&& page.profiles@[i].admin_role@ == target.admin_role@
            }
        },
{
    if let Some(summary) = snapshot.aws {
        if 0 <= i < page.profiles@.len() {
            assert(pages::is_profile_row(
                page.profiles@[i],
                summary.configuration.targets@[i],
            ));
        }
    }
}

/// The question for the password says whether a vault is made or opened, and
/// what went wrong.
pub proof fn the_password_is_asked_for(page: AuthPage, creating: bool, error: Option<Seq<char>>)
    requires
        pages::is_auth_page(page, creating, error),
    ensures
        page.confirm == creating,
        creating ==> page.submit@ == "Create encrypted vault"@,
        !creating ==> page.submit@ == "Unlock vault"@,
        error is Some <==> page.error is Some,
        error matches Some(words) ==> page.error->Some_0@ == words,
{
}

/// A result is told as it is.
pub proof fn results_are_told_as_they_are(result: Result<(), VaultError>)
    ensures
        requests::outcome(result) is Ok <==> result is Ok,
        result matches Err(error) ==> requests::outcome(result) == Err::<(), Seq<char>>(error.0@),
        main_view::is_present(Ok::<bool, VaultError>(true)),
        !main_view::is_present(Ok::<bool, VaultError>(false)),
{
}

proof fn joined_pieces(pieces: Seq<Seq<char>>)
    requires
        forall|k: int| 0 <= k < pieces.len() ==> (#[trigger] pieces[k]).len() > 0,
        forall|k: int| 0 <= k < pieces.len() ==> !(#[trigger] pieces[k]).contains('-'),
    ensures
        labels::joined(pieces, "-"@) == text_laws::rejoined(pieces, '-'),
        pieces.len() > 0 ==> labels::joined(pieces, "-"@).len() > 0 && labels::joined(
            pieces,
            "-"@,
        )[0] != '-' && labels::joined(pieces, "-"@).last() != '-',
        forall|i: int|
            0 <= i < labels::joined(pieces, "-"@).len() - 1 ==> !(labels::joined(pieces, "-"@)[i]
                == '-' && #[trigger] labels::joined(pieces, "-"@)[i + 1] == '-'),
    decreases pieces.len(),
{
    reveal_strlit("-");
    let all = labels::joined(pieces, "-"@);
    if pieces.len() == 1 {
        assert(pieces[0].len() > 0 && !pieces[0].contains('-'));
        assert(pieces[0].contains(pieces[0][0]));
        assert(pieces[0].contains(pieces[0].last()));
        assert forall|i: int| 0 <= i < all.len() - 1 implies !(all[i] == '-' && #[trigger] all[i
            + 1] == '-') by {
            assert(pieces[0].contains(pieces[0][i]));
        }
    } else if pieces.len() > 1 {
        let rest = pieces.drop_last();
        let last = pieces.last();
        assert forall|k: int| 0 <= k < rest.len() implies (#[trigger] rest[k]).len() > 0 && !(
        rest[k]).contains('-') by {
            assert(rest[k] == pieces[k]);
        }
        joined_pieces(rest);
        let before = labels::joined(rest, "-"@);
        assert("-"@ =~= seq!['-']);
        assert(all =~= before.push('-') + last);
        assert(pieces[pieces.len() - 1] == last);
        assert(last.contains(last[0]));
        assert(last.contains(last.last()));
        assert(all.last() == last.last());
        assert forall|i: int| 0 <= i < all.len() - 1 implies !(all[i] == '-' && #[trigger] all[i
            + 1] == '-') by {
            let n = before.len() as int;
            if i + 1 < n {
                assert(all[i] == before[i] && all[i + 1] == before[i + 1]);
            } else if i + 1 == n {
                assert(all[i] == before.last());
            } else if i == n {
                assert(all[i + 1] == last[0]);
            } else {
                assert(all[i] == last[i - n - 1]);
                assert(last.contains(last[i - n - 1]));
            }
        }
    }
}

proof fn kept_pieces(pieces: Seq<Seq<char>>)
    requires
        forall|k: int| 0 <= k < pieces.len() ==> !(#[trigger] pieces[k]).contains('-'),
    ensures
        forall|k: int|
            0 <= k < text::non_empty(pieces).len() ==> (#[trigger] text::non_empty(pieces)[k]).len()
                > 0,
        forall|k: int|
            0 <= k < text::non_empty(pieces).len() ==> !(
            #[trigger] text::non_empty(pieces)[k]).contains('-'),
    decreases pieces.len(),
{
    if pieces.len() > 0 {
        let rest = pieces.drop_last();
        assert forall|k: int| 0 <= k < rest.len() implies !(#[trigger] rest[k]).contains('-') by {
            assert(rest[k] == pieces[k]);
        }
        kept_pieces(rest);
        assert(!pieces[pieces.len() - 1].contains('-'));
        let before = text::non_empty(rest);
        let all = text::non_empty(pieces);
        assert forall|k: int| 0 <= k < all.len() implies (#[trigger] all[k]).len() > 0
            && !all[k].contains('-') by {
            if k < before.len() {
                assert(all[k] == before[k]);
            }
        }
    }
}

/// The alias that an account's name gives neither starts nor ends with a hyphen
/// and has no two of them in a row.
pub proof fn aliases_are_words_with_hyphens(account_name: Seq<char>)
    ensures
        ({
            let alias = labels::alias_of(account_name);
            &&& alias.len() > 0 ==> alias[0] != '-' && alias.last() != '-'
            &&& forall|i: int|
                0 <= i < alias.len() - 1 ==> !(alias[i] == '-' && #[trigger] alias[i + 1] == '-')
        }),
{
    let plain = account_name.map_values(|c: char| labels::alias_char(c));
    let pieces = text::split_on(plain, '-');
    text_laws::splitting_is_undone_by_joining(plain, '-');
    kept_pieces(pieces);
    joined_pieces(text::non_empty(pieces));
}

/// A name that is one word of letters and digits gives that word in lower case.
pub proof fn one_word_gives_itself(word: Seq<char>)
    requires
        word.len() > 0,
        forall|i: int| 0 <= i < word.len() ==> text::is_ascii_alphanumeric(#[trigger] word[i]),
    ensures
        labels::alias_of(word) == text::lowered(word),
{
    let plain = word.map_values(|c: char| labels::alias_char(c));
    let low = text::lowered(word);
    assert(plain =~= low) by {
        assert forall|i: int| 0 <= i < word.len() implies plain[i] == low[i] by {
            assert(text::is_ascii_alphanumeric(word[i]));
        }
    }
    text_laws::lowering_changes_ascii_capitals(word);
    assert(!plain.contains('-')) by {
        if plain.contains('-') {
            let i = plain.index_of('-');
            assert(text::is_ascii_alphanumeric(word[i]));
            text_laws::ascii_letters_and_digits(word[i]);
            assert(low[i] as u32 >= 48);
        }
    }
    text_laws::separators_part_a_text(plain, '-', Seq::empty());
    reveal_with_fuel(text::non_empty, 2);
    let pieces = text::split_on(plain, '-');
    assert(pieces == seq![plain]);
    assert(pieces.drop_last() =~= Seq::<Seq<char>>::empty());
    assert(text::non_empty(pieces) =~= seq![plain]);
}

/// The vault is opened with the password that was typed: it is then open under
/// the key that this password gives for the file, and no request waits for it
/// any more. Where that fails, nothing changes.
pub proof fn the_typed_password_opens<P: Fn(&Vec<u8>) -> Option<VaultPlaintext>>(
    before: Controller,
    password: Seq<char>,
    file: VaultFile,
    parse: P,
    after: Controller,
    r: Result<(), VaultError>,
)
    requires
        after.vault.wf(),
        main_view::vault_unlocked(
            before,
            password,
            Ok::<VaultFile, VaultError>(file),
            parse,
            after,
            r,
        ),
    ensures
        r is Err ==> after == before,
        r is Ok ==> {
            let salt = crypto::base64_decoded(file.kdf.salt@);
            &&& password.len() >= 7
            &&& salt is Some
            &&& after.vault.data is Some && after.vault.key is Some && after.vault.salt is Some
            &&& after.vault.key->Some_0@ == crypto::pbkdf2_sha256(
                vstd::utf8::encode_utf8(password),
                salt->Some_0,
                file.kdf.iterations,
            )
            &&& after.vault.path == before.vault.path
            &&& after.waiting_for_unlock@.len() == 0
        },
{
    vault_records::unlocking_holds_what_the_file_held(
        before.vault,
        password,
        file,
        parse,
        after.vault,
        r,
    );
}

/// The secret that was chosen is deleted, with its grants; one that is not there
/// cannot be deleted.
pub proof fn the_chosen_secret_is_deleted<
    E: Fn(&VaultPlaintext) -> Result<Vec<u8>, String>,
    W: Fn(&VaultFile) -> Result<(), VaultError>,
>(
    before: Controller,
    name: Seq<char>,
    kept: Seq<char>,
    encode: E,
    write: W,
    after: Controller,
    r: Result<(), VaultError>,
)
    requires
        before.vault.wf(),
        after.vault.wf(),
        before.vault.data is Some,
        vault::normalized_name(name) == Ok::<Seq<char>, Seq<char>>(kept),
        main_view::secret_deleted(before, name, encode, write, after, r),
    ensures
        !vault_records::has_name(before.vault, kept) ==> r is Err && after.vault == before.vault,
        vault_records::has_name(before.vault, kept) ==> {
            &&& !vault_records::has_name(after.vault, kept)
            &&& forall|other: Seq<char>, entry: VaultEntry|
                other != kept ==> (#[trigger] vault_records::keeps(after.vault, other, entry)
                    <==> vault_records::keeps(before.vault, other, entry))
        },
        r is Ok ==> forall|g: int|
            0 <= g < after.grants.grants@.len() ==> (#[trigger] after.grants.grants@[g]).resource@
                != kept,
        after.pending == before.pending,
{
    let (nonce, now) = choose|nonce: Result<Vec<u8>, VaultError>, now: u64|
        vault::is_nonce(nonce) && #[trigger] crate::controller::delete_outcome(
            before,
            name,
            nonce,
            now,
            encode,
            write,
            after,
            r,
        );
    vault_records::deleting_removes_the_secret(
        before.vault,
        name,
        kept,
        nonce,
        encode,
        write,
        after.vault,
        r,
    );
    controller_requests::deleting_a_secret_leaves_the_other_grants(
        before,
        name,
        kept,
        nonce,
        now,
        encode,
        write,
        after,
        r,
    );
}

} // verus!
