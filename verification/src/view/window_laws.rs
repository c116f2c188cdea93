//! What the main window keeps, forgets and shows, stated over its fields.

use vstd::prelude::*;

use crate::aws::{AwsAccessLevel, AwsDiscoveredAccount, AwsLoginStatus, AwsTarget};
use crate::controller::{AppSnapshot, AuditEntry, Controller};
use crate::numeral;
use crate::seqs;
use crate::text;
use crate::vault_records;
use crate::view::forms;
use crate::view::forms::{AliasTexts, ModalState};
use crate::view::labels;
use crate::view::main_view;
use crate::view::main_view::{GrantChange, MainState, Page};
use crate::view::pages;
use crate::view::pages::{
    ActivityRow, AwsPage, FormInput, GrantsPage, Header, LoginNote, LoginWords, ModalPanel, Moments,
    Screen, SecretsPage,
};
use crate::view::tray;
use crate::view::tray::{AppEvent, MenuRow};

verus! {

/// Whether two windows agree in everything but the message, the errors and the
/// question above them.
pub open spec fn keeps_the_rest(before: MainState, after: MainState) -> bool {
    &&& after.page == before.page
    &&& after.inputs.search == before.inputs.search
    &&& after.inputs.aws_start_url == before.inputs.aws_start_url
    &&& after.inputs.aws_region == before.inputs.aws_region
}

/// Once the vault was opened or made, the passwords that were typed for it are
/// gone; else they stay, and the window says why.
pub proof fn passwords_are_forgotten_once_used(state: MainState, result: Result<(), Seq<char>>)
    ensures
        ({
            let after = main_view::after_auth(state, result);
            &&& result is Ok ==> {
                &&& after.inputs.auth_password.len() == 0
                &&& after.inputs.auth_confirmation.len() == 0
                &&& after.auth_error is None
                &&& after.inputs.secret_name == state.inputs.secret_name
                &&& after.inputs.secret_value == state.inputs.secret_value
            }
            &&& result matches Err(error) ==> {
                &&& after.inputs == state.inputs
                &&& after.auth_error == Some(error)
            }
            &&& keeps_the_rest(state, after)
            &&& after.modal == state.modal
            &&& after.revealed == state.revealed
            &&& after.toast == state.toast
        }),
{
}

/// Once a secret was saved, what was typed of it and what was shown are gone and
/// the question is closed; else all of it stays, and the window says why.
pub proof fn saved_secrets_leave_the_window(
    state: MainState,
    result: Result<(), Seq<char>>,
    now: u64,
)
    requires
        now + 2_800 <= u64::MAX,
    ensures
        ({
            let after = main_view::after_save(state, result, now);
            &&& result is Ok ==> {
                &&& after.inputs.secret_name.len() == 0
                &&& after.inputs.secret_value.len() == 0
                &&& after.modal is None
                &&& after.revealed is None
                &&& after.form_error is None
                &&& after.toast is Some && !after.toast->Some_0.danger
                    && after.toast->Some_0.expires_at == now + 2_800
                    && after.toast->Some_0.message == "Saved securely"@
            }
            &&& result matches Err(error) ==> {
                &&& after.inputs == state.inputs
                &&& after.modal == state.modal
                &&& after.revealed == state.revealed
                &&& after.form_error == Some(error)
                &&& after.toast == state.toast
            }
            &&& keeps_the_rest(state, after)
        }),
{
}

/// Once a secret was deleted, nothing of it is shown and the question is closed;
/// else a message says why it was not.
pub proof fn deleted_secrets_leave_the_window(
    state: MainState,
    result: Result<(), Seq<char>>,
    now: u64,
)
    requires
        now + 2_800 <= u64::MAX,
    ensures
        ({
            let after = main_view::after_delete(state, result, now);
            &&& result is Ok ==> after.modal is None && after.revealed is None
            &&& result is Err ==> after.modal == state.modal && after.revealed == state.revealed
            &&& after.toast is Some
            &&& after.toast->Some_0.danger <==> result is Err
            &&& after.toast->Some_0.expires_at == now + 2_800
            &&& result matches Err(error) ==> after.toast->Some_0.message == error
            &&& after.inputs == state.inputs
            &&& keeps_the_rest(state, after)
        }),
{
}

/// Once the password was changed, what was typed is gone and the question is
/// closed; else both stay, and the window says why.
pub proof fn changed_passwords_leave_the_window(
    state: MainState,
    result: Result<(), Seq<char>>,
    now: u64,
)
    ensures
        ({
            let after = main_view::after_password(state, result, now);
            &&& result is Ok ==> {
                &&& after.inputs.new_password.len() == 0
                &&& after.inputs.password_confirmation.len() == 0
                &&& after.modal is None
                &&& after.form_error is None
            }
            &&& result matches Err(error) ==> {
                &&& after.inputs == state.inputs
                &&& after.modal == state.modal
                &&& after.form_error == Some(error)
            }
            &&& keeps_the_rest(state, after)
            &&& after.revealed == state.revealed
        }),
{
}

/// Once a connection or profiles were saved, the question is closed; else it
/// stays, and the window says why.
pub proof fn saved_settings_close_the_question(
    state: MainState,
    result: Result<(), Seq<char>>,
    now: u64,
)
    ensures
        ({
            let connected = main_view::after_connection(state, result);
            let assigned = main_view::after_aliases(state, result, now);
            &&& result is Ok ==> connected.modal is None && connected.form_error is None
            &&& result is Ok ==> assigned.modal is None && assigned.form_error is None
                && assigned.aliases.len() == 0
            &&& result matches Err(error) ==> {
                &&& connected.modal == state.modal
                &&& connected.form_error == Some(error)
                &&& assigned.modal == state.modal
                &&& assigned.form_error == Some(error)
                &&& assigned.aliases == state.aliases
            }
            &&& connected.inputs == state.inputs
            &&& assigned.inputs == state.inputs
            &&& connected.page == state.page
            &&& assigned.page == state.page
        }),
{
}

/// The value of a secret is shown after a click on it and hidden after the next;
/// where there is none, a message says why, and what was shown stays.
pub proof fn values_are_shown_one_at_a_time(
    state: MainState,
    name: Seq<char>,
    value: Result<Seq<char>, Seq<char>>,
    now: u64,
)
    ensures
        ({
            let after = main_view::after_reveal(state, name, value, now);
            let shown = state.revealed is Some && state.revealed->Some_0.0 == name;
            &&& shown ==> after.revealed is None && after.toast == state.toast
            &&& !shown ==> match value {
                Ok(value) => after.revealed == Some((name, value)) && after.toast == state.toast,
                Err(error) => after.revealed == state.revealed && after.toast is Some
                    && after.toast->Some_0.message == error && after.toast->Some_0.danger,
            }
            &&& after.inputs == state.inputs
            &&& after.modal == state.modal
            &&& after.page == state.page
        }),
{
}

/// The value that is shown of a secret is the one that the vault keeps under its
/// name.
pub proof fn shown_values_are_kept_values(
    controller: Controller,
    name: Seq<char>,
    kept: Seq<char>,
    i: int,
)
    requires
        controller.wf(),
        controller.vault.data is Some,
        crate::vault::normalized_name(name) == Ok::<Seq<char>, Seq<char>>(kept),
    ensures
        0 <= i < vault_records::records(controller.vault).len() && vault_records::records(
            controller.vault,
        )[i].name@ == kept ==> main_view::value_of(controller, name) == Ok::<Seq<char>, Seq<char>>(
            vault_records::records(controller.vault)[i].entry.value@,
        ),
        !vault_records::has_name(controller.vault, kept) ==> main_view::value_of(
            controller,
            name,
        ) is Err,
{
    vault_records::secrets_are_revealed_under_their_names(controller.vault, name, kept);
}

/// A secret is edited under its name with its value, and typed anew without; an
/// earlier complaint is gone.
pub proof fn secrets_are_edited_as_they_are(
    state: MainState,
    original_name: Option<Seq<char>>,
    name: Seq<char>,
    value: Seq<char>,
)
    ensures
        ({
            let after = main_view::editing(state, original_name, name, value);
            &&& after.inputs.secret_name == name
            &&& after.inputs.secret_value == value
            &&& after.form_error is None
            &&& after.modal == Some(ModalState::Secret { original_name })
            &&& after.inputs.auth_password == state.inputs.auth_password
            &&& after.inputs.new_password == state.inputs.new_password
            &&& keeps_the_rest(state, after)
            &&& after.revealed == state.revealed
        }),
{
}

/// Closing a question forgets what was typed for it, and the complaint.
pub proof fn closed_questions_are_forgotten(state: MainState)
    ensures
        ({
            let after = main_view::modal_closed(state);
            &&& after.modal is None
            &&& after.form_error is None
            &&& after.aliases.len() == 0
            &&& state.modal is Some && state.modal->Some_0 is Secret ==> {
                &&& after.inputs.secret_name.len() == 0
                &&& after.inputs.secret_value.len() == 0
            }
            &&& state.modal is Some && state.modal->Some_0 is Password ==> {
                &&& after.inputs.new_password.len() == 0
                &&& after.inputs.password_confirmation.len() == 0
            }
            &&& state.modal is Some && !(state.modal->Some_0 is Secret) && !(
            state.modal->Some_0 is Password) ==> after.inputs == state.inputs
            &&& keeps_the_rest(state, after)
            &&& after.revealed == state.revealed
            &&& after.toast == state.toast
        }),
{
}

/// A message goes away once its time is over, and not before.
pub proof fn messages_go_away(state: MainState, now: u64)
    ensures
        ({
            let after = main_view::toast_expired(state, now);
            &&& state.toast is Some && now >= state.toast->Some_0.expires_at ==> after.toast is None
            &&& state.toast is None || now < state.toast->Some_0.expires_at ==> after.toast
                == state.toast
            &&& after.inputs == state.inputs
            &&& after.modal == state.modal
            &&& after.revealed == state.revealed
            &&& after.page == state.page
        }),
{
}

/// While there is no vault or it is closed, the window asks for a password and
/// shows nothing else; two passwords are asked for exactly where there is none.
pub proof fn a_closed_vault_shows_nothing(
    screen: Screen,
    state: MainState,
    snapshot: AppSnapshot,
    moments: Moments,
)
    requires
        pages::is_screen(screen, state, snapshot, moments),
    ensures
        screen is Auth <==> !snapshot.vault_exists || !snapshot.unlocked,
        screen matches Screen::Auth(page) ==> (page.confirm <==> !snapshot.vault_exists),
        screen matches Screen::Open(open) ==> {
            &&& open.content is Secrets <==> state.page == Page::Secrets
            &&& open.content is Aws <==> state.page == Page::Aws
            &&& open.content is Grants <==> state.page == Page::Grants
            &&& open.content is Activity <==> state.page == Page::Activity
            &&& open.modal is Some <==> state.modal is Some
            &&& open.header.active_count == snapshot.grants@.len() + snapshot.aws_grants@.len()
            &&& open.header.activity_count == snapshot.audit@.len()
        },
{
}

/// The list of secrets shows the names that a search finds, in their order, and
/// the value of the one secret that is revealed.
pub proof fn secrets_are_listed_by_name(
    page: SecretsPage,
    state: MainState,
    snapshot: AppSnapshot,
    i: int,
)
    requires
        pages::is_secrets_page(page, state, snapshot.secrets@),
        0 <= i < page.rows@.len(),
    ensures
        exists|k: int|
            0 <= k < snapshot.secrets@.len() && (#[trigger] snapshot.secrets@[k]).name@
                == page.rows@[i].name@,
        page.rows@[i].value is Some <==> state.revealed is Some && state.revealed->Some_0.0
            == page.rows@[i].name@,
        page.rows@[i].value is Some ==> page.rows@[i].value->Some_0@ == state.revealed->Some_0.1,
        page.rows@[i].reveal_id@ == "reveal-"@ + page.rows@[i].name@,
        page.rows@[i].edit_id@ == "edit-"@ + page.rows@[i].name@,
        page.rows@[i].delete_id@ == "delete-"@ + page.rows@[i].name@,
        page.empty is None,
{
    let secrets = snapshot.secrets@;
    let visible = pages::found(secrets, state.inputs.search);
    let test = pages::is_found(state.inputs.search);
    let at = seqs::filtered_positions(secrets, test);
    assert(visible[i] == secrets[at[i]]);
    assert(pages::is_secret_row(page.rows@[i], state, visible[i].name@));
}

/// A grant is listed under its identifier with what it is for, and can be
/// extended and revoked; a remembered denial can be lifted.
pub proof fn grants_are_listed(page: GrantsPage, snapshot: AppSnapshot, millis: u64, i: int)
    requires
        pages::is_grants_page(page, snapshot, millis),
    ensures
        page.grants@.len() == snapshot.grants@.len(),
        page.aws_grants@.len() == snapshot.aws_grants@.len(),
        page.denials@.len() == snapshot.aws_denials@.len(),
        0 <= i < page.grants@.len() ==> {
            let row = page.grants@[i];
            &&& row.id@ == snapshot.grants@[i].id@
            &&& row.title@ == snapshot.grants@[i].resource@
            &&& row.changes@.len() == 2
            &&& row.changes@[0] == GrantChange::Extend
            &&& row.changes@[1] == GrantChange::Revoke
            &&& snapshot.grants@[i].process.executable@.is_prefix_of(row.detail@)
        },
        0 <= i < page.aws_grants@.len() ==> {
            let row = page.aws_grants@[i];
            &&& row.id@ == snapshot.aws_grants@[i].id@
            &&& row.title@ == "AWS "@ + snapshot.aws_grants@[i].profile@ + " · "@ + (
            if snapshot.aws_grants@[i].level == AwsAccessLevel::ReadOnly {
                "read-only"@
            } else {
                "admin"@
            }) + " credentials"@
            &&& row.changes@.len() == 2
            &&& row.changes@[0] == GrantChange::ExtendAws
            &&& row.changes@[1] == GrantChange::RevokeAws
        },
        0 <= i < page.denials@.len() ==> {
            let row = page.denials@[i];
            &&& row.id@ == snapshot.aws_denials@[i].id@
            &&& row.title@ == "AWS "@ + snapshot.aws_denials@[i].profile@ + " · denied"@
            &&& row.changes@.len() == 1
            &&& row.changes@[0] == GrantChange::Unblock
        },
{
    if 0 <= i < page.grants@.len() {
        let row = page.grants@[i];
        let grant = snapshot.grants@[i];
        assert(pages::is_grant_row(row, grant, millis));
        let name = grant.process.executable@;
        assert(row.detail@.subrange(0, name.len() as int) =~= name);
    }
    if 0 <= i < page.aws_grants@.len() {
        assert(pages::is_aws_grant_row(page.aws_grants@[i], snapshot.aws_grants@[i], millis));
    }
    if 0 <= i < page.denials@.len() {
        assert(pages::is_denial_row(page.denials@[i], snapshot.aws_denials@[i], millis));
    }
}

/// Every line of the record is shown, with what it was about; refusals stand
/// out.
pub proof fn the_record_is_shown(
    rows: Seq<ActivityRow>,
    audit: Seq<AuditEntry>,
    millis: u64,
    i: int,
)
    requires
        pages::is_activity_page(rows, audit, millis),
        0 <= i < audit.len(),
    ensures
        rows.len() == audit.len(),
        rows[i].subject@ == audit[i].secret@,
        rows[i].when@ == labels::since(audit[i].occurred_at, millis),
        rows[i].refused <==> audit[i].action is Denied || audit[i].action is TimedOut
            || audit[i].action is Revoked,
        rows[i].process@ == audit[i].process.executable@ + " · PID "@ + numeral::decimal(
            audit[i].process.pid as nat,
        ),
        audit[i].action is AllowedOnce ==> rows[i].label@ == "Allowed once"@,
        audit[i].action is GrantedTemporarily ==> rows[i].label@ == "Access granted"@,
        audit[i].action is AutoGranted ==> rows[i].label@ == "Automatically released"@,
        audit[i].action is Denied ==> rows[i].label@ == "Request denied"@,
        audit[i].action is TimedOut ==> rows[i].label@ == "Request timed out"@,
        audit[i].action is Revoked ==> rows[i].label@ == "Access revoked"@,
        audit[i].action is Unblocked ==> rows[i].label@ == "Requests unblocked"@,
{
    assert(pages::is_activity_row(rows[i], audit[i], millis));
}

/// A login is told of as it stands: the code and the address while a person is
/// awaited, the error once it failed, and nothing where there is none.
pub proof fn logins_are_told_of(login: AwsLoginStatus, seconds: u64)
    ensures
        login is Idle <==> pages::words_about(login, seconds) is Nothing,
        login is Starting || login is Discovering <==> pages::words_about(login, seconds) is Working,
        login matches AwsLoginStatus::AwaitingUser(authorization) ==> {
            &&& pages::words_about(login, seconds) matches LoginWords::SignIn { code, url, expires }
            &&& code == "Verification code: "@ + authorization.user_code@
            &&& url == match authorization.verification_uri_complete {
                Some(url) => url@,
                None => authorization.verification_uri@,
            }
        },
        login matches AwsLoginStatus::Failed(error) ==> pages::words_about(login, seconds)
            == LoginWords::Failed(error@),
        login is LoggedIn <==> pages::words_about(login, seconds) is SignedIn,
{
}

/// A question asks for what it needs: a name and a value for a secret, a
/// password twice, a portal and a region for a connection. Only the question
/// whether to delete is dangerous, and it names the secret.
pub proof fn questions_ask_for_what_they_need(
    panel: ModalPanel,
    modal: ModalState,
    state: MainState,
)
    requires
        pages::is_modal_panel(panel, modal, state),
    ensures
        modal is Secret ==> panel.inputs@ == seq![FormInput::SecretName, FormInput::SecretValue],
        modal is Password ==> panel.inputs@ == seq![
            FormInput::NewPassword,
            FormInput::PasswordConfirmation,
        ],
        modal is AwsConnection ==> panel.inputs@ == seq![
            FormInput::AwsStartUrl,
            FormInput::AwsRegion,
        ],
        modal is AwsAliases || modal is Delete ==> panel.inputs@.len() == 0,
        panel.danger <==> modal is Delete,
        modal matches ModalState::Delete(name) ==> panel.note is Some && panel.note->Some_0@
            == "Permanently delete “"@ + name + "” from the encrypted vault?"@,
        modal is AwsAliases ==> panel.accounts@.len() == state.aliases.len(),
        !(modal is Delete) && state.form_error is Some ==> panel.error is Some
            && panel.error->Some_0@ == state.form_error->Some_0,
{
}

/// The form of an account holds its number, its name, its address and its roles,
/// and, where it has a profile, the alias, the roles and the region of that.
pub proof fn forms_hold_the_account(
    forms: Seq<AliasTexts>,
    account: AwsDiscoveredAccount,
    existing: Option<AwsTarget>,
)
    ensures
        forms::form_for(forms, account, existing) matches Some(form) ==> {
            &&& form.account_id == account.account_id@
            &&& form.account_name == account.account_name@
            &&& form.email_address == account.email_address@
            &&& form.roles.len() == account.roles@.len()
            &&& forall|k: int|
                0 <= k < account.roles@.len() ==> (#[trigger] form.roles[k]) == account.roles@[k]@
            &&& existing matches Some(target) ==> {
                &&& target.profile@.is_prefix_of(form.profile)
                &&& form.read_only_role == target.read_only_role@
                &&& form.admin_role == target.admin_role@
                &&& form.region == target.region@
                &&& (forall|i: int|
                    0 <= i < forms.len() ==> (#[trigger] forms[i]).profile != target.profile@)
                    ==> form.profile == target.profile@
            }
            &&& existing is None ==> form.region.len() == 0
        },
{
    if let Some(form) = forms::form_for(forms, account, existing) {
        if let Some(target) = existing {
            let own = target.profile@;
            assert(form.profile.subrange(0, own.len() as int) =~= own);
        }
    }
}

/// There is one form for each account, in the order of the accounts.
pub proof fn every_account_has_a_form(
    accounts: Seq<AwsDiscoveredAccount>,
    targets: Seq<AwsTarget>,
    i: int,
)
    requires
        0 <= i < accounts.len(),
    ensures
        forms::forms_for(accounts, targets) matches Some(forms) ==> {
            &&& forms.len() == accounts.len()
            &&& forms[i].account_id == accounts[i].account_id@
            &&& forms[i].account_name == accounts[i].account_name@
            &&& forms[i].roles == text::views(accounts[i].roles@)
        },
    decreases accounts.len(),
{
    if forms::forms_for(accounts, targets) is Some {
        let rest = accounts.drop_last();
        let before = forms::forms_for(rest, targets)->Some_0;
        one_form_each(rest, targets);
        if i < rest.len() {
            every_account_has_a_form(rest, targets, i);
            assert(rest[i] == accounts[i]);
        }
    }
}

proof fn one_form_each(accounts: Seq<AwsDiscoveredAccount>, targets: Seq<AwsTarget>)
    ensures
        forms::forms_for(accounts, targets) matches Some(forms) ==> forms.len() == accounts.len(),
    decreases accounts.len(),
{
    if accounts.len() > 0 {
        one_form_each(accounts.drop_last(), targets);
    }
}

/// Whether a form asks for a profile that its account can have.
pub open spec fn can_be_asked(form: AliasTexts) -> bool {
    &&& form.roles.contains(form.read_only_role)
    &&& form.roles.contains(form.admin_role)
}

/// Profiles are asked for exactly where every form with an alias has two roles
/// of its account; there is one for each such form, with what the form holds.
pub proof fn profiles_are_asked_for(forms: Seq<AliasTexts>)
    ensures
        forms::asked_targets(forms) is Ok <==> forall|i: int|
            0 <= i < forms.len() && text::trimmed((#[trigger] forms[i]).profile).len() > 0
                ==> can_be_asked(forms[i]),
        forms::asked_targets(forms) matches Ok(targets) ==> {
            &&& forall|i: int|
                0 <= i < forms.len() && text::trimmed((#[trigger] forms[i]).profile).len() > 0
                    ==> targets.contains(asked(forms[i]))
            &&& forall|k: int| 0 <= k < targets.len() ==> is_asked_in(#[trigger] targets[k], forms)
        },
        forms::checked_targets(forms) matches Ok(targets) ==> targets.len() > 0
            && forms::asked_targets(forms) == Ok::<Seq<forms::TargetTexts>, Seq<char>>(targets),
    decreases forms.len(),
{
    if forms.len() > 0 {
        let rest = forms.drop_last();
        let last = forms.len() - 1;
        profiles_are_asked_for(rest);
        if forms::asked_targets(forms) is Ok {
            let before = forms::asked_targets(rest)->Ok_0;
            let targets = forms::asked_targets(forms)->Ok_0;
            assert forall|i: int|
                0 <= i < forms.len() && text::trimmed((#[trigger] forms[i]).profile).len()
                    > 0 implies can_be_asked(forms[i]) && targets.contains(asked(forms[i])) by {
                if i < last {
                    assert(rest[i] == forms[i]);
                    let k = before.index_of(asked(rest[i]));
                    assert(targets[k] == asked(forms[i]));
                } else {
                    assert(targets[targets.len() - 1] == asked(forms[i]));
                }
            }
            assert forall|k: int| 0 <= k < targets.len() implies is_asked_in(
                #[trigger] targets[k],
                forms,
            ) by {
                if k < before.len() {
                    assert(before[k] == targets[k]);
                    assert(is_asked_in(before[k], rest));
                    let i = choose|i: int|
                        0 <= i < rest.len() && text::trimmed((#[trigger] rest[i]).profile).len() > 0
                            && before[k] == asked(rest[i]);
                    assert(rest[i] == forms[i]);
                } else {
                    assert(targets[k] == asked(forms[last]));
                }
            }
        }
        if forall|i: int|
            0 <= i < forms.len() && text::trimmed((#[trigger] forms[i]).profile).len() > 0
                ==> can_be_asked(forms[i]) {
            assert forall|i: int|
                0 <= i < rest.len() && text::trimmed((#[trigger] rest[i]).profile).len()
                    > 0 implies can_be_asked(rest[i]) by {
                assert(rest[i] == forms[i]);
            }
            assert(text::trimmed(forms[last].profile).len() > 0 ==> can_be_asked(forms[last]));
        }
    }
}

/// Whether one of the forms asks for a profile.
pub open spec fn is_asked_in(target: forms::TargetTexts, forms: Seq<AliasTexts>) -> bool {
    exists|i: int|
        0 <= i < forms.len() && text::trimmed((#[trigger] forms[i]).profile).len() > 0 && target
            == asked(forms[i])
}

/// The profile that a form asks for.
pub open spec fn asked(form: AliasTexts) -> forms::TargetTexts {
    forms::TargetTexts {
        profile: text::trimmed(form.profile),
        account_id: form.account_id,
        read_only_role: form.read_only_role,
        admin_role: form.admin_role,
        region: form.region,
    }
}

/// What is left until a moment is told in seconds below a minute and in whole
/// minutes from there on, rounded up.
pub proof fn times_left_are_rounded_up(timestamp: u64, now: u64, seconds: nat, minutes: nat)
    requires
        timestamp <= now ==> seconds == 0,
        timestamp > now ==> 1_000 * (seconds - 1) < timestamp - now <= 1_000 * seconds,
        seconds > 0 ==> 60 * (minutes - 1) < seconds <= 60 * minutes,
    ensures
        seconds < 60 ==> labels::until(timestamp, now) == numeral::decimal(seconds) + "s"@,
        seconds >= 60 ==> labels::until(timestamp, now) == numeral::decimal(minutes) + "m"@,
{
    let d = labels::distance(timestamp, now);
    assert(labels::units(d, 1_000) == (d + 999) / 1_000);
    assert((d + 999) / 1_000 == seconds);
    assert(labels::units(seconds, 60) == (seconds + 59) / 60);
    if seconds > 0 {
        assert((seconds + 59) / 60 == minutes);
    }
}

/// What is left until a moment in seconds is told in the same way.
pub proof fn seconds_left_are_told(timestamp: u64, now: u64, minutes: nat)
    requires
        timestamp > now ==> 60 * (minutes - 1) < timestamp - now <= 60 * minutes,
    ensures
        timestamp <= now ==> labels::until_seconds(timestamp, now) == numeral::decimal(0) + "s"@,
        timestamp > now && timestamp - now < 60 ==> labels::until_seconds(timestamp, now)
            == numeral::decimal((timestamp - now) as nat) + "s"@,
        timestamp - now >= 60 ==> labels::until_seconds(timestamp, now) == numeral::decimal(minutes)
            + "m"@,
{
    let d = labels::distance(timestamp, now);
    assert(labels::units(d, 60) == (d + 59) / 60);
    if timestamp > now {
        assert((d + 59) / 60 == minutes);
    }
}

/// How long ago something was is told as just now below ten seconds, in seconds
/// below a minute, and else in whole minutes.
pub proof fn times_passed_are_told(timestamp: u64, now: u64, seconds: nat)
    requires
        now <= timestamp ==> seconds == 0,
        now > timestamp ==> 1_000 * (seconds - 1) < now - timestamp <= 1_000 * seconds,
    ensures
        seconds < 10 ==> labels::since(timestamp, now) == "just now"@,
        10 <= seconds < 60 ==> labels::since(timestamp, now) == numeral::decimal(seconds)
            + "s ago"@,
        seconds >= 60 ==> labels::since(timestamp, now) == numeral::decimal(seconds / 60)
            + "m ago"@,
{
    let d = labels::distance(now, timestamp);
    assert(labels::units(d, 1_000) == (d + 999) / 1_000);
    assert((d + 999) / 1_000 == seconds);
}

/// A role speaks of reading where its name holds one of six words, and of
/// administration where it holds one of two, without regard to case. The role
/// that is suggested is the first of the account's that does.
pub proof fn roles_are_suggested_by_their_names(role: Seq<char>)
    ensures
        labels::speaks_of(role, AwsAccessLevel::Admin) <==> text::has_part(
            text::lowered(role),
            "administrator"@,
        ) || text::has_part(text::lowered(role), "admin"@),
        labels::speaks_of(role, AwsAccessLevel::ReadOnly) <==> {
            let name = text::lowered(role);
            ||| text::has_part(name, "readonly"@)
            ||| text::has_part(name, "read-only"@)
            ||| text::has_part(name, "viewonly"@)
            ||| text::has_part(name, "view-only"@)
            ||| text::has_part(name, "viewer"@)
            ||| text::has_part(name, "audit"@)
        },
{
    let reading = labels::keywords(AwsAccessLevel::ReadOnly);
    assert(reading[0] == "readonly"@ && reading[1] == "read-only"@ && reading[2] == "viewonly"@
        && reading[3] == "view-only"@ && reading[4] == "viewer"@ && reading[5] == "audit"@);
    let ruling = labels::keywords(AwsAccessLevel::Admin);
    assert(ruling[0] == "administrator"@ && ruling[1] == "admin"@);
}

/// The tray counts every request that waits; without any it says whether the
/// vault is open, and how many secrets it holds.
pub proof fn the_tray_counts_requests(snapshot: AppSnapshot)
    ensures
        ({
            let count = snapshot.pending@.len() + snapshot.pending_aws@.len();
            &&& count == 1 ==> tray::tooltip(snapshot) == "secretd — "@ + numeral::decimal(1)
                + " request"@ + ""@ + " pending"@
            &&& count > 1 ==> tray::tooltip(snapshot) == "secretd — "@ + numeral::decimal(count)
                + " request"@ + "s"@ + " pending"@
            &&& count == 0 && snapshot.unlocked ==> tray::tooltip(snapshot)
                == "secretd — unlocked · "@ + numeral::decimal(snapshot.secrets@.len())
                + " credentials"@
            &&& count == 0 && !snapshot.unlocked ==> tray::tooltip(snapshot) == "secretd — locked"@
        }),
{
}

/// The menu can always show the window and end the program, and can lock the
/// vault exactly while it is open; above that it counts the requests that wait.
pub proof fn the_menu_can_lock_an_open_vault(snapshot: AppSnapshot)
    ensures
        ({
            let count = snapshot.pending@.len() + snapshot.pending_aws@.len();
            let menu = tray::menu(snapshot);
            let n = menu.len() as int;
            &&& n == if count > 0 {
                6int
            } else {
                4int
            }
            &&& count > 0 ==> menu[0] is Note && menu[1] is Separator
            &&& menu[n - 4] == (MenuRow::Entry {
                id: "show"@,
                label: "Open secretd"@,
                enabled: true,
            })
            &&& menu[n - 3] == (MenuRow::Entry {
                id: "lock"@,
                label: "Lock vault"@,
                enabled: snapshot.unlocked,
            })
            &&& menu[n - 2] is Separator
            &&& menu[n - 1] == (MenuRow::Entry {
                id: "quit"@,
                label: "Quit secretd"@,
                enabled: true,
            })
        }),
        tray::event_of("show"@) == Some(AppEvent::Show),
        tray::event_of("lock"@) == Some(AppEvent::Lock),
        tray::event_of("quit"@) == Some(AppEvent::Quit),
{
    reveal_strlit("show");
    reveal_strlit("lock");
    reveal_strlit("quit");
    assert("show"@[0] != "lock"@[0]);
    assert("show"@[0] != "quit"@[0]);
    assert("lock"@[0] != "quit"@[0]);
}

/// An account that has a profile is given a form with it. Where another form has
/// the same one already, what follows the eighth byte of the number is put
/// behind it.
pub proof fn profiles_are_proposed_once(
    forms: Seq<AliasTexts>,
    account: AwsDiscoveredAccount,
    target: AwsTarget,
)
    ensures
        ({
            let used = exists|i: int|
                0 <= i < forms.len() && (#[trigger] forms[i]).profile == target.profile@;
            let end = labels::after_bytes(account.account_id@, 8);
            let form = forms::form_for(forms, account, Some(target));
            &&& !used ==> form is Some && form->Some_0.profile == target.profile@
            &&& used && end is Some ==> form is Some && form->Some_0.profile == target.profile@
                + "-"@ + end->Some_0
            &&& used && end is None ==> form is None
        }),
{
}

/// An account without a profile is given a form with one made of its name, or of
/// the end of its number where the name has nothing to make one of.
pub proof fn new_profiles_are_proposed(forms: Seq<AliasTexts>, account: AwsDiscoveredAccount)
    ensures
        ({
            let alias = labels::alias_of(account.account_name@);
            let end = labels::after_bytes(account.account_id@, 8);
            let proposed = if alias.len() > 0 {
                alias
            } else {
                "account-"@ + end->Some_0
            };
            let used = exists|i: int|
                0 <= i < forms.len() && (#[trigger] forms[i]).profile == proposed;
            let form = forms::form_for(forms, account, None);
            &&& form is None <==> end is None && (alias.len() == 0 || used)
            &&& form is Some && !used ==> form->Some_0.profile == proposed
            &&& form is Some && used ==> form->Some_0.profile == proposed + "-"@ + end->Some_0
        }),
{
}

/// The AWS part tells of the login as it stands and says what to do next.
pub proof fn the_aws_part_tells_of_the_login(page: AwsPage, snapshot: AppSnapshot, seconds: u64)
    requires
        pages::is_aws_page(page, snapshot, seconds),
    ensures
        snapshot.aws_login is Idle ==> page.login is Nothing,
        snapshot.aws_login is Starting ==> (page.login matches LoginNote::Working(words) && words@
            == "Starting AWS login…"@),
        snapshot.aws_login is Discovering ==> (page.login matches LoginNote::Working(words)
            && words@ == "Loading AWS accounts and roles…"@),
        snapshot.aws_login matches AwsLoginStatus::AwaitingUser(asked) ==> {
            &&& page.login matches LoginNote::SignIn { code, url, expires }
            &&& code@ == "Verification code: "@ + asked.user_code@
            &&& url@ == if asked.verification_uri_complete is Some {
                asked.verification_uri_complete->Some_0@
            } else {
                asked.verification_uri@
            }
            &&& expires@ == "This request expires in "@ + labels::until_seconds(
                asked.expires_at,
                seconds,
            )
        },
        snapshot.aws_login matches AwsLoginStatus::LoggedIn { expires_at } ==> (page.login matches
            LoginNote::SignedIn(words) && words@ == "Signed in · access token expires in "@
            + labels::until_seconds(expires_at, seconds)),
        snapshot.aws_login matches AwsLoginStatus::Failed(error) ==> (page.login matches
            LoginNote::Failed(words) && words@ == error@),
        snapshot.aws is None ==> page.note is Some && page.note->Some_0@
            == "Step 1 · Enter your AWS access portal URL to begin"@,
        snapshot.aws matches Some(summary) ==> {
            &&& !summary.discovery_complete ==> page.note is Some && page.note->Some_0@
                == "Step 2 · Sign in to discover your AWS accounts"@
            &&& summary.discovery_complete && summary.discovered_accounts@.len() == 0 ==> page.note
                is Some && page.note->Some_0@
                == "AWS returned no accounts assigned to this identity"@
            &&& summary.discovery_complete && summary.discovered_accounts@.len() > 0 ==> page.note
                is None
        },
{
}

/// Every row of the list says which process holds what it shows, and for how much
/// longer.
pub proof fn grants_are_listed_with_their_holder(
    page: GrantsPage,
    snapshot: AppSnapshot,
    millis: u64,
    i: int,
)
    requires
        pages::is_grants_page(page, snapshot, millis),
    ensures
        0 <= i < page.grants@.len() ==> page.grants@[i].detail@
            == snapshot.grants@[i].process.executable@ + " · PID "@ + numeral::decimal(
            snapshot.grants@[i].process.pid as nat,
        ) + " · expires in "@ + labels::until(snapshot.grants@[i].expires_at, millis),
        0 <= i < page.aws_grants@.len() ==> page.aws_grants@[i].detail@
            == snapshot.aws_grants@[i].process.executable@ + " · PID "@ + numeral::decimal(
            snapshot.aws_grants@[i].process.pid as nat,
        ) + " · expires in "@ + labels::until(snapshot.aws_grants@[i].expires_at, millis),
        0 <= i < page.denials@.len() ==> page.denials@[i].detail@
            == snapshot.aws_denials@[i].process.executable@ + " · PID "@ + numeral::decimal(
            snapshot.aws_denials@[i].process.pid as nat,
        ) + " · expires in "@ + labels::until(snapshot.aws_denials@[i].expires_at, millis),
{
    if 0 <= i < page.grants@.len() {
        assert(pages::is_grant_row(page.grants@[i], snapshot.grants@[i], millis));
    }
    if 0 <= i < page.aws_grants@.len() {
        assert(pages::is_aws_grant_row(page.aws_grants@[i], snapshot.aws_grants@[i], millis));
    }
    if 0 <= i < page.denials@.len() {
        assert(pages::is_denial_row(page.denials@[i], snapshot.aws_denials@[i], millis));
    }
}

/// A button says what it changes.
pub proof fn changes_are_named(change: GrantChange)
    ensures
        change is Extend || change is ExtendAws ==> pages::change_words(change) == "+15 min"@,
        change is Revoke || change is RevokeAws ==> pages::change_words(change) == "Revoke"@,
        change is Unblock ==> pages::change_words(change) == "Unblock"@,
{
}

/// A question has a title and a button that say what it is about.
pub proof fn questions_say_what_they_are_about(
    panel: ModalPanel,
    modal: ModalState,
    state: MainState,
)
    requires
        pages::is_modal_panel(panel, modal, state),
    ensures
        modal matches ModalState::Secret { original_name } ==> {
            &&& original_name is Some ==> panel.title@ == "Edit credential"@
            &&& original_name is None ==> panel.title@ == "New credential"@
            &&& panel.submit@ == "Save credential"@
        },
        modal is Password ==> panel.title@ == "Change master password"@ && panel.submit@
            == "Update password"@,
        modal is AwsConnection ==> panel.title@ == "Connect AWS IAM Identity Center"@
            && panel.submit@ == "Save and sign in"@ && panel.note is Some && panel.note->Some_0@
            == "The portal connection and resulting login tokens stay in the encrypted vault."@,
        modal is AwsAliases ==> panel.title@ == "Assign AWS profile aliases"@ && panel.submit@
            == "Save profile aliases"@,
        modal is Delete ==> panel.title@ == "Delete credential?"@ && panel.submit@ == "Delete"@
            && panel.error is None,
        !(modal is Delete) && !(modal is AwsConnection) ==> panel.note is None,
        !(modal is AwsAliases) ==> panel.accounts@.len() == 0,
        !(modal is Delete) && state.form_error is None ==> panel.error is None,
{
}

/// The note above the menu counts every request that waits.
pub proof fn the_menu_counts_requests(snapshot: AppSnapshot)
    ensures
        ({
            let count = snapshot.pending@.len() + snapshot.pending_aws@.len();
            &&& count == 1 ==> tray::menu(snapshot)[0] == MenuRow::Note(
                numeral::decimal(1) + " access request"@ + ""@ + " pending"@,
            )
            &&& count > 1 ==> tray::menu(snapshot)[0] == MenuRow::Note(
                numeral::decimal(count) + " access request"@ + "s"@ + " pending"@,
            )
        }),
{
}

/// The top of the window counts the grants of both kinds and the lines of the
/// record, and marks the part that is shown.
pub proof fn the_header_counts(header: Header, page: Page, snapshot: AppSnapshot)
    requires
        pages::is_header(header, page, snapshot),
    ensures
        page is Secrets ==> header.selected_index == 0,
        page is Aws ==> header.selected_index == 1,
        page is Grants ==> header.selected_index == 2,
        page is Activity ==> header.selected_index == 3,
        header.active_count == snapshot.grants@.len() + snapshot.aws_grants@.len(),
        header.activity_count == snapshot.audit@.len(),
        header.active_label@ == "Active, "@ + numeral::decimal(
            (snapshot.grants@.len() + snapshot.aws_grants@.len()) as nat,
        ),
        header.activity_label@ == "Activity, "@ + numeral::decimal(snapshot.audit@.len()),
{
}

/// The question for aliases shows every account with its name, its number, its
/// address and its roles.
pub proof fn the_accounts_are_shown(
    panel: ModalPanel,
    modal: ModalState,
    state: MainState,
    i: int,
)
    requires
        pages::is_modal_panel(panel, modal, state),
        modal is AwsAliases,
        0 <= i < state.aliases.len(),
    ensures
        panel.accounts@.len() == state.aliases.len(),
        panel.accounts@[i].account_name@ == state.aliases[i].account_name,
        panel.accounts@[i].account_id@ == state.aliases[i].account_id,
        panel.accounts@[i].email_address@ == state.aliases[i].email_address,
        state.aliases[i].roles.len() == 1 ==> panel.accounts@[i].roles@ == "Available roles: "@
            + state.aliases[i].roles[0],
        state.aliases[i].roles.len() == 2 ==> panel.accounts@[i].roles@ == "Available roles: "@ + (
        state.aliases[i].roles[0] + ", "@ + state.aliases[i].roles[1]),
        panel.width == 700,
{
    assert(pages::is_account_card(panel.accounts@[i], state.aliases[i]));
    reveal_with_fuel(labels::joined, 2);
}

/// Texts are joined one after another: one more text comes behind the others and
/// the separator.
pub proof fn texts_are_joined_in_order(
    parts: Seq<Seq<char>>,
    last: Seq<char>,
    separator: Seq<char>,
)
    ensures
        labels::joined(Seq::empty(), separator).len() == 0,
        labels::joined(seq![last], separator) == last,
        parts.len() > 0 ==> labels::joined(parts.push(last), separator) == labels::joined(
            parts,
            separator,
        ) + separator + last,
{
    assert(parts.push(last).drop_last() =~= parts);
}

/// Every input has the words above it that say what it is for.
pub proof fn inputs_are_named(input: FormInput)
    ensures
        input is SecretName ==> pages::input_words(input) == "Name"@,
        input is SecretValue ==> pages::input_words(input) == "Value"@,
        input is NewPassword ==> pages::input_words(input) == "New password"@,
        input is PasswordConfirmation ==> pages::input_words(input) == "Confirm password"@,
        input is AwsStartUrl ==> pages::input_words(input) == "AWS access portal URL"@,
        input is AwsRegion ==> pages::input_words(input) == "IAM Identity Center region"@,
{
}

} // verus!
