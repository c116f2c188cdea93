//! The main window: what it shows and what its controls do to the vault.

use vstd::prelude::*;
use vstd::string::*;

use crate::aws::{AwsConfiguration, AwsTarget};
use crate::controller;
use crate::controller::{AppSnapshot, Controller};
use crate::controller_aws;
use crate::crypto;
use crate::grants;
use crate::grants::Grant;
use crate::paths;
use crate::text;
use crate::vault;
use crate::vault::{VaultError, VaultFile, VaultPlaintext};
use crate::view::forms;
use crate::view::forms::{AliasForm, AliasTexts, InputTexts, Inputs, Modal, ModalState};
use crate::view::requests;

verus! {

/// How long a message stays, in milliseconds.
pub const TOAST_MILLIS: u64 = 2_800;

/// A part of the main window.
#[derive(Clone, Copy, Debug, PartialEq, Eq, Structural)]
pub enum Page {
    Secrets,
    Aws,
    Grants,
    Activity,
}

/// A message that goes away by itself.
#[derive(Debug)]
pub struct Toast {
    pub message: String,
    pub danger: bool,
    pub expires_at: u64,
}

/// A message as it is spoken of.
pub struct ToastState {
    pub message: Seq<char>,
    pub danger: bool,
    pub expires_at: u64,
}

/// The main window.
#[derive(Debug)]
pub struct MainView {
    pub page: Page,
    pub inputs: Inputs,
    pub aws_aliases: Vec<AliasForm>,
    pub modal: Option<Modal>,
    pub auth_error: Option<String>,
    pub form_error: Option<String>,
    /// The secret whose value is shown, with the value.
    pub revealed: Option<(String, String)>,
    pub toast: Option<Toast>,
}

/// The main window as it is spoken of.
pub struct MainState {
    pub page: Page,
    pub inputs: InputTexts,
    pub aliases: Seq<AliasTexts>,
    pub modal: Option<ModalState>,
    pub auth_error: Option<Seq<char>>,
    pub form_error: Option<Seq<char>>,
    pub revealed: Option<(Seq<char>, Seq<char>)>,
    pub toast: Option<ToastState>,
}

/// What is asked for above the window, if anything is.
pub open spec fn modal_state(modal: Option<Modal>) -> Option<ModalState> {
    match modal {
        Some(modal) => Some(modal@),
        None => None,
    }
}

/// The secret whose value is shown, with the value.
pub open spec fn revealed_state(revealed: Option<(String, String)>) -> Option<
    (Seq<char>, Seq<char>),
> {
    match revealed {
        Some((name, value)) => Some((name@, value@)),
        None => None,
    }
}

/// The message that is shown.
pub open spec fn toast_state(toast: Option<Toast>) -> Option<ToastState> {
    match toast {
        Some(toast) => Some(
            ToastState {
                message: toast.message@,
                danger: toast.danger,
                expires_at: toast.expires_at,
            },
        ),
        None => None,
    }
}

impl View for MainView {
    type V = MainState;

    open spec fn view(&self) -> MainState {
        MainState {
            page: self.page,
            inputs: self.inputs@,
            aliases: forms::alias_texts(self.aws_aliases@),
            modal: modal_state(self.modal),
            auth_error: paths::given(self.auth_error),
            form_error: paths::given(self.form_error),
            revealed: revealed_state(self.revealed),
            toast: toast_state(self.toast),
        }
    }
}

/// A message that is shown from `now` on.
pub open spec fn toast_from(message: Seq<char>, danger: bool, now: u64) -> Option<ToastState> {
    Some(
        ToastState {
            message,
            danger,
            expires_at: if now + TOAST_MILLIS <= u64::MAX {
                (now + TOAST_MILLIS) as u64
            } else {
                u64::MAX
            },
        },
    )
}

/// The window without a message whose time is over.
pub open spec fn toast_expired(state: MainState, now: u64) -> MainState {
    MainState {
        toast: match state.toast {
            Some(toast) => if now >= toast.expires_at {
                None
            } else {
                Some(toast)
            },
            None => None,
        },
        ..state
    }
}

/// The window with nothing left of what was typed or shown.
pub open spec fn cleared(state: MainState) -> MainState {
    let nothing = Seq::<char>::empty();
    MainState {
        inputs: InputTexts {
            auth_password: nothing,
            auth_confirmation: nothing,
            secret_name: nothing,
            secret_value: nothing,
            new_password: nothing,
            password_confirmation: nothing,
            ..state.inputs
        },
        aliases: Seq::empty(),
        modal: None,
        revealed: None,
        form_error: None,
        auth_error: None,
        ..state
    }
}

/// The window once an attempt to open or make the vault is over.
pub open spec fn after_auth(state: MainState, result: Result<(), Seq<char>>) -> MainState {
    match result {
        Ok(_) => MainState {
            inputs: InputTexts {
                auth_password: Seq::empty(),
                auth_confirmation: Seq::empty(),
                ..state.inputs
            },
            auth_error: None,
            ..state
        },
        Err(error) => MainState { auth_error: Some(error), ..state },
    }
}

/// The window once a secret was to be saved.
pub open spec fn after_save(state: MainState, result: Result<(), Seq<char>>, now: u64) -> MainState {
    match result {
        Ok(_) => MainState {
            inputs: InputTexts {
                secret_name: Seq::empty(),
                secret_value: Seq::empty(),
                ..state.inputs
            },
            modal: None,
            revealed: None,
            form_error: None,
            toast: toast_from("Saved securely"@, false, now),
            ..state
        },
        Err(error) => MainState { form_error: Some(error), ..state },
    }
}

/// The window once a secret was to be deleted.
pub open spec fn after_delete(
    state: MainState,
    result: Result<(), Seq<char>>,
    now: u64,
) -> MainState {
    match result {
        Ok(_) => MainState {
            modal: None,
            revealed: None,
            toast: toast_from("Credential deleted"@, false, now),
            ..state
        },
        Err(error) => MainState { toast: toast_from(error, true, now), ..state },
    }
}

/// The window once the password was to be changed.
pub open spec fn after_password(
    state: MainState,
    result: Result<(), Seq<char>>,
    now: u64,
) -> MainState {
    match result {
        Ok(_) => MainState {
            inputs: InputTexts {
                new_password: Seq::empty(),
                password_confirmation: Seq::empty(),
                ..state.inputs
            },
            modal: None,
            form_error: None,
            toast: toast_from("Password changed"@, false, now),
            ..state
        },
        Err(error) => MainState { form_error: Some(error), ..state },
    }
}

/// The window once the connection was to be saved.
pub open spec fn after_connection(state: MainState, result: Result<(), Seq<char>>) -> MainState {
    match result {
        Ok(_) => MainState { modal: None, form_error: None, ..state },
        Err(error) => MainState { form_error: Some(error), ..state },
    }
}

/// The window once the profiles were to be saved.
pub open spec fn after_aliases(
    state: MainState,
    result: Result<(), Seq<char>>,
    now: u64,
) -> MainState {
    match result {
        Ok(_) => MainState {
            aliases: Seq::empty(),
            modal: None,
            form_error: None,
            toast: toast_from("AWS profile aliases saved"@, false, now),
            ..state
        },
        Err(error) => MainState { form_error: Some(error), ..state },
    }
}

/// The window after a click on a secret: its value is shown, or hidden where it
/// was shown already.
pub open spec fn after_reveal(
    state: MainState,
    name: Seq<char>,
    value: Result<Seq<char>, Seq<char>>,
    now: u64,
) -> MainState {
    if shows(state, name) {
        MainState { revealed: None, ..state }
    } else {
        match value {
            Ok(value) => MainState { revealed: Some((name, value)), ..state },
            Err(error) => MainState { toast: toast_from(error, true, now), ..state },
        }
    }
}

/// Whether the value of a secret is shown.
pub open spec fn shows(state: MainState, name: Seq<char>) -> bool {
    match state.revealed {
        Some((shown, _)) => shown == name,
        None => false,
    }
}

/// The window in which a secret can be typed.
pub open spec fn editing(
    state: MainState,
    original_name: Option<Seq<char>>,
    name: Seq<char>,
    value: Seq<char>,
) -> MainState {
    MainState {
        inputs: InputTexts { secret_name: name, secret_value: value, ..state.inputs },
        form_error: None,
        modal: Some(ModalState::Secret { original_name }),
        ..state
    }
}

/// The window without what was asked for above it.
pub open spec fn modal_closed(state: MainState) -> MainState {
    let inputs = match state.modal {
        Some(ModalState::Secret { .. }) => InputTexts {
            secret_name: Seq::empty(),
            secret_value: Seq::empty(),
            ..state.inputs
        },
        Some(ModalState::Password) => InputTexts {
            new_password: Seq::empty(),
            password_confirmation: Seq::empty(),
            ..state.inputs
        },
        _ => state.inputs,
    };
    MainState { inputs, aliases: Seq::empty(), modal: None, form_error: None, ..state }
}

/// The value of a secret, or why there is none.
pub open spec fn value_of(controller: Controller, name: Seq<char>) -> Result<Seq<char>, Seq<char>> {
    match vault::revealed(controller.vault, name) {
        Ok(entry) => Ok(entry.value@),
        Err(error) => Err(error),
    }
}

/// Whether there is a vault, as far as that could be seen.
pub open spec fn is_present(present: Result<bool, VaultError>) -> bool {
    match present {
        Ok(present) => present,
        Err(_) => false,
    }
}

/// The outcome of making a vault.
pub open spec fn vault_created<
    E: Fn(&VaultPlaintext) -> Result<Vec<u8>, String>,
    W: Fn(&VaultFile) -> Result<(), VaultError>,
>(
    before: Controller,
    password: Seq<char>,
    present: Result<bool, VaultError>,
    encode: E,
    write: W,
    after: Controller,
    r: Result<(), VaultError>,
) -> bool {
    &&& exists|salt: Result<Vec<u8>, VaultError>, nonce: Result<Vec<u8>, VaultError>|
        vault::is_salt(salt) && vault::is_nonce(nonce) && #[trigger] vault::create_outcome(
            before.vault,
            password,
            present,
            salt,
            nonce,
            encode,
            write,
            after.vault,
            r,
        )
    &&& controller::opening_followed(before, after.vault, after, r)
}

/// The outcome of opening the vault.
pub open spec fn vault_unlocked<P: Fn(&Vec<u8>) -> Option<VaultPlaintext>>(
    before: Controller,
    password: Seq<char>,
    file: Result<VaultFile, VaultError>,
    parse: P,
    after: Controller,
    r: Result<(), VaultError>,
) -> bool {
    &&& vault::unlock_outcome(before.vault, password, file, parse, after.vault, r)
    &&& controller::opening_followed(before, after.vault, after, r)
}

/// The outcome of saving a secret.
pub open spec fn secret_saved<
    E: Fn(&VaultPlaintext) -> Result<Vec<u8>, String>,
    W: Fn(&VaultFile) -> Result<(), VaultError>,
>(
    before: Controller,
    name: Seq<char>,
    value: Seq<char>,
    previous: Option<&str>,
    encode: E,
    write: W,
    after: Controller,
    r: Result<(), VaultError>,
) -> bool {
    &&& exists|
        now: String,
        rename_nonce: Result<Vec<u8>, VaultError>,
        nonce: Result<Vec<u8>, VaultError>,
    |
        vault::is_nonce(rename_nonce) && vault::is_nonce(nonce)
            && #[trigger] controller::save_outcome(
            before.vault,
            name,
            value,
            previous,
            now,
            rename_nonce,
            nonce,
            encode,
            write,
            after.vault,
            r,
        )
    &&& after == (Controller { vault: after.vault, ..before })
}

/// The outcome of deleting a secret.
pub open spec fn secret_deleted<
    E: Fn(&VaultPlaintext) -> Result<Vec<u8>, String>,
    W: Fn(&VaultFile) -> Result<(), VaultError>,
>(
    before: Controller,
    name: Seq<char>,
    encode: E,
    write: W,
    after: Controller,
    r: Result<(), VaultError>,
) -> bool {
    exists|nonce: Result<Vec<u8>, VaultError>, now: u64|
        vault::is_nonce(nonce) && #[trigger] controller::delete_outcome(
            before,
            name,
            nonce,
            now,
            encode,
            write,
            after,
            r,
        )
}

/// The outcome of changing the password.
pub open spec fn password_changed<
    E: Fn(&VaultPlaintext) -> Result<Vec<u8>, String>,
    W: Fn(&VaultFile) -> Result<(), VaultError>,
>(
    before: Controller,
    password: Seq<char>,
    encode: E,
    write: W,
    after: Controller,
    r: Result<(), VaultError>,
) -> bool {
    &&& exists|salt: Result<Vec<u8>, VaultError>, nonce: Result<Vec<u8>, VaultError>|
        vault::is_salt(salt) && vault::is_nonce(nonce) && #[trigger] vault::change_password_outcome(
            before.vault,
            password,
            salt,
            nonce,
            encode,
            write,
            after.vault,
            r,
        )
    &&& after == (Controller { vault: after.vault, ..before })
}

/// The targets that are kept.
pub open spec fn kept_targets(controller: Controller) -> Seq<AwsTarget> {
    match controller.vault.data->Some_0.aws {
        Some(settings) => settings.targets@,
        None => Seq::empty(),
    }
}

/// The outcome of saving the connection: the targets stay with it.
pub open spec fn connection_saved<
    E: Fn(&VaultPlaintext) -> Result<Vec<u8>, String>,
    W: Fn(&VaultFile) -> Result<(), VaultError>,
>(
    before: Controller,
    start_url: Seq<char>,
    region: Seq<char>,
    encode: E,
    write: W,
    after: Controller,
    r: Result<(), VaultError>,
) -> bool {
    exists|nonce: Result<Vec<u8>, VaultError>, configuration: AwsConfiguration|
        {
            &&& vault::is_nonce(nonce)
            &&& configuration.start_url@ == start_url
            &&& configuration.sso_region@ == region
            &&& vault::is_unlocked(before.vault) ==> configuration.targets@ == kept_targets(before)
            &&& #[trigger] controller_aws::configure_outcome(
                before,
                configuration,
                nonce,
                encode,
                write,
                after,
                r,
            )
        }
}

/// The outcome of saving profiles for a connection.
pub open spec fn profiles_saved<
    E: Fn(&VaultPlaintext) -> Result<Vec<u8>, String>,
    W: Fn(&VaultFile) -> Result<(), VaultError>,
>(
    before: Controller,
    start_url: Seq<char>,
    region: Seq<char>,
    targets: Seq<forms::TargetTexts>,
    encode: E,
    write: W,
    after: Controller,
    r: Result<(), VaultError>,
) -> bool {
    exists|nonce: Result<Vec<u8>, VaultError>, configuration: AwsConfiguration|
        {
            &&& vault::is_nonce(nonce)
            &&& configuration.start_url@ == start_url
            &&& configuration.sso_region@ == region
            &&& forms::targets_texts(configuration.targets@) == targets
            &&& #[trigger] controller_aws::configure_outcome(
                before,
                configuration,
                nonce,
                encode,
                write,
                after,
                r,
            )
        }
}

/// What can be done to a grant or a remembered denial.
#[derive(Clone, Copy, Debug, PartialEq, Eq, Structural)]
pub enum GrantChange {
    Extend,
    Revoke,
    ExtendAws,
    RevokeAws,
    Unblock,
}

/// The outcome of changing a grant or a remembered denial.
pub open spec fn grant_changed(
    before: Controller,
    id: Seq<char>,
    change: GrantChange,
    after: Controller,
) -> bool {
    match change {
        GrantChange::Extend => {
            &&& exists|now: u64, r: Option<Grant>|
                #[trigger] grants::extend_outcome(
                    before.grants.grants@,
                    id,
                    now,
                    after.grants.grants@,
                    r,
                )
            &&& after == (Controller { grants: after.grants, ..before })
        },
        GrantChange::Revoke => exists|now: u64|
            #[trigger] controller::revoke_outcome(before, id, now, after),
        GrantChange::ExtendAws => exists|now: u64|
            #[trigger] controller_aws::extend_aws_outcome(before, id, now, after),
        GrantChange::RevokeAws => exists|now: u64|
            #[trigger] controller_aws::revoke_aws_outcome(before, id, now, after),
        GrantChange::Unblock => exists|now: u64|
            #[trigger] controller_aws::unblock_outcome(before, id, now, after),
    }
}

fn error_of(result: &Result<(), VaultError>) -> (r: Option<String>)
    ensures
        match requests::outcome(*result) {
            Ok(_) => r is None,
            Err(error) => r is Some && r->Some_0@ == error,
        },
{
    match result {
        Ok(_) => None,
        Err(error) => Some(error.0.clone()),
    }
}

impl MainView {
    /// A window that shows the secrets.
    pub fn new() -> (r: Self)
        ensures
            r@ == (MainState {
                page: Page::Secrets,
                inputs: forms::no_texts(),
                aliases: Seq::empty(),
                modal: None,
                auth_error: None,
                form_error: None,
                revealed: None,
                toast: None,
            }),
    {
        let r = MainView {
            page: Page::Secrets,
            inputs: Inputs::new(),
            aws_aliases: Vec::new(),
            modal: None,
            auth_error: None,
            form_error: None,
            revealed: None,
            toast: None,
        };
        assert(forms::alias_texts(r.aws_aliases@) =~= Seq::empty());
        r
    }

    fn hide_value(&mut self)
        ensures
            final(self)@ == (MainState { revealed: None, ..old(self)@ }),
    {
        let mut shown: Option<(String, String)> = None;
        std::mem::swap(&mut shown, &mut self.revealed);
        match shown {
            Some((_, value)) => {
                let mut value = value;
                crypto::wipe_text(&mut value);
            },
            None => {},
        }
    }

    fn drop_aliases(&mut self)
        ensures
            final(self)@ == (MainState { aliases: Seq::empty(), ..old(self)@ }),
    {
        self.aws_aliases = Vec::new();
        assert(forms::alias_texts(self.aws_aliases@) =~= Seq::empty());
    }

    fn clear_secret(&mut self)
        ensures
            final(self)@ == (MainState {
                inputs: InputTexts {
                    secret_name: Seq::empty(),
                    secret_value: Seq::empty(),
                    ..old(self)@.inputs
                },
                ..old(self)@
            }),
    {
        wipe(&mut self.inputs.secret_name);
        wipe(&mut self.inputs.secret_value);
    }

    fn clear_passwords(&mut self)
        ensures
            final(self)@ == (MainState {
                inputs: InputTexts {
                    new_password: Seq::empty(),
                    password_confirmation: Seq::empty(),
                    ..old(self)@.inputs
                },
                ..old(self)@
            }),
    {
        wipe(&mut self.inputs.new_password);
        wipe(&mut self.inputs.password_confirmation);
    }

    fn clear_auth(&mut self)
        ensures
            final(self)@ == (MainState {
                inputs: InputTexts {
                    auth_password: Seq::empty(),
                    auth_confirmation: Seq::empty(),
                    ..old(self)@.inputs
                },
                ..old(self)@
            }),
    {
        wipe(&mut self.inputs.auth_password);
        wipe(&mut self.inputs.auth_confirmation);
    }

    /// Wipes what was typed and what is shown.
    pub fn clear_sensitive(&mut self)
        ensures
            final(self)@ == cleared(old(self)@),
    {
        self.clear_auth();
        self.clear_secret();
        self.clear_passwords();
        self.drop_aliases();
        self.modal = None;
        self.hide_value();
        self.form_error = None;
        self.auth_error = None;
    }

    /// Wipes the window and closes the vault.
    pub fn lock_vault(&mut self, controller: &mut Controller)
        requires
            old(controller).wf(),
        ensures
            final(self)@ == cleared(old(self)@),
            final(controller).wf(),
            exists|now: u64| #[trigger] controller::lock_outcome(
                *old(controller),
                now,
                *final(controller),
            ),
    {
        self.clear_sensitive();
        controller.lock();
    }

    /// Shows a message from `now` on.
    pub fn show_toast(&mut self, message: String, danger: bool, now: u64)
        ensures
            final(self)@ == (MainState { toast: toast_from(message@, danger, now), ..old(self)@ }),
    {
        let expires_at: u64 = if now <= u64::MAX - TOAST_MILLIS {
            now + TOAST_MILLIS
        } else {
            u64::MAX
        };
        self.toast = Some(Toast { message, danger, expires_at });
    }

    /// Takes a message away whose time is over.
    pub fn expire_toast(&mut self, now: u64)
        ensures
            final(self)@ == toast_expired(old(self)@, now),
    {
        let over = match &self.toast {
            Some(toast) => now >= toast.expires_at,
            None => false,
        };
        if over {
            self.toast = None;
        }
    }

    /// Shows another part of the window.
    pub fn switch_view(&mut self, page: Page)
        ensures
            final(self)@ == (MainState { page, ..old(self)@ }),
    {
        self.page = page;
    }

    /// Shows the part in which a login can be followed.
    pub fn show_aws_login(&mut self)
        ensures
            final(self)@ == (MainState { page: Page::Aws, ..old(self)@ }),
    {
        self.switch_view(Page::Aws);
    }

    /// Opens the vault with what was typed, or makes one where there is none. A
    /// new password has to be typed twice.
    pub fn submit_auth_form<
        E: Fn(&VaultPlaintext) -> Result<Vec<u8>, String>,
        W: Fn(&VaultFile) -> Result<(), VaultError>,
        P: Fn(&Vec<u8>) -> Option<VaultPlaintext>,
    >(
        &mut self,
        controller: &mut Controller,
        present: Result<bool, VaultError>,
        file: Result<VaultFile, VaultError>,
        encode: &E,
        write: &W,
        parse: &P,
    ) -> (r: Option<Result<(), VaultError>>)
        requires
            old(controller).wf(),
            forall|d: &VaultPlaintext| call_requires(*encode, (d,)),
            forall|f: &VaultFile| call_requires(*write, (f,)),
            forall|b: &Vec<u8>| call_requires(*parse, (b,)),
        ensures
            final(controller).wf(),
            !is_present(present) && old(self)@.inputs.auth_password != old(
                self)@.inputs.auth_confirmation ==> {
                &&& r is None
                &&& *final(controller) == *old(controller)
                &&& final(self)@ == (MainState {
                    auth_error: Some("Passwords do not match"@),
                    ..old(self)@
                })
            },
            is_present(present) || old(self)@.inputs.auth_password == old(
                self)@.inputs.auth_confirmation ==> {
                &&& r matches Some(result)
                &&& if is_present(present) {
                    vault_unlocked(
                        *old(controller),
                        old(self)@.inputs.auth_password,
                        file,
                        *parse,
                        *final(controller),
                        result,
                    )
                } else {
                    vault_created(
                        *old(controller),
                        old(self)@.inputs.auth_password,
                        present,
                        *encode,
                        *write,
                        *final(controller),
                        result,
                    )
                }
                &&& final(self)@ == after_auth(old(self)@, requests::outcome(result))
            },
    {
        let exists_already = match &present {
            Ok(present) => *present,
            Err(_) => false,
        };
        self.auth_error = None;
        if !exists_already && !text::str_eq(
            self.inputs.auth_password.as_str(),
            self.inputs.auth_confirmation.as_str(),
        ) {
            self.auth_error = Some("Passwords do not match".to_owned());
            return None;
        }
        let result = if exists_already {
            controller.unlock(self.inputs.auth_password.as_str(), file, parse)
        } else {
            controller.create_vault(self.inputs.auth_password.as_str(), present, encode, write)
        };
        match error_of(&result) {
            None => self.clear_auth(),
            Some(error) => {
                self.auth_error = Some(error);
            },
        }
        Some(result)
    }

    /// Lets a secret be typed: a new one, or the one that has a name.
    pub fn open_secret(
        &mut self,
        original_name: Option<String>,
        controller: &Controller,
        now: u64,
    )
        requires
            controller.wf(),
        ensures
            match original_name {
                None => final(self)@ == editing(old(self)@, None, Seq::empty(), Seq::empty()),
                Some(name) => match value_of(*controller, name@) {
                    Ok(value) => final(self)@ == editing(old(self)@, Some(name@), name@, value),
                    Err(error) => final(self)@ == (MainState {
                        toast: toast_from(error, true, now),
                        ..old(self)@
                    }),
                },
            },
    {
        match original_name {
            None => {
                self.clear_secret();
                self.form_error = None;
                self.modal = Some(Modal::Secret { original_name: None });
            },
            Some(name) => match controller.reveal_secret(name.as_str()) {
                Ok(value) => {
                    self.inputs.secret_name = name.clone();
                    self.inputs.secret_value = value;
                    self.form_error = None;
                    self.modal = Some(Modal::Secret { original_name: Some(name) });
                },
                Err(error) => self.show_toast(error.0, true, now),
            },
        }
    }

    /// Keeps the secret that was typed.
    pub fn save_secret<
        E: Fn(&VaultPlaintext) -> Result<Vec<u8>, String>,
        W: Fn(&VaultFile) -> Result<(), VaultError>,
    >(&mut self, controller: &mut Controller, now: u64, encode: &E, write: &W) -> (r: Option<
        Result<(), VaultError>,
    >)
        requires
            old(controller).wf(),
            forall|d: &VaultPlaintext| call_requires(*encode, (d,)),
            forall|f: &VaultFile| call_requires(*write, (f,)),
        ensures
            final(controller).wf(),
            match old(self)@.modal {
                Some(ModalState::Secret { original_name }) => {
                    &&& r matches Some(result)
                    &&& exists|previous: Option<&str>|
                        words(previous) == original_name && #[trigger] secret_saved(
                            *old(controller),
                            old(self)@.inputs.secret_name,
                            old(self)@.inputs.secret_value,
                            previous,
                            *encode,
                            *write,
                            *final(controller),
                            result,
                        )
                    &&& final(self)@ == after_save(old(self)@, requests::outcome(result), now)
                },
                _ => {
                    &&& r is None
                    &&& *final(controller) == *old(controller)
                    &&& final(self)@ == old(self)@
                },
            },
    {
        let previous: Option<&str> = match &self.modal {
            Some(Modal::Secret { original_name }) => match original_name {
                Some(name) => Some(name.as_str()),
                None => None,
            },
            _ => {
                return None;
            },
        };
        let result = controller.save_secret(
            self.inputs.secret_name.as_str(),
            self.inputs.secret_value.as_str(),
            previous,
            encode,
            write,
        );
        assert(secret_saved(
            *old(controller),
            self@.inputs.secret_name,
            self@.inputs.secret_value,
            previous,
            *encode,
            *write,
            *controller,
            result,
        ));
        match error_of(&result) {
            None => {
                self.clear_secret();
                self.modal = None;
                self.hide_value();
                self.form_error = None;
                self.show_toast("Saved securely".to_owned(), false, now);
            },
            Some(error) => {
                self.form_error = Some(error);
            },
        }
        Some(result)
    }

    /// Shows the value of a secret, or hides it where it is shown.
    pub fn reveal_secret(&mut self, name: String, controller: &Controller, now: u64)
        requires
            controller.wf(),
        ensures
            final(self)@ == after_reveal(old(self)@, name@, value_of(*controller, name@), now),
    {
        let shown = match &self.revealed {
            Some((shown, _)) => text::str_eq(shown.as_str(), name.as_str()),
            None => false,
        };
        if shown {
            self.hide_value();
        } else {
            match controller.reveal_secret(name.as_str()) {
                Ok(value) => {
                    self.hide_value();
                    self.revealed = Some((name, value));
                },
                Err(error) => self.show_toast(error.0, true, now),
            }
        }
    }

    /// Asks whether a secret is to be deleted.
    pub fn ask_to_delete(&mut self, name: String)
        ensures
            final(self)@ == (MainState {
                modal: Some(ModalState::Delete(name@)),
                ..old(self)@
            }),
    {
        self.modal = Some(Modal::Delete(name));
    }

    /// Deletes a secret.
    pub fn delete_secret<
        E: Fn(&VaultPlaintext) -> Result<Vec<u8>, String>,
        W: Fn(&VaultFile) -> Result<(), VaultError>,
    >(
        &mut self,
        name: &str,
        controller: &mut Controller,
        now: u64,
        encode: &E,
        write: &W,
    ) -> (r: Result<(), VaultError>)
        requires
            old(controller).wf(),
            forall|d: &VaultPlaintext| call_requires(*encode, (d,)),
            forall|f: &VaultFile| call_requires(*write, (f,)),
        ensures
            final(controller).wf(),
            secret_deleted(*old(controller), name@, *encode, *write, *final(controller), r),
            final(self)@ == after_delete(old(self)@, requests::outcome(r), now),
    {
        let result = controller.delete_secret(name, encode, write);
        match error_of(&result) {
            None => {
                self.modal = None;
                self.hide_value();
                self.show_toast("Credential deleted".to_owned(), false, now);
            },
            Some(error) => self.show_toast(error, true, now),
        }
        result
    }

    /// Lets a new password be typed.
    pub fn open_password(&mut self)
        ensures
            final(self)@ == (MainState {
                inputs: InputTexts {
                    new_password: Seq::empty(),
                    password_confirmation: Seq::empty(),
                    ..old(self)@.inputs
                },
                form_error: None,
                modal: Some(ModalState::Password),
                ..old(self)@
            }),
    {
        self.clear_passwords();
        self.form_error = None;
        self.modal = Some(Modal::Password);
    }

    /// Puts the vault under the password that was typed twice.
    pub fn save_password<
        E: Fn(&VaultPlaintext) -> Result<Vec<u8>, String>,
        W: Fn(&VaultFile) -> Result<(), VaultError>,
    >(&mut self, controller: &mut Controller, now: u64, encode: &E, write: &W) -> (r: Option<
        Result<(), VaultError>,
    >)
        requires
            old(controller).wf(),
            forall|d: &VaultPlaintext| call_requires(*encode, (d,)),
            forall|f: &VaultFile| call_requires(*write, (f,)),
        ensures
            final(controller).wf(),
            old(self)@.inputs.new_password != old(self)@.inputs.password_confirmation ==> {
                &&& r is None
                &&& *final(controller) == *old(controller)
                &&& final(self)@ == (MainState {
                    form_error: Some("Passwords do not match"@),
                    ..old(self)@
                })
            },
            old(self)@.inputs.new_password == old(self)@.inputs.password_confirmation ==> {
                &&& r matches Some(result)
                &&& password_changed(
                    *old(controller),
                    old(self)@.inputs.new_password,
                    *encode,
                    *write,
                    *final(controller),
                    result,
                )
                &&& final(self)@ == after_password(old(self)@, requests::outcome(result), now)
            },
    {
        if !text::str_eq(
            self.inputs.new_password.as_str(),
            self.inputs.password_confirmation.as_str(),
        ) {
            self.form_error = Some("Passwords do not match".to_owned());
            return None;
        }
        let result = controller.change_password(self.inputs.new_password.as_str(), encode, write);
        match error_of(&result) {
            None => {
                self.clear_passwords();
                self.modal = None;
                self.form_error = None;
                self.show_toast("Password changed".to_owned(), false, now);
            },
            Some(error) => {
                self.form_error = Some(error);
            },
        }
        Some(result)
    }

    /// Lets the connection be typed, beginning with the one that there is.
    pub fn open_aws_connection(&mut self, snapshot: &AppSnapshot)
        ensures
            final(self)@ == (MainState {
                inputs: InputTexts {
                    aws_start_url: match snapshot.aws {
                        Some(summary) => summary.configuration.start_url@,
                        None => Seq::empty(),
                    },
                    aws_region: match snapshot.aws {
                        Some(summary) => summary.configuration.sso_region@,
                        None => Seq::empty(),
                    },
                    ..old(self)@.inputs
                },
                form_error: None,
                modal: Some(ModalState::AwsConnection),
                ..old(self)@
            }),
    {
        match &snapshot.aws {
            Some(summary) => {
                self.inputs.aws_start_url = summary.configuration.start_url.clone();
                self.inputs.aws_region = summary.configuration.sso_region.clone();
            },
            None => {
                self.inputs.aws_start_url = String::new();
                self.inputs.aws_region = String::new();
            },
        }
        self.form_error = None;
        self.modal = Some(Modal::AwsConnection);
        assert(self@.inputs.aws_start_url =~= match snapshot.aws {
            Some(summary) => summary.configuration.start_url@,
            None => Seq::empty(),
        });
        assert(self@.inputs.aws_region =~= match snapshot.aws {
            Some(summary) => summary.configuration.sso_region@,
            None => Seq::empty(),
        });
    }

    /// Keeps the connection that was typed. Where that succeeds, a login is
    /// begun next.
    pub fn save_aws_connection<
        E: Fn(&VaultPlaintext) -> Result<Vec<u8>, String>,
        W: Fn(&VaultFile) -> Result<(), VaultError>,
    >(&mut self, controller: &mut Controller, encode: &E, write: &W) -> (r: Result<(), VaultError>)
        requires
            old(controller).wf(),
            forall|d: &VaultPlaintext| call_requires(*encode, (d,)),
            forall|f: &VaultFile| call_requires(*write, (f,)),
        ensures
            final(controller).wf(),
            connection_saved(
                *old(controller),
                text::trimmed(old(self)@.inputs.aws_start_url),
                text::trimmed(old(self)@.inputs.aws_region),
                *encode,
                *write,
                *final(controller),
                r,
            ),
            final(self)@ == after_connection(old(self)@, requests::outcome(r)),
    {
        let start_url = text::trim(self.inputs.aws_start_url.as_str());
        let region = text::trim(self.inputs.aws_region.as_str());
        let result = controller.save_aws_connection(start_url, region, encode, write);
        match error_of(&result) {
            None => {
                self.modal = None;
                self.form_error = None;
            },
            Some(error) => {
                self.form_error = Some(error);
            },
        }
        result
    }

    /// Tells what came of beginning a login after the connection was saved.
    pub fn login_begun(&mut self, result: Result<(), String>, now: u64)
        ensures
            final(self)@ == (MainState {
                toast: match result {
                    Ok(_) => toast_from("AWS connection saved; sign in to continue"@, false, now),
                    Err(error) => toast_from(error@, true, now),
                },
                ..old(self)@
            }),
    {
        match result {
            Ok(_) => self.show_toast(
                "AWS connection saved; sign in to continue".to_owned(),
                false,
                now,
            ),
            Err(error) => self.show_toast(error, true, now),
        }
    }

    /// Tells what came of beginning a login that was asked for.
    pub fn begin_aws_refresh(&mut self, result: Result<(), String>, now: u64)
        ensures
            final(self)@ == (MainState {
                toast: match result {
                    Ok(_) => toast_from("AWS SSO login started"@, false, now),
                    Err(error) => toast_from(error@, true, now),
                },
                ..old(self)@
            }),
    {
        match result {
            Ok(_) => self.show_toast("AWS SSO login started".to_owned(), false, now),
            Err(error) => self.show_toast(error, true, now),
        }
    }

    /// Lets profiles be assigned to the accounts that were discovered. Their
    /// numbers are long enough to make profiles of.
    pub fn open_aws_aliases(&mut self, snapshot: &AppSnapshot)
        requires
            snapshot.aws matches Some(summary) ==> forms::forms_for(
                summary.discovered_accounts@,
                summary.configuration.targets@,
            ) is Some,
        ensures
            match snapshot.aws {
                None => final(self)@ == old(self)@,
                Some(summary) => final(self)@ == (MainState {
                    aliases: forms::forms_for(
                        summary.discovered_accounts@,
                        summary.configuration.targets@,
                    )->Some_0,
                    form_error: None,
                    modal: Some(ModalState::AwsAliases),
                    ..old(self)@
                }),
            },
    {
        match &snapshot.aws {
            None => {},
            Some(summary) => {
                self.aws_aliases = forms::alias_forms(summary);
                self.form_error = None;
                self.modal = Some(Modal::AwsAliases);
            },
        }
    }

    /// Keeps the profiles that were assigned.
    pub fn save_aws_aliases<
        E: Fn(&VaultPlaintext) -> Result<Vec<u8>, String>,
        W: Fn(&VaultFile) -> Result<(), VaultError>,
    >(
        &mut self,
        snapshot: &AppSnapshot,
        controller: &mut Controller,
        now: u64,
        encode: &E,
        write: &W,
    ) -> (r: Option<Result<(), VaultError>>)
        requires
            old(controller).wf(),
            forall|d: &VaultPlaintext| call_requires(*encode, (d,)),
            forall|f: &VaultFile| call_requires(*write, (f,)),
        ensures
            final(controller).wf(),
            match (snapshot.aws, forms::checked_targets(old(self)@.aliases)) {
                (None, _) => {
                    &&& r is None
                    &&& *final(controller) == *old(controller)
                    &&& final(self)@ == (MainState {
                        form_error: Some("AWS connection is no longer available"@),
                        ..old(self)@
                    })
                },
                (Some(_), Err(error)) => {
                    &&& r is None
                    &&& *final(controller) == *old(controller)
                    &&& final(self)@ == (MainState { form_error: Some(error), ..old(self)@ })
                },
                (Some(summary), Ok(targets)) => {
                    &&& r matches Some(result)
                    &&& profiles_saved(
                        *old(controller),
                        summary.configuration.start_url@,
                        summary.configuration.sso_region@,
                        targets,
                        *encode,
                        *write,
                        *final(controller),
                        result,
                    )
                    &&& final(self)@ == after_aliases(old(self)@, requests::outcome(result), now)
                },
            },
    {
        let (start_url, sso_region) = match &snapshot.aws {
            None => {
                self.form_error = Some("AWS connection is no longer available".to_owned());
                return None;
            },
            Some(summary) => (
                summary.configuration.start_url.clone(),
                summary.configuration.sso_region.clone(),
            ),
        };
        let targets = match forms::alias_targets(&self.aws_aliases) {
            Err(error) => {
                self.form_error = Some(error);
                return None;
            },
            Ok(targets) => targets,
        };
        let configuration = AwsConfiguration { start_url, sso_region, targets };
        let result = controller.save_aws_configuration(configuration, encode, write);
        match error_of(&result) {
            None => {
                self.drop_aliases();
                self.modal = None;
                self.form_error = None;
                self.show_toast("AWS profile aliases saved".to_owned(), false, now);
            },
            Some(error) => {
                self.form_error = Some(error);
            },
        }
        Some(result)
    }

    /// Gives up what was asked for above the window.
    pub fn close_modal(&mut self)
        ensures
            final(self)@ == modal_closed(old(self)@),
    {
        let (secret, password) = match &self.modal {
            Some(Modal::Secret { .. }) => (true, false),
            Some(Modal::Password) => (false, true),
            _ => (false, false),
        };
        if secret {
            self.clear_secret();
        }
        if password {
            self.clear_passwords();
        }
        self.drop_aliases();
        self.modal = None;
        self.form_error = None;
    }

    /// Changes a grant or lifts a remembered denial.
    pub fn mutate_grant(&self, controller: &mut Controller, id: &str, change: GrantChange)
        requires
            old(controller).wf(),
        ensures
            final(controller).wf(),
            grant_changed(*old(controller), id@, change, *final(controller)),
    {
        match change {
            GrantChange::Extend => controller.extend_grant(id),
            GrantChange::Revoke => controller.revoke_grant(id),
            GrantChange::ExtendAws => controller.extend_aws_grant(id),
            GrantChange::RevokeAws => controller.revoke_aws_grant(id),
            GrantChange::Unblock => controller.revoke_aws_denial(id),
        }
    }
}

/// The view of a text that may be missing.
pub open spec fn words(value: Option<&str>) -> Option<Seq<char>> {
    match value {
        Some(value) => Some(value@),
        None => None,
    }
}

fn wipe(input: &mut String)
    ensures
        final(input)@ == Seq::<char>::empty(),
{
    crypto::wipe_text(input);
    assert(input@ =~= Seq::<char>::empty());
}

} // verus!
