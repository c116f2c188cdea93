//! The parts of the main window, as words, rows and buttons.

use vstd::prelude::*;
use vstd::string::*;

use crate::aws;
use crate::aws::{AwsLoginStatus, AwsSettingsSummary, AwsTarget};
use crate::clock;
use crate::controller::{
    AppSnapshot, AuditAction, AuditEntry, AwsCredentialDenial, AwsCredentialGrant,
};
use crate::controller_aws;
use crate::grants::Grant;
use crate::numeral;
use crate::paths;
use crate::process::ProcessIdentity;
use crate::runtime;
use crate::text;
use crate::vault::SecretSummary;
use crate::view::forms;
use crate::view::forms::{AliasForm, AliasTexts, Modal, ModalState};
use crate::view::labels;
use crate::view::main_view;
use crate::view::main_view::{GrantChange, MainState, MainView, Page};

verus! {

/// The moments that a picture of the window needs.
#[derive(Clone, Copy, Debug)]
pub struct Moments {
    /// Milliseconds on the clock of the window, which only goes forward.
    pub window: u64,
    /// Milliseconds since the Unix epoch.
    pub millis: u64,
    /// Seconds since the Unix epoch.
    pub seconds: u64,
}

/// What is shown while the vault is closed.
#[derive(Debug)]
pub struct AuthPage {
    pub title: &'static str,
    pub subtitle: &'static str,
    /// Whether the password is typed twice.
    pub confirm: bool,
    pub submit: &'static str,
    pub error: Option<String>,
}

/// Whether a page asks for the password of the vault, or for that of a new one.
pub open spec fn is_auth_page(page: AuthPage, creating: bool, error: Option<Seq<char>>) -> bool {
    &&& page.title@ == if creating {
        "Create your vault"@
    } else {
        "Welcome back"@
    }
    &&& page.subtitle@ == if creating {
        "Protect credentials in an encrypted vault that stays on this Mac."@
    } else {
        "Unlock your vault to manage credentials and approve access."@
    }
    &&& page.confirm == creating
    &&& page.submit@ == if creating {
        "Create encrypted vault"@
    } else {
        "Unlock vault"@
    }
    &&& paths::given(page.error) == error
}

/// The top of the window.
#[derive(Debug)]
pub struct Header {
    pub selected_index: usize,
    pub active_count: u128,
    pub activity_count: usize,
    pub active_label: String,
    pub activity_label: String,
}

/// The place of a part of the window among the tabs.
pub open spec fn tab_index(page: Page) -> int {
    match page {
        Page::Secrets => 0,
        Page::Aws => 1,
        Page::Grants => 2,
        Page::Activity => 3,
    }
}

/// The part of the window behind a tab.
pub open spec fn tab_page(index: int) -> Page {
    if index == 0 {
        Page::Secrets
    } else if index == 1 {
        Page::Aws
    } else if index == 2 {
        Page::Grants
    } else {
        Page::Activity
    }
}

/// The part of the window behind a tab.
pub fn page_at(index: usize) -> (r: Page)
    ensures
        r == tab_page(index as int),
{
    match index {
        0 => Page::Secrets,
        1 => Page::Aws,
        2 => Page::Grants,
        _ => Page::Activity,
    }
}

/// The tab of a part of the window leads to it.
pub proof fn tabs_lead_to_their_pages(page: Page)
    ensures
        tab_page(tab_index(page)) == page,
{
}

/// Whether the top of the window shows a part and counts what there is.
pub open spec fn is_header(header: Header, page: Page, snapshot: AppSnapshot) -> bool {
    let active = snapshot.grants@.len() + snapshot.aws_grants@.len();
    let activity = snapshot.audit@.len();
    &&& header.selected_index == tab_index(page)
    &&& header.active_count == active
    &&& header.activity_count == activity
    &&& header.active_label@ == "Active, "@ + numeral::decimal(active)
    &&& header.activity_label@ == "Activity, "@ + numeral::decimal(activity)
}

/// A secret in the list.
#[derive(Debug)]
pub struct SecretRow {
    pub name: String,
    /// Its value, where it is shown.
    pub value: Option<String>,
    pub toggle_label: &'static str,
    pub reveal_id: String,
    pub edit_id: String,
    pub delete_id: String,
}

/// The value of a secret, where it is shown.
pub open spec fn shown_value(state: MainState, name: Seq<char>) -> Option<Seq<char>> {
    match state.revealed {
        Some((shown, value)) => if shown == name {
            Some(value)
        } else {
            None
        },
        None => None,
    }
}

/// Whether a row shows a secret.
pub open spec fn is_secret_row(row: SecretRow, state: MainState, name: Seq<char>) -> bool {
    &&& row.name@ == name
    &&& paths::given(row.value) == shown_value(state, name)
    &&& row.toggle_label@ == if main_view::shows(state, name) {
        "Hide"@
    } else {
        "Reveal"@
    }
    &&& row.reveal_id@ == "reveal-"@ + name
    &&& row.edit_id@ == "edit-"@ + name
    &&& row.delete_id@ == "delete-"@ + name
}

/// The list of secrets.
#[derive(Debug)]
pub struct SecretsPage {
    pub rows: Vec<SecretRow>,
    /// What is said where the list is empty.
    pub empty: Option<&'static str>,
}

/// The test for secrets whose name holds what is searched for; case does not
/// matter for ASCII letters.
pub open spec fn is_found(search: Seq<char>) -> spec_fn(SecretSummary) -> bool {
    |secret: SecretSummary|
        search.len() == 0 || text::has_part(text::lowered(secret.name@), text::lowered(search))
}

/// The secrets that are shown for a search.
pub open spec fn found(secrets: Seq<SecretSummary>, search: Seq<char>) -> Seq<SecretSummary> {
    secrets.filter(is_found(search))
}

/// Whether a list shows the secrets that a search finds.
pub open spec fn is_secrets_page(
    page: SecretsPage,
    state: MainState,
    secrets: Seq<SecretSummary>,
) -> bool {
    let visible = found(secrets, state.inputs.search);
    &&& page.rows@.len() == visible.len()
    &&& forall|i: int|
        0 <= i < visible.len() ==> is_secret_row(
            #[trigger] page.rows@[i],
            state,
            visible[i].name@,
        )
    &&& if visible.len() > 0 {
        page.empty is None
    } else if secrets.len() == 0 {
        page.empty matches Some(words) && words@ == "Your vault is empty"@
    } else {
        page.empty matches Some(words) && words@ == "No matching credentials"@
    }
}

/// What can be done at the top of the AWS part.
#[derive(Clone, Copy, Debug, PartialEq, Eq, Structural)]
pub enum AwsAction {
    /// A login; while one is under way, no other.
    Refresh { working: bool },
    /// A menu to change the profiles, where accounts are known, or the
    /// connection.
    Configure { aliases: bool, enabled: bool },
    Connect,
}

/// What can be done at the top of the AWS part.
pub open spec fn aws_actions(snapshot: AppSnapshot) -> Seq<AwsAction> {
    let working = controller_aws::login_running(snapshot.aws_login);
    match snapshot.aws {
        Some(summary) => seq![
            AwsAction::Refresh { working },
            AwsAction::Configure {
                aliases: summary.discovered_accounts@.len() > 0,
                enabled: !working,
            },
        ],
        None => seq![AwsAction::Connect],
    }
}

/// What is said about a login.
#[derive(Debug)]
pub enum LoginNote {
    Nothing,
    Working(&'static str),
    /// A login waits for a person to sign in.
    SignIn { code: String, url: String, expires: String },
    SignedIn(String),
    Failed(String),
}

/// What is said about a login, as it is spoken of.
pub enum LoginWords {
    Nothing,
    Working(Seq<char>),
    SignIn { code: Seq<char>, url: Seq<char>, expires: Seq<char> },
    SignedIn(Seq<char>),
    Failed(Seq<char>),
}

/// What a note says.
pub open spec fn login_words(note: LoginNote) -> LoginWords {
    match note {
        LoginNote::Nothing => LoginWords::Nothing,
        LoginNote::Working(words) => LoginWords::Working(words@),
        LoginNote::SignIn { code, url, expires } => LoginWords::SignIn {
            code: code@,
            url: url@,
            expires: expires@,
        },
        LoginNote::SignedIn(words) => LoginWords::SignedIn(words@),
        LoginNote::Failed(error) => LoginWords::Failed(error@),
    }
}

/// What is said about a login at a moment in seconds.
pub open spec fn words_about(login: AwsLoginStatus, seconds: u64) -> LoginWords {
    match login {
        AwsLoginStatus::Idle => LoginWords::Nothing,
        AwsLoginStatus::Starting => LoginWords::Working("Starting AWS login…"@),
        AwsLoginStatus::AwaitingUser(authorization) => LoginWords::SignIn {
            code: "Verification code: "@ + authorization.user_code@,
            url: runtime::sign_in_url(authorization),
            expires: "This request expires in "@ + labels::until_seconds(
                authorization.expires_at,
                seconds,
            ),
        },
        AwsLoginStatus::Discovering => LoginWords::Working("Loading AWS accounts and roles…"@),
        AwsLoginStatus::LoggedIn { expires_at } => LoginWords::SignedIn(
            "Signed in · access token expires in "@ + labels::until_seconds(expires_at, seconds),
        ),
        AwsLoginStatus::Failed(error) => LoginWords::Failed(error@),
    }
}

/// A profile in the list.
#[derive(Debug)]
pub struct ProfileRow {
    pub element_id: String,
    pub profile: String,
    pub account: String,
    pub read_only_role: String,
    pub admin_role: String,
}

/// Whether a row shows a profile.
pub open spec fn is_profile_row(row: ProfileRow, target: AwsTarget) -> bool {
    &&& row.element_id@ == "aws-profile-"@ + target.profile@
    &&& row.profile@ == target.profile@
    &&& row.account@ == "Account "@ + target.account_id@
    &&& row.read_only_role@ == target.read_only_role@
    &&& row.admin_role@ == target.admin_role@
}

/// The connection as it is shown.
#[derive(Debug)]
pub struct ConnectionBox {
    pub start_url: String,
    pub region: String,
    pub logged_in: bool,
    pub status: &'static str,
}

/// Whether a box shows the connection.
pub open spec fn is_connection_box(shown: ConnectionBox, summary: AwsSettingsSummary) -> bool {
    &&& shown.start_url@ == summary.configuration.start_url@
    &&& shown.region@ == "Region · "@ + summary.configuration.sso_region@
    &&& shown.logged_in == summary.logged_in
    &&& shown.status@ == if summary.logged_in {
        "Available"@
    } else {
        "Sign in"@
    }
}

/// The AWS part of the window.
#[derive(Debug)]
pub struct AwsPage {
    pub actions: Vec<AwsAction>,
    pub login: LoginNote,
    pub connection: Option<ConnectionBox>,
    /// What to do next, or why there is nothing to show.
    pub note: Option<&'static str>,
    pub profiles: Vec<ProfileRow>,
    /// Whether profiles are to be assigned next.
    pub assign: bool,
}

/// What to do next, or why there is nothing to show.
pub open spec fn aws_note(aws: Option<AwsSettingsSummary>) -> Option<Seq<char>> {
    match aws {
        None => Some("Step 1 · Enter your AWS access portal URL to begin"@),
        Some(summary) => if !summary.discovery_complete {
            Some("Step 2 · Sign in to discover your AWS accounts"@)
        } else if summary.discovered_accounts@.len() == 0 {
            Some("AWS returned no accounts assigned to this identity"@)
        } else {
            None
        },
    }
}

/// Whether the AWS part shows the settings and the login.
pub open spec fn is_aws_page(page: AwsPage, snapshot: AppSnapshot, seconds: u64) -> bool {
    &&& page.actions@ == aws_actions(snapshot)
    &&& login_words(page.login) == words_about(snapshot.aws_login, seconds)
    &&& main_view::words(page.note) == aws_note(snapshot.aws)
    &&& match snapshot.aws {
        None => {
            &&& page.connection is None
            &&& page.profiles@.len() == 0
            &&& !page.assign
        },
        Some(summary) => {
            &&& page.connection matches Some(shown) && is_connection_box(shown, summary)
            &&& page.profiles@.len() == summary.configuration.targets@.len()
            &&& forall|i: int|
                0 <= i < page.profiles@.len() ==> is_profile_row(
                    #[trigger] page.profiles@[i],
                    summary.configuration.targets@[i],
                )
            &&& page.assign == (summary.discovery_complete && summary.discovered_accounts@.len() > 0
                && summary.configuration.targets@.len() == 0)
        },
    }
}

/// A grant or a remembered denial in the list.
#[derive(Debug)]
pub struct GrantRow {
    pub id: String,
    pub title: String,
    pub detail: String,
    pub changes: Vec<GrantChange>,
}

/// Who holds what is shown, and how much longer.
pub open spec fn holder_line(process: ProcessIdentity, expires_at: u64, millis: u64) -> Seq<char> {
    process.executable@ + " · PID "@ + numeral::decimal(process.pid as nat) + " · expires in "@
        + labels::until(expires_at, millis)
}

/// Whether a row shows a grant of AWS credentials.
pub open spec fn is_aws_grant_row(row: GrantRow, grant: AwsCredentialGrant, millis: u64) -> bool {
    &&& row.id@ == grant.id@
    &&& row.title@ == "AWS "@ + grant.profile@ + " · "@ + aws::level_label(grant.level)
        + " credentials"@
    &&& row.detail@ == holder_line(grant.process, grant.expires_at, millis)
    &&& row.changes@ == seq![GrantChange::ExtendAws, GrantChange::RevokeAws]
}

/// Whether a row shows a grant of a secret.
pub open spec fn is_grant_row(row: GrantRow, grant: Grant, millis: u64) -> bool {
    &&& row.id@ == grant.id@
    &&& row.title@ == grant.resource@
    &&& row.detail@ == holder_line(grant.process, grant.expires_at, millis)
    &&& row.changes@ == seq![GrantChange::Extend, GrantChange::Revoke]
}

/// Whether a row shows a remembered denial.
pub open spec fn is_denial_row(row: GrantRow, denial: AwsCredentialDenial, millis: u64) -> bool {
    &&& row.id@ == denial.id@
    &&& row.title@ == "AWS "@ + denial.profile@ + " · denied"@
    &&& row.detail@ == holder_line(denial.process, denial.expires_at, millis)
    &&& row.changes@ == seq![GrantChange::Unblock]
}

/// The words on the button for a change.
pub open spec fn change_words(change: GrantChange) -> Seq<char> {
    match change {
        GrantChange::Extend | GrantChange::ExtendAws => "+15 min"@,
        GrantChange::Revoke | GrantChange::RevokeAws => "Revoke"@,
        GrantChange::Unblock => "Unblock"@,
    }
}

pub fn change_label(change: GrantChange) -> (r: &'static str)
    ensures
        r@ == change_words(change),
{
    match change {
        GrantChange::Extend | GrantChange::ExtendAws => "+15 min",
        GrantChange::Revoke | GrantChange::RevokeAws => "Revoke",
        GrantChange::Unblock => "Unblock",
    }
}

/// The list of what is granted and what is denied.
#[derive(Debug)]
pub struct GrantsPage {
    pub aws_grants: Vec<GrantRow>,
    pub grants: Vec<GrantRow>,
    pub denials: Vec<GrantRow>,
    /// Whether it is said that nothing is granted.
    pub empty: bool,
}

/// Whether a list shows what is granted and what is denied.
pub open spec fn is_grants_page(page: GrantsPage, snapshot: AppSnapshot, millis: u64) -> bool {
    &&& page.aws_grants@.len() == snapshot.aws_grants@.len()
    &&& forall|i: int|
        0 <= i < page.aws_grants@.len() ==> is_aws_grant_row(
            #[trigger] page.aws_grants@[i],
            snapshot.aws_grants@[i],
            millis,
        )
    &&& page.grants@.len() == snapshot.grants@.len()
    &&& forall|i: int|
        0 <= i < page.grants@.len() ==> is_grant_row(
            #[trigger] page.grants@[i],
            snapshot.grants@[i],
            millis,
        )
    &&& page.denials@.len() == snapshot.aws_denials@.len()
    &&& forall|i: int|
        0 <= i < page.denials@.len() ==> is_denial_row(
            #[trigger] page.denials@[i],
            snapshot.aws_denials@[i],
            millis,
        )
    &&& page.empty == (snapshot.grants@.len() == 0 && snapshot.aws_grants@.len() == 0)
}

/// A line of the record as it is shown.
#[derive(Debug)]
pub struct ActivityRow {
    pub label: &'static str,
    /// Whether it is shown in red.
    pub refused: bool,
    pub subject: String,
    pub when: String,
    pub process: String,
}

/// Whether a row shows a line of the record.
pub open spec fn is_activity_row(row: ActivityRow, entry: AuditEntry, millis: u64) -> bool {
    &&& row.label@ == labels::action_label(entry.action)
    &&& row.refused == (entry.action is Denied || entry.action is TimedOut || entry.action
        is Revoked)
    &&& row.subject@ == entry.secret@
    &&& row.when@ == labels::since(entry.occurred_at, millis)
    &&& row.process@ == entry.process.executable@ + " · PID "@ + numeral::decimal(
        entry.process.pid as nat,
    )
}

/// Whether rows show the record.
pub open spec fn is_activity_page(rows: Seq<ActivityRow>, audit: Seq<AuditEntry>, millis: u64) -> bool {
    &&& rows.len() == audit.len()
    &&& forall|i: int|
        0 <= i < rows.len() ==> is_activity_row(#[trigger] rows[i], audit[i], millis)
}

/// An input that is asked for above the window.
#[derive(Clone, Copy, Debug, PartialEq, Eq, Structural)]
pub enum FormInput {
    SecretName,
    SecretValue,
    NewPassword,
    PasswordConfirmation,
    AwsStartUrl,
    AwsRegion,
}

/// The words above an input.
pub open spec fn input_words(input: FormInput) -> Seq<char> {
    match input {
        FormInput::SecretName => "Name"@,
        FormInput::SecretValue => "Value"@,
        FormInput::NewPassword => "New password"@,
        FormInput::PasswordConfirmation => "Confirm password"@,
        FormInput::AwsStartUrl => "AWS access portal URL"@,
        FormInput::AwsRegion => "IAM Identity Center region"@,
    }
}

pub fn input_label(input: FormInput) -> (r: &'static str)
    ensures
        r@ == input_words(input),
{
    match input {
        FormInput::SecretName => "Name",
        FormInput::SecretValue => "Value",
        FormInput::NewPassword => "New password",
        FormInput::PasswordConfirmation => "Confirm password",
        FormInput::AwsStartUrl => "AWS access portal URL",
        FormInput::AwsRegion => "IAM Identity Center region",
    }
}

/// An account that can be given a profile, as it is shown.
#[derive(Debug)]
pub struct AccountCard {
    pub account_name: String,
    pub account_id: String,
    pub email_address: String,
    pub roles: String,
}

/// Whether a card shows an account.
pub open spec fn is_account_card(card: AccountCard, form: AliasTexts) -> bool {
    &&& card.account_name@ == form.account_name
    &&& card.account_id@ == form.account_id
    &&& card.email_address@ == form.email_address
    &&& card.roles@ == "Available roles: "@ + labels::joined(form.roles, ", "@)
}

/// What is asked for above the window.
#[derive(Debug)]
pub struct ModalPanel {
    pub title: &'static str,
    pub note: Option<String>,
    pub inputs: Vec<FormInput>,
    pub accounts: Vec<AccountCard>,
    pub error: Option<String>,
    pub submit: &'static str,
    /// Whether the button destroys something.
    pub danger: bool,
    pub width: u32,
}

/// The heading of what is asked for.
pub open spec fn modal_title(modal: ModalState) -> Seq<char> {
    match modal {
        ModalState::Secret { original_name } => if original_name is Some {
            "Edit credential"@
        } else {
            "New credential"@
        },
        ModalState::Password => "Change master password"@,
        ModalState::AwsConnection => "Connect AWS IAM Identity Center"@,
        ModalState::AwsAliases => "Assign AWS profile aliases"@,
        ModalState::Delete(_) => "Delete credential?"@,
    }
}

/// What is said about what is asked for.
pub open spec fn modal_note(modal: ModalState) -> Option<Seq<char>> {
    match modal {
        ModalState::AwsConnection => Some(
            "The portal connection and resulting login tokens stay in the encrypted vault."@,
        ),
        ModalState::Delete(name) => Some(
            "Permanently delete “"@ + name + "” from the encrypted vault?"@,
        ),
        _ => None,
    }
}

/// The inputs of what is asked for.
pub open spec fn modal_inputs(modal: ModalState) -> Seq<FormInput> {
    match modal {
        ModalState::Secret { .. } => seq![FormInput::SecretName, FormInput::SecretValue],
        ModalState::Password => seq![FormInput::NewPassword, FormInput::PasswordConfirmation],
        ModalState::AwsConnection => seq![FormInput::AwsStartUrl, FormInput::AwsRegion],
        _ => seq![],
    }
}

/// The words on the button that does what is asked for.
pub open spec fn modal_submit(modal: ModalState) -> Seq<char> {
    match modal {
        ModalState::Secret { .. } => "Save credential"@,
        ModalState::Password => "Update password"@,
        ModalState::AwsConnection => "Save and sign in"@,
        ModalState::AwsAliases => "Save profile aliases"@,
        ModalState::Delete(_) => "Delete"@,
    }
}

/// Whether a panel asks for what is to be asked for.
pub open spec fn is_modal_panel(panel: ModalPanel, modal: ModalState, state: MainState) -> bool {
    &&& panel.title@ == modal_title(modal)
    &&& paths::given(panel.note) == modal_note(modal)
    &&& panel.inputs@ == modal_inputs(modal)
    &&& if modal is AwsAliases {
        &&& panel.accounts@.len() == state.aliases.len()
        &&& forall|i: int|
            0 <= i < panel.accounts@.len() ==> is_account_card(
                #[trigger] panel.accounts@[i],
                state.aliases[i],
            )
    } else {
        panel.accounts@.len() == 0
    }
    &&& paths::given(panel.error) == if modal is Delete {
        None
    } else {
        state.form_error
    }
    &&& panel.submit@ == modal_submit(modal)
    &&& panel.danger == (modal is Delete)
    &&& panel.width == if modal is AwsAliases {
        700u32
    } else {
        500u32
    }
}

/// A part of the window as it is shown.
#[derive(Debug)]
pub enum Content {
    Secrets(SecretsPage),
    Aws(AwsPage),
    Grants(GrantsPage),
    Activity(Vec<ActivityRow>),
}

/// The window while the vault is open.
#[derive(Debug)]
pub struct OpenScreen {
    pub header: Header,
    pub content: Content,
    pub modal: Option<ModalPanel>,
}

/// The window.
#[derive(Debug)]
pub enum Screen {
    Auth(AuthPage),
    Open(OpenScreen),
}

/// Whether the content shows a part of the window.
pub open spec fn is_content(
    content: Content,
    state: MainState,
    snapshot: AppSnapshot,
    moments: Moments,
) -> bool {
    match state.page {
        Page::Secrets => content matches Content::Secrets(page) && is_secrets_page(
            page,
            state,
            snapshot.secrets@,
        ),
        Page::Aws => content matches Content::Aws(page) && is_aws_page(
            page,
            snapshot,
            moments.seconds,
        ),
        Page::Grants => content matches Content::Grants(page) && is_grants_page(
            page,
            snapshot,
            moments.millis,
        ),
        Page::Activity => content matches Content::Activity(rows) && is_activity_page(
            rows@,
            snapshot.audit@,
            moments.millis,
        ),
    }
}

/// Whether a picture shows the window: a closed vault shows nothing but the
/// question for its password.
pub open spec fn is_screen(
    screen: Screen,
    state: MainState,
    snapshot: AppSnapshot,
    moments: Moments,
) -> bool {
    if !snapshot.vault_exists || !snapshot.unlocked {
        screen matches Screen::Auth(page) && is_auth_page(
            page,
            !snapshot.vault_exists,
            state.auth_error,
        )
    } else {
        screen matches Screen::Open(open) && {
            &&& is_header(open.header, state.page, snapshot)
            &&& is_content(open.content, state, snapshot, moments)
            &&& match state.modal {
                None => open.modal is None,
                Some(modal) => open.modal matches Some(panel) && is_modal_panel(
                    panel,
                    modal,
                    state,
                ),
            }
        }
    }
}

fn copied_text(value: &Option<String>) -> (r: Option<String>)
    ensures
        paths::given(r) == paths::given(*value),
{
    match value {
        Some(value) => Some(value.clone()),
        None => None,
    }
}

fn profile_rows(targets: &Vec<AwsTarget>) -> (r: Vec<ProfileRow>)
    ensures
        r@.len() == targets@.len(),
        forall|i: int| 0 <= i < r@.len() ==> is_profile_row(#[trigger] r@[i], targets@[i]),
{
    let mut rows: Vec<ProfileRow> = Vec::new();
    for i in 0..targets.len()
        invariant
            rows@.len() == i,
            forall|j: int| 0 <= j < i ==> is_profile_row(#[trigger] rows@[j], targets@[j]),
    {
        let target = &targets[i];
        rows.push(
            ProfileRow {
                element_id: text::concat("aws-profile-", target.profile.as_str()),
                profile: target.profile.clone(),
                account: text::concat("Account ", target.account_id.as_str()),
                read_only_role: target.read_only_role.clone(),
                admin_role: target.admin_role.clone(),
            },
        );
    }
    rows
}

fn login_note(login: &AwsLoginStatus, seconds: u64) -> (r: LoginNote)
    ensures
        login_words(r) == words_about(*login, seconds),
{
    match login {
        AwsLoginStatus::Idle => LoginNote::Nothing,
        AwsLoginStatus::Starting => LoginNote::Working("Starting AWS login…"),
        AwsLoginStatus::AwaitingUser(authorization) => {
            let left = labels::duration_until_seconds_at(authorization.expires_at, seconds);
            LoginNote::SignIn {
                code: text::concat("Verification code: ", authorization.user_code.as_str()),
                url: runtime::sign_in_address(authorization),
                expires: text::concat("This request expires in ", left.as_str()),
            }
        },
        AwsLoginStatus::Discovering => LoginNote::Working("Loading AWS accounts and roles…"),
        AwsLoginStatus::LoggedIn { expires_at } => {
            let left = labels::duration_until_seconds_at(*expires_at, seconds);
            LoginNote::SignedIn(
                text::concat("Signed in · access token expires in ", left.as_str()),
            )
        },
        AwsLoginStatus::Failed(error) => LoginNote::Failed(error.clone()),
    }
}

fn is_working(login: &AwsLoginStatus) -> (r: bool)
    ensures
        r == controller_aws::login_running(*login),
{
    match login {
        AwsLoginStatus::Starting | AwsLoginStatus::AwaitingUser(_) | AwsLoginStatus::Discovering => true,
        _ => false,
    }
}

fn process_line(process: &ProcessIdentity) -> (r: String)
    ensures
        r@ == process.executable@ + " · PID "@ + numeral::decimal(process.pid as nat),
{
    let pid = numeral::u64_text(process.pid as u64);
    let mut r = process.executable.clone();
    r.append(" · PID ");
    r.append(pid.as_str());
    r
}

fn holder_text(process: &ProcessIdentity, expires_at: u64, millis: u64) -> (r: String)
    ensures
        r@ == holder_line(*process, expires_at, millis),
{
    let left = labels::duration_until_at(expires_at, millis);
    let mut r = process_line(process);
    r.append(" · expires in ");
    r.append(left.as_str());
    r
}

fn account_cards(forms: &Vec<AliasForm>) -> (r: Vec<AccountCard>)
    ensures
        r@.len() == forms@.len(),
        forall|i: int|
            0 <= i < r@.len() ==> is_account_card(
                #[trigger] r@[i],
                forms::alias_texts(forms@)[i],
            ),
{
    let mut cards: Vec<AccountCard> = Vec::new();
    for i in 0..forms.len()
        invariant
            cards@.len() == i,
            forall|j: int|
                0 <= j < i ==> is_account_card(
                    #[trigger] cards@[j],
                    forms::alias_texts(forms@)[j],
                ),
    {
        let form = &forms[i];
        let roles = labels::join(&form.roles, ", ");
        assert(forms::alias_texts(forms@)[i as int] == form@);
        cards.push(
            AccountCard {
                account_name: form.account_name.clone(),
                account_id: form.account_id.clone(),
                email_address: form.email_address.clone(),
                roles: text::concat("Available roles: ", roles.as_str()),
            },
        );
    }
    cards
}

impl MainView {
    /// The question for the password of the vault, or for that of a new one.
    pub fn render_auth(&self, creating: bool) -> (r: AuthPage)
        ensures
            is_auth_page(r, creating, self@.auth_error),
    {
        AuthPage {
            title: if creating {
                "Create your vault"
            } else {
                "Welcome back"
            },
            subtitle: if creating {
                "Protect credentials in an encrypted vault that stays on this Mac."
            } else {
                "Unlock your vault to manage credentials and approve access."
            },
            confirm: creating,
            submit: if creating {
                "Create encrypted vault"
            } else {
                "Unlock vault"
            },
            error: copied_text(&self.auth_error),
        }
    }

    /// The top of the window.
    pub fn render_header(&self, snapshot: &AppSnapshot) -> (r: Header)
        ensures
            is_header(r, self@.page, *snapshot),
    {
        let active: u128 = snapshot.grants.len() as u128 + snapshot.aws_grants.len() as u128;
        let activity: usize = snapshot.audit.len();
        let active_text = numeral::u128_text(active);
        let activity_text = numeral::u128_text(activity as u128);
        Header {
            selected_index: match self.page {
                Page::Secrets => 0,
                Page::Aws => 1,
                Page::Grants => 2,
                Page::Activity => 3,
            },
            active_count: active,
            activity_count: activity,
            active_label: text::concat("Active, ", active_text.as_str()),
            activity_label: text::concat("Activity, ", activity_text.as_str()),
        }
    }

    fn secret_row(&self, secret: &SecretSummary) -> (r: SecretRow)
        ensures
            is_secret_row(r, self@, secret.name@),
    {
        let name = secret.name.as_str();
        let value = match &self.revealed {
            Some((shown, value)) => if text::str_eq(shown.as_str(), name) {
                Some(value.clone())
            } else {
                None
            },
            None => None,
        };
        let toggle_label = if value.is_some() {
            "Hide"
        } else {
            "Reveal"
        };
        SecretRow {
            name: secret.name.clone(),
            value,
            toggle_label,
            reveal_id: text::concat("reveal-", name),
            edit_id: text::concat("edit-", name),
            delete_id: text::concat("delete-", name),
        }
    }

    /// The secrets that are searched for.
    pub fn render_secrets(&self, snapshot: &AppSnapshot) -> (r: SecretsPage)
        ensures
            is_secrets_page(r, self@, snapshot.secrets@),
    {
        let search = self.inputs.search.as_str();
        let query = text::to_lower(search);
        let ghost secrets = snapshot.secrets@;
        let ghost wanted = is_found(search@);
        let mut rows: Vec<SecretRow> = Vec::new();
        reveal(Seq::filter);
        for i in 0..snapshot.secrets.len()
            invariant
                secrets == snapshot.secrets@,
                search@ == self@.inputs.search,
                query@ == text::lowered(search@),
                wanted == is_found(search@),
                rows@.len() == secrets.take(i as int).filter(wanted).len(),
                forall|j: int|
                    0 <= j < rows@.len() ==> is_secret_row(
                        #[trigger] rows@[j],
                        self@,
                        secrets.take(i as int).filter(wanted)[j].name@,
                    ),
        {
            reveal(Seq::filter);
            let secret = &snapshot.secrets[i];
            let name = text::to_lower(secret.name.as_str());
            assert(secrets.take(i + 1).drop_last() =~= secrets.take(i as int));
            assert(query@.len() == search@.len());
            if query.as_str().is_empty() || text::contains_part(name.as_str(), query.as_str()) {
                assert(wanted(*secret));
                rows.push(self.secret_row(secret));
            } else {
                assert(!wanted(*secret));
            }
        }
        assert(secrets.take(secrets.len() as int) =~= secrets);
        let empty = if rows.len() > 0 {
            None
        } else if snapshot.secrets.len() == 0 {
            Some("Your vault is empty")
        } else {
            Some("No matching credentials")
        };
        SecretsPage { rows, empty }
    }

    /// The AWS part of the window at a moment in seconds.
    pub fn render_aws_at(&self, snapshot: &AppSnapshot, seconds: u64) -> (r: AwsPage)
        ensures
            is_aws_page(r, *snapshot, seconds),
    {
        let working = is_working(&snapshot.aws_login);
        let login = login_note(&snapshot.aws_login, seconds);
        let mut actions: Vec<AwsAction> = Vec::new();
        match &snapshot.aws {
            None => {
                actions.push(AwsAction::Connect);
                assert(actions@ =~= aws_actions(*snapshot));
                AwsPage {
                    actions,
                    login,
                    connection: None,
                    note: Some("Step 1 · Enter your AWS access portal URL to begin"),
                    profiles: Vec::new(),
                    assign: false,
                }
            },
            Some(summary) => {
                actions.push(AwsAction::Refresh { working });
                actions.push(
                    AwsAction::Configure {
                        aliases: summary.discovered_accounts.len() > 0,
                        enabled: !working,
                    },
                );
                assert(actions@ =~= aws_actions(*snapshot));
                let connection = ConnectionBox {
                    start_url: summary.configuration.start_url.clone(),
                    region: text::concat("Region · ", summary.configuration.sso_region.as_str()),
                    logged_in: summary.logged_in,
                    status: if summary.logged_in {
                        "Available"
                    } else {
                        "Sign in"
                    },
                };
                let note = if !summary.discovery_complete {
                    Some("Step 2 · Sign in to discover your AWS accounts")
                } else if summary.discovered_accounts.len() == 0 {
                    Some("AWS returned no accounts assigned to this identity")
                } else {
                    None
                };
                AwsPage {
                    actions,
                    login,
                    connection: Some(connection),
                    note,
                    profiles: profile_rows(&summary.configuration.targets),
                    assign: summary.discovery_complete && summary.discovered_accounts.len() > 0
                        && summary.configuration.targets.len() == 0,
                }
            },
        }
    }

    /// The AWS part of the window.
    pub fn render_aws(&self, snapshot: &AppSnapshot) -> (r: AwsPage)
        ensures
            exists|seconds: u64| #[trigger] is_aws_page(r, *snapshot, seconds),
    {
        self.render_aws_at(snapshot, clock::now_seconds())
    }

    /// What is granted and what is denied, at a moment in milliseconds.
    pub fn render_grants_at(&self, snapshot: &AppSnapshot, millis: u64) -> (r: GrantsPage)
        ensures
            is_grants_page(r, *snapshot, millis),
    {
        let mut aws_grants: Vec<GrantRow> = Vec::new();
        for i in 0..snapshot.aws_grants.len()
            invariant
                aws_grants@.len() == i,
                forall|j: int|
                    0 <= j < i ==> is_aws_grant_row(
                        #[trigger] aws_grants@[j],
                        snapshot.aws_grants@[j],
                        millis,
                    ),
        {
            let grant = &snapshot.aws_grants[i];
            let mut title = text::concat("AWS ", grant.profile.as_str());
            title.append(" · ");
            title.append(grant.level.label());
            title.append(" credentials");
            let changes = vec![GrantChange::ExtendAws, GrantChange::RevokeAws];
            assert(changes@ =~= seq![GrantChange::ExtendAws, GrantChange::RevokeAws]);
            aws_grants.push(
                GrantRow {
                    id: grant.id.clone(),
                    title,
                    detail: holder_text(&grant.process, grant.expires_at, millis),
                    changes,
                },
            );
        }
        let mut grants: Vec<GrantRow> = Vec::new();
        for i in 0..snapshot.grants.len()
            invariant
                grants@.len() == i,
                forall|j: int|
                    0 <= j < i ==> is_grant_row(
                        #[trigger] grants@[j],
                        snapshot.grants@[j],
                        millis,
                    ),
        {
            let grant = &snapshot.grants[i];
            let changes = vec![GrantChange::Extend, GrantChange::Revoke];
            assert(changes@ =~= seq![GrantChange::Extend, GrantChange::Revoke]);
            grants.push(
                GrantRow {
                    id: grant.id.clone(),
                    title: grant.resource.clone(),
                    detail: holder_text(&grant.process, grant.expires_at, millis),
                    changes,
                },
            );
        }
        let mut denials: Vec<GrantRow> = Vec::new();
        for i in 0..snapshot.aws_denials.len()
            invariant
                denials@.len() == i,
                forall|j: int|
                    0 <= j < i ==> is_denial_row(
                        #[trigger] denials@[j],
                        snapshot.aws_denials@[j],
                        millis,
                    ),
        {
            let denial = &snapshot.aws_denials[i];
            let mut title = text::concat("AWS ", denial.profile.as_str());
            title.append(" · denied");
            let changes = vec![GrantChange::Unblock];
            assert(changes@ =~= seq![GrantChange::Unblock]);
            denials.push(
                GrantRow {
                    id: denial.id.clone(),
                    title,
                    detail: holder_text(&denial.process, denial.expires_at, millis),
                    changes,
                },
            );
        }
        GrantsPage {
            aws_grants,
            grants,
            denials,
            empty: snapshot.grants.len() == 0 && snapshot.aws_grants.len() == 0,
        }
    }

    /// What is granted and what is denied.
    pub fn render_grants(&self, snapshot: &AppSnapshot) -> (r: GrantsPage)
        ensures
            exists|millis: u64| #[trigger] is_grants_page(r, *snapshot, millis),
    {
        self.render_grants_at(snapshot, clock::now_millis())
    }

    /// The record at a moment in milliseconds.
    pub fn render_activity_at(&self, snapshot: &AppSnapshot, millis: u64) -> (r: Vec<ActivityRow>)
        ensures
            is_activity_page(r@, snapshot.audit@, millis),
    {
        let mut rows: Vec<ActivityRow> = Vec::new();
        for i in 0..snapshot.audit.len()
            invariant
                rows@.len() == i,
                forall|j: int|
                    0 <= j < i ==> is_activity_row(
                        #[trigger] rows@[j],
                        snapshot.audit@[j],
                        millis,
                    ),
        {
            let entry = &snapshot.audit[i];
            let refused = match entry.action {
                AuditAction::Denied | AuditAction::TimedOut | AuditAction::Revoked => true,
                _ => false,
            };
            rows.push(
                ActivityRow {
                    label: labels::audit_label(entry.action),
                    refused,
                    subject: entry.secret.clone(),
                    when: labels::duration_since_at(entry.occurred_at, millis),
                    process: process_line(&entry.process),
                },
            );
        }
        rows
    }

    /// The record.
    pub fn render_activity(&self, snapshot: &AppSnapshot) -> (r: Vec<ActivityRow>)
        ensures
            exists|millis: u64| #[trigger] is_activity_page(r@, snapshot.audit@, millis),
    {
        self.render_activity_at(snapshot, clock::now_millis())
    }

    /// What is asked for above the window.
    pub fn render_modal(&self, modal: &Modal) -> (r: ModalPanel)
        ensures
            is_modal_panel(r, modal@, self@),
    {
        match modal {
            Modal::Secret { original_name } => {
                let inputs = vec![FormInput::SecretName, FormInput::SecretValue];
                assert(inputs@ =~= modal_inputs(modal@));
                ModalPanel {
                    title: if original_name.is_some() {
                        "Edit credential"
                    } else {
                        "New credential"
                    },
                    note: None,
                    inputs,
                    accounts: Vec::new(),
                    error: copied_text(&self.form_error),
                    submit: "Save credential",
                    danger: false,
                    width: 500,
                }
            },
            Modal::Password => {
                let inputs = vec![FormInput::NewPassword, FormInput::PasswordConfirmation];
                assert(inputs@ =~= modal_inputs(modal@));
                ModalPanel {
                    title: "Change master password",
                    note: None,
                    inputs,
                    accounts: Vec::new(),
                    error: copied_text(&self.form_error),
                    submit: "Update password",
                    danger: false,
                    width: 500,
                }
            },
            Modal::AwsConnection => {
                let inputs = vec![FormInput::AwsStartUrl, FormInput::AwsRegion];
                assert(inputs@ =~= modal_inputs(modal@));
                ModalPanel {
                    title: "Connect AWS IAM Identity Center",
                    note: Some(
                        "The portal connection and resulting login tokens stay in the encrypted vault.".to_owned(),
                    ),
                    inputs,
                    accounts: Vec::new(),
                    error: copied_text(&self.form_error),
                    submit: "Save and sign in",
                    danger: false,
                    width: 500,
                }
            },
            Modal::AwsAliases => {
                let inputs: Vec<FormInput> = Vec::new();
                assert(inputs@ =~= modal_inputs(modal@));
                ModalPanel {
                    title: "Assign AWS profile aliases",
                    note: None,
                    inputs,
                    accounts: account_cards(&self.aws_aliases),
                    error: copied_text(&self.form_error),
                    submit: "Save profile aliases",
                    danger: false,
                    width: 700,
                }
            },
            Modal::Delete(name) => {
                let inputs: Vec<FormInput> = Vec::new();
                assert(inputs@ =~= modal_inputs(modal@));
                let mut note = text::concat("Permanently delete “", name.as_str());
                note.append("” from the encrypted vault?");
                ModalPanel {
                    title: "Delete credential?",
                    note: Some(note),
                    inputs,
                    accounts: Vec::new(),
                    error: None,
                    submit: "Delete",
                    danger: true,
                    width: 500,
                }
            },
        }
    }

    /// The window at given moments, with no message whose time is over.
    pub fn render_at(&mut self, snapshot: &AppSnapshot, moments: Moments) -> (r: Screen)
        ensures
            final(self)@ == main_view::toast_expired(old(self)@, moments.window),
            is_screen(r, final(self)@, *snapshot, moments),
    {
        self.expire_toast(moments.window);
        if !snapshot.vault_exists || !snapshot.unlocked {
            return Screen::Auth(self.render_auth(!snapshot.vault_exists));
        }
        let content = match self.page {
            Page::Secrets => Content::Secrets(self.render_secrets(snapshot)),
            Page::Aws => Content::Aws(self.render_aws_at(snapshot, moments.seconds)),
            Page::Grants => Content::Grants(self.render_grants_at(snapshot, moments.millis)),
            Page::Activity => Content::Activity(
                self.render_activity_at(snapshot, moments.millis),
            ),
        };
        let modal = match &self.modal {
            Some(modal) => Some(self.render_modal(modal)),
            None => None,
        };
        Screen::Open(OpenScreen { header: self.render_header(snapshot), content, modal })
    }

    /// The window, with no message whose time is over.
    pub fn render(&mut self, snapshot: &AppSnapshot, window: u64) -> (r: Screen)
        ensures
            final(self)@ == main_view::toast_expired(old(self)@, window),
            exists|moments: Moments|
                moments.window == window && #[trigger] is_screen(
                    r,
                    final(self)@,
                    *snapshot,
                    moments,
                ),
    {
        self.render_at(
            snapshot,
            Moments { window, millis: clock::now_millis(), seconds: clock::now_seconds() },
        )
    }
}

} // verus!
