//! What is typed into the main window.

use vstd::prelude::*;
use vstd::string::*;

use crate::aws::{AwsAccessLevel, AwsDiscoveredAccount, AwsSettingsSummary, AwsTarget};
use crate::paths;
use crate::seqs;
use crate::text;
use crate::view::labels;

verus! {

/// The texts that the inputs of the main window hold.
#[derive(Debug)]
pub struct Inputs {
    pub auth_password: String,
    pub auth_confirmation: String,
    pub search: String,
    pub secret_name: String,
    pub secret_value: String,
    pub new_password: String,
    pub password_confirmation: String,
    pub aws_start_url: String,
    pub aws_region: String,
}

/// The texts that the inputs hold, as they are spoken of.
pub struct InputTexts {
    pub auth_password: Seq<char>,
    pub auth_confirmation: Seq<char>,
    pub search: Seq<char>,
    pub secret_name: Seq<char>,
    pub secret_value: Seq<char>,
    pub new_password: Seq<char>,
    pub password_confirmation: Seq<char>,
    pub aws_start_url: Seq<char>,
    pub aws_region: Seq<char>,
}

impl View for Inputs {
    type V = InputTexts;

    open spec fn view(&self) -> InputTexts {
        InputTexts {
            auth_password: self.auth_password@,
            auth_confirmation: self.auth_confirmation@,
            search: self.search@,
            secret_name: self.secret_name@,
            secret_value: self.secret_value@,
            new_password: self.new_password@,
            password_confirmation: self.password_confirmation@,
            aws_start_url: self.aws_start_url@,
            aws_region: self.aws_region@,
        }
    }
}

/// Inputs that hold nothing.
pub open spec fn no_texts() -> InputTexts {
    let nothing = Seq::<char>::empty();
    InputTexts {
        auth_password: nothing,
        auth_confirmation: nothing,
        search: nothing,
        secret_name: nothing,
        secret_value: nothing,
        new_password: nothing,
        password_confirmation: nothing,
        aws_start_url: nothing,
        aws_region: nothing,
    }
}

impl Inputs {
    pub fn new() -> (r: Self)
        ensures
            r@ == no_texts(),
    {
        let r = Inputs {
            auth_password: String::new(),
            auth_confirmation: String::new(),
            search: String::new(),
            secret_name: String::new(),
            secret_value: String::new(),
            new_password: String::new(),
            password_confirmation: String::new(),
            aws_start_url: String::new(),
            aws_region: String::new(),
        };
        assert(r@ =~= no_texts());
        r
    }
}

/// What is asked for above the main window.
#[derive(Debug)]
pub enum Modal {
    Secret { original_name: Option<String> },
    Password,
    AwsConnection,
    AwsAliases,
    Delete(String),
}

/// What is asked for, as it is spoken of.
pub enum ModalState {
    Secret { original_name: Option<Seq<char>> },
    Password,
    AwsConnection,
    AwsAliases,
    Delete(Seq<char>),
}

impl View for Modal {
    type V = ModalState;

    open spec fn view(&self) -> ModalState {
        match self {
            Modal::Secret { original_name } => ModalState::Secret {
                original_name: paths::given(*original_name),
            },
            Modal::Password => ModalState::Password,
            Modal::AwsConnection => ModalState::AwsConnection,
            Modal::AwsAliases => ModalState::AwsAliases,
            Modal::Delete(name) => ModalState::Delete(name@),
        }
    }
}

/// An account with the profile that it is to be known by.
#[derive(Debug)]
pub struct AliasForm {
    pub account_id: String,
    pub account_name: String,
    pub email_address: String,
    pub roles: Vec<String>,
    pub profile: String,
    pub read_only_role: String,
    pub admin_role: String,
    pub region: String,
}

/// An account with its profile, as it is spoken of.
pub struct AliasTexts {
    pub account_id: Seq<char>,
    pub account_name: Seq<char>,
    pub email_address: Seq<char>,
    pub roles: Seq<Seq<char>>,
    pub profile: Seq<char>,
    pub read_only_role: Seq<char>,
    pub admin_role: Seq<char>,
    pub region: Seq<char>,
}

impl View for AliasForm {
    type V = AliasTexts;

    open spec fn view(&self) -> AliasTexts {
        AliasTexts {
            account_id: self.account_id@,
            account_name: self.account_name@,
            email_address: self.email_address@,
            roles: text::views(self.roles@),
            profile: self.profile@,
            read_only_role: self.read_only_role@,
            admin_role: self.admin_role@,
            region: self.region@,
        }
    }
}

/// What the forms of accounts hold.
pub open spec fn alias_texts(forms: Seq<AliasForm>) -> Seq<AliasTexts> {
    forms.map_values(|form: AliasForm| form@)
}

/// The test for the targets of an account.
pub open spec fn of_account(account_id: Seq<char>) -> spec_fn(AwsTarget) -> bool {
    |target: AwsTarget| target.account_id@ == account_id
}

/// The target that an account has.
pub open spec fn target_of(targets: Seq<AwsTarget>, account_id: Seq<char>) -> Option<AwsTarget> {
    seqs::first_where(targets, of_account(account_id))
}

/// The profile that is proposed for an account: the one that it has, or else one
/// made of its name or its number. There is none where the number is too short
/// to make one of it.
pub open spec fn proposed_profile(
    account: AwsDiscoveredAccount,
    existing: Option<AwsTarget>,
) -> Option<Seq<char>> {
    match existing {
        Some(target) => Some(target.profile@),
        None => if labels::alias_of(account.account_name@).len() == 0 && labels::after_bytes(
            account.account_id@,
            8,
        ) is None {
            None
        } else {
            Some(labels::alias_for(account.account_name@, account.account_id@))
        },
    }
}

/// Whether one of the forms has a profile.
pub open spec fn is_used(forms: Seq<AliasTexts>, profile: Seq<char>) -> bool {
    exists|i: int| 0 <= i < forms.len() && (#[trigger] forms[i]).profile == profile
}

/// A proposed profile, with the end of the account's number behind it where
/// another account has the same one.
pub open spec fn unused_profile(
    forms: Seq<AliasTexts>,
    profile: Seq<char>,
    account_id: Seq<char>,
) -> Option<Seq<char>> {
    if is_used(forms, profile) {
        match labels::after_bytes(account_id, 8) {
            Some(end) => Some(profile + "-"@ + end),
            None => None,
        }
    } else {
        Some(profile)
    }
}

/// The form of an account after those of the accounts before it.
pub open spec fn form_for(
    forms: Seq<AliasTexts>,
    account: AwsDiscoveredAccount,
    existing: Option<AwsTarget>,
) -> Option<AliasTexts> {
    match proposed_profile(account, existing) {
        None => None,
        Some(proposed) => match unused_profile(forms, proposed, account.account_id@) {
            None => None,
            Some(profile) => Some(
                AliasTexts {
                    account_id: account.account_id@,
                    account_name: account.account_name@,
                    email_address: account.email_address@,
                    roles: text::views(account.roles@),
                    profile,
                    read_only_role: match existing {
                        Some(target) => target.read_only_role@,
                        None => labels::role_for(account.roles@, AwsAccessLevel::ReadOnly),
                    },
                    admin_role: match existing {
                        Some(target) => target.admin_role@,
                        None => labels::role_for(account.roles@, AwsAccessLevel::Admin),
                    },
                    region: match existing {
                        Some(target) => target.region@,
                        None => Seq::empty(),
                    },
                },
            ),
        },
    }
}

/// The forms of accounts, in their order. There are none where the number of an
/// account is too short to make a profile of it.
pub open spec fn forms_for(
    accounts: Seq<AwsDiscoveredAccount>,
    targets: Seq<AwsTarget>,
) -> Option<Seq<AliasTexts>>
    decreases accounts.len(),
{
    if accounts.len() == 0 {
        Some(Seq::empty())
    } else {
        match forms_for(accounts.drop_last(), targets) {
            None => None,
            Some(forms) => match form_for(
                forms,
                accounts.last(),
                target_of(targets, accounts.last().account_id@),
            ) {
                None => None,
                Some(form) => Some(forms.push(form)),
            },
        }
    }
}

/// Where some accounts can be given forms, so can the first of them.
proof fn forms_for_fewer(accounts: Seq<AwsDiscoveredAccount>, targets: Seq<AwsTarget>, n: int)
    requires
        0 <= n <= accounts.len(),
        forms_for(accounts, targets) is Some,
    ensures
        forms_for(accounts.take(n), targets) is Some,
    decreases accounts.len(),
{
    if n < accounts.len() {
        assert(accounts.drop_last().take(n) =~= accounts.take(n));
        forms_for_fewer(accounts.drop_last(), targets, n);
    } else {
        assert(accounts.take(n) =~= accounts);
    }
}

fn existing_target(targets: &Vec<AwsTarget>, account_id: &str) -> (r: Option<AwsTarget>)
    ensures
        r == target_of(targets@, account_id@),
{
    let test = |target: &AwsTarget| -> (b: bool)
        ensures
            b == (target.account_id@ == account_id@),
        { text::str_eq(target.account_id.as_str(), account_id) };
    match seqs::position(targets, test, Ghost(of_account(account_id@))) {
        Some(i) => Some(targets[i].clone()),
        None => None,
    }
}

fn profile_used(forms: &Vec<AliasForm>, profile: &str) -> (r: bool)
    ensures
        r == is_used(alias_texts(forms@), profile@),
{
    let ghost shown = alias_texts(forms@);
    for i in 0..forms.len()
        invariant
            shown == alias_texts(forms@),
            forall|j: int| 0 <= j < i ==> (#[trigger] shown[j]).profile != profile@,
    {
        assert(shown[i as int].profile == forms@[i as int].profile@);
        if text::str_eq(forms[i].profile.as_str(), profile) {
            return true;
        }
    }
    false
}

fn copied_texts(texts: &Vec<String>) -> (r: Vec<String>)
    ensures
        text::views(r@) == text::views(texts@),
{
    let mut r: Vec<String> = Vec::new();
    for i in 0..texts.len()
        invariant
            r@.len() == i,
            forall|j: int| 0 <= j < i ==> (#[trigger] r@[j])@ == texts@[j]@,
    {
        r.push(texts[i].clone());
    }
    assert(text::views(r@) =~= text::views(texts@));
    r
}

fn make_form(
    forms: &Vec<AliasForm>,
    account: &AwsDiscoveredAccount,
    existing: &Option<AwsTarget>,
) -> (r: AliasForm)
    requires
        form_for(alias_texts(forms@), *account, *existing) is Some,
    ensures
        form_for(alias_texts(forms@), *account, *existing) == Some(r@),
{
    let proposed = match existing {
        Some(target) => target.profile.clone(),
        None => labels::suggested_alias(
            account.account_name.as_str(),
            account.account_id.as_str(),
        ),
    };
    let profile = if profile_used(forms, proposed.as_str()) {
        match labels::text_after_bytes(account.account_id.as_str(), 8) {
            Some(end) => {
                let mut longer = proposed;
                longer.append("-");
                longer.append(end.as_str());
                longer
            },
            None => proposed,
        }
    } else {
        proposed
    };
    let read_only_role = match existing {
        Some(target) => target.read_only_role.clone(),
        None => labels::suggested_role(&account.roles, AwsAccessLevel::ReadOnly),
    };
    let admin_role = match existing {
        Some(target) => target.admin_role.clone(),
        None => labels::suggested_role(&account.roles, AwsAccessLevel::Admin),
    };
    let region = match existing {
        Some(target) => target.region.clone(),
        None => String::new(),
    };
    AliasForm {
        account_id: account.account_id.clone(),
        account_name: account.account_name.clone(),
        email_address: account.email_address.clone(),
        roles: copied_texts(&account.roles),
        profile,
        read_only_role,
        admin_role,
        region,
    }
}

/// The forms of the accounts that were discovered. Their numbers are long enough
/// to make profiles of.
pub fn alias_forms(summary: &AwsSettingsSummary) -> (r: Vec<AliasForm>)
    requires
        forms_for(summary.discovered_accounts@, summary.configuration.targets@) is Some,
    ensures
        forms_for(summary.discovered_accounts@, summary.configuration.targets@) == Some(
            alias_texts(r@),
        ),
{
    let ghost accounts = summary.discovered_accounts@;
    let ghost targets = summary.configuration.targets@;
    let mut forms: Vec<AliasForm> = Vec::new();
    assert(alias_texts(forms@) =~= Seq::<AliasTexts>::empty());
    for i in 0..summary.discovered_accounts.len()
        invariant
            accounts == summary.discovered_accounts@,
            targets == summary.configuration.targets@,
            forms_for(accounts, targets) is Some,
            forms_for(accounts.take(i as int), targets) == Some(alias_texts(forms@)),
    {
        let account = &summary.discovered_accounts[i];
        proof {
            forms_for_fewer(accounts, targets, i + 1);
            assert(accounts.take(i + 1).drop_last() =~= accounts.take(i as int));
        }
        let existing = existing_target(
            &summary.configuration.targets,
            account.account_id.as_str(),
        );
        let form = make_form(&forms, account, &existing);
        let ghost before = alias_texts(forms@);
        forms.push(form);
        assert(alias_texts(forms@) =~= before.push(form@));
    }
    assert(accounts.take(accounts.len() as int) =~= accounts);
    forms
}

/// Whether the accounts that were discovered can be given forms.
pub fn can_assign_aliases(summary: &AwsSettingsSummary) -> (r: bool)
    ensures
        r ==> forms_for(summary.discovered_accounts@, summary.configuration.targets@) is Some,
        r == forall|i: int|
            0 <= i < summary.discovered_accounts@.len() ==> labels::after_bytes(
                (#[trigger] summary.discovered_accounts@[i]).account_id@,
                8,
            ) is Some,
{
    for i in 0..summary.discovered_accounts.len()
        invariant
            forall|j: int|
                0 <= j < i ==> labels::after_bytes(
                    (#[trigger] summary.discovered_accounts@[j]).account_id@,
                    8,
                ) is Some,
    {
        let account = &summary.discovered_accounts[i];
        if labels::text_after_bytes(account.account_id.as_str(), 8).is_none() {
            assert(labels::after_bytes(summary.discovered_accounts@[i as int].account_id@, 8)
                is None);
            return false;
        }
    }
    proof {
        long_numbers_give_forms(
            summary.discovered_accounts@,
            summary.configuration.targets@,
        );
    }
    true
}

/// Accounts whose numbers have at least eight bytes, and a character ending
/// there, can be given forms.
pub proof fn long_numbers_give_forms(
    accounts: Seq<AwsDiscoveredAccount>,
    targets: Seq<AwsTarget>,
)
    requires
        forall|i: int|
            0 <= i < accounts.len() ==> labels::after_bytes(
                (#[trigger] accounts[i]).account_id@,
                8,
            ) is Some,
    ensures
        forms_for(accounts, targets) is Some,
    decreases accounts.len(),
{
    if accounts.len() > 0 {
        let rest = accounts.drop_last();
        assert forall|i: int| 0 <= i < rest.len() implies labels::after_bytes(
            (#[trigger] rest[i]).account_id@,
            8,
        ) is Some by {
            assert(rest[i] == accounts[i]);
        }
        long_numbers_give_forms(rest, targets);
        assert(labels::after_bytes(accounts[accounts.len() - 1].account_id@, 8) is Some);
    }
}

/// A target as it is spoken of.
pub struct TargetTexts {
    pub profile: Seq<char>,
    pub account_id: Seq<char>,
    pub read_only_role: Seq<char>,
    pub admin_role: Seq<char>,
    pub region: Seq<char>,
}

/// What a target says.
pub open spec fn target_texts(target: AwsTarget) -> TargetTexts {
    TargetTexts {
        profile: target.profile@,
        account_id: target.account_id@,
        read_only_role: target.read_only_role@,
        admin_role: target.admin_role@,
        region: target.region@,
    }
}

/// What targets say.
pub open spec fn targets_texts(targets: Seq<AwsTarget>) -> Seq<TargetTexts> {
    targets.map_values(|target: AwsTarget| target_texts(target))
}

/// The targets that the forms ask for: one for each form with a profile, or a
/// complaint about the first whose roles the account does not have.
pub open spec fn asked_targets(forms: Seq<AliasTexts>) -> Result<Seq<TargetTexts>, Seq<char>>
    decreases forms.len(),
{
    if forms.len() == 0 {
        Ok(Seq::empty())
    } else {
        match asked_targets(forms.drop_last()) {
            Err(error) => Err(error),
            Ok(targets) => {
                let form = forms.last();
                let profile = text::trimmed(form.profile);
                if profile.len() == 0 {
                    Ok(targets)
                } else if !form.roles.contains(form.read_only_role) {
                    Err("Select a read-only role for '"@ + profile + "'"@)
                } else if !form.roles.contains(form.admin_role) {
                    Err("Select an admin role for '"@ + profile + "'"@)
                } else {
                    Ok(
                        targets.push(
                            TargetTexts {
                                profile,
                                account_id: form.account_id,
                                read_only_role: form.read_only_role,
                                admin_role: form.admin_role,
                                region: form.region,
                            },
                        ),
                    )
                }
            },
        }
    }
}

/// The targets to keep: at least one is needed.
pub open spec fn checked_targets(forms: Seq<AliasTexts>) -> Result<Seq<TargetTexts>, Seq<char>> {
    match asked_targets(forms) {
        Err(error) => Err(error),
        Ok(targets) => if targets.len() == 0 {
            Err("Assign an alias to at least one AWS account"@)
        } else {
            Ok(targets)
        },
    }
}

/// A complaint about the first forms is a complaint about all of them.
proof fn first_complaint(forms: Seq<AliasTexts>, n: int)
    requires
        0 <= n <= forms.len(),
        asked_targets(forms.take(n)) is Err,
    ensures
        asked_targets(forms) == asked_targets(forms.take(n)),
    decreases forms.len(),
{
    if n < forms.len() {
        assert(forms.drop_last().take(n) =~= forms.take(n));
        first_complaint(forms.drop_last(), n);
    } else {
        assert(forms.take(n) =~= forms);
    }
}

fn role_complaint(what: &str, profile: &str) -> (r: String)
    ensures
        r@ == what@ + profile@ + "'"@,
{
    let mut r = what.to_owned();
    r.append(profile);
    r.append("'");
    r
}

/// The targets that the forms ask for, at least one.
pub fn alias_targets(forms: &Vec<AliasForm>) -> (r: Result<Vec<AwsTarget>, String>)
    ensures
        match r {
            Ok(targets) => checked_targets(alias_texts(forms@)) == Ok::<Seq<TargetTexts>, Seq<char>>(
                targets_texts(targets@),
            ),
            Err(error) => checked_targets(alias_texts(forms@)) == Err::<Seq<TargetTexts>, Seq<char>>(
                error@,
            ),
        },
{
    let ghost shown = alias_texts(forms@);
    let mut targets: Vec<AwsTarget> = Vec::new();
    assert(targets_texts(targets@) =~= Seq::<TargetTexts>::empty());
    for i in 0..forms.len()
        invariant
            shown == alias_texts(forms@),
            asked_targets(shown.take(i as int)) == Ok::<Seq<TargetTexts>, Seq<char>>(
                targets_texts(targets@),
            ),
    {
        let form = &forms[i];
        proof {
            assert(shown[i as int] == forms@[i as int]@);
            assert(shown.take(i + 1).drop_last() =~= shown.take(i as int));
        }
        let profile = text::trim(form.profile.as_str());
        if !profile.as_str().is_empty() {
            if !text::contains_text(&form.roles, form.read_only_role.as_str()) {
                let error = role_complaint("Select a read-only role for '", profile.as_str());
                proof {
                    first_complaint(shown, i + 1);
                }
                return Err(error);
            }
            if !text::contains_text(&form.roles, form.admin_role.as_str()) {
                let error = role_complaint("Select an admin role for '", profile.as_str());
                proof {
                    first_complaint(shown, i + 1);
                }
                return Err(error);
            }
            let target = AwsTarget {
                profile,
                account_id: form.account_id.clone(),
                read_only_role: form.read_only_role.clone(),
                admin_role: form.admin_role.clone(),
                region: form.region.clone(),
            };
            let ghost before = targets_texts(targets@);
            targets.push(target);
            assert(targets_texts(targets@) =~= before.push(target_texts(target)));
        }
    }
    assert(shown.take(shown.len() as int) =~= shown);
    if targets.len() == 0 {
        return Err("Assign an alias to at least one AWS account".to_owned());
    }
    Ok(targets)
}

} // verus!
