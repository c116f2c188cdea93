//! Which AWS settings may be kept, when a session counts as one, and what a
//! change of the settings leaves, stated over their fields.

use vstd::prelude::*;

use crate::aws;
use crate::aws::{
    AwsConfiguration, AwsDiscoveredAccount, AwsOidcRegistration, AwsSettings, AwsSettingsSummary,
    AwsSsoToken, AwsTarget,
};
use crate::seqs;
use crate::text;
use crate::text_laws;

verus! {

/// Whether a text has no control character.
pub open spec fn is_plain(s: Seq<char>) -> bool {
    forall|i: int|
        0 <= i < s.len() ==> !((#[trigger] s[i]) as u32 <= 31 || 127 <= s[i] as u32 <= 159)
}

/// Whether a text may name a role or a region.
pub open spec fn may_name(s: Seq<char>) -> bool {
    &&& s.len() > 0
    &&& !text::is_whitespace(s[0])
    &&& !text::is_whitespace(s.last())
    &&& vstd::utf8::encode_utf8(s).len() <= 128
    &&& is_plain(s)
}

/// Whether a text is twelve decimal digits.
pub open spec fn twelve_digits(s: Seq<char>) -> bool {
    &&& s.len() == 12
    &&& forall|i: int| 0 <= i < 12 ==> 48 <= (#[trigger] s[i]) as u32 <= 57
}

/// Whether a character is a letter or digit of ASCII, a hyphen or an underscore.
pub open spec fn alias_char(c: char) -> bool {
    let n = c as u32;
    48 <= n <= 57 || 65 <= n <= 90 || 97 <= n <= 122 || c == '-' || c == '_'
}

/// Whether a text is one to 128 such characters.
pub open spec fn may_be_alias(s: Seq<char>) -> bool {
    &&& 1 <= s.len() <= 128
    &&& forall|i: int| 0 <= i < s.len() ==> alias_char(#[trigger] s[i])
}

/// Whether a role is in a list of roles.
pub open spec fn listed(roles: Seq<String>, role: Seq<char>) -> bool {
    exists|k: int| 0 <= k < roles.len() && (#[trigger] roles[k])@ == role
}

/// Whether a profile, on its own, may be kept.
pub open spec fn may_be_target(target: AwsTarget) -> bool {
    &&& may_be_alias(target.profile@)
    &&& twelve_digits(target.account_id@)
    &&& may_name(target.read_only_role@)
    &&& may_name(target.admin_role@)
    &&& target.region@.len() == 0 || may_name(target.region@)
}

/// Whether an account, on its own, may be kept.
pub open spec fn may_be_account(account: AwsDiscoveredAccount) -> bool {
    &&& twelve_digits(account.account_id@)
    &&& is_plain(account.account_name@)
    &&& is_plain(account.email_address@)
    &&& forall|k: int| 0 <= k < account.roles@.len() ==> may_name((#[trigger] account.roles@[k])@)
}

/// Whether one of the accounts is that of a profile and lists both its roles.
pub open spec fn serves(account: AwsDiscoveredAccount, target: AwsTarget) -> bool {
    &&& account.account_id@ == target.account_id@
    &&& listed(account.roles@, target.read_only_role@)
    &&& listed(account.roles@, target.admin_role@)
}

proof fn plain_texts(s: Seq<char>)
    ensures
        is_plain(s) <==> !text::has_control(s),
{
    text_laws::control_characters_are_found(s);
}

proof fn names(s: Seq<char>)
    ensures
        may_name(s) <==> aws::is_identifier(s),
{
    plain_texts(s);
    text_laws::trimming_drops_white_space_alone(s);
    if text::trimmed(s) == s && s.len() > 0 {
        let (a, b) = choose|a: int, b: int|
            {
                &&& 0 <= a <= b <= s.len()
                &&& text::trimmed(s) == #[trigger] s.subrange(a, b)
                &&& forall|i: int| 0 <= i < a ==> text::is_whitespace(#[trigger] s[i])
                &&& forall|i: int| b <= i < s.len() ==> text::is_whitespace(#[trigger] s[i])
                &&& a < b ==> !text::is_whitespace(s[a]) && !text::is_whitespace(s[b - 1])
            };
        assert(s.subrange(a, b).len() == b - a);
        assert(a == 0 && b == s.len());
    }
}

proof fn numbers(s: Seq<char>)
    ensures
        twelve_digits(s) <==> aws::is_account_id(s),
{
    if s.len() == 12 {
        assert forall|i: int| 0 <= i < 12 implies text::is_ascii_digit(#[trigger] s[i]) == (48
            <= s[i] as u32 <= 57) by {
            text_laws::ascii_letters_and_digits(s[i]);
        }
    }
}

proof fn aliases(s: Seq<char>)
    ensures
        may_be_alias(s) <==> aws::is_profile(s),
{
    assert forall|i: int| 0 <= i < s.len() implies alias_char(#[trigger] s[i])
        == aws::is_profile_char(s[i]) by {
        text_laws::ascii_letters_and_digits(s[i]);
    }
}

proof fn lists(roles: Seq<String>, role: Seq<char>)
    ensures
        listed(roles, role) <==> text::views(roles).contains(role),
{
    let shown = text::views(roles);
    if listed(roles, role) {
        let k = choose|k: int| 0 <= k < roles.len() && (#[trigger] roles[k])@ == role;
        assert(shown[k] == role);
    }
    if shown.contains(role) {
        let k = shown.index_of(role);
        assert(roles[k]@ == role);
    }
}

proof fn roles_may_name(roles: Seq<String>)
    ensures
        aws::roles_error(roles) is None <==> forall|k: int|
            0 <= k < roles.len() ==> may_name((#[trigger] roles[k])@),
    decreases roles.len(),
{
    if roles.len() > 0 {
        let rest = roles.drop_last();
        roles_may_name(rest);
        names(roles.last()@);
        if aws::roles_error(roles) is None {
            assert forall|k: int| 0 <= k < roles.len() implies may_name((#[trigger] roles[k])@) by {
                if k < rest.len() {
                    assert(rest[k] == roles[k]);
                }
            }
        }
        if forall|k: int| 0 <= k < roles.len() ==> may_name((#[trigger] roles[k])@) {
            assert forall|k: int| 0 <= k < rest.len() implies may_name((#[trigger] rest[k])@) by {
                assert(rest[k] == roles[k]);
            }
            assert(may_name(roles[roles.len() - 1]@));
        }
    }
}

/// Whether profiles may be kept together: each on its own, and no alias twice.
pub open spec fn may_be_targets(targets: Seq<AwsTarget>) -> bool {
    &&& forall|i: int| 0 <= i < targets.len() ==> may_be_target(#[trigger] targets[i])
    &&& forall|i: int, j: int|
        0 <= i < j < targets.len() ==> (#[trigger] targets[i]).profile@ != (
        #[trigger] targets[j]).profile@
}

/// Whether accounts may be kept together: each on its own, and no number twice.
pub open spec fn may_be_accounts(accounts: Seq<AwsDiscoveredAccount>) -> bool {
    &&& forall|i: int| 0 <= i < accounts.len() ==> may_be_account(#[trigger] accounts[i])
    &&& forall|i: int, j: int|
        0 <= i < j < accounts.len() ==> (#[trigger] accounts[i]).account_id@ != (
        #[trigger] accounts[j]).account_id@
}

/// Whether every profile is served by one of the accounts.
pub open spec fn are_served(targets: Seq<AwsTarget>, accounts: Seq<AwsDiscoveredAccount>) -> bool {
    forall|i: int|
        0 <= i < targets.len() ==> exists|k: int|
            0 <= k < accounts.len() && serves(#[trigger] accounts[k], #[trigger] targets[i])
}

proof fn targets_may_be_kept(targets: Seq<AwsTarget>)
    ensures
        aws::targets_error(targets) is None <==> may_be_targets(targets),
    decreases targets.len(),
{
    if targets.len() > 0 {
        let rest = targets.drop_last();
        let last = targets.last();
        targets_may_be_kept(rest);
        aliases(last.profile@);
        numbers(last.account_id@);
        names(last.read_only_role@);
        names(last.admin_role@);
        names(last.region@);
        assert(forall|i: int| 0 <= i < rest.len() ==> rest[i] == targets[i]);
        if aws::targets_error(targets) is None {
            assert forall|i: int| 0 <= i < targets.len() implies may_be_target(
                #[trigger] targets[i],
            ) by {
                if i < rest.len() {
                    assert(may_be_target(rest[i]));
                }
            }
            assert forall|i: int, j: int| 0 <= i < j < targets.len() implies (
            #[trigger] targets[i]).profile@ != (#[trigger] targets[j]).profile@ by {
                assert(rest[i] == targets[i]);
                if j < rest.len() {
                    assert(rest[j] == targets[j]);
                }
            }
        }
        if may_be_targets(targets) {
            assert forall|i: int| 0 <= i < rest.len() implies may_be_target(
                #[trigger] rest[i],
            ) by {
                assert(may_be_target(targets[i]));
            }
            assert forall|i: int, j: int| 0 <= i < j < rest.len() implies (
            #[trigger] rest[i]).profile@ != (#[trigger] rest[j]).profile@ by {
                assert(targets[i].profile@ != targets[j].profile@);
            }
            assert(may_be_target(targets[targets.len() - 1]));
            if aws::has_profile(rest, last.profile@) {
                let i = choose|i: int|
                    0 <= i < rest.len() && (#[trigger] rest[i]).profile@ == last.profile@;
                assert(targets[i].profile@ != targets[targets.len() - 1].profile@);
            }
        }
    }
}

proof fn accounts_may_be_kept(accounts: Seq<AwsDiscoveredAccount>)
    ensures
        aws::accounts_error(accounts) is None <==> may_be_accounts(accounts),
    decreases accounts.len(),
{
    if accounts.len() > 0 {
        let rest = accounts.drop_last();
        let last = accounts.last();
        accounts_may_be_kept(rest);
        numbers(last.account_id@);
        plain_texts(last.account_name@);
        plain_texts(last.email_address@);
        roles_may_name(last.roles@);
        assert(forall|i: int| 0 <= i < rest.len() ==> rest[i] == accounts[i]);
        if aws::accounts_error(accounts) is None {
            assert forall|i: int| 0 <= i < accounts.len() implies may_be_account(
                #[trigger] accounts[i],
            ) by {
                if i < rest.len() {
                    assert(may_be_account(rest[i]));
                }
            }
            assert forall|i: int, j: int| 0 <= i < j < accounts.len() implies (
            #[trigger] accounts[i]).account_id@ != (#[trigger] accounts[j]).account_id@ by {
                assert(rest[i] == accounts[i]);
                if j < rest.len() {
                    assert(rest[j] == accounts[j]);
                }
            }
        }
        if may_be_accounts(accounts) {
            assert forall|i: int| 0 <= i < rest.len() implies may_be_account(
                #[trigger] rest[i],
            ) by {
                assert(may_be_account(accounts[i]));
            }
            assert forall|i: int, j: int| 0 <= i < j < rest.len() implies (
            #[trigger] rest[i]).account_id@ != (#[trigger] rest[j]).account_id@ by {
                assert(accounts[i].account_id@ != accounts[j].account_id@);
            }
            assert(may_be_account(accounts[accounts.len() - 1]));
            if aws::has_account(rest, last.account_id@) {
                let i = choose|i: int|
                    0 <= i < rest.len() && (#[trigger] rest[i]).account_id@ == last.account_id@;
                assert(accounts[i].account_id@ != accounts[accounts.len() - 1].account_id@);
            }
        }
    }
}

proof fn one_is_served(target: AwsTarget, accounts: Seq<AwsDiscoveredAccount>)
    requires
        may_be_accounts(accounts),
    ensures
        aws::assignment_error(target, accounts) is None <==> exists|k: int|
            0 <= k < accounts.len() && #[trigger] serves(accounts[k], target),
{
    let p = aws::is_numbered(target.account_id@);
    seqs::first_index_meaning(accounts, p);
    match seqs::first_index(accounts, p) {
        Some(n) => {
            lists(accounts[n].roles@, target.read_only_role@);
            lists(accounts[n].roles@, target.admin_role@);
            if exists|k: int| 0 <= k < accounts.len() && #[trigger] serves(accounts[k], target) {
                let k = choose|k: int|
                    0 <= k < accounts.len() && #[trigger] serves(accounts[k], target);
                assert(accounts[k].account_id@ == accounts[n].account_id@);
                assert(k == n);
            }
            if aws::assignment_error(target, accounts) is None {
                assert(serves(accounts[n], target));
            }
        },
        None => {
            assert forall|k: int| 0 <= k < accounts.len() implies !#[trigger] serves(
                accounts[k],
                target,
            ) by {
                assert(!p(accounts[k]));
            }
        },
    }
}

proof fn all_are_served(targets: Seq<AwsTarget>, accounts: Seq<AwsDiscoveredAccount>)
    requires
        may_be_accounts(accounts),
    ensures
        aws::assignments_error(targets, accounts) is None <==> are_served(targets, accounts),
    decreases targets.len(),
{
    if targets.len() > 0 {
        let rest = targets.drop_last();
        all_are_served(rest, accounts);
        one_is_served(targets.last(), accounts);
        assert(forall|i: int| 0 <= i < rest.len() ==> rest[i] == targets[i]);
        if aws::assignments_error(targets, accounts) is None {
            assert forall|i: int| 0 <= i < targets.len() implies exists|k: int|
                0 <= k < accounts.len() && serves(#[trigger] accounts[k], #[trigger] targets[i]) by {
                if i < rest.len() {
                    assert(exists|k: int|
                        0 <= k < accounts.len() && serves(
                            #[trigger] accounts[k],
                            #[trigger] rest[i],
                        ));
                } else {
                    let k = choose|k: int|
                        0 <= k < accounts.len() && #[trigger] serves(accounts[k], targets.last());
                    assert(serves(accounts[k], targets[i]));
                }
            }
        }
        if are_served(targets, accounts) {
            assert forall|i: int| 0 <= i < rest.len() implies exists|k: int|
                0 <= k < accounts.len() && serves(#[trigger] accounts[k], #[trigger] rest[i]) by {
                assert(exists|k: int|
                    0 <= k < accounts.len() && serves(
                        #[trigger] accounts[k],
                        #[trigger] targets[i],
                    ));
            }
            let last = targets.len() - 1;
            let k = choose|k: int|
                0 <= k < accounts.len() && serves(#[trigger] accounts[k], targets[last]);
            assert(serves(accounts[k], targets[last]));
        }
    }
}

/// Settings may be kept exactly where the portal is an HTTPS address, the region
/// a name, every profile has an alias of its own, an account of twelve digits
/// and two roles, every known account is numbered once, and, as soon as any
/// account is known, each profile's account is known and lists both its roles.
pub proof fn settings_that_may_be_kept(settings: AwsSettings)
    ensures
        aws::settings_error(settings) is None <==> {
            &&& "https://"@.is_prefix_of(settings.start_url@)
            &&& is_plain(settings.start_url@)
            &&& may_name(settings.sso_region@)
            &&& may_be_targets(settings.targets@)
            &&& may_be_accounts(settings.discovered_accounts@)
            &&& settings.discovered_accounts@.len() > 0 ==> are_served(
                settings.targets@,
                settings.discovered_accounts@,
            )
        },
        aws::valid_settings(settings) <==> aws::settings_error(settings) is None,
{
    plain_texts(settings.start_url@);
    names(settings.sso_region@);
    targets_may_be_kept(settings.targets@);
    accounts_may_be_kept(settings.discovered_accounts@);
    if may_be_accounts(settings.discovered_accounts@) {
        all_are_served(settings.targets@, settings.discovered_accounts@);
    }
}

/// A token counts as expired from a minute before its expiry on, and a
/// registration works until a minute before its own.
pub proof fn expiry_is_a_minute_early(
    token: AwsSsoToken,
    registration: AwsOidcRegistration,
    now: u64,
)
    requires
        now + 60 <= u64::MAX,
    ensures
        aws::expired(token, now) <==> token.access_token_expires_at <= now + 60,
        aws::registration_usable(Some(registration), now)
            <==> registration.client_secret_expires_at > now + 60,
        !aws::registration_usable(None, now),
{
}

/// There is a session exactly where there is a token that works for more than a
/// minute or that can be renewed.
pub proof fn a_session_works_or_can_be_renewed(settings: AwsSettings, now: u64)
    requires
        now + 60 <= u64::MAX,
    ensures
        aws::has_session(settings, now) <==> settings.token is Some && (
        settings.token->Some_0.access_token_expires_at > now + 60
            || settings.token->Some_0.refresh_token@.len() > 0),
{
}

/// A profile selects the first target with that alias.
pub proof fn profiles_select_their_targets(targets: Seq<AwsTarget>, profile: Seq<char>)
    ensures
        match aws::target_index(targets, profile) {
            Some(i) => 0 <= i < targets.len() && targets[i].profile@ == profile && forall|j: int|
                0 <= j < i ==> (#[trigger] targets[j]).profile@ != profile,
            None => forall|j: int| 0 <= j < targets.len() ==> (#[trigger] targets[j]).profile@
                != profile,
        },
{
    let p = aws::is_named(profile);
    seqs::first_index_meaning(targets, p);
    assert forall|j: int| 0 <= j < targets.len() implies p(#[trigger] targets[j]) == (
    targets[j].profile@ == profile) by {}
}

/// A profile is assigned exactly where one account has its number and lists both
/// its roles.
pub proof fn profiles_are_assigned(target: AwsTarget, accounts: Seq<AwsDiscoveredAccount>)
    ensures
        aws::is_assigned(target, accounts) <==> exists|k: int|
            0 <= k < accounts.len() && #[trigger] serves(accounts[k], target),
{
    assert forall|k: int| 0 <= k < accounts.len() implies #[trigger] serves(accounts[k], target)
        == (accounts[k].account_id@ == target.account_id@ && aws::offers(
        accounts[k],
        target.read_only_role@,
    ) && aws::offers(accounts[k], target.admin_role@)) by {
        lists(accounts[k].roles@, target.read_only_role@);
        lists(accounts[k].roles@, target.admin_role@);
    }
    if aws::is_assigned(target, accounts) {
        let i = choose|i: int|
            0 <= i < accounts.len() && (#[trigger] accounts[i]).account_id@ == target.account_id@
                && aws::offers(accounts[i], target.read_only_role@) && aws::offers(
                accounts[i],
                target.admin_role@,
            );
        assert(serves(accounts[i], target));
    }
    if exists|k: int| 0 <= k < accounts.len() && #[trigger] serves(accounts[k], target) {
        let k = choose|k: int| 0 <= k < accounts.len() && #[trigger] serves(accounts[k], target);
        assert(accounts[k].account_id@ == target.account_id@);
    }
}

/// Putting a configuration in place changes the portal, the region and the
/// profiles to those of the configuration, and neither the session nor what it
/// found. It is for another connection exactly where the portal or the region
/// differs.
pub proof fn configurations_are_put_in_place(
    settings: AwsSettings,
    configuration: AwsConfiguration,
)
    ensures
        ({
            let after = aws::reconfigured(settings, configuration);
            &&& after.start_url == configuration.start_url
            &&& after.sso_region == configuration.sso_region
            &&& after.targets == configuration.targets
            &&& after.discovered_accounts == settings.discovered_accounts
            &&& after.discovery_complete == settings.discovery_complete
            &&& after.registration == settings.registration
            &&& after.token == settings.token
        }),
        aws::changes_connection(settings, configuration) <==> !(settings.start_url@
            == configuration.start_url@ && settings.sso_region@ == configuration.sso_region@),
{
}

/// Where nothing is left of a session there is no registration, no token and no
/// account.
pub proof fn fresh_settings_hold_no_session(settings: AwsSettings)
    requires
        aws::is_fresh(settings),
    ensures
        settings.registration is None,
        settings.token is None,
        settings.discovered_accounts@.len() == 0,
        !settings.discovery_complete,
{
}

/// A summary shows the portal, the region, the profiles and the accounts with
/// their roles as they are kept, and of the session whether there is one and
/// when its token expires.
pub proof fn summaries_show_what_is_kept(
    summary: AwsSettingsSummary,
    settings: AwsSettings,
    now: u64,
)
    requires
        aws::summarizes(summary, settings, now),
        now + 60 <= u64::MAX,
    ensures
        summary.configuration.start_url == settings.start_url,
        summary.configuration.sso_region == settings.sso_region,
        summary.configuration.targets@ == settings.targets@,
        summary.discovered_accounts@.len() == settings.discovered_accounts@.len(),
        forall|i: int|
            0 <= i < settings.discovered_accounts@.len() ==> {
                let shown = #[trigger] summary.discovered_accounts@[i];
                let kept = settings.discovered_accounts@[i];
                &&& shown.account_id == kept.account_id
                &&& shown.account_name == kept.account_name
                &&& shown.email_address == kept.email_address
                &&& shown.roles@ == kept.roles@
            },
        summary.discovery_complete == settings.discovery_complete,
        summary.logged_in <==> settings.token is Some && (
        settings.token->Some_0.access_token_expires_at > now + 60
            || settings.token->Some_0.refresh_token@.len() > 0),
        settings.token is None ==> summary.access_token_expires_at is None,
        settings.token matches Some(token) ==> summary.access_token_expires_at == Some(
            token.access_token_expires_at,
        ),
{
    assert forall|i: int| 0 <= i < settings.discovered_accounts@.len() implies {
        let shown = #[trigger] summary.discovered_accounts@[i];
        let kept = settings.discovered_accounts@[i];
        &&& shown.account_id == kept.account_id
        &&& shown.account_name == kept.account_name
        &&& shown.email_address == kept.email_address
        &&& shown.roles@ == kept.roles@
    } by {
        assert(aws::same_account(summary.discovered_accounts@[i], settings.discovered_accounts@[i]));
    }
}

/// Settings that agree have the same portal, region, profiles, accounts,
/// registration and tokens.
pub proof fn copies_of_settings_agree(left: AwsSettings, right: AwsSettings)
    requires
        aws::same_settings(left, right),
    ensures
        left.start_url == right.start_url,
        left.sso_region == right.sso_region,
        left.targets@ == right.targets@,
        left.discovery_complete == right.discovery_complete,
        left.registration == right.registration,
        left.token == right.token,
        left.discovered_accounts@.len() == right.discovered_accounts@.len(),
        forall|i: int|
            0 <= i < left.discovered_accounts@.len() ==> {
                let one = #[trigger] left.discovered_accounts@[i];
                let other = right.discovered_accounts@[i];
                &&& one.account_id == other.account_id
                &&& one.account_name == other.account_name
                &&& one.email_address == other.email_address
                &&& one.roles@ == other.roles@
            },
{
    assert forall|i: int| 0 <= i < left.discovered_accounts@.len() implies {
        let one = #[trigger] left.discovered_accounts@[i];
        let other = right.discovered_accounts@[i];
        &&& one.account_id == other.account_id
        &&& one.account_name == other.account_name
        &&& one.email_address == other.email_address
        &&& one.roles@ == other.roles@
    } by {
        assert(aws::same_account(left.discovered_accounts@[i], right.discovered_accounts@[i]));
    }
}

/// Summaries that agree show the same portal, region, profiles, accounts and
/// session.
pub proof fn copies_of_summaries_agree(left: AwsSettingsSummary, right: AwsSettingsSummary)
    requires
        aws::same_summary(left, right),
    ensures
        left.configuration.start_url == right.configuration.start_url,
        left.configuration.sso_region == right.configuration.sso_region,
        left.configuration.targets@ == right.configuration.targets@,
        left.discovery_complete == right.discovery_complete,
        left.logged_in == right.logged_in,
        left.access_token_expires_at == right.access_token_expires_at,
        left.discovered_accounts@.len() == right.discovered_accounts@.len(),
        forall|i: int|
            0 <= i < left.discovered_accounts@.len() ==> {
                let one = #[trigger] left.discovered_accounts@[i];
                let other = right.discovered_accounts@[i];
                &&& one.account_id == other.account_id
                &&& one.account_name == other.account_name
                &&& one.email_address == other.email_address
                &&& one.roles@ == other.roles@
            },
{
    assert forall|i: int| 0 <= i < left.discovered_accounts@.len() implies {
        let one = #[trigger] left.discovered_accounts@[i];
        let other = right.discovered_accounts@[i];
        &&& one.account_id == other.account_id
        &&& one.account_name == other.account_name
        &&& one.email_address == other.email_address
        &&& one.roles@ == other.roles@
    } by {
        assert(aws::same_account(left.discovered_accounts@[i], right.discovered_accounts@[i]));
    }
}

} // verus!
