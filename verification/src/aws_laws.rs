//! What holds of AWS settings that may be kept.

use vstd::prelude::*;

use crate::aws;
use crate::aws::{AwsDiscoveredAccount, AwsSettings, AwsTarget};
use crate::seqs;

verus! {

proof fn no_target_complaint(targets: Seq<AwsTarget>, i: int)
    requires
        aws::targets_error(targets) is None,
        0 <= i < targets.len(),
    ensures
        aws::target_error(targets[i], targets.take(i)) is None,
    decreases targets.len(),
{
    if i < targets.len() - 1 {
        no_target_complaint(targets.drop_last(), i);
        assert(targets.drop_last().take(i) =~= targets.take(i));
    } else {
        assert(targets.take(i) =~= targets.drop_last());
    }
}

proof fn no_account_complaint(accounts: Seq<AwsDiscoveredAccount>, i: int)
    requires
        aws::accounts_error(accounts) is None,
        0 <= i < accounts.len(),
    ensures
        aws::account_error(accounts[i], accounts.take(i)) is None,
    decreases accounts.len(),
{
    if i < accounts.len() - 1 {
        no_account_complaint(accounts.drop_last(), i);
        assert(accounts.drop_last().take(i) =~= accounts.take(i));
    } else {
        assert(accounts.take(i) =~= accounts.drop_last());
    }
}

proof fn no_assignment_complaint(
    targets: Seq<AwsTarget>,
    accounts: Seq<AwsDiscoveredAccount>,
    i: int,
)
    requires
        aws::assignments_error(targets, accounts) is None,
        0 <= i < targets.len(),
    ensures
        aws::assignment_error(targets[i], accounts) is None,
    decreases targets.len(),
{
    if i < targets.len() - 1 {
        no_assignment_complaint(targets.drop_last(), accounts, i);
    }
}

/// In settings that may be kept every profile can be used as one, belongs to an
/// account number, and no two targets share it.
pub proof fn kept_profiles_are_usable_and_unique(settings: AwsSettings, i: int, j: int)
    requires
        aws::valid_settings(settings),
        0 <= i < settings.targets@.len(),
        0 <= j < settings.targets@.len(),
    ensures
        aws::is_profile(settings.targets@[i].profile@),
        aws::is_account_id(settings.targets@[i].account_id@),
        settings.targets@[i].profile@ == settings.targets@[j].profile@ ==> i == j,
{
    let targets = settings.targets@;
    no_target_complaint(targets, i);
    no_target_complaint(targets, j);
    if i < j {
        assert(targets.take(j)[i] == targets[i]);
    } else if j < i {
        assert(targets.take(i)[j] == targets[j]);
    }
}

/// In settings that may be kept every known account has a number of twelve
/// digits, and no two accounts share it.
pub proof fn kept_accounts_are_numbered(settings: AwsSettings, i: int, j: int)
    requires
        aws::valid_settings(settings),
        0 <= i < settings.discovered_accounts@.len(),
        0 <= j < settings.discovered_accounts@.len(),
    ensures
        aws::is_account_id(settings.discovered_accounts@[i].account_id@),
        settings.discovered_accounts@[i].account_id@ == settings.discovered_accounts@[j].account_id@
            ==> i == j,
{
    let accounts = settings.discovered_accounts@;
    no_account_complaint(accounts, i);
    no_account_complaint(accounts, j);
    if i < j {
        assert(accounts.take(j)[i] == accounts[i]);
    } else if j < i {
        assert(accounts.take(i)[j] == accounts[j]);
    }
}

/// Once accounts are known, every target that may be kept is assigned: its
/// account is known and offers both roles.
pub proof fn kept_targets_are_assigned(settings: AwsSettings, i: int)
    requires
        aws::valid_settings(settings),
        settings.discovered_accounts@.len() > 0,
        0 <= i < settings.targets@.len(),
    ensures
        aws::is_assigned(settings.targets@[i], settings.discovered_accounts@),
{
    let accounts = settings.discovered_accounts@;
    let target = settings.targets@[i];
    no_assignment_complaint(settings.targets@, accounts, i);
    let same = aws::is_numbered(target.account_id@);
    seqs::first_index_meaning(accounts, same);
    let account = aws::account_of(accounts, target.account_id@)->Some_0;
    let k = seqs::first_index(accounts, same)->Some_0;
    assert(accounts[k] == account);
}

/// In settings that may be kept a profile selects its own target.
pub proof fn a_profile_selects_its_target(settings: AwsSettings, i: int)
    requires
        aws::valid_settings(settings),
        0 <= i < settings.targets@.len(),
    ensures
        aws::target_index(settings.targets@, settings.targets@[i].profile@) == Some(i),
{
    let targets = settings.targets@;
    let profile = targets[i].profile@;
    let same = aws::is_named(profile);
    seqs::first_index_meaning(targets, same);
    assert(same(targets[i]));
    let k = seqs::first_index(targets, same)->Some_0;
    kept_profiles_are_usable_and_unique(settings, k, i);
}

} // verus!
