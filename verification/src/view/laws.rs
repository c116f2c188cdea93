//! What holds of the windows as a whole.

use vstd::prelude::*;

use crate::aws;
use crate::aws::{AwsAccessLevel, AwsSettings};
use crate::aws_laws;
use crate::controller;
use crate::controller::{
    AppSnapshot, Controller, PendingAwsCredentialRequest, PendingRequest,
};
use crate::process;
use crate::process::ProcessIdentity;
use crate::seqs;
use crate::seqs::Ranked;
use crate::text;
use crate::vault::{SecretSummary, VaultError};
use crate::view::forms;
use crate::view::labels;
use crate::view::main_view;
use crate::view::main_view::MainState;
use crate::view::pages;
use crate::view::requests;

verus! {

/// Whether every character may stand in a profile.
spec fn all_profile(s: Seq<char>) -> bool {
    forall|i: int| 0 <= i < s.len() ==> aws::is_profile_char(#[trigger] s[i])
}

proof fn pieces_are_profile(s: Seq<char>, sep: spec_fn(char) -> bool)
    requires
        all_profile(s),
    ensures
        text::split_by(s, sep).len() > 0,
        forall|k: int|
            0 <= k < text::split_by(s, sep).len() ==> all_profile(
                #[trigger] text::split_by(s, sep)[k],
            ),
    decreases s.len(),
{
    if s.len() > 0 {
        let before = text::split_by(s.drop_last(), sep);
        assert(all_profile(s.drop_last())) by {
            assert forall|i: int| 0 <= i < s.drop_last().len() implies aws::is_profile_char(
                #[trigger] s.drop_last()[i],
            ) by {
                assert(s.drop_last()[i] == s[i]);
            }
        }
        pieces_are_profile(s.drop_last(), sep);
        let last = s[s.len() - 1];
        assert(aws::is_profile_char(last));
        let longer = before.last().push(last);
        assert(all_profile(before[before.len() - 1]));
        assert(all_profile(longer));
        assert forall|k: int| 0 <= k < text::split_by(s, sep).len() implies all_profile(
            #[trigger] text::split_by(s, sep)[k],
        ) by {
            if k < before.len() - 1 {
                assert(all_profile(before[k]));
            } else if sep(s.last()) && k == before.len() - 1 {
                assert(all_profile(before[k]));
            }
        }
    }
}

proof fn kept_pieces_are_profile(pieces: Seq<Seq<char>>)
    requires
        forall|k: int| 0 <= k < pieces.len() ==> all_profile(#[trigger] pieces[k]),
    ensures
        forall|k: int|
            0 <= k < text::non_empty(pieces).len() ==> all_profile(
                #[trigger] text::non_empty(pieces)[k],
            ),
    decreases pieces.len(),
{
    if pieces.len() > 0 {
        let rest = pieces.drop_last();
        assert forall|k: int| 0 <= k < rest.len() implies all_profile(#[trigger] rest[k]) by {
            assert(rest[k] == pieces[k]);
        }
        kept_pieces_are_profile(rest);
        assert(all_profile(pieces[pieces.len() - 1]));
        let before = text::non_empty(rest);
        assert forall|k: int| 0 <= k < text::non_empty(pieces).len() implies all_profile(
            #[trigger] text::non_empty(pieces)[k],
        ) by {
            if k < before.len() {
                assert(all_profile(before[k]));
            }
        }
    }
}

proof fn joined_is_profile(parts: Seq<Seq<char>>)
    requires
        forall|k: int| 0 <= k < parts.len() ==> all_profile(#[trigger] parts[k]),
    ensures
        all_profile(labels::joined(parts, "-"@)),
    decreases parts.len(),
{
    if parts.len() == 1 {
        assert(all_profile(parts[0]));
    } else if parts.len() > 1 {
        reveal_strlit("-");
        let rest = parts.drop_last();
        assert forall|k: int| 0 <= k < rest.len() implies all_profile(#[trigger] rest[k]) by {
            assert(rest[k] == parts[k]);
        }
        joined_is_profile(rest);
        assert(all_profile(parts[parts.len() - 1]));
        assert("-"@[0] == '-');
    }
}

proof fn digits_end(s: Seq<char>, n: int)
    requires
        0 <= n <= s.len(),
        forall|i: int| 0 <= i < s.len() ==> text::is_ascii_digit(#[trigger] s[i]),
    ensures
        labels::after_bytes(s, n) == Some(s.skip(n)),
    decreases s.len(),
{
    if n > 0 {
        let rest = s.drop_first();
        assert forall|i: int| 0 <= i < rest.len() implies text::is_ascii_digit(
            #[trigger] rest[i],
        ) by {
            assert(rest[i] == s[i + 1]);
        }
        assert(text::is_ascii_digit(s[0]));
        digits_end(rest, n - 1);
        assert(rest.skip(n - 1) =~= s.skip(n));
    } else {
        assert(s.skip(0) =~= s);
    }
}

/// The profile that is suggested for an account can be used as one, unless the
/// name of the account makes it too long.
pub proof fn suggested_aliases_are_profiles(account_name: Seq<char>, account_id: Seq<char>)
    requires
        aws::is_account_id(account_id),
        labels::alias_of(account_name).len() <= 128,
    ensures
        aws::is_profile(labels::alias_for(account_name, account_id)),
{
    let plain = account_name.map_values(|c: char| labels::alias_char(c));
    assert(all_profile(plain)) by {
        assert forall|i: int| 0 <= i < plain.len() implies aws::is_profile_char(
            #[trigger] plain[i],
        ) by {
            assert(plain[i] == labels::alias_char(account_name[i]));
        }
    }
    let pieces = text::split_on(plain, '-');
    pieces_are_profile(plain, text::is_char('-'));
    kept_pieces_are_profile(pieces);
    joined_is_profile(text::non_empty(pieces));
    if labels::alias_of(account_name).len() == 0 {
        reveal_strlit("account-");
        digits_end(account_id, 8);
        let alias = labels::alias_for(account_name, account_id);
        assert forall|i: int| 0 <= i < alias.len() implies aws::is_profile_char(
            #[trigger] alias[i],
        ) by {
            if i >= 8 {
                assert(alias[i] == account_id[i]);
                assert(text::is_ascii_digit(account_id[i]));
            } else {
                assert(alias[i] == "account-"@[i]);
            }
        }
    }
}

/// The role that is suggested is one of the account's roles and speaks of the
/// level; none is suggested exactly when no role does, or when that role has no
/// name.
pub proof fn suggested_roles_are_offered(roles: Seq<String>, level: AwsAccessLevel)
    ensures
        match seqs::first_where(roles, labels::suits(level)) {
            Some(role) => {
                &&& roles.contains(role)
                &&& labels::speaks_of(role@, level)
                &&& labels::role_for(roles, level) == role@
            },
            None => {
                &&& labels::role_for(roles, level).len() == 0
                &&& forall|i: int|
                    0 <= i < roles.len() ==> !labels::speaks_of((#[trigger] roles[i])@, level)
            },
        },
{
    let test = labels::suits(level);
    seqs::first_index_meaning(roles, test);
    if seqs::first_index(roles, test) is None {
        assert forall|i: int| 0 <= i < roles.len() implies !labels::speaks_of(
            (#[trigger] roles[i])@,
            level,
        ) by {
            assert(!test(roles[i]));
        }
    }
}

/// The accounts of settings that may be kept can be given profiles.
pub proof fn kept_accounts_can_be_given_profiles(settings: AwsSettings)
    requires
        aws::valid_settings(settings),
    ensures
        forms::forms_for(settings.discovered_accounts@, settings.targets@) is Some,
{
    let accounts = settings.discovered_accounts@;
    assert forall|i: int| 0 <= i < accounts.len() implies labels::after_bytes(
        (#[trigger] accounts[i]).account_id@,
        8,
    ) is Some by {
        aws_laws::kept_accounts_are_numbered(settings, i, i);
        digits_end(accounts[i].account_id@, 8);
    }
    forms::long_numbers_give_forms(accounts, settings.targets@);
}

/// The usual holder of a grant is the requester: the first process of the
/// lineage that may hold one. It is launchd only where every process is.
pub proof fn the_requester_is_the_usual_holder(tree: Seq<ProcessIdentity>)
    ensures
        match labels::default_holder(tree) {
            Some(holder) => {
                &&& tree.contains(holder)
                &&& process::is_launchd(holder) ==> forall|i: int|
                    0 <= i < tree.len() ==> process::is_launchd(#[trigger] tree[i])
                &&& !process::is_launchd(holder) ==> exists|k: int|
                    0 <= k < tree.len() && #[trigger] tree[k] == holder && forall|i: int|
                        0 <= i < k ==> process::is_launchd(#[trigger] tree[i])
            },
            None => tree.len() == 0,
        },
{
    let test = labels::grantable();
    seqs::first_index_meaning(tree, test);
    match seqs::first_index(tree, test) {
        Some(k) => {
            assert(tree[k] == labels::default_holder(tree)->Some_0);
            assert forall|i: int| 0 <= i < k implies process::is_launchd(#[trigger] tree[i]) by {
                assert(!test(tree[i]));
            }
        },
        None => {
            assert forall|i: int| 0 <= i < tree.len() implies process::is_launchd(
                #[trigger] tree[i],
            ) by {
                assert(!test(tree[i]));
            }
            if tree.len() > 0 {
                assert(tree[0] == labels::default_holder(tree)->Some_0);
            }
        },
    }
}

/// Only processes of the lineage can be chosen, and launchd never.
pub proof fn launchd_is_not_offered(tree: Seq<ProcessIdentity>, i: int)
    requires
        0 <= i < requests::offered(tree).len(),
    ensures
        tree.contains(requests::offered(tree)[i]),
        !process::is_launchd(requests::offered(tree)[i]),
{
    let kept = tree.filter(labels::grantable());
    let at = seqs::filtered_positions(tree, labels::grantable());
    let k = kept.len() - 1 - i;
    assert(requests::offered(tree)[i] == kept[k]);
    assert(kept[k] == tree[at[k]]);
}

/// A choice counts only for a process of the lineage; without one the grant is
/// for a process of the lineage, too.
pub proof fn holders_belong_to_the_lineage(
    choices: Map<Seq<char>, ProcessIdentity>,
    request_id: Seq<char>,
    tree: Seq<ProcessIdentity>,
)
    requires
        tree.len() > 0,
    ensures
        requests::holder(choices, request_id, tree) is Some,
        requests::in_lineage(requests::holder(choices, request_id, tree)->Some_0, tree),
{
    the_requester_is_the_usual_holder(tree);
    let usual = labels::default_holder(tree)->Some_0;
    let k = tree.index_of(usual);
    assert(process::is_same(usual, tree[k]));
}

/// While the vault is closed no request can be approved, and a request of a
/// process that could not be verified can be allowed once and no more.
pub proof fn approvals_need_an_open_vault_and_a_verified_process(
    unlocked: bool,
    verified: bool,
    holder: Option<ProcessIdentity>,
    i: int,
    j: int,
)
    requires
        0 <= i < requests::secret_buttons(unlocked, verified, holder).len(),
        0 <= j < requests::aws_buttons(unlocked, holder).len(),
    ensures
        !unlocked ==> {
            let offered = requests::secret_buttons(unlocked, verified, holder)[i];
            offered is Deny || offered is OpenMain
        },
        !unlocked ==> {
            let offered = requests::aws_buttons(unlocked, holder)[j];
            offered is Deny || offered is OpenMain
        },
        !verified ==> !(requests::secret_buttons(unlocked, verified, holder)[i] is Grant),
{
}

proof fn sorted_requests(pending: Seq<PendingRequest>, shown: Seq<PendingRequest>)
    requires
        controller::same_requests(shown, seqs::in_order(pending)),
    ensures
        shown.len() == pending.len(),
        forall|i: int|
            0 <= i < pending.len() ==> shown[0].requested_at <= (#[trigger] pending[i]).requested_at,
{
    broadcast use vstd::seq_lib::group_to_multiset_ensures;

    let sorted = seqs::in_order(pending);
    seqs::in_order_is_ordered(pending);
    assert forall|i: int| 0 <= i < pending.len() implies shown[0].requested_at <= (
    #[trigger] pending[i]).requested_at by {
        assert(pending.contains(pending[i]));
        assert(sorted.to_multiset().count(pending[i]) > 0);
        assert(sorted.contains(pending[i]));
        let k = sorted.index_of(pending[i]);
        assert(controller::same_request(shown[0], sorted[0]));
        if k > 0 {
            assert(!sorted[k].before(&sorted[0]));
        }
    }
}

proof fn sorted_aws_requests(
    pending: Seq<PendingAwsCredentialRequest>,
    shown: Seq<PendingAwsCredentialRequest>,
)
    requires
        controller::same_aws_requests(shown, seqs::in_order(pending)),
    ensures
        shown.len() == pending.len(),
        forall|i: int|
            0 <= i < pending.len() ==> shown[0].requested_at <= (#[trigger] pending[i]).requested_at,
{
    broadcast use vstd::seq_lib::group_to_multiset_ensures;

    let sorted = seqs::in_order(pending);
    seqs::in_order_is_ordered(pending);
    assert forall|i: int| 0 <= i < pending.len() implies shown[0].requested_at <= (
    #[trigger] pending[i]).requested_at by {
        assert(pending.contains(pending[i]));
        assert(sorted.to_multiset().count(pending[i]) > 0);
        assert(sorted.contains(pending[i]));
        let k = sorted.index_of(pending[i]);
        assert(controller::same_aws_request(shown[0], sorted[0]));
        if k > 0 {
            assert(!sorted[k].before(&sorted[0]));
        }
    }
}

/// Whether nothing that waits was asked for before a moment.
pub open spec fn waits_longest(controller: Controller, requested_at: u64) -> bool {
    &&& forall|i: int|
        0 <= i < controller.pending@.len() ==> requested_at <= (
        #[trigger] controller.pending@[i]).requested_at
    &&& forall|i: int|
        0 <= i < controller.pending_aws@.len() ==> requested_at <= (
        #[trigger] controller.pending_aws@[i]).requested_at
}

/// The request that is shown has waited longest: no other one that waits was
/// made before it. None is shown exactly when none waits.
pub proof fn the_oldest_request_is_shown(
    before: Controller,
    snapshot: AppSnapshot,
    present: Result<bool, VaultError>,
    now: u64,
    now_seconds: u64,
)
    requires
        controller::is_snapshot(snapshot, before, present, now, now_seconds),
    ensures
        match requests::oldest(snapshot) {
            requests::Oldest::Aws => waits_longest(before, snapshot.pending_aws@[0].requested_at),
            requests::Oldest::Secret => waits_longest(before, snapshot.pending@[0].requested_at),
            requests::Oldest::Nothing => before.pending@.len() == 0 && before.pending_aws@.len()
                == 0,
        },
{
    sorted_requests(before.pending@, snapshot.pending@);
    sorted_aws_requests(before.pending_aws@, snapshot.pending_aws@);
}

/// Clearing the window leaves no password, no secret and no question in it, and
/// clearing it again changes nothing.
pub proof fn clearing_leaves_nothing_sensitive(state: MainState)
    ensures
        ({
            let after = main_view::cleared(state);
            &&& after.inputs.auth_password.len() == 0
            &&& after.inputs.auth_confirmation.len() == 0
            &&& after.inputs.secret_name.len() == 0
            &&& after.inputs.secret_value.len() == 0
            &&& after.inputs.new_password.len() == 0
            &&& after.inputs.password_confirmation.len() == 0
            &&& after.revealed is None
            &&& after.modal is None
            &&& main_view::cleared(after) == after
        }),
{
}

/// A second click on a secret hides the value that the first one showed.
pub proof fn a_second_click_hides_the_value(
    state: MainState,
    name: Seq<char>,
    value: Seq<char>,
    again: Result<Seq<char>, Seq<char>>,
    now: u64,
    later: u64,
)
    requires
        !main_view::shows(state, name),
    ensures
        ({
            let first = main_view::after_reveal(
                state,
                name,
                Ok::<Seq<char>, Seq<char>>(value),
                now,
            );
            &&& first.revealed == Some((name, value))
            &&& main_view::after_reveal(first, name, again, later) == (MainState {
                revealed: None,
                ..state
            })
        }),
{
}

/// A search shows only secrets whose name holds it, every one of them, and an
/// empty search shows all.
pub proof fn searches_find_what_they_name(
    secrets: Seq<SecretSummary>,
    search: Seq<char>,
    i: int,
)
    requires
        0 <= i < secrets.len(),
    ensures
        pages::found(secrets, search).contains(secrets[i]) == (search.len() == 0 || text::has_part(
            text::lowered(secrets[i].name@),
            text::lowered(search),
        )),
        search.len() == 0 ==> pages::found(secrets, search) == secrets,
{
    let test = pages::is_found(search);
    let kept = pages::found(secrets, search);
    if test(secrets[i]) {
        seqs::filter_keeps(secrets, test, i);
        let k = choose|k: int| 0 <= k < kept.len() && #[trigger] kept[k] == secrets[i];
        assert(kept.contains(kept[k]));
    } else if kept.contains(secrets[i]) {
        let k = kept.index_of(secrets[i]);
        let at = seqs::filtered_positions(secrets, test);
        assert(kept[k] == secrets[at[k]]);
        assert(test(kept[k]));
    }
    if search.len() == 0 {
        keeping_everything(secrets, test);
    }
}

proof fn keeping_everything<T>(s: Seq<T>, p: spec_fn(T) -> bool)
    requires
        forall|i: int| 0 <= i < s.len() ==> p(#[trigger] s[i]),
    ensures
        s.filter(p) == s,
    decreases s.len(),
{
    reveal(Seq::filter);
    if s.len() > 0 {
        assert forall|i: int| 0 <= i < s.drop_last().len() implies p(
            #[trigger] s.drop_last()[i],
        ) by {
            assert(s.drop_last()[i] == s[i]);
        }
        keeping_everything(s.drop_last(), p);
        assert(p(s[s.len() - 1]));
        assert(s.filter(p) =~= s);
    } else {
        assert(s.filter(p) =~= s);
    }
}

} // verus!
