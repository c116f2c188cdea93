//! What a discovery finds, stated over the pages that the provider answered and
//! the settings that are left.

use vstd::prelude::*;

use crate::aws;
use crate::aws::{AwsDiscoveredAccount, AwsSettings};
use crate::aws_discovery;
use crate::aws_discovery::{
    DiscoveryAction, DiscoveryEvent, DiscoveryFlow, DiscoveryStage, OpenAccount,
};
use crate::aws_flow::{AccountInfo, AccountsPage, RolesPage};
use crate::seqs;
use crate::text;
use crate::text_laws;

verus! {

/// The numbers of accounts that were found.
pub open spec fn found_numbers(accounts: Seq<AwsDiscoveredAccount>) -> Seq<Seq<char>> {
    accounts.map_values(|a: AwsDiscoveredAccount| a.account_id@)
}

/// The numbers of accounts as the provider lists them.
pub open spec fn listed_numbers(accounts: Seq<AccountInfo>) -> Seq<Seq<char>> {
    accounts.map_values(|a: AccountInfo| a.account_id->Some_0@)
}

/// The numbers of the accounts on the page that an event brings, if any.
pub open spec fn brought_numbers(event: DiscoveryEvent) -> Seq<Seq<char>> {
    match event {
        DiscoveryEvent::AccountsListed(Ok(page)) => listed_numbers(page.accounts@),
        _ => Seq::empty(),
    }
}

/// The number of the account whose roles are being listed, if any.
pub open spec fn open_number(stage: DiscoveryStage) -> Seq<Seq<char>> {
    match stage {
        DiscoveryStage::ListingRoles(open) => seq![open.account_id@],
        _ => Seq::empty(),
    }
}

/// The numbers of all accounts that a discovery knows of: those it has found,
/// the one it is at, and those that are left.
pub open spec fn known_numbers(flow: DiscoveryFlow) -> Seq<Seq<char>> {
    found_numbers(flow.accounts@) + open_number(flow.stage) + listed_numbers(flow.left@)
}

/// Whether a discovery is still under way, past the renewal of the session.
pub open spec fn is_listing(flow: DiscoveryFlow) -> bool {
    flow.stage is ListingAccounts && flow.left@.len() == 0 || flow.stage is ListingRoles
}

proof fn advancing_keeps_all(
    middle: DiscoveryFlow,
    after: DiscoveryFlow,
    action: DiscoveryAction,
)
    requires
        aws_discovery::discovery_advances(middle, after, action),
        !(after.stage is Ended),
    ensures
        known_numbers(after) == found_numbers(middle.accounts@) + listed_numbers(middle.left@),
        after.accounts == middle.accounts,
        is_listing(after),
        middle.left@.len() > 0 ==> after.stage is ListingRoles,
{
    let all = found_numbers(middle.accounts@) + listed_numbers(middle.left@);
    if middle.left@.len() > 0 {
        let first = seq![middle.left@[0].account_id->Some_0@];
        assert(listed_numbers(middle.left@) =~= first + listed_numbers(middle.left@.skip(1)));
        assert(known_numbers(after) =~= all);
    } else {
        assert(known_numbers(after) =~= all);
    }
}

/// No step loses or adds an account: after a page of accounts all that was known
/// and the whole page are known, in that order, and after a page of roles all
/// that was known.
pub proof fn no_step_loses_an_account(
    before: DiscoveryFlow,
    event: DiscoveryEvent,
    now: u64,
    after: DiscoveryFlow,
    action: DiscoveryAction,
)
    requires
        is_listing(before),
        aws_discovery::discovery_expects(before.stage, event),
        aws_discovery::discovery_continues(before, event, now, after, action),
        !(after.stage is Ended),
    ensures
        is_listing(after),
        known_numbers(after) == known_numbers(before) + brought_numbers(event),
{
    match event {
        DiscoveryEvent::AccountsListed(Ok(page)) => {
            let middle = choose|middle: DiscoveryFlow|
                {
                    &&& middle.left == page.accounts
                    &&& middle.next == page.next_token
                    &&& middle == (DiscoveryFlow {
                        left: middle.left,
                        next: middle.next,
                        stage: middle.stage,
                        ..before
                    })
                    &&& #[trigger] aws_discovery::discovery_advances(middle, after, action)
                };
            advancing_keeps_all(middle, after, action);
            assert(known_numbers(before) =~= found_numbers(before.accounts@));
            assert(known_numbers(after) =~= known_numbers(before) + listed_numbers(page.accounts@));
        },
        DiscoveryEvent::RolesListed(Ok(page)) => {
            let open = before.stage->ListingRoles_0;
            if aws_discovery::is_last_page(page.next_token, open.requested) {
                let (middle, account) = closed_account(before, page, after, action);
                advancing_keeps_all(middle, after, action);
                assert(found_numbers(middle.accounts@) =~= found_numbers(before.accounts@)
                    + open_number(before.stage));
                assert(known_numbers(after) =~= known_numbers(before));
            }
            assert(known_numbers(after) =~= known_numbers(before) + Seq::<Seq<char>>::empty());
        },
        _ => {},
    }
}

/// The account that a last page of roles closes, and the discovery with it.
proof fn closed_account(
    before: DiscoveryFlow,
    page: RolesPage,
    after: DiscoveryFlow,
    action: DiscoveryAction,
) -> (r: (DiscoveryFlow, AwsDiscoveredAccount))
    requires
        before.stage is ListingRoles,
        aws_discovery::is_last_page(page.next_token, before.stage->ListingRoles_0.requested),
        aws_discovery::discovery_continues(
            before,
            DiscoveryEvent::RolesListed(Ok(page)),
            0,
            after,
            action,
        ),
    ensures
        ({
            let open = before.stage->ListingRoles_0;
            let (middle, account) = r;
            &&& aws_discovery::is_found(
                account,
                open,
                open.roles@ + aws_discovery::named_roles(page.roles@),
            )
            &&& middle.accounts@ == before.accounts@.push(account)
            &&& middle == (DiscoveryFlow {
                accounts: middle.accounts,
                stage: middle.stage,
                ..before
            })
            &&& aws_discovery::discovery_advances(middle, after, action)
        }),
{
    let open = before.stage->ListingRoles_0;
    let roles = open.roles@ + aws_discovery::named_roles(page.roles@);
    choose|middle: DiscoveryFlow, account: AwsDiscoveredAccount|
        {
            &&& aws_discovery::is_found(account, open, roles)
            &&& middle.accounts@ == before.accounts@.push(account)
            &&& middle == (DiscoveryFlow {
                accounts: middle.accounts,
                stage: middle.stage,
                ..before
            })
            &&& #[trigger] aws_discovery::discovery_advances(middle, after, action)
            &&& #[trigger] middle.accounts@.contains(account)
        }
}

/// A role that was listed is among the named ones, and no other is.
proof fn named_roles_are_the_listed_ones(roles: Seq<Option<String>>)
    ensures
        forall|k: int|
            0 <= k < roles.len() && (#[trigger] roles[k]) is Some ==> text::views(
                aws_discovery::named_roles(roles),
            ).contains(roles[k]->Some_0@),
        forall|m: int|
            0 <= m < aws_discovery::named_roles(roles).len() ==> roles.contains(
                Some(#[trigger] aws_discovery::named_roles(roles)[m]),
            ),
    decreases roles.len(),
{
    if roles.len() > 0 {
        let rest = roles.drop_last();
        named_roles_are_the_listed_ones(rest);
        let named = aws_discovery::named_roles(roles);
        let fewer = aws_discovery::named_roles(rest);
        assert forall|k: int| 0 <= k < roles.len() && (
        #[trigger] roles[k]) is Some implies text::views(named).contains(roles[k]->Some_0@) by {
            if k < rest.len() {
                assert(rest[k] == roles[k]);
                let m = text::views(fewer).index_of(roles[k]->Some_0@);
                assert(text::views(fewer)[m] == roles[k]->Some_0@);
                assert(text::views(named)[m] == roles[k]->Some_0@);
            } else {
                let m = named.len() - 1;
                assert(text::views(named)[m] == roles[k]->Some_0@);
            }
        }
        assert forall|m: int| 0 <= m < named.len() implies roles.contains(
            Some(#[trigger] named[m]),
        ) by {
            if m < fewer.len() {
                assert(fewer[m] == named[m]);
                let k = rest.index_of(Some(named[m]));
                assert(roles[k] == Some(named[m]));
            } else {
                assert(roles[roles.len() - 1] == Some(named[m]));
            }
        }
    }
}

proof fn deduped_keeps_every_text(roles: Seq<String>)
    ensures
        forall|k: int|
            0 <= k < roles.len() ==> text::views(aws_discovery::deduped(roles)).contains(
                (#[trigger] roles[k])@,
            ),
        forall|m: int|
            0 <= m < aws_discovery::deduped(roles).len() ==> roles.contains(
                #[trigger] aws_discovery::deduped(roles)[m],
            ),
    decreases roles.len(),
{
    if roles.len() > 0 {
        let rest = roles.drop_last();
        deduped_keeps_every_text(rest);
        let kept = aws_discovery::deduped(roles);
        let fewer = aws_discovery::deduped(rest);
        assert forall|k: int| 0 <= k < roles.len() implies text::views(kept).contains(
            (#[trigger] roles[k])@,
        ) by {
            if k < rest.len() {
                assert(rest[k] == roles[k]);
                let m = text::views(fewer).index_of(roles[k]@);
                assert(text::views(kept)[m] == roles[k]@);
            } else {
                assert(text::views(kept)[kept.len() - 1] == roles[k]@);
            }
        }
        assert forall|m: int| 0 <= m < kept.len() implies roles.contains(#[trigger] kept[m]) by {
            if m < fewer.len() {
                assert(fewer[m] == kept[m]);
                let k = rest.index_of(kept[m]);
                assert(roles[k] == kept[m]);
            } else {
                assert(roles[roles.len() - 1] == kept[m]);
            }
        }
    }
}

/// Sorting and dropping repetitions leaves exactly the texts that were there.
proof fn kept_roles_are_the_same(roles: Seq<String>, role: Seq<char>)
    ensures
        text::views(aws_discovery::kept_roles(roles)).contains(role) <==> text::views(
            roles,
        ).contains(role),
{
    let sorted = seqs::in_order(roles);
    let kept = aws_discovery::kept_roles(roles);
    seqs::in_order_is_ordered(roles);
    deduped_keeps_every_text(sorted);
    if text::views(roles).contains(role) {
        let k = text::views(roles).index_of(role);
        same_elements(roles, sorted, roles[k]);
        let j = sorted.index_of(roles[k]);
        assert(sorted[j]@ == role);
    }
    if text::views(kept).contains(role) {
        let m = text::views(kept).index_of(role);
        assert(sorted.contains(kept[m]));
        same_elements(sorted, roles, kept[m]);
        let k = roles.index_of(kept[m]);
        assert(text::views(roles)[k] == role);
    }
}

proof fn same_elements<T>(left: Seq<T>, right: Seq<T>, x: T)
    requires
        left.to_multiset() == right.to_multiset(),
        left.contains(x),
    ensures
        right.contains(x),
{
    broadcast use vstd::seq_lib::group_to_multiset_ensures;

    assert(left.to_multiset().count(x) > 0);
    assert(right.to_multiset().count(x) > 0);
}

/// An account is found with the name and the address that the provider gave and
/// with exactly the roles that were listed for it, page after page.
pub proof fn found_accounts_have_the_listed_roles(
    before: DiscoveryFlow,
    page: RolesPage,
    now: u64,
    after: DiscoveryFlow,
    action: DiscoveryAction,
)
    requires
        before.stage is ListingRoles,
        aws_discovery::discovery_continues(
            before,
            DiscoveryEvent::RolesListed(Ok(page)),
            now,
            after,
            action,
        ),
        !(after.stage is Ended),
    ensures
        ({
            let open = before.stage->ListingRoles_0;
            let more = page.next_token is Some && page.next_token->Some_0@.len() > 0 && !(
            open.requested is Some && open.requested->Some_0@ == page.next_token->Some_0@);
            &&& more ==> {
                &&& action is ListRoles
                &&& action->ListRoles_account_id@ == open.account_id@
                &&& action->ListRoles_next_token == page.next_token
                &&& after.accounts == before.accounts
                &&& after.left == before.left
                &&& after.stage matches DiscoveryStage::ListingRoles(next) && {
                    &&& next.account_id == open.account_id
                    &&& next.account_name == open.account_name
                    &&& next.email_address == open.email_address
                    &&& next.requested == page.next_token
                    &&& forall|role: Seq<char>| #[trigger]
                        text::views(next.roles@).contains(role) <==> text::views(
                            open.roles@,
                        ).contains(role) || lists_role(page, role)
                }
            }
            &&& !more ==> {
                &&& after.accounts@.len() == before.accounts@.len() + 1
                &&& after.accounts@.drop_last() == before.accounts@
                &&& after.accounts@.last().account_id == open.account_id
                &&& after.accounts@.last().account_name == open.account_name
                &&& after.accounts@.last().email_address == open.email_address
                &&& forall|role: Seq<char>| #[trigger]
                    text::views(after.accounts@.last().roles@).contains(role) <==> text::views(
                        open.roles@,
                    ).contains(role) || lists_role(page, role)
            }
        }),
{
    let open = before.stage->ListingRoles_0;
    let listed = aws_discovery::named_roles(page.roles@);
    let roles = open.roles@ + listed;
    assert forall|role: Seq<char>| #[trigger] text::views(roles).contains(role) <==> text::views(
        open.roles@,
    ).contains(role) || lists_role(page, role) by {
        listed_together(open, page, role);
    }
    if aws_discovery::is_last_page(page.next_token, open.requested) {
        let (middle, account) = closed_account(before, page, after, action);
        advancing_keeps_all(middle, after, action);
        assert(after.accounts@.drop_last() =~= before.accounts@);
        assert forall|role: Seq<char>| #[trigger]
            text::views(after.accounts@.last().roles@).contains(role) <==> text::views(
                open.roles@,
            ).contains(role) || lists_role(page, role) by {
            kept_roles_are_the_same(roles, role);
            listed_together(open, page, role);
        }
    }
}

/// The account that ends a discovery is left in the settings with exactly the
/// roles that were listed for it, unless its number stood among those found
/// before.
pub proof fn the_last_account_has_the_listed_roles(
    before: DiscoveryFlow,
    page: RolesPage,
    now: u64,
    after: DiscoveryFlow,
    action: DiscoveryAction,
)
    requires
        before.stage is ListingRoles,
        aws_discovery::discovery_continues(
            before,
            DiscoveryEvent::RolesListed(Ok(page)),
            now,
            after,
            action,
        ),
        action is Succeed,
        forall|k: int|
            0 <= k < before.accounts@.len() ==> (#[trigger] before.accounts@[k]).account_id@
                != before.stage->ListingRoles_0.account_id@,
    ensures
        ({
            let open = before.stage->ListingRoles_0;
            let kept = after.settings.discovered_accounts@;
            &&& exists|m: int|
                0 <= m < kept.len() && (#[trigger] kept[m]).account_id@ == open.account_id@
            &&& forall|m: int|
                0 <= m < kept.len() && (#[trigger] kept[m]).account_id@ == open.account_id@ ==> {
                    &&& kept[m].account_name == open.account_name
                    &&& kept[m].email_address == open.email_address
                    &&& forall|role: Seq<char>| #[trigger]
                        text::views(kept[m].roles@).contains(role) <==> text::views(
                            open.roles@,
                        ).contains(role) || lists_role(page, role)
                }
        }),
{
    let open = before.stage->ListingRoles_0;
    let kept = after.settings.discovered_accounts@;
    let (middle, account) = closed_account(before, page, after, action);
    ending_keeps_all(middle, after, action);
    let last = middle.accounts@.len() - 1;
    assert(middle.accounts@[last] == account);
    assert(found_numbers(kept).contains(middle.accounts@[last].account_id@));
    let m = found_numbers(kept).index_of(open.account_id@);
    assert(kept[m].account_id@ == open.account_id@);
    assert forall|m: int|
        0 <= m < kept.len() && (#[trigger] kept[m]).account_id@
            == open.account_id@ implies kept[m] == account by {
        let k = middle.accounts@.index_of(kept[m]);
        if k < before.accounts@.len() {
            assert(middle.accounts@[k] == before.accounts@[k]);
        }
    }
    assert forall|role: Seq<char>| #[trigger]
        text::views(account.roles@).contains(role) <==> text::views(open.roles@).contains(role)
            || lists_role(page, role) by {
        listed_together(open, page, role);
        kept_roles_are_the_same(
            open.roles@ + aws_discovery::named_roles(page.roles@),
            role,
        );
    }
}

/// The roles that were listed before and those of a page are together the texts
/// of both.
proof fn listed_together(open: OpenAccount, page: RolesPage, role: Seq<char>)
    ensures
        text::views(open.roles@ + aws_discovery::named_roles(page.roles@)).contains(role)
            <==> text::views(open.roles@).contains(role) || lists_role(page, role),
{
    let listed = aws_discovery::named_roles(page.roles@);
    let roles = open.roles@ + listed;
    named_roles_are_the_listed_ones(page.roles@);
    assert(text::views(roles) =~= text::views(open.roles@) + text::views(listed));
    if text::views(roles).contains(role) {
        let k = text::views(roles).index_of(role);
        if k < open.roles@.len() {
            assert(text::views(open.roles@)[k] == role);
        } else {
            let m = k - open.roles@.len();
            assert(listed[m]@ == role);
            let at = page.roles@.index_of(Some(listed[m]));
            assert(page.roles@[at] == Some(listed[m]));
        }
    }
    if text::views(open.roles@).contains(role) {
        let k = text::views(open.roles@).index_of(role);
        assert(text::views(roles)[k] == role);
    }
    if lists_role(page, role) {
        let at = choose|at: int|
            0 <= at < page.roles@.len() && (#[trigger] page.roles@[at]) is Some
                && page.roles@[at]->Some_0@ == role;
        let m = text::views(listed).index_of(role);
        assert(text::views(roles)[open.roles@.len() + m] == role);
    }
}

/// Whether a page lists a role.
pub open spec fn lists_role(page: RolesPage, role: Seq<char>) -> bool {
    exists|k: int|
        0 <= k < page.roles@.len() && (#[trigger] page.roles@[k]) is Some
            && page.roles@[k]->Some_0@ == role
}

/// An account is opened with the number, the name and the address that the
/// provider listed, and its roles are asked for from the first page on.
pub proof fn accounts_are_opened_as_listed(
    before: DiscoveryFlow,
    event: DiscoveryEvent,
    now: u64,
    after: DiscoveryFlow,
    action: DiscoveryAction,
)
    requires
        is_listing(before),
        aws_discovery::discovery_expects(before.stage, event),
        aws_discovery::discovery_continues(before, event, now, after, action),
        after.stage is ListingRoles,
        before.stage is ListingRoles ==> after.accounts@.len() > before.accounts@.len(),
    ensures
        ({
            let open = after.stage->ListingRoles_0;
            let left = match event {
                DiscoveryEvent::AccountsListed(Ok(page)) => page.accounts@,
                _ => before.left@,
            };
            &&& left.len() > 0
            &&& left[0].account_id is Some && open.account_id@ == left[0].account_id->Some_0@
            &&& open.account_id@.len() > 0
            &&& left[0].account_name is Some ==> open.account_name@ == left[0].account_name->Some_0@
            &&& left[0].account_name is None ==> open.account_name@.len() == 0
            &&& left[0].email_address is Some ==> open.email_address@
                == left[0].email_address->Some_0@
            &&& left[0].email_address is None ==> open.email_address@.len() == 0
            &&& open.roles@.len() == 0
            &&& after.left@ == left.skip(1)
            &&& action is ListRoles && action->ListRoles_account_id@ == open.account_id@
                && action->ListRoles_next_token is None
        }),
{
    match event {
        DiscoveryEvent::RolesListed(Ok(page)) => {
            let open = before.stage->ListingRoles_0;
            if aws_discovery::is_last_page(page.next_token, open.requested) {
                let (middle, account) = closed_account(before, page, after, action);
                assert(middle.left == before.left);
            }
        },
        _ => {},
    }
}

proof fn unique_accounts_keep_every_number(accounts: Seq<AwsDiscoveredAccount>)
    ensures
        forall|k: int|
            0 <= k < accounts.len() ==> found_numbers(
                aws_discovery::unique_accounts(accounts),
            ).contains((#[trigger] accounts[k]).account_id@),
        forall|m: int|
            0 <= m < aws_discovery::unique_accounts(accounts).len() ==> accounts.contains(
                #[trigger] aws_discovery::unique_accounts(accounts)[m],
            ),
    decreases accounts.len(),
{
    if accounts.len() > 0 {
        let rest = accounts.drop_last();
        unique_accounts_keep_every_number(rest);
        let kept = aws_discovery::unique_accounts(accounts);
        let fewer = aws_discovery::unique_accounts(rest);
        assert forall|k: int| 0 <= k < accounts.len() implies found_numbers(kept).contains(
            (#[trigger] accounts[k]).account_id@,
        ) by {
            if k < rest.len() {
                assert(rest[k] == accounts[k]);
                let m = found_numbers(fewer).index_of(accounts[k].account_id@);
                assert(found_numbers(kept)[m] == accounts[k].account_id@);
            } else if aws::has_account(fewer, accounts[k].account_id@) {
                let m = choose|m: int|
                    0 <= m < fewer.len() && (#[trigger] fewer[m]).account_id@
                        == accounts[k].account_id@;
                assert(found_numbers(kept)[m] == accounts[k].account_id@);
            } else {
                assert(found_numbers(kept)[kept.len() - 1] == accounts[k].account_id@);
            }
        }
        assert forall|m: int| 0 <= m < kept.len() implies accounts.contains(
            #[trigger] kept[m],
        ) by {
            if m < fewer.len() {
                assert(fewer[m] == kept[m]);
                let k = rest.index_of(kept[m]);
                assert(accounts[k] == kept[m]);
            } else {
                assert(accounts[accounts.len() - 1] == kept[m]);
            }
        }
    }
}

/// What a discovery leaves in the settings: every account that was found is
/// there, by its number, and each that is there was found; the targets are
/// those whose account was found with both of their roles; everything else
/// stays.
pub proof fn discoveries_keep_what_was_found(
    before: AwsSettings,
    accounts: Seq<AwsDiscoveredAccount>,
    after: AwsSettings,
    r: Result<(), String>,
)
    requires
        aws_discovery::discovered(before, accounts, after, r),
    ensures
        forall|k: int|
            0 <= k < accounts.len() ==> found_numbers(after.discovered_accounts@).contains(
                (#[trigger] accounts[k]).account_id@,
            ),
        forall|m: int|
            0 <= m < after.discovered_accounts@.len() ==> accounts.contains(
                #[trigger] after.discovered_accounts@[m],
            ),
        forall|i: int|
            0 <= i < before.targets@.len() ==> (after.targets@.contains(
                #[trigger] before.targets@[i],
            ) <==> exists|m: int|
                {
                    &&& 0 <= m < after.discovered_accounts@.len()
                    &&& (#[trigger] after.discovered_accounts@[m]).account_id@
                        == before.targets@[i].account_id@
                    &&& text::views(after.discovered_accounts@[m].roles@).contains(
                        before.targets@[i].read_only_role@,
                    )
                    &&& text::views(after.discovered_accounts@[m].roles@).contains(
                        before.targets@[i].admin_role@,
                    )
                }),
        after.discovery_complete,
        after.start_url == before.start_url,
        after.sso_region == before.sso_region,
        after.registration == before.registration,
        after.token == before.token,
{
    let sorted = seqs::in_order(accounts);
    let kept = after.discovered_accounts@;
    seqs::in_order_is_ordered(accounts);
    unique_accounts_keep_every_number(sorted);
    assert forall|k: int| 0 <= k < accounts.len() implies found_numbers(kept).contains(
        (#[trigger] accounts[k]).account_id@,
    ) by {
        assert(accounts.contains(accounts[k]));
        same_elements(accounts, sorted, accounts[k]);
        let j = sorted.index_of(accounts[k]);
        assert(sorted[j].account_id@ == accounts[k].account_id@);
    }
    assert forall|m: int| 0 <= m < kept.len() implies accounts.contains(#[trigger] kept[m]) by {
        assert(sorted.contains(kept[m]));
        same_elements(sorted, accounts, kept[m]);
    }
    let p = aws::is_assigned_in(kept);
    assert forall|i: int| 0 <= i < before.targets@.len() implies (after.targets@.contains(
        #[trigger] before.targets@[i],
    ) <==> p(before.targets@[i])) by {
        let target = before.targets@[i];
        if p(target) {
            seqs::filter_keeps(before.targets@, p, i);
        }
        if after.targets@.contains(target) {
            let at = seqs::filtered_positions(before.targets@, p);
            let k = after.targets@.index_of(target);
            assert(p(before.targets@[at[k]]));
        }
    }
}

proof fn ending_keeps_all(middle: DiscoveryFlow, after: DiscoveryFlow, action: DiscoveryAction)
    requires
        aws_discovery::discovery_advances(middle, after, action),
        action is Succeed,
    ensures
        after.stage is Ended,
        middle.left@.len() == 0,
        middle.next is None || middle.next->Some_0@.len() == 0 || middle.requested is Some
            && middle.requested->Some_0@ == middle.next->Some_0@,
        forall|k: int|
            0 <= k < middle.accounts@.len() ==> found_numbers(
                after.settings.discovered_accounts@,
            ).contains((#[trigger] middle.accounts@[k]).account_id@),
        forall|m: int|
            0 <= m < after.settings.discovered_accounts@.len() ==> middle.accounts@.contains(
                #[trigger] after.settings.discovered_accounts@[m],
            ),
{
    let done = choose|done: Result<(), String>| #[trigger]
        aws_discovery::discovered(
            middle.settings,
            middle.accounts@,
            after.settings,
            done,
        ) && match done {
            Ok(_) => action is Succeed,
            Err(error) => action is Fail && action->Fail_0@ == error@,
        };
    discoveries_keep_what_was_found(middle.settings, middle.accounts@, after.settings, done);
}

/// A discovery that succeeds has found every account that it knew of: the ones
/// it had found, the one it was at, and, where its last page of accounts was
/// just answered, none that was still left.
pub proof fn successful_discoveries_are_complete(
    before: DiscoveryFlow,
    event: DiscoveryEvent,
    now: u64,
    after: DiscoveryFlow,
    action: DiscoveryAction,
)
    requires
        is_listing(before),
        aws_discovery::discovery_expects(before.stage, event),
        aws_discovery::discovery_continues(before, event, now, after, action),
        action is Succeed,
    ensures
        ({
            let all = known_numbers(before) + brought_numbers(event);
            let next = match event {
                DiscoveryEvent::AccountsListed(Ok(page)) => page.next_token,
                _ => before.next,
            };
            &&& forall|k: int|
                0 <= k < all.len() ==> found_numbers(
                    after.settings.discovered_accounts@,
                ).contains(#[trigger] all[k])
            &&& forall|m: int|
                0 <= m < after.settings.discovered_accounts@.len() ==> all.contains(
                    (#[trigger] after.settings.discovered_accounts@[m]).account_id@,
                )
            &&& next is None || next->Some_0@.len() == 0 || before.requested is Some
                && before.requested->Some_0@ == next->Some_0@
        }),
{
    let found = after.settings.discovered_accounts@;
    match event {
        DiscoveryEvent::AccountsListed(Ok(page)) => {
            let middle = choose|middle: DiscoveryFlow|
                {
                    &&& middle.left == page.accounts
                    &&& middle.next == page.next_token
                    &&& middle == (DiscoveryFlow {
                        left: middle.left,
                        next: middle.next,
                        stage: middle.stage,
                        ..before
                    })
                    &&& #[trigger] aws_discovery::discovery_advances(middle, after, action)
                };
            ending_keeps_all(middle, after, action);
            let all = known_numbers(before) + listed_numbers(page.accounts@);
            assert(all =~= found_numbers(middle.accounts@));
            all_found(middle.accounts@, found);
        },
        DiscoveryEvent::RolesListed(Ok(page)) => {
            let (middle, account) = closed_account(before, page, after, action);
            ending_keeps_all(middle, after, action);
            let all = known_numbers(before) + Seq::<Seq<char>>::empty();
            assert(all =~= found_numbers(middle.accounts@));
            all_found(middle.accounts@, found);
        },
        _ => {},
    }
}

proof fn all_found(accounts: Seq<AwsDiscoveredAccount>, found: Seq<AwsDiscoveredAccount>)
    requires
        forall|k: int|
            0 <= k < accounts.len() ==> found_numbers(found).contains(
                (#[trigger] accounts[k]).account_id@,
            ),
        forall|m: int| 0 <= m < found.len() ==> accounts.contains(#[trigger] found[m]),
    ensures
        forall|k: int|
            0 <= k < accounts.len() ==> found_numbers(found).contains(
                #[trigger] found_numbers(accounts)[k],
            ),
        forall|m: int|
            0 <= m < found.len() ==> found_numbers(accounts).contains(
                (#[trigger] found[m]).account_id@,
            ),
{
    assert forall|k: int| 0 <= k < accounts.len() implies found_numbers(found).contains(
        #[trigger] found_numbers(accounts)[k],
    ) by {
        assert(found_numbers(found).contains(accounts[k].account_id@));
    }
    assert forall|m: int| 0 <= m < found.len() implies found_numbers(accounts).contains(
        (#[trigger] found[m]).account_id@,
    ) by {
        let k = accounts.index_of(found[m]);
        assert(found_numbers(accounts)[k] == found[m].account_id@);
    }
}

/// A discovery as it went: its steps, what it was told and when.
pub struct DiscoveryRun {
    pub flows: Seq<DiscoveryFlow>,
    pub actions: Seq<DiscoveryAction>,
    pub events: Seq<DiscoveryEvent>,
    pub times: Seq<u64>,
}

/// Whether a run started with settings and took one step for each event.
pub open spec fn is_run(run: DiscoveryRun, settings: AwsSettings) -> bool {
    &&& run.flows.len() == run.events.len() + 1
    &&& run.actions.len() == run.flows.len()
    &&& run.times.len() == run.flows.len()
    &&& aws_discovery::discovery_starts(settings, run.times[0], run.flows[0], run.actions[0])
    &&& forall|n: int|
        0 <= n < run.events.len() ==> aws_discovery::discovery_expects(
            (#[trigger] run.flows[n]).stage,
            run.events[n],
        ) && aws_discovery::discovery_continues(
            run.flows[n],
            run.events[n],
            run.times[n + 1],
            run.flows[n + 1],
            run.actions[n + 1],
        )
}

/// The numbers of all accounts on the pages that were answered.
pub open spec fn answered_numbers(events: Seq<DiscoveryEvent>) -> Seq<Seq<char>>
    decreases events.len(),
{
    if events.len() == 0 {
        Seq::empty()
    } else {
        answered_numbers(events.drop_last()) + brought_numbers(events.last())
    }
}

/// In each step of a discovery the accounts found, the open account and the
/// accounts left together are exactly the accounts answered so far.
pub proof fn every_step_knows_the_answered_accounts(
    run: DiscoveryRun,
    settings: AwsSettings,
    n: int,
)
    requires
        is_run(run, settings),
        0 <= n < run.flows.len(),
        run.flows[n].stage is ListingAccounts || run.flows[n].stage is ListingRoles,
    ensures
        is_listing(run.flows[n]),
        known_numbers(run.flows[n]) == answered_numbers(run.events.take(n)),
    decreases n,
{
    if n == 0 {
        assert(known_numbers(run.flows[0]) =~= Seq::<Seq<char>>::empty());
    } else {
        let before = run.flows[n - 1];
        let event = run.events[n - 1];
        assert(aws_discovery::discovery_expects(before.stage, event));
        assert(run.events.take(n).drop_last() =~= run.events.take(n - 1));
        if before.stage is Renewing {
            assert(known_numbers(run.flows[n]) =~= Seq::<Seq<char>>::empty());
            nothing_answered_yet(run, settings, n - 1);
            assert(answered_numbers(run.events.take(n)) =~= Seq::<Seq<char>>::empty());
        } else {
            every_step_knows_the_answered_accounts(run, settings, n - 1);
            no_step_loses_an_account(
                before,
                event,
                run.times[n],
                run.flows[n],
                run.actions[n],
            );
        }
    }
}

/// A session that is still being renewed has answered no page.
proof fn nothing_answered_yet(run: DiscoveryRun, settings: AwsSettings, n: int)
    requires
        is_run(run, settings),
        0 <= n < run.flows.len(),
        run.flows[n].stage is Renewing,
    ensures
        n == 0,
        answered_numbers(run.events.take(n)) =~= Seq::<Seq<char>>::empty(),
{
    if n > 0 {
        let before = run.flows[n - 1];
        let event = run.events[n - 1];
        assert(aws_discovery::discovery_expects(before.stage, event));
        assert(false) by {
            match event {
                DiscoveryEvent::RolesListed(Ok(page)) => {
                    if aws_discovery::is_last_page(
                        page.next_token,
                        before.stage->ListingRoles_0.requested,
                    ) {
                        let (middle, account) = closed_account(
                            before,
                            page,
                            run.flows[n],
                            run.actions[n],
                        );
                    }
                },
                _ => {},
            }
        }
    }
}

/// A whole discovery that succeeds leaves in the settings every account of every
/// page that was answered, and no other.
pub proof fn a_discovery_finds_every_account(run: DiscoveryRun, settings: AwsSettings)
    requires
        is_run(run, settings),
        run.actions.last() is Succeed,
    ensures
        ({
            let kept = run.flows.last().settings.discovered_accounts@;
            &&& forall|k: int|
                0 <= k < answered_numbers(run.events).len() ==> found_numbers(kept).contains(
                    #[trigger] answered_numbers(run.events)[k],
                )
            &&& forall|m: int|
                0 <= m < kept.len() ==> answered_numbers(run.events).contains(
                    (#[trigger] kept[m]).account_id@,
                )
        }),
{
    let n = run.flows.len() - 1;
    assert(run.actions.last() == run.actions[n]);
    assert(n > 0);
    let before = run.flows[n - 1];
    let event = run.events[n - 1];
    assert(aws_discovery::discovery_expects(before.stage, event));
    assert(!(before.stage is Renewing));
    every_step_knows_the_answered_accounts(run, settings, n - 1);
    assert(run.events.drop_last() =~= run.events.take(n - 1));
    successful_discoveries_are_complete(
        before,
        event,
        run.times[n],
        run.flows[n],
        run.actions[n],
    );
    assert(run.flows.last() == run.flows[n]);
    assert(answered_numbers(run.events) == known_numbers(before) + brought_numbers(event));
}

/// The page after one that was answered is asked for with its token, once the
/// accounts of the page are done.
pub proof fn the_next_page_is_asked_for(
    before: DiscoveryFlow,
    page: AccountsPage,
    now: u64,
    after: DiscoveryFlow,
    action: DiscoveryAction,
)
    requires
        is_listing(before),
        before.stage is ListingAccounts,
        aws_discovery::discovery_continues(
            before,
            DiscoveryEvent::AccountsListed(Ok(page)),
            now,
            after,
            action,
        ),
        page.accounts@.len() == 0,
        page.next_token is Some && page.next_token->Some_0@.len() > 0,
        before.requested is None || before.requested->Some_0@ != page.next_token->Some_0@,
    ensures
        action is ListAccounts,
        action->ListAccounts_next_token == page.next_token,
        after.requested == page.next_token,
        after.accounts == before.accounts,
{
}

/// Whether the `e`-th event of a run answered a request for the roles of an
/// account with a page that lists a role.
pub open spec fn answered_role_at(
    run: DiscoveryRun,
    e: int,
    id: Seq<char>,
    role: Seq<char>,
) -> bool {
    &&& run.actions[e] is ListRoles
    &&& run.actions[e]->ListRoles_account_id@ == id
    &&& run.events[e] matches DiscoveryEvent::RolesListed(Ok(page))
    &&& lists_role(page, role)
}

/// Whether one of the first `n` events of a run did.
pub open spec fn answered_role(run: DiscoveryRun, n: int, id: Seq<char>, role: Seq<char>) -> bool {
    exists|e: int| 0 <= e < n && #[trigger] answered_role_at(run, e, id, role)
}

proof fn one_more_answer(run: DiscoveryRun, n: int, id: Seq<char>, role: Seq<char>)
    requires
        n >= 0,
    ensures
        answered_role(run, n + 1, id, role) <==> answered_role(run, n, id, role)
            || answered_role_at(run, n, id, role),
{
    if answered_role(run, n + 1, id, role) {
        let e = choose|e: int| 0 <= e < n + 1 && #[trigger] answered_role_at(run, e, id, role);
        assert(answered_role_at(run, e, id, role));
    }
    if answered_role(run, n, id, role) {
        let e = choose|e: int| 0 <= e < n && #[trigger] answered_role_at(run, e, id, role);
        assert(answered_role_at(run, e, id, role));
    }
}

/// Whether the roles of an account are those that were answered for its number.
pub open spec fn has_answered_roles(
    run: DiscoveryRun,
    n: int,
    id: Seq<char>,
    roles: Seq<String>,
) -> bool {
    forall|role: Seq<char>| #[trigger]
        text::views(roles).contains(role) <==> answered_role(run, n, id, role)
}

/// Whether a role was answered only for accounts that were found or are open.
pub open spec fn no_other_roles(run: DiscoveryRun, n: int) -> bool {
    forall|id: Seq<char>, role: Seq<char>| #[trigger]
        answered_role(run, n, id, role) ==> found_numbers(run.flows[n].accounts@).contains(id)
            || open_number(run.flows[n].stage).contains(id)
}

/// In each step of a discovery in which no account was listed twice, the
/// accounts that were found have exactly the roles that were answered for them,
/// and so far the open account has, too.
pub proof fn every_step_knows_the_answered_roles(run: DiscoveryRun, settings: AwsSettings, n: int)
    requires
        is_run(run, settings),
        0 <= n < run.flows.len(),
        run.flows[n].stage is ListingAccounts || run.flows[n].stage is ListingRoles,
        answered_numbers(run.events.take(n)).no_duplicates(),
    ensures
        forall|k: int|
            0 <= k < run.flows[n].accounts@.len() ==> has_answered_roles(
                run,
                n,
                (#[trigger] run.flows[n].accounts@[k]).account_id@,
                run.flows[n].accounts@[k].roles@,
            ),
        run.flows[n].stage matches DiscoveryStage::ListingRoles(open) ==> run.actions[n] is ListRoles
            && run.actions[n]->ListRoles_account_id@ == open.account_id@ && has_answered_roles(
            run,
            n,
            open.account_id@,
            open.roles@,
        ),
        no_other_roles(run, n),
    decreases n,
{
    every_step_knows_the_answered_accounts(run, settings, n);
    if n == 0 {
        assert(run.flows[0].accounts@.len() == 0);
    } else {
        let before = run.flows[n - 1];
        let event = run.events[n - 1];
        let after = run.flows[n];
        let action = run.actions[n];
        assert(aws_discovery::discovery_expects(before.stage, event));
        assert(run.events.take(n).drop_last() =~= run.events.take(n - 1));
        if before.stage is Renewing {
            nothing_answered_yet(run, settings, n - 1);
            assert(after.accounts@.len() == 0);
            assert forall|id: Seq<char>, role: Seq<char>| !#[trigger]
                answered_role(run, n, id, role) by {
                one_more_answer(run, n - 1, id, role);
            }
        } else {
            let earlier = answered_numbers(run.events.take(n - 1));
            let all = answered_numbers(run.events.take(n));
            assert(all == earlier + brought_numbers(event));
            assert(earlier.no_duplicates()) by {
                assert forall|i: int, j: int|
                    0 <= i < earlier.len() && 0 <= j < earlier.len() && i != j implies earlier[i]
                    != earlier[j] by {
                    assert(all[i] == earlier[i] && all[j] == earlier[j]);
                }
            }
            every_step_knows_the_answered_roles(run, settings, n - 1);
            every_step_knows_the_answered_accounts(run, settings, n - 1);
            match event {
                DiscoveryEvent::AccountsListed(Ok(page)) => {
                    page_of_accounts_keeps_roles(run, settings, n, page);
                },
                DiscoveryEvent::RolesListed(Ok(page)) => {
                    page_of_roles_keeps_roles(run, settings, n, page);
                },
                _ => {},
            }
        }
    }
}

/// A number that is found is not the one that is open, where none is listed
/// twice.
proof fn found_is_not_open(flow: DiscoveryFlow, k: int)
    requires
        known_numbers(flow).no_duplicates(),
        flow.stage is ListingRoles,
        0 <= k < flow.accounts@.len(),
    ensures
        flow.accounts@[k].account_id@ != flow.stage->ListingRoles_0.account_id@,
{
    let all = known_numbers(flow);
    let n = flow.accounts@.len() as int;
    assert(all[k] == flow.accounts@[k].account_id@);
    assert(all[n] == flow.stage->ListingRoles_0.account_id@);
}

proof fn page_of_accounts_keeps_roles(
    run: DiscoveryRun,
    settings: AwsSettings,
    n: int,
    page: AccountsPage,
)
    requires
        is_run(run, settings),
        0 < n < run.flows.len(),
        run.events[n - 1] == DiscoveryEvent::AccountsListed(Ok(page)),
        is_listing(run.flows[n - 1]),
        is_listing(run.flows[n]),
        known_numbers(run.flows[n]).no_duplicates(),
        forall|k: int|
            0 <= k < run.flows[n - 1].accounts@.len() ==> has_answered_roles(
                run,
                n - 1,
                (#[trigger] run.flows[n - 1].accounts@[k]).account_id@,
                run.flows[n - 1].accounts@[k].roles@,
            ),
        no_other_roles(run, n - 1),
    ensures
        forall|k: int|
            0 <= k < run.flows[n].accounts@.len() ==> has_answered_roles(
                run,
                n,
                (#[trigger] run.flows[n].accounts@[k]).account_id@,
                run.flows[n].accounts@[k].roles@,
            ),
        run.flows[n].stage matches DiscoveryStage::ListingRoles(open) ==> run.actions[n] is ListRoles
            && run.actions[n]->ListRoles_account_id@ == open.account_id@ && has_answered_roles(
            run,
            n,
            open.account_id@,
            open.roles@,
        ),
        no_other_roles(run, n),
{
    let before = run.flows[n - 1];
    let after = run.flows[n];
    let action = run.actions[n];
    assert(aws_discovery::discovery_expects(before.stage, run.events[n - 1]));
    let middle = choose|middle: DiscoveryFlow|
        {
            &&& middle.left == page.accounts
            &&& middle.next == page.next_token
            &&& middle == (DiscoveryFlow {
                left: middle.left,
                next: middle.next,
                stage: middle.stage,
                ..before
            })
            &&& #[trigger] aws_discovery::discovery_advances(middle, after, action)
        };
    advancing_keeps_all(middle, after, action);
    assert forall|id: Seq<char>, role: Seq<char>| #[trigger]
        answered_role(run, n, id, role) <==> answered_role(run, n - 1, id, role) by {
        one_more_answer(run, n - 1, id, role);
    }
    assert forall|k: int| 0 <= k < after.accounts@.len() implies has_answered_roles(
        run,
        n,
        (#[trigger] after.accounts@[k]).account_id@,
        after.accounts@[k].roles@,
    ) by {
        let account = before.accounts@[k];
        assert(has_answered_roles(run, n - 1, account.account_id@, account.roles@));
        assert forall|role: Seq<char>| #[trigger]
            text::views(account.roles@).contains(role) <==> answered_role(
                run,
                n,
                account.account_id@,
                role,
            ) by {
            assert(answered_role(run, n, account.account_id@, role) <==> answered_role(
                run,
                n - 1,
                account.account_id@,
                role,
            ));
        }
    }
    assert(open_number(before.stage) =~= Seq::<Seq<char>>::empty());
    assert forall|id: Seq<char>, role: Seq<char>| #[trigger]
        answered_role(run, n, id, role) implies found_numbers(after.accounts@).contains(id) by {
        assert(answered_role(run, n - 1, id, role));
    }
    if after.stage is ListingRoles {
        accounts_are_opened_as_listed(before, run.events[n - 1], run.times[n], after, action);
        nothing_answered_for_the_opened(run, n);
    }
}

/// An account that was just opened has no roles yet, and none was answered for
/// it.
proof fn nothing_answered_for_the_opened(run: DiscoveryRun, n: int)
    requires
        run.flows[n].stage is ListingRoles,
        run.flows[n].stage->ListingRoles_0.roles@.len() == 0,
        known_numbers(run.flows[n]).no_duplicates(),
        forall|id: Seq<char>, role: Seq<char>| #[trigger]
            answered_role(run, n, id, role) ==> found_numbers(run.flows[n].accounts@).contains(id),
    ensures
        has_answered_roles(
            run,
            n,
            run.flows[n].stage->ListingRoles_0.account_id@,
            run.flows[n].stage->ListingRoles_0.roles@,
        ),
{
    let flow = run.flows[n];
    let open = flow.stage->ListingRoles_0;
    assert(text::views(open.roles@).len() == 0);
    assert forall|role: Seq<char>| #[trigger]
        text::views(open.roles@).contains(role) <==> answered_role(
            run,
            n,
            open.account_id@,
            role,
        ) by {
        if answered_role(run, n, open.account_id@, role) {
            let k = found_numbers(flow.accounts@).index_of(open.account_id@);
            found_is_not_open(flow, k);
        }
    }
}

proof fn page_of_roles_keeps_roles(
    run: DiscoveryRun,
    settings: AwsSettings,
    n: int,
    page: RolesPage,
)
    requires
        is_run(run, settings),
        0 < n < run.flows.len(),
        run.events[n - 1] == DiscoveryEvent::RolesListed(Ok(page)),
        is_listing(run.flows[n - 1]),
        is_listing(run.flows[n]),
        known_numbers(run.flows[n]).no_duplicates(),
        known_numbers(run.flows[n - 1]).no_duplicates(),
        forall|k: int|
            0 <= k < run.flows[n - 1].accounts@.len() ==> has_answered_roles(
                run,
                n - 1,
                (#[trigger] run.flows[n - 1].accounts@[k]).account_id@,
                run.flows[n - 1].accounts@[k].roles@,
            ),
        run.flows[n - 1].stage matches DiscoveryStage::ListingRoles(open) ==> run.actions[n
            - 1] is ListRoles && run.actions[n - 1]->ListRoles_account_id@ == open.account_id@
            && has_answered_roles(run, n - 1, open.account_id@, open.roles@),
        no_other_roles(run, n - 1),
    ensures
        forall|k: int|
            0 <= k < run.flows[n].accounts@.len() ==> has_answered_roles(
                run,
                n,
                (#[trigger] run.flows[n].accounts@[k]).account_id@,
                run.flows[n].accounts@[k].roles@,
            ),
        run.flows[n].stage matches DiscoveryStage::ListingRoles(open) ==> run.actions[n] is ListRoles
            && run.actions[n]->ListRoles_account_id@ == open.account_id@ && has_answered_roles(
            run,
            n,
            open.account_id@,
            open.roles@,
        ),
        no_other_roles(run, n),
{
    let before = run.flows[n - 1];
    let after = run.flows[n];
    let action = run.actions[n];
    assert(aws_discovery::discovery_expects(before.stage, run.events[n - 1]));
    let open = before.stage->ListingRoles_0;
    found_accounts_have_the_listed_roles(before, page, run.times[n], after, action);
    assert forall|id: Seq<char>, role: Seq<char>| #[trigger]
        answered_role(run, n, id, role) <==> answered_role(run, n - 1, id, role) || id
            == open.account_id@ && lists_role(page, role) by {
        one_more_answer(run, n - 1, id, role);
    }
    assert forall|k: int| 0 <= k < before.accounts@.len() implies has_answered_roles(
        run,
        n,
        (#[trigger] before.accounts@[k]).account_id@,
        before.accounts@[k].roles@,
    ) by {
        let account = before.accounts@[k];
        found_is_not_open(before, k);
        assert(has_answered_roles(run, n - 1, account.account_id@, account.roles@));
        assert forall|role: Seq<char>| #[trigger]
            text::views(account.roles@).contains(role) <==> answered_role(
                run,
                n,
                account.account_id@,
                role,
            ) by {
            assert(answered_role(run, n, account.account_id@, role) <==> answered_role(
                run,
                n - 1,
                account.account_id@,
                role,
            ));
        }
    }
    assert(open_number(before.stage) =~= seq![open.account_id@]);
    assert forall|id: Seq<char>, role: Seq<char>| #[trigger]
        answered_role(run, n, id, role) implies found_numbers(before.accounts@).contains(id) || id
        == open.account_id@ by {
        if answered_role(run, n - 1, id, role) {
            assert(found_numbers(before.accounts@).contains(id) || open_number(
                before.stage,
            ).contains(id));
        }
    }
    let more = page.next_token is Some && page.next_token->Some_0@.len() > 0 && !(
    open.requested is Some && open.requested->Some_0@ == page.next_token->Some_0@);
    if more {
        let next = after.stage->ListingRoles_0;
        assert forall|role: Seq<char>| #[trigger]
            text::views(next.roles@).contains(role) <==> answered_role(
                run,
                n,
                open.account_id@,
                role,
            ) by {
            assert(text::views(open.roles@).contains(role) <==> answered_role(
                run,
                n - 1,
                open.account_id@,
                role,
            ));
        }
        assert(open_number(after.stage)[0] == open.account_id@);
    } else {
        let last = before.accounts@.len() as int;
        let closed = after.accounts@[last];
        assert forall|role: Seq<char>| #[trigger]
            text::views(closed.roles@).contains(role) <==> answered_role(
                run,
                n,
                open.account_id@,
                role,
            ) by {
            assert(text::views(open.roles@).contains(role) <==> answered_role(
                run,
                n - 1,
                open.account_id@,
                role,
            ));
        }
        assert forall|k: int| 0 <= k < after.accounts@.len() implies has_answered_roles(
            run,
            n,
            (#[trigger] after.accounts@[k]).account_id@,
            after.accounts@[k].roles@,
        ) by {
            if k < last {
                assert(after.accounts@.drop_last()[k] == before.accounts@[k]);
                assert(has_answered_roles(
                    run,
                    n,
                    before.accounts@[k].account_id@,
                    before.accounts@[k].roles@,
                ));
            }
        }
        assert forall|id: Seq<char>, role: Seq<char>| #[trigger]
            answered_role(run, n, id, role) implies found_numbers(after.accounts@).contains(id) by {
            if id == open.account_id@ {
                assert(found_numbers(after.accounts@)[last] == id);
            } else {
                let k = found_numbers(before.accounts@).index_of(id);
                assert(after.accounts@.drop_last()[k] == before.accounts@[k]);
                assert(found_numbers(after.accounts@)[k] == id);
            }
        }
        if after.stage is ListingRoles {
            accounts_are_opened_as_listed(before, run.events[n - 1], run.times[n], after, action);
            nothing_answered_for_the_opened(run, n);
        }
    }
}

/// A whole discovery that succeeds, and in which no account was listed twice,
/// leaves every account in the settings with exactly the roles that were
/// answered for it, over all pages.
pub proof fn a_discovery_finds_every_role(run: DiscoveryRun, settings: AwsSettings)
    requires
        is_run(run, settings),
        run.actions.last() is Succeed,
        answered_numbers(run.events).no_duplicates(),
    ensures
        forall|m: int|
            0 <= m < run.flows.last().settings.discovered_accounts@.len() ==> has_answered_roles(
                run,
                run.events.len() as int,
                (#[trigger] run.flows.last().settings.discovered_accounts@[m]).account_id@,
                run.flows.last().settings.discovered_accounts@[m].roles@,
            ),
{
    let n = run.flows.len() - 1;
    assert(run.actions.last() == run.actions[n]);
    assert(n > 0);
    let before = run.flows[n - 1];
    let event = run.events[n - 1];
    let after = run.flows[n];
    let action = run.actions[n];
    assert(run.flows.last() == after);
    assert(aws_discovery::discovery_expects(before.stage, event));
    assert(!(before.stage is Renewing));
    let earlier = answered_numbers(run.events.take(n - 1));
    let all = answered_numbers(run.events);
    assert(run.events.drop_last() =~= run.events.take(n - 1));
    assert(all == earlier + brought_numbers(event));
    assert(earlier.no_duplicates()) by {
        assert forall|i: int, j: int|
            0 <= i < earlier.len() && 0 <= j < earlier.len() && i != j implies earlier[i]
            != earlier[j] by {
            assert(all[i] == earlier[i] && all[j] == earlier[j]);
        }
    }
    every_step_knows_the_answered_accounts(run, settings, n - 1);
    every_step_knows_the_answered_roles(run, settings, n - 1);
    let kept = after.settings.discovered_accounts@;
    match event {
        DiscoveryEvent::AccountsListed(Ok(page)) => {
            let middle = choose|middle: DiscoveryFlow|
                {
                    &&& middle.left == page.accounts
                    &&& middle.next == page.next_token
                    &&& middle == (DiscoveryFlow {
                        left: middle.left,
                        next: middle.next,
                        stage: middle.stage,
                        ..before
                    })
                    &&& #[trigger] aws_discovery::discovery_advances(middle, after, action)
                };
            ending_keeps_all(middle, after, action);
            assert forall|m: int| 0 <= m < kept.len() implies has_answered_roles(
                run,
                n,
                (#[trigger] kept[m]).account_id@,
                kept[m].roles@,
            ) by {
                let k = before.accounts@.index_of(kept[m]);
                assert(has_answered_roles(
                    run,
                    n - 1,
                    before.accounts@[k].account_id@,
                    before.accounts@[k].roles@,
                ));
                assert forall|role: Seq<char>| #[trigger]
                    text::views(kept[m].roles@).contains(role) <==> answered_role(
                        run,
                        n,
                        kept[m].account_id@,
                        role,
                    ) by {
                    one_more_answer(run, n - 1, kept[m].account_id@, role);
                }
            }
        },
        DiscoveryEvent::RolesListed(Ok(page)) => {
            let open = before.stage->ListingRoles_0;
            let (middle, account) = closed_account(before, page, after, action);
            ending_keeps_all(middle, after, action);
            assert forall|k: int| 0 <= k < before.accounts@.len() implies (
            #[trigger] before.accounts@[k]).account_id@ != open.account_id@ by {
                found_is_not_open(before, k);
            }
            the_last_account_has_the_listed_roles(before, page, run.times[n], after, action);
            assert forall|m: int| 0 <= m < kept.len() implies has_answered_roles(
                run,
                n,
                (#[trigger] kept[m]).account_id@,
                kept[m].roles@,
            ) by {
                let k = middle.accounts@.index_of(kept[m]);
                if k < before.accounts@.len() {
                    assert(middle.accounts@[k] == before.accounts@[k]);
                    assert(has_answered_roles(
                        run,
                        n - 1,
                        before.accounts@[k].account_id@,
                        before.accounts@[k].roles@,
                    ));
                } else {
                    assert(middle.accounts@[k] == account);
                    assert(has_answered_roles(run, n - 1, open.account_id@, open.roles@));
                }
                assert forall|role: Seq<char>| #[trigger]
                    text::views(kept[m].roles@).contains(role) <==> answered_role(
                        run,
                        n,
                        kept[m].account_id@,
                        role,
                    ) by {
                    one_more_answer(run, n - 1, kept[m].account_id@, role);
                    if k >= before.accounts@.len() {
                        assert(text::views(open.roles@).contains(role) <==> answered_role(
                            run,
                            n - 1,
                            open.account_id@,
                            role,
                        ));
                    }
                }
            }
        },
        _ => {},
    }
}

/// Whether a text does not come behind another when case is disregarded.
pub open spec fn not_behind(a: Seq<char>, b: Seq<char>) -> bool {
    text::lowered(a) == text::lowered(b) || exists|k: int| #[trigger]
        text_laws::smaller_at(text::lowered(a), text::lowered(b), k)
}

proof fn not_behind_means(a: Seq<char>, b: Seq<char>)
    requires
        !text::precedes(text::lowered(b), text::lowered(a)),
    ensures
        not_behind(a, b),
{
    text::precedes_total(text::lowered(a), text::lowered(b));
    text_laws::texts_are_ordered_by_their_characters(text::lowered(a), text::lowered(b));
}

proof fn deduped_positions(roles: Seq<String>) -> (at: Seq<int>)
    ensures
        at.len() == aws_discovery::deduped(roles).len(),
        forall|k: int|
            0 <= k < at.len() ==> 0 <= #[trigger] at[k] < roles.len()
                && aws_discovery::deduped(roles)[k] == roles[at[k]],
        forall|j: int, k: int| 0 <= j < k < at.len() ==> #[trigger] at[j] < #[trigger] at[k],
        forall|k: int|
            0 < k < at.len() ==> (#[trigger] aws_discovery::deduped(roles)[k])@
                != aws_discovery::deduped(roles)[k - 1]@,
    decreases roles.len(),
{
    if roles.len() == 0 {
        Seq::empty()
    } else {
        let rest = roles.drop_last();
        let before = deduped_positions(rest);
        let kept = aws_discovery::deduped(rest);
        let all = aws_discovery::deduped(roles);
        if all == kept {
            assert forall|k: int| 0 <= k < before.len() implies 0 <= #[trigger] before[k]
                < roles.len() && all[k] == roles[before[k]] by {
                assert(rest[before[k]] == roles[before[k]]);
            }
            before
        } else {
            let at = before.push(roles.len() - 1);
            assert forall|k: int| 0 <= k < at.len() implies 0 <= #[trigger] at[k] < roles.len()
                && all[k] == roles[at[k]] by {
                if k < before.len() {
                    assert(at[k] == before[k]);
                    assert(rest[before[k]] == roles[before[k]]);
                }
            }
            assert forall|k: int| 0 < k < at.len() implies (#[trigger] all[k])@ != all[k
                - 1]@ by {
                if k < before.len() {
                    assert(kept[k] == all[k] && kept[k - 1] == all[k - 1]);
                }
            }
            at
        }
    }
}

/// The roles of an account are kept in the order of their names without regard
/// to case, and none is followed by itself.
pub proof fn roles_are_kept_in_order(roles: Seq<String>)
    ensures
        forall|i: int, j: int|
            0 <= i < j < aws_discovery::kept_roles(roles).len() ==> not_behind(
                (#[trigger] aws_discovery::kept_roles(roles)[i])@,
                (#[trigger] aws_discovery::kept_roles(roles)[j])@,
            ),
        forall|k: int|
            0 < k < aws_discovery::kept_roles(roles).len() ==> (
            #[trigger] aws_discovery::kept_roles(roles)[k])@ != aws_discovery::kept_roles(roles)[k
                - 1]@,
{
    let sorted = seqs::in_order(roles);
    let kept = aws_discovery::kept_roles(roles);
    seqs::in_order_is_ordered(roles);
    let at = deduped_positions(sorted);
    assert forall|i: int, j: int| 0 <= i < j < kept.len() implies not_behind(
        (#[trigger] kept[i])@,
        (#[trigger] kept[j])@,
    ) by {
        assert(at[i] < at[j]);
        assert(!seqs::Ranked::before(&sorted[at[j]], &sorted[at[i]]));
        not_behind_means(kept[i]@, kept[j]@);
    }
}

proof fn unique_positions(accounts: Seq<AwsDiscoveredAccount>) -> (at: Seq<int>)
    ensures
        at.len() == aws_discovery::unique_accounts(accounts).len(),
        forall|k: int|
            0 <= k < at.len() ==> 0 <= #[trigger] at[k] < accounts.len()
                && aws_discovery::unique_accounts(accounts)[k] == accounts[at[k]],
        forall|j: int, k: int| 0 <= j < k < at.len() ==> #[trigger] at[j] < #[trigger] at[k],
        forall|j: int, k: int|
            0 <= j < k < at.len() ==> (
            #[trigger] aws_discovery::unique_accounts(accounts)[j]).account_id@ != (
            #[trigger] aws_discovery::unique_accounts(accounts)[k]).account_id@,
    decreases accounts.len(),
{
    if accounts.len() == 0 {
        Seq::empty()
    } else {
        let rest = accounts.drop_last();
        let before = unique_positions(rest);
        let kept = aws_discovery::unique_accounts(rest);
        let all = aws_discovery::unique_accounts(accounts);
        if aws::has_account(kept, accounts.last().account_id@) {
            assert forall|k: int| 0 <= k < before.len() implies 0 <= #[trigger] before[k]
                < accounts.len() && all[k] == accounts[before[k]] by {
                assert(rest[before[k]] == accounts[before[k]]);
            }
            before
        } else {
            let at = before.push(accounts.len() - 1);
            assert forall|k: int| 0 <= k < at.len() implies 0 <= #[trigger] at[k] < accounts.len()
                && all[k] == accounts[at[k]] by {
                if k < before.len() {
                    assert(at[k] == before[k]);
                    assert(rest[before[k]] == accounts[before[k]]);
                }
            }
            assert forall|j: int, k: int| 0 <= j < k < at.len() implies (
            #[trigger] all[j]).account_id@ != (#[trigger] all[k]).account_id@ by {
                assert(all[j] == kept[j]);
                if k < before.len() {
                    assert(all[k] == kept[k]);
                }
            }
            at
        }
    }
}

/// Accounts are kept in the order of their names without regard to case, those
/// with one name in the order of their numbers, and no number twice.
pub proof fn accounts_are_kept_in_order(accounts: Seq<AwsDiscoveredAccount>)
    ensures
        forall|i: int, j: int|
            0 <= i < j < aws_discovery::kept_accounts(accounts).len() ==> {
                let one = #[trigger] aws_discovery::kept_accounts(accounts)[i];
                let other = #[trigger] aws_discovery::kept_accounts(accounts)[j];
                &&& one.account_id@ != other.account_id@
                &&& not_behind(one.account_name@, other.account_name@)
                &&& text::lowered(one.account_name@) == text::lowered(other.account_name@)
                    ==> exists|k: int| #[trigger]
                    text_laws::smaller_at(one.account_id@, other.account_id@, k)
            },
{
    let sorted = seqs::in_order(accounts);
    let kept = aws_discovery::kept_accounts(accounts);
    seqs::in_order_is_ordered(accounts);
    let at = unique_positions(sorted);
    assert forall|i: int, j: int| 0 <= i < j < kept.len() implies {
        let one = #[trigger] kept[i];
        let other = #[trigger] kept[j];
        &&& one.account_id@ != other.account_id@
        &&& not_behind(one.account_name@, other.account_name@)
        &&& text::lowered(one.account_name@) == text::lowered(other.account_name@) ==> exists|
            k: int,
        | #[trigger] text_laws::smaller_at(one.account_id@, other.account_id@, k)
    } by {
        assert(at[i] < at[j]);
        assert(!seqs::Ranked::before(&sorted[at[j]], &sorted[at[i]]));
        not_behind_means(kept[i].account_name@, kept[j].account_name@);
        text::precedes_total(kept[i].account_id@, kept[j].account_id@);
        text_laws::texts_are_ordered_by_their_characters(
            kept[i].account_id@,
            kept[j].account_id@,
        );
    }
}

/// A discovery that is refused on its way fails with the words of the provider,
/// and, for the roles of an account, with its number; the settings stay as they
/// are.
pub proof fn failed_discoveries_say_why(
    before: DiscoveryFlow,
    event: DiscoveryEvent,
    now: u64,
    after: DiscoveryFlow,
    action: DiscoveryAction,
    error: String,
)
    requires
        aws_discovery::discovery_continues(before, event, now, after, action),
        before.stage is ListingAccounts && event == DiscoveryEvent::AccountsListed(Err(error))
            || before.stage is ListingRoles && event == DiscoveryEvent::RolesListed(Err(error)),
    ensures
        action is Fail,
        after.stage is Ended,
        after.settings == before.settings,
        before.stage is ListingAccounts ==> action->Fail_0@ == "Could not list AWS accounts: "@
            + error@,
        before.stage matches DiscoveryStage::ListingRoles(open) ==> action->Fail_0@
            == "Could not list roles for AWS account "@ + open.account_id@ + ": "@ + error@,
{
}

} // verus!
