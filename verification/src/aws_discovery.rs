//! Finding the accounts and roles of a session, page by page, and what is kept of
//! them.

use vstd::prelude::*;

use crate::aws;
use crate::aws::{AwsDiscoveredAccount, AwsSettings, AwsTarget, AWS_SESSION_EXPIRED};
use crate::aws_flow;
use crate::aws_flow::{AccountInfo, AccountsPage, Renewal, RolesPage, TokenReply};
use crate::seqs;
use crate::seqs::Ranked;
use crate::text;

verus! {

/// Texts are ordered by their characters.
proof fn precedes_ranks(a: Seq<char>, b: Seq<char>, c: Seq<char>)
    ensures
        !(text::precedes(a, b) && text::precedes(b, a)),
        text::precedes(a, c) ==> text::precedes(a, b) || text::precedes(b, c),
        text::precedes(a, b) && text::precedes(b, c) ==> text::precedes(a, c),
{
    if text::precedes(a, b) && text::precedes(b, a) {
        text::precedes_transitive(a, b, a);
        text::precedes_irreflexive(a);
    }
    text::precedes_total(a, b);
    if text::precedes(b, a) && text::precedes(a, c) {
        text::precedes_transitive(b, a, c);
    }
    if text::precedes(a, b) && text::precedes(b, c) {
        text::precedes_transitive(a, b, c);
    }
}

impl Ranked for String {
    open spec fn before(&self, other: &Self) -> bool {
        text::precedes(text::lowered(self@), text::lowered(other@))
    }

    proof fn ranking(a: &Self, b: &Self, c: &Self) {
        precedes_ranks(text::lowered(a@), text::lowered(b@), text::lowered(c@));
    }

    fn ranks_before(&self, other: &Self) -> (r: bool) {
        let left = text::to_lower(self.as_str());
        let right = text::to_lower(other.as_str());
        text::str_precedes(left.as_str(), right.as_str())
    }
}

impl Ranked for AwsDiscoveredAccount {
    open spec fn before(&self, other: &Self) -> bool {
        let left = text::lowered(self.account_name@);
        let right = text::lowered(other.account_name@);
        text::precedes(left, right) || (left == right && text::precedes(
            self.account_id@,
            other.account_id@,
        ))
    }

    proof fn ranking(a: &Self, b: &Self, c: &Self) {
        let x = text::lowered(a.account_name@);
        let y = text::lowered(b.account_name@);
        let z = text::lowered(c.account_name@);
        precedes_ranks(x, y, z);
        precedes_ranks(y, x, z);
        precedes_ranks(z, y, x);
        text::precedes_irreflexive(x);
        text::precedes_irreflexive(y);
        text::precedes_total(x, y);
        text::precedes_total(y, z);
        precedes_ranks(a.account_id@, b.account_id@, c.account_id@);
    }

    fn ranks_before(&self, other: &Self) -> (r: bool) {
        let left = text::to_lower(self.account_name.as_str());
        let right = text::to_lower(other.account_name.as_str());
        text::str_precedes(left.as_str(), right.as_str()) || (text::str_eq(
            left.as_str(),
            right.as_str(),
        ) && text::str_precedes(self.account_id.as_str(), other.account_id.as_str()))
    }
}

/// A list without elements that repeat the one before them.
pub open spec fn deduped(roles: Seq<String>) -> Seq<String>
    decreases roles.len(),
{
    if roles.len() == 0 {
        roles
    } else {
        let kept = deduped(roles.drop_last());
        if kept.len() > 0 && kept.last()@ == roles.last()@ {
            kept
        } else {
            kept.push(roles.last())
        }
    }
}

/// The roles of an account as they are kept: in order without regard to case,
/// none twice in a row.
pub open spec fn kept_roles(roles: Seq<String>) -> Seq<String> {
    deduped(seqs::in_order(roles))
}

fn tidy_roles(roles: Vec<String>) -> (r: Vec<String>)
    ensures
        r@ == kept_roles(roles@),
{
    let sorted = seqs::sort(roles);
    let mut r: Vec<String> = Vec::new();
    for i in 0..sorted.len()
        invariant
            r@ == deduped(sorted@.take(i as int)),
    {
        assert(sorted@.take(i + 1).drop_last() =~= sorted@.take(i as int));
        let n: usize = r.len();
        if n > 0 && r[n - 1] == sorted[i] {
        } else {
            r.push(sorted[i].clone());
        }
    }
    assert(sorted@.take(sorted@.len() as int) =~= sorted@);
    r
}

/// A list without accounts whose number stands earlier.
pub open spec fn unique_accounts(accounts: Seq<AwsDiscoveredAccount>) -> Seq<AwsDiscoveredAccount>
    decreases accounts.len(),
{
    if accounts.len() == 0 {
        accounts
    } else {
        let kept = unique_accounts(accounts.drop_last());
        if aws::has_account(kept, accounts.last().account_id@) {
            kept
        } else {
            kept.push(accounts.last())
        }
    }
}

/// The accounts as they are kept: in the order of their names without regard to
/// case, then of their numbers, none twice.
pub open spec fn kept_accounts(accounts: Seq<AwsDiscoveredAccount>) -> Seq<AwsDiscoveredAccount> {
    unique_accounts(seqs::in_order(accounts))
}

fn tidy_accounts(accounts: Vec<AwsDiscoveredAccount>) -> (r: Vec<AwsDiscoveredAccount>)
    ensures
        r@ == kept_accounts(accounts@),
{
    let mut rest = seqs::sort(accounts);
    let ghost all = rest@;
    let ghost mut done: int = 0;
    let mut r: Vec<AwsDiscoveredAccount> = Vec::new();
    assert(all.skip(0) =~= all);
    while rest.len() > 0
        invariant
            0 <= done <= all.len(),
            rest@ == all.skip(done),
            r@ == unique_accounts(all.take(done)),
        decreases rest@.len(),
    {
        let account = rest.remove(0);
        proof {
            assert(account == all[done]);
            assert(all.take(done + 1).drop_last() =~= all.take(done));
            assert(rest@ =~= all.skip(done + 1));
            done = done + 1;
        }
        let wanted = account.account_id.as_str();
        let mut seen = false;
        for k in 0..r.len()
            invariant
                wanted@ == account.account_id@,
                seen <==> exists|j: int| 0 <= j < k && (#[trigger] r@[j]).account_id@ == wanted@,
        {
            if text::str_eq(r[k].account_id.as_str(), wanted) {
                seen = true;
            }
        }
        if !seen {
            r.push(account);
        }
    }
    assert(all.take(done) =~= all);
    r
}

/// The outcome of a discovery that read every page: the accounts are kept, and
/// only the targets that are assigned in them.
pub open spec fn discovered(
    before: AwsSettings,
    accounts: Seq<AwsDiscoveredAccount>,
    after: AwsSettings,
    r: Result<(), String>,
) -> bool {
    &&& after.discovered_accounts@ == kept_accounts(accounts)
    &&& after.targets@ == before.targets@.filter(aws::is_assigned_in(kept_accounts(accounts)))
    &&& after.discovery_complete
    &&& after == (AwsSettings {
        discovered_accounts: after.discovered_accounts,
        targets: after.targets,
        discovery_complete: after.discovery_complete,
        ..before
    })
    &&& match aws::settings_error(after) {
        Some(error) => r is Err && r->Err_0@ == error,
        None => r is Ok,
    }
}

pub fn finish_discovery(settings: &mut AwsSettings, accounts: Vec<AwsDiscoveredAccount>) -> (r:
    Result<(), String>)
    ensures
        discovered(*old(settings), accounts@, *final(settings), r),
{
    let kept = tidy_accounts(accounts);
    let found = &kept;
    let keep = |t: &AwsTarget| -> (b: bool)
        ensures
            b == aws::is_assigned(*t, found@),
        { aws::assigned(t, found) };
    seqs::retain(&mut settings.targets, keep, Ghost(aws::is_assigned_in(kept@)));
    settings.discovered_accounts = kept;
    settings.discovery_complete = true;
    settings.validate()
}

/// An account whose roles are being listed.
pub struct OpenAccount {
    pub account_id: String,
    pub account_name: String,
    pub email_address: String,
    pub roles: Vec<String>,
    pub requested: Option<String>,
}

/// What a discovery does next.
pub enum DiscoveryAction {
    Renew { client_id: String, client_secret: String, refresh_token: String },
    ListAccounts { access_token: String, next_token: Option<String> },
    ListRoles { access_token: String, account_id: String, next_token: Option<String> },
    Succeed,
    Fail(String),
}

/// What a discovery is told.
pub enum DiscoveryEvent {
    Renewed(Option<TokenReply>),
    AccountsListed(Result<AccountsPage, String>),
    RolesListed(Result<RolesPage, String>),
}

/// What a discovery waits for.
pub enum DiscoveryStage {
    Renewing { refresh_token: String },
    ListingAccounts,
    ListingRoles(OpenAccount),
    Ended,
}

/// A discovery: what was found so far, what is left of the current page, and
/// the tokens of this page and the next.
pub struct DiscoveryFlow {
    pub settings: AwsSettings,
    pub access_token: String,
    pub accounts: Vec<AwsDiscoveredAccount>,
    pub left: Vec<AccountInfo>,
    pub requested: Option<String>,
    pub next: Option<String>,
    pub stage: DiscoveryStage,
}

/// Whether an event is one that a stage waits for.
pub open spec fn discovery_expects(stage: DiscoveryStage, event: DiscoveryEvent) -> bool {
    match (stage, event) {
        (DiscoveryStage::Renewing { .. }, DiscoveryEvent::Renewed(_)) => true,
        (DiscoveryStage::ListingAccounts, DiscoveryEvent::AccountsListed(_)) => true,
        (DiscoveryStage::ListingRoles(_), DiscoveryEvent::RolesListed(_)) => true,
        _ => false,
    }
}

/// Whether there is no page after the one that was requested: no token, an
/// empty one, or the same one again.
pub open spec fn is_last_page(next: Option<String>, requested: Option<String>) -> bool {
    match next {
        None => true,
        Some(next) => next@.len() == 0 || match requested {
            Some(requested) => requested@ == next@,
            None => false,
        },
    }
}

pub fn last_page(next: &Option<String>, requested: &Option<String>) -> (r: bool)
    ensures
        r == is_last_page(*next, *requested),
{
    match next {
        None => true,
        Some(next) => next.as_str().is_empty() || match requested {
            Some(requested) => text::str_eq(requested.as_str(), next.as_str()),
            None => false,
        },
    }
}

/// Whether a discovery ended with an error.
pub open spec fn discovery_failed(
    flow: DiscoveryFlow,
    action: DiscoveryAction,
    error: Seq<char>,
) -> bool {
    flow.stage is Ended && action is Fail && action->Fail_0@ == error
}

/// The characters of a text that may be missing.
pub open spec fn or_empty(value: Option<String>) -> Seq<char> {
    match value {
        Some(value) => value@,
        None => Seq::empty(),
    }
}

fn or_empty_text(value: Option<String>) -> (r: String)
    ensures
        r@ == or_empty(value),
{
    match value {
        Some(value) => value,
        None => String::new(),
    }
}

/// Whether a discovery goes on with what is left of a page, the page after it,
/// or its end.
pub open spec fn discovery_advances(
    before: DiscoveryFlow,
    after: DiscoveryFlow,
    action: DiscoveryAction,
) -> bool {
    if before.left@.len() > 0 {
        let info = before.left@[0];
        &&& after.left@ == before.left@.skip(1)
        &&& after == (DiscoveryFlow { left: after.left, stage: after.stage, ..before })
        &&& if !aws_flow::is_given(info.account_id) {
            discovery_failed(after, action, aws_flow::missing("account ID"@))
        } else {
            &&& after.stage matches DiscoveryStage::ListingRoles(open)
            &&& open.account_id == info.account_id->Some_0
            &&& open.account_name@ == or_empty(info.account_name)
            &&& open.email_address@ == or_empty(info.email_address)
            &&& open.roles@.len() == 0
            &&& open.requested is None
            &&& action == (DiscoveryAction::ListRoles {
                access_token: before.access_token,
                account_id: open.account_id,
                next_token: None,
            })
        }
    } else if !is_last_page(before.next, before.requested) {
        &&& after == (DiscoveryFlow {
            requested: before.next,
            stage: DiscoveryStage::ListingAccounts,
            ..before
        })
        &&& action == (DiscoveryAction::ListAccounts {
            access_token: before.access_token,
            next_token: before.next,
        })
    } else {
        &&& after.stage is Ended
        &&& exists|done: Result<(), String>| #[trigger]
            discovered(before.settings, before.accounts@, after.settings, done) && match done {
                Ok(_) => action is Succeed,
                Err(error) => action is Fail && action->Fail_0@ == error@,
            }
    }
}

/// Whether the first page is asked for with a token that works.
pub open spec fn discovery_lists(
    flow: DiscoveryFlow,
    now: u64,
    action: DiscoveryAction,
) -> bool {
    if !aws_flow::token_usable(flow.settings.token, now) {
        discovery_failed(flow, action, AWS_SESSION_EXPIRED@)
    } else {
        &&& flow.stage is ListingAccounts
        &&& flow.access_token == flow.settings.token->Some_0.access_token
        &&& flow.accounts@.len() == 0
        &&& flow.left@.len() == 0
        &&& flow.requested is None
        &&& flow.next is None
        &&& action == (DiscoveryAction::ListAccounts {
            access_token: flow.access_token,
            next_token: None,
        })
    }
}

/// The first step: settings that do not hold up are refused, a session that has
/// expired is renewed where it can be.
pub open spec fn discovery_starts(
    settings: AwsSettings,
    now: u64,
    flow: DiscoveryFlow,
    action: DiscoveryAction,
) -> bool {
    &&& flow.settings == settings
    &&& match aws::settings_error(settings) {
        Some(error) => discovery_failed(flow, action, error),
        None => match aws_flow::renewal_of(settings, now) {
            Renewal::Ready => discovery_lists(flow, now, action),
            Renewal::Expired => discovery_failed(flow, action, AWS_SESSION_EXPIRED@),
            Renewal::Renew { client_id, client_secret, refresh_token } => {
                &&& flow.stage == (DiscoveryStage::Renewing { refresh_token })
                &&& action == (DiscoveryAction::Renew { client_id, client_secret, refresh_token })
            },
        },
    }
}

/// The names among listed roles.
pub open spec fn named_roles(roles: Seq<Option<String>>) -> Seq<String>
    decreases roles.len(),
{
    if roles.len() == 0 {
        Seq::empty()
    } else {
        match roles.last() {
            Some(role) => named_roles(roles.drop_last()).push(role),
            None => named_roles(roles.drop_last()),
        }
    }
}

/// The complaint about roles that could not be listed.
pub open spec fn roles_failure(account_id: Seq<char>, error: Seq<char>) -> Seq<char> {
    "Could not list roles for AWS account "@ + account_id + ": "@ + error
}

/// Whether an account was found whose roles have been listed.
pub open spec fn is_found(
    account: AwsDiscoveredAccount,
    open: OpenAccount,
    roles: Seq<String>,
) -> bool {
    &&& account.account_id == open.account_id
    &&& account.account_name == open.account_name
    &&& account.email_address == open.email_address
    &&& account.roles@ == kept_roles(roles)
}

/// A step of a discovery.
pub open spec fn discovery_continues(
    before: DiscoveryFlow,
    event: DiscoveryEvent,
    now: u64,
    after: DiscoveryFlow,
    action: DiscoveryAction,
) -> bool {
    match (before.stage, event) {
        (DiscoveryStage::Renewing { refresh_token }, DiscoveryEvent::Renewed(reply)) => exists|
            done: Result<(), String>,
        |
            {
                &&& #[trigger] aws_flow::renewed(
                    before.settings,
                    reply,
                    refresh_token,
                    now,
                    after.settings,
                    done,
                )
                &&& match done {
                    Err(error) => discovery_failed(after, action, error@),
                    Ok(_) => discovery_lists(after, now, action),
                }
            },
        (DiscoveryStage::ListingAccounts, DiscoveryEvent::AccountsListed(Err(error))) => {
            &&& discovery_failed(after, action, "Could not list AWS accounts: "@ + error@)
            &&& after.settings == before.settings
        },
        (DiscoveryStage::ListingAccounts, DiscoveryEvent::AccountsListed(Ok(page))) => exists|
            middle: DiscoveryFlow,
        |
            {
                &&& middle.left == page.accounts
                &&& middle.next == page.next_token
                &&& middle == (DiscoveryFlow {
                    left: middle.left,
                    next: middle.next,
                    stage: middle.stage,
                    ..before
                })
                &&& #[trigger] discovery_advances(middle, after, action)
            },
        (DiscoveryStage::ListingRoles(open), DiscoveryEvent::RolesListed(Err(error))) => {
            &&& discovery_failed(after, action, roles_failure(open.account_id@, error@))
            &&& after.settings == before.settings
        },
        (DiscoveryStage::ListingRoles(open), DiscoveryEvent::RolesListed(Ok(page))) => {
            let roles = open.roles@ + named_roles(page.roles@);
            if !is_last_page(page.next_token, open.requested) {
                &&& after.stage matches DiscoveryStage::ListingRoles(more)
                &&& more.roles@ == roles
                &&& more.requested == page.next_token
                &&& more == (OpenAccount { roles: more.roles, requested: more.requested, ..open })
                &&& after == (DiscoveryFlow { stage: after.stage, ..before })
                &&& action == (DiscoveryAction::ListRoles {
                    access_token: before.access_token,
                    account_id: open.account_id,
                    next_token: page.next_token,
                })
            } else {
                exists|middle: DiscoveryFlow, account: AwsDiscoveredAccount|
                    {
                        &&& is_found(account, open, roles)
                        &&& middle.accounts@ == before.accounts@.push(account)
                        &&& middle == (DiscoveryFlow {
                            accounts: middle.accounts,
                            stage: middle.stage,
                            ..before
                        })
                        &&& #[trigger] discovery_advances(middle, after, action)
                        &&& #[trigger] middle.accounts@.contains(account)
                    }
            }
        },
        _ => false,
    }
}

fn add_named(roles: &mut Vec<String>, listed: Vec<Option<String>>)
    ensures
        final(roles)@ == old(roles)@ + named_roles(listed@),
{
    let ghost start = roles@;
    assert(start + named_roles(listed@.take(0)) =~= start);
    for i in 0..listed.len()
        invariant
            roles@ == start + named_roles(listed@.take(i as int)),
    {
        assert(listed@.take(i + 1).drop_last() =~= listed@.take(i as int));
        match &listed[i] {
            Some(role) => {
                let ghost before = roles@;
                roles.push(role.clone());
                assert(roles@ =~= start + named_roles(listed@.take(i + 1)));
            },
            None => {},
        }
    }
    assert(listed@.take(listed@.len() as int) =~= listed@);
}

impl DiscoveryFlow {
    pub fn start(settings: AwsSettings, now: u64) -> (r: (DiscoveryFlow, DiscoveryAction))
        ensures
            discovery_starts(settings, now, r.0, r.1),
    {
        let mut flow = DiscoveryFlow {
            settings,
            access_token: String::new(),
            accounts: Vec::new(),
            left: Vec::new(),
            requested: None,
            next: None,
            stage: DiscoveryStage::Ended,
        };
        match flow.settings.validate() {
            Ok(()) => {},
            Err(error) => {
                return (flow, DiscoveryAction::Fail(error));
            },
        }
        match aws_flow::renewal(&flow.settings, now) {
            Renewal::Ready => DiscoveryFlow::list(flow.settings, now),
            Renewal::Expired => (flow, DiscoveryAction::Fail(AWS_SESSION_EXPIRED.to_owned())),
            Renewal::Renew { client_id, client_secret, refresh_token } => {
                flow.stage = DiscoveryStage::Renewing { refresh_token: refresh_token.clone() };
                (flow, DiscoveryAction::Renew { client_id, client_secret, refresh_token })
            },
        }
    }

    fn list(settings: AwsSettings, now: u64) -> (r: (DiscoveryFlow, DiscoveryAction))
        ensures
            r.0.settings == settings,
            discovery_lists(r.0, now, r.1),
    {
        let access_token = match &settings.token {
            Some(token) => if aws::token_expired(token, now) {
                None
            } else {
                Some(token.access_token.clone())
            },
            None => None,
        };
        let mut flow = DiscoveryFlow {
            settings,
            access_token: String::new(),
            accounts: Vec::new(),
            left: Vec::new(),
            requested: None,
            next: None,
            stage: DiscoveryStage::Ended,
        };
        match access_token {
            None => (flow, DiscoveryAction::Fail(AWS_SESSION_EXPIRED.to_owned())),
            Some(access_token) => {
                flow.access_token = access_token.clone();
                flow.stage = DiscoveryStage::ListingAccounts;
                (flow, DiscoveryAction::ListAccounts { access_token, next_token: None })
            },
        }
    }

    fn advance(self) -> (r: (DiscoveryFlow, DiscoveryAction))
        ensures
            discovery_advances(self, r.0, r.1),
    {
        let mut flow = self;
        if flow.left.len() > 0 {
            let info = flow.left.remove(0);
            assert(flow.left@ =~= self.left@.skip(1));
            match aws_flow::required(info.account_id, "account ID") {
                Err(error) => {
                    flow.stage = DiscoveryStage::Ended;
                    (flow, DiscoveryAction::Fail(error))
                },
                Ok(account_id) => {
                    let access_token = flow.access_token.clone();
                    let asked = account_id.clone();
                    flow.stage =
                    DiscoveryStage::ListingRoles(
                        OpenAccount {
                            account_id,
                            account_name: or_empty_text(info.account_name),
                            email_address: or_empty_text(info.email_address),
                            roles: Vec::new(),
                            requested: None,
                        },
                    );
                    (
                        flow,
                        DiscoveryAction::ListRoles {
                            access_token,
                            account_id: asked,
                            next_token: None,
                        },
                    )
                },
            }
        } else if !last_page(&flow.next, &flow.requested) {
            let access_token = flow.access_token.clone();
            let next_token = flow.next.clone();
            flow.requested = flow.next.clone();
            flow.stage = DiscoveryStage::ListingAccounts;
            (flow, DiscoveryAction::ListAccounts { access_token, next_token })
        } else {
            let mut accounts: Vec<AwsDiscoveredAccount> = Vec::new();
            std::mem::swap(&mut accounts, &mut flow.accounts);
            let done = finish_discovery(&mut flow.settings, accounts);
            flow.stage = DiscoveryStage::Ended;
            assert(discovered(self.settings, self.accounts@, flow.settings, done));
            match done {
                Ok(_) => (flow, DiscoveryAction::Succeed),
                Err(error) => (flow, DiscoveryAction::Fail(error)),
            }
        }
    }

    /// Goes on with what was answered.
    pub fn proceed(self, event: DiscoveryEvent, now: u64) -> (r: (DiscoveryFlow, DiscoveryAction))
        requires
            discovery_expects(self.stage, event),
        ensures
            discovery_continues(self, event, now, r.0, r.1),
    {
        let mut flow = DiscoveryFlow {
            settings: self.settings,
            access_token: self.access_token,
            accounts: self.accounts,
            left: self.left,
            requested: self.requested,
            next: self.next,
            stage: DiscoveryStage::Ended,
        };
        match (self.stage, event) {
            (DiscoveryStage::Renewing { refresh_token }, DiscoveryEvent::Renewed(reply)) => {
                let done = aws_flow::finish_renewal(&mut flow.settings, reply, refresh_token, now);
                let ghost outcome = done;
                assert(aws_flow::renewed(
                    self.settings,
                    reply,
                    refresh_token,
                    now,
                    flow.settings,
                    outcome,
                ));
                match done {
                    Err(error) => (flow, DiscoveryAction::Fail(error)),
                    Ok(_) => DiscoveryFlow::list(flow.settings, now),
                }
            },
            (DiscoveryStage::ListingAccounts, DiscoveryEvent::AccountsListed(page)) => match page {
                Err(error) => {
                    let message = text::concat("Could not list AWS accounts: ", error.as_str());
                    (flow, DiscoveryAction::Fail(message))
                },
                Ok(page) => {
                    flow.left = page.accounts;
                    flow.next = page.next_token;
                    flow.advance()
                },
            },
            (DiscoveryStage::ListingRoles(open), DiscoveryEvent::RolesListed(page)) => match page {
                Err(error) => {
                    let mut message = "Could not list roles for AWS account ".to_owned();
                    message.append(open.account_id.as_str());
                    message.append(": ");
                    message.append(error.as_str());
                    (flow, DiscoveryAction::Fail(message))
                },
                Ok(page) => {
                    let mut roles = open.roles;
                    add_named(&mut roles, page.roles);
                    if !last_page(&page.next_token, &open.requested) {
                        let access_token = flow.access_token.clone();
                        let account_id = open.account_id.clone();
                        let next_token = page.next_token.clone();
                        flow.stage =
                        DiscoveryStage::ListingRoles(
                            OpenAccount {
                                account_id: open.account_id,
                                account_name: open.account_name,
                                email_address: open.email_address,
                                roles,
                                requested: page.next_token,
                            },
                        );
                        (flow, DiscoveryAction::ListRoles { access_token, account_id, next_token })
                    } else {
                        let account = AwsDiscoveredAccount {
                            account_id: open.account_id,
                            account_name: open.account_name,
                            email_address: open.email_address,
                            roles: tidy_roles(roles),
                        };
                        let ghost found = account;
                        flow.accounts.push(account);
                        assert(flow.accounts@[flow.accounts@.len() - 1] == found);
                        assert(flow.accounts@.contains(found));
                        flow.advance()
                    }
                },
            },
            _ => (flow, DiscoveryAction::Succeed),
        }
    }
}

/// After a discovery no account stands twice, and every target is assigned, so
/// that no complaint can be about a missing assignment.
pub proof fn discovery_leaves_only_assigned_targets(
    before: AwsSettings,
    accounts: Seq<AwsDiscoveredAccount>,
    after: AwsSettings,
    r: Result<(), String>,
)
    requires
        discovered(before, accounts, after, r),
    ensures
        forall|i: int|
            0 <= i < after.targets@.len() ==> aws::is_assigned(
                #[trigger] after.targets@[i],
                after.discovered_accounts@,
            ),
        forall|i: int, j: int|
            0 <= i < j < after.discovered_accounts@.len() ==> (
            #[trigger] after.discovered_accounts@[i]).account_id@ != (
            #[trigger] after.discovered_accounts@[j]).account_id@,
{
    let kept = kept_accounts(accounts);
    let p = aws::is_assigned_in(kept);
    let at = seqs::filtered_positions(before.targets@, p);
    assert forall|i: int| 0 <= i < after.targets@.len() implies aws::is_assigned(
        #[trigger] after.targets@[i],
        after.discovered_accounts@,
    ) by {
        assert(p(before.targets@[at[i]]));
    }
    unique_accounts_are_distinct(seqs::in_order(accounts));
}

proof fn unique_accounts_are_distinct(accounts: Seq<AwsDiscoveredAccount>)
    ensures
        forall|i: int, j: int|
            0 <= i < j < unique_accounts(accounts).len() ==> (#[trigger] unique_accounts(
                accounts,
            )[i]).account_id@ != (#[trigger] unique_accounts(accounts)[j]).account_id@,
    decreases accounts.len(),
{
    if accounts.len() > 0 {
        unique_accounts_are_distinct(accounts.drop_last());
        let kept = unique_accounts(accounts.drop_last());
        let all = unique_accounts(accounts);
        assert forall|i: int, j: int| 0 <= i < j < all.len() implies (
        #[trigger] all[i]).account_id@ != (#[trigger] all[j]).account_id@ by {
            if j == kept.len() {
                assert(!aws::has_account(kept, accounts.last().account_id@));
                assert(kept[i].account_id@ != accounts.last().account_id@);
            } else {
                assert(kept[i].account_id@ != kept[j].account_id@);
            }
        }
    }
}

} // verus!
