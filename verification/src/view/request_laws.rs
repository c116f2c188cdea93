//! What the window that asks for decisions offers, and what its buttons do,
//! stated over the requests and the answers.

use vstd::prelude::*;

use crate::aws::AwsAccessLevel;
use crate::controller::{
    AppSnapshot, ApprovalDecision, AwsRequestResolution, Controller, PendingAwsCredentialRequest,
    PendingRequest,
};
use crate::controller_aws;
use crate::controller_aws_requests;
use crate::controller_requests;
use crate::numeral;
use crate::process;
use crate::process::ProcessIdentity;
use crate::seqs;
use crate::text;
use crate::text_laws;
use crate::vault::VaultError;
use crate::view::labels;
use crate::view::requests;
use crate::view::requests::{
    Oldest, ProcessChoice, ProcessSelector, RequestButton, RequestCard, RequestState,
};

verus! {

/// A button stands for the decision that it names: to deny, to allow once, or to
/// grant for some time to its process. For credentials a level is given by the
/// button of that level alone; every other one denies.
pub proof fn buttons_do_what_they_say(button: RequestButton)
    ensures
        button is AllowOnce <==> requests::button_decision(button) == ApprovalDecision::Once,
        button is Grant <==> requests::button_decision(button) == ApprovalDecision::Temporary,
        button is Deny ==> requests::button_decision(button) == ApprovalDecision::Deny,
        button matches RequestButton::GrantLevel(level, holder) ==> requests::button_level(button)
            == Some(level) && requests::button_holder(button) == holder,
        !(button is GrantLevel) ==> requests::button_level(button) is None,
        button matches RequestButton::Grant(holder) ==> requests::button_holder(button) == holder,
        button is Deny || button is AllowOnce ==> requests::button_holder(button) is None,
        button is Deny ==> requests::button_words(button) == "Deny"@,
        button is AllowOnce ==> requests::button_words(button) == "Allow once"@,
        button is Grant ==> requests::button_words(button) == "Grant for 30 minutes"@,
        button matches RequestButton::GrantLevel(level, _) ==> requests::button_words(button)
            == if level == AwsAccessLevel::ReadOnly {
            "Grant read-only"@
        } else {
            "Grant admin"@
        },
{
}

/// A request for a secret can always be denied. With an open vault it can be
/// allowed once, and, where the requester is verified, granted to the process
/// that was chosen; with a locked one the main window can be opened.
pub proof fn secrets_can_be_answered(
    unlocked: bool,
    verified: bool,
    holder: Option<ProcessIdentity>,
)
    ensures
        ({
            let offered = requests::secret_buttons(unlocked, verified, holder);
            &&& offered.len() == if unlocked && verified {
                3int
            } else {
                2int
            }
            &&& offered[0] is Deny
            &&& unlocked ==> offered[1] is AllowOnce
            &&& !unlocked ==> offered[1] is OpenMain
            &&& unlocked && verified ==> offered[2] == RequestButton::Grant(holder)
        }),
{
}

/// A request for credentials can always be denied. With an open vault it can be
/// approved for either level, for the process that was chosen.
pub proof fn credentials_can_be_answered(unlocked: bool, holder: Option<ProcessIdentity>)
    ensures
        ({
            let offered = requests::aws_buttons(unlocked, holder);
            &&& offered.len() == if unlocked {
                3int
            } else {
                2int
            }
            &&& offered[0] is Deny
            &&& unlocked ==> offered[1] == RequestButton::GrantLevel(
                AwsAccessLevel::ReadOnly,
                holder,
            )
            &&& unlocked ==> offered[2] == RequestButton::GrantLevel(AwsAccessLevel::Admin, holder)
            &&& !unlocked ==> offered[1] is OpenMain
        }),
{
}

/// Pressing the button of a level approves a request for credentials at that
/// level and no other.
pub proof fn pressing_a_level_approves_that_level(
    before: Controller,
    i: int,
    level: AwsAccessLevel,
    holder: Option<ProcessIdentity>,
    after: Controller,
    r: Result<(), VaultError>,
)
    requires
        before.wf(),
        0 <= i < before.pending_aws@.len(),
        requests::credentials_decided(
            before,
            before.pending_aws@[i].id@,
            requests::button_level(RequestButton::GrantLevel(level, holder)),
            requests::button_holder(RequestButton::GrantLevel(level, holder)),
            Some(1_800),
            after,
            r,
        ),
        r is Ok,
    ensures
        controller_aws_requests::posted(
            before.aws_resolutions@,
            before.pending_aws@[i].id@,
            AwsRequestResolution::Approved(level),
            after.aws_resolutions@,
        ),
        before.pending_aws@[i].verified ==> after.aws_process_decisions@.len() > 0
            && after.aws_process_decisions@.last().level == level,
{
    let (new_id, now) = choose|new_id: String, now: u64| #[trigger]
        controller_aws::respond_aws_outcome(
            before,
            before.pending_aws@[i].id@,
            Some(level),
            holder,
            Some(1_800),
            new_id,
            now,
            after,
            r,
        );
    controller_aws_requests::approved_credentials_are_of_the_chosen_level(
        before,
        i,
        level,
        holder,
        Some(1_800),
        new_id,
        now,
        after,
        r,
    );
}

/// Pressing the button that denies answers a request for a secret with a denial.
pub proof fn pressing_deny_denies(
    before: Controller,
    i: int,
    after: Controller,
    r: Result<(), VaultError>,
)
    requires
        before.wf(),
        0 <= i < before.pending@.len(),
        requests::secret_decided(
            before,
            before.pending@[i].id@,
            requests::button_decision(RequestButton::Deny),
            requests::button_holder(RequestButton::Deny),
            after,
            r,
        ),
    ensures
        r is Ok,
        controller_requests::posted(
            before.resolutions@,
            before.pending@[i].id@,
            false,
            after.resolutions@,
        ),
        after.grants.grants@ == before.grants.grants@,
{
    let (grant_id, now) = choose|grant_id: String, now: u64| #[trigger]
        crate::controller::respond_outcome(
            before,
            before.pending@[i].id@,
            ApprovalDecision::Deny,
            requests::offered_seconds(ApprovalDecision::Deny),
            None,
            grant_id,
            now,
            after,
            r,
        );
    controller_requests::a_denied_secret_is_refused(
        before,
        i,
        requests::offered_seconds(ApprovalDecision::Deny),
        None,
        grant_id,
        now,
        after,
        r,
    );
}

/// A grant that the window gives lasts half an hour.
pub proof fn the_window_grants_half_an_hour(decision: ApprovalDecision)
    ensures
        decision is Temporary ==> requests::offered_seconds(decision) == Some(1_800u64),
        !(decision is Temporary) ==> requests::offered_seconds(decision) is None,
{
}

/// The latest choice for a request counts; choices for other requests do not
/// change it.
pub proof fn the_latest_choice_counts(
    choices: Seq<ProcessChoice>,
    choice: ProcessChoice,
    id: Seq<char>,
)
    ensures
        requests::chosen(choices.push(choice)).dom().contains(choice.request_id@),
        requests::chosen(choices.push(choice))[choice.request_id@] == choice.process,
        id != choice.request_id@ ==> (requests::chosen(choices.push(choice)).dom().contains(id)
            <==> requests::chosen(choices).dom().contains(id)),
        id != choice.request_id@ && requests::chosen(choices).dom().contains(id)
            ==> requests::chosen(choices.push(choice))[id] == requests::chosen(choices)[id],
        requests::chosen(Seq::empty()) == Map::<Seq<char>, ProcessIdentity>::empty(),
{
    assert(choices.push(choice).drop_last() =~= choices);
}

/// The process that is offered to hold a grant is the one that was chosen, where
/// it stands in the lineage; else the first of the lineage that is not the
/// service manager.
pub proof fn the_chosen_process_holds_the_grant(
    choices: Map<Seq<char>, ProcessIdentity>,
    id: Seq<char>,
    tree: Seq<ProcessIdentity>,
    k: int,
)
    requires
        0 <= k < tree.len(),
    ensures
        choices.dom().contains(id) && choices[id].pid == tree[k].pid && choices[id].started_at@
            == tree[k].started_at@ && choices[id].executable@ == tree[k].executable@
            ==> requests::holder(choices, id, tree) == Some(choices[id]),
        !choices.dom().contains(id) && !process::is_launchd(tree[k]) && (forall|j: int|
            0 <= j < k ==> process::is_launchd(#[trigger] tree[j])) ==> requests::holder(
            choices,
            id,
            tree,
        ) == Some(tree[k]),
{
    if choices.dom().contains(id) && choices[id].pid == tree[k].pid && choices[id].started_at@
        == tree[k].started_at@ && choices[id].executable@ == tree[k].executable@ {
        assert(process::is_same(choices[id], tree[k]));
        assert(requests::in_lineage(choices[id], tree));
    }
    if !process::is_launchd(tree[k]) && forall|j: int|
        0 <= j < k ==> process::is_launchd(#[trigger] tree[j]) {
        let p = labels::grantable();
        seqs::first_index_meaning(tree, p);
        assert(p(tree[k]));
        let found = seqs::first_index(tree, p)->Some_0;
        if found < k {
            assert(process::is_launchd(tree[found]));
        }
        assert(found == k);
    }
}

/// Every process of a lineage that may hold a grant can be chosen, the oldest
/// ancestor first.
pub proof fn every_process_can_be_chosen(tree: Seq<ProcessIdentity>) -> (at: Seq<int>)
    ensures
        at.len() == requests::offered(tree).len(),
        forall|k: int|
            0 <= k < at.len() ==> 0 <= #[trigger] at[k] < tree.len() && requests::offered(tree)[k]
                == tree[at[k]] && !process::is_launchd(tree[at[k]]),
        forall|j: int, k: int| 0 <= j < k < at.len() ==> #[trigger] at[j] > #[trigger] at[k],
        forall|i: int|
            0 <= i < tree.len() && !process::is_launchd(#[trigger] tree[i]) ==> requests::offered(
                tree,
            ).contains(tree[i]),
{
    let p = labels::grantable();
    let kept = tree.filter(p);
    let offered = requests::offered(tree);
    let found = seqs::filtered_positions(tree, p);
    let at = found.reverse();
    assert forall|k: int| 0 <= k < at.len() implies 0 <= #[trigger] at[k] < tree.len()
        && offered[k] == tree[at[k]] && !process::is_launchd(tree[at[k]]) by {
        let m = found.len() - 1 - k;
        assert(at[k] == found[m]);
        assert(kept[m] == tree[found[m]]);
        assert(p(tree[found[m]]));
    }
    assert forall|j: int, k: int| 0 <= j < k < at.len() implies #[trigger] at[j]
        > #[trigger] at[k] by {
        assert(found[found.len() - 1 - k] < found[found.len() - 1 - j]);
    }
    assert forall|i: int|
        0 <= i < tree.len() && !process::is_launchd(#[trigger] tree[i]) implies offered.contains(
        tree[i],
    ) by {
        seqs::filter_keeps(tree, p, i);
        let m = choose|m: int| 0 <= m < kept.len() && #[trigger] kept[m] == tree[i];
        assert(offered[kept.len() - 1 - m] == tree[i]);
    }
    at
}

/// A choice shows every process that can be chosen, by its number, and marks the
/// one that holds the grant.
pub proof fn choices_show_the_processes(
    selector: ProcessSelector,
    request_id: Seq<char>,
    tree: Seq<ProcessIdentity>,
    selected: Option<ProcessIdentity>,
    enabled: bool,
    i: int,
)
    requires
        requests::is_selector(selector, request_id, tree, selected, enabled),
        0 <= i < selector.rows@.len(),
    ensures
        selector.enabled == enabled,
        selector.rows@.len() == requests::offered(tree).len(),
        selector.rows@[i].process == requests::offered(tree)[i],
        selector.rows@[i].depth == i,
        selector.rows@[i].pid_label@ == "PID "@ + numeral::decimal(
            requests::offered(tree)[i].pid as nat,
        ),
        selector.rows@[i].selected <==> selected is Some && selected->Some_0.pid
            == requests::offered(tree)[i].pid && selected->Some_0.started_at@ == requests::offered(
            tree,
        )[i].started_at@ && selected->Some_0.executable@ == requests::offered(tree)[i].executable@,
        selector.summary is Some <==> enabled && selected is Some,
{
    assert(requests::is_row(
        selector.rows@[i],
        request_id,
        requests::offered(tree)[i],
        i,
        seqs::first_where(tree, labels::grantable()),
        selected,
    ));
}

/// A card shows the request that it is for: what is asked for, whether the
/// requester is verified, and what can be answered.
pub proof fn cards_show_their_requests(
    card: RequestCard,
    secret: PendingRequest,
    credentials: PendingAwsCredentialRequest,
    unlocked: bool,
    selected: Option<ProcessIdentity>,
)
    ensures
        requests::is_secret_card(card, secret, unlocked, selected) ==> {
            &&& card.request_id@ == secret.id@
            &&& !card.aws
            &&& card.subject@ == secret.secret@
            &&& card.warned <==> !secret.verified
            &&& card.selector.enabled == secret.verified
            &&& card.buttons@ == requests::secret_buttons(unlocked, secret.verified, selected)
        },
        requests::is_aws_card(card, credentials, unlocked, selected) ==> {
            &&& card.request_id@ == credentials.id@
            &&& card.aws
            &&& card.subject@ == "Profile: "@ + credentials.profile@
            &&& card.warned <==> !credentials.verified
            &&& card.selector.enabled == credentials.verified
            &&& card.buttons@ == requests::aws_buttons(unlocked, selected)
        },
{
}

/// Once a request was answered, its choice is forgotten and the choices for
/// others stay; where the answer was refused, all stay, and the window says why.
pub proof fn answered_requests_are_forgotten(
    state: RequestState,
    id: Seq<char>,
    other: Seq<char>,
    result: Result<(), Seq<char>>,
)
    ensures
        ({
            let after = requests::answered(state, id, result);
            &&& result is Ok ==> {
                &&& after.error is None
                &&& !after.choices.dom().contains(id)
                &&& other != id ==> (after.choices.dom().contains(other)
                    <==> state.choices.dom().contains(other))
                &&& other != id && state.choices.dom().contains(other) ==> after.choices[other]
                    == state.choices[other]
            }
            &&& result matches Err(error) ==> after.error == Some(error) && after.choices
                == state.choices
        }),
{
}

/// Of the first request of each list the one that came first is shown; of two
/// that came together, that for credentials.
pub proof fn the_first_request_comes_first(snapshot: AppSnapshot)
    ensures
        requests::oldest(snapshot) == Oldest::Nothing <==> snapshot.pending@.len() == 0
            && snapshot.pending_aws@.len() == 0,
        snapshot.pending@.len() > 0 && snapshot.pending_aws@.len() == 0 ==> requests::oldest(
            snapshot,
        ) == Oldest::Secret,
        snapshot.pending@.len() == 0 && snapshot.pending_aws@.len() > 0 ==> requests::oldest(
            snapshot,
        ) == Oldest::Aws,
        snapshot.pending@.len() > 0 && snapshot.pending_aws@.len() > 0 ==> (requests::oldest(
            snapshot,
        ) == Oldest::Aws <==> snapshot.pending_aws@[0].requested_at
            <= snapshot.pending@[0].requested_at),
{
}

/// A program is named by what follows the last slash of its path.
pub proof fn programs_are_named_without_their_directory(dir: Seq<char>, name: Seq<char>)
    requires
        !name.contains('/'),
        name.len() > 0,
    ensures
        labels::program_name(dir.push('/') + name) == name,
        labels::program_name(name) == name,
{
    text_laws::the_last_piece_follows_the_last_separator(dir, '/', name);
}

/// A process is named by its program and, as far as they fit into 42 characters,
/// its first two arguments without their directories; dots stand for what is
/// left out.
pub proof fn processes_are_named_by_their_command(
    process: ProcessIdentity,
    program: Seq<char>,
    first: Seq<char>,
    second: Seq<char>,
)
    requires
        text::trimmed(process.command@).len() > 0,
        !program.contains('/') && program.len() > 0,
        !first.contains('/'),
        !second.contains('/'),
    ensures
        text::words(text::trimmed(process.command@)) == seq![program] ==> labels::process_label(
            process,
        ) == program,
        text::words(text::trimmed(process.command@)) == seq![program, first] ==> (
        labels::process_label(process) == if program.len() + first.len() + 1 <= 42 {
            program.push(' ') + first
        } else {
            program + " …"@
        }),
        text::words(text::trimmed(process.command@)) == seq![program, first, second]
            && program.len() + first.len() + 1 <= 42 ==> (labels::process_label(process)
            == if program.len() + first.len() + second.len() + 2 <= 42 {
            program.push(' ') + first.push(' ') + second
        } else {
            program.push(' ') + first + " …"@
        }),
{
    reveal_with_fuel(labels::with_arguments, 3);
    programs_are_named_without_their_directory(Seq::empty(), program);
    text_laws::the_last_piece_follows_the_last_separator(Seq::empty(), '/', first);
    text_laws::the_last_piece_follows_the_last_separator(Seq::empty(), '/', second);
    let parts = text::words(text::trimmed(process.command@));
    if parts == seq![program] {
        assert(labels::arguments_of(parts).len() == 0);
    }
    if parts == seq![program, first] {
        let arguments = labels::arguments_of(parts);
        assert(arguments.len() == 1 && arguments[0] == first);
        assert(parts[0] == program);
    }
    if parts == seq![program, first, second] {
        let arguments = labels::arguments_of(parts);
        assert(arguments.len() == 2 && arguments[0] == first && arguments[1] == second);
        assert(parts[0] == program);
        assert((program.push(' ') + first).push(' ') + second =~= program.push(' ') + first.push(
            ' ',
        ) + second);
    }
}

/// What is shown of a process on demand is its executable, and, on a line of its
/// own, its command line where that says more.
pub proof fn details_show_the_command(process: ProcessIdentity)
    ensures
        process.command@ == process.executable@ || text::trimmed(process.command@).len() == 0
            ==> labels::process_details_text(process) == process.executable@,
        process.command@ != process.executable@ && text::trimmed(process.command@).len() > 0
            ==> labels::process_details_text(process) == process.executable@ + seq!['\n']
            + process.command@,
{
    assert(process.executable@.push('\n') + process.command@ =~= process.executable@ + seq!['\n']
        + process.command@);
}

/// Under the processes stands whom the access will follow, where one is chosen
/// that may hold a grant.
pub proof fn the_holder_is_named_under_the_choice(
    selector: ProcessSelector,
    request_id: Seq<char>,
    tree: Seq<ProcessIdentity>,
    selected: Option<ProcessIdentity>,
    enabled: bool,
)
    requires
        requests::is_selector(selector, request_id, tree, selected, enabled),
    ensures
        selector.summary is Some <==> enabled && selected is Some,
        enabled && selected is Some ==> selector.summary->Some_0@ == "Access will follow "@
            + labels::program_name(selected->Some_0.executable@) + " and its child processes."@,
        selector.enabled == enabled,
        enabled ==> selector.title@ == "Grant boundary"@ && selector.explanation@
            == "Choose which process and its children may reuse this access."@,
        !enabled ==> selector.title@ == "Requesting process"@ && selector.explanation@
            == "This process chain is informational because access can only be allowed once."@,
{
}

/// Denying the oldest request denies the first one of the list: a secret that is
/// not handed out, or credentials that are not.
pub proof fn the_oldest_request_is_denied(
    before: Controller,
    snapshot: AppSnapshot,
    after: Controller,
    i: int,
)
    requires
        before.wf(),
        snapshot.pending@.len() > 0,
        snapshot.pending_aws@.len() == 0 || snapshot.pending@[0].requested_at
            < snapshot.pending_aws@[0].requested_at,
        0 <= i < before.pending@.len(),
        before.pending@[i].id@ == snapshot.pending@[0].id@,
        requests::oldest_denied(before, snapshot, after),
    ensures
        controller_requests::posted(
            before.resolutions@,
            before.pending@[i].id@,
            false,
            after.resolutions@,
        ),
        after.grants.grants@ == before.grants.grants@,
{
    let r = choose|r: Result<(), VaultError>| #[trigger]
        requests::secret_decided(
            before,
            snapshot.pending@[0].id@,
            ApprovalDecision::Deny,
            None,
            after,
            r,
        );
    pressing_deny_denies(before, i, after, r);
}

/// With no request there is nothing to deny.
pub proof fn nothing_is_denied_without_a_request(
    before: Controller,
    snapshot: AppSnapshot,
    after: Controller,
)
    requires
        snapshot.pending@.len() == 0,
        snapshot.pending_aws@.len() == 0,
        requests::oldest_denied(before, snapshot, after),
    ensures
        after == before,
{
}

/// A card says of what kind its request is and, for a secret, whether the process
/// was verified.
pub proof fn cards_say_what_is_requested(
    card: RequestCard,
    secret: PendingRequest,
    credentials: PendingAwsCredentialRequest,
    unlocked: bool,
    selected: Option<ProcessIdentity>,
)
    ensures
        requests::is_secret_card(card, secret, unlocked, selected) ==> {
            &&& card.heading@ == "Secret requested"@
            &&& card.verification is Some
            &&& secret.verified ==> card.verification->Some_0@ == "Process verified"@
            &&& !secret.verified ==> card.verification->Some_0@
                == "Process could not be verified"@
        },
        requests::is_aws_card(card, credentials, unlocked, selected) ==> {
            &&& card.heading@ == "AWS credentials requested"@
            &&& card.verification is None
        },
{
}

} // verus!
