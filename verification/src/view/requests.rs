//! The window that asks for a decision.

use vstd::prelude::*;
use vstd::string::*;

use crate::aws::AwsAccessLevel;
use crate::controller;
use crate::controller::{
    AppSnapshot, ApprovalDecision, Controller, PendingAwsCredentialRequest, PendingRequest,
};
use crate::controller_aws;
use crate::grants::DEFAULT_GRANT_SECONDS;
use crate::numeral;
use crate::paths;
use crate::process;
use crate::process::ProcessIdentity;
use crate::seqs;
use crate::text;
use crate::vault::VaultError;
use crate::view::labels;

verus! {

/// The process that was chosen to hold the grant of a request.
#[derive(Debug)]
pub struct ProcessChoice {
    pub request_id: String,
    pub process: ProcessIdentity,
}

/// The choices, the latest for each request.
pub open spec fn chosen(choices: Seq<ProcessChoice>) -> Map<Seq<char>, ProcessIdentity>
    decreases choices.len(),
{
    if choices.len() == 0 {
        Map::empty()
    } else {
        chosen(choices.drop_last()).insert(choices.last().request_id@, choices.last().process)
    }
}

/// The test for choices about other requests.
pub open spec fn other_choice(id: Seq<char>) -> spec_fn(ProcessChoice) -> bool {
    |c: ProcessChoice| c.request_id@ != id
}

/// The test for choices about a request.
pub open spec fn choice_for(id: Seq<char>) -> spec_fn(ProcessChoice) -> bool {
    |c: ProcessChoice| c.request_id@ == id
}

proof fn forgetting_a_choice(choices: Seq<ProcessChoice>, id: Seq<char>)
    ensures
        chosen(choices.filter(other_choice(id))) == chosen(choices).remove(id),
    decreases choices.len(),
{
    reveal(Seq::filter);
    let kept = choices.filter(other_choice(id));
    if choices.len() > 0 {
        forgetting_a_choice(choices.drop_last(), id);
        if choices.last().request_id@ != id {
            assert(kept.drop_last() =~= choices.drop_last().filter(other_choice(id)));
        }
    }
    assert(chosen(kept) =~= chosen(choices).remove(id));
}

proof fn finding_a_choice(choices: Seq<ProcessChoice>, id: Seq<char>)
    ensures
        match seqs::last_index(choices, choice_for(id)) {
            Some(i) => chosen(choices).dom().contains(id) && 0 <= i < choices.len() && chosen(
                choices,
            )[id] == choices[i].process,
            None => !chosen(choices).dom().contains(id),
        },
    decreases choices.len(),
{
    if choices.len() > 0 {
        finding_a_choice(choices.drop_last(), id);
    }
}

/// What the window shows beside the requests themselves.
#[derive(Debug)]
pub struct RequestView {
    pub error: Option<String>,
    pub grant_process_choices: Vec<ProcessChoice>,
}

/// What the window shows, as it is spoken of.
pub struct RequestState {
    pub error: Option<Seq<char>>,
    pub choices: Map<Seq<char>, ProcessIdentity>,
}

impl View for RequestView {
    type V = RequestState;

    open spec fn view(&self) -> RequestState {
        RequestState {
            error: paths::given(self.error),
            choices: chosen(self.grant_process_choices@),
        }
    }
}

/// The process that a grant is for: the one that was chosen, where it belongs
/// to the lineage, or else the usual one.
pub open spec fn holder(
    choices: Map<Seq<char>, ProcessIdentity>,
    request_id: Seq<char>,
    tree: Seq<ProcessIdentity>,
) -> Option<ProcessIdentity> {
    if choices.dom().contains(request_id) && in_lineage(choices[request_id], tree) {
        Some(choices[request_id])
    } else {
        labels::default_holder(tree)
    }
}

/// Whether a process belongs to a lineage.
pub open spec fn in_lineage(selected: ProcessIdentity, tree: Seq<ProcessIdentity>) -> bool {
    exists|i: int| 0 <= i < tree.len() && process::is_same(selected, #[trigger] tree[i])
}

/// What the window shows once a decision about a request was tried: what went
/// wrong, or the choice for the request forgotten.
pub open spec fn answered(
    state: RequestState,
    id: Seq<char>,
    result: Result<(), Seq<char>>,
) -> RequestState {
    match result {
        Ok(_) => RequestState { error: None, choices: state.choices.remove(id) },
        Err(error) => RequestState { error: Some(error), ..state },
    }
}

/// The view of a result.
pub open spec fn outcome(result: Result<(), VaultError>) -> Result<(), Seq<char>> {
    match result {
        Ok(_) => Ok(()),
        Err(error) => Err(error.0@),
    }
}

/// How long a grant for a secret lasts that this window gives.
pub open spec fn offered_seconds(decision: ApprovalDecision) -> Option<u64> {
    if decision is Temporary {
        Some(DEFAULT_GRANT_SECONDS)
    } else {
        None
    }
}

/// The outcome of a decision about a request for a secret.
pub open spec fn secret_decided(
    before: Controller,
    id: Seq<char>,
    decision: ApprovalDecision,
    holder: Option<ProcessIdentity>,
    after: Controller,
    r: Result<(), VaultError>,
) -> bool {
    exists|grant_id: String, now: u64|
        #[trigger] controller::respond_outcome(
            before,
            id,
            decision,
            offered_seconds(decision),
            holder,
            grant_id,
            now,
            after,
            r,
        )
}

/// The outcome of a decision about a request for AWS credentials.
pub open spec fn credentials_decided(
    before: Controller,
    id: Seq<char>,
    level: Option<AwsAccessLevel>,
    holder: Option<ProcessIdentity>,
    seconds: Option<u64>,
    after: Controller,
    r: Result<(), VaultError>,
) -> bool {
    exists|new_id: String, now: u64|
        #[trigger] controller_aws::respond_aws_outcome(
            before,
            id,
            level,
            holder,
            seconds,
            new_id,
            now,
            after,
            r,
        )
}

impl RequestView {
    /// Nothing went wrong and nothing was chosen.
    pub fn new() -> (r: Self)
        ensures
            r@ == (RequestState { error: None, choices: Map::empty() }),
    {
        RequestView { error: None, grant_process_choices: Vec::new() }
    }

    fn forget_choice(&mut self, id: &str)
        ensures
            final(self)@ == (RequestState { choices: old(self)@.choices.remove(id@), ..old(self)@ }),
            final(self).error == old(self).error,
    {
        let keep = |c: &ProcessChoice| -> (b: bool)
            ensures
                b == (c.request_id@ != id@),
            { !text::str_eq(c.request_id.as_str(), id) };
        proof {
            forgetting_a_choice(self.grant_process_choices@, id@);
        }
        seqs::retain(&mut self.grant_process_choices, keep, Ghost(other_choice(id@)));
    }

    /// Chooses the process that holds the grant of a request.
    pub fn select_grant_process(&mut self, request_id: String, process: ProcessIdentity)
        ensures
            final(self)@ == (RequestState {
                choices: old(self)@.choices.insert(request_id@, process),
                ..old(self)@
            }),
    {
        self.forget_choice(request_id.as_str());
        let ghost kept = self.grant_process_choices@;
        self.grant_process_choices.push(ProcessChoice { request_id, process });
        assert(self.grant_process_choices@.drop_last() =~= kept);
        assert(self@.choices =~= old(self)@.choices.insert(request_id@, process));
    }

    /// The process that the grant of a request is for.
    pub fn grant_process(&self, request_id: &str, process_tree: &Vec<ProcessIdentity>) -> (r:
        Option<ProcessIdentity>)
        ensures
            r == holder(self@.choices, request_id@, process_tree@),
    {
        let test = |c: &ProcessChoice| -> (b: bool)
            ensures
                b == (c.request_id@ == request_id@),
            { text::str_eq(c.request_id.as_str(), request_id) };
        let found = seqs::last_position(
            &self.grant_process_choices,
            test,
            Ghost(choice_for(request_id@)),
        );
        proof {
            finding_a_choice(self.grant_process_choices@, request_id@);
        }
        match found {
            Some(i) => {
                let selected = self.grant_process_choices[i].process.clone();
                if belongs(&selected, process_tree) {
                    return Some(selected);
                }
            },
            None => {},
        }
        labels::default_grant_process(process_tree)
    }

    /// Takes note of what came of a decision.
    pub fn answered(&mut self, id: &str, result: Result<(), String>)
        ensures
            final(self)@ == self::answered(
                old(self)@,
                id@,
                match result {
                    Ok(_) => Ok(()),
                    Err(error) => Err(error@),
                },
            ),
    {
        match result {
            Ok(_) => {
                self.forget_choice(id);
                self.error = None;
            },
            Err(error) => {
                self.error = Some(error);
            },
        }
    }

    /// Records a decision about a request for a secret.
    pub fn respond_secret(
        &mut self,
        controller: &mut Controller,
        id: &str,
        decision: ApprovalDecision,
        process: Option<ProcessIdentity>,
    ) -> (r: Result<(), VaultError>)
        requires
            old(controller).wf(),
        ensures
            final(controller).wf(),
            secret_decided(*old(controller), id@, decision, process, *final(controller), r),
            final(self)@ == self::answered(old(self)@, id@, outcome(r)),
    {
        let seconds: Option<u64> = if decision == ApprovalDecision::Temporary {
            Some(DEFAULT_GRANT_SECONDS)
        } else {
            None
        };
        let r = controller.respond(id, decision, seconds, process);
        self.note(id, &r);
        r
    }

    /// Records a decision about a request for AWS credentials: a level approves,
    /// none denies.
    pub fn respond_aws(
        &mut self,
        controller: &mut Controller,
        id: &str,
        level: Option<AwsAccessLevel>,
        process: Option<ProcessIdentity>,
    ) -> (r: Result<(), VaultError>)
        requires
            old(controller).wf(),
        ensures
            final(controller).wf(),
            credentials_decided(
                *old(controller),
                id@,
                level,
                process,
                Some(DEFAULT_GRANT_SECONDS),
                *final(controller),
                r,
            ),
            final(self)@ == self::answered(old(self)@, id@, outcome(r)),
    {
        let r = controller.respond_aws(id, level, process, Some(DEFAULT_GRANT_SECONDS));
        self.note(id, &r);
        r
    }

    fn note(&mut self, id: &str, result: &Result<(), VaultError>)
        ensures
            final(self)@ == self::answered(old(self)@, id@, outcome(*result)),
    {
        match result {
            Ok(_) => self.answered(id, Ok(())),
            Err(error) => self.answered(id, Err(error.0.clone())),
        }
    }
}

fn belongs(selected: &ProcessIdentity, tree: &Vec<ProcessIdentity>) -> (r: bool)
    ensures
        r == in_lineage(*selected, tree@),
{
    for i in 0..tree.len()
        invariant
            forall|j: int| 0 <= j < i ==> !process::is_same(*selected, #[trigger] tree@[j]),
    {
        if process::same_process(selected, &tree[i]) {
            return true;
        }
    }
    false
}

/// A process that can be chosen.
#[derive(Debug)]
pub struct ProcessRow {
    pub process: ProcessIdentity,
    /// How far it is set off: each process stands below its parent.
    pub depth: usize,
    pub radio_id: String,
    pub label: String,
    pub details: String,
    pub pid_label: String,
    pub requester: bool,
    pub selected: bool,
}

/// Whether a process is the one that is meant, if any.
pub open spec fn is_meant(meant: Option<ProcessIdentity>, process: ProcessIdentity) -> bool {
    match meant {
        Some(meant) => process::is_same(meant, process),
        None => false,
    }
}

fn meant_by(meant: &Option<ProcessIdentity>, process: &ProcessIdentity) -> (r: bool)
    ensures
        r == is_meant(*meant, *process),
{
    match meant {
        Some(meant) => process::same_process(meant, process),
        None => false,
    }
}

/// Whether a row shows a process of a request.
pub open spec fn is_row(
    row: ProcessRow,
    request_id: Seq<char>,
    process: ProcessIdentity,
    depth: int,
    requester: Option<ProcessIdentity>,
    selected: Option<ProcessIdentity>,
) -> bool {
    let pid = numeral::decimal(process.pid as nat);
    &&& row.process == process
    &&& row.depth == depth
    &&& row.radio_id@ == "grant-process-"@ + request_id + "-"@ + pid
    &&& row.label@ == labels::process_label(process)
    &&& row.details@ == labels::process_details_text(process)
    &&& row.pid_label@ == "PID "@ + pid
    &&& row.requester == is_meant(requester, process)
    &&& row.selected == is_meant(selected, process)
}

fn row_for(
    request_id: &str,
    process: &ProcessIdentity,
    depth: usize,
    requester: &Option<ProcessIdentity>,
    selected: &Option<ProcessIdentity>,
) -> (r: ProcessRow)
    ensures
        is_row(r, request_id@, *process, depth as int, *requester, *selected),
{
    let pid = numeral::u64_text(process.pid as u64);
    let mut radio_id = "grant-process-".to_owned();
    radio_id.append(request_id);
    radio_id.append("-");
    radio_id.append(pid.as_str());
    ProcessRow {
        process: process.clone(),
        depth,
        radio_id,
        label: labels::compact_process_label(process),
        details: labels::process_details(process),
        pid_label: text::concat("PID ", pid.as_str()),
        requester: meant_by(requester, process),
        selected: meant_by(selected, process),
    }
}

/// The choice among the processes of a lineage.
#[derive(Debug)]
pub struct ProcessSelector {
    pub title: &'static str,
    pub explanation: &'static str,
    pub enabled: bool,
    pub rows: Vec<ProcessRow>,
    pub summary: Option<String>,
}

/// The processes that can be chosen: the oldest ancestor first, none that may
/// not hold a grant.
pub open spec fn offered(tree: Seq<ProcessIdentity>) -> Seq<ProcessIdentity> {
    tree.filter(labels::grantable()).reverse()
}

/// What is said about the process that is chosen.
pub open spec fn follow_note(executable: Seq<char>) -> Seq<char> {
    "Access will follow "@ + labels::program_name(executable) + " and its child processes."@
}

/// Whether a choice is offered among the processes of a request.
pub open spec fn is_selector(
    selector: ProcessSelector,
    request_id: Seq<char>,
    tree: Seq<ProcessIdentity>,
    selected: Option<ProcessIdentity>,
    enabled: bool,
) -> bool {
    &&& selector.enabled == enabled
    &&& selector.title@ == if enabled {
        "Grant boundary"@
    } else {
        "Requesting process"@
    }
    &&& selector.explanation@ == if enabled {
        "Choose which process and its children may reuse this access."@
    } else {
        "This process chain is informational because access can only be allowed once."@
    }
    &&& selector.rows@.len() == offered(tree).len()
    &&& forall|i: int|
        0 <= i < selector.rows@.len() ==> is_row(
            #[trigger] selector.rows@[i],
            request_id,
            offered(tree)[i],
            i,
            seqs::first_where(tree, labels::grantable()),
            selected,
        )
    &&& match selected {
        Some(process) if enabled => selector.summary matches Some(words) && words@ == follow_note(
            process.executable@,
        ),
        _ => selector.summary is None,
    }
}

/// The choice among the processes of a request.
pub fn process_grant_selector(
    request_id: &str,
    processes: &Vec<ProcessIdentity>,
    selected: &Option<ProcessIdentity>,
    enabled: bool,
) -> (r: ProcessSelector)
    ensures
        is_selector(r, request_id@, processes@, *selected, enabled),
{
    let mut kept = process::copied(processes);
    let test = |p: &ProcessIdentity| -> (b: bool)
        ensures
            b == !process::is_launchd(*p),
        { !process::is_launchd_process(p) };
    seqs::retain(&mut kept, test, Ghost(labels::grantable()));
    let requester = labels::requester_of(processes);
    let n: usize = kept.len();
    let mut rows: Vec<ProcessRow> = Vec::new();
    for i in 0..n
        invariant
            n == kept@.len(),
            kept@.reverse() == offered(processes@),
            requester == seqs::first_where(processes@, labels::grantable()),
            rows@.len() == i,
            forall|j: int|
                0 <= j < i ==> is_row(
                    #[trigger] rows@[j],
                    request_id@,
                    offered(processes@)[j],
                    j,
                    requester,
                    *selected,
                ),
    {
        let row = row_for(request_id, &kept[n - 1 - i], i, &requester, selected);
        rows.push(row);
    }
    let summary = match selected {
        Some(process) => if enabled {
            let name = labels::program_of(process.executable.as_str());
            let mut words = "Access will follow ".to_owned();
            words.append(name.as_str());
            words.append(" and its child processes.");
            Some(words)
        } else {
            None
        },
        None => None,
    };
    ProcessSelector {
        title: if enabled {
            "Grant boundary"
        } else {
            "Requesting process"
        },
        explanation: if enabled {
            "Choose which process and its children may reuse this access."
        } else {
            "This process chain is informational because access can only be allowed once."
        },
        enabled,
        rows,
        summary,
    }
}

/// What can be answered.
#[derive(Debug)]
pub enum RequestButton {
    Deny,
    AllowOnce,
    /// A grant of the secret for the process.
    Grant(Option<ProcessIdentity>),
    /// A grant of credentials of a level for the process.
    GrantLevel(AwsAccessLevel, Option<ProcessIdentity>),
    OpenMain,
}

/// The decision about a request for a secret that a button stands for. One that
/// is not about secrets denies.
pub open spec fn button_decision(button: RequestButton) -> ApprovalDecision {
    match button {
        RequestButton::AllowOnce => ApprovalDecision::Once,
        RequestButton::Grant(_) => ApprovalDecision::Temporary,
        _ => ApprovalDecision::Deny,
    }
}

/// The level of credentials that a button gives. One that gives none denies.
pub open spec fn button_level(button: RequestButton) -> Option<AwsAccessLevel> {
    match button {
        RequestButton::GrantLevel(level, _) => Some(level),
        _ => None,
    }
}

/// The process that a button gives something to.
pub open spec fn button_holder(button: RequestButton) -> Option<ProcessIdentity> {
    match button {
        RequestButton::Grant(holder) => holder,
        RequestButton::GrantLevel(_, holder) => holder,
        _ => None,
    }
}

fn holder_copy(holder: &Option<ProcessIdentity>) -> (r: Option<ProcessIdentity>)
    ensures
        r == *holder,
{
    match holder {
        Some(holder) => Some(holder.clone()),
        None => None,
    }
}

impl RequestView {
    /// Does what a button on the card of a request stands for. Opening the main
    /// window answers nothing and is left to the caller.
    pub fn press(
        &mut self,
        controller: &mut Controller,
        id: &str,
        aws: bool,
        button: &RequestButton,
    ) -> (r: Option<Result<(), VaultError>>)
        requires
            old(controller).wf(),
        ensures
            final(controller).wf(),
            r is None <==> button is OpenMain,
            match r {
                None => *final(controller) == *old(controller) && final(self)@ == old(self)@,
                Some(done) => {
                    &&& if aws {
                        credentials_decided(
                            *old(controller),
                            id@,
                            button_level(*button),
                            button_holder(*button),
                            Some(DEFAULT_GRANT_SECONDS),
                            *final(controller),
                            done,
                        )
                    } else {
                        secret_decided(
                            *old(controller),
                            id@,
                            button_decision(*button),
                            button_holder(*button),
                            *final(controller),
                            done,
                        )
                    }
                    &&& final(self)@ == self::answered(old(self)@, id@, outcome(done))
                },
            },
    {
        let mut decision = ApprovalDecision::Deny;
        let mut level: Option<AwsAccessLevel> = None;
        let mut holder: Option<ProcessIdentity> = None;
        match button {
            RequestButton::Deny => {},
            RequestButton::AllowOnce => {
                decision = ApprovalDecision::Once;
            },
            RequestButton::Grant(process) => {
                decision = ApprovalDecision::Temporary;
                holder = holder_copy(process);
            },
            RequestButton::GrantLevel(given, process) => {
                level = Some(*given);
                holder = holder_copy(process);
            },
            RequestButton::OpenMain => {
                return None;
            },
        }
        if aws {
            Some(self.respond_aws(controller, id, level, holder))
        } else {
            Some(self.respond_secret(controller, id, decision, holder))
        }
    }
}

/// The words on a button.
pub open spec fn button_words(button: RequestButton) -> Seq<char> {
    match button {
        RequestButton::Deny => "Deny"@,
        RequestButton::AllowOnce => "Allow once"@,
        RequestButton::Grant(_) => "Grant for 30 minutes"@,
        RequestButton::GrantLevel(AwsAccessLevel::ReadOnly, _) => "Grant read-only"@,
        RequestButton::GrantLevel(AwsAccessLevel::Admin, _) => "Grant admin"@,
        RequestButton::OpenMain => "Open secretd to unlock"@,
    }
}

impl RequestButton {
    pub fn label(&self) -> (r: &'static str)
        ensures
            r@ == button_words(*self),
    {
        match self {
            RequestButton::Deny => "Deny",
            RequestButton::AllowOnce => "Allow once",
            RequestButton::Grant(_) => "Grant for 30 minutes",
            RequestButton::GrantLevel(AwsAccessLevel::ReadOnly, _) => "Grant read-only",
            RequestButton::GrantLevel(AwsAccessLevel::Admin, _) => "Grant admin",
            RequestButton::OpenMain => "Open secretd to unlock",
        }
    }
}

/// What can be answered to a request for a secret.
pub open spec fn secret_buttons(
    unlocked: bool,
    verified: bool,
    holder: Option<ProcessIdentity>,
) -> Seq<RequestButton> {
    if unlocked && verified {
        seq![RequestButton::Deny, RequestButton::AllowOnce, RequestButton::Grant(holder)]
    } else if unlocked {
        seq![RequestButton::Deny, RequestButton::AllowOnce]
    } else {
        seq![RequestButton::Deny, RequestButton::OpenMain]
    }
}

/// What can be answered to a request for AWS credentials.
pub open spec fn aws_buttons(unlocked: bool, holder: Option<ProcessIdentity>) -> Seq<RequestButton> {
    if unlocked {
        seq![
            RequestButton::Deny,
            RequestButton::GrantLevel(AwsAccessLevel::ReadOnly, holder),
            RequestButton::GrantLevel(AwsAccessLevel::Admin, holder),
        ]
    } else {
        seq![RequestButton::Deny, RequestButton::OpenMain]
    }
}

/// A request as it is shown.
#[derive(Debug)]
pub struct RequestCard {
    pub request_id: String,
    /// Whether the request is for AWS credentials.
    pub aws: bool,
    pub heading: &'static str,
    pub subject: String,
    /// What is said about the identity of the process.
    pub verification: Option<&'static str>,
    /// Whether the process could not be verified.
    pub warned: bool,
    pub selector: ProcessSelector,
    pub buttons: Vec<RequestButton>,
}

/// Whether a card shows a request for a secret.
pub open spec fn is_secret_card(
    card: RequestCard,
    request: PendingRequest,
    unlocked: bool,
    selected: Option<ProcessIdentity>,
) -> bool {
    &&& card.request_id@ == request.id@
    &&& !card.aws
    &&& card.heading@ == "Secret requested"@
    &&& card.subject@ == request.secret@
    &&& card.verification matches Some(words) && words@ == if request.verified {
        "Process verified"@
    } else {
        "Process could not be verified"@
    }
    &&& card.warned == !request.verified
    &&& is_selector(
        card.selector,
        request.id@,
        request.process_tree@,
        selected,
        request.verified,
    )
    &&& card.buttons@ == secret_buttons(unlocked, request.verified, selected)
}

/// Whether a card shows a request for AWS credentials.
pub open spec fn is_aws_card(
    card: RequestCard,
    request: PendingAwsCredentialRequest,
    unlocked: bool,
    selected: Option<ProcessIdentity>,
) -> bool {
    &&& card.request_id@ == request.id@
    &&& card.aws
    &&& card.heading@ == "AWS credentials requested"@
    &&& card.subject@ == "Profile: "@ + request.profile@
    &&& card.verification is None
    &&& card.warned == !request.verified
    &&& is_selector(
        card.selector,
        request.id@,
        request.process_tree@,
        selected,
        request.verified,
    )
    &&& card.buttons@ == aws_buttons(unlocked, selected)
}

fn copied_holder(holder: &Option<ProcessIdentity>) -> (r: Option<ProcessIdentity>)
    ensures
        r == *holder,
{
    match holder {
        Some(process) => Some(process.clone()),
        None => None,
    }
}

impl RequestView {
    /// A request for a secret as it is shown.
    pub fn render_secret(&self, request: &PendingRequest, unlocked: bool) -> (r: RequestCard)
        ensures
            is_secret_card(
                r,
                *request,
                unlocked,
                holder(self@.choices, request.id@, request.process_tree@),
            ),
    {
        let selected = self.grant_process(request.id.as_str(), &request.process_tree);
        let selector = process_grant_selector(
            request.id.as_str(),
            &request.process_tree,
            &selected,
            request.verified,
        );
        let mut buttons: Vec<RequestButton> = Vec::new();
        buttons.push(RequestButton::Deny);
        if unlocked {
            buttons.push(RequestButton::AllowOnce);
        }
        if unlocked && request.verified {
            buttons.push(RequestButton::Grant(copied_holder(&selected)));
        }
        if !unlocked {
            buttons.push(RequestButton::OpenMain);
        }
        assert(buttons@ =~= secret_buttons(unlocked, request.verified, selected));
        RequestCard {
            request_id: request.id.clone(),
            aws: false,
            heading: "Secret requested",
            subject: request.secret.clone(),
            verification: Some(
                if request.verified {
                    "Process verified"
                } else {
                    "Process could not be verified"
                },
            ),
            warned: !request.verified,
            selector,
            buttons,
        }
    }

    /// A request for AWS credentials as it is shown.
    pub fn render_aws_request(&self, request: &PendingAwsCredentialRequest, unlocked: bool) -> (r:
        RequestCard)
        ensures
            is_aws_card(
                r,
                *request,
                unlocked,
                holder(self@.choices, request.id@, request.process_tree@),
            ),
    {
        let selected = self.grant_process(request.id.as_str(), &request.process_tree);
        let selector = process_grant_selector(
            request.id.as_str(),
            &request.process_tree,
            &selected,
            request.verified,
        );
        let mut buttons: Vec<RequestButton> = Vec::new();
        buttons.push(RequestButton::Deny);
        if unlocked {
            buttons.push(
                RequestButton::GrantLevel(AwsAccessLevel::ReadOnly, copied_holder(&selected)),
            );
            buttons.push(
                RequestButton::GrantLevel(AwsAccessLevel::Admin, copied_holder(&selected)),
            );
        } else {
            buttons.push(RequestButton::OpenMain);
        }
        assert(buttons@ =~= aws_buttons(unlocked, selected));
        RequestCard {
            request_id: request.id.clone(),
            aws: true,
            heading: "AWS credentials requested",
            subject: text::concat("Profile: ", request.profile.as_str()),
            verification: None,
            warned: !request.verified,
            selector,
            buttons,
        }
    }

    /// The request that is shown: the oldest.
    pub fn render(&self, snapshot: &AppSnapshot) -> (r: Option<RequestCard>)
        ensures
            match oldest(*snapshot) {
                Oldest::Aws => r matches Some(card) && is_aws_card(
                    card,
                    snapshot.pending_aws@[0],
                    snapshot.unlocked,
                    holder(
                        self@.choices,
                        snapshot.pending_aws@[0].id@,
                        snapshot.pending_aws@[0].process_tree@,
                    ),
                ),
                Oldest::Secret => r matches Some(card) && is_secret_card(
                    card,
                    snapshot.pending@[0],
                    snapshot.unlocked,
                    holder(
                        self@.choices,
                        snapshot.pending@[0].id@,
                        snapshot.pending@[0].process_tree@,
                    ),
                ),
                Oldest::Nothing => r is None,
            },
    {
        match oldest_request(snapshot) {
            Oldest::Aws => Some(
                self.render_aws_request(&snapshot.pending_aws[0], snapshot.unlocked),
            ),
            Oldest::Secret => Some(self.render_secret(&snapshot.pending[0], snapshot.unlocked)),
            Oldest::Nothing => None,
        }
    }
}

/// Which kind of request has waited longest.
#[derive(Clone, Copy, Debug, PartialEq, Eq, Structural)]
pub enum Oldest {
    Aws,
    Secret,
    Nothing,
}

/// Which of the first requests came first; of two that came together, that for
/// AWS credentials.
pub open spec fn oldest(snapshot: AppSnapshot) -> Oldest {
    if snapshot.pending_aws@.len() > 0 && (snapshot.pending@.len() == 0
        || snapshot.pending_aws@[0].requested_at <= snapshot.pending@[0].requested_at) {
        Oldest::Aws
    } else if snapshot.pending@.len() > 0 {
        Oldest::Secret
    } else {
        Oldest::Nothing
    }
}

pub fn oldest_request(snapshot: &AppSnapshot) -> (r: Oldest)
    ensures
        r == oldest(*snapshot),
{
    if snapshot.pending_aws.len() > 0 && (snapshot.pending.len() == 0
        || snapshot.pending_aws[0].requested_at <= snapshot.pending[0].requested_at) {
        Oldest::Aws
    } else if snapshot.pending.len() > 0 {
        Oldest::Secret
    } else {
        Oldest::Nothing
    }
}

/// Whether the oldest request of a snapshot was denied, where there was one that
/// still waits.
pub open spec fn oldest_denied(
    before: Controller,
    snapshot: AppSnapshot,
    after: Controller,
) -> bool {
    match oldest(snapshot) {
        Oldest::Aws => exists|r: Result<(), VaultError>|
            #[trigger] credentials_decided(
                before,
                snapshot.pending_aws@[0].id@,
                None,
                None,
                None,
                after,
                r,
            ),
        Oldest::Secret => exists|r: Result<(), VaultError>|
            #[trigger] secret_decided(
                before,
                snapshot.pending@[0].id@,
                ApprovalDecision::Deny,
                None,
                after,
                r,
            ),
        Oldest::Nothing => after == before,
    }
}

/// Denies the oldest request.
pub fn deny_oldest_request(controller: &mut Controller, snapshot: &AppSnapshot)
    requires
        old(controller).wf(),
    ensures
        final(controller).wf(),
        oldest_denied(*old(controller), *snapshot, *final(controller)),
{
    match oldest_request(snapshot) {
        Oldest::Aws => {
            let r = controller.respond_aws(snapshot.pending_aws[0].id.as_str(), None, None, None);
            assert(credentials_decided(
                *old(controller),
                snapshot.pending_aws@[0].id@,
                None,
                None,
                None,
                *controller,
                r,
            ));
        },
        Oldest::Secret => {
            let r = controller.respond(
                snapshot.pending[0].id.as_str(),
                ApprovalDecision::Deny,
                None,
                None,
            );
            assert(secret_decided(
                *old(controller),
                snapshot.pending@[0].id@,
                ApprovalDecision::Deny,
                None,
                *controller,
                r,
            ));
        },
        Oldest::Nothing => {},
    }
}

} // verus!
