//! How requests for AWS credentials are answered, and what is kept of a session,
//! stated over the requests, the decisions, the denials and the settings
//! themselves.

use vstd::prelude::*;

use crate::aws;
use crate::aws::{
    AwsAccessLevel, AwsConfiguration, AwsDiscoveredAccount, AwsLoginStatus, AwsSettings, AwsTarget,
};
use crate::aws_settings_laws;
use crate::controller;
use crate::controller::{
    AuditAction, AuditRow, AwsCredentialDenial, AwsCredentialGrant, AwsRequestOutcome,
    AwsRequestResolution, Controller, PendingAwsCredentialRequest, PostedAwsResolution,
};
use crate::controller_aws;
use crate::controller_requests;
use crate::process;
use crate::process::ProcessIdentity;
use crate::seqs;
use crate::text;
use crate::vault::{VaultError, VaultFile, VaultPlaintext, VaultStore};

verus! {

/// Whether two identities are of one process.
pub open spec fn one_process(a: ProcessIdentity, b: ProcessIdentity) -> bool {
    &&& a.pid == b.pid
    &&& a.started_at@ == b.started_at@
    &&& a.executable@ == b.executable@
}

/// Whether a decision is about a profile for one process.
pub open spec fn made_for(
    decision: AwsCredentialGrant,
    profile: Seq<char>,
    holder: ProcessIdentity,
) -> bool {
    decision.profile@ == profile && one_process(decision.process, holder)
}

/// Whether a denial holds for a profile and a lineage: it was given for that
/// profile, to a lineage that has a process in common.
pub open spec fn holds_for(
    denial: AwsCredentialDenial,
    profile: Seq<char>,
    tree: Seq<ProcessIdentity>,
) -> bool {
    denial.profile@ == profile && exists|i: int, j: int|
        0 <= i < denial.process_tree@.len() && 0 <= j < tree.len() && one_process(
            #[trigger] denial.process_tree@[i],
            #[trigger] tree[j],
        )
}

/// Whether a denial that has not expired holds for a profile and a lineage.
pub open spec fn is_denied(
    denials: Seq<AwsCredentialDenial>,
    profile: Seq<char>,
    tree: Seq<ProcessIdentity>,
    now: u64,
) -> bool {
    exists|d: int|
        0 <= d < denials.len() && denials[d].expires_at > now && #[trigger] holds_for(
            denials[d],
            profile,
            tree,
        )
}

/// Lineages overlap exactly where they have a process in common.
pub proof fn lineages_overlap_in_a_process(
    left: Seq<ProcessIdentity>,
    right: Seq<ProcessIdentity>,
)
    ensures
        controller::overlap(left, right) <==> exists|i: int, j: int|
            0 <= i < left.len() && 0 <= j < right.len() && one_process(
                #[trigger] left[i],
                #[trigger] right[j],
            ),
{
    if controller::overlap(left, right) {
        let (i, j) = choose|i: int, j: int|
            0 <= i < left.len() && 0 <= j < right.len() && process::is_same(
                #[trigger] left[i],
                #[trigger] right[j],
            );
        assert(one_process(left[i], right[j]));
    }
    if exists|i: int, j: int|
        0 <= i < left.len() && 0 <= j < right.len() && one_process(
            #[trigger] left[i],
            #[trigger] right[j],
        ) {
        let (i, j) = choose|i: int, j: int|
            0 <= i < left.len() && 0 <= j < right.len() && one_process(
                #[trigger] left[i],
                #[trigger] right[j],
            );
        assert(process::is_same(left[i], right[j]));
    }
}

/// A denial holds for its profile and for lineages that overlap with its own.
pub proof fn denials_hold_for_their_lineage(
    denial: AwsCredentialDenial,
    profile: Seq<char>,
    tree: Seq<ProcessIdentity>,
)
    ensures
        controller::denies(denial, profile, tree) <==> holds_for(denial, profile, tree),
{
    lineages_overlap_in_a_process(denial.process_tree@, tree);
}

proof fn blocked_means(
    denials: Seq<AwsCredentialDenial>,
    profile: Seq<char>,
    tree: Seq<ProcessIdentity>,
    now: u64,
)
    ensures
        controller::is_blocked(controller::live_denials(denials, now), profile, tree) <==> is_denied(
            denials,
            profile,
            tree,
            now,
        ),
{
    let p = |d: AwsCredentialDenial| d.expires_at > now;
    let live = controller::live_denials(denials, now);
    assert(live == denials.filter(p));
    let at = seqs::filtered_positions(denials, p);
    let q = |d: AwsCredentialDenial| controller::denies(d, profile, tree);
    assert(controller::is_blocked(live, profile, tree) == seqs::any_where(live, q));
    if seqs::any_where(live, q) {
        let k = choose|k: int| 0 <= k < live.len() && q(#[trigger] live[k]);
        denials_hold_for_their_lineage(live[k], profile, tree);
        assert(live[k] == denials[at[k]]);
        assert(holds_for(denials[at[k]], profile, tree));
    }
    if is_denied(denials, profile, tree, now) {
        let d = choose|d: int|
            0 <= d < denials.len() && denials[d].expires_at > now && #[trigger] holds_for(
                denials[d],
                profile,
                tree,
            );
        seqs::filter_keeps(denials, p, d);
        let k = choose|k: int| 0 <= k < live.len() && #[trigger] live[k] == denials[d];
        denials_hold_for_their_lineage(live[k], profile, tree);
        assert(q(live[k]));
    }
}

/// The decision that answers a request is one about its profile, for a process
/// of its lineage; none is for a nearer process, and none for that process was
/// made later. There is none only where no process of the lineage has one.
pub proof fn the_nearest_and_newest_decision_answers(
    decisions: Seq<AwsCredentialGrant>,
    profile: Seq<char>,
    tree: Seq<ProcessIdentity>,
)
    ensures
        match controller::decision_for(decisions, profile, tree) {
            Some(found) => exists|d: int, i: int|
                {
                    &&& 0 <= d < decisions.len()
                    &&& 0 <= i < tree.len()
                    &&& found == decisions[d]
                    &&& #[trigger] made_for(decisions[d], profile, tree[i])
                    &&& forall|e: int, j: int|
                        0 <= e < decisions.len() && 0 <= j < i ==> !#[trigger] made_for(
                            decisions[e],
                            profile,
                            tree[j],
                        )
                    &&& forall|e: int|
                        d < e < decisions.len() ==> !#[trigger] made_for(
                            decisions[e],
                            profile,
                            tree[i],
                        )
                },
            None => forall|e: int, j: int|
                0 <= e < decisions.len() && 0 <= j < tree.len() ==> !#[trigger] made_for(
                    decisions[e],
                    profile,
                    tree[j],
                ),
        },
    decreases tree.len(),
{
    if tree.len() > 0 {
        let p = controller::decides(profile, tree[0]);
        seqs::last_index_meaning(decisions, p);
        assert forall|e: int| 0 <= e < decisions.len() implies #[trigger] made_for(
            decisions[e],
            profile,
            tree[0],
        ) == p(decisions[e]) by {}
        let rest = tree.skip(1);
        match seqs::last_index(decisions, p) {
            Some(d) => {
                assert(made_for(decisions[d], profile, tree[0]));
            },
            None => {
                the_nearest_and_newest_decision_answers(decisions, profile, rest);
                match controller::decision_for(decisions, profile, rest) {
                    Some(found) => {
                        let (d, i) = choose|d: int, i: int|
                            {
                                &&& 0 <= d < decisions.len()
                                &&& 0 <= i < rest.len()
                                &&& found == decisions[d]
                                &&& #[trigger] made_for(decisions[d], profile, rest[i])
                                &&& forall|e: int, j: int|
                                    0 <= e < decisions.len() && 0 <= j < i ==> !#[trigger] made_for(
                                        decisions[e],
                                        profile,
                                        rest[j],
                                    )
                                &&& forall|e: int|
                                    d < e < decisions.len() ==> !#[trigger] made_for(
                                        decisions[e],
                                        profile,
                                        rest[i],
                                    )
                            };
                        assert(rest[i] == tree[i + 1]);
                        assert(made_for(decisions[d], profile, tree[i + 1]));
                        assert forall|e: int, j: int|
                            0 <= e < decisions.len() && 0 <= j < i + 1 implies !#[trigger] made_for(
                            decisions[e],
                            profile,
                            tree[j],
                        ) by {
                            if j > 0 {
                                assert(rest[j - 1] == tree[j]);
                                assert(!made_for(decisions[e], profile, rest[j - 1]));
                            }
                        }
                        assert forall|e: int| d < e < decisions.len() implies !#[trigger] made_for(
                            decisions[e],
                            profile,
                            tree[i + 1],
                        ) by {
                            assert(!made_for(decisions[e], profile, rest[i]));
                        }
                    },
                    None => {
                        assert forall|e: int, j: int|
                            0 <= e < decisions.len() && 0 <= j
                                < tree.len() implies !#[trigger] made_for(
                            decisions[e],
                            profile,
                            tree[j],
                        ) by {
                            if j > 0 {
                                assert(rest[j - 1] == tree[j]);
                                assert(!made_for(decisions[e], profile, rest[j - 1]));
                            }
                        }
                    },
                }
            },
        }
    }
}

/// What is kept of the decisions is exactly those that have not expired and
/// whose process still runs, in their order.
pub proof fn ended_decisions_are_forgotten(
    decisions: Seq<AwsCredentialGrant>,
    alive: Seq<bool>,
    now: u64,
) -> (at: Seq<int>)
    requires
        alive.len() == decisions.len(),
    ensures
        at.len() == controller_aws::pruned(decisions, alive, now).len(),
        forall|k: int|
            0 <= k < at.len() ==> 0 <= #[trigger] at[k] < decisions.len()
                && controller_aws::pruned(decisions, alive, now)[k] == decisions[at[k]]
                && decisions[at[k]].expires_at > now && alive[at[k]],
        forall|j: int, k: int| 0 <= j < k < at.len() ==> #[trigger] at[j] < #[trigger] at[k],
        forall|i: int|
            0 <= i < decisions.len() && (#[trigger] decisions[i]).expires_at > now && alive[i]
                ==> at.contains(i),
    decreases decisions.len(),
{
    if decisions.len() == 0 {
        Seq::empty()
    } else {
        let rest = decisions.drop_last();
        let before = ended_decisions_are_forgotten(rest, alive.drop_last(), now);
        let last = decisions.len() - 1;
        let at = if decisions.last().expires_at > now && alive.last() {
            before.push(last)
        } else {
            before
        };
        let kept = controller_aws::pruned(decisions, alive, now);
        assert forall|k: int| 0 <= k < at.len() implies 0 <= #[trigger] at[k] < decisions.len()
            && kept[k] == decisions[at[k]] && decisions[at[k]].expires_at > now && alive[at[k]] by {
            if k < before.len() {
                assert(at[k] == before[k]);
                assert(rest[before[k]] == decisions[before[k]]);
            }
        }
        assert forall|i: int|
            0 <= i < decisions.len() && (#[trigger] decisions[i]).expires_at > now
                && alive[i] implies at.contains(i) by {
            if i < last {
                assert(rest[i] == decisions[i]);
                assert(before.contains(i));
                let k = before.index_of(i);
                assert(at[k] == i);
            } else {
                assert(at[at.len() - 1] == last);
            }
        }
        at
    }
}

/// Whether a decision of some level answers a request: one that has not expired,
/// about the profile, for a process of the lineage that still runs, with no such
/// decision for a nearer process and no later one for that process.
pub open spec fn answers(
    decisions: Seq<AwsCredentialGrant>,
    alive: Seq<bool>,
    profile: Seq<char>,
    tree: Seq<ProcessIdentity>,
    now: u64,
    d: int,
    i: int,
) -> bool {
    &&& 0 <= d < decisions.len()
    &&& 0 <= i < tree.len()
    &&& counts(decisions, alive, now, d)
    &&& made_for(decisions[d], profile, tree[i])
    &&& forall|e: int, j: int|
        0 <= e < decisions.len() && 0 <= j < i && #[trigger] counts(decisions, alive, now, e)
            ==> !#[trigger] made_for(decisions[e], profile, tree[j])
    &&& forall|e: int|
        d < e < decisions.len() && #[trigger] counts(decisions, alive, now, e) ==> !made_for(
            decisions[e],
            profile,
            tree[i],
        )
}

/// Whether a decision has not expired and its process still runs.
pub open spec fn counts(
    decisions: Seq<AwsCredentialGrant>,
    alive: Seq<bool>,
    now: u64,
    d: int,
) -> bool {
    decisions[d].expires_at > now && alive[d]
}

proof fn answer_means(
    decisions: Seq<AwsCredentialGrant>,
    alive: Seq<bool>,
    profile: Seq<char>,
    tree: Seq<ProcessIdentity>,
    now: u64,
)
    requires
        alive.len() == decisions.len(),
    ensures
        match controller::decision_for(
            controller_aws::pruned(decisions, alive, now),
            profile,
            tree,
        ) {
            Some(found) => exists|d: int, i: int| #[trigger]
                answers(decisions, alive, profile, tree, now, d, i) && found == decisions[d],
            None => forall|d: int, i: int| !#[trigger]
                answers(decisions, alive, profile, tree, now, d, i),
        },
{
    let kept = controller_aws::pruned(decisions, alive, now);
    let at = ended_decisions_are_forgotten(decisions, alive, now);
    the_nearest_and_newest_decision_answers(kept, profile, tree);
    match controller::decision_for(kept, profile, tree) {
        Some(found) => {
            let (k, i) = choose|k: int, i: int|
                {
                    &&& 0 <= k < kept.len()
                    &&& 0 <= i < tree.len()
                    &&& found == kept[k]
                    &&& #[trigger] made_for(kept[k], profile, tree[i])
                    &&& forall|e: int, j: int|
                        0 <= e < kept.len() && 0 <= j < i ==> !#[trigger] made_for(
                            kept[e],
                            profile,
                            tree[j],
                        )
                    &&& forall|e: int|
                        k < e < kept.len() ==> !#[trigger] made_for(kept[e], profile, tree[i])
                };
            let d = at[k];
            assert forall|e: int, j: int|
                0 <= e < decisions.len() && 0 <= j < i && #[trigger] counts(
                    decisions,
                    alive,
                    now,
                    e,
                ) implies !#[trigger] made_for(decisions[e], profile, tree[j]) by {
                assert(at.contains(e));
                let m = at.index_of(e);
                assert(!made_for(kept[m], profile, tree[j]));
            }
            assert forall|e: int|
                d < e < decisions.len() && #[trigger] counts(
                    decisions,
                    alive,
                    now,
                    e,
                ) implies !made_for(decisions[e], profile, tree[i]) by {
                assert(at.contains(e));
                let m = at.index_of(e);
                assert(at[m] == e);
                assert(m > k) by {
                    if m < k {
                        assert(at[m] < at[k]);
                    }
                }
                assert(!made_for(kept[m], profile, tree[i]));
            }
            assert(answers(decisions, alive, profile, tree, now, d, i));
        },
        None => {
            assert forall|d: int, i: int| !#[trigger]
                answers(decisions, alive, profile, tree, now, d, i) by {
                if answers(decisions, alive, profile, tree, now, d, i) {
                    assert(at.contains(d));
                    let m = at.index_of(d);
                    assert(!made_for(kept[m], profile, tree[i]));
                }
            }
        },
    }
}

/// Whether a request for credentials waits behind the others that were asked
/// under another identifier.
pub open spec fn now_waits(
    before: Seq<PendingAwsCredentialRequest>,
    id: Seq<char>,
    profile: Seq<char>,
    tree: Seq<ProcessIdentity>,
    verified: bool,
    now: u64,
    after: Seq<PendingAwsCredentialRequest>,
) -> bool {
    &&& after.len() > 0
    &&& after.last().id@ == id
    &&& after.last().profile@ == profile
    &&& after.last().verified == verified
    &&& after.last().process_tree@ == tree
    &&& after.last().origin == tree[0]
    &&& after.last().requested_at == now
    &&& forall|j: int|
        0 <= j < before.len() && (#[trigger] before[j]).id@ != id ==> after.contains(before[j])
    &&& forall|j: int|
        0 <= j < after.len() - 1 ==> (#[trigger] after[j]).id@ != id && before.contains(after[j])
}

proof fn queued_means(
    before: Seq<PendingAwsCredentialRequest>,
    request: PendingAwsCredentialRequest,
    id: Seq<char>,
    profile: Seq<char>,
    tree: Seq<ProcessIdentity>,
    verified: bool,
    now: u64,
)
    requires
        controller_aws::is_aws_request(request, id, profile, tree, verified, now),
    ensures
        now_waits(
            before,
            id,
            profile,
            tree,
            verified,
            now,
            controller::queued_aws(before, request),
        ),
{
    let p = |p: PendingAwsCredentialRequest| p.id@ != request.id@;
    let kept = before.filter(p);
    let after = controller::queued_aws(before, request);
    assert(after == kept.push(request));
    let at = seqs::filtered_positions(before, p);
    assert forall|j: int|
        0 <= j < before.len() && (#[trigger] before[j]).id@ != id implies after.contains(
        before[j],
    ) by {
        seqs::filter_keeps(before, p, j);
        let k = choose|k: int| 0 <= k < kept.len() && #[trigger] kept[k] == before[j];
        assert(after[k] == before[j]);
    }
    assert forall|j: int| 0 <= j < after.len() - 1 implies (#[trigger] after[j]).id@ != id
        && before.contains(after[j]) by {
        assert(after[j] == kept[j]);
        assert(kept[j] == before[at[j]]);
    }
}

/// Whether a profile can be used with what an open vault keeps.
pub open spec fn is_configured(store: VaultStore, profile: Seq<char>) -> bool {
    &&& store.data->Some_0.aws is Some
    &&& exists|t: int|
        0 <= t < store.data->Some_0.aws->Some_0.targets@.len() && (
        #[trigger] store.data->Some_0.aws->Some_0.targets@[t]).profile@ == profile
}

proof fn configured_means(store: VaultStore, profile: Seq<char>)
    ensures
        controller_aws::profile_error(store, profile) is None <==> is_configured(store, profile),
{
    if let Some(settings) = store.data->Some_0.aws {
        aws_settings_laws::profiles_select_their_targets(settings.targets@, profile);
    }
}

/// A request for credentials is answered at once with a denial where it is
/// verified and a denial that has not expired holds for it; with a refusal where
/// the vault is open and the profile is not configured; and with the level of
/// the decision that answers it where it is verified and the vault is open,
/// which the record tells of. Every other request is put to a person.
pub proof fn requests_for_credentials_are_answered(
    before: Controller,
    asked: Seq<char>,
    profile: Seq<char>,
    process_tree: Seq<ProcessIdentity>,
    verified: bool,
    alive: Seq<bool>,
    id: Seq<char>,
    now: u64,
    after: Controller,
    r: Result<AwsRequestOutcome, VaultError>,
)
    requires
        before.wf(),
        alive.len() == before.aws_process_decisions@.len(),
        controller::normalized_profile(asked) == Ok::<Seq<char>, Seq<char>>(profile),
        process::without_clients(process_tree).len() > 0,
        controller_aws::begin_aws_outcome(
            before,
            asked,
            process_tree,
            verified,
            alive,
            id,
            now,
            after,
            r,
        ),
    ensures
        ({
            let tree = process::without_clients(process_tree);
            let open = before.vault.data is Some;
            let denied = verified && is_denied(before.aws_process_denials@, profile, tree, now);
            let missing = open && !is_configured(before.vault, profile);
            let decided = open && verified && exists|d: int, i: int| #[trigger]
                answers(before.aws_process_decisions@, alive, profile, tree, now, d, i);
            &&& denied ==> r is Ok && r->Ok_0 is Denied && after.audit == before.audit
                && after.pending_aws == before.pending_aws
            &&& !denied && missing ==> r is Err && after.audit == before.audit
                && after.pending_aws == before.pending_aws
            &&& !denied && !missing && decided ==> {
                &&& exists|d: int, i: int| #[trigger]
                    answers(before.aws_process_decisions@, alive, profile, tree, now, d, i) && r
                        == Ok::<AwsRequestOutcome, VaultError>(
                        AwsRequestOutcome::Immediate(before.aws_process_decisions@[d].level),
                    )
                &&& controller_requests::one_more(before.audit@, after.audit@)
                &&& controller_requests::tells(
                    after.audit@.last(),
                    now,
                    AuditAction::AutoGranted,
                    "aws/"@ + profile,
                    None,
                    tree[0],
                )
                &&& after.pending_aws == before.pending_aws
            }
            &&& !denied && !missing && !decided ==> {
                &&& r matches Ok(AwsRequestOutcome::Pending { id: given }) && given@ == id
                &&& now_waits(
                    before.pending_aws@,
                    id,
                    profile,
                    tree,
                    verified,
                    now,
                    after.pending_aws@,
                )
                &&& after.audit == before.audit
            }
            &&& after.vault == before.vault
            &&& after.grants == before.grants
            &&& after.pending == before.pending
        }),
{
    let tree = process::without_clients(process_tree);
    let decisions = before.aws_process_decisions@;
    blocked_means(before.aws_process_denials@, profile, tree, now);
    configured_means(before.vault, profile);
    answer_means(decisions, alive, profile, tree, now);
    let denied = verified && is_denied(before.aws_process_denials@, profile, tree, now);
    let missing = before.vault.data is Some && !is_configured(before.vault, profile);
    let decided = before.vault.data is Some && verified && exists|d: int, i: int| #[trigger]
        answers(decisions, alive, profile, tree, now, d, i);
    if !denied && !missing {
        if decided {
            controller_requests::lines_are_recorded_behind_the_others(
                before.audit@,
                controller_aws::reused_row(profile, tree[0], now),
                after.audit@,
            );
        } else {
            let request = choose|request: PendingAwsCredentialRequest| #[trigger]
                controller_aws::is_aws_request(request, id, profile, tree, verified, now)
                    && after.pending_aws@ == controller::queued_aws(before.pending_aws@, request);
            queued_means(before.pending_aws@, request, id, profile, tree, verified, now);
        }
    }
}

/// The profile that is meant is what was asked for without the white space
/// around it, where that can be an alias.
pub proof fn profiles_are_meant_without_white_space(asked: Seq<char>)
    ensures
        match controller::normalized_profile(asked) {
            Ok(profile) => profile == text::trimmed(asked) && aws::is_profile(profile),
            Err(_) => !aws::is_profile(text::trimmed(asked)),
        },
{
}

proof fn asked_request(pending: Seq<PendingAwsCredentialRequest>, id: Seq<char>, i: int)
    requires
        controller::distinct_aws(pending),
        0 <= i < pending.len(),
        pending[i].id@ == id,
    ensures
        controller::pending_aws_index(pending, id) == Some(i),
{
    let p = controller::has_aws_id(id);
    seqs::first_index_meaning(pending, p);
    assert(p(pending[i]));
    let k = seqs::first_index(pending, p)->Some_0;
    assert(pending[k].id@ == pending[i].id@);
}

/// Whether an answer to a request for credentials was posted behind the others.
pub open spec fn posted(
    before: Seq<PostedAwsResolution>,
    id: Seq<char>,
    resolution: AwsRequestResolution,
    after: Seq<PostedAwsResolution>,
) -> bool {
    &&& after.len() == before.len() + 1
    &&& after.last().id@ == id
    &&& after.last().resolution == resolution
    &&& forall|i: int|
        0 <= i < before.len() ==> (#[trigger] after[i]).id@ == before[i].id@ && after[i].resolution
            == before[i].resolution
}

proof fn posts_are_kept(
    before: Seq<PostedAwsResolution>,
    id: Seq<char>,
    resolution: AwsRequestResolution,
    after: Seq<PostedAwsResolution>,
)
    requires
        controller::aws_posts(after) == controller::aws_posts(before).push((id, resolution)),
    ensures
        posted(before, id, resolution, after),
{
    let was = controller::aws_posts(before);
    let is = controller::aws_posts(after);
    assert(is.len() == after.len() && was.len() == before.len());
    assert(is[before.len() as int] == (
        after[before.len() as int].id@,
        after[before.len() as int].resolution,
    ));
    assert forall|i: int| 0 <= i < before.len() implies (#[trigger] after[i]).id@ == before[i].id@
        && after[i].resolution == before[i].resolution by {
        assert(is[i] == was[i]);
    }
}

/// Whether the denial of a request is remembered: for its profile and for the
/// processes of its lineage but the service manager, for half an hour, in place
/// of the denials that held for it.
pub open spec fn remembered(
    before: Seq<AwsCredentialDenial>,
    request: PendingAwsCredentialRequest,
    id: String,
    now: u64,
    after: Seq<AwsCredentialDenial>,
) -> bool {
    &&& after.len() > 0
    &&& after.last().id == id
    &&& after.last().profile == request.profile
    &&& after.last().process == request.origin
    &&& after.last().created_at == now
    &&& now + 1_800_000 <= u64::MAX ==> after.last().expires_at == now + 1_800_000
    &&& forall|i: int|
        0 <= i < request.process_tree@.len() && !process::is_launchd(
            #[trigger] request.process_tree@[i],
        ) ==> after.last().process_tree@.contains(request.process_tree@[i])
    &&& forall|k: int|
        0 <= k < after.last().process_tree@.len() ==> request.process_tree@.contains(
            #[trigger] after.last().process_tree@[k],
        ) && !process::is_launchd(after.last().process_tree@[k])
    &&& only_lifted(before, request, after.drop_last())
}

/// Whether of the denials exactly those that held for a request are gone.
pub open spec fn only_lifted(
    before: Seq<AwsCredentialDenial>,
    request: PendingAwsCredentialRequest,
    after: Seq<AwsCredentialDenial>,
) -> bool {
    &&& forall|i: int|
        0 <= i < before.len() && !holds_for(
            #[trigger] before[i],
            request.profile@,
            request.process_tree@,
        ) ==> after.contains(before[i])
    &&& forall|k: int|
        0 <= k < after.len() ==> before.contains(#[trigger] after[k]) && !holds_for(
            after[k],
            request.profile@,
            request.process_tree@,
        )
}

proof fn lifted_means(before: Seq<AwsCredentialDenial>, request: PendingAwsCredentialRequest)
    ensures
        only_lifted(
            before,
            request,
            controller::unblocked(before, request.profile@, request.process_tree@),
        ),
{
    let profile = request.profile@;
    let tree = request.process_tree@;
    let p = |d: AwsCredentialDenial| !controller::denies(d, profile, tree);
    let after = controller::unblocked(before, profile, tree);
    assert(after == before.filter(p));
    let at = seqs::filtered_positions(before, p);
    assert forall|i: int|
        0 <= i < before.len() && !holds_for(#[trigger] before[i], profile, tree) implies after.contains(
        before[i],
    ) by {
        denials_hold_for_their_lineage(before[i], profile, tree);
        seqs::filter_keeps(before, p, i);
        let k = choose|k: int| 0 <= k < after.len() && #[trigger] after[k] == before[i];
        assert(after.contains(before[i]));
    }
    assert forall|k: int| 0 <= k < after.len() implies before.contains(#[trigger] after[k])
        && !holds_for(after[k], profile, tree) by {
        assert(after[k] == before[at[k]]);
        denials_hold_for_their_lineage(after[k], profile, tree);
    }
}

proof fn remembered_means(
    before: Seq<AwsCredentialDenial>,
    request: PendingAwsCredentialRequest,
    id: String,
    now: u64,
    after: Seq<AwsCredentialDenial>,
)
    requires
        controller::denial_remembered(before, request, id, now, after),
    ensures
        request.verified ==> remembered(before, request, id, now, after),
        !request.verified ==> after == before,
{
    if request.verified {
        let denial = choose|denial: AwsCredentialDenial| #[trigger]
            controller::is_denial_of(denial, request, id, now) && after == controller::unblocked(
                before,
                request.profile@,
                request.process_tree@,
            ).push(denial);
        lifted_means(before, request);
        assert(after.drop_last() =~= controller::unblocked(
            before,
            request.profile@,
            request.process_tree@,
        ));
        let tree = request.process_tree@;
        let p = |p: ProcessIdentity| !process::is_launchd(p);
        let kept = controller::bounding(tree);
        assert(kept == tree.filter(p));
        let at = seqs::filtered_positions(tree, p);
        assert forall|i: int|
            0 <= i < tree.len() && !process::is_launchd(#[trigger] tree[i]) implies kept.contains(
            tree[i],
        ) by {
            seqs::filter_keeps(tree, p, i);
            let k = choose|k: int| 0 <= k < kept.len() && #[trigger] kept[k] == tree[i];
            assert(kept.contains(tree[i]));
        }
        assert forall|k: int| 0 <= k < kept.len() implies tree.contains(#[trigger] kept[k])
            && !process::is_launchd(kept[k]) by {
            assert(kept[k] == tree[at[k]]);
        }
    }
}

/// A denied request for credentials is answered with a denial, which is
/// remembered where the requester is verified; the record tells of it. No
/// decision is made.
pub proof fn denied_credentials_are_refused(
    before: Controller,
    i: int,
    grant_process: Option<ProcessIdentity>,
    ttl_seconds: Option<u64>,
    new_id: String,
    now: u64,
    after: Controller,
    r: Result<(), VaultError>,
)
    requires
        before.wf(),
        0 <= i < before.pending_aws@.len(),
        controller_aws::respond_aws_outcome(
            before,
            before.pending_aws@[i].id@,
            None,
            grant_process,
            ttl_seconds,
            new_id,
            now,
            after,
            r,
        ),
    ensures
        ({
            let request = before.pending_aws@[i];
            &&& r is Ok
            &&& posted(
                before.aws_resolutions@,
                request.id@,
                AwsRequestResolution::Denied,
                after.aws_resolutions@,
            )
            &&& after.pending_aws@ == before.pending_aws@.remove(i)
            &&& after.aws_process_decisions == before.aws_process_decisions
            &&& request.verified ==> remembered(
                before.aws_process_denials@,
                request,
                new_id,
                now,
                after.aws_process_denials@,
            )
            &&& !request.verified ==> after.aws_process_denials@ == before.aws_process_denials@
            &&& controller_requests::one_more(before.audit@, after.audit@)
            &&& controller_requests::tells(
                after.audit@.last(),
                now,
                AuditAction::Denied,
                "aws/"@ + request.profile@,
                if request.verified {
                    Some(1_800)
                } else {
                    None
                },
                request.origin,
            )
            &&& after.vault == before.vault
            &&& after.grants == before.grants
        }),
{
    let request = before.pending_aws@[i];
    asked_request(before.pending_aws@, request.id@, i);
    posts_are_kept(
        before.aws_resolutions@,
        request.id@,
        AwsRequestResolution::Denied,
        after.aws_resolutions@,
    );
    remembered_means(
        before.aws_process_denials@,
        request,
        new_id,
        now,
        after.aws_process_denials@,
    );
    controller_requests::lines_are_recorded_behind_the_others(
        before.audit@,
        controller_aws::aws_decision_row(
            request,
            AuditAction::Denied,
            controller_aws::denial_seconds(request),
            request.origin,
            now,
        ),
        after.audit@,
    );
}

/// Whether of the decisions those about a profile for one process are gone and
/// the others are left.
pub open spec fn only_replaced(
    before: Seq<AwsCredentialGrant>,
    profile: Seq<char>,
    holder: ProcessIdentity,
    after: Seq<AwsCredentialGrant>,
) -> bool {
    &&& forall|i: int|
        0 <= i < before.len() && !made_for(#[trigger] before[i], profile, holder) ==> after.contains(
            before[i],
        )
    &&& forall|k: int|
        0 <= k < after.len() ==> before.contains(#[trigger] after[k]) && !made_for(
            after[k],
            profile,
            holder,
        )
}

proof fn replaced_means(before: Seq<AwsCredentialGrant>, decision: AwsCredentialGrant)
    ensures
        controller::decided(before, decision).len() > 0,
        controller::decided(before, decision).last() == decision,
        only_replaced(
            before,
            decision.profile@,
            decision.process,
            controller::decided(before, decision).drop_last(),
        ),
{
    let p = |d: AwsCredentialGrant|
        d.profile@ != decision.profile@ || !process::is_same(d.process, decision.process);
    let kept = before.filter(p);
    let after = controller::decided(before, decision);
    assert(after == kept.push(decision));
    assert(after.drop_last() =~= kept);
    let at = seqs::filtered_positions(before, p);
    assert forall|i: int|
        0 <= i < before.len() && !made_for(
            #[trigger] before[i],
            decision.profile@,
            decision.process,
        ) implies kept.contains(before[i]) by {
        seqs::filter_keeps(before, p, i);
        let k = choose|k: int| 0 <= k < kept.len() && #[trigger] kept[k] == before[i];
        assert(kept.contains(before[i]));
    }
    assert forall|k: int| 0 <= k < kept.len() implies before.contains(#[trigger] kept[k])
        && !made_for(kept[k], decision.profile@, decision.process) by {
        assert(kept[k] == before[at[k]]);
        assert(p(before[at[k]]));
    }
}

/// An approved request for credentials is answered with an approval of the very
/// level that was chosen. Where the requester is verified, a decision of that
/// level is made for the chosen process of its lineage, from now for the chosen
/// time, or half an hour, and the denials that held for the request are lifted.
/// An unverified requester is allowed once. The record tells of either. A locked
/// vault, a profile that is not configured, a process that may not bound a
/// decision and a time that is too long are refused.
pub proof fn approved_credentials_are_of_the_chosen_level(
    before: Controller,
    i: int,
    level: AwsAccessLevel,
    grant_process: Option<ProcessIdentity>,
    ttl_seconds: Option<u64>,
    new_id: String,
    now: u64,
    after: Controller,
    r: Result<(), VaultError>,
)
    requires
        before.wf(),
        0 <= i < before.pending_aws@.len(),
        controller_aws::respond_aws_outcome(
            before,
            before.pending_aws@[i].id@,
            Some(level),
            grant_process,
            ttl_seconds,
            new_id,
            now,
            after,
            r,
        ),
    ensures
        ({
            let request = before.pending_aws@[i];
            let seconds = match ttl_seconds {
                Some(seconds) => seconds,
                None => 1_800,
            };
            let wanted = controller_requests::meant(request.origin, grant_process);
            let usable = before.vault.data is Some && is_configured(
                before.vault,
                request.profile@,
            );
            let bounded = !process::is_launchd(wanted) && exists|k: int| #[trigger]
                controller_requests::stands_for(wanted, request.process_tree@, k);
            &&& r is Ok <==> usable && (!request.verified || 1 <= seconds <= 3_600 && bounded)
            &&& r is Err ==> after == before
            &&& r is Ok ==> {
                &&& posted(
                    before.aws_resolutions@,
                    request.id@,
                    AwsRequestResolution::Approved(level),
                    after.aws_resolutions@,
                )
                &&& after.pending_aws@ == before.pending_aws@.remove(i)
                &&& controller_requests::one_more(before.audit@, after.audit@)
                &&& after.vault == before.vault
                &&& after.grants == before.grants
            }
            &&& r is Ok && !request.verified ==> {
                &&& after.aws_process_decisions == before.aws_process_decisions
                &&& after.aws_process_denials == before.aws_process_denials
                &&& controller_requests::tells(
                    after.audit@.last(),
                    now,
                    AuditAction::AllowedOnce,
                    "aws/"@ + request.profile@,
                    None,
                    request.origin,
                )
            }
            &&& r is Ok && request.verified ==> exists|k: int|
                {
                    let holder = request.process_tree@[k];
                    let decisions = after.aws_process_decisions@;
                    &&& #[trigger] controller_requests::stands_for(
                        wanted,
                        request.process_tree@,
                        k,
                    )
                    &&& decisions.len() > 0
                    &&& decisions.last().id == new_id
                    &&& decisions.last().profile == request.profile
                    &&& decisions.last().level == level
                    &&& decisions.last().process == holder
                    &&& decisions.last().created_at == now
                    &&& now + seconds * 1_000 <= u64::MAX ==> decisions.last().expires_at == now
                        + seconds * 1_000
                    &&& only_replaced(
                        before.aws_process_decisions@,
                        request.profile@,
                        holder,
                        decisions.drop_last(),
                    )
                    &&& controller_requests::tells(
                        after.audit@.last(),
                        now,
                        AuditAction::GrantedTemporarily,
                        "aws/"@ + request.profile@,
                        Some(seconds),
                        holder,
                    )
                }
            &&& r is Ok && request.verified ==> only_lifted(
                before.aws_process_denials@,
                request,
                after.aws_process_denials@,
            )
        }),
{
    let request = before.pending_aws@[i];
    let seconds = controller::seconds_or_default(ttl_seconds);
    asked_request(before.pending_aws@, request.id@, i);
    configured_means(before.vault, request.profile@);
    controller_requests::grants_are_bound_to_the_lineage(
        request.process_tree@,
        request.origin,
        grant_process,
    );
    if r is Ok {
        posts_are_kept(
            before.aws_resolutions@,
            request.id@,
            AwsRequestResolution::Approved(level),
            after.aws_resolutions@,
        );
        if request.verified {
            let holder = controller::boundary(
                request.process_tree@,
                request.origin,
                grant_process,
            )->Ok_0;
            controller_requests::lines_are_recorded_behind_the_others(
                before.audit@,
                controller_aws::aws_decision_row(
                    request,
                    AuditAction::GrantedTemporarily,
                    Some(seconds),
                    holder,
                    now,
                ),
                after.audit@,
            );
            replaced_means(
                before.aws_process_decisions@,
                controller_aws::new_decision(new_id, request, level, holder, seconds, now),
            );
            lifted_means(before.aws_process_denials@, request);
        } else {
            controller_requests::lines_are_recorded_behind_the_others(
                before.audit@,
                controller_aws::aws_decision_row(
                    request,
                    AuditAction::AllowedOnce,
                    None,
                    request.origin,
                    now,
                ),
                after.audit@,
            );
        }
    }
}

/// A request for credentials that is given up waits no longer, counts as denied
/// where the requester is verified, and is told of in the record.
pub proof fn unanswered_credentials_count_as_denied(
    before: Controller,
    i: int,
    denial_id: String,
    now: u64,
    after: Controller,
)
    requires
        before.wf(),
        0 <= i < before.pending_aws@.len(),
        controller_aws::timeout_aws_outcome(
            before,
            before.pending_aws@[i].id@,
            denial_id,
            now,
            after,
        ),
    ensures
        ({
            let request = before.pending_aws@[i];
            &&& after.pending_aws@ == before.pending_aws@.remove(i)
            &&& forall|j: int|
                0 <= j < after.aws_resolutions@.len() ==> (
                #[trigger] after.aws_resolutions@[j]).id@ != request.id@
            &&& request.verified ==> remembered(
                before.aws_process_denials@,
                request,
                denial_id,
                now,
                after.aws_process_denials@,
            )
            &&& !request.verified ==> after.aws_process_denials@ == before.aws_process_denials@
            &&& after.aws_process_decisions == before.aws_process_decisions
            &&& controller_requests::one_more(before.audit@, after.audit@)
            &&& controller_requests::tells(
                after.audit@.last(),
                now,
                AuditAction::TimedOut,
                "aws/"@ + request.profile@,
                if request.verified {
                    Some(1_800)
                } else {
                    None
                },
                request.origin,
            )
        }),
{
    let request = before.pending_aws@[i];
    asked_request(before.pending_aws@, request.id@, i);
    remembered_means(
        before.aws_process_denials@,
        request,
        denial_id,
        now,
        after.aws_process_denials@,
    );
    let all = controller::aws_posts(before.aws_resolutions@);
    let left = controller::aws_posts(after.aws_resolutions@);
    controller_requests::without_means(all, request.id@);
    assert forall|j: int| 0 <= j < after.aws_resolutions@.len() implies (
    #[trigger] after.aws_resolutions@[j]).id@ != request.id@ by {
        assert(left[j].0 == after.aws_resolutions@[j].id@);
    }
    controller_requests::lines_are_recorded_behind_the_others(
        before.audit@,
        controller_aws::aws_decision_row(
            request,
            AuditAction::TimedOut,
            controller_aws::denial_seconds(request),
            request.origin,
            now,
        ),
        after.audit@,
    );
}

/// Lifting a denial takes away that one, and the record tells of it.
pub proof fn a_lifted_denial_is_taken_away(
    before: Controller,
    id: Seq<char>,
    now: u64,
    after: Controller,
)
    requires
        controller_aws::unblock_outcome(before, id, now, after),
    ensures
        (forall|j: int|
            0 <= j < before.aws_process_denials@.len() ==> (
            #[trigger] before.aws_process_denials@[j]).id@ != id) ==> after == before,
        (exists|j: int|
            0 <= j < before.aws_process_denials@.len() && (
            #[trigger] before.aws_process_denials@[j]).id@ == id) ==> exists|i: int|
            {
                &&& 0 <= i < before.aws_process_denials@.len()
                &&& (#[trigger] before.aws_process_denials@[i]).id@ == id
                &&& after.aws_process_denials@ == before.aws_process_denials@.remove(i)
                &&& controller_requests::tells(
                    after.audit@.last(),
                    now,
                    AuditAction::Unblocked,
                    "aws/"@ + before.aws_process_denials@[i].profile@,
                    None,
                    before.aws_process_denials@[i].process,
                )
                &&& controller_requests::one_more(before.audit@, after.audit@)
            },
        after.aws_process_decisions == before.aws_process_decisions,
        after.vault == before.vault,
{
    let denials = before.aws_process_denials@;
    let p = controller_aws::is_denial(id);
    seqs::first_index_meaning(denials, p);
    match seqs::first_index(denials, p) {
        Some(i) => {
            assert(denials[i].id@ == id);
            controller_requests::lines_are_recorded_behind_the_others(
                before.audit@,
                (AuditRow {
                    occurred_at: now,
                    action: AuditAction::Unblocked,
                    secret: controller::aws_resource(denials[i].profile@),
                    ttl_seconds: None,
                    process: denials[i].process,
                }),
                after.audit@,
            );
        },
        None => {
            assert forall|j: int| 0 <= j < denials.len() implies (#[trigger] denials[j]).id@
                != id by {
                assert(!p(denials[j]));
            }
        },
    }
}

/// Taking a decision back takes away that one, and the record tells of it.
pub proof fn a_revoked_decision_is_taken_away(
    before: Controller,
    id: Seq<char>,
    now: u64,
    after: Controller,
)
    requires
        controller_aws::revoke_aws_outcome(before, id, now, after),
    ensures
        (forall|j: int|
            0 <= j < before.aws_process_decisions@.len() ==> (
            #[trigger] before.aws_process_decisions@[j]).id@ != id) ==> after == before,
        (exists|j: int|
            0 <= j < before.aws_process_decisions@.len() && (
            #[trigger] before.aws_process_decisions@[j]).id@ == id) ==> exists|i: int|
            {
                &&& 0 <= i < before.aws_process_decisions@.len()
                &&& (#[trigger] before.aws_process_decisions@[i]).id@ == id
                &&& after.aws_process_decisions@ == before.aws_process_decisions@.remove(i)
                &&& controller_requests::tells(
                    after.audit@.last(),
                    now,
                    AuditAction::Revoked,
                    "aws/"@ + before.aws_process_decisions@[i].profile@,
                    None,
                    before.aws_process_decisions@[i].process,
                )
                &&& controller_requests::one_more(before.audit@, after.audit@)
            },
        after.aws_process_denials == before.aws_process_denials,
        after.vault == before.vault,
{
    let decisions = before.aws_process_decisions@;
    let p = controller_aws::is_decision(id);
    seqs::first_index_meaning(decisions, p);
    match seqs::first_index(decisions, p) {
        Some(i) => {
            assert(decisions[i].id@ == id);
            controller_requests::lines_are_recorded_behind_the_others(
                before.audit@,
                controller::revoked_row(
                    controller::aws_resource(decisions[i].profile@),
                    decisions[i].process,
                    now,
                ),
                after.audit@,
            );
        },
        None => {
            assert forall|j: int| 0 <= j < decisions.len() implies (#[trigger] decisions[j]).id@
                != id by {
                assert(!p(decisions[j]));
            }
        },
    }
}

/// An identifier names a decision that carries it and has not expired, or there
/// is none.
pub proof fn live_decisions_are_found(decisions: Seq<AwsCredentialGrant>, id: Seq<char>, now: u64)
    ensures
        match controller_aws::live_decision_index(decisions, id, now) {
            Some(i) => 0 <= i < decisions.len() && decisions[i].id@ == id
                && decisions[i].expires_at > now,
            None => forall|j: int|
                0 <= j < decisions.len() && (#[trigger] decisions[j]).expires_at > now
                    ==> decisions[j].id@ != id,
        },
    decreases decisions.len(),
{
    if decisions.len() > 0 {
        let rest = decisions.drop_last();
        live_decisions_are_found(rest, id, now);
        assert forall|j: int|
            0 <= j < decisions.len() && (#[trigger] decisions[j]).expires_at > now
                && controller_aws::live_decision_index(
                decisions,
                id,
                now,
            ) is None implies decisions[j].id@ != id by {
            if j < rest.len() {
                assert(rest[j] == decisions[j]);
            }
        }
    }
}

/// An extension changes nothing of a decision but its expiry, which moves
/// fifteen minutes on, at most to an hour from now; a decision that has expired
/// is not extended.
pub proof fn extended_decisions_last_longer(
    before: Controller,
    id: Seq<char>,
    now: u64,
    after: Controller,
)
    requires
        controller_aws::extend_aws_outcome(before, id, now, after),
        now + 3_600_000 <= u64::MAX,
    ensures
        (forall|j: int|
            0 <= j < before.aws_process_decisions@.len() && (
            #[trigger] before.aws_process_decisions@[j]).expires_at > now
                ==> before.aws_process_decisions@[j].id@ != id) ==> after == before,
        (exists|j: int|
            0 <= j < before.aws_process_decisions@.len() && (
            #[trigger] before.aws_process_decisions@[j]).expires_at > now
                && before.aws_process_decisions@[j].id@ == id) ==> exists|i: int|
            {
                let was = before.aws_process_decisions@[i];
                let is = after.aws_process_decisions@[i];
                &&& 0 <= i < before.aws_process_decisions@.len()
                &&& (#[trigger] before.aws_process_decisions@[i]).id@ == id
                &&& was.expires_at > now
                &&& after.aws_process_decisions@ == before.aws_process_decisions@.update(i, is)
                &&& is.id == was.id
                &&& is.profile == was.profile
                &&& is.level == was.level
                &&& is.process == was.process
                &&& is.created_at == was.created_at
                &&& is.expires_at == if was.expires_at + 900_000 <= now + 3_600_000 {
                    was.expires_at + 900_000
                } else {
                    now + 3_600_000
                }
            },
        after.aws_process_denials == before.aws_process_denials,
        after.vault == before.vault,
        after.audit == before.audit,
{
    let decisions = before.aws_process_decisions@;
    live_decisions_are_found(decisions, id, now);
    if let Some(i) = controller_aws::live_decision_index(decisions, id, now) {
        assert(decisions[i].id@ == id);
        assert(after.aws_process_decisions@ =~= decisions.update(
            i,
            after.aws_process_decisions@[i],
        ));
    }
}

/// A configuration that is kept has the portal and the region that were given.
/// For the same portal and region the profiles are those that were given, and
/// the session and its accounts stay; for another one nothing of the session
/// and no profile is left. Every decision and denial ends.
pub proof fn configurations_are_kept<
    E: Fn(&VaultPlaintext) -> Result<Vec<u8>, String>,
    W: Fn(&VaultFile) -> Result<(), VaultError>,
>(
    before: Controller,
    configuration: AwsConfiguration,
    nonce: Result<Vec<u8>, VaultError>,
    encode: E,
    write: W,
    after: Controller,
    r: Result<(), VaultError>,
)
    requires
        before.wf(),
        controller_aws::configure_outcome(
            before,
            configuration,
            nonce,
            encode,
            write,
            after,
            r,
        ),
    ensures
        before.vault.data is None ==> r is Err && after == before,
        r is Ok ==> {
            let kept = before.vault.data->Some_0.aws;
            &&& after.vault.data is Some
            &&& after.vault.data->Some_0.aws matches Some(settings)
            &&& settings.start_url@ == configuration.start_url@
            &&& settings.sso_region@ == configuration.sso_region@
            &&& kept is None ==> {
                &&& settings.targets@ == configuration.targets@
                &&& settings.token is None
                &&& settings.registration is None
                &&& settings.discovered_accounts@.len() == 0
            }
            &&& kept matches Some(old_settings) ==> if old_settings.start_url@
                == configuration.start_url@ && old_settings.sso_region@
                == configuration.sso_region@ {
                &&& settings.targets@ == configuration.targets@
                &&& settings.token == old_settings.token
                &&& settings.registration == old_settings.registration
                &&& settings.discovered_accounts@.len() == old_settings.discovered_accounts@.len()
                &&& settings.discovery_complete == old_settings.discovery_complete
            } else {
                &&& settings.targets@.len() == 0
                &&& settings.token is None
                &&& settings.registration is None
                &&& settings.discovered_accounts@.len() == 0
                &&& !settings.discovery_complete
            }
            &&& after.aws_process_decisions@.len() == 0
            &&& after.aws_process_denials@.len() == 0
            &&& after.aws_login is Idle
            &&& after.vault.data->Some_0.secrets@ == before.vault.data->Some_0.secrets@
        },
        after.grants == before.grants,
        after.pending == before.pending,
        after.pending_aws == before.pending_aws,
        after.audit == before.audit,
{
}

/// A session that is kept brings its registration and its tokens, and, where
/// that is asked for, the accounts that it found. The portal, the region, the
/// secrets and, without those accounts, the profiles stay as they are kept.
pub proof fn sessions_are_kept<
    E: Fn(&VaultPlaintext) -> Result<Vec<u8>, String>,
    W: Fn(&VaultFile) -> Result<(), VaultError>,
>(
    before: VaultStore,
    session: AwsSettings,
    include_discovery: bool,
    nonce: Result<Vec<u8>, VaultError>,
    encode: E,
    write: W,
    after: VaultStore,
    r: Result<(), VaultError>,
)
    requires
        before.wf(),
        controller_aws::persist_outcome(
            before,
            session,
            include_discovery,
            nonce,
            encode,
            write,
            after,
            r,
        ),
    ensures
        before.data is None || before.data->Some_0.aws is None ==> r is Err && after == before,
        before.data is Some && before.data->Some_0.aws is Some && (
        before.data->Some_0.aws->Some_0.start_url@ != session.start_url@
            || before.data->Some_0.aws->Some_0.sso_region@ != session.sso_region@) ==> r is Err
            && after == before,
        r is Ok ==> {
            let kept = before.data->Some_0.aws->Some_0;
            &&& after.data is Some
            &&& after.data->Some_0.aws matches Some(settings)
            &&& settings.start_url == kept.start_url
            &&& settings.sso_region == kept.sso_region
            &&& settings.token == session.token
            &&& settings.registration == session.registration
            &&& settings.discovery_complete == if include_discovery {
                session.discovery_complete
            } else {
                kept.discovery_complete
            }
            &&& !include_discovery ==> settings.targets@ == kept.targets@
            &&& settings.discovered_accounts@.len() == if include_discovery {
                session.discovered_accounts@.len()
            } else {
                kept.discovered_accounts@.len()
            }
            &&& after.data->Some_0.secrets@ == before.data->Some_0.secrets@
        },
{
}

/// Whether one of the accounts serves a profile.
pub open spec fn is_served(target: AwsTarget, accounts: Seq<AwsDiscoveredAccount>) -> bool {
    exists|k: int|
        0 <= k < accounts.len() && #[trigger] aws_settings_laws::serves(accounts[k], target)
}

/// Where a session brings the accounts that it found, exactly the profiles that
/// they serve are kept.
pub proof fn profiles_follow_the_found_accounts<
    E: Fn(&VaultPlaintext) -> Result<Vec<u8>, String>,
    W: Fn(&VaultFile) -> Result<(), VaultError>,
>(
    before: VaultStore,
    session: AwsSettings,
    nonce: Result<Vec<u8>, VaultError>,
    encode: E,
    write: W,
    after: VaultStore,
    r: Result<(), VaultError>,
)
    requires
        before.wf(),
        controller_aws::persist_outcome(
            before,
            session,
            true,
            nonce,
            encode,
            write,
            after,
            r,
        ),
        r is Ok,
    ensures
        forall|i: int|
            0 <= i < after.data->Some_0.aws->Some_0.targets@.len()
                ==> before.data->Some_0.aws->Some_0.targets@.contains(
                #[trigger] after.data->Some_0.aws->Some_0.targets@[i],
            ) && is_served(
                after.data->Some_0.aws->Some_0.targets@[i],
                session.discovered_accounts@,
            ),
        forall|i: int|
            0 <= i < before.data->Some_0.aws->Some_0.targets@.len() && is_served(
                #[trigger] before.data->Some_0.aws->Some_0.targets@[i],
                session.discovered_accounts@,
            ) ==> after.data->Some_0.aws->Some_0.targets@.contains(
                before.data->Some_0.aws->Some_0.targets@[i],
            ),
{
    let was = before.data->Some_0.aws->Some_0.targets@;
    let is = after.data->Some_0.aws->Some_0.targets@;
    let accounts = session.discovered_accounts@;
    let p = aws::is_assigned_in(accounts);
    assert(is == was.filter(p));
    let at = seqs::filtered_positions(was, p);
    assert forall|i: int| 0 <= i < is.len() implies was.contains(#[trigger] is[i]) && is_served(
        is[i],
        accounts,
    ) by {
        assert(is[i] == was[at[i]]);
        aws_settings_laws::profiles_are_assigned(is[i], accounts);
    }
    assert forall|i: int|
        0 <= i < was.len() && is_served(#[trigger] was[i], accounts) implies is.contains(was[i]) by {
        aws_settings_laws::profiles_are_assigned(was[i], accounts);
        seqs::filter_keeps(was, p, i);
        let m = choose|m: int| 0 <= m < is.len() && #[trigger] is[m] == was[i];
        assert(is.contains(was[i]));
    }
}

/// A login that ended well is shown as one until its token expires; one that
/// did not is shown with its error, and nothing is kept of it.
pub proof fn logins_are_shown_as_they_ended<
    E: Fn(&VaultPlaintext) -> Result<Vec<u8>, String>,
    W: Fn(&VaultFile) -> Result<(), VaultError>,
>(
    before: Controller,
    result: Result<AwsSettings, String>,
    nonce: Result<Vec<u8>, VaultError>,
    encode: E,
    write: W,
    after: Controller,
)
    requires
        before.wf(),
        controller_aws::complete_outcome(before, result, nonce, encode, write, after),
    ensures
        result matches Err(error) ==> after.vault == before.vault && (
        after.aws_login matches AwsLoginStatus::Failed(shown) && shown@ == error@),
        after.aws_login is LoggedIn || after.aws_login is Failed,
        after.aws_login matches AwsLoginStatus::LoggedIn { expires_at } ==> {
            &&& result matches Ok(session)
            &&& expires_at == match session.token {
                Some(token) => token.access_token_expires_at,
                None => 0,
            }
            &&& after.vault.data is Some
            &&& after.vault.data->Some_0.aws is Some
            &&& after.vault.data->Some_0.aws->Some_0.token == session.token
            &&& after.vault.data->Some_0.aws->Some_0.registration == session.registration
            &&& after.vault.data->Some_0.aws->Some_0.discovered_accounts@.len()
                == session.discovered_accounts@.len()
        },
        after.grants == before.grants,
        after.pending_aws == before.pending_aws,
        after.aws_process_decisions == before.aws_process_decisions,
{
}

/// A login whose discovery failed is shown with the error, but its session is
/// kept where it can be.
pub proof fn a_failed_discovery_keeps_the_session<
    E: Fn(&VaultPlaintext) -> Result<Vec<u8>, String>,
    W: Fn(&VaultFile) -> Result<(), VaultError>,
>(
    before: Controller,
    session: AwsSettings,
    error: Seq<char>,
    nonce: Result<Vec<u8>, VaultError>,
    encode: E,
    write: W,
    after: Controller,
)
    requires
        before.wf(),
        controller_aws::discovery_failure_outcome(
            before,
            session,
            error,
            nonce,
            encode,
            write,
            after,
        ),
    ensures
        after.aws_login matches AwsLoginStatus::Failed(shown) && error.is_prefix_of(shown@) && (
        shown@ == error ==> {
            &&& after.vault.data is Some
            &&& after.vault.data->Some_0.aws is Some
            &&& after.vault.data->Some_0.aws->Some_0.token == session.token
            &&& after.vault.data->Some_0.aws->Some_0.registration == session.registration
            &&& after.vault.data->Some_0.aws->Some_0.targets@
                == before.vault.data->Some_0.aws->Some_0.targets@
        }),
        after.grants == before.grants,
        after.pending_aws == before.pending_aws,
{
    let done = choose|done: Result<(), VaultError>|
        {
            &&& #[trigger] controller_aws::persist_outcome(
                before.vault,
                session,
                false,
                nonce,
                encode,
                write,
                after.vault,
                done,
            )
            &&& controller_aws::shows_failure(
                after.aws_login,
                match done {
                    Ok(_) => error,
                    Err(persist_error) => error + "; the AWS session could not be saved: "@
                        + persist_error.0@,
                },
            )
        };
    reveal_strlit("; the AWS session could not be saved: ");
    if done is Err {
        let shown = error + "; the AWS session could not be saved: "@ + done->Err_0.0@;
        assert(shown.len() > error.len());
        assert(shown.subrange(0, error.len() as int) =~= error);
    }
}

/// A login can be started exactly where none is under way, the vault is open and
/// AWS is configured in settings that may be kept.
pub proof fn logins_can_be_started(controller: Controller)
    requires
        controller.wf(),
    ensures
        controller_aws::login_error(controller) is None <==> {
            &&& !(controller.aws_login is Starting)
            &&& !(controller.aws_login is AwaitingUser)
            &&& !(controller.aws_login is Discovering)
            &&& controller.vault.data is Some
            &&& controller.vault.data->Some_0.aws is Some
            &&& aws::settings_error(controller.vault.data->Some_0.aws->Some_0) is None
        },
{
}

/// A configuration is kept only where it holds up: the portal is an HTTPS
/// address, the region a name, the profiles may be kept, and, as soon as any
/// account is known, every profile is of an account that is known. One that does
/// not hold up changes nothing.
pub proof fn unsound_configurations_are_refused<
    E: Fn(&VaultPlaintext) -> Result<Vec<u8>, String>,
    W: Fn(&VaultFile) -> Result<(), VaultError>,
>(
    before: Controller,
    configuration: AwsConfiguration,
    nonce: Result<Vec<u8>, VaultError>,
    encode: E,
    write: W,
    after: Controller,
    r: Result<(), VaultError>,
)
    requires
        before.wf(),
        before.vault.data is Some && before.vault.key is Some && before.vault.salt is Some,
        controller_aws::configure_outcome(
            before,
            configuration,
            nonce,
            encode,
            write,
            after,
            r,
        ),
    ensures
        ({
            let sound = "https://"@.is_prefix_of(configuration.start_url@)
                && aws_settings_laws::is_plain(configuration.start_url@)
                && aws_settings_laws::may_name(configuration.sso_region@)
                && aws_settings_laws::may_be_targets(configuration.targets@);
            &&& r is Ok ==> sound
            &&& !sound ==> r is Err && after == before
            &&& r is Ok && before.vault.data->Some_0.aws is Some
                && before.vault.data->Some_0.aws->Some_0.discovered_accounts@.len() > 0
                ==> forall|i: int|
                0 <= i < configuration.targets@.len() ==> is_of_known_account(
                    #[trigger] configuration.targets@[i],
                    before.vault.data->Some_0.aws->Some_0.discovered_accounts@,
                )
        }),
{
    let kept = before.vault.data->Some_0.aws;
    let proposed = choose|proposed: AwsSettings| #[trigger]
        controller_aws::is_proposed(proposed, kept, configuration) && match aws::settings_error(
            proposed,
        ) {
            Some(error) => crate::vault::refuses(r, error) && after == before,
            None => exists|settings: AwsSettings|
                {
                    &&& #[trigger] controller_aws::is_configured(settings, kept, configuration)
                    &&& crate::vault::save_aws_outcome(
                        before.vault,
                        settings,
                        nonce,
                        encode,
                        write,
                        after.vault,
                        r,
                    )
                },
        };
    aws_settings_laws::settings_that_may_be_kept(proposed);
    if r is Ok && kept is Some && kept->Some_0.discovered_accounts@.len() > 0 {
        let known = kept->Some_0.discovered_accounts@;
        assert forall|i: int| 0 <= i < configuration.targets@.len() implies is_of_known_account(
            #[trigger] configuration.targets@[i],
            known,
        ) by {
            let target = proposed.targets@[i];
            let k = choose|k: int|
                0 <= k < proposed.discovered_accounts@.len() && aws_settings_laws::serves(
                    #[trigger] proposed.discovered_accounts@[k],
                    target,
                );
            assert(aws::same_account(proposed.discovered_accounts@[k], known[k]));
            assert(known[k].account_id@ == target.account_id@);
        }
    }
}

/// Whether a profile is of one of some accounts.
pub open spec fn is_of_known_account(
    target: AwsTarget,
    accounts: Seq<AwsDiscoveredAccount>,
) -> bool {
    exists|k: int|
        0 <= k < accounts.len() && (#[trigger] accounts[k]).account_id@ == target.account_id@
}

} // verus!
