//! The half of the controller that answers requests for AWS credentials and
//! keeps the AWS settings.

use vstd::prelude::*;

use crate::aws;
use crate::aws::{AwsAccessLevel, AwsConfiguration, AwsLoginStatus, AwsSettings, AwsTarget};
use crate::clock;
use crate::controller;
use crate::controller::{
    AuditAction, AuditRow, AwsCredentialDenial, AwsCredentialGrant, AwsRequestOutcome,
    AwsRequestResolution, Controller, PendingAwsCredentialRequest, PostedAwsResolution,
};
use crate::grants;
use crate::grants::DEFAULT_GRANT_SECONDS;
use crate::process;
use crate::process::ProcessIdentity;
use crate::seqs;
use crate::text;
use crate::vault;
use crate::vault::{VaultError, VaultFile, VaultPlaintext, VaultStore};

verus! {

/// A request is found exactly where one has the identifier.
proof fn found_if_present(pending: Seq<PendingAwsCredentialRequest>, id: Seq<char>)
    ensures
        controller::pending_aws_index(pending, id) is Some <==> exists|i: int|
            0 <= i < pending.len() && (#[trigger] pending[i]).id@ == id,
        controller::pending_aws_index(pending, id) matches Some(i) ==> 0 <= i < pending.len()
            && pending[i].id@ == id,
{
    seqs::first_index_meaning(pending, controller::has_aws_id(id));
}

proof fn distinct_after_remove(pending: Seq<PendingAwsCredentialRequest>, i: int)
    requires
        controller::distinct_aws(pending),
        controller::all_profiles(pending),
        0 <= i < pending.len(),
    ensures
        controller::distinct_aws(pending.remove(i)),
        controller::all_profiles(pending.remove(i)),
{
    let after = pending.remove(i);
    assert forall|a: int, b: int| 0 <= a < b < after.len() implies (#[trigger] after[a]).id@ != (
    #[trigger] after[b]).id@ by {
        let left = if a < i {
            a
        } else {
            a + 1
        };
        let right = if b < i {
            b
        } else {
            b + 1
        };
        assert(after[a] == pending[left] && after[b] == pending[right]);
    }
    assert forall|a: int| 0 <= a < after.len() implies controller::normalized_profile(
        (#[trigger] after[a]).profile@,
    ) == Ok::<Seq<char>, Seq<char>>(after[a].profile@) by {
        let left = if a < i {
            a
        } else {
            a + 1
        };
        assert(after[a] == pending[left]);
    }
}

proof fn distinct_after_queue(
    pending: Seq<PendingAwsCredentialRequest>,
    request: PendingAwsCredentialRequest,
)
    requires
        controller::distinct_aws(pending),
        controller::all_profiles(pending),
        controller::normalized_profile(request.profile@) == Ok::<Seq<char>, Seq<char>>(
            request.profile@,
        ),
    ensures
        controller::distinct_aws(controller::queued_aws(pending, request)),
        controller::all_profiles(controller::queued_aws(pending, request)),
{
    let p = |p: PendingAwsCredentialRequest| p.id@ != request.id@;
    let kept = pending.filter(p);
    let after = controller::queued_aws(pending, request);
    assert(after == kept.push(request));
    let at = seqs::filtered_positions(pending, p);
    assert forall|a: int, b: int| 0 <= a < b < after.len() implies (#[trigger] after[a]).id@ != (
    #[trigger] after[b]).id@ by {
        if b == kept.len() {
            assert(kept[a] == pending[at[a]]);
        } else {
            assert(at[a] < at[b]);
            assert(pending[at[a]].id@ != pending[at[b]].id@);
        }
    }
    assert forall|a: int| 0 <= a < after.len() implies controller::normalized_profile(
        (#[trigger] after[a]).profile@,
    ) == Ok::<Seq<char>, Seq<char>>(after[a].profile@) by {
        if a < kept.len() {
            assert(after[a] == pending[at[a]]);
        }
    }
}

/// The decisions that have not expired at `now` and whose process still runs,
/// as `alive` says of each.
pub open spec fn pruned(
    decisions: Seq<AwsCredentialGrant>,
    alive: Seq<bool>,
    now: u64,
) -> Seq<AwsCredentialGrant>
    decreases decisions.len(),
{
    if decisions.len() == 0 {
        decisions
    } else {
        let before = pruned(decisions.drop_last(), alive.drop_last(), now);
        if decisions.last().expires_at > now && alive.last() {
            before.push(decisions.last())
        } else {
            before
        }
    }
}

/// Whether `inspect` may report that a process runs, or that it does not.
pub open spec fn reported<F: Fn(u32) -> Result<Option<ProcessIdentity>, String>>(
    inspect: F,
    process: ProcessIdentity,
    alive: bool,
) -> bool {
    exists|report: Result<Option<ProcessIdentity>, String>|
        #![trigger process::runs_by(report, process)]
        call_ensures(inspect, (process.pid,), report) && alive == process::runs_by(report, process)
}

/// Whether `alive` says of the process of each decision what `inspect` reports.
pub open spec fn all_reported<F: Fn(u32) -> Result<Option<ProcessIdentity>, String>>(
    inspect: F,
    decisions: Seq<AwsCredentialGrant>,
    alive: Seq<bool>,
) -> bool {
    &&& alive.len() == decisions.len()
    &&& forall|i: int|
        0 <= i < decisions.len() ==> reported(
            inspect,
            (#[trigger] decisions[i]).process,
            alive[i],
        )
}

/// Why a profile cannot be used with what an open vault keeps.
pub open spec fn profile_error(store: VaultStore, profile: Seq<char>) -> Option<Seq<char>> {
    match store.data->Some_0.aws {
        None => Some("AWS SSO is not configured in secretd"@),
        Some(settings) => match aws::target_index(settings.targets@, profile) {
            None => Some(aws::unknown_profile(profile)),
            Some(_) => None,
        },
    }
}

fn check_profile(store: &VaultStore, profile: &str) -> (r: Result<(), VaultError>)
    requires
        vault::is_unlocked(*store),
    ensures
        match profile_error(*store, profile@) {
            Some(error) => vault::refuses(r, error),
            None => r is Ok,
        },
{
    match &store.data {
        None => Ok(()),
        Some(data) => match &data.aws {
            None => Err(vault::vault_error("AWS SSO is not configured in secretd")),
            Some(settings) => match settings.target(profile) {
                Ok(_) => Ok(()),
                Err(error) => Err(VaultError(error)),
            },
        },
    }
}

/// Whether a request is the one that was asked for.
pub open spec fn is_aws_request(
    request: PendingAwsCredentialRequest,
    id: Seq<char>,
    profile: Seq<char>,
    tree: Seq<ProcessIdentity>,
    verified: bool,
    now: u64,
) -> bool {
    &&& request.id@ == id
    &&& request.profile@ == profile
    &&& request.verified == verified
    &&& request.process_tree@ == tree
    &&& request.origin == tree[0]
    &&& request.requested_at == now
}

/// Whether only what has ended was forgotten.
pub open spec fn only_pruned(before: Controller, after: Controller) -> bool {
    after == (Controller {
        aws_process_decisions: after.aws_process_decisions,
        aws_process_denials: after.aws_process_denials,
        ..before
    })
}

/// The line of the record for a decision that answered a request at once.
pub open spec fn reused_row(profile: Seq<char>, origin: ProcessIdentity, now: u64) -> AuditRow {
    AuditRow {
        occurred_at: now,
        action: AuditAction::AutoGranted,
        secret: controller::aws_resource(profile),
        ttl_seconds: None,
        process: origin,
    }
}

/// The outcome of asking for AWS credentials. First what has ended is
/// forgotten; then a remembered denial, a missing profile or an earlier
/// decision answers at once; else a person is asked.
pub open spec fn begin_aws_outcome(
    before: Controller,
    profile: Seq<char>,
    process_tree: Seq<ProcessIdentity>,
    verified: bool,
    alive: Seq<bool>,
    id: Seq<char>,
    now: u64,
    after: Controller,
    r: Result<AwsRequestOutcome, VaultError>,
) -> bool {
    let tree = process::without_clients(process_tree);
    let decisions = pruned(before.aws_process_decisions@, alive, now);
    let denials = controller::live_denials(before.aws_process_denials@, now);
    let unlocked = vault::is_unlocked(before.vault);
    match controller::normalized_profile(profile) {
        Err(error) => vault::refuses(r, error) && after == before,
        Ok(profile) => {
            &&& after.aws_process_decisions@ == decisions
            &&& after.aws_process_denials@ == denials
            &&& if tree.len() == 0 {
                vault::refuses(r, "Unable to determine the requesting process"@) && only_pruned(
                    before,
                    after,
                )
            } else if verified && controller::is_blocked(denials, profile, tree) {
                r == Ok::<AwsRequestOutcome, VaultError>(AwsRequestOutcome::Denied)
                    && only_pruned(before, after)
            } else if unlocked && profile_error(before.vault, profile) is Some {
                vault::refuses(r, profile_error(before.vault, profile)->Some_0) && only_pruned(
                    before,
                    after,
                )
            } else if unlocked && verified && controller::decision_for(
                decisions,
                profile,
                tree,
            ) is Some {
                &&& r == Ok::<AwsRequestOutcome, VaultError>(
                    AwsRequestOutcome::Immediate(
                        controller::decision_for(decisions, profile, tree)->Some_0.level,
                    ),
                )
                &&& controller::line_recorded(
                    before.audit@,
                    reused_row(profile, tree[0], now),
                    after.audit@,
                )
                &&& after == (Controller {
                    aws_process_decisions: after.aws_process_decisions,
                    aws_process_denials: after.aws_process_denials,
                    audit: after.audit,
                    ..before
                })
            } else {
                &&& r matches Ok(AwsRequestOutcome::Pending { id: given }) && given@ == id
                &&& exists|request: PendingAwsCredentialRequest|
                    #[trigger] is_aws_request(request, id, profile, tree, verified, now)
                        && after.pending_aws@ == controller::queued_aws(
                        before.pending_aws@,
                        request,
                    )
                &&& controller::aws_posts(after.aws_resolutions@) == controller::posts_without(
                    controller::aws_posts(before.aws_resolutions@),
                    id,
                )
                &&& after == (Controller {
                    aws_process_decisions: after.aws_process_decisions,
                    aws_process_denials: after.aws_process_denials,
                    pending_aws: after.pending_aws,
                    aws_resolutions: after.aws_resolutions,
                    ..before
                })
            }
        },
    }
}

/// The line of the record for a request for AWS credentials that was decided.
pub open spec fn aws_decision_row(
    request: PendingAwsCredentialRequest,
    action: AuditAction,
    ttl_seconds: Option<u64>,
    holder: ProcessIdentity,
    now: u64,
) -> AuditRow {
    AuditRow {
        occurred_at: now,
        action,
        secret: controller::aws_resource(request.profile@),
        ttl_seconds,
        process: holder,
    }
}

/// Whether the request at `i` was decided: it no longer waits, its answer is
/// posted, the record tells of it, and nothing else but the decisions and
/// denials changed.
pub open spec fn aws_request_decided(
    before: Controller,
    i: int,
    resolution: AwsRequestResolution,
    line: AuditRow,
    after: Controller,
) -> bool {
    let request = before.pending_aws@[i];
    &&& after.pending_aws@ == before.pending_aws@.remove(i)
    &&& controller::aws_posts(after.aws_resolutions@) == controller::aws_posts(
        before.aws_resolutions@,
    ).push((request.id@, resolution))
    &&& controller::line_recorded(before.audit@, line, after.audit@)
    &&& after == (Controller {
        pending_aws: after.pending_aws,
        aws_resolutions: after.aws_resolutions,
        audit: after.audit,
        aws_process_decisions: after.aws_process_decisions,
        aws_process_denials: after.aws_process_denials,
        ..before
    })
}

/// How long a denial is remembered, where it is.
pub open spec fn denial_seconds(request: PendingAwsCredentialRequest) -> Option<u64> {
    if request.verified {
        Some(DEFAULT_GRANT_SECONDS)
    } else {
        None
    }
}

/// The decision that an approval makes.
pub open spec fn new_decision(
    id: String,
    request: PendingAwsCredentialRequest,
    level: AwsAccessLevel,
    holder: ProcessIdentity,
    seconds: u64,
    now: u64,
) -> AwsCredentialGrant {
    AwsCredentialGrant {
        id,
        profile: request.profile,
        level,
        process: holder,
        created_at: now,
        expires_at: grants::after(now, seconds),
    }
}

/// The outcome of an approval (with a level) or a denial (without one).
pub open spec fn respond_aws_outcome(
    before: Controller,
    id: Seq<char>,
    level: Option<AwsAccessLevel>,
    grant_process: Option<ProcessIdentity>,
    ttl_seconds: Option<u64>,
    new_id: String,
    now: u64,
    after: Controller,
    r: Result<(), VaultError>,
) -> bool {
    match controller::pending_aws_index(before.pending_aws@, id) {
        None => vault::refuses(r, "Request is no longer pending"@) && after == before,
        Some(i) => {
            let request = before.pending_aws@[i];
            let seconds = controller::seconds_or_default(ttl_seconds);
            match level {
                None => {
                    &&& r is Ok
                    &&& aws_request_decided(
                        before,
                        i,
                        AwsRequestResolution::Denied,
                        aws_decision_row(
                            request,
                            AuditAction::Denied,
                            denial_seconds(request),
                            request.origin,
                            now,
                        ),
                        after,
                    )
                    &&& after.aws_process_decisions == before.aws_process_decisions
                    &&& controller::denial_remembered(
                        before.aws_process_denials@,
                        request,
                        new_id,
                        now,
                        after.aws_process_denials@,
                    )
                },
                Some(level) => if !vault::is_unlocked(before.vault) {
                    vault::refuses(r, "Vault is locked"@) && after == before
                } else if profile_error(before.vault, request.profile@) is Some {
                    vault::refuses(r, profile_error(before.vault, request.profile@)->Some_0)
                        && after == before
                } else if !request.verified {
                    &&& r is Ok
                    &&& aws_request_decided(
                        before,
                        i,
                        AwsRequestResolution::Approved(level),
                        aws_decision_row(
                            request,
                            AuditAction::AllowedOnce,
                            None,
                            request.origin,
                            now,
                        ),
                        after,
                    )
                    &&& after.aws_process_decisions == before.aws_process_decisions
                    &&& after.aws_process_denials == before.aws_process_denials
                } else if !grants::valid_seconds(seconds) {
                    vault::refuses(r, grants::duration_message()) && after == before
                } else {
                    match controller::boundary(
                        request.process_tree@,
                        request.origin,
                        grant_process,
                    ) {
                        Err(error) => vault::refuses(r, error) && after == before,
                        Ok(holder) => {
                            &&& r is Ok
                            &&& aws_request_decided(
                                before,
                                i,
                                AwsRequestResolution::Approved(level),
                                aws_decision_row(
                                    request,
                                    AuditAction::GrantedTemporarily,
                                    Some(seconds),
                                    holder,
                                    now,
                                ),
                                after,
                            )
                            &&& after.aws_process_decisions@ == controller::decided(
                                before.aws_process_decisions@,
                                new_decision(new_id, request, level, holder, seconds, now),
                            )
                            &&& after.aws_process_denials@ == controller::unblocked(
                                before.aws_process_denials@,
                                request.profile@,
                                request.process_tree@,
                            )
                        },
                    }
                },
            }
        },
    }
}

/// Whether a request that nobody answered was given up. A verified one counts
/// as denied, and the denial goes by `denial_id`.
pub open spec fn timeout_aws_outcome(
    before: Controller,
    id: Seq<char>,
    denial_id: String,
    now: u64,
    after: Controller,
) -> bool {
    &&& controller::aws_posts(after.aws_resolutions@) == controller::posts_without(
        controller::aws_posts(before.aws_resolutions@),
        id,
    )
    &&& match controller::pending_aws_index(before.pending_aws@, id) {
        None => after == (Controller { aws_resolutions: after.aws_resolutions, ..before }),
        Some(i) => {
            let request = before.pending_aws@[i];
            &&& after.pending_aws@ == before.pending_aws@.remove(i)
            &&& controller::denial_remembered(
                before.aws_process_denials@,
                request,
                denial_id,
                now,
                after.aws_process_denials@,
            )
            &&& controller::line_recorded(
                before.audit@,
                aws_decision_row(
                    request,
                    AuditAction::TimedOut,
                    denial_seconds(request),
                    request.origin,
                    now,
                ),
                after.audit@,
            )
            &&& after == (Controller {
                pending_aws: after.pending_aws,
                aws_resolutions: after.aws_resolutions,
                aws_process_denials: after.aws_process_denials,
                audit: after.audit,
                ..before
            })
        },
    }
}

/// The position of a denial.
pub open spec fn denial_index(denials: Seq<AwsCredentialDenial>, id: Seq<char>) -> Option<int> {
    seqs::first_index(denials, is_denial(id))
}

/// The test for the denial with an identifier.
pub open spec fn is_denial(id: Seq<char>) -> spec_fn(AwsCredentialDenial) -> bool {
    |d: AwsCredentialDenial| d.id@ == id
}

/// The position of a decision.
pub open spec fn decision_index(decisions: Seq<AwsCredentialGrant>, id: Seq<char>) -> Option<int> {
    seqs::first_index(decisions, is_decision(id))
}

/// The test for the decision with an identifier.
pub open spec fn is_decision(id: Seq<char>) -> spec_fn(AwsCredentialGrant) -> bool {
    |d: AwsCredentialGrant| d.id@ == id
}

/// The position of a decision that has not expired.
pub open spec fn live_decision_index(
    decisions: Seq<AwsCredentialGrant>,
    id: Seq<char>,
    now: u64,
) -> Option<int> {
    seqs::first_index(decisions, |d: AwsCredentialGrant| d.id@ == id && d.expires_at > now)
}

/// Whether a denial was lifted, and the record tells of it.
pub open spec fn unblock_outcome(
    before: Controller,
    id: Seq<char>,
    now: u64,
    after: Controller,
) -> bool {
    match denial_index(before.aws_process_denials@, id) {
        None => after == before,
        Some(i) => {
            let denial = before.aws_process_denials@[i];
            &&& after.aws_process_denials@ == before.aws_process_denials@.remove(i)
            &&& controller::line_recorded(
                before.audit@,
                (AuditRow {
                    occurred_at: now,
                    action: AuditAction::Unblocked,
                    secret: controller::aws_resource(denial.profile@),
                    ttl_seconds: None,
                    process: denial.process,
                }),
                after.audit@,
            )
            &&& after == (Controller {
                aws_process_denials: after.aws_process_denials,
                audit: after.audit,
                ..before
            })
        },
    }
}

/// Whether a decision was taken back, and the record tells of it.
pub open spec fn revoke_aws_outcome(
    before: Controller,
    id: Seq<char>,
    now: u64,
    after: Controller,
) -> bool {
    match decision_index(before.aws_process_decisions@, id) {
        None => after == before,
        Some(i) => {
            let decision = before.aws_process_decisions@[i];
            &&& after.aws_process_decisions@ == before.aws_process_decisions@.remove(i)
            &&& controller::line_recorded(
                before.audit@,
                controller::revoked_row(
                    controller::aws_resource(decision.profile@),
                    decision.process,
                    now,
                ),
                after.audit@,
            )
            &&& after == (Controller {
                aws_process_decisions: after.aws_process_decisions,
                audit: after.audit,
                ..before
            })
        },
    }
}

/// Whether a decision that has not expired lasts longer.
pub open spec fn extend_aws_outcome(
    before: Controller,
    id: Seq<char>,
    now: u64,
    after: Controller,
) -> bool {
    match live_decision_index(before.aws_process_decisions@, id, now) {
        None => after == before,
        Some(i) => {
            let decision = before.aws_process_decisions@[i];
            &&& after.aws_process_decisions@ == before.aws_process_decisions@.update(
                i,
                (AwsCredentialGrant {
                    expires_at: grants::extended(decision.expires_at, now),
                    ..decision
                }),
            )
            &&& after == (Controller {
                aws_process_decisions: after.aws_process_decisions,
                ..before
            })
        },
    }
}

impl Controller {
    fn pending_aws_position(&self, id: &str) -> (r: Option<usize>)
        ensures
            match r {
                Some(i) => controller::pending_aws_index(self.pending_aws@, id@) == Some(i as int)
                    && i < self.pending_aws@.len() && self.pending_aws@[i as int].id@ == id@,
                None => controller::pending_aws_index(self.pending_aws@, id@) is None,
            },
    {
        proof {
            found_if_present(self.pending_aws@, id@);
        }
        let test = |p: &PendingAwsCredentialRequest| -> (b: bool)
            ensures
                b == (p.id@ == id@),
            { text::str_eq(p.id.as_str(), id) };
        seqs::position(&self.pending_aws, test, Ghost(controller::has_aws_id(id@)))
    }

    fn drop_aws_posts(&mut self, id: &str)
        ensures
            controller::aws_posts(final(self).aws_resolutions@) == controller::posts_without(
                controller::aws_posts(old(self).aws_resolutions@),
                id@,
            ),
            *final(self) == (Controller {
                aws_resolutions: final(self).aws_resolutions,
                ..*old(self)
            }),
    {
        proof {
            controller::views_of_filtered_aws_posts(self.aws_resolutions@, id@);
        }
        let keep = |p: &PostedAwsResolution| -> (b: bool)
            ensures
                b == (p.id@ != id@),
            { !text::str_eq(p.id.as_str(), id) };
        seqs::retain(&mut self.aws_resolutions, keep, Ghost(controller::other_aws_post(id@)));
    }

    /// Fetches the answer to a request for AWS credentials, if there is one
    /// yet.
    pub fn take_aws_resolution(&mut self, id: &str) -> (r: Option<AwsRequestResolution>)
        ensures
            ({
                let found = seqs::first_index(
                    old(self).aws_resolutions@,
                    |p: PostedAwsResolution| p.id@ == id@,
                );
                match found {
                    Some(i) => {
                        &&& r == Some(old(self).aws_resolutions@[i].resolution)
                        &&& final(self).aws_resolutions@ == old(self).aws_resolutions@.remove(i)
                    },
                    None => r is None && final(self).aws_resolutions@ == old(self).aws_resolutions@,
                }
            }),
            *final(self) == (Controller {
                aws_resolutions: final(self).aws_resolutions,
                ..*old(self)
            }),
    {
        let test = |p: &PostedAwsResolution| -> (b: bool)
            ensures
                b == (p.id@ == id@),
            { text::str_eq(p.id.as_str(), id) };
        let found = seqs::position(
            &self.aws_resolutions,
            test,
            Ghost(|p: PostedAwsResolution| p.id@ == id@),
        );
        match found {
            Some(i) => {
                let posted = self.aws_resolutions.remove(i);
                Some(posted.resolution)
            },
            None => None,
        }
    }

    /// Which processes of the decisions still run.
    fn living<F: Fn(u32) -> Result<Option<ProcessIdentity>, String>>(&self, inspect: &F) -> (r: Vec<
        bool,
    >)
        requires
            forall|number: u32| call_requires(*inspect, (number,)),
        ensures
            all_reported(*inspect, self.aws_process_decisions@, r@),
    {
        let mut r: Vec<bool> = Vec::new();
        for i in 0..self.aws_process_decisions.len()
            invariant
                forall|number: u32| call_requires(*inspect, (number,)),
                r@.len() == i,
                forall|j: int|
                    0 <= j < i ==> reported(
                        *inspect,
                        (#[trigger] self.aws_process_decisions@[j]).process,
                        r@[j],
                    ),
        {
            r.push(process::process_is_alive(&self.aws_process_decisions[i].process, inspect));
        }
        r
    }

    /// Forgets decisions that have expired and those whose process has ended.
    pub fn prune_exited_aws_grants<F: Fn(u32) -> Result<Option<ProcessIdentity>, String>>(
        &mut self,
        inspect: &F,
    )
        requires
            old(self).wf(),
            forall|number: u32| call_requires(*inspect, (number,)),
        ensures
            final(self).wf(),
            exists|alive: Seq<bool>, now: u64|
                all_reported(*inspect, old(self).aws_process_decisions@, alive) && final(self).aws_process_decisions@ == #[trigger] pruned(
                    old(self).aws_process_decisions@,
                    alive,
                    now,
                ),
            *final(self) == (Controller {
                aws_process_decisions: final(self).aws_process_decisions,
                ..*old(self)
            }),
    {
        let alive = self.living(inspect);
        self.prune_aws_grants_at(&alive, clock::now_millis());
    }

    pub fn prune_aws_grants_at(&mut self, alive: &Vec<bool>, now: u64)
        requires
            alive@.len() == old(self).aws_process_decisions@.len(),
        ensures
            final(self).aws_process_decisions@ == pruned(
                old(self).aws_process_decisions@,
                alive@,
                now,
            ),
            *final(self) == (Controller {
                aws_process_decisions: final(self).aws_process_decisions,
                ..*old(self)
            }),
    {
        let ghost all = self.aws_process_decisions@;
        let mut i: usize = 0;
        assert(all.take(0) =~= Seq::<AwsCredentialGrant>::empty());
        assert(alive@.take(0) =~= Seq::<bool>::empty());
        for k in 0..alive.len()
            invariant
                all == old(self).aws_process_decisions@,
                alive@.len() == all.len(),
                i <= k,
                i == pruned(all.take(k as int), alive@.take(k as int), now).len(),
                self.aws_process_decisions@ =~= pruned(
                    all.take(k as int),
                    alive@.take(k as int),
                    now,
                ) + all.skip(k as int),
                *self == (Controller {
                    aws_process_decisions: self.aws_process_decisions,
                    ..*old(self)
                }),
        {
            assert(all.take(k + 1).drop_last() =~= all.take(k as int));
            assert(alive@.take(k + 1).drop_last() =~= alive@.take(k as int));
            assert(self.aws_process_decisions@[i as int] == all[k as int]);
            if self.aws_process_decisions[i].expires_at > now && alive[k] {
                i = i + 1;
            } else {
                let _ = self.aws_process_decisions.remove(i);
            }
        }
        assert(all.take(all.len() as int) =~= all);
        assert(alive@.take(all.len() as int) =~= alive@);
    }

    fn drop_expired_denials(&mut self, now: u64)
        ensures
            final(self).aws_process_denials@ == controller::live_denials(
                old(self).aws_process_denials@,
                now,
            ),
            *final(self) == (Controller {
                aws_process_denials: final(self).aws_process_denials,
                ..*old(self)
            }),
    {
        let keep = |d: &AwsCredentialDenial| -> (b: bool)
            ensures
                b == (d.expires_at > now),
            { d.expires_at > now };
        seqs::retain(
            &mut self.aws_process_denials,
            keep,
            Ghost(|d: AwsCredentialDenial| d.expires_at > now),
        );
    }

    /// Asks for AWS credentials on behalf of a process.
    pub fn begin_aws_request<F: Fn(u32) -> Result<Option<ProcessIdentity>, String>>(
        &mut self,
        profile: &str,
        process_tree: Vec<ProcessIdentity>,
        verified: bool,
        inspect: &F,
    ) -> (r: Result<AwsRequestOutcome, VaultError>)
        requires
            old(self).wf(),
            forall|number: u32| call_requires(*inspect, (number,)),
        ensures
            final(self).wf(),
            exists|alive: Seq<bool>, id: Seq<char>, now: u64|
                all_reported(*inspect, old(self).aws_process_decisions@, alive)
                    && #[trigger] begin_aws_outcome(
                    *old(self),
                    profile@,
                    process_tree@,
                    verified,
                    alive,
                    id,
                    now,
                    *final(self),
                    r,
                ),
    {
        let alive = self.living(inspect);
        self.begin_aws_request_at(
            profile,
            process_tree,
            verified,
            &alive,
            clock::new_id(),
            clock::now_millis(),
        )
    }

    pub fn begin_aws_request_at(
        &mut self,
        profile: &str,
        process_tree: Vec<ProcessIdentity>,
        verified: bool,
        alive: &Vec<bool>,
        id: String,
        now: u64,
    ) -> (r: Result<AwsRequestOutcome, VaultError>)
        requires
            old(self).wf(),
            alive@.len() == old(self).aws_process_decisions@.len(),
        ensures
            final(self).wf(),
            begin_aws_outcome(
                *old(self),
                profile@,
                process_tree@,
                verified,
                alive@,
                id@,
                now,
                *final(self),
                r,
            ),
    {
        let ghost name = profile;
        let profile = match controller::normalize_aws_profile(profile) {
            Ok(profile) => profile,
            Err(error) => {
                return Err(error);
            },
        };
        self.prune_aws_grants_at(alive, now);
        self.drop_expired_denials(now);
        let tree = process::omit_secretd_client_processes(&process_tree);
        if tree.len() == 0 {
            return Err(vault::vault_error("Unable to determine the requesting process"));
        }
        if verified && blocked(&self.aws_process_denials, profile.as_str(), &tree) {
            return Ok(AwsRequestOutcome::Denied);
        }
        if self.vault.unlocked() {
            match check_profile(&self.vault, profile.as_str()) {
                Ok(()) => {},
                Err(error) => {
                    return Err(error);
                },
            }
            if verified {
                let found = controller::find_decision(
                    &self.aws_process_decisions,
                    profile.as_str(),
                    &tree,
                );
                if let Some(decision) = found {
                    self.record_audit(
                        AuditAction::AutoGranted,
                        controller::aws_audit_resource(profile.as_str()),
                        None,
                        tree[0].clone(),
                        now,
                    );
                    return Ok(AwsRequestOutcome::Immediate(decision.level));
                }
            }
        }
        let request = PendingAwsCredentialRequest {
            id: id.clone(),
            profile,
            verified,
            origin: tree[0].clone(),
            process_tree: tree,
            requested_at: now,
        };
        let ghost shown = request;
        let wanted = id.as_str();
        let keep = |p: &PendingAwsCredentialRequest| -> (b: bool)
            ensures
                b == (p.id@ != wanted@),
            { !text::str_eq(p.id.as_str(), wanted) };
        seqs::retain(
            &mut self.pending_aws,
            keep,
            Ghost(|p: PendingAwsCredentialRequest| p.id@ != shown.id@),
        );
        self.pending_aws.push(request);
        self.drop_aws_posts(wanted);
        proof {
            assert(self.pending_aws@ == controller::queued_aws(old(self).pending_aws@, shown));
            assert(is_aws_request(shown, id@, profile@, tree@, verified, now));
            text::trimming_is_stable(name@);
            distinct_after_queue(old(self).pending_aws@, shown);
        }
        Ok(AwsRequestOutcome::Pending { id })
    }

    /// Records a person's decision about a request for AWS credentials: a level
    /// approves, none denies.
    pub fn respond_aws(
        &mut self,
        id: &str,
        level: Option<AwsAccessLevel>,
        grant_process: Option<ProcessIdentity>,
        ttl_seconds: Option<u64>,
    ) -> (r: Result<(), VaultError>)
        requires
            old(self).wf(),
        ensures
            final(self).wf(),
            exists|new_id: String, now: u64|
                #[trigger] respond_aws_outcome(
                    *old(self),
                    id@,
                    level,
                    grant_process,
                    ttl_seconds,
                    new_id,
                    now,
                    *final(self),
                    r,
                ),
    {
        self.respond_aws_at(
            id,
            level,
            grant_process,
            ttl_seconds,
            clock::new_id(),
            clock::now_millis(),
        )
    }

    pub fn respond_aws_at(
        &mut self,
        id: &str,
        level: Option<AwsAccessLevel>,
        grant_process: Option<ProcessIdentity>,
        ttl_seconds: Option<u64>,
        new_id: String,
        now: u64,
    ) -> (r: Result<(), VaultError>)
        requires
            old(self).wf(),
        ensures
            final(self).wf(),
            respond_aws_outcome(
                *old(self),
                id@,
                level,
                grant_process,
                ttl_seconds,
                new_id,
                now,
                *final(self),
                r,
            ),
    {
        let i: usize = match self.pending_aws_position(id) {
            Some(i) => i,
            None => {
                return Err(vault::vault_error("Request is no longer pending"));
            },
        };
        let ghost before = *self;
        let level = match level {
            Some(level) => level,
            None => {
                proof {
                    distinct_after_remove(self.pending_aws@, i as int);
                }
                let request = self.pending_aws.remove(i);
                let ttl: Option<u64> = if request.verified {
                    Some(DEFAULT_GRANT_SECONDS)
                } else {
                    None
                };
                self.remember_aws_denial(&request, new_id, now);
                self.record_audit(
                    AuditAction::Denied,
                    controller::aws_audit_resource(request.profile.as_str()),
                    ttl,
                    request.origin,
                    now,
                );
                self.post_aws(request.id, AwsRequestResolution::Denied);
                return Ok(());
            },
        };
        if !self.vault.unlocked() {
            return Err(vault::vault_error("Vault is locked"));
        }
        match check_profile(&self.vault, self.pending_aws[i].profile.as_str()) {
            Ok(()) => {},
            Err(error) => {
                return Err(error);
            },
        }
        if !self.pending_aws[i].verified {
            proof {
                distinct_after_remove(self.pending_aws@, i as int);
            }
            let request = self.pending_aws.remove(i);
            self.record_audit(
                AuditAction::AllowedOnce,
                controller::aws_audit_resource(request.profile.as_str()),
                None,
                request.origin,
                now,
            );
            self.post_aws(request.id, AwsRequestResolution::Approved(level));
            return Ok(());
        }
        let seconds: u64 = match controller::validated_grant_seconds(ttl_seconds) {
            Ok(seconds) => seconds,
            Err(error) => {
                return Err(error);
            },
        };
        let holder = match controller::validated_grant_process(
            &self.pending_aws[i].process_tree,
            &self.pending_aws[i].origin,
            grant_process,
        ) {
            Ok(holder) => holder,
            Err(error) => {
                return Err(error);
            },
        };
        proof {
            distinct_after_remove(self.pending_aws@, i as int);
        }
        let request = self.pending_aws.remove(i);
        let decision = AwsCredentialGrant {
            id: new_id,
            profile: request.profile.clone(),
            level,
            process: holder.clone(),
            created_at: now,
            expires_at: grants::time_after(now, seconds),
        };
        let replaced = &decision;
        let keep = |d: &AwsCredentialGrant| -> (b: bool)
            ensures
                b == (d.profile@ != replaced.profile@ || !process::is_same(
                    d.process,
                    replaced.process,
                )),
            { d.profile != replaced.profile || !process::same_process(
                &d.process,
                &replaced.process,
            ) };
        seqs::retain(
            &mut self.aws_process_decisions,
            keep,
            Ghost(
                |d: AwsCredentialGrant|
                    d.profile@ != decision.profile@ || !process::is_same(
                        d.process,
                        decision.process,
                    ),
            ),
        );
        self.aws_process_decisions.push(decision);
        self.lift_denials(request.profile.as_str(), &request.process_tree);
        self.record_audit(
            AuditAction::GrantedTemporarily,
            controller::aws_audit_resource(request.profile.as_str()),
            Some(seconds),
            holder,
            now,
        );
        self.post_aws(request.id, AwsRequestResolution::Approved(level));
        Ok(())
    }

    fn lift_denials(&mut self, profile: &str, tree: &Vec<ProcessIdentity>)
        ensures
            final(self).aws_process_denials@ == controller::unblocked(
                old(self).aws_process_denials@,
                profile@,
                tree@,
            ),
            *final(self) == (Controller {
                aws_process_denials: final(self).aws_process_denials,
                ..*old(self)
            }),
    {
        let keep = |d: &AwsCredentialDenial| -> (b: bool)
            ensures
                b == !controller::denies(*d, profile@, tree@),
            {
                !text::str_eq(d.profile.as_str(), profile) || !controller::process_trees_overlap(
                    &d.process_tree,
                    tree,
                )
            };
        seqs::retain(
            &mut self.aws_process_denials,
            keep,
            Ghost(|d: AwsCredentialDenial| !controller::denies(d, profile@, tree@)),
        );
    }

    /// Remembers that a verified request was denied.
    fn remember_aws_denial(
        &mut self,
        request: &PendingAwsCredentialRequest,
        id: String,
        now: u64,
    )
        ensures
            controller::denial_remembered(
                old(self).aws_process_denials@,
                *request,
                id,
                now,
                final(self).aws_process_denials@,
            ),
            *final(self) == (Controller {
                aws_process_denials: final(self).aws_process_denials,
                ..*old(self)
            }),
    {
        if !request.verified {
            return;
        }
        self.lift_denials(request.profile.as_str(), &request.process_tree);
        let mut bounding = process::copied(&request.process_tree);
        let keep = |p: &ProcessIdentity| -> (b: bool)
            ensures
                b == !process::is_launchd(*p),
            { !process::is_launchd_process(p) };
        seqs::retain(
            &mut bounding,
            keep,
            Ghost(|p: ProcessIdentity| !process::is_launchd(p)),
        );
        let denial = AwsCredentialDenial {
            id,
            profile: request.profile.clone(),
            process: request.origin.clone(),
            created_at: now,
            expires_at: grants::time_after(now, DEFAULT_GRANT_SECONDS),
            process_tree: bounding,
        };
        assert(controller::is_denial_of(denial, *request, id, now));
        self.aws_process_denials.push(denial);
    }

    /// Gives up on a request for AWS credentials that nobody answered.
    pub fn timeout_aws_request(&mut self, id: &str)
        requires
            old(self).wf(),
        ensures
            final(self).wf(),
            exists|denial_id: String, now: u64| #[trigger]
                timeout_aws_outcome(*old(self), id@, denial_id, now, *final(self)),
    {
        self.timeout_aws_request_at(id, clock::new_id(), clock::now_millis());
    }

    pub fn timeout_aws_request_at(&mut self, id: &str, denial_id: String, now: u64)
        requires
            old(self).wf(),
        ensures
            final(self).wf(),
            timeout_aws_outcome(*old(self), id@, denial_id, now, *final(self)),
    {
        self.drop_aws_posts(id);
        let i: usize = match self.pending_aws_position(id) {
            Some(i) => i,
            None => {
                return;
            },
        };
        proof {
            distinct_after_remove(self.pending_aws@, i as int);
        }
        let request = self.pending_aws.remove(i);
        let ttl: Option<u64> = if request.verified {
            Some(DEFAULT_GRANT_SECONDS)
        } else {
            None
        };
        self.remember_aws_denial(&request, denial_id, now);
        self.record_audit(
            AuditAction::TimedOut,
            controller::aws_audit_resource(request.profile.as_str()),
            ttl,
            request.origin,
            now,
        );
    }

    /// Lifts a remembered denial.
    pub fn revoke_aws_denial(&mut self, id: &str)
        requires
            old(self).wf(),
        ensures
            final(self).wf(),
            exists|now: u64| #[trigger] unblock_outcome(*old(self), id@, now, *final(self)),
    {
        self.revoke_aws_denial_at(id, clock::now_millis());
    }

    pub fn revoke_aws_denial_at(&mut self, id: &str, now: u64)
        requires
            old(self).wf(),
        ensures
            final(self).wf(),
            unblock_outcome(*old(self), id@, now, *final(self)),
    {
        let test = |d: &AwsCredentialDenial| -> (b: bool)
            ensures
                b == (d.id@ == id@),
            { text::str_eq(d.id.as_str(), id) };
        let found = seqs::position(
            &self.aws_process_denials,
            test,
            Ghost(is_denial(id@)),
        );
        match found {
            None => {},
            Some(i) => {
                let denial = self.aws_process_denials.remove(i);
                self.record_audit(
                    AuditAction::Unblocked,
                    controller::aws_audit_resource(denial.profile.as_str()),
                    None,
                    denial.process,
                    now,
                );
            },
        }
    }

    /// Takes a decision back.
    pub fn revoke_aws_grant(&mut self, id: &str)
        requires
            old(self).wf(),
        ensures
            final(self).wf(),
            exists|now: u64| #[trigger] revoke_aws_outcome(*old(self), id@, now, *final(self)),
    {
        self.revoke_aws_grant_at(id, clock::now_millis());
    }

    pub fn revoke_aws_grant_at(&mut self, id: &str, now: u64)
        requires
            old(self).wf(),
        ensures
            final(self).wf(),
            revoke_aws_outcome(*old(self), id@, now, *final(self)),
    {
        let test = |d: &AwsCredentialGrant| -> (b: bool)
            ensures
                b == (d.id@ == id@),
            { text::str_eq(d.id.as_str(), id) };
        let found = seqs::position(
            &self.aws_process_decisions,
            test,
            Ghost(is_decision(id@)),
        );
        match found {
            None => {},
            Some(i) => {
                let decision = self.aws_process_decisions.remove(i);
                self.record_audit(
                    AuditAction::Revoked,
                    controller::aws_audit_resource(decision.profile.as_str()),
                    None,
                    decision.process,
                    now,
                );
            },
        }
    }

    /// Lets a decision last longer.
    pub fn extend_aws_grant(&mut self, id: &str)
        requires
            old(self).wf(),
        ensures
            final(self).wf(),
            exists|now: u64| #[trigger] extend_aws_outcome(*old(self), id@, now, *final(self)),
    {
        self.extend_aws_grant_at(id, clock::now_millis());
    }

    pub fn extend_aws_grant_at(&mut self, id: &str, now: u64)
        requires
            old(self).wf(),
        ensures
            final(self).wf(),
            extend_aws_outcome(*old(self), id@, now, *final(self)),
    {
        let test = |d: &AwsCredentialGrant| -> (b: bool)
            ensures
                b == (d.id@ == id@ && d.expires_at > now),
            { text::str_eq(d.id.as_str(), id) && d.expires_at > now };
        let found = seqs::position(
            &self.aws_process_decisions,
            test,
            Ghost(|d: AwsCredentialGrant| d.id@ == id@ && d.expires_at > now),
        );
        match found {
            None => {},
            Some(i) => {
                let mut decision = self.aws_process_decisions[i].clone();
                decision.expires_at = grants::extended_expiry(decision.expires_at, now);
                self.aws_process_decisions.set(i, decision);
            },
        }
    }
}

/// Whether settings are what a configuration makes of those that were kept: the
/// same session for the same portal and region, a fresh start for another.
pub open spec fn is_configured(
    settings: AwsSettings,
    kept: Option<AwsSettings>,
    configuration: AwsConfiguration,
) -> bool {
    &&& settings.start_url@ == configuration.start_url@
    &&& settings.sso_region@ == configuration.sso_region@
    &&& match kept {
        None => settings.targets@ == configuration.targets@ && aws::is_fresh(settings),
        Some(kept) => if aws::changes_connection(kept, configuration) {
            settings.targets@.len() == 0 && aws::is_fresh(settings)
        } else {
            &&& settings.targets@ == configuration.targets@
            &&& settings.registration == kept.registration
            &&& settings.token == kept.token
            &&& aws::same_accounts(settings.discovered_accounts@, kept.discovered_accounts@)
            &&& settings.discovery_complete == kept.discovery_complete
        },
    }
}

/// Whether settings, to be checked, are a configuration with what was kept.
pub open spec fn is_proposed(
    settings: AwsSettings,
    kept: Option<AwsSettings>,
    configuration: AwsConfiguration,
) -> bool {
    &&& settings.start_url@ == configuration.start_url@
    &&& settings.sso_region@ == configuration.sso_region@
    &&& settings.targets@ == configuration.targets@
    &&& match kept {
        None => settings.discovered_accounts@.len() == 0,
        Some(kept) => aws::same_accounts(settings.discovered_accounts@, kept.discovered_accounts@),
    }
}

/// The outcome of configuring AWS: what does not hold up is refused; else the
/// settings are kept, and, once they are, every decision and denial is
/// forgotten.
pub open spec fn configure_outcome<
    E: Fn(&VaultPlaintext) -> Result<Vec<u8>, String>,
    W: Fn(&VaultFile) -> Result<(), VaultError>,
>(
    before: Controller,
    configuration: AwsConfiguration,
    nonce: Result<Vec<u8>, VaultError>,
    encode: E,
    write: W,
    after: Controller,
    r: Result<(), VaultError>,
) -> bool {
    if !vault::is_unlocked(before.vault) {
        vault::refuses(r, "Vault is locked"@) && after == before
    } else {
        let kept = before.vault.data->Some_0.aws;
        exists|proposed: AwsSettings| #[trigger]
            is_proposed(proposed, kept, configuration) && match aws::settings_error(proposed) {
                Some(error) => vault::refuses(r, error) && after == before,
                None => exists|settings: AwsSettings|
                    {
                        &&& #[trigger] is_configured(settings, kept, configuration)
                        &&& vault::save_aws_outcome(
                            before.vault,
                            settings,
                            nonce,
                            encode,
                            write,
                            after.vault,
                            r,
                        )
                        &&& if r is Ok {
                            &&& after.aws_process_decisions@.len() == 0
                            &&& after.aws_process_denials@.len() == 0
                            &&& after.aws_login is Idle
                            &&& after == (Controller {
                                vault: after.vault,
                                aws_process_decisions: after.aws_process_decisions,
                                aws_process_denials: after.aws_process_denials,
                                aws_login: after.aws_login,
                                ..before
                            })
                        } else {
                            after == (Controller { vault: after.vault, ..before })
                        }
                    },
            }
    }
}

/// Whether a login is under way.
pub open spec fn login_running(status: AwsLoginStatus) -> bool {
    status is Starting || status is AwaitingUser || status is Discovering
}

/// Why a login cannot be started.
pub open spec fn login_error(controller: Controller) -> Option<Seq<char>> {
    if login_running(controller.aws_login) {
        Some("AWS SSO login is already in progress"@)
    } else if !vault::is_unlocked(controller.vault) {
        Some("Vault is locked"@)
    } else {
        match controller.vault.data->Some_0.aws {
            None => Some("Configure AWS SSO before logging in"@),
            Some(settings) => aws::settings_error(settings),
        }
    }
}

/// Whether settings are those kept with the session of others in them: its
/// registration and tokens, and, where that is asked for, the accounts that it
/// found, with only the targets that are assigned in them.
pub open spec fn is_merged(
    settings: AwsSettings,
    kept: AwsSettings,
    session: AwsSettings,
    include_discovery: bool,
) -> bool {
    &&& settings.start_url == kept.start_url
    &&& settings.sso_region == kept.sso_region
    &&& settings.registration == session.registration
    &&& settings.token == session.token
    &&& if include_discovery {
        &&& settings.targets@ == kept.targets@.filter(
            aws::is_assigned_in(session.discovered_accounts@),
        )
        &&& aws::same_accounts(settings.discovered_accounts@, session.discovered_accounts@)
        &&& settings.discovery_complete == session.discovery_complete
    } else {
        &&& settings.targets@ == kept.targets@
        &&& aws::same_accounts(settings.discovered_accounts@, kept.discovered_accounts@)
        &&& settings.discovery_complete == kept.discovery_complete
    }
}

/// The outcome of keeping a session: refused where the vault is locked, nothing
/// is configured, or the connection has changed meanwhile.
pub open spec fn persist_outcome<
    E: Fn(&VaultPlaintext) -> Result<Vec<u8>, String>,
    W: Fn(&VaultFile) -> Result<(), VaultError>,
>(
    before: VaultStore,
    session: AwsSettings,
    include_discovery: bool,
    nonce: Result<Vec<u8>, VaultError>,
    encode: E,
    write: W,
    after: VaultStore,
    r: Result<(), VaultError>,
) -> bool {
    if !vault::is_unlocked(before) {
        vault::refuses(r, "Vault is locked"@) && after == before
    } else {
        match before.data->Some_0.aws {
            None => vault::refuses(r, "AWS SSO is not configured in secretd"@) && after == before,
            Some(kept) => if kept.start_url@ != session.start_url@ || kept.sso_region@
                != session.sso_region@ {
                vault::refuses(
                    r,
                    "AWS SSO setup changed while the operation was in progress; retry it"@,
                ) && after == before
            } else {
                exists|settings: AwsSettings| #[trigger]
                    is_merged(settings, kept, session, include_discovery)
                        && vault::save_aws_outcome(
                        before,
                        settings,
                        nonce,
                        encode,
                        write,
                        after,
                        r,
                    )
            },
        }
    }
}

/// When the access token of settings expires, zero where there is none.
pub open spec fn token_expiry(settings: AwsSettings) -> u64 {
    match settings.token {
        Some(token) => token.access_token_expires_at,
        None => 0,
    }
}

/// How a login that ended is shown.
pub open spec fn shows_failure(status: AwsLoginStatus, error: Seq<char>) -> bool {
    status matches AwsLoginStatus::Failed(shown) && shown@ == error
}

/// The outcome of a login that ended.
pub open spec fn complete_outcome<
    E: Fn(&VaultPlaintext) -> Result<Vec<u8>, String>,
    W: Fn(&VaultFile) -> Result<(), VaultError>,
>(
    before: Controller,
    result: Result<AwsSettings, String>,
    nonce: Result<Vec<u8>, VaultError>,
    encode: E,
    write: W,
    after: Controller,
) -> bool {
    &&& after == (Controller { vault: after.vault, aws_login: after.aws_login, ..before })
    &&& match result {
        Err(error) => after.vault == before.vault && shows_failure(after.aws_login, error@),
        Ok(settings) => exists|done: Result<(), VaultError>|
            {
                &&& #[trigger] persist_outcome(
                    before.vault,
                    settings,
                    true,
                    nonce,
                    encode,
                    write,
                    after.vault,
                    done,
                )
                &&& match done {
                    Ok(_) => after.aws_login == (AwsLoginStatus::LoggedIn {
                        expires_at: token_expiry(settings),
                    }),
                    Err(error) => shows_failure(after.aws_login, error.0@),
                }
            },
    }
}

/// The outcome of a login whose discovery failed: the session is kept all the
/// same.
pub open spec fn discovery_failure_outcome<
    E: Fn(&VaultPlaintext) -> Result<Vec<u8>, String>,
    W: Fn(&VaultFile) -> Result<(), VaultError>,
>(
    before: Controller,
    settings: AwsSettings,
    error: Seq<char>,
    nonce: Result<Vec<u8>, VaultError>,
    encode: E,
    write: W,
    after: Controller,
) -> bool {
    &&& after == (Controller { vault: after.vault, aws_login: after.aws_login, ..before })
    &&& exists|done: Result<(), VaultError>|
        {
            &&& #[trigger] persist_outcome(
                before.vault,
                settings,
                false,
                nonce,
                encode,
                write,
                after.vault,
                done,
            )
            &&& shows_failure(
                after.aws_login,
                match done {
                    Ok(_) => error,
                    Err(persist_error) => error + "; the AWS session could not be saved: "@
                        + persist_error.0@,
                },
            )
        }
}

impl Controller {
    /// Keeps an AWS configuration.
    pub fn save_aws_configuration<
        E: Fn(&VaultPlaintext) -> Result<Vec<u8>, String>,
        W: Fn(&VaultFile) -> Result<(), VaultError>,
    >(&mut self, configuration: AwsConfiguration, encode: &E, write: &W) -> (r: Result<
        (),
        VaultError,
    >)
        requires
            old(self).wf(),
            forall|d: &VaultPlaintext| call_requires(*encode, (d,)),
            forall|f: &VaultFile| call_requires(*write, (f,)),
        ensures
            final(self).wf(),
            exists|nonce: Result<Vec<u8>, VaultError>|
                vault::is_nonce(nonce) && #[trigger] configure_outcome(
                    *old(self),
                    configuration,
                    nonce,
                    *encode,
                    *write,
                    *final(self),
                    r,
                ),
    {
        self.save_aws_configuration_at(configuration, vault::draw_nonce(), encode, write)
    }

    pub fn save_aws_configuration_at<
        E: Fn(&VaultPlaintext) -> Result<Vec<u8>, String>,
        W: Fn(&VaultFile) -> Result<(), VaultError>,
    >(
        &mut self,
        configuration: AwsConfiguration,
        nonce: Result<Vec<u8>, VaultError>,
        encode: &E,
        write: &W,
    ) -> (r: Result<(), VaultError>)
        requires
            old(self).wf(),
            vault::is_nonce(nonce),
            forall|d: &VaultPlaintext| call_requires(*encode, (d,)),
            forall|f: &VaultFile| call_requires(*write, (f,)),
        ensures
            final(self).wf(),
            configure_outcome(
                *old(self),
                configuration,
                nonce,
                *encode,
                *write,
                *final(self),
                r,
            ),
    {
        let ghost kept = self.vault.data->Some_0.aws;
        let mut settings = match self.vault.aws_settings() {
            Err(error) => {
                return Err(error);
            },
            Ok(Some(settings)) => settings,
            Ok(None) => match AwsSettings::from_configuration(configuration.clone()) {
                Ok(settings) => settings,
                Err(error) => {
                    proof {
                        let refused = choose|settings: AwsSettings|
                            {
                                &&& #[trigger] aws::settings_error(settings) == Some(error@)
                                &&& aws::is_fresh(settings)
                                &&& settings.start_url == configuration.start_url
                                &&& settings.sso_region == configuration.sso_region
                                &&& settings.targets@ == configuration.targets@
                            };
                        assert(is_proposed(refused, kept, configuration));
                    }
                    return Err(VaultError(error));
                },
            },
        };
        let ghost proposed = aws::reconfigured(settings, configuration);
        assert(is_proposed(proposed, kept, configuration));
        match settings.update_configuration(configuration) {
            Ok(()) => {},
            Err(error) => {
                return Err(VaultError(error));
            },
        }
        assert(is_configured(settings, kept, configuration));
        let r = self.vault.save_aws_settings_at(settings, nonce, encode, write);
        if r.is_ok() {
            self.aws_process_decisions.clear();
            self.aws_process_denials.clear();
            self.aws_login = AwsLoginStatus::Idle;
        }
        r
    }

    /// Keeps a portal and a region, with the targets that there are.
    pub fn save_aws_connection<
        E: Fn(&VaultPlaintext) -> Result<Vec<u8>, String>,
        W: Fn(&VaultFile) -> Result<(), VaultError>,
    >(&mut self, start_url: String, sso_region: String, encode: &E, write: &W) -> (r: Result<
        (),
        VaultError,
    >)
        requires
            old(self).wf(),
            forall|d: &VaultPlaintext| call_requires(*encode, (d,)),
            forall|f: &VaultFile| call_requires(*write, (f,)),
        ensures
            final(self).wf(),
            exists|nonce: Result<Vec<u8>, VaultError>, configuration: AwsConfiguration|
                {
                    &&& vault::is_nonce(nonce)
                    &&& configuration.start_url == start_url
                    &&& configuration.sso_region == sso_region
                    &&& vault::is_unlocked(old(self).vault) ==> configuration.targets@ == match old(
                        self).vault.data->Some_0.aws {
                        Some(settings) => settings.targets@,
                        None => Seq::<AwsTarget>::empty(),
                    }
                    &&& #[trigger] configure_outcome(
                        *old(self),
                        configuration,
                        nonce,
                        *encode,
                        *write,
                        *final(self),
                        r,
                    )
                },
    {
        let targets = match self.vault.aws_settings() {
            Ok(Some(settings)) => settings.targets,
            _ => Vec::new(),
        };
        let configuration = AwsConfiguration { start_url, sso_region, targets };
        self.save_aws_configuration_at(configuration, vault::draw_nonce(), encode, write)
    }

    /// The settings for a login, if one can be started.
    pub fn preview_aws_login(&self) -> (r: Result<AwsSettings, VaultError>)
        ensures
            match login_error(*self) {
                Some(error) => vault::refuses(r, error),
                None => r is Ok && aws::same_settings(
                    r->Ok_0,
                    self.vault.data->Some_0.aws->Some_0,
                ),
            },
    {
        match &self.aws_login {
            AwsLoginStatus::Starting
            | AwsLoginStatus::AwaitingUser(_)
            | AwsLoginStatus::Discovering => {
                return Err(vault::vault_error("AWS SSO login is already in progress"));
            },
            _ => {},
        }
        if !self.vault.unlocked() {
            return Err(vault::vault_error("Vault is locked"));
        }
        match &self.vault.data {
            None => Err(vault::vault_error("Vault is locked")),
            Some(data) => match &data.aws {
                None => Err(vault::vault_error("Configure AWS SSO before logging in")),
                Some(settings) => match settings.validate() {
                    Ok(()) => Ok(settings.clone()),
                    Err(error) => Err(VaultError(error)),
                },
            },
        }
    }

    /// Starts a login, if one can be started.
    pub fn prepare_aws_login(&mut self) -> (r: Result<AwsSettings, VaultError>)
        requires
            old(self).wf(),
        ensures
            final(self).wf(),
            match login_error(*old(self)) {
                Some(error) => vault::refuses(r, error) && *final(self) == *old(self),
                None => {
                    &&& r is Ok
                    &&& aws::same_settings(r->Ok_0, old(self).vault.data->Some_0.aws->Some_0)
                    &&& *final(self) == (Controller {
                        aws_login: AwsLoginStatus::Starting,
                        ..*old(self)
                    })
                },
            },
    {
        match self.preview_aws_login() {
            Ok(settings) => {
                self.aws_login = AwsLoginStatus::Starting;
                Ok(settings)
            },
            Err(error) => Err(error),
        }
    }

    pub fn set_aws_login_status(&mut self, status: AwsLoginStatus)
        ensures
            *final(self) == (Controller { aws_login: status, ..*old(self) }),
    {
        self.aws_login = status;
    }

    /// Keeps the session of a login that ended, or shows why it failed.
    pub fn complete_aws_login<
        E: Fn(&VaultPlaintext) -> Result<Vec<u8>, String>,
        W: Fn(&VaultFile) -> Result<(), VaultError>,
    >(&mut self, result: Result<AwsSettings, String>, encode: &E, write: &W)
        requires
            old(self).wf(),
            forall|d: &VaultPlaintext| call_requires(*encode, (d,)),
            forall|f: &VaultFile| call_requires(*write, (f,)),
        ensures
            final(self).wf(),
            exists|nonce: Result<Vec<u8>, VaultError>|
                vault::is_nonce(nonce) && #[trigger] complete_outcome(
                    *old(self),
                    result,
                    nonce,
                    *encode,
                    *write,
                    *final(self),
                ),
    {
        self.complete_aws_login_at(result, vault::draw_nonce(), encode, write);
    }

    pub fn complete_aws_login_at<
        E: Fn(&VaultPlaintext) -> Result<Vec<u8>, String>,
        W: Fn(&VaultFile) -> Result<(), VaultError>,
    >(
        &mut self,
        result: Result<AwsSettings, String>,
        nonce: Result<Vec<u8>, VaultError>,
        encode: &E,
        write: &W,
    )
        requires
            old(self).wf(),
            vault::is_nonce(nonce),
            forall|d: &VaultPlaintext| call_requires(*encode, (d,)),
            forall|f: &VaultFile| call_requires(*write, (f,)),
        ensures
            final(self).wf(),
            complete_outcome(*old(self), result, nonce, *encode, *write, *final(self)),
    {
        match result {
            Err(error) => {
                self.aws_login = AwsLoginStatus::Failed(error);
            },
            Ok(settings) => {
                let expires_at: u64 = match &settings.token {
                    Some(token) => token.access_token_expires_at,
                    None => 0,
                };
                let done = self.persist_aws_session(&settings, true, nonce, encode, write);
                match &done {
                    Ok(_) => {
                        self.aws_login = AwsLoginStatus::LoggedIn { expires_at };
                    },
                    Err(error) => {
                        self.aws_login = AwsLoginStatus::Failed(error.to_string());
                    },
                }
                assert(persist_outcome(
                    old(self).vault,
                    settings,
                    true,
                    nonce,
                    *encode,
                    *write,
                    self.vault,
                    done,
                ));
            },
        }
    }

    /// Keeps the session of a login whose discovery failed, and shows why.
    pub fn complete_aws_discovery_failure<
        E: Fn(&VaultPlaintext) -> Result<Vec<u8>, String>,
        W: Fn(&VaultFile) -> Result<(), VaultError>,
    >(&mut self, settings: &AwsSettings, error: String, encode: &E, write: &W)
        requires
            old(self).wf(),
            forall|d: &VaultPlaintext| call_requires(*encode, (d,)),
            forall|f: &VaultFile| call_requires(*write, (f,)),
        ensures
            final(self).wf(),
            exists|nonce: Result<Vec<u8>, VaultError>|
                vault::is_nonce(nonce) && #[trigger] discovery_failure_outcome(
                    *old(self),
                    *settings,
                    error@,
                    nonce,
                    *encode,
                    *write,
                    *final(self),
                ),
    {
        self.complete_aws_discovery_failure_at(
            settings,
            error,
            vault::draw_nonce(),
            encode,
            write,
        );
    }

    pub fn complete_aws_discovery_failure_at<
        E: Fn(&VaultPlaintext) -> Result<Vec<u8>, String>,
        W: Fn(&VaultFile) -> Result<(), VaultError>,
    >(
        &mut self,
        settings: &AwsSettings,
        error: String,
        nonce: Result<Vec<u8>, VaultError>,
        encode: &E,
        write: &W,
    )
        requires
            old(self).wf(),
            vault::is_nonce(nonce),
            forall|d: &VaultPlaintext| call_requires(*encode, (d,)),
            forall|f: &VaultFile| call_requires(*write, (f,)),
        ensures
            final(self).wf(),
            discovery_failure_outcome(
                *old(self),
                *settings,
                error@,
                nonce,
                *encode,
                *write,
                *final(self),
            ),
    {
        let done = self.persist_aws_session(settings, false, nonce, encode, write);
        match &done {
            Ok(_) => {
                self.aws_login = AwsLoginStatus::Failed(error);
            },
            Err(persist_error) => {
                let start = text::concat(
                    error.as_str(),
                    "; the AWS session could not be saved: ",
                );
                self.aws_login = AwsLoginStatus::Failed(
                    text::concat(start.as_str(), persist_error.0.as_str()),
                );
            },
        }
        assert(persist_outcome(
            old(self).vault,
            *settings,
            false,
            nonce,
            *encode,
            *write,
            self.vault,
            done,
        ));
    }

    /// The settings with which credentials are fetched.
    pub fn aws_credential_context(&self) -> (r: Result<AwsSettings, VaultError>)
        ensures
            if !vault::is_unlocked(self.vault) {
                vault::refuses(r, "Vault is locked"@)
            } else {
                match self.vault.data->Some_0.aws {
                    None => vault::refuses(r, "AWS SSO is not configured in secretd"@),
                    Some(settings) => r is Ok && aws::same_settings(r->Ok_0, settings),
                }
            },
    {
        match self.vault.aws_settings() {
            Err(error) => Err(error),
            Ok(None) => Err(vault::vault_error("AWS SSO is not configured in secretd")),
            Ok(Some(settings)) => Ok(settings),
        }
    }

    /// Keeps the session that fetching credentials may have renewed.
    pub fn persist_aws_settings<
        E: Fn(&VaultPlaintext) -> Result<Vec<u8>, String>,
        W: Fn(&VaultFile) -> Result<(), VaultError>,
    >(&mut self, settings: &AwsSettings, encode: &E, write: &W) -> (r: Result<(), VaultError>)
        requires
            old(self).wf(),
            forall|d: &VaultPlaintext| call_requires(*encode, (d,)),
            forall|f: &VaultFile| call_requires(*write, (f,)),
        ensures
            final(self).wf(),
            exists|nonce: Result<Vec<u8>, VaultError>|
                vault::is_nonce(nonce) && #[trigger] persist_outcome(
                    old(self).vault,
                    *settings,
                    false,
                    nonce,
                    *encode,
                    *write,
                    final(self).vault,
                    r,
                ),
            *final(self) == (Controller { vault: final(self).vault, ..*old(self) }),
    {
        self.persist_aws_session(settings, false, vault::draw_nonce(), encode, write)
    }

    pub fn persist_aws_session<
        E: Fn(&VaultPlaintext) -> Result<Vec<u8>, String>,
        W: Fn(&VaultFile) -> Result<(), VaultError>,
    >(
        &mut self,
        session: &AwsSettings,
        include_discovery: bool,
        nonce: Result<Vec<u8>, VaultError>,
        encode: &E,
        write: &W,
    ) -> (r: Result<(), VaultError>)
        requires
            old(self).wf(),
            vault::is_nonce(nonce),
            forall|d: &VaultPlaintext| call_requires(*encode, (d,)),
            forall|f: &VaultFile| call_requires(*write, (f,)),
        ensures
            final(self).wf(),
            persist_outcome(
                old(self).vault,
                *session,
                include_discovery,
                nonce,
                *encode,
                *write,
                final(self).vault,
                r,
            ),
            *final(self) == (Controller { vault: final(self).vault, ..*old(self) }),
    {
        let ghost kept = self.vault.data->Some_0.aws;
        let mut current = match self.vault.aws_settings() {
            Err(error) => {
                return Err(error);
            },
            Ok(None) => {
                return Err(vault::vault_error("AWS SSO is not configured in secretd"));
            },
            Ok(Some(current)) => current,
        };
        if !(current.start_url == session.start_url && current.sso_region
            == session.sso_region) {
            return Err(
                vault::vault_error(
                    "AWS SSO setup changed while the operation was in progress; retry it",
                ),
            );
        }
        current.registration = session.registration.clone();
        current.token = session.token.clone();
        if include_discovery {
            let accounts = &session.discovered_accounts;
            let keep = |t: &AwsTarget| -> (b: bool)
                ensures
                    b == aws::is_assigned(*t, accounts@),
                { aws::assigned(t, accounts) };
            seqs::retain(
                &mut current.targets,
                keep,
                Ghost(aws::is_assigned_in(session.discovered_accounts@)),
            );
            current.discovered_accounts = aws::copied_accounts(&session.discovered_accounts);
            current.discovery_complete = session.discovery_complete;
        }
        assert(is_merged(current, kept->Some_0, *session, include_discovery));
        self.vault.save_aws_settings_at(current, nonce, encode, write)
    }
}

/// Whether one of the denials holds for a profile and a lineage.
fn blocked(denials: &Vec<AwsCredentialDenial>, profile: &str, tree: &Vec<ProcessIdentity>) -> (r:
    bool)
    ensures
        r == controller::is_blocked(denials@, profile@, tree@),
{
    let test = |d: &AwsCredentialDenial| -> (b: bool)
        ensures
            b == controller::denies(*d, profile@, tree@),
        {
            text::str_eq(d.profile.as_str(), profile) && controller::process_trees_overlap(
                &d.process_tree,
                tree,
            )
        };
    seqs::any(
        denials,
        test,
        Ghost(|d: AwsCredentialDenial| controller::denies(d, profile@, tree@)),
    )
}

} // verus!
