//! What the operations of the controller promise together.

use vstd::prelude::*;

use crate::aws::{AwsAccessLevel, AwsConfiguration, AwsSettings};
use crate::controller;
use crate::controller::{
    Answer, ApprovalDecision, AwsCredentialDenial, AwsCredentialGrant, AwsRequestOutcome,
    AwsRequestResolution, Controller, PendingAwsCredentialRequest, PendingRequest, RequestOutcome,
};
use crate::controller_aws;
use crate::grants;
use crate::grants::{Grant, DEFAULT_GRANT_SECONDS, MAX_GRANT_SECONDS};
use crate::process;
use crate::process::ProcessIdentity;
use crate::seqs;
use crate::text;
use crate::vault;
use crate::vault::{VaultError, VaultFile, VaultPlaintext, VaultStore};

verus! {

/// A secret is given out without a person only to a verified process, from an
/// open vault, under a grant of that secret that has not expired and that was
/// given to a process of its lineage.
pub proof fn secrets_are_released_only_under_a_grant(
    before: Controller,
    name: Seq<char>,
    process_tree: Seq<ProcessIdentity>,
    verified: bool,
    id: Seq<char>,
    now: u64,
    after: Controller,
    r: Result<RequestOutcome, VaultError>,
)
    requires
        controller::begin_outcome(before, name, process_tree, verified, id, now, after, r),
        r matches Ok(RequestOutcome::Immediate(_)),
    ensures
        verified,
        vault::is_unlocked(before.vault),
        vault::revealed(before.vault, name) matches Ok(entry) && r == Ok::<
            RequestOutcome,
            VaultError,
        >(RequestOutcome::Immediate(entry.value)),
        exists|grant: Grant, i: int|
            #![trigger before.grants.grants@.contains(grant), process_tree[i]]
            {
                &&& before.grants.grants@.contains(grant)
                &&& grant.expires_at > now
                &&& Ok::<Seq<char>, Seq<char>>(grant.resource@) == vault::normalized_name(name)
                &&& 0 <= i < process_tree.len()
                &&& process::is_same(grant.process, process_tree[i])
            },
{
    let secret = vault::normalized_name(name)->Ok_0;
    let tree = process::without_clients(process_tree);
    let live = grants::live(before.grants.grants@, now);
    vault::normalizing_names_is_stable(name);
    grants::found_grants_cover_the_lineage(live, secret, tree);
    grants::expired_grants_are_not_found(before.grants.grants@, secret, tree, now);
    let grant = grants::grant_for(live, secret, tree)->Some_0;
    let k = choose|k: int| 0 <= k < tree.len() && process::is_same(grant.process, #[trigger] tree[k]);
    process::clients_are_left_out_once(process_tree);
    let n = choose|n: int|
        0 <= n <= process_tree.len() && process::without_clients(process_tree)
            == #[trigger] process_tree.skip(n);
    assert(tree[k] == process_tree[n + k]);
    assert(before.grants.grants@.contains(grant) && process::is_same(
        grant.process,
        process_tree[n + k],
    ));
}

/// An unverified request is never answered without a person, and never gets
/// more than one answer out of a decision.
pub proof fn unverified_requests_get_no_grant(
    before: Controller,
    id: Seq<char>,
    ttl_seconds: Option<u64>,
    grant_process: Option<ProcessIdentity>,
    grant_id: String,
    now: u64,
    after: Controller,
    r: Result<(), VaultError>,
)
    requires
        controller::respond_outcome(
            before,
            id,
            ApprovalDecision::Temporary,
            ttl_seconds,
            grant_process,
            grant_id,
            now,
            after,
            r,
        ),
        controller::pending_index(before.pending@, id) matches Some(i)
            && !before.pending@[i].verified,
    ensures
        r is Err,
        after == before,
{
}

/// A temporary approval lets every verified process whose lineage runs through
/// the chosen boundary have the secret at once, until the grant expires.
pub proof fn an_approved_grant_answers_later_requests(
    before: Controller,
    id: Seq<char>,
    ttl_seconds: Option<u64>,
    grant_process: Option<ProcessIdentity>,
    grant_id: String,
    approved_at: u64,
    middle: Controller,
    done: Result<(), VaultError>,
    process_tree: Seq<ProcessIdentity>,
    i: int,
    later_id: Seq<char>,
    now: u64,
    after: Controller,
    r: Result<RequestOutcome, VaultError>,
)
    requires
        before.wf(),
        controller::respond_outcome(
            before,
            id,
            ApprovalDecision::Temporary,
            ttl_seconds,
            grant_process,
            grant_id,
            approved_at,
            middle,
            done,
        ),
        done is Ok,
        ({
            let request = before.pending@[controller::pending_index(before.pending@, id)->Some_0];
            let holder = controller::boundary(
                request.process_tree@,
                request.origin,
                grant_process,
            )->Ok_0;
            let seconds = controller::seconds_or_default(ttl_seconds);
            &&& now < grants::after(approved_at, seconds)
            &&& 0 <= i < process::without_clients(process_tree).len()
            &&& process::is_same(holder, process::without_clients(process_tree)[i])
            &&& vault::revealed(middle.vault, request.secret@) is Ok
            &&& controller::begin_outcome(
                middle,
                request.secret@,
                process_tree,
                true,
                later_id,
                now,
                after,
                r,
            )
        }),
    ensures
        r matches Ok(RequestOutcome::Immediate(_)),
{
    let k = controller::pending_index(before.pending@, id)->Some_0;
    let request = before.pending@[k];
    seqs::first_index_meaning(before.pending@, controller::has_id(id));
    let holder = controller::boundary(request.process_tree@, request.origin, grant_process)->Ok_0;
    let seconds = controller::seconds_or_default(ttl_seconds);
    let grant = grants::new_grant(grant_id, request.secret, holder, seconds, approved_at);
    grants::a_grant_serves_its_descendants(
        before.grants.grants@,
        grant,
        process::without_clients(process_tree),
        i,
        now,
    );
}

/// A boundary is a process of the lineage, the one that was chosen or else the
/// requester, and never the service manager.
pub proof fn a_boundary_stands_in_the_lineage(
    tree: Seq<ProcessIdentity>,
    origin: ProcessIdentity,
    selected: Option<ProcessIdentity>,
)
    ensures
        ({
            let wanted = match selected {
                Some(selected) => selected,
                None => origin,
            };
            match controller::boundary(tree, origin, selected) {
                Ok(holder) => {
                    &&& tree.contains(holder)
                    &&& process::is_same(holder, wanted)
                    &&& !process::is_launchd(wanted)
                },
                Err(_) => process::is_launchd(wanted) || forall|i: int|
                    0 <= i < tree.len() ==> !process::is_same(#[trigger] tree[i], wanted),
            }
        }),
{
    let wanted = match selected {
        Some(selected) => selected,
        None => origin,
    };
    let p = |p: ProcessIdentity| process::is_same(p, wanted);
    seqs::first_index_meaning(tree, p);
    if !process::is_launchd(wanted) && seqs::first_where(tree, p) is None {
        assert forall|i: int| 0 <= i < tree.len() implies !process::is_same(
            #[trigger] tree[i],
            wanted,
        ) by {
            assert(!p(tree[i]));
        }
    }
}

/// A temporary approval lasts as chosen, half an hour where nothing is chosen,
/// and never starts with more than an hour.
pub proof fn approvals_last_at_most_an_hour(
    before: Controller,
    id: Seq<char>,
    ttl_seconds: Option<u64>,
    grant_process: Option<ProcessIdentity>,
    grant_id: String,
    now: u64,
    after: Controller,
    r: Result<(), VaultError>,
)
    requires
        controller::respond_outcome(
            before,
            id,
            ApprovalDecision::Temporary,
            ttl_seconds,
            grant_process,
            grant_id,
            now,
            after,
            r,
        ),
        r is Ok,
    ensures
        ({
            let grant = after.grants.grants@.last();
            &&& after.grants.grants@.len() == before.grants.grants@.len() + 1
            &&& grant.created_at == now
            &&& grant.expires_at <= now + MAX_GRANT_SECONDS * 1_000
            &&& ttl_seconds is None && now + DEFAULT_GRANT_SECONDS * 1_000 <= u64::MAX
                ==> grant.expires_at == now + DEFAULT_GRANT_SECONDS * 1_000
        }),
{
}

/// A request is answered once: after a decision it no longer waits, and any
/// further decision about it is refused.
pub proof fn a_request_is_answered_once(
    before: Controller,
    id: Seq<char>,
    decision: ApprovalDecision,
    ttl_seconds: Option<u64>,
    grant_process: Option<ProcessIdentity>,
    grant_id: String,
    now: u64,
    after: Controller,
    r: Result<(), VaultError>,
)
    requires
        before.wf(),
        controller::respond_outcome(
            before,
            id,
            decision,
            ttl_seconds,
            grant_process,
            grant_id,
            now,
            after,
            r,
        ),
        r is Ok,
    ensures
        controller::pending_index(after.pending@, id) is None,
        !controller::is_waiting(after, id),
        controller::posts(after.resolutions@).last() == (
            id,
            if decision == ApprovalDecision::Deny {
                Answer::Denied
            } else {
                Answer::Approved
            },
        ),
{
    seqs::first_index_meaning(before.pending@, controller::has_id(id));
    seqs::first_index_meaning(after.pending@, controller::has_id(id));
    let i = controller::pending_index(before.pending@, id)->Some_0;
    controller::ids_without_meaning(before.waiting_for_unlock@, before.pending@[i].id@);
    if controller::pending_index(after.pending@, id) is Some {
        let k = controller::pending_index(after.pending@, id)->Some_0;
        let other = if k < i {
            k
        } else {
            k + 1
        };
        assert(after.pending@[k] == before.pending@[other]);
        assert(before.pending@[other].id@ == before.pending@[i].id@);
    }
}

/// While the vault is locked no secret is given out: a request waits, and it
/// can be denied but not approved.
pub proof fn a_locked_vault_answers_no_request(
    before: Controller,
    name: Seq<char>,
    process_tree: Seq<ProcessIdentity>,
    verified: bool,
    id: Seq<char>,
    now: u64,
    middle: Controller,
    r: Result<RequestOutcome, VaultError>,
    decision: ApprovalDecision,
    ttl_seconds: Option<u64>,
    grant_process: Option<ProcessIdentity>,
    grant_id: String,
    decided_at: u64,
    after: Controller,
    done: Result<(), VaultError>,
)
    requires
        before.wf(),
        !vault::is_unlocked(before.vault),
        controller::begin_outcome(before, name, process_tree, verified, id, now, middle, r),
        controller::respond_outcome(
            middle,
            id,
            decision,
            ttl_seconds,
            grant_process,
            grant_id,
            decided_at,
            after,
            done,
        ),
    ensures
        !(r matches Ok(RequestOutcome::Immediate(_))),
        r is Ok && decision != ApprovalDecision::Deny ==> done is Err && after == middle,
{
    if r is Ok {
        let views = text::views(middle.waiting_for_unlock@);
        assert(views[views.len() - 1] == id);
        assert(controller::is_waiting(middle, id));
    }
}

/// Once the vault is open, each request that waited for it still waits for a
/// person if its secret is there, and has failed if it is not.
pub proof fn waiting_requests_are_prepared(
    before: Controller,
    store: VaultStore,
    after: Controller,
    i: int,
)
    requires
        before.wf(),
        controller::waiting_prepared(before, store, after),
        0 <= i < before.pending@.len(),
        controller::is_waiting(before, before.pending@[i].id@),
    ensures
        match vault::revealed(store, before.pending@[i].secret@) {
            Ok(_) => after.pending@.contains(before.pending@[i]),
            Err(error) => {
                &&& !after.pending@.contains(before.pending@[i])
                &&& controller::posts(after.resolutions@).contains(
                    (before.pending@[i].id@, Answer::Failed(error)),
                )
            },
        },
        !controller::is_waiting(after, before.pending@[i].id@),
{
    let ids = text::views(before.waiting_for_unlock@);
    let p = controller::unaffected(ids, store);
    let request = before.pending@[i];
    assert(text::views(after.waiting_for_unlock@).len() == 0);
    if vault::revealed(store, request.secret@) is Ok {
        seqs::filter_keeps(before.pending@, p, i);
    } else {
        if after.pending@.contains(request) {
            grants::filtered_elements(before.pending@, p, request);
        }
        let error = vault::revealed(store, request.secret@)->Err_0;
        let k = ids.index_of(request.id@);
        failures_are_listed(ids, before.pending@, store, k);
        seqs::first_index_meaning(before.pending@, controller::has_id(request.id@));
        let found = controller::pending_index(before.pending@, request.id@)->Some_0;
        assert(before.pending@[found].id@ == before.pending@[i].id@);
        assert(found == i);
        let listed = controller::failures(ids, before.pending@, store);
        let at = listed.index_of((request.id@, Answer::Failed(error)));
        let all = controller::posts(before.resolutions@) + listed;
        assert(all[controller::posts(before.resolutions@).len() + at] == listed[at]);
    }
}

proof fn failures_are_listed(
    ids: Seq<Seq<char>>,
    pending: Seq<PendingRequest>,
    store: VaultStore,
    k: int,
)
    requires
        0 <= k < ids.len(),
    ensures
        controller::failure(ids[k], pending, store) matches Some(error) ==> controller::failures(
            ids,
            pending,
            store,
        ).contains((ids[k], Answer::Failed(error))),
    decreases ids.len(),
{
    let listed = controller::failures(ids, pending, store);
    if controller::failure(ids[k], pending, store) is Some {
        let error = controller::failure(ids[k], pending, store)->Some_0;
        if k == ids.len() - 1 {
            assert(listed[listed.len() - 1] == (ids[k], Answer::Failed(error)));
        } else {
            failures_are_listed(ids.drop_last(), pending, store, k);
            let shorter = controller::failures(ids.drop_last(), pending, store);
            let at = shorter.index_of((ids[k], Answer::Failed(error)));
            assert(listed[at] == shorter[at]);
        }
    }
}

/// Locking denies every waiting request and leaves nothing that could answer
/// one later.
pub proof fn locking_denies_everything(before: Controller, now: u64, after: Controller)
    requires
        controller::lock_outcome(before, now, after),
    ensures
        !vault::is_unlocked(after.vault),
        forall|resource: Seq<char>, tree: Seq<ProcessIdentity>| #[trigger]
            grants::grant_for(after.grants.grants@, resource, tree) is None,
        forall|profile: Seq<char>, tree: Seq<ProcessIdentity>| #[trigger]
            controller::decision_for(after.aws_process_decisions@, profile, tree) is None,
        forall|i: int|
            0 <= i < before.pending@.len() ==> controller::posts(after.resolutions@).contains(
                ((#[trigger] before.pending@[i]).id@, Answer::Denied),
            ),
        forall|i: int|
            0 <= i < before.pending_aws@.len() ==> controller::aws_posts(
                after.aws_resolutions@,
            ).contains(((#[trigger] before.pending_aws@[i]).id@, AwsRequestResolution::Denied)),
{
    assert forall|resource: Seq<char>, tree: Seq<ProcessIdentity>| #[trigger]
        grants::grant_for(after.grants.grants@, resource, tree) is None by {
        grants::found_grants_cover_the_lineage(after.grants.grants@, resource, tree);
    }
    assert forall|profile: Seq<char>, tree: Seq<ProcessIdentity>| #[trigger]
        controller::decision_for(after.aws_process_decisions@, profile, tree) is None by {
        found_decisions_cover_the_lineage(after.aws_process_decisions@, profile, tree);
    }
    assert forall|i: int| 0 <= i < before.pending@.len() implies controller::posts(
        after.resolutions@,
    ).contains(((#[trigger] before.pending@[i]).id@, Answer::Denied)) by {
        let all = controller::posts(after.resolutions@);
        let at = controller::posts(before.resolutions@).len() + i;
        assert(all[at] == (before.pending@[i].id@, Answer::Denied));
    }
    assert forall|i: int| 0 <= i < before.pending_aws@.len() implies controller::aws_posts(
        after.aws_resolutions@,
    ).contains(((#[trigger] before.pending_aws@[i]).id@, AwsRequestResolution::Denied)) by {
        let all = controller::aws_posts(after.aws_resolutions@);
        let at = controller::aws_posts(before.aws_resolutions@).len() + i;
        assert(all[at] == (before.pending_aws@[i].id@, AwsRequestResolution::Denied));
    }
}

/// Deleting a secret takes away every grant of it.
pub proof fn deleting_a_secret_ends_its_grants<
    E: Fn(&VaultPlaintext) -> Result<Vec<u8>, String>,
    W: Fn(&VaultFile) -> Result<(), VaultError>,
>(
    before: Controller,
    name: Seq<char>,
    nonce: Result<Vec<u8>, VaultError>,
    now: u64,
    encode: E,
    write: W,
    after: Controller,
    r: Result<(), VaultError>,
    tree: Seq<ProcessIdentity>,
)
    requires
        controller::delete_outcome(before, name, nonce, now, encode, write, after, r),
        r is Ok,
    ensures
        grants::grant_for(
            after.grants.grants@,
            vault::normalized_name(name)->Ok_0,
            tree,
        ) is None,
{
    let resource = vault::normalized_name(name)->Ok_0;
    grants::found_grants_cover_the_lineage(after.grants.grants@, resource, tree);
    if let Some(grant) = grants::grant_for(after.grants.grants@, resource, tree) {
        grants::filtered_elements(
            grants::live(before.grants.grants@, now),
            controller::other_resource(resource),
            grant,
        );
    }
}

/// A revoked grant is gone, and no other grant is touched.
pub proof fn revoking_ends_one_grant(
    before: Controller,
    id: Seq<char>,
    now: u64,
    after: Controller,
)
    requires
        controller::revoke_outcome(before, id, now, after),
        forall|i: int, j: int|
            0 <= i < j < before.grants.grants@.len() ==> (#[trigger] before.grants.grants@[i]).id@
                != (#[trigger] before.grants.grants@[j]).id@,
    ensures
        grants::grant_index(after.grants.grants@, id) is None,
        forall|g: Grant|
            g.id@ != id ==> #[trigger] before.grants.grants@.contains(g)
                == after.grants.grants@.contains(g),
{
    let held = before.grants.grants@;
    let left = after.grants.grants@;
    let p = grants::has_id(id);
    seqs::first_index_meaning(held, p);
    seqs::first_index_meaning(left, p);
    if let Some(i) = grants::grant_index(held, id) {
        assert(left == held.remove(i));
        if let Some(k) = grants::grant_index(left, id) {
            let other = if k < i {
                k
            } else {
                k + 1
            };
            assert(left[k] == held[other]);
            assert(held[other].id@ == held[i].id@);
        }
        assert forall|g: Grant| g.id@ != id implies #[trigger] held.contains(g) == left.contains(
            g,
        ) by {
            if held.contains(g) {
                let k = held.index_of(g);
                if k < i {
                    assert(left[k] == g);
                } else {
                    assert(left[k - 1] == g);
                }
            }
            if left.contains(g) {
                let k = left.index_of(g);
                if k < i {
                    assert(held[k] == g);
                } else {
                    assert(held[k + 1] == g);
                }
            }
        }
    }
}

/// A decision that is found is one of those held, about that profile, for a
/// process in the lineage.
pub proof fn found_decisions_cover_the_lineage(
    decisions: Seq<AwsCredentialGrant>,
    profile: Seq<char>,
    tree: Seq<ProcessIdentity>,
)
    ensures
        controller::decision_for(decisions, profile, tree) matches Some(decision) ==> {
            &&& decisions.contains(decision)
            &&& decision.profile@ == profile
            &&& exists|i: int|
                0 <= i < tree.len() && process::is_same(decision.process, #[trigger] tree[i])
        },
    decreases tree.len(),
{
    if tree.len() > 0 {
        let p = controller::decides(profile, tree[0]);
        seqs::last_index_meaning(decisions, p);
        if seqs::last_where(decisions, p) is None {
            found_decisions_cover_the_lineage(decisions, profile, tree.skip(1));
            if let Some(decision) = controller::decision_for(decisions, profile, tree.skip(1)) {
                let i = choose|i: int|
                    0 <= i < tree.skip(1).len() && process::is_same(
                        decision.process,
                        #[trigger] tree.skip(1)[i],
                    );
                assert(tree.skip(1)[i] == tree[i + 1]);
            }
        }
    }
}

/// Credentials are given without a person only to a verified process, from an
/// open vault, under a decision about that profile that has not expired and
/// whose process runs and stands in the lineage.
pub proof fn credentials_are_released_only_under_a_decision(
    before: Controller,
    profile: Seq<char>,
    process_tree: Seq<ProcessIdentity>,
    verified: bool,
    alive: Seq<bool>,
    id: Seq<char>,
    now: u64,
    after: Controller,
    r: Result<AwsRequestOutcome, VaultError>,
)
    requires
        alive.len() == before.aws_process_decisions@.len(),
        controller_aws::begin_aws_outcome(
            before,
            profile,
            process_tree,
            verified,
            alive,
            id,
            now,
            after,
            r,
        ),
        r matches Ok(AwsRequestOutcome::Immediate(_)),
    ensures
        verified,
        vault::is_unlocked(before.vault),
        exists|k: int, i: int|
            #![trigger before.aws_process_decisions@[k], process_tree[i]]
            {
                &&& 0 <= k < before.aws_process_decisions@.len()
                &&& alive[k]
                &&& before.aws_process_decisions@[k].expires_at > now
                &&& before.aws_process_decisions@[k].profile@ == text::trimmed(profile)
                &&& 0 <= i < process_tree.len()
                &&& process::is_same(before.aws_process_decisions@[k].process, process_tree[i])
                &&& r == Ok::<AwsRequestOutcome, VaultError>(
                    AwsRequestOutcome::Immediate(before.aws_process_decisions@[k].level),
                )
            },
{
    let wanted = controller::normalized_profile(profile)->Ok_0;
    let tree = process::without_clients(process_tree);
    let decisions = controller_aws::pruned(before.aws_process_decisions@, alive, now);
    found_decisions_cover_the_lineage(decisions, wanted, tree);
    let decision = controller::decision_for(decisions, wanted, tree)->Some_0;
    let j = choose|j: int|
        0 <= j < tree.len() && process::is_same(decision.process, #[trigger] tree[j]);
    process::clients_are_left_out_once(process_tree);
    let n = choose|n: int|
        0 <= n <= process_tree.len() && process::without_clients(process_tree)
            == #[trigger] process_tree.skip(n);
    assert(tree[j] == process_tree[n + j]);
    let at = decisions.index_of(decision);
    pruned_decisions(before.aws_process_decisions@, alive, now, at);
    let k = choose|k: int|
        0 <= k < before.aws_process_decisions@.len() && decisions[at]
            == #[trigger] before.aws_process_decisions@[k] && alive[k]
            && before.aws_process_decisions@[k].expires_at > now;
    assert(process::is_same(before.aws_process_decisions@[k].process, process_tree[n + j]));
}

/// What pruning keeps has not expired and still runs.
pub proof fn pruned_decisions(
    decisions: Seq<AwsCredentialGrant>,
    alive: Seq<bool>,
    now: u64,
    at: int,
)
    requires
        alive.len() == decisions.len(),
        0 <= at < controller_aws::pruned(decisions, alive, now).len(),
    ensures
        exists|k: int|
            0 <= k < decisions.len() && controller_aws::pruned(decisions, alive, now)[at]
                == #[trigger] decisions[k] && alive[k] && decisions[k].expires_at > now,
    decreases decisions.len(),
{
    if decisions.len() > 0 {
        let shorter = controller_aws::pruned(decisions.drop_last(), alive.drop_last(), now);
        if at < shorter.len() {
            pruned_decisions(decisions.drop_last(), alive.drop_last(), now, at);
            let k = choose|k: int|
                0 <= k < decisions.drop_last().len() && shorter[at]
                    == #[trigger] decisions.drop_last()[k] && alive.drop_last()[k]
                    && decisions.drop_last()[k].expires_at > now;
            assert(decisions[k] == decisions.drop_last()[k]);
            assert(alive[k]);
        } else {
            let k = decisions.len() - 1;
            assert(decisions[k] == decisions.last());
            assert(alive[k] == alive.last());
        }
    }
}

/// Pruning keeps what has not expired and still runs.
pub proof fn running_decisions_are_kept(
    decisions: Seq<AwsCredentialGrant>,
    alive: Seq<bool>,
    now: u64,
    k: int,
)
    requires
        alive.len() == decisions.len(),
        0 <= k < decisions.len(),
        alive[k],
        decisions[k].expires_at > now,
    ensures
        controller_aws::pruned(decisions, alive, now).contains(decisions[k]),
    decreases decisions.len(),
{
    let kept = controller_aws::pruned(decisions, alive, now);
    if k == decisions.len() - 1 {
        assert(kept[kept.len() - 1] == decisions[k]);
    } else {
        running_decisions_are_kept(decisions.drop_last(), alive.drop_last(), now, k);
        let shorter = controller_aws::pruned(decisions.drop_last(), alive.drop_last(), now);
        let at = shorter.index_of(decisions[k]);
        assert(kept[at] == shorter[at]);
    }
}

/// After an approval no other decision is held about that profile for that
/// process, and no denial holds for the request's lineage.
pub proof fn the_latest_approval_counts(
    before: Controller,
    id: Seq<char>,
    level: AwsAccessLevel,
    grant_process: Option<ProcessIdentity>,
    ttl_seconds: Option<u64>,
    new_id: String,
    now: u64,
    after: Controller,
    r: Result<(), VaultError>,
)
    requires
        controller_aws::respond_aws_outcome(
            before,
            id,
            Some(level),
            grant_process,
            ttl_seconds,
            new_id,
            now,
            after,
            r,
        ),
        r is Ok,
        controller::pending_aws_index(before.pending_aws@, id) matches Some(i)
            && before.pending_aws@[i].verified,
    ensures
        ({
            let request = before.pending_aws@[controller::pending_aws_index(
                before.pending_aws@,
                id,
            )->Some_0];
            let decision = after.aws_process_decisions@.last();
            &&& after.aws_process_decisions@.len() > 0
            &&& decision.level == level
            &&& decision.profile == request.profile
            &&& decision.expires_at <= now + MAX_GRANT_SECONDS * 1_000
            &&& seqs::last_where(
                after.aws_process_decisions@,
                controller::decides(request.profile@, decision.process),
            ) == Some(decision)
            &&& forall|k: int|
                0 <= k < after.aws_process_decisions@.len() - 1 ==> (
                #[trigger] after.aws_process_decisions@[k]).profile@ != request.profile@
                    || !process::is_same(after.aws_process_decisions@[k].process, decision.process)
            &&& !controller::is_blocked(
                after.aws_process_denials@,
                request.profile@,
                request.process_tree@,
            )
        }),
{
    let i = controller::pending_aws_index(before.pending_aws@, id)->Some_0;
    let request = before.pending_aws@[i];
    let seconds = controller::seconds_or_default(ttl_seconds);
    let holder = controller::boundary(request.process_tree@, request.origin, grant_process)->Ok_0;
    let decision = controller_aws::new_decision(new_id, request, level, holder, seconds, now);
    let p = |d: AwsCredentialGrant|
        d.profile@ != decision.profile@ || !process::is_same(d.process, decision.process);
    let kept = before.aws_process_decisions@.filter(p);
    assert(after.aws_process_decisions@ == kept.push(decision));
    let at = seqs::filtered_positions(before.aws_process_decisions@, p);
    assert forall|k: int| 0 <= k < after.aws_process_decisions@.len() - 1 implies (
    #[trigger] after.aws_process_decisions@[k]).profile@ != request.profile@ || !process::is_same(
        after.aws_process_decisions@[k].process,
        decision.process,
    ) by {
        assert(p(before.aws_process_decisions@[at[k]]));
    }
    let q = |d: AwsCredentialDenial|
        !controller::denies(d, request.profile@, request.process_tree@);
    let left = controller::unblocked(
        before.aws_process_denials@,
        request.profile@,
        request.process_tree@,
    );
    assert(left == before.aws_process_denials@.filter(q));
    let positions = seqs::filtered_positions(before.aws_process_denials@, q);
    assert forall|k: int| 0 <= k < left.len() implies !controller::denies(
        #[trigger] left[k],
        request.profile@,
        request.process_tree@,
    ) by {
        assert(q(before.aws_process_denials@[positions[k]]));
    }
}

/// An approval answers later requests for the profile with its level, from any
/// verified lineage that runs through its process and meets no other decision
/// before it, until it expires or the process ends.
pub proof fn an_approved_level_answers_later_requests(
    decisions: Seq<AwsCredentialGrant>,
    decision: AwsCredentialGrant,
    tree: Seq<ProcessIdentity>,
    i: int,
)
    requires
        decisions.contains(decision),
        0 <= i < tree.len(),
        process::is_same(decision.process, tree[i]),
        forall|k: int|
            0 <= k < decisions.len() && (#[trigger] decisions[k]).profile@ == decision.profile@
                && process::is_same(decisions[k].process, decision.process) ==> decisions[k]
                == decision,
        forall|k: int, j: int|
            0 <= k < decisions.len() && 0 <= j < i && (#[trigger] decisions[k]).profile@
                == decision.profile@ ==> !process::is_same(
                decisions[k].process,
                #[trigger] tree[j],
            ),
    ensures
        controller::decision_for(decisions, decision.profile@, tree) == Some(decision),
    decreases tree.len(),
{
    let p = controller::decides(decision.profile@, tree[0]);
    seqs::last_index_meaning(decisions, p);
    if i == 0 {
        let k = decisions.index_of(decision);
        assert(p(decisions[k]));
    } else {
        assert(seqs::last_where(decisions, p) is None) by {
            if let Some(k) = seqs::last_index(decisions, p) {
                assert(process::is_same(decisions[k].process, tree[0]));
            }
        }
        let rest = tree.skip(1);
        assert(rest[i - 1] == tree[i]);
        assert forall|k: int, j: int|
            0 <= k < decisions.len() && 0 <= j < i - 1 && (#[trigger] decisions[k]).profile@
                == decision.profile@ implies !process::is_same(
            decisions[k].process,
            #[trigger] rest[j],
        ) by {
            assert(rest[j] == tree[j + 1]);
        }
        an_approved_level_answers_later_requests(decisions, decision, rest, i - 1);
    }
}

/// Once a verified request was denied, or nobody answered it, every verified
/// request for the profile from a lineage that shares a process with it, other
/// than the service manager, is denied at once for half an hour.
pub proof fn a_denial_is_remembered(
    before: Seq<AwsCredentialDenial>,
    request: PendingAwsCredentialRequest,
    denial_id: String,
    denied_at: u64,
    middle: Controller,
    process_tree: Seq<ProcessIdentity>,
    alive: Seq<bool>,
    id: Seq<char>,
    now: u64,
    after: Controller,
    r: Result<AwsRequestOutcome, VaultError>,
)
    requires
        request.verified,
        controller::denial_remembered(
            before,
            request,
            denial_id,
            denied_at,
            middle.aws_process_denials@,
        ),
        now < grants::after(denied_at, DEFAULT_GRANT_SECONDS),
        controller::overlap(
            controller::bounding(request.process_tree@),
            process::without_clients(process_tree),
        ),
        controller::normalized_profile(request.profile@) == Ok::<Seq<char>, Seq<char>>(
            request.profile@,
        ),
        controller_aws::begin_aws_outcome(
            middle,
            request.profile@,
            process_tree,
            true,
            alive,
            id,
            now,
            after,
            r,
        ),
    ensures
        r == Ok::<AwsRequestOutcome, VaultError>(AwsRequestOutcome::Denied),
        after.pending_aws == middle.pending_aws,
        after.audit == middle.audit,
{
    let tree = process::without_clients(process_tree);
    let denial = choose|denial: AwsCredentialDenial|
        #[trigger] controller::is_denial_of(denial, request, denial_id, denied_at)
            && middle.aws_process_denials@ == controller::unblocked(
            before,
            request.profile@,
            request.process_tree@,
        ).push(denial);
    let denials = controller::live_denials(middle.aws_process_denials@, now);
    let p = |d: AwsCredentialDenial| d.expires_at > now;
    assert(denials == middle.aws_process_denials@.filter(p));
    let last = middle.aws_process_denials@.len() - 1;
    assert(middle.aws_process_denials@[last] == denial);
    seqs::filter_keeps(middle.aws_process_denials@, p, last);
    let k = choose|k: int| 0 <= k < denials.len() && #[trigger] denials[k] == denial;
    assert(controller::denies(denials[k], request.profile@, tree));
    assert(tree.len() > 0);
}

/// A verified request that a person denied blocks its lineage.
pub proof fn a_denied_request_blocks_its_lineage(
    before: Controller,
    id: Seq<char>,
    new_id: String,
    denied_at: u64,
    middle: Controller,
    done: Result<(), VaultError>,
    process_tree: Seq<ProcessIdentity>,
    alive: Seq<bool>,
    later_id: Seq<char>,
    now: u64,
    after: Controller,
    r: Result<AwsRequestOutcome, VaultError>,
)
    requires
        before.wf(),
        controller_aws::respond_aws_outcome(
            before,
            id,
            None,
            None,
            None,
            new_id,
            denied_at,
            middle,
            done,
        ),
        done is Ok,
        now < grants::after(denied_at, DEFAULT_GRANT_SECONDS),
        ({
            let request = before.pending_aws@[controller::pending_aws_index(
                before.pending_aws@,
                id,
            )->Some_0];
            &&& request.verified
            &&& controller::overlap(
                controller::bounding(request.process_tree@),
                process::without_clients(process_tree),
            )
            &&& controller_aws::begin_aws_outcome(
                middle,
                request.profile@,
                process_tree,
                true,
                alive,
                later_id,
                now,
                after,
                r,
            )
        }),
    ensures
        r == Ok::<AwsRequestOutcome, VaultError>(AwsRequestOutcome::Denied),
{
    seqs::first_index_meaning(before.pending_aws@, controller::has_aws_id(id));
    let i = controller::pending_aws_index(before.pending_aws@, id)->Some_0;
    a_denial_is_remembered(
        before.aws_process_denials@,
        before.pending_aws@[i],
        new_id,
        denied_at,
        middle,
        process_tree,
        alive,
        later_id,
        now,
        after,
        r,
    );
}

/// A verified request that nobody answered blocks its lineage.
pub proof fn an_unanswered_request_blocks_its_lineage(
    before: Controller,
    id: Seq<char>,
    denial_id: String,
    given_up_at: u64,
    middle: Controller,
    process_tree: Seq<ProcessIdentity>,
    alive: Seq<bool>,
    later_id: Seq<char>,
    now: u64,
    after: Controller,
    r: Result<AwsRequestOutcome, VaultError>,
)
    requires
        before.wf(),
        controller_aws::timeout_aws_outcome(before, id, denial_id, given_up_at, middle),
        controller::pending_aws_index(before.pending_aws@, id) is Some,
        now < grants::after(given_up_at, DEFAULT_GRANT_SECONDS),
        ({
            let request = before.pending_aws@[controller::pending_aws_index(
                before.pending_aws@,
                id,
            )->Some_0];
            &&& request.verified
            &&& controller::overlap(
                controller::bounding(request.process_tree@),
                process::without_clients(process_tree),
            )
            &&& controller_aws::begin_aws_outcome(
                middle,
                request.profile@,
                process_tree,
                true,
                alive,
                later_id,
                now,
                after,
                r,
            )
        }),
    ensures
        r == Ok::<AwsRequestOutcome, VaultError>(AwsRequestOutcome::Denied),
{
    seqs::first_index_meaning(before.pending_aws@, controller::has_aws_id(id));
    let i = controller::pending_aws_index(before.pending_aws@, id)->Some_0;
    a_denial_is_remembered(
        before.aws_process_denials@,
        before.pending_aws@[i],
        denial_id,
        given_up_at,
        middle,
        process_tree,
        alive,
        later_id,
        now,
        after,
        r,
    );
}

/// The level that was approved for a process is given at once to every verified
/// request for the profile whose lineage runs through that process, as long as
/// the decision has not expired, the process runs, no denial holds, and no
/// nearer process has a decision of its own.
pub proof fn an_approval_is_reused_by_descendants(
    before: Controller,
    id: Seq<char>,
    level: AwsAccessLevel,
    grant_process: Option<ProcessIdentity>,
    ttl_seconds: Option<u64>,
    new_id: String,
    approved_at: u64,
    middle: Controller,
    done: Result<(), VaultError>,
    process_tree: Seq<ProcessIdentity>,
    i: int,
    alive: Seq<bool>,
    later_id: Seq<char>,
    now: u64,
    after: Controller,
    r: Result<AwsRequestOutcome, VaultError>,
)
    requires
        before.wf(),
        controller_aws::respond_aws_outcome(
            before,
            id,
            Some(level),
            grant_process,
            ttl_seconds,
            new_id,
            approved_at,
            middle,
            done,
        ),
        done is Ok,
        alive.len() == middle.aws_process_decisions@.len(),
        ({
            let request = before.pending_aws@[controller::pending_aws_index(
                before.pending_aws@,
                id,
            )->Some_0];
            let decision = middle.aws_process_decisions@.last();
            let tree = process::without_clients(process_tree);
            &&& request.verified
            &&& alive.last()
            &&& now < decision.expires_at
            &&& 0 <= i < tree.len()
            &&& process::is_same(decision.process, tree[i])
            &&& forall|k: int, j: int|
                0 <= k < middle.aws_process_decisions@.len() && 0 <= j < i && (
                #[trigger] middle.aws_process_decisions@[k]).profile@ == request.profile@
                    ==> !process::is_same(
                    middle.aws_process_decisions@[k].process,
                    #[trigger] tree[j],
                )
            &&& !controller::is_blocked(
                controller::live_denials(middle.aws_process_denials@, now),
                request.profile@,
                tree,
            )
            &&& controller_aws::begin_aws_outcome(
                middle,
                request.profile@,
                process_tree,
                true,
                alive,
                later_id,
                now,
                after,
                r,
            )
        }),
    ensures
        r == Ok::<AwsRequestOutcome, VaultError>(AwsRequestOutcome::Immediate(level)),
{
    seqs::first_index_meaning(before.pending_aws@, controller::has_aws_id(id));
    let at = controller::pending_aws_index(before.pending_aws@, id)->Some_0;
    let request = before.pending_aws@[at];
    let held = middle.aws_process_decisions@;
    let decision = held.last();
    let tree = process::without_clients(process_tree);
    the_latest_approval_counts(
        before,
        id,
        level,
        grant_process,
        ttl_seconds,
        new_id,
        approved_at,
        middle,
        done,
    );
    let kept = controller_aws::pruned(held, alive, now);
    assert(held[held.len() - 1] == decision);
    assert(alive[alive.len() - 1] == alive.last());
    running_decisions_are_kept(held, alive, now, held.len() - 1);
    assert forall|k: int|
        0 <= k < kept.len() && (#[trigger] kept[k]).profile@ == decision.profile@
            && process::is_same(kept[k].process, decision.process) implies kept[k]
        == decision by {
        pruned_decisions(held, alive, now, k);
        let m = choose|m: int|
            0 <= m < held.len() && kept[k] == #[trigger] held[m] && alive[m] && held[m].expires_at
                > now;
        assert(held[m] == kept[k]);
    }
    assert forall|k: int, j: int|
        0 <= k < kept.len() && 0 <= j < i && (#[trigger] kept[k]).profile@
            == decision.profile@ implies !process::is_same(kept[k].process, #[trigger] tree[j]) by {
        pruned_decisions(held, alive, now, k);
        let m = choose|m: int|
            0 <= m < held.len() && kept[k] == #[trigger] held[m] && alive[m] && held[m].expires_at
                > now;
        assert(held[m] == kept[k]);
    }
    an_approved_level_answers_later_requests(kept, decision, tree, i);
}

/// A denial that has expired holds no more.
pub proof fn denials_expire(
    denials: Seq<AwsCredentialDenial>,
    profile: Seq<char>,
    tree: Seq<ProcessIdentity>,
    now: u64,
)
    requires
        forall|k: int|
            0 <= k < denials.len() && (#[trigger] denials[k]).expires_at > now
                ==> !controller::denies(denials[k], profile, tree),
    ensures
        !controller::is_blocked(controller::live_denials(denials, now), profile, tree),
{
    let p = |d: AwsCredentialDenial| d.expires_at > now;
    let live = controller::live_denials(denials, now);
    assert(live == denials.filter(p));
    let at = seqs::filtered_positions(denials, p);
    assert forall|k: int| 0 <= k < live.len() implies !controller::denies(
        #[trigger] live[k],
        profile,
        tree,
    ) by {
        assert(live[k] == denials[at[k]]);
    }
}

/// Lifting the only denial that holds for a lineage lets it ask again.
pub proof fn lifting_a_denial_unblocks(
    before: Controller,
    id: Seq<char>,
    now: u64,
    after: Controller,
    profile: Seq<char>,
    tree: Seq<ProcessIdentity>,
)
    requires
        controller_aws::unblock_outcome(before, id, now, after),
        forall|k: int|
            0 <= k < before.aws_process_denials@.len() && Some(k) != controller_aws::denial_index(
                before.aws_process_denials@,
                id,
            ) ==> !controller::denies(#[trigger] before.aws_process_denials@[k], profile, tree),
    ensures
        !controller::is_blocked(after.aws_process_denials@, profile, tree),
{
    let held = before.aws_process_denials@;
    let left = after.aws_process_denials@;
    let p = controller_aws::is_denial(id);
    seqs::first_index_meaning(held, p);
    assert forall|k: int| 0 <= k < left.len() implies !controller::denies(
        #[trigger] left[k],
        profile,
        tree,
    ) by {
        match controller_aws::denial_index(held, id) {
            Some(i) => {
                let other = if k < i {
                    k
                } else {
                    k + 1
                };
                assert(left[k] == held[other]);
            },
            None => {},
        }
    }
}

/// A denial that was remembered can be lifted by its identifier: nothing then
/// holds against the lineage and the profile any more.
pub proof fn lifting_undoes_a_denial(
    before: Seq<AwsCredentialDenial>,
    request: PendingAwsCredentialRequest,
    denial_id: String,
    denied_at: u64,
    middle: Controller,
    now: u64,
    after: Controller,
)
    requires
        request.verified,
        controller::denial_remembered(
            before,
            request,
            denial_id,
            denied_at,
            middle.aws_process_denials@,
        ),
        forall|k: int| 0 <= k < before.len() ==> (#[trigger] before[k]).id@ != denial_id@,
        controller_aws::unblock_outcome(middle, denial_id@, now, after),
    ensures
        after.aws_process_denials@ == controller::unblocked(
            before,
            request.profile@,
            request.process_tree@,
        ),
        !controller::is_blocked(
            after.aws_process_denials@,
            request.profile@,
            request.process_tree@,
        ),
{
    let held = middle.aws_process_denials@;
    let kept = controller::unblocked(before, request.profile@, request.process_tree@);
    let p = |d: AwsCredentialDenial|
        !controller::denies(d, request.profile@, request.process_tree@);
    let at = seqs::filtered_positions(before, p);
    seqs::first_index_meaning(held, controller_aws::is_denial(denial_id@));
    assert(kept == before.filter(p));
    assert forall|k: int| 0 <= k < kept.len() implies (#[trigger] kept[k]).id@ != denial_id@
        && p(kept[k]) by {
        assert(kept[k] == before[at[k]]);
    }
    let last = kept.len() as int;
    assert(held[last].id@ == denial_id@);
    assert forall|k: int| 0 <= k < last implies held[k] == kept[k] by {}
    assert(controller_aws::denial_index(held, denial_id@) == Some(last));
    assert(held.remove(last) =~= kept);
}

/// Taking back a decision right after it was made leaves none for its profile
/// and process.
pub proof fn revoking_undoes_an_approval(
    decisions: Seq<AwsCredentialGrant>,
    decision: AwsCredentialGrant,
    middle: Controller,
    now: u64,
    after: Controller,
)
    requires
        middle.aws_process_decisions@ == controller::decided(decisions, decision),
        forall|k: int| 0 <= k < decisions.len() ==> (#[trigger] decisions[k]).id@ != decision.id@,
        controller_aws::revoke_aws_outcome(middle, decision.id@, now, after),
    ensures
        forall|k: int|
            0 <= k < after.aws_process_decisions@.len() ==> (
            #[trigger] after.aws_process_decisions@[k]).profile@ != decision.profile@
                || !process::is_same(after.aws_process_decisions@[k].process, decision.process),
{
    let p = |d: AwsCredentialGrant|
        d.profile@ != decision.profile@ || !process::is_same(d.process, decision.process);
    let kept = decisions.filter(p);
    let held = middle.aws_process_decisions@;
    assert(held == kept.push(decision));
    let at = seqs::filtered_positions(decisions, p);
    let q = controller_aws::is_decision(decision.id@);
    seqs::first_index_meaning(held, q);
    assert(q(held[kept.len() as int]));
    let i = controller_aws::decision_index(held, decision.id@)->Some_0;
    assert(i == kept.len()) by {
        if i < kept.len() {
            assert(held[i] == decisions[at[i]]);
        }
    }
    assert forall|k: int| 0 <= k < after.aws_process_decisions@.len() implies (
    #[trigger] after.aws_process_decisions@[k]).profile@ != decision.profile@ || !process::is_same(
        after.aws_process_decisions@[k].process,
        decision.process,
    ) by {
        assert(after.aws_process_decisions@[k] == kept[k]);
        assert(p(decisions[at[k]]));
    }
}

/// While the vault is locked no request for AWS credentials is approved.
pub proof fn a_locked_vault_approves_no_credentials(
    before: Controller,
    id: Seq<char>,
    level: AwsAccessLevel,
    grant_process: Option<ProcessIdentity>,
    ttl_seconds: Option<u64>,
    new_id: String,
    now: u64,
    after: Controller,
    r: Result<(), VaultError>,
)
    requires
        !vault::is_unlocked(before.vault),
        controller_aws::respond_aws_outcome(
            before,
            id,
            Some(level),
            grant_process,
            ttl_seconds,
            new_id,
            now,
            after,
            r,
        ),
    ensures
        r is Err,
        after == before,
{
}

/// Keeping a renewed session leaves the profiles and the discovered accounts
/// as they are, whatever the session carries.
pub proof fn a_renewed_session_keeps_newer_profiles<
    E: Fn(&VaultPlaintext) -> Result<Vec<u8>, String>,
    W: Fn(&VaultFile) -> Result<(), VaultError>,
>(
    before: VaultStore,
    session: AwsSettings,
    nonce: Result<Vec<u8>, VaultError>,
    encode: E,
    write: W,
    after: VaultStore,
    r: Result<(), VaultError>,
)
    requires
        controller_aws::persist_outcome(
            before,
            session,
            false,
            nonce,
            encode,
            write,
            after,
            r,
        ),
        r is Ok,
    ensures
        ({
            let kept = before.data->Some_0.aws->Some_0;
            let settings = after.data->Some_0.aws->Some_0;
            &&& settings.targets@ == kept.targets@
            &&& settings.discovery_complete == kept.discovery_complete
            &&& settings.start_url == kept.start_url
            &&& settings.sso_region == kept.sso_region
            &&& settings.token == session.token
            &&& settings.registration == session.registration
        }),
{
}

/// A configuration that is kept ends every decision and denial; one for
/// another portal or region also ends the session and forgets the accounts and
/// the profiles.
pub proof fn a_new_configuration_starts_afresh<
    E: Fn(&VaultPlaintext) -> Result<Vec<u8>, String>,
    W: Fn(&VaultFile) -> Result<(), VaultError>,
>(
    before: Controller,
    configuration: AwsConfiguration,
    nonce: Result<Vec<u8>, VaultError>,
    encode: E,
    write: W,
    after: Controller,
    r: Result<(), VaultError>,
)
    requires
        controller_aws::configure_outcome(
            before,
            configuration,
            nonce,
            encode,
            write,
            after,
            r,
        ),
        r is Ok,
    ensures
        after.aws_process_decisions@.len() == 0,
        after.aws_process_denials@.len() == 0,
        after.aws_login is Idle,
        before.vault.data->Some_0.aws matches Some(kept)
            && crate::aws::changes_connection(kept, configuration) ==> {
            &&& after.vault.data->Some_0.aws matches Some(settings)
            &&& settings.targets@.len() == 0
            &&& crate::aws::is_fresh(settings)
        },
{
}

} // verus!
