//! What a snapshot shows, stated over its fields and what they show.

use vstd::prelude::*;

use crate::controller;
use crate::controller::{
    AppSnapshot, AwsCredentialDenial, AwsCredentialGrant, Controller, PendingAwsCredentialRequest,
    PendingRequest,
};
use crate::grants;
use crate::grants::Grant;
use crate::grants_laws;
use crate::seqs;
use crate::seqs::Ranked;
use crate::vault::VaultError;
use crate::vault_records;

verus! {

proof fn sorting_keeps<T: Ranked>(s: Seq<T>)
    ensures
        seqs::in_order(s).len() == s.len(),
        forall|x: T| #[trigger] seqs::in_order(s).contains(x) <==> s.contains(x),
{
    broadcast use vstd::seq_lib::group_to_multiset_ensures;

    seqs::in_order_is_ordered(s);
    assert forall|x: T| #[trigger] seqs::in_order(s).contains(x) <==> s.contains(x) by {
        assert(seqs::in_order(s).to_multiset().count(x) > 0 <==> seqs::in_order(s).contains(x));
        assert(s.to_multiset().count(x) > 0 <==> s.contains(x));
    }
}

/// Whether one request shows another.
pub open spec fn shows(shown: PendingRequest, request: PendingRequest) -> bool {
    &&& shown.id == request.id
    &&& shown.secret == request.secret
    &&& shown.verified == request.verified
    &&& shown.process_tree@ == request.process_tree@
    &&& shown.origin == request.origin
    &&& shown.requested_at == request.requested_at
}

/// Whether one request for credentials shows another.
pub open spec fn shows_aws(
    shown: PendingAwsCredentialRequest,
    request: PendingAwsCredentialRequest,
) -> bool {
    &&& shown.id == request.id
    &&& shown.profile == request.profile
    &&& shown.verified == request.verified
    &&& shown.process_tree@ == request.process_tree@
    &&& shown.origin == request.origin
    &&& shown.requested_at == request.requested_at
}

/// Every request is shown as it waits, the oldest first.
pub proof fn requests_are_shown_oldest_first(
    shown: AppSnapshot,
    before: Controller,
    present: Result<bool, VaultError>,
    now: u64,
    now_seconds: u64,
)
    requires
        controller::is_snapshot(shown, before, present, now, now_seconds),
    ensures
        shown.pending@.len() == before.pending@.len(),
        shown.pending_aws@.len() == before.pending_aws@.len(),
        forall|i: int|
            0 <= i < before.pending@.len() ==> exists|k: int|
                0 <= k < shown.pending@.len() && shows(
                    #[trigger] shown.pending@[k],
                    #[trigger] before.pending@[i],
                ),
        forall|i: int|
            0 <= i < before.pending_aws@.len() ==> exists|k: int|
                0 <= k < shown.pending_aws@.len() && shows_aws(
                    #[trigger] shown.pending_aws@[k],
                    #[trigger] before.pending_aws@[i],
                ),
        forall|j: int, k: int|
            0 <= j < k < shown.pending@.len() ==> (#[trigger] shown.pending@[j]).requested_at <= (
            #[trigger] shown.pending@[k]).requested_at,
        forall|j: int, k: int|
            0 <= j < k < shown.pending_aws@.len() ==> (
            #[trigger] shown.pending_aws@[j]).requested_at <= (
            #[trigger] shown.pending_aws@[k]).requested_at,
{
    let waiting = seqs::in_order(before.pending@);
    let waiting_aws = seqs::in_order(before.pending_aws@);
    sorting_keeps(before.pending@);
    sorting_keeps(before.pending_aws@);
    seqs::in_order_is_ordered(before.pending@);
    seqs::in_order_is_ordered(before.pending_aws@);
    assert forall|i: int| 0 <= i < before.pending@.len() implies exists|k: int|
        0 <= k < shown.pending@.len() && shows(
            #[trigger] shown.pending@[k],
            #[trigger] before.pending@[i],
        ) by {
        assert(before.pending@.contains(before.pending@[i]));
        assert(waiting.contains(before.pending@[i]));
        let k = waiting.index_of(before.pending@[i]);
        assert(controller::same_request(shown.pending@[k], waiting[k]));
        assert(shows(shown.pending@[k], before.pending@[i]));
    }
    assert forall|i: int| 0 <= i < before.pending_aws@.len() implies exists|k: int|
        0 <= k < shown.pending_aws@.len() && shows_aws(
            #[trigger] shown.pending_aws@[k],
            #[trigger] before.pending_aws@[i],
        ) by {
        assert(before.pending_aws@.contains(before.pending_aws@[i]));
        assert(waiting_aws.contains(before.pending_aws@[i]));
        let k = waiting_aws.index_of(before.pending_aws@[i]);
        assert(controller::same_aws_request(shown.pending_aws@[k], waiting_aws[k]));
        assert(shows_aws(shown.pending_aws@[k], before.pending_aws@[i]));
    }
    assert forall|j: int, k: int| 0 <= j < k < shown.pending@.len() implies (
    #[trigger] shown.pending@[j]).requested_at <= (#[trigger] shown.pending@[k]).requested_at by {
        assert(controller::same_request(shown.pending@[j], waiting[j]));
        assert(controller::same_request(shown.pending@[k], waiting[k]));
        assert(!waiting[k].before(&waiting[j]));
    }
    assert forall|j: int, k: int| 0 <= j < k < shown.pending_aws@.len() implies (
    #[trigger] shown.pending_aws@[j]).requested_at <= (
    #[trigger] shown.pending_aws@[k]).requested_at by {
        assert(controller::same_aws_request(shown.pending_aws@[j], waiting_aws[j]));
        assert(controller::same_aws_request(shown.pending_aws@[k], waiting_aws[k]));
        assert(!waiting_aws[k].before(&waiting_aws[j]));
    }
}

/// A snapshot says whether the vault is open, and shows its secrets by name only
/// where it is; it shows how the login stands and every line of the record, the
/// newest first.
pub proof fn snapshots_show_what_is_open(
    shown: AppSnapshot,
    before: Controller,
    present: Result<bool, VaultError>,
    now: u64,
    now_seconds: u64,
)
    requires
        before.wf(),
        controller::is_snapshot(shown, before, present, now, now_seconds),
    ensures
        shown.vault_exists <==> present is Ok && present->Ok_0,
        shown.unlocked <==> before.vault.data is Some,
        before.vault.data is None ==> shown.secrets@.len() == 0 && shown.aws is None,
        before.vault.data is Some ==> {
            &&& shown.secrets@.len() == vault_records::records(before.vault).len()
            &&& forall|i: int|
                0 <= i < shown.secrets@.len() ==> (#[trigger] shown.secrets@[i]).name
                    == vault_records::records(before.vault)[i].name
            &&& shown.aws is Some <==> before.vault.data->Some_0.aws is Some
        },
        shown.max_grant_seconds == 3_600,
        shown.audit@.len() == before.audit@.len(),
        forall|i: int|
            0 <= i < shown.audit@.len() ==> (#[trigger] shown.audit@[i])
                == before.audit@[before.audit@.len() - 1 - i],
        shown.aws_login == before.aws_login,
{
    if before.vault.data is Some {
        vault_records::lists_show_every_secret(before.vault, shown.secrets@);
    }
}

/// Of the grants, the decisions and the denials exactly those that have not
/// expired are shown.
pub proof fn what_has_expired_is_not_shown(
    shown: AppSnapshot,
    before: Controller,
    present: Result<bool, VaultError>,
    now: u64,
    now_seconds: u64,
)
    requires
        controller::is_snapshot(shown, before, present, now, now_seconds),
    ensures
        forall|g: Grant| #[trigger]
            shown.grants@.contains(g) <==> before.grants.grants@.contains(g) && g.expires_at > now,
        forall|j: int, k: int|
            0 <= j < k < shown.grants@.len() ==> (#[trigger] shown.grants@[j]).expires_at <= (
            #[trigger] shown.grants@[k]).expires_at,
        forall|d: AwsCredentialGrant| #[trigger]
            shown.aws_grants@.contains(d) <==> before.aws_process_decisions@.contains(d)
                && d.expires_at > now,
        forall|k: int|
            0 <= k < shown.aws_denials@.len() ==> (#[trigger] shown.aws_denials@[k]).expires_at
                > now,
        forall|i: int|
            0 <= i < before.aws_process_denials@.len() && (
            #[trigger] before.aws_process_denials@[i]).expires_at > now ==> exists|k: int|
                0 <= k < shown.aws_denials@.len() && (#[trigger] shown.aws_denials@[k]).id
                    == before.aws_process_denials@[i].id && shown.aws_denials@[k].profile
                    == before.aws_process_denials@[i].profile,
{
    let held = before.grants.grants@;
    let live = grants::live(held, now);
    let p = |g: Grant| g.expires_at > now;
    assert(live == held.filter(p));
    sorting_keeps(live);
    grants_laws::lists_start_with_the_first_to_expire(live);
    kept_are_those(held, p);
    assert forall|g: Grant| #[trigger]
        shown.grants@.contains(g) <==> held.contains(g) && g.expires_at > now by {
        assert(live.contains(g) <==> held.contains(g) && p(g));
    }
    let q = |d: AwsCredentialGrant| d.expires_at > now;
    assert(shown.aws_grants@ == before.aws_process_decisions@.filter(q));
    kept_are_those(before.aws_process_decisions@, q);
    assert forall|d: AwsCredentialGrant| #[trigger]
        shown.aws_grants@.contains(d) <==> before.aws_process_decisions@.contains(d) && d.expires_at
            > now by {
        assert(before.aws_process_decisions@.filter(q).contains(d)
            <==> before.aws_process_decisions@.contains(d) && q(d));
    }
    let denials = before.aws_process_denials@;
    let d = |d: AwsCredentialDenial| d.expires_at > now;
    let kept = controller::live_denials(denials, now);
    assert(kept == denials.filter(d));
    let at = seqs::filtered_positions(denials, d);
    assert forall|k: int| 0 <= k < shown.aws_denials@.len() implies (
    #[trigger] shown.aws_denials@[k]).expires_at > now by {
        assert(controller::same_denial(shown.aws_denials@[k], kept[k]));
        assert(kept[k] == denials[at[k]]);
    }
    assert forall|i: int|
        0 <= i < denials.len() && (#[trigger] denials[i]).expires_at > now implies exists|k: int|
        0 <= k < shown.aws_denials@.len() && (#[trigger] shown.aws_denials@[k]).id == denials[i].id
            && shown.aws_denials@[k].profile == denials[i].profile by {
        seqs::filter_keeps(denials, d, i);
        let k = choose|k: int| 0 <= k < kept.len() && #[trigger] kept[k] == denials[i];
        assert(controller::same_denial(shown.aws_denials@[k], kept[k]));
    }
}

proof fn kept_are_those<T>(s: Seq<T>, p: spec_fn(T) -> bool)
    ensures
        forall|x: T| #[trigger] s.filter(p).contains(x) <==> s.contains(x) && p(x),
{
    assert forall|x: T| #[trigger] s.filter(p).contains(x) <==> s.contains(x) && p(x) by {
        if s.filter(p).contains(x) {
            grants::filtered_elements(s, p, x);
        }
        if s.contains(x) && p(x) {
            let i = s.index_of(x);
            seqs::filter_keeps(s, p, i);
            let k = choose|k: int| 0 <= k < s.filter(p).len() && #[trigger] s.filter(p)[k] == s[i];
            assert(s.filter(p)[k] == x);
        }
    }
}

/// Looking at the state changes nothing but that what has expired is forgotten.
pub proof fn looking_changes_nothing(before: Controller, now: u64, after: Controller)
    requires
        controller::expired_forgotten(before, now, after),
    ensures
        after.vault == before.vault,
        after.pending == before.pending,
        after.pending_aws == before.pending_aws,
        after.resolutions == before.resolutions,
        after.aws_resolutions == before.aws_resolutions,
        after.waiting_for_unlock == before.waiting_for_unlock,
        after.audit == before.audit,
        after.aws_login == before.aws_login,
        forall|g: Grant| #[trigger]
            after.grants.grants@.contains(g) <==> before.grants.grants@.contains(g) && g.expires_at
                > now,
        forall|d: AwsCredentialGrant| #[trigger]
            after.aws_process_decisions@.contains(d) <==> before.aws_process_decisions@.contains(d)
                && d.expires_at > now,
        forall|d: AwsCredentialDenial| #[trigger]
            after.aws_process_denials@.contains(d) <==> before.aws_process_denials@.contains(d)
                && d.expires_at > now,
{
    let p = |g: Grant| g.expires_at > now;
    assert(after.grants.grants@ == before.grants.grants@.filter(p));
    kept_are_those(before.grants.grants@, p);
    assert forall|g: Grant| #[trigger]
        after.grants.grants@.contains(g) <==> before.grants.grants@.contains(g) && g.expires_at
            > now by {
        assert(before.grants.grants@.filter(p).contains(g) <==> before.grants.grants@.contains(g)
            && p(g));
    }
    let q = |d: AwsCredentialGrant| d.expires_at > now;
    assert(after.aws_process_decisions@ == before.aws_process_decisions@.filter(q));
    kept_are_those(before.aws_process_decisions@, q);
    assert forall|d: AwsCredentialGrant| #[trigger]
        after.aws_process_decisions@.contains(d) <==> before.aws_process_decisions@.contains(d)
            && d.expires_at > now by {
        assert(before.aws_process_decisions@.filter(q).contains(d)
            <==> before.aws_process_decisions@.contains(d) && q(d));
    }
    let e = |d: AwsCredentialDenial| d.expires_at > now;
    assert(after.aws_process_denials@ == before.aws_process_denials@.filter(e));
    kept_are_those(before.aws_process_denials@, e);
    assert forall|d: AwsCredentialDenial| #[trigger]
        after.aws_process_denials@.contains(d) <==> before.aws_process_denials@.contains(d)
            && d.expires_at > now by {
        assert(before.aws_process_denials@.filter(e).contains(d)
            <==> before.aws_process_denials@.contains(d) && e(d));
    }
}

} // verus!
