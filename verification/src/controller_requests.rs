//! How requests for secrets are answered, stated over the requests, the grants,
//! the posted answers and the lines of the record themselves.

use vstd::prelude::*;

use crate::controller;
use crate::controller::{
    Answer, ApprovalDecision, AuditAction, AuditEntry, AuditRow, Controller, PendingRequest,
    PostedResolution, RequestOutcome, RequestResolution,
};
use crate::grants;
use crate::grants::Grant;
use crate::grants_laws;
use crate::process;
use crate::process::ProcessIdentity;
use crate::seqs;
use crate::text;
use crate::vault;
use crate::vault::{VaultEntry, VaultError, VaultFile, VaultPlaintext, VaultStore};
use crate::vault_records;

verus! {

/// Whether a line of the record tells of something.
pub open spec fn tells(
    entry: AuditEntry,
    now: u64,
    action: AuditAction,
    secret: Seq<char>,
    seconds: Option<u64>,
    holder: ProcessIdentity,
) -> bool {
    &&& entry.occurred_at == now
    &&& entry.action == action
    &&& entry.secret@ == secret
    &&& entry.ttl_seconds == seconds
    &&& entry.process == holder
    &&& entry.id@.len() == 36
}

/// Whether the record holds one line more than before, with the oldest left out
/// where there would be more than 500.
pub open spec fn one_more(before: Seq<AuditEntry>, after: Seq<AuditEntry>) -> bool {
    &&& after.len() == if before.len() < 500 {
        before.len() + 1
    } else {
        500
    }
    &&& forall|i: int|
        0 <= i < after.len() - 1 ==> (#[trigger] after[i]) == before[before.len() - after.len() + 1
            + i]
}

/// A line that is recorded stands behind the older ones, of which the newest
/// stay.
pub proof fn lines_are_recorded_behind_the_others(
    before: Seq<AuditEntry>,
    line: AuditRow,
    after: Seq<AuditEntry>,
)
    requires
        controller::line_recorded(before, line, after),
    ensures
        one_more(before, after),
        tells(
            after.last(),
            line.occurred_at,
            line.action,
            line.secret,
            line.ttl_seconds,
            line.process,
        ),
{
    let all = controller::rows(before) + seq![line];
    assert(controller::rows(after) == controller::newest(all));
    assert(controller::rows(before).len() == before.len());
    assert(controller::rows(after).len() == after.len());
    assert(all.len() == before.len() + 1);
    let n = after.len() - 1;
    assert(n >= 0);
    assert(controller::newest(all)[n] == all[before.len() as int]);
    assert(controller::rows(after)[n] == controller::row(after[n]));
    let older = controller::older_lines(seq![line], after);
    assert(older == n);
    assert forall|i: int| 0 <= i < n implies (#[trigger] after[i]) == before[before.len()
        - after.len() + 1 + i] by {
        assert(after.take(older)[i] == after[i]);
        assert(before.skip(before.len() - older)[i] == before[before.len() - older + i]);
    }
}

/// Whether an answer to a request was posted behind the others.
pub open spec fn posted(
    before: Seq<PostedResolution>,
    id: Seq<char>,
    approved: bool,
    after: Seq<PostedResolution>,
) -> bool {
    &&& after.len() == before.len() + 1
    &&& after.last().id@ == id
    &&& approved ==> after.last().resolution is Approved
    &&& !approved ==> after.last().resolution is Denied
    &&& forall|i: int|
        0 <= i < before.len() ==> (#[trigger] after[i]).id@ == before[i].id@ && controller::answer(
            after[i].resolution,
        ) == controller::answer(before[i].resolution)
}

proof fn posts_are_kept(
    before: Seq<PostedResolution>,
    id: Seq<char>,
    approved: bool,
    after: Seq<PostedResolution>,
)
    requires
        controller::posts(after) == controller::posts(before).push(
            (
                id,
                if approved {
                    Answer::Approved
                } else {
                    Answer::Denied
                },
            ),
        ),
    ensures
        posted(before, id, approved, after),
{
    let was = controller::posts(before);
    let is = controller::posts(after);
    assert(is.len() == after.len() && was.len() == before.len());
    assert(is[before.len() as int] == (after[before.len() as int].id@, controller::answer(
        after[before.len() as int].resolution,
    )));
    assert forall|i: int| 0 <= i < before.len() implies (#[trigger] after[i]).id@ == before[i].id@
        && controller::answer(after[i].resolution) == controller::answer(before[i].resolution) by {
        assert(is[i] == was[i]);
    }
}

/// What an answer says is what was answered: an approval, a denial, or a failure
/// with its message.
pub proof fn answers_say_what_was_answered(resolution: RequestResolution)
    ensures
        controller::answer(resolution) is Approved <==> resolution is Approved,
        controller::answer(resolution) is Denied <==> resolution is Denied,
        resolution matches RequestResolution::Failed(error) ==> controller::answer(resolution)
            == Answer::Failed(error@),
{
}

proof fn asked_request(pending: Seq<PendingRequest>, id: Seq<char>, i: int)
    requires
        controller::distinct(pending),
        0 <= i < pending.len(),
        pending[i].id@ == id,
    ensures
        controller::pending_index(pending, id) == Some(i),
{
    let p = controller::has_id(id);
    seqs::first_index_meaning(pending, p);
    assert(p(pending[i]));
    let k = seqs::first_index(pending, p)->Some_0;
    assert(pending[k].id@ == pending[i].id@);
}

proof fn nothing_asked(pending: Seq<PendingRequest>, id: Seq<char>)
    requires
        forall|j: int| 0 <= j < pending.len() ==> (#[trigger] pending[j]).id@ != id,
    ensures
        controller::pending_index(pending, id) is None,
{
    let p = controller::has_id(id);
    seqs::first_index_meaning(pending, p);
    if let Some(k) = seqs::first_index(pending, p) {
        assert(p(pending[k]));
    }
}

/// Whether a request waits for the vault to be opened.
pub open spec fn awaits_vault(controller: Controller, id: Seq<char>) -> bool {
    exists|k: int|
        0 <= k < controller.waiting_for_unlock@.len() && (
        #[trigger] controller.waiting_for_unlock@[k])@ == id
}

proof fn waiting_means(controller: Controller, id: Seq<char>)
    ensures
        controller::is_waiting(controller, id) <==> awaits_vault(controller, id),
{
    let shown = text::views(controller.waiting_for_unlock@);
    if shown.contains(id) {
        let k = shown.index_of(id);
        assert(controller.waiting_for_unlock@[k]@ == id);
    }
    if awaits_vault(controller, id) {
        let k = choose|k: int|
            0 <= k < controller.waiting_for_unlock@.len() && (
            #[trigger] controller.waiting_for_unlock@[k])@ == id;
        assert(shown[k] == id);
    }
}

/// A request that nobody made, or that was answered, cannot be decided.
pub proof fn only_waiting_requests_are_decided(
    before: Controller,
    id: Seq<char>,
    decision: ApprovalDecision,
    ttl_seconds: Option<u64>,
    grant_process: Option<ProcessIdentity>,
    grant_id: String,
    now: u64,
    after: Controller,
    r: Result<(), VaultError>,
)
    requires
        controller::respond_outcome(
            before,
            id,
            decision,
            ttl_seconds,
            grant_process,
            grant_id,
            now,
            after,
            r,
        ),
        forall|j: int| 0 <= j < before.pending@.len() ==> (#[trigger] before.pending@[j]).id@ != id,
    ensures
        r is Err,
        after == before,
{
    nothing_asked(before.pending@, id);
}

/// A denied request is answered with a denial, whatever state the vault is in:
/// it waits no longer, no grant is given, and the record tells of the denial.
pub proof fn a_denied_secret_is_refused(
    before: Controller,
    i: int,
    ttl_seconds: Option<u64>,
    grant_process: Option<ProcessIdentity>,
    grant_id: String,
    now: u64,
    after: Controller,
    r: Result<(), VaultError>,
)
    requires
        before.wf(),
        0 <= i < before.pending@.len(),
        controller::respond_outcome(
            before,
            before.pending@[i].id@,
            ApprovalDecision::Deny,
            ttl_seconds,
            grant_process,
            grant_id,
            now,
            after,
            r,
        ),
    ensures
        r is Ok,
        posted(before.resolutions@, before.pending@[i].id@, false, after.resolutions@),
        after.pending@ == before.pending@.remove(i),
        after.grants.grants@ == before.grants.grants@,
        after.vault == before.vault,
        one_more(before.audit@, after.audit@),
        tells(
            after.audit@.last(),
            now,
            AuditAction::Denied,
            before.pending@[i].secret@,
            None,
            before.pending@[i].origin,
        ),
{
    let request = before.pending@[i];
    asked_request(before.pending@, request.id@, i);
    posts_are_kept(before.resolutions@, request.id@, false, after.resolutions@);
    lines_are_recorded_behind_the_others(
        before.audit@,
        controller::decision_row(
            request,
            ApprovalDecision::Deny,
            controller::seconds_or_default(ttl_seconds),
            request.origin,
            now,
        ),
        after.audit@,
    );
}

/// A request that is allowed once is answered with an approval and leaves no
/// grant; while the vault is not open it cannot be allowed.
pub proof fn a_secret_is_allowed_once(
    before: Controller,
    i: int,
    ttl_seconds: Option<u64>,
    grant_process: Option<ProcessIdentity>,
    grant_id: String,
    now: u64,
    after: Controller,
    r: Result<(), VaultError>,
)
    requires
        before.wf(),
        0 <= i < before.pending@.len(),
        controller::respond_outcome(
            before,
            before.pending@[i].id@,
            ApprovalDecision::Once,
            ttl_seconds,
            grant_process,
            grant_id,
            now,
            after,
            r,
        ),
    ensures
        awaits_vault(before, before.pending@[i].id@) ==> r is Err && after == before,
        !awaits_vault(before, before.pending@[i].id@) ==> {
            &&& r is Ok
            &&& posted(before.resolutions@, before.pending@[i].id@, true, after.resolutions@)
            &&& after.pending@ == before.pending@.remove(i)
            &&& after.grants.grants@ == before.grants.grants@
            &&& after.vault == before.vault
            &&& one_more(before.audit@, after.audit@)
            &&& tells(
                after.audit@.last(),
                now,
                AuditAction::AllowedOnce,
                before.pending@[i].secret@,
                None,
                before.pending@[i].origin,
            )
        },
{
    let request = before.pending@[i];
    asked_request(before.pending@, request.id@, i);
    waiting_means(before, request.id@);
    if !awaits_vault(before, request.id@) {
        posts_are_kept(before.resolutions@, request.id@, true, after.resolutions@);
        lines_are_recorded_behind_the_others(
            before.audit@,
            controller::decision_row(
                request,
                ApprovalDecision::Once,
                controller::seconds_or_default(ttl_seconds),
                request.origin,
                now,
            ),
            after.audit@,
        );
    }
}

/// Whether an identity is of one of the processes of a lineage, which is no
/// earlier one, and that process.
pub open spec fn stands_for(
    wanted: ProcessIdentity,
    tree: Seq<ProcessIdentity>,
    k: int,
) -> bool {
    &&& 0 <= k < tree.len()
    &&& tree[k].pid == wanted.pid
    &&& tree[k].started_at@ == wanted.started_at@
    &&& tree[k].executable@ == wanted.executable@
    &&& forall|j: int|
        0 <= j < k ==> !((#[trigger] tree[j]).pid == wanted.pid && tree[j].started_at@
            == wanted.started_at@ && tree[j].executable@ == wanted.executable@)
}

/// The process that is meant: the chosen one, or else the requester.
pub open spec fn meant(
    origin: ProcessIdentity,
    selected: Option<ProcessIdentity>,
) -> ProcessIdentity {
    match selected {
        Some(selected) => selected,
        None => origin,
    }
}

/// The process that a grant is for is the one that was chosen, or else the
/// requester, as it stands in the lineage. One that does not stand there is
/// refused, and so is the service manager.
pub proof fn grants_are_bound_to_the_lineage(
    tree: Seq<ProcessIdentity>,
    origin: ProcessIdentity,
    selected: Option<ProcessIdentity>,
)
    ensures
        ({
            let wanted = meant(origin, selected);
            match controller::boundary(tree, origin, selected) {
                Ok(holder) => !process::is_launchd(wanted) && exists|k: int| #[trigger]
                    stands_for(wanted, tree, k) && holder == tree[k],
                Err(_) => process::is_launchd(wanted) || forall|k: int| !#[trigger]
                    stands_for(wanted, tree, k),
            }
        }),
{
    let wanted = meant(origin, selected);
    let p = |p: ProcessIdentity| process::is_same(p, wanted);
    seqs::first_index_meaning(tree, p);
    match seqs::first_index(tree, p) {
        Some(k) => {
            assert forall|j: int| 0 <= j < k implies !((#[trigger] tree[j]).pid == wanted.pid
                && tree[j].started_at@ == wanted.started_at@ && tree[j].executable@
                == wanted.executable@) by {
                assert(!p(tree[j]));
            }
            assert(stands_for(wanted, tree, k));
        },
        None => {
            assert forall|k: int| !#[trigger] stands_for(wanted, tree, k) by {
                if stands_for(wanted, tree, k) {
                    assert(!p(tree[k]));
                }
            }
        },
    }
}

/// A request that is allowed for some time is answered with an approval, and a
/// grant of its secret is given to the chosen process of its lineage, from now
/// for the chosen time, or half an hour; the record tells of it. That needs a
/// verified requester, an open vault, a process of the lineage that is not the
/// service manager, and one second to one hour.
pub proof fn a_secret_is_allowed_for_some_time(
    before: Controller,
    i: int,
    ttl_seconds: Option<u64>,
    grant_process: Option<ProcessIdentity>,
    grant_id: String,
    now: u64,
    after: Controller,
    r: Result<(), VaultError>,
)
    requires
        before.wf(),
        0 <= i < before.pending@.len(),
        controller::respond_outcome(
            before,
            before.pending@[i].id@,
            ApprovalDecision::Temporary,
            ttl_seconds,
            grant_process,
            grant_id,
            now,
            after,
            r,
        ),
    ensures
        ({
            let request = before.pending@[i];
            let seconds = match ttl_seconds {
                Some(seconds) => seconds,
                None => 1_800,
            };
            let wanted = meant(request.origin, grant_process);
            &&& r is Ok <==> !awaits_vault(before, request.id@) && request.verified
                && !process::is_launchd(wanted) && 1 <= seconds <= 3_600 && exists|k: int|
                #[trigger] stands_for(wanted, request.process_tree@, k)
            &&& r is Err ==> after == before
            &&& r is Ok ==> exists|k: int|
                {
                    let holder = request.process_tree@[k];
                    let grant = after.grants.grants@.last();
                    &&& #[trigger] stands_for(wanted, request.process_tree@, k)
                    &&& after.grants.grants@.len() == before.grants.grants@.len() + 1
                    &&& forall|j: int|
                        0 <= j < before.grants.grants@.len() ==> (
                        #[trigger] after.grants.grants@[j]) == before.grants.grants@[j]
                    &&& grant.id == grant_id
                    &&& grant.resource == request.secret
                    &&& grant.process == holder
                    &&& grant.created_at == now
                    &&& now + seconds * 1_000 <= u64::MAX ==> grant.expires_at == now + seconds
                        * 1_000
                    &&& tells(
                        after.audit@.last(),
                        now,
                        AuditAction::GrantedTemporarily,
                        request.secret@,
                        Some(seconds),
                        holder,
                    )
                }
            &&& r is Ok ==> {
                &&& posted(before.resolutions@, request.id@, true, after.resolutions@)
                &&& after.pending@ == before.pending@.remove(i)
                &&& after.vault == before.vault
                &&& one_more(before.audit@, after.audit@)
            }
        }),
{
    let request = before.pending@[i];
    let seconds = controller::seconds_or_default(ttl_seconds);
    asked_request(before.pending@, request.id@, i);
    waiting_means(before, request.id@);
    grants_are_bound_to_the_lineage(request.process_tree@, request.origin, grant_process);
    if r is Ok {
        let holder = controller::boundary(
            request.process_tree@,
            request.origin,
            grant_process,
        )->Ok_0;
        posts_are_kept(before.resolutions@, request.id@, true, after.resolutions@);
        lines_are_recorded_behind_the_others(
            before.audit@,
            controller::decision_row(request, ApprovalDecision::Temporary, seconds, holder, now),
            after.audit@,
        );
    }
}

/// Whether a request waits behind the others that were asked under another
/// identifier.
pub open spec fn now_waits(
    before: Seq<PendingRequest>,
    id: Seq<char>,
    secret: Seq<char>,
    tree: Seq<ProcessIdentity>,
    verified: bool,
    now: u64,
    after: Seq<PendingRequest>,
) -> bool {
    &&& after.len() > 0
    &&& after.last().id@ == id
    &&& after.last().secret@ == secret
    &&& after.last().verified == verified
    &&& after.last().process_tree@ == tree
    &&& after.last().origin == tree[0]
    &&& after.last().requested_at == now
    &&& forall|j: int|
        0 <= j < before.len() && (#[trigger] before[j]).id@ != id ==> after.contains(before[j])
    &&& forall|j: int|
        0 <= j < after.len() - 1 ==> (#[trigger] after[j]).id@ != id && before.contains(after[j])
}

/// Whether an answer is posted for a request.
pub open spec fn answer_posted(
    resolutions: Seq<PostedResolution>,
    id: Seq<char>,
    answer: Answer,
) -> bool {
    exists|k: int|
        0 <= k < resolutions.len() && (#[trigger] resolutions[k]).id@ == id && controller::answer(
            resolutions[k].resolution,
        ) == answer
}

/// Whether the answers to one request are gone and those to others are left.
pub open spec fn dropped_answers(
    before: Seq<PostedResolution>,
    id: Seq<char>,
    after: Seq<PostedResolution>,
) -> bool {
    &&& forall|j: int| 0 <= j < after.len() ==> (#[trigger] after[j]).id@ != id
    &&& forall|other: Seq<char>, answer: Answer|
        other != id ==> (#[trigger] answer_posted(after, other, answer) <==> answer_posted(
            before,
            other,
            answer,
        ))
}

proof fn posted_means(resolutions: Seq<PostedResolution>, id: Seq<char>, answer: Answer)
    ensures
        answer_posted(resolutions, id, answer) <==> controller::posts(resolutions).contains(
            (id, answer),
        ),
{
    let all = controller::posts(resolutions);
    if answer_posted(resolutions, id, answer) {
        let k = choose|k: int|
            0 <= k < resolutions.len() && (#[trigger] resolutions[k]).id@ == id
                && controller::answer(resolutions[k].resolution) == answer;
        assert(all[k] == (id, answer));
    }
    if all.contains((id, answer)) {
        let k = all.index_of((id, answer));
        assert(resolutions[k].id@ == id);
    }
}

proof fn dropped_means(
    before: Seq<PostedResolution>,
    id: Seq<char>,
    after: Seq<PostedResolution>,
)
    requires
        controller::posts(after) == controller::posts_without(controller::posts(before), id),
    ensures
        dropped_answers(before, id, after),
{
    let all = controller::posts(before);
    let left = controller::posts(after);
    without_means(all, id);
    assert forall|j: int| 0 <= j < after.len() implies (#[trigger] after[j]).id@ != id by {
        assert(left[j].0 == after[j].id@);
    }
    assert forall|other: Seq<char>, answer: Answer| other != id implies (#[trigger] answer_posted(
        after,
        other,
        answer,
    ) <==> answer_posted(before, other, answer)) by {
        posted_means(before, other, answer);
        posted_means(after, other, answer);
        assert(controller::posts_without(all, id).contains((other, answer)) <==> all.contains(
            (other, answer),
        ));
    }
}

proof fn left_were_there<A>(all: Seq<(Seq<char>, A)>, id: Seq<char>, x: (Seq<char>, A))
    requires
        controller::posts_without(all, id).contains(x),
    ensures
        all.contains(x),
    decreases all.len(),
{
    reveal(Seq::filter);
    let left = controller::posts_without(all, id);
    let i = left.index_of(x);
    if all.len() > 0 {
        let rest = all.drop_last();
        let before = controller::posts_without(rest, id);
        if i < before.len() {
            assert(before[i] == x);
            left_were_there(rest, id, x);
            let k = rest.index_of(x);
            assert(all[k] == x);
        } else {
            assert(all[all.len() - 1] == x);
        }
    }
}

pub(crate) proof fn without_means<A>(all: Seq<(Seq<char>, A)>, id: Seq<char>)
    ensures
        forall|j: int|
            0 <= j < controller::posts_without(all, id).len() ==> (
            #[trigger] controller::posts_without(all, id)[j]).0 != id,
        forall|x: (Seq<char>, A)|
            x.0 != id ==> (#[trigger] controller::posts_without(all, id).contains(x)
                <==> all.contains(x)),
{
    broadcast use vstd::seq_lib::group_filter_ensures;

    assert forall|x: (Seq<char>, A)| x.0 != id implies (#[trigger] controller::posts_without(
        all,
        id,
    ).contains(x) <==> all.contains(x)) by {
        if all.contains(x) {
            let i = all.index_of(x);
            assert(all[i] == x);
        }
        if controller::posts_without(all, id).contains(x) {
            left_were_there(all, id, x);
        }
    }
    assert forall|j: int| 0 <= j < controller::posts_without(all, id).len() implies (
    #[trigger] controller::posts_without(all, id)[j]).0 != id by {}
}

proof fn queued_means(
    before: Controller,
    secret: Seq<char>,
    tree: Seq<ProcessIdentity>,
    verified: bool,
    waits: bool,
    id: Seq<char>,
    now: u64,
    after: Controller,
    r: Result<RequestOutcome, VaultError>,
)
    requires
        controller::was_queued(before, secret, tree, verified, waits, id, now, after, r),
    ensures
        r matches Ok(RequestOutcome::Pending { id: given }) && given@ == id,
        now_waits(before.pending@, id, secret, tree, verified, now, after.pending@),
        awaits_vault(after, id) <==> waits,
        dropped_answers(before.resolutions@, id, after.resolutions@),
        after.vault == before.vault,
        after.audit == before.audit,
{
    let request = choose|request: PendingRequest|
        #[trigger] controller::is_request(request, id, secret, tree, verified, now)
            && after.pending@ == controller::queued(before.pending@, request);
    let p = |p: PendingRequest| p.id@ != request.id@;
    let kept = before.pending@.filter(p);
    assert(after.pending@ == kept.push(request));
    let at = seqs::filtered_positions(before.pending@, p);
    assert forall|j: int| 0 <= j < before.pending@.len() && (#[trigger] before.pending@[j]).id@
        != id implies after.pending@.contains(before.pending@[j]) by {
        seqs::filter_keeps(before.pending@, p, j);
        let k = choose|k: int| 0 <= k < kept.len() && #[trigger] kept[k] == before.pending@[j];
        assert(after.pending@[k] == before.pending@[j]);
    }
    assert forall|j: int| 0 <= j < after.pending@.len() - 1 implies (
    #[trigger] after.pending@[j]).id@ != id && before.pending@.contains(after.pending@[j]) by {
        assert(after.pending@[j] == kept[j]);
        assert(kept[j] == before.pending@[at[j]]);
    }
    waiting_means(after, id);
    controller::ids_without_meaning(before.waiting_for_unlock@, id);
    let others = text::views(controller::ids_without(before.waiting_for_unlock@, id));
    assert(!others.contains(id));
    if waits {
        let all = text::views(after.waiting_for_unlock@);
        assert(all[all.len() - 1] == id);
    }
    dropped_means(before.resolutions@, id, after.resolutions@);
}

/// Whether one of the grants lets a process of a lineage have a secret at some
/// time.
pub open spec fn may_have(
    held: Seq<Grant>,
    secret: Seq<char>,
    tree: Seq<ProcessIdentity>,
    now: u64,
) -> bool {
    exists|g: int, k: int|
        0 <= g < held.len() && 0 <= k < tree.len() && held[g].expires_at > now && #[trigger]
            grants_laws::held_by(held[g], secret, tree[k])
}

proof fn found_means(held: Seq<Grant>, secret: Seq<char>, tree: Seq<ProcessIdentity>, now: u64)
    ensures
        grants::grant_for(grants::live(held, now), secret, tree) is Some <==> may_have(
            held,
            secret,
            tree,
            now,
        ),
{
    let live = grants::live(held, now);
    let p = |g: Grant| g.expires_at > now;
    assert(live == held.filter(p));
    let at = seqs::filtered_positions(held, p);
    grants_laws::the_nearest_and_newest_grant_is_found(live, secret, tree);
    if grants::grant_for(live, secret, tree) is Some {
        let (g, k) = choose|g: int, k: int|
            0 <= g < live.len() && 0 <= k < tree.len() && #[trigger] grants_laws::held_by(
                live[g],
                secret,
                tree[k],
            );
        assert(live[g] == held[at[g]]);
        assert(grants_laws::held_by(held[at[g]], secret, tree[k]));
    }
    if may_have(held, secret, tree, now) {
        let (g, k) = choose|g: int, k: int|
            0 <= g < held.len() && 0 <= k < tree.len() && held[g].expires_at > now && #[trigger]
                grants_laws::held_by(held[g], secret, tree[k]);
        seqs::filter_keeps(held, p, g);
        let h = choose|h: int| 0 <= h < live.len() && #[trigger] live[h] == held[g];
        assert(grants_laws::held_by(live[h], secret, tree[k]));
    }
}

/// While the vault is locked a request is put aside: it waits for the vault,
/// and nothing is given out.
pub proof fn requests_wait_for_a_locked_vault(
    before: Controller,
    name: Seq<char>,
    secret: Seq<char>,
    process_tree: Seq<ProcessIdentity>,
    verified: bool,
    id: Seq<char>,
    now: u64,
    after: Controller,
    r: Result<RequestOutcome, VaultError>,
)
    requires
        before.wf(),
        before.vault.data is None,
        vault::normalized_name(name) == Ok::<Seq<char>, Seq<char>>(secret),
        process::without_clients(process_tree).len() > 0,
        controller::begin_outcome(before, name, process_tree, verified, id, now, after, r),
    ensures
        r matches Ok(RequestOutcome::Pending { id: given }) && given@ == id,
        now_waits(
            before.pending@,
            id,
            secret,
            process::without_clients(process_tree),
            verified,
            now,
            after.pending@,
        ),
        awaits_vault(after, id),
        dropped_answers(before.resolutions@, id, after.resolutions@),
        after.grants.grants@ == before.grants.grants@,
        after.vault == before.vault,
        after.audit == before.audit,
{
    queued_means(
        before,
        secret,
        process::without_clients(process_tree),
        verified,
        true,
        id,
        now,
        after,
        r,
    );
}

/// With an open vault a request is answered at once in two ways: with the value
/// of the secret where the requester is verified and a process of its lineage
/// holds a grant that has not expired, which the record tells of; and with a
/// refusal where nothing is kept under the name. Every other request is put to
/// a person.
pub proof fn requests_are_answered_from_an_open_vault(
    before: Controller,
    name: Seq<char>,
    secret: Seq<char>,
    process_tree: Seq<ProcessIdentity>,
    verified: bool,
    id: Seq<char>,
    now: u64,
    after: Controller,
    r: Result<RequestOutcome, VaultError>,
)
    requires
        before.wf(),
        before.vault.data is Some,
        vault::normalized_name(name) == Ok::<Seq<char>, Seq<char>>(secret),
        process::without_clients(process_tree).len() > 0,
        controller::begin_outcome(before, name, process_tree, verified, id, now, after, r),
    ensures
        ({
            let tree = process::without_clients(process_tree);
            let there = vault_records::has_name(before.vault, secret);
            let granted = verified && may_have(before.grants.grants@, secret, tree, now);
            &&& !there ==> r is Err && r->Err_0.0@ == "Secret not found"@ && after == before
            &&& there && granted ==> {
                &&& r matches Ok(RequestOutcome::Immediate(value)) && forall|j: int|
                    0 <= j < vault_records::records(before.vault).len() && (
                    #[trigger] vault_records::records(before.vault)[j]).name@ == secret ==> value
                        == vault_records::records(before.vault)[j].entry.value
                &&& one_more(before.audit@, after.audit@)
                &&& tells(
                    after.audit@.last(),
                    now,
                    AuditAction::AutoGranted,
                    secret,
                    None,
                    tree[0],
                )
                &&& after.pending == before.pending
                &&& after.resolutions == before.resolutions
            }
            &&& there && !granted ==> {
                &&& r matches Ok(RequestOutcome::Pending { id: given }) && given@ == id
                &&& now_waits(before.pending@, id, secret, tree, verified, now, after.pending@)
                &&& !awaits_vault(after, id)
                &&& dropped_answers(before.resolutions@, id, after.resolutions@)
                &&& after.audit == before.audit
            }
            &&& after.vault == before.vault
            &&& forall|g: int|
                0 <= g < before.grants.grants@.len() && (
                #[trigger] before.grants.grants@[g]).expires_at > now
                    ==> after.grants.grants@.contains(before.grants.grants@[g])
            &&& forall|g: int|
                0 <= g < after.grants.grants@.len() ==> before.grants.grants@.contains(
                    #[trigger] after.grants.grants@[g],
                )
        }),
{
    let tree = process::without_clients(process_tree);
    let held = before.grants.grants@;
    vault::normalizing_names_is_stable(name);
    vault_records::secrets_are_revealed_under_their_names(before.vault, secret, secret);
    if vault_records::has_name(before.vault, secret) {
        let j = choose|j: int|
            0 <= j < vault_records::records(before.vault).len() && (
            #[trigger] vault_records::records(before.vault)[j]).name@ == secret;
        assert(vault::revealed(before.vault, secret) is Ok);
        found_means(held, secret, tree, now);
        grants_laws::grants_are_held_until_they_expire(held, now);
        let p = |g: Grant| g.expires_at > now;
        assert(grants::live(held, now) == held.filter(p));
        let at = seqs::filtered_positions(held, p);
        assert forall|g: int| 0 <= g < after.grants.grants@.len() implies held.contains(
            #[trigger] after.grants.grants@[g],
        ) by {
            if after.grants.grants@ == grants::live(held, now) {
                assert(after.grants.grants@[g] == held[at[g]]);
            }
        }
        if verified && may_have(held, secret, tree, now) {
            lines_are_recorded_behind_the_others(
                before.audit@,
                (AuditRow {
                    occurred_at: now,
                    action: AuditAction::AutoGranted,
                    secret,
                    ttl_seconds: None,
                    process: tree[0],
                }),
                after.audit@,
            );
        } else {
            queued_means(before, secret, tree, verified, false, id, now, after, r);
        }
    }
}

/// A name that cannot be kept, and a requester that cannot be told, are refused.
pub proof fn nameless_and_unknown_requests_are_refused(
    before: Controller,
    name: Seq<char>,
    process_tree: Seq<ProcessIdentity>,
    verified: bool,
    id: Seq<char>,
    now: u64,
    after: Controller,
    r: Result<RequestOutcome, VaultError>,
)
    requires
        controller::begin_outcome(before, name, process_tree, verified, id, now, after, r),
        vault::normalized_name(name) is Err || process::without_clients(process_tree).len() == 0,
    ensures
        r is Err,
        after == before,
{
}

/// A request that is given up waits no longer, and no answer is left for it; the
/// record tells of it. Other requests and grants stay.
pub proof fn unanswered_requests_are_given_up(
    before: Controller,
    i: int,
    now: u64,
    after: Controller,
)
    requires
        before.wf(),
        0 <= i < before.pending@.len(),
        controller::timeout_outcome(before, before.pending@[i].id@, now, after),
    ensures
        after.pending@ == before.pending@.remove(i),
        !awaits_vault(after, before.pending@[i].id@),
        dropped_answers(before.resolutions@, before.pending@[i].id@, after.resolutions@),
        after.grants == before.grants,
        after.vault == before.vault,
        one_more(before.audit@, after.audit@),
        tells(
            after.audit@.last(),
            now,
            AuditAction::TimedOut,
            before.pending@[i].secret@,
            None,
            before.pending@[i].origin,
        ),
{
    let request = before.pending@[i];
    let id = request.id@;
    asked_request(before.pending@, id, i);
    waiting_means(after, id);
    controller::ids_without_meaning(before.waiting_for_unlock@, id);
    dropped_means(before.resolutions@, id, after.resolutions@);
    lines_are_recorded_behind_the_others(
        before.audit@,
        (AuditRow {
            occurred_at: now,
            action: AuditAction::TimedOut,
            secret: request.secret@,
            ttl_seconds: None,
            process: request.origin,
        }),
        after.audit@,
    );
}

/// Whether a denial is posted for a request.
pub open spec fn denial_posted(resolutions: Seq<PostedResolution>, id: Seq<char>) -> bool {
    exists|k: int|
        0 <= k < resolutions.len() && (#[trigger] resolutions[k]).id@ == id
            && resolutions[k].resolution is Denied
}

/// Locking forgets the key and the contents, ends every grant, decision and
/// denial, and answers every request that waits with a denial.
pub proof fn locking_leaves_nothing_open(before: Controller, now: u64, after: Controller)
    requires
        controller::lock_outcome(before, now, after),
    ensures
        after.vault.key is None,
        after.vault.salt is None,
        after.vault.data is None,
        after.vault.path == before.vault.path,
        after.vault.iterations == 600_000,
        after.grants.grants@.len() == 0,
        after.pending@.len() == 0,
        after.waiting_for_unlock@.len() == 0,
        after.pending_aws@.len() == 0,
        after.aws_process_decisions@.len() == 0,
        after.aws_process_denials@.len() == 0,
        after.aws_login is Idle,
        forall|i: int|
            0 <= i < before.pending@.len() ==> denial_posted(
                after.resolutions@,
                (#[trigger] before.pending@[i]).id@,
            ),
        forall|k: int|
            0 <= k < before.resolutions@.len() ==> (#[trigger] after.resolutions@[k]).id@
                == before.resolutions@[k].id@ && controller::answer(
                after.resolutions@[k].resolution,
            ) == controller::answer(before.resolutions@[k].resolution),
        after.resolutions@.len() == before.resolutions@.len() + before.pending@.len(),
{
    let was = controller::posts(before.resolutions@);
    let is = controller::posts(after.resolutions@);
    let denied = controller::denied_posts(before.pending@);
    assert(is == was + denied);
    assert(is.len() == after.resolutions@.len());
    assert(was.len() == before.resolutions@.len());
    assert(denied.len() == before.pending@.len());
    assert forall|i: int| 0 <= i < before.pending@.len() implies denial_posted(
        after.resolutions@,
        (#[trigger] before.pending@[i]).id@,
    ) by {
        let k = was.len() + i;
        assert(is[k] == denied[i]);
        assert(after.resolutions@[k].id@ == before.pending@[i].id@);
    }
    assert forall|k: int| 0 <= k < before.resolutions@.len() implies (
    #[trigger] after.resolutions@[k]).id@ == before.resolutions@[k].id@ && controller::answer(
        after.resolutions@[k].resolution,
    ) == controller::answer(before.resolutions@[k].resolution) by {
        assert(is[k] == was[k]);
    }
}

/// Once the vault is open, each request that waited for it goes on if its secret
/// is there, and is answered with a failure if it is not. Requests that did not
/// wait for it go on in either case.
pub proof fn an_opened_vault_sorts_the_requests(
    before: Controller,
    store: VaultStore,
    after: Controller,
    i: int,
)
    requires
        before.wf(),
        store.wf(),
        store.data is Some,
        controller::waiting_prepared(before, store, after),
        0 <= i < before.pending@.len(),
    ensures
        after.waiting_for_unlock@.len() == 0,
        after.vault == store,
        after.grants == before.grants,
        after.pending@.contains(before.pending@[i]) <==> !awaits_vault(
            before,
            before.pending@[i].id@,
        ) || vault_records::has_name(store, before.pending@[i].secret@),
        !after.pending@.contains(before.pending@[i]) ==> exists|k: int|
            0 <= k < after.resolutions@.len() && (#[trigger] after.resolutions@[k]).id@
                == before.pending@[i].id@ && after.resolutions@[k].resolution is Failed,
{
    let request = before.pending@[i];
    let ids = text::views(before.waiting_for_unlock@);
    let p = controller::unaffected(ids, store);
    waiting_means(before, request.id@);
    vault_records::secrets_are_revealed_under_their_names(store, request.secret@, request.secret@);
    if vault_records::has_name(store, request.secret@) {
        let j = choose|j: int|
            0 <= j < vault_records::records(store).len() && (
            #[trigger] vault_records::records(store)[j]).name@ == request.secret@;
        assert(vault::revealed(store, request.secret@) is Ok);
    }
    if p(request) {
        seqs::filter_keeps(before.pending@, p, i);
        let k = choose|k: int|
            0 <= k < after.pending@.len() && #[trigger] after.pending@[k] == request;
        assert(after.pending@.contains(request));
    } else {
        if after.pending@.contains(request) {
            grants::filtered_elements(before.pending@, p, request);
        }
        crate::controller_laws::waiting_requests_are_prepared(before, store, after, i);
        let error = vault::revealed(store, request.secret@)->Err_0;
        let all = controller::posts(after.resolutions@);
        let k = all.index_of((request.id@, Answer::Failed(error)));
        assert(all[k] == (after.resolutions@[k].id@, controller::answer(
            after.resolutions@[k].resolution,
        )));
        assert(after.resolutions@[k].id@ == request.id@);
    }
}

/// Taking a grant away takes away that one, and the record tells of it.
pub proof fn a_revoked_grant_is_taken_away(
    before: Controller,
    id: Seq<char>,
    now: u64,
    after: Controller,
)
    requires
        controller::revoke_outcome(before, id, now, after),
    ensures
        (forall|j: int|
            0 <= j < before.grants.grants@.len() ==> (#[trigger] before.grants.grants@[j]).id@
                != id) ==> after.grants.grants@ == before.grants.grants@ && after.audit
            == before.audit,
        (exists|j: int|
            0 <= j < before.grants.grants@.len() && (#[trigger] before.grants.grants@[j]).id@ == id)
            ==> exists|i: int|
            {
                &&& 0 <= i < before.grants.grants@.len()
                &&& (#[trigger] before.grants.grants@[i]).id@ == id
                &&& after.grants.grants@ == before.grants.grants@.remove(i)
                &&& tells(
                    after.audit@.last(),
                    now,
                    AuditAction::Revoked,
                    before.grants.grants@[i].resource@,
                    None,
                    before.grants.grants@[i].process,
                )
                &&& one_more(before.audit@, after.audit@)
            },
        after.vault == before.vault,
        after.pending == before.pending,
{
    let held = before.grants.grants@;
    grants_laws::identifiers_name_grants(held, id);
    if let Some(i) = grants::grant_index(held, id) {
        lines_are_recorded_behind_the_others(
            before.audit@,
            controller::revoked_row(held[i].resource@, held[i].process, now),
            after.audit@,
        );
    }
}

/// Once a secret is deleted no grant of it is left; the other grants that have
/// not expired stay.
pub proof fn deleting_a_secret_leaves_the_other_grants<
    E: Fn(&VaultPlaintext) -> Result<Vec<u8>, String>,
    W: Fn(&VaultFile) -> Result<(), VaultError>,
>(
    before: Controller,
    name: Seq<char>,
    secret: Seq<char>,
    nonce: Result<Vec<u8>, VaultError>,
    now: u64,
    encode: E,
    write: W,
    after: Controller,
    r: Result<(), VaultError>,
)
    requires
        controller::delete_outcome(before, name, nonce, now, encode, write, after, r),
        vault::normalized_name(name) == Ok::<Seq<char>, Seq<char>>(secret),
    ensures
        r is Err ==> after.grants == before.grants && after.audit == before.audit,
        r is Ok ==> {
            &&& forall|g: int|
                0 <= g < after.grants.grants@.len() ==> (
                #[trigger] after.grants.grants@[g]).resource@ != secret
                    && after.grants.grants@[g].expires_at > now && before.grants.grants@.contains(
                    after.grants.grants@[g],
                )
            &&& forall|g: int|
                0 <= g < before.grants.grants@.len() && (
                #[trigger] before.grants.grants@[g]).resource@ != secret
                    && before.grants.grants@[g].expires_at > now ==> after.grants.grants@.contains(
                    before.grants.grants@[g],
                )
        },
        after.pending == before.pending,
        after.resolutions == before.resolutions,
{
    if r is Ok {
        let held = before.grants.grants@;
        let live = grants::live(held, now);
        let p = |g: Grant| g.expires_at > now;
        assert(live == held.filter(p));
        let q = controller::other_resource(secret);
        let kept = after.grants.grants@;
        assert(kept == live.filter(q));
        let inner = seqs::filtered_positions(live, q);
        let outer = seqs::filtered_positions(held, p);
        assert forall|g: int| 0 <= g < kept.len() implies (#[trigger] kept[g]).resource@ != secret
            && kept[g].expires_at > now && held.contains(kept[g]) by {
            assert(kept[g] == live[inner[g]]);
            assert(live[inner[g]] == held[outer[inner[g]]]);
        }
        assert forall|g: int|
            0 <= g < held.len() && (#[trigger] held[g]).resource@ != secret && held[g].expires_at
                > now implies kept.contains(held[g]) by {
            seqs::filter_keeps(held, p, g);
            let k = choose|k: int| 0 <= k < live.len() && #[trigger] live[k] == held[g];
            seqs::filter_keeps(live, q, k);
            let m = choose|m: int| 0 <= m < kept.len() && #[trigger] kept[m] == live[k];
            assert(kept[m] == held[g]);
        }
    }
}

/// Whether a line of the record tells what a row says.
pub open spec fn tells_row(entry: AuditEntry, line: AuditRow) -> bool {
    tells(
        entry,
        line.occurred_at,
        line.action,
        line.secret,
        line.ttl_seconds,
        line.process,
    )
}

/// Lines that are recorded together stand behind the older ones in their order,
/// of which the newest 500 stay.
pub proof fn lines_are_recorded_in_their_order(
    before: Seq<AuditEntry>,
    lines: Seq<AuditRow>,
    after: Seq<AuditEntry>,
)
    requires
        controller::lines_recorded(before, lines, after),
    ensures
        after.len() == if before.len() + lines.len() <= 500 {
            (before.len() + lines.len()) as int
        } else {
            500
        },
        forall|k: int|
            0 <= k < lines.len() && k >= lines.len() - after.len() ==> tells_row(
                after[after.len() - lines.len() + k],
                #[trigger] lines[k],
            ),
        forall|i: int|
            0 <= i < after.len() - lines.len() ==> (#[trigger] after[i]) == before[before.len()
                + lines.len() - after.len() + i],
{
    let all = controller::rows(before) + lines;
    let kept = controller::rows(after);
    assert(kept == controller::newest(all));
    assert(controller::rows(before).len() == before.len());
    assert(kept.len() == after.len());
    let older = controller::older_lines(lines, after);
    assert forall|k: int|
        0 <= k < lines.len() && k >= lines.len() - after.len() implies tells_row(
        after[after.len() - lines.len() + k],
        #[trigger] lines[k],
    ) by {
        let at = after.len() - lines.len() + k;
        assert(kept[at] == controller::row(after[at]));
        assert(kept[at] == all[before.len() + k]);
    }
    assert forall|i: int| 0 <= i < after.len() - lines.len() implies (#[trigger] after[i])
        == before[before.len() + lines.len() - after.len() + i] by {
        assert(after.take(older)[i] == after[i]);
        assert(before.skip(before.len() - older)[i] == before[before.len() - older + i]);
    }
}

/// Locking is told of in the record: each request for a secret that waited is
/// denied, in their order, behind the grants that were taken away.
pub proof fn locking_is_recorded(before: Controller, now: u64, after: Controller, i: int)
    requires
        controller::lock_outcome(before, now, after),
        before.audit@.len() <= 500,
        0 <= i < before.pending@.len(),
        i >= before.pending@.len() - 500,
    ensures
        after.audit@.len() >= before.pending@.len() - i,
        tells(
            after.audit@[after.audit@.len() - before.pending@.len() + i],
            now,
            AuditAction::Denied,
            before.pending@[i].secret@,
            None,
            before.pending@[i].origin,
        ),
{
    let revoked = controller::revoked_rows(
        seqs::in_order(grants::live(before.grants.grants@, now)),
        now,
    );
    let denied = controller::denied_rows(before.pending@, now);
    let lines = revoked + denied;
    lines_are_recorded_in_their_order(before.audit@, lines, after.audit@);
    let k = revoked.len() + i;
    assert(lines[k] == denied[i]);
    assert(denied.len() == before.pending@.len());
}

/// Locking is told of in the record: each grant that had not expired is taken
/// away.
pub proof fn locking_records_the_grants(before: Controller, now: u64, after: Controller, g: Grant)
    requires
        controller::lock_outcome(before, now, after),
        before.grants.grants@.contains(g),
        g.expires_at > now,
        before.grants.grants@.len() + before.pending@.len() <= 500,
    ensures
        exists|k: int|
            0 <= k < after.audit@.len() && tells(
                #[trigger] after.audit@[k],
                now,
                AuditAction::Revoked,
                g.resource@,
                None,
                g.process,
            ),
{
    broadcast use vstd::seq_lib::group_to_multiset_ensures;

    let held = before.grants.grants@;
    let live = grants::live(held, now);
    let p = |g: Grant| g.expires_at > now;
    assert(live == held.filter(p));
    let n = held.index_of(g);
    seqs::filter_keeps(held, p, n);
    let at = seqs::filtered_positions(held, p);
    positions_fit(at, held.len() as int);
    let listed = seqs::in_order(live);
    seqs::in_order_is_ordered(live);
    let m = choose|m: int| 0 <= m < live.len() && #[trigger] live[m] == held[n];
    assert(live.contains(g));
    assert(listed.to_multiset().count(g) > 0);
    assert(listed.contains(g));
    let j = listed.index_of(g);
    let revoked = controller::revoked_rows(listed, now);
    let denied = controller::denied_rows(before.pending@, now);
    let lines = revoked + denied;
    lines_are_recorded_in_their_order(before.audit@, lines, after.audit@);
    assert(lines[j] == controller::revoked_row(g.resource@, g.process, now));
    assert(lines.len() <= 500);
    let k = after.audit@.len() - lines.len() + j;
    assert(tells_row(after.audit@[k], lines[j]));
}

/// As many rising places as there are fit between nothing and the length.
proof fn positions_fit(at: Seq<int>, n: int)
    requires
        n >= 0,
        forall|k: int| 0 <= k < at.len() ==> 0 <= #[trigger] at[k] < n,
        forall|j: int, k: int| 0 <= j < k < at.len() ==> #[trigger] at[j] < #[trigger] at[k],
    ensures
        at.len() <= n,
    decreases at.len(),
{
    if at.len() > 0 {
        let last = at.last();
        let rest = at.drop_last();
        assert(at[at.len() - 1] == last);
        assert forall|k: int| 0 <= k < rest.len() implies 0 <= #[trigger] rest[k] < last by {
            assert(at[k] < at[at.len() - 1]);
        }
        assert forall|j: int, k: int| 0 <= j < k < rest.len() implies #[trigger] rest[j]
            < #[trigger] rest[k] by {
            assert(at[j] < at[k]);
        }
        positions_fit(rest, last);
    }
}

/// An answer that is posted goes with its request.
pub proof fn posted_answers_go_with_their_requests(posted: Seq<PostedResolution>, i: int)
    requires
        0 <= i < posted.len(),
    ensures
        controller::posts(posted).len() == posted.len(),
        controller::posts(posted)[i].0 == posted[i].id@,
        controller::posts(posted)[i].1 is Approved <==> posted[i].resolution is Approved,
        controller::posts(posted)[i].1 is Denied <==> posted[i].resolution is Denied,
        posted[i].resolution matches RequestResolution::Failed(error)
            ==> controller::posts(posted)[i].1 == Answer::Failed(error@),
{
}

/// A secret that is saved under no other name than before is saved as it is
/// typed, with the group it has.
pub proof fn typed_secrets_are_saved<
    E: Fn(&VaultPlaintext) -> Result<Vec<u8>, String>,
    W: Fn(&VaultFile) -> Result<(), VaultError>,
>(
    before: VaultStore,
    name: Seq<char>,
    kept: Seq<char>,
    value: Seq<char>,
    previous: Option<&str>,
    now: String,
    rename_nonce: Result<Vec<u8>, VaultError>,
    nonce: Result<Vec<u8>, VaultError>,
    encode: E,
    write: W,
    after: VaultStore,
    r: Result<(), VaultError>,
)
    requires
        before.wf(),
        after.wf(),
        before.data is Some,
        vault::normalized_name(name) == Ok::<Seq<char>, Seq<char>>(kept),
        previous is Some ==> vault::normalized_name(previous->Some_0@) == Ok::<
            Seq<char>,
            Seq<char>,
        >(kept),
        controller::save_outcome(
            before,
            name,
            value,
            previous,
            now,
            rename_nonce,
            nonce,
            encode,
            write,
            after,
            r,
        ),
    ensures
        exists|i: int|
            0 <= i < vault_records::records(after).len() && (#[trigger] vault_records::records(
                after,
            )[i]).name@ == kept && vault_records::records(after)[i].entry.value@ == value,
        forall|other: Seq<char>, entry: VaultEntry|
            other != kept ==> (#[trigger] vault_records::keeps(after, other, entry)
                <==> vault_records::keeps(before, other, entry)),
{
    vault_records::saving_keeps_the_secret(
        before,
        name,
        kept,
        value,
        None,
        now@,
        nonce,
        encode,
        write,
        after,
        r,
    );
}

} // verus!
