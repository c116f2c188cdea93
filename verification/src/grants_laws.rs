//! What grants are for, stated over the grants that are held, the processes
//! that hold them and the times.

use vstd::prelude::*;

use crate::grants;
use crate::grants::Grant;
use crate::numeral;
use crate::process::ProcessIdentity;
use crate::seqs;

verus! {

/// Whether a grant of `resource` was given to one process: to the process with
/// its number, its start time and its executable.
pub open spec fn held_by(grant: Grant, resource: Seq<char>, holder: ProcessIdentity) -> bool {
    &&& grant.resource@ == resource
    &&& grant.process.pid == holder.pid
    &&& grant.process.started_at@ == holder.started_at@
    &&& grant.process.executable@ == holder.executable@
}

/// A grant is given for one second to one hour, to the process and for the
/// resource that were asked for, from now until so many seconds later; it
/// stands behind the grants that were there, which stay.
pub proof fn grants_are_given_as_asked(
    before: Seq<Grant>,
    id: String,
    resource: String,
    holder: ProcessIdentity,
    seconds: u64,
    now: u64,
    after: Seq<Grant>,
    r: Result<Grant, String>,
)
    requires
        grants::add_outcome(
            before,
            grants::new_grant(id, resource, holder, seconds, now),
            seconds,
            after,
            r,
        ),
    ensures
        seconds == 0 || seconds > 3_600 ==> r is Err && after == before,
        1 <= seconds <= 3_600 ==> {
            &&& r is Ok
            &&& r->Ok_0.id == id
            &&& r->Ok_0.resource == resource
            &&& r->Ok_0.process == holder
            &&& r->Ok_0.created_at == now
            &&& now + seconds * 1_000 <= u64::MAX ==> r->Ok_0.expires_at == now + seconds * 1_000
            &&& now + seconds * 1_000 > u64::MAX ==> r->Ok_0.expires_at == u64::MAX
            &&& after.len() == before.len() + 1
            &&& after.last() == r->Ok_0
            &&& forall|i: int| 0 <= i < before.len() ==> (#[trigger] after[i]) == before[i]
        },
{
}

/// Without a choice a grant lasts half an hour, and an extension adds a quarter
/// of an hour.
pub proof fn usual_durations()
    ensures
        grants::DEFAULT_GRANT_SECONDS == 30 * 60,
        grants::GRANT_EXTENSION_SECONDS == 15 * 60,
        grants::MAX_GRANT_SECONDS == 60 * 60,
{
}

/// A grant is held on to exactly as long as its expiry lies ahead, in the order
/// in which it was given.
pub proof fn grants_are_held_until_they_expire(all: Seq<Grant>, now: u64)
    ensures
        forall|i: int|
            0 <= i < all.len() && (#[trigger] all[i]).expires_at > now ==> grants::live(
                all,
                now,
            ).contains(all[i]),
        exists|at: Seq<int>|
            {
                &&& #[trigger] at.len() == grants::live(all, now).len()
                &&& forall|k: int|
                    0 <= k < at.len() ==> 0 <= #[trigger] at[k] < all.len() && grants::live(
                        all,
                        now,
                    )[k] == all[at[k]] && all[at[k]].expires_at > now
                &&& forall|j: int, k: int|
                    0 <= j < k < at.len() ==> #[trigger] at[j] < #[trigger] at[k]
            },
{
    let p = |g: Grant| g.expires_at > now;
    assert(grants::live(all, now) == all.filter(p));
    let at = seqs::filtered_positions(all, p);
    assert(at.len() == grants::live(all, now).len());
    assert forall|i: int|
        0 <= i < all.len() && (#[trigger] all[i]).expires_at > now implies grants::live(
        all,
        now,
    ).contains(all[i]) by {
        seqs::filter_keeps(all, p, i);
        let k = choose|k: int|
            0 <= k < all.filter(p).len() && #[trigger] all.filter(p)[k] == all[i];
        assert(all.filter(p)[k] == all[i]);
    }
}

/// The grant that is found is one of the resource, held by a process of the
/// lineage; no nearer process holds one, and that process got none later.
/// Nothing is found only where no process of the lineage holds one.
pub proof fn the_nearest_and_newest_grant_is_found(
    held: Seq<Grant>,
    resource: Seq<char>,
    tree: Seq<ProcessIdentity>,
)
    ensures
        match grants::grant_for(held, resource, tree) {
            Some(found) => exists|g: int, i: int|
                {
                    &&& 0 <= g < held.len()
                    &&& 0 <= i < tree.len()
                    &&& found == held[g]
                    &&& #[trigger] held_by(held[g], resource, tree[i])
                    &&& forall|h: int, j: int|
                        0 <= h < held.len() && 0 <= j < i ==> !#[trigger] held_by(
                            held[h],
                            resource,
                            tree[j],
                        )
                    &&& forall|h: int|
                        g < h < held.len() ==> !#[trigger] held_by(held[h], resource, tree[i])
                },
            None => forall|h: int, j: int|
                0 <= h < held.len() && 0 <= j < tree.len() ==> !#[trigger] held_by(
                    held[h],
                    resource,
                    tree[j],
                ),
        },
    decreases tree.len(),
{
    if tree.len() > 0 {
        let p = grants::gives(resource, tree[0]);
        seqs::last_index_meaning(held, p);
        assert forall|h: int| 0 <= h < held.len() implies #[trigger] held_by(
            held[h],
            resource,
            tree[0],
        ) == p(held[h]) by {}
        let rest = tree.skip(1);
        match seqs::last_index(held, p) {
            Some(g) => {
                assert(held_by(held[g], resource, tree[0]));
            },
            None => {
                the_nearest_and_newest_grant_is_found(held, resource, rest);
                match grants::grant_for(held, resource, rest) {
                    Some(found) => {
                        let (g, i) = choose|g: int, i: int|
                            {
                                &&& 0 <= g < held.len()
                                &&& 0 <= i < rest.len()
                                &&& found == held[g]
                                &&& #[trigger] held_by(held[g], resource, rest[i])
                                &&& forall|h: int, j: int|
                                    0 <= h < held.len() && 0 <= j < i ==> !#[trigger] held_by(
                                        held[h],
                                        resource,
                                        rest[j],
                                    )
                                &&& forall|h: int|
                                    g < h < held.len() ==> !#[trigger] held_by(
                                        held[h],
                                        resource,
                                        rest[i],
                                    )
                            };
                        assert(rest[i] == tree[i + 1]);
                        assert(held_by(held[g], resource, tree[i + 1]));
                        assert forall|h: int, j: int|
                            0 <= h < held.len() && 0 <= j < i + 1 implies !#[trigger] held_by(
                            held[h],
                            resource,
                            tree[j],
                        ) by {
                            if j > 0 {
                                assert(rest[j - 1] == tree[j]);
                                assert(!held_by(held[h], resource, rest[j - 1]));
                            }
                        }
                        assert forall|h: int| g < h < held.len() implies !#[trigger] held_by(
                            held[h],
                            resource,
                            tree[i + 1],
                        ) by {
                            assert(!held_by(held[h], resource, rest[i]));
                        }
                    },
                    None => {
                        assert forall|h: int, j: int|
                            0 <= h < held.len() && 0 <= j < tree.len() implies !#[trigger] held_by(
                            held[h],
                            resource,
                            tree[j],
                        ) by {
                            if j > 0 {
                                assert(rest[j - 1] == tree[j]);
                                assert(!held_by(held[h], resource, rest[j - 1]));
                            }
                        }
                    },
                }
            },
        }
    }
}

/// A list holds the grants that it is made of, none twice as often, and the
/// first to expire stands first.
pub proof fn lists_start_with_the_first_to_expire(held: Seq<Grant>)
    ensures
        seqs::in_order(held).to_multiset() == held.to_multiset(),
        seqs::in_order(held).len() == held.len(),
        forall|i: int, j: int|
            0 <= i < j < held.len() ==> (#[trigger] seqs::in_order(held)[i]).expires_at <= (
            #[trigger] seqs::in_order(held)[j]).expires_at,
{
    seqs::in_order_is_ordered(held);
    let list = seqs::in_order(held);
    assert forall|i: int, j: int| 0 <= i < j < held.len() implies (#[trigger] list[i]).expires_at
        <= (#[trigger] list[j]).expires_at by {
        assert(!seqs::Ranked::before(&list[j], &list[i]));
    }
}

/// An identifier names the first grant that carries it, or none.
pub proof fn identifiers_name_grants(held: Seq<Grant>, id: Seq<char>)
    ensures
        match grants::grant_index(held, id) {
            Some(i) => 0 <= i < held.len() && held[i].id@ == id && forall|j: int|
                0 <= j < i ==> (#[trigger] held[j]).id@ != id,
            None => forall|j: int| 0 <= j < held.len() ==> (#[trigger] held[j]).id@ != id,
        },
{
    let p = grants::has_id(id);
    seqs::first_index_meaning(held, p);
    assert forall|j: int| 0 <= j < held.len() implies p(#[trigger] held[j]) == (held[j].id@
        == id) by {}
}

/// An extension finds a grant that has not expired, and changes nothing of it
/// but its expiry: that moves fifteen minutes on, at most to an hour from now.
/// Every other grant that has not expired stays as it was.
pub proof fn extensions_move_the_expiry(
    before: Seq<Grant>,
    id: Seq<char>,
    now: u64,
    after: Seq<Grant>,
    r: Option<Grant>,
)
    requires
        grants::extend_outcome(before, id, now, after, r),
        now + 3_600_000 <= u64::MAX,
    ensures
        r is None <==> forall|i: int|
            0 <= i < before.len() && (#[trigger] before[i]).expires_at > now ==> before[i].id@
                != id,
        r matches Some(longer) ==> exists|i: int|
            {
                &&& 0 <= i < before.len()
                &&& (#[trigger] before[i]).id@ == id
                &&& before[i].expires_at > now
                &&& longer.id == before[i].id
                &&& longer.resource == before[i].resource
                &&& longer.process == before[i].process
                &&& longer.created_at == before[i].created_at
                &&& longer.expires_at == if before[i].expires_at + 900_000 <= now + 3_600_000 {
                    before[i].expires_at + 900_000
                } else {
                    now + 3_600_000
                }
                &&& after.contains(longer)
                &&& after.len() == grants::live(before, now).len()
            },
        forall|i: int|
            0 <= i < before.len() && (#[trigger] before[i]).expires_at > now && before[i].id@ != id
                ==> after.contains(before[i]),
        forall|k: int|
            0 <= k < after.len() ==> r == Some(#[trigger] after[k]) || before.contains(after[k])
                && after[k].expires_at > now,
{
    let kept = grants::live(before, now);
    let p = |g: Grant| g.expires_at > now;
    assert(kept == before.filter(p));
    let at = seqs::filtered_positions(before, p);
    identifiers_name_grants(kept, id);
    assert forall|i: int|
        0 <= i < before.len() && (#[trigger] before[i]).expires_at > now implies exists|k: int|
        0 <= k < kept.len() && #[trigger] kept[k] == before[i] by {
        seqs::filter_keeps(before, p, i);
    }
    match grants::grant_index(kept, id) {
        Some(n) => {
            let longer = r->Some_0;
            assert(kept[n] == before[at[n]]);
            assert(after[n] == longer);
            assert forall|i: int|
                0 <= i < before.len() && (#[trigger] before[i]).expires_at > now && before[i].id@
                    != id implies after.contains(before[i]) by {
                let k = choose|k: int| 0 <= k < kept.len() && #[trigger] kept[k] == before[i];
                assert(k != n);
                assert(after[k] == before[i]);
            }
            assert forall|k: int| 0 <= k < after.len() implies r == Some(#[trigger] after[k])
                || before.contains(after[k]) && after[k].expires_at > now by {
                if k != n {
                    assert(after[k] == kept[k]);
                    assert(kept[k] == before[at[k]]);
                }
            }
        },
        None => {
            assert forall|i: int|
                0 <= i < before.len() && (#[trigger] before[i]).expires_at
                    > now implies before[i].id@ != id && after.contains(before[i]) by {
                let k = choose|k: int| 0 <= k < kept.len() && #[trigger] kept[k] == before[i];
                assert(kept[k].id@ != id);
            }
            assert forall|k: int| 0 <= k < after.len() implies before.contains(
                #[trigger] after[k],
            ) && after[k].expires_at > now by {
                assert(kept[k] == before[at[k]]);
            }
        },
    }
}

/// A duration that a grant may not have is refused with the durations that it may
/// have.
pub proof fn refused_durations_are_told()
    ensures
        grants::duration_message() == "Grant duration must be between 1 and "@ + numeral::decimal(
            3_600,
        ) + " seconds"@,
{
}

} // verus!
