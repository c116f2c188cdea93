//! Temporary grants: a resource that a process and its children may have until
//! some time.

use vstd::prelude::*;

use crate::clock;
pub use crate::clock::now_millis;
use crate::numeral;
use crate::process;
use crate::process::ProcessIdentity;
use crate::seqs;
use crate::seqs::Ranked;
use crate::text;

verus! {

/// The longest time for which a grant is given, and the most that may remain
/// after an extension.
pub const MAX_GRANT_SECONDS: u64 = 3_600;

/// The time for which a grant is given when none is chosen.
pub const DEFAULT_GRANT_SECONDS: u64 = 1_800;

/// What one extension adds.
pub const GRANT_EXTENSION_SECONDS: u64 = 900;

#[derive(Debug)]
pub struct Grant {
    pub id: String,
    pub resource: String,
    pub process: ProcessIdentity,
    pub created_at: u64,
    pub expires_at: u64,
}

impl Clone for Grant {
    fn clone(&self) -> (r: Self)
        ensures
            r == *self,
    {
        Grant {
            id: self.id.clone(),
            resource: self.resource.clone(),
            process: self.process.clone(),
            created_at: self.created_at,
            expires_at: self.expires_at,
        }
    }
}

impl Ranked for Grant {
    open spec fn before(&self, other: &Self) -> bool {
        self.expires_at < other.expires_at
    }

    proof fn ranking(a: &Self, b: &Self, c: &Self) {
    }

    fn ranks_before(&self, other: &Self) -> (r: bool) {
        self.expires_at < other.expires_at
    }
}

/// The time `seconds` after `now`, the largest time where that does not fit.
pub open spec fn after(now: u64, seconds: u64) -> u64 {
    if now + seconds * 1_000 <= u64::MAX {
        (now + seconds * 1_000) as u64
    } else {
        u64::MAX
    }
}

pub fn time_after(now: u64, seconds: u64) -> (r: u64)
    ensures
        r == after(now, seconds),
{
    let millis: u128 = seconds as u128 * 1_000;
    let sum: u128 = now as u128 + millis;
    if sum <= u64::MAX as u128 {
        sum as u64
    } else {
        u64::MAX
    }
}

/// The expiry that an extension at `now` gives: fifteen minutes more, but no
/// more than an hour from now.
pub open spec fn extended(expires_at: u64, now: u64) -> u64 {
    let more = after(expires_at, GRANT_EXTENSION_SECONDS);
    let most = after(now, MAX_GRANT_SECONDS);
    if more <= most {
        more
    } else {
        most
    }
}

pub fn extended_expiry(expires_at: u64, now: u64) -> (r: u64)
    ensures
        r == extended(expires_at, now),
{
    let more: u64 = time_after(expires_at, GRANT_EXTENSION_SECONDS);
    let most: u64 = time_after(now, MAX_GRANT_SECONDS);
    if more <= most {
        more
    } else {
        most
    }
}

/// Whether a grant may last so many seconds.
pub open spec fn valid_seconds(seconds: u64) -> bool {
    0 < seconds <= MAX_GRANT_SECONDS
}

/// The complaint about a duration that a grant may not have.
pub open spec fn duration_message() -> Seq<char> {
    "Grant duration must be between 1 and "@ + numeral::decimal(MAX_GRANT_SECONDS as nat)
        + " seconds"@
}

pub fn duration_error() -> (r: String)
    ensures
        r@ == duration_message(),
{
    let start = text::concat(
        "Grant duration must be between 1 and ",
        numeral::u64_text(MAX_GRANT_SECONDS).as_str(),
    );
    text::concat(start.as_str(), " seconds")
}

/// The grants that have not expired at `now`.
pub open spec fn live(grants: Seq<Grant>, now: u64) -> Seq<Grant> {
    grants.filter(|g: Grant| g.expires_at > now)
}

/// The test for grants of `resource` to one process.
pub open spec fn gives(resource: Seq<char>, holder: ProcessIdentity) -> spec_fn(Grant) -> bool {
    |g: Grant| g.resource@ == resource && process::is_same(g.process, holder)
}

/// The newest grant of `resource` to one process.
pub open spec fn granted_to(
    grants: Seq<Grant>,
    resource: Seq<char>,
    holder: ProcessIdentity,
) -> Option<Grant> {
    seqs::last_where(grants, gives(resource, holder))
}

/// The grant that lets a process with this lineage have `resource`: the newest
/// one of the nearest process that has any.
pub open spec fn grant_for(
    grants: Seq<Grant>,
    resource: Seq<char>,
    tree: Seq<ProcessIdentity>,
) -> Option<Grant>
    decreases tree.len(),
{
    if tree.len() == 0 {
        None
    } else {
        match granted_to(grants, resource, tree[0]) {
            Some(grant) => Some(grant),
            None => grant_for(grants, resource, tree.skip(1)),
        }
    }
}

/// The position of the grant with an identifier.
pub open spec fn grant_index(grants: Seq<Grant>, id: Seq<char>) -> Option<int> {
    seqs::first_index(grants, has_id(id))
}

/// The test for the grant with an identifier.
pub open spec fn has_id(id: Seq<char>) -> spec_fn(Grant) -> bool {
    |g: Grant| g.id@ == id
}

/// The outcome of adding a grant: refused for a duration that is not valid,
/// else the new grant behind the others.
pub open spec fn add_outcome(
    before: Seq<Grant>,
    grant: Grant,
    seconds: u64,
    after: Seq<Grant>,
    r: Result<Grant, String>,
) -> bool {
    if valid_seconds(seconds) {
        after == before.push(grant) && r == Ok::<Grant, String>(grant)
    } else {
        after == before && r is Err && r->Err_0@ == duration_message()
    }
}

/// The grant that is made at `now`.
pub open spec fn new_grant(
    id: String,
    resource: String,
    process: ProcessIdentity,
    seconds: u64,
    now: u64,
) -> Grant {
    Grant { id, resource, process, created_at: now, expires_at: after(now, seconds) }
}

/// The grants after an extension at `now`: expired ones are gone, and the one
/// with the identifier lasts longer.
pub open spec fn extend_outcome(
    before: Seq<Grant>,
    id: Seq<char>,
    now: u64,
    after: Seq<Grant>,
    r: Option<Grant>,
) -> bool {
    let kept = live(before, now);
    match grant_index(kept, id) {
        Some(i) => {
            let longer = Grant { expires_at: extended(kept[i].expires_at, now), ..kept[i] };
            after == kept.update(i, longer) && r == Some(longer)
        },
        None => after == kept && r is None,
    }
}

/// The grants that have been given, oldest first.
pub struct GrantStore {
    pub grants: Vec<Grant>,
}

impl Default for GrantStore {
    fn default() -> (r: Self)
        ensures
            r.grants@.len() == 0,
    {
        GrantStore { grants: Vec::new() }
    }
}

impl GrantStore {
    /// Grants `resource` to `process` from now on.
    pub fn add(&mut self, resource: String, process: ProcessIdentity, seconds: u64) -> (r: Result<
        Grant,
        String,
    >)
        ensures
            exists|id: String, now: u64|
                add_outcome(
                    old(self).grants@,
                    #[trigger] new_grant(id, resource, process, seconds, now),
                    seconds,
                    final(self).grants@,
                    r,
                ),
    {
        let id = clock::new_id();
        let now: u64 = clock::now_millis();
        self.add_at(resource, process, seconds, id, now)
    }

    pub fn add_at(
        &mut self,
        resource: String,
        process: ProcessIdentity,
        seconds: u64,
        id: String,
        now: u64,
    ) -> (r: Result<Grant, String>)
        ensures
            add_outcome(
                old(self).grants@,
                new_grant(id, resource, process, seconds, now),
                seconds,
                final(self).grants@,
                r,
            ),
    {
        if seconds == 0 || seconds > MAX_GRANT_SECONDS {
            return Err(duration_error());
        }
        let grant = Grant {
            id,
            resource,
            process,
            created_at: now,
            expires_at: time_after(now, seconds),
        };
        self.grants.push(grant.clone());
        Ok(grant)
    }

    /// The grant that lets a process with this lineage have `secret` now.
    pub fn find(&mut self, secret: &str, process_tree: &Vec<ProcessIdentity>) -> (r: Option<Grant>)
        ensures
            exists|now: u64|
                final(self).grants@ == #[trigger] live(old(self).grants@, now) && r == grant_for(
                    final(self).grants@,
                    secret@,
                    process_tree@,
                ),
    {
        self.find_at(secret, process_tree, clock::now_millis())
    }

    pub fn find_at(&mut self, secret: &str, process_tree: &Vec<ProcessIdentity>, now: u64) -> (r:
        Option<Grant>)
        ensures
            final(self).grants@ == live(old(self).grants@, now),
            r == grant_for(final(self).grants@, secret@, process_tree@),
    {
        self.cleanup_at(now);
        assert(process_tree@.skip(0) =~= process_tree@);
        for i in 0..process_tree.len()
            invariant
                self.grants@ == live(old(self).grants@, now),
                grant_for(self.grants@, secret@, process_tree@) == grant_for(
                    self.grants@,
                    secret@,
                    process_tree@.skip(i as int),
                ),
        {
            let holder = &process_tree[i];
            let test = |g: &Grant| -> (b: bool)
                ensures
                    b == (g.resource@ == secret@ && process::is_same(g.process, *holder)),
                {
                    text::str_eq(g.resource.as_str(), secret) && process::same_process(
                        &g.process,
                        holder,
                    )
                };
            let found = seqs::last_position(&self.grants, test, Ghost(gives(secret@, *holder)));
            assert(process_tree@.skip(i as int)[0] == *holder);
            assert(process_tree@.skip(i as int).skip(1) =~= process_tree@.skip(i + 1));
            if let Some(at) = found {
                return Some(self.grants[at].clone());
            }
        }
        None
    }

    /// The grants that have not expired, the first to expire first.
    pub fn list(&mut self) -> (r: Vec<Grant>)
        ensures
            exists|now: u64|
                final(self).grants@ == #[trigger] live(old(self).grants@, now) && r@
                    == seqs::in_order(final(self).grants@),
    {
        self.list_at(clock::now_millis())
    }

    pub fn list_at(&mut self, now: u64) -> (r: Vec<Grant>)
        ensures
            final(self).grants@ == live(old(self).grants@, now),
            r@ == seqs::in_order(final(self).grants@),
    {
        self.cleanup_at(now);
        let all = self.grants.clone();
        assert(all@ =~= self.grants@);
        seqs::sort(all)
    }

    /// Takes the grant with an identifier away.
    pub fn revoke(&mut self, id: &str) -> (r: Option<Grant>)
        ensures
            match grant_index(old(self).grants@, id@) {
                Some(i) => {
                    &&& r == Some(old(self).grants@[i])
                    &&& final(self).grants@ == old(self).grants@.remove(i)
                },
                None => r is None && final(self).grants@ == old(self).grants@,
            },
    {
        let test = |g: &Grant| -> (b: bool)
            ensures
                b == (g.id@ == id@),
            { text::str_eq(g.id.as_str(), id) };
        match seqs::position(&self.grants, test, Ghost(has_id(id@))) {
            Some(index) => Some(self.grants.remove(index)),
            None => None,
        }
    }

    /// Lets the grant with an identifier last longer.
    pub fn extend(&mut self, id: &str) -> (r: Option<Grant>)
        ensures
            exists|now: u64|
                #[trigger] extend_outcome(
                    old(self).grants@,
                    id@,
                    now,
                    final(self).grants@,
                    r,
                ),
    {
        self.extend_at(id, clock::now_millis())
    }

    pub fn extend_at(&mut self, id: &str, now: u64) -> (r: Option<Grant>)
        ensures
            extend_outcome(old(self).grants@, id@, now, final(self).grants@, r),
    {
        self.cleanup_at(now);
        let ghost kept = self.grants@;
        let test = |g: &Grant| -> (b: bool)
            ensures
                b == (g.id@ == id@),
            { text::str_eq(g.id.as_str(), id) };
        match seqs::position(&self.grants, test, Ghost(has_id(id@))) {
            Some(index) => {
                let mut grant = self.grants[index].clone();
                grant.expires_at = extended_expiry(grant.expires_at, now);
                self.grants.set(index, grant.clone());
                Some(grant)
            },
            None => None,
        }
    }

    fn cleanup_at(&mut self, now: u64)
        ensures
            final(self).grants@ == live(old(self).grants@, now),
    {
        let keep = |g: &Grant| -> (b: bool)
            ensures
                b == (g.expires_at > now),
            { g.expires_at > now };
        seqs::retain(&mut self.grants, keep, Ghost(|g: Grant| g.expires_at > now));
    }
}

/// A grant lasts as long as asked for, and never longer than an hour.
pub proof fn new_grants_last_at_most_an_hour(
    id: String,
    resource: String,
    process: ProcessIdentity,
    seconds: u64,
    now: u64,
)
    requires
        valid_seconds(seconds),
    ensures
        ({
            let grant = new_grant(id, resource, process, seconds, now);
            &&& grant.created_at <= grant.expires_at
            &&& grant.expires_at - grant.created_at <= MAX_GRANT_SECONDS * 1_000
            &&& now + seconds * 1_000 <= u64::MAX ==> grant.expires_at == now + seconds * 1_000
        }),
{
}

/// An extension leaves at most an hour, and adds exactly fifteen minutes where
/// that is no more than an hour from now.
pub proof fn extensions_leave_at_most_an_hour(expires_at: u64, now: u64)
    ensures
        extended(expires_at, now) <= now + MAX_GRANT_SECONDS * 1_000,
        expires_at + GRANT_EXTENSION_SECONDS * 1_000 <= now + MAX_GRANT_SECONDS * 1_000 && now
            + MAX_GRANT_SECONDS * 1_000 <= u64::MAX ==> extended(expires_at, now) == expires_at
            + GRANT_EXTENSION_SECONDS * 1_000,
        expires_at <= now + MAX_GRANT_SECONDS * 1_000 ==> extended(expires_at, now) >= expires_at,
{
}

/// A grant that is found is one of those held, for that resource, to a process
/// in the lineage.
pub proof fn found_grants_cover_the_lineage(
    grants: Seq<Grant>,
    resource: Seq<char>,
    tree: Seq<ProcessIdentity>,
)
    ensures
        match grant_for(grants, resource, tree) {
            Some(grant) => {
                &&& grants.contains(grant)
                &&& grant.resource@ == resource
                &&& exists|i: int|
                    0 <= i < tree.len() && process::is_same(grant.process, #[trigger] tree[i])
            },
            None => forall|g: int, i: int|
                0 <= g < grants.len() && 0 <= i < tree.len() && (#[trigger] grants[g]).resource@
                    == resource ==> !process::is_same(grants[g].process, #[trigger] tree[i]),
        },
    decreases tree.len(),
{
    if tree.len() > 0 {
        let p = gives(resource, tree[0]);
        seqs::last_index_meaning(grants, p);
        if granted_to(grants, resource, tree[0]) is None {
            found_grants_cover_the_lineage(grants, resource, tree.skip(1));
            match grant_for(grants, resource, tree.skip(1)) {
                Some(grant) => {
                    let i = choose|i: int|
                        0 <= i < tree.skip(1).len() && process::is_same(
                            grant.process,
                            #[trigger] tree.skip(1)[i],
                        );
                    assert(tree.skip(1)[i] == tree[i + 1]);
                },
                None => {
                    assert forall|g: int, i: int|
                        0 <= g < grants.len() && 0 <= i < tree.len() && (
                        #[trigger] grants[g]).resource@ == resource implies !process::is_same(
                        grants[g].process,
                        #[trigger] tree[i],
                    ) by {
                        if i == 0 {
                            assert(!p(grants[g]));
                        } else {
                            assert(tree.skip(1)[i - 1] == tree[i]);
                        }
                    }
                },
            }
        }
    }
}

/// A grant to a process serves every lineage that runs through it, until it
/// expires.
pub proof fn a_grant_serves_its_descendants(
    before: Seq<Grant>,
    grant: Grant,
    tree: Seq<ProcessIdentity>,
    i: int,
    now: u64,
)
    requires
        0 <= i < tree.len(),
        process::is_same(grant.process, tree[i]),
        grant.expires_at > now,
    ensures
        grant_for(live(before.push(grant), now), grant.resource@, tree) is Some,
{
    reveal(Seq::filter);
    let all = before.push(grant);
    assert(all.drop_last() =~= before);
    let kept = live(all, now);
    assert(kept == live(before, now).push(grant));
    assert(kept[kept.len() - 1] == grant);
    found_grants_cover_the_lineage(kept, grant.resource@, tree);
}

/// Grants that have expired are never found.
pub proof fn expired_grants_are_not_found(
    grants: Seq<Grant>,
    resource: Seq<char>,
    tree: Seq<ProcessIdentity>,
    now: u64,
)
    ensures
        grant_for(live(grants, now), resource, tree) matches Some(grant) ==> grant.expires_at > now
            && grants.contains(grant),
{
    let p = |g: Grant| g.expires_at > now;
    assert(live(grants, now) == grants.filter(p));
    found_grants_cover_the_lineage(live(grants, now), resource, tree);
    if let Some(grant) = grant_for(live(grants, now), resource, tree) {
        filtered_elements(grants, p, grant);
    }
}

/// What a filter keeps satisfies the test and was there before.
pub proof fn filtered_elements<T>(s: Seq<T>, p: spec_fn(T) -> bool, x: T)
    requires
        s.filter(p).contains(x),
    ensures
        p(x),
        s.contains(x),
    decreases s.len(),
{
    reveal(Seq::filter);
    if s.len() > 0 {
        let i = s.filter(p).index_of(x);
        if s.drop_last().filter(p).contains(x) {
            filtered_elements(s.drop_last(), p, x);
            let j = s.drop_last().index_of(x);
            assert(s[j] == x);
        } else {
            assert(i >= s.drop_last().filter(p).len()) by {
                if i < s.drop_last().filter(p).len() {
                    assert(s.drop_last().filter(p)[i] == x);
                }
            }
            assert(s.last() == x);
        }
    }
}

} // verus!
