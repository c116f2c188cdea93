//! Who may have what, and until when: requests, their answers, grants, remembered
//! denials and the record of all of them.

use vstd::prelude::*;

use crate::aws;
use crate::aws::{AwsAccessLevel, AwsLoginStatus, AwsSettingsSummary};
use crate::clock;
use crate::grants;
use crate::grants::{Grant, GrantStore, DEFAULT_GRANT_SECONDS, MAX_GRANT_SECONDS};
use crate::process;
use crate::process::ProcessIdentity;
use crate::seqs;
use crate::seqs::Ranked;
use crate::text;
use crate::vault;
use crate::vault::{SecretSummary, VaultError, VaultFile, VaultPlaintext, VaultStore};

verus! {

/// How many entries the record of decisions keeps.
pub const AUDIT_LIMIT: usize = 500;

/// What a person decides about a request for a secret.
#[derive(Clone, Copy, Debug, PartialEq, Eq, Structural)]
pub enum ApprovalDecision {
    Deny,
    Once,
    Temporary,
}

/// The answer to a request for a secret.
#[derive(Debug, PartialEq, Eq)]
pub enum RequestResolution {
    Approved,
    Denied,
    Failed(String),
}

/// The answer as it is spoken of.
pub enum Answer {
    Approved,
    Denied,
    Failed(Seq<char>),
}

/// What an answer says.
pub open spec fn answer(resolution: RequestResolution) -> Answer {
    match resolution {
        RequestResolution::Approved => Answer::Approved,
        RequestResolution::Denied => Answer::Denied,
        RequestResolution::Failed(error) => Answer::Failed(error@),
    }
}

/// What happened to a request or a grant.
#[derive(Clone, Copy, Debug, PartialEq, Eq, Structural)]
pub enum AuditAction {
    AllowedOnce,
    GrantedTemporarily,
    AutoGranted,
    Denied,
    TimedOut,
    Revoked,
    Unblocked,
}

/// One line of the record.
#[derive(Debug)]
pub struct AuditEntry {
    pub id: String,
    pub occurred_at: u64,
    pub action: AuditAction,
    pub secret: String,
    pub ttl_seconds: Option<u64>,
    pub process: ProcessIdentity,
}

impl Clone for AuditEntry {
    fn clone(&self) -> (r: Self)
        ensures
            r == *self,
    {
        AuditEntry {
            id: self.id.clone(),
            occurred_at: self.occurred_at,
            action: self.action,
            secret: self.secret.clone(),
            ttl_seconds: self.ttl_seconds,
            process: self.process.clone(),
        }
    }
}

/// What a line of the record says, beside the identifier it goes by.
pub struct AuditRow {
    pub occurred_at: u64,
    pub action: AuditAction,
    pub secret: Seq<char>,
    pub ttl_seconds: Option<u64>,
    pub process: ProcessIdentity,
}

/// What a line of the record says.
pub open spec fn row(entry: AuditEntry) -> AuditRow {
    AuditRow {
        occurred_at: entry.occurred_at,
        action: entry.action,
        secret: entry.secret@,
        ttl_seconds: entry.ttl_seconds,
        process: entry.process,
    }
}

/// What the lines of the record say.
pub open spec fn rows(audit: Seq<AuditEntry>) -> Seq<AuditRow> {
    audit.map_values(|entry: AuditEntry| row(entry))
}

/// The newest lines, as many as are kept.
pub open spec fn newest(rows: Seq<AuditRow>) -> Seq<AuditRow> {
    if rows.len() > AUDIT_LIMIT {
        rows.skip(rows.len() - AUDIT_LIMIT)
    } else {
        rows
    }
}

/// Whether lines were added to the record: the newest are kept, the older ones
/// as they were, and each new one goes by an identifier.
pub open spec fn lines_recorded(
    before: Seq<AuditEntry>,
    lines: Seq<AuditRow>,
    after: Seq<AuditEntry>,
) -> bool {
    let older = older_lines(lines, after);
    &&& rows(after) == newest(rows(before) + lines)
    &&& after.take(older) == before.skip(before.len() - older)
    &&& forall|i: int|
        older <= i < after.len() ==> (#[trigger] after[i]).id@.len() == clock::ID_LENGTH
}

/// How many lines of the record are older than the ones that were added.
pub open spec fn older_lines(lines: Seq<AuditRow>, after: Seq<AuditEntry>) -> int {
    if after.len() > lines.len() {
        after.len() - lines.len()
    } else {
        0
    }
}

/// Whether one line was added to the record.
pub open spec fn line_recorded(
    before: Seq<AuditEntry>,
    line: AuditRow,
    after: Seq<AuditEntry>,
) -> bool {
    lines_recorded(before, seq![line], after)
}

/// Adding no lines leaves a record that is not too long as it is.
proof fn nothing_recorded(audit: Seq<AuditEntry>)
    requires
        audit.len() <= AUDIT_LIMIT,
    ensures
        lines_recorded(audit, Seq::empty(), audit),
{
    assert(rows(audit) + Seq::<AuditRow>::empty() =~= rows(audit));
    assert(audit.take(audit.len() as int) =~= audit.skip(0));
}

/// Adding lines in two steps or at once is the same.
proof fn recorded_in_steps(
    before: Seq<AuditEntry>,
    first: Seq<AuditRow>,
    middle: Seq<AuditEntry>,
    then: Seq<AuditRow>,
    after: Seq<AuditEntry>,
)
    requires
        lines_recorded(before, first, middle),
        lines_recorded(middle, then, after),
    ensures
        lines_recorded(before, first + then, after),
{
    let older = older_lines(first + then, after);
    assert(newest(newest(rows(before) + first) + then) =~= newest(rows(before) + (first + then)));
    assert(rows(middle).len() == middle.len() && rows(after).len() == after.len());
    assert(rows(before).len() == before.len());
    let kept = older_lines(then, after);
    let held = older_lines(first, middle);
    assert forall|i: int| 0 <= i < older implies after[i] == before[before.len() - older + i] by {
        assert(after.take(kept)[i] == after[i]);
        let at = middle.len() - kept + i;
        assert(middle.skip(middle.len() - kept)[i] == middle[at]);
        assert(middle.take(held)[at] == middle[at]);
        assert(before.skip(before.len() - held)[at] == before[before.len() - held + at]);
    }
    assert(after.take(older) =~= before.skip(before.len() - older));
    assert forall|i: int| older <= i < after.len() implies (#[trigger] after[i]).id@.len()
        == clock::ID_LENGTH by {
        if i < kept {
            assert(after.take(kept)[i] == after[i]);
            let at = middle.len() - kept + i;
            assert(middle.skip(middle.len() - kept)[i] == middle[at]);
        }
    }
}

/// A request for a secret that waits for an answer.
#[derive(Debug)]
pub struct PendingRequest {
    pub id: String,
    pub secret: String,
    pub verified: bool,
    pub process_tree: Vec<ProcessIdentity>,
    pub origin: ProcessIdentity,
    pub requested_at: u64,
}

impl Clone for PendingRequest {
    fn clone(&self) -> (r: Self)
        ensures
            same_request(r, *self),
    {
        PendingRequest {
            id: self.id.clone(),
            secret: self.secret.clone(),
            verified: self.verified,
            process_tree: process::copied(&self.process_tree),
            origin: self.origin.clone(),
            requested_at: self.requested_at,
        }
    }
}

/// Whether two requests agree in every field.
pub open spec fn same_request(left: PendingRequest, right: PendingRequest) -> bool {
    &&& left.id == right.id
    &&& left.secret == right.secret
    &&& left.verified == right.verified
    &&& left.process_tree@ == right.process_tree@
    &&& left.origin == right.origin
    &&& left.requested_at == right.requested_at
}

/// Whether two lists of requests agree in every field.
pub open spec fn same_requests(left: Seq<PendingRequest>, right: Seq<PendingRequest>) -> bool {
    &&& left.len() == right.len()
    &&& forall|i: int| 0 <= i < left.len() ==> same_request(#[trigger] left[i], right[i])
}

impl Ranked for PendingRequest {
    open spec fn before(&self, other: &Self) -> bool {
        self.requested_at < other.requested_at
    }

    proof fn ranking(a: &Self, b: &Self, c: &Self) {
    }

    fn ranks_before(&self, other: &Self) -> (r: bool) {
        self.requested_at < other.requested_at
    }
}

/// A request for AWS credentials that waits for an answer.
#[derive(Debug)]
pub struct PendingAwsCredentialRequest {
    pub id: String,
    pub profile: String,
    pub verified: bool,
    pub process_tree: Vec<ProcessIdentity>,
    pub origin: ProcessIdentity,
    pub requested_at: u64,
}

impl Clone for PendingAwsCredentialRequest {
    fn clone(&self) -> (r: Self)
        ensures
            same_aws_request(r, *self),
    {
        PendingAwsCredentialRequest {
            id: self.id.clone(),
            profile: self.profile.clone(),
            verified: self.verified,
            process_tree: process::copied(&self.process_tree),
            origin: self.origin.clone(),
            requested_at: self.requested_at,
        }
    }
}

/// Whether two requests agree in every field.
pub open spec fn same_aws_request(
    left: PendingAwsCredentialRequest,
    right: PendingAwsCredentialRequest,
) -> bool {
    &&& left.id == right.id
    &&& left.profile == right.profile
    &&& left.verified == right.verified
    &&& left.process_tree@ == right.process_tree@
    &&& left.origin == right.origin
    &&& left.requested_at == right.requested_at
}

/// Whether two lists of requests agree in every field.
pub open spec fn same_aws_requests(
    left: Seq<PendingAwsCredentialRequest>,
    right: Seq<PendingAwsCredentialRequest>,
) -> bool {
    &&& left.len() == right.len()
    &&& forall|i: int| 0 <= i < left.len() ==> same_aws_request(#[trigger] left[i], right[i])
}

impl Ranked for PendingAwsCredentialRequest {
    open spec fn before(&self, other: &Self) -> bool {
        self.requested_at < other.requested_at
    }

    proof fn ranking(a: &Self, b: &Self, c: &Self) {
    }

    fn ranks_before(&self, other: &Self) -> (r: bool) {
        self.requested_at < other.requested_at
    }
}

/// The answer to a request for AWS credentials.
#[derive(Clone, Copy, Debug, PartialEq, Eq, Structural)]
pub enum AwsRequestResolution {
    Approved(AwsAccessLevel),
    Denied,
}

/// What comes of asking for AWS credentials: an answer at once, or an
/// identifier under which the answer is posted later.
#[derive(Debug)]
pub enum AwsRequestOutcome {
    Immediate(AwsAccessLevel),
    Denied,
    Pending { id: String },
}

/// A role of a profile that a process and its children may use for some time.
#[derive(Debug)]
pub struct AwsCredentialGrant {
    pub id: String,
    pub profile: String,
    pub level: AwsAccessLevel,
    pub process: ProcessIdentity,
    pub created_at: u64,
    pub expires_at: u64,
}

impl Clone for AwsCredentialGrant {
    fn clone(&self) -> (r: Self)
        ensures
            r == *self,
    {
        AwsCredentialGrant {
            id: self.id.clone(),
            profile: self.profile.clone(),
            level: self.level,
            process: self.process.clone(),
            created_at: self.created_at,
            expires_at: self.expires_at,
        }
    }
}

/// A denial that is remembered for the lineage of a request.
#[derive(Debug)]
pub struct AwsCredentialDenial {
    pub id: String,
    pub profile: String,
    pub process: ProcessIdentity,
    pub created_at: u64,
    pub expires_at: u64,
    pub process_tree: Vec<ProcessIdentity>,
}

impl Clone for AwsCredentialDenial {
    fn clone(&self) -> (r: Self)
        ensures
            same_denial(r, *self),
    {
        AwsCredentialDenial {
            id: self.id.clone(),
            profile: self.profile.clone(),
            process: self.process.clone(),
            created_at: self.created_at,
            expires_at: self.expires_at,
            process_tree: process::copied(&self.process_tree),
        }
    }
}

/// Whether two denials agree in every field.
pub open spec fn same_denial(left: AwsCredentialDenial, right: AwsCredentialDenial) -> bool {
    &&& left.id == right.id
    &&& left.profile == right.profile
    &&& left.process == right.process
    &&& left.created_at == right.created_at
    &&& left.expires_at == right.expires_at
    &&& left.process_tree@ == right.process_tree@
}

/// Whether two lists of denials agree in every field.
pub open spec fn same_denials(
    left: Seq<AwsCredentialDenial>,
    right: Seq<AwsCredentialDenial>,
) -> bool {
    &&& left.len() == right.len()
    &&& forall|i: int| 0 <= i < left.len() ==> same_denial(#[trigger] left[i], right[i])
}

/// Everything that is shown.
#[derive(Debug)]
pub struct AppSnapshot {
    pub vault_exists: bool,
    pub unlocked: bool,
    pub secrets: Vec<SecretSummary>,
    pub pending: Vec<PendingRequest>,
    pub pending_aws: Vec<PendingAwsCredentialRequest>,
    pub grants: Vec<Grant>,
    pub aws_grants: Vec<AwsCredentialGrant>,
    pub aws_denials: Vec<AwsCredentialDenial>,
    pub audit: Vec<AuditEntry>,
    pub max_grant_seconds: u64,
    pub aws: Option<AwsSettingsSummary>,
    pub aws_login: AwsLoginStatus,
}

/// What comes of asking for a secret: its value at once, or an identifier under
/// which the answer is posted later.
#[derive(Debug)]
pub enum RequestOutcome {
    Immediate(String),
    Pending { id: String },
}

/// An answer that has been given and not yet been fetched.
#[derive(Debug)]
pub struct PostedResolution {
    pub id: String,
    pub resolution: RequestResolution,
}

/// What the posted answers say, each with the request it is for.
pub open spec fn posts(posted: Seq<PostedResolution>) -> Seq<(Seq<char>, Answer)> {
    posted.map_values(|p: PostedResolution| (p.id@, answer(p.resolution)))
}

/// An answer about AWS credentials that has been given and not yet been
/// fetched.
#[derive(Debug)]
pub struct PostedAwsResolution {
    pub id: String,
    pub resolution: AwsRequestResolution,
}

/// What the posted answers say, each with the request it is for.
pub open spec fn aws_posts(posted: Seq<PostedAwsResolution>) -> Seq<
    (Seq<char>, AwsRequestResolution),
> {
    posted.map_values(|p: PostedAwsResolution| (p.id@, p.resolution))
}

/// The posted answers without those for one request.
pub open spec fn posts_without<A>(posted: Seq<(Seq<char>, A)>, id: Seq<char>) -> Seq<
    (Seq<char>, A),
> {
    posted.filter(|p: (Seq<char>, A)| p.0 != id)
}

/// The position of a request.
pub open spec fn pending_index(pending: Seq<PendingRequest>, id: Seq<char>) -> Option<int> {
    seqs::first_index(pending, has_id(id))
}

/// The test for the request with an identifier.
pub open spec fn has_id(id: Seq<char>) -> spec_fn(PendingRequest) -> bool {
    |p: PendingRequest| p.id@ == id
}

/// The test for the request for AWS credentials with an identifier.
pub open spec fn has_aws_id(id: Seq<char>) -> spec_fn(PendingAwsCredentialRequest) -> bool {
    |p: PendingAwsCredentialRequest| p.id@ == id
}

/// The position of a request for AWS credentials.
pub open spec fn pending_aws_index(
    pending: Seq<PendingAwsCredentialRequest>,
    id: Seq<char>,
) -> Option<int> {
    seqs::first_index(pending, has_aws_id(id))
}

/// The identifiers without one of them.
pub open spec fn ids_without(ids: Seq<String>, id: Seq<char>) -> Seq<String> {
    ids.filter(other_id(id))
}

/// The test for other identifiers.
pub open spec fn other_id(id: Seq<char>) -> spec_fn(String) -> bool {
    |i: String| i@ != id
}

/// The test for answers to other requests.
pub open spec fn other_post(id: Seq<char>) -> spec_fn(PostedResolution) -> bool {
    |p: PostedResolution| p.id@ != id
}

/// The test for answers to other requests.
pub open spec fn other_aws_post(id: Seq<char>) -> spec_fn(PostedAwsResolution) -> bool {
    |p: PostedAwsResolution| p.id@ != id
}

/// The requests with a new one, which takes the place of one with its
/// identifier.
pub open spec fn queued(pending: Seq<PendingRequest>, request: PendingRequest) -> Seq<
    PendingRequest,
> {
    pending.filter(|p: PendingRequest| p.id@ != request.id@).push(request)
}

/// The requests for AWS credentials with a new one, which takes the place of
/// one with its identifier.
pub open spec fn queued_aws(
    pending: Seq<PendingAwsCredentialRequest>,
    request: PendingAwsCredentialRequest,
) -> Seq<PendingAwsCredentialRequest> {
    pending.filter(|p: PendingAwsCredentialRequest| p.id@ != request.id@).push(request)
}

/// Whether no identifier occurs twice.
pub open spec fn distinct(pending: Seq<PendingRequest>) -> bool {
    forall|i: int, j: int|
        0 <= i < j < pending.len() ==> (#[trigger] pending[i]).id@ != (#[trigger] pending[j]).id@
}

/// Whether no identifier occurs twice.
pub open spec fn distinct_aws(pending: Seq<PendingAwsCredentialRequest>) -> bool {
    forall|i: int, j: int|
        0 <= i < j < pending.len() ==> (#[trigger] pending[i]).id@ != (#[trigger] pending[j]).id@
}

/// Whether every request names its secret in the form in which it is kept.
pub open spec fn all_normalized(pending: Seq<PendingRequest>) -> bool {
    forall|i: int|
        0 <= i < pending.len() ==> vault::normalized_name((#[trigger] pending[i]).secret@) == Ok::<
            Seq<char>,
            Seq<char>,
        >(pending[i].secret@)
}

/// Whether every request names its profile in the form in which it is kept.
pub open spec fn all_profiles(pending: Seq<PendingAwsCredentialRequest>) -> bool {
    forall|i: int|
        0 <= i < pending.len() ==> normalized_profile((#[trigger] pending[i]).profile@) == Ok::<
            Seq<char>,
            Seq<char>,
        >(pending[i].profile@)
}

/// Whether a lineage has a process in common with another.
pub open spec fn overlap(left: Seq<ProcessIdentity>, right: Seq<ProcessIdentity>) -> bool {
    exists|i: int, j: int|
        0 <= i < left.len() && 0 <= j < right.len() && process::is_same(
            #[trigger] left[i],
            #[trigger] right[j],
        )
}

pub fn process_trees_overlap(left: &Vec<ProcessIdentity>, right: &Vec<ProcessIdentity>) -> (r: bool)
    ensures
        r == overlap(left@, right@),
{
    for i in 0..left.len()
        invariant
            forall|a: int, b: int|
                0 <= a < i && 0 <= b < right@.len() ==> !process::is_same(
                    #[trigger] left@[a],
                    #[trigger] right@[b],
                ),
    {
        for j in 0..right.len()
            invariant
                0 <= i < left@.len(),
                forall|b: int|
                    0 <= b < j ==> !process::is_same(left@[i as int], #[trigger] right@[b]),
        {
            if process::same_process(&left[i], &right[j]) {
                return true;
            }
        }
    }
    false
}

/// The process that a grant is for, or why it is refused: the chosen process,
/// or the requester, as it stands in the lineage, but never the service
/// manager.
pub open spec fn boundary(
    tree: Seq<ProcessIdentity>,
    origin: ProcessIdentity,
    selected: Option<ProcessIdentity>,
) -> Result<ProcessIdentity, Seq<char>> {
    let wanted = match selected {
        Some(selected) => selected,
        None => origin,
    };
    if process::is_launchd(wanted) {
        Err("launchd cannot be used as a grant boundary"@)
    } else {
        match seqs::first_where(tree, |p: ProcessIdentity| process::is_same(p, wanted)) {
            Some(found) => Ok(found),
            None => Err("Selected process is not in the verified process tree"@),
        }
    }
}

pub(crate) fn validated_grant_process(
    tree: &Vec<ProcessIdentity>,
    origin: &ProcessIdentity,
    selected: Option<ProcessIdentity>,
) -> (r: Result<ProcessIdentity, VaultError>)
    ensures
        match boundary(tree@, *origin, selected) {
            Ok(found) => r == Ok::<ProcessIdentity, VaultError>(found),
            Err(error) => vault::refuses(r, error),
        },
{
    let wanted = match selected {
        Some(selected) => selected,
        None => origin.clone(),
    };
    let wanted = &wanted;
    if process::is_launchd_process(wanted) {
        return Err(vault::vault_error("launchd cannot be used as a grant boundary"));
    }
    let test = |p: &ProcessIdentity| -> (b: bool)
        ensures
            b == process::is_same(*p, *wanted),
        { process::same_process(p, wanted) };
    match seqs::position(tree, test, Ghost(|p: ProcessIdentity| process::is_same(p, *wanted))) {
        Some(i) => Ok(tree[i].clone()),
        None => Err(
            vault::vault_error("Selected process is not in the verified process tree"),
        ),
    }
}

/// The duration that is meant: half an hour where none is chosen.
pub open spec fn seconds_or_default(seconds: Option<u64>) -> u64 {
    match seconds {
        Some(seconds) => seconds,
        None => DEFAULT_GRANT_SECONDS,
    }
}

pub fn validated_grant_seconds(seconds: Option<u64>) -> (r: Result<u64, VaultError>)
    ensures
        if grants::valid_seconds(seconds_or_default(seconds)) {
            r == Ok::<u64, VaultError>(seconds_or_default(seconds))
        } else {
            vault::refuses(r, grants::duration_message())
        },
{
    let seconds: u64 = match seconds {
        Some(seconds) => seconds,
        None => DEFAULT_GRANT_SECONDS,
    };
    if seconds == 0 || seconds > MAX_GRANT_SECONDS {
        return Err(VaultError(grants::duration_error()));
    }
    Ok(seconds)
}

/// The profile that is meant, or why it cannot be.
pub open spec fn normalized_profile(profile: Seq<char>) -> Result<Seq<char>, Seq<char>> {
    if aws::is_profile(text::trimmed(profile)) {
        Ok(text::trimmed(profile))
    } else {
        Err("AWS profile is invalid"@)
    }
}

pub(crate) fn normalize_aws_profile(profile: &str) -> (r: Result<String, VaultError>)
    ensures
        match r {
            Ok(normalized) => normalized_profile(profile@) == Ok::<Seq<char>, Seq<char>>(
                normalized@,
            ),
            Err(error) => normalized_profile(profile@) == Err::<Seq<char>, Seq<char>>(error.0@),
        },
{
    let trimmed = text::trim(profile);
    match aws::validate_aws_profile(trimmed.as_str()) {
        Ok(()) => Ok(trimmed),
        Err(error) => Err(VaultError(error)),
    }
}

/// How a profile is named in the record.
pub open spec fn aws_resource(profile: Seq<char>) -> Seq<char> {
    "aws/"@ + profile
}

pub(crate) fn aws_audit_resource(profile: &str) -> (r: String)
    ensures
        r@ == aws_resource(profile@),
{
    text::concat("aws/", profile)
}

/// Whether a denial holds for a profile and a lineage.
pub open spec fn denies(
    denial: AwsCredentialDenial,
    profile: Seq<char>,
    tree: Seq<ProcessIdentity>,
) -> bool {
    denial.profile@ == profile && overlap(denial.process_tree@, tree)
}

/// Whether one of the denials holds for a profile and a lineage.
pub open spec fn is_blocked(
    denials: Seq<AwsCredentialDenial>,
    profile: Seq<char>,
    tree: Seq<ProcessIdentity>,
) -> bool {
    seqs::any_where(denials, |d: AwsCredentialDenial| denies(d, profile, tree))
}

/// The denials that do not hold for a profile and a lineage.
pub open spec fn unblocked(
    denials: Seq<AwsCredentialDenial>,
    profile: Seq<char>,
    tree: Seq<ProcessIdentity>,
) -> Seq<AwsCredentialDenial> {
    denials.filter(|d: AwsCredentialDenial| !denies(d, profile, tree))
}

/// The denials that have not expired at `now`.
pub open spec fn live_denials(denials: Seq<AwsCredentialDenial>, now: u64) -> Seq<
    AwsCredentialDenial,
> {
    denials.filter(|d: AwsCredentialDenial| d.expires_at > now)
}

/// The decisions that have not expired at `now`.
pub open spec fn live_decisions(decisions: Seq<AwsCredentialGrant>, now: u64) -> Seq<
    AwsCredentialGrant,
> {
    decisions.filter(|d: AwsCredentialGrant| d.expires_at > now)
}

/// The test for decisions about a profile for one process.
pub open spec fn decides(profile: Seq<char>, holder: ProcessIdentity) -> spec_fn(
    AwsCredentialGrant,
) -> bool {
    |d: AwsCredentialGrant| d.profile@ == profile && process::is_same(d.process, holder)
}

/// The decision that answers a request with this lineage: the newest one of the
/// nearest process that has any.
pub open spec fn decision_for(
    decisions: Seq<AwsCredentialGrant>,
    profile: Seq<char>,
    tree: Seq<ProcessIdentity>,
) -> Option<AwsCredentialGrant>
    decreases tree.len(),
{
    if tree.len() == 0 {
        None
    } else {
        match seqs::last_where(decisions, decides(profile, tree[0])) {
            Some(decision) => Some(decision),
            None => decision_for(decisions, profile, tree.skip(1)),
        }
    }
}

pub(crate) fn find_decision(
    decisions: &Vec<AwsCredentialGrant>,
    profile: &str,
    tree: &Vec<ProcessIdentity>,
) -> (r: Option<AwsCredentialGrant>)
    ensures
        r == decision_for(decisions@, profile@, tree@),
{
    assert(tree@.skip(0) =~= tree@);
    for i in 0..tree.len()
        invariant
            decision_for(decisions@, profile@, tree@) == decision_for(
                decisions@,
                profile@,
                tree@.skip(i as int),
            ),
    {
        let holder = &tree[i];
        let test = |d: &AwsCredentialGrant| -> (b: bool)
            ensures
                b == (d.profile@ == profile@ && process::is_same(d.process, *holder)),
            {
                text::str_eq(d.profile.as_str(), profile) && process::same_process(
                    &d.process,
                    holder,
                )
            };
        let found = seqs::last_position(decisions, test, Ghost(decides(profile@, *holder)));
        assert(tree@.skip(i as int)[0] == *holder);
        assert(tree@.skip(i as int).skip(1) =~= tree@.skip(i + 1));
        if let Some(at) = found {
            return Some(decisions[at].clone());
        }
    }
    None
}

/// The decisions after an approval: the new one takes the place of those about
/// the same profile for the same process.
pub open spec fn decided(decisions: Seq<AwsCredentialGrant>, decision: AwsCredentialGrant) -> Seq<
    AwsCredentialGrant,
> {
    decisions.filter(
        |d: AwsCredentialGrant|
            d.profile@ != decision.profile@ || !process::is_same(d.process, decision.process),
    ).push(decision)
}

/// The processes of a lineage that bound something.
pub open spec fn bounding(tree: Seq<ProcessIdentity>) -> Seq<ProcessIdentity> {
    tree.filter(|p: ProcessIdentity| !process::is_launchd(p))
}

/// Whether a denial is what remembering the denial of a request at `now` under
/// an identifier makes.
pub open spec fn is_denial_of(
    denial: AwsCredentialDenial,
    request: PendingAwsCredentialRequest,
    id: String,
    now: u64,
) -> bool {
    &&& denial.id == id
    &&& denial.profile == request.profile
    &&& denial.process == request.origin
    &&& denial.created_at == now
    &&& denial.expires_at == grants::after(now, DEFAULT_GRANT_SECONDS)
    &&& denial.process_tree@ == bounding(request.process_tree@)
}

/// Whether the denials are those after a request was denied: a verified one is
/// remembered under an identifier in place of those that held for it, an
/// unverified one is not.
pub open spec fn denial_remembered(
    before: Seq<AwsCredentialDenial>,
    request: PendingAwsCredentialRequest,
    id: String,
    now: u64,
    after: Seq<AwsCredentialDenial>,
) -> bool {
    if request.verified {
        exists|denial: AwsCredentialDenial|
            #[trigger] is_denial_of(denial, request, id, now) && after == unblocked(
                before,
                request.profile@,
                request.process_tree@,
            ).push(denial)
    } else {
        after == before
    }
}

/// All that is known while the program runs. Grants, denials and the record
/// live here alone.
pub struct Controller {
    pub vault: VaultStore,
    pub grants: GrantStore,
    pub pending: Vec<PendingRequest>,
    pub resolutions: Vec<PostedResolution>,
    pub waiting_for_unlock: Vec<String>,
    pub audit: Vec<AuditEntry>,
    pub pending_aws: Vec<PendingAwsCredentialRequest>,
    pub aws_resolutions: Vec<PostedAwsResolution>,
    pub aws_process_decisions: Vec<AwsCredentialGrant>,
    pub aws_process_denials: Vec<AwsCredentialDenial>,
    pub aws_login: AwsLoginStatus,
}

/// Whether a request waits for the vault to be unlocked.
pub open spec fn is_waiting(controller: Controller, id: Seq<char>) -> bool {
    text::views(controller.waiting_for_unlock@).contains(id)
}

/// The line of the record for a request that was decided.
pub open spec fn decision_row(
    request: PendingRequest,
    decision: ApprovalDecision,
    seconds: u64,
    holder: ProcessIdentity,
    now: u64,
) -> AuditRow {
    AuditRow {
        occurred_at: now,
        action: match decision {
            ApprovalDecision::Deny => AuditAction::Denied,
            ApprovalDecision::Once => AuditAction::AllowedOnce,
            ApprovalDecision::Temporary => AuditAction::GrantedTemporarily,
        },
        secret: request.secret@,
        ttl_seconds: if decision == ApprovalDecision::Temporary {
            Some(seconds)
        } else {
            None
        },
        process: holder,
    }
}

/// Whether the request at `i` was decided: it no longer waits, its answer is
/// posted, the record tells of it, and nothing else but the grants changed.
pub open spec fn request_decided(
    before: Controller,
    i: int,
    decision: ApprovalDecision,
    seconds: u64,
    holder: ProcessIdentity,
    now: u64,
    after: Controller,
) -> bool {
    let request = before.pending@[i];
    &&& after.pending@ == before.pending@.remove(i)
    &&& after.waiting_for_unlock@ == ids_without(before.waiting_for_unlock@, request.id@)
    &&& posts(after.resolutions@) == posts(before.resolutions@).push(
        (
            request.id@,
            if decision == ApprovalDecision::Deny {
                Answer::Denied
            } else {
                Answer::Approved
            },
        ),
    )
    &&& line_recorded(
        before.audit@,
        decision_row(request, decision, seconds, holder, now),
        after.audit@,
    )
    &&& after == (Controller {
        pending: after.pending,
        waiting_for_unlock: after.waiting_for_unlock,
        resolutions: after.resolutions,
        audit: after.audit,
        grants: after.grants,
        ..before
    })
}

/// The outcome of a decision about a request.
pub open spec fn respond_outcome(
    before: Controller,
    id: Seq<char>,
    decision: ApprovalDecision,
    ttl_seconds: Option<u64>,
    grant_process: Option<ProcessIdentity>,
    grant_id: String,
    now: u64,
    after: Controller,
    r: Result<(), VaultError>,
) -> bool {
    match pending_index(before.pending@, id) {
        None => vault::refuses(r, "Request is no longer pending"@) && after == before,
        Some(i) => {
            let request = before.pending@[i];
            let seconds = seconds_or_default(ttl_seconds);
            if is_waiting(before, id) && decision != ApprovalDecision::Deny {
                vault::refuses(r, "Vault is locked"@) && after == before
            } else if decision != ApprovalDecision::Temporary {
                &&& r is Ok
                &&& request_decided(before, i, decision, seconds, request.origin, now, after)
                &&& after.grants.grants@ == before.grants.grants@
            } else if !request.verified {
                vault::refuses(r, "Unverified requests can only be allowed once"@) && after
                    == before
            } else {
                match boundary(request.process_tree@, request.origin, grant_process) {
                    Err(error) => vault::refuses(r, error) && after == before,
                    Ok(holder) => if !grants::valid_seconds(seconds) {
                        vault::refuses(r, grants::duration_message()) && after == before
                    } else {
                        &&& r is Ok
                        &&& request_decided(before, i, decision, seconds, holder, now, after)
                        &&& after.grants.grants@ == before.grants.grants@.push(
                            grants::new_grant(grant_id, request.secret, holder, seconds, now),
                        )
                    },
                }
            }
        },
    }
}

/// Whether a request is the one that was asked for.
pub open spec fn is_request(
    request: PendingRequest,
    id: Seq<char>,
    secret: Seq<char>,
    tree: Seq<ProcessIdentity>,
    verified: bool,
    now: u64,
) -> bool {
    &&& request.id@ == id
    &&& request.secret@ == secret
    &&& request.verified == verified
    &&& request.process_tree@ == tree
    &&& request.origin == tree[0]
    &&& request.requested_at == now
}

/// Whether a request was put to a person, after the vault is unlocked where
/// `waits` says so; `r` names it.
pub open spec fn was_queued(
    before: Controller,
    secret: Seq<char>,
    tree: Seq<ProcessIdentity>,
    verified: bool,
    waits: bool,
    id: Seq<char>,
    now: u64,
    after: Controller,
    r: Result<RequestOutcome, VaultError>,
) -> bool {
    &&& r matches Ok(RequestOutcome::Pending { id: given }) && given@ == id
    &&& exists|request: PendingRequest|
        #[trigger] is_request(request, id, secret, tree, verified, now) && after.pending@
            == queued(before.pending@, request)
    &&& text::views(after.waiting_for_unlock@) == if waits {
        text::views(ids_without(before.waiting_for_unlock@, id)).push(id)
    } else {
        text::views(ids_without(before.waiting_for_unlock@, id))
    }
    &&& posts(after.resolutions@) == posts_without(posts(before.resolutions@), id)
    &&& after == (Controller {
        pending: after.pending,
        waiting_for_unlock: after.waiting_for_unlock,
        resolutions: after.resolutions,
        grants: after.grants,
        ..before
    })
}

/// The outcome of asking for a secret.
pub open spec fn begin_outcome(
    before: Controller,
    name: Seq<char>,
    process_tree: Seq<ProcessIdentity>,
    verified: bool,
    id: Seq<char>,
    now: u64,
    after: Controller,
    r: Result<RequestOutcome, VaultError>,
) -> bool {
    let tree = process::without_clients(process_tree);
    match vault::normalized_name(name) {
        Err(error) => vault::refuses(r, error) && after == before,
        Ok(secret) => if tree.len() == 0 {
            vault::refuses(r, "Unable to determine the requesting process"@) && after == before
        } else if !vault::is_unlocked(before.vault) {
            &&& was_queued(before, secret, tree, verified, true, id, now, after, r)
            &&& after.grants.grants@ == before.grants.grants@
        } else {
            match vault::revealed(before.vault, secret) {
                Err(error) => vault::refuses(r, error) && after == before,
                Ok(entry) => {
                    let live = grants::live(before.grants.grants@, now);
                    if !verified {
                        &&& was_queued(before, secret, tree, verified, false, id, now, after, r)
                        &&& after.grants.grants@ == before.grants.grants@
                    } else if grants::grant_for(live, secret, tree) is None {
                        &&& was_queued(before, secret, tree, verified, false, id, now, after, r)
                        &&& after.grants.grants@ == live
                    } else {
                        &&& r == Ok::<RequestOutcome, VaultError>(
                            RequestOutcome::Immediate(entry.value),
                        )
                        &&& after.grants.grants@ == live
                        &&& line_recorded(
                            before.audit@,
                            (AuditRow {
                                occurred_at: now,
                                action: AuditAction::AutoGranted,
                                secret,
                                ttl_seconds: None,
                                process: tree[0],
                            }),
                            after.audit@,
                        )
                        &&& after == (Controller {
                            grants: after.grants,
                            audit: after.audit,
                            ..before
                        })
                    }
                },
            }
        },
    }
}

/// The answers for requests that waited for the vault and cannot be met, in
/// the order in which they waited.
pub open spec fn failures(
    waiting: Seq<Seq<char>>,
    pending: Seq<PendingRequest>,
    store: VaultStore,
) -> Seq<(Seq<char>, Answer)>
    decreases waiting.len(),
{
    if waiting.len() == 0 {
        Seq::empty()
    } else {
        let before = failures(waiting.drop_last(), pending, store);
        match failure(waiting.last(), pending, store) {
            Some(error) => before.push((waiting.last(), Answer::Failed(error))),
            None => before,
        }
    }
}

/// Why a request that waited for the vault cannot be met.
pub open spec fn failure(
    id: Seq<char>,
    pending: Seq<PendingRequest>,
    store: VaultStore,
) -> Option<Seq<char>> {
    match pending_index(pending, id) {
        Some(i) => match vault::revealed(store, pending[i].secret@) {
            Err(error) => Some(error),
            Ok(_) => None,
        },
        None => None,
    }
}

/// Whether the requests that waited for the vault were looked at: those for
/// secrets that are not there have failed, the others now wait for a person.
pub open spec fn waiting_prepared(
    before: Controller,
    store: VaultStore,
    after: Controller,
) -> bool {
    &&& after.vault == store
    &&& after.waiting_for_unlock@.len() == 0
    &&& after.pending@ == before.pending@.filter(
        unaffected(text::views(before.waiting_for_unlock@), store),
    )
    &&& posts(after.resolutions@) == posts(before.resolutions@) + failures(
        text::views(before.waiting_for_unlock@),
        before.pending@,
        store,
    )
    &&& after == (Controller {
        vault: after.vault,
        waiting_for_unlock: after.waiting_for_unlock,
        pending: after.pending,
        resolutions: after.resolutions,
        ..before
    })
}

/// Whether a request that nobody answered was given up: it no longer waits, no
/// answer is left for it, and the record tells of it.
pub open spec fn timeout_outcome(
    before: Controller,
    id: Seq<char>,
    now: u64,
    after: Controller,
) -> bool {
    &&& posts(after.resolutions@) == posts_without(posts(before.resolutions@), id)
    &&& match pending_index(before.pending@, id) {
        None => after == (Controller { resolutions: after.resolutions, ..before }),
        Some(i) => {
            let request = before.pending@[i];
            &&& after.pending@ == before.pending@.remove(i)
            &&& after.waiting_for_unlock@ == ids_without(before.waiting_for_unlock@, id)
            &&& line_recorded(
                before.audit@,
                (AuditRow {
                    occurred_at: now,
                    action: AuditAction::TimedOut,
                    secret: request.secret@,
                    ttl_seconds: None,
                    process: request.origin,
                }),
                after.audit@,
            )
            &&& after == (Controller {
                pending: after.pending,
                waiting_for_unlock: after.waiting_for_unlock,
                resolutions: after.resolutions,
                audit: after.audit,
                ..before
            })
        },
    }
}

/// The line of the record for a grant that was taken away.
pub open spec fn revoked_row(resource: Seq<char>, holder: ProcessIdentity, now: u64) -> AuditRow {
    AuditRow {
        occurred_at: now,
        action: AuditAction::Revoked,
        secret: resource,
        ttl_seconds: None,
        process: holder,
    }
}

proof fn filtered_posts<A>(s: Seq<(Seq<char>, A)>, x: (Seq<char>, A), id: Seq<char>)
    ensures
        posts_without(s.push(x), id) == if x.0 != id {
            posts_without(s, id).push(x)
        } else {
            posts_without(s, id)
        },
{
    reveal(Seq::filter);
    assert(s.push(x).drop_last() =~= s);
}

/// Filtering before and after taking views is the same.
proof fn views_of_filtered_posts(s: Seq<PostedResolution>, id: Seq<char>)
    ensures
        posts(s.filter(other_post(id))) == posts_without(posts(s), id),
    decreases s.len(),
{
    reveal(Seq::filter);
    let p = other_post(id);
    if s.len() > 0 {
        views_of_filtered_posts(s.drop_last(), id);
        assert(posts(s) =~= posts(s.drop_last()).push((s.last().id@, answer(s.last().resolution))));
        filtered_posts(posts(s.drop_last()), posts(s).last(), id);
        if p(s.last()) {
            assert(posts(s.filter(p)) =~= posts(s.drop_last().filter(p)).push(posts(s).last()));
        }
    } else {
        assert(posts(s.filter(p)) =~= posts(s));
        assert(posts(s) =~= posts_without(posts(s), id));
    }
}

pub(crate) proof fn views_of_filtered_aws_posts(s: Seq<PostedAwsResolution>, id: Seq<char>)
    ensures
        aws_posts(s.filter(other_aws_post(id))) == posts_without(
            aws_posts(s),
            id,
        ),
    decreases s.len(),
{
    reveal(Seq::filter);
    let p = other_aws_post(id);
    if s.len() > 0 {
        views_of_filtered_aws_posts(s.drop_last(), id);
        assert(aws_posts(s) =~= aws_posts(s.drop_last()).push((s.last().id@, s.last().resolution)));
        filtered_posts(aws_posts(s.drop_last()), aws_posts(s).last(), id);
        if p(s.last()) {
            assert(aws_posts(s.filter(p)) =~= aws_posts(s.drop_last().filter(p)).push(
                aws_posts(s).last(),
            ));
        }
    } else {
        assert(aws_posts(s.filter(p)) =~= aws_posts(s));
        assert(aws_posts(s) =~= posts_without(aws_posts(s), id));
    }
}

/// What is left after filtering identifiers.
pub proof fn ids_without_meaning(ids: Seq<String>, id: Seq<char>)
    ensures
        forall|other: Seq<char>| #[trigger]
            text::views(ids_without(ids, id)).contains(other) <==> other != id && text::views(
                ids,
            ).contains(other),
    decreases ids.len(),
{
    reveal(Seq::filter);
    let kept = ids_without(ids, id);
    let p = other_id(id);
    assert forall|other: Seq<char>| #[trigger] text::views(kept).contains(other) implies other != id
        && text::views(ids).contains(other) by {
        let k = choose|k: int| 0 <= k < text::views(kept).len() && text::views(kept)[k] == other;
        assert(kept[k]@ == other);
        assert(ids.filter(p).contains(kept[k]));
        grants::filtered_elements(ids, p, kept[k]);
        let j = ids.index_of(kept[k]);
        assert(text::views(ids)[j] == other);
    }
    assert forall|other: Seq<char>|
        other != id && #[trigger] text::views(ids).contains(other) implies text::views(
        kept,
    ).contains(other) by {
        let j = choose|j: int| 0 <= j < text::views(ids).len() && text::views(ids)[j] == other;
        assert(ids[j]@ == other);
        broadcast use vstd::seq_lib::group_filter_ensures;

        assert(kept.contains(ids[j]));
        let k = kept.index_of(ids[j]);
        assert(text::views(kept)[k] == other);
    }
}

impl Controller {
    /// Whether the parts fit together.
    pub open spec fn wf(self) -> bool {
        &&& self.vault.wf()
        &&& distinct(self.pending@)
        &&& all_normalized(self.pending@)
        &&& distinct_aws(self.pending_aws@)
        &&& all_profiles(self.pending_aws@)
        &&& self.audit@.len() <= AUDIT_LIMIT
        &&& text::views(self.waiting_for_unlock@).no_duplicates()
        &&& vault::is_unlocked(self.vault) ==> self.waiting_for_unlock@.len() == 0
        &&& forall|id: Seq<char>| #[trigger]
            text::views(self.waiting_for_unlock@).contains(id) ==> pending_index(
                self.pending@,
                id,
            ) is Some
    }

    pub fn new(vault_path: String) -> (r: Self)
        ensures
            r.wf(),
            r.vault.path == vault_path,
            !vault::is_unlocked(r.vault),
            r.grants.grants@.len() == 0,
            r.pending@.len() == 0,
            r.resolutions@.len() == 0,
            r.waiting_for_unlock@.len() == 0,
            r.audit@.len() == 0,
            r.pending_aws@.len() == 0,
            r.aws_resolutions@.len() == 0,
            r.aws_process_decisions@.len() == 0,
            r.aws_process_denials@.len() == 0,
            r.aws_login is Idle,
    {
        Controller {
            vault: VaultStore::new(vault_path),
            grants: GrantStore::default(),
            pending: Vec::new(),
            resolutions: Vec::new(),
            waiting_for_unlock: Vec::new(),
            audit: Vec::new(),
            pending_aws: Vec::new(),
            aws_resolutions: Vec::new(),
            aws_process_decisions: Vec::new(),
            aws_process_denials: Vec::new(),
            aws_login: AwsLoginStatus::Idle,
        }
    }

    pub(crate) fn record_audit(
        &mut self,
        action: AuditAction,
        secret: String,
        ttl_seconds: Option<u64>,
        holder: ProcessIdentity,
        now: u64,
    )
        ensures
            line_recorded(
                old(self).audit@,
                (AuditRow {
                    occurred_at: now,
                    action,
                    secret: secret@,
                    ttl_seconds,
                    process: holder,
                }),
                final(self).audit@,
            ),
            final(self).audit@.len() <= AUDIT_LIMIT,
            *final(self) == (Controller { audit: final(self).audit, ..*old(self) }),
    {
        let entry = AuditEntry {
            id: clock::new_id(),
            occurred_at: now,
            action,
            secret,
            ttl_seconds,
            process: holder,
        };
        let ghost line = row(entry);
        let ghost before = self.audit@;
        let ghost all = before.push(entry);
        self.audit.push(entry);
        let ghost mut dropped: int = 0;
        assert(all.skip(0) =~= all);
        while self.audit.len() > AUDIT_LIMIT
            invariant
                0 <= dropped <= all.len(),
                self.audit@ == all.skip(dropped),
                dropped > 0 ==> self.audit@.len() >= AUDIT_LIMIT,
                *self == (Controller { audit: self.audit, ..*old(self) }),
            decreases self.audit@.len(),
        {
            let _ = self.audit.remove(0);
            proof {
                assert(all.skip(dropped).remove(0) =~= all.skip(dropped + 1));
                dropped = dropped + 1;
            }
        }
        proof {
            let after = self.audit@;
            let older = older_lines(seq![line], after);
            assert(rows(all) =~= rows(before) + seq![line]);
            assert(rows(after) =~= newest(rows(before) + seq![line]));
            assert(after.take(older) =~= before.skip(before.len() - older));
        }
    }

    fn drop_posts(&mut self, id: &str)
        ensures
            posts(final(self).resolutions@) == posts_without(posts(old(self).resolutions@), id@),
            *final(self) == (Controller { resolutions: final(self).resolutions, ..*old(self) }),
    {
        proof {
            views_of_filtered_posts(self.resolutions@, id@);
        }
        let keep = |p: &PostedResolution| -> (b: bool)
            ensures
                b == (p.id@ != id@),
            { !text::str_eq(p.id.as_str(), id) };
        seqs::retain(&mut self.resolutions, keep, Ghost(other_post(id@)));
    }

    fn drop_waiting(&mut self, id: &str)
        ensures
            final(self).waiting_for_unlock@ == ids_without(old(self).waiting_for_unlock@, id@),
            *final(self) == (Controller {
                waiting_for_unlock: final(self).waiting_for_unlock,
                ..*old(self)
            }),
    {
        let keep = |i: &String| -> (b: bool)
            ensures
                b == (i@ != id@),
            { !text::str_eq(i.as_str(), id) };
        seqs::retain(&mut self.waiting_for_unlock, keep, Ghost(other_id(id@)));
    }

    fn post(&mut self, id: String, resolution: RequestResolution)
        ensures
            posts(final(self).resolutions@) == posts(old(self).resolutions@).push(
                (id@, answer(resolution)),
            ),
            *final(self) == (Controller { resolutions: final(self).resolutions, ..*old(self) }),
    {
        let ghost before = self.resolutions@;
        let posted = PostedResolution { id, resolution };
        let ghost shown = posted;
        self.resolutions.push(posted);
        assert(posts(self.resolutions@) =~= posts(before).push((shown.id@, answer(resolution))));
    }

    /// Fetches the answer to a request, if there is one yet.
    pub fn take_resolution(&mut self, id: &str) -> (r: Option<RequestResolution>)
        ensures
            ({
                let found = seqs::first_index(
                    old(self).resolutions@,
                    |p: PostedResolution| p.id@ == id@,
                );
                match found {
                    Some(i) => {
                        &&& r == Some(old(self).resolutions@[i].resolution)
                        &&& final(self).resolutions@ == old(self).resolutions@.remove(i)
                    },
                    None => r is None && final(self).resolutions@ == old(self).resolutions@,
                }
            }),
            *final(self) == (Controller { resolutions: final(self).resolutions, ..*old(self) }),
    {
        let test = |p: &PostedResolution| -> (b: bool)
            ensures
                b == (p.id@ == id@),
            { text::str_eq(p.id.as_str(), id) };
        let found = seqs::position(
            &self.resolutions,
            test,
            Ghost(|p: PostedResolution| p.id@ == id@),
        );
        match found {
            Some(i) => {
                let posted = self.resolutions.remove(i);
                Some(posted.resolution)
            },
            None => None,
        }
    }

    fn pending_position(&self, id: &str) -> (r: Option<usize>)
        ensures
            match r {
                Some(i) => pending_index(self.pending@, id@) == Some(i as int) && i
                    < self.pending@.len() && self.pending@[i as int].id@ == id@,
                None => pending_index(self.pending@, id@) is None,
            },
    {
        proof {
            seqs::first_index_meaning(self.pending@, has_id(id@));
        }
        let test = |p: &PendingRequest| -> (b: bool)
            ensures
                b == (p.id@ == id@),
            { text::str_eq(p.id.as_str(), id) };
        seqs::position(&self.pending, test, Ghost(has_id(id@)))
    }
}

/// The test for other requests.
pub open spec fn other_request(id: Seq<char>) -> spec_fn(PendingRequest) -> bool {
    |p: PendingRequest| p.id@ != id
}

/// A request is found exactly where one has the identifier.
proof fn found_if_present(pending: Seq<PendingRequest>, id: Seq<char>)
    ensures
        pending_index(pending, id) is Some <==> exists|i: int|
            0 <= i < pending.len() && (#[trigger] pending[i]).id@ == id,
        pending_index(pending, id) matches Some(i) ==> 0 <= i < pending.len() && pending[i].id@
            == id,
{
    seqs::first_index_meaning(pending, has_id(id));
}

proof fn distinct_after_remove(pending: Seq<PendingRequest>, i: int)
    requires
        distinct(pending),
        all_normalized(pending),
        0 <= i < pending.len(),
    ensures
        distinct(pending.remove(i)),
        all_normalized(pending.remove(i)),
        forall|id: Seq<char>|
            id != pending[i].id@ && #[trigger] pending_index(pending, id) is Some ==> pending_index(
                pending.remove(i),
                id,
            ) is Some,
{
    let after = pending.remove(i);
    assert forall|a: int, b: int| 0 <= a < b < after.len() implies (#[trigger] after[a]).id@ != (
    #[trigger] after[b]).id@ by {
        let left = if a < i {
            a
        } else {
            a + 1
        };
        let right = if b < i {
            b
        } else {
            b + 1
        };
        assert(after[a] == pending[left] && after[b] == pending[right]);
    }
    assert forall|a: int| 0 <= a < after.len() implies vault::normalized_name(
        (#[trigger] after[a]).secret@,
    ) == Ok::<Seq<char>, Seq<char>>(after[a].secret@) by {
        let left = if a < i {
            a
        } else {
            a + 1
        };
        assert(after[a] == pending[left]);
    }
    assert forall|id: Seq<char>|
        id != pending[i].id@ && #[trigger] pending_index(pending, id) is Some implies pending_index(
        after,
        id,
    ) is Some by {
        found_if_present(pending, id);
        found_if_present(after, id);
        let k = pending_index(pending, id)->Some_0;
        if k < i {
            assert(after[k] == pending[k]);
        } else {
            assert(after[k - 1] == pending[k]);
        }
    }
}

proof fn distinct_after_filter(pending: Seq<PendingRequest>, p: spec_fn(PendingRequest) -> bool)
    requires
        distinct(pending),
        all_normalized(pending),
    ensures
        distinct(pending.filter(p)),
        all_normalized(pending.filter(p)),
{
    let after = pending.filter(p);
    let at = seqs::filtered_positions(pending, p);
    assert forall|a: int, b: int| 0 <= a < b < after.len() implies (#[trigger] after[a]).id@ != (
    #[trigger] after[b]).id@ by {
        assert(at[a] < at[b]);
        assert(pending[at[a]].id@ != pending[at[b]].id@);
    }
    assert forall|a: int| 0 <= a < after.len() implies vault::normalized_name(
        (#[trigger] after[a]).secret@,
    ) == Ok::<Seq<char>, Seq<char>>(after[a].secret@) by {
        assert(after[a] == pending[at[a]]);
    }
}

proof fn distinct_after_queue(pending: Seq<PendingRequest>, request: PendingRequest)
    requires
        distinct(pending),
        all_normalized(pending),
        vault::normalized_name(request.secret@) == Ok::<Seq<char>, Seq<char>>(request.secret@),
    ensures
        distinct(queued(pending, request)),
        all_normalized(queued(pending, request)),
        pending_index(queued(pending, request), request.id@) is Some,
        forall|id: Seq<char>| #[trigger]
            pending_index(pending, id) is Some ==> pending_index(queued(pending, request), id)
                is Some,
{
    let p = |p: PendingRequest| p.id@ != request.id@;
    let kept = pending.filter(p);
    let after = queued(pending, request);
    assert(after == kept.push(request));
    distinct_after_filter(pending, p);
    let at = seqs::filtered_positions(pending, p);
    assert forall|a: int, b: int| 0 <= a < b < after.len() implies (#[trigger] after[a]).id@ != (
    #[trigger] after[b]).id@ by {
        if b == kept.len() {
            assert(kept[a] == pending[at[a]]);
        } else {
            assert(kept[a].id@ != kept[b].id@);
        }
    }
    assert(after[kept.len() as int] == request);
    found_if_present(after, request.id@);
    assert forall|id: Seq<char>| #[trigger]
        pending_index(pending, id) is Some implies pending_index(after, id) is Some by {
        found_if_present(pending, id);
        found_if_present(after, id);
        if id != request.id@ {
            let k = pending_index(pending, id)->Some_0;
            seqs::filter_keeps(pending, p, k);
            let m = choose|m: int| 0 <= m < kept.len() && #[trigger] kept[m] == pending[k];
            assert(after[m].id@ == id);
        }
    }
}

/// The lines of the record for grants that were taken away.
pub open spec fn revoked_rows(revoked: Seq<Grant>, now: u64) -> Seq<AuditRow> {
    revoked.map_values(|g: Grant| revoked_row(g.resource@, g.process, now))
}

/// The lines of the record for requests that were denied together.
pub open spec fn denied_rows(pending: Seq<PendingRequest>, now: u64) -> Seq<AuditRow> {
    pending.map_values(
        |p: PendingRequest|
            decision_row(p, ApprovalDecision::Deny, DEFAULT_GRANT_SECONDS, p.origin, now),
    )
}

/// The answers for requests that were denied together.
pub open spec fn denied_posts(pending: Seq<PendingRequest>) -> Seq<(Seq<char>, Answer)> {
    pending.map_values(|p: PendingRequest| (p.id@, Answer::Denied))
}

/// The answers for requests for AWS credentials that were denied together.
pub open spec fn denied_aws_posts(pending: Seq<PendingAwsCredentialRequest>) -> Seq<
    (Seq<char>, AwsRequestResolution),
> {
    pending.map_values(
        |p: PendingAwsCredentialRequest| (p.id@, AwsRequestResolution::Denied),
    )
}

/// Whether everything was closed: the vault is locked, every grant is taken
/// away, every request is denied, every decision and denial is forgotten.
pub open spec fn lock_outcome(before: Controller, now: u64, after: Controller) -> bool {
    let revoked = seqs::in_order(grants::live(before.grants.grants@, now));
    &&& !vault::is_unlocked(after.vault)
    &&& after.vault.key is None && after.vault.salt is None && after.vault.data is None
    &&& after.vault.path == before.vault.path
    &&& after.vault.iterations == vault::PBKDF2_ITERATIONS
    &&& after.grants.grants@.len() == 0
    &&& after.pending@.len() == 0
    &&& after.waiting_for_unlock@.len() == 0
    &&& posts(after.resolutions@) == posts(before.resolutions@) + denied_posts(before.pending@)
    &&& lines_recorded(
        before.audit@,
        revoked_rows(revoked, now) + denied_rows(before.pending@, now),
        after.audit@,
    )
    &&& after.pending_aws@.len() == 0
    &&& aws_posts(after.aws_resolutions@) == aws_posts(before.aws_resolutions@)
        + denied_aws_posts(before.pending_aws@)
    &&& after.aws_process_decisions@.len() == 0
    &&& after.aws_process_denials@.len() == 0
    &&& after.aws_login is Idle
}

impl Controller {
    /// Records a person's decision about a request.
    pub fn respond(
        &mut self,
        id: &str,
        decision: ApprovalDecision,
        ttl_seconds: Option<u64>,
        grant_process: Option<ProcessIdentity>,
    ) -> (r: Result<(), VaultError>)
        requires
            old(self).wf(),
        ensures
            final(self).wf(),
            exists|grant_id: String, now: u64|
                #[trigger] respond_outcome(
                    *old(self),
                    id@,
                    decision,
                    ttl_seconds,
                    grant_process,
                    grant_id,
                    now,
                    *final(self),
                    r,
                ),
    {
        self.respond_at(
            id,
            decision,
            ttl_seconds,
            grant_process,
            clock::new_id(),
            clock::now_millis(),
        )
    }

    pub fn respond_at(
        &mut self,
        id: &str,
        decision: ApprovalDecision,
        ttl_seconds: Option<u64>,
        grant_process: Option<ProcessIdentity>,
        grant_id: String,
        now: u64,
    ) -> (r: Result<(), VaultError>)
        requires
            old(self).wf(),
        ensures
            final(self).wf(),
            respond_outcome(
                *old(self),
                id@,
                decision,
                ttl_seconds,
                grant_process,
                grant_id,
                now,
                *final(self),
                r,
            ),
    {
        let i: usize = match self.pending_position(id) {
            Some(i) => i,
            None => {
                return Err(vault::vault_error("Request is no longer pending"));
            },
        };
        if text::contains_text(&self.waiting_for_unlock, id) && decision
            != ApprovalDecision::Deny {
            return Err(vault::vault_error("Vault is locked"));
        }
        if decision == ApprovalDecision::Temporary && !self.pending[i].verified {
            return Err(vault::vault_error("Unverified requests can only be allowed once"));
        }
        let mut holder = self.pending[i].origin.clone();
        let mut ttl: Option<u64> = None;
        if decision == ApprovalDecision::Temporary {
            holder = match validated_grant_process(
                &self.pending[i].process_tree,
                &self.pending[i].origin,
                grant_process,
            ) {
                Ok(holder) => holder,
                Err(error) => {
                    return Err(error);
                },
            };
            let seconds: u64 = match validated_grant_seconds(ttl_seconds) {
                Ok(seconds) => seconds,
                Err(error) => {
                    return Err(error);
                },
            };
            ttl = Some(seconds);
            let _ = self.grants.add_at(
                self.pending[i].secret.clone(),
                holder.clone(),
                seconds,
                grant_id,
                now,
            );
        }
        let action = match decision {
            ApprovalDecision::Deny => AuditAction::Denied,
            ApprovalDecision::Once => AuditAction::AllowedOnce,
            ApprovalDecision::Temporary => AuditAction::GrantedTemporarily,
        };
        proof {
            distinct_after_remove(self.pending@, i as int);
        }
        let request = self.pending.remove(i);
        self.drop_waiting(id);
        self.record_audit(action, request.secret, ttl, holder, now);
        let resolution = if decision == ApprovalDecision::Deny {
            RequestResolution::Denied
        } else {
            RequestResolution::Approved
        };
        self.post(request.id, resolution);
        proof {
            ids_without_meaning(old(self).waiting_for_unlock@, id@);
            waiting_stays_distinct(old(self).waiting_for_unlock@, id@);
        }
        Ok(())
    }

    /// Gives up on a request that nobody answered.
    pub fn timeout_request(&mut self, id: &str)
        requires
            old(self).wf(),
        ensures
            final(self).wf(),
            exists|now: u64| #[trigger] timeout_outcome(*old(self), id@, now, *final(self)),
    {
        self.timeout_request_at(id, clock::now_millis());
    }

    pub fn timeout_request_at(&mut self, id: &str, now: u64)
        requires
            old(self).wf(),
        ensures
            final(self).wf(),
            timeout_outcome(*old(self), id@, now, *final(self)),
    {
        self.drop_posts(id);
        let i: usize = match self.pending_position(id) {
            Some(i) => i,
            None => {
                return;
            },
        };
        proof {
            distinct_after_remove(self.pending@, i as int);
        }
        let request = self.pending.remove(i);
        self.drop_waiting(id);
        self.record_audit(AuditAction::TimedOut, request.secret, None, request.origin, now);
        proof {
            ids_without_meaning(old(self).waiting_for_unlock@, id@);
            waiting_stays_distinct(old(self).waiting_for_unlock@, id@);
        }
    }

    /// Asks for a secret on behalf of a process.
    pub fn begin_request(
        &mut self,
        secret_input: &str,
        process_tree: Vec<ProcessIdentity>,
        verified: bool,
    ) -> (r: Result<RequestOutcome, VaultError>)
        requires
            old(self).wf(),
        ensures
            final(self).wf(),
            exists|id: Seq<char>, now: u64|
                #[trigger] begin_outcome(
                    *old(self),
                    secret_input@,
                    process_tree@,
                    verified,
                    id,
                    now,
                    *final(self),
                    r,
                ),
    {
        self.begin_request_at(
            secret_input,
            process_tree,
            verified,
            clock::new_id(),
            clock::now_millis(),
        )
    }

    pub fn begin_request_at(
        &mut self,
        secret_input: &str,
        process_tree: Vec<ProcessIdentity>,
        verified: bool,
        id: String,
        now: u64,
    ) -> (r: Result<RequestOutcome, VaultError>)
        requires
            old(self).wf(),
        ensures
            final(self).wf(),
            begin_outcome(
                *old(self),
                secret_input@,
                process_tree@,
                verified,
                id@,
                now,
                *final(self),
                r,
            ),
    {
        let secret = match vault::normalize_secret_name(secret_input) {
            Ok(secret) => secret,
            Err(error) => {
                return Err(error);
            },
        };
        proof {
            vault::normalizing_names_is_stable(secret_input@);
        }
        let tree = process::omit_secretd_client_processes(&process_tree);
        if tree.len() == 0 {
            return Err(vault::vault_error("Unable to determine the requesting process"));
        }
        if !self.vault.unlocked() {
            return Ok(self.queue_request(secret, tree, verified, true, id, now));
        }
        let mut value = match self.vault.reveal_value(secret.as_str()) {
            Ok(value) => value,
            Err(error) => {
                return Err(error);
            },
        };
        if verified && self.grants.find_at(secret.as_str(), &tree, now).is_some() {
            self.record_audit(AuditAction::AutoGranted, secret, None, tree[0].clone(), now);
            return Ok(RequestOutcome::Immediate(value));
        }
        crate::crypto::wipe_text(&mut value);
        Ok(self.queue_request(secret, tree, verified, false, id, now))
    }

    fn queue_request(
        &mut self,
        secret: String,
        process_tree: Vec<ProcessIdentity>,
        verified: bool,
        waits: bool,
        id: String,
        now: u64,
    ) -> (r: RequestOutcome)
        requires
            old(self).vault.wf(),
            distinct(old(self).pending@),
            all_normalized(old(self).pending@),
            distinct_aws(old(self).pending_aws@),
            all_profiles(old(self).pending_aws@),
            old(self).audit@.len() <= AUDIT_LIMIT,
            text::views(old(self).waiting_for_unlock@).no_duplicates(),
            vault::is_unlocked(old(self).vault) ==> old(self).waiting_for_unlock@.len() == 0
                && !waits,
            forall|other: Seq<char>| #[trigger]
                text::views(old(self).waiting_for_unlock@).contains(other) ==> pending_index(
                    old(self).pending@,
                    other,
                ) is Some,
            process_tree@.len() > 0,
            vault::normalized_name(secret@) == Ok::<Seq<char>, Seq<char>>(secret@),
        ensures
            final(self).wf(),
            was_queued(
                *old(self),
                secret@,
                process_tree@,
                verified,
                waits,
                id@,
                now,
                *final(self),
                Ok::<RequestOutcome, VaultError>(r),
            ),
            final(self).grants == old(self).grants,
    {
        let request = PendingRequest {
            id: id.clone(),
            secret,
            verified,
            origin: process_tree[0].clone(),
            process_tree,
            requested_at: now,
        };
        let ghost shown = request;
        let wanted = id.as_str();
        let keep = |p: &PendingRequest| -> (b: bool)
            ensures
                b == (p.id@ != wanted@),
            { !text::str_eq(p.id.as_str(), wanted) };
        seqs::retain(
            &mut self.pending,
            keep,
            Ghost(|p: PendingRequest| p.id@ != shown.id@),
        );
        self.pending.push(request);
        self.drop_posts(wanted);
        self.drop_waiting(wanted);
        let ghost kept = self.waiting_for_unlock@;
        if waits {
            self.waiting_for_unlock.push(id.clone());
        }
        proof {
            assert(self.pending@ == queued(old(self).pending@, shown));
            assert(is_request(shown, id@, secret@, process_tree@, verified, now));
            distinct_after_queue(old(self).pending@, shown);
            ids_without_meaning(old(self).waiting_for_unlock@, id@);
            waiting_stays_distinct(old(self).waiting_for_unlock@, id@);
            if waits {
                assert(text::views(self.waiting_for_unlock@) =~= text::views(kept).push(id@));
                assert(!text::views(kept).contains(id@));
            }
            assert forall|other: Seq<char>| #[trigger]
                text::views(self.waiting_for_unlock@).contains(other) implies pending_index(
                self.pending@,
                other,
            ) is Some by {
                if other != id@ {
                    let views = text::views(self.waiting_for_unlock@);
                    let k = choose|k: int| 0 <= k < views.len() && views[k] == other;
                    assert(text::views(kept)[k] == other);
                    assert(text::views(kept).contains(other));
                }
            }
        }
        RequestOutcome::Pending { id }
    }

    /// Takes a grant away.
    pub fn revoke_grant(&mut self, id: &str)
        requires
            old(self).wf(),
        ensures
            final(self).wf(),
            exists|now: u64| #[trigger] revoke_outcome(*old(self), id@, now, *final(self)),
    {
        self.revoke_grant_at(id, clock::now_millis());
    }

    pub fn revoke_grant_at(&mut self, id: &str, now: u64)
        requires
            old(self).wf(),
        ensures
            final(self).wf(),
            revoke_outcome(*old(self), id@, now, *final(self)),
    {
        match self.grants.revoke(id) {
            None => {},
            Some(grant) => {
                self.record_audit(AuditAction::Revoked, grant.resource, None, grant.process, now);
            },
        }
    }

    /// Lets a grant last longer.
    pub fn extend_grant(&mut self, id: &str)
        requires
            old(self).wf(),
        ensures
            final(self).wf(),
            exists|now: u64, r: Option<Grant>|
                #[trigger] grants::extend_outcome(
                    old(self).grants.grants@,
                    id@,
                    now,
                    final(self).grants.grants@,
                    r,
                ),
            *final(self) == (Controller { grants: final(self).grants, ..*old(self) }),
    {
        let _ = self.grants.extend(id);
    }

    /// Looks at the requests that waited for the vault.
    fn prepare_waiting_requests(&mut self)
        requires
            old(self).vault.wf(),
            distinct(old(self).pending@),
            all_normalized(old(self).pending@),
            distinct_aws(old(self).pending_aws@),
            all_profiles(old(self).pending_aws@),
            old(self).audit@.len() <= AUDIT_LIMIT,
            text::views(old(self).waiting_for_unlock@).no_duplicates(),
        ensures
            final(self).wf(),
            waiting_prepared(*old(self), old(self).vault, *final(self)),
    {
        let ghost before = *self;
        let ghost store = self.vault;
        let mut waiting: Vec<String> = Vec::new();
        std::mem::swap(&mut waiting, &mut self.waiting_for_unlock);
        let ghost ids = text::views(waiting@);
        proof {
            kept_by_all(self.pending@, unaffected(ids.take(0), store));
            assert(posts(self.resolutions@) + failures(ids.take(0), before.pending@, store)
                =~= posts(self.resolutions@));
        }
        for k in 0..waiting.len()
            invariant
                before == *old(self),
                store == before.vault,
                store.wf(),
                ids == text::views(waiting@),
                ids == text::views(before.waiting_for_unlock@),
                ids.no_duplicates(),
                distinct(before.pending@),
                all_normalized(before.pending@),
                self.vault == store,
                self.waiting_for_unlock@.len() == 0,
                self.pending@ == before.pending@.filter(unaffected(ids.take(k as int), store)),
                posts(self.resolutions@) == posts(before.resolutions@) + failures(
                    ids.take(k as int),
                    before.pending@,
                    store,
                ),
                *self == (Controller {
                    waiting_for_unlock: self.waiting_for_unlock,
                    pending: self.pending,
                    resolutions: self.resolutions,
                    ..before
                }),
        {
            let id = &waiting[k];
            let ghost seen = ids.take(k as int);
            let ghost more = ids.take(k + 1);
            let ghost current = self.pending@;
            proof {
                assert(ids[k as int] == id@);
                assert(more.drop_last() =~= seen);
                assert(more.last() == id@);
                waiting_lookup(before.pending@, seen, store, id@);
            }
            match self.pending_position(id.as_str()) {
                None => {
                    proof {
                        assert(pending_index(before.pending@, id@) is None);
                        found_if_present(before.pending@, id@);
                        seen_more(before.pending@, seen, id@, store);
                        assert(more =~= seen.push(id@));
                    }
                },
                Some(i) => {
                    let ghost request = current[i as int];
                    match self.vault.reveal_value(self.pending[i].secret.as_str()) {
                        Ok(value) => {
                            let mut value = value;
                            crate::crypto::wipe_text(&mut value);
                            proof {
                                seen_more(before.pending@, seen, id@, store);
                                assert(more =~= seen.push(id@));
                            }
                        },
                        Err(error) => {
                            let wanted = id.as_str();
                            let keep = |p: &PendingRequest| -> (b: bool)
                                ensures
                                    b == (p.id@ != wanted@),
                                { !text::str_eq(p.id.as_str(), wanted) };
                            seqs::retain(&mut self.pending, keep, Ghost(other_request(id@)));
                            proof {
                                assert(more =~= seen.push(id@));
                                seen_failed(before.pending@, seen, id@, store);
                            }
                            self.post(id.clone(), RequestResolution::Failed(error.0));
                            proof {
                                assert(posts(before.resolutions@) + failures(
                                    seen,
                                    before.pending@,
                                    store,
                                ).push((id@, Answer::Failed(error.0@))) =~= (posts(
                                    before.resolutions@,
                                ) + failures(seen, before.pending@, store)).push(
                                    (id@, Answer::Failed(error.0@)),
                                ));
                            }
                        },
                    }
                },
            }
        }
        proof {
            assert(ids.take(waiting@.len() as int) =~= ids);
            distinct_after_filter(before.pending@, unaffected(ids, store));
        }
    }
}

/// Whether an attempt to open the vault, which left it as `store`, was followed
/// by a look at the requests that waited for it, where it succeeded.
pub open spec fn opening_followed(
    before: Controller,
    store: VaultStore,
    after: Controller,
    r: Result<(), VaultError>,
) -> bool {
    if r is Ok {
        waiting_prepared(before, store, after)
    } else {
        after == (Controller { vault: store, ..before })
    }
}

/// Whether a list of accounts, secrets and so on shows the state at `now`.
pub open spec fn is_snapshot(
    shown: AppSnapshot,
    before: Controller,
    present: Result<bool, VaultError>,
    now: u64,
    now_seconds: u64,
) -> bool {
    &&& shown.vault_exists == match present {
        Ok(present) => present,
        Err(_) => false,
    }
    &&& shown.unlocked == vault::is_unlocked(before.vault)
    &&& if vault::is_unlocked(before.vault) {
        vault::is_listing(shown.secrets@, before.vault.data->Some_0.secrets@)
    } else {
        shown.secrets@.len() == 0
    }
    &&& same_requests(shown.pending@, seqs::in_order(before.pending@))
    &&& same_aws_requests(shown.pending_aws@, seqs::in_order(before.pending_aws@))
    &&& shown.grants@ == seqs::in_order(grants::live(before.grants.grants@, now))
    &&& shown.aws_grants@ == live_decisions(before.aws_process_decisions@, now)
    &&& same_denials(shown.aws_denials@, live_denials(before.aws_process_denials@, now))
    &&& shown.audit@ == before.audit@.reverse()
    &&& shown.max_grant_seconds == MAX_GRANT_SECONDS
    &&& match (shown.aws, if vault::is_unlocked(before.vault) {
        before.vault.data->Some_0.aws
    } else {
        None
    }) {
        (Some(summary), Some(settings)) => aws::summarizes(summary, settings, now_seconds),
        (None, None) => true,
        _ => false,
    }
    &&& shown.aws_login == before.aws_login
}

/// Whether taking a snapshot at `now` only forgot what had expired.
pub open spec fn expired_forgotten(before: Controller, now: u64, after: Controller) -> bool {
    &&& after.grants.grants@ == grants::live(before.grants.grants@, now)
    &&& after.aws_process_decisions@ == live_decisions(before.aws_process_decisions@, now)
    &&& after.aws_process_denials@ == live_denials(before.aws_process_denials@, now)
    &&& after == (Controller {
        grants: after.grants,
        aws_process_decisions: after.aws_process_decisions,
        aws_process_denials: after.aws_process_denials,
        ..before
    })
}

/// Sorting copies is copying what is sorted.
proof fn sorting_copies(copies: Seq<PendingRequest>, originals: Seq<PendingRequest>)
    requires
        same_requests(copies, originals),
    ensures
        same_requests(seqs::in_order(copies), seqs::in_order(originals)),
    decreases copies.len(),
{
    if copies.len() > 0 {
        assert forall|i: int| 0 <= i < copies.skip(1).len() implies same_request(
            #[trigger] copies.skip(1)[i],
            originals.skip(1)[i],
        ) by {
            assert(same_request(copies[i + 1], originals[i + 1]));
        }
        sorting_copies(copies.skip(1), originals.skip(1));
        assert(same_request(copies[0], originals[0]));
        placing_copies(
            seqs::in_order(copies.skip(1)),
            copies[0],
            seqs::in_order(originals.skip(1)),
            originals[0],
        );
    }
}

proof fn placing_copies(
    copies: Seq<PendingRequest>,
    copy: PendingRequest,
    originals: Seq<PendingRequest>,
    original: PendingRequest,
)
    requires
        same_requests(copies, originals),
        same_request(copy, original),
    ensures
        same_requests(seqs::placed(copies, copy), seqs::placed(originals, original)),
    decreases copies.len(),
{
    if copies.len() > 0 {
        assert(same_request(copies[0], originals[0]));
        if copies[0].before(&copy) {
            assert forall|i: int| 0 <= i < copies.skip(1).len() implies same_request(
                #[trigger] copies.skip(1)[i],
                originals.skip(1)[i],
            ) by {
                assert(same_request(copies[i + 1], originals[i + 1]));
            }
            placing_copies(copies.skip(1), copy, originals.skip(1), original);
            let left = seqs::placed(copies.skip(1), copy);
            let right = seqs::placed(originals.skip(1), original);
            assert(same_requests(seq![copies[0]] + left, seq![originals[0]] + right));
        } else {
            assert(same_requests(seq![copy] + copies, seq![original] + originals));
        }
    }
}

proof fn sorting_aws_copies(
    copies: Seq<PendingAwsCredentialRequest>,
    originals: Seq<PendingAwsCredentialRequest>,
)
    requires
        same_aws_requests(copies, originals),
    ensures
        same_aws_requests(seqs::in_order(copies), seqs::in_order(originals)),
    decreases copies.len(),
{
    if copies.len() > 0 {
        assert forall|i: int| 0 <= i < copies.skip(1).len() implies same_aws_request(
            #[trigger] copies.skip(1)[i],
            originals.skip(1)[i],
        ) by {
            assert(same_aws_request(copies[i + 1], originals[i + 1]));
        }
        sorting_aws_copies(copies.skip(1), originals.skip(1));
        assert(same_aws_request(copies[0], originals[0]));
        placing_aws_copies(
            seqs::in_order(copies.skip(1)),
            copies[0],
            seqs::in_order(originals.skip(1)),
            originals[0],
        );
    }
}

proof fn placing_aws_copies(
    copies: Seq<PendingAwsCredentialRequest>,
    copy: PendingAwsCredentialRequest,
    originals: Seq<PendingAwsCredentialRequest>,
    original: PendingAwsCredentialRequest,
)
    requires
        same_aws_requests(copies, originals),
        same_aws_request(copy, original),
    ensures
        same_aws_requests(seqs::placed(copies, copy), seqs::placed(originals, original)),
    decreases copies.len(),
{
    if copies.len() > 0 {
        assert(same_aws_request(copies[0], originals[0]));
        if copies[0].before(&copy) {
            assert forall|i: int| 0 <= i < copies.skip(1).len() implies same_aws_request(
                #[trigger] copies.skip(1)[i],
                originals.skip(1)[i],
            ) by {
                assert(same_aws_request(copies[i + 1], originals[i + 1]));
            }
            placing_aws_copies(copies.skip(1), copy, originals.skip(1), original);
            let left = seqs::placed(copies.skip(1), copy);
            let right = seqs::placed(originals.skip(1), original);
            assert(same_aws_requests(seq![copies[0]] + left, seq![originals[0]] + right));
        } else {
            assert(same_aws_requests(seq![copy] + copies, seq![original] + originals));
        }
    }
}

fn copied_requests(requests: &Vec<PendingRequest>) -> (r: Vec<PendingRequest>)
    ensures
        same_requests(r@, requests@),
{
    let mut r: Vec<PendingRequest> = Vec::new();
    for i in 0..requests.len()
        invariant
            r@.len() == i,
            forall|j: int| 0 <= j < i ==> same_request(#[trigger] r@[j], requests@[j]),
    {
        r.push(requests[i].clone());
    }
    r
}

fn copied_aws_requests(requests: &Vec<PendingAwsCredentialRequest>) -> (r: Vec<
    PendingAwsCredentialRequest,
>)
    ensures
        same_aws_requests(r@, requests@),
{
    let mut r: Vec<PendingAwsCredentialRequest> = Vec::new();
    for i in 0..requests.len()
        invariant
            r@.len() == i,
            forall|j: int| 0 <= j < i ==> same_aws_request(#[trigger] r@[j], requests@[j]),
    {
        r.push(requests[i].clone());
    }
    r
}

fn copied_denials(denials: &Vec<AwsCredentialDenial>) -> (r: Vec<AwsCredentialDenial>)
    ensures
        same_denials(r@, denials@),
{
    let mut r: Vec<AwsCredentialDenial> = Vec::new();
    for i in 0..denials.len()
        invariant
            r@.len() == i,
            forall|j: int| 0 <= j < i ==> same_denial(#[trigger] r@[j], denials@[j]),
    {
        r.push(denials[i].clone());
    }
    r
}

fn newest_first(audit: &Vec<AuditEntry>) -> (r: Vec<AuditEntry>)
    ensures
        r@ == audit@.reverse(),
{
    let mut r: Vec<AuditEntry> = Vec::new();
    let mut n: usize = audit.len();
    while n > 0
        invariant
            n <= audit@.len(),
            r@.len() == audit@.len() - n,
            forall|j: int| 0 <= j < r@.len() ==> r@[j] == audit@[audit@.len() - 1 - j],
        decreases n,
    {
        n = n - 1;
        r.push(audit[n].clone());
    }
    assert(r@ =~= audit@.reverse());
    r
}

/// The outcome of saving a secret under a name that it may not have had before.
pub open spec fn save_outcome<
    E: Fn(&VaultPlaintext) -> Result<Vec<u8>, String>,
    W: Fn(&VaultFile) -> Result<(), VaultError>,
>(
    before: VaultStore,
    name: Seq<char>,
    value: Seq<char>,
    previous_name: Option<&str>,
    now: String,
    rename_nonce: Result<Vec<u8>, VaultError>,
    nonce: Result<Vec<u8>, VaultError>,
    encode: E,
    write: W,
    after: VaultStore,
    r: Result<(), VaultError>,
) -> bool {
    let direct = vault::save_secret_outcome(
        before,
        name,
        value,
        None,
        now@,
        nonce,
        encode,
        write,
        after,
        r,
    );
    match previous_name {
        None => direct,
        Some(previous) => match (
            vault::normalized_name(previous@),
            vault::normalized_name(name),
        ) {
            (Err(error), _) => vault::refuses(r, error) && after == before,
            (Ok(_), Err(error)) => vault::refuses(r, error) && after == before,
            (Ok(from), Ok(to)) => if from == to {
                direct
            } else {
                exists|renamed: VaultStore, done: Result<(), VaultError>|
                    {
                        &&& #[trigger] vault::rename_outcome(
                            before,
                            previous@,
                            name,
                            now,
                            rename_nonce,
                            encode,
                            write,
                            renamed,
                            done,
                        )
                        &&& if done is Err {
                            r == done && after == renamed
                        } else {
                            vault::save_secret_outcome(
                                renamed,
                                name,
                                value,
                                None,
                                now@,
                                nonce,
                                encode,
                                write,
                                after,
                                r,
                            )
                        }
                    }
            },
        },
    }
}

/// The test for grants of other resources.
pub open spec fn other_resource(resource: Seq<char>) -> spec_fn(Grant) -> bool {
    |g: Grant| g.resource@ != resource
}

/// The test for grants of a resource.
pub open spec fn of_resource(resource: Seq<char>) -> spec_fn(Grant) -> bool {
    |g: Grant| g.resource@ == resource
}

/// The outcome of deleting a secret: once it is deleted its grants are taken
/// away, and the record tells of them.
pub open spec fn delete_outcome<
    E: Fn(&VaultPlaintext) -> Result<Vec<u8>, String>,
    W: Fn(&VaultFile) -> Result<(), VaultError>,
>(
    before: Controller,
    name: Seq<char>,
    nonce: Result<Vec<u8>, VaultError>,
    now: u64,
    encode: E,
    write: W,
    after: Controller,
    r: Result<(), VaultError>,
) -> bool {
    &&& vault::delete_outcome(before.vault, name, nonce, encode, write, after.vault, r)
    &&& if r is Err {
        after == (Controller { vault: after.vault, ..before })
    } else {
        let live = grants::live(before.grants.grants@, now);
        let resource = vault::normalized_name(name)->Ok_0;
        &&& after.grants.grants@ == live.filter(other_resource(resource))
        &&& lines_recorded(
            before.audit@,
            revoked_rows(seqs::in_order(live).filter(of_resource(resource)), now),
            after.audit@,
        )
        &&& after == (Controller {
            vault: after.vault,
            grants: after.grants,
            audit: after.audit,
            ..before
        })
    }
}

impl Controller {
    /// Records that grants were taken away.
    fn record_revoked(&mut self, revoked: Vec<Grant>, now: u64)
        requires
            old(self).audit@.len() <= AUDIT_LIMIT,
        ensures
            lines_recorded(old(self).audit@, revoked_rows(revoked@, now), final(self).audit@),
            final(self).audit@.len() <= AUDIT_LIMIT,
            *final(self) == (Controller { audit: final(self).audit, ..*old(self) }),
    {
        let ghost before = self.audit@;
        let ghost lines = revoked_rows(revoked@, now);
        proof {
            nothing_recorded(before);
            assert(lines.take(0) =~= Seq::empty());
        }
        for k in 0..revoked.len()
            invariant
                lines == revoked_rows(revoked@, now),
                lines_recorded(before, lines.take(k as int), self.audit@),
                self.audit@.len() <= AUDIT_LIMIT,
                *self == (Controller { audit: self.audit, ..*old(self) }),
        {
            let grant = &revoked[k];
            let ghost middle = self.audit@;
            self.record_audit(
                AuditAction::Revoked,
                grant.resource.clone(),
                None,
                grant.process.clone(),
                now,
            );
            proof {
                let line = lines[k as int];
                recorded_in_steps(before, lines.take(k as int), middle, seq![line], self.audit@);
                assert(lines.take(k as int) + seq![line] =~= lines.take(k + 1));
            }
        }
        assert(lines.take(revoked@.len() as int) =~= lines);
    }

    /// Everything that is shown, from whether there is a vault file.
    pub fn snapshot(&mut self, present: Result<bool, VaultError>) -> (r: AppSnapshot)
        requires
            old(self).wf(),
        ensures
            final(self).wf(),
            exists|now: u64, now_seconds: u64|
                #[trigger] is_snapshot(r, *old(self), present, now, now_seconds)
                    && expired_forgotten(*old(self), now, *final(self)),
    {
        self.snapshot_at(present, clock::now_millis(), clock::now_seconds())
    }

    pub fn snapshot_at(
        &mut self,
        present: Result<bool, VaultError>,
        now: u64,
        now_seconds: u64,
    ) -> (r: AppSnapshot)
        requires
            old(self).wf(),
        ensures
            final(self).wf(),
            is_snapshot(r, *old(self), present, now, now_seconds),
            expired_forgotten(*old(self), now, *final(self)),
    {
        let keep = |d: &AwsCredentialGrant| -> (b: bool)
            ensures
                b == (d.expires_at > now),
            { d.expires_at > now };
        seqs::retain(
            &mut self.aws_process_decisions,
            keep,
            Ghost(|d: AwsCredentialGrant| d.expires_at > now),
        );
        let keep = |d: &AwsCredentialDenial| -> (b: bool)
            ensures
                b == (d.expires_at > now),
            { d.expires_at > now };
        seqs::retain(
            &mut self.aws_process_denials,
            keep,
            Ghost(|d: AwsCredentialDenial| d.expires_at > now),
        );
        let vault_exists = match present {
            Ok(present) => present,
            Err(_) => false,
        };
        let unlocked = self.vault.unlocked();
        let secrets = match self.vault.list() {
            Ok(secrets) => secrets,
            Err(_) => Vec::new(),
        };
        let pending = copied_requests(&self.pending);
        let pending_aws = copied_aws_requests(&self.pending_aws);
        proof {
            sorting_copies(pending@, self.pending@);
            sorting_aws_copies(pending_aws@, self.pending_aws@);
        }
        let aws = match &self.vault.data {
            Some(data) => if unlocked {
                match &data.aws {
                    Some(settings) => Some(settings.summary_at(now_seconds)),
                    None => None,
                }
            } else {
                None
            },
            None => None,
        };
        let aws_grants = self.aws_process_decisions.clone();
        assert(aws_grants@ =~= self.aws_process_decisions@);
        AppSnapshot {
            vault_exists,
            unlocked,
            secrets,
            pending: seqs::sort(pending),
            pending_aws: seqs::sort(pending_aws),
            grants: self.grants.list_at(now),
            aws_grants,
            aws_denials: copied_denials(&self.aws_process_denials),
            audit: newest_first(&self.audit),
            max_grant_seconds: MAX_GRANT_SECONDS,
            aws,
            aws_login: self.aws_login.clone(),
        }
    }

    /// Makes a new vault, unless there is one.
    pub fn create_vault<
        E: Fn(&VaultPlaintext) -> Result<Vec<u8>, String>,
        W: Fn(&VaultFile) -> Result<(), VaultError>,
    >(
        &mut self,
        password: &str,
        present: Result<bool, VaultError>,
        encode: &E,
        write: &W,
    ) -> (r: Result<(), VaultError>)
        requires
            old(self).wf(),
            forall|d: &VaultPlaintext| call_requires(*encode, (d,)),
            forall|f: &VaultFile| call_requires(*write, (f,)),
        ensures
            final(self).wf(),
            exists|salt: Result<Vec<u8>, VaultError>, nonce: Result<Vec<u8>, VaultError>|
                vault::is_salt(salt) && vault::is_nonce(nonce) && #[trigger] vault::create_outcome(
                    old(self).vault,
                    password@,
                    present,
                    salt,
                    nonce,
                    *encode,
                    *write,
                    final(self).vault,
                    r,
                ),
            opening_followed(*old(self), final(self).vault, *final(self), r),
    {
        let r = self.vault.create(password, present, encode, write);
        if r.is_ok() {
            self.prepare_waiting_requests();
        }
        r
    }

    /// Opens the vault.
    pub fn unlock<P: Fn(&Vec<u8>) -> Option<VaultPlaintext>>(
        &mut self,
        password: &str,
        file: Result<VaultFile, VaultError>,
        parse: &P,
    ) -> (r: Result<(), VaultError>)
        requires
            old(self).wf(),
            forall|b: &Vec<u8>| call_requires(*parse, (b,)),
        ensures
            final(self).wf(),
            vault::unlock_outcome(
                old(self).vault,
                password@,
                file,
                *parse,
                final(self).vault,
                r,
            ),
            opening_followed(*old(self), final(self).vault, *final(self), r),
    {
        let r = self.vault.unlock(password, file, parse);
        if r.is_ok() {
            self.prepare_waiting_requests();
        }
        r
    }

    /// Closes everything.
    pub fn lock(&mut self)
        requires
            old(self).wf(),
        ensures
            final(self).wf(),
            exists|now: u64| #[trigger] lock_outcome(*old(self), now, *final(self)),
    {
        self.lock_at(clock::now_millis());
    }

    pub fn lock_at(&mut self, now: u64)
        requires
            old(self).wf(),
        ensures
            final(self).wf(),
            lock_outcome(*old(self), now, *final(self)),
    {
        self.vault.lock();
        let revoked = self.grants.list_at(now);
        let ghost gone = revoked@;
        self.grants.grants.clear();
        self.record_revoked(revoked, now);
        let ghost start = revoked_rows(gone, now);
        let mut pending: Vec<PendingRequest> = Vec::new();
        std::mem::swap(&mut pending, &mut self.pending);
        let ghost lines = denied_rows(pending@, now);
        let ghost answers = denied_posts(pending@);
        let ghost first = posts(self.resolutions@);
        let ghost before = *self;
        proof {
            assert(start + lines.take(0) =~= start);
            assert(first + answers.take(0) =~= first);
        }
        for k in 0..pending.len()
            invariant
                lines == denied_rows(pending@, now),
                answers == denied_posts(pending@),
                lines_recorded(old(self).audit@, start + lines.take(k as int), self.audit@),
                self.audit@.len() <= AUDIT_LIMIT,
                posts(self.resolutions@) == first + answers.take(k as int),
                *self == (Controller {
                    audit: self.audit,
                    resolutions: self.resolutions,
                    ..before
                }),
        {
            let request = &pending[k];
            let ghost middle = self.audit@;
            proof {
                assert((first + answers.take(k as int)).push(answers[k as int]) =~= first
                    + answers.take(k + 1));
            }
            self.record_audit(
                AuditAction::Denied,
                request.secret.clone(),
                None,
                request.origin.clone(),
                now,
            );
            proof {
                let line = lines[k as int];
                let so_far = start + lines.take(k as int);
                recorded_in_steps(old(self).audit@, so_far, middle, seq![line], self.audit@);
                assert(so_far + seq![line] =~= start + lines.take(k + 1));
            }
            self.post(request.id.clone(), RequestResolution::Denied);
        }
        assert(lines.take(pending@.len() as int) =~= lines);
        assert(answers.take(pending@.len() as int) =~= answers);
        self.waiting_for_unlock.clear();
        let mut pending_aws: Vec<PendingAwsCredentialRequest> = Vec::new();
        std::mem::swap(&mut pending_aws, &mut self.pending_aws);
        let ghost aws_answers = denied_aws_posts(pending_aws@);
        let ghost aws_first = aws_posts(self.aws_resolutions@);
        let ghost before = *self;
        assert(aws_first + aws_answers.take(0) =~= aws_first);
        for k in 0..pending_aws.len()
            invariant
                aws_answers == denied_aws_posts(pending_aws@),
                aws_posts(self.aws_resolutions@) == aws_first + aws_answers.take(k as int),
                *self == (Controller { aws_resolutions: self.aws_resolutions, ..before }),
        {
            assert((aws_first + aws_answers.take(k as int)).push(aws_answers[k as int])
                =~= aws_first + aws_answers.take(k + 1));
            self.post_aws(pending_aws[k].id.clone(), AwsRequestResolution::Denied);
        }
        assert(aws_answers.take(pending_aws@.len() as int) =~= aws_answers);
        self.aws_process_decisions.clear();
        self.aws_process_denials.clear();
        self.aws_login = AwsLoginStatus::Idle;
    }

    pub(crate) fn post_aws(&mut self, id: String, resolution: AwsRequestResolution)
        ensures
            aws_posts(final(self).aws_resolutions@) == aws_posts(old(self).aws_resolutions@).push(
                (id@, resolution),
            ),
            *final(self) == (Controller {
                aws_resolutions: final(self).aws_resolutions,
                ..*old(self)
            }),
    {
        let ghost before = self.aws_resolutions@;
        let posted = PostedAwsResolution { id, resolution };
        let ghost shown = posted;
        self.aws_resolutions.push(posted);
        assert(aws_posts(self.aws_resolutions@) =~= aws_posts(before).push((shown.id@, resolution)));
    }

    /// Keeps a secret, under another name than before where `previous_name`
    /// differs.
    pub fn save_secret<
        E: Fn(&VaultPlaintext) -> Result<Vec<u8>, String>,
        W: Fn(&VaultFile) -> Result<(), VaultError>,
    >(
        &mut self,
        name: &str,
        value: &str,
        previous_name: Option<&str>,
        encode: &E,
        write: &W,
    ) -> (r: Result<(), VaultError>)
        requires
            old(self).wf(),
            forall|d: &VaultPlaintext| call_requires(*encode, (d,)),
            forall|f: &VaultFile| call_requires(*write, (f,)),
        ensures
            final(self).wf(),
            exists|
                now: String,
                rename_nonce: Result<Vec<u8>, VaultError>,
                nonce: Result<Vec<u8>, VaultError>,
            |
                vault::is_nonce(rename_nonce) && vault::is_nonce(nonce)
                    && #[trigger] self::save_outcome(
                    old(self).vault,
                    name@,
                    value@,
                    previous_name,
                    now,
                    rename_nonce,
                    nonce,
                    *encode,
                    *write,
                    final(self).vault,
                    r,
                ),
            *final(self) == (Controller { vault: final(self).vault, ..*old(self) }),
    {
        self.save_secret_at(
            name,
            value,
            previous_name,
            clock::utc_text(),
            vault::draw_nonce(),
            vault::draw_nonce(),
            encode,
            write,
        )
    }

    pub fn save_secret_at<
        E: Fn(&VaultPlaintext) -> Result<Vec<u8>, String>,
        W: Fn(&VaultFile) -> Result<(), VaultError>,
    >(
        &mut self,
        name: &str,
        value: &str,
        previous_name: Option<&str>,
        now: String,
        rename_nonce: Result<Vec<u8>, VaultError>,
        nonce: Result<Vec<u8>, VaultError>,
        encode: &E,
        write: &W,
    ) -> (r: Result<(), VaultError>)
        requires
            old(self).wf(),
            vault::is_nonce(rename_nonce),
            vault::is_nonce(nonce),
            forall|d: &VaultPlaintext| call_requires(*encode, (d,)),
            forall|f: &VaultFile| call_requires(*write, (f,)),
        ensures
            final(self).wf(),
            self::save_outcome(
                old(self).vault,
                name@,
                value@,
                previous_name,
                now,
                rename_nonce,
                nonce,
                *encode,
                *write,
                final(self).vault,
                r,
            ),
            *final(self) == (Controller { vault: final(self).vault, ..*old(self) }),
    {
        match previous_name {
            Some(previous) => {
                let from = match vault::normalize_secret_name(previous) {
                    Ok(from) => from,
                    Err(error) => {
                        return Err(error);
                    },
                };
                let to = match vault::normalize_secret_name(name) {
                    Ok(to) => to,
                    Err(error) => {
                        return Err(error);
                    },
                };
                if from != to {
                    let done = self.vault.rename_at(
                        previous,
                        name,
                        now.clone(),
                        rename_nonce,
                        encode,
                        write,
                    );
                    if done.is_err() {
                        return done;
                    }
                }
            },
            None => {},
        }
        self.vault.save_secret_at(name, value, None, now, nonce, encode, write)
    }

    pub fn reveal_secret(&self, name: &str) -> (r: Result<String, VaultError>)
        requires
            self.wf(),
        ensures
            match vault::revealed(self.vault, name@) {
                Ok(entry) => r == Ok::<String, VaultError>(entry.value),
                Err(error) => vault::refuses(r, error),
            },
    {
        self.vault.reveal_value(name)
    }

    /// The value of a secret for a request that was approved.
    pub fn release_after_approval(&self, secret: &str) -> (r: Result<String, VaultError>)
        requires
            self.wf(),
        ensures
            match vault::revealed(self.vault, secret@) {
                Ok(entry) => r == Ok::<String, VaultError>(entry.value),
                Err(error) => vault::refuses(r, error),
            },
    {
        self.vault.reveal_value(secret)
    }

    /// Deletes a secret and takes its grants away.
    pub fn delete_secret<
        E: Fn(&VaultPlaintext) -> Result<Vec<u8>, String>,
        W: Fn(&VaultFile) -> Result<(), VaultError>,
    >(&mut self, name: &str, encode: &E, write: &W) -> (r: Result<(), VaultError>)
        requires
            old(self).wf(),
            forall|d: &VaultPlaintext| call_requires(*encode, (d,)),
            forall|f: &VaultFile| call_requires(*write, (f,)),
        ensures
            final(self).wf(),
            exists|nonce: Result<Vec<u8>, VaultError>, now: u64|
                vault::is_nonce(nonce) && #[trigger] self::delete_outcome(
                    *old(self),
                    name@,
                    nonce,
                    now,
                    *encode,
                    *write,
                    *final(self),
                    r,
                ),
    {
        self.delete_secret_at(name, vault::draw_nonce(), clock::now_millis(), encode, write)
    }

    pub fn delete_secret_at<
        E: Fn(&VaultPlaintext) -> Result<Vec<u8>, String>,
        W: Fn(&VaultFile) -> Result<(), VaultError>,
    >(
        &mut self,
        name: &str,
        nonce: Result<Vec<u8>, VaultError>,
        now: u64,
        encode: &E,
        write: &W,
    ) -> (r: Result<(), VaultError>)
        requires
            old(self).wf(),
            vault::is_nonce(nonce),
            forall|d: &VaultPlaintext| call_requires(*encode, (d,)),
            forall|f: &VaultFile| call_requires(*write, (f,)),
        ensures
            final(self).wf(),
            self::delete_outcome(
                *old(self),
                name@,
                nonce,
                now,
                *encode,
                *write,
                *final(self),
                r,
            ),
    {
        let normalized = match vault::normalize_secret_name(name) {
            Ok(normalized) => normalized,
            Err(error) => {
                return Err(error);
            },
        };
        proof {
            vault::normalizing_names_is_stable(name@);
        }
        let r = self.vault.delete_at(normalized.as_str(), nonce, encode, write);
        if r.is_err() {
            return r;
        }
        let mut revoked = self.grants.list_at(now);
        let resource = normalized.as_str();
        let test = |g: &Grant| -> (b: bool)
            ensures
                b == (g.resource@ == resource@),
            { text::str_eq(g.resource.as_str(), resource) };
        seqs::retain(&mut revoked, test, Ghost(of_resource(normalized@)));
        let keep = |g: &Grant| -> (b: bool)
            ensures
                b == (g.resource@ != resource@),
            { !text::str_eq(g.resource.as_str(), resource) };
        seqs::retain(&mut self.grants.grants, keep, Ghost(other_resource(normalized@)));
        self.record_revoked(revoked, now);
        r
    }

    /// Puts the vault under another password.
    pub fn change_password<
        E: Fn(&VaultPlaintext) -> Result<Vec<u8>, String>,
        W: Fn(&VaultFile) -> Result<(), VaultError>,
    >(&mut self, password: &str, encode: &E, write: &W) -> (r: Result<(), VaultError>)
        requires
            old(self).wf(),
            forall|d: &VaultPlaintext| call_requires(*encode, (d,)),
            forall|f: &VaultFile| call_requires(*write, (f,)),
        ensures
            final(self).wf(),
            exists|salt: Result<Vec<u8>, VaultError>, nonce: Result<Vec<u8>, VaultError>|
                vault::is_salt(salt) && vault::is_nonce(nonce)
                    && #[trigger] vault::change_password_outcome(
                    old(self).vault,
                    password@,
                    salt,
                    nonce,
                    *encode,
                    *write,
                    final(self).vault,
                    r,
                ),
            *final(self) == (Controller { vault: final(self).vault, ..*old(self) }),
    {
        self.vault.change_password(password, encode, write)
    }
}

/// The test for requests that `ids`, waiting for the vault, do not make fail.
pub open spec fn unaffected(ids: Seq<Seq<char>>, store: VaultStore) -> spec_fn(
    PendingRequest,
) -> bool {
    |p: PendingRequest| !(ids.contains(p.id@) && vault::revealed(store, p.secret@) is Err)
}

proof fn kept_by_all<T>(s: Seq<T>, p: spec_fn(T) -> bool)
    requires
        forall|i: int| 0 <= i < s.len() ==> p(#[trigger] s[i]),
    ensures
        s.filter(p) == s,
    decreases s.len(),
{
    reveal(Seq::filter);
    if s.len() > 0 {
        assert forall|i: int| 0 <= i < s.drop_last().len() implies p(
            #[trigger] s.drop_last()[i],
        ) by {
            assert(s.drop_last()[i] == s[i]);
        }
        kept_by_all(s.drop_last(), p);
        assert(p(s[s.len() - 1]));
        assert(s.drop_last().push(s.last()) =~= s);
    }
}

/// A request whose turn has not come is found as it was.
proof fn waiting_lookup(
    pending: Seq<PendingRequest>,
    seen: Seq<Seq<char>>,
    store: VaultStore,
    id: Seq<char>,
)
    requires
        distinct(pending),
        !seen.contains(id),
    ensures
        ({
            let current = pending.filter(unaffected(seen, store));
            match pending_index(current, id) {
                Some(j) => pending_index(pending, id) matches Some(i) && current[j] == pending[i],
                None => pending_index(pending, id) is None,
            }
        }),
{
    let p = unaffected(seen, store);
    let current = pending.filter(p);
    let at = seqs::filtered_positions(pending, p);
    found_if_present(pending, id);
    found_if_present(current, id);
    if pending_index(pending, id) is Some {
        let i = pending_index(pending, id)->Some_0;
        seqs::filter_keeps(pending, p, i);
        let k = choose|k: int| 0 <= k < current.len() && #[trigger] current[k] == pending[i];
        assert(current[k].id@ == id);
        let j = pending_index(current, id)->Some_0;
        assert(pending[at[j]].id@ == pending[i].id@);
        assert(at[j] == i);
    } else if pending_index(current, id) is Some {
        let j = pending_index(current, id)->Some_0;
        assert(pending[at[j]].id@ == id);
    }
}

/// A turn that makes no request fail changes nothing.
proof fn seen_more(
    pending: Seq<PendingRequest>,
    seen: Seq<Seq<char>>,
    id: Seq<char>,
    store: VaultStore,
)
    requires
        distinct(pending),
        failure(id, pending, store) is None,
    ensures
        pending.filter(unaffected(seen.push(id), store)) == pending.filter(
            unaffected(seen, store),
        ),
{
    found_if_present(pending, id);
    assert forall|i: int| 0 <= i < pending.len() implies unaffected(seen.push(id), store)(
        #[trigger] pending[i],
    ) == unaffected(seen, store)(pending[i]) by {
        let x = pending[i].id@;
        contains_after_push(seen, id, x);
        if x == id {
            let k = pending_index(pending, id)->Some_0;
            assert(pending[k].id@ == pending[i].id@);
            assert(k == i);
        }
    }
    seqs::filters_agree(pending, unaffected(seen.push(id), store), unaffected(seen, store));
}

/// A turn that makes a request fail takes it away.
proof fn seen_failed(
    pending: Seq<PendingRequest>,
    seen: Seq<Seq<char>>,
    id: Seq<char>,
    store: VaultStore,
)
    requires
        distinct(pending),
        failure(id, pending, store) is Some,
    ensures
        pending.filter(unaffected(seen, store)).filter(other_request(id)) == pending.filter(
            unaffected(seen.push(id), store),
        ),
{
    found_if_present(pending, id);
    assert forall|i: int| 0 <= i < pending.len() implies unaffected(seen.push(id), store)(
        #[trigger] pending[i],
    ) == (unaffected(seen, store)(pending[i]) && other_request(id)(pending[i])) by {
        let x = pending[i].id@;
        contains_after_push(seen, id, x);
        if x == id {
            let k = pending_index(pending, id)->Some_0;
            assert(pending[k].id@ == pending[i].id@);
            assert(k == i);
        }
    }
    seqs::filter_twice(
        pending,
        unaffected(seen, store),
        other_request(id),
        unaffected(seen.push(id), store),
    );
}

proof fn contains_after_push<T>(s: Seq<T>, x: T, y: T)
    ensures
        s.push(x).contains(y) == (s.contains(y) || x == y),
{
    if s.contains(y) {
        let i = s.index_of(y);
        assert(s.push(x)[i] == y);
    }
    if x == y {
        assert(s.push(x)[s.len() as int] == y);
    }
    if s.push(x).contains(y) && x != y {
        let i = s.push(x).index_of(y);
        assert(s[i] == y);
    }
}

proof fn waiting_stays_distinct(ids: Seq<String>, id: Seq<char>)
    requires
        text::views(ids).no_duplicates(),
    ensures
        text::views(ids_without(ids, id)).no_duplicates(),
{
    let kept = ids_without(ids, id);
    let at = seqs::filtered_positions(ids, other_id(id));
    assert forall|i: int, j: int|
        0 <= i < text::views(kept).len() && 0 <= j < text::views(kept).len() && i
            != j implies text::views(kept)[i] != text::views(kept)[j] by {
        assert(at[i] != at[j]) by {
            if i < j {
                assert(at[i] < at[j]);
            } else {
                assert(at[j] < at[i]);
            }
        }
        assert(text::views(ids)[at[i]] == kept[i]@);
        assert(text::views(ids)[at[j]] == kept[j]@);
    }
}

/// The outcome of taking a grant away: the record tells of it.
pub open spec fn revoke_outcome(
    before: Controller,
    id: Seq<char>,
    now: u64,
    after: Controller,
) -> bool {
    match grants::grant_index(before.grants.grants@, id) {
        None => after.grants.grants@ == before.grants.grants@ && after == (Controller {
            grants: after.grants,
            ..before
        }),
        Some(i) => {
            let grant = before.grants.grants@[i];
            &&& after.grants.grants@ == before.grants.grants@.remove(i)
            &&& line_recorded(
                before.audit@,
                revoked_row(grant.resource@, grant.process, now),
                after.audit@,
            )
            &&& after == (Controller { grants: after.grants, audit: after.audit, ..before })
        },
    }
}

} // verus!
