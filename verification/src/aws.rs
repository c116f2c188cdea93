//! The AWS SSO settings that the vault keeps, and the rules they obey.

use vstd::prelude::*;

use crate::clock;
pub use crate::clock::now_seconds;
use crate::crypto;
use crate::seqs;
use crate::text;

verus! {

/// The message by which an expired session is recognized.
pub const AWS_SESSION_EXPIRED: &'static str = "AWS SSO session has expired";

/// How long before its expiry a token or a registration counts as expired.
pub const EXPIRY_SKEW_SECONDS: u64 = 60;

pub fn is_session_expired_error(error: &str) -> (r: bool)
    ensures
        r == (error@ == AWS_SESSION_EXPIRED@),
{
    text::str_eq(error, AWS_SESSION_EXPIRED)
}

/// Which role of a profile is used.
#[derive(Clone, Copy, Debug, PartialEq, Eq, Structural)]
pub enum AwsAccessLevel {
    ReadOnly,
    Admin,
}

/// How a level is called in messages.
pub open spec fn level_label(level: AwsAccessLevel) -> Seq<char> {
    match level {
        AwsAccessLevel::ReadOnly => "read-only"@,
        AwsAccessLevel::Admin => "admin"@,
    }
}

impl AwsAccessLevel {
    pub fn label(self) -> (r: &'static str)
        ensures
            r@ == level_label(self),
    {
        match self {
            AwsAccessLevel::ReadOnly => "read-only",
            AwsAccessLevel::Admin => "admin",
        }
    }
}

/// A profile alias: an account with the two roles that may be chosen.
#[derive(Debug, PartialEq, Eq)]
pub struct AwsTarget {
    pub profile: String,
    pub account_id: String,
    pub read_only_role: String,
    pub admin_role: String,
    pub region: String,
}

impl Clone for AwsTarget {
    fn clone(&self) -> (r: Self)
        ensures
            r == *self,
    {
        AwsTarget {
            profile: self.profile.clone(),
            account_id: self.account_id.clone(),
            read_only_role: self.read_only_role.clone(),
            admin_role: self.admin_role.clone(),
            region: self.region.clone(),
        }
    }
}

impl AwsTarget {
    pub fn role(&self, level: AwsAccessLevel) -> (r: &str)
        ensures
            r@ == match level {
                AwsAccessLevel::ReadOnly => self.read_only_role@,
                AwsAccessLevel::Admin => self.admin_role@,
            },
    {
        match level {
            AwsAccessLevel::ReadOnly => self.read_only_role.as_str(),
            AwsAccessLevel::Admin => self.admin_role.as_str(),
        }
    }
}

/// An account that the session may use, with its roles.
#[derive(Debug, PartialEq, Eq)]
pub struct AwsDiscoveredAccount {
    pub account_id: String,
    pub account_name: String,
    pub email_address: String,
    pub roles: Vec<String>,
}

impl Clone for AwsDiscoveredAccount {
    fn clone(&self) -> (r: Self)
        ensures
            same_account(r, *self),
    {
        let roles = self.roles.clone();
        assert(roles@ =~= self.roles@);
        AwsDiscoveredAccount {
            account_id: self.account_id.clone(),
            account_name: self.account_name.clone(),
            email_address: self.email_address.clone(),
            roles,
        }
    }
}

/// Whether two accounts agree in every field.
pub open spec fn same_account(left: AwsDiscoveredAccount, right: AwsDiscoveredAccount) -> bool {
    &&& left.account_id == right.account_id
    &&& left.account_name == right.account_name
    &&& left.email_address == right.email_address
    &&& left.roles@ == right.roles@
}

/// Whether two lists of accounts agree in every field.
pub open spec fn same_accounts(
    left: Seq<AwsDiscoveredAccount>,
    right: Seq<AwsDiscoveredAccount>,
) -> bool {
    &&& left.len() == right.len()
    &&& forall|i: int| 0 <= i < left.len() ==> same_account(#[trigger] left[i], right[i])
}

/// The client that is registered with the identity provider.
#[derive(Debug)]
pub struct AwsOidcRegistration {
    pub client_id: String,
    pub client_secret: String,
    pub client_secret_expires_at: u64,
}

impl Clone for AwsOidcRegistration {
    fn clone(&self) -> (r: Self)
        ensures
            r == *self,
    {
        AwsOidcRegistration {
            client_id: self.client_id.clone(),
            client_secret: self.client_secret.clone(),
            client_secret_expires_at: self.client_secret_expires_at,
        }
    }
}

/// The session's tokens.
#[derive(Debug)]
pub struct AwsSsoToken {
    pub access_token: String,
    pub access_token_expires_at: u64,
    pub refresh_token: String,
}

impl Clone for AwsSsoToken {
    fn clone(&self) -> (r: Self)
        ensures
            r == *self,
    {
        AwsSsoToken {
            access_token: self.access_token.clone(),
            access_token_expires_at: self.access_token_expires_at,
            refresh_token: self.refresh_token.clone(),
        }
    }
}

/// Everything that is kept about the AWS access portal.
#[derive(Debug)]
pub struct AwsSettings {
    pub start_url: String,
    pub sso_region: String,
    pub targets: Vec<AwsTarget>,
    pub discovered_accounts: Vec<AwsDiscoveredAccount>,
    pub discovery_complete: bool,
    pub registration: Option<AwsOidcRegistration>,
    pub token: Option<AwsSsoToken>,
}

/// Whether two settings agree in every field.
pub open spec fn same_settings(left: AwsSettings, right: AwsSettings) -> bool {
    &&& left.start_url == right.start_url
    &&& left.sso_region == right.sso_region
    &&& left.targets@ == right.targets@
    &&& same_accounts(left.discovered_accounts@, right.discovered_accounts@)
    &&& left.discovery_complete == right.discovery_complete
    &&& left.registration == right.registration
    &&& left.token == right.token
}

pub fn copied_targets(targets: &Vec<AwsTarget>) -> (r: Vec<AwsTarget>)
    ensures
        r@ == targets@,
{
    let r = targets.clone();
    assert(r@ =~= targets@);
    r
}

pub fn copied_accounts(accounts: &Vec<AwsDiscoveredAccount>) -> (r: Vec<AwsDiscoveredAccount>)
    ensures
        same_accounts(r@, accounts@),
{
    let mut r: Vec<AwsDiscoveredAccount> = Vec::new();
    for i in 0..accounts.len()
        invariant
            r@.len() == i,
            forall|j: int| 0 <= j < i ==> same_account(#[trigger] r@[j], accounts@[j]),
    {
        r.push(accounts[i].clone());
    }
    r
}

impl Clone for AwsSettings {
    fn clone(&self) -> (r: Self)
        ensures
            same_settings(r, *self),
    {
        AwsSettings {
            start_url: self.start_url.clone(),
            sso_region: self.sso_region.clone(),
            targets: copied_targets(&self.targets),
            discovered_accounts: copied_accounts(&self.discovered_accounts),
            discovery_complete: self.discovery_complete,
            registration: self.registration.clone(),
            token: self.token.clone(),
        }
    }
}

/// What a person configures.
#[derive(Debug, PartialEq, Eq)]
pub struct AwsConfiguration {
    pub start_url: String,
    pub sso_region: String,
    pub targets: Vec<AwsTarget>,
}

impl Clone for AwsConfiguration {
    fn clone(&self) -> (r: Self)
        ensures
            r.start_url == self.start_url,
            r.sso_region == self.sso_region,
            r.targets@ == self.targets@,
    {
        AwsConfiguration {
            start_url: self.start_url.clone(),
            sso_region: self.sso_region.clone(),
            targets: copied_targets(&self.targets),
        }
    }
}

/// What may be shown of the settings: everything but secrets.
#[derive(Debug)]
pub struct AwsSettingsSummary {
    pub configuration: AwsConfiguration,
    pub discovered_accounts: Vec<AwsDiscoveredAccount>,
    pub discovery_complete: bool,
    pub logged_in: bool,
    pub access_token_expires_at: Option<u64>,
}

impl Clone for AwsSettingsSummary {
    fn clone(&self) -> (r: Self)
        ensures
            same_summary(r, *self),
    {
        AwsSettingsSummary {
            configuration: self.configuration.clone(),
            discovered_accounts: copied_accounts(&self.discovered_accounts),
            discovery_complete: self.discovery_complete,
            logged_in: self.logged_in,
            access_token_expires_at: self.access_token_expires_at,
        }
    }
}

/// Whether two summaries agree in every field.
pub open spec fn same_summary(left: AwsSettingsSummary, right: AwsSettingsSummary) -> bool {
    &&& left.configuration.start_url == right.configuration.start_url
    &&& left.configuration.sso_region == right.configuration.sso_region
    &&& left.configuration.targets@ == right.configuration.targets@
    &&& same_accounts(left.discovered_accounts@, right.discovered_accounts@)
    &&& left.discovery_complete == right.discovery_complete
    &&& left.logged_in == right.logged_in
    &&& left.access_token_expires_at == right.access_token_expires_at
}

/// The time that is a minute after `now`, before which things count as expired.
pub open spec fn skewed(now: u64) -> u64 {
    if now + EXPIRY_SKEW_SECONDS <= u64::MAX {
        (now + EXPIRY_SKEW_SECONDS) as u64
    } else {
        u64::MAX
    }
}

pub fn skewed_now(now: u64) -> (r: u64)
    ensures
        r == skewed(now),
{
    if now <= u64::MAX - EXPIRY_SKEW_SECONDS {
        now + EXPIRY_SKEW_SECONDS
    } else {
        u64::MAX
    }
}

/// Whether an access token counts as expired at `now`.
pub open spec fn expired(token: AwsSsoToken, now: u64) -> bool {
    token.access_token_expires_at <= skewed(now)
}

pub fn token_expired(token: &AwsSsoToken, now: u64) -> (r: bool)
    ensures
        r == expired(*token, now),
{
    token.access_token_expires_at <= skewed_now(now)
}

/// Whether a registration may still be used at `now`.
pub open spec fn registration_usable(registration: Option<AwsOidcRegistration>, now: u64) -> bool {
    match registration {
        Some(registration) => registration.client_secret_expires_at > skewed(now),
        None => false,
    }
}

pub fn registration_is_usable(registration: &Option<AwsOidcRegistration>, now: u64) -> (r: bool)
    ensures
        r == registration_usable(*registration, now),
{
    match registration {
        Some(registration) => registration.client_secret_expires_at > skewed_now(now),
        None => false,
    }
}

/// Whether the settings hold a session that works now or can be renewed.
pub open spec fn has_session(settings: AwsSettings, now: u64) -> bool {
    match settings.token {
        Some(token) => token.refresh_token@.len() > 0 || !expired(token, now),
        None => false,
    }
}

/// A value that names something: not empty, no white space around it, at most
/// 128 bytes, no control characters.
pub open spec fn is_identifier(value: Seq<char>) -> bool {
    &&& text::trimmed(value) == value
    &&& value.len() > 0
    &&& vstd::utf8::encode_utf8(value).len() <= 128
    &&& !text::has_control(value)
}

/// The complaint about something that is not an identifier.
pub open spec fn identifier_error(value: Seq<char>, label: Seq<char>) -> Option<Seq<char>> {
    if is_identifier(value) {
        None
    } else {
        Some(label + " is invalid"@)
    }
}

fn validate_identifier(value: &str, label: &str) -> (r: Result<(), String>)
    ensures
        match r {
            Ok(()) => identifier_error(value@, label@) is None,
            Err(error) => identifier_error(value@, label@) == Some(error@),
        },
{
    let trimmed = text::trim(value);
    if !text::str_eq(trimmed.as_str(), value) || value.is_empty() || value.as_bytes().len() > 128
        || text::contains_control(value) {
        return Err(text::concat(label, " is invalid"));
    }
    Ok(())
}

/// Whether a character may stand in a profile alias.
pub open spec fn is_profile_char(c: char) -> bool {
    text::is_ascii_alphanumeric(c) || c == '-' || c == '_'
}

/// Whether a text is a profile alias: one to 128 letters, digits, hyphens and
/// underscores.
pub open spec fn is_profile(profile: Seq<char>) -> bool {
    &&& 0 < profile.len() <= 128
    &&& forall|i: int| 0 <= i < profile.len() ==> is_profile_char(#[trigger] profile[i])
}

pub fn validate_aws_profile(profile: &str) -> (r: Result<(), String>)
    ensures
        r is Ok <==> is_profile(profile@),
        r matches Err(error) ==> error@ == "AWS profile is invalid"@,
{
    let chars = text::chars_of(profile);
    if chars.len() == 0 || chars.len() > 128 {
        return Err("AWS profile is invalid".to_owned());
    }
    for i in 0..chars.len()
        invariant
            chars@ == profile@,
            forall|j: int| 0 <= j < i ==> is_profile_char(#[trigger] profile@[j]),
    {
        let c = chars[i];
        if !(text::char_is_ascii_alphanumeric(c) || c == '-' || c == '_') {
            assert(!is_profile_char(profile@[i as int]));
            return Err("AWS profile is invalid".to_owned());
        }
    }
    Ok(())
}

/// Whether a text is an account number: twelve digits.
pub open spec fn is_account_id(id: Seq<char>) -> bool {
    &&& id.len() == 12
    &&& forall|i: int| 0 <= i < id.len() ==> text::is_ascii_digit(#[trigger] id[i])
}

pub fn valid_account_id(id: &str) -> (r: bool)
    ensures
        r == is_account_id(id@),
{
    let chars = text::chars_of(id);
    if chars.len() != 12 {
        return false;
    }
    for i in 0..chars.len()
        invariant
            chars@ == id@,
            forall|j: int| 0 <= j < i ==> text::is_ascii_digit(#[trigger] id@[j]),
    {
        if !text::char_is_ascii_digit(chars[i]) {
            assert(!text::is_ascii_digit(id@[i as int]));
            return false;
        }
    }
    true
}

/// A message about one profile.
pub open spec fn profile_message(profile: Seq<char>, rest: Seq<char>) -> Seq<char> {
    "AWS profile '"@ + profile + "'"@ + rest
}

fn profile_error(profile: &str, rest: &str) -> (r: String)
    ensures
        r@ == profile_message(profile@, rest@),
{
    let start = text::concat("AWS profile '", profile);
    let quoted = text::concat(start.as_str(), "'");
    text::concat(quoted.as_str(), rest)
}

/// Whether one of the targets has a profile alias.
pub open spec fn has_profile(targets: Seq<AwsTarget>, profile: Seq<char>) -> bool {
    exists|i: int| 0 <= i < targets.len() && (#[trigger] targets[i]).profile@ == profile
}

/// The first complaint about a target that follows `earlier` ones.
pub open spec fn target_error(target: AwsTarget, earlier: Seq<AwsTarget>) -> Option<Seq<char>> {
    if !is_profile(target.profile@) {
        Some("AWS profile is invalid"@)
    } else if has_profile(earlier, target.profile@) {
        Some(profile_message(target.profile@, " is duplicated"@))
    } else if !is_account_id(target.account_id@) {
        Some(profile_message(target.profile@, " has an invalid account ID"@))
    } else if !is_identifier(target.read_only_role@) {
        identifier_error(target.read_only_role@, "read-only role"@)
    } else if !is_identifier(target.admin_role@) {
        identifier_error(target.admin_role@, "admin role"@)
    } else if target.region@.len() > 0 {
        identifier_error(target.region@, "AWS region"@)
    } else {
        None
    }
}

/// The first complaint about a list of targets.
pub open spec fn targets_error(targets: Seq<AwsTarget>) -> Option<Seq<char>>
    decreases targets.len(),
{
    if targets.len() == 0 {
        None
    } else {
        match targets_error(targets.drop_last()) {
            Some(error) => Some(error),
            None => target_error(targets.last(), targets.drop_last()),
        }
    }
}

/// Whether one of the accounts has an account number.
pub open spec fn has_account(accounts: Seq<AwsDiscoveredAccount>, id: Seq<char>) -> bool {
    exists|i: int| 0 <= i < accounts.len() && (#[trigger] accounts[i]).account_id@ == id
}

/// The first complaint about a list of roles.
pub open spec fn roles_error(roles: Seq<String>) -> Option<Seq<char>>
    decreases roles.len(),
{
    if roles.len() == 0 {
        None
    } else {
        match roles_error(roles.drop_last()) {
            Some(error) => Some(error),
            None => identifier_error(roles.last()@, "AWS role"@),
        }
    }
}

/// The first complaint about a discovered account that follows `earlier` ones.
pub open spec fn account_error(
    account: AwsDiscoveredAccount,
    earlier: Seq<AwsDiscoveredAccount>,
) -> Option<Seq<char>> {
    if !is_account_id(account.account_id@) || has_account(earlier, account.account_id@) {
        Some("AWS discovery contains an invalid account ID"@)
    } else if text::has_control(account.account_name@) || text::has_control(
        account.email_address@,
    ) {
        Some("AWS discovery contains invalid account metadata"@)
    } else {
        roles_error(account.roles@)
    }
}

/// The first complaint about a list of discovered accounts.
pub open spec fn accounts_error(accounts: Seq<AwsDiscoveredAccount>) -> Option<Seq<char>>
    decreases accounts.len(),
{
    if accounts.len() == 0 {
        None
    } else {
        match accounts_error(accounts.drop_last()) {
            Some(error) => Some(error),
            None => account_error(accounts.last(), accounts.drop_last()),
        }
    }
}

/// The first account with an account number.
pub open spec fn account_of(
    accounts: Seq<AwsDiscoveredAccount>,
    id: Seq<char>,
) -> Option<AwsDiscoveredAccount> {
    seqs::first_where(accounts, is_numbered(id))
}

/// The test for the account with an account number.
pub open spec fn is_numbered(id: Seq<char>) -> spec_fn(AwsDiscoveredAccount) -> bool {
    |a: AwsDiscoveredAccount| a.account_id@ == id
}

/// Whether an account offers a role.
pub open spec fn offers(account: AwsDiscoveredAccount, role: Seq<char>) -> bool {
    text::views(account.roles@).contains(role)
}

/// The complaint about a target whose account or roles are not assigned.
pub open spec fn assignment_error(
    target: AwsTarget,
    accounts: Seq<AwsDiscoveredAccount>,
) -> Option<Seq<char>> {
    match account_of(accounts, target.account_id@) {
        None => Some(
            profile_message(target.profile@, " refers to an account that is no longer assigned"@),
        ),
        Some(account) => if offers(account, target.read_only_role@) && offers(
            account,
            target.admin_role@,
        ) {
            None
        } else {
            Some(profile_message(target.profile@, " refers to a role that is no longer assigned"@))
        },
    }
}

/// The first complaint about targets that are not assigned.
pub open spec fn assignments_error(
    targets: Seq<AwsTarget>,
    accounts: Seq<AwsDiscoveredAccount>,
) -> Option<Seq<char>>
    decreases targets.len(),
{
    if targets.len() == 0 {
        None
    } else {
        match assignments_error(targets.drop_last(), accounts) {
            Some(error) => Some(error),
            None => assignment_error(targets.last(), accounts),
        }
    }
}

/// Whether an access portal address can be used.
pub open spec fn is_portal(url: Seq<char>) -> bool {
    "https://"@.is_prefix_of(url) && !text::has_control(url)
}

/// The first complaint about settings, in the order in which they are checked:
/// the portal, the region, the targets, the discovered accounts, and, where any
/// account is known, that each target is assigned.
pub open spec fn settings_error(settings: AwsSettings) -> Option<Seq<char>> {
    if !is_portal(settings.start_url@) {
        Some("AWS access portal URL must be an HTTPS URL"@)
    } else if !is_identifier(settings.sso_region@) {
        identifier_error(settings.sso_region@, "SSO region"@)
    } else if targets_error(settings.targets@) is Some {
        targets_error(settings.targets@)
    } else if accounts_error(settings.discovered_accounts@) is Some {
        accounts_error(settings.discovered_accounts@)
    } else if settings.discovered_accounts@.len() > 0 {
        assignments_error(settings.targets@, settings.discovered_accounts@)
    } else {
        None
    }
}

/// Whether settings may be kept and used.
pub open spec fn valid_settings(settings: AwsSettings) -> bool {
    settings_error(settings) is None
}

fn check_target(target: &AwsTarget, targets: &Vec<AwsTarget>, n: usize) -> (r: Result<(), String>)
    requires
        n <= targets@.len(),
    ensures
        match r {
            Ok(()) => target_error(*target, targets@.take(n as int)) is None,
            Err(error) => target_error(*target, targets@.take(n as int)) == Some(error@),
        },
{
    let ghost earlier = targets@.take(n as int);
    match validate_aws_profile(target.profile.as_str()) {
        Ok(()) => {},
        Err(error) => {
            return Err(error);
        },
    }
    for i in 0..n
        invariant
            n <= targets@.len(),
            earlier == targets@.take(n as int),
            is_profile(target.profile@),
            forall|j: int| 0 <= j < i ==> (#[trigger] earlier[j]).profile@ != target.profile@,
    {
        assert(earlier[i as int] == targets@[i as int]);
        if targets[i].profile == target.profile {
            assert(has_profile(earlier, target.profile@));
            return Err(profile_error(target.profile.as_str(), " is duplicated"));
        }
    }
    assert(!has_profile(earlier, target.profile@));
    if !valid_account_id(target.account_id.as_str()) {
        return Err(profile_error(target.profile.as_str(), " has an invalid account ID"));
    }
    match validate_identifier(target.read_only_role.as_str(), "read-only role") {
        Ok(()) => {},
        Err(error) => {
            return Err(error);
        },
    }
    match validate_identifier(target.admin_role.as_str(), "admin role") {
        Ok(()) => {},
        Err(error) => {
            return Err(error);
        },
    }
    if !target.region.as_str().is_empty() {
        return validate_identifier(target.region.as_str(), "AWS region");
    }
    Ok(())
}

fn check_roles(roles: &Vec<String>) -> (r: Result<(), String>)
    ensures
        match r {
            Ok(()) => roles_error(roles@) is None,
            Err(error) => roles_error(roles@) == Some(error@),
        },
{
    for i in 0..roles.len()
        invariant
            roles_error(roles@.take(i as int)) is None,
    {
        assert(roles@.take(i + 1).drop_last() =~= roles@.take(i as int));
        match validate_identifier(roles[i].as_str(), "AWS role") {
            Ok(()) => {},
            Err(error) => {
                proof {
                    roles_error_lasts(roles@, i + 1);
                }
                return Err(error);
            },
        }
    }
    assert(roles@.take(roles@.len() as int) =~= roles@);
    Ok(())
}

proof fn roles_error_lasts(roles: Seq<String>, n: int)
    requires
        0 <= n <= roles.len(),
        roles_error(roles.take(n)) is Some,
    ensures
        roles_error(roles) == roles_error(roles.take(n)),
    decreases roles.len(),
{
    if n < roles.len() {
        assert(roles.drop_last().take(n) =~= roles.take(n));
        roles_error_lasts(roles.drop_last(), n);
    } else {
        assert(roles.take(n) =~= roles);
    }
}

fn check_account(
    account: &AwsDiscoveredAccount,
    accounts: &Vec<AwsDiscoveredAccount>,
    n: usize,
) -> (r: Result<(), String>)
    requires
        n <= accounts@.len(),
    ensures
        match r {
            Ok(()) => account_error(*account, accounts@.take(n as int)) is None,
            Err(error) => account_error(*account, accounts@.take(n as int)) == Some(error@),
        },
{
    let ghost earlier = accounts@.take(n as int);
    if !valid_account_id(account.account_id.as_str()) {
        return Err("AWS discovery contains an invalid account ID".to_owned());
    }
    for i in 0..n
        invariant
            n <= accounts@.len(),
            earlier == accounts@.take(n as int),
            is_account_id(account.account_id@),
            forall|j: int|
                0 <= j < i ==> (#[trigger] earlier[j]).account_id@ != account.account_id@,
    {
        assert(earlier[i as int] == accounts@[i as int]);
        if accounts[i].account_id == account.account_id {
            assert(has_account(earlier, account.account_id@));
            return Err("AWS discovery contains an invalid account ID".to_owned());
        }
    }
    assert(!has_account(earlier, account.account_id@));
    if text::contains_control(account.account_name.as_str()) || text::contains_control(
        account.email_address.as_str(),
    ) {
        return Err("AWS discovery contains invalid account metadata".to_owned());
    }
    check_roles(&account.roles)
}

/// Whether the account of a target is known and offers both of its roles.
pub open spec fn is_assigned(target: AwsTarget, accounts: Seq<AwsDiscoveredAccount>) -> bool {
    exists|i: int|
        0 <= i < accounts.len() && (#[trigger] accounts[i]).account_id@ == target.account_id@
            && offers(accounts[i], target.read_only_role@) && offers(
            accounts[i],
            target.admin_role@,
        )
}

pub fn assigned(target: &AwsTarget, accounts: &Vec<AwsDiscoveredAccount>) -> (r: bool)
    ensures
        r == is_assigned(*target, accounts@),
{
    for i in 0..accounts.len()
        invariant
            forall|j: int|
                0 <= j < i ==> !((#[trigger] accounts@[j]).account_id@ == target.account_id@
                    && offers(accounts@[j], target.read_only_role@) && offers(
                    accounts@[j],
                    target.admin_role@,
                )),
    {
        let account = &accounts[i];
        if account.account_id == target.account_id && text::contains_text(
            &account.roles,
            target.read_only_role.as_str(),
        ) && text::contains_text(&account.roles, target.admin_role.as_str()) {
            return true;
        }
    }
    false
}

/// The test for targets that are assigned.
pub open spec fn is_assigned_in(accounts: Seq<AwsDiscoveredAccount>) -> spec_fn(
    AwsTarget,
) -> bool {
    |t: AwsTarget| is_assigned(t, accounts)
}

fn check_assignment(target: &AwsTarget, accounts: &Vec<AwsDiscoveredAccount>) -> (r: Result<
    (),
    String,
>)
    ensures
        match r {
            Ok(()) => assignment_error(*target, accounts@) is None,
            Err(error) => assignment_error(*target, accounts@) == Some(error@),
        },
{
    let test = |a: &AwsDiscoveredAccount| -> (b: bool)
        ensures
            b == (a.account_id@ == target.account_id@),
        { a.account_id == target.account_id };
    let found = seqs::position(
        accounts,
        test,
        Ghost(is_numbered(target.account_id@)),
    );
    match found {
        None => Err(
            profile_error(
                target.profile.as_str(),
                " refers to an account that is no longer assigned",
            ),
        ),
        Some(at) => {
            let account = &accounts[at];
            if !text::contains_text(&account.roles, target.read_only_role.as_str())
                || !text::contains_text(&account.roles, target.admin_role.as_str()) {
                return Err(
                    profile_error(
                        target.profile.as_str(),
                        " refers to a role that is no longer assigned",
                    ),
                );
            }
            Ok(())
        },
    }
}

proof fn targets_error_lasts(targets: Seq<AwsTarget>, n: int)
    requires
        0 <= n <= targets.len(),
        targets_error(targets.take(n)) is Some,
    ensures
        targets_error(targets) == targets_error(targets.take(n)),
    decreases targets.len(),
{
    if n < targets.len() {
        assert(targets.drop_last().take(n) =~= targets.take(n));
        targets_error_lasts(targets.drop_last(), n);
    } else {
        assert(targets.take(n) =~= targets);
    }
}

proof fn accounts_error_lasts(accounts: Seq<AwsDiscoveredAccount>, n: int)
    requires
        0 <= n <= accounts.len(),
        accounts_error(accounts.take(n)) is Some,
    ensures
        accounts_error(accounts) == accounts_error(accounts.take(n)),
    decreases accounts.len(),
{
    if n < accounts.len() {
        assert(accounts.drop_last().take(n) =~= accounts.take(n));
        accounts_error_lasts(accounts.drop_last(), n);
    } else {
        assert(accounts.take(n) =~= accounts);
    }
}

proof fn assignments_error_lasts(
    targets: Seq<AwsTarget>,
    accounts: Seq<AwsDiscoveredAccount>,
    n: int,
)
    requires
        0 <= n <= targets.len(),
        assignments_error(targets.take(n), accounts) is Some,
    ensures
        assignments_error(targets, accounts) == assignments_error(targets.take(n), accounts),
    decreases targets.len(),
{
    if n < targets.len() {
        assert(targets.drop_last().take(n) =~= targets.take(n));
        assignments_error_lasts(targets.drop_last(), accounts, n);
    } else {
        assert(targets.take(n) =~= targets);
    }
}

fn check_targets(targets: &Vec<AwsTarget>) -> (r: Result<(), String>)
    ensures
        match r {
            Ok(()) => targets_error(targets@) is None,
            Err(error) => targets_error(targets@) == Some(error@),
        },
{
    for i in 0..targets.len()
        invariant
            targets_error(targets@.take(i as int)) is None,
    {
        assert(targets@.take(i + 1).drop_last() =~= targets@.take(i as int));
        match check_target(&targets[i], targets, i) {
            Ok(()) => {},
            Err(error) => {
                proof {
                    targets_error_lasts(targets@, i + 1);
                }
                return Err(error);
            },
        }
    }
    assert(targets@.take(targets@.len() as int) =~= targets@);
    Ok(())
}

fn check_accounts(accounts: &Vec<AwsDiscoveredAccount>) -> (r: Result<(), String>)
    ensures
        match r {
            Ok(()) => accounts_error(accounts@) is None,
            Err(error) => accounts_error(accounts@) == Some(error@),
        },
{
    for i in 0..accounts.len()
        invariant
            accounts_error(accounts@.take(i as int)) is None,
    {
        assert(accounts@.take(i + 1).drop_last() =~= accounts@.take(i as int));
        match check_account(&accounts[i], accounts, i) {
            Ok(()) => {},
            Err(error) => {
                proof {
                    accounts_error_lasts(accounts@, i + 1);
                }
                return Err(error);
            },
        }
    }
    assert(accounts@.take(accounts@.len() as int) =~= accounts@);
    Ok(())
}

fn check_assignments(targets: &Vec<AwsTarget>, accounts: &Vec<AwsDiscoveredAccount>) -> (r: Result<
    (),
    String,
>)
    ensures
        match r {
            Ok(()) => assignments_error(targets@, accounts@) is None,
            Err(error) => assignments_error(targets@, accounts@) == Some(error@),
        },
{
    for i in 0..targets.len()
        invariant
            assignments_error(targets@.take(i as int), accounts@) is None,
    {
        assert(targets@.take(i + 1).drop_last() =~= targets@.take(i as int));
        match check_assignment(&targets[i], accounts) {
            Ok(()) => {},
            Err(error) => {
                proof {
                    assignments_error_lasts(targets@, accounts@, i + 1);
                }
                return Err(error);
            },
        }
    }
    assert(targets@.take(targets@.len() as int) =~= targets@);
    Ok(())
}

/// The position of the target with a profile alias.
pub open spec fn target_index(targets: Seq<AwsTarget>, profile: Seq<char>) -> Option<int> {
    seqs::first_index(targets, is_named(profile))
}

/// The test for the target with a profile alias.
pub open spec fn is_named(profile: Seq<char>) -> spec_fn(AwsTarget) -> bool {
    |t: AwsTarget| t.profile@ == profile
}

/// The complaint about a profile that is not configured.
pub open spec fn unknown_profile(profile: Seq<char>) -> Seq<char> {
    profile_message(profile, " is not configured in secretd"@)
}

/// The settings with another configuration in them.
pub open spec fn reconfigured(
    settings: AwsSettings,
    configuration: AwsConfiguration,
) -> AwsSettings {
    AwsSettings {
        start_url: configuration.start_url,
        sso_region: configuration.sso_region,
        targets: configuration.targets,
        ..settings
    }
}

/// Whether a configuration is for another portal or region.
pub open spec fn changes_connection(
    settings: AwsSettings,
    configuration: AwsConfiguration,
) -> bool {
    settings.start_url@ != configuration.start_url@ || settings.sso_region@
        != configuration.sso_region@
}

/// Whether nothing is left of a session and of what it found.
pub open spec fn is_fresh(settings: AwsSettings) -> bool {
    &&& settings.registration is None
    &&& settings.token is None
    &&& settings.discovered_accounts@.len() == 0
    &&& !settings.discovery_complete
}

/// Overwrites and drops a registration.
fn forget_registration(registration: &mut Option<AwsOidcRegistration>)
    ensures
        *final(registration) is None,
{
    match registration.take() {
        Some(mut old_registration) => {
            crypto::wipe_text(&mut old_registration.client_id);
            crypto::wipe_text(&mut old_registration.client_secret);
        },
        None => {},
    }
}

/// Overwrites and drops tokens.
fn forget_token(token: &mut Option<AwsSsoToken>)
    ensures
        *final(token) is None,
{
    match token.take() {
        Some(mut old_token) => {
            crypto::wipe_text(&mut old_token.access_token);
            crypto::wipe_text(&mut old_token.refresh_token);
        },
        None => {},
    }
}

impl AwsSettings {
    /// Checks the settings; the error is the first complaint.
    pub fn validate(&self) -> (r: Result<(), String>)
        ensures
            match r {
                Ok(()) => settings_error(*self) is None,
                Err(error) => settings_error(*self) == Some(error@),
            },
    {
        if !text::starts_with(self.start_url.as_str(), "https://") || text::contains_control(
            self.start_url.as_str(),
        ) {
            return Err("AWS access portal URL must be an HTTPS URL".to_owned());
        }
        match validate_identifier(self.sso_region.as_str(), "SSO region") {
            Ok(()) => {},
            Err(error) => {
                return Err(error);
            },
        }
        match check_targets(&self.targets) {
            Ok(()) => {},
            Err(error) => {
                return Err(error);
            },
        }
        match check_accounts(&self.discovered_accounts) {
            Ok(()) => {},
            Err(error) => {
                return Err(error);
            },
        }
        if self.discovered_accounts.len() > 0 {
            return check_assignments(&self.targets, &self.discovered_accounts);
        }
        Ok(())
    }

    /// The target with a profile alias.
    pub fn target(&self, profile: &str) -> (r: Result<&AwsTarget, String>)
        ensures
            match target_index(self.targets@, profile@) {
                Some(i) => r matches Ok(target) && *target == self.targets@[i],
                None => r matches Err(error) && error@ == unknown_profile(profile@),
            },
    {
        let test = |t: &AwsTarget| -> (b: bool)
            ensures
                b == (t.profile@ == profile@),
            { text::str_eq(t.profile.as_str(), profile) };
        match seqs::position(&self.targets, test, Ghost(is_named(profile@))) {
            Some(i) => Ok(&self.targets[i]),
            None => Err(profile_error(profile, " is not configured in secretd")),
        }
    }

    /// Whether there is a session that works now or can be renewed.
    pub fn logged_in(&self) -> (r: bool)
        ensures
            exists|now: u64| r == #[trigger] has_session(*self, now),
    {
        self.logged_in_at(clock::now_seconds())
    }

    pub fn logged_in_at(&self, now: u64) -> (r: bool)
        ensures
            r == has_session(*self, now),
    {
        match &self.token {
            Some(token) => !token.refresh_token.as_str().is_empty() || !token_expired(token, now),
            None => false,
        }
    }

    /// What may be shown of the settings.
    pub fn summary(&self) -> (r: AwsSettingsSummary)
        ensures
            exists|now: u64| #[trigger] summarizes(r, *self, now),
    {
        self.summary_at(clock::now_seconds())
    }

    pub fn summary_at(&self, now: u64) -> (r: AwsSettingsSummary)
        ensures
            summarizes(r, *self, now),
    {
        AwsSettingsSummary {
            configuration: AwsConfiguration {
                start_url: self.start_url.clone(),
                sso_region: self.sso_region.clone(),
                targets: copied_targets(&self.targets),
            },
            discovered_accounts: copied_accounts(&self.discovered_accounts),
            discovery_complete: self.discovery_complete,
            logged_in: self.logged_in_at(now),
            access_token_expires_at: match &self.token {
                Some(token) => Some(token.access_token_expires_at),
                None => None,
            },
        }
    }

    /// Puts another configuration in place. It is checked only once it is in
    /// place, so that a refused one stays. Another portal or region ends the
    /// session and forgets what it found, the aliases included.
    pub fn update_configuration(&mut self, configuration: AwsConfiguration) -> (r: Result<
        (),
        String,
    >)
        ensures
            match settings_error(reconfigured(*old(self), configuration)) {
                Some(error) => r is Err && r->Err_0@ == error && *final(self) == reconfigured(
                    *old(self),
                    configuration,
                ),
                None => {
                    &&& r is Ok
                    &&& if changes_connection(*old(self), configuration) {
                        &&& final(self).start_url == configuration.start_url
                        &&& final(self).sso_region == configuration.sso_region
                        &&& final(self).targets@.len() == 0
                        &&& is_fresh(*final(self))
                    } else {
                        *final(self) == reconfigured(*old(self), configuration)
                    }
                },
            },
    {
        let connection_changed = !(self.start_url == configuration.start_url && self.sso_region
            == configuration.sso_region);
        self.start_url = configuration.start_url;
        self.sso_region = configuration.sso_region;
        self.targets = configuration.targets;
        match self.validate() {
            Ok(()) => {},
            Err(error) => {
                return Err(error);
            },
        }
        if connection_changed {
            forget_registration(&mut self.registration);
            forget_token(&mut self.token);
            self.discovered_accounts.clear();
            self.discovery_complete = false;
            self.targets.clear();
        }
        Ok(())
    }

    /// Settings for a configuration, without a session.
    pub fn from_configuration(configuration: AwsConfiguration) -> (r: Result<Self, String>)
        ensures
            match r {
                Ok(settings) => {
                    &&& valid_settings(settings)
                    &&& is_fresh(settings)
                    &&& settings.start_url == configuration.start_url
                    &&& settings.sso_region == configuration.sso_region
                    &&& settings.targets == configuration.targets
                },
                Err(error) => exists|settings: AwsSettings|
                    {
                        &&& #[trigger] settings_error(settings) == Some(error@)
                        &&& is_fresh(settings)
                        &&& settings.start_url == configuration.start_url
                        &&& settings.sso_region == configuration.sso_region
                        &&& settings.targets == configuration.targets
                    },
            },
    {
        let settings = AwsSettings {
            start_url: configuration.start_url,
            sso_region: configuration.sso_region,
            targets: configuration.targets,
            discovered_accounts: Vec::new(),
            discovery_complete: false,
            registration: None,
            token: None,
        };
        match settings.validate() {
            Ok(()) => Ok(settings),
            Err(error) => Err(error),
        }
    }
}

/// Whether a summary says of settings what holds at `now`.
pub open spec fn summarizes(
    summary: AwsSettingsSummary,
    settings: AwsSettings,
    now: u64,
) -> bool {
    &&& summary.configuration.start_url == settings.start_url
    &&& summary.configuration.sso_region == settings.sso_region
    &&& summary.configuration.targets@ == settings.targets@
    &&& same_accounts(summary.discovered_accounts@, settings.discovered_accounts@)
    &&& summary.discovery_complete == settings.discovery_complete
    &&& summary.logged_in == has_session(settings, now)
    &&& summary.access_token_expires_at == match settings.token {
        Some(token) => Some(token.access_token_expires_at),
        None => None,
    }
}

/// What a device is shown so that a person can approve the login.
#[derive(Debug)]
pub struct AwsDeviceAuthorization {
    pub verification_uri: String,
    pub verification_uri_complete: Option<String>,
    pub user_code: String,
    pub expires_at: u64,
}

impl Clone for AwsDeviceAuthorization {
    fn clone(&self) -> (r: Self)
        ensures
            r == *self,
    {
        AwsDeviceAuthorization {
            verification_uri: self.verification_uri.clone(),
            verification_uri_complete: self.verification_uri_complete.clone(),
            user_code: self.user_code.clone(),
            expires_at: self.expires_at,
        }
    }
}

/// How far a login has come.
#[derive(Debug)]
pub enum AwsLoginStatus {
    Idle,
    Starting,
    AwaitingUser(AwsDeviceAuthorization),
    Discovering,
    LoggedIn { expires_at: u64 },
    Failed(String),
}

impl Clone for AwsLoginStatus {
    fn clone(&self) -> (r: Self)
        ensures
            r == *self,
    {
        match self {
            AwsLoginStatus::Idle => AwsLoginStatus::Idle,
            AwsLoginStatus::Starting => AwsLoginStatus::Starting,
            AwsLoginStatus::AwaitingUser(device) => AwsLoginStatus::AwaitingUser(device.clone()),
            AwsLoginStatus::Discovering => AwsLoginStatus::Discovering,
            AwsLoginStatus::LoggedIn { expires_at } => AwsLoginStatus::LoggedIn {
                expires_at: *expires_at,
            },
            AwsLoginStatus::Failed(error) => AwsLoginStatus::Failed(error.clone()),
        }
    }
}

/// Credentials in the form that AWS tools read from a credential process.
#[derive(Debug)]
pub struct AwsCredentialProcessOutput {
    pub version: u8,
    pub access_key_id: String,
    pub secret_access_key: String,
    pub session_token: String,
    pub expiration: String,
    pub account_id: String,
}

} // verus!
