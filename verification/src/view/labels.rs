//! The words that are shown: names of processes, suggestions, durations and
//! decisions.

use vstd::prelude::*;
use vstd::string::*;

use crate::aws::AwsAccessLevel;
use crate::clock;
use crate::controller::AuditAction;
use crate::numeral;
use crate::process;
use crate::process::ProcessIdentity;
use crate::seqs;
use crate::text;

verus! {

/// How many characters a process is named with before its arguments are left
/// out.
pub const LABEL_LIMIT: usize = 42;

/// The last component of a path, or all of it where that is empty.
pub open spec fn program_name(path: Seq<char>) -> Seq<char> {
    if text::after_last(path, '/').len() > 0 {
        text::after_last(path, '/')
    } else {
        path
    }
}

pub fn program_of(path: &str) -> (r: String)
    ensures
        r@ == program_name(path@),
{
    let last = text::last_piece(path, '/');
    if last.as_str().is_empty() {
        path.to_owned()
    } else {
        last
    }
}

/// A label with the arguments from position `i` on: at most two of them, each
/// by its last component, and dots for those that are left out.
pub open spec fn with_arguments(label: Seq<char>, arguments: Seq<Seq<char>>, i: nat) -> Seq<char>
    decreases 2 - i,
{
    if i >= 2 || i >= arguments.len() {
        if arguments.len() > 2 {
            label + " …"@
        } else {
            label
        }
    } else {
        let argument = text::after_last(arguments[i as int], '/');
        if label.len() + argument.len() + 1 > LABEL_LIMIT {
            label + " …"@
        } else {
            with_arguments(label.push(' ') + argument, arguments, i + 1)
        }
    }
}

/// What a process is named after: its command line, or its executable where
/// that says nothing.
pub open spec fn label_source(process: ProcessIdentity) -> Seq<char> {
    if text::trimmed(process.command@).len() == 0 {
        text::trimmed(process.executable@)
    } else {
        text::trimmed(process.command@)
    }
}

/// The words of a command after its first.
pub open spec fn arguments_of(parts: Seq<Seq<char>>) -> Seq<Seq<char>> {
    if parts.len() > 0 {
        parts.skip(1)
    } else {
        parts
    }
}

/// The short name of a process.
pub open spec fn process_label(process: ProcessIdentity) -> Seq<char> {
    let source = label_source(process);
    let parts = text::words(source);
    let executable = if parts.len() > 0 {
        parts[0]
    } else {
        source
    };
    with_arguments(program_name(executable), arguments_of(parts), 0)
}

/// The short name of a process.
pub fn compact_process_label(process: &ProcessIdentity) -> (r: String)
    ensures
        r@ == process_label(*process),
{
    let command = text::trim(process.command.as_str());
    let source = if command.as_str().is_empty() {
        text::trim(process.executable.as_str())
    } else {
        command
    };
    let parts = text::split_words(source.as_str());
    let ghost shown = text::views(parts@);
    let ghost arguments = arguments_of(shown);
    let n: usize = parts.len();
    if n == 0 {
        let label = program_of(source.as_str());
        assert(with_arguments(label@, arguments, 0) == label@);
        return label;
    }
    assert(shown[0] == parts@[0]@);
    let mut label = program_of(parts[0].as_str());
    let ghost whole = with_arguments(label@, arguments, 0);
    let mut i: usize = 0;
    while i < 2 && i + 1 < n
        invariant
            n == parts@.len(),
            n > 0,
            shown == text::views(parts@),
            arguments == arguments_of(shown),
            i <= 2,
            i <= n - 1,
            whole == process_label(*process),
            whole == with_arguments(label@, arguments, i as nat),
        decreases 2 - i,
    {
        assert(arguments[i as int] == parts@[i + 1]@);
        let argument = text::last_piece(parts[i + 1].as_str(), '/');
        let used: usize = text::char_count(label.as_str());
        let wanted: usize = text::char_count(argument.as_str());
        if used >= LABEL_LIMIT || wanted >= LABEL_LIMIT - used {
            label.append(" …");
            return label;
        }
        label.push(' ');
        label.append(argument.as_str());
        i = i + 1;
    }
    if n > 3 {
        label.append(" …");
    }
    label
}

/// What is shown of a process on demand: its executable, and its command line
/// where that says more.
pub open spec fn process_details_text(process: ProcessIdentity) -> Seq<char> {
    if text::trimmed(process.command@).len() == 0 || process.command@ == process.executable@ {
        process.executable@
    } else {
        process.executable@.push('\n') + process.command@
    }
}

pub fn process_details(process: &ProcessIdentity) -> (r: String)
    ensures
        r@ == process_details_text(*process),
{
    let command = text::trim(process.command.as_str());
    if command.as_str().is_empty() || text::str_eq(
        process.command.as_str(),
        process.executable.as_str(),
    ) {
        process.executable.clone()
    } else {
        let mut r = process.executable.clone();
        r.push('\n');
        r.append(process.command.as_str());
        r
    }
}

/// The test for processes that may hold a grant.
pub open spec fn grantable() -> spec_fn(ProcessIdentity) -> bool {
    |p: ProcessIdentity| !process::is_launchd(p)
}

/// The process that a grant is for unless another one is chosen: the requester,
/// or failing that the first of the lineage.
pub open spec fn default_holder(tree: Seq<ProcessIdentity>) -> Option<ProcessIdentity> {
    match seqs::first_where(tree, grantable()) {
        Some(process) => Some(process),
        None => if tree.len() > 0 {
            Some(tree[0])
        } else {
            None
        },
    }
}

/// The first process of a lineage that may hold a grant.
pub fn requester_of(tree: &Vec<ProcessIdentity>) -> (r: Option<ProcessIdentity>)
    ensures
        r == seqs::first_where(tree@, grantable()),
{
    let test = |p: &ProcessIdentity| -> (b: bool)
        ensures
            b == !process::is_launchd(*p),
        { !process::is_launchd_process(p) };
    match seqs::position(tree, test, Ghost(grantable())) {
        Some(i) => Some(tree[i].clone()),
        None => None,
    }
}

/// The process that a grant is for unless another one is chosen.
pub fn default_grant_process(process_tree: &Vec<ProcessIdentity>) -> (r: Option<ProcessIdentity>)
    ensures
        r == default_holder(process_tree@),
{
    match requester_of(process_tree) {
        Some(process) => Some(process),
        None => if process_tree.len() > 0 {
            Some(process_tree[0].clone())
        } else {
            None
        },
    }
}

/// How many bytes a character takes in UTF-8.
pub open spec fn utf8_width(c: char) -> nat {
    if c <= '\u{7f}' {
        1
    } else if c <= '\u{7ff}' {
        2
    } else if c <= '\u{ffff}' {
        3
    } else {
        4
    }
}

/// What follows the first `n` bytes of a text, where a character ends there.
pub open spec fn after_bytes(s: Seq<char>, n: int) -> Option<Seq<char>>
    decreases s.len(),
{
    if n == 0 {
        Some(s)
    } else if n < 0 || s.len() == 0 {
        None
    } else {
        after_bytes(s.drop_first(), n - utf8_width(s[0]))
    }
}

fn width_of(c: char) -> (r: usize)
    ensures
        r == utf8_width(c),
{
    if c <= '\u{7f}' {
        1
    } else if c <= '\u{7ff}' {
        2
    } else if c <= '\u{ffff}' {
        3
    } else {
        4
    }
}

/// What follows the first `n` bytes of a text, where a character ends there.
pub fn text_after_bytes(s: &str, n: usize) -> (r: Option<String>)
    ensures
        match r {
            Some(rest) => after_bytes(s@, n as int) == Some(rest@),
            None => after_bytes(s@, n as int) is None,
        },
{
    let chars = text::chars_of(s);
    let mut at: usize = 0;
    let mut left: usize = n;
    assert(s@.skip(0) =~= s@);
    while left > 0
        invariant
            chars@ == s@,
            at <= chars@.len(),
            after_bytes(s@, n as int) == after_bytes(s@.skip(at as int), left as int),
        decreases left,
    {
        if at == chars.len() {
            return None;
        }
        let width: usize = width_of(chars[at]);
        assert(s@.skip(at as int).drop_first() =~= s@.skip(at + 1));
        if width > left {
            assert(after_bytes(s@.skip(at + 1), left - width) is None);
            return None;
        }
        left = left - width;
        at = at + 1;
    }
    let mut rest = String::new();
    for i in at..chars.len()
        invariant
            chars@ == s@,
            at <= chars@.len(),
            rest@ == s@.subrange(at as int, i as int),
    {
        rest.push(chars[i]);
        assert(rest@ =~= s@.subrange(at as int, i + 1));
    }
    assert(s@.subrange(at as int, s@.len() as int) =~= s@.skip(at as int));
    Some(rest)
}

/// A character as it stands in an alias.
pub open spec fn alias_char(c: char) -> char {
    if text::is_ascii_alphanumeric(c) {
        text::ascii_lower(c)
    } else {
        '-'
    }
}

/// Texts with a separator between each two of them.
pub open spec fn joined(parts: Seq<Seq<char>>, separator: Seq<char>) -> Seq<char>
    decreases parts.len(),
{
    if parts.len() == 0 {
        Seq::empty()
    } else if parts.len() == 1 {
        parts[0]
    } else {
        joined(parts.drop_last(), separator) + separator + parts.last()
    }
}

/// Texts with a separator between each two of them.
pub fn join(parts: &Vec<String>, separator: &str) -> (r: String)
    ensures
        r@ == joined(text::views(parts@), separator@),
{
    let mut r = String::new();
    let ghost shown = text::views(parts@);
    for i in 0..parts.len()
        invariant
            shown == text::views(parts@),
            r@ == joined(shown.take(i as int), separator@),
    {
        assert(shown.take(i + 1).drop_last() =~= shown.take(i as int));
        assert(shown[i as int] == parts@[i as int]@);
        if i > 0 {
            r.append(separator);
        }
        r.append(parts[i].as_str());
        assert(r@ =~= joined(shown.take(i + 1), separator@));
    }
    assert(shown.take(parts@.len() as int) =~= shown);
    r
}

/// The words of an account's name in lower case with hyphens between them.
pub open spec fn alias_of(account_name: Seq<char>) -> Seq<char> {
    joined(
        text::non_empty(text::split_on(account_name.map_values(|c: char| alias_char(c)), '-')),
        "-"@,
    )
}

/// The alias that is suggested for an account: from its name, or from the end
/// of its number where the name holds no letter or digit.
pub open spec fn alias_for(account_name: Seq<char>, account_id: Seq<char>) -> Seq<char> {
    if alias_of(account_name).len() == 0 {
        "account-"@ + after_bytes(account_id, 8)->Some_0
    } else {
        alias_of(account_name)
    }
}

fn keep_non_empty(pieces: &Vec<String>) -> (r: Vec<String>)
    ensures
        text::views(r@) == text::non_empty(text::views(pieces@)),
{
    let mut r: Vec<String> = Vec::new();
    let ghost all = text::views(pieces@);
    for i in 0..pieces.len()
        invariant
            all == text::views(pieces@),
            text::views(r@) == text::non_empty(all.take(i as int)),
    {
        assert(all.take(i + 1).drop_last() =~= all.take(i as int));
        assert(all[i as int] == pieces@[i as int]@);
        if !pieces[i].as_str().is_empty() {
            let ghost before = text::views(r@);
            r.push(pieces[i].clone());
            assert(text::views(r@) =~= before.push(pieces@[i as int]@));
        }
    }
    assert(all.take(pieces@.len() as int) =~= all);
    r
}

/// The words of an account's name in lower case with hyphens between them.
pub fn name_alias(account_name: &str) -> (r: String)
    ensures
        r@ == alias_of(account_name@),
{
    let chars = text::chars_of(account_name);
    let ghost plain = account_name@.map_values(|c: char| alias_char(c));
    let mut mapped = String::new();
    for i in 0..chars.len()
        invariant
            chars@ == account_name@,
            plain == account_name@.map_values(|c: char| alias_char(c)),
            mapped@ == plain.take(i as int),
    {
        if text::char_is_ascii_alphanumeric(chars[i]) {
            mapped.push(text::char_ascii_lower(chars[i]));
        } else {
            mapped.push('-');
        }
        assert(mapped@ =~= plain.take(i + 1));
    }
    assert(plain.take(chars@.len() as int) =~= plain);
    let pieces = text::split_char(mapped.as_str(), '-');
    let kept = keep_non_empty(&pieces);
    join(&kept, "-")
}

/// The alias that is suggested for an account. The number of an account has at
/// least eight bytes.
pub fn suggested_alias(account_name: &str, account_id: &str) -> (r: String)
    requires
        alias_of(account_name@).len() == 0 ==> after_bytes(account_id@, 8) is Some,
    ensures
        r@ == alias_for(account_name@, account_id@),
{
    let alias = name_alias(account_name);
    if alias.as_str().is_empty() {
        match text_after_bytes(account_id, 8) {
            Some(end) => text::concat("account-", end.as_str()),
            None => alias,
        }
    } else {
        alias
    }
}

/// What the names of roles of a level tend to hold.
pub open spec fn keywords(level: AwsAccessLevel) -> Seq<Seq<char>> {
    match level {
        AwsAccessLevel::ReadOnly => seq![
            "readonly"@,
            "read-only"@,
            "viewonly"@,
            "view-only"@,
            "viewer"@,
            "audit"@,
        ],
        AwsAccessLevel::Admin => seq!["administrator"@, "admin"@],
    }
}

/// Whether the name of a role speaks of a level.
pub open spec fn speaks_of(role: Seq<char>, level: AwsAccessLevel) -> bool {
    exists|k: int|
        0 <= k < keywords(level).len() && text::has_part(
            text::lowered(role),
            #[trigger] keywords(level)[k],
        )
}

/// The test for roles whose name speaks of a level.
pub open spec fn suits(level: AwsAccessLevel) -> spec_fn(String) -> bool {
    |role: String| speaks_of(role@, level)
}

/// The role that is suggested for a level: the first whose name speaks of it,
/// or none.
pub open spec fn role_for(roles: Seq<String>, level: AwsAccessLevel) -> Seq<char> {
    match seqs::first_where(roles, suits(level)) {
        Some(role) => role@,
        None => Seq::empty(),
    }
}

fn role_speaks_of(role: &str, level: AwsAccessLevel) -> (r: bool)
    ensures
        r == speaks_of(role@, level),
{
    let lowered = text::to_lower(role);
    let name = lowered.as_str();
    let ghost words = keywords(level);
    match level {
        AwsAccessLevel::ReadOnly => {
            assert(words[0] == "readonly"@ && words[1] == "read-only"@ && words[2] == "viewonly"@
                && words[3] == "view-only"@ && words[4] == "viewer"@ && words[5] == "audit"@);
            text::contains_part(name, "readonly") || text::contains_part(name, "read-only")
                || text::contains_part(name, "viewonly") || text::contains_part(name, "view-only")
                || text::contains_part(name, "viewer") || text::contains_part(name, "audit")
        },
        AwsAccessLevel::Admin => {
            assert(words[0] == "administrator"@ && words[1] == "admin"@);
            text::contains_part(name, "administrator") || text::contains_part(name, "admin")
        },
    }
}

/// The role that is suggested for a level.
pub fn suggested_role(roles: &Vec<String>, level: AwsAccessLevel) -> (r: String)
    ensures
        r@ == role_for(roles@, level),
{
    let test = |role: &String| -> (b: bool)
        ensures
            b == speaks_of(role@, level),
        { role_speaks_of(role.as_str(), level) };
    match seqs::position(roles, test, Ghost(suits(level))) {
        Some(i) => roles[i].clone(),
        None => String::new(),
    }
}

/// How many units of `d` it takes to hold `n`.
pub open spec fn units(n: nat, d: nat) -> nat {
    (n + d - 1) as nat / d
}

fn units_of(n: u64, d: u64) -> (r: u64)
    requires
        d == 60 || d == 1_000,
    ensures
        r == units(n as nat, d as nat),
{
    let whole: u64 = n / d;
    if n % d == 0 {
        whole
    } else {
        whole + 1
    }
}

/// How far `later` lies after `earlier`, nothing where it does not.
pub open spec fn distance(later: u64, earlier: u64) -> nat {
    if later >= earlier {
        (later - earlier) as nat
    } else {
        0
    }
}

fn distance_of(later: u64, earlier: u64) -> (r: u64)
    ensures
        r == distance(later, earlier),
{
    if later >= earlier {
        later - earlier
    } else {
        0
    }
}

/// A time span in whole minutes, or in seconds where it is less than one.
pub open spec fn span(seconds: nat) -> Seq<char> {
    if seconds >= 60 {
        numeral::decimal(units(seconds, 60)) + "m"@
    } else {
        numeral::decimal(seconds) + "s"@
    }
}

fn span_text(seconds: u64) -> (r: String)
    ensures
        r@ == span(seconds as nat),
{
    if seconds >= 60 {
        let minutes = numeral::u64_text(units_of(seconds, 60));
        text::concat(minutes.as_str(), "m")
    } else {
        let count = numeral::u64_text(seconds);
        text::concat(count.as_str(), "s")
    }
}

/// The time that is left until a moment in milliseconds.
pub open spec fn until(timestamp: u64, now: u64) -> Seq<char> {
    span(units(distance(timestamp, now), 1_000))
}

pub fn duration_until_at(timestamp: u64, now: u64) -> (r: String)
    ensures
        r@ == until(timestamp, now),
{
    span_text(units_of(distance_of(timestamp, now), 1_000))
}

/// The time that is left until a moment in milliseconds.
pub fn duration_until(timestamp: u64) -> (r: String)
    ensures
        exists|now: u64| r@ == #[trigger] until(timestamp, now),
{
    duration_until_at(timestamp, clock::now_millis())
}

/// The time that is left until a moment in seconds.
pub open spec fn until_seconds(timestamp: u64, now: u64) -> Seq<char> {
    span(distance(timestamp, now))
}

pub fn duration_until_seconds_at(timestamp: u64, now: u64) -> (r: String)
    ensures
        r@ == until_seconds(timestamp, now),
{
    span_text(distance_of(timestamp, now))
}

/// The time that is left until a moment in seconds.
pub fn duration_until_seconds(timestamp: u64) -> (r: String)
    ensures
        exists|now: u64| r@ == #[trigger] until_seconds(timestamp, now),
{
    duration_until_seconds_at(timestamp, clock::now_seconds())
}

/// How long ago a moment in milliseconds was.
pub open spec fn since(timestamp: u64, now: u64) -> Seq<char> {
    let seconds = units(distance(now, timestamp), 1_000);
    if seconds < 10 {
        "just now"@
    } else if seconds < 60 {
        numeral::decimal(seconds) + "s ago"@
    } else {
        numeral::decimal(seconds / 60) + "m ago"@
    }
}

pub fn duration_since_at(timestamp: u64, now: u64) -> (r: String)
    ensures
        r@ == since(timestamp, now),
{
    let seconds: u64 = units_of(distance_of(now, timestamp), 1_000);
    if seconds < 10 {
        "just now".to_owned()
    } else if seconds < 60 {
        let count = numeral::u64_text(seconds);
        text::concat(count.as_str(), "s ago")
    } else {
        let minutes = numeral::u64_text(seconds / 60);
        text::concat(minutes.as_str(), "m ago")
    }
}

/// How long ago a moment in milliseconds was.
pub fn duration_since(timestamp: u64) -> (r: String)
    ensures
        exists|now: u64| r@ == #[trigger] since(timestamp, now),
{
    duration_since_at(timestamp, clock::now_millis())
}

/// The words for what happened.
pub open spec fn action_label(action: AuditAction) -> Seq<char> {
    match action {
        AuditAction::AllowedOnce => "Allowed once"@,
        AuditAction::GrantedTemporarily => "Access granted"@,
        AuditAction::AutoGranted => "Automatically released"@,
        AuditAction::Denied => "Request denied"@,
        AuditAction::TimedOut => "Request timed out"@,
        AuditAction::Revoked => "Access revoked"@,
        AuditAction::Unblocked => "Requests unblocked"@,
    }
}

pub fn audit_label(action: AuditAction) -> (r: &'static str)
    ensures
        r@ == action_label(action),
{
    match action {
        AuditAction::AllowedOnce => "Allowed once",
        AuditAction::GrantedTemporarily => "Access granted",
        AuditAction::AutoGranted => "Automatically released",
        AuditAction::Denied => "Request denied",
        AuditAction::TimedOut => "Request timed out",
        AuditAction::Revoked => "Access revoked",
        AuditAction::Unblocked => "Requests unblocked",
    }
}

} // verus!
