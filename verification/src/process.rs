//! Processes, the lineage of a request, and what the system reports of both.

use vstd::prelude::*;

use crate::numeral;
use crate::text;

verus! {

/// What is known of one process. Two looks at the same process may differ in
/// the parent and the command line; see `same_process`.
#[derive(Debug, PartialEq, Eq)]
pub struct ProcessIdentity {
    pub pid: u32,
    pub ppid: u32,
    pub started_at: String,
    pub executable: String,
    pub command: String,
}

impl Clone for ProcessIdentity {
    fn clone(&self) -> (r: Self)
        ensures
            r == *self,
    {
        ProcessIdentity {
            pid: self.pid,
            ppid: self.ppid,
            started_at: self.started_at.clone(),
            executable: self.executable.clone(),
            command: self.command.clone(),
        }
    }
}

/// A copy of a list of processes.
pub fn copied(processes: &Vec<ProcessIdentity>) -> (r: Vec<ProcessIdentity>)
    ensures
        r@ == processes@,
{
    let r = processes.clone();
    assert(r@ =~= processes@);
    r
}

/// Whether two identities are of one process: the number, the start time and
/// the executable agree.
pub open spec fn is_same(left: ProcessIdentity, right: ProcessIdentity) -> bool {
    &&& left.pid == right.pid
    &&& left.started_at@ == right.started_at@
    &&& left.executable@ == right.executable@
}

pub fn same_process(left: &ProcessIdentity, right: &ProcessIdentity) -> (r: bool)
    ensures
        r == is_same(*left, *right),
{
    left.pid == right.pid && left.started_at == right.started_at && left.executable
        == right.executable
}

/// Being the same process is an equivalence.
pub proof fn same_process_is_an_equivalence(
    a: ProcessIdentity,
    b: ProcessIdentity,
    c: ProcessIdentity,
)
    ensures
        is_same(a, a),
        is_same(a, b) == is_same(b, a),
        is_same(a, b) && is_same(b, c) ==> is_same(a, c),
{
}

/// The last component of a path with either kind of slash, in lower case.
pub open spec fn file_name(path: Seq<char>) -> Seq<char> {
    text::lowered(text::after_last(text::replaced(path, '\\', '/'), '/'))
}

fn path_file_name(path: &str) -> (r: String)
    ensures
        r@ == file_name(path@),
{
    let slashes = text::replace_char(path, '\\', '/');
    let last = text::last_piece(slashes.as_str(), '/');
    text::to_lower(last.as_str())
}

/// The name of the program that a command line starts with.
pub open spec fn invoked_name(command: Seq<char>) -> Seq<char> {
    text::lowered(
        text::after_last(
            text::first_word(text::replaced(text::trimmed(command), '\\', '/')),
            '/',
        ),
    )
}

/// Whether a process is the macOS service manager, which starts every program
/// and therefore bounds nothing.
pub open spec fn is_launchd(process: ProcessIdentity) -> bool {
    file_name(process.executable@) == "launchd"@ || invoked_name(process.command@) == "launchd"@
}

pub fn is_launchd_process(process: &ProcessIdentity) -> (r: bool)
    ensures
        r == is_launchd(*process),
{
    let executable = path_file_name(process.executable.as_str());
    let trimmed = text::trim(process.command.as_str());
    let slashes = text::replace_char(trimmed.as_str(), '\\', '/');
    let word = text::leading_word(slashes.as_str());
    let last = text::last_piece(word.as_str(), '/');
    let invoked = text::to_lower(last.as_str());
    text::str_eq(executable.as_str(), "launchd") || text::str_eq(invoked.as_str(), "launchd")
}

/// A command line as it is searched: trimmed, with forward slashes, in lower
/// case.
pub open spec fn plain_command(command: Seq<char>) -> Seq<char> {
    text::lowered(text::replaced(text::trimmed(command), '\\', '/'))
}

/// Whether a process is the command-line client itself, compiled or run from
/// its sources.
pub open spec fn is_client(process: ProcessIdentity) -> bool {
    let command = plain_command(process.command@);
    let executable = file_name(process.executable@);
    ||| executable == "secretd"@
    ||| text::after_last(text::first_word(command), '/') == "secretd"@
    ||| executable == "deno"@ && (text::has_part(command, "deno task cli"@) || text::has_part(
        command,
        "src/cli/main.ts"@,
    ))
}

pub fn is_secretd_client_process(process: &ProcessIdentity) -> (r: bool)
    ensures
        r == is_client(*process),
{
    let trimmed = text::trim(process.command.as_str());
    let slashes = text::replace_char(trimmed.as_str(), '\\', '/');
    let command = text::to_lower(slashes.as_str());
    let executable = path_file_name(process.executable.as_str());
    let word = text::leading_word(command.as_str());
    let invoked = text::last_piece(word.as_str(), '/');
    if text::str_eq(executable.as_str(), "secretd") || text::str_eq(invoked.as_str(), "secretd") {
        return true;
    }
    text::str_eq(executable.as_str(), "deno") && (text::contains_part(
        command.as_str(),
        "deno task cli",
    ) || text::contains_part(command.as_str(), "src/cli/main.ts"))
}

/// A lineage without the client processes at its near end.
pub open spec fn without_clients(tree: Seq<ProcessIdentity>) -> Seq<ProcessIdentity>
    decreases tree.len(),
{
    if tree.len() > 0 && is_client(tree[0]) {
        without_clients(tree.skip(1))
    } else {
        tree
    }
}

pub fn omit_secretd_client_processes(tree: &Vec<ProcessIdentity>) -> (r: Vec<ProcessIdentity>)
    ensures
        r@ == without_clients(tree@),
{
    let n: usize = tree.len();
    let mut start: usize = 0;
    assert(tree@.skip(0) =~= tree@);
    while start < n && is_secretd_client_process(&tree[start])
        invariant
            n == tree@.len(),
            start <= n,
            without_clients(tree@) == without_clients(tree@.skip(start as int)),
        decreases n - start,
    {
        assert(tree@.skip(start as int).skip(1) =~= tree@.skip(start + 1));
        start = start + 1;
    }
    let mut r: Vec<ProcessIdentity> = Vec::new();
    for i in start..n
        invariant
            n == tree@.len(),
            start <= n,
            r@ == tree@.subrange(start as int, i as int),
    {
        r.push(tree[i].clone());
    }
    assert(r@ =~= tree@.skip(start as int));
    r
}

/// What is left never starts with a client, and leaving clients out again
/// changes nothing.
pub proof fn clients_are_left_out_once(tree: Seq<ProcessIdentity>)
    ensures
        without_clients(tree).len() > 0 ==> !is_client(without_clients(tree)[0]),
        without_clients(without_clients(tree)) == without_clients(tree),
        exists|n: int| 0 <= n <= tree.len() && without_clients(tree) == #[trigger] tree.skip(n),
    decreases tree.len(),
{
    if tree.len() > 0 && is_client(tree[0]) {
        clients_are_left_out_once(tree.skip(1));
        let n = choose|n: int|
            0 <= n <= tree.skip(1).len() && without_clients(tree.skip(1)) == #[trigger] tree.skip(
                1,
            ).skip(n);
        assert(tree.skip(1).skip(n) =~= tree.skip(n + 1));
    } else {
        assert(tree.skip(0) =~= tree);
    }
}

/// The process number that is looked up for position `i` of a lineage: the one
/// asked for, then the parent of each process found.
pub open spec fn asked(pid: u32, tree: Seq<ProcessIdentity>, i: int) -> u32 {
    if i == 0 {
        pid
    } else {
        tree[i - 1].ppid
    }
}

/// Whether `tree` is what following parents from `pid` finds: each process was
/// reported for the number asked for, and no number was asked for twice.
pub open spec fn is_lineage<F: Fn(u32) -> Result<Option<ProcessIdentity>, String>>(
    inspect: F,
    pid: u32,
    tree: Seq<ProcessIdentity>,
) -> bool {
    &&& forall|i: int|
        0 <= i < tree.len() ==> {
            &&& #[trigger] asked(pid, tree, i) > 0
            &&& call_ensures(inspect, (asked(pid, tree, i),), Ok(Some(tree[i])))
        }
    &&& forall|i: int, j: int|
        0 <= i < j < tree.len() ==> #[trigger] asked(pid, tree, i) != #[trigger] asked(pid, tree, j)
}

/// Whether a lineage cannot be followed further: no parent, one already seen,
/// or one that is not reported.
pub open spec fn lineage_ends<F: Fn(u32) -> Result<Option<ProcessIdentity>, String>>(
    inspect: F,
    pid: u32,
    tree: Seq<ProcessIdentity>,
) -> bool {
    let next = asked(pid, tree, tree.len() as int);
    ||| next == 0
    ||| exists|i: int| 0 <= i < tree.len() && #[trigger] asked(pid, tree, i) == next
    ||| call_ensures(inspect, (next,), Ok(None))
}

fn holds(numbers: &Vec<u32>, number: u32) -> (r: bool)
    ensures
        r == numbers@.contains(number),
{
    for i in 0..numbers.len()
        invariant
            forall|j: int| 0 <= j < i ==> numbers@[j] != number,
    {
        if numbers[i] == number {
            assert(numbers@[i as int] == number);
            return true;
        }
    }
    false
}

/// The process `pid` and its ancestors, at most `limit` of them, as `inspect`
/// reports each.
pub fn inspect_process_tree<F: Fn(u32) -> Result<Option<ProcessIdentity>, String>>(
    pid: u32,
    limit: usize,
    inspect: &F,
) -> (r: Result<Vec<ProcessIdentity>, String>)
    requires
        forall|number: u32| call_requires(*inspect, (number,)),
    ensures
        match r {
            Ok(tree) => {
                &&& pid != 0
                &&& is_lineage(*inspect, pid, tree@)
                &&& tree@.len() <= limit
                &&& tree@.len() == limit || lineage_ends(*inspect, pid, tree@)
            },
            Err(error) => {
                ||| pid == 0 && error@ == "Invalid process ID"@
                ||| pid != 0 && exists|tree: Seq<ProcessIdentity>|
                    #![trigger is_lineage(*inspect, pid, tree)]
                    is_lineage(*inspect, pid, tree) && tree.len() < limit && call_ensures(
                        *inspect,
                        (asked(pid, tree, tree.len() as int),),
                        Err(error),
                    )
            },
        },
{
    if pid == 0 {
        return Err("Invalid process ID".to_owned());
    }
    let mut result: Vec<ProcessIdentity> = Vec::new();
    let mut visited: Vec<u32> = Vec::new();
    let mut current: u32 = pid;
    while current > 0 && result.len() < limit && !holds(&visited, current)
        invariant
            pid != 0,
            forall|number: u32| call_requires(*inspect, (number,)),
            is_lineage(*inspect, pid, result@),
            result@.len() <= limit,
            current == asked(pid, result@, result@.len() as int),
            visited@.len() == result@.len(),
            forall|i: int|
                0 <= i < result@.len() ==> #[trigger] visited@[i] == asked(pid, result@, i),
        decreases limit - result.len(),
    {
        let ghost before = result@;
        match (*inspect)(current) {
            Err(error) => {
                return Err(error);
            },
            Ok(None) => {
                return Ok(result);
            },
            Ok(Some(identity)) => {
                let parent: u32 = identity.ppid;
                let ghost found = identity;
                visited.push(current);
                result.push(identity);
                proof {
                    let tree = before.push(found);
                    assert(result@ =~= tree);
                    assert forall|i: int| 0 <= i <= before.len() implies #[trigger] asked(
                        pid,
                        tree,
                        i,
                    ) == asked(pid, before, i) by {}
                    assert forall|i: int, j: int| 0 <= i < j < tree.len() implies #[trigger] asked(
                        pid,
                        tree,
                        i,
                    ) != #[trigger] asked(pid, tree, j) by {
                        if j == before.len() {
                            assert(visited@[i] == asked(pid, before, i));
                        } else {
                            assert(asked(pid, before, i) != asked(pid, before, j));
                        }
                    }
                }
                current = parent;
            },
        }
    }
    proof {
        if current > 0 && result@.len() < limit {
            let i = visited@.index_of(current);
            assert(visited@[i] == current);
            assert(asked(pid, result@, i) == current);
        }
    }
    Ok(result)
}

/// Whether a report says that `process` still runs: the process now under its
/// number is the same one.
pub open spec fn runs_by(
    report: Result<Option<ProcessIdentity>, String>,
    process: ProcessIdentity,
) -> bool {
    match report {
        Ok(Some(current)) => is_same(current, process),
        _ => false,
    }
}

pub fn still_runs(
    report: &Result<Option<ProcessIdentity>, String>,
    process: &ProcessIdentity,
) -> (r: bool)
    ensures
        r == runs_by(*report, *process),
{
    match report {
        Ok(Some(current)) => same_process(current, process),
        _ => false,
    }
}

/// Whether `process` still runs, as `inspect` reports its number.
pub fn process_is_alive<F: Fn(u32) -> Result<Option<ProcessIdentity>, String>>(
    process: &ProcessIdentity,
    inspect: &F,
) -> (r: bool)
    requires
        call_requires(*inspect, (process.pid,)),
    ensures
        exists|report: Result<Option<ProcessIdentity>, String>|
            #![trigger runs_by(report, *process)]
            call_ensures(*inspect, (process.pid,), report) && r == runs_by(report, *process),
{
    let report = (*inspect)(process.pid);
    still_runs(&report, process)
}

/// The words that follow the program's name in a Linux process status line;
/// the name stands in parentheses and may hold any character.
pub open spec fn stat_fields(stat: Seq<char>) -> Option<Seq<Seq<char>>> {
    if stat.contains(')') {
        Some(text::words(text::after_last(stat, ')')))
    } else {
        None
    }
}

/// The parent and the start time in a Linux process status line.
pub open spec fn stat_parent_and_start(stat: Seq<char>) -> Option<(u32, Seq<char>)> {
    match stat_fields(stat) {
        Some(fields) => if fields.len() > 19 {
            match numeral::parsed_u32(fields[1]) {
                Some(ppid) => Some((ppid, fields[19])),
                None => None,
            }
        } else {
            None
        },
        None => None,
    }
}

fn parse_stat(stat: &str) -> (r: Option<(u32, String)>)
    ensures
        match r {
            Some((ppid, started_at)) => stat_parent_and_start(stat@) == Some(
                (ppid, started_at@),
            ),
            None => stat_parent_and_start(stat@) is None,
        },
{
    if !text::contains_char(stat, ')') {
        return None;
    }
    let rest = text::last_piece(stat, ')');
    let fields = text::split_words(rest.as_str());
    if fields.len() <= 19 {
        return None;
    }
    assert(text::views(fields@)[1] == fields@[1]@);
    assert(text::views(fields@)[19] == fields@[19]@);
    match numeral::parse_u32(fields[1].as_str()) {
        Some(ppid) => Some((ppid, fields[19].clone())),
        None => None,
    }
}

/// The command line of a Linux process: its arguments are separated by zero
/// bytes.
pub open spec fn command_line(bytes: Seq<u8>) -> Seq<char> {
    text::trimmed(text::replaced(text::utf8_lossy(bytes), '\0', ' '))
}

/// What the Linux process file system says of a process: its status line (none
/// where there is no such process or it may not be seen), the target of its
/// executable link, and its raw command line.
pub fn linux_process(
    pid: u32,
    stat: Result<Option<String>, String>,
    executable: Option<String>,
    cmdline: Option<Vec<u8>>,
) -> (r: Result<Option<ProcessIdentity>, String>)
    ensures
        match stat {
            Err(error) => r == Err::<Option<ProcessIdentity>, String>(error),
            Ok(None) => r == Ok::<Option<ProcessIdentity>, String>(None),
            Ok(Some(line)) => match (stat_parent_and_start(line@), executable) {
                (Some((ppid, started_at)), Some(path)) => {
                    &&& r matches Ok(Some(identity))
                    &&& identity.pid == pid
                    &&& identity.ppid == ppid
                    &&& identity.started_at@ == started_at
                    &&& identity.executable@ == path@
                    &&& identity.command@ == match cmdline {
                        Some(bytes) => command_line(bytes@),
                        None => path@,
                    }
                },
                _ => r == Ok::<Option<ProcessIdentity>, String>(None),
            },
        },
{
    let line = match stat {
        Err(error) => {
            return Err(error);
        },
        Ok(None) => {
            return Ok(None);
        },
        Ok(Some(line)) => line,
    };
    match (parse_stat(line.as_str()), executable) {
        (Some((ppid, started_at)), Some(executable)) => {
            let command = match cmdline {
                Some(bytes) => {
                    let lossy = text::lossy_text(bytes.as_slice());
                    let spaced = text::replace_char(lossy.as_str(), '\0', ' ');
                    text::trim(spaced.as_str())
                },
                None => executable.clone(),
            };
            Ok(Some(ProcessIdentity { pid, ppid, started_at, executable, command }))
        },
        _ => Ok(None),
    }
}

/// Whether a report is a text, not an error and not an absence.
pub open spec fn is_text(report: Result<Option<String>, String>) -> bool {
    report matches Ok(Some(_))
}

/// What the macOS process listing says of a process: the outputs for its
/// parent, start time, executable and command line, each absent where the
/// process is not listed.
pub fn macos_process(
    pid: u32,
    ppid: Result<Option<String>, String>,
    started_at: Result<Option<String>, String>,
    executable: Result<Option<String>, String>,
    command: Result<Option<String>, String>,
) -> (r: Result<Option<ProcessIdentity>, String>)
    ensures
        !is_text(ppid) ==> match ppid {
            Err(error) => r == Err::<Option<ProcessIdentity>, String>(error),
            _ => r == Ok::<Option<ProcessIdentity>, String>(None),
        },
        is_text(ppid) && !is_text(started_at) ==> match started_at {
            Err(error) => r == Err::<Option<ProcessIdentity>, String>(error),
            _ => r == Ok::<Option<ProcessIdentity>, String>(None),
        },
        is_text(ppid) && is_text(started_at) && !is_text(executable) ==> match executable {
            Err(error) => r == Err::<Option<ProcessIdentity>, String>(error),
            _ => r == Ok::<Option<ProcessIdentity>, String>(None),
        },
        is_text(ppid) && is_text(started_at) && is_text(executable) && !is_text(
            command,
        ) ==> match command {
            Err(error) => r == Err::<Option<ProcessIdentity>, String>(error),
            _ => r == Ok::<Option<ProcessIdentity>, String>(None),
        },
        is_text(ppid) && is_text(started_at) && is_text(executable) && is_text(
            command,
        ) ==> match numeral::parsed_u32(text::trimmed(ppid->Ok_0->Some_0@)) {
            None => r == Ok::<Option<ProcessIdentity>, String>(None),
            Some(parent) => {
                &&& r matches Ok(Some(identity))
                &&& identity.pid == pid
                &&& identity.ppid == parent
                &&& identity.started_at@ == text::trimmed(started_at->Ok_0->Some_0@)
                &&& identity.executable@ == text::trimmed(executable->Ok_0->Some_0@)
                &&& identity.command@ == text::trimmed(command->Ok_0->Some_0@)
            },
        },
{
    let ppid = match ppid {
        Err(error) => {
            return Err(error);
        },
        Ok(None) => {
            return Ok(None);
        },
        Ok(Some(value)) => value,
    };
    let started_at = match started_at {
        Err(error) => {
            return Err(error);
        },
        Ok(None) => {
            return Ok(None);
        },
        Ok(Some(value)) => value,
    };
    let executable = match executable {
        Err(error) => {
            return Err(error);
        },
        Ok(None) => {
            return Ok(None);
        },
        Ok(Some(value)) => value,
    };
    let command = match command {
        Err(error) => {
            return Err(error);
        },
        Ok(None) => {
            return Ok(None);
        },
        Ok(Some(value)) => value,
    };
    match numeral::parse_u32(text::trim(ppid.as_str()).as_str()) {
        None => Ok(None),
        Some(parent) => Ok(
            Some(
                ProcessIdentity {
                    pid,
                    ppid: parent,
                    started_at: text::trim(started_at.as_str()),
                    executable: text::trim(executable.as_str()),
                    command: text::trim(command.as_str()),
                },
            ),
        ),
    }
}

/// The loopback address and a port, as the Linux connection table writes them.
pub open spec fn loopback_entry(port: u16) -> Seq<char> {
    "0100007F:"@ + numeral::hex4(port)
}

/// Whether a line of the connection table is the established connection
/// between two ports of the loopback address.
pub open spec fn is_connection(line: Seq<char>, client_port: u16, server_port: u16) -> bool {
    let fields = text::words(line);
    &&& fields.len() >= 10
    &&& fields[1] == loopback_entry(client_port)
    &&& fields[2] == loopback_entry(server_port)
    &&& fields[3] == "01"@
}

/// The socket number of the first such line.
pub open spec fn socket_number(
    lines: Seq<Seq<char>>,
    client_port: u16,
    server_port: u16,
) -> Option<Seq<char>>
    decreases lines.len(),
{
    if lines.len() == 0 {
        None
    } else if is_connection(lines[0], client_port, server_port) {
        Some(text::words(lines[0])[9])
    } else {
        socket_number(lines.skip(1), client_port, server_port)
    }
}

/// The lines below the first, which holds the titles.
pub open spec fn after_header(lines: Seq<Seq<char>>) -> Seq<Seq<char>> {
    if lines.len() == 0 {
        lines
    } else {
        lines.skip(1)
    }
}

fn find_socket(table: &str, client_port: u16, server_port: u16) -> (r: Option<String>)
    ensures
        match r {
            Some(number) => socket_number(
                after_header(text::lines(table@)),
                client_port,
                server_port,
            ) == Some(number@),
            None => socket_number(after_header(text::lines(table@)), client_port, server_port) is None,
        },
{
    let lines = text::split_lines(table);
    let ghost all = text::lines(table@);
    let local = text::concat("0100007F:", numeral::u16_hex(client_port).as_str());
    let remote = text::concat("0100007F:", numeral::u16_hex(server_port).as_str());
    let n: usize = lines.len();
    if n == 0 {
        return None;
    }
    for i in 1..n
        invariant
            n == lines@.len(),
            n > 0,
            all == text::lines(table@),
            all == text::views(lines@),
            local@ == loopback_entry(client_port),
            remote@ == loopback_entry(server_port),
            socket_number(all.skip(1), client_port, server_port) == socket_number(
                all.skip(i as int),
                client_port,
                server_port,
            ),
    {
        assert(all.skip(i as int).skip(1) =~= all.skip(i + 1));
        assert(all.skip(i as int)[0] == lines@[i as int]@);
        let fields = text::split_words(lines[i].as_str());
        if fields.len() >= 10 {
            assert(text::views(fields@)[1] == fields@[1]@);
            assert(text::views(fields@)[2] == fields@[2]@);
            assert(text::views(fields@)[3] == fields@[3]@);
            assert(text::views(fields@)[9] == fields@[9]@);
            if text::str_eq(fields[1].as_str(), local.as_str()) && text::str_eq(
                fields[2].as_str(),
                remote.as_str(),
            ) && text::str_eq(fields[3].as_str(), "01") {
                return Some(fields[9].clone());
            }
        }
    }
    assert(all.skip(n as int).len() == 0);
    None
}

/// How a link to a socket is written.
pub open spec fn socket_link(number: Seq<char>) -> Seq<char> {
    "socket:["@ + number + "]"@
}

/// Whether the connection table names a socket for the connection, and one of
/// the process's open files is that socket. Either report may be missing.
pub fn linux_owns_connection(
    table: Option<String>,
    client_port: u16,
    server_port: u16,
    open_files: Option<Vec<String>>,
) -> (r: bool)
    ensures
        r == match (table, open_files) {
            (Some(table), Some(files)) => match socket_number(
                after_header(text::lines(table@)),
                client_port,
                server_port,
            ) {
                Some(number) => text::views(files@).contains(socket_link(number)),
                None => false,
            },
            _ => false,
        },
{
    match (table, open_files) {
        (Some(table), Some(files)) => match find_socket(table.as_str(), client_port, server_port) {
            Some(number) => {
                let opened = text::concat("socket:[", number.as_str());
                let wanted = text::concat(opened.as_str(), "]");
                text::contains_text(&files, wanted.as_str())
            },
            None => false,
        },
        _ => false,
    }
}

/// How the macOS open-files listing writes the connection between two ports of
/// the loopback address.
pub open spec fn loopback_pair(client_port: u16, server_port: u16) -> Seq<char> {
    "127.0.0.1:"@ + numeral::decimal(client_port as nat) + "->127.0.0.1:"@ + numeral::decimal(
        server_port as nat,
    )
}

/// Whether some name line of the open-files listing holds the connection.
pub open spec fn lists_connection(
    lines: Seq<Seq<char>>,
    client_port: u16,
    server_port: u16,
) -> bool {
    exists|i: int|
        0 <= i < lines.len() && "n"@.is_prefix_of(#[trigger] lines[i]) && text::has_part(
            lines[i],
            loopback_pair(client_port, server_port),
        )
}

fn find_connection(listing: &str, client_port: u16, server_port: u16) -> (r: bool)
    ensures
        r == lists_connection(text::lines(listing@), client_port, server_port),
{
    let lines = text::split_lines(listing);
    let ghost all = text::lines(listing@);
    let client = text::concat("127.0.0.1:", numeral::u64_text(client_port as u64).as_str());
    let arrow = text::concat(client.as_str(), "->127.0.0.1:");
    let wanted = text::concat(arrow.as_str(), numeral::u64_text(server_port as u64).as_str());
    for i in 0..lines.len()
        invariant
            all == text::lines(listing@),
            all == text::views(lines@),
            wanted@ == loopback_pair(client_port, server_port),
            forall|j: int|
                0 <= j < i ==> !("n"@.is_prefix_of(#[trigger] all[j]) && text::has_part(
                    all[j],
                    wanted@,
                )),
    {
        assert(all[i as int] == lines@[i as int]@);
        if text::starts_with(lines[i].as_str(), "n") && text::contains_part(
            lines[i].as_str(),
            wanted.as_str(),
        ) {
            return true;
        }
    }
    false
}

/// Whether the open-files listing of a process, which may be missing, holds
/// the connection between two ports of the loopback address.
pub fn macos_owns_connection(listing: Option<String>, client_port: u16, server_port: u16) -> (r:
    bool)
    ensures
        r == match listing {
            Some(listing) => lists_connection(
                text::lines(listing@),
                client_port,
                server_port,
            ),
            None => false,
        },
{
    match listing {
        Some(listing) => find_connection(listing.as_str(), client_port, server_port),
        None => false,
    }
}

/// Whether the process `pid` holds the other end of a connection whose ports
/// are known: `owns` is asked about the peer's port and our own. Nothing is
/// asked where a port is unknown.
pub fn verify_connection_owner<F: Fn(u32, u16, u16) -> bool>(
    pid: u32,
    local_port: Option<u16>,
    peer_port: Option<u16>,
    owns: &F,
) -> (r: bool)
    requires
        forall|client: u16, server: u16| call_requires(*owns, (pid, client, server)),
    ensures
        match (local_port, peer_port) {
            (Some(local), Some(peer)) => call_ensures(*owns, (pid, peer, local), r),
            _ => !r,
        },
{
    match (local_port, peer_port) {
        (Some(local), Some(peer)) => (*owns)(pid, peer, local),
        _ => false,
    }
}

} // verus!
