//! How processes are told apart, recognized and looked up, stated over what is
//! reported of them.

use vstd::prelude::*;

use crate::numeral;
use crate::process;
use crate::process::ProcessIdentity;
use crate::text;
use crate::text_laws;

verus! {

/// Two looks at one process may differ in the parent and the command line;
/// another number, another start or another executable is another process.
pub proof fn processes_are_told_apart(a: ProcessIdentity, b: ProcessIdentity)
    ensures
        a.pid != b.pid ==> !process::is_same(a, b),
        a.started_at@ != b.started_at@ ==> !process::is_same(a, b),
        a.executable@ != b.executable@ ==> !process::is_same(a, b),
        b == (ProcessIdentity { ppid: b.ppid, command: b.command, ..a }) ==> process::is_same(
            a,
            b,
        ),
        a.pid == b.pid && a.started_at@ == b.started_at@ && a.executable@ == b.executable@
            ==> process::is_same(a, b),
{
}

proof fn last_name(front: Seq<char>, name: Seq<char>)
    requires
        front.len() == 0 || front.last() == '/' || front.last() == '\\',
        !name.contains('/'),
        !name.contains('\\'),
    ensures
        text::after_last(text::replaced(front + name, '\\', '/'), '/') == name,
{
    let all = text::replaced(front + name, '\\', '/');
    assert forall|i: int| 0 <= i < name.len() implies name[i] != '/' && name[i] != '\\' by {
        assert(name.contains(name[i]));
    }
    if front.len() == 0 {
        assert(all =~= name);
        text_laws::the_last_piece_follows_the_last_separator(Seq::empty(), '/', name);
    } else {
        let before = all.subrange(0, front.len() - 1);
        assert(all =~= before.push('/') + name);
        text_laws::the_last_piece_follows_the_last_separator(before, '/', name);
    }
}

proof fn leading(first: Seq<char>, rest: Seq<char>)
    requires
        first.len() > 0,
        forall|i: int| 0 <= i < first.len() ==> !text::is_whitespace(#[trigger] first[i]),
        rest.len() == 0 || text::is_whitespace(rest[0]),
    ensures
        text::first_word(first + rest) == first,
{
    if rest.len() == 0 {
        assert(first + rest =~= first);
        text_laws::white_space_parts_words(first, ' ', rest);
    } else {
        let behind = rest.skip(1);
        assert(first + rest =~= first.push(rest[0]) + behind);
        text_laws::white_space_parts_words(first, rest[0], behind);
    }
}

/// Whether a path ends in a name, alone or behind a slash of either kind.
pub open spec fn ends_in(path: Seq<char>, front: Seq<char>, name: Seq<char>) -> bool {
    &&& path == front + name
    &&& front.len() == 0 || front.last() == '/' || front.last() == '\\'
    &&& !name.contains('/')
    &&& !name.contains('\\')
}

/// Whether a command line starts with a word.
pub open spec fn starts_in(command: Seq<char>, word: Seq<char>, rest: Seq<char>) -> bool {
    &&& text::trimmed(command) == word + rest
    &&& word.len() > 0
    &&& forall|i: int| 0 <= i < word.len() ==> !text::is_whitespace(#[trigger] word[i])
    &&& rest.len() == 0 || text::is_whitespace(rest[0])
}

proof fn names(
    process: ProcessIdentity,
    front: Seq<char>,
    name: Seq<char>,
    word: Seq<char>,
    rest: Seq<char>,
    word_front: Seq<char>,
    word_name: Seq<char>,
)
    requires
        ends_in(process.executable@, front, name),
        starts_in(process.command@, word, rest),
        ends_in(word, word_front, word_name),
    ensures
        process::file_name(process.executable@) == text::lowered(name),
        process::invoked_name(process.command@) == text::lowered(word_name),
        text::after_last(text::first_word(process::plain_command(process.command@)), '/')
            == text::lowered(word_name),
{
    last_name(front, name);
    last_name(word_front, word_name);
    let trimmed = text::trimmed(process.command@);
    let plain = text::replaced(trimmed, '\\', '/');
    let plain_word = text::replaced(word, '\\', '/');
    let plain_rest = text::replaced(rest, '\\', '/');
    assert(plain =~= plain_word + plain_rest);
    assert forall|i: int| 0 <= i < plain_word.len() implies !text::is_whitespace(
        #[trigger] plain_word[i],
    ) by {
        assert(!text::is_whitespace(word[i]));
    }
    leading(plain_word, plain_rest);
    let low = text::lowered(plain);
    let low_word = text::lowered(plain_word);
    let low_rest = text::lowered(plain_rest);
    assert(low =~= low_word + low_rest);
    text_laws::lowering_changes_ascii_capitals(plain_word);
    text_laws::lowering_changes_ascii_capitals(plain_rest);
    assert forall|i: int| 0 <= i < low_word.len() implies !text::is_whitespace(
        #[trigger] low_word[i],
    ) by {
        assert(!text::is_whitespace(plain_word[i]));
    }
    leading(low_word, low_rest);
    let low_name = text::lowered(word_name);
    text_laws::lowering_changes_ascii_capitals(word_name);
    assert forall|i: int| 0 <= i < word_name.len() implies low_name[i] != '/' && low_name[i]
        != '\\' by {
        assert(word_name.contains(word_name[i]));
    }
    assert(!low_name.contains('/'));
    assert(!low_name.contains('\\'));
    let low_front = text::lowered(text::replaced(word_front, '\\', '/'));
    assert(low_word =~= low_front + low_name) by {
        assert forall|i: int| 0 <= i < word_name.len() implies word_name[i] != '\\' by {
            assert(word_name.contains(word_name[i]));
        }
    }
    if word_front.len() > 0 {
        let last = word_front.len() - 1;
        assert(text::replaced(word_front, '\\', '/')[last] == '/');
        assert(low_front.last() == '/');
        assert(low_word =~= low_front.drop_last().push('/') + low_name);
        text_laws::the_last_piece_follows_the_last_separator(
            low_front.drop_last(),
            '/',
            low_name,
        );
    } else {
        assert(low_word =~= low_name);
        text_laws::the_last_piece_follows_the_last_separator(Seq::empty(), '/', low_name);
    }
}

/// The service manager is recognized by the name of its executable or of the
/// program that its command line starts with, in any case and in any directory;
/// no other process is.
pub proof fn the_service_manager_is_recognized(
    process: ProcessIdentity,
    front: Seq<char>,
    name: Seq<char>,
    word: Seq<char>,
    rest: Seq<char>,
    word_front: Seq<char>,
    word_name: Seq<char>,
)
    requires
        ends_in(process.executable@, front, name),
        starts_in(process.command@, word, rest),
        ends_in(word, word_front, word_name),
    ensures
        process::is_launchd(process) <==> text::lowered(name) == "launchd"@ || text::lowered(
            word_name,
        ) == "launchd"@,
{
    names(process, front, name, word, rest, word_front, word_name);
}

/// The client is recognized by its own name, or as the script that is run from
/// its sources; no other process is.
pub proof fn the_client_is_recognized(
    process: ProcessIdentity,
    front: Seq<char>,
    name: Seq<char>,
    word: Seq<char>,
    rest: Seq<char>,
    word_front: Seq<char>,
    word_name: Seq<char>,
)
    requires
        ends_in(process.executable@, front, name),
        starts_in(process.command@, word, rest),
        ends_in(word, word_front, word_name),
    ensures
        process::is_client(process) <==> {
            let command = text::lowered(text::replaced(text::trimmed(process.command@), '\\', '/'));
            ||| text::lowered(name) == "secretd"@
            ||| text::lowered(word_name) == "secretd"@
            ||| text::lowered(name) == "deno"@ && (text::has_part(command, "deno task cli"@)
                || text::has_part(command, "src/cli/main.ts"@))
        },
{
    names(process, front, name, word, rest, word_front, word_name);
}

/// Leaving clients out takes away the longest run of them at the near end, and
/// nothing behind it.
pub proof fn the_leading_clients_are_left_out(tree: Seq<ProcessIdentity>) -> (n: int)
    ensures
        0 <= n <= tree.len(),
        forall|i: int| 0 <= i < n ==> process::is_client(#[trigger] tree[i]),
        n < tree.len() ==> !process::is_client(tree[n]),
        process::without_clients(tree) == tree.subrange(n, tree.len() as int),
    decreases tree.len(),
{
    if tree.len() > 0 && process::is_client(tree[0]) {
        let rest = tree.skip(1);
        let n = the_leading_clients_are_left_out(rest);
        assert forall|i: int| 0 <= i < n + 1 implies process::is_client(#[trigger] tree[i]) by {
            if i > 0 {
                assert(rest[i - 1] == tree[i]);
            }
        }
        if n + 1 < tree.len() {
            assert(rest[n] == tree[n + 1]);
        }
        assert(rest.subrange(n, rest.len() as int) =~= tree.subrange(n + 1, tree.len() as int));
        n + 1
    } else {
        assert(tree.subrange(0, tree.len() as int) =~= tree);
        0
    }
}

/// A lineage starts with the process that was asked for, and each process is
/// followed by the one that is reported for the number of its parent. No number
/// is looked up twice.
pub proof fn lineages_follow_the_parents<F: Fn(u32) -> Result<Option<ProcessIdentity>, String>>(
    inspect: F,
    pid: u32,
    tree: Seq<ProcessIdentity>,
)
    requires
        process::is_lineage(inspect, pid, tree),
    ensures
        tree.len() > 0 ==> pid != 0 && call_ensures(inspect, (pid,), Ok(Some(tree[0]))),
        forall|i: int|
            0 < i < tree.len() ==> (#[trigger] tree[i - 1]).ppid != 0 && tree[i - 1].ppid != pid
                && call_ensures(inspect, (tree[i - 1].ppid,), Ok(Some(tree[i]))),
        forall|i: int, j: int|
            0 <= i < j < tree.len() - 1 ==> (#[trigger] tree[i]).ppid != (#[trigger] tree[j]).ppid,
{
    if tree.len() > 0 {
        assert(process::asked(pid, tree, 0) == pid);
    }
    assert forall|i: int| 0 < i < tree.len() implies (#[trigger] tree[i - 1]).ppid != 0 && tree[i
        - 1].ppid != pid && call_ensures(inspect, (tree[i - 1].ppid,), Ok(Some(tree[i]))) by {
        assert(process::asked(pid, tree, i) == tree[i - 1].ppid);
        assert(process::asked(pid, tree, 0) != process::asked(pid, tree, i));
    }
    assert forall|i: int, j: int| 0 <= i < j < tree.len() - 1 implies (#[trigger] tree[i]).ppid
        != (#[trigger] tree[j]).ppid by {
        assert(process::asked(pid, tree, i + 1) != process::asked(pid, tree, j + 1));
    }
}

/// A lineage ends only where the last process has no parent, where its parent
/// was looked up already, or where nothing is reported for it.
pub proof fn lineages_end_with_the_ancestors<
    F: Fn(u32) -> Result<Option<ProcessIdentity>, String>,
>(inspect: F, pid: u32, tree: Seq<ProcessIdentity>)
    requires
        process::lineage_ends(inspect, pid, tree),
        tree.len() > 0,
    ensures
        ({
            let parent = tree.last().ppid;
            ||| parent == 0
            ||| parent == pid
            ||| exists|i: int| 0 <= i < tree.len() - 1 && (#[trigger] tree[i]).ppid == parent
            ||| call_ensures(inspect, (parent,), Ok(None))
        }),
{
    let parent = tree.last().ppid;
    assert(process::asked(pid, tree, tree.len() as int) == parent);
    if exists|i: int| 0 <= i < tree.len() && #[trigger] process::asked(pid, tree, i) == parent {
        let i = choose|i: int|
            0 <= i < tree.len() && #[trigger] process::asked(pid, tree, i) == parent;
        if i > 0 {
            assert(tree[i - 1].ppid == parent);
        }
    }
}

/// A process still runs exactly where a process is reported that has its
/// number, its start time and its executable.
pub proof fn a_process_runs_while_it_is_reported(
    report: Result<Option<ProcessIdentity>, String>,
    process: ProcessIdentity,
)
    ensures
        process::runs_by(report, process) <==> report is Ok && report->Ok_0 is Some && {
            let current = report->Ok_0->Some_0;
            &&& current.pid == process.pid
            &&& current.started_at@ == process.started_at@
            &&& current.executable@ == process.executable@
        },
{
}

/// In a status line the name of the program stands in parentheses, whatever it
/// holds. Of the words behind it the second is the parent and the twentieth the
/// start time.
pub proof fn status_lines_are_read_behind_the_name(name: Seq<char>, behind: Seq<char>)
    requires
        !behind.contains(')'),
    ensures
        ({
            let line = name.push(')') + behind;
            let fields = text::words(behind);
            match process::stat_parent_and_start(line) {
                Some((ppid, started_at)) => fields.len() >= 20 && numeral::parsed_u32(fields[1])
                    == Some(ppid) && started_at == fields[19],
                None => fields.len() < 20 || numeral::parsed_u32(fields[1]) is None,
            }
        }),
        process::stat_parent_and_start(behind) is None,
{
    let line = name.push(')') + behind;
    assert(line[name.len() as int] == ')');
    text_laws::the_last_piece_follows_the_last_separator(name, ')', behind);
}

/// The socket that is found stands in the tenth column of a line whose second
/// and third columns are the two ends of the connection and whose fourth says
/// that it is established, and no earlier line is such a line.
pub proof fn the_socket_of_the_connection_is_found(
    lines: Seq<Seq<char>>,
    client_port: u16,
    server_port: u16,
)
    ensures
        match process::socket_number(lines, client_port, server_port) {
            Some(number) => exists|i: int|
                {
                    &&& 0 <= i < lines.len()
                    &&& #[trigger] joins(lines[i], client_port, server_port)
                    &&& number == text::words(lines[i])[9]
                    &&& forall|j: int|
                        0 <= j < i ==> !#[trigger] joins(lines[j], client_port, server_port)
                },
            None => forall|j: int|
                0 <= j < lines.len() ==> !#[trigger] joins(lines[j], client_port, server_port),
        },
    decreases lines.len(),
{
    if lines.len() > 0 {
        assert(joins(lines[0], client_port, server_port) == process::is_connection(
            lines[0],
            client_port,
            server_port,
        ));
        if !process::is_connection(lines[0], client_port, server_port) {
            let rest = lines.skip(1);
            the_socket_of_the_connection_is_found(rest, client_port, server_port);
            match process::socket_number(rest, client_port, server_port) {
                Some(number) => {
                    let i = choose|i: int|
                        {
                            &&& 0 <= i < rest.len()
                            &&& #[trigger] joins(rest[i], client_port, server_port)
                            &&& number == text::words(rest[i])[9]
                            &&& forall|j: int|
                                0 <= j < i ==> !#[trigger] joins(
                                    rest[j],
                                    client_port,
                                    server_port,
                                )
                        };
                    assert(rest[i] == lines[i + 1]);
                    assert(joins(lines[i + 1], client_port, server_port));
                    assert forall|j: int| 0 <= j < i + 1 implies !#[trigger] joins(
                        lines[j],
                        client_port,
                        server_port,
                    ) by {
                        if j > 0 {
                            assert(rest[j - 1] == lines[j]);
                            assert(!joins(rest[j - 1], client_port, server_port));
                        }
                    }
                },
                None => {
                    assert forall|j: int| 0 <= j < lines.len() implies !#[trigger] joins(
                        lines[j],
                        client_port,
                        server_port,
                    ) by {
                        if j > 0 {
                            assert(rest[j - 1] == lines[j]);
                            assert(!joins(rest[j - 1], client_port, server_port));
                        }
                    }
                },
            }
        }
    }
}

/// Whether a line of the connection table joins two ports of the loopback
/// address.
pub open spec fn joins(line: Seq<char>, client_port: u16, server_port: u16) -> bool {
    let columns = text::words(line);
    &&& columns.len() >= 10
    &&& columns[1] == "0100007F:"@ + numeral::hex4(client_port)
    &&& columns[2] == "0100007F:"@ + numeral::hex4(server_port)
    &&& columns[3] == "01"@
}

/// The value of a hexadecimal digit.
pub open spec fn hex_value(c: char) -> int {
    if 48 <= c as u32 <= 57 {
        c as u32 - 48
    } else if 65 <= c as u32 <= 70 {
        c as u32 - 55
    } else {
        -1
    }
}

proof fn hex_digit(d: nat)
    requires
        d < 16,
    ensures
        hex_value(numeral::hex_char(d)) == d,
{
}

/// The value of the digit at a place.
pub open spec fn hex_value_at(digits: Seq<char>, k: int) -> int {
    hex_value(digits[k])
}

proof fn hex_digits(port: u16)
    ensures
        numeral::hex4(port).len() == 4,
        hex_value_at(numeral::hex4(port), 0) == port as nat / 4096,
        hex_value_at(numeral::hex4(port), 1) == port as nat / 256 % 16,
        hex_value_at(numeral::hex4(port), 2) == port as nat / 16 % 16,
        hex_value_at(numeral::hex4(port), 3) == port as nat % 16,
{
    let n = port as nat;
    hex_digit(n / 4096);
    hex_digit(n / 256 % 16);
    hex_digit(n / 16 % 16);
    hex_digit(n % 16);
}

proof fn port_digits(n: nat)
    requires
        n < 65536,
    ensures
        n / 4096 * 4096 + n / 256 % 16 * 256 + n / 16 % 16 * 16 + n % 16 == n,
        n / 4096 < 16,
{
    let q1 = n / 16;
    let q2 = q1 / 16;
    let q3 = q2 / 16;
    let r1 = n % 16;
    let r2 = q1 % 16;
    let r3 = q2 % 16;
    assert(n == 16 * q1 + r1);
    assert(q1 == 16 * q2 + r2);
    assert(q2 == 16 * q3 + r3);
    assert(n / 256 == q2) by {
        vstd::arithmetic::div_mod::lemma_fundamental_div_mod_converse(
            n as int,
            256,
            q2 as int,
            (16 * r2 + r1) as int,
        );
    }
    assert(n / 4096 == q3) by {
        vstd::arithmetic::div_mod::lemma_fundamental_div_mod_converse(
            n as int,
            4096,
            q3 as int,
            (256 * r3 + 16 * r2 + r1) as int,
        );
    }
}

/// Four hexadecimal digits stand for the port.
pub proof fn hexadecimal_digits_stand_for_the_port(port: u16)
    ensures
        numeral::hex4(port).len() == 4,
        forall|k: int| 0 <= k < 4 ==> 0 <= #[trigger] hex_value_at(numeral::hex4(port), k) < 16,
        hex_value_at(numeral::hex4(port), 0) * 4096 + hex_value_at(numeral::hex4(port), 1) * 256
            + hex_value_at(numeral::hex4(port), 2) * 16 + hex_value_at(numeral::hex4(port), 3)
            == port,
{
    hex_digits(port);
    port_digits(port as nat);
    assert forall|k: int| 0 <= k < 4 implies 0 <= #[trigger] hex_value_at(
        numeral::hex4(port),
        k,
    ) < 16 by {
        assert(k == 0 || k == 1 || k == 2 || k == 3);
    }
}

/// A text without the plus sign at its start, if it has one.
pub open spec fn unsigned(s: Seq<char>) -> Seq<char> {
    if s.len() > 0 && s[0] == '+' {
        s.subrange(1, s.len() as int)
    } else {
        s
    }
}

/// Whether a text is decimal digits, at least one.
pub open spec fn is_digits(s: Seq<char>) -> bool {
    &&& s.len() > 0
    &&& forall|i: int| 0 <= i < s.len() ==> 48 <= (#[trigger] s[i]) as u32 <= 57
}

/// A number is read exactly where a text is decimal digits, at least one, with
/// or without a plus sign, that stand for a number that fits.
pub proof fn numbers_are_read_from_digits(s: Seq<char>)
    ensures
        is_digits(unsigned(s)) && text_laws::number(unsigned(s)) <= u32::MAX
            ==> numeral::parsed_u32(s) == Some(text_laws::number(unsigned(s)) as u32),
        !(is_digits(unsigned(s)) && text_laws::number(unsigned(s)) <= u32::MAX)
            ==> numeral::parsed_u32(s) is None,
{
    let digits = unsigned(s);
    assert(digits =~= numeral::unsigned_digits(s));
    if is_digits(digits) {
        assert forall|i: int| 0 <= i < digits.len() implies text::is_ascii_digit(
            #[trigger] digits[i],
        ) by {
            text_laws::ascii_letters_and_digits(digits[i]);
        }
        values_agree(digits);
    } else if digits.len() > 0 {
        let i = choose|i: int|
            0 <= i < digits.len() && !(48 <= (#[trigger] digits[i]) as u32 <= 57);
        text_laws::ascii_letters_and_digits(digits[i]);
    }
}

proof fn values_agree(digits: Seq<char>)
    requires
        forall|i: int| 0 <= i < digits.len() ==> text::is_ascii_digit(#[trigger] digits[i]),
    ensures
        numeral::digits_value(digits) == text_laws::number(digits),
    decreases digits.len(),
{
    if digits.len() > 0 {
        let rest = digits.drop_last();
        assert forall|i: int| 0 <= i < rest.len() implies text::is_ascii_digit(
            #[trigger] rest[i],
        ) by {
            assert(rest[i] == digits[i]);
        }
        values_agree(rest);
        assert(text::is_ascii_digit(digits[digits.len() - 1]));
    }
}

} // verus!
