//! What is known of processes and of who owns a connection.

use secretd::process::{
    inspect_process_tree, is_launchd_process, is_secretd_client_process, linux_owns_connection,
    linux_process, macos_owns_connection, macos_process, omit_secretd_client_processes,
    process_is_alive, same_process, verify_connection_owner, ProcessIdentity,
};

fn process(pid: u32, executable: &str, command: &str) -> ProcessIdentity {
    ProcessIdentity {
        pid,
        ppid: pid.saturating_sub(1),
        started_at: pid.to_string(),
        executable: executable.to_owned(),
        command: command.to_owned(),
    }
}

fn found(pid: u32) -> Result<Option<ProcessIdentity>, String> {
    if pid <= 5 {
        Ok(Some(process(pid, "/bin/tool", "tool")))
    } else {
        Ok(None)
    }
}

#[test]
fn removes_compiled_and_development_clients() {
    let cli = process(30, "/usr/local/bin/secretd", "secretd get service/token");
    let deno = process(20, "/opt/bin/deno", "deno task cli get service/token");
    let shell = process(10, "/bin/zsh", "zsh");
    assert_eq!(omit_secretd_client_processes(&vec![cli, deno, shell.clone()]), [shell]);
}

#[test]
fn checks_the_full_identity_of_a_live_process() {
    let current = inspect_process_tree(3, 1, &found).unwrap().into_iter().next().unwrap();
    assert!(process_is_alive(&current, &found));

    let mut reused_pid = current;
    reused_pid.started_at.push_str("-different");
    assert!(!process_is_alive(&reused_pid, &found));
}

#[test]
fn identifies_launchd_by_pid_or_executable() {
    assert!(is_launchd_process(&process(1, "/sbin/launchd", "/sbin/launchd")));
    assert!(is_launchd_process(&process(99, "/sbin/launchd", "/sbin/launchd")));
    assert!(!is_launchd_process(&process(20, "/bin/zsh", "-zsh")));
    assert!(!is_launchd_process(&process(1, "/sbin/init", "/sbin/init")));
}

#[test]
fn lineages_are_followed_to_their_end() {
    let pids: Vec<u32> = inspect_process_tree(5, 12, &found)
        .unwrap()
        .into_iter()
        .map(|process| process.pid)
        .collect();
    assert_eq!(pids, vec![5, 4, 3, 2, 1]);
    assert_eq!(inspect_process_tree(5, 2, &found).unwrap().len(), 2);
    assert!(inspect_process_tree(9, 12, &found).unwrap().is_empty());
    assert_eq!(inspect_process_tree(0, 12, &found).unwrap_err(), "Invalid process ID");
    let circle = |pid: u32| {
        let mut here = process(pid, "/bin/tool", "tool");
        here.ppid = if pid == 7 { 8 } else { 7 };
        Ok(Some(here))
    };
    assert_eq!(inspect_process_tree(7, 12, &circle).unwrap().len(), 2);
    let broken = |_: u32| Err("no access".to_owned());
    assert_eq!(inspect_process_tree(7, 12, &broken).unwrap_err(), "no access");
    assert!(!process_is_alive(&process(7, "/bin/tool", "tool"), &broken));
}

#[test]
fn clients_are_known_by_how_they_were_started() {
    assert!(is_secretd_client_process(&process(1, "C:\\bin\\SecretD", "x")));
    assert!(is_secretd_client_process(&process(1, "/bin/sh", "/opt/secretd get a")));
    assert!(is_secretd_client_process(&process(1, "/bin/deno", "deno run src/cli/main.ts")));
    assert!(!is_secretd_client_process(&process(1, "/bin/deno", "deno run other.ts")));
    let left = process(1, "/bin/sh", "sh");
    let mut right = process(1, "/bin/sh", "sh -c other");
    assert!(same_process(&left, &right));
    right.executable = "/bin/bash".to_owned();
    assert!(!same_process(&left, &right));
}

#[test]
fn linux_reports_are_read() {
    let stat = "42 (a (strange) name) S 7 1 1 0 -1 0 0 0 0 0 0 0 0 0 20 0 1 0 987654 0 0";
    let seen = linux_process(
        42,
        Ok(Some(stat.to_owned())),
        Some("/usr/bin/tool".to_owned()),
        Some(b"tool\0get\0a\0".to_vec()),
    )
    .unwrap()
    .unwrap();
    assert_eq!(seen.pid, 42);
    assert_eq!(seen.ppid, 7);
    assert_eq!(seen.started_at, "987654");
    assert_eq!(seen.executable, "/usr/bin/tool");
    assert_eq!(seen.command, "tool get a");
    let unnamed =
        linux_process(42, Ok(Some(stat.to_owned())), Some("/usr/bin/tool".to_owned()), None)
            .unwrap()
            .unwrap();
    assert_eq!(unnamed.command, "/usr/bin/tool");
    assert!(linux_process(42, Ok(None), None, None).unwrap().is_none());
    assert!(linux_process(42, Ok(Some(stat.to_owned())), None, None).unwrap().is_none());
    assert!(linux_process(42, Ok(Some("no end".to_owned())), Some("/x".to_owned()), None)
        .unwrap()
        .is_none());
    assert_eq!(linux_process(42, Err("broken".to_owned()), None, None).unwrap_err(), "broken");
}

#[test]
fn bytes_that_are_no_text_are_replaced() {
    let stat = "42 (x) S 7 1 1 0 -1 0 0 0 0 0 0 0 0 0 20 0 1 0 5 0 0";
    let seen = linux_process(
        42,
        Ok(Some(stat.to_owned())),
        Some("/x".to_owned()),
        Some(vec![b'a', 0xff, 0]),
    )
    .unwrap()
    .unwrap();
    assert_eq!(seen.command, "a\u{fffd}");
}

#[test]
fn macos_reports_are_read() {
    let text = |value: &str| Ok(Some(value.to_owned()));
    let seen = macos_process(
        42,
        text(" 7\n"),
        text(" Mon Jan 1 00:00:00 2026\n"),
        text("/bin/tool\n"),
        text("tool get\n"),
    )
    .unwrap()
    .unwrap();
    assert_eq!(seen.ppid, 7);
    assert_eq!(seen.started_at, "Mon Jan 1 00:00:00 2026");
    assert_eq!(seen.executable, "/bin/tool");
    assert_eq!(seen.command, "tool get");
    assert!(macos_process(42, text("x"), text("a"), text("b"), text("c")).unwrap().is_none());
    assert!(macos_process(42, Ok(None), text("a"), text("b"), text("c")).unwrap().is_none());
    assert_eq!(
        macos_process(42, text("7"), Err("ps".to_owned()), text("b"), text("c")).unwrap_err(),
        "ps"
    );
}

#[test]
fn linux_connections_belong_to_the_process_that_holds_the_socket() {
    let table = "  sl  local_address rem_address   st tx_queue rx_queue tr tm->when retrnsmt   uid  timeout inode\n   0: 0100007F:1F90 0100007F:C350 01 00000000:00000000 00:00000000 00000000  1000        0 777 1\n   1: 0100007F:C350 0100007F:1F90 01 00000000:00000000 00:00000000 00000000  1000        0 888 1\n";
    let files = |link: &str| Some(vec!["/dev/null".to_owned(), link.to_owned()]);
    let table = || Some(table.to_owned());
    assert!(linux_owns_connection(table(), 50_000, 8_080, files("socket:[888]")));
    assert!(!linux_owns_connection(table(), 50_000, 8_080, files("socket:[777]")));
    assert!(!linux_owns_connection(table(), 50_001, 8_080, files("socket:[888]")));
    assert!(!linux_owns_connection(table(), 50_000, 8_080, None));
    assert!(!linux_owns_connection(None, 50_000, 8_080, files("socket:[888]")));
}

#[test]
fn macos_connections_are_found_in_the_listing() {
    let listing = "p42\nf5\nn127.0.0.1:50000->127.0.0.1:8080\n";
    assert!(macos_owns_connection(Some(listing.to_owned()), 50_000, 8_080));
    assert!(!macos_owns_connection(Some(listing.to_owned()), 8_080, 50_000));
    assert!(!macos_owns_connection(
        Some("x127.0.0.1:50000->127.0.0.1:8080".to_owned()),
        50_000,
        8_080
    ));
    assert!(!macos_owns_connection(None, 50_000, 8_080));
}

#[test]
fn a_connection_is_verified_from_the_side_of_the_client() {
    let owns = |pid: u32, client: u16, server: u16| pid == 42 && client == 50_000 && server == 8_080;
    assert!(verify_connection_owner(42, Some(8_080), Some(50_000), &owns));
    assert!(!verify_connection_owner(42, Some(50_000), Some(8_080), &owns));
    assert!(!verify_connection_owner(42, None, Some(50_000), &owns));
    assert!(!verify_connection_owner(42, Some(8_080), None, &owns));
}
