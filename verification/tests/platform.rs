//! Paths, the command line, the tray and the windows.

use secretd::aws::{AwsDeviceAuthorization, AwsLoginStatus};
use secretd::cli::{desktop_arguments, mode, show_on_launch, Mode, USAGE};
use secretd::controller::{AppSnapshot, Controller};
use secretd::icon::{tray_icon, TrayStatus};
use secretd::paths::{
    app_data_directory, app_data_directory_from, cli_runtime_path, default_runtime_path,
    default_vault_path, ensure_parent, require_parent, Environment,
};
use secretd::process::ProcessIdentity;
use secretd::runtime::{
    quit_keystroke, request_window_action, show_main, toggle_main, MainWindowAction,
    RequestWindowAction, WindowCommand, Windows, MAIN_WINDOW_SIZE, REQUEST_WINDOW_SIZE,
};
use secretd::view::tray::{
    menu_event, should_toggle_for_tray_click, tray_menu, tray_status, tray_tooltip, AppEvent,
    MenuLine, MouseButton, MouseButtonState,
};

fn arguments(values: &[&str]) -> Vec<String> {
    values.iter().map(|value| (*value).to_owned()).collect()
}

fn environment() -> Environment {
    Environment {
        data_dir: None,
        runtime: None,
        home: Some("/home/example".to_owned()),
        xdg_data_home: None,
        macos: false,
    }
}

fn snapshot_with_requests(count: u32) -> AppSnapshot {
    let mut controller = Controller::new("vault.json".to_owned());
    for pid in 0..count {
        let process = ProcessIdentity {
            pid: pid + 10,
            ppid: 1,
            started_at: "start".to_owned(),
            executable: "/bin/tool".to_owned(),
            command: "tool".to_owned(),
        };
        controller.begin_request("token", vec![process], true).unwrap();
    }
    controller.snapshot(Ok(true))
}

fn authorization(complete: Option<&str>) -> AwsDeviceAuthorization {
    AwsDeviceAuthorization {
        verification_uri: "https://device.example".to_owned(),
        verification_uri_complete: complete.map(|url| url.to_owned()),
        user_code: "ABCD-EFGH".to_owned(),
        expires_at: 1_000,
    }
}

#[test]
fn matches_existing_platform_paths() {
    let home = Some("/Users/example".to_owned());
    assert_eq!(
        app_data_directory_from(home.clone(), None, true).unwrap(),
        "/Users/example/Library/Application Support/secretd"
    );
    assert_eq!(
        app_data_directory_from(home, None, false).unwrap(),
        "/Users/example/.local/share/secretd"
    );
}

#[test]
fn environments_choose_where_data_is_kept() {
    assert_eq!(app_data_directory_from(None, None, true).unwrap_err(), "HOME is not set");
    assert_eq!(
        app_data_directory_from(Some("/h".to_owned()), Some("/data/".to_owned()), false).unwrap(),
        "/data/secretd"
    );
    assert_eq!(
        default_vault_path(&environment()).unwrap(),
        "/home/example/.local/share/secretd/vault.json"
    );
    assert_eq!(
        default_runtime_path(&environment()).unwrap(),
        "/home/example/.local/share/secretd/runtime.json"
    );
    let mut asked = environment();
    asked.data_dir = Some("/elsewhere".to_owned());
    asked.home = None;
    assert_eq!(app_data_directory(&asked).unwrap(), "/elsewhere");
    assert_eq!(cli_runtime_path(&asked).unwrap(), "/elsewhere/runtime.json");
    asked.runtime = Some("/run/secretd.json".to_owned());
    assert_eq!(cli_runtime_path(&asked).unwrap(), "/run/secretd.json");
    assert_eq!(default_runtime_path(&asked).unwrap(), "/elsewhere/runtime.json");
}

#[test]
fn files_stand_in_a_directory() {
    assert_eq!(ensure_parent("/a/b/vault.json").unwrap(), "/a/b");
    assert_eq!(ensure_parent("vault.json").unwrap(), "");
    assert_eq!(ensure_parent("/").unwrap_err(), "/ has no parent directory");
    assert_eq!(require_parent("x", None).unwrap_err(), "x has no parent directory");
    assert_eq!(require_parent("x", Some("y".to_owned())).unwrap(), "y");
}

#[test]
fn dispatches_desktop_and_cli_modes() {
    assert_eq!(mode(&arguments(&[])), Ok(Mode::Desktop { detach: true }));
    assert_eq!(mode(&arguments(&["--show"])), Ok(Mode::Desktop { detach: true }));
    assert_eq!(mode(&arguments(&["desktop"])), Ok(Mode::Desktop { detach: true }));
    assert_eq!(
        mode(&arguments(&["desktop", "--foreground"])),
        Ok(Mode::Desktop { detach: false })
    );
    assert_eq!(
        mode(&arguments(&["desktop", "--foreground", "--show"])),
        Ok(Mode::Desktop { detach: false })
    );
    assert_eq!(
        mode(&arguments(&["get", "service/token"])),
        Ok(Mode::Get("service/token".to_owned()))
    );
    assert_eq!(mode(&arguments(&["--help"])), Ok(Mode::Help));
    assert_eq!(mode(&arguments(&["get"])), Err(()));
}

#[test]
fn aws_commands_are_understood() {
    assert_eq!(
        mode(&arguments(&["aws", "credentials", "prod"])),
        Ok(Mode::AwsCredentials("prod".to_owned()))
    );
    assert_eq!(mode(&arguments(&["aws", "login"])), Ok(Mode::AwsLogin));
    assert_eq!(mode(&arguments(&["aws", "credentials"])), Err(()));
    assert_eq!(mode(&arguments(&["aws"])), Err(()));
    assert_eq!(mode(&arguments(&["-h"])), Ok(Mode::Help));
    assert_eq!(mode(&arguments(&["help"])), Ok(Mode::Help));
    assert_eq!(
        mode(&arguments(&["desktop", "--show"])),
        Ok(Mode::Desktop { detach: true })
    );
    assert_eq!(mode(&arguments(&["desktop", "--show", "--foreground"])), Err(()));
    assert!(USAGE.starts_with("Usage:\n  secretd "));
}

#[test]
fn a_detached_start_keeps_the_wish_for_a_window() {
    assert_eq!(desktop_arguments(&arguments(&[])), ["desktop", "--foreground"]);
    assert_eq!(
        desktop_arguments(&arguments(&["--show"])),
        ["desktop", "--foreground", "--show"]
    );
    assert!(show_on_launch(&arguments(&["desktop", "--show"])));
    assert!(!show_on_launch(&arguments(&["desktop"])));
}

#[test]
fn the_icon_is_a_padlock() {
    let colors = [
        (TrayStatus::Locked, [126u8, 135, 130, 255]),
        (TrayStatus::Unlocked, [22, 155, 99, 255]),
        (TrayStatus::Pending, [216, 145, 34, 255]),
    ];
    for (status, color) in colors {
        let rgba = tray_icon(status);
        assert_eq!(rgba.len(), 32 * 32 * 4);
        let mut expected = vec![0u8; 32 * 32 * 4];
        for y in 6_i32..28 {
            for x in 5_i32..27 {
                let dx = x - 16;
                let in_top = y < 17 && dx * dx + (y - 14) * (y - 14) <= 10 * 10;
                let in_body = (13..=25).contains(&y) && (7..=25).contains(&x);
                let in_opening = (12..=20).contains(&x) && (10..=19).contains(&y);
                if (in_top || in_body) && !in_opening {
                    let index = ((y * 32 + x) * 4) as usize;
                    expected[index..index + 4].copy_from_slice(&color);
                }
            }
        }
        for y in 16..23 {
            for x in 14..18 {
                let index = (y * 32 + x) * 4;
                expected[index..index + 4].copy_from_slice(&color);
            }
        }
        assert_eq!(rgba, expected);
    }
}

#[test]
fn request_window_is_compact_relative_to_the_main_window() {
    assert!(REQUEST_WINDOW_SIZE.0 < MAIN_WINDOW_SIZE.0);
    assert!(REQUEST_WINDOW_SIZE.1 < MAIN_WINDOW_SIZE.1);
    assert!(REQUEST_WINDOW_SIZE.1 >= 520);
}

#[test]
fn existing_request_window_is_left_alone_while_requests_are_pending() {
    assert_eq!(request_window_action(true, true), RequestWindowAction::Keep);
}

#[test]
fn request_window_tracks_pending_request_transitions() {
    assert_eq!(request_window_action(true, false), RequestWindowAction::Open);
    assert_eq!(request_window_action(false, true), RequestWindowAction::Close);
    assert_eq!(request_window_action(false, false), RequestWindowAction::Keep);
}

#[test]
fn standard_window_close_is_not_bound_to_daemon_quit() {
    for macos in [false, true] {
        assert_ne!(quit_keystroke(macos), Some("alt-f4"));
    }
    assert_eq!(quit_keystroke(true), Some("cmd-q"));
    assert_eq!(quit_keystroke(false), None);
}

#[test]
fn the_main_window_is_shown_and_hidden() {
    assert_eq!(show_main(true, true), MainWindowAction::Activate);
    assert_eq!(show_main(true, false), MainWindowAction::Open);
    assert_eq!(show_main(false, false), MainWindowAction::Open);
    assert_eq!(toggle_main(true, true, true), MainWindowAction::Closed);
    assert_eq!(toggle_main(true, false, true), MainWindowAction::Activate);
    assert_eq!(toggle_main(false, false, false), MainWindowAction::Open);
}

#[test]
fn events_tell_the_windows_what_to_do() {
    let mut windows = Windows::new();
    let idle = AwsLoginStatus::Idle;
    assert_eq!(windows.dispatch(AppEvent::Show, &idle), [WindowCommand::ShowMain]);
    assert_eq!(windows.dispatch(AppEvent::Toggle, &idle), [WindowCommand::ToggleMain]);
    assert_eq!(windows.dispatch(AppEvent::Quit, &idle), [WindowCommand::Quit]);
    assert_eq!(windows.dispatch(AppEvent::Lock, &idle), [WindowCommand::LockVault]);
    windows.main_opened();
    assert_eq!(
        windows.dispatch(AppEvent::Lock, &idle),
        [WindowCommand::LockVault, WindowCommand::ClearMain]
    );
    assert_eq!(windows.dispatch(AppEvent::StateChanged, &idle), [WindowCommand::RefreshTray]);
}

#[test]
fn a_sign_in_address_is_opened_once() {
    let mut windows = Windows::new();
    let awaiting = AwsLoginStatus::AwaitingUser(authorization(Some("https://device.example/x")));
    assert_eq!(
        windows.dispatch(AppEvent::StateChanged, &awaiting),
        [
            WindowCommand::RefreshTray,
            WindowCommand::ShowAwsLogin,
            WindowCommand::OpenUrl("https://device.example/x".to_owned()),
        ]
    );
    assert_eq!(
        windows.dispatch(AppEvent::StateChanged, &awaiting),
        [WindowCommand::RefreshTray, WindowCommand::ShowAwsLogin]
    );
    let plain = AwsLoginStatus::AwaitingUser(authorization(None));
    assert_eq!(
        windows.dispatch(AppEvent::StateChanged, &plain)[2],
        WindowCommand::OpenUrl("https://device.example".to_owned())
    );
    windows.dispatch(AppEvent::StateChanged, &AwsLoginStatus::Discovering);
    assert_eq!(windows.opened_aws_login_url, None);
    assert_eq!(windows.dispatch(AppEvent::StateChanged, &plain).len(), 3);
}

#[test]
fn only_a_person_dismisses_a_request() {
    let mut windows = Windows::new();
    let waiting = snapshot_with_requests(1);
    let nothing = snapshot_with_requests(0);
    assert_eq!(windows.reconcile(&waiting), RequestWindowAction::Open);
    windows.request_opened();
    assert_eq!(windows.reconcile(&waiting), RequestWindowAction::Keep);
    assert!(windows.window_closed(false, true));
    windows.request_opened();
    assert_eq!(windows.reconcile(&nothing), RequestWindowAction::Close);
    assert!(!windows.window_closed(false, true));
    assert!(!windows.request && !windows.closing_request);
    windows.main_opened();
    assert!(!windows.window_closed(true, false));
    assert!(!windows.main);
    windows.request = true;
    windows.closing_request = true;
    windows.request_was_gone();
    assert!(!windows.request && !windows.closing_request);
}

#[test]
fn the_tray_tells_what_waits() {
    assert_eq!(tray_tooltip(&snapshot_with_requests(0)), "secretd — locked");
    assert_eq!(tray_tooltip(&snapshot_with_requests(1)), "secretd — 1 request pending");
    let mut shown = snapshot_with_requests(2);
    assert_eq!(tray_tooltip(&shown), "secretd — 2 requests pending");
    assert_eq!(tray_status(&shown), TrayStatus::Locked);
    let menu = tray_menu(&shown);
    assert_eq!(menu.len(), 6);
    assert_eq!(menu[0], MenuLine::Note("2 access requests pending".to_owned()));
    assert_eq!(
        menu[3],
        MenuLine::Entry { id: "lock", label: "Lock vault", enabled: false }
    );
    shown.pending.clear();
    shown.unlocked = true;
    assert_eq!(tray_tooltip(&shown), "secretd — unlocked · 0 credentials");
    assert_eq!(tray_status(&shown), TrayStatus::Unlocked);
    let menu = tray_menu(&shown);
    assert_eq!(
        menu,
        [
            MenuLine::Entry { id: "show", label: "Open secretd", enabled: true },
            MenuLine::Entry { id: "lock", label: "Lock vault", enabled: true },
            MenuLine::Separator,
            MenuLine::Entry { id: "quit", label: "Quit secretd", enabled: true },
        ]
    );
}

#[test]
fn clicks_on_the_tray_are_told_apart() {
    assert_eq!(menu_event("show"), Some(AppEvent::Show));
    assert_eq!(menu_event("lock"), Some(AppEvent::Lock));
    assert_eq!(menu_event("quit"), Some(AppEvent::Quit));
    assert_eq!(menu_event("other"), None);
    assert!(should_toggle_for_tray_click(MouseButton::Left, MouseButtonState::Up));
    assert!(!should_toggle_for_tray_click(MouseButton::Left, MouseButtonState::Down));
    assert!(!should_toggle_for_tray_click(MouseButton::Right, MouseButtonState::Up));
    assert!(!should_toggle_for_tray_click(MouseButton::Middle, MouseButtonState::Up));
}
