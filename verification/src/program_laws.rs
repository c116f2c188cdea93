//! What the program does at its edges: the arguments it takes, the places of its
//! files, the picture in the tray and the windows.

use vstd::prelude::*;

use crate::aws::{AwsDeviceAuthorization, AwsLoginStatus};
use crate::cli;
use crate::controller::AppSnapshot;
use crate::icon;
use crate::icon::TrayStatus;
use crate::paths;
use crate::paths::Environment;
use crate::runtime;
use crate::runtime::{Command, WindowCommand, Windows};
use crate::view::tray::AppEvent;

verus! {

proof fn argument_words()
    ensures
        "desktop"@.len() == 7,
        "--show"@.len() == 6,
        "--foreground"@.len() == 12,
        "--help"@.len() == 6,
        "-h"@.len() == 2,
        "help"@.len() == 4,
        "get"@.len() == 3,
        "aws"@.len() == 3,
        "login"@.len() == 5,
        "credentials"@.len() == 11,
        "get"@ != "aws"@,
        "--show"@ != "--help"@,
{
    reveal_strlit("desktop");
    reveal_strlit("--show");
    reveal_strlit("--foreground");
    reveal_strlit("--help");
    reveal_strlit("-h");
    reveal_strlit("help");
    reveal_strlit("get");
    reveal_strlit("aws");
    reveal_strlit("login");
    reveal_strlit("credentials");
    assert("get"@[0] == 'g');
    assert("aws"@[0] == 'a');
    assert("--show"@[2] == 's');
    assert("--help"@[2] == 'h');
}

/// A secret is asked for by `get` and its name, the credentials of a profile by
/// `aws credentials` and the profile, a login by `aws login`; nothing else asks
/// for one of these.
pub proof fn requests_are_asked_for_by_name(arguments: Seq<Seq<char>>, name: Seq<char>)
    ensures
        cli::asked(arguments) == Some(cli::Command::Get(name)) <==> arguments == seq!["get"@, name],
        cli::asked(arguments) == Some(cli::Command::AwsCredentials(name)) <==> arguments == seq![
            "aws"@,
            "credentials"@,
            name,
        ],
        cli::asked(arguments) == Some(cli::Command::AwsLogin) <==> arguments == seq![
            "aws"@,
            "login"@,
        ],
{
    argument_words();
    if arguments.len() == 2 {
        assert(arguments =~= seq![arguments[0], arguments[1]]);
    }
    if arguments.len() == 3 {
        assert(arguments =~= seq![arguments[0], arguments[1], arguments[2]]);
    }
    assert(seq!["get"@, name].len() == 2 && seq!["get"@, name][0] == "get"@);
    assert(seq!["get"@, name][1] == name);
    let credentials = seq!["aws"@, "credentials"@, name];
    assert(credentials.len() == 3 && credentials[0] == "aws"@ && credentials[1]
        == "credentials"@ && credentials[2] == name);
    let login = seq!["aws"@, "login"@];
    assert(login.len() == 2 && login[0] == "aws"@ && login[1] == "login"@);
}

/// Without arguments the program starts in the background; it stays in the
/// foreground exactly where that is asked for. Help is given for three words,
/// and more than three arguments are refused.
pub proof fn the_program_starts_as_asked(arguments: Seq<Seq<char>>)
    ensures
        cli::asked(arguments) == Some(cli::Command::Desktop { detach: true }) <==> {
            ||| arguments.len() == 0
            ||| arguments == seq!["--show"@]
            ||| arguments == seq!["desktop"@]
            ||| arguments == seq!["desktop"@, "--show"@]
        },
        cli::asked(arguments) == Some(cli::Command::Desktop { detach: false }) <==> {
            ||| arguments == seq!["desktop"@, "--foreground"@]
            ||| arguments == seq!["desktop"@, "--foreground"@, "--show"@]
        },
        cli::asked(arguments) == Some(cli::Command::Help) <==> {
            ||| arguments == seq!["--help"@]
            ||| arguments == seq!["-h"@]
            ||| arguments == seq!["help"@]
        },
        arguments.len() > 3 ==> cli::asked(arguments) is None,
{
    argument_words();
    if arguments.len() == 1 {
        assert(arguments =~= seq![arguments[0]]);
    }
    if arguments.len() == 2 {
        assert(arguments =~= seq![arguments[0], arguments[1]]);
    }
    if arguments.len() == 3 {
        assert(arguments =~= seq![arguments[0], arguments[1], arguments[2]]);
    }
    assert(seq!["--show"@][0] == "--show"@ && seq!["--show"@].len() == 1);
    assert(seq!["desktop"@][0] == "desktop"@ && seq!["desktop"@].len() == 1);
    assert(seq!["--help"@][0] == "--help"@ && seq!["--help"@].len() == 1);
    assert(seq!["-h"@][0] == "-h"@ && seq!["-h"@].len() == 1);
    assert(seq!["help"@][0] == "help"@ && seq!["help"@].len() == 1);
    let shown = seq!["desktop"@, "--show"@];
    assert(shown.len() == 2 && shown[0] == "desktop"@ && shown[1] == "--show"@);
    let fore = seq!["desktop"@, "--foreground"@];
    assert(fore.len() == 2 && fore[0] == "desktop"@ && fore[1] == "--foreground"@);
    let both = seq!["desktop"@, "--foreground"@, "--show"@];
    assert(both.len() == 3 && both[0] == "desktop"@ && both[1] == "--foreground"@ && both[2]
        == "--show"@);
}

/// A mode says what it is.
pub proof fn modes_say_what_they_are(mode: cli::Mode)
    ensures
        match mode {
            cli::Mode::Desktop { detach } => cli::command(mode) == (cli::Command::Desktop {
                detach,
            }),
            cli::Mode::Get(secret) => cli::command(mode) == cli::Command::Get(secret@),
            cli::Mode::AwsCredentials(profile) => cli::command(mode)
                == cli::Command::AwsCredentials(profile@),
            cli::Mode::AwsLogin => cli::command(mode) is AwsLogin,
            cli::Mode::Help => cli::command(mode) is Help,
        },
{
}

/// A file in a directory is that directory, one slash and the name; a name that
/// starts at the root stands for itself.
pub proof fn files_stand_in_their_directories(dir: Seq<char>, name: Seq<char>)
    requires
        dir.len() > 0,
        dir.last() != '/',
        name.len() == 0 || name[0] != '/',
    ensures
        paths::joined(dir, name) == dir + seq!['/'] + name,
        paths::joined(dir.push('/'), name) == dir + seq!['/'] + name,
        paths::joined(dir, seq!['/'] + name) == seq!['/'] + name,
{
    assert(dir.push('/') + name =~= dir + seq!['/'] + name);
    assert((seq!['/'] + name)[0] == '/');
}

proof fn three_deep(home: Seq<char>, a: Seq<char>, b: Seq<char>, c: Seq<char>)
    requires
        home.len() > 0,
        home.last() != '/',
        a.len() > 0 && a[0] != '/' && a.last() != '/',
        b.len() > 0 && b[0] != '/' && b.last() != '/',
        c.len() > 0 && c[0] != '/',
    ensures
        paths::joined(paths::joined(paths::joined(home, a), b), c) == home + seq!['/'] + a
            + seq!['/'] + b + seq!['/'] + c,
{
    let first = paths::joined(home, a);
    files_stand_in_their_directories(home, a);
    assert(first.last() == a.last());
    let second = paths::joined(first, b);
    files_stand_in_their_directories(first, b);
    assert(second.last() == b.last());
    files_stand_in_their_directories(second, c);
}

/// The data stands in the directory that was asked for; else in that of the
/// platform below the home directory, or below the shared one where that is set
/// and the platform has it. Without a home directory there is none.
pub proof fn data_stands_where_it_is_asked_for(environment: Environment)
    ensures
        environment.data_dir matches Some(path) ==> paths::data_directory(environment) == Ok::<
            Seq<char>,
            Seq<char>,
        >(path@),
        environment.data_dir is None && environment.home is None ==> paths::data_directory(
            environment,
        ) is Err,
        environment.data_dir is None && environment.home is Some
            && environment.home->Some_0@.len() > 0 && environment.home->Some_0@.last() != '/' ==> {
            let home = environment.home->Some_0@;
            if environment.macos {
                paths::data_directory(environment) == Ok::<Seq<char>, Seq<char>>(
                    home + seq!['/'] + "Library"@ + seq!['/'] + "Application Support"@ + seq!['/']
                        + "secretd"@,
                )
            } else if environment.xdg_data_home is None {
                paths::data_directory(environment) == Ok::<Seq<char>, Seq<char>>(
                    home + seq!['/'] + ".local"@ + seq!['/'] + "share"@ + seq!['/'] + "secretd"@,
                )
            } else {
                environment.xdg_data_home->Some_0@.len() > 0
                    && environment.xdg_data_home->Some_0@.last() != '/' ==> paths::data_directory(
                    environment,
                ) == Ok::<Seq<char>, Seq<char>>(
                    environment.xdg_data_home->Some_0@ + seq!['/'] + "secretd"@,
                )
            }
        },
{
    reveal_strlit("Library");
    reveal_strlit("Application Support");
    reveal_strlit("secretd");
    reveal_strlit(".local");
    reveal_strlit("share");
    if environment.data_dir is None && environment.home is Some
        && environment.home->Some_0@.len() > 0 && environment.home->Some_0@.last() != '/' {
        let home = environment.home->Some_0@;
        three_deep(home, "Library"@, "Application Support"@, "secretd"@);
        three_deep(home, ".local"@, "share"@, "secretd"@);
        if let Some(shared) = environment.xdg_data_home {
            if shared@.len() > 0 && shared@.last() != '/' {
                files_stand_in_their_directories(shared@, "secretd"@);
            }
        }
    }
}

/// The runtime file is the one that was asked for, or else stands with the data.
pub proof fn the_runtime_file_stands_with_the_data(environment: Environment, name: Seq<char>)
    ensures
        environment.runtime matches Some(path) ==> paths::runtime_file(environment) == Ok::<
            Seq<char>,
            Seq<char>,
        >(path@),
        environment.runtime is None ==> paths::runtime_file(environment) == paths::data_file(
            environment,
            "runtime.json"@,
        ),
        paths::data_directory(environment) is Err ==> paths::data_file(environment, name) is Err,
        paths::data_directory(environment) matches Ok(directory) ==> paths::data_file(
            environment,
            name,
        ) == Ok::<Seq<char>, Seq<char>>(paths::joined(directory, name)),
{
}

/// The picture is 32 points by 32 with four bytes each. Its points are those of
/// a padlock in the colour of the status, opaque, and the others are
/// transparent.
pub proof fn the_picture_is_a_padlock(status: TrayStatus, x: int, y: int, k: int)
    requires
        0 <= x < 32,
        0 <= y < 32,
        0 <= k < 4,
    ensures
        icon::icon_bytes(status).len() == 32 * 32 * 4,
        ({
            let keyhole = 14 <= x < 18 && 16 <= y < 23;
            let opening = 12 <= x <= 20 && 10 <= y <= 19;
            let body = 7 <= x <= 25 && 13 <= y <= 25;
            let shackle = 5 <= x < 27 && 6 <= y < 17 && (x - 16) * (x - 16) + (y - 14) * (y - 14)
                <= 100;
            let shade = match status {
                TrayStatus::Locked => seq![126u8, 135u8, 130u8, 255u8],
                TrayStatus::Unlocked => seq![22u8, 155u8, 99u8, 255u8],
                TrayStatus::Pending => seq![216u8, 145u8, 34u8, 255u8],
            };
            let painted = keyhole || !opening && (body || shackle);
            icon::icon_bytes(status)[(y * 32 + x) * 4 + k] == if painted {
                shade[k]
            } else {
                0
            }
        }),
{
    let i = (y * 32 + x) * 4 + k;
    assert(0 <= i < 4096);
    assert(i / 4 == y * 32 + x);
    assert(i / 4 % 32 == x);
    assert(i / 128 == y);
    assert(i % 4 == k);
    assert(icon::icon_bytes(status)[i] == icon::icon_byte(status, i));
}

/// The address of a login is the one that holds the code, where there is one.
pub proof fn people_sign_in_with_the_code(authorization: AwsDeviceAuthorization)
    ensures
        authorization.verification_uri_complete matches Some(url) ==> runtime::sign_in_url(
            authorization,
        ) == url@,
        authorization.verification_uri_complete is None ==> runtime::sign_in_url(authorization)
            == authorization.verification_uri@,
{
}

/// What the windows do: they are shown, toggled and closed on request; locking
/// locks the vault and wipes the main window where it is open; a change of the
/// state refreshes the tray, shows a login that is under way, and opens its
/// address unless that was opened already.
pub proof fn the_windows_follow_events(
    event: AppEvent,
    main_open: bool,
    login: AwsLoginStatus,
    opened: Option<Seq<char>>,
)
    ensures
        ({
            let done = runtime::reaction(event, main_open, login, opened);
            match event {
                AppEvent::Show => done == seq![Command::ShowMain],
                AppEvent::Toggle => done == seq![Command::ToggleMain],
                AppEvent::Quit => done == seq![Command::Quit],
                AppEvent::Lock => {
                    &&& done.len() == if main_open {
                        2int
                    } else {
                        1int
                    }
                    &&& done[0] is LockVault
                    &&& main_open ==> done[1] is ClearMain
                },
                AppEvent::StateChanged => {
                    let running = login is Starting || login is AwaitingUser
                        || login is Discovering;
                    let address = match login {
                        AwsLoginStatus::AwaitingUser(authorization) => match authorization.verification_uri_complete {
                            Some(url) => Some(url@),
                            None => Some(authorization.verification_uri@),
                        },
                        _ => None,
                    };
                    let opens = address is Some && opened != address;
                    &&& done.len() == 1 + (if running {
                        1int
                    } else {
                        0int
                    }) + (if opens {
                        1int
                    } else {
                        0int
                    })
                    &&& done[0] is RefreshTray
                    &&& running ==> done[1] is ShowAwsLogin
                    &&& opens ==> done[2] == Command::OpenUrl(address->Some_0)
                },
            }
        }),
{
}

/// The address that counts as opened is that of the login that awaits a person;
/// once none does, none counts, and other events change nothing.
pub proof fn the_opened_address_is_that_of_the_login(
    event: AppEvent,
    login: AwsLoginStatus,
    opened: Option<Seq<char>>,
)
    ensures
        !(event is StateChanged) ==> runtime::opened_after(event, login, opened) == opened,
        event is StateChanged ==> match login {
            AwsLoginStatus::AwaitingUser(authorization) => runtime::opened_after(
                event,
                login,
                opened,
            ) == match authorization.verification_uri_complete {
                Some(url) => Some(url@),
                None => Some(authorization.verification_uri@),
            },
            _ => runtime::opened_after(event, login, opened) is None,
        },
{
}

/// Something waits for a decision exactly where a request for a secret or for
/// credentials does. Closing a window leaves the other as it is; only a window
/// that asked for a decision, and that a person closed, dismisses a request.
pub proof fn windows_are_closed_one_by_one(
    snapshot: AppSnapshot,
    windows: Windows,
    was_main: bool,
    was_request: bool,
)
    ensures
        runtime::has_requests(snapshot) <==> snapshot.pending@.len() + snapshot.pending_aws@.len()
            > 0,
        ({
            let after = runtime::closed(windows, was_main, was_request);
            &&& after.main <==> windows.main && !was_main
            &&& after.request <==> windows.request && !was_request
            &&& was_request ==> !after.closing_request
            &&& !was_request ==> after.closing_request == windows.closing_request
            &&& after.opened_aws_login_url == windows.opened_aws_login_url
        }),
        runtime::dismisses(windows, was_request) <==> was_request && !windows.closing_request,
        ({
            let after = runtime::reconciled(windows, runtime::has_requests(snapshot));
            &&& after.main == windows.main
            &&& after.request == windows.request
            &&& after.opened_aws_login_url == windows.opened_aws_login_url
            &&& after.closing_request <==> windows.closing_request || windows.request
                && snapshot.pending@.len() + snapshot.pending_aws@.len() == 0
        }),
{
}

/// A command says what it is.
pub proof fn commands_say_what_they_are(given: WindowCommand)
    ensures
        given is ShowMain <==> runtime::command(given) is ShowMain,
        given is ToggleMain <==> runtime::command(given) is ToggleMain,
        given is LockVault <==> runtime::command(given) is LockVault,
        given is ClearMain <==> runtime::command(given) is ClearMain,
        given is RefreshTray <==> runtime::command(given) is RefreshTray,
        given is ShowAwsLogin <==> runtime::command(given) is ShowAwsLogin,
        given is Quit <==> runtime::command(given) is Quit,
        given matches WindowCommand::OpenUrl(url) ==> runtime::command(given) == Command::OpenUrl(
            url@,
        ),
{
}

} // verus!
