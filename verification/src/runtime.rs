//! Which windows are open, and what an event does to them.

use vstd::prelude::*;
use vstd::string::*;

use crate::aws::{AwsDeviceAuthorization, AwsLoginStatus};
use crate::controller::AppSnapshot;
use crate::controller_aws;
use crate::paths;
use crate::text;
use crate::view::tray::AppEvent;

verus! {

/// The width and the height of the main window.
pub const MAIN_WINDOW_SIZE: (u32, u32) = (1040, 700);

/// The width and the height of the window that asks for a decision.
pub const REQUEST_WINDOW_SIZE: (u32, u32) = (620, 520);

/// How often events are looked for, in milliseconds.
pub const POLL_INTERVAL_MILLIS: u64 = 200;

/// The keys that end the program, where the platform has any.
pub fn quit_keystroke(macos: bool) -> (r: Option<&'static str>)
    ensures
        macos ==> (r matches Some(keys) && keys@ == "cmd-q"@),
        !macos ==> r is None,
{
    if macos {
        Some("cmd-q")
    } else {
        None
    }
}

/// What becomes of the window that asks for a decision.
#[derive(Clone, Copy, Debug, PartialEq, Eq, Structural)]
pub enum RequestWindowAction {
    Open,
    Close,
    Keep,
}

/// The window that asks for a decision is there exactly while something waits
/// for one.
pub open spec fn window_action(
    has_requests: bool,
    request_window_open: bool,
) -> RequestWindowAction {
    if has_requests && !request_window_open {
        RequestWindowAction::Open
    } else if !has_requests && request_window_open {
        RequestWindowAction::Close
    } else {
        RequestWindowAction::Keep
    }
}

pub fn request_window_action(has_requests: bool, request_window_open: bool) -> (r:
    RequestWindowAction)
    ensures
        r == window_action(has_requests, request_window_open),
{
    match (has_requests, request_window_open) {
        (true, false) => RequestWindowAction::Open,
        (false, true) => RequestWindowAction::Close,
        _ => RequestWindowAction::Keep,
    }
}

/// What becomes of the main window.
#[derive(Clone, Copy, Debug, PartialEq, Eq, Structural)]
pub enum MainWindowAction {
    /// It is there and comes to the front.
    Activate,
    /// A new one is opened.
    Open,
    /// It has been closed.
    Closed,
}

/// Showing the main window: one that is there and answers comes to the front,
/// else a new one is opened.
pub fn show_main(main_open: bool, activated: bool) -> (r: MainWindowAction)
    ensures
        r == if main_open && activated {
            MainWindowAction::Activate
        } else {
            MainWindowAction::Open
        },
{
    if main_open && activated {
        MainWindowAction::Activate
    } else {
        MainWindowAction::Open
    }
}

/// Toggling the main window: one that is there and could be closed is closed,
/// else it is shown.
pub fn toggle_main(main_open: bool, removed: bool, activated: bool) -> (r: MainWindowAction)
    ensures
        r == if main_open && removed {
            MainWindowAction::Closed
        } else if main_open && activated {
            MainWindowAction::Activate
        } else {
            MainWindowAction::Open
        },
{
    if main_open && removed {
        MainWindowAction::Closed
    } else {
        show_main(main_open, activated)
    }
}

/// The address at which a person signs in: the one that holds the code, where
/// there is one.
pub open spec fn sign_in_url(authorization: AwsDeviceAuthorization) -> Seq<char> {
    match authorization.verification_uri_complete {
        Some(url) => url@,
        None => authorization.verification_uri@,
    }
}

pub fn sign_in_address(authorization: &AwsDeviceAuthorization) -> (r: String)
    ensures
        r@ == sign_in_url(*authorization),
{
    match &authorization.verification_uri_complete {
        Some(url) => url.clone(),
        None => authorization.verification_uri.clone(),
    }
}

/// What the windows are told to do.
#[derive(Debug, PartialEq, Eq)]
pub enum WindowCommand {
    ShowMain,
    ToggleMain,
    LockVault,
    /// What is typed and shown in the main window is wiped.
    ClearMain,
    RefreshTray,
    ShowAwsLogin,
    OpenUrl(String),
    Quit,
}

/// What the windows are told to do, as it is spoken of.
pub enum Command {
    ShowMain,
    ToggleMain,
    LockVault,
    ClearMain,
    RefreshTray,
    ShowAwsLogin,
    OpenUrl(Seq<char>),
    Quit,
}

/// What a command says.
pub open spec fn command(c: WindowCommand) -> Command {
    match c {
        WindowCommand::ShowMain => Command::ShowMain,
        WindowCommand::ToggleMain => Command::ToggleMain,
        WindowCommand::LockVault => Command::LockVault,
        WindowCommand::ClearMain => Command::ClearMain,
        WindowCommand::RefreshTray => Command::RefreshTray,
        WindowCommand::ShowAwsLogin => Command::ShowAwsLogin,
        WindowCommand::OpenUrl(url) => Command::OpenUrl(url@),
        WindowCommand::Quit => Command::Quit,
    }
}

/// What commands say.
pub open spec fn commands(c: Seq<WindowCommand>) -> Seq<Command> {
    c.map_values(|c: WindowCommand| command(c))
}

/// Which windows are open.
#[derive(Debug)]
pub struct Windows {
    pub main: bool,
    pub request: bool,
    /// Whether the program itself is closing the window that asks for a
    /// decision.
    pub closing_request: bool,
    /// The address that was opened in a browser for the login under way.
    pub opened_aws_login_url: Option<String>,
}

/// What an event makes the windows do, given the login that is under way and
/// the address that was opened last.
pub open spec fn reaction(
    event: AppEvent,
    main_open: bool,
    login: AwsLoginStatus,
    opened: Option<Seq<char>>,
) -> Seq<Command> {
    match event {
        AppEvent::Show => seq![Command::ShowMain],
        AppEvent::Toggle => seq![Command::ToggleMain],
        AppEvent::Lock => if main_open {
            seq![Command::LockVault, Command::ClearMain]
        } else {
            seq![Command::LockVault]
        },
        AppEvent::StateChanged => match login {
            AwsLoginStatus::Starting | AwsLoginStatus::Discovering => seq![
                Command::RefreshTray,
                Command::ShowAwsLogin,
            ],
            AwsLoginStatus::AwaitingUser(authorization) => if opened == Some(
                sign_in_url(authorization),
            ) {
                seq![Command::RefreshTray, Command::ShowAwsLogin]
            } else {
                seq![
                    Command::RefreshTray,
                    Command::ShowAwsLogin,
                    Command::OpenUrl(sign_in_url(authorization)),
                ]
            },
            _ => seq![Command::RefreshTray],
        },
        AppEvent::Quit => seq![Command::Quit],
    }
}

/// The address that counts as opened after an event.
pub open spec fn opened_after(
    event: AppEvent,
    login: AwsLoginStatus,
    opened: Option<Seq<char>>,
) -> Option<Seq<char>> {
    if event is StateChanged {
        match login {
            AwsLoginStatus::AwaitingUser(authorization) => Some(sign_in_url(authorization)),
            _ => None,
        }
    } else {
        opened
    }
}

impl Windows {
    /// No window is open.
    pub fn new() -> (r: Self)
        ensures
            !r.main,
            !r.request,
            !r.closing_request,
            r.opened_aws_login_url is None,
    {
        Windows { main: false, request: false, closing_request: false, opened_aws_login_url: None }
    }

    /// Takes note that a main window was opened.
    pub fn main_opened(&mut self)
        ensures
            *final(self) == (Windows { main: true, ..*old(self) }),
    {
        self.main = true;
    }

    /// Takes note that a window that asks for a decision was opened.
    pub fn request_opened(&mut self)
        ensures
            *final(self) == (Windows { request: true, ..*old(self) }),
    {
        self.request = true;
    }

    /// What an event makes the windows do.
    pub fn dispatch(&mut self, event: AppEvent, login: &AwsLoginStatus) -> (r: Vec<WindowCommand>)
        ensures
            commands(r@) == reaction(
                event,
                old(self).main,
                *login,
                paths::given(old(self).opened_aws_login_url),
            ),
            paths::given(final(self).opened_aws_login_url) == opened_after(
                event,
                *login,
                paths::given(old(self).opened_aws_login_url),
            ),
            *final(self) == (Windows {
                opened_aws_login_url: final(self).opened_aws_login_url,
                ..*old(self)
            }),
    {
        let mut asked: Vec<WindowCommand> = Vec::new();
        let ghost expected = reaction(
            event,
            self.main,
            *login,
            paths::given(self.opened_aws_login_url),
        );
        match event {
            AppEvent::Show => asked.push(WindowCommand::ShowMain),
            AppEvent::Toggle => asked.push(WindowCommand::ToggleMain),
            AppEvent::Lock => {
                asked.push(WindowCommand::LockVault);
                if self.main {
                    asked.push(WindowCommand::ClearMain);
                }
            },
            AppEvent::StateChanged => {
                asked.push(WindowCommand::RefreshTray);
                match login {
                    AwsLoginStatus::Starting | AwsLoginStatus::Discovering => {
                        self.opened_aws_login_url = None;
                        asked.push(WindowCommand::ShowAwsLogin);
                    },
                    AwsLoginStatus::AwaitingUser(authorization) => {
                        asked.push(WindowCommand::ShowAwsLogin);
                        let url = sign_in_address(authorization);
                        let known = match &self.opened_aws_login_url {
                            Some(opened) => text::str_eq(opened.as_str(), url.as_str()),
                            None => false,
                        };
                        if !known {
                            self.opened_aws_login_url = Some(url.clone());
                            asked.push(WindowCommand::OpenUrl(url));
                        }
                    },
                    _ => {
                        self.opened_aws_login_url = None;
                    },
                }
            },
            AppEvent::Quit => asked.push(WindowCommand::Quit),
        }
        assert(commands(asked@) =~= expected);
        asked
    }

    /// What becomes of the window that asks for a decision, given what waits
    /// for one. While it is being closed it counts as closing.
    pub fn reconcile(&mut self, snapshot: &AppSnapshot) -> (r: RequestWindowAction)
        ensures
            r == window_action(has_requests(*snapshot), old(self).request),
            *final(self) == reconciled(*old(self), has_requests(*snapshot)),
    {
        let has_requests = snapshot.pending.len() > 0 || snapshot.pending_aws.len() > 0;
        let action = request_window_action(has_requests, self.request);
        if action == RequestWindowAction::Close {
            self.closing_request = true;
        }
        action
    }

    /// Takes note that a window was closed. Says whether the oldest request is
    /// dismissed with it: where a person closed the window that asked for the
    /// decision.
    pub fn window_closed(&mut self, was_main: bool, was_request: bool) -> (r: bool)
        ensures
            r == dismisses(*old(self), was_request),
            *final(self) == closed(*old(self), was_main, was_request),
    {
        let dismiss = was_request && !self.closing_request;
        if was_main {
            self.main = false;
        }
        if was_request {
            self.request = false;
            self.closing_request = false;
        }
        dismiss
    }

    /// Takes note that the window that asks for a decision was gone already
    /// when it was to be closed.
    pub fn request_was_gone(&mut self)
        ensures
            *final(self) == (Windows { request: false, closing_request: false, ..*old(self) }),
    {
        self.request = false;
        self.closing_request = false;
    }
}

/// Whether something waits for a decision.
pub open spec fn has_requests(snapshot: AppSnapshot) -> bool {
    snapshot.pending@.len() > 0 || snapshot.pending_aws@.len() > 0
}

/// The windows once the one that asks for a decision has been told to close
/// where nothing waits for a decision.
pub open spec fn reconciled(windows: Windows, waiting: bool) -> Windows {
    Windows {
        closing_request: windows.closing_request || window_action(waiting, windows.request)
            is Close,
        ..windows
    }
}

/// Whether the closing of a window dismisses the oldest request: where a person
/// closed the window that asked for the decision.
pub open spec fn dismisses(windows: Windows, was_request: bool) -> bool {
    was_request && !windows.closing_request
}

/// The windows after one was closed.
pub open spec fn closed(windows: Windows, was_main: bool, was_request: bool) -> Windows {
    Windows {
        main: windows.main && !was_main,
        request: windows.request && !was_request,
        closing_request: windows.closing_request && !was_request,
        ..windows
    }
}

/// A window that the program closes itself dismisses no request, and once it is
/// closed, one that a person closes dismisses one again.
pub proof fn only_people_dismiss_requests(windows: Windows, was_main: bool)
    requires
        windows.request,
    ensures
        !dismisses(reconciled(windows, false), true),
        dismisses(closed(reconciled(windows, false), was_main, true), true),
{
}

/// Once the window that asks for a decision has been opened or closed as told,
/// it is open exactly when something waits for a decision.
pub proof fn the_request_window_follows_requests(waiting: bool, request_window_open: bool)
    ensures
        match window_action(waiting, request_window_open) {
            RequestWindowAction::Open => true,
            RequestWindowAction::Close => false,
            RequestWindowAction::Keep => request_window_open,
        } == waiting,
{
}

/// A login's address is opened in a browser once: an event that finds the same
/// address awaited again opens nothing.
pub proof fn an_address_is_opened_once(
    event: AppEvent,
    main_open: bool,
    login: AwsLoginStatus,
    opened: Option<Seq<char>>,
    i: int,
)
    requires
        login is AwaitingUser,
        event is StateChanged,
        0 <= i < reaction(
            event,
            main_open,
            login,
            opened_after(event, login, opened),
        ).len(),
    ensures
        !(reaction(event, main_open, login, opened_after(event, login, opened))[i] is OpenUrl),
{
}

/// A login that is under way is shown.
pub proof fn a_running_login_is_shown(
    main_open: bool,
    login: AwsLoginStatus,
    opened: Option<Seq<char>>,
)
    ensures
        controller_aws::login_running(login) == reaction(
            AppEvent::StateChanged,
            main_open,
            login,
            opened,
        ).contains(Command::ShowAwsLogin),
{
    let commands = reaction(AppEvent::StateChanged, main_open, login, opened);
    if controller_aws::login_running(login) {
        assert(commands[1] == Command::ShowAwsLogin);
    } else {
        assert(commands == seq![Command::RefreshTray]);
    }
}

} // verus!
