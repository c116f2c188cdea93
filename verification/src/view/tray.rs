//! The icon in the system tray: its colour, its tooltip and its menu.

use vstd::prelude::*;
use vstd::string::*;

use crate::controller::AppSnapshot;
use crate::icon::TrayStatus;
use crate::numeral;
use crate::text;

verus! {

/// What the application reacts to.
#[derive(Clone, Copy, Debug, PartialEq, Eq, Structural)]
pub enum AppEvent {
    Show,
    Toggle,
    Lock,
    StateChanged,
    Quit,
}

/// A button of the mouse.
#[derive(Clone, Copy, Debug, PartialEq, Eq, Structural)]
pub enum MouseButton {
    Left,
    Right,
    Middle,
}

/// Whether a button of the mouse is held.
#[derive(Clone, Copy, Debug, PartialEq, Eq, Structural)]
pub enum MouseButtonState {
    Up,
    Down,
}

/// Whether a click on the icon shows or hides the window: the left button does,
/// once it is let go.
pub fn should_toggle_for_tray_click(button: MouseButton, state: MouseButtonState) -> (r: bool)
    ensures
        r == (button is Left && state is Up),
{
    button == MouseButton::Left && state == MouseButtonState::Up
}

/// The event that an entry of the menu stands for.
pub open spec fn event_of(id: Seq<char>) -> Option<AppEvent> {
    if id == "show"@ {
        Some(AppEvent::Show)
    } else if id == "lock"@ {
        Some(AppEvent::Lock)
    } else if id == "quit"@ {
        Some(AppEvent::Quit)
    } else {
        None
    }
}

pub fn menu_event(id: &str) -> (r: Option<AppEvent>)
    ensures
        r == event_of(id@),
{
    if text::str_eq(id, "show") {
        Some(AppEvent::Show)
    } else if text::str_eq(id, "lock") {
        Some(AppEvent::Lock)
    } else if text::str_eq(id, "quit") {
        Some(AppEvent::Quit)
    } else {
        None
    }
}

/// The colour of the icon.
pub fn tray_status(snapshot: &AppSnapshot) -> (r: TrayStatus)
    ensures
        r == if snapshot.unlocked {
            TrayStatus::Unlocked
        } else {
            TrayStatus::Locked
        },
{
    if snapshot.unlocked {
        TrayStatus::Unlocked
    } else {
        TrayStatus::Locked
    }
}

/// How many requests wait for an answer.
pub open spec fn pending_count(snapshot: AppSnapshot) -> nat {
    snapshot.pending@.len() + snapshot.pending_aws@.len()
}

/// The ending of a word that is counted.
pub open spec fn plural(count: nat) -> Seq<char> {
    if count == 1 {
        ""@
    } else {
        "s"@
    }
}

/// What is said of the icon when the mouse rests on it.
pub open spec fn tooltip(snapshot: AppSnapshot) -> Seq<char> {
    let count = pending_count(snapshot);
    if count > 0 {
        "secretd — "@ + numeral::decimal(count) + " request"@ + plural(count) + " pending"@
    } else if snapshot.unlocked {
        "secretd — unlocked · "@ + numeral::decimal(snapshot.secrets@.len()) + " credentials"@
    } else {
        "secretd — locked"@
    }
}

fn count_pending(snapshot: &AppSnapshot) -> (r: u128)
    ensures
        r == pending_count(*snapshot),
{
    snapshot.pending.len() as u128 + snapshot.pending_aws.len() as u128
}

fn plural_of(count: u128) -> (r: &'static str)
    ensures
        r@ == plural(count as nat),
{
    if count == 1 {
        ""
    } else {
        "s"
    }
}

/// What is said of the icon when the mouse rests on it.
pub fn tray_tooltip(snapshot: &AppSnapshot) -> (r: String)
    ensures
        r@ == tooltip(*snapshot),
{
    let count: u128 = count_pending(snapshot);
    if count > 0 {
        let mut r = "secretd — ".to_owned();
        let number = numeral::u128_text(count);
        r.append(number.as_str());
        r.append(" request");
        r.append(plural_of(count));
        r.append(" pending");
        r
    } else if snapshot.unlocked {
        let mut r = "secretd — unlocked · ".to_owned();
        let number = numeral::u64_text(snapshot.secrets.len() as u64);
        r.append(number.as_str());
        r.append(" credentials");
        r
    } else {
        "secretd — locked".to_owned()
    }
}

/// A line of the menu.
#[derive(Debug, PartialEq, Eq)]
pub enum MenuLine {
    /// Words that cannot be chosen.
    Note(String),
    Separator,
    Entry { id: &'static str, label: &'static str, enabled: bool },
}

/// A line of the menu as it is spoken of.
pub enum MenuRow {
    Note(Seq<char>),
    Separator,
    Entry { id: Seq<char>, label: Seq<char>, enabled: bool },
}

/// What a line of the menu shows.
pub open spec fn menu_row(line: MenuLine) -> MenuRow {
    match line {
        MenuLine::Note(words) => MenuRow::Note(words@),
        MenuLine::Separator => MenuRow::Separator,
        MenuLine::Entry { id, label, enabled } => MenuRow::Entry {
            id: id@,
            label: label@,
            enabled,
        },
    }
}

/// What the lines of the menu show.
pub open spec fn menu_rows(lines: Seq<MenuLine>) -> Seq<MenuRow> {
    lines.map_values(|line: MenuLine| menu_row(line))
}

/// The entries that the menu always has.
pub open spec fn standing_entries(unlocked: bool) -> Seq<MenuRow> {
    seq![
        MenuRow::Entry { id: "show"@, label: "Open secretd"@, enabled: true },
        MenuRow::Entry { id: "lock"@, label: "Lock vault"@, enabled: unlocked },
        MenuRow::Separator,
        MenuRow::Entry { id: "quit"@, label: "Quit secretd"@, enabled: true },
    ]
}

/// The menu: how many requests wait, where some do, then the entries.
pub open spec fn menu(snapshot: AppSnapshot) -> Seq<MenuRow> {
    let count = pending_count(snapshot);
    let notes = if count > 0 {
        seq![
            MenuRow::Note(
                numeral::decimal(count) + " access request"@ + plural(count) + " pending"@,
            ),
            MenuRow::Separator,
        ]
    } else {
        seq![]
    };
    notes + standing_entries(snapshot.unlocked)
}

/// The menu of the icon.
pub fn tray_menu(snapshot: &AppSnapshot) -> (r: Vec<MenuLine>)
    ensures
        menu_rows(r@) == menu(*snapshot),
{
    let mut lines: Vec<MenuLine> = Vec::new();
    let count: u128 = count_pending(snapshot);
    if count > 0 {
        let mut words = numeral::u128_text(count);
        words.append(" access request");
        words.append(plural_of(count));
        words.append(" pending");
        lines.push(MenuLine::Note(words));
        lines.push(MenuLine::Separator);
    }
    lines.push(MenuLine::Entry { id: "show", label: "Open secretd", enabled: true });
    lines.push(MenuLine::Entry { id: "lock", label: "Lock vault", enabled: snapshot.unlocked });
    lines.push(MenuLine::Separator);
    lines.push(MenuLine::Entry { id: "quit", label: "Quit secretd", enabled: true });
    assert(menu_rows(lines@) =~= menu(*snapshot));
    lines
}

/// Every entry of the menu stands for an event, and the vault can be locked
/// from it exactly when it is open.
pub proof fn menu_entries_do_something(snapshot: AppSnapshot, i: int)
    requires
        0 <= i < menu(snapshot).len(),
        menu(snapshot)[i] is Entry,
    ensures
        event_of(menu(snapshot)[i]->id) is Some,
        event_of(menu(snapshot)[i]->id) == Some(AppEvent::Lock) ==> menu(snapshot)[i]->enabled
            == snapshot.unlocked,
{
    reveal_strlit("show");
    reveal_strlit("lock");
    reveal_strlit("quit");
    assert("show"@[0] != "lock"@[0]);
    assert("show"@[0] != "quit"@[0]);
    assert("lock"@[0] != "quit"@[0]);
}

} // verus!
