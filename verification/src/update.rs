//! What a key press does to the state.
//!
//! Keys that mean the same everywhere are taken first: the combination that
//! ends the program, the help key, the key that goes back, and the keys that
//! change the session. Every other key goes to the one part that has the
//! focus, which the session and the input mode decide together.

use crate::app::{App, MODE_COUNT, SESSION_MAX};
use crate::components::multi_select_list::MultiSelectList;
use crate::date::{saturating_day, step_days, Direction, Magnitude};
use crate::key::{KeyCode, KeyEvent, CONTROL, SHIFT};
use vstd::prelude::*;

verus! {

/// The part of the screen that takes the keys.
#[derive(Debug, Clone, Copy, PartialEq, Eq, Hash, Structural)]
pub enum Focus {
    /// The list of input modes.
    ModeList,
    /// The calendar.
    Calendar,
    /// The text field for a number.
    NumberText,
    /// The text field for a name.
    NameText,
    /// The list of game modes.
    ItemList,
    /// The list of map states.
    MapStateList,
}

/// A text field, which lives with the screen and is fed by it.
#[derive(Debug, Clone, Copy, PartialEq, Eq, Hash, Structural)]
pub enum TextField {
    /// The field for a number.
    Number,
    /// The field for a name.
    Name,
}

/// The part that has the focus in `session` with the cursor of the mode list
/// at `mode`; none outside the sessions and modes that exist.
pub open spec fn focus_of(session: int, mode: int) -> Option<Focus> {
    if session == 0 {
        Some(Focus::ModeList)
    } else if session == 1 {
        if mode == 0 {
            Some(Focus::Calendar)
        } else if mode == 1 || mode == 2 {
            Some(Focus::NumberText)
        } else if mode == 3 {
            Some(Focus::NameText)
        } else {
            None
        }
    } else if session == 2 {
        Some(Focus::ItemList)
    } else if session == 3 {
        Some(Focus::MapStateList)
    } else {
        None
    }
}

/// Every session and input mode that exists gives the focus to some part.
pub proof fn lemma_focus_total(session: int, mode: int)
    requires
        0 <= session < SESSION_MAX,
        0 <= mode < MODE_COUNT,
    ensures
        focus_of(session, mode).is_some(),
{
}

/// The day that the calendar shows after `key`: Up goes back and Down goes
/// on, by thirty days with Shift alone held and by one day otherwise; any
/// other key leaves the day.
pub open spec fn calendar_day(day: int, key: KeyEvent) -> int {
    let magnitude = if key.is_shift_only() {
        Magnitude::Fast
    } else {
        Magnitude::Day
    };
    match key.code {
        KeyCode::Up => saturating_day(day, step_days(Direction::Backward, magnitude)),
        KeyCode::Down => saturating_day(day, step_days(Direction::Forward, magnitude)),
        _ => day,
    }
}

/// Whether `post` is the list `pre` after `key`, where the key is one of the
/// list's own: Down moves the cursor on, Up moves it back, Enter flips the
/// selection under the cursor.
pub open spec fn list_takes(pre: MultiSelectList, key: KeyEvent, post: MultiSelectList) -> bool {
    match key.code {
        KeyCode::Down => pre.stepped(post, true),
        KeyCode::Up => pre.stepped(post, false),
        KeyCode::Enter => pre.flipped(post, pre.position() as usize),
        _ => false,
    }
}

/// Whether `key` is one of the keys of a selection list.
pub open spec fn is_list_key(key: KeyEvent) -> bool {
    key.code == KeyCode::Down || key.code == KeyCode::Up || key.code == KeyCode::Enter
}

/// Whether `post` and `field` are what `key` makes of `pre` once it has
/// reached the part with the focus, where that key is not the help key.
///
/// The mode list moves its cursor on Up and Down. The two selection lists
/// move theirs on Up and Down and flip a selection on Enter. The calendar
/// steps its date. A key that the part with the focus does not know leaves
/// the state as it is. A text field changes nothing here: the key is named as
/// meant for it.
pub open spec fn focused(pre: App, key: KeyEvent, post: App, field: Option<TextField>) -> bool {
    match focus_of(pre.session as int, pre.mode.position()) {
        Some(Focus::ModeList) => field.is_none() && match key.code {
            KeyCode::Up => post == (App { mode: post.mode, ..pre }) && pre.mode.stepped(
                post.mode,
                false,
            ),
            KeyCode::Down => post == (App { mode: post.mode, ..pre }) && pre.mode.stepped(
                post.mode,
                true,
            ),
            _ => post == pre,
        },
        Some(Focus::Calendar) => {
            &&& field.is_none()
            &&& post == (App { date: post.date, ..pre })
            &&& post.date.day() == calendar_day(pre.date.day(), key)
        },
        Some(Focus::NumberText) => field == Some(TextField::Number) && post == pre,
        Some(Focus::NameText) => field == Some(TextField::Name) && post == pre,
        Some(Focus::ItemList) => field.is_none() && if is_list_key(key) {
            post == (App { item: post.item, ..pre }) && list_takes(pre.item, key, post.item)
        } else {
            post == pre
        },
        Some(Focus::MapStateList) => field.is_none() && if is_list_key(key) {
            post == (App { map_state: post.map_state, ..pre }) && list_takes(
                pre.map_state,
                key,
                post.map_state,
            )
        } else {
            post == pre
        },
        None => false,
    }
}

/// Whether `post` and `field` are what `key` makes of `pre` once it is handed
/// to the router.
///
/// The help key opens or closes the help page, in every session, and no
/// other key does. Every other key goes to the part with the focus.
pub open spec fn routed(pre: App, key: KeyEvent, post: App, field: Option<TextField>) -> bool {
    if key.is_help_key() {
        field.is_none() && post == pre.spec_help()
    } else {
        focused(pre, key, post, field)
    }
}

/// Whether `post` and `field` are what `key` makes of `pre`.
///
/// The keys that mean the same in every session are taken first. The
/// combination that ends the program sets the flag and touches nothing else,
/// whatever is open. The help key opens or closes the help page. Escape goes
/// back. Left and Right change the session. Every other key is routed to the
/// part with the focus.
pub open spec fn updated(pre: App, key: KeyEvent, post: App, field: Option<TextField>) -> bool {
    if key.is_force_quit() {
        field.is_none() && post == (App { force_quit: true, ..pre })
    } else if key.is_help_key() {
        field.is_none() && post == pre.spec_help()
    } else {
        match key.code {
            KeyCode::Esc => field.is_none() && post == pre.spec_go_back(),
            KeyCode::Left => field.is_none() && post == pre.spec_prev_session(),
            KeyCode::Right => field.is_none() && post == pre.spec_next_session(),
            _ => focused(pre, key, post, field),
        }
    }
}

/// Of the keys that do not end the program, only the help key and Escape
/// change the page or the number of layers: the help key opens or closes the
/// help page wherever the focus is, and every other key leaves both.
pub proof fn lemma_page_keys(pre: App, key: KeyEvent, post: App, field: Option<TextField>)
    requires
        updated(pre, key, post, field),
    ensures
        !key.is_force_quit() && key.is_help_key() ==> field.is_none() && post == pre.spec_help(),
        !key.is_help_key() && key.code != KeyCode::Esc ==> post.page == pre.page && post.layer
            == pre.layer,
{
}

/// Whether `key` is the combination that ends the program at once.
pub fn is_force_quit_key(key: KeyEvent) -> (r: bool)
    ensures
        r == key.is_force_quit(),
{
    key.modifiers.bits == CONTROL && match key.code {
        KeyCode::Char(c) => c == 'c' || c == 'C',
        _ => false,
    }
}

impl App {
    /// The part that takes the keys.
    pub fn focus(&self) -> (f: Focus)
        requires
            self.wf(),
        ensures
            focus_of(self.session as int, self.mode.position()) == Some(f),
    {
        let mode = self.mode.cursor();
        if self.session == 0 {
            Focus::ModeList
        } else if self.session == 1 {
            if mode == 0 {
                Focus::Calendar
            } else if mode == 3 {
                Focus::NameText
            } else {
                Focus::NumberText
            }
        } else if self.session == 2 {
            Focus::ItemList
        } else {
            Focus::MapStateList
        }
    }
}

/// Takes a key press. The result names the text field that the key is meant
/// for, if it is meant for one; the caller feeds it.
pub fn update(app: &mut App, key_event: KeyEvent) -> (field: Option<TextField>)
    requires
        old(app).wf(),
    ensures
        updated(*old(app), key_event, *final(app), field),
        final(app).wf(),
        old(app).settled() && old(app).layer > 0 ==> final(app).settled(),
        key_event.is_force_quit() ==> !final(app).running(),
{
    if is_force_quit_key(key_event) {
        app.force_quit();
        return None;
    }
    if key_event.is_help() {
        app.help();
        return None;
    }
    match key_event.code {
        KeyCode::Esc => {
            app.go_back();
            None
        },
        KeyCode::Left => {
            app.prev_session();
            None
        },
        KeyCode::Right => {
            app.next_session();
            None
        },
        _ => update_app_session(app, key_event),
    }
}

/// Hands a key press to the part that has the focus. The help key is taken
/// here too, so that it means the same to a caller that routes a key itself.
pub fn update_app_session(app: &mut App, key_event: KeyEvent) -> (field: Option<TextField>)
    requires
        old(app).wf(),
    ensures
        routed(*old(app), key_event, *final(app), field),
        final(app).wf(),
        old(app).settled() && old(app).layer > 0 ==> final(app).settled(),
{
    if key_event.is_help() {
        app.help();
        return None;
    }
    match app.focus() {
        Focus::ModeList => {
            match key_event.code {
                KeyCode::Up => app.mode.prev(),
                KeyCode::Down => app.mode.next(),
                _ => {},
            }
            None
        },
        Focus::Calendar => {
            update_calendar(app, key_event);
            None
        },
        Focus::NumberText => Some(TextField::Number),
        Focus::NameText => Some(TextField::Name),
        Focus::ItemList => {
            match key_event.code {
                KeyCode::Down => app.item.next(),
                KeyCode::Up => app.item.prev(),
                KeyCode::Enter => {
                    app.item.select_cursor();
                },
                _ => {},
            }
            None
        },
        Focus::MapStateList => {
            match key_event.code {
                KeyCode::Down => app.map_state.next(),
                KeyCode::Up => app.map_state.prev(),
                KeyCode::Enter => {
                    app.map_state.select_cursor();
                },
                _ => {},
            }
            None
        },
    }
}

/// Steps the date of the calendar: back on Up, on on Down, by thirty days
/// with Shift alone held and by one day otherwise.
pub fn update_calendar(app: &mut App, key_event: KeyEvent)
    ensures
        *final(app) == (App { date: final(app).date, ..*old(app) }),
        old(app).date.wf() ==> final(app).date.wf(),
        final(app).date.day() == calendar_day(old(app).date.day(), key_event),
{
    let magnitude = if key_event.modifiers.bits == SHIFT {
        Magnitude::Fast
    } else {
        Magnitude::Day
    };
    match key_event.code {
        KeyCode::Up => app.date.step(Direction::Backward, magnitude),
        KeyCode::Down => app.date.step(Direction::Forward, magnitude),
        _ => {},
    }
}

} // verus!
