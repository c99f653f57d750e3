//! The state of the browser: where the user is, and what is chosen there.

use crate::components::multi_select_list::{DefaultSelection, MultiSelectList};
use crate::components::select_list::SelectList;
use crate::cycle::{
    advance, lemma_advance, lemma_full_turn, lemma_next_index, lemma_prev_index,
    lemma_steps_cancel, next_index, prev_index, step_backward, step_forward,
};
use crate::date::{DateCursor, MAX_JULIAN_DAY, MIN_JULIAN_DAY};
use crate::number::{numeral_value, parse_number};
use crate::style::Color;
use vstd::prelude::*;

verus! {

/// The number of sessions, which are the panels that the user moves between.
pub const SESSION_MAX: usize = 4;

/// The number of input modes that the first panel offers.
pub const MODE_COUNT: usize = 4;

/// What fills the screen.
#[derive(Debug, Clone, Copy, PartialEq, Eq, Hash, Structural)]
pub enum Page {
    /// The help text, laid over the panels.
    Help,
    /// The panels.
    Main,
}

impl Default for Page {
    /// The panels.
    fn default() -> (r: Self)
        ensures
            r == Page::Main,
    {
        Page::Main
    }
}

/// How a text field shows whether its content is a number.
#[derive(Debug, Clone, Copy, PartialEq, Eq, Hash, Structural)]
pub struct InputFeedback {
    /// Whether the text is a numeral.
    pub valid: bool,
    /// The colour of the text: light green for a numeral, light red
    /// otherwise.
    pub text_color: Color,
    /// The colour of the frame: that of the field's session.
    pub border_color: Color,
}

/// The whole state of the browser.
#[derive(Debug)]
pub struct App {
    /// The number of pages that are open, one over the other. With none the
    /// program ends.
    pub layer: u8,
    /// Whether the user has asked to end the program at once.
    pub force_quit: bool,
    /// The input mode of the second panel: by date, hottest, newest, search.
    pub mode: SelectList,
    /// The game modes to ask for.
    pub item: MultiSelectList,
    /// The map states to ask for.
    pub map_state: MultiSelectList,
    /// The date of the calendar.
    pub date: DateCursor,
    /// The page that is shown.
    pub page: Page,
    /// The panel that takes the keys.
    pub session: usize,
}

impl App {
    /// What holds of every state that the program passes through: the
    /// session is one of the panels, the mode list has one label for each
    /// input mode, the help page lies over at least one layer, and a page can
    /// still be laid over the panels.
    pub open spec fn wf(&self) -> bool {
        &&& self.session < SESSION_MAX
        &&& self.mode.wf()
        &&& self.mode.items().len() == MODE_COUNT
        &&& self.item.wf()
        &&& self.map_state.wf()
        &&& self.date.wf()
        &&& (self.page == Page::Help ==> self.layer >= 1)
        &&& (self.page == Page::Main ==> self.layer < u8::MAX)
    }

    /// What holds of every state that the keys lead to from the start: the
    /// help page is shown exactly when it lies over the panels, as the second
    /// layer, and nothing lies over it.
    pub open spec fn settled(&self) -> bool {
        &&& self.layer <= 2
        &&& (self.page == Page::Help <==> self.layer == 2)
    }

    /// The state after `k` moves to the next session.
    pub open spec fn next_sessions(self, k: nat) -> App
        decreases k,
    {
        if k == 0 {
            self
        } else {
            self.next_sessions((k - 1) as nat).spec_next_session()
        }
    }

    /// Whether the program goes on: a page is open, and the user has not
    /// asked to end at once.
    pub open spec fn running(&self) -> bool {
        !self.force_quit && self.layer > 0
    }

    /// The state after a step back: one layer less, if there is any, and the
    /// panels shown.
    pub open spec fn spec_go_back(self) -> App {
        App {
            layer: if self.layer == 0 {
                0u8
            } else {
                (self.layer - 1) as u8
            },
            page: Page::Main,
            ..self
        }
    }

    /// The state after the help page was opened or closed.
    pub open spec fn spec_help(self) -> App {
        if self.page == Page::Help {
            App { layer: (self.layer - 1) as u8, page: Page::Main, ..self }
        } else {
            App { layer: (self.layer + 1) as u8, page: Page::Help, ..self }
        }
    }

    /// The state after a move to the next session.
    pub open spec fn spec_next_session(self) -> App {
        App { session: next_index(self.session as int, SESSION_MAX as int) as usize, ..self }
    }

    /// The state after a move to the previous session.
    pub open spec fn spec_prev_session(self) -> App {
        App { session: prev_index(self.session as int, SESSION_MAX as int) as usize, ..self }
    }

    /// The colour that marks `session`: green if it takes the keys, white if
    /// it does not.
    pub open spec fn spec_session_color(&self, session: usize) -> Color {
        if self.session == session {
            Color::Green
        } else {
            Color::White
        }
    }

    /// The state in which the program starts: one layer, the panels shown,
    /// the first session, every game mode selected, the first three map
    /// states selected, and today's date. The labels of the input modes and
    /// of the game modes are given; those of the map states are fixed.
    pub fn new(mode_labels: Vec<String>, item_labels: Vec<String>) -> (app: Self)
        requires
            mode_labels.len() == MODE_COUNT,
            item_labels.len() > 0,
        ensures
            app.wf(),
            app.settled(),
            app.running(),
            !app.force_quit,
            app.layer == 1,
            app.page == Page::Main,
            app.session == 0,
            app.mode.items() == mode_labels@,
            app.mode.position() == 0,
            app.item.items() == item_labels@,
            app.item.position() == 0,
            app.item.selected_set() == Set::new(|i: usize| i < item_labels.len()),
            app.item.highlight() == Color::Green,
            app.map_state.items().len() == 5,
            app.map_state.items()[0]@ == "Ranked & Approved"@,
            app.map_state.items()[1]@ == "Qualified"@,
            app.map_state.items()[2]@ == "Loved"@,
            app.map_state.items()[3]@ == "Pending & WIP"@,
            app.map_state.items()[4]@ == "Graveyard"@,
            app.map_state.highlight() == Color::Green,
            app.map_state.position() == 0,
            app.map_state.selected_set() == set![0usize, 1usize, 2usize],
    {
        let map_states = vec![
            "Ranked & Approved".to_string(),
            "Qualified".to_string(),
            "Loved".to_string(),
            "Pending & WIP".to_string(),
            "Graveyard".to_string(),
        ];
        let first_three: Vec<usize> = vec![0, 1, 2];
        assert(first_three@.to_set() =~= set![0usize, 1usize, 2usize]) by {
            assert(first_three@[0] == 0 && first_three@[1] == 1 && first_three@[2] == 2);
        }
        App {
            layer: 1,
            force_quit: false,
            mode: SelectList::new(mode_labels),
            item: MultiSelectList::new(item_labels, DefaultSelection::Full),
            map_state: MultiSelectList::new(map_states, DefaultSelection::Partial(first_three)),
            date: DateCursor::today(),
            page: Page::default(),
            session: 0,
        }
    }

    /// Whether this state is one that the program passes through.
    pub fn is_wf(&self) -> (r: bool)
        ensures
            r == self.wf(),
    {
        let page_fits = match self.page {
            Page::Help => self.layer >= 1,
            Page::Main => self.layer < u8::MAX,
        };
        let lists_fit = self.mode.len() == MODE_COUNT && self.item.len() > 0
            && self.map_state.len() > 0;
        let day = self.date.julian_day();
        let date_fits = MIN_JULIAN_DAY <= day && day <= MAX_JULIAN_DAY;
        self.session < SESSION_MAX && lists_fit && date_fits && page_fits
    }

    /// Whether the program goes on.
    pub fn is_running(&self) -> (r: bool)
        ensures
            r == self.running(),
    {
        !self.force_quit && self.layer > 0
    }

    /// Takes the tick of the clock, which changes nothing.
    pub fn tick(&self) {
    }

    /// Goes back by one layer and shows the panels. With no layer left
    /// nothing is taken away.
    pub fn go_back(&mut self)
        ensures
            *final(self) == old(self).spec_go_back(),
            old(self).wf() ==> final(self).wf(),
            old(self).settled() ==> final(self).settled(),
    {
        self.layer = self.layer.saturating_sub(1);
        self.page = Page::Main;
    }

    /// Asks to end the program at once, whatever is open.
    pub fn force_quit(&mut self)
        ensures
            *final(self) == (App { force_quit: true, ..*old(self) }),
            !final(self).running(),
    {
        self.force_quit = true;
    }

    /// The page that belongs to the number of open layers: the panels with
    /// exactly one, the help page otherwise.
    pub fn current_page(&self) -> (page: Page)
        ensures
            page == if self.layer == 1 {
                Page::Main
            } else {
                Page::Help
            },
            self.settled() && self.layer > 0 ==> page == self.page,
    {
        if self.layer == 1 {
            Page::Main
        } else {
            Page::Help
        }
    }

    /// Opens the help page over the panels, or closes it if it is open.
    pub fn help(&mut self)
        requires
            old(self).wf(),
        ensures
            *final(self) == old(self).spec_help(),
            final(self).wf(),
            old(self).settled() && old(self).layer > 0 ==> final(self).settled(),
    {
        if self.page == Page::Help {
            self.layer = self.layer - 1;
            self.page = Page::Main;
        } else {
            self.layer = self.layer + 1;
            self.page = Page::Help;
        }
    }

    /// Moves to the next session; from the last one to the first.
    pub fn next_session(&mut self)
        requires
            old(self).session < SESSION_MAX,
        ensures
            *final(self) == old(self).spec_next_session(),
            final(self).session < SESSION_MAX,
    {
        self.session = step_forward(self.session, SESSION_MAX);
    }

    /// Moves to the previous session; from the first one to the last.
    pub fn prev_session(&mut self)
        requires
            old(self).session < SESSION_MAX,
        ensures
            *final(self) == old(self).spec_prev_session(),
            final(self).session < SESSION_MAX,
    {
        self.session = step_backward(self.session, SESSION_MAX);
    }

    /// Judges the first line of a number field: whether it is a numeral, and
    /// in which colours the field of `session` shows that.
    pub fn validate(&self, text: &str, session: usize) -> (r: InputFeedback)
        ensures
            r.valid == numeral_value(text@).is_some(),
            r.text_color == if r.valid {
                Color::LightGreen
            } else {
                Color::LightRed
            },
            r.border_color == self.spec_session_color(session),
    {
        let valid = parse_number(text).is_some();
        InputFeedback {
            valid,
            text_color: if valid {
                Color::LightGreen
            } else {
                Color::LightRed
            },
            border_color: self.session_color(session),
        }
    }

    /// The colour that marks `session`: green if it takes the keys, white if
    /// it does not.
    pub fn session_color(&self, session: usize) -> (c: Color)
        ensures
            c == self.spec_session_color(session),
    {
        if self.session == session {
            Color::Green
        } else {
            Color::White
        }
    }
}

/// `k` moves to the next session change the session alone, to the one `k`
/// places on, counted round the sessions.
pub proof fn lemma_next_sessions(app: App, k: nat)
    requires
        app.session < SESSION_MAX,
    ensures
        app.next_sessions(k) == (App {
            session: advance(app.session as int, SESSION_MAX as int, k) as usize,
            ..app
        }),
        app.next_sessions(k).session < SESSION_MAX,
    decreases k,
{
    lemma_advance(app.session as int, SESSION_MAX as int, k);
    if k > 0 {
        lemma_next_sessions(app, (k - 1) as nat);
        lemma_advance(app.session as int, SESSION_MAX as int, (k - 1) as nat);
    }
}

/// As many moves to the next session as there are sessions lead back to the
/// state that they started from.
pub proof fn lemma_sessions_cycle(app: App)
    requires
        app.session < SESSION_MAX,
    ensures
        app.next_sessions(SESSION_MAX as nat) == app,
{
    lemma_next_sessions(app, SESSION_MAX as nat);
    lemma_full_turn(app.session as int, SESSION_MAX as int);
}

/// A move to the previous session undoes a move to the next one, and the
/// other way round, from every session, the first and the last included; and
/// the session never leaves its range.
pub proof fn lemma_session_moves_cancel(app: App)
    requires
        app.session < SESSION_MAX,
    ensures
        app.spec_next_session().spec_prev_session() == app,
        app.spec_prev_session().spec_next_session() == app,
        app.spec_next_session().session < SESSION_MAX,
        app.spec_prev_session().session < SESSION_MAX,
{
    lemma_steps_cancel(app.session as int, SESSION_MAX as int);
    lemma_next_index(app.session as int, SESSION_MAX as int);
    lemma_prev_index(app.session as int, SESSION_MAX as int);
}

/// Going back never brings the layer count below zero: with no layer open
/// the state stays as it is, but for the page, which is the panels.
pub proof fn lemma_go_back_floor(app: App)
    requires
        app.layer == 0,
    ensures
        app.spec_go_back().layer == 0,
        app.spec_go_back().spec_go_back() == app.spec_go_back(),
{
}

} // verus!
