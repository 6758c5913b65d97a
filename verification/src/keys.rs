use vstd::prelude::*;

use crate::app::{
    can_delete, day_list, deleted_selected, event_selection_moved_down, event_selection_moved_up,
    following_month, menu_executed, moved_by, next_index, prev_index, preceding_month,
    selection_for, shifted_year, App, InputMode, MenuCommand,
};
use crate::date::{MAX_YEAR, MIN_YEAR};
use crate::search::{search_moved_down, search_moved_up, searched, synced_to_result};
use crate::store::{date_key, key_of};
use crate::text::{pop_char, push_char};

verus! {

broadcast use vstd::std_specs::hash::group_hash_axioms;

/// A key press, as the main loop reads it from the terminal.
#[derive(Clone, Copy, Debug, PartialEq, Eq, Structural)]
pub enum KeyInput {
    Char(char),
    Enter,
    Esc,
    Backspace,
    Delete,
    Left,
    Right,
    Up,
    Down,
    /// Any other key; no mode acts on it.
    Other,
}

/// What the main loop does after a key was handled.
#[derive(Clone, Copy, Debug, PartialEq, Eq, Structural)]
pub enum Action {
    /// Draw again and wait for the next key.
    Continue,
    /// Leave the program.
    Quit,
    /// Save the events, then go on.
    SaveEvents,
    /// Move the calendar to the clock's date (`App::go_to_today`), then go on.
    GoToToday,
    /// Carry out an export or import, then go on.
    RunMenuCommand(MenuCommand),
}

/// `key` can be handled in state `a`: it does not step past the first or last
/// month or year that `chrono` can represent (the keys for which this fails
/// make the program panic).
pub open spec fn key_is_safe_spec(a: App, key: KeyInput) -> bool {
    a.input_mode == InputMode::Normal ==> match key {
        KeyInput::Char('n') => a.current_month.year < MAX_YEAR || a.current_month.month < 12,
        KeyInput::Char('p') => a.current_month.year > MIN_YEAR || a.current_month.month > 1,
        KeyInput::Char('N') => a.current_month.year < MAX_YEAR && a.selected_date.year < MAX_YEAR,
        KeyInput::Char('P') => a.current_month.year > MIN_YEAR && a.selected_date.year > MIN_YEAR,
        _ => true,
    }
}

/// `b` is `a` after the typed text became a new event of the selected day.
pub open spec fn added_typed_event(a: App, b: App) -> bool {
    let k = key_of(a.selected_date) as u64;
    &&& b.events@.remove(k) == a.events@.remove(k)
    &&& b.events@.contains_key(k)
    &&& b.events@[k]@ == a.selected_list().push(a.input_text)
    &&& b.input_text@ == Seq::<char>::empty()
    &&& b == App {
        events: b.events,
        input_text: b.input_text,
        event_selection: selection_for(b.events@, a.selected_date),
        ..a
    }
}

/// Key handling in normal mode.
pub open spec fn normal_step(a: App, key: KeyInput, b: App, act: Action) -> bool {
    match key {
        KeyInput::Char('q') | KeyInput::Esc => b == a && act == Action::Quit,
        KeyInput::Right => moved_by(a, b, 1) && act == Action::Continue,
        KeyInput::Left => moved_by(a, b, -1) && act == Action::Continue,
        KeyInput::Down => moved_by(a, b, 7) && act == Action::Continue,
        KeyInput::Up => moved_by(a, b, -7) && act == Action::Continue,
        KeyInput::Char('a') => b == App { input_mode: InputMode::Editing, ..a } && act == Action::Continue,
        KeyInput::Char('r') => {
            &&& b == (if a.events@.contains_key(key_of(a.selected_date) as u64) {
                App { input_mode: InputMode::Removing, ..a }
            } else {
                a
            })
            &&& act == Action::Continue
        },
        KeyInput::Char('/') => {
            &&& b.search_query@ == Seq::<char>::empty()
            &&& b.search_results@ == Seq::<(crate::date::Date, String)>::empty()
            &&& b == App {
                input_mode: InputMode::Search,
                search_query: b.search_query,
                search_results: b.search_results,
                ..a
            }
            &&& act == Action::Continue
        },
        KeyInput::Char('n') => b == App { current_month: following_month(a.current_month), ..a } && act == Action::Continue,
        KeyInput::Char('p') => b == App { current_month: preceding_month(a.current_month), ..a } && act == Action::Continue,
        KeyInput::Char('N') => {
            &&& b == App {
                current_month: shifted_year(a.current_month, 1),
                selected_date: shifted_year(a.selected_date, 1),
                event_selection: selection_for(a.events@, shifted_year(a.selected_date, 1)),
                ..a
            }
            &&& act == Action::Continue
        },
        KeyInput::Char('P') => {
            &&& b == App {
                current_month: shifted_year(a.current_month, -1),
                selected_date: shifted_year(a.selected_date, -1),
                event_selection: selection_for(a.events@, shifted_year(a.selected_date, -1)),
                ..a
            }
            &&& act == Action::Continue
        },
        KeyInput::Char('t') => b == a && act == Action::GoToToday,
        KeyInput::Char('m') => {
            &&& b == App { input_mode: InputMode::Menu, menu_depth: 0, menu_selection: Some(0), ..a }
            &&& act == Action::Continue
        },
        _ => b == a && act == Action::Continue,
    }
}

/// Key handling while an event is typed.
pub open spec fn editing_step(a: App, key: KeyInput, b: App, act: Action) -> bool {
    match key {
        KeyInput::Enter => if a.input_text@.len() > 0 {
            added_typed_event(a, App { input_mode: a.input_mode, ..b })
                && b.input_mode == InputMode::Normal && act == Action::SaveEvents
        } else {
            b == App { input_mode: InputMode::Normal, ..a } && act == Action::Continue
        },
        KeyInput::Char(c) => {
            &&& b.input_text@ == a.input_text@.push(c)
            &&& b == App { input_text: b.input_text, ..a }
            &&& act == Action::Continue
        },
        KeyInput::Backspace => {
            &&& b.input_text@ == (if a.input_text@.len() > 0 { a.input_text@.drop_last() } else { a.input_text@ })
            &&& b == App { input_text: b.input_text, ..a }
            &&& act == Action::Continue
        },
        KeyInput::Esc => b == App { input_mode: InputMode::Normal, ..a } && act == Action::Continue,
        _ => b == a && act == Action::Continue,
    }
}

/// Key handling while events are being removed.
pub open spec fn removing_step(a: App, key: KeyInput, b: App, act: Action) -> bool {
    match key {
        KeyInput::Char('d') | KeyInput::Delete | KeyInput::Enter => {
            if can_delete(a) {
                let k = key_of(a.selected_date) as u64;
                let mode = if b.events@.contains_key(k) { a.input_mode } else { InputMode::Normal };
                &&& deleted_selected(a, App { input_mode: a.input_mode, ..b })
                &&& b.input_mode == mode
                &&& act == Action::SaveEvents
            } else {
                let mode = if a.events@.contains_key(key_of(a.selected_date) as u64) {
                    a.input_mode
                } else {
                    InputMode::Normal
                };
                b == App { input_mode: mode, ..a } && act == Action::Continue
            }
        },
        KeyInput::Down | KeyInput::Char('j') => event_selection_moved_down(a, b) && act == Action::Continue,
        KeyInput::Up | KeyInput::Char('k') => event_selection_moved_up(a, b) && act == Action::Continue,
        KeyInput::Esc | KeyInput::Char('q') | KeyInput::Left => {
            b == App { input_mode: InputMode::Normal, ..a } && act == Action::Continue
        },
        _ => b == a && act == Action::Continue,
    }
}

/// Key handling in the menu.
pub open spec fn menu_step(a: App, key: KeyInput, b: App, act: Action) -> bool {
    match key {
        KeyInput::Up | KeyInput::Char('k') => {
            b == App { menu_selection: Some(prev_index(a.menu_selection, 2)), ..a } && act == Action::Continue
        },
        KeyInput::Down | KeyInput::Char('j') => {
            b == App { menu_selection: Some(next_index(a.menu_selection, 2)), ..a } && act == Action::Continue
        },
        KeyInput::Enter => exists|cmd: MenuCommand| {
            &&& menu_executed(a, b, cmd)
            &&& act == (if cmd == MenuCommand::Nothing { Action::Continue } else { Action::RunMenuCommand(cmd) })
        },
        KeyInput::Esc | KeyInput::Char('q') => {
            &&& b == (if a.menu_depth > 0 {
                App { menu_depth: (a.menu_depth - 1) as u8, menu_selection: Some(a.menu_parent_index), ..a }
            } else {
                App { input_mode: InputMode::Normal, ..a }
            })
            &&& act == Action::Continue
        },
        KeyInput::Char('m') => b == App { input_mode: InputMode::Normal, ..a } && act == Action::Continue,
        _ => b == a && act == Action::Continue,
    }
}

/// Key handling while searching.
pub open spec fn search_step(a: App, key: KeyInput, b: App, act: Action) -> bool {
    match key {
        KeyInput::Enter => {
            synced_to_result(a, App { input_mode: a.input_mode, ..b }) && b.input_mode == InputMode::Normal
                && act == Action::Continue
        },
        KeyInput::Esc => b == App { input_mode: InputMode::Normal, ..a } && act == Action::Continue,
        KeyInput::Down | KeyInput::Char('j') => search_moved_down(a, b) && act == Action::Continue,
        KeyInput::Up | KeyInput::Char('k') => search_moved_up(a, b) && act == Action::Continue,
        KeyInput::Backspace => {
            let query = if a.search_query@.len() > 0 { a.search_query@.drop_last() } else { a.search_query@ };
            &&& b.search_query@ == query
            &&& searched(App { search_query: b.search_query, ..a }, b)
            &&& act == Action::Continue
        },
        KeyInput::Char(c) => {
            &&& b.search_query@ == a.search_query@.push(c)
            &&& searched(App { search_query: b.search_query, ..a }, b)
            &&& act == Action::Continue
        },
        _ => b == a && act == Action::Continue,
    }
}

/// `b` and `act` are what handling `key` in state `a` gives: the status line is
/// cleared, then the key acts as the current input mode says.
pub open spec fn key_step(a: App, key: KeyInput, b: App, act: Action) -> bool {
    let c = App { status_message: b.status_message, ..a };
    &&& b.status_message@ == Seq::<char>::empty()
    &&& match a.input_mode {
        InputMode::Normal => normal_step(c, key, b, act),
        InputMode::Editing => editing_step(c, key, b, act),
        InputMode::Removing => removing_step(c, key, b, act),
        InputMode::Menu => menu_step(c, key, b, act),
        InputMode::Search => search_step(c, key, b, act),
    }
}

impl App {
    /// Whether `key` can be handled in this state; it cannot (the month or year
    /// would leave what `chrono` represents) exactly when `key_is_safe_spec` fails.
    pub fn key_is_safe(&self, key: KeyInput) -> (r: bool)
        ensures
            r == key_is_safe_spec(*self, key),
    {
        match self.input_mode {
            InputMode::Normal => match key {
                KeyInput::Char('n') => self.current_month.year < MAX_YEAR || self.current_month.month < 12,
                KeyInput::Char('p') => self.current_month.year > MIN_YEAR || self.current_month.month > 1,
                KeyInput::Char('N') => self.current_month.year < MAX_YEAR && self.selected_date.year < MAX_YEAR,
                KeyInput::Char('P') => self.current_month.year > MIN_YEAR && self.selected_date.year > MIN_YEAR,
                _ => true,
            },
            _ => true,
        }
    }

    /// Adds the typed text as an event of the selected day and empties the input.
    fn add_typed_event(&mut self)
        requires
            old(self).wf(),
        ensures
            final(self).wf(),
            added_typed_event(*old(self), *final(self)),
    {
        let key = date_key(self.selected_date);
        let mut text = String::new();
        std::mem::swap(&mut text, &mut self.input_text);
        let ghost before = self.events@;
        let mut list = match self.events.remove(&key) {
            Some(list) => list,
            None => Vec::new(),
        };
        assert(list@ == day_list(before, self.selected_date));
        list.push(text);
        self.events.insert(key, list);
        assert(self.events@.remove(key) =~= before.remove(key));
        self.update_event_selection();
    }

    /// Handles one key press and says what the main loop is to do next.
    pub fn handle_key(&mut self, key: KeyInput) -> (act: Action)
        requires
            old(self).wf(),
            key_is_safe_spec(*old(self), key),
        ensures
            final(self).wf(),
            key_step(*old(self), key, *final(self), act),
    {
        self.status_message = String::new();
        match self.input_mode {
            InputMode::Normal => match key {
                KeyInput::Char('q') | KeyInput::Esc => {
                    return Action::Quit;
                },
                KeyInput::Right => self.move_selection(1),
                KeyInput::Left => self.move_selection(-1),
                KeyInput::Down => self.move_selection(7),
                KeyInput::Up => self.move_selection(-7),
                KeyInput::Char('a') => {
                    self.input_mode = InputMode::Editing;
                },
                KeyInput::Char('r') => {
                    let k = date_key(self.selected_date);
                    if self.events.contains_key(&k) {
                        self.input_mode = InputMode::Removing;
                    }
                },
                KeyInput::Char('/') => {
                    self.input_mode = InputMode::Search;
                    self.search_query = String::new();
                    self.search_results = Vec::new();
                },
                KeyInput::Char('n') => self.next_month(),
                KeyInput::Char('p') => self.prev_month(),
                KeyInput::Char('N') => self.next_year(),
                KeyInput::Char('P') => self.prev_year(),
                KeyInput::Char('t') => {
                    return Action::GoToToday;
                },
                KeyInput::Char('m') => {
                    self.input_mode = InputMode::Menu;
                    self.menu_depth = 0;
                    self.menu_selection = Some(0);
                },
                _ => {},
            },
            InputMode::Editing => match key {
                KeyInput::Enter => {
                    let mut saved = false;
                    if !self.input_text.as_str().is_empty() {
                        self.add_typed_event();
                        saved = true;
                    }
                    self.input_mode = InputMode::Normal;
                    if saved {
                        return Action::SaveEvents;
                    }
                },
                KeyInput::Char(c) => {
                    push_char(&mut self.input_text, c);
                },
                KeyInput::Backspace => {
                    pop_char(&mut self.input_text);
                },
                KeyInput::Esc => {
                    self.input_mode = InputMode::Normal;
                },
                _ => {},
            },
            InputMode::Removing => match key {
                KeyInput::Char('d') | KeyInput::Delete | KeyInput::Enter => {
                    let deleted = self.delete_selected_event();
                    let k = date_key(self.selected_date);
                    if !self.events.contains_key(&k) {
                        self.input_mode = InputMode::Normal;
                    }
                    if deleted {
                        return Action::SaveEvents;
                    }
                },
                KeyInput::Down | KeyInput::Char('j') => self.next_event(),
                KeyInput::Up | KeyInput::Char('k') => self.prev_event(),
                KeyInput::Esc | KeyInput::Char('q') | KeyInput::Left => {
                    self.input_mode = InputMode::Normal;
                },
                _ => {},
            },
            InputMode::Menu => match key {
                KeyInput::Up | KeyInput::Char('k') => self.prev_menu_item(),
                KeyInput::Down | KeyInput::Char('j') => self.next_menu_item(),
                KeyInput::Enter => {
                    let cmd = self.execute_menu_action();
                    if cmd != MenuCommand::Nothing {
                        return Action::RunMenuCommand(cmd);
                    }
                },
                KeyInput::Esc | KeyInput::Char('q') => {
                    if self.menu_depth > 0 {
                        self.menu_depth = self.menu_depth - 1;
                        self.menu_selection = Some(self.menu_parent_index);
                    } else {
                        self.input_mode = InputMode::Normal;
                    }
                },
                KeyInput::Char('m') => {
                    self.input_mode = InputMode::Normal;
                },
                _ => {},
            },
            InputMode::Search => match key {
                KeyInput::Enter => {
                    self.sync_calendar_to_search_result();
                    self.input_mode = InputMode::Normal;
                },
                KeyInput::Esc => {
                    self.input_mode = InputMode::Normal;
                },
                KeyInput::Down | KeyInput::Char('j') => self.next_search_result(),
                KeyInput::Up | KeyInput::Char('k') => self.prev_search_result(),
                KeyInput::Backspace => {
                    pop_char(&mut self.search_query);
                    self.search_events();
                },
                KeyInput::Char(c) => {
                    push_char(&mut self.search_query, c);
                    self.search_events();
                },
                _ => {},
            },
        }
        Action::Continue
    }
}

} // verus!
