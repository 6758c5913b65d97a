use std::collections::HashMap;
use vstd::prelude::*;

use crate::date::{date_add_days, date_from_ymd, local_today, first_day_number, is_valid_ymd, last_day_number, max_delta_days, Date, MAX_YEAR, MIN_YEAR};
use crate::store::{date_key, is_date_key, key_of};

verus! {

broadcast use vstd::std_specs::hash::group_hash_axioms;

/// What the keyboard is doing at the moment.
#[derive(Clone, Copy, Debug, PartialEq, Eq, Structural)]
pub enum InputMode {
    Normal,
    Editing,
    Removing,
    Menu,
    Search,
}

/// The whole state of the calendar.
pub struct App {
    /// First day of the month on display.
    pub current_month: Date,
    /// The day the cursor is on.
    pub selected_date: Date,
    /// Events per day, keyed by `store::key_of` of the day.
    pub events: HashMap<u64, Vec<String>>,
    /// Text typed for a new event.
    pub input_text: String,
    pub input_mode: InputMode,
    /// Selected row of the day's event list.
    pub event_selection: Option<usize>,
    /// Selected row of the menu.
    pub menu_selection: Option<usize>,
    pub status_message: String,
    pub search_query: String,
    pub search_results: Vec<(Date, String)>,
    /// Selected row of the search results.
    pub search_selection: Option<usize>,
    /// 0 in the main menu, 1 in a sub-menu.
    pub menu_depth: u8,
    /// The main-menu row that opened the sub-menu.
    pub menu_parent_index: usize,
}

/// The I/O that a menu choice asks the application to carry out.
#[derive(Clone, Copy, Debug, PartialEq, Eq, Structural)]
pub enum MenuCommand {
    Nothing,
    ExportCsv,
    ExportIcs,
    ImportCsv,
    ImportIcs,
}

/// The events of day `d` in the event map (none when the day has no entry).
pub open spec fn day_list(events: Map<u64, Vec<String>>, d: Date) -> Seq<String> {
    if events.contains_key(key_of(d) as u64) {
        events[key_of(d) as u64]@
    } else {
        Seq::empty()
    }
}

/// The event-list selection for day `d`: the first row when the day has events.
pub open spec fn selection_for(events: Map<u64, Vec<String>>, d: Date) -> Option<usize> {
    if day_list(events, d).len() > 0 {
        Some(0)
    } else {
        None
    }
}

/// Moving a list selection one row down, wrapping from the last row to the first.
pub open spec fn next_index(sel: Option<usize>, len: int) -> usize {
    match sel {
        Some(i) => if i >= len - 1 { 0 } else { (i + 1) as usize },
        None => 0,
    }
}

/// Moving a list selection one row up, wrapping from the first row to the last.
pub open spec fn prev_index(sel: Option<usize>, len: int) -> usize {
    match sel {
        Some(i) => if i == 0 { (len - 1) as usize } else { (i - 1) as usize },
        None => 0,
    }
}

/// The first day of the month after the month of `d`.
pub open spec fn following_month(d: Date) -> Date {
    if d.month == 12 {
        Date { year: (d.year + 1) as i32, month: 1, day: 1 }
    } else {
        Date { year: d.year, month: (d.month + 1) as u32, day: 1 }
    }
}

/// The first day of the month before the month of `d`.
pub open spec fn preceding_month(d: Date) -> Date {
    if d.month == 1 {
        Date { year: (d.year - 1) as i32, month: 12, day: 1 }
    } else {
        Date { year: d.year, month: (d.month - 1) as u32, day: 1 }
    }
}

/// The same day `delta` years away; the 28th where that day does not exist (29 February).
pub open spec fn shifted_year(d: Date, delta: int) -> Date {
    let y = (d.year + delta) as i32;
    if is_valid_ymd(y as int, d.month as int, d.day as int) {
        Date { year: y, month: d.month, day: d.day }
    } else {
        Date { year: y, month: d.month, day: 28 }
    }
}

/// The command that a sub-menu row stands for.
pub open spec fn menu_command_of(parent: usize, row: usize) -> MenuCommand {
    if parent == 0 && row == 0 {
        MenuCommand::ExportCsv
    } else if parent == 0 && row == 1 {
        MenuCommand::ExportIcs
    } else if parent == 1 && row == 0 {
        MenuCommand::ImportCsv
    } else if parent == 1 && row == 1 {
        MenuCommand::ImportIcs
    } else {
        MenuCommand::Nothing
    }
}

/// `b` is `a` after jumping to the day `t`, as the "today" key does.
pub open spec fn jumped_to(a: App, b: App, t: Date) -> bool {
    &&& b == App {
        selected_date: t,
        current_month: t.month_start(),
        event_selection: selection_for(a.events@, t),
        status_message: b.status_message,
        ..a
    }
    &&& b.status_message@ == "Jumped to today"@
}

/// `b` is `a` after moving the cursor by `days` days.
pub open spec fn moved_by(a: App, b: App, days: int) -> bool {
    if first_day_number() <= a.selected_date.number() + days <= last_day_number() {
        &&& b.selected_date.valid()
        &&& b.selected_date.number() == a.selected_date.number() + days
        &&& b == App {
            selected_date: b.selected_date,
            current_month: b.selected_date.month_start(),
            event_selection: selection_for(a.events@, b.selected_date),
            ..a
        }
    } else {
        b == a
    }
}

/// `b` is `a` after the event list's selection moved one row down (wrapping).
pub open spec fn event_selection_moved_down(a: App, b: App) -> bool {
    if a.selected_list().len() > 0 {
        b == App { event_selection: Some(next_index(a.event_selection, a.selected_list().len() as int)), ..a }
    } else {
        b == a
    }
}

/// `b` is `a` after the event list's selection moved one row up (wrapping).
pub open spec fn event_selection_moved_up(a: App, b: App) -> bool {
    if a.selected_list().len() > 0 {
        b == App { event_selection: Some(prev_index(a.event_selection, a.selected_list().len() as int)), ..a }
    } else {
        b == a
    }
}

/// Whether deleting would remove an event: a row is selected and it exists.
pub open spec fn can_delete(a: App) -> bool {
    a.event_selection matches Some(i) && i < a.selected_list().len()
}

/// `b` is `a` after the selected event of the selected day was deleted; a day
/// left without events loses its entry.
pub open spec fn deleted_selected(a: App, b: App) -> bool {
    let k = key_of(a.selected_date) as u64;
    let rest = a.selected_list().remove(a.event_selection.unwrap() as int);
    &&& b.events@.remove(k) == a.events@.remove(k)
    &&& b.events@.contains_key(k) == (rest.len() > 0)
    &&& day_list(b.events@, a.selected_date) == rest
    &&& b == App { events: b.events, event_selection: selection_for(b.events@, a.selected_date), ..a }
}

/// `b` is `a` after `execute_menu_action` returned `cmd`.
pub open spec fn menu_executed(a: App, b: App, cmd: MenuCommand) -> bool {
    match a.menu_selection {
        None => b == a && cmd == MenuCommand::Nothing,
        Some(i) => if a.menu_depth == 0 {
            &&& b == App { menu_parent_index: i, menu_depth: 1, menu_selection: Some(0), ..a }
            &&& cmd == MenuCommand::Nothing
        } else {
            &&& b == App { input_mode: InputMode::Normal, menu_depth: 0, ..a }
            &&& cmd == menu_command_of(a.menu_parent_index, i)
        },
    }
}

/// `app` is a fresh calendar on `today` holding `events`: the cursor on
/// today, its month on display, every input and list empty, normal mode.
pub open spec fn fresh_on(app: App, today: Date, events: Map<u64, Vec<String>>) -> bool {
    &&& app.wf()
    &&& app.current_month == today.month_start()
    &&& app.selected_date == today
    &&& app.events@ == events
    &&& app.input_text@ == Seq::<char>::empty()
    &&& app.input_mode == InputMode::Normal
    &&& app.event_selection == selection_for(events, today)
    &&& app.menu_selection is None
    &&& app.status_message@ == Seq::<char>::empty()
    &&& app.search_query@ == Seq::<char>::empty()
    &&& app.search_results@ == Seq::<(Date, String)>::empty()
    &&& app.search_selection is None
    &&& app.menu_depth == 0
    &&& app.menu_parent_index == 0
}

impl App {
    /// The state is well formed: its dates exist, the month on display starts
    /// on its first day, and every event key and search result names a real day.
    pub open spec fn wf(&self) -> bool {
        &&& self.current_month.valid()
        &&& self.current_month.day == 1
        &&& self.selected_date.valid()
        &&& forall|k: u64| #[trigger] self.events@.contains_key(k) ==> is_date_key(k)
        &&& forall|i: int| 0 <= i < self.search_results@.len() ==> (#[trigger] self.search_results@[i]).0.valid()
    }

    /// The events of the selected day.
    pub open spec fn selected_list(&self) -> Seq<String> {
        day_list(self.events@, self.selected_date)
    }

    /// A fresh calendar on the clock's local date, holding `events`.
    pub fn new(events: HashMap<u64, Vec<String>>) -> (app: App)
        requires
            forall|k: u64| #[trigger] events@.contains_key(k) ==> is_date_key(k),
        ensures
            exists|today: Date| today.valid() && fresh_on(app, today, events@),
    {
        let today = local_today();
        App::new_on(today, events)
    }

    /// A fresh calendar on `today`, holding `events`, with the cursor on today.
    pub fn new_on(today: Date, events: HashMap<u64, Vec<String>>) -> (app: App)
        requires
            today.valid(),
            forall|k: u64| #[trigger] events@.contains_key(k) ==> is_date_key(k),
        ensures
            fresh_on(app, today, events@),
    {
        let month = date_from_ymd(today.year, today.month, 1).unwrap();
        let mut app = App {
            current_month: month,
            selected_date: today,
            events,
            input_text: String::new(),
            input_mode: InputMode::Normal,
            event_selection: None,
            menu_selection: None,
            status_message: String::new(),
            search_query: String::new(),
            search_results: Vec::new(),
            search_selection: None,
            menu_depth: 0,
            menu_parent_index: 0,
        };
        app.update_event_selection();
        app
    }

    /// Points the event-list selection at the first event of the selected day,
    /// or at nothing when the day has no events.
    pub fn update_event_selection(&mut self)
        requires
            old(self).wf(),
        ensures
            final(self).wf(),
            *final(self) == (App { event_selection: selection_for(old(self).events@, old(self).selected_date), ..*old(self) }),
    {
        let key = date_key(self.selected_date);
        match self.events.get(&key) {
            Some(list) => {
                if list.len() > 0 {
                    self.event_selection = Some(0);
                } else {
                    self.event_selection = None;
                }
            },
            None => {
                self.event_selection = None;
            },
        }
    }

    /// Shows the next month.
    pub fn next_month(&mut self)
        requires
            old(self).wf(),
            old(self).current_month.year < MAX_YEAR || old(self).current_month.month < 12,
        ensures
            final(self).wf(),
            *final(self) == (App { current_month: following_month(old(self).current_month), ..*old(self) }),
    {
        let mut year = self.current_month.year;
        let mut month = self.current_month.month + 1;
        if month > 12 {
            month = 1;
            year = year + 1;
        }
        self.current_month = date_from_ymd(year, month, 1).unwrap();
    }

    /// Shows the previous month.
    pub fn prev_month(&mut self)
        requires
            old(self).wf(),
            old(self).current_month.year > MIN_YEAR || old(self).current_month.month > 1,
        ensures
            final(self).wf(),
            *final(self) == (App { current_month: preceding_month(old(self).current_month), ..*old(self) }),
    {
        let mut year = self.current_month.year;
        let mut month = self.current_month.month;
        if month == 1 {
            month = 12;
            year = year - 1;
        } else {
            month = month - 1;
        }
        self.current_month = date_from_ymd(year, month, 1).unwrap();
    }

    /// Moves the cursor by `days` days and shows its month; nothing changes
    /// when the new day lies outside what `chrono` can represent.
    pub fn move_selection(&mut self, days: i64)
        requires
            old(self).wf(),
            -max_delta_days() <= days <= max_delta_days(),
        ensures
            final(self).wf(),
            moved_by(*old(self), *final(self), days as int),
    {
        if let Some(new_date) = date_add_days(self.selected_date, days) {
            self.selected_date = new_date;
            self.current_month = date_from_ymd(new_date.year, new_date.month, 1).unwrap();
            self.update_event_selection();
        }
    }

    /// Selects the next event of the selected day, wrapping to the first.
    pub fn next_event(&mut self)
        requires
            old(self).wf(),
        ensures
            final(self).wf(),
            event_selection_moved_down(*old(self), *final(self)),
    {
        let key = date_key(self.selected_date);
        if let Some(list) = self.events.get(&key) {
            if list.len() == 0 {
                return;
            }
            let i = match self.event_selection {
                Some(i) => if i >= list.len() - 1 { 0 } else { i + 1 },
                None => 0,
            };
            self.event_selection = Some(i);
        }
    }

    /// Selects the previous event of the selected day, wrapping to the last.
    pub fn prev_event(&mut self)
        requires
            old(self).wf(),
        ensures
            final(self).wf(),
            event_selection_moved_up(*old(self), *final(self)),
    {
        let key = date_key(self.selected_date);
        if let Some(list) = self.events.get(&key) {
            if list.len() == 0 {
                return;
            }
            let i = match self.event_selection {
                Some(i) => if i == 0 { list.len() - 1 } else { i - 1 },
                None => 0,
            };
            self.event_selection = Some(i);
        }
    }

    /// Deletes the selected event of the selected day. Returns whether an event
    /// was deleted, in which case the events are to be saved.
    pub fn delete_selected_event(&mut self) -> (deleted: bool)
        requires
            old(self).wf(),
        ensures
            final(self).wf(),
            deleted == can_delete(*old(self)),
            deleted ==> deleted_selected(*old(self), *final(self)),
            !deleted ==> *final(self) == *old(self),
    {
        if let Some(i) = self.event_selection {
            let key = date_key(self.selected_date);
            let len = match self.events.get(&key) {
                Some(list) => list.len(),
                None => 0,
            };
            if i < len {
                let ghost before = *self;
                let mut list = self.events.remove(&key).unwrap();
                list.remove(i);
                let ghost rest = list@;
                assert(rest =~= before.selected_list().remove(i as int));
                if list.len() > 0 {
                    self.events.insert(key, list);
                }
                assert(self.events@.remove(key) =~= before.events@.remove(key));
                assert(day_list(self.events@, self.selected_date) =~= rest);
                self.update_event_selection();
                return true;
            }
        }
        false
    }

    /// Puts the cursor on `today` and shows its month, with a status line saying so.
    pub fn jump_to_today(&mut self, today: Date)
        requires
            old(self).wf(),
            today.valid(),
        ensures
            final(self).wf(),
            jumped_to(*old(self), *final(self), today),
    {
        self.selected_date = today;
        self.current_month = date_from_ymd(today.year, today.month, 1).unwrap();
        self.update_event_selection();
        self.status_message = String::from_str("Jumped to today");
    }

    /// Puts the cursor on the local date of the clock.
    pub fn go_to_today(&mut self)
        requires
            old(self).wf(),
        ensures
            final(self).wf(),
            exists|t: Date| t.valid() && jumped_to(*old(self), *final(self), t),
    {
        let today = local_today();
        self.jump_to_today(today);
    }

    /// Shows the same month one year later and moves the cursor one year on.
    pub fn next_year(&mut self)
        requires
            old(self).wf(),
            old(self).current_month.year < MAX_YEAR,
            old(self).selected_date.year < MAX_YEAR,
        ensures
            final(self).wf(),
            *final(self) == (App {
                current_month: shifted_year(old(self).current_month, 1),
                selected_date: shifted_year(old(self).selected_date, 1),
                event_selection: selection_for(old(self).events@, shifted_year(old(self).selected_date, 1)),
                ..*old(self)
            }),
    {
        let year = self.current_month.year + 1;
        let month = self.current_month.month;
        self.current_month = date_from_ymd(year, month, 1).unwrap();
        let sel_year = self.selected_date.year + 1;
        let sel_month = self.selected_date.month;
        let sel_day = self.selected_date.day;
        self.selected_date = match date_from_ymd(sel_year, sel_month, sel_day) {
            Some(d) => d,
            None => date_from_ymd(sel_year, sel_month, 28).unwrap(),
        };
        self.update_event_selection();
    }

    /// Shows the same month one year earlier and moves the cursor one year back.
    pub fn prev_year(&mut self)
        requires
            old(self).wf(),
            old(self).current_month.year > MIN_YEAR,
            old(self).selected_date.year > MIN_YEAR,
        ensures
            final(self).wf(),
            *final(self) == (App {
                current_month: shifted_year(old(self).current_month, -1),
                selected_date: shifted_year(old(self).selected_date, -1),
                event_selection: selection_for(old(self).events@, shifted_year(old(self).selected_date, -1)),
                ..*old(self)
            }),
    {
        let year = self.current_month.year - 1;
        let month = self.current_month.month;
        self.current_month = date_from_ymd(year, month, 1).unwrap();
        let sel_year = self.selected_date.year - 1;
        let sel_month = self.selected_date.month;
        let sel_day = self.selected_date.day;
        self.selected_date = match date_from_ymd(sel_year, sel_month, sel_day) {
            Some(d) => d,
            None => date_from_ymd(sel_year, sel_month, 28).unwrap(),
        };
        self.update_event_selection();
    }

    /// Selects the next row of the two-row menu, wrapping to the first.
    pub fn next_menu_item(&mut self)
        ensures
            *final(self) == (App { menu_selection: Some(next_index(old(self).menu_selection, 2)), ..*old(self) }),
    {
        let max: usize = 1;
        let i = match self.menu_selection {
            Some(i) => if i >= max { 0 } else { i + 1 },
            None => 0,
        };
        self.menu_selection = Some(i);
    }

    /// Selects the previous row of the two-row menu, wrapping to the last.
    pub fn prev_menu_item(&mut self)
        ensures
            *final(self) == (App { menu_selection: Some(prev_index(old(self).menu_selection, 2)), ..*old(self) }),
    {
        let max: usize = 1;
        let i = match self.menu_selection {
            Some(i) => if i == 0 { max } else { i - 1 },
            None => 0,
        };
        self.menu_selection = Some(i);
    }

    /// Acts on the selected menu row: in the main menu it opens the sub-menu;
    /// in a sub-menu it closes the menu and returns the export or import to
    /// carry out.
    pub fn execute_menu_action(&mut self) -> (cmd: MenuCommand)
        ensures
            menu_executed(*old(self), *final(self), cmd),
    {
        if let Some(i) = self.menu_selection {
            if self.menu_depth == 0 {
                self.menu_parent_index = i;
                self.menu_depth = 1;
                self.menu_selection = Some(0);
                MenuCommand::Nothing
            } else {
                let cmd = if self.menu_parent_index == 0 && i == 0 {
                    MenuCommand::ExportCsv
                } else if self.menu_parent_index == 0 && i == 1 {
                    MenuCommand::ExportIcs
                } else if self.menu_parent_index == 1 && i == 0 {
                    MenuCommand::ImportCsv
                } else if self.menu_parent_index == 1 && i == 1 {
                    MenuCommand::ImportIcs
                } else {
                    MenuCommand::Nothing
                };
                self.input_mode = InputMode::Normal;
                self.menu_depth = 0;
                cmd
            }
        } else {
            MenuCommand::Nothing
        }
    }
}

} // verus!
