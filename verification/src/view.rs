use ratatui::layout::{Constraint, Direction, Layout, Rect};
use vstd::prelude::*;

use crate::app::{day_list, App, InputMode};
use crate::date::{days_in_month, format_date, formatted_date, local_today, next_date, weekday_from_sunday, Date, MAX_YEAR};
use crate::store::{date_key, key_of};
use crate::text::{decimal, decimal_string};

verus! {

broadcast use vstd::std_specs::hash::group_hash_axioms;

/// One day of the month grid.
pub struct DayCell {
    pub day: u32,
    /// The day number, with `*` after it when the day has events.
    pub label: String,
    pub has_events: bool,
    pub is_selected: bool,
    pub is_today: bool,
}

/// How the input box at the bottom of the sidebar is coloured.
#[derive(Clone, Copy, Debug, PartialEq, Eq, Structural)]
pub enum InputStyle {
    Plain,
    Green,
    Yellow,
}

/// What the sidebar shows.
pub struct SidebarView {
    /// The selected day, as "Mon, Jan 01".
    pub date_header: String,
    /// True while searching: the list holds search results, else the day's events.
    pub shows_search_results: bool,
    pub list_title: String,
    pub items: Vec<String>,
    pub input_title: String,
    pub input_text: String,
    pub input_style: InputStyle,
}

/// What the menu pop-up shows.
pub struct MenuView {
    pub title: String,
    pub items: Vec<String>,
}

/// `c` describes day `d` of the grid.
pub open spec fn day_cell_shows(c: DayCell, a: App, today: Date, d: Date) -> bool {
    let has = day_list(a.events@, d).len() > 0;
    &&& c.day == d.day
    &&& c.has_events == has
    &&& c.label@ == decimal(d.day as nat) + (if has { "*"@ } else { Seq::<char>::empty() })
    &&& c.is_selected == (d == a.selected_date)
    &&& c.is_today == (d == today)
}

/// `cells` is the month grid of the month on display, row after row of seven
/// cells from Sunday: blanks up to the weekday of the first day, the days of
/// the month, then blanks to the end of the last row.
pub open spec fn month_grid(a: App, today: Date, cells: Seq<Option<DayCell>>) -> bool {
    let m = a.current_month;
    let offset = m.weekday_from_sunday();
    let n = days_in_month(m.year as int, m.month as int);
    &&& cells.len() % 7 == 0
    &&& offset + n <= cells.len() < offset + n + 7
    &&& forall|i: int| 0 <= i < offset ==> (#[trigger] cells[i]) is None
    &&& forall|i: int| offset <= i < offset + n ==> ((#[trigger] cells[i]) matches Some(c) && day_cell_shows(
        c,
        a,
        today,
        Date { year: m.year, month: m.month, day: (i - offset + 1) as u32 },
    ))
    &&& forall|i: int| offset + n <= i < cells.len() ==> (#[trigger] cells[i]) is None
}

/// The text of a search result in the list: "MM/DD: event".
pub open spec fn search_item_text(r: (Date, String)) -> Seq<char> {
    formatted_date(r.0.ymd(), "%m/%d"@) + ": "@ + r.1@
}

/// The text of an event in the day's list: "• event".
pub open spec fn event_item_text(s: String) -> Seq<char> {
    "• "@ + s@
}

/// `v` is the sidebar of state `a`.
pub open spec fn sidebar_shows(a: App, v: SidebarView) -> bool {
    let items = v.items@.map_values(|s: String| s@);
    &&& v.date_header@ == formatted_date(a.selected_date.ymd(), "%a, %b %d"@)
    &&& v.shows_search_results == (a.input_mode == InputMode::Search)
    &&& if a.input_mode == InputMode::Search {
        &&& v.list_title@ == "Search Results"@
        &&& items == a.search_results@.map_values(|r: (Date, String)| search_item_text(r))
    } else {
        &&& v.list_title@ == (if a.input_mode == InputMode::Removing {
            "Events (Use Arrows to select, 'd' to delete)"@
        } else {
            "Events"@
        })
        &&& items == (if a.events@.contains_key(key_of(a.selected_date) as u64) {
            a.selected_list().map_values(|s: String| event_item_text(s))
        } else {
            seq!["No events"@]
        })
    }
    &&& if a.status_message@.len() > 0 {
        v.input_title@ == "Status"@ && v.input_text@ == a.status_message@
    } else {
        match a.input_mode {
            InputMode::Normal => v.input_title@ == "Instructions"@ && v.input_text@ == "'m' menu, '/' search, 't' today"@,
            InputMode::Editing => v.input_title@ == "Add Event (Enter to save)"@ && v.input_text@ == a.input_text@,
            InputMode::Removing => v.input_title@ == "Remove Mode"@ && v.input_text@ == "Select event and press 'd'"@,
            InputMode::Menu => v.input_title@ == "Menu Mode"@ && v.input_text@ == "Select action and press Enter"@,
            InputMode::Search => v.input_title@ == "Search Mode"@ && v.input_text@ == a.search_query@,
        }
    }
    &&& v.input_style == (if a.input_mode == InputMode::Normal {
        if a.status_message@.len() > 0 { InputStyle::Green } else { InputStyle::Plain }
    } else {
        InputStyle::Yellow
    })
}

/// `v` is the menu pop-up of state `a`.
pub open spec fn menu_shows(a: App, v: MenuView) -> bool {
    let items = v.items@.map_values(|s: String| s@);
    if a.menu_depth == 0 {
        v.title@ == " Main Menu "@ && items == seq!["Export..."@, "Import..."@]
    } else {
        &&& v.title@ == (if a.menu_parent_index == 0 { " Export Menu "@ } else { " Import Menu "@ })
        &&& items == seq!["CSV File"@, "iCalendar (.ics)"@]
    }
}

/// A rectangle of the terminal, in cells.
#[derive(Clone, Copy, Debug, PartialEq, Eq, Structural)]
pub struct Area {
    pub x: u16,
    pub y: u16,
    pub width: u16,
    pub height: u16,
}

impl Area {
    /// The rectangle as plain values: x, y, width, height.
    pub open spec fn xywh(self) -> (u16, u16, u16, u16) {
        (self.x, self.y, self.width, self.height)
    }
}

/// The three parts that `ratatui`'s `Layout` cuts a rectangle into, one per
/// percentage, stacked from top to bottom (`vertical`) or from left to right,
/// for percentages that add up to at most 100.
pub uninterp spec fn percent_split(
    area: (u16, u16, u16, u16),
    vertical: bool,
    percents: (u16, u16, u16),
) -> ((u16, u16, u16, u16), (u16, u16, u16, u16), (u16, u16, u16, u16));

/// Where a span that starts at `start` and is `len` long ends, at most the
/// largest `u16` (as `Rect::right` and `Rect::bottom` compute it).
pub open spec fn far_edge(start: u16, len: u16) -> int {
    if start + len <= u16::MAX { start + len } else { u16::MAX as int }
}

/// `p` is a part of `area` cut across `vertical`ly stacked parts (or side by
/// side): it spans the whole of `area` across the cut and lies within it along it.
pub open spec fn part_of(p: Area, area: Area, vertical: bool) -> bool {
    if vertical {
        &&& p.x == area.x && p.width == area.width
        &&& area.y <= p.y && p.y + p.height <= far_edge(area.y, area.height)
    } else {
        &&& p.y == area.y && p.height == area.height
        &&& area.x <= p.x && p.x + p.width <= far_edge(area.x, area.width)
    }
}

/// `c` lies within `r`.
pub open spec fn area_within(c: Area, r: Area) -> bool {
    &&& r.x <= c.x && c.x + c.width <= far_edge(r.x, r.width)
    &&& r.y <= c.y && c.y + c.height <= far_edge(r.y, r.height)
}

/// Cuts a rectangle into three parts by percentages.
///
/// Calls `ratatui::layout::Layout::split` with the given direction and three
/// `Constraint::Percentage` constraints; `split` gives one rectangle per
/// constraint. Its result, computed by a constraint solver, is named
/// `percent_split`. Percentages that over-fill the area leave the solver
/// several equally good answers, and which one it picks may differ between
/// processes, so `requires` admits only percentages that add up to at most 100.
/// Each part is made from the solved start and end of its span, which the
/// solver's required constraints keep between the area's start and end (the
/// end as `Rect::right` or `Rect::bottom` gives it); across the cut a part
/// takes the area's position and size.
#[verifier::external_body]
fn split_by_percent(area: Area, vertical: bool, percents: (u16, u16, u16)) -> (r: (Area, Area, Area))
    requires
        percents.0 + percents.1 + percents.2 <= 100,
    ensures
        percent_split(area.xywh(), vertical, percents) == (r.0.xywh(), r.1.xywh(), r.2.xywh()),
        part_of(r.0, area, vertical),
        part_of(r.1, area, vertical),
        part_of(r.2, area, vertical),
{
    let direction = if vertical { Direction::Vertical } else { Direction::Horizontal };
    let parts = Layout::default().direction(direction).constraints([
        Constraint::Percentage(percents.0),
        Constraint::Percentage(percents.1),
        Constraint::Percentage(percents.2),
    ]).split(Rect { x: area.x, y: area.y, width: area.width, height: area.height });
    let a = |r: Rect| Area { x: r.x, y: r.y, width: r.width, height: r.height };
    (a(parts[0]), a(parts[1]), a(parts[2]))
}

/// The percentages that place a box of `percent` in the middle of a span:
/// the margin before, the box, the margin after.
pub open spec fn centered_percents(percent: u16) -> (u16, u16, u16) {
    (((100 - percent) / 2) as u16, percent, ((100 - percent) / 2) as u16)
}

/// The percentages that place a box of `percent` in the middle of a span.
pub fn centered_percentages(percent: u16) -> (r: (u16, u16, u16))
    requires
        percent <= 100,
    ensures
        r == centered_percents(percent),
{
    ((100 - percent) / 2, percent, (100 - percent) / 2)
}

/// The box of `percent_x` of the width and `percent_y` of the height in the
/// middle of `r`: the middle row of a vertical split, then the middle column
/// of a horizontal split of that row.
pub open spec fn centered_area(percent_x: u16, percent_y: u16, r: Area) -> (u16, u16, u16, u16) {
    let row = percent_split(r.xywh(), true, centered_percents(percent_y)).1;
    percent_split(row, false, centered_percents(percent_x)).1
}

/// The box of `percent_x` by `percent_y` percent in the middle of `r`, where
/// the menu pop-up is drawn.
pub fn centered_rect(percent_x: u16, percent_y: u16, r: Area) -> (c: Area)
    requires
        percent_x <= 100,
        percent_y <= 100,
    ensures
        c.xywh() == centered_area(percent_x, percent_y, r),
        area_within(c, r),
{
    let rows = split_by_percent(r, true, centered_percentages(percent_y));
    let columns = split_by_percent(rows.1, false, centered_percentages(percent_x));
    columns.1
}

impl App {
    /// The grid cell of day `d`.
    fn day_cell(&self, d: Date, today: Date) -> (c: DayCell)
        requires
            self.wf(),
            d.valid(),
        ensures
            day_cell_shows(c, *self, today, d),
    {
        let key = date_key(d);
        let has = match self.events.get(&key) {
            Some(list) => list.len() > 0,
            None => false,
        };
        let mut label = decimal_string(d.day as u64);
        if has {
            label.append("*");
        }
        DayCell { day: d.day, label, has_events: has, is_selected: d == self.selected_date, is_today: d == today }
    }

    /// The title above the grid: the month on display, as "January 2024".
    pub fn month_title(&self) -> (r: String)
        requires
            self.wf(),
        ensures
            r@ == formatted_date(self.current_month.ymd(), "%B %Y"@),
    {
        format_date(self.current_month, "%B %Y")
    }

    /// The month grid of the month on display, with the clock's local date marked.
    pub fn calendar_cells(&self) -> (cells: Vec<Option<DayCell>>)
        requires
            self.wf(),
            self.current_month.year < MAX_YEAR || self.current_month.month < 12,
        ensures
            exists|today: Date| today.valid() && month_grid(*self, today, cells@),
    {
        let today = local_today();
        self.calendar_cells_on(today)
    }

    /// The month grid of the month on display (see `month_grid`), with `today` marked.
    pub fn calendar_cells_on(&self, today: Date) -> (cells: Vec<Option<DayCell>>)
        requires
            self.wf(),
            self.current_month.year < MAX_YEAR || self.current_month.month < 12,
        ensures
            month_grid(*self, today, cells@),
    {
        let first = self.current_month;
        let offset = weekday_from_sunday(first);
        let ghost n = days_in_month(first.year as int, first.month as int);
        let mut cells: Vec<Option<DayCell>> = Vec::new();
        let mut i: u32 = 0;
        while i < offset
            invariant
                i <= offset,
                offset == first.weekday_from_sunday(),
                cells@.len() == i,
                forall|j: int| 0 <= j < i ==> (#[trigger] cells@[j]) is None,
            decreases offset - i,
        {
            cells.push(None);
            i = i + 1;
        }
        let mut cur = first;
        loop
            invariant_except_break
                cur.valid(),
                cur.year == first.year,
                cur.month == first.month,
                cells@.len() == offset + cur.day - 1,
            invariant
                self.wf(),
                first == self.current_month,
                first.year < MAX_YEAR || first.month < 12,
                offset == first.weekday_from_sunday(),
                n == days_in_month(first.year as int, first.month as int),
                forall|j: int| 0 <= j < offset ==> (#[trigger] cells@[j]) is None,
                forall|j: int| offset <= j < cells@.len() ==> ((#[trigger] cells@[j]) matches Some(c) && day_cell_shows(
                    c,
                    *self,
                    today,
                    Date { year: first.year, month: first.month, day: (j - offset + 1) as u32 },
                )),
            ensures
                cells@.len() == offset + n,
            decreases n - cur.day,
        {
            let c = self.day_cell(cur, today);
            cells.push(Some(c));
            let next = next_date(cur).unwrap();
            if next.month != first.month {
                break;
            }
            cur = next;
        }
        let ghost full = offset + n + (7 - (offset + n) % 7) % 7;
        assert(full % 7 == 0);
        while cells.len() % 7 != 0
            invariant
                offset + n <= cells@.len() <= full,
                full == offset + n + (7 - (offset + n) % 7) % 7,
                full % 7 == 0,
                offset == first.weekday_from_sunday(),
                n == days_in_month(first.year as int, first.month as int),
                forall|j: int| 0 <= j < offset ==> (#[trigger] cells@[j]) is None,
                forall|j: int| offset <= j < offset + n ==> ((#[trigger] cells@[j]) matches Some(c) && day_cell_shows(
                    c,
                    *self,
                    today,
                    Date { year: first.year, month: first.month, day: (j - offset + 1) as u32 },
                )),
                forall|j: int| offset + n <= j < cells@.len() ==> (#[trigger] cells@[j]) is None,
            decreases offset + n + 7 - cells@.len(),
        {
            cells.push(None);
        }
        cells
    }

    /// The lines of the sidebar's list: the search results while searching,
    /// else the selected day's events ("No events" for a day without entry).
    fn sidebar_items(&self) -> (items: Vec<String>)
        requires
            self.wf(),
        ensures
            items@.map_values(|s: String| s@) == (if self.input_mode == InputMode::Search {
                self.search_results@.map_values(|r: (Date, String)| search_item_text(r))
            } else if self.events@.contains_key(key_of(self.selected_date) as u64) {
                self.selected_list().map_values(|s: String| event_item_text(s))
            } else {
                seq!["No events"@]
            }),
    {
        let mut items: Vec<String> = Vec::new();
        if self.input_mode == InputMode::Search {
            let mut i: usize = 0;
            while i < self.search_results.len()
                invariant
                    self.wf(),
                    i <= self.search_results@.len(),
                    items@.map_values(|s: String| s@) == self.search_results@.take(i as int).map_values(
                        |r: (Date, String)| search_item_text(r),
                    ),
                decreases self.search_results@.len() - i,
            {
                let r = &self.search_results[i];
                assert(self.search_results@[i as int].0.valid());
                let mut line = format_date(r.0, "%m/%d");
                line.append(": ");
                line.append(r.1.as_str());
                let ghost before = items@;
                items.push(line);
                assert(items@.map_values(|s: String| s@) =~= before.map_values(|s: String| s@).push(
                    search_item_text(self.search_results@[i as int]),
                ));
                assert(self.search_results@.take(i + 1) =~= self.search_results@.take(i as int).push(
                    self.search_results@[i as int],
                ));
                i = i + 1;
            }
            assert(self.search_results@.take(self.search_results@.len() as int) =~= self.search_results@);
        } else {
            let key = date_key(self.selected_date);
            match self.events.get(&key) {
                Some(list) => {
                    let mut i: usize = 0;
                    while i < list.len()
                        invariant
                            i <= list@.len(),
                            items@.map_values(|s: String| s@) == list@.take(i as int).map_values(
                                |s: String| event_item_text(s),
                            ),
                        decreases list@.len() - i,
                    {
                        let mut line = String::from_str("• ");
                        line.append(list[i].as_str());
                        let ghost before = items@;
                        items.push(line);
                        assert(items@.map_values(|s: String| s@) =~= before.map_values(|s: String| s@).push(
                            event_item_text(list@[i as int]),
                        ));
                        assert(list@.take(i + 1) =~= list@.take(i as int).push(list@[i as int]));
                        i = i + 1;
                    }
                    assert(list@.take(list@.len() as int) =~= list@);
                },
                None => {
                    items.push(String::from_str("No events"));
                    assert(items@.map_values(|s: String| s@) =~= seq!["No events"@]);
                },
            }
        }
        items
    }

    /// What the sidebar shows (see `sidebar_shows`).
    pub fn sidebar_view(&self) -> (v: SidebarView)
        requires
            self.wf(),
        ensures
            sidebar_shows(*self, v),
    {
        let date_header = format_date(self.selected_date, "%a, %b %d");
        let searching = self.input_mode == InputMode::Search;
        let list_title = if searching {
            String::from_str("Search Results")
        } else if self.input_mode == InputMode::Removing {
            String::from_str("Events (Use Arrows to select, 'd' to delete)")
        } else {
            String::from_str("Events")
        };
        let items = self.sidebar_items();
        let has_status = !self.status_message.as_str().is_empty();
        let (input_title, input_text) = if has_status {
            (String::from_str("Status"), self.status_message.clone())
        } else {
            match self.input_mode {
                InputMode::Normal => (String::from_str("Instructions"), String::from_str("'m' menu, '/' search, 't' today")),
                InputMode::Editing => (String::from_str("Add Event (Enter to save)"), self.input_text.clone()),
                InputMode::Removing => (String::from_str("Remove Mode"), String::from_str("Select event and press 'd'")),
                InputMode::Menu => (String::from_str("Menu Mode"), String::from_str("Select action and press Enter")),
                InputMode::Search => (String::from_str("Search Mode"), self.search_query.clone()),
            }
        };
        let input_style = match self.input_mode {
            InputMode::Normal => if has_status { InputStyle::Green } else { InputStyle::Plain },
            _ => InputStyle::Yellow,
        };
        SidebarView {
            date_header,
            shows_search_results: searching,
            list_title,
            items,
            input_title,
            input_text,
            input_style,
        }
    }

    /// The menu pop-up, shown in menu mode only.
    pub fn menu_view(&self) -> (v: Option<MenuView>)
        ensures
            v is Some <==> self.input_mode == InputMode::Menu,
            v matches Some(m) ==> menu_shows(*self, m),
    {
        if self.input_mode != InputMode::Menu {
            return None;
        }
        let mut items: Vec<String> = Vec::new();
        let title = if self.menu_depth == 0 {
            items.push(String::from_str("Export..."));
            items.push(String::from_str("Import..."));
            String::from_str(" Main Menu ")
        } else {
            items.push(String::from_str("CSV File"));
            items.push(String::from_str("iCalendar (.ics)"));
            if self.menu_parent_index == 0 {
                String::from_str(" Export Menu ")
            } else {
                String::from_str(" Import Menu ")
            }
        };
        let v = MenuView { title, items };
        assert(v.items@.map_values(|s: String| s@) =~= (if self.menu_depth == 0 {
            seq!["Export..."@, "Import..."@]
        } else {
            seq!["CSV File"@, "iCalendar (.ics)"@]
        }));
        Some(v)
    }
}

} // verus!
