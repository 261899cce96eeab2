//! The browser's state: the table and its navigation, the selection, the
//! search field and the timing of double presses. Each operation is stated
//! as a function on the state's plain-value model, `AppView`.

use vstd::prelude::*;

use crate::rows::{
    ProcInfo, ProcInfoView, ProcRow, RowView, SortMode, build_rows, infos_view, matching_rows,
    rows_view, search_tokens, sort_desc,
};
use crate::search::{
    backspace_at, backspace_char_at, cursor_left, cursor_left_of, cursor_ok, cursor_right,
    cursor_right_of, delete_at, delete_char_at, insert_at, insert_char_at,
    law_edits_keep_cursor_on_boundary,
};

verus! {

/// Longest gap between two presses of `k` that still counts as a double press, in nanoseconds.
pub const DOUBLE_K_NANOS: u64 = 450_000_000;

/// Longest gap between two clicks on one row that still counts as a double click, in nanoseconds.
pub const DOUBLE_CLICK_NANOS: u64 = 350_000_000;

/// The browser's state. Times are nanoseconds on a monotonic clock that the
/// caller reads.
pub struct App {
    pub rows: Vec<ProcRow>,
    /// Index of the first table row on screen.
    pub table_offset: usize,
    pub focus_idx: usize,
    pub selected_mode: bool,
    pub selected_pid: Option<u32>,
    pub details_scroll: u16,
    pub text_select_mode: bool,
    pub sort_mode: SortMode,
    pub search: String,
    /// Byte offset into `search`.
    pub search_cursor: usize,
    pub input_mode: bool,
    pub last_k_press: Option<u64>,
    pub last_mouse_click: Option<(usize, u64)>,
}

/// The state as plain values.
pub struct AppView {
    pub rows: Seq<RowView>,
    pub table_offset: usize,
    pub focus_idx: usize,
    pub selected_mode: bool,
    pub selected_pid: Option<u32>,
    pub details_scroll: u16,
    pub text_select_mode: bool,
    pub sort_mode: SortMode,
    pub search: Seq<char>,
    pub search_cursor: usize,
    pub input_mode: bool,
    pub last_k_press: Option<u64>,
    pub last_mouse_click: Option<(usize, u64)>,
}

impl View for App {
    type V = AppView;

    open spec fn view(&self) -> AppView {
        AppView {
            rows: rows_view(self.rows@),
            table_offset: self.table_offset,
            focus_idx: self.focus_idx,
            selected_mode: self.selected_mode,
            selected_pid: self.selected_pid,
            details_scroll: self.details_scroll,
            text_select_mode: self.text_select_mode,
            sort_mode: self.sort_mode,
            search: self.search@,
            search_cursor: self.search_cursor,
            input_mode: self.input_mode,
            last_k_press: self.last_k_press,
            last_mouse_click: self.last_mouse_click,
        }
    }
}

/// Whether some row has process id `pid`.
pub open spec fn has_pid(rows: Seq<RowView>, pid: u32) -> bool {
    exists|i: int| 0 <= i < rows.len() && (#[trigger] rows[i]).pid == pid
}

/// Time elapsed from `then` to `now`, zero when `then` is later.
pub open spec fn elapsed(now: u64, then: u64) -> int {
    if now >= then {
        now - then
    } else {
        0
    }
}

impl AppView {
    /// Focus, offset and selection agree with the rows, and the search cursor
    /// is one the editing operations accept.
    pub open spec fn consistent(self) -> bool {
        &&& self.rows.len() == 0 ==> self.focus_idx == 0 && self.table_offset == 0
        &&& self.rows.len() > 0 ==> self.focus_idx < self.rows.len() && self.table_offset
            < self.rows.len()
        &&& self.selected_pid matches Some(p) ==> has_pid(self.rows, p)
        &&& self.selected_mode ==> self.selected_pid is Some
        &&& cursor_ok(self.search, self.search_cursor as int)
    }

    /// The state after the table is rebuilt from a snapshot.
    pub open spec fn refreshed(self, procs: Seq<ProcInfoView>) -> AppView {
        let rows = sort_desc(matching_rows(procs, search_tokens(self.search)), self.sort_mode);
        if rows.len() == 0 {
            AppView {
                rows,
                focus_idx: 0,
                selected_mode: false,
                selected_pid: None,
                details_scroll: 0,
                table_offset: 0,
                ..self
            }
        } else {
            let last = (rows.len() - 1) as usize;
            let keep = match self.selected_pid {
                Some(p) => has_pid(rows, p),
                None => true,
            };
            AppView {
                rows,
                focus_idx: if self.focus_idx > last { last } else { self.focus_idx },
                selected_mode: if keep { self.selected_mode } else { false },
                selected_pid: if keep { self.selected_pid } else { None },
                table_offset: if self.table_offset > last { last } else { self.table_offset },
                ..self
            }
        }
    }

    /// The offset moved just far enough that the focused row is on screen.
    pub open spec fn focus_shown(self, visible_rows: usize) -> AppView {
        let visible = if visible_rows == 0 { 1 } else { visible_rows as int };
        if self.focus_idx < self.table_offset {
            AppView { table_offset: self.focus_idx, ..self }
        } else if self.focus_idx >= self.table_offset + visible {
            AppView { table_offset: (self.focus_idx + 1 - visible) as usize, ..self }
        } else {
            self
        }
    }

    /// Showing the focused row computes the end of the screen within `usize`:
    /// the end is only computed when the focus is at or below the offset.
    pub open spec fn can_show_focus(self, visible_rows: usize) -> bool {
        self.focus_idx >= self.table_offset ==> self.table_offset + (if visible_rows == 0 {
            1
        } else {
            visible_rows as int
        }) <= usize::MAX
    }

    /// The focus one row down, stopping at the last row.
    pub open spec fn focus_below(self) -> usize {
        let last = self.rows.len() - 1;
        (if self.focus_idx + 1 < last { self.focus_idx + 1 } else { last }) as usize
    }

    /// The focus one row up, stopping at the first row.
    pub open spec fn focus_above(self) -> usize {
        if self.focus_idx == 0 { 0 } else { (self.focus_idx - 1) as usize }
    }

    /// Moving the focus down stays within `usize`.
    pub open spec fn can_move_down(self, visible_rows: usize) -> bool {
        self.rows.len() > 0 ==> {
            &&& self.focus_idx < usize::MAX
            &&& (AppView { focus_idx: self.focus_below(), ..self }).can_show_focus(visible_rows)
        }
    }

    /// Moving the focus up stays within `usize`.
    pub open spec fn can_move_up(self, visible_rows: usize) -> bool {
        self.rows.len() > 0 ==> (AppView { focus_idx: self.focus_above(), ..self }).can_show_focus(
            visible_rows,
        )
    }

    /// A press of `k` at `now` stays within `usize`: only a single press moves.
    pub open spec fn can_press_k(self, visible_rows: usize, now: u64) -> bool {
        !self.is_double_k(now) ==> self.can_move_up(visible_rows)
    }

    /// The state after moving the focus one row down.
    pub open spec fn moved_down(self, visible_rows: usize) -> AppView {
        if self.rows.len() == 0 {
            self
        } else {
            AppView { focus_idx: self.focus_below(), ..self }.focus_shown(visible_rows)
        }
    }

    /// The state after moving the focus one row up.
    pub open spec fn moved_up(self, visible_rows: usize) -> AppView {
        if self.rows.len() == 0 {
            self
        } else {
            AppView { focus_idx: self.focus_above(), ..self }.focus_shown(visible_rows)
        }
    }

    /// The state after selecting the focused row, if there is one.
    pub open spec fn focused_selected(self) -> AppView {
        if self.focus_idx < self.rows.len() {
            AppView {
                selected_pid: Some(self.rows[self.focus_idx as int].pid),
                selected_mode: true,
                details_scroll: 0,
                ..self
            }
        } else {
            self
        }
    }

    /// The state with no selection.
    pub open spec fn selection_cleared(self) -> AppView {
        AppView { selected_mode: false, selected_pid: None, details_scroll: 0, ..self }
    }

    /// The process a kill is aimed at: the selected one in selection mode,
    /// else the focused row's.
    pub open spec fn kill_target(self) -> Option<u32> {
        if self.selected_mode {
            self.selected_pid
        } else if self.focus_idx < self.rows.len() {
            Some(self.rows[self.focus_idx as int].pid)
        } else {
            None
        }
    }

    /// Whether a press of `k` at `now` follows the previous one closely enough.
    pub open spec fn is_double_k(self, now: u64) -> bool {
        match self.last_k_press {
            Some(t) => elapsed(now, t) <= DOUBLE_K_NANOS,
            None => false,
        }
    }

    /// The state after a press of `k` at `now`, and the process to kill, if any.
    pub open spec fn k_pressed(self, visible_rows: usize, now: u64) -> (AppView, Option<u32>) {
        if self.is_double_k(now) {
            (AppView { last_k_press: None, ..self }, self.kill_target())
        } else {
            (AppView { last_k_press: Some(now), ..self.moved_up(visible_rows) }, None)
        }
    }

    /// Whether a click on row `idx` at `now` completes a double click.
    pub open spec fn is_double_click(self, idx: usize, now: u64) -> bool {
        match self.last_mouse_click {
            Some((last_idx, t)) => last_idx == idx && elapsed(now, t) <= DOUBLE_CLICK_NANOS,
            None => false,
        }
    }

    /// The state after a click on table row `idx` at `now`.
    pub open spec fn clicked(self, idx: usize, now: u64) -> AppView {
        let focused = AppView { focus_idx: idx, ..self };
        if self.is_double_click(idx, now) {
            AppView { last_mouse_click: None, ..focused.focused_selected() }
        } else {
            AppView { last_mouse_click: Some((idx, now)), ..focused }
        }
    }

    /// Whether scrolling the table by `delta` stays within `i32`, as the
    /// arithmetic it is done in requires.
    pub open spec fn can_scroll(self, delta: i32, visible_rows: usize) -> bool {
        let visible = if visible_rows == 0 { 1 } else { visible_rows as int };
        let max_offset = if self.rows.len() > visible { self.rows.len() - visible } else { 0 };
        self.rows.len() > 0 ==> {
            &&& i32::MIN <= (self.table_offset as i32) + delta <= i32::MAX
            &&& (max_offset as i32) >= 0
        }
    }

    /// The state after scrolling the table by `delta` rows.
    pub open spec fn scrolled(self, delta: i32, visible_rows: usize) -> AppView {
        if self.rows.len() == 0 {
            AppView { table_offset: 0, ..self }
        } else {
            let visible = if visible_rows == 0 { 1 } else { visible_rows as int };
            let max_offset = if self.rows.len() > visible { self.rows.len() - visible } else { 0 };
            let hi = (max_offset as i32) as int;
            let want = (self.table_offset as i32) + delta;
            let next = if want < 0 { 0 } else if want > hi { hi } else { want };
            AppView { table_offset: next as usize, ..self }
        }
    }

    /// The state after scrolling the details pane up one line.
    pub open spec fn details_scrolled_up(self) -> AppView {
        AppView {
            details_scroll: if self.details_scroll == 0 { 0 } else { (self.details_scroll - 1) as u16 },
            ..self
        }
    }

    /// The state after scrolling the details pane down one line.
    pub open spec fn details_scrolled_down(self) -> AppView {
        AppView {
            details_scroll: if self.details_scroll == u16::MAX {
                u16::MAX
            } else {
                (self.details_scroll + 1) as u16
            },
            ..self
        }
    }

    /// The state with the search text and cursor replaced.
    pub open spec fn with_search(self, edit: (Seq<char>, int)) -> AppView {
        AppView { search: edit.0, search_cursor: edit.1 as usize, ..self }
    }
}

/// Whether some row has process id `pid`.
fn rows_have_pid(rows: &Vec<ProcRow>, pid: u32) -> (b: bool)
    ensures
        b == has_pid(rows_view(rows@), pid),
{
    let mut i: usize = 0;
    while i < rows.len()
        invariant
            i <= rows.len(),
            forall|j: int| 0 <= j < i ==> rows@[j].pid != pid,
        decreases rows.len() - i,
    {
        if rows[i].pid == pid {
            assert(rows_view(rows@)[i as int].pid == pid);
            return true;
        }
        i = i + 1;
    }
    assert forall|j: int| 0 <= j < rows_view(rows@).len() implies (
    #[trigger] rows_view(rows@)[j]).pid != pid by {
        assert(rows_view(rows@)[j] == rows@[j]@);
    }
    false
}

impl App {
    /// A fresh state, sorted by CPU, with its table built from `procs`.
    pub fn new(procs: &Vec<ProcInfo>) -> (app: App)
        ensures
            app@ == (AppView {
                rows: Seq::empty(),
                table_offset: 0,
                focus_idx: 0,
                selected_mode: false,
                selected_pid: None,
                details_scroll: 0,
                text_select_mode: false,
                sort_mode: SortMode::Cpu,
                search: Seq::empty(),
                search_cursor: 0,
                input_mode: false,
                last_k_press: None,
                last_mouse_click: None,
            }).refreshed(infos_view(procs@)),
            app@.consistent(),
    {
        let mut app = App {
            rows: Vec::new(),
            table_offset: 0,
            focus_idx: 0,
            selected_mode: false,
            selected_pid: None,
            details_scroll: 0,
            text_select_mode: false,
            sort_mode: SortMode::Cpu,
            search: String::new(),
            search_cursor: 0,
            input_mode: false,
            last_k_press: None,
            last_mouse_click: None,
        };
        assert(app@.rows =~= Seq::<RowView>::empty());
        app.refresh_rows(procs);
        app
    }

    /// Rebuilds the table from a snapshot under the current search and sort
    /// mode, then pulls focus, offset and selection back inside the new rows.
    pub fn refresh_rows(&mut self, procs: &Vec<ProcInfo>)
        ensures
            final(self)@ == old(self)@.refreshed(infos_view(procs@)),
            (old(self)@.selected_mode ==> old(self)@.selected_pid is Some) && cursor_ok(
                old(self)@.search,
                old(self)@.search_cursor as int,
            ) ==> final(self)@.consistent(),
    {
        let rows = build_rows(procs, &self.search, self.sort_mode);
        self.rows = rows;
        if self.rows.len() == 0 {
            self.focus_idx = 0;
            self.selected_mode = false;
            self.selected_pid = None;
            self.details_scroll = 0;
            self.table_offset = 0;
            return;
        }
        if self.focus_idx >= self.rows.len() {
            self.focus_idx = self.rows.len() - 1;
        }
        if let Some(pid) = self.selected_pid {
            if !rows_have_pid(&self.rows, pid) {
                self.selected_mode = false;
                self.selected_pid = None;
            }
        }
        let max_offset = self.rows.len() - 1;
        if self.table_offset > max_offset {
            self.table_offset = max_offset;
        }
    }

    /// The selected row, found by its process id.
    pub fn selected(&self) -> (r: Option<&ProcRow>)
        ensures
            (match r {
                Some(row) => Some(row@),
                None => None,
            }) == self@.selected_row(),
    {
        let pid = match self.selected_pid {
            Some(p) => p,
            None => return None,
        };
        let mut i: usize = 0;
        while i < self.rows.len()
            invariant
                self.selected_pid == Some(pid),
                i <= self.rows.len(),
                first_with_pid(self@.rows, pid) == -1 || i <= first_with_pid(self@.rows, pid),
                forall|j: int| 0 <= j < i ==> self.rows@[j].pid != pid,
            decreases self.rows.len() - i,
        {
            proof {
                lemma_first_with_pid(self@.rows, pid);
                assert(self@.rows[i as int] == self.rows@[i as int]@);
            }
            if self.rows[i].pid == pid {
                return Some(&self.rows[i]);
            }
            i = i + 1;
        }
        proof {
            lemma_first_with_pid(self@.rows, pid);
            if first_with_pid(self@.rows, pid) >= 0 {
                let f = first_with_pid(self@.rows, pid);
                assert(self@.rows[f] == self.rows@[f]@);
            }
        }
        None
    }

    /// Moves the table offset just far enough that the focused row is on screen.
    fn ensure_focus_visible(&mut self, visible_rows: usize)
        requires
            old(self)@.can_show_focus(visible_rows),
        ensures
            final(self)@ == old(self)@.focus_shown(visible_rows),
    {
        let visible = if visible_rows == 0 { 1 } else { visible_rows };
        let offset = self.table_offset;
        if self.focus_idx < offset {
            self.table_offset = self.focus_idx;
            return;
        }
        let end = offset + visible;
        if self.focus_idx >= end {
            self.table_offset = self.focus_idx - visible + 1;
        }
    }

    /// Moves the focus one row down and keeps it on screen.
    pub fn next(&mut self, visible_rows: usize)
        requires
            old(self)@.can_move_down(visible_rows),
        ensures
            final(self)@ == old(self)@.moved_down(visible_rows),
    {
        if self.rows.len() == 0 {
            return;
        }
        let up = self.focus_idx + 1;
        let last = self.rows.len() - 1;
        self.focus_idx = if up < last { up } else { last };
        self.ensure_focus_visible(visible_rows);
    }

    /// Moves the focus one row up and keeps it on screen.
    pub fn prev(&mut self, visible_rows: usize)
        requires
            old(self)@.can_move_up(visible_rows),
        ensures
            final(self)@ == old(self)@.moved_up(visible_rows),
    {
        if self.rows.len() == 0 {
            return;
        }
        self.focus_idx = self.focus_idx.saturating_sub(1);
        self.ensure_focus_visible(visible_rows);
    }

    /// Selects the focused row, if the focus is on one.
    pub fn select_focused(&mut self)
        ensures
            final(self)@ == old(self)@.focused_selected(),
    {
        if self.focus_idx < self.rows.len() {
            self.selected_pid = Some(self.rows[self.focus_idx].pid);
            self.selected_mode = true;
            self.details_scroll = 0;
        }
    }

    /// Leaves selection mode.
    pub fn clear_selection(&mut self)
        ensures
            final(self)@ == old(self)@.selection_cleared(),
    {
        self.selected_mode = false;
        self.selected_pid = None;
        self.details_scroll = 0;
    }

    /// The process a kill is aimed at.
    pub fn target_pid_for_kill(&self) -> (r: Option<u32>)
        ensures
            r == self@.kill_target(),
    {
        if self.selected_mode {
            return self.selected_pid;
        }
        if self.focus_idx < self.rows.len() {
            Some(self.rows[self.focus_idx].pid)
        } else {
            None
        }
    }

    /// A press of `k` at `now`: the second of two quick presses gives the
    /// process to kill (the caller kills it and refreshes); otherwise the focus
    /// moves up.
    pub fn handle_k_press(&mut self, visible_rows: usize, now: u64) -> (kill: Option<u32>)
        requires
            old(self)@.can_press_k(visible_rows, now),
        ensures
            (final(self)@, kill) == old(self)@.k_pressed(visible_rows, now),
    {
        let quick = match self.last_k_press {
            Some(t) => now.saturating_sub(t) <= DOUBLE_K_NANOS,
            None => false,
        };
        if quick {
            let target = self.target_pid_for_kill();
            self.last_k_press = None;
            target
        } else {
            self.prev(visible_rows);
            self.last_k_press = Some(now);
            None
        }
    }

    /// A click on table row `idx` at `now`: it focuses the row, and a second
    /// quick click on the same row selects it.
    pub fn handle_table_click(&mut self, idx: usize, now: u64)
        ensures
            final(self)@ == old(self)@.clicked(idx, now),
    {
        self.focus_idx = idx;
        let double = match self.last_mouse_click {
            Some((last_idx, t)) => last_idx == idx && now.saturating_sub(t) <= DOUBLE_CLICK_NANOS,
            None => false,
        };
        if double {
            self.select_focused();
            self.last_mouse_click = None;
        } else {
            self.last_mouse_click = Some((idx, now));
        }
    }

    /// Scrolls the table by `delta` rows, keeping a full screen of rows below
    /// the offset where there are enough.
    pub fn scroll_table(&mut self, delta: i32, visible_rows: usize)
        requires
            old(self)@.can_scroll(delta, visible_rows),
        ensures
            final(self)@ == old(self)@.scrolled(delta, visible_rows),
    {
        if self.rows.len() == 0 {
            self.table_offset = 0;
            return;
        }
        let visible = if visible_rows == 0 { 1 } else { visible_rows };
        let max_offset = self.rows.len().saturating_sub(visible);
        let current = self.table_offset as i32;
        let want = current + delta;
        let hi = max_offset as i32;
        let next = if want < 0 { 0 } else if want > hi { hi } else { want };
        self.table_offset = next as usize;
    }

    /// Scrolls the details pane up one line.
    pub fn scroll_details_up(&mut self)
        ensures
            final(self)@ == old(self)@.details_scrolled_up(),
    {
        self.details_scroll = self.details_scroll.saturating_sub(1);
    }

    /// Scrolls the details pane down one line.
    pub fn scroll_details_down(&mut self)
        ensures
            final(self)@ == old(self)@.details_scrolled_down(),
    {
        self.details_scroll = self.details_scroll.saturating_add(1);
    }
}

impl App {
    /// Moves the search cursor one character left.
    pub fn move_search_cursor_left(&mut self)
        requires
            cursor_ok(old(self)@.search, old(self).search_cursor as int),
        ensures
            final(self)@ == (AppView {
                search_cursor: cursor_left(old(self)@.search, old(self).search_cursor as int) as usize,
                ..old(self)@
            }),
    {
        self.search_cursor = cursor_left_of(&self.search, self.search_cursor);
    }

    /// Moves the search cursor one character right.
    pub fn move_search_cursor_right(&mut self)
        requires
            cursor_ok(old(self)@.search, old(self).search_cursor as int),
        ensures
            final(self)@ == (AppView {
                search_cursor: cursor_right(old(self)@.search, old(self).search_cursor as int) as usize,
                ..old(self)@
            }),
    {
        self.search_cursor = cursor_right_of(&self.search, self.search_cursor);
    }

    /// Inserts `c` at the search cursor, without rebuilding the table.
    pub fn edit_insert_char(&mut self, c: char)
        requires
            cursor_ok(old(self)@.search, old(self).search_cursor as int),
        ensures
            final(self)@ == old(self)@.with_search(
                insert_at(old(self)@.search, old(self).search_cursor as int, c),
            ),
    {
        let (s, cur) = insert_char_at(&self.search, self.search_cursor, c);
        self.search = s;
        self.search_cursor = cur;
    }

    /// Deletes the character before the search cursor, without rebuilding the
    /// table; tells whether the text changed.
    pub fn edit_backspace(&mut self) -> (changed: bool)
        requires
            cursor_ok(old(self)@.search, old(self).search_cursor as int),
        ensures
            final(self)@ == old(self)@.with_search(
                backspace_at(old(self)@.search, old(self).search_cursor as int),
            ),
            changed == (crate::search::clamp_cursor(old(self)@.search, old(self).search_cursor as int) > 0),
    {
        let (s, cur) = backspace_char_at(&self.search, self.search_cursor);
        let changed = crate::search::clamp_search_cursor(&self.search, self.search_cursor) > 0;
        self.search = s;
        self.search_cursor = cur;
        changed
    }

    /// Deletes the character at the search cursor, without rebuilding the
    /// table; tells whether the text changed.
    pub fn edit_delete(&mut self) -> (changed: bool)
        requires
            cursor_ok(old(self)@.search, old(self).search_cursor as int),
        ensures
            final(self)@ == old(self)@.with_search(
                delete_at(old(self)@.search, old(self).search_cursor as int),
            ),
            changed == (crate::search::clamp_cursor(old(self)@.search, old(self).search_cursor as int)
                < crate::text::byte_len(old(self)@.search)),
    {
        let n = crate::text::str_byte_len(self.search.as_str());
        let changed = crate::search::clamp_search_cursor(&self.search, self.search_cursor) < n;
        let (s, cur) = delete_char_at(&self.search, self.search_cursor);
        self.search = s;
        self.search_cursor = cur;
        changed
    }

    /// Inserts `c` at the search cursor and rebuilds the table from `procs`.
    pub fn insert_search_char(&mut self, c: char, procs: &Vec<ProcInfo>)
        requires
            cursor_ok(old(self)@.search, old(self).search_cursor as int),
        ensures
            final(self)@ == old(self)@.with_search(
                insert_at(old(self)@.search, old(self).search_cursor as int, c),
            ).refreshed(infos_view(procs@)),
    {
        self.edit_insert_char(c);
        self.refresh_rows(procs);
    }

    /// Deletes the character before the search cursor; when one was deleted,
    /// rebuilds the table from `procs`.
    pub fn backspace_search_char(&mut self, procs: &Vec<ProcInfo>)
        requires
            cursor_ok(old(self)@.search, old(self).search_cursor as int),
        ensures
            final(self)@ == if crate::search::clamp_cursor(old(self)@.search, old(self).search_cursor as int) > 0 {
                old(self)@.with_search(
                    backspace_at(old(self)@.search, old(self).search_cursor as int),
                ).refreshed(infos_view(procs@))
            } else {
                old(self)@.with_search(
                    backspace_at(old(self)@.search, old(self).search_cursor as int),
                )
            },
    {
        if self.edit_backspace() {
            self.refresh_rows(procs);
        }
    }

    /// Deletes the character at the search cursor; when one was deleted,
    /// rebuilds the table from `procs`.
    pub fn delete_search_char(&mut self, procs: &Vec<ProcInfo>)
        requires
            cursor_ok(old(self)@.search, old(self).search_cursor as int),
        ensures
            final(self)@ == if crate::search::clamp_cursor(old(self)@.search, old(self).search_cursor as int)
                < crate::text::byte_len(old(self)@.search) {
                old(self)@.with_search(
                    delete_at(old(self)@.search, old(self).search_cursor as int),
                ).refreshed(infos_view(procs@))
            } else {
                old(self)@.with_search(delete_at(old(self)@.search, old(self).search_cursor as int))
            },
    {
        if self.edit_delete() {
            self.refresh_rows(procs);
        }
    }
}

/// Moving the focus, selecting, clearing, scrolling and editing the search
/// keep the state consistent.
pub proof fn law_operations_keep_consistency(
    v: AppView,
    visible_rows: usize,
    delta: i32,
    now: u64,
    ch: char,
)
    requires
        v.consistent(),
        crate::text::byte_len(v.search) + 4 <= usize::MAX,
    ensures
        v.moved_down(visible_rows).consistent(),
        v.moved_up(visible_rows).consistent(),
        v.focused_selected().consistent(),
        v.selection_cleared().consistent(),
        v.can_scroll(delta, visible_rows) ==> v.scrolled(delta, visible_rows).consistent(),
        v.k_pressed(visible_rows, now).0.consistent(),
        v.with_search(insert_at(v.search, v.search_cursor as int, ch)).consistent(),
        v.with_search(backspace_at(v.search, v.search_cursor as int)).consistent(),
        v.with_search(delete_at(v.search, v.search_cursor as int)).consistent(),
        (AppView { search_cursor: cursor_left(v.search, v.search_cursor as int) as usize, ..v }).consistent(),
        (AppView { search_cursor: cursor_right(v.search, v.search_cursor as int) as usize, ..v }).consistent(),
{
    law_edits_keep_cursor_on_boundary(v.search, v.search_cursor as int, ch);
    if v.focus_idx < v.rows.len() {
        assert(has_pid(v.rows, v.rows[v.focus_idx as int].pid));
    }
    crate::search::lemma_edits_within(v.search, v.search_cursor as int, ch);
}

/// After the focus moves, the focused row is on screen: at or below the
/// offset and within the visible rows.
pub proof fn law_moved_focus_is_visible(v: AppView, visible_rows: usize)
    requires
        v.consistent(),
        v.rows.len() > 0,
    ensures
        ({
            let visible = if visible_rows == 0 { 1 } else { visible_rows as int };
            let d = v.moved_down(visible_rows);
            let u = v.moved_up(visible_rows);
            &&& d.table_offset <= d.focus_idx < d.table_offset + visible
            &&& u.table_offset <= u.focus_idx < u.table_offset + visible
        }),
{
}

/// Scrolling never takes the offset past the point where the last screen
/// of rows is full.
pub proof fn law_scroll_stays_in_range(v: AppView, delta: i32, visible_rows: usize)
    requires
        v.can_scroll(delta, visible_rows),
    ensures
        ({
            let visible = if visible_rows == 0 { 1 } else { visible_rows as int };
            let s = v.scrolled(delta, visible_rows);
            &&& v.rows.len() <= visible ==> s.table_offset == 0
            &&& v.rows.len() > visible ==> s.table_offset <= v.rows.len() - visible
        }),
{
}

/// Two clicks on one row within the double-click window select that row.
pub proof fn law_double_click_selects(v: AppView, idx: usize, t1: u64, t2: u64)
    requires
        idx < v.rows.len(),
        t1 <= t2 <= t1 + DOUBLE_CLICK_NANOS,
    ensures
        v.clicked(idx, t1).clicked(idx, t2).selected_pid == Some(v.rows[idx as int].pid),
        v.clicked(idx, t1).clicked(idx, t2).selected_mode,
        v.clicked(idx, t1).clicked(idx, t2).focus_idx == idx,
{
    let once = v.clicked(idx, t1);
    if !v.is_double_click(idx, t1) {
        assert(once.is_double_click(idx, t2));
    }
}

/// A click on a row of the table keeps the state consistent.
pub proof fn law_click_keeps_consistency(v: AppView, idx: usize, now: u64)
    requires
        v.consistent(),
        idx < v.rows.len(),
    ensures
        v.clicked(idx, now).consistent(),
{
    assert(has_pid(v.rows, v.rows[idx as int].pid));
}

/// Two presses of `k` within the double-press window aim a kill at the
/// process that the first press left as the target, and leave no pending press.
pub proof fn law_double_k_kills(v: AppView, visible_rows: usize, t1: u64, t2: u64)
    requires
        t1 <= t2 <= t1 + DOUBLE_K_NANOS,
        !v.is_double_k(t1),
    ensures
        ({
            let first = v.k_pressed(visible_rows, t1);
            let second = first.0.k_pressed(visible_rows, t2);
            &&& first.1 is None
            &&& second.1 == first.0.kill_target()
            &&& second.0.last_k_press is None
        }),
{
}

/// Scrolling the details pane down and back up returns to the same line,
/// unless it was already at the last line a `u16` can count.
pub proof fn law_details_scroll_round_trip(v: AppView)
    requires
        v.details_scroll < u16::MAX,
    ensures
        v.details_scrolled_down().details_scrolled_up() == v,
{
}

/// Rebuilding the table twice from the same snapshot gives what rebuilding
/// once gives.
pub proof fn law_refresh_is_idempotent(v: AppView, procs: Seq<ProcInfoView>)
    ensures
        v.refreshed(procs).refreshed(procs) == v.refreshed(procs),
{
}

/// Index of the first row with process id `pid`, or -1 when there is none.
pub open spec fn first_with_pid(rows: Seq<RowView>, pid: u32) -> int
    decreases rows.len(),
{
    if rows.len() == 0 {
        -1
    } else if rows[0].pid == pid {
        0
    } else {
        let r = first_with_pid(rows.drop_first(), pid);
        if r < 0 {
            -1
        } else {
            r + 1
        }
    }
}

/// `first_with_pid` names the first matching row, or there is none.
pub proof fn lemma_first_with_pid(rows: Seq<RowView>, pid: u32)
    ensures
        -1 <= first_with_pid(rows, pid) < rows.len(),
        first_with_pid(rows, pid) >= 0 ==> rows[first_with_pid(rows, pid)].pid == pid,
        forall|j: int|
            0 <= j < rows.len() && (first_with_pid(rows, pid) < 0 || j < first_with_pid(rows, pid))
                ==> (#[trigger] rows[j]).pid != pid,
        first_with_pid(rows, pid) >= 0 <==> has_pid(rows, pid),
    decreases rows.len(),
{
    if rows.len() > 0 {
        lemma_first_with_pid(rows.drop_first(), pid);
        assert forall|j: int|
            0 <= j < rows.len() && (first_with_pid(rows, pid) < 0 || j < first_with_pid(rows, pid))
                implies (#[trigger] rows[j]).pid != pid by {
            if j > 0 {
                assert(rows[j] == rows.drop_first()[j - 1]);
            }
        }
        if has_pid(rows, pid) {
            let i = choose|i: int| 0 <= i < rows.len() && (#[trigger] rows[i]).pid == pid;
        }
        if first_with_pid(rows, pid) > 0 {
            assert(rows[first_with_pid(rows, pid)] == rows.drop_first()[first_with_pid(rows, pid) - 1]);
        }
    }
}

impl AppView {
    /// The selected row: the first row with the selected process id.
    pub open spec fn selected_row(self) -> Option<RowView> {
        match self.selected_pid {
            Some(p) => if first_with_pid(self.rows, p) >= 0 {
                Some(self.rows[first_with_pid(self.rows, p)])
            } else {
                None
            },
            None => None,
        }
    }
}

/// Two clicks on one row further apart than the double-click window are two
/// single clicks: with no click pending, the selection stays as it was and
/// the second click is the one remembered.
pub proof fn law_slow_clicks_do_not_select(v: AppView, idx: usize, t1: u64, t2: u64)
    requires
        v.last_mouse_click is None,
        t2 > t1 + DOUBLE_CLICK_NANOS,
    ensures
        ({
            let w = v.clicked(idx, t1).clicked(idx, t2);
            &&& w.selected_mode == v.selected_mode
            &&& w.selected_pid == v.selected_pid
            &&& w.details_scroll == v.details_scroll
            &&& w.focus_idx == idx
            &&& w.last_mouse_click == Some((idx, t2))
        }),
{
}

} // verus!
