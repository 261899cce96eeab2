//! Keyboard and mouse handling: from the state and an event to the next
//! state and what the front end must do (quit, re-read the processes, or
//! kill one).

use vstd::prelude::*;

use crate::layout::{
    Rect, hit_test_fits, hit_test_fits_u16, in_rect, layout_chunks, layout_constraints, mouse_row,
    point_in, row_from_mouse, vertical_split, visible_rows_in_table,
};
use crate::rows::SortMode;
use crate::search::{
    backspace_at, clamp_cursor, cursor_left, cursor_ok, cursor_right, delete_at, insert_at,
};
use crate::state::{App, AppView};
use crate::text::{byte_len, str_byte_len};

verus! {

/// A key, as far as the browser tells keys apart.
#[derive(Clone, Copy, Debug, PartialEq, Eq, Structural)]
pub enum Key {
    Char(char),
    Up,
    Down,
    Left,
    Right,
    Home,
    End,
    Backspace,
    Delete,
    Enter,
    Esc,
    Other,
}

/// A keyboard event.
#[derive(Clone, Copy, Debug, PartialEq, Eq, Structural)]
pub struct KeyPress {
    pub key: Key,
    /// Control was held.
    pub ctrl: bool,
    /// The key went down (rather than repeating or coming up).
    pub is_press: bool,
}

/// A mouse event's kind, as far as the browser tells them apart.
#[derive(Clone, Copy, Debug, PartialEq, Eq, Structural)]
pub enum MouseKind {
    ScrollDown,
    ScrollUp,
    LeftDown,
    Other,
}

/// What the front end does after an event.
#[derive(Clone, Copy, Debug, PartialEq, Eq, Structural)]
pub enum Action {
    /// Nothing more.
    Continue,
    /// Leave the program.
    Quit,
    /// Read the processes again and rebuild the table from them.
    Refresh,
    /// Kill this process (when it still exists), then read the processes
    /// again and rebuild the table.
    Kill(u32),
}

/// The state and action after a key while the filter is being typed.
pub open spec fn input_key_result(v: AppView, key: Key) -> (AppView, Action) {
    let c = v.search_cursor as int;
    match key {
        Key::Esc => (AppView { input_mode: false, ..v }, Action::Continue),
        Key::Left => (AppView { search_cursor: cursor_left(v.search, c) as usize, ..v }, Action::Continue),
        Key::Right => (AppView { search_cursor: cursor_right(v.search, c) as usize, ..v }, Action::Continue),
        Key::Home => (AppView { search_cursor: 0, ..v }, Action::Continue),
        Key::End => (AppView { search_cursor: byte_len(v.search) as usize, ..v }, Action::Continue),
        Key::Backspace => (
            v.with_search(backspace_at(v.search, c)),
            if clamp_cursor(v.search, c) > 0 { Action::Refresh } else { Action::Continue },
        ),
        Key::Delete => (
            v.with_search(delete_at(v.search, c)),
            if clamp_cursor(v.search, c) < byte_len(v.search) {
                Action::Refresh
            } else {
                Action::Continue
            },
        ),
        Key::Enter => (AppView { input_mode: false, ..v }, Action::Continue),
        Key::Char(ch) => (v.with_search(insert_at(v.search, c, ch)), Action::Refresh),
        _ => (v, Action::Continue),
    }
}

/// The state and action after a key outside the filter, with `visible_rows`
/// table rows on screen.
pub open spec fn normal_key_result(v: AppView, key: Key, visible_rows: usize, now: u64) -> (
    AppView,
    Action,
) {
    match key {
        Key::Char('q') => (v, Action::Quit),
        Key::Down => (v.moved_down(visible_rows), Action::Continue),
        Key::Up => (v.moved_up(visible_rows), Action::Continue),
        Key::Char('k') => {
            let (w, kill) = v.k_pressed(visible_rows, now);
            (
                w,
                match kill {
                    Some(pid) => Action::Kill(pid),
                    None => Action::Continue,
                },
            )
        },
        Key::Char('v') => (AppView { text_select_mode: !v.text_select_mode, ..v }, Action::Continue),
        Key::Char('f') => (
            AppView { input_mode: true, search_cursor: byte_len(v.search) as usize, ..v },
            Action::Continue,
        ),
        Key::Char('u') => (v, Action::Refresh),
        Key::Char('c') => (AppView { sort_mode: SortMode::Cpu, ..v }, Action::Refresh),
        Key::Char('m') => (AppView { sort_mode: SortMode::Mem, ..v }, Action::Refresh),
        Key::Char('p') => (AppView { sort_mode: SortMode::Pid, ..v }, Action::Refresh),
        Key::Enter => (v.focused_selected(), Action::Continue),
        Key::Esc => (v.selection_cleared(), Action::Continue),
        _ => (v, Action::Continue),
    }
}

/// Table rows on screen for a terminal of size `screen`.
pub open spec fn screen_visible_rows(screen: Rect, show_details: bool) -> usize {
    let table = vertical_split(screen, layout_constraints(show_details))[0];
    if table.height >= 2 {
        (table.height - 2) as usize
    } else {
        0
    }
}

/// The state and action after a keyboard event on a terminal of size `screen`.
pub open spec fn key_result(v: AppView, key: KeyPress, screen: Rect, now: u64) -> (AppView, Action) {
    if !key.is_press {
        (v, Action::Continue)
    } else if key.key == Key::Char('q') && key.ctrl {
        (v, Action::Quit)
    } else if v.input_mode {
        input_key_result(v, key.key)
    } else {
        normal_key_result(v, key.key, screen_visible_rows(screen, v.selected_mode), now)
    }
}

/// The arithmetic of a key outside the filter stays within `usize`: only
/// Down, Up and `k` move the focus.
pub open spec fn normal_key_fits(v: AppView, key: Key, visible_rows: usize, now: u64) -> bool {
    match key {
        Key::Down => v.can_move_down(visible_rows),
        Key::Up => v.can_move_up(visible_rows),
        Key::Char('k') => v.can_press_k(visible_rows, now),
        _ => true,
    }
}

/// The keys of the filter that read the text at the cursor.
pub open spec fn key_needs_cursor(key: Key) -> bool {
    match key {
        Key::Left | Key::Right | Key::Backspace | Key::Delete | Key::Char(_) => true,
        _ => false,
    }
}

/// A keyboard event reaches the filter's text at the cursor.
pub open spec fn event_needs_cursor(v: AppView, key: KeyPress) -> bool {
    key.is_press && !(key.key == Key::Char('q') && key.ctrl) && v.input_mode && key_needs_cursor(
        key.key,
    )
}

impl App {
    /// Handles a key while the filter is being typed. Edits of the text ask
    /// for a refresh.
    pub fn handle_input_mode_key(&mut self, key: Key) -> (action: Action)
        requires
            key_needs_cursor(key) ==> cursor_ok(old(self)@.search, old(self).search_cursor as int),
        ensures
            (final(self)@, action) == input_key_result(old(self)@, key),
    {
        match key {
            Key::Esc => {
                self.input_mode = false;
                Action::Continue
            },
            Key::Left => {
                self.move_search_cursor_left();
                Action::Continue
            },
            Key::Right => {
                self.move_search_cursor_right();
                Action::Continue
            },
            Key::Home => {
                self.search_cursor = 0;
                Action::Continue
            },
            Key::End => {
                self.search_cursor = str_byte_len(self.search.as_str());
                Action::Continue
            },
            Key::Backspace => {
                if self.edit_backspace() {
                    Action::Refresh
                } else {
                    Action::Continue
                }
            },
            Key::Delete => {
                if self.edit_delete() {
                    Action::Refresh
                } else {
                    Action::Continue
                }
            },
            Key::Enter => {
                self.input_mode = false;
                Action::Continue
            },
            Key::Char(c) => {
                self.edit_insert_char(c);
                Action::Refresh
            },
            _ => Action::Continue,
        }
    }

    /// Handles a key outside the filter, with `visible_rows` table rows on screen.
    pub fn handle_normal_key(&mut self, key: Key, visible_rows: usize, now: u64) -> (action: Action)
        requires
            normal_key_fits(old(self)@, key, visible_rows, now),
        ensures
            (final(self)@, action) == normal_key_result(old(self)@, key, visible_rows, now),
    {
        match key {
            Key::Char('q') => Action::Quit,
            Key::Down => {
                self.next(visible_rows);
                Action::Continue
            },
            Key::Up => {
                self.prev(visible_rows);
                Action::Continue
            },
            Key::Char('k') => match self.handle_k_press(visible_rows, now) {
                Some(pid) => Action::Kill(pid),
                None => Action::Continue,
            },
            Key::Char('v') => {
                self.text_select_mode = !self.text_select_mode;
                Action::Continue
            },
            Key::Char('f') => {
                self.input_mode = true;
                self.search_cursor = str_byte_len(self.search.as_str());
                Action::Continue
            },
            Key::Char('u') => Action::Refresh,
            Key::Char('c') => {
                self.sort_mode = SortMode::Cpu;
                Action::Refresh
            },
            Key::Char('m') => {
                self.sort_mode = SortMode::Mem;
                Action::Refresh
            },
            Key::Char('p') => {
                self.sort_mode = SortMode::Pid;
                Action::Refresh
            },
            Key::Enter => {
                self.select_focused();
                Action::Continue
            },
            Key::Esc => {
                self.clear_selection();
                Action::Continue
            },
            _ => Action::Continue,
        }
    }

    /// Whether showing the focused row computes the end of the screen within `usize`.
    fn focus_fits(&self, focus: usize, visible_rows: usize) -> (b: bool)
        ensures
            b == (AppView { focus_idx: focus, ..self@ }).can_show_focus(visible_rows),
    {
        let visible = if visible_rows == 0 { 1 } else { visible_rows };
        focus < self.table_offset || self.table_offset <= usize::MAX - visible
    }

    /// Whether a key outside the filter stays within `usize`.
    pub fn normal_key_fits_now(&self, key: Key, visible_rows: usize, now: u64) -> (b: bool)
        ensures
            b == normal_key_fits(self@, key, visible_rows, now),
    {
        let up = self.focus_idx.saturating_sub(1);
        let up_fits = self.rows.len() == 0 || self.focus_fits(up, visible_rows);
        match key {
            Key::Down => {
                if self.rows.len() == 0 {
                    return true;
                }
                if self.focus_idx == usize::MAX {
                    return false;
                }
                let next = self.focus_idx + 1;
                let last = self.rows.len() - 1;
                self.focus_fits(if next < last { next } else { last }, visible_rows)
            },
            Key::Up => up_fits,
            Key::Char('k') => {
                let quick = match self.last_k_press {
                    Some(t) => now.saturating_sub(t) <= crate::state::DOUBLE_K_NANOS,
                    None => false,
                };
                quick || up_fits
            },
            _ => true,
        }
    }

    /// Handles a keyboard event on a terminal of size `screen` at time `now`.
    /// Down, Up or `k` outside the filter, on a state whose focus or offset is
    /// so close to `usize::MAX` that moving by a screen of rows would
    /// overflow, leave the state as it is, and the action is `Continue`.
    pub fn handle_key_event(&mut self, key: KeyPress, screen: Rect, now: u64) -> (action: Action)
        requires
            event_needs_cursor(old(self)@, key) ==> cursor_ok(
                old(self)@.search,
                old(self).search_cursor as int,
            ),
        ensures
            (final(self)@, action) == if key_moves_fit(old(self)@, key, screen, now) {
                key_result(old(self)@, key, screen, now)
            } else {
                (old(self)@, Action::Continue)
            },
    {
        if !key.is_press {
            return Action::Continue;
        }
        if key.key == Key::Char('q') && key.ctrl {
            return Action::Quit;
        }
        if self.input_mode {
            return self.handle_input_mode_key(key.key);
        }
        let chunks = layout_chunks(screen, self.selected_mode);
        let visible_rows = visible_rows_in_table(chunks[0]);
        if !self.normal_key_fits_now(key.key, visible_rows, now) {
            return Action::Continue;
        }
        self.handle_normal_key(key.key, visible_rows, now)
    }
}

/// A key outside the filter that moves the focus finds it and the offset
/// far enough from `usize::MAX` to move by a screen of rows.
pub open spec fn key_moves_fit(v: AppView, key: KeyPress, screen: Rect, now: u64) -> bool {
    !key.is_press || (key.key == Key::Char('q') && key.ctrl) || v.input_mode || normal_key_fits(
        v,
        key.key,
        screen_visible_rows(screen, v.selected_mode),
        now,
    )
}

/// The state after a mouse event, with the screen split into `chunks`.
pub open spec fn mouse_result(
    v: AppView,
    kind: MouseKind,
    column: u16,
    row: u16,
    chunks: Seq<Rect>,
    now: u64,
) -> AppView {
    let table = chunks[0];
    let visible = (if table.height >= 2 { table.height - 2 } else { 0 }) as usize;
    let in_table = point_in(column as int, row as int, table);
    let in_details = v.selected_mode && chunks.len() > 4 && point_in(
        column as int,
        row as int,
        chunks[2],
    );
    match kind {
        MouseKind::ScrollDown => if in_table {
            v.scrolled(1, visible)
        } else if in_details {
            v.details_scrolled_down()
        } else {
            v
        },
        MouseKind::ScrollUp => if in_table {
            v.scrolled(-1i32, visible)
        } else if in_details {
            v.details_scrolled_up()
        } else {
            v
        },
        MouseKind::LeftDown => match mouse_row(
            column as int,
            row as int,
            table,
            v.rows.len() as int,
            v.table_offset as int,
        ) {
            Some(idx) => v.clicked(idx, now),
            None => v,
        },
        MouseKind::Other => v,
    }
}

/// What a mouse event needs of the arithmetic it is done in.
pub open spec fn mouse_fits(v: AppView, kind: MouseKind, column: u16, row: u16, chunks: Seq<Rect>) -> bool {
    let table = chunks[0];
    let visible = (if table.height >= 2 { table.height - 2 } else { 0 }) as usize;
    let in_table = point_in(column as int, row as int, table);
    let scroll = kind == MouseKind::ScrollDown || kind == MouseKind::ScrollUp;
    &&& kind != MouseKind::Other ==> hit_test_fits(column as int, row as int, table)
    &&& scroll && !in_table && v.selected_mode && chunks.len() > 4 ==> hit_test_fits(
        column as int,
        row as int,
        chunks[2],
    )
    &&& kind == MouseKind::ScrollDown && in_table ==> v.can_scroll(1, visible)
    &&& kind == MouseKind::ScrollUp && in_table ==> v.can_scroll(-1i32, visible)
    &&& kind == MouseKind::LeftDown && crate::layout::on_data_rows(
        column as int,
        row as int,
        table,
        v.rows.len() as int,
    ) ==> v.table_offset + (row - crate::layout::data_start(table)) <= usize::MAX
}

impl App {
    /// Handles a mouse event at `(column, row)` with the screen split into
    /// `chunks`: wheel over the table scrolls it, wheel over the details pane
    /// scrolls that, and a left click on a table row focuses it.
    pub fn handle_mouse_in_layout(
        &mut self,
        kind: MouseKind,
        column: u16,
        row: u16,
        chunks: &Vec<Rect>,
        now: u64,
    )
        requires
            chunks@.len() >= 1,
            mouse_fits(old(self)@, kind, column, row, chunks@),
        ensures
            final(self)@ == mouse_result(old(self)@, kind, column, row, chunks@, now),
    {
        let table_area = chunks[0];
        let visible_rows = visible_rows_in_table(table_area);
        let details_area = if self.selected_mode && chunks.len() > 4 {
            Some(chunks[2])
        } else {
            None
        };
        match kind {
            MouseKind::ScrollDown => {
                if in_rect(column, row, table_area) {
                    self.scroll_table(1, visible_rows);
                } else if let Some(area) = details_area {
                    if in_rect(column, row, area) {
                        self.scroll_details_down();
                    }
                }
            },
            MouseKind::ScrollUp => {
                if in_rect(column, row, table_area) {
                    self.scroll_table(-1, visible_rows);
                } else if let Some(area) = details_area {
                    if in_rect(column, row, area) {
                        self.scroll_details_up();
                    }
                }
            },
            MouseKind::LeftDown => {
                if let Some(idx) = row_from_mouse(
                    column,
                    row,
                    table_area,
                    self.rows.len(),
                    self.table_offset,
                ) {
                    self.handle_table_click(idx, now);
                }
            },
            MouseKind::Other => {},
        }
    }

    /// Whether scrolling the table by `delta` stays within `i32`.
    pub fn can_scroll_table(&self, delta: i32, visible_rows: usize) -> (b: bool)
        ensures
            b == self@.can_scroll(delta, visible_rows),
    {
        if self.rows.len() == 0 {
            return true;
        }
        let visible = if visible_rows == 0 { 1 } else { visible_rows };
        let max_offset = self.rows.len().saturating_sub(visible);
        let current = self.table_offset as i32;
        let sum_fits = if delta >= 0 { current <= i32::MAX - delta } else { current >= i32::MIN - delta };
        sum_fits && (max_offset as i32) >= 0
    }

    /// Whether a mouse event with the screen split into `chunks` stays within
    /// the arithmetic it is done in.
    pub fn mouse_event_fits(&self, kind: MouseKind, column: u16, row: u16, chunks: &Vec<Rect>) -> (b:
        bool)
        requires
            chunks@.len() >= 1,
        ensures
            b == mouse_fits(self@, kind, column, row, chunks@),
    {
        let table = chunks[0];
        if let MouseKind::Other = kind {
            return true;
        }
        if !hit_test_fits_u16(column, row, table) {
            return false;
        }
        let visible = visible_rows_in_table(table);
        let in_table = in_rect(column, row, table);
        let details_fit = in_table || !(self.selected_mode && chunks.len() > 4)
            || hit_test_fits_u16(column, row, chunks[2]);
        match kind {
            MouseKind::ScrollDown => details_fit && (!in_table || self.can_scroll_table(1, visible)),
            MouseKind::ScrollUp => details_fit && (!in_table || self.can_scroll_table(-1, visible)),
            MouseKind::LeftDown => {
                let start = table.y.saturating_add(2);
                let on_rows = in_table && self.rows.len() != 0 && row >= start && row < table.y
                    + table.height;
                !on_rows || self.table_offset <= usize::MAX - ((row - start) as usize)
            },
            MouseKind::Other => true,
        }
    }

    /// Handles a mouse event on a terminal of size `screen`; nothing happens
    /// while mouse capture is off. An event whose arithmetic would overflow
    /// (a hit test past `u16::MAX`, or an offset near the end of `i32` or
    /// `usize`) leaves the state as it is and gives `false`.
    pub fn handle_mouse_event(
        &mut self,
        kind: MouseKind,
        column: u16,
        row: u16,
        screen: Rect,
        capture_enabled: bool,
        now: u64,
    ) -> (handled: bool)
        ensures
            ({
                let chunks = vertical_split(screen, layout_constraints(old(self).selected_mode));
                let fits = mouse_fits(old(self)@, kind, column, row, chunks);
                &&& handled == (!capture_enabled || fits)
                &&& final(self)@ == if capture_enabled && fits {
                    mouse_result(old(self)@, kind, column, row, chunks, now)
                } else {
                    old(self)@
                }
            }),
    {
        if !capture_enabled {
            return true;
        }
        let chunks = layout_chunks(screen, self.selected_mode);
        if !self.mouse_event_fits(kind, column, row, &chunks) {
            return false;
        }
        self.handle_mouse_in_layout(kind, column, row, &chunks, now);
        true
    }
}

impl App {
    /// Whether this keyboard event reaches the filter's text at the cursor,
    /// so that the cursor must sit on a character boundary.
    pub fn event_reads_cursor(&self, key: KeyPress) -> (b: bool)
        ensures
            b == event_needs_cursor(self@, key),
    {
        let quit = key.key == Key::Char('q') && key.ctrl;
        let reads = match key.key {
            Key::Left | Key::Right | Key::Backspace | Key::Delete | Key::Char(_) => true,
            _ => false,
        };
        key.is_press && !quit && self.input_mode && reads
    }
}

/// Period of the table's automatic refresh, in nanoseconds.
pub const TICK_NANOS: u64 = 1_000_000_000;

/// How long to wait for an event when `elapsed` nanoseconds have passed
/// since the last refresh.
pub fn poll_timeout(elapsed: u64) -> (wait: u64)
    ensures
        wait == if elapsed >= TICK_NANOS { 0 } else { TICK_NANOS - elapsed },
{
    TICK_NANOS.saturating_sub(elapsed)
}

/// Whether the table is due for its automatic refresh.
pub fn refresh_due(elapsed: u64) -> (due: bool)
    ensures
        due == (elapsed >= TICK_NANOS),
{
    elapsed >= TICK_NANOS
}

/// Whether mouse capture must be switched, and to what: capture is on exactly
/// while text selection is off.
pub fn mouse_capture_change(text_select_mode: bool, capture_enabled: bool) -> (change: Option<bool>)
    ensures
        change == if !text_select_mode == capture_enabled {
            None::<bool>
        } else {
            Some(!text_select_mode)
        },
{
    let should_enable = !text_select_mode;
    if should_enable == capture_enabled {
        None
    } else {
        Some(should_enable)
    }
}

/// Every key, in the filter or outside it, keeps the state consistent.
pub proof fn law_keys_keep_consistency(v: AppView, key: Key, visible_rows: usize, now: u64)
    requires
        v.consistent(),
        byte_len(v.search) + 4 <= usize::MAX,
    ensures
        input_key_result(v, key).0.consistent(),
        normal_key_result(v, key, visible_rows, now).0.consistent(),
{
    let ch = match key {
        Key::Char(c) => c,
        _ => ' ',
    };
    crate::state::law_operations_keep_consistency(v, visible_rows, 0, now, ch);
    assert(v.search.take(0) =~= Seq::<char>::empty());
    assert(crate::text::byte_offset(v.search, 0) == 0);
}

/// Every mouse event keeps the state consistent.
pub proof fn law_mouse_keeps_consistency(
    v: AppView,
    kind: MouseKind,
    column: u16,
    row: u16,
    chunks: Seq<Rect>,
    now: u64,
)
    requires
        v.consistent(),
        byte_len(v.search) + 4 <= usize::MAX,
        chunks.len() >= 1,
        mouse_fits(v, kind, column, row, chunks),
    ensures
        mouse_result(v, kind, column, row, chunks, now).consistent(),
{
    let table = chunks[0];
    let visible = (if table.height >= 2 { table.height - 2 } else { 0 }) as usize;
    crate::state::law_operations_keep_consistency(v, visible, 1, now, ' ');
    crate::state::law_operations_keep_consistency(v, visible, -1i32, now, ' ');
    match mouse_row(column as int, row as int, table, v.rows.len() as int, v.table_offset as int) {
        Some(idx) => {
            crate::state::law_click_keeps_consistency(v, idx, now);
        },
        None => {},
    }
}

/// While the filter is typed, Esc and Enter both finish it: the filter
/// closes, its text and cursor stay as they are, the table and selection are
/// untouched, and nothing more is asked of the front end.
pub proof fn law_esc_and_enter_finish_filter(v: AppView, ctrl: bool, screen: Rect, now: u64)
    requires
        v.input_mode,
    ensures
        ({
            let esc = key_result(v, KeyPress { key: Key::Esc, ctrl, is_press: true }, screen, now);
            let enter = key_result(
                v,
                KeyPress { key: Key::Enter, ctrl, is_press: true },
                screen,
                now,
            );
            &&& !esc.0.input_mode && esc.0.search == v.search && esc.0.search_cursor
                == v.search_cursor && esc.0.rows == v.rows && esc.0.selected_pid == v.selected_pid
            &&& esc.1 == Action::Continue
            &&& !enter.0.input_mode && enter.0.search == v.search && enter.0.search_cursor
                == v.search_cursor && enter.0.rows == v.rows && enter.0.selected_pid
                == v.selected_pid
            &&& enter.1 == Action::Continue
        }),
{
}

/// In the filter, Home and End put the cursor at the start and the end of
/// the text and leave the text alone; a typed character followed by
/// Backspace gives back the text it started from, with the cursor where it
/// was (moved back from beyond the end), and both keys ask for a refresh.
pub proof fn law_filter_keys(v: AppView, ch: char, screen: Rect, now: u64)
    requires
        v.input_mode,
        cursor_ok(v.search, v.search_cursor as int),
        byte_len(v.search) + 4 <= usize::MAX,
    ensures
        ({
            let home = key_result(v, KeyPress { key: Key::Home, ctrl: false, is_press: true }, screen, now);
            let end = key_result(v, KeyPress { key: Key::End, ctrl: false, is_press: true }, screen, now);
            let typed = key_result(
                v,
                KeyPress { key: Key::Char(ch), ctrl: false, is_press: true },
                screen,
                now,
            );
            let back = key_result(
                typed.0,
                KeyPress { key: Key::Backspace, ctrl: false, is_press: true },
                screen,
                now,
            );
            &&& home.0.search_cursor == 0 && home.0.search == v.search && home.0.input_mode
            &&& end.0.search_cursor == byte_len(v.search) && end.0.search == v.search
            &&& typed.1 == Action::Refresh && typed.0.input_mode
            &&& back.0.search == v.search
            &&& back.0.search_cursor == clamp_cursor(v.search, v.search_cursor as int)
            &&& back.1 == Action::Refresh
        }),
{
    crate::search::law_backspace_undoes_insert(v.search, v.search_cursor as int, ch);
    crate::search::lemma_edits_within(v.search, v.search_cursor as int, ch);
    let e = insert_at(v.search, v.search_cursor as int, ch);
    crate::search::lemma_clamped_boundary(v.search, v.search_cursor as int);
    assert(e.1 > 0);
    assert(clamp_cursor(e.0, e.1) == e.1);
}

/// Outside the filter, `q` quits without touching the state, `f` opens the
/// filter with the cursor at the end of the text, and `c`, `m`, `p` pick
/// the sort column and ask for a refresh.
pub proof fn law_normal_keys(v: AppView, screen: Rect, now: u64)
    requires
        !v.input_mode,
        byte_len(v.search) <= usize::MAX,
    ensures
        ({
            let q = key_result(v, KeyPress { key: Key::Char('q'), ctrl: false, is_press: true }, screen, now);
            let f = key_result(v, KeyPress { key: Key::Char('f'), ctrl: false, is_press: true }, screen, now);
            let c = key_result(v, KeyPress { key: Key::Char('c'), ctrl: false, is_press: true }, screen, now);
            let m = key_result(v, KeyPress { key: Key::Char('m'), ctrl: false, is_press: true }, screen, now);
            let p = key_result(v, KeyPress { key: Key::Char('p'), ctrl: false, is_press: true }, screen, now);
            &&& q == (v, Action::Quit)
            &&& f.0.input_mode && f.0.search == v.search && f.0.search_cursor == byte_len(v.search)
            &&& c.0.sort_mode == SortMode::Cpu && c.1 == Action::Refresh
            &&& m.0.sort_mode == SortMode::Mem && m.1 == Action::Refresh
            &&& p.0.sort_mode == SortMode::Pid && p.1 == Action::Refresh
        }),
{
}

} // verus!
