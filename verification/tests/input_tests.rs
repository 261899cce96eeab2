use anyproc::input::{mouse_capture_change, Action, Key, KeyPress, MouseKind};
use anyproc::layout::Rect;
use anyproc::rows::{ProcInfo, SortMode};
use anyproc::state::App;

fn snapshot(n: u32) -> Vec<ProcInfo> {
    (1..=n)
        .map(|i| ProcInfo {
            pid: i,
            name: format!("p{}", i),
            cmd: String::new(),
            cpu_bits: (i as f32).to_bits(),
            memory: 0,
        })
        .collect()
}

fn press(key: Key) -> KeyPress {
    KeyPress { key, ctrl: false, is_press: true }
}

const SCREEN: Rect = Rect { x: 0, y: 0, width: 80, height: 24 };

#[test]
fn quit_keys() {
    let mut app = App::new(&snapshot(3));
    assert_eq!(app.handle_key_event(press(Key::Char('q')), SCREEN, 0), Action::Quit);
    app.input_mode = true;
    assert_eq!(
        app.handle_key_event(KeyPress { key: Key::Char('q'), ctrl: true, is_press: true }, SCREEN, 0),
        Action::Quit
    );
    assert_eq!(app.handle_key_event(press(Key::Char('q')), SCREEN, 0), Action::Refresh);
    assert_eq!(app.search, "q");
}

#[test]
fn released_keys_are_ignored() {
    let mut app = App::new(&snapshot(3));
    let k = KeyPress { key: Key::Down, ctrl: false, is_press: false };
    assert_eq!(app.handle_key_event(k, SCREEN, 0), Action::Continue);
    assert_eq!(app.focus_idx, 0);
}

#[test]
fn navigation_and_sorting_keys() {
    let mut app = App::new(&snapshot(30));
    assert_eq!(app.handle_key_event(press(Key::Down), SCREEN, 0), Action::Continue);
    assert_eq!(app.focus_idx, 1);
    for _ in 0..25 {
        app.handle_key_event(press(Key::Down), SCREEN, 0);
    }
    // 24 lines: table of 22 rows shows 20 data rows.
    assert_eq!(app.focus_idx, 26);
    assert_eq!(app.table_offset, 7);
    assert_eq!(app.handle_key_event(press(Key::Up), SCREEN, 0), Action::Continue);
    assert_eq!(app.focus_idx, 25);
    assert_eq!(app.handle_key_event(press(Key::Char('m')), SCREEN, 0), Action::Refresh);
    assert_eq!(app.sort_mode, SortMode::Mem);
    assert_eq!(app.handle_key_event(press(Key::Char('p')), SCREEN, 0), Action::Refresh);
    assert_eq!(app.sort_mode, SortMode::Pid);
    assert_eq!(app.handle_key_event(press(Key::Char('c')), SCREEN, 0), Action::Refresh);
    assert_eq!(app.sort_mode, SortMode::Cpu);
    assert_eq!(app.handle_key_event(press(Key::Char('u')), SCREEN, 0), Action::Refresh);
    assert_eq!(app.handle_key_event(press(Key::Char('v')), SCREEN, 0), Action::Continue);
    assert!(app.text_select_mode);
}

#[test]
fn enter_selects_and_esc_clears() {
    let mut app = App::new(&snapshot(3));
    app.handle_key_event(press(Key::Enter), SCREEN, 0);
    assert_eq!(app.selected_pid, Some(3));
    app.handle_key_event(press(Key::Esc), SCREEN, 0);
    assert_eq!(app.selected_pid, None);
}

#[test]
fn double_k_asks_for_a_kill() {
    let mut app = App::new(&snapshot(3));
    assert_eq!(app.handle_key_event(press(Key::Char('k')), SCREEN, 10), Action::Continue);
    assert_eq!(app.handle_key_event(press(Key::Char('k')), SCREEN, 20), Action::Kill(3));
}

#[test]
fn filter_input_mode() {
    let mut app = App::new(&snapshot(3));
    app.search = "ab".to_string();
    assert_eq!(app.handle_key_event(press(Key::Char('f')), SCREEN, 0), Action::Continue);
    assert!(app.input_mode);
    assert_eq!(app.search_cursor, 2);
    assert_eq!(app.handle_key_event(press(Key::Left), SCREEN, 0), Action::Continue);
    assert_eq!(app.search_cursor, 1);
    assert_eq!(app.handle_key_event(press(Key::Char('é')), SCREEN, 0), Action::Refresh);
    assert_eq!(app.search, "aéb");
    assert_eq!(app.search_cursor, 3);
    assert_eq!(app.handle_key_event(press(Key::Home), SCREEN, 0), Action::Continue);
    assert_eq!(app.handle_key_event(press(Key::Backspace), SCREEN, 0), Action::Continue);
    assert_eq!(app.handle_key_event(press(Key::Delete), SCREEN, 0), Action::Refresh);
    assert_eq!(app.search, "éb");
    assert_eq!(app.handle_key_event(press(Key::End), SCREEN, 0), Action::Continue);
    assert_eq!(app.search_cursor, 3);
    assert_eq!(app.handle_key_event(press(Key::Delete), SCREEN, 0), Action::Continue);
    assert_eq!(app.handle_key_event(press(Key::Right), SCREEN, 0), Action::Continue);
    assert_eq!(app.search_cursor, 3);
    assert_eq!(app.handle_key_event(press(Key::Backspace), SCREEN, 0), Action::Refresh);
    assert_eq!(app.search, "é");
    assert_eq!(app.handle_key_event(press(Key::Enter), SCREEN, 0), Action::Continue);
    assert!(!app.input_mode);
}

#[test]
fn wheel_and_clicks() {
    let mut app = App::new(&snapshot(40));
    app.handle_mouse_event(MouseKind::ScrollDown, 5, 5, SCREEN, true, 0);
    assert_eq!(app.table_offset, 1);
    app.handle_mouse_event(MouseKind::ScrollUp, 5, 5, SCREEN, true, 0);
    assert_eq!(app.table_offset, 0);
    // Outside the table nothing scrolls.
    app.handle_mouse_event(MouseKind::ScrollDown, 5, 23, SCREEN, true, 0);
    assert_eq!(app.table_offset, 0);
    // With capture off nothing happens.
    app.handle_mouse_event(MouseKind::ScrollDown, 5, 5, SCREEN, false, 0);
    assert_eq!(app.table_offset, 0);
    app.handle_mouse_event(MouseKind::LeftDown, 5, 4, SCREEN, true, 100);
    assert_eq!(app.focus_idx, 2);
    app.handle_mouse_event(MouseKind::LeftDown, 5, 4, SCREEN, true, 200);
    assert!(app.selected_mode);
    assert_eq!(app.selected_pid, Some(38));
}

#[test]
fn wheel_over_details_scrolls_them() {
    let mut app = App::new(&snapshot(40));
    app.select_focused();
    let screen = Rect { x: 0, y: 0, width: 100, height: 40 };
    // The details pane spans rows 28..38 of this screen.
    app.handle_mouse_event(MouseKind::ScrollDown, 5, 30, screen, true, 0);
    app.handle_mouse_event(MouseKind::ScrollDown, 5, 30, screen, true, 0);
    assert_eq!(app.details_scroll, 2);
    app.handle_mouse_event(MouseKind::ScrollUp, 5, 30, screen, true, 0);
    assert_eq!(app.details_scroll, 1);
    assert_eq!(app.table_offset, 0);
}

#[test]
fn capture_follows_text_selection() {
    assert_eq!(mouse_capture_change(false, true), None);
    assert_eq!(mouse_capture_change(true, false), None);
    assert_eq!(mouse_capture_change(true, true), Some(false));
    assert_eq!(mouse_capture_change(false, false), Some(true));
}

#[test]
fn events_out_of_arithmetic_range_are_refused() {
    let mut app = App::new(&snapshot(5));
    let bad_screen = Rect { x: u16::MAX - 2, y: 0, width: 10, height: 24 };
    // Left of the screen the right edge is never computed.
    assert!(app.handle_mouse_event(MouseKind::ScrollDown, 5, 5, bad_screen, true, 0));
    assert!(!app.handle_mouse_event(MouseKind::ScrollDown, u16::MAX - 1, 5, bad_screen, true, 0));
    assert!(app.handle_mouse_event(MouseKind::ScrollDown, u16::MAX - 1, 5, bad_screen, false, 0));
    assert!(app.handle_mouse_event(MouseKind::Other, 5, 5, SCREEN, true, 0));
    app.table_offset = i32::MAX as usize;
    assert!(!app.can_scroll_table(1, 20));
    assert!(app.can_scroll_table(-1, 20));
    assert!(!app.handle_mouse_event(MouseKind::ScrollDown, 5, 5, SCREEN, true, 0));
    assert_eq!(app.table_offset, i32::MAX as usize);
    app.table_offset = usize::MAX - 3;
    app.focus_idx = usize::MAX - 2;
    assert!(!app.normal_key_fits_now(Key::Up, 20, 0));
    assert!(app.normal_key_fits_now(Key::Up, 3, 0));
    // Down lands on the last row, above the offset, and computes no end.
    assert!(app.normal_key_fits_now(Key::Down, 20, 0));
    assert!(app.normal_key_fits_now(Key::Char('f'), 20, 0));
    assert_eq!(app.handle_key_event(press(Key::Up), SCREEN, 0), Action::Continue);
    assert_eq!(app.focus_idx, usize::MAX - 2);
    assert_eq!(app.table_offset, usize::MAX - 3);
    // Keys that move nothing still act.
    assert_eq!(app.handle_key_event(press(Key::Char('u')), SCREEN, 0), Action::Refresh);
    assert_eq!(app.handle_key_event(press(Key::Char('f')), SCREEN, 0), Action::Continue);
    assert!(app.input_mode);
    app.input_mode = false;
    assert_eq!(app.handle_key_event(press(Key::Char('q')), SCREEN, 0), Action::Quit);
    // With the focus above the offset, Up never computes the screen's end.
    app.focus_idx = 0;
    assert!(app.normal_key_fits_now(Key::Up, 20, 0));
    assert_eq!(app.handle_key_event(press(Key::Up), SCREEN, 0), Action::Continue);
    assert_eq!(app.table_offset, 0);
}

#[test]
fn double_k_needs_no_room_to_move() {
    let mut app = App::new(&snapshot(5));
    app.focus_idx = 3;
    app.table_offset = usize::MAX - 1;
    app.last_k_press = Some(100);
    assert!(app.normal_key_fits_now(Key::Char('k'), 20, 200));
    assert_eq!(app.handle_key_event(press(Key::Char('k')), SCREEN, 200), Action::Kill(2));
    assert_eq!(app.last_k_press, None);
}

#[test]
fn cursor_is_read_only_by_editing_keys() {
    let mut app = App::new(&snapshot(2));
    app.input_mode = true;
    assert!(app.event_reads_cursor(press(Key::Left)));
    assert!(app.event_reads_cursor(press(Key::Char('x'))));
    assert!(!app.event_reads_cursor(press(Key::Home)));
    assert!(!app.event_reads_cursor(KeyPress { key: Key::Char('q'), ctrl: true, is_press: true }));
    // A cursor inside a character is fine for keys that do not read it.
    app.search = "é".to_string();
    app.search_cursor = 1;
    assert_eq!(app.handle_key_event(press(Key::Home), SCREEN, 0), Action::Continue);
    assert_eq!(app.search_cursor, 0);
    app.input_mode = false;
    assert!(!app.event_reads_cursor(press(Key::Char('x'))));
}

#[test]
fn refresh_timing() {
    assert_eq!(anyproc::input::poll_timeout(0), 1_000_000_000);
    assert_eq!(anyproc::input::poll_timeout(250_000_000), 750_000_000);
    assert_eq!(anyproc::input::poll_timeout(2_000_000_000), 0);
    assert!(!anyproc::input::refresh_due(999_999_999));
    assert!(anyproc::input::refresh_due(1_000_000_000));
}
