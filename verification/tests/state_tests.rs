use anyproc::rows::{ProcInfo, SortMode};
use anyproc::state::App;

fn proc(pid: u32, name: &str, cpu: f32) -> ProcInfo {
    ProcInfo {
        pid,
        name: name.to_string(),
        cmd: format!("/usr/bin/{}", name),
        cpu_bits: cpu.to_bits(),
        memory: (pid as u64) * 1024 * 1024,
    }
}

fn snapshot(n: u32) -> Vec<ProcInfo> {
    (1..=n).map(|i| proc(i, &format!("p{}", i), i as f32)).collect()
}

#[test]
fn new_sorts_by_cpu_and_focuses_top() {
    let app = App::new(&snapshot(3));
    let pids: Vec<u32> = app.rows.iter().map(|r| r.pid).collect();
    assert_eq!(pids, vec![3, 2, 1]);
    assert_eq!(app.focus_idx, 0);
    assert_eq!(app.table_offset, 0);
    assert!(matches!(app.sort_mode, SortMode::Cpu));
}

#[test]
fn refresh_clamps_focus_and_offset() {
    let mut app = App::new(&snapshot(10));
    app.focus_idx = 9;
    app.table_offset = 8;
    app.refresh_rows(&snapshot(4));
    assert_eq!(app.focus_idx, 3);
    assert_eq!(app.table_offset, 3);
}

#[test]
fn refresh_to_empty_resets_navigation() {
    let mut app = App::new(&snapshot(5));
    app.focus_idx = 2;
    app.table_offset = 1;
    app.select_focused();
    app.details_scroll = 4;
    app.refresh_rows(&Vec::new());
    assert!(app.rows.is_empty());
    assert_eq!(app.focus_idx, 0);
    assert_eq!(app.table_offset, 0);
    assert!(!app.selected_mode);
    assert_eq!(app.selected_pid, None);
    assert_eq!(app.details_scroll, 0);
}

#[test]
fn refresh_drops_vanished_selection() {
    let mut app = App::new(&snapshot(5));
    app.select_focused();
    assert_eq!(app.selected_pid, Some(5));
    app.refresh_rows(&snapshot(4));
    assert_eq!(app.selected_pid, None);
    assert!(!app.selected_mode);
    let mut app = App::new(&snapshot(5));
    app.focus_idx = 4;
    app.select_focused();
    assert_eq!(app.selected_pid, Some(1));
    app.refresh_rows(&snapshot(4));
    assert_eq!(app.selected_pid, Some(1));
    assert!(app.selected_mode);
}

#[test]
fn next_and_prev_keep_focus_visible() {
    let mut app = App::new(&snapshot(10));
    for _ in 0..5 {
        app.next(3);
    }
    assert_eq!(app.focus_idx, 5);
    assert_eq!(app.table_offset, 3);
    for _ in 0..20 {
        app.next(3);
    }
    assert_eq!(app.focus_idx, 9);
    assert_eq!(app.table_offset, 7);
    for _ in 0..4 {
        app.prev(3);
    }
    assert_eq!(app.focus_idx, 5);
    assert_eq!(app.table_offset, 5);
    app.prev(0);
    assert_eq!(app.focus_idx, 4);
    assert_eq!(app.table_offset, 4);
}

#[test]
fn next_on_empty_table_does_nothing() {
    let mut app = App::new(&Vec::new());
    app.next(5);
    app.prev(5);
    assert_eq!(app.focus_idx, 0);
    assert_eq!(app.table_offset, 0);
}

#[test]
fn scroll_table_clamps() {
    let mut app = App::new(&snapshot(10));
    app.scroll_table(1, 4);
    assert_eq!(app.table_offset, 1);
    app.scroll_table(100, 4);
    assert_eq!(app.table_offset, 6);
    app.scroll_table(-3, 4);
    assert_eq!(app.table_offset, 3);
    app.scroll_table(-100, 4);
    assert_eq!(app.table_offset, 0);
    app.scroll_table(5, 20);
    assert_eq!(app.table_offset, 0);
    let mut empty = App::new(&Vec::new());
    empty.table_offset = 3;
    empty.scroll_table(1, 4);
    assert_eq!(empty.table_offset, 0);
}

#[test]
fn select_selected_and_clear() {
    let mut app = App::new(&snapshot(4));
    assert!(app.selected().is_none());
    app.focus_idx = 1;
    app.details_scroll = 7;
    app.select_focused();
    assert!(app.selected_mode);
    assert_eq!(app.selected_pid, Some(3));
    assert_eq!(app.details_scroll, 0);
    assert_eq!(app.selected().map(|r| r.pid), Some(3));
    app.clear_selection();
    assert!(!app.selected_mode);
    assert!(app.selected().is_none());
}

#[test]
fn kill_target_prefers_selection() {
    let mut app = App::new(&snapshot(4));
    assert_eq!(app.target_pid_for_kill(), Some(4));
    app.focus_idx = 2;
    app.select_focused();
    app.focus_idx = 0;
    assert_eq!(app.target_pid_for_kill(), Some(2));
    app.clear_selection();
    app.focus_idx = 9;
    assert_eq!(app.target_pid_for_kill(), None);
}

#[test]
fn double_k_kills_and_single_k_moves_up() {
    let mut app = App::new(&snapshot(4));
    app.focus_idx = 2;
    assert_eq!(app.handle_k_press(10, 1_000_000_000), None);
    assert_eq!(app.focus_idx, 1);
    assert_eq!(app.last_k_press, Some(1_000_000_000));
    assert_eq!(app.handle_k_press(10, 1_450_000_000), Some(3));
    assert_eq!(app.last_k_press, None);
    assert_eq!(app.focus_idx, 1);
    // Too slow: the second press moves up again.
    assert_eq!(app.handle_k_press(10, 2_000_000_000), None);
    assert_eq!(app.handle_k_press(10, 2_450_000_001), None);
    assert_eq!(app.focus_idx, 0);
}

#[test]
fn double_click_selects_the_row() {
    let mut app = App::new(&snapshot(5));
    app.handle_table_click(3, 100);
    assert_eq!(app.focus_idx, 3);
    assert!(!app.selected_mode);
    app.handle_table_click(3, 100 + 350_000_000);
    assert!(app.selected_mode);
    assert_eq!(app.selected_pid, Some(2));
    assert_eq!(app.last_mouse_click, None);
    // Clicks on different rows never select.
    app.clear_selection();
    app.handle_table_click(1, 1_000);
    app.handle_table_click(2, 1_001);
    assert!(!app.selected_mode);
    assert_eq!(app.last_mouse_click, Some((2, 1_001)));
}

#[test]
fn details_scroll_saturates() {
    let mut app = App::new(&snapshot(1));
    app.scroll_details_up();
    assert_eq!(app.details_scroll, 0);
    app.scroll_details_down();
    app.scroll_details_down();
    assert_eq!(app.details_scroll, 2);
    app.scroll_details_up();
    assert_eq!(app.details_scroll, 1);
    app.details_scroll = u16::MAX;
    app.scroll_details_down();
    assert_eq!(app.details_scroll, u16::MAX);
}

#[test]
fn search_edits_refilter_the_table() {
    let mut app = App::new(&snapshot(12));
    app.insert_search_char('1', &snapshot(12));
    let pids: Vec<u32> = app.rows.iter().map(|r| r.pid).collect();
    assert_eq!(pids, vec![12, 11, 10, 1]);
    assert_eq!(app.search, "1");
    assert_eq!(app.search_cursor, 1);
    app.insert_search_char('2', &snapshot(12));
    let pids: Vec<u32> = app.rows.iter().map(|r| r.pid).collect();
    assert_eq!(pids, vec![12]);
    app.move_search_cursor_left();
    assert_eq!(app.search_cursor, 1);
    app.delete_search_char(&snapshot(12));
    assert_eq!(app.search, "1");
    assert_eq!(app.rows.len(), 4);
    app.backspace_search_char(&snapshot(12));
    assert_eq!(app.search, "");
    assert_eq!(app.search_cursor, 0);
    assert_eq!(app.rows.len(), 12);
    app.move_search_cursor_right();
    assert_eq!(app.search_cursor, 0);
}

#[test]
fn backspace_at_start_does_not_rebuild() {
    let mut app = App::new(&snapshot(3));
    app.search = "p".to_string();
    app.search_cursor = 0;
    app.backspace_search_char(&Vec::new());
    // No rebuild happened: the rows from before are still there.
    assert_eq!(app.rows.len(), 3);
    assert_eq!(app.search, "p");
}
