use anyproc::layout::Rect;
use anyproc::rows::ProcInfo;
use anyproc::state::App;
use anyproc::view::{cursor_at_widths, ProcDetails, RowStyle};

fn snapshot() -> Vec<ProcInfo> {
    vec![
        ProcInfo {
            pid: 42,
            name: "vim".to_string(),
            cmd: "vim notes.txt".to_string(),
            cpu_bits: 3.0f32.to_bits(),
            memory: 50 * 1024 * 1024,
        },
        ProcInfo {
            pid: 7,
            name: "init".to_string(),
            cmd: String::new(),
            cpu_bits: 1.0f32.to_bits(),
            memory: 1024 * 1024,
        },
    ]
}

fn details(cmd: &str, exe: Option<&str>) -> ProcDetails {
    ProcDetails {
        cpu_text: "3.0".to_string(),
        memory: 52 * 1024 * 1024 + 10,
        status: "Sleep".to_string(),
        exe: exe.map(|e| e.to_string()),
        cwd: None,
        cmd: cmd.to_string(),
    }
}

#[test]
fn details_without_selection() {
    let app = App::new(&snapshot());
    assert_eq!(app.details_text(Some(&details("x", None))), "No process selected");
}

#[test]
fn details_of_vanished_process() {
    let mut app = App::new(&snapshot());
    app.select_focused();
    assert_eq!(app.details_text(None), "No process selected");
}

#[test]
fn details_text_layout() {
    let mut app = App::new(&snapshot());
    app.select_focused();
    let text = app.details_text(Some(&details("vim notes.txt", Some("/usr/bin/vim"))));
    assert_eq!(
        text,
        "PID: 42\nName: vim\nCPU: 3.0%\nMemory: 52 MB\nStatus: Sleep\nExe: /usr/bin/vim\nCwd: -\nCmd: vim notes.txt"
    );
    let text = app.details_text(Some(&details("", None)));
    assert!(text.ends_with("\nExe: -\nCwd: -\nCmd: -"));
}

#[test]
fn header_lines() {
    let mut app = App::new(&snapshot());
    app.search = "vi".to_string();
    assert_eq!(
        app.header_text(),
        "f - filter:vi | u - update | c/m/p - sort | Enter - Detailed View | v - select text OFF | ctrl+q quit anyproc"
    );
    app.text_select_mode = true;
    assert!(app.header_text().contains("select text ON |"));
    app.input_mode = true;
    assert_eq!(app.header_text(), "Filter: vi  | Enter/Esc: finish | q: quit");
}

#[test]
fn row_styles() {
    let mut app = App::new(&snapshot());
    assert_eq!(app.row_style(0), RowStyle::Focused);
    assert_eq!(app.row_style(1), RowStyle::Plain);
    app.focus_idx = 1;
    app.select_focused();
    app.focus_idx = 0;
    assert_eq!(app.row_style(1), RowStyle::Selected);
    assert_eq!(app.row_style(0), RowStyle::Focused);
}

#[test]
fn search_cursor_on_header() {
    let mut app = App::new(&snapshot());
    app.search = "aé漢b".to_string();
    app.search_cursor = 6;
    let header = Rect { x: 2, y: 30, width: 80, height: 1 };
    // "Filter: " is 8 columns, "aé漢" is 1 + 1 + 2.
    assert_eq!(app.search_cursor_position(header), Some((14, 30)));
    app.search_cursor = 100;
    assert_eq!(app.search_cursor_position(header), Some((15, 30)));
    let far = Rect { x: u16::MAX - 3, y: 0, width: 1, height: 1 };
    assert_eq!(app.search_cursor_position(far), None);
}

#[test]
fn cursor_from_widths() {
    let header = Rect { x: 1, y: 5, width: 10, height: 1 };
    assert_eq!(cursor_at_widths(header, 8, 3), (12, 5));
}
