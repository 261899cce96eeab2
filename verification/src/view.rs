//! What the screen shows, as text and choices: the header line, the
//! details pane, how a table row is highlighted and where the search
//! cursor is drawn.

use vstd::prelude::*;

use crate::layout::Rect;
use crate::rows::RowView;
use crate::search::{char_index, clamp_cursor, cursor_ok, text_before_cursor};
use crate::state::{App, AppView};
use crate::text::{decimal, push_decimal};

verus! {

/// What the system reports about the selected process when the details
/// pane is drawn.
pub struct ProcDetails {
    /// CPU usage, rendered with one decimal.
    pub cpu_text: String,
    /// Resident memory in bytes.
    pub memory: u64,
    /// Process status as the system names it.
    pub status: String,
    pub exe: Option<String>,
    pub cwd: Option<String>,
    /// Command-line arguments joined by single spaces.
    pub cmd: String,
}

/// The details as plain values.
pub struct ProcDetailsView {
    pub cpu_text: Seq<char>,
    pub memory: u64,
    pub status: Seq<char>,
    pub exe: Option<Seq<char>>,
    pub cwd: Option<Seq<char>>,
    pub cmd: Seq<char>,
}

impl View for ProcDetails {
    type V = ProcDetailsView;

    open spec fn view(&self) -> ProcDetailsView {
        ProcDetailsView {
            cpu_text: self.cpu_text@,
            memory: self.memory,
            status: self.status@,
            exe: match self.exe {
                Some(e) => Some(e@),
                None => None,
            },
            cwd: match self.cwd {
                Some(c) => Some(c@),
                None => None,
            },
            cmd: self.cmd@,
        }
    }
}

/// A path, or a dash when there is none.
pub open spec fn or_dash(p: Option<Seq<char>>) -> Seq<char> {
    match p {
        Some(s) => s,
        None => "-"@,
    }
}

/// The details pane's text for a row and what the system reports of it.
pub open spec fn details_for(row: RowView, d: ProcDetailsView) -> Seq<char> {
    "PID: "@ + decimal(row.pid as nat) + "\nName: "@ + row.name + "\nCPU: "@ + d.cpu_text
        + "%\nMemory: "@ + decimal((d.memory / 1024 / 1024) as nat) + " MB\nStatus: "@ + d.status
        + "\nExe: "@ + or_dash(d.exe) + "\nCwd: "@ + or_dash(d.cwd) + "\nCmd: "@ + (if d.cmd.len()
        == 0 {
        "-"@
    } else {
        d.cmd
    })
}

/// The details pane's text.
pub open spec fn details_text_of(v: AppView, d: Option<ProcDetailsView>) -> Seq<char> {
    match (v.selected_row(), d) {
        (Some(row), Some(d)) => details_for(row, d),
        _ => "No process selected"@,
    }
}

/// The header line.
pub open spec fn header_text_of(v: AppView) -> Seq<char> {
    if v.input_mode {
        "Filter: "@ + v.search + "  | Enter/Esc: finish | q: quit"@
    } else {
        "f - filter:"@ + v.search + " | u - update | c/m/p - sort | Enter - Detailed View | v - select text "@
            + (if v.text_select_mode { "ON"@ } else { "OFF"@ }) + " | ctrl+q quit anyproc"@
    }
}

/// How a table row is drawn.
#[derive(Clone, Copy, Debug, PartialEq, Eq, Structural)]
pub enum RowStyle {
    /// The selected process.
    Selected,
    /// The row under the focus.
    Focused,
    Plain,
}

/// How row `i` is drawn: the selection wins over the focus.
pub open spec fn row_style_of(v: AppView, i: int) -> RowStyle {
    if v.selected_mode && v.selected_pid == Some(v.rows[i].pid) {
        RowStyle::Selected
    } else if i == v.focus_idx {
        RowStyle::Focused
    } else {
        RowStyle::Plain
    }
}

/// `s` with `t` appended.
fn append_str(s: &mut String, t: &str)
    ensures
        final(s)@ == old(s)@ + t@,
{
    s.append(t);
}

impl App {
    /// The details pane's text for the selected process; `details` is what the
    /// system reports of it, `None` when it reports nothing.
    pub fn details_text(&self, details: Option<&ProcDetails>) -> (text: String)
        ensures
            text@ == details_text_of(
                self@,
                match details {
                    Some(d) => Some(d@),
                    None => None,
                },
            ),
    {
        let row = match self.selected() {
            Some(r) => r,
            None => return String::from_str("No process selected"),
        };
        let d = match details {
            Some(d) => d,
            None => return String::from_str("No process selected"),
        };
        let mut s = String::from_str("PID: ");
        push_decimal(&mut s, row.pid as u64);
        append_str(&mut s, "\nName: ");
        append_str(&mut s, row.name.as_str());
        append_str(&mut s, "\nCPU: ");
        append_str(&mut s, d.cpu_text.as_str());
        append_str(&mut s, "%\nMemory: ");
        push_decimal(&mut s, d.memory / 1024 / 1024);
        append_str(&mut s, " MB\nStatus: ");
        append_str(&mut s, d.status.as_str());
        append_str(&mut s, "\nExe: ");
        match &d.exe {
            Some(e) => append_str(&mut s, e.as_str()),
            None => append_str(&mut s, "-"),
        }
        append_str(&mut s, "\nCwd: ");
        match &d.cwd {
            Some(c) => append_str(&mut s, c.as_str()),
            None => append_str(&mut s, "-"),
        }
        append_str(&mut s, "\nCmd: ");
        if d.cmd.as_str().is_empty() {
            append_str(&mut s, "-");
        } else {
            append_str(&mut s, d.cmd.as_str());
        }
        s
    }

    /// The header line: the filter being typed, or the key help.
    pub fn header_text(&self) -> (text: String)
        ensures
            text@ == header_text_of(self@),
    {
        if self.input_mode {
            let mut s = String::from_str("Filter: ");
            append_str(&mut s, self.search.as_str());
            append_str(&mut s, "  | Enter/Esc: finish | q: quit");
            s
        } else {
            let mut s = String::from_str("f - filter:");
            append_str(&mut s, self.search.as_str());
            append_str(
                &mut s,
                " | u - update | c/m/p - sort | Enter - Detailed View | v - select text ",
            );
            if self.text_select_mode {
                append_str(&mut s, "ON");
            } else {
                append_str(&mut s, "OFF");
            }
            append_str(&mut s, " | ctrl+q quit anyproc");
            s
        }
    }

    /// How table row `i` is drawn.
    pub fn row_style(&self, i: usize) -> (style: RowStyle)
        requires
            i < self.rows.len(),
        ensures
            style == row_style_of(self@, i as int),
    {
        if self.selected_mode && self.selected_pid == Some(self.rows[i].pid) {
            RowStyle::Selected
        } else if i == self.focus_idx {
            RowStyle::Focused
        } else {
            RowStyle::Plain
        }
    }
}

/// Display width in terminal columns of a string, as unicode-width measures it.
pub uninterp spec fn display_width(s: Seq<char>) -> usize;

/// `UnicodeWidthStr::width` of the unicode-width crate. Its result is left to
/// the name `display_width`; nothing more is claimed of it.
#[verifier::external_body]
fn str_width(s: &str) -> (w: usize)
    ensures
        w == display_width(s@),
{
    unicode_width::UnicodeWidthStr::width(s)
}

/// The cursor column stays addressable: the widths add up within `usize`,
/// and the column within `u16`.
pub open spec fn cursor_fits(header: Rect, label_width: usize, left_width: usize) -> bool {
    &&& label_width + left_width <= usize::MAX
    &&& header.x + ((label_width + left_width) as u16) <= u16::MAX
}

/// Where the search cursor is drawn on the header line, given the width of
/// the label and of the text before the cursor.
pub fn cursor_at_widths(header: Rect, label_width: usize, left_width: usize) -> (pos: (u16, u16))
    requires
        cursor_fits(header, label_width, left_width),
    ensures
        pos == ((header.x + ((label_width + left_width) as u16)) as u16, header.y),
{
    let w = label_width + left_width;
    (header.x + w as u16, header.y)
}

/// The text before the search cursor.
pub open spec fn text_before(v: AppView) -> Seq<char> {
    v.search.take(char_index(v.search, clamp_cursor(v.search, v.search_cursor as int)))
}

impl App {
    /// Where the search cursor is drawn on the header line while the filter
    /// is typed; `None` when that column would not fit a terminal coordinate.
    pub fn search_cursor_position(&self, header: Rect) -> (pos: Option<(u16, u16)>)
        requires
            cursor_ok(self@.search, self.search_cursor as int),
        ensures
            ({
                let lw = display_width("Filter: "@);
                let w = display_width(text_before(self@));
                pos == if cursor_fits(header, lw, w) {
                    Some(((header.x + ((lw + w) as u16)) as u16, header.y))
                } else {
                    None
                }
            }),
    {
        let left = text_before_cursor(&self.search, self.search_cursor);
        let lw = str_width("Filter: ");
        let w = str_width(left.as_str());
        if w > usize::MAX - lw {
            return None;
        }
        let total = (lw + w) as u16;
        if header.x > u16::MAX - total {
            return None;
        }
        Some(cursor_at_widths(header, lw, w))
    }
}

/// The details pane shows the reported working directory: with a row
/// selected, the text holds the `Cwd` line with that directory, or with a
/// dash when none is reported, right before the `Cmd` line.
pub proof fn law_details_show_cwd(v: AppView, d: ProcDetailsView)
    requires
        v.selected_row() is Some,
    ensures
        match d.cwd {
            Some(c) => crate::text::has_substring(
                details_text_of(v, Some(d)),
                "\nCwd: "@ + c + "\nCmd: "@,
            ),
            None => crate::text::has_substring(details_text_of(v, Some(d)), "\nCwd: "@ + "-"@ + "\nCmd: "@),
        },
{
    let row = v.selected_row()->0;
    let text = details_for(row, d);
    let a = "PID: "@ + decimal(row.pid as nat) + "\nName: "@ + row.name + "\nCPU: "@ + d.cpu_text
        + "%\nMemory: "@ + decimal((d.memory / 1024 / 1024) as nat) + " MB\nStatus: "@ + d.status
        + "\nExe: "@ + or_dash(d.exe);
    let x = "\nCwd: "@ + or_dash(d.cwd) + "\nCmd: "@;
    let tail = if d.cmd.len() == 0 {
        "-"@
    } else {
        d.cmd
    };
    assert(text =~= a + x + tail);
    assert(text.subrange(a.len() as int, (a.len() + x.len()) as int) =~= x);
}

/// The selection wins over the focus: a row holding the selected process is
/// drawn as selected in selection mode, wherever the focus is; a focused
/// row is drawn as focused only when it is not the selected one.
pub proof fn law_selection_wins_over_focus(v: AppView, i: int)
    requires
        0 <= i < v.rows.len(),
    ensures
        v.selected_mode && v.selected_pid == Some(v.rows[i].pid) ==> row_style_of(v, i)
            == RowStyle::Selected,
        !(v.selected_mode && v.selected_pid == Some(v.rows[i].pid)) && i == v.focus_idx
            ==> row_style_of(v, i) == RowStyle::Focused,
        !(v.selected_mode && v.selected_pid == Some(v.rows[i].pid)) && i != v.focus_idx
            ==> row_style_of(v, i) == RowStyle::Plain,
{
}

/// The details pane names the process and what the system reports of it:
/// with a row selected, the text starts with its process id and holds its
/// name, the memory in whole mebibytes, the executable (or a dash) and ends
/// with the command line (or a dash when it is empty). With no row
/// selected, or no report, it says that no process is selected.
pub proof fn law_details_lines(v: AppView, d: Option<ProcDetailsView>)
    ensures
        (v.selected_row() is None || d is None) ==> details_text_of(v, d) == "No process selected"@,
        v.selected_row() is Some && d is Some ==> {
            let row = v.selected_row()->0;
            let dv = d->0;
            let text = details_text_of(v, d);
            let cmd = if dv.cmd.len() == 0 { "-"@ } else { dv.cmd };
            &&& text.take(("PID: "@ + decimal(row.pid as nat) + "\nName: "@).len() as int) == "PID: "@
                + decimal(row.pid as nat) + "\nName: "@
            &&& crate::text::has_substring(text, "\nName: "@ + row.name + "\nCPU: "@)
            &&& crate::text::has_substring(
                text,
                "%\nMemory: "@ + decimal((dv.memory / 1024 / 1024) as nat) + " MB\nStatus: "@,
            )
            &&& crate::text::has_substring(text, "\nExe: "@ + or_dash(dv.exe) + "\nCwd: "@)
            &&& text.skip(text.len() - ("\nCmd: "@ + cmd).len()) == "\nCmd: "@ + cmd
        },
{
    if v.selected_row() is Some && d is Some {
        let row = v.selected_row()->0;
        let dv = d->0;
        let text = details_for(row, dv);
        let cmd = if dv.cmd.len() == 0 { "-"@ } else { dv.cmd };
        let p1 = "PID: "@ + decimal(row.pid as nat);
        let x1 = "\nName: "@ + row.name + "\nCPU: "@;
        let p2 = p1 + x1 + dv.cpu_text;
        let x2 = "%\nMemory: "@ + decimal((dv.memory / 1024 / 1024) as nat) + " MB\nStatus: "@;
        let p3 = p2 + x2 + dv.status;
        let x3 = "\nExe: "@ + or_dash(dv.exe) + "\nCwd: "@;
        let p4 = p3 + x3 + or_dash(dv.cwd);
        let x4 = "\nCmd: "@ + cmd;
        assert(text =~= p1 + x1 + dv.cpu_text + x2 + dv.status + x3 + or_dash(dv.cwd) + x4);
        assert(text.take((p1 + "\nName: "@).len() as int) =~= p1 + "\nName: "@);
        assert(text.subrange(p1.len() as int, (p1.len() + x1.len()) as int) =~= x1);
        assert(text.subrange(p2.len() as int, (p2.len() + x2.len()) as int) =~= x2);
        assert(text.subrange(p3.len() as int, (p3.len() + x3.len()) as int) =~= x3);
        assert(text.skip(text.len() - x4.len()) =~= x4);
    }
}

} // verus!
