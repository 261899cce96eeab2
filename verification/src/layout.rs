//! Screen geometry: the vertical split of the terminal, hit tests and the
//! mapping from a mouse position to a table row.

use vstd::prelude::*;

verus! {

/// A rectangle of terminal cells.
#[derive(Clone, Copy, Debug, PartialEq, Eq, Structural)]
pub struct Rect {
    pub x: u16,
    pub y: u16,
    pub width: u16,
    pub height: u16,
}

/// A size rule for one piece of a split.
#[derive(Clone, Copy, Debug, PartialEq, Eq, Structural)]
pub enum Constraint {
    /// At least this many cells.
    Min(u16),
    /// Exactly this many cells, where the space allows.
    Length(u16),
}

/// The pieces into which ratatui's solver splits `area` from top to bottom
/// under `constraints`.
pub uninterp spec fn vertical_split(area: Rect, constraints: Seq<Constraint>) -> Seq<Rect>;

/// `ratatui::layout::Layout::split` on a vertical layout with no margin.
/// Claims what its source shows: one piece per constraint, each piece spans
/// the full width of `area`, and no piece reaches past the last row a `u16`
/// can address. The rows each piece gets are left to the name `vertical_split`.
#[verifier::external_body]
fn split_vertical(area: Rect, constraints: &Vec<Constraint>) -> (r: Vec<Rect>)
    ensures
        r@ == vertical_split(area, constraints@),
        r@.len() == constraints@.len(),
        forall|i: int|
            0 <= i < r@.len() ==> (#[trigger] r@[i]).x == area.x && r@[i].width == area.width
                && r@[i].y + r@[i].height <= u16::MAX,
{
    let cs = constraints.iter().map(|c| match *c {
        Constraint::Min(n) => ratatui::layout::Constraint::Min(n),
        Constraint::Length(n) => ratatui::layout::Constraint::Length(n),
    });
    let a = ratatui::layout::Rect { x: area.x, y: area.y, width: area.width, height: area.height };
    let pieces = ratatui::layout::Layout::vertical(cs).split(a);
    pieces.iter().map(|p| Rect { x: p.x, y: p.y, width: p.width, height: p.height }).collect()
}

/// The size rules of the screen: the table, a gap, then with details shown
/// the details pane and a gap, and the header line last.
pub open spec fn layout_constraints(show_details: bool) -> Seq<Constraint> {
    if show_details {
        seq![
            Constraint::Min(10),
            Constraint::Length(1),
            Constraint::Length(10),
            Constraint::Length(1),
            Constraint::Length(1),
        ]
    } else {
        seq![Constraint::Min(10), Constraint::Length(1), Constraint::Length(1)]
    }
}

/// A rectangle whose right and bottom edges fit in a `u16`.
pub open spec fn rect_fits(r: Rect) -> bool {
    r.x + r.width <= u16::MAX && r.y + r.height <= u16::MAX
}

/// Splits the screen into the table, the gaps, the details pane (when shown)
/// and the header line.
pub fn layout_chunks(area: Rect, show_details: bool) -> (chunks: Vec<Rect>)
    ensures
        chunks@ == vertical_split(area, layout_constraints(show_details)),
        chunks@.len() == (if show_details { 5int } else { 3int }),
        forall|i: int|
            0 <= i < chunks@.len() ==> (#[trigger] chunks@[i]).x == area.x && chunks@[i].width
                == area.width && chunks@[i].y + chunks@[i].height <= u16::MAX,
        rect_fits(area) ==> forall|i: int| 0 <= i < chunks@.len() ==> rect_fits(#[trigger] chunks@[i]),
{
    let mut cs: Vec<Constraint> = Vec::new();
    cs.push(Constraint::Min(10));
    cs.push(Constraint::Length(1));
    if show_details {
        cs.push(Constraint::Length(10));
        cs.push(Constraint::Length(1));
    }
    cs.push(Constraint::Length(1));
    assert(cs@ =~= layout_constraints(show_details));
    split_vertical(area, &cs)
}

/// Whether the cell `(x, y)` lies inside `rect`.
pub open spec fn point_in(x: int, y: int, rect: Rect) -> bool {
    rect.x <= x < rect.x + rect.width && rect.y <= y < rect.y + rect.height
}

/// The hit test's sums stay within `u16`: the right edge is computed only
/// once `x` is past the left edge, the bottom edge only once the cell is
/// within the columns and past the top edge.
pub open spec fn hit_test_fits(x: int, y: int, rect: Rect) -> bool {
    &&& x >= rect.x ==> rect.x + rect.width <= u16::MAX
    &&& (rect.x <= x < rect.x + rect.width && y >= rect.y) ==> rect.y + rect.height <= u16::MAX
}

/// Whether the hit test of `(x, y)` against `rect` stays within `u16`.
pub fn hit_test_fits_u16(x: u16, y: u16, rect: Rect) -> (b: bool)
    ensures
        b == hit_test_fits(x as int, y as int, rect),
{
    if x >= rect.x && rect.x > u16::MAX - rect.width {
        return false;
    }
    if x >= rect.x && x - rect.x < rect.width && y >= rect.y && rect.y > u16::MAX - rect.height {
        return false;
    }
    true
}

/// Whether the cell `(x, y)` lies inside `rect`.
pub fn in_rect(x: u16, y: u16, rect: Rect) -> (b: bool)
    requires
        hit_test_fits(x as int, y as int, rect),
    ensures
        b == point_in(x as int, y as int, rect),
{
    x >= rect.x && x < rect.x + rect.width && y >= rect.y && y < rect.y + rect.height
}

/// First screen row of table data: the table's title and header come first.
pub open spec fn data_start(area: Rect) -> int {
    if area.y + 2 <= u16::MAX {
        area.y + 2
    } else {
        u16::MAX as int
    }
}

/// The clicked cell falls on the data rows of a non-empty table.
pub open spec fn on_data_rows(x: int, y: int, area: Rect, row_count: int) -> bool {
    &&& point_in(x, y, area)
    &&& row_count != 0
    &&& data_start(area) <= y < area.y + area.height
}

/// The table row under the cell `(x, y)`, if any.
pub open spec fn mouse_row(x: int, y: int, area: Rect, row_count: int, offset: int) -> Option<
    usize,
> {
    if on_data_rows(x, y, area, row_count) && offset + (y - data_start(area)) < row_count {
        Some((offset + (y - data_start(area))) as usize)
    } else {
        None
    }
}

/// The table row under the mouse at `(x, y)`, if any.
pub fn row_from_mouse(x: u16, y: u16, table_area: Rect, row_count: usize, table_offset: usize) -> (r:
    Option<usize>)
    requires
        hit_test_fits(x as int, y as int, table_area),
        on_data_rows(x as int, y as int, table_area, row_count as int) ==> table_offset + (y
            - data_start(table_area)) <= usize::MAX,
    ensures
        r == mouse_row(x as int, y as int, table_area, row_count as int, table_offset as int),
{
    if !in_rect(x, y, table_area) || row_count == 0 {
        return None;
    }
    let rows_start_y = table_area.y.saturating_add(2);
    let rows_end_y = table_area.y + table_area.height;
    if y < rows_start_y || y >= rows_end_y {
        return None;
    }
    let idx = table_offset + (y - rows_start_y) as usize;
    if idx < row_count {
        Some(idx)
    } else {
        None
    }
}

/// How many data rows the table shows: its height less the title and header rows.
pub fn visible_rows_in_table(table_area: Rect) -> (n: usize)
    ensures
        n == (if table_area.height >= 2 { table_area.height - 2 } else { 0 }),
{
    table_area.height.saturating_sub(2) as usize
}

/// A row picked with the mouse is one of the table's rows, at or below the
/// first row shown.
pub proof fn law_mouse_row_in_table(x: int, y: int, area: Rect, row_count: int, offset: int)
    requires
        mouse_row(x, y, area, row_count, offset) is Some,
        0 <= offset,
        row_count <= usize::MAX,
    ensures
        offset <= mouse_row(x, y, area, row_count, offset)->0 < row_count,
        point_in(x, y, area),
{
}

} // verus!
