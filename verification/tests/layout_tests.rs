use anyproc::layout::{in_rect, layout_chunks, row_from_mouse, visible_rows_in_table, Rect};

fn rect(x: u16, y: u16, width: u16, height: u16) -> Rect {
    Rect { x, y, width, height }
}

#[test]
fn chunks_without_details() {
    let chunks = layout_chunks(rect(0, 0, 80, 24), false);
    assert_eq!(chunks, vec![rect(0, 0, 80, 22), rect(0, 22, 80, 1), rect(0, 23, 80, 1)]);
}

#[test]
fn chunks_with_details() {
    let chunks = layout_chunks(rect(0, 0, 100, 40), true);
    assert_eq!(
        chunks,
        vec![
            rect(0, 0, 100, 27),
            rect(0, 27, 100, 1),
            rect(0, 28, 100, 10),
            rect(0, 38, 100, 1),
            rect(0, 39, 100, 1),
        ]
    );
}

#[test]
fn chunks_keep_the_area_columns() {
    let area = rect(3, 2, 50, 30);
    for show in [false, true] {
        for c in layout_chunks(area, show) {
            assert_eq!(c.x, 3);
            assert_eq!(c.width, 50);
        }
    }
}

#[test]
fn in_rect_bounds() {
    let r = rect(2, 3, 4, 5);
    assert!(in_rect(2, 3, r));
    assert!(in_rect(5, 7, r));
    assert!(!in_rect(6, 7, r));
    assert!(!in_rect(5, 8, r));
    assert!(!in_rect(1, 3, r));
    assert!(!in_rect(0, 0, rect(0, 0, 0, 0)));
}

#[test]
fn mouse_rows_skip_title_and_header() {
    let table = rect(0, 0, 80, 10);
    assert_eq!(row_from_mouse(5, 0, table, 100, 0), None);
    assert_eq!(row_from_mouse(5, 1, table, 100, 0), None);
    assert_eq!(row_from_mouse(5, 2, table, 100, 0), Some(0));
    assert_eq!(row_from_mouse(5, 9, table, 100, 7), Some(14));
    assert_eq!(row_from_mouse(5, 10, table, 100, 0), None);
    assert_eq!(row_from_mouse(80, 5, table, 100, 0), None);
    assert_eq!(row_from_mouse(5, 5, table, 3, 0), None);
    assert_eq!(row_from_mouse(5, 4, table, 3, 0), Some(2));
    assert_eq!(row_from_mouse(5, 4, table, 0, 0), None);
}

#[test]
fn visible_rows_leave_room_for_title_and_header() {
    assert_eq!(visible_rows_in_table(rect(0, 0, 10, 22)), 20);
    assert_eq!(visible_rows_in_table(rect(0, 0, 10, 2)), 0);
    assert_eq!(visible_rows_in_table(rect(0, 0, 10, 1)), 0);
}
