use anyproc::search::{
    backspace_char_at, cursor_left_of, cursor_right_of, delete_char_at, insert_char_at,
    text_before_cursor,
};

fn s(t: &str) -> String {
    t.to_string()
}

#[test]
fn cursor_moves_by_whole_characters() {
    let t = s("aé😀b");
    // byte offsets of boundaries: 0, 1, 3, 7, 8
    assert_eq!(cursor_right_of(&t, 0), 1);
    assert_eq!(cursor_right_of(&t, 1), 3);
    assert_eq!(cursor_right_of(&t, 3), 7);
    assert_eq!(cursor_right_of(&t, 7), 8);
    assert_eq!(cursor_right_of(&t, 8), 8);
    assert_eq!(cursor_left_of(&t, 8), 7);
    assert_eq!(cursor_left_of(&t, 7), 3);
    assert_eq!(cursor_left_of(&t, 3), 1);
    assert_eq!(cursor_left_of(&t, 1), 0);
    assert_eq!(cursor_left_of(&t, 0), 0);
}

#[test]
fn cursor_beyond_the_end_is_clamped() {
    let t = s("ab");
    assert_eq!(cursor_left_of(&t, 50), 1);
    assert_eq!(cursor_right_of(&t, 50), 2);
    assert_eq!(insert_char_at(&t, 50, 'c'), (s("abc"), 3));
    assert_eq!(backspace_char_at(&t, 50), (s("a"), 1));
    assert_eq!(delete_char_at(&t, 50), (s("ab"), 2));
}

#[test]
fn insert_places_char_at_cursor() {
    let t = s("aé");
    assert_eq!(insert_char_at(&t, 1, '😀'), (s("a😀é"), 5));
    assert_eq!(insert_char_at(&t, 0, 'x'), (s("xaé"), 1));
    assert_eq!(insert_char_at(&t, 3, 'ß'), (s("aéß"), 5));
}

#[test]
fn backspace_and_delete() {
    let t = s("aé😀");
    assert_eq!(backspace_char_at(&t, 3), (s("a😀"), 1));
    assert_eq!(backspace_char_at(&t, 0), (s("aé😀"), 0));
    assert_eq!(delete_char_at(&t, 1), (s("a😀"), 1));
    assert_eq!(delete_char_at(&t, 7), (s("aé😀"), 7));
}

#[test]
fn law_backspace_undoes_insert_on_values() {
    let t = s("héllo");
    for c in [0usize, 1, 3, 6] {
        let (u, cur) = insert_char_at(&t, c, '€');
        assert_eq!(backspace_char_at(&u, cur), (t.clone(), c));
    }
}

#[test]
fn law_left_right_round_trip_on_values() {
    let t = s("x€y");
    for c in [1usize, 4, 5] {
        assert_eq!(cursor_right_of(&t, cursor_left_of(&t, c)), c);
    }
    for c in [0usize, 1, 4] {
        assert_eq!(cursor_left_of(&t, cursor_right_of(&t, c)), c);
    }
}

#[test]
fn law_delete_after_left_undoes_insert_on_values() {
    let t = s("ab");
    let (u, cur) = insert_char_at(&t, 1, 'é');
    let left = cursor_left_of(&u, cur);
    assert_eq!(delete_char_at(&u, left), (t, 1));
}

#[test]
fn text_before_cursor_takes_prefix() {
    let t = s("aé😀");
    assert_eq!(text_before_cursor(&t, 3), "aé");
    assert_eq!(text_before_cursor(&t, 99), "aé😀");
    assert_eq!(text_before_cursor(&t, 0), "");
}
