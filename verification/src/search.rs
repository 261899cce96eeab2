//! The search field: a string and a cursor that is a byte offset into its
//! UTF-8 encoding. Every edit works on whole characters and leaves the
//! cursor on a character boundary.

use vstd::prelude::*;

use crate::text::{
    byte_len, byte_offset, chars_of, lemma_byte_len_concat,
    lemma_byte_offset_full, lemma_byte_offset_mono, lemma_byte_offset_step,
    lemma_byte_offset_strict, char_len_utf8, str_byte_len, string_from_chars, utf8_len,
};

verus! {

/// `b` is the byte offset at which some character of `s` starts, or the end of `s`.
pub open spec fn is_boundary(s: Seq<char>, b: int) -> bool {
    exists|k: int| 0 <= k <= s.len() && #[trigger] byte_offset(s, k) == b
}

/// A cursor that the editing operations accept: past the end, or on a boundary.
pub open spec fn cursor_ok(s: Seq<char>, c: int) -> bool {
    c >= byte_len(s) || is_boundary(s, c)
}

/// The cursor moved back to the end of `s` when it lies beyond it.
pub open spec fn clamp_cursor(s: Seq<char>, c: int) -> int {
    if c > byte_len(s) {
        byte_len(s) as int
    } else {
        c
    }
}

/// The index of the character that starts at byte offset `b`.
pub open spec fn char_index(s: Seq<char>, b: int) -> int {
    choose|k: int| 0 <= k <= s.len() && #[trigger] byte_offset(s, k) == b
}

/// Cursor after moving one character to the left.
pub open spec fn cursor_left(s: Seq<char>, c: int) -> int {
    let b = clamp_cursor(s, c);
    if b == 0 {
        0
    } else {
        byte_offset(s, char_index(s, b) - 1) as int
    }
}

/// Cursor after moving one character to the right.
pub open spec fn cursor_right(s: Seq<char>, c: int) -> int {
    let b = clamp_cursor(s, c);
    if b >= byte_len(s) {
        b
    } else {
        byte_offset(s, char_index(s, b) + 1) as int
    }
}

/// Text and cursor after inserting `ch` at the cursor.
pub open spec fn insert_at(s: Seq<char>, c: int, ch: char) -> (Seq<char>, int) {
    let b = clamp_cursor(s, c);
    (s.insert(char_index(s, b), ch), b + utf8_len(ch))
}

/// Text and cursor after deleting the character before the cursor.
pub open spec fn backspace_at(s: Seq<char>, c: int) -> (Seq<char>, int) {
    let b = clamp_cursor(s, c);
    if b == 0 {
        (s, 0)
    } else {
        let k = char_index(s, b);
        (s.remove(k - 1), byte_offset(s, k - 1) as int)
    }
}

/// Text and cursor after deleting the character at the cursor.
pub open spec fn delete_at(s: Seq<char>, c: int) -> (Seq<char>, int) {
    let b = clamp_cursor(s, c);
    if b >= byte_len(s) {
        (s, b)
    } else {
        (s.remove(char_index(s, b)), b)
    }
}

/// The character index of a boundary is the unique index whose offset it is.
pub proof fn lemma_char_index(s: Seq<char>, k: int)
    requires
        0 <= k <= s.len(),
    ensures
        is_boundary(s, byte_offset(s, k) as int),
        char_index(s, byte_offset(s, k) as int) == k,
{
    let b = byte_offset(s, k) as int;
    assert(is_boundary(s, b));
    let j = char_index(s, b);
    if j < k {
        lemma_byte_offset_strict(s, j, k);
    } else if k < j {
        lemma_byte_offset_strict(s, k, j);
    }
}

/// A clamped acceptable cursor is a boundary, with its index in range.
pub proof fn lemma_clamped_boundary(s: Seq<char>, c: int)
    requires
        cursor_ok(s, c),
        c >= 0,
    ensures
        is_boundary(s, clamp_cursor(s, c)),
        0 <= char_index(s, clamp_cursor(s, c)) <= s.len(),
        byte_offset(s, char_index(s, clamp_cursor(s, c))) == clamp_cursor(s, c),
        clamp_cursor(s, c) == byte_len(s) ==> char_index(s, clamp_cursor(s, c)) == s.len(),
{
    lemma_byte_offset_full(s);
    if c >= byte_len(s) {
        lemma_char_index(s, s.len() as int);
    }
    let b = clamp_cursor(s, c);
    let k = char_index(s, b);
    if b == byte_len(s) {
        lemma_char_index(s, s.len() as int);
    }
}

/// Offsets into `s` below index `k` are unchanged by editing at `k`.
proof fn lemma_offset_prefix(s: Seq<char>, t: Seq<char>, k: int, j: int)
    requires
        0 <= j <= k <= s.len(),
        k <= t.len(),
        s.take(k) == t.take(k),
    ensures
        byte_offset(s, j) == byte_offset(t, j),
{
    assert(s.take(j) =~= s.take(k).take(j));
    assert(t.take(j) =~= t.take(k).take(j));
}

/// The index of the character that starts at boundary `b`.
fn find_char_index(chars: &Vec<char>, b: usize) -> (k: usize)
    requires
        is_boundary(chars@, b as int),
    ensures
        k <= chars@.len(),
        byte_offset(chars@, k as int) == b,
        k == char_index(chars@, b as int),
{
    let ghost s = chars@;
    let ghost target = char_index(s, b as int);
    proof {
        lemma_char_index(s, target);
    }
    let mut k: usize = 0;
    let mut acc: usize = 0;
    proof {
        assert(s.take(0) =~= Seq::<char>::empty());
    }
    while acc < b
        invariant
            s == chars@,
            0 <= target <= s.len(),
            byte_offset(s, target) == b,
            k <= target,
            acc == byte_offset(s, k as int),
        decreases target - k,
    {
        proof {
            if k >= target {
                lemma_byte_offset_mono(s, target, k as int);
            }
            lemma_byte_offset_step(s, k as int);
            lemma_byte_offset_mono(s, k + 1, target);
        }
        assert(k < chars.len());
        acc = acc + char_len_utf8(chars[k]);
        k = k + 1;
    }
    proof {
        if k < target {
            lemma_byte_offset_strict(s, k as int, target);
        }
        lemma_char_index(s, k as int);
    }
    k
}

/// The cursor of `s` after moving back to the end when beyond it.
pub fn clamp_search_cursor(s: &String, c: usize) -> (r: usize)
    ensures
        r == clamp_cursor(s@, c as int),
{
    let n = str_byte_len(s.as_str());
    if c > n {
        n
    } else {
        c
    }
}

/// Offsets at `k` and `k + 1` after inserting at `k`.
proof fn lemma_insert_offsets(s: Seq<char>, k: int, ch: char)
    requires
        0 <= k <= s.len(),
    ensures
        byte_offset(s.insert(k, ch), k) == byte_offset(s, k),
        byte_offset(s.insert(k, ch), k + 1) == byte_offset(s, k) + utf8_len(ch),
        byte_len(s.insert(k, ch)) == byte_len(s) + utf8_len(ch),
{
    let t = s.insert(k, ch);
    assert(t.take(k) =~= s.take(k));
    assert(t.take(k + 1) =~= s.take(k).push(ch));
    assert(t.take(k + 1).drop_last() =~= s.take(k));
    lemma_byte_len_concat(s.take(k).push(ch), s.skip(k));
    assert(t =~= s.take(k).push(ch) + s.skip(k));
    lemma_byte_len_concat(s.take(k), s.skip(k));
    assert(s =~= s.take(k) + s.skip(k));
}

/// Offsets up to `k` are unchanged by removing the character at `k`.
proof fn lemma_remove_offsets(s: Seq<char>, k: int)
    requires
        0 <= k < s.len(),
    ensures
        byte_offset(s.remove(k), k) == byte_offset(s, k),
        s.insert(k, s[k]).remove(k) == s,
{
    assert(s.remove(k).take(k) =~= s.take(k));
    assert(s.insert(k, s[k]).remove(k) =~= s);
}

/// Moves the cursor one character to the left, as the search field's Left key does.
pub fn cursor_left_of(s: &String, c: usize) -> (r: usize)
    requires
        cursor_ok(s@, c as int),
    ensures
        r == cursor_left(s@, c as int),
{
    let b = clamp_search_cursor(s, c);
    if b == 0 {
        return 0;
    }
    let chars = chars_of(s.as_str());
    proof {
        lemma_clamped_boundary(s@, c as int);
    }
    let k = find_char_index(&chars, b);
    proof {
        if k == 0 {
            assert(s@.take(0) =~= Seq::<char>::empty());
        }
        lemma_byte_offset_step(s@, k - 1);
    }
    b - char_len_utf8(chars[k - 1])
}

/// Moves the cursor one character to the right, as the search field's Right key does.
pub fn cursor_right_of(s: &String, c: usize) -> (r: usize)
    requires
        cursor_ok(s@, c as int),
    ensures
        r == cursor_right(s@, c as int),
{
    let n = str_byte_len(s.as_str());
    let b = clamp_search_cursor(s, c);
    if b >= n {
        return b;
    }
    let chars = chars_of(s.as_str());
    proof {
        lemma_clamped_boundary(s@, c as int);
    }
    let k = find_char_index(&chars, b);
    proof {
        lemma_byte_offset_full(s@);
        if k as int == s@.len() {
            assert(false);
        }
        lemma_byte_offset_step(s@, k as int);
        lemma_byte_offset_mono(s@, k + 1, s@.len() as int);
    }
    b + char_len_utf8(chars[k])
}

/// Inserts `ch` at the cursor; gives the new text and the cursor just past `ch`.
pub fn insert_char_at(s: &String, c: usize, ch: char) -> (r: (String, usize))
    requires
        cursor_ok(s@, c as int),
    ensures
        (r.0@, r.1 as int) == insert_at(s@, c as int, ch),
{
    let b = clamp_search_cursor(s, c);
    let mut chars = chars_of(s.as_str());
    proof {
        lemma_clamped_boundary(s@, c as int);
    }
    let k = find_char_index(&chars, b);
    chars.insert(k, ch);
    let t = string_from_chars(&chars);
    let n = str_byte_len(t.as_str());
    proof {
        lemma_insert_offsets(s@, k as int, ch);
        lemma_byte_offset_full(t@);
        lemma_byte_offset_mono(t@, k + 1, t@.len() as int);
    }
    (t, b + char_len_utf8(ch))
}

/// Deletes the character before the cursor; gives the new text and cursor.
pub fn backspace_char_at(s: &String, c: usize) -> (r: (String, usize))
    requires
        cursor_ok(s@, c as int),
    ensures
        (r.0@, r.1 as int) == backspace_at(s@, c as int),
{
    let b = clamp_search_cursor(s, c);
    if b == 0 {
        return (s.clone(), 0);
    }
    let mut chars = chars_of(s.as_str());
    proof {
        lemma_clamped_boundary(s@, c as int);
    }
    let k = find_char_index(&chars, b);
    proof {
        if k == 0 {
            assert(s@.take(0) =~= Seq::<char>::empty());
        }
        lemma_byte_offset_step(s@, k - 1);
    }
    let w = char_len_utf8(chars[k - 1]);
    chars.remove(k - 1);
    let t = string_from_chars(&chars);
    (t, b - w)
}

/// Deletes the character at the cursor; gives the new text and cursor.
pub fn delete_char_at(s: &String, c: usize) -> (r: (String, usize))
    requires
        cursor_ok(s@, c as int),
    ensures
        (r.0@, r.1 as int) == delete_at(s@, c as int),
{
    let n = str_byte_len(s.as_str());
    let b = clamp_search_cursor(s, c);
    if b >= n {
        return (s.clone(), b);
    }
    let mut chars = chars_of(s.as_str());
    proof {
        lemma_clamped_boundary(s@, c as int);
        lemma_byte_offset_full(s@);
    }
    let k = find_char_index(&chars, b);
    chars.remove(k);
    let t = string_from_chars(&chars);
    (t, b)
}

/// Every edit of the search field leaves the cursor on a character boundary
/// of the resulting text.
pub proof fn law_edits_keep_cursor_on_boundary(s: Seq<char>, c: int, ch: char)
    requires
        c >= 0,
        cursor_ok(s, c),
    ensures
        is_boundary(s, cursor_left(s, c)),
        is_boundary(s, cursor_right(s, c)),
        is_boundary(insert_at(s, c, ch).0, insert_at(s, c, ch).1),
        is_boundary(backspace_at(s, c).0, backspace_at(s, c).1),
        is_boundary(delete_at(s, c).0, delete_at(s, c).1),
{
    lemma_clamped_boundary(s, c);
    lemma_byte_offset_full(s);
    let b = clamp_cursor(s, c);
    let k = char_index(s, b);
    lemma_char_index(s, k);
    if b > 0 {
        if k == 0 {
            assert(s.take(0) =~= Seq::<char>::empty());
        }
        lemma_char_index(s, k - 1);
        lemma_remove_offsets(s, k - 1);
        lemma_char_index(s.remove(k - 1), k - 1);
    } else {
        lemma_char_index(s, 0);
    }
    if b < byte_len(s) {
        lemma_char_index(s, k + 1);
        lemma_remove_offsets(s, k);
        lemma_char_index(s.remove(k), k);
    }
    lemma_insert_offsets(s, k, ch);
    lemma_char_index(s.insert(k, ch), k + 1);
}

/// Backspace right after inserting a character removes it again and puts
/// the cursor back where it was (after clamping).
pub proof fn law_backspace_undoes_insert(s: Seq<char>, c: int, ch: char)
    requires
        c >= 0,
        cursor_ok(s, c),
    ensures
        backspace_at(insert_at(s, c, ch).0, insert_at(s, c, ch).1) == (s, clamp_cursor(s, c)),
{
    lemma_clamped_boundary(s, c);
    let b = clamp_cursor(s, c);
    let k = char_index(s, b);
    let t = s.insert(k, ch);
    lemma_insert_offsets(s, k, ch);
    lemma_byte_offset_full(t);
    lemma_byte_offset_mono(t, k + 1, t.len() as int);
    lemma_char_index(t, k + 1);
    assert(t.remove(k) =~= s);
    lemma_remove_offsets(t, k);
}

/// Moving left and then deleting removes a character just inserted.
pub proof fn law_delete_after_left_undoes_insert(s: Seq<char>, c: int, ch: char)
    requires
        c >= 0,
        cursor_ok(s, c),
    ensures
        delete_at(insert_at(s, c, ch).0, cursor_left(insert_at(s, c, ch).0, insert_at(s, c, ch).1))
            == (s, clamp_cursor(s, c)),
{
    lemma_clamped_boundary(s, c);
    let b = clamp_cursor(s, c);
    let k = char_index(s, b);
    let t = s.insert(k, ch);
    lemma_insert_offsets(s, k, ch);
    lemma_byte_offset_full(t);
    lemma_byte_offset_mono(t, k + 1, t.len() as int);
    lemma_char_index(t, k + 1);
    lemma_char_index(t, k);
    lemma_byte_offset_strict(t, k, t.len() as int);
    assert(t.remove(k) =~= s);
}

/// Moving right undoes moving left, unless the cursor was at the start.
pub proof fn law_right_undoes_left(s: Seq<char>, c: int)
    requires
        c >= 0,
        cursor_ok(s, c),
        clamp_cursor(s, c) > 0,
    ensures
        cursor_right(s, cursor_left(s, c)) == clamp_cursor(s, c),
{
    lemma_clamped_boundary(s, c);
    lemma_byte_offset_full(s);
    let b = clamp_cursor(s, c);
    let k = char_index(s, b);
    if k == 0 {
        assert(s.take(0) =~= Seq::<char>::empty());
    }
    lemma_char_index(s, k - 1);
    lemma_byte_offset_strict(s, k - 1, s.len() as int);
}

/// Moving left undoes moving right, unless the cursor was at the end.
pub proof fn law_left_undoes_right(s: Seq<char>, c: int)
    requires
        c >= 0,
        cursor_ok(s, c),
        clamp_cursor(s, c) < byte_len(s),
    ensures
        cursor_left(s, cursor_right(s, c)) == clamp_cursor(s, c),
{
    lemma_clamped_boundary(s, c);
    lemma_byte_offset_full(s);
    let b = clamp_cursor(s, c);
    let k = char_index(s, b);
    lemma_char_index(s, k + 1);
    lemma_byte_offset_mono(s, k + 1, s.len() as int);
    assert(byte_offset(s, 0) == 0) by {
        assert(s.take(0) =~= Seq::<char>::empty());
    }
    lemma_byte_offset_mono(s, 0, k);
}

/// A boundary lies within the text.
pub proof fn lemma_boundary_within(s: Seq<char>, b: int)
    requires
        is_boundary(s, b),
    ensures
        0 <= b <= byte_len(s),
{
    let k = choose|k: int| 0 <= k <= s.len() && #[trigger] byte_offset(s, k) == b;
    lemma_byte_offset_mono(s, k, s.len() as int);
    lemma_byte_offset_full(s);
}

/// Removing a character shortens the encoding by that character's width.
pub proof fn lemma_remove_len(s: Seq<char>, k: int)
    requires
        0 <= k < s.len(),
    ensures
        byte_len(s.remove(k)) + utf8_len(s[k]) == byte_len(s),
{
    lemma_insert_offsets(s.remove(k), k, s[k]);
    assert(s.remove(k).insert(k, s[k]) =~= s);
}

/// Each edit's cursor lies within its resulting text, and that text is at
/// most one character's width longer than before.
pub proof fn lemma_edits_within(s: Seq<char>, c: int, ch: char)
    requires
        c >= 0,
        cursor_ok(s, c),
    ensures
        0 <= cursor_left(s, c) <= byte_len(s),
        0 <= cursor_right(s, c) <= byte_len(s),
        0 <= insert_at(s, c, ch).1 <= byte_len(insert_at(s, c, ch).0) <= byte_len(s) + 4,
        0 <= backspace_at(s, c).1 <= byte_len(backspace_at(s, c).0) <= byte_len(s),
        0 <= delete_at(s, c).1 <= byte_len(delete_at(s, c).0) <= byte_len(s),
{
    law_edits_keep_cursor_on_boundary(s, c, ch);
    lemma_boundary_within(s, cursor_left(s, c));
    lemma_boundary_within(s, cursor_right(s, c));
    lemma_boundary_within(insert_at(s, c, ch).0, insert_at(s, c, ch).1);
    lemma_boundary_within(backspace_at(s, c).0, backspace_at(s, c).1);
    lemma_boundary_within(delete_at(s, c).0, delete_at(s, c).1);
    lemma_clamped_boundary(s, c);
    let b = clamp_cursor(s, c);
    let k = char_index(s, b);
    lemma_insert_offsets(s, k, ch);
    if b > 0 {
        if k == 0 {
            assert(s.take(0) =~= Seq::<char>::empty());
        }
        lemma_remove_len(s, k - 1);
    }
    if b < byte_len(s) {
        lemma_byte_offset_full(s);
        lemma_remove_len(s, k);
    }
}

/// The text before the cursor.
pub fn text_before_cursor(s: &String, c: usize) -> (r: String)
    requires
        cursor_ok(s@, c as int),
    ensures
        r@ == s@.take(char_index(s@, clamp_cursor(s@, c as int))),
        byte_len(r@) == clamp_cursor(s@, c as int),
{
    let b = clamp_search_cursor(s, c);
    let chars = chars_of(s.as_str());
    proof {
        lemma_clamped_boundary(s@, c as int);
    }
    let k = find_char_index(&chars, b);
    let mut prefix: Vec<char> = Vec::new();
    let mut i: usize = 0;
    while i < k
        invariant
            chars@ == s@,
            k <= chars@.len(),
            i <= k,
            prefix@ == s@.take(i as int),
        decreases k - i,
    {
        prefix.push(chars[i]);
        assert(s@.take(i + 1) =~= s@.take(i as int).push(s@[i as int]));
        i = i + 1;
    }
    string_from_chars(&prefix)
}

} // verus!
