use anyproc::text::{
    char_len_utf8, chars_of, contains_chars, is_whitespace_char, push_decimal, split_whitespace,
    str_byte_len, string_from_chars,
};
use anyproc::rows::search_terms;

#[test]
fn utf8_width_matches_std_for_every_char() {
    for u in 0u32..=0x10FFFF {
        if let Some(c) = char::from_u32(u) {
            assert_eq!(char_len_utf8(c), c.len_utf8(), "char {:x}", u);
        }
    }
}

#[test]
fn whitespace_matches_std_for_every_char() {
    for u in 0u32..=0x10FFFF {
        if let Some(c) = char::from_u32(u) {
            assert_eq!(is_whitespace_char(c), c.is_whitespace(), "char {:x}", u);
        }
    }
}

#[test]
fn split_whitespace_matches_std() {
    let samples = [
        "",
        "   ",
        "fire fox",
        "  lead\ttrail \n",
        "a\u{3000}b\u{00A0}c",
        "één  twee",
        "x",
    ];
    for s in samples {
        let ours = split_whitespace(s);
        let std: Vec<String> = s.split_whitespace().map(|w| w.to_string()).collect();
        assert_eq!(ours, std, "sample {:?}", s);
    }
}

#[test]
fn contains_finds_runs() {
    let h = chars_of("systemd --user");
    assert!(contains_chars(&h, &chars_of("md --u")));
    assert!(contains_chars(&h, &chars_of("systemd --user")));
    assert!(contains_chars(&h, &chars_of("")));
    assert!(!contains_chars(&h, &chars_of("sysd")));
    assert!(!contains_chars(&chars_of("ab"), &chars_of("abc")));
}

#[test]
fn decimal_rendering() {
    for n in [0u64, 7, 10, 42, 1000, 65535, u64::MAX] {
        let mut s = String::from("n=");
        push_decimal(&mut s, n);
        assert_eq!(s, format!("n={}", n));
    }
}

#[test]
fn byte_length_and_chars() {
    assert_eq!(str_byte_len("aé😀"), 7);
    assert_eq!(chars_of("aé😀"), vec!['a', 'é', '😀']);
    assert_eq!(string_from_chars(&vec!['h', 'é']), "hé");
}

#[test]
fn search_terms_are_lowercased_words() {
    let terms = search_terms(&"  FireFOX ÉCOLE ".to_string());
    assert_eq!(terms, vec![chars_of("firefox"), chars_of("école")]);
    assert!(search_terms(&" \t ".to_string()).is_empty());
}
