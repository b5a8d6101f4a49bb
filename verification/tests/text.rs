use git_remote_s3::text::{
    chars_of, cut, field_range, find_in, is_word, space, trim_range,
};

fn chars(s: &str) -> Vec<char> {
    s.chars().collect()
}

#[test]
fn chars_of_copies_every_character() {
    assert_eq!(chars_of(""), Vec::<char>::new());
    assert_eq!(chars_of("aé\u{1F600}b"), vec!['a', 'é', '\u{1F600}', 'b']);
}

#[test]
fn find_in_finds_the_first_in_range() {
    let v = chars("a:b:c");
    assert_eq!(find_in(&v, 0, 5, ':'), Some(1));
    assert_eq!(find_in(&v, 2, 5, ':'), Some(3));
    assert_eq!(find_in(&v, 4, 5, ':'), None);
    assert_eq!(find_in(&v, 0, 1, ':'), None);
    assert_eq!(find_in(&v, 1, 1, ':'), None);
    assert_eq!(find_in(&v, 0, 5, 'x'), None);
}

#[test]
fn field_range_counts_fields_from_zero() {
    let v = chars("ab cd  e");
    assert_eq!(field_range(&v, 0, 8, ' ', 0), Some((0, 2)));
    assert_eq!(field_range(&v, 0, 8, ' ', 1), Some((3, 5)));
    assert_eq!(field_range(&v, 0, 8, ' ', 2), Some((6, 6)));
    assert_eq!(field_range(&v, 0, 8, ' ', 3), Some((7, 8)));
    assert_eq!(field_range(&v, 0, 8, ' ', 4), None);
    assert_eq!(field_range(&v, 3, 5, ' ', 0), Some((3, 5)));
    assert_eq!(field_range(&v, 3, 5, ' ', 1), None);
    assert_eq!(field_range(&v, 8, 8, ' ', 0), Some((8, 8)));
    assert_eq!(field_range(&chars(""), 0, 0, ' ', 0), Some((0, 0)));
    assert_eq!(field_range(&chars(" "), 0, 1, ' ', 1), Some((1, 1)));
}

#[test]
fn trim_range_leaves_white_space_out() {
    let v = chars("  a b\t\n");
    assert_eq!(trim_range(&v, 0, 7), (2, 5));
    assert_eq!(trim_range(&v, 3, 4), (4, 4));
    assert_eq!(trim_range(&v, 2, 5), (2, 5));
    assert_eq!(trim_range(&chars(" \u{a0}\u{2003} "), 0, 4), (4, 4));
    assert_eq!(trim_range(&chars(""), 0, 0), (0, 0));
}

#[test]
fn space_is_what_char_takes_for_white_space() {
    for code in 0u32..0x3100 {
        if let Some(c) = char::from_u32(code) {
            assert_eq!(space(c), c.is_whitespace());
        }
    }
    assert!(!space('\u{feff}'));
    assert!(!space('\u{200b}'));
}

#[test]
fn is_word_compares_the_range() {
    let v = chars("push +a:b");
    assert!(is_word(&v, 0, 4, "push"));
    assert!(!is_word(&v, 0, 4, "pusx"));
    assert!(!is_word(&v, 0, 5, "push"));
    assert!(!is_word(&v, 0, 3, "push"));
    assert!(is_word(&v, 4, 4, ""));
    assert!(is_word(&v, 6, 9, "a:b"));
}

#[test]
fn cut_takes_characters_not_bytes() {
    assert_eq!(cut("héllo wörld", 1, 4), "éll");
    assert_eq!(cut("héllo wörld", 6, 11), "wörld");
    assert_eq!(cut("abc", 3, 3), "");
    assert_eq!(cut("abc", 0, 3), "abc");
}
