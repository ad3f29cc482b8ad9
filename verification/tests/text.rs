use oxide::text::{chars_of, find, find_segment_start, matches_at};

fn chars(text: &str) -> Vec<char> {
    text.chars().collect()
}

#[test]
fn characters_come_one_by_one() {
    assert_eq!(chars_of(""), Vec::<char>::new());
    assert_eq!(chars_of("a\u{e9}z"), vec!['a', '\u{e9}', 'z']);
}

#[test]
fn pattern_is_matched_where_it_stands() {
    let text = chars("abcabc");
    assert!(matches_at(&text, &chars("abc"), 0));
    assert!(matches_at(&text, &chars("abc"), 3));
    assert!(!matches_at(&text, &chars("abc"), 1));
    assert!(matches_at(&text, &chars(""), 6));
}

#[test]
fn pattern_is_not_matched_past_the_end() {
    let text = chars("abc");
    assert!(!matches_at(&text, &chars("bcd"), 1));
    assert!(!matches_at(&text, &chars("c"), 3));
    assert!(!matches_at(&text, &chars(""), 4));
    assert!(!matches_at(&text, &chars("a"), usize::MAX));
}

#[test]
fn first_match_is_found() {
    let text = chars("xxabxxab");
    assert_eq!(find(&text, &chars("ab"), 0), Some(2));
    assert_eq!(find(&text, &chars("ab"), 2), Some(2));
    assert_eq!(find(&text, &chars("ab"), 3), Some(6));
    assert_eq!(find(&text, &chars("ab"), 7), None);
    assert_eq!(find(&text, &chars("abc"), 0), None);
    assert_eq!(find(&text, &chars(""), 8), Some(8));
    assert_eq!(find(&text, &chars(""), 9), None);
    assert_eq!(find(&chars(""), &chars("a"), 0), None);
}

#[test]
fn find_agrees_with_the_standard_search() {
    let texts = ["", "a", "aaa", "abcabc", "filename=filename=", "xyz"];
    let patterns = ["a", "aa", "bc", "filename=", "z", "abcabcabc"];
    for text in texts {
        for pattern in patterns {
            for from in 0..=text.len() {
                let expected = text[from..].find(pattern).map(|at| at + from);
                assert_eq!(find(&chars(text), &chars(pattern), from), expected);
            }
        }
    }
}

#[test]
fn last_segment_begins_after_the_last_slash() {
    assert_eq!(find_segment_start(&chars("")), 0);
    assert_eq!(find_segment_start(&chars("abc")), 0);
    assert_eq!(find_segment_start(&chars("a/b")), 2);
    assert_eq!(find_segment_start(&chars("a/b/")), 4);
    assert_eq!(find_segment_start(&chars("/")), 1);
    assert_eq!(find_segment_start(&chars("https://host/path/file.zip")), 18);
}
