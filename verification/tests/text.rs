use embark_oss::order::{sort_texts, text_le};
use embark_oss::policy::{allowed_non_embark_maintainers, ignored_projects};
use embark_oss::text::{
    char_is_whitespace, chars_of, contains_substring, contains_text, copy_texts, decimal_string,
    push_distinct, split_whitespace, str_eq,
};

fn strings(items: &[&str]) -> Vec<String> {
    items.iter().map(|item| item.to_string()).collect()
}

#[test]
fn chars_of_gives_every_character() {
    assert_eq!(chars_of(""), Vec::<char>::new());
    assert_eq!(chars_of("a✔b"), vec!['a', '✔', 'b']);
}

#[test]
fn str_eq_compares_texts() {
    assert!(str_eq("", ""));
    assert!(str_eq("abc", "abc"));
    assert!(!str_eq("abc", "abd"));
    assert!(!str_eq("abc", "ab"));
}

#[test]
fn white_space_is_as_the_standard_library_has_it() {
    for code in 0..=0x10ffffu32 {
        if let Some(c) = char::from_u32(code) {
            assert_eq!(char_is_whitespace(c), c.is_whitespace(), "U+{:04X}", code);
        }
    }
}

#[test]
fn split_whitespace_gives_the_words() {
    assert_eq!(split_whitespace(""), Vec::<String>::new());
    assert_eq!(split_whitespace(" \t\r\n"), Vec::<String>::new());
    assert_eq!(split_whitespace("one"), strings(&["one"]));
    assert_eq!(
        split_whitespace("  one\ttwo \u{a0} three\u{3000}"),
        strings(&["one", "two", "three"])
    );
    let text = " a  bc\t\td e\u{2003}f ";
    assert_eq!(
        split_whitespace(text),
        text.split_whitespace().map(String::from).collect::<Vec<_>>()
    );
}

#[test]
fn surrounding_white_space_is_insignificant() {
    assert_eq!(
        split_whitespace("\t  * @a @b \r"),
        split_whitespace("* @a @b")
    );
}

#[test]
fn decimal_string_writes_numbers() {
    assert_eq!(decimal_string(0), "0");
    assert_eq!(decimal_string(7), "7");
    assert_eq!(decimal_string(10), "10");
    assert_eq!(decimal_string(404), "404");
    assert_eq!(decimal_string(1234567890), "1234567890");
    assert_eq!(decimal_string(usize::MAX), usize::MAX.to_string());
}

#[test]
fn contains_substring_finds_parts() {
    assert!(contains_substring("Readme!", ""));
    assert!(contains_substring("", ""));
    assert!(!contains_substring("", "a"));
    assert!(contains_substring("Readme!", "Read"));
    assert!(contains_substring("Readme!", "me!"));
    assert!(contains_substring("Readme!", "adm"));
    assert!(!contains_substring("Readme!", "readme"));
    assert!(!contains_substring("Readme!", "Readme!!"));
    assert!(contains_substring("aab", "ab"));
}

#[test]
fn lists_of_texts() {
    let list = strings(&["a", "b"]);
    assert!(contains_text(&list, "a"));
    assert!(contains_text(&list, "b"));
    assert!(!contains_text(&list, "c"));
    assert!(!contains_text(&list, ""));
    assert_eq!(copy_texts(&list), list);

    let mut names = Vec::new();
    push_distinct(&mut names, "x".to_string());
    push_distinct(&mut names, "y".to_string());
    push_distinct(&mut names, "x".to_string());
    assert_eq!(names, strings(&["x", "y"]));
}

#[test]
fn text_le_is_the_order_of_strings() {
    let samples = ["", "a", "A", "ab", "b", "aa", "é", "z", "a b", "✔"];
    for a in samples {
        for b in samples {
            assert_eq!(text_le(a, b), a <= b, "{:?} {:?}", a, b);
        }
    }
}

#[test]
fn sort_texts_sorts() {
    assert_eq!(sort_texts(&Vec::new()), Vec::<String>::new());
    assert_eq!(
        sort_texts(&strings(&["mallory", "bob", "alice", "bob", "Zed"])),
        strings(&["Zed", "alice", "bob", "bob", "mallory"])
    );
}

#[test]
fn policy_lists() {
    assert_eq!(allowed_non_embark_maintainers(), strings(&["emilk", "keith"]));
    assert_eq!(ignored_projects(), strings(&["server-framework"]));
}
