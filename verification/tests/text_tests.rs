use rustyforge::text::{
    chars_end_with, chars_of, chars_start_with, clone_strings, concat2, concat3, contains_text,
    same_chars, str_contains_char, str_eq, string_of_range,
};

fn chars(text: &str) -> Vec<char> {
    text.chars().collect()
}

#[test]
fn test_chars_and_back() {
    assert_eq!(chars_of("héllo/✓"), chars("héllo/✓"));
    assert_eq!(chars_of(""), Vec::<char>::new());
    assert_eq!(string_of_range(&chars("héllo"), 1, 4), "éll");
    assert_eq!(string_of_range(&chars("héllo"), 2, 2), "");
    assert_eq!(string_of_range(&chars("héllo"), 0, 5), "héllo");
}

#[test]
fn test_comparisons() {
    assert!(same_chars(&chars("abc"), &chars("abc")));
    assert!(!same_chars(&chars("abc"), &chars("abd")));
    assert!(!same_chars(&chars("abc"), &chars("ab")));
    assert!(same_chars(&Vec::new(), &Vec::new()));
    assert!(str_eq("-O2", "-O2"));
    assert!(!str_eq("-O2", "-O3"));
    assert!(!str_eq("", "a"));
}

#[test]
fn test_prefix_and_suffix() {
    assert!(chars_start_with(&chars("-Iinclude"), &chars("-I")));
    assert!(chars_start_with(&chars("-I"), &chars("-I")));
    assert!(chars_start_with(&chars("abc"), &Vec::new()));
    assert!(!chars_start_with(&chars("-"), &chars("-I")));
    assert!(!chars_start_with(&chars("x-I"), &chars("-I")));
    assert!(chars_end_with(&chars("a.h"), &chars(".h")));
    assert!(chars_end_with(&chars(".h"), &chars(".h")));
    assert!(!chars_end_with(&chars("h"), &chars(".h")));
    assert!(!chars_end_with(&chars("a.hh"), &chars(".h")));
}

#[test]
fn test_contains_and_joining() {
    assert!(str_contains_char("a b", ' '));
    assert!(!str_contains_char("ab", ' '));
    assert!(!str_contains_char("", ' '));
    assert_eq!(concat2("lib", "m"), "libm");
    assert_eq!(concat2("", ""), "");
    assert_eq!(concat3("lib", "m", ".so"), "libm.so");
    let list = vec!["a".to_string(), "b".to_string()];
    assert!(contains_text(&list, "b"));
    assert!(!contains_text(&list, "c"));
    assert!(!contains_text(&Vec::new(), ""));
}

#[test]
fn test_copies() {
    let list = vec!["a".to_string(), "".to_string(), "c".to_string()];
    assert_eq!(clone_strings(&list), list);
    assert_eq!(clone_strings(&Vec::new()), Vec::<String>::new());
}
