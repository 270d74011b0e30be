use rustssh::text::{chars_lt, chars_of, ends_with_slash, file_name, joined, str_eq};

#[test]
fn file_name_is_what_follows_the_last_slash() {
    assert_eq!(file_name("/var/log/syslog"), "syslog");
    assert_eq!(file_name("relative/notes.txt"), "notes.txt");
}

#[test]
fn file_name_of_a_path_without_slash_is_the_path() {
    assert_eq!(file_name("notes.txt"), "notes.txt");
}

#[test]
fn file_name_of_a_path_ending_in_slash_is_empty() {
    assert_eq!(file_name("/var/log/"), "");
    assert_eq!(file_name("/"), "");
}

#[test]
fn file_name_of_the_empty_path_is_empty() {
    assert_eq!(file_name(""), "");
}

#[test]
fn file_name_counts_characters_not_bytes() {
    assert_eq!(file_name("/données/été.txt"), "été.txt");
}

#[test]
fn ends_with_slash_looks_at_the_last_character() {
    assert!(ends_with_slash("/"));
    assert!(ends_with_slash("/home/"));
    assert!(!ends_with_slash("/home"));
    assert!(!ends_with_slash(""));
    assert!(!ends_with_slash("/a/b"));
}

#[test]
fn joined_appends() {
    assert_eq!(joined("abc", "def"), "abcdef");
    assert_eq!(joined("", "x"), "x");
    assert_eq!(joined("x", ""), "x");
}

#[test]
fn str_eq_compares_contents() {
    assert!(str_eq("abc", "abc"));
    assert!(str_eq("", ""));
    assert!(!str_eq("abc", "abd"));
    assert!(!str_eq("abc", "ab"));
}

#[test]
fn chars_of_gives_the_characters_in_order() {
    assert_eq!(chars_of("aé/"), vec!['a', 'é', '/']);
    assert_eq!(chars_of(""), Vec::<char>::new());
}

#[test]
fn chars_lt_is_lexicographic() {
    let a = chars_of("a");
    let b = chars_of("b");
    let ab = chars_of("ab");
    let empty = chars_of("");
    assert!(chars_lt(&a, &b));
    assert!(!chars_lt(&b, &a));
    assert!(chars_lt(&a, &ab));
    assert!(!chars_lt(&ab, &a));
    assert!(chars_lt(&ab, &b));
    assert!(chars_lt(&empty, &a));
    assert!(!chars_lt(&a, &empty));
}

#[test]
fn chars_lt_is_strict() {
    let a = chars_of("same");
    let b = chars_of("same");
    let empty = chars_of("");
    assert!(!chars_lt(&a, &b));
    assert!(!chars_lt(&empty, &empty));
}

#[test]
fn chars_lt_goes_by_code_point() {
    let upper = chars_of("Z");
    let lower = chars_of("a");
    assert!(chars_lt(&upper, &lower));
    assert!(!chars_lt(&lower, &upper));
}

#[test]
fn chars_lt_agrees_with_string_order() {
    let words = ["", "a", "A", "ab", "b", "é", "zz", "z", "a b", "a_dir", "b_dir"];
    for x in words {
        for y in words {
            assert_eq!(chars_lt(&chars_of(x), &chars_of(y)), x < y);
        }
    }
}
