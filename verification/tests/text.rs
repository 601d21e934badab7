use syncth::text::{glue, decimal_text, file_name, join, pad_right, same_text};

#[test]
fn texts_are_compared_by_their_characters() {
    assert!(same_text("", ""));
    assert!(same_text("héllo", "héllo"));
    assert!(!same_text("héllo", "hello"));
    assert!(!same_text("a", "ab"));
    assert!(!same_text("ab", "a"));
    assert!(!same_text("abc", "abd"));
}

#[test]
fn concatenation_keeps_both_parts() {
    assert_eq!(glue("ab", "cd"), "abcd");
    assert_eq!(glue("", "x"), "x");
    assert_eq!(glue("x", ""), "x");
}

#[test]
fn file_names_are_last_components() {
    assert_eq!(file_name("/home/ann/Documents"), Some("Documents".to_string()));
    assert_eq!(file_name("/home/ann/Documents/"), Some("Documents".to_string()));
    assert_eq!(file_name("/home/ann/Documents//"), Some("Documents".to_string()));
    assert_eq!(file_name("/home/ann/Documents/."), Some("Documents".to_string()));
    assert_eq!(file_name("Documents"), Some("Documents".to_string()));
    assert_eq!(file_name("./Documents"), Some("Documents".to_string()));
    assert_eq!(file_name("/tmp/foo.txt"), Some("foo.txt".to_string()));
    assert_eq!(file_name("/tmp/.hidden"), Some(".hidden".to_string()));
    assert_eq!(file_name("/tmp/..."), Some("...".to_string()));
    assert_eq!(file_name("/tmp/é t"), Some("é t".to_string()));
}

#[test]
fn some_paths_have_no_file_name() {
    assert_eq!(file_name(""), None);
    assert_eq!(file_name("/"), None);
    assert_eq!(file_name("//"), None);
    assert_eq!(file_name("."), None);
    assert_eq!(file_name("./"), None);
    assert_eq!(file_name(".."), None);
    assert_eq!(file_name("/home/.."), None);
    assert_eq!(file_name("/home/../"), None);
    assert_eq!(file_name("/home/../."), None);
}

#[test]
fn file_names_agree_with_the_standard_library() {
    for path in [
        "", "/", "//", ".", "./", "..", "a", "a/", "a/.", "a/..", "a/b", "/a/b/", "/a/./b/./",
        "a//b", "../a", "./.", "a/./..", "...", "/.a", "a b/c d",
    ] {
        let expected = std::path::Path::new(path).file_name().map(|n| n.to_str().unwrap().to_string());
        assert_eq!(file_name(path), expected, "{:?}", path);
    }
}

#[test]
fn padding_fills_up_to_the_width() {
    assert_eq!(pad_right("ab", 5), "ab   ");
    assert_eq!(pad_right("", 3), "   ");
    assert_eq!(pad_right("abcde", 5), "abcde");
    assert_eq!(pad_right("abcdef", 5), "abcdef");
    assert_eq!(pad_right("x", 0), "x");
    assert_eq!(pad_right("éé", 4), "éé  ");
    assert_eq!(pad_right("ab", 5), format!("{:<5}", "ab"));
}

#[test]
fn joining_puts_the_separator_between() {
    let parts = vec!["a".to_string(), "b".to_string(), "c".to_string()];
    assert_eq!(join(&parts, ", "), "a, b, c");
    assert_eq!(join(&vec!["only".to_string()], ", "), "only");
    assert_eq!(join(&vec![], ", "), "");
    assert_eq!(join(&vec!["".to_string(), "".to_string()], "-"), "-");
}

#[test]
fn numbers_are_written_in_decimal() {
    assert_eq!(decimal_text(0), "0");
    assert_eq!(decimal_text(7), "7");
    assert_eq!(decimal_text(10), "10");
    assert_eq!(decimal_text(404), "404");
    assert_eq!(decimal_text(1000), "1000");
    assert_eq!(decimal_text(65535), "65535");
}
