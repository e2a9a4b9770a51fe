use virli::text::{chars_of, find_first, find_last, path_join, push_decimal, str_eq};

#[test]
fn path_join_follows_unix_push() {
    assert_eq!(path_join("/a", "b"), "/a/b");
    assert_eq!(path_join("/a/", "b"), "/a/b");
    assert_eq!(path_join("/a", "/b"), "/b");
    assert_eq!(path_join("", "b"), "b");
    assert_eq!(path_join("/a", ""), "/a/");
}

#[test]
fn string_search() {
    assert_eq!(find_first("a:b:c", ':'), Some(1));
    assert_eq!(find_last("a:b:c", ':'), Some(3));
    assert_eq!(find_first("abc", ':'), None);
    assert_eq!(find_last("", ':'), None);
    assert_eq!(find_first("é:", ':'), Some(1));
}

#[test]
fn string_equality_and_chars() {
    assert!(str_eq("-h", "-h"));
    assert!(!str_eq("-h", "-hh"));
    assert!(!str_eq("-h", "-v"));
    assert_eq!(chars_of("aé"), vec!['a', 'é']);
}

#[test]
fn decimal_rendering() {
    for n in [0u32, 7, 10, 99, 100, 4294967295] {
        let mut s = String::from("x");
        push_decimal(&mut s, n);
        assert_eq!(s, format!("x{}", n));
    }
}
