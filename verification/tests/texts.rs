use repo_launch::text::{join_segments, split_on, starts_with_at, to_chars};

fn strings(items: &[&str]) -> Vec<String> {
    items.iter().map(|s| s.to_string()).collect()
}

#[test]
fn split_cuts_at_every_separator() {
    assert_eq!(split_on("a/b/c", '/'), strings(&["a", "b", "c"]));
    assert_eq!(split_on("abc", '/'), strings(&["abc"]));
    assert_eq!(split_on("", '/'), strings(&[""]));
    assert_eq!(split_on("/", '/'), strings(&["", ""]));
    assert_eq!(split_on("/a//b/", '/'), strings(&["", "a", "", "b", ""]));
    assert_eq!(split_on("--x 1  --y", ' '), strings(&["--x", "1", "", "--y"]));
}

#[test]
fn split_is_what_std_gives() {
    for text in ["", "/", "a", "a/b", "//a/b//c/", "é/ü/", "no separator"] {
        let expected: Vec<String> = text.split('/').map(|s| s.to_string()).collect();
        assert_eq!(split_on(text, '/'), expected, "{text:?}");
    }
}

#[test]
fn join_puts_one_slash_between_neighbours() {
    assert_eq!(join_segments(&strings(&[])), "");
    assert_eq!(join_segments(&strings(&["a"])), "a");
    assert_eq!(join_segments(&strings(&["gui", "theming_override"])), "gui/theming_override");
    assert_eq!(join_segments(&strings(&["", "a", ""])), "/a/");
}

#[test]
fn join_undoes_split_and_split_undoes_join() {
    for text in ["", "a", "a/b", "/a//b/", "x/y/z"] {
        assert_eq!(join_segments(&split_on(text, '/')), text);
    }
    for parts in [strings(&["a"]), strings(&["a", "b"]), strings(&["", ""]), strings(&["x", "", "y"])] {
        assert_eq!(split_on(&join_segments(&parts), '/'), parts);
    }
}

#[test]
fn characters_and_prefixes() {
    assert_eq!(to_chars("aé文"), vec!['a', 'é', '文']);
    let chars = to_chars("https://www.x");
    assert!(starts_with_at(&chars, 0, "https://"));
    assert!(starts_with_at(&chars, 8, "www."));
    assert!(starts_with_at(&chars, 13, ""));
    assert!(!starts_with_at(&chars, 0, "http://"));
    assert!(!starts_with_at(&chars, 9, "www."));
    assert!(!starts_with_at(&chars, 10, "ww.xy"));
}
