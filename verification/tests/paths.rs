use taskboard::paths::{is_illegal_in_name, position_after_last, resolve, sanitize};

#[test]
fn resolve_joins_root_and_path_with_one_separator() {
    assert_eq!(resolve("tasks", "a/b/c.md"), "tasks/a/b/c.md");
    assert_eq!(resolve("/var/data", "board"), "/var/data/board");
}

#[test]
fn resolve_interprets_nothing() {
    assert_eq!(resolve("tasks", ""), "tasks/");
    assert_eq!(resolve("", "a"), "/a");
    assert_eq!(resolve("tasks/", "/a"), "tasks///a");
    assert_eq!(resolve("tasks", "../up"), "tasks/../up");
}

#[test]
fn sanitize_replaces_an_illegal_character_of_the_name_by_a_space() {
    assert_eq!(sanitize("a/b/c?.md"), "a/b/c .md");
}

#[test]
fn sanitize_replaces_each_illegal_character() {
    assert_eq!(sanitize("<>:\"\\|?*"), "        ");
    assert_eq!(sanitize("lane/a<b>c:d\"e\\f|g?h*i.md"), "lane/a b c d e f g h i.md");
}

#[test]
fn sanitize_keeps_the_separators() {
    assert_eq!(sanitize("a/b/c.md"), "a/b/c.md");
    assert_eq!(sanitize("a/b/"), "a/b/");
    assert_eq!(sanitize("/"), "/");
}

#[test]
fn sanitize_leaves_the_directories_alone() {
    assert_eq!(sanitize("what?/who*/c.md"), "what?/who*/c.md");
    assert_eq!(sanitize("what?/who*/c:d.md"), "what?/who*/c d.md");
}

#[test]
fn sanitize_of_a_path_without_separator_cleans_all_of_it() {
    assert_eq!(sanitize("c?.md"), "c .md");
    assert_eq!(sanitize(""), "");
}

#[test]
fn sanitize_twice_is_sanitize_once() {
    let once = sanitize("a/b/c?*.md");
    let twice = sanitize(&once);
    assert_eq!(once, "a/b/c  .md");
    assert_eq!(twice, once);
}

#[test]
fn sanitize_keeps_characters_outside_ascii() {
    assert_eq!(sanitize("läne/kärtchen?.md"), "läne/kärtchen .md");
}

#[test]
fn the_illegal_characters_are_nine() {
    let illegal: Vec<char> = "<>:\"/\\|?*".chars().collect();
    for c in illegal {
        assert!(is_illegal_in_name(c));
    }
    assert!(!is_illegal_in_name(' '));
    assert!(!is_illegal_in_name('.'));
    assert!(!is_illegal_in_name('a'));
}

#[test]
fn position_after_last_finds_the_last_mark() {
    let chars: Vec<char> = "a/b/c".chars().collect();
    assert_eq!(position_after_last(&chars, '/'), 4);
    assert_eq!(position_after_last(&chars, '.'), 0);
    let ends: Vec<char> = "a/".chars().collect();
    assert_eq!(position_after_last(&ends, '/'), 2);
    let empty: Vec<char> = Vec::new();
    assert_eq!(position_after_last(&empty, '/'), 0);
}
