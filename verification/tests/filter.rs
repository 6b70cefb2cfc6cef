use dirlist::entry::DirectoryEntry;
use dirlist::filter::{collect_entries, filter_entries, keeps, starts_with_dot};

fn plain(name: &str) -> DirectoryEntry {
    DirectoryEntry::new(name.to_string(), false)
}

fn folder(name: &str) -> DirectoryEntry {
    DirectoryEntry::new(name.to_string(), true)
}

fn sample() -> Vec<DirectoryEntry> {
    vec![
        plain(".hidden"),
        plain("b.txt"),
        folder(".config"),
        plain(".gitignore"),
        plain("A.txt"),
        folder("sub"),
    ]
}

fn kept_names(show_hidden: bool, directories_only: bool, git_ignore: bool) -> Vec<String> {
    filter_entries(sample(), show_hidden, directories_only, git_ignore)
        .iter()
        .map(|e| e.name().clone())
        .collect()
}

#[test]
fn hidden_entries_are_left_out() {
    assert_eq!(kept_names(false, false, false), ["b.txt", "A.txt", "sub"]);
}

#[test]
fn hidden_entries_are_shown_on_request() {
    assert_eq!(
        kept_names(true, false, false),
        [".hidden", "b.txt", ".config", ".gitignore", "A.txt", "sub"]
    );
}

#[test]
fn the_ignore_file_is_left_out_on_request() {
    assert_eq!(kept_names(true, false, true), [".hidden", "b.txt", ".config", "A.txt", "sub"]);
    assert_eq!(kept_names(false, false, true), ["b.txt", "A.txt", "sub"]);
}

#[test]
fn only_directories_on_request() {
    assert_eq!(kept_names(false, true, false), ["sub"]);
    assert_eq!(kept_names(true, true, false), [".config", "sub"]);
    assert_eq!(kept_names(true, true, true), [".config", "sub"]);
}

#[test]
fn a_directory_named_like_the_ignore_file_is_left_out_too() {
    let kept = filter_entries(vec![folder(".gitignore"), folder("src")], true, true, true);
    let names: Vec<&String> = kept.iter().map(|e| e.name()).collect();
    assert_eq!(names, ["src"]);
}

#[test]
fn only_the_exact_name_is_the_ignore_file() {
    assert!(keeps(&plain(".gitignore2"), true, false, true));
    assert!(keeps(&plain("x.gitignore"), true, false, true));
    assert!(keeps(&plain(".gitignor"), true, false, true));
    assert!(!keeps(&plain(".gitignore"), true, false, true));
    assert!(keeps(&plain(".gitignore"), true, false, false));
}

#[test]
fn the_three_tests_are_a_conjunction() {
    for show_hidden in [false, true] {
        for directories_only in [false, true] {
            for git_ignore in [false, true] {
                for entry in sample() {
                    let name = entry.name().clone();
                    let expected = (show_hidden || !name.starts_with('.'))
                        && (!directories_only || entry.is_directory())
                        && (!git_ignore || name != ".gitignore");
                    assert_eq!(keeps(&entry, show_hidden, directories_only, git_ignore), expected);
                }
            }
        }
    }
}

#[test]
fn a_leading_dot_marks_a_hidden_name() {
    assert!(starts_with_dot(".a"));
    assert!(starts_with_dot("."));
    assert!(!starts_with_dot(""));
    assert!(!starts_with_dot("a.b"));
    assert!(!starts_with_dot("é."));
}

#[test]
fn filtering_nothing_gives_nothing() {
    assert!(filter_entries(Vec::new(), true, false, false).is_empty());
}

#[test]
fn an_unreadable_directory_gives_no_entries() {
    assert!(collect_entries(None).is_empty());
    assert!(collect_entries(Some(Vec::new())).is_empty());
}

#[test]
fn a_child_that_vanished_is_skipped() {
    let scan = Some(vec![Some(plain("a")), None, Some(folder("b")), None, None, Some(plain("c"))]);
    let names: Vec<String> = collect_entries(scan).iter().map(|e| e.name().clone()).collect();
    assert_eq!(names, ["a", "b", "c"]);
    assert!(collect_entries(Some(vec![None, None])).is_empty());
}
