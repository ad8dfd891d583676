use fzf_make::model::file_util::{find_file_in_ancestors, find_file_in_dir};

fn names(v: &[&str]) -> Vec<String> {
    v.iter().map(|s| s.to_string()).collect()
}

fn justfile_names() -> Vec<String> {
    names(&["justfile", ".justfile"])
}

#[test]
fn find_file_in_ancestors_finds_file_in_ancestor() {
    // Layout:
    //   /tmp/root/justfile
    //   /tmp/root/child/grandchild   <- start searching from here
    let listings = vec![
        ("/tmp/root/child/grandchild".to_string(), Some(vec![])),
        ("/tmp/root/child".to_string(), Some(names(&["grandchild"]))),
        ("/tmp/root".to_string(), Some(names(&["child", "justfile"]))),
        ("/tmp".to_string(), Some(names(&["root"]))),
        ("/".to_string(), Some(names(&["tmp"]))),
    ];
    let result = find_file_in_ancestors(&listings, &justfile_names());
    assert_eq!(result, Some("/tmp/root/justfile".to_string()));
}

#[test]
fn find_file_in_ancestors_skips_unreadable_ancestor() {
    // Layout:
    //   /tmp/root/justfile
    //   /tmp/root/unreadable          <- cannot be read
    //   /tmp/root/unreadable/leaf     <- start searching from here
    let listings = vec![
        ("/tmp/root/unreadable/leaf".to_string(), Some(vec![])),
        ("/tmp/root/unreadable".to_string(), None),
        ("/tmp/root".to_string(), Some(names(&["unreadable", "justfile"]))),
        ("/tmp".to_string(), Some(names(&["root"]))),
        ("/".to_string(), None),
    ];
    let result = find_file_in_ancestors(&listings, &justfile_names());
    assert_eq!(result, Some("/tmp/root/justfile".to_string()));
}

#[test]
fn nearest_directory_wins_and_names_are_matched_in_lower_case() {
    let listings = vec![
        ("/a/b".to_string(), Some(names(&["README", ".JustFile"]))),
        ("/a".to_string(), Some(names(&["justfile"]))),
    ];
    assert_eq!(Some("/a/b/.JustFile".to_string()), find_file_in_ancestors(&listings, &justfile_names()));
    assert_eq!(None, find_file_in_ancestors(&listings[..0].to_vec(), &justfile_names()));
    let none_match = vec![("/a".to_string(), Some(names(&["Makefile"]))), ("/".to_string(), None)];
    assert_eq!(None, find_file_in_ancestors(&none_match, &justfile_names()));
    assert_eq!(Some(1), find_file_in_dir(&names(&["x", "JUSTFILE"]), &justfile_names()));
}
