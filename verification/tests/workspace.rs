use demido_studio::workspace::{check_new_name, listing, size_check, strip_verbatim, walk_entries, FsEntry, MAX_BINARY_FILE, MAX_TEXT_FILE};

fn e(name: &str, dir: bool) -> FsEntry {
    FsEntry { name: name.to_string(), path: format!("/w/{name}"), is_dir: dir }
}

fn names(v: &[FsEntry]) -> Vec<&str> {
    v.iter().map(|e| e.name.as_str()).collect()
}

#[test]
fn listings_put_folders_first_then_names_without_case() {
    let out = listing(vec![e("b.txt", false), e(".git", true), e("Src", true), e("a.txt", false), e("docs", true), e("B.md", false)]);
    assert_eq!(names(&out), vec!["docs", "Src", "a.txt", "B.md", "b.txt"]);
}

#[test]
fn the_walk_skips_hidden_entries_and_the_root_and_stops_at_five_hundred() {
    let mut raw = vec![e("root", true), e(".cache", true), e("a", false)];
    for i in 0..600 {
        raw.push(e(&format!("f{i}"), false));
    }
    let out = walk_entries(raw);
    assert_eq!(out.len(), 500);
    assert_eq!(out[0].name, "a");
}

#[test]
fn renames_refuse_separators_and_empty_names() {
    assert!(check_new_name("notes.md").is_ok());
    assert_eq!(check_new_name("").unwrap_err(), "Invalid name");
    assert!(check_new_name("a/b").is_err());
    assert!(check_new_name("a\\b").is_err());
    assert!(check_new_name("a\0b").is_err());
}

#[test]
fn large_files_are_refused_with_their_size() {
    assert!(size_check(MAX_TEXT_FILE, MAX_TEXT_FILE).is_ok());
    assert_eq!(size_check(3_000_000, MAX_TEXT_FILE).unwrap_err(), "File too large (3000000 bytes); max 2 MB");
    assert_eq!(size_check(MAX_BINARY_FILE + 1, MAX_BINARY_FILE).unwrap_err(), "File too large (20971521 bytes); max 20 MB");
}

#[test]
fn the_verbatim_prefix_is_dropped() {
    assert_eq!(strip_verbatim("\\\\?\\C:\\work"), "C:\\work");
    assert_eq!(strip_verbatim("/home/me"), "/home/me");
}
