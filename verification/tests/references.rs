use demido_studio::references::{is_script_ext, referenced_candidates, referenced_files};

#[test]
fn referenced_files_finds_only_existing_and_ignores_traversal() {
    let body = "See references/notes.md and missing/gone.md and ../../etc/passwd.txt";
    // Traversal is dropped before the disk is asked; which of the rest exist is the disk's to say.
    assert_eq!(referenced_candidates(body, &vec![]), vec!["references/notes.md", "missing/gone.md"]);
}

#[test]
fn command_files_are_never_inlined() {
    let refs = referenced_candidates("commands/go.md and notes.md", &vec!["commands/go.md".to_string()]);
    assert_eq!(refs, vec!["notes.md"]);
}

#[test]
fn referenced_files_skips_self_and_dedupes() {
    let refs = referenced_candidates("a.md then a.md again, plus SKILL.md", &vec![]);
    assert_eq!(refs, vec!["a.md"]);
}

#[test]
fn mentions_are_cut_back_to_the_last_extension() {
    let c = referenced_candidates("./docs/a.mdx, b.yaml.bak, c.yml; /etc/x.txt d.JSON e.csv", &vec![]);
    assert_eq!(c, vec!["docs/a.md", "b.yaml", "c.yml", "e.csv"]);
}

#[test]
fn nothing_that_does_not_exist_is_inlined() {
    assert!(referenced_files("a.md b.txt", &std::path::PathBuf::from("no-such-folder-here"), &vec![]).is_empty());
}

#[test]
fn scripts_are_told_by_extension() {
    assert!(is_script_ext("py"));
    assert!(is_script_ext("ps1"));
    assert!(!is_script_ext("md"));
    assert!(!is_script_ext("PY"));
}
