use demido_studio::cli::{
    conversion_notes, dispatch, handles, inline_bundled, is_valid_skill_id, mcp_add, mcp_list, mcp_remove,
    parse_add_opts, parse_frontmatter, parse_skill_add_args, skill_add_report, skill_folder_problem,
    skill_remove_id, skill_remove_outcome, split_frontmatter, synthesized_meta, Command,
};

#[test]
fn frontmatter_parses_name_and_description() {
    let md = "---\nname: skill-creator\ndescription: \"Create new skills\"\n---\n\n# Body\n";
    let fm = parse_frontmatter(md);
    assert_eq!(fm.get("name").unwrap(), "skill-creator");
    assert_eq!(fm.get("description").unwrap(), "Create new skills");
}

#[test]
fn frontmatter_absent_is_empty() {
    assert!(parse_frontmatter("# Just a heading\n").is_empty());
}

#[test]
fn split_frontmatter_returns_body_without_yaml() {
    let md = "---\nname: x\nallowed-tools: Read, Bash\n---\n\n# Body\n\ntext\n";
    let (fm, body) = split_frontmatter(md);
    assert_eq!(fm.get("name").unwrap(), "x");
    assert_eq!(body, "# Body\n\ntext\n");
    assert!(!body.contains("allowed-tools"));
}

#[test]
fn split_frontmatter_passes_through_when_absent() {
    let md = "# Body only\n";
    let (fm, body) = split_frontmatter(md);
    assert!(fm.is_empty());
    assert_eq!(body, md);
}

#[test]
fn http_is_an_alias_for_sse() {
    let o = parse_add_opts(&["--transport", "http", "docs", "https://x/mcp"]).unwrap();
    assert_eq!(o.transport, "sse");
    assert_eq!(o.positional, vec!["docs", "https://x/mcp"]);
}

#[test]
fn stdio_args_survive_leading_dashes() {
    let o = parse_add_opts(&["ctx7", "npx", "-y", "@upstash/context7-mcp"]).unwrap();
    assert_eq!(o.transport, "stdio");
    assert_eq!(o.positional, vec!["ctx7", "npx", "-y", "@upstash/context7-mcp"]);
}

#[test]
fn env_pairs_parse() {
    let o = parse_add_opts(&["--env", "TOKEN=abc", "s", "cmd"]).unwrap();
    assert_eq!(o.env.get("TOKEN").unwrap(), "abc");
}

#[test]
fn frontmatter_keys_are_lowered_and_quotes_dropped() {
    let fm = parse_frontmatter("---\nName: 'x'\nversion:\n---\nbody");
    assert_eq!(fm.get("name").unwrap(), "x");
    assert!(fm.get("version").is_none());
}

#[test]
fn skill_ids_that_could_escape_are_refused() {
    assert!(is_valid_skill_id("my-skill"));
    assert!(!is_valid_skill_id(""));
    assert!(!is_valid_skill_id("a/b"));
    assert!(!is_valid_skill_id("a\\b"));
    assert!(!is_valid_skill_id(".."));
}

#[test]
fn skill_add_takes_one_path_and_knows_its_options() {
    let a = parse_skill_add_args(&["--convert", "./skills/x"]).unwrap();
    assert!(a.convert);
    assert_eq!(a.path, "./skills/x");
    assert!(parse_skill_add_args(&["--frobnicate", "x"]).is_err());
    assert!(parse_skill_add_args(&["--convert"]).is_err());
}

#[test]
fn removing_a_skill_needs_an_id() {
    assert!(skill_remove_id(None).is_err());
    assert_eq!(skill_remove_id(Some("x")).unwrap(), "x");
}

#[test]
fn only_the_cli_words_are_taken() {
    assert!(handles("mcp"));
    assert!(handles("skill"));
    assert!(!handles("--help-me"));
    assert!(matches!(dispatch(&["help"]), Ok(Command::Help)));
}

#[test]
fn mcp_servers_are_added_listed_and_removed_by_name() {
    let (servers, out) = mcp_add(&["--env", "K=V", "ctx7", "npx", "-y", "pkg"], Vec::new()).unwrap();
    assert_eq!(out, "added MCP server 'ctx7' (stdio)\nrestart Demido Studio (or reopen it) to connect the server\n");
    assert_eq!(servers.len(), 1);
    assert_eq!(servers[0].id.len(), 36);
    assert_eq!(servers[0].command.as_deref(), Some("npx"));
    assert_eq!(servers[0].args.clone().unwrap(), vec!["-y", "pkg"]);
    assert_eq!(servers[0].env.as_ref().unwrap().get("K").as_deref(), Some("V"));
    let (servers, out) = mcp_add(&["--transport", "http", "--disabled", "docs", "https://x/mcp"], servers).unwrap();
    assert!(out.contains("warning: sse/http servers are stored but not yet connected by the app\n"));
    assert_eq!(servers[1].url.as_deref(), Some("https://x/mcp"));
    assert!(servers[1].command.is_none());
    assert_eq!(
        mcp_list(&servers),
        "  ctx7  [stdio] npx -y pkg  (enabled)\n  docs  [sse] https://x/mcp  (disabled)\n"
    );
    assert_eq!(mcp_add(&["docs", "https://y"], servers).unwrap_err(), "an MCP server named 'docs' already exists");
}

#[test]
fn mcp_add_and_remove_refuse_what_they_cannot_do() {
    let (servers, _) = mcp_add(&["docs", "cmd"], Vec::new()).unwrap();
    assert_eq!(mcp_add(&["docs", "other"], servers).unwrap_err(), "an MCP server named 'docs' already exists");
    assert_eq!(mcp_add(&["lonely"], Vec::new()).unwrap_err(), "a stdio server needs a command");
    assert_eq!(mcp_add(&["-t", "sse", "lonely"], Vec::new()).unwrap_err(), "an sse/http server needs a url");
    assert_eq!(
        mcp_add(&[], Vec::new()).unwrap_err(),
        "usage: demido-studio mcp add [opts] <name> <url|command [args...]>"
    );
    assert_eq!(mcp_list(&Vec::new()), "no MCP servers configured\n");
    let (servers, _) = mcp_add(&["a", "cmd"], Vec::new()).unwrap();
    let (servers, _) = mcp_add(&["b", "cmd"], servers).unwrap();
    let (kept, out) = mcp_remove(Some("a"), servers).unwrap();
    assert_eq!(out, "removed MCP server 'a'\n");
    assert_eq!(kept.len(), 1);
    assert_eq!(kept[0].name, "b");
    assert_eq!(mcp_remove(Some("zzz"), kept).unwrap_err(), "no MCP server named 'zzz'");
    assert_eq!(mcp_remove(None, Vec::new()).unwrap_err(), "usage: demido-studio mcp remove <name>");
}

#[test]
fn a_skill_folder_needs_its_skill_md_and_removal_needs_the_folder() {
    assert_eq!(skill_folder_problem("x", false, false).as_deref(), Some("x is not a folder"));
    assert_eq!(skill_folder_problem("x", true, false).as_deref(), Some("x has no SKILL.md — not a skill folder"));
    assert_eq!(skill_folder_problem("x", true, true), None);
    assert_eq!(skill_remove_outcome("s", true).unwrap(), "removed skill 's'\n");
    assert_eq!(skill_remove_outcome("s", false).unwrap_err(), "skill 's' is not installed");
}

#[test]
fn a_converted_skill_gets_its_files_inlined_and_a_report() {
    let files = vec![("notes.md".to_string(), "n  \n".to_string())];
    assert_eq!(inline_bundled("# Body\n", &files), "# Body\n\n\n---\n\n## Bundled file: notes.md\n\nn\n");
    let refs = vec!["notes.md".to_string(), "a.txt".to_string()];
    let notes = conversion_notes(&refs, 20 * 1024, true);
    assert_eq!(
        notes,
        vec![
            "inlined 2 referenced file(s): notes.md, a.txt".to_string(),
            "SKILL.md is ~20KB and is sent with every message — consider trimming it".to_string(),
            "bundled scripts were copied but Demido never runs them automatically".to_string(),
        ]
    );
    assert!(conversion_notes(&Vec::new(), 100, false).is_empty());
    assert_eq!(
        skill_add_report(true, "x", "/d/x", &vec!["n1".to_string()], false),
        "replaced skill 'x' -> /d/x\n  note: n1\n"
    );
    let fm = parse_frontmatter("---\nname: Nice\n---\nbody");
    let meta = synthesized_meta("x", &fm);
    assert_eq!(meta.name, "Nice");
    assert_eq!(meta.description, "");
    assert_eq!(meta.version, "0.0.0");
}
