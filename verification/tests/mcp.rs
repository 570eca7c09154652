use demido_studio::cli::{mcp_add, McpServer};
use demido_studio::mcp::{candidate_names, spawned_servers};

fn server(name: &str, transport: &str, command: Option<&str>, args: Option<Vec<&str>>, enabled: bool) -> McpServer {
    McpServer {
        id: format!("id-{}", name),
        name: name.to_string(),
        transport: transport.to_string(),
        command: command.map(String::from),
        args: args.map(|a| a.into_iter().map(String::from).collect()),
        env: None,
        url: None,
        enabled,
        skill_id: None,
        bypass_agent_mode: false,
    }
}

#[test]
fn only_enabled_stdio_servers_with_a_command_line_start() {
    let servers = vec![
        server("a", "stdio", Some("npx"), Some(vec!["-y", "pkg"]), true),
        server("b", "sse", Some("npx"), Some(vec![]), true),
        server("c", "stdio", Some("npx"), Some(vec!["x"]), false),
        server("d", "stdio", Some("tool"), None, true),
        server("e", "stdio", None, Some(vec![]), true),
        server("f", "stdio", Some("uvx"), Some(vec![]), true),
    ];
    assert_eq!(spawned_servers(&servers), vec![0, 5]);
    let (added, _) = mcp_add(&["docs", "--transport", "http", "https://x"], Vec::new()).unwrap_or_else(|e| panic!("{}", e));
    assert!(spawned_servers(&added).is_empty());
}

#[test]
fn a_command_is_looked_for_under_each_extension() {
    assert_eq!(candidate_names("npx", false, None), vec!["npx.com", "npx.exe", "npx.bat", "npx.cmd"]);
    assert_eq!(candidate_names("npx", false, Some(".EXE;.Cmd")), vec!["npx.exe", "npx.cmd"]);
    assert_eq!(candidate_names("node.exe", true, Some(".EXE")), vec!["node.exe"]);
    assert_eq!(candidate_names("x", false, Some(".EXE;")), vec!["x.exe", "x"]);
}
