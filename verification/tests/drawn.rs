use demido_studio::cli::mcp_add;
use demido_studio::oauth::{auth_url, authorization_from, code_challenge, redirect_uri};
use demido_studio::reasoning::recover;
use demido_studio::tools::{resolve_path, resolve_plan};

#[test]
fn an_authorization_is_made_of_its_drawn_bytes() {
    let a = authorization_from("cid", 8123, &[0xfb, 0xff], &[0x01, 0xab]);
    assert_eq!(a.redirect_uri, "http://127.0.0.1:8123");
    assert_eq!(a.code_verifier, "-_8");
    assert_eq!(a.state, "01ab");
    assert_eq!(a.url, auth_url("cid", &redirect_uri(8123), &code_challenge("-_8"), "01ab"));
}

#[test]
fn a_relative_path_goes_inside_the_working_folder() {
    assert_eq!(resolve_plan("a.txt", false, Some("/work")), Some(("/work".to_string(), "a.txt".to_string())));
    assert_eq!(resolve_plan("a.txt", false, None), None);
    assert_eq!(resolve_plan("/etc/x", true, Some("/work")), None);
    assert_eq!(resolve_path("a.txt", Some("/work")), std::path::Path::new("/work").join("a.txt"));
}

#[test]
fn fresh_ids_are_version_four_uuids() {
    let (servers, _) = mcp_add(&["docs", "cmd"], Vec::new()).unwrap();
    let id: Vec<char> = servers[0].id.chars().collect();
    assert_eq!(id.len(), 36);
    assert_eq!(id[8], '-');
    assert_eq!(id[14], '4');
    let leaked = "<tool_call>\n<function=read_file>\n<parameter=path>\na.txt\n</parameter>\n</function>\n</tool_call>";
    let r = recover(leaked, &vec!["read_file".to_string()]).unwrap().unwrap();
    let rid: Vec<char> = r.calls[0].id.chars().collect();
    assert_eq!(rid.len(), 42);
    assert_eq!(rid[10 + 12], '4');
    assert!(rid[10..].iter().all(|c| c.is_ascii_hexdigit()));
}
