use demido_studio::hf::{
    card_body, find_mmproj, find_quant, group_quants, hf_model_from, is_mmproj, model_id, owner_name,
    parse_models, parse_repo, quant_list, quant_of, repo_caps, repo_models, search_query, tree_files,
    GatedField, RawHfModel, TreeEntry,
};

fn files(list: &[(&str, i64)]) -> Vec<(String, i64)> {
    list.iter().map(|(p, s)| (p.to_string(), *s)).collect()
}

#[test]
fn a_repo_is_read_from_a_url_or_a_bare_name() {
    assert_eq!(parse_repo("https://huggingface.co/unsloth/Qwen3-8B-GGUF").unwrap(), "unsloth/Qwen3-8B-GGUF");
    assert_eq!(parse_repo("  https://huggingface.co/unsloth/Qwen3-8B-GGUF/tree/main/  ").unwrap(), "unsloth/Qwen3-8B-GGUF");
    assert_eq!(parse_repo("owner/name/").unwrap(), "owner/name");
    assert_eq!(parse_repo("https://huggingface.co/owner").unwrap_err(), "URL missing owner/name");
    assert_eq!(
        parse_repo("just-a-name").unwrap_err(),
        "Expected a huggingface.co model URL or 'owner/name'"
    );
    assert!(parse_repo("a/b/c").is_err());
}

#[test]
fn quant_tags_come_out_of_file_names() {
    assert_eq!(quant_of("foo-Q4_K_M.gguf").as_deref(), Some("Q4_K_M"));
    assert_eq!(quant_of("foo-Q4_K_M-00001-of-00002.gguf").as_deref(), Some("Q4_K_M"));
    assert_eq!(quant_of("model.iq3_xs.GGUF").as_deref(), Some("IQ3_XS"));
    assert_eq!(quant_of("model-bf16.gguf").as_deref(), Some("BF16"));
    assert_eq!(quant_of("README.md"), None);
    assert_eq!(quant_of("model.gguf"), None);
}

#[test]
fn projectors_are_told_by_their_base_name() {
    assert!(is_mmproj("mmproj-model-f16.gguf"));
    assert!(is_mmproj("sub/MMPROJ-x.gguf"));
    assert!(!is_mmproj("mmproj/model-Q4_K_M.gguf"));
}

#[test]
fn split_quants_are_grouped_sorted_and_summed_smallest_first() {
    let list = files(&[
        ("m-Q8_0.gguf", 800),
        ("m-Q4_K_M-00002-of-00002.gguf", 200),
        ("m-Q4_K_M-00001-of-00002.gguf", 300),
        ("mmproj-m-f16.gguf", 50),
        ("README.md", 1),
        ("m-F16.gguf", 500),
    ]);
    let q = group_quants(&list);
    let tags: Vec<&str> = q.iter().map(|o| o.quant.as_str()).collect();
    assert_eq!(tags, vec!["F16", "Q4_K_M", "Q8_0"]);
    assert_eq!(q[1].files, vec!["m-Q4_K_M-00001-of-00002.gguf", "m-Q4_K_M-00002-of-00002.gguf"]);
    assert_eq!(q[1].size, 500);
    assert_eq!(q[0].size, 500);
    assert_eq!(q[2].size, 800);
}

#[test]
fn a_repo_without_models_is_an_error() {
    assert_eq!(
        quant_list(&files(&[("mmproj-x.gguf", 1)])).unwrap_err(),
        "No .gguf model files found in that repo"
    );
    assert_eq!(quant_list(&files(&[("x-Q4_0.gguf", 1)])).unwrap().len(), 1);
}

#[test]
fn the_f16_projector_is_preferred() {
    let list = files(&[("mmproj-q8.gguf", 1), ("mmproj-F16.gguf", 2), ("m-Q4_0.gguf", 3)]);
    assert_eq!(find_mmproj(&list), Some(("mmproj-F16.gguf".to_string(), 2)));
    let list = files(&[("m-Q4_0.gguf", 3), ("mmproj-q8.gguf", 1)]);
    assert_eq!(find_mmproj(&list), Some(("mmproj-q8.gguf".to_string(), 1)));
    assert_eq!(find_mmproj(&files(&[("m-Q4_0.gguf", 3)])), None);
}

#[test]
fn the_tree_keeps_gguf_files_with_their_lfs_size() {
    let entries = vec![
        TreeEntry { path: Some("a-Q4_0.GGUF".into()), lfs_size: Some(10), size: Some(1) },
        TreeEntry { path: Some("b-Q8_0.gguf".into()), lfs_size: None, size: Some(7) },
        TreeEntry { path: Some("c-Q8_0.gguf".into()), lfs_size: None, size: None },
        TreeEntry { path: Some("README.md".into()), lfs_size: None, size: Some(3) },
        TreeEntry { path: None, lfs_size: Some(3), size: None },
    ];
    assert_eq!(
        tree_files(&entries),
        files(&[("a-Q4_0.GGUF", 10), ("b-Q8_0.gguf", 7), ("c-Q8_0.gguf", 0)])
    );
}

#[test]
fn browser_entries_fill_gaps_and_drop_nameless_repos() {
    let raw = |id: Option<&str>, gated: GatedField| RawHfModel {
        id: id.map(String::from),
        downloads: None,
        likes: Some(4),
        last_modified: None,
        pipeline_tag: Some("text-generation".into()),
        gated,
        tags: Some(vec![Some("gguf".into()), None, Some("vision".into())]),
    };
    let list = parse_models(Some(vec![
        raw(Some("a/b"), GatedField::Absent),
        raw(Some(""), GatedField::Absent),
        raw(None, GatedField::Flag(true)),
        raw(Some("c/d"), GatedField::Other),
        raw(Some("e/f"), GatedField::Flag(false)),
    ]));
    assert_eq!(list.len(), 3);
    assert_eq!(list[0].id, "a/b");
    assert_eq!(list[0].downloads, 0);
    assert_eq!(list[0].likes, 4);
    assert_eq!(list[0].updated, "");
    assert_eq!(list[0].tags, vec!["gguf", "vision"]);
    assert!(!list[0].gated);
    assert!(list[1].gated);
    assert!(!list[2].gated);
    assert!(parse_models(None).is_empty());
    assert_eq!(hf_model_from(&raw(None, GatedField::Absent)).id, "");
}

#[test]
fn a_card_loses_its_frontmatter() {
    assert_eq!(card_body("---\nlicense: mit\n---\n\n# Model\n"), "# Model\n");
    assert_eq!(card_body("  ---\na: b\n---x"), "x");
    assert_eq!(card_body("# No frontmatter\n"), "# No frontmatter\n");
    assert_eq!(card_body("---\nunterminated"), "---\nunterminated");
}

#[test]
fn advertised_capabilities_come_from_tags_and_template() {
    let tags = vec!["vision".to_string(), "function-calling".to_string()];
    let c = repo_caps(&tags, "text-generation", None);
    assert_eq!((c.vision, c.tools, c.reasoning), (Some(true), Some(true), Some(false)));
    let c = repo_caps(&vec![], "image-text-to-text", Some("{% if enable_thinking %}"));
    assert_eq!((c.vision, c.tools, c.reasoning), (Some(true), Some(false), Some(true)));
    let c = repo_caps(&vec![], "", Some("{{ tool_call }}"));
    assert_eq!(c.tools, Some(true));
}

#[test]
fn searches_encode_spaces() {
    assert_eq!(search_query("qwen 3 8b"), "search=qwen+3+8b&filter=gguf&sort=downloads&direction=-1&limit=40");
}

#[test]
fn ids_and_folders_of_local_models() {
    assert_eq!(model_id("o/n", "Q4_K_M"), "o/n::Q4_K_M");
    assert_eq!(owner_name("o/n"), ("o".to_string(), "n".to_string()));
    assert_eq!(owner_name("solo"), ("solo".to_string(), String::new()));
}

#[test]
fn the_picked_quant_is_matched_without_case() {
    let q = group_quants(&files(&[("m-Q4_K_M.gguf", 1), ("m-Q8_0.gguf", 2)]));
    assert_eq!(find_quant(&q, "q8_0"), Some(1));
    assert_eq!(find_quant(&q, "q5_0"), None);
}

#[test]
fn a_scanned_repo_folder_gives_one_model_per_quant() {
    let dir = std::path::PathBuf::from("/models/o/n");
    let list = files(&[("n-Q4_0.gguf", 4), ("mmproj-n-f16.gguf", 1), ("n-Q8_0.gguf", 8)]);
    let models = repo_models("o/n", &dir, &list);
    assert_eq!(models.len(), 2);
    assert_eq!(models[0].id, "o/n::Q4_0");
    assert_eq!(models[0].size, 4);
    assert!(models[0].file_path.ends_with("n-Q4_0.gguf"));
    assert!(models[1].mmproj_path.as_deref().unwrap().ends_with("mmproj-n-f16.gguf"));
    assert!(models[1].caps_vision.is_none());
}
