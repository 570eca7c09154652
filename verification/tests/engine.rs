use demido_studio::engine::{
    asset_matches, find_asset, gpu_names, hardware, health_url, install_plan, local_base_url, os_label,
    server_args, server_binary_name, variant_extra_tokens, variant_id_list, variant_infos,
    variant_label, variant_tokens, Platform,
};

const WINDOWS: Platform = Platform { windows: true, macos: false, arm64: false };
const LINUX: Platform = Platform { windows: false, macos: false, arm64: false };
const ARM_MAC: Platform = Platform { windows: false, macos: true, arm64: true };

fn names(list: &[&str]) -> Vec<Option<String>> {
    list.iter().map(|s| Some(s.to_string())).collect()
}

#[test]
fn backends_are_listed_and_labelled() {
    assert_eq!(variant_id_list(), vec!["cuda", "hip", "metal", "cpu"]);
    assert_eq!(variant_label("cuda"), "NVIDIA (CUDA)");
    assert_eq!(variant_label("metal"), "Apple Silicon (Metal)");
    assert_eq!(variant_label("anything"), "CPU");
}

#[test]
fn backends_mean_something_only_where_they_exist() {
    assert_eq!(variant_tokens("cuda", WINDOWS).unwrap(), vec!["win-cuda", "x64", ".zip"]);
    assert!(variant_tokens("cuda", ARM_MAC).is_none());
    assert!(variant_tokens("metal", LINUX).is_none());
    assert_eq!(variant_tokens("metal", ARM_MAC).unwrap(), vec!["macos-arm64", ".tar.gz"]);
    assert_eq!(variant_tokens("cpu", LINUX).unwrap(), vec!["ubuntu-x64.tar.gz"]);
    assert!(variant_tokens("tpu", LINUX).is_none());
}

#[test]
fn cuda_on_windows_needs_the_matching_runtime_archive() {
    assert_eq!(
        variant_extra_tokens("cuda", "llama-b1-bin-win-cuda-13.3-x64.zip", WINDOWS),
        vec!["cudart", "cuda-13.3", "win", ".zip"]
    );
    assert_eq!(variant_extra_tokens("cuda", "weird.zip", WINDOWS)[1], "cuda-12.4");
    assert!(variant_extra_tokens("cuda", "x", LINUX).is_empty());
    assert!(variant_extra_tokens("hip", "x", WINDOWS).is_empty());
}

#[test]
fn the_runtime_archive_is_only_picked_when_asked_for() {
    let assets = names(&["cudart-llama-bin-win-cuda-12.4-x64.zip", "llama-b1-bin-win-cuda-12.4-x64.zip"]);
    let main = variant_tokens("cuda", WINDOWS).unwrap();
    assert_eq!(find_asset(&assets, &main), Some(1));
    let extra = variant_extra_tokens("cuda", "llama-b1-bin-win-cuda-12.4-x64.zip", WINDOWS);
    assert_eq!(find_asset(&assets, &extra), Some(0));
    assert_eq!(install_plan("cuda", WINDOWS, &assets), Ok((1, Some(0))));
    assert!(asset_matches("LLAMA-WIN-CUDA-X64.ZIP", &main));
}

#[test]
fn installing_an_impossible_backend_says_why() {
    assert_eq!(
        install_plan("metal", LINUX, &names(&["x"])).unwrap_err(),
        "Variant 'metal' is not valid on this platform"
    );
    assert_eq!(
        install_plan("cpu", LINUX, &names(&["llama-win-cpu-x64.zip"])).unwrap_err(),
        "No 'cpu' build in the latest release for this platform"
    );
    assert_eq!(install_plan("cpu", LINUX, &names(&["llama-b1-bin-ubuntu-x64.tar.gz"])), Ok((0, None)));
}

#[test]
fn the_hardware_suggests_a_backend() {
    assert_eq!(hardware("macos".into(), "aarch64".into(), vec![]).recommended, "metal");
    assert_eq!(hardware("windows".into(), "x86_64".into(), vec!["NVIDIA GeForce RTX 4090".into()]).recommended, "cuda");
    assert_eq!(hardware("linux".into(), "x86_64".into(), vec!["AMD Radeon".into()]).recommended, "hip");
    assert_eq!(hardware("linux".into(), "x86_64".into(), vec!["Intel UHD".into()]).recommended, "cpu");
}

#[test]
fn the_picker_explains_each_backend() {
    let hw = hardware("linux".into(), "x86_64".into(), vec!["NVIDIA".into()]);
    let assets = names(&["llama-bin-ubuntu-x64.tar.gz"]);
    let infos = variant_infos(&hw, LINUX, &assets, Some("cpu"));
    assert_eq!(infos.len(), 4);
    assert_eq!(infos[0].id, "cuda");
    assert!(!infos[0].available);
    assert!(infos[0].recommended);
    assert_eq!(infos[0].note, "Not available on Linux (x86_64).");
    assert_eq!(infos[3].id, "cpu");
    assert!(infos[3].available && infos[3].installed && !infos[3].recommended);
    assert_eq!(infos[3].note, "Always works, but is extremely slow on most systems. Not recommended.");
}

#[test]
fn names_addresses_and_the_command_line() {
    assert_eq!(os_label("windows"), "Microsoft Windows");
    assert_eq!(os_label("freebsd"), "freebsd");
    assert_eq!(server_binary_name(WINDOWS), "llama-server.exe");
    assert_eq!(server_binary_name(LINUX), "llama-server");
    assert_eq!(local_base_url(8080), "http://127.0.0.1:8080/v1");
    assert_eq!(health_url(9), "http://127.0.0.1:9/health");
    assert_eq!(
        server_args("m.gguf", Some("p.gguf"), 1234, "k"),
        vec!["-m", "m.gguf", "--mmproj", "p.gguf", "--host", "127.0.0.1", "--port", "1234", "--api-key", "k", "--jinja"]
    );
    assert_eq!(server_args("m.gguf", None, 1, "k").len(), 9);
}

#[test]
fn graphics_cards_are_the_listing_lines_or_the_apple_gpu() {
    let listing = "NVIDIA GeForce RTX 4070\r\n  Intel(R) UHD Graphics  \r\n\r\n";
    assert_eq!(gpu_names(WINDOWS, Some(listing)), vec!["NVIDIA GeForce RTX 4070", "Intel(R) UHD Graphics"]);
    assert!(gpu_names(LINUX, None).is_empty());
    assert_eq!(gpu_names(Platform { windows: false, macos: true, arm64: true }, Some("x")), vec!["Apple Silicon GPU"]);
    assert!(gpu_names(Platform { windows: false, macos: true, arm64: false }, Some("x")).is_empty());
}
