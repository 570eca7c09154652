use demido_studio::engine::Platform;
use demido_studio::python::{asset_suffix, asset_version, no_asset_message, python_asset, python_bin_parts, reported_version};

const LINUX: Platform = Platform { windows: false, macos: false, arm64: false };
const MAC_ARM: Platform = Platform { windows: false, macos: true, arm64: true };
const WINDOWS: Platform = Platform { windows: true, macos: false, arm64: false };

#[test]
fn each_platform_has_its_archive() {
    assert_eq!(asset_suffix(WINDOWS), "-x86_64-pc-windows-msvc-install_only.tar.gz");
    assert_eq!(asset_suffix(MAC_ARM), "-aarch64-apple-darwin-install_only.tar.gz");
    assert_eq!(asset_suffix(LINUX), "-x86_64-unknown-linux-gnu-install_only.tar.gz");
    assert_eq!(
        asset_suffix(Platform { windows: false, macos: false, arm64: true }),
        "-aarch64-unknown-linux-gnu-install_only.tar.gz"
    );
}

#[test]
fn the_pinned_line_is_picked_for_the_platform() {
    let names: Vec<String> = [
        "cpython-3.13.1+20250101-x86_64-unknown-linux-gnu-install_only.tar.gz",
        "cpython-3.12.8+20250101-aarch64-apple-darwin-install_only.tar.gz",
        "cpython-3.12.8+20250101-x86_64-unknown-linux-gnu-install_only.tar.gz",
        "cpython-3.12.8+20250101-x86_64-unknown-linux-gnu-install_only.tar.gz.sha256",
    ]
    .iter()
    .map(|s| s.to_string())
    .collect();
    assert_eq!(python_asset(&names, LINUX), Some(2));
    assert_eq!(python_asset(&names, MAC_ARM), Some(1));
    assert_eq!(python_asset(&names, WINDOWS), None);
    assert_eq!(
        no_asset_message(WINDOWS),
        "No 'cpython-3.12.*-x86_64-pc-windows-msvc-install_only.tar.gz' build in the latest release"
    );
}

#[test]
fn versions_come_from_the_name_or_the_binary() {
    assert_eq!(asset_version("cpython-3.12.8+20250101-x86_64.tar.gz").as_deref(), Some("3.12.8"));
    assert_eq!(asset_version("cpython-3.12.8-x86_64.tar.gz").as_deref(), Some("3.12.8"));
    assert_eq!(asset_version("cpython-+x"), None);
    assert_eq!(asset_version("pypy-3.10"), None);
    assert_eq!(reported_version("3.12.8\n").as_deref(), Some("3.12.8"));
    assert_eq!(reported_version(" \n"), None);
    assert_eq!(python_bin_parts(WINDOWS), vec!["python.exe"]);
    assert_eq!(python_bin_parts(LINUX), vec!["bin", "python3"]);
}
