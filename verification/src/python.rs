//! The portable Python runtime the web-search stack runs on: which prebuilt CPython is fetched
//! for a machine, which release asset that is, the version its name carries, and what the
//! installed binary says of itself. Downloading and unpacking belong to the shell.
use vstd::prelude::*;
use vstd::string::*;

use crate::engine::Platform;
use crate::text::{
    chars_of, concat, ends_with, starts_with, str_ends_with, str_starts_with, string_of, trim, trim_str,
};

verus! {

broadcast use vstd::string::group_string_axioms;

/// The CPython line installed: 3.11 or newer is needed by SearXNG, and a release ships several
/// lines side by side.
pub const PYTHON_MAJOR_MINOR: &'static str = "3.12";

/// The `install_only` archive suffix of a platform.
pub open spec fn spec_asset_suffix(p: Platform) -> Seq<char> {
    if p.windows {
        "-x86_64-pc-windows-msvc-install_only.tar.gz"@
    } else if p.macos {
        if p.arm64 {
            "-aarch64-apple-darwin-install_only.tar.gz"@
        } else {
            "-x86_64-apple-darwin-install_only.tar.gz"@
        }
    } else if p.arm64 {
        "-aarch64-unknown-linux-gnu-install_only.tar.gz"@
    } else {
        "-x86_64-unknown-linux-gnu-install_only.tar.gz"@
    }
}

/// The `install_only` archive suffix of a platform.
pub fn asset_suffix(p: Platform) -> (r: &'static str)
    ensures
        r@ == spec_asset_suffix(p),
{
    if p.windows {
        "-x86_64-pc-windows-msvc-install_only.tar.gz"
    } else if p.macos {
        if p.arm64 {
            "-aarch64-apple-darwin-install_only.tar.gz"
        } else {
            "-x86_64-apple-darwin-install_only.tar.gz"
        }
    } else if p.arm64 {
        "-aarch64-unknown-linux-gnu-install_only.tar.gz"
    } else {
        "-x86_64-unknown-linux-gnu-install_only.tar.gz"
    }
}

/// The name every asset of the pinned line starts with.
pub open spec fn asset_prefix() -> Seq<char> {
    "cpython-"@ + PYTHON_MAJOR_MINOR@ + "."@
}

/// An asset of the pinned line built for the platform.
pub open spec fn is_python_asset(name: Seq<char>, p: Platform) -> bool {
    starts_with(name, asset_prefix()) && ends_with(name, spec_asset_suffix(p))
}

/// The first release asset of the pinned line built for the platform, by position.
pub fn python_asset(names: &Vec<String>, p: Platform) -> (r: Option<usize>)
    ensures
        match r {
            Some(i) => i < names@.len() && is_python_asset(names@[i as int]@, p) && forall|j: int|
                0 <= j < i ==> !is_python_asset(#[trigger] names@[j]@, p),
            None => forall|j: int| 0 <= j < names@.len() ==> !is_python_asset(#[trigger] names@[j]@, p),
        },
{
    let prefix = concat(concat("cpython-", PYTHON_MAJOR_MINOR).as_str(), ".");
    let suffix = asset_suffix(p);
    let mut i: usize = 0;
    while i < names.len()
        invariant
            i <= names@.len(),
            prefix@ == asset_prefix(),
            suffix@ == spec_asset_suffix(p),
            forall|j: int| 0 <= j < i ==> !is_python_asset(#[trigger] names@[j]@, p),
        decreases names@.len() - i,
    {
        let n = names[i].as_str();
        if str_starts_with(n, prefix.as_str()) && str_ends_with(n, suffix) {
            return Some(i);
        }
        i = i + 1;
    }
    None
}

/// Why no runtime can be fetched: the latest release has no asset of the line for the platform.
pub fn no_asset_message(p: Platform) -> (r: String)
    ensures
        r@ == "No '"@ + asset_prefix() + "*"@ + spec_asset_suffix(p) + "' build in the latest release"@,
{
    let mut m = concat("No '", concat(concat("cpython-", PYTHON_MAJOR_MINOR).as_str(), ".").as_str());
    m = concat(m.as_str(), "*");
    m = concat(m.as_str(), asset_suffix(p));
    concat(m.as_str(), "' build in the latest release")
}

/// The text before the first `+` or `-`.
pub open spec fn before_sign(s: Seq<char>) -> Seq<char>
    decreases s.len(),
{
    if s.len() == 0 || s[0] == '+' || s[0] == '-' {
        Seq::empty()
    } else {
        seq![s[0]] + before_sign(s.drop_first())
    }
}

/// The version an asset's name carries (`cpython-3.12.7+2024…` gives `3.12.7`), where it has one.
pub open spec fn spec_asset_version(name: Seq<char>) -> Option<Seq<char>> {
    if starts_with(name, "cpython-"@) && before_sign(name.skip(8)).len() > 0 {
        Some(before_sign(name.skip(8)))
    } else {
        None
    }
}

/// The version an asset's name carries.
pub fn asset_version(name: &str) -> (r: Option<String>)
    ensures
        match r {
            Some(v) => spec_asset_version(name@) == Some(v@),
            None => spec_asset_version(name@) is None,
        },
{
    proof {
        reveal_strlit("cpython-");
    }
    if !str_starts_with(name, "cpython-") {
        return None;
    }
    let cs = chars_of(name);
    let mut out: Vec<char> = Vec::new();
    let mut i: usize = 8;
    assert(name@.skip(8).skip(0) =~= name@.skip(8));
    while i < cs.len() && cs[i] != '+' && cs[i] != '-'
        invariant
            8 <= i <= cs@.len(),
            cs@ == name@,
            before_sign(name@.skip(8)) == out@ + before_sign(name@.skip(i as int)),
        decreases cs@.len() - i,
    {
        assert(name@.skip(i as int)[0] == cs@[i as int]);
        assert(name@.skip(i as int).drop_first() =~= name@.skip(i + 1));
        let ghost before = out@;
        out.push(cs[i]);
        assert(before + (seq![cs@[i as int]] + before_sign(name@.skip(i + 1))) =~= out@ + before_sign(
            name@.skip(i + 1),
        ));
        i = i + 1;
    }
    assert(before_sign(name@.skip(i as int)) =~= Seq::<char>::empty());
    assert(out@ + Seq::<char>::empty() =~= out@);
    if out.len() == 0 {
        None
    } else {
        Some(string_of(out.as_slice()))
    }
}

/// The installed runtime's version, from what `platform.python_version()` printed: the trimmed
/// text, or `None` where it is blank.
pub fn reported_version(stdout: &str) -> (r: Option<String>)
    ensures
        match r {
            Some(v) => trim(stdout@).len() > 0 && v@ == trim(stdout@),
            None => trim(stdout@).len() == 0,
        },
{
    let t = trim_str(stdout);
    if t.unicode_len() == 0 {
        None
    } else {
        Some(t.to_string())
    }
}

/// Where the interpreter lies inside the runtime's `python` folder: `python.exe` on Windows,
/// else `bin/python3`.
pub fn python_bin_parts(p: Platform) -> (r: Vec<&'static str>)
    ensures
        r@.map_values(|s: &'static str| s@) == if p.windows {
            seq!["python.exe"@]
        } else {
            seq!["bin"@, "python3"@]
        },
{
    let v: Vec<&'static str> = if p.windows { vec!["python.exe"] } else { vec!["bin", "python3"] };
    assert(v@.map_values(|s: &'static str| s@) =~= if p.windows {
        seq!["python.exe"@]
    } else {
        seq!["bin"@, "python3"@]
    });
    v
}

} // verus!
