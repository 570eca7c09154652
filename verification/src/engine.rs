//! The local inference runtime (llama.cpp's `llama-server`): which release build fits which
//! backend on which platform, what the hardware suggests, how the choices are described, and
//! how the server is started. Downloading, unpacking and running it belong to the shell.
use vstd::prelude::*;
use vstd::string::*;

use crate::cli::{join_strings, join_with};
use crate::text::{
    chars_of, concat, contains, decimal, decimal_string, eq_str, lower, str_contains, to_lower,
};

verus! {

broadcast use vstd::string::group_string_axioms;

/// The platform the app was built for.
#[derive(Debug, Clone, Copy, PartialEq, Eq, Structural)]
pub struct Platform {
    pub windows: bool,
    pub macos: bool,
    /// The CPU is 64-bit ARM.
    pub arm64: bool,
}

/// The backends offered, in the order the UI lists them.
pub open spec fn variant_ids() -> Seq<Seq<char>> {
    seq!["cuda"@, "hip"@, "metal"@, "cpu"@]
}

/// The backend ids, in order.
pub fn variant_id_list() -> (r: Vec<&'static str>)
    ensures
        r@.map_values(|s: &str| s@) == variant_ids(),
{
    let r = vec!["cuda", "hip", "metal", "cpu"];
    assert(r@.map_values(|s: &str| s@) =~= variant_ids());
    r
}

/// The name a backend is shown under.
pub open spec fn spec_variant_label(id: Seq<char>) -> Seq<char> {
    if id == "cuda"@ {
        "NVIDIA (CUDA)"@
    } else if id == "hip"@ {
        "AMD (ROCm / HIP)"@
    } else if id == "metal"@ {
        "Apple Silicon (Metal)"@
    } else {
        "CPU"@
    }
}

/// The name a backend is shown under.
pub fn variant_label(id: &str) -> (r: &'static str)
    ensures
        r@ == spec_variant_label(id@),
{
    if eq_str(id, "cuda") {
        "NVIDIA (CUDA)"
    } else if eq_str(id, "hip") {
        "AMD (ROCm / HIP)"
    } else if eq_str(id, "metal") {
        "Apple Silicon (Metal)"
    } else {
        "CPU"
    }
}

/// The lower-case pieces a release asset's name must all contain to be a backend's build on the
/// platform; `None` where the backend means nothing there (CUDA or HIP on macOS, Metal anywhere
/// but on an ARM Mac, an unknown id).
pub open spec fn spec_variant_tokens(id: Seq<char>, p: Platform) -> Option<Seq<Seq<char>>> {
    if id == "cpu"@ {
        Some(if p.windows {
            seq!["win-cpu-x64"@, ".zip"@]
        } else if p.macos {
            if p.arm64 { seq!["macos-arm64"@, ".tar.gz"@] } else { seq!["macos-x64"@, ".tar.gz"@] }
        } else {
            seq!["ubuntu-x64.tar.gz"@]
        })
    } else if id == "cuda"@ {
        if p.windows {
            Some(seq!["win-cuda"@, "x64"@, ".zip"@])
        } else if !p.macos {
            Some(seq!["ubuntu-cuda"@, "x64"@, ".tar.gz"@])
        } else {
            None
        }
    } else if id == "hip"@ {
        if p.windows {
            Some(seq!["win-hip"@, "x64"@, ".zip"@])
        } else if !p.macos {
            Some(seq!["ubuntu-rocm"@, "x64"@, ".tar.gz"@])
        } else {
            None
        }
    } else if id == "metal"@ {
        if p.macos && p.arm64 { Some(seq!["macos-arm64"@, ".tar.gz"@]) } else { None }
    } else {
        None
    }
}

fn strings(v: Vec<&'static str>) -> (r: Vec<String>)
    ensures
        r.deep_view() == v@.map_values(|s: &str| s@),
{
    let mut r: Vec<String> = Vec::new();
    let mut i: usize = 0;
    while i < v.len()
        invariant
            i <= v@.len(),
            r.deep_view() == v@.take(i as int).map_values(|s: &str| s@),
        decreases v@.len() - i,
    {
        let ghost before = r.deep_view();
        let t = v[i].to_owned();
        assert(t@ == v@[i as int]@);
        r.push(t);
        assert(r.deep_view() =~= before.push(t@));
        assert(v@.take(i + 1) =~= v@.take(i as int).push(v@[i as int]));
        assert(r.deep_view() =~= v@.take(i + 1).map_values(|s: &str| s@));
        i = i + 1;
    }
    assert(v@.take(v@.len() as int) =~= v@);
    r
}

/// The asset-name pieces of a backend's build on the platform.
pub fn variant_tokens(id: &str, p: Platform) -> (r: Option<Vec<String>>)
    ensures
        match r {
            Some(t) => spec_variant_tokens(id@, p) == Some(t.deep_view()),
            None => spec_variant_tokens(id@, p) is None,
        },
{
    let v: Option<Vec<&'static str>> = if eq_str(id, "cpu") {
        Some(if p.windows {
            vec!["win-cpu-x64", ".zip"]
        } else if p.macos {
            if p.arm64 { vec!["macos-arm64", ".tar.gz"] } else { vec!["macos-x64", ".tar.gz"] }
        } else {
            vec!["ubuntu-x64.tar.gz"]
        })
    } else if eq_str(id, "cuda") {
        if p.windows {
            Some(vec!["win-cuda", "x64", ".zip"])
        } else if !p.macos {
            Some(vec!["ubuntu-cuda", "x64", ".tar.gz"])
        } else {
            None
        }
    } else if eq_str(id, "hip") {
        if p.windows {
            Some(vec!["win-hip", "x64", ".zip"])
        } else if !p.macos {
            Some(vec!["ubuntu-rocm", "x64", ".tar.gz"])
        } else {
            None
        }
    } else if eq_str(id, "metal") {
        if p.macos && p.arm64 { Some(vec!["macos-arm64", ".tar.gz"]) } else { None }
    } else {
        None
    };
    match v {
        Some(t) => {
            let r = strings(t);
            assert(Some(r.deep_view()) == spec_variant_tokens(id@, p));
            Some(r)
        },
        None => None,
    }
}

/// The CUDA version a Windows CUDA build is for: the first of 12.4 and 13.3 its name mentions,
/// else 12.4.
pub open spec fn cuda_version(main_asset: Seq<char>) -> Seq<char> {
    if contains(main_asset, "12.4"@) {
        "12.4"@
    } else if contains(main_asset, "13.3"@) {
        "13.3"@
    } else {
        "12.4"@
    }
}

/// The companion assets a backend needs: on Windows, CUDA needs the runtime DLL archive for the
/// same CUDA version as its main build; nothing else needs any.
pub open spec fn spec_variant_extra_tokens(id: Seq<char>, main_asset: Seq<char>, p: Platform) -> Seq<Seq<char>> {
    if id == "cuda"@ && p.windows {
        seq!["cudart"@, "cuda-"@ + cuda_version(main_asset), "win"@, ".zip"@]
    } else {
        Seq::empty()
    }
}

/// The asset-name pieces of a backend's companion archive.
pub fn variant_extra_tokens(id: &str, main_asset: &str, p: Platform) -> (r: Vec<String>)
    ensures
        r.deep_view() == spec_variant_extra_tokens(id@, main_asset@, p),
{
    if eq_str(id, "cuda") && p.windows {
        let ver = if str_contains(main_asset, "12.4") {
            "12.4"
        } else if str_contains(main_asset, "13.3") {
            "13.3"
        } else {
            "12.4"
        };
        let mut r: Vec<String> = Vec::new();
        r.push("cudart".to_owned());
        r.push(concat("cuda-", ver));
        r.push("win".to_owned());
        r.push(".zip".to_owned());
        assert(r.deep_view() =~= spec_variant_extra_tokens(id@, main_asset@, p));
        r
    } else {
        let r: Vec<String> = Vec::new();
        assert(r.deep_view() =~= Seq::<Seq<char>>::empty());
        r
    }
}

/// An asset's lowered name contains every piece.
pub open spec fn spec_asset_matches(name: Seq<char>, tokens: Seq<Seq<char>>) -> bool {
    forall|i: int| 0 <= i < tokens.len() ==> contains(lower(name), #[trigger] tokens[i])
}

/// Whether a release asset is the build the pieces describe.
pub fn asset_matches(name: &str, tokens: &Vec<String>) -> (r: bool)
    ensures
        r == spec_asset_matches(name@, tokens.deep_view()),
{
    let n = to_lower(name);
    let mut i: usize = 0;
    while i < tokens.len()
        invariant
            i <= tokens@.len(),
            n@ == lower(name@),
            forall|k: int| 0 <= k < i ==> contains(lower(name@), #[trigger] tokens.deep_view()[k]),
        decreases tokens@.len() - i,
    {
        assert(tokens.deep_view()[i as int] == tokens@[i as int]@);
        if !str_contains(n.as_str(), tokens[i].as_str()) {
            return false;
        }
        i = i + 1;
    }
    true
}

/// Whether the pieces ask for the CUDA runtime archive itself.
pub open spec fn wants_cudart(tokens: Seq<Seq<char>>) -> bool {
    exists|i: int| 0 <= i < tokens.len() && contains(#[trigger] tokens[i], "cudart"@)
}

/// An asset is a candidate: it has a name; unless the runtime archive itself is asked for, the
/// name does not mention `cudart` (the archive's name also matches the CUDA build's pieces);
/// and the name matches the pieces.
pub open spec fn asset_fits(name: Option<String>, tokens: Seq<Seq<char>>) -> bool {
    match name {
        Some(n) => (wants_cudart(tokens) || !contains(lower(n@), "cudart"@)) && spec_asset_matches(n@, tokens),
        None => false,
    }
}

/// The first release asset (by name) that the pieces select.
pub fn find_asset(names: &Vec<Option<String>>, tokens: &Vec<String>) -> (r: Option<usize>)
    ensures
        match r {
            Some(i) => i < names@.len() && asset_fits(names@[i as int], tokens.deep_view())
                && forall|k: int| 0 <= k < i ==> !asset_fits(#[trigger] names@[k], tokens.deep_view()),
            None => forall|k: int| 0 <= k < names@.len() ==> !asset_fits(#[trigger] names@[k], tokens.deep_view()),
        },
{
    let mut want_cudart = false;
    let mut t: usize = 0;
    while t < tokens.len()
        invariant
            t <= tokens@.len(),
            want_cudart == exists|i: int| 0 <= i < t && contains(#[trigger] tokens.deep_view()[i], "cudart"@),
        decreases tokens@.len() - t,
    {
        assert(tokens.deep_view()[t as int] == tokens@[t as int]@);
        if str_contains(tokens[t].as_str(), "cudart") {
            want_cudart = true;
        }
        t = t + 1;
    }
    let mut i: usize = 0;
    while i < names.len()
        invariant
            i <= names@.len(),
            want_cudart == wants_cudart(tokens.deep_view()),
            forall|k: int| 0 <= k < i ==> !asset_fits(#[trigger] names@[k], tokens.deep_view()),
        decreases names@.len() - i,
    {
        match &names[i] {
            Some(n) => {
                let l = to_lower(n.as_str());
                if (want_cudart || !str_contains(l.as_str(), "cudart")) && asset_matches(n.as_str(), tokens) {
                    return Some(i);
                }
            },
            None => {},
        }
        i = i + 1;
    }
    None
}

/// The machine, as far as choosing a backend goes.
#[derive(Debug, Clone)]
pub struct Hardware {
    pub os: String,
    pub arch: String,
    pub gpus: Vec<String>,
    /// The backend recommended for this machine.
    pub recommended: String,
}

/// The backend a machine is recommended: Metal on an ARM Mac; else CUDA when a GPU name
/// mentions NVIDIA; else HIP when one mentions AMD or Radeon; else the CPU build. The GPU names
/// are joined with spaces and lowered before the search.
pub open spec fn spec_recommend(os: Seq<char>, arch: Seq<char>, gpus: Seq<Seq<char>>) -> Seq<char> {
    let g = lower(join_with(gpus, " "@));
    if os == "macos"@ && arch == "aarch64"@ {
        "metal"@
    } else if contains(g, "nvidia"@) {
        "cuda"@
    } else if contains(g, "amd"@) || contains(g, "radeon"@) {
        "hip"@
    } else {
        "cpu"@
    }
}

/// The machine's description with its recommended backend.
pub fn hardware(os: String, arch: String, gpus: Vec<String>) -> (r: Hardware)
    ensures
        r.os@ == os@,
        r.arch@ == arch@,
        r.gpus.deep_view() == gpus.deep_view(),
        r.recommended@ == spec_recommend(os@, arch@, gpus.deep_view()),
{
    let joined = join_strings(&gpus, " ");
    let g = to_lower(joined.as_str());
    let recommended = if eq_str(os.as_str(), "macos") && eq_str(arch.as_str(), "aarch64") {
        "metal"
    } else if str_contains(g.as_str(), "nvidia") {
        "cuda"
    } else if str_contains(g.as_str(), "amd") || str_contains(g.as_str(), "radeon") {
        "hip"
    } else {
        "cpu"
    };
    Hardware { os, arch, gpus, recommended: recommended.to_owned() }
}

/// An operating system's name as a user would recognise it.
pub open spec fn spec_os_label(os: Seq<char>) -> Seq<char> {
    if os == "windows"@ {
        "Microsoft Windows"@
    } else if os == "macos"@ {
        "macOS"@
    } else if os == "linux"@ {
        "Linux"@
    } else {
        os
    }
}

/// The operating system's name as a user would recognise it.
pub fn os_label(os: &str) -> (r: String)
    ensures
        r@ == spec_os_label(os@),
{
    if eq_str(os, "windows") {
        "Microsoft Windows".to_owned()
    } else if eq_str(os, "macos") {
        "macOS".to_owned()
    } else if eq_str(os, "linux") {
        "Linux".to_owned()
    } else {
        os.to_owned()
    }
}

/// One backend as the runtime picker shows it.
#[derive(Debug, Clone)]
pub struct VariantInfo {
    pub id: String,
    pub label: String,
    pub available: bool,
    pub installed: bool,
    pub recommended: bool,
    /// The recommendation, or a warning that it likely won't suit this machine.
    pub note: String,
}

/// A backend's build is in the release: it means something on the platform and some asset fits.
pub open spec fn spec_available(id: Seq<char>, p: Platform, names: Seq<Option<String>>) -> bool {
    match spec_variant_tokens(id, p) {
        Some(t) => exists|k: int| 0 <= k < names.len() && asset_fits(#[trigger] names[k], t),
        None => false,
    }
}

/// What the picker says of a backend.
pub open spec fn spec_variant_note(id: Seq<char>, available: bool, recommended: bool, hw: Hardware) -> Seq<char> {
    if !available {
        "Not available on "@ + spec_os_label(hw.os@) + " ("@ + hw.arch@ + ")."@
    } else if recommended {
        "Recommended based on your PC specs."@
    } else if id == "cpu"@ {
        "Always works, but is extremely slow on most systems. Not recommended."@
    } else {
        "No matching GPU detected — may fail to load or fall back to CPU"@
    }
}

/// One backend's entry: its label, whether the release has it, whether it is the installed one
/// and the recommended one, and the note.
pub open spec fn is_variant_info(id: Seq<char>, hw: Hardware, p: Platform, names: Seq<Option<String>>, installed: Option<Seq<char>>, v: VariantInfo) -> bool {
    &&& v.id@ == id
    &&& v.label@ == spec_variant_label(id)
    &&& v.available == spec_available(id, p, names)
    &&& v.recommended == (hw.recommended@ == id)
    &&& v.installed == (installed == Some(id))
    &&& v.note@ == spec_variant_note(id, v.available, v.recommended, hw)
}

/// Describe the four backends for this machine, given the latest release's asset names and the
/// installed backend.
pub fn variant_infos(hw: &Hardware, p: Platform, names: &Vec<Option<String>>, installed: Option<&str>) -> (r: Vec<VariantInfo>)
    ensures
        r@.len() == variant_ids().len(),
        forall|i: int| 0 <= i < r@.len() ==> is_variant_info(variant_ids()[i], *hw, p, names@, crate::text::opt_str(installed), #[trigger] r@[i]),
{
    let ids = variant_id_list();
    let mut r: Vec<VariantInfo> = Vec::new();
    let mut i: usize = 0;
    while i < ids.len()
        invariant
            i <= ids@.len(),
            ids@.map_values(|s: &str| s@) == variant_ids(),
            r@.len() == i,
            forall|k: int| 0 <= k < i ==> is_variant_info(variant_ids()[k], *hw, p, names@, crate::text::opt_str(installed), #[trigger] r@[k]),
        decreases ids@.len() - i,
    {
        let id = ids[i];
        assert(variant_ids()[i as int] == id@);
        let available = match variant_tokens(id, p) {
            Some(t) => {
                let found = find_asset(names, &t);
                proof {
                    if let Some(k) = found {
                        assert(asset_fits(names@[k as int], t.deep_view()));
                    }
                }
                found.is_some()
            },
            None => false,
        };
        let recommended = eq_str(hw.recommended.as_str(), id);
        let is_installed = match installed {
            Some(s) => eq_str(s, id),
            None => false,
        };
        let note = if !available {
            let os = os_label(hw.os.as_str());
            concat(concat(concat(concat("Not available on ", os.as_str()).as_str(), " (").as_str(), hw.arch.as_str()).as_str(), ").")
        } else if recommended {
            "Recommended based on your PC specs.".to_owned()
        } else if eq_str(id, "cpu") {
            "Always works, but is extremely slow on most systems. Not recommended.".to_owned()
        } else {
            "No matching GPU detected — may fail to load or fall back to CPU".to_owned()
        };
        r.push(VariantInfo {
            id: id.to_owned(),
            label: variant_label(id).to_owned(),
            available,
            installed: is_installed,
            recommended,
            note,
        });
        i = i + 1;
    }
    r
}

/// What installing a backend downloads: the indices of its main build and, where it needs one
/// and the release has it, its companion archive.
pub open spec fn is_install_plan(id: Seq<char>, p: Platform, names: Seq<Option<String>>, r: Result<(usize, Option<usize>), String>) -> bool {
    match spec_variant_tokens(id, p) {
        None => r == Err::<(usize, Option<usize>), String>(r->Err_0)
            && r->Err_0@ == "Variant '"@ + id + "' is not valid on this platform"@,
        Some(t) => if exists|k: int| 0 <= k < names.len() && asset_fits(#[trigger] names[k], t) {
            r matches Ok((main, extra)) && main < names.len() && asset_fits(names[main as int], t)
                && (forall|k: int| 0 <= k < main ==> !asset_fits(#[trigger] names[k], t))
                && match extra {
                    Some(x) => x < names.len() && names[main as int] is Some
                        && asset_fits(names[x as int], spec_variant_extra_tokens(id, names[main as int]->Some_0@, p))
                        && spec_variant_extra_tokens(id, names[main as int]->Some_0@, p).len() > 0,
                    None => {
                        let extras = spec_variant_extra_tokens(id, names[main as int]->Some_0@, p);
                        extras.len() == 0 || forall|k: int| 0 <= k < names.len() ==> !asset_fits(#[trigger] names[k], extras)
                    },
                }
        } else {
            r is Err && r->Err_0@ == "No '"@ + id + "' build in the latest release for this platform"@
        },
    }
}

/// Which assets installing a backend downloads, or why it cannot be installed.
pub fn install_plan(id: &str, p: Platform, names: &Vec<Option<String>>) -> (r: Result<(usize, Option<usize>), String>)
    ensures
        is_install_plan(id@, p, names@, r),
{
    let tokens = match variant_tokens(id, p) {
        Some(t) => t,
        None => {
            let e = concat(concat("Variant '", id).as_str(), "' is not valid on this platform");
            return Err(e);
        },
    };
    let main = match find_asset(names, &tokens) {
        Some(m) => m,
        None => {
            let e = concat(concat("No '", id).as_str(), "' build in the latest release for this platform");
            return Err(e);
        },
    };
    let main_name = match &names[main] {
        Some(n) => n.as_str(),
        None => "",
    };
    let extras = variant_extra_tokens(id, main_name, p);
    if extras.len() == 0 {
        return Ok((main, None));
    }
    let extra = find_asset(names, &extras);
    Ok((main, extra))
}

/// The llama-server binary's file name on the platform.
pub fn server_binary_name(p: Platform) -> (r: &'static str)
    ensures
        r@ == if p.windows { "llama-server.exe"@ } else { "llama-server"@ },
{
    if p.windows { "llama-server.exe" } else { "llama-server" }
}

/// The arguments the server is started with: the model, its projector where there is one, the
/// loopback address, the port, the session key, and jinja chat templates.
pub open spec fn spec_server_args(model: Seq<char>, mmproj: Option<Seq<char>>, port: u16, key: Seq<char>) -> Seq<Seq<char>> {
    let head = seq!["-m"@, model];
    let proj = match mmproj { Some(m) => seq!["--mmproj"@, m], None => Seq::empty() };
    head + proj + seq!["--host"@, "127.0.0.1"@, "--port"@, decimal(port as nat), "--api-key"@, key, "--jinja"@]
}

/// The llama-server command line for a model (`mmproj`: its projector, where that file exists).
pub fn server_args(model: &str, mmproj: Option<&str>, port: u16, key: &str) -> (r: Vec<String>)
    ensures
        r.deep_view() == spec_server_args(model@, crate::text::opt_str(mmproj), port, key@),
{
    let mut r: Vec<String> = Vec::new();
    r.push("-m".to_owned());
    r.push(model.to_owned());
    match mmproj {
        Some(m) => {
            r.push("--mmproj".to_owned());
            r.push(m.to_owned());
        },
        None => {},
    }
    r.push("--host".to_owned());
    r.push("127.0.0.1".to_owned());
    r.push("--port".to_owned());
    r.push(decimal_string(port as u64));
    r.push("--api-key".to_owned());
    r.push(key.to_owned());
    r.push("--jinja".to_owned());
    assert(r.deep_view() =~= spec_server_args(model@, crate::text::opt_str(mmproj), port, key@));
    r
}

/// The OpenAI-compatible base URL of a server on a loopback port.
pub fn local_base_url(port: u16) -> (r: String)
    ensures
        r@ == "http://127.0.0.1:"@ + decimal(port as nat) + "/v1"@,
{
    concat(concat("http://127.0.0.1:", decimal_string(port as u64).as_str()).as_str(), "/v1")
}

/// The health-check URL of a server on a loopback port.
pub fn health_url(port: u16) -> (r: String)
    ensures
        r@ == "http://127.0.0.1:"@ + decimal(port as nat) + "/health"@,
{
    concat(concat("http://127.0.0.1:", decimal_string(port as u64).as_str()).as_str(), "/health")
}

// ------------------------------------------------------------------ graphics cards

/// The non-blank lines of a listing, trimmed.
pub open spec fn listed_lines(out: Seq<char>) -> Seq<Seq<char>> {
    crate::text::split_char(out, '\n').map_values(|l: Seq<char>| crate::text::trim(l)).filter(
        |l: Seq<char>| l.len() > 0,
    )
}

/// The graphics cards of the machine: on Windows and Linux, the lines the system's listing
/// printed (`None` where it could not be run); on a Mac, its Apple Silicon GPU, or nothing known
/// on an Intel Mac.
pub open spec fn spec_gpu_names(p: Platform, listing: Option<Seq<char>>) -> Seq<Seq<char>> {
    if p.macos {
        if p.arm64 {
            seq!["Apple Silicon GPU"@]
        } else {
            Seq::empty()
        }
    } else {
        match listing {
            Some(out) => listed_lines(out),
            None => Seq::empty(),
        }
    }
}

/// The graphics cards of the machine.
pub fn gpu_names(p: Platform, listing: Option<&str>) -> (r: Vec<String>)
    ensures
        r.deep_view() == spec_gpu_names(p, crate::text::opt_str(listing)),
{
    let mut out: Vec<String> = Vec::new();
    if p.macos {
        if p.arm64 {
            out.push("Apple Silicon GPU".to_string());
        }
        assert(out.deep_view() =~= spec_gpu_names(p, crate::text::opt_str(listing)));
        return out;
    }
    match listing {
        None => {
            assert(out.deep_view() =~= Seq::<Seq<char>>::empty());
            out
        },
        Some(text) => {
            let cs = chars_of(text);
            let lines = crate::text::split_chars(cs.as_slice(), '\n');
            let ghost lv = lines.deep_view();
            let ghost tv = lv.map_values(|l: Seq<char>| crate::text::trim(l));
            let mut i: usize = 0;
            while i < lines.len()
                invariant
                    i <= lines@.len(),
                    lv == lines.deep_view(),
                    tv == lv.map_values(|l: Seq<char>| crate::text::trim(l)),
                    out.deep_view() == tv.take(i as int).filter(|l: Seq<char>| l.len() > 0),
                decreases lines@.len() - i,
            {
                let line = crate::text::string_of(lines[i].as_slice());
                let t = crate::text::trim_str(line.as_str());
                let ghost before = out.deep_view();
                assert(lv[i as int] == lines@[i as int]@);
                assert(tv.take(i + 1).drop_last() =~= tv.take(i as int));
                reveal(Seq::filter);
                if t.unicode_len() > 0 {
                    out.push(t.to_string());
                    assert(out.deep_view() =~= before.push(tv[i as int]));
                }
                i = i + 1;
            }
            assert(tv.take(lines@.len() as int) =~= tv);
            out
        },
    }
}

} // verus!
