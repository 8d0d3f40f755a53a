//! Browser candidates, the parsing of tool output and of the OS release
//! file, and the choice of a package manager.
use vstd::prelude::*;

use crate::text::{
    contains_seq, copy_range, first_line_of, is_prefix, lines, lines_of, lowercase, seq_views,
    starts_with, str_contains, string_from, to_chars, to_lowercase, trim, trim_end_char,
    trim_end_char_exec, trim_of,
};

verus! {

/// Browser binary names probed through the search path, in order.
pub open spec fn browser_candidate_names() -> Seq<&'static str> {
    seq!["google-chrome", "google-chrome-stable", "chromium", "chromium-browser"]
}

/// Browser binary names probed through the search path, in order.
pub fn browser_candidates() -> (r: Vec<&'static str>)
    ensures
        r@ == browser_candidate_names(),
{
    let mut v: Vec<&'static str> = Vec::new();
    v.push("google-chrome");
    v.push("google-chrome-stable");
    v.push("chromium");
    v.push("chromium-browser");
    v
}

/// Known absolute browser paths of an operating system, in the order they
/// are checked.
pub open spec fn known_paths_of(os: TargetOs) -> Seq<&'static str> {
    match os {
        TargetOs::Linux => seq![
                "/usr/bin/google-chrome",
                "/usr/bin/google-chrome-stable",
                "/usr/bin/chromium",
                "/usr/bin/chromium-browser",
                "/usr/local/bin/google-chrome",
                "/usr/local/bin/chromium",
                "/snap/bin/chromium",
                "/var/lib/flatpak/exports/bin/org.chromium.Chromium",
                "/run/current-system/sw/bin/google-chrome-stable",
                "/run/current-system/sw/bin/chromium",
                "/home/user/.nix-profile/bin/chromium",
            ],
        TargetOs::MacOs => seq![
                "/Applications/Google Chrome.app/Contents/MacOS/Google Chrome",
                "/Applications/Chromium.app/Contents/MacOS/Chromium",
                "/usr/local/bin/chromium",
                "/opt/homebrew/bin/chromium",
                "/usr/local/opt/chromium/bin/chromium",
            ],
        TargetOs::Windows => seq![
                "C:\\Program Files\\Google\\Chrome\\Application\\chrome.exe",
                "C:\\Program Files (x86)\\Google\\Chrome\\Application\\chrome.exe",
                "C:\\Program Files\\Chromium\\Application\\chrome.exe",
                "C:\\Program Files (x86)\\Chromium\\Application\\chrome.exe",
            ],
    }
}

/// Known absolute browser paths on Linux, in the order they are checked.
pub fn linux_known_paths() -> (r: Vec<&'static str>)
    ensures
        r@ == known_paths_of(TargetOs::Linux),
{
    let mut v: Vec<&'static str> = Vec::new();
    v.push("/usr/bin/google-chrome");
    v.push("/usr/bin/google-chrome-stable");
    v.push("/usr/bin/chromium");
    v.push("/usr/bin/chromium-browser");
    v.push("/usr/local/bin/google-chrome");
    v.push("/usr/local/bin/chromium");
    v.push("/snap/bin/chromium");
    v.push("/var/lib/flatpak/exports/bin/org.chromium.Chromium");
    v.push("/run/current-system/sw/bin/google-chrome-stable");
    v.push("/run/current-system/sw/bin/chromium");
    v.push("/home/user/.nix-profile/bin/chromium");
    v
}

/// Known absolute browser paths on macOS, in the order they are checked.
pub fn macos_known_paths() -> (r: Vec<&'static str>)
    ensures
        r@ == known_paths_of(TargetOs::MacOs),
{
    let mut v: Vec<&'static str> = Vec::new();
    v.push("/Applications/Google Chrome.app/Contents/MacOS/Google Chrome");
    v.push("/Applications/Chromium.app/Contents/MacOS/Chromium");
    v.push("/usr/local/bin/chromium");
    v.push("/opt/homebrew/bin/chromium");
    v.push("/usr/local/opt/chromium/bin/chromium");
    v
}

/// Known absolute browser paths on Windows, in the order they are checked.
pub fn windows_known_paths() -> (r: Vec<&'static str>)
    ensures
        r@ == known_paths_of(TargetOs::Windows),
{
    let mut v: Vec<&'static str> = Vec::new();
    v.push("C:\\Program Files\\Google\\Chrome\\Application\\chrome.exe");
    v.push("C:\\Program Files (x86)\\Google\\Chrome\\Application\\chrome.exe");
    v.push("C:\\Program Files\\Chromium\\Application\\chrome.exe");
    v.push("C:\\Program Files (x86)\\Chromium\\Application\\chrome.exe");
    v
}

/// The path a lookup tool printed: its first line, trimmed, if not empty.
pub open spec fn printed_path_of(stdout: Seq<char>) -> Option<Seq<char>> {
    let t = trim_of(first_line_of(stdout));
    if t.len() == 0 {
        None
    } else {
        Some(t)
    }
}

/// The path a lookup tool (`which`, `where`) printed: its first line,
/// trimmed; `None` when that is empty.
pub fn printed_path(stdout: &str) -> (r: Option<String>)
    ensures
        crate::parser::entity::opt_view(r) == printed_path_of(stdout@),
{
    let first = crate::text::first_line(stdout);
    let t = trim(first.as_str());
    if t.as_str().unicode_len() == 0 {
        None
    } else {
        Some(t)
    }
}

/// `s` without any number of leading copies of `p`.
pub open spec fn strip_prefixes(s: Seq<char>, p: Seq<char>) -> Seq<char>
    decreases s.len(),
{
    if p.len() > 0 && is_prefix(p, s) {
        strip_prefixes(s.subrange(p.len() as int, s.len() as int), p)
    } else {
        s
    }
}

/// `s` without leading and trailing `c`.
pub open spec fn trim_char(s: Seq<char>, c: char) -> Seq<char> {
    trim_end_char(trim_start_char(s, c), c)
}

/// `s` without leading `c`.
pub open spec fn trim_start_char(s: Seq<char>, c: char) -> Seq<char>
    decreases s.len(),
{
    if s.len() > 0 && s[0] == c {
        trim_start_char(s.drop_first(), c)
    } else {
        s
    }
}

/// The first line that starts with `p`, among the lines from index `k`.
pub open spec fn first_line_with(ls: Seq<Seq<char>>, p: Seq<char>, k: int) -> Option<Seq<char>>
    decreases ls.len() - k,
{
    if k < 0 || k >= ls.len() {
        None
    } else if is_prefix(p, ls[k]) {
        Some(ls[k])
    } else {
        first_line_with(ls, p, k + 1)
    }
}

/// The lower-case, unquoted value of the first `KEY=` line of an OS release
/// file, or the empty text.
pub open spec fn release_value_of(content: Seq<char>, key: Seq<char>) -> Seq<char> {
    match first_line_with(lines_of(content), key, 0) {
        Some(l) => lowercase(trim_char(strip_prefixes(l, key), '"')),
        None => seq![],
    }
}

/// The distribution family of an OS release file: `ID_LIKE` when it is set,
/// else `ID`.
pub open spec fn distro_of(content: Seq<char>) -> Seq<char> {
    let like = release_value_of(content, "ID_LIKE="@);
    if like.len() > 0 {
        like
    } else {
        release_value_of(content, "ID="@)
    }
}

fn strip_prefixes_exec(s: &[char], p: &[char]) -> (r: Vec<char>)
    ensures
        r@ == strip_prefixes(s@, p@),
{
    let mut start: usize = 0;
    proof {
        assert(s@.subrange(0, s@.len() as int) =~= s@);
    }
    while p.len() > 0 && p.len() <= s.len() - start && crate::text::occurs_at_exec(s, p, start)
        invariant
            start <= s@.len(),
            strip_prefixes(s@, p@) == strip_prefixes(s@.subrange(start as int, s@.len() as int), p@),
        decreases s@.len() - start,
    {
        let ghost t = s@.subrange(start as int, s@.len() as int);
        proof {
            assert(t.subrange(0, p@.len() as int) =~= s@.subrange(start as int, start + p@.len()));
            assert(t.subrange(p@.len() as int, t.len() as int) =~= s@.subrange(
                start + p@.len(),
                s@.len() as int,
            ));
        }
        start = start + p.len();
    }
    proof {
        let t = s@.subrange(start as int, s@.len() as int);
        if p@.len() > 0 && p@.len() <= t.len() {
            assert(t.subrange(0, p@.len() as int) =~= s@.subrange(start as int, start + p@.len()));
        }
    }
    copy_range(s, start, s.len())
}

proof fn lemma_trim_start_char_at(s: Seq<char>, c: char, i: int)
    requires
        0 <= i <= s.len(),
        forall|j: int| 0 <= j < i ==> #[trigger] s[j] == c,
        i == s.len() || s[i] != c,
    ensures
        trim_start_char(s, c) == s.subrange(i, s.len() as int),
    decreases i,
{
    if i == 0 {
        assert(s.subrange(0, s.len() as int) =~= s);
    } else {
        let t = s.drop_first();
        assert forall|j: int| 0 <= j < i - 1 implies #[trigger] t[j] == c by {
            assert(t[j] == s[j + 1]);
        }
        lemma_trim_start_char_at(t, c, i - 1);
        assert(t.subrange(i - 1, t.len() as int) =~= s.subrange(i, s.len() as int));
    }
}

fn trim_char_exec(s: &[char], c: char) -> (r: Vec<char>)
    ensures
        r@ == trim_char(s@, c),
{
    let mut i: usize = 0;
    while i < s.len() && s[i] == c
        invariant
            i <= s@.len(),
            forall|j: int| 0 <= j < i ==> #[trigger] s@[j] == c,
        decreases s@.len() - i,
    {
        i = i + 1;
    }
    proof {
        lemma_trim_start_char_at(s@, c, i as int);
    }
    let rest = copy_range(s, i, s.len());
    trim_end_char_exec(rest.as_slice(), c)
}

fn release_value(ls: &Vec<Vec<char>>, key: &str) -> (r: String)
    ensures
        r@ == match first_line_with(seq_views(ls@), key@, 0) {
            Some(l) => lowercase(trim_char(strip_prefixes(l, key@), '"')),
            None => seq![],
        },
{
    let ghost lv = seq_views(ls@);
    let k = to_chars(key);
    let mut i: usize = 0;
    while i < ls.len()
        invariant
            lv == seq_views(ls@),
            k@ == key@,
            i <= ls@.len(),
            first_line_with(lv, key@, 0) == first_line_with(lv, key@, i as int),
        decreases ls@.len() - i,
    {
        proof {
            assert(lv[i as int] == ls@[i as int]@);
        }
        if starts_with(ls[i].as_slice(), k.as_slice()) {
            let stripped = strip_prefixes_exec(ls[i].as_slice(), k.as_slice());
            let unquoted = trim_char_exec(stripped.as_slice(), '"');
            let s = string_from(unquoted.as_slice());
            return to_lowercase(s.as_str());
        }
        i = i + 1;
    }
    String::new()
}

/// The distribution family named by the content of `/etc/os-release`:
/// the value of `ID_LIKE` when it is set, else that of `ID`, unquoted and
/// lower-cased.
pub fn detect_linux_distro(os_release: &str) -> (r: String)
    ensures
        r@ == distro_of(os_release@),
{
    let ls = lines(os_release);
    let like = release_value(&ls, "ID_LIKE=");
    if like.as_str().unicode_len() > 0 {
        like
    } else {
        release_value(&ls, "ID=")
    }
}

/// Package managers that can install Chromium.
#[derive(Debug, Clone, Copy, PartialEq, Eq, Structural)]
pub enum PackageManager {
    Pacman,
    Dnf,
    Zypper,
    AptGet,
}

/// Which package manager binaries are on the search path.
#[derive(Debug, Clone, Copy)]
pub struct AvailableManagers {
    pub pacman: bool,
    pub dnf: bool,
    pub zypper: bool,
    pub apt_get: bool,
}

/// The package manager to use for a distribution family: none on NixOS; the
/// family's own when it is there (pacman for Arch and Manjaro, dnf for
/// Fedora, RHEL and CentOS, zypper for openSUSE); else apt-get, pacman, dnf
/// or zypper, the first that is there.
pub open spec fn install_method_of(distro: Seq<char>, m: AvailableManagers) -> Option<PackageManager> {
    if contains_seq(distro, "nixos"@) || contains_seq(distro, "nix"@) {
        None
    } else if (contains_seq(distro, "arch"@) || contains_seq(distro, "manjaro"@)) && m.pacman {
        Some(PackageManager::Pacman)
    } else if (contains_seq(distro, "fedora"@) || contains_seq(distro, "rhel"@) || contains_seq(
        distro,
        "centos"@,
    )) && m.dnf {
        Some(PackageManager::Dnf)
    } else if contains_seq(distro, "opensuse"@) && m.zypper {
        Some(PackageManager::Zypper)
    } else if m.apt_get {
        Some(PackageManager::AptGet)
    } else if m.pacman {
        Some(PackageManager::Pacman)
    } else if m.dnf {
        Some(PackageManager::Dnf)
    } else if m.zypper {
        Some(PackageManager::Zypper)
    } else {
        None
    }
}

/// The package manager to use for a distribution family, given which ones
/// are on the search path.
pub fn linux_install_method(distro: &str, available: AvailableManagers) -> (r: Option<PackageManager>)
    ensures
        r == install_method_of(distro@, available),
{
    if str_contains(distro, "nixos") || str_contains(distro, "nix") {
        None
    } else if (str_contains(distro, "arch") || str_contains(distro, "manjaro")) && available.pacman {
        Some(PackageManager::Pacman)
    } else if (str_contains(distro, "fedora") || str_contains(distro, "rhel") || str_contains(
        distro,
        "centos",
    )) && available.dnf {
        Some(PackageManager::Dnf)
    } else if str_contains(distro, "opensuse") && available.zypper {
        Some(PackageManager::Zypper)
    } else if available.apt_get {
        Some(PackageManager::AptGet)
    } else if available.pacman {
        Some(PackageManager::Pacman)
    } else if available.dnf {
        Some(PackageManager::Dnf)
    } else if available.zypper {
        Some(PackageManager::Zypper)
    } else {
        None
    }
}

/// Binary and install arguments of a package manager.
pub open spec fn manager_command_of(m: PackageManager) -> (Seq<char>, Seq<Seq<char>>) {
    match m {
        PackageManager::Pacman => ("pacman"@, seq!["-S"@, "--noconfirm"@]),
        PackageManager::Dnf => ("dnf"@, seq!["install"@, "-y"@]),
        PackageManager::Zypper => ("zypper"@, seq!["install"@, "-y"@]),
        PackageManager::AptGet => ("apt-get"@, seq!["install"@, "-y"@]),
    }
}

/// The arguments of `sudo` that install Chromium with a package manager:
/// the manager's binary, its install arguments, then `chromium`.
pub fn install_command(m: PackageManager) -> (r: Vec<String>)
    ensures
        crate::text::string_views(r@) == seq![manager_command_of(m).0] + manager_command_of(m).1
            + seq!["chromium"@],
{
    let mut v: Vec<String> = Vec::new();
    match m {
        PackageManager::Pacman => {
            v.push(String::from_str("pacman"));
            v.push(String::from_str("-S"));
            v.push(String::from_str("--noconfirm"));
        },
        PackageManager::Dnf => {
            v.push(String::from_str("dnf"));
            v.push(String::from_str("install"));
            v.push(String::from_str("-y"));
        },
        PackageManager::Zypper => {
            v.push(String::from_str("zypper"));
            v.push(String::from_str("install"));
            v.push(String::from_str("-y"));
        },
        PackageManager::AptGet => {
            v.push(String::from_str("apt-get"));
            v.push(String::from_str("install"));
            v.push(String::from_str("-y"));
        },
    }
    v.push(String::from_str("chromium"));
    proof {
        assert(crate::text::string_views(v@) =~= seq![manager_command_of(m).0] + manager_command_of(m).1
            + seq!["chromium"@]);
    }
    v
}

/// The message given when no package manager fits the distribution.
pub const NO_PACKAGE_MANAGER: &'static str = "Could not determine a package manager for your distro.
Install Chromium manually:
  Arch:    sudo pacman -S chromium
  Debian:  sudo apt-get install chromium
  Fedora:  sudo dnf install chromium
  NixOS:   nix-env -iA nixpkgs.chromium";

/// Operating systems whose browser locations and install routes differ.
#[derive(Debug, Clone, Copy, PartialEq, Eq, Structural)]
pub enum TargetOs {
    Linux,
    MacOs,
    Windows,
}

/// The path separator of an operating system.
pub open spec fn separator_of(os: TargetOs) -> char {
    match os {
        TargetOs::Windows => '\\',
        _ => '/',
    }
}

/// A relative path joined onto a base: the relative path alone on an empty
/// base, no second separator after one that ends the base.
pub open spec fn join_path_of(os: TargetOs, base: Seq<char>, rel: Seq<char>) -> Seq<char> {
    if base.len() == 0 {
        rel
    } else if base.last() == separator_of(os) {
        base + rel
    } else {
        base + seq![separator_of(os)] + rel
    }
}

/// A relative path joined onto a base with the separator of `os`.
pub fn join_path(os: TargetOs, base: &str, rel: &str) -> (r: String)
    ensures
        r@ == join_path_of(os, base@, rel@),
{
    let sep: char = match os {
        TargetOs::Windows => '\\',
        _ => '/',
    };
    let cs = to_chars(base);
    if cs.len() == 0 {
        String::from_str(rel)
    } else if cs[cs.len() - 1] == sep {
        crate::text::concat(base, rel)
    } else {
        let mut out = String::from_str(base);
        out.push(sep);
        out.append(rel);
        out
    }
}

/// Known absolute browser paths of an operating system, in the order they
/// are checked.
pub fn known_browser_paths(os: TargetOs) -> (r: Vec<&'static str>)
    ensures
        r@ == known_paths_of(os),
{
    match os {
        TargetOs::Linux => linux_known_paths(),
        TargetOs::MacOs => macos_known_paths(),
        TargetOs::Windows => windows_known_paths(),
    }
}

/// The directory that a downloaded Chromium goes to, under the user's home
/// (Linux, macOS) or local application data (Windows) directory, with a
/// fallback base where the environment does not give it.
pub open spec fn download_dir_of(os: TargetOs, env_base: Option<Seq<char>>) -> Seq<char> {
    match os {
        TargetOs::Linux => join_path_of(
            os,
            match env_base {
                Some(b) => b,
                None => "/tmp"@,
            },
            ".local/share/ra-cl/browser"@,
        ),
        TargetOs::MacOs => join_path_of(
            os,
            match env_base {
                Some(b) => b,
                None => "/tmp"@,
            },
            "Library/Application Support/ra-cl/browser"@,
        ),
        TargetOs::Windows => join_path_of(
            os,
            match env_base {
                Some(b) => b,
                None => "C:\\Users\\Default\\AppData\\Local"@,
            },
            "ra-cl\\browser"@,
        ),
    }
}

/// The character sequence of an optional string slice.
pub open spec fn opt_str_view(s: Option<&str>) -> Option<Seq<char>> {
    match s {
        Some(v) => Some(v@),
        None => None,
    }
}

/// The directory that a downloaded Chromium goes to; `env_base` is the
/// value of `HOME` (Linux, macOS) or `LOCALAPPDATA` (Windows), if set.
pub fn browser_download_dir(os: TargetOs, env_base: Option<&str>) -> (r: String)
    ensures
        r@ == download_dir_of(os, opt_str_view(env_base)),
{
    match os {
        TargetOs::Linux => {
            let base = match env_base {
                Some(b) => b,
                None => "/tmp",
            };
            join_path(os, base, ".local/share/ra-cl/browser")
        },
        TargetOs::MacOs => {
            let base = match env_base {
                Some(b) => b,
                None => "/tmp",
            };
            join_path(os, base, "Library/Application Support/ra-cl/browser")
        },
        TargetOs::Windows => {
            let base = match env_base {
                Some(b) => b,
                None => "C:\\Users\\Default\\AppData\\Local",
            };
            join_path(os, base, "ra-cl\\browser")
        },
    }
}

/// The file, in the download directory, that records where the downloaded
/// browser executable is.
pub fn cached_browser_path_file(os: TargetOs, download_dir: &str) -> (r: String)
    ensures
        r@ == join_path_of(os, download_dir@, "browser_path.txt"@),
{
    join_path(os, download_dir, "browser_path.txt")
}

/// The browser path that the cache file records: its contents trimmed,
/// `None` when that is empty. Whether the path still exists is for the
/// caller to check.
pub fn cached_browser_candidate(cache_content: &str) -> (r: Option<String>)
    ensures
        crate::parser::entity::opt_view(r) == (if trim_of(cache_content@).len() == 0 {
            None::<Seq<char>>
        } else {
            Some(trim_of(cache_content@))
        }),
{
    let t = trim(cache_content);
    if t.as_str().unicode_len() == 0 {
        None
    } else {
        Some(t)
    }
}

/// How a place where a browser may be is probed.
#[derive(Debug, Clone, Copy, PartialEq, Eq, Structural)]
pub enum ProbeKind {
    /// Look the name up through the search path (`which` or `where`).
    Which,
    /// Check that the absolute path exists.
    Exists,
}

/// One place where a browser may be.
#[derive(Debug, Clone)]
pub struct BrowserProbe {
    pub kind: ProbeKind,
    pub target: String,
}

/// The kind and target of each probe.
pub open spec fn probe_views(v: Seq<BrowserProbe>) -> Seq<(ProbeKind, Seq<char>)> {
    v.map_values(|p: BrowserProbe| (p.kind, p.target@))
}

/// Probes of one kind for each of a list of names.
pub open spec fn probes_for(kind: ProbeKind, names: Seq<&'static str>) -> Seq<(ProbeKind, Seq<char>)> {
    names.map_values(|n: &'static str| (kind, n@))
}

/// The user-local Chrome and Chromium installs under a Windows local
/// application data directory.
pub open spec fn local_app_data_paths(lad: Seq<char>) -> Seq<(ProbeKind, Seq<char>)> {
    seq![
        (ProbeKind::Exists, lad + "\\Google\\Chrome\\Application\\chrome.exe"@),
        (ProbeKind::Exists, lad + "\\Chromium\\Application\\chrome.exe"@),
    ]
}

/// The places probed for a browser, in order: each candidate name through
/// the search path, then the known paths of the system, then on Windows the
/// user-local installs when the local application data directory is known.
/// A previously downloaded browser is looked for after all of these.
pub open spec fn browser_probes_of(os: TargetOs, local_app_data: Option<Seq<char>>) -> Seq<
    (ProbeKind, Seq<char>),
> {
    probes_for(ProbeKind::Which, browser_candidate_names()) + probes_for(
        ProbeKind::Exists,
        known_paths_of(os),
    ) + match (os, local_app_data) {
        (TargetOs::Windows, Some(lad)) => local_app_data_paths(lad),
        _ => seq![],
    }
}

fn push_probes(out: &mut Vec<BrowserProbe>, kind: ProbeKind, names: &Vec<&'static str>)
    ensures
        probe_views(final(out)@) == probe_views(old(out)@) + probes_for(kind, names@),
{
    let ghost before = probe_views(out@);
    let mut i: usize = 0;
    while i < names.len()
        invariant
            i <= names@.len(),
            probe_views(out@) == before + probes_for(kind, names@.take(i as int)),
        decreases names@.len() - i,
    {
        let ghost b = probe_views(out@);
        out.push(BrowserProbe { kind, target: String::from_str(names[i]) });
        i = i + 1;
        proof {
            assert(probe_views(out@) =~= b.push((kind, names@[i - 1]@)));
            assert(names@.take(i as int) =~= names@.take(i - 1).push(names@[i - 1]));
            assert(probes_for(kind, names@.take(i as int)) =~= probes_for(kind, names@.take(i - 1)).push(
                (kind, names@[i - 1]@),
            ));
        }
    }
    proof {
        assert(names@.take(names@.len() as int) =~= names@);
    }
}

/// The places probed for a browser, in order; `local_app_data` is the value
/// of `LOCALAPPDATA`, if set.
pub fn browser_probes(os: TargetOs, local_app_data: Option<&str>) -> (r: Vec<BrowserProbe>)
    ensures
        probe_views(r@) == browser_probes_of(os, opt_str_view(local_app_data)),
{
    let mut out: Vec<BrowserProbe> = Vec::new();
    let names = browser_candidates();
    push_probes(&mut out, ProbeKind::Which, &names);
    let known = known_browser_paths(os);
    push_probes(&mut out, ProbeKind::Exists, &known);
    let ghost mid = probe_views(out@);
    match (os, local_app_data) {
        (TargetOs::Windows, Some(lad)) => {
            out.push(
                BrowserProbe {
                    kind: ProbeKind::Exists,
                    target: crate::text::concat(lad, "\\Google\\Chrome\\Application\\chrome.exe"),
                },
            );
            out.push(
                BrowserProbe {
                    kind: ProbeKind::Exists,
                    target: crate::text::concat(lad, "\\Chromium\\Application\\chrome.exe"),
                },
            );
            proof {
                assert(probe_views(out@) =~= mid + local_app_data_paths(lad@));
            }
        },
        _ => {
            proof {
                assert(probe_views(out@) =~= mid + Seq::<(ProbeKind, Seq<char>)>::empty());
            }
        },
    }
    out
}

/// The message given on macOS when Homebrew is not found.
pub const NO_HOMEBREW: &'static str = "Homebrew not found. Install it from https://brew.sh then run:\n  brew install chromium\n  Or install Google Chrome from https://www.google.com/chrome/";

/// The message given on Windows, where no package manager is used.
pub const NO_WINDOWS_PACKAGE_MANAGER: &'static str = "Automatic package-manager install is not supported on Windows.\nChrome/Chromium was downloaded automatically \u{2014} see above.\nAlternatively install manually from:\n  https://www.google.com/chrome/\n  https://www.chromium.org/getting-involved/download-chromium/";

/// The message given on Linux when the package manager fails.
pub const LINUX_INSTALL_FAILED: &'static str = "Package manager exited with a non-zero status. Try running the command manually with sudo.";

/// The message given on macOS when Homebrew fails.
pub const BREW_INSTALL_FAILED: &'static str = "brew install chromium failed. Try running it manually.";

/// The message given on Linux when the installed browser is not found.
pub const LINUX_NOT_LOCATED: &'static str = "Chromium was installed but could not be located. Check that the binary is in PATH.";

/// The message given on macOS when the installed browser is not found.
pub const MACOS_NOT_LOCATED: &'static str = "Chromium was installed but could not be located. Ensure /opt/homebrew/bin (Apple Silicon) or /usr/local/bin (Intel) is in PATH.";

/// The command that installs Chromium through the system's package manager
/// (program first, then its arguments), or the message that says why there
/// is none: on Linux `sudo` with the chosen manager, on macOS Homebrew at the
/// path found for it, on Windows never.
pub open spec fn install_plan_of(
    os: TargetOs,
    method: Option<PackageManager>,
    brew: Option<Seq<char>>,
) -> Result<Seq<Seq<char>>, Seq<char>> {
    match os {
        TargetOs::Linux => match method {
            Some(m) => Ok(
                seq!["sudo"@, manager_command_of(m).0] + manager_command_of(m).1 + seq!["chromium"@],
            ),
            None => Err(NO_PACKAGE_MANAGER@),
        },
        TargetOs::MacOs => match brew {
            Some(b) => Ok(seq![b, "install"@, "chromium"@]),
            None => Err(NO_HOMEBREW@),
        },
        TargetOs::Windows => Err(NO_WINDOWS_PACKAGE_MANAGER@),
    }
}

/// The character sequences of a result of string lists or a message.
pub open spec fn plan_view(r: Result<Vec<String>, String>) -> Result<Seq<Seq<char>>, Seq<char>> {
    match r {
        Ok(v) => Ok(crate::text::string_views(v@)),
        Err(e) => Err(e@),
    }
}

/// The command that installs Chromium through the system's package manager;
/// `method` is the Linux choice of `linux_install_method`, `brew` the path
/// of Homebrew on macOS, if found.
pub fn install_via_package_manager(os: TargetOs, method: Option<PackageManager>, brew: Option<&str>) -> (r: Result<
    Vec<String>,
    String,
>)
    ensures
        plan_view(r) == install_plan_of(os, method, opt_str_view(brew)),
{
    match os {
        TargetOs::Linux => match method {
            Some(m) => {
                let cmd = install_command(m);
                let mut v: Vec<String> = Vec::new();
                v.push(String::from_str("sudo"));
                let mut i: usize = 0;
                while i < cmd.len()
                    invariant
                        i <= cmd@.len(),
                        crate::text::string_views(v@) == seq!["sudo"@] + crate::text::string_views(
                            cmd@.take(i as int),
                        ),
                    decreases cmd@.len() - i,
                {
                    let ghost b = crate::text::string_views(v@);
                    let c = cmd[i].clone();
                    assert(c@ == cmd@[i as int]@);
                    v.push(c);
                    i = i + 1;
                    proof {
                        assert(crate::text::string_views(v@) =~= b.push(cmd@[i - 1]@));
                        assert(cmd@.take(i as int) =~= cmd@.take(i - 1).push(cmd@[i - 1]));
                        assert(crate::text::string_views(cmd@.take(i as int)) =~= crate::text::string_views(cmd@.take(i - 1)).push(cmd@[i - 1]@));
                        assert(crate::text::string_views(v@) =~= seq!["sudo"@]
                            + crate::text::string_views(cmd@.take(i as int)));
                    }
                }
                proof {
                    assert(cmd@.take(cmd@.len() as int) =~= cmd@);
                    assert(crate::text::string_views(v@) =~= seq!["sudo"@, manager_command_of(m).0]
                        + manager_command_of(m).1 + seq!["chromium"@]);
                }
                Ok(v)
            },
            None => Err(String::from_str(NO_PACKAGE_MANAGER)),
        },
        TargetOs::MacOs => match brew {
            Some(b) => {
                let mut v: Vec<String> = Vec::new();
                v.push(String::from_str(b));
                v.push(String::from_str("install"));
                v.push(String::from_str("chromium"));
                proof {
                    assert(crate::text::string_views(v@) =~= seq![b@, "install"@, "chromium"@]);
                }
                Ok(v)
            },
            None => Err(String::from_str(NO_HOMEBREW)),
        },
        TargetOs::Windows => Err(String::from_str(NO_WINDOWS_PACKAGE_MANAGER)),
    }
}

/// What an install through the package manager comes to: the message of
/// the failed install when the command did not succeed; else the browser
/// found afterwards, or the message that it could not be located.
pub open spec fn install_outcome_of(os: TargetOs, succeeded: bool, found: Option<Seq<char>>) -> Result<
    Seq<char>,
    Seq<char>,
> {
    if !succeeded {
        Err(
            match os {
                TargetOs::Linux => LINUX_INSTALL_FAILED@,
                TargetOs::MacOs => BREW_INSTALL_FAILED@,
                TargetOs::Windows => NO_WINDOWS_PACKAGE_MANAGER@,
            },
        )
    } else {
        match found {
            Some(p) => Ok(p),
            None => Err(
                match os {
                    TargetOs::Linux => LINUX_NOT_LOCATED@,
                    TargetOs::MacOs => MACOS_NOT_LOCATED@,
                    TargetOs::Windows => NO_WINDOWS_PACKAGE_MANAGER@,
                },
            ),
        }
    }
}

/// What an install through the package manager comes to, given whether the
/// command succeeded and the browser looked up afterwards.
pub fn install_outcome(os: TargetOs, succeeded: bool, found: Option<&str>) -> (r: Result<String, String>)
    ensures
        match (r, install_outcome_of(os, succeeded, opt_str_view(found))) {
            (Ok(a), Ok(b)) => a@ == b,
            (Err(a), Err(b)) => a@ == b,
            _ => false,
        },
{
    if !succeeded {
        Err(
            String::from_str(
                match os {
                    TargetOs::Linux => LINUX_INSTALL_FAILED,
                    TargetOs::MacOs => BREW_INSTALL_FAILED,
                    TargetOs::Windows => NO_WINDOWS_PACKAGE_MANAGER,
                },
            ),
        )
    } else {
        match found {
            Some(p) => Ok(String::from_str(p)),
            None => Err(
                String::from_str(
                    match os {
                        TargetOs::Linux => LINUX_NOT_LOCATED,
                        TargetOs::MacOs => MACOS_NOT_LOCATED,
                        TargetOs::Windows => NO_WINDOWS_PACKAGE_MANAGER,
                    },
                ),
            ),
        }
    }
}

} // verus!
