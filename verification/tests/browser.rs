use cli_chat::setup::browser::{
    browser_candidates, browser_download_dir, browser_probes, cached_browser_candidate,
    cached_browser_path_file, detect_linux_distro, install_command, install_outcome,
    install_via_package_manager, join_path, known_browser_paths, linux_install_method,
    printed_path, AvailableManagers, PackageManager, ProbeKind, TargetOs, BREW_INSTALL_FAILED,
    LINUX_INSTALL_FAILED, LINUX_NOT_LOCATED, NO_HOMEBREW, NO_PACKAGE_MANAGER,
    NO_WINDOWS_PACKAGE_MANAGER,
};

fn managers(pacman: bool, dnf: bool, zypper: bool, apt_get: bool) -> AvailableManagers {
    AvailableManagers { pacman, dnf, zypper, apt_get }
}

#[test]
fn distro_prefers_family() {
    let arch_like = "NAME=\"EndeavourOS\"\nID=endeavouros\nID_LIKE=\"Arch\"\n";
    assert_eq!(detect_linux_distro(arch_like), "arch");
    assert_eq!(detect_linux_distro("ID=\"Fedora\"\nVERSION_ID=40\n"), "fedora");
    assert_eq!(detect_linux_distro(""), "");
}

#[test]
fn package_manager_choice() {
    let all = managers(true, true, true, true);
    assert_eq!(linux_install_method("nixos", all), None);
    assert_eq!(linux_install_method("arch", all), Some(PackageManager::Pacman));
    assert_eq!(linux_install_method("rhel fedora", all), Some(PackageManager::Dnf));
    assert_eq!(linux_install_method("opensuse-tumbleweed", all), Some(PackageManager::Zypper));
    assert_eq!(linux_install_method("debian", all), Some(PackageManager::AptGet));
    assert_eq!(linux_install_method("arch", managers(false, false, false, true)), Some(PackageManager::AptGet));
    assert_eq!(linux_install_method("gentoo", managers(false, true, true, false)), Some(PackageManager::Dnf));
    assert_eq!(linux_install_method("gentoo", managers(false, false, false, false)), None);
    assert_eq!(install_command(PackageManager::Pacman), vec!["pacman", "-S", "--noconfirm", "chromium"]);
}

#[test]
fn lookup_output_and_cache() {
    assert_eq!(printed_path("/usr/bin/chromium\n/other\n").as_deref(), Some("/usr/bin/chromium"));
    assert_eq!(printed_path("  \n"), None);
    assert_eq!(cached_browser_candidate("  /opt/chrome/chrome \n").as_deref(), Some("/opt/chrome/chrome"));
    assert_eq!(cached_browser_candidate("\n"), None);
}

#[test]
fn download_locations() {
    assert_eq!(join_path(TargetOs::Linux, "/home/u", "x"), "/home/u/x");
    assert_eq!(join_path(TargetOs::Linux, "/home/u/", "x"), "/home/u/x");
    assert_eq!(join_path(TargetOs::Windows, "C:\\a", "b"), "C:\\a\\b");
    assert_eq!(join_path(TargetOs::Linux, "", "x"), "x");
    assert_eq!(browser_download_dir(TargetOs::Linux, Some("/home/u")), "/home/u/.local/share/ra-cl/browser");
    assert_eq!(browser_download_dir(TargetOs::Linux, None), "/tmp/.local/share/ra-cl/browser");
    assert_eq!(
        browser_download_dir(TargetOs::MacOs, Some("/Users/u")),
        "/Users/u/Library/Application Support/ra-cl/browser"
    );
    assert_eq!(
        browser_download_dir(TargetOs::Windows, None),
        "C:\\Users\\Default\\AppData\\Local\\ra-cl\\browser"
    );
    assert_eq!(cached_browser_path_file(TargetOs::Linux, "/d"), "/d/browser_path.txt");
}

#[test]
fn probes_in_order() {
    let linux = browser_probes(TargetOs::Linux, None);
    assert_eq!(linux.len(), browser_candidates().len() + known_browser_paths(TargetOs::Linux).len());
    assert_eq!(linux[0].kind, ProbeKind::Which);
    assert_eq!(linux[0].target, "google-chrome");
    assert_eq!(linux[4].kind, ProbeKind::Exists);
    assert_eq!(linux[4].target, "/usr/bin/google-chrome");
    let win = browser_probes(TargetOs::Windows, Some("C:\\L"));
    assert_eq!(win.len(), 4 + 4 + 2);
    assert_eq!(win[8].target, "C:\\L\\Google\\Chrome\\Application\\chrome.exe");
    assert_eq!(win[9].target, "C:\\L\\Chromium\\Application\\chrome.exe");
    assert_eq!(browser_probes(TargetOs::MacOs, Some("x")).len(), 4 + 5);
}

#[test]
fn install_plans_and_outcomes() {
    assert_eq!(
        install_via_package_manager(TargetOs::Linux, Some(PackageManager::AptGet), None),
        Ok(vec!["sudo".to_string(), "apt-get".to_string(), "install".to_string(), "-y".to_string(), "chromium".to_string()])
    );
    assert_eq!(install_via_package_manager(TargetOs::Linux, None, None), Err(NO_PACKAGE_MANAGER.to_string()));
    assert_eq!(
        install_via_package_manager(TargetOs::MacOs, None, Some("/opt/homebrew/bin/brew")),
        Ok(vec!["/opt/homebrew/bin/brew".to_string(), "install".to_string(), "chromium".to_string()])
    );
    assert_eq!(install_via_package_manager(TargetOs::MacOs, None, None), Err(NO_HOMEBREW.to_string()));
    assert_eq!(
        install_via_package_manager(TargetOs::Windows, Some(PackageManager::Dnf), Some("b")),
        Err(NO_WINDOWS_PACKAGE_MANAGER.to_string())
    );
    assert_eq!(install_outcome(TargetOs::Linux, false, Some("/x")), Err(LINUX_INSTALL_FAILED.to_string()));
    assert_eq!(install_outcome(TargetOs::MacOs, false, None), Err(BREW_INSTALL_FAILED.to_string()));
    assert_eq!(install_outcome(TargetOs::Linux, true, None), Err(LINUX_NOT_LOCATED.to_string()));
    assert_eq!(install_outcome(TargetOs::MacOs, true, Some("/c")), Ok("/c".to_string()));
}
