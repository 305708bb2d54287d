use mole_rs::distro::{
    detect_distro, detect_package_manager, distro_from_id, extract_value, parse_os_release,
    AvailableCommands, Distro, DistroInfo, HostFacts, PackageManager,
};

fn no_commands() -> AvailableCommands {
    AvailableCommands {
        apt_get: false,
        dnf: false,
        yum: false,
        pacman: false,
        zypper: false,
        apk: false,
        snap: false,
        flatpak: false,
    }
}

fn bare_host() -> HostFacts {
    HostFacts {
        os_release: None,
        lsb_release: None,
        has_debian_version: false,
        has_fedora_release: false,
        has_arch_release: false,
        commands: no_commands(),
    }
}

const UBUNTU: &str = "\nNAME=\"Ubuntu\"\nVERSION=\"22.04.3 LTS (Jammy Jellyfish)\"\nID=ubuntu\nVERSION_ID=\"22.04\"\n";

const FEDORA: &str = "\nNAME=\"Fedora Linux\"\nVERSION=\"39 (Workstation Edition)\"\nID=fedora\nVERSION_ID=39\n";

#[test]
fn test_detect_distro() {
    let mut facts = bare_host();
    facts.os_release = Some(UBUNTU.to_string());
    facts.commands.apt_get = true;
    facts.commands.snap = true;
    let info = DistroInfo::detect(&facts);
    // Should detect something
    println!("Detected: {} ({:?})", info.distro.name(), info.package_manager);
    assert_eq!(info.distro, Distro::Ubuntu);
    assert_eq!(info.version, Some("22.04".to_string()));
    assert_eq!(info.package_manager, PackageManager::Apt);
    assert!(info.has_snap);
    assert!(!info.has_flatpak);
}

#[test]
fn test_parse_ubuntu_os_release() {
    let content = r#"
NAME="Ubuntu"
VERSION="22.04.3 LTS (Jammy Jellyfish)"
ID=ubuntu
VERSION_ID="22.04"
"#;
    let (distro, version) = parse_os_release(content);
    assert_eq!(distro, Distro::Ubuntu);
    assert_eq!(version, Some("22.04".to_string()));
}

#[test]
fn test_parse_fedora_os_release() {
    let content = r#"
NAME="Fedora Linux"
VERSION="39 (Workstation Edition)"
ID=fedora
VERSION_ID=39
"#;
    let (distro, version) = parse_os_release(content);
    assert_eq!(distro, Distro::Fedora);
    assert_eq!(version, Some("39".to_string()));
}

#[test]
fn test_package_manager_commands() {
    let apt = PackageManager::Apt;
    assert!(apt.clean_cache_cmd().is_some());
    assert!(apt.autoremove_cmd().is_some());

    let dnf = PackageManager::Dnf;
    assert!(dnf.clean_cache_cmd().is_some());
}

#[test]
fn os_release_id_is_read_without_regard_to_case() {
    let (distro, version) = parse_os_release("ID=Ubuntu\nVERSION_ID=24.04\n");
    assert_eq!(distro, Distro::Ubuntu);
    assert_eq!(version, Some("24.04".to_string()));
    let (distro, _) = parse_os_release("ID=\"RHEL\"\n");
    assert_eq!(distro, Distro::RHEL);
    let (distro, _) = parse_os_release("ID=openSUSE-Leap\n");
    assert_eq!(distro, Distro::OpenSUSE);
}

#[test]
fn os_release_of_every_known_distribution() {
    let known = [
        ("ubuntu", Distro::Ubuntu),
        ("debian", Distro::Debian),
        ("fedora", Distro::Fedora),
        ("centos", Distro::CentOS),
        ("rhel", Distro::RHEL),
        ("arch", Distro::Arch),
        ("manjaro", Distro::Manjaro),
        ("opensuse", Distro::OpenSUSE),
        ("opensuse-leap", Distro::OpenSUSE),
        ("opensuse-tumbleweed", Distro::OpenSUSE),
        ("alpine", Distro::Alpine),
        ("gentoo", Distro::Gentoo),
    ];
    for (id, distro) in known {
        assert_eq!(parse_os_release(&format!("ID={}\n", id)).0, distro);
        assert_eq!(distro_from_id(id, Some("Name".to_string())), distro);
    }
}

#[test]
fn unknown_distribution_goes_by_its_name() {
    let (distro, version) = parse_os_release("NAME=\"Void Linux\"\nID=void\n");
    assert_eq!(distro, Distro::Unknown("Void Linux".to_string()));
    assert_eq!(version, None);
    let (distro, _) = parse_os_release("ID=Void\n");
    assert_eq!(distro, Distro::Unknown("void".to_string()));
    let (distro, _) = parse_os_release("");
    assert_eq!(distro, Distro::Unknown("".to_string()));
    assert_eq!(distro_from_id("ubuntu2", None), Distro::Unknown("ubuntu2".to_string()));
}

#[test]
fn values_are_extracted_from_the_first_matching_line() {
    assert_eq!(extract_value("A=1\nB=2\nA=3", "A"), Some("1".to_string()));
    assert_eq!(extract_value("A=1\nB=2", "B"), Some("2".to_string()));
    assert_eq!(extract_value("A=1", "C"), None);
    assert_eq!(extract_value("", "A"), None);
    assert_eq!(extract_value("KEY=\"quoted value\"", "KEY"), Some("quoted value".to_string()));
    assert_eq!(extract_value("KEY=\"\"\"x\"\"", "KEY"), Some("x".to_string()));
    assert_eq!(extract_value("KEY=a=b=c", "KEY"), Some("a".to_string()));
    assert_eq!(extract_value("KEY=", "KEY"), Some("".to_string()));
    assert_eq!(extract_value("KEY\nKEY=v", "KEY"), Some("v".to_string()));
    assert_eq!(extract_value("KEY=v\r\nX=1", "KEY"), Some("v".to_string()));
}

#[test]
fn keys_match_as_prefixes() {
    assert_eq!(extract_value("VERSION_ID=39\nVERSION=40", "VERSION"), Some("39".to_string()));
    assert_eq!(extract_value("ID_LIKE=debian\nID=ubuntu", "ID"), Some("debian".to_string()));
    assert_eq!(extract_value(" ID=ubuntu", "ID"), None);
}

#[test]
fn detection_falls_back_step_by_step() {
    let mut facts = bare_host();
    assert_eq!(detect_distro(&facts), (Distro::Unknown("Linux".to_string()), None));

    facts.has_arch_release = true;
    assert_eq!(detect_distro(&facts), (Distro::Arch, None));
    facts.has_fedora_release = true;
    assert_eq!(detect_distro(&facts), (Distro::Fedora, None));
    facts.has_debian_version = true;
    assert_eq!(detect_distro(&facts), (Distro::Debian, None));

    facts.lsb_release = Some("DISTRIB_ID=Mint\nDISTRIB_RELEASE=21\n".to_string());
    assert_eq!(detect_distro(&facts), (Distro::Debian, None));
    facts.lsb_release = Some("DISTRIB_ID=Ubuntu\nDISTRIB_RELEASE=12.04\n".to_string());
    assert_eq!(detect_distro(&facts), (Distro::Ubuntu, Some("12.04".to_string())));

    facts.os_release = Some(FEDORA.to_string());
    assert_eq!(detect_distro(&facts), (Distro::Fedora, Some("39".to_string())));
}

#[test]
fn package_manager_follows_the_distribution() {
    let none = no_commands();
    assert_eq!(detect_package_manager(&Distro::Ubuntu, &none), PackageManager::Apt);
    assert_eq!(detect_package_manager(&Distro::Debian, &none), PackageManager::Apt);
    assert_eq!(detect_package_manager(&Distro::Fedora, &none), PackageManager::Dnf);
    assert_eq!(detect_package_manager(&Distro::CentOS, &none), PackageManager::Yum);
    assert_eq!(detect_package_manager(&Distro::RHEL, &none), PackageManager::Yum);
    assert_eq!(detect_package_manager(&Distro::Arch, &none), PackageManager::Pacman);
    assert_eq!(detect_package_manager(&Distro::Manjaro, &none), PackageManager::Pacman);
    assert_eq!(detect_package_manager(&Distro::OpenSUSE, &none), PackageManager::Zypper);
    assert_eq!(detect_package_manager(&Distro::Alpine, &none), PackageManager::Apk);
    assert_eq!(detect_package_manager(&Distro::Gentoo, &none), PackageManager::Portage);
    let mut with_dnf = no_commands();
    with_dnf.dnf = true;
    assert_eq!(detect_package_manager(&Distro::CentOS, &with_dnf), PackageManager::Dnf);
    assert_eq!(detect_package_manager(&Distro::RHEL, &with_dnf), PackageManager::Dnf);
}

#[test]
fn unknown_distribution_takes_the_first_manager_at_hand() {
    let unknown = Distro::Unknown("Linux".to_string());
    let mut commands = no_commands();
    assert_eq!(detect_package_manager(&unknown, &commands), PackageManager::Unknown);
    commands.apk = true;
    assert_eq!(detect_package_manager(&unknown, &commands), PackageManager::Apk);
    commands.zypper = true;
    assert_eq!(detect_package_manager(&unknown, &commands), PackageManager::Zypper);
    commands.pacman = true;
    assert_eq!(detect_package_manager(&unknown, &commands), PackageManager::Pacman);
    commands.yum = true;
    assert_eq!(detect_package_manager(&unknown, &commands), PackageManager::Yum);
    commands.dnf = true;
    assert_eq!(detect_package_manager(&unknown, &commands), PackageManager::Dnf);
    commands.apt_get = true;
    assert_eq!(detect_package_manager(&unknown, &commands), PackageManager::Apt);
}

#[test]
fn package_manager_command_lines() {
    assert_eq!(PackageManager::Apt.clean_cache_cmd(), Some(vec!["apt-get", "clean"]));
    assert_eq!(PackageManager::Dnf.clean_cache_cmd(), Some(vec!["dnf", "clean", "all"]));
    assert_eq!(PackageManager::Yum.clean_cache_cmd(), Some(vec!["yum", "clean", "all"]));
    assert_eq!(
        PackageManager::Pacman.clean_cache_cmd(),
        Some(vec!["pacman", "-Sc", "--noconfirm"])
    );
    assert_eq!(PackageManager::Zypper.clean_cache_cmd(), Some(vec!["zypper", "clean", "--all"]));
    assert_eq!(PackageManager::Apk.clean_cache_cmd(), Some(vec!["apk", "cache", "clean"]));
    assert_eq!(PackageManager::Portage.clean_cache_cmd(), None);
    assert_eq!(PackageManager::Unknown.clean_cache_cmd(), None);

    assert_eq!(PackageManager::Apt.autoremove_cmd(), Some(vec!["apt-get", "autoremove", "-y"]));
    assert_eq!(
        PackageManager::Pacman.autoremove_cmd(),
        Some(vec!["pacman", "-Rns", "$(pacman -Qdtq)", "--noconfirm"])
    );
    assert_eq!(PackageManager::Zypper.autoremove_cmd(), None);
    assert_eq!(PackageManager::Apk.autoremove_cmd(), None);
    assert_eq!(PackageManager::Portage.autoremove_cmd(), Some(vec!["emerge", "--depclean"]));
    assert_eq!(PackageManager::Unknown.autoremove_cmd(), None);

    assert_eq!(
        PackageManager::Apt.list_packages_cmd(),
        Some(vec!["dpkg-query", "-W", "-f", "${Package}\t${Installed-Size}\n"])
    );
    assert_eq!(
        PackageManager::Dnf.list_packages_cmd(),
        Some(vec!["rpm", "-qa", "--queryformat", "%{NAME}\t%{SIZE}\n"])
    );
    assert_eq!(PackageManager::Dnf.list_packages_cmd(), PackageManager::Yum.list_packages_cmd());
    assert_eq!(PackageManager::Pacman.list_packages_cmd(), Some(vec!["pacman", "-Q"]));
    assert_eq!(PackageManager::Zypper.list_packages_cmd(), Some(vec!["rpm", "-qa"]));
    assert_eq!(PackageManager::Portage.list_packages_cmd(), Some(vec!["qlist", "-I"]));
    assert_eq!(PackageManager::Unknown.list_packages_cmd(), None);
}

#[test]
fn package_manager_cache_paths_and_labels() {
    assert_eq!(PackageManager::Apt.cache_paths(), vec!["/var/cache/apt/archives"]);
    assert_eq!(PackageManager::Dnf.cache_paths(), vec!["/var/cache/dnf"]);
    assert_eq!(PackageManager::Yum.cache_paths(), vec!["/var/cache/yum"]);
    assert_eq!(PackageManager::Pacman.cache_paths(), vec!["/var/cache/pacman/pkg"]);
    assert_eq!(PackageManager::Zypper.cache_paths(), vec!["/var/cache/zypp"]);
    assert_eq!(PackageManager::Apk.cache_paths(), vec!["/var/cache/apk"]);
    assert_eq!(PackageManager::Portage.cache_paths(), vec!["/var/cache/distfiles"]);
    assert!(PackageManager::Unknown.cache_paths().is_empty());
    assert_eq!(PackageManager::Apt.label(), "Apt");
    assert_eq!(PackageManager::Portage.label(), "Portage");
    assert_eq!(PackageManager::Unknown.label(), "Unknown");
}

#[test]
fn distribution_names_and_families() {
    assert_eq!(Distro::Ubuntu.name(), "Ubuntu");
    assert_eq!(Distro::RHEL.name(), "Red Hat Enterprise Linux");
    assert_eq!(Distro::Arch.name(), "Arch Linux");
    assert_eq!(Distro::OpenSUSE.name(), "openSUSE");
    assert_eq!(Distro::Alpine.name(), "Alpine Linux");
    assert_eq!(Distro::Unknown("Void".to_string()).name(), "Void");

    let mut facts = bare_host();
    facts.os_release = Some("ID=debian\n".to_string());
    let info = DistroInfo::detect(&facts);
    assert!(info.is_debian_based());
    assert!(!info.is_redhat_based());
    assert!(!info.is_arch_based());

    facts.os_release = Some("ID=centos\n".to_string());
    facts.commands.flatpak = true;
    let info = DistroInfo::detect(&facts);
    assert!(info.is_redhat_based());
    assert!(!info.is_debian_based());
    assert_eq!(info.package_manager, PackageManager::Yum);
    assert!(info.has_flatpak);

    facts.os_release = Some("ID=manjaro\n".to_string());
    let info = DistroInfo::detect(&facts);
    assert!(info.is_arch_based());
    assert!(!info.is_redhat_based());
}
