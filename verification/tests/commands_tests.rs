use mole_rs::commands::analyze::{self, DirEntry};
use mole_rs::commands::clean::{self, scan_categories, CleanupCategory, MeasuredCache};
use mole_rs::commands::optimize::{
    available_tasks, build_tasks, disabled_snaps, OptimizeTask, TaskAction,
};
use mole_rs::commands::purge::{
    age_label, calculate_age, collect_artifacts, WalkedDir, has_marker, is_present, scan_artifacts, selection, FoundArtifact, Selection,
};
use mole_rs::commands::uninstall::{
    entry_matches, find_apps, find_leftovers, generate_search_patterns, get_leftover_locations,
    normalize_app_name, scan_dpkg_apps, scan_flatpak_apps, scan_installed_apps, scan_snap_names,
    snap_app, AppType, InstalledApp, LeftoverFile, LeftoverType,
};
use mole_rs::distro::{Distro, DistroInfo, PackageManager};
use mole_rs::paths::DevArtifacts;

fn measured(name: &str, size: u64) -> MeasuredCache {
    MeasuredCache { name: name.to_string(), path: format!("/p/{}", name), size }
}

fn category(name: &str, size: u64, requires_sudo: bool) -> CleanupCategory {
    CleanupCategory {
        name: name.to_string(),
        path: format!("/p/{}", name),
        size,
        requires_sudo,
        selected: true,
    }
}

fn entry(name: &str, size: u64, is_dir: bool) -> DirEntry {
    DirEntry { path: format!("/d/{}", name), name: name.to_string(), size, is_dir }
}

fn names(list: &[&str]) -> Vec<String> {
    list.iter().map(|s| s.to_string()).collect()
}

fn host(pm: PackageManager, has_snap: bool, has_flatpak: bool) -> DistroInfo {
    DistroInfo { distro: Distro::Ubuntu, version: None, package_manager: pm, has_snap, has_flatpak }
}

fn command(program: &str, args: &[&str]) -> Option<(String, Vec<String>)> {
    Some((program.to_string(), names(args)))
}

fn app(name: &str, app_type: AppType) -> InstalledApp {
    InstalledApp {
        name: name.to_string(),
        path: format!("/apps/{}", name),
        size: 1,
        app_type,
        leftovers: Vec::new(),
    }
}

#[test]
fn categories_are_sorted_by_size() {
    let user = vec![measured("a", 10), measured("b", 0), measured("c", 300), measured("d", 10)];
    let system = vec![measured("s", 50), measured("t", 0)];
    assert_eq!(
        scan_categories(&user, &system, false),
        vec![category("c", 300, false), category("a", 10, false), category("d", 10, false)]
    );
    assert_eq!(
        scan_categories(&user, &system, true),
        vec![
            category("c", 300, false),
            category("s", 50, true),
            category("a", 10, false),
            category("d", 10, false)
        ]
    );
    assert_eq!(scan_categories(&Vec::new(), &system, false), Vec::new());
    assert_eq!(scan_categories(&Vec::new(), &Vec::new(), true), Vec::new());
}

#[test]
fn category_sizes_add_up() {
    let list = vec![category("a", 10, false), category("b", 32, true)];
    assert_eq!(clean::total_size(&list), 42);
    assert_eq!(clean::total_size(&Vec::new()), 0);
    let huge = vec![category("a", u64::MAX, false), category("b", 32, true)];
    assert_eq!(clean::total_size(&huge), u64::MAX);
}

#[test]
fn directory_entries_are_sorted_by_size() {
    let entries = vec![
        entry("small", 1, false),
        entry("big", 900, true),
        entry("mid-first", 50, false),
        entry("mid-second", 50, true),
        entry("empty", 0, true),
    ];
    assert_eq!(
        analyze::scan_directory(&entries),
        vec![
            entry("big", 900, true),
            entry("mid-first", 50, false),
            entry("mid-second", 50, true),
            entry("small", 1, false),
            entry("empty", 0, true),
        ]
    );
    assert_eq!(analyze::scan_directory(&Vec::new()), Vec::new());
    assert_eq!(analyze::total_size(&entries), 1001);
}

#[test]
fn age_is_counted_in_whole_days() {
    assert_eq!(calculate_age(None), 0);
    assert_eq!(calculate_age(Some(0)), 0);
    assert_eq!(calculate_age(Some(86399)), 0);
    assert_eq!(calculate_age(Some(86400)), 1);
    assert_eq!(calculate_age(Some(8 * 86400 + 5)), 8);
    assert_eq!(calculate_age(Some(u64::MAX)), u64::MAX / 86400);
}

#[test]
fn artifacts_need_their_marker_files() {
    let artifacts = DevArtifacts::new();
    let node = names(&["package.json", "src", "node_modules"]);
    assert_eq!(artifacts.matching("node_modules", &node), vec![0]);
    assert_eq!(artifacts.matching("node_modules", &names(&["src"])), Vec::<usize>::new());
    assert_eq!(artifacts.matching("target", &names(&["Cargo.toml"])), vec![1]);
    assert_eq!(artifacts.matching("target", &names(&["pom.xml"])), vec![6]);
    assert_eq!(artifacts.matching("target", &names(&["pom.xml", "Cargo.toml"])), vec![1, 6]);
    assert_eq!(artifacts.matching("venv", &names(&["setup.py"])), vec![2]);
    assert_eq!(artifacts.matching(".venv", &names(&["pyproject.toml"])), vec![3]);
    assert_eq!(artifacts.matching("__pycache__", &Vec::new()), vec![4]);
    assert_eq!(artifacts.matching("build", &names(&["build.gradle.kts"])), vec![5]);
    assert_eq!(artifacts.matching(".next", &names(&["next.config.mjs"])), vec![7]);
    assert_eq!(artifacts.matching(".nuxt", &names(&["nuxt.config.ts"])), vec![8]);
    assert_eq!(artifacts.matching("src", &node), Vec::<usize>::new());
    assert_eq!(artifacts.matching("Target", &names(&["Cargo.toml"])), Vec::<usize>::new());
    assert!(is_present("a", &names(&["b", "a"])));
    assert!(!is_present("a", &names(&["ab", "A"])));
    assert!(has_marker(&vec!["x", "y"], &names(&["y"])));
    assert!(!has_marker(&vec![], &names(&["y"])));
}

#[test]
fn artifacts_older_than_a_week_are_selected() {
    let old = FoundArtifact::new(
        Some("my-node-app".to_string()),
        "Node.js",
        "/w/my-node-app/node_modules".to_string(),
        20,
        8,
    );
    assert_eq!(
        old,
        FoundArtifact {
            project_name: "my-node-app".to_string(),
            artifact_type: "Node.js".to_string(),
            path: "/w/my-node-app/node_modules".to_string(),
            size: 20,
            age_days: 8,
            selected: true,
        }
    );
    let week = FoundArtifact::new(None, "Rust", "/target".to_string(), 5000, 7);
    assert_eq!(week.project_name, "unknown");
    assert!(!week.selected);
    assert!(!FoundArtifact::new(None, "Rust", "/target".to_string(), 1, 0).selected);
}

#[test]
fn found_artifacts_are_sorted_and_summed() {
    let found = vec![
        FoundArtifact::new(Some("a".to_string()), "Node.js", "/a".to_string(), 20, 30),
        FoundArtifact::new(Some("b".to_string()), "Rust", "/b".to_string(), 5000, 1),
        FoundArtifact::new(Some("c".to_string()), "Maven", "/c".to_string(), 5000, 9),
        FoundArtifact::new(Some("d".to_string()), "Python cache", "/d".to_string(), 500, 100),
    ];
    let sorted = scan_artifacts(&found);
    let order: Vec<&str> = sorted.iter().map(|a| a.project_name.as_str()).collect();
    assert_eq!(order, vec!["b", "c", "d", "a"]);
    assert_eq!(sorted[0], found[1]);
    assert_eq!(selection(&sorted), Selection { count: 3, total_size: 5520 });
    assert_eq!(selection(&Vec::new()), Selection { count: 0, total_size: 0 });
}

#[test]
fn tasks_for_an_apt_host() {
    let tasks = build_tasks(&host(PackageManager::Apt, true, true), true);
    let expected = vec![
        OptimizeTask {
            name: "Clear thumbnail cache".to_string(),
            description: "Remove cached thumbnails".to_string(),
            requires_sudo: false,
            command: None,
            action: Some(TaskAction::ClearThumbnails),
        },
        OptimizeTask {
            name: "Update font cache".to_string(),
            description: "Rebuild font cache".to_string(),
            requires_sudo: false,
            command: command("fc-cache", &["-f"]),
            action: None,
        },
        OptimizeTask {
            name: "Clear Apt cache".to_string(),
            description: "Remove downloaded package files".to_string(),
            requires_sudo: true,
            command: command("apt-get", &["clean"]),
            action: None,
        },
        OptimizeTask {
            name: "Remove orphan packages".to_string(),
            description: "Remove unused dependencies".to_string(),
            requires_sudo: true,
            command: command("apt-get", &["autoremove", "-y"]),
            action: None,
        },
        OptimizeTask {
            name: "Vacuum journal logs".to_string(),
            description: "Limit journal size to 100M".to_string(),
            requires_sudo: true,
            command: command("journalctl", &["--vacuum-size=100M"]),
            action: None,
        },
        OptimizeTask {
            name: "Clean old snap revisions".to_string(),
            description: "Remove disabled snap versions".to_string(),
            requires_sudo: true,
            command: None,
            action: Some(TaskAction::CleanOldSnaps),
        },
        OptimizeTask {
            name: "Clean unused Flatpak runtimes".to_string(),
            description: "Remove unused Flatpak dependencies".to_string(),
            requires_sudo: false,
            command: command("flatpak", &["uninstall", "--unused", "-y"]),
            action: None,
        },
    ];
    assert_eq!(tasks, expected);
    assert_eq!(available_tasks(&tasks, false), vec![0, 1, 6]);
    assert_eq!(available_tasks(&tasks, true), vec![0, 1, 2, 3, 4, 5, 6]);
}

#[test]
fn tasks_depend_on_the_package_manager() {
    let task_names = |pm: PackageManager| -> Vec<String> {
        build_tasks(&host(pm, false, false), false).into_iter().map(|t| t.name).collect()
    };
    assert_eq!(task_names(PackageManager::Unknown), names(&["Clear thumbnail cache", "Update font cache"]));
    assert_eq!(
        task_names(PackageManager::Pacman),
        names(&["Clear thumbnail cache", "Update font cache", "Clear Pacman cache"])
    );
    assert_eq!(
        task_names(PackageManager::Zypper),
        names(&["Clear thumbnail cache", "Update font cache", "Clear Zypper cache"])
    );
    assert_eq!(
        task_names(PackageManager::Portage),
        names(&["Clear thumbnail cache", "Update font cache", "Remove orphan packages"])
    );
    assert_eq!(
        task_names(PackageManager::Dnf),
        names(&[
            "Clear thumbnail cache",
            "Update font cache",
            "Clear Dnf cache",
            "Remove orphan packages"
        ])
    );
    let pacman = build_tasks(&host(PackageManager::Pacman, false, false), false);
    assert_eq!(pacman[2].command, command("pacman", &["-Sc", "--noconfirm"]));
    let portage = build_tasks(&host(PackageManager::Portage, false, true), false);
    assert_eq!(portage[2].command, command("emerge", &["--depclean"]));
    assert_eq!(portage[3].name, "Clean unused Flatpak runtimes");
    assert_eq!(available_tasks(&Vec::new(), true), Vec::<usize>::new());
}

#[test]
fn disabled_snap_revisions_are_read() {
    let output = "Name     Version  Rev   Tracking       Publisher   Notes\n\
                  core20   20230801 2015  latest/stable  canonical   disabled\n\
                  core20   20231123 2105  latest/stable  canonical   base\n\
                  firefox  120.0    3416  latest/stable  mozilla     disabled\n\
                  short    line\n\
                  \n";
    assert_eq!(
        disabled_snaps(output),
        vec![
            ("core20".to_string(), "2015".to_string()),
            ("firefox".to_string(), "3416".to_string())
        ]
    );
    assert_eq!(disabled_snaps(""), Vec::new());
    assert_eq!(disabled_snaps("a b c d e disabled\n"), Vec::new());
    assert_eq!(
        disabled_snaps("header\n\ta\tb  c d e\u{a0}disabled x\n"),
        vec![("a".to_string(), "c".to_string())]
    );
}

#[test]
fn app_names_are_normalized() {
    assert_eq!(normalize_app_name("Google-Chrome_Beta 2"), "googlechromebeta2");
    assert_eq!(normalize_app_name("firefox"), "firefox");
    assert_eq!(normalize_app_name("VS Code"), "vscode");
    assert_eq!(normalize_app_name("- _"), "");
    assert_eq!(normalize_app_name("\u{c9}t\u{e9}"), "\u{e9}t\u{e9}");
}

#[test]
fn search_patterns_add_a_short_form() {
    assert_eq!(generate_search_patterns("firefox"), names(&["firefox", "firef"]));
    assert_eq!(generate_search_patterns("gimp5"), names(&["gimp5", "gimp5"]));
    assert_eq!(generate_search_patterns("gimp"), names(&["gimp"]));
    assert_eq!(generate_search_patterns(""), names(&[""]));
}

#[test]
fn leftovers_are_found_by_name() {
    let patterns = generate_search_patterns("firefox");
    assert!(entry_matches("firefox", &patterns));
    assert!(entry_matches("org.mozilla.firefox", &patterns));
    assert!(entry_matches("firefly", &patterns));
    assert!(!entry_matches("fire", &patterns));
    assert!(!entry_matches("chromium", &patterns));
    assert!(!entry_matches("", &patterns));
    let found = find_leftovers(
        "Fire-Fox",
        &names(&["chromium", "Firefox", "org.mozilla.FIREFOX", "firewall", "myfirefly"]),
    );
    assert_eq!(found, vec![1, 2, 4]);
    assert_eq!(find_leftovers("gimp", &names(&["GIMP", "gimp-2.10", "gim"])), vec![0, 1]);
    assert_eq!(find_leftovers("gimp", &Vec::new()), Vec::<usize>::new());
}

#[test]
fn leftover_locations_for_a_home() {
    let places = get_leftover_locations(Some("/home/alice"));
    let expect = |p: &str, t: LeftoverType| (p.to_string(), t);
    assert_eq!(
        places,
        vec![
            expect("/home/alice/.config", LeftoverType::Config),
            expect("/etc", LeftoverType::Config),
            expect("/home/alice/.cache", LeftoverType::Cache),
            expect("/var/cache", LeftoverType::Cache),
            expect("/home/alice/.local/share", LeftoverType::Data),
            expect("/var/lib", LeftoverType::Data),
            expect("/home/alice/.local/share", LeftoverType::Log),
            expect("/var/log", LeftoverType::Log),
            expect("/home/alice/.local/share/applications", LeftoverType::Desktop),
            expect("/usr/share/applications", LeftoverType::Desktop),
            expect("/home/alice/.config/autostart", LeftoverType::Autostart),
        ]
    );
    assert_eq!(get_leftover_locations(None)[0].0, "./.config");
}

#[test]
fn type_labels() {
    assert_eq!(AppType::Deb.label(), "deb");
    assert_eq!(AppType::Snap.label(), "snap");
    assert_eq!(AppType::Flatpak.label(), "flatpak");
    assert_eq!(AppType::AppImage.label(), "AppImage");
    assert_eq!(AppType::Manual.label(), "manual");
    assert_eq!(LeftoverType::Config.label(), "config");
    assert_eq!(LeftoverType::Cache.label(), "cache");
    assert_eq!(LeftoverType::Data.label(), "data");
    assert_eq!(LeftoverType::Log.label(), "log");
    assert_eq!(LeftoverType::Desktop.label(), "desktop");
    assert_eq!(LeftoverType::Autostart.label(), "autostart");
}

#[test]
fn dpkg_listing_is_read() {
    let apps = scan_dpkg_apps("firefox\t1024\nvim\t+3\nbroken\nodd\tx12\nhuge\t18446744073709551615\nzero\t\n");
    let rows: Vec<(&str, &str, u64)> =
        apps.iter().map(|a| (a.name.as_str(), a.path.as_str(), a.size)).collect();
    assert_eq!(
        rows,
        vec![
            ("firefox", "/var/lib/dpkg/info/firefox.list", 1024 * 1024),
            ("vim", "/var/lib/dpkg/info/vim.list", 3 * 1024),
            ("odd", "/var/lib/dpkg/info/odd.list", 0),
            ("huge", "/var/lib/dpkg/info/huge.list", u64::MAX),
            ("zero", "/var/lib/dpkg/info/zero.list", 0),
        ]
    );
    assert!(apps.iter().all(|a| a.app_type == AppType::Deb && a.leftovers.is_empty()));
    assert_eq!(scan_dpkg_apps(""), Vec::new());
}

#[test]
fn flatpak_and_snap_listings_are_read() {
    let flatpaks = scan_flatpak_apps("org.gimp.GIMP\tGIMP\t300 MB\nnotabs\norg.x.Y\tWhy\n");
    assert_eq!(
        flatpaks,
        vec![
            InstalledApp {
                name: "GIMP".to_string(),
                path: "/var/lib/flatpak/app/org.gimp.GIMP".to_string(),
                size: 0,
                app_type: AppType::Flatpak,
                leftovers: Vec::new(),
            },
            InstalledApp {
                name: "Why".to_string(),
                path: "/var/lib/flatpak/app/org.x.Y".to_string(),
                size: 0,
                app_type: AppType::Flatpak,
                leftovers: Vec::new(),
            },
        ]
    );
    let snaps = scan_snap_names("Name  Version  Rev\ncore20  2023  2015\n\n  firefox 120 3416\n");
    assert_eq!(snaps, names(&["core20", "firefox"]));
    assert_eq!(scan_snap_names("Name  Version\n"), Vec::<String>::new());
    assert_eq!(scan_snap_names(""), Vec::<String>::new());
    assert_eq!(
        snap_app("firefox".to_string(), 77),
        InstalledApp {
            name: "firefox".to_string(),
            path: "/snap/firefox".to_string(),
            size: 77,
            app_type: AppType::Snap,
            leftovers: Vec::new(),
        }
    );
}

#[test]
fn installed_apps_are_sorted_by_name_without_case() {
    let dpkg = vec![app("zsh", AppType::Deb), app("Vim", AppType::Deb), app("apt", AppType::Deb)];
    let snap = vec![app("firefox", AppType::Snap), app("vim", AppType::Snap)];
    let flatpak = vec![app("GIMP", AppType::Flatpak), app("Apt", AppType::Flatpak)];
    let sorted = scan_installed_apps(dpkg, snap, flatpak);
    let rows: Vec<(&str, AppType)> = sorted.iter().map(|a| (a.name.as_str(), a.app_type)).collect();
    assert_eq!(
        rows,
        vec![
            ("apt", AppType::Deb),
            ("Apt", AppType::Flatpak),
            ("firefox", AppType::Snap),
            ("GIMP", AppType::Flatpak),
            ("Vim", AppType::Deb),
            ("vim", AppType::Snap),
            ("zsh", AppType::Deb),
        ]
    );
    assert_eq!(scan_installed_apps(Vec::new(), Vec::new(), Vec::new()), Vec::new());
}

#[test]
fn sorting_keeps_what_was_left_behind() {
    let mut with_leftovers = app("b", AppType::Manual);
    with_leftovers.leftovers.push(LeftoverFile {
        path: "/home/a/.config/b".to_string(),
        file_type: LeftoverType::Config,
        size: 12,
    });
    let sorted =
        scan_installed_apps(vec![with_leftovers.clone()], vec![app("a", AppType::Snap)], Vec::new());
    assert_eq!(sorted[1], with_leftovers);
}

#[test]
fn ages_are_labelled() {
    assert_eq!(age_label(0), "Today");
    assert_eq!(age_label(1), "1 day");
    assert_eq!(age_label(2), "2 days");
    assert_eq!(age_label(10), "10 days");
    assert_eq!(age_label(365), "365 days");
    assert_eq!(age_label(u64::MAX), "18446744073709551615 days");
}

#[test]
fn long_names_are_cut_short() {
    assert_eq!(analyze::display_name("short.txt"), "short.txt");
    let thirty = "a".repeat(30);
    assert_eq!(analyze::display_name(&thirty), thirty);
    let longer = format!("{}{}", "b".repeat(27), "cdef");
    assert_eq!(analyze::display_name(&longer), format!("{}...", "b".repeat(27)));
    let accented = "\u{e9}".repeat(31);
    assert_eq!(analyze::display_name(&accented), format!("{}...", "\u{e9}".repeat(27)));
    assert_eq!(analyze::display_name(""), "");
}

#[test]
fn apps_are_searched_without_case() {
    let apps = vec![
        app("Firefox", AppType::Snap),
        app("vim", AppType::Deb),
        app("firefox-esr", AppType::Deb),
        app("GIMP", AppType::Flatpak),
    ];
    assert_eq!(find_apps(&apps, "firefox"), vec![0, 2]);
    assert_eq!(find_apps(&apps, "FIRE"), vec![0, 2]);
    assert_eq!(find_apps(&apps, "gimp"), vec![3]);
    assert_eq!(find_apps(&apps, "emacs"), Vec::<usize>::new());
    assert_eq!(find_apps(&apps, ""), vec![0, 1, 2, 3]);
    assert_eq!(find_apps(&Vec::new(), "vim"), Vec::<usize>::new());
}

fn walked(path: &str, parent_files: &[&str], size: u64, days: u64) -> WalkedDir {
    let p = std::path::Path::new(path);
    WalkedDir {
        path: path.to_string(),
        dir_name: p.file_name().unwrap().to_string_lossy().to_string(),
        parent_name: p
            .parent()
            .and_then(|d| d.file_name())
            .map(|n| n.to_string_lossy().to_string()),
        present: names(parent_files),
        size,
        elapsed_secs: Some(days * 86400 + 17),
    }
}

#[test]
fn artifacts_are_collected_from_walked_directories() {
    let patterns = DevArtifacts::new();
    let dirs = vec![
        walked("/w/app", &["app", "notes"], 9000, 50),
        walked("/w/app/node_modules", &["package.json", "node_modules"], 20, 30),
        walked("/w/app/src", &["package.json", "src"], 7, 30),
        walked("/w/jvm/target", &["pom.xml", "Cargo.toml", "target"], 5000, 7),
        walked("/w/py/venv", &["main.py", "venv"], 300, 90),
        walked("/w/py/__pycache__", &["main.py"], 500, 8),
    ];
    let found = collect_artifacts(&patterns, &dirs);
    let rows: Vec<(&str, &str, &str, u64, u64, bool)> = found
        .iter()
        .map(|a| {
            (
                a.project_name.as_str(),
                a.artifact_type.as_str(),
                a.path.as_str(),
                a.size,
                a.age_days,
                a.selected,
            )
        })
        .collect();
    assert_eq!(
        rows,
        vec![
            ("app", "Node.js", "/w/app/node_modules", 20, 30, true),
            ("jvm", "Rust", "/w/jvm/target", 5000, 7, false),
            ("jvm", "Maven", "/w/jvm/target", 5000, 7, false),
            ("py", "Python cache", "/w/py/__pycache__", 500, 8, true),
        ]
    );
    assert_eq!(collect_artifacts(&patterns, &Vec::new()), Vec::new());
}

#[test]
fn artifacts_without_a_known_parent_or_age() {
    let patterns = DevArtifacts::new();
    let dirs = vec![WalkedDir {
        path: "__pycache__".to_string(),
        dir_name: "__pycache__".to_string(),
        parent_name: None,
        present: Vec::new(),
        size: 3,
        elapsed_secs: None,
    }];
    assert_eq!(
        collect_artifacts(&patterns, &dirs),
        vec![FoundArtifact {
            project_name: "unknown".to_string(),
            artifact_type: "Python cache".to_string(),
            path: "__pycache__".to_string(),
            size: 3,
            age_days: 0,
            selected: false,
        }]
    );
}
