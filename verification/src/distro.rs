//! Linux distribution detection from what the host tells about itself.

use crate::text::{
    chars_of, contains, contains_seq, has_prefix, lines, lines_of, lowercase, opt_view, reads,
    split, split_chars, string_of, table_views, trim_chars, trim_matches, views,
};
use vstd::prelude::*;

verus! {

/// A distribution, with the name of an unknown one as a character sequence.
pub enum DistroView {
    Ubuntu,
    Debian,
    Fedora,
    CentOS,
    RHEL,
    Arch,
    Manjaro,
    OpenSUSE,
    Alpine,
    Gentoo,
    Unknown(Seq<char>),
}

/// Supported Linux distributions.
#[derive(Debug, Clone, PartialEq, Eq)]
pub enum Distro {
    Ubuntu,
    Debian,
    Fedora,
    CentOS,
    RHEL,
    Arch,
    Manjaro,
    OpenSUSE,
    Alpine,
    Gentoo,
    Unknown(String),
}

impl View for Distro {
    type V = DistroView;

    open spec fn view(&self) -> DistroView {
        match self {
            Distro::Ubuntu => DistroView::Ubuntu,
            Distro::Debian => DistroView::Debian,
            Distro::Fedora => DistroView::Fedora,
            Distro::CentOS => DistroView::CentOS,
            Distro::RHEL => DistroView::RHEL,
            Distro::Arch => DistroView::Arch,
            Distro::Manjaro => DistroView::Manjaro,
            Distro::OpenSUSE => DistroView::OpenSUSE,
            Distro::Alpine => DistroView::Alpine,
            Distro::Gentoo => DistroView::Gentoo,
            Distro::Unknown(name) => DistroView::Unknown(name@),
        }
    }
}

/// The name a distribution is shown with.
pub open spec fn distro_name(d: DistroView) -> Seq<char> {
    match d {
        DistroView::Ubuntu => "Ubuntu"@,
        DistroView::Debian => "Debian"@,
        DistroView::Fedora => "Fedora"@,
        DistroView::CentOS => "CentOS"@,
        DistroView::RHEL => "Red Hat Enterprise Linux"@,
        DistroView::Arch => "Arch Linux"@,
        DistroView::Manjaro => "Manjaro"@,
        DistroView::OpenSUSE => "openSUSE"@,
        DistroView::Alpine => "Alpine Linux"@,
        DistroView::Gentoo => "Gentoo"@,
        DistroView::Unknown(name) => name,
    }
}

impl Distro {
    /// The name this distribution is shown with.
    pub fn name(&self) -> (text: String)
        ensures
            text@ == distro_name(self@),
    {
        match self {
            Distro::Ubuntu => String::from_str("Ubuntu"),
            Distro::Debian => String::from_str("Debian"),
            Distro::Fedora => String::from_str("Fedora"),
            Distro::CentOS => String::from_str("CentOS"),
            Distro::RHEL => String::from_str("Red Hat Enterprise Linux"),
            Distro::Arch => String::from_str("Arch Linux"),
            Distro::Manjaro => String::from_str("Manjaro"),
            Distro::OpenSUSE => String::from_str("openSUSE"),
            Distro::Alpine => String::from_str("Alpine Linux"),
            Distro::Gentoo => String::from_str("Gentoo"),
            Distro::Unknown(name) => name.clone(),
        }
    }
}

/// Package manager type.
#[derive(Debug, Clone, Copy, PartialEq, Eq, Structural)]
pub enum PackageManager {
    /// Debian, Ubuntu
    Apt,
    /// Fedora, RHEL 8+
    Dnf,
    /// CentOS, RHEL 7
    Yum,
    /// Arch, Manjaro
    Pacman,
    /// openSUSE
    Zypper,
    /// Alpine
    Apk,
    /// Gentoo
    Portage,
    Unknown,
}

/// The view of an optional command line.
pub open spec fn command_view(cmd: Option<Vec<&'static str>>) -> Option<Seq<Seq<char>>> {
    match cmd {
        Some(words) => Some(table_views(words@)),
        None => None,
    }
}

/// The command that empties a package manager's cache, if it has one.
pub open spec fn clean_cache_words(pm: PackageManager) -> Option<Seq<Seq<char>>> {
    match pm {
        PackageManager::Apt => Some(seq!["apt-get"@, "clean"@]),
        PackageManager::Dnf => Some(seq!["dnf"@, "clean"@, "all"@]),
        PackageManager::Yum => Some(seq!["yum"@, "clean"@, "all"@]),
        PackageManager::Pacman => Some(seq!["pacman"@, "-Sc"@, "--noconfirm"@]),
        PackageManager::Zypper => Some(seq!["zypper"@, "clean"@, "--all"@]),
        PackageManager::Apk => Some(seq!["apk"@, "cache"@, "clean"@]),
        PackageManager::Portage => None,
        PackageManager::Unknown => None,
    }
}

/// The command that removes orphaned packages, if the manager has one.
pub open spec fn autoremove_words(pm: PackageManager) -> Option<Seq<Seq<char>>> {
    match pm {
        PackageManager::Apt => Some(seq!["apt-get"@, "autoremove"@, "-y"@]),
        PackageManager::Dnf => Some(seq!["dnf"@, "autoremove"@, "-y"@]),
        PackageManager::Yum => Some(seq!["yum"@, "autoremove"@, "-y"@]),
        PackageManager::Pacman => Some(
            seq!["pacman"@, "-Rns"@, "$(pacman -Qdtq)"@, "--noconfirm"@],
        ),
        PackageManager::Zypper => None,
        PackageManager::Apk => None,
        PackageManager::Portage => Some(seq!["emerge"@, "--depclean"@]),
        PackageManager::Unknown => None,
    }
}

/// The command that lists the installed packages, if the manager has one.
pub open spec fn list_packages_words(pm: PackageManager) -> Option<Seq<Seq<char>>> {
    match pm {
        PackageManager::Apt => Some(
            seq!["dpkg-query"@, "-W"@, "-f"@, "${Package}\t${Installed-Size}\n"@],
        ),
        PackageManager::Dnf => Some(seq!["rpm"@, "-qa"@, "--queryformat"@, "%{NAME}\t%{SIZE}\n"@]),
        PackageManager::Yum => Some(seq!["rpm"@, "-qa"@, "--queryformat"@, "%{NAME}\t%{SIZE}\n"@]),
        PackageManager::Pacman => Some(seq!["pacman"@, "-Q"@]),
        PackageManager::Zypper => Some(seq!["rpm"@, "-qa"@]),
        PackageManager::Apk => Some(seq!["apk"@, "list"@, "--installed"@]),
        PackageManager::Portage => Some(seq!["qlist"@, "-I"@]),
        PackageManager::Unknown => None,
    }
}

/// The cache directories of a package manager.
pub open spec fn cache_dirs(pm: PackageManager) -> Seq<Seq<char>> {
    match pm {
        PackageManager::Apt => seq!["/var/cache/apt/archives"@],
        PackageManager::Dnf => seq!["/var/cache/dnf"@],
        PackageManager::Yum => seq!["/var/cache/yum"@],
        PackageManager::Pacman => seq!["/var/cache/pacman/pkg"@],
        PackageManager::Zypper => seq!["/var/cache/zypp"@],
        PackageManager::Apk => seq!["/var/cache/apk"@],
        PackageManager::Portage => seq!["/var/cache/distfiles"@],
        PackageManager::Unknown => Seq::<Seq<char>>::empty(),
    }
}

/// The name a package manager is labelled with.
pub open spec fn manager_label(pm: PackageManager) -> Seq<char> {
    match pm {
        PackageManager::Apt => "Apt"@,
        PackageManager::Dnf => "Dnf"@,
        PackageManager::Yum => "Yum"@,
        PackageManager::Pacman => "Pacman"@,
        PackageManager::Zypper => "Zypper"@,
        PackageManager::Apk => "Apk"@,
        PackageManager::Portage => "Portage"@,
        PackageManager::Unknown => "Unknown"@,
    }
}

impl PackageManager {
    /// Get the clean cache command for this package manager.
    pub fn clean_cache_cmd(&self) -> (cmd: Option<Vec<&'static str>>)
        ensures
            command_view(cmd) == clean_cache_words(*self),
    {
        let words = match self {
            PackageManager::Apt => vec!["apt-get", "clean"],
            PackageManager::Dnf => vec!["dnf", "clean", "all"],
            PackageManager::Yum => vec!["yum", "clean", "all"],
            PackageManager::Pacman => vec!["pacman", "-Sc", "--noconfirm"],
            PackageManager::Zypper => vec!["zypper", "clean", "--all"],
            PackageManager::Apk => vec!["apk", "cache", "clean"],
            PackageManager::Portage => {
                return None;
            },
            PackageManager::Unknown => {
                return None;
            },
        };
        assert(table_views(words@) =~= clean_cache_words(*self)->0);
        Some(words)
    }

    /// Get the autoremove command for this package manager.
    pub fn autoremove_cmd(&self) -> (cmd: Option<Vec<&'static str>>)
        ensures
            command_view(cmd) == autoremove_words(*self),
    {
        let words = match self {
            PackageManager::Apt => vec!["apt-get", "autoremove", "-y"],
            PackageManager::Dnf => vec!["dnf", "autoremove", "-y"],
            PackageManager::Yum => vec!["yum", "autoremove", "-y"],
            PackageManager::Pacman => vec!["pacman", "-Rns", "$(pacman -Qdtq)", "--noconfirm"],
            PackageManager::Zypper => {
                return None;
            },
            PackageManager::Apk => {
                return None;
            },
            PackageManager::Portage => vec!["emerge", "--depclean"],
            PackageManager::Unknown => {
                return None;
            },
        };
        assert(table_views(words@) =~= autoremove_words(*self)->0);
        Some(words)
    }

    /// Get the command that lists the installed packages.
    pub fn list_packages_cmd(&self) -> (cmd: Option<Vec<&'static str>>)
        ensures
            command_view(cmd) == list_packages_words(*self),
    {
        let words = match self {
            PackageManager::Apt => vec![
                "dpkg-query",
                "-W",
                "-f",
                "${Package}\t${Installed-Size}\n",
            ],
            PackageManager::Dnf => vec!["rpm", "-qa", "--queryformat", "%{NAME}\t%{SIZE}\n"],
            PackageManager::Yum => vec!["rpm", "-qa", "--queryformat", "%{NAME}\t%{SIZE}\n"],
            PackageManager::Pacman => vec!["pacman", "-Q"],
            PackageManager::Zypper => vec!["rpm", "-qa"],
            PackageManager::Apk => vec!["apk", "list", "--installed"],
            PackageManager::Portage => vec!["qlist", "-I"],
            PackageManager::Unknown => {
                return None;
            },
        };
        assert(table_views(words@) =~= list_packages_words(*self)->0);
        Some(words)
    }

    /// Get cache directories for this package manager.
    pub fn cache_paths(&self) -> (dirs: Vec<&'static str>)
        ensures
            table_views(dirs@) == cache_dirs(*self),
    {
        let dirs = match self {
            PackageManager::Apt => vec!["/var/cache/apt/archives"],
            PackageManager::Dnf => vec!["/var/cache/dnf"],
            PackageManager::Yum => vec!["/var/cache/yum"],
            PackageManager::Pacman => vec!["/var/cache/pacman/pkg"],
            PackageManager::Zypper => vec!["/var/cache/zypp"],
            PackageManager::Apk => vec!["/var/cache/apk"],
            PackageManager::Portage => vec!["/var/cache/distfiles"],
            PackageManager::Unknown => Vec::new(),
        };
        assert(table_views(dirs@) =~= cache_dirs(*self));
        dirs
    }

    /// The name this package manager is labelled with.
    pub fn label(&self) -> (text: &'static str)
        ensures
            text@ == manager_label(*self),
    {
        match self {
            PackageManager::Apt => "Apt",
            PackageManager::Dnf => "Dnf",
            PackageManager::Yum => "Yum",
            PackageManager::Pacman => "Pacman",
            PackageManager::Zypper => "Zypper",
            PackageManager::Apk => "Apk",
            PackageManager::Portage => "Portage",
            PackageManager::Unknown => "Unknown",
        }
    }
}

/// The value that a line gives for `key`: the line begins with `key` and
/// holds an `=`; the value is what stands between the first `=` and the
/// next, without the double quotes around it.
pub open spec fn line_value(line: Seq<char>, key: Seq<char>) -> Option<Seq<char>> {
    if key.is_prefix_of(line) && split(line, '=').len() >= 2 {
        Some(trim_matches(split(line, '=')[1], '"'))
    } else {
        None
    }
}

/// The value of the first line at or after `from` that gives one for `key`.
pub open spec fn first_value(lines: Seq<Seq<char>>, key: Seq<char>, from: int) -> Option<
    Seq<char>,
>
    decreases lines.len() - from,
{
    if from < 0 || from >= lines.len() {
        None
    } else if line_value(lines[from], key) is Some {
        line_value(lines[from], key)
    } else {
        first_value(lines, key, from + 1)
    }
}

/// The value that a `key=value` text gives for `key`.
pub open spec fn extracted(content: Seq<char>, key: Seq<char>) -> Option<Seq<char>> {
    first_value(lines(content), key, 0)
}

/// Extract a value from `key=value` lines.
pub fn extract_value(content: &str, key: &str) -> (value: Option<String>)
    ensures
        opt_view(value) == extracted(content@, key@),
{
    let all = lines_of(&chars_of(content));
    let k = chars_of(key);
    let mut i: usize = 0;
    while i < all.len()
        invariant
            i <= all.len(),
            views(all@) == lines(content@),
            k@ == key@,
            first_value(lines(content@), key@, 0) == first_value(
                lines(content@),
                key@,
                i as int,
            ),
        decreases all.len() - i,
    {
        let line = &all[i];
        assert(views(all@)[i as int] == line@);
        if has_prefix(line, &k) {
            let pieces = split_chars(line, '=');
            if pieces.len() >= 2 {
                assert(views(pieces@)[1] == pieces@[1]@);
                let value = trim_chars(&pieces[1], '"');
                return Some(string_of(&value));
            }
        }
        i += 1;
    }
    None
}

/// The distribution that a lower-case identifier stands for; one that is
/// not known goes by `name`, or by the identifier where there is no name.
pub open spec fn distro_for(id: Seq<char>, name: Option<Seq<char>>) -> DistroView {
    if id == "ubuntu"@ {
        DistroView::Ubuntu
    } else if id == "debian"@ {
        DistroView::Debian
    } else if id == "fedora"@ {
        DistroView::Fedora
    } else if id == "centos"@ {
        DistroView::CentOS
    } else if id == "rhel"@ {
        DistroView::RHEL
    } else if id == "arch"@ {
        DistroView::Arch
    } else if id == "manjaro"@ {
        DistroView::Manjaro
    } else if id == "opensuse"@ || id == "opensuse-leap"@ || id == "opensuse-tumbleweed"@ {
        DistroView::OpenSUSE
    } else if id == "alpine"@ {
        DistroView::Alpine
    } else if id == "gentoo"@ {
        DistroView::Gentoo
    } else {
        DistroView::Unknown(
            match name {
                Some(n) => n,
                None => id,
            },
        )
    }
}

/// The distribution that the lower-case identifier `id` stands for.
pub fn distro_from_id(id: &str, name: Option<String>) -> (distro: Distro)
    ensures
        distro@ == distro_for(id@, opt_view(name)),
{
    let c = chars_of(id);
    if reads(&c, "ubuntu") {
        Distro::Ubuntu
    } else if reads(&c, "debian") {
        Distro::Debian
    } else if reads(&c, "fedora") {
        Distro::Fedora
    } else if reads(&c, "centos") {
        Distro::CentOS
    } else if reads(&c, "rhel") {
        Distro::RHEL
    } else if reads(&c, "arch") {
        Distro::Arch
    } else if reads(&c, "manjaro") {
        Distro::Manjaro
    } else if reads(&c, "opensuse") || reads(&c, "opensuse-leap") || reads(
        &c,
        "opensuse-tumbleweed",
    ) {
        Distro::OpenSUSE
    } else if reads(&c, "alpine") {
        Distro::Alpine
    } else if reads(&c, "gentoo") {
        Distro::Gentoo
    } else {
        match name {
            Some(n) => Distro::Unknown(n),
            None => Distro::Unknown(String::from_str(id)),
        }
    }
}

/// What an os-release text says: the distribution named by its `ID`, in
/// lower case, and its `VERSION_ID`.
pub open spec fn os_release(content: Seq<char>) -> (DistroView, Option<Seq<char>>) {
    let id = lowercase(
        match extracted(content, "ID"@) {
            Some(v) => v,
            None => Seq::<char>::empty(),
        },
    );
    (distro_for(id, extracted(content, "NAME"@)), extracted(content, "VERSION_ID"@))
}

/// Parse the content of an os-release file.
pub fn parse_os_release(content: &str) -> (r: (Distro, Option<String>))
    ensures
        (r.0@, opt_view(r.1)) == os_release(content@),
{
    let id = match extract_value(content, "ID") {
        Some(v) => v,
        None => String::new(),
    };
    let lower = id.as_str().to_lowercase();
    let version = extract_value(content, "VERSION_ID");
    let name = extract_value(content, "NAME");
    let distro = distro_from_id(lower.as_str(), name);
    (distro, version)
}

/// What the host tells about itself.
#[derive(Debug, Clone, PartialEq, Eq)]
pub struct HostFacts {
    /// The content of `/etc/os-release`, where it could be read.
    pub os_release: Option<String>,
    /// The content of `/etc/lsb-release`, where it could be read.
    pub lsb_release: Option<String>,
    /// `/etc/debian_version` exists.
    pub has_debian_version: bool,
    /// `/etc/fedora-release` exists.
    pub has_fedora_release: bool,
    /// `/etc/arch-release` exists.
    pub has_arch_release: bool,
    /// The commands found on the search path.
    pub commands: AvailableCommands,
}

/// Which of the commands that matter here are on the search path.
#[derive(Debug, Clone, Copy, PartialEq, Eq)]
pub struct AvailableCommands {
    pub apt_get: bool,
    pub dnf: bool,
    pub yum: bool,
    pub pacman: bool,
    pub zypper: bool,
    pub apk: bool,
    pub snap: bool,
    pub flatpak: bool,
}

/// The distribution and version that the host's files show: the os-release
/// file decides where there is one; else an lsb-release file that mentions
/// Ubuntu; else the distribution's own marker file; else plain Linux.
pub open spec fn detected_distro(facts: HostFacts) -> (DistroView, Option<Seq<char>>) {
    if facts.os_release is Some {
        os_release(facts.os_release->0@)
    } else if facts.lsb_release is Some && contains_seq(facts.lsb_release->0@, "Ubuntu"@) {
        (DistroView::Ubuntu, extracted(facts.lsb_release->0@, "DISTRIB_RELEASE"@))
    } else if facts.has_debian_version {
        (DistroView::Debian, None)
    } else if facts.has_fedora_release {
        (DistroView::Fedora, None)
    } else if facts.has_arch_release {
        (DistroView::Arch, None)
    } else {
        (DistroView::Unknown("Linux"@), None)
    }
}

/// Detect the distribution from the host's files.
pub fn detect_distro(facts: &HostFacts) -> (r: (Distro, Option<String>))
    ensures
        (r.0@, opt_view(r.1)) == detected_distro(*facts),
{
    if let Some(content) = &facts.os_release {
        return parse_os_release(content.as_str());
    }
    if let Some(content) = &facts.lsb_release {
        if contains(&chars_of(content.as_str()), &chars_of("Ubuntu")) {
            let version = extract_value(content.as_str(), "DISTRIB_RELEASE");
            return (Distro::Ubuntu, version);
        }
    }
    if facts.has_debian_version {
        return (Distro::Debian, None);
    }
    if facts.has_fedora_release {
        return (Distro::Fedora, None);
    }
    if facts.has_arch_release {
        return (Distro::Arch, None);
    }
    (Distro::Unknown(String::from_str("Linux")), None)
}

/// The package manager of a distribution; for an unknown distribution, the
/// first of the known managers whose command is on the search path.
pub open spec fn manager_for(distro: DistroView, commands: AvailableCommands) -> PackageManager {
    match distro {
        DistroView::Ubuntu => PackageManager::Apt,
        DistroView::Debian => PackageManager::Apt,
        DistroView::Fedora => PackageManager::Dnf,
        DistroView::CentOS => if commands.dnf {
            PackageManager::Dnf
        } else {
            PackageManager::Yum
        },
        DistroView::RHEL => if commands.dnf {
            PackageManager::Dnf
        } else {
            PackageManager::Yum
        },
        DistroView::Arch => PackageManager::Pacman,
        DistroView::Manjaro => PackageManager::Pacman,
        DistroView::OpenSUSE => PackageManager::Zypper,
        DistroView::Alpine => PackageManager::Apk,
        DistroView::Gentoo => PackageManager::Portage,
        DistroView::Unknown(name) => if commands.apt_get {
            PackageManager::Apt
        } else if commands.dnf {
            PackageManager::Dnf
        } else if commands.yum {
            PackageManager::Yum
        } else if commands.pacman {
            PackageManager::Pacman
        } else if commands.zypper {
            PackageManager::Zypper
        } else if commands.apk {
            PackageManager::Apk
        } else {
            PackageManager::Unknown
        },
    }
}

/// Detect the package manager from the distribution or the commands at hand.
pub fn detect_package_manager(distro: &Distro, commands: &AvailableCommands) -> (pm:
    PackageManager)
    ensures
        pm == manager_for(distro@, *commands),
{
    match distro {
        Distro::Ubuntu => PackageManager::Apt,
        Distro::Debian => PackageManager::Apt,
        Distro::Fedora => PackageManager::Dnf,
        Distro::CentOS => {
            if commands.dnf {
                PackageManager::Dnf
            } else {
                PackageManager::Yum
            }
        },
        Distro::RHEL => {
            if commands.dnf {
                PackageManager::Dnf
            } else {
                PackageManager::Yum
            }
        },
        Distro::Arch => PackageManager::Pacman,
        Distro::Manjaro => PackageManager::Pacman,
        Distro::OpenSUSE => PackageManager::Zypper,
        Distro::Alpine => PackageManager::Apk,
        Distro::Gentoo => PackageManager::Portage,
        Distro::Unknown(name) => {
            if commands.apt_get {
                PackageManager::Apt
            } else if commands.dnf {
                PackageManager::Dnf
            } else if commands.yum {
                PackageManager::Yum
            } else if commands.pacman {
                PackageManager::Pacman
            } else if commands.zypper {
                PackageManager::Zypper
            } else if commands.apk {
                PackageManager::Apk
            } else {
                PackageManager::Unknown
            }
        },
    }
}

/// System information including distro and package manager.
#[derive(Debug, Clone, PartialEq, Eq)]
pub struct DistroInfo {
    pub distro: Distro,
    pub version: Option<String>,
    pub package_manager: PackageManager,
    pub has_snap: bool,
    pub has_flatpak: bool,
}

impl DistroInfo {
    /// Detect the Linux distribution from what the host tells about itself.
    pub fn detect(facts: &HostFacts) -> (info: Self)
        ensures
            (info.distro@, opt_view(info.version)) == detected_distro(*facts),
            info.package_manager == manager_for(info.distro@, facts.commands),
            info.has_snap == facts.commands.snap,
            info.has_flatpak == facts.commands.flatpak,
    {
        let (distro, version) = detect_distro(facts);
        let package_manager = detect_package_manager(&distro, &facts.commands);
        DistroInfo {
            distro,
            version,
            package_manager,
            has_snap: facts.commands.snap,
            has_flatpak: facts.commands.flatpak,
        }
    }

    /// Check if this is a Debian-based distro.
    pub fn is_debian_based(&self) -> (r: bool)
        ensures
            r == (self.distro@ is Ubuntu || self.distro@ is Debian),
    {
        match self.distro {
            Distro::Ubuntu => true,
            Distro::Debian => true,
            _ => false,
        }
    }

    /// Check if this is a Red Hat-based distro.
    pub fn is_redhat_based(&self) -> (r: bool)
        ensures
            r == (self.distro@ is Fedora || self.distro@ is CentOS || self.distro@ is RHEL),
    {
        match self.distro {
            Distro::Fedora => true,
            Distro::CentOS => true,
            Distro::RHEL => true,
            _ => false,
        }
    }

    /// Check if this is an Arch-based distro.
    pub fn is_arch_based(&self) -> (r: bool)
        ensures
            r == (self.distro@ is Arch || self.distro@ is Manjaro),
    {
        match self.distro {
            Distro::Arch => true,
            Distro::Manjaro => true,
            _ => false,
        }
    }
}

} // verus!
