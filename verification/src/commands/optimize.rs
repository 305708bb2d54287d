//! The optimize command: which maintenance tasks fit the host.

use crate::distro::{
    autoremove_words, clean_cache_words, manager_label, DistroInfo, PackageManager,
};
use crate::text::{
    after_header, chars_of, lines, lines_of, reads, string_of, string_views, table_views, views,
    words, words_of,
};
use vstd::prelude::*;

verus! {

/// What a task does where it runs no command.
#[derive(Debug, Clone, Copy, PartialEq, Eq, Structural)]
pub enum TaskAction {
    /// Empty the thumbnail cache of the user.
    ClearThumbnails,
    /// Remove the disabled revisions of installed snaps.
    CleanOldSnaps,
}

/// Optimization task.
#[derive(Debug, Clone, PartialEq, Eq)]
pub struct OptimizeTask {
    pub name: String,
    pub description: String,
    pub requires_sudo: bool,
    /// The program to run and its arguments.
    pub command: Option<(String, Vec<String>)>,
    /// What to do where there is no command.
    pub action: Option<TaskAction>,
}

/// An optimization task with its texts as character sequences.
pub struct TaskView {
    pub name: Seq<char>,
    pub description: Seq<char>,
    pub requires_sudo: bool,
    pub command: Option<(Seq<char>, Seq<Seq<char>>)>,
    pub action: Option<TaskAction>,
}

impl View for OptimizeTask {
    type V = TaskView;

    open spec fn view(&self) -> TaskView {
        TaskView {
            name: self.name@,
            description: self.description@,
            requires_sudo: self.requires_sudo,
            command: match self.command {
                Some((program, arguments)) => Some((program@, string_views(arguments@))),
                None => None,
            },
            action: self.action,
        }
    }
}

/// The views of a list of tasks.
pub open spec fn task_views(list: Seq<OptimizeTask>) -> Seq<TaskView> {
    list.map_values(|t: OptimizeTask| t@)
}

/// A task that runs `words` as a command with superuser rights.
pub open spec fn command_task(name: Seq<char>, description: Seq<char>, words: Seq<Seq<char>>)
    -> TaskView {
    TaskView {
        name,
        description,
        requires_sudo: true,
        command: Some((words[0], words.skip(1))),
        action: None,
    }
}

/// The tasks that every host gets.
pub open spec fn universal_tasks() -> Seq<TaskView> {
    seq![
        TaskView {
            name: "Clear thumbnail cache"@,
            description: "Remove cached thumbnails"@,
            requires_sudo: false,
            command: None,
            action: Some(TaskAction::ClearThumbnails),
        },
        TaskView {
            name: "Update font cache"@,
            description: "Rebuild font cache"@,
            requires_sudo: false,
            command: Some(("fc-cache"@, seq!["-f"@])),
            action: None,
        },
    ]
}

/// The tasks of the package manager: emptying its cache where it has a
/// command for that, and removing orphans where it has one, but never with
/// pacman.
pub open spec fn manager_tasks(pm: PackageManager) -> Seq<TaskView> {
    (if clean_cache_words(pm) is Some {
        seq![
            command_task(
                "Clear "@ + manager_label(pm) + " cache"@,
                "Remove downloaded package files"@,
                clean_cache_words(pm)->0,
            ),
        ]
    } else {
        Seq::<TaskView>::empty()
    }) + (if autoremove_words(pm) is Some && pm != PackageManager::Pacman {
        seq![
            command_task(
                "Remove orphan packages"@,
                "Remove unused dependencies"@,
                autoremove_words(pm)->0,
            ),
        ]
    } else {
        Seq::<TaskView>::empty()
    })
}

/// The tasks that depend on what else the host has: a journal to vacuum,
/// snaps, flatpaks.
pub open spec fn extra_tasks(has_journalctl: bool, has_snap: bool, has_flatpak: bool) -> Seq<
    TaskView,
> {
    (if has_journalctl {
        seq![
            TaskView {
                name: "Vacuum journal logs"@,
                description: "Limit journal size to 100M"@,
                requires_sudo: true,
                command: Some(("journalctl"@, seq!["--vacuum-size=100M"@])),
                action: None,
            },
        ]
    } else {
        Seq::<TaskView>::empty()
    }) + (if has_snap {
        seq![
            TaskView {
                name: "Clean old snap revisions"@,
                description: "Remove disabled snap versions"@,
                requires_sudo: true,
                command: None,
                action: Some(TaskAction::CleanOldSnaps),
            },
        ]
    } else {
        Seq::<TaskView>::empty()
    }) + (if has_flatpak {
        seq![
            TaskView {
                name: "Clean unused Flatpak runtimes"@,
                description: "Remove unused Flatpak dependencies"@,
                requires_sudo: false,
                command: Some(("flatpak"@, seq!["uninstall"@, "--unused"@, "-y"@])),
                action: None,
            },
        ]
    } else {
        Seq::<TaskView>::empty()
    })
}

/// The tasks for a host, in display order.
pub open spec fn planned_tasks(
    pm: PackageManager,
    has_journalctl: bool,
    has_snap: bool,
    has_flatpak: bool,
) -> Seq<TaskView> {
    universal_tasks() + manager_tasks(pm) + extra_tasks(has_journalctl, has_snap, has_flatpak)
}

fn owned_words(words: &Vec<&'static str>, from: usize) -> (out: Vec<String>)
    requires
        from <= words.len(),
    ensures
        string_views(out@) == table_views(words@).skip(from as int),
{
    let mut out: Vec<String> = Vec::new();
    let mut i: usize = from;
    while i < words.len()
        invariant
            from <= i <= words.len(),
            string_views(out@) == table_views(words@).subrange(from as int, i as int),
        decreases words.len() - i,
    {
        let ghost before = out@;
        out.push(String::from_str(words[i]));
        assert(string_views(out@) =~= string_views(before).push(words@[i as int]@));
        assert(table_views(words@).subrange(from as int, i + 1) =~= table_views(
            words@,
        ).subrange(from as int, i as int).push(words@[i as int]@));
        i += 1;
    }
    assert(table_views(words@).subrange(from as int, words.len() as int) =~= table_views(
        words@,
    ).skip(from as int));
    out
}

fn task_for_command(name: String, description: &str, words: &Vec<&'static str>) -> (task:
    OptimizeTask)
    requires
        words.len() > 0,
    ensures
        task@ == command_task(name@, description@, table_views(words@)),
{
    assert(table_views(words@)[0] == words@[0]@);
    OptimizeTask {
        name,
        description: String::from_str(description),
        requires_sudo: true,
        command: Some((String::from_str(words[0]), owned_words(words, 1))),
        action: None,
    }
}

fn build_universal_tasks() -> (tasks: Vec<OptimizeTask>)
    ensures
        task_views(tasks@) == universal_tasks(),
{
    let font_args = vec![String::from_str("-f")];
    assert(string_views(font_args@) =~= seq!["-f"@]);
    let tasks = vec![
        OptimizeTask {
            name: String::from_str("Clear thumbnail cache"),
            description: String::from_str("Remove cached thumbnails"),
            requires_sudo: false,
            command: None,
            action: Some(TaskAction::ClearThumbnails),
        },
        OptimizeTask {
            name: String::from_str("Update font cache"),
            description: String::from_str("Rebuild font cache"),
            requires_sudo: false,
            command: Some((String::from_str("fc-cache"), font_args)),
            action: None,
        },
    ];
    assert(task_views(tasks@) =~= universal_tasks());
    tasks
}

fn build_manager_tasks(pm: PackageManager) -> (tasks: Vec<OptimizeTask>)
    ensures
        task_views(tasks@) == manager_tasks(pm),
{
    let mut tasks: Vec<OptimizeTask> = Vec::new();
    if let Some(words) = pm.clean_cache_cmd() {
        let name = String::from_str("Clear ").concat(pm.label()).concat(" cache");
        assert(table_views(words@).len() == words@.len());
        tasks.push(task_for_command(name, "Remove downloaded package files", &words));
    }
    if let Some(words) = pm.autoremove_cmd() {
        match pm {
            PackageManager::Pacman => {},
            _ => {
                let ghost before = tasks@;
                assert(table_views(words@).len() == words@.len());
                tasks.push(
                    task_for_command(
                        String::from_str("Remove orphan packages"),
                        "Remove unused dependencies",
                        &words,
                    ),
                );
                assert(task_views(tasks@) =~= task_views(before).push(tasks@.last()@));
            },
        }
    }
    assert(task_views(tasks@) =~= manager_tasks(pm));
    tasks
}

fn build_journal_task() -> (task: OptimizeTask)
    ensures
        seq![task@] == extra_tasks(true, false, false),
{
    let args = vec![String::from_str("--vacuum-size=100M")];
    assert(string_views(args@) =~= seq!["--vacuum-size=100M"@]);
    let task = OptimizeTask {
        name: String::from_str("Vacuum journal logs"),
        description: String::from_str("Limit journal size to 100M"),
        requires_sudo: true,
        command: Some((String::from_str("journalctl"), args)),
        action: None,
    };
    assert(seq![task@] =~= extra_tasks(true, false, false));
    task
}

fn build_snap_task() -> (task: OptimizeTask)
    ensures
        seq![task@] == extra_tasks(false, true, false),
{
    let task = OptimizeTask {
        name: String::from_str("Clean old snap revisions"),
        description: String::from_str("Remove disabled snap versions"),
        requires_sudo: true,
        command: None,
        action: Some(TaskAction::CleanOldSnaps),
    };
    assert(seq![task@] =~= extra_tasks(false, true, false));
    task
}

fn build_flatpak_task() -> (task: OptimizeTask)
    ensures
        seq![task@] == extra_tasks(false, false, true),
{
    let args = vec![
        String::from_str("uninstall"),
        String::from_str("--unused"),
        String::from_str("-y"),
    ];
    assert(string_views(args@) =~= seq!["uninstall"@, "--unused"@, "-y"@]);
    let task = OptimizeTask {
        name: String::from_str("Clean unused Flatpak runtimes"),
        description: String::from_str("Remove unused Flatpak dependencies"),
        requires_sudo: false,
        command: Some((String::from_str("flatpak"), args)),
        action: None,
    };
    assert(seq![task@] =~= extra_tasks(false, false, true));
    task
}

fn build_extra_tasks(has_journalctl: bool, has_snap: bool, has_flatpak: bool) -> (tasks: Vec<
    OptimizeTask,
>)
    ensures
        task_views(tasks@) == extra_tasks(has_journalctl, has_snap, has_flatpak),
{
    let mut tasks: Vec<OptimizeTask> = Vec::new();
    if has_journalctl {
        tasks.push(build_journal_task());
    }
    if has_snap {
        tasks.push(build_snap_task());
    }
    if has_flatpak {
        tasks.push(build_flatpak_task());
    }
    proof {
        let v = task_views(tasks@);
        let j = extra_tasks(true, false, false);
        let s = extra_tasks(false, true, false);
        let f = extra_tasks(false, false, true);
        assert(j.len() == 1 && s.len() == 1 && f.len() == 1);
        assert(v =~= (if has_journalctl {
            j
        } else {
            Seq::<TaskView>::empty()
        }) + (if has_snap {
            s
        } else {
            Seq::<TaskView>::empty()
        }) + (if has_flatpak {
            f
        } else {
            Seq::<TaskView>::empty()
        })) by {
            if has_journalctl {
                assert(j[0] == seq![tasks@[0]@][0]);
            }
            if has_snap {
                let k = if has_journalctl {
                    1int
                } else {
                    0int
                };
                assert(s[0] == seq![tasks@[k]@][0]);
            }
            if has_flatpak {
                let k = tasks@.len() - 1;
                assert(f[0] == seq![tasks@[k]@][0]);
            }
        }
        assert(extra_tasks(has_journalctl, has_snap, has_flatpak) =~= (if has_journalctl {
            j
        } else {
            Seq::<TaskView>::empty()
        }) + (if has_snap {
            s
        } else {
            Seq::<TaskView>::empty()
        }) + (if has_flatpak {
            f
        } else {
            Seq::<TaskView>::empty()
        }));
    }
    tasks
}

/// Build the tasks for the detected distribution. `has_journalctl` says
/// whether the journal tool is installed.
pub fn build_tasks(distro: &DistroInfo, has_journalctl: bool) -> (tasks: Vec<OptimizeTask>)
    ensures
        task_views(tasks@) == planned_tasks(
            distro.package_manager,
            has_journalctl,
            distro.has_snap,
            distro.has_flatpak,
        ),
{
    let mut tasks = build_universal_tasks();
    let mut of_manager = build_manager_tasks(distro.package_manager);
    let mut extra = build_extra_tasks(has_journalctl, distro.has_snap, distro.has_flatpak);
    let ghost a = tasks@;
    let ghost b = of_manager@;
    let ghost c = extra@;
    tasks.append(&mut of_manager);
    tasks.append(&mut extra);
    assert(task_views(tasks@) =~= task_views(a) + task_views(b) + task_views(c));
    tasks
}

/// The positions of the tasks that can run: those that need no superuser
/// rights, and all of them where the run has such rights.
pub open spec fn runnable_positions(tasks: Seq<OptimizeTask>, is_sudo: bool) -> Seq<usize>
    decreases tasks.len(),
{
    if tasks.len() == 0 {
        Seq::<usize>::empty()
    } else {
        let init = runnable_positions(tasks.drop_last(), is_sudo);
        if !tasks.last().requires_sudo || is_sudo {
            init.push((tasks.len() - 1) as usize)
        } else {
            init
        }
    }
}

/// The tasks that can run with the rights at hand, as positions in `tasks`.
pub fn available_tasks(tasks: &Vec<OptimizeTask>, is_sudo: bool) -> (found: Vec<usize>)
    ensures
        found@ == runnable_positions(tasks@, is_sudo),
        forall|k: int| 0 <= k < found@.len() ==> (#[trigger] found@[k]) < tasks@.len(),
{
    let mut found: Vec<usize> = Vec::new();
    let mut i: usize = 0;
    while i < tasks.len()
        invariant
            i <= tasks.len(),
            found@ == runnable_positions(tasks@.take(i as int), is_sudo),
            forall|k: int| 0 <= k < found@.len() ==> (#[trigger] found@[k]) < i,
        decreases tasks.len() - i,
    {
        proof {
            assert(tasks@.take(i + 1).drop_last() =~= tasks@.take(i as int));
            assert(tasks@.take(i + 1).last() == tasks@[i as int]);
        }
        if !tasks[i].requires_sudo || is_sudo {
            found.push(i);
        }
        i += 1;
    }
    assert(tasks@.take(tasks.len() as int) =~= tasks@);
    found
}

/// The snap revision that a line of `snap list --all` reports as disabled:
/// the line has at least six words and the sixth is `disabled`; the name is
/// the first word and the revision the third.
pub open spec fn disabled_revision(line: Seq<char>) -> Option<(Seq<char>, Seq<char>)> {
    let w = words(line);
    if w.len() >= 6 && w[5] == "disabled"@ {
        Some((w[0], w[2]))
    } else {
        None
    }
}

/// The disabled revisions that the lines report, in order.
pub open spec fn disabled_in(lines: Seq<Seq<char>>) -> Seq<(Seq<char>, Seq<char>)>
    decreases lines.len(),
{
    if lines.len() == 0 {
        Seq::<(Seq<char>, Seq<char>)>::empty()
    } else {
        let init = disabled_in(lines.drop_last());
        match disabled_revision(lines.last()) {
            Some(pair) => init.push(pair),
            None => init,
        }
    }
}

/// The views of a list of name and revision pairs.
pub open spec fn pair_views(list: Seq<(String, String)>) -> Seq<(Seq<char>, Seq<char>)> {
    list.map_values(|p: (String, String)| (p.0@, p.1@))
}

/// Reads the disabled snap revisions out of the output of
/// `snap list --all`; the first line is the header and is passed over.
pub fn disabled_snaps(output: &str) -> (found: Vec<(String, String)>)
    ensures
        pair_views(found@) == disabled_in(after_header(lines(output@))),
{
    let all = lines_of(&chars_of(output));
    let mut found: Vec<(String, String)> = Vec::new();
    if all.len() == 0 {
        assert(views(all@).len() == 0);
        assert(pair_views(found@) =~= Seq::<(Seq<char>, Seq<char>)>::empty());
        return found;
    }
    assert(views(all@).len() == all@.len());
    let ghost body = after_header(lines(output@));
    let mut i: usize = 1;
    assert(body.take(0) =~= Seq::<Seq<char>>::empty());
    assert(pair_views(found@) =~= Seq::<(Seq<char>, Seq<char>)>::empty());
    while i < all.len()
        invariant
            1 <= i <= all.len(),
            views(all@) == lines(output@),
            body == after_header(lines(output@)),
            pair_views(found@) == disabled_in(body.take(i - 1)),
        decreases all.len() - i,
    {
        let line = &all[i];
        proof {
            assert(views(all@)[i as int] == line@);
            assert(body[i - 1] == line@);
            assert(body.take(i as int).drop_last() =~= body.take(i - 1));
            assert(body.take(i as int).last() == line@);
        }
        let w = words_of(line);
        if w.len() >= 6 {
            assert(views(w@)[5] == w@[5]@);
            assert(views(w@)[0] == w@[0]@);
            assert(views(w@)[2] == w@[2]@);
            if reads(&w[5], "disabled") {
                let ghost before = found@;
                found.push((string_of(&w[0]), string_of(&w[2])));
                assert(pair_views(found@) =~= pair_views(before).push((w@[0]@, w@[2]@)));
            }
        }
        i += 1;
    }
    assert(body.take(all.len() - 1) =~= body);
    found
}

} // verus!
