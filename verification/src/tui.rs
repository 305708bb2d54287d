//! The state of the interactive menu and its reaction to keys.
//!
//! Drawing and reading the terminal are the caller's; what a key does to the
//! menu is decided here.

use crate::cli::{Command, CommandView};
use crate::environment::home_dir;
use crate::paths::{home_or_current, home_or_here};
use crate::text::{opt_str_view, opt_view};
use vstd::prelude::*;

verus! {

/// Whether the menu is shown or about to be left.
#[derive(Debug, Clone, Copy, PartialEq, Eq, Structural)]
pub enum AppState {
    Menu,
    Exiting,
}

/// Menu item.
#[derive(Debug, Clone, Copy, PartialEq, Eq)]
pub struct MenuItem {
    pub name: &'static str,
    pub description: &'static str,
    pub shortcut: char,
}

/// A menu item with its texts as character sequences.
pub struct MenuItemView {
    pub name: Seq<char>,
    pub description: Seq<char>,
    pub shortcut: char,
}

impl View for MenuItem {
    type V = MenuItemView;

    open spec fn view(&self) -> MenuItemView {
        MenuItemView {
            name: self.name@,
            description: self.description@,
            shortcut: self.shortcut,
        }
    }
}

/// The views of a list of menu items.
pub open spec fn item_views(items: Seq<MenuItem>) -> Seq<MenuItemView> {
    items.map_values(|item: MenuItem| item@)
}

/// The menu: five entries, in display order.
pub open spec fn menu_table() -> Seq<MenuItemView> {
    seq![
        MenuItemView {
            name: "Clean"@,
            description: "Free up disk space by cleaning caches"@,
            shortcut: '1',
        },
        MenuItemView {
            name: "Analyze"@,
            description: "Explore disk usage visually"@,
            shortcut: '2',
        },
        MenuItemView {
            name: "Status"@,
            description: "Monitor system health in real-time"@,
            shortcut: '3',
        },
        MenuItemView {
            name: "Purge"@,
            description: "Clean development project artifacts"@,
            shortcut: '4',
        },
        MenuItemView {
            name: "Optimize"@,
            description: "Run system maintenance tasks"@,
            shortcut: '5',
        },
    ]
}

/// The command that the menu entry at `selection` stands for, with its
/// parameters resolved; `home` is the home directory, where one is known.
pub open spec fn action_for(selection: usize, home: Option<Seq<char>>) -> Option<CommandView> {
    if selection == 0 {
        Some(CommandView::Clean { dry_run: false, debug: false })
    } else if selection == 1 {
        Some(CommandView::Analyze { path: home_or_here(home) })
    } else if selection == 2 {
        Some(CommandView::Status)
    } else if selection == 3 {
        Some(CommandView::Purge { paths: None, dry_run: false })
    } else if selection == 4 {
        Some(CommandView::Optimize { dry_run: false })
    } else {
        None
    }
}

/// The view of an optional command.
pub open spec fn action_view(action: Option<Command>) -> Option<CommandView> {
    match action {
        Some(c) => Some(c@),
        None => None,
    }
}

/// The command that the menu entry at `selection` stands for.
pub fn menu_action(selection: usize, home: Option<&str>) -> (action: Option<Command>)
    ensures
        action_view(action) == action_for(selection, opt_str_view(home)),
{
    if selection == 0 {
        Some(Command::Clean { dry_run: false, debug: false })
    } else if selection == 1 {
        Some(Command::Analyze { path: home_or_current(home) })
    } else if selection == 2 {
        Some(Command::Status)
    } else if selection == 3 {
        Some(Command::Purge { paths: None, dry_run: false })
    } else if selection == 4 {
        Some(Command::Optimize { dry_run: false })
    } else {
        None
    }
}

/// A key press, as far as the menu tells keys apart.
#[derive(Debug, Clone, Copy, PartialEq, Eq, Structural)]
pub enum Key {
    Char(char),
    Esc,
    Up,
    Down,
    Enter,
    Other,
}

/// What a key asks of the menu.
#[derive(Debug, Clone, Copy, PartialEq, Eq, Structural)]
pub enum KeyEffect {
    /// Leave the menu without running anything.
    Quit,
    /// Move the selection one entry up.
    Previous,
    /// Move the selection one entry down.
    Next,
    /// Run the selected entry.
    Confirm,
    /// Select the entry at this position and run it.
    Pick(usize),
    /// Nothing.
    Ignore,
}

/// What each key asks of the menu: `q` and Escape quit, the arrows and
/// `k`/`j` move, Enter and the space bar confirm, `1` to `5` pick an entry.
pub open spec fn key_effect(key: Key) -> KeyEffect {
    match key {
        Key::Esc => KeyEffect::Quit,
        Key::Up => KeyEffect::Previous,
        Key::Down => KeyEffect::Next,
        Key::Enter => KeyEffect::Confirm,
        Key::Other => KeyEffect::Ignore,
        Key::Char(c) => if c == 'q' {
            KeyEffect::Quit
        } else if c == 'k' {
            KeyEffect::Previous
        } else if c == 'j' {
            KeyEffect::Next
        } else if c == ' ' {
            KeyEffect::Confirm
        } else if c == '1' {
            KeyEffect::Pick(0)
        } else if c == '2' {
            KeyEffect::Pick(1)
        } else if c == '3' {
            KeyEffect::Pick(2)
        } else if c == '4' {
            KeyEffect::Pick(3)
        } else if c == '5' {
            KeyEffect::Pick(4)
        } else {
            KeyEffect::Ignore
        },
    }
}

/// What `key` asks of the menu.
pub fn interpret_key(key: Key) -> (effect: KeyEffect)
    ensures
        effect == key_effect(key),
{
    match key {
        Key::Esc => KeyEffect::Quit,
        Key::Up => KeyEffect::Previous,
        Key::Down => KeyEffect::Next,
        Key::Enter => KeyEffect::Confirm,
        Key::Other => KeyEffect::Ignore,
        Key::Char(c) => {
            if c == 'q' {
                KeyEffect::Quit
            } else if c == 'k' {
                KeyEffect::Previous
            } else if c == 'j' {
                KeyEffect::Next
            } else if c == ' ' {
                KeyEffect::Confirm
            } else if c == '1' {
                KeyEffect::Pick(0)
            } else if c == '2' {
                KeyEffect::Pick(1)
            } else if c == '3' {
                KeyEffect::Pick(2)
            } else if c == '4' {
                KeyEffect::Pick(3)
            } else if c == '5' {
                KeyEffect::Pick(4)
            } else {
                KeyEffect::Ignore
            }
        },
    }
}

/// Main application.
#[derive(Debug, Clone, PartialEq, Eq)]
pub struct App {
    pub state: AppState,
    pub selection: usize,
    pub menu_items: Vec<MenuItem>,
    /// The command to run once the menu has been left.
    pub selected_action: Option<Command>,
}

/// Where `below` is what is left of the positive `-sum` after whole rounds
/// of `len`, `sum` wraps to `len - below`, or to 0 where nothing is left.
proof fn lemma_wrapping_below_zero(sum: int, len: int, below: int)
    requires
        sum < 0,
        len > 0,
        below == (-sum) % len,
    ensures
        sum % len == if below == 0 {
            0
        } else {
            len - below
        },
{
    let n = -sum;
    let q = n / len;
    vstd::arithmetic::div_mod::lemma_fundamental_div_mod(n, len);
    vstd::arithmetic::div_mod::lemma_mod_bound(n, len);
    if below == 0 {
        assert(sum == (-q) * len + 0) by (nonlinear_arith)
            requires
                n == len * q + below,
                below == 0,
                sum == -n,
        ;
        vstd::arithmetic::div_mod::lemma_fundamental_div_mod_converse(sum, len, -q, 0);
    } else {
        assert(sum == (-q - 1) * len + (len - below)) by (nonlinear_arith)
            requires
                n == len * q + below,
                sum == -n,
        ;
        vstd::arithmetic::div_mod::lemma_fundamental_div_mod_converse(
            sum,
            len,
            -q - 1,
            len - below,
        );
    }
}

impl App {
    /// The menu as it is first shown: the five entries, the first one
    /// selected, nothing chosen yet.
    pub fn new() -> (app: Self)
        ensures
            item_views(app.menu_items@) == menu_table(),
            app.state == AppState::Menu,
            app.selection == 0,
            app.selected_action is None,
    {
        let menu_items = vec![
            MenuItem {
                name: "Clean",
                description: "Free up disk space by cleaning caches",
                shortcut: '1',
            },
            MenuItem { name: "Analyze", description: "Explore disk usage visually", shortcut: '2' },
            MenuItem {
                name: "Status",
                description: "Monitor system health in real-time",
                shortcut: '3',
            },
            MenuItem {
                name: "Purge",
                description: "Clean development project artifacts",
                shortcut: '4',
            },
            MenuItem {
                name: "Optimize",
                description: "Run system maintenance tasks",
                shortcut: '5',
            },
        ];
        assert(item_views(menu_items@) =~= menu_table());
        App { state: AppState::Menu, selection: 0, menu_items, selected_action: None }
    }

    /// Moves the selection by `delta` entries, wrapping around at both ends
    /// of the menu. A menu without entries has nothing to move through.
    pub fn move_selection(&mut self, delta: i32)
        requires
            old(self).menu_items@.len() > 0,
        ensures
            final(self).selection as int == (old(self).selection as int + delta as int) % (
            old(self).menu_items@.len() as int),
            final(self).state == old(self).state,
            final(self).menu_items == old(self).menu_items,
            final(self).selected_action == old(self).selected_action,
    {
        let len: u128 = self.menu_items.len() as u128;
        let sum: i128 = self.selection as i128 + delta as i128;
        let to: u128 = if sum >= 0 {
            (sum as u128) % len
        } else {
            let below: u128 = ((0 - sum) as u128) % len;
            proof {
                lemma_wrapping_below_zero(sum as int, len as int, below as int);
            }
            if below == 0 {
                0
            } else {
                len - below
            }
        };
        proof {
            vstd::arithmetic::div_mod::lemma_mod_bound(sum as int, len as int);
        }
        self.selection = to as usize;
    }

    /// Chooses the command of the selected entry, to be run once the menu
    /// has been left; a selection past the fifth entry chooses nothing. The
    /// home directory that `Analyze` looks at is that of the invoking user.
    pub fn select_action(&mut self)
        ensures
            exists|home: Option<Seq<char>>|
                action_view(final(self).selected_action) == action_for(old(self).selection, home),
            final(self).state == old(self).state,
            final(self).selection == old(self).selection,
            final(self).menu_items == old(self).menu_items,
    {
        let home = home_dir();
        self.selected_action = match &home {
            Some(h) => menu_action(self.selection, Some(h.as_str())),
            None => menu_action(self.selection, None),
        };
        assert(action_view(self.selected_action) == action_for(self.selection, opt_view(home)));
    }

    /// Applies one key press to the menu. Quitting leaves the menu with
    /// nothing chosen anew; confirming or picking an entry chooses its
    /// command and, where there is one, leaves the menu. Moving needs a menu
    /// with entries.
    pub fn handle_key(&mut self, key: Key)
        requires
            key_effect(key) is Previous || key_effect(key) is Next ==> old(self).menu_items@.len()
                > 0,
        ensures
            final(self).menu_items == old(self).menu_items,
            match key_effect(key) {
                KeyEffect::Quit => {
                    &&& final(self).state == AppState::Exiting
                    &&& final(self).selection == old(self).selection
                    &&& final(self).selected_action == old(self).selected_action
                },
                KeyEffect::Previous => {
                    &&& final(self).state == old(self).state
                    &&& final(self).selection as int == (old(self).selection as int - 1) % (
                    old(self).menu_items@.len() as int)
                    &&& final(self).selected_action == old(self).selected_action
                },
                KeyEffect::Next => {
                    &&& final(self).state == old(self).state
                    &&& final(self).selection as int == (old(self).selection as int + 1) % (
                    old(self).menu_items@.len() as int)
                    &&& final(self).selected_action == old(self).selected_action
                },
                KeyEffect::Confirm => {
                    &&& final(self).selection == old(self).selection
                    &&& exists|home: Option<Seq<char>>|
                        action_view(final(self).selected_action) == action_for(
                            old(self).selection,
                            home,
                        )
                    &&& final(self).state == if final(self).selected_action is Some {
                        AppState::Exiting
                    } else {
                        old(self).state
                    }
                },
                KeyEffect::Pick(index) => {
                    &&& final(self).selection == index
                    &&& exists|home: Option<Seq<char>>|
                        action_view(final(self).selected_action) == action_for(index, home)
                    &&& final(self).state == if final(self).selected_action is Some {
                        AppState::Exiting
                    } else {
                        old(self).state
                    }
                },
                KeyEffect::Ignore => {
                    &&& final(self).state == old(self).state
                    &&& final(self).selection == old(self).selection
                    &&& final(self).selected_action == old(self).selected_action
                },
            },
    {
        match interpret_key(key) {
            KeyEffect::Quit => {
                self.state = AppState::Exiting;
            },
            KeyEffect::Previous => {
                self.move_selection(-1);
            },
            KeyEffect::Next => {
                self.move_selection(1);
            },
            KeyEffect::Confirm => {
                self.select_action();
                if self.selected_action.is_some() {
                    self.state = AppState::Exiting;
                }
            },
            KeyEffect::Pick(index) => {
                self.selection = index;
                self.select_action();
                if self.selected_action.is_some() {
                    self.state = AppState::Exiting;
                }
            },
            KeyEffect::Ignore => {},
        }
    }
}

impl Default for App {
    fn default() -> (app: Self)
        ensures
            item_views(app.menu_items@) == menu_table(),
            app.state == AppState::Menu,
            app.selection == 0,
            app.selected_action is None,
    {
        Self::new()
    }
}

} // verus!
