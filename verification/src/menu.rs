//! The menus: what the keys do in them.

use vstd::prelude::*;

verus! {

/// A key that was pressed.
#[derive(Debug, Clone, Copy, PartialEq, Eq, Structural)]
pub enum Key {
    Char(char),
    /// A character together with the control key.
    Control(char),
    Up,
    Down,
    PageUp,
    PageDown,
    Home,
    End,
    Enter,
    Esc,
    Tab,
    Other,
}

/// The key is that of the character, with or without the control key.
pub open spec fn is_char(key: Key, c: char) -> bool {
    key == Key::Char(c) || key == Key::Control(c)
}

/// The key leaves a view.
pub open spec fn cancels(key: Key) -> bool {
    is_char(key, 'q') || is_char(key, 'Q') || key == Key::Esc
}

pub open spec fn moves_up(key: Key) -> bool {
    key == Key::Up || is_char(key, 'k')
}

pub open spec fn moves_down(key: Key) -> bool {
    key == Key::Down || is_char(key, 'j')
}

impl Key {
    pub fn is(&self, c: char) -> (r: bool)
        ensures
            r == is_char(*self, c),
    {
        match *self {
            Key::Char(d) => c == d,
            Key::Control(d) => c == d,
            _ => false,
        }
    }

    pub fn is_cancel(&self) -> (r: bool)
        ensures
            r == cancels(*self),
    {
        self.is('q') || self.is('Q') || *self == Key::Esc
    }

    pub fn is_up(&self) -> (r: bool)
        ensures
            r == moves_up(*self),
    {
        *self == Key::Up || self.is('k')
    }

    pub fn is_down(&self) -> (r: bool)
        ensures
            r == moves_down(*self),
    {
        *self == Key::Down || self.is('j')
    }
}

/// What a key leads to in a menu: another selection, or the choice of a row.
#[derive(Debug, Clone, Copy, PartialEq, Eq, Structural)]
pub enum MenuStep {
    Select(usize),
    Choose(usize),
}

/// The row above, or the first one.
pub open spec fn above(selected: usize) -> usize {
    if selected > 0 {
        (selected - 1) as usize
    } else {
        0
    }
}

/// The row below, or the last one.
pub open spec fn below(selected: usize, rows: usize) -> usize {
    if selected + 1 < rows {
        (selected + 1) as usize
    } else {
        selected
    }
}

/// What moving keys and the enter key do in a menu of so many rows.
pub open spec fn menu_step(key: Key, selected: usize, rows: usize) -> MenuStep {
    if moves_up(key) {
        MenuStep::Select(above(selected))
    } else if moves_down(key) {
        MenuStep::Select(below(selected, rows))
    } else if key == Key::Enter {
        MenuStep::Choose(selected)
    } else {
        MenuStep::Select(selected)
    }
}

fn step_in_menu(key: Key, selected: usize, rows: usize) -> (r: MenuStep)
    requires
        selected < rows,
    ensures
        r == menu_step(key, selected, rows),
{
    if key.is_up() {
        MenuStep::Select(if selected > 0 {
            selected - 1
        } else {
            0
        })
    } else if key.is_down() {
        MenuStep::Select(if selected + 1 < rows {
            selected + 1
        } else {
            selected
        })
    } else if key == Key::Enter {
        MenuStep::Choose(selected)
    } else {
        MenuStep::Select(selected)
    }
}

/// The menu of the mode: the first row is the single address, the second one the pool.
pub open spec fn mode_step(key: Key, selected: usize) -> MenuStep {
    if is_char(key, '1') {
        MenuStep::Choose(0)
    } else if is_char(key, '2') {
        MenuStep::Choose(1)
    } else {
        menu_step(key, selected, 2)
    }
}

/// What a key does in the menu of the mode.
pub fn mode_selection_step(key: Key, selected: usize) -> (r: MenuStep)
    requires
        selected < 2,
    ensures
        r == mode_step(key, selected),
{
    if key.is('1') {
        MenuStep::Choose(0)
    } else if key.is('2') {
        MenuStep::Choose(1)
    } else {
        step_in_menu(key, selected, 2)
    }
}

/// What a key does in the menu of the CIDR ranges.
pub fn range_selection_step(key: Key, selected: usize, ranges: usize) -> (r: MenuStep)
    requires
        selected < ranges,
    ensures
        r == menu_step(key, selected, ranges),
{
    step_in_menu(key, selected, ranges)
}

/// The menu of the addresses: leaving it takes the first one.
pub open spec fn ip_step(key: Key, selected: usize, entries: usize) -> MenuStep {
    if cancels(key) {
        MenuStep::Choose(0)
    } else {
        menu_step(key, selected, entries)
    }
}

/// What a key does in the menu of the addresses.
pub fn ip_selection_step(key: Key, selected: usize, entries: usize) -> (r: MenuStep)
    requires
        selected < entries,
    ensures
        r == ip_step(key, selected, entries),
{
    if key.is_cancel() {
        MenuStep::Choose(0)
    } else {
        step_in_menu(key, selected, entries)
    }
}

/// Every menu stays within its rows, whatever is pressed.
pub proof fn law_menus_stay_in_bounds(key: Key, selected: usize, rows: usize)
    requires
        selected < rows,
    ensures
        match menu_step(key, selected, rows) {
            MenuStep::Select(i) => i < rows,
            MenuStep::Choose(i) => i == selected,
        },
        match ip_step(key, selected, rows) {
            MenuStep::Select(i) => i < rows,
            MenuStep::Choose(i) => i < rows,
        },
        rows == 2 ==> match mode_step(key, selected) {
            MenuStep::Select(i) => i < 2,
            MenuStep::Choose(i) => i < 2,
        },
{
}

/// The keys of a menu. Up goes one row up and down one row down, but not past the ends;
/// enter chooses the row that is selected, and no other key changes anything. A step down
/// is undone by a step up.
pub proof fn law_keys_of_a_menu(key: Key, selected: usize, rows: usize)
    requires
        selected < rows,
    ensures
        key == Key::Up || key == Key::Char('k') || key == Key::Control('k') ==> menu_step(
            key,
            selected,
            rows,
        ) == MenuStep::Select(
            if selected == 0 {
                0
            } else {
                (selected - 1) as usize
            },
        ),
        key == Key::Down || key == Key::Char('j') || key == Key::Control('j') ==> menu_step(
            key,
            selected,
            rows,
        ) == MenuStep::Select(
            if selected == rows - 1 {
                selected
            } else {
                (selected + 1) as usize
            },
        ),
        menu_step(Key::Enter, selected, rows) == MenuStep::Choose(selected),
        menu_step(key, selected, rows) is Choose <==> key == Key::Enter,
        menu_step(key, selected, rows) matches MenuStep::Select(i) && i != selected ==> key
            == Key::Up || key == Key::Down || key == Key::Char('k') || key == Key::Control('k')
            || key == Key::Char('j') || key == Key::Control('j'),
        selected + 1 < rows ==> menu_step(Key::Up, (selected + 1) as usize, rows)
            == MenuStep::Select(selected),
{
}

/// In the menu of the mode `1` chooses the single address and `2` the pool, wherever the
/// selection stands; every other key does what it does in any menu of two rows.
pub proof fn law_keys_of_the_mode_menu(key: Key, selected: usize)
    requires
        selected < 2,
    ensures
        key == Key::Char('1') || key == Key::Control('1') ==> mode_step(key, selected)
            == MenuStep::Choose(0),
        key == Key::Char('2') || key == Key::Control('2') ==> mode_step(key, selected)
            == MenuStep::Choose(1),
        key != Key::Char('1') && key != Key::Control('1') && key != Key::Char('2') && key
            != Key::Control('2') ==> mode_step(key, selected) == menu_step(key, selected, 2),
{
}

/// In the menu of the addresses the keys that leave a view take the first address, and every
/// other key does what it does in any menu. A view is left with `q`, `Q` or escape.
pub proof fn law_keys_of_the_address_menu(key: Key, selected: usize, entries: usize)
    requires
        selected < entries,
    ensures
        cancels(key) <==> key == Key::Esc || key == Key::Char('q') || key == Key::Char('Q') || key
            == Key::Control('q') || key == Key::Control('Q'),
        cancels(key) ==> ip_step(key, selected, entries) == MenuStep::Choose(0),
        !cancels(key) ==> ip_step(key, selected, entries) == menu_step(key, selected, entries),
{
}

} // verus!
