//! Keyboard navigation in the file view: linear traversal and arrow-key neighbours.
use vstd::prelude::*;

use crate::view::ViewMode;

verus! {

/// The keys that move the selection; `Other` stands for every other key.
#[derive(Clone, Copy, Debug, PartialEq, Eq, Structural)]
pub enum NavKey {
    ArrowUp,
    ArrowDown,
    ArrowLeft,
    ArrowRight,
    Space,
    Other,
}

/// Direction of linear traversal through the entries.
#[derive(Clone, Copy, Debug, PartialEq, Eq, Structural)]
pub enum LinearDirection {
    Next,
    Prev,
}

/// Modifier keys held during a click or key press.
#[derive(Clone, Copy, Debug, PartialEq, Eq, Structural)]
pub struct KeyModifiers {
    pub ctrl: bool,
    pub shift: bool,
    pub command: bool,
    pub mac_cmd: bool,
}

/// Whether a click with `modifiers` adds to the selection rather than replacing it.
pub fn multi_select_modifiers(modifiers: &KeyModifiers) -> (r: bool)
    ensures
        r == (modifiers.ctrl || modifiers.shift || modifiers.command || modifiers.mac_cmd),
{
    modifiers.ctrl || modifiers.shift || modifiers.command || modifiers.mac_cmd
}

pub open spec fn is_grid(mode: ViewMode) -> bool {
    mode == ViewMode::SmallIcons || mode == ViewMode::LargeIcons
}

/// Linear direction of `key` in `mode`: along rows in the icon grids, down the lists.
pub open spec fn linear_direction_of(mode: ViewMode, key: NavKey) -> Option<LinearDirection> {
    if is_grid(mode) {
        match key {
            NavKey::ArrowRight | NavKey::Space => Some(LinearDirection::Next),
            NavKey::ArrowLeft => Some(LinearDirection::Prev),
            _ => None,
        }
    } else {
        match key {
            NavKey::ArrowDown | NavKey::Space => Some(LinearDirection::Next),
            NavKey::ArrowUp => Some(LinearDirection::Prev),
            _ => None,
        }
    }
}

/// Spacebar / linear traversal direction for shift-extend in each view mode.
pub fn linear_extend_direction(mode: ViewMode, key: NavKey) -> (r: Option<LinearDirection>)
    ensures
        r == linear_direction_of(mode, key),
{
    match mode {
        ViewMode::SmallIcons | ViewMode::LargeIcons => match key {
            NavKey::ArrowRight | NavKey::Space => Some(LinearDirection::Next),
            NavKey::ArrowLeft => Some(LinearDirection::Prev),
            _ => None,
        },
        ViewMode::SmallList | ViewMode::LargeList => match key {
            NavKey::ArrowDown | NavKey::Space => Some(LinearDirection::Next),
            NavKey::ArrowUp => Some(LinearDirection::Prev),
            _ => None,
        },
    }
}

/// Columns of the grid; fewer than one counts as one.
pub open spec fn grid_cols(columns: int) -> int {
    if columns < 1 {
        1
    } else {
        columns
    }
}

/// Entry reached from `current` by `key`, for `count` entries laid out in `mode` with
/// `columns` tiles per grid row.
pub open spec fn neighbor_of(current: int, count: int, mode: ViewMode, columns: int, key: NavKey) -> Option<int> {
    if count == 0 || current >= count {
        None
    } else if !is_grid(mode) {
        match key {
            NavKey::ArrowUp => if current >= 1 {
                Some(current - 1)
            } else {
                None
            },
            NavKey::ArrowDown => if current + 1 < count {
                Some(current + 1)
            } else {
                None
            },
            _ => None,
        }
    } else {
        let cols = grid_cols(columns);
        match key {
            NavKey::ArrowLeft => if current % cols > 0 {
                Some(current - 1)
            } else {
                None
            },
            NavKey::ArrowRight => if current % cols + 1 < cols && current + 1 < count {
                Some(current + 1)
            } else {
                None
            },
            NavKey::ArrowUp => if current / cols > 0 {
                Some(current - cols)
            } else {
                None
            },
            NavKey::ArrowDown => if current + cols < count {
                Some(current + cols)
            } else {
                None
            },
            _ => None,
        }
    }
}

/// Next entry index when navigating with arrow keys; `None` if the selection stays put.
pub fn selection_neighbor_index(current: usize, count: usize, mode: ViewMode, columns: usize, key: NavKey) -> (r:
    Option<usize>)
    ensures
        match r {
            Some(n) => neighbor_of(current as int, count as int, mode, columns as int, key) == Some(n as int),
            None => neighbor_of(current as int, count as int, mode, columns as int, key) is None,
        },
{
    if count == 0 || current >= count {
        return None;
    }
    match mode {
        ViewMode::SmallList | ViewMode::LargeList => match key {
            NavKey::ArrowUp => current.checked_sub(1),
            NavKey::ArrowDown => if current + 1 < count {
                Some(current + 1)
            } else {
                None
            },
            _ => None,
        },
        ViewMode::SmallIcons | ViewMode::LargeIcons => {
            let cols = if columns < 1 {
                1
            } else {
                columns
            };
            let row = current / cols;
            let col = current % cols;
            match key {
                NavKey::ArrowLeft => if col > 0 {
                    proof {
                        lemma_col_positive(current as int, cols as int);
                    }
                    Some(current - 1)
                } else {
                    None
                },
                NavKey::ArrowRight => if col + 1 < cols && current + 1 < count {
                    Some(current + 1)
                } else {
                    None
                },
                NavKey::ArrowUp => if row > 0 {
                    proof {
                        lemma_row_positive(current as int, cols as int);
                    }
                    Some(current - cols)
                } else {
                    None
                },
                NavKey::ArrowDown => if cols < count - current {
                    Some(current + cols)
                } else {
                    None
                },
                _ => None,
            }
        },
    }
}

proof fn lemma_row_positive(current: int, cols: int)
    requires
        cols >= 1,
        current >= 0,
    ensures
        current / cols > 0 <==> current >= cols,
{
    if current >= cols {
        vstd::arithmetic::div_mod::lemma_div_is_ordered(cols, current, cols);
        vstd::arithmetic::div_mod::lemma_div_by_self(cols);
    } else {
        vstd::arithmetic::div_mod::lemma_basic_div(current, cols);
    }
}

/// A key press moves the selection to another entry that exists.
pub proof fn law_neighbor_in_range(current: int, count: int, mode: ViewMode, columns: int, key: NavKey)
    requires
        0 <= current,
        neighbor_of(current, count, mode, columns, key) is Some,
    ensures
        0 <= neighbor_of(current, count, mode, columns, key)->0 < count,
        neighbor_of(current, count, mode, columns, key)->0 != current,
{
    if is_grid(mode) && key == NavKey::ArrowUp {
        lemma_row_positive(current, grid_cols(columns));
    }
    if is_grid(mode) && key == NavKey::ArrowLeft {
        lemma_col_positive(current, grid_cols(columns));
    }
}

/// Right then left, and down then up, come back to where they started; so does down then up
/// in the lists.
pub proof fn law_neighbor_moves_undo(current: int, count: int, mode: ViewMode, columns: int)
    requires
        0 <= current,
    ensures
        neighbor_of(current, count, mode, columns, NavKey::ArrowDown) matches Some(n) ==> neighbor_of(
            n,
            count,
            mode,
            columns,
            NavKey::ArrowUp,
        ) == Some(current),
        is_grid(mode) ==> (neighbor_of(current, count, mode, columns, NavKey::ArrowRight) matches Some(n)
            ==> neighbor_of(n, count, mode, columns, NavKey::ArrowLeft) == Some(current)),
{
    let cols = grid_cols(columns);
    if is_grid(mode) {
        if let Some(n) = neighbor_of(current, count, mode, columns, NavKey::ArrowDown) {
            lemma_row_positive(n, cols);
        }
        if let Some(n) = neighbor_of(current, count, mode, columns, NavKey::ArrowRight) {
            lemma_mod_succ(current, cols);
        }
    }
}

proof fn lemma_col_positive(current: int, cols: int)
    requires
        cols >= 1,
        current >= 0,
        current % cols > 0,
    ensures
        current >= 1,
{
    if current == 0 {
        vstd::arithmetic::div_mod::lemma_small_mod(0, cols as nat);
    }
}

proof fn lemma_mod_succ(x: int, d: int)
    requires
        d >= 1,
        x >= 0,
        x % d + 1 < d,
    ensures
        (x + 1) % d == x % d + 1,
{
    vstd::arithmetic::div_mod::lemma_fundamental_div_mod(x, d);
    let q = x / d;
    let r = x % d;
    assert(x + 1 == d * q + (r + 1));
    vstd::arithmetic::div_mod::lemma_mod_multiples_vanish(q, r + 1, d);
    vstd::arithmetic::div_mod::lemma_small_mod((r + 1) as nat, d as nat);
}

} // verus!
