//! Menus navigated with a cursor: a grid of buttons laid out in columns,
//! and selectors that cycle through options left and right.
use vstd::prelude::*;
use crate::assoc::{assoc_map, has_key, keys_unique, lemma_assoc_lookup, lemma_assoc_push, lemma_assoc_remove, lemma_assoc_update};

verus! {

/// A button's place: column `x` and row `y`, both counted from 1.
#[derive(Clone, Copy, PartialEq, Eq, Structural, Debug, Hash)]
pub struct MenuGridPosition {
    pub x: u8,
    pub y: u8,
}

/// A move of the menu cursor; rows grow downwards.
#[derive(Clone, Copy, PartialEq, Eq, Structural, Debug, Hash)]
pub struct MenuVec {
    pub x: i8,
    pub y: i8,
}

/// Why a button could not be placed.
#[derive(Clone, Copy, PartialEq, Eq, Structural, Debug)]
pub enum MenuError {
    ColumnPastWidth,
}

/// A menu of buttons in `width` columns; each column knows its height, and
/// the cursor sits on `active_position`.
pub struct GameMenuGrid {
    active_position: MenuGridPosition,
    buttons: Vec<(MenuGridPosition, u64)>,
    column_heights: Vec<(u8, u8)>,
    width: u8,
}

/// The height of column `col`, zero where it has none.
pub open spec fn column_height(heights: Map<u8, u8>, col: u8) -> int {
    if heights.contains_key(col) {
        heights[col] as int
    } else {
        0
    }
}

/// The buttons of each column fill exactly its rows 1 to its height.
pub open spec fn columns_consistent(buttons: Map<MenuGridPosition, u64>, heights: Map<u8, u8>) -> bool {
    forall|q: MenuGridPosition| #[trigger] buttons.contains_key(q) <==> 1 <= q.y <= column_height(heights, q.x)
}

/// The column heights once the button at `pos` is removed: where there was
/// one, its column gets one row shorter (not below zero).
pub open spec fn heights_after_removal(buttons: Map<MenuGridPosition, u64>, heights: Map<u8, u8>, pos: MenuGridPosition) -> Map<u8, u8> {
    if buttons.contains_key(pos) && heights.contains_key(pos.x) {
        heights.insert(pos.x, if heights[pos.x] == 0 {
            0u8
        } else {
            (heights[pos.x] - 1) as u8
        })
    } else {
        heights
    }
}

/// Adding a button below the others of a column keeps the columns filled.
pub proof fn lemma_add_keeps_columns_consistent(buttons: Map<MenuGridPosition, u64>, heights: Map<u8, u8>, col: u8, e: u64)
    requires
        columns_consistent(buttons, heights),
        column_height(heights, col) < u8::MAX,
    ensures
        columns_consistent(
            buttons.insert(MenuGridPosition { x: col, y: (column_height(heights, col) + 1) as u8 }, e),
            heights.insert(col, (column_height(heights, col) + 1) as u8),
        ),
{
    let h = column_height(heights, col) + 1;
    let nb = buttons.insert(MenuGridPosition { x: col, y: h as u8 }, e);
    let nh = heights.insert(col, h as u8);
    assert forall|q: MenuGridPosition| #[trigger] nb.contains_key(q) <==> 1 <= q.y <= column_height(nh, q.x) by {
        if q.x != col {
            assert(column_height(nh, q.x) == column_height(heights, q.x));
        }
        assert(buttons.contains_key(q) <==> 1 <= q.y <= column_height(heights, q.x));
    }
}

/// Removing the top button of a column (or a button that is not there)
/// keeps the columns filled. Removing a lower button leaves a gap where it
/// was, while the column's top button now sits past the column's height.
pub proof fn lemma_remove_and_columns(buttons: Map<MenuGridPosition, u64>, heights: Map<u8, u8>, pos: MenuGridPosition)
    requires
        columns_consistent(buttons, heights),
    ensures
        (buttons.contains_key(pos) ==> pos.y == column_height(heights, pos.x)) ==> columns_consistent(
            buttons.remove(pos),
            heights_after_removal(buttons, heights, pos),
        ),
        buttons.contains_key(pos) && pos.y < column_height(heights, pos.x) ==> {
            let nh = heights_after_removal(buttons, heights, pos);
            &&& column_height(nh, pos.x) == column_height(heights, pos.x) - 1
            &&& !buttons.remove(pos).contains_key(pos)
            &&& buttons.remove(pos).contains_key(MenuGridPosition { x: pos.x, y: heights[pos.x] })
            &&& !(1 <= heights[pos.x] <= column_height(nh, pos.x))
        },
{
    let nb = buttons.remove(pos);
    let nh = heights_after_removal(buttons, heights, pos);
    assert(buttons.contains_key(pos) <==> 1 <= pos.y <= column_height(heights, pos.x));
    if buttons.contains_key(pos) ==> pos.y == column_height(heights, pos.x) {
        assert forall|q: MenuGridPosition| #[trigger] nb.contains_key(q) <==> 1 <= q.y <= column_height(nh, q.x) by {
            assert(buttons.contains_key(q) <==> 1 <= q.y <= column_height(heights, q.x));
        }
    }
    if buttons.contains_key(pos) && pos.y < column_height(heights, pos.x) {
        let top = MenuGridPosition { x: pos.x, y: heights[pos.x] };
        assert(buttons.contains_key(top) <==> 1 <= top.y <= column_height(heights, top.x));
    }
}

/// Where the cursor lands when moved by `v` from `p` in a menu of `width`
/// columns: columns wrap around, and rows wrap within the column reached
/// (whose height is `height`).
pub open spec fn wrapped_column(p: MenuGridPosition, v: MenuVec, width: int) -> int {
    let x = p.x + v.x;
    if x <= 0 {
        width
    } else if x > width {
        1
    } else {
        x
    }
}

/// `q` is one of the first `n` places pushed on a first column that held
/// `base` buttons.
pub open spec fn in_stack(q: MenuGridPosition, base: int, n: int) -> bool {
    q.x == 1 && base < q.y <= base + n
}

/// The place of the `k`-th button pushed on a first column that held
/// `base` buttons.
pub open spec fn stack_slot(base: int, k: int) -> MenuGridPosition {
    MenuGridPosition { x: 1, y: (base + k + 1) as u8 }
}

pub open spec fn wrapped_row(p: MenuGridPosition, v: MenuVec, height: int) -> int {
    let y = p.y + v.y;
    if y > height {
        1
    } else if y <= 0 {
        height
    } else {
        y
    }
}

/// Moving the cursor in a menu of `width` columns, from a place `p` inside
/// it, to a column of height `h`: up and down stay in the column and step
/// one row, wrapping from the last row to the first and from the first to
/// the last; left and right step one column, wrapping likewise, and keep the
/// row unless the column reached is shorter, which puts the cursor on its
/// first row.
pub proof fn lemma_cursor_wraps(p: MenuGridPosition, width: int, h: int)
    requires
        1 <= p.x <= width,
        1 <= p.y,
        1 <= h,
    ensures
        wrapped_column(p, MenuVec { x: 0, y: 1 }, width) == p.x,
        wrapped_column(p, MenuVec { x: 0, y: -1i8 }, width) == p.x,
        p.y <= h ==> wrapped_row(p, MenuVec { x: 0, y: 1 }, h) == if p.y == h {
            1
        } else {
            p.y + 1
        },
        p.y <= h ==> wrapped_row(p, MenuVec { x: 0, y: -1i8 }, h) == if p.y == 1 {
            h
        } else {
            p.y - 1
        },
        wrapped_column(p, MenuVec { x: 1, y: 0 }, width) == if p.x == width {
            1
        } else {
            p.x + 1
        },
        wrapped_column(p, MenuVec { x: -1i8, y: 0 }, width) == if p.x == 1 {
            width
        } else {
            p.x - 1
        },
        wrapped_row(p, MenuVec { x: 1, y: 0 }, h) == if p.y <= h {
            p.y as int
        } else {
            1
        },
        wrapped_row(p, MenuVec { x: -1i8, y: 0 }, h) == if p.y <= h {
            p.y as int
        } else {
            1
        },
{
}

impl GameMenuGrid {
    #[verifier::type_invariant]
    spec fn wf(self) -> bool {
        keys_unique(self.buttons@) && keys_unique(self.column_heights@)
    }

    pub closed spec fn active(self) -> MenuGridPosition {
        self.active_position
    }

    pub closed spec fn buttons(self) -> Map<MenuGridPosition, u64> {
        assoc_map(self.buttons@)
    }

    pub closed spec fn heights(self) -> Map<u8, u8> {
        assoc_map(self.column_heights@)
    }

    pub closed spec fn spec_width(self) -> u8 {
        self.width
    }

    /// The buttons in the order they were added.
    pub closed spec fn button_list(self) -> Seq<(MenuGridPosition, u64)> {
        self.buttons@
    }

    /// One column, empty, with the cursor on its first row.
    pub fn new_vertical() -> (g: GameMenuGrid)
        ensures
            g.spec_width() == 1,
            g.heights() == map![1u8 => 0u8],
            g.buttons() == Map::<MenuGridPosition, u64>::empty(),
            g.active() == (MenuGridPosition { x: 1, y: 1 }),
            columns_consistent(g.buttons(), g.heights()),
    {
        let g = GameMenuGrid {
            width: 1,
            column_heights: vec![(1u8, 0u8)],
            buttons: Vec::new(),
            active_position: MenuGridPosition { x: 1, y: 1 },
        };
        proof {
            lemma_assoc_lookup(g.column_heights@, 0);
            assert(g.heights() =~= map![1u8 => 0u8]);
            assert(g.buttons() =~= Map::<MenuGridPosition, u64>::empty());
        }
        g
    }

    fn height_of(&self, col: u8) -> (r: Option<usize>)
        ensures
            match r {
                Some(i) => i < self.column_heights@.len() && self.column_heights@[i as int].0 == col,
                None => !has_key(self.column_heights@, col),
            },
    {
        let mut i: usize = 0;
        while i < self.column_heights.len()
            invariant
                i <= self.column_heights@.len(),
                forall|j: int| 0 <= j < i ==> self.column_heights@[j].0 != col,
            decreases self.column_heights@.len() - i,
        {
            if self.column_heights[i].0 == col {
                return Some(i);
            }
            i = i + 1;
        }
        None
    }

    fn button_at(&self, p: MenuGridPosition) -> (r: Option<usize>)
        ensures
            match r {
                Some(i) => i < self.buttons@.len() && self.buttons@[i as int].0 == p,
                None => !has_key(self.buttons@, p),
            },
    {
        let mut i: usize = 0;
        while i < self.buttons.len()
            invariant
                i <= self.buttons@.len(),
                forall|j: int| 0 <= j < i ==> self.buttons@[j].0 != p,
            decreases self.buttons@.len() - i,
        {
            if self.buttons[i].0 == p {
                return Some(i);
            }
            i = i + 1;
        }
        None
    }

    /// Moves the cursor by `menu_vec`: columns wrap around the width, rows
    /// wrap within the height of the column reached. Where that column has
    /// no height, the cursor stays. Returns whether it moved.
    pub fn apply_menu_vec_to_cursor(&mut self, menu_vec: MenuVec) -> (changed: bool)
        requires
            old(self).active().x <= 127,
            old(self).active().y <= 127,
            old(self).spec_width() <= 127,
            -128 <= old(self).active().x + menu_vec.x <= 127,
            -128 <= old(self).active().y + menu_vec.y <= 127,
            forall|c: u8| #[trigger] old(self).heights().contains_key(c) ==> old(self).heights()[c] <= 127,
        ensures
            final(self).buttons() == old(self).buttons(),
            final(self).heights() == old(self).heights(),
            final(self).spec_width() == old(self).spec_width(),
            ({
                let x = wrapped_column(old(self).active(), menu_vec, old(self).spec_width() as int);
                if old(self).heights().contains_key(x as u8) {
                    let new_pos = MenuGridPosition {
                        x: x as u8,
                        y: wrapped_row(old(self).active(), menu_vec, old(self).heights()[x as u8] as int) as u8,
                    };
                    final(self).active() == new_pos && changed == (new_pos != old(self).active())
                } else {
                    final(self).active() == old(self).active() && !changed
                }
            }),
    {
        proof {
            use_type_invariant(&*self);
        }
        let mut x: i8 = self.active_position.x as i8 + menu_vec.x;
        let mut y: i8 = self.active_position.y as i8 + menu_vec.y;
        if x <= 0 {
            x = self.width as i8;
        } else if x > self.width as i8 {
            x = 1;
        }
        let hi = match self.height_of(x as u8) {
            Some(i) => i,
            None => {
                return false;
            },
        };
        proof {
            lemma_assoc_lookup(self.column_heights@, hi as int);
        }
        let height_new = self.column_heights[hi].1;
        if y > height_new as i8 {
            y = 1;
        } else if y <= 0 {
            y = height_new as i8;
        }
        let new_pos = MenuGridPosition { x: x as u8, y: y as u8 };
        let changed = self.active_position != new_pos;
        self.active_position = new_pos;
        changed
    }

    /// The button under the cursor, if any.
    pub fn get_active_menu_option(&self) -> (r: Option<u64>)
        ensures
            r == (if self.buttons().contains_key(self.active()) {
                Some(self.buttons()[self.active()])
            } else {
                None::<u64>
            }),
    {
        proof {
            use_type_invariant(self);
        }
        match self.button_at(self.active_position) {
            Some(i) => {
                proof {
                    lemma_assoc_lookup(self.buttons@, i as int);
                }
                Some(self.buttons[i].1)
            },
            None => None,
        }
    }

    /// Puts the cursor back on the first row of the first column.
    pub fn reset_menu_option(&mut self)
        ensures
            final(self).active() == (MenuGridPosition { x: 1, y: 1 }),
            final(self).buttons() == old(self).buttons(),
            final(self).heights() == old(self).heights(),
            final(self).spec_width() == old(self).spec_width(),
    {
        proof {
            use_type_invariant(&*self);
        }
        self.active_position = MenuGridPosition { x: 1, y: 1 };
    }

    /// Adds a button below the others of column `col`; refused where the
    /// column is past the width.
    pub fn add_button_to_column(&mut self, col: u8, button_entity: u64) -> (r: Result<MenuGridPosition, MenuError>)
        requires
            !old(self).heights().contains_key(col) || old(self).heights()[col] < u8::MAX,
        ensures
            final(self).active() == old(self).active(),
            final(self).spec_width() == old(self).spec_width(),
            col > old(self).spec_width() ==> r == Err::<MenuGridPosition, MenuError>(MenuError::ColumnPastWidth)
                && final(self).buttons() == old(self).buttons() && final(self).heights() == old(self).heights(),
            col <= old(self).spec_width() ==> {
                let h = (if old(self).heights().contains_key(col) {
                    old(self).heights()[col] as int
                } else {
                    0
                }) + 1;
                &&& r == Ok::<MenuGridPosition, MenuError>(MenuGridPosition { x: col, y: h as u8 })
                &&& final(self).heights() == old(self).heights().insert(col, h as u8)
                &&& final(self).buttons() == old(self).buttons().insert(MenuGridPosition { x: col, y: h as u8 }, button_entity)
            },
    {
        proof {
            use_type_invariant(&*self);
        }
        if col > self.width {
            return Err(MenuError::ColumnPastWidth);
        }
        let height: u8 = match self.height_of(col) {
            Some(i) => {
                proof {
                    lemma_assoc_lookup(self.column_heights@, i as int);
                }
                let h = self.column_heights[i].1 + 1;
                proof {
                    lemma_assoc_update(self.column_heights@, i as int, h);
                }
                let mut hs: Vec<(u8, u8)> = Vec::new();
                std::mem::swap(&mut hs, &mut self.column_heights);
                hs.set(i, (col, h));
                self.column_heights = hs;
                h
            },
            None => {
                proof {
                    lemma_assoc_push(self.column_heights@, col, 1u8);
                }
                let mut hs: Vec<(u8, u8)> = Vec::new();
                std::mem::swap(&mut hs, &mut self.column_heights);
                hs.push((col, 1u8));
                self.column_heights = hs;
                1u8
            },
        };
        let pos = MenuGridPosition { x: col, y: height };
        match self.button_at(pos) {
            Some(i) => {
                proof {
                    lemma_assoc_update(self.buttons@, i as int, button_entity);
                }
                let mut bs: Vec<(MenuGridPosition, u64)> = Vec::new();
                std::mem::swap(&mut bs, &mut self.buttons);
                bs.set(i, (pos, button_entity));
                self.buttons = bs;
            },
            None => {
                proof {
                    lemma_assoc_push(self.buttons@, pos, button_entity);
                }
                let mut bs: Vec<(MenuGridPosition, u64)> = Vec::new();
                std::mem::swap(&mut bs, &mut self.buttons);
                bs.push((pos, button_entity));
                self.buttons = bs;
            },
        }
        Ok(pos)
    }

    /// Adds a button below the others of the first column.
    pub fn push_button_to_stack(&mut self, button_entity: u64) -> (pos: MenuGridPosition)
        requires
            old(self).spec_width() >= 1,
            !old(self).heights().contains_key(1) || old(self).heights()[1] < u8::MAX,
        ensures
            ({
                let h = (if old(self).heights().contains_key(1) {
                    old(self).heights()[1] as int
                } else {
                    0
                }) + 1;
                &&& pos == MenuGridPosition { x: 1, y: h as u8 }
                &&& final(self).heights() == old(self).heights().insert(1, h as u8)
                &&& final(self).buttons() == old(self).buttons().insert(pos, button_entity)
            }),
            final(self).active() == old(self).active(),
            final(self).spec_width() == old(self).spec_width(),
    {
        match self.add_button_to_column(1, button_entity) {
            Ok(pos) => pos,
            Err(_) => {
                proof {
                    assert(false);
                }
                MenuGridPosition { x: 1, y: 1 }
            },
        }
    }

    /// Adds the buttons, in order, below the others of the first column.
    pub fn push_buttons_to_stack(&mut self, buttons: &Vec<u64>)
        requires
            old(self).spec_width() >= 1,
            column_height(old(self).heights(), 1) + buttons@.len() <= u8::MAX,
        ensures
            column_height(final(self).heights(), 1) == column_height(old(self).heights(), 1) + buttons@.len(),
            final(self).active() == old(self).active(),
            final(self).spec_width() == old(self).spec_width(),
            forall|i: int|
                0 <= i < buttons@.len() ==> final(self).buttons().contains_key(
                    #[trigger] stack_slot(column_height(old(self).heights(), 1), i),
                ) && final(self).buttons()[stack_slot(column_height(old(self).heights(), 1), i)] == buttons@[i],
            forall|q: MenuGridPosition|
                !in_stack(q, column_height(old(self).heights(), 1), buttons@.len() as int) ==> (#[trigger] final(self).buttons().contains_key(q)
                    == old(self).buttons().contains_key(q) && (old(self).buttons().contains_key(q) ==> final(self).buttons()[q]
                    == old(self).buttons()[q])),
            forall|c: u8| c != 1 ==> (#[trigger] final(self).heights().contains_key(c) == old(self).heights().contains_key(c)
                && (old(self).heights().contains_key(c) ==> final(self).heights()[c] == old(self).heights()[c])),
    {
        let ghost base: int = column_height(self.heights(), 1);
        let mut i: usize = 0;
        while i < buttons.len()
            invariant
                i <= buttons@.len(),
                base == column_height(old(self).heights(), 1),
                0 <= base,
                base + buttons@.len() <= u8::MAX,
                self.spec_width() >= 1,
                self.active() == old(self).active(),
                self.spec_width() == old(self).spec_width(),
                column_height(self.heights(), 1) == base + i,
                forall|k: int|
                    0 <= k < i ==> self.buttons().contains_key(#[trigger] stack_slot(base, k))
                        && self.buttons()[stack_slot(base, k)] == buttons@[k],
                forall|q: MenuGridPosition|
                    !in_stack(q, base, i as int) ==> (#[trigger] self.buttons().contains_key(q)
                        == old(self).buttons().contains_key(q) && (old(self).buttons().contains_key(q) ==> self.buttons()[q]
                        == old(self).buttons()[q])),
                forall|c: u8| c != 1 ==> (#[trigger] self.heights().contains_key(c) == old(self).heights().contains_key(c)
                    && (old(self).heights().contains_key(c) ==> self.heights()[c] == old(self).heights()[c])),
            decreases buttons@.len() - i,
        {
            let ghost before = self.buttons();
            let pos = self.push_button_to_stack(buttons[i]);
            proof {
                assert(pos == stack_slot(base, i as int));
                assert forall|q: MenuGridPosition| !in_stack(q, base, i + 1) implies (#[trigger] self.buttons().contains_key(q)
                    == old(self).buttons().contains_key(q) && (old(self).buttons().contains_key(q) ==> self.buttons()[q]
                    == old(self).buttons()[q])) by {
                    assert(q != pos);
                    assert(!in_stack(q, base, i as int));
                }
                assert forall|k: int| 0 <= k < i + 1 implies self.buttons().contains_key(#[trigger] stack_slot(base, k))
                    && self.buttons()[stack_slot(base, k)] == buttons@[k] by {
                    if k < i {
                        assert(before.contains_key(stack_slot(base, k)));
                        assert(stack_slot(base, k) != pos);
                    }
                }
            }
            i = i + 1;
        }
    }

    /// Moves the cursor by a frame's `delta` where it is not zero; says
    /// whether the cursor moved (which makes the cursor sound).
    pub fn navigate(&mut self, delta: MenuVec) -> (moved: bool)
        requires
            old(self).active().x <= 127,
            old(self).active().y <= 127,
            old(self).spec_width() <= 127,
            -128 <= old(self).active().x + delta.x <= 127,
            -128 <= old(self).active().y + delta.y <= 127,
            forall|c: u8| #[trigger] old(self).heights().contains_key(c) ==> old(self).heights()[c] <= 127,
        ensures
            final(self).buttons() == old(self).buttons(),
            final(self).heights() == old(self).heights(),
            final(self).spec_width() == old(self).spec_width(),
            delta.x == 0 && delta.y == 0 ==> !moved && final(self).active() == old(self).active(),
            !(delta.x == 0 && delta.y == 0) ==> ({
                let x = wrapped_column(old(self).active(), delta, old(self).spec_width() as int);
                if old(self).heights().contains_key(x as u8) {
                    let new_pos = MenuGridPosition {
                        x: x as u8,
                        y: wrapped_row(old(self).active(), delta, old(self).heights()[x as u8] as int) as u8,
                    };
                    final(self).active() == new_pos && moved == (new_pos != old(self).active())
                } else {
                    final(self).active() == old(self).active() && !moved
                }
            }),
    {
        if delta.x == 0 && delta.y == 0 {
            return false;
        }
        self.apply_menu_vec_to_cursor(delta)
    }

    /// Each button with whether it is the one under the cursor (highlighted)
    /// or not (shown as selectable).
    pub fn highlighted_buttons(&self) -> (r: Vec<(u64, bool)>)
        ensures
            r@.len() == self.button_list().len(),
            forall|i: int| 0 <= i < r@.len() ==> (#[trigger] r@[i]).0 == self.button_list()[i].1
                && r@[i].1 == (self.buttons().contains_key(self.active())
                    && self.button_list()[i].1 == self.buttons()[self.active()]),
    {
        let active = self.get_active_menu_option();
        let mut r: Vec<(u64, bool)> = Vec::new();
        let mut i: usize = 0;
        while i < self.buttons.len()
            invariant
                i <= self.buttons@.len(),
                r@.len() == i,
                active == (if self.buttons().contains_key(self.active()) {
                    Some(self.buttons()[self.active()])
                } else {
                    None::<u64>
                }),
                forall|k: int| 0 <= k < i ==> (#[trigger] r@[k]).0 == self.buttons@[k].1
                    && r@[k].1 == (self.buttons().contains_key(self.active())
                        && self.buttons@[k].1 == self.buttons()[self.active()]),
            decreases self.buttons@.len() - i,
        {
            let e = self.buttons[i].1;
            let lit = match active {
                Some(a) => a == e,
                None => false,
            };
            r.push((e, lit));
            i = i + 1;
        }
        r
    }

    /// Removes the button at `position`; where there was one, its column
    /// gets one row shorter (not below zero). `lemma_remove_and_columns`
    /// says what this does to filled columns.
    pub fn remove_button(&mut self, position: &MenuGridPosition) -> (r: Result<(), MenuError>)
        ensures
            r is Ok,
            final(self).active() == old(self).active(),
            final(self).spec_width() == old(self).spec_width(),
            final(self).buttons() == old(self).buttons().remove(*position),
            final(self).heights() == heights_after_removal(old(self).buttons(), old(self).heights(), *position),
    {
        proof {
            use_type_invariant(&*self);
        }
        match self.button_at(*position) {
            Some(i) => {
                proof {
                    lemma_assoc_remove(self.buttons@, i as int);
                }
                let mut bs: Vec<(MenuGridPosition, u64)> = Vec::new();
                std::mem::swap(&mut bs, &mut self.buttons);
                bs.remove(i);
                self.buttons = bs;
                match self.height_of(position.x) {
                    Some(k) => {
                        proof {
                            lemma_assoc_lookup(self.column_heights@, k as int);
                        }
                        let h = self.column_heights[k].1.saturating_sub(1);
                        proof {
                            lemma_assoc_update(self.column_heights@, k as int, h);
                        }
                        let mut hs: Vec<(u8, u8)> = Vec::new();
                        std::mem::swap(&mut hs, &mut self.column_heights);
                        hs.set(k, (position.x, h));
                        self.column_heights = hs;
                    },
                    None => {},
                }
            },
            None => {
                proof {
                    assert(self.buttons().remove(*position) =~= self.buttons());
                }
            },
        }
        Ok(())
    }
}

/// The cursor move asked for in one frame: the stick's new direction (rows
/// grow downwards, so its vertical part is inverted), then up and down
/// presses.
pub fn menu_delta(axis_delta: Option<(i8, i8)>, up_pressed: bool, down_pressed: bool) -> (v: MenuVec)
    requires
        axis_delta matches Some((ax, ay)) ==> -1 <= ax <= 1 && -1 <= ay <= 1,
    ensures
        v.x == (match axis_delta {
            Some((ax, _)) => ax as int,
            None => 0,
        }),
        v.y == (match axis_delta {
            Some((_, ay)) => -ay,
            None => 0,
        }) - (if up_pressed { 1int } else { 0 }) + (if down_pressed { 1int } else { 0 }),
{
    let mut v = MenuVec { x: 0, y: 0 };
    if let Some((ax, ay)) = axis_delta {
        v.x = v.x + ax;
        v.y = v.y - ay;
    }
    if up_pressed {
        v.y = v.y - 1;
    }
    if down_pressed {
        v.y = v.y + 1;
    }
    v
}

/// The direction the stick newly points to, where it changed since the
/// latch was set.
pub fn check_latch_on_axis_move(latch: (i8, i8), dir: (i8, i8)) -> (r: Option<(i8, i8)>)
    ensures
        r == (if latch != dir {
            Some(dir)
        } else {
            None::<(i8, i8)>
        }),
{
    if latch.0 != dir.0 || latch.1 != dir.1 {
        Some(dir)
    } else {
        None
    }
}

#[derive(Clone, Copy, PartialEq, Eq, Structural, Debug)]
pub enum HortDirection {
    East,
    West,
}

/// A choice among options, cycled through with left and right.
pub struct HorizontalSelector<T> {
    options: Vec<T>,
    current_index: u32,
}

/// The index after a step: past either end it wraps to the other end (to
/// `u32::MAX` when there are no options).
pub open spec fn stepped_index(current: int, len: int, h: HortDirection) -> u32 {
    let n = match h {
        HortDirection::East => current + 1,
        HortDirection::West => current - 1,
    };
    if n >= len {
        0
    } else if n < 0 {
        if len == 0 {
            u32::MAX
        } else {
            (len - 1) as u32
        }
    } else {
        n as u32
    }
}

impl<T: Copy> HorizontalSelector<T> {
    pub closed spec fn options(self) -> Seq<T> {
        self.options@
    }

    pub closed spec fn index(self) -> u32 {
        self.current_index
    }

    /// The options, the first one chosen.
    pub fn new(options: &[T]) -> (s: HorizontalSelector<T>)
        ensures
            s.options() == options@,
            s.index() == 0,
    {
        let mut v: Vec<T> = Vec::new();
        let mut i: usize = 0;
        while i < options.len()
            invariant
                i <= options@.len(),
                v@ == options@.take(i as int),
            decreases options@.len() - i,
        {
            v.push(options[i]);
            i = i + 1;
            proof {
                assert(v@ =~= options@.take(i as int));
            }
        }
        assert(options@.take(options@.len() as int) =~= options@);
        HorizontalSelector { options: v, current_index: 0 }
    }

    /// Steps to the next (east) or previous (west) option, wrapping around.
    pub fn apply_index(&mut self, h: HortDirection)
        requires
            old(self).index() <= i32::MAX,
            old(self).options().len() <= i32::MAX,
        ensures
            final(self).options() == old(self).options(),
            final(self).index() == stepped_index(old(self).index() as int, old(self).options().len() as int, h),
    {
        let mut current_index: i64 = self.current_index as i64;
        match h {
            HortDirection::East => current_index = current_index + 1,
            HortDirection::West => current_index = current_index - 1,
        }
        let len = self.options.len() as i64;
        if current_index >= len {
            current_index = 0;
        } else if current_index < 0 {
            current_index = len - 1;
        }
        self.current_index = if current_index < 0 {
            u32::MAX
        } else {
            current_index as u32
        };
    }

    /// Chooses the option at `index`, where there is one.
    pub fn set_position(&mut self, index: usize)
        ensures
            final(self).options() == old(self).options(),
            final(self).index() == if index < old(self).options().len() && index <= u32::MAX {
                index as u32
            } else {
                old(self).index()
            },
    {
        if index < self.options.len() && index <= u32::MAX as usize {
            self.current_index = index as u32;
        }
    }

    /// The chosen option, if the index is in range.
    pub fn get_current(&self) -> (r: Option<T>)
        ensures
            r == (if self.index() < self.options().len() {
                Some(self.options()[self.index() as int])
            } else {
                None::<T>
            }),
    {
        if (self.current_index as usize) < self.options.len() {
            Some(self.options[self.current_index as usize])
        } else {
            None
        }
    }
}

/// The steps a selector takes in one frame: one for the stick newly
/// pointing east or west, then one west for a left press and one east for
/// a right press.
pub open spec fn horizontal_steps_spec(axis_change: Option<(i8, i8)>, left: bool, right: bool) -> Seq<HortDirection> {
    let stick: Seq<HortDirection> = match axis_change {
        Some((1, 0)) => seq![HortDirection::East],
        Some((-1, 0)) => seq![HortDirection::West],
        _ => seq![],
    };
    stick + (if left { seq![HortDirection::West] } else { seq![] }) + (if right { seq![HortDirection::East] } else { seq![] })
}

pub fn horizontal_steps(axis_change: Option<(i8, i8)>, left: bool, right: bool) -> (r: Vec<HortDirection>)
    ensures
        r@ == horizontal_steps_spec(axis_change, left, right),
{
    let mut r: Vec<HortDirection> = Vec::new();
    match axis_change {
        Some((1, 0)) => r.push(HortDirection::East),
        Some((-1, 0)) => r.push(HortDirection::West),
        _ => {},
    }
    let ghost stick = r@;
    if left {
        r.push(HortDirection::West);
    }
    let ghost after_left = r@;
    if right {
        r.push(HortDirection::East);
    }
    proof {
        assert(after_left =~= stick + (if left { seq![HortDirection::West] } else { seq![] }));
        assert(r@ =~= horizontal_steps_spec(axis_change, left, right));
    }
    r
}

/// Stepping a selector one way and then back returns to the option it
/// started on.
pub proof fn lemma_selector_round_trip(current: int, len: int)
    requires
        0 <= current < len,
        len <= u32::MAX,
    ensures
        stepped_index(stepped_index(current, len, HortDirection::East) as int, len, HortDirection::West) == current,
        stepped_index(stepped_index(current, len, HortDirection::West) as int, len, HortDirection::East) == current,
{
}

} // verus!
