//! The battle grid: positions, direction vectors, bounded steps, the index of
//! which entity stands where, and waypoint movement along a path.
use vstd::prelude::*;
use crate::assoc::{assoc_map, has_key, keys_unique, lemma_assoc_lookup, lemma_assoc_push, lemma_assoc_remove, lemma_assoc_update};

verus! {

/// A tile of the grid; `(0, 0)` is the lower corner.
#[derive(Clone, Copy, PartialEq, Eq, Structural, Debug, Hash)]
pub struct GridPosition {
    pub x: u32,
    pub y: u32,
}

/// A signed offset between two tiles.
#[derive(Clone, Copy, PartialEq, Eq, Structural, Debug, Hash)]
pub struct GridVec {
    pub x: i32,
    pub y: i32,
}

/// Outcome of moving a position by a vector inside bounds: either it stayed
/// inside, or it was clamped back to the edge.
#[derive(Clone, Copy, PartialEq, Eq, Structural, Debug)]
pub enum GridPositionChangeResult {
    Moved(GridPosition),
    OutOfBounds(GridPosition),
}

/// The lowest coordinate on either axis.
pub const GRID_LOWER_BOUND: i32 = 0;

pub open spec fn clamp_coord(v: int, hi: int) -> int {
    if v < 0 {
        0
    } else if v > hi {
        hi
    } else {
        v
    }
}

pub open spec fn abs_int(v: int) -> int {
    if v < 0 {
        -v
    } else {
        v
    }
}

impl GridPosition {
    /// Both coordinates can be read as an `i32`.
    pub open spec fn fits_i32(self) -> bool {
        self.x <= i32::MAX && self.y <= i32::MAX
    }

    /// Adding `delta` keeps both coordinates inside the `i32` range.
    pub open spec fn shift_fits(self, delta: GridVec) -> bool {
        &&& i32::MIN <= self.x + delta.x <= i32::MAX
        &&& i32::MIN <= self.y + delta.y <= i32::MAX
    }

    /// `self + delta`, clamped into `[0, bounds]` on each axis, and whether a
    /// clamp was needed.
    pub open spec fn change_spec(self, bounds: GridPosition, delta: GridVec) -> GridPositionChangeResult {
        let nx = self.x + delta.x;
        let ny = self.y + delta.y;
        let pos = GridPosition {
            x: clamp_coord(nx, bounds.x as int) as u32,
            y: clamp_coord(ny, bounds.y as int) as u32,
        };
        if 0 <= nx <= bounds.x && 0 <= ny <= bounds.y {
            GridPositionChangeResult::Moved(pos)
        } else {
            GridPositionChangeResult::OutOfBounds(pos)
        }
    }

    /// Moves by `delta`, clamping each coordinate into `[0, bounds]`; the
    /// result says whether the move left the bounds.
    pub fn change(&self, bounds: GridPosition, delta: GridVec) -> (r: GridPositionChangeResult)
        requires
            self.fits_i32(),
            bounds.fits_i32(),
            self.shift_fits(delta),
        ensures
            r == self.change_spec(bounds, delta),
    {
        let mut new_x: i32 = self.x as i32 + delta.x;
        let mut new_y: i32 = self.y as i32 + delta.y;
        let mut out_of_bounds = false;
        if new_x < GRID_LOWER_BOUND {
            new_x = GRID_LOWER_BOUND;
            out_of_bounds = true;
        }
        if new_y < GRID_LOWER_BOUND {
            new_y = GRID_LOWER_BOUND;
            out_of_bounds = true;
        }
        if new_x > bounds.x as i32 {
            new_x = bounds.x as i32;
            out_of_bounds = true;
        }
        if new_y > bounds.y as i32 {
            new_y = bounds.y as i32;
            out_of_bounds = true;
        }
        let new_position = GridPosition { x: new_x as u32, y: new_y as u32 };
        if out_of_bounds {
            GridPositionChangeResult::OutOfBounds(new_position)
        } else {
            GridPositionChangeResult::Moved(new_position)
        }
    }
}

impl GridPositionChangeResult {
    pub open spec fn spec_position(self) -> GridPosition {
        match self {
            GridPositionChangeResult::Moved(p) => p,
            GridPositionChangeResult::OutOfBounds(p) => p,
        }
    }

    /// Whether the move was clamped at an edge.
    pub fn hit_boundary(&self) -> (b: bool)
        ensures
            b == (*self is OutOfBounds),
    {
        match self {
            GridPositionChangeResult::Moved(_) => false,
            GridPositionChangeResult::OutOfBounds(_) => true,
        }
    }

    /// The position reached, clamped or not.
    pub fn position(&self) -> (p: GridPosition)
        ensures
            p == self.spec_position(),
    {
        match self {
            GridPositionChangeResult::Moved(pos) => *pos,
            GridPositionChangeResult::OutOfBounds(pos) => *pos,
        }
    }
}

impl GridVec {
    /// Multiplies both components by `scalar`.
    pub fn scale(&self, scalar: i32) -> (r: GridVec)
        requires
            i32::MIN <= self.x * scalar <= i32::MAX,
            i32::MIN <= self.y * scalar <= i32::MAX,
        ensures
            r.x == self.x * scalar,
            r.y == self.y * scalar,
    {
        GridVec { x: self.x * scalar, y: self.y * scalar }
    }
}

/// Taxicab distance between two tiles.
pub open spec fn manhattan_spec(a: GridPosition, b: GridPosition) -> int {
    abs_int(a.x - b.x) + abs_int(a.y - b.y)
}

/// Taxicab distance between two tiles, computed on `i32` coordinates.
pub fn manhattan_distance(a: &GridPosition, b: &GridPosition) -> (d: u32)
    requires
        a.fits_i32(),
        b.fits_i32(),
        manhattan_spec(*a, *b) <= i32::MAX,
    ensures
        d == manhattan_spec(*a, *b),
{
    let ax = a.x as i32;
    let bx = b.x as i32;
    let ay = a.y as i32;
    let by = b.y as i32;
    let dx: i32 = if ax >= bx {
        ax - bx
    } else {
        bx - ax
    };
    let dy: i32 = if ay >= by {
        ay - by
    } else {
        by - ay
    };
    (dx + dy) as u32
}

/// `(a.x, a.y)` comes strictly before `(b.x, b.y)` in lexicographic order.
pub open spec fn vec_lex_lt(a: GridVec, b: GridVec) -> bool {
    a.x < b.x || (a.x == b.x && a.y < b.y)
}

/// A nonzero offset reachable in at most `m` unit steps.
pub open spec fn in_movement_diamond(v: GridVec, m: int) -> bool {
    abs_int(v.x as int) + abs_int(v.y as int) <= m && !(v.x == 0 && v.y == 0)
}

/// Every offset of taxicab length `1..=movement`, ordered by `x` and then `y`.
pub fn get_movement_options(movement: u32) -> (options: Vec<GridVec>)
    requires
        movement <= i32::MAX,
    ensures
        forall|i: int, j: int|
            0 <= i < j < options.len() ==> vec_lex_lt(#[trigger] options[i], #[trigger] options[j]),
        forall|i: int|
            0 <= i < options.len() ==> in_movement_diamond(#[trigger] options[i], movement as int),
        forall|v: GridVec| in_movement_diamond(v, movement as int) ==> options@.contains(v),
{
    let mut options: Vec<GridVec> = Vec::new();
    let m: i64 = movement as i64;
    let mut dx: i64 = -m;
    while dx <= m
        invariant
            m == movement,
            0 <= m <= i32::MAX,
            -m <= dx <= m + 1,
            forall|i: int, j: int|
                0 <= i < j < options.len() ==> vec_lex_lt(
                    #[trigger] options[i],
                    #[trigger] options[j],
                ),
            forall|i: int|
                0 <= i < options.len() ==> in_movement_diamond(#[trigger] options[i], m as int)
                    && options[i].x < dx,
            forall|v: GridVec|
                in_movement_diamond(v, m as int) && v.x < dx ==> options@.contains(v),
        decreases m + 1 - dx,
    {
        let adx: i64 = if dx < 0 {
            -dx
        } else {
            dx
        };
        let dy_range: i64 = m - adx;
        let mut dy: i64 = -dy_range;
        while dy <= dy_range
            invariant
                m == movement,
                0 <= m <= i32::MAX,
                -m <= dx <= m,
                adx == abs_int(dx as int),
                dy_range == m - adx,
                -dy_range <= dy <= dy_range + 1,
                forall|i: int, j: int|
                    0 <= i < j < options.len() ==> vec_lex_lt(
                        #[trigger] options[i],
                        #[trigger] options[j],
                    ),
                forall|i: int|
                    0 <= i < options.len() ==> in_movement_diamond(#[trigger] options[i], m as int)
                        && (options[i].x < dx || (options[i].x == dx && options[i].y < dy)),
                forall|v: GridVec|
                    in_movement_diamond(v, m as int) && (v.x < dx || (v.x == dx && v.y < dy))
                        ==> options@.contains(v),
            decreases dy_range + 1 - dy,
        {
            if !(dx == 0 && dy == 0) {
                let ghost before = options@;
                let item = GridVec { x: dx as i32, y: dy as i32 };
                options.push(item);
                proof {
                    assert forall|v: GridVec|
                        in_movement_diamond(v, m as int) && (v.x < dx || (v.x == dx && v.y < dy
                            + 1)) implies options@.contains(v) by {
                        if v == item {
                            assert(options@[before.len() as int] == v);
                        } else {
                            assert(before.contains(v));
                            let k = choose|k: int| 0 <= k < before.len() && before[k] == v;
                            assert(options@[k] == v);
                        }
                    }
                }
            }
            dy = dy + 1;
        }
        dx = dx + 1;
    }
    options
}

/// Why the grid index refused a move.
#[derive(Clone, Copy, PartialEq, Eq, Structural, Debug)]
pub enum GridError {
    /// The entity was tracked at a position whose list does not hold it.
    EntityNotInOldPosition,
}

/// `s` with every occurrence of `e` taken out, order kept.
pub open spec fn without(s: Seq<u64>, e: u64) -> Seq<u64> {
    s.filter(differs_from(e))
}

/// The test "is not `e`".
pub open spec fn differs_from(e: u64) -> spec_fn(u64) -> bool {
    |x: u64| x != e
}

/// Index of the grid: for each position the entities standing there (in the
/// order they arrived), and for each entity the position it was last put at.
/// Both are kept as association lists with distinct keys.
pub struct GridManager {
    width: u32,
    height: u32,
    entities: Vec<(GridPosition, Vec<u64>)>,
    entity_positions: Vec<(u64, GridPosition)>,
}

/// The outcome of `move_entity_to` on the two maps of the index: `None` where
/// the move is refused, else the new positions map and cells map.
pub open spec fn move_outcome(
    positions: Map<u64, GridPosition>,
    cells: Map<GridPosition, Seq<u64>>,
    e: u64,
    p: GridPosition,
) -> Option<(Map<u64, GridPosition>, Map<GridPosition, Seq<u64>>)> {
    let tracked_old = positions.contains_key(e) && cells.contains_key(positions[e]);
    if tracked_old && !cells[positions[e]].contains(e) {
        None
    } else {
        let cleared = if tracked_old {
            cells.insert(positions[e], without(cells[positions[e]], e))
        } else {
            cells
        };
        let at_p = if cleared.contains_key(p) {
            cleared[p]
        } else {
            Seq::empty()
        };
        Some((positions.insert(e, p), cleared.insert(p, at_p.push(e))))
    }
}

impl GridManager {
    #[verifier::type_invariant]
    spec fn wf(self) -> bool {
        &&& keys_unique(self.entities@)
        &&& keys_unique(self.entity_positions@)
    }

    /// Width of the grid in tiles.
    pub closed spec fn spec_width(self) -> u32 {
        self.width
    }

    /// Height of the grid in tiles.
    pub closed spec fn spec_height(self) -> u32 {
        self.height
    }

    /// Last known position of each tracked entity.
    pub closed spec fn positions(self) -> Map<u64, GridPosition> {
        assoc_map(self.entity_positions@)
    }

    /// The entities listed at each position that has a list.
    pub closed spec fn cells(self) -> Map<GridPosition, Seq<u64>> {
        Map::new(
            |p: GridPosition| assoc_map(self.entities@).contains_key(p),
            |p: GridPosition| assoc_map(self.entities@)[p]@,
        )
    }

    /// The highest position of the grid: `(width - 1, height - 1)`.
    pub open spec fn spec_bounds(self) -> GridPosition {
        GridPosition { x: (self.spec_width() - 1) as u32, y: (self.spec_height() - 1) as u32 }
    }

    /// Width and height are positive and the last row and column can be read
    /// as `i32`.
    pub open spec fn dims_ok(self) -> bool {
        1 <= self.spec_width() && self.spec_width() - 1 <= i32::MAX && 1 <= self.spec_height()
            && self.spec_height() - 1 <= i32::MAX
    }

    /// An empty index for a `width` x `height` grid.
    pub fn new(width: u32, height: u32) -> (gm: GridManager)
        ensures
            gm.spec_width() == width,
            gm.spec_height() == height,
            gm.positions() == Map::<u64, GridPosition>::empty(),
            gm.cells() == Map::<GridPosition, Seq<u64>>::empty(),
    {
        let gm = GridManager { width, height, entities: Vec::new(), entity_positions: Vec::new() };
        assert(gm.positions() =~= Map::<u64, GridPosition>::empty());
        assert(gm.cells() =~= Map::<GridPosition, Seq<u64>>::empty());
        gm
    }

    /// Width of the grid in tiles.
    pub fn width(&self) -> (w: u32)
        ensures
            w == self.spec_width(),
    {
        self.width
    }

    /// Height of the grid in tiles.
    pub fn height(&self) -> (h: u32)
        ensures
            h == self.spec_height(),
    {
        self.height
    }

    fn find_entity(&self, e: u64) -> (r: Option<usize>)
        ensures
            match r {
                Some(i) => i < self.entity_positions@.len() && self.entity_positions@[i as int].0
                    == e,
                None => !has_key(self.entity_positions@, e),
            },
    {
        let mut i: usize = 0;
        while i < self.entity_positions.len()
            invariant
                i <= self.entity_positions@.len(),
                forall|j: int| 0 <= j < i ==> self.entity_positions@[j].0 != e,
            decreases self.entity_positions@.len() - i,
        {
            if self.entity_positions[i].0 == e {
                return Some(i);
            }
            i = i + 1;
        }
        None
    }

    fn find_cell(&self, p: GridPosition) -> (r: Option<usize>)
        ensures
            match r {
                Some(i) => i < self.entities@.len() && self.entities@[i as int].0 == p,
                None => !has_key(self.entities@, p),
            },
    {
        let mut i: usize = 0;
        while i < self.entities.len()
            invariant
                i <= self.entities@.len(),
                forall|j: int| 0 <= j < i ==> self.entities@[j].0 != p,
            decreases self.entities@.len() - i,
        {
            if self.entities[i].0 == p {
                return Some(i);
            }
            i = i + 1;
        }
        None
    }

    /// Records `e` at `p` in the positions map, replacing what was there.
    fn set_position(&mut self, e: u64, p: GridPosition)
        ensures
            final(self).positions() == old(self).positions().insert(e, p),
            final(self).cells() == old(self).cells(),
            final(self).spec_width() == old(self).spec_width(),
            final(self).spec_height() == old(self).spec_height(),
    {
        proof {
            use_type_invariant(&*self);
        }
        match self.find_entity(e) {
            Some(i) => {
                proof {
                    lemma_assoc_update(self.entity_positions@, i as int, p);
                }
                let mut list: Vec<(u64, GridPosition)> = Vec::new();
                std::mem::swap(&mut list, &mut self.entity_positions);
                list.set(i, (e, p));
                self.entity_positions = list;
            },
            None => {
                proof {
                    lemma_assoc_push(self.entity_positions@, e, p);
                }
                let mut list: Vec<(u64, GridPosition)> = Vec::new();
                std::mem::swap(&mut list, &mut self.entity_positions);
                list.push((e, p));
                self.entity_positions = list;
            },
        }
    }

    /// Appends `e` to the list at `p`, creating the list if there is none.
    fn push_to_cell(&mut self, e: u64, p: GridPosition)
        ensures
            final(self).cells() == old(self).cells().insert(
                p,
                (if old(self).cells().contains_key(p) {
                    old(self).cells()[p]
                } else {
                    Seq::empty()
                }).push(e),
            ),
            final(self).positions() == old(self).positions(),
            final(self).spec_width() == old(self).spec_width(),
            final(self).spec_height() == old(self).spec_height(),
    {
        proof {
            use_type_invariant(&*self);
        }
        let ghost old_cells = self.cells();
        match self.find_cell(p) {
            Some(i) => {
                proof {
                    lemma_assoc_lookup(self.entities@, i as int);
                }
                let mut list: Vec<u64> = Vec::new();
                let mut j: usize = 0;
                let n = self.entities[i].1.len();
                while j < n
                    invariant
                        i < self.entities@.len(),
                        n == self.entities@[i as int].1@.len(),
                        j <= n,
                        list@ == self.entities@[i as int].1@.take(j as int),
                    decreases n - j,
                {
                    list.push(self.entities[i].1[j]);
                    j = j + 1;
                    proof {
                        assert(list@ =~= self.entities@[i as int].1@.take(j as int));
                    }
                }
                assert(list@ =~= self.entities@[i as int].1@);
                list.push(e);
                proof {
                    lemma_assoc_update(self.entities@, i as int, list);
                }
                let mut cells: Vec<(GridPosition, Vec<u64>)> = Vec::new();
                std::mem::swap(&mut cells, &mut self.entities);
                cells.set(i, (p, list));
                self.entities = cells;
                proof {
                    lemma_assoc_lookup(self.entities@, i as int);
                    assert(self.cells() =~= old_cells.insert(p, old_cells[p].push(e)));
                }
            },
            None => {
                let mut list: Vec<u64> = Vec::new();
                list.push(e);
                proof {
                    lemma_assoc_push(self.entities@, p, list);
                }
                let mut cells: Vec<(GridPosition, Vec<u64>)> = Vec::new();
                std::mem::swap(&mut cells, &mut self.entities);
                cells.push((p, list));
                self.entities = cells;
                proof {
                    assert(self.cells() =~= old_cells.insert(p, Seq::<u64>::empty().push(e)));
                }
            },
        }
    }

    /// Replaces the list at `p`, which must exist, by itself without `e`.
    fn remove_from_cell(&mut self, i: usize, e: u64)
        requires
            i < old(self).entities@.len(),
        ensures
            old(self).cells().contains_key(old(self).entities@[i as int].0),
            final(self).cells() == old(self).cells().insert(
                old(self).entities@[i as int].0,
                without(old(self).cells()[old(self).entities@[i as int].0], e),
            ),
            final(self).positions() == old(self).positions(),
            final(self).spec_width() == old(self).spec_width(),
            final(self).spec_height() == old(self).spec_height(),
    {
        proof {
            use_type_invariant(&*self);
            lemma_assoc_lookup(self.entities@, i as int);
        }
        let ghost old_cells = self.cells();
        let p = self.entities[i].0;
        let n = self.entities[i].1.len();
        let mut kept: Vec<u64> = Vec::new();
        let mut j: usize = 0;
        while j < n
            invariant
                i < self.entities@.len(),
                n == self.entities@[i as int].1@.len(),
                j <= n,
                kept@ == without(self.entities@[i as int].1@.take(j as int), e),
            decreases n - j,
        {
            let x = self.entities[i].1[j];
            proof {
                let s = self.entities@[i as int].1@;
                assert(s.take(j + 1) =~= s.take(j as int).push(x));
                s.take(j as int).lemma_filter_push(x, differs_from(e));
            }
            if x != e {
                kept.push(x);
            }
            j = j + 1;
        }
        assert(self.entities@[i as int].1@.take(n as int) =~= self.entities@[i as int].1@);
        proof {
            lemma_assoc_update(self.entities@, i as int, kept);
        }
        let mut cells: Vec<(GridPosition, Vec<u64>)> = Vec::new();
        std::mem::swap(&mut cells, &mut self.entities);
        cells.set(i, (p, kept));
        self.entities = cells;
        proof {
            lemma_assoc_lookup(self.entities@, i as int);
            assert(self.cells() =~= old_cells.insert(p, without(old_cells[p], e)));
        }
    }

    /// Moves `e` to `p`. Where `e` was tracked at a position that has a list,
    /// it is taken out of that list first; that list must hold it, else the
    /// move is refused and nothing changes. Then `e` is recorded at `p` and
    /// appended to the list there.
    pub fn move_entity_to(&mut self, e: u64, p: GridPosition) -> (r: Result<(), GridError>)
        ensures
            final(self).spec_width() == old(self).spec_width(),
            final(self).spec_height() == old(self).spec_height(),
            match move_outcome(old(self).positions(), old(self).cells(), e, p) {
                None => r == Err::<(), GridError>(GridError::EntityNotInOldPosition)
                    && final(self).positions() == old(self).positions() && final(self).cells()
                    == old(self).cells(),
                Some((pos, cells)) => r == Ok::<(), GridError>(()) && final(self).positions()
                    == pos && final(self).cells() == cells,
            },
            index_consistent(old(self).positions(), old(self).cells()) ==> {
                &&& r is Ok
                &&& index_consistent(final(self).positions(), final(self).cells())
                &&& final(self).positions()[e] == p
                &&& final(self).cells()[p].contains(e)
                &&& lists_distinct(old(self).cells()) ==> lists_distinct(final(self).cells())
            },
    {
        proof {
            use_type_invariant(&*self);
            if index_consistent(self.positions(), self.cells()) {
                lemma_move_keeps_index_consistent(self.positions(), self.cells(), e, p);
                if lists_distinct(self.cells()) {
                    lemma_move_keeps_lists_distinct(self.positions(), self.cells(), e, p);
                }
            }
        }
        if let Some(k) = self.find_entity(e) {
            let old_position = self.entity_positions[k].1;
            proof {
                lemma_assoc_lookup(self.entity_positions@, k as int);
            }
            if let Some(i) = self.find_cell(old_position) {
                proof {
                    lemma_assoc_lookup(self.entities@, i as int);
                }
                let mut found = false;
                let mut j: usize = 0;
                let n = self.entities[i].1.len();
                while j < n
                    invariant
                        i < self.entities@.len(),
                        n == self.entities@[i as int].1@.len(),
                        j <= n,
                        found <==> exists|t: int| 0 <= t < j && self.entities@[i as int].1@[t] == e,
                    decreases n - j,
                {
                    if self.entities[i].1[j] == e {
                        found = true;
                    }
                    j = j + 1;
                }
                if !found {
                    return Err(GridError::EntityNotInOldPosition);
                }
                self.remove_from_cell(i, e);
            } else {
                proof {
                    assert(!self.cells().contains_key(old_position));
                }
            }
        }
        self.set_position(e, p);
        self.push_to_cell(e, p);
        Ok(())
    }

    /// Records `e` at `p` and appends it to the list there. Where `e` was
    /// already tracked elsewhere, the list at its earlier position keeps it.
    pub fn add_entity(&mut self, e: u64, p: GridPosition)
        ensures
            final(self).spec_width() == old(self).spec_width(),
            final(self).spec_height() == old(self).spec_height(),
            final(self).positions() == old(self).positions().insert(e, p),
            final(self).cells() == old(self).cells().insert(
                p,
                (if old(self).cells().contains_key(p) {
                    old(self).cells()[p]
                } else {
                    Seq::empty()
                }).push(e),
            ),
    {
        self.set_position(e, p);
        self.push_to_cell(e, p);
    }

    /// Forgets `e`: where it is tracked, its record goes, and the list at its
    /// recorded position, if there is one, loses every occurrence of it.
    pub fn remove_entity(&mut self, e: u64)
        ensures
            final(self).spec_width() == old(self).spec_width(),
            final(self).spec_height() == old(self).spec_height(),
            final(self).positions() == old(self).positions().remove(e),
            final(self).cells() == if old(self).positions().contains_key(e) && old(
                self,
            ).cells().contains_key(old(self).positions()[e]) {
                old(self).cells().insert(
                    old(self).positions()[e],
                    without(old(self).cells()[old(self).positions()[e]], e),
                )
            } else {
                old(self).cells()
            },
    {
        proof {
            use_type_invariant(&*self);
        }
        match self.find_entity(e) {
            Some(k) => {
                let v = self.entity_positions[k].1;
                proof {
                    lemma_assoc_lookup(self.entity_positions@, k as int);
                    lemma_assoc_remove(self.entity_positions@, k as int);
                }
                let mut list: Vec<(u64, GridPosition)> = Vec::new();
                std::mem::swap(&mut list, &mut self.entity_positions);
                list.remove(k);
                self.entity_positions = list;
                if let Some(i) = self.find_cell(v) {
                    self.remove_from_cell(i, e);
                } else {
                    proof {
                        assert(!self.cells().contains_key(v));
                    }
                }
            },
            None => {
                proof {
                    assert(!self.positions().contains_key(e));
                    assert(self.positions().remove(e) =~= self.positions());
                }
            },
        }
    }

    /// The list of entities at `p`, where there is one.
    pub fn get_by_position(&self, p: &GridPosition) -> (r: Option<&Vec<u64>>)
        ensures
            match r {
                Some(v) => self.cells().contains_key(*p) && v@ == self.cells()[*p],
                None => !self.cells().contains_key(*p),
            },
    {
        proof {
            use_type_invariant(self);
        }
        match self.find_cell(*p) {
            Some(i) => {
                proof {
                    lemma_assoc_lookup(self.entities@, i as int);
                }
                Some(&self.entities[i].1)
            },
            None => None,
        }
    }

    /// The position `e` was last recorded at, where it is tracked.
    pub fn get_by_id(&self, e: &u64) -> (r: Option<GridPosition>)
        ensures
            match r {
                Some(p) => self.positions().contains_key(*e) && self.positions()[*e] == p,
                None => !self.positions().contains_key(*e),
            },
    {
        proof {
            use_type_invariant(self);
        }
        match self.find_entity(*e) {
            Some(k) => {
                proof {
                    lemma_assoc_lookup(self.entity_positions@, k as int);
                }
                Some(self.entity_positions[k].1)
            },
            None => None,
        }
    }

    /// Moves `origin` by `delta`, clamped to the grid.
    pub fn change_position_with_bounds(&self, origin: GridPosition, delta: GridVec) -> (r:
        GridPositionChangeResult)
        requires
            self.dims_ok(),
            origin.fits_i32(),
            origin.shift_fits(delta),
        ensures
            r == origin.change_spec(self.spec_bounds(), delta),
    {
        let bounds = GridPosition { x: self.width - 1, y: self.height - 1 };
        origin.change(bounds, delta)
    }
}

/// The index after applying `moves` in order with `move_entity_to`, and the
/// entities whose move was refused, in order.
pub open spec fn apply_moves(
    positions: Map<u64, GridPosition>,
    cells: Map<GridPosition, Seq<u64>>,
    moves: Seq<(u64, GridPosition)>,
) -> (Map<u64, GridPosition>, Map<GridPosition, Seq<u64>>, Seq<u64>)
    decreases moves.len(),
{
    if moves.len() == 0 {
        (positions, cells, Seq::empty())
    } else {
        let prev = apply_moves(positions, cells, moves.drop_last());
        let (e, p) = moves.last();
        match move_outcome(prev.0, prev.1, e, p) {
            None => (prev.0, prev.1, prev.2.push(e)),
            Some((pos, c)) => (pos, c, prev.2),
        }
    }
}

/// Brings the index up to date with positions that changed outside it: each
/// `(entity, position)` is applied with `move_entity_to`, in order. Returns
/// the entities whose move was refused.
pub fn sync_grid_positions_to_manager(gm: &mut GridManager, changed: &Vec<(u64, GridPosition)>) -> (refused: Vec<u64>)
    ensures
        final(gm).spec_width() == old(gm).spec_width(),
        final(gm).spec_height() == old(gm).spec_height(),
        (final(gm).positions(), final(gm).cells(), refused@) == apply_moves(
            old(gm).positions(),
            old(gm).cells(),
            changed@,
        ),
{
    let mut refused: Vec<u64> = Vec::new();
    let mut i: usize = 0;
    while i < changed.len()
        invariant
            i <= changed@.len(),
            gm.spec_width() == old(gm).spec_width(),
            gm.spec_height() == old(gm).spec_height(),
            (gm.positions(), gm.cells(), refused@) == apply_moves(
                old(gm).positions(),
                old(gm).cells(),
                changed@.take(i as int),
            ),
        decreases changed@.len() - i,
    {
        let (e, p) = changed[i];
        proof {
            assert(changed@.take(i + 1).drop_last() =~= changed@.take(i as int));
        }
        match gm.move_entity_to(e, p) {
            Ok(()) => {},
            Err(_) => {
                refused.push(e);
            },
        }
        i = i + 1;
    }
    assert(changed@.take(changed@.len() as int) =~= changed@);
    refused
}

/// A walk along `waypoints`, one tile at a time; `current_waypoint_index`
/// is the waypoint the mover stands on.
pub struct GridMovement {
    pub waypoints: Vec<GridPosition>,
    pub current_waypoint_index: usize,
}

impl GridMovement {
    /// A walk that starts at the first waypoint.
    pub fn new(waypoints: Vec<GridPosition>) -> (m: GridMovement)
        ensures
            m.waypoints@ == waypoints@,
            m.current_waypoint_index == 0,
    {
        GridMovement { waypoints, current_waypoint_index: 0 }
    }

    /// The waypoint the mover stands on.
    pub fn current_position(&self) -> (r: Option<&GridPosition>)
        ensures
            match r {
                Some(p) => self.current_waypoint_index < self.waypoints@.len() && *p
                    == self.waypoints@[self.current_waypoint_index as int],
                None => self.current_waypoint_index >= self.waypoints@.len(),
            },
    {
        if self.current_waypoint_index < self.waypoints.len() {
            Some(&self.waypoints[self.current_waypoint_index])
        } else {
            None
        }
    }

    /// The waypoint after the current one.
    pub fn next_position(&self) -> (r: Option<&GridPosition>)
        ensures
            match r {
                Some(p) => self.current_waypoint_index + 1 < self.waypoints@.len() && *p
                    == self.waypoints@[self.current_waypoint_index + 1],
                None => self.current_waypoint_index + 1 >= self.waypoints@.len(),
            },
    {
        if self.current_waypoint_index < self.waypoints.len() && self.current_waypoint_index + 1
            < self.waypoints.len() {
            Some(&self.waypoints[self.current_waypoint_index + 1])
        } else {
            None
        }
    }

    /// Whether the mover stands on the last waypoint (or beyond it).
    pub fn is_finished(&self) -> (b: bool)
        requires
            self.waypoints@.len() >= 1,
        ensures
            b == (self.current_waypoint_index >= self.waypoints@.len() - 1),
    {
        self.current_waypoint_index >= self.waypoints.len() - 1
    }

    /// The mover has reached the next waypoint: it becomes the current one,
    /// the index records the entity there, and one movement point is spent
    /// (never going below zero). Returns the new position, the points left
    /// and the outcome of the index update.
    pub fn arrive_at_next_waypoint(
        &mut self,
        gm: &mut GridManager,
        entity: u64,
        movement_points_left: u32,
    ) -> (r: (GridPosition, u32, Result<(), GridError>))
        requires
            old(self).current_waypoint_index + 1 < old(self).waypoints@.len(),
        ensures
            r.0 == old(self).waypoints@[old(self).current_waypoint_index + 1],
            final(self).waypoints@ == old(self).waypoints@,
            final(self).current_waypoint_index == old(self).current_waypoint_index + 1,
            r.1 == (if movement_points_left == 0 {
                0
            } else {
                movement_points_left - 1
            }),
            final(gm).spec_width() == old(gm).spec_width(),
            final(gm).spec_height() == old(gm).spec_height(),
            match move_outcome(old(gm).positions(), old(gm).cells(), entity, r.0) {
                None => r.2 is Err && final(gm).positions() == old(gm).positions()
                    && final(gm).cells() == old(gm).cells(),
                Some((pos, cells)) => r.2 is Ok && final(gm).positions() == pos
                    && final(gm).cells() == cells,
            },
    {
        let n = self.waypoints.len();
        let next = self.waypoints[self.current_waypoint_index + 1];
        self.current_waypoint_index = self.current_waypoint_index + 1;
        let moved = gm.move_entity_to(entity, next);
        let left = movement_points_left.saturating_sub(1);
        (next, left, moved)
    }
}

/// Every tracked entity is listed at its recorded position, and every listed
/// entity is recorded at the position whose list holds it.
pub open spec fn index_consistent(positions: Map<u64, GridPosition>, cells: Map<GridPosition, Seq<u64>>) -> bool {
    &&& forall|e: u64|
        #[trigger] positions.contains_key(e) ==> cells.contains_key(positions[e])
            && cells[positions[e]].contains(e)
    &&& forall|p: GridPosition, e: u64|
        #[trigger] cells.contains_key(p) && #[trigger] cells[p].contains(e) ==> positions.contains_key(e)
            && positions[e] == p
}

proof fn lemma_without_contains(s: Seq<u64>, e: u64, x: u64)
    ensures
        without(s, e).contains(x) <==> (s.contains(x) && x != e),
    decreases s.len(),
{
    reveal(Seq::filter);
    if s.len() > 0 {
        lemma_without_contains(s.drop_last(), e, x);
        assert(s =~= s.drop_last().push(s.last()));
        s.drop_last().lemma_filter_push(s.last(), differs_from(e));
        if s.drop_last().contains(x) {
            let k = choose|k: int| 0 <= k < s.drop_last().len() && s.drop_last()[k] == x;
            assert(s[k] == x);
        }
        if s.contains(x) && x != s.last() {
            let k = choose|k: int| 0 <= k < s.len() && s[k] == x;
            assert(k < s.len() - 1);
            assert(s.drop_last()[k] == x);
        }
        let w = without(s.drop_last(), e);
        if w.contains(x) {
            let k = choose|k: int| 0 <= k < w.len() && w[k] == x;
            if s.last() != e {
                assert(w.push(s.last())[k] == x);
            }
        }
        if s.last() != e && x == s.last() {
            assert(w.push(s.last())[w.len() as int] == x);
        }
    }
}

/// No list of the index holds an entity twice.
pub open spec fn lists_distinct(cells: Map<GridPosition, Seq<u64>>) -> bool {
    forall|q: GridPosition| cells.contains_key(q) ==> (#[trigger] cells[q]).no_duplicates()
}

proof fn lemma_push_distinct(s: Seq<u64>, x: u64)
    requires
        s.no_duplicates(),
        !s.contains(x),
    ensures
        s.push(x).no_duplicates(),
{
    assert forall|i: int, j: int| 0 <= i < s.push(x).len() && 0 <= j < s.push(x).len() && i != j implies s.push(x)[i]
        != s.push(x)[j] by {
        if i < s.len() && j == s.len() {
            assert(s[i] == s.push(x)[i]);
        }
        if j < s.len() && i == s.len() {
            assert(s[j] == s.push(x)[j]);
        }
    }
}

proof fn lemma_without_distinct(s: Seq<u64>, e: u64)
    requires
        s.no_duplicates(),
    ensures
        without(s, e).no_duplicates(),
    decreases s.len(),
{
    reveal(Seq::filter);
    if s.len() > 0 {
        let d = s.drop_last();
        assert(s =~= d.push(s.last()));
        assert(d.no_duplicates());
        lemma_without_distinct(d, e);
        d.lemma_filter_push(s.last(), differs_from(e));
        if s.last() != e {
            lemma_without_contains(d, e, s.last());
            if d.contains(s.last()) {
                let k = choose|k: int| 0 <= k < d.len() && d[k] == s.last();
                assert(s[k] == s[s.len() - 1]);
            }
            lemma_push_distinct(without(d, e), s.last());
        }
    }
}

/// On an index where every entity is listed exactly at its recorded
/// position and no list holds an entity twice, a move keeps every list free
/// of repeats.
pub proof fn lemma_move_keeps_lists_distinct(
    positions: Map<u64, GridPosition>,
    cells: Map<GridPosition, Seq<u64>>,
    e: u64,
    p: GridPosition,
)
    requires
        index_consistent(positions, cells),
        lists_distinct(cells),
    ensures
        move_outcome(positions, cells, e, p) matches Some((_, new_cells)) && lists_distinct(new_cells),
{
    lemma_move_keeps_index_consistent(positions, cells, e, p);
    let tracked_old = positions.contains_key(e) && cells.contains_key(positions[e]);
    let cleared = if tracked_old {
        cells.insert(positions[e], without(cells[positions[e]], e))
    } else {
        cells
    };
    let at_p = if cleared.contains_key(p) {
        cleared[p]
    } else {
        Seq::empty()
    };
    let new_cells = cleared.insert(p, at_p.push(e));
    if tracked_old {
        lemma_without_distinct(cells[positions[e]], e);
    }
    assert forall|q: GridPosition| cleared.contains_key(q) implies (#[trigger] cleared[q]).no_duplicates() by {
        assert(cells.contains_key(q));
    }
    if at_p.contains(e) {
        assert(cleared.contains_key(p));
        if tracked_old && positions[e] == p {
            lemma_without_contains(cells[p], e, e);
        } else {
            assert(cells[p].contains(e));
        }
    }
    lemma_push_distinct(at_p, e);
    assert forall|q: GridPosition| new_cells.contains_key(q) implies (#[trigger] new_cells[q]).no_duplicates() by {
        if q != p {
            assert(cleared.contains_key(q));
        }
    }
}

/// On an index where every entity is listed exactly at its recorded
/// position, a move is never refused, keeps the index in that state, and
/// leaves the entity recorded at, and listed at, its new position.
pub proof fn lemma_move_keeps_index_consistent(
    positions: Map<u64, GridPosition>,
    cells: Map<GridPosition, Seq<u64>>,
    e: u64,
    p: GridPosition,
)
    requires
        index_consistent(positions, cells),
    ensures
        move_outcome(positions, cells, e, p) is Some,
        index_consistent(move_outcome(positions, cells, e, p).unwrap().0, move_outcome(positions, cells, e, p).unwrap().1),
        move_outcome(positions, cells, e, p).unwrap().0[e] == p,
        move_outcome(positions, cells, e, p).unwrap().1[p].contains(e),
{
    let tracked_old = positions.contains_key(e) && cells.contains_key(positions[e]);
    let cleared = if tracked_old {
        cells.insert(positions[e], without(cells[positions[e]], e))
    } else {
        cells
    };
    let at_p = if cleared.contains_key(p) {
        cleared[p]
    } else {
        Seq::empty()
    };
    let new_pos = positions.insert(e, p);
    let new_cells = cleared.insert(p, at_p.push(e));
    assert(new_cells[p][at_p.len() as int] == e);
    assert forall|x: u64| #[trigger] new_pos.contains_key(x) implies new_cells.contains_key(new_pos[x])
        && new_cells[new_pos[x]].contains(x) by {
        if x != e {
            let q = positions[x];
            if q == p {
                if tracked_old && positions[e] == q {
                    lemma_without_contains(cells[q], e, x);
                }
                let k = choose|k: int| 0 <= k < at_p.len() && at_p[k] == x;
                assert(new_cells[p][k] == x);
            } else if tracked_old && positions[e] == q {
                lemma_without_contains(cells[q], e, x);
            }
        }
    }
    assert forall|q: GridPosition, x: u64|
        #[trigger] new_cells.contains_key(q) && #[trigger] new_cells[q].contains(x) implies new_pos.contains_key(x)
        && new_pos[x] == q by {
        if q == p {
            if x != e {
                let k = choose|k: int| 0 <= k < new_cells[q].len() && new_cells[q][k] == x;
                assert(k < at_p.len());
                assert(at_p[k] == x);
                assert(at_p.contains(x));
                if tracked_old && positions[e] == q {
                    lemma_without_contains(cells[q], e, x);
                }
            }
        } else if tracked_old && positions[e] == q {
            lemma_without_contains(cells[q], e, x);
        } else {
            if x == e {
                assert(cells[q].contains(e));
            }
        }
    }
}

/// Taking an entity out of a consistent index keeps it consistent and leaves
/// the entity listed nowhere.
pub proof fn lemma_remove_keeps_index_consistent(
    positions: Map<u64, GridPosition>,
    cells: Map<GridPosition, Seq<u64>>,
    e: u64,
)
    requires
        index_consistent(positions, cells),
    ensures
        ({
            let new_cells = if positions.contains_key(e) && cells.contains_key(positions[e]) {
                cells.insert(positions[e], without(cells[positions[e]], e))
            } else {
                cells
            };
            &&& index_consistent(positions.remove(e), new_cells)
            &&& forall|q: GridPosition| #[trigger] new_cells.contains_key(q) ==> !new_cells[q].contains(e)
        }),
{
    let new_cells = if positions.contains_key(e) && cells.contains_key(positions[e]) {
        cells.insert(positions[e], without(cells[positions[e]], e))
    } else {
        cells
    };
    let new_pos = positions.remove(e);
    assert forall|x: u64| #[trigger] new_pos.contains_key(x) implies new_cells.contains_key(new_pos[x])
        && new_cells[new_pos[x]].contains(x) by {
        if positions.contains_key(e) && positions[e] == positions[x] {
            lemma_without_contains(cells[positions[x]], e, x);
        }
    }
    assert forall|q: GridPosition, x: u64|
        #[trigger] new_cells.contains_key(q) && #[trigger] new_cells[q].contains(x) implies new_pos.contains_key(x)
        && new_pos[x] == q by {
        if positions.contains_key(e) && positions[e] == q {
            lemma_without_contains(cells[q], e, x);
        }
    }
    assert forall|q: GridPosition| #[trigger] new_cells.contains_key(q) implies !new_cells[q].contains(e) by {
        if positions.contains_key(e) && positions[e] == q {
            lemma_without_contains(cells[q], e, e);
        }
    }
}

/// Adding an entity that is not yet tracked keeps a consistent index
/// consistent.
pub proof fn lemma_add_untracked_keeps_index_consistent(
    positions: Map<u64, GridPosition>,
    cells: Map<GridPosition, Seq<u64>>,
    e: u64,
    p: GridPosition,
)
    requires
        index_consistent(positions, cells),
        !positions.contains_key(e),
    ensures
        index_consistent(
            positions.insert(e, p),
            cells.insert(
                p,
                (if cells.contains_key(p) {
                    cells[p]
                } else {
                    Seq::empty()
                }).push(e),
            ),
        ),
{
    lemma_move_keeps_index_consistent(positions, cells, e, p);
    assert(move_outcome(positions, cells, e, p) == Some(
        (
            positions.insert(e, p),
            cells.insert(
                p,
                (if cells.contains_key(p) {
                    cells[p]
                } else {
                    Seq::empty()
                }).push(e),
            ),
        ),
    ));
}

/// Moving an entity to another tile and back again undoes the move: the
/// entity is recorded where it was, and every tile holds the same entities
/// as before (the entity now last in its tile's list).
pub proof fn lemma_move_there_and_back(
    positions: Map<u64, GridPosition>,
    cells: Map<GridPosition, Seq<u64>>,
    e: u64,
    p: GridPosition,
)
    requires
        index_consistent(positions, cells),
        positions.contains_key(e),
        positions[e] != p,
    ensures
        move_outcome(positions, cells, e, p) is Some,
        ({
            let (pos1, cells1) = move_outcome(positions, cells, e, p).unwrap();
            &&& move_outcome(pos1, cells1, e, positions[e]) is Some
            &&& move_outcome(pos1, cells1, e, positions[e]).unwrap().0 == positions
            &&& forall|q: GridPosition, x: u64|
                (#[trigger] move_outcome(pos1, cells1, e, positions[e]).unwrap().1.contains_key(q)
                    && move_outcome(pos1, cells1, e, positions[e]).unwrap().1[q].contains(x))
                    == (cells.contains_key(q) && #[trigger] cells[q].contains(x))
        }),
{
    let p0 = positions[e];
    lemma_move_keeps_index_consistent(positions, cells, e, p);
    let (pos1, cells1) = move_outcome(positions, cells, e, p).unwrap();
    lemma_move_keeps_index_consistent(pos1, cells1, e, p0);
    let (pos2, cells2) = move_outcome(pos1, cells1, e, p0).unwrap();
    assert(pos2 =~= positions);
    assert forall|q: GridPosition, x: u64|
        (#[trigger] cells2.contains_key(q) && cells2[q].contains(x)) == (cells.contains_key(q) && #[trigger] cells[q].contains(x)) by {
        lemma_without_contains(cells[p0], e, x);
        let at_p = if cells.contains_key(p) { cells[p] } else { Seq::<u64>::empty() };
        lemma_without_contains(at_p.push(e), e, x);
        assert(at_p.push(e).contains(x) <==> (at_p.contains(x) || x == e)) by {
            if at_p.push(e).contains(x) {
                let k = choose|k: int| 0 <= k < at_p.push(e).len() && at_p.push(e)[k] == x;
                if k < at_p.len() {
                    assert(at_p[k] == x);
                }
            }
            if at_p.contains(x) {
                let k = choose|k: int| 0 <= k < at_p.len() && at_p[k] == x;
                assert(at_p.push(e)[k] == x);
            }
            assert(at_p.push(e)[at_p.len() as int] == e);
        }
        let w = without(cells[p0], e);
        assert(w.push(e).contains(x) <==> (w.contains(x) || x == e)) by {
            if w.push(e).contains(x) {
                let k = choose|k: int| 0 <= k < w.push(e).len() && w.push(e)[k] == x;
                if k < w.len() {
                    assert(w[k] == x);
                }
            }
            if w.contains(x) {
                let k = choose|k: int| 0 <= k < w.len() && w[k] == x;
                assert(w.push(e)[k] == x);
            }
            assert(w.push(e)[w.len() as int] == e);
        }
        if cells.contains_key(p) && cells[p].contains(e) {
            assert(positions[e] == p);
        }
    }
}

} // verus!
