//! Battle maps: a square of water around a field of grass, crossed by two
//! bridges, with rocks, bushes and trees scattered on the field.
//!
//! The random draws (which grass is dead, where the bridges stand, which
//! tiles get an obstacle) are made by the caller; this module lays the map
//! out from them. Tiles are addressed in tile space, where the water border
//! takes two rows and columns; game space swaps the axes and starts inside
//! the border.
use vstd::prelude::*;
use crate::animation::Direction;
use crate::assoc::{assoc_map, has_key, keys_unique, lemma_assoc_lookup, lemma_assoc_push, lemma_assoc_update};
use crate::grid::GridPosition;

verus! {

/// Rooms in the demo dungeon; the last one holds the boss.
pub const DEMO_DUNGEON_ROOMS: u8 = 3;

/// Tiles along each side of a map.
pub const MAP_GRID_SIZE: u32 = 17;

/// The last tile index along each side.
pub const MAP_BOUNDS_MAX: u32 = 16;

/// Columns in the tile sheet.
pub const TT_COLS: u32 = 16;

#[derive(Clone, Copy, PartialEq, Eq, Structural, Debug)]
pub enum Obstacle {
    Rock1,
    Rock2,
    Bush,
    Tree,
}

#[derive(Clone, Copy, PartialEq, Eq, Structural, Debug)]
pub struct LayerId(pub u32);

/// A place in tile space seen in game space: axes swapped, border removed.
pub open spec fn to_game_space_spec(g: GridPosition) -> GridPosition {
    GridPosition { x: (g.y - 2) as u32, y: (g.x - 2) as u32 }
}

pub fn to_game_space(g: GridPosition) -> (r: GridPosition)
    requires
        g.x >= 2,
        g.y >= 2,
    ensures
        r == to_game_space_spec(g),
{
    GridPosition { x: g.y - 2, y: g.x - 2 }
}

/// A place in the tile sheet: row and column, both counted from 1.
#[derive(Clone, Copy, PartialEq, Eq, Structural, Debug)]
pub struct TtIndex {
    pub row: u32,
    pub col: u32,
}

impl TtIndex {
    pub fn new(row: u32, col: u32) -> (t: TtIndex)
        ensures
            t.row == row,
            t.col == col,
    {
        TtIndex { row, col }
    }

    /// The place counted from 1 along the sheet's rows.
    pub fn index(&self) -> (i: u32)
        requires
            self.row >= 1,
            (self.row - 1) * TT_COLS + self.col <= u32::MAX,
        ensures
            i == (self.row - 1) * TT_COLS + self.col,
    {
        (self.row - 1) * TT_COLS + self.col
    }
}

#[derive(Clone, Copy, PartialEq, Eq, Structural, Debug)]
pub enum WaterTileType {
    Corner(Direction),
    Edge(Direction),
    Plain,
}

#[derive(Clone, Copy, PartialEq, Eq, Structural, Debug)]
pub enum BridgeTileType {
    Plain(Direction),
}

#[derive(Clone, Copy, PartialEq, Eq, Structural, Debug)]
pub enum GrassTileType {
    Grass,
    DeadGrass,
}

#[derive(Clone, Copy, PartialEq, Eq, Structural, Debug)]
pub enum TileType {
    Water(WaterTileType),
    Grass(GrassTileType),
    Bridge(BridgeTileType),
}

impl WaterTileType {
    pub open spec fn tt_spec(self) -> (u32, u32) {
        match self {
            WaterTileType::Corner(d) => match d {
                Direction::NE => (3, 6),
                Direction::NW => (5, 6),
                Direction::SE => (3, 8),
                Direction::SW => (5, 8),
            },
            WaterTileType::Edge(d) => match d {
                Direction::NE => (3, 7),
                Direction::NW => (4, 6),
                Direction::SE => (4, 8),
                Direction::SW => (5, 7),
            },
            WaterTileType::Plain => (3, 2),
        }
    }

    pub fn get_tt_index(&self) -> (t: TtIndex)
        ensures
            (t.row, t.col) == self.tt_spec(),
    {
        match self {
            WaterTileType::Corner(d) => match d {
                Direction::NE => TtIndex::new(3, 6),
                Direction::NW => TtIndex::new(5, 6),
                Direction::SE => TtIndex::new(3, 8),
                Direction::SW => TtIndex::new(5, 8),
            },
            WaterTileType::Edge(d) => match d {
                Direction::NE => TtIndex::new(3, 7),
                Direction::NW => TtIndex::new(4, 6),
                Direction::SE => TtIndex::new(4, 8),
                Direction::SW => TtIndex::new(5, 7),
            },
            WaterTileType::Plain => TtIndex::new(3, 2),
        }
    }
}

impl GrassTileType {
    pub open spec fn tt_spec(self) -> (u32, u32) {
        match self {
            GrassTileType::Grass => (1, 2),
            GrassTileType::DeadGrass => (2, 15),
        }
    }

    pub fn get_tt_index(&self) -> (t: TtIndex)
        ensures
            (t.row, t.col) == self.tt_spec(),
    {
        match self {
            GrassTileType::Grass => TtIndex::new(1, 2),
            GrassTileType::DeadGrass => TtIndex::new(2, 15),
        }
    }
}

impl BridgeTileType {
    pub open spec fn tt_spec(self) -> (u32, u32) {
        match self {
            BridgeTileType::Plain(d) => match d {
                Direction::NE | Direction::SW => (6, 4),
                Direction::SE | Direction::NW => (7, 7),
            },
        }
    }

    pub fn get_tt_index(&self) -> (t: TtIndex)
        ensures
            (t.row, t.col) == self.tt_spec(),
    {
        match self {
            BridgeTileType::Plain(d) => match d {
                Direction::NE | Direction::SW => TtIndex::new(6, 4),
                Direction::SE | Direction::NW => TtIndex::new(7, 7),
            },
        }
    }
}

impl TileType {
    pub open spec fn tt_spec(self) -> (u32, u32) {
        match self {
            TileType::Water(w) => w.tt_spec(),
            TileType::Grass(g) => g.tt_spec(),
            TileType::Bridge(b) => b.tt_spec(),
        }
    }

    /// The tile's place in the sheet, counted from 0 along its rows.
    pub fn tile_texture_index(&self) -> (i: u32)
        ensures
            i == (self.tt_spec().0 - 1) * TT_COLS + self.tt_spec().1 - 1,
    {
        let t = match self {
            TileType::Water(w) => w.get_tt_index(),
            TileType::Grass(g) => g.get_tt_index(),
            TileType::Bridge(b) => b.get_tt_index(),
        };
        t.index() - 1
    }
}

/// The water tile at `(x, y)` of a map whose last tile is `(mx, my)`:
/// corners and edges along the border, plain water inside.
pub open spec fn water_tile_spec(x: u32, y: u32, mx: u32, my: u32) -> WaterTileType {
    if x == mx && y == my {
        WaterTileType::Corner(Direction::SE)
    } else if x == mx && y == 0 {
        WaterTileType::Corner(Direction::SW)
    } else if x == 0 && y == my {
        WaterTileType::Corner(Direction::NE)
    } else if x == 0 && y == 0 {
        WaterTileType::Corner(Direction::NW)
    } else if x == mx {
        WaterTileType::Edge(Direction::SE)
    } else if y == my {
        WaterTileType::Edge(Direction::NE)
    } else if y == 0 {
        WaterTileType::Edge(Direction::SW)
    } else if x == 0 {
        WaterTileType::Edge(Direction::NW)
    } else {
        WaterTileType::Plain
    }
}

pub fn water_tile(x: u32, y: u32, mx: u32, my: u32) -> (w: WaterTileType)
    ensures
        w == water_tile_spec(x, y, mx, my),
{
    if x == mx && y == my {
        WaterTileType::Corner(Direction::SE)
    } else if x == mx && y == 0 {
        WaterTileType::Corner(Direction::SW)
    } else if x == 0 && y == my {
        WaterTileType::Corner(Direction::NE)
    } else if x == 0 && y == 0 {
        WaterTileType::Corner(Direction::NW)
    } else if x == mx {
        WaterTileType::Edge(Direction::SE)
    } else if y == my {
        WaterTileType::Edge(Direction::NE)
    } else if y == 0 {
        WaterTileType::Edge(Direction::SW)
    } else if x == 0 {
        WaterTileType::Edge(Direction::NW)
    } else {
        WaterTileType::Plain
    }
}

/// The places filled so far by a loop over columns `0..=x_end` and, within
/// each, rows `0..=y_end`, standing at column `x` and row `y`.
pub open spec fn swept(p: GridPosition, x0: int, y0: int, x: int, y: int, y_end: int) -> bool {
    &&& x0 <= p.x && y0 <= p.y <= y_end
    &&& (p.x < x || (p.x == x && p.y < y))
}

/// The water layer: every tile of the map, water.
pub open spec fn water_layer_spec(mx: u32, my: u32) -> Map<GridPosition, TileType> {
    Map::new(
        |p: GridPosition| p.x <= mx && p.y <= my,
        |p: GridPosition| TileType::Water(water_tile_spec(p.x, p.y, mx, my)),
    )
}

/// Builds the water layer of a map whose last tile is `(mx, my)`.
pub fn water_layer(mx: u32, my: u32) -> (r: Vec<(GridPosition, TileType)>)
    requires
        mx < u32::MAX,
        my < u32::MAX,
    ensures
        keys_unique(r@),
        assoc_map(r@) == water_layer_spec(mx, my),
{
    let mut r: Vec<(GridPosition, TileType)> = Vec::new();
    let mut x: u32 = 0;
    while x <= mx
        invariant
            x <= mx + 1,
            mx < u32::MAX,
            my < u32::MAX,
            keys_unique(r@),
            assoc_map(r@) == Map::new(
                |p: GridPosition| swept(p, 0, 0, x as int, 0, my as int),
                |p: GridPosition| TileType::Water(water_tile_spec(p.x, p.y, mx, my)),
            ),
        decreases mx + 1 - x,
    {
        let mut y: u32 = 0;
        while y <= my
            invariant
                x <= mx,
                y <= my + 1,
                my < u32::MAX,
                keys_unique(r@),
                assoc_map(r@) == Map::new(
                    |p: GridPosition| swept(p, 0, 0, x as int, y as int, my as int),
                    |p: GridPosition| TileType::Water(water_tile_spec(p.x, p.y, mx, my)),
                ),
            decreases my + 1 - y,
        {
            let p = GridPosition { x, y };
            let t = TileType::Water(water_tile(x, y, mx, my));
            proof {
                assert(!assoc_map(r@).contains_key(p));
                lemma_assoc_push(r@, p, t);
            }
            r.push((p, t));
            y = y + 1;
            proof {
                assert(assoc_map(r@) =~= Map::new(
                    |q: GridPosition| swept(q, 0, 0, x as int, y as int, my as int),
                    |q: GridPosition| TileType::Water(water_tile_spec(q.x, q.y, mx, my)),
                ));
            }
        }
        x = x + 1;
        proof {
            assert(assoc_map(r@) =~= Map::new(
                |q: GridPosition| swept(q, 0, 0, x as int, 0, my as int),
                |q: GridPosition| TileType::Water(water_tile_spec(q.x, q.y, mx, my)),
            ));
        }
    }
    assert(assoc_map(r@) =~= water_layer_spec(mx, my));
    r
}

/// Sets `p` to `t` in a layer, replacing what stood there.
fn layer_insert<V>(layer: &mut Vec<(GridPosition, V)>, p: GridPosition, t: V)
    requires
        keys_unique(old(layer)@),
    ensures
        keys_unique(final(layer)@),
        assoc_map(final(layer)@) == assoc_map(old(layer)@).insert(p, t),
{
    let mut i: usize = 0;
    while i < layer.len()
        invariant
            i <= layer@.len(),
            layer@ == old(layer)@,
            keys_unique(layer@),
            forall|j: int| 0 <= j < i ==> layer@[j].0 != p,
        decreases layer@.len() - i,
    {
        if layer[i].0 == p {
            proof {
                lemma_assoc_update(layer@, i as int, t);
            }
            layer.set(i, (p, t));
            return;
        }
        i = i + 1;
    }
    proof {
        lemma_assoc_push(layer@, p, t);
    }
    layer.push((p, t));
}

/// Where the bridges stand and the places kept free around them: the
/// players start on the first bridge's end of the field, and the far end of
/// the second bridge is kept clear.
#[derive(Clone, Copy, PartialEq, Eq, Structural, Debug)]
pub struct MapLayout {
    pub bridge_x_1: u32,
    pub bridge_x_2: u32,
}

/// The four places the players start on, in game space.
pub open spec fn player_starts_spec(bridge_x_1: u32) -> Seq<GridPosition> {
    seq![
        to_game_space_spec(GridPosition { x: bridge_x_1, y: 2 }),
        to_game_space_spec(GridPosition { x: (bridge_x_1 + 1) as u32, y: 2 }),
        to_game_space_spec(GridPosition { x: bridge_x_1, y: 3 }),
        to_game_space_spec(GridPosition { x: (bridge_x_1 + 1) as u32, y: 3 }),
    ]
}

/// The four places kept clear at the end of the second bridge, in game
/// space.
pub open spec fn bridge_end_clear_spec(bridge_x_2: u32) -> Seq<GridPosition> {
    seq![
        to_game_space_spec(GridPosition { x: bridge_x_2, y: MAP_BOUNDS_MAX }),
        to_game_space_spec(GridPosition { x: (bridge_x_2 + 1) as u32, y: MAP_BOUNDS_MAX }),
        to_game_space_spec(GridPosition { x: bridge_x_2, y: (MAP_BOUNDS_MAX - 1) as u32 }),
        to_game_space_spec(GridPosition { x: (bridge_x_2 + 1) as u32, y: (MAP_BOUNDS_MAX - 1) as u32 }),
    ]
}

impl MapLayout {
    /// Bridges stand on columns `2..=13` of tile space, two tiles wide.
    pub open spec fn valid(self) -> bool {
        &&& 2 <= self.bridge_x_1 <= MAP_BOUNDS_MAX - 3
        &&& 2 <= self.bridge_x_2 <= MAP_BOUNDS_MAX - 3
    }

    /// A place no obstacle may take.
    pub open spec fn reserved(self, p: GridPosition) -> bool {
        player_starts_spec(self.bridge_x_1).contains(p) || bridge_end_clear_spec(self.bridge_x_2).contains(p)
    }

    pub fn player_starts(&self) -> (r: Vec<GridPosition>)
        requires
            self.valid(),
        ensures
            r@ == player_starts_spec(self.bridge_x_1),
    {
        let b = self.bridge_x_1;
        let r = vec![
            to_game_space(GridPosition { x: b, y: 2 }),
            to_game_space(GridPosition { x: b + 1, y: 2 }),
            to_game_space(GridPosition { x: b, y: 3 }),
            to_game_space(GridPosition { x: b + 1, y: 3 }),
        ];
        assert(r@ =~= player_starts_spec(self.bridge_x_1));
        r
    }

    pub fn bridge_end_clear(&self) -> (r: Vec<GridPosition>)
        requires
            self.valid(),
        ensures
            r@ == bridge_end_clear_spec(self.bridge_x_2),
    {
        let b = self.bridge_x_2;
        let r = vec![
            to_game_space(GridPosition { x: b, y: MAP_BOUNDS_MAX }),
            to_game_space(GridPosition { x: b + 1, y: MAP_BOUNDS_MAX }),
            to_game_space(GridPosition { x: b, y: MAP_BOUNDS_MAX - 1 }),
            to_game_space(GridPosition { x: b + 1, y: MAP_BOUNDS_MAX - 1 }),
        ];
        assert(r@ =~= bridge_end_clear_spec(self.bridge_x_2));
        r
    }

    /// The two places where units arrive on the first bridge.
    pub fn bridge_start_locations(&self) -> (r: (GridPosition, GridPosition))
        requires
            self.valid(),
        ensures
            r == (player_starts_spec(self.bridge_x_1)[0], player_starts_spec(self.bridge_x_1)[1]),
    {
        let b = self.bridge_x_1;
        (to_game_space(GridPosition { x: b, y: 2 }), to_game_space(GridPosition { x: b + 1, y: 2 }))
    }

    /// The two places where units arrive on the second bridge.
    pub fn bridge_end_locations(&self) -> (r: (GridPosition, GridPosition))
        requires
            self.valid(),
        ensures
            r == (bridge_end_clear_spec(self.bridge_x_2)[0], bridge_end_clear_spec(self.bridge_x_2)[1]),
    {
        let b = self.bridge_x_2;
        (to_game_space(GridPosition { x: b, y: MAP_BOUNDS_MAX }), to_game_space(GridPosition { x: b + 1, y: MAP_BOUNDS_MAX }))
    }

    pub fn is_reserved(&self, p: GridPosition) -> (b: bool)
        requires
            self.valid(),
        ensures
            b == self.reserved(p),
    {
        let starts = self.player_starts();
        let ends = self.bridge_end_clear();
        let mut i: usize = 0;
        while i < 4
            invariant
                starts@ == player_starts_spec(self.bridge_x_1),
                ends@ == bridge_end_clear_spec(self.bridge_x_2),
                i <= 4,
                forall|j: int| 0 <= j < i ==> starts@[j] != p && ends@[j] != p,
            decreases 4 - i,
        {
            if starts[i] == p || ends[i] == p {
                return true;
            }
            i = i + 1;
        }
        false
    }
}

/// The tile a bridge puts on the ground layer.
pub open spec fn bridge_tile() -> TileType {
    TileType::Bridge(BridgeTileType::Plain(Direction::NE))
}

/// A tile crossed by one of the bridges: two columns from the bridge's
/// column, over the top three rows for the first bridge and the bottom
/// three for the second.
pub open spec fn on_bridge(layout: MapLayout, p: GridPosition) -> bool {
    ||| (layout.bridge_x_1 <= p.x <= layout.bridge_x_1 + 1 && p.y <= 2)
    ||| (layout.bridge_x_2 <= p.x <= layout.bridge_x_2 + 1 && MAP_BOUNDS_MAX - 2 <= p.y <= MAP_BOUNDS_MAX)
}

/// The field inside the border: columns and rows `2..=14`.
pub open spec fn in_field(p: GridPosition) -> bool {
    2 <= p.x <= MAP_BOUNDS_MAX - 2 && 2 <= p.y <= MAP_BOUNDS_MAX - 2
}

/// The number of the field tile `p` in the order the field is filled
/// (column by column).
pub open spec fn field_index(p: GridPosition) -> int {
    (p.x - 2) * (MAP_BOUNDS_MAX - 3) + (p.y - 2)
}

/// The ground layer: the field in grass (dead where the draw for that tile
/// said so), then the bridges laid over it.
pub open spec fn ground_layer_spec(layout: MapLayout, dead_grass: Seq<bool>) -> Map<GridPosition, TileType> {
    Map::new(
        |p: GridPosition| in_field(p) || on_bridge(layout, p),
        |p: GridPosition| if on_bridge(layout, p) {
            bridge_tile()
        } else if dead_grass[field_index(p)] {
            TileType::Grass(GrassTileType::DeadGrass)
        } else {
            TileType::Grass(GrassTileType::Grass)
        },
    )
}

/// The number of tiles in the field.
pub open spec fn field_tiles() -> nat {
    ((MAP_BOUNDS_MAX - 3) * (MAP_BOUNDS_MAX - 3)) as nat
}

/// Builds the ground layer: `dead_grass` holds, for each field tile taken
/// column by column, whether its grass is dead.
pub fn ground_layer(layout: &MapLayout, dead_grass: &Vec<bool>) -> (r: Vec<(GridPosition, TileType)>)
    requires
        layout.valid(),
        dead_grass@.len() == field_tiles(),
    ensures
        keys_unique(r@),
        assoc_map(r@) == ground_layer_spec(*layout, dead_grass@),
{
    let mut r: Vec<(GridPosition, TileType)> = Vec::new();
    let hi: u32 = MAP_BOUNDS_MAX - 2;
    let mut x: u32 = 2;
    let mut k: usize = 0;
    while x <= hi
        invariant
            hi == MAP_BOUNDS_MAX - 2,
            2 <= x <= hi + 1,
            k == (x - 2) * 13,
            dead_grass@.len() == field_tiles(),
            keys_unique(r@),
            assoc_map(r@) == Map::new(
                |p: GridPosition| swept(p, 2, 2, x as int, 2, hi as int),
                |p: GridPosition| if dead_grass[field_index(p)] {
                    TileType::Grass(GrassTileType::DeadGrass)
                } else {
                    TileType::Grass(GrassTileType::Grass)
                },
            ),
        decreases hi + 1 - x,
    {
        let mut y: u32 = 2;
        while y <= hi
            invariant
                hi == MAP_BOUNDS_MAX - 2,
                2 <= x <= hi,
                2 <= y <= hi + 1,
                k == (x - 2) * 13 + (y - 2),
                dead_grass@.len() == field_tiles(),
                keys_unique(r@),
                assoc_map(r@) == Map::new(
                    |p: GridPosition| swept(p, 2, 2, x as int, y as int, hi as int),
                    |p: GridPosition| if dead_grass[field_index(p)] {
                        TileType::Grass(GrassTileType::DeadGrass)
                    } else {
                        TileType::Grass(GrassTileType::Grass)
                    },
                ),
            decreases hi + 1 - y,
        {
            let p = GridPosition { x, y };
            proof {
                assert(k < field_tiles()) by (nonlinear_arith)
                    requires
                        k == (x - 2) * 13 + (y - 2),
                        2 <= x <= 14,
                        2 <= y <= 14,
                ;
            }
            let t = if dead_grass[k] {
                TileType::Grass(GrassTileType::DeadGrass)
            } else {
                TileType::Grass(GrassTileType::Grass)
            };
            proof {
                assert(!assoc_map(r@).contains_key(p));
                lemma_assoc_push(r@, p, t);
                assert(field_index(p) == k);
            }
            r.push((p, t));
            y = y + 1;
            k = k + 1;
            proof {
                assert(assoc_map(r@) =~= Map::new(
                    |q: GridPosition| swept(q, 2, 2, x as int, y as int, hi as int),
                    |q: GridPosition| if dead_grass[field_index(q)] {
                        TileType::Grass(GrassTileType::DeadGrass)
                    } else {
                        TileType::Grass(GrassTileType::Grass)
                    },
                ));
            }
        }
        x = x + 1;
        proof {
            assert(assoc_map(r@) =~= Map::new(
                |q: GridPosition| swept(q, 2, 2, x as int, 2, hi as int),
                |q: GridPosition| if dead_grass[field_index(q)] {
                    TileType::Grass(GrassTileType::DeadGrass)
                } else {
                    TileType::Grass(GrassTileType::Grass)
                },
            ));
        }
    }
    let ghost grass = assoc_map(r@);
    assert(forall|p: GridPosition| #[trigger] grass.contains_key(p) <==> in_field(p));
    lay_bridge(&mut r, layout.bridge_x_1, 0);
    lay_bridge(&mut r, layout.bridge_x_2, MAP_BOUNDS_MAX - 2);
    proof {
        assert(assoc_map(r@) =~= ground_layer_spec(*layout, dead_grass@)) by {
            assert forall|p: GridPosition| #[trigger] assoc_map(r@).contains_key(p) implies assoc_map(r@)[p]
                == ground_layer_spec(*layout, dead_grass@)[p] by {
                if !on_bridge(*layout, p) {
                    assert(grass.contains_key(p));
                }
            }
        }
    }
    r
}

/// Lays a bridge two tiles wide from column `x` over rows `y0..=y0 + 2`.
fn lay_bridge(layer: &mut Vec<(GridPosition, TileType)>, x: u32, y0: u32)
    requires
        keys_unique(old(layer)@),
        x < u32::MAX - 1,
        y0 < u32::MAX - 3,
    ensures
        keys_unique(final(layer)@),
        assoc_map(final(layer)@) == Map::new(
            |p: GridPosition| assoc_map(old(layer)@).contains_key(p) || (x <= p.x <= x + 1 && y0 <= p.y <= y0 + 2),
            |p: GridPosition| if x <= p.x <= x + 1 && y0 <= p.y <= y0 + 2 {
                bridge_tile()
            } else {
                assoc_map(old(layer)@)[p]
            },
        ),
{
    let ghost before = assoc_map(layer@);
    let mut i: u32 = x;
    while i <= x + 1
        invariant
            x <= i <= x + 2,
            x < u32::MAX - 1,
            y0 < u32::MAX - 3,
            keys_unique(layer@),
            assoc_map(layer@) == Map::new(
                |p: GridPosition| before.contains_key(p) || swept(p, x as int, y0 as int, i as int, y0 as int, y0 + 2),
                |p: GridPosition| if swept(p, x as int, y0 as int, i as int, y0 as int, y0 + 2) {
                    bridge_tile()
                } else {
                    before[p]
                },
            ),
        decreases x + 2 - i,
    {
        let mut y: u32 = y0;
        while y <= y0 + 2
            invariant
                x <= i <= x + 1,
                y0 <= y <= y0 + 3,
                x < u32::MAX - 1,
                y0 < u32::MAX - 3,
                keys_unique(layer@),
                assoc_map(layer@) == Map::new(
                    |p: GridPosition| before.contains_key(p) || swept(p, x as int, y0 as int, i as int, y as int, y0 + 2),
                    |p: GridPosition| if swept(p, x as int, y0 as int, i as int, y as int, y0 + 2) {
                        bridge_tile()
                    } else {
                        before[p]
                    },
                ),
            decreases y0 + 3 - y,
        {
            layer_insert(layer, GridPosition { x: i, y }, TileType::Bridge(BridgeTileType::Plain(Direction::NE)));
            y = y + 1;
            proof {
                assert(assoc_map(layer@) =~= Map::new(
                    |p: GridPosition| before.contains_key(p) || swept(p, x as int, y0 as int, i as int, y as int, y0 + 2),
                    |p: GridPosition| if swept(p, x as int, y0 as int, i as int, y as int, y0 + 2) {
                        bridge_tile()
                    } else {
                        before[p]
                    },
                ));
            }
        }
        i = i + 1;
        proof {
            assert(assoc_map(layer@) =~= Map::new(
                |p: GridPosition| before.contains_key(p) || swept(p, x as int, y0 as int, i as int, y0 as int, y0 + 2),
                |p: GridPosition| if swept(p, x as int, y0 as int, i as int, y0 as int, y0 + 2) {
                    bridge_tile()
                } else {
                    before[p]
                },
            ));
        }
    }
    assert(assoc_map(layer@) =~= Map::new(
        |p: GridPosition| before.contains_key(p) || (x <= p.x <= x + 1 && y0 <= p.y <= y0 + 2),
        |p: GridPosition| if x <= p.x <= x + 1 && y0 <= p.y <= y0 + 2 {
            bridge_tile()
        } else {
            before[p]
        },
    ));
}

/// The field's tiles in game space, column by column of tile space.
pub open spec fn field_positions_spec() -> Seq<GridPosition> {
    Seq::new(169, |n: int| to_game_space_spec(GridPosition { x: (2 + n / 13) as u32, y: (2 + n % 13) as u32 }))
}

pub fn field_positions() -> (r: Vec<GridPosition>)
    ensures
        r@ == field_positions_spec(),
{
    let mut r: Vec<GridPosition> = Vec::new();
    let mut n: u32 = 0;
    while n < 169
        invariant
            n <= 169,
            r@ == field_positions_spec().take(n as int),
        decreases 169 - n,
    {
        r.push(to_game_space(GridPosition { x: 2 + n / 13, y: 2 + n % 13 }));
        n = n + 1;
        assert(r@ =~= field_positions_spec().take(n as int));
    }
    assert(r@ =~= field_positions_spec());
    r
}

/// The first column of the field (tile space `x == 2`), in game space.
pub open spec fn left_column_positions_spec() -> Seq<GridPosition> {
    Seq::new(13, |n: int| to_game_space_spec(GridPosition { x: 2, y: (2 + n) as u32 }))
}

/// The last row of the field (tile space `y == 14`), in game space.
pub open spec fn bottom_row_positions_spec() -> Seq<GridPosition> {
    Seq::new(13, |n: int| to_game_space_spec(GridPosition { x: (2 + n) as u32, y: (MAP_BOUNDS_MAX - 2) as u32 }))
}

pub fn left_column_positions() -> (r: Vec<GridPosition>)
    ensures
        r@ == left_column_positions_spec(),
{
    let mut r: Vec<GridPosition> = Vec::new();
    let mut n: u32 = 0;
    while n < 13
        invariant
            n <= 13,
            r@ == left_column_positions_spec().take(n as int),
        decreases 13 - n,
    {
        r.push(to_game_space(GridPosition { x: 2, y: 2 + n }));
        n = n + 1;
        assert(r@ =~= left_column_positions_spec().take(n as int));
    }
    assert(r@ =~= left_column_positions_spec());
    r
}

pub fn bottom_row_positions() -> (r: Vec<GridPosition>)
    ensures
        r@ == bottom_row_positions_spec(),
{
    let mut r: Vec<GridPosition> = Vec::new();
    let mut n: u32 = 0;
    while n < 13
        invariant
            n <= 13,
            r@ == bottom_row_positions_spec().take(n as int),
        decreases 13 - n,
    {
        r.push(to_game_space(GridPosition { x: 2 + n, y: MAP_BOUNDS_MAX - 2 }));
        n = n + 1;
        assert(r@ =~= bottom_row_positions_spec().take(n as int));
    }
    assert(r@ =~= bottom_row_positions_spec());
    r
}

/// The positions, in order, that hold no obstacle yet and are not kept
/// clear.
pub open spec fn eligible_spec(positions: Seq<GridPosition>, obstacles: Map<GridPosition, Obstacle>, layout: MapLayout) -> Seq<GridPosition>
    decreases positions.len(),
{
    if positions.len() == 0 {
        seq![]
    } else {
        let before = eligible_spec(positions.drop_last(), obstacles, layout);
        let p = positions.last();
        if obstacles.contains_key(p) || layout.reserved(p) {
            before
        } else {
            before.push(p)
        }
    }
}

/// The places among `positions` where an obstacle may still be put, in
/// order; each one gets a draw.
pub fn eligible_positions(
    positions: &Vec<GridPosition>,
    obstacles: &Vec<(GridPosition, Obstacle)>,
    layout: &MapLayout,
) -> (r: Vec<GridPosition>)
    requires
        layout.valid(),
    ensures
        r@ == eligible_spec(positions@, assoc_map(obstacles@), *layout),
{
    let mut r: Vec<GridPosition> = Vec::new();
    let mut i: usize = 0;
    while i < positions.len()
        invariant
            i <= positions@.len(),
            layout.valid(),
            r@ == eligible_spec(positions@.take(i as int), assoc_map(obstacles@), *layout),
        decreases positions@.len() - i,
    {
        let p = positions[i];
        proof {
            assert(positions@.take(i + 1).drop_last() =~= positions@.take(i as int));
        }
        let mut taken = false;
        let mut j: usize = 0;
        while j < obstacles.len()
            invariant
                j <= obstacles@.len(),
                taken == exists|k: int| 0 <= k < j && obstacles@[k].0 == p,
            decreases obstacles@.len() - j,
        {
            if obstacles[j].0 == p {
                taken = true;
            }
            j = j + 1;
        }
        assert(taken == has_key(obstacles@, p));
        if !taken && !layout.is_reserved(p) {
            r.push(p);
        }
        i = i + 1;
    }
    assert(positions@.take(positions@.len() as int) =~= positions@);
    r
}

/// The obstacles after the draws: each candidate whose draw gave an
/// obstacle gets it, later ones replacing earlier ones on the same place.
pub open spec fn placed_spec(
    base: Map<GridPosition, Obstacle>,
    candidates: Seq<GridPosition>,
    rolls: Seq<Option<Obstacle>>,
) -> Map<GridPosition, Obstacle>
    decreases candidates.len(),
{
    if candidates.len() == 0 {
        base
    } else {
        let before = placed_spec(base, candidates.drop_last(), rolls.drop_last());
        match rolls.last() {
            Some(o) => before.insert(candidates.last(), o),
            None => before,
        }
    }
}

/// Puts the drawn obstacles on their candidates: `rolls[i]` is what the
/// draw for `candidates[i]` gave.
pub fn place_obstacles(
    obstacles: &mut Vec<(GridPosition, Obstacle)>,
    candidates: &Vec<GridPosition>,
    rolls: &Vec<Option<Obstacle>>,
)
    requires
        keys_unique(old(obstacles)@),
        candidates@.len() == rolls@.len(),
    ensures
        keys_unique(final(obstacles)@),
        assoc_map(final(obstacles)@) == placed_spec(assoc_map(old(obstacles)@), candidates@, rolls@),
{
    let ghost base = assoc_map(obstacles@);
    let mut i: usize = 0;
    while i < candidates.len()
        invariant
            i <= candidates@.len(),
            candidates@.len() == rolls@.len(),
            keys_unique(obstacles@),
            assoc_map(obstacles@) == placed_spec(base, candidates@.take(i as int), rolls@.take(i as int)),
        decreases candidates@.len() - i,
    {
        proof {
            assert(candidates@.take(i + 1).drop_last() =~= candidates@.take(i as int));
            assert(rolls@.take(i + 1).drop_last() =~= rolls@.take(i as int));
        }
        match rolls[i] {
            Some(o) => {
                layer_insert(obstacles, candidates[i], o);
            },
            None => {},
        }
        i = i + 1;
    }
    assert(candidates@.take(candidates@.len() as int) =~= candidates@);
    assert(rolls@.take(rolls@.len() as int) =~= rolls@);
}

/// The obstacle a draw in `0..=1` stands for: a rock, or a bush.
pub fn obstacle_from_roll(roll: u32) -> (o: Obstacle)
    requires
        roll <= 1,
    ensures
        o == (if roll == 0 { Obstacle::Rock2 } else { Obstacle::Bush }),
{
    if roll == 0 {
        Obstacle::Rock2
    } else {
        Obstacle::Bush
    }
}

/// A laid-out battle map.
#[derive(Debug)]
pub struct MapData {
    pub grid_size: (u32, u32),
    /// Layers by height: water first, then the ground.
    pub tiles: Vec<(LayerId, Vec<(GridPosition, TileType)>)>,
    pub player_start_locations: Vec<GridPosition>,
    pub bridge_start_locations: (GridPosition, GridPosition),
    pub bridge_end_locations: (GridPosition, GridPosition),
    pub obstacles: Vec<(GridPosition, Obstacle)>,
}

/// Lays out a map from its draws: the bridges' columns, the dead grass
/// and the obstacles already placed.
pub fn build_map_data(
    layout: &MapLayout,
    dead_grass: &Vec<bool>,
    obstacles: Vec<(GridPosition, Obstacle)>,
) -> (m: MapData)
    requires
        layout.valid(),
        dead_grass@.len() == field_tiles(),
    ensures
        m.grid_size == (MAP_GRID_SIZE, MAP_GRID_SIZE),
        m.tiles@.len() == 2,
        m.tiles@[0].0 == LayerId(0),
        m.tiles@[1].0 == LayerId(1),
        keys_unique(m.tiles@[0].1@),
        keys_unique(m.tiles@[1].1@),
        assoc_map(m.tiles@[0].1@) == water_layer_spec(MAP_BOUNDS_MAX, MAP_BOUNDS_MAX),
        assoc_map(m.tiles@[1].1@) == ground_layer_spec(*layout, dead_grass@),
        m.player_start_locations@ == player_starts_spec(layout.bridge_x_1),
        m.bridge_start_locations == (player_starts_spec(layout.bridge_x_1)[0], player_starts_spec(layout.bridge_x_1)[1]),
        m.bridge_end_locations == (bridge_end_clear_spec(layout.bridge_x_2)[0], bridge_end_clear_spec(layout.bridge_x_2)[1]),
        m.obstacles@ == obstacles@,
{
    let water = water_layer(MAP_BOUNDS_MAX, MAP_BOUNDS_MAX);
    let ground = ground_layer(layout, dead_grass);
    MapData {
        grid_size: (MAP_GRID_SIZE, MAP_GRID_SIZE),
        tiles: vec![(LayerId(0), water), (LayerId(1), ground)],
        player_start_locations: layout.player_starts(),
        bridge_start_locations: layout.bridge_start_locations(),
        bridge_end_locations: layout.bridge_end_locations(),
        obstacles,
    }
}

/// Every candidate the draws are made for is free and not kept clear.
pub proof fn lemma_eligible_are_free(positions: Seq<GridPosition>, obstacles: Map<GridPosition, Obstacle>, layout: MapLayout)
    ensures
        forall|i: int| 0 <= i < eligible_spec(positions, obstacles, layout).len() ==> {
            let p = #[trigger] eligible_spec(positions, obstacles, layout)[i];
            !obstacles.contains_key(p) && !layout.reserved(p)
        },
    decreases positions.len(),
{
    if positions.len() > 0 {
        let before = eligible_spec(positions.drop_last(), obstacles, layout);
        lemma_eligible_are_free(positions.drop_last(), obstacles, layout);
        let r = eligible_spec(positions, obstacles, layout);
        assert forall|i: int| 0 <= i < r.len() implies !obstacles.contains_key(#[trigger] r[i]) && !layout.reserved(r[i]) by {
            if i < before.len() {
                assert(r[i] == before[i]);
            }
        }
    }
}

/// Placing obstacles on candidates that are not kept clear never puts one
/// on a kept-clear tile: where the players start and where the second
/// bridge ends stay free, whatever the draws.
pub proof fn lemma_reserved_tiles_stay_free(
    base: Map<GridPosition, Obstacle>,
    candidates: Seq<GridPosition>,
    rolls: Seq<Option<Obstacle>>,
    layout: MapLayout,
)
    requires
        candidates.len() == rolls.len(),
        forall|p: GridPosition| #[trigger] base.contains_key(p) ==> !layout.reserved(p),
        forall|i: int| 0 <= i < candidates.len() ==> !layout.reserved(#[trigger] candidates[i]),
    ensures
        forall|p: GridPosition| #[trigger] placed_spec(base, candidates, rolls).contains_key(p) ==> !layout.reserved(p),
    decreases candidates.len(),
{
    if candidates.len() > 0 {
        let c = candidates.drop_last();
        assert forall|i: int| 0 <= i < c.len() implies !layout.reserved(#[trigger] c[i]) by {
            assert(c[i] == candidates[i]);
        }
        lemma_reserved_tiles_stay_free(base, c, rolls.drop_last(), layout);
        let before = placed_spec(base, c, rolls.drop_last());
        let last = candidates.last();
        assert(!layout.reserved(candidates[candidates.len() - 1]));
        assert forall|p: GridPosition| #[trigger] placed_spec(base, candidates, rolls).contains_key(p) implies !layout.reserved(p) by {
            if p != last {
                assert(before.contains_key(p));
            }
        }
    }
}

} // verus!
