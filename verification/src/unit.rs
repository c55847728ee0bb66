//! Units on the grid: teams, stats, obstacles, and the search for the tiles
//! a unit can move to.
use vstd::prelude::*;
use crate::grid::{abs_int, clamp_coord, manhattan_distance, manhattan_spec, GridManager, GridPosition, GridPositionChangeResult, GridVec};
use crate::combat::AttackIntent;
use crate::combat::skills::Targeting;

pub mod jobs;

verus! {

/// The side a unit fights for.
#[derive(Clone, Copy, PartialEq, Eq, Structural, Debug, Hash)]
pub struct Team(pub u32);

/// Id of the players' team.
pub const PLAYER_TEAM_ID: u32 = 1;

/// Id of the enemies' team.
pub const ENEMY_TEAM_ID: u32 = 2;

/// Id of the team of obstacles, which is against nobody.
pub const NEUTRAL_TEAM_ID: u32 = 0;

impl Team {
    /// The players' team.
    pub fn player() -> (t: Team)
        ensures
            t.0 == PLAYER_TEAM_ID,
    {
        Team(PLAYER_TEAM_ID)
    }

    /// The enemies' team.
    pub fn enemy() -> (t: Team)
        ensures
            t.0 == ENEMY_TEAM_ID,
    {
        Team(ENEMY_TEAM_ID)
    }

    /// The team of obstacles.
    pub fn neutral() -> (t: Team)
        ensures
            t.0 == NEUTRAL_TEAM_ID,
    {
        Team(NEUTRAL_TEAM_ID)
    }

    /// `team` is hostile to this team: it is another team, and not neutral.
    pub fn against_me(&self, team: &Team) -> (b: bool)
        ensures
            b == (team.0 != self.0 && team.0 != NEUTRAL_TEAM_ID),
    {
        team.0 != self.0 && team.0 != NEUTRAL_TEAM_ID
    }
}

/// What a unit standing on a tile lets through.
#[derive(Clone, Debug)]
pub enum ObstacleType {
    /// Blocks everyone.
    Neutral,
    /// Lets the listed teams pass through (but not stop on the tile).
    Filter(Vec<Team>),
}

#[derive(Clone, Copy, PartialEq, Eq, Structural, Debug, Hash)]
pub enum ElementalType {
    Fire,
}

/// A stat with a current value and the value it started from.
#[derive(Clone, Copy, PartialEq, Eq, Structural, Debug)]
pub struct StatAttribute {
    pub current_value: u32,
    pub base_value: u32,
}

/// The numbers that describe a unit. Of several entries for one element in
/// `elemental_affinities`, the first counts.
#[derive(Clone, Debug)]
pub struct Stats {
    pub max_health: u32,
    pub strength: u32,
    pub magic_power: u32,
    pub defense: u32,
    pub elemental_affinities: Vec<(ElementalType, u32)>,
    pub health: u32,
    pub movement: u32,
}

/// `i` is the first entry for `element`.
pub open spec fn is_first_affinity(s: Seq<(ElementalType, u32)>, element: ElementalType, i: int) -> bool {
    0 <= i < s.len() && s[i].0 == element && forall|j: int| 0 <= j < i ==> s[j].0 != element
}

impl Stats {
    /// The affinity for `element`: the value of its first entry, zero where
    /// there is none.
    pub open spec fn affinity_spec(self, element: ElementalType) -> u32 {
        let s = self.elemental_affinities@;
        if exists|i: int| is_first_affinity(s, element, i) {
            s[choose|i: int| is_first_affinity(s, element, i)].1
        } else {
            0
        }
    }

    /// All stats zero and no affinities.
    pub fn new() -> (s: Stats)
        ensures
            s.max_health == 0 && s.strength == 0 && s.magic_power == 0 && s.defense == 0,
            s.health == 0 && s.movement == 0,
            s.elemental_affinities@.len() == 0,
    {
        Stats {
            max_health: 0,
            strength: 0,
            magic_power: 0,
            defense: 0,
            movement: 0,
            health: 0,
            elemental_affinities: Vec::new(),
        }
    }

    /// Sets both health and max health.
    pub fn with_health(self, health: u32) -> (s: Stats)
        ensures
            s == (Stats { health, max_health: health, ..self }),
    {
        Stats { health, max_health: health, ..self }
    }

    pub fn with_strength(self, strength: u32) -> (s: Stats)
        ensures
            s == (Stats { strength, ..self }),
    {
        Stats { strength, ..self }
    }

    pub fn with_magic_power(self, p: u32) -> (s: Stats)
        ensures
            s == (Stats { magic_power: p, ..self }),
    {
        Stats { magic_power: p, ..self }
    }

    pub fn with_movement(self, p: u32) -> (s: Stats)
        ensures
            s == (Stats { movement: p, ..self }),
    {
        Stats { movement: p, ..self }
    }

    pub fn with_defense(self, p: u32) -> (s: Stats)
        ensures
            s == (Stats { defense: p, ..self }),
    {
        Stats { defense: p, ..self }
    }

    /// Sets the affinity for `element`, replacing an earlier one; the other
    /// affinities and stats stay.
    pub fn with_elemental_affinity(self, element: ElementalType, affinity: u32) -> (s: Stats)
        ensures
            s.affinity_spec(element) == affinity,
            forall|e: ElementalType| e != element ==> #[trigger] s.affinity_spec(e) == self.affinity_spec(e),
            s.max_health == self.max_health && s.strength == self.strength,
            s.magic_power == self.magic_power && s.defense == self.defense,
            s.health == self.health && s.movement == self.movement,
    {
        let ghost old_aff = self.elemental_affinities@;
        let mut aff = self.elemental_affinities;
        let mut i: usize = 0;
        while i < aff.len()
            invariant
                i <= aff@.len(),
                aff@ == old_aff,
                forall|j: int| 0 <= j < i ==> aff@[j].0 != element,
            decreases aff@.len() - i,
        {
            if aff[i].0 == element {
                aff.set(i, (element, affinity));
                let r = Stats { elemental_affinities: aff, ..self };
                proof {
                    assert(is_first_affinity(r.elemental_affinities@, element, i as int));
                    assert forall|e: ElementalType| e != element implies #[trigger] r.affinity_spec(e) == self.affinity_spec(e) by {
                        assert forall|k: int| is_first_affinity(r.elemental_affinities@, e, k) <==> is_first_affinity(old_aff, e, k) by {
                            if 0 <= k < old_aff.len() {
                                assert(r.elemental_affinities@[k].0 == old_aff[k].0);
                            }
                        }
                    }
                }
                return r;
            }
            i = i + 1;
        }
        aff.push((element, affinity));
        let r = Stats { elemental_affinities: aff, ..self };
        proof {
            assert(is_first_affinity(r.elemental_affinities@, element, old_aff.len() as int));
            assert forall|e: ElementalType| e != element implies #[trigger] r.affinity_spec(e) == self.affinity_spec(e) by {
                assert forall|k: int| is_first_affinity(r.elemental_affinities@, e, k) <==> is_first_affinity(old_aff, e, k) by {
                    if 0 <= k < old_aff.len() {
                        assert(r.elemental_affinities@[k] == old_aff[k]);
                    }
                }
                if exists|k: int| is_first_affinity(old_aff, e, k) {
                    let k = choose|k: int| is_first_affinity(old_aff, e, k);
                    assert(r.elemental_affinities@[k] == old_aff[k]);
                }
            }
        }
        r
    }

    /// The affinity for `element`, zero where there is none.
    pub fn affinity(&self, element: ElementalType) -> (a: u32)
        ensures
            a == self.affinity_spec(element),
    {
        let mut i: usize = 0;
        while i < self.elemental_affinities.len()
            invariant
                i <= self.elemental_affinities@.len(),
                forall|j: int| 0 <= j < i ==> self.elemental_affinities@[j].0 != element,
            decreases self.elemental_affinities@.len() - i,
        {
            if self.elemental_affinities[i].0 == element {
                proof {
                    assert(is_first_affinity(self.elemental_affinities@, element, i as int));
                    let c = choose|k: int| is_first_affinity(self.elemental_affinities@, element, k);
                    assert(c == i);
                }
                return self.elemental_affinities[i].1;
            }
            i = i + 1;
        }
        0
    }
}

/// A unit on the battle grid.
#[derive(Clone, Debug)]
pub struct Unit {
    pub name: String,
    pub stats: Stats,
    pub obstacle: ObstacleType,
    pub team: Team,
}

impl Unit {
    /// Health is zero.
    pub fn downed(&self) -> (b: bool)
        ensures
            b == (self.stats.health == 0),
    {
        self.stats.health == 0
    }

    /// Not downed, with health at most 30% of max health.
    pub fn critical_health(&self) -> (b: bool)
        ensures
            b == (self.stats.health != 0 && 10 * self.stats.health <= 3 * self.stats.max_health),
    {
        self.stats.health != 0 && (self.stats.health as u64) * 10 <= (self.stats.max_health as u64)
            * 3
    }
}

/// The kind of obstacle a rock or a bush is drawn as.
#[derive(Clone, Copy, PartialEq, Eq, Structural, Debug)]
pub enum ObstacleSprite {
    Rock,
    Bush,
}

impl ObstacleSprite {
    /// Display name.
    pub fn to_string(&self) -> (s: String)
        ensures
            s@ == (match self {
                ObstacleSprite::Rock => "Rock"@,
                ObstacleSprite::Bush => "Bush"@,
            }),
    {
        match self {
            ObstacleSprite::Rock => "Rock".to_string(),
            ObstacleSprite::Bush => "Bush".to_string(),
        }
    }

    /// Index of the sprite in the tile sheet.
    pub fn tt_sprite_index(&self) -> (i: usize)
        ensures
            i == (match self {
                ObstacleSprite::Rock => 64usize,
                ObstacleSprite::Bush => 48usize,
            }),
    {
        match self {
            ObstacleSprite::Rock => 64,
            ObstacleSprite::Bush => 48,
        }
    }

    /// The unit an obstacle stands for: three health, no defense or
    /// movement, blocking everyone, on the neutral team.
    pub fn obstacle_unit(&self) -> (u: Unit)
        ensures
            u.name@ == (match self {
                ObstacleSprite::Rock => "Rock"@,
                ObstacleSprite::Bush => "Bush"@,
            }),
            u.stats.health == 3 && u.stats.max_health == 3,
            u.stats.defense == 0 && u.stats.movement == 0,
            u.stats.strength == 0 && u.stats.magic_power == 0,
            u.stats.elemental_affinities@.len() == 0,
            u.obstacle is Neutral,
            u.team.0 == NEUTRAL_TEAM_ID,
    {
        Unit {
            name: self.to_string(),
            stats: Stats::new().with_health(3).with_defense(0).with_movement(0),
            obstacle: ObstacleType::Neutral,
            team: Team::neutral(),
        }
    }
}

/// The four unit steps, in the order the movement search tries them.
pub open spec fn direction_vec(i: int) -> GridVec {
    if i == 0 {
        GridVec { x: 1, y: 0 }
    } else if i == 1 {
        GridVec { x: 0, y: 1 }
    } else if i == 2 {
        GridVec { x: -1i32, y: 0 }
    } else {
        GridVec { x: 0, y: -1i32 }
    }
}

/// The four unit steps: right, up, left, down.
pub fn direction_vecs() -> (v: [GridVec; 4])
    ensures
        forall|i: int| 0 <= i < 4 ==> #[trigger] v@[i] == direction_vec(i),
{
    [GridVec { x: 1, y: 0 }, GridVec { x: 0, y: 1 }, GridVec { x: -1, y: 0 }, GridVec { x: 0, y: -1 }]
}

/// A request to move `unit`, standing at `origin`, by up to
/// `movement_points_available` steps.
#[derive(Clone, Debug)]
pub struct MovementRequest {
    pub origin: GridPosition,
    pub unit: Unit,
    pub movement_points_available: u32,
}

/// A tile a unit can move to, the path there (starting at the unit's tile),
/// and how much of its movement stat the move leaves used.
#[derive(Clone, Debug)]
pub struct ValidMove {
    pub target: GridPosition,
    pub path: Vec<GridPosition>,
    pub movement_used: u32,
}

/// `i` is the first entry of `units` for entity `e`.
pub open spec fn is_first_match(units: Seq<(u64, Unit)>, e: u64, i: int) -> bool {
    0 <= i < units.len() && units[i].0 == e && forall|j: int| 0 <= j < i ==> units[j].0 != e
}

/// The unit of entity `e`: the first entry of `units` for it, if any.
pub open spec fn unit_for(units: Seq<(u64, Unit)>, e: u64) -> Option<Unit> {
    if exists|i: int| is_first_match(units, e, i) {
        Some(units[choose|i: int| is_first_match(units, e, i)].1)
    } else {
        None
    }
}

/// The unit that blocks or filters tile `p`: the unit of the first entity
/// listed there, if that entity is a unit.
pub open spec fn occupant(gm: GridManager, units: Seq<(u64, Unit)>, p: GridPosition) -> Option<Unit> {
    if gm.cells().contains_key(p) && gm.cells()[p].len() > 0 {
        unit_for(units, gm.cells()[p][0])
    } else {
        None
    }
}

/// A unit standing on a tile lets a mover of `team` pass through it.
pub open spec fn lets_through(u: Unit, team: Team) -> bool {
    match u.obstacle {
        ObstacleType::Neutral => false,
        ObstacleType::Filter(teams) => teams@.contains(team) || u.stats.health == 0,
    }
}

/// A mover of `team` may step onto `p` (to stop there or to pass through).
pub open spec fn passable(gm: GridManager, units: Seq<(u64, Unit)>, team: Team, p: GridPosition) -> bool {
    match occupant(gm, units, p) {
        None => true,
        Some(u) => lets_through(u, team),
    }
}

/// No unit stands on `p`.
pub open spec fn free_tile(gm: GridManager, units: Seq<(u64, Unit)>, p: GridPosition) -> bool {
    occupant(gm, units, p) is None
}

pub open spec fn adjacent(a: GridPosition, b: GridPosition) -> bool {
    ||| (b.x == a.x + 1 && b.y == a.y)
    ||| (b.x == a.x && b.y == a.y + 1)
    ||| (b.x + 1 == a.x && b.y == a.y)
    ||| (b.x == a.x && b.y + 1 == a.y)
}

pub open spec fn on_grid(gm: GridManager, p: GridPosition) -> bool {
    p.x < gm.spec_width() && p.y < gm.spec_height()
}

/// One step of a walk: to a neighbouring tile of the grid that the mover may
/// step onto.
pub open spec fn step_ok(gm: GridManager, units: Seq<(u64, Unit)>, team: Team, a: GridPosition, b: GridPosition) -> bool {
    adjacent(a, b) && on_grid(gm, b) && passable(gm, units, team, b)
}

/// `path` starts at `origin` and each next tile is a step from the one before.
pub open spec fn is_walk(gm: GridManager, units: Seq<(u64, Unit)>, team: Team, origin: GridPosition, path: Seq<GridPosition>) -> bool {
    &&& path.len() >= 1
    &&& path[0] == origin
    &&& forall|i: int| 0 <= i < path.len() - 1 ==> #[trigger] step_ok(gm, units, team, path[i], path[i + 1])
}

/// `q` is a tile the mover can end on: not its own tile, free, and reached
/// by a walk of at most `m` steps.
pub open spec fn is_destination(gm: GridManager, units: Seq<(u64, Unit)>, team: Team, origin: GridPosition, m: int, q: GridPosition) -> bool {
    &&& q != origin
    &&& free_tile(gm, units, q)
    &&& exists|w: Seq<GridPosition>| #[trigger] is_walk(gm, units, team, origin, w) && w.last() == q && w.len() - 1 <= m
}

/// Looks up the unit of entity `e`: the first entry of `units` for it.
fn find_unit(units: &Vec<(u64, Unit)>, e: u64) -> (r: Option<&Unit>)
    ensures
        match r {
            Some(u) => unit_for(units@, e) == Some(*u),
            None => unit_for(units@, e) is None,
        },
{
    let mut i: usize = 0;
    while i < units.len()
        invariant
            i <= units@.len(),
            forall|j: int| 0 <= j < i ==> units@[j].0 != e,
        decreases units@.len() - i,
    {
        if units[i].0 == e {
            proof {
                assert(is_first_match(units@, e, i as int));
                let c = choose|k: int| is_first_match(units@, e, k);
                assert(c == i);
            }
            return Some(&units[i].1);
        }
        i = i + 1;
    }
    None
}

/// The unit that blocks or filters `p`.
fn occupant_of<'a>(gm: &GridManager, units: &'a Vec<(u64, Unit)>, p: GridPosition) -> (r: Option<&'a Unit>)
    ensures
        match r {
            Some(u) => occupant(*gm, units@, p) == Some(*u),
            None => occupant(*gm, units@, p) is None,
        },
{
    match gm.get_by_position(&p) {
        None => None,
        Some(list) => {
            if list.len() == 0 {
                None
            } else {
                find_unit(units, list[0])
            }
        },
    }
}

fn contains_team(teams: &Vec<Team>, team: Team) -> (b: bool)
    ensures
        b == teams@.contains(team),
{
    let mut i: usize = 0;
    while i < teams.len()
        invariant
            i <= teams@.len(),
            forall|j: int| 0 <= j < i ==> teams@[j] != team,
        decreases teams@.len() - i,
    {
        if teams[i].0 == team.0 {
            return true;
        }
        i = i + 1;
    }
    false
}

fn lets_unit_through(u: &Unit, team: Team) -> (b: bool)
    ensures
        b == lets_through(*u, team),
{
    match &u.obstacle {
        ObstacleType::Neutral => false,
        ObstacleType::Filter(teams) => contains_team(teams, team) || u.stats.health == 0,
    }
}

fn copy_path(path: &Vec<GridPosition>) -> (r: Vec<GridPosition>)
    ensures
        r@ == path@,
{
    let mut r: Vec<GridPosition> = Vec::new();
    let mut i: usize = 0;
    while i < path.len()
        invariant
            i <= path@.len(),
            r@ == path@.take(i as int),
        decreases path@.len() - i,
    {
        r.push(path[i]);
        i = i + 1;
        proof {
            assert(r@ =~= path@.take(i as int));
        }
    }
    assert(path@.take(path@.len() as int) =~= path@);
    r
}

/// The tiles listed in a frontier of the movement search.
pub open spec fn entry_positions(entries: Seq<(GridPosition, Vec<GridPosition>, bool)>) -> Set<GridPosition> {
    Set::new(|y: GridPosition| exists|k: int| 0 <= k < entries.len() && entries[k].0 == y)
}

/// Every tile one step away from `x` is in `s`.
pub open spec fn expands_into(gm: GridManager, units: Seq<(u64, Unit)>, team: Team, x: GridPosition, s: Set<GridPosition>) -> bool {
    forall|y: GridPosition| #[trigger] step_ok(gm, units, team, x, y) ==> s.contains(y)
}

/// `x` was listed at some level below `bound` and all its steps are listed at
/// the level after that one.
pub open spec fn expanded_by(gm: GridManager, units: Seq<(u64, Unit)>, team: Team, lv: Seq<Set<GridPosition>>, bound: int, x: GridPosition) -> bool {
    exists|k: int| 0 <= k < bound && #[trigger] lv[k].contains(x) && expands_into(gm, units, team, x, lv[k + 1])
}

/// A frontier entry at depth `d`: a walk of `d` steps ending at the entry's
/// tile, flagged when the tile is occupied (so it can be passed, not ended on).
pub open spec fn entry_ok(gm: GridManager, units: Seq<(u64, Unit)>, team: Team, origin: GridPosition, d: int, e: (GridPosition, Vec<GridPosition>, bool)) -> bool {
    &&& is_walk(gm, units, team, origin, e.1@)
    &&& e.1@.len() == d + 1
    &&& e.1@.last() == e.0
    &&& (d == 0 ==> e.0 == origin && !e.2)
    &&& (d > 0 ==> e.2 == !free_tile(gm, units, e.0))
}

/// `x` has been settled: it is the mover's own tile (once that was taken
/// from the first frontier) or the target of a recorded move.
pub open spec fn explored(moves: Seq<ValidMove>, origin_seen: bool, origin: GridPosition, x: GridPosition) -> bool {
    (origin_seen && x == origin) || exists|i: int| 0 <= i < moves.len() && #[trigger] moves[i].target == x
}

/// A recorded move is a shortest walk to a free tile other than the origin.
pub open spec fn move_ok(gm: GridManager, units: Seq<(u64, Unit)>, team: Team, origin: GridPosition, m: int, stat_movement: int, mv: ValidMove) -> bool {
    &&& mv.target != origin
    &&& free_tile(gm, units, mv.target)
    &&& is_walk(gm, units, team, origin, mv.path@)
    &&& mv.path@.last() == mv.target
    &&& mv.path@.len() - 1 <= m
    &&& forall|w: Seq<GridPosition>| #[trigger] is_walk(gm, units, team, origin, w) && w.last() == mv.target ==> w.len() >= mv.path@.len()
    &&& mv.movement_used == stat_movement - (m - (mv.path@.len() - 1))
}

proof fn lemma_walk_prefix(gm: GridManager, units: Seq<(u64, Unit)>, team: Team, origin: GridPosition, w: Seq<GridPosition>)
    requires
        is_walk(gm, units, team, origin, w),
        w.len() >= 2,
    ensures
        is_walk(gm, units, team, origin, w.drop_last()),
        step_ok(gm, units, team, w.drop_last().last(), w.last()),
{
    let v = w.drop_last();
    assert forall|i: int| 0 <= i < v.len() - 1 implies #[trigger] step_ok(gm, units, team, v[i], v[i + 1]) by {
        assert(step_ok(gm, units, team, w[i], w[i + 1]));
    }
    let i = w.len() - 2;
    assert(step_ok(gm, units, team, w[i], w[i + 1]));
    assert(w.drop_last().last() == w[i]);
}

proof fn lemma_walk_extend(gm: GridManager, units: Seq<(u64, Unit)>, team: Team, origin: GridPosition, w: Seq<GridPosition>, y: GridPosition)
    requires
        is_walk(gm, units, team, origin, w),
        step_ok(gm, units, team, w.last(), y),
    ensures
        is_walk(gm, units, team, origin, w.push(y)),
{
    let v = w.push(y);
    assert forall|i: int| 0 <= i < v.len() - 1 implies #[trigger] step_ok(gm, units, team, v[i], v[i + 1]) by {
        if i < w.len() - 1 {
            assert(step_ok(gm, units, team, w[i], w[i + 1]));
        }
    }
}

/// Which of the four directions leads from `a` to the neighbouring tile `b`.
pub open spec fn direction_index(a: GridPosition, b: GridPosition) -> int {
    if b.x == a.x + 1 && b.y == a.y {
        0
    } else if b.x == a.x && b.y == a.y + 1 {
        1
    } else if b.x + 1 == a.x && b.y == a.y {
        2
    } else {
        3
    }
}

/// Pushes onto `next` an entry for every tile one step from `x` that the
/// mover may step onto, trying the directions in order.
fn expand_from(
    gm: &GridManager,
    units: &Vec<(u64, Unit)>,
    team: Team,
    x: GridPosition,
    path: &Vec<GridPosition>,
    next: &mut Vec<(GridPosition, Vec<GridPosition>, bool)>,
    Ghost(origin): Ghost<GridPosition>,
    Ghost(d): Ghost<int>,
)
    requires
        gm.dims_ok(),
        gm.spec_width() <= i32::MAX,
        gm.spec_height() <= i32::MAX,
        x.x < i32::MAX,
        x.y < i32::MAX,
        d >= 0,
        is_walk(*gm, units@, team, origin, path@),
        path@.last() == x,
        path@.len() == d + 1,
        forall|k: int| 0 <= k < old(next)@.len() ==> #[trigger] entry_ok(*gm, units@, team, origin, d + 1, old(next)@[k]),
    ensures
        final(next)@.len() >= old(next)@.len(),
        forall|k: int| 0 <= k < old(next)@.len() ==> #[trigger] final(next)@[k] == old(next)@[k],
        forall|k: int| 0 <= k < final(next)@.len() ==> #[trigger] entry_ok(*gm, units@, team, origin, d + 1, final(next)@[k]),
        expands_into(*gm, units@, team, x, entry_positions(final(next)@)),
{
    let dirs = direction_vecs();
    let ghost start = next@;
    let mut i: usize = 0;
    while i < 4
        invariant
            i <= 4,
            gm.dims_ok(),
            gm.spec_width() <= i32::MAX,
            gm.spec_height() <= i32::MAX,
            x.x < i32::MAX,
            x.y < i32::MAX,
            d >= 0,
            forall|t: int| 0 <= t < 4 ==> #[trigger] dirs@[t] == direction_vec(t),
            is_walk(*gm, units@, team, origin, path@),
            path@.last() == x,
            path@.len() == d + 1,
            next@.len() >= start.len(),
            forall|k: int| 0 <= k < start.len() ==> #[trigger] next@[k] == start[k],
            forall|k: int| 0 <= k < next@.len() ==> #[trigger] entry_ok(*gm, units@, team, origin, d + 1, next@[k]),
            forall|y: GridPosition|
                #[trigger] step_ok(*gm, units@, team, x, y) && direction_index(x, y) < i
                    ==> entry_positions(next@).contains(y),
        decreases 4 - i,
    {
        let dir = dirs[i];
        let ghost before = next@;
        let r = gm.change_position_with_bounds(x, dir);
        if let GridPositionChangeResult::Moved(y) = r {
            let occ = occupant_of(gm, units, y);
            let allowed = match occ {
                None => true,
                Some(u) => lets_unit_through(u, team),
            };
            if allowed {
                proof {
                    assert(adjacent(x, y));
                    assert(step_ok(*gm, units@, team, x, y));
                    lemma_walk_extend(*gm, units@, team, origin, path@, y);
                }
                let mut new_path = copy_path(path);
                new_path.push(y);
                next.push((y, new_path, occ.is_some()));
                proof {
                    assert(entry_ok(*gm, units@, team, origin, d + 1, next@[next@.len() - 1]));
                }
            }
        }
        proof {
            assert forall|k: int| 0 <= k < before.len() implies #[trigger] next@[k] == before[k] by {}
            assert forall|yy: GridPosition|
                #[trigger] step_ok(*gm, units@, team, x, yy) && direction_index(x, yy) < i + 1
                    implies entry_positions(next@).contains(yy) by {
                if direction_index(x, yy) < i {
                    assert(entry_positions(before).contains(yy));
                    let k = choose|k: int| 0 <= k < before.len() && before[k].0 == yy;
                    assert(next@[k] == before[k]);
                } else {
                    assert(yy.x == x.x + direction_vec(i as int).x && yy.y == x.y + direction_vec(i as int).y);
                    assert(next@[next@.len() - 1].0 == yy);
                }
            }
        }
        i = i + 1;
    }
    proof {
        assert forall|y: GridPosition| #[trigger] step_ok(*gm, units@, team, x, y) implies entry_positions(next@).contains(y) by {
            assert(direction_index(x, y) < 4);
        }
    }
}

fn is_explored(moves: &Vec<ValidMove>, origin_seen: bool, origin: GridPosition, x: GridPosition) -> (b: bool)
    ensures
        b == explored(moves@, origin_seen, origin, x),
{
    if origin_seen && x == origin {
        return true;
    }
    let mut i: usize = 0;
    while i < moves.len()
        invariant
            i <= moves@.len(),
            forall|j: int| 0 <= j < i ==> moves@[j].target != x,
        decreases moves@.len() - i,
    {
        if moves[i].target == x {
            return true;
        }
        i = i + 1;
    }
    false
}

/// The tiles the unit of `movement` can move to, found breadth first from
/// its origin with up to `movement_points_available` steps. A step goes to a
/// neighbouring tile of the grid; a tile whose first listed entity is a unit
/// blocks the step unless that unit lets the mover's team through (or is
/// downed), and such a tile can be passed but not ended on. Each tile comes
/// once, with a shortest path to it; `movement_used` is the unit's movement
/// stat less the points left after the move. `units` maps entities to units.
pub fn get_valid_moves_for_unit(grid_manager: &GridManager, movement: MovementRequest, units: &Vec<(u64, Unit)>) -> (moves: Vec<ValidMove>)
    requires
        grid_manager.dims_ok(),
        grid_manager.spec_width() <= i32::MAX,
        grid_manager.spec_height() <= i32::MAX,
        movement.origin.x < i32::MAX,
        movement.origin.y < i32::MAX,
        movement.movement_points_available <= i32::MAX,
        movement.movement_points_available <= movement.unit.stats.movement + 1,
    ensures
        forall|i: int, j: int| 0 <= i < j < moves@.len() ==> moves@[i].target != moves@[j].target,
        forall|i: int| 0 <= i < moves@.len() ==> move_ok(*grid_manager, units@, movement.unit.team, movement.origin,
            movement.movement_points_available as int, movement.unit.stats.movement as int, #[trigger] moves@[i]),
        forall|q: GridPosition| #[trigger] is_destination(*grid_manager, units@, movement.unit.team, movement.origin,
            movement.movement_points_available as int, q) ==> exists|i: int| 0 <= i < moves@.len() && moves@[i].target == q,
{
    let gm = grid_manager;
    let m = movement.movement_points_available;
    let origin = movement.origin;
    let team = movement.unit.team;
    let stat_movement = movement.unit.stats.movement;
    let ghost us = units@;
    let ghost g = *gm;
    let mut moves: Vec<ValidMove> = Vec::new();
    let mut origin_seen = false;
    let mut start_path: Vec<GridPosition> = Vec::new();
    start_path.push(origin);
    let mut frontier: Vec<(GridPosition, Vec<GridPosition>, bool)> = Vec::new();
    frontier.push((origin, start_path, false));
    let ghost mut lv: Seq<Set<GridPosition>> = seq![entry_positions(frontier@)];
    let mut depth: u32 = 0;
    proof {
        assert forall|w: Seq<GridPosition>| #[trigger] is_walk(g, us, team, origin, w) && w.len() <= 1 implies
            exists|k: int| 0 <= k < w.len() && lv[k].contains(w.last()) by {
            assert(frontier@[0].0 == w.last());
            assert(lv[0].contains(w.last()));
        }
        assert(is_walk(g, us, team, origin, frontier@[0].1@));
    }
    loop
        invariant_except_break
            forall|x: GridPosition| #[trigger] explored(moves@, origin_seen, origin, x) ==> expanded_by(g, us, team, lv, depth as int, x),
            forall|i: int| 0 <= i < moves@.len() ==> #[trigger] moves@[i].path@.len() <= depth,
        invariant
            g == *gm,
            us == units@,
            gm.dims_ok(),
            gm.spec_width() <= i32::MAX,
            gm.spec_height() <= i32::MAX,
            origin.x < i32::MAX,
            origin.y < i32::MAX,
            m <= i32::MAX,
            m <= stat_movement + 1,
            depth <= m,
            depth > 0 ==> origin_seen,
            depth == 0 ==> frontier@.len() == 1,
            forall|k: int| 0 <= k < frontier@.len() ==> #[trigger] entry_ok(g, us, team, origin, depth as int, frontier@[k]),
            lv.len() == depth + 1,
            lv[depth as int] == entry_positions(frontier@),
            // every walk of at most `depth` steps ends on a tile listed no later than its length
            forall|w: Seq<GridPosition>| #[trigger] is_walk(g, us, team, origin, w) && w.len() <= depth + 1 ==>
                exists|k: int| 0 <= k < w.len() && lv[k].contains(w.last()),
            // tiles of earlier levels were expanded
            forall|k: int, x: GridPosition| 0 <= k < depth && #[trigger] lv[k].contains(x) ==> expanded_by(g, us, team, lv, depth as int, x),
            // free tiles of earlier levels are settled
            forall|k: int, x: GridPosition| 0 <= k < depth && #[trigger] lv[k].contains(x) && free_tile(g, us, x) ==> explored(moves@, origin_seen, origin, x),
            forall|i: int, j: int| 0 <= i < j < moves@.len() ==> moves@[i].target != moves@[j].target,
            forall|i: int| 0 <= i < moves@.len() ==> move_ok(g, us, team, origin, m as int, stat_movement as int, #[trigger] moves@[i]),
        ensures
            forall|i: int, j: int| 0 <= i < j < moves@.len() ==> moves@[i].target != moves@[j].target,
            forall|i: int| 0 <= i < moves@.len() ==> move_ok(g, us, team, origin, m as int, stat_movement as int, #[trigger] moves@[i]),
            forall|q: GridPosition| #[trigger] is_destination(g, us, team, origin, m as int, q) ==>
                exists|i: int| 0 <= i < moves@.len() && moves@[i].target == q,
        decreases m - depth,
    {
        let mut next: Vec<(GridPosition, Vec<GridPosition>, bool)> = Vec::new();
        proof {
            let lvn = lv.push(entry_positions(next@));
            assert forall|x: GridPosition| #[trigger] explored(moves@, origin_seen, origin, x) implies
                expanded_by(g, us, team, lvn, depth + 1, x) by {
                let k = choose|k: int| 0 <= k < depth && #[trigger] lv[k].contains(x) && expands_into(g, us, team, x, lv[k + 1]);
                assert(lvn[k] == lv[k] && lvn[k + 1] == lv[k + 1]);
            }
        }
        let mut kk: usize = 0;
        while kk < frontier.len()
            invariant
                g == *gm,
                us == units@,
                gm.dims_ok(),
                gm.spec_width() <= i32::MAX,
                gm.spec_height() <= i32::MAX,
                origin.x < i32::MAX,
                origin.y < i32::MAX,
                m <= i32::MAX,
                m <= stat_movement + 1,
                depth <= m,
                kk <= frontier@.len(),
                (depth > 0 || kk > 0) ==> origin_seen,
                depth == 0 ==> frontier@.len() == 1,
                forall|k: int| 0 <= k < frontier@.len() ==> #[trigger] entry_ok(g, us, team, origin, depth as int, frontier@[k]),
                forall|k: int| 0 <= k < next@.len() ==> #[trigger] entry_ok(g, us, team, origin, depth + 1, next@[k]),
                depth == m ==> next@.len() == 0,
                lv.len() == depth + 1,
                lv[depth as int] == entry_positions(frontier@),
                forall|w: Seq<GridPosition>| #[trigger] is_walk(g, us, team, origin, w) && w.len() <= depth + 1 ==>
                    exists|k: int| 0 <= k < w.len() && lv[k].contains(w.last()),
                forall|k: int, x: GridPosition| 0 <= k < depth && #[trigger] lv[k].contains(x) ==> expanded_by(g, us, team, lv, depth as int, x),
                forall|k: int, x: GridPosition| 0 <= k < depth && #[trigger] lv[k].contains(x) && free_tile(g, us, x) ==> explored(moves@, origin_seen, origin, x),
                // settled tiles were expanded at an earlier level or, in this level, into `next`
                depth < m ==> forall|x: GridPosition| #[trigger] explored(moves@, origin_seen, origin, x) ==>
                    expanded_by(g, us, team, lv.push(entry_positions(next@)), depth + 1, x),
                depth < m ==> forall|t: int| 0 <= t < kk ==>
                    expanded_by(g, us, team, lv.push(entry_positions(next@)), depth + 1, #[trigger] frontier@[t].0),
                forall|t: int| 0 <= t < kk && !frontier@[t].2 ==> explored(moves@, origin_seen, origin, #[trigger] frontier@[t].0),
                forall|i: int, j: int| 0 <= i < j < moves@.len() ==> moves@[i].target != moves@[j].target,
                forall|i: int| 0 <= i < moves@.len() ==> move_ok(g, us, team, origin, m as int, stat_movement as int, #[trigger] moves@[i]),
                forall|i: int| 0 <= i < moves@.len() ==> #[trigger] moves@[i].path@.len() <= depth + 1,
            decreases frontier@.len() - kk,
        {
            let x = frontier[kk].0;
            let obstructed = frontier[kk].2;
            let ghost moves_before = moves@;
            let ghost seen_before = origin_seen;
            let ghost next_before = next@;
            proof {
                assert(entry_ok(g, us, team, origin, depth as int, frontier@[kk as int]));
                assert(lv[depth as int].contains(x));
            }
            let mut skip = false;
            if !obstructed {
                if is_explored(&moves, origin_seen, origin, x) {
                    skip = true;
                } else {
                    if x == origin {
                        origin_seen = true;
                    } else {
                        let path = copy_path(&frontier[kk].1);
                        let used = stat_movement - (m - depth);
                        proof {
                            // a shorter walk would have listed `x` at an earlier level, where it was settled
                            assert forall|w: Seq<GridPosition>| #[trigger] is_walk(g, us, team, origin, w) && w.last() == x implies
                                w.len() >= path@.len() by {
                                if w.len() < path@.len() {
                                    let k = choose|k: int| 0 <= k < w.len() && lv[k].contains(w.last());
                                    assert(lv[k].contains(x));
                                    assert(explored(moves@, origin_seen, origin, x));
                                }
                            }
                        }
                        moves.push(ValidMove { target: x, path, movement_used: used });
                        proof {
                            assert(move_ok(g, us, team, origin, m as int, stat_movement as int, moves@[moves@.len() - 1]));
                        }
                    }
                }
            }
            proof {
                assert forall|i: int| 0 <= i < moves_before.len() implies #[trigger] moves@[i] == moves_before[i] by {}
                assert forall|y: GridPosition| explored(moves_before, seen_before, origin, y) implies
                    #[trigger] explored(moves@, origin_seen, origin, y) by {
                    if !(seen_before && y == origin) {
                        let i = choose|i: int| 0 <= i < moves_before.len() && #[trigger] moves_before[i].target == y;
                        assert(moves@[i].target == y);
                    }
                }
                assert(explored(moves@, origin_seen, origin, x) || obstructed);
                if !obstructed && !skip && x != origin {
                    assert(moves@[moves@.len() - 1].target == x);
                }
            }
            if !skip && depth < m {
                proof {
                    if depth == 0 {
                        assert(x == origin);
                    } else {
                        let p = frontier@[kk as int].1@;
                        assert(p[p.len() - 1] == x);
                        assert(step_ok(g, us, team, p[p.len() - 2], p[p.len() - 2 + 1]));
                    }
                }
                expand_from(gm, units, team, x, &frontier[kk].1, &mut next, Ghost(origin), Ghost(depth as int));
            }
            proof {
                let lvn = lv.push(entry_positions(next@));
                let lvo = lv.push(entry_positions(next_before));
                assert(entry_positions(next_before).subset_of(entry_positions(next@))) by {
                    assert forall|y: GridPosition| entry_positions(next_before).contains(y) implies entry_positions(next@).contains(y) by {
                        let k = choose|k: int| 0 <= k < next_before.len() && next_before[k].0 == y;
                        assert(next@[k] == next_before[k]);
                    }
                }
                if depth < m {
                    assert forall|y: GridPosition| expanded_by(g, us, team, lvo, depth + 1, y) implies
                        #[trigger] expanded_by(g, us, team, lvn, depth + 1, y) by {
                        let k = choose|k: int| 0 <= k < depth + 1 && #[trigger] lvo[k].contains(y) && expands_into(g, us, team, y, lvo[k + 1]);
                        assert(lvn[k] == lvo[k]);
                        if k < depth {
                            assert(lvn[k + 1] == lvo[k + 1]);
                        } else {
                            assert forall|z: GridPosition| #[trigger] step_ok(g, us, team, y, z) implies lvn[k + 1].contains(z) by {
                                assert(lvo[k + 1].contains(z));
                            }
                        }
                    }
                    if !skip {
                        assert(lvn[depth as int].contains(x));
                        assert(expanded_by(g, us, team, lvn, depth + 1, x));
                    }
                    assert forall|y: GridPosition| #[trigger] explored(moves@, origin_seen, origin, y) implies
                        expanded_by(g, us, team, lvn, depth + 1, y) by {
                        if y == x && !skip {
                        } else if explored(moves_before, seen_before, origin, y) {
                            assert(expanded_by(g, us, team, lvo, depth + 1, y));
                        } else {
                            assert(y == x);
                        }
                    }
                    assert forall|t: int| 0 <= t < kk + 1 implies
                        expanded_by(g, us, team, lvn, depth + 1, #[trigger] frontier@[t].0) by {
                        if t < kk {
                            assert(expanded_by(g, us, team, lvo, depth + 1, frontier@[t].0));
                        } else if skip {
                            assert(explored(moves_before, seen_before, origin, x));
                            assert(expanded_by(g, us, team, lvo, depth + 1, x));
                        }
                    }
                }
                assert forall|t: int| 0 <= t < kk + 1 && !frontier@[t].2 implies
                    explored(moves@, origin_seen, origin, #[trigger] frontier@[t].0) by {
                    if t < kk {
                        assert(explored(moves_before, seen_before, origin, frontier@[t].0));
                    }
                }
            }
            kk = kk + 1;
        }
        proof {
            // free tiles of this level are settled
            assert forall|x: GridPosition| #[trigger] lv[depth as int].contains(x) && free_tile(g, us, x) implies
                explored(moves@, origin_seen, origin, x) by {
                let t = choose|t: int| 0 <= t < frontier@.len() && frontier@[t].0 == x;
                assert(entry_ok(g, us, team, origin, depth as int, frontier@[t]));
                assert(explored(moves@, origin_seen, origin, frontier@[t].0));
            }
        }
        if depth == m {
            proof {
                assert forall|q: GridPosition| #[trigger] is_destination(g, us, team, origin, m as int, q) implies
                    exists|i: int| 0 <= i < moves@.len() && moves@[i].target == q by {
                    let w = choose|w: Seq<GridPosition>| #[trigger] is_walk(g, us, team, origin, w) && w.last() == q && w.len() - 1 <= m;
                    let k = choose|k: int| 0 <= k < w.len() && lv[k].contains(w.last());
                    assert(lv[k].contains(q));
                    assert(explored(moves@, origin_seen, origin, q));
                }
            }
            break;
        }
        proof {
            let lvn = lv.push(entry_positions(next@));
            assert forall|k: int, x: GridPosition| 0 <= k < depth + 1 && #[trigger] lvn[k].contains(x) implies
                expanded_by(g, us, team, lvn, depth + 1, x) by {
                assert(lvn[k] == lv[k]);
                if k < depth {
                    let k2 = choose|k2: int| 0 <= k2 < depth && #[trigger] lv[k2].contains(x) && expands_into(g, us, team, x, lv[k2 + 1]);
                    assert(lvn[k2] == lv[k2] && lvn[k2 + 1] == lv[k2 + 1]);
                } else {
                    let t = choose|t: int| 0 <= t < frontier@.len() && frontier@[t].0 == x;
                    assert(expanded_by(g, us, team, lvn, depth + 1, frontier@[t].0));
                }
            }
            assert forall|w: Seq<GridPosition>| #[trigger] is_walk(g, us, team, origin, w) && w.len() <= depth + 2 implies
                exists|k: int| 0 <= k < w.len() && lvn[k].contains(w.last()) by {
                if w.len() <= depth + 1 {
                    let k = choose|k: int| 0 <= k < w.len() && lv[k].contains(w.last());
                    assert(lvn[k] == lv[k]);
                } else {
                    lemma_walk_prefix(g, us, team, origin, w);
                    let v = w.drop_last();
                    let k = choose|k: int| 0 <= k < v.len() && lv[k].contains(v.last());
                    assert(lvn[k].contains(v.last()));
                    let k2 = choose|k2: int| 0 <= k2 < depth + 1 && #[trigger] lvn[k2].contains(v.last())
                        && expands_into(g, us, team, v.last(), lvn[k2 + 1]);
                    assert(lvn[k2 + 1].contains(w.last()));
                }
            }
            assert forall|k: int, x: GridPosition| 0 <= k < depth + 1 && #[trigger] lvn[k].contains(x) && free_tile(g, us, x) implies
                explored(moves@, origin_seen, origin, x) by {
                assert(lvn[k] == lv[k]);
            }
            lv = lvn;
        }
        frontier = next;
        depth = depth + 1;
    }
    moves
}

/// `a` comes strictly before `b`, by `x` and then by `y`.
pub open spec fn pos_lex_lt(a: GridPosition, b: GridPosition) -> bool {
    a.x < b.x || (a.x == b.x && a.y < b.y)
}

/// `p` lies in the box spanned by moving `origin` by `r` in each direction
/// (clamped to the grid), and within taxicab distance `r` of it.
pub open spec fn in_attack_range(gm: GridManager, origin: GridPosition, r: int, p: GridPosition) -> bool {
    let b = gm.spec_bounds();
    &&& clamp_coord(origin.x - r, b.x as int) <= p.x <= clamp_coord(origin.x + r, b.x as int)
    &&& clamp_coord(origin.y - r, b.y as int) <= p.y <= clamp_coord(origin.y + r, b.y as int)
    &&& manhattan_spec(origin, p) <= r
}

/// The coordinates are small enough for the search of tiles in range.
pub open spec fn range_fits(origin: GridPosition, range: u32) -> bool {
    &&& origin.fits_i32()
    &&& range <= i32::MAX
    &&& origin.x + range <= i32::MAX
    &&& origin.y + range <= i32::MAX
    &&& (if origin.x > range { origin.x as int } else { range as int }) + (if origin.y > range {
        origin.y as int
    } else {
        range as int
    }) <= i32::MAX
}

/// The tiles within taxicab distance `range` of `origin`, inside the box
/// spanned by moving `origin` by `range` each way (clamped to the grid),
/// ordered by `x` and then `y`.
pub fn radius_range_at_position(grid_manager: &GridManager, origin: &GridPosition, range: u32) -> (targets: Vec<GridPosition>)
    requires
        grid_manager.dims_ok(),
        range_fits(*origin, range),
    ensures
        forall|i: int, j: int| 0 <= i < j < targets@.len() ==> pos_lex_lt(#[trigger] targets@[i], #[trigger] targets@[j]),
        forall|i: int| 0 <= i < targets@.len() ==> in_attack_range(*grid_manager, *origin, range as int, #[trigger] targets@[i]),
        forall|p: GridPosition| in_attack_range(*grid_manager, *origin, range as int, p) ==> targets@.contains(p),
{
    let r = range as i32;
    let dirs = direction_vecs();
    assert(dirs@[0] == direction_vec(0) && dirs@[1] == direction_vec(1));
    assert(dirs@[2] == direction_vec(2) && dirs@[3] == direction_vec(3));
    assert(r == range);
    proof {
        let (a, b, c) = (1int, 0int, -1int);
        assert(a * r == r && b * r == 0 && c * r == -r) by (nonlinear_arith)
            requires
                a == 1 && b == 0 && c == -1;
    }
    let v0 = dirs[0].scale(r);
    let v1 = dirs[1].scale(r);
    let v2 = dirs[2].scale(r);
    let v3 = dirs[3].scale(r);
    assert(v0.x == r && v0.y == 0 && v1.x == 0 && v1.y == r);
    assert(v2.x == -r && v2.y == 0 && v3.x == 0 && v3.y == -r);
    let b0 = grid_manager.change_position_with_bounds(*origin, v0).position();
    let b1 = grid_manager.change_position_with_bounds(*origin, v1).position();
    let b2 = grid_manager.change_position_with_bounds(*origin, v2).position();
    let b3 = grid_manager.change_position_with_bounds(*origin, v3).position();
    let mut x_min = b0.x;
    let mut x_max = b0.x;
    let mut y_min = b0.y;
    let mut y_max = b0.y;
    if b1.x < x_min { x_min = b1.x; }
    if b2.x < x_min { x_min = b2.x; }
    if b3.x < x_min { x_min = b3.x; }
    if b1.x > x_max { x_max = b1.x; }
    if b2.x > x_max { x_max = b2.x; }
    if b3.x > x_max { x_max = b3.x; }
    if b1.y < y_min { y_min = b1.y; }
    if b2.y < y_min { y_min = b2.y; }
    if b3.y < y_min { y_min = b3.y; }
    if b1.y > y_max { y_max = b1.y; }
    if b2.y > y_max { y_max = b2.y; }
    if b3.y > y_max { y_max = b3.y; }
    let ghost bd = grid_manager.spec_bounds();
    assert(x_min == clamp_coord(origin.x - range, bd.x as int));
    assert(x_max == clamp_coord(origin.x + range, bd.x as int));
    assert(y_min == clamp_coord(origin.y - range, bd.y as int));
    assert(y_max == clamp_coord(origin.y + range, bd.y as int));
    let mut targets: Vec<GridPosition> = Vec::new();
    let mut x: u64 = x_min as u64;
    while x <= x_max as u64
        invariant
            x_min <= x <= x_max as u64 + 1,
            x_max <= bd.x,
            bd == grid_manager.spec_bounds(),
            grid_manager.dims_ok(),
            range_fits(*origin, range),
            x_min == clamp_coord(origin.x - range, bd.x as int),
            x_max == clamp_coord(origin.x + range, bd.x as int),
            y_min == clamp_coord(origin.y - range, bd.y as int),
            y_max == clamp_coord(origin.y + range, bd.y as int),
            forall|i: int, j: int| 0 <= i < j < targets@.len() ==> pos_lex_lt(#[trigger] targets@[i], #[trigger] targets@[j]),
            forall|i: int| 0 <= i < targets@.len() ==> in_attack_range(*grid_manager, *origin, range as int, #[trigger] targets@[i])
                && targets@[i].x < x,
            forall|p: GridPosition| in_attack_range(*grid_manager, *origin, range as int, p) && p.x < x ==> targets@.contains(p),
        decreases x_max as u64 + 1 - x,
    {
        let mut y: u64 = y_min as u64;
        while y <= y_max as u64
            invariant
                x_min <= x <= x_max,
                y_min <= y <= y_max as u64 + 1,
                x_max <= bd.x,
                y_max <= bd.y,
                bd == grid_manager.spec_bounds(),
                grid_manager.dims_ok(),
                range_fits(*origin, range),
                x_min == clamp_coord(origin.x - range, bd.x as int),
                x_max == clamp_coord(origin.x + range, bd.x as int),
                y_min == clamp_coord(origin.y - range, bd.y as int),
                y_max == clamp_coord(origin.y + range, bd.y as int),
                forall|i: int, j: int| 0 <= i < j < targets@.len() ==> pos_lex_lt(#[trigger] targets@[i], #[trigger] targets@[j]),
                forall|i: int| 0 <= i < targets@.len() ==> in_attack_range(*grid_manager, *origin, range as int, #[trigger] targets@[i])
                    && (targets@[i].x < x || (targets@[i].x == x && targets@[i].y < y)),
                forall|p: GridPosition| in_attack_range(*grid_manager, *origin, range as int, p) && (p.x < x || (p.x == x && p.y < y))
                    ==> targets@.contains(p),
            decreases y_max as u64 + 1 - y,
        {
            let target_pos = GridPosition { x: x as u32, y: y as u32 };
            proof {
                assert(abs_int(origin.x - target_pos.x) <= if origin.x > range { origin.x as int } else { range as int });
                assert(abs_int(origin.y - target_pos.y) <= if origin.y > range { origin.y as int } else { range as int });
            }
            if manhattan_distance(origin, &target_pos) <= range {
                let ghost before = targets@;
                targets.push(target_pos);
                proof {
                    assert forall|p: GridPosition| in_attack_range(*grid_manager, *origin, range as int, p) && (p.x < x || (p.x == x
                        && p.y < y + 1)) implies targets@.contains(p) by {
                        if p == target_pos {
                            assert(targets@[before.len() as int] == p);
                        } else {
                            assert(before.contains(p));
                            let k = choose|k: int| 0 <= k < before.len() && before[k] == p;
                            assert(targets@[k] == p);
                        }
                    }
                }
            }
            y = y + 1;
        }
        x = x + 1;
    }
    targets
}

/// The tiles a skill aimed by `targeting` from `origin` can reach.
pub fn build_attack_space_options(grid_manager: &GridManager, targeting: &Targeting, origin: &GridPosition) -> (targets: Vec<GridPosition>)
    requires
        grid_manager.dims_ok(),
        range_fits(*origin, targeting->TargetInRange_0),
    ensures
        forall|i: int, j: int| 0 <= i < j < targets@.len() ==> pos_lex_lt(#[trigger] targets@[i], #[trigger] targets@[j]),
        forall|i: int| 0 <= i < targets@.len() ==> in_attack_range(*grid_manager, *origin, targeting->TargetInRange_0 as int, #[trigger] targets@[i]),
        forall|p: GridPosition| in_attack_range(*grid_manager, *origin, targeting->TargetInRange_0 as int, p) ==> targets@.contains(p),
{
    match targeting {
        Targeting::TargetInRange(range) => radius_range_at_position(grid_manager, origin, *range),
    }
}

/// A unit that can be attacked, and its tile.
#[derive(Clone, Copy, PartialEq, Eq, Structural, Debug)]
pub struct AttackOption {
    pub target: u64,
    pub grid_position: GridPosition,
}

/// `k` is the first entity of `list` that is a unit.
pub open spec fn is_first_unit_in(list: Seq<u64>, units: Seq<(u64, Unit)>, k: int) -> bool {
    0 <= k < list.len() && unit_for(units, list[k]) is Some && forall|j: int| 0 <= j < k ==> unit_for(units, list[j]) is None
}

/// The first entity listed at `p` that is a unit, if any.
pub open spec fn first_unit_entity(gm: GridManager, units: Seq<(u64, Unit)>, p: GridPosition) -> Option<u64> {
    if gm.cells().contains_key(p) && exists|k: int| is_first_unit_in(gm.cells()[p], units, k) {
        Some(gm.cells()[p][choose|k: int| is_first_unit_in(gm.cells()[p], units, k)])
    } else {
        None
    }
}

/// One attack option per tile of `positions` that holds a unit, in order.
pub open spec fn attack_options_spec(gm: GridManager, units: Seq<(u64, Unit)>, positions: Seq<GridPosition>) -> Seq<AttackOption>
    decreases positions.len(),
{
    if positions.len() == 0 {
        Seq::empty()
    } else {
        let prev = attack_options_spec(gm, units, positions.drop_last());
        match first_unit_entity(gm, units, positions.last()) {
            Some(e) => prev.push(AttackOption { target: e, grid_position: positions.last() }),
            None => prev,
        }
    }
}

fn first_unit_at(gm: &GridManager, units: &Vec<(u64, Unit)>, p: GridPosition) -> (r: Option<u64>)
    ensures
        r == first_unit_entity(*gm, units@, p),
{
    match gm.get_by_position(&p) {
        None => None,
        Some(list) => {
            let mut k: usize = 0;
            while k < list.len()
                invariant
                    k <= list@.len(),
                    gm.cells().contains_key(p),
                    list@ == gm.cells()[p],
                    forall|j: int| 0 <= j < k ==> unit_for(units@, list@[j]) is None,
                decreases list@.len() - k,
            {
                if find_unit(units, list[k]).is_some() {
                    proof {
                        assert(is_first_unit_in(list@, units@, k as int));
                        let c = choose|c: int| is_first_unit_in(gm.cells()[p], units@, c);
                        assert(c == k);
                    }
                    return Some(list[k]);
                }
                k = k + 1;
            }
            None
        },
    }
}

/// The options for attacking with a skill of range `range` from `position`:
/// `None` where the unit has fewer action points than the skill costs; else
/// the tiles in range, and for each of them that holds a unit (the first unit
/// listed there) an attack option.
pub fn attack_options_for_skill(
    grid_manager: &GridManager,
    units: &Vec<(u64, Unit)>,
    targeting: &Targeting,
    cost_ap: u8,
    position: &GridPosition,
    action_points_left: u32,
) -> (r: Option<(Vec<AttackOption>, Vec<GridPosition>)>)
    requires
        grid_manager.dims_ok(),
        range_fits(*position, targeting->TargetInRange_0),
    ensures
        action_points_left < cost_ap ==> r is None,
        action_points_left >= cost_ap ==> (r matches Some((options, targets)) && {
            &&& forall|i: int, j: int| 0 <= i < j < targets@.len() ==> pos_lex_lt(#[trigger] targets@[i], #[trigger] targets@[j])
            &&& forall|i: int| 0 <= i < targets@.len() ==> in_attack_range(*grid_manager, *position, targeting->TargetInRange_0 as int, #[trigger] targets@[i])
            &&& forall|p: GridPosition| in_attack_range(*grid_manager, *position, targeting->TargetInRange_0 as int, p) ==> targets@.contains(p)
            &&& options@ == attack_options_spec(*grid_manager, units@, targets@)
        }),
{
    if action_points_left < cost_ap as u32 {
        return None;
    }
    let target_options = build_attack_space_options(grid_manager, targeting, position);
    let mut options: Vec<AttackOption> = Vec::new();
    let mut i: usize = 0;
    while i < target_options.len()
        invariant
            i <= target_options@.len(),
            options@ == attack_options_spec(*grid_manager, units@, target_options@.take(i as int)),
        decreases target_options@.len() - i,
    {
        proof {
            assert(target_options@.take(i + 1).drop_last() =~= target_options@.take(i as int));
        }
        let p = target_options[i];
        match first_unit_at(grid_manager, units, p) {
            Some(e) => {
                options.push(AttackOption { target: e, grid_position: p });
            },
            None => {},
        }
        i = i + 1;
    }
    proof {
        assert(target_options@.take(target_options@.len() as int) =~= target_options@);
    }
    Some((options, target_options))
}

#[derive(Clone, Copy, PartialEq, Eq, Structural, Debug)]
pub enum UnitAction {
    Move,
    Attack,
    Wait,
    Interact,
}

/// An action a unit carries out.
#[derive(Clone, Debug)]
pub enum UnitExecuteAction {
    Move(ValidMove),
    Attack(AttackIntent),
    Wait,
    Interact { interactable_entity: u64 },
}

/// Outcome of choosing a unit under the cursor.
#[derive(Clone, Copy, PartialEq, Eq, Structural, Debug)]
pub enum UnitMovementSelection {
    Selected(u64),
    NoPlayerUnitOnTile,
}

/// The first entity listed at the cursor, where it is one of the player's
/// units (`owned`); else there is no unit of the player on the tile.
pub fn select_unit_for_movement(cursor_grid_pos: &GridPosition, grid_manager: &GridManager, owned: &Vec<u64>) -> (r: UnitMovementSelection)
    ensures
        r == (if grid_manager.cells().contains_key(*cursor_grid_pos) && grid_manager.cells()[*cursor_grid_pos].len() > 0
            && owned@.contains(grid_manager.cells()[*cursor_grid_pos][0]) {
            UnitMovementSelection::Selected(grid_manager.cells()[*cursor_grid_pos][0])
        } else {
            UnitMovementSelection::NoPlayerUnitOnTile
        }),
{
    match grid_manager.get_by_position(cursor_grid_pos) {
        None => UnitMovementSelection::NoPlayerUnitOnTile,
        Some(list) => {
            if list.len() == 0 {
                return UnitMovementSelection::NoPlayerUnitOnTile;
            }
            let e = list[0];
            let mut k: usize = 0;
            while k < owned.len()
                invariant
                    k <= owned@.len(),
                    grid_manager.cells().contains_key(*cursor_grid_pos),
                    grid_manager.cells()[*cursor_grid_pos].len() > 0,
                    e == grid_manager.cells()[*cursor_grid_pos][0],
                    forall|j: int| 0 <= j < k ==> owned@[j] != e,
                decreases owned@.len() - k,
            {
                if owned[k] == e {
                    proof {
                        assert(owned@[k as int] == e);
                    }
                    return UnitMovementSelection::Selected(e);
                }
                k = k + 1;
            }
            UnitMovementSelection::NoPlayerUnitOnTile
        },
    }
}

impl ValidMove {
    /// A copy of the move.
    pub fn duplicate(&self) -> (m: ValidMove)
        ensures
            m.target == self.target,
            m.path@ == self.path@,
            m.movement_used == self.movement_used,
    {
        ValidMove { target: self.target, path: copy_path(&self.path), movement_used: self.movement_used }
    }
}

/// A unit a player controls: 13 health, 2 strength, 1 magic, 1 defense,
/// 4 movement; its own team may pass through it.
pub fn player_unit(name: String, team: Team) -> (u: Unit)
    ensures
        u.name@ == name@,
        u.team == team,
        u.stats.health == 13 && u.stats.max_health == 13,
        u.stats.strength == 2 && u.stats.magic_power == 1 && u.stats.defense == 1 && u.stats.movement == 4,
        u.stats.elemental_affinities@.len() == 0,
        u.obstacle matches ObstacleType::Filter(teams) && teams@ == seq![team],
{
    let stats = Stats::new().with_health(13).with_defense(1).with_magic_power(1).with_movement(4).with_strength(2);
    Unit { name, stats, obstacle: ObstacleType::Filter(vec![team]), team }
}

/// An enemy: 10 health, 1 defense, 3 movement, nothing else; its own team
/// may pass through it.
pub fn enemy_unit(name: String, team: Team) -> (u: Unit)
    ensures
        u.name@ == name@,
        u.team == team,
        u.stats.health == 10 && u.stats.max_health == 10,
        u.stats.strength == 0 && u.stats.magic_power == 0 && u.stats.defense == 1 && u.stats.movement == 3,
        u.stats.elemental_affinities@.len() == 0,
        u.obstacle matches ObstacleType::Filter(teams) && teams@ == seq![team],
{
    let stats = Stats::new().with_health(10).with_defense(1).with_movement(3);
    Unit { name, stats, obstacle: ObstacleType::Filter(vec![team]), team }
}

/// What carrying out a unit's action starts.
#[derive(Debug)]
pub enum ExecutionStart {
    /// The unit walks along this path.
    Walk(Vec<GridPosition>),
    /// The attack begins.
    Attack(AttackIntent),
    /// The action is over at once.
    Done(UnitAction),
    /// Carried out by the interaction rules.
    Interaction,
}

/// Carries out an action: a move starts the walk along its path, an attack
/// starts the attack, and waiting marks the unit as having waited and is
/// over at once.
pub fn execute_unit_action(action: &UnitExecuteAction, resources: &mut crate::battle_phase::UnitPhaseResources) -> (r: ExecutionStart)
    ensures
        match *action {
            UnitExecuteAction::Move(m) => r matches ExecutionStart::Walk(path) && path@ == m.path@
                && *final(resources) == *old(resources),
            UnitExecuteAction::Attack(i) => r == ExecutionStart::Attack(i) && *final(resources) == *old(resources),
            UnitExecuteAction::Wait => r == ExecutionStart::Done(UnitAction::Wait)
                && *final(resources) == (crate::battle_phase::UnitPhaseResources { waited: true, ..*old(resources) }),
            UnitExecuteAction::Interact { .. } => r == ExecutionStart::Interaction && *final(resources) == *old(resources),
        },
{
    match action {
        UnitExecuteAction::Move(m) => {
            let m2 = m.duplicate();
            ExecutionStart::Walk(m2.path)
        },
        UnitExecuteAction::Attack(i) => ExecutionStart::Attack(*i),
        UnitExecuteAction::Wait => {
            resources.waited = true;
            ExecutionStart::Done(UnitAction::Wait)
        },
        UnitExecuteAction::Interact { .. } => ExecutionStart::Interaction,
    }
}

} // verus!
