//! Enemy turns: the order in which enemies act, and what each kind of enemy
//! plans to do.
use vstd::prelude::*;
use crate::battle_phase::{PhaseMessageType, PlayerEnemyPhase, UnitPhaseResources};
use crate::combat::AttackIntent;
use crate::combat::skills::{attack_skill_id, SkillId, Targeting, ATTACK_SKILL};
use crate::grid::{abs_int, manhattan_distance, manhattan_spec, GridManager, GridPosition, GridPositionChangeResult};
use crate::unit::{
    direction_vec, direction_vecs, get_valid_moves_for_unit, in_attack_range, is_destination, move_ok, radius_range_at_position,
    MovementRequest, Team, Unit, UnitAction, UnitExecuteAction, ValidMove, NEUTRAL_TEAM_ID,
};

verus! {

/// How an enemy plays.
#[derive(Clone, Copy, PartialEq, Eq, Structural, Debug)]
pub enum Behavior {
    /// Only waits.
    Pacifist,
    /// Moves somewhere it can.
    Wanderer,
    /// Goes for the closest unit against it, if it can stand next to it.
    Trapper,
    /// Hunts the closest unit against it.
    Berserker,
}

#[derive(Clone, Copy, PartialEq, Eq, Structural, Debug)]
pub struct EnemyAiBehavior {
    pub behavior: Behavior,
}

/// The enemies still to act this phase, the next one first.
pub struct EnemyTurnConductor {
    queue: Vec<u64>,
}

/// The enemies of `enemies` that are not downed, last one first.
pub open spec fn standing_reversed(enemies: Seq<(u64, Unit)>) -> Seq<u64>
    decreases enemies.len(),
{
    if enemies.len() == 0 {
        Seq::empty()
    } else {
        let rest = standing_reversed(enemies.drop_last());
        if enemies.last().1.stats.health == 0 {
            rest
        } else {
            seq![enemies.last().0] + rest
        }
    }
}

impl EnemyTurnConductor {
    pub closed spec fn queue(self) -> Seq<u64> {
        self.queue@
    }

    /// No enemy waiting.
    pub fn new() -> (c: EnemyTurnConductor)
        ensures
            c.queue() == Seq::<u64>::empty(),
    {
        EnemyTurnConductor { queue: Vec::new() }
    }

    /// When the enemy phase begins, each enemy that is not downed is put at
    /// the front of the queue, in turn (so the last one listed acts first).
    pub fn begin_enemy_phase(&mut self, message: PhaseMessageType, enemies: &Vec<(u64, Unit)>)
        ensures
            final(self).queue() == if message == PhaseMessageType::PhaseBegin(PlayerEnemyPhase::Enemy) {
                standing_reversed(enemies@) + old(self).queue()
            } else {
                old(self).queue()
            },
    {
        let PhaseMessageType::PhaseBegin(phase) = message;
        if phase != PlayerEnemyPhase::Enemy {
            return;
        }
        let ghost start = self.queue@;
        let mut i: usize = 0;
        while i < enemies.len()
            invariant
                i <= enemies@.len(),
                self.queue@ == standing_reversed(enemies@.take(i as int)) + start,
            decreases enemies@.len() - i,
        {
            proof {
                assert(enemies@.take(i + 1).drop_last() =~= enemies@.take(i as int));
            }
            if enemies[i].1.stats.health != 0 {
                self.queue.insert(0, enemies[i].0);
                proof {
                    assert(self.queue@ =~= standing_reversed(enemies@.take(i + 1)) + start);
                }
            }
            i = i + 1;
        }
        assert(enemies@.take(enemies@.len() as int) =~= enemies@);
    }

    /// When no enemy is active, the next one in the queue becomes active.
    pub fn select_next_enemy(&mut self, active_enemy_exists: bool) -> (r: Option<u64>)
        ensures
            if active_enemy_exists || old(self).queue().len() == 0 {
                r is None && final(self).queue() == old(self).queue()
            } else {
                r == Some(old(self).queue()[0]) && final(self).queue() == old(self).queue().drop_first()
            },
    {
        if active_enemy_exists || self.queue.len() == 0 {
            return None;
        }
        let e = self.queue.remove(0);
        Some(e)
    }
}

/// A step of a plan, as a value.
pub enum PlanStep {
    Move(GridPosition, Seq<GridPosition>, u32),
    Attack(AttackIntent),
    Wait,
    Interact(u64),
}

pub open spec fn step_view(a: UnitExecuteAction) -> PlanStep {
    match a {
        UnitExecuteAction::Move(m) => PlanStep::Move(m.target, m.path@, m.movement_used),
        UnitExecuteAction::Attack(i) => PlanStep::Attack(i),
        UnitExecuteAction::Wait => PlanStep::Wait,
        UnitExecuteAction::Interact { interactable_entity } => PlanStep::Interact(interactable_entity),
    }
}

pub open spec fn move_step(m: ValidMove) -> PlanStep {
    PlanStep::Move(m.target, m.path@, m.movement_used)
}

pub open spec fn plan_view(actions: Seq<UnitExecuteAction>) -> Seq<PlanStep> {
    actions.map_values(|a: UnitExecuteAction| step_view(a))
}

/// The actions an enemy will carry out, in order.
pub struct PlannedEnemyAction {
    action_queue: Vec<UnitExecuteAction>,
}

impl PlannedEnemyAction {
    pub closed spec fn steps(self) -> Seq<PlanStep> {
        plan_view(self.action_queue@)
    }

    /// Takes the next action off the plan.
    pub fn pop_front(&mut self) -> (r: Option<UnitExecuteAction>)
        ensures
            if old(self).steps().len() == 0 {
                r is None && final(self).steps() == old(self).steps()
            } else {
                r matches Some(a) && step_view(a) == old(self).steps()[0] && final(self).steps() == old(self).steps().drop_first()
            },
    {
        if self.action_queue.len() == 0 {
            return None;
        }
        let ghost before = self.action_queue@;
        let a = self.action_queue.remove(0);
        proof {
            assert(plan_view(self.action_queue@) =~= plan_view(before).drop_first());
        }
        Some(a)
    }
}

/// `other` is a team hostile to `me`.
pub open spec fn hostile(me: Team, other: Team) -> bool {
    other.0 != me.0 && other.0 != NEUTRAL_TEAM_ID
}

/// The coordinates are small enough for the distance arithmetic on `i32`.
pub open spec fn pos_small(p: GridPosition) -> bool {
    p.x < 0x4000_0000 && p.y < 0x4000_0000
}

/// A unit (entity, unit, tile) can be struck by a unit of `team` standing at
/// `pos`: it is within one tile, standing, and hostile.
pub open spec fn can_strike(gm: GridManager, team: Team, pos: GridPosition, u: (u64, Unit, GridPosition)) -> bool {
    in_attack_range(gm, pos, 1, u.2) && u.1.stats.health != 0 && hostile(team, u.1.team)
}

pub open spec fn is_first_strike(gm: GridManager, team: Team, pos: GridPosition, us: Seq<(u64, Unit, GridPosition)>, i: int) -> bool {
    0 <= i < us.len() && can_strike(gm, team, pos, us[i]) && forall|j: int| 0 <= j < i ==> !can_strike(gm, team, pos, us[j])
}

/// The first unit that a unit of `team` at `pos` can strike.
pub open spec fn target_in_range_spec(gm: GridManager, team: Team, pos: GridPosition, us: Seq<(u64, Unit, GridPosition)>) -> Option<(u64, GridPosition)> {
    if exists|i: int| is_first_strike(gm, team, pos, us, i) {
        let i = choose|i: int| is_first_strike(gm, team, pos, us, i);
        Some((us[i].0, us[i].2))
    } else {
        None
    }
}

/// The first unit that a unit of `enemy_unit`'s team standing at `enemy_pos`
/// can strike (within one tile, standing, hostile).
fn target_enemy_in_range(gm: &GridManager, enemy_unit: &Unit, enemy_pos: GridPosition, units: &Vec<(u64, Unit, GridPosition)>) -> (r: Option<(u64, GridPosition)>)
    requires
        gm.dims_ok(),
        pos_small(enemy_pos),
    ensures
        r == target_in_range_spec(*gm, enemy_unit.team, enemy_pos, units@),
{
    let options = radius_range_at_position(gm, &enemy_pos, 1);
    let mut i: usize = 0;
    while i < units.len()
        invariant
            i <= units@.len(),
            forall|k: int| 0 <= k < options@.len() ==> in_attack_range(*gm, enemy_pos, 1, #[trigger] options@[k]),
            forall|p: GridPosition| in_attack_range(*gm, enemy_pos, 1, p) ==> options@.contains(p),
            forall|j: int| 0 <= j < i ==> !can_strike(*gm, enemy_unit.team, enemy_pos, #[trigger] units@[j]),
        decreases units@.len() - i,
    {
        let p = units[i].2;
        let mut found = false;
        let mut k: usize = 0;
        while k < options.len()
            invariant
                k <= options@.len(),
                found <==> exists|t: int| 0 <= t < k && options@[t] == p,
            decreases options@.len() - k,
        {
            if options[k] == p {
                found = true;
            }
            k = k + 1;
        }
        proof {
            if found {
                let t = choose|t: int| 0 <= t < k && options@[t] == p;
                assert(in_attack_range(*gm, enemy_pos, 1, options@[t]));
            }
            if in_attack_range(*gm, enemy_pos, 1, p) {
                assert(options@.contains(p));
            }
        }
        if found && units[i].1.stats.health != 0 && enemy_unit.team.against_me(&units[i].1.team) {
            proof {
                assert(is_first_strike(*gm, enemy_unit.team, enemy_pos, units@, i as int));
                let c = choose|c: int| is_first_strike(*gm, enemy_unit.team, enemy_pos, units@, c);
                assert(c == i);
            }
            return Some((units[i].0, p));
        }
        i = i + 1;
    }
    None
}

/// The units against `team` that are standing, with their tile and their
/// distance to `pos`, in order.
pub open spec fn targets_spec(team: Team, pos: GridPosition, us: Seq<(u64, Unit, GridPosition)>) -> Seq<(u64, GridPosition, u32)>
    decreases us.len(),
{
    if us.len() == 0 {
        Seq::empty()
    } else {
        let prev = targets_spec(team, pos, us.drop_last());
        let u = us.last();
        if hostile(team, u.1.team) && u.1.stats.health != 0 {
            prev.push((u.0, u.2, manhattan_spec(u.2, pos) as u32))
        } else {
            prev
        }
    }
}

fn find_targets_by_distance(enemy_unit: &Unit, enemy_pos: GridPosition, units: &Vec<(u64, Unit, GridPosition)>) -> (r: Vec<(u64, GridPosition, u32)>)
    requires
        pos_small(enemy_pos),
        forall|i: int| 0 <= i < units@.len() ==> pos_small(#[trigger] units@[i].2),
    ensures
        r@ == targets_spec(enemy_unit.team, enemy_pos, units@),
{
    let mut r: Vec<(u64, GridPosition, u32)> = Vec::new();
    let mut i: usize = 0;
    while i < units.len()
        invariant
            i <= units@.len(),
            pos_small(enemy_pos),
            forall|k: int| 0 <= k < units@.len() ==> pos_small(#[trigger] units@[k].2),
            r@ == targets_spec(enemy_unit.team, enemy_pos, units@.take(i as int)),
        decreases units@.len() - i,
    {
        proof {
            assert(units@.take(i + 1).drop_last() =~= units@.take(i as int));
            assert(pos_small(units@[i as int].2));
        }
        if enemy_unit.team.against_me(&units[i].1.team) && units[i].1.stats.health != 0 {
            let d = manhattan_distance(&units[i].2, &enemy_pos);
            r.push((units[i].0, units[i].2, d));
        }
        i = i + 1;
    }
    assert(units@.take(units@.len() as int) =~= units@);
    r
}

/// `s` (sorted by distance) with `x` inserted after every entry no farther
/// than it.
pub open spec fn insert_by_distance(s: Seq<(u64, GridPosition, u32)>, x: (u64, GridPosition, u32)) -> Seq<(u64, GridPosition, u32)>
    decreases s.len(),
{
    if s.len() == 0 {
        seq![x]
    } else if s.last().2 <= x.2 {
        s.push(x)
    } else {
        insert_by_distance(s.drop_last(), x).push(s.last())
    }
}

/// `s` ordered by distance, ties kept in their order.
pub open spec fn sort_by_distance(s: Seq<(u64, GridPosition, u32)>) -> Seq<(u64, GridPosition, u32)>
    decreases s.len(),
{
    if s.len() == 0 {
        Seq::empty()
    } else {
        insert_by_distance(sort_by_distance(s.drop_last()), s.last())
    }
}

proof fn lemma_insert_by_distance(s: Seq<(u64, GridPosition, u32)>, x: (u64, GridPosition, u32), j: int)
    requires
        0 <= j <= s.len(),
        forall|k: int| j <= k < s.len() ==> s[k].2 > x.2,
        j > 0 ==> s[j - 1].2 <= x.2,
    ensures
        insert_by_distance(s, x) == s.take(j).push(x) + s.skip(j),
    decreases s.len(),
{
    if s.len() == 0 {
        assert(s.take(j).push(x) + s.skip(j) =~= seq![x]);
    } else if s.last().2 <= x.2 {
        assert(j == s.len());
        assert(s.take(j).push(x) + s.skip(j) =~= s.push(x));
    } else {
        lemma_insert_by_distance(s.drop_last(), x, j);
        assert(s.drop_last().take(j).push(x) + s.drop_last().skip(j) + seq![s.last()] =~= s.take(j).push(x) + s.skip(j));
    }
}

fn sort_targets(targets: Vec<(u64, GridPosition, u32)>) -> (r: Vec<(u64, GridPosition, u32)>)
    ensures
        r@ == sort_by_distance(targets@),
{
    let mut sorted: Vec<(u64, GridPosition, u32)> = Vec::new();
    let mut i: usize = 0;
    while i < targets.len()
        invariant
            i <= targets@.len(),
            sorted@ == sort_by_distance(targets@.take(i as int)),
        decreases targets@.len() - i,
    {
        let x = targets[i];
        let mut j: usize = sorted.len();
        while j > 0 && sorted[j - 1].2 > x.2
            invariant
                j <= sorted@.len(),
                forall|k: int| j <= k < sorted@.len() ==> sorted@[k].2 > x.2,
            decreases j,
        {
            j = j - 1;
        }
        proof {
            lemma_insert_by_distance(sorted@, x, j as int);
            assert(targets@.take(i + 1).drop_last() =~= targets@.take(i as int));
        }
        sorted.insert(j, x);
        proof {
            assert(sorted@ =~= insert_by_distance(sort_by_distance(targets@.take(i as int)), x));
        }
        i = i + 1;
    }
    assert(targets@.take(targets@.len() as int) =~= targets@);
    sorted
}

/// The index of the first entry with the smallest distance in a non-empty
/// list of (index, distance) choices.
pub open spec fn first_min(choices: Seq<(int, u32)>) -> int
    decreases choices.len(),
{
    if choices.len() <= 1 {
        0
    } else {
        let m = first_min(choices.drop_last());
        if choices.last().1 < choices[m].1 {
            choices.len() - 1
        } else {
            m
        }
    }
}

/// Scanning the moves (index < n) for `target`: the first move that ends
/// within one tile of it (with the target's entity), and the moves that end
/// farther away with their distance, in order.
pub open spec fn scan_moves(target: (u64, GridPosition, u32), moves: Seq<ValidMove>, n: int) -> (Option<(u64, int)>, Seq<(int, u32)>)
    decreases n,
{
    if n <= 0 {
        (None, Seq::empty())
    } else {
        let prev = scan_moves(target, moves, n - 1);
        let d = manhattan_spec(moves[n - 1].target, target.1);
        if d <= 1 {
            if prev.0 is Some {
                prev
            } else {
                (Some((target.0, n - 1)), prev.1)
            }
        } else {
            (prev.0, prev.1.push((n - 1, d as u32)))
        }
    }
}

/// The scan of the moves for each of the first `n` targets in turn: the hit
/// of the first target that has one, and all the farther moves.
pub open spec fn scan_targets(targets: Seq<(u64, GridPosition, u32)>, moves: Seq<ValidMove>, n: int) -> (Option<(u64, int)>, Seq<(int, u32)>)
    decreases n,
{
    if n <= 0 {
        (None, Seq::empty())
    } else {
        let prev = scan_targets(targets, moves, n - 1);
        let inner = scan_moves(targets[n - 1], moves, moves.len() as int);
        (if prev.0 is Some { prev.0 } else { inner.0 }, prev.1 + inner.1)
    }
}

/// The attack by `enemy` with the basic attack on `target`.
pub open spec fn attack_step(enemy: u64, target: u64) -> PlanStep {
    PlanStep::Attack(AttackIntent { attacker: enemy, defender: target, skill: SkillId(ATTACK_SKILL) })
}

/// A berserker strikes a unit in range at once. Else it hunts the closest
/// unit against it: going through those units nearest first, it takes the
/// first one that one of its moves ends next to (within one tile), makes the
/// first such move and strikes that unit; failing that, it takes the first
/// move that comes closest to a unit (among those that end farther than one
/// tile away). It then waits.
pub open spec fn berserker_plan(
    gm: GridManager,
    enemy: u64,
    team: Team,
    enemy_pos: GridPosition,
    us: Seq<(u64, Unit, GridPosition)>,
    moves: Seq<ValidMove>,
) -> Seq<PlanStep> {
    match target_in_range_spec(gm, team, enemy_pos, us) {
        Some((t, _)) => seq![attack_step(enemy, t), PlanStep::Wait],
        None => {
            let targets = sort_by_distance(targets_spec(team, enemy_pos, us));
            let scan = scan_targets(targets, moves, targets.len() as int);
            match scan.0 {
                Some((t, mi)) => seq![move_step(moves[mi]), attack_step(enemy, t), PlanStep::Wait],
                None => if scan.1.len() > 0 {
                    seq![move_step(moves[scan.1[first_min(scan.1)].0]), PlanStep::Wait]
                } else {
                    seq![PlanStep::Wait]
                },
            }
        },
    }
}

/// The position of the first entry with the smallest distance.
pub open spec fn closest_index(targets: Seq<(u64, GridPosition, u32)>) -> int
    decreases targets.len(),
{
    if targets.len() <= 1 {
        0
    } else {
        let m = closest_index(targets.drop_last());
        if targets.last().2 < targets[m].2 {
            targets.len() - 1
        } else {
            m
        }
    }
}

/// The tile one step from `p` in direction `i`, when it is on the grid.
pub open spec fn neighbour_on_grid(gm: GridManager, p: GridPosition, i: int) -> Option<GridPosition> {
    match p.change_spec(gm.spec_bounds(), direction_vec(i)) {
        GridPositionChangeResult::Moved(q) => Some(q),
        GridPositionChangeResult::OutOfBounds(_) => None,
    }
}

/// Direction `i` leads from `p` to a tile that is the target of one of the
/// moves.
pub open spec fn reachable_side(gm: GridManager, p: GridPosition, moves: Seq<ValidMove>, i: int) -> bool {
    neighbour_on_grid(gm, p, i) matches Some(q) && exists|k: int| 0 <= k < moves.len() && moves[k].target == q
}

/// A trapper picks the closest unit against it (the first of the closest)
/// and, trying the four directions in order, moves next to it and strikes
/// it where one of its moves gets there. It then waits.
pub open spec fn trapper_plan(
    gm: GridManager,
    enemy: u64,
    team: Team,
    enemy_pos: GridPosition,
    us: Seq<(u64, Unit, GridPosition)>,
    moves: Seq<ValidMove>,
) -> Seq<PlanStep> {
    let targets = targets_spec(team, enemy_pos, us);
    if targets.len() == 0 {
        seq![PlanStep::Wait]
    } else {
        let target = targets[closest_index(targets)];
        if exists|i: int| 0 <= i < 4 && reachable_side(gm, target.1, moves, i) {
            let i = choose|i: int| 0 <= i < 4 && reachable_side(gm, target.1, moves, i) && forall|j: int|
                0 <= j < i ==> !reachable_side(gm, target.1, moves, j);
            let q = neighbour_on_grid(gm, target.1, i).unwrap();
            let k = choose|k: int| 0 <= k < moves.len() && moves[k].target == q;
            seq![move_step(moves[k]), attack_step(enemy, target.0), PlanStep::Wait]
        } else {
            seq![PlanStep::Wait]
        }
    }
}

/// The plan of an enemy with `behavior`, given the moves open to it.
pub open spec fn plan_spec(
    gm: GridManager,
    behavior: Behavior,
    enemy: u64,
    team: Team,
    enemy_pos: GridPosition,
    us: Seq<(u64, Unit, GridPosition)>,
    moves: Seq<ValidMove>,
) -> Seq<PlanStep> {
    match behavior {
        Behavior::Pacifist => seq![PlanStep::Wait],
        Behavior::Wanderer => if moves.len() > 0 {
            seq![move_step(moves[0]), PlanStep::Wait]
        } else {
            seq![PlanStep::Wait]
        },
        Behavior::Trapper => trapper_plan(gm, enemy, team, enemy_pos, us, moves),
        Behavior::Berserker => berserker_plan(gm, enemy, team, enemy_pos, us, moves),
    }
}

pub open spec fn int_choices(c: Seq<(usize, u32)>) -> Seq<(int, u32)> {
    c.map_values(|x: (usize, u32)| (x.0 as int, x.1))
}

fn first_min_exec(choices: &Vec<(usize, u32)>) -> (m: usize)
    requires
        choices@.len() > 0,
    ensures
        m < choices@.len(),
        m == first_min(int_choices(choices@)),
{
    let mut m: usize = 0;
    let mut k: usize = 1;
    while k < choices.len()
        invariant
            1 <= k <= choices@.len(),
            m < k,
            m == first_min(int_choices(choices@).take(k as int)),
        decreases choices@.len() - k,
    {
        proof {
            let c = int_choices(choices@);
            assert(c.take(k + 1).drop_last() =~= c.take(k as int));
            assert(c.take(k + 1)[m as int] == c.take(k as int)[m as int]);
        }
        if choices[k].1 < choices[m].1 {
            m = k;
        }
        k = k + 1;
    }
    assert(int_choices(choices@).take(choices@.len() as int) =~= int_choices(choices@));
    m
}

fn closest_exec(targets: &Vec<(u64, GridPosition, u32)>) -> (m: usize)
    requires
        targets@.len() > 0,
    ensures
        m < targets@.len(),
        m == closest_index(targets@),
{
    let mut m: usize = 0;
    let mut k: usize = 1;
    while k < targets.len()
        invariant
            1 <= k <= targets@.len(),
            m < k,
            m == closest_index(targets@.take(k as int)),
        decreases targets@.len() - k,
    {
        proof {
            assert(targets@.take(k + 1).drop_last() =~= targets@.take(k as int));
            assert(targets@.take(k + 1)[m as int] == targets@.take(k as int)[m as int]);
        }
        if targets[k].2 < targets[m].2 {
            m = k;
        }
        k = k + 1;
    }
    assert(targets@.take(targets@.len() as int) =~= targets@);
    m
}

/// The moves are on tiles small enough for the distance arithmetic, and
/// lead to distinct tiles.
pub open spec fn moves_usable(moves: Seq<ValidMove>) -> bool {
    &&& forall|i: int| 0 <= i < moves.len() ==> pos_small(#[trigger] moves[i].target)
    &&& forall|i: int, j: int| 0 <= i < j < moves.len() ==> moves[i].target != moves[j].target
}

fn berserker_actions(
    gm: &GridManager,
    enemy: u64,
    enemy_unit: &Unit,
    enemy_pos: GridPosition,
    units: &Vec<(u64, Unit, GridPosition)>,
    moves: &Vec<ValidMove>,
) -> (r: Vec<UnitExecuteAction>)
    requires
        gm.dims_ok(),
        pos_small(enemy_pos),
        forall|i: int| 0 <= i < units@.len() ==> pos_small(#[trigger] units@[i].2),
        moves_usable(moves@),
    ensures
        plan_view(r@) == berserker_plan(*gm, enemy, enemy_unit.team, enemy_pos, units@, moves@),
{
    let team = enemy_unit.team;
    match target_enemy_in_range(gm, enemy_unit, enemy_pos, units) {
        Some((t, _)) => {
            let r = vec![
                UnitExecuteAction::Attack(AttackIntent { attacker: enemy, defender: t, skill: attack_skill_id() }),
                UnitExecuteAction::Wait,
            ];
            assert(plan_view(r@) =~= berserker_plan(*gm, enemy, team, enemy_pos, units@, moves@));
            r
        },
        None => {
            let targets = sort_targets(find_targets_by_distance(enemy_unit, enemy_pos, units));
            let ghost tg = targets@;
            proof {
                lemma_sort_keeps_small(targets_spec(team, enemy_pos, units@), units@);
            }
            let mut hit: Option<(u64, usize)> = None;
            let mut choices: Vec<(usize, u32)> = Vec::new();
            let mut ti: usize = 0;
            while ti < targets.len()
                invariant
                    team == enemy_unit.team,
                    gm.dims_ok(),
                    ti <= targets@.len(),
                    tg == targets@,
                    forall|k: int| 0 <= k < targets@.len() ==> pos_small(#[trigger] targets@[k].1),
                    moves_usable(moves@),
                    forall|i: int| 0 <= i < choices@.len() ==> #[trigger] choices@[i].0 < moves@.len(),
                    hit matches Some((_, mi)) ==> mi < moves@.len(),
                    (match hit {
                        Some((t, mi)) => Some((t, mi as int)),
                        None => None,
                    }) == scan_targets(tg, moves@, ti as int).0,
                    int_choices(choices@) == scan_targets(tg, moves@, ti as int).1,
                decreases targets@.len() - ti,
            {
                let tid = targets[ti].0;
                let tpos = targets[ti].1;
                let ghost outer_choices = choices@;
                let mut inner_hit: Option<(u64, usize)> = None;
                let mut mi: usize = 0;
                while mi < moves.len()
                    invariant
                        team == enemy_unit.team,
                        gm.dims_ok(),
                        mi <= moves@.len(),
                        pos_small(tpos),
                        ti < tg.len(),
                        tg[ti as int].0 == tid,
                        tg[ti as int].1 == tpos,
                        moves_usable(moves@),
                        forall|i: int| 0 <= i < choices@.len() ==> #[trigger] choices@[i].0 < moves@.len(),
                        inner_hit matches Some((_, k)) ==> k < moves@.len(),
                        choices@.len() >= outer_choices.len(),
                        choices@.take(outer_choices.len() as int) == outer_choices,
                        (match inner_hit {
                            Some((t, k)) => Some((t, k as int)),
                            None => None,
                        }) == scan_moves(tg[ti as int], moves@, mi as int).0,
                        int_choices(choices@.skip(outer_choices.len() as int)) == scan_moves(tg[ti as int], moves@, mi as int).1,
                    decreases moves@.len() - mi,
                {
                    let mt = moves[mi].target;
                    proof {
                        assert(pos_small(moves@[mi as int].target));
                    }
                    let d = manhattan_distance(&mt, &tpos);
                    let ghost before = choices@;
                    if d <= 1 {
                        if inner_hit.is_none() {
                            inner_hit = Some((tid, mi));
                        }
                    } else {
                        choices.push((mi, d));
                        proof {
                            assert(choices@.skip(outer_choices.len() as int) =~= before.skip(outer_choices.len() as int).push((mi, d)));
                            assert(choices@.take(outer_choices.len() as int) =~= before.take(outer_choices.len() as int));
                        }
                    }
                    proof {
                        assert(moves@[(mi + 1) - 1] == moves@[mi as int]);
                        if d <= 1 {
                            assert(choices@ == before);
                        }
                    }
                    mi = mi + 1;
                }
                proof {
                    assert(choices@ =~= outer_choices + choices@.skip(outer_choices.len() as int));
                    assert(int_choices(choices@) =~= int_choices(outer_choices) + int_choices(choices@.skip(outer_choices.len() as int)));
                }
                if hit.is_none() {
                    hit = inner_hit;
                }
                ti = ti + 1;
            }
            let mut r: Vec<UnitExecuteAction> = Vec::new();
            match hit {
                Some((t, mi)) => {
                    r.push(UnitExecuteAction::Move(moves[mi].duplicate()));
                    r.push(UnitExecuteAction::Attack(AttackIntent { attacker: enemy, defender: t, skill: attack_skill_id() }));
                    r.push(UnitExecuteAction::Wait);
                },
                None => {
                    if choices.len() > 0 {
                        let m = first_min_exec(&choices);
                        let mi = choices[m].0;
                        r.push(UnitExecuteAction::Move(moves[mi].duplicate()));
                    }
                    r.push(UnitExecuteAction::Wait);
                },
            }
            proof {
                assert(plan_view(r@) =~= berserker_plan(*gm, enemy, team, enemy_pos, units@, moves@));
            }
            r
        },
    }
}

proof fn lemma_targets_small(team: Team, pos: GridPosition, us: Seq<(u64, Unit, GridPosition)>)
    requires
        forall|i: int| 0 <= i < us.len() ==> pos_small(#[trigger] us[i].2),
    ensures
        forall|k: int| 0 <= k < targets_spec(team, pos, us).len() ==> pos_small(#[trigger] targets_spec(team, pos, us)[k].1),
    decreases us.len(),
{
    if us.len() > 0 {
        let p = us.drop_last();
        assert forall|i: int| 0 <= i < p.len() implies pos_small(#[trigger] p[i].2) by {
            assert(p[i] == us[i]);
        }
        lemma_targets_small(team, pos, p);
        assert(pos_small(us[us.len() - 1].2));
        let prev = targets_spec(team, pos, p);
        let t = targets_spec(team, pos, us);
        assert forall|k: int| 0 <= k < t.len() implies pos_small(#[trigger] t[k].1) by {
            if k < prev.len() {
                assert(t[k] == prev[k]);
            }
        }
    }
}

proof fn lemma_insert_small(s: Seq<(u64, GridPosition, u32)>, x: (u64, GridPosition, u32))
    requires
        forall|k: int| 0 <= k < s.len() ==> pos_small(#[trigger] s[k].1),
        pos_small(x.1),
    ensures
        forall|k: int| 0 <= k < insert_by_distance(s, x).len() ==> pos_small(#[trigger] insert_by_distance(s, x)[k].1),
    decreases s.len(),
{
    if s.len() > 0 && s.last().2 > x.2 {
        let p = s.drop_last();
        assert forall|k: int| 0 <= k < p.len() implies pos_small(#[trigger] p[k].1) by {
            assert(p[k] == s[k]);
        }
        lemma_insert_small(p, x);
        assert(pos_small(s[s.len() - 1].1));
        let prev = insert_by_distance(p, x);
        let t = insert_by_distance(s, x);
        assert forall|k: int| 0 <= k < t.len() implies pos_small(#[trigger] t[k].1) by {
            if k < prev.len() {
                assert(t[k] == prev[k]);
            }
        }
    } else if s.len() > 0 {
        let t = insert_by_distance(s, x);
        assert forall|k: int| 0 <= k < t.len() implies pos_small(#[trigger] t[k].1) by {
            if k < s.len() {
                assert(t[k] == s[k]);
            }
        }
    }
}

proof fn lemma_sort_small(s: Seq<(u64, GridPosition, u32)>)
    requires
        forall|k: int| 0 <= k < s.len() ==> pos_small(#[trigger] s[k].1),
    ensures
        forall|k: int| 0 <= k < sort_by_distance(s).len() ==> pos_small(#[trigger] sort_by_distance(s)[k].1),
    decreases s.len(),
{
    if s.len() > 0 {
        let p = s.drop_last();
        assert forall|k: int| 0 <= k < p.len() implies pos_small(#[trigger] p[k].1) by {
            assert(p[k] == s[k]);
        }
        lemma_sort_small(p);
        assert(pos_small(s[s.len() - 1].1));
        lemma_insert_small(sort_by_distance(p), s.last());
    }
}

proof fn lemma_sort_keeps_small(t: Seq<(u64, GridPosition, u32)>, us: Seq<(u64, Unit, GridPosition)>)
    requires
        exists|team: Team, pos: GridPosition| t == targets_spec(team, pos, us),
        forall|i: int| 0 <= i < us.len() ==> pos_small(#[trigger] us[i].2),
    ensures
        forall|k: int| 0 <= k < sort_by_distance(t).len() ==> pos_small(#[trigger] sort_by_distance(t)[k].1),
{
    let (team, pos) = choose|team: Team, pos: GridPosition| t == targets_spec(team, pos, us);
    lemma_targets_small(team, pos, us);
    lemma_sort_small(t);
}

fn trapper_actions(
    gm: &GridManager,
    enemy: u64,
    enemy_unit: &Unit,
    enemy_pos: GridPosition,
    units: &Vec<(u64, Unit, GridPosition)>,
    moves: &Vec<ValidMove>,
) -> (r: Vec<UnitExecuteAction>)
    requires
        gm.dims_ok(),
        pos_small(enemy_pos),
        forall|i: int| 0 <= i < units@.len() ==> pos_small(#[trigger] units@[i].2),
        moves_usable(moves@),
    ensures
        plan_view(r@) == trapper_plan(*gm, enemy, enemy_unit.team, enemy_pos, units@, moves@),
{
    let team = enemy_unit.team;
    let targets = find_targets_by_distance(enemy_unit, enemy_pos, units);
    if targets.len() == 0 {
        let r = vec![UnitExecuteAction::Wait];
        assert(plan_view(r@) =~= trapper_plan(*gm, enemy, team, enemy_pos, units@, moves@));
        return r;
    }
    let c = closest_exec(&targets);
    let target = targets[c];
    assert(target == targets@[closest_index(targets@)]);
    proof {
        lemma_targets_small(team, enemy_pos, units@);
        assert(pos_small(targets@[c as int].1));
    }
    let dirs = direction_vecs();
    let mut i: usize = 0;
    while i < 4
        invariant
            i <= 4,
            team == enemy_unit.team,
            targets@.len() > 0,
            target == targets@[closest_index(targets@)],
            targets@ == targets_spec(team, enemy_pos, units@),
            gm.dims_ok(),
            pos_small(target.1),
            moves_usable(moves@),
            forall|t: int| 0 <= t < 4 ==> #[trigger] dirs@[t] == direction_vec(t),
            forall|j: int| 0 <= j < i ==> !reachable_side(*gm, target.1, moves@, j),
        decreases 4 - i,
    {
        let dir = dirs[i];
        assert(dir == direction_vec(i as int));
        if let GridPositionChangeResult::Moved(q) = gm.change_position_with_bounds(target.1, dir) {
            assert(neighbour_on_grid(*gm, target.1, i as int) == Some(q));
            let mut k: usize = 0;
            while k < moves.len()
                invariant
                    k <= moves@.len(),
                    i < 4,
                    team == enemy_unit.team,
                    targets@.len() > 0,
                    target == targets@[closest_index(targets@)],
                    targets@ == targets_spec(team, enemy_pos, units@),
                    moves_usable(moves@),
                    neighbour_on_grid(*gm, target.1, i as int) == Some(q),
                    forall|j: int| 0 <= j < i ==> !reachable_side(*gm, target.1, moves@, j),
                    forall|j: int| 0 <= j < k ==> moves@[j].target != q,
                decreases moves@.len() - k,
            {
                if moves[k].target == q {
                    let r = vec![
                        UnitExecuteAction::Move(moves[k].duplicate()),
                        UnitExecuteAction::Attack(AttackIntent { attacker: enemy, defender: target.0, skill: attack_skill_id() }),
                        UnitExecuteAction::Wait,
                    ];
                    proof {
                        assert(moves@[k as int].target == q);
                        assert(reachable_side(*gm, target.1, moves@, i as int));
                        let ci = choose|ci: int| 0 <= ci < 4 && reachable_side(*gm, target.1, moves@, ci) && forall|j: int|
                            0 <= j < ci ==> !reachable_side(*gm, target.1, moves@, j);
                        assert(ci == i);
                        let ck = choose|ck: int| 0 <= ck < moves@.len() && moves@[ck].target == q;
                        assert(ck == k);
                        assert(plan_view(r@) =~= trapper_plan(*gm, enemy, team, enemy_pos, units@, moves@));
                    }
                    return r;
                }
                k = k + 1;
            }
        }
        i = i + 1;
    }
    let r = vec![UnitExecuteAction::Wait];
    assert(plan_view(r@) =~= trapper_plan(*gm, enemy, team, enemy_pos, units@, moves@));
    r
}

/// The plan of an enemy, given the moves open to it (distinct tiles): a
/// pacifist waits; a wanderer takes the first move and waits; a trapper and
/// a berserker plan as `trapper_plan` and `berserker_plan` say.
pub fn plan_with_moves(
    gm: &GridManager,
    enemy: u64,
    enemy_unit: &Unit,
    behavior: &EnemyAiBehavior,
    enemy_pos: GridPosition,
    units: &Vec<(u64, Unit, GridPosition)>,
    moves: &Vec<ValidMove>,
) -> (plan: PlannedEnemyAction)
    requires
        gm.dims_ok(),
        pos_small(enemy_pos),
        forall|i: int| 0 <= i < units@.len() ==> pos_small(#[trigger] units@[i].2),
        moves_usable(moves@),
    ensures
        plan.steps() == plan_spec(*gm, behavior.behavior, enemy, enemy_unit.team, enemy_pos, units@, moves@),
{
    let actions = match behavior.behavior {
        Behavior::Pacifist => {
            let r = vec![UnitExecuteAction::Wait];
            assert(plan_view(r@) =~= seq![PlanStep::Wait]);
            r
        },
        Behavior::Wanderer => {
            let mut r: Vec<UnitExecuteAction> = Vec::new();
            if moves.len() > 0 {
                r.push(UnitExecuteAction::Move(moves[0].duplicate()));
            }
            r.push(UnitExecuteAction::Wait);
            assert(plan_view(r@) =~= plan_spec(*gm, behavior.behavior, enemy, enemy_unit.team, enemy_pos, units@, moves@));
            r
        },
        Behavior::Trapper => trapper_actions(gm, enemy, enemy_unit, enemy_pos, units, moves),
        Behavior::Berserker => berserker_actions(gm, enemy, enemy_unit, enemy_pos, units, moves),
    };
    PlannedEnemyAction { action_queue: actions }
}

/// Plans the active enemy's turn: finds the moves open to it with its
/// movement points left, then plans as `plan_with_moves` does with those
/// moves (each a shortest walk to a free tile, every such tile once).
pub fn plan_enemy_action(
    gm: &GridManager,
    enemy: u64,
    enemy_unit: &Unit,
    resources: &UnitPhaseResources,
    behavior: &EnemyAiBehavior,
    enemy_pos: GridPosition,
    units: &Vec<(u64, Unit)>,
    units_with_position: &Vec<(u64, Unit, GridPosition)>,
) -> (plan: PlannedEnemyAction)
    requires
        gm.dims_ok(),
        gm.spec_width() <= 0x4000_0000,
        gm.spec_height() <= 0x4000_0000,
        pos_small(enemy_pos),
        forall|i: int| 0 <= i < units_with_position@.len() ==> pos_small(#[trigger] units_with_position@[i].2),
        resources.movement_points_left_in_phase <= i32::MAX,
        resources.movement_points_left_in_phase <= enemy_unit.stats.movement + 1,
    ensures
        exists|moves: Seq<ValidMove>| {
            &&& forall|i: int, j: int| 0 <= i < j < moves.len() ==> moves[i].target != moves[j].target
            &&& forall|i: int| 0 <= i < moves.len() ==> move_ok(*gm, units@, enemy_unit.team, enemy_pos,
                resources.movement_points_left_in_phase as int, enemy_unit.stats.movement as int, #[trigger] moves[i])
            &&& forall|q: GridPosition| #[trigger] is_destination(*gm, units@, enemy_unit.team, enemy_pos,
                resources.movement_points_left_in_phase as int, q) ==> exists|i: int| 0 <= i < moves.len() && moves[i].target == q
            &&& plan.steps() == plan_spec(*gm, behavior.behavior, enemy, enemy_unit.team, enemy_pos, units_with_position@, moves)
        },
{
    let request = MovementRequest {
        origin: enemy_pos,
        unit: Unit {
            name: String::new(),
            stats: crate::unit::Stats::new().with_movement(enemy_unit.stats.movement),
            obstacle: crate::unit::ObstacleType::Neutral,
            team: enemy_unit.team,
        },
        movement_points_available: resources.movement_points_left_in_phase,
    };
    let ghost req = request;
    let moves = get_valid_moves_for_unit(gm, request, units);
    proof {
        assert forall|i: int| 0 <= i < moves@.len() implies pos_small(#[trigger] moves@[i].target) by {
            assert(move_ok(*gm, units@, enemy_unit.team, enemy_pos, resources.movement_points_left_in_phase as int,
                enemy_unit.stats.movement as int, moves@[i]));
            let path = moves@[i].path@;
            let n = path.len() - 2;
            assert(crate::unit::step_ok(*gm, units@, enemy_unit.team, path[n], path[n + 1]));
        }
    }
    let plan = plan_with_moves(gm, enemy, enemy_unit, behavior, enemy_pos, units_with_position, &moves);
    proof {
        let ms = moves@;
        let m = resources.movement_points_left_in_phase as int;
        assert(forall|i: int, j: int| 0 <= i < j < ms.len() ==> ms[i].target != ms[j].target);
        assert(forall|i: int| 0 <= i < ms.len() ==> move_ok(*gm, units@, enemy_unit.team, enemy_pos, m,
            enemy_unit.stats.movement as int, #[trigger] ms[i]));
        assert forall|q: GridPosition| #[trigger] is_destination(*gm, units@, enemy_unit.team, enemy_pos, m, q)
            implies exists|i: int| 0 <= i < ms.len() && ms[i].target == q by {
            assert(req.unit.team == enemy_unit.team && req.origin == enemy_pos && req.movement_points_available == m);
            assert(is_destination(*gm, units@, req.unit.team, req.origin, req.movement_points_available as int, q));
        }
        assert(plan.steps() == plan_spec(*gm, behavior.behavior, enemy, enemy_unit.team, enemy_pos, units_with_position@, ms));
    }
    plan
}

/// What an enemy does once one of its actions is done.
#[derive(Clone, Copy, PartialEq, Eq, Structural, Debug)]
pub enum EnemyStep {
    /// It goes on with its plan.
    ContinuePlan,
    /// Its turn is over; the next enemy can be chosen.
    EndTurn,
}

/// After a move, an attack (or an interaction) the enemy goes on with its
/// plan; after waiting its turn is over.
pub fn resolve_enemy_action(action: UnitAction) -> (s: EnemyStep)
    ensures
        s == (match action {
            UnitAction::Wait => EnemyStep::EndTurn,
            _ => EnemyStep::ContinuePlan,
        }),
{
    match action {
        UnitAction::Move | UnitAction::Attack | UnitAction::Interact => EnemyStep::ContinuePlan,
        UnitAction::Wait => EnemyStep::EndTurn,
    }
}

/// One of `moves` ends within one tile of the target `t`.
pub open spec fn reaches(t: (u64, GridPosition, u32), moves: Seq<ValidMove>) -> bool {
    exists|k: int| 0 <= k < moves.len() && manhattan_spec(#[trigger] moves[k].target, t.1) <= 1
}

/// The entry of `targets_spec` for the unit `u`, seen from `pos`.
pub open spec fn target_entry(pos: GridPosition, u: (u64, Unit, GridPosition)) -> (u64, GridPosition, u32) {
    (u.0, u.2, manhattan_spec(u.2, pos) as u32)
}

/// Unit `i` of `us` is standing and against `team`, and move `k` ends
/// within one tile of it.
pub open spec fn reachable_unit(team: Team, us: Seq<(u64, Unit, GridPosition)>, moves: Seq<ValidMove>, i: int, k: int) -> bool {
    &&& 0 <= i < us.len()
    &&& 0 <= k < moves.len()
    &&& hostile(team, us[i].1.team)
    &&& us[i].1.stats.health != 0
    &&& manhattan_spec(moves[k].target, us[i].2) <= 1
}

/// Nearest first: the distances never go down along `s`.
pub open spec fn by_distance(s: Seq<(u64, GridPosition, u32)>) -> bool {
    forall|i: int, j: int| 0 <= i < j < s.len() ==> s[i].2 <= s[j].2
}

proof fn lemma_scan_moves(target: (u64, GridPosition, u32), moves: Seq<ValidMove>, n: int)
    requires
        0 <= n <= moves.len(),
    ensures
        (scan_moves(target, moves, n).0 is None) <==> (forall|k: int| 0 <= k < n ==> manhattan_spec(#[trigger] moves[k].target, target.1) > 1),
        scan_moves(target, moves, n).0 matches Some((id, k)) ==> id == target.0 && 0 <= k < n && manhattan_spec(moves[k].target, target.1) <= 1,
    decreases n,
{
    if n > 0 {
        lemma_scan_moves(target, moves, n - 1);
    }
}

proof fn lemma_scan_targets(targets: Seq<(u64, GridPosition, u32)>, moves: Seq<ValidMove>, n: int)
    requires
        0 <= n <= targets.len(),
    ensures
        (scan_targets(targets, moves, n).0 is None) <==> (forall|j: int| 0 <= j < n ==> !reaches(#[trigger] targets[j], moves)),
        scan_targets(targets, moves, n).0 matches Some((id, k)) ==> exists|j: int|
            0 <= j < n && id == #[trigger] targets[j].0 && 0 <= k < moves.len() && manhattan_spec(moves[k].target, targets[j].1) <= 1
                && forall|j2: int| 0 <= j2 < j ==> !reaches(#[trigger] targets[j2], moves),
    decreases n,
{
    if n > 0 {
        lemma_scan_targets(targets, moves, n - 1);
        let t = targets[n - 1];
        lemma_scan_moves(t, moves, moves.len() as int);
        let prev = scan_targets(targets, moves, n - 1);
        let inner = scan_moves(t, moves, moves.len() as int);
        if reaches(t, moves) {
            let k = choose|k: int| 0 <= k < moves.len() && manhattan_spec(#[trigger] moves[k].target, t.1) <= 1;
            assert(manhattan_spec(moves[k].target, t.1) <= 1);
            assert(inner.0 is Some);
        } else {
            assert forall|k: int| 0 <= k < moves.len() implies manhattan_spec(#[trigger] moves[k].target, t.1) > 1 by {
                if manhattan_spec(moves[k].target, t.1) <= 1 {
                    assert(reaches(t, moves));
                }
            }
        }
        if prev.0 is None {
            if let Some((id, k)) = inner.0 {
                assert(id == targets[n - 1].0);
                assert(forall|j2: int| 0 <= j2 < n - 1 ==> !reaches(#[trigger] targets[j2], moves));
            }
        }
    }
}

proof fn lemma_contains_push<A>(s: Seq<A>, x: A, y: A)
    ensures
        s.push(x).contains(y) <==> (s.contains(y) || y == x),
{
    if s.push(x).contains(y) {
        let i = choose|i: int| 0 <= i < s.push(x).len() && s.push(x)[i] == y;
        if i < s.len() {
            assert(s[i] == y);
        }
    }
    if s.contains(y) {
        let i = choose|i: int| 0 <= i < s.len() && s[i] == y;
        assert(s.push(x)[i] == y);
    }
    if y == x {
        assert(s.push(x)[s.len() as int] == y);
    }
}

proof fn lemma_insert_facts(s: Seq<(u64, GridPosition, u32)>, x: (u64, GridPosition, u32))
    requires
        by_distance(s),
    ensures
        by_distance(insert_by_distance(s, x)),
        forall|y: (u64, GridPosition, u32)| insert_by_distance(s, x).contains(y) <==> (s.contains(y) || y == x),
    decreases s.len(),
{
    if s.len() == 0 {
        assert forall|y: (u64, GridPosition, u32)| insert_by_distance(s, x).contains(y) <==> (s.contains(y) || y == x) by {
            lemma_contains_push(s, x, y);
            assert(s.push(x) =~= seq![x]);
        }
    } else if s.last().2 <= x.2 {
        assert forall|y: (u64, GridPosition, u32)| insert_by_distance(s, x).contains(y) <==> (s.contains(y) || y == x) by {
            lemma_contains_push(s, x, y);
        }
    } else {
        let p = s.drop_last();
        let l = s.last();
        lemma_insert_facts(p, x);
        let q = insert_by_distance(p, x);
        assert forall|y: (u64, GridPosition, u32)| insert_by_distance(s, x).contains(y) <==> (s.contains(y) || y == x) by {
            lemma_contains_push(q, l, y);
            lemma_contains_push(p, l, y);
            assert(p.push(l) =~= s);
        }
        assert forall|i: int, j: int| 0 <= i < j < q.len() + 1 implies #[trigger] q.push(l)[i].2 <= #[trigger] q.push(l)[j].2 by {
            if j == q.len() {
                assert(q.contains(q[i]));
                if q[i] != x {
                    assert(p.contains(q[i]));
                    let m = choose|m: int| 0 <= m < p.len() && p[m] == q[i];
                    assert(s[m] == q[i]);
                    assert(s[m].2 <= s[s.len() - 1].2);
                }
            }
        }
    }
}

proof fn lemma_sort_facts(s: Seq<(u64, GridPosition, u32)>)
    ensures
        by_distance(sort_by_distance(s)),
        forall|y: (u64, GridPosition, u32)| sort_by_distance(s).contains(y) <==> s.contains(y),
    decreases s.len(),
{
    if s.len() > 0 {
        let p = s.drop_last();
        lemma_sort_facts(p);
        lemma_insert_facts(sort_by_distance(p), s.last());
        assert forall|y: (u64, GridPosition, u32)| sort_by_distance(s).contains(y) <==> s.contains(y) by {
            lemma_contains_push(p, s.last(), y);
            assert(p.push(s.last()) =~= s);
        }
    }
}

proof fn lemma_targets_members(team: Team, pos: GridPosition, us: Seq<(u64, Unit, GridPosition)>)
    ensures
        forall|i: int| 0 <= i < us.len() && hostile(team, us[i].1.team) && us[i].1.stats.health != 0
            ==> targets_spec(team, pos, us).contains(#[trigger] target_entry(pos, us[i])),
        forall|x: (u64, GridPosition, u32)| #[trigger] targets_spec(team, pos, us).contains(x) ==> exists|i: int|
            0 <= i < us.len() && hostile(team, us[i].1.team) && us[i].1.stats.health != 0 && x == #[trigger] target_entry(pos, us[i]),
    decreases us.len(),
{
    if us.len() > 0 {
        let p = us.drop_last();
        let u = us.last();
        lemma_targets_members(team, pos, p);
        let prev = targets_spec(team, pos, p);
        let t = targets_spec(team, pos, us);
        assert forall|i: int| 0 <= i < us.len() && hostile(team, us[i].1.team) && us[i].1.stats.health != 0
            implies t.contains(#[trigger] target_entry(pos, us[i])) by {
            lemma_contains_push(prev, target_entry(pos, u), target_entry(pos, us[i]));
            if i < p.len() {
                assert(p[i] == us[i]);
            }
        }
        assert forall|x: (u64, GridPosition, u32)| #[trigger] t.contains(x) implies exists|i: int|
            0 <= i < us.len() && hostile(team, us[i].1.team) && us[i].1.stats.health != 0 && x == #[trigger] target_entry(pos, us[i]) by {
            lemma_contains_push(prev, target_entry(pos, u), x);
            if prev.contains(x) {
                let i = choose|i: int| 0 <= i < p.len() && hostile(team, p[i].1.team) && p[i].1.stats.health != 0 && x == #[trigger] target_entry(pos, p[i]);
                assert(p[i] == us[i]);
            } else {
                assert(x == target_entry(pos, us[us.len() - 1]));
            }
        }
    }
}

/// When no unit is in range and one of its moves ends next to a unit against
/// it, a berserker hunts the closest such unit: it makes a move that ends
/// next to that unit, strikes it with the basic attack, and waits.
pub proof fn lemma_berserker_strikes_closest(
    gm: GridManager,
    enemy: u64,
    team: Team,
    enemy_pos: GridPosition,
    us: Seq<(u64, Unit, GridPosition)>,
    moves: Seq<ValidMove>,
)
    requires
        pos_small(enemy_pos),
        forall|i: int| 0 <= i < us.len() ==> pos_small(#[trigger] us[i].2),
        target_in_range_spec(gm, team, enemy_pos, us) is None,
        exists|i: int, k: int| reachable_unit(team, us, moves, i, k),
    ensures
        exists|i: int, k: int| #![trigger reachable_unit(team, us, moves, i, k)]
            reachable_unit(team, us, moves, i, k)
                && berserker_plan(gm, enemy, team, enemy_pos, us, moves) == seq![move_step(moves[k]), attack_step(enemy, us[i].0), PlanStep::Wait]
                && forall|i2: int, k2: int| reachable_unit(team, us, moves, i2, k2)
                    ==> manhattan_spec(us[i].2, enemy_pos) <= manhattan_spec(us[i2].2, enemy_pos),
{
    let ts = targets_spec(team, enemy_pos, us);
    let tg = sort_by_distance(ts);
    lemma_sort_facts(ts);
    lemma_targets_members(team, enemy_pos, us);
    lemma_scan_targets(tg, moves, tg.len() as int);
    let (i0, k0) = choose|i: int, k: int| reachable_unit(team, us, moves, i, k);
    let x0 = target_entry(enemy_pos, us[i0]);
    assert(ts.contains(x0));
    assert(tg.contains(x0));
    let j0 = choose|j: int| 0 <= j < tg.len() && tg[j] == x0;
    assert(manhattan_spec(moves[k0].target, tg[j0].1) <= 1);
    assert(reaches(tg[j0], moves));
    let scan = scan_targets(tg, moves, tg.len() as int);
    let (id, k) = scan.0.unwrap();
    let j = choose|j: int|
        0 <= j < tg.len() && id == #[trigger] tg[j].0 && 0 <= k < moves.len() && manhattan_spec(moves[k].target, tg[j].1) <= 1
            && forall|j2: int| 0 <= j2 < j ==> !reaches(#[trigger] tg[j2], moves);
    assert(tg.contains(tg[j]));
    assert(ts.contains(tg[j]));
    let i = choose|i: int|
        0 <= i < us.len() && hostile(team, us[i].1.team) && us[i].1.stats.health != 0 && tg[j] == #[trigger] target_entry(enemy_pos, us[i]);
    assert(reachable_unit(team, us, moves, i, k));
    assert(pos_small(us[i].2));
    assert(tg[j].2 == manhattan_spec(us[i].2, enemy_pos));
    assert forall|i2: int, k2: int| reachable_unit(team, us, moves, i2, k2) implies manhattan_spec(us[i].2, enemy_pos) <= manhattan_spec(
        us[i2].2,
        enemy_pos,
    ) by {
        let x2 = target_entry(enemy_pos, us[i2]);
        assert(ts.contains(x2));
        assert(tg.contains(x2));
        let j2 = choose|j2: int| 0 <= j2 < tg.len() && tg[j2] == x2;
        assert(manhattan_spec(moves[k2].target, tg[j2].1) <= 1);
        assert(reaches(tg[j2], moves));
        assert(pos_small(us[i2].2));
        assert(tg[j2].2 == manhattan_spec(us[i2].2, enemy_pos));
        if j < j2 {
            assert(tg[j].2 <= tg[j2].2);
        }
    }
    assert(berserker_plan(gm, enemy, team, enemy_pos, us, moves) == seq![move_step(moves[k]), attack_step(enemy, us[i].0), PlanStep::Wait]);
}

proof fn lemma_closest_index(targets: Seq<(u64, GridPosition, u32)>)
    requires
        targets.len() > 0,
    ensures
        0 <= closest_index(targets) < targets.len(),
        forall|k: int| 0 <= k < targets.len() ==> targets[closest_index(targets)].2 <= #[trigger] targets[k].2,
    decreases targets.len(),
{
    if targets.len() > 1 {
        let p = targets.drop_last();
        lemma_closest_index(p);
        let m = closest_index(p);
        assert(targets[m] == p[m]);
        assert forall|k: int| 0 <= k < targets.len() implies targets[closest_index(targets)].2 <= #[trigger] targets[k].2 by {
            if k < p.len() {
                assert(targets[k] == p[k]);
            }
        }
    }
}

/// When a trapper's plan strikes a unit, that unit is a standing unit
/// against it, and no standing unit against it is closer to the trapper.
pub proof fn lemma_trapper_strikes_closest(
    gm: GridManager,
    enemy: u64,
    team: Team,
    enemy_pos: GridPosition,
    us: Seq<(u64, Unit, GridPosition)>,
    moves: Seq<ValidMove>,
    target: u64,
)
    requires
        pos_small(enemy_pos),
        forall|i: int| 0 <= i < us.len() ==> pos_small(#[trigger] us[i].2),
        trapper_plan(gm, enemy, team, enemy_pos, us, moves).len() == 3,
        trapper_plan(gm, enemy, team, enemy_pos, us, moves)[1] == attack_step(enemy, target),
    ensures
        exists|i: int|
            0 <= i < us.len() && #[trigger] us[i].0 == target && hostile(team, us[i].1.team) && us[i].1.stats.health != 0
                && forall|j: int| 0 <= j < us.len() && hostile(team, us[j].1.team) && us[j].1.stats.health != 0
                    ==> manhattan_spec(us[i].2, enemy_pos) <= manhattan_spec(#[trigger] us[j].2, enemy_pos),
{
    let ts = targets_spec(team, enemy_pos, us);
    assert(ts.len() > 0);
    lemma_closest_index(ts);
    lemma_targets_members(team, enemy_pos, us);
    let m = closest_index(ts);
    assert(target == ts[m].0);
    assert(ts.contains(ts[m]));
    let i = choose|i: int|
        0 <= i < us.len() && hostile(team, us[i].1.team) && us[i].1.stats.health != 0 && ts[m] == #[trigger] target_entry(enemy_pos, us[i]);
    assert(pos_small(us[i].2));
    assert(ts[m].2 == manhattan_spec(us[i].2, enemy_pos));
    assert forall|j: int| 0 <= j < us.len() && hostile(team, us[j].1.team) && us[j].1.stats.health != 0 implies manhattan_spec(
        us[i].2,
        enemy_pos,
    ) <= manhattan_spec(#[trigger] us[j].2, enemy_pos) by {
        let x = target_entry(enemy_pos, us[j]);
        assert(ts.contains(x));
        let k = choose|k: int| 0 <= k < ts.len() && ts[k] == x;
        assert(pos_small(us[j].2));
        assert(ts[k].2 == manhattan_spec(us[j].2, enemy_pos));
    }
    assert(us[i].0 == target);
}

/// Every plan ends with waiting, which ends the enemy's turn.
pub proof fn lemma_plans_end_with_wait(
    gm: GridManager,
    behavior: Behavior,
    enemy: u64,
    team: Team,
    enemy_pos: GridPosition,
    us: Seq<(u64, Unit, GridPosition)>,
    moves: Seq<ValidMove>,
)
    ensures
        plan_spec(gm, behavior, enemy, team, enemy_pos, us, moves).len() >= 1,
        plan_spec(gm, behavior, enemy, team, enemy_pos, us, moves).last() is Wait,
        forall|i: int| 0 <= i < plan_spec(gm, behavior, enemy, team, enemy_pos, us, moves).len() - 1
            ==> !(#[trigger] plan_spec(gm, behavior, enemy, team, enemy_pos, us, moves)[i] is Wait),
{
}

} // verus!
