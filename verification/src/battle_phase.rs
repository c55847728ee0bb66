//! Turn phases: the player phase and the enemy phase alternate; each goes
//! through initialisation, start-of-phase effects and running, and ends when
//! no unit of its side can act any more.
use vstd::prelude::*;
use crate::gameplay_effects::{has_status_spec, ActiveEffects, Effect, EffectDuration, StatusTag};

verus! {

#[derive(Clone, Copy, PartialEq, Eq, Structural, Debug)]
pub enum PhaseState {
    Initializing,
    HandlingStartOfPhaseEffects,
    Running,
}

#[derive(Clone, Copy, PartialEq, Eq, Structural, Debug, Hash)]
pub enum PlayerEnemyPhase {
    Player,
    Enemy,
}

impl PlayerEnemyPhase {
    pub open spec fn next_spec(self) -> PlayerEnemyPhase {
        match self {
            PlayerEnemyPhase::Player => PlayerEnemyPhase::Enemy,
            PlayerEnemyPhase::Enemy => PlayerEnemyPhase::Player,
        }
    }

    /// The other side's phase.
    pub fn next(&self) -> (p: PlayerEnemyPhase)
        ensures
            p == self.next_spec(),
    {
        match self {
            PlayerEnemyPhase::Player => PlayerEnemyPhase::Enemy,
            PlayerEnemyPhase::Enemy => PlayerEnemyPhase::Player,
        }
    }
}

/// Two phases alternate: the phase after the next one is the phase itself,
/// and no phase follows itself.
pub proof fn lemma_phase_alternates(p: PlayerEnemyPhase)
    ensures
        p.next_spec().next_spec() == p,
        p.next_spec() != p,
{
}

/// The phase of the battle.
#[derive(Clone, Copy, PartialEq, Eq, Structural, Debug)]
pub struct PhaseManager {
    pub current_phase: PlayerEnemyPhase,
    pub phase_state: PhaseState,
    pub turn_count: u32,
}

#[derive(Clone, Copy, PartialEq, Eq, Structural, Debug)]
pub enum PhaseMessageType {
    PhaseBegin(PlayerEnemyPhase),
}

/// What a unit has left in the current phase.
#[derive(Clone, Copy, PartialEq, Eq, Structural, Debug)]
pub struct UnitPhaseResources {
    pub movement_points_left_in_phase: u32,
    pub action_points_left_in_phase: u32,
    pub waited: bool,
}

impl UnitPhaseResources {
    pub open spec fn can_act_spec(self) -> bool {
        !self.waited && (self.movement_points_left_in_phase > 0 || self.action_points_left_in_phase > 0)
    }

    /// Nothing left, not waited.
    pub fn default() -> (r: UnitPhaseResources)
        ensures
            r.movement_points_left_in_phase == 0 && r.action_points_left_in_phase == 0 && !r.waited,
    {
        UnitPhaseResources { movement_points_left_in_phase: 0, action_points_left_in_phase: 0, waited: false }
    }

    /// The unit has not waited and has movement or action points left.
    pub fn can_act(&self) -> (b: bool)
        ensures
            b == self.can_act_spec(),
    {
        if self.waited {
            return false;
        }
        self.movement_points_left_in_phase > 0 || self.action_points_left_in_phase > 0
    }
}

/// The player phase is running.
pub fn is_running_player_phase(pm: Option<&PhaseManager>) -> (b: bool)
    ensures
        b == (pm matches Some(m) && m.current_phase == PlayerEnemyPhase::Player && m.phase_state == PhaseState::Running),
{
    match pm {
        Some(m) => m.current_phase == PlayerEnemyPhase::Player && m.phase_state == PhaseState::Running,
        None => false,
    }
}

/// The enemy phase is running.
pub fn is_running_enemy_phase(pm: Option<&PhaseManager>) -> (b: bool)
    ensures
        b == (pm matches Some(m) && m.current_phase == PlayerEnemyPhase::Enemy && m.phase_state == PhaseState::Running),
{
    match pm {
        Some(m) => m.current_phase == PlayerEnemyPhase::Enemy && m.phase_state == PhaseState::Running,
        None => false,
    }
}

/// It is the enemy phase, in whatever state.
pub fn is_enemy_phase(pm: Option<&PhaseManager>) -> (b: bool)
    ensures
        b == (pm matches Some(m) && m.current_phase == PlayerEnemyPhase::Enemy),
{
    match pm {
        Some(m) => m.current_phase == PlayerEnemyPhase::Enemy,
        None => false,
    }
}

/// The battle starts in the player phase, initialising, at turn zero, and
/// announces the player phase.
pub fn init_phase_system() -> (r: (PhaseManager, PhaseMessageType))
    ensures
        r.0 == (PhaseManager { turn_count: 0, phase_state: PhaseState::Initializing, current_phase: PlayerEnemyPhase::Player }),
        r.1 == PhaseMessageType::PhaseBegin(PlayerEnemyPhase::Player),
{
    (
        PhaseManager { turn_count: 0, phase_state: PhaseState::Initializing, current_phase: PlayerEnemyPhase::Player },
        PhaseMessageType::PhaseBegin(PlayerEnemyPhase::Player),
    )
}

/// Every unit of a side is done: it cannot act or it is downed.
pub open spec fn all_done(units: Seq<(UnitPhaseResources, bool)>) -> bool {
    forall|i: int| 0 <= i < units.len() ==> !(#[trigger] units[i]).0.can_act_spec() || units[i].1
}

/// A downed unit never holds its side's phase, whatever it has left: adding
/// one changes nothing about whether the side is done. A standing unit holds
/// the phase exactly while it can act. So a side is done exactly when none
/// of its standing units can act.
pub proof fn lemma_downed_units_do_not_hold_the_phase(units: Seq<(UnitPhaseResources, bool)>, r: UnitPhaseResources)
    ensures
        all_done(units.push((r, true))) == all_done(units),
        all_done(units.push((r, false))) == (all_done(units) && (r.waited || (r.movement_points_left_in_phase == 0
            && r.action_points_left_in_phase == 0))),
        all_done(units) == forall|i: int| 0 <= i < units.len() && !(#[trigger] units[i]).1 ==> units[i].0.waited || (
        units[i].0.movement_points_left_in_phase == 0 && units[i].0.action_points_left_in_phase == 0),
{
    let d = units.push((r, true));
    let s = units.push((r, false));
    assert forall|i: int| 0 <= i < units.len() implies #[trigger] d[i] == units[i] && s[i] == units[i] by {}
    if all_done(units) {
        assert forall|i: int| 0 <= i < d.len() implies !(#[trigger] d[i]).0.can_act_spec() || d[i].1 by {
            if i < units.len() {
                assert(d[i] == units[i]);
            }
        }
    }
    if all_done(d) {
        assert forall|i: int| 0 <= i < units.len() implies !(#[trigger] units[i]).0.can_act_spec() || units[i].1 by {
            assert(d[i] == units[i]);
        }
    }
    if all_done(s) {
        assert(!s[units.len() as int].0.can_act_spec() || s[units.len() as int].1);
        assert forall|i: int| 0 <= i < units.len() implies !(#[trigger] units[i]).0.can_act_spec() || units[i].1 by {
            assert(s[i] == units[i]);
        }
    }
    if all_done(units) && !r.can_act_spec() {
        assert forall|i: int| 0 <= i < s.len() implies !(#[trigger] s[i]).0.can_act_spec() || s[i].1 by {
            if i < units.len() {
                assert(s[i] == units[i]);
            }
        }
    }
}

/// Ends the running phase of `owned_phase` when no attack is going on and
/// every unit of that side (its resources, and whether it is downed) is done:
/// the other side's phase then begins, initialising, and is announced.
pub fn check_should_advance_phase(
    phase_manager: &mut PhaseManager,
    owned_phase: PlayerEnemyPhase,
    units: &Vec<(UnitPhaseResources, bool)>,
    attacks_ongoing: bool,
) -> (r: Option<PhaseMessageType>)
    ensures
        if old(phase_manager).current_phase == owned_phase && old(phase_manager).phase_state == PhaseState::Running
            && !attacks_ongoing && all_done(units@) {
            &&& r == Some(PhaseMessageType::PhaseBegin(owned_phase.next_spec()))
            &&& *final(phase_manager) == (PhaseManager {
                current_phase: owned_phase.next_spec(),
                phase_state: PhaseState::Initializing,
                ..*old(phase_manager)
            })
        } else {
            r is None && *final(phase_manager) == *old(phase_manager)
        },
{
    if phase_manager.current_phase != owned_phase || phase_manager.phase_state != PhaseState::Running || attacks_ongoing {
        return None;
    }
    let mut i: usize = 0;
    while i < units.len()
        invariant
            i <= units@.len(),
            forall|j: int| 0 <= j < i ==> !(#[trigger] units@[j]).0.can_act_spec() || units@[j].1,
        decreases units@.len() - i,
    {
        if units[i].0.can_act() && !units[i].1 {
            return None;
        }
        i = i + 1;
    }
    let next_phase = owned_phase.next();
    phase_manager.current_phase = next_phase;
    phase_manager.phase_state = PhaseState::Initializing;
    Some(PhaseMessageType::PhaseBegin(next_phase))
}

/// At the beginning of `owned_phase` (while initialising) each unit of that
/// side gets one action point, movement points equal to its movement stat,
/// and has not waited. Returns whether the phase banner is to be shown.
pub fn prepare_for_phase(
    phase_manager: &PhaseManager,
    owned_phase: PlayerEnemyPhase,
    message: PhaseMessageType,
    resources: &mut Vec<UnitPhaseResources>,
    movement_stats: &Vec<u32>,
) -> (show_banner: bool)
    requires
        old(resources)@.len() == movement_stats@.len(),
    ensures
        show_banner == (message == PhaseMessageType::PhaseBegin(owned_phase) && phase_manager.phase_state == PhaseState::Initializing),
        final(resources)@.len() == old(resources)@.len(),
        forall|i: int| 0 <= i < final(resources)@.len() ==> #[trigger] final(resources)@[i] == if show_banner {
            UnitPhaseResources { action_points_left_in_phase: 1, movement_points_left_in_phase: movement_stats@[i], waited: false }
        } else {
            old(resources)@[i]
        },
{
    let PhaseMessageType::PhaseBegin(phase) = message;
    if !(phase == owned_phase && phase_manager.phase_state == PhaseState::Initializing) {
        return false;
    }
    let n = resources.len();
    let mut i: usize = 0;
    while i < n
        invariant
            n == resources@.len(),
            n == movement_stats@.len(),
            i <= n,
            forall|j: int| 0 <= j < i ==> #[trigger] resources@[j] == (UnitPhaseResources {
                action_points_left_in_phase: 1,
                movement_points_left_in_phase: movement_stats@[j],
                waited: false,
            }),
        decreases n - i,
    {
        resources.set(i, UnitPhaseResources { action_points_left_in_phase: 1, movement_points_left_in_phase: movement_stats[i], waited: false });
        i = i + 1;
    }
    true
}

/// Preparing a phase leaves every unit of that side able to act.
pub proof fn lemma_prepared_units_can_act(movement_stat: u32)
    ensures
        (UnitPhaseResources { action_points_left_in_phase: 1, movement_points_left_in_phase: movement_stat, waited: false }).can_act_spec(),
{
}

/// Once the banner has been shown, an initialising phase starts handling
/// its start-of-phase effects; either way the current phase is announced for
/// those effects.
pub fn start_phase(phase_manager: &mut PhaseManager) -> (phase: PlayerEnemyPhase)
    ensures
        phase == old(phase_manager).current_phase,
        *final(phase_manager) == if old(phase_manager).phase_state == PhaseState::Initializing {
            PhaseManager { phase_state: PhaseState::HandlingStartOfPhaseEffects, ..*old(phase_manager) }
        } else {
            *old(phase_manager)
        },
{
    if phase_manager.phase_state == PhaseState::Initializing {
        phase_manager.phase_state = PhaseState::HandlingStartOfPhaseEffects;
    }
    phase_manager.current_phase
}

/// When no start-of-phase effect is pending, the phase starts running and
/// its turn starts (the returned phase).
pub fn advance_after_start_of_phase_effects(phase_manager: &mut PhaseManager, effects_pending: bool) -> (turn_start: Option<PlayerEnemyPhase>)
    ensures
        if old(phase_manager).phase_state == PhaseState::HandlingStartOfPhaseEffects && !effects_pending {
            turn_start == Some(old(phase_manager).current_phase)
                && *final(phase_manager) == (PhaseManager { phase_state: PhaseState::Running, ..*old(phase_manager) })
        } else {
            turn_start is None && *final(phase_manager) == *old(phase_manager)
        },
{
    if phase_manager.phase_state == PhaseState::HandlingStartOfPhaseEffects && !effects_pending {
        phase_manager.phase_state = PhaseState::Running;
        return Some(phase_manager.current_phase);
    }
    None
}

/// The effect with one turn fewer where it lasts a number of turns (not
/// going below zero).
pub open spec fn tick_effect(e: Effect) -> Effect {
    match e.data.duration {
        EffectDuration::TurnCount(n) => Effect {
            data: crate::gameplay_effects::EffectData {
                duration: EffectDuration::TurnCount(if n == 0 { 0 } else { (n - 1) as u8 }),
                ..e.data
            },
            ..e
        },
        _ => e,
    }
}

/// The effect has run out: it lasts zero more turns.
pub open spec fn expired(e: Effect) -> bool {
    e.data.duration == EffectDuration::TurnCount(0)
}

/// The effects after a turn starts: each timed effect loses a turn, and
/// those left with none are dropped, order kept.
pub open spec fn after_turn_start(effects: Seq<Effect>) -> Seq<Effect>
    decreases effects.len(),
{
    if effects.len() == 0 {
        Seq::empty()
    } else {
        let prev = after_turn_start(effects.drop_last());
        let t = tick_effect(effects.last());
        if expired(t) {
            prev
        } else {
            prev.push(t)
        }
    }
}

/// At the start of a turn, timed effects lose a turn and the ones that have
/// run out are removed.
pub fn decrement_turn_count_effects(active_effects: &mut ActiveEffects)
    ensures
        final(active_effects).effects@ == after_turn_start(old(active_effects).effects@),
{
    let ghost start = active_effects.effects@;
    let mut kept: Vec<Effect> = Vec::new();
    let mut i: usize = 0;
    while i < active_effects.effects.len()
        invariant
            active_effects.effects@ == start,
            i <= start.len(),
            kept@ == after_turn_start(start.take(i as int)),
        decreases start.len() - i,
    {
        let e = active_effects.effects[i];
        proof {
            assert(start.take(i + 1).drop_last() =~= start.take(i as int));
        }
        let ticked = match e.data.duration {
            EffectDuration::TurnCount(n) => Effect {
                data: crate::gameplay_effects::EffectData { duration: EffectDuration::TurnCount(n.saturating_sub(1)), ..e.data },
                ..e
            },
            _ => e,
        };
        let gone = match ticked.data.duration {
            EffectDuration::TurnCount(n) => n == 0,
            _ => false,
        };
        if !gone {
            kept.push(ticked);
        }
        i = i + 1;
    }
    proof {
        assert(start.take(start.len() as int) =~= start);
    }
    active_effects.effects = kept;
}

/// After a turn starts, no effect is left with zero turns to run, and no
/// effect has been added.
pub proof fn lemma_turn_start_counts_down(effects: Seq<Effect>)
    ensures
        forall|i: int| 0 <= i < after_turn_start(effects).len() ==> !expired(#[trigger] after_turn_start(effects)[i]),
        after_turn_start(effects).len() <= effects.len(),
    decreases effects.len(),
{
    if effects.len() > 0 {
        lemma_turn_start_counts_down(effects.drop_last());
        let prev = after_turn_start(effects.drop_last());
        let t = tick_effect(effects.last());
        if !expired(t) {
            assert forall|i: int| 0 <= i < prev.push(t).len() implies !expired(#[trigger] prev.push(t)[i]) by {
                if i < prev.len() {
                    assert(prev.push(t)[i] == prev[i]);
                }
            }
        }
    }
}

/// At the start of a turn the effects are handled one by one, in order: an
/// effect lasting `n > 1` turns is kept with `n - 1` turns left, one lasting
/// a single turn (or none) is removed, and consumable and permanent effects
/// are kept as they are.
pub proof fn lemma_turn_start_one_effect(effects: Seq<Effect>, e: Effect)
    ensures
        after_turn_start(effects.push(e)) == after_turn_start(effects) + match e.data.duration {
            EffectDuration::TurnCount(n) => if n > 1 {
                seq![Effect { data: crate::gameplay_effects::EffectData { duration: EffectDuration::TurnCount((n - 1) as u8), ..e.data }, ..e }]
            } else {
                Seq::<Effect>::empty()
            },
            _ => seq![e],
        },
{
    assert(effects.push(e).drop_last() =~= effects);
    let prev = after_turn_start(effects);
    assert(prev + Seq::<Effect>::empty() =~= prev);
    assert(prev.push(tick_effect(e)) =~= prev + seq![tick_effect(e)]);
}

/// A poisoned unit takes poison damage when its phase begins.
pub fn needs_poison_damage(active_effects: &ActiveEffects) -> (b: bool)
    ensures
        b == has_status_spec(active_effects.effects@, StatusTag::Poisoned),
{
    active_effects.has_status(StatusTag::Poisoned)
}

/// Text of the banner that announces a phase.
pub fn banner_text(phase: PlayerEnemyPhase) -> (s: &'static str)
    ensures
        s@ == (match phase {
            PlayerEnemyPhase::Player => "PLAYER PHASE"@,
            PlayerEnemyPhase::Enemy => "ENEMY PHASE"@,
        }),
{
    match phase {
        PlayerEnemyPhase::Player => "PLAYER PHASE",
        PlayerEnemyPhase::Enemy => "ENEMY PHASE",
    }
}

/// The parts of the banner's animation.
#[derive(Clone, Copy, PartialEq, Eq, Structural, Debug)]
pub enum BannerAnimState {
    Entering,
    Holding,
    Exiting,
}

/// Milliseconds the banner takes to come in, stays, and takes to go.
pub const BANNER_ENTER_MILLIS: u32 = 400;

pub const BANNER_HOLD_MILLIS: u32 = 600;

pub const BANNER_EXIT_MILLIS: u32 = 400;

/// When a part of the banner's animation ends: the next part and how long it
/// lasts, or `None` once the banner has gone (and the phase can start).
pub fn banner_next(state: BannerAnimState) -> (r: Option<(BannerAnimState, u32)>)
    ensures
        r == (match state {
            BannerAnimState::Entering => Some((BannerAnimState::Holding, BANNER_HOLD_MILLIS)),
            BannerAnimState::Holding => Some((BannerAnimState::Exiting, BANNER_EXIT_MILLIS)),
            BannerAnimState::Exiting => None,
        }),
{
    match state {
        BannerAnimState::Entering => Some((BannerAnimState::Holding, BANNER_HOLD_MILLIS)),
        BannerAnimState::Holding => Some((BannerAnimState::Exiting, BANNER_EXIT_MILLIS)),
        BannerAnimState::Exiting => None,
    }
}

} // verus!
