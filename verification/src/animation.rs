//! Animation bookkeeping: which animation a unit plays, when a new one may
//! take over, frame stepping and markers, facing directions, and the table
//! of registered animations.
use vstd::prelude::*;
use crate::assoc::{assoc_map, has_key, keys_unique, lemma_assoc_lookup, lemma_assoc_push, lemma_assoc_update};
use crate::grid::{GridMovement, GridPosition};

pub mod tinytactics;

verus! {

#[derive(Clone, Copy, PartialEq, Eq, Structural, Debug, Hash)]
pub enum AnimationType {
    Idle,
    Attacking,
}

/// How much an animation matters: a more important one may cut off a less
/// important one, never the other way round.
#[derive(Clone, Copy, PartialEq, Eq, Structural, Debug, Hash)]
pub enum AnimationPriority {
    Idle,
    Reaction,
    Combat,
}

impl AnimationPriority {
    /// The rank of the priority: Idle < Reaction < Combat.
    pub open spec fn rank(self) -> int {
        match self {
            AnimationPriority::Idle => 0,
            AnimationPriority::Reaction => 1,
            AnimationPriority::Combat => 2,
        }
    }

    /// The rank of the priority: Idle < Reaction < Combat.
    pub fn level(&self) -> (r: u8)
        ensures
            r == self.rank(),
    {
        match self {
            AnimationPriority::Idle => 0,
            AnimationPriority::Reaction => 1,
            AnimationPriority::Combat => 2,
        }
    }
}

/// Points of an animation the game listens for.
#[derive(Clone, Copy, PartialEq, Eq, Structural, Debug, Hash)]
pub enum AnimationMarker {
    /// The frame at which the blow lands.
    HitFrame,
    /// The animation has run out.
    Complete,
}

/// The animations a unit has.
#[derive(Clone, Copy, PartialEq, Eq, Structural, Debug, Hash)]
pub enum UnitAnimationKind {
    IdleWalk,
    IdleHurt,
    IdleDead,
    Charge,
    Attack,
    TakeDamage,
    Release,
}

impl UnitAnimationKind {
    pub open spec fn id_spec(self) -> u8 {
        match self {
            UnitAnimationKind::IdleWalk => 1,
            UnitAnimationKind::IdleHurt => 2,
            UnitAnimationKind::IdleDead => 3,
            UnitAnimationKind::Charge => 4,
            UnitAnimationKind::Attack => 5,
            UnitAnimationKind::TakeDamage => 6,
            UnitAnimationKind::Release => 7,
        }
    }

    pub open spec fn priority_spec(self) -> AnimationPriority {
        match self {
            UnitAnimationKind::IdleWalk => AnimationPriority::Idle,
            UnitAnimationKind::IdleHurt => AnimationPriority::Idle,
            UnitAnimationKind::IdleDead => AnimationPriority::Idle,
            UnitAnimationKind::Charge => AnimationPriority::Combat,
            UnitAnimationKind::Attack => AnimationPriority::Combat,
            UnitAnimationKind::Release => AnimationPriority::Combat,
            UnitAnimationKind::TakeDamage => AnimationPriority::Reaction,
        }
    }

    /// The number the kind is registered under.
    pub fn id(&self) -> (r: u8)
        ensures
            r == self.id_spec(),
    {
        match self {
            UnitAnimationKind::IdleWalk => 1,
            UnitAnimationKind::IdleHurt => 2,
            UnitAnimationKind::IdleDead => 3,
            UnitAnimationKind::Charge => 4,
            UnitAnimationKind::Attack => 5,
            UnitAnimationKind::TakeDamage => 6,
            UnitAnimationKind::Release => 7,
        }
    }

    /// Idle animations are idle, taking damage is a reaction, the rest is
    /// combat.
    pub fn priority(&self) -> (p: AnimationPriority)
        ensures
            p == self.priority_spec(),
    {
        match self {
            UnitAnimationKind::IdleWalk => AnimationPriority::Idle,
            UnitAnimationKind::IdleHurt => AnimationPriority::Idle,
            UnitAnimationKind::IdleDead => AnimationPriority::Idle,
            UnitAnimationKind::Charge => AnimationPriority::Combat,
            UnitAnimationKind::Attack => AnimationPriority::Combat,
            UnitAnimationKind::Release => AnimationPriority::Combat,
            UnitAnimationKind::TakeDamage => AnimationPriority::Reaction,
        }
    }

    /// The registered id of this kind of animation.
    pub fn registered_id(&self) -> (r: RegisteredAnimationId)
        ensures
            r == (RegisteredAnimationId { id: self.id_spec(), priority: self.priority_spec() }),
    {
        RegisteredAnimationId { id: self.id(), priority: self.priority() }
    }
}

/// A sheet of animated sprites.
#[derive(Clone, Copy, PartialEq, Eq, Structural, Debug, Hash)]
pub struct AnimatedSpriteId(pub u32);

/// Ids of the registered sprite sheets.
pub const TT_UNIT_ANIMATED_SPRITE_ID: u32 = 1;

pub const TT_WEAPON_ANIMATED_SPRITE_ID: u32 = 2;

pub const BATTLE_TACTICS_TILESHEET: u32 = 3;

pub const FLAME_VFX_ANIMATED_SPRITE_ID: u32 = 4;

pub const POISON_VFX_ANIMATED_SPRITE_ID: u32 = 5;

pub const UNIT_DEMO_SPRITE_ID: u32 = 6;

/// An animation of a sprite sheet, with its priority.
#[derive(Clone, Copy, PartialEq, Eq, Structural, Debug, Hash)]
pub struct RegisteredAnimationId {
    pub id: u8,
    pub priority: AnimationPriority,
}

#[derive(Clone, Copy, PartialEq, Eq, Structural, Debug, Hash)]
pub struct AnimationKey {
    pub animated_sprite_id: AnimatedSpriteId,
    pub animation_id: RegisteredAnimationId,
}

/// The four directions a unit can face on the isometric grid.
#[derive(Clone, Copy, PartialEq, Eq, Structural, Debug, Hash)]
pub enum Direction {
    NE,
    NW,
    SE,
    SW,
}

impl Direction {
    /// The mirror image across the vertical axis.
    pub fn flip_across_y(&self) -> (d: Direction)
        ensures
            d == (match self {
                Direction::NE => Direction::NW,
                Direction::NW => Direction::NE,
                Direction::SE => Direction::SW,
                Direction::SW => Direction::SE,
            }),
    {
        match self {
            Direction::NE => Direction::NW,
            Direction::NW => Direction::NE,
            Direction::SE => Direction::SW,
            Direction::SW => Direction::SE,
        }
    }

    /// The direction whose frames are drawn: the sheets hold the eastern
    /// directions only.
    pub fn animation_direction(&self) -> (d: Direction)
        ensures
            d == (match self {
                Direction::NE => Direction::NE,
                Direction::NW => Direction::NE,
                Direction::SE => Direction::SE,
                Direction::SW => Direction::SE,
            }),
    {
        match self {
            Direction::NE => Direction::NE,
            Direction::NW => Direction::NE,
            Direction::SE => Direction::SE,
            Direction::SW => Direction::SE,
        }
    }

    /// Western directions are drawn mirrored.
    pub fn should_flip_across_y(&self) -> (b: bool)
        ensures
            b == (*self == Direction::SW || *self == Direction::NW),
    {
        match self {
            Direction::NE => false,
            Direction::SE => false,
            Direction::SW => true,
            Direction::NW => true,
        }
    }

    /// The label used in file names.
    pub fn to_string(&self) -> (s: String)
        ensures
            s@ == (match self {
                Direction::SE => "SE"@,
                Direction::NE => "NE"@,
                Direction::NW => "NW"@,
                Direction::SW => "SW"@,
            }),
    {
        match self {
            Direction::SE => "SE".to_string(),
            Direction::NE => "NE".to_string(),
            Direction::NW => "NW".to_string(),
            Direction::SW => "SW".to_string(),
        }
    }
}

#[derive(Clone, Copy, PartialEq, Eq, Structural, Debug, Hash)]
pub struct AnimationStartIndexKey {
    pub facing_direction: Option<Direction>,
    pub key: AnimationKey,
}

#[derive(Clone, Copy, PartialEq, Eq, Structural, Debug, Hash)]
pub struct FacingDirection(pub Direction);

/// Ties an animation to the attack execution (an entity) that waits on it.
#[derive(Clone, Copy, PartialEq, Eq, Structural, Debug, Hash)]
pub struct CombatAnimationId {
    pub ae_id: u64,
    pub skill_animation_id: u32,
}

impl CombatAnimationId {
    pub fn new(ae_id: u64, skill_animation_id: u32) -> (c: CombatAnimationId)
        ensures
            c.ae_id == ae_id && c.skill_animation_id == skill_animation_id,
    {
        CombatAnimationId { ae_id, skill_animation_id }
    }
}

#[derive(Clone, Copy, PartialEq, Eq, Structural, Debug, Hash)]
pub enum AnimationId {
    Combat(CombatAnimationId),
}

/// The direction a unit faces when attacking a target `(x, y)` tiles away:
/// along the longer axis (the vertical one on a tie).
pub open spec fn attack_facing_spec(x: int, y: int) -> Direction {
    let x_dir = if x >= 0 {
        Direction::NE
    } else {
        Direction::SW
    };
    let y_dir = if y >= 0 {
        Direction::SE
    } else {
        Direction::NW
    };
    if crate::grid::abs_int(x) > crate::grid::abs_int(y) {
        x_dir
    } else {
        y_dir
    }
}

/// The direction an attacker at `attacker` faces to strike `target`.
pub fn facing_toward(attacker: GridPosition, target: GridPosition) -> (d: Direction)
    requires
        attacker.fits_i32(),
        target.fits_i32(),
    ensures
        d == attack_facing_spec(target.x - attacker.x, target.y - attacker.y),
{
    let y: i32 = target.y as i32 - attacker.y as i32;
    let x: i32 = target.x as i32 - attacker.x as i32;
    let x_dir = if x >= 0 {
        Direction::NE
    } else {
        Direction::SW
    };
    let y_dir = if y >= 0 {
        Direction::SE
    } else {
        Direction::NW
    };
    let ax: i64 = if x < 0 {
        -(x as i64)
    } else {
        x as i64
    };
    let ay: i64 = if y < 0 {
        -(y as i64)
    } else {
        y as i64
    };
    if ax > ay {
        x_dir
    } else {
        y_dir
    }
}

/// The direction of a one-tile step `(dx, dy)`, or `current` for anything
/// else.
pub open spec fn step_facing_spec(dx: int, dy: int, current: Direction) -> Direction {
    if dx == 0 && dy == 1 {
        Direction::SE
    } else if dx == -1 && dy == 0 {
        Direction::SW
    } else if dx == 1 && dy == 0 {
        Direction::NE
    } else if dx == 0 && dy == -1 {
        Direction::NW
    } else {
        current
    }
}

/// The direction a walking unit faces: that of its next step, where it has
/// one and the step is one tile; else it keeps facing `current`.
pub fn facing_on_movement(movement: &GridMovement, current: Direction) -> (d: Direction)
    requires
        forall|i: int| 0 <= i < movement.waypoints@.len() ==> (#[trigger] movement.waypoints@[i]).fits_i32(),
    ensures
        d == (if movement.current_waypoint_index + 1 < movement.waypoints@.len() {
            let cur = movement.waypoints@[movement.current_waypoint_index as int];
            let next = movement.waypoints@[movement.current_waypoint_index + 1];
            step_facing_spec(next.x - cur.x, next.y - cur.y, current)
        } else {
            current
        }),
{
    match movement.next_position() {
        None => current,
        Some(next_pos) => match movement.current_position() {
            None => current,
            Some(current_pos) => {
                let dx: i32 = next_pos.x as i32 - current_pos.x as i32;
                let dy: i32 = next_pos.y as i32 - current_pos.y as i32;
                if dx == 0 && dy == 1 {
                    Direction::SE
                } else if dx == -1 && dy == 0 {
                    Direction::SW
                } else if dx == 1 && dy == 0 {
                    Direction::NE
                } else if dx == 0 && dy == -1 {
                    Direction::NW
                } else {
                    current
                }
            },
        },
    }
}

/// Frames per second of attack animations.
pub const ATTACK_FRAMES_PER_SECOND: u32 = 8;

/// Frames per second of the reaction to being hit (half the attack's pace).
pub const HURT_BY_ATTACK_FRAMES_PER_SECOND: u32 = 4;

/// The animation a player is running.
#[derive(Clone, Copy, PartialEq, Eq, Structural, Debug)]
pub struct PlayingAnimation {
    /// What the game waits on this animation for, if anything.
    pub animation_id: Option<AnimationId>,
    pub id: RegisteredAnimationId,
    pub frame: usize,
    pub frames_per_second: u32,
}

/// An animation asked for.
#[derive(Clone, Copy, PartialEq, Eq, Structural, Debug)]
pub struct AnimToPlay {
    pub id: RegisteredAnimationId,
    pub frames_per_second: u32,
}

/// Runs one animation at a time for a sprite sheet.
#[derive(Clone, Copy, PartialEq, Eq, Structural, Debug)]
pub struct UnitAnimationPlayer {
    pub current_animation: Option<PlayingAnimation>,
    pub animated_sprite_id: AnimatedSpriteId,
}

/// Whether `anim` may take over from what `current` runs: nothing runs, or
/// it matters at least as much.
pub open spec fn preempts_spec(current: Option<PlayingAnimation>, anim: AnimToPlay) -> bool {
    match current {
        None => true,
        Some(c) => anim.id.priority.rank() >= c.id.priority.rank(),
    }
}

/// Whether `current` already runs `anim`.
pub open spec fn already_running_spec(current: Option<PlayingAnimation>, anim: AnimToPlay) -> bool {
    match current {
        None => false,
        Some(c) => c.id == anim.id,
    }
}

/// What the player runs after being asked for `anim`: it starts from its
/// first frame where it may take over and is not running already.
pub open spec fn after_play(current: Option<PlayingAnimation>, anim: AnimToPlay, animation_id: Option<AnimationId>) -> Option<PlayingAnimation> {
    if preempts_spec(current, anim) && !already_running_spec(current, anim) {
        Some(PlayingAnimation { animation_id, id: anim.id, frame: 0, frames_per_second: anim.frames_per_second })
    } else {
        current
    }
}

impl UnitAnimationPlayer {
    pub fn new(animated_sprite_id: AnimatedSpriteId) -> (p: UnitAnimationPlayer)
        ensures
            p.current_animation is None,
            p.animated_sprite_id == animated_sprite_id,
    {
        UnitAnimationPlayer { current_animation: None, animated_sprite_id }
    }

    /// A player that already runs an animation.
    pub fn new_with_animation(animated_sprite_id: AnimatedSpriteId, current_animation: PlayingAnimation) -> (p: UnitAnimationPlayer)
        ensures
            p.current_animation == Some(current_animation),
            p.animated_sprite_id == animated_sprite_id,
    {
        UnitAnimationPlayer { current_animation: Some(current_animation), animated_sprite_id }
    }

    pub fn play(&mut self, anim: AnimToPlay)
        ensures
            final(self).current_animation == after_play(old(self).current_animation, anim, None),
            final(self).animated_sprite_id == old(self).animated_sprite_id,
    {
        self.play_with_maybe_id(anim, None);
    }

    pub fn play_with_id(&mut self, anim: AnimToPlay, animation_id: AnimationId)
        ensures
            final(self).current_animation == after_play(old(self).current_animation, anim, Some(animation_id)),
            final(self).animated_sprite_id == old(self).animated_sprite_id,
    {
        self.play_with_maybe_id(anim, Some(animation_id));
    }

    /// Starts `anim` (tagged with `animation_id`) where it may take over
    /// and is not running already; otherwise nothing changes.
    pub fn play_with_maybe_id(&mut self, anim: AnimToPlay, animation_id: Option<AnimationId>)
        ensures
            final(self).current_animation == after_play(old(self).current_animation, anim, animation_id),
            final(self).animated_sprite_id == old(self).animated_sprite_id,
    {
        if self.preempts(&anim) && !self.is_already_running(&anim) {
            self.current_animation = Some(PlayingAnimation {
                animation_id,
                id: anim.id,
                frame: 0,
                frames_per_second: anim.frames_per_second,
            });
        }
    }

    fn is_already_running(&self, anim: &AnimToPlay) -> (b: bool)
        ensures
            b == already_running_spec(self.current_animation, *anim),
    {
        match &self.current_animation {
            Some(c) => c.id == anim.id,
            None => false,
        }
    }

    fn preempts(&self, anim: &AnimToPlay) -> (b: bool)
        ensures
            b == preempts_spec(self.current_animation, *anim),
    {
        match self.current_priority() {
            Some(p) => anim.id.priority.level() >= p.level(),
            None => true,
        }
    }

    /// The priority of the running animation, if any.
    pub fn current_priority(&self) -> (p: Option<AnimationPriority>)
        ensures
            p == (match self.current_animation {
                Some(c) => Some(c.id.priority),
                None => None::<AnimationPriority>,
            }),
    {
        match &self.current_animation {
            Some(c) => Some(c.id.priority),
            None => None,
        }
    }
}

/// Asking for an animation never lowers the priority of what runs: an
/// animation is only cut off by one that matters at least as much, and
/// nothing stops running on being asked.
pub proof fn lemma_play_never_lowers_priority(current: Option<PlayingAnimation>, anim: AnimToPlay, animation_id: Option<AnimationId>)
    ensures
        after_play(current, anim, animation_id) is Some,
        current matches Some(c) ==> after_play(current, anim, animation_id)->0.id.priority.rank() >= c.id.priority.rank(),
        current matches Some(c) && anim.id.priority.rank() < c.id.priority.rank()
            ==> after_play(current, anim, animation_id) == current,
{
}

/// The registered id of a kind of unit animation.
pub open spec fn reg_id(kind: UnitAnimationKind) -> RegisteredAnimationId {
    RegisteredAnimationId { id: kind.id_spec(), priority: kind.priority_spec() }
}

/// The idle animation a unit shows: dead when downed, hurt when in
/// critical health and standing still, walking otherwise.
pub open spec fn idle_kind_spec(downed: bool, critical: bool, moving: bool) -> UnitAnimationKind {
    if downed {
        UnitAnimationKind::IdleDead
    } else if critical && !moving {
        UnitAnimationKind::IdleHurt
    } else {
        UnitAnimationKind::IdleWalk
    }
}

pub fn idle_kind(downed: bool, critical: bool, moving: bool) -> (k: UnitAnimationKind)
    ensures
        k == idle_kind_spec(downed, critical, moving),
{
    if downed {
        UnitAnimationKind::IdleDead
    } else if critical && !moving {
        UnitAnimationKind::IdleHurt
    } else {
        UnitAnimationKind::IdleWalk
    }
}

/// The animation of one sprite sheet that follows an animation of another
/// (a weapon swung along with its wielder).
#[derive(Clone, Copy, PartialEq, Eq, Structural, Debug, Hash)]
pub struct FollowerAnimationKey {
    pub follower_id: AnimatedSpriteId,
    pub followee_key: AnimationKey,
}

/// A registered animation: its pace, its length and the frames at which
/// it raises markers (each frame at most once).
#[derive(Clone, Debug)]
pub struct UnitAnimationDataInner {
    pub frames_per_second: u32,
    pub frame_count: usize,
    pub animation_offset_markers: Vec<(usize, AnimationMarker)>,
}

/// A registered animation as plain values.
pub open spec fn clip_view(d: UnitAnimationDataInner) -> (u32, usize, Seq<(usize, AnimationMarker)>) {
    (d.frames_per_second, d.frame_count, d.animation_offset_markers@)
}

/// Why a registration was refused.
#[derive(Clone, Copy, PartialEq, Eq, Structural, Debug)]
pub enum AnimationDbError {
    DataAlreadyExists,
    FollowerAlreadyExists,
}

/// The registered animations: their data, the frame of the sheet each
/// starts at for each facing, and which animations follow which.
pub struct AnimationDB {
    start_frames: Vec<(AnimationStartIndexKey, u8)>,
    animation_data: Vec<(AnimationKey, UnitAnimationDataInner)>,
    follower_map: Vec<(FollowerAnimationKey, AnimationKey)>,
}

/// The start frames after registering `key` with these offsets, in order
/// (a later facing replaces an earlier one).
pub open spec fn with_offsets(
    frames: Map<AnimationStartIndexKey, u8>,
    key: AnimationKey,
    offsets: Seq<(Option<Direction>, u8)>,
) -> Map<AnimationStartIndexKey, u8>
    decreases offsets.len(),
{
    if offsets.len() == 0 {
        frames
    } else {
        with_offsets(frames, key, offsets.drop_last()).insert(
            AnimationStartIndexKey { facing_direction: offsets.last().0, key },
            offsets.last().1,
        )
    }
}

impl AnimationDB {
    #[verifier::type_invariant]
    spec fn wf(self) -> bool {
        &&& keys_unique(self.start_frames@)
        &&& keys_unique(self.animation_data@)
        &&& keys_unique(self.follower_map@)
        &&& forall|i: int| 0 <= i < self.animation_data@.len()
            ==> keys_unique((#[trigger] self.animation_data@[i]).1.animation_offset_markers@)
    }

    pub closed spec fn start_frames(self) -> Map<AnimationStartIndexKey, u8> {
        assoc_map(self.start_frames@)
    }

    pub closed spec fn clips(self) -> Map<AnimationKey, UnitAnimationDataInner> {
        assoc_map(self.animation_data@)
    }

    pub closed spec fn followers(self) -> Map<FollowerAnimationKey, AnimationKey> {
        assoc_map(self.follower_map@)
    }

    /// Each registered animation as plain values.
    pub open spec fn clip_views(self) -> Map<AnimationKey, (u32, usize, Seq<(usize, AnimationMarker)>)> {
        self.clips().map_values(|d: UnitAnimationDataInner| clip_view(d))
    }

    pub fn new() -> (db: AnimationDB)
        ensures
            db.start_frames() == Map::<AnimationStartIndexKey, u8>::empty(),
            db.clips() == Map::<AnimationKey, UnitAnimationDataInner>::empty(),
            db.followers() == Map::<FollowerAnimationKey, AnimationKey>::empty(),
    {
        let db = AnimationDB { start_frames: Vec::new(), animation_data: Vec::new(), follower_map: Vec::new() };
        assert(db.start_frames() =~= Map::<AnimationStartIndexKey, u8>::empty());
        assert(db.clips() =~= Map::<AnimationKey, UnitAnimationDataInner>::empty());
        assert(db.followers() =~= Map::<FollowerAnimationKey, AnimationKey>::empty());
        db
    }

    fn data_index(&self, key: AnimationKey) -> (r: Option<usize>)
        ensures
            match r {
                Some(i) => i < self.animation_data@.len() && self.animation_data@[i as int].0 == key,
                None => !has_key(self.animation_data@, key),
            },
    {
        let mut i: usize = 0;
        while i < self.animation_data.len()
            invariant
                i <= self.animation_data@.len(),
                forall|j: int| 0 <= j < i ==> self.animation_data@[j].0 != key,
            decreases self.animation_data@.len() - i,
        {
            if self.animation_data[i].0 == key {
                return Some(i);
            }
            i = i + 1;
        }
        None
    }

    fn start_index_of(&self, key: AnimationStartIndexKey) -> (r: Option<usize>)
        ensures
            match r {
                Some(i) => i < self.start_frames@.len() && self.start_frames@[i as int].0 == key,
                None => !has_key(self.start_frames@, key),
            },
    {
        let mut i: usize = 0;
        while i < self.start_frames.len()
            invariant
                i <= self.start_frames@.len(),
                forall|j: int| 0 <= j < i ==> self.start_frames@[j].0 != key,
            decreases self.start_frames@.len() - i,
        {
            if self.start_frames[i].0 == key {
                return Some(i);
            }
            i = i + 1;
        }
        None
    }

    fn follower_index(&self, key: FollowerAnimationKey) -> (r: Option<usize>)
        ensures
            match r {
                Some(i) => i < self.follower_map@.len() && self.follower_map@[i as int].0 == key,
                None => !has_key(self.follower_map@, key),
            },
    {
        let mut i: usize = 0;
        while i < self.follower_map.len()
            invariant
                i <= self.follower_map@.len(),
                forall|j: int| 0 <= j < i ==> self.follower_map@[j].0 != key,
            decreases self.follower_map@.len() - i,
        {
            if self.follower_map[i].0 == key {
                return Some(i);
            }
            i = i + 1;
        }
        None
    }

    fn set_start_frame(&mut self, key: AnimationStartIndexKey, frame: u8)
        ensures
            final(self).start_frames() == old(self).start_frames().insert(key, frame),
            final(self).clips() == old(self).clips(),
            final(self).followers() == old(self).followers(),
    {
        proof {
            use_type_invariant(&*self);
        }
        match self.start_index_of(key) {
            Some(i) => {
                proof {
                    lemma_assoc_update(self.start_frames@, i as int, frame);
                }
                let mut v: Vec<(AnimationStartIndexKey, u8)> = Vec::new();
                std::mem::swap(&mut v, &mut self.start_frames);
                v.set(i, (key, frame));
                self.start_frames = v;
            },
            None => {
                proof {
                    lemma_assoc_push(self.start_frames@, key, frame);
                }
                let mut v: Vec<(AnimationStartIndexKey, u8)> = Vec::new();
                std::mem::swap(&mut v, &mut self.start_frames);
                v.push((key, frame));
                self.start_frames = v;
            },
        }
    }

    /// Registers the animation `key` with its data and the frame it starts
    /// at for each facing. The data is stored in any case; where data was
    /// registered under `key` already, the start frames are left as they
    /// were and the registration is refused.
    pub fn register_animation(
        &mut self,
        key: AnimationKey,
        data: UnitAnimationDataInner,
        offsets: &Vec<(Option<Direction>, u8)>,
    ) -> (r: Result<(), AnimationDbError>)
        requires
            keys_unique(data.animation_offset_markers@),
        ensures
            final(self).clips() == old(self).clips().insert(key, data),
            final(self).followers() == old(self).followers(),
            old(self).clips().contains_key(key) ==> r == Err::<(), AnimationDbError>(AnimationDbError::DataAlreadyExists)
                && final(self).start_frames() == old(self).start_frames(),
            !old(self).clips().contains_key(key) ==> r is Ok
                && final(self).start_frames() == with_offsets(old(self).start_frames(), key, offsets@),
    {
        proof {
            use_type_invariant(&*self);
        }
        let ghost old_data = self.animation_data@;
        let existed = match self.data_index(key) {
            Some(i) => {
                proof {
                    lemma_assoc_update(self.animation_data@, i as int, data);
                }
                let mut v: Vec<(AnimationKey, UnitAnimationDataInner)> = Vec::new();
                std::mem::swap(&mut v, &mut self.animation_data);
                v.set(i, (key, data));
                proof {
                    assert forall|j: int| 0 <= j < v@.len() implies keys_unique((#[trigger] v@[j]).1.animation_offset_markers@) by {
                        if j != i {
                            assert(v@[j] == old_data[j]);
                        }
                    }
                }
                self.animation_data = v;
                true
            },
            None => {
                proof {
                    lemma_assoc_push(self.animation_data@, key, data);
                }
                let mut v: Vec<(AnimationKey, UnitAnimationDataInner)> = Vec::new();
                std::mem::swap(&mut v, &mut self.animation_data);
                v.push((key, data));
                proof {
                    assert forall|j: int| 0 <= j < v@.len() implies keys_unique((#[trigger] v@[j]).1.animation_offset_markers@) by {
                        if j < v@.len() - 1 {
                            assert(v@[j] == old_data[j]);
                        }
                    }
                }
                self.animation_data = v;
                false
            },
        };
        if existed {
            return Err(AnimationDbError::DataAlreadyExists);
        }
        let ghost frames0 = self.start_frames();
        let mut i: usize = 0;
        while i < offsets.len()
            invariant
                i <= offsets@.len(),
                self.clips() == old(self).clips().insert(key, data),
                self.followers() == old(self).followers(),
                frames0 == old(self).start_frames(),
                self.start_frames() == with_offsets(frames0, key, offsets@.take(i as int)),
            decreases offsets@.len() - i,
        {
            let (d, f) = offsets[i];
            self.set_start_frame(AnimationStartIndexKey { facing_direction: d, key }, f);
            proof {
                assert(offsets@.take(i + 1).drop_last() =~= offsets@.take(i as int));
            }
            i = i + 1;
        }
        assert(offsets@.take(offsets@.len() as int) =~= offsets@);
        Ok(())
    }

    /// Registers that `f_key` follows `key`. The link is stored in any case;
    /// where `f_key` had a link already, the registration is refused.
    pub fn register_follower(&mut self, f_key: FollowerAnimationKey, key: AnimationKey) -> (r: Result<(), AnimationDbError>)
        ensures
            final(self).followers() == old(self).followers().insert(f_key, key),
            final(self).clips() == old(self).clips(),
            final(self).start_frames() == old(self).start_frames(),
            r is Err <==> old(self).followers().contains_key(f_key),
            r is Err ==> r == Err::<(), AnimationDbError>(AnimationDbError::FollowerAlreadyExists),
    {
        proof {
            use_type_invariant(&*self);
        }
        match self.follower_index(f_key) {
            Some(i) => {
                proof {
                    lemma_assoc_update(self.follower_map@, i as int, key);
                }
                let mut v: Vec<(FollowerAnimationKey, AnimationKey)> = Vec::new();
                std::mem::swap(&mut v, &mut self.follower_map);
                v.set(i, (f_key, key));
                self.follower_map = v;
                Err(AnimationDbError::FollowerAlreadyExists)
            },
            None => {
                proof {
                    lemma_assoc_push(self.follower_map@, f_key, key);
                }
                let mut v: Vec<(FollowerAnimationKey, AnimationKey)> = Vec::new();
                std::mem::swap(&mut v, &mut self.follower_map);
                v.push((f_key, key));
                self.follower_map = v;
                Ok(())
            },
        }
    }

    /// The data of the animation `key`, if registered.
    pub fn get_data(&self, key: &AnimationKey) -> (r: Option<&UnitAnimationDataInner>)
        ensures
            match r {
                Some(d) => self.clips().contains_key(*key) && *d == self.clips()[*key]
                    && keys_unique(d.animation_offset_markers@),
                None => !self.clips().contains_key(*key),
            },
    {
        proof {
            use_type_invariant(self);
        }
        match self.data_index(*key) {
            Some(i) => {
                proof {
                    lemma_assoc_lookup(self.animation_data@, i as int);
                }
                Some(&self.animation_data[i].1)
            },
            None => None,
        }
    }

    /// The frame the animation starts at for a facing, if registered.
    pub fn get_start_index(&self, key: &AnimationStartIndexKey) -> (r: Option<u8>)
        ensures
            r == (if self.start_frames().contains_key(*key) {
                Some(self.start_frames()[*key])
            } else {
                None::<u8>
            }),
    {
        proof {
            use_type_invariant(self);
        }
        match self.start_index_of(*key) {
            Some(i) => {
                proof {
                    lemma_assoc_lookup(self.start_frames@, i as int);
                }
                Some(self.start_frames[i].1)
            },
            None => None,
        }
    }

    /// The frame a follower's animation starts at for a facing: that of the
    /// animation it is linked to.
    pub fn get_follower_animation_start_index(
        &self,
        key: &FollowerAnimationKey,
        facing_direction: Option<Direction>,
    ) -> (r: Option<u8>)
        ensures
            r == (if self.followers().contains_key(*key) && self.start_frames().contains_key(
                AnimationStartIndexKey { facing_direction, key: self.followers()[*key] },
            ) {
                Some(self.start_frames()[AnimationStartIndexKey { facing_direction, key: self.followers()[*key] }])
            } else {
                None::<u8>
            }),
    {
        proof {
            use_type_invariant(self);
        }
        match self.follower_index(*key) {
            Some(i) => {
                proof {
                    lemma_assoc_lookup(self.follower_map@, i as int);
                }
                let k = self.follower_map[i].1;
                self.get_start_index(&AnimationStartIndexKey { facing_direction, key: k })
            },
            None => None,
        }
    }
}

/// The marker raised at `frame` of a registered animation, if any.
pub open spec fn marker_at(d: UnitAnimationDataInner, frame: usize) -> Option<AnimationMarker> {
    if assoc_map(d.animation_offset_markers@).contains_key(frame) {
        Some(assoc_map(d.animation_offset_markers@)[frame])
    } else {
        None
    }
}

fn find_marker(d: &UnitAnimationDataInner, frame: usize) -> (r: Option<AnimationMarker>)
    requires
        keys_unique(d.animation_offset_markers@),
    ensures
        r == marker_at(*d, frame),
{
    let markers = &d.animation_offset_markers;
    let mut i: usize = 0;
    while i < markers.len()
        invariant
            i <= markers@.len(),
            keys_unique(markers@),
            markers@ == d.animation_offset_markers@,
            forall|j: int| 0 <= j < i ==> markers@[j].0 != frame,
        decreases markers@.len() - i,
    {
        if markers[i].0 == frame {
            proof {
                lemma_assoc_lookup(markers@, i as int);
            }
            return Some(markers[i].1);
        }
        i = i + 1;
    }
    None
}

impl UnitAnimationPlayer {
    /// One frame of the running animation has elapsed: the animation moves
    /// to its next frame, the marker registered for that frame (if any) is
    /// raised together with what the animation is tagged with, and the
    /// animation stops once it runs past its last frame.
    pub fn advance_frame(&mut self, data: &UnitAnimationDataInner) -> (raised: Option<(AnimationMarker, Option<AnimationId>)>)
        requires
            old(self).current_animation is Some,
            old(self).current_animation->0.frame < usize::MAX,
            keys_unique(data.animation_offset_markers@),
        ensures
            final(self).animated_sprite_id == old(self).animated_sprite_id,
            ({
                let c = old(self).current_animation->0;
                let next = (c.frame + 1) as usize;
                &&& raised == (match marker_at(*data, next) {
                    Some(m) => Some((m, c.animation_id)),
                    None => None::<(AnimationMarker, Option<AnimationId>)>,
                })
                &&& if next >= data.frame_count {
                    final(self).current_animation is None
                } else {
                    final(self).current_animation == Some(PlayingAnimation { frame: next, ..c })
                }
            }),
    {
        let c = self.current_animation.unwrap();
        let next = c.frame + 1;
        let raised = match find_marker(data, next) {
            Some(m) => Some((m, c.animation_id)),
            None => None,
        };
        if next >= data.frame_count {
            self.current_animation = None;
        } else {
            self.current_animation = Some(PlayingAnimation { frame: next, ..c });
        }
        raised
    }

    /// The frame of the sheet to show: the running animation's frame
    /// counted from where it starts.
    pub fn sheet_index(&self, start_index: u8) -> (r: Option<usize>)
        requires
            self.current_animation matches Some(c) ==> c.frame + start_index <= usize::MAX,
        ensures
            r == (match self.current_animation {
                Some(c) => Some((c.frame + start_index) as usize),
                None => None::<usize>,
            }),
    {
        match &self.current_animation {
            Some(c) => Some(c.frame + start_index as usize),
            None => None,
        }
    }

    /// Shows the idle animation a unit's state calls for, where it is not
    /// the one running already (and may take over). Says whether that
    /// animation is registered for the sheet; where it is not, nothing
    /// changes.
    pub fn play_idle(&mut self, db: &AnimationDB, downed: bool, critical: bool, moving: bool) -> (found: bool)
        ensures
            final(self).animated_sprite_id == old(self).animated_sprite_id,
            ({
                let kind = idle_kind_spec(downed, critical, moving);
                let key = AnimationKey { animated_sprite_id: old(self).animated_sprite_id, animation_id: reg_id(kind) };
                &&& found == db.clips().contains_key(key)
                &&& !found ==> final(self).current_animation == old(self).current_animation
                &&& found ==> final(self).current_animation == (match old(self).current_animation {
                    Some(c) => if c.id == reg_id(kind) {
                        old(self).current_animation
                    } else {
                        after_play(old(self).current_animation, AnimToPlay { id: reg_id(kind), frames_per_second: db.clips()[key].frames_per_second }, None)
                    },
                    None => after_play(old(self).current_animation, AnimToPlay { id: reg_id(kind), frames_per_second: db.clips()[key].frames_per_second }, None),
                })
            }),
    {
        let kind = idle_kind(downed, critical, moving);
        let id = kind.registered_id();
        let data = match db.get_data(&AnimationKey { animated_sprite_id: self.animated_sprite_id, animation_id: id }) {
            Some(d) => d,
            None => {
                return false;
            },
        };
        let anim = AnimToPlay { id, frames_per_second: data.frames_per_second };
        match &self.current_animation {
            Some(c) => {
                if c.id != id {
                    self.play(anim);
                }
            },
            None => self.play(anim),
        }
        true
    }

    /// The frame a follower of this player shows: the leader's frame counted
    /// from where the linked animation starts for the leader's facing; none
    /// where the leader runs nothing or no link or start is registered.
    pub fn follower_sheet_index(&self, db: &AnimationDB, follower_id: AnimatedSpriteId, facing: Option<Direction>) -> (r: Option<usize>)
        requires
            self.current_animation matches Some(c) ==> c.frame + 255 <= usize::MAX,
        ensures
            r == (match self.current_animation {
                None => None::<usize>,
                Some(c) => {
                    let fkey = FollowerAnimationKey {
                        follower_id,
                        followee_key: AnimationKey { animated_sprite_id: self.animated_sprite_id, animation_id: c.id },
                    };
                    let skey = AnimationStartIndexKey { facing_direction: facing, key: db.followers()[fkey] };
                    if db.followers().contains_key(fkey) && db.start_frames().contains_key(skey) {
                        Some((c.frame + db.start_frames()[skey]) as usize)
                    } else {
                        None::<usize>
                    }
                },
            }),
    {
        match &self.current_animation {
            None => None,
            Some(c) => {
                let fkey = FollowerAnimationKey {
                    follower_id,
                    followee_key: AnimationKey { animated_sprite_id: self.animated_sprite_id, animation_id: c.id },
                };
                match db.get_follower_animation_start_index(&fkey, facing) {
                    Some(start) => Some(c.frame + start as usize),
                    None => None,
                }
            },
        }
    }
}

/// The key of an animation of a sheet.
pub open spec fn anim_key(sprite: u32, id: RegisteredAnimationId) -> AnimationKey {
    AnimationKey { animated_sprite_id: AnimatedSpriteId(sprite), animation_id: id }
}

/// The id the effect animations (flames, poison) are registered under.
pub open spec fn vfx_id() -> RegisteredAnimationId {
    RegisteredAnimationId { id: 1, priority: AnimationPriority::Combat }
}

pub fn vfx_registered_id() -> (r: RegisteredAnimationId)
    ensures
        r == vfx_id(),
{
    RegisteredAnimationId { id: 1, priority: AnimationPriority::Combat }
}

/// The animations the game ships with: pace, length and markers.
pub open spec fn built_in_clips() -> Map<AnimationKey, (u32, usize, Seq<(usize, AnimationMarker)>)> {
    map![
        anim_key(TT_WEAPON_ANIMATED_SPRITE_ID, reg_id(UnitAnimationKind::Attack)) => (ATTACK_FRAMES_PER_SECOND, 4usize, seq![]),
        anim_key(TT_UNIT_ANIMATED_SPRITE_ID, reg_id(UnitAnimationKind::Attack)) => (ATTACK_FRAMES_PER_SECOND, 4usize, seq![(2usize, AnimationMarker::HitFrame), (4usize, AnimationMarker::Complete)]),
        anim_key(TT_UNIT_ANIMATED_SPRITE_ID, reg_id(UnitAnimationKind::IdleWalk)) => (8u32, 8usize, seq![]),
        anim_key(TT_UNIT_ANIMATED_SPRITE_ID, reg_id(UnitAnimationKind::TakeDamage)) => (4u32, 1usize, seq![]),
        anim_key(TT_UNIT_ANIMATED_SPRITE_ID, reg_id(UnitAnimationKind::IdleHurt)) => (1u32, 1usize, seq![]),
        anim_key(TT_UNIT_ANIMATED_SPRITE_ID, reg_id(UnitAnimationKind::IdleDead)) => (1u32, 1usize, seq![]),
        anim_key(TT_UNIT_ANIMATED_SPRITE_ID, reg_id(UnitAnimationKind::Charge)) => (1u32, 1usize, seq![(1usize, AnimationMarker::Complete)]),
        anim_key(TT_UNIT_ANIMATED_SPRITE_ID, reg_id(UnitAnimationKind::Release)) => (1u32, 1usize, seq![(1usize, AnimationMarker::Complete)]),
        anim_key(FLAME_VFX_ANIMATED_SPRITE_ID, vfx_id()) => (9u32, 18usize, seq![(9usize, AnimationMarker::HitFrame), (18usize, AnimationMarker::Complete)]),
        anim_key(POISON_VFX_ANIMATED_SPRITE_ID, vfx_id()) => (16u32, 16usize, seq![(10usize, AnimationMarker::HitFrame), (16usize, AnimationMarker::Complete)]),
        anim_key(UNIT_DEMO_SPRITE_ID, reg_id(UnitAnimationKind::IdleWalk)) => (1u32, 1usize, seq![])
    ]
}

/// Where each shipped animation starts in its sheet, by facing.
pub open spec fn built_in_start_frames() -> Map<AnimationStartIndexKey, u8> {
    map![
        AnimationStartIndexKey { facing_direction: Some(Direction::NE), key: anim_key(TT_WEAPON_ANIMATED_SPRITE_ID, reg_id(UnitAnimationKind::Attack)) } => 0u8,
        AnimationStartIndexKey { facing_direction: Some(Direction::SE), key: anim_key(TT_WEAPON_ANIMATED_SPRITE_ID, reg_id(UnitAnimationKind::Attack)) } => 4u8,
        AnimationStartIndexKey { facing_direction: Some(Direction::NE), key: anim_key(TT_UNIT_ANIMATED_SPRITE_ID, reg_id(UnitAnimationKind::Attack)) } => 16u8,
        AnimationStartIndexKey { facing_direction: Some(Direction::SE), key: anim_key(TT_UNIT_ANIMATED_SPRITE_ID, reg_id(UnitAnimationKind::Attack)) } => 20u8,
        AnimationStartIndexKey { facing_direction: Some(Direction::NE), key: anim_key(TT_UNIT_ANIMATED_SPRITE_ID, reg_id(UnitAnimationKind::IdleWalk)) } => 0u8,
        AnimationStartIndexKey { facing_direction: Some(Direction::SE), key: anim_key(TT_UNIT_ANIMATED_SPRITE_ID, reg_id(UnitAnimationKind::IdleWalk)) } => 8u8,
        AnimationStartIndexKey { facing_direction: Some(Direction::NE), key: anim_key(TT_UNIT_ANIMATED_SPRITE_ID, reg_id(UnitAnimationKind::TakeDamage)) } => 40u8,
        AnimationStartIndexKey { facing_direction: Some(Direction::SE), key: anim_key(TT_UNIT_ANIMATED_SPRITE_ID, reg_id(UnitAnimationKind::TakeDamage)) } => 44u8,
        AnimationStartIndexKey { facing_direction: Some(Direction::NE), key: anim_key(TT_UNIT_ANIMATED_SPRITE_ID, reg_id(UnitAnimationKind::IdleHurt)) } => 48u8,
        AnimationStartIndexKey { facing_direction: Some(Direction::SE), key: anim_key(TT_UNIT_ANIMATED_SPRITE_ID, reg_id(UnitAnimationKind::IdleHurt)) } => 52u8,
        AnimationStartIndexKey { facing_direction: Some(Direction::NE), key: anim_key(TT_UNIT_ANIMATED_SPRITE_ID, reg_id(UnitAnimationKind::IdleDead)) } => 56u8,
        AnimationStartIndexKey { facing_direction: Some(Direction::SE), key: anim_key(TT_UNIT_ANIMATED_SPRITE_ID, reg_id(UnitAnimationKind::IdleDead)) } => 60u8,
        AnimationStartIndexKey { facing_direction: Some(Direction::NE), key: anim_key(TT_UNIT_ANIMATED_SPRITE_ID, reg_id(UnitAnimationKind::Charge)) } => 36u8,
        AnimationStartIndexKey { facing_direction: Some(Direction::SE), key: anim_key(TT_UNIT_ANIMATED_SPRITE_ID, reg_id(UnitAnimationKind::Charge)) } => 32u8,
        AnimationStartIndexKey { facing_direction: Some(Direction::NE), key: anim_key(TT_UNIT_ANIMATED_SPRITE_ID, reg_id(UnitAnimationKind::Release)) } => 24u8,
        AnimationStartIndexKey { facing_direction: Some(Direction::SE), key: anim_key(TT_UNIT_ANIMATED_SPRITE_ID, reg_id(UnitAnimationKind::Release)) } => 28u8,
        AnimationStartIndexKey { facing_direction: None, key: anim_key(FLAME_VFX_ANIMATED_SPRITE_ID, vfx_id()) } => 0u8,
        AnimationStartIndexKey { facing_direction: None, key: anim_key(POISON_VFX_ANIMATED_SPRITE_ID, vfx_id()) } => 0u8,
        AnimationStartIndexKey { facing_direction: None, key: anim_key(UNIT_DEMO_SPRITE_ID, reg_id(UnitAnimationKind::IdleWalk)) } => 0u8,
        AnimationStartIndexKey { facing_direction: Some(Direction::SE), key: anim_key(UNIT_DEMO_SPRITE_ID, reg_id(UnitAnimationKind::IdleWalk)) } => 0u8
    ]
}

/// The weapon's attack follows the unit's attack.
pub open spec fn built_in_followers() -> Map<FollowerAnimationKey, AnimationKey> {
    map![
        FollowerAnimationKey {
            follower_id: AnimatedSpriteId(TT_WEAPON_ANIMATED_SPRITE_ID),
            followee_key: anim_key(TT_UNIT_ANIMATED_SPRITE_ID, reg_id(UnitAnimationKind::Attack)),
        } => anim_key(TT_WEAPON_ANIMATED_SPRITE_ID, reg_id(UnitAnimationKind::Attack))
    ]
}

/// Registers the animations the game ships with.
#[verifier::rlimit(60)]
pub fn build_animation_db() -> (r: Result<AnimationDB, AnimationDbError>)
    ensures
        r matches Ok(db) && db.clip_views() == built_in_clips() && db.start_frames() == built_in_start_frames()
            && db.followers() == built_in_followers(),
{
    let mut db = AnimationDB::new();
    let ghost clips0 = Map::<AnimationKey, (u32, usize, Seq<(usize, AnimationMarker)>)>::empty();
    let ghost frames0 = Map::<AnimationStartIndexKey, u8>::empty();
    proof {
        reveal_with_fuel(with_offsets, 3);
        assert(db.clip_views() =~= clips0);
    }
    // weapon_attack
    let markers: Vec<(usize, AnimationMarker)> = Vec::new();
    let offsets: Vec<(Option<Direction>, u8)> = vec![(Some(Direction::NE), 0u8), (Some(Direction::SE), 4u8)];
    proof {
        assert(markers@ =~= seq![]);
        assert(offsets@ =~= seq![(Some(Direction::NE), 0u8), (Some(Direction::SE), 4u8)]);
    }
    let r = db.register_animation(
        AnimationKey { animated_sprite_id: AnimatedSpriteId(TT_WEAPON_ANIMATED_SPRITE_ID), animation_id: UnitAnimationKind::Attack.registered_id() },
        UnitAnimationDataInner { frames_per_second: ATTACK_FRAMES_PER_SECOND, frame_count: 4, animation_offset_markers: markers },
        &offsets,
    );
    if r.is_err() {
        return Err(AnimationDbError::DataAlreadyExists);
    }
    let ghost clips1 = clips0.insert(anim_key(TT_WEAPON_ANIMATED_SPRITE_ID, reg_id(UnitAnimationKind::Attack)), (ATTACK_FRAMES_PER_SECOND, 4usize, seq![]));
    let ghost frames1 = frames0.insert(AnimationStartIndexKey { facing_direction: Some(Direction::NE), key: anim_key(TT_WEAPON_ANIMATED_SPRITE_ID, reg_id(UnitAnimationKind::Attack)) }, 0u8).insert(AnimationStartIndexKey { facing_direction: Some(Direction::SE), key: anim_key(TT_WEAPON_ANIMATED_SPRITE_ID, reg_id(UnitAnimationKind::Attack)) }, 4u8);
    proof {
        assert(db.clip_views() =~= clips1);
        assert(offsets@.drop_last() =~= seq![(Some(Direction::NE), 0u8)]);
        assert(db.start_frames() =~= frames1);
    }
    // unit_attack
    let markers: Vec<(usize, AnimationMarker)> = vec![(2usize, AnimationMarker::HitFrame), (4usize, AnimationMarker::Complete)];
    let offsets: Vec<(Option<Direction>, u8)> = vec![(Some(Direction::NE), 16u8), (Some(Direction::SE), 20u8)];
    proof {
        assert(markers@ =~= seq![(2usize, AnimationMarker::HitFrame), (4usize, AnimationMarker::Complete)]);
        assert(offsets@ =~= seq![(Some(Direction::NE), 16u8), (Some(Direction::SE), 20u8)]);
    }
    let r = db.register_animation(
        AnimationKey { animated_sprite_id: AnimatedSpriteId(TT_UNIT_ANIMATED_SPRITE_ID), animation_id: UnitAnimationKind::Attack.registered_id() },
        UnitAnimationDataInner { frames_per_second: ATTACK_FRAMES_PER_SECOND, frame_count: 4, animation_offset_markers: markers },
        &offsets,
    );
    if r.is_err() {
        return Err(AnimationDbError::DataAlreadyExists);
    }
    let ghost clips2 = clips1.insert(anim_key(TT_UNIT_ANIMATED_SPRITE_ID, reg_id(UnitAnimationKind::Attack)), (ATTACK_FRAMES_PER_SECOND, 4usize, seq![(2usize, AnimationMarker::HitFrame), (4usize, AnimationMarker::Complete)]));
    let ghost frames2 = frames1.insert(AnimationStartIndexKey { facing_direction: Some(Direction::NE), key: anim_key(TT_UNIT_ANIMATED_SPRITE_ID, reg_id(UnitAnimationKind::Attack)) }, 16u8).insert(AnimationStartIndexKey { facing_direction: Some(Direction::SE), key: anim_key(TT_UNIT_ANIMATED_SPRITE_ID, reg_id(UnitAnimationKind::Attack)) }, 20u8);
    proof {
        assert(db.clip_views() =~= clips2);
        assert(offsets@.drop_last() =~= seq![(Some(Direction::NE), 16u8)]);
        assert(db.start_frames() =~= frames2);
    }
    // unit_idle_walk
    let markers: Vec<(usize, AnimationMarker)> = Vec::new();
    let offsets: Vec<(Option<Direction>, u8)> = vec![(Some(Direction::NE), 0u8), (Some(Direction::SE), 8u8)];
    proof {
        assert(markers@ =~= seq![]);
        assert(offsets@ =~= seq![(Some(Direction::NE), 0u8), (Some(Direction::SE), 8u8)]);
    }
    let r = db.register_animation(
        AnimationKey { animated_sprite_id: AnimatedSpriteId(TT_UNIT_ANIMATED_SPRITE_ID), animation_id: UnitAnimationKind::IdleWalk.registered_id() },
        UnitAnimationDataInner { frames_per_second: 8, frame_count: 8, animation_offset_markers: markers },
        &offsets,
    );
    if r.is_err() {
        return Err(AnimationDbError::DataAlreadyExists);
    }
    let ghost clips3 = clips2.insert(anim_key(TT_UNIT_ANIMATED_SPRITE_ID, reg_id(UnitAnimationKind::IdleWalk)), (8u32, 8usize, seq![]));
    let ghost frames3 = frames2.insert(AnimationStartIndexKey { facing_direction: Some(Direction::NE), key: anim_key(TT_UNIT_ANIMATED_SPRITE_ID, reg_id(UnitAnimationKind::IdleWalk)) }, 0u8).insert(AnimationStartIndexKey { facing_direction: Some(Direction::SE), key: anim_key(TT_UNIT_ANIMATED_SPRITE_ID, reg_id(UnitAnimationKind::IdleWalk)) }, 8u8);
    proof {
        assert(db.clip_views() =~= clips3);
        assert(offsets@.drop_last() =~= seq![(Some(Direction::NE), 0u8)]);
        assert(db.start_frames() =~= frames3);
    }
    // unit_take_damage
    let markers: Vec<(usize, AnimationMarker)> = Vec::new();
    let offsets: Vec<(Option<Direction>, u8)> = vec![(Some(Direction::NE), 40u8), (Some(Direction::SE), 44u8)];
    proof {
        assert(markers@ =~= seq![]);
        assert(offsets@ =~= seq![(Some(Direction::NE), 40u8), (Some(Direction::SE), 44u8)]);
    }
    let r = db.register_animation(
        AnimationKey { animated_sprite_id: AnimatedSpriteId(TT_UNIT_ANIMATED_SPRITE_ID), animation_id: UnitAnimationKind::TakeDamage.registered_id() },
        UnitAnimationDataInner { frames_per_second: 4, frame_count: 1, animation_offset_markers: markers },
        &offsets,
    );
    if r.is_err() {
        return Err(AnimationDbError::DataAlreadyExists);
    }
    let ghost clips4 = clips3.insert(anim_key(TT_UNIT_ANIMATED_SPRITE_ID, reg_id(UnitAnimationKind::TakeDamage)), (4u32, 1usize, seq![]));
    let ghost frames4 = frames3.insert(AnimationStartIndexKey { facing_direction: Some(Direction::NE), key: anim_key(TT_UNIT_ANIMATED_SPRITE_ID, reg_id(UnitAnimationKind::TakeDamage)) }, 40u8).insert(AnimationStartIndexKey { facing_direction: Some(Direction::SE), key: anim_key(TT_UNIT_ANIMATED_SPRITE_ID, reg_id(UnitAnimationKind::TakeDamage)) }, 44u8);
    proof {
        assert(db.clip_views() =~= clips4);
        assert(offsets@.drop_last() =~= seq![(Some(Direction::NE), 40u8)]);
        assert(db.start_frames() =~= frames4);
    }
    // unit_idle_hurt
    let markers: Vec<(usize, AnimationMarker)> = Vec::new();
    let offsets: Vec<(Option<Direction>, u8)> = vec![(Some(Direction::NE), 48u8), (Some(Direction::SE), 52u8)];
    proof {
        assert(markers@ =~= seq![]);
        assert(offsets@ =~= seq![(Some(Direction::NE), 48u8), (Some(Direction::SE), 52u8)]);
    }
    let r = db.register_animation(
        AnimationKey { animated_sprite_id: AnimatedSpriteId(TT_UNIT_ANIMATED_SPRITE_ID), animation_id: UnitAnimationKind::IdleHurt.registered_id() },
        UnitAnimationDataInner { frames_per_second: 1, frame_count: 1, animation_offset_markers: markers },
        &offsets,
    );
    if r.is_err() {
        return Err(AnimationDbError::DataAlreadyExists);
    }
    let ghost clips5 = clips4.insert(anim_key(TT_UNIT_ANIMATED_SPRITE_ID, reg_id(UnitAnimationKind::IdleHurt)), (1u32, 1usize, seq![]));
    let ghost frames5 = frames4.insert(AnimationStartIndexKey { facing_direction: Some(Direction::NE), key: anim_key(TT_UNIT_ANIMATED_SPRITE_ID, reg_id(UnitAnimationKind::IdleHurt)) }, 48u8).insert(AnimationStartIndexKey { facing_direction: Some(Direction::SE), key: anim_key(TT_UNIT_ANIMATED_SPRITE_ID, reg_id(UnitAnimationKind::IdleHurt)) }, 52u8);
    proof {
        assert(db.clip_views() =~= clips5);
        assert(offsets@.drop_last() =~= seq![(Some(Direction::NE), 48u8)]);
        assert(db.start_frames() =~= frames5);
    }
    // unit_idle_dead
    let markers: Vec<(usize, AnimationMarker)> = Vec::new();
    let offsets: Vec<(Option<Direction>, u8)> = vec![(Some(Direction::NE), 56u8), (Some(Direction::SE), 60u8)];
    proof {
        assert(markers@ =~= seq![]);
        assert(offsets@ =~= seq![(Some(Direction::NE), 56u8), (Some(Direction::SE), 60u8)]);
    }
    let r = db.register_animation(
        AnimationKey { animated_sprite_id: AnimatedSpriteId(TT_UNIT_ANIMATED_SPRITE_ID), animation_id: UnitAnimationKind::IdleDead.registered_id() },
        UnitAnimationDataInner { frames_per_second: 1, frame_count: 1, animation_offset_markers: markers },
        &offsets,
    );
    if r.is_err() {
        return Err(AnimationDbError::DataAlreadyExists);
    }
    let ghost clips6 = clips5.insert(anim_key(TT_UNIT_ANIMATED_SPRITE_ID, reg_id(UnitAnimationKind::IdleDead)), (1u32, 1usize, seq![]));
    let ghost frames6 = frames5.insert(AnimationStartIndexKey { facing_direction: Some(Direction::NE), key: anim_key(TT_UNIT_ANIMATED_SPRITE_ID, reg_id(UnitAnimationKind::IdleDead)) }, 56u8).insert(AnimationStartIndexKey { facing_direction: Some(Direction::SE), key: anim_key(TT_UNIT_ANIMATED_SPRITE_ID, reg_id(UnitAnimationKind::IdleDead)) }, 60u8);
    proof {
        assert(db.clip_views() =~= clips6);
        assert(offsets@.drop_last() =~= seq![(Some(Direction::NE), 56u8)]);
        assert(db.start_frames() =~= frames6);
    }
    // unit_charge
    let markers: Vec<(usize, AnimationMarker)> = vec![(1usize, AnimationMarker::Complete)];
    let offsets: Vec<(Option<Direction>, u8)> = vec![(Some(Direction::NE), 36u8), (Some(Direction::SE), 32u8)];
    proof {
        assert(markers@ =~= seq![(1usize, AnimationMarker::Complete)]);
        assert(offsets@ =~= seq![(Some(Direction::NE), 36u8), (Some(Direction::SE), 32u8)]);
    }
    let r = db.register_animation(
        AnimationKey { animated_sprite_id: AnimatedSpriteId(TT_UNIT_ANIMATED_SPRITE_ID), animation_id: UnitAnimationKind::Charge.registered_id() },
        UnitAnimationDataInner { frames_per_second: 1, frame_count: 1, animation_offset_markers: markers },
        &offsets,
    );
    if r.is_err() {
        return Err(AnimationDbError::DataAlreadyExists);
    }
    let ghost clips7 = clips6.insert(anim_key(TT_UNIT_ANIMATED_SPRITE_ID, reg_id(UnitAnimationKind::Charge)), (1u32, 1usize, seq![(1usize, AnimationMarker::Complete)]));
    let ghost frames7 = frames6.insert(AnimationStartIndexKey { facing_direction: Some(Direction::NE), key: anim_key(TT_UNIT_ANIMATED_SPRITE_ID, reg_id(UnitAnimationKind::Charge)) }, 36u8).insert(AnimationStartIndexKey { facing_direction: Some(Direction::SE), key: anim_key(TT_UNIT_ANIMATED_SPRITE_ID, reg_id(UnitAnimationKind::Charge)) }, 32u8);
    proof {
        assert(db.clip_views() =~= clips7);
        assert(offsets@.drop_last() =~= seq![(Some(Direction::NE), 36u8)]);
        assert(db.start_frames() =~= frames7);
    }
    // unit_release
    let markers: Vec<(usize, AnimationMarker)> = vec![(1usize, AnimationMarker::Complete)];
    let offsets: Vec<(Option<Direction>, u8)> = vec![(Some(Direction::NE), 24u8), (Some(Direction::SE), 28u8)];
    proof {
        assert(markers@ =~= seq![(1usize, AnimationMarker::Complete)]);
        assert(offsets@ =~= seq![(Some(Direction::NE), 24u8), (Some(Direction::SE), 28u8)]);
    }
    let r = db.register_animation(
        AnimationKey { animated_sprite_id: AnimatedSpriteId(TT_UNIT_ANIMATED_SPRITE_ID), animation_id: UnitAnimationKind::Release.registered_id() },
        UnitAnimationDataInner { frames_per_second: 1, frame_count: 1, animation_offset_markers: markers },
        &offsets,
    );
    if r.is_err() {
        return Err(AnimationDbError::DataAlreadyExists);
    }
    let ghost clips8 = clips7.insert(anim_key(TT_UNIT_ANIMATED_SPRITE_ID, reg_id(UnitAnimationKind::Release)), (1u32, 1usize, seq![(1usize, AnimationMarker::Complete)]));
    let ghost frames8 = frames7.insert(AnimationStartIndexKey { facing_direction: Some(Direction::NE), key: anim_key(TT_UNIT_ANIMATED_SPRITE_ID, reg_id(UnitAnimationKind::Release)) }, 24u8).insert(AnimationStartIndexKey { facing_direction: Some(Direction::SE), key: anim_key(TT_UNIT_ANIMATED_SPRITE_ID, reg_id(UnitAnimationKind::Release)) }, 28u8);
    proof {
        assert(db.clip_views() =~= clips8);
        assert(offsets@.drop_last() =~= seq![(Some(Direction::NE), 24u8)]);
        assert(db.start_frames() =~= frames8);
    }
    let follow = db.register_follower(
        FollowerAnimationKey {
            follower_id: AnimatedSpriteId(TT_WEAPON_ANIMATED_SPRITE_ID),
            followee_key: AnimationKey {
                animated_sprite_id: AnimatedSpriteId(TT_UNIT_ANIMATED_SPRITE_ID),
                animation_id: UnitAnimationKind::Attack.registered_id(),
            },
        },
        AnimationKey {
            animated_sprite_id: AnimatedSpriteId(TT_WEAPON_ANIMATED_SPRITE_ID),
            animation_id: UnitAnimationKind::Attack.registered_id(),
        },
    );
    if follow.is_err() {
        return Err(AnimationDbError::FollowerAlreadyExists);
    }
    assert(db.followers() =~= built_in_followers());
    // flame_explosion
    let markers: Vec<(usize, AnimationMarker)> = vec![(9usize, AnimationMarker::HitFrame), (18usize, AnimationMarker::Complete)];
    let offsets: Vec<(Option<Direction>, u8)> = vec![(None, 0u8)];
    proof {
        assert(markers@ =~= seq![(9usize, AnimationMarker::HitFrame), (18usize, AnimationMarker::Complete)]);
        assert(offsets@ =~= seq![(None, 0u8)]);
    }
    let r = db.register_animation(
        AnimationKey { animated_sprite_id: AnimatedSpriteId(FLAME_VFX_ANIMATED_SPRITE_ID), animation_id: vfx_registered_id() },
        UnitAnimationDataInner { frames_per_second: 9, frame_count: 18, animation_offset_markers: markers },
        &offsets,
    );
    if r.is_err() {
        return Err(AnimationDbError::DataAlreadyExists);
    }
    let ghost clips9 = clips8.insert(anim_key(FLAME_VFX_ANIMATED_SPRITE_ID, vfx_id()), (9u32, 18usize, seq![(9usize, AnimationMarker::HitFrame), (18usize, AnimationMarker::Complete)]));
    let ghost frames9 = frames8.insert(AnimationStartIndexKey { facing_direction: None, key: anim_key(FLAME_VFX_ANIMATED_SPRITE_ID, vfx_id()) }, 0u8);
    proof {
        assert(db.clip_views() =~= clips9);
        assert(offsets@.drop_last() =~= seq![]);
        assert(db.start_frames() =~= frames9);
    }
    // poison_effect
    let markers: Vec<(usize, AnimationMarker)> = vec![(10usize, AnimationMarker::HitFrame), (16usize, AnimationMarker::Complete)];
    let offsets: Vec<(Option<Direction>, u8)> = vec![(None, 0u8)];
    proof {
        assert(markers@ =~= seq![(10usize, AnimationMarker::HitFrame), (16usize, AnimationMarker::Complete)]);
        assert(offsets@ =~= seq![(None, 0u8)]);
    }
    let r = db.register_animation(
        AnimationKey { animated_sprite_id: AnimatedSpriteId(POISON_VFX_ANIMATED_SPRITE_ID), animation_id: vfx_registered_id() },
        UnitAnimationDataInner { frames_per_second: 16, frame_count: 16, animation_offset_markers: markers },
        &offsets,
    );
    if r.is_err() {
        return Err(AnimationDbError::DataAlreadyExists);
    }
    let ghost clips10 = clips9.insert(anim_key(POISON_VFX_ANIMATED_SPRITE_ID, vfx_id()), (16u32, 16usize, seq![(10usize, AnimationMarker::HitFrame), (16usize, AnimationMarker::Complete)]));
    let ghost frames10 = frames9.insert(AnimationStartIndexKey { facing_direction: None, key: anim_key(POISON_VFX_ANIMATED_SPRITE_ID, vfx_id()) }, 0u8);
    proof {
        assert(db.clip_views() =~= clips10);
        assert(offsets@.drop_last() =~= seq![]);
        assert(db.start_frames() =~= frames10);
    }
    // demo_unit_idle
    let markers: Vec<(usize, AnimationMarker)> = Vec::new();
    let offsets: Vec<(Option<Direction>, u8)> = vec![(None, 0u8), (Some(Direction::SE), 0u8)];
    proof {
        assert(markers@ =~= seq![]);
        assert(offsets@ =~= seq![(None, 0u8), (Some(Direction::SE), 0u8)]);
    }
    let r = db.register_animation(
        AnimationKey { animated_sprite_id: AnimatedSpriteId(UNIT_DEMO_SPRITE_ID), animation_id: UnitAnimationKind::IdleWalk.registered_id() },
        UnitAnimationDataInner { frames_per_second: 1, frame_count: 1, animation_offset_markers: markers },
        &offsets,
    );
    if r.is_err() {
        return Err(AnimationDbError::DataAlreadyExists);
    }
    let ghost clips11 = clips10.insert(anim_key(UNIT_DEMO_SPRITE_ID, reg_id(UnitAnimationKind::IdleWalk)), (1u32, 1usize, seq![]));
    let ghost frames11 = frames10.insert(AnimationStartIndexKey { facing_direction: None, key: anim_key(UNIT_DEMO_SPRITE_ID, reg_id(UnitAnimationKind::IdleWalk)) }, 0u8).insert(AnimationStartIndexKey { facing_direction: Some(Direction::SE), key: anim_key(UNIT_DEMO_SPRITE_ID, reg_id(UnitAnimationKind::IdleWalk)) }, 0u8);
    proof {
        assert(db.clip_views() =~= clips11);
        assert(offsets@.drop_last() =~= seq![(None, 0u8)]);
        assert(db.start_frames() =~= frames11);
    }
    proof {
        assert(clips11 =~= built_in_clips());
        assert(frames11 =~= built_in_start_frames());
    }
    Ok(db)
}

/// How a sprite sheet is cut into frames: frame width and height in
/// pixels, then columns and rows.
pub open spec fn atlas_grid_spec(sprite: u32) -> Option<(u32, u32, u32, u32)> {
    if sprite == TT_UNIT_ANIMATED_SPRITE_ID {
        Some((32, 32, 4, 16))
    } else if sprite == TT_WEAPON_ANIMATED_SPRITE_ID {
        Some((48, 48, 4, 2))
    } else if sprite == BATTLE_TACTICS_TILESHEET {
        Some((32, 32, 16, 13))
    } else if sprite == FLAME_VFX_ANIMATED_SPRITE_ID {
        Some((48, 48, 18, 1))
    } else if sprite == POISON_VFX_ANIMATED_SPRITE_ID {
        Some((32, 32, 16, 1))
    } else if sprite == UNIT_DEMO_SPRITE_ID {
        Some((32, 32, 1, 1))
    } else {
        None
    }
}

/// The frame layout of a registered sprite sheet.
pub fn atlas_grid(sprite: AnimatedSpriteId) -> (r: Option<(u32, u32, u32, u32)>)
    ensures
        r == atlas_grid_spec(sprite.0),
{
    let s = sprite.0;
    if s == TT_UNIT_ANIMATED_SPRITE_ID {
        Some((32, 32, 4, 16))
    } else if s == TT_WEAPON_ANIMATED_SPRITE_ID {
        Some((48, 48, 4, 2))
    } else if s == BATTLE_TACTICS_TILESHEET {
        Some((32, 32, 16, 13))
    } else if s == FLAME_VFX_ANIMATED_SPRITE_ID {
        Some((48, 48, 18, 1))
    } else if s == POISON_VFX_ANIMATED_SPRITE_ID {
        Some((32, 32, 16, 1))
    } else if s == UNIT_DEMO_SPRITE_ID {
        Some((32, 32, 1, 1))
    } else {
        None
    }
}

/// The registered sprite sheets, each with its frame layout.
pub fn animated_sprite_atlas_grids() -> (r: Vec<(AnimatedSpriteId, (u32, u32, u32, u32))>)
    ensures
        r@.len() == 6,
        forall|i: int| 0 <= i < 6 ==> atlas_grid_spec((#[trigger] r@[i]).0.0) == Some(r@[i].1),
        r@.map_values(|e: (AnimatedSpriteId, (u32, u32, u32, u32))| e.0.0) =~= seq![
            TT_UNIT_ANIMATED_SPRITE_ID,
            TT_WEAPON_ANIMATED_SPRITE_ID,
            BATTLE_TACTICS_TILESHEET,
            FLAME_VFX_ANIMATED_SPRITE_ID,
            POISON_VFX_ANIMATED_SPRITE_ID,
            UNIT_DEMO_SPRITE_ID,
        ],
{
    let ids = vec![
        TT_UNIT_ANIMATED_SPRITE_ID,
        TT_WEAPON_ANIMATED_SPRITE_ID,
        BATTLE_TACTICS_TILESHEET,
        FLAME_VFX_ANIMATED_SPRITE_ID,
        POISON_VFX_ANIMATED_SPRITE_ID,
        UNIT_DEMO_SPRITE_ID,
    ];
    let mut r: Vec<(AnimatedSpriteId, (u32, u32, u32, u32))> = Vec::new();
    let mut i: usize = 0;
    while i < ids.len()
        invariant
            i <= ids@.len(),
            ids@ == seq![
                TT_UNIT_ANIMATED_SPRITE_ID,
                TT_WEAPON_ANIMATED_SPRITE_ID,
                BATTLE_TACTICS_TILESHEET,
                FLAME_VFX_ANIMATED_SPRITE_ID,
                POISON_VFX_ANIMATED_SPRITE_ID,
                UNIT_DEMO_SPRITE_ID,
            ],
            r@.len() == i,
            forall|k: int| 0 <= k < i ==> (#[trigger] r@[k]).0.0 == ids@[k] && atlas_grid_spec(r@[k].0.0) == Some(r@[k].1),
        decreases ids@.len() - i,
    {
        let id = AnimatedSpriteId(ids[i]);
        let grid = atlas_grid(id).unwrap();
        r.push((id, grid));
        i = i + 1;
    }
    r
}

} // verus!
