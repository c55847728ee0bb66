//! The layout of the tinytactics sprite sheets: frames of 32 by 32 pixels,
//! four to a row, and the names the source images are stored under.
use vstd::prelude::*;
use crate::animation::{AnimationType, Direction};

verus! {

pub const FRAME_SIZE_X: u32 = 32;

pub const FRAME_SIZE_Y: u32 = 32;

pub const SPRITESHEET_GRID_X: u32 = 4;

pub const SPRITESHEET_GRID_Y: u32 = 32;

/// The frame at column `x`, row `y` of a sheet, counted from 0 along its
/// rows.
pub fn spritesheet_coords_to_index(coord: (u32, u32)) -> (i: u32)
    requires
        coord.1 * SPRITESHEET_GRID_X + coord.0 <= u32::MAX,
    ensures
        i == coord.1 * SPRITESHEET_GRID_X + coord.0,
{
    let (x, y) = coord;
    y * SPRITESHEET_GRID_X + x
}

#[derive(Clone, Copy, PartialEq, Eq, Structural, Debug, Hash)]
pub enum Character {
    Fighter,
    Mage,
    Cleric,
}

#[derive(Clone, Copy, PartialEq, Eq, Structural, Debug, Hash)]
pub enum Action {
    Walking,
    Attack,
    Release,
    Charging,
    Damage,
    Weak,
    Dead,
}

impl Character {
    pub open spec fn name_spec(self) -> Seq<char> {
        match self {
            Character::Fighter => "fighter"@,
            Character::Mage => "mage"@,
            Character::Cleric => "cleric"@,
        }
    }

    pub fn name(&self) -> (s: &'static str)
        ensures
            s@ == self.name_spec(),
    {
        match self {
            Character::Fighter => "fighter",
            Character::Mage => "mage",
            Character::Cleric => "cleric",
        }
    }
}

impl Action {
    pub open spec fn name_spec(self) -> Seq<char> {
        match self {
            Action::Attack => "attack"@,
            Action::Charging => "charging"@,
            Action::Damage => "damage"@,
            Action::Dead => "dead"@,
            Action::Release => "release"@,
            Action::Walking => "walking"@,
            Action::Weak => "weak"@,
        }
    }

    pub fn name(&self) -> (s: &'static str)
        ensures
            s@ == self.name_spec(),
    {
        match self {
            Action::Attack => "attack",
            Action::Charging => "charging",
            Action::Damage => "damage",
            Action::Dead => "dead",
            Action::Release => "release",
            Action::Walking => "walking",
            Action::Weak => "weak",
        }
    }
}

/// The frames one animation takes in a sheet.
#[derive(Clone, Debug)]
pub struct AnimationData {
    pub action: Action,
    pub direction: Direction,
    pub frame_count: u32,
    pub frame_indices: Vec<(u32, u32)>,
}

/// The frames of an image of `width` by `height` pixels placed in a sheet
/// below `current_height` pixels of earlier images: its rows of frames, in
/// reading order.
pub open spec fn frames_spec(y_offset: u32, columns: u32, rows: u32) -> Seq<(u32, u32)> {
    Seq::new((columns * rows) as nat, |n: int| ((n % columns as int) as u32, (y_offset + n / columns as int) as u32))
}

/// Lays out an animation image in the sheet: its frames, row by row.
pub fn calculate_animation_data(action: Action, direction: Direction, current_height: u32, width: u32, height: u32) -> (d: AnimationData)
    requires
        current_height / FRAME_SIZE_Y + height / FRAME_SIZE_Y <= u32::MAX,
        (width / FRAME_SIZE_X) * (height / FRAME_SIZE_Y) <= u32::MAX,
    ensures
        d.action == action,
        d.direction == direction,
        d.frame_count == (width / FRAME_SIZE_X) * (height / FRAME_SIZE_Y),
        d.frame_indices@ == frames_spec(current_height / FRAME_SIZE_Y, width / FRAME_SIZE_X, height / FRAME_SIZE_Y),
{
    let y_offset = current_height / FRAME_SIZE_Y;
    let rows = height / FRAME_SIZE_Y;
    let columns = width / FRAME_SIZE_X;
    let mut frame_indices: Vec<(u32, u32)> = Vec::new();
    let mut y: u32 = 0;
    while y < rows
        invariant
            y <= rows,
            y_offset + rows <= u32::MAX,
            columns * rows <= u32::MAX,
            frame_indices@ == frames_spec(y_offset, columns, rows).take((columns * y) as int),
        decreases rows - y,
    {
        let mut x: u32 = 0;
        while x < columns
            invariant
                x <= columns,
                y < rows,
                y_offset + rows <= u32::MAX,
                columns * rows <= u32::MAX,
                frame_indices@ == frames_spec(y_offset, columns, rows).take((columns * y + x) as int),
            decreases columns - x,
        {
            proof {
                let n = columns * y + x;
                assert(n < columns * rows && n % columns as int == x && n / columns as int == y) by (nonlinear_arith)
                    requires
                        n == columns * y + x,
                        x < columns,
                        y < rows,
                ;
                assert(frames_spec(y_offset, columns, rows).take(n + 1) =~= frames_spec(y_offset, columns, rows).take(n as int).push((x, (y_offset + y) as u32)));
            }
            frame_indices.push((x, y_offset + y));
            x = x + 1;
        }
        proof {
            assert(columns * y + columns == columns * (y + 1)) by (nonlinear_arith);
        }
        y = y + 1;
    }
    proof {
        assert(frames_spec(y_offset, columns, rows).take((columns * rows) as int) =~= frames_spec(y_offset, columns, rows));
    }
    AnimationData { action, direction, frame_count: columns * rows, frame_indices }
}

#[derive(Clone, Copy, PartialEq, Eq, Structural, Debug, Hash)]
pub enum WeaponType {
    Hatchet,
    IronAxe,
    IronSword,
    Scepter,
    WoodenStaff,
    WoodenSword,
}

impl WeaponType {
    /// Every weapon, in declaration order.
    pub fn variants() -> (v: Vec<WeaponType>)
        ensures
            v@ == seq![
                WeaponType::Hatchet,
                WeaponType::IronAxe,
                WeaponType::IronSword,
                WeaponType::Scepter,
                WeaponType::WoodenStaff,
                WeaponType::WoodenSword,
            ],
    {
        let v = vec![
            WeaponType::Hatchet,
            WeaponType::IronAxe,
            WeaponType::IronSword,
            WeaponType::Scepter,
            WeaponType::WoodenStaff,
            WeaponType::WoodenSword,
        ];
        assert(v@ =~= seq![
            WeaponType::Hatchet,
            WeaponType::IronAxe,
            WeaponType::IronSword,
            WeaponType::Scepter,
            WeaponType::WoodenStaff,
            WeaponType::WoodenSword,
        ]);
        v
    }

    pub open spec fn name_spec(self) -> Seq<char> {
        match self {
            WeaponType::Hatchet => "Hatchet"@,
            WeaponType::IronAxe => "IronAxe"@,
            WeaponType::IronSword => "IronSword"@,
            WeaponType::Scepter => "Scepter"@,
            WeaponType::WoodenStaff => "WoodenStaff"@,
            WeaponType::WoodenSword => "WoodenSword"@,
        }
    }

    pub fn name(&self) -> (s: &'static str)
        ensures
            s@ == self.name_spec(),
    {
        match self {
            WeaponType::Hatchet => "Hatchet",
            WeaponType::IronAxe => "IronAxe",
            WeaponType::IronSword => "IronSword",
            WeaponType::Scepter => "Scepter",
            WeaponType::WoodenStaff => "WoodenStaff",
            WeaponType::WoodenSword => "WoodenSword",
        }
    }
}

pub open spec fn direction_name(d: Direction) -> Seq<char> {
    match d {
        Direction::SE => "SE"@,
        Direction::NE => "NE"@,
        Direction::NW => "NW"@,
        Direction::SW => "SW"@,
    }
}

fn direction_str(d: Direction) -> (s: &'static str)
    ensures
        s@ == direction_name(d),
{
    match d {
        Direction::SE => "SE",
        Direction::NE => "NE",
        Direction::NW => "NW",
        Direction::SW => "SW",
    }
}

/// Where the source images are kept.
pub const FILE_PREFIX: &'static str = "assets/unit_assets/tinytactics_battlekiti_v1_0/";

pub const UNIT_DATE_MADE: &'static str = "20240427";

pub const WEAPON_DATE_MADE: &'static str = "20240429";

/// The source image of a character's animation in one direction.
pub fn sprite_filename(character: Character, action: Action, dir: Direction) -> (s: String)
    ensures
        s@ == "assets/unit_assets/tinytactics_battlekiti_v1_0/"@ + "20240427"@ + character.name_spec() + "-"@
            + action.name_spec() + direction_name(dir) + ".png"@,
{
    let s = String::from_str("assets/unit_assets/tinytactics_battlekiti_v1_0/");
    let s = s.concat("20240427");
    let s = s.concat(character.name());
    let s = s.concat("-");
    let s = s.concat(action.name());
    let s = s.concat(direction_str(dir));
    s.concat(".png")
}

/// The animation data file of a character's sheet.
pub fn spritesheet_data_path(character: Character) -> (s: String)
    ensures
        s@ == "unit_assets/spritesheets/"@ + character.name_spec() + "_animation_data.json"@,
{
    String::from_str("unit_assets/spritesheets/").concat(character.name()).concat("_animation_data.json")
}

/// A character's sheet.
pub fn spritesheet_path(character: Character) -> (s: String)
    ensures
        s@ == "unit_assets/spritesheets/"@ + character.name_spec() + "_spritesheet.png"@,
{
    String::from_str("unit_assets/spritesheets/").concat(character.name()).concat("_spritesheet.png")
}

/// The source image of a weapon's attack in one direction.
pub fn weapon_attack_sprite_filename(weapon: WeaponType, dir: Direction) -> (s: String)
    ensures
        s@ == "assets/unit_assets/tinytactics_battlekiti_v1_0/"@ + "20240429"@ + "weapons-"@ + weapon.name_spec()
            + "attack"@ + direction_name(dir) + ".png"@,
{
    String::from_str("assets/unit_assets/tinytactics_battlekiti_v1_0/")
        .concat("20240429")
        .concat("weapons-")
        .concat(weapon.name())
        .concat("attack")
        .concat(direction_str(dir))
        .concat(".png")
}

/// A weapon's sheet.
pub fn weapon_spritesheet_path(weapon: WeaponType) -> (s: String)
    ensures
        s@ == "unit_assets/spritesheets/"@ + weapon.name_spec() + "_spritesheet.png"@,
{
    String::from_str("unit_assets/spritesheets/").concat(weapon.name()).concat("_spritesheet.png")
}

impl Action {
    /// The state of a unit an animation shows; only walking is mapped so far.
    pub fn animation_type(&self) -> (t: AnimationType)
        requires
            *self is Walking,
        ensures
            t == AnimationType::Idle,
    {
        AnimationType::Idle
    }
}

/// The animations of a character in the order its sheet stacks them:
/// actions in declaration order, each facing north-east then south-east.
pub open spec fn sheet_order_spec() -> Seq<(Action, Direction)> {
    seq![
        (Action::Walking, Direction::NE), (Action::Walking, Direction::SE),
        (Action::Attack, Direction::NE), (Action::Attack, Direction::SE),
        (Action::Release, Direction::NE), (Action::Release, Direction::SE),
        (Action::Charging, Direction::NE), (Action::Charging, Direction::SE),
        (Action::Damage, Direction::NE), (Action::Damage, Direction::SE),
        (Action::Weak, Direction::NE), (Action::Weak, Direction::SE),
        (Action::Dead, Direction::NE), (Action::Dead, Direction::SE),
    ]
}

pub fn sheet_order() -> (r: Vec<(Action, Direction)>)
    ensures
        r@ == sheet_order_spec(),
{
    let r = vec![
        (Action::Walking, Direction::NE), (Action::Walking, Direction::SE),
        (Action::Attack, Direction::NE), (Action::Attack, Direction::SE),
        (Action::Release, Direction::NE), (Action::Release, Direction::SE),
        (Action::Charging, Direction::NE), (Action::Charging, Direction::SE),
        (Action::Damage, Direction::NE), (Action::Damage, Direction::SE),
        (Action::Weak, Direction::NE), (Action::Weak, Direction::SE),
        (Action::Dead, Direction::NE), (Action::Dead, Direction::SE),
    ];
    assert(r@ =~= sheet_order_spec());
    r
}

/// The sum of the first `n` heights.
pub open spec fn height_prefix(heights: Seq<u32>, n: int) -> int
    decreases n,
{
    if n <= 0 {
        0
    } else {
        height_prefix(heights, n - 1) + heights[n - 1]
    }
}

/// Where each image starts when the images are stacked top to bottom: the
/// sum of the heights above it.
pub fn stacked_offsets(heights: &Vec<u32>) -> (r: Vec<u32>)
    requires
        height_prefix(heights@, heights@.len() as int) <= u32::MAX,
    ensures
        r@.len() == heights@.len(),
        forall|i: int| 0 <= i < r@.len() ==> #[trigger] r@[i] == height_prefix(heights@, i),
{
    let mut r: Vec<u32> = Vec::new();
    let mut total: u32 = 0;
    let mut i: usize = 0;
    while i < heights.len()
        invariant
            i <= heights@.len(),
            r@.len() == i,
            total == height_prefix(heights@, i as int),
            height_prefix(heights@, heights@.len() as int) <= u32::MAX,
            forall|k: int| 0 <= k < i ==> #[trigger] r@[k] == height_prefix(heights@, k),
        decreases heights@.len() - i,
    {
        proof {
            lemma_prefix_monotone(heights@, i + 1, heights@.len() as int);
        }
        r.push(total);
        total = total + heights[i];
        i = i + 1;
    }
    r
}

proof fn lemma_prefix_monotone(heights: Seq<u32>, a: int, b: int)
    requires
        0 <= a <= b <= heights.len(),
    ensures
        height_prefix(heights, a) <= height_prefix(heights, b),
    decreases b - a,
{
    if a < b {
        lemma_prefix_monotone(heights, a, b - 1);
    }
}

/// The widest of the images (zero when there are none).
pub fn widest(widths: &Vec<u32>) -> (w: u32)
    ensures
        forall|i: int| 0 <= i < widths@.len() ==> widths@[i] <= w,
        widths@.len() == 0 ==> w == 0,
        widths@.len() > 0 ==> exists|i: int| 0 <= i < widths@.len() && widths@[i] == w,
{
    let mut w: u32 = 0;
    let mut i: usize = 0;
    while i < widths.len()
        invariant
            i <= widths@.len(),
            forall|k: int| 0 <= k < i ==> widths@[k] <= w,
            i == 0 ==> w == 0,
            i > 0 ==> exists|k: int| 0 <= k < i && widths@[k] == w,
        decreases widths@.len() - i,
    {
        if widths[i] > w {
            w = widths[i];
        }
        i = i + 1;
    }
    w
}

} // verus!
