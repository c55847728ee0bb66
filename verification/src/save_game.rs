//! Save files of characters: the key each is stored under, the versions of
//! their contents, and the list of known files.
use vstd::prelude::*;
use crate::unit::jobs::UnitJob;

verus! {

/// The colour a save file is shown in.
#[derive(Clone, Copy, PartialEq, Eq, Structural, Debug, Hash)]
pub enum SaveFileColor {
    Blue,
    Green,
    Red,
}

impl SaveFileColor {
    pub open spec fn name_spec(self) -> Seq<char> {
        match self {
            SaveFileColor::Blue => "Blue"@,
            SaveFileColor::Green => "Green"@,
            SaveFileColor::Red => "Red"@,
        }
    }

    pub fn name(&self) -> (s: String)
        ensures
            s@ == self.name_spec(),
    {
        match self {
            SaveFileColor::Blue => String::from_str("Blue"),
            SaveFileColor::Green => String::from_str("Green"),
            SaveFileColor::Red => String::from_str("Red"),
        }
    }
}

/// What identifies a save file: a unique number, the character's name and
/// its colour.
#[derive(Clone, Debug)]
pub struct SaveFileKey {
    pub uid: u32,
    pub name: String,
    pub color: SaveFileColor,
}

impl SaveFileKey {
    /// A copy of the key.
    pub fn duplicate(&self) -> (r: SaveFileKey)
        ensures
            r == *self,
    {
        SaveFileKey { uid: self.uid, name: self.name.clone(), color: self.color }
    }
}

/// Two keys name the same save file.
pub open spec fn same_key(a: SaveFileKey, b: SaveFileKey) -> bool {
    a.uid == b.uid && a.name@ == b.name@ && a.color == b.color
}

/// Compares two keys field by field.
pub fn keys_equal(a: &SaveFileKey, b: &SaveFileKey) -> (r: bool)
    ensures
        r == same_key(*a, *b),
{
    a.uid == b.uid && a.color == b.color && a.name == b.name
}

/// The decimal digits of `n`, most significant first, without leading zeros
/// (zero is written as one digit).
pub open spec fn decimal(n: nat) -> Seq<char>
    decreases n,
{
    let digit = (('0' as int) + (n % 10) as int) as char;
    if n < 10 {
        seq![digit]
    } else {
        decimal(n / 10).push(digit)
    }
}

/// The one-character text of the digit `d`.
fn digit_str(d: u32) -> (s: &'static str)
    requires
        d < 10,
    ensures
        s@ == seq![(('0' as int) + d as int) as char],
{
    proof {
        reveal_strlit("0");
        reveal_strlit("1");
        reveal_strlit("2");
        reveal_strlit("3");
        reveal_strlit("4");
        reveal_strlit("5");
        reveal_strlit("6");
        reveal_strlit("7");
        reveal_strlit("8");
        reveal_strlit("9");
    }
    if d == 0 {
        "0"
    } else if d == 1 {
        "1"
    } else if d == 2 {
        "2"
    } else if d == 3 {
        "3"
    } else if d == 4 {
        "4"
    } else if d == 5 {
        "5"
    } else if d == 6 {
        "6"
    } else if d == 7 {
        "7"
    } else if d == 8 {
        "8"
    } else {
        "9"
    }
}

/// `n` written in decimal: its digits, most significant first, with no
/// sign and no leading zeros.
pub(crate) fn decimal_string(n: u32) -> (s: String)
    ensures
        s@ == decimal(n as nat),
    decreases n,
{
    let digit = digit_str(n % 10);
    if n < 10 {
        String::from_str(digit)
    } else {
        let head = decimal_string(n / 10);
        head.concat(digit)
    }
}

/// The text "unit-save-".
pub open spec fn unit_save_prefix() -> Seq<char> {
    "unit-save-"@
}

impl SaveFileKey {
    /// The key the save file is stored under: "unit-save-" and the uid in
    /// decimal.
    pub fn pkv_key(&self) -> (k: String)
        ensures
            k@ == unit_save_prefix() + decimal(self.uid as nat),
    {
        let digits = decimal_string(self.uid);
        let prefix = String::from_str("unit-save-");
        prefix.concat(digits.as_str())
    }
}

/// The first version of a character's save.
#[derive(Clone, Debug)]
pub struct UnitSaveV1 {
    pub save_file_key: SaveFileKey,
    pub job: UnitJob,
}

impl UnitSaveV1 {
    /// A copy of the save.
    pub fn duplicate(&self) -> (r: UnitSaveV1)
        ensures
            r == *self,
    {
        UnitSaveV1 { save_file_key: self.save_file_key.duplicate(), job: self.job }
    }
}

/// A character's save, in whichever version it was written.
#[derive(Clone, Debug)]
pub enum UnitSave {
    V1(UnitSaveV1),
}

impl UnitSave {
    /// Wraps the latest version.
    pub fn from_v1(value: UnitSaveV1) -> (s: UnitSave)
        ensures
            s == UnitSave::V1(value),
    {
        UnitSave::V1(value)
    }
}

/// Why a save could not be brought to the latest version.
#[derive(Clone, Copy, PartialEq, Eq, Structural, Debug)]
pub enum SaveUpgradeError {
    UnknownVersion,
}

/// Brings a save to the latest version; the first version is the latest.
pub fn upgrade_save_file_to_latest(save_file: UnitSave) -> (r: Result<UnitSaveV1, SaveUpgradeError>)
    ensures
        match save_file {
            UnitSave::V1(v1) => r == Ok::<UnitSaveV1, SaveUpgradeError>(v1),
        },
{
    match save_file {
        UnitSave::V1(v1) => Ok(v1),
    }
}

/// The known save files, and the last uid handed out.
#[derive(Clone, Debug)]
pub struct SaveFiles {
    pub save_file_keys: Vec<SaveFileKey>,
    pub cursor: u32,
}

impl SaveFiles {
    /// No files, and no uid handed out yet.
    pub fn new() -> (s: SaveFiles)
        ensures
            s.save_file_keys@.len() == 0,
            s.cursor == 0,
    {
        SaveFiles { save_file_keys: Vec::new(), cursor: 0 }
    }
}

} // verus!
