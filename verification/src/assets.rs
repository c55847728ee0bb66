//! Identifiers and paths of the game's assets, and the rules that pick voice
//! lines for combat sounds.
use vstd::prelude::*;

verus! {

pub const CURSOR32_PATH: &'static str = "utility_assets/cursor.png";

pub const CURSOR_PATH: &'static str = "utility_assets/cursor-16.png";

pub const OVERLAY32_PATH: &'static str = "utility_assets/iso_color.png";

pub const OVERLAY_PATH: &'static str = "utility_assets/iso_color-16.png";

pub const BATTLE_TACTICS_TILESHEET: &'static str = "map_assets/tinytactics-32-map/20240420tinyTacticsTileset00.png";

pub const GRADIENT_PATH: &'static str = "utility_assets/gradient.png";

pub const FONT_BADGE_PATH: &'static str = "font_assets/tinyRPGFontKit01_v1_2/TinyRPG-BadgeFont.ttf";

pub const FONT_FINE_FANTASY_PATH: &'static str = "font_assets/tinyRPGFontKit01_v1_2/TinyRPG-FineFantasyStrategies.ttf";

pub const FONT_PIXELIFY_SANS_REGULAR_PATH: &'static str = "font_assets/pixelify-sans/static/PixelifySans-Regular.ttf";

pub const FONT_PIXELIFY_SANS_BOLD_PATH: &'static str = "font_assets/pixelify-sans/static/PixelifySans-BOLD.ttf";

pub const FONT_PIXELIFY_SANS_MEDIUM_PATH: &'static str = "font_assets/pixelify-sans/static/PixelifySans-Medium.ttf";

pub const FONT_PIXELIFY_SANS_SEMI_BOLD_PATH: &'static str = "font_assets/pixelify-sans/static/PixelifySans-SemiBold.ttf";

/// A sprite image registered with the game.
#[derive(Clone, Copy, PartialEq, Eq, Structural, Debug, Hash)]
pub struct SpriteId(pub u32);

/// The sprite sheets of the tiny tactics art pack still in use.
#[derive(Clone, Copy, PartialEq, Eq, Structural, Debug, Hash)]
pub enum TinyTacticsSprites {
    TtMapSheet,
    Fighter,
    Mage,
    Cleric,
    IronAxe,
    Scepter,
}

impl TinyTacticsSprites {
    pub open spec fn path_spec(self) -> Seq<char> {
        match self {
            TinyTacticsSprites::TtMapSheet => BATTLE_TACTICS_TILESHEET@,
            TinyTacticsSprites::Fighter => "unit_assets/spritesheets/fighter_spritesheet.png"@,
            TinyTacticsSprites::Mage => "unit_assets/spritesheets/mage_spritesheet.png"@,
            TinyTacticsSprites::Cleric => "unit_assets/spritesheets/cleric_spritesheet.png"@,
            TinyTacticsSprites::IronAxe => "unit_assets/spritesheets/IronAxe_spritesheet.png"@,
            TinyTacticsSprites::Scepter => "unit_assets/spritesheets/Scepter_spritesheet.png"@,
        }
    }

    pub open spec fn id_spec(self) -> u32 {
        match self {
            TinyTacticsSprites::TtMapSheet => 1,
            TinyTacticsSprites::Fighter => 2,
            TinyTacticsSprites::Mage => 3,
            TinyTacticsSprites::Cleric => 4,
            TinyTacticsSprites::IronAxe => 12,
            TinyTacticsSprites::Scepter => 13,
        }
    }

    /// Path of the sprite sheet, relative to the assets directory.
    pub fn spritesheet_path(&self) -> (p: &'static str)
        ensures
            p@ == self.path_spec(),
    {
        match self {
            TinyTacticsSprites::TtMapSheet => BATTLE_TACTICS_TILESHEET,
            TinyTacticsSprites::Fighter => "unit_assets/spritesheets/fighter_spritesheet.png",
            TinyTacticsSprites::Mage => "unit_assets/spritesheets/mage_spritesheet.png",
            TinyTacticsSprites::Cleric => "unit_assets/spritesheets/cleric_spritesheet.png",
            TinyTacticsSprites::IronAxe => "unit_assets/spritesheets/IronAxe_spritesheet.png",
            TinyTacticsSprites::Scepter => "unit_assets/spritesheets/Scepter_spritesheet.png",
        }
    }

    /// The sprite id the sheet is registered under.
    pub fn sprite_id(&self) -> (s: SpriteId)
        ensures
            s.0 == self.id_spec(),
    {
        match self {
            TinyTacticsSprites::TtMapSheet => SpriteId(1),
            TinyTacticsSprites::Fighter => SpriteId(2),
            TinyTacticsSprites::Mage => SpriteId(3),
            TinyTacticsSprites::Cleric => SpriteId(4),
            TinyTacticsSprites::IronAxe => SpriteId(12),
            TinyTacticsSprites::Scepter => SpriteId(13),
        }
    }
}

/// The ids of the registered sprites, in registration order.
pub open spec fn sprite_map_ids() -> Seq<u32> {
    seq![1u32, 2, 3, 4, 12, 13, 5, 6, 7, 11, 8, 9, 10]
}

/// Every sprite the game loads, with its path; no id occurs twice.
pub fn build_sprite_map() -> (m: Vec<(SpriteId, String)>)
    ensures
        m@.len() == sprite_map_ids().len(),
        forall|i: int| 0 <= i < m@.len() ==> (#[trigger] m@[i]).0.0 == sprite_map_ids()[i],
        forall|i: int, j: int| 0 <= i < j < m@.len() ==> m@[i].0 != m@[j].0,
        m@[0].1@ == TinyTacticsSprites::TtMapSheet.path_spec(),
        m@[1].1@ == TinyTacticsSprites::Fighter.path_spec(),
        m@[2].1@ == TinyTacticsSprites::Mage.path_spec(),
        m@[3].1@ == TinyTacticsSprites::Cleric.path_spec(),
        m@[4].1@ == TinyTacticsSprites::IronAxe.path_spec(),
        m@[5].1@ == TinyTacticsSprites::Scepter.path_spec(),
        m@[6].1@ == "misc_assets/fire_effect_2/explosion_2_spritesheet.png"@,
        m@[7].1@ == "misc_assets/arrow.png"@,
        m@[8].1@ == "misc_assets/acid-vfx/acid-vfx-1.png"@,
        m@[9].1@ == "unit_assets/spritesheets/cgcarter/knight.png"@,
        m@[10].1@ == "unit_assets/spritesheets/cgcarter/mage.png"@,
        m@[11].1@ == "unit_assets/spritesheets/cgcarter/archer.png"@,
        m@[12].1@ == "unit_assets/spritesheets/cgcarter/mercenary.png"@,
{
    let m = vec![
        (TinyTacticsSprites::TtMapSheet.sprite_id(), BATTLE_TACTICS_TILESHEET.to_string()),
        (TinyTacticsSprites::Fighter.sprite_id(), TinyTacticsSprites::Fighter.spritesheet_path().to_string()),
        (TinyTacticsSprites::Mage.sprite_id(), TinyTacticsSprites::Mage.spritesheet_path().to_string()),
        (TinyTacticsSprites::Cleric.sprite_id(), TinyTacticsSprites::Cleric.spritesheet_path().to_string()),
        (TinyTacticsSprites::IronAxe.sprite_id(), TinyTacticsSprites::IronAxe.spritesheet_path().to_string()),
        (TinyTacticsSprites::Scepter.sprite_id(), TinyTacticsSprites::Scepter.spritesheet_path().to_string()),
        (SpriteId(5), "misc_assets/fire_effect_2/explosion_2_spritesheet.png".to_string()),
        (SpriteId(6), "misc_assets/arrow.png".to_string()),
        (SpriteId(7), "misc_assets/acid-vfx/acid-vfx-1.png".to_string()),
        (crate::unit::jobs::UnitJob::Knight.demo_sprite_id(), "unit_assets/spritesheets/cgcarter/knight.png".to_string()),
        (crate::unit::jobs::UnitJob::Mage.demo_sprite_id(), "unit_assets/spritesheets/cgcarter/mage.png".to_string()),
        (crate::unit::jobs::UnitJob::Archer.demo_sprite_id(), "unit_assets/spritesheets/cgcarter/archer.png".to_string()),
        (crate::unit::jobs::UnitJob::Mercenary.demo_sprite_id(), "unit_assets/spritesheets/cgcarter/mercenary.png".to_string()),
    ];
    m
}

#[derive(Clone, Copy, PartialEq, Eq, Structural, Debug, Hash)]
pub enum Music {
    BattleMusic,
}

/// Sounds of the menus and the cursor.
#[derive(Clone, Copy, PartialEq, Eq, Structural, Debug, Hash)]
pub enum UiSound {
    OpenMenu,
    CloseMenu,
    Select,
    Cancel,
    Error,
    MoveCursor,
}

#[derive(Clone, Copy, PartialEq, Eq, Structural, Debug, Hash)]
pub enum SkillSound {
    FlameExplosion,
}

#[derive(Clone, Copy, PartialEq, Eq, Structural, Debug, Hash)]
pub enum VoiceSound {
    Ouch,
    Hiyah,
}

#[derive(Clone, Copy, PartialEq, Eq, Structural, Debug, Hash)]
pub enum VoiceId {
    Base,
}

#[derive(Clone, Copy, PartialEq, Eq, Structural, Debug, Hash)]
pub enum CombatSound {
    Skill(SkillSound),
    Voice(VoiceId, VoiceSound),
}

/// The moments of combat that sounds can answer.
#[derive(Clone, Copy, PartialEq, Eq, Structural, Debug, Hash)]
pub enum AudioCue {
    SkillStart,
    SkillRelease,
    Impact,
    Miss,
    Hit,
    Healed,
}

/// Which side of an impact a voice belongs to.
#[derive(Clone, Copy, PartialEq, Eq, Structural, Debug, Hash)]
pub enum ImpactInteractionRole {
    Caster,
    Defender,
}

/// A line a voice says on `cue`, for the given role only when one is set.
#[derive(Clone, Copy, PartialEq, Eq, Structural, Debug)]
pub struct VoiceResponse {
    pub cue: AudioCue,
    pub role: Option<ImpactInteractionRole>,
    pub sound: VoiceSound,
}

#[derive(Clone, Debug)]
pub struct VoiceProfile {
    pub responses: Vec<VoiceResponse>,
}

/// The context of a combat audio event.
#[derive(Clone, Copy, PartialEq, Eq, Structural, Debug)]
pub struct AudioContext {
    pub skill_id: Option<crate::combat::skills::SkillId>,
}

/// A combat moment that sounds may answer; `source` is the attack execution.
#[derive(Clone, Copy, PartialEq, Eq, Structural, Debug)]
pub struct AudioEventMessage {
    pub source: u64,
    pub cue: AudioCue,
    pub audio_context: AudioContext,
}

/// The response answers `cue` for a speaker in `role`.
pub open spec fn response_matches(r: VoiceResponse, cue: AudioCue, role: Option<ImpactInteractionRole>) -> bool {
    r.cue == cue && match r.role {
        Some(required) => role == Some(required),
        None => true,
    }
}

/// The sounds of the responses that answer `cue` for `role`, in order.
pub open spec fn resolve_spec(responses: Seq<VoiceResponse>, cue: AudioCue, role: Option<ImpactInteractionRole>) -> Seq<VoiceSound>
    decreases responses.len(),
{
    if responses.len() == 0 {
        Seq::empty()
    } else {
        let prev = resolve_spec(responses.drop_last(), cue, role);
        if response_matches(responses.last(), cue, role) {
            prev.push(responses.last().sound)
        } else {
            prev
        }
    }
}

impl VoiceProfile {
    /// The lines this voice says for `audio_event` when its speaker is in
    /// `interaction_role`: each response to the event's cue whose role, if
    /// set, is that role.
    pub fn resolve(&self, audio_event: &AudioEventMessage, interaction_role: Option<ImpactInteractionRole>) -> (lines: Vec<VoiceSound>)
        ensures
            lines@ == resolve_spec(self.responses@, audio_event.cue, interaction_role),
    {
        let mut options: Vec<VoiceSound> = Vec::new();
        let mut i: usize = 0;
        while i < self.responses.len()
            invariant
                i <= self.responses@.len(),
                options@ == resolve_spec(self.responses@.take(i as int), audio_event.cue, interaction_role),
            decreases self.responses@.len() - i,
        {
            proof {
                assert(self.responses@.take(i + 1).drop_last() =~= self.responses@.take(i as int));
            }
            let response = self.responses[i];
            let role_ok = match response.role {
                Some(required) => match interaction_role {
                    Some(r) => r == required,
                    None => false,
                },
                None => true,
            };
            if audio_event.cue == response.cue && role_ok {
                options.push(response.sound);
            }
            i = i + 1;
        }
        assert(self.responses@.take(self.responses@.len() as int) =~= self.responses@);
        options
    }
}

/// The base voice: it says "ouch" when hit as the defender.
pub fn default_voice_profile() -> (p: VoiceProfile)
    ensures
        p.responses@ == seq![VoiceResponse { cue: AudioCue::Hit, role: Some(ImpactInteractionRole::Defender), sound: VoiceSound::Ouch }],
{
    let p = VoiceProfile {
        responses: vec![VoiceResponse { cue: AudioCue::Hit, role: Some(ImpactInteractionRole::Defender), sound: VoiceSound::Ouch }],
    };
    assert(p.responses@ =~= seq![VoiceResponse { cue: AudioCue::Hit, role: Some(ImpactInteractionRole::Defender), sound: VoiceSound::Ouch }]);
    p
}

pub const OPEN_MENU_PATH: &'static str = "sound_assets/jdsherbert-pixel-ui-sfx-pack-free/Stereo/ogg/JDSherbert - Pixel UI SFX Pack - Popup Open 1 (Sine).ogg";

pub const CLOSE_MENU_PATH: &'static str = "sound_assets/jdsherbert-pixel-ui-sfx-pack-free/Stereo/ogg/JDSherbert - Pixel UI SFX Pack - Popup Close 1 (Sine).ogg";

pub const SELECT_SOUND_PATH: &'static str = "sound_assets/jdsherbert-pixel-ui-sfx-pack-free/Stereo/ogg/JDSherbert - Pixel UI SFX Pack - Select 2 (Sine).ogg";

pub const ERROR_SOUND_PATH: &'static str = "sound_assets/jdsherbert-pixel-ui-sfx-pack-free/Stereo/ogg/JDSherbert - Pixel UI SFX Pack - Error 1 (Sine).ogg";

pub const MOVE_CURSOR_SOUND_PATH: &'static str = "sound_assets/jdsherbert-pixel-ui-sfx-pack-free/Stereo/ogg/JDSherbert - Pixel UI SFX Pack - Cursor 2 (Sine).ogg";

pub const FLAME_EXPLOSION_PATH: &'static str = "sound_assets/rpg_essentials/04_Fire_explosion_04_medium.ogg";

pub const BATTLE_MUSIC_PATH: &'static str = "sound_assets/music/BattleMusic.ogg";

pub const BASE_OUCH: &'static str = "sound_assets/voice/base/ouch.ogg";

/// The file each menu sound plays; cancelling sounds like closing a menu.
pub fn ui_sound_path(sound: UiSound) -> (p: &'static str)
    ensures
        p@ == (match sound {
            UiSound::OpenMenu => OPEN_MENU_PATH@,
            UiSound::CloseMenu => CLOSE_MENU_PATH@,
            UiSound::Select => SELECT_SOUND_PATH@,
            UiSound::Cancel => CLOSE_MENU_PATH@,
            UiSound::Error => ERROR_SOUND_PATH@,
            UiSound::MoveCursor => MOVE_CURSOR_SOUND_PATH@,
        }),
{
    match sound {
        UiSound::OpenMenu => OPEN_MENU_PATH,
        UiSound::CloseMenu => CLOSE_MENU_PATH,
        UiSound::Select => SELECT_SOUND_PATH,
        UiSound::Cancel => CLOSE_MENU_PATH,
        UiSound::Error => ERROR_SOUND_PATH,
        UiSound::MoveCursor => MOVE_CURSOR_SOUND_PATH,
    }
}

/// The file of each combat sound, where there is one.
pub fn combat_sound_path(sound: CombatSound) -> (p: Option<&'static str>)
    ensures
        p matches Some(s) ==> s@ == (match sound {
            CombatSound::Skill(SkillSound::FlameExplosion) => FLAME_EXPLOSION_PATH@,
            _ => BASE_OUCH@,
        }),
        p is None <==> sound == CombatSound::Voice(VoiceId::Base, VoiceSound::Hiyah),
{
    match sound {
        CombatSound::Skill(SkillSound::FlameExplosion) => Some(FLAME_EXPLOSION_PATH),
        CombatSound::Voice(VoiceId::Base, VoiceSound::Ouch) => Some(BASE_OUCH),
        CombatSound::Voice(VoiceId::Base, VoiceSound::Hiyah) => None,
    }
}

/// The file of each piece of music.
pub fn music_path(music: Music) -> (p: &'static str)
    ensures
        p@ == BATTLE_MUSIC_PATH@,
{
    match music {
        Music::BattleMusic => BATTLE_MUSIC_PATH,
    }
}

/// Every asset file the game loads: the combat sounds, the menu sounds
/// (one entry per sound, so the closing sound twice, as cancelling uses it
/// too), the music, the fonts, then the cursor, the overlay, the tile sheet
/// and the background.
pub open spec fn used_asset_paths_spec() -> Seq<Seq<char>> {
    seq![
        FLAME_EXPLOSION_PATH@,
        BASE_OUCH@,
        OPEN_MENU_PATH@,
        CLOSE_MENU_PATH@,
        SELECT_SOUND_PATH@,
        CLOSE_MENU_PATH@,
        ERROR_SOUND_PATH@,
        MOVE_CURSOR_SOUND_PATH@,
        BATTLE_MUSIC_PATH@,
        FONT_FINE_FANTASY_PATH@,
        FONT_BADGE_PATH@,
        FONT_PIXELIFY_SANS_REGULAR_PATH@,
        FONT_PIXELIFY_SANS_MEDIUM_PATH@,
        FONT_PIXELIFY_SANS_BOLD_PATH@,
        FONT_PIXELIFY_SANS_SEMI_BOLD_PATH@,
        CURSOR_PATH@,
        OVERLAY_PATH@,
        BATTLE_TACTICS_TILESHEET@,
        GRADIENT_PATH@
    ]
}

/// The asset files to ship with the game.
pub fn used_asset_paths() -> (r: Vec<&'static str>)
    ensures
        r@.map_values(|p: &'static str| p@) == used_asset_paths_spec(),
{
    let r = vec![
        FLAME_EXPLOSION_PATH,
        BASE_OUCH,
        OPEN_MENU_PATH,
        CLOSE_MENU_PATH,
        SELECT_SOUND_PATH,
        CLOSE_MENU_PATH,
        ERROR_SOUND_PATH,
        MOVE_CURSOR_SOUND_PATH,
        BATTLE_MUSIC_PATH,
        FONT_FINE_FANTASY_PATH,
        FONT_BADGE_PATH,
        FONT_PIXELIFY_SANS_REGULAR_PATH,
        FONT_PIXELIFY_SANS_MEDIUM_PATH,
        FONT_PIXELIFY_SANS_BOLD_PATH,
        FONT_PIXELIFY_SANS_SEMI_BOLD_PATH,
        CURSOR_PATH,
        OVERLAY_PATH,
        BATTLE_TACTICS_TILESHEET,
        GRADIENT_PATH
    ];
    assert(r@.map_values(|p: &'static str| p@) =~= used_asset_paths_spec());
    r
}

} // verus!
