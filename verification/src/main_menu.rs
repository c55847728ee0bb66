//! The main menu and its settings screen: which buttons they hold and what
//! choosing each leads to.
use vstd::prelude::*;
use crate::GameState;

verus! {

/// The selectors of the settings screen whose values are applied.
#[derive(Clone, Copy, PartialEq, Eq, Structural, Debug)]
pub struct SaveSettingsSubmit {
    pub global_volume_selector: u64,
    pub music_volume_selector: u64,
    pub sfx_volume_selector: u64,
}

#[derive(Clone, Copy, PartialEq, Eq, Structural, Debug)]
pub enum MainMenuButtonAction {
    PlayDemo,
    OpenSettings,
    SaveSettings(SaveSettingsSubmit),
    Quit,
}

/// The buttons of the main menu, top to bottom.
pub fn main_menu_entries() -> (r: Vec<(MainMenuButtonAction, &'static str)>)
    ensures
        r@.len() == 3,
        r@[0].0 == MainMenuButtonAction::PlayDemo && r@[0].1@ == "Play Demo"@,
        r@[1].0 == MainMenuButtonAction::OpenSettings && r@[1].1@ == "Settings"@,
        r@[2].0 == MainMenuButtonAction::Quit && r@[2].1@ == "Quit"@,
{
    vec![
        (MainMenuButtonAction::PlayDemo, "Play Demo"),
        (MainMenuButtonAction::OpenSettings, "Settings"),
        (MainMenuButtonAction::Quit, "Quit"),
    ]
}

/// What choosing a main menu button leads to.
#[derive(Clone, Copy, PartialEq, Eq, Structural, Debug)]
pub enum MainMenuOutcome {
    /// The game ends.
    Exit,
    /// The game moves to this screen.
    GoTo(GameState),
    /// The settings screen opens over the main menu.
    OpenSettings,
    /// The values of these selectors become the sound settings.
    ApplySettings(SaveSettingsSubmit),
}

pub fn main_menu_choice(action: MainMenuButtonAction) -> (r: MainMenuOutcome)
    ensures
        r == (match action {
            MainMenuButtonAction::Quit => MainMenuOutcome::Exit,
            MainMenuButtonAction::PlayDemo => MainMenuOutcome::GoTo(GameState::JoinGame),
            MainMenuButtonAction::OpenSettings => MainMenuOutcome::OpenSettings,
            MainMenuButtonAction::SaveSettings(s) => MainMenuOutcome::ApplySettings(s),
        }),
{
    match action {
        MainMenuButtonAction::Quit => MainMenuOutcome::Exit,
        MainMenuButtonAction::PlayDemo => MainMenuOutcome::GoTo(GameState::JoinGame),
        MainMenuButtonAction::OpenSettings => MainMenuOutcome::OpenSettings,
        MainMenuButtonAction::SaveSettings(s) => MainMenuOutcome::ApplySettings(s),
    }
}

/// The volumes offered, in percent: from 0 to 200 in steps of 20.
pub open spec fn volume_options_spec() -> Seq<u32> {
    Seq::new(11, |i: int| (20 * i) as u32)
}

pub fn volume_options_percent() -> (r: Vec<u32>)
    ensures
        r@ == volume_options_spec(),
{
    let mut r: Vec<u32> = Vec::new();
    let mut i: u32 = 0;
    while i < 11
        invariant
            i <= 11,
            r@ == volume_options_spec().take(i as int),
        decreases 11 - i,
    {
        r.push(20 * i);
        i = i + 1;
        assert(r@ =~= volume_options_spec().take(i as int));
    }
    assert(r@ =~= volume_options_spec());
    r
}

/// The place of a volume among the options, where it is one of them.
pub fn volume_option_index(percent: u32) -> (r: Option<usize>)
    ensures
        match r {
            Some(i) => i < 11 && volume_options_spec()[i as int] == percent,
            None => forall|i: int| 0 <= i < 11 ==> volume_options_spec()[i] != percent,
        },
{
    if percent % 20 == 0 && percent <= 200 {
        Some((percent / 20) as usize)
    } else {
        proof {
            assert forall|i: int| 0 <= i < 11 implies volume_options_spec()[i] != percent by {
                assert((20 * i) % 20 == 0) by (nonlinear_arith);
            }
        }
        None
    }
}

} // verus!
