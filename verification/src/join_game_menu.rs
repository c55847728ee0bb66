//! Players joining a game before battle: who has joined with which
//! controller, which character each has loaded, who is ready, and the
//! creation of new characters.
use vstd::prelude::*;
use crate::assoc::{assoc_map, has_key, keys_unique, lemma_assoc_lookup, lemma_assoc_push, lemma_assoc_remove, lemma_assoc_update};
use crate::save_game::{keys_equal, same_key, SaveFileColor, SaveFileKey, SaveFiles, UnitSaveV1};
use crate::unit::jobs::UnitJob;

verus! {

/// How many players can join.
pub const MAX_PLAYERS: usize = 4;

/// What a joined player plays with.
#[derive(Clone, Copy, PartialEq, Eq, Structural, Debug)]
pub enum PlayerController {
    Gamepad(u64),
    Keyboard,
}

/// The character a joined player has chosen, if any, and whether the player
/// is ready to fight with it.
#[derive(Clone, Debug)]
pub enum LoadedUnitState {
    NoUnit,
    LoadedUnit(UnitSaveV1),
    ReadyUnit(UnitSaveV1),
}

#[derive(Clone, Debug)]
pub struct JoinedPlayerData {
    pub controller: PlayerController,
    pub input_entity: u64,
    pub unit_state: LoadedUnitState,
}

/// Why a player could not join.
#[derive(Clone, Copy, PartialEq, Eq, Structural, Debug)]
pub enum JoinError {
    MaximumPlayersReached,
}

/// The save a player's state holds, loaded or ready.
pub open spec fn loaded_save(state: LoadedUnitState) -> Option<UnitSaveV1> {
    match state {
        LoadedUnitState::NoUnit => None,
        LoadedUnitState::LoadedUnit(s) => Some(s),
        LoadedUnitState::ReadyUnit(s) => Some(s),
    }
}

/// The state holds the save file `key`, loaded or ready.
pub open spec fn uses_key(state: LoadedUnitState, key: SaveFileKey) -> bool {
    loaded_save(state) matches Some(s) && same_key(s.save_file_key, key)
}

/// The players that have joined, by player number.
pub struct JoinedPlayers {
    players: Vec<(u32, JoinedPlayerData)>,
}

/// What marking a player ready leads to.
#[derive(Clone, Debug)]
pub enum ReadyOutcome {
    /// No such player has joined; nothing changed.
    UnknownPlayer,
    /// Some joined player is not ready yet.
    Waiting,
    /// Every joined player is ready; these are the characters they fight
    /// with, by player number.
    AllReady(Vec<(u32, UnitSaveV1)>),
}

impl JoinedPlayers {
    #[verifier::type_invariant]
    spec fn wf(self) -> bool {
        keys_unique(self.players@)
    }

    pub closed spec fn players(self) -> Map<u32, JoinedPlayerData> {
        assoc_map(self.players@)
    }

    /// The joined players in the order they joined.
    pub closed spec fn order(self) -> Seq<(u32, JoinedPlayerData)> {
        self.players@
    }

    proof fn lemma_order(self)
        requires
            self.wf(),
        ensures
            forall|i: int| 0 <= i < self.order().len() ==> #[trigger] self.players().contains_key(self.order()[i].0)
                && self.players()[self.order()[i].0] == self.order()[i].1,
            forall|p: u32| #[trigger] self.players().contains_key(p) ==> exists|i: int| 0 <= i < self.order().len() && self.order()[i].0 == p,
            self.players().dom().len() == self.order().len(),
            self.players().dom().finite(),
    {
        assert forall|i: int| 0 <= i < self.order().len() implies #[trigger] self.players().contains_key(self.order()[i].0)
            && self.players()[self.order()[i].0] == self.order()[i].1 by {
            lemma_assoc_lookup(self.players@, i);
        }
        assert forall|p: u32| #[trigger] self.players().contains_key(p) implies exists|i: int| 0 <= i < self.order().len() && self.order()[i].0 == p by {
            let i = crate::assoc::key_index(self.players@, p);
            assert(self.order()[i].0 == p);
        }
        crate::assoc::lemma_assoc_dom(self.players@);
    }

    pub fn new() -> (j: JoinedPlayers)
        ensures
            j.players() == Map::<u32, JoinedPlayerData>::empty(),
            j.order() == Seq::<(u32, JoinedPlayerData)>::empty(),
    {
        let j = JoinedPlayers { players: Vec::new() };
        assert(j.players() =~= Map::<u32, JoinedPlayerData>::empty());
        assert(j.order() =~= Seq::<(u32, JoinedPlayerData)>::empty());
        j
    }

    fn index_of(&self, id: u32) -> (r: Option<usize>)
        ensures
            match r {
                Some(i) => i < self.players@.len() && self.players@[i as int].0 == id,
                None => !has_key(self.players@, id),
            },
    {
        let mut i: usize = 0;
        while i < self.players.len()
            invariant
                i <= self.players@.len(),
                forall|j: int| 0 <= j < i ==> self.players@[j].0 != id,
            decreases self.players@.len() - i,
        {
            if self.players[i].0 == id {
                return Some(i);
            }
            i = i + 1;
        }
        None
    }

    /// How many players have joined.
    pub fn count(&self) -> (n: usize)
        ensures
            n == self.players().dom().len(),
    {
        proof {
            use_type_invariant(self);
            self.lemma_order();
        }
        self.players.len()
    }

    /// The number the next player gets: one more than the largest number in
    /// use (one when nobody has joined); refused once four have joined.
    pub fn next_player_id(&self) -> (r: Result<u32, JoinError>)
        requires
            forall|p: u32| #[trigger] self.players().contains_key(p) ==> p < u32::MAX,
        ensures
            self.players().dom().len() >= MAX_PLAYERS ==> r == Err::<u32, JoinError>(JoinError::MaximumPlayersReached),
            self.players().dom().len() < MAX_PLAYERS ==> (r matches Ok(id) && !self.players().contains_key(id)
                && (forall|p: u32| #[trigger] self.players().contains_key(p) ==> p < id)
                && (self.players().dom().len() == 0 ==> id == 1)
                && (self.players().dom().len() > 0 ==> self.players().contains_key((id - 1) as u32))),
    {
        proof {
            use_type_invariant(self);
            self.lemma_order();
        }
        if self.players.len() >= MAX_PLAYERS {
            return Err(JoinError::MaximumPlayersReached);
        }
        let mut max: u32 = 0;
        let mut i: usize = 0;
        while i < self.players.len()
            invariant
                i <= self.players@.len(),
                forall|p: u32| #[trigger] self.players().contains_key(p) ==> p < u32::MAX,
                forall|j: int| 0 <= j < self.order().len() ==> #[trigger] self.players().contains_key(self.order()[j].0),
                self.order() == self.players@,
                forall|j: int| 0 <= j < i ==> self.players@[j].0 <= max,
                i == 0 ==> max == 0,
                i > 0 ==> exists|j: int| 0 <= j < i && self.players@[j].0 == max,
            decreases self.players@.len() - i,
        {
            if self.players[i].0 > max {
                max = self.players[i].0;
            }
            i = i + 1;
        }
        proof {
            if self.players@.len() > 0 {
                let j = choose|j: int| 0 <= j < self.players@.len() && self.players@[j].0 == max;
                assert(self.players().contains_key(self.order()[j].0));
            }
            assert forall|p: u32| #[trigger] self.players().contains_key(p) implies p <= max by {
                let j = choose|j: int| 0 <= j < self.order().len() && self.order()[j].0 == p;
                assert(self.players().contains_key(self.order()[j].0));
            }
            if self.players().dom().len() == 0 {
                assert(self.players@.len() == 0);
            }
        }
        Ok(max + 1)
    }

    /// Whether a player has joined with this controller.
    pub fn controller_joined(&self, controller: PlayerController) -> (b: bool)
        ensures
            b == exists|p: u32| #[trigger] self.players().contains_key(p) && self.players()[p].controller == controller,
    {
        proof {
            use_type_invariant(self);
            self.lemma_order();
        }
        let mut i: usize = 0;
        while i < self.players.len()
            invariant
                i <= self.players@.len(),
                self.order() == self.players@,
                forall|j: int| 0 <= j < i ==> self.players@[j].1.controller != controller,
            decreases self.players@.len() - i,
        {
            if self.players[i].1.controller == controller {
                proof {
                    use_type_invariant(self);
                    self.lemma_order();
                    assert(self.players().contains_key(self.order()[i as int].0));
                }
                return true;
            }
            i = i + 1;
        }
        proof {
            assert forall|p: u32| #[trigger] self.players().contains_key(p) implies self.players()[p].controller != controller by {
                let j = choose|j: int| 0 <= j < self.order().len() && self.order()[j].0 == p;
                assert(self.players().contains_key(self.order()[j].0));
            }
        }
        false
    }

    /// A new player joins with `controller`, its input handled by
    /// `input_entity`, with no character yet; it gets the next number.
    pub fn join(&mut self, controller: PlayerController, input_entity: u64) -> (r: Result<u32, JoinError>)
        requires
            forall|p: u32| #[trigger] old(self).players().contains_key(p) ==> p < u32::MAX,
        ensures
            old(self).players().dom().len() >= MAX_PLAYERS ==> r == Err::<u32, JoinError>(JoinError::MaximumPlayersReached)
                && final(self).players() == old(self).players(),
            old(self).players().dom().len() < MAX_PLAYERS ==> (r matches Ok(id) && !old(self).players().contains_key(id)
                && (forall|p: u32| #[trigger] old(self).players().contains_key(p) ==> p < id)
                && (old(self).players().dom().len() == 0 ==> id == 1)
                && (old(self).players().dom().len() > 0 ==> old(self).players().contains_key((id - 1) as u32))
                && final(self).players() == old(self).players().insert(id, JoinedPlayerData {
                    controller,
                    input_entity,
                    unit_state: LoadedUnitState::NoUnit,
                })),
    {
        proof {
            use_type_invariant(&*self);
        }
        let id = match self.next_player_id() {
            Ok(id) => id,
            Err(e) => {
                return Err(e);
            },
        };
        let data = JoinedPlayerData { controller, input_entity, unit_state: LoadedUnitState::NoUnit };
        proof {
            lemma_assoc_push(self.players@, id, data);
        }
        let mut ps: Vec<(u32, JoinedPlayerData)> = Vec::new();
        std::mem::swap(&mut ps, &mut self.players);
        ps.push((id, data));
        self.players = ps;
        Ok(id)
    }

    /// The player `id` leaves; its data is handed back.
    pub fn leave(&mut self, id: u32) -> (r: Option<JoinedPlayerData>)
        ensures
            final(self).players() == old(self).players().remove(id),
            r == (if old(self).players().contains_key(id) {
                Some(old(self).players()[id])
            } else {
                None::<JoinedPlayerData>
            }),
    {
        proof {
            use_type_invariant(&*self);
        }
        match self.index_of(id) {
            Some(i) => {
                proof {
                    lemma_assoc_lookup(self.players@, i as int);
                    lemma_assoc_remove(self.players@, i as int);
                }
                let mut ps: Vec<(u32, JoinedPlayerData)> = Vec::new();
                std::mem::swap(&mut ps, &mut self.players);
                let (_, data) = ps.remove(i);
                self.players = ps;
                Some(data)
            },
            None => {
                assert(self.players().remove(id) =~= self.players());
                None
            },
        }
    }

    /// Gives player `id` this character state; says whether the player has
    /// joined (otherwise nothing changes).
    pub fn set_unit_state(&mut self, id: u32, state: LoadedUnitState) -> (found: bool)
        ensures
            found == old(self).players().contains_key(id),
            found ==> final(self).players() == old(self).players().insert(id, JoinedPlayerData {
                unit_state: state,
                ..old(self).players()[id]
            }),
            !found ==> final(self).players() == old(self).players(),
    {
        proof {
            use_type_invariant(&*self);
        }
        match self.index_of(id) {
            Some(i) => {
                proof {
                    lemma_assoc_lookup(self.players@, i as int);
                }
                let old_data = &self.players[i].1;
                let data = JoinedPlayerData {
                    controller: old_data.controller,
                    input_entity: old_data.input_entity,
                    unit_state: state,
                };
                proof {
                    lemma_assoc_update(self.players@, i as int, data);
                }
                let mut ps: Vec<(u32, JoinedPlayerData)> = Vec::new();
                std::mem::swap(&mut ps, &mut self.players);
                ps.set(i, (id, data));
                self.players = ps;
                true
            },
            None => false,
        }
    }

    /// Whether some joined player has this save loaded or ready.
    pub fn save_file_in_use(&self, key: &SaveFileKey) -> (b: bool)
        ensures
            b == exists|p: u32| #[trigger] self.players().contains_key(p)
                && uses_key(self.players()[p].unit_state, *key),
    {
        proof {
            use_type_invariant(self);
            self.lemma_order();
        }
        let mut i: usize = 0;
        while i < self.players.len()
            invariant
                i <= self.players@.len(),
                self.order() == self.players@,
                forall|j: int| 0 <= j < i ==> !uses_key(#[trigger] self.players@[j].1.unit_state, *key),
            decreases self.players@.len() - i,
        {
            let used = match &self.players[i].1.unit_state {
                LoadedUnitState::NoUnit => false,
                LoadedUnitState::LoadedUnit(s) => keys_equal(&s.save_file_key, key),
                LoadedUnitState::ReadyUnit(s) => keys_equal(&s.save_file_key, key),
            };
            if used {
                proof {
                    use_type_invariant(self);
                    self.lemma_order();
                    assert(self.players().contains_key(self.order()[i as int].0));
                }
                return true;
            }
            i = i + 1;
        }
        proof {
            assert forall|p: u32| #[trigger] self.players().contains_key(p) implies !uses_key(self.players()[p].unit_state, *key) by {
                let j = choose|j: int| 0 <= j < self.order().len() && self.order()[j].0 == p;
                assert(self.players().contains_key(self.order()[j].0));
            }
        }
        false
    }

    /// Whether every joined player is ready.
    pub fn all_ready(&self) -> (b: bool)
        ensures
            b == forall|p: u32| #[trigger] self.players().contains_key(p) ==> self.players()[p].unit_state is ReadyUnit,
    {
        proof {
            use_type_invariant(self);
            self.lemma_order();
        }
        let mut i: usize = 0;
        while i < self.players.len()
            invariant
                i <= self.players@.len(),
                self.order() == self.players@,
                forall|j: int| 0 <= j < i ==> self.players@[j].1.unit_state is ReadyUnit,
            decreases self.players@.len() - i,
        {
            match &self.players[i].1.unit_state {
                LoadedUnitState::ReadyUnit(_) => {},
                _ => {
                    proof {
                        use_type_invariant(self);
                    self.lemma_order();
                    assert(self.players().contains_key(self.order()[i as int].0));
                    }
                    return false;
                },
            }
            i = i + 1;
        }
        proof {
            assert forall|p: u32| #[trigger] self.players().contains_key(p) implies self.players()[p].unit_state is ReadyUnit by {
                let j = choose|j: int| 0 <= j < self.order().len() && self.order()[j].0 == p;
                assert(self.players().contains_key(self.order()[j].0));
            }
        }
        true
    }

    /// The characters of the ready players, in the order they joined.
    fn ready_saves(&self) -> (r: Vec<(u32, UnitSaveV1)>)
        ensures
            r@ == ready_saves_spec(self.order()),
    {
        let mut r: Vec<(u32, UnitSaveV1)> = Vec::new();
        let mut i: usize = 0;
        while i < self.players.len()
            invariant
                i <= self.players@.len(),
                r@ == ready_saves_spec(self.players@.take(i as int)),
            decreases self.players@.len() - i,
        {
            proof {
                assert(self.players@.take(i + 1).drop_last() =~= self.players@.take(i as int));
            }
            match &self.players[i].1.unit_state {
                LoadedUnitState::ReadyUnit(s) => {
                    r.push((self.players[i].0, s.duplicate()));
                },
                _ => {},
            }
            i = i + 1;
        }
        assert(self.players@.take(self.players@.len() as int) =~= self.players@);
        r
    }

    /// Player `id` is ready to fight with `save`. Where every joined player
    /// is then ready, their characters are handed out.
    pub fn ready_for_battle(&mut self, id: u32, save: UnitSaveV1) -> (r: ReadyOutcome)
        ensures
            !old(self).players().contains_key(id) ==> r is UnknownPlayer && final(self).players() == old(self).players(),
            old(self).players().contains_key(id) ==> {
                &&& final(self).players() == old(self).players().insert(id, JoinedPlayerData {
                    unit_state: LoadedUnitState::ReadyUnit(save),
                    ..old(self).players()[id]
                })
                &&& if forall|p: u32| #[trigger] final(self).players().contains_key(p) ==> final(self).players()[p].unit_state is ReadyUnit {
                    r matches ReadyOutcome::AllReady(saves) && saves@ == ready_saves_spec(final(self).order())
                } else {
                    r is Waiting
                }
            },
    {
        if !self.set_unit_state(id, LoadedUnitState::ReadyUnit(save)) {
            return ReadyOutcome::UnknownPlayer;
        }
        if self.all_ready() {
            ReadyOutcome::AllReady(self.ready_saves())
        } else {
            ReadyOutcome::Waiting
        }
    }

    /// Player `id` is no longer ready and goes back to its loaded character;
    /// refused (nothing changes) where the player has not joined or is not
    /// ready.
    pub fn unready(&mut self, id: u32) -> (done: bool)
        ensures
            done == (old(self).players().contains_key(id) && old(self).players()[id].unit_state is ReadyUnit),
            done ==> final(self).players() == old(self).players().insert(id, JoinedPlayerData {
                unit_state: LoadedUnitState::LoadedUnit(old(self).players()[id].unit_state->ReadyUnit_0),
                ..old(self).players()[id]
            }),
            !done ==> final(self).players() == old(self).players(),
    {
        proof {
            use_type_invariant(&*self);
        }
        match self.index_of(id) {
            Some(i) => {
                proof {
                    lemma_assoc_lookup(self.players@, i as int);
                }
                let save = match &self.players[i].1.unit_state {
                    LoadedUnitState::ReadyUnit(s) => s.duplicate(),
                    _ => {
                        return false;
                    },
                };
                self.set_unit_state(id, LoadedUnitState::LoadedUnit(save))
            },
            None => false,
        }
    }
}

/// The characters of the ready players among `players`, in order.
pub open spec fn ready_saves_spec(players: Seq<(u32, JoinedPlayerData)>) -> Seq<(u32, UnitSaveV1)>
    decreases players.len(),
{
    if players.len() == 0 {
        seq![]
    } else {
        let before = ready_saves_spec(players.drop_last());
        match players.last().1.unit_state {
            LoadedUnitState::ReadyUnit(s) => before.push((players.last().0, s)),
            _ => before,
        }
    }
}

/// The save files that no joined player is using, in their order.
pub open spec fn loadable_spec(keys: Seq<SaveFileKey>, joined: JoinedPlayers) -> Seq<SaveFileKey>
    decreases keys.len(),
{
    if keys.len() == 0 {
        seq![]
    } else {
        let before = loadable_spec(keys.drop_last(), joined);
        let k = keys.last();
        if exists|p: u32| #[trigger] joined.players().contains_key(p) && uses_key(joined.players()[p].unit_state, k) {
            before
        } else {
            before.push(k)
        }
    }
}

/// The save files a player may load: those no joined player is using.
pub fn loadable_save_files(files: &SaveFiles, joined: &JoinedPlayers) -> (r: Vec<SaveFileKey>)
    ensures
        r@ == loadable_spec(files.save_file_keys@, *joined),
{
    let keys = &files.save_file_keys;
    let mut r: Vec<SaveFileKey> = Vec::new();
    let mut i: usize = 0;
    while i < keys.len()
        invariant
            i <= keys@.len(),
            r@ == loadable_spec(keys@.take(i as int), *joined),
        decreases keys@.len() - i,
    {
        proof {
            assert(keys@.take(i + 1).drop_last() =~= keys@.take(i as int));
        }
        if !joined.save_file_in_use(&keys[i]) {
            r.push(keys[i].duplicate());
        }
        i = i + 1;
    }
    assert(keys@.take(keys@.len() as int) =~= keys@);
    r
}

/// Why a character could not be created.
#[derive(Clone, Copy, PartialEq, Eq, Structural, Debug)]
pub enum CreateCharacterError {
    NoJobSelected,
    NoColorSelected,
    EmptyName,
}

/// Creates a character named `name` with the selected job and colour: it
/// gets the next uid (counting on from the last one handed out, wrapping
/// around) and its key is added to the known save files.
pub fn create_character(
    save_files: &mut SaveFiles,
    name: &String,
    job: Option<UnitJob>,
    color: Option<SaveFileColor>,
) -> (r: Result<UnitSaveV1, CreateCharacterError>)
    ensures
        job is None ==> r == Err::<UnitSaveV1, CreateCharacterError>(CreateCharacterError::NoJobSelected),
        job is Some && color is None ==> r == Err::<UnitSaveV1, CreateCharacterError>(CreateCharacterError::NoColorSelected),
        job is Some && color is Some && name@.len() == 0
            ==> r == Err::<UnitSaveV1, CreateCharacterError>(CreateCharacterError::EmptyName),
        r is Err ==> final(save_files).cursor == old(save_files).cursor
            && final(save_files).save_file_keys@ == old(save_files).save_file_keys@,
        job is Some && color is Some && name@.len() > 0 ==> {
            let uid = if old(save_files).cursor == u32::MAX { 0u32 } else { (old(save_files).cursor + 1) as u32 };
            &&& r matches Ok(save) && save.job == job->0 && save.save_file_key.uid == uid
                && save.save_file_key.name@ == name@ && save.save_file_key.color == color->0
            &&& final(save_files).cursor == uid
            &&& final(save_files).save_file_keys@ == old(save_files).save_file_keys@.push(r->Ok_0.save_file_key)
        },
{
    let job = match job {
        Some(j) => j,
        None => {
            return Err(CreateCharacterError::NoJobSelected);
        },
    };
    let color = match color {
        Some(c) => c,
        None => {
            return Err(CreateCharacterError::NoColorSelected);
        },
    };
    if name.as_str().is_empty() {
        return Err(CreateCharacterError::EmptyName);
    }
    let uid = save_files.cursor.wrapping_add(1);
    save_files.cursor = uid;
    let key = SaveFileKey { uid, name: name.clone(), color };
    save_files.save_file_keys.push(key.duplicate());
    Ok(UnitSaveV1 { save_file_key: key, job })
}

/// Selecting a text field in a form: that field's inactivity flips and every
/// other field becomes inactive. Each field is given with whether it is
/// inactive.
pub fn focus_text_input(fields: &Vec<(u64, bool)>, target: u64) -> (r: Vec<(u64, bool)>)
    ensures
        r@.len() == fields@.len(),
        forall|i: int| 0 <= i < r@.len() ==> (#[trigger] r@[i]).0 == fields@[i].0
            && r@[i].1 == (if fields@[i].0 == target { !fields@[i].1 } else { true }),
{
    let mut r: Vec<(u64, bool)> = Vec::new();
    let mut i: usize = 0;
    while i < fields.len()
        invariant
            i <= fields@.len(),
            r@.len() == i,
            forall|k: int| 0 <= k < i ==> (#[trigger] r@[k]).0 == fields@[k].0
                && r@[k].1 == (if fields@[k].0 == target { !fields@[k].1 } else { true }),
        decreases fields@.len() - i,
    {
        let (e, inactive) = fields[i];
        if e == target {
            r.push((e, !inactive));
        } else {
            r.push((e, true));
        }
        i = i + 1;
    }
    r
}

/// The colours offered for a new save file, in the order shown.
pub fn color_selector_options() -> (r: Vec<SaveFileColor>)
    ensures
        r@ == seq![SaveFileColor::Red, SaveFileColor::Blue, SaveFileColor::Green],
{
    let r = vec![SaveFileColor::Red, SaveFileColor::Blue, SaveFileColor::Green];
    assert(r@ =~= seq![SaveFileColor::Red, SaveFileColor::Blue, SaveFileColor::Green]);
    r
}

/// The text of the colour selector: the colour between arrows.
pub fn color_selector_text(color: SaveFileColor) -> (s: String)
    ensures
        s@ == "<- "@ + color.name_spec() + " ->"@,
{
    let name = color.name();
    String::from_str("<- ").concat(name.as_str()).concat(" ->")
}

/// The buttons a joined player first sees, top to bottom.
#[derive(Clone, Copy, PartialEq, Eq, Structural, Debug)]
pub enum JoinMenuEntry {
    NewCharacter,
    LoadCharacter,
    DeleteAllData,
}

pub fn join_menu_entries() -> (r: Vec<(JoinMenuEntry, &'static str)>)
    ensures
        r@.len() == 3,
        r@[0].0 == JoinMenuEntry::NewCharacter && r@[0].1@ == "New Character"@,
        r@[1].0 == JoinMenuEntry::LoadCharacter && r@[1].1@ == "Load Character"@,
        r@[2].0 == JoinMenuEntry::DeleteAllData && r@[2].1@ == "(DEV) Delete All Data"@,
{
    vec![
        (JoinMenuEntry::NewCharacter, "New Character"),
        (JoinMenuEntry::LoadCharacter, "Load Character"),
        (JoinMenuEntry::DeleteAllData, "(DEV) Delete All Data"),
    ]
}

/// A player who leaves right after joining leaves the other players as
/// they were: joining adds the newcomer under a number nobody had, and
/// leaving takes exactly that number out.
pub proof fn lemma_leave_undoes_join(players: Map<u32, JoinedPlayerData>, id: u32, data: JoinedPlayerData)
    requires
        !players.contains_key(id),
    ensures
        players.insert(id, data).remove(id) == players,
{
    assert(players.insert(id, data).remove(id) =~= players);
}

} // verus!
