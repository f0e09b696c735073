//! The rules side of the simulation: the single owner of the match state.
//! Movement and targeting work on floating-point positions and stay with the
//! caller, which drives a frame as `begin_tick`, its own motion (reporting
//! hits and breaches through `record_hit` and `record_breach`), then
//! `end_tick`.
use vstd::prelude::*;
use crate::sim::catalog::{
    defense_by_id, enemy_by_id, lemma_find_defense_matches,
    spec_defense_by_id, spec_defense_catalog, spec_enemy_by_id,
};
use crate::sim::command::{Command, CommandView};
use crate::sim::entity::{
    by_id, find_index, has_key, keys_unique, lemma_by_id_at, lemma_by_id_update, remove_by_id,
    upsert, Enemy, EnemyView, EntityId, Keyed, Tower, TowerView,
};
use crate::sim::event::GameEvent;
use crate::sim::exterior::placement::{
    placed_tower, placement_outcome, saturating_inc, spec_buildable, try_place_tower,
};
use crate::sim::text::str_eq;

verus! {

/// Castle hit points at the start of a match, in thousandths.
pub const INITIAL_CASTLE_HP_MILLI: u32 = 100_000;

/// Gold at the start of a match.
pub const INITIAL_RESOURCES: u32 = 100;

/// Gold paid for each enemy killed.
pub const KILL_REWARD: u32 = 8;

/// Damage to the castle, in thousandths, from an enemy whose type is unknown.
pub const DEFAULT_BREACH_DAMAGE_MILLI: u32 = 5000;

/// The single owner of the match's rules state.
#[derive(Debug)]
pub struct World {
    pub tick: u64,
    pub paused: bool,
    pub castle_hp_milli: u32,
    pub resources: u32,
    pub wave: u32,
    pub next_id: EntityId,
    pub selected_type: Option<String>,
    pub towers: Vec<Tower>,
    pub enemies: Vec<Enemy>,
    pub commands: Vec<Command>,
    pub events: Vec<GameEvent>,
    pub debug_spawned: bool,
}

/// The state of a `World` as mathematical values.
pub struct WorldView {
    pub tick: u64,
    pub paused: bool,
    pub castle_hp_milli: u32,
    pub resources: u32,
    pub wave: u32,
    pub next_id: EntityId,
    pub selected_type: Option<Seq<char>>,
    pub towers: Map<EntityId, TowerView>,
    pub enemies: Map<EntityId, EnemyView>,
    pub commands: Seq<CommandView>,
    pub events: Seq<GameEvent>,
    pub debug_spawned: bool,
}

impl View for World {
    type V = WorldView;

    open spec fn view(&self) -> WorldView {
        WorldView {
            tick: self.tick,
            paused: self.paused,
            castle_hp_milli: self.castle_hp_milli,
            resources: self.resources,
            wave: self.wave,
            next_id: self.next_id,
            selected_type: match self.selected_type {
                Some(s) => Some(s@),
                None => None,
            },
            towers: by_id(self.towers@),
            enemies: by_id(self.enemies@),
            commands: self.commands@.map_values(|c: Command| c@),
            events: self.events@,
            debug_spawned: self.debug_spawned,
        }
    }
}

/// `x + y`, staying at `u32::MAX`.
pub open spec fn saturating_add(x: u32, y: u32) -> u32 {
    if x + y > u32::MAX {
        u32::MAX
    } else {
        (x + y) as u32
    }
}

/// `x + 1`, staying at `u64::MAX`.
pub open spec fn saturating_inc_u64(x: u64) -> u64 {
    if x == u64::MAX {
        x
    } else {
        (x + 1) as u64
    }
}

/// An id that the counter has handed out already, while it still counts.
pub open spec fn id_issued(k: EntityId, next_id: EntityId) -> bool {
    k < next_id || next_id == u32::MAX
}

impl WorldView {
    /// What every reachable state keeps: each tower stands on its own wall
    /// cell and is of a catalog type, ids were handed out by the counter, and
    /// the castle never has more than its starting hit points.
    pub open spec fn inv(self) -> bool {
        &&& forall|k: EntityId| #[trigger]
            self.towers.contains_key(k) ==> {
                &&& self.towers[k].id == k
                &&& spec_buildable(self.towers[k].cell_x as int, self.towers[k].cell_z as int)
                &&& spec_defense_by_id(self.towers[k].type_id) is Some
                &&& id_issued(k, self.next_id)
            }
        &&& forall|a: EntityId, b: EntityId|
            #![trigger self.towers[a], self.towers[b]]
            self.towers.contains_key(a) && self.towers.contains_key(b) && a != b ==> !(
            self.towers[a].cell_x == self.towers[b].cell_x && self.towers[a].cell_z
                == self.towers[b].cell_z)
        &&& forall|k: EntityId| #[trigger]
            self.enemies.contains_key(k) ==> self.enemies[k].id == k && id_issued(k, self.next_id)
        &&& self.castle_hp_milli <= INITIAL_CASTLE_HP_MILLI
    }

    pub open spec fn with_commands(self, commands: Seq<CommandView>) -> WorldView {
        WorldView { commands: commands, ..self }
    }
}

/// Whether some tower stands on the cell.
pub open spec fn tower_on_cell(towers: Map<EntityId, TowerView>, cell_x: i32, cell_z: i32) -> bool {
    exists|k: EntityId| #![trigger towers[k]]
        towers.contains_key(k) && towers[k].cell_x == cell_x && towers[k].cell_z == cell_z
}

/// The defense type that a card name selects: the English and Japanese names
/// of the cannon, the archer and the barricade map to their type ids, and any
/// other name is taken as a type id itself.
pub open spec fn card_type_id(card: Seq<char>) -> Seq<char> {
    if card == "cannon"@ || card == "Cannon"@ || card == "大砲"@ {
        "cannon"@
    } else if card == "archer"@ || card == "Archer"@ || card == "弓兵"@ {
        "archer"@
    } else if card == "barricade"@ || card == "Barricade"@ || card == "バリケード"@ {
        "barricade"@
    } else {
        card
    }
}

/// The type a placement request builds: its own, or the selected card's
/// when it names none.
pub open spec fn chosen_type(w: WorldView, type_id: Seq<char>) -> Seq<char> {
    if type_id.len() == 0 {
        match w.selected_type {
            Some(s) => s,
            None => Seq::empty(),
        }
    } else {
        type_id
    }
}

/// The effect of one queued command.
pub open spec fn apply_command(w: WorldView, c: CommandView) -> WorldView {
    match c {
        CommandView::TogglePause => WorldView {
            paused: !w.paused,
            events: w.events.push(GameEvent::PauseChanged { paused: !w.paused }),
            ..w
        },
        CommandView::SetPaused { paused } => if w.paused != paused {
            WorldView {
                paused: paused,
                events: w.events.push(GameEvent::PauseChanged { paused: paused }),
                ..w
            }
        } else {
            w
        },
        CommandView::SelectCard { card } => if spec_defense_by_id(card_type_id(card)) is Some {
            WorldView { selected_type: Some(card_type_id(card)), ..w }
        } else {
            w
        },
        CommandView::PlaceTower { type_id, cell_x, cell_z } => if tower_on_cell(
            w.towers,
            cell_x,
            cell_z,
        ) {
            w
        } else {
            match placement_outcome(chosen_type(w, type_id), cell_x, cell_z, false, w.resources) {
                Ok(stats) => WorldView {
                    resources: (w.resources - stats.cost) as u32,
                    next_id: saturating_inc(w.next_id),
                    towers: w.towers.insert(
                        w.next_id,
                        placed_tower(w.next_id, stats, cell_x, cell_z),
                    ),
                    ..w
                },
                Err(_) => w,
            }
        },
    }
}

/// The effect of a queue of commands, applied in order.
pub open spec fn apply_all(w: WorldView, cs: Seq<CommandView>) -> WorldView
    decreases cs.len(),
{
    if cs.len() == 0 {
        w
    } else {
        apply_command(apply_all(w, cs.drop_last()), cs.last())
    }
}

/// The enemy types of the opening wave.
pub open spec fn debug_wave_types() -> Seq<Seq<char>> {
    seq!["grunt"@, "climber"@, "grunt"@]
}

/// Spawning one enemy of a type: known types get the next id and the type's
/// full hit points; unknown types are skipped.
pub open spec fn spawn_enemy(w: WorldView, type_id: Seq<char>) -> WorldView {
    match spec_enemy_by_id(type_id) {
        None => w,
        Some(stats) => WorldView {
            next_id: saturating_inc(w.next_id),
            enemies: w.enemies.insert(
                w.next_id,
                EnemyView {
                    id: w.next_id,
                    type_id: stats.type_id@,
                    visual_key: stats.visual_key@,
                    hp_milli: stats.hp_milli,
                },
            ),
            ..w
        },
    }
}

pub open spec fn spawn_all(w: WorldView, ts: Seq<Seq<char>>) -> WorldView
    decreases ts.len(),
{
    if ts.len() == 0 {
        w
    } else {
        spawn_enemy(spawn_all(w, ts.drop_last()), ts.last())
    }
}

/// For each spawned enemy, its slot in `ts` and the id it received.
pub open spec fn spawned_slots(w: WorldView, ts: Seq<Seq<char>>) -> Seq<(usize, EntityId)>
    decreases ts.len(),
{
    if ts.len() == 0 {
        Seq::empty()
    } else if spec_enemy_by_id(ts.last()) is Some {
        spawned_slots(w, ts.drop_last()).push(
            ((ts.len() - 1) as usize, spawn_all(w, ts.drop_last()).next_id),
        )
    } else {
        spawned_slots(w, ts.drop_last())
    }
}

/// A projectile carrying `damage_milli` reaching enemy `enemy_id`: an enemy
/// left with no hit points is removed and pays the kill reward.
pub open spec fn spec_hit(w: WorldView, enemy_id: EntityId, damage_milli: u32) -> WorldView {
    if !w.enemies.contains_key(enemy_id) {
        w
    } else if w.enemies[enemy_id].hp_milli <= damage_milli {
        WorldView {
            enemies: w.enemies.remove(enemy_id),
            resources: saturating_add(w.resources, KILL_REWARD),
            events: w.events.push(GameEvent::EnemyKilled { enemy_id, reward: KILL_REWARD }),
            ..w
        }
    } else {
        WorldView {
            enemies: w.enemies.insert(
                enemy_id,
                EnemyView {
                    hp_milli: (w.enemies[enemy_id].hp_milli - damage_milli) as u32,
                    ..w.enemies[enemy_id]
                },
            ),
            ..w
        }
    }
}

/// The damage an enemy does to the castle when it gets through.
pub open spec fn breach_damage(w: WorldView, enemy_id: EntityId) -> u32 {
    if w.enemies.contains_key(enemy_id) {
        match spec_enemy_by_id(w.enemies[enemy_id].type_id) {
            Some(stats) => stats.breach_damage_milli,
            None => DEFAULT_BREACH_DAMAGE_MILLI,
        }
    } else {
        DEFAULT_BREACH_DAMAGE_MILLI
    }
}

/// An enemy reaching the end of its path: the castle loses the enemy's
/// breach damage (not below zero) and the enemy leaves the field. A castle
/// at zero ends the match as lost and pauses the game.
pub open spec fn spec_breach(w: WorldView, enemy_id: EntityId) -> WorldView {
    let damage = breach_damage(w, enemy_id);
    let hp = if w.castle_hp_milli > damage {
        (w.castle_hp_milli - damage) as u32
    } else {
        0u32
    };
    let events = w.events.push(GameEvent::Breach { damage_milli: damage, enemy_id });
    if hp == 0 {
        WorldView {
            castle_hp_milli: hp,
            enemies: w.enemies.remove(enemy_id),
            events: events.push(GameEvent::MatchEnded { won: false }),
            paused: true,
            ..w
        }
    } else {
        WorldView { castle_hp_milli: hp, enemies: w.enemies.remove(enemy_id), events: events, ..w }
    }
}

/// The state a new match starts from.
pub open spec fn initial_world() -> WorldView {
    WorldView {
        tick: 0,
        paused: false,
        castle_hp_milli: INITIAL_CASTLE_HP_MILLI,
        resources: INITIAL_RESOURCES,
        wave: 0,
        next_id: 1,
        selected_type: None,
        towers: Map::empty(),
        enemies: Map::empty(),
        commands: Seq::empty(),
        events: Seq::empty(),
        debug_spawned: false,
    }
}

/// What a caller does with a frame after `begin_tick`.
pub struct TickPlan {
    /// The enemies spawned this frame: their slot in the opening wave and their id.
    pub spawned: Vec<(usize, EntityId)>,
    /// Whether the frame runs: motion, then `end_tick`. A paused game does not.
    pub run: bool,
}

/// A placement that succeeds builds a catalog type on a wall cell.
pub proof fn lemma_placement_ok(type_id: Seq<char>, cell_x: i32, cell_z: i32, occupied: bool, resources: u32)
    ensures
        placement_outcome(type_id, cell_x, cell_z, occupied, resources) matches Ok(stats) ==> {
            &&& spec_defense_by_id(type_id) == Some(stats)
            &&& spec_defense_by_id(stats.type_id@) == Some(stats)
            &&& spec_buildable(cell_x as int, cell_z as int)
            &&& !occupied
            &&& resources >= stats.cost
        },
{
    lemma_find_defense_matches(spec_defense_catalog(), type_id);
}

/// Handing out ids keeps earlier ids issued.
pub proof fn lemma_id_issued_inc(k: EntityId, n: EntityId)
    ensures
        id_issued(k, n) ==> id_issued(k, saturating_inc(n)),
        id_issued(n, saturating_inc(n)),
{
}

/// Every queued command keeps the state invariant.
pub proof fn lemma_apply_command_inv(w: WorldView, c: CommandView)
    requires
        w.inv(),
    ensures
        apply_command(w, c).inv(),
{
    match c {
        CommandView::PlaceTower { type_id, cell_x, cell_z } => {
            if !tower_on_cell(w.towers, cell_x, cell_z) {
                let chosen = chosen_type(w, type_id);
                lemma_placement_ok(chosen, cell_x, cell_z, false, w.resources);
                match placement_outcome(chosen, cell_x, cell_z, false, w.resources) {
                    Ok(stats) => {
                        let w2 = apply_command(w, c);
                        let n = w.next_id;
                        lemma_id_issued_inc(n, n);
                        assert forall|k: EntityId| #[trigger] w2.towers.contains_key(k) implies {
                            &&& w2.towers[k].id == k
                            &&& spec_buildable(w2.towers[k].cell_x as int, w2.towers[k].cell_z as int)
                            &&& spec_defense_by_id(w2.towers[k].type_id) is Some
                            &&& id_issued(k, w2.next_id)
                        } by {
                            lemma_id_issued_inc(k, n);
                        }
                        assert forall|a: EntityId, b: EntityId|
                            w2.towers.contains_key(a) && w2.towers.contains_key(b) && a != b implies !(
                            #[trigger] w2.towers[a].cell_x == #[trigger] w2.towers[b].cell_x
                                && w2.towers[a].cell_z == w2.towers[b].cell_z) by {
                            if a == n {
                                assert(w.towers.contains_key(b));
                                if w.towers[b].cell_x == cell_x && w.towers[b].cell_z == cell_z {
                                    assert(tower_on_cell(w.towers, cell_x, cell_z));
                                }
                            } else if b == n {
                                assert(w.towers.contains_key(a));
                                if w.towers[a].cell_x == cell_x && w.towers[a].cell_z == cell_z {
                                    assert(tower_on_cell(w.towers, cell_x, cell_z));
                                }
                            } else {
                                assert(w.towers[a] == w2.towers[a]);
                                assert(w.towers[b] == w2.towers[b]);
                            }
                        }
                        assert forall|k: EntityId| #[trigger] w2.enemies.contains_key(k) implies w2.enemies[k].id == k
                            && id_issued(k, w2.next_id) by {
                            lemma_id_issued_inc(k, n);
                        }
                    },
                    Err(_) => {},
                }
            }
        },
        _ => {},
    }
}

/// A queue of commands keeps the state invariant.
pub proof fn lemma_apply_all_inv(w: WorldView, cs: Seq<CommandView>)
    requires
        w.inv(),
    ensures
        apply_all(w, cs).inv(),
    decreases cs.len(),
{
    if cs.len() > 0 {
        lemma_apply_all_inv(w, cs.drop_last());
        lemma_apply_command_inv(apply_all(w, cs.drop_last()), cs.last());
    }
}

/// Spawning keeps the state invariant.
pub proof fn lemma_spawn_all_inv(w: WorldView, ts: Seq<Seq<char>>)
    requires
        w.inv(),
    ensures
        spawn_all(w, ts).inv(),
    decreases ts.len(),
{
    if ts.len() > 0 {
        lemma_spawn_all_inv(w, ts.drop_last());
        let w1 = spawn_all(w, ts.drop_last());
        let w2 = spawn_enemy(w1, ts.last());
        if spec_enemy_by_id(ts.last()) is Some {
            let n = w1.next_id;
            lemma_id_issued_inc(n, n);
            assert forall|k: EntityId| #[trigger] w2.towers.contains_key(k) implies {
                &&& w2.towers[k].id == k
                &&& spec_buildable(w2.towers[k].cell_x as int, w2.towers[k].cell_z as int)
                &&& spec_defense_by_id(w2.towers[k].type_id) is Some
                &&& id_issued(k, w2.next_id)
            } by {
                lemma_id_issued_inc(k, n);
            }
            assert forall|k: EntityId| #[trigger] w2.enemies.contains_key(k) implies w2.enemies[k].id == k
                && id_issued(k, w2.next_id) by {
                lemma_id_issued_inc(k, n);
            }
        }
    }
}

impl World {
    /// Unique ids in each store, and the state invariant.
    pub open spec fn wf(&self) -> bool {
        &&& keys_unique(self.towers@)
        &&& keys_unique(self.enemies@)
        &&& self@.inv()
    }

    /// A new match: 100 castle hit points, 100 gold, nothing on the field.
    pub fn new() -> (r: Self)
        ensures
            r.wf(),
            r@ == initial_world(),
    {
        let r = World {
            tick: 0,
            paused: false,
            castle_hp_milli: INITIAL_CASTLE_HP_MILLI,
            resources: INITIAL_RESOURCES,
            wave: 0,
            next_id: 1,
            selected_type: None,
            towers: Vec::new(),
            enemies: Vec::new(),
            commands: Vec::new(),
            events: Vec::new(),
            debug_spawned: false,
        };
        assert(by_id(r.towers@) =~= Map::<EntityId, TowerView>::empty());
        assert(by_id(r.enemies@) =~= Map::<EntityId, EnemyView>::empty());
        assert(r.commands@.map_values(|c: Command| c@) =~= Seq::<CommandView>::empty());
        r
    }

    /// Queues a command for the next tick.
    pub fn push_command(&mut self, command: Command)
        requires
            old(self).wf(),
        ensures
            final(self).wf(),
            final(self)@ == old(self)@.with_commands(old(self)@.commands.push(command@)),
    {
        let ghost c = command@;
        self.commands.push(command);
        assert(self.commands@.map_values(|c: Command| c@) =~= old(self)@.commands.push(c));
    }

    pub fn is_paused(&self) -> (r: bool)
        ensures
            r == self@.paused,
    {
        self.paused
    }

    pub fn current_tick(&self) -> (r: u64)
        ensures
            r == self@.tick,
    {
        self.tick
    }

    pub fn resources(&self) -> (r: u32)
        ensures
            r == self@.resources,
    {
        self.resources
    }

    /// The castle's hit points, in thousandths.
    pub fn castle_hp_milli(&self) -> (r: u32)
        ensures
            r == self@.castle_hp_milli,
    {
        self.castle_hp_milli
    }

    /// Hands out the next entity id; the counter stays at `u32::MAX` once there.
    pub fn alloc_id(&mut self) -> (r: EntityId)
        requires
            old(self).wf(),
        ensures
            final(self).wf(),
            r == old(self)@.next_id,
            final(self)@ == (WorldView { next_id: saturating_inc(old(self)@.next_id), ..old(self)@ }),
    {
        let id = self.next_id;
        self.next_id = self.next_id.saturating_add(1);
        proof {
            let w = self@;
            lemma_id_issued_inc(id, id);
            assert forall|k: EntityId| #[trigger] w.towers.contains_key(k) implies id_issued(k, w.next_id) by {
                lemma_id_issued_inc(k, id);
            }
            assert forall|k: EntityId| #[trigger] w.enemies.contains_key(k) implies id_issued(k, w.next_id) by {
                lemma_id_issued_inc(k, id);
            }
        }
        id
    }

    /// Whether a tower stands on the cell.
    pub fn cell_occupied(&self, cell_x: i32, cell_z: i32) -> (r: bool)
        requires
            self.wf(),
        ensures
            r == tower_on_cell(self@.towers, cell_x, cell_z),
    {
        let mut i: usize = 0;
        while i < self.towers.len()
            invariant
                0 <= i <= self.towers@.len(),
                keys_unique(self.towers@),
                forall|j: int| 0 <= j < i ==> !(#[trigger] self.towers@[j].cell_x == cell_x
                    && self.towers@[j].cell_z == cell_z),
            decreases self.towers@.len() - i,
        {
            if self.towers[i].cell_x == cell_x && self.towers[i].cell_z == cell_z {
                proof {
                    lemma_by_id_at(self.towers@, i as int);
                    let k = self.towers@[i as int].key();
                    assert(by_id(self.towers@)[k].cell_x == cell_x);
                }
                return true;
            }
            i = i + 1;
        }
        proof {
            if tower_on_cell(self@.towers, cell_x, cell_z) {
                let k = choose|k: EntityId| #![trigger by_id(self.towers@)[k]]
                    by_id(self.towers@).contains_key(k) && by_id(self.towers@)[k].cell_x == cell_x
                        && by_id(self.towers@)[k].cell_z == cell_z;
                assert(has_key(self.towers@, k));
                let j = choose|j: int| 0 <= j < self.towers@.len() && (#[trigger] self.towers@[j].key()) == k;
                lemma_by_id_at(self.towers@, j);
                assert(self.towers@[j].cell_x == cell_x);
            }
        }
        false
    }
}

impl World {
    /// Applies one command.
    fn apply_one(&mut self, command: &Command)
        requires
            old(self).wf(),
        ensures
            final(self).wf(),
            final(self)@ == apply_command(old(self)@, command@),
    {
        proof {
            lemma_apply_command_inv(old(self)@, command@);
        }
        match command {
            Command::TogglePause => {
                self.paused = !self.paused;
                self.events.push(GameEvent::PauseChanged { paused: self.paused });
            },
            Command::SetPaused { paused } => {
                if self.paused != *paused {
                    self.paused = *paused;
                    self.events.push(GameEvent::PauseChanged { paused: *paused });
                }
            },
            Command::SelectCard { card } => {
                let type_id = normalize_card(card.as_str());
                if defense_by_id(type_id).is_some() {
                    self.selected_type = Some(type_id.to_owned());
                }
            },
            Command::PlaceTower { type_id, cell_x, cell_z } => {
                let chosen: String = if type_id.as_str().unicode_len() == 0 {
                    match &self.selected_type {
                        Some(s) => s.clone(),
                        None => String::new(),
                    }
                } else {
                    type_id.clone()
                };
                assert(chosen@ == chosen_type(old(self)@, type_id@));
                if self.cell_occupied(*cell_x, *cell_z) {
                    return;
                }
                let mut never_occupied = |_x: i32, _z: i32| -> (r: bool)
                    ensures
                        !r,
                    { false };
                let placed = try_place_tower(
                    &mut self.next_id,
                    &mut self.resources,
                    &mut never_occupied,
                    chosen.as_str(),
                    *cell_x,
                    *cell_z,
                );
                match placed {
                    Ok(tower) => {
                        upsert(&mut self.towers, tower);
                    },
                    Err(_) => {},
                }
            },
        }
    }

    /// Applies the queued commands in order and empties the queue.
    pub fn apply_commands(&mut self)
        requires
            old(self).wf(),
        ensures
            final(self).wf(),
            final(self)@ == apply_all(
                old(self)@.with_commands(Seq::empty()),
                old(self)@.commands,
            ),
            final(self)@.commands.len() == 0,
    {
        proof {
            lemma_apply_all_frame(old(self)@.with_commands(Seq::empty()), old(self)@.commands);
        }
        let mut commands: Vec<Command> = Vec::new();
        std::mem::swap(&mut commands, &mut self.commands);
        let ghost w0 = self@;
        let ghost cs = commands@.map_values(|c: Command| c@);
        assert(self.commands@.map_values(|c: Command| c@) =~= Seq::<CommandView>::empty());
        assert(w0 == old(self)@.with_commands(Seq::empty()));
        assert(cs.take(0) =~= Seq::<CommandView>::empty());
        let n = commands.len();
        let mut i: usize = 0;
        while i < n
            invariant
                n == commands@.len(),
                cs == commands@.map_values(|c: Command| c@),
                0 <= i <= n,
                self.wf(),
                self@ == apply_all(w0, cs.take(i as int)),
            decreases n - i,
        {
            self.apply_one(&commands[i]);
            assert(cs.take(i as int + 1).drop_last() =~= cs.take(i as int));
            i = i + 1;
        }
        assert(cs.take(n as int) =~= cs);
    }

    /// Spawns the opening wave: a grunt, a climber and a grunt.
    pub fn spawn_debug_enemies(&mut self) -> (r: Vec<(usize, EntityId)>)
        requires
            old(self).wf(),
        ensures
            final(self).wf(),
            final(self)@ == spawn_all(old(self)@, debug_wave_types()),
            r@ == spawned_slots(old(self)@, debug_wave_types()),
    {
        let wave: Vec<&str> = vec!["grunt", "climber", "grunt"];
        let ghost ts = wave@.map_values(|t: &str| t@);
        assert(ts =~= debug_wave_types());
        let ghost w0 = self@;
        let mut out: Vec<(usize, EntityId)> = Vec::new();
        assert(ts.take(0) =~= Seq::<Seq<char>>::empty());
        let mut i: usize = 0;
        while i < wave.len()
            invariant
                ts == wave@.map_values(|t: &str| t@),
                0 <= i <= wave@.len(),
                self.wf(),
                w0.inv(),
                self@ == spawn_all(w0, ts.take(i as int)),
                out@ == spawned_slots(w0, ts.take(i as int)),
            decreases wave@.len() - i,
        {
            assert(ts.take(i as int + 1).drop_last() =~= ts.take(i as int));
            assert(ts.take(i as int + 1).last() == wave@[i as int]@);
            proof {
                lemma_spawn_all_inv(w0, ts.take(i as int + 1));
            }
            match enemy_by_id(wave[i]) {
                Some(stats) => {
                    let id = self.alloc_id();
                    let enemy = Enemy {
                        id,
                        type_id: stats.type_id.to_owned(),
                        visual_key: stats.visual_key.to_owned(),
                        hp_milli: stats.hp_milli,
                    };
                    upsert(&mut self.enemies, enemy);
                    out.push((i, id));
                },
                None => {},
            }
            i = i + 1;
        }
        assert(ts.take(wave@.len() as int) =~= ts);
        out
    }
}

/// Commands touch only the pause flag, the selection, the gold, the id
/// counter, the towers and the events.
pub proof fn lemma_apply_all_frame(w: WorldView, cs: Seq<CommandView>)
    ensures
        apply_all(w, cs).tick == w.tick,
        apply_all(w, cs).castle_hp_milli == w.castle_hp_milli,
        apply_all(w, cs).wave == w.wave,
        apply_all(w, cs).enemies == w.enemies,
        apply_all(w, cs).commands == w.commands,
        apply_all(w, cs).debug_spawned == w.debug_spawned,
    decreases cs.len(),
{
    if cs.len() > 0 {
        lemma_apply_all_frame(w, cs.drop_last());
    }
}

/// Spawning touches only the enemies and the id counter.
pub proof fn lemma_spawn_all_frame(w: WorldView, ts: Seq<Seq<char>>)
    ensures
        spawn_all(w, ts) == (WorldView {
            next_id: spawn_all(w, ts).next_id,
            enemies: spawn_all(w, ts).enemies,
            ..w
        }),
    decreases ts.len(),
{
    if ts.len() > 0 {
        lemma_spawn_all_frame(w, ts.drop_last());
    }
}

/// A hit keeps the state invariant.
pub proof fn lemma_hit_inv(w: WorldView, enemy_id: EntityId, damage_milli: u32)
    requires
        w.inv(),
    ensures
        spec_hit(w, enemy_id, damage_milli).inv(),
{
}

/// A breach keeps the state invariant.
pub proof fn lemma_breach_inv(w: WorldView, enemy_id: EntityId)
    requires
        w.inv(),
    ensures
        spec_breach(w, enemy_id).inv(),
{
}

impl World {
    /// Reports a projectile carrying `damage_milli` reaching enemy
    /// `enemy_id`. Returns whether the enemy was killed.
    pub fn record_hit(&mut self, enemy_id: EntityId, damage_milli: u32) -> (killed: bool)
        requires
            old(self).wf(),
        ensures
            final(self).wf(),
            final(self)@ == spec_hit(old(self)@, enemy_id, damage_milli),
            killed == (old(self)@.enemies.contains_key(enemy_id)
                && old(self)@.enemies[enemy_id].hp_milli <= damage_milli),
    {
        proof {
            lemma_hit_inv(old(self)@, enemy_id, damage_milli);
        }
        match find_index(&self.enemies, enemy_id) {
            None => false,
            Some(i) => {
                proof {
                    lemma_by_id_at(self.enemies@, i as int);
                }
                let hp = self.enemies[i].hp_milli;
                if hp <= damage_milli {
                    let _ = remove_by_id(&mut self.enemies, enemy_id);
                    self.resources = self.resources.saturating_add(KILL_REWARD);
                    self.events.push(GameEvent::EnemyKilled { enemy_id, reward: KILL_REWARD });
                    true
                } else {
                    let ghost before = self.enemies@;
                    let mut e = self.enemies.remove(i);
                    e.hp_milli = hp - damage_milli;
                    self.enemies.insert(i, e);
                    proof {
                        assert(self.enemies@ =~= before.update(i as int, e));
                        lemma_by_id_update(before, i as int, e);
                        assert(e@ == (EnemyView { hp_milli: (hp - damage_milli) as u32, ..by_id(before)[enemy_id] }));
                    }
                    false
                }
            },
        }
    }

    /// Reports enemy `enemy_id` reaching the end of its path.
    pub fn record_breach(&mut self, enemy_id: EntityId)
        requires
            old(self).wf(),
        ensures
            final(self).wf(),
            final(self)@ == spec_breach(old(self)@, enemy_id),
    {
        proof {
            lemma_breach_inv(old(self)@, enemy_id);
        }
        let damage = match find_index(&self.enemies, enemy_id) {
            Some(i) => {
                proof {
                    lemma_by_id_at(self.enemies@, i as int);
                }
                match enemy_by_id(self.enemies[i].type_id.as_str()) {
                    Some(stats) => stats.breach_damage_milli,
                    None => DEFAULT_BREACH_DAMAGE_MILLI,
                }
            },
            None => DEFAULT_BREACH_DAMAGE_MILLI,
        };
        assert(damage == breach_damage(old(self)@, enemy_id));
        self.castle_hp_milli = self.castle_hp_milli.saturating_sub(damage);
        self.events.push(GameEvent::Breach { damage_milli: damage, enemy_id });
        let _ = remove_by_id(&mut self.enemies, enemy_id);
        if self.castle_hp_milli == 0 {
            self.events.push(GameEvent::MatchEnded { won: false });
            self.paused = true;
        }
    }

    /// Opens a frame: applies the queued commands, spawns the opening wave
    /// on the first frame, and says whether the frame runs.
    pub fn begin_tick(&mut self) -> (plan: TickPlan)
        requires
            old(self).wf(),
        ensures
            final(self).wf(),
            ({
                let w1 = apply_all(old(self)@.with_commands(Seq::empty()), old(self)@.commands);
                if old(self)@.debug_spawned {
                    &&& final(self)@ == w1
                    &&& plan.spawned@ == Seq::<(usize, EntityId)>::empty()
                } else {
                    &&& final(self)@ == (WorldView {
                        debug_spawned: true,
                        ..spawn_all(w1, debug_wave_types())
                    })
                    &&& plan.spawned@ == spawned_slots(w1, debug_wave_types())
                }
            }),
            plan.run == !final(self)@.paused,
            final(self)@.commands.len() == 0,
            final(self)@.debug_spawned,
            final(self)@.tick == old(self)@.tick,
    {
        proof {
            lemma_apply_all_frame(old(self)@.with_commands(Seq::empty()), old(self)@.commands);
        }
        self.apply_commands();
        proof {
            lemma_spawn_all_frame(self@, debug_wave_types());
        }
        let spawned = if !self.debug_spawned {
            let s = self.spawn_debug_enemies();
            self.debug_spawned = true;
            s
        } else {
            let s: Vec<(usize, EntityId)> = Vec::new();
            assert(s@ =~= Seq::<(usize, EntityId)>::empty());
            s
        };
        TickPlan { spawned, run: !self.paused }
    }

    /// Closes a frame that ran: the clock moves on by one (saturating).
    pub fn end_tick(&mut self)
        requires
            old(self).wf(),
        ensures
            final(self).wf(),
            final(self)@ == (WorldView { tick: saturating_inc_u64(old(self)@.tick), ..old(self)@ }),
    {
        self.tick = self.tick.saturating_add(1);
    }

    /// Hands the pending events over and clears them.
    pub fn take_events(&mut self) -> (r: Vec<GameEvent>)
        requires
            old(self).wf(),
        ensures
            final(self).wf(),
            r@ == old(self)@.events,
            final(self)@ == (WorldView { events: Seq::empty(), ..old(self)@ }),
    {
        let mut events: Vec<GameEvent> = Vec::new();
        std::mem::swap(&mut events, &mut self.events);
        events
    }
}

/// The type id a card name stands for.
pub fn normalize_card(card: &str) -> (r: &str)
    ensures
        r@ == card_type_id(card@),
{
    if str_eq(card, "cannon") || str_eq(card, "Cannon") || str_eq(card, "大砲") {
        "cannon"
    } else if str_eq(card, "archer") || str_eq(card, "Archer") || str_eq(card, "弓兵") {
        "archer"
    } else if str_eq(card, "barricade") || str_eq(card, "Barricade") || str_eq(card, "バリケード") {
        "barricade"
    } else {
        card
    }
}

} // verus!
