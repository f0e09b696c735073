//! Properties of the rules that span several operations.
use vstd::prelude::*;
use crate::sim::catalog::{
    find_enemy, lemma_find_defense_matches, lemma_find_enemy_matches, spec_defense_by_id,
    spec_defense_catalog, spec_enemy_by_id, spec_enemy_catalog, EnemyStats,
};
use crate::sim::command::CommandView;
use crate::sim::entity::EntityId;
use crate::sim::event::GameEvent;
use crate::sim::exterior::placement::{placed_tower, placement_outcome, saturating_inc, spec_buildable};
use crate::sim::world::{
    apply_all, apply_command, breach_damage, card_type_id, chosen_type, saturating_add,
    spawn_all, spawn_enemy, spec_breach, spec_hit, tower_on_cell, WorldView, KILL_REWARD,
};
use crate::ui::store::{spec_card_label, spec_card_type_id, DefenseCard};

verus! {

/// `SetPaused` leaves the game paused exactly as asked, and asking twice is
/// the same as asking once.
pub proof fn law_set_paused(w: WorldView, paused: bool)
    ensures
        apply_command(w, CommandView::SetPaused { paused }).paused == paused,
        apply_command(apply_command(w, CommandView::SetPaused { paused }), CommandView::SetPaused { paused })
            == apply_command(w, CommandView::SetPaused { paused }),
{
}

/// Toggling the pause twice restores the flag and reports both changes.
pub proof fn law_toggle_pause_twice(w: WorldView)
    ensures
        ({
            let w2 = apply_command(apply_command(w, CommandView::TogglePause), CommandView::TogglePause);
            &&& w2.paused == w.paused
            &&& w2.events == w.events.push(GameEvent::PauseChanged { paused: !w.paused }).push(
                GameEvent::PauseChanged { paused: w.paused },
            )
        }),
{
}

/// A placement request either changes nothing, or builds one tower under
/// the next id and takes exactly that tower's cost from the gold.
pub proof fn law_place_tower_spends_cost(w: WorldView, type_id: Seq<char>, cell_x: i32, cell_z: i32)
    ensures
        ({
            let w2 = apply_command(w, CommandView::PlaceTower { type_id, cell_x, cell_z });
            ||| w2 == w
            ||| exists|stats| #![trigger placed_tower(w.next_id, stats, cell_x, cell_z)] {
                &&& spec_defense_by_id(chosen_type(w, type_id)) == Some(stats)
                &&& w.resources >= stats.cost
                &&& w2.resources == w.resources - stats.cost
                &&& w2.towers == w.towers.insert(w.next_id, placed_tower(w.next_id, stats, cell_x, cell_z))
                &&& w2.next_id == saturating_inc(w.next_id)
            }
        }),
{
    let w2 = apply_command(w, CommandView::PlaceTower { type_id, cell_x, cell_z });
    if !tower_on_cell(w.towers, cell_x, cell_z) {
        match placement_outcome(chosen_type(w, type_id), cell_x, cell_z, false, w.resources) {
            Ok(stats) => {
                assert(w2.towers == w.towers.insert(w.next_id, placed_tower(w.next_id, stats, cell_x, cell_z)));
            },
            Err(_) => {},
        }
    }
}

/// While the id counter still counts, the id it hands out next belongs to
/// no tower and no enemy.
pub proof fn law_next_id_is_fresh(w: WorldView)
    requires
        w.inv(),
        w.next_id < u32::MAX,
    ensures
        !w.towers.contains_key(w.next_id),
        !w.enemies.contains_key(w.next_id),
{
}

/// Commands never add gold.
pub proof fn law_commands_never_add_gold(w: WorldView, cs: Seq<CommandView>)
    ensures
        apply_all(w, cs).resources <= w.resources,
    decreases cs.len(),
{
    if cs.len() > 0 {
        law_commands_never_add_gold(w, cs.drop_last());
    }
}

/// Every enemy type does some damage to the castle.
pub proof fn lemma_breach_damage_positive(cat: Seq<EnemyStats>, type_id: Seq<char>)
    requires
        forall|i: int| 0 <= i < cat.len() ==> (#[trigger] cat[i]).breach_damage_milli > 0,
    ensures
        find_enemy(cat, type_id) matches Some(s) ==> s.breach_damage_milli > 0,
    decreases cat.len(),
{
    if cat.len() > 0 {
        assert(cat[0].breach_damage_milli > 0);
        let rest = cat.drop_first();
        assert forall|i: int| 0 <= i < rest.len() implies (#[trigger] rest[i]).breach_damage_milli > 0 by {
            assert(rest[i] == cat[i + 1]);
        }
        lemma_breach_damage_positive(rest, type_id);
    }
}

/// A breach never raises the castle's hit points, and lowers them while any
/// remain.
pub proof fn law_breach_lowers_castle(w: WorldView, enemy_id: EntityId)
    ensures
        spec_breach(w, enemy_id).castle_hp_milli <= w.castle_hp_milli,
        w.castle_hp_milli > 0 ==> spec_breach(w, enemy_id).castle_hp_milli < w.castle_hp_milli,
{
    let cat = spec_enemy_catalog();
    assert forall|i: int| 0 <= i < cat.len() implies (#[trigger] cat[i]).breach_damage_milli > 0 by {}
    if w.enemies.contains_key(enemy_id) {
        lemma_breach_damage_positive(cat, w.enemies[enemy_id].type_id);
    }
    assert(breach_damage(w, enemy_id) > 0);
}

/// A castle brought to zero ends the match as lost and pauses the game.
pub proof fn law_fallen_castle_ends_match(w: WorldView, enemy_id: EntityId)
    ensures
        spec_breach(w, enemy_id).castle_hp_milli == 0 ==> {
            &&& spec_breach(w, enemy_id).paused
            &&& spec_breach(w, enemy_id).events.last() == GameEvent::MatchEnded { won: false }
        },
{
}

/// An enemy is never left on the field after it has been breached.
pub proof fn law_breached_enemy_leaves(w: WorldView, enemy_id: EntityId)
    ensures
        !spec_breach(w, enemy_id).enemies.contains_key(enemy_id),
{
}

/// A hit that takes all of an enemy's hit points removes it and pays the
/// kill reward; a lesser hit only lowers its hit points. Hits never touch
/// the castle.
pub proof fn law_hit(w: WorldView, enemy_id: EntityId, damage_milli: u32)
    requires
        w.enemies.contains_key(enemy_id),
    ensures
        w.enemies[enemy_id].hp_milli <= damage_milli ==> {
            &&& !spec_hit(w, enemy_id, damage_milli).enemies.contains_key(enemy_id)
            &&& spec_hit(w, enemy_id, damage_milli).resources == saturating_add(w.resources, KILL_REWARD)
        },
        w.enemies[enemy_id].hp_milli > damage_milli ==> {
            &&& spec_hit(w, enemy_id, damage_milli).enemies[enemy_id].hp_milli == w.enemies[enemy_id].hp_milli - damage_milli
            &&& spec_hit(w, enemy_id, damage_milli).resources == w.resources
        },
        spec_hit(w, enemy_id, damage_milli).castle_hp_milli == w.castle_hp_milli,
{
}

/// Every card builds a type that the defense catalog knows.
pub proof fn law_cards_are_in_catalog(card: DefenseCard)
    ensures
        spec_defense_by_id(spec_card_type_id(card)) matches Some(stats) && stats.type_id@ == spec_card_type_id(card),
{
    reveal_strlit("cannon");
    reveal_strlit("archer");
    reveal_strlit("barricade");
    reveal_strlit("frost_archer");
    reveal_strlit("mortar");
    let cat = spec_defense_catalog();
    reveal_with_fuel(crate::sim::catalog::find_defense, 6);
    assert(cat[0].type_id@ == "cannon"@);
    assert(cat[1].type_id@ == "archer"@);
    assert(cat[2].type_id@ == "barricade"@);
    assert(cat[3].type_id@ == "frost_archer"@);
    assert(cat[4].type_id@ == "mortar"@);
}

/// Selecting a card by its type id selects that type; the cannon, the
/// archer and the barricade can also be selected by their labels.
pub proof fn law_select_card(w: WorldView, card: DefenseCard)
    ensures
        apply_command(w, CommandView::SelectCard { card: spec_card_type_id(card) }).selected_type
            == Some(spec_card_type_id(card)),
        (card == DefenseCard::Cannon || card == DefenseCard::Archer || card == DefenseCard::Barricade)
            ==> apply_command(w, CommandView::SelectCard { card: spec_card_label(card) }).selected_type
            == Some(spec_card_type_id(card)),
{
    reveal_strlit("cannon");
    reveal_strlit("Cannon");
    reveal_strlit("大砲");
    reveal_strlit("archer");
    reveal_strlit("Archer");
    reveal_strlit("弓兵");
    reveal_strlit("barricade");
    reveal_strlit("Barricade");
    reveal_strlit("バリケード");
    reveal_strlit("frost_archer");
    reveal_strlit("mortar");
    reveal_strlit("氷弓");
    reveal_strlit("迫撃砲");
    law_cards_are_in_catalog(card);
    let names: Seq<Seq<char>> = seq![
        "cannon"@, "Cannon"@, "大砲"@, "archer"@, "Archer"@, "弓兵"@, "barricade"@, "Barricade"@,
        "バリケード"@,
    ];
    match card {
        DefenseCard::FrostArcher => {
            assert forall|i: int| 0 <= i < names.len() implies #[trigger] names[i] != "frost_archer"@ by {
                assert(names[i].len() != "frost_archer"@.len());
            }
            assert(names[0] != "frost_archer"@ && names[3] != "frost_archer"@ && names[6] != "frost_archer"@);
            assert(names[1] != "frost_archer"@ && names[4] != "frost_archer"@ && names[7] != "frost_archer"@);
            assert(names[2] != "frost_archer"@ && names[5] != "frost_archer"@ && names[8] != "frost_archer"@);
        },
        DefenseCard::Mortar => {
            assert("mortar"@ != "cannon"@) by { assert("mortar"@[0] != "cannon"@[0]); }
            assert("mortar"@ != "Cannon"@) by { assert("mortar"@[0] != "Cannon"@[0]); }
            assert("mortar"@ != "archer"@) by { assert("mortar"@[0] != "archer"@[0]); }
            assert("mortar"@ != "Archer"@) by { assert("mortar"@[0] != "Archer"@[0]); }
            assert("mortar"@.len() != "大砲"@.len());
            assert("mortar"@.len() != "弓兵"@.len());
            assert("mortar"@.len() != "barricade"@.len());
            assert("mortar"@.len() != "Barricade"@.len());
            assert("mortar"@.len() != "バリケード"@.len());
        },
        DefenseCard::Cannon => {
            assert("大砲"@.len() != "archer"@.len());
        },
        DefenseCard::Archer => {
            assert("archer"@ != "cannon"@) by { assert("archer"@[0] != "cannon"@[0]); }
            assert("archer"@ != "Cannon"@) by { assert("archer"@[0] != "Cannon"@[0]); }
            assert("archer"@.len() != "大砲"@.len());
            assert("Archer"@ != "cannon"@) by { assert("Archer"@[0] != "cannon"@[0]); }
            assert("Archer"@ != "Cannon"@) by { assert("Archer"@[0] != "Cannon"@[0]); }
            assert("Archer"@.len() != "大砲"@.len());
            assert("弓兵"@ != "大砲"@) by { assert("弓兵"@[0] != "大砲"@[0]); }
            assert("弓兵"@.len() != "cannon"@.len());
            assert("弓兵"@.len() != "Cannon"@.len());
        },
        DefenseCard::Barricade => {
            assert("barricade"@.len() != "cannon"@.len());
            assert("barricade"@.len() != "Cannon"@.len());
            assert("barricade"@.len() != "大砲"@.len());
            assert("barricade"@.len() != "archer"@.len());
            assert("barricade"@.len() != "Archer"@.len());
            assert("barricade"@.len() != "弓兵"@.len());
            assert("バリケード"@.len() != "cannon"@.len());
            assert("バリケード"@.len() != "Cannon"@.len());
            assert("バリケード"@.len() != "大砲"@.len());
            assert("バリケード"@.len() != "archer"@.len());
            assert("バリケード"@.len() != "Archer"@.len());
            assert("バリケード"@.len() != "弓兵"@.len());
        },
    }
}

/// A placement that names a type builds exactly that type, whatever card is
/// selected: it only ever changes the gold by taking that type's cost and
/// building a tower of that type under the next id, and it does so whenever
/// the type is known, the cell is a free wall cell and the gold suffices.
pub proof fn law_place_tower_builds_named_type(w: WorldView, type_id: Seq<char>, cell_x: i32, cell_z: i32)
    requires
        type_id.len() > 0,
    ensures
        ({
            let w2 = apply_command(w, CommandView::PlaceTower { type_id, cell_x, cell_z });
            &&& w2.resources != w.resources ==> {
                &&& spec_defense_by_id(type_id) matches Some(s)
                &&& w2.resources == w.resources - s.cost
                &&& w2.towers.contains_key(w.next_id)
                &&& w2.towers[w.next_id].type_id == type_id
                &&& w2.towers[w.next_id].cell_x == cell_x
                &&& w2.towers[w.next_id].cell_z == cell_z
            }
            &&& (spec_defense_by_id(type_id) is Some && spec_buildable(cell_x as int, cell_z as int)
                && !tower_on_cell(w.towers, cell_x, cell_z) && w.resources
                >= spec_defense_by_id(type_id).unwrap().cost) ==> {
                &&& w2.resources == w.resources - spec_defense_by_id(type_id).unwrap().cost
                &&& w2.towers.contains_key(w.next_id)
                &&& w2.towers[w.next_id].type_id == type_id
            }
        }),
{
    lemma_find_defense_matches(spec_defense_catalog(), type_id);
}

/// A placement that names no type builds the selected card's type, and
/// builds nothing when no card is selected.
pub proof fn law_place_tower_uses_selection(w: WorldView, cell_x: i32, cell_z: i32)
    ensures
        ({
            let w2 = apply_command(w, CommandView::PlaceTower { type_id: Seq::empty(), cell_x, cell_z });
            &&& w.selected_type is None ==> w2 == w
            &&& w.selected_type matches Some(t) ==> (w2.resources != w.resources ==> {
                &&& spec_defense_by_id(t) matches Some(s)
                &&& w2.resources == w.resources - s.cost
                &&& w2.towers.contains_key(w.next_id)
                &&& w2.towers[w.next_id].type_id == t
            })
        }),
{
    reveal_with_fuel(crate::sim::catalog::find_defense, 6);
    let e: Seq<char> = Seq::empty();
    reveal_strlit("cannon");
    reveal_strlit("archer");
    reveal_strlit("barricade");
    reveal_strlit("frost_archer");
    reveal_strlit("mortar");
    let cat = spec_defense_catalog();
    assert(cat[0].type_id@ != e && cat[1].type_id@ != e && cat[2].type_id@ != e);
    assert(cat[3].type_id@ != e && cat[4].type_id@ != e);
    if let Some(t) = w.selected_type {
        lemma_find_defense_matches(spec_defense_catalog(), t);
    }
}

/// The wall ring: a cell is buildable exactly when one coordinate is 4 or
/// -4 and the other lies between -4 and 4. The ring is symmetric under
/// mirroring either axis and under swapping the axes.
pub proof fn law_wall_ring(x: int, z: int)
    ensures
        spec_buildable(x, z) <==> (((x == 4 || x == -4) && -4 <= z <= 4) || ((z == 4 || z == -4) && -4 <= x <= 4)),
        spec_buildable(x, z) == spec_buildable(x, -z),
        spec_buildable(x, z) == spec_buildable(-x, z),
        spec_buildable(x, z) == spec_buildable(z, x),
{
}

/// A name with its first letter made upper case (for lower-case ASCII).
pub open spec fn capitalized(s: Seq<char>) -> Seq<char> {
    if s.len() == 0 {
        s
    } else {
        s.update(0, ((s[0] as int) - 32) as char)
    }
}

/// The cannon, the archer and the barricade are selected by their type id,
/// by that id capitalized, and by their label, each giving the type id.
pub proof fn law_card_names(w: WorldView, card: DefenseCard)
    requires
        card == DefenseCard::Cannon || card == DefenseCard::Archer || card == DefenseCard::Barricade,
    ensures
        card_type_id(spec_card_type_id(card)) == spec_card_type_id(card),
        card_type_id(capitalized(spec_card_type_id(card))) == spec_card_type_id(card),
        card_type_id(spec_card_label(card)) == spec_card_type_id(card),
        apply_command(w, CommandView::SelectCard { card: capitalized(spec_card_type_id(card)) }).selected_type
            == Some(spec_card_type_id(card)),
{
    reveal_strlit("cannon");
    reveal_strlit("Cannon");
    reveal_strlit("大砲");
    reveal_strlit("archer");
    reveal_strlit("Archer");
    reveal_strlit("弓兵");
    reveal_strlit("barricade");
    reveal_strlit("Barricade");
    reveal_strlit("バリケード");
    law_select_card(w, card);
    match card {
        DefenseCard::Cannon => {
            assert(capitalized("cannon"@) =~= "Cannon"@);
        },
        DefenseCard::Archer => {
            assert(capitalized("archer"@) =~= "Archer"@);
            assert("Archer"@ != "cannon"@) by { assert("Archer"@[0] != "cannon"@[0]); }
            assert("Archer"@ != "Cannon"@) by { assert("Archer"@[0] != "Cannon"@[0]); }
            assert("Archer"@.len() != "大砲"@.len());
        },
        _ => {
            assert(capitalized("barricade"@) =~= "Barricade"@);
            assert("Barricade"@.len() != "cannon"@.len());
            assert("Barricade"@.len() != "Cannon"@.len());
            assert("Barricade"@.len() != "大砲"@.len());
            assert("Barricade"@.len() != "archer"@.len());
            assert("Barricade"@.len() != "Archer"@.len());
            assert("Barricade"@.len() != "弓兵"@.len());
        },
    }
}

/// A breach that leaves the castle standing only lowers its hit points by
/// the enemy type's breach damage and reports the breach: the pause flag
/// is untouched and no match end is reported. The match ends exactly when
/// the castle reaches zero.
pub proof fn law_breach_of_standing_castle(w: WorldView, enemy_id: EntityId)
    ensures
        ({
            let w2 = spec_breach(w, enemy_id);
            let d = breach_damage(w, enemy_id);
            &&& w2.castle_hp_milli == (if w.castle_hp_milli > d { w.castle_hp_milli - d } else { 0 })
            &&& w2.castle_hp_milli > 0 ==> {
                &&& w2.paused == w.paused
                &&& w2.events == w.events.push(GameEvent::Breach { damage_milli: d, enemy_id })
            }
            &&& w2.castle_hp_milli == 0 ==> w2.paused && w2.events == w.events.push(
                GameEvent::Breach { damage_milli: d, enemy_id },
            ).push(GameEvent::MatchEnded { won: false })
            &&& (w.enemies.contains_key(enemy_id) && spec_enemy_by_id(w.enemies[enemy_id].type_id) is Some)
                ==> d == spec_enemy_by_id(w.enemies[enemy_id].type_id).unwrap().breach_damage_milli
        }),
{
}

/// Every enemy a spawn adds starts with the full hit points and the look of
/// its catalog type; enemies already on the field are otherwise untouched.
pub proof fn law_spawned_enemies_have_full_hp(w: WorldView, ts: Seq<Seq<char>>)
    ensures
        forall|k: EntityId| #[trigger] spawn_all(w, ts).enemies.contains_key(k) ==> {
            ||| w.enemies.contains_key(k) && spawn_all(w, ts).enemies[k] == w.enemies[k]
            ||| spec_enemy_by_id(spawn_all(w, ts).enemies[k].type_id) matches Some(s) && {
                &&& spawn_all(w, ts).enemies[k].hp_milli == s.hp_milli
                &&& spawn_all(w, ts).enemies[k].visual_key == s.visual_key@
            }
        },
    decreases ts.len(),
{
    if ts.len() > 0 {
        law_spawned_enemies_have_full_hp(w, ts.drop_last());
        let w1 = spawn_all(w, ts.drop_last());
        let t = ts.last();
        lemma_find_enemy_matches(spec_enemy_catalog(), t);
        if let Some(s) = spec_enemy_by_id(t) {
            lemma_find_enemy_matches(spec_enemy_catalog(), s.type_id@);
            assert(spawn_enemy(w1, t).enemies[w1.next_id].type_id == s.type_id@);
        }
        assert forall|k: EntityId| #[trigger] spawn_all(w, ts).enemies.contains_key(k) implies {
            ||| w.enemies.contains_key(k) && spawn_all(w, ts).enemies[k] == w.enemies[k]
            ||| spec_enemy_by_id(spawn_all(w, ts).enemies[k].type_id) matches Some(s) && {
                &&& spawn_all(w, ts).enemies[k].hp_milli == s.hp_milli
                &&& spawn_all(w, ts).enemies[k].visual_key == s.visual_key@
            }
        } by {
            assert(w1.enemies.contains_key(k) || k == w1.next_id);
            if k != w1.next_id || spec_enemy_by_id(t) is None {
                assert(w1.enemies.contains_key(k));
            }
        }
    }
}

} // verus!
