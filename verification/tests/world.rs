use tower_defense::sim::entity::Enemy;
use tower_defense::sim::event::GameEvent;
use tower_defense::sim::match_state::{MatchState, SceneMode};
use tower_defense::sim::waves::{total_waves, waves};
use tower_defense::sim::world::normalize_card;
use tower_defense::sim::{Command, World};
use tower_defense::ui::store::{CommandHqStore, DefenseCard, UiSettingsStore};
use tower_defense::sim::catalog::defense_by_id;

fn place(world: &mut World, type_id: &str, cell_x: i32, cell_z: i32) {
    world.push_command(Command::PlaceTower { type_id: type_id.to_string(), cell_x, cell_z });
}

#[test]
fn a_new_world_starts_with_full_castle_and_gold() {
    let world = World::new();
    assert_eq!(world.current_tick(), 0);
    assert!(!world.is_paused());
    assert_eq!(world.resources(), 100);
    assert_eq!(world.castle_hp_milli(), 100_000);
    assert!(world.towers.is_empty());
    assert!(world.enemies.is_empty());
}

#[test]
fn when_not_paused_tick_advances() {
    let mut world = World::new();
    for _ in 0..2 {
        let plan = world.begin_tick();
        assert!(plan.run);
        world.end_tick();
    }
    assert_eq!(world.current_tick(), 2);
}

#[test]
fn when_paused_via_command_tick_does_not_advance() {
    let mut world = World::new();
    world.push_command(Command::SetPaused { paused: true });
    let plan = world.begin_tick();
    assert!(!plan.run);
    assert!(world.is_paused());
    assert_eq!(world.current_tick(), 0);
    assert_eq!(world.take_events(), vec![GameEvent::PauseChanged { paused: true }]);
}

#[test]
fn the_clock_saturates() {
    let mut world = World::new();
    world.tick = u64::MAX;
    world.end_tick();
    assert_eq!(world.current_tick(), u64::MAX);
}

#[test]
fn the_first_frame_spawns_the_opening_wave_once() {
    let mut world = World::new();
    let plan = world.begin_tick();
    assert_eq!(plan.spawned, vec![(0, 1), (1, 2), (2, 3)]);
    assert_eq!(world.enemies.len(), 3);
    assert_eq!(world.enemies[0].type_id, "grunt");
    assert_eq!(world.enemies[0].hp_milli, 20000);
    assert_eq!(world.enemies[1].type_id, "climber");
    assert_eq!(world.enemies[1].visual_key, "enemy_climber");
    assert_eq!(world.enemies[2].type_id, "grunt");
    assert!(world.debug_spawned);
    let plan = world.begin_tick();
    assert!(plan.spawned.is_empty());
    assert_eq!(world.enemies.len(), 3);
}

#[test]
fn a_paused_first_frame_still_spawns() {
    let mut world = World::new();
    world.push_command(Command::TogglePause);
    let plan = world.begin_tick();
    assert!(!plan.run);
    assert_eq!(plan.spawned.len(), 3);
}

#[test]
fn when_gold_is_enough_tower_is_placed() {
    let mut world = World::new();
    place(&mut world, "cannon", 4, 0);
    world.begin_tick();
    assert_eq!(world.towers.len(), 1);
    assert_eq!(world.resources(), 60);
}

#[test]
fn when_gold_is_not_enough_tower_is_not_placed() {
    let mut world = World::new();
    world.resources = 10;
    place(&mut world, "cannon", 4, 0);
    world.begin_tick();
    assert!(world.towers.is_empty());
    assert_eq!(world.resources(), 10);
}

#[test]
fn a_second_tower_on_the_same_cell_is_refused() {
    let mut world = World::new();
    place(&mut world, "archer", 4, 1);
    place(&mut world, "barricade", 4, 1);
    place(&mut world, "barricade", 4, 2);
    world.apply_commands();
    assert_eq!(world.towers.len(), 2);
    assert_eq!(world.resources(), 100 - 25 - 15);
    assert!(world.cell_occupied(4, 1));
    assert!(world.cell_occupied(4, 2));
    assert!(!world.cell_occupied(4, 3));
    assert_eq!(world.towers[0].type_id, "archer");
}

#[test]
fn towers_off_the_wall_or_of_unknown_type_are_refused() {
    let mut world = World::new();
    place(&mut world, "cannon", 0, 0);
    place(&mut world, "catapult", 4, 0);
    world.apply_commands();
    assert!(world.towers.is_empty());
    assert_eq!(world.resources(), 100);
}

#[test]
fn a_selected_card_is_used_when_a_placement_names_no_type() {
    let mut world = World::new();
    world.push_command(Command::SelectCard { card: "大砲".to_string() });
    place(&mut world, "", -4, 0);
    world.apply_commands();
    assert_eq!(world.selected_type.as_deref(), Some("cannon"));
    assert_eq!(world.towers.len(), 1);
    assert_eq!(world.towers[0].type_id, "cannon");
    assert_eq!(world.resources(), 60);
}

#[test]
fn an_unknown_card_is_not_selected() {
    let mut world = World::new();
    world.push_command(Command::SelectCard { card: "catapult".to_string() });
    place(&mut world, "", 4, 0);
    world.apply_commands();
    assert!(world.selected_type.is_none());
    assert!(world.towers.is_empty());
}

#[test]
fn cards_select_by_type_id_and_by_name() {
    let mut world = World::new();
    world.push_command(Command::SelectCard { card: "Archer".to_string() });
    world.apply_commands();
    assert_eq!(world.selected_type.as_deref(), Some("archer"));
    world.push_command(Command::SelectCard { card: "mortar".to_string() });
    world.apply_commands();
    assert_eq!(world.selected_type.as_deref(), Some("mortar"));
    world.push_command(Command::SelectCard { card: "バリケード".to_string() });
    world.apply_commands();
    assert_eq!(world.selected_type.as_deref(), Some("barricade"));
    assert_eq!(normalize_card("弓兵"), "archer");
    assert_eq!(normalize_card("Cannon"), "cannon");
    assert_eq!(normalize_card("氷弓"), "氷弓");
}

#[test]
fn toggling_twice_restores_the_pause_flag() {
    let mut world = World::new();
    world.push_command(Command::TogglePause);
    world.push_command(Command::TogglePause);
    world.apply_commands();
    assert!(!world.is_paused());
    assert_eq!(
        world.take_events(),
        vec![GameEvent::PauseChanged { paused: true }, GameEvent::PauseChanged { paused: false }]
    );
    assert!(world.take_events().is_empty());
}

#[test]
fn setting_the_pause_to_its_value_reports_nothing() {
    let mut world = World::new();
    world.push_command(Command::SetPaused { paused: false });
    world.push_command(Command::SetPaused { paused: true });
    world.push_command(Command::SetPaused { paused: true });
    world.apply_commands();
    assert!(world.is_paused());
    assert_eq!(world.take_events(), vec![GameEvent::PauseChanged { paused: true }]);
    assert!(world.commands.is_empty());
}

#[test]
fn when_enemies_reach_end_castle_hp_decreases() {
    let mut world = World::new();
    world.begin_tick();
    assert_eq!(world.enemies.len(), 3);
    for _ in 0..10_000 {
        if world.enemies.is_empty() {
            break;
        }
        let id = world.enemies[0].id;
        world.record_breach(id);
    }
    assert!(world.castle_hp_milli() < 100_000);
    assert_eq!(world.castle_hp_milli(), 100_000 - 5000 - 4000 - 5000);
}

#[test]
fn a_breach_lowers_the_castle() {
    let mut world = World::new();
    world.begin_tick();
    world.record_breach(2);
    assert_eq!(world.castle_hp_milli(), 96_000);
    world.record_breach(1);
    assert_eq!(world.castle_hp_milli(), 91_000);
    assert_eq!(world.enemies.len(), 1);
    assert_eq!(
        world.take_events(),
        vec![
            GameEvent::Breach { damage_milli: 4000, enemy_id: 2 },
            GameEvent::Breach { damage_milli: 5000, enemy_id: 1 },
        ]
    );
    assert!(world.castle_hp_milli() < 100_000);
}

#[test]
fn an_unknown_breaching_enemy_does_default_damage() {
    let mut world = World::new();
    world.record_breach(42);
    assert_eq!(world.castle_hp_milli(), 95_000);
}

#[test]
fn a_fallen_castle_ends_the_match() {
    let mut world = World::new();
    world.begin_tick();
    world.take_events();
    world.castle_hp_milli = 3000;
    world.record_breach(3);
    assert_eq!(world.castle_hp_milli(), 0);
    assert!(world.is_paused());
    assert_eq!(
        world.take_events(),
        vec![
            GameEvent::Breach { damage_milli: 5000, enemy_id: 3 },
            GameEvent::MatchEnded { won: false },
        ]
    );
    let plan = world.begin_tick();
    assert!(!plan.run);
}

#[test]
fn when_tower_is_in_range_enemy_can_be_killed() {
    let mut world = World::new();
    world.debug_spawned = true;
    world.enemies.push(Enemy {
        id: 99,
        type_id: "grunt".into(),
        visual_key: "enemy_box".into(),
        hp_milli: 5000,
    });
    place(&mut world, "cannon", 4, 0);
    world.begin_tick();
    assert_eq!(world.resources(), 60);
    assert!(world.record_hit(99, 8000));
    assert!(world.enemies.is_empty());
    assert!(world.resources() > 60);
    assert_eq!(world.resources(), 68);
    assert_eq!(world.take_events(), vec![GameEvent::EnemyKilled { enemy_id: 99, reward: 8 }]);
}

#[test]
fn a_lesser_hit_only_wounds() {
    let mut world = World::new();
    world.begin_tick();
    assert!(!world.record_hit(1, 2500));
    assert_eq!(world.enemies[0].hp_milli, 17500);
    assert!(!world.record_hit(1, 17499));
    assert_eq!(world.enemies[0].hp_milli, 1);
    assert!(world.record_hit(1, 1));
    assert_eq!(world.enemies.len(), 2);
    assert!(!world.record_hit(1, 1000));
    assert_eq!(world.resources(), 108);
}

#[test]
fn ids_are_handed_out_in_order() {
    let mut world = World::new();
    assert_eq!(world.alloc_id(), 1);
    assert_eq!(world.alloc_id(), 2);
    place(&mut world, "archer", 4, 4);
    world.begin_tick();
    assert_eq!(world.towers[0].id, 3);
    assert_eq!(world.alloc_id(), 7);
}

#[test]
fn cards_have_labels_and_catalog_types() {
    let cards = [
        DefenseCard::Cannon,
        DefenseCard::Archer,
        DefenseCard::Barricade,
        DefenseCard::FrostArcher,
        DefenseCard::Mortar,
    ];
    let labels = ["大砲", "弓兵", "バリケード", "氷弓", "迫撃砲"];
    let ids = ["cannon", "archer", "barricade", "frost_archer", "mortar"];
    for i in 0..5 {
        assert_eq!(cards[i].label(), labels[i]);
        assert_eq!(cards[i].type_id(), ids[i]);
        assert_eq!(defense_by_id(cards[i].type_id()).unwrap().type_id, ids[i]);
    }
}

#[test]
fn stores_start_empty() {
    let hq = CommandHqStore::default();
    assert!(!hq.is_paused);
    assert!(hq.selected_card.is_none());
    assert!(!UiSettingsStore::default().sound_muted);
    assert_eq!(MatchState::default(), MatchState::Playing);
    assert_eq!(SceneMode::default(), SceneMode::Exterior);
}

#[test]
fn the_wave_table() {
    assert_eq!(total_waves(), 4);
    let w = waves();
    assert_eq!(w[0].spawns.len(), 1);
    assert_eq!(w[0].spawns[0].type_id, "grunt");
    assert_eq!(w[0].spawns[0].count, 3);
    assert_eq!(w[0].spawns[0].interval_milli, 1200);
    assert_eq!(w[3].spawns[2].type_id, "sieger");
    assert_eq!(w[3].spawns[2].count, 1);
}
