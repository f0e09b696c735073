use tower_defense::sim::catalog::{armed_defense, defense_by_id, defense_catalog, enemy_by_id, enemy_catalog};
use tower_defense::sim::exterior::{is_buildable_cell, try_place_tower, PlaceError};
use tower_defense::sim::text::str_eq;

#[test]
fn wall_ring_cells_are_buildable() {
    assert!(is_buildable_cell(4, 0));
    assert!(is_buildable_cell(0, 4));
    assert!(is_buildable_cell(-4, -4));
    assert!(is_buildable_cell(4, -3));
    assert!(is_buildable_cell(-2, 4));
}

#[test]
fn cells_off_the_ring_are_not_buildable() {
    assert!(!is_buildable_cell(0, 0));
    assert!(!is_buildable_cell(3, 3));
    assert!(!is_buildable_cell(5, 0));
    assert!(!is_buildable_cell(4, 5));
    assert!(!is_buildable_cell(-5, -4));
    assert!(!is_buildable_cell(i32::MIN, 4));
    assert!(!is_buildable_cell(4, i32::MIN));
}

#[test]
fn defense_catalog_lookup() {
    let cannon = defense_by_id("cannon").unwrap();
    assert_eq!(cannon.cost, 40);
    assert_eq!(cannon.visual_key, "tower_cannon");
    assert_eq!(cannon.damage_milli, 8000);
    assert_eq!(cannon.range_milli, 6000);
    assert_eq!(cannon.cooldown_milli, 1200);
    assert!(!cannon.blocks_path);
    let barricade = defense_by_id("barricade").unwrap();
    assert_eq!(barricade.cost, 15);
    assert!(barricade.blocks_path);
    assert_eq!(barricade.damage_milli, 0);
    assert_eq!(defense_by_id("mortar").unwrap().cost, 55);
    assert_eq!(defense_by_id("frost_archer").unwrap().damage_milli, 2500);
    assert!(defense_by_id("Cannon").is_none());
    assert!(defense_by_id("").is_none());
    assert_eq!(defense_catalog().len(), 5);
}

#[test]
fn enemy_catalog_lookup() {
    let grunt = enemy_by_id("grunt").unwrap();
    assert_eq!(grunt.visual_key, "enemy_box");
    assert_eq!(grunt.hp_milli, 20000);
    assert_eq!(grunt.speed_milli, 2200);
    assert_eq!(grunt.breach_damage_milli, 5000);
    assert_eq!(enemy_by_id("sieger").unwrap().breach_damage_milli, 15000);
    assert!(enemy_by_id("dragon").is_none());
    assert_eq!(enemy_catalog().len(), 5);
}

#[test]
fn string_comparison() {
    assert!(str_eq("大砲", "大砲"));
    assert!(!str_eq("大砲", "弓兵"));
    assert!(!str_eq("cannon", "cannons"));
    assert!(str_eq("", ""));
}

#[test]
fn placing_a_known_type_on_a_free_wall_cell_pays_its_cost() {
    let mut next_id = 7;
    let mut resources = 100;
    let tower = try_place_tower(&mut next_id, &mut resources, &mut |_, _| false, "cannon", 4, 0).unwrap();
    assert_eq!(tower.id, 7);
    assert_eq!(tower.type_id, "cannon");
    assert_eq!(tower.visual_key, "tower_cannon");
    assert_eq!((tower.cell_x, tower.cell_z), (4, 0));
    assert_eq!(resources, 60);
    assert_eq!(next_id, 8);
}

#[test]
fn placement_errors_leave_everything_unchanged() {
    let mut next_id = 3;
    let mut resources = 100;
    let r = try_place_tower(&mut next_id, &mut resources, &mut |_, _| false, "catapult", 4, 0);
    assert_eq!(r.unwrap_err(), PlaceError::UnknownType);
    let r = try_place_tower(&mut next_id, &mut resources, &mut |_, _| false, "cannon", 0, 0);
    assert_eq!(r.unwrap_err(), PlaceError::InvalidCell);
    let r = try_place_tower(&mut next_id, &mut resources, &mut |_, _| true, "cannon", 4, 0);
    assert_eq!(r.unwrap_err(), PlaceError::Occupied);
    let mut poor = 39;
    let r = try_place_tower(&mut next_id, &mut poor, &mut |_, _| false, "cannon", 4, 0);
    assert_eq!(r.unwrap_err(), PlaceError::NotEnoughGold);
    assert_eq!(poor, 39);
    assert_eq!(resources, 100);
    assert_eq!(next_id, 3);
}

#[test]
fn placement_checks_type_before_cell_before_occupancy_before_gold() {
    let mut next_id = 1;
    let mut resources = 0;
    let mut asked = false;
    let r = try_place_tower(&mut next_id, &mut resources, &mut |_, _| { asked = true; true }, "catapult", 0, 0);
    assert_eq!(r.unwrap_err(), PlaceError::UnknownType);
    let r = try_place_tower(&mut next_id, &mut resources, &mut |_, _| { asked = true; true }, "archer", 0, 0);
    assert_eq!(r.unwrap_err(), PlaceError::InvalidCell);
    assert!(!asked);
    let r = try_place_tower(&mut next_id, &mut resources, &mut |_, _| true, "archer", 0, 4);
    assert_eq!(r.unwrap_err(), PlaceError::Occupied);
    let r = try_place_tower(&mut next_id, &mut resources, &mut |_, _| false, "archer", 0, 4);
    assert_eq!(r.unwrap_err(), PlaceError::NotEnoughGold);
}

#[test]
fn exact_gold_is_enough() {
    let mut next_id = 1;
    let mut resources = 25;
    let tower = try_place_tower(&mut next_id, &mut resources, &mut |_, _| false, "archer", -4, 2).unwrap();
    assert_eq!(tower.type_id, "archer");
    assert_eq!(resources, 0);
}

#[test]
fn the_id_counter_saturates() {
    let mut next_id = u32::MAX;
    let mut resources = 100;
    let tower = try_place_tower(&mut next_id, &mut resources, &mut |_, _| false, "barricade", 4, 4).unwrap();
    assert_eq!(tower.id, u32::MAX);
    assert_eq!(next_id, u32::MAX);
    assert_eq!(resources, 85);
}

#[test]
fn only_damaging_defenses_are_armed() {
    assert_eq!(armed_defense("cannon").unwrap().damage_milli, 8000);
    assert_eq!(armed_defense("archer").unwrap().range_milli, 8000);
    assert!(armed_defense("barricade").is_none());
    assert!(armed_defense("catapult").is_none());
}
