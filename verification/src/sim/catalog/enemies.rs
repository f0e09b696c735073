//! The table of enemy types.
use vstd::prelude::*;
use crate::sim::text::str_eq;

verus! {

/// The numbers of one enemy type. Hit points, speed and the damage done to
/// the castle on a breach are given in thousandths.
#[derive(Debug, Clone, Copy)]
pub struct EnemyStats {
    pub type_id: &'static str,
    pub visual_key: &'static str,
    pub hp_milli: u32,
    pub speed_milli: u32,
    pub breach_damage_milli: u32,
}

pub open spec fn spec_enemy_catalog() -> Seq<EnemyStats> {
    seq![
        EnemyStats { type_id: "grunt", visual_key: "enemy_box", hp_milli: 20000, speed_milli: 2200, breach_damage_milli: 5000 },
        EnemyStats { type_id: "climber", visual_key: "enemy_climber", hp_milli: 14000, speed_milli: 3000, breach_damage_milli: 4000 },
        EnemyStats { type_id: "armored", visual_key: "enemy_armored", hp_milli: 45000, speed_milli: 1400, breach_damage_milli: 8000 },
        EnemyStats { type_id: "raider", visual_key: "enemy_raider", hp_milli: 12000, speed_milli: 4200, breach_damage_milli: 3000 },
        EnemyStats { type_id: "sieger", visual_key: "enemy_sieger", hp_milli: 60000, speed_milli: 1100, breach_damage_milli: 15000 },
    ]
}

/// The enemy table, in catalog order.
pub fn enemy_catalog() -> (r: Vec<EnemyStats>)
    ensures
        r@ == spec_enemy_catalog(),
{
    let r = vec![
        EnemyStats { type_id: "grunt", visual_key: "enemy_box", hp_milli: 20000, speed_milli: 2200, breach_damage_milli: 5000 },
        EnemyStats { type_id: "climber", visual_key: "enemy_climber", hp_milli: 14000, speed_milli: 3000, breach_damage_milli: 4000 },
        EnemyStats { type_id: "armored", visual_key: "enemy_armored", hp_milli: 45000, speed_milli: 1400, breach_damage_milli: 8000 },
        EnemyStats { type_id: "raider", visual_key: "enemy_raider", hp_milli: 12000, speed_milli: 4200, breach_damage_milli: 3000 },
        EnemyStats { type_id: "sieger", visual_key: "enemy_sieger", hp_milli: 60000, speed_milli: 1100, breach_damage_milli: 15000 },
    ];
    assert(r@ =~= spec_enemy_catalog());
    r
}

/// The first entry of `cat` whose `type_id` is `type_id`.
pub open spec fn find_enemy(cat: Seq<EnemyStats>, type_id: Seq<char>) -> Option<EnemyStats>
    decreases cat.len(),
{
    if cat.len() == 0 {
        None
    } else if cat[0].type_id@ == type_id {
        Some(cat[0])
    } else {
        find_enemy(cat.drop_first(), type_id)
    }
}

pub open spec fn spec_enemy_by_id(type_id: Seq<char>) -> Option<EnemyStats> {
    find_enemy(spec_enemy_catalog(), type_id)
}

/// An entry found under a type id carries that type id.
pub proof fn lemma_find_enemy_matches(cat: Seq<EnemyStats>, type_id: Seq<char>)
    ensures
        find_enemy(cat, type_id) matches Some(x) ==> x.type_id@ == type_id,
    decreases cat.len(),
{
    if cat.len() > 0 && cat[0].type_id@ != type_id {
        lemma_find_enemy_matches(cat.drop_first(), type_id);
    }
}

/// Looks an enemy type up by its id.
pub fn enemy_by_id(type_id: &str) -> (r: Option<EnemyStats>)
    ensures
        r == spec_enemy_by_id(type_id@),
{
    let cat = enemy_catalog();
    assert(cat@.skip(0) =~= cat@);
    let mut i: usize = 0;
    while i < cat.len()
        invariant
            cat@ == spec_enemy_catalog(),
            0 <= i <= cat@.len(),
            spec_enemy_by_id(type_id@) == find_enemy(cat@.skip(i as int), type_id@),
        decreases cat@.len() - i,
    {
        assert(cat@.skip(i as int)[0] == cat@[i as int]);
        if str_eq(cat[i].type_id, type_id) {
            return Some(cat[i]);
        }
        assert(cat@.skip(i as int).drop_first() =~= cat@.skip(i as int + 1));
        i = i + 1;
    }
    assert(cat@.skip(i as int).len() == 0);
    None
}

} // verus!
