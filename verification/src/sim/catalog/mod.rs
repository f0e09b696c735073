pub mod defenses;
pub mod enemies;

use vstd::prelude::*;
use crate::sim::text::str_eq;
pub use defenses::{defense_catalog, find_defense, lemma_find_defense_matches, spec_defense_by_id, spec_defense_catalog, DefenseStats};
pub use enemies::{enemy_by_id, find_enemy, lemma_find_enemy_matches, enemy_catalog, spec_enemy_by_id, spec_enemy_catalog, EnemyStats};

verus! {

/// Looks a defense type up by its id.
pub fn defense_by_id(type_id: &str) -> (r: Option<DefenseStats>)
    ensures
        r == spec_defense_by_id(type_id@),
{
    let cat = defense_catalog();
    assert(cat@.skip(0) =~= cat@);
    let mut i: usize = 0;
    while i < cat.len()
        invariant
            cat@ == spec_defense_catalog(),
            0 <= i <= cat@.len(),
            spec_defense_by_id(type_id@) == find_defense(cat@.skip(i as int), type_id@),
        decreases cat@.len() - i,
    {
        assert(cat@.skip(i as int)[0] == cat@[i as int]);
        if str_eq(cat[i].type_id, type_id) {
            return Some(cat[i]);
        }
        assert(cat@.skip(i as int).drop_first() =~= cat@.skip(i as int + 1));
        i = i + 1;
    }
    assert(cat@.skip(i as int).len() == 0);
    None
}

/// The stats of a defense type that can shoot: a catalog type with some
/// damage. Barricades and unknown types give `None`.
pub fn armed_defense(type_id: &str) -> (r: Option<DefenseStats>)
    ensures
        r == (match spec_defense_by_id(type_id@) {
            Some(stats) => if stats.damage_milli > 0 {
                Some(stats)
            } else {
                None
            },
            None => None,
        }),
{
    match defense_by_id(type_id) {
        Some(stats) => if stats.damage_milli > 0 {
            Some(stats)
        } else {
            None
        },
        None => None,
    }
}

} // verus!
