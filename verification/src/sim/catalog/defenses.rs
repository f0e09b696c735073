//! The table of defense types. A placed defense keeps only its `type_id`
//! and looks its numbers up here.
use vstd::prelude::*;

verus! {

/// The numbers of one defense type. Damage, range and cooldown are given in
/// thousandths (of a hit point, a world unit and a second).
#[derive(Debug, Clone, Copy)]
pub struct DefenseStats {
    pub type_id: &'static str,
    pub visual_key: &'static str,
    pub cost: u32,
    pub damage_milli: u32,
    pub range_milli: u32,
    pub cooldown_milli: u32,
    pub blocks_path: bool,
}

pub open spec fn spec_defense_catalog() -> Seq<DefenseStats> {
    seq![
        DefenseStats { type_id: "cannon", visual_key: "tower_cannon", cost: 40, damage_milli: 8000, range_milli: 6000, cooldown_milli: 1200, blocks_path: false },
        DefenseStats { type_id: "archer", visual_key: "tower_archer", cost: 25, damage_milli: 3000, range_milli: 8000, cooldown_milli: 450, blocks_path: false },
        DefenseStats { type_id: "barricade", visual_key: "tower_barricade", cost: 15, damage_milli: 0, range_milli: 0, cooldown_milli: 0, blocks_path: true },
        DefenseStats { type_id: "frost_archer", visual_key: "tower_frost_archer", cost: 35, damage_milli: 2500, range_milli: 9000, cooldown_milli: 550, blocks_path: false },
        DefenseStats { type_id: "mortar", visual_key: "tower_mortar", cost: 55, damage_milli: 14000, range_milli: 10000, cooldown_milli: 2000, blocks_path: false },
    ]
}

/// The defense table, in catalog order.
pub fn defense_catalog() -> (r: Vec<DefenseStats>)
    ensures
        r@ == spec_defense_catalog(),
{
    let r = vec![
        DefenseStats { type_id: "cannon", visual_key: "tower_cannon", cost: 40, damage_milli: 8000, range_milli: 6000, cooldown_milli: 1200, blocks_path: false },
        DefenseStats { type_id: "archer", visual_key: "tower_archer", cost: 25, damage_milli: 3000, range_milli: 8000, cooldown_milli: 450, blocks_path: false },
        DefenseStats { type_id: "barricade", visual_key: "tower_barricade", cost: 15, damage_milli: 0, range_milli: 0, cooldown_milli: 0, blocks_path: true },
        DefenseStats { type_id: "frost_archer", visual_key: "tower_frost_archer", cost: 35, damage_milli: 2500, range_milli: 9000, cooldown_milli: 550, blocks_path: false },
        DefenseStats { type_id: "mortar", visual_key: "tower_mortar", cost: 55, damage_milli: 14000, range_milli: 10000, cooldown_milli: 2000, blocks_path: false },
    ];
    assert(r@ =~= spec_defense_catalog());
    r
}

/// The first entry of `cat` whose `type_id` is `type_id`.
pub open spec fn find_defense(cat: Seq<DefenseStats>, type_id: Seq<char>) -> Option<DefenseStats>
    decreases cat.len(),
{
    if cat.len() == 0 {
        None
    } else if cat[0].type_id@ == type_id {
        Some(cat[0])
    } else {
        find_defense(cat.drop_first(), type_id)
    }
}

pub open spec fn spec_defense_by_id(type_id: Seq<char>) -> Option<DefenseStats> {
    find_defense(spec_defense_catalog(), type_id)
}

/// An entry found under a type id carries that type id.
pub proof fn lemma_find_defense_matches(cat: Seq<DefenseStats>, type_id: Seq<char>)
    ensures
        find_defense(cat, type_id) matches Some(x) ==> x.type_id@ == type_id,
    decreases cat.len(),
{
    if cat.len() > 0 && cat[0].type_id@ != type_id {
        lemma_find_defense_matches(cat.drop_first(), type_id);
    }
}

} // verus!
