//! Command-HQ interface state, kept apart from the simulation state.
use vstd::prelude::*;

verus! {

/// The defense cards of the command HQ.
#[derive(Debug, Clone, Copy, PartialEq, Eq, Structural)]
pub enum DefenseCard {
    Cannon,
    Archer,
    Barricade,
    FrostArcher,
    Mortar,
}

pub open spec fn spec_card_label(card: DefenseCard) -> Seq<char> {
    match card {
        DefenseCard::Cannon => "大砲"@,
        DefenseCard::Archer => "弓兵"@,
        DefenseCard::Barricade => "バリケード"@,
        DefenseCard::FrostArcher => "氷弓"@,
        DefenseCard::Mortar => "迫撃砲"@,
    }
}

pub open spec fn spec_card_type_id(card: DefenseCard) -> Seq<char> {
    match card {
        DefenseCard::Cannon => "cannon"@,
        DefenseCard::Archer => "archer"@,
        DefenseCard::Barricade => "barricade"@,
        DefenseCard::FrostArcher => "frost_archer"@,
        DefenseCard::Mortar => "mortar"@,
    }
}

impl DefenseCard {
    /// The card's name as shown to the player.
    pub fn label(self) -> (r: &'static str)
        ensures
            r@ == spec_card_label(self),
    {
        match self {
            DefenseCard::Cannon => "大砲",
            DefenseCard::Archer => "弓兵",
            DefenseCard::Barricade => "バリケード",
            DefenseCard::FrostArcher => "氷弓",
            DefenseCard::Mortar => "迫撃砲",
        }
    }

    /// The defense type the card builds.
    pub fn type_id(self) -> (r: &'static str)
        ensures
            r@ == spec_card_type_id(self),
    {
        match self {
            DefenseCard::Cannon => "cannon",
            DefenseCard::Archer => "archer",
            DefenseCard::Barricade => "barricade",
            DefenseCard::FrostArcher => "frost_archer",
            DefenseCard::Mortar => "mortar",
        }
    }
}

/// The command HQ's session state: the pause display and the selected card.
/// Simulation state (hit points, enemy positions) is not kept here.
#[derive(Debug, Clone, Copy, PartialEq, Eq, Structural)]
pub struct CommandHqStore {
    pub is_paused: bool,
    pub selected_card: Option<DefenseCard>,
}

impl Default for CommandHqStore {
    fn default() -> (r: Self)
        ensures
            !r.is_paused,
            r.selected_card is None,
    {
        CommandHqStore { is_paused: false, selected_card: None }
    }
}

/// Settings that outlive a visit to the page.
#[derive(Debug, Clone, Copy, PartialEq, Eq, Structural)]
pub struct UiSettingsStore {
    pub sound_muted: bool,
}

impl Default for UiSettingsStore {
    fn default() -> (r: Self)
        ensures
            !r.sound_muted,
    {
        UiSettingsStore { sound_muted: false }
    }
}

} // verus!
