use vstd::prelude::*;

verus! {

/// An owned event from the simulation for the UI and for effects.
/// Amounts of damage are in thousandths of a hit point.
#[derive(Debug, Clone, Copy, PartialEq, Eq, Structural)]
pub enum GameEvent {
    PauseChanged { paused: bool },
    Breach { damage_milli: u32, enemy_id: u32 },
    EnemyKilled { enemy_id: u32, reward: u32 },
    WaveCleared { wave: u32 },
    MatchEnded { won: bool },
}

} // verus!
