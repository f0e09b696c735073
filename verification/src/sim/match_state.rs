use vstd::prelude::*;

verus! {

/// The phase of a match.
#[derive(Debug, Clone, Copy, PartialEq, Eq, Structural)]
pub enum MatchState {
    Playing,
    Paused,
    /// Fighting inside the castle after the wall was breached.
    Interior,
    Won,
    Lost,
}

impl Default for MatchState {
    fn default() -> (r: Self)
        ensures
            r == MatchState::Playing,
    {
        MatchState::Playing
    }
}

/// Which scene the renderer shows.
#[derive(Debug, Clone, Copy, PartialEq, Eq, Structural)]
pub enum SceneMode {
    Exterior,
    Interior,
}

impl Default for SceneMode {
    fn default() -> (r: Self)
        ensures
            r == SceneMode::Exterior,
    {
        SceneMode::Exterior
    }
}

} // verus!
