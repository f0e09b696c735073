use vstd::prelude::*;

verus! {

/// An operation handed from the UI or the renderer to the simulation.
/// Commands are queued and applied at the start of the next tick.
#[derive(Debug, Clone)]
pub enum Command {
    /// Flip the pause flag.
    TogglePause,
    /// Set the pause flag to the given value.
    SetPaused { paused: bool },
    /// Choose the defense type used by later placements that name none.
    SelectCard { card: String },
    /// Build a defense on a wall cell. An empty `type_id` means the selected card.
    PlaceTower { type_id: String, cell_x: i32, cell_z: i32 },
}

/// A command with its strings taken as character sequences.
pub enum CommandView {
    TogglePause,
    SetPaused { paused: bool },
    SelectCard { card: Seq<char> },
    PlaceTower { type_id: Seq<char>, cell_x: i32, cell_z: i32 },
}

impl View for Command {
    type V = CommandView;

    open spec fn view(&self) -> CommandView {
        match self {
            Command::TogglePause => CommandView::TogglePause,
            Command::SetPaused { paused } => CommandView::SetPaused { paused: *paused },
            Command::SelectCard { card } => CommandView::SelectCard { card: card@ },
            Command::PlaceTower { type_id, cell_x, cell_z } => CommandView::PlaceTower {
                type_id: type_id@,
                cell_x: *cell_x,
                cell_z: *cell_z,
            },
        }
    }
}

} // verus!
