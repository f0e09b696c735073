pub mod placement;

pub use placement::{is_buildable_cell, try_place_tower, PlaceError};
