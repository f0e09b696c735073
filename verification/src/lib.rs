//! Verified rules of a castle tower-defense simulation: the command queue,
//! tower placement and its economy, enemy hit points, castle breaches and the
//! frame clock. Movement and targeting, which work on floating-point
//! positions, live outside this crate and call into these rules.
pub mod sim;
pub mod ui;
