//! Shared interface types of the gammon arcade (game stand protocol, point of
//! sale protocols, transaction ledger values) and the state machine of the game
//! stand payment simulator that serves the stand protocol.
pub mod interface;
pub mod republish;
pub mod stand_sim;
pub mod text;
