//! Decision engine for a tick-based territorial conquest game: it projects base
//! populations under in-flight actions, picks a target for each owned base and
//! plans at most one attack or upgrade per base and tick.
pub mod logic;
pub mod models;
