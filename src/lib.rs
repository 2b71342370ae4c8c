//! Decision-and-resolution core of a turn-based combat simulator.
//!
//! Two rosters of fighters, each carrying a prioritised list of gated rules,
//! meet in a [`fight::Fight`]. Every turn the fighters act in descending order
//! of speed: each picks the first rule whose gate holds, resolves the rule's
//! target against the current roster, and applies the consequences of its
//! action, until one side is eliminated or the turn cap is reached.

pub mod effect;
pub mod fight;
pub mod fighter;
pub mod input;
pub mod rule;
pub mod stats;
pub mod predefined;
