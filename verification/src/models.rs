//! The record types of a saved game, each with its descriptor.

pub mod character;
pub mod gamestate;
pub mod realm;
pub mod variables;
