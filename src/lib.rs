//! A branching conversation store: a tree of alternative turns between a user
//! and a character, the navigation and editing rules over it, and the decisions
//! of a streaming generation run that extends it.

pub mod message;
pub mod node;
pub mod text;
pub mod chat;
pub mod generation;
pub mod laws;
pub mod persona;
