//! A single-player, turn-based card battle: a catalog of cards, two actors,
//! the battle state machine that resolves moves, and what a tree search
//! needs to drive it.

pub mod actor;
pub mod battle;
pub mod card;
pub mod chance;
pub mod enemy;
pub mod field;
pub mod piles;
pub mod search;
