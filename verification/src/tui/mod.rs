//! Terminal presentation helpers.

pub mod animations;
pub mod layout;
pub mod widgets;
