//! What the operations are for, stated of their inputs and results.
//!
//! The contracts say how each operation works. The laws here say what must come of it, in terms of
//! what goes in: who is prompted, what is drawn, when the loop wakes, what is found where.

pub mod agents;
pub mod event_loop;
pub mod git;
pub mod graphics;
pub mod handling;
pub mod layers;
pub mod lookup;
pub mod metadata;
pub mod places;
pub mod requests;
pub mod session;
pub mod sidebar;
pub mod telling;
pub mod text;
