//! The decision core of zynk, a terminal multiplexer for coding agents.
//!
//! Every rule the server applies between reading an event and performing an effect lives here:
//! who may report for a pane, what a request changes, which deadline is next, where a click lands.
//! The surrounding program reads sockets, clocks and process tables, hands plain values in, and
//! carries out what comes back.

pub mod agent_view;
pub mod agents;
pub mod build_info;
pub mod build_sha;
pub mod caller;
pub mod closing;
pub mod creation;
pub mod focus;
pub mod geometry;
pub mod git_refresh;
pub mod graphics_store;
pub mod info;
pub mod input;
pub mod laws;
pub mod metadata;
pub mod moves;
pub mod pane_graphics;
pub mod paths;
pub mod receipts;
pub mod requests;
pub mod response;
pub mod runtime;
pub mod search;
pub mod session;
pub mod sidebar;
pub mod standing;
pub mod tabs;
pub mod text;
pub mod titles;
pub mod updates;
pub mod workspaces;
