//! Pairing anonymous visitors into short-lived two-party chat rooms.
//!
//! The crate holds the session directory, the room registry, the single
//! matchmaking slot and the idle sweep as one plain value, [`state::AppState`],
//! whose every transition is stated over a mathematical model and proved.
//!
//! - [`model`] is the state as a mathematical value and each transition as a
//!   function on it; [`laws`] and [`invariants`] prove what holds across
//!   transitions and in every reachable state.
//! - [`state`] is the executable state, [`room`], [`user`] and [`message`]
//!   are its records, and [`directory`] is the keyed collection they live in.
//! - [`ident`], [`form`] and [`clock`] are where the outside world comes in:
//!   random identifiers, submitted forms and the time of day.
//! - [`text`] and [`config`] hold the age labels and the configured limits.
pub mod clock;
pub mod config;
pub mod directory;
pub mod form;
pub mod ident;
pub mod invariants;
pub mod keys;
pub mod laws;
pub mod message;
pub mod model;
pub mod room;
pub mod state;
pub mod text;
pub mod user;
