//! A timed, composable animation engine for discrete game-state transitions.
//!
//! A simulation emits events (a unit was created, moved, attacked, a turn
//! began or ended) together with effects attached to those events (a unit was
//! killed, an attack missed).  This crate turns such events into trees of
//! primitive timed operations (move, fade, show, hide, wait) that are advanced
//! frame by frame, report an aggregate duration for pacing, and support
//! concurrent sub-animations without blocking sequential ones.
//!
//! Time is measured in integer milliseconds; screen coordinates and color
//! channels are scaled integers, so every computation here is exact.

pub mod geom;
pub mod action;
pub mod view;
pub mod event;
pub mod scheduler;
pub mod visualize;
pub mod laws;
