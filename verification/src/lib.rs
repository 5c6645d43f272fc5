//! Startup plan and per-tick animation attachment for a small 3D scene viewer.
//!
//! The engine owns entities, assets and rendering. This library decides what
//! the engine is asked to do: which assets are requested and with which camera
//! and light at startup, and which animation players are claimed and started
//! on each tick.
//!
//! - `scene`: the startup plan, and the registry that is published from it.
//! - `registry`: the clips and the graph that every animated scene shares.
//! - `claims`: the entities whose player has been claimed.
//! - `poller`: one tick, which claims the players it is shown and starts the
//!   first clip on them.
//! - `run`: what a run of ticks adds up to.
//! - `engine`: the engine's types and functions that the library calls, with
//!   what is taken on trust of them.

pub mod claims;
pub mod engine;
pub mod poller;
pub mod registry;
pub mod run;
pub mod scene;
