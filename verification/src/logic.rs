//! An earlier layering of the same engine, kept for the callers that grew
//! around it: thin fronts over the shared core.

pub mod bot;
pub mod game;
pub mod id_manager;
pub mod state;
