//! The piece catalog packaged as one lookup value.

pub mod pentomino_db;

pub use crate::data::pentomino_db::PentominoDB;
