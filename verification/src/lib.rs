//! Memory-fit analysis for local language models: model metadata parsing,
//! memory and context estimates, compatibility rules and the decisions of the
//! terminal dashboard, with their contracts proved by Verus.

pub mod dune;
pub mod text;
pub mod update;
pub mod models;
pub mod hardware;
pub mod compat;
pub mod config;
pub mod app;
pub mod display;
