//! Theming: quotes and terminology.
pub mod quotes;
pub mod terminology;
