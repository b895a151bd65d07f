//! Stored pastes: what kind of content a paste holds.

pub mod analyzer;
