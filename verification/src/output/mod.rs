//! Rendering of release notes.

pub mod markdown;
