//! A bookmark registry: links keyed by URL, each with an ordered list of
//! distinct labels, an optional selection, and two text input buffers.
//!
//! The state and its operations are modelled by [`state::StateView`], a
//! mathematical value with one spec function per operation. Every executable
//! operation of [`state::AppState`] is proved to compute exactly what the
//! model says.

pub mod text;
pub mod link;
pub mod state;
pub mod laws;
