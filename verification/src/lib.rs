//! Portable building blocks for forwarding reMarkable pen input to a desktop:
//! coordinate fitting, display size parsing, eraser behaviour, configuration
//! merging and the per-frame pen event decisions, each with its contract.
pub mod arith;
pub mod config;
pub mod display;
pub mod eraser;
pub mod fit;
pub mod keys;
pub mod pen;
pub mod screen;
pub mod text;
