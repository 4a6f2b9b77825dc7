//! Core of a small fixed-rate game engine: edge-triggered input tracking,
//! a fixed-interval frame clock, the interpretation of what a screen asks the
//! loop to do next, a never-evicting resource cache, and the per-frame
//! decisions of the two screens that ship with it.

pub mod cache;
pub mod frame;
pub mod input;
pub mod menu;
pub mod ship;
