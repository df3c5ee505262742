//! The decisions behind a software-rendering surface on Core Graphics.
//!
//! Frames are drawn into `IOSurface`s that the compositor reads without copying, so the surface
//! rotates through three of them. This crate holds what is decided along the way: which buffer is
//! drawn into and how old its contents are, when it is locked and unlocked, how long to wait for
//! the compositor to let go of it, with which properties a surface is made, when buffers are made
//! anew, and which commands the layer gets. Calls into the system frameworks are made by the
//! program around it: it performs what the library asks for and hands back what came of it. It also
//! decides the initial size in pixels, a product of floating-point numbers.

pub mod buffer;
pub mod cg;
pub mod layer;
pub mod observer;
pub mod properties;
pub mod ring;
pub mod session;
pub mod types;
pub mod wait;
