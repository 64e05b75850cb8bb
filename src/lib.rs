//! Core of a small ray tracer: shape identities, error kinds, the row-major
//! layout of square matrices, and the pixel canvas with its render loop.
//!
//! The floating-point geometry and shading sit on top of these pieces.

pub mod canvas;
pub mod error;
pub mod ident;
pub mod intersections;
pub mod layout;
