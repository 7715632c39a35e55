//! An in-memory, line-oriented text buffer with a clamped cursor, range
//! selection and viewport rendering: the editing core of a terminal editor.

pub mod application;
pub mod cell;
pub mod clipboard;
pub mod coord;
pub mod decimal;
pub mod direction;
pub mod editor;
pub mod grid;
pub mod laws;
pub mod model;
pub mod renderer;
pub mod strings;
pub mod vector;
