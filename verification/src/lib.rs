//! Zestien: the engine of a terminal hex editor.
//!
//! The crate holds the editable byte buffer, the nybble cursor, the scrolling
//! viewport and the generation of the styled hex/ASCII grid, each with a
//! machine-checked contract.

pub mod cell;
pub mod text;
pub mod error;
pub mod buffer;
pub mod cursor;
pub mod viewport;
pub mod render;
pub mod styling;
pub mod event;
pub mod view;
