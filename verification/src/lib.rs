//! A reactive terminal-UI runtime core: a tree of composable UI components
//! driven by a single-writer event/action loop, rendered through a
//! double-buffered compositor.
//!
//! The core consumes an abstract event stream and produces an abstract
//! character grid; it never touches the terminal device directly.

pub mod action;
pub mod app;
pub mod buffer;
pub mod charbuf;
pub mod component;
pub mod compositor;
pub mod document;
pub mod event;
pub mod frame;
pub mod geometry;
pub mod identifier;
pub mod input;
pub mod layout;
pub mod logger;
pub mod root;
pub mod tree;

pub use geometry::{Direction, Orientation, Position, Rect};
