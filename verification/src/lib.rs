//! Structura: a retained-mode GUI widget toolkit rendered in software.
//!
//! Components (buttons, text areas) and containers (rows, columns, panels,
//! border layouts) form a widget tree that is drawn into a row-major pixel
//! buffer and driven by mouse, wheel and keyboard input. All geometry is
//! integer-valued: positions are `i64` pixel coordinates, sizes are `u32`.

pub mod app;
pub mod component;
pub mod container;
pub mod controller;
pub mod event;
pub mod font;
pub mod geometry;
pub mod primitive;
pub mod view;
pub mod widget;
pub mod window;
