//! Containers: components that own and lay out child components.
//!
//! Every container is a `Widget` variant, so a container can hold any
//! component — leaves or other containers — and the tree is walked
//! recursively for input, layout and drawing.

pub mod border;
pub mod column;
pub mod panel;
pub mod row;
