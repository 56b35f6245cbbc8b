//! The interaction engine of a 2D scene editor, verified with Verus.
//!
//! A document holds shapes; a pointer selects them, moves them and scales
//! them by the handles of the selection. The engine takes its input through
//! queues and advances one frame at a time; what a frame does is a function
//! of the state before it, stated in full as `EngineView::step`.
//!
//! All geometry is computed in [`fixed::Fixed`], a saturating number with
//! three decimal places, so that every test of a point against a shape is
//! decided exactly and no function can fail.

pub mod bounds;
pub mod dpr;
pub mod engine;
pub mod events;
pub mod fixed;
pub mod gesture;
pub mod group;
pub mod hitbox;
pub mod lookup;
pub mod model;
pub mod pointer;
pub mod ports;
pub mod render;
pub mod resources;
pub mod selection;
pub mod systems;
pub mod usecases;
