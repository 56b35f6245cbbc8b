//! Input events and the queues in which they wait for the next frame.
//!
//! Coordinates and distances in events are in CSS pixels.

use crate::fixed::Fixed;
use crate::model::HandleType;
use vstd::prelude::*;

verus! {

/// The pointer went down at `(x, y)`. With `ctrl_key` the click adds to or
/// takes from the selection; `shift_key` is carried but not yet used.
#[derive(Debug, Clone, Copy, PartialEq, Eq, Structural)]
pub struct PointerDown {
    pub x: Fixed,
    pub y: Fixed,
    pub ctrl_key: bool,
    pub shift_key: bool,
}

/// A move gesture starts at `(x, y)`.
#[derive(Debug, Clone, Copy, PartialEq, Eq, Structural)]
pub struct MoveStart {
    pub x: Fixed,
    pub y: Fixed,
}

/// The pointer is now `(dx, dy)` away from where the move gesture started.
#[derive(Debug, Clone, Copy, PartialEq, Eq, Structural)]
pub struct MoveUpdate {
    pub dx: Fixed,
    pub dy: Fixed,
}

/// The move gesture is over.
#[derive(Debug, Clone, Copy, PartialEq, Eq, Structural)]
pub struct MoveEnd;

/// A scale gesture starts on the handle `handle_type`, at `(x, y)`.
#[derive(Debug, Clone, Copy, PartialEq, Eq, Structural)]
pub struct ScaleStart {
    pub handle_type: HandleType,
    pub x: Fixed,
    pub y: Fixed,
}

/// The pointer is now `(dx, dy)` away from where the scale gesture started.
#[derive(Debug, Clone, Copy, PartialEq, Eq, Structural)]
pub struct ScaleUpdate {
    pub dx: Fixed,
    pub dy: Fixed,
}

/// The scale gesture is over.
#[derive(Debug, Clone, Copy, PartialEq, Eq, Structural)]
pub struct ScaleEnd;

/// A request for a rectangle with its corner at `(x, y)`.
#[derive(Debug, Clone, Copy, PartialEq, Eq, Structural)]
pub struct CreateRect {
    pub x: Fixed,
    pub y: Fixed,
    pub w: Fixed,
    pub h: Fixed,
}

/// A request for an ellipse centred at `(x, y)`.
#[derive(Debug, Clone, Copy, PartialEq, Eq, Structural)]
pub struct CreateEllipse {
    pub x: Fixed,
    pub y: Fixed,
    pub rx: Fixed,
    pub ry: Fixed,
}

/// A request for a line from `(x1, y1)` to `(x2, y2)`.
#[derive(Debug, Clone, Copy, PartialEq, Eq, Structural)]
pub struct CreateLine {
    pub x1: Fixed,
    pub y1: Fixed,
    pub x2: Fixed,
    pub y2: Fixed,
}

/// One queue per kind of event. Each is emptied, first in first out, once
/// per frame.
#[derive(Debug)]
pub struct InputQueue {
    pub pointer_down: Vec<PointerDown>,
    pub create_rect: Vec<CreateRect>,
    pub create_ellipse: Vec<CreateEllipse>,
    pub create_line: Vec<CreateLine>,
    pub move_start: Vec<MoveStart>,
    pub move_update: Vec<MoveUpdate>,
    pub move_end: Vec<MoveEnd>,
    pub scale_start: Vec<ScaleStart>,
    pub scale_update: Vec<ScaleUpdate>,
    pub scale_end: Vec<ScaleEnd>,
}

impl InputQueue {
    /// Nothing waits in any queue.
    pub open spec fn is_empty(&self) -> bool {
        &&& self.pointer_down@.len() == 0
        &&& self.create_rect@.len() == 0
        &&& self.create_ellipse@.len() == 0
        &&& self.create_line@.len() == 0
        &&& self.move_start@.len() == 0
        &&& self.move_update@.len() == 0
        &&& self.move_end@.len() == 0
        &&& self.scale_start@.len() == 0
        &&& self.scale_update@.len() == 0
        &&& self.scale_end@.len() == 0
    }

    /// How many requests for new entities wait.
    pub open spec fn pending_creations(&self) -> nat {
        self.create_rect@.len() + self.create_ellipse@.len() + self.create_line@.len()
    }
}

impl Default for InputQueue {
    fn default() -> (q: InputQueue)
        ensures
            q.is_empty(),
    {
        InputQueue {
            pointer_down: Vec::new(),
            create_rect: Vec::new(),
            create_ellipse: Vec::new(),
            create_line: Vec::new(),
            move_start: Vec::new(),
            move_update: Vec::new(),
            move_end: Vec::new(),
            scale_start: Vec::new(),
            scale_update: Vec::new(),
            scale_end: Vec::new(),
        }
    }
}

} // verus!
