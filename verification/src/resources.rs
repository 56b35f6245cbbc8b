//! The pieces of state that the frame's steps share.

use crate::fixed::Fixed;
use crate::usecases::{Document, DocumentView};
use vstd::prelude::*;

verus! {

/// How many frames have run.
#[derive(Debug)]
pub struct AppState {
    pub frames: u64,
}

impl Default for AppState {
    fn default() -> (r: AppState)
        ensures
            r.frames == 0,
    {
        AppState { frames: 0 }
    }
}

/// The document that the frame's steps read and change.
#[derive(Debug)]
pub struct CoreDoc(pub Document);

impl Default for CoreDoc {
    fn default() -> (r: CoreDoc)
        ensures
            r.0.entities@.len() == 0,
            r.0.hitboxes@.len() == 0,
            r.0.next_id == 1,
            r.0@ == DocumentView::empty(),
            r.0.well_formed(),
    {
        CoreDoc(Document::new())
    }
}

/// The size of the canvas in physical pixels.
#[derive(Debug, Clone, Copy, PartialEq, Eq, Structural)]
pub struct CanvasSize {
    pub w: u32,
    pub h: u32,
}

impl Default for CanvasSize {
    fn default() -> (r: CanvasSize)
        ensures
            r == (CanvasSize { w: 0, h: 0 }),
    {
        CanvasSize { w: 0, h: 0 }
    }
}

/// The device pixel ratio: physical pixels per CSS pixel.
#[derive(Debug, Clone, Copy, PartialEq, Eq, Structural)]
pub struct CanvasDpr(pub Fixed);

} // verus!
