//! The engine: all state of the editor under one owner, fed through queues
//! and advanced one frame at a time.

use crate::events::{CreateEllipse, CreateLine, CreateRect, InputQueue, MoveEnd, MoveStart, MoveUpdate, PointerDown,
    ScaleEnd, ScaleStart, ScaleUpdate};
use crate::fixed::Fixed;
use crate::gesture::{MoveState, ScaleState};
use crate::group::snapshot_of;
use crate::model::{BoundingBox, EntityId, HandleType, Transform};
use crate::pointer::{detect_handle, handle_pointer_down_system, handle_under, pointer_down_all};
use crate::ports::RenderPort;
use crate::render::{frame_plan, render_system_with_selection_and_handles, DrawCommandView, RendererBox};
use crate::resources::{AppState, CanvasDpr, CanvasSize, CoreDoc};
use crate::selection::Selection;
use crate::systems::{changes_applied, ellipse_request, gesture_bounds, handle_create_ellipse_system,
    handle_create_line_system, handle_create_rect_system, handle_move_end_system, handle_move_start_system,
    handle_move_update_system, handle_scale_end_system, handle_scale_start_system, handle_scale_update_system,
    line_request, move_change, rect_request, scale_change, tick_system, with_created};
use crate::usecases::{Document, DocumentView};
use vstd::prelude::*;

verus! {

/// What a press of the pointer met, as far as it is known at once.
#[derive(Debug, Clone, Copy, PartialEq, Eq)]
pub struct PointerDownResult {
    /// The number of the handle under the pointer, if there is one.
    pub clicked_handle_type: Option<u8>,
    /// Always `false`: which entity a press selects is known after the next
    /// frame only.
    pub entity_selected: bool,
}

/// The editor: a document, a selection, the two gestures, the queues of
/// events that wait for the next frame, and the canvas.
pub struct MomentumEcsApp {
    pub state: AppState,
    pub core: CoreDoc,
    pub queue: InputQueue,
    pub selection: Selection,
    pub move_state: MoveState,
    pub scale_state: ScaleState,
    pub canvas_size: CanvasSize,
    pub canvas_dpr: CanvasDpr,
    pub renderer: Option<RendererBox>,
}

/// An engine as contracts speak of it.
pub struct EngineView {
    pub frames: u64,
    pub doc: DocumentView,
    pub pointer_down: Seq<PointerDown>,
    pub create_rect: Seq<CreateRect>,
    pub create_ellipse: Seq<CreateEllipse>,
    pub create_line: Seq<CreateLine>,
    pub move_start: Seq<MoveStart>,
    pub move_update: Seq<MoveUpdate>,
    pub move_end: Seq<MoveEnd>,
    pub scale_start: Seq<ScaleStart>,
    pub scale_update: Seq<ScaleUpdate>,
    pub scale_end: Seq<ScaleEnd>,
    pub selected: Seq<EntityId>,
    pub is_moving: bool,
    pub initial_positions: Seq<(EntityId, Transform)>,
    pub is_scaling: bool,
    pub handle_type: Option<HandleType>,
    pub initial_transforms: Seq<(EntityId, Transform)>,
    pub initial_bounds: BoundingBox,
    pub canvas_size: CanvasSize,
    pub dpr: Fixed,
    pub has_renderer: bool,
}

impl View for MomentumEcsApp {
    type V = EngineView;

    open spec fn view(&self) -> EngineView {
        EngineView {
            frames: self.state.frames,
            doc: self.core.0@,
            pointer_down: self.queue.pointer_down@,
            create_rect: self.queue.create_rect@,
            create_ellipse: self.queue.create_ellipse@,
            create_line: self.queue.create_line@,
            move_start: self.queue.move_start@,
            move_update: self.queue.move_update@,
            move_end: self.queue.move_end@,
            scale_start: self.queue.scale_start@,
            scale_update: self.queue.scale_update@,
            scale_end: self.queue.scale_end@,
            selected: self.selection.selected@,
            is_moving: self.move_state.is_moving,
            initial_positions: self.move_state.initial_positions@,
            is_scaling: self.scale_state.is_scaling,
            handle_type: self.scale_state.handle_type,
            initial_transforms: self.scale_state.initial_transforms@,
            initial_bounds: self.scale_state.initial_bounds,
            canvas_size: self.canvas_size,
            dpr: self.canvas_dpr.0,
            has_renderer: self.renderer is Some,
        }
    }
}

impl EngineView {
    /// The engine at its start: an empty document, nothing selected, no
    /// gesture under way, nothing queued, a ratio of one, no renderer.
    pub open spec fn initial() -> EngineView {
        EngineView {
            frames: 0,
            doc: DocumentView::empty(),
            pointer_down: Seq::empty(),
            create_rect: Seq::empty(),
            create_ellipse: Seq::empty(),
            create_line: Seq::empty(),
            move_start: Seq::empty(),
            move_update: Seq::empty(),
            move_end: Seq::empty(),
            scale_start: Seq::empty(),
            scale_update: Seq::empty(),
            scale_end: Seq::empty(),
            selected: Seq::empty(),
            is_moving: false,
            initial_positions: Seq::empty(),
            is_scaling: false,
            handle_type: None,
            initial_transforms: Seq::empty(),
            initial_bounds: BoundingBox::empty(),
            canvas_size: CanvasSize { w: 0, h: 0 },
            dpr: Fixed { raw: 1000 },
            has_renderer: false,
        }
    }

    /// How many requests for new entities wait.
    pub open spec fn pending_creations(self) -> nat {
        self.create_rect.len() + self.create_ellipse.len() + self.create_line.len()
    }

    /// A frame can run: the frame counter and the identifiers do not run
    /// out during it.
    pub open spec fn can_step(self) -> bool {
        self.frames < u64::MAX && self.doc.next_id + self.pending_creations() <= u64::MAX
    }

    /// The engine after one frame.
    ///
    /// The steps run in a fixed order, each on what the steps before it
    /// left: the frame is counted; the presses of the pointer are resolved;
    /// rectangles, ellipses and lines are created; the move gesture is
    /// started, updated and ended; the scale gesture is started, updated and
    /// ended, where the starts include those that the presses queued in this
    /// frame. Every queue is empty afterwards.
    pub open spec fn step(self) -> EngineView {
        let pressed = pointer_down_all(
            self.doc.entities,
            self.doc.overrides,
            self.dpr,
            self.selected,
            self.scale_start,
            self.pointer_down,
        );
        let selected = pressed.0;
        let scale_starts = pressed.1;
        let doc1 = with_created(
            with_created(
                with_created(self.doc, Seq::new(self.create_rect.len(), |k: int| rect_request(self.create_rect[k]))),
                Seq::new(self.create_ellipse.len(), |k: int| ellipse_request(self.create_ellipse[k])),
            ),
            Seq::new(self.create_line.len(), |k: int| line_request(self.create_line[k])),
        );
        let move_starts = self.move_start.len() > 0 && selected.len() > 0;
        let is_moving1 = move_starts || self.is_moving;
        let positions1 = if move_starts {
            snapshot_of(doc1.entities, selected)
        } else {
            self.initial_positions
        };
        let entities2 = if is_moving1 {
            changes_applied(
                doc1.entities,
                positions1,
                Seq::new(self.move_update.len(), |k: int| move_change(self.move_update[k], self.dpr)),
            )
        } else {
            doc1.entities
        };
        let move_ends = self.move_end.len() > 0;
        let scale_begins = scale_starts.len() > 0 && selected.len() > 0;
        let is_scaling1 = scale_begins || self.is_scaling;
        let handle1 = if scale_begins {
            Some(scale_starts.last().handle_type)
        } else {
            self.handle_type
        };
        let transforms1 = if scale_begins {
            snapshot_of(entities2, selected)
        } else {
            self.initial_transforms
        };
        let bounds1 = if scale_begins {
            gesture_bounds(entities2, selected)
        } else {
            self.initial_bounds
        };
        let entities3 = if is_scaling1 && handle1 is Some {
            changes_applied(
                entities2,
                transforms1,
                Seq::new(
                    self.scale_update.len(),
                    |k: int| scale_change(self.scale_update[k], handle1.unwrap(), bounds1),
                ),
            )
        } else {
            entities2
        };
        let scale_ends = self.scale_end.len() > 0;
        EngineView {
            frames: (self.frames + 1) as u64,
            doc: DocumentView { entities: entities3, ..doc1 },
            pointer_down: Seq::empty(),
            create_rect: Seq::empty(),
            create_ellipse: Seq::empty(),
            create_line: Seq::empty(),
            move_start: Seq::empty(),
            move_update: Seq::empty(),
            move_end: Seq::empty(),
            scale_start: Seq::empty(),
            scale_update: Seq::empty(),
            scale_end: Seq::empty(),
            selected,
            is_moving: is_moving1 && !move_ends,
            initial_positions: if move_ends {
                Seq::empty()
            } else {
                positions1
            },
            is_scaling: is_scaling1 && !scale_ends,
            handle_type: if scale_ends {
                None
            } else {
                handle1
            },
            initial_transforms: if scale_ends {
                Seq::empty()
            } else {
                transforms1
            },
            initial_bounds: bounds1,
            canvas_size: self.canvas_size,
            dpr: self.dpr,
            has_renderer: self.has_renderer,
        }
    }
}

impl Default for MomentumEcsApp {
    fn default() -> (app: MomentumEcsApp)
        ensures
            app@ == EngineView::initial(),
            app.core.0.well_formed(),
    {
        let app = MomentumEcsApp {
            state: AppState::default(),
            core: CoreDoc(Document::new()),
            queue: InputQueue::default(),
            selection: Selection::default(),
            move_state: MoveState::default(),
            scale_state: ScaleState::default(),
            canvas_size: CanvasSize::default(),
            canvas_dpr: CanvasDpr(Fixed::one()),
            renderer: None,
        };
        proof {
            assert(app@.pointer_down =~= Seq::empty());
            assert(app@.create_rect =~= Seq::empty());
            assert(app@.create_ellipse =~= Seq::empty());
            assert(app@.create_line =~= Seq::empty());
            assert(app@.move_start =~= Seq::empty());
            assert(app@.move_update =~= Seq::empty());
            assert(app@.move_end =~= Seq::empty());
            assert(app@.scale_start =~= Seq::empty());
            assert(app@.scale_update =~= Seq::empty());
            assert(app@.scale_end =~= Seq::empty());
            assert(app@.selected =~= Seq::empty());
            assert(app@.initial_positions =~= Seq::empty());
            assert(app@.initial_transforms =~= Seq::empty());
        }
        app
    }
}

impl MomentumEcsApp {
    pub fn new() -> (app: MomentumEcsApp)
        ensures
            app@ == EngineView::initial(),
            app.core.0.well_formed(),
    {
        MomentumEcsApp::default()
    }

    /// Whether a frame can run: whether [`MomentumEcsApp::run_frame`] may be
    /// called.
    pub fn can_run_frame(&self) -> (r: bool)
        ensures
            r == self@.can_step(),
    {
        let free = self.core.0.free_ids();
        let rects = self.queue.create_rect.len();
        let ellipses = self.queue.create_ellipse.len();
        let lines = self.queue.create_line.len();
        self.state.frames < u64::MAX && rects as u128 + ellipses as u128 + lines as u128 <= free as u128
    }

    /// Runs one frame: consumes every queued event and, where a renderer is
    /// attached, draws the result.
    ///
    /// The renderer receives the commands of the frame as the events left
    /// it, after what it had received before.
    pub fn run_frame(&mut self)
        requires
            old(self)@.can_step(),
        ensures
            final(self)@ == old(self)@.step(),
            final(self).core.0.hitboxes@ == old(self).core.0.hitboxes@,
            old(self).core.0.well_formed() ==> final(self).core.0.well_formed(),
            old(self).renderer is Some ==> final(self).renderer->Some_0.0.received()
                == old(self).renderer->Some_0.0.received() + final(self)@.drawn(),
    {
        tick_system(&mut self.state);
        handle_pointer_down_system(&mut self.queue, &self.core, &mut self.selection, &self.canvas_dpr);
        handle_create_rect_system(&mut self.queue, &mut self.core);
        handle_create_ellipse_system(&mut self.queue, &mut self.core);
        handle_create_line_system(&mut self.queue, &mut self.core);
        handle_move_start_system(&mut self.queue, &mut self.move_state, &self.selection, &self.core);
        handle_move_update_system(&mut self.queue, &self.move_state, &mut self.core, &self.canvas_dpr);
        handle_move_end_system(&mut self.queue, &mut self.move_state);
        handle_scale_start_system(&mut self.queue, &mut self.scale_state, &self.selection, &self.core);
        handle_scale_update_system(&mut self.queue, &self.scale_state, &mut self.core);
        handle_scale_end_system(&mut self.queue, &mut self.scale_state);
        render_system_with_selection_and_handles(
            &mut self.renderer,
            &self.canvas_size,
            &self.canvas_dpr,
            &self.core,
            &self.selection,
            &self.move_state,
        );
        proof {
            let v = old(self)@.step();
            assert(self@.pointer_down =~= v.pointer_down);
            assert(self@.create_rect =~= v.create_rect);
            assert(self@.create_ellipse =~= v.create_ellipse);
            assert(self@.create_line =~= v.create_line);
            assert(self@.move_start =~= v.move_start);
            assert(self@.move_update =~= v.move_update);
            assert(self@.move_end =~= v.move_end);
            assert(self@.scale_start =~= v.scale_start);
            assert(self@.scale_update =~= v.scale_update);
            assert(self@.scale_end =~= v.scale_end);
            assert(self@.initial_positions =~= v.initial_positions);
            assert(self@.initial_transforms =~= v.initial_transforms);
        }
    }

    /// How many frames have run.
    pub fn frames(&mut self) -> (n: u64)
        ensures
            n == old(self)@.frames,
            final(self)@ == old(self)@,
    {
        self.state.frames
    }

    /// Queues a press of the pointer without modifiers.
    pub fn send_pointer_down(&mut self, x: Fixed, y: Fixed)
        ensures
            final(self)@ == (EngineView {
                pointer_down: old(self)@.pointer_down.push(
                    PointerDown { x, y, ctrl_key: false, shift_key: false },
                ),
                ..old(self)@
            }),
    {
        self.queue.pointer_down.push(PointerDown { x, y, ctrl_key: false, shift_key: false });
    }

    /// Queues a press of the pointer and says at once which handle of the
    /// selection is under it.
    pub fn send_pointer_down_with_modifiers(&mut self, x: Fixed, y: Fixed, ctrl_key: bool, shift_key: bool) -> (r:
        PointerDownResult)
        ensures
            final(self)@ == (EngineView {
                pointer_down: old(self)@.pointer_down.push(PointerDown { x, y, ctrl_key, shift_key }),
                ..old(self)@
            }),
            r.clicked_handle_type == old(self)@.handle_code_under(x, y),
            !r.entity_selected,
    {
        let handle_clicked = self.detect_handle_click(x, y);
        self.queue.pointer_down.push(PointerDown { x, y, ctrl_key, shift_key });
        PointerDownResult { clicked_handle_type: handle_clicked, entity_selected: false }
    }

    /// The number of the handle of the selection under the CSS-pixel point
    /// `(x, y)`, if there is one.
    pub fn detect_handle_click(&mut self, x: Fixed, y: Fixed) -> (r: Option<u8>)
        ensures
            r == old(self)@.handle_code_under(x, y),
            final(self)@ == old(self)@,
    {
        match detect_handle(&self.core.0.entities, &self.selection.selected, self.canvas_dpr.0, x, y) {
            Some(handle_type) => Some(handle_type.to_u8()),
            None => None,
        }
    }

    pub fn send_create_rect(&mut self, x: Fixed, y: Fixed, w: Fixed, h: Fixed)
        ensures
            final(self)@ == (EngineView {
                create_rect: old(self)@.create_rect.push(CreateRect { x, y, w, h }),
                ..old(self)@
            }),
    {
        self.queue.create_rect.push(CreateRect { x, y, w, h });
    }

    pub fn send_create_ellipse(&mut self, x: Fixed, y: Fixed, rx: Fixed, ry: Fixed)
        ensures
            final(self)@ == (EngineView {
                create_ellipse: old(self)@.create_ellipse.push(CreateEllipse { x, y, rx, ry }),
                ..old(self)@
            }),
    {
        self.queue.create_ellipse.push(CreateEllipse { x, y, rx, ry });
    }

    pub fn send_create_line(&mut self, x1: Fixed, y1: Fixed, x2: Fixed, y2: Fixed)
        ensures
            final(self)@ == (EngineView {
                create_line: old(self)@.create_line.push(CreateLine { x1, y1, x2, y2 }),
                ..old(self)@
            }),
    {
        self.queue.create_line.push(CreateLine { x1, y1, x2, y2 });
    }

    pub fn send_move_start(&mut self, x: Fixed, y: Fixed)
        ensures
            final(self)@ == (EngineView {
                move_start: old(self)@.move_start.push(MoveStart { x, y }),
                ..old(self)@
            }),
    {
        self.queue.move_start.push(MoveStart { x, y });
    }

    pub fn send_move_update(&mut self, dx: Fixed, dy: Fixed)
        ensures
            final(self)@ == (EngineView {
                move_update: old(self)@.move_update.push(MoveUpdate { dx, dy }),
                ..old(self)@
            }),
    {
        self.queue.move_update.push(MoveUpdate { dx, dy });
    }

    pub fn send_move_end(&mut self)
        ensures
            final(self)@ == (EngineView { move_end: old(self)@.move_end.push(MoveEnd), ..old(self)@ }),
    {
        self.queue.move_end.push(MoveEnd);
    }

    pub fn send_scale_start(&mut self, handle_type: HandleType, x: Fixed, y: Fixed)
        ensures
            final(self)@ == (EngineView {
                scale_start: old(self)@.scale_start.push(ScaleStart { handle_type, x, y }),
                ..old(self)@
            }),
    {
        self.queue.scale_start.push(ScaleStart { handle_type, x, y });
    }

    pub fn send_scale_update(&mut self, dx: Fixed, dy: Fixed)
        ensures
            final(self)@ == (EngineView {
                scale_update: old(self)@.scale_update.push(ScaleUpdate { dx, dy }),
                ..old(self)@
            }),
    {
        self.queue.scale_update.push(ScaleUpdate { dx, dy });
    }

    pub fn send_scale_end(&mut self)
        ensures
            final(self)@ == (EngineView { scale_end: old(self)@.scale_end.push(ScaleEnd), ..old(self)@ }),
    {
        self.queue.scale_end.push(ScaleEnd);
    }

    /// The selected entities, in the order in which they were selected.
    pub fn get_selected_entities(&self) -> (r: Vec<EntityId>)
        ensures
            r@ == self@.selected,
    {
        self.selection.selected.clone()
    }

    pub fn is_moving(&self) -> (r: bool)
        ensures
            r == self@.is_moving,
    {
        self.move_state.is_moving
    }

    pub fn is_scaling(&self) -> (r: bool)
        ensures
            r == self@.is_scaling,
    {
        self.scale_state.is_scaling
    }

    pub fn document(&self) -> (doc: &Document)
        ensures
            *doc == self.core.0,
    {
        &self.core.0
    }

    /// Attaches `renderer` in place of the one that was attached, if any.
    pub fn set_renderer(&mut self, renderer: Box<dyn RenderPort>)
        ensures
            final(self)@ == (EngineView { has_renderer: true, ..old(self)@ }),
            final(self).renderer == Some(RendererBox(renderer)),
    {
        self.renderer = Some(RendererBox(renderer));
    }

    /// Sets the size of the canvas in physical pixels; neither side is less
    /// than one.
    pub fn set_canvas_size(&mut self, w: u32, h: u32)
        ensures
            final(self)@ == (EngineView {
                canvas_size: CanvasSize { w: if w < 1 { 1 } else { w }, h: if h < 1 { 1 } else { h } },
                ..old(self)@
            }),
    {
        self.canvas_size.w = if w < 1 { 1 } else { w };
        self.canvas_size.h = if h < 1 { 1 } else { h };
    }

    /// Sets the device pixel ratio, which is a half at least.
    pub fn set_canvas_dpr(&mut self, dpr: Fixed)
        ensures
            final(self)@ == (EngineView { dpr: dpr.spec_max(Fixed { raw: 500 }), ..old(self)@ }),
    {
        self.canvas_dpr = CanvasDpr(dpr.max(Fixed::from_raw(500)));
    }
}

impl EngineView {
    /// What a frame draws of this state: the commands that a renderer
    /// receives.
    pub open spec fn drawn(self) -> Seq<DrawCommandView> {
        frame_plan(self.canvas_size, self.dpr, self.doc.entities, self.selected, self.is_moving)
    }

    /// The number of the handle of the selection under the CSS-pixel point
    /// `(x, y)`.
    pub open spec fn handle_code_under(self, x: Fixed, y: Fixed) -> Option<u8> {
        match handle_under(self.doc.entities, self.selected, self.dpr, x, y) {
            Some(h) => Some(h.code()),
            None => None,
        }
    }
}

/// A frame that finds every queue empty counts itself and changes nothing
/// else.
pub proof fn lemma_idle_frame(v: EngineView)
    requires
        v.pointer_down.len() == 0,
        v.create_rect.len() == 0,
        v.create_ellipse.len() == 0,
        v.create_line.len() == 0,
        v.move_start.len() == 0,
        v.move_update.len() == 0,
        v.move_end.len() == 0,
        v.scale_start.len() == 0,
        v.scale_update.len() == 0,
        v.scale_end.len() == 0,
    ensures
        v.step() == (EngineView { frames: (v.frames + 1) as u64, ..v }),
{
    let after = v.step();
    assert(v.pointer_down =~= Seq::empty());
    assert(v.create_rect =~= Seq::empty());
    assert(v.create_ellipse =~= Seq::empty());
    assert(v.create_line =~= Seq::empty());
    assert(v.move_start =~= Seq::empty());
    assert(v.move_update =~= Seq::empty());
    assert(v.move_end =~= Seq::empty());
    assert(v.scale_start =~= Seq::empty());
    assert(v.scale_update =~= Seq::empty());
    assert(v.scale_end =~= Seq::empty());
    assert(after.doc.entities =~= v.doc.entities);
}

/// A frame keeps the document well formed: no two entities ever share an
/// identifier.
pub proof fn lemma_step_well_formed(v: EngineView)
    requires
        v.doc.well_formed(),
        v.can_step(),
    ensures
        v.step().doc.well_formed(),
{
    let rects = Seq::new(v.create_rect.len(), |k: int| rect_request(v.create_rect[k]));
    let ellipses = Seq::new(v.create_ellipse.len(), |k: int| ellipse_request(v.create_ellipse[k]));
    let lines = Seq::new(v.create_line.len(), |k: int| line_request(v.create_line[k]));
    let d1 = with_created(v.doc, rects);
    let d2 = with_created(d1, ellipses);
    let d3 = with_created(d2, lines);
    crate::systems::lemma_created_well_formed(v.doc, rects);
    crate::systems::lemma_created_well_formed(d1, ellipses);
    crate::systems::lemma_created_well_formed(d2, lines);
    let after = v.step();
    let selected = after.selected;
    let move_starts = v.move_start.len() > 0 && selected.len() > 0;
    let positions1 = if move_starts {
        snapshot_of(d3.entities, selected)
    } else {
        v.initial_positions
    };
    let moves = Seq::new(v.move_update.len(), |k: int| move_change(v.move_update[k], v.dpr));
    crate::systems::lemma_changes_keep_ids(d3.entities, positions1, moves);
    let entities2 = if move_starts || v.is_moving {
        changes_applied(d3.entities, positions1, moves)
    } else {
        d3.entities
    };
    let scaled = after.doc.entities;
    assert(crate::usecases::entity_ids(scaled) == crate::usecases::entity_ids(entities2)) by {
        let pressed = pointer_down_all(
            v.doc.entities,
            v.doc.overrides,
            v.dpr,
            v.selected,
            v.scale_start,
            v.pointer_down,
        );
        let scale_begins = pressed.1.len() > 0 && selected.len() > 0;
        let handle1 = if scale_begins {
            Some(pressed.1.last().handle_type)
        } else {
            v.handle_type
        };
        let transforms1 = if scale_begins {
            snapshot_of(entities2, selected)
        } else {
            v.initial_transforms
        };
        let bounds1 = if scale_begins {
            gesture_bounds(entities2, selected)
        } else {
            v.initial_bounds
        };
        if (scale_begins || v.is_scaling) && handle1 is Some {
            crate::systems::lemma_changes_keep_ids(
                entities2,
                transforms1,
                Seq::new(v.scale_update.len(), |k: int| scale_change(v.scale_update[k], handle1.unwrap(), bounds1)),
            );
        }
    }
    crate::systems::lemma_same_ids_well_formed(d3, after.doc);
}

} // verus!
