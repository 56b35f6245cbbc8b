//! What a frame draws: the entities in paint order, the selected ones
//! highlighted, and the handles of the selection.
//!
//! The frame is first laid out as a list of commands, which says exactly
//! what is drawn; the commands are then handed to the renderer one by one.

use crate::bounds::handles_of;
use crate::dpr::{physical_box, physical_position, physical_shape, physical_style, to_physical_box,
    to_physical_position, to_physical_shape, to_physical_style};
use crate::fixed::Fixed;
use crate::gesture::MoveState;
use crate::group::{combined_bounds, combined_box};
use crate::model::{Color, EntityId, ScaleHandle, Shape, ShapeView, Style, StyleView, Transform};
use crate::pointer::handle_side;
use crate::ports::RenderPort;
use crate::resources::{CanvasDpr, CanvasSize, CoreDoc};
use crate::selection::Selection;
use crate::usecases::EntityView;
use vstd::prelude::*;

verus! {

/// The renderer that is attached to an engine.
pub struct RendererBox(pub Box<dyn RenderPort>);

/// One call on the renderer.
#[derive(Debug)]
pub enum DrawCommand {
    BeginFrame { width: u32, height: u32 },
    Shape { transform: Transform, shape: Shape, style: Style },
    Handle(ScaleHandle),
    EndFrame,
}

/// A [`DrawCommand`] with its shape and style by their views.
pub enum DrawCommandView {
    BeginFrame { width: u32, height: u32 },
    Shape { transform: Transform, shape: ShapeView, style: StyleView },
    Handle(ScaleHandle),
    EndFrame,
}

impl View for DrawCommand {
    type V = DrawCommandView;

    open spec fn view(&self) -> DrawCommandView {
        match *self {
            DrawCommand::BeginFrame { width, height } => DrawCommandView::BeginFrame { width, height },
            DrawCommand::Shape { transform, shape, style } => DrawCommandView::Shape {
                transform,
                shape: shape@,
                style: style@,
            },
            DrawCommand::Handle(h) => DrawCommandView::Handle(h),
            DrawCommand::EndFrame => DrawCommandView::EndFrame,
        }
    }
}

/// The views of a list of commands, in order.
pub open spec fn command_views(commands: Seq<DrawCommand>) -> Seq<DrawCommandView> {
    Seq::new(commands.len(), |i: int| commands[i]@)
}

/// The stroke that marks a selected entity: blue, and three CSS pixels wide
/// at least.
pub open spec fn highlighted(style: StyleView, dpr: Fixed) -> StyleView {
    StyleView {
        stroke_width: style.stroke_width.spec_max((Fixed { raw: 3000 }).spec_mul(dpr)),
        stroke: Some(Color(Fixed { raw: 0 }, Fixed { raw: 400 }, Fixed { raw: 800 }, Fixed { raw: 1000 })),
        ..style
    }
}

/// The command that draws one entity: its position, its shape and the
/// measures of its style in physical pixels, highlighted if it is selected.
pub open spec fn entity_command(e: EntityView, selected: Seq<EntityId>, dpr: Fixed) -> DrawCommandView {
    let style = physical_style(e.2, dpr);
    DrawCommandView::Shape {
        transform: physical_position(e.1, dpr),
        shape: physical_shape(e.3, dpr),
        style: if selected.contains(e.0) {
            highlighted(style, dpr)
        } else {
            style
        },
    }
}

/// The handles that a frame shows: those around the box of the selection,
/// in physical pixels, unless a move gesture is under way or the document
/// holds none of the selected entities.
pub open spec fn shown_handles(entities: Seq<EntityView>, selected: Seq<EntityId>, dpr: Fixed, is_moving: bool) -> Seq<
    ScaleHandle,
> {
    if is_moving {
        Seq::empty()
    } else {
        match combined_box(entities, selected) {
            Some(b) => handles_of(physical_box(b, dpr), handle_side(dpr)),
            None => Seq::empty(),
        }
    }
}

/// The commands of one frame: the frame is begun at the size of the canvas,
/// every entity is drawn in paint order, the handles are drawn, and the
/// frame is ended.
pub open spec fn frame_plan(
    size: CanvasSize,
    dpr: Fixed,
    entities: Seq<EntityView>,
    selected: Seq<EntityId>,
    is_moving: bool,
) -> Seq<DrawCommandView> {
    let handles = shown_handles(entities, selected, dpr, is_moving);
    seq![DrawCommandView::BeginFrame { width: size.w, height: size.h }] + Seq::new(
        entities.len(),
        |i: int| entity_command(entities[i], selected, dpr),
    ) + Seq::new(handles.len(), |i: int| DrawCommandView::Handle(handles[i])) + seq![DrawCommandView::EndFrame]
}

/// The view of a list with one more command is the view of the list with
/// the view of that command.
pub proof fn lemma_views_push(commands: Seq<DrawCommand>, command: DrawCommand)
    ensures
        command_views(commands.push(command)) == command_views(commands).push(command@),
{
    assert(command_views(commands.push(command)) =~= command_views(commands).push(command@));
}

/// Lays out the commands of one frame.
#[verifier::loop_isolation(false)]
pub fn plan_frame(size: &CanvasSize, dpr: &CanvasDpr, core: &CoreDoc, selection: &Selection, move_state: &MoveState) -> (plan:
    Vec<DrawCommand>)
    ensures
        command_views(plan@) == frame_plan(
            *size,
            dpr.0,
            core.0@.entities,
            selection.selected@,
            move_state.is_moving,
        ),
{
    let ghost entities = core.0@.entities;
    let ghost selected = selection.selected@;
    let ghost handles_shown = shown_handles(entities, selected, dpr.0, move_state.is_moving);
    let ghost head = seq![DrawCommandView::BeginFrame { width: size.w, height: size.h }];
    let ghost shapes = Seq::new(entities.len(), |i: int| entity_command(entities[i], selected, dpr.0));
    let mut plan: Vec<DrawCommand> = Vec::new();
    plan.push(DrawCommand::BeginFrame { width: size.w, height: size.h });
    let mut i: usize = 0;
    while i < core.0.entities.len()
        invariant
            i <= core.0.entities.len(),
            command_views(plan@) =~= head + shapes.take(i as int),
        decreases core.0.entities.len() - i,
    {
        let id = core.0.entities[i].0;
        let t = to_physical_position(&core.0.entities[i].1, dpr.0);
        let s_shape = to_physical_shape(&core.0.entities[i].3, dpr.0);
        let mut s = to_physical_style(&core.0.entities[i].2, dpr.0);
        if selection.is_selected(id) {
            s.stroke_width = s.stroke_width.max(Fixed::from_raw(3000).mul(dpr.0));
            s.stroke = Some(Color(Fixed::zero(), Fixed::from_raw(400), Fixed::from_raw(800), Fixed::from_raw(1000)));
        }
        let command = DrawCommand::Shape { transform: t, shape: s_shape, style: s };
        assert(command@ == shapes[i as int]);
        proof {
            lemma_views_push(plan@, command);
            assert((head + shapes.take(i as int)).push(shapes[i as int]) =~= head + shapes.take(i + 1));
        }
        plan.push(command);
        i += 1;
    }
    assert(shapes.take(i as int) =~= shapes);
    let ghost body = command_views(plan@);
    if !move_state.is_moving && selection.selected.len() > 0 {
        match combined_bounds(&core.0.entities, &selection.selected) {
            Some(bounds) => {
                let combined_bbox = to_physical_box(&bounds, dpr.0);
                let handle_size = Fixed::from_raw(10000).mul(dpr.0);
                let handles = combined_bbox.generate_handles(handle_size);
                let mut k: usize = 0;
                while k < handles.len()
                    invariant
                        k <= handles.len(),
                        handles@ == handles_shown,
                        command_views(plan@) =~= body + Seq::new(
                            k as nat,
                            |i: int| DrawCommandView::Handle(handles_shown[i]),
                        ),
                    decreases handles.len() - k,
                {
                    proof {
                        lemma_views_push(plan@, DrawCommand::Handle(handles[k as int]));
                        assert((body + Seq::new(k as nat, |i: int| DrawCommandView::Handle(handles_shown[i]))).push(
                            DrawCommandView::Handle(handles_shown[k as int]),
                        ) =~= body + Seq::new((k + 1) as nat, |i: int| DrawCommandView::Handle(handles_shown[i])));
                    }
                    plan.push(DrawCommand::Handle(handles[k]));
                    k += 1;
                }
            },
            None => {},
        }
    }
    assert(command_views(plan@) =~= body + Seq::new(
        handles_shown.len(),
        |i: int| DrawCommandView::Handle(handles_shown[i]),
    ));
    proof {
        lemma_views_push(plan@, DrawCommand::EndFrame);
    }
    plan.push(DrawCommand::EndFrame);
    assert(command_views(plan@) =~= frame_plan(*size, dpr.0, entities, selected, move_state.is_moving));
    plan
}

/// Hands the commands of a frame to the renderer, in order. A command that
/// the renderer fails is passed over: the frame goes on.
///
/// The renderer receives exactly the commands of `plan`, after what it had
/// received before.
pub fn draw_plan(renderer: &mut Box<dyn RenderPort>, plan: &Vec<DrawCommand>)
    ensures
        final(renderer).received() == old(renderer).received() + command_views(plan@),
{
    let mut i: usize = 0;
    while i < plan.len()
        invariant
            i <= plan.len(),
            renderer.received() == old(renderer).received() + command_views(plan@).take(i as int),
        decreases plan.len() - i,
    {
        proof {
            assert((old(renderer).received() + command_views(plan@).take(i as int)).push(plan@[i as int]@)
                =~= old(renderer).received() + command_views(plan@).take(i + 1));
        }
        match &plan[i] {
            DrawCommand::BeginFrame { width, height } => {
                let _ = renderer.begin_frame(*width, *height);
            },
            DrawCommand::Shape { transform, shape, style } => {
                let _ = renderer.draw_shape(transform, shape, style);
            },
            DrawCommand::Handle(handle) => {
                let _ = renderer.draw_scale_handle(handle);
            },
            DrawCommand::EndFrame => {
                let _ = renderer.end_frame();
            },
        }
        i += 1;
    }
    proof {
        assert(command_views(plan@).take(i as int) =~= command_views(plan@));
    }
}

/// Draws the frame on the renderer, if one is attached: every entity, and
/// the handles of the selection unless a move gesture is under way. Without
/// a renderer nothing is drawn.
///
/// An attached renderer receives the commands of [`frame_plan`] for the
/// state it is given, after what it had received before, and stays
/// attached.
pub fn render_system_with_selection_and_handles(
    renderer: &mut Option<RendererBox>,
    size: &CanvasSize,
    dpr: &CanvasDpr,
    core: &CoreDoc,
    selection: &Selection,
    move_state: &MoveState,
)
    ensures
        (*final(renderer) is Some) == (*old(renderer) is Some),
        *old(renderer) is Some ==> final(renderer)->Some_0.0.received() == old(renderer)->Some_0.0.received()
            + frame_plan(*size, dpr.0, core.0@.entities, selection.selected@, move_state.is_moving),
{
    match renderer {
        Some(attached) => {
            let plan = plan_frame(size, dpr, core, selection, move_state);
            draw_plan(&mut attached.0, &plan);
        },
        None => {},
    }
}

} // verus!
