//! The ports through which the engine meets the world outside: a renderer
//! that draws, and a store that keeps projects.
//!
//! The engine calls a port and asks nothing of how it is implemented.

use crate::fixed::Fixed;
use crate::model::{BlobId, Color, ImageId, Path, Rect, ScaleHandle, Shape, Style, TextMetrics, TextSpan, Transform};
use crate::render::DrawCommandView;
use crate::usecases::Document;
use vstd::prelude::*;

verus! {

/// Why a renderer could not do what it was asked.
#[derive(Debug, PartialEq, Eq)]
pub enum RenderError {
    Initialization,
    DeviceLost,
    SurfaceLost,
    OutOfMemory,
    InvalidInput,
    Unsupported,
    TextShaping,
    UploadFailed,
    Other(String),
}

/// The record of a renderer: the calls that drew frames on it, oldest first.
pub type Record = Seq<DrawCommandView>;

/// A renderer. Coordinates handed to it are in physical pixels.
///
/// A renderer keeps a record of the calls by which a frame is drawn: the
/// frame begun, a shape drawn, a handle drawn, the frame ended. Each such
/// call is entered in the record whether it succeeds or fails; nothing is
/// promised of what a call returns. The engine's claims of what it draws
/// rest on this record, and hold of any renderer that keeps it; of a
/// renderer written outside the verifier this is taken on trust.
pub trait RenderPort {
    /// The calls that drew frames on this renderer so far.
    spec fn received(&self) -> Record;

    fn begin_frame(&mut self, width: u32, height: u32) -> (r: Result<(), RenderError>)
        ensures
            final(self).received() == old(self).received().push(DrawCommandView::BeginFrame { width, height }),
    ;

    fn end_frame(&mut self) -> (r: Result<(), RenderError>)
        ensures
            final(self).received() == old(self).received().push(DrawCommandView::EndFrame),
    ;

    /// Sets the camera to a 2D affine map, given as six coefficients.
    fn set_camera(&mut self, transform_2d: [Fixed; 6]) -> Result<(), RenderError>;

    fn draw_shape(&mut self, transform: &Transform, shape: &Shape, style: &Style) -> (r: Result<(), RenderError>)
        ensures
            final(self).received() == old(self).received().push(
                DrawCommandView::Shape { transform: *transform, shape: shape@, style: style@ },
            ),
    ;

    fn draw_path(&mut self, transform: &Transform, path: &Path, style: &Style) -> Result<(), RenderError>;

    fn draw_text(&mut self, transform: &Transform, span: &TextSpan) -> Result<(), RenderError>;

    fn measure_text(&mut self, span: &TextSpan) -> Result<TextMetrics, RenderError>;

    fn upload_image(&mut self, id: ImageId, data: &[u8]) -> Result<(), RenderError>;

    fn draw_image(&mut self, id: ImageId, dest: Rect, transform: &Transform, tint: Option<Color>) -> Result<
        (),
        RenderError,
    >;

    fn draw_scale_handle(&mut self, handle: &ScaleHandle) -> (r: Result<(), RenderError>)
        ensures
            final(self).received() == old(self).received().push(DrawCommandView::Handle(*handle)),
    ;
}

#[derive(Clone, Copy, PartialEq, Eq, Hash, Debug, Structural)]
pub struct ProjectId(pub u64);

/// A moment in time, in milliseconds since the epoch.
#[derive(Clone, Copy, PartialEq, Eq, Debug, Structural)]
pub struct Timestamp(pub u64);

/// What a store lists of a project.
#[derive(Clone, PartialEq, Eq, Debug)]
pub struct ProjectMeta {
    pub id: ProjectId,
    pub name: String,
    pub updated_at: Timestamp,
    pub size: u64,
}

/// A document with what a store keeps beside it.
#[derive(Debug)]
pub struct Project {
    pub id: ProjectId,
    pub name: String,
    pub document: Document,
    pub schema_version: u32,
    pub thumbnails: Vec<BlobId>,
    pub updated_at: Timestamp,
}

/// Why a store could not do what it was asked.
#[derive(Debug, PartialEq, Eq)]
pub enum StorageError {
    NotFound,
    Conflict,
    QuotaExceeded,
    Serialization,
    Deserialization,
    Backend(String),
    Unsupported,
    Other(String),
}

/// A store of projects and of binary blobs.
pub trait StoragePort {
    fn save_project(&mut self, project: Project) -> Result<ProjectId, StorageError>;

    fn load_project(&mut self, id: ProjectId) -> Result<Project, StorageError>;

    fn list_projects(&mut self) -> Result<Vec<ProjectMeta>, StorageError>;

    fn delete_project(&mut self, id: ProjectId) -> Result<(), StorageError>;

    fn put_blob(&mut self, id: BlobId, bytes: &[u8]) -> Result<(), StorageError>;

    fn get_blob(&mut self, id: BlobId) -> Result<Option<Vec<u8>>, StorageError>;

    fn migrate(&mut self, from: u32, to: u32) -> Result<(), StorageError>;
}

} // verus!
