//! The backend capability contract: a renderer consumes tessellated
//! geometry and paint descriptors. The library promises nothing about a
//! renderer's results; callers state what holds whatever a method returns.

use vstd::prelude::*;
use crate::color::Color;
use crate::context::{CompositeOperationState, ImageFlags, ImageId, Paint, Path, Vertex};
use crate::errors::NonaError;
use crate::math::{Bounds, Extent, Transform};

verus! {

/// How a texture's bytes are to be interpreted.
#[derive(Debug, Copy, Clone, PartialEq, Eq, Structural)]
pub enum TextureType {
    RGBA,
    Alpha,
}

/// A scissor region: a transform centered on the region plus its half
/// extent; a negative extent means "no scissor".
#[derive(Debug, Copy, Clone, PartialEq, Eq, Structural)]
pub struct Scissor {
    pub xform: Transform,
    pub extent: Extent,
}

impl Default for Scissor {
    fn default() -> (r: Scissor)
        ensures
            r.xform@ == (crate::math::STrans { m0: 0, m1: 0, m2: 0, m3: 0, m4: 0, m5: 0 }),
            r.extent.width == 0,
            r.extent.height == 0,
    {
        Scissor {
            xform: Transform { m0: 0, m1: 0, m2: 0, m3: 0, m4: 0, m5: 0 },
            extent: Extent { width: 0, height: 0 },
        }
    }
}

/// A GPU backend. Implementations live outside the library; the contracts
/// here are intentionally empty, so everything proved about the canvas holds
/// whatever a backend does. Vertex slices are handed over together with the
/// shared arena they index into.
pub trait Renderer {
    fn edge_antialias(&self) -> bool;

    fn view_size(&self) -> Extent;

    fn device_pixel_ratio(&self) -> i64;

    fn create_texture(
        &mut self,
        texture_type: TextureType,
        width: usize,
        height: usize,
        flags: ImageFlags,
        data: Option<&Vec<u8>>,
    ) -> Result<ImageId, NonaError>;

    fn delete_texture(&mut self, img: ImageId) -> Result<(), NonaError>;

    fn update_texture(
        &mut self,
        img: ImageId,
        x: usize,
        y: usize,
        width: usize,
        height: usize,
        data: &[u8],
    ) -> Result<(), NonaError>;

    fn texture_size(&self, img: ImageId) -> Result<(usize, usize), NonaError>;

    fn viewport(&mut self, extent: Extent, device_pixel_ratio: i64) -> Result<(), NonaError>;

    fn clear_screen(&mut self, color: Color);

    fn flush(&mut self) -> Result<(), NonaError>;

    fn fill(
        &mut self,
        paint: &Paint,
        composite_operation: CompositeOperationState,
        scissor: &Scissor,
        fringe: i64,
        bounds: Bounds,
        paths: &Vec<Path>,
        vertexes: &Vec<Vertex>,
    ) -> Result<(), NonaError>;

    fn stroke(
        &mut self,
        paint: &Paint,
        composite_operation: CompositeOperationState,
        scissor: &Scissor,
        fringe: i64,
        stroke_width: i64,
        paths: &Vec<Path>,
        vertexes: &Vec<Vertex>,
    ) -> Result<(), NonaError>;

    fn triangles(
        &mut self,
        paint: &Paint,
        composite_operation: CompositeOperationState,
        scissor: &Scissor,
        vertexes: &Vec<Vertex>,
    ) -> Result<(), NonaError>;
}

} // verus!
