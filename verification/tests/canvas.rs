//! Canvas tests: the state stack, the draw pipeline, paints and image
//! upload, driven through a recording renderer.

use nona::color::Color;
use nona::context::{
    BasicCompositeOperation, BlendFactor, CompositeOperation, CompositeOperationState, Context,
    Gradient, ImageFlags, ImageId, LineCap, LineJoin, Paint, Path, Vertex,
};
use nona::errors::NonaError;
use nona::fixed::FX_ONE;
use nona::math::{Bounds, Extent, Point, Rect, Transform};
use nona::renderer::{Renderer, Scissor, TextureType};

struct RecordingRenderer {
    aa: bool,
    textures: Vec<(TextureType, usize, usize, Option<Vec<u8>>)>,
    fills: usize,
    strokes: usize,
    triangle_batches: Vec<Vec<Vertex>>,
}

impl RecordingRenderer {
    fn new(aa: bool) -> RecordingRenderer {
        RecordingRenderer { aa, textures: Vec::new(), fills: 0, strokes: 0, triangle_batches: Vec::new() }
    }
}

impl Renderer for RecordingRenderer {
    fn edge_antialias(&self) -> bool {
        self.aa
    }

    fn view_size(&self) -> Extent {
        Extent::new(800 * FX_ONE, 600 * FX_ONE)
    }

    fn device_pixel_ratio(&self) -> i64 {
        FX_ONE
    }

    fn create_texture(
        &mut self,
        texture_type: TextureType,
        width: usize,
        height: usize,
        _flags: ImageFlags,
        data: Option<&Vec<u8>>,
    ) -> Result<ImageId, NonaError> {
        self.textures.push((texture_type, width, height, data.cloned()));
        Ok(self.textures.len() - 1)
    }

    fn delete_texture(&mut self, _img: ImageId) -> Result<(), NonaError> {
        Ok(())
    }

    fn update_texture(
        &mut self,
        _img: ImageId,
        _x: usize,
        _y: usize,
        _width: usize,
        _height: usize,
        _data: &[u8],
    ) -> Result<(), NonaError> {
        Ok(())
    }

    fn texture_size(&self, img: ImageId) -> Result<(usize, usize), NonaError> {
        match self.textures.get(img) {
            Some(t) => Ok((t.1, t.2)),
            None => Err(NonaError::Texture(String::from("no such texture"))),
        }
    }

    fn viewport(&mut self, _extent: Extent, _device_pixel_ratio: i64) -> Result<(), NonaError> {
        Ok(())
    }

    fn clear_screen(&mut self, _color: Color) {}

    fn flush(&mut self) -> Result<(), NonaError> {
        Ok(())
    }

    fn fill(
        &mut self,
        _paint: &Paint,
        _composite_operation: CompositeOperationState,
        _scissor: &Scissor,
        _fringe: i64,
        _bounds: Bounds,
        _paths: &Vec<Path>,
        _vertexes: &Vec<Vertex>,
    ) -> Result<(), NonaError> {
        self.fills += 1;
        Ok(())
    }

    fn stroke(
        &mut self,
        _paint: &Paint,
        _composite_operation: CompositeOperationState,
        _scissor: &Scissor,
        _fringe: i64,
        _stroke_width: i64,
        _paths: &Vec<Path>,
        _vertexes: &Vec<Vertex>,
    ) -> Result<(), NonaError> {
        self.strokes += 1;
        Ok(())
    }

    fn triangles(
        &mut self,
        _paint: &Paint,
        _composite_operation: CompositeOperationState,
        _scissor: &Scissor,
        vertexes: &Vec<Vertex>,
    ) -> Result<(), NonaError> {
        self.triangle_batches.push(vertexes.clone());
        Ok(())
    }
}

fn canvas(aa: bool) -> Context<RecordingRenderer> {
    let mut ctx = Context::create();
    ctx.attach_renderer(Some(RecordingRenderer::new(aa)));
    ctx.begin_frame(Some(Color::rgb_i(0, 0, 0))).unwrap();
    ctx
}

fn pt(x: i64, y: i64) -> Point {
    Point::new(x * FX_ONE, y * FX_ONE)
}

#[test]
fn begin_frame_sets_pixel_tolerances() {
    let ctx = canvas(false);
    assert_eq!(ctx.tess_tol, FX_ONE / 4);
    assert_eq!(ctx.dist_tol, 655);
    assert_eq!(ctx.fringe_width, FX_ONE);
    assert_eq!(ctx.device_pixel_ratio, FX_ONE);
    assert_eq!(ctx.states.len(), 1);
    assert_eq!(ctx.draw_call_count, 0);
}

#[test]
fn rect_fill_no_aa_emits_four_corner_vertices() {
    let mut ctx = canvas(false);
    ctx.begin_path();
    ctx.rect(Rect::new(pt(0, 0), Extent::new(10 * FX_ONE, 10 * FX_ONE)));
    ctx.fill_paint(Paint::from(Color::rgb(FX_ONE, 0, 0)));
    ctx.fill().unwrap();
    assert_eq!(ctx.cache.paths.len(), 1);
    let p = ctx.cache.paths[0];
    assert_eq!(p.num_fill, 4);
    let fill = p.get_fill(&ctx.cache.vertexes);
    let expected = [pt(0, 0), pt(0, 10), pt(10, 10), pt(10, 0)];
    for (v, e) in fill.iter().zip(expected.iter()) {
        assert_eq!(v.x, e.x);
        assert_eq!(v.y, e.y);
        assert_eq!(v.u, FX_ONE / 2);
        assert_eq!(v.v, FX_ONE);
    }
    assert_eq!(ctx.fill_triangles_count, 2);
    assert_eq!(ctx.draw_call_count, 2);
}

#[test]
fn circle_stroke_no_aa_is_closed_strip() {
    let mut ctx = canvas(false);
    ctx.begin_path();
    ctx.circle(pt(0, 0), 5 * FX_ONE);
    ctx.stroke_width(2 * FX_ONE);
    ctx.line_cap(LineCap::Butt);
    ctx.line_join(LineJoin::Miter);
    ctx.stroke().unwrap();
    assert_eq!(ctx.cache.paths.len(), 1);
    let p = ctx.cache.paths[0];
    assert!(p.closed, "the ellipse subpath must close into a loop");
    assert!(p.count > 4, "the bezier arcs must flatten into several points");
    // a closed loop emits no cap geometry: with no bevels the strip is
    // exactly one pair per point plus the closing pair
    assert_eq!(p.num_bevel, 0);
    assert_eq!(p.num_stroke, 2 * (p.count + 1));
}

#[test]
fn save_restore_brings_back_fill_paint() {
    let mut ctx = canvas(true);
    let before = ctx.states[ctx.states.len() - 1].fill;
    ctx.save();
    ctx.fill_paint(Paint::from(Color::rgb(FX_ONE, 0, 0)));
    let changed = ctx.states[ctx.states.len() - 1].fill;
    assert!(changed != before);
    ctx.restore();
    let after = ctx.states[ctx.states.len() - 1].fill;
    assert_eq!(after, before);
    assert_eq!(after.xform, before.xform);
}

#[test]
fn restore_at_depth_one_is_noop() {
    let mut ctx = canvas(true);
    assert_eq!(ctx.states.len(), 1);
    ctx.restore();
    assert_eq!(ctx.states.len(), 1);
}

#[test]
fn begin_path_clears_previous_geometry() {
    let mut ctx = canvas(false);
    ctx.begin_path();
    ctx.rect(Rect::new(pt(0, 0), Extent::new(10 * FX_ONE, 10 * FX_ONE)));
    ctx.fill().unwrap();
    assert!(ctx.cache.paths.len() == 1);
    ctx.begin_path();
    ctx.fill().unwrap();
    assert_eq!(ctx.cache.paths.len(), 0, "no stale geometry may leak");
    assert_eq!(ctx.commands.len(), 0);
}

#[test]
fn linear_gradient_coincident_points_fall_back_to_unit_axis() {
    let g = Gradient::Linear {
        start: pt(3, 4),
        end: pt(3, 4),
        start_color: Color::rgb(FX_ONE, 0, 0),
        end_color: Color::rgb(0, 0, FX_ONE),
    };
    let p = Paint::from(g);
    assert_eq!(p.xform.m0, FX_ONE);
    assert_eq!(p.xform.m1, 0);
    assert_eq!(p.xform.m2, 0);
    assert_eq!(p.xform.m3, FX_ONE);
    assert_eq!(p.xform.m4, 3 * FX_ONE);
    assert_eq!(p.feather, FX_ONE);
    assert_eq!(p.radius, 0);
    assert!(p.image.is_none());
}

#[test]
fn radial_gradient_paint_values() {
    let g = Gradient::Radial {
        center: pt(1, 2),
        in_radius: 2 * FX_ONE,
        out_radius: 6 * FX_ONE,
        inner_color: Color::rgb(FX_ONE, 0, 0),
        outer_color: Color::rgb(0, 0, FX_ONE),
    };
    let p = Paint::from(g);
    assert_eq!(p.radius, 4 * FX_ONE);
    assert_eq!(p.extent.width, 4 * FX_ONE);
    assert_eq!(p.feather, 4 * FX_ONE);
    assert_eq!(p.xform.m4, FX_ONE);
    assert_eq!(p.xform.m5, 2 * FX_ONE);
}

#[test]
fn composite_operation_resolves_blend_factors() {
    let s: CompositeOperationState =
        CompositeOperation::Basic(BasicCompositeOperation::SrcOver).into();
    assert_eq!(s.src_rgb, BlendFactor::One);
    assert_eq!(s.dst_rgb, BlendFactor::OneMinusSrcAlpha);
    assert_eq!(s.src_alpha, BlendFactor::One);
    assert_eq!(s.dst_alpha, BlendFactor::OneMinusSrcAlpha);
    let x: CompositeOperationState = CompositeOperation::Basic(BasicCompositeOperation::Xor).into();
    assert_eq!(x.src_rgb, BlendFactor::OneMinusDstAlpha);
    assert_eq!(x.dst_rgb, BlendFactor::OneMinusSrcAlpha);
}

#[test]
fn create_image_decodes_and_uploads_pixels() {
    let mut ctx = canvas(true);
    // a 2x1 image with one red and one blue pixel, PNG-encoded in memory
    let img = image::RgbaImage::from_raw(2, 1, vec![255, 0, 0, 255, 0, 0, 255, 255]).unwrap();
    let mut bytes: Vec<u8> = Vec::new();
    image::DynamicImage::ImageRgba8(img)
        .write_to(&mut bytes, image::ImageOutputFormat::Png)
        .unwrap();
    let id = ctx.create_image(ImageFlags::empty(), &bytes).unwrap();
    let r = ctx.renderer.as_ref().unwrap();
    let t = &r.textures[id];
    assert_eq!(t.1, 2);
    assert_eq!(t.2, 1);
    assert_eq!(t.3.as_ref().unwrap(), &vec![255, 0, 0, 255, 0, 0, 255, 255]);
}

#[test]
fn create_image_rejects_garbage() {
    let mut ctx = canvas(true);
    let r = ctx.create_image(ImageFlags::empty(), &[1, 2, 3, 4]);
    match r {
        Err(NonaError::Texture(_)) => {},
        _ => panic!("expected a texture error"),
    }
}

#[test]
fn text_layout_builds_two_triangles_per_char() {
    let mut ctx = canvas(true);
    let lc = nona::context::LayoutChar {
        x: 0,
        next_x: 8 * FX_ONE,
        c: 'a',
        idx: 0,
        uv: Bounds { min: pt(0, 0), max: pt(1, 1) },
        bounds: Bounds { min: pt(0, 0), max: pt(8, 12) },
    };
    let layout = vec![lc];
    ctx.text(0, &layout).unwrap();
    let r = ctx.renderer.as_ref().unwrap();
    assert_eq!(r.triangle_batches.len(), 1);
    assert_eq!(r.triangle_batches[0].len(), 6);
    // the quad corners are the layout bounds scaled back by the inverse
    // font scale
    let fs = ctx.states[ctx.states.len() - 1].xform.font_scale();
    let inv = nona::fixed::fx_div(FX_ONE, nona::fixed::fx_mul(fs, ctx.device_pixel_ratio));
    let verts = &r.triangle_batches[0];
    assert_eq!(verts[0].x, 0);
    assert_eq!(verts[0].y, 0);
    assert_eq!(verts[1].x, nona::fixed::fx_mul(8 * FX_ONE, inv));
    assert_eq!(verts[1].y, nona::fixed::fx_mul(12 * FX_ONE, inv));
}

#[test]
fn translate_moves_path_commands() {
    let mut ctx = canvas(false);
    ctx.begin_path();
    ctx.translate(5 * FX_ONE, 0);
    ctx.rect(Rect::new(pt(0, 0), Extent::new(FX_ONE, FX_ONE)));
    ctx.fill().unwrap();
    let p = ctx.cache.paths[0];
    let fill = p.get_fill(&ctx.cache.vertexes);
    assert_eq!(fill[0].x, 5 * FX_ONE);
}

#[test]
fn intersect_scissor_narrows_the_region() {
    let mut ctx = canvas(true);
    ctx.scissor(Rect::new(pt(0, 0), Extent::new(10 * FX_ONE, 10 * FX_ONE)));
    ctx.intersect_scissor(Rect::new(pt(4, 4), Extent::new(10 * FX_ONE, 2 * FX_ONE)));
    // the overlap of (0,0,10,10) and (4,4,10,2) is (4,4,6,2): the scissor
    // box is centered on it with half extents
    let st = ctx.states[ctx.states.len() - 1];
    assert_eq!(st.scissor.extent.width, 3 * FX_ONE);
    assert_eq!(st.scissor.extent.height, FX_ONE);
    assert_eq!(st.scissor.xform.m4, 7 * FX_ONE);
    assert_eq!(st.scissor.xform.m5, 5 * FX_ONE);
}

#[test]
fn scissor_sets_half_extent() {
    let mut ctx = canvas(true);
    ctx.scissor(Rect::new(pt(0, 0), Extent::new(10 * FX_ONE, 6 * FX_ONE)));
    let st = ctx.states[ctx.states.len() - 1];
    assert_eq!(st.scissor.extent.width, 5 * FX_ONE);
    assert_eq!(st.scissor.extent.height, 3 * FX_ONE);
    assert_eq!(st.scissor.xform.m4, 5 * FX_ONE);
    assert_eq!(st.scissor.xform.m5, 3 * FX_ONE);
    ctx.reset_scissor();
    let st2 = ctx.states[ctx.states.len() - 1];
    assert_eq!(st2.scissor.extent.width, -FX_ONE);
}

#[test]
fn stroke_counts_strips() {
    let mut ctx = canvas(false);
    ctx.begin_path();
    ctx.move_to(pt(0, 0));
    ctx.line_to(pt(10, 0));
    ctx.line_to(pt(10, 10));
    ctx.stroke().unwrap();
    let r = ctx.renderer.as_ref().unwrap();
    assert_eq!(r.strokes, 1);
    assert_eq!(ctx.draw_call_count, 1);
    let p = ctx.cache.paths[0];
    assert_eq!(ctx.fill_triangles_count, p.num_stroke - 2);
}

#[test]
fn transform_font_scale_rounds_up() {
    let t = Transform::identity();
    // the average scale of the identity is 1; the font scale snaps it to a
    // multiple of 655 raw units (a hundredth)
    let fs = t.font_scale();
    assert_eq!(fs % 655, 0);
    assert!(fs >= FX_ONE - 655 && fs <= FX_ONE + 655);
}
