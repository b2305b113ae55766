//! A verified HTML5-canvas-style 2D rendering state machine.
//!
//! The crate models an immediate-mode drawing surface: a mutable paint
//! state with a save/restore stack, a path-construction engine, text
//! layout against an explicit font registry, an image pipeline
//! (cropping, alpha premultiplication, dirty-rectangle clamping), and a
//! message protocol applied strictly in order by a single worker.
//!
//! Coordinates and lengths are integer canvas units throughout; callers
//! that work in fractional units scale before crossing this boundary.
//! Rasterization of general paths, gradients and blurs is the job of an
//! external rasterizer: those operations are recorded on the surface's
//! render log, while rectangle-level operations are applied directly to
//! the surface's pixel buffer.

mod canvas_element;
mod canvas_trait;
mod context_2d;
mod csshelper;
mod fontrenderer;
mod geometry;
mod paintstate;
mod path;
mod session;
mod strutil;
mod surface;

pub use canvas_element::{create_canvas, CanvasContextType, CanvasElement};
pub use canvas_trait::{
    BlendingStyle, Canvas2dMsg, CanvasGradientStop, CanvasMsg, CompositionOrBlending,
    CompositionStyle, FillOrStrokeStyle, FillRule, FromScriptMsg, LineCapStyle, LineJoinStyle,
    LinearGradientStyle, RadialGradientStyle, Rgba, SurfaceStyle, OFFSET_UNIT,
};
pub use context_2d::{
    byte_swap, clamp_dirty_rect, count_saves, crop_image, ctx_unchanged, dispatch_post,
    draw_image_op_post, draw_image_self_op_post, draw_text_ok, draw_text_post, fill_op_post,
    fill_rect_op_post, fill_text_op_post, image_data_bytes_post, is_style_msg,
    lemma_restore_underflow, lemma_save_restore_lifo, paint_step, paint_steps,
    put_image_data_op_post, restores, send_pixels_bytes_post, spec_clamp_dirty_rect,
    stroke_op_post, stroke_rect_op_post, stroke_text_op_post, total_extent, Canvas2dReply,
    Context2d, PaintModel,
};
pub use csshelper::{parse_fonts_style, spec_parse_font};
pub use fontrenderer::{flip_text, FontFamily, FontRegistry, Glyph, GlyphEvent, GLYPH_MAX};
pub use geometry::{coord_in_bounds, point_in_bounds, rect_in_bounds, COORD_MAX};
pub use geometry::{Point2D, Rect, Size2D, Transform2D};
pub use paintstate::{Font, FontStyle, FontVariant, Gradient, PaintState, Pattern};
pub use path::{arc_to_post, lemma_quad_elevation_exact, quad_to_cubic, Path, PathSegment};
pub use session::{CanvasReply, CanvasSession};
pub use strutil::str_eq;
pub use surface::{
    premultiply_channel, DrawTarget, Filter, Pixel, RenderOp, StrokeOptions, SIDE_MAX,
};
