//! The canvas element: a surface of a fixed size bound to a rendering
//! context of a chosen kind. Only the 2D context exists; the other
//! context kinds are unsupported and yield no element.

use vstd::prelude::*;

use crate::context_2d::Context2d;
use crate::geometry::{rect_in_bounds, size_in_bounds, Rect, Size2D};
use crate::surface::SIDE_MAX;

verus! {

/// The kinds of rendering context a canvas can be asked for.
#[derive(Debug, PartialEq, Eq, Structural)]
pub enum CanvasContextType {
    CTX2D,
    WEBGL,
    WEBGL2,
    BITMAPRENDERER,
}

/// A canvas element: its size and its 2D rendering context.
pub struct CanvasElement {
    pub width: i64,
    pub height: i64,
    pub ctx: Context2d,
}

impl CanvasElement {
    pub open spec fn wf(self) -> bool {
        &&& self.ctx.wf()
        &&& self.ctx.drawtarget.width == self.width
        &&& self.ctx.drawtarget.height == self.height
    }

    /// A canvas of the given size with the requested context: a 2D
    /// context over a fresh transparent surface, or nothing for the
    /// unsupported context kinds.
    pub fn new(width: i64, height: i64, context_type: CanvasContextType) -> (r: Option<
        CanvasElement,
    >)
        requires
            0 < width <= SIDE_MAX,
            0 < height <= SIDE_MAX,
        ensures
            r is Some <==> context_type == CanvasContextType::CTX2D,
            r is Some ==> r.unwrap().wf() && r.unwrap().width == width && r.unwrap().height
                == height && r.unwrap().ctx.state@
                == crate::paintstate::PaintStateView::spec_default()
                && r.unwrap().ctx.saved_states@.len() == 0,
    {
        match context_type {
            CanvasContextType::CTX2D => {
                let ctx = Context2d::new(width, height);
                Some(CanvasElement { width, height, ctx })
            },
            _ => None,
        }
    }

    /// Reads back the pixels of a rectangle as straight-order RGBA
    /// bytes, clipped to the stated canvas size and the surface: the
    /// exact bytes of [`crate::context_2d::image_data_bytes_post`].
    pub fn image_data(&self, dest_rect: Rect, canvas_size: Size2D) -> (r: Vec<u8>)
        requires
            self.wf(),
            rect_in_bounds(dest_rect),
            size_in_bounds(canvas_size),
        ensures
            crate::context_2d::image_data_bytes_post(self.ctx, dest_rect, canvas_size, r@),
    {
        self.ctx.image_data(dest_rect, canvas_size)
    }
}

/// Builds a canvas element, which must be asked for the 2D context.
pub fn create_canvas(width: i64, height: i64, ctx_type: CanvasContextType) -> (r: CanvasElement)
    requires
        0 < width <= SIDE_MAX,
        0 < height <= SIDE_MAX,
        ctx_type == CanvasContextType::CTX2D,
    ensures
        r.wf(),
        r.width == width,
        r.height == height,
{
    let element = CanvasElement::new(width, height, ctx_type);
    match element {
        Some(e) => e,
        None => {
            proof {
                assert(false);
            }
            unreached()
        },
    }
}

} // verus!
