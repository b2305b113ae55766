//! The actor-side state machine of a canvas worker: a context plus the
//! `Running -> Closed` lifecycle, applying messages strictly in arrival
//! order, one at a time. The surrounding loop (a thread owning a
//! channel) performs only receipt and reply delivery; every decision is
//! here.
//!
//! Every query returns a reply value, so a caller never waits on a
//! query the worker handled; a message handled after `Close` does
//! nothing and reports the session closed.

use vstd::prelude::*;

use crate::canvas_trait::{Canvas2dMsg, CanvasMsg, FromScriptMsg};
use crate::context_2d::{
    dispatch_post, image_data_bytes_post, send_pixels_bytes_post, Canvas2dReply, Context2d,
};
use crate::geometry::{rect_in_bounds, size_in_bounds, COORD_MAX};
use crate::surface::SIDE_MAX;

verus! {

/// What a message application hands back to the caller: nothing, the
/// requested image bytes, the whole surface's pixels, notice that the
/// command is unsupported, or notice that the session is closed.
pub enum CanvasReply {
    NoReply,
    ImageData(Vec<u8>),
    Pixels(Vec<u8>),
    Unsupported,
    Closed,
}

/// A canvas worker session: Running until `Close`, then Closed for
/// good.
pub struct CanvasSession {
    pub ctx: Context2d,
    pub closed: bool,
}

impl CanvasSession {
    pub open spec fn wf(self) -> bool {
        self.ctx.wf()
    }

    /// A fresh session over a fresh context, in the Running state.
    pub fn new(width: i64, height: i64) -> (s: CanvasSession)
        requires
            0 < width <= SIDE_MAX,
            0 < height <= SIDE_MAX,
        ensures
            s.wf(),
            !s.closed,
            s.ctx.saved_states@.len() == 0,
            s.ctx.state@ == crate::paintstate::PaintStateView::spec_default(),
            s.ctx.drawtarget.width == width,
            s.ctx.drawtarget.height == height,
    {
        CanvasSession { ctx: Context2d::new(width, height), closed: false }
    }

    /// Applies one message in arrival order.
    ///
    /// After `Close` has been processed the session is closed for its
    /// lifetime: a later message application changes nothing — not the
    /// state, not the path, not a pixel — and replies `Closed`, so a
    /// sender never waits forever and never observes a mutation. While
    /// running, a drawing command does exactly what [`dispatch_post`]
    /// says, and every query's reply carries the exact bytes its
    /// contract names.
    pub fn handle_msg(&mut self, msg: CanvasMsg) -> (r: CanvasReply)
        requires
            old(self).wf(),
        ensures
            final(self).wf(),
            old(self).closed ==> *final(self) == *old(self) && r is Closed,
            !old(self).closed ==> match msg {
                CanvasMsg::Close => final(self).closed && final(self).ctx == old(self).ctx && r is
                    NoReply,
                CanvasMsg::Canvas2d(m) => {
                    &&& !final(self).closed
                    &&& match r {
                        CanvasReply::NoReply => dispatch_post(
                            old(self).ctx,
                            final(self).ctx,
                            m,
                            Canvas2dReply::NoReply,
                        ),
                        CanvasReply::ImageData(bytes) => dispatch_post(
                            old(self).ctx,
                            final(self).ctx,
                            m,
                            Canvas2dReply::ImageData(bytes),
                        ),
                        CanvasReply::Unsupported => dispatch_post(
                            old(self).ctx,
                            final(self).ctx,
                            m,
                            Canvas2dReply::Unsupported,
                        ),
                        _ => false,
                    }
                },
                CanvasMsg::GetImageData(rect, size) => {
                    &&& !final(self).closed
                    &&& final(self).ctx == old(self).ctx
                    &&& (r matches CanvasReply::ImageData(bytes) && (if rect_in_bounds(rect)
                        && size_in_bounds(size) {
                        image_data_bytes_post(old(self).ctx, rect, size, bytes@)
                    } else {
                        bytes@.len() == 0
                    }))
                },
                CanvasMsg::FromScript(_) => {
                    &&& !final(self).closed
                    &&& final(self).ctx == old(self).ctx
                    &&& (r matches CanvasReply::Pixels(bytes) && send_pixels_bytes_post(
                        old(self).ctx,
                        bytes@,
                    ))
                },
            },
    {
        if self.closed {
            return CanvasReply::Closed;
        }
        match msg {
            CanvasMsg::Canvas2d(message) => {
                let reply = self.ctx.handle_canvas2d_msg(message);
                match reply {
                    Canvas2dReply::NoReply => CanvasReply::NoReply,
                    Canvas2dReply::ImageData(bytes) => CanvasReply::ImageData(bytes),
                    Canvas2dReply::Unsupported => CanvasReply::Unsupported,
                }
            },
            CanvasMsg::GetImageData(rect, size) => {
                if -COORD_MAX <= rect.origin.x && rect.origin.x <= COORD_MAX && -COORD_MAX
                    <= rect.origin.y && rect.origin.y <= COORD_MAX && -COORD_MAX
                    <= rect.size.width && rect.size.width <= COORD_MAX && -COORD_MAX
                    <= rect.size.height && rect.size.height <= COORD_MAX && -COORD_MAX
                    <= size.width && size.width <= COORD_MAX && -COORD_MAX <= size.height
                    && size.height <= COORD_MAX {
                    CanvasReply::ImageData(self.ctx.image_data(rect, size))
                } else {
                    CanvasReply::ImageData(Vec::new())
                }
            },
            CanvasMsg::FromScript(message) => {
                match message {
                    FromScriptMsg::SendPixels => CanvasReply::Pixels(self.ctx.send_pixels()),
                }
            },
            CanvasMsg::Close => {
                self.closed = true;
                CanvasReply::NoReply
            },
        }
    }
}

} // verus!
