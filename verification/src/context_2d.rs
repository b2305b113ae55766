//! The 2D rendering context: the live paint state, the save stack, the
//! path under construction and the draw target, driven by the command
//! protocol.
//!
//! The pair of the live state's view and the stack of saved views is
//! the context's *paint model*; [`paint_step`] is the exact transition
//! the paint model makes for every command, and every command handler
//! is proved against it. Commands whose coordinates exceed
//! [`COORD_MAX`] are ignored as structured no-ops rather than applied
//! partially.

use vstd::prelude::*;

use crate::canvas_trait::{
    Canvas2dMsg, CompositionOrBlending, CompositionStyle, FillOrStrokeStyle, LineCapStyle,
    LineJoinStyle, Rgba,
};
use crate::csshelper::spec_parse_font;
use crate::fontrenderer::FontRegistry;
use crate::geometry::{
    coord_in_bounds, point_in_bounds, rect_in_bounds, size_in_bounds, Point2D, Rect, Size2D,
    Transform2D, COORD_MAX,
};
use crate::paintstate::{PaintState, PaintStateView, StyleView};
use crate::path::Path;
use crate::surface::{log_view, DrawTarget, RenderOpView, StrokeOptions, SIDE_MAX};

verus! {

/// The paint model: the live state's view and the saved snapshots,
/// oldest first.
pub ghost struct PaintModel {
    pub state: PaintStateView,
    pub stack: Seq<PaintStateView>,
}

/// The views of the saved snapshots, oldest first.
pub open spec fn stack_view(v: Vec<PaintState>) -> Seq<PaintStateView> {
    v@.map(|_i: int, s: PaintState| s@)
}

/// Whether a style offered to `SetFillStyle` or `SetStrokeStyle` is
/// accepted: a pattern surface must match its stated size, everything
/// else always is.
pub open spec fn style_ok(sv: StyleView) -> bool {
    match sv {
        StyleView::Surface { surface_data, width, height, .. } => {
            &&& 0 < width <= SIDE_MAX
            &&& 0 < height <= SIDE_MAX
            &&& surface_data.len() == 4 * (width * height)
        },
        _ => true,
    }
}

/// The exact transition the paint model makes for one command.
///
/// Commands that build the path or paint leave the model unchanged;
/// `SaveContext` pushes a snapshot of the live state; `RestoreContext`
/// pops one when the stack is not empty and otherwise does nothing.
pub open spec fn paint_step(m: PaintModel, msg: Canvas2dMsg) -> PaintModel {
    match msg {
        Canvas2dMsg::SaveContext => PaintModel { stack: m.stack.push(m.state), ..m },
        Canvas2dMsg::RestoreContext => {
            if m.stack.len() > 0 {
                PaintModel { state: m.stack.last(), stack: m.stack.drop_last() }
            } else {
                m
            }
        },
        Canvas2dMsg::SetFillStyle(style) => {
            if style_ok(style@) {
                PaintModel { state: PaintStateView { fill_style: style@, ..m.state }, ..m }
            } else {
                m
            }
        },
        Canvas2dMsg::SetStrokeStyle(style) => {
            if style_ok(style@) {
                PaintModel { state: PaintStateView { stroke_style: style@, ..m.state }, ..m }
            } else {
                m
            }
        },
        Canvas2dMsg::SetFontStyle(rules) => PaintModel {
            state: PaintStateView { font: spec_parse_font(rules@), ..m.state },
            ..m
        },
        Canvas2dMsg::SetLineWidth(w) => PaintModel {
            state: PaintStateView { line_width: w as int, ..m.state },
            ..m
        },
        Canvas2dMsg::SetLineCap(cap) => PaintModel {
            state: PaintStateView { line_cap: cap, ..m.state },
            ..m
        },
        Canvas2dMsg::SetLineJoin(join) => PaintModel {
            state: PaintStateView { line_join: join, ..m.state },
            ..m
        },
        Canvas2dMsg::SetMiterLimit(limit) => PaintModel {
            state: PaintStateView { miter_limit: limit as int, ..m.state },
            ..m
        },
        Canvas2dMsg::SetGlobalAlpha(a) => PaintModel {
            state: PaintStateView { global_alpha: a as int, ..m.state },
            ..m
        },
        Canvas2dMsg::SetGlobalComposition(op) => PaintModel {
            state: PaintStateView { global_composition: op, ..m.state },
            ..m
        },
        Canvas2dMsg::SetTransform(t) => {
            if t.spec_coeffs_in_bounds() {
                PaintModel { state: PaintStateView { transform: t, ..m.state }, ..m }
            } else {
                m
            }
        },
        Canvas2dMsg::SetShadowOffsetX(v) => {
            if coord_in_bounds(v) {
                PaintModel { state: PaintStateView { shadow_offset_x: v as int, ..m.state }, ..m }
            } else {
                m
            }
        },
        Canvas2dMsg::SetShadowOffsetY(v) => {
            if coord_in_bounds(v) {
                PaintModel { state: PaintStateView { shadow_offset_y: v as int, ..m.state }, ..m }
            } else {
                m
            }
        },
        Canvas2dMsg::SetShadowBlur(v) => {
            if coord_in_bounds(v) {
                PaintModel { state: PaintStateView { shadow_blur: v as int, ..m.state }, ..m }
            } else {
                m
            }
        },
        Canvas2dMsg::SetShadowColor(c) => PaintModel {
            state: PaintStateView { shadow_color: c, ..m.state },
            ..m
        },
        _ => m,
    }
}

/// The tracked points of a path stay in guarded range: segment
/// endpoints given by commands are in input bounds, and only arc-to
/// tangent points reach the wider guard.
pub open spec fn path_ok(p: Path) -> bool {
    &&& (p.last_point matches Some(q) ==> crate::path::point_in_guard_bounds(q))
    &&& (p.subpath_start matches Some(s) ==> point_in_bounds(s))
}

/// The paint model after a whole message sequence, applied in order.
pub open spec fn paint_steps(m: PaintModel, msgs: Seq<Canvas2dMsg>) -> PaintModel
    decreases msgs.len(),
{
    if msgs.len() == 0 {
        m
    } else {
        paint_steps(paint_step(m, msgs[0]), msgs.drop_first())
    }
}

/// The commands that mutate only the live style state, never the save
/// stack, the path or the surface.
pub open spec fn is_style_msg(msg: Canvas2dMsg) -> bool {
    match msg {
        Canvas2dMsg::SetFillStyle(_) => true,
        Canvas2dMsg::SetStrokeStyle(_) => true,
        Canvas2dMsg::SetFontStyle(_) => true,
        Canvas2dMsg::SetLineWidth(_) => true,
        Canvas2dMsg::SetLineCap(_) => true,
        Canvas2dMsg::SetLineJoin(_) => true,
        Canvas2dMsg::SetMiterLimit(_) => true,
        Canvas2dMsg::SetGlobalAlpha(_) => true,
        Canvas2dMsg::SetGlobalComposition(_) => true,
        Canvas2dMsg::SetTransform(_) => true,
        Canvas2dMsg::SetShadowOffsetX(_) => true,
        Canvas2dMsg::SetShadowOffsetY(_) => true,
        Canvas2dMsg::SetShadowBlur(_) => true,
        Canvas2dMsg::SetShadowColor(_) => true,
        _ => false,
    }
}

/// A run of restore commands.
pub open spec fn restores(n: nat) -> Seq<Canvas2dMsg> {
    Seq::new(n, |_i: int| Canvas2dMsg::RestoreContext)
}

/// How many saves a message sequence contains.
pub open spec fn count_saves(msgs: Seq<Canvas2dMsg>) -> nat
    decreases msgs.len(),
{
    if msgs.len() == 0 {
        0
    } else {
        (if msgs[0] is SaveContext {
            1nat
        } else {
            0nat
        }) + count_saves(msgs.drop_first())
    }
}

/// Applying a concatenation applies the parts in order.
pub proof fn lemma_paint_steps_app(m: PaintModel, a: Seq<Canvas2dMsg>, b: Seq<Canvas2dMsg>)
    ensures
        paint_steps(m, a + b) == paint_steps(paint_steps(m, a), b),
    decreases a.len(),
{
    if a.len() == 0 {
        assert(a + b =~= b);
    } else {
        assert((a + b)[0] == a[0]);
        assert((a + b).drop_first() =~= a.drop_first() + b);
        lemma_paint_steps_app(paint_step(m, a[0]), a.drop_first(), b);
    }
}

/// Restoring with an empty save stack leaves the whole paint model
/// unchanged: underflow is a silent no-op, never an error.
pub proof fn lemma_restore_underflow(m: PaintModel)
    requires
        m.stack.len() == 0,
    ensures
        paint_step(m, Canvas2dMsg::RestoreContext) == m,
{
}

/// With one unmatched snapshot of `s` on top of `st`, any run of saves
/// and style mutations followed by enough restores lands back exactly
/// on the live state `s` over the stack `st`, whatever the
/// intermediate live state was.
proof fn lemma_balanced_restores(
    s: PaintStateView,
    st: Seq<PaintStateView>,
    s_cur: PaintStateView,
    ms: Seq<Canvas2dMsg>,
    n: nat,
)
    requires
        forall|i: int|
            0 <= i < ms.len() ==> is_style_msg(#[trigger] ms[i]) || ms[i] is SaveContext,
        count_saves(ms) == n,
    ensures
        paint_steps(
            PaintModel { state: s_cur, stack: st.push(s) },
            ms + restores((n + 1) as nat),
        ) == (PaintModel { state: s, stack: st }),
    decreases ms.len(),
{
    let model = PaintModel { state: s_cur, stack: st.push(s) };
    if ms.len() == 0 {
        assert(ms + restores((n + 1) as nat) =~= restores(1));
        assert(restores(1)[0] is RestoreContext);
        assert(restores(1).drop_first() =~= Seq::<Canvas2dMsg>::empty());
        assert(st.push(s).last() == s);
        assert(st.push(s).drop_last() =~= st);
    } else {
        let m0 = ms[0];
        assert((ms + restores((n + 1) as nat))[0] == m0);
        assert((ms + restores((n + 1) as nat)).drop_first() =~= ms.drop_first() + restores(
            (n + 1) as nat,
        ));
        if m0 is SaveContext {
            let model1 = paint_step(model, m0);
            assert(model1.state == s_cur && model1.stack == st.push(s).push(s_cur));
            let n1 = (n - 1) as nat;
            lemma_balanced_restores(s_cur, st.push(s), s_cur, ms.drop_first(), n1);
            assert(ms.drop_first() + restores((n + 1) as nat) =~= (ms.drop_first() + restores(
                (n1 + 1) as nat,
            )) + restores(1));
            lemma_paint_steps_app(
                model1,
                ms.drop_first() + restores((n1 + 1) as nat),
                restores(1),
            );
            let mid = PaintModel { state: s_cur, stack: st.push(s) };
            assert(restores(1)[0] is RestoreContext);
            assert(restores(1).drop_first() =~= Seq::<Canvas2dMsg>::empty());
            assert(st.push(s).last() == s);
            assert(st.push(s).drop_last() =~= st);
            assert(paint_steps(mid, restores(1)) == paint_steps(
                paint_step(mid, restores(1)[0]),
                restores(1).drop_first(),
            ));
            assert(paint_step(mid, restores(1)[0]) == (PaintModel { state: s, stack: st }));
            assert(paint_steps(
                PaintModel { state: s, stack: st },
                Seq::<Canvas2dMsg>::empty(),
            ) == (PaintModel { state: s, stack: st }));
            assert(paint_steps(mid, restores(1)) == (PaintModel { state: s, stack: st }));
        } else {
            let model1 = paint_step(model, m0);
            assert(model1.stack == model.stack);
            lemma_balanced_restores(s, st, model1.state, ms.drop_first(), n);
        }
    }
}

/// For any run of saves interleaved with style mutations, matching
/// every save with a restore brings the paint model back exactly to
/// where it stood before the first save, attribute for attribute.
pub proof fn lemma_save_restore_lifo(m: PaintModel, ms: Seq<Canvas2dMsg>)
    requires
        forall|i: int|
            0 <= i < ms.len() ==> is_style_msg(#[trigger] ms[i]) || ms[i] is SaveContext,
    ensures
        paint_steps(
            m,
            seq![Canvas2dMsg::SaveContext] + ms + restores((count_saves(ms) + 1) as nat),
        ) == m,
{
    let whole = seq![Canvas2dMsg::SaveContext] + ms + restores((count_saves(ms) + 1) as nat);
    assert(whole[0] is SaveContext);
    assert(whole.drop_first() =~= ms + restores((count_saves(ms) + 1) as nat));
    let model1 = paint_step(m, Canvas2dMsg::SaveContext);
    assert(model1.state == m.state && model1.stack == m.stack.push(m.state));
    lemma_balanced_restores(m.state, m.stack, m.state, ms, count_saves(ms));
}

/// The machine-limit side conditions a live or saved paint state
/// satisfies: its transform coefficients and shadow offsets stay in
/// the fixed-point coordinate range.
pub open spec fn paint_state_ok(s: PaintState) -> bool {
    &&& s.transform.spec_coeffs_in_bounds()
    &&& coord_in_bounds(s.shadow_offset_x)
    &&& coord_in_bounds(s.shadow_offset_y)
    &&& coord_in_bounds(s.shadow_blur)
    &&& style_ok(s.fill_style@)
    &&& style_ok(s.stroke_style@)
}

/// The 2D rendering context.
pub struct Context2d {
    pub state: PaintState,
    pub saved_states: Vec<PaintState>,
    pub drawtarget: DrawTarget,
    pub path: Path,
    pub font_caches: FontRegistry,
}

impl Context2d {
    /// Structural soundness: the draw target is sound, it carries the
    /// live transform, and every transform in sight stays inside the
    /// fixed-point coefficient bounds.
    pub open spec fn wf(self) -> bool {
        &&& self.drawtarget.wf()
        &&& self.drawtarget.transform == self.state.transform
        &&& paint_state_ok(self.state)
        &&& forall|i: int|
            0 <= i < self.saved_states@.len() ==> paint_state_ok(
                #[trigger] self.saved_states@[i],
            )
        &&& self.font_caches.wf()
        &&& path_ok(self.path)
    }

    /// The context's paint model.
    pub open spec fn paint_model(self) -> PaintModel {
        PaintModel { state: self.state@, stack: stack_view(self.saved_states) }
    }

    /// A fresh context over a transparent surface of the given size,
    /// with the default paint state, an empty save stack, an empty
    /// path and an empty font registry.
    pub fn new(width: i64, height: i64) -> (ctx: Context2d)
        requires
            0 < width <= SIDE_MAX,
            0 < height <= SIDE_MAX,
        ensures
            ctx.wf(),
            ctx.state@ == PaintStateView::spec_default(),
            ctx.saved_states@.len() == 0,
            ctx.path.segments@.len() == 0,
            ctx.drawtarget.width == width,
            ctx.drawtarget.height == height,
            log_view(ctx.drawtarget.render_log).len() == 0,
            forall|k: int|
                0 <= k < ctx.drawtarget.data@.len() ==> ctx.drawtarget.data@[k] == (
                crate::surface::Pixel { b: 0, g: 0, r: 0, a: 0 }),
            ctx.font_caches.families@.len() == 0,
    {
        let ctx = Context2d {
            state: PaintState::new(),
            saved_states: Vec::new(),
            drawtarget: DrawTarget::new(width as usize, height as usize),
            path: Path::new(),
            font_caches: FontRegistry::new(),
        };
        proof {
            assert(log_view(ctx.drawtarget.render_log) =~= Seq::<RenderOpView>::empty());
        }
        ctx
    }

    /// Pushes an independent snapshot of the live state.
    pub fn save_context_state(&mut self)
        requires
            old(self).wf(),
        ensures
            final(self).wf(),
            final(self).paint_model() == paint_step(
                old(self).paint_model(),
                Canvas2dMsg::SaveContext,
            ),
            final(self).state == old(self).state,
            final(self).path == old(self).path,
            final(self).drawtarget == old(self).drawtarget,
            final(self).font_caches == old(self).font_caches,
    {
        let snapshot = self.state.clone();
        self.saved_states.push(snapshot);
        proof {
            assert(stack_view(self.saved_states) =~= stack_view(old(self).saved_states).push(
                old(self).state@,
            ));
        }
    }

    /// Pops the youngest snapshot and installs it wholesale, restoring
    /// the backend transform and releasing one clip level; with an
    /// empty stack this is a complete no-op.
    pub fn restore_context_state(&mut self)
        requires
            old(self).wf(),
        ensures
            final(self).wf(),
            final(self).paint_model() == paint_step(
                old(self).paint_model(),
                Canvas2dMsg::RestoreContext,
            ),
            final(self).path == old(self).path,
            final(self).font_caches == old(self).font_caches,
            final(self).drawtarget.width == old(self).drawtarget.width,
            final(self).drawtarget.height == old(self).drawtarget.height,
            old(self).saved_states@.len() == 0 ==> *final(self) == *old(self),
            old(self).saved_states@.len() > 0 ==> final(self).drawtarget.data == old(self).drawtarget.data
                && log_view(final(self).drawtarget.render_log) == log_view(
                old(self).drawtarget.render_log,
            ).push(RenderOpView::PopClip),
    {
        if self.saved_states.len() == 0 {
            return ;
        }
        let popped = self.saved_states.pop();
        match popped {
            Some(state) => {
                proof {
                    assert(stack_view(old(self).saved_states).drop_last() =~= stack_view(
                        self.saved_states,
                    ));
                    assert(state == old(self).saved_states@.last());
                    assert(state@ == stack_view(old(self).saved_states).last());
                }
                self.state = state;
                let t = self.state.transform;
                self.drawtarget.set_transform(&t);
                self.drawtarget.pop_clip();
            },
            None => {
                proof {
                    assert(false);
                }
            },
        }
    }

    /// Installs a fill style; a pattern whose bytes do not match its
    /// stated size is ignored.
    pub fn set_fill_style(&mut self, style: FillOrStrokeStyle)
        requires
            old(self).wf(),
        ensures
            final(self).wf(),
            final(self).paint_model() == paint_step(
                old(self).paint_model(),
                Canvas2dMsg::SetFillStyle(style),
            ),
            final(self).path == old(self).path,
            final(self).drawtarget == old(self).drawtarget,
            final(self).saved_states == old(self).saved_states,
            final(self).font_caches == old(self).font_caches,
    {
        if style_accepted(&style) {
            self.state.fill_style = style;
        }
    }

    /// Installs a stroke style under the same acceptance rule.
    pub fn set_stroke_style(&mut self, style: FillOrStrokeStyle)
        requires
            old(self).wf(),
        ensures
            final(self).wf(),
            final(self).paint_model() == paint_step(
                old(self).paint_model(),
                Canvas2dMsg::SetStrokeStyle(style),
            ),
            final(self).path == old(self).path,
            final(self).drawtarget == old(self).drawtarget,
            final(self).saved_states == old(self).saved_states,
            final(self).font_caches == old(self).font_caches,
    {
        if style_accepted(&style) {
            self.state.stroke_style = style;
        }
    }

    /// Parses a CSS font shorthand into the live font request.
    pub fn set_font_style(&mut self, font_style: &str)
        requires
            old(self).wf(),
        ensures
            final(self).wf(),
            final(self).state@ == (PaintStateView {
                font: spec_parse_font(font_style@),
                ..old(self).state@
            }),
            final(self).saved_states == old(self).saved_states,
            final(self).path == old(self).path,
            final(self).drawtarget == old(self).drawtarget,
            final(self).font_caches == old(self).font_caches,
    {
        self.state.font = crate::paintstate::Font::new(font_style);
    }

    pub fn set_line_width(&mut self, width: i64)
        requires
            old(self).wf(),
        ensures
            final(self).wf(),
            final(self).paint_model() == paint_step(
                old(self).paint_model(),
                Canvas2dMsg::SetLineWidth(width),
            ),
            final(self).path == old(self).path,
            final(self).drawtarget == old(self).drawtarget,
            final(self).saved_states == old(self).saved_states,
            final(self).font_caches == old(self).font_caches,
    {
        self.state.line_width = width;
    }

    pub fn set_line_cap(&mut self, cap: LineCapStyle)
        requires
            old(self).wf(),
        ensures
            final(self).wf(),
            final(self).paint_model() == paint_step(
                old(self).paint_model(),
                Canvas2dMsg::SetLineCap(cap),
            ),
            final(self).path == old(self).path,
            final(self).drawtarget == old(self).drawtarget,
            final(self).saved_states == old(self).saved_states,
            final(self).font_caches == old(self).font_caches,
    {
        self.state.line_cap = cap;
    }

    pub fn set_line_join(&mut self, join: LineJoinStyle)
        requires
            old(self).wf(),
        ensures
            final(self).wf(),
            final(self).paint_model() == paint_step(
                old(self).paint_model(),
                Canvas2dMsg::SetLineJoin(join),
            ),
            final(self).path == old(self).path,
            final(self).drawtarget == old(self).drawtarget,
            final(self).saved_states == old(self).saved_states,
            final(self).font_caches == old(self).font_caches,
    {
        self.state.line_join = join;
    }

    pub fn set_miter_limit(&mut self, limit: i64)
        requires
            old(self).wf(),
        ensures
            final(self).wf(),
            final(self).paint_model() == paint_step(
                old(self).paint_model(),
                Canvas2dMsg::SetMiterLimit(limit),
            ),
            final(self).path == old(self).path,
            final(self).drawtarget == old(self).drawtarget,
            final(self).saved_states == old(self).saved_states,
            final(self).font_caches == old(self).font_caches,
    {
        self.state.miter_limit = limit;
    }

    /// Installs a transform on the state and the draw target alike; a
    /// transform whose coefficients exceed the fixed-point bounds is
    /// ignored.
    pub fn set_transform(&mut self, transform: &Transform2D)
        requires
            old(self).wf(),
        ensures
            final(self).wf(),
            final(self).paint_model() == paint_step(
                old(self).paint_model(),
                Canvas2dMsg::SetTransform(*transform),
            ),
            final(self).path == old(self).path,
            final(self).saved_states == old(self).saved_states,
            final(self).font_caches == old(self).font_caches,
            final(self).drawtarget.data == old(self).drawtarget.data,
            final(self).drawtarget.render_log == old(self).drawtarget.render_log,
            final(self).drawtarget.width == old(self).drawtarget.width,
            final(self).drawtarget.height == old(self).drawtarget.height,
    {
        if transform_coeffs_ok(transform) {
            self.state.transform = *transform;
            self.drawtarget.set_transform(transform);
        }
    }

    pub fn set_global_alpha(&mut self, alpha: i64)
        requires
            old(self).wf(),
        ensures
            final(self).wf(),
            final(self).paint_model() == paint_step(
                old(self).paint_model(),
                Canvas2dMsg::SetGlobalAlpha(alpha),
            ),
            final(self).path == old(self).path,
            final(self).drawtarget == old(self).drawtarget,
            final(self).saved_states == old(self).saved_states,
            final(self).font_caches == old(self).font_caches,
    {
        self.state.global_alpha = alpha;
    }

    pub fn set_global_composition(&mut self, op: CompositionOrBlending)
        requires
            old(self).wf(),
        ensures
            final(self).wf(),
            final(self).paint_model() == paint_step(
                old(self).paint_model(),
                Canvas2dMsg::SetGlobalComposition(op),
            ),
            final(self).path == old(self).path,
            final(self).drawtarget == old(self).drawtarget,
            final(self).saved_states == old(self).saved_states,
            final(self).font_caches == old(self).font_caches,
    {
        self.state.global_composition = op;
    }

    pub fn set_shadow_offset_x(&mut self, value: i64)
        requires
            old(self).wf(),
        ensures
            final(self).wf(),
            final(self).paint_model() == paint_step(
                old(self).paint_model(),
                Canvas2dMsg::SetShadowOffsetX(value),
            ),
            final(self).path == old(self).path,
            final(self).drawtarget == old(self).drawtarget,
            final(self).saved_states == old(self).saved_states,
            final(self).font_caches == old(self).font_caches,
    {
        if -COORD_MAX <= value && value <= COORD_MAX {
            self.state.shadow_offset_x = value;
        }
    }

    pub fn set_shadow_offset_y(&mut self, value: i64)
        requires
            old(self).wf(),
        ensures
            final(self).wf(),
            final(self).paint_model() == paint_step(
                old(self).paint_model(),
                Canvas2dMsg::SetShadowOffsetY(value),
            ),
            final(self).path == old(self).path,
            final(self).drawtarget == old(self).drawtarget,
            final(self).saved_states == old(self).saved_states,
            final(self).font_caches == old(self).font_caches,
    {
        if -COORD_MAX <= value && value <= COORD_MAX {
            self.state.shadow_offset_y = value;
        }
    }

    pub fn set_shadow_blur(&mut self, value: i64)
        requires
            old(self).wf(),
        ensures
            final(self).wf(),
            final(self).paint_model() == paint_step(
                old(self).paint_model(),
                Canvas2dMsg::SetShadowBlur(value),
            ),
            final(self).path == old(self).path,
            final(self).drawtarget == old(self).drawtarget,
            final(self).saved_states == old(self).saved_states,
            final(self).font_caches == old(self).font_caches,
    {
        if -COORD_MAX <= value && value <= COORD_MAX {
            self.state.shadow_blur = value;
        }
    }

    pub fn set_shadow_color(&mut self, value: Rgba)
        requires
            old(self).wf(),
        ensures
            final(self).wf(),
            final(self).paint_model() == paint_step(
                old(self).paint_model(),
                Canvas2dMsg::SetShadowColor(value),
            ),
            final(self).path == old(self).path,
            final(self).drawtarget == old(self).drawtarget,
            final(self).saved_states == old(self).saved_states,
            final(self).font_caches == old(self).font_caches,
    {
        self.state.shadow_color = value;
    }

    /// Whether the live state asks for shadows: a visible shadow color
    /// together with a nonzero offset or blur.
    pub open spec fn spec_need_to_draw_shadow(self) -> bool {
        self.state.shadow_color.alpha != 0 && (self.state.shadow_offset_x != 0
            || self.state.shadow_offset_y != 0 || self.state.shadow_blur != 0)
    }

    pub fn need_to_draw_shadow(&self) -> (r: bool)
        ensures
            r == self.spec_need_to_draw_shadow(),
    {
        self.state.shadow_color.alpha != 0 && (self.state.shadow_offset_x != 0
            || self.state.shadow_offset_y != 0 || self.state.shadow_blur != 0)
    }

    /// Registers a font family's glyphs with this context's registry;
    /// a family already present keeps its glyphs.
    pub fn add_font_instance(
        &mut self,
        family_name: String,
        glyphs: Vec<crate::fontrenderer::Glyph>,
    ) -> (r: Result<(), ()>)
        requires
            old(self).wf(),
            forall|i: int|
                0 <= i < glyphs@.len() ==> crate::fontrenderer::glyph_wf(#[trigger] glyphs@[i]),
            forall|i: int, j: int|
                0 <= i < j < glyphs@.len() ==> (#[trigger] glyphs@[i]).character != (
                #[trigger] glyphs@[j]).character,
        ensures
            final(self).wf(),
            r is Ok,
            final(self).state == old(self).state,
            final(self).saved_states == old(self).saved_states,
            final(self).path == old(self).path,
            final(self).drawtarget == old(self).drawtarget,
            old(self).font_caches.spec_has_family(family_name@) ==> final(self).font_caches.families@
                == old(self).font_caches.families@,
            !old(self).font_caches.spec_has_family(family_name@) ==> final(self).font_caches.spec_has_family(family_name@),
    {
        let r = self.font_caches.add_font_instance(family_name, glyphs);
        proof {
            if !old(self).font_caches.spec_has_family(family_name@) {
                let n = old(self).font_caches.families@.len() as int;
                assert(self.font_caches.families@[n].name@ == family_name@);
            }
        }
        r
    }

    /// The stroke attributes of the live state, as one record.
    pub fn stroke_opts(&self) -> (r: StrokeOptions)
        ensures
            r.line_width == self.state.line_width,
            r.line_cap == self.state.line_cap,
            r.line_join == self.state.line_join,
            r.miter_limit == self.state.miter_limit,
    {
        StrokeOptions {
            line_width: self.state.line_width,
            line_cap: self.state.line_cap,
            line_join: self.state.line_join,
            miter_limit: self.state.miter_limit,
        }
    }
}

/// The reply of one dispatched drawing command: nothing, the bytes of
/// an image-data query, or notice that the command (the point-in-path
/// test, whose answer is the excluded rasterizer's computation) is not
/// supported.
pub enum Canvas2dReply {
    NoReply,
    ImageData(Vec<u8>),
    Unsupported,
}

/// The context unchanged in every part.
pub open spec fn ctx_unchanged(pre: Context2d, post: Context2d) -> bool {
    &&& post.state == pre.state
    &&& post.saved_states == pre.saved_states
    &&& post.path == pre.path
    &&& post.drawtarget == pre.drawtarget
    &&& post.font_caches == pre.font_caches
}

/// A path-building command touches nothing but the path.
pub open spec fn path_only(pre: Context2d, post: Context2d) -> bool {
    &&& post.state == pre.state
    &&& post.saved_states == pre.saved_states
    &&& post.drawtarget == pre.drawtarget
    &&& post.font_caches == pre.font_caches
}

/// A style command touches nothing but the live state (and, for the
/// transform, the target's transform, which always tracks the state's).
pub open spec fn style_only(pre: Context2d, post: Context2d) -> bool {
    &&& post.saved_states == pre.saved_states
    &&& post.path == pre.path
    &&& post.font_caches == pre.font_caches
    &&& post.drawtarget.data == pre.drawtarget.data
    &&& log_view(post.drawtarget.render_log) == log_view(pre.drawtarget.render_log)
    &&& post.drawtarget.width == pre.drawtarget.width
    &&& post.drawtarget.height == pre.drawtarget.height
    &&& post.drawtarget.transform == post.state.transform
}

/// Everything one dispatched drawing command does, by message kind:
/// the paint model makes exactly the [`paint_step`] transition, a
/// command whose arguments lie outside the machine coordinate bounds
/// is a complete no-op, and each command's effect is the corresponding
/// operation's postcondition. Exactly the image-data query replies
/// with bytes, and a reply always arrives.
pub open spec fn dispatch_post(
    pre: Context2d,
    post: Context2d,
    message: Canvas2dMsg,
    r: Canvas2dReply,
) -> bool {
    &&& post.paint_model() == paint_step(pre.paint_model(), message)
    &&& post.font_caches == pre.font_caches
    &&& post.drawtarget.width == pre.drawtarget.width
    &&& post.drawtarget.height == pre.drawtarget.height
    &&& (r is ImageData <==> message is GetImageData)
    &&& (r is Unsupported <==> message is IsPointInPath)
    &&& match message {
        Canvas2dMsg::Arc(center, radius, start_angle, end_angle, ccw) => path_only(pre, post) && (
        if point_in_bounds(center) {
            &&& post.path.segments@ == pre.path.segments@.push(
                crate::path::PathSegment::Arc { center, radius, start_angle, end_angle, ccw },
            )
            &&& post.path.last_point is None
            &&& post.path.subpath_start == pre.path.subpath_start
        } else {
            post.path == pre.path
        }),
        Canvas2dMsg::ArcTo(cp1, cp2, radius) => path_only(pre, post) && (if point_in_bounds(cp1)
            && point_in_bounds(cp2) && -COORD_MAX <= radius <= COORD_MAX {
            crate::path::arc_to_post(pre.path, post.path, cp1, cp2, radius)
        } else {
            post.path == pre.path
        }),
        Canvas2dMsg::DrawImage(imagedata, image_size, dest_rect, source_rect, smoothing) => {
            if rect_in_bounds(dest_rect) && rect_in_bounds(source_rect) && size_in_bounds(
                image_size,
            ) {
                draw_image_op_post(
                    pre,
                    post,
                    imagedata@,
                    image_size,
                    dest_rect,
                    source_rect,
                    smoothing,
                )
            } else {
                ctx_unchanged(pre, post)
            }
        },
        Canvas2dMsg::DrawImageSelf(image_size, dest_rect, source_rect, smoothing) => {
            if rect_in_bounds(dest_rect) && rect_in_bounds(source_rect) && size_in_bounds(
                image_size,
            ) {
                draw_image_self_op_post(pre, post, image_size, dest_rect, source_rect, smoothing)
            } else {
                ctx_unchanged(pre, post)
            }
        },
        Canvas2dMsg::BeginPath => path_only(pre, post) && post.path.segments@.len() == 0
            && post.path.last_point is None && post.path.subpath_start is None,
        Canvas2dMsg::BezierCurveTo(cp1, cp2, to) => path_only(pre, post) && (if point_in_bounds(
            cp1,
        ) && point_in_bounds(cp2) && point_in_bounds(to) {
            &&& post.path.segments@ == pre.path.segments@.push(
                crate::path::PathSegment::Cubic {
                    ctrl1_x3: Point2D { x: (3 * cp1.x) as i64, y: (3 * cp1.y) as i64 },
                    ctrl2_x3: Point2D { x: (3 * cp2.x) as i64, y: (3 * cp2.y) as i64 },
                    to,
                },
            )
            &&& post.path.last_point == Some(to)
            &&& post.path.subpath_start == pre.path.subpath_start
        } else {
            post.path == pre.path
        }),
        Canvas2dMsg::ClearRect(rect) => {
            if rect_in_bounds(rect) {
                clear_rect_op_post(pre, post, rect)
            } else {
                ctx_unchanged(pre, post)
            }
        },
        Canvas2dMsg::Clip => clip_op_post(pre, post),
        Canvas2dMsg::ClosePath => path_only(pre, post) && post.path.segments@
            == pre.path.segments@.push(crate::path::PathSegment::Close) && post.path.last_point
            == pre.path.subpath_start && post.path.subpath_start == pre.path.subpath_start,
        Canvas2dMsg::Ellipse(center, radius_x, radius_y, rotation, start_angle, end_angle, ccw) => (
        path_only(pre, post) && (if point_in_bounds(center) {
            &&& post.path.segments@ == pre.path.segments@.push(
                crate::path::PathSegment::Ellipse {
                    center,
                    radius_x,
                    radius_y,
                    rotation,
                    start_angle,
                    end_angle,
                    ccw,
                },
            )
            &&& post.path.last_point is None
            &&& post.path.subpath_start == pre.path.subpath_start
        } else {
            post.path == pre.path
        })),
        Canvas2dMsg::Fill => fill_op_post(pre, post),
        Canvas2dMsg::FillText(text, x, y, max_width) => {
            if -COORD_MAX / 4 <= x <= COORD_MAX / 4 && -COORD_MAX / 4 <= y <= COORD_MAX / 4 && (
            max_width is Some ==> max_width.unwrap() >= 0) {
                fill_text_op_post(
                    pre,
                    post,
                    text@,
                    x,
                    y,
                    max_width,
                    text@.len() == 0 || draw_text_ok(pre, text@, x),
                )
            } else {
                ctx_unchanged(pre, post)
            }
        },
        Canvas2dMsg::FillRect(rect) => {
            if rect_in_bounds(rect) {
                fill_rect_op_post(pre, post, rect)
            } else {
                ctx_unchanged(pre, post)
            }
        },
        Canvas2dMsg::IsPointInPath(_, _, _) => ctx_unchanged(pre, post),
        Canvas2dMsg::LineTo(p) => path_only(pre, post) && (if point_in_bounds(p) {
            &&& post.path.segments@ == pre.path.segments@.push(
                crate::path::PathSegment::LineTo(p),
            )
            &&& post.path.last_point == Some(p)
            &&& post.path.subpath_start == pre.path.subpath_start
        } else {
            post.path == pre.path
        }),
        Canvas2dMsg::MoveTo(p) => path_only(pre, post) && (if point_in_bounds(p) {
            &&& post.path.segments@ == pre.path.segments@.push(
                crate::path::PathSegment::MoveTo(p),
            )
            &&& post.path.last_point == Some(p)
            &&& post.path.subpath_start == Some(p)
        } else {
            post.path == pre.path
        }),
        Canvas2dMsg::PutImageData(imagedata, offset, image_data_size, dirty_rect) => {
            if point_in_bounds(offset) && rect_in_bounds(dirty_rect) && size_in_bounds(
                image_data_size,
            ) {
                put_image_data_op_post(pre, post, imagedata@, offset, image_data_size, dirty_rect)
            } else {
                ctx_unchanged(pre, post)
            }
        },
        Canvas2dMsg::QuadraticCurveTo(cp, to) => path_only(pre, post) && (if point_in_bounds(cp)
            && point_in_bounds(to) {
            &&& post.path.segments@ == pre.path.segments@.push(
                crate::path::PathSegment::Cubic {
                    ctrl1_x3: crate::path::spec_quad_ctrl1_x3(pre.path.spec_current_point(), cp),
                    ctrl2_x3: crate::path::spec_quad_ctrl2_x3(to, cp),
                    to,
                },
            )
            &&& post.path.last_point == Some(to)
            &&& post.path.subpath_start == pre.path.subpath_start
        } else {
            post.path == pre.path
        }),
        Canvas2dMsg::Rect(rect) => path_only(pre, post) && (if rect_in_bounds(rect) {
            &&& post.path.segments@ == pre.path.segments@ + seq![
                crate::path::PathSegment::MoveTo(rect.origin),
                crate::path::PathSegment::LineTo(
                    Point2D { x: (rect.origin.x + rect.size.width) as i64, y: rect.origin.y },
                ),
                crate::path::PathSegment::LineTo(
                    Point2D {
                        x: (rect.origin.x + rect.size.width) as i64,
                        y: (rect.origin.y + rect.size.height) as i64,
                    },
                ),
                crate::path::PathSegment::LineTo(
                    Point2D { x: rect.origin.x, y: (rect.origin.y + rect.size.height) as i64 },
                ),
                crate::path::PathSegment::Close,
            ]
            &&& post.path.last_point == Some(rect.origin)
            &&& post.path.subpath_start == Some(rect.origin)
        } else {
            post.path == pre.path
        }),
        Canvas2dMsg::RestoreContext => {
            &&& post.path == pre.path
            &&& post.font_caches == pre.font_caches
            &&& (pre.saved_states@.len() == 0 ==> ctx_unchanged(pre, post))
            &&& (pre.saved_states@.len() > 0 ==> post.drawtarget.data == pre.drawtarget.data
                && log_view(post.drawtarget.render_log) == log_view(
                pre.drawtarget.render_log,
            ).push(RenderOpView::PopClip))
        },
        Canvas2dMsg::SaveContext => {
            &&& post.state == pre.state
            &&& post.path == pre.path
            &&& post.drawtarget == pre.drawtarget
            &&& post.font_caches == pre.font_caches
        },
        Canvas2dMsg::StrokeRect(rect) => {
            if rect_in_bounds(rect) {
                stroke_rect_op_post(pre, post, rect)
            } else {
                ctx_unchanged(pre, post)
            }
        },
        Canvas2dMsg::Stroke => stroke_op_post(pre, post),
        Canvas2dMsg::StrokeText(text, x, y, max_width) => {
            if -COORD_MAX / 4 <= x <= COORD_MAX / 4 && -COORD_MAX / 4 <= y <= COORD_MAX / 4 && (
            max_width is Some ==> max_width.unwrap() >= 0) {
                stroke_text_op_post(
                    pre,
                    post,
                    text@,
                    x,
                    y,
                    max_width,
                    text@.len() == 0 || draw_text_ok(pre, text@, x),
                )
            } else {
                ctx_unchanged(pre, post)
            }
        },
        Canvas2dMsg::SetFillStyle(_) => style_only(pre, post),
        Canvas2dMsg::SetFontStyle(_) => style_only(pre, post),
        Canvas2dMsg::SetStrokeStyle(_) => style_only(pre, post),
        Canvas2dMsg::SetLineWidth(_) => style_only(pre, post),
        Canvas2dMsg::SetLineCap(_) => style_only(pre, post),
        Canvas2dMsg::SetLineJoin(_) => style_only(pre, post),
        Canvas2dMsg::SetMiterLimit(_) => style_only(pre, post),
        Canvas2dMsg::SetGlobalAlpha(_) => style_only(pre, post),
        Canvas2dMsg::SetGlobalComposition(_) => style_only(pre, post),
        Canvas2dMsg::SetTransform(_) => style_only(pre, post),
        Canvas2dMsg::GetImageData(dest_rect, canvas_size) => {
            &&& ctx_unchanged(pre, post)
            &&& (r matches Canvas2dReply::ImageData(bytes) && (if rect_in_bounds(dest_rect)
                && size_in_bounds(canvas_size) {
                image_data_bytes_post(pre, dest_rect, canvas_size, bytes@)
            } else {
                bytes@.len() == 0
            }))
        },
        Canvas2dMsg::SetShadowOffsetX(_) => style_only(pre, post),
        Canvas2dMsg::SetShadowOffsetY(_) => style_only(pre, post),
        Canvas2dMsg::SetShadowBlur(_) => style_only(pre, post),
        Canvas2dMsg::SetShadowColor(_) => style_only(pre, post),
        Canvas2dMsg::NotImplement => ctx_unchanged(pre, post),
    }
}

impl Context2d {
    /// Applies one drawing command, exactly as [`dispatch_post`] says:
    /// the paint model makes the [`paint_step`] transition, a command
    /// with out-of-range arguments is a structured no-op, the
    /// image-data query alone returns bytes and always returns them,
    /// the unsupported point-in-path query changes nothing and says so,
    /// and no command ever panics or ends the worker.
    #[verifier::rlimit(100)]
    pub fn handle_canvas2d_msg(&mut self, message: Canvas2dMsg) -> (r: Canvas2dReply)
        requires
            old(self).wf(),
        ensures
            final(self).wf(),
            dispatch_post(*old(self), *final(self), message, r),
    {
        match message {
            Canvas2dMsg::FillText(text, x, y, max_width) => {
                if -COORD_MAX / 4 <= x && x <= COORD_MAX / 4 && -COORD_MAX / 4 <= y && y
                    <= COORD_MAX / 4 && (match max_width {
                    Some(m) => m >= 0,
                    None => true,
                }) {
                    let _ = self.fill_text(text.as_str(), x, y, max_width);
                }
                Canvas2dReply::NoReply
            },
            Canvas2dMsg::StrokeText(text, x, y, max_width) => {
                if -COORD_MAX / 4 <= x && x <= COORD_MAX / 4 && -COORD_MAX / 4 <= y && y
                    <= COORD_MAX / 4 && (match max_width {
                    Some(m) => m >= 0,
                    None => true,
                }) {
                    let _ = self.stroke_text(text.as_str(), x, y, max_width);
                }
                Canvas2dReply::NoReply
            },
            Canvas2dMsg::FillRect(rect) => {
                if rect_ok(&rect) {
                    self.fill_rect(&rect);
                }
                Canvas2dReply::NoReply
            },
            Canvas2dMsg::StrokeRect(rect) => {
                if rect_ok(&rect) {
                    self.stroke_rect(&rect);
                }
                Canvas2dReply::NoReply
            },
            Canvas2dMsg::ClearRect(rect) => {
                if rect_ok(&rect) {
                    self.clear_rect(&rect);
                }
                Canvas2dReply::NoReply
            },
            Canvas2dMsg::BeginPath => {
                self.begin_path();
                Canvas2dReply::NoReply
            },
            Canvas2dMsg::ClosePath => {
                self.path.close_path();
                Canvas2dReply::NoReply
            },
            Canvas2dMsg::Fill => {
                self.fill();
                Canvas2dReply::NoReply
            },
            Canvas2dMsg::Stroke => {
                self.stroke();
                Canvas2dReply::NoReply
            },
            Canvas2dMsg::Clip => {
                self.clip();
                Canvas2dReply::NoReply
            },
            Canvas2dMsg::IsPointInPath(_, _, _) => {
                // The point test is the excluded rasterizer's
                // computation; the command is carried but answered as
                // unsupported, and nothing changes.
                Canvas2dReply::Unsupported
            },
            Canvas2dMsg::DrawImage(imagedata, image_size, dest_rect, source_rect, smoothing) => {
                if rect_ok(&dest_rect) && rect_ok(&source_rect) && size_ok(&image_size) {
                    self.draw_image(imagedata, image_size, dest_rect, source_rect, smoothing);
                }
                Canvas2dReply::NoReply
            },
            Canvas2dMsg::DrawImageSelf(image_size, dest_rect, source_rect, smoothing) => {
                if rect_ok(&dest_rect) && rect_ok(&source_rect) && size_ok(&image_size) {
                    self.draw_image_self(image_size, dest_rect, source_rect, smoothing);
                }
                Canvas2dReply::NoReply
            },
            Canvas2dMsg::MoveTo(point) => {
                if point_ok(&point) {
                    self.path.move_to(point);
                }
                Canvas2dReply::NoReply
            },
            Canvas2dMsg::LineTo(point) => {
                if point_ok(&point) {
                    self.path.line_to(point);
                }
                Canvas2dReply::NoReply
            },
            Canvas2dMsg::Rect(rect) => {
                if rect_ok(&rect) {
                    self.path.rect(rect);
                }
                Canvas2dReply::NoReply
            },
            Canvas2dMsg::QuadraticCurveTo(cp, pt) => {
                if point_ok(&cp) && point_ok(&pt) {
                    self.path.quadratic_curve_to(cp, pt);
                }
                Canvas2dReply::NoReply
            },
            Canvas2dMsg::BezierCurveTo(cp1, cp2, pt) => {
                if point_ok(&cp1) && point_ok(&cp2) && point_ok(&pt) {
                    self.path.bezier_curve_to(cp1, cp2, pt);
                }
                Canvas2dReply::NoReply
            },
            Canvas2dMsg::Arc(center, radius, start, end, ccw) => {
                if point_ok(&center) {
                    self.path.arc(center, radius, start, end, ccw);
                }
                Canvas2dReply::NoReply
            },
            Canvas2dMsg::ArcTo(cp1, cp2, radius) => {
                if point_ok(&cp1) && point_ok(&cp2) && -COORD_MAX <= radius && radius <= COORD_MAX
                {
                    self.path.arc_to(cp1, cp2, radius);
                }
                Canvas2dReply::NoReply
            },
            Canvas2dMsg::Ellipse(center, rx, ry, rotation, start, end, ccw) => {
                if point_ok(&center) {
                    self.path.ellipse(center, rx, ry, rotation, start, end, ccw);
                }
                Canvas2dReply::NoReply
            },
            Canvas2dMsg::RestoreContext => {
                self.restore_context_state();
                Canvas2dReply::NoReply
            },
            Canvas2dMsg::SaveContext => {
                self.save_context_state();
                Canvas2dReply::NoReply
            },
            Canvas2dMsg::SetFillStyle(style) => {
                self.set_fill_style(style);
                Canvas2dReply::NoReply
            },
            Canvas2dMsg::SetFontStyle(font_rule) => {
                self.set_font_style(font_rule.as_str());
                Canvas2dReply::NoReply
            },
            Canvas2dMsg::SetStrokeStyle(style) => {
                self.set_stroke_style(style);
                Canvas2dReply::NoReply
            },
            Canvas2dMsg::SetLineWidth(width) => {
                self.set_line_width(width);
                Canvas2dReply::NoReply
            },
            Canvas2dMsg::SetLineCap(cap) => {
                self.set_line_cap(cap);
                Canvas2dReply::NoReply
            },
            Canvas2dMsg::SetLineJoin(join) => {
                self.set_line_join(join);
                Canvas2dReply::NoReply
            },
            Canvas2dMsg::SetMiterLimit(limit) => {
                self.set_miter_limit(limit);
                Canvas2dReply::NoReply
            },
            Canvas2dMsg::SetTransform(matrix) => {
                self.set_transform(&matrix);
                Canvas2dReply::NoReply
            },
            Canvas2dMsg::SetGlobalAlpha(alpha) => {
                self.set_global_alpha(alpha);
                Canvas2dReply::NoReply
            },
            Canvas2dMsg::SetGlobalComposition(op) => {
                self.set_global_composition(op);
                Canvas2dReply::NoReply
            },
            Canvas2dMsg::GetImageData(dest_rect, canvas_size) => {
                if rect_ok(&dest_rect) && size_ok(&canvas_size) {
                    Canvas2dReply::ImageData(self.image_data(dest_rect, canvas_size))
                } else {
                    Canvas2dReply::ImageData(Vec::new())
                }
            },
            Canvas2dMsg::PutImageData(imagedata, offset, image_data_size, dirty_rect) => {
                if point_ok(&offset) && rect_ok(&dirty_rect) && size_ok(&image_data_size) {
                    self.put_image_data(imagedata, offset, image_data_size, dirty_rect);
                }
                Canvas2dReply::NoReply
            },
            Canvas2dMsg::SetShadowOffsetX(value) => {
                self.set_shadow_offset_x(value);
                Canvas2dReply::NoReply
            },
            Canvas2dMsg::SetShadowOffsetY(value) => {
                self.set_shadow_offset_y(value);
                Canvas2dReply::NoReply
            },
            Canvas2dMsg::SetShadowBlur(value) => {
                self.set_shadow_blur(value);
                Canvas2dReply::NoReply
            },
            Canvas2dMsg::SetShadowColor(color) => {
                self.set_shadow_color(color);
                Canvas2dReply::NoReply
            },
            Canvas2dMsg::NotImplement => { Canvas2dReply::NoReply },
        }
    }
}

/// Exec twin of [`point_in_bounds`].
fn point_ok(p: &Point2D) -> (r: bool)
    ensures
        r == point_in_bounds(*p),
{
    -COORD_MAX <= p.x && p.x <= COORD_MAX && -COORD_MAX <= p.y && p.y <= COORD_MAX
}

/// Exec twin of [`size_in_bounds`].
fn size_ok(s: &Size2D) -> (r: bool)
    ensures
        r == size_in_bounds(*s),
{
    -COORD_MAX <= s.width && s.width <= COORD_MAX && -COORD_MAX <= s.height && s.height
        <= COORD_MAX
}

/// Exec twin of [`rect_in_bounds`].
fn rect_ok(r: &Rect) -> (b: bool)
    ensures
        b == rect_in_bounds(*r),
{
    point_ok(&r.origin) && size_ok(&r.size)
}

/// Exec twin of [`style_ok`].
fn style_accepted(style: &FillOrStrokeStyle) -> (r: bool)
    ensures
        r == style_ok(style@),
{
    match style {
        FillOrStrokeStyle::Surface(s) => {
            if 0 < s.surface_size.width && s.surface_size.width <= SIDE_MAX as i64 && 0
                < s.surface_size.height && s.surface_size.height <= SIDE_MAX as i64 {
                proof {
                    crate::surface::lemma_area_bound(
                        s.surface_size.width as int,
                        s.surface_size.height as int,
                    );
                }
                s.surface_data.len() == 4 * ((s.surface_size.width as usize) * (
                s.surface_size.height as usize))
            } else {
                false
            }
        },
        _ => true,
    }
}

/// Byte `j` of a buffer after the channel-order swap: the first and
/// third byte of every four-byte group exchange places.
pub open spec fn swapped_byte(s: Seq<u8>, j: int) -> u8 {
    if j % 4 == 0 {
        s[j + 2]
    } else if j % 4 == 2 {
        s[j - 2]
    } else {
        s[j]
    }
}

/// Exchanges the first and third byte of every four-byte pixel group
/// in place (BGRA to RGBA and back).
pub fn byte_swap(data: &mut Vec<u8>)
    requires
        old(data)@.len() % 4 == 0,
    ensures
        final(data)@.len() == old(data)@.len(),
        forall|j: int| 0 <= j < old(data)@.len() ==> final(data)@[j] == swapped_byte(old(data)@, j),
{
    let length = data.len();
    proof {
        vstd::arithmetic::div_mod::lemma_fundamental_div_mod(length as int, 4);
    }
    let groups = length / 4;
    let mut g: usize = 0;
    while g < groups
        invariant
            data@.len() == length,
            length == 4 * groups,
            g <= groups,
            forall|j: int| 0 <= j < 4 * g ==> data@[j] == swapped_byte(old(data)@, j),
            forall|j: int| 4 * g <= j < length ==> data@[j] == old(data)@[j],
        decreases groups - g,
    {
        let base = 4 * g;
        let ghost pre = data@;
        let r = data[base + 2];
        let b = data[base];
        data.set(base + 2, b);
        data.set(base, r);
        proof {
            assert(data@ =~= pre.update(base + 2, b).update(base as int, r));
            assert forall|j: int| 4 * g <= j < 4 * (g + 1) implies data@[j] == swapped_byte(
                old(data)@,
                j,
            ) by {
                vstd::arithmetic::div_mod::lemma_mod_multiples_vanish(g as int, j - 4 * g, 4);
                assert(4 * (g as int) + (j - 4 * g) == j);
                assert(j % 4 == (j - 4 * g) % 4);
                assert(j % 4 == j - 4 * g);
                if j == base {
                    assert(data@[j] == r);
                    assert(r == pre[base + 2]);
                    assert(pre[base + 2] == old(data)@[j + 2]);
                } else if j == base + 2 {
                    assert(data@[j] == b);
                    assert(b == pre[base as int]);
                    assert(pre[base as int] == old(data)@[j - 2]);
                } else {
                    assert(data@[j] == pre[j]);
                    assert(pre[j] == old(data)@[j]);
                }
            }
        }
        g += 1;
    }
}

/// The first three of four dirty-rectangle clamping steps: negative
/// extents are normalized by moving the origin, the origin is raised
/// to zero shrinking the extent, and the far edges are pulled inside
/// the image. The fourth step rejects an empty result.
pub open spec fn spec_clamp_dirty_rect(dirty: Rect, image_size: Size2D) -> Option<Rect> {
    let x1 = if dirty.size.width < 0 {
        dirty.origin.x + dirty.size.width
    } else {
        dirty.origin.x as int
    };
    let w1 = if dirty.size.width < 0 {
        -dirty.size.width as int
    } else {
        dirty.size.width as int
    };
    let y1 = if dirty.size.height < 0 {
        dirty.origin.y + dirty.size.height
    } else {
        dirty.origin.y as int
    };
    let h1 = if dirty.size.height < 0 {
        -dirty.size.height as int
    } else {
        dirty.size.height as int
    };
    let w2 = if x1 < 0 {
        w1 + x1
    } else {
        w1
    };
    let x2 = if x1 < 0 {
        0
    } else {
        x1
    };
    let h2 = if y1 < 0 {
        h1 + y1
    } else {
        h1
    };
    let y2 = if y1 < 0 {
        0
    } else {
        y1
    };
    let w3 = if x2 + w2 > image_size.width {
        image_size.width - x2
    } else {
        w2
    };
    let h3 = if y2 + h2 > image_size.height {
        image_size.height - y2
    } else {
        h2
    };
    if w3 <= 0 || h3 <= 0 {
        None
    } else {
        Some(
            Rect {
                origin: Point2D { x: x2 as i64, y: y2 as i64 },
                size: Size2D { width: w3 as i64, height: h3 as i64 },
            },
        )
    }
}

/// Clamps a caller-supplied dirty rectangle to an image, in the exact
/// step order of [`spec_clamp_dirty_rect`]; `None` means the operation
/// is a complete no-op.
pub fn clamp_dirty_rect(dirty: &Rect, image_size: &Size2D) -> (r: Option<Rect>)
    requires
        rect_in_bounds(*dirty),
        size_in_bounds(*image_size),
    ensures
        r == spec_clamp_dirty_rect(*dirty, *image_size),
        r is Some ==> rect_in_bounds(r.unwrap()) && 0 <= r.unwrap().origin.x && 0
            <= r.unwrap().origin.y && 0 < r.unwrap().size.width && 0 < r.unwrap().size.height
            && r.unwrap().origin.x + r.unwrap().size.width <= image_size.width
            && r.unwrap().origin.y + r.unwrap().size.height <= image_size.height,
{
    let mut x: i64 = dirty.origin.x;
    let mut y: i64 = dirty.origin.y;
    let mut w: i64 = dirty.size.width;
    let mut h: i64 = dirty.size.height;
    if w < 0 {
        x = x + w;
        w = -w;
    }
    if h < 0 {
        y = y + h;
        h = -h;
    }
    if x < 0 {
        w = w + x;
        x = 0;
    }
    if y < 0 {
        h = h + y;
        y = 0;
    }
    if x + w > image_size.width {
        w = image_size.width - x;
    }
    if y + h > image_size.height {
        h = image_size.height - y;
    }
    if w <= 0 || h <= 0 {
        None
    } else {
        Some(Rect { origin: Point2D { x, y }, size: Size2D { width: w, height: h } })
    }
}

/// The rectangle a fill actually covers: a non-repeating pattern paints
/// at most its own extent along the axes it does not repeat on.
pub open spec fn spec_draw_rect(rect: Rect, style: StyleView) -> Rect {
    match style {
        StyleView::Surface { width, height, repeat_x, repeat_y, .. } => Rect {
            origin: rect.origin,
            size: Size2D {
                width: if repeat_x {
                    rect.size.width
                } else {
                    width as i64
                },
                height: if repeat_y {
                    rect.size.height
                } else {
                    height as i64
                },
            },
        },
        _ => rect,
    }
}

/// The image of a displacement under a transform's linear part.
pub open spec fn spec_transform_vector(t: Transform2D, v: Point2D) -> Point2D {
    Point2D {
        x: crate::geometry::fx_div(v.x * t.m11 + v.y * t.m21) as i64,
        y: crate::geometry::fx_div(v.x * t.m12 + v.y * t.m22) as i64,
    }
}

impl Context2d {
    /// The shadow composite a shadowed draw records for the
    /// rasterizer, before the real draw: the destination origin in
    /// device space, the shadow color, the shadow offset transformed by
    /// the current transform's linear part, and half the blur as the
    /// kernel's sigma.
    pub open spec fn spec_shadow_op(self, rect: Rect) -> RenderOpView {
        RenderOpView::ShadowComposite {
            origin: self.state.transform.spec_transform_point(rect.origin),
            color: self.state.shadow_color,
            offset: spec_transform_vector(
                self.state.transform,
                Point2D { x: self.state.shadow_offset_x, y: self.state.shadow_offset_y },
            ),
            sigma: crate::path::spec_tdiv(self.state.shadow_blur as int, 2),
            comp: self.state.global_composition,
        }
    }

    /// Records the shadow composite of a shadowed draw.
    fn log_shadow(&mut self, rect: &Rect)
        requires
            old(self).wf(),
            rect_in_bounds(*rect),
        ensures
            final(self).wf(),
            final(self).state == old(self).state,
            final(self).saved_states == old(self).saved_states,
            final(self).path == old(self).path,
            final(self).font_caches == old(self).font_caches,
            final(self).drawtarget.width == old(self).drawtarget.width,
            final(self).drawtarget.height == old(self).drawtarget.height,
            final(self).drawtarget.transform == old(self).drawtarget.transform,
            final(self).drawtarget.data == old(self).drawtarget.data,
            log_view(final(self).drawtarget.render_log) == log_view(
                old(self).drawtarget.render_log,
            ).push(old(self).spec_shadow_op(*rect)),
    {
        let origin = self.state.transform.transform_point(&rect.origin);
        let offset = transform_vector_exec(
            &self.state.transform,
            Point2D { x: self.state.shadow_offset_x, y: self.state.shadow_offset_y },
        );
        let sigma: i64 = if self.state.shadow_blur >= 0 {
            self.state.shadow_blur / 2
        } else {
            -((-self.state.shadow_blur) / 2)
        };
        let op = crate::surface::RenderOp::ShadowComposite {
            origin,
            color: self.state.shadow_color,
            offset,
            sigma,
            comp: self.state.global_composition,
        };
        let ghost oldlog = self.drawtarget.render_log;
        self.drawtarget.render_log.push(op);
        proof {
            assert(log_view(self.drawtarget.render_log) =~= log_view(oldlog).push(
                old(self).spec_shadow_op(*rect),
            ));
        }
    }
}

/// Exec twin of [`spec_transform_vector`].
fn transform_vector_exec(t: &Transform2D, v: Point2D) -> (r: Point2D)
    requires
        t.spec_coeffs_in_bounds(),
        point_in_bounds(v),
    ensures
        r == spec_transform_vector(*t, v),
{
    let zeroed = Transform2D { m11: t.m11, m12: t.m12, m21: t.m21, m22: t.m22, m31: 0, m32: 0 };
    let r = zeroed.transform_point(&v);
    proof {
        assert(r == spec_transform_vector(*t, v));
    }
    r
}

/// What `DrawTarget::fill_rect` leaves behind, stated over plain
/// values: a solid source-over fill under an axis-preserving transform
/// blends the device box; anything else appends one `FillRect` to the
/// render log.
pub open spec fn fill_rect_post(
    w: int,
    h: int,
    t: Transform2D,
    data0: Seq<crate::surface::Pixel>,
    log0: Seq<RenderOpView>,
    data1: Seq<crate::surface::Pixel>,
    log1: Seq<RenderOpView>,
    rect: Rect,
    style: StyleView,
    alpha: int,
    comp: CompositionOrBlending,
) -> bool {
    &&& (crate::surface::solid_over_axis(style, comp, t) ==> {
        let b = crate::surface::spec_device_box(t, w, h, rect);
        let src = crate::surface::solid_source(style->Color_0, alpha);
        &&& log1 == log0
        &&& data1.len() == data0.len()
        &&& forall|x: int, y: int|
            0 <= x < w && 0 <= y < h ==> data1[crate::surface::pix(w, x, y)] == (if b.0 <= x < b.2
                && b.1 <= y < b.3 {
                crate::surface::pixel_over(data0[crate::surface::pix(w, x, y)], src)
            } else {
                data0[crate::surface::pix(w, x, y)]
            })
    })
    &&& (!crate::surface::solid_over_axis(style, comp, t) ==> {
        &&& data1 == data0
        &&& log1 == log0.push(
            RenderOpView::FillRect { rect, style, alpha, comp, transform: t },
        )
    })
}

/// Everything [`Context2d::fill_rect`] does: state, stack, path and
/// fonts untouched; a zero-extent gradient paints nothing; otherwise
/// the covered rectangle is filled per [`fill_rect_post`], after a
/// shadow composite when shadows are on.
pub open spec fn fill_rect_op_post(pre: Context2d, post: Context2d, rect: Rect) -> bool {
    &&& post.state == pre.state
    &&& post.saved_states == pre.saved_states
    &&& post.path == pre.path
    &&& post.font_caches == pre.font_caches
    &&& post.drawtarget.width == pre.drawtarget.width
    &&& post.drawtarget.height == pre.drawtarget.height
    &&& post.drawtarget.transform == pre.drawtarget.transform
    &&& (pre.state.fill_style@.is_zero_size_gradient() ==> post.drawtarget == pre.drawtarget)
    &&& (!pre.state.fill_style@.is_zero_size_gradient() ==> fill_rect_post(
        pre.drawtarget.width as int,
        pre.drawtarget.height as int,
        pre.state.transform,
        pre.drawtarget.data@,
        if pre.spec_need_to_draw_shadow() {
            log_view(pre.drawtarget.render_log).push(
                pre.spec_shadow_op(spec_draw_rect(rect, pre.state.fill_style@)),
            )
        } else {
            log_view(pre.drawtarget.render_log)
        },
        post.drawtarget.data@,
        log_view(post.drawtarget.render_log),
        spec_draw_rect(rect, pre.state.fill_style@),
        pre.state.fill_style@,
        pre.state.global_alpha as int,
        pre.state.global_composition,
    ))
}

/// Everything [`Context2d::clear_rect`] does: the device box of the
/// rectangle is cleared to transparent black, or the clear is recorded
/// for the rasterizer under a rotated transform.
pub open spec fn clear_rect_op_post(pre: Context2d, post: Context2d, rect: Rect) -> bool {
    &&& post.state == pre.state
    &&& post.saved_states == pre.saved_states
    &&& post.path == pre.path
    &&& post.font_caches == pre.font_caches
    &&& post.drawtarget.width == pre.drawtarget.width
    &&& post.drawtarget.height == pre.drawtarget.height
    &&& post.drawtarget.transform == pre.drawtarget.transform
    &&& (pre.state.transform.spec_axis_preserving() ==> {
        let b = crate::surface::spec_device_box(
            pre.state.transform,
            pre.drawtarget.width as int,
            pre.drawtarget.height as int,
            rect,
        );
        &&& log_view(post.drawtarget.render_log) == log_view(pre.drawtarget.render_log)
        &&& forall|x: int, y: int|
            0 <= x < pre.drawtarget.width && 0 <= y < pre.drawtarget.height
                ==> post.drawtarget.data@[crate::surface::pix(
                pre.drawtarget.width as int,
                x,
                y,
            )] == (if b.0 <= x < b.2 && b.1 <= y < b.3 {
                crate::surface::Pixel { b: 0, g: 0, r: 0, a: 0 }
            } else {
                pre.drawtarget.data@[crate::surface::pix(pre.drawtarget.width as int, x, y)]
            })
    })
    &&& (!pre.state.transform.spec_axis_preserving() ==> post.drawtarget.data
        == pre.drawtarget.data && log_view(post.drawtarget.render_log) == log_view(
        pre.drawtarget.render_log,
    ).push(RenderOpView::ClearRect { rect, transform: pre.state.transform }))
}

/// Everything [`Context2d::stroke_rect`] does: pixels untouched; a
/// zero-extent gradient records nothing; a degenerate rectangle
/// records a line stroke with the cap derived from the join; otherwise
/// a rectangle stroke is recorded, after a shadow composite when
/// shadows are on.
pub open spec fn stroke_rect_op_post(pre: Context2d, post: Context2d, rect: Rect) -> bool {
    &&& post.state == pre.state
    &&& post.saved_states == pre.saved_states
    &&& post.path == pre.path
    &&& post.font_caches == pre.font_caches
    &&& post.drawtarget.width == pre.drawtarget.width
    &&& post.drawtarget.height == pre.drawtarget.height
    &&& post.drawtarget.transform == pre.drawtarget.transform
    &&& post.drawtarget.data == pre.drawtarget.data
    &&& (pre.state.stroke_style@.is_zero_size_gradient() ==> post.drawtarget == pre.drawtarget)
    &&& (!pre.state.stroke_style@.is_zero_size_gradient() ==> ({
        let log_base = if pre.spec_need_to_draw_shadow() {
            log_view(pre.drawtarget.render_log).push(pre.spec_shadow_op(rect))
        } else {
            log_view(pre.drawtarget.render_log)
        };
        let opts = StrokeOptions {
            line_width: pre.state.line_width,
            line_cap: pre.state.line_cap,
            line_join: pre.state.line_join,
            miter_limit: pre.state.miter_limit,
        };
        if !pre.spec_need_to_draw_shadow() && (rect.size.width == 0 || rect.size.height == 0) {
            log_view(post.drawtarget.render_log) == log_base.push(
                RenderOpView::StrokeLine {
                    from: rect.origin,
                    to: Point2D {
                        x: (rect.origin.x + rect.size.width) as i64,
                        y: (rect.origin.y + rect.size.height) as i64,
                    },
                    style: pre.state.stroke_style@,
                    alpha: pre.state.global_alpha as int,
                    comp: pre.state.global_composition,
                    stroke_opts: StrokeOptions {
                        line_cap: if pre.state.line_join == LineJoinStyle::Round {
                            LineCapStyle::Round
                        } else {
                            LineCapStyle::Butt
                        },
                        ..opts
                    },
                    transform: pre.state.transform,
                },
            )
        } else {
            log_view(post.drawtarget.render_log) == log_base.push(
                RenderOpView::StrokeRect {
                    rect,
                    style: pre.state.stroke_style@,
                    alpha: pre.state.global_alpha as int,
                    comp: pre.state.global_composition,
                    stroke_opts: opts,
                    transform: pre.state.transform,
                },
            )
        }
    }))
}

/// Everything [`Context2d::fill`] does: pixels and path untouched; a
/// zero-extent gradient records nothing; otherwise one path fill of
/// the whole current path is recorded.
pub open spec fn fill_op_post(pre: Context2d, post: Context2d) -> bool {
    &&& post.state == pre.state
    &&& post.saved_states == pre.saved_states
    &&& post.path == pre.path
    &&& post.font_caches == pre.font_caches
    &&& post.drawtarget.data == pre.drawtarget.data
    &&& post.drawtarget.width == pre.drawtarget.width
    &&& post.drawtarget.height == pre.drawtarget.height
    &&& post.drawtarget.transform == pre.drawtarget.transform
    &&& (pre.state.fill_style@.is_zero_size_gradient() ==> post.drawtarget == pre.drawtarget)
    &&& (!pre.state.fill_style@.is_zero_size_gradient() ==> log_view(post.drawtarget.render_log)
        == log_view(pre.drawtarget.render_log).push(
        RenderOpView::FillPath {
            path: pre.path.segments@,
            style: pre.state.fill_style@,
            alpha: pre.state.global_alpha as int,
            comp: pre.state.global_composition,
            transform: pre.state.transform,
        },
    ))
}

/// Everything [`Context2d::stroke`] does: pixels and path untouched; a
/// zero-extent gradient records nothing; otherwise one path stroke of
/// the whole current path is recorded with the live stroke attributes.
pub open spec fn stroke_op_post(pre: Context2d, post: Context2d) -> bool {
    &&& post.state == pre.state
    &&& post.saved_states == pre.saved_states
    &&& post.path == pre.path
    &&& post.font_caches == pre.font_caches
    &&& post.drawtarget.data == pre.drawtarget.data
    &&& post.drawtarget.width == pre.drawtarget.width
    &&& post.drawtarget.height == pre.drawtarget.height
    &&& post.drawtarget.transform == pre.drawtarget.transform
    &&& (pre.state.stroke_style@.is_zero_size_gradient() ==> post.drawtarget == pre.drawtarget)
    &&& (!pre.state.stroke_style@.is_zero_size_gradient() ==> log_view(post.drawtarget.render_log)
        == log_view(pre.drawtarget.render_log).push(
        RenderOpView::StrokePath {
            path: pre.path.segments@,
            style: pre.state.stroke_style@,
            alpha: pre.state.global_alpha as int,
            comp: pre.state.global_composition,
            stroke_opts: StrokeOptions {
                line_width: pre.state.line_width,
                line_cap: pre.state.line_cap,
                line_join: pre.state.line_join,
                miter_limit: pre.state.miter_limit,
            },
            transform: pre.state.transform,
        },
    ))
}

/// Everything [`Context2d::clip`] does: one clip push of the whole
/// current path is recorded; nothing else changes.
pub open spec fn clip_op_post(pre: Context2d, post: Context2d) -> bool {
    &&& post.state == pre.state
    &&& post.saved_states == pre.saved_states
    &&& post.path == pre.path
    &&& post.font_caches == pre.font_caches
    &&& post.drawtarget.data == pre.drawtarget.data
    &&& post.drawtarget.width == pre.drawtarget.width
    &&& post.drawtarget.height == pre.drawtarget.height
    &&& post.drawtarget.transform == pre.drawtarget.transform
    &&& log_view(post.drawtarget.render_log) == log_view(pre.drawtarget.render_log).push(
        RenderOpView::ClipPath { path: pre.path.segments@ },
    )
}

impl Context2d {
    /// Fills a rectangle with the live fill style.
    ///
    /// A zero-extent gradient paints nothing. A non-repeating pattern
    /// covers at most its own extent. When the state asks for shadows,
    /// the shadow composite is recorded first and the real fill
    /// proceeds.
    pub fn fill_rect(&mut self, rect: &Rect)
        requires
            old(self).wf(),
            rect_in_bounds(*rect),
        ensures
            final(self).wf(),
            fill_rect_op_post(*old(self), *final(self), *rect),
    {
        if self.state.fill_style.is_zero_size_gradient() {
            return ;
        }
        let draw_rect = match &self.state.fill_style {
            FillOrStrokeStyle::Surface(s) => Rect {
                origin: rect.origin,
                size: Size2D {
                    width: if s.repeat_x {
                        rect.size.width
                    } else {
                        s.surface_size.width
                    },
                    height: if s.repeat_y {
                        rect.size.height
                    } else {
                        s.surface_size.height
                    },
                },
            },
            _ => *rect,
        };
        assert(draw_rect == spec_draw_rect(*rect, self.state.fill_style@));
        if self.need_to_draw_shadow() {
            self.log_shadow(&draw_rect);
        }
        let style = crate::paintstate::clone_style(&self.state.fill_style);
        let alpha = self.state.global_alpha;
        let comp = self.state.global_composition;
        self.drawtarget.fill_rect(&draw_rect, &style, alpha, comp);
    }

    /// Clears a rectangle to transparent black.
    pub fn clear_rect(&mut self, rect: &Rect)
        requires
            old(self).wf(),
            rect_in_bounds(*rect),
        ensures
            final(self).wf(),
            clear_rect_op_post(*old(self), *final(self), *rect),
    {
        self.drawtarget.clear_rect(rect);
    }

    /// Strokes a rectangle's outline with the live stroke style.
    ///
    /// A zero-extent gradient paints nothing. A degenerate rectangle
    /// (either extent zero) strokes the diagonal line instead, with the
    /// cap style derived from the join style. Stroking is rasterizer
    /// work, so the operation is recorded; a shadow composite is
    /// recorded first when shadows are on.
    pub fn stroke_rect(&mut self, rect: &Rect)
        requires
            old(self).wf(),
            rect_in_bounds(*rect),
        ensures
            final(self).wf(),
            stroke_rect_op_post(*old(self), *final(self), *rect),
    {
        if self.state.stroke_style.is_zero_size_gradient() {
            return ;
        }
        let style = crate::paintstate::clone_style(&self.state.stroke_style);
        let alpha = self.state.global_alpha;
        let comp = self.state.global_composition;
        let opts = self.stroke_opts();
        if self.need_to_draw_shadow() {
            self.log_shadow(rect);
            self.drawtarget.stroke_rect(rect, &style, alpha, comp, opts);
        } else if rect.size.width == 0 || rect.size.height == 0 {
            let cap = if self.state.line_join == LineJoinStyle::Round {
                LineCapStyle::Round
            } else {
                LineCapStyle::Butt
            };
            let line_opts = StrokeOptions { line_cap: cap, ..opts };
            let to = Point2D {
                x: rect.origin.x + rect.size.width,
                y: rect.origin.y + rect.size.height,
            };
            self.drawtarget.stroke_line(rect.origin, to, &style, alpha, comp, line_opts);
        } else {
            self.drawtarget.stroke_rect(rect, &style, alpha, comp, opts);
        }
    }

    /// Discards all recorded path segments.
    pub fn begin_path(&mut self)
        ensures
            final(self).state == old(self).state,
            final(self).saved_states == old(self).saved_states,
            final(self).drawtarget == old(self).drawtarget,
            final(self).font_caches == old(self).font_caches,
            final(self).path.segments@.len() == 0,
            final(self).path.last_point is None,
            final(self).path.subpath_start is None,
    {
        self.path = Path::new();
    }

    /// Fills the current path with the live fill style; the path is
    /// kept, not cleared.
    pub fn fill(&mut self)
        requires
            old(self).wf(),
        ensures
            final(self).wf(),
            fill_op_post(*old(self), *final(self)),
    {
        if self.state.fill_style.is_zero_size_gradient() {
            return ;
        }
        let snapshot = self.path.snapshot();
        let style = crate::paintstate::clone_style(&self.state.fill_style);
        self.drawtarget.fill_path(
            snapshot,
            &style,
            self.state.global_alpha,
            self.state.global_composition,
        );
    }

    /// Strokes the current path with the live stroke style; the path is
    /// kept, not cleared.
    pub fn stroke(&mut self)
        requires
            old(self).wf(),
        ensures
            final(self).wf(),
            stroke_op_post(*old(self), *final(self)),
    {
        if self.state.stroke_style.is_zero_size_gradient() {
            return ;
        }
        let snapshot = self.path.snapshot();
        let style = crate::paintstate::clone_style(&self.state.stroke_style);
        let opts = self.stroke_opts();
        self.drawtarget.stroke_path(
            snapshot,
            &style,
            self.state.global_alpha,
            self.state.global_composition,
            opts,
        );
    }

    /// Pushes the current path as a clip region for the rasterizer.
    pub fn clip(&mut self)
        requires
            old(self).wf(),
        ensures
            final(self).wf(),
            clip_op_post(*old(self), *final(self)),
    {
        let snapshot = self.path.snapshot();
        self.drawtarget.push_clip(snapshot);
    }
}

/// Nearest-neighbor sample of a straight-order RGBA byte buffer,
/// yielding the BGRA pixel the backend consumes (the channel-order
/// swap folded in).
pub open spec fn sample_rgba(
    bytes: Seq<u8>,
    sw: int,
    sh: int,
    dx0: int,
    dy0: int,
    dwf: int,
    dhf: int,
    x: int,
    y: int,
) -> crate::surface::Pixel {
    let sx = ((x - dx0) * sw) / dwf;
    let sy = ((y - dy0) * sh) / dhf;
    let base = 4 * (sy * sw + sx);
    crate::surface::Pixel {
        b: bytes[base + 2],
        g: bytes[base + 1],
        r: bytes[base],
        a: bytes[base + 3],
    }
}

/// What [`Context2d::write_image`] leaves behind, stated over plain
/// values. Empty or mismatched bytes draw nothing; a smoothed, rotated
/// or differently composited draw is recorded for the rasterizer with
/// the bytes swizzled to BGRA; a nearest-neighbor source-over draw
/// under an axis-preserving transform blends the device box by
/// sampling the RGBA bytes.
pub open spec fn write_image_post(
    w: int,
    h: int,
    t: Transform2D,
    alpha: int,
    comp: CompositionOrBlending,
    data0: Seq<crate::surface::Pixel>,
    log0: Seq<RenderOpView>,
    data1: Seq<crate::surface::Pixel>,
    log1: Seq<RenderOpView>,
    bytes: Seq<u8>,
    image_size: Size2D,
    dest_rect: Rect,
    smoothing_enabled: bool,
) -> bool {
    &&& (bytes.len() == 0 || bytes.len() % 4 != 0 || !crate::surface::spec_image_valid(
        image_size,
        bytes,
    ) ==> data1 == data0 && log1 == log0)
    &&& (bytes.len() > 0 && bytes.len() % 4 == 0 && crate::surface::spec_image_valid(
        image_size,
        bytes,
    ) && !(!smoothing_enabled && comp == CompositionOrBlending::Composition(
        CompositionStyle::SrcOver,
    ) && t.spec_axis_preserving()) ==> ({
        &&& data1 == data0
        &&& log1.len() == log0.len() + 1
        &&& log1.drop_last() == log0
        &&& (log1.last() matches RenderOpView::DrawSurface {
            data: d2,
            image_size: sz2,
            dest_rect: dr2,
            filter: f2,
            alpha: a2,
            comp: c2,
            transform: t2,
        } && sz2 == image_size && dr2 == dest_rect && f2 == (if smoothing_enabled {
            crate::surface::Filter::Linear
        } else {
            crate::surface::Filter::Point
        }) && a2 == alpha && c2 == comp && t2 == t && d2.len() == bytes.len() && (forall|j: int|
            0 <= j < d2.len() ==> d2[j] == swapped_byte(bytes, j)))
    }))
    &&& (bytes.len() > 0 && bytes.len() % 4 == 0 && crate::surface::spec_image_valid(
        image_size,
        bytes,
    ) && !smoothing_enabled && comp == CompositionOrBlending::Composition(
        CompositionStyle::SrcOver,
    ) && t.spec_axis_preserving() ==> ({
        let c1 = t.spec_transform_point(dest_rect.origin);
        let c2 = t.spec_transform_point(
            Point2D {
                x: (dest_rect.origin.x + dest_rect.size.width) as i64,
                y: (dest_rect.origin.y + dest_rect.size.height) as i64,
            },
        );
        let dx0 = crate::geometry::min_int(c1.x as int, c2.x as int);
        let dy0 = crate::geometry::min_int(c1.y as int, c2.y as int);
        let dwf = crate::geometry::max_int(c1.x as int, c2.x as int) - dx0;
        let dhf = crate::geometry::max_int(c1.y as int, c2.y as int) - dy0;
        let b = crate::surface::spec_device_box(t, w, h, dest_rect);
        &&& log1 == log0
        &&& (dwf == 0 || dhf == 0 ==> data1 == data0)
        &&& (dwf > 0 && dhf > 0 ==> forall|x: int, y: int|
            0 <= x < w && 0 <= y < h ==> data1[crate::surface::pix(w, x, y)] == (if b.0 <= x < b.2
                && b.1 <= y < b.3 {
                crate::surface::pixel_over(
                    data0[crate::surface::pix(w, x, y)],
                    crate::surface::scale_pixel(
                        sample_rgba(
                            bytes,
                            image_size.width as int,
                            image_size.height as int,
                            dx0,
                            dy0,
                            dwf,
                            dhf,
                            x,
                            y,
                        ),
                        alpha,
                    ),
                )
            } else {
                data0[crate::surface::pix(w, x, y)]
            }))
    }))
}

impl Context2d {
    /// Writes an RGBA image into a destination rectangle: the bytes are
    /// swizzled to the backend's BGRA order and drawn with the
    /// nearest-neighbor filter when smoothing is disabled, the
    /// high-quality filter otherwise. Empty or mismatched image data
    /// draws nothing.
    pub fn write_image(
        &mut self,
        image_data: Vec<u8>,
        image_size: Size2D,
        dest_rect: Rect,
        smoothing_enabled: bool,
    )
        requires
            old(self).wf(),
            rect_in_bounds(dest_rect),
        ensures
            final(self).wf(),
            final(self).state == old(self).state,
            final(self).saved_states == old(self).saved_states,
            final(self).path == old(self).path,
            final(self).font_caches == old(self).font_caches,
            final(self).drawtarget.width == old(self).drawtarget.width,
            final(self).drawtarget.height == old(self).drawtarget.height,
            final(self).drawtarget.transform == old(self).drawtarget.transform,
            write_image_post(
                old(self).drawtarget.width as int,
                old(self).drawtarget.height as int,
                old(self).state.transform,
                old(self).state.global_alpha as int,
                old(self).state.global_composition,
                old(self).drawtarget.data@,
                log_view(old(self).drawtarget.render_log),
                final(self).drawtarget.data@,
                log_view(final(self).drawtarget.render_log),
                image_data@,
                image_size,
                dest_rect,
                smoothing_enabled,
            ),
    {
        if image_data.len() == 0 {
            return ;
        }
        if image_data.len() % 4 != 0 {
            return ;
        }
        let valid = 0 < image_size.width && image_size.width <= SIDE_MAX as i64 && 0
            < image_size.height && image_size.height <= SIDE_MAX as i64 && {
            proof {
                crate::surface::lemma_area_bound(
                    image_size.width as int,
                    image_size.height as int,
                );
            }
            image_data.len() == 4 * ((image_size.width as usize) * (image_size.height as usize))
        };
        if !valid {
            assert(!crate::surface::spec_image_valid(image_size, image_data@));
            return ;
        }
        let over = match self.state.global_composition {
            CompositionOrBlending::Composition(CompositionStyle::SrcOver) => true,
            _ => false,
        };
        let axis = self.state.transform.axis_preserving();
        let mut bgra = image_data;
        byte_swap(&mut bgra);
        let filter = if smoothing_enabled {
            crate::surface::Filter::Linear
        } else {
            crate::surface::Filter::Point
        };
        proof {
            assert(crate::surface::spec_image_valid(image_size, bgra@));
        }
        self.drawtarget.draw_surface(
            &bgra,
            image_size,
            dest_rect,
            filter,
            self.state.global_alpha,
            self.state.global_composition,
        );
        proof {
            if !(!smoothing_enabled && over && axis) {
                assert(log_view(self.drawtarget.render_log).drop_last() =~= log_view(
                    old(self).drawtarget.render_log,
                ));
            }
            let sw = image_size.width as int;
            let sh = image_size.height as int;
            let t = old(self).state.transform;
            let c1 = t.spec_transform_point(dest_rect.origin);
            let c2 = t.spec_transform_point(
                Point2D {
                    x: (dest_rect.origin.x + dest_rect.size.width) as i64,
                    y: (dest_rect.origin.y + dest_rect.size.height) as i64,
                },
            );
            let dx0 = crate::geometry::min_int(c1.x as int, c2.x as int);
            let dy0 = crate::geometry::min_int(c1.y as int, c2.y as int);
            let dwf = crate::geometry::max_int(c1.x as int, c2.x as int) - dx0;
            let dhf = crate::geometry::max_int(c1.y as int, c2.y as int) - dy0;
            if dwf > 0 && dhf > 0 {
                assert forall|x: int, y: int|
                    dx0 <= x < dx0 + dwf && dy0 <= y < dy0 + dhf implies #[trigger] crate::surface::sample_nearest(
                    bgra@,
                    sw,
                    sh,
                    dx0,
                    dy0,
                    dwf,
                    dhf,
                    x,
                    y,
                ) == sample_rgba(image_data@, sw, sh, dx0, dy0, dwf, dhf, x, y) by {
                    let sx = ((x - dx0) * sw) / dwf;
                    let sy = ((y - dy0) * sh) / dhf;
                    assert(0 <= (x - dx0) * sw) by (nonlinear_arith)
                        requires
                            0 <= x - dx0,
                            0 <= sw,
                    ;
                    assert((x - dx0) * sw < dwf * sw) by (nonlinear_arith)
                        requires
                            0 <= x - dx0 < dwf,
                            0 < sw,
                    ;
                    vstd::arithmetic::div_mod::lemma_multiply_divide_lt((x - dx0) * sw, dwf, sw);
                    vstd::arithmetic::div_mod::lemma_div_pos_is_pos((x - dx0) * sw, dwf);
                    assert(0 <= (y - dy0) * sh) by (nonlinear_arith)
                        requires
                            0 <= y - dy0,
                            0 <= sh,
                    ;
                    assert((y - dy0) * sh < dhf * sh) by (nonlinear_arith)
                        requires
                            0 <= y - dy0 < dhf,
                            0 < sh,
                    ;
                    vstd::arithmetic::div_mod::lemma_multiply_divide_lt((y - dy0) * sh, dhf, sh);
                    vstd::arithmetic::div_mod::lemma_div_pos_is_pos((y - dy0) * sh, dhf);
                    let base = 4 * (sy * sw + sx);
                    assert(0 <= sy * sw + sx < sw * sh) by (nonlinear_arith)
                        requires
                            0 <= sx < sw,
                            0 <= sy < sh,
                    ;
                    assert(base + 3 < 4 * (sw * sh));
                    vstd::arithmetic::div_mod::lemma_mod_multiples_vanish(sy * sw + sx, 0, 4);
                    vstd::arithmetic::div_mod::lemma_mod_multiples_vanish(sy * sw + sx, 1, 4);
                    vstd::arithmetic::div_mod::lemma_mod_multiples_vanish(sy * sw + sx, 2, 4);
                    vstd::arithmetic::div_mod::lemma_mod_multiples_vanish(sy * sw + sx, 3, 4);
                    assert(base % 4 == 0 && (base + 1) % 4 == 1 && (base + 2) % 4 == 2 && (base
                        + 3) % 4 == 3);
                    assert(bgra@[base] == swapped_byte(image_data@, base));
                    assert(bgra@[base + 1] == swapped_byte(image_data@, base + 1));
                    assert(bgra@[base + 2] == swapped_byte(image_data@, base + 2));
                    assert(bgra@[base + 3] == swapped_byte(image_data@, base + 3));
                }
            }
        }
    }
}

/// The bytes [`crate::context_2d::crop_image`] keeps of an image for a
/// clipped source rectangle: the whole image on the fast path, the
/// cropped rows back to back otherwise.
pub open spec fn spec_cropped_bytes(s: Seq<u8>, image_size: Size2D, cl: Rect) -> Seq<u8> {
    if image_size.width * image_size.height <= cl.size.width * cl.size.height {
        s
    } else {
        Seq::new(
            (4 * (cl.size.width * cl.size.height)) as nat,
            |j: int|
                s[4 * ((cl.origin.y + j / (4 * cl.size.width)) * image_size.width + cl.origin.x)
                    + j % (4 * cl.size.width)],
        )
    }
}

/// The BGRA bytes read back from a surface's pixels over a rectangle.
pub open spec fn spec_read_bytes(data: Seq<crate::surface::Pixel>, w: int, sr: Rect) -> Seq<u8> {
    Seq::new(
        (4 * (sr.size.width * sr.size.height)) as nat,
        |j: int|
            crate::surface::pixel_channel(
                data[crate::surface::pix(
                    w,
                    sr.origin.x + (j / 4) % (sr.size.width as int),
                    sr.origin.y + (j / 4) / (sr.size.width as int),
                )],
                j % 4,
            ),
    )
}

/// Everything [`Context2d::draw_image`] does: state, stack, path and
/// fonts untouched; mismatched image data draws nothing; otherwise the
/// source window clipped to the image is written into the destination
/// rectangle per [`write_image_post`], after a shadow composite when
/// shadows are on.
pub open spec fn draw_image_op_post(
    pre: Context2d,
    post: Context2d,
    image_data: Seq<u8>,
    image_size: Size2D,
    dest_rect: Rect,
    source_rect: Rect,
    smoothing_enabled: bool,
) -> bool {
    &&& post.state == pre.state
    &&& post.saved_states == pre.saved_states
    &&& post.path == pre.path
    &&& post.font_caches == pre.font_caches
    &&& post.drawtarget.width == pre.drawtarget.width
    &&& post.drawtarget.height == pre.drawtarget.height
    &&& post.drawtarget.transform == pre.drawtarget.transform
    &&& (!crate::surface::spec_image_valid(image_size, image_data) ==> post.drawtarget
        == pre.drawtarget)
    &&& (crate::surface::spec_image_valid(image_size, image_data) ==> ({
        let cl = (Rect {
            origin: Point2D { x: 0, y: 0 },
            size: image_size,
        }).spec_intersection(source_rect);
        let log_base = if pre.spec_need_to_draw_shadow() {
            log_view(pre.drawtarget.render_log).push(pre.spec_shadow_op(dest_rect))
        } else {
            log_view(pre.drawtarget.render_log)
        };
        write_image_post(
            pre.drawtarget.width as int,
            pre.drawtarget.height as int,
            pre.state.transform,
            pre.state.global_alpha as int,
            pre.state.global_composition,
            pre.drawtarget.data@,
            log_base,
            post.drawtarget.data@,
            log_view(post.drawtarget.render_log),
            spec_cropped_bytes(image_data, image_size, cl),
            cl.size,
            dest_rect,
            smoothing_enabled,
        )
    }))
}

/// Everything [`Context2d::draw_image_self`] does: the pixels read
/// back from the source rectangle are written into the destination
/// rectangle per [`write_image_post`], after a shadow composite when
/// shadows are on.
pub open spec fn draw_image_self_op_post(
    pre: Context2d,
    post: Context2d,
    image_size: Size2D,
    dest_rect: Rect,
    source_rect: Rect,
    smoothing_enabled: bool,
) -> bool {
    &&& post.state == pre.state
    &&& post.saved_states == pre.saved_states
    &&& post.path == pre.path
    &&& post.font_caches == pre.font_caches
    &&& post.drawtarget.width == pre.drawtarget.width
    &&& post.drawtarget.height == pre.drawtarget.height
    &&& post.drawtarget.transform == pre.drawtarget.transform
    &&& ({
        let sr = pre.drawtarget.spec_read_rect(source_rect, image_size);
        let log_base = if pre.spec_need_to_draw_shadow() {
            log_view(pre.drawtarget.render_log).push(pre.spec_shadow_op(dest_rect))
        } else {
            log_view(pre.drawtarget.render_log)
        };
        write_image_post(
            pre.drawtarget.width as int,
            pre.drawtarget.height as int,
            pre.state.transform,
            pre.state.global_alpha as int,
            pre.state.global_composition,
            pre.drawtarget.data@,
            log_base,
            post.drawtarget.data@,
            log_view(post.drawtarget.render_log),
            spec_read_bytes(pre.drawtarget.data@, pre.drawtarget.width as int, sr),
            if pre.spec_need_to_draw_shadow() {
                source_rect.size
            } else {
                image_size
            },
            dest_rect,
            smoothing_enabled,
        )
    })
}

impl Context2d {
    /// Draws an RGBA image: the source window is clipped to the image,
    /// cropped out, and written into the destination rectangle; with
    /// shadows on, the shadow composite is recorded first.
    pub fn draw_image(
        &mut self,
        image_data: Vec<u8>,
        image_size: Size2D,
        dest_rect: Rect,
        source_rect: Rect,
        smoothing_enabled: bool,
    )
        requires
            old(self).wf(),
            rect_in_bounds(dest_rect),
            rect_in_bounds(source_rect),
            size_in_bounds(image_size),
        ensures
            final(self).wf(),
            draw_image_op_post(
                *old(self),
                *final(self),
                image_data@,
                image_size,
                dest_rect,
                source_rect,
                smoothing_enabled,
            ),
    {
        if !(0 < image_size.width && image_size.width <= SIDE_MAX as i64 && 0 < image_size.height
            && image_size.height <= SIDE_MAX as i64) {
            return ;
        }
        proof {
            crate::surface::lemma_area_bound(image_size.width as int, image_size.height as int);
        }
        if image_data.len() != 4 * ((image_size.width as usize) * (image_size.height as usize)) {
            return ;
        }
        let image_rect = Rect { origin: Point2D { x: 0, y: 0 }, size: image_size };
        let cl = image_rect.intersection(&source_rect);
        let cropped = crop_image(image_data, &image_size, &cl);
        proof {
            let iw = image_size.width as int;
            let cw = cl.size.width as int;
            let ch = cl.size.height as int;
            if iw * (image_size.height as int) > cw * ch {
                assert forall|j: int|
                    0 <= j < 4 * (cw * ch) implies cropped@[j] == spec_cropped_bytes(
                    image_data@,
                    image_size,
                    cl,
                )[j] by {
                    let row = j / (4 * cw);
                    let k = j % (4 * cw);
                    assert(cw > 0 && ch > 0) by (nonlinear_arith)
                        requires
                            4 * (cw * ch) > 0,
                            cw >= 0,
                            ch >= 0,
                    ;
                    vstd::arithmetic::div_mod::lemma_fundamental_div_mod(j, 4 * cw);
                    vstd::arithmetic::div_mod::lemma_mod_division_less_than_divisor(j, 4 * cw);
                    vstd::arithmetic::div_mod::lemma_div_pos_is_pos(j, 4 * cw);
                    assert(j < (4 * cw) * ch) by (nonlinear_arith)
                        requires
                            j < 4 * (cw * ch),
                    ;
                    vstd::arithmetic::div_mod::lemma_multiply_divide_lt(j, 4 * cw, ch);
                    assert(crate::surface::byte_at(cw, row, 0, k) == j) by (nonlinear_arith)
                        requires
                            j == (4 * cw) * row + k,
                    ;
                }
                assert(cropped@ =~= spec_cropped_bytes(image_data@, image_size, cl));
            }
        }
        if self.need_to_draw_shadow() {
            self.log_shadow(&dest_rect);
        }
        self.write_image(cropped, cl.size, dest_rect, smoothing_enabled);
    }

    /// Draws a window of this canvas back onto itself: the pixels of
    /// the source rectangle are read back and written into the
    /// destination rectangle; with shadows on, the shadow composite is
    /// recorded first.
    pub fn draw_image_self(
        &mut self,
        image_size: Size2D,
        dest_rect: Rect,
        source_rect: Rect,
        smoothing_enabled: bool,
    )
        requires
            old(self).wf(),
            rect_in_bounds(dest_rect),
            rect_in_bounds(source_rect),
            size_in_bounds(image_size),
        ensures
            final(self).wf(),
            draw_image_self_op_post(
                *old(self),
                *final(self),
                image_size,
                dest_rect,
                source_rect,
                smoothing_enabled,
            ),
    {
        let bytes = self.drawtarget.read_pixels(&source_rect, &image_size);
        proof {
            let sr = self.drawtarget.spec_read_rect(source_rect, image_size);
            let w = self.drawtarget.width as int;
            let iw = sr.size.width as int;
            let ih = sr.size.height as int;
            assert forall|j: int| 0 <= j < 4 * (iw * ih) implies bytes@[j] == spec_read_bytes(
                self.drawtarget.data@,
                w,
                sr,
            )[j] by {
                assert(iw > 0 && ih > 0) by (nonlinear_arith)
                    requires
                        4 * (iw * ih) > 0,
                        iw >= 0,
                        ih >= 0,
                ;
                let p = j / 4;
                let ch = j % 4;
                let row = p / iw;
                let col = p % iw;
                vstd::arithmetic::div_mod::lemma_fundamental_div_mod(j, 4);
                vstd::arithmetic::div_mod::lemma_mod_division_less_than_divisor(j, 4);
                vstd::arithmetic::div_mod::lemma_div_pos_is_pos(j, 4);
                vstd::arithmetic::div_mod::lemma_fundamental_div_mod(p, iw);
                vstd::arithmetic::div_mod::lemma_mod_division_less_than_divisor(p, iw);
                vstd::arithmetic::div_mod::lemma_div_pos_is_pos(p, iw);
                assert(j < 4 * (iw * ih) ==> p < iw * ih) by (nonlinear_arith)
                    requires
                        j == 4 * p + ch,
                        0 <= ch < 4,
                        j < 4 * (iw * ih),
                ;
                assert(p < iw * ih);
                assert(row < ih) by (nonlinear_arith)
                    requires
                        p == iw * row + col,
                        0 <= col < iw,
                        p < iw * ih,
                        iw > 0,
                ;
                assert(crate::surface::byte_at(iw, row, col, ch) == j) by (nonlinear_arith)
                    requires
                        j == 4 * p + ch,
                        p == iw * row + col,
                ;
            }
            assert(bytes@ =~= spec_read_bytes(self.drawtarget.data@, w, sr));
        }
        if self.need_to_draw_shadow() {
            self.log_shadow(&dest_rect);
            self.write_image(bytes, source_rect.size, dest_rect, smoothing_enabled);
        } else {
            self.write_image(bytes, image_size, dest_rect, smoothing_enabled);
        }
    }
}

/// Largest number of characters one text command lays out.
/// The total pen extent of a run of characters: each character moves
/// the pen by its advance (in two halves) plus its scaled ink width,
/// so the unscaled sum of advance and ink width bounds the pen's
/// travel whatever the scale.
pub open spec fn total_extent(fam: crate::fontrenderer::FontFamily, chars: Seq<char>) -> int
    decreases chars.len(),
{
    if chars.len() == 0 {
        0
    } else {
        fam.spec_glyph(chars[0]).advance + fam.spec_glyph(chars[0]).width + total_extent(
            fam,
            chars.drop_first(),
        )
    }
}

/// A run whose characters all have sound glyphs has a nonnegative pen
/// extent.
pub proof fn lemma_total_extent_nonneg(fam: crate::fontrenderer::FontFamily, chars: Seq<char>)
    requires
        crate::fontrenderer::family_wf(fam),
        forall|i: int| 0 <= i < chars.len() ==> fam.spec_has_glyph(#[trigger] chars[i]),
    ensures
        total_extent(fam, chars) >= 0,
    decreases chars.len(),
{
    if chars.len() > 0 {
        assert(glyph_wf_of(fam, chars[0]));
        assert forall|i: int| 0 <= i < chars.drop_first().len() implies fam.spec_has_glyph(
            #[trigger] chars.drop_first()[i],
        ) by {
            assert(chars.drop_first()[i] == chars[i + 1]);
        }
        lemma_total_extent_nonneg(fam, chars.drop_first());
    }
}

/// A path-construction state: the segments so far, the tracked current
/// point and the current subpath's start.
pub ghost struct PathSt {
    pub segs: Seq<crate::path::PathSegment>,
    pub last: Option<Point2D>,
    pub start: Option<Point2D>,
}

/// The construction state of a [`Path`].
pub open spec fn path_st_of(p: Path) -> PathSt {
    PathSt { segs: p.segments@, last: p.last_point, start: p.subpath_start }
}

pub open spec fn st_current(st: PathSt) -> Point2D {
    match st.last {
        Some(p) => p,
        None => Point2D { x: 0, y: 0 },
    }
}

/// A glyph-space point placed on the canvas: flipped by
/// `(x, y) -> (scale x, -y)` and translated to `(ox, y)`.
pub open spec fn placed_point(p: Point2D, num: int, den: int, ox: int, y: int) -> Point2D {
    Point2D {
        x: (crate::fontrenderer::spec_scale_coord(p.x as int, num, den) + ox) as i64,
        y: (-p.y + y) as i64,
    }
}

/// A glyph outline event placed on the canvas.
pub open spec fn placed_event(
    e: crate::fontrenderer::GlyphEvent,
    num: int,
    den: int,
    ox: int,
    y: int,
) -> crate::fontrenderer::GlyphEvent {
    match e {
        crate::fontrenderer::GlyphEvent::MoveTo(p) => crate::fontrenderer::GlyphEvent::MoveTo(
            placed_point(p, num, den, ox, y),
        ),
        crate::fontrenderer::GlyphEvent::LineTo(p) => crate::fontrenderer::GlyphEvent::LineTo(
            placed_point(p, num, den, ox, y),
        ),
        crate::fontrenderer::GlyphEvent::QuadraticTo(cp, to) => (
        crate::fontrenderer::GlyphEvent::QuadraticTo(
            placed_point(cp, num, den, ox, y),
            placed_point(to, num, den, ox, y),
        )),
        crate::fontrenderer::GlyphEvent::CubicTo(c1, c2, to) => (
        crate::fontrenderer::GlyphEvent::CubicTo(
            placed_point(c1, num, den, ox, y),
            placed_point(c2, num, den, ox, y),
            placed_point(to, num, den, ox, y),
        )),
        crate::fontrenderer::GlyphEvent::Close => crate::fontrenderer::GlyphEvent::Close,
    }
}

/// How one placed outline event extends the path: exactly like the
/// geometry engine's primitive operations, quadratics elevated to
/// cubics from the tracked current point.
pub open spec fn path_step_event(st: PathSt, e: crate::fontrenderer::GlyphEvent) -> PathSt {
    match e {
        crate::fontrenderer::GlyphEvent::MoveTo(p) => PathSt {
            segs: st.segs.push(crate::path::PathSegment::MoveTo(p)),
            last: Some(p),
            start: Some(p),
        },
        crate::fontrenderer::GlyphEvent::LineTo(p) => PathSt {
            segs: st.segs.push(crate::path::PathSegment::LineTo(p)),
            last: Some(p),
            start: st.start,
        },
        crate::fontrenderer::GlyphEvent::QuadraticTo(cp, to) => PathSt {
            segs: st.segs.push(
                crate::path::PathSegment::Cubic {
                    ctrl1_x3: crate::path::spec_quad_ctrl1_x3(st_current(st), cp),
                    ctrl2_x3: crate::path::spec_quad_ctrl2_x3(to, cp),
                    to,
                },
            ),
            last: Some(to),
            start: st.start,
        },
        crate::fontrenderer::GlyphEvent::CubicTo(c1, c2, to) => PathSt {
            segs: st.segs.push(
                crate::path::PathSegment::Cubic {
                    ctrl1_x3: Point2D { x: (3 * c1.x) as i64, y: (3 * c1.y) as i64 },
                    ctrl2_x3: Point2D { x: (3 * c2.x) as i64, y: (3 * c2.y) as i64 },
                    to,
                },
            ),
            last: Some(to),
            start: st.start,
        },
        crate::fontrenderer::GlyphEvent::Close => PathSt {
            segs: st.segs.push(crate::path::PathSegment::Close),
            last: st.start,
            start: st.start,
        },
    }
}

/// Folds a glyph's outline into the path at pen position `ox`.
pub open spec fn layout_outline(
    st: PathSt,
    outline: Seq<crate::fontrenderer::GlyphEvent>,
    num: int,
    den: int,
    ox: int,
    y: int,
) -> PathSt
    decreases outline.len(),
{
    if outline.len() == 0 {
        st
    } else {
        layout_outline(
            path_step_event(st, placed_event(outline[0], num, den, ox, y)),
            outline.drop_first(),
            num,
            den,
            ox,
            y,
        )
    }
}

/// Lays a run of characters out along the baseline: each glyph is
/// centered within its advance box (the pen moves half the scaled
/// advance before the glyph, and half again plus the glyph's scaled
/// ink width after).
pub open spec fn layout_text(
    st: PathSt,
    fam: crate::fontrenderer::FontFamily,
    chars: Seq<char>,
    num: int,
    den: int,
    ox: int,
    y: int,
) -> PathSt
    decreases chars.len(),
{
    if chars.len() == 0 {
        st
    } else {
        let g = fam.spec_glyph(chars[0]);
        let adv_off = crate::fontrenderer::spec_scale_coord(g.advance as int, num, 2 * den);
        let ox1 = ox + adv_off;
        let st1 = layout_outline(st, g.outline@, num, den, ox1, y);
        let tw = crate::fontrenderer::spec_scale_coord(g.width as int, num, den);
        layout_text(st1, fam, chars.drop_first(), num, den, ox1 + adv_off + tw, y)
    }
}

/// The total unscaled advance width of a run of characters.
pub open spec fn total_advance(fam: crate::fontrenderer::FontFamily, chars: Seq<char>) -> int
    decreases chars.len(),
{
    if chars.len() == 0 {
        0
    } else {
        fam.spec_glyph(chars[0]).advance + total_advance(fam, chars.drop_first())
    }
}

/// The rational text scale: when a maximum width is given and the run
/// is wider, the run is compressed by `max / total`; otherwise one.
pub open spec fn text_scale(total: int, max_width: Option<i64>) -> (int, int) {
    match max_width {
        Some(m) => {
            if total > m {
                (m as int, total)
            } else {
                (1, 1)
            }
        },
        None => (1, 1),
    }
}

/// The family a text command resolves: the requested family when
/// registered, the platform default sans-serif fallback otherwise.
pub open spec fn spec_resolved_family(
    reg: crate::fontrenderer::FontRegistry,
    name: Seq<char>,
) -> crate::fontrenderer::FontFamily {
    if reg.spec_has_family(name) {
        reg.spec_family(name)
    } else {
        reg.spec_family("DejaVu Sans"@)
    }
}

impl Context2d {
    /// Lays a text run out into the current path: the font family is
    /// resolved (falling back to the platform sans-serif), each glyph's
    /// outline is flipped from Y-up glyph space, scaled to fit an
    /// optional maximum width, and appended through the geometry
    /// engine. An empty string is a complete no-op; an unresolvable
    /// family, a missing glyph or a pen that would leave the machine
    /// coordinate range is an error and leaves the path untouched; the
    /// caller then fills or strokes once for the whole run.
    #[verifier::rlimit(100)]
    pub fn draw_text(&mut self, text: &str, x: i64, y: i64, max_width: Option<i64>) -> (r: Result<
        (),
        (),
    >)
        requires
            old(self).wf(),
            -COORD_MAX / 4 <= x <= COORD_MAX / 4,
            -COORD_MAX / 4 <= y <= COORD_MAX / 4,
            max_width is Some ==> max_width.unwrap() >= 0,
        ensures
            final(self).wf(),
            draw_text_post(*old(self), *final(self), text@, x, y, max_width, r),
    {
        let ghost fam_name = self.state.font.font_family@;
        let n = text.unicode_len();
        if n == 0 {
            return Ok(());
        }
        let fidx = match self.font_caches.find_family(self.state.font.font_family.as_str()) {
            Some(i) => {
                proof {
                    self.font_caches.lemma_family_unique(fam_name, i as int);
                }
                i
            },
            None => {
                match self.font_caches.find_family(crate::csshelper::sans_serif_font_family()) {
                    Some(i) => {
                        proof {
                            self.font_caches.lemma_family_unique("DejaVu Sans"@, i as int);
                        }
                        i
                    },
                    None => {
                        return Err(());
                    },
                }
            },
        };
        let ghost fam = spec_resolved_family(self.font_caches, fam_name);
        proof {
            assert(self.font_caches.families@[fidx as int] == fam);
            assert(crate::fontrenderer::family_wf(fam));
        }
        let mut gl_adv: Vec<i64> = Vec::new();
        let mut gl_w: Vec<i64> = Vec::new();
        let mut gl_out: Vec<Vec<crate::fontrenderer::GlyphEvent>> = Vec::new();
        let mut i: usize = 0;
        while i < n
            invariant
                self.wf(),
                self.state == old(self).state,
                self.saved_states == old(self).saved_states,
                self.drawtarget == old(self).drawtarget,
                self.font_caches == old(self).font_caches,
                self.path == old(self).path,
                n == text@.len(),
                n > 0,
                fidx < self.font_caches.families@.len(),
                self.font_caches.families@[fidx as int] == fam,
                fam == spec_resolved_family(
                    old(self).font_caches,
                    old(self).state.font.font_family@,
                ),
                old(self).font_caches.spec_has_family(old(self).state.font.font_family@) || old(
                    self,
                ).font_caches.spec_has_family("DejaVu Sans"@),
                crate::fontrenderer::family_wf(fam),
                gl_adv@.len() == i,
                gl_w@.len() == i,
                gl_out@.len() == i,
                i <= n,
                forall|k: int| #![trigger text@[k]]
                    0 <= k < i ==> fam.spec_has_glyph(text@[k]) && gl_adv@[k] == fam.spec_glyph(
                        text@[k],
                    ).advance && gl_w@[k] == fam.spec_glyph(text@[k]).width && gl_out@[k]@
                        == fam.spec_glyph(text@[k]).outline@,
            decreases n - i,
        {
            let c = text.get_char(i);
            let ghost pre_adv = gl_adv@;
            let ghost pre_w = gl_w@;
            let ghost pre_out = gl_out@;
            let outline = match self.font_caches.families[fidx].get_glyph(c) {
                Some(g) => {
                    proof {
                        assert(crate::fontrenderer::family_wf(
                            self.font_caches.families@[fidx as int],
                        ));
                        assert(*g == fam.spec_glyph(c));
                        assert(c == text@[i as int]);
                    }
                    gl_adv.push(g.advance);
                    gl_w.push(g.width);
                    clone_events(&g.outline)
                },
                None => {
                    proof {
                        assert(!fam.spec_has_glyph(text@[i as int]));
                    }
                    return Err(());
                },
            };
            gl_out.push(outline);
            proof {
                assert(gl_adv@[i as int] == fam.spec_glyph(text@[i as int]).advance);
                assert(gl_w@[i as int] == fam.spec_glyph(text@[i as int]).width);
                assert(gl_out@[i as int]@ == fam.spec_glyph(text@[i as int]).outline@);
                assert(forall|k: int| 0 <= k < i ==> gl_adv@[k] == pre_adv[k] && gl_w@[k]
                    == pre_w[k] && gl_out@[k] == pre_out[k]);
            }
            i += 1;
        }
        let mut total: i64 = 0;
        let mut total_ext: i64 = 0;
        let mut k: usize = 0;
        proof {
            assert(text@.skip(0) =~= text@);
        }
        while k < n
            invariant
                self.wf(),
                self.state == old(self).state,
                self.saved_states == old(self).saved_states,
                self.drawtarget == old(self).drawtarget,
                self.font_caches == old(self).font_caches,
                self.path == old(self).path,
                n == text@.len(),
                n > 0,
                gl_adv@.len() == n,
                gl_w@.len() == n,
                crate::fontrenderer::family_wf(fam),
                fam == spec_resolved_family(
                    old(self).font_caches,
                    old(self).state.font.font_family@,
                ),
                old(self).font_caches.spec_has_family(old(self).state.font.font_family@) || old(
                    self,
                ).font_caches.spec_has_family("DejaVu Sans"@),
                -COORD_MAX / 4 <= x <= COORD_MAX / 4,
                forall|kk: int| #![trigger text@[kk]]
                    0 <= kk < n ==> fam.spec_has_glyph(text@[kk]) && gl_adv@[kk] == fam.spec_glyph(
                        text@[kk],
                    ).advance && gl_w@[kk] == fam.spec_glyph(text@[kk]).width,
                k <= n,
                0 <= total <= total_ext,
                total_ext <= 2 * COORD_MAX,
                total_advance(fam, text@) == total + total_advance(fam, text@.skip(k as int)),
                total_extent(fam, text@) == total_ext + total_extent(fam, text@.skip(k as int)),
            decreases n - k,
        {
            proof {
                assert(text@.skip(k as int)[0] == text@[k as int]);
                assert(text@.skip(k as int).drop_first() =~= text@.skip(k as int + 1));
                assert(glyph_wf_of(fam, text@[k as int]));
                assert(0 <= gl_adv@[k as int] <= crate::fontrenderer::GLYPH_MAX);
                assert(0 <= gl_w@[k as int] <= crate::fontrenderer::GLYPH_MAX);
            }
            total = total + gl_adv[k];
            total_ext = total_ext + gl_adv[k] + gl_w[k];
            if total_ext > 2 * COORD_MAX {
                // The run is already too wide for any admitted pen
                // position: the machine-limit failure below holds.
                proof {
                    assert forall|ii: int|
                        0 <= ii < text@.skip(k as int + 1).len() implies fam.spec_has_glyph(
                        #[trigger] text@.skip(k as int + 1)[ii],
                    ) by {
                        assert(text@.skip(k as int + 1)[ii] == text@[k as int + 1 + ii]);
                    }
                    lemma_total_extent_nonneg(fam, text@.skip(k as int + 1));
                    assert(total_extent(fam, text@) > 2 * COORD_MAX);
                    assert(!draw_text_ok(*old(self), text@, x));
                }
                return Err(());
            }
            k += 1;
        }
        proof {
            assert(text@.skip(n as int) =~= Seq::<char>::empty());
        }
        if x + total_ext > COORD_MAX - crate::fontrenderer::GLYPH_MAX {
            return Err(());
        }
        let (num, den): (i64, i64) = match max_width {
            Some(m) => {
                if total > m {
                    (m, total)
                } else {
                    (1, 1)
                }
            },
            None => (1, 1),
        };
        let ghost sc = text_scale(total_advance(fam, text@), max_width);
        proof {
            assert(num as int == sc.0 && den as int == sc.1);
        }
        let ghost target = layout_text(
            path_st_of(self.path),
            fam,
            text@,
            num as int,
            den as int,
            x as int,
            y as int,
        );
        let mut ox: i64 = x;
        let mut ci: usize = 0;
        proof {
            assert(text@.skip(0) =~= text@);
        }
        while ci < n
            invariant
                n == text@.len(),
                gl_adv@.len() == n,
                gl_w@.len() == n,
                gl_out@.len() == n,
                crate::fontrenderer::family_wf(fam),
                forall|kk: int| #![trigger text@[kk]]
                    0 <= kk < n ==> fam.spec_has_glyph(text@[kk]) && gl_adv@[kk] == fam.spec_glyph(
                        text@[kk],
                    ).advance && gl_w@[kk] == fam.spec_glyph(text@[kk]).width && gl_out@[kk]@
                        == fam.spec_glyph(text@[kk]).outline@,
                fam == spec_resolved_family(
                    old(self).font_caches,
                    old(self).state.font.font_family@,
                ),
                num as int == text_scale(total_advance(fam, text@), max_width).0,
                den as int == text_scale(total_advance(fam, text@), max_width).1,
                target == layout_text(
                    path_st_of(old(self).path),
                    fam,
                    text@,
                    num as int,
                    den as int,
                    x as int,
                    y as int,
                ),
                0 <= num <= 2 * COORD_MAX,
                0 < den,
                den <= 2 * COORD_MAX,
                num <= den,
                ci <= n,
                -COORD_MAX / 4 <= x <= COORD_MAX / 4,
                -COORD_MAX / 4 <= y <= COORD_MAX / 4,
                x <= ox,
                x + total_extent(fam, text@) <= COORD_MAX - 65536,
                ox + total_extent(fam, text@.skip(ci as int)) <= x + total_extent(fam, text@),
                path_ok(self.path),
                self.state == old(self).state,
                self.saved_states == old(self).saved_states,
                self.drawtarget == old(self).drawtarget,
                self.font_caches == old(self).font_caches,
                self.wf(),
                layout_text(
                    path_st_of(self.path),
                    fam,
                    text@.skip(ci as int),
                    num as int,
                    den as int,
                    ox as int,
                    y as int,
                ) == target,
            decreases n - ci,
        {
            proof {
                assert(text@.skip(ci as int)[0] == text@[ci as int]);
                assert(text@.skip(ci as int).drop_first() =~= text@.skip(ci as int + 1));
                assert(glyph_wf_of(fam, text@[ci as int]));
                assert(0 <= gl_adv@[ci as int] <= crate::fontrenderer::GLYPH_MAX);
                assert(0 <= gl_w@[ci as int] <= crate::fontrenderer::GLYPH_MAX);
                assert forall|ii: int|
                    0 <= ii < text@.skip(ci as int + 1).len() implies fam.spec_has_glyph(
                    #[trigger] text@.skip(ci as int + 1)[ii],
                ) by {
                    assert(text@.skip(ci as int + 1)[ii] == text@[ci as int + 1 + ii]);
                }
                lemma_total_extent_nonneg(fam, text@.skip(ci as int + 1));
                crate::fontrenderer::lemma_half_scale_bound(
                    gl_adv@[ci as int] as int,
                    num as int,
                    den as int,
                );
            }
            let adv_off = crate::fontrenderer::scale_coord(gl_adv[ci], num, 2 * den);
            let ox1 = ox + adv_off;
            let events = &gl_out[ci];
            let ghost outline = fam.spec_glyph(text@[ci as int]).outline@;
            let ghost st_target = layout_outline(
                path_st_of(self.path),
                outline,
                num as int,
                den as int,
                ox1 as int,
                y as int,
            );
            proof {
                assert(outline.skip(0) =~= outline);
            }
            let mut j: usize = 0;
            while j < events.len()
                invariant
                    events@ == outline,
                    ci < n,
                    n == text@.len(),
                    outline == fam.spec_glyph(text@[ci as int]).outline@,
                    crate::fontrenderer::glyph_wf(fam.spec_glyph(text@[ci as int])),
                    0 <= num <= 2 * COORD_MAX,
                    0 < den,
                    num <= den,
                    -COORD_MAX / 4 <= y <= COORD_MAX / 4,
                    -COORD_MAX <= ox1 <= COORD_MAX,
                    ox1 + crate::fontrenderer::GLYPH_MAX <= COORD_MAX,
                    ox1 - crate::fontrenderer::GLYPH_MAX >= -COORD_MAX,
                    j <= events@.len(),
                    path_ok(self.path),
                    self.state == old(self).state,
                    self.saved_states == old(self).saved_states,
                    self.drawtarget == old(self).drawtarget,
                    self.font_caches == old(self).font_caches,
                    self.wf(),
                    layout_outline(
                        path_st_of(self.path),
                        outline.skip(j as int),
                        num as int,
                        den as int,
                        ox1 as int,
                        y as int,
                    ) == st_target,
                decreases events@.len() - j,
            {
                proof {
                    assert(outline.skip(j as int)[0] == outline[j as int]);
                    assert(outline.skip(j as int).drop_first() =~= outline.skip(j as int + 1));
                    assert(fam.spec_glyph(text@[ci as int]).outline@[j as int] == outline[
                        j as int
                    ]);
                    assert(crate::fontrenderer::event_in_glyph_bounds(outline[j as int]));
                }
                let ev = events[j];
                let ghost stj = path_st_of(self.path);
                let ghost pev = placed_event(
                    outline[j as int],
                    num as int,
                    den as int,
                    ox1 as int,
                    y as int,
                );
                proof {
                    match outline[j as int] {
                        crate::fontrenderer::GlyphEvent::MoveTo(p) => {
                            crate::fontrenderer::lemma_scale_coord_bound(
                                p.x as int,
                                num as int,
                                den as int,
                                crate::fontrenderer::GLYPH_MAX as int,
                            );
                        },
                        crate::fontrenderer::GlyphEvent::LineTo(p) => {
                            crate::fontrenderer::lemma_scale_coord_bound(
                                p.x as int,
                                num as int,
                                den as int,
                                crate::fontrenderer::GLYPH_MAX as int,
                            );
                        },
                        crate::fontrenderer::GlyphEvent::QuadraticTo(cp, to) => {
                            crate::fontrenderer::lemma_scale_coord_bound(
                                cp.x as int,
                                num as int,
                                den as int,
                                crate::fontrenderer::GLYPH_MAX as int,
                            );
                            crate::fontrenderer::lemma_scale_coord_bound(
                                to.x as int,
                                num as int,
                                den as int,
                                crate::fontrenderer::GLYPH_MAX as int,
                            );
                        },
                        crate::fontrenderer::GlyphEvent::CubicTo(c1, c2, to) => {
                            crate::fontrenderer::lemma_scale_coord_bound(
                                c1.x as int,
                                num as int,
                                den as int,
                                crate::fontrenderer::GLYPH_MAX as int,
                            );
                            crate::fontrenderer::lemma_scale_coord_bound(
                                c2.x as int,
                                num as int,
                                den as int,
                                crate::fontrenderer::GLYPH_MAX as int,
                            );
                            crate::fontrenderer::lemma_scale_coord_bound(
                                to.x as int,
                                num as int,
                                den as int,
                                crate::fontrenderer::GLYPH_MAX as int,
                            );
                        },
                        crate::fontrenderer::GlyphEvent::Close => {},
                    }
                }
                let flipped = crate::fontrenderer::flip_text(num, den, ev);
                match flipped {
                    crate::fontrenderer::GlyphEvent::MoveTo(p) => {
                        let q = Point2D { x: p.x + ox1, y: p.y + y };
                        proof {
                            assert(pev == crate::fontrenderer::GlyphEvent::MoveTo(q));
                        }
                        self.path.move_to(q);
                    },
                    crate::fontrenderer::GlyphEvent::LineTo(p) => {
                        let q = Point2D { x: p.x + ox1, y: p.y + y };
                        proof {
                            assert(pev == crate::fontrenderer::GlyphEvent::LineTo(q));
                        }
                        self.path.line_to(q);
                    },
                    crate::fontrenderer::GlyphEvent::QuadraticTo(cp, to) => {
                        let q1 = Point2D { x: cp.x + ox1, y: cp.y + y };
                        let q2 = Point2D { x: to.x + ox1, y: to.y + y };
                        proof {
                            assert(pev == crate::fontrenderer::GlyphEvent::QuadraticTo(q1, q2));
                        }
                        self.path.quadratic_curve_to(q1, q2);
                    },
                    crate::fontrenderer::GlyphEvent::CubicTo(c1, c2, to) => {
                        let q1 = Point2D { x: c1.x + ox1, y: c1.y + y };
                        let q2 = Point2D { x: c2.x + ox1, y: c2.y + y };
                        let q3 = Point2D { x: to.x + ox1, y: to.y + y };
                        proof {
                            assert(pev == crate::fontrenderer::GlyphEvent::CubicTo(q1, q2, q3));
                        }
                        self.path.bezier_curve_to(q1, q2, q3);
                    },
                    crate::fontrenderer::GlyphEvent::Close => {
                        proof {
                            assert(pev == crate::fontrenderer::GlyphEvent::Close);
                        }
                        self.path.close_path();
                    },
                }
                proof {
                    assert(path_st_of(self.path) == path_step_event(stj, pev));
                }
                j += 1;
            }
            proof {
                assert(outline.skip(events@.len() as int) =~= Seq::<
                    crate::fontrenderer::GlyphEvent,
                >::empty());
            }
            let tw = crate::fontrenderer::scale_coord(gl_w[ci], num, den);
            ox = ox1 + adv_off + tw;
            ci += 1;
        }
        proof {
            assert(text@.skip(n as int) =~= Seq::<char>::empty());
        }
        Ok(())
    }
}

/// Whether a nonempty text run lays out successfully: the family (or
/// the sans-serif fallback) is registered, every character has a
/// glyph, and the pen stays inside the machine coordinate range.
pub open spec fn draw_text_ok(pre: Context2d, text: Seq<char>, x: i64) -> bool {
    &&& (pre.font_caches.spec_has_family(pre.state.font.font_family@)
        || pre.font_caches.spec_has_family("DejaVu Sans"@))
    &&& ({
        let fam = spec_resolved_family(pre.font_caches, pre.state.font.font_family@);
        &&& (forall|i: int| 0 <= i < text.len() ==> fam.spec_has_glyph(#[trigger] text[i]))
        &&& x + total_extent(fam, text) <= COORD_MAX - crate::fontrenderer::GLYPH_MAX
    })
}

/// Everything [`Context2d::draw_text`] does. An empty string is a
/// complete no-op; otherwise the run succeeds exactly under
/// [`draw_text_ok`], failure leaves the path untouched, and success
/// extends it by the laid-out run. The surface is never touched.
pub open spec fn draw_text_post(
    pre: Context2d,
    post: Context2d,
    text: Seq<char>,
    x: i64,
    y: i64,
    max_width: Option<i64>,
    r: Result<(), ()>,
) -> bool {
    &&& post.state == pre.state
    &&& post.saved_states == pre.saved_states
    &&& post.drawtarget == pre.drawtarget
    &&& post.font_caches == pre.font_caches
    &&& (r is Err ==> post.path == pre.path)
    &&& (text.len() == 0 ==> r is Ok && post.path == pre.path)
    &&& (text.len() > 0 ==> (r is Ok <==> draw_text_ok(pre, text, x)))
    &&& (text.len() > 0 && r is Ok ==> ({
        let fam = spec_resolved_family(pre.font_caches, pre.state.font.font_family@);
        let sc = text_scale(total_advance(fam, text), max_width);
        path_st_of(post.path) == layout_text(
            path_st_of(pre.path),
            fam,
            text,
            sc.0,
            sc.1,
            x as int,
            y as int,
        )
    }))
}

/// Everything [`Context2d::fill_text`] does: behaves exactly as
/// laying the text out and then issuing a single fill for the whole
/// run. An empty string is a complete no-op; a failed layout changes
/// nothing; a successful layout extends the path by the run and
/// records exactly one path fill of it (or nothing when the fill style
/// is a zero-extent gradient). Pixels are never touched.
pub open spec fn fill_text_op_post(
    pre: Context2d,
    post: Context2d,
    text: Seq<char>,
    x: i64,
    y: i64,
    max_width: Option<i64>,
    ok: bool,
) -> bool {
    &&& post.state == pre.state
    &&& post.saved_states == pre.saved_states
    &&& post.font_caches == pre.font_caches
    &&& post.drawtarget.data == pre.drawtarget.data
    &&& post.drawtarget.width == pre.drawtarget.width
    &&& post.drawtarget.height == pre.drawtarget.height
    &&& post.drawtarget.transform == pre.drawtarget.transform
    &&& (text.len() == 0 ==> ok && post.path == pre.path && post.drawtarget == pre.drawtarget)
    &&& (!ok ==> post.path == pre.path && post.drawtarget == pre.drawtarget)
    &&& (text.len() > 0 ==> (ok <==> draw_text_ok(pre, text, x)))
    &&& (text.len() > 0 && ok ==> ({
        let fam = spec_resolved_family(pre.font_caches, pre.state.font.font_family@);
        let sc = text_scale(total_advance(fam, text), max_width);
        let laid = layout_text(path_st_of(pre.path), fam, text, sc.0, sc.1, x as int, y as int);
        &&& path_st_of(post.path) == laid
        &&& (pre.state.fill_style@.is_zero_size_gradient() ==> log_view(post.drawtarget.render_log)
            == log_view(pre.drawtarget.render_log))
        &&& (!pre.state.fill_style@.is_zero_size_gradient() ==> log_view(
            post.drawtarget.render_log,
        ) == log_view(pre.drawtarget.render_log).push(
            RenderOpView::FillPath {
                path: laid.segs,
                style: pre.state.fill_style@,
                alpha: pre.state.global_alpha as int,
                comp: pre.state.global_composition,
                transform: pre.state.transform,
            },
        ))
    }))
}

/// Everything [`Context2d::stroke_text`] does: as
/// [`fill_text_op_post`], with a single stroke of the laid-out run
/// under the live stroke style and attributes.
pub open spec fn stroke_text_op_post(
    pre: Context2d,
    post: Context2d,
    text: Seq<char>,
    x: i64,
    y: i64,
    max_width: Option<i64>,
    ok: bool,
) -> bool {
    &&& post.state == pre.state
    &&& post.saved_states == pre.saved_states
    &&& post.font_caches == pre.font_caches
    &&& post.drawtarget.data == pre.drawtarget.data
    &&& post.drawtarget.width == pre.drawtarget.width
    &&& post.drawtarget.height == pre.drawtarget.height
    &&& post.drawtarget.transform == pre.drawtarget.transform
    &&& (text.len() == 0 ==> ok && post.path == pre.path && post.drawtarget == pre.drawtarget)
    &&& (!ok ==> post.path == pre.path && post.drawtarget == pre.drawtarget)
    &&& (text.len() > 0 ==> (ok <==> draw_text_ok(pre, text, x)))
    &&& (text.len() > 0 && ok ==> ({
        let fam = spec_resolved_family(pre.font_caches, pre.state.font.font_family@);
        let sc = text_scale(total_advance(fam, text), max_width);
        let laid = layout_text(path_st_of(pre.path), fam, text, sc.0, sc.1, x as int, y as int);
        &&& path_st_of(post.path) == laid
        &&& (pre.state.stroke_style@.is_zero_size_gradient() ==> log_view(
            post.drawtarget.render_log,
        ) == log_view(pre.drawtarget.render_log))
        &&& (!pre.state.stroke_style@.is_zero_size_gradient() ==> log_view(
            post.drawtarget.render_log,
        ) == log_view(pre.drawtarget.render_log).push(
            RenderOpView::StrokePath {
                path: laid.segs,
                style: pre.state.stroke_style@,
                alpha: pre.state.global_alpha as int,
                comp: pre.state.global_composition,
                stroke_opts: StrokeOptions {
                    line_width: pre.state.line_width,
                    line_cap: pre.state.line_cap,
                    line_join: pre.state.line_join,
                    miter_limit: pre.state.miter_limit,
                },
                transform: pre.state.transform,
            },
        ))
    }))
}

impl Context2d {
    /// Lays the text out and fills it with the live fill style; an
    /// unresolvable font is an error and paints nothing; an empty
    /// string is a complete no-op with no fill at all.
    pub fn fill_text(&mut self, text: &str, x: i64, y: i64, max_width: Option<i64>) -> (r: Result<
        (),
        (),
    >)
        requires
            old(self).wf(),
            -COORD_MAX / 4 <= x <= COORD_MAX / 4,
            -COORD_MAX / 4 <= y <= COORD_MAX / 4,
            max_width is Some ==> max_width.unwrap() >= 0,
        ensures
            final(self).wf(),
            fill_text_op_post(*old(self), *final(self), text@, x, y, max_width, r is Ok),
    {
        if text.unicode_len() == 0 {
            return Ok(());
        }
        let drew = self.draw_text(text, x, y, max_width);
        match drew {
            Ok(_) => {
                self.fill();
                Ok(())
            },
            Err(_) => Err(()),
        }
    }

    /// Lays the text out and strokes it with the live stroke style; an
    /// unresolvable font is an error and paints nothing; an empty
    /// string is a complete no-op with no stroke at all.
    pub fn stroke_text(&mut self, text: &str, x: i64, y: i64, max_width: Option<i64>) -> (r:
        Result<(), ()>)
        requires
            old(self).wf(),
            -COORD_MAX / 4 <= x <= COORD_MAX / 4,
            -COORD_MAX / 4 <= y <= COORD_MAX / 4,
            max_width is Some ==> max_width.unwrap() >= 0,
        ensures
            final(self).wf(),
            stroke_text_op_post(*old(self), *final(self), text@, x, y, max_width, r is Ok),
    {
        if text.unicode_len() == 0 {
            return Ok(());
        }
        let drew = self.draw_text(text, x, y, max_width);
        match drew {
            Ok(_) => {
                self.stroke();
                Ok(())
            },
            Err(_) => Err(()),
        }
    }
}

/// Soundness of the glyph a family resolves for a character it has.
pub open spec fn glyph_wf_of(fam: crate::fontrenderer::FontFamily, c: char) -> bool {
    fam.spec_has_glyph(c) ==> crate::fontrenderer::glyph_wf(fam.spec_glyph(c))
}

/// Copies a glyph outline.
fn clone_events(events: &Vec<crate::fontrenderer::GlyphEvent>) -> (r: Vec<
    crate::fontrenderer::GlyphEvent,
>)
    ensures
        r@ == events@,
{
    let mut out: Vec<crate::fontrenderer::GlyphEvent> = Vec::new();
    let mut i: usize = 0;
    while i < events.len()
        invariant
            i <= events.len(),
            out@ == events@.subrange(0, i as int),
        decreases events.len() - i,
    {
        out.push(events[i]);
        i += 1;
    }
    assert(out@ =~= events@);
    out
}

/// The premultiplied BGRA pixel a straight RGBA byte quadruple
/// denotes: each color channel is scaled by the alpha with the
/// `(c * a + 127) / 255` rounding, and the channel order turns from
/// RGBA into BGRA.
pub open spec fn spec_put_pixel(data: Seq<u8>, imgw: int, sx: int, sy: int) -> (
crate::surface::Pixel) {
    let base = 4 * (sy * imgw + sx);
    let a = data[base + 3];
    crate::surface::Pixel {
        b: crate::surface::premul_channel(data[base + 2], a),
        g: crate::surface::premul_channel(data[base + 1], a),
        r: crate::surface::premul_channel(data[base + 0], a),
        a: a,
    }
}

/// Drops the bytes of an RGBA8 image outside a crop rectangle,
/// keeping the cropped rows back to back. When the crop area is at
/// least as large as the image, the image is returned unchanged (the
/// fast path).
pub fn crop_image(image_data: Vec<u8>, image_size: &Size2D, crop_rect: &Rect) -> (r: Vec<u8>)
    requires
        0 <= image_size.width <= SIDE_MAX,
        0 <= image_size.height <= SIDE_MAX,
        0 <= crop_rect.origin.x,
        0 <= crop_rect.origin.y,
        0 <= crop_rect.size.width,
        0 <= crop_rect.size.height,
        crop_rect.origin.x + crop_rect.size.width <= image_size.width,
        crop_rect.origin.y + crop_rect.size.height <= image_size.height,
        image_data@.len() == 4 * (image_size.width * image_size.height),
    ensures
        image_size.width * image_size.height <= crop_rect.size.width * crop_rect.size.height
            ==> r@ == image_data@,
        image_size.width * image_size.height > crop_rect.size.width * crop_rect.size.height ==> {
            &&& r@.len() == 4 * (crop_rect.size.width * crop_rect.size.height)
            &&& forall|row: int, k: int|
                0 <= row < crop_rect.size.height && 0 <= k < 4 * crop_rect.size.width
                    ==> r@[#[trigger] crate::surface::byte_at(crop_rect.size.width as int, row, 0, k)]
                    == image_data@[4 * ((crop_rect.origin.y + row) * image_size.width
                    + crop_rect.origin.x) + k]
        },
{
    let iw = image_size.width as usize;
    let ih = image_size.height as usize;
    let cw = crop_rect.size.width as usize;
    let ch = crop_rect.size.height as usize;
    proof {
        crate::surface::lemma_mul_bounds(iw as int, ih as int, SIDE_MAX as int, SIDE_MAX as int);
        crate::surface::lemma_mul_bounds(cw as int, ch as int, SIDE_MAX as int, SIDE_MAX as int);
    }
    if iw * ih <= cw * ch {
        return image_data;
    }
    let total = image_data.len();
    let mut out: Vec<u8> = Vec::new();
    let mut row: usize = 0;
    while row < ch
        invariant
            iw == image_size.width,
            ih == image_size.height,
            cw == crop_rect.size.width,
            ch == crop_rect.size.height,
            iw <= SIDE_MAX,
            ih <= SIDE_MAX,
            cw <= SIDE_MAX,
            ch <= SIDE_MAX,
            0 <= crop_rect.origin.x,
            0 <= crop_rect.origin.y,
            crop_rect.origin.x + cw <= iw,
            crop_rect.origin.y + ch <= ih,
            image_data@.len() == 4 * (iw * ih),
            total == image_data@.len(),
            row <= ch,
            out@.len() == row * (4 * cw),
            forall|rr: int, k: int|
                0 <= rr < row && 0 <= k < 4 * cw ==> out@[#[trigger] crate::surface::byte_at(
                    cw as int,
                    rr,
                    0,
                    k,
                )] == image_data@[4 * ((crop_rect.origin.y + rr) * iw + crop_rect.origin.x) + k],
        decreases ch - row,
    {
        let srow = (crop_rect.origin.y as usize) + row;
        proof {
            crate::surface::lemma_mul_bounds(srow as int, iw as int, SIDE_MAX as int, SIDE_MAX as int);
            crate::surface::lemma_mul_bounds(row as int, 4 * (cw as int), SIDE_MAX as int, 4 * (SIDE_MAX as int));
            assert(4 * ((srow as int) * (iw as int) + crop_rect.origin.x + cw) <= 4 * ((iw as int)
                * (ih as int))) by (nonlinear_arith)
                requires
                    0 <= srow < ih,
                    0 <= crop_rect.origin.x,
                    crop_rect.origin.x + cw <= iw,
                    0 <= iw,
            ;
        }
        let src: usize = 4 * (srow * iw + (crop_rect.origin.x as usize));
        let mut k: usize = 0;
        while k < 4 * cw
            invariant
                iw <= SIDE_MAX,
                ih <= SIDE_MAX,
                cw <= SIDE_MAX,
                ch <= SIDE_MAX,
                cw == crop_rect.size.width,
                image_data@.len() == 4 * (iw * ih),
                row < ch,
                srow == crop_rect.origin.y + row,
                0 <= crop_rect.origin.x,
                crop_rect.origin.x + cw <= iw,
                srow < ih,
                src == 4 * (srow * iw + crop_rect.origin.x),
                total == image_data@.len(),
                src + 4 * cw <= total,
                k <= 4 * cw,
                out@.len() == row * (4 * cw) + k,
                forall|rr: int, kk: int|
                    0 <= rr < row && 0 <= kk < 4 * cw ==> out@[#[trigger] crate::surface::byte_at(
                        cw as int,
                        rr,
                        0,
                        kk,
                    )] == image_data@[4 * ((crop_rect.origin.y + rr) * iw + crop_rect.origin.x)
                        + kk],
                forall|kk: int|
                    0 <= kk < k ==> out@[#[trigger] crate::surface::byte_at(
                        cw as int,
                        row as int,
                        0,
                        kk,
                    )] == image_data@[4 * (srow * iw + crop_rect.origin.x) + kk],
            decreases 4 * cw - k,
        {
            out.push(image_data[src + k]);
            proof {
                assert(crate::surface::byte_at(cw as int, row as int, 0, k as int) == 4 * ((
                row as int) * cw + 0) + k);
                assert(4 * ((row as int) * (cw as int)) == (row as int) * (4 * (cw as int)))
                    by (nonlinear_arith);
                assert forall|rr: int, kk: int| 0 <= rr < row && 0 <= kk < 4 * cw implies 0
                    <= #[trigger] crate::surface::byte_at(cw as int, rr, 0, kk) < (row as int) * (
                4 * (cw as int)) by {
                    assert(4 * (rr * (cw as int)) + kk < (row as int) * (4 * (cw as int)))
                        by (nonlinear_arith)
                        requires
                            0 <= rr < row,
                            0 <= kk < 4 * cw,
                    ;
                    assert(4 * (rr * (cw as int)) >= 0) by (nonlinear_arith)
                        requires
                            0 <= rr,
                            0 <= cw,
                    ;
                }
            }
            k += 1;
        }
        proof {
            assert((row + 1) * (4 * (cw as int)) == row * (4 * (cw as int)) + 4 * cw)
                by (nonlinear_arith);
            assert forall|rr: int, kk: int|
                0 <= rr < row + 1 && 0 <= kk < 4 * cw implies out@[#[trigger] crate::surface::byte_at(
                cw as int,
                rr,
                0,
                kk,
            )] == image_data@[4 * ((crop_rect.origin.y + rr) * iw + crop_rect.origin.x) + kk] by {
                if rr == row {
                }
            }
        }
        row += 1;
    }
    proof {
        assert((ch as int) * (4 * (cw as int)) == 4 * ((cw as int) * (ch as int)))
            by (nonlinear_arith);
    }
    out
}

/// Everything [`Context2d::put_image_data`] does: nothing but pixels
/// change; mismatched image data or an empty clamped dirty rectangle
/// is a complete no-op; otherwise the pixels covered by the
/// offset-translated dirty window are replaced by the premultiplied,
/// swizzled source pixels.
pub open spec fn put_image_data_op_post(
    pre: Context2d,
    post: Context2d,
    imagedata: Seq<u8>,
    offset: Point2D,
    image_data_size: Size2D,
    dirty_rect: Rect,
) -> bool {
    &&& post.state == pre.state
    &&& post.saved_states == pre.saved_states
    &&& post.path == pre.path
    &&& post.font_caches == pre.font_caches
    &&& post.drawtarget.width == pre.drawtarget.width
    &&& post.drawtarget.height == pre.drawtarget.height
    &&& post.drawtarget.transform == pre.drawtarget.transform
    &&& log_view(post.drawtarget.render_log) == log_view(pre.drawtarget.render_log)
    &&& (!crate::surface::spec_image_valid(image_data_size, imagedata) ==> post.drawtarget.data
        == pre.drawtarget.data)
    &&& (crate::surface::spec_image_valid(image_data_size, imagedata) && spec_clamp_dirty_rect(
        dirty_rect,
        image_data_size,
    ) is None ==> post.drawtarget.data == pre.drawtarget.data)
    &&& (crate::surface::spec_image_valid(image_data_size, imagedata) && spec_clamp_dirty_rect(
        dirty_rect,
        image_data_size,
    ) is Some ==> ({
        let cl = spec_clamp_dirty_rect(dirty_rect, image_data_size).unwrap();
        let w = pre.drawtarget.width as int;
        let h = pre.drawtarget.height as int;
        forall|x: int, y: int|
            0 <= x < w && 0 <= y < h ==> post.drawtarget.data@[crate::surface::pix(w, x, y)] == (
            if cl.origin.x + offset.x <= x < cl.origin.x + offset.x + cl.size.width && cl.origin.y
                + offset.y <= y < cl.origin.y + offset.y + cl.size.height {
                spec_put_pixel(imagedata, image_data_size.width as int, x - offset.x, y - offset.y)
            } else {
                pre.drawtarget.data@[crate::surface::pix(w, x, y)]
            })
    }))
}

/// The exact bytes a `GetImageData` query returns: the pixels of the
/// rectangle (clipped to the stated canvas size and the surface),
/// channel-swapped into straight-order RGBA.
pub open spec fn image_data_bytes_post(
    ctx: Context2d,
    dest_rect: Rect,
    canvas_size: Size2D,
    bytes: Seq<u8>,
) -> bool {
    let sr = ctx.drawtarget.spec_read_rect(dest_rect, canvas_size);
    &&& bytes.len() == 4 * (sr.size.width * sr.size.height)
    &&& forall|row: int, col: int, ch: int|
        0 <= row < sr.size.height && 0 <= col < sr.size.width && 0 <= ch < 4 ==> bytes[
            #[trigger] crate::surface::byte_at(sr.size.width as int, row, col, ch)
        ] == crate::surface::pixel_channel(
            ctx.drawtarget.data@[crate::surface::pix(
                ctx.drawtarget.width as int,
                sr.origin.x + col,
                sr.origin.y + row,
            )],
            if ch == 0 {
                2
            } else if ch == 2 {
                0
            } else {
                ch
            },
        )
}

/// The exact bytes a `SendPixels` query returns: the whole surface,
/// row-major, as premultiplied BGRA.
pub open spec fn send_pixels_bytes_post(ctx: Context2d, bytes: Seq<u8>) -> bool {
    let w = ctx.drawtarget.width as int;
    let h = ctx.drawtarget.height as int;
    &&& bytes.len() == 4 * (w * h)
    &&& forall|row: int, col: int, ch: int|
        0 <= row < h && 0 <= col < w && 0 <= ch < 4 ==> bytes[
            #[trigger] crate::surface::byte_at(w, row, col, ch)
        ] == crate::surface::pixel_channel(
            ctx.drawtarget.data@[crate::surface::pix(w, col, row)],
            ch,
        )
}

impl Context2d {
    /// Writes straight RGBA image bytes onto the surface: the dirty
    /// rectangle is clamped in the fixed step order, the dirty window
    /// is premultiplied and swizzled to BGRA, and the result replaces
    /// the covered pixels. Mismatched or empty image data is a
    /// complete no-op.
    pub fn put_image_data(
        &mut self,
        imagedata: Vec<u8>,
        offset: Point2D,
        image_data_size: Size2D,
        dirty_rect: Rect,
    )
        requires
            old(self).wf(),
            point_in_bounds(offset),
            rect_in_bounds(dirty_rect),
            size_in_bounds(image_data_size),
        ensures
            final(self).wf(),
            put_image_data_op_post(
                *old(self),
                *final(self),
                imagedata@,
                offset,
                image_data_size,
                dirty_rect,
            ),
    {
        if !(0 < image_data_size.width && image_data_size.width <= SIDE_MAX as i64 && 0
            < image_data_size.height && image_data_size.height <= SIDE_MAX as i64) {
            return ;
        }
        proof {
            crate::surface::lemma_area_bound(
                image_data_size.width as int,
                image_data_size.height as int,
            );
        }
        let imgw = image_data_size.width as usize;
        let imgh = image_data_size.height as usize;
        if imagedata.len() != 4 * (imgw * imgh) {
            return ;
        }
        let clamped = match clamp_dirty_rect(&dirty_rect, &image_data_size) {
            Some(c) => c,
            None => {
                return ;
            },
        };
        let cw = clamped.size.width as usize;
        let ch = clamped.size.height as usize;
        let cx = clamped.origin.x as usize;
        let cy = clamped.origin.y as usize;
        proof {
            crate::surface::lemma_mul_bounds(cw as int, ch as int, SIDE_MAX as int, SIDE_MAX as int);
        }
        let mut pixels: Vec<crate::surface::Pixel> = Vec::new();
        let mut r: usize = 0;
        while r < ch
            invariant
                imgw == image_data_size.width,
                imgh == image_data_size.height,
                0 < imgw <= SIDE_MAX,
                0 < imgh <= SIDE_MAX,
                imagedata@.len() == 4 * (imgw * imgh),
                cw == clamped.size.width,
                ch == clamped.size.height,
                cx == clamped.origin.x,
                cy == clamped.origin.y,
                cx + cw <= imgw,
                cy + ch <= imgh,
                cw <= SIDE_MAX,
                ch <= SIDE_MAX,
                r <= ch,
                pixels@.len() == r * cw,
                forall|rr: int, cc: int|
                    0 <= rr < r && 0 <= cc < cw ==> pixels@[#[trigger] crate::surface::pix(
                        cw as int,
                        cc,
                        rr,
                    )] == spec_put_pixel(imagedata@, imgw as int, cx + cc, cy + rr),
            decreases ch - r,
        {
            let mut c: usize = 0;
            while c < cw
                invariant
                    imgw == image_data_size.width,
                    0 < imgw <= SIDE_MAX,
                    0 < imgh <= SIDE_MAX,
                    imagedata@.len() == 4 * (imgw * imgh),
                    cw == clamped.size.width,
                    cx == clamped.origin.x,
                    cy == clamped.origin.y,
                    cx + cw <= imgw,
                    cy + ch <= imgh,
                    cw <= SIDE_MAX,
                    r < ch,
                    c <= cw,
                    pixels@.len() == r * cw + c,
                    forall|rr: int, cc: int|
                        0 <= rr < r && 0 <= cc < cw ==> pixels@[#[trigger] crate::surface::pix(
                            cw as int,
                            cc,
                            rr,
                        )] == spec_put_pixel(imagedata@, imgw as int, cx + cc, cy + rr),
                    forall|cc: int|
                        0 <= cc < c ==> pixels@[#[trigger] crate::surface::pix(
                            cw as int,
                            cc,
                            r as int,
                        )] == spec_put_pixel(imagedata@, imgw as int, cx + cc, cy + r),
                decreases cw - c,
            {
                let sx = cx + c;
                let sy = cy + r;
                proof {
                    crate::surface::lemma_pix_bound(imgw as int, imgh as int, sx as int, sy as int);
                    crate::surface::lemma_area_bound(imgw as int, imgh as int);
                }
                let base: usize = 4 * (sy * imgw + sx);
                let alpha = imagedata[base + 3];
                let px = crate::surface::Pixel {
                    b: crate::surface::premultiply_channel(imagedata[base + 2], alpha),
                    g: crate::surface::premultiply_channel(imagedata[base + 1], alpha),
                    r: crate::surface::premultiply_channel(imagedata[base], alpha),
                    a: alpha,
                };
                pixels.push(px);
                proof {
                    assert(crate::surface::pix(cw as int, c as int, r as int) == (r as int) * (
                    cw as int) + c);
                    assert forall|rr: int, cc: int|
                        ((0 <= rr < r && 0 <= cc < cw) || (rr == r && 0 <= cc < c)) implies 0
                        <= #[trigger] crate::surface::pix(cw as int, cc, rr) < (r as int) * (
                    cw as int) + c by {
                        assert(rr * (cw as int) + cc < (r as int) * (cw as int) + c)
                            by (nonlinear_arith)
                            requires
                                (0 <= rr < r && 0 <= cc < cw) || (rr == r && 0 <= cc < c),
                                0 <= c <= cw,
                        ;
                        assert(rr * (cw as int) + cc >= 0) by (nonlinear_arith)
                            requires
                                0 <= rr,
                                0 <= cc,
                                0 <= cw,
                        ;
                    }
                }
                c += 1;
            }
            proof {
                assert((r + 1) * (cw as int) == r * (cw as int) + cw) by (nonlinear_arith);
                assert forall|rr: int, cc: int|
                    0 <= rr < r + 1 && 0 <= cc < cw implies pixels@[#[trigger] crate::surface::pix(
                    cw as int,
                    cc,
                    rr,
                )] == spec_put_pixel(imagedata@, imgw as int, cx + cc, cy + rr) by {
                    if rr == r {
                    }
                }
            }
            r += 1;
        }
        let dest_origin = Point2D {
            x: clamped.origin.x + offset.x,
            y: clamped.origin.y + offset.y,
        };
        proof {
            assert((ch as int) * (cw as int) == (cw as int) * (ch as int)) by (nonlinear_arith);
        }
        self.drawtarget.copy_pixels(&pixels, cw, ch, dest_origin);
        proof {
            let w = old(self).drawtarget.width as int;
            let h = old(self).drawtarget.height as int;
            let cl = spec_clamp_dirty_rect(dirty_rect, image_data_size).unwrap();
            assert forall|x: int, y: int|
                0 <= x < w && 0 <= y < h && cl.origin.x + offset.x <= x < cl.origin.x + offset.x
                    + cl.size.width && cl.origin.y + offset.y <= y < cl.origin.y + offset.y
                    + cl.size.height implies final(self).drawtarget.data@[
                crate::surface::pix(w, x, y)
            ] == spec_put_pixel(
                imagedata@,
                image_data_size.width as int,
                x - offset.x,
                y - offset.y,
            ) by {
                let sx = x - dest_origin.x;
                let sy = y - dest_origin.y;
                assert(final(self).drawtarget.data@[crate::surface::pix(w, x, y)] == pixels@[
                    crate::surface::pix(cw as int, sx, sy)
                ]);
                assert(pixels@[crate::surface::pix(cw as int, sx, sy)] == spec_put_pixel(
                    imagedata@,
                    imgw as int,
                    cx + sx,
                    cy + sy,
                ));
            }
        }
    }

    /// Reads back the pixels of a rectangle as premultiplied BGRA
    /// bytes, clipped to both the stated canvas size and the surface.
    pub fn read_pixels(&self, read_rect: Rect, canvas_size: Size2D) -> (r: Vec<u8>)
        requires
            self.wf(),
            rect_in_bounds(read_rect),
            size_in_bounds(canvas_size),
        ensures
            ({
                let sr = self.drawtarget.spec_read_rect(read_rect, canvas_size);
                &&& r@.len() == 4 * (sr.size.width * sr.size.height)
                &&& forall|row: int, col: int, ch: int|
                    0 <= row < sr.size.height && 0 <= col < sr.size.width && 0 <= ch < 4
                        ==> r@[#[trigger] crate::surface::byte_at(sr.size.width as int, row, col, ch)]
                        == crate::surface::pixel_channel(
                        self.drawtarget.data@[crate::surface::pix(
                            self.drawtarget.width as int,
                            sr.origin.x + col,
                            sr.origin.y + row,
                        )],
                        ch,
                    )
            }),
    {
        self.drawtarget.read_pixels(&read_rect, &canvas_size)
    }

    /// Answers a `GetImageData` query: the pixels of the rectangle,
    /// channel-swapped into straight-order RGBA bytes.
    pub fn image_data(&self, dest_rect: Rect, canvas_size: Size2D) -> (r: Vec<u8>)
        requires
            self.wf(),
            rect_in_bounds(dest_rect),
            size_in_bounds(canvas_size),
        ensures
            image_data_bytes_post(*self, dest_rect, canvas_size, r@),
    {
        let mut dest_data = self.drawtarget.read_pixels(&dest_rect, &canvas_size);
        let ghost pre = dest_data@;
        let ghost sr = self.drawtarget.spec_read_rect(dest_rect, canvas_size);
        proof {
            assert(pre.len() % 4 == 0) by {
                let area = (sr.size.width as int) * (sr.size.height as int);
                assert((4 * area) % 4 == 0) by (nonlinear_arith);
            }
        }
        byte_swap(&mut dest_data);
        proof {
            assert forall|row: int, col: int, ch: int|
                0 <= row < sr.size.height && 0 <= col < sr.size.width && 0 <= ch
                    < 4 implies dest_data@[#[trigger] crate::surface::byte_at(
                sr.size.width as int,
                row,
                col,
                ch,
            )] == crate::surface::pixel_channel(
                self.drawtarget.data@[crate::surface::pix(
                    self.drawtarget.width as int,
                    sr.origin.x + col,
                    sr.origin.y + row,
                )],
                if ch == 0 {
                    2int
                } else if ch == 2 {
                    0int
                } else {
                    ch
                },
            ) by {
                let iw = sr.size.width as int;
                let j = crate::surface::byte_at(iw, row, col, ch);
                assert(0 <= row * iw + col < (iw * (sr.size.height as int))) by (nonlinear_arith)
                    requires
                        0 <= row < sr.size.height,
                        0 <= col < iw,
                ;
                assert(0 <= j < pre.len()) by {
                    assert(4 * (row * iw + col) + ch < 4 * (iw * (sr.size.height as int)))
                        by (nonlinear_arith)
                        requires
                            0 <= row * iw + col < iw * (sr.size.height as int),
                            0 <= ch < 4,
                    ;
                    assert((sr.size.width as int) * (sr.size.height as int) == iw * (
                    sr.size.height as int));
                }
                vstd::arithmetic::div_mod::lemma_mod_multiples_vanish(row * iw + col, ch, 4);
                assert(j % 4 == ch % 4);
                assert(j % 4 == ch);
                assert(dest_data@[j] == swapped_byte(pre, j));
                if ch == 0 {
                    assert(j + 2 == crate::surface::byte_at(iw, row, col, 2));
                    assert(pre[j + 2] == crate::surface::pixel_channel(
                        self.drawtarget.data@[crate::surface::pix(
                            self.drawtarget.width as int,
                            sr.origin.x + col,
                            sr.origin.y + row,
                        )],
                        2,
                    ));
                } else if ch == 2 {
                    assert(j - 2 == crate::surface::byte_at(iw, row, col, 0));
                    assert(pre[j - 2] == crate::surface::pixel_channel(
                        self.drawtarget.data@[crate::surface::pix(
                            self.drawtarget.width as int,
                            sr.origin.x + col,
                            sr.origin.y + row,
                        )],
                        0,
                    ));
                }
            }
        }
        dest_data
    }

    /// Answers a `SendPixels` query: the whole surface as premultiplied
    /// BGRA bytes.
    pub fn send_pixels(&self) -> (r: Vec<u8>)
        requires
            self.wf(),
        ensures
            send_pixels_bytes_post(*self, r@),
    {
        let full = Rect {
            origin: Point2D { x: 0, y: 0 },
            size: Size2D {
                width: self.drawtarget.width as i64,
                height: self.drawtarget.height as i64,
            },
        };
        let size = Size2D {
            width: self.drawtarget.width as i64,
            height: self.drawtarget.height as i64,
        };
        let r = self.drawtarget.read_pixels(&full, &size);
        proof {
            let sr = self.drawtarget.spec_read_rect(full, size);
            assert(sr == full);
        }
        r
    }
}

/// Exec twin of [`Transform2D::spec_coeffs_in_bounds`].
fn transform_coeffs_ok(t: &Transform2D) -> (r: bool)
    ensures
        r == t.spec_coeffs_in_bounds(),
{
    -COORD_MAX <= t.m11 && t.m11 <= COORD_MAX && -COORD_MAX <= t.m12 && t.m12 <= COORD_MAX
        && -COORD_MAX <= t.m21 && t.m21 <= COORD_MAX && -COORD_MAX <= t.m22 && t.m22 <= COORD_MAX
        && -COORD_MAX <= t.m31 && t.m31 <= COORD_MAX && -COORD_MAX <= t.m32 && t.m32 <= COORD_MAX
}

} // verus!
