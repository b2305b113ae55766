use rustcanvas::{
    create_canvas, parse_fonts_style, Canvas2dMsg, CanvasContextType, CanvasElement, CanvasMsg,
    CanvasReply, CanvasSession, Context2d, FillOrStrokeStyle, Font, FontStyle, FontVariant,
    LinearGradientStyle, PaintState, Point2D, Rect, Rgba, Size2D,
};

fn pt(x: i64, y: i64) -> Point2D {
    Point2D { x, y }
}

fn rect(x: i64, y: i64, w: i64, h: i64) -> Rect {
    Rect { origin: pt(x, y), size: Size2D { width: w, height: h } }
}

#[test]
fn should_new_canvas() {
    CanvasElement::new(1920, 1080, CanvasContextType::CTX2D);
}

#[test]
fn should_get_context_2d() {
    let element = CanvasElement::new(1920, 1080, CanvasContextType::CTX2D);
    match element {
        Some(_) => assert!(true),
        None => assert!(false),
    };
}

#[test]
fn should_get_none_if_context_type_mismatch() {
    let element = CanvasElement::new(1920, 1080, CanvasContextType::WEBGL2);
    match element {
        Some(_) => assert!(false),
        None => assert!(true),
    };
}

#[test]
fn new_context_2d_check() {
    Context2d::new(1920, 1080);
}

#[test]
fn font_default_check() {
    Font::new("10px sans-serif");
}

#[test]
fn paint_state_default_check() {
    let state = PaintState::default();
    match state.fill_style {
        FillOrStrokeStyle::Color(c) => {
            assert_eq!(c, Rgba::new(0, 0, 0, 1));
        }
        _ => assert!(false),
    };
    match state.stroke_style {
        FillOrStrokeStyle::Color(c) => {
            assert_eq!(c, Rgba::new(0, 0, 0, 1));
        }
        _ => assert!(false),
    };
}

#[test]
fn should_parse_size_family() {
    let result = parse_fonts_style("2em \"Open Sans\"");
    assert_eq!(result.font_family, String::from("Open Sans"));
    assert_eq!(result.font_size, 32);
    assert_eq!(result.font_variant, FontVariant::Normal);
}

#[test]
fn should_parse_style_size_family() {
    let result = parse_fonts_style("italic 2em \"Open Sans\"");
    assert_eq!(result.font_family, String::from("Open Sans"));
    assert_eq!(result.font_size, 32);
    assert_eq!(result.font_style, FontStyle::Italic);
    assert_eq!(result.font_variant, FontVariant::Normal);
}

#[test]
fn should_parse_style_variant_weight_size_lineheight_family() {
    let result = parse_fonts_style("italic small-caps bolder 16px/3 cursive");
    assert_eq!(result.font_family, String::from("Apple Chancery"));
    assert_eq!(result.font_size, 16);
    assert_eq!(result.font_variant, FontVariant::SmallCaps);
}

#[test]
fn should_create_canvas() {
    create_canvas(1920, 1080, CanvasContextType::CTX2D);
}

#[test]
fn lib_should_create_canvas() {
    create_canvas(1920, 1080, CanvasContextType::CTX2D);
}

#[test]
fn fill_rect_scenario_red_square() {
    let mut session = CanvasSession::new(100, 100);
    session.handle_msg(CanvasMsg::Canvas2d(Canvas2dMsg::SetFillStyle(FillOrStrokeStyle::Color(
        Rgba::new(255, 0, 0, 255),
    ))));
    session.handle_msg(CanvasMsg::Canvas2d(Canvas2dMsg::FillRect(rect(0, 0, 50, 50))));
    let reply = session.handle_msg(CanvasMsg::Canvas2d(Canvas2dMsg::GetImageData(
        rect(0, 0, 100, 100),
        Size2D { width: 100, height: 100 },
    )));
    let data = match reply {
        CanvasReply::ImageData(d) => d,
        _ => panic!("expected image data"),
    };
    assert_eq!(data.len(), 100 * 100 * 4);
    let inside = 4 * (10 * 100 + 10);
    assert_eq!(&data[inside..inside + 4], &[255, 0, 0, 255]);
    let outside = 4 * (60 * 100 + 60);
    assert_eq!(&data[outside..outside + 4], &[0, 0, 0, 0]);
}

#[test]
fn save_restore_keeps_line_width() {
    let mut session = CanvasSession::new(100, 100);
    session.handle_msg(CanvasMsg::Canvas2d(Canvas2dMsg::SaveContext));
    session.handle_msg(CanvasMsg::Canvas2d(Canvas2dMsg::SetLineWidth(20)));
    session.handle_msg(CanvasMsg::Canvas2d(Canvas2dMsg::RestoreContext));
    assert_eq!(session.ctx.state.line_width, 1);
    session.handle_msg(CanvasMsg::Canvas2d(Canvas2dMsg::StrokeRect(rect(5, 5, 20, 20))));
    match session.ctx.drawtarget.render_log.last() {
        Some(rustcanvas::RenderOp::StrokeRect { stroke_opts, .. }) => {
            assert_eq!(stroke_opts.line_width, 1);
        }
        _ => panic!("expected a stroke operation in the render log"),
    }
}

#[test]
fn restore_underflow_is_a_no_op() {
    let mut ctx = Context2d::new(50, 50);
    ctx.set_line_width(7);
    ctx.restore_context_state();
    assert_eq!(ctx.state.line_width, 7);
    assert_eq!(ctx.saved_states.len(), 0);
}

#[test]
fn nested_save_restore_round_trip() {
    let mut ctx = Context2d::new(50, 50);
    ctx.set_line_width(3);
    ctx.set_global_alpha(700);
    ctx.save_context_state();
    ctx.set_line_width(11);
    ctx.save_context_state();
    ctx.set_global_alpha(10);
    ctx.set_miter_limit(42);
    ctx.restore_context_state();
    ctx.restore_context_state();
    assert_eq!(ctx.state.line_width, 3);
    assert_eq!(ctx.state.global_alpha, 700);
    assert_eq!(ctx.state.miter_limit, 10);
}

#[test]
fn zero_size_gradient_paints_nothing() {
    let mut session = CanvasSession::new(40, 40);
    let gradient = LinearGradientStyle::new(5, 5, 5, 5, Vec::new());
    session.handle_msg(CanvasMsg::Canvas2d(Canvas2dMsg::SetFillStyle(
        FillOrStrokeStyle::LinearGradient(gradient),
    )));
    session.handle_msg(CanvasMsg::Canvas2d(Canvas2dMsg::FillRect(rect(0, 0, 40, 40))));
    assert_eq!(session.ctx.drawtarget.render_log.len(), 0);
    let reply = session.handle_msg(CanvasMsg::Canvas2d(Canvas2dMsg::GetImageData(
        rect(0, 0, 40, 40),
        Size2D { width: 40, height: 40 },
    )));
    let data = match reply {
        CanvasReply::ImageData(d) => d,
        _ => panic!("expected image data"),
    };
    assert!(data.iter().all(|b| *b == 0));
}

#[test]
fn close_is_terminal_and_silent() {
    let mut session = CanvasSession::new(30, 30);
    session.handle_msg(CanvasMsg::Canvas2d(Canvas2dMsg::SetFillStyle(FillOrStrokeStyle::Color(
        Rgba::new(9, 9, 9, 255),
    ))));
    session.handle_msg(CanvasMsg::Close);
    let reply = session.handle_msg(CanvasMsg::Canvas2d(Canvas2dMsg::FillRect(rect(0, 0, 30, 30))));
    match reply {
        CanvasReply::Closed => {}
        _ => panic!("a closed session must say so"),
    }
    assert!(session.ctx.drawtarget.data.iter().all(|p| p.a == 0));
    let reply2 = session.handle_msg(CanvasMsg::GetImageData(
        rect(0, 0, 30, 30),
        Size2D { width: 30, height: 30 },
    ));
    match reply2 {
        CanvasReply::Closed => {}
        _ => panic!("queries after close are not processed"),
    }
}

#[test]
fn premultiplication_rounds_half_up() {
    assert_eq!(rustcanvas::premultiply_channel(200, 255), 200);
    assert_eq!(rustcanvas::premultiply_channel(0, 255), 0);
    assert_eq!(rustcanvas::premultiply_channel(200, 0), 0);
    assert_eq!(rustcanvas::premultiply_channel(255, 0), 0);
    assert_eq!(rustcanvas::premultiply_channel(200, 128), 100);
    assert_eq!(rustcanvas::premultiply_channel(255, 128), 128);
    assert_eq!(rustcanvas::premultiply_channel(1, 128), 1);
}

#[test]
fn dirty_rect_clamp_steps() {
    let clamped = rustcanvas::clamp_dirty_rect(
        &rect(-2, -2, 5, 5),
        &Size2D { width: 10, height: 10 },
    );
    assert_eq!(clamped, Some(rect(0, 0, 3, 3)));
    let negative = rustcanvas::clamp_dirty_rect(
        &rect(4, 4, -3, -3),
        &Size2D { width: 10, height: 10 },
    );
    assert_eq!(negative, Some(rect(1, 1, 3, 3)));
    let empty = rustcanvas::clamp_dirty_rect(
        &rect(20, 20, 5, 5),
        &Size2D { width: 10, height: 10 },
    );
    assert_eq!(empty, None);
}

#[test]
fn byte_swap_exchanges_first_and_third() {
    let mut data = vec![1u8, 2, 3, 4, 5, 6, 7, 8];
    rustcanvas::byte_swap(&mut data);
    assert_eq!(data, vec![3u8, 2, 1, 4, 7, 6, 5, 8]);
}

#[test]
fn put_image_data_premultiplies_and_swizzles() {
    let mut session = CanvasSession::new(10, 10);
    let mut bytes: Vec<u8> = Vec::new();
    for _ in 0..4 {
        bytes.push(10);
        bytes.push(20);
        bytes.push(30);
        bytes.push(255);
    }
    session.handle_msg(CanvasMsg::Canvas2d(Canvas2dMsg::PutImageData(
        bytes,
        pt(1, 1),
        Size2D { width: 2, height: 2 },
        rect(0, 0, 2, 2),
    )));
    let reply = session.handle_msg(CanvasMsg::Canvas2d(Canvas2dMsg::GetImageData(
        rect(0, 0, 10, 10),
        Size2D { width: 10, height: 10 },
    )));
    let data = match reply {
        CanvasReply::ImageData(d) => d,
        _ => panic!("expected image data"),
    };
    let at = |x: usize, y: usize| 4 * (y * 10 + x);
    assert_eq!(&data[at(1, 1)..at(1, 1) + 4], &[10, 20, 30, 255]);
    assert_eq!(&data[at(2, 2)..at(2, 2) + 4], &[10, 20, 30, 255]);
    assert_eq!(&data[at(0, 0)..at(0, 0) + 4], &[0, 0, 0, 0]);
    assert_eq!(&data[at(3, 3)..at(3, 3) + 4], &[0, 0, 0, 0]);
}

#[test]
fn mismatched_pattern_is_rejected() {
    let mut ctx = Context2d::new(10, 10);
    let bad = rustcanvas::SurfaceStyle::new(
        vec![1u8, 2, 3],
        Size2D { width: 4, height: 4 },
        true,
        true,
    );
    ctx.set_fill_style(FillOrStrokeStyle::Surface(bad));
    match ctx.state.fill_style {
        FillOrStrokeStyle::Color(c) => assert_eq!(c, Rgba::new(0, 0, 0, 1)),
        _ => panic!("an invalid pattern must leave the style unchanged"),
    }
}

#[test]
fn point_in_path_is_answered_unsupported() {
    let mut session = CanvasSession::new(20, 20);
    session.handle_msg(CanvasMsg::Canvas2d(Canvas2dMsg::MoveTo(pt(0, 0))));
    session.handle_msg(CanvasMsg::Canvas2d(Canvas2dMsg::LineTo(pt(10, 0))));
    let before = session.ctx.path.segments.len();
    let reply = session.handle_msg(CanvasMsg::Canvas2d(Canvas2dMsg::IsPointInPath(
        5,
        5,
        rustcanvas::FillRule::Nonzero,
    )));
    match reply {
        CanvasReply::Unsupported => {}
        _ => panic!("the point test must be answered as unsupported"),
    }
    assert_eq!(session.ctx.path.segments.len(), before);
    assert_eq!(session.ctx.drawtarget.render_log.len(), 0);
}

#[test]
fn empty_text_is_a_complete_no_op() {
    let mut ctx = Context2d::new(50, 50);
    // No fonts registered at all: even so, an empty string succeeds
    // and neither lays anything out nor records a fill.
    let drew = ctx.fill_text("", 10, 10, None);
    assert!(drew.is_ok());
    assert_eq!(ctx.path.segments.len(), 0);
    assert_eq!(ctx.drawtarget.render_log.len(), 0);
    let stroked = ctx.stroke_text("", 10, 10, None);
    assert!(stroked.is_ok());
    assert_eq!(ctx.drawtarget.render_log.len(), 0);
}

#[test]
fn not_implement_changes_nothing() {
    let mut session = CanvasSession::new(20, 20);
    session.handle_msg(CanvasMsg::Canvas2d(Canvas2dMsg::MoveTo(pt(1, 2))));
    let before = session.ctx.path.segments.len();
    let reply = session.handle_msg(CanvasMsg::Canvas2d(Canvas2dMsg::NotImplement));
    match reply {
        CanvasReply::NoReply => {}
        _ => panic!("an explicit no-op has no reply"),
    }
    assert_eq!(session.ctx.path.segments.len(), before);
    assert!(session.ctx.drawtarget.data.iter().all(|p| p.a == 0));
    assert_eq!(session.ctx.drawtarget.render_log.len(), 0);
}
