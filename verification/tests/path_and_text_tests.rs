use rustcanvas::{quad_to_cubic, Context2d, Glyph, GlyphEvent, Path, PathSegment, Point2D};

fn pt(x: i64, y: i64) -> Point2D {
    Point2D { x, y }
}

#[test]
fn quadratic_elevation_is_exact() {
    let (c1, c2) = quad_to_cubic(pt(0, 0), pt(30, 60), pt(90, 0));
    assert_eq!(c1, pt(60, 120));
    assert_eq!(c2, pt(150, 120));
    assert_eq!(c1.x, 3 * 0 + 2 * (30 - 0));
    assert_eq!(c1.y, 3 * 0 + 2 * (60 - 0));
    assert_eq!(c2.x, 3 * 90 + 2 * (30 - 90));
    assert_eq!(c2.y, 3 * 0 + 2 * (60 - 0));
}

#[test]
fn arc_to_zero_radius_is_one_line() {
    let mut path = Path::new();
    path.move_to(pt(0, 0));
    path.arc_to(pt(10, 0), pt(10, 10), 0);
    assert_eq!(path.segments.len(), 2);
    assert_eq!(path.segments[1], PathSegment::LineTo(pt(10, 0)));
    assert_eq!(path.last_point, Some(pt(10, 0)));
}

#[test]
fn arc_to_equal_control_points_is_one_line() {
    let mut path = Path::new();
    path.move_to(pt(0, 0));
    path.arc_to(pt(10, 5), pt(10, 5), 7);
    assert_eq!(path.segments.len(), 2);
    assert_eq!(path.segments[1], PathSegment::LineTo(pt(10, 5)));
}

#[test]
fn arc_to_collinear_points_is_one_line() {
    let mut path = Path::new();
    path.move_to(pt(0, 0));
    path.arc_to(pt(10, 10), pt(20, 20), 7);
    assert_eq!(path.segments.len(), 2);
    assert_eq!(path.segments[1], PathSegment::LineTo(pt(10, 10)));
}

#[test]
fn arc_to_right_angle_derives_tangent_circle() {
    let mut path = Path::new();
    path.move_to(pt(0, 0));
    path.arc_to(pt(100, 0), pt(100, 100), 10);
    assert_eq!(path.segments.len(), 3);
    assert_eq!(path.segments[1], PathSegment::LineTo(pt(90, 0)));
    assert_eq!(
        path.segments[2],
        PathSegment::TangentArc {
            center: pt(90, 10),
            radius: 10,
            from: pt(90, 0),
            to: pt(100, 10),
            ccw: false,
        },
    );
    assert_eq!(path.last_point, Some(pt(100, 10)));
}

#[test]
fn rect_expands_to_move_lines_close() {
    let mut path = Path::new();
    path.rect(rustcanvas::Rect {
        origin: pt(1, 2),
        size: rustcanvas::Size2D { width: 10, height: 20 },
    });
    assert_eq!(path.segments.len(), 5);
    assert_eq!(path.segments[0], PathSegment::MoveTo(pt(1, 2)));
    assert_eq!(path.segments[1], PathSegment::LineTo(pt(11, 2)));
    assert_eq!(path.segments[2], PathSegment::LineTo(pt(11, 22)));
    assert_eq!(path.segments[3], PathSegment::LineTo(pt(1, 22)));
    assert_eq!(path.segments[4], PathSegment::Close);
    assert_eq!(path.last_point, Some(pt(1, 2)));
}

fn test_glyphs() -> Vec<Glyph> {
    vec![Glyph {
        character: 'a',
        advance: 10,
        width: 6,
        outline: vec![GlyphEvent::MoveTo(pt(1, 2)), GlyphEvent::LineTo(pt(3, 4)), GlyphEvent::Close],
    }]
}

#[test]
fn draw_text_places_flipped_outline_on_baseline() {
    let mut ctx = Context2d::new(200, 200);
    ctx.add_font_instance(String::from("Mono Test"), test_glyphs()).unwrap();
    ctx.set_font_style("10px \"Mono Test\"");
    let drew = ctx.fill_text("aa", 100, 50, None);
    assert!(drew.is_ok());
    // Pen: starts at 100; half the advance (5) before each glyph, half
    // plus the ink width (5 + 6) after; glyph space is flipped in y.
    assert_eq!(ctx.path.segments.len(), 6);
    assert_eq!(ctx.path.segments[0], PathSegment::MoveTo(pt(106, 48)));
    assert_eq!(ctx.path.segments[1], PathSegment::LineTo(pt(108, 46)));
    assert_eq!(ctx.path.segments[2], PathSegment::Close);
    assert_eq!(ctx.path.segments[3], PathSegment::MoveTo(pt(122, 48)));
    assert_eq!(ctx.path.segments[4], PathSegment::LineTo(pt(124, 46)));
    assert_eq!(ctx.path.segments[5], PathSegment::Close);
    // The fill afterwards records one path fill for the whole string.
    assert_eq!(ctx.drawtarget.render_log.len(), 1);
}

#[test]
fn draw_text_scales_down_to_max_width() {
    let mut ctx = Context2d::new(200, 200);
    ctx.add_font_instance(String::from("Mono Test"), test_glyphs()).unwrap();
    ctx.set_font_style("10px \"Mono Test\"");
    // Total advance 20 against a maximum width of 10: scale one half.
    let drew = ctx.fill_text("aa", 100, 50, Some(10));
    assert!(drew.is_ok());
    assert_eq!(ctx.path.segments[0], PathSegment::MoveTo(pt(102, 48)));
}

#[test]
fn unresolvable_font_is_an_error() {
    let mut ctx = Context2d::new(100, 100);
    let drew = ctx.fill_text("hi", 10, 10, None);
    assert!(drew.is_err());
    assert_eq!(ctx.path.segments.len(), 0);
    assert_eq!(ctx.drawtarget.render_log.len(), 0);
}

#[test]
fn missing_glyph_is_an_error() {
    let mut ctx = Context2d::new(100, 100);
    ctx.add_font_instance(String::from("Mono Test"), test_glyphs()).unwrap();
    ctx.set_font_style("10px \"Mono Test\"");
    let drew = ctx.fill_text("ab", 10, 10, None);
    assert!(drew.is_err());
    assert_eq!(ctx.path.segments.len(), 0);
}

#[test]
fn crop_keeps_the_cropped_rows() {
    let mut bytes: Vec<u8> = Vec::new();
    for i in 0..(4 * 4 * 4) {
        bytes.push(i as u8);
    }
    let cropped = rustcanvas::crop_image(
        bytes,
        &rustcanvas::Size2D { width: 4, height: 4 },
        &rustcanvas::Rect {
            origin: pt(1, 1),
            size: rustcanvas::Size2D { width: 2, height: 2 },
        },
    );
    assert_eq!(cropped.len(), 2 * 2 * 4);
    // Row 1 starts at byte 16; the crop skips one pixel (4 bytes).
    assert_eq!(&cropped[0..8], &[20, 21, 22, 23, 24, 25, 26, 27]);
    assert_eq!(&cropped[8..16], &[36, 37, 38, 39, 40, 41, 42, 43]);
}

#[test]
fn long_text_within_machine_limits_still_draws() {
    let mut ctx = Context2d::new(200, 200);
    ctx.add_font_instance(String::from("Mono Test"), test_glyphs()).unwrap();
    ctx.set_font_style("10px \"Mono Test\"");
    let mut text = String::new();
    // Far beyond the former per-command character counts; each glyph
    // advances the pen sixteen units, well inside the machine range.
    for _ in 0..5000 {
        text.push('a');
    }
    let drew = ctx.fill_text(text.as_str(), 0, 50, None);
    assert!(drew.is_ok());
    // Three outline events per glyph, one fill for the whole run.
    assert_eq!(ctx.path.segments.len(), 3 * 5000);
    assert_eq!(ctx.drawtarget.render_log.len(), 1);
}

#[test]
fn fill_text_message_lays_out_and_fills_once() {
    let mut session = rustcanvas::CanvasSession::new(200, 200);
    session.ctx.add_font_instance(String::from("Mono Test"), test_glyphs()).unwrap();
    session.handle_msg(rustcanvas::CanvasMsg::Canvas2d(rustcanvas::Canvas2dMsg::SetFontStyle(
        String::from("10px \"Mono Test\""),
    )));
    session.handle_msg(rustcanvas::CanvasMsg::Canvas2d(rustcanvas::Canvas2dMsg::FillText(
        String::from("a"),
        100,
        50,
        None,
    )));
    assert_eq!(session.ctx.path.segments.len(), 3);
    assert_eq!(session.ctx.path.segments[0], PathSegment::MoveTo(pt(106, 48)));
    match session.ctx.drawtarget.render_log.last() {
        Some(rustcanvas::RenderOp::FillPath { path, .. }) => {
            assert_eq!(path.len(), 3);
        }
        _ => panic!("expected one path fill for the whole run"),
    }
}
