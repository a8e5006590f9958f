//! The protocol state machine: one labeled interaction per checkout, state
//! updates in order, query replies, and the degenerate-parameter fallbacks.

use canvas_session::actor::{CanvasActor, CanvasInteraction, InteractionReply};
use canvas_session::geom::{Point2, RectI, RectU, Rgba, SizeU, Transform2};
use canvas_session::ops::{
    CanvasMessage, FillOrStrokeStyle, FillRule, LineCapStyle, LineJoinStyle,
};

fn color(red: u8, green: u8, blue: u8, alpha: u8) -> FillOrStrokeStyle {
    FillOrStrokeStyle::Color(Rgba { red, green, blue, alpha })
}

#[test]
fn fresh_actor_point_in_path_is_false() {
    // a surface created and queried at once, with no prior path operation
    let mut actor = CanvasActor::new(SizeU { w: 100, h: 100 }, true);
    let reply = actor.handle_interaction(CanvasInteraction::IsPointInPath(
        10,
        10,
        FillRule::Nonzero,
    ));
    assert_eq!(reply, InteractionReply::PointTest(false));
    let reply = actor.handle_interaction(CanvasInteraction::IsPointInPath(
        10,
        10,
        FillRule::Evenodd,
    ));
    assert_eq!(reply, InteractionReply::PointTest(false));
}

#[test]
fn rect_subpaths_answer_point_in_path() {
    let mut actor = CanvasActor::new(SizeU { w: 100, h: 100 }, false);
    actor.apply_message(CanvasMessage::Rect(RectI { x: 10, y: 10, w: 20, h: 20 }));
    assert!(actor.is_point_in_path(15, 15, FillRule::Nonzero));
    assert!(!actor.is_point_in_path(5, 5, FillRule::Nonzero));
    // a second overlapping rectangle flips even-odd parity but not nonzero
    actor.apply_message(CanvasMessage::Rect(RectI { x: 12, y: 12, w: 4, h: 4 }));
    assert!(actor.is_point_in_path(13, 13, FillRule::Nonzero));
    assert!(!actor.is_point_in_path(13, 13, FillRule::Evenodd));
    assert!(actor.is_point_in_path(15, 25, FillRule::Evenodd));
    // beginning a new path forgets the old one
    actor.apply_message(CanvasMessage::BeginPath);
    assert!(!actor.is_point_in_path(15, 15, FillRule::Nonzero));
}

#[test]
fn transform_query_replies_current_transform() {
    let mut actor = CanvasActor::new(SizeU { w: 10, h: 10 }, false);
    let reply = actor.handle_interaction(CanvasInteraction::GetTransform);
    assert_eq!(reply, InteractionReply::Transform(Transform2::identity()));
    let t = Transform2 { m11: 1, m12: 2, m21: 3, m22: 4, m31: 5, m32: 6 };
    actor.apply_message(CanvasMessage::SetTransform(t));
    let reply = actor.handle_interaction(CanvasInteraction::GetTransform);
    assert_eq!(reply, InteractionReply::Transform(t));
}

#[test]
fn save_and_restore_stack_state() {
    let mut actor = CanvasActor::new(SizeU { w: 10, h: 10 }, false);
    actor.apply_message(CanvasMessage::SetLineWidth(7));
    actor.apply_message(CanvasMessage::SaveContext);
    actor.apply_message(CanvasMessage::SetLineWidth(2));
    actor.apply_message(CanvasMessage::SetLineCap(LineCapStyle::Round));
    assert_eq!(actor.draw_state().line_width, 2);
    assert_eq!(actor.saved_depth(), 1);
    actor.apply_message(CanvasMessage::RestoreContext);
    assert_eq!(actor.draw_state().line_width, 7);
    assert_eq!(actor.draw_state().line_cap, LineCapStyle::Butt);
    assert_eq!(actor.saved_depth(), 0);
    // a restore with nothing saved is a no-op, never a fault
    actor.apply_message(CanvasMessage::RestoreContext);
    assert_eq!(actor.draw_state().line_width, 7);
    assert_eq!(actor.saved_depth(), 0);
}

#[test]
fn style_setters_update_state_in_order() {
    let mut actor = CanvasActor::new(SizeU { w: 10, h: 10 }, false);
    actor.apply_message(CanvasMessage::SetLineJoin(LineJoinStyle::Bevel));
    actor.apply_message(CanvasMessage::SetMiterLimit(3));
    actor.apply_message(CanvasMessage::SetGlobalAlpha(128));
    actor.apply_message(CanvasMessage::SetShadowBlur(4));
    actor.apply_message(CanvasMessage::Stroke(color(1, 2, 3, 4)));
    let st = actor.draw_state();
    assert_eq!(st.line_join, LineJoinStyle::Bevel);
    assert_eq!(st.miter_limit, 3);
    assert_eq!(st.global_alpha, 128);
    assert_eq!(st.shadow_blur, 4);
    assert_eq!(st.stroke_style, color(1, 2, 3, 4));
    assert_eq!(actor.applied_len(), 5);
}

#[test]
fn fill_then_clear_overwrites_region() {
    let mut actor = CanvasActor::new(SizeU { w: 8, h: 8 }, false);
    actor.apply_message(CanvasMessage::FillRect(
        RectI { x: 0, y: 0, w: 8, h: 4 },
        color(0, 255, 0, 255),
    ));
    actor.apply_message(CanvasMessage::ClearRect(RectI { x: 2, y: 0, w: 2, h: 8 }));
    assert_eq!(actor.pixel(0, 0), 0x00FF_00FF);
    assert_eq!(actor.pixel(2, 0), 0);
    assert_eq!(actor.pixel(3, 3), 0);
    assert_eq!(actor.pixel(4, 3), 0x00FF_00FF);
    assert_eq!(actor.pixel(4, 5), 0);
}

#[test]
fn degenerate_rects_are_tolerated_no_ops() {
    let mut actor = CanvasActor::new(SizeU { w: 8, h: 8 }, false);
    // zero and negative extents cover nothing; far-off rectangles clamp away
    actor.apply_message(CanvasMessage::FillRect(
        RectI { x: 1, y: 1, w: 0, h: 5 },
        color(9, 9, 9, 255),
    ));
    actor.apply_message(CanvasMessage::FillRect(
        RectI { x: 1, y: 1, w: -3, h: 5 },
        color(9, 9, 9, 255),
    ));
    actor.apply_message(CanvasMessage::FillRect(
        RectI { x: 1000, y: 1000, w: 5, h: 5 },
        color(9, 9, 9, 255),
    ));
    actor.apply_message(CanvasMessage::FillRect(
        RectI { x: i64::MIN, y: i64::MIN, w: i64::MAX, h: i64::MAX },
        color(9, 9, 9, 255),
    ));
    for y in 0..8 {
        for x in 0..8 {
            assert_eq!(actor.pixel(x, y), 0);
        }
    }
    // yet every operation was accepted and logged
    assert_eq!(actor.applied_len(), 4);
}

#[test]
fn put_image_data_then_read_back() {
    let mut actor = CanvasActor::new(SizeU { w: 6, h: 6 }, false);
    let rows = vec![vec![10u32, 11, 12], vec![20, 21, 22]];
    actor.apply_message(CanvasMessage::PutImageData(
        RectU { x: 2, y: 3, w: 3, h: 2 },
        rows,
    ));
    assert_eq!(actor.pixel(2, 3), 10);
    assert_eq!(actor.pixel(4, 3), 12);
    assert_eq!(actor.pixel(3, 4), 21);
    assert_eq!(actor.pixel(5, 3), 0);
    let reply = actor.handle_interaction(CanvasInteraction::GetImageData(
        RectU { x: 2, y: 3, w: 3, h: 2 },
        SizeU { w: 6, h: 6 },
        1,
    ));
    assert_eq!(
        reply,
        InteractionReply::Pixels(vec![vec![10, 11, 12], vec![20, 21, 22]])
    );
}

#[test]
fn readback_is_clipped_to_surface() {
    let mut actor = CanvasActor::new(SizeU { w: 4, h: 4 }, false);
    actor.apply_message(CanvasMessage::FillRect(
        RectI { x: 0, y: 0, w: 4, h: 4 },
        color(0, 0, 255, 255),
    ));
    let reply = actor.handle_interaction(CanvasInteraction::GetImageData(
        RectU { x: 3, y: 3, w: 10, h: 10 },
        SizeU { w: 4, h: 4 },
        1,
    ));
    assert_eq!(reply, InteractionReply::Pixels(vec![vec![0x0000_FFFF]]));
    let reply = actor.handle_interaction(CanvasInteraction::GetImageData(
        RectU { x: 9, y: 9, w: 2, h: 2 },
        SizeU { w: 4, h: 4 },
        1,
    ));
    assert_eq!(reply, InteractionReply::Pixels(Vec::new()));
}

#[test]
fn recreate_resizes_and_clears() {
    let mut actor = CanvasActor::new(SizeU { w: 4, h: 4 }, false);
    actor.apply_message(CanvasMessage::FillRect(
        RectI { x: 0, y: 0, w: 4, h: 4 },
        color(255, 255, 255, 255),
    ));
    actor.apply_message(CanvasMessage::Rect(RectI { x: 0, y: 0, w: 4, h: 4 }));
    actor.apply_message(CanvasMessage::Recreate(SizeU { w: 6, h: 2 }));
    assert_eq!(actor.width(), 6);
    assert_eq!(actor.height(), 2);
    assert_eq!(actor.pixel(5, 1), 0);
    assert_eq!(actor.path_len(), 0);
    // the requested size is clamped into the supported range
    actor.apply_message(CanvasMessage::Recreate(SizeU { w: 0, h: 1_000_000 }));
    assert_eq!(actor.width(), 1);
    assert_eq!(actor.height(), 4096);
}

#[test]
fn snapshot_reply_follows_image_key() {
    let mut actor = CanvasActor::new(SizeU { w: 4, h: 4 }, false);
    let reply = actor.handle_interaction(CanvasInteraction::FromLayout);
    assert_eq!(reply, InteractionReply::Snapshot(None));
    actor.set_image_key(44);
    let reply = actor.handle_interaction(CanvasInteraction::FromLayout);
    assert_eq!(reply, InteractionReply::Snapshot(Some(44)));
}

#[test]
fn sink_registration_is_kept_in_order() {
    let mut actor = CanvasActor::new(SizeU { w: 4, h: 4 }, false);
    assert_eq!(
        actor.handle_interaction(CanvasInteraction::FromScript(7)),
        InteractionReply::NoReply
    );
    assert_eq!(
        actor.handle_interaction(CanvasInteraction::FromScript(9)),
        InteractionReply::NoReply
    );
    assert_eq!(actor.pixel_sinks(), &vec![7, 9]);
}

#[test]
fn batch_interaction_applies_all_in_order() {
    let mut actor = CanvasActor::new(SizeU { w: 8, h: 8 }, false);
    let msgs = vec![
        CanvasMessage::MoveTo(Point2 { x: 1, y: 1 }),
        CanvasMessage::FillText("hello".to_string(), 2, 3, None, color(1, 1, 1, 255), false),
        CanvasMessage::SetLineWidth(5),
    ];
    let reply = actor.handle_interaction(CanvasInteraction::Messages(msgs.clone()));
    assert_eq!(reply, InteractionReply::NoReply);
    assert_eq!(actor.applied(), &msgs);
    assert_eq!(actor.draw_state().line_width, 5);
    assert_eq!(actor.draw_state().fill_style, color(1, 1, 1, 255));
    assert_eq!(actor.path_len(), 1);
}

#[test]
fn creation_size_is_clamped() {
    let actor = CanvasActor::new(SizeU { w: 0, h: 9_000_000 }, false);
    assert_eq!(actor.width(), 1);
    assert_eq!(actor.height(), 4096);
    let actor = CanvasActor::new(SizeU { w: 100, h: 100 }, true);
    assert_eq!(actor.width(), 100);
    assert_eq!(actor.height(), 100);
    assert!(actor.antialias());
}
