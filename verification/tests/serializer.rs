//! The ordering serializer: batching, flush policy, and the ordering of
//! tasks against buffered commands.

use canvas_session::actor::CanvasActor;
use canvas_session::geom::{Point2, RectI, Rgba, SizeU, Transform2};
use canvas_session::ops::{CanvasMessage, FillOrStrokeStyle};
use canvas_session::serializer::{QueueEvent, Serializer, StepAction, run_events};

fn red() -> FillOrStrokeStyle {
    FillOrStrokeStyle::Color(Rgba { red: 255, green: 0, blue: 0, alpha: 255 })
}

#[test]
fn commands_then_tick_one_batch_in_order() {
    let mut ser = Serializer::new();
    let c1 = CanvasMessage::FillRect(RectI { x: 0, y: 0, w: 4, h: 4 }, red());
    let c2 = CanvasMessage::ClearRect(RectI { x: 1, y: 1, w: 2, h: 2 });
    assert_eq!(ser.step(QueueEvent::Command(c1.clone())), StepAction::Queued);
    assert_eq!(ser.step(QueueEvent::Command(c2.clone())), StepAction::Queued);
    assert_eq!(ser.buffered(), 2);
    match ser.step(QueueEvent::Tick) {
        StepAction::Flush(batch) => assert_eq!(batch, vec![c1, c2]),
        other => panic!("expected a flush, got {:?}", other),
    }
    assert_eq!(ser.buffered(), 0);
    // a later tick with nothing new performs zero interactions
    assert_eq!(ser.step(QueueEvent::Tick), StepAction::NoInteraction);
}

#[test]
fn empty_ticks_remain_no_ops() {
    let mut ser = Serializer::new();
    for _ in 0..5 {
        assert_eq!(ser.step(QueueEvent::Tick), StepAction::NoInteraction);
        assert_eq!(ser.buffered(), 0);
    }
}

#[test]
fn task_flushes_buffered_commands_first() {
    let mut ser = Serializer::new();
    let c1 = CanvasMessage::MoveTo(Point2 { x: 3, y: 4 });
    let c2 = CanvasMessage::LineTo(Point2 { x: 5, y: 6 });
    ser.step(QueueEvent::Command(c1.clone()));
    ser.step(QueueEvent::Command(c2.clone()));
    match ser.step(QueueEvent::Task(9)) {
        StepAction::FlushAndRun(batch, id) => {
            assert_eq!(batch, vec![c1, c2]);
            assert_eq!(id, 9);
        },
        other => panic!("expected flush-then-run, got {:?}", other),
    }
    assert_eq!(ser.buffered(), 0);
}

#[test]
fn task_on_empty_buffer_runs_immediately() {
    let mut ser = Serializer::new();
    assert_eq!(ser.step(QueueEvent::Task(2)), StepAction::Run(2));
}

#[test]
fn task_observes_state_after_prior_commands() {
    // commands, then a task before the next tick: the task's work observes
    // the actor only after every prior command has been applied
    let t = Transform2 { m11: 2, m12: 0, m21: 0, m22: 2, m31: 7, m32: 8 };
    let mut actor = CanvasActor::new(SizeU { w: 16, h: 16 }, false);
    let events = vec![
        QueueEvent::Command(CanvasMessage::SetTransform(t)),
        QueueEvent::Command(CanvasMessage::MoveTo(Point2 { x: 1, y: 2 })),
        QueueEvent::Task(5),
    ];
    let obs = run_events(&mut actor, events);
    assert_eq!(obs.len(), 1);
    assert_eq!(obs[0].id, 5);
    assert_eq!(obs[0].commands_applied, 2);
    assert_eq!(obs[0].transform, t);
    let log = actor.applied();
    assert_eq!(log.len(), 2);
    assert_eq!(log[0], CanvasMessage::SetTransform(t));
    assert_eq!(log[1], CanvasMessage::MoveTo(Point2 { x: 1, y: 2 }));
}

#[test]
fn batch_is_applied_in_submission_order() {
    let mut actor = CanvasActor::new(SizeU { w: 8, h: 8 }, false);
    let fill = CanvasMessage::FillRect(RectI { x: 0, y: 0, w: 8, h: 8 }, red());
    let clear = CanvasMessage::ClearRect(RectI { x: 2, y: 2, w: 3, h: 3 });
    let events = vec![
        QueueEvent::Command(fill.clone()),
        QueueEvent::Command(clear.clone()),
        QueueEvent::Tick,
    ];
    let obs = run_events(&mut actor, events);
    assert!(obs.is_empty());
    assert_eq!(actor.applied(), &vec![fill, clear]);
    // the clear overwrote the fill inside its region
    assert_eq!(actor.pixel(2, 2), 0);
    assert_eq!(actor.pixel(4, 4), 0);
    // outside the cleared region the fill color remains
    assert_eq!(actor.pixel(0, 0), 0xFF00_00FF);
    assert_eq!(actor.pixel(7, 7), 0xFF00_00FF);
}

#[test]
fn empty_tick_trace_leaves_actor_untouched() {
    let mut actor = CanvasActor::new(SizeU { w: 8, h: 8 }, false);
    let obs = run_events(&mut actor, vec![QueueEvent::Tick, QueueEvent::Tick, QueueEvent::Tick]);
    assert!(obs.is_empty());
    assert_eq!(actor.applied_len(), 0);
}

#[test]
fn every_task_runs_exactly_once_in_order() {
    let mut actor = CanvasActor::new(SizeU { w: 8, h: 8 }, false);
    let events = vec![
        QueueEvent::Task(1),
        QueueEvent::Command(CanvasMessage::BeginPath),
        QueueEvent::Task(2),
        QueueEvent::Tick,
        QueueEvent::Task(3),
    ];
    let obs = run_events(&mut actor, events);
    let ids: Vec<u64> = obs.iter().map(|o| o.id).collect();
    assert_eq!(ids, vec![1, 2, 3]);
    assert_eq!(obs[0].commands_applied, 0);
    assert_eq!(obs[1].commands_applied, 1);
    assert_eq!(obs[2].commands_applied, 1);
}
