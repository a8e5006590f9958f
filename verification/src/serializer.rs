//! The ordering serializer: one logical consumer draining a single,
//! strictly-FIFO, multi-producer event stream.
//!
//! Per dequeued [`QueueEvent`] the serializer decides a [`StepAction`]: a
//! command is appended to the buffer in O(1); a tick drains a non-empty
//! buffer into exactly one batch interaction (an empty-buffer tick does
//! nothing); a task first forces the same flush, so its unit of work begins
//! only after every command submitted before it has been handed to the
//! actor, then runs to completion. The flush handoff itself is an
//! independently scheduled unit of work: the loop that owns the serializer
//! hands it off and keeps draining without waiting for the interaction to
//! finish, and the guarantee proved here is that the batch interaction is
//! initiated, in order, before the task runs.
//!
//! The spec functions below fold a whole event trace into the buffer
//! contents, the batches handed off, and the observations tasks make; the
//! lemmas are the ordering laws of the stream, and [`run_events`] is the
//! drain loop itself, verified against them.

use vstd::prelude::*;
use crate::actor::{
    lemma_messages_concat, model_after_messages, ActorModel, CanvasActor, CanvasInteraction,
};
use crate::geom::Transform2;
use crate::ops::CanvasMessage;

verus! {

/// One event of the single multi-producer stream the serializer consumes.
#[derive(Clone, PartialEq, Debug)]
pub enum QueueEvent {
    /// The periodic flush timer fired.
    Tick,
    /// A producer submitted one fire-and-forget operation.
    Command(CanvasMessage),
    /// A producer submitted a unit of work, named by its handle.
    Task(u64),
}

/// What the serializer decides for one dequeued event.
#[derive(PartialEq, Debug)]
pub enum StepAction {
    /// The command was appended to the buffer; no interaction starts.
    Queued,
    /// The tick found an empty buffer; no interaction starts.
    NoInteraction,
    /// Hand off the drained buffer as one batch interaction; the serializer
    /// keeps draining without waiting for it to finish.
    Flush(Vec<CanvasMessage>),
    /// Hand off the drained buffer as one batch interaction, then run the
    /// task's work to completion.
    FlushAndRun(Vec<CanvasMessage>, u64),
    /// The buffer was empty: run the task's work to completion at once.
    Run(u64),
}

/// The buffer after one event: a command is appended, anything else leaves
/// the buffer drained.
pub open spec fn buffer_step(b: Seq<CanvasMessage>, e: QueueEvent) -> Seq<CanvasMessage> {
    match e {
        QueueEvent::Command(m) => b.push(m),
        QueueEvent::Tick => Seq::empty(),
        QueueEvent::Task(_) => Seq::empty(),
    }
}

/// Whether one event hands off a batch: exactly when it drains a non-empty
/// buffer.
pub open spec fn step_emits(b: Seq<CanvasMessage>, e: QueueEvent) -> bool {
    b.len() > 0 && !(e is Command)
}

/// The buffer contents after draining a whole trace, starting empty.
pub open spec fn buffer_after(evs: Seq<QueueEvent>) -> Seq<CanvasMessage>
    decreases evs.len(),
{
    if evs.len() == 0 {
        Seq::empty()
    } else {
        buffer_step(buffer_after(evs.drop_last()), evs.last())
    }
}

/// The batches handed off while draining a trace, in handoff order.
pub open spec fn batches_of(evs: Seq<QueueEvent>) -> Seq<Seq<CanvasMessage>>
    decreases evs.len(),
{
    if evs.len() == 0 {
        Seq::empty()
    } else {
        let pre = batches_of(evs.drop_last());
        let b = buffer_after(evs.drop_last());
        if step_emits(b, evs.last()) {
            pre.push(b)
        } else {
            pre
        }
    }
}

/// The commands of a trace, in submission order.
pub open spec fn commands_of(evs: Seq<QueueEvent>) -> Seq<CanvasMessage>
    decreases evs.len(),
{
    if evs.len() == 0 {
        Seq::empty()
    } else {
        let pre = commands_of(evs.drop_last());
        match evs.last() {
            QueueEvent::Command(m) => pre.push(m),
            _ => pre,
        }
    }
}

/// The task handles of a trace, in submission order.
pub open spec fn task_ids_of(evs: Seq<QueueEvent>) -> Seq<u64>
    decreases evs.len(),
{
    if evs.len() == 0 {
        Seq::empty()
    } else {
        let pre = task_ids_of(evs.drop_last());
        match evs.last() {
            QueueEvent::Task(t) => pre.push(t),
            _ => pre,
        }
    }
}

/// The concatenation of a sequence of batches.
pub open spec fn concat_batches(bs: Seq<Seq<CanvasMessage>>) -> Seq<CanvasMessage>
    decreases bs.len(),
{
    if bs.len() == 0 {
        Seq::empty()
    } else {
        concat_batches(bs.drop_last()) + bs.last()
    }
}

/// Every command handed to the actor while draining a trace, in handoff
/// order.
pub open spec fn delivered_of(evs: Seq<QueueEvent>) -> Seq<CanvasMessage> {
    concat_batches(batches_of(evs))
}

/// What one task's unit of work observes at the moment the serializer runs
/// it: its handle, how many commands of the run had been handed to the actor
/// by then, and the transform it reads from the actor.
#[derive(Clone, Copy, PartialEq, Eq, Structural, Debug)]
pub struct TaskObservation {
    pub id: u64,
    pub commands_applied: u64,
    pub transform: Transform2,
}

/// The observations the tasks of a trace make, in run order: each task runs
/// exactly when its event is drained, after every command submitted before
/// it has been applied, against an actor that started at `a0`.
pub open spec fn obs_of(a0: ActorModel, evs: Seq<QueueEvent>) -> Seq<TaskObservation>
    decreases evs.len(),
{
    if evs.len() == 0 {
        Seq::empty()
    } else {
        let pre = obs_of(a0, evs.drop_last());
        match evs.last() {
            QueueEvent::Task(t) => pre.push(TaskObservation {
                id: t,
                commands_applied: commands_of(evs.drop_last()).len() as u64,
                transform: model_after_messages(
                    a0,
                    commands_of(evs.drop_last()),
                ).state.transform,
            }),
            _ => pre,
        }
    }
}

/// A trace has no more commands than events.
pub proof fn lemma_commands_len(evs: Seq<QueueEvent>)
    ensures
        commands_of(evs).len() <= evs.len(),
    decreases evs.len(),
{
    if evs.len() > 0 {
        lemma_commands_len(evs.drop_last());
    }
}

/// Order preservation: at every point of a drain, the commands already
/// handed off, followed by the commands still buffered, are exactly the
/// commands submitted so far, in submission order. Batches neither lose,
/// duplicate nor reorder commands.
pub proof fn lemma_order_preserved(evs: Seq<QueueEvent>)
    ensures
        delivered_of(evs) + buffer_after(evs) == commands_of(evs),
    decreases evs.len(),
{
    if evs.len() == 0 {
        assert(delivered_of(evs) + buffer_after(evs) =~= commands_of(evs));
    } else {
        let pre = evs.drop_last();
        lemma_order_preserved(pre);
        let e = evs.last();
        let b = buffer_after(pre);
        match e {
            QueueEvent::Command(m) => {
                assert(batches_of(evs) == batches_of(pre));
                assert(buffer_after(evs) == b.push(m));
                assert(delivered_of(evs) + buffer_after(evs) =~= (delivered_of(pre) + b).push(m));
                assert(commands_of(evs) == commands_of(pre).push(m));
            },
            _ => {
                if b.len() > 0 {
                    assert(batches_of(evs) == batches_of(pre).push(b));
                    assert(concat_batches(batches_of(pre).push(b)) == concat_batches(
                        batches_of(pre),
                    ) + b) by {
                        assert(batches_of(pre).push(b).drop_last() =~= batches_of(pre));
                        assert(batches_of(pre).push(b).last() == b);
                    }
                    assert(buffer_after(evs) =~= Seq::<CanvasMessage>::empty());
                    assert(delivered_of(evs) + buffer_after(evs) =~= delivered_of(pre) + b);
                } else {
                    assert(batches_of(evs) == batches_of(pre));
                    assert(b =~= Seq::<CanvasMessage>::empty());
                    assert(buffer_after(evs) =~= Seq::<CanvasMessage>::empty());
                    assert(delivered_of(evs) + buffer_after(evs) =~= delivered_of(pre) + b);
                }
                assert(commands_of(evs) == commands_of(pre));
            },
        }
    }
}

/// A task drains the buffer before it runs: after an event trace ending in a
/// task, nothing is left buffered, and every command submitted before the
/// task has been handed to the actor, in submission order.
pub proof fn lemma_task_flushes_first(evs: Seq<QueueEvent>)
    requires
        evs.len() > 0,
        evs.last() is Task,
    ensures
        buffer_after(evs) == Seq::<CanvasMessage>::empty(),
        delivered_of(evs) == commands_of(evs),
{
    lemma_order_preserved(evs);
    assert(buffer_after(evs) =~= Seq::<CanvasMessage>::empty());
    assert(delivered_of(evs) + buffer_after(evs) =~= delivered_of(evs));
}

/// An empty-buffer tick performs zero interactions and leaves the buffer
/// empty.
pub proof fn lemma_empty_tick_no_interaction(evs: Seq<QueueEvent>)
    requires
        buffer_after(evs).len() == 0,
    ensures
        batches_of(evs.push(QueueEvent::Tick)) == batches_of(evs),
        buffer_after(evs.push(QueueEvent::Tick)).len() == 0,
{
    let evs2 = evs.push(QueueEvent::Tick);
    assert(evs2.drop_last() =~= evs);
    assert(evs2.last() == QueueEvent::Tick);
}

/// A trace of `n` ticks.
pub open spec fn tick_events(n: nat) -> Seq<QueueEvent> {
    Seq::new(n, |i: int| QueueEvent::Tick)
}

/// Repeated empty-buffer ticks remain no-ops: any number of further ticks
/// hands off no batch and leaves the buffer empty.
pub proof fn lemma_repeated_empty_ticks(evs: Seq<QueueEvent>, n: nat)
    requires
        buffer_after(evs).len() == 0,
    ensures
        batches_of(evs + tick_events(n)) == batches_of(evs),
        buffer_after(evs + tick_events(n)).len() == 0,
    decreases n,
{
    if n == 0 {
        assert(evs + tick_events(0) =~= evs);
    } else {
        lemma_repeated_empty_ticks(evs, (n - 1) as nat);
        assert(evs + tick_events(n) =~= (evs + tick_events((n - 1) as nat)).push(
            QueueEvent::Tick,
        ));
        lemma_empty_tick_no_interaction(evs + tick_events((n - 1) as nat));
    }
}

/// A trace submitting the given commands, in order, and nothing else.
pub open spec fn command_events(cmds: Seq<CanvasMessage>) -> Seq<QueueEvent> {
    Seq::new(cmds.len(), |i: int| QueueEvent::Command(cmds[i]))
}

/// Commands alone are buffered in submission order and hand off nothing.
pub proof fn lemma_commands_only_buffer(cmds: Seq<CanvasMessage>)
    ensures
        buffer_after(command_events(cmds)) == cmds,
        batches_of(command_events(cmds)) == Seq::<Seq<CanvasMessage>>::empty(),
        commands_of(command_events(cmds)) == cmds,
        task_ids_of(command_events(cmds)) == Seq::<u64>::empty(),
    decreases cmds.len(),
{
    let evs = command_events(cmds);
    if cmds.len() == 0 {
        assert(buffer_after(evs) =~= cmds);
        assert(batches_of(evs) =~= Seq::<Seq<CanvasMessage>>::empty());
        assert(commands_of(evs) =~= cmds);
        assert(task_ids_of(evs) =~= Seq::<u64>::empty());
    } else {
        lemma_commands_only_buffer(cmds.drop_last());
        assert(evs.drop_last() =~= command_events(cmds.drop_last()));
        assert(evs.last() == QueueEvent::Command(cmds.last()));
        assert(buffer_after(evs) =~= cmds.drop_last().push(cmds.last()));
        assert(commands_of(evs) =~= cmds.drop_last().push(cmds.last()));
        assert(cmds.drop_last().push(cmds.last()) =~= cmds);
    }
}

/// For any trace of command submissions followed by one task submission,
/// the task's work begins only after every one of those commands has been
/// handed to the actor, in submission order: the drain hands off exactly
/// those commands, and the trace's one observation sees all of them applied.
pub proof fn lemma_task_after_all_commands(a0: ActorModel, cmds: Seq<CanvasMessage>, t: u64)
    ensures
        delivered_of(command_events(cmds).push(QueueEvent::Task(t))) == cmds,
        obs_of(a0, command_events(cmds).push(QueueEvent::Task(t))) == seq![
            TaskObservation {
                id: t,
                commands_applied: cmds.len() as u64,
                transform: model_after_messages(a0, cmds).state.transform,
            },
        ],
{
    let evs = command_events(cmds).push(QueueEvent::Task(t));
    lemma_commands_only_buffer(cmds);
    assert(evs.drop_last() =~= command_events(cmds));
    assert(evs.last() == QueueEvent::Task(t));
    lemma_task_flushes_first(evs);
    assert(commands_of(evs) == commands_of(command_events(cmds)));
    lemma_tasks_run_exactly_once(a0, command_events(cmds));
    assert(obs_of(a0, command_events(cmds)) =~= Seq::<TaskObservation>::empty());
    assert(obs_of(a0, evs) =~= seq![
        TaskObservation {
            id: t,
            commands_applied: cmds.len() as u64,
            transform: model_after_messages(a0, cmds).state.transform,
        },
    ]);
}

/// Submitting `c1..ck` and then a tick hands off exactly one batch,
/// `[c1..ck]` in submission order; a later tick with nothing new hands off
/// none.
pub proof fn lemma_batch_per_tick(cmds: Seq<CanvasMessage>)
    requires
        cmds.len() > 0,
    ensures
        batches_of(command_events(cmds).push(QueueEvent::Tick)) == seq![cmds],
        buffer_after(command_events(cmds).push(QueueEvent::Tick)).len() == 0,
        batches_of(command_events(cmds).push(QueueEvent::Tick).push(QueueEvent::Tick))
            == seq![cmds],
{
    lemma_commands_only_buffer(cmds);
    let evs = command_events(cmds).push(QueueEvent::Tick);
    assert(evs.drop_last() =~= command_events(cmds));
    assert(evs.last() == QueueEvent::Tick);
    assert(batches_of(evs) =~= seq![cmds]);
    lemma_empty_tick_no_interaction(evs);
}

/// Every submitted task runs exactly once, in submission order: a drain
/// makes one observation per task event of the trace, carrying its handle.
pub proof fn lemma_tasks_run_exactly_once(a0: ActorModel, evs: Seq<QueueEvent>)
    ensures
        obs_of(a0, evs).len() == task_ids_of(evs).len(),
        forall|i: int| 0 <= i < task_ids_of(evs).len() ==> (#[trigger] obs_of(a0, evs)[i]).id
            == task_ids_of(evs)[i],
    decreases evs.len(),
{
    if evs.len() > 0 {
        lemma_tasks_run_exactly_once(a0, evs.drop_last());
    }
}

/// The serializer's command buffer: FIFO, append-only between flushes,
/// drained atomically by a flush.
pub struct Serializer {
    buffer: Vec<CanvasMessage>,
}

impl View for Serializer {
    type V = Seq<CanvasMessage>;

    closed spec fn view(&self) -> Seq<CanvasMessage> {
        self.buffer@
    }
}

impl Serializer {
    /// A fresh serializer with an empty buffer.
    pub fn new() -> (s: Serializer)
        ensures
            s@ == Seq::<CanvasMessage>::empty(),
    {
        Serializer { buffer: Vec::new() }
    }

    /// How many commands are buffered and not yet handed off.
    pub fn buffered(&self) -> (n: usize)
        ensures
            n == self@.len(),
    {
        self.buffer.len()
    }

    /// Decides one dequeued event: the buffer is updated per
    /// [`buffer_step`], and the returned action says exactly which
    /// interaction, if any, to hand off and which task, if any, to run —
    /// a flush always precedes the task of the same event.
    pub fn step(&mut self, e: QueueEvent) -> (a: StepAction)
        ensures
            final(self)@ == buffer_step(old(self)@, e),
            match e {
                QueueEvent::Command(_) => a == StepAction::Queued,
                QueueEvent::Tick => if old(self)@.len() == 0 {
                    a == StepAction::NoInteraction
                } else {
                    a matches StepAction::Flush(b) && b@ == old(self)@
                },
                QueueEvent::Task(t) => if old(self)@.len() == 0 {
                    a == StepAction::Run(t)
                } else {
                    a matches StepAction::FlushAndRun(b, tt) && b@ == old(self)@ && tt == t
                },
            },
    {
        match e {
            QueueEvent::Command(m) => {
                self.buffer.push(m);
                StepAction::Queued
            },
            QueueEvent::Tick => {
                if self.buffer.len() == 0 {
                    proof {
                        assert(self.buffer@ =~= Seq::<CanvasMessage>::empty());
                    }
                    StepAction::NoInteraction
                } else {
                    let b = self.buffer.split_off(0);
                    proof {
                        assert(self.buffer@ =~= Seq::<CanvasMessage>::empty());
                        assert(b@ =~= old(self)@);
                    }
                    StepAction::Flush(b)
                }
            },
            QueueEvent::Task(t) => {
                if self.buffer.len() == 0 {
                    proof {
                        assert(self.buffer@ =~= Seq::<CanvasMessage>::empty());
                    }
                    StepAction::Run(t)
                } else {
                    let b = self.buffer.split_off(0);
                    proof {
                        assert(self.buffer@ =~= Seq::<CanvasMessage>::empty());
                        assert(b@ =~= old(self)@);
                    }
                    StepAction::FlushAndRun(b, t)
                }
            },
        }
    }
}

/// Drains a whole event trace against one actor, strictly in arrival order:
/// each event is decided by [`Serializer::step`], a flush is one `batch`
/// interaction handed to the actor, and each task's turn records what its
/// work observes — its handle, the count of commands already applied (all
/// those submitted before it), and the actor's transform at that moment.
pub fn run_events(actor: &mut CanvasActor, events: Vec<QueueEvent>) -> (obs: Vec<TaskObservation>)
    requires
        old(actor).wf(),
    ensures
        final(actor).wf(),
        final(actor)@ == model_after_messages(old(actor)@, delivered_of(events@)),
        obs@ == obs_of(old(actor)@, events@),
{
    let ghost a0 = actor@;
    let ghost evs0 = events@;
    let total = events.len();
    let mut ser = Serializer::new();
    let mut obs: Vec<TaskObservation> = Vec::new();
    let mut delivered_count: u64 = 0;
    let mut rest = events;
    let ghost mut k: int = 0;
    while rest.len() > 0
        invariant
            actor.wf(),
            0 <= k <= evs0.len(),
            evs0.len() == total,
            rest@ == evs0.subrange(k, evs0.len() as int),
            ser@ == buffer_after(evs0.take(k)),
            actor@ == model_after_messages(a0, delivered_of(evs0.take(k))),
            obs@ == obs_of(a0, evs0.take(k)),
            delivered_count == delivered_of(evs0.take(k)).len(),
            delivered_count <= total,
        decreases rest@.len(),
    {
        let ghost prefix = evs0.take(k);
        let e = rest.remove(0);
        proof {
            assert(e == evs0[k]);
            assert(rest@ =~= evs0.subrange(k + 1, evs0.len() as int));
            assert(evs0.take(k + 1).drop_last() =~= prefix);
            assert(evs0.take(k + 1).last() == evs0[k]);
            lemma_order_preserved(evs0.take(k + 1));
            lemma_commands_len(evs0.take(k + 1));
        }
        let a = ser.step(e);
        match a {
            StepAction::Queued => {
                proof {
                    assert(batches_of(evs0.take(k + 1)) == batches_of(prefix));
                }
            },
            StepAction::NoInteraction => {
                proof {
                    assert(batches_of(evs0.take(k + 1)) == batches_of(prefix));
                    assert(buffer_after(evs0.take(k + 1)) =~= ser@);
                }
            },
            StepAction::Flush(batch) => {
                proof {
                    assert(step_emits(buffer_after(prefix), evs0[k]));
                    assert(batches_of(evs0.take(k + 1)) == batches_of(prefix).push(batch@));
                    assert(concat_batches(batches_of(prefix).push(batch@)) == delivered_of(
                        prefix,
                    ) + batch@) by {
                        assert(batches_of(prefix).push(batch@).drop_last() =~= batches_of(prefix));
                        assert(batches_of(prefix).push(batch@).last() == batch@);
                    }
                    lemma_messages_concat(a0, delivered_of(prefix), batch@);
                }
                let n = batch.len();
                let _reply = actor.handle_interaction(CanvasInteraction::Messages(batch));
                delivered_count = delivered_count + (n as u64);
            },
            StepAction::FlushAndRun(batch, t) => {
                proof {
                    assert(step_emits(buffer_after(prefix), evs0[k]));
                    assert(batches_of(evs0.take(k + 1)) == batches_of(prefix).push(batch@));
                    assert(concat_batches(batches_of(prefix).push(batch@)) == delivered_of(
                        prefix,
                    ) + batch@) by {
                        assert(batches_of(prefix).push(batch@).drop_last() =~= batches_of(prefix));
                        assert(batches_of(prefix).push(batch@).last() == batch@);
                    }
                    lemma_messages_concat(a0, delivered_of(prefix), batch@);
                    lemma_order_preserved(prefix);
                    assert(delivered_of(prefix) + batch@ == commands_of(prefix));
                    assert(commands_of(evs0.take(k + 1)) == commands_of(prefix));
                }
                let n = batch.len();
                let _reply = actor.handle_interaction(CanvasInteraction::Messages(batch));
                delivered_count = delivered_count + (n as u64);
                let tr = actor.transform();
                obs.push(TaskObservation { id: t, commands_applied: delivered_count, transform: tr });
            },
            StepAction::Run(t) => {
                proof {
                    assert(batches_of(evs0.take(k + 1)) == batches_of(prefix));
                    assert(buffer_after(evs0.take(k + 1)) =~= ser@);
                    lemma_order_preserved(prefix);
                    assert(buffer_after(prefix).len() == 0);
                    assert(delivered_of(prefix) + buffer_after(prefix) =~= delivered_of(prefix));
                    assert(delivered_of(prefix) == commands_of(prefix));
                    assert(commands_of(evs0.take(k + 1)) == commands_of(prefix));
                }
                let tr = actor.transform();
                obs.push(TaskObservation { id: t, commands_applied: delivered_count, transform: tr });
            },
        }
        proof {
            k = k + 1;
        }
    }
    proof {
        assert(evs0.take(k) =~= evs0);
    }
    obs
}

} // verus!
