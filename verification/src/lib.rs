//! Core of a canvas session actor: the actor that exclusively owns one
//! mutable drawing surface and exposes it to many producers through a
//! strictly sequenced, typed interaction protocol.
//!
//! The crate holds the sequential heart of that system, fully verified:
//!
//! * [`geom`] — integer-valued geometry and color carried by operations;
//! * [`ops`] — the operation vocabulary (`CanvasMessage`) and drawing state;
//! * [`actor`] — the protocol state machine: a model actor that applies
//!   operations in order and answers each labeled interaction;
//! * [`serializer`] — the ordering serializer: command buffering, tick-driven
//!   flushes, and the ordering laws between commands and tasks;
//! * [`task_slot`] — the one-shot result slot of the task bridge.
//!
//! Concurrency plumbing (the shared-channel checkout, timers, and the worker
//! pool that runs the event loop) stays outside the library; the functions
//! here decide what each event does, and those decisions are what is proved.

pub mod actor;
pub mod geom;
pub mod ops;
pub mod serializer;
pub mod task_slot;
