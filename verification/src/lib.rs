//! Reactive composition of message-passing components.
//!
//! A soma folds a stream of impulses into successive versions of itself.
//! Somas are connected through synapses, validated by axons and grouped into
//! organelles. This crate holds the rules of that composition: what each
//! component decides when an impulse arrives, stated and proved over plain
//! values. The scheduler that carries the impulses lives outside it.

pub mod axon;
pub mod error;
pub mod organelle;
pub mod probe;
pub mod soma;
pub mod visualizer;

pub use axon::{Axon, Constraint};
pub use error::{Error, ErrorKind};
pub use organelle::Organelle;
pub use soma::{Impulse, SomaId, Synapse};
