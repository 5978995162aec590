//! A cooperative task scheduler and synchronization layer for targets with no
//! operating-system threads and no dynamic allocator.
//!
//! Independently written computations are wrapped in tasks, started on an
//! executor, and driven to completion by a single run loop.  Tasks talk to
//! each other through one-shot value slots and bounded channels; suspended
//! work is resumed through notification handles that flip one readiness bit.
//!
//! All storage is caller-owned and caller-sized: task wakers live in a vector
//! the caller allocates, the ready queue links tasks through a slot arena
//! addressed by stable indices, and channel buffers are supplied by the owner
//! of the channel.

pub mod task;

pub mod executor;

pub mod future;

pub mod future_value;

pub mod task_list;

pub mod sync;

pub mod select;

pub mod serial;

pub mod interrupt;

pub mod digital;

pub mod timer;

pub mod scratch;
