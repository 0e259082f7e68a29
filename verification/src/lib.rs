//! Bookkeeping for seL4 user-level software.
//!
//! The centre is [`slot_tracker`]: a fixed pool of slots, each free or
//! occupied, with a stack of free slots. [`pool`] is its mathematical model and
//! [`pool_laws`] the laws that hold of it. Around it stand a
//! description of a capability distribution and its traversal ([`capdl`]), the
//! watermark of a static heap ([`heap`]), the values of a kernel message
//! ([`ipc`]) and the attributes of a memory mapping ([`vm_attributes`]).

pub mod capdl;
mod fast_messages_sealing;
pub mod heap;
pub mod ipc;
pub mod pool;
pub mod pool_laws;
pub mod slot_tracker;
pub mod vm_attributes;
