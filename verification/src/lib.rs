//! # urma_rs
//!
//! Verified core of a Rust wrapper for the URMA (Unified Remote Memory Access)
//! userspace API.
//!
//! Layers:
//! - [`ffi`]: the C API as values: constants, structs and flag unions;
//! - [`call`] / [`operation`]: how a request is carried on, call by call, and
//!   what it owes for the objects that its calls make;
//! - [`tree`] / [`session`]: who keeps whom alive. Resources hang below their
//!   parents and are deleted in a safe order, regardless of drop sequence;
//! - [`life`]: what holds over the life of a thread;
//! - [`laws`]: what the operations are for, from what is passed in to what comes back;
//! - [`error`] / [`urma`]: the safe layer (context / jfc / jfr / jetty /
//!   registered memory / imported resources).
//!
//! Nothing here calls the C library: a request hands out each call that it needs
//! and takes the answer back.

pub mod call;
pub mod error;
pub mod ffi;
pub mod laws;
pub mod life;
pub mod operation;
pub mod session;
pub mod text;
pub mod tree;
pub mod urma;

pub use call::{Call, Reply, Step};
pub use error::{Error, Result};
pub use operation::{Operation, Request};
pub use session::Session;
pub use urma::{
    list_devices, query_device, Completion, CompletionQueue, Context, DeviceCap, Eid, Jetty,
    JettyId, JettyOpts, LocalSge, PageBuf, Peer, RegisteredBuf, RegisteredSeg, SegDesc, TpType,
    TransMode, Urma, DEFAULT_DEPTH, PAGE_SIZE, POLL_INTERVAL, POLL_RETRIES, TOKEN_VALUE,
};
