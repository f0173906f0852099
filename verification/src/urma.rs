//! The safe URMA layer.
//!
//! Each resource type maps to a pair of C APIs (create/delete or
//! register/unregister or import/unimport). The resources form a tree (Urma ->
//! Context -> CompletionQueue -> Jetty, Context -> RegisteredSeg / Peer; a jetty
//! also hangs on the context that it was created on), kept by a
//! [`crate::session::Session`]: a C object is deleted only after the last resource
//! using it is gone, in whichever order the handles are dropped.
//! `Context` and `CompletionQueue` are cheap handles that can be duplicated
//! (like dup'd fds), not unique owners.

pub mod blob;
pub mod capability;
pub mod completion;
pub mod context;
pub mod device;
pub mod init;
pub mod jetty;
pub mod page;
pub mod peer;
pub mod segment;
pub mod value;

pub use crate::tree::PAGE_SIZE;
pub use capability::{query_device, DeviceCap, TpType, TransMode};
pub use completion::{Completion, CompletionQueue};
pub use context::Context;
pub use device::list_devices;
pub use init::Urma;
pub use jetty::{Jetty, JettyOpts};
pub use page::PageBuf;
pub use peer::Peer;
pub use segment::{LocalSge, RegisteredBuf, RegisteredSeg};
pub use value::{
    Eid, JettyId, SegDesc, DEFAULT_DEPTH, POLL_INTERVAL, POLL_RETRIES, TOKEN_VALUE,
};
