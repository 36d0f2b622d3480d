//! Blink: host-side logic for hardware-isolated agent sandboxes.
//!
//! The library holds the protocol codecs, the attach output buffer, the job
//! store, the request validation and the parsers of the sandbox runtime; the
//! I/O that drives them lives with the binaries.

pub mod shared;
pub mod frames;
pub mod vhub;
pub mod text;
pub mod json;
pub mod agent;
pub mod network;
pub mod registries;
pub mod keyed;
pub mod jobs;
pub mod registry;
pub mod session;
pub mod paths;
pub mod api;
pub mod attach;
pub mod attach_loop;
pub mod pty;
pub mod protocol;
pub mod hypervisor;
pub mod settings;
pub mod ids;
pub mod clock;
