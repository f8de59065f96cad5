//! The project registry's logic tier, as a verified library.
//!
//! The tier holds no store: it shapes the requests it sends to the registry's
//! storage service and the answers it gives back, and every such rule lives
//! here with its contract. The gRPC plumbing around it is not part of this
//! crate.

pub mod service;
pub mod wire;
pub mod knob;
pub mod laws;
pub mod reserved;
