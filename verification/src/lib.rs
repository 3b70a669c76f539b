//! The `http` backend binding of a gateway: it reads requests against
//! registered profiles, shapes what goes to the upstream and what comes back,
//! and decides what the host is told. Sending is left to the caller.

pub mod call;
pub mod cdylib;
pub mod clock;
pub mod completion;
pub mod envelope;
pub mod error;
pub mod json;
pub mod observability;
pub mod outcome;
pub mod pairs;
pub mod path_bridge;
pub mod plugin;
pub mod registration;
pub mod serde_bridge;
pub mod streaming;
pub mod text;
pub mod types;
pub mod url_bridge;
