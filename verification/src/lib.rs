//! Turns journal records into typed events about SSH logins and gathers
//! them by the host they came from.

pub mod address;
pub mod error;
pub mod event;
pub mod history;
pub mod input;
pub mod record;
pub mod sshd;
pub mod text;
pub mod timestamp;

pub use address::{Host, SocketAddress};
pub use error::Error;
pub use event::{Event, EventKind};
pub use history::History;
pub use input::InputType;
pub use sshd::{Login, SshdEventKind, SshdLineParser};
pub use timestamp::UtcInstant;
