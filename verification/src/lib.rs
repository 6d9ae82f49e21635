//! Verified core of the Nostr scrolls SDK.
//!
//! Scrolls are WebAssembly programs that a Nostr client (the host) runs. They
//! read their parameters from memory that the host fills, build subscription
//! filters, attach handlers to subscriptions, and read the events that the
//! host delivers. This crate holds the logic of all of that; calling into the
//! host is left to the program around it.

pub mod allocator;
pub mod entry;
pub mod errors;
pub mod event;
pub mod filter;
pub mod hex;
pub mod host_memory;
pub mod keys;
pub mod numbers;
pub mod params;
pub mod registry;
pub mod relays;
pub mod static_cell;
pub mod subscription;
pub mod traits;

pub use errors::Error;
pub use event::Event;
pub use filter::{Filter, FilterOp, Request, StaticFilter};
pub use keys::{EventId, PublicKey, ShortEventId, ShortPubKey};
pub use numbers::{NegativeNumber, PositiveNumber};
pub use params::ReadParam;
pub use relays::{read_relays, Relay};
pub use static_cell::StaticCell;
pub use subscription::Subscription;
pub use traits::IntoHandle;
