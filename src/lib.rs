//! A name registry: identities claim unique names, each claim gets a fresh
//! numeric identifier, and the holder of a name can hand it over to another
//! identity. The registry keeps per-holder counters and a log of the
//! notifications it emits.

pub mod types;
pub mod model;
pub mod tables;
pub mod laws;
pub mod contract;

pub use contract::DnsContract;
pub use model::{DnsView, Op};
pub use types::{
    zero_address, AccountId, DNSError, DomainName, DomainNameView, Event, NewNameClaimed,
    SetNewOwner, State,
};
