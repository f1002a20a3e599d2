//! Gives out DNS names to clients with IPv6 addresses, and serves them.
//!
//! A client asks for a name over TCP or HTTP, and `store` gives it one for a time. `dns` answers
//! the requests for those names, with signatures from `dnssec`. What the store does to its
//! database and what holds of the answers is stated in `database`, `dns_laws` and the other
//! modules of laws. What comes from the clock and from chance is told apart in `outside`.
pub mod address;
pub mod answer_laws;
pub mod bytes;
pub mod client_laws;
pub mod clock;
pub mod config;
pub mod crypto;
pub mod database;
pub mod dns;
pub mod dns_laws;
pub mod dnssec;
pub mod http;
pub mod idprov;
pub mod key_file;
pub mod message;
pub mod name;
pub mod net;
pub mod outside;
pub mod record;
pub mod store;
pub mod store_laws;
pub mod task;
pub mod text;
pub mod turns;
pub mod view_laws;
pub mod wire_laws;
pub mod zone;
