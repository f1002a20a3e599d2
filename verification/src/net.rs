//! The plain TCP server: each client that connects gets a name.
use std::sync::Arc;

use vstd::prelude::*;

use crate::address::ipv6_text;
use crate::address::ipv6_to_text;
use crate::address::net_listen_address;
use crate::address::set_or;
use crate::address::IpAddr;
use crate::clock::duration_secs;
use crate::clock::humanize_duration;
use crate::clock::humanized;
use crate::clock::rfc3339_text;
use crate::config::NetConfig;
use crate::store::start_add;
use crate::store::Store;
use crate::task::Action;
use crate::task::ResolvedEntry;
use crate::task::ResolvedView;
use crate::task::StoreError;
use crate::task::Task;
use crate::text::decimal;
use crate::text::joined;
use crate::text::push_text;

verus! {

/// What a client is told about its name.
pub open spec fn registered_text(r: ResolvedView, ttl_secs: nat) -> Seq<char> {
    "Address: "@ + ipv6_text(r.entry.value) + "\nDNS Name: "@ + r.dns_name + "\nValid for "@
        + humanized(ttl_secs) + "\nExpires "@ + rfc3339_text(r.entry.expires) + "\n"@
}

/// What to do for a client.
pub enum Service {
    /// Add a name for its address, and reply when that is done.
    Register(Task, Action),
    /// Reply at once.
    Reply(String),
}

/// Gives names to the clients that connect.
pub struct NetServer {
    config: NetConfig,
    store: Arc<Store>,
}

impl NetServer {
    /// The settings of the server.
    pub closed spec fn config(&self) -> NetConfig {
        self.config
    }

    /// The store of the server.
    pub closed spec fn store(&self) -> Store {
        *self.store
    }

    /// A server with these settings for a store.
    pub fn new(config: NetConfig, store: Arc<Store>) -> (r: NetServer)
        ensures
            r.config() == config,
            r.store() == *store,
    {
        NetServer { config, store }
    }

    /// Where the server listens.
    pub fn listen_address(&self) -> (r: String)
        ensures
            r@ == "["@ + set_or(self.config().address, "::"@) + "]:"@ + decimal(
                self.config().port as nat,
            ),
    {
        net_listen_address(&self.config.address, self.config.port)
    }

    /// What to do for a client that connects.
    pub fn handle_connection(&self, peer: IpAddr) -> (r: Service)
        ensures
            match peer {
                IpAddr::V6(ip) => r matches Service::Register(task, action) && (task@, action@)
                    == start_add(ip@),
                IpAddr::V4(_) => r matches Service::Reply(text) && text@
                    == "IPv4 not supported\n"@,
            },
    {
        match peer {
            IpAddr::V6(ip) => {
                let (task, action) = self.store.add_entry(ip);
                Service::Register(task, action)
            },
            IpAddr::V4(_) => Service::Reply("IPv4 not supported\n".to_string()),
        }
    }

    /// What a client is told when a name was added for it, or could not be.
    pub fn reply(&self, added: &Result<ResolvedEntry, StoreError>) -> (r: String)
        ensures
            match added {
                Ok(entry) => r@ == registered_text(
                    entry@,
                    duration_secs(self.store()@.ttl) as nat,
                ),
                Err(e) => r@ == "Error: "@ + e.text() + "\n"@,
            },
    {
        match added {
            Ok(entry) => {
                let mut r = String::new();
                push_text(&mut r, "Address: ");
                push_text(&mut r, ipv6_to_text(entry.entry.value).as_str());
                push_text(&mut r, "\nDNS Name: ");
                push_text(&mut r, entry.dns_name.as_str());
                push_text(&mut r, "\nValid for ");
                push_text(&mut r, humanize_duration(self.store.ttl()).as_str());
                push_text(&mut r, "\nExpires ");
                push_text(&mut r, entry.entry.expires.to_rfc3339().as_str());
                push_text(&mut r, "\n");
                assert(r@ =~= registered_text(entry@, duration_secs(self.store@.ttl) as nat));
                r
            },
            Err(e) => {
                let r: String = joined("Error: ", e.message().as_str());
                joined(r.as_str(), "\n")
            },
        }
    }
}

} // verus!
