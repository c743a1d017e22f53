//! The daemon's request and notification endpoints, as addresses.
use vstd::prelude::*;

verus! {

/// Where the daemon answers requests by default.
pub const DEFAULT_ADDR: &'static str = "tcp://127.0.0.1:7557";

/// Where the daemon publishes notifications by default.
pub const DEFAULT_EVENTS_ADDR: &'static str = "tcp://127.0.0.1:7558";

/// Client of the daemon's request endpoint.
pub struct NngClient {
    address: String,
}

impl NngClient {
    pub closed spec fn spec_address(&self) -> Seq<char> {
        self.address@
    }

    pub fn new(address: String) -> (c: NngClient)
        ensures
            c.spec_address() == address@,
    {
        NngClient { address }
    }

    pub fn address(&self) -> (a: &String)
        ensures
            a@ == self.spec_address(),
    {
        &self.address
    }
}

/// Subscriber to the daemon's notifications.
pub struct NotificationSubscriber {
    address: String,
}

impl NotificationSubscriber {
    pub closed spec fn spec_address(&self) -> Seq<char> {
        self.address@
    }

    pub fn new(address: String) -> (s: NotificationSubscriber)
        ensures
            s.spec_address() == address@,
    {
        NotificationSubscriber { address }
    }

    pub fn address(&self) -> (a: &String)
        ensures
            a@ == self.spec_address(),
    {
        &self.address
    }
}

} // verus!
