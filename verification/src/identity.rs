//! Decentralized-identity registration: the foundation for per-account
//! identities, currently recording each registration in the event log.

use vstd::prelude::*;

verus! {

/// One record per successful state-changing call, in order.
#[derive(Clone, Copy, PartialEq, Eq, Debug)]
pub enum Event {
    /// An identity was registered.
    IdentityRegistered { who: u64 },
}

/// Why an identity operation was refused.
#[derive(Clone, Copy, PartialEq, Eq, Debug)]
pub enum Error {
    /// Reserved for future refusals; never returned.
    PlaceholderError,
}

/// Owns identity registrations.
pub struct IdentityRegistry {
    events: Vec<Event>,
}

impl IdentityRegistry {
    /// The event log, oldest first.
    pub closed spec fn events_log(self) -> Seq<Event> {
        self.events@
    }

    pub fn new() -> (r: IdentityRegistry)
        ensures
            r.events_log() == Seq::<Event>::empty(),
    {
        IdentityRegistry { events: Vec::new() }
    }

    /// Registers an identity for `who` and appends an `IdentityRegistered`
    /// event.  Never refused.
    pub fn register_identity(&mut self, who: u64) -> (r: Result<(), Error>)
        ensures
            r is Ok,
            final(self).events_log() == old(self).events_log().push(
                Event::IdentityRegistered { who },
            ),
    {
        self.events.push(Event::IdentityRegistered { who });
        Ok(())
    }

    /// The event log, oldest first.
    pub fn events(&self) -> (r: &Vec<Event>)
        ensures
            r@ == self.events_log(),
    {
        &self.events
    }
}

} // verus!
