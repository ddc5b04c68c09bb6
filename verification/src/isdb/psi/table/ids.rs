//! Non-zero identifiers used by tables and descriptors.

use vstd::prelude::*;

verus! {

/// Transport stream identifier (never zero).
#[derive(Debug, Clone, Copy, PartialEq, Eq, Structural)]
pub struct TransportStreamId(u16);

/// Network identifier (never zero).
#[derive(Debug, Clone, Copy, PartialEq, Eq, Structural)]
pub struct NetworkId(u16);

/// Service identifier (never zero).
#[derive(Debug, Clone, Copy, PartialEq, Eq, Structural)]
pub struct ServiceId(u16);

/// Event identifier (never zero).
#[derive(Debug, Clone, Copy, PartialEq, Eq, Structural)]
pub struct EventId(u16);

impl View for TransportStreamId {
    type V = u16;

    closed spec fn view(&self) -> u16 {
        self.0
    }
}

impl View for NetworkId {
    type V = u16;

    closed spec fn view(&self) -> u16 {
        self.0
    }
}

impl View for ServiceId {
    type V = u16;

    closed spec fn view(&self) -> u16 {
        self.0
    }
}

impl View for EventId {
    type V = u16;

    closed spec fn view(&self) -> u16 {
        self.0
    }
}

impl TransportStreamId {
    #[verifier::type_invariant]
    spec fn inv(self) -> bool {
        self.0 != 0
    }

    /// Makes an identifier of `n`, or `None` when `n` is zero.
    pub fn new(n: u16) -> (r: Option<TransportStreamId>)
        ensures
            r is Some <==> n != 0,
            r matches Some(id) ==> id@ == n,
    {
        if n != 0 {
            Some(TransportStreamId(n))
        } else {
            None
        }
    }

    /// The identifier as a primitive value, which is never zero.
    pub fn get(self) -> (r: u16)
        ensures
            r == self@,
            r != 0,
    {
        proof {
            use_type_invariant(&self);
        }
        self.0
    }
}

impl NetworkId {
    #[verifier::type_invariant]
    spec fn inv(self) -> bool {
        self.0 != 0
    }

    /// Makes an identifier of `n`, or `None` when `n` is zero.
    pub fn new(n: u16) -> (r: Option<NetworkId>)
        ensures
            r is Some <==> n != 0,
            r matches Some(id) ==> id@ == n,
    {
        if n != 0 {
            Some(NetworkId(n))
        } else {
            None
        }
    }

    /// The identifier as a primitive value, which is never zero.
    pub fn get(self) -> (r: u16)
        ensures
            r == self@,
            r != 0,
    {
        proof {
            use_type_invariant(&self);
        }
        self.0
    }
}

impl ServiceId {
    #[verifier::type_invariant]
    spec fn inv(self) -> bool {
        self.0 != 0
    }

    /// Makes an identifier of `n`, or `None` when `n` is zero.
    pub fn new(n: u16) -> (r: Option<ServiceId>)
        ensures
            r is Some <==> n != 0,
            r matches Some(id) ==> id@ == n,
    {
        if n != 0 {
            Some(ServiceId(n))
        } else {
            None
        }
    }

    /// The identifier as a primitive value, which is never zero.
    pub fn get(self) -> (r: u16)
        ensures
            r == self@,
            r != 0,
    {
        proof {
            use_type_invariant(&self);
        }
        self.0
    }
}

impl EventId {
    #[verifier::type_invariant]
    spec fn inv(self) -> bool {
        self.0 != 0
    }

    /// Makes an identifier of `n`, or `None` when `n` is zero.
    pub fn new(n: u16) -> (r: Option<EventId>)
        ensures
            r is Some <==> n != 0,
            r matches Some(id) ==> id@ == n,
    {
        if n != 0 {
            Some(EventId(n))
        } else {
            None
        }
    }

    /// The identifier as a primitive value, which is never zero.
    pub fn get(self) -> (r: u16)
        ensures
            r == self@,
            r != 0,
    {
        proof {
            use_type_invariant(&self);
        }
        self.0
    }
}

} // verus!
