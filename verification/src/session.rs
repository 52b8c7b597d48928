//! Session registry and port allocation: the process-wide record of
//! currently bound RTP ports, and the bounded random probing that picks
//! a free port in a configured inclusive range.
//!
//! The registry holds plain port numbers; it never owns a socket. A
//! caller that binds sockets checks the allocated port's availability at
//! the transport and keeps the registry in step.

use vstd::prelude::*;
use crate::entropy::random_port_in_range;

verus! {

/// How many random probes an allocation makes before giving up: a fixed
/// ceiling favouring low latency over exhaustive scanning.
pub const ALLOCATION_RETRY_LIMIT: u32 = 100;

/// Allocation failure: no free port was found within the retry ceiling.
/// A retryable control-plane error, never fatal to the process.
#[derive(Clone, Copy, Debug, PartialEq, Eq, Structural)]
pub enum AllocationError {
    AddressSpaceExhausted,
}

/// The process-wide record of currently bound RTP ports. Entries are
/// appended on allocation; no order among them is promised or needed.
#[derive(Debug)]
pub struct SessionRegistry {
    ports: Vec<u16>,
}

impl SessionRegistry {
    /// The registered ports, in registration order.
    pub closed spec fn view(&self) -> Seq<u16> {
        self.ports@
    }

    /// An empty registry.
    pub fn new() -> (r: SessionRegistry)
        ensures
            r@ == Seq::<u16>::empty(),
    {
        SessionRegistry { ports: Vec::new() }
    }

    /// How many ports are registered.
    pub fn len(&self) -> (n: usize)
        ensures
            n == self@.len(),
    {
        self.ports.len()
    }

    /// The registered port at one position.
    pub fn port_at(&self, i: usize) -> (p: u16)
        requires
            i < self@.len(),
        ensures
            p == self@[i as int],
    {
        self.ports[i]
    }

    /// Whether a port is currently registered.
    pub fn contains(&self, port: u16) -> (b: bool)
        ensures
            b == self@.contains(port),
    {
        let mut i: usize = 0;
        while i < self.ports.len()
            invariant
                i <= self@.len(),
                forall|j: int| 0 <= j < i ==> self@[j] != port,
            decreases self@.len() - i,
        {
            if self.ports[i] == port {
                return true;
            }
            i = i + 1;
        }
        false
    }

    /// Record one more bound port.
    pub fn register(&mut self, port: u16)
        ensures
            final(self)@ == old(self)@.push(port),
    {
        self.ports.push(port);
    }
}

/// Probe the inclusive port range at random for a port not yet
/// registered, up to the retry ceiling. A found port is registered and
/// returned; it is never one already present. When every port of the
/// range is taken the allocation always fails; a one-port free range
/// always succeeds. In between, which free port comes back (and whether
/// the ceiling is hit first) depends on the random draws.
pub fn allocate_port(registry: &mut SessionRegistry, min_port: u16, max_port: u16) -> (r:
    Result<u16, AllocationError>)
    requires
        min_port <= max_port,
    ensures
        match r {
            Ok(p) => {
                &&& min_port <= p <= max_port
                &&& !old(registry)@.contains(p)
                &&& final(registry)@ == old(registry)@.push(p)
            },
            Err(e) => {
                &&& e == AllocationError::AddressSpaceExhausted
                &&& final(registry)@ == old(registry)@
            },
        },
        (forall|p: u16| min_port <= p <= max_port ==> old(registry)@.contains(p)) ==> r is Err,
        min_port == max_port && !old(registry)@.contains(min_port) ==> r == Ok::<
            u16,
            AllocationError,
        >(min_port),
{
    let mut attempt: u32 = 0;
    while attempt < ALLOCATION_RETRY_LIMIT
        invariant
            min_port <= max_port,
            registry@ == old(registry)@,
            min_port == max_port && attempt > 0 ==> old(registry)@.contains(min_port),
        decreases ALLOCATION_RETRY_LIMIT - attempt,
    {
        let port = random_port_in_range(min_port, max_port);
        if !registry.contains(port) {
            registry.register(port);
            return Ok(port);
        }
        attempt = attempt + 1;
    }
    Err(AllocationError::AddressSpaceExhausted)
}

} // verus!
