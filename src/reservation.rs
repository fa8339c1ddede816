//! Port reservations: a port held by one transport is held by no other, and is
//! free again once that transport lets it go.
use std::collections::HashSet;
use vstd::prelude::*;

verus! {

broadcast use vstd::std_specs::hash::group_hash_axioms;

/// What the held ports become when `port` is asked for: `None` where it is
/// already held.
pub open spec fn reserved_after(held: Set<u16>, port: u16) -> Option<Set<u16>> {
    if held.contains(port) {
        None
    } else {
        Some(held.insert(port))
    }
}

/// What the held ports become when each of `ports` is asked for in turn:
/// `None` where one of the requests is refused.
pub open spec fn reserved_after_all(held: Set<u16>, ports: Seq<u16>) -> Option<Set<u16>>
    decreases ports.len(),
{
    if ports.len() == 0 {
        Some(held)
    } else {
        match reserved_after(held, ports[0]) {
            Some(next) => reserved_after_all(next, ports.drop_first()),
            None => None,
        }
    }
}

/// The token of a held port. It is neither `Clone` nor `Copy`: it is given
/// back exactly once.
#[derive(Debug)]
pub struct ReservedPort {
    port: u16,
}

impl ReservedPort {
    pub closed spec fn spec_port(&self) -> u16 {
        self.port
    }

    pub fn port(&self) -> (r: u16)
        ensures
            r == self.spec_port(),
    {
        self.port
    }
}

/// The ports held at one time.
pub struct PortRegistry {
    held: HashSet<u16>,
}

impl View for PortRegistry {
    type V = Set<u16>;

    closed spec fn view(&self) -> Set<u16> {
        self.held@
    }
}

impl PortRegistry {
    /// A registry that holds no port.
    pub fn new() -> (r: PortRegistry)
        ensures
            r@ == Set::<u16>::empty(),
    {
        PortRegistry { held: HashSet::new() }
    }

    /// Whether `port` is held.
    pub fn is_held(&self, port: u16) -> (r: bool)
        ensures
            r == self@.contains(port),
    {
        self.held.contains(&port)
    }

    /// Holds `port`, unless it is held already.
    pub fn reserve(&mut self, port: u16) -> (r: Option<ReservedPort>)
        ensures
            match reserved_after(old(self)@, port) {
                Some(next) => final(self)@ == next && r is Some && r->0.spec_port() == port,
                None => final(self)@ == old(self)@ && r is None,
            },
    {
        if self.held.contains(&port) {
            None
        } else {
            self.held.insert(port);
            Some(ReservedPort { port })
        }
    }

    /// Lets go of the port of `token`.
    pub fn release(&mut self, token: ReservedPort)
        ensures
            final(self)@ == old(self)@.remove(token.spec_port()),
    {
        self.held.remove(&token.port);
        assert(final(self)@ =~= old(self)@.remove(token.spec_port()));
    }
}

/// Ports handed out one after another are pairwise distinct, and none of them
/// was held before: however many transports ask, no two share a port.
pub proof fn lemma_reserved_ports_distinct(held: Set<u16>, ports: Seq<u16>)
    requires
        reserved_after_all(held, ports) is Some,
    ensures
        ports.no_duplicates(),
        forall|i: int| 0 <= i < ports.len() ==> !held.contains(#[trigger] ports[i]),
        reserved_after_all(held, ports)->0 == held + ports.to_set(),
    decreases ports.len(),
{
    if ports.len() > 0 {
        let next = held.insert(ports[0]);
        let rest = ports.drop_first();
        lemma_reserved_ports_distinct(next, rest);
        assert forall|i: int, j: int|
            0 <= i < ports.len() && 0 <= j < ports.len() && i != j implies ports[i] != ports[j] by {
            if i == 0 {
                assert(ports[j] == rest[j - 1]);
                assert(next.contains(ports[0]));
            } else if j == 0 {
                assert(ports[i] == rest[i - 1]);
                assert(next.contains(ports[0]));
            } else {
                assert(ports[i] == rest[i - 1]);
                assert(ports[j] == rest[j - 1]);
            }
        }
        assert forall|i: int| 0 <= i < ports.len() implies !held.contains(#[trigger] ports[i]) by {
            if i > 0 {
                assert(ports[i] == rest[i - 1]);
            }
        }
        assert forall|x: u16| ports.contains(x) <==> x == ports[0] || rest.contains(x) by {
            if ports.contains(x) && x != ports[0] {
                let i = choose|i: int| 0 <= i < ports.len() && ports[i] == x;
                assert(rest[i - 1] == x);
            }
            if rest.contains(x) {
                let i = choose|i: int| 0 <= i < rest.len() && rest[i] == x;
                assert(ports[i + 1] == x);
            }
            if x == ports[0] {
                assert(ports[0] == x);
            }
        }
        assert(reserved_after_all(held, ports)->0 =~= held + ports.to_set());
    } else {
        assert(ports.to_set() =~= Set::<u16>::empty());
        assert(held + ports.to_set() =~= held);
    }
}

/// A port that a transport has let go of can be held again.
pub proof fn lemma_released_port_reusable(held: Set<u16>, port: u16)
    ensures
        reserved_after(held.remove(port), port) == Some(held.remove(port).insert(port)),
        held.contains(port) ==> reserved_after(held.remove(port), port) == Some(held),
{
    if held.contains(port) {
        assert(held.remove(port).insert(port) =~= held);
    }
}

} // verus!
