//! Where a packet comes from and where it goes. Node addresses are of any
//! copyable type `A` (a socket address in the service).
use vstd::prelude::*;

verus! {

/// A socket address: an IPv4 address (its 32-bit big-endian value) and a
/// port, or an IPv6 address (its 128-bit big-endian value), a port, a flow
/// label and a scope.
#[derive(Clone, Copy, Debug, PartialEq, Eq, Structural)]
#[allow(inconsistent_fields)]
pub enum SocketAddress {
    V4 { ip: u32, port: u16 },
    V6 { ip: u128, port: u16, flowinfo: u32, scope_id: u32 },
}

/// A node: its identifier and address.
#[derive(Clone, Copy, PartialEq, Eq, Structural)]
pub struct Node<A> {
    pub ident: u32,
    pub addr: A,
}

impl<A> Node<A> {
    pub fn new(ident: u32, addr: A) -> (r: Self)
        ensures
            r.ident == ident,
            r.addr == addr,
    {
        Node { ident, addr }
    }
}

/// The source of a packet: the local host or a remote node.
#[derive(Clone, Copy, PartialEq, Eq, Structural)]
pub enum Source<A> {
    Host,
    Node(Node<A>),
}

impl<A> Source<A> {
    /// The local host.
    pub fn from_local() -> (r: Self)
        ensures
            r == Source::<A>::Host,
    {
        Source::Host
    }

    /// The remote node `ident` at `addr`.
    pub fn from_remote(ident: u32, addr: A) -> (r: Self)
        ensures
            r == Source::Node(Node { ident, addr }),
    {
        Source::Node(Node::new(ident, addr))
    }

    /// The identifier of the source: 0 for the local host.
    pub fn ident(&self) -> (r: u32)
        ensures
            r == match self {
                Source::Host => 0,
                Source::Node(n) => n.ident,
            },
    {
        match self {
            Source::Host => 0,
            Source::Node(node) => node.ident,
        }
    }
}

/// The destination of a packet.
pub enum Destination<A> {
    /// Dropped.
    Drop,
    /// The local host.
    Host,
    /// One remote node.
    Node(Node<A>),
    /// Several remote nodes.
    NodeList(Vec<Node<A>>),
}

impl<A> Destination<A> {
    /// The local host.
    pub fn to_local() -> (r: Self)
        ensures
            r is Host,
    {
        Destination::Host
    }

    /// The remote node `ident` at `addr`.
    pub fn to_remote(ident: u32, addr: A) -> (r: Self)
        ensures
            r matches Destination::Node(n) && n.ident == ident && n.addr == addr,
    {
        Destination::Node(Node::new(ident, addr))
    }

    /// The remote nodes of `list`, in order.
    pub fn to_remote_list(list: Vec<Node<A>>) -> (r: Self)
        ensures
            r matches Destination::NodeList(v) && v@ == list@,
    {
        Destination::NodeList(list)
    }

    pub fn is_drop(&self) -> (r: bool)
        ensures
            r == self is Drop,
    {
        match self {
            Destination::Drop => true,
            _ => false,
        }
    }

    pub fn is_local(&self) -> (r: bool)
        ensures
            r == self is Host,
    {
        match self {
            Destination::Host => true,
            _ => false,
        }
    }

    /// The destination is one or several remote nodes.
    pub fn is_remote(&self) -> (r: bool)
        ensures
            r == (self is Node || self is NodeList),
    {
        match self {
            Destination::Node(_) => true,
            Destination::NodeList(_) => true,
            _ => false,
        }
    }
}

/// A packet with its source and its destination.
pub struct Message<P, A> {
    packet: P,
    source: Source<A>,
    destination: Destination<A>,
}

impl<P, A> Message<P, A> {
    pub closed spec fn spec_packet(&self) -> P {
        self.packet
    }

    pub closed spec fn spec_source(&self) -> Source<A> {
        self.source
    }

    pub closed spec fn spec_destination(&self) -> Destination<A> {
        self.destination
    }

    /// A message from `src`, to be dropped unless routed.
    pub fn new(packet: P, src: Source<A>) -> (r: Self)
        ensures
            r.spec_packet() == packet,
            r.spec_source() == src,
            r.spec_destination() is Drop,
    {
        Self { packet, source: src, destination: Destination::Drop }
    }

    /// A message from `src` to `dst`.
    pub fn new_with_destination(packet: P, src: Source<A>, dst: Destination<A>) -> (r: Self)
        ensures
            r.spec_packet() == packet,
            r.spec_source() == src,
            r.spec_destination() == dst,
    {
        Self { packet, source: src, destination: dst }
    }

    /// A message for a packet whose header names the sender `src_ident`,
    /// received from `addr` (from the local host when `None`), to `dst`.
    pub fn from_split(packet: P, src_ident: u32, addr: Option<A>, dst: Destination<A>) -> (r: Self)
        ensures
            r.spec_packet() == packet,
            r.spec_source() == match addr {
                Some(a) => Source::Node(Node { ident: src_ident, addr: a }),
                None => Source::<A>::Host,
            },
            r.spec_destination() == dst,
    {
        let source = match addr {
            Some(a) => Source::from_remote(src_ident, a),
            None => Source::Host,
        };
        Self { packet, source, destination: dst }
    }

    /// A message for a packet received from `addr`, to be dropped unless
    /// routed.
    pub fn from_packet(packet: P, src_ident: u32, addr: Option<A>) -> (r: Self)
        ensures
            r.spec_packet() == packet,
            r.spec_source() == match addr {
                Some(a) => Source::Node(Node { ident: src_ident, addr: a }),
                None => Source::<A>::Host,
            },
            r.spec_destination() is Drop,
    {
        Self::from_split(packet, src_ident, addr, Destination::Drop)
    }

    pub fn source(&self) -> (r: &Source<A>)
        ensures
            *r == self.spec_source(),
    {
        &self.source
    }

    pub fn into_packet(self) -> (r: P)
        ensures
            r == self.spec_packet(),
    {
        self.packet
    }

    /// The packet with the address it came from, and the destination.
    pub fn split(self) -> (r: ((P, Option<A>), Destination<A>))
        ensures
            r.0.0 == self.spec_packet(),
            r.0.1 == match self.spec_source() {
                Source::Host => None,
                Source::Node(n) => Some(n.addr),
            },
            r.1 == self.spec_destination(),
    {
        let addr = match self.source {
            Source::Host => None,
            Source::Node(node) => Some(node.addr),
        };
        ((self.packet, addr), self.destination)
    }

    pub fn packet(&self) -> (r: &P)
        ensures
            *r == self.spec_packet(),
    {
        &self.packet
    }

    pub fn packet_mut(&mut self) -> (r: &mut P)
        ensures
            *r == old(self).spec_packet(),
            final(self).spec_packet() == *final(r),
            final(self).spec_source() == old(self).spec_source(),
            final(self).spec_destination() == old(self).spec_destination(),
    {
        &mut self.packet
    }

    pub fn set_destination(&mut self, dst: Destination<A>)
        ensures
            final(self).spec_destination() == dst,
            final(self).spec_packet() == old(self).spec_packet(),
            final(self).spec_source() == old(self).spec_source(),
    {
        self.destination = dst;
    }

    pub fn destination(&self) -> (r: &Destination<A>)
        ensures
            *r == self.spec_destination(),
    {
        &self.destination
    }
}

/// Splitting a message gives back the packet and address it was made from
/// and its destination.
pub proof fn law_split_inverts_from_split<P, A>(m: Message<P, A>, packet: P, src_ident: u32, addr: Option<A>, dst: Destination<A>)
    requires
        m.spec_packet() == packet,
        m.spec_source() == match addr {
            Some(a) => Source::Node(Node { ident: src_ident, addr: a }),
            None => Source::<A>::Host,
        },
        m.spec_destination() == dst,
    ensures
        match m.spec_source() {
            Source::Host => None,
            Source::Node(n) => Some(n.addr),
        } == addr,
{
}

/// The service that turns a packet and its source address into a message.
#[derive(Clone, Copy)]
pub struct ToMessageService;

/// The service that drops the messages it is given.
#[derive(Clone, Copy)]
pub struct SinkMessage;

} // verus!
