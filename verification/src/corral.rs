//! Decisions of the corral, the manager of connections to remote nodes:
//! which nodes a packet is sent to, and which requests it keeps track of
//! until their response or timeout.
use std::collections::HashMap;

use vstd::prelude::*;

use crate::message::SocketAddress;
use crate::resolver::{
    masked_match, random_pick_of, select_random, spec_pick, DstMask, Local, Resolver, RouteType,
};

verus! {

/// Default timeout of a pending connection, in milliseconds.
pub fn default_pending_timeout() -> (r: u64)
    ensures
        r == 500,
{
    500
}

/// Default timeout of an idle connection, in milliseconds.
pub fn default_idle_timeout() -> (r: u64)
    ensures
        r == 60_000,
{
    60_000
}

/// The identifiers a random route sends to, for the pick `p`.
pub open spec fn picked_ident<A>(p: Option<(u32, A)>) -> Seq<u32> {
    match p {
        Some(q) => seq![q.0],
        None => Seq::empty(),
    }
}

/// `v` holds each node of `m` that matches the pattern of `dst`, by its
/// identifier, exactly once.
pub open spec fn all_masked_idents<A>(m: Map<u32, A>, dst: DstMask, v: Seq<u32>) -> bool {
    &&& forall|i: int|
        0 <= i < v.len() ==> m.contains_key(#[trigger] v[i]) && masked_match(v[i], dst.ident, dst.mask)
    &&& forall|k: u32|
        m.contains_key(k) && masked_match(k, dst.ident, dst.mask) ==> exists|i: int|
            0 <= i < v.len() && #[trigger] v[i] == k
    &&& forall|i: int, j: int| 0 <= i < v.len() && 0 <= j < v.len() && i != j ==> v[i] != v[j]
}

/// Packet dispatcher: finds the nodes that match a packet's route and hands
/// the packet to their connections.
pub struct Dispatcher {}

impl Dispatcher {
    pub fn new() -> (r: Dispatcher) {
        Dispatcher {  }
    }

    /// The identifiers of the nodes a packet with route `route_type` is
    /// sent to, with the mappings of `resolver`: the node named, one
    /// matching node chosen at random (none if there is none), all matching
    /// nodes, or the nodes listed. `None` when the packet has no route.
    pub fn targets(&self, route_type: Option<RouteType>, resolver: &Local) -> (r: Option<Vec<u32>>)
        requires
            resolver.node_count() < u32::MAX,
        ensures
            route_type is None <==> r is None,
            route_type matches Some(RouteType::DstIdent(id)) ==> (r matches Some(v) && v@ == seq![id]),
            route_type matches Some(RouteType::DstRandom(m)) ==> (r matches Some(v) && v@.len() <= 1 && (
            v@.len() == 0 <==> forall|k: u32|
                resolver@.contains_key(k) ==> !masked_match(k, m.ident, m.mask)) && (v@.len() == 1
                ==> resolver@.contains_key(v@[0]) && masked_match(v@[0], m.ident, m.mask))),
            route_type matches Some(RouteType::DstRandom(m)) ==> exists|p: Option<(u32, SocketAddress)>|
                random_pick_of(resolver@, m, p) && (r matches Some(v) && v@ == #[trigger] picked_ident(p)),
            route_type matches Some(RouteType::DstBroadcast(m)) ==> (r matches Some(v)
                && all_masked_idents(resolver@, m, v@)),
            route_type matches Some(RouteType::DstMulticast(ids)) ==> (r matches Some(v) && v@ == ids@),
    {
        match route_type {
            None => None,
            Some(RouteType::DstIdent(ident)) => {
                let mut v: Vec<u32> = Vec::new();
                v.push(ident);
                Some(v)
            },
            Some(RouteType::DstRandom(m)) => {
                let nodes = resolver.visit_masked_nodes(m.ident, m.mask);
                let mut v: Vec<u32> = Vec::new();
                let p = select_random(&nodes);
                proof {
                    let d = choose|d: Seq<bool>|
                        d.len() == nodes@.len() && (nodes@.len() > 0 ==> d[0]) && p
                            == #[trigger] spec_pick(nodes@, d);
                    assert(random_pick_of(resolver@, m, p));
                }
                match p {
                    Some((ident, _)) => {
                        v.push(ident);
                    },
                    None => {},
                }
                assert(v@ =~= picked_ident(p));
                Some(v)
            },
            Some(RouteType::DstBroadcast(m)) => {
                let nodes = resolver.visit_masked_nodes(m.ident, m.mask);
                let mut v: Vec<u32> = Vec::new();
                let mut i: usize = 0;
                while i < nodes.len()
                    invariant
                        i <= nodes@.len(),
                        v@.len() == i,
                        forall|j: int| 0 <= j < i ==> #[trigger] v@[j] == nodes@[j].0,
                    decreases nodes@.len() - i,
                {
                    v.push(nodes[i].0);
                    i = i + 1;
                }
                proof {
                    assert forall|a: int| 0 <= a < v@.len() implies resolver@.contains_key(
                        #[trigger] v@[a],
                    ) && masked_match(v@[a], m.ident, m.mask) by {
                        assert(v@[a] == nodes@[a].0);
                    }
                    assert forall|k: u32|
                        resolver@.contains_key(k) && masked_match(k, m.ident, m.mask) implies exists|j: int|
                        0 <= j < v@.len() && #[trigger] v@[j] == k by {
                        let a = choose|a: int| 0 <= a < nodes@.len() && #[trigger] nodes@[a].0 == k;
                        assert(v@[a] == k);
                    }
                    assert forall|a: int, b: int|
                        0 <= a < v@.len() && 0 <= b < v@.len() && a != b implies v@[a] != v@[b] by {
                        assert(v@[a] == nodes@[a].0 && v@[b] == nodes@[b].0);
                    }
                    assert(all_masked_idents(resolver@, m, v@));
                }
                Some(v)
            },
            Some(RouteType::DstMulticast(ids)) => Some(ids),
        }
    }
}

/// Direction of a tracked request.
#[derive(Clone, Copy, PartialEq, Eq, Structural)]
pub enum Direction {
    /// A node's request to the host.
    ToHost,
    /// The host's request to a node.
    ToNode,
}

/// What recording a packet does to the table of pending requests.
#[derive(Clone, Copy, PartialEq, Eq, Structural)]
pub enum RpcAction {
    /// Nothing: the packet has no sequence number, or is a request
    /// without a timeout.
    Ignore,
    /// Track request `seq` until its response, for at most `timeout_ms`
    /// milliseconds.
    Track { seq: u32, timeout_ms: u64 },
    /// Stop tracking request `seq`: its response arrived.
    Finish { seq: u32 },
}

/// The action for a packet that is a response or a request, with sequence
/// number `seq` (if any) and a timeout of `timeout` milliseconds (0: none).
pub fn rpc_action(is_rsp: bool, seq: Option<u32>, timeout: u32) -> (r: RpcAction)
    ensures
        r == match seq {
            None => RpcAction::Ignore,
            Some(s) => if is_rsp {
                RpcAction::Finish { seq: s }
            } else if timeout > 0 {
                RpcAction::Track { seq: s, timeout_ms: timeout as u64 }
            } else {
                RpcAction::Ignore
            },
        },
{
    match seq {
        None => RpcAction::Ignore,
        Some(s) => {
            if is_rsp {
                RpcAction::Finish { seq: s }
            } else if timeout > 0 {
                RpcAction::Track { seq: s, timeout_ms: timeout as u64 }
            } else {
                RpcAction::Ignore
            }
        },
    }
}

/// The requests waiting for their response, by sequence number, each with
/// what the caller keeps for it (its header, direction and timer).
pub struct RpcTable<I> {
    pending: HashMap<u32, I>,
}

impl<I> View for RpcTable<I> {
    type V = Map<u32, I>;

    closed spec fn view(&self) -> Map<u32, I> {
        self.pending@
    }
}

impl<I> RpcTable<I> {
    /// No request pending.
    pub fn new() -> (r: Self)
        ensures
            r@ == Map::<u32, I>::empty(),
    {
        RpcTable { pending: HashMap::new() }
    }

    /// Keep request `seq` with `info` until its response or timeout; an
    /// earlier request with the same number is replaced and returned.
    pub fn track(&mut self, seq: u32, info: I) -> (r: Option<I>)
        ensures
            final(self)@ == old(self)@.insert(seq, info),
            r == (if old(self)@.contains_key(seq) {
                Some(old(self)@[seq])
            } else {
                None
            }),
    {
        broadcast use vstd::std_specs::hash::group_hash_axioms;

        self.pending.insert(seq, info)
    }

    /// Stop tracking request `seq`: its response arrived or it timed out.
    /// Returns what was kept for it, if it was pending.
    pub fn finish(&mut self, seq: u32) -> (r: Option<I>)
        ensures
            final(self)@ == old(self)@.remove(seq),
            r == (if old(self)@.contains_key(seq) {
                Some(old(self)@[seq])
            } else {
                None
            }),
    {
        broadcast use vstd::std_specs::hash::group_hash_axioms;

        self.pending.remove(&seq)
    }

    /// What is kept for request `seq`, if it is pending.
    pub fn get(&self, seq: u32) -> (r: Option<&I>)
        ensures
            r == (if self@.contains_key(seq) {
                Some(&self@[seq])
            } else {
                None
            }),
    {
        broadcast use vstd::std_specs::hash::group_hash_axioms;

        self.pending.get(&seq)
    }

    /// Number of pending requests.
    pub fn len(&self) -> (r: usize)
        ensures
            r == self@.len(),
    {
        broadcast use vstd::std_specs::hash::group_hash_axioms;

        self.pending.len()
    }
}

/// Finishing a request undoes tracking it: a table that did not hold
/// `seq` is back to what it was, and finishing hands back what tracking
/// kept.
pub proof fn law_finish_undoes_track<I>(pending: Map<u32, I>, seq: u32, info: I)
    requires
        !pending.contains_key(seq),
    ensures
        pending.insert(seq, info).remove(seq) == pending,
        pending.insert(seq, info).contains_key(seq),
        pending.insert(seq, info)[seq] == info,
{
    assert(pending.insert(seq, info).remove(seq) =~= pending);
}

/// Phase of the reader of a connection.
#[derive(Clone, Copy, Debug, PartialEq, Eq, Structural)]
pub enum ConnPhase {
    /// Waiting for the first request of an incoming connection.
    AwaitFirst,
    /// Handing the first request on.
    ForwardingFirst,
    /// Waiting for the next packet.
    Reading,
    /// Handing a packet on.
    Forwarding,
    /// Stopped.
    Done,
}

/// What happened while the reader waited or handed a packet on.
#[derive(Clone, Copy, Debug, PartialEq, Eq, Structural)]
pub enum ConnEvent {
    /// The corral is exiting.
    Exit,
    /// The wait timed out.
    TimedOut,
    /// The peer closed the connection.
    Closed,
    /// A packet arrived.
    Packet,
    /// The bytes that arrived are not a packet.
    BadPacket,
    /// The packet was handed on.
    Forwarded,
    /// Handing the packet on failed.
    ForwardFailed,
}

/// Why a reader stopped.
#[derive(Clone, Copy, Debug, PartialEq, Eq, Structural)]
pub enum StopReason {
    Exited,
    /// No first request came in time.
    PendingTimeout,
    /// No packet came in time.
    IdleTimeout,
    Closed,
    /// A packet could not be read: an error.
    ReadError,
    /// A packet could not be handed on: an error.
    ForwardError,
}

/// What the reader does next.
#[derive(Clone, Copy, Debug, PartialEq, Eq, Structural)]
pub enum ConnAction {
    /// Wait for a packet or the corral's exit, at most this long.
    Wait { timeout_ms: u64 },
    /// Hand the packet that arrived on, with the peer's address.
    Forward,
    /// Stop reading; the connection is closed.
    Stop(StopReason),
}

/// The events that can happen in a phase: while waiting, exit, timeout,
/// close or a packet; while handing on, the outcome.
pub open spec fn event_expected(phase: ConnPhase, event: ConnEvent) -> bool {
    match phase {
        ConnPhase::AwaitFirst | ConnPhase::Reading => !(event is Forwarded || event is ForwardFailed),
        ConnPhase::ForwardingFirst | ConnPhase::Forwarding => event is Forwarded
            || event is ForwardFailed,
        ConnPhase::Done => false,
    }
}

/// The first phase and action of a reader: with a pending timeout it first
/// waits that long for the first request, otherwise it reads at once.
pub open spec fn spec_conn_start(pending_ms: Option<u64>, idle_ms: u64) -> (ConnPhase, ConnAction) {
    match pending_ms {
        Some(p) => (ConnPhase::AwaitFirst, ConnAction::Wait { timeout_ms: p }),
        None => (ConnPhase::Reading, ConnAction::Wait { timeout_ms: idle_ms }),
    }
}

/// The next phase and action of a reader in `phase` after `event`.
pub open spec fn spec_conn_step(phase: ConnPhase, event: ConnEvent, idle_ms: u64) -> (ConnPhase, ConnAction) {
    let first = phase is AwaitFirst || phase is ForwardingFirst;
    match event {
        ConnEvent::Exit => (ConnPhase::Done, ConnAction::Stop(StopReason::Exited)),
        ConnEvent::TimedOut => (
            ConnPhase::Done,
            ConnAction::Stop(
                if first {
                    StopReason::PendingTimeout
                } else {
                    StopReason::IdleTimeout
                },
            ),
        ),
        ConnEvent::Closed => (ConnPhase::Done, ConnAction::Stop(StopReason::Closed)),
        ConnEvent::BadPacket => (ConnPhase::Done, ConnAction::Stop(StopReason::ReadError)),
        ConnEvent::Packet => (
            if first {
                ConnPhase::ForwardingFirst
            } else {
                ConnPhase::Forwarding
            },
            ConnAction::Forward,
        ),
        ConnEvent::Forwarded => (ConnPhase::Reading, ConnAction::Wait { timeout_ms: idle_ms }),
        ConnEvent::ForwardFailed => (ConnPhase::Done, ConnAction::Stop(StopReason::ForwardError)),
    }
}

/// Start the reader of a connection.
pub fn conn_start(pending_ms: Option<u64>, idle_ms: u64) -> (r: (ConnPhase, ConnAction))
    ensures
        r == spec_conn_start(pending_ms, idle_ms),
{
    match pending_ms {
        Some(p) => (ConnPhase::AwaitFirst, ConnAction::Wait { timeout_ms: p }),
        None => (ConnPhase::Reading, ConnAction::Wait { timeout_ms: idle_ms }),
    }
}

/// The reader's decision after `event`: exit, a timeout and a close stop it
/// quietly, a bad packet or a failed hand-on stop it with an error, a packet
/// is handed on, and once handed on the reader waits for the next packet
/// up to the idle timeout.
pub fn conn_step(phase: ConnPhase, event: ConnEvent, idle_ms: u64) -> (r: (ConnPhase, ConnAction))
    requires
        event_expected(phase, event),
    ensures
        r == spec_conn_step(phase, event, idle_ms),
{
    let first = match phase {
        ConnPhase::AwaitFirst | ConnPhase::ForwardingFirst => true,
        _ => false,
    };
    match event {
        ConnEvent::Exit => (ConnPhase::Done, ConnAction::Stop(StopReason::Exited)),
        ConnEvent::TimedOut => (
            ConnPhase::Done,
            ConnAction::Stop(
                if first {
                    StopReason::PendingTimeout
                } else {
                    StopReason::IdleTimeout
                },
            ),
        ),
        ConnEvent::Closed => (ConnPhase::Done, ConnAction::Stop(StopReason::Closed)),
        ConnEvent::BadPacket => (ConnPhase::Done, ConnAction::Stop(StopReason::ReadError)),
        ConnEvent::Packet => (
            if first {
                ConnPhase::ForwardingFirst
            } else {
                ConnPhase::Forwarding
            },
            ConnAction::Forward,
        ),
        ConnEvent::Forwarded => (ConnPhase::Reading, ConnAction::Wait { timeout_ms: idle_ms }),
        ConnEvent::ForwardFailed => (ConnPhase::Done, ConnAction::Stop(StopReason::ForwardError)),
    }
}

/// Whether a reader that stopped for `reason` reports an error.
pub fn stop_is_error(reason: StopReason) -> (r: bool)
    ensures
        r == (reason is ReadError || reason is ForwardError),
{
    match reason {
        StopReason::ReadError | StopReason::ForwardError => true,
        _ => false,
    }
}

/// What closing a connection does.
#[derive(Clone, Copy, Debug, PartialEq, Eq, Structural)]
pub enum CloseOutcome {
    /// It was not in the table of open connections: nothing to close.
    NotOpen,
    /// Its halves were reunited: the stream is shut down.
    Shutdown,
    /// Its write half is still shared: both halves are dropped, and the
    /// node stays known for a later reconnection.
    ReuniteFailed,
}

/// The outcome of closing a connection that was `removed` from the table
/// of open connections, and whose halves `reunited` or not.
pub fn close_outcome(removed: bool, reunited: bool) -> (r: CloseOutcome)
    ensures
        r == (if !removed {
            CloseOutcome::NotOpen
        } else if reunited {
            CloseOutcome::Shutdown
        } else {
            CloseOutcome::ReuniteFailed
        }),
{
    if !removed {
        CloseOutcome::NotOpen
    } else if reunited {
        CloseOutcome::Shutdown
    } else {
        CloseOutcome::ReuniteFailed
    }
}

/// A stopped reader stays stopped, and a reader only stops with an error
/// after a bad packet or a failed hand-on.
pub proof fn law_reader_stops(phase: ConnPhase, event: ConnEvent, idle_ms: u64)
    requires
        event_expected(phase, event),
    ensures
        spec_conn_step(phase, event, idle_ms).1 matches ConnAction::Stop(reason) ==> spec_conn_step(
            phase,
            event,
            idle_ms,
        ).0 == ConnPhase::Done,
        spec_conn_step(phase, event, idle_ms).1 matches ConnAction::Stop(reason) && (reason is ReadError
            || reason is ForwardError) ==> (event is BadPacket || event is ForwardFailed),
        !event_expected(ConnPhase::Done, event),
{
}

/// What each event does to a reader. A waiting reader hands every packet on
/// and is never stopped by one; once the packet is handed on it waits for
/// the next one up to the idle timeout. A reader stops exactly on an exit,
/// a timeout, a close, a bad packet or a failed hand-on, each with its own
/// reason; a timeout while the first request is awaited is the pending
/// timeout, any later one the idle timeout. A reader starts by waiting for
/// the first request up to the pending timeout when there is one, and
/// reads at once up to the idle timeout otherwise.
pub proof fn law_reader_events(phase: ConnPhase, event: ConnEvent, idle_ms: u64, pending_ms: Option<u64>)
    requires
        event_expected(phase, event),
    ensures
        phase == ConnPhase::AwaitFirst && event == ConnEvent::Packet ==> spec_conn_step(
            phase,
            event,
            idle_ms,
        ) == (ConnPhase::ForwardingFirst, ConnAction::Forward),
        phase == ConnPhase::Reading && event == ConnEvent::Packet ==> spec_conn_step(
            phase,
            event,
            idle_ms,
        ) == (ConnPhase::Forwarding, ConnAction::Forward),
        event == ConnEvent::Forwarded ==> spec_conn_step(phase, event, idle_ms) == (
            ConnPhase::Reading,
            ConnAction::Wait { timeout_ms: idle_ms },
        ),
        (spec_conn_step(phase, event, idle_ms).1 is Stop) <==> (event == ConnEvent::Exit || event
            == ConnEvent::TimedOut || event == ConnEvent::Closed || event == ConnEvent::BadPacket
            || event == ConnEvent::ForwardFailed),
        event == ConnEvent::Exit ==> spec_conn_step(phase, event, idle_ms).1 == ConnAction::Stop(
            StopReason::Exited,
        ),
        event == ConnEvent::Closed ==> spec_conn_step(phase, event, idle_ms).1 == ConnAction::Stop(
            StopReason::Closed,
        ),
        event == ConnEvent::BadPacket ==> spec_conn_step(phase, event, idle_ms).1
            == ConnAction::Stop(StopReason::ReadError),
        event == ConnEvent::ForwardFailed ==> spec_conn_step(phase, event, idle_ms).1
            == ConnAction::Stop(StopReason::ForwardError),
        event == ConnEvent::TimedOut && phase == ConnPhase::AwaitFirst ==> spec_conn_step(
            phase,
            event,
            idle_ms,
        ).1 == ConnAction::Stop(StopReason::PendingTimeout),
        event == ConnEvent::TimedOut && phase == ConnPhase::Reading ==> spec_conn_step(
            phase,
            event,
            idle_ms,
        ).1 == ConnAction::Stop(StopReason::IdleTimeout),
        pending_ms matches Some(p) ==> spec_conn_start(pending_ms, idle_ms) == (
            ConnPhase::AwaitFirst,
            ConnAction::Wait { timeout_ms: p },
        ),
        pending_ms is None ==> spec_conn_start(pending_ms, idle_ms) == (
            ConnPhase::Reading,
            ConnAction::Wait { timeout_ms: idle_ms },
        ),
{
}

} // verus!
