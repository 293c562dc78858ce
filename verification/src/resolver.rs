//! Resolving node identifiers to addresses, and routing a packet to its
//! destination by its route type.
use crate::message::{Destination, Node, SocketAddress};
use rand::Rng;
use vstd::prelude::*;

verus! {

/// Keys of `s` are pairwise distinct.
pub open spec fn unique_keys<A>(s: Seq<(u32, A)>) -> bool {
    forall|i: int, j: int| 0 <= i < s.len() && 0 <= j < s.len() && i != j ==> s[i].0 != s[j].0
}

/// The nodes among `ids` that `m` knows, in the order of `ids`.
pub open spec fn spec_visit_nodes<A>(m: Map<u32, A>, ids: Seq<u32>) -> Seq<(u32, A)>
    decreases ids.len(),
{
    if ids.len() == 0 {
        Seq::empty()
    } else {
        let rest = spec_visit_nodes(m, ids.drop_last());
        let k = ids.last();
        if m.contains_key(k) {
            rest.push((k, m[k]))
        } else {
            rest
        }
    }
}

/// `k` matches the pattern `ident` under `mask`.
pub open spec fn masked_match(k: u32, ident: u32, mask: u32) -> bool {
    k & mask == ident
}

/// `papaya::HashMap`, the concurrent hash map, known to Verus as an opaque type.
#[verifier::external_type_specification]
#[verifier::external_body]
#[verifier::reject_recursive_types(K)]
#[verifier::reject_recursive_types(V)]
#[verifier::reject_recursive_types(S)]
pub struct ExNodeTable<K, V, S>(papaya::HashMap<K, V, S>);

/// A concurrent table of node addresses by identifier.
pub type NodeTable = papaya::HashMap<u32, SocketAddress>;

/// The mappings held by a node table.
pub uninterp spec fn table_contents(m: NodeTable) -> Map<u32, SocketAddress>;

/// An empty table (`papaya::HashMap::new`).
#[verifier::external_body]
fn table_new() -> (table: NodeTable)
    ensures
        table_contents(table).dom() == Set::<u32>::empty(),
{
    papaya::HashMap::new()
}

/// Map `k` to `v`, replacing an earlier value of `k` (`insert` on the
/// table's pinned reference, `papaya::HashMap::pin`).
#[verifier::external_body]
fn table_insert(m: &mut NodeTable, k: u32, v: SocketAddress)
    ensures
        table_contents(*final(m)) == table_contents(*old(m)).insert(k, v),
{
    m.pin().insert(k, v);
}

/// The value of `k`, if any (`get` on the table's pinned reference).
#[verifier::external_body]
fn table_get(m: &NodeTable, k: u32) -> (r: Option<SocketAddress>)
    ensures
        r == (if table_contents(*m).contains_key(k) {
            Some(table_contents(*m)[k])
        } else {
            None
        }),
{
    m.pin().get(&k).copied()
}

/// All entries of the table, each once, in no particular order (`iter` on
/// the table's pinned reference). The table is not modified meanwhile: the
/// caller holds it.
#[verifier::external_body]
fn table_entries(m: &NodeTable) -> (r: Vec<(u32, SocketAddress)>)
    ensures
        r@.len() == table_contents(*m).len(),
        unique_keys(r@),
        forall|i: int|
            0 <= i < r@.len() ==> table_contents(*m).contains_key(#[trigger] r@[i].0)
                && table_contents(*m)[r@[i].0] == r@[i].1,
        forall|k: u32|
            table_contents(*m).contains_key(k) ==> exists|i: int|
                0 <= i < r@.len() && #[trigger] r@[i].0 == k,
{
    m.pin().iter().map(|(k, v)| (*k, *v)).collect()
}

/// Number of entries (`papaya::HashMap::len`).
#[verifier::external_body]
fn table_len(m: &NodeTable) -> (r: usize)
    ensures
        r == table_contents(*m).len(),
{
    m.len()
}

/// A resolver over a local table of identifier-to-address mappings.
pub struct Local {
    node_map: NodeTable,
}

impl View for Local {
    type V = Map<u32, SocketAddress>;

    closed spec fn view(&self) -> Map<u32, SocketAddress> {
        table_contents(self.node_map)
    }
}

impl Local {
    /// An empty resolver.
    pub fn new() -> (r: Self)
        ensures
            r@ == Map::<u32, SocketAddress>::empty(),
    {
        let r = Local { node_map: table_new() };
        assert(r@ =~= Map::<u32, SocketAddress>::empty());
        r
    }

    /// A resolver over the mappings of `map`.
    pub fn from_map(map: NodeTable) -> (r: Self)
        ensures
            r@ == table_contents(map),
    {
        Local { node_map: map }
    }
}

/// The masked visit `r` of a local table `m`: each node of `m` matching the
/// pattern exactly once.
pub open spec fn masked_visit_ok<A>(m: Map<u32, A>, ident: u32, mask: u32, r: Seq<(u32, A)>) -> bool {
    &&& unique_keys(r)
    &&& forall|i: int|
        0 <= i < r.len() ==> m.contains_key(#[trigger] r[i].0) && m[r[i].0] == r[i].1
            && masked_match(r[i].0, ident, mask)
    &&& forall|k: u32|
        m.contains_key(k) && masked_match(k, ident, mask) ==> exists|i: int|
            0 <= i < r.len() && #[trigger] r[i].0 == k
}

/// Resolves node identifiers to addresses of type `A`.
pub trait Resolver<A>: Sized {
    /// The resolver's internal invariant.
    spec fn spec_wf(&self) -> bool;

    /// The address `ident` resolves to.
    spec fn spec_get(&self, ident: u32) -> Option<A>;

    /// The nodes visited for the identifiers `ids`, in order.
    spec fn spec_visit(&self, ids: Seq<u32>) -> Seq<(u32, A)>;

    /// `r` is a valid answer to a masked visit.
    spec fn spec_masked(&self, ident: u32, mask: u32, r: Seq<(u32, A)>) -> bool;

    /// Map `ident` to `addr`.
    fn add_node(&mut self, ident: u32, addr: A)
        requires
            old(self).spec_wf(),
        ensures
            final(self).spec_wf(),
            final(self).spec_get(ident) == Some(addr),
            forall|k: u32| k != ident ==> final(self).spec_get(k) == old(self).spec_get(k),
    ;

    /// The address of `ident`, if known.
    fn get_node(&self, ident: u32) -> (r: Option<A>)
        requires
            self.spec_wf(),
        ensures
            r == self.spec_get(ident),
    ;

    /// The known nodes among `idents`.
    fn visit_nodes(&self, idents: &[u32]) -> (r: Vec<(u32, A)>)
        requires
            self.spec_wf(),
        ensures
            r@ == self.spec_visit(idents@),
    ;

    /// The known nodes whose identifier `k` has `k & mask == ident`.
    fn visit_masked_nodes(&self, ident: u32, mask: u32) -> (r: Vec<(u32, A)>)
        requires
            self.spec_wf(),
        ensures
            self.spec_masked(ident, mask, r@),
    ;
}

impl Resolver<SocketAddress> for Local {
    open spec fn spec_wf(&self) -> bool {
        true
    }

    open spec fn spec_get(&self, ident: u32) -> Option<SocketAddress> {
        if self@.contains_key(ident) {
            Some(self@[ident])
        } else {
            None
        }
    }

    open spec fn spec_visit(&self, ids: Seq<u32>) -> Seq<(u32, SocketAddress)> {
        spec_visit_nodes(self@, ids)
    }

    open spec fn spec_masked(&self, ident: u32, mask: u32, r: Seq<(u32, SocketAddress)>) -> bool {
        masked_visit_ok(self@, ident, mask, r) && r.len() <= self.node_count()
    }

    /// Map `ident` to `addr`, replacing an earlier mapping of `ident`.
    fn add_node(&mut self, ident: u32, addr: SocketAddress)
        ensures
            final(self)@ == old(self)@.insert(ident, addr),
    {
        table_insert(&mut self.node_map, ident, addr);
    }

    /// The address of `ident`, if known.
    fn get_node(&self, ident: u32) -> (r: Option<SocketAddress>)
        ensures
            r == if self@.contains_key(ident) {
                Some(self@[ident])
            } else {
                None
            },
    {
        table_get(&self.node_map, ident)
    }

    /// The known nodes among `idents`, in the order of `idents`.
    fn visit_nodes(&self, idents: &[u32]) -> (r: Vec<(u32, SocketAddress)>)
        ensures
            r@ == spec_visit_nodes(self@, idents@),
    {
        let mut out: Vec<(u32, SocketAddress)> = Vec::new();
        let mut i: usize = 0;
        while i < idents.len()
            invariant
                i <= idents@.len(),
                out@ == spec_visit_nodes(self@, idents@.take(i as int)),
            decreases idents@.len() - i,
        {
            let id = idents[i];
            match self.get_node(id) {
                Some(addr) => out.push((id, addr)),
                None => {},
            }
            assert(idents@.take(i + 1).drop_last() =~= idents@.take(i as int));
            i = i + 1;
        }
        assert(idents@.take(idents@.len() as int) =~= idents@);
        out
    }

    /// All known nodes whose identifier `k` has `k & mask == ident`, each
    /// once, in no particular order.
    fn visit_masked_nodes(&self, ident: u32, mask: u32) -> (r: Vec<(u32, SocketAddress)>)
        ensures
            unique_keys(r@),
            r@.len() <= self.node_count(),
            forall|i: int|
                0 <= i < r@.len() ==> self@.contains_key(#[trigger] r@[i].0) && self@[r@[i].0]
                    == r@[i].1 && masked_match(r@[i].0, ident, mask),
            forall|k: u32|
                self@.contains_key(k) && masked_match(k, ident, mask) ==> exists|i: int|
                    0 <= i < r@.len() && #[trigger] r@[i].0 == k,
    {
        let entries = table_entries(&self.node_map);
        let ghost s = entries@;
        let mut out: Vec<(u32, SocketAddress)> = Vec::new();
        let mut i: usize = 0;
        while i < entries.len()
            invariant
                s == entries@,
                unique_keys(s),
                i <= s.len(),
                out@.len() <= i,
                unique_keys(out@),
                forall|a: int|
                    0 <= a < out@.len() ==> exists|j: int|
                        0 <= j < i && s[j] == #[trigger] out@[a],
                forall|a: int| 0 <= a < out@.len() ==> masked_match(#[trigger] out@[a].0, ident, mask),
                forall|j: int|
                    0 <= j < i && masked_match(#[trigger] s[j].0, ident, mask) ==> exists|a: int|
                        0 <= a < out@.len() && out@[a].0 == s[j].0,
            decreases s.len() - i,
        {
            let (k, v) = entries[i];
            if k & mask == ident {
                let ghost before = out@;
                out.push((k, v));
                proof {
                    assert forall|a: int| 0 <= a < out@.len() implies exists|j: int|
                        0 <= j < i + 1 && s[j] == #[trigger] out@[a] by {
                        if a < before.len() {
                            let j = choose|j: int| 0 <= j < i && s[j] == before[a];
                            assert(s[j] == out@[a]);
                        } else {
                            assert(s[i as int] == out@[a]);
                        }
                    }
                    assert forall|a: int, b: int|
                        0 <= a < out@.len() && 0 <= b < out@.len() && a != b implies out@[a].0
                        != out@[b].0 by {
                        if a < before.len() && b == before.len() {
                            let j = choose|j: int| 0 <= j < i && s[j] == before[a];
                            assert(s[j].0 != s[i as int].0);
                        }
                        if b < before.len() && a == before.len() {
                            let j = choose|j: int| 0 <= j < i && s[j] == before[b];
                            assert(s[j].0 != s[i as int].0);
                        }
                    }
                    assert forall|j: int|
                        0 <= j < i + 1 && masked_match(#[trigger] s[j].0, ident, mask) implies exists|a: int|
                        0 <= a < out@.len() && out@[a].0 == s[j].0 by {
                        if j < i {
                            let a = choose|a: int| 0 <= a < before.len() && before[a].0 == s[j].0;
                            assert(out@[a].0 == s[j].0);
                        } else {
                            assert(out@[before.len() as int].0 == s[j].0);
                        }
                    }
                }
            }
            i = i + 1;
        }
        proof {
            assert forall|a: int| 0 <= a < out@.len() implies self@.contains_key(#[trigger] out@[a].0)
                && self@[out@[a].0] == out@[a].1 && masked_match(out@[a].0, ident, mask) by {
                let j = choose|j: int| 0 <= j < s.len() && s[j] == out@[a];
                assert(self@.contains_key(s[j].0));
            }
            assert forall|k: u32| self@.contains_key(k) && masked_match(k, ident, mask) implies exists|a: int|
                0 <= a < out@.len() && #[trigger] out@[a].0 == k by {
                let j = choose|j: int| 0 <= j < s.len() && s[j].0 == k;
                assert(masked_match(s[j].0, ident, mask));
            }
        }
        out
    }
}

/// Two resolvers tried in turn: mappings are added to both, looked up in
/// the first and then in the second, and visits cover the first and then
/// the second.
pub struct Chain<R1, R2> {
    pub r1: R1,
    pub r2: R2,
}

impl<R1, R2> Chain<R1, R2> {
    pub fn new(r1: R1, r2: R2) -> (r: Self)
        ensures
            r.r1 == r1,
            r.r2 == r2,
    {
        Chain { r1, r2 }
    }
}

impl<A: Copy, R1: Resolver<A>, R2: Resolver<A>> Resolver<A> for Chain<R1, R2> {
    open spec fn spec_wf(&self) -> bool {
        self.r1.spec_wf() && self.r2.spec_wf()
    }

    open spec fn spec_get(&self, ident: u32) -> Option<A> {
        match self.r1.spec_get(ident) {
            Some(a) => Some(a),
            None => self.r2.spec_get(ident),
        }
    }

    open spec fn spec_visit(&self, ids: Seq<u32>) -> Seq<(u32, A)> {
        self.r1.spec_visit(ids) + self.r2.spec_visit(ids)
    }

    open spec fn spec_masked(&self, ident: u32, mask: u32, r: Seq<(u32, A)>) -> bool {
        exists|k: int|
            0 <= k <= r.len() && self.r1.spec_masked(ident, mask, r.take(k)) && self.r2.spec_masked(
                ident,
                mask,
                r.skip(k),
            )
    }

    fn add_node(&mut self, ident: u32, addr: A) {
        self.r1.add_node(ident, addr);
        self.r2.add_node(ident, addr);
    }

    fn get_node(&self, ident: u32) -> (r: Option<A>) {
        match self.r1.get_node(ident) {
            Some(addr) => Some(addr),
            None => self.r2.get_node(ident),
        }
    }

    fn visit_nodes(&self, idents: &[u32]) -> (r: Vec<(u32, A)>) {
        let mut first = self.r1.visit_nodes(idents);
        let mut second = self.r2.visit_nodes(idents);
        first.append(&mut second);
        first
    }

    fn visit_masked_nodes(&self, ident: u32, mask: u32) -> (r: Vec<(u32, A)>) {
        let mut first = self.r1.visit_masked_nodes(ident, mask);
        let mut second = self.r2.visit_masked_nodes(ident, mask);
        let ghost a = first@;
        let ghost b = second@;
        first.append(&mut second);
        assert(first@.take(a.len() as int) =~= a);
        assert(first@.skip(a.len() as int) =~= b);
        first
    }
}

impl Local {
    /// Number of mappings.
    pub closed spec fn node_count(&self) -> nat {
        self@.len()
    }

    /// Number of mappings.
    pub fn len(&self) -> (r: usize)
        ensures
            r == self.node_count(),
    {
        table_len(&self.node_map)
    }
}

/// `rand::rngs::ThreadRng`, known to Verus as an opaque type.
#[verifier::external_type_specification]
#[verifier::external_body]
pub struct ExThreadRng(rand::rngs::ThreadRng);

/// `rand::rng`: a handle to the thread-local random number generator.
#[verifier::external_body]
fn thread_rng() -> rand::rngs::ThreadRng {
    rand::rng()
}

/// `rand::Rng::random_ratio`: true with probability `numerator / denominator`.
/// Its documentation promises `true` when both are equal and `false` when
/// the numerator is 0; it panics when the denominator is 0 or smaller than
/// the numerator. Nothing else is stated: the result is random.
#[verifier::external_body]
fn random_ratio(rng: &mut rand::rngs::ThreadRng, numerator: u32, denominator: u32) -> (r: bool)
    requires
        0 < denominator,
        numerator <= denominator,
    ensures
        numerator == denominator ==> r,
        numerator == 0 ==> !r,
{
    rng.random_ratio(numerator, denominator)
}

/// Index of the last `true` in `draws`, or -1 when there is none.
pub open spec fn last_drawn(draws: Seq<bool>) -> int
    decreases draws.len(),
{
    if draws.len() == 0 {
        -1
    } else if draws.last() {
        draws.len() - 1
    } else {
        last_drawn(draws.drop_last())
    }
}

proof fn lemma_last_drawn(draws: Seq<bool>)
    ensures
        -1 <= last_drawn(draws) < draws.len(),
        draws.len() > 0 && draws[0] ==> last_drawn(draws) >= 0,
    decreases draws.len(),
{
    if draws.len() > 0 && !draws.last() {
        lemma_last_drawn(draws.drop_last());
        if draws[0] && draws.len() > 1 {
            assert(draws.drop_last()[0] == draws[0]);
        }
    }
}

/// The node a reservoir pick chooses given its draws: the node at the last
/// index whose draw is `true`; `None` when there is no node.
pub open spec fn spec_pick<A>(nodes: Seq<(u32, A)>, draws: Seq<bool>) -> Option<(u32, A)> {
    if nodes.len() == 0 {
        None
    } else {
        Some(nodes[last_drawn(draws)])
    }
}

/// The ratio drawn for the candidate at index `i` of a reservoir pick: one
/// in `i + 1`, so that every candidate ends up chosen with the same chance.
pub fn draw_ratio(i: usize) -> (r: (u32, u32))
    requires
        i < u32::MAX,
    ensures
        r == (1u32, (i + 1) as u32),
{
    (1, (i + 1) as u32)
}

/// The node chosen by a reservoir pick whose draws were `draws`: the one
/// at the last index whose draw is `true`.
pub fn pick_by_draws<A: Copy>(nodes: &Vec<(u32, A)>, draws: &Vec<bool>) -> (r: Option<(u32, A)>)
    requires
        draws@.len() == nodes@.len(),
        nodes@.len() > 0 ==> draws@[0],
    ensures
        r == spec_pick(nodes@, draws@),
        r is None <==> nodes@.len() == 0,
{
    proof {
        lemma_last_drawn(draws@);
    }
    let mut selected: Option<(u32, A)> = None;
    let mut i: usize = 0;
    while i < nodes.len()
        invariant
            draws@.len() == nodes@.len(),
            nodes@.len() > 0 ==> draws@[0],
            i <= nodes@.len(),
            i == 0 ==> selected is None,
            i > 0 ==> selected == Some(nodes@[last_drawn(draws@.take(i as int))]),
        decreases nodes@.len() - i,
    {
        proof {
            let t = draws@.take(i + 1);
            assert(t.drop_last() =~= draws@.take(i as int));
            assert(t.last() == draws@[i as int]);
            lemma_last_drawn(draws@.take(i as int));
        }
        if draws[i] {
            selected = Some(nodes[i]);
        }
        i = i + 1;
    }
    proof {
        assert(draws@.take(nodes@.len() as int) =~= draws@);
    }
    selected
}

/// Pick one of `nodes` at random by reservoir sampling: the candidate at
/// index `i` replaces the pick with chance one in `i + 1`. The pick is what
/// `pick_by_draws` gives for the draws made, of which the first is always
/// `true`; `None` when there is no node.
pub fn select_random<A: Copy>(nodes: &Vec<(u32, A)>) -> (r: Option<(u32, A)>)
    requires
        nodes@.len() < u32::MAX,
    ensures
        r is None <==> nodes@.len() == 0,
        r matches Some(p) ==> nodes@.contains(p),
        exists|draws: Seq<bool>|
            draws.len() == nodes@.len() && (nodes@.len() > 0 ==> draws[0]) && r
                == #[trigger] spec_pick(nodes@, draws),
{
    let mut rng = thread_rng();
    let mut draws: Vec<bool> = Vec::new();
    let mut i: usize = 0;
    while i < nodes.len()
        invariant
            i <= nodes@.len(),
            nodes@.len() < u32::MAX,
            draws@.len() == i,
            i > 0 ==> draws@[0],
        decreases nodes@.len() - i,
    {
        let (numerator, denominator) = draw_ratio(i);
        let d = random_ratio(&mut rng, numerator, denominator);
        draws.push(d);
        i = i + 1;
    }
    let r = pick_by_draws(nodes, &draws);
    assert(r == spec_pick(nodes@, draws@));
    proof {
        lemma_last_drawn(draws@);
        if nodes@.len() > 0 {
            assert(nodes@.contains(nodes@[last_drawn(draws@)]));
        }
    }
    r
}

/// The destination of a random route whose pick was `p`.
pub open spec fn picked_destination<A>(p: Option<(u32, A)>) -> Option<Destination<A>> {
    match p {
        Some(q) => Some(Destination::Node(Node { ident: q.0, addr: q.1 })),
        None => None,
    }
}

/// `r` is what a reservoir pick over a masked visit of `m` may answer: the
/// pick, for some valid visit order and draws whose first is `true`.
pub open spec fn random_pick_of<A>(m: Map<u32, A>, dst: DstMask, r: Option<(u32, A)>) -> bool {
    exists|nodes: Seq<(u32, A)>, draws: Seq<bool>|
        masked_visit_ok(m, dst.ident, dst.mask, nodes) && draws.len() == nodes.len() && (nodes.len()
            > 0 ==> draws[0]) && r == #[trigger] spec_pick(nodes, draws)
}

/// Identifier pattern of a masked route: nodes whose identifier `k` has
/// `k & mask == ident`.
#[derive(Clone, Copy, PartialEq, Eq, Structural)]
pub struct DstMask {
    pub ident: u32,
    pub mask: u32,
}

/// How a packet is routed.
pub enum RouteType {
    /// To the node with this identifier.
    DstIdent(u32),
    /// To one node, chosen at random, among those matching the pattern.
    DstRandom(DstMask),
    /// To all nodes matching the pattern.
    DstBroadcast(DstMask),
    /// To the nodes with these identifiers.
    DstMulticast(Vec<u32>),
}

/// `v` holds each node of `m` that matches the pattern of `dst` exactly once.
pub open spec fn all_masked_nodes<A>(m: Map<u32, A>, dst: DstMask, v: Seq<Node<A>>) -> bool {
    &&& forall|i: int|
        0 <= i < v.len() ==> m.contains_key(#[trigger] v[i].ident) && m[v[i].ident] == v[i].addr
            && masked_match(v[i].ident, dst.ident, dst.mask)
    &&& forall|k: u32|
        m.contains_key(k) && masked_match(k, dst.ident, dst.mask) ==> exists|i: int|
            0 <= i < v.len() && #[trigger] v[i].ident == k
    &&& forall|i: int, j: int|
        0 <= i < v.len() && 0 <= j < v.len() && i != j ==> v[i].ident != v[j].ident
}

/// The nodes of an identifier-address list, in order.
pub open spec fn as_nodes<A>(s: Seq<(u32, A)>) -> Seq<Node<A>> {
    s.map_values(|p: (u32, A)| Node { ident: p.0, addr: p.1 })
}

fn to_nodes<A: Copy>(v: Vec<(u32, A)>) -> (r: Vec<Node<A>>)
    ensures
        r@ == as_nodes(v@),
{
    let mut out: Vec<Node<A>> = Vec::new();
    let mut i: usize = 0;
    while i < v.len()
        invariant
            i <= v@.len(),
            out@ == as_nodes(v@.take(i as int)),
        decreases v@.len() - i,
    {
        out.push(Node::new(v[i].0, v[i].1));
        assert(as_nodes(v@.take(i + 1)) =~= as_nodes(v@.take(i as int)).push(
            Node { ident: v@[i as int].0, addr: v@[i as int].1 },
        ));
        i = i + 1;
    }
    assert(v@.take(v@.len() as int) =~= v@);
    out
}

/// The destination of a packet with route `route_type`, for the local node
/// `local_ident` and the mappings of `resolver`; `None` when no route is
/// found.
pub fn dispatch(route_type: Option<RouteType>, local_ident: u32, resolver: &Local) -> (r: Option<
    Destination<SocketAddress>,
>)
    requires
        resolver.node_count() < u32::MAX,
    ensures
        route_type is None ==> r is None,
        route_type matches Some(RouteType::DstIdent(id)) ==> (if id == local_ident {
            r matches Some(Destination::Host)
        } else if resolver@.contains_key(id) {
            r matches Some(Destination::Node(n)) && n == (Node { ident: id, addr: resolver@[id] })
        } else {
            r is None
        }),
        route_type matches Some(RouteType::DstRandom(m)) ==> (match r {
            None => forall|k: u32| resolver@.contains_key(k) ==> !masked_match(k, m.ident, m.mask),
            Some(Destination::Node(n)) => resolver@.contains_key(n.ident) && resolver@[n.ident]
                == n.addr && masked_match(n.ident, m.ident, m.mask),
            _ => false,
        }),
        route_type matches Some(RouteType::DstRandom(m)) ==> exists|p: Option<(u32, SocketAddress)>|
            random_pick_of(resolver@, m, p) && r == #[trigger] picked_destination(p),
        route_type matches Some(RouteType::DstBroadcast(m)) ==> (r matches Some(
            Destination::NodeList(v),
        ) && all_masked_nodes(resolver@, m, v@)),
        route_type matches Some(RouteType::DstMulticast(ids)) ==> (r matches Some(
            Destination::NodeList(v),
        ) && v@ == as_nodes(spec_visit_nodes(resolver@, ids@))),
{
    match route_type {
        None => None,
        Some(RouteType::DstIdent(ident)) => {
            if ident == local_ident {
                Some(Destination::Host)
            } else {
                match resolver.get_node(ident) {
                    Some(addr) => Some(Destination::Node(Node::new(ident, addr))),
                    None => None,
                }
            }
        },
        Some(RouteType::DstRandom(m)) => {
            let nodes = resolver.visit_masked_nodes(m.ident, m.mask);
            let p = select_random(&nodes);
            proof {
                let d = choose|d: Seq<bool>|
                    d.len() == nodes@.len() && (nodes@.len() > 0 ==> d[0]) && p == #[trigger] spec_pick(
                        nodes@,
                        d,
                    );
                assert(random_pick_of(resolver@, m, p));
            }
            let r = match p {
                Some((ident, addr)) => Some(Destination::Node(Node::new(ident, addr))),
                None => None,
            };
            assert(r == picked_destination(p));
            r
        },
        Some(RouteType::DstBroadcast(m)) => {
            let nodes = resolver.visit_masked_nodes(m.ident, m.mask);
            let ghost n = nodes@;
            let list = to_nodes(nodes);
            proof {
                assert forall|i: int| 0 <= i < list@.len() implies #[trigger] list@[i].ident == n[i].0
                    && list@[i].addr == n[i].1 by {}
                assert forall|k: u32|
                    resolver@.contains_key(k) && masked_match(k, m.ident, m.mask) implies exists|i: int|
                    0 <= i < list@.len() && #[trigger] list@[i].ident == k by {
                    let a = choose|a: int| 0 <= a < n.len() && #[trigger] n[a].0 == k;
                    assert(list@[a].ident == k);
                }
                assert(forall|i: int|
                    0 <= i < list@.len() ==> resolver@.contains_key(#[trigger] list@[i].ident)
                        && resolver@[list@[i].ident] == list@[i].addr && masked_match(list@[i].ident, m.ident, m.mask));
                assert(forall|i: int, j: int|
                    0 <= i < list@.len() && 0 <= j < list@.len() && i != j ==> list@[i].ident != list@[j].ident);
                assert(all_masked_nodes(resolver@, m, list@));
            }
            Some(Destination::NodeList(list))
        },
        Some(RouteType::DstMulticast(ids)) => {
            let nodes = resolver.visit_nodes(ids.as_slice());
            Some(Destination::NodeList(to_nodes(nodes)))
        },
    }
}

/// Default size of the local resolver's mask cache.
pub fn default_local_cache_size() -> (r: usize)
    ensures
        r == 114514,
{
    114514
}

/// Default live time of entries in the local resolver's mask cache, in
/// milliseconds.
pub fn default_local_livetime() -> (r: u64)
    ensures
        r == 1000,
{
    1000
}

/// Default service name registered by the Consul resolver.
pub fn default_service_name() -> (r: String)
    ensures
        r@ == "kaze-service"@,
{
    broadcast use vstd::string::group_string_axioms;
    "kaze-service".to_string()
}

/// Default keep-alive interval of the Consul resolver, in milliseconds.
pub fn default_register_interval() -> (r: u64)
    ensures
        r == 10_000,
{
    10_000
}

/// A resolver registered as a plugin, initialised with the plugin context.
#[derive(Clone, Copy)]
pub struct ResolverPlugin<R> {
    resolver: R,
}

impl<R> ResolverPlugin<R> {
    /// The wrapped resolver.
    pub closed spec fn spec_resolver(&self) -> R {
        self.resolver
    }

    pub fn new(resolver: R) -> (r: Self)
        ensures
            r.spec_resolver() == resolver,
    {
        Self { resolver }
    }

    /// The wrapped resolver.
    pub fn resolver(&self) -> (r: &R)
        ensures
            *r == self.spec_resolver(),
    {
        &self.resolver
    }
}

/// A resolver registered as a plugin that needs no context.
#[derive(Clone, Copy)]
pub struct ResolverNoPlugin<R> {
    resolver: R,
}

impl<R> ResolverNoPlugin<R> {
    /// The wrapped resolver.
    pub closed spec fn spec_resolver(&self) -> R {
        self.resolver
    }

    pub fn new(resolver: R) -> (r: Self)
        ensures
            r.spec_resolver() == resolver,
    {
        Self { resolver }
    }

    /// The wrapped resolver.
    pub fn resolver(&self) -> (r: &R)
        ensures
            *r == self.spec_resolver(),
    {
        &self.resolver
    }
}

} // verus!
