//! Snapshot types for the live mesh topology.
//!
//! [`MeshTopology`] holds the current view of nodes, directed edges, and active routes.
//! [`ActiveRouteDelivery`] tells authoritative local and direct delivery from multi-hop
//! reachability that does not expose a selected path.

use crate::endpoint::{TransportKind, TransportKindView, kind_views};
use crate::identity::{EdgeKey, NodeId, RouteId, RoutingEngineId, Tick};
use crate::link::{Link, LinkView, Observation, link_observation_view};
use crate::node_preset::{clone_node, same_node};
use crate::ordered_map::{MapKey, OrderedMap};
use jacquard_core::Node;
use vstd::prelude::*;

verus! {

/// Whether a node is the one that the snapshot was taken on.
#[derive(Clone, Copy, Debug, PartialEq, Eq, PartialOrd, Ord, Structural)]
pub enum MeshNodeRole {
    Local,
    Remote,
}

/// A node of the mesh.
#[derive(Debug)]
pub struct MeshNode {
    pub node_id: NodeId,
    pub role: MeshNodeRole,
    pub node: Node,
}

impl MeshNode {
    /// The node that the snapshot is taken on.
    pub fn local(node_id: NodeId, node: Node) -> (mesh_node: MeshNode)
        ensures
            mesh_node == (MeshNode { node_id, role: MeshNodeRole::Local, node }),
    {
        MeshNode { node_id, role: MeshNodeRole::Local, node }
    }

    /// A node other than the local one.
    pub fn remote(node_id: NodeId, node: Node) -> (mesh_node: MeshNode)
        ensures
            mesh_node == (MeshNode { node_id, role: MeshNodeRole::Remote, node }),
    {
        MeshNode { node_id, role: MeshNodeRole::Remote, node }
    }

    /// Compares two nodes of the mesh.
    pub fn same(&self, other: &MeshNode) -> (equal: bool)
        ensures
            equal == (*self == *other),
    {
        self.node_id == other.node_id && self.role == other.role && same_node(
            &self.node,
            &other.node,
        )
    }

    /// Copies a node of the mesh.
    pub fn duplicate(&self) -> (copy: MeshNode)
        ensures
            copy == *self,
    {
        MeshNode { node_id: self.node_id, role: self.role, node: clone_node(&self.node) }
    }
}

/// A directed edge of the mesh with the observation that it rests on.
#[derive(Debug)]
pub struct MeshEdge {
    pub from_node_id: NodeId,
    pub to_node_id: NodeId,
    pub observation: Observation<Link>,
}

/// What a [`MeshEdge`] says.
pub ghost struct MeshEdgeView {
    pub from_node_id: NodeId,
    pub to_node_id: NodeId,
    pub observation: Observation<LinkView>,
}

impl View for MeshEdge {
    type V = MeshEdgeView;

    open spec fn view(&self) -> MeshEdgeView {
        MeshEdgeView {
            from_node_id: self.from_node_id,
            to_node_id: self.to_node_id,
            observation: link_observation_view(self.observation),
        }
    }
}

impl MeshEdge {
    /// The edge with its two ends and its observation.
    pub fn new(
        from_node_id: NodeId,
        to_node_id: NodeId,
        observation: Observation<Link>,
    ) -> (edge: MeshEdge)
        ensures
            edge == (MeshEdge { from_node_id, to_node_id, observation }),
    {
        MeshEdge { from_node_id, to_node_id, observation }
    }

    /// The two ends of the edge.
    pub open spec fn key(&self) -> EdgeKey {
        EdgeKey { from_node_id: self.from_node_id, to_node_id: self.to_node_id }
    }

    /// The transport that carries the edge.
    pub fn transport_kind(&self) -> (kind: &TransportKind)
        ensures
            *kind == self.observation.value.endpoint.transport_kind,
    {
        &self.observation.value.endpoint.transport_kind
    }

    /// Copies an edge.
    pub fn duplicate(&self) -> (copy: MeshEdge)
        ensures
            copy@ == self@,
    {
        MeshEdge {
            from_node_id: self.from_node_id,
            to_node_id: self.to_node_id,
            observation: self.observation.duplicate(),
        }
    }

    /// Compares two edges.
    pub fn same(&self, other: &MeshEdge) -> (equal: bool)
        ensures
            equal == (self@ == other@),
    {
        self.from_node_id == other.from_node_id && self.to_node_id == other.to_node_id
            && self.observation.same(&other.observation)
    }
}

/// How a route delivers.
#[derive(Clone, Copy, Debug, PartialEq, Eq)]
pub enum ActiveRouteDelivery {
    Local,
    Direct { next_hop_node_id: NodeId },
    Reachable { hop_count_hint: u8 },
}

impl ActiveRouteDelivery {
    /// Compares two ways of delivery.
    pub fn same(&self, other: &ActiveRouteDelivery) -> (equal: bool)
        ensures
            equal == (*self == *other),
    {
        match (self, other) {
            (ActiveRouteDelivery::Local, ActiveRouteDelivery::Local) => true,
            (
                ActiveRouteDelivery::Direct { next_hop_node_id: a },
                ActiveRouteDelivery::Direct { next_hop_node_id: b },
            ) => *a == *b,
            (
                ActiveRouteDelivery::Reachable { hop_count_hint: a },
                ActiveRouteDelivery::Reachable { hop_count_hint: b },
            ) => *a == *b,
            _ => false,
        }
    }
}

/// What a route leads to.
#[derive(Debug, PartialEq, Eq)]
pub enum DestinationId {
    Node(NodeId),
    Service(Vec<u8>),
    Gateway([u8; 16]),
}

/// What a [`DestinationId`] names.
pub ghost enum DestinationView {
    Node(NodeId),
    Service(Seq<u8>),
    Gateway(Seq<u8>),
}

impl View for DestinationId {
    type V = DestinationView;

    open spec fn view(&self) -> DestinationView {
        match self {
            DestinationId::Node(node_id) => DestinationView::Node(*node_id),
            DestinationId::Service(bytes) => DestinationView::Service(bytes@),
            DestinationId::Gateway(bytes) => DestinationView::Gateway(bytes@),
        }
    }
}

impl Clone for DestinationId {
    fn clone(&self) -> (copy: Self)
        ensures
            copy@ == self@,
    {
        match self {
            DestinationId::Node(node_id) => DestinationId::Node(*node_id),
            DestinationId::Service(bytes) => DestinationId::Service(
                crate::identity::bytes_to_vec(bytes.as_slice()),
            ),
            DestinationId::Gateway(bytes) => DestinationId::Gateway(*bytes),
        }
    }
}

impl DestinationId {
    /// Compares two destinations.
    pub fn same(&self, other: &DestinationId) -> (equal: bool)
        ensures
            equal == (self@ == other@),
    {
        match (self, other) {
            (DestinationId::Node(a), DestinationId::Node(b)) => *a == *b,
            (DestinationId::Service(a), DestinationId::Service(b)) => crate::identity::bytes_equal(
                a.as_slice(),
                b.as_slice(),
            ),
            (DestinationId::Gateway(a), DestinationId::Gateway(b)) => crate::identity::bytes_equal(
                a.as_slice(),
                b.as_slice(),
            ),
            _ => false,
        }
    }
}

/// How much of a route's path a routing engine shows.
#[derive(Clone, Copy, Debug, PartialEq, Eq, PartialOrd, Ord, Structural)]
pub enum RouteShapeVisibility {
    ExplicitPath,
    CorridorEnvelope,
    NextHopOnly,
    Opaque,
}

/// A route that is in use.
#[derive(Debug)]
pub struct ActiveRoute {
    pub route_id: RouteId,
    /// The node that owns and operates the route.
    pub owner_node_id: NodeId,
    pub destination: DestinationId,
    /// The last node; the owner itself only for local delivery.
    pub terminal_node_id: NodeId,
    pub engine: RoutingEngineId,
    /// How much of the path this snapshot shows.
    pub shape_visibility: RouteShapeVisibility,
    /// The transport kinds used over all hops, each once.
    pub protocol_mix: Vec<TransportKind>,
    pub delivery: ActiveRouteDelivery,
    pub observed_at_tick: Tick,
}

/// What an [`ActiveRoute`] says.
pub ghost struct ActiveRouteView {
    pub route_id: RouteId,
    pub owner_node_id: NodeId,
    pub destination: DestinationView,
    pub terminal_node_id: NodeId,
    pub engine: RoutingEngineId,
    pub shape_visibility: RouteShapeVisibility,
    pub protocol_mix: Seq<TransportKindView>,
    pub delivery: ActiveRouteDelivery,
    pub observed_at_tick: Tick,
}

impl View for ActiveRoute {
    type V = ActiveRouteView;

    open spec fn view(&self) -> ActiveRouteView {
        ActiveRouteView {
            route_id: self.route_id,
            owner_node_id: self.owner_node_id,
            destination: self.destination@,
            terminal_node_id: self.terminal_node_id,
            engine: self.engine,
            shape_visibility: self.shape_visibility,
            protocol_mix: kind_views(self.protocol_mix@),
            delivery: self.delivery,
            observed_at_tick: self.observed_at_tick,
        }
    }
}

/// The hops that a way of delivery names, in order.
pub open spec fn delivery_hops(
    delivery: ActiveRouteDelivery,
    owner_node_id: NodeId,
    terminal_node_id: NodeId,
) -> Seq<NodeId> {
    match delivery {
        ActiveRouteDelivery::Local => seq![owner_node_id],
        _ => seq![owner_node_id, terminal_node_id],
    }
}

impl ActiveRoute {
    /// The hops that are known of the route, in order.
    pub fn hop_node_ids(&self) -> (hops: Vec<NodeId>)
        ensures
            hops@ == delivery_hops(self.delivery, self.owner_node_id, self.terminal_node_id),
    {
        let mut hops: Vec<NodeId> = Vec::new();
        hops.push(self.owner_node_id);
        match self.delivery {
            ActiveRouteDelivery::Local => {},
            ActiveRouteDelivery::Direct { .. } => {
                hops.push(self.terminal_node_id);
            },
            ActiveRouteDelivery::Reachable { .. } => {
                hops.push(self.terminal_node_id);
            },
        }
        assert(hops@ =~= delivery_hops(self.delivery, self.owner_node_id, self.terminal_node_id));
        hops
    }

    /// Copies a route.
    pub fn duplicate(&self) -> (copy: ActiveRoute)
        ensures
            copy@ == self@,
    {
        ActiveRoute {
            route_id: self.route_id,
            owner_node_id: self.owner_node_id,
            destination: self.destination.clone(),
            terminal_node_id: self.terminal_node_id,
            engine: self.engine,
            shape_visibility: self.shape_visibility,
            protocol_mix: crate::endpoint::clone_kinds(&self.protocol_mix),
            delivery: self.delivery,
            observed_at_tick: self.observed_at_tick,
        }
    }

    /// Compares two routes.
    pub fn same(&self, other: &ActiveRoute) -> (equal: bool)
        ensures
            equal == (self@ == other@),
    {
        self.route_id == other.route_id && self.owner_node_id == other.owner_node_id
            && self.destination.same(&other.destination) && self.terminal_node_id
            == other.terminal_node_id && self.engine == other.engine && self.shape_visibility
            == other.shape_visibility && crate::endpoint::kinds_equal(
            &self.protocol_mix,
            &other.protocol_mix,
        ) && self.delivery.same(&other.delivery) && self.observed_at_tick == other.observed_at_tick
    }
}

/// The current view of the mesh.
#[derive(Debug)]
pub struct MeshTopology {
    pub local_node_id: NodeId,
    pub observed_at_tick: Tick,
    pub nodes: OrderedMap<NodeId, MeshNode>,
    pub edges: OrderedMap<EdgeKey, MeshEdge>,
    pub active_routes: OrderedMap<RouteId, ActiveRoute>,
}

impl MeshTopology {
    /// The three maps are proper maps.
    pub open spec fn wf(&self) -> bool {
        &&& self.nodes.wf()
        &&& self.edges.wf()
        &&& self.active_routes.wf()
    }

    /// The node with an identity.
    pub fn node(&self, node_id: &NodeId) -> (node: Option<&MeshNode>)
        requires
            self.wf(),
        ensures
            match node {
                Some(n) => self.nodes@.contains_key(*node_id) && *n == self.nodes@[*node_id],
                None => !self.nodes@.contains_key(*node_id),
            },
    {
        self.nodes.get(node_id)
    }

    /// The edge from one node to another.
    pub fn edge(&self, from_node_id: NodeId, to_node_id: NodeId) -> (edge: Option<&MeshEdge>)
        requires
            self.wf(),
        ensures
            match edge {
                Some(e) => {
                    &&& self.edges@.contains_key(EdgeKey { from_node_id, to_node_id })
                    &&& *e == self.edges@[EdgeKey { from_node_id, to_node_id }]
                },
                None => !self.edges@.contains_key(EdgeKey { from_node_id, to_node_id }),
            },
    {
        self.edges.get(&EdgeKey { from_node_id, to_node_id })
    }

    /// The route with an identity.
    pub fn active_route(&self, route_id: &RouteId) -> (route: Option<&ActiveRoute>)
        requires
            self.wf(),
        ensures
            match route {
                Some(r) => {
                    &&& self.active_routes@.contains_key(*route_id)
                    &&& *r == self.active_routes@[*route_id]
                },
                None => !self.active_routes@.contains_key(*route_id),
            },
    {
        self.active_routes.get(route_id)
    }
}

/// What a [`MeshTopology`] says.
pub ghost struct MeshTopologyView {
    pub local_node_id: NodeId,
    pub observed_at_tick: Tick,
    pub nodes: Map<NodeId, MeshNode>,
    pub edges: Map<EdgeKey, MeshEdgeView>,
    pub active_routes: Map<RouteId, ActiveRouteView>,
}

/// What the edges of a topology say.
pub open spec fn edge_views(edges: Map<EdgeKey, MeshEdge>) -> Map<EdgeKey, MeshEdgeView> {
    Map::new(|key: EdgeKey| edges.contains_key(key), |key: EdgeKey| edges[key]@)
}

/// What the routes of a topology say.
pub open spec fn route_views(routes: Map<RouteId, ActiveRoute>) -> Map<RouteId, ActiveRouteView> {
    Map::new(|id: RouteId| routes.contains_key(id), |id: RouteId| routes[id]@)
}

impl View for MeshTopology {
    type V = MeshTopologyView;

    open spec fn view(&self) -> MeshTopologyView {
        MeshTopologyView {
            local_node_id: self.local_node_id,
            observed_at_tick: self.observed_at_tick,
            nodes: self.nodes@,
            edges: edge_views(self.edges@),
            active_routes: route_views(self.active_routes@),
        }
    }
}

/// Two maps of which one holds every key of the other, and no more keys, have the same keys.
proof fn lemma_same_keys<K: MapKey, V>(a: OrderedMap<K, V>, b: OrderedMap<K, V>)
    requires
        a.wf(),
        b.wf(),
        a.keys().len() == b.keys().len(),
        forall|i: int| 0 <= i < a.keys().len() ==> b@.contains_key(#[trigger] a.keys()[i]),
    ensures
        a@.dom() == b@.dom(),
{
    a.lemma_len();
    b.lemma_len();
    assert forall|key: K| a@.dom().contains(key) implies b@.dom().contains(key) by {
        let i = a.lemma_position(key);
        assert(a.keys()[i] == key);
    }
    vstd::set_lib::lemma_subset_equality(a@.dom(), b@.dom());
}

fn same_nodes(
    a: &OrderedMap<NodeId, MeshNode>,
    b: &OrderedMap<NodeId, MeshNode>,
) -> (equal: bool)
    requires
        a.wf(),
        b.wf(),
    ensures
        equal == (a@ == b@),
{
    if a.len() != b.len() {
        return false;
    }
    let mut i: usize = 0;
    while i < a.len()
        invariant
            a.wf(),
            b.wf(),
            i <= a.keys().len(),
            a.keys().len() == b.keys().len(),
            forall|j: int|
                0 <= j < i ==> b@.contains_key(#[trigger] a.keys()[j]) && a@[a.keys()[j]]
                    == b@[a.keys()[j]],
        decreases a.keys().len() - i,
    {
        let key = a.key_at(i);
        let agree = match b.get(&key) {
            Some(other) => a.value_at(i).same(other),
            None => false,
        };
        if !agree {
            return false;
        }
        i = i + 1;
    }
    proof {
        lemma_same_keys(*a, *b);
        assert forall|key: NodeId| a@.contains_key(key) implies a@[key] == b@[key] by {
            let at = a.lemma_position(key);
            assert(a.keys()[at] == key);
        }
        assert(a@ =~= b@);
    }
    true
}

fn same_edges(
    a: &OrderedMap<EdgeKey, MeshEdge>,
    b: &OrderedMap<EdgeKey, MeshEdge>,
) -> (equal: bool)
    requires
        a.wf(),
        b.wf(),
    ensures
        equal == (edge_views(a@) == edge_views(b@)),
{
    if a.len() != b.len() {
        proof {
            a.lemma_len();
            b.lemma_len();
            assert(edge_views(a@).dom() =~= a@.dom());
            assert(edge_views(b@).dom() =~= b@.dom());
        }
        return false;
    }
    let mut i: usize = 0;
    while i < a.len()
        invariant
            a.wf(),
            b.wf(),
            i <= a.keys().len(),
            a.keys().len() == b.keys().len(),
            forall|j: int|
                0 <= j < i ==> b@.contains_key(#[trigger] a.keys()[j]) && a@[a.keys()[j]]@
                    == b@[a.keys()[j]]@,
        decreases a.keys().len() - i,
    {
        let key = a.key_at(i);
        let agree = match b.get(&key) {
            Some(other) => a.value_at(i).same(other),
            None => false,
        };
        if !agree {
            proof {
                assert(edge_views(a@).contains_key(key));
                assert(edge_views(a@)[key] == a@[key]@);
                assert(edge_views(b@).contains_key(key) ==> edge_views(b@)[key] == b@[key]@);
            }
            return false;
        }
        i = i + 1;
    }
    proof {
        lemma_same_keys(*a, *b);
        assert forall|key: EdgeKey| a@.contains_key(key) implies a@[key]@ == b@[key]@ by {
            let at = a.lemma_position(key);
            assert(a.keys()[at] == key);
        }
        assert forall|key: EdgeKey| a@.contains_key(key) == b@.contains_key(key) by {
            assert(a@.dom().contains(key) == b@.dom().contains(key));
        }
        assert(edge_views(a@) =~= edge_views(b@));
    }
    true
}

fn same_routes(
    a: &OrderedMap<RouteId, ActiveRoute>,
    b: &OrderedMap<RouteId, ActiveRoute>,
) -> (equal: bool)
    requires
        a.wf(),
        b.wf(),
    ensures
        equal == (route_views(a@) == route_views(b@)),
{
    if a.len() != b.len() {
        proof {
            a.lemma_len();
            b.lemma_len();
            assert(route_views(a@).dom() =~= a@.dom());
            assert(route_views(b@).dom() =~= b@.dom());
        }
        return false;
    }
    let mut i: usize = 0;
    while i < a.len()
        invariant
            a.wf(),
            b.wf(),
            i <= a.keys().len(),
            a.keys().len() == b.keys().len(),
            forall|j: int|
                0 <= j < i ==> b@.contains_key(#[trigger] a.keys()[j]) && a@[a.keys()[j]]@
                    == b@[a.keys()[j]]@,
        decreases a.keys().len() - i,
    {
        let key = a.key_at(i);
        let agree = match b.get(&key) {
            Some(other) => a.value_at(i).same(other),
            None => false,
        };
        if !agree {
            proof {
                assert(route_views(a@).contains_key(key));
                assert(route_views(a@)[key] == a@[key]@);
                assert(route_views(b@).contains_key(key) ==> route_views(b@)[key] == b@[key]@);
            }
            return false;
        }
        i = i + 1;
    }
    proof {
        lemma_same_keys(*a, *b);
        assert forall|key: RouteId| a@.contains_key(key) implies a@[key]@ == b@[key]@ by {
            let at = a.lemma_position(key);
            assert(a.keys()[at] == key);
        }
        assert forall|key: RouteId| a@.contains_key(key) == b@.contains_key(key) by {
            assert(a@.dom().contains(key) == b@.dom().contains(key));
        }
        assert(route_views(a@) =~= route_views(b@));
    }
    true
}

fn copy_nodes(nodes: &OrderedMap<NodeId, MeshNode>) -> (copy: OrderedMap<NodeId, MeshNode>)
    requires
        nodes.wf(),
    ensures
        copy.wf(),
        copy@ == nodes@,
{
    let mut copy: OrderedMap<NodeId, MeshNode> = OrderedMap::new();
    let mut i: usize = 0;
    while i < nodes.len()
        invariant
            nodes.wf(),
            copy.wf(),
            i <= nodes.keys().len(),
            forall|key: NodeId| #[trigger]
                copy@.contains_key(key) ==> nodes@.contains_key(key) && copy@[key] == nodes@[key],
            forall|j: int| 0 <= j < i ==> copy@.contains_key(#[trigger] nodes.keys()[j]),
        decreases nodes.keys().len() - i,
    {
        let _ = copy.insert(nodes.key_at(i), nodes.value_at(i).duplicate());
        i = i + 1;
    }
    proof {
        assert forall|key: NodeId| nodes@.contains_key(key) implies #[trigger] copy@.contains_key(
            key,
        ) by {
            let at = nodes.lemma_position(key);
            assert(nodes.keys()[at] == key);
        }
        assert(copy@ =~= nodes@);
    }
    copy
}

fn copy_edges(edges: &OrderedMap<EdgeKey, MeshEdge>) -> (copy: OrderedMap<EdgeKey, MeshEdge>)
    requires
        edges.wf(),
    ensures
        copy.wf(),
        edge_views(copy@) == edge_views(edges@),
{
    let mut copy: OrderedMap<EdgeKey, MeshEdge> = OrderedMap::new();
    let mut i: usize = 0;
    while i < edges.len()
        invariant
            edges.wf(),
            copy.wf(),
            i <= edges.keys().len(),
            forall|key: EdgeKey| #[trigger]
                copy@.contains_key(key) ==> edges@.contains_key(key) && copy@[key]@
                    == edges@[key]@,
            forall|j: int| 0 <= j < i ==> copy@.contains_key(#[trigger] edges.keys()[j]),
        decreases edges.keys().len() - i,
    {
        let _ = copy.insert(edges.key_at(i), edges.value_at(i).duplicate());
        i = i + 1;
    }
    proof {
        assert forall|key: EdgeKey| edges@.contains_key(key) implies #[trigger] copy@.contains_key(
            key,
        ) by {
            let at = edges.lemma_position(key);
            assert(edges.keys()[at] == key);
        }
        assert(edge_views(copy@) =~= edge_views(edges@));
    }
    copy
}

fn copy_routes(routes: &OrderedMap<RouteId, ActiveRoute>) -> (copy: OrderedMap<
    RouteId,
    ActiveRoute,
>)
    requires
        routes.wf(),
    ensures
        copy.wf(),
        route_views(copy@) == route_views(routes@),
{
    let mut copy: OrderedMap<RouteId, ActiveRoute> = OrderedMap::new();
    let mut i: usize = 0;
    while i < routes.len()
        invariant
            routes.wf(),
            copy.wf(),
            i <= routes.keys().len(),
            forall|key: RouteId| #[trigger]
                copy@.contains_key(key) ==> routes@.contains_key(key) && copy@[key]@
                    == routes@[key]@,
            forall|j: int| 0 <= j < i ==> copy@.contains_key(#[trigger] routes.keys()[j]),
        decreases routes.keys().len() - i,
    {
        let _ = copy.insert(routes.key_at(i), routes.value_at(i).duplicate());
        i = i + 1;
    }
    proof {
        assert forall|key: RouteId| routes@.contains_key(key) implies #[trigger] copy@.contains_key(
            key,
        ) by {
            let at = routes.lemma_position(key);
            assert(routes.keys()[at] == key);
        }
        assert(route_views(copy@) =~= route_views(routes@));
    }
    copy
}

impl MeshTopology {
    /// Compares two topologies.
    pub fn same(&self, other: &MeshTopology) -> (equal: bool)
        requires
            self.wf(),
            other.wf(),
        ensures
            equal == (self@ == other@),
    {
        self.local_node_id == other.local_node_id && self.observed_at_tick
            == other.observed_at_tick && same_nodes(&self.nodes, &other.nodes) && same_edges(
            &self.edges,
            &other.edges,
        ) && same_routes(&self.active_routes, &other.active_routes)
    }

    /// Copies a topology.
    pub fn duplicate(&self) -> (copy: MeshTopology)
        requires
            self.wf(),
        ensures
            copy.wf(),
            copy@ == self@,
    {
        MeshTopology {
            local_node_id: self.local_node_id,
            observed_at_tick: self.observed_at_tick,
            nodes: copy_nodes(&self.nodes),
            edges: copy_edges(&self.edges),
            active_routes: copy_routes(&self.active_routes),
        }
    }
}

/// Why a topology cannot be built.
#[derive(Debug, PartialEq, Eq)]
pub enum MeshTopologyBuildError {
    /// The local node is missing, or is not marked as local.
    MissingLocalNode { node_id: NodeId },
    /// A node appears more than once.
    DuplicateNode { node_id: NodeId },
    /// An edge appears more than once.
    DuplicateEdge { from_node_id: NodeId, to_node_id: NodeId },
    /// An edge names a node that the topology does not hold.
    EdgeReferencesUnknownNode {
        from_node_id: NodeId,
        to_node_id: NodeId,
        missing_node_id: NodeId,
    },
    /// A route appears more than once.
    DuplicateRoute { route_id: RouteId },
    /// The owner of a route is missing.
    RouteOwnerMissing { route_id: RouteId, owner_node_id: NodeId },
    /// The last node of a route is missing.
    RouteTerminalMissing { route_id: RouteId, terminal_node_id: NodeId },
    /// A hop of a route is missing.
    RouteHopNodeMissing { route_id: RouteId, node_id: NodeId },
    /// Local delivery does not end at the owner.
    LocalDeliveryTargetsRemote {
        route_id: RouteId,
        owner_node_id: NodeId,
        terminal_node_id: NodeId,
    },
    /// Local delivery advertises transports.
    LocalDeliveryHasProtocolMix { route_id: RouteId },
    /// Direct delivery does not name the last node as its next hop.
    DirectDeliveryNextHopMismatch {
        route_id: RouteId,
        next_hop_node_id: NodeId,
        terminal_node_id: NodeId,
    },
    /// Direct delivery starts and ends at the same node.
    DirectDeliveryCollapsesToLocal { route_id: RouteId },
    /// Reachable delivery starts and ends at the same node.
    ReachableDeliveryCollapsesToDirect { route_id: RouteId },
    /// A hop of a route has no edge.
    RouteMissingEdge { route_id: RouteId, from_node_id: NodeId, to_node_id: NodeId },
    /// A hop of a route uses a transport that the route does not name.
    RouteProtocolMixMissingTransport { route_id: RouteId, transport_kind: TransportKind },
    /// Reachable delivery hints at fewer than two hops.
    ReachableDeliveryRequiresMultiHop { route_id: RouteId },
}

/// The hops that are known of a route lead from its owner to its end; only local delivery stays where
/// it starts.
pub proof fn law_hops_lead_from_owner_to_end(
    delivery: ActiveRouteDelivery,
    owner_node_id: NodeId,
    terminal_node_id: NodeId,
)
    ensures
        ({
            let hops = delivery_hops(delivery, owner_node_id, terminal_node_id);
            &&& hops.len() > 0 && hops.first() == owner_node_id
            &&& delivery is Local ==> hops.len() == 1
            &&& !(delivery is Local) ==> hops.len() == 2 && hops.last() == terminal_node_id
        }),
{
}

/// Every edge is filed under the two nodes that it joins, in its direction.
pub proof fn law_edge_is_filed_by_its_ends(edge: MeshEdge)
    ensures
        edge.key().from_node_id == edge.from_node_id,
        edge.key().to_node_id == edge.to_node_id,
{
}

/// The views of a topology tell every edge and every route, each under its own key.
pub proof fn law_topology_views_tell_every_item(
    edges: Map<EdgeKey, MeshEdge>,
    routes: Map<RouteId, ActiveRoute>,
    key: EdgeKey,
    id: RouteId,
)
    ensures
        edge_views(edges).contains_key(key) <==> edges.contains_key(key),
        edges.contains_key(key) ==> edge_views(edges)[key].from_node_id == edges[key].from_node_id
            && edge_views(edges)[key].to_node_id == edges[key].to_node_id
            && edge_views(edges)[key].observation.value == edges[key].observation.value@
            && edge_views(edges)[key].observation.observed_at_tick
            == edges[key].observation.observed_at_tick,
        route_views(routes).contains_key(id) <==> routes.contains_key(id),
        routes.contains_key(id) ==> route_views(routes)[id].route_id == routes[id].route_id
            && route_views(routes)[id].owner_node_id == routes[id].owner_node_id
            && route_views(routes)[id].terminal_node_id == routes[id].terminal_node_id
            && route_views(routes)[id].delivery == routes[id].delivery
            && route_views(routes)[id].protocol_mix == kind_views(routes[id].protocol_mix@)
            && route_views(routes)[id].observed_at_tick == routes[id].observed_at_tick,
{
}

} // verus!
