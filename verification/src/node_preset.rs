//! The node objects of the routing world: taken over whole, copied, compared, and made for BLE nodes.

use crate::endpoint::LinkEndpointView;
use crate::identity::{ControllerId, NodeId, Tick};
use crate::world::endpoint_named;
use jacquard_core::{
    ControllerId as CoreController, LinkEndpoint as CoreEndpoint, Node, NodeId as CoreNode,
    Tick as CoreTick,
};
use jacquard_mem_node_profile::{NodeIdentity, NodePreset, NodePresetOptions};
use jacquard_mercator::MERCATOR_ENGINE_ID;
use vstd::prelude::*;

verus! {

/// `jacquard_core::Node`: the controller of a node, its profile and its state. It is carried as it
/// came.
#[verifier::external_type_specification]
#[verifier::external_body]
pub struct ExNode(jacquard_core::Node);

/// `Clone::clone` of `jacquard_core::Node`, which is derived: a node that is the same in every field.
#[verifier::external_body]
pub(crate) fn clone_node(node: &Node) -> (copy: Node)
    ensures
        copy == *node,
{
    node.clone()
}

/// `PartialEq::eq` of `jacquard_core::Node`, which is derived: whether two nodes are the same in
/// every field.
#[verifier::external_body]
pub(crate) fn same_node(a: &Node, b: &Node) -> (equal: bool)
    ensures
        equal == (*a == *b),
{
    a == b
}

/// The node that `NodePreset::route_capable_for_engines(..).build()` of `jacquard_mem_node_profile`
/// makes for the one engine `jacquard_mercator::MERCATOR_ENGINE_ID`.
pub uninterp spec fn preset_node_of(
    node_id: NodeId,
    controller_id: ControllerId,
    endpoint: LinkEndpointView,
    observed_at_tick: Tick,
) -> Node;

/// `NodePreset::route_capable_for_engines(..).build()` of `jacquard_mem_node_profile`, for the one
/// engine `jacquard_mercator::MERCATOR_ENGINE_ID`: a node that can carry routes of that engine, made
/// of its identity, its endpoint and the time alone. The services of the node are good for some
/// ticks from that time on; the call panics where no tick is left.
#[verifier::external_body]
pub(crate) fn preset_node(
    node_id: NodeId,
    controller_id: ControllerId,
    endpoint: CoreEndpoint,
    observed_at_tick: Tick,
) -> (node: Node)
    requires
        observed_at_tick.0 < u64::MAX,
    ensures
        node == preset_node_of(
            node_id,
            controller_id,
            endpoint_named(endpoint),
            observed_at_tick,
        ),
{
    let identity = NodeIdentity::new(CoreNode(node_id.0), CoreController(controller_id.0));
    let options = NodePresetOptions::new(identity, endpoint, CoreTick(observed_at_tick.0));
    NodePreset::route_capable_for_engines(options, &[MERCATOR_ENGINE_ID]).build()
}

} // verus!
