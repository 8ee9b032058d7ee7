use vstd::prelude::*;
use accesskit::Node;

verus! {

#[verifier::external_type_specification]
#[verifier::external_body]
pub struct ExNode(Node);

/// The identifiers of a node's children in the accessibility tree, in order.
pub uninterp spec fn node_children(n: Node) -> Seq<u64>;

/// The node's role is `Role::Group`.
pub uninterp spec fn node_is_group(n: Node) -> bool;

/// Relies on accesskit's `Node::new(Role::Group)`: a node with role `Group`
/// whose children list is empty.
#[verifier::external_body]
pub(crate) fn group_node() -> (r: Node)
    ensures
        node_children(r) == Seq::<u64>::empty(),
        node_is_group(r),
{
    Node::new(accesskit::Role::Group)
}

/// Relies on accesskit's `Node::set_children`: the node's children become
/// the given identifiers, in order; the role is kept.
#[verifier::external_body]
pub(crate) fn set_node_children(n: &mut Node, children: Vec<u64>)
    ensures
        node_children(*final(n)) == children@,
        node_is_group(*final(n)) == node_is_group(*old(n)),
{
    n.set_children(children.into_iter().map(accesskit::NodeId).collect::<Vec<accesskit::NodeId>>());
}

} // verus!
