use vstd::prelude::*;
use vstd::multiset::Multiset;
use crate::accounting::{extends, lemma_allocated_extends, lemma_connected_extends, wired_since};
use crate::net::{
    allocated, connected, ports_of, InteractionNet, Label, NetError, NetView, Node, Port, RuleSet,
    MAX_NODES,
};

verus! {

/// A small rule set over natural numbers: a `Zero` constant, an `Erase`
/// sink, an addition node `Plus` and a duplicator `Copy`.
#[derive(Clone, Copy, Debug, PartialEq, Eq, Hash, Structural)]
pub enum GLA {
    Zero,
    Erase,
    Plus,
    Copy,
}

/// Port `index` of the node with identity `id` and label `label`.
pub open spec fn port_at(id: nat, label: GLA, index: nat) -> Port<GLA> {
    Port { node: Node { id: id as u8, label }, index: index as usize }
}

/// The net after the interaction of two nodes whose interfaces are `left`
/// and `right`, or the error that stops it (the net is then unchanged).
///
/// - `Zero` meeting `Erase` (either side): both vanish.
/// - `Zero` meeting `Copy`, or `Erase` meeting `Plus`: the left node is
///   copied twice, each copy wired to one of the two ports that the right
///   node's auxiliary ports led to.
/// - `Plus` meeting `Copy`: two `Plus` and two `Copy` nodes take their
///   place, crosswise wired to each other.
/// - any other pair has no rule.
pub open spec fn interaction(v: NetView<GLA>, left: Seq<Port<GLA>>, right: Seq<Port<GLA>>) -> Result<
    NetView<GLA>,
    NetError<GLA>,
> {
    let l = left[0].node.label;
    let r = right[0].node.label;
    let c = v.node_count;
    match (l, r) {
        (GLA::Zero, GLA::Erase) | (GLA::Erase, GLA::Zero) => Ok(v),
        (GLA::Zero, GLA::Copy) | (GLA::Erase, GLA::Plus) => if c + 2 > MAX_NODES {
            Err(NetError::NodeIdsExhausted)
        } else {
            let v1 = allocated(allocated(v));
            let v2 = connected(v1, right[1], port_at(c, l, 0));
            Ok(connected(v2, right[2], port_at(c + 1, l, 0)))
        },
        (GLA::Plus, GLA::Copy) => if c + 4 > MAX_NODES {
            Err(NetError::NodeIdsExhausted)
        } else {
            let v0 = allocated(allocated(allocated(allocated(v))));
            let v1 = connected(v0, port_at(c, GLA::Plus, 0), right[1]);
            let v2 = connected(v1, port_at(c + 1, GLA::Plus, 0), right[2]);
            let v3 = connected(v2, port_at(c + 2, GLA::Copy, 0), left[1]);
            let v4 = connected(v3, port_at(c + 3, GLA::Copy, 0), left[2]);
            let v5 = connected(v4, port_at(c, GLA::Plus, 1), port_at(c + 2, GLA::Copy, 1));
            let v6 = connected(v5, port_at(c, GLA::Plus, 2), port_at(c + 3, GLA::Copy, 1));
            let v7 = connected(v6, port_at(c + 1, GLA::Plus, 1), port_at(c + 2, GLA::Copy, 2));
            Ok(connected(v7, port_at(c + 1, GLA::Plus, 2), port_at(c + 3, GLA::Copy, 2)))
        },
        _ => Err(NetError::UnhandledRewrite { left: l, right: r }),
    }
}

/// The labels of the nodes that the rule for `l` meeting `r` creates, in
/// order of creation.
pub open spec fn created_labels(l: GLA, r: GLA) -> Seq<GLA> {
    match (l, r) {
        (GLA::Zero, GLA::Copy) | (GLA::Erase, GLA::Plus) => seq![l, l],
        (GLA::Plus, GLA::Copy) => seq![GLA::Plus, GLA::Plus, GLA::Copy, GLA::Copy],
        _ => Seq::empty(),
    }
}

/// All ports of the nodes with identities `first`, `first + 1`, ... that
/// carry `labels`, node after node, each node's ports in index order.
pub open spec fn ports_of_new(first: nat, labels: Seq<GLA>) -> Seq<Port<GLA>>
    decreases labels.len(),
{
    if labels.len() == 0 {
        Seq::empty()
    } else {
        let n = Node { id: (first + labels.len() - 1) as u8, label: labels.last() };
        ports_of_new(first, labels.drop_last()) + ports_of(n, (labels.last().spec_arity() + 1) as nat)
    }
}

/// Port conservation: a rule that applies wires each port that the
/// auxiliary ports of the pair led to exactly once, and each port of each
/// node it creates exactly once, and wires nothing else; what was stored
/// before stays in place. The two principal ports vanish with their nodes.
#[verifier::spinoff_prover]
#[verifier::rlimit(40)]
pub proof fn lemma_rewrite_conserves_ports(
    v: NetView<GLA>,
    left: Seq<Port<GLA>>,
    right: Seq<Port<GLA>>,
)
    requires
        left.len() >= 1,
        left.len() == left[0].node.label.spec_arity() + 1,
        right.len() >= 1,
        right.len() == right[0].node.label.spec_arity() + 1,
        interaction(v, left, right) is Ok,
    ensures
        ({
            let v2 = interaction(v, left, right)->Ok_0;
            let labels = created_labels(left[0].node.label, right[0].node.label);
            &&& extends(v, v2)
            &&& v2.node_count == v.node_count + labels.len()
            &&& wired_since(v, v2) == (left.drop_first() + right.drop_first() + ports_of_new(
                v.node_count,
                labels,
            )).to_multiset()
        }),
{
    broadcast use vstd::seq_lib::group_to_multiset_ensures;

    reveal_with_fuel(ports_of_new, 5);
    let l = left[0].node.label;
    let r = right[0].node.label;
    let c = v.node_count;
    let labels = created_labels(l, r);
    let all = left.drop_first() + right.drop_first() + ports_of_new(c, labels);
    let v2 = interaction(v, left, right)->Ok_0;
    assert(v.wires.skip(v.wires.len() as int) =~= Seq::empty());
    assert(v.active.skip(v.active.len() as int) =~= Seq::empty());
    assert(v.wires.subrange(0, v.wires.len() as int) =~= v.wires);
    assert(v.active.subrange(0, v.active.len() as int) =~= v.active);
    assert(wired_since(v, v) =~= Multiset::empty());
    match (l, r) {
        (GLA::Zero, GLA::Copy) | (GLA::Erase, GLA::Plus) => {
            let p0 = port_at(c, l, 0);
            let p1 = port_at(c + 1, l, 0);
            let v1 = allocated(allocated(v));
            lemma_allocated_extends(v, v);
            lemma_allocated_extends(v, allocated(v));
            let w2 = connected(v1, right[1], p0);
            lemma_connected_extends(v, v1, right[1], p0);
            lemma_connected_extends(v, w2, right[2], p1);
            assert(ports_of(Node { id: c as u8, label: l }, 1) =~= seq![p0]);
            assert(ports_of(Node { id: (c + 1) as u8, label: l }, 1) =~= seq![p1]);
            assert(all =~= Seq::empty().push(right[1]).push(right[2]).push(p0).push(p1));
            assert(wired_since(v, v2) =~= all.to_multiset());
        },
        (GLA::Plus, GLA::Copy) => {
            let a0 = port_at(c, GLA::Plus, 0);
            let a1 = port_at(c, GLA::Plus, 1);
            let a2 = port_at(c, GLA::Plus, 2);
            let b0 = port_at(c + 1, GLA::Plus, 0);
            let b1 = port_at(c + 1, GLA::Plus, 1);
            let b2 = port_at(c + 1, GLA::Plus, 2);
            let x0 = port_at(c + 2, GLA::Copy, 0);
            let x1 = port_at(c + 2, GLA::Copy, 1);
            let x2 = port_at(c + 2, GLA::Copy, 2);
            let y0 = port_at(c + 3, GLA::Copy, 0);
            let y1 = port_at(c + 3, GLA::Copy, 1);
            let y2 = port_at(c + 3, GLA::Copy, 2);
            lemma_allocated_extends(v, v);
            lemma_allocated_extends(v, allocated(v));
            lemma_allocated_extends(v, allocated(allocated(v)));
            lemma_allocated_extends(v, allocated(allocated(allocated(v))));
            let u0 = allocated(allocated(allocated(allocated(v))));
            let u1 = connected(u0, a0, right[1]);
            let u2 = connected(u1, b0, right[2]);
            let u3 = connected(u2, x0, left[1]);
            let u4 = connected(u3, y0, left[2]);
            let u5 = connected(u4, a1, x1);
            let u6 = connected(u5, a2, y1);
            let u7 = connected(u6, b1, x2);
            lemma_connected_extends(v, u0, a0, right[1]);
            lemma_connected_extends(v, u1, b0, right[2]);
            lemma_connected_extends(v, u2, x0, left[1]);
            lemma_connected_extends(v, u3, y0, left[2]);
            lemma_connected_extends(v, u4, a1, x1);
            lemma_connected_extends(v, u5, a2, y1);
            lemma_connected_extends(v, u6, b1, x2);
            lemma_connected_extends(v, u7, b2, y2);
            assert(ports_of(Node { id: c as u8, label: GLA::Plus }, 3) =~= seq![a0, a1, a2]);
            assert(ports_of(Node { id: (c + 1) as u8, label: GLA::Plus }, 3) =~= seq![b0, b1, b2]);
            assert(ports_of(Node { id: (c + 2) as u8, label: GLA::Copy }, 3) =~= seq![x0, x1, x2]);
            assert(ports_of(Node { id: (c + 3) as u8, label: GLA::Copy }, 3) =~= seq![y0, y1, y2]);
            assert(all =~= Seq::empty().push(left[1]).push(left[2]).push(right[1]).push(
                right[2],
            ).push(a0).push(a1).push(a2).push(b0).push(b1).push(b2).push(x0).push(x1).push(
                x2,
            ).push(y0).push(y1).push(y2));
            assert(wired_since(v, v2) =~= all.to_multiset());
        },
        _ => {
            assert(all =~= Seq::empty());
        },
    }
}

impl Label for GLA {
    open spec fn spec_arity(&self) -> usize {
        match self {
            GLA::Zero => 0,
            GLA::Erase => 0,
            GLA::Plus => 2,
            GLA::Copy => 2,
        }
    }

    fn arity(&self) -> (r: usize) {
        match self {
            GLA::Zero => 0,
            GLA::Erase => 0,
            GLA::Plus => 2,
            GLA::Copy => 2,
        }
    }
}

impl RuleSet for GLA {
    open spec fn spec_rewrite(v: NetView<GLA>, left: Seq<Port<GLA>>, right: Seq<Port<GLA>>) -> Result<
        NetView<GLA>,
        NetError<GLA>,
    > {
        interaction(v, left, right)
    }

    /// Applies the rule that `interaction` describes.
    fn rewrite(net: &mut InteractionNet<GLA>, left: Vec<Port<GLA>>, right: Vec<Port<GLA>>) -> (r:
        Result<(), NetError<GLA>>)
    {
        let mut left = left;
        let mut right = right;
        let l = left[0].node.label;
        let r = right[0].node.label;
        let c = net.node_count();
        match (l, r) {
            (GLA::Zero, GLA::Erase) | (GLA::Erase, GLA::Zero) => Ok(()),
            (GLA::Zero, GLA::Copy) | (GLA::Erase, GLA::Plus) => {
                if c + 2 > MAX_NODES {
                    return Err(NetError::NodeIdsExhausted);
                }
                let mut first = match net.add_node(l) {
                    Ok(ports) => ports,
                    Err(e) => return Err(e),
                };
                let mut second = match net.add_node(l) {
                    Ok(ports) => ports,
                    Err(e) => return Err(e),
                };
                right.remove(0);
                net.connect_ports(right.remove(0), first.remove(0));
                net.connect_ports(right.remove(0), second.remove(0));
                Ok(())
            },
            (GLA::Plus, GLA::Copy) => {
                if c + 4 > MAX_NODES {
                    return Err(NetError::NodeIdsExhausted);
                }
                let mut pls1 = match net.add_node(GLA::Plus) {
                    Ok(ports) => ports,
                    Err(e) => return Err(e),
                };
                let mut pls2 = match net.add_node(GLA::Plus) {
                    Ok(ports) => ports,
                    Err(e) => return Err(e),
                };
                let mut cpy1 = match net.add_node(GLA::Copy) {
                    Ok(ports) => ports,
                    Err(e) => return Err(e),
                };
                let mut cpy2 = match net.add_node(GLA::Copy) {
                    Ok(ports) => ports,
                    Err(e) => return Err(e),
                };
                left.remove(0);
                right.remove(0);
                net.connect_ports(pls1.remove(0), right.remove(0));
                net.connect_ports(pls2.remove(0), right.remove(0));
                net.connect_ports(cpy1.remove(0), left.remove(0));
                net.connect_ports(cpy2.remove(0), left.remove(0));
                net.connect_ports(pls1.remove(0), cpy1.remove(0));
                net.connect_ports(pls1.remove(0), cpy2.remove(0));
                net.connect_ports(pls2.remove(0), cpy1.remove(0));
                net.connect_ports(pls2.remove(0), cpy2.remove(0));
                Ok(())
            },
            _ => Err(NetError::UnhandledRewrite { left: l, right: r }),
        }
    }

}

} // verus!
