use vstd::prelude::*;
use vstd::multiset::Multiset;
use crate::net::{allocated, connected, Link, NetView, Port};

verus! {

/// The ports at the ends of the links, counted with multiplicity.
pub open spec fn endpoints<T>(s: Seq<Link<T>>) -> Multiset<Port<T>>
    decreases s.len(),
{
    if s.len() == 0 {
        Multiset::empty()
    } else {
        endpoints(s.drop_last()).insert(s.last().0).insert(s.last().1)
    }
}

/// `v2` grew out of `v`: each store kept `v`'s links as a prefix, and no
/// identity was given back.
pub open spec fn extends<T>(v: NetView<T>, v2: NetView<T>) -> bool {
    &&& v.wires.len() <= v2.wires.len()
    &&& v2.wires.subrange(0, v.wires.len() as int) == v.wires
    &&& v.active.len() <= v2.active.len()
    &&& v2.active.subrange(0, v.active.len() as int) == v.active
    &&& v.node_count <= v2.node_count
}

/// The ports wired on the way from `v` to `v2`: the ends of the links added
/// to either store, counted with multiplicity.
pub open spec fn wired_since<T>(v: NetView<T>, v2: NetView<T>) -> Multiset<Port<T>> {
    endpoints(v2.wires.skip(v.wires.len() as int)).add(
        endpoints(v2.active.skip(v.active.len() as int)),
    )
}

/// Extending a sequence of links by one adds its two ends.
pub proof fn lemma_endpoints_push<T>(s: Seq<Link<T>>, l: Link<T>)
    ensures
        endpoints(s.push(l)) == endpoints(s).insert(l.0).insert(l.1),
{
    assert(s.push(l).drop_last() =~= s);
}

/// A state reached from `v0` stays reached from it after one more node.
pub proof fn lemma_allocated_extends<T>(v0: NetView<T>, v: NetView<T>)
    requires
        extends(v0, v),
    ensures
        extends(v0, allocated(v)),
        wired_since(v0, allocated(v)) == wired_since(v0, v),
{
}

/// One more connection from a state reached from `v0` wires its two ports.
pub proof fn lemma_connected_extends<T>(v0: NetView<T>, v: NetView<T>, a: Port<T>, b: Port<T>)
    requires
        extends(v0, v),
    ensures
        extends(v0, connected(v, a, b)),
        wired_since(v0, connected(v, a, b)) == wired_since(v0, v).insert(a).insert(b),
{
    let v2 = connected(v, a, b);
    let nw = v0.wires.len() as int;
    let na = v0.active.len() as int;
    if a.index == 0 && b.index == 0 {
        assert(v2.active.skip(na) =~= v.active.skip(na).push((a, b)));
        assert(v2.active.subrange(0, na) =~= v.active.subrange(0, na));
        lemma_endpoints_push(v.active.skip(na), (a, b));
    } else {
        assert(v2.wires.skip(nw) =~= v.wires.skip(nw).push((a, b)));
        assert(v2.wires.subrange(0, nw) =~= v.wires.subrange(0, nw));
        lemma_endpoints_push(v.wires.skip(nw), (a, b));
    }
    assert(wired_since(v0, v2) =~= wired_since(v0, v).insert(a).insert(b));
}

} // verus!
