use vstd::prelude::*;
use crate::net::{
    find_from, names, resolve, resolve_aux, same_place, Label, Link, NetView, Node, Port,
};

verus! {

/// `p` is an auxiliary port of `n`, by identity and index.
pub open spec fn aux_of<T: Label>(p: Port<T>, n: Node<T>) -> bool {
    p.node.id == n.id && 1 <= p.index && p.index <= n.label.spec_arity()
}

/// `p` is an auxiliary port of one of the two nodes of a pair.
pub open spec fn in_pair<T: Label>(p: Port<T>, a: Node<T>, b: Node<T>) -> bool {
    aux_of(p, a) || aux_of(p, b)
}

/// No wire of `w` joins two auxiliary ports of the pair's nodes.
pub open spec fn no_inner_wire<T: Label>(w: Seq<Link<T>>, a: Node<T>, b: Node<T>) -> bool {
    forall|i: int| 0 <= i < w.len() ==> !(in_pair(#[trigger] w[i].0, a, b) && in_pair(w[i].1, a, b))
}

/// Some wire of `w` names `p`.
pub open spec fn named_in<T>(w: Seq<Link<T>>, p: Port<T>) -> bool {
    exists|i: int| 0 <= i < w.len() && #[trigger] names(w[i], p)
}

/// Every auxiliary port of the pair's nodes that `skip` leaves out is named
/// by a wire of `w`.
pub open spec fn pair_wired<T: Label>(
    w: Seq<Link<T>>,
    a: Node<T>,
    b: Node<T>,
    skip: spec_fn(Port<T>) -> bool,
) -> bool {
    forall|p: Port<T>| #[trigger] in_pair(p, a, b) && !skip(p) ==> named_in(w, p)
}

/// The search finds a wire exactly when one names `p`, and what it finds
/// names `p`.
pub proof fn lemma_find_from<T>(w: Seq<Link<T>>, p: Port<T>, i: int)
    requires
        0 <= i,
    ensures
        find_from(w, p, i) is Some <==> exists|j: int| i <= j < w.len() && #[trigger] names(w[j], p),
        find_from(w, p, i) is Some ==> i <= find_from(w, p, i)->Some_0 < w.len() && names(
            w[find_from(w, p, i)->Some_0],
            p,
        ),
    decreases w.len() - i,
{
    if i < w.len() && !names(w[i], p) {
        lemma_find_from(w, p, i + 1);
        if exists|j: int| i <= j < w.len() && #[trigger] names(w[j], p) {
            let j = choose|j: int| i <= j < w.len() && #[trigger] names(w[j], p);
            assert(j != i);
        }
    }
}

/// Resolving `p` keeps every other wire: a port named by a wire that does
/// not name `p` is still named afterwards, and each remaining wire was there
/// before.
pub proof fn lemma_resolve_keeps<T>(w: Seq<Link<T>>, p: Port<T>)
    requires
        resolve(w, p) is Some,
    ensures
        forall|k: int|
            0 <= k < resolve(w, p)->Some_0.1.len() ==> exists|i: int|
                0 <= i < w.len() && #[trigger] resolve(w, p)->Some_0.1[k] == w[i],
        forall|x: Port<T>, i: int|
            0 <= i < w.len() && #[trigger] names(w[i], x) && !names(w[i], p) ==> named_in(
                resolve(w, p)->Some_0.1,
                x,
            ),
{
    lemma_find_from(w, p, 0);
    let j = find_from(w, p, 0)->Some_0;
    let w2 = resolve(w, p)->Some_0.1;
    assert forall|k: int| 0 <= k < w2.len() implies exists|i: int|
        0 <= i < w.len() && #[trigger] w2[k] == w[i] by {
        if k == j {
            assert(w2[k] == w[w.len() - 1]);
        } else {
            assert(w2[k] == w[k]);
        }
    }
    assert forall|x: Port<T>, i: int|
        0 <= i < w.len() && #[trigger] names(w[i], x) && !names(w[i], p) implies named_in(w2, x) by {
        if i == w.len() - 1 {
            assert(names(w2[j], x));
        } else {
            assert(names(w2[i], x));
        }
    }
}

/// Resolving the first `n` auxiliary ports of `node`, one of the two nodes
/// of a pair, succeeds when each of them is named by a wire and no wire
/// joins two auxiliary ports of the pair; the store left over still names
/// the pair's other auxiliary ports and still joins none of them.
pub proof fn lemma_resolve_aux_succeeds<T: Label>(
    w: Seq<Link<T>>,
    a: Node<T>,
    b: Node<T>,
    node: Node<T>,
    n: nat,
    skip: spec_fn(Port<T>) -> bool,
)
    requires
        a.id != b.id,
        node == a || node == b,
        n <= node.label.spec_arity(),
        forall|p: Port<T>| aux_of(p, node) ==> !skip(p),
        no_inner_wire(w, a, b),
        pair_wired(w, a, b, skip),
    ensures
        resolve_aux(w, node, n).0 is Ok,
        no_inner_wire(resolve_aux(w, node, n).1, a, b),
        pair_wired(
            resolve_aux(w, node, n).1,
            a,
            b,
            |p: Port<T>| skip(p) || (p.node.id == node.id && 1 <= p.index && p.index <= n),
        ),
    decreases n,
{
    let done = |p: Port<T>| skip(p) || (p.node.id == node.id && 1 <= p.index && p.index <= n);
    if n == 0 {
        assert forall|p: Port<T>| #[trigger] in_pair(p, a, b) && !done(p) implies named_in(w, p) by {
            assert(!skip(p));
        }
    } else {
        let before = |p: Port<T>|
            skip(p) || (p.node.id == node.id && 1 <= p.index && p.index <= (n - 1) as nat);
        lemma_resolve_aux_succeeds(w, a, b, node, (n - 1) as nat, skip);
        let w1 = resolve_aux(w, node, (n - 1) as nat).1;
        let here = Port { node, index: n as usize };
        assert(aux_of(here, node));
        assert(!skip(here));
        assert(in_pair(here, a, b));
        assert(!before(here));
        lemma_find_from(w1, here, 0);
        lemma_resolve_keeps(w1, here);
        let w2 = resolve(w1, here)->Some_0.1;
        assert forall|k: int| 0 <= k < w2.len() implies !(in_pair(#[trigger] w2[k].0, a, b)
            && in_pair(w2[k].1, a, b)) by {
            let i = choose|i: int| 0 <= i < w1.len() && #[trigger] w2[k] == w1[i];
        }
        assert forall|p: Port<T>| #[trigger] in_pair(p, a, b) && !done(p) implies named_in(
            w2,
            p,
        ) by {
            assert(!before(p));
            let i = choose|i: int| 0 <= i < w1.len() && #[trigger] names(w1[i], p);
            if names(w1[i], here) {
                assert(in_pair(w1[i].0, a, b) && in_pair(w1[i].1, a, b));
            }
        }
    }
}

/// Taking a redex never meets a dangling port when the net is wired around
/// it: the two nodes of the queued pair differ, each of their auxiliary
/// ports is named by a wire, and no wire joins two of those ports. Both
/// interfaces then resolve, as `next_redex` resolves them.
pub proof fn lemma_redex_resolves<T: Label>(v: NetView<T>)
    requires
        v.active.len() > 0,
        v.active.last().0.node.id != v.active.last().1.node.id,
        no_inner_wire(v.wires, v.active.last().0.node, v.active.last().1.node),
        pair_wired(v.wires, v.active.last().0.node, v.active.last().1.node, |p: Port<T>| false),
    ensures
        ({
            let (a, b) = v.active.last();
            let (ra, wa) = resolve_aux(v.wires, a.node, a.node.label.spec_arity() as nat);
            let (rb, wb) = resolve_aux(wa, b.node, b.node.label.spec_arity() as nat);
            ra is Ok && rb is Ok
        }),
{
    let (a, b) = v.active.last();
    let none = |p: Port<T>| false;
    let na = a.node.label.spec_arity() as nat;
    lemma_resolve_aux_succeeds(v.wires, a.node, b.node, a.node, na, none);
    let wa = resolve_aux(v.wires, a.node, na).1;
    let gone = |p: Port<T>| p.node.id == a.node.id && 1 <= p.index && p.index <= na;
    assert forall|p: Port<T>| #[trigger] in_pair(p, a.node, b.node) && !gone(p) implies named_in(
        wa,
        p,
    ) by {
        assert(!none(p));
    }
    lemma_resolve_aux_succeeds(wa, a.node, b.node, b.node, b.node.label.spec_arity() as nat, gone);
}

/// `p` is held by an end of a wire or of an active pair of `v`.
pub open spec fn stored<T>(v: NetView<T>, p: Port<T>) -> bool {
    named_in(v.wires, p) || named_in(v.active, p)
}

/// Every node that has a port in the net has all its ports there: no port
/// that node creation handed out is still waiting to be wired.
pub open spec fn complete<T: Label>(v: NetView<T>) -> bool {
    forall|p: Port<T>, k: usize|
        stored(v, p) && k <= p.node.label.spec_arity() ==> #[trigger] stored(v, port(p.node, k))
}

/// Port `k` of `node`.
pub open spec fn port<T>(node: Node<T>, k: usize) -> Port<T> {
    Port { node, index: k }
}

/// Closure of a reduction step: in a complete net whose active pairs join
/// principal ports, the queued pair joining two distinct nodes, taking the
/// pair never meets a dangling port, unless a wire joins two auxiliary
/// ports of the pair itself.
pub proof fn lemma_complete_net_redex_resolves<T: Label>(v: NetView<T>)
    requires
        complete(v),
        forall|i: int|
            0 <= i < v.active.len() ==> (#[trigger] v.active[i]).0.index == 0 && v.active[i].1.index
                == 0,
        v.active.len() > 0,
        !same_place(v.active.last().0, v.active.last().1),
        no_inner_wire(v.wires, v.active.last().0.node, v.active.last().1.node),
    ensures
        ({
            let (a, b) = v.active.last();
            let (ra, wa) = resolve_aux(v.wires, a.node, a.node.label.spec_arity() as nat);
            let (rb, wb) = resolve_aux(wa, b.node, b.node.label.spec_arity() as nat);
            ra is Ok && rb is Ok
        }),
{
    let (a, b) = v.active.last();
    let last = v.active.len() - 1;
    assert(names(v.active[last], a));
    assert(names(v.active[last], b));
    assert(stored(v, a) && stored(v, b));
    let none = |q: Port<T>| false;
    assert forall|p: Port<T>| #[trigger] in_pair(p, a.node, b.node) && !none(p) implies named_in(
        v.wires,
        p,
    ) by {
        let owner = if aux_of(p, a.node) { a } else { b };
        let q = port(owner.node, p.index);
        assert(stored(v, q));
        if named_in(v.active, q) {
            let i = choose|i: int| 0 <= i < v.active.len() && #[trigger] names(v.active[i], q);
            assert(v.active[i].0.index == 0 && v.active[i].1.index == 0);
        }
        let i = choose|i: int| 0 <= i < v.wires.len() && #[trigger] names(v.wires[i], q);
        assert(names(v.wires[i], p));
    }
    lemma_redex_resolves(v);
}

} // verus!
