use vstd::prelude::*;

verus! {

/// Identity of a node within one net: allocated from 0 upward, never reused.
pub type NodeId = u8;

/// Number of distinct node identities a net can hand out.
pub const MAX_NODES: usize = 256;

/// A node: its identity and the label that fixes its arity and its rules.
#[derive(Clone, Copy, Debug, PartialEq, Eq, Hash)]
pub struct Node<T> {
    pub id: NodeId,
    pub label: T,
}

/// One endpoint of a node. Index 0 is the principal port, indices
/// `1..=arity` are the auxiliary ports. A port is neither `Copy` nor
/// `Clone`: it is handed out once and disposed of by wiring it.
#[derive(Debug, PartialEq, Eq, Hash)]
pub struct Port<T> {
    pub node: Node<T>,
    pub index: usize,
}

/// What can go wrong while building or reducing a net.
#[derive(Clone, Copy, Debug, PartialEq, Eq, Hash)]
pub enum NetError<T> {
    /// The port was looked up in the wire store and no wire names it.
    DanglingPort { node: Node<T>, index: usize },
    /// The rule set has no rule for two principal ports with these labels.
    UnhandledRewrite { left: T, right: T },
    /// Every node identity has been handed out.
    NodeIdsExhausted,
}

/// How a bounded reduction ended.
#[derive(Clone, Copy, Debug, PartialEq, Eq, Hash)]
pub enum Reduction {
    /// The active-pair queue is empty.
    NormalForm,
    /// The step budget ran out with active pairs still queued.
    OutOfBudget,
}

/// The label of a node: it fixes the node's number of auxiliary ports.
pub trait Label: Sized + Copy {
    /// Number of auxiliary ports of a node with this label.
    spec fn spec_arity(&self) -> usize;

    fn arity(&self) -> (r: usize)
        ensures
            r == self.spec_arity(),
    ;
}

/// A rule set: what happens when two principal ports meet.
pub trait RuleSet: Label {
    /// The net after the rule for the pair whose interfaces are `left` and
    /// `right` has been applied to `v`, or the error that stops it.
    spec fn spec_rewrite(v: NetView<Self>, left: Seq<Port<Self>>, right: Seq<Port<Self>>) -> Result<
        NetView<Self>,
        NetError<Self>,
    >;

    /// Rewrites the active pair whose interfaces are `left` and `right`
    /// (principal port first, then the ports that the auxiliary ports were
    /// wired to, in index order).
    fn rewrite(net: &mut InteractionNet<Self>, left: Vec<Port<Self>>, right: Vec<Port<Self>>) -> (r:
        Result<(), NetError<Self>>)
        requires
            old(net).wf(),
            left@.len() >= 1,
            left@[0].index == 0,
            left@.len() == left@[0].node.label.spec_arity() + 1,
            right@.len() >= 1,
            right@[0].index == 0,
            right@.len() == right@[0].node.label.spec_arity() + 1,
        ensures
            final(net).wf(),
            final(net)@.node_count >= old(net)@.node_count,
            match Self::spec_rewrite(old(net)@, left@, right@) {
                Ok(v) => r is Ok && final(net)@ == v,
                Err(e) => r == Err::<(), NetError<Self>>(e) && final(net)@ == old(net)@,
            },
    ;
}

/// A wire or an active pair.
pub type Link<T> = (Port<T>, Port<T>);

/// The abstract state of a net.
pub struct NetView<T> {
    /// Connections with at least one auxiliary side, in order of insertion.
    pub wires: Seq<Link<T>>,
    /// Connections between two principal ports, in order of insertion.
    pub active: Seq<Link<T>>,
    /// Number of node identities handed out so far.
    pub node_count: nat,
}

/// All ports of `node` with index below `n`, in index order.
pub open spec fn ports_of<T>(node: Node<T>, n: nat) -> Seq<Port<T>> {
    Seq::new(n, |i: int| Port { node, index: i as usize })
}

/// The state after one node allocation.
pub open spec fn allocated<T>(v: NetView<T>) -> NetView<T> {
    NetView { node_count: v.node_count + 1, ..v }
}

/// The state after wiring `a` to `b`: an active pair when both are
/// principal ports, a wire otherwise.
pub open spec fn connected<T>(v: NetView<T>, a: Port<T>, b: Port<T>) -> NetView<T> {
    if a.index == 0 && b.index == 0 {
        NetView { active: v.active.push((a, b)), ..v }
    } else {
        NetView { wires: v.wires.push((a, b)), ..v }
    }
}

/// The two ports name the same place: the same node and the same index.
/// Identities are unique within a net, so the label need not be compared.
pub open spec fn same_place<T>(a: Port<T>, b: Port<T>) -> bool {
    a.node.id == b.node.id && a.index == b.index
}

/// The link has `p` at one of its ends.
pub open spec fn names<T>(l: Link<T>, p: Port<T>) -> bool {
    same_place(l.0, p) || same_place(l.1, p)
}

/// The first position at or after `i` whose link names `p`.
pub open spec fn find_from<T>(w: Seq<Link<T>>, p: Port<T>, i: int) -> Option<int>
    decreases w.len() - i,
{
    if i < 0 || i >= w.len() {
        None
    } else if names(w[i], p) {
        Some(i)
    } else {
        find_from(w, p, i + 1)
    }
}

/// The end of `l` opposite to `p`.
pub open spec fn other_end<T>(l: Link<T>, p: Port<T>) -> Port<T> {
    if same_place(l.0, p) {
        l.1
    } else {
        l.0
    }
}

/// Resolving `p` in the wire store `w`: the port at the other end of the
/// first wire that names `p`, and the store without that wire (its place
/// taken by the last wire).
pub open spec fn resolve<T>(w: Seq<Link<T>>, p: Port<T>) -> Option<(Port<T>, Seq<Link<T>>)> {
    match find_from(w, p, 0) {
        None => None,
        Some(j) => Some((other_end(w[j], p), w.update(j, w.last()).drop_last())),
    }
}

/// Resolving the auxiliary ports `1..=k` of `node` one after another: the
/// ports found (or the first that dangles), and the wire store left over.
pub open spec fn resolve_aux<T>(w: Seq<Link<T>>, node: Node<T>, k: nat) -> (Result<
    Seq<Port<T>>,
    NetError<T>,
>, Seq<Link<T>>)
    decreases k,
{
    if k == 0 {
        (Ok(Seq::empty()), w)
    } else {
        let (prev, w1) = resolve_aux(w, node, (k - 1) as nat);
        match prev {
            Err(e) => (Err(e), w1),
            Ok(ps) => match resolve(w1, Port { node, index: k as usize }) {
                None => (Err(NetError::DanglingPort { node, index: k as usize }), w1),
                Some((q, w2)) => (Ok(ps.push(q)), w2),
            },
        }
    }
}

/// Once resolving some auxiliary port has failed, resolving further ones
/// changes neither the error nor the wire store.
pub proof fn lemma_resolve_aux_failure_sticks<T>(w: Seq<Link<T>>, node: Node<T>, k: nat, m: nat)
    requires
        k <= m,
        resolve_aux(w, node, k).0 is Err,
    ensures
        resolve_aux(w, node, m) == resolve_aux(w, node, k),
    decreases m - k,
{
    if k < m {
        lemma_resolve_aux_failure_sticks(w, node, k, (m - 1) as nat);
    }
}

/// Resolving `k` auxiliary ports with success finds exactly `k` ports.
pub proof fn lemma_resolve_aux_len<T>(w: Seq<Link<T>>, node: Node<T>, k: nat)
    ensures
        resolve_aux(w, node, k).0 is Ok ==> resolve_aux(w, node, k).0->Ok_0.len() == k,
    decreases k,
{
    if k > 0 {
        lemma_resolve_aux_len(w, node, (k - 1) as nat);
    }
}

/// Taking the last queued active pair of `v` and resolving the auxiliary
/// ports of its left node, then of its right node: the two interfaces (or
/// the first port that dangles), and the state left over.
pub open spec fn redex_step<T: Label>(v: NetView<T>) -> (Result<
    (Seq<Port<T>>, Seq<Port<T>>),
    NetError<T>,
>, NetView<T>) {
    let (a, b) = v.active.last();
    let (ra, wa) = resolve_aux(v.wires, a.node, a.node.label.spec_arity() as nat);
    let (rb, wb) = resolve_aux(wa, b.node, b.node.label.spec_arity() as nat);
    let active = v.active.drop_last();
    match ra {
        Err(e) => (Err(e), NetView { wires: wa, active, ..v }),
        Ok(ia) => match rb {
            Err(e) => (Err(e), NetView { wires: wb, active, ..v }),
            Ok(ib) => (Ok((seq![a] + ia, seq![b] + ib)), NetView { wires: wb, active, ..v }),
        },
    }
}

/// Reducing `v` with at most `fuel` rewrites: the outcome and the final
/// state. An empty queue is a normal form; otherwise, with fuel left, the
/// last queued pair is taken, its interfaces resolved and handed to the rule
/// set, and reduction goes on from the rewritten net.
pub open spec fn reduce<T: RuleSet>(v: NetView<T>, fuel: nat) -> (Result<Reduction, NetError<T>>, NetView<
    T,
>)
    decreases fuel,
{
    if v.active.len() == 0 {
        (Ok(Reduction::NormalForm), v)
    } else if fuel == 0 {
        (Ok(Reduction::OutOfBudget), v)
    } else {
        let (res, v1) = redex_step(v);
        match res {
            Err(e) => (Err(e), v1),
            Ok((left, right)) => match T::spec_rewrite(v1, left, right) {
                Err(e) => (Err(e), v1),
                Ok(v2) => reduce(v2, (fuel - 1) as nat),
            },
        }
    }
}

/// A net: its wire store, its active-pair queue and its identity allocator.
pub struct InteractionNet<T> {
    wires: Vec<Link<T>>,
    active: Vec<Link<T>>,
    node_count: usize,
}

impl<T> View for InteractionNet<T> {
    type V = NetView<T>;

    closed spec fn view(&self) -> NetView<T> {
        NetView { wires: self.wires@, active: self.active@, node_count: self.node_count as nat }
    }
}

impl<T> InteractionNet<T> {
    /// Every queued active pair joins two principal ports, and no more
    /// identities were handed out than exist.
    pub open spec fn wf(&self) -> bool {
        &&& self@.node_count <= MAX_NODES
        &&& forall|i: int|
            0 <= i < self@.active.len() ==> (#[trigger] self@.active[i]).0.index == 0
                && self@.active[i].1.index == 0
    }
}

impl<T: Label> InteractionNet<T> {
    /// An empty net: no nodes, no wires, no active pairs.
    pub fn new() -> (r: Self)
        ensures
            r.wf(),
            r@.wires == Seq::<Link<T>>::empty(),
            r@.active == Seq::<Link<T>>::empty(),
            r@.node_count == 0,
    {
        InteractionNet { wires: Vec::new(), active: Vec::new(), node_count: 0 }
    }

    /// Allocates a node with a fresh identity and hands out its ports,
    /// principal first.
    pub fn add_node(&mut self, label: T) -> (r: Result<Vec<Port<T>>, NetError<T>>)
        requires
            old(self).wf(),
        ensures
            final(self).wf(),
            old(self)@.node_count < MAX_NODES ==> final(self)@ == allocated(old(self)@) && r is Ok
                && r->Ok_0@ == ports_of(
                Node { id: old(self)@.node_count as u8, label },
                (label.spec_arity() + 1) as nat,
            ),
            old(self)@.node_count >= MAX_NODES ==> final(self)@ == old(self)@ && r
                == Err::<Vec<Port<T>>, NetError<T>>(NetError::NodeIdsExhausted),
    {
        if self.node_count >= MAX_NODES {
            return Err(NetError::NodeIdsExhausted);
        }
        let node = Node { id: self.node_count as u8, label };
        self.node_count = self.node_count + 1;
        let arity = label.arity();
        let mut ports: Vec<Port<T>> = Vec::new();
        ports.push(Port { node, index: 0 });
        assert(self@.active == old(self)@.active);
        let mut i: usize = 0;
        while i < arity
            invariant
                i <= arity,
                arity == label.spec_arity(),
                self.wf(),
                self@ == allocated(old(self)@),
                ports@ =~= ports_of(node, i as nat + 1),
            decreases arity - i,
        {
            ports.push(Port { node, index: i + 1 });
            i = i + 1;
            assert(ports@ =~= ports_of(node, i as nat + 1));
        }
        Ok(ports)
    }

    /// Number of node identities handed out so far.
    pub fn node_count(&self) -> (r: usize)
        ensures
            r == self@.node_count,
    {
        self.node_count
    }

    /// The pending wires, in store order.
    pub fn wires(&self) -> (r: &Vec<Link<T>>)
        ensures
            r@ == self@.wires,
    {
        &self.wires
    }

    /// The queued active pairs, oldest first.
    pub fn active_pairs(&self) -> (r: &Vec<Link<T>>)
        ensures
            r@ == self@.active,
    {
        &self.active
    }

    /// Wires two ports: an active pair when both are principal, a wire
    /// otherwise.
    pub fn connect_ports(&mut self, a: Port<T>, b: Port<T>)
        requires
            old(self).wf(),
        ensures
            final(self).wf(),
            final(self)@ == connected(old(self)@, a, b),
    {
        if a.index == 0 && b.index == 0 {
            self.active.push((a, b));
            assert(forall|i: int|
                0 <= i < self@.active.len() ==> (#[trigger] self@.active[i]) == if i < old(
                    self,
                )@.active.len() {
                    old(self)@.active[i]
                } else {
                    (a, b)
                });
        } else {
            self.wires.push((a, b));
        }
    }

    /// Finds the first wire that names `port` (by node identity and index),
    /// removes it and returns the port at its other end; fails with
    /// `DanglingPort` when no wire names `port`.
    pub fn get_connected(&mut self, port: Port<T>) -> (r: Result<Port<T>, NetError<T>>)
        requires
            old(self).wf(),
        ensures
            final(self).wf(),
            final(self)@.active == old(self)@.active,
            final(self)@.node_count == old(self)@.node_count,
            match resolve(old(self)@.wires, port) {
                None => final(self)@.wires == old(self)@.wires && r == Err::<Port<T>, NetError<T>>(
                    NetError::DanglingPort { node: port.node, index: port.index },
                ),
                Some((q, w)) => final(self)@.wires == w && r == Ok::<Port<T>, NetError<T>>(q),
            },
    {
        let mut i: usize = 0;
        while i < self.wires.len()
            invariant
                self.wf(),
                self@ == old(self)@,
                i <= self@.wires.len(),
                find_from(self@.wires, port, 0) == find_from(self@.wires, port, i as int),
            decreases self@.wires.len() - i,
        {
            let at_left = self.wires[i].0.node.id == port.node.id && self.wires[i].0.index
                == port.index;
            let at_right = self.wires[i].1.node.id == port.node.id && self.wires[i].1.index
                == port.index;
            if at_left || at_right {
                let (left, right) = self.wires.swap_remove(i);
                assert(self@.active == old(self)@.active);
                if at_left {
                    return Ok(right);
                } else {
                    return Ok(left);
                }
            }
            i = i + 1;
        }
        Err(NetError::DanglingPort { node: port.node, index: port.index })
    }

    /// Gathers the interface of the node of `principal`: `principal`
    /// itself, then, for each auxiliary port of the node in index order, the
    /// port that it is wired to (each such wire is removed).
    pub fn get_auxiliary_ports(&mut self, principal: Port<T>) -> (r: Result<
        Vec<Port<T>>,
        NetError<T>,
    >)
        requires
            old(self).wf(),
        ensures
            final(self).wf(),
            final(self)@.active == old(self)@.active,
            final(self)@.node_count == old(self)@.node_count,
            ({
                let (res, w) = resolve_aux(
                    old(self)@.wires,
                    principal.node,
                    principal.node.label.spec_arity() as nat,
                );
                &&& final(self)@.wires == w
                &&& (r is Ok <==> res is Ok)
                &&& r is Ok ==> r->Ok_0@ == seq![principal] + res->Ok_0
                &&& r is Err ==> r->Err_0 == res->Err_0
            }),
    {
        let ghost first = principal;
        let node = principal.node;
        let arity = node.label.arity();
        let mut ports: Vec<Port<T>> = Vec::new();
        ports.push(principal);
        let mut i: usize = 0;
        assert(ports@.drop_first() =~= Seq::<Port<T>>::empty());
        while i < arity
            invariant
                self.wf(),
                self@.active == old(self)@.active,
                self@.node_count == old(self)@.node_count,
                node == first.node,
                first == principal,
                arity == node.label.spec_arity(),
                i <= arity,
                ports@.len() == i + 1,
                ports@[0] == first,
                resolve_aux(old(self)@.wires, node, i as nat) == (Ok::<
                    Seq<Port<T>>,
                    NetError<T>,
                >(ports@.drop_first()), self@.wires),
            decreases arity - i,
        {
            let ghost before = ports@;
            let ghost w0 = self@.wires;
            match self.get_connected(Port { node, index: i + 1 }) {
                Ok(q) => {
                    assert(resolve(w0, Port { node, index: (i + 1) as nat as usize }) == Some(
                        (q, self@.wires),
                    ));
                    ports.push(q);
                    assert(ports@.drop_first() =~= before.drop_first().push(q));
                    i = i + 1;
                },
                Err(e) => {
                    assert(resolve_aux(old(self)@.wires, node, (i + 1) as nat) == (Err::<
                        Seq<Port<T>>,
                        NetError<T>,
                    >(e), self@.wires));
                    proof {
                        lemma_resolve_aux_failure_sticks(
                            old(self)@.wires,
                            node,
                            (i + 1) as nat,
                            arity as nat,
                        );
                    }
                    return Err(e);
                },
            }
        }
        assert(ports@ =~= seq![first] + ports@.drop_first());
        Ok(ports)
    }
}

impl<T: RuleSet> InteractionNet<T> {
    /// Takes the most recently queued active pair and gathers the interfaces
    /// of its two nodes, left side first; `None` when the queue is empty.
    pub fn next_redex(&mut self) -> (r: Result<Option<(Vec<Port<T>>, Vec<Port<T>>)>, NetError<T>>)
        requires
            old(self).wf(),
        ensures
            final(self).wf(),
            final(self)@.node_count == old(self)@.node_count,
            old(self)@.active.len() == 0 ==> final(self)@ == old(self)@ && r == Ok::<
                Option<(Vec<Port<T>>, Vec<Port<T>>)>,
                NetError<T>,
            >(None),
            old(self)@.active.len() > 0 ==> ({
                let (a, b) = old(self)@.active.last();
                let (ra, wa) = resolve_aux(old(self)@.wires, a.node, a.node.label.spec_arity() as nat);
                let (rb, wb) = resolve_aux(wa, b.node, b.node.label.spec_arity() as nat);
                &&& final(self)@.active == old(self)@.active.drop_last()
                &&& (r is Ok <==> ra is Ok && rb is Ok)
                &&& ra is Err ==> final(self)@.wires == wa && r->Err_0 == ra->Err_0
                &&& ra is Ok ==> final(self)@.wires == wb
                &&& ra is Ok && rb is Err ==> r->Err_0 == rb->Err_0
                &&& r is Ok ==> r->Ok_0 is Some && r->Ok_0->Some_0.0@ == seq![a] + ra->Ok_0
                    && r->Ok_0->Some_0.1@ == seq![b] + rb->Ok_0
            }),
            old(self)@.active.len() > 0 ==> ({
                let (res, v1) = redex_step(old(self)@);
                &&& final(self)@ == v1
                &&& (r is Ok <==> res is Ok)
                &&& r is Err ==> r->Err_0 == res->Err_0
                &&& r is Ok ==> r->Ok_0 is Some && r->Ok_0->Some_0.0@ == res->Ok_0.0
                    && r->Ok_0->Some_0.1@ == res->Ok_0.1
            }),
            r is Ok && r->Ok_0 is Some ==> ({
                let (left, right) = r->Ok_0->Some_0;
                &&& left@.len() >= 1
                &&& left@[0].index == 0
                &&& left@.len() == left@[0].node.label.spec_arity() + 1
                &&& right@.len() >= 1
                &&& right@[0].index == 0
                &&& right@.len() == right@[0].node.label.spec_arity() + 1
            }),
    {
        match self.active.pop() {
            None => Ok(None),
            Some((a, b)) => {
                assert(forall|i: int|
                    0 <= i < self@.active.len() ==> #[trigger] self@.active[i] == old(
                        self,
                    )@.active[i]);
                let ghost w0 = self@.wires;
                let left = match self.get_auxiliary_ports(a) {
                    Ok(ports) => ports,
                    Err(e) => return Err(e),
                };
                proof {
                    lemma_resolve_aux_len(w0, a.node, a.node.label.spec_arity() as nat);
                }
                let ghost w1 = self@.wires;
                let right = match self.get_auxiliary_ports(b) {
                    Ok(ports) => ports,
                    Err(e) => return Err(e),
                };
                proof {
                    lemma_resolve_aux_len(w1, b.node, b.node.label.spec_arity() as nat);
                }
                Ok(Some((left, right)))
            },
        }
    }

    /// Reduces the net: takes active pairs one by one, last queued first,
    /// and hands each to the rule set, until the queue is empty, `budget`
    /// rewrites have been made, or resolving a pair or rewriting it fails.
    pub fn normalize(&mut self, budget: usize) -> (r: Result<Reduction, NetError<T>>)
        requires
            old(self).wf(),
        ensures
            final(self).wf(),
            final(self)@.node_count >= old(self)@.node_count,
            r == reduce(old(self)@, budget as nat).0,
            final(self)@ == reduce(old(self)@, budget as nat).1,
            old(self)@.active.len() == 0 ==> final(self)@ == old(self)@ && r == Ok::<
                Reduction,
                NetError<T>,
            >(Reduction::NormalForm),
            budget == 0 && old(self)@.active.len() > 0 ==> final(self)@ == old(self)@ && r == Ok::<
                Reduction,
                NetError<T>,
            >(Reduction::OutOfBudget),
            budget > 0 && old(self)@.active.len() > 0 && redex_step(old(self)@).0 is Err ==> r
                == Err::<Reduction, NetError<T>>(redex_step(old(self)@).0->Err_0) && final(self)@
                == redex_step(old(self)@).1,
            r == Ok::<Reduction, NetError<T>>(Reduction::NormalForm) ==> final(self)@.active.len()
                == 0,
            r == Ok::<Reduction, NetError<T>>(Reduction::OutOfBudget)
                ==> final(self)@.active.len() > 0,
    {
        let mut steps: usize = 0;
        while steps < budget
            invariant
                self.wf(),
                steps <= budget,
                self@.node_count >= old(self)@.node_count,
                reduce(old(self)@, budget as nat) == reduce(self@, (budget - steps) as nat),
            decreases budget - steps,
        {
            match self.next_redex() {
                Err(e) => return Err(e),
                Ok(None) => return Ok(Reduction::NormalForm),
                Ok(Some((left, right))) => {
                    match T::rewrite(self, left, right) {
                        Ok(()) => {},
                        Err(e) => return Err(e),
                    }
                },
            }
            steps = steps + 1;
        }
        if self.active.len() == 0 {
            Ok(Reduction::NormalForm)
        } else {
            Ok(Reduction::OutOfBudget)
        }
    }
}

} // verus!
