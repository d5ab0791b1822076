use inets::gla::GLA;
use inets::net::{InteractionNet, Label, NetError, RuleSet, Node, Port, Reduction, MAX_NODES};

#[test]
fn zero_meets_copy_and_erases_to_nothing() {
    let mut net = InteractionNet::new();
    let mut zero = net.add_node(GLA::Zero).unwrap();
    let mut copy = net.add_node(GLA::Copy).unwrap();
    let mut era1 = net.add_node(GLA::Erase).unwrap();
    let mut era2 = net.add_node(GLA::Erase).unwrap();

    net.connect_ports(zero.remove(0), copy.remove(0));
    net.connect_ports(era1.remove(0), copy.remove(0));
    net.connect_ports(era2.remove(0), copy.remove(0));

    assert!(zero.is_empty());
    assert!(copy.is_empty());
    assert!(era1.is_empty());
    assert!(era2.is_empty());
    assert_eq!(net.active_pairs().len(), 1);
    assert_eq!(net.wires().len(), 2);

    assert_eq!(net.normalize(100), Ok(Reduction::NormalForm));
    assert!(net.wires().is_empty());
    assert!(net.active_pairs().is_empty());
    // the rule made two fresh zeros
    assert_eq!(net.node_count(), 6);
}

#[test]
fn normalize_without_active_pairs_changes_nothing() {
    let mut quiet = InteractionNet::new();
    let mut x = quiet.add_node(GLA::Copy).unwrap();
    let mut y = quiet.add_node(GLA::Erase).unwrap();
    let mut z = quiet.add_node(GLA::Erase).unwrap();
    quiet.connect_ports(x.remove(1), y.remove(0));
    quiet.connect_ports(x.remove(1), z.remove(0));
    let wires_before = quiet.wires().len();
    let count_before = quiet.node_count();
    assert_eq!(quiet.normalize(10), Ok(Reduction::NormalForm));
    assert_eq!(quiet.wires().len(), wires_before);
    assert_eq!(quiet.active_pairs().len(), 0);
    assert_eq!(quiet.node_count(), count_before);
    // a second run is a no-op as well
    assert_eq!(quiet.normalize(10), Ok(Reduction::NormalForm));
    assert_eq!(quiet.wires().len(), wires_before);
}

#[test]
fn never_wired_port_is_dangling() {
    let mut net: InteractionNet<GLA> = InteractionNet::new();
    let mut copy = net.add_node(GLA::Copy).unwrap();
    let aux = copy.remove(1);
    let node = aux.node;
    assert_eq!(net.get_connected(aux), Err(NetError::DanglingPort { node, index: 1 }));
}

#[test]
fn add_node_hands_out_principal_then_auxiliary_ports() {
    let mut net = InteractionNet::new();
    let zero = net.add_node(GLA::Zero).unwrap();
    let plus = net.add_node(GLA::Plus).unwrap();
    assert_eq!(zero.len(), 1);
    assert_eq!(zero[0].node, Node { id: 0, label: GLA::Zero });
    assert_eq!(zero[0].index, 0);
    assert_eq!(plus.len(), 3);
    for (i, p) in plus.iter().enumerate() {
        assert_eq!(p.node, Node { id: 1, label: GLA::Plus });
        assert_eq!(p.index, i);
    }
    assert_eq!(net.node_count(), 2);
}

#[test]
fn node_ids_run_out_after_the_last_one() {
    let mut net = InteractionNet::new();
    for i in 0..MAX_NODES {
        let ports = net.add_node(GLA::Zero).unwrap();
        assert_eq!(ports[0].node.id as usize, i);
    }
    assert_eq!(net.add_node(GLA::Zero), Err(NetError::NodeIdsExhausted));
    assert_eq!(net.node_count(), MAX_NODES);
}

#[test]
fn one_principal_side_makes_a_wire() {
    let mut net = InteractionNet::new();
    let mut copy = net.add_node(GLA::Copy).unwrap();
    let mut zero = net.add_node(GLA::Zero).unwrap();
    net.connect_ports(copy.remove(1), zero.remove(0));
    assert_eq!(net.wires().len(), 1);
    assert_eq!(net.active_pairs().len(), 0);
}

#[test]
fn get_connected_returns_the_other_end_and_consumes_the_wire() {
    let mut net = InteractionNet::new();
    let mut copy = net.add_node(GLA::Copy).unwrap();
    let mut zero = net.add_node(GLA::Zero).unwrap();
    net.connect_ports(copy.remove(1), zero.remove(0));
    let far = net.get_connected(Port { node: Node { id: 0, label: GLA::Copy }, index: 1 });
    assert_eq!(far, Ok(Port { node: Node { id: 1, label: GLA::Zero }, index: 0 }));
    assert!(net.wires().is_empty());
    // from the other side as well
    net.connect_ports(copy.remove(1), Port { node: Node { id: 1, label: GLA::Zero }, index: 0 });
    let back = net.get_connected(Port { node: Node { id: 1, label: GLA::Zero }, index: 0 });
    assert_eq!(back, Ok(Port { node: Node { id: 0, label: GLA::Copy }, index: 2 }));
}

#[test]
fn auxiliary_ports_come_in_index_order() {
    let mut net = InteractionNet::new();
    let mut copy = net.add_node(GLA::Copy).unwrap();
    let mut a = net.add_node(GLA::Erase).unwrap();
    let mut b = net.add_node(GLA::Zero).unwrap();
    let principal = copy.remove(0);
    // wire index 2 first, so store order differs from index order
    net.connect_ports(b.remove(0), copy.remove(1));
    net.connect_ports(copy.remove(0), a.remove(0));
    let iface = net.get_auxiliary_ports(principal).unwrap();
    assert_eq!(iface.len(), 3);
    assert_eq!(iface[0], Port { node: Node { id: 0, label: GLA::Copy }, index: 0 });
    assert_eq!(iface[1], Port { node: Node { id: 1, label: GLA::Erase }, index: 0 });
    assert_eq!(iface[2], Port { node: Node { id: 2, label: GLA::Zero }, index: 0 });
    assert!(net.wires().is_empty());
}

#[test]
fn missing_auxiliary_wire_is_reported() {
    let mut net = InteractionNet::new();
    let mut copy = net.add_node(GLA::Copy).unwrap();
    let mut a = net.add_node(GLA::Erase).unwrap();
    let principal = copy.remove(0);
    net.connect_ports(copy.remove(0), a.remove(0));
    let err = net.get_auxiliary_ports(principal);
    assert_eq!(
        err,
        Err(NetError::DanglingPort { node: Node { id: 0, label: GLA::Copy }, index: 2 })
    );
}

#[test]
fn pair_without_a_rule_is_reported() {
    let mut net = InteractionNet::new();
    let mut z1 = net.add_node(GLA::Zero).unwrap();
    let mut z2 = net.add_node(GLA::Zero).unwrap();
    net.connect_ports(z1.remove(0), z2.remove(0));
    assert_eq!(
        net.normalize(10),
        Err(NetError::UnhandledRewrite { left: GLA::Zero, right: GLA::Zero })
    );
}

#[test]
fn zero_budget_leaves_the_queue() {
    let mut net = InteractionNet::new();
    let mut z = net.add_node(GLA::Zero).unwrap();
    let mut e = net.add_node(GLA::Erase).unwrap();
    net.connect_ports(z.remove(0), e.remove(0));
    assert_eq!(net.normalize(0), Ok(Reduction::OutOfBudget));
    assert_eq!(net.active_pairs().len(), 1);
    assert_eq!(net.normalize(1), Ok(Reduction::NormalForm));
    assert!(net.active_pairs().is_empty());
}

#[test]
fn plus_meets_copy_and_crosses_over() {
    let mut net = InteractionNet::new();
    let mut plus = net.add_node(GLA::Plus).unwrap();
    let mut copy = net.add_node(GLA::Copy).unwrap();
    let mut ends: Vec<Vec<Port<GLA>>> = Vec::new();
    for _ in 0..4 {
        ends.push(net.add_node(GLA::Erase).unwrap());
    }
    net.connect_ports(plus.remove(0), copy.remove(0));
    net.connect_ports(plus.remove(0), ends[0].remove(0));
    net.connect_ports(plus.remove(0), ends[1].remove(0));
    net.connect_ports(copy.remove(0), ends[2].remove(0));
    net.connect_ports(copy.remove(0), ends[3].remove(0));

    let (left, right) = net.next_redex().unwrap().unwrap();
    assert_eq!(left.len(), 3);
    assert_eq!(right.len(), 3);
    assert_eq!(net.node_count(), 6);
    assert_eq!(GLA::rewrite(&mut net, left, right), Ok(()));
    assert_eq!(net.node_count(), 10);
    // four erasers meet four fresh principal ports, four crosswise wires
    assert_eq!(net.active_pairs().len(), 4);
    assert_eq!(net.wires().len(), 4);
    let p = |id: u8, label: GLA, index: usize| Port { node: Node { id, label }, index };
    assert_eq!(net.active_pairs()[0], (p(6, GLA::Plus, 0), p(4, GLA::Erase, 0)));
    assert_eq!(net.active_pairs()[3], (p(9, GLA::Copy, 0), p(3, GLA::Erase, 0)));
    assert_eq!(net.wires()[0], (p(6, GLA::Plus, 1), p(8, GLA::Copy, 1)));
    assert_eq!(net.wires()[3], (p(7, GLA::Plus, 2), p(9, GLA::Copy, 2)));
}

#[test]
fn next_redex_on_empty_queue_is_none() {
    let mut net: InteractionNet<GLA> = InteractionNet::new();
    assert_eq!(net.next_redex(), Ok(None));
}

#[test]
fn arities_of_the_rule_set() {
    assert_eq!(GLA::Zero.arity(), 0);
    assert_eq!(GLA::Erase.arity(), 0);
    assert_eq!(GLA::Plus.arity(), 2);
    assert_eq!(GLA::Copy.arity(), 2);
}

#[test]
fn wire_between_the_pair_own_auxiliary_ports_dangles() {
    let mut net = InteractionNet::new();
    let mut plus = net.add_node(GLA::Plus).unwrap();
    let mut copy = net.add_node(GLA::Copy).unwrap();
    net.connect_ports(plus.remove(0), copy.remove(0));
    net.connect_ports(plus.remove(0), copy.remove(0));
    net.connect_ports(plus.remove(0), copy.remove(0));
    assert_eq!(
        net.normalize(10),
        Err(NetError::DanglingPort { node: Node { id: 1, label: GLA::Copy }, index: 1 })
    );
}

#[test]
fn erase_meets_plus_and_is_copied() {
    let mut net = InteractionNet::new();
    let mut era = net.add_node(GLA::Erase).unwrap();
    let mut plus = net.add_node(GLA::Plus).unwrap();
    let mut z1 = net.add_node(GLA::Zero).unwrap();
    let mut z2 = net.add_node(GLA::Zero).unwrap();
    net.connect_ports(era.remove(0), plus.remove(0));
    net.connect_ports(plus.remove(0), z1.remove(0));
    net.connect_ports(plus.remove(0), z2.remove(0));
    assert_eq!(net.normalize(1), Ok(Reduction::OutOfBudget));
    let p = |id: u8, label: GLA, index: usize| Port { node: Node { id, label }, index };
    assert_eq!(net.active_pairs().len(), 2);
    assert_eq!(net.active_pairs()[0], (p(2, GLA::Zero, 0), p(4, GLA::Erase, 0)));
    assert_eq!(net.active_pairs()[1], (p(3, GLA::Zero, 0), p(5, GLA::Erase, 0)));
    assert_eq!(net.normalize(10), Ok(Reduction::NormalForm));
    assert!(net.wires().is_empty());
    assert_eq!(net.node_count(), 6);
}

#[test]
fn rule_that_needs_more_identities_than_are_left_fails() {
    let mut net = InteractionNet::new();
    let mut spare = Vec::new();
    for _ in 0..(MAX_NODES - 2) {
        spare.push(net.add_node(GLA::Erase).unwrap());
    }
    let mut zero = net.add_node(GLA::Zero).unwrap();
    let mut copy = net.add_node(GLA::Copy).unwrap();
    net.connect_ports(zero.remove(0), copy.remove(0));
    net.connect_ports(copy.remove(0), spare[0].remove(0));
    net.connect_ports(copy.remove(0), spare[1].remove(0));
    assert_eq!(net.normalize(10), Err(NetError::NodeIdsExhausted));
    assert_eq!(net.node_count(), MAX_NODES);
    assert!(net.active_pairs().is_empty());
    assert!(net.wires().is_empty());
}
