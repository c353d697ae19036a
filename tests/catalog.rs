use fos_net_linux::{
    settle_namespace_deletion, Catalog, InterfaceDeletion, IpAddress, FailureCause, InterfaceKind, MacAddress, NetError,
};

const BR: u128 = 1;
const VA: u128 = 2;
const VB: u128 = 3;
const NS: u128 = 10;

fn s(x: &str) -> String {
    x.to_string()
}

fn with_bridge_and_veth() -> Catalog {
    let mut c = Catalog::new();
    c.add_interface(BR, s("br-x"), InterfaceKind::Bridge).unwrap();
    c.add_veth_pair(VA, s("v-a"), VB, s("v-b")).unwrap();
    c.add_network_namespace(NS, s("ns-abcdefgh")).unwrap();
    c
}

#[test]
fn veth_attach_move_and_back() {
    let mut c = with_bridge_and_veth();
    let a = c.get_interface(VA).unwrap();
    let b = c.get_interface(VB).unwrap();
    assert_eq!(a.kind, InterfaceKind::Veth { peer: VB, internal: true });
    assert_eq!(b.kind, InterfaceKind::Veth { peer: VA, internal: false });

    c.attach_interface_to_bridge(VA, BR).unwrap();
    assert_eq!(c.get_interface(VA).unwrap().parent, Some(BR));
    assert_eq!(c.get_interface(BR).unwrap().children, vec![VA]);

    c.move_interface_into_namespace(VA, NS).unwrap();
    assert_eq!(c.get_interface(VA).unwrap().ns, Some(NS));
    assert_eq!(c.get_network_namespace(NS).unwrap().interfaces, vec![VA]);

    c.move_interface_into_default_namespace(VA).unwrap();
    assert_eq!(c.get_interface(VA).unwrap().ns, None);
    assert!(c.get_network_namespace(NS).unwrap().interfaces.is_empty());
}

#[test]
fn parent_and_children_agree() {
    let mut c = with_bridge_and_veth();
    c.add_interface(20, s("vx"), InterfaceKind::Vxlan { vni: 7, group: IpAddress::V6(0xff02 << 112 | 1), port: 4789 })
        .unwrap();
    c.attach_interface_to_bridge(20, BR).unwrap();
    c.attach_interface_to_bridge(VB, BR).unwrap();
    let br = c.get_interface(BR).unwrap();
    assert_eq!(br.children, vec![20, VB]);
    for child in br.children {
        assert_eq!(c.get_interface(child).unwrap().parent, Some(BR));
    }
    assert_eq!(c.get_interface(VA).unwrap().parent, None);
}

#[test]
fn attach_errors() {
    let mut c = with_bridge_and_veth();
    assert_eq!(c.attach_interface_to_bridge(99, BR), Err(NetError::NotFound));
    assert_eq!(c.attach_interface_to_bridge(VA, 99), Err(NetError::NotFound));
    assert_eq!(c.attach_interface_to_bridge(VA, VB), Err(NetError::WrongKind));
    assert_eq!(c.attach_interface_to_bridge(BR, BR), Err(NetError::WrongKind));
    c.move_interface_into_namespace(VA, NS).unwrap();
    assert_eq!(
        c.attach_interface_to_bridge(VA, BR),
        Err(NetError::NetworkingError(FailureCause::DifferentNamespaces))
    );
    c.attach_interface_to_bridge(VB, BR).unwrap();
    c.add_interface(4, s("br-y"), InterfaceKind::Bridge).unwrap();
    assert_eq!(c.attach_interface_to_bridge(VB, 4), Err(NetError::AlreadyPresent));
}

#[test]
fn detach_clears_both_sides() {
    let mut c = with_bridge_and_veth();
    assert_eq!(c.detach_interface_from_bridge(VA), Err(NetError::NotConnected));
    assert_eq!(c.detach_interface_from_bridge(99), Err(NetError::NotFound));
    c.attach_interface_to_bridge(VA, BR).unwrap();
    c.attach_interface_to_bridge(VB, BR).unwrap();
    c.detach_interface_from_bridge(VA).unwrap();
    assert_eq!(c.get_interface(VA).unwrap().parent, None);
    assert_eq!(c.get_interface(BR).unwrap().children, vec![VB]);
}

#[test]
fn duplicate_records_are_refused() {
    let mut c = with_bridge_and_veth();
    assert_eq!(c.add_interface(BR, s("again"), InterfaceKind::Bridge), Err(NetError::AlreadyPresent));
    assert_eq!(
        c.add_interface(50, s("v"), InterfaceKind::Veth { peer: 51, internal: true }),
        Err(NetError::WrongKind)
    );
    assert_eq!(c.add_veth_pair(60, s("a"), 60, s("b")), Err(NetError::AlreadyPresent));
    assert_eq!(c.add_veth_pair(VA, s("a"), 61, s("b")), Err(NetError::AlreadyPresent));
    assert_eq!(c.add_network_namespace(NS, s("ns-again")), Err(NetError::AlreadyPresent));
}

#[test]
fn removing_a_veth_end_removes_its_peer() {
    let mut c = with_bridge_and_veth();
    c.attach_interface_to_bridge(VB, BR).unwrap();
    c.move_interface_into_namespace(VA, NS).unwrap();
    c.remove_interface(VA).unwrap();
    assert_eq!(c.get_interface(VA).unwrap_err(), NetError::NotFound);
    assert_eq!(c.get_interface(VB).unwrap_err(), NetError::NotFound);
    assert!(c.get_interface(BR).unwrap().children.is_empty());
    assert!(c.get_network_namespace(NS).unwrap().interfaces.is_empty());
    assert_eq!(c.remove_interface(VA), Err(NetError::NotFound));
}

#[test]
fn removing_a_bridge_frees_its_children() {
    let mut c = with_bridge_and_veth();
    c.attach_interface_to_bridge(VA, BR).unwrap();
    c.attach_interface_to_bridge(VB, BR).unwrap();
    c.remove_interface(BR).unwrap();
    assert_eq!(c.get_interface(VA).unwrap().parent, None);
    assert_eq!(c.get_interface(VB).unwrap().parent, None);
}

#[test]
fn namespace_membership_agrees() {
    let mut c = with_bridge_and_veth();
    c.add_network_namespace(11, s("ns-other")).unwrap();
    c.move_interface_into_namespace(VA, NS).unwrap();
    c.move_interface_into_namespace(VA, 11).unwrap();
    assert_eq!(c.get_interface(VA).unwrap().ns, Some(11));
    assert!(c.get_network_namespace(NS).unwrap().interfaces.is_empty());
    assert_eq!(c.get_network_namespace(11).unwrap().interfaces, vec![VA]);
    assert_eq!(c.move_interface_into_namespace(VA, 99), Err(NetError::NotFound));
    assert_eq!(c.move_interface_into_default_namespace(99), Err(NetError::NotFound));
}

#[test]
fn namespace_in_use_is_kept() {
    let mut c = with_bridge_and_veth();
    c.move_interface_into_namespace(VA, NS).unwrap();
    assert_eq!(
        c.remove_network_namespace(NS),
        Err(NetError::NetworkingError(FailureCause::NamespaceInUse))
    );
    assert_eq!(c.remove_network_namespace(99), Err(NetError::NotFound));
    c.clear_namespace(NS).unwrap();
    assert!(c.get_network_namespace(NS).unwrap().interfaces.is_empty());
    assert_eq!(c.get_interface(VB).unwrap_err(), NetError::NotFound);
    assert!(c.get_interface(BR).is_ok());
    c.remove_network_namespace(NS).unwrap();
    assert_eq!(c.get_network_namespace(NS).unwrap_err(), NetError::NotFound);
    assert_eq!(c.clear_namespace(NS), Err(NetError::NotFound));
}

#[test]
fn veth_pair_inside_a_namespace() {
    let mut c = with_bridge_and_veth();
    c.add_veth_pair_in_namespace(30, s("in-a"), 31, s("in-b"), NS).unwrap();
    assert_eq!(c.get_interface(30).unwrap().ns, Some(NS));
    assert_eq!(c.get_interface(31).unwrap().ns, Some(NS));
    assert_eq!(c.get_network_namespace(NS).unwrap().interfaces, vec![30, 31]);
    assert_eq!(c.add_veth_pair_in_namespace(32, s("a"), 33, s("b"), 99), Err(NetError::NotFound));
    assert_eq!(c.add_veth_pair_in_namespace(30, s("a"), 33, s("b"), NS), Err(NetError::AlreadyPresent));
    c.clear_namespace(NS).unwrap();
    assert!(c.get_interface(30).is_err() && c.get_interface(31).is_err());
}

#[test]
fn addresses_and_mac() {
    let mut c = with_bridge_and_veth();
    c.add_address(BR, IpAddress::V4(0x0AF0_0001)).unwrap();
    c.add_address(BR, IpAddress::V4(0x0AF0_0002)).unwrap();
    c.add_address(BR, IpAddress::V4(0x0AF0_0001)).unwrap();
    c.remove_address(BR, IpAddress::V4(0x0AF0_0001)).unwrap();
    assert_eq!(c.get_interface(BR).unwrap().addresses, vec![IpAddress::V4(0x0AF0_0002), IpAddress::V4(0x0AF0_0001)]);
    assert_eq!(c.remove_address(BR, IpAddress::V4(0x0A00_0001)), Err(NetError::NotConnected));
    assert_eq!(c.remove_address(99, IpAddress::V4(1)), Err(NetError::NotFound));
    c.set_addresses(VA, vec![IpAddress::V4(0xC000_0203), IpAddress::V6(0x2001_0db8 << 96 | 1)]).unwrap();
    assert_eq!(c.get_interface(VA).unwrap().addresses, vec![IpAddress::V4(0xC000_0203), IpAddress::V6(0x2001_0db8 << 96 | 1)]);
    c.set_mac(VA, MacAddress(2, 0, 0, 0, 0, 1)).unwrap();
    assert_eq!(c.get_interface(VA).unwrap().mac, MacAddress(2, 0, 0, 0, 0, 1));
    assert_eq!(c.get_interface(VB).unwrap().mac, MacAddress(0, 0, 0, 0, 0, 0));
    c.rename_interface(VA, s("renamed")).unwrap();
    assert_eq!(c.get_interface(VA).unwrap().name, "renamed");
    assert_eq!(c.rename_interface(99, s("x")), Err(NetError::NotFound));
}

#[test]
fn bridge_lookup_and_kind_checked_removal() {
    let mut c = with_bridge_and_veth();
    assert_eq!(c.get_virtual_bridge(BR).unwrap().name, "br-x");
    assert_eq!(c.get_virtual_bridge(VA).unwrap_err(), NetError::WrongKind);
    assert_eq!(c.get_virtual_bridge(99).unwrap_err(), NetError::NotFound);
    assert_eq!(c.remove_interface_expecting(VA, InterfaceKind::Bridge), Err(NetError::WrongKind));
    assert_eq!(c.remove_interface_expecting(99, InterfaceKind::Bridge), Err(NetError::NotFound));
    c.remove_interface_expecting(BR, InterfaceKind::Bridge).unwrap();
    assert!(c.get_interface(BR).is_err());
    c.add_interface(40, s("mv"), InterfaceKind::Macvlan).unwrap();
    c.remove_interface_expecting(40, InterfaceKind::Macvlan).unwrap();
}

#[test]
fn removal_and_route_inside_a_namespace() {
    let mut c = with_bridge_and_veth();
    assert_eq!(c.default_route_target(NS, VA), Err(NetError::NotConnected));
    assert_eq!(c.default_route_target(99, VA), Err(NetError::NotFound));
    assert_eq!(c.remove_interface_in_namespace(VA, NS), Err(NetError::NotConnected));
    c.move_interface_into_namespace(VA, NS).unwrap();
    assert_eq!(c.default_route_target(NS, VA).unwrap(), "v-a");
    c.remove_interface_in_namespace(VA, NS).unwrap();
    assert!(c.get_interface(VA).is_err());
    assert!(c.get_interface(VB).is_err());
}

#[test]
fn scavenger_rule_forgives_half_torn_pairs() {
    assert_eq!(settle_namespace_deletion(true, true, true), Ok(()));
    assert_eq!(settle_namespace_deletion(false, true, false), Ok(()));
    assert_eq!(
        settle_namespace_deletion(false, true, true),
        Err(NetError::NetworkingError(FailureCause::VethPeerPresent))
    );
    assert_eq!(
        settle_namespace_deletion(false, false, false),
        Err(NetError::NetworkingError(FailureCause::Worker))
    );
}

#[test]
fn veth_pair_in_namespace_leaves_the_rest_alone() {
    let mut c = with_bridge_and_veth();
    c.add_network_namespace(12, s("ns-other")).unwrap();
    c.add_veth_pair_in_namespace(30, s("in-a"), 31, s("in-b"), NS).unwrap();
    let a = c.get_interface(30).unwrap();
    assert_eq!(a.parent, None);
    assert!(a.children.is_empty() && a.addresses.is_empty());
    assert_eq!(a.mac, MacAddress(0, 0, 0, 0, 0, 0));
    assert_eq!(c.get_interface(31).unwrap().kind, InterfaceKind::Veth { peer: 30, internal: false });
    assert_eq!(c.get_interface(VA).unwrap().ns, None);
    assert!(c.get_network_namespace(12).unwrap().interfaces.is_empty());
    assert_eq!(c.add_veth_pair_in_namespace(32, s("a"), 32, s("b"), NS), Err(NetError::AlreadyPresent));
}

#[test]
fn deletion_plans_follow_the_record() {
    let mut c = with_bridge_and_veth();
    match c.plan_interface_deletion(BR).unwrap() {
        InterfaceDeletion::Link { name } => assert_eq!(name, "br-x"),
        other => panic!("unexpected {:?}", other),
    }
    match c.plan_interface_deletion(VA).unwrap() {
        InterfaceDeletion::VethPair { name, peer } => {
            assert_eq!(name, "v-a");
            assert_eq!(peer, Some(s("v-b")));
        }
        other => panic!("unexpected {:?}", other),
    }
    c.move_interface_into_namespace(VB, NS).unwrap();
    match c.plan_interface_deletion(VB).unwrap() {
        InterfaceDeletion::Worker { ns, name, is_veth, peer_recorded } => {
            assert_eq!((ns, name.as_str(), is_veth, peer_recorded), (NS, "v-b", true, true));
        }
        other => panic!("unexpected {:?}", other),
    }
    assert_eq!(c.plan_interface_deletion(99).err(), Some(NetError::NotFound));
}

#[test]
fn ipv6_addresses_are_kept() {
    let mut c = with_bridge_and_veth();
    let v6 = IpAddress::V6(0xfe80 << 112 | 0x42);
    c.add_address(BR, v6).unwrap();
    c.add_address(BR, IpAddress::V4(0x0AF0_0001)).unwrap();
    c.remove_address(BR, IpAddress::V4(0x0AF0_0001)).unwrap();
    assert_eq!(c.get_interface(BR).unwrap().addresses, vec![v6]);
    assert_eq!(c.remove_address(BR, IpAddress::V6(1)), Err(NetError::NotConnected));
}
