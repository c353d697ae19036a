use fos_net_linux::{
    deserialize_internals, DhcpBinding, FailureCause, IpAddress, IpVersion, InterfaceKind, LinkKind, NetError, NetnsBinding, NetworkEntry,
    NetworkInternals, Node, TopologyIds, TopologyNames, VirtualNetwork,
};

const NET: u128 = 0x42;

fn ids() -> TopologyIds {
    TopologyIds { outer_bridge: 1, vxlan: 2, inner_bridge: 3, inner_veth: 4, outer_veth: 5 }
}

fn names() -> TopologyNames {
    TopologyNames {
        outer_bridge: "obr00001".to_string(),
        vxlan: "vxl00001".to_string(),
        inner_bridge: "ibr00001".to_string(),
        inner_veth: "iveth001".to_string(),
        outer_veth: "oveth001".to_string(),
        netns: "ns-ABCD1234".to_string(),
    }
}

fn entry(connection_points: Vec<u128>, bound: bool) -> NetworkEntry {
    NetworkEntry {
        network: VirtualNetwork {
            id: NET,
            name: "n".to_string(),
            is_mgmt: false,
            link: LinkKind::Eline { vni: 100, remote: IpAddress::V4(0xC000_0207), port: 4789 },
            ip_version: IpVersion::V4,
            ip_configuration: None,
            interfaces: vec![1, 2, 4, 5, 3],
            connection_points,
            internals: None,
        },
        internals: NetworkInternals {
            netns: if bound {
                Some(NetnsBinding { ns_id: NET, ns_name: "ns-ABCD1234".to_string() })
            } else {
                None
            },
            dhcp: None,
            tables: Vec::new(),
        },
    }
}

fn built() -> Node {
    let mut n = Node::new();
    let vxlan = InterfaceKind::PtpVxlan { vni: 100, local: IpAddress::V4(0xC000_0203), remote: IpAddress::V4(0xC000_0207), port: 4789 };
    n.record_vxlan_topology(ids(), names(), vxlan, NET, 4242).unwrap();
    n
}

#[test]
fn ptp_topology_is_recorded() {
    let n = built();
    let c = n.catalog();
    let ob = c.get_interface(1).unwrap();
    assert_eq!(ob.kind, InterfaceKind::Bridge);
    assert_eq!(ob.children, vec![2, 5]);
    assert_eq!(ob.ns, None);
    let vx = c.get_interface(2).unwrap();
    assert_eq!(vx.parent, Some(1));
    assert_eq!(vx.kind, InterfaceKind::PtpVxlan { vni: 100, local: IpAddress::V4(0xC000_0203), remote: IpAddress::V4(0xC000_0207), port: 4789 });
    let ov = c.get_interface(5).unwrap();
    assert_eq!(ov.kind, InterfaceKind::Veth { peer: 4, internal: false });
    assert_eq!(ov.parent, Some(1));
    let iv = c.get_interface(4).unwrap();
    assert_eq!(iv.kind, InterfaceKind::Veth { peer: 5, internal: true });
    assert_eq!(iv.ns, Some(NET));
    assert_eq!(iv.parent, Some(3));
    let ib = c.get_interface(3).unwrap();
    assert_eq!(ib.children, vec![4]);
    assert_eq!(ib.ns, Some(NET));
    let ns = c.get_network_namespace(NET).unwrap();
    assert_eq!(ns.name, "ns-ABCD1234");
    assert_eq!(ns.interfaces, vec![4, 3]);
    assert_eq!(n.worker_pid(NET), Ok(4242));
}

#[test]
fn topology_with_known_ids_is_refused() {
    let mut n = built();
    let vxlan = InterfaceKind::Vxlan { vni: 1, group: IpAddress::V4(2), port: 3 };
    let again = TopologyIds { outer_bridge: 11, vxlan: 12, inner_bridge: 13, inner_veth: 14, outer_veth: 5 };
    assert_eq!(n.record_vxlan_topology(again, names(), vxlan, 0x43, 1), Err(NetError::AlreadyPresent));
    assert!(n.catalog().get_interface(11).is_err());
    let same = TopologyIds { outer_bridge: 21, vxlan: 21, inner_bridge: 23, inner_veth: 24, outer_veth: 25 };
    assert_eq!(n.record_vxlan_topology(same, names(), vxlan, 0x44, 1), Err(NetError::AlreadyPresent));
    let fresh = TopologyIds { outer_bridge: 31, vxlan: 32, inner_bridge: 33, inner_veth: 34, outer_veth: 35 };
    assert_eq!(n.record_vxlan_topology(fresh, names(), InterfaceKind::Bridge, 0x45, 1), Err(NetError::WrongKind));
    assert_eq!(n.record_vxlan_topology(fresh, names(), vxlan, NET, 1), Err(NetError::AlreadyPresent));
}

#[test]
fn deleting_a_network_tears_down_everything() {
    let mut n = built();
    n.record_network(entry(Vec::new(), true)).unwrap();
    assert!(n.has_network(NET));
    let (e, pid) = n.delete_virtual_network(NET).unwrap();
    assert_eq!(e.network.id, NET);
    assert_eq!(pid, Some(4242));
    for i in 1..=5u128 {
        assert_eq!(n.catalog().get_interface(i).unwrap_err(), NetError::NotFound);
    }
    assert_eq!(n.catalog().get_network_namespace(NET).unwrap_err(), NetError::NotFound);
    assert_eq!(n.worker_pid(NET), Err(NetError::NotFound));
    assert!(!n.has_network(NET));
    assert_eq!(n.delete_virtual_network(NET).err(), Some(NetError::NotFound));
}

#[test]
fn deleting_with_connection_points_keeps_the_network() {
    let mut n = built();
    n.record_network(entry(vec![7], true)).unwrap();
    assert_eq!(
        n.delete_virtual_network(NET).err(),
        Some(NetError::NetworkingError(FailureCause::ConnectionPointsAttached))
    );
    assert!(n.has_network(NET));
    assert!(n.catalog().get_interface(1).is_ok());
    assert_eq!(n.worker_pid(NET), Ok(4242));
}

#[test]
fn bound_namespace_must_exist() {
    let mut n = Node::new();
    let empty = || {
        let mut e = entry(Vec::new(), true);
        e.network.interfaces = Vec::new();
        e
    };
    assert_eq!(n.record_network(empty()), Err(NetError::NotFound));
    n.register_namespace(NET, "ns-ABCD1234".to_string(), 7).unwrap();
    assert_eq!(n.record_network(entry(Vec::new(), true)), Err(NetError::NotFound));
    n.record_network(empty()).unwrap();
    assert_eq!(n.record_network(empty()), Err(NetError::AlreadyPresent));
    assert_eq!(
        n.unregister_namespace(NET),
        Err(NetError::NetworkingError(FailureCause::NamespaceInUse))
    );
    let mut other = empty();
    other.network.id = 0x99;
    assert_eq!(n.record_network(other), Err(NetError::NotConnected));
}

#[test]
fn namespace_and_worker_lifecycle() {
    let mut n = Node::new();
    n.register_namespace(8, "ns-00000008".to_string(), 99).unwrap();
    assert_eq!(n.register_namespace(8, "ns-again".to_string(), 1), Err(NetError::AlreadyPresent));
    assert_eq!(n.worker_pid(8), Ok(99));
    assert_eq!(n.unregister_namespace(8), Ok(99));
    assert_eq!(n.unregister_namespace(8), Err(NetError::NotFound));
    assert!(n.catalog().get_network_namespace(8).is_err());
}

#[test]
fn unbound_network_deletion_returns_no_pid() {
    let mut n = Node::new();
    let mut e = entry(Vec::new(), false);
    e.network.interfaces = Vec::new();
    n.record_network(e).unwrap();
    let (_, pid) = n.delete_virtual_network(NET).unwrap();
    assert_eq!(pid, None);
}

#[test]
fn deleting_a_network_keeps_other_namespaces() {
    let mut n = built();
    n.register_namespace(0x77, "ns-keepme1".to_string(), 5).unwrap();
    n.record_network(entry(Vec::new(), true)).unwrap();
    n.delete_virtual_network(NET).unwrap();
    assert!(n.catalog().get_network_namespace(0x77).is_ok());
    assert_eq!(n.worker_pid(0x77), Ok(5));
}

#[test]
fn constructed_network_appends_its_interfaces() {
    let mut n = built();
    n.record_created_interface(100, "br-pre".to_string(), fos_net_linux::InterfaceConfigKind::Bridge, 0, String::new()).unwrap();
    let mut desired = entry(Vec::new(), false).network;
    desired.interfaces = vec![100];
    let r = n.record_constructed_network(desired, ids(), "ns-ABCD1234".to_string()).unwrap();
    assert_eq!(r.interfaces, vec![100, 1, 2, 4, 5, 3]);
    let i = deserialize_internals(r.internals.as_ref().unwrap()).unwrap();
    let b = i.netns.unwrap();
    assert_eq!((b.ns_id, b.ns_name.as_str()), (NET, "ns-ABCD1234"));
    assert!(i.dhcp.is_none() && i.tables.is_empty());
    assert!(n.has_network(NET));
    let again = entry(Vec::new(), false).network;
    assert_eq!(n.record_constructed_network(again, ids(), "ns-ABCD1234".to_string()).err(), Some(NetError::AlreadyPresent));
}

#[test]
fn constructed_network_needs_its_namespace() {
    let mut n = Node::new();
    let mut desired = entry(Vec::new(), false).network;
    desired.interfaces = Vec::new();
    assert_eq!(n.record_constructed_network(desired, ids(), "ns-x".to_string()).err(), Some(NetError::NotFound));
}

#[test]
fn default_network_is_recorded_whole() {
    let mut n = Node::new();
    let dhcp = DhcpBinding {
        conf: "/run/fosbr0.conf".to_string(),
        pid_file: "/run/fosbr0.pid".to_string(),
        leases_file: "/run/fosbr0.leases".to_string(),
        log_file: "/run/fosbr0.log".to_string(),
    };
    let net = n.record_default_network(77, Some(dhcp), vec!["tableAAAAAAAAAA".to_string()]).unwrap();
    assert_eq!(net.id, 0);
    assert_eq!(net.interfaces, vec![0, 77]);
    assert!(net.ip_configuration.is_some());
    let br = n.catalog().get_interface(0).unwrap();
    assert_eq!(br.name, "fosbr0");
    assert_eq!(br.children, vec![77]);
    assert_eq!(br.addresses, vec![IpAddress::V4(0x0AF0_0001)]);
    let vx = n.catalog().get_interface(77).unwrap();
    assert_eq!(vx.name, "fosvxl0");
    assert_eq!(vx.parent, Some(0));
    assert_eq!(vx.kind, InterfaceKind::Vxlan { vni: 3845, group: IpAddress::V4(0xEF0F_0500), port: 3845 });
    let i = deserialize_internals(net.internals.as_ref().unwrap()).unwrap();
    assert_eq!(i.tables, vec!["tableAAAAAAAAAA".to_string()]);
    assert_eq!(i.dhcp.unwrap().pid_file, "/run/fosbr0.pid");
    assert!(n.has_network(0));
    assert_eq!(n.record_default_network(78, None, Vec::new()).err(), Some(NetError::AlreadyPresent));
}

#[test]
fn default_network_without_dhcp_is_recorded() {
    let mut n = Node::new();
    let net = n.record_default_network(5, None, Vec::new()).unwrap();
    assert!(net.ip_configuration.is_none());
    assert!(deserialize_internals(net.internals.as_ref().unwrap()).unwrap().dhcp.is_none());
    assert_eq!(Node::new().record_default_network(0, None, Vec::new()).err(), Some(NetError::AlreadyPresent));
}

#[test]
fn nil_id_is_for_the_default_network_only() {
    let mut n = Node::new();
    let mut e = entry(Vec::new(), false);
    e.network.id = 0;
    e.network.interfaces = Vec::new();
    assert_eq!(n.record_network(e), Err(NetError::WrongKind));
}

#[test]
fn deleting_a_network_keeps_unrelated_interfaces() {
    let mut n = built();
    n.record_created_interface(50, "other".to_string(), fos_net_linux::InterfaceConfigKind::Bridge, 0, String::new()).unwrap();
    n.add_address(50, IpAddress::V6(7)).unwrap();
    n.record_network(entry(Vec::new(), true)).unwrap();
    n.delete_virtual_network(NET).unwrap();
    let kept = n.catalog().get_interface(50).unwrap();
    assert_eq!(kept.name, "other");
    assert_eq!(kept.addresses, vec![IpAddress::V6(7)]);
}

#[test]
fn namespace_deletion_refuses_a_bound_namespace() {
    let mut n = built();
    n.record_network(entry(Vec::new(), true)).unwrap();
    assert_eq!(
        n.delete_network_namespace(NET).err(),
        Some(NetError::NetworkingError(FailureCause::NamespaceInUse))
    );
    assert!(n.catalog().get_interface(4).is_ok());
    assert_eq!(n.delete_network_namespace(0x55).err(), Some(NetError::NotFound));
}

#[test]
fn namespace_deletion_clears_its_interfaces() {
    let mut n = built();
    let (pid, name) = n.delete_network_namespace(NET).unwrap();
    assert_eq!((pid, name.as_str()), (4242, "ns-ABCD1234"));
    assert!(n.catalog().get_interface(4).is_err());
    assert!(n.catalog().get_interface(5).is_err());
    assert!(n.catalog().get_interface(3).is_err());
    assert!(n.catalog().get_interface(1).is_ok());
    assert_eq!(n.worker_pid(NET), Err(NetError::NotFound));
}
