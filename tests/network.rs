use fos_net_linux::{
    default_virtual_network, plan_default_teardown, DhcpBinding, NetworkInternals, plan_network_creation, plan_network_teardown, select_construction,
    CreationStep, FailureCause, IpAddress, IpRange, IpSubnet, IpVersion, LinkKind, NetError, VirtualNetwork,
    VxlanVariant,
};

fn network(connection_points: Vec<u128>) -> VirtualNetwork {
    VirtualNetwork {
        id: 42,
        name: "n".to_string(),
        is_mgmt: false,
        link: LinkKind::Eline { vni: 100, remote: IpAddress::V4(0xC000_0207), port: 4789 },
        ip_version: IpVersion::V4,
        ip_configuration: None,
        interfaces: vec![5, 6, 7, 8, 9],
        connection_points,
        internals: None,
    }
}

#[test]
fn default_network_with_dhcp() {
    let n = default_virtual_network(true, 77, vec![1, 2]);
    assert_eq!(n.id, 0);
    assert_eq!(n.interfaces, vec![0, 77]);
    assert_eq!(n.link, LinkKind::L2 { vni: 3845, group: IpAddress::V4(0xEF0F_0500), port: 3845 });
    assert_eq!(n.ip_version, IpVersion::V4);
    let ip = n.ip_configuration.unwrap();
    assert_eq!(ip.subnet, Some(IpSubnet { addr: IpAddress::V4(0x0AF0_0000), prefix: 16 }));
    assert_eq!(ip.gateway, Some(IpAddress::V4(0x0AF0_0001)));
    assert_eq!(ip.dhcp_range, Some(IpRange { start: IpAddress::V4(0x0AF0_0002), end: IpAddress::V4(0x0AF0_FFFE) }));
    assert_eq!(ip.dns, vec![IpAddress::V4(0xD043_DEDE)]);
    assert_eq!(n.internals, Some(vec![1, 2]));
    assert!(n.connection_points.is_empty());
}

#[test]
fn default_network_without_dhcp() {
    let n = default_virtual_network(false, 77, Vec::new());
    assert!(n.ip_configuration.is_none());
    assert_eq!(n.id, 0);
}

#[test]
fn creation_returns_an_existing_network() {
    let link = LinkKind::L2 { vni: 1, group: IpAddress::V4(2), port: 3 };
    assert_eq!(plan_network_creation(true, link), Ok(CreationStep::ReturnExisting));
    assert_eq!(plan_network_creation(true, LinkKind::L3), Ok(CreationStep::ReturnExisting));
}

#[test]
fn creation_dispatches_on_link_kind() {
    assert_eq!(
        plan_network_creation(false, LinkKind::L2 { vni: 1, group: IpAddress::V6(0xff05 << 112 | 2), port: 3 }),
        Ok(CreationStep::Construct(VxlanVariant::Multicast { vni: 1, group: IpAddress::V6(0xff05 << 112 | 2), port: 3 }))
    );
    assert_eq!(
        plan_network_creation(false, LinkKind::Eline { vni: 100, remote: IpAddress::V4(0xC000_0207), port: 4789 }),
        Ok(CreationStep::Construct(VxlanVariant::PointToPoint { vni: 100, remote: IpAddress::V4(0xC000_0207), port: 4789 }))
    );
    assert_eq!(plan_network_creation(false, LinkKind::L3), Err(NetError::Unimplemented));
    assert_eq!(select_construction(LinkKind::Elan), Err(NetError::Unimplemented));
}

#[test]
fn teardown_refused_with_connection_points() {
    let n = network(vec![1]);
    assert_eq!(
        plan_network_teardown(&n, Some(42)).err(),
        Some(NetError::NetworkingError(FailureCause::ConnectionPointsAttached))
    );
    assert_eq!(n.interfaces, vec![5, 6, 7, 8, 9]);
}

#[test]
fn teardown_lists_interfaces_then_namespace() {
    let n = network(Vec::new());
    let p = plan_network_teardown(&n, Some(42)).unwrap();
    assert_eq!(p.interfaces, vec![5, 6, 7, 8, 9]);
    assert_eq!(p.namespace, Some(42));
}

#[test]
fn stopping_tears_the_default_network_down_in_reverse() {
    let n = default_virtual_network(true, 77, Vec::new());
    let internals = NetworkInternals {
        netns: None,
        dhcp: Some(DhcpBinding {
            conf: "/run/fosbr0.conf".to_string(),
            pid_file: "/run/fosbr0.pid".to_string(),
            leases_file: "/run/fosbr0.leases".to_string(),
            log_file: "/run/fosbr0.log".to_string(),
        }),
        tables: vec!["tableAAAAAAAAAA".to_string()],
    };
    let p = plan_default_teardown(&n, &internals);
    assert_eq!(p.interfaces, vec![77, 0]);
    assert_eq!(p.tables, vec!["tableAAAAAAAAAA".to_string()]);
    assert_eq!(p.dhcp.unwrap().pid_file, "/run/fosbr0.pid");
    let q = plan_default_teardown(&n, &NetworkInternals { netns: None, dhcp: None, tables: Vec::new() });
    assert!(q.dhcp.is_none() && q.tables.is_empty());
}
