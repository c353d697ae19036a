use fos_net_linux::{
    dhcp_arguments, dhcp_files, netns_path, plan_default_network, plan_interface_creation,
    plan_vxlan_construction, record_created_interface, worker_arguments, Catalog, Command,
    InterfaceConfigKind, InterfaceKind, IpAddress, NetError, TopologyNames, VxlanVariant,
};

fn describe(cs: &[Command]) -> Vec<String> {
    cs.iter().map(|c| format!("{:?}", c)).collect()
}

fn names() -> TopologyNames {
    TopologyNames {
        outer_bridge: "obr".to_string(),
        vxlan: "vxl".to_string(),
        inner_bridge: "ibr".to_string(),
        inner_veth: "iv".to_string(),
        outer_veth: "ov".to_string(),
        netns: "ns-ABCD1234".to_string(),
    }
}

#[test]
fn default_network_commands_with_dhcp() {
    let cs = plan_default_network(&"eth0".to_string(), true);
    assert_eq!(
        describe(&cs),
        vec![
            "CreateBridge { name: \"fosbr0\" }",
            "SetUp { name: \"fosbr0\" }",
            "CreateMcastVxlan { name: \"fosvxl0\", dev: \"eth0\", vni: 3845, group: V4(4010738944), port: 3845 }",
            "SetMaster { name: \"fosvxl0\", master: \"fosbr0\" }",
            "SetUp { name: \"fosvxl0\" }",
            "AddAddress { name: \"fosbr0\", addr: V4(183500801), prefix: 16 }",
            "StartDhcp { name: \"fosbr0\" }",
            "ConfigureNat { subnet: Ipv4Cidr { addr: 183500800, prefix: 16 }, egress: \"eth0\" }",
        ]
    );
}

#[test]
fn default_network_commands_without_dhcp() {
    let cs = plan_default_network(&"eth0".to_string(), false);
    assert_eq!(cs.len(), 7);
    assert!(!describe(&cs).iter().any(|c| c.starts_with("StartDhcp")));
}

#[test]
fn ptp_network_commands() {
    let variant = VxlanVariant::PointToPoint { vni: 100, remote: IpAddress::V4(0xC000_0207), port: 4789 };
    let cs = plan_vxlan_construction(variant, &"eth0".to_string(), IpAddress::V4(0xC000_0203), &names(), 9);
    assert_eq!(
        describe(&cs),
        vec![
            "CreateBridge { name: \"obr\" }",
            "SetUp { name: \"obr\" }",
            "CreatePtpVxlan { name: \"vxl\", dev: \"eth0\", vni: 100, local: V4(3221225987), remote: V4(3221225991), port: 4789 }",
            "SetMaster { name: \"vxl\", master: \"obr\" }",
            "SetUp { name: \"vxl\" }",
            "AddNetns { name: \"ns-ABCD1234\" }",
            "SpawnWorker { ns_name: \"ns-ABCD1234\", ns_id: 9 }",
            "CreateVeth { name: \"ov\", peer: \"iv\" }",
            "SetMaster { name: \"ov\", master: \"obr\" }",
            "SetUp { name: \"ov\" }",
            "MoveToNetns { name: \"iv\", ns_name: \"ns-ABCD1234\" }",
            "AwaitWorker { ns_id: 9 }",
            "WorkerSetUp { ns_id: 9, name: \"lo\" }",
            "WorkerAddBridge { ns_id: 9, name: \"ibr\" }",
            "WorkerSetUp { ns_id: 9, name: \"ibr\" }",
            "WorkerSetMaster { ns_id: 9, name: \"iv\", master: \"ibr\" }",
            "WorkerSetUp { ns_id: 9, name: \"iv\" }",
        ]
    );
}

#[test]
fn mcast_network_creates_a_multicast_vxlan() {
    let variant = VxlanVariant::Multicast { vni: 5, group: IpAddress::V4(0xEF00_0001), port: 4789 };
    let cs = plan_vxlan_construction(variant, &"eth1".to_string(), IpAddress::V4(0), &names(), 3);
    assert_eq!(
        format!("{:?}", cs[2]),
        "CreateMcastVxlan { name: \"vxl\", dev: \"eth1\", vni: 5, group: V4(4009754625), port: 4789 }"
    );
    assert_eq!(cs.len(), 17);
}

#[test]
fn generated_topology_names_are_well_formed() {
    let n = TopologyNames::generate();
    for name in [&n.outer_bridge, &n.vxlan, &n.inner_bridge, &n.inner_veth, &n.outer_veth] {
        assert_eq!(name.len(), 8);
        assert!(name.chars().all(|c| c.is_ascii_alphanumeric()));
    }
    assert!(n.netns.starts_with("ns-") && n.netns.len() == 11);
}

#[test]
fn interface_creation_plans() {
    let eth0 = "eth0".to_string();
    let eth1 = "eth1".to_string();
    let p = plan_interface_creation(&"br9".to_string(), InterfaceConfigKind::Bridge, &eth0, &eth1).unwrap();
    assert_eq!(describe(&p.commands), vec!["CreateBridge { name: \"br9\" }"]);
    assert!(p.peer.is_none());
    let p = plan_interface_creation(&"vl".to_string(), InterfaceConfigKind::Vlan { tag: 12 }, &eth0, &eth1).unwrap();
    assert_eq!(describe(&p.commands), vec!["CreateVlan { name: \"vl\", dev: \"eth1\", tag: 12 }"]);
    let p = plan_interface_creation(
        &"vx".to_string(),
        InterfaceConfigKind::Vxlan { vni: 1, group: IpAddress::V6(2), port: 3 },
        &eth0,
        &eth1,
    )
    .unwrap();
    assert_eq!(
        describe(&p.commands),
        vec!["CreateMcastVxlan { name: \"vx\", dev: \"eth0\", vni: 1, group: V6(2), port: 3 }"]
    );
    let p = plan_interface_creation(&"v-a".to_string(), InterfaceConfigKind::Veth, &eth0, &eth1).unwrap();
    let peer = p.peer.unwrap();
    assert_eq!(peer.len(), 8);
    assert_eq!(describe(&p.commands), vec![format!("CreateVeth {{ name: \"v-a\", peer: {:?} }}", peer)]);
    for kind in [
        InterfaceConfigKind::Macvlan,
        InterfaceConfigKind::Gre,
        InterfaceConfigKind::Gretap,
        InterfaceConfigKind::Ip6gre,
        InterfaceConfigKind::Ip6gretap,
    ] {
        assert_eq!(plan_interface_creation(&"x".to_string(), kind, &eth0, &eth1).err(), Some(NetError::Unimplemented));
    }
}

#[test]
fn created_interfaces_are_recorded() {
    let mut c = Catalog::new();
    record_created_interface(&mut c, 1, "v-a".to_string(), InterfaceConfigKind::Veth, 2, "peer0001".to_string()).unwrap();
    assert_eq!(c.get_interface(1).unwrap().kind, InterfaceKind::Veth { peer: 2, internal: true });
    assert_eq!(c.get_interface(2).unwrap().name, "peer0001");
    record_created_interface(&mut c, 3, "vl".to_string(), InterfaceConfigKind::Vlan { tag: 5 }, 0, String::new()).unwrap();
    assert_eq!(c.get_interface(3).unwrap().kind, InterfaceKind::Vlan { tag: 5 });
    assert_eq!(
        record_created_interface(&mut c, 4, "g".to_string(), InterfaceConfigKind::Gre, 0, String::new()),
        Err(NetError::Unimplemented)
    );
    assert_eq!(
        record_created_interface(&mut c, 3, "b".to_string(), InterfaceConfigKind::Bridge, 0, String::new()),
        Err(NetError::AlreadyPresent)
    );
}

#[test]
fn dhcp_files_under_the_run_path() {
    let f = dhcp_files(&"/var/run/fos".to_string(), &"fosbr0".to_string());
    assert_eq!(f.conf, "/var/run/fos/fosbr0.conf");
    assert_eq!(f.pid, "/var/run/fos/fosbr0.pid");
    assert_eq!(f.leases, "/var/run/fos/fosbr0.leases");
    assert_eq!(f.log, "/var/run/fos/fosbr0.log");
    let g = dhcp_files(&"/run/".to_string(), &"br".to_string());
    assert_eq!(g.conf, "/run/br.conf");
}

#[test]
fn worker_and_dhcp_command_lines() {
    let a = worker_arguments(&"ns-ABCD1234".to_string(), 0, &"unixsock-stream//tmp/z.sock".to_string());
    assert_eq!(
        a,
        vec![
            "--netns",
            "ns-ABCD1234",
            "--id",
            "00000000-0000-0000-0000-000000000000",
            "--locator",
            "unixsock-stream//tmp/z.sock",
        ]
    );
    let b = worker_arguments(&"ns-x".to_string(), 0x0123_4567_89ab_cdef_0123_4567_89ab_cdef, &"l".to_string());
    assert_eq!(b[3], "01234567-89ab-cdef-0123-456789abcdef");
    assert_eq!(dhcp_arguments(&"/run/fosbr0.conf".to_string()), vec!["-C", "/run/fosbr0.conf"]);
    assert_eq!(netns_path(&"ns-ABCD1234".to_string()), "/run/netns/ns-ABCD1234");
}

#[test]
fn created_records_are_fresh_and_alone() {
    let mut c = Catalog::new();
    c.add_network_namespace(9, "ns-x".to_string()).unwrap();
    record_created_interface(&mut c, 1, "br9".to_string(), InterfaceConfigKind::Bridge, 0, String::new()).unwrap();
    let b = c.get_interface(1).unwrap();
    assert!(b.children.is_empty() && b.addresses.is_empty());
    assert_eq!((b.ns, b.parent, b.kind), (None, None, InterfaceKind::Bridge));
    record_created_interface(&mut c, 2, "v-a".to_string(), InterfaceConfigKind::Veth, 3, "peer0002".to_string()).unwrap();
    assert_eq!(c.get_interface(3).unwrap().ns, None);
    assert_eq!(c.get_interface(3).unwrap().kind, InterfaceKind::Veth { peer: 2, internal: false });
    assert!(c.get_interface(1).unwrap().children.is_empty());
    assert!(c.get_network_namespace(9).unwrap().interfaces.is_empty());
    assert_eq!(
        record_created_interface(&mut c, 4, "v".to_string(), InterfaceConfigKind::Veth, 4, "p".to_string()),
        Err(NetError::AlreadyPresent)
    );
}
