use vstd::prelude::*;
use crate::address::IpAddress;
use crate::catalog::{fresh_record, Catalog, CatalogView, InterfaceKind};
use crate::error::NetError;
use crate::process::fresh_id;
use crate::names::{generate_random_interface_name, generate_random_netns_name, is_interface_name, is_netns_name};
use crate::network::{
    Ipv4Cidr, VxlanVariant, DEFAULT_GATEWAY, DEFAULT_MCAST_GROUP, DEFAULT_PORT, DEFAULT_PREFIX,
    DEFAULT_SUBNET, DEFAULT_VNI,
};

verus! {

/// One step of work on the kernel, on a namespace worker or on a helper
/// process. Interfaces and namespaces are named as the kernel knows them.
#[derive(Debug)]
pub enum Command {
    CreateBridge { name: String },
    SetUp { name: String },
    CreateMcastVxlan { name: String, dev: String, vni: u32, group: IpAddress, port: u16 },
    CreatePtpVxlan { name: String, dev: String, vni: u32, local: IpAddress, remote: IpAddress, port: u16 },
    CreateVeth { name: String, peer: String },
    CreateVlan { name: String, dev: String, tag: u16 },
    SetMaster { name: String, master: String },
    AddAddress { name: String, addr: IpAddress, prefix: u8 },
    /// Creates the kernel namespace `/run/netns/<name>`.
    AddNetns { name: String },
    /// Launches the worker of namespace `ns_id` and registers it.
    SpawnWorker { ns_name: String, ns_id: u128 },
    /// Moves an interface into the namespace of that name.
    MoveToNetns { name: String, ns_name: String },
    /// Polls the worker until it answers its readiness probe.
    AwaitWorker { ns_id: u128 },
    WorkerSetUp { ns_id: u128, name: String },
    WorkerAddBridge { ns_id: u128, name: String },
    WorkerSetMaster { ns_id: u128, name: String, master: String },
    /// Renders the DHCP configuration for `name` and starts the DHCP daemon.
    StartDhcp { name: String },
    /// Publishes the masquerade rule of `subnet` towards `egress`.
    ConfigureNat { subnet: Ipv4Cidr, egress: String },
}

pub enum CommandView {
    CreateBridge { name: Seq<char> },
    SetUp { name: Seq<char> },
    CreateMcastVxlan { name: Seq<char>, dev: Seq<char>, vni: u32, group: IpAddress, port: u16 },
    CreatePtpVxlan { name: Seq<char>, dev: Seq<char>, vni: u32, local: IpAddress, remote: IpAddress, port: u16 },
    CreateVeth { name: Seq<char>, peer: Seq<char> },
    CreateVlan { name: Seq<char>, dev: Seq<char>, tag: u16 },
    SetMaster { name: Seq<char>, master: Seq<char> },
    AddAddress { name: Seq<char>, addr: IpAddress, prefix: u8 },
    AddNetns { name: Seq<char> },
    SpawnWorker { ns_name: Seq<char>, ns_id: u128 },
    MoveToNetns { name: Seq<char>, ns_name: Seq<char> },
    AwaitWorker { ns_id: u128 },
    WorkerSetUp { ns_id: u128, name: Seq<char> },
    WorkerAddBridge { ns_id: u128, name: Seq<char> },
    WorkerSetMaster { ns_id: u128, name: Seq<char>, master: Seq<char> },
    StartDhcp { name: Seq<char> },
    ConfigureNat { subnet: Ipv4Cidr, egress: Seq<char> },
}

impl View for Command {
    type V = CommandView;

    open spec fn view(&self) -> CommandView {
        match self {
            Command::CreateBridge { name } => CommandView::CreateBridge { name: name@ },
            Command::SetUp { name } => CommandView::SetUp { name: name@ },
            Command::CreateMcastVxlan { name, dev, vni, group, port } => CommandView::CreateMcastVxlan {
                name: name@, dev: dev@, vni: *vni, group: *group, port: *port,
            },
            Command::CreatePtpVxlan { name, dev, vni, local, remote, port } => CommandView::CreatePtpVxlan {
                name: name@, dev: dev@, vni: *vni, local: *local, remote: *remote, port: *port,
            },
            Command::CreateVeth { name, peer } => CommandView::CreateVeth { name: name@, peer: peer@ },
            Command::CreateVlan { name, dev, tag } => CommandView::CreateVlan { name: name@, dev: dev@, tag: *tag },
            Command::SetMaster { name, master } => CommandView::SetMaster { name: name@, master: master@ },
            Command::AddAddress { name, addr, prefix } => CommandView::AddAddress {
                name: name@, addr: *addr, prefix: *prefix,
            },
            Command::AddNetns { name } => CommandView::AddNetns { name: name@ },
            Command::SpawnWorker { ns_name, ns_id } => CommandView::SpawnWorker { ns_name: ns_name@, ns_id: *ns_id },
            Command::MoveToNetns { name, ns_name } => CommandView::MoveToNetns { name: name@, ns_name: ns_name@ },
            Command::AwaitWorker { ns_id } => CommandView::AwaitWorker { ns_id: *ns_id },
            Command::WorkerSetUp { ns_id, name } => CommandView::WorkerSetUp { ns_id: *ns_id, name: name@ },
            Command::WorkerAddBridge { ns_id, name } => CommandView::WorkerAddBridge { ns_id: *ns_id, name: name@ },
            Command::WorkerSetMaster { ns_id, name, master } => CommandView::WorkerSetMaster {
                ns_id: *ns_id, name: name@, master: master@,
            },
            Command::StartDhcp { name } => CommandView::StartDhcp { name: name@ },
            Command::ConfigureNat { subnet, egress } => CommandView::ConfigureNat { subnet: *subnet, egress: egress@ },
        }
    }
}

/// The views of a list of commands.
pub open spec fn views(s: Seq<Command>) -> Seq<CommandView> {
    s.map_values(|c: Command| c@)
}

/// The kernel names of the five interfaces and of the namespace that make up
/// a VXLAN-backed virtual network.
#[derive(Debug)]
pub struct TopologyNames {
    pub outer_bridge: String,
    pub vxlan: String,
    pub inner_bridge: String,
    pub inner_veth: String,
    pub outer_veth: String,
    pub netns: String,
}

/// The name of the loopback interface.
pub open spec fn loopback() -> Seq<char> {
    seq!['l', 'o']
}

/// The commands that build a VXLAN-backed network, in order: the outer
/// bridge, brought up; the VXLAN over the overlay interface, attached to the
/// outer bridge and brought up; the namespace and its worker; the veth pair,
/// whose outer end joins the outer bridge and comes up while the inner end
/// moves into the namespace; then, once the worker answers, loopback up, the
/// inner bridge created and up, and the inner veth attached to it and up.
pub open spec fn construction_commands(
    variant: VxlanVariant,
    overlay: Seq<char>,
    local: IpAddress,
    outer_bridge: Seq<char>,
    vxlan: Seq<char>,
    inner_bridge: Seq<char>,
    inner_veth: Seq<char>,
    outer_veth: Seq<char>,
    netns: Seq<char>,
    ns_id: u128,
) -> Seq<CommandView> {
    let create_vxlan = match variant {
        VxlanVariant::Multicast { vni, group, port } => CommandView::CreateMcastVxlan {
            name: vxlan, dev: overlay, vni, group, port,
        },
        VxlanVariant::PointToPoint { vni, remote, port } => CommandView::CreatePtpVxlan {
            name: vxlan, dev: overlay, vni, local, remote, port,
        },
    };
    seq![
        CommandView::CreateBridge { name: outer_bridge },
        CommandView::SetUp { name: outer_bridge },
        create_vxlan,
        CommandView::SetMaster { name: vxlan, master: outer_bridge },
        CommandView::SetUp { name: vxlan },
        CommandView::AddNetns { name: netns },
        CommandView::SpawnWorker { ns_name: netns, ns_id },
        CommandView::CreateVeth { name: outer_veth, peer: inner_veth },
        CommandView::SetMaster { name: outer_veth, master: outer_bridge },
        CommandView::SetUp { name: outer_veth },
        CommandView::MoveToNetns { name: inner_veth, ns_name: netns },
        CommandView::AwaitWorker { ns_id },
        CommandView::WorkerSetUp { ns_id, name: loopback() },
        CommandView::WorkerAddBridge { ns_id, name: inner_bridge },
        CommandView::WorkerSetUp { ns_id, name: inner_bridge },
        CommandView::WorkerSetMaster { ns_id, name: inner_veth, master: inner_bridge },
        CommandView::WorkerSetUp { ns_id, name: inner_veth },
    ]
}

fn lo() -> (r: String)
    ensures
        r@ == loopback(),
{
    let r = String::from_str("lo");
    proof {
        reveal_strlit("lo");
    }
    assert(r@ =~= loopback());
    r
}

/// The commands that build a VXLAN-backed network on the overlay interface
/// `overlay`, whose own address is `local`.
pub fn plan_vxlan_construction(
    variant: VxlanVariant,
    overlay: &String,
    local: IpAddress,
    names: &TopologyNames,
    ns_id: u128,
) -> (r: Vec<Command>)
    ensures
        views(r@) == construction_commands(
            variant,
            overlay@,
            local,
            names.outer_bridge@,
            names.vxlan@,
            names.inner_bridge@,
            names.inner_veth@,
            names.outer_veth@,
            names.netns@,
            ns_id,
        ),
{
    let mut r: Vec<Command> = Vec::new();
    r.push(Command::CreateBridge { name: names.outer_bridge.clone() });
    r.push(Command::SetUp { name: names.outer_bridge.clone() });
    match variant {
        VxlanVariant::Multicast { vni, group, port } => {
            r.push(Command::CreateMcastVxlan { name: names.vxlan.clone(), dev: overlay.clone(), vni, group, port });
        },
        VxlanVariant::PointToPoint { vni, remote, port } => {
            r.push(Command::CreatePtpVxlan {
                name: names.vxlan.clone(), dev: overlay.clone(), vni, local, remote, port,
            });
        },
    }
    r.push(Command::SetMaster { name: names.vxlan.clone(), master: names.outer_bridge.clone() });
    r.push(Command::SetUp { name: names.vxlan.clone() });
    r.push(Command::AddNetns { name: names.netns.clone() });
    r.push(Command::SpawnWorker { ns_name: names.netns.clone(), ns_id });
    r.push(Command::CreateVeth { name: names.outer_veth.clone(), peer: names.inner_veth.clone() });
    r.push(Command::SetMaster { name: names.outer_veth.clone(), master: names.outer_bridge.clone() });
    r.push(Command::SetUp { name: names.outer_veth.clone() });
    r.push(Command::MoveToNetns { name: names.inner_veth.clone(), ns_name: names.netns.clone() });
    r.push(Command::AwaitWorker { ns_id });
    r.push(Command::WorkerSetUp { ns_id, name: lo() });
    r.push(Command::WorkerAddBridge { ns_id, name: names.inner_bridge.clone() });
    r.push(Command::WorkerSetUp { ns_id, name: names.inner_bridge.clone() });
    r.push(Command::WorkerSetMaster { ns_id, name: names.inner_veth.clone(), master: names.inner_bridge.clone() });
    r.push(Command::WorkerSetUp { ns_id, name: names.inner_veth.clone() });
    assert(views(r@) =~= construction_commands(
        variant,
        overlay@,
        local,
        names.outer_bridge@,
        names.vxlan@,
        names.inner_bridge@,
        names.inner_veth@,
        names.outer_veth@,
        names.netns@,
        ns_id,
    ));
    r
}

impl TopologyNames {
    /// Fresh random names: eight characters of `[A-Za-z0-9]` for each
    /// interface, `ns-` and eight such characters for the namespace.
    pub fn generate() -> (r: TopologyNames)
        ensures
            is_interface_name(r.outer_bridge@),
            is_interface_name(r.vxlan@),
            is_interface_name(r.inner_bridge@),
            is_interface_name(r.inner_veth@),
            is_interface_name(r.outer_veth@),
            is_netns_name(r.netns@),
    {
        TopologyNames {
            outer_bridge: generate_random_interface_name(),
            vxlan: generate_random_interface_name(),
            inner_bridge: generate_random_interface_name(),
            inner_veth: generate_random_interface_name(),
            outer_veth: generate_random_interface_name(),
            netns: generate_random_netns_name(),
        }
    }
}

/// The name of the default network's bridge, `fosbr0`.
pub open spec fn default_bridge_name() -> Seq<char> {
    seq!['f', 'o', 's', 'b', 'r', '0']
}

/// The name of the default network's VXLAN, `fosvxl0`.
pub open spec fn default_vxlan_name() -> Seq<char> {
    seq!['f', 'o', 's', 'v', 'x', 'l', '0']
}

/// The default network's bridge name.
pub fn default_bridge() -> (r: String)
    ensures
        r@ == default_bridge_name(),
{
    let r = String::from_str("fosbr0");
    proof {
        reveal_strlit("fosbr0");
    }
    assert(r@ =~= default_bridge_name());
    r
}

/// The default network's VXLAN name.
pub fn default_vxlan() -> (r: String)
    ensures
        r@ == default_vxlan_name(),
{
    let r = String::from_str("fosvxl0");
    proof {
        reveal_strlit("fosvxl0");
    }
    assert(r@ =~= default_vxlan_name());
    r
}

/// The commands that build the node's default network, in order: the bridge
/// `fosbr0`, brought up; the multicast VXLAN `fosvxl0` over the overlay
/// interface, attached to the bridge and brought up; the gateway address on
/// the bridge; the DHCP service when `dhcp` is set; the masquerade rule of
/// the default subnet towards the overlay interface.
pub open spec fn default_network_commands(overlay: Seq<char>, dhcp: bool) -> Seq<CommandView> {
    let br = default_bridge_name();
    let vxl = default_vxlan_name();
    let build = seq![
        CommandView::CreateBridge { name: br },
        CommandView::SetUp { name: br },
        CommandView::CreateMcastVxlan {
            name: vxl, dev: overlay, vni: DEFAULT_VNI, group: IpAddress::V4(DEFAULT_MCAST_GROUP), port: DEFAULT_PORT,
        },
        CommandView::SetMaster { name: vxl, master: br },
        CommandView::SetUp { name: vxl },
        CommandView::AddAddress { name: br, addr: IpAddress::V4(DEFAULT_GATEWAY), prefix: DEFAULT_PREFIX },
    ];
    let service = if dhcp { seq![CommandView::StartDhcp { name: br }] } else { Seq::empty() };
    build + service + seq![CommandView::ConfigureNat {
        subnet: Ipv4Cidr { addr: DEFAULT_SUBNET, prefix: DEFAULT_PREFIX },
        egress: overlay,
    }]
}

/// The commands that build the node's default network over `overlay`.
pub fn plan_default_network(overlay: &String, dhcp: bool) -> (r: Vec<Command>)
    ensures
        views(r@) == default_network_commands(overlay@, dhcp),
{
    let mut r: Vec<Command> = Vec::new();
    r.push(Command::CreateBridge { name: default_bridge() });
    r.push(Command::SetUp { name: default_bridge() });
    r.push(Command::CreateMcastVxlan {
        name: default_vxlan(),
        dev: overlay.clone(),
        vni: DEFAULT_VNI,
        group: IpAddress::V4(DEFAULT_MCAST_GROUP),
        port: DEFAULT_PORT,
    });
    r.push(Command::SetMaster { name: default_vxlan(), master: default_bridge() });
    r.push(Command::SetUp { name: default_vxlan() });
    r.push(Command::AddAddress { name: default_bridge(), addr: IpAddress::V4(DEFAULT_GATEWAY), prefix: DEFAULT_PREFIX });
    if dhcp {
        r.push(Command::StartDhcp { name: default_bridge() });
    }
    r.push(Command::ConfigureNat {
        subnet: Ipv4Cidr { addr: DEFAULT_SUBNET, prefix: DEFAULT_PREFIX },
        egress: overlay.clone(),
    });
    assert(views(r@) =~= default_network_commands(overlay@, dhcp));
    r
}

/// The kind of interface that a caller asks for.
#[derive(Clone, Copy, Debug, PartialEq, Eq, Structural)]
pub enum InterfaceConfigKind {
    /// A multicast VXLAN over the overlay interface.
    Vxlan { vni: u32, group: IpAddress, port: u16 },
    Bridge,
    /// A veth pair; the requested name is the internal end.
    Veth,
    /// A VLAN over the data-plane interface.
    Vlan { tag: u16 },
    Macvlan,
    Gre,
    Gretap,
    Ip6gre,
    Ip6gretap,
}

/// The work that creating an interface takes: the commands, and for a veth
/// pair the generated name of its external end.
#[derive(Debug)]
pub struct InterfacePlan {
    pub commands: Vec<Command>,
    pub peer: Option<String>,
}

/// The commands that create the interface `name` of kind `kind`; `peer` is
/// the name of the external end of a veth pair. Kinds that are reserved but
/// not built are refused.
pub open spec fn interface_commands(
    name: Seq<char>,
    kind: InterfaceConfigKind,
    overlay: Seq<char>,
    dataplane: Seq<char>,
    peer: Seq<char>,
) -> Option<Seq<CommandView>> {
    match kind {
        InterfaceConfigKind::Vxlan { vni, group, port } => Some(seq![
            CommandView::CreateMcastVxlan { name, dev: overlay, vni, group, port },
        ]),
        InterfaceConfigKind::Bridge => Some(seq![CommandView::CreateBridge { name }]),
        InterfaceConfigKind::Veth => Some(seq![CommandView::CreateVeth { name, peer }]),
        InterfaceConfigKind::Vlan { tag } => Some(seq![CommandView::CreateVlan { name, dev: dataplane, tag }]),
        _ => None,
    }
}

/// Plans the creation of the interface `name` of kind `kind` over the
/// overlay or data-plane interface; a veth pair gets a fresh random name for
/// its external end.
pub fn plan_interface_creation(
    name: &String,
    kind: InterfaceConfigKind,
    overlay: &String,
    dataplane: &String,
) -> (r: Result<InterfacePlan, NetError>)
    ensures
        match r {
            Ok(p) => {
                &&& (kind is Veth <==> p.peer is Some)
                &&& (p.peer is Some ==> is_interface_name(p.peer.unwrap()@))
                &&& interface_commands(name@, kind, overlay@, dataplane@, match p.peer {
                    Some(q) => q@,
                    None => Seq::empty(),
                }) == Some(views(p.commands@))
            },
            Err(e) => {
                &&& e == NetError::Unimplemented
                &&& interface_commands(name@, kind, overlay@, dataplane@, Seq::empty()) is None
            },
        },
{
    let mut commands: Vec<Command> = Vec::new();
    let mut peer: Option<String> = None;
    match kind {
        InterfaceConfigKind::Vxlan { vni, group, port } => {
            commands.push(Command::CreateMcastVxlan { name: name.clone(), dev: overlay.clone(), vni, group, port });
        },
        InterfaceConfigKind::Bridge => {
            commands.push(Command::CreateBridge { name: name.clone() });
        },
        InterfaceConfigKind::Veth => {
            let q = generate_random_interface_name();
            commands.push(Command::CreateVeth { name: name.clone(), peer: q.clone() });
            peer = Some(q);
        },
        InterfaceConfigKind::Vlan { tag } => {
            commands.push(Command::CreateVlan { name: name.clone(), dev: dataplane.clone(), tag });
        },
        _ => return Err(NetError::Unimplemented),
    }
    let p = InterfacePlan { commands, peer };
    assert(interface_commands(name@, kind, overlay@, dataplane@, match p.peer {
        Some(q) => q@,
        None => Seq::empty(),
    }).unwrap() =~= views(p.commands@));
    Ok(p)
}

/// The catalog kind of an interface created on request.
pub open spec fn created_kind(kind: InterfaceConfigKind) -> Option<InterfaceKind> {
    match kind {
        InterfaceConfigKind::Vxlan { vni, group, port } => Some(InterfaceKind::Vxlan { vni, group, port }),
        InterfaceConfigKind::Bridge => Some(InterfaceKind::Bridge),
        InterfaceConfigKind::Vlan { tag } => Some(InterfaceKind::Vlan { tag }),
        _ => None,
    }
}

/// Records an interface that was created on request: a veth pair under
/// `id` (internal end, named `name`) and `peer_id` (external end, named
/// `peer`), any other built kind under `id` alone.
pub fn record_created_interface(
    catalog: &mut Catalog,
    id: u128,
    name: String,
    kind: InterfaceConfigKind,
    peer_id: u128,
    peer: String,
) -> (r: Result<(), NetError>)
    requires
        old(catalog)@.wf(),
    ensures
        final(catalog)@.wf(),
        r is Ok <==> match kind {
            InterfaceConfigKind::Veth => {
                &&& !old(catalog)@.interfaces.contains_key(id)
                &&& !old(catalog)@.interfaces.contains_key(peer_id)
                &&& id != peer_id
            },
            _ => created_kind(kind) is Some && !old(catalog)@.interfaces.contains_key(id),
        },
        r is Err ==> final(catalog)@ == old(catalog)@,
        r is Ok ==> final(catalog)@ == (CatalogView {
            interfaces: match kind {
                InterfaceConfigKind::Veth => old(catalog)@.interfaces
                    .insert(id, fresh_record(id, name@, None, InterfaceKind::Veth { peer: peer_id, internal: true }))
                    .insert(peer_id, fresh_record(peer_id, peer@, None, InterfaceKind::Veth { peer: id, internal: false })),
                _ => old(catalog)@.interfaces.insert(id, fresh_record(id, name@, None, created_kind(kind).unwrap())),
            },
            namespaces: old(catalog)@.namespaces,
        }),
{
    match kind {
        InterfaceConfigKind::Veth => catalog.add_veth_pair(id, name, peer_id, peer),
        InterfaceConfigKind::Vxlan { vni, group, port } => catalog.add_interface(id, name, InterfaceKind::Vxlan { vni, group, port }),
        InterfaceConfigKind::Bridge => catalog.add_interface(id, name, InterfaceKind::Bridge),
        InterfaceConfigKind::Vlan { tag } => catalog.add_interface(id, name, InterfaceKind::Vlan { tag }),
        _ => Err(NetError::Unimplemented),
    }
}

/// A fresh identifier for a new interface or namespace.
pub fn new_id() -> (r: u128) {
    fresh_id()
}

} // verus!
