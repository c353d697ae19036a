use vstd::prelude::*;
use crate::address::{IpAddress, IpRange, IpSubnet, IpVersion};
use crate::error::{FailureCause, NetError};

verus! {

/// The IPv4 address `a.b.c.d` as a 32-bit integer.
pub open spec fn ipv4(a: u8, b: u8, c: u8, d: u8) -> u32 {
    (a as int * 0x100_0000 + b as int * 0x1_0000 + c as int * 0x100 + d as int) as u32
}

/// How a virtual network is linked between nodes.
#[derive(Clone, Copy, Debug, PartialEq, Eq, Structural)]
pub enum LinkKind {
    /// A multicast VXLAN.
    L2 { vni: u32, group: IpAddress, port: u16 },
    /// A point-to-point VXLAN towards `remote`.
    Eline { vni: u32, remote: IpAddress, port: u16 },
    /// A routed network; reserved.
    L3,
    /// A multipoint network; reserved.
    Elan,
}

/// An IPv4 subnet: a network address and a prefix length.
#[derive(Clone, Copy, Debug, PartialEq, Eq, Structural)]
pub struct Ipv4Cidr {
    pub addr: u32,
    pub prefix: u8,
}

/// The addressing of a virtual network.
#[derive(Clone, Debug)]
pub struct IpConfiguration {
    pub subnet: Option<IpSubnet>,
    pub gateway: Option<IpAddress>,
    /// The first and last address that DHCP hands out.
    pub dhcp_range: Option<IpRange>,
    /// The DNS servers announced by DHCP.
    pub dns: Vec<IpAddress>,
}

pub struct IpConfigurationView {
    pub subnet: Option<IpSubnet>,
    pub gateway: Option<IpAddress>,
    pub dhcp_range: Option<IpRange>,
    pub dns: Seq<IpAddress>,
}

impl View for IpConfiguration {
    type V = IpConfigurationView;

    open spec fn view(&self) -> IpConfigurationView {
        IpConfigurationView {
            subnet: self.subnet,
            gateway: self.gateway,
            dhcp_range: self.dhcp_range,
            dns: self.dns@,
        }
    }
}

impl IpConfiguration {
    /// A copy of the addressing.
    pub fn duplicate(&self) -> (r: IpConfiguration)
        ensures
            r@ == self@,
    {
        let mut dns: Vec<IpAddress> = Vec::new();
        let mut i: usize = 0;
        while i < self.dns.len()
            invariant
                i <= self.dns@.len(),
                dns@ == self.dns@.subrange(0, i as int),
            decreases self.dns@.len() - i,
        {
            dns.push(self.dns[i]);
            i = i + 1;
            assert(dns@ =~= self.dns@.subrange(0, i as int));
        }
        assert(self.dns@.subrange(0, self.dns@.len() as int) =~= self.dns@);
        IpConfiguration { subnet: self.subnet, gateway: self.gateway, dhcp_range: self.dhcp_range, dns }
    }
}

/// A virtual network as the catalog records it.
#[derive(Clone, Debug)]
pub struct VirtualNetwork {
    pub id: u128,
    pub name: String,
    pub is_mgmt: bool,
    pub link: LinkKind,
    pub ip_version: IpVersion,
    pub ip_configuration: Option<IpConfiguration>,
    /// The interfaces that make up the network, in the order of their creation.
    pub interfaces: Vec<u128>,
    pub connection_points: Vec<u128>,
    /// The serialized internals of the plugin for this network.
    pub internals: Option<Vec<u8>>,
}

pub struct VirtualNetworkView {
    pub id: u128,
    pub name: Seq<char>,
    pub is_mgmt: bool,
    pub link: LinkKind,
    pub ip_version: IpVersion,
    pub ip_configuration: Option<IpConfigurationView>,
    pub interfaces: Seq<u128>,
    pub connection_points: Seq<u128>,
    pub internals: Option<Seq<u8>>,
}

impl View for VirtualNetwork {
    type V = VirtualNetworkView;

    open spec fn view(&self) -> VirtualNetworkView {
        VirtualNetworkView {
            id: self.id,
            name: self.name@,
            is_mgmt: self.is_mgmt,
            link: self.link,
            ip_version: self.ip_version,
            ip_configuration: match self.ip_configuration {
                Some(c) => Some(c@),
                None => None,
            },
            interfaces: self.interfaces@,
            connection_points: self.connection_points@,
            internals: match self.internals {
                Some(b) => Some(b@),
                None => None,
            },
        }
    }
}

/// A copy of a list of bytes.
pub fn copy_bytes(v: &Vec<u8>) -> (r: Vec<u8>)
    ensures
        r@ == v@,
{
    let mut r: Vec<u8> = Vec::new();
    let mut i: usize = 0;
    while i < v.len()
        invariant
            i <= v.len(),
            r@ == v@.subrange(0, i as int),
        decreases v.len() - i,
    {
        r.push(v[i]);
        i = i + 1;
        assert(r@ =~= v@.subrange(0, i as int));
    }
    assert(v@.subrange(0, v.len() as int) =~= v@);
    r
}

impl VirtualNetwork {
    /// A copy of the record.
    pub fn duplicate(&self) -> (r: VirtualNetwork)
        ensures
            r@ == self@,
    {
        VirtualNetwork {
            id: self.id,
            name: self.name.clone(),
            is_mgmt: self.is_mgmt,
            link: self.link,
            ip_version: self.ip_version,
            ip_configuration: match &self.ip_configuration {
                Some(c) => Some(c.duplicate()),
                None => None,
            },
            interfaces: crate::catalog::copy_ids(&self.interfaces),
            connection_points: crate::catalog::copy_ids(&self.connection_points),
            internals: match &self.internals {
                Some(b) => Some(copy_bytes(b)),
                None => None,
            },
        }
    }
}

/// The identifier of the node's default virtual network, and of its bridge.
pub const DEFAULT_NETWORK_ID: u128 = 0;
/// The VNI of the default network's VXLAN.
pub const DEFAULT_VNI: u32 = 3845;
/// The UDP port of the default network's VXLAN.
pub const DEFAULT_PORT: u16 = 3845;
/// 239.15.5.0, the multicast group of the default network.
pub const DEFAULT_MCAST_GROUP: u32 = 0xEF0F_0500;
/// 10.240.0.0, the subnet of the default network.
pub const DEFAULT_SUBNET: u32 = 0x0AF0_0000;
/// The prefix length of the default network's subnet.
pub const DEFAULT_PREFIX: u8 = 16;
/// 10.240.0.1, the gateway of the default network, held by its bridge.
pub const DEFAULT_GATEWAY: u32 = 0x0AF0_0001;
/// 10.240.0.2, the first address that DHCP hands out on the default network.
pub const DEFAULT_DHCP_START: u32 = 0x0AF0_0002;
/// 10.240.255.254, the last address that DHCP hands out on the default network.
pub const DEFAULT_DHCP_END: u32 = 0x0AF0_FFFE;
/// 208.67.222.222, the DNS server announced on the default network.
pub const DEFAULT_DNS: u32 = 0xD043_DEDE;

/// The default network's profile holds the fixed constants.
pub proof fn lemma_default_profile_addresses()
    ensures
        DEFAULT_MCAST_GROUP == ipv4(239, 15, 5, 0),
        DEFAULT_SUBNET == ipv4(10, 240, 0, 0),
        DEFAULT_GATEWAY == ipv4(10, 240, 0, 1),
        DEFAULT_DHCP_START == ipv4(10, 240, 0, 2),
        DEFAULT_DHCP_END == ipv4(10, 240, 255, 254),
        DEFAULT_DNS == ipv4(208, 67, 222, 222),
{
}

/// The addressing of the default network.
pub open spec fn default_ip_configuration() -> IpConfigurationView {
    IpConfigurationView {
        subnet: Some(IpSubnet { addr: IpAddress::V4(DEFAULT_SUBNET), prefix: DEFAULT_PREFIX }),
        gateway: Some(IpAddress::V4(DEFAULT_GATEWAY)),
        dhcp_range: Some(IpRange { start: IpAddress::V4(DEFAULT_DHCP_START), end: IpAddress::V4(DEFAULT_DHCP_END) }),
        dns: seq![IpAddress::V4(DEFAULT_DNS)],
    }
}

/// The default network is a multicast VXLAN network on the fixed profile.
pub open spec fn is_default_network(n: VirtualNetworkView) -> bool {
    &&& n.id == DEFAULT_NETWORK_ID
    &&& n.link == (LinkKind::L2 { vni: DEFAULT_VNI, group: IpAddress::V4(DEFAULT_MCAST_GROUP), port: DEFAULT_PORT })
    &&& n.ip_version == IpVersion::V4
    &&& (n.ip_configuration is Some ==> n.ip_configuration == Some(default_ip_configuration()))
}

/// Whether a network is on the default network's profile.
pub fn is_default_profile(n: &VirtualNetwork) -> (r: bool)
    ensures
        r == is_default_network(n@),
{
    let link_ok = match n.link {
        LinkKind::L2 { vni, group, port } => vni == DEFAULT_VNI && group == IpAddress::V4(DEFAULT_MCAST_GROUP)
            && port == DEFAULT_PORT,
        _ => false,
    };
    let version_ok = match n.ip_version {
        IpVersion::V4 => true,
        IpVersion::V6 => false,
    };
    let config_ok = match &n.ip_configuration {
        None => true,
        Some(c) => {
            let subnet_ok = match c.subnet {
                Some(sn) => sn.addr == IpAddress::V4(DEFAULT_SUBNET) && sn.prefix == DEFAULT_PREFIX,
                None => false,
            };
            let gateway_ok = match c.gateway {
                Some(g) => g == IpAddress::V4(DEFAULT_GATEWAY),
                None => false,
            };
            let range_ok = match c.dhcp_range {
                Some(rg) => rg.start == IpAddress::V4(DEFAULT_DHCP_START) && rg.end == IpAddress::V4(DEFAULT_DHCP_END),
                None => false,
            };
            let dns_ok = c.dns.len() == 1 && c.dns[0] == IpAddress::V4(DEFAULT_DNS);
            proof {
                if dns_ok {
                    assert(c@.dns =~= seq![IpAddress::V4(DEFAULT_DNS)]);
                }
            }
            subnet_ok && gateway_ok && range_ok && dns_ok
        },
    };
    n.id == DEFAULT_NETWORK_ID && link_ok && version_ok && config_ok
}

/// The record of the node's default network, made of the bridge (whose
/// identifier is the nil one) and the VXLAN `vxlan_id`. With `dhcp` it
/// carries the addressing that DHCP serves; without, none.
pub fn default_virtual_network(dhcp: bool, vxlan_id: u128, internals: Vec<u8>) -> (n: VirtualNetwork)
    ensures
        is_default_network(n@),
        n@.interfaces == seq![DEFAULT_NETWORK_ID, vxlan_id],
        n@.connection_points.len() == 0,
        n@.internals == Some(internals@),
        !n@.is_mgmt,
        dhcp <==> n@.ip_configuration is Some,
{
    let ip_configuration = if dhcp {
        let mut dns: Vec<IpAddress> = Vec::new();
        dns.push(IpAddress::V4(DEFAULT_DNS));
        assert(dns@ =~= seq![IpAddress::V4(DEFAULT_DNS)]);
        Some(IpConfiguration {
            subnet: Some(IpSubnet { addr: IpAddress::V4(DEFAULT_SUBNET), prefix: DEFAULT_PREFIX }),
            gateway: Some(IpAddress::V4(DEFAULT_GATEWAY)),
            dhcp_range: Some(IpRange { start: IpAddress::V4(DEFAULT_DHCP_START), end: IpAddress::V4(DEFAULT_DHCP_END) }),
            dns,
        })
    } else {
        None
    };
    let mut interfaces: Vec<u128> = Vec::new();
    interfaces.push(DEFAULT_NETWORK_ID);
    interfaces.push(vxlan_id);
    assert(interfaces@ =~= seq![DEFAULT_NETWORK_ID, vxlan_id]);
    VirtualNetwork {
        id: DEFAULT_NETWORK_ID,
        name: String::from_str("default virtual network"),
        is_mgmt: false,
        link: LinkKind::L2 { vni: DEFAULT_VNI, group: IpAddress::V4(DEFAULT_MCAST_GROUP), port: DEFAULT_PORT },
        ip_version: IpVersion::V4,
        ip_configuration,
        interfaces,
        connection_points: Vec::new(),
        internals: Some(internals),
    }
}

/// The kind of VXLAN that a network's topology is built on.
#[derive(Clone, Copy, Debug, PartialEq, Eq, Structural)]
pub enum VxlanVariant {
    Multicast { vni: u32, group: IpAddress, port: u16 },
    PointToPoint { vni: u32, remote: IpAddress, port: u16 },
}

/// The construction that a link kind calls for; other kinds are not implemented.
pub open spec fn construction_for(link: LinkKind) -> Result<VxlanVariant, NetError> {
    match link {
        LinkKind::L2 { vni, group, port } => Ok(VxlanVariant::Multicast { vni, group, port }),
        LinkKind::Eline { vni, remote, port } => Ok(VxlanVariant::PointToPoint { vni, remote, port }),
        _ => Err(NetError::Unimplemented),
    }
}

/// Picks the construction for a network that the global catalog describes.
pub fn select_construction(link: LinkKind) -> (r: Result<VxlanVariant, NetError>)
    ensures
        r == construction_for(link),
{
    match link {
        LinkKind::L2 { vni, group, port } => Ok(VxlanVariant::Multicast { vni, group, port }),
        LinkKind::Eline { vni, remote, port } => Ok(VxlanVariant::PointToPoint { vni, remote, port }),
        _ => Err(NetError::Unimplemented),
    }
}

/// What creating a virtual network comes to, given what the local catalog
/// already holds for it.
#[derive(Clone, Copy, Debug, PartialEq, Eq, Structural)]
pub enum CreationStep {
    /// The network is already realized here: hand back the local record.
    ReturnExisting,
    /// Build the topology on this VXLAN.
    Construct(VxlanVariant),
}

/// How creating a network proceeds, given whether the local catalog has it.
pub open spec fn creation_step(locally_present: bool, link: LinkKind) -> Result<CreationStep, NetError> {
    if locally_present {
        Ok(CreationStep::ReturnExisting)
    } else {
        match construction_for(link) {
            Ok(v) => Ok(CreationStep::Construct(v)),
            Err(e) => Err(e),
        }
    }
}

/// Decides how `create_virtual_network` proceeds: a network that the local
/// catalog already has is returned as it is, with no kernel object made;
/// otherwise the network that the global catalog describes is built.
pub fn plan_network_creation(locally_present: bool, link: LinkKind) -> (r: Result<CreationStep, NetError>)
    ensures
        r == creation_step(locally_present, link),
{
    if locally_present {
        return Ok(CreationStep::ReturnExisting);
    }
    match select_construction(link) {
        Ok(v) => Ok(CreationStep::Construct(v)),
        Err(e) => Err(e),
    }
}

/// The work that deleting a virtual network takes, in order: the interfaces,
/// then the namespace with its worker, then the record.
pub struct TeardownPlan {
    pub interfaces: Vec<u128>,
    pub namespace: Option<u128>,
}

/// Plans the deletion of a network. A network with attached connection
/// points is refused before anything is touched.
pub fn plan_network_teardown(n: &VirtualNetwork, namespace: Option<u128>) -> (r: Result<TeardownPlan, NetError>)
    ensures
        n@.connection_points.len() > 0 <==> r is Err,
        match r {
            Ok(p) => p.interfaces@ == n@.interfaces && p.namespace == namespace,
            Err(e) => e == NetError::NetworkingError(FailureCause::ConnectionPointsAttached),
        },
{
    if n.connection_points.len() > 0 {
        return Err(NetError::NetworkingError(FailureCause::ConnectionPointsAttached));
    }
    Ok(TeardownPlan { interfaces: crate::catalog::copy_ids(&n.interfaces), namespace })
}

/// The outcome of deleting an interface inside a namespace, once its worker
/// has answered. A failure of the worker is forgiven for a veth end whose
/// peer is no longer recorded: the pair was already half torn down.
pub open spec fn namespace_deletion_outcome(worker_ok: bool, is_veth: bool, peer_recorded: bool) -> Result<(), NetError> {
    if worker_ok {
        Ok(())
    } else if is_veth && !peer_recorded {
        Ok(())
    } else if is_veth {
        Err(NetError::NetworkingError(FailureCause::VethPeerPresent))
    } else {
        Err(NetError::NetworkingError(FailureCause::Worker))
    }
}

/// Decides the outcome of deleting an interface inside a namespace.
pub fn settle_namespace_deletion(worker_ok: bool, is_veth: bool, peer_recorded: bool) -> (r: Result<(), NetError>)
    ensures
        r == namespace_deletion_outcome(worker_ok, is_veth, peer_recorded),
{
    if worker_ok {
        Ok(())
    } else if is_veth && !peer_recorded {
        Ok(())
    } else if is_veth {
        Err(NetError::NetworkingError(FailureCause::VethPeerPresent))
    } else {
        Err(NetError::NetworkingError(FailureCause::Worker))
    }
}

/// The namespace that a network's topology lives in.
#[derive(Clone, Debug)]
pub struct NetnsBinding {
    pub ns_id: u128,
    pub ns_name: String,
}

/// The files of a network's DHCP service.
#[derive(Clone, Debug)]
pub struct DhcpBinding {
    pub conf: String,
    pub pid_file: String,
    pub leases_file: String,
    pub log_file: String,
}

/// What the plugin keeps of a network it realized: its namespace, its DHCP
/// service and the netfilter tables made for it.
#[derive(Clone, Debug)]
pub struct NetworkInternals {
    pub netns: Option<NetnsBinding>,
    pub dhcp: Option<DhcpBinding>,
    pub tables: Vec<String>,
}

pub struct NetnsBindingView {
    pub ns_id: u128,
    pub ns_name: Seq<char>,
}

pub struct DhcpBindingView {
    pub conf: Seq<char>,
    pub pid_file: Seq<char>,
    pub leases_file: Seq<char>,
    pub log_file: Seq<char>,
}

pub struct NetworkInternalsView {
    pub netns: Option<NetnsBindingView>,
    pub dhcp: Option<DhcpBindingView>,
    pub tables: Seq<Seq<char>>,
}

impl View for NetnsBinding {
    type V = NetnsBindingView;

    open spec fn view(&self) -> NetnsBindingView {
        NetnsBindingView { ns_id: self.ns_id, ns_name: self.ns_name@ }
    }
}

impl View for DhcpBinding {
    type V = DhcpBindingView;

    open spec fn view(&self) -> DhcpBindingView {
        DhcpBindingView {
            conf: self.conf@,
            pid_file: self.pid_file@,
            leases_file: self.leases_file@,
            log_file: self.log_file@,
        }
    }
}

impl View for NetworkInternals {
    type V = NetworkInternalsView;

    open spec fn view(&self) -> NetworkInternalsView {
        NetworkInternalsView {
            netns: match self.netns {
                Some(b) => Some(b@),
                None => None,
            },
            dhcp: match self.dhcp {
                Some(d) => Some(d@),
                None => None,
            },
            tables: self.tables@.map_values(|t: String| t@),
        }
    }
}

/// The work that stopping the plugin takes for the default network, in
/// order: stop the DHCP service, remove the masquerade tables, delete the
/// interfaces in the reverse order of their creation, forget the record.
#[derive(Debug)]
pub struct StopPlan {
    pub dhcp: Option<DhcpBinding>,
    pub tables: Vec<String>,
    pub interfaces: Vec<u128>,
}

/// Plans the teardown of the default network when the plugin stops.
pub fn plan_default_teardown(n: &VirtualNetwork, internals: &NetworkInternals) -> (r: StopPlan)
    ensures
        match r.dhcp {
            Some(d) => internals@.dhcp == Some(d@),
            None => internals@.dhcp is None,
        },
        r.tables@.map_values(|t: String| t@) == internals@.tables,
        r.interfaces@.len() == n@.interfaces.len(),
        forall|i: int| 0 <= i < n@.interfaces.len()
            ==> #[trigger] r.interfaces@[i] == n@.interfaces[n@.interfaces.len() - 1 - i],
{
    let mut interfaces: Vec<u128> = Vec::new();
    let len = n.interfaces.len();
    let mut k: usize = 0;
    while k < len
        invariant
            len == n.interfaces@.len(),
            k <= len,
            interfaces@.len() == k,
            forall|i: int| 0 <= i < k ==> #[trigger] interfaces@[i] == n.interfaces@[len - 1 - i],
        decreases len - k,
    {
        interfaces.push(n.interfaces[len - 1 - k]);
        k = k + 1;
    }
    let dhcp = match &internals.dhcp {
        Some(d) => Some(DhcpBinding {
            conf: d.conf.clone(),
            pid_file: d.pid_file.clone(),
            leases_file: d.leases_file.clone(),
            log_file: d.log_file.clone(),
        }),
        None => None,
    };
    let mut tables: Vec<String> = Vec::new();
    let mut j: usize = 0;
    while j < internals.tables.len()
        invariant
            j <= internals.tables@.len(),
            tables@.len() == j,
            tables@.map_values(|t: String| t@) == internals@.tables.subrange(0, j as int),
        decreases internals.tables@.len() - j,
    {
        let ghost before = tables@;
        let t = internals.tables[j].clone();
        assert(t@ == internals@.tables[j as int]);
        tables.push(t);
        assert(tables@ == before.push(t));
        j = j + 1;
        let ghost views = tables@.map_values(|t: String| t@);
        assert forall|i: int| 0 <= i < j implies #[trigger] views[i]
            == internals@.tables.subrange(0, j as int)[i] by {
            if i < j - 1 {
                assert(tables@[i] == before[i]);
                assert(before.map_values(|t: String| t@)[i] == internals@.tables.subrange(0, j - 1)[i]);
            }
        }
        assert(views =~= internals@.tables.subrange(0, j as int));
    }
    assert(internals@.tables.subrange(0, internals.tables@.len() as int) =~= internals@.tables);
    StopPlan { dhcp, tables, interfaces }
}

} // verus!
