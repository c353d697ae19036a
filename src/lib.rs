//! Core logic of a Linux virtual-networking agent: the logical model of
//! virtual networks, interfaces and namespaces with its invariants, the
//! retry policy of the netlink driver, random kernel object names, the
//! source-NAT rule, the serialized internals of a network, the commands that
//! build and tear down a network's topology, and the fixed profile of the
//! node's default virtual network.
mod address;
mod backoff;
mod catalog;
mod codec;
mod commands;
mod error;
mod masquerade;
mod names;
mod network;
mod node;
mod process;

pub use address::{IpAddress, IpRange, IpSubnet, IpVersion};
pub use backoff::{Backoff, NetlinkOutcome, RetryAction, EBUSY};
pub use catalog::{
    Catalog, CatalogView, InterfaceDeletion, InterfaceKind, InterfaceView, MacAddress, NamespaceView,
    NetworkNamespace, VirtualInterface,
};
pub use codec::{deserialize_internals, serialize_internals};
pub use commands::{
    default_bridge, default_vxlan, new_id, plan_default_network, plan_interface_creation,
    plan_vxlan_construction, record_created_interface, Command, CommandView, InterfaceConfigKind,
    InterfacePlan, TopologyNames,
};
pub use error::{FailureCause, NetError};
pub use masquerade::{nat_rule, plan_nat, subnet_mask, NatRule, CHAIN_NAME, CHAIN_PRIORITY};
pub use names::{
    generate_random_interface_name, generate_random_netns_name, generate_random_nft_table_name,
};
pub use network::{
    default_virtual_network, plan_default_teardown, plan_network_creation, plan_network_teardown,
    select_construction, settle_namespace_deletion, CreationStep, DhcpBinding, IpConfiguration,
    IpConfigurationView, Ipv4Cidr, LinkKind, NetnsBinding, NetworkInternals, StopPlan, TeardownPlan,
    VirtualNetwork, VirtualNetworkView, VxlanVariant, DEFAULT_GATEWAY, DEFAULT_NETWORK_ID,
};
pub use node::{NetworkEntry, Node, NodeView, TopologyIds};
pub use process::{
    dhcp_arguments, dhcp_files, netns_path, worker_arguments, DhcpFiles, DHCP_PROGRAM,
    WORKER_PROGRAM,
};
