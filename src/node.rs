use vstd::prelude::*;
use std::collections::HashMap;
use crate::address::IpAddress;
use crate::catalog::{
    fresh_record, same_attributes, zero_mac, Catalog, CatalogView, InterfaceKind, InterfaceView, MacAddress,
    NamespaceView,
};
use crate::codec::{encode_internals, internals_fit, serialize_internals};
use crate::commands::{
    created_kind, default_bridge, default_bridge_name, default_vxlan, default_vxlan_name,
    record_created_interface, InterfaceConfigKind,
};
use crate::commands::TopologyNames;
use crate::process::fresh_id;
use crate::error::{FailureCause, NetError};
use crate::network::{
    creation_step, default_virtual_network, is_default_network, is_default_profile, CreationStep, DhcpBinding,
    DhcpBindingView, LinkKind, NetnsBinding, NetnsBindingView, NetworkInternals, NetworkInternalsView,
    VirtualNetwork, VirtualNetworkView, DEFAULT_GATEWAY, DEFAULT_MCAST_GROUP, DEFAULT_NETWORK_ID,
    DEFAULT_PORT, DEFAULT_VNI,
};

verus! {

broadcast use vstd::std_specs::hash::group_hash_axioms;

/// A network that this node realized, with the plugin's internals for it.
#[derive(Debug)]
pub struct NetworkEntry {
    pub network: VirtualNetwork,
    pub internals: NetworkInternals,
}

pub struct NetworkEntryView {
    pub network: VirtualNetworkView,
    pub internals: NetworkInternalsView,
}

impl View for NetworkEntry {
    type V = NetworkEntryView;

    open spec fn view(&self) -> NetworkEntryView {
        NetworkEntryView { network: self.network@, internals: self.internals@ }
    }
}

pub struct NodeView {
    pub catalog: CatalogView,
    /// The pid of each namespace's worker, by namespace.
    pub workers: Map<u128, u32>,
    pub networks: Map<u128, NetworkEntryView>,
}

impl NodeView {
    /// Every namespace that a network is bound to is recorded and has a
    /// registered worker.
    pub open spec fn bindings_consistent(self) -> bool {
        forall|k: u128| #[trigger] self.networks.contains_key(k) && self.networks[k].internals.netns is Some ==> {
            let n = self.networks[k].internals.netns.unwrap().ns_id;
            &&& self.catalog.namespaces.contains_key(n)
            &&& self.workers.contains_key(n)
        }
    }

    pub open spec fn wf(self) -> bool {
        &&& self.catalog.wf()
        &&& self.bindings_consistent()
        &&& forall|k: u128| #[trigger] self.networks.contains_key(k) ==> {
            &&& self.networks[k].network.id == k
            &&& (self.networks[k].internals.netns is Some ==> self.networks[k].internals.netns.unwrap().ns_id == k)
            &&& (k == DEFAULT_NETWORK_ID ==> is_default_network(self.networks[k].network))
        }
    }

    /// Why recording the realized network `e` is refused, if it is.
    pub open spec fn record_error(self, e: NetworkEntryView) -> Option<NetError> {
        if self.networks.contains_key(e.network.id) {
            Some(NetError::AlreadyPresent)
        } else if e.network.id == DEFAULT_NETWORK_ID && !is_default_network(e.network) {
            Some(NetError::WrongKind)
        } else if e.internals.netns is Some && e.internals.netns.unwrap().ns_id != e.network.id {
            Some(NetError::NotConnected)
        } else if e.internals.netns is Some && (!self.catalog.namespaces.contains_key(e.network.id)
            || !self.workers.contains_key(e.network.id)) {
            Some(NetError::NotFound)
        } else if exists|j: int| 0 <= j < e.network.interfaces.len()
            && !self.catalog.interfaces.contains_key(#[trigger] e.network.interfaces[j]) {
            Some(NetError::NotFound)
        } else {
            None
        }
    }

    /// Why deleting the network `id` is refused, if it is.
    pub open spec fn delete_error(self, id: u128) -> Option<NetError> {
        if !self.networks.contains_key(id) {
            Some(NetError::NotFound)
        } else if self.networks[id].network.connection_points.len() > 0 {
            Some(NetError::NetworkingError(FailureCause::ConnectionPointsAttached))
        } else {
            None
        }
    }

    /// Whether deleting the network `e` must keep interface `c`: it is
    /// recorded, neither listed by `e` nor the veth peer of a listed one, and
    /// neither in `e`'s namespace nor the veth peer of an interface there.
    pub open spec fn kept_by_deletion(self, e: NetworkEntryView, c: u128) -> bool {
        let rec = self.catalog.interfaces[c];
        &&& self.catalog.interfaces.contains_key(c)
        &&& forall|j: int| 0 <= j < e.network.interfaces.len() ==> {
            &&& #[trigger] e.network.interfaces[j] != c
            &&& !(rec.kind is Veth && rec.kind->peer == e.network.interfaces[j])
        }
        &&& match e.internals.netns {
            Some(b) => {
                &&& rec.ns != Some(b.ns_id)
                &&& !(rec.kind is Veth && self.catalog.interfaces[rec.kind->peer].ns == Some(b.ns_id))
            },
            None => true,
        }
    }

    /// Whether some network is bound to the namespace `n`.
    pub open spec fn namespace_bound(self, n: u128) -> bool {
        exists|k: u128| #[trigger] self.networks.contains_key(k) && self.networks[k].internals.netns is Some
            && self.networks[k].internals.netns.unwrap().ns_id == n
    }
}

/// The identifiers of the five interfaces of a VXLAN-backed network.
#[derive(Clone, Copy, Debug, PartialEq, Eq, Structural)]
pub struct TopologyIds {
    pub outer_bridge: u128,
    pub vxlan: u128,
    pub inner_bridge: u128,
    pub inner_veth: u128,
    pub outer_veth: u128,
}

impl TopologyIds {
    /// Fresh random identifiers.
    pub fn generate() -> (r: TopologyIds) {
        TopologyIds {
            outer_bridge: fresh_id(),
            vxlan: fresh_id(),
            inner_bridge: fresh_id(),
            inner_veth: fresh_id(),
            outer_veth: fresh_id(),
        }
    }

    /// The five identifiers are distinct and none of them is recorded yet.
    pub open spec fn fresh_in(self, c: CatalogView) -> bool {
        let ids = seq![self.outer_bridge, self.vxlan, self.inner_bridge, self.inner_veth, self.outer_veth];
        &&& ids.no_duplicates()
        &&& forall|j: int| 0 <= j < 5 ==> !c.interfaces.contains_key(#[trigger] ids[j])
    }

    /// Whether `k` is one of the five identifiers.
    pub open spec fn has(self, k: u128) -> bool {
        k == self.outer_bridge || k == self.vxlan || k == self.inner_bridge || k == self.inner_veth
            || k == self.outer_veth
    }
}

/// The internals of a network built on its own namespace `ns_id`: that
/// namespace, no DHCP service, no netfilter table.
pub open spec fn constructed_internals(ns_id: u128, ns_name: Seq<char>) -> NetworkInternalsView {
    NetworkInternalsView {
        netns: Some(NetnsBindingView { ns_id, ns_name }),
        dhcp: None,
        tables: Seq::empty(),
    }
}

/// The record of a network whose topology was built: the desired network
/// with the five interfaces appended in the order of their creation (outer
/// bridge, VXLAN, inner veth, outer veth, inner bridge) and its internals.
pub open spec fn constructed_network(desired: VirtualNetworkView, ids: TopologyIds, ns_name: Seq<char>) -> VirtualNetworkView {
    VirtualNetworkView {
        interfaces: desired.interfaces + seq![ids.outer_bridge, ids.vxlan, ids.inner_veth, ids.outer_veth, ids.inner_bridge],
        internals: Some(encode_internals(constructed_internals(desired.id, ns_name))),
        ..desired
    }
}

/// The internals of the default network: no namespace, the DHCP service if
/// one was started, the netfilter tables made for it.
pub open spec fn default_internals(dhcp: Option<DhcpBindingView>, tables: Seq<Seq<char>>) -> NetworkInternalsView {
    NetworkInternalsView { netns: None, dhcp, tables }
}

/// The state of the plugin on this node: the catalog, the worker of each
/// namespace, and the networks it realized. A network's namespace carries
/// the network's own identifier.
pub struct Node {
    catalog: Catalog,
    workers: HashMap<u128, u32>,
    networks: HashMap<u128, NetworkEntry>,
}

impl View for Node {
    type V = NodeView;

    closed spec fn view(&self) -> NodeView {
        NodeView {
            catalog: self.catalog@,
            workers: self.workers@,
            networks: Map::new(
                |k: u128| self.networks@.contains_key(k),
                |k: u128| self.networks@[k]@,
            ),
        }
    }
}

impl Node {
    /// A node with nothing realized.
    pub fn new() -> (n: Node)
        ensures
            n@.wf(),
            n@.catalog.interfaces.is_empty(),
            n@.catalog.namespaces.is_empty(),
            n@.workers.is_empty(),
            n@.networks.is_empty(),
    {
        let n = Node { catalog: Catalog::new(), workers: HashMap::new(), networks: HashMap::new() };
        assert(n@.networks =~= Map::empty());
        n
    }

    /// The pid of the worker of namespace `ns_id`.
    pub fn worker_pid(&self, ns_id: u128) -> (r: Result<u32, NetError>)
        ensures
            match r {
                Ok(pid) => self@.workers.contains_key(ns_id) && self@.workers[ns_id] == pid,
                Err(e) => !self@.workers.contains_key(ns_id) && e == NetError::NotFound,
            },
    {
        match self.workers.get(&ns_id) {
            Some(pid) => Ok(*pid),
            None => Err(NetError::NotFound),
        }
    }

    /// The network `id`, if it is realized here.
    pub fn network(&self, id: u128) -> (r: Option<&NetworkEntry>)
        ensures
            match r {
                Some(e) => self@.networks.contains_key(id) && e@ == self@.networks[id],
                None => !self@.networks.contains_key(id),
            },
    {
        self.networks.get(&id)
    }

    /// Whether the network `id` is realized here.
    pub fn has_network(&self, id: u128) -> (r: bool)
        ensures
            r == self@.networks.contains_key(id),
    {
        self.networks.contains_key(&id)
    }

    /// Records a namespace that was just created, with the pid of its worker.
    pub fn register_namespace(&mut self, ns_id: u128, ns_name: String, pid: u32) -> (r: Result<(), NetError>)
        requires
            old(self)@.wf(),
        ensures
            final(self)@.wf(),
            final(self)@.networks == old(self)@.networks,
            match r {
                Ok(()) => {
                    &&& !old(self)@.catalog.namespaces.contains_key(ns_id)
                    &&& !old(self)@.workers.contains_key(ns_id)
                    &&& final(self)@.catalog.interfaces == old(self)@.catalog.interfaces
                    &&& final(self)@.catalog.namespaces == old(self)@.catalog.namespaces.insert(ns_id, NamespaceView {
                        id: ns_id,
                        name: ns_name@,
                        interfaces: Seq::empty(),
                    })
                    &&& final(self)@.workers == old(self)@.workers.insert(ns_id, pid)
                },
                Err(e) => {
                    &&& e == NetError::AlreadyPresent
                    &&& final(self)@ == old(self)@
                    &&& (old(self)@.catalog.namespaces.contains_key(ns_id) || old(self)@.workers.contains_key(ns_id))
                },
            },
    {
        let ghost v0 = self@;
        if self.workers.contains_key(&ns_id) {
            return Err(NetError::AlreadyPresent);
        }
        match self.catalog.add_network_namespace(ns_id, ns_name) {
            Ok(()) => {},
            Err(e) => {
                assert(self@.networks =~= v0.networks);
                return Err(e);
            },
        }
        self.workers.insert(ns_id, pid);
        let ghost v1 = self@;
        assert(v1.networks =~= v0.networks);
        assert(v1.bindings_consistent()) by {
            assert forall|k: u128| #[trigger] v1.networks.contains_key(k) && v1.networks[k].internals.netns is Some implies {
                let n = v1.networks[k].internals.netns.unwrap().ns_id;
                &&& v1.catalog.namespaces.contains_key(n)
                &&& v1.workers.contains_key(n)
            } by {
                let n = v0.networks[k].internals.netns.unwrap().ns_id;
                assert(v0.catalog.namespaces.contains_key(n));
            }
        }
        Ok(())
    }

    /// Forgets the namespace `ns_id`, which must hold no interface and be
    /// bound to no network, and hands back the pid of its worker, to be signalled.
    pub fn unregister_namespace(&mut self, ns_id: u128) -> (r: Result<u32, NetError>)
        requires
            old(self)@.wf(),
        ensures
            final(self)@.wf(),
            final(self)@.networks == old(self)@.networks,
            r is Ok <==> {
                &&& old(self)@.catalog.namespaces.contains_key(ns_id)
                &&& old(self)@.workers.contains_key(ns_id)
                &&& !old(self)@.namespace_bound(ns_id)
                &&& old(self)@.catalog.namespaces[ns_id].interfaces.len() == 0
            },
            match r {
                Ok(pid) => {
                    &&& old(self)@.catalog.namespaces.contains_key(ns_id)
                    &&& old(self)@.workers.contains_key(ns_id)
                    &&& pid == old(self)@.workers[ns_id]
                    &&& !old(self)@.namespace_bound(ns_id)
                    &&& final(self)@.catalog.interfaces == old(self)@.catalog.interfaces
                    &&& final(self)@.catalog.namespaces == old(self)@.catalog.namespaces.remove(ns_id)
                    &&& final(self)@.workers == old(self)@.workers.remove(ns_id)
                },
                Err(e) => {
                    &&& final(self)@ == old(self)@
                    &&& e == if !old(self)@.catalog.namespaces.contains_key(ns_id) || !old(self)@.workers.contains_key(ns_id) {
                        NetError::NotFound
                    } else {
                        NetError::NetworkingError(FailureCause::NamespaceInUse)
                    }
                },
            },
    {
        let ghost v0 = self@;
        if !self.workers.contains_key(&ns_id) {
            return Err(NetError::NotFound);
        }
        match self.catalog.get_network_namespace(ns_id) {
            Ok(_) => {},
            Err(e) => return Err(e),
        }
        let bound = match self.networks.get(&ns_id) {
            Some(entry) => entry.internals.netns.is_some(),
            None => false,
        };
        proof {
            if v0.namespace_bound(ns_id) {
                let k = choose|k: u128| #[trigger] v0.networks.contains_key(k) && v0.networks[k].internals.netns is Some
                    && v0.networks[k].internals.netns.unwrap().ns_id == ns_id;
                assert(k == ns_id);
            }
        }
        if bound {
            assert(v0.networks.contains_key(ns_id) && v0.networks[ns_id].internals.netns is Some);
            assert(v0.networks[ns_id].internals.netns.unwrap().ns_id == ns_id);
            assert(v0.namespace_bound(ns_id));
            return Err(NetError::NetworkingError(FailureCause::NamespaceInUse));
        }
        match self.catalog.remove_network_namespace(ns_id) {
            Ok(()) => {},
            Err(e) => {
                assert(self@.networks =~= v0.networks);
                return Err(e);
            },
        }
        let pid = self.workers.remove(&ns_id).unwrap();
        let ghost v1 = self@;
        assert(v1.networks =~= v0.networks);
        assert(v1.bindings_consistent()) by {
            assert forall|k: u128| #[trigger] v1.networks.contains_key(k) && v1.networks[k].internals.netns is Some implies {
                let n = v1.networks[k].internals.netns.unwrap().ns_id;
                &&& v1.catalog.namespaces.contains_key(n)
                &&& v1.workers.contains_key(n)
            } by {
                let n = v0.networks[k].internals.netns.unwrap().ns_id;
                assert(n != ns_id);
            }
        }
        Ok(pid)
    }

    /// The catalog, to be read.
    pub fn catalog(&self) -> (r: &Catalog)
        ensures
            r@ == self@.catalog,
    {
        &self.catalog
    }

    /// Attaches interface `i` to the bridge `b`: `i` records `b` as its
    /// parent and `b` lists `i` among its children.
    pub fn attach_interface_to_bridge(&mut self, i: u128, b: u128) -> (r: Result<(), NetError>)
        requires
            old(self)@.wf(),
        ensures
            final(self)@.wf(),
            final(self)@.networks == old(self)@.networks,
            final(self)@.workers == old(self)@.workers,
            final(self)@.catalog.namespaces.dom() == old(self)@.catalog.namespaces.dom(),
            match r {
                Ok(()) => old(self)@.catalog.attach_error(i, b) is None && final(self)@.catalog == old(self)@.catalog.attached(i, b),
                Err(e) => old(self)@.catalog.attach_error(i, b) == Some(e) && final(self)@.catalog == old(self)@.catalog,
            },
    {
        let ghost v0 = self@;
        let r = self.catalog.attach_interface_to_bridge(i, b);
        proof {
            lemma_catalog_step(v0, self@);
        }
        r
    }

    /// Detaches interface `i` from the bridge it is attached to.
    pub fn detach_interface_from_bridge(&mut self, i: u128) -> (r: Result<(), NetError>)
        requires
            old(self)@.wf(),
        ensures
            final(self)@.wf(),
            final(self)@.networks == old(self)@.networks,
            final(self)@.workers == old(self)@.workers,
            final(self)@.catalog.namespaces.dom() == old(self)@.catalog.namespaces.dom(),
            match r {
                Ok(()) => old(self)@.catalog.detach_error(i) is None && final(self)@.catalog == old(self)@.catalog.detached(i),
                Err(e) => old(self)@.catalog.detach_error(i) == Some(e) && final(self)@.catalog == old(self)@.catalog,
            },
    {
        let ghost v0 = self@;
        let r = self.catalog.detach_interface_from_bridge(i);
        proof {
            lemma_catalog_step(v0, self@);
        }
        r
    }

    /// Moves interface `i` into the namespace `n`, out of the one it was in.
    pub fn move_interface_into_namespace(&mut self, i: u128, n: u128) -> (r: Result<(), NetError>)
        requires
            old(self)@.wf(),
        ensures
            final(self)@.wf(),
            final(self)@.networks == old(self)@.networks,
            final(self)@.workers == old(self)@.workers,
            final(self)@.catalog.namespaces.dom() == old(self)@.catalog.namespaces.dom(),
            match r {
                Ok(()) => old(self)@.catalog.move_error(i, n) is None && final(self)@.catalog == old(self)@.catalog.moved(i, n),
                Err(e) => old(self)@.catalog.move_error(i, n) == Some(e) && final(self)@.catalog == old(self)@.catalog,
            },
    {
        let ghost v0 = self@;
        let r = self.catalog.move_interface_into_namespace(i, n);
        proof {
            lemma_catalog_step(v0, self@);
        }
        r
    }

    /// Moves interface `i` out of the namespace it is in, if any, into the
    /// default namespace.
    pub fn move_interface_into_default_namespace(&mut self, i: u128) -> (r: Result<(), NetError>)
        requires
            old(self)@.wf(),
        ensures
            final(self)@.wf(),
            final(self)@.networks == old(self)@.networks,
            final(self)@.workers == old(self)@.workers,
            final(self)@.catalog.namespaces.dom() == old(self)@.catalog.namespaces.dom(),
            match r {
                Ok(()) => old(self)@.catalog.interfaces.contains_key(i) && final(self)@.catalog == old(self)@.catalog.moved_to_default(i),
                Err(e) => !old(self)@.catalog.interfaces.contains_key(i) && e == NetError::NotFound && final(self)@.catalog == old(self)@.catalog,
            },
    {
        let ghost v0 = self@;
        let r = self.catalog.move_interface_into_default_namespace(i);
        proof {
            lemma_catalog_step(v0, self@);
        }
        r
    }

    /// Gives interface `i` a new name.
    pub fn rename_interface(&mut self, i: u128, name: String) -> (r: Result<(), NetError>)
        requires
            old(self)@.wf(),
        ensures
            final(self)@.wf(),
            final(self)@.networks == old(self)@.networks,
            final(self)@.workers == old(self)@.workers,
            final(self)@.catalog.namespaces.dom() == old(self)@.catalog.namespaces.dom(),
            match r {
                Ok(()) => {
                    &&& old(self)@.catalog.interfaces.contains_key(i)
                    &&& final(self)@.catalog == (CatalogView {
                        interfaces: old(self)@.catalog.interfaces.insert(i, InterfaceView { name: name@, ..old(self)@.catalog.interfaces[i] }),
                        namespaces: old(self)@.catalog.namespaces,
                    })
                },
                Err(e) => !old(self)@.catalog.interfaces.contains_key(i) && e == NetError::NotFound && final(self)@.catalog == old(self)@.catalog,
            },
    {
        let ghost v0 = self@;
        let r = self.catalog.rename_interface(i, name);
        proof {
            lemma_catalog_step(v0, self@);
        }
        r
    }

    /// Adds the address `addr` to interface `i`.
    pub fn add_address(&mut self, i: u128, addr: IpAddress) -> (r: Result<(), NetError>)
        requires
            old(self)@.wf(),
        ensures
            final(self)@.wf(),
            final(self)@.networks == old(self)@.networks,
            final(self)@.workers == old(self)@.workers,
            final(self)@.catalog.namespaces.dom() == old(self)@.catalog.namespaces.dom(),
            match r {
                Ok(()) => {
                    &&& old(self)@.catalog.interfaces.contains_key(i)
                    &&& final(self)@.catalog == (CatalogView {
                        interfaces: old(self)@.catalog.interfaces.insert(i, InterfaceView {
                            addresses: old(self)@.catalog.interfaces[i].addresses.push(addr),
                            ..old(self)@.catalog.interfaces[i]
                        }),
                        namespaces: old(self)@.catalog.namespaces,
                    })
                },
                Err(e) => !old(self)@.catalog.interfaces.contains_key(i) && e == NetError::NotFound && final(self)@.catalog == old(self)@.catalog,
            },
    {
        let ghost v0 = self@;
        let r = self.catalog.add_address(i, addr);
        proof {
            lemma_catalog_step(v0, self@);
        }
        r
    }

    /// Sets the addresses of interface `i` to those that were found on it.
    pub fn set_addresses(&mut self, i: u128, addresses: Vec<IpAddress>) -> (r: Result<(), NetError>)
        requires
            old(self)@.wf(),
        ensures
            final(self)@.wf(),
            final(self)@.networks == old(self)@.networks,
            final(self)@.workers == old(self)@.workers,
            final(self)@.catalog.namespaces.dom() == old(self)@.catalog.namespaces.dom(),
            match r {
                Ok(()) => {
                    &&& old(self)@.catalog.interfaces.contains_key(i)
                    &&& final(self)@.catalog == (CatalogView {
                        interfaces: old(self)@.catalog.interfaces.insert(i, InterfaceView {
                            addresses: addresses@,
                            ..old(self)@.catalog.interfaces[i]
                        }),
                        namespaces: old(self)@.catalog.namespaces,
                    })
                },
                Err(e) => !old(self)@.catalog.interfaces.contains_key(i) && e == NetError::NotFound && final(self)@.catalog == old(self)@.catalog,
            },
    {
        let ghost v0 = self@;
        let r = self.catalog.set_addresses(i, addresses);
        proof {
            lemma_catalog_step(v0, self@);
        }
        r
    }

    /// Takes the first occurrence of the address `addr` off interface `i`.
    pub fn remove_address(&mut self, i: u128, addr: IpAddress) -> (r: Result<(), NetError>)
        requires
            old(self)@.wf(),
        ensures
            final(self)@.wf(),
            final(self)@.networks == old(self)@.networks,
            final(self)@.workers == old(self)@.workers,
            final(self)@.catalog.namespaces.dom() == old(self)@.catalog.namespaces.dom(),
            match r {
                Ok(()) => {
                    &&& old(self)@.catalog.interfaces.contains_key(i)
                    &&& exists|p: int| {
                        &&& 0 <= p < old(self)@.catalog.interfaces[i].addresses.len()
                        &&& old(self)@.catalog.interfaces[i].addresses[p] == addr
                        &&& (forall|j: int| 0 <= j < p ==> old(self)@.catalog.interfaces[i].addresses[j] != addr)
                        &&& #[trigger] final(self)@.catalog == (CatalogView {
                            interfaces: old(self)@.catalog.interfaces.insert(i, InterfaceView {
                                addresses: old(self)@.catalog.interfaces[i].addresses.remove(p),
                                ..old(self)@.catalog.interfaces[i]
                            }),
                            namespaces: old(self)@.catalog.namespaces,
                        })
                    }
                },
                Err(e) => {
                    &&& final(self)@.catalog == old(self)@.catalog
                    &&& e == if !old(self)@.catalog.interfaces.contains_key(i) {
                        NetError::NotFound
                    } else {
                        NetError::NotConnected
                    }
                    &&& (old(self)@.catalog.interfaces.contains_key(i) ==> !old(self)@.catalog.interfaces[i].addresses.contains(addr))
                },
            },
    {
        let ghost v0 = self@;
        let r = self.catalog.remove_address(i, addr);
        proof {
            lemma_catalog_step(v0, self@);
        }
        r
    }

    /// Sets the MAC address of interface `i`.
    pub fn set_mac(&mut self, i: u128, mac: MacAddress) -> (r: Result<(), NetError>)
        requires
            old(self)@.wf(),
        ensures
            final(self)@.wf(),
            final(self)@.networks == old(self)@.networks,
            final(self)@.workers == old(self)@.workers,
            final(self)@.catalog.namespaces.dom() == old(self)@.catalog.namespaces.dom(),
            match r {
                Ok(()) => {
                    &&& old(self)@.catalog.interfaces.contains_key(i)
                    &&& final(self)@.catalog == (CatalogView {
                        interfaces: old(self)@.catalog.interfaces.insert(i, InterfaceView { mac, ..old(self)@.catalog.interfaces[i] }),
                        namespaces: old(self)@.catalog.namespaces,
                    })
                },
                Err(e) => !old(self)@.catalog.interfaces.contains_key(i) && e == NetError::NotFound && final(self)@.catalog == old(self)@.catalog,
            },
    {
        let ghost v0 = self@;
        let r = self.catalog.set_mac(i, mac);
        proof {
            lemma_catalog_step(v0, self@);
        }
        r
    }

    /// Removes interface `i` from the catalog, with every link to it; a veth
    /// end is removed together with its peer.
    pub fn remove_interface(&mut self, i: u128) -> (r: Result<(), NetError>)
        requires
            old(self)@.wf(),
        ensures
            final(self)@.wf(),
            final(self)@.networks == old(self)@.networks,
            final(self)@.workers == old(self)@.workers,
            final(self)@.catalog.namespaces.dom() == old(self)@.catalog.namespaces.dom(),
            forall|c: u128| #[trigger] final(self)@.catalog.interfaces.contains_key(c) ==> {
                &&& old(self)@.catalog.interfaces.contains_key(c)
                &&& same_attributes(final(self)@.catalog.interfaces[c], old(self)@.catalog.interfaces[c])
            },
            forall|c: u128| #[trigger] old(self)@.catalog.interfaces.contains_key(c) && c != i
                && !(old(self)@.catalog.interfaces[i].kind is Veth && c == old(self)@.catalog.interfaces[i].kind->peer)
                ==> final(self)@.catalog.interfaces.contains_key(c),
            match r {
                Ok(()) => old(self)@.catalog.interfaces.contains_key(i) && final(self)@.catalog == old(self)@.catalog.removed(i),
                Err(e) => !old(self)@.catalog.interfaces.contains_key(i) && e == NetError::NotFound && final(self)@.catalog == old(self)@.catalog,
            },
    {
        let ghost v0 = self@;
        let r = self.catalog.remove_interface(i);
        proof {
            lemma_catalog_step(v0, self@);
        }
        r
    }

    /// Removes interface `i` when it is of the kind `expected`; an interface
    /// inside a namespace is removed whatever its kind, as its worker decides.
    pub fn remove_interface_expecting(&mut self, i: u128, expected: InterfaceKind) -> (r: Result<(), NetError>)
        requires
            old(self)@.wf(),
        ensures
            final(self)@.wf(),
            final(self)@.networks == old(self)@.networks,
            final(self)@.workers == old(self)@.workers,
            final(self)@.catalog.namespaces.dom() == old(self)@.catalog.namespaces.dom(),
            match r {
                Ok(()) => {
                    &&& old(self)@.catalog.interfaces.contains_key(i)
                    &&& (old(self)@.catalog.interfaces[i].ns is Some || old(self)@.catalog.interfaces[i].kind == expected)
                    &&& final(self)@.catalog == old(self)@.catalog.removed(i)
                },
                Err(e) => {
                    &&& final(self)@.catalog == old(self)@.catalog
                    &&& e == if !old(self)@.catalog.interfaces.contains_key(i) {
                        NetError::NotFound
                    } else {
                        NetError::WrongKind
                    }
                    &&& (old(self)@.catalog.interfaces.contains_key(i) ==> old(self)@.catalog.interfaces[i].ns is None
                        && old(self)@.catalog.interfaces[i].kind != expected)
                },
            },
    {
        let ghost v0 = self@;
        let r = self.catalog.remove_interface_expecting(i, expected);
        proof {
            lemma_catalog_step(v0, self@);
        }
        r
    }

    /// Removes interface `i`, which must be inside the namespace `n`.
    pub fn remove_interface_in_namespace(&mut self, i: u128, n: u128) -> (r: Result<(), NetError>)
        requires
            old(self)@.wf(),
        ensures
            final(self)@.wf(),
            final(self)@.networks == old(self)@.networks,
            final(self)@.workers == old(self)@.workers,
            final(self)@.catalog.namespaces.dom() == old(self)@.catalog.namespaces.dom(),
            match r {
                Ok(()) => {
                    &&& old(self)@.catalog.interfaces.contains_key(i)
                    &&& old(self)@.catalog.interfaces[i].ns == Some(n)
                    &&& final(self)@.catalog == old(self)@.catalog.removed(i)
                },
                Err(e) => {
                    &&& final(self)@.catalog == old(self)@.catalog
                    &&& e == if !old(self)@.catalog.namespaces.contains_key(n) || !old(self)@.catalog.interfaces.contains_key(i) {
                        NetError::NotFound
                    } else {
                        NetError::NotConnected
                    }
                    &&& (old(self)@.catalog.namespaces.contains_key(n) && old(self)@.catalog.interfaces.contains_key(i)
                        ==> old(self)@.catalog.interfaces[i].ns != Some(n))
                },
            },
    {
        let ghost v0 = self@;
        let r = self.catalog.remove_interface_in_namespace(i, n);
        proof {
            lemma_catalog_step(v0, self@);
        }
        r
    }

    /// Records a veth pair created inside the namespace `n`: both ends in
    /// `n`, the first the internal one.
    pub fn add_veth_pair_in_namespace(
        &mut self,
        internal_id: u128,
        internal_name: String,
        external_id: u128,
        external_name: String,
        n: u128,
    ) -> (r: Result<(), NetError>)
        requires
            old(self)@.wf(),
        ensures
            final(self)@.wf(),
            final(self)@.networks == old(self)@.networks,
            final(self)@.workers == old(self)@.workers,
            final(self)@.catalog.namespaces.dom() == old(self)@.catalog.namespaces.dom(),
            r is Ok <==> {
                &&& old(self)@.catalog.namespaces.contains_key(n)
                &&& !old(self)@.catalog.interfaces.contains_key(internal_id)
                &&& !old(self)@.catalog.interfaces.contains_key(external_id)
                &&& internal_id != external_id
            },
            r is Err ==> final(self)@.catalog == old(self)@.catalog,
            match r {
                Ok(()) => final(self)@.catalog == (CatalogView {
                    interfaces: old(self)@.catalog.interfaces
                        .insert(internal_id, fresh_record(internal_id, internal_name@, Some(n),
                            InterfaceKind::Veth { peer: external_id, internal: true }))
                        .insert(external_id, fresh_record(external_id, external_name@, Some(n),
                            InterfaceKind::Veth { peer: internal_id, internal: false })),
                    namespaces: old(self)@.catalog.namespaces.insert(n, NamespaceView {
                        interfaces: old(self)@.catalog.namespaces[n].interfaces.push(internal_id).push(external_id),
                        ..old(self)@.catalog.namespaces[n]
                    }),
                }),
                Err(e) => e == if !old(self)@.catalog.namespaces.contains_key(n) {
                    NetError::NotFound
                } else {
                    NetError::AlreadyPresent
                },
            },
    {
        let ghost v0 = self@;
        let r = self.catalog.add_veth_pair_in_namespace(internal_id, internal_name, external_id, external_name, n);
        proof {
            lemma_catalog_step(v0, self@);
        }
        r
    }

    /// Records an interface that was created on request: a veth pair under
    /// `id` (internal end, named `name`) and `peer_id` (external end, named
    /// `peer`), any other built kind under `id` alone.
    pub fn record_created_interface(
        &mut self,
        id: u128,
        name: String,
        kind: InterfaceConfigKind,
        peer_id: u128,
        peer: String,
    ) -> (r: Result<(), NetError>)
        requires
            old(self)@.wf(),
        ensures
            final(self)@.wf(),
            final(self)@.networks == old(self)@.networks,
            final(self)@.workers == old(self)@.workers,
            r is Ok <==> match kind {
                InterfaceConfigKind::Veth => {
                    &&& !old(self)@.catalog.interfaces.contains_key(id)
                    &&& !old(self)@.catalog.interfaces.contains_key(peer_id)
                    &&& id != peer_id
                },
                _ => created_kind(kind) is Some && !old(self)@.catalog.interfaces.contains_key(id),
            },
            r is Err ==> final(self)@.catalog == old(self)@.catalog,
            r is Ok ==> final(self)@.catalog == (CatalogView {
                interfaces: match kind {
                    InterfaceConfigKind::Veth => old(self)@.catalog.interfaces
                        .insert(id, fresh_record(id, name@, None, InterfaceKind::Veth { peer: peer_id, internal: true }))
                        .insert(peer_id, fresh_record(peer_id, peer@, None, InterfaceKind::Veth { peer: id, internal: false })),
                    _ => old(self)@.catalog.interfaces.insert(id, fresh_record(id, name@, None, created_kind(kind).unwrap())),
                },
                namespaces: old(self)@.catalog.namespaces,
            }),
    {
        let ghost v0 = self@;
        let r = record_created_interface(&mut self.catalog, id, name, kind, peer_id, peer);
        proof {
            lemma_catalog_step(v0, self@);
        }
        r
    }

    /// Deletes the namespace `ns_id`, which no network may be bound to: every
    /// interface in it, each veth end with its peer, then its record and its
    /// worker. Hands back the worker's pid, to be signalled, and the
    /// namespace's name, to be deleted from the kernel.
    pub fn delete_network_namespace(&mut self, ns_id: u128) -> (r: Result<(u32, String), NetError>)
        requires
            old(self)@.wf(),
        ensures
            final(self)@.wf(),
            final(self)@.networks == old(self)@.networks,
            r is Ok <==> {
                &&& old(self)@.catalog.namespaces.contains_key(ns_id)
                &&& old(self)@.workers.contains_key(ns_id)
                &&& !old(self)@.namespace_bound(ns_id)
            },
            match r {
                Ok((pid, name)) => {
                    &&& pid == old(self)@.workers[ns_id]
                    &&& name@ == old(self)@.catalog.namespaces[ns_id].name
                    &&& final(self)@.workers == old(self)@.workers.remove(ns_id)
                    &&& final(self)@.catalog.namespaces.dom() == old(self)@.catalog.namespaces.dom().remove(ns_id)
                    &&& forall|c: u128| #[trigger] final(self)@.catalog.interfaces.contains_key(c) ==> {
                        &&& old(self)@.catalog.interfaces.contains_key(c)
                        &&& same_attributes(final(self)@.catalog.interfaces[c], old(self)@.catalog.interfaces[c])
                        &&& final(self)@.catalog.interfaces[c].ns != Some(ns_id)
                    }
                    &&& forall|c: u128| #[trigger] old(self)@.catalog.interfaces.contains_key(c)
                        && old(self)@.catalog.interfaces[c].ns != Some(ns_id)
                        && !(old(self)@.catalog.interfaces[c].kind is Veth
                            && old(self)@.catalog.interfaces[old(self)@.catalog.interfaces[c].kind->peer].ns == Some(ns_id))
                        ==> final(self)@.catalog.interfaces.contains_key(c)
                },
                Err(e) => {
                    &&& final(self)@ == old(self)@
                    &&& e == if !old(self)@.catalog.namespaces.contains_key(ns_id) || !old(self)@.workers.contains_key(ns_id) {
                        NetError::NotFound
                    } else {
                        NetError::NetworkingError(FailureCause::NamespaceInUse)
                    }
                },
            },
    {
        let ghost v0 = self@;
        if !self.workers.contains_key(&ns_id) {
            return Err(NetError::NotFound);
        }
        let name = match self.catalog.get_network_namespace(ns_id) {
            Ok(ns) => ns.name,
            Err(e) => return Err(e),
        };
        let bound = match self.networks.get(&ns_id) {
            Some(entry) => entry.internals.netns.is_some(),
            None => false,
        };
        proof {
            if v0.namespace_bound(ns_id) {
                let k = choose|k: u128| #[trigger] v0.networks.contains_key(k) && v0.networks[k].internals.netns is Some
                    && v0.networks[k].internals.netns.unwrap().ns_id == ns_id;
                assert(k == ns_id);
            }
        }
        if bound {
            assert(v0.networks.contains_key(ns_id) && v0.networks[ns_id].internals.netns is Some);
            assert(v0.namespace_bound(ns_id));
            return Err(NetError::NetworkingError(FailureCause::NamespaceInUse));
        }
        let _ = self.catalog.clear_namespace(ns_id);
        proof {
            lemma_catalog_step(v0, self@);
        }
        let ghost v1 = self@;
        assert forall|c: u128| #[trigger] v1.catalog.interfaces.contains_key(c) implies v1.catalog.interfaces[c].ns != Some(ns_id) by {
            if v1.catalog.interfaces[c].ns == Some(ns_id) {
                assert(v1.catalog.namespaces[ns_id].interfaces.contains(c));
            }
        }
        let pid = match self.unregister_namespace(ns_id) {
            Ok(pid) => pid,
            Err(e) => return Err(e),
        };
        assert(self@.catalog.namespaces.dom() =~= v0.catalog.namespaces.dom().remove(ns_id));
        Ok((pid, name))
    }

    /// Records a network whose topology was realized; a bound namespace must
    /// carry the network's identifier, be recorded and have its worker.
    pub fn record_network(&mut self, e: NetworkEntry) -> (r: Result<(), NetError>)
        requires
            old(self)@.wf(),
        ensures
            final(self)@.wf(),
            match r {
                Ok(()) => {
                    &&& old(self)@.record_error(e@) is None
                    &&& final(self)@ == (NodeView {
                        networks: old(self)@.networks.insert(e.network.id, e@),
                        ..old(self)@
                    })
                },
                Err(err) => old(self)@.record_error(e@) == Some(err) && final(self)@ == old(self)@,
            },
    {
        let ghost v0 = self@;
        let ghost ev = e@;
        let id = e.network.id;
        if self.networks.contains_key(&id) {
            return Err(NetError::AlreadyPresent);
        }
        if id == DEFAULT_NETWORK_ID && !is_default_profile(&e.network) {
            return Err(NetError::WrongKind);
        }
        let bound = match &e.internals.netns {
            Some(b) => {
                if b.ns_id != id {
                    return Err(NetError::NotConnected);
                }
                true
            },
            None => false,
        };
        if bound {
            if !self.workers.contains_key(&id) {
                return Err(NetError::NotFound);
            }
            match self.catalog.get_network_namespace(id) {
                Ok(_) => {},
                Err(err) => return Err(err),
            }
        }
        let n = e.network.interfaces.len();
        let mut j: usize = 0;
        while j < n
            invariant
                n == e.network.interfaces@.len(),
                j <= n,
                self@ == v0,
                v0.wf(),
                ev == e@,
                id == e.network.id,
                !v0.networks.contains_key(id),
                id == DEFAULT_NETWORK_ID ==> is_default_network(ev.network),
                ev.internals.netns is Some ==> {
                    &&& ev.internals.netns.unwrap().ns_id == id
                    &&& v0.catalog.namespaces.contains_key(id)
                    &&& v0.workers.contains_key(id)
                },
                forall|q: int| 0 <= q < j ==> v0.catalog.interfaces.contains_key(#[trigger] e.network.interfaces@[q]),
            decreases n - j,
        {
            if self.catalog.get_interface(e.network.interfaces[j]).is_err() {
                assert(!v0.catalog.interfaces.contains_key(ev.network.interfaces[j as int]));
                return Err(NetError::NotFound);
            }
            j = j + 1;
        }
        self.networks.insert(id, e);
        let ghost v1 = self@;
        assert(v1.networks =~= v0.networks.insert(id, ev));
        Ok(())
    }

    /// Deletes the network `id` from the model: the interfaces it lists (one
    /// already gone, such as a veth end removed with its peer, is skipped),
    /// then its namespace with every interface still in it, then its record. Hands
    /// back the record and the pid of the namespace's worker, to be signalled.
    /// A network with attached connection points is left as it is.
    pub fn delete_virtual_network(&mut self, id: u128) -> (r: Result<(NetworkEntry, Option<u32>), NetError>)
        requires
            old(self)@.wf(),
        ensures
            final(self)@.wf(),
            match r {
                Ok((e, pid)) => {
                    &&& old(self)@.delete_error(id) is None
                    &&& e@ == old(self)@.networks[id]
                    &&& final(self)@.networks == old(self)@.networks.remove(id)
                    &&& forall|k: u128| #[trigger] final(self)@.catalog.interfaces.contains_key(k)
                        ==> old(self)@.catalog.interfaces.contains_key(k)
                    &&& forall|j: int| 0 <= j < e@.network.interfaces.len()
                        ==> !(#[trigger] final(self)@.catalog.interfaces.contains_key(e@.network.interfaces[j]))
                    &&& forall|c: u128| #[trigger] old(self)@.kept_by_deletion(e@, c) ==> {
                        &&& final(self)@.catalog.interfaces.contains_key(c)
                        &&& same_attributes(final(self)@.catalog.interfaces[c], old(self)@.catalog.interfaces[c])
                    }
                    &&& match e@.internals.netns {
                        Some(b) => {
                            &&& pid == Some(old(self)@.workers[b.ns_id])
                            &&& final(self)@.catalog.namespaces.dom() == old(self)@.catalog.namespaces.dom().remove(b.ns_id)
                            &&& final(self)@.workers == old(self)@.workers.remove(b.ns_id)
                        },
                        None => {
                            &&& pid is None
                            &&& final(self)@.catalog.namespaces.dom() == old(self)@.catalog.namespaces.dom()
                            &&& final(self)@.workers == old(self)@.workers
                        },
                    }
                },
                Err(err) => old(self)@.delete_error(id) == Some(err) && final(self)@ == old(self)@,
            },
    {
        let ghost v0 = self@;
        match self.networks.get(&id) {
            Some(entry) => {
                if entry.network.connection_points.len() > 0 {
                    return Err(NetError::NetworkingError(FailureCause::ConnectionPointsAttached));
                }
            },
            None => return Err(NetError::NotFound),
        }
        let entry = self.networks.remove(&id).unwrap();
        assert(self@.networks =~= v0.networks.remove(id));
        let n = entry.network.interfaces.len();
        let mut k: usize = 0;
        while k < n
            invariant
                n == entry.network.interfaces@.len(),
                k <= n,
                self@.catalog.wf(),
                self@.networks == v0.networks.remove(id),
                self@.workers == v0.workers,
                self@.catalog.namespaces.dom() == v0.catalog.namespaces.dom(),
                forall|q: u128| #[trigger] self@.catalog.interfaces.contains_key(q) ==> v0.catalog.interfaces.contains_key(q)
                    && same_attributes(self@.catalog.interfaces[q], v0.catalog.interfaces[q]),
                forall|j: int| 0 <= j < k ==> !(#[trigger] self@.catalog.interfaces.contains_key(entry.network.interfaces@[j])),
                forall|c: u128| #[trigger] v0.catalog.interfaces.contains_key(c)
                    && (forall|j: int| 0 <= j < k ==> {
                        &&& #[trigger] entry.network.interfaces@[j] != c
                        &&& !(v0.catalog.interfaces[c].kind is Veth
                            && v0.catalog.interfaces[c].kind->peer == entry.network.interfaces@[j])
                    })
                    ==> self@.catalog.interfaces.contains_key(c),
            decreases n - k,
        {
            let ghost before = self@.catalog;
            let x = entry.network.interfaces[k];
            let _ = self.catalog.remove_interface(x);
            assert forall|q: u128| #[trigger] self@.catalog.interfaces.contains_key(q) implies v0.catalog.interfaces.contains_key(q)
                && same_attributes(self@.catalog.interfaces[q], v0.catalog.interfaces[q]) by {
                assert(before.interfaces.contains_key(q));
            }
            assert forall|c: u128| #[trigger] v0.catalog.interfaces.contains_key(c)
                && (forall|j: int| 0 <= j < k + 1 ==> {
                    &&& #[trigger] entry.network.interfaces@[j] != c
                    &&& !(v0.catalog.interfaces[c].kind is Veth
                        && v0.catalog.interfaces[c].kind->peer == entry.network.interfaces@[j])
                })
                implies self@.catalog.interfaces.contains_key(c) by {
                assert(entry.network.interfaces@[k as int] == x);
                assert(x != c);
                assert(before.interfaces.contains_key(c));
                if before.interfaces.contains_key(x) && before.interfaces[x].kind is Veth
                    && c == before.interfaces[x].kind->peer {
                    assert(before.interfaces[c].kind->peer == x);
                    assert(false);
                }
            }
            assert forall|j: int| 0 <= j < k + 1 implies !(#[trigger] self@.catalog.interfaces.contains_key(entry.network.interfaces@[j])) by {
                if j < k {
                    assert(!before.interfaces.contains_key(entry.network.interfaces@[j]));
                }
            }
            k = k + 1;
        }
        let ghost v2 = self@;
        assert(v2.bindings_consistent()) by {
            assert forall|q: u128| #[trigger] v2.networks.contains_key(q) && v2.networks[q].internals.netns is Some implies {
                let m = v2.networks[q].internals.netns.unwrap().ns_id;
                &&& v2.catalog.namespaces.contains_key(m)
                &&& v2.workers.contains_key(m)
            } by {
                assert(v0.networks.contains_key(q));
                assert(v0.catalog.namespaces.contains_key(v0.networks[q].internals.netns.unwrap().ns_id));
            }
        }
        let pid = match &entry.internals.netns {
            Some(b) => {
                let ns_id = b.ns_id;
                assert(ns_id == id);
                let ghost before = self@.catalog;
                let _ = self.catalog.clear_namespace(ns_id);
                assert forall|c: u128| #[trigger] v0.kept_by_deletion(entry@, c) implies {
                    &&& self@.catalog.interfaces.contains_key(c)
                    &&& same_attributes(self@.catalog.interfaces[c], v0.catalog.interfaces[c])
                } by {
                    assert(entry@.network.interfaces == entry.network.interfaces@);
                    assert forall|j: int| 0 <= j < n implies {
                        &&& #[trigger] entry.network.interfaces@[j] != c
                        &&& !(v0.catalog.interfaces[c].kind is Veth
                            && v0.catalog.interfaces[c].kind->peer == entry.network.interfaces@[j])
                    } by {
                        assert(entry@.network.interfaces[j] == entry.network.interfaces@[j]);
                    }
                    assert(before.interfaces.contains_key(c));
                    if before.interfaces[c].kind is Veth {
                        let p = before.interfaces[c].kind->peer;
                        assert(before.interfaces.contains_key(p));
                    }
                }
                let ghost v3 = self@;
                assert(v3.bindings_consistent()) by {
                    assert forall|q: u128| #[trigger] v3.networks.contains_key(q) && v3.networks[q].internals.netns is Some implies {
                        let m = v3.networks[q].internals.netns.unwrap().ns_id;
                        &&& v3.catalog.namespaces.contains_key(m)
                        &&& v3.workers.contains_key(m)
                    } by {
                        assert(v2.catalog.namespaces.contains_key(v2.networks[q].internals.netns.unwrap().ns_id));
                    }
                }
                assert(!v3.namespace_bound(ns_id)) by {
                    if v3.namespace_bound(ns_id) {
                        let q = choose|q: u128| #[trigger] v3.networks.contains_key(q) && v3.networks[q].internals.netns is Some
                            && v3.networks[q].internals.netns.unwrap().ns_id == ns_id;
                        assert(q == ns_id);
                    }
                }
                let r = match self.unregister_namespace(ns_id) {
                    Ok(pid) => Some(pid),
                    Err(_) => None,
                };
                assert(self@.catalog.namespaces.dom() =~= v0.catalog.namespaces.dom().remove(ns_id));
                r
            },
            None => None,
        };
        Ok((entry, pid))
    }

    /// Records the topology of a VXLAN-backed network that was just built:
    /// the outer bridge holding the VXLAN and the outer veth end; the
    /// namespace `ns_id`, with its worker `pid`, holding the inner veth end
    /// attached to the inner bridge. Refused, with nothing changed, unless
    /// the identifiers are fresh and `vxlan` is a VXLAN kind.
    pub fn record_vxlan_topology(
        &mut self,
        ids: TopologyIds,
        names: TopologyNames,
        vxlan: InterfaceKind,
        ns_id: u128,
        pid: u32,
    ) -> (r: Result<(), NetError>)
        requires
            old(self)@.wf(),
        ensures
            final(self)@.wf(),
            final(self)@.networks == old(self)@.networks,
            r is Ok <==> {
                &&& ids.fresh_in(old(self)@.catalog)
                &&& !old(self)@.catalog.namespaces.contains_key(ns_id)
                &&& !old(self)@.workers.contains_key(ns_id)
                &&& (vxlan is Vxlan || vxlan is PtpVxlan)
            },
            r is Err ==> final(self)@ == old(self)@,
            r is Ok ==> {
                let c = final(self)@.catalog;
                &&& c.interfaces[ids.outer_bridge].kind == InterfaceKind::Bridge
                &&& c.interfaces[ids.outer_bridge].name == names.outer_bridge@
                &&& c.interfaces[ids.outer_bridge].ns is None
                &&& c.interfaces[ids.outer_bridge].children == seq![ids.vxlan, ids.outer_veth]
                &&& c.interfaces[ids.vxlan].kind == vxlan
                &&& c.interfaces[ids.vxlan].name == names.vxlan@
                &&& c.interfaces[ids.vxlan].parent == Some(ids.outer_bridge)
                &&& c.interfaces[ids.vxlan].ns is None
                &&& c.interfaces[ids.outer_veth].kind == (InterfaceKind::Veth { peer: ids.inner_veth, internal: false })
                &&& c.interfaces[ids.outer_veth].name == names.outer_veth@
                &&& c.interfaces[ids.outer_veth].parent == Some(ids.outer_bridge)
                &&& c.interfaces[ids.outer_veth].ns is None
                &&& c.interfaces[ids.inner_veth].kind == (InterfaceKind::Veth { peer: ids.outer_veth, internal: true })
                &&& c.interfaces[ids.inner_veth].name == names.inner_veth@
                &&& c.interfaces[ids.inner_veth].parent == Some(ids.inner_bridge)
                &&& c.interfaces[ids.inner_veth].ns == Some(ns_id)
                &&& c.interfaces[ids.inner_bridge].kind == InterfaceKind::Bridge
                &&& c.interfaces[ids.inner_bridge].name == names.inner_bridge@
                &&& c.interfaces[ids.inner_bridge].ns == Some(ns_id)
                &&& c.interfaces[ids.inner_bridge].children == seq![ids.inner_veth]
                &&& c.namespaces == old(self)@.catalog.namespaces.insert(ns_id, NamespaceView {
                    id: ns_id,
                    name: names.netns@,
                    interfaces: seq![ids.inner_veth, ids.inner_bridge],
                })
                &&& forall|k: u128| ids.has(k) ==> (#[trigger] c.interfaces[k]).addresses.len() == 0
                    && c.interfaces[k].mac == zero_mac()
                &&& final(self)@.workers == old(self)@.workers.insert(ns_id, pid)
                &&& forall|k: u128| !ids.has(k) ==> (#[trigger] c.interfaces.contains_key(k)
                    <==> old(self)@.catalog.interfaces.contains_key(k))
                &&& forall|k: u128| !ids.has(k) && #[trigger] c.interfaces.contains_key(k)
                    ==> c.interfaces[k] == old(self)@.catalog.interfaces[k]
            },
    {
        let ghost v0 = self@;
        let ghost nsv = names.netns@;
        let ghost idseq = seq![ids.outer_bridge, ids.vxlan, ids.inner_bridge, ids.inner_veth, ids.outer_veth];
        match vxlan {
            InterfaceKind::Vxlan { .. } => {},
            InterfaceKind::PtpVxlan { .. } => {},
            _ => return Err(NetError::WrongKind),
        }
        let ob = ids.outer_bridge;
        let vx = ids.vxlan;
        let ib = ids.inner_bridge;
        let iv = ids.inner_veth;
        let ov = ids.outer_veth;
        let distinct = ob != vx && ob != ib && ob != iv && ob != ov && vx != ib && vx != iv && vx != ov
            && ib != iv && ib != ov && iv != ov;
        let unknown = match (
            self.catalog.get_interface(ob),
            self.catalog.get_interface(vx),
            self.catalog.get_interface(ib),
            self.catalog.get_interface(iv),
            self.catalog.get_interface(ov),
        ) {
            (Err(_), Err(_), Err(_), Err(_), Err(_)) => true,
            _ => false,
        };
        proof {
            assert(distinct <==> idseq.no_duplicates()) by {
                if idseq.no_duplicates() {
                    assert(idseq[0] != idseq[1] && idseq[0] != idseq[2] && idseq[0] != idseq[3] && idseq[0] != idseq[4]);
                    assert(idseq[1] != idseq[2] && idseq[1] != idseq[3] && idseq[1] != idseq[4]);
                    assert(idseq[2] != idseq[3] && idseq[2] != idseq[4] && idseq[3] != idseq[4]);
                }
            }
            if !unknown {
                assert(!ids.fresh_in(v0.catalog)) by {
                    if ids.fresh_in(v0.catalog) {
                        assert(!v0.catalog.interfaces.contains_key(idseq[0]));
                        assert(!v0.catalog.interfaces.contains_key(idseq[1]));
                        assert(!v0.catalog.interfaces.contains_key(idseq[2]));
                        assert(!v0.catalog.interfaces.contains_key(idseq[3]));
                        assert(!v0.catalog.interfaces.contains_key(idseq[4]));
                    }
                }
            }
        }
        if !distinct || !unknown {
            return Err(NetError::AlreadyPresent);
        }
        if self.workers.contains_key(&ns_id) {
            return Err(NetError::AlreadyPresent);
        }
        match self.catalog.get_network_namespace(ns_id) {
            Ok(_) => return Err(NetError::AlreadyPresent),
            Err(_) => {},
        }
        let _ = self.catalog.add_interface(ob, names.outer_bridge, InterfaceKind::Bridge);
        let _ = self.catalog.add_interface(vx, names.vxlan, vxlan);
        let _ = self.catalog.attach_interface_to_bridge(vx, ob);
        let _ = self.register_namespace(ns_id, names.netns, pid);
        let _ = self.catalog.add_veth_pair(iv, names.inner_veth, ov, names.outer_veth);
        let _ = self.catalog.attach_interface_to_bridge(ov, ob);
        let _ = self.catalog.move_interface_into_namespace(iv, ns_id);
        let _ = self.catalog.add_interface(ib, names.inner_bridge, InterfaceKind::Bridge);
        let _ = self.catalog.move_interface_into_namespace(ib, ns_id);
        let _ = self.catalog.attach_interface_to_bridge(iv, ib);
        let ghost v1 = self@;
        assert(v1.networks =~= v0.networks);
        assert(v1.catalog.interfaces[ob].children =~= seq![vx, ov]);
        assert(v1.catalog.interfaces[ib].children =~= seq![iv]);
        assert(v1.catalog.namespaces[ns_id].interfaces =~= seq![iv, ib]);
        assert(v1.catalog.namespaces =~= v0.catalog.namespaces.insert(ns_id, NamespaceView {
            id: ns_id,
            name: nsv,
            interfaces: seq![iv, ib],
        }));
        assert(v1.bindings_consistent()) by {
            assert forall|k: u128| #[trigger] v1.networks.contains_key(k) && v1.networks[k].internals.netns is Some implies {
                let n = v1.networks[k].internals.netns.unwrap().ns_id;
                &&& v1.catalog.namespaces.contains_key(n)
                &&& v1.workers.contains_key(n)
            } by {
                assert(v0.catalog.namespaces.contains_key(v0.networks[k].internals.netns.unwrap().ns_id));
            }
        }
        Ok(())
    }

    /// Records a network whose topology was just built on the namespace that
    /// carries its identifier, and hands back its record.
    pub fn record_constructed_network(
        &mut self,
        desired: VirtualNetwork,
        ids: TopologyIds,
        ns_name: String,
    ) -> (r: Result<VirtualNetwork, NetError>)
        requires
            old(self)@.wf(),
        ensures
            final(self)@.wf(),
            ({
                let iv = constructed_internals(desired@.id, ns_name@);
                let entry = NetworkEntryView { network: constructed_network(desired@, ids, ns_name@), internals: iv };
                &&& (r is Ok <==> internals_fit(iv) && old(self)@.record_error(entry) is None)
                &&& match r {
                    Ok(n) => {
                        &&& n@ == entry.network
                        &&& final(self)@ == (NodeView {
                            networks: old(self)@.networks.insert(desired@.id, entry),
                            ..old(self)@
                        })
                    },
                    Err(e) => {
                        &&& final(self)@ == old(self)@
                        &&& e == if !internals_fit(iv) {
                            NetError::EncodingError
                        } else {
                            old(self)@.record_error(entry).unwrap()
                        }
                    },
                }
            }),
    {
        let id = desired.id;
        let ghost dv = desired@;
        let ghost nv = ns_name@;
        let internals = NetworkInternals {
            netns: Some(NetnsBinding { ns_id: id, ns_name }),
            dhcp: None,
            tables: Vec::new(),
        };
        assert(internals@.tables =~= Seq::<Seq<char>>::empty());
        assert(internals@ == constructed_internals(id, nv));
        let blob = serialize_internals(&internals)?;
        let mut network = desired;
        network.interfaces.push(ids.outer_bridge);
        network.interfaces.push(ids.vxlan);
        network.interfaces.push(ids.inner_veth);
        network.interfaces.push(ids.outer_veth);
        network.interfaces.push(ids.inner_bridge);
        network.internals = Some(blob);
        assert(network@.interfaces =~= dv.interfaces + seq![ids.outer_bridge, ids.vxlan, ids.inner_veth, ids.outer_veth, ids.inner_bridge]);
        assert(network@ == constructed_network(dv, ids, nv));
        let copy = network.duplicate();
        self.record_network(NetworkEntry { network, internals })?;
        Ok(copy)
    }

    /// Records the node's default network once its kernel objects exist: the
    /// bridge `fosbr0` (the nil identifier) holding the gateway address and
    /// the VXLAN `fosvxl0`, and the network record with its internals.
    pub fn record_default_network(
        &mut self,
        vxlan_id: u128,
        dhcp: Option<DhcpBinding>,
        tables: Vec<String>,
    ) -> (r: Result<VirtualNetwork, NetError>)
        requires
            old(self)@.wf(),
        ensures
            final(self)@.wf(),
            ({
                let dv = match dhcp {
                    Some(d) => Some(d@),
                    None => None,
                };
                let iv = default_internals(dv, tables@.map_values(|t: String| t@));
                let fresh = {
                    &&& !old(self)@.catalog.interfaces.contains_key(DEFAULT_NETWORK_ID)
                    &&& !old(self)@.catalog.interfaces.contains_key(vxlan_id)
                    &&& vxlan_id != DEFAULT_NETWORK_ID
                    &&& !old(self)@.networks.contains_key(DEFAULT_NETWORK_ID)
                };
                &&& (r is Ok <==> fresh && internals_fit(iv))
                &&& match r {
                    Ok(n) => {
                        &&& is_default_network(n@)
                        &&& n@.interfaces == seq![DEFAULT_NETWORK_ID, vxlan_id]
                        &&& n@.connection_points.len() == 0
                        &&& (dhcp is Some <==> n@.ip_configuration is Some)
                        &&& n@.internals == Some(encode_internals(iv))
                        &&& final(self)@ == (NodeView {
                            catalog: CatalogView {
                                interfaces: old(self)@.catalog.interfaces
                                    .insert(DEFAULT_NETWORK_ID, InterfaceView {
                                        children: seq![vxlan_id],
                                        addresses: seq![IpAddress::V4(DEFAULT_GATEWAY)],
                                        ..fresh_record(DEFAULT_NETWORK_ID, default_bridge_name(), None, InterfaceKind::Bridge)
                                    })
                                    .insert(vxlan_id, InterfaceView {
                                        parent: Some(DEFAULT_NETWORK_ID),
                                        ..fresh_record(vxlan_id, default_vxlan_name(), None,
                                            InterfaceKind::Vxlan { vni: DEFAULT_VNI, group: IpAddress::V4(DEFAULT_MCAST_GROUP), port: DEFAULT_PORT })
                                    }),
                                namespaces: old(self)@.catalog.namespaces,
                            },
                            workers: old(self)@.workers,
                            networks: old(self)@.networks.insert(DEFAULT_NETWORK_ID, NetworkEntryView { network: n@, internals: iv }),
                        })
                    },
                    Err(e) => {
                        &&& final(self)@ == old(self)@
                        &&& e == if !fresh { NetError::AlreadyPresent } else { NetError::EncodingError }
                    },
                }
            }),
    {
        let ghost v0 = self@;
        let known = match (self.catalog.get_interface(DEFAULT_NETWORK_ID), self.catalog.get_interface(vxlan_id)) {
            (Err(_), Err(_)) => false,
            _ => true,
        };
        if known || vxlan_id == DEFAULT_NETWORK_ID || self.networks.contains_key(&DEFAULT_NETWORK_ID) {
            return Err(NetError::AlreadyPresent);
        }
        let with_dhcp = dhcp.is_some();
        let internals = NetworkInternals { netns: None, dhcp, tables };
        let blob = serialize_internals(&internals)?;
        let vxlan = InterfaceKind::Vxlan { vni: DEFAULT_VNI, group: IpAddress::V4(DEFAULT_MCAST_GROUP), port: DEFAULT_PORT };
        let _ = self.catalog.add_interface(DEFAULT_NETWORK_ID, default_bridge(), InterfaceKind::Bridge);
        let _ = self.catalog.add_interface(vxlan_id, default_vxlan(), vxlan);
        let _ = self.catalog.attach_interface_to_bridge(vxlan_id, DEFAULT_NETWORK_ID);
        let _ = self.catalog.add_address(DEFAULT_NETWORK_ID, IpAddress::V4(DEFAULT_GATEWAY));
        let ghost c1 = self@.catalog;
        assert(c1.interfaces[DEFAULT_NETWORK_ID].children =~= seq![vxlan_id]);
        assert(c1.interfaces[DEFAULT_NETWORK_ID].addresses =~= seq![IpAddress::V4(DEFAULT_GATEWAY)]);
        assert(c1.interfaces =~= v0.catalog.interfaces
            .insert(DEFAULT_NETWORK_ID, InterfaceView {
                children: seq![vxlan_id],
                addresses: seq![IpAddress::V4(DEFAULT_GATEWAY)],
                ..fresh_record(DEFAULT_NETWORK_ID, default_bridge_name(), None, InterfaceKind::Bridge)
            })
            .insert(vxlan_id, InterfaceView {
                parent: Some(DEFAULT_NETWORK_ID),
                ..fresh_record(vxlan_id, default_vxlan_name(), None, vxlan)
            }));
        let ghost v1 = self@;
        assert(v1.networks =~= v0.networks);
        assert(v1.bindings_consistent()) by {
            assert forall|k: u128| #[trigger] v1.networks.contains_key(k) && v1.networks[k].internals.netns is Some implies {
                let m = v1.networks[k].internals.netns.unwrap().ns_id;
                &&& v1.catalog.namespaces.contains_key(m)
                &&& v1.workers.contains_key(m)
            } by {
                assert(v0.catalog.namespaces.contains_key(v0.networks[k].internals.netns.unwrap().ns_id));
            }
        }
        let network = default_virtual_network(with_dhcp, vxlan_id, blob);
        let copy = network.duplicate();
        let _ = self.record_network(NetworkEntry { network, internals });
        Ok(copy)
    }
}

/// Once a network is recorded, creating it again hands back the recorded
/// network and builds nothing, whatever its link kind; recording is all that
/// the first creation changed in the set of networks.
pub proof fn lemma_creation_idempotent(v: NodeView, e: NetworkEntryView, link: LinkKind)
    requires
        v.record_error(e) is None,
    ensures
        ({
            let after = NodeView { networks: v.networks.insert(e.network.id, e), ..v };
            &&& creation_step(after.networks.contains_key(e.network.id), link)
                == Ok::<CreationStep, NetError>(CreationStep::ReturnExisting)
            &&& after.networks[e.network.id] == e
            &&& after.catalog == v.catalog
            &&& after.workers == v.workers
        }),
{
}

/// A change of the catalog alone that keeps its namespaces keeps the node
/// well formed.
proof fn lemma_catalog_step(v0: NodeView, v1: NodeView)
    requires
        v0.wf(),
        v1.catalog.wf(),
        v1.networks == v0.networks,
        v1.workers == v0.workers,
        v1.catalog.namespaces.dom() == v0.catalog.namespaces.dom(),
    ensures
        v1.wf(),
{
    assert forall|k: u128| #[trigger] v1.networks.contains_key(k) && v1.networks[k].internals.netns is Some implies {
        let n = v1.networks[k].internals.netns.unwrap().ns_id;
        &&& v1.catalog.namespaces.contains_key(n)
        &&& v1.workers.contains_key(n)
    } by {
        assert(v0.catalog.namespaces.contains_key(v0.networks[k].internals.netns.unwrap().ns_id));
    }
}

/// In a well-formed node every network bound to a namespace finds that
/// namespace in the catalog and its worker registered.
pub proof fn lemma_bound_namespace_live(v: NodeView, k: u128)
    requires
        v.wf(),
        v.networks.contains_key(k),
        v.networks[k].internals.netns is Some,
    ensures
        v.catalog.namespaces.contains_key(v.networks[k].internals.netns.unwrap().ns_id),
        v.workers.contains_key(v.networks[k].internals.netns.unwrap().ns_id),
{
}

} // verus!
