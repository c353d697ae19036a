use vstd::prelude::*;
use std::collections::HashMap;
use crate::address::IpAddress;
use crate::error::{FailureCause, NetError};

verus! {

broadcast use vstd::std_specs::hash::group_hash_axioms;

/// The kind of a virtual interface, with its kind-specific parameters.
#[derive(Clone, Copy, Debug, PartialEq, Eq, Structural)]
pub enum InterfaceKind {
    Bridge,
    /// A multicast VXLAN.
    Vxlan { vni: u32, group: IpAddress, port: u16 },
    /// A point-to-point VXLAN.
    PtpVxlan { vni: u32, local: IpAddress, remote: IpAddress, port: u16 },
    /// One end of a veth pair.
    Veth { peer: u128, internal: bool },
    Vlan { tag: u16 },
    Macvlan,
    Gre,
    Gretap,
    Ip6gre,
    Ip6gretap,
}

/// A MAC address, most significant octet first.
#[derive(Clone, Copy, Debug, PartialEq, Eq, Structural)]
pub struct MacAddress(pub u8, pub u8, pub u8, pub u8, pub u8, pub u8);

/// The all-zero MAC address that a record starts with.
pub open spec fn zero_mac() -> MacAddress {
    MacAddress(0, 0, 0, 0, 0, 0)
}

/// A virtual interface of the catalog. Only a bridge has children.
#[derive(Debug)]
pub struct VirtualInterface {
    pub id: u128,
    pub name: String,
    /// The namespace that holds it; `None` for the node's default namespace.
    pub ns: Option<u128>,
    /// The bridge it is attached to.
    pub parent: Option<u128>,
    pub kind: InterfaceKind,
    /// The interfaces attached to it, when it is a bridge.
    pub children: Vec<u128>,
    /// Its IP addresses.
    pub addresses: Vec<IpAddress>,
    pub mac: MacAddress,
}

pub struct InterfaceView {
    pub id: u128,
    pub name: Seq<char>,
    pub ns: Option<u128>,
    pub parent: Option<u128>,
    pub kind: InterfaceKind,
    pub children: Seq<u128>,
    pub addresses: Seq<IpAddress>,
    pub mac: MacAddress,
}

impl View for VirtualInterface {
    type V = InterfaceView;

    open spec fn view(&self) -> InterfaceView {
        InterfaceView {
            id: self.id,
            name: self.name@,
            ns: self.ns,
            parent: self.parent,
            kind: self.kind,
            children: self.children@,
            addresses: self.addresses@,
            mac: self.mac,
        }
    }
}

impl VirtualInterface {
    /// A copy of the record.
    pub fn duplicate(&self) -> (r: VirtualInterface)
        ensures
            r@ == self@,
    {
        VirtualInterface {
            id: self.id,
            name: self.name.clone(),
            ns: self.ns,
            parent: self.parent,
            kind: self.kind,
            children: copy_ids(&self.children),
            addresses: copy_addresses(&self.addresses),
            mac: self.mac,
        }
    }
}

/// A network namespace of the catalog.
#[derive(Debug)]
pub struct NetworkNamespace {
    pub id: u128,
    pub name: String,
    /// The interfaces that it holds.
    pub interfaces: Vec<u128>,
}

pub struct NamespaceView {
    pub id: u128,
    pub name: Seq<char>,
    pub interfaces: Seq<u128>,
}

impl View for NetworkNamespace {
    type V = NamespaceView;

    open spec fn view(&self) -> NamespaceView {
        NamespaceView { id: self.id, name: self.name@, interfaces: self.interfaces@ }
    }
}

impl NetworkNamespace {
    /// A copy of the record.
    pub fn duplicate(&self) -> (r: NetworkNamespace)
        ensures
            r@ == self@,
    {
        NetworkNamespace {
            id: self.id,
            name: self.name.clone(),
            interfaces: copy_ids(&self.interfaces),
        }
    }
}

/// A copy of a list of identifiers.
pub fn copy_ids(v: &Vec<u128>) -> (r: Vec<u128>)
    ensures
        r@ == v@,
{
    let mut r: Vec<u128> = Vec::new();
    let mut i: usize = 0;
    while i < v.len()
        invariant
            i <= v.len(),
            r@ == v@.subrange(0, i as int),
        decreases v.len() - i,
    {
        r.push(v[i]);
        i = i + 1;
        assert(r@ =~= v@.subrange(0, i as int));
    }
    assert(v@.subrange(0, v.len() as int) =~= v@);
    r
}

/// A copy of a list of addresses.
pub fn copy_addresses(v: &Vec<IpAddress>) -> (r: Vec<IpAddress>)
    ensures
        r@ == v@,
{
    let mut r: Vec<IpAddress> = Vec::new();
    let mut i: usize = 0;
    while i < v.len()
        invariant
            i <= v.len(),
            r@ == v@.subrange(0, i as int),
        decreases v.len() - i,
    {
        r.push(v[i]);
        i = i + 1;
        assert(r@ =~= v@.subrange(0, i as int));
    }
    assert(v@.subrange(0, v.len() as int) =~= v@);
    r
}

/// The position of `x` in `v`, if it occurs.
fn position_of(v: &Vec<u128>, x: u128) -> (r: Option<usize>)
    ensures
        match r {
            Some(p) => p < v@.len() && v@[p as int] == x,
            None => !v@.contains(x),
        },
{
    let mut i: usize = 0;
    while i < v.len()
        invariant
            i <= v.len(),
            forall|j: int| 0 <= j < i ==> v@[j] != x,
        decreases v.len() - i,
    {
        if v[i] == x {
            return Some(i);
        }
        i = i + 1;
    }
    None
}

/// `s` with the occurrence of `x` taken out.
pub open spec fn without(s: Seq<u128>, x: u128) -> Seq<u128> {
    if s.contains(x) { s.remove(s.index_of(x)) } else { s }
}

proof fn lemma_without(s: Seq<u128>, x: u128)
    requires
        s.no_duplicates(),
    ensures
        without(s, x).no_duplicates(),
        !without(s, x).contains(x),
        forall|j: int| 0 <= j < without(s, x).len() ==> s.contains(#[trigger] without(s, x)[j]),
        forall|y: u128| y != x && s.contains(y) ==> #[trigger] without(s, x).contains(y),
{
    if s.contains(x) {
        let p = s.index_of(x);
        let w = s.remove(p);
        assert forall|j: int| 0 <= j < w.len() implies s.contains(#[trigger] w[j]) by {
            if j < p { assert(w[j] == s[j]); } else { assert(w[j] == s[j + 1]); }
        }
        assert forall|y: u128| y != x && s.contains(y) implies #[trigger] w.contains(y) by {
            let k = choose|k: int| 0 <= k < s.len() && s[k] == y;
            if k < p { assert(w[k] == y); } else { assert(k != p); assert(w[k - 1] == y); }
        }
        assert(!w.contains(x)) by {
            if w.contains(x) {
                let k = choose|k: int| 0 <= k < w.len() && w[k] == x;
                if k < p { assert(s[k] == x); } else { assert(s[k + 1] == x); }
            }
        }
        assert forall|j: int, k: int| 0 <= j < w.len() && 0 <= k < w.len() && j != k implies w[j] != w[k] by {
            let jj = if j < p { j } else { j + 1 };
            let kk = if k < p { k } else { k + 1 };
            assert(w[j] == s[jj] && w[k] == s[kk]);
        }
    }
}

proof fn lemma_without_len(s: Seq<u128>, x: u128)
    ensures
        without(s, x).len() <= s.len(),
{
}

/// Takes the occurrence of `x` out of `v`.
fn remove_id(v: &mut Vec<u128>, x: u128)
    requires
        old(v)@.no_duplicates(),
    ensures
        final(v)@ == without(old(v)@, x),
{
    match position_of(v, x) {
        Some(p) => {
            let ghost s = v@;
            assert(s.contains(x));
            let ghost q = s.index_of(x);
            assert(q == p as int);
            v.remove(p);
        },
        None => {},
    }
}

/// Two records agree on everything but their bridge links.
pub open spec fn same_attributes(a: InterfaceView, b: InterfaceView) -> bool {
    &&& a.id == b.id
    &&& a.name == b.name
    &&& a.ns == b.ns
    &&& a.kind == b.kind
    &&& a.addresses == b.addresses
    &&& a.mac == b.mac
}

/// A new record: attached to nothing, with no children, no addresses and
/// the all-zero MAC address.
pub open spec fn fresh_record(id: u128, name: Seq<char>, ns: Option<u128>, kind: InterfaceKind) -> InterfaceView {
    InterfaceView {
        id,
        name,
        ns,
        parent: None,
        kind,
        children: Seq::empty(),
        addresses: Seq::empty(),
        mac: zero_mac(),
    }
}

/// The logical model: interfaces and namespaces by identifier.
pub struct CatalogView {
    pub interfaces: Map<u128, InterfaceView>,
    pub namespaces: Map<u128, NamespaceView>,
}

impl CatalogView {
    /// Records are filed under their own identifier; child and member lists
    /// hold no identifier twice; only bridges have children.
    pub open spec fn records_keyed(self) -> bool {
        &&& forall|i: u128| #[trigger] self.interfaces.contains_key(i) ==> {
            &&& self.interfaces[i].id == i
            &&& self.interfaces[i].children.no_duplicates()
            &&& (self.interfaces[i].kind != InterfaceKind::Bridge ==> self.interfaces[i].children.len() == 0)
        }
        &&& forall|n: u128| #[trigger] self.namespaces.contains_key(n) ==> {
            &&& self.namespaces[n].id == n
            &&& self.namespaces[n].interfaces.no_duplicates()
        }
    }

    /// An interface's parent is a recorded bridge that lists it among its
    /// children, and every child of a bridge is recorded with that bridge as parent.
    pub open spec fn bridges_consistent(self) -> bool {
        &&& forall|i: u128| #[trigger] self.interfaces.contains_key(i) && self.interfaces[i].parent is Some ==> {
            let b = self.interfaces[i].parent.unwrap();
            &&& self.interfaces.contains_key(b)
            &&& self.interfaces[b].kind == InterfaceKind::Bridge
            &&& self.interfaces[b].children.contains(i)
        }
        &&& forall|b: u128, j: int| #![trigger self.interfaces[b].children[j]]
            self.interfaces.contains_key(b) && 0 <= j < self.interfaces[b].children.len() ==> {
                let c = self.interfaces[b].children[j];
                &&& self.interfaces.contains_key(c)
                &&& self.interfaces[c].parent == Some(b)
            }
    }

    /// Each veth end names a recorded veth as its peer, which names it back
    /// and has the opposite `internal` flag.
    pub open spec fn veths_consistent(self) -> bool {
        forall|a: u128| #[trigger] self.interfaces.contains_key(a) && self.interfaces[a].kind is Veth ==> {
            let p = self.interfaces[a].kind->peer;
            &&& p != a
            &&& self.interfaces.contains_key(p)
            &&& self.interfaces[p].kind == (InterfaceKind::Veth { peer: a, internal: !self.interfaces[a].kind->internal })
        }
    }

    /// An interface's namespace is recorded and lists it, and every member
    /// of a namespace is recorded in that namespace.
    pub open spec fn namespaces_consistent(self) -> bool {
        &&& forall|i: u128| #[trigger] self.interfaces.contains_key(i) && self.interfaces[i].ns is Some ==> {
            let n = self.interfaces[i].ns.unwrap();
            &&& self.namespaces.contains_key(n)
            &&& self.namespaces[n].interfaces.contains(i)
        }
        &&& forall|n: u128, j: int| #![trigger self.namespaces[n].interfaces[j]]
            self.namespaces.contains_key(n) && 0 <= j < self.namespaces[n].interfaces.len() ==> {
                let c = self.namespaces[n].interfaces[j];
                &&& self.interfaces.contains_key(c)
                &&& self.interfaces[c].ns == Some(n)
            }
    }

    /// All invariants but the one on veth pairs.
    pub open spec fn links_wf(self) -> bool {
        &&& self.records_keyed()
        &&& self.bridges_consistent()
        &&& self.namespaces_consistent()
    }

    pub open spec fn wf(self) -> bool {
        &&& self.records_keyed()
        &&& self.bridges_consistent()
        &&& self.veths_consistent()
        &&& self.namespaces_consistent()
    }

    /// Why attaching `i` to the bridge `b` is refused, if it is.
    pub open spec fn attach_error(self, i: u128, b: u128) -> Option<NetError> {
        if !self.interfaces.contains_key(i) || !self.interfaces.contains_key(b) {
            Some(NetError::NotFound)
        } else if i == b || self.interfaces[b].kind != InterfaceKind::Bridge {
            Some(NetError::WrongKind)
        } else if self.interfaces[i].ns != self.interfaces[b].ns {
            Some(NetError::NetworkingError(FailureCause::DifferentNamespaces))
        } else if self.interfaces[i].parent is Some {
            Some(NetError::AlreadyPresent)
        } else {
            None
        }
    }

    /// `i` attached to the bridge `b`.
    pub open spec fn attached(self, i: u128, b: u128) -> CatalogView {
        let iv = self.interfaces[i];
        let bv = self.interfaces[b];
        CatalogView {
            interfaces: self.interfaces
                .insert(i, InterfaceView { parent: Some(b), ..iv })
                .insert(b, InterfaceView { children: bv.children.push(i), ..bv }),
            namespaces: self.namespaces,
        }
    }

    /// Why detaching `i` from its bridge is refused, if it is.
    pub open spec fn detach_error(self, i: u128) -> Option<NetError> {
        if !self.interfaces.contains_key(i) {
            Some(NetError::NotFound)
        } else if self.interfaces[i].parent is None {
            Some(NetError::NotConnected)
        } else {
            None
        }
    }

    /// `i` detached from its bridge.
    pub open spec fn detached(self, i: u128) -> CatalogView {
        let iv = self.interfaces[i];
        let b = iv.parent.unwrap();
        let m = self.interfaces.insert(i, InterfaceView { parent: None, ..iv });
        CatalogView {
            interfaces: m.insert(b, InterfaceView { children: without(m[b].children, i), ..m[b] }),
            namespaces: self.namespaces,
        }
    }

    /// Why moving `i` into the namespace `n` is refused, if it is.
    pub open spec fn move_error(self, i: u128, n: u128) -> Option<NetError> {
        if !self.interfaces.contains_key(i) || !self.namespaces.contains_key(n) {
            Some(NetError::NotFound)
        } else {
            None
        }
    }

    /// The namespaces once `i` has left the one it is in, if any.
    pub open spec fn namespaces_without(self, i: u128) -> Map<u128, NamespaceView> {
        match self.interfaces[i].ns {
            Some(o) => self.namespaces.insert(o, NamespaceView {
                interfaces: without(self.namespaces[o].interfaces, i),
                ..self.namespaces[o]
            }),
            None => self.namespaces,
        }
    }

    /// `i` moved out of its namespace, if any, into the namespace `n`.
    pub open spec fn moved(self, i: u128, n: u128) -> CatalogView {
        let ns1 = self.namespaces_without(i);
        CatalogView {
            interfaces: self.interfaces.insert(i, InterfaceView { ns: Some(n), ..self.interfaces[i] }),
            namespaces: ns1.insert(n, NamespaceView { interfaces: ns1[n].interfaces.push(i), ..ns1[n] }),
        }
    }

    /// `i` moved out of its namespace, if any, into the default namespace.
    pub open spec fn moved_to_default(self, i: u128) -> CatalogView {
        CatalogView {
            interfaces: self.interfaces.insert(i, InterfaceView { ns: None, ..self.interfaces[i] }),
            namespaces: self.namespaces_without(i),
        }
    }

    /// The record of `x` removed, with every link to it: its bridge no longer
    /// lists it, its children have no parent, its namespace no longer lists it.
    pub open spec fn removed_one(self, x: u128) -> CatalogView {
        let xv = self.interfaces[x];
        CatalogView {
            interfaces: Map::new(
                |c: u128| self.interfaces.contains_key(c) && c != x,
                |c: u128| {
                    let r = self.interfaces[c];
                    let r1 = if r.parent == Some(x) { InterfaceView { parent: None, ..r } } else { r };
                    if xv.parent == Some(c) {
                        InterfaceView { children: without(r1.children, x), ..r1 }
                    } else {
                        r1
                    }
                },
            ),
            namespaces: self.namespaces_without(x),
        }
    }

    /// Interface `i` removed; a veth end goes together with its peer.
    pub open spec fn removed(self, i: u128) -> CatalogView {
        match self.interfaces[i].kind {
            InterfaceKind::Veth { peer, .. } => self.removed_one(i).removed_one(peer),
            _ => self.removed_one(i),
        }
    }

    /// The identifiers that removing `i` takes out of the catalog.
    pub open spec fn removed_ids(self, i: u128) -> Set<u128> {
        match self.interfaces[i].kind {
            InterfaceKind::Veth { peer, .. } => set![i, peer],
            _ => set![i],
        }
    }
}

/// The kernel work that deleting an interface takes.
#[derive(Debug)]
pub enum InterfaceDeletion {
    /// Ask the worker of namespace `ns` to delete `name`; a failure of the
    /// worker is settled with `is_veth` and `peer_recorded`.
    Worker { ns: u128, name: String, is_veth: bool, peer_recorded: bool },
    /// Delete the veth end `name` and its peer, when the peer is recorded;
    /// failures are tolerated, a half-removed pair being expected.
    VethPair { name: String, peer: Option<String> },
    /// Delete the link `name`; a failure is returned.
    Link { name: String },
}

/// The catalog of this node: interfaces and namespaces by identifier.
pub struct Catalog {
    interfaces: HashMap<u128, VirtualInterface>,
    namespaces: HashMap<u128, NetworkNamespace>,
}

impl View for Catalog {
    type V = CatalogView;

    closed spec fn view(&self) -> CatalogView {
        CatalogView {
            interfaces: Map::new(
                |k: u128| self.interfaces@.contains_key(k),
                |k: u128| self.interfaces@[k]@,
            ),
            namespaces: Map::new(
                |k: u128| self.namespaces@.contains_key(k),
                |k: u128| self.namespaces@[k]@,
            ),
        }
    }
}

impl Catalog {
    /// An empty catalog.
    pub fn new() -> (c: Catalog)
        ensures
            c@.wf(),
            c@.interfaces.is_empty(),
            c@.namespaces.is_empty(),
    {
        let c = Catalog { interfaces: HashMap::new(), namespaces: HashMap::new() };
        assert(c@.interfaces =~= Map::empty());
        assert(c@.namespaces =~= Map::empty());
        c
    }

    /// The record of interface `id`.
    pub fn get_interface(&self, id: u128) -> (r: Result<VirtualInterface, NetError>)
        ensures
            match r {
                Ok(v) => self@.interfaces.contains_key(id) && v@ == self@.interfaces[id],
                Err(e) => !self@.interfaces.contains_key(id) && e == NetError::NotFound,
            },
    {
        match self.interfaces.get(&id) {
            Some(v) => Ok(v.duplicate()),
            None => Err(NetError::NotFound),
        }
    }

    /// The record of namespace `id`.
    pub fn get_network_namespace(&self, id: u128) -> (r: Result<NetworkNamespace, NetError>)
        ensures
            match r {
                Ok(v) => self@.namespaces.contains_key(id) && v@ == self@.namespaces[id],
                Err(e) => !self@.namespaces.contains_key(id) && e == NetError::NotFound,
            },
    {
        match self.namespaces.get(&id) {
            Some(v) => Ok(v.duplicate()),
            None => Err(NetError::NotFound),
        }
    }

    fn put_interface(&mut self, v: VirtualInterface)
        ensures
            final(self)@ == (CatalogView {
                interfaces: old(self)@.interfaces.insert(v.id, v@),
                namespaces: old(self)@.namespaces,
            }),
    {
        let ghost old_view = self@;
        let id = v.id;
        let ghost vv = v@;
        self.interfaces.insert(id, v);
        assert(self@.interfaces =~= old_view.interfaces.insert(id, vv));
        assert(self@.namespaces =~= old_view.namespaces);
    }

    fn put_namespace(&mut self, v: NetworkNamespace)
        ensures
            final(self)@ == (CatalogView {
                interfaces: old(self)@.interfaces,
                namespaces: old(self)@.namespaces.insert(v.id, v@),
            }),
    {
        let ghost old_view = self@;
        let id = v.id;
        let ghost vv = v@;
        self.namespaces.insert(id, v);
        assert(self@.interfaces =~= old_view.interfaces);
        assert(self@.namespaces =~= old_view.namespaces.insert(id, vv));
    }

    fn take_interface(&mut self, id: u128) -> (v: VirtualInterface)
        requires
            old(self)@.interfaces.contains_key(id),
        ensures
            v@ == old(self)@.interfaces[id],
            final(self)@ == (CatalogView {
                interfaces: old(self)@.interfaces.remove(id),
                namespaces: old(self)@.namespaces,
            }),
    {
        let ghost old_view = self@;
        let v = self.interfaces.remove(&id).unwrap();
        assert(self@.interfaces =~= old_view.interfaces.remove(id));
        assert(self@.namespaces =~= old_view.namespaces);
        v
    }

    fn take_namespace(&mut self, id: u128) -> (v: NetworkNamespace)
        requires
            old(self)@.namespaces.contains_key(id),
        ensures
            v@ == old(self)@.namespaces[id],
            final(self)@ == (CatalogView {
                interfaces: old(self)@.interfaces,
                namespaces: old(self)@.namespaces.remove(id),
            }),
    {
        let ghost old_view = self@;
        let v = self.namespaces.remove(&id).unwrap();
        assert(self@.interfaces =~= old_view.interfaces);
        assert(self@.namespaces =~= old_view.namespaces.remove(id));
        v
    }

    /// Records a new interface of a kind other than veth, in the default
    /// namespace and attached to nothing.
    pub fn add_interface(&mut self, id: u128, name: String, kind: InterfaceKind) -> (r: Result<(), NetError>)
        requires
            old(self)@.wf(),
        ensures
            final(self)@.wf(),
            final(self)@.namespaces.dom() == old(self)@.namespaces.dom(),
            match r {
                Ok(()) => {
                    &&& !old(self)@.interfaces.contains_key(id)
                    &&& !(kind is Veth)
                    &&& final(self)@ == (CatalogView {
                        interfaces: old(self)@.interfaces.insert(id, InterfaceView {
                            id, name: name@, ns: None, parent: None, kind, children: Seq::empty(),
                            addresses: Seq::empty(), mac: zero_mac(),
                        }),
                        namespaces: old(self)@.namespaces,
                    })
                },
                Err(e) => {
                    &&& final(self)@ == old(self)@
                    &&& e == if old(self)@.interfaces.contains_key(id) {
                        NetError::AlreadyPresent
                    } else {
                        NetError::WrongKind
                    }
                    &&& (old(self)@.interfaces.contains_key(id) || kind is Veth)
                },
            },
    {
        if self.interfaces.contains_key(&id) {
            return Err(NetError::AlreadyPresent);
        }
        if let InterfaceKind::Veth { .. } = kind {
            return Err(NetError::WrongKind);
        }
        let ghost v0 = self@;
        self.put_interface(VirtualInterface {
            id, name, ns: None, parent: None, kind, children: Vec::new(), addresses: Vec::new(), mac: MacAddress(0, 0, 0, 0, 0, 0),
        });
        let ghost v1 = self@;
        assert(v1.bridges_consistent()) by {
            assert forall|b: u128, j: int| #![trigger v1.interfaces[b].children[j]]
                v1.interfaces.contains_key(b) && 0 <= j < v1.interfaces[b].children.len() implies {
                    let c = v1.interfaces[b].children[j];
                    &&& v1.interfaces.contains_key(c)
                    &&& v1.interfaces[c].parent == Some(b)
                } by {
                assert(b != id);
                assert(v0.interfaces[b].children[j] != id);
            }
        }
        assert(v1.namespaces_consistent()) by {
            assert forall|n: u128, j: int| #![trigger v1.namespaces[n].interfaces[j]]
                v1.namespaces.contains_key(n) && 0 <= j < v1.namespaces[n].interfaces.len() implies
                    v1.namespaces[n].interfaces[j] != id by {
                assert(v0.interfaces.contains_key(v0.namespaces[n].interfaces[j]));
            }
        }
        Ok(())
    }

    /// Records a new namespace with no interfaces.
    pub fn add_network_namespace(&mut self, id: u128, name: String) -> (r: Result<(), NetError>)
        requires
            old(self)@.wf(),
        ensures
            final(self)@.wf(),
            match r {
                Ok(()) => {
                    &&& !old(self)@.namespaces.contains_key(id)
                    &&& final(self)@ == (CatalogView {
                        interfaces: old(self)@.interfaces,
                        namespaces: old(self)@.namespaces.insert(id, NamespaceView {
                            id, name: name@, interfaces: Seq::empty(),
                        }),
                    })
                },
                Err(e) => {
                    &&& old(self)@.namespaces.contains_key(id)
                    &&& e == NetError::AlreadyPresent
                    &&& final(self)@ == old(self)@
                },
            },
    {
        if self.namespaces.contains_key(&id) {
            return Err(NetError::AlreadyPresent);
        }
        self.put_namespace(NetworkNamespace { id, name, interfaces: Vec::new() });
        Ok(())
    }

    /// Attaches interface `i` to the bridge `b`: `i` records `b` as its
    /// parent and `b` lists `i` among its children.
    pub fn attach_interface_to_bridge(&mut self, i: u128, b: u128) -> (r: Result<(), NetError>)
        requires
            old(self)@.wf(),
        ensures
            final(self)@.wf(),
            final(self)@.namespaces.dom() == old(self)@.namespaces.dom(),
            match r {
                Ok(()) => old(self)@.attach_error(i, b) is None && final(self)@ == old(self)@.attached(i, b),
                Err(e) => old(self)@.attach_error(i, b) == Some(e) && final(self)@ == old(self)@,
            },
    {
        let ghost v0 = self@;
        let (i_ns, i_parent) = match self.interfaces.get(&i) {
            Some(v) => (v.ns, v.parent),
            None => return Err(NetError::NotFound),
        };
        let (b_ns, b_kind) = match self.interfaces.get(&b) {
            Some(v) => (v.ns, v.kind),
            None => return Err(NetError::NotFound),
        };
        if i == b {
            return Err(NetError::WrongKind);
        }
        match b_kind {
            InterfaceKind::Bridge => {},
            _ => return Err(NetError::WrongKind),
        }
        if i_ns != b_ns {
            return Err(NetError::NetworkingError(FailureCause::DifferentNamespaces));
        }
        if i_parent.is_some() {
            return Err(NetError::AlreadyPresent);
        }
        let mut iface = self.take_interface(i);
        iface.parent = Some(b);
        self.put_interface(iface);
        let mut bridge = self.take_interface(b);
        bridge.children.push(i);
        self.put_interface(bridge);
        let ghost v1 = self@;
        assert(v1.interfaces =~= v0.attached(i, b).interfaces);
        assert(v1.records_keyed()) by {
            assert(!v0.interfaces[b].children.contains(i));
        }
        assert(v1.bridges_consistent()) by {
            assert forall|x: u128, j: int| #![trigger v1.interfaces[x].children[j]]
                v1.interfaces.contains_key(x) && 0 <= j < v1.interfaces[x].children.len() implies {
                    let c = v1.interfaces[x].children[j];
                    &&& v1.interfaces.contains_key(c)
                    &&& v1.interfaces[c].parent == Some(x)
                } by {
                if x == b && j == v0.interfaces[b].children.len() {
                } else {
                    assert(v1.interfaces[x].children[j] == v0.interfaces[x].children[j]);
                }
            }
            assert forall|x: u128| #[trigger] v1.interfaces.contains_key(x) && v1.interfaces[x].parent is Some implies {
                let p = v1.interfaces[x].parent.unwrap();
                &&& v1.interfaces.contains_key(p)
                &&& v1.interfaces[p].kind == InterfaceKind::Bridge
                &&& v1.interfaces[p].children.contains(x)
            } by {
                if x != i {
                    let p = v0.interfaces[x].parent.unwrap();
                    let k = choose|k: int| 0 <= k < v0.interfaces[p].children.len() && v0.interfaces[p].children[k] == x;
                    assert(v1.interfaces[p].children[k] == x);
                } else {
                    assert(v1.interfaces[b].children[v0.interfaces[b].children.len() as int] == i);
                }
            }
        }
        assert(v1.namespaces_consistent()) by {
            assert forall|n: u128, j: int| #![trigger v1.namespaces[n].interfaces[j]]
                v1.namespaces.contains_key(n) && 0 <= j < v1.namespaces[n].interfaces.len() implies {
                    let c = v1.namespaces[n].interfaces[j];
                    &&& v1.interfaces.contains_key(c)
                    &&& v1.interfaces[c].ns == Some(n)
                } by {
                assert(v0.namespaces[n].interfaces[j] == v1.namespaces[n].interfaces[j]);
            }
        }
        Ok(())
    }

    /// Detaches interface `i` from the bridge it is attached to.
    pub fn detach_interface_from_bridge(&mut self, i: u128) -> (r: Result<(), NetError>)
        requires
            old(self)@.wf(),
        ensures
            final(self)@.wf(),
            final(self)@.namespaces.dom() == old(self)@.namespaces.dom(),
            match r {
                Ok(()) => old(self)@.detach_error(i) is None && final(self)@ == old(self)@.detached(i),
                Err(e) => old(self)@.detach_error(i) == Some(e) && final(self)@ == old(self)@,
            },
    {
        let ghost v0 = self@;
        let parent = match self.interfaces.get(&i) {
            Some(v) => v.parent,
            None => return Err(NetError::NotFound),
        };
        let b = match parent {
            Some(b) => b,
            None => return Err(NetError::NotConnected),
        };
        let mut iface = self.take_interface(i);
        iface.parent = None;
        self.put_interface(iface);
        let ghost vm = self@;
        let mut bridge = self.take_interface(b);
        proof {
            lemma_without(bridge.children@, i);
        }
        remove_id(&mut bridge.children, i);
        self.put_interface(bridge);
        let ghost v1 = self@;
        assert(v1.interfaces =~= v0.detached(i).interfaces);
        assert(v1.bridges_consistent()) by {
            assert forall|x: u128, j: int| #![trigger v1.interfaces[x].children[j]]
                v1.interfaces.contains_key(x) && 0 <= j < v1.interfaces[x].children.len() implies {
                    let c = v1.interfaces[x].children[j];
                    &&& v1.interfaces.contains_key(c)
                    &&& v1.interfaces[c].parent == Some(x)
                } by {
                let c = v1.interfaces[x].children[j];
                if x == b {
                    assert(v0.interfaces[b].children.contains(c));
                    let k = choose|k: int| 0 <= k < v0.interfaces[b].children.len() && v0.interfaces[b].children[k] == c;
                    assert(v0.interfaces[b].children[k] == c);
                } else {
                    assert(v0.interfaces[x].children[j] == c);
                }
            }
            assert forall|x: u128| #[trigger] v1.interfaces.contains_key(x) && v1.interfaces[x].parent is Some implies {
                let p = v1.interfaces[x].parent.unwrap();
                &&& v1.interfaces.contains_key(p)
                &&& v1.interfaces[p].kind == InterfaceKind::Bridge
                &&& v1.interfaces[p].children.contains(x)
            } by {
                let p = v0.interfaces[x].parent.unwrap();
                if p != b {
                    assert(v1.interfaces[p].children == v0.interfaces[p].children);
                }
            }
        }
        assert(v1.namespaces_consistent()) by {
            assert forall|n: u128, j: int| #![trigger v1.namespaces[n].interfaces[j]]
                v1.namespaces.contains_key(n) && 0 <= j < v1.namespaces[n].interfaces.len() implies {
                    let c = v1.namespaces[n].interfaces[j];
                    &&& v1.interfaces.contains_key(c)
                    &&& v1.interfaces[c].ns == Some(n)
                } by {
                assert(v0.namespaces[n].interfaces[j] == v1.namespaces[n].interfaces[j]);
            }
        }
        Ok(())
    }

    /// Takes `i` out of the member list of the namespace it is in, if any.
    fn leave_namespace(&mut self, i: u128)
        requires
            old(self)@.links_wf(),
            old(self)@.interfaces.contains_key(i),
        ensures
            final(self)@ == (CatalogView {
                interfaces: old(self)@.interfaces,
                namespaces: old(self)@.namespaces_without(i),
            }),
    {
        let cur = match self.interfaces.get(&i) {
            Some(v) => v.ns,
            None => None,
        };
        let ghost v0 = self@;
        match cur {
            Some(o) => {
                assert(v0.interfaces.contains_key(i));
                assert(v0.namespaces.contains_key(o));
                let mut ns = self.take_namespace(o);
                remove_id(&mut ns.interfaces, i);
                self.put_namespace(ns);
                assert(self@.namespaces =~= v0.namespaces_without(i));
            },
            None => {},
        }
    }

    /// Moves interface `i` into the namespace `n`, out of the one it was in.
    pub fn move_interface_into_namespace(&mut self, i: u128, n: u128) -> (r: Result<(), NetError>)
        requires
            old(self)@.wf(),
        ensures
            final(self)@.wf(),
            final(self)@.namespaces.dom() == old(self)@.namespaces.dom(),
            match r {
                Ok(()) => old(self)@.move_error(i, n) is None && final(self)@ == old(self)@.moved(i, n),
                Err(e) => old(self)@.move_error(i, n) == Some(e) && final(self)@ == old(self)@,
            },
    {
        let ghost v0 = self@;
        let kind = match self.interfaces.get(&i) {
            Some(v) => v.kind,
            None => return Err(NetError::NotFound),
        };
        if !self.namespaces.contains_key(&n) {
            return Err(NetError::NotFound);
        }
        proof {
            if v0.interfaces[i].ns is Some {
                lemma_without(v0.namespaces[v0.interfaces[i].ns.unwrap()].interfaces, i);
            }
        }
        self.leave_namespace(i);
        let mut iface = self.take_interface(i);
        iface.ns = Some(n);
        self.put_interface(iface);
        let mut ns = self.take_namespace(n);
        ns.interfaces.push(i);
        self.put_namespace(ns);
        let ghost v1 = self@;
        let ghost ns1 = v0.namespaces_without(i);
        assert(v1.interfaces =~= v0.moved(i, n).interfaces);
        assert(v1.namespaces =~= v0.moved(i, n).namespaces);
        assert(!ns1[n].interfaces.contains(i)) by {
            if ns1[n].interfaces.contains(i) {
                let k = choose|k: int| 0 <= k < ns1[n].interfaces.len() && ns1[n].interfaces[k] == i;
                assert(v0.namespaces[n].interfaces[k] == i);
            }
        }
        assert(v1.records_keyed());
        assert(v1.bridges_consistent()) by {
            assert forall|x: u128, j: int| #![trigger v1.interfaces[x].children[j]]
                v1.interfaces.contains_key(x) && 0 <= j < v1.interfaces[x].children.len() implies {
                    let c = v1.interfaces[x].children[j];
                    &&& v1.interfaces.contains_key(c)
                    &&& v1.interfaces[c].parent == Some(x)
                } by {
                assert(v0.interfaces[x].children[j] == v1.interfaces[x].children[j]);
            }
        }
        assert(v1.namespaces_consistent()) by {
            assert forall|m: u128, j: int| #![trigger v1.namespaces[m].interfaces[j]]
                v1.namespaces.contains_key(m) && 0 <= j < v1.namespaces[m].interfaces.len() implies {
                    let c = v1.namespaces[m].interfaces[j];
                    &&& v1.interfaces.contains_key(c)
                    &&& v1.interfaces[c].ns == Some(m)
                } by {
                let c = v1.namespaces[m].interfaces[j];
                if m == n && j == ns1[n].interfaces.len() {
                } else {
                    assert(ns1[m].interfaces[j] == c);
                    if v0.interfaces[i].ns == Some(m) {
                        assert(v0.namespaces[m].interfaces.contains(c));
                        let k = choose|k: int| 0 <= k < v0.namespaces[m].interfaces.len() && v0.namespaces[m].interfaces[k] == c;
                        assert(v0.namespaces[m].interfaces[k] == c);
                    } else {
                        assert(v0.namespaces[m].interfaces[j] == c);
                    }
                }
            }
            assert forall|x: u128| #[trigger] v1.interfaces.contains_key(x) && v1.interfaces[x].ns is Some implies {
                let m = v1.interfaces[x].ns.unwrap();
                &&& v1.namespaces.contains_key(m)
                &&& v1.namespaces[m].interfaces.contains(x)
            } by {
                if x == i {
                    assert(v1.namespaces[n].interfaces[ns1[n].interfaces.len() as int] == i);
                } else {
                    let m = v0.interfaces[x].ns.unwrap();
                    assert(ns1[m].interfaces.contains(x));
                    let k = choose|k: int| 0 <= k < ns1[m].interfaces.len() && ns1[m].interfaces[k] == x;
                    assert(v1.namespaces[m].interfaces[k] == x);
                }
            }
        }
        Ok(())
    }

    /// Moves interface `i` out of the namespace it is in, if any, into the
    /// default namespace.
    pub fn move_interface_into_default_namespace(&mut self, i: u128) -> (r: Result<(), NetError>)
        requires
            old(self)@.wf(),
        ensures
            final(self)@.wf(),
            final(self)@.namespaces.dom() == old(self)@.namespaces.dom(),
            match r {
                Ok(()) => old(self)@.interfaces.contains_key(i) && final(self)@ == old(self)@.moved_to_default(i),
                Err(e) => !old(self)@.interfaces.contains_key(i) && e == NetError::NotFound && final(self)@ == old(self)@,
            },
    {
        let ghost v0 = self@;
        if !self.interfaces.contains_key(&i) {
            return Err(NetError::NotFound);
        }
        proof {
            assert(v0.interfaces.contains_key(i));
            if v0.interfaces[i].ns is Some {
                assert(v0.namespaces.contains_key(v0.interfaces[i].ns.unwrap()));
                lemma_without(v0.namespaces[v0.interfaces[i].ns.unwrap()].interfaces, i);
            }
        }
        self.leave_namespace(i);
        let mut iface = self.take_interface(i);
        iface.ns = None;
        self.put_interface(iface);
        let ghost v1 = self@;
        let ghost ns1 = v0.namespaces_without(i);
        assert(v1.interfaces =~= v0.moved_to_default(i).interfaces);
        assert(v1.bridges_consistent()) by {
            assert forall|x: u128, j: int| #![trigger v1.interfaces[x].children[j]]
                v1.interfaces.contains_key(x) && 0 <= j < v1.interfaces[x].children.len() implies {
                    let c = v1.interfaces[x].children[j];
                    &&& v1.interfaces.contains_key(c)
                    &&& v1.interfaces[c].parent == Some(x)
                } by {
                assert(v0.interfaces[x].children[j] == v1.interfaces[x].children[j]);
            }
        }
        assert(v1.namespaces_consistent()) by {
            assert forall|m: u128, j: int| #![trigger v1.namespaces[m].interfaces[j]]
                v1.namespaces.contains_key(m) && 0 <= j < v1.namespaces[m].interfaces.len() implies {
                    let c = v1.namespaces[m].interfaces[j];
                    &&& v1.interfaces.contains_key(c)
                    &&& v1.interfaces[c].ns == Some(m)
                } by {
                let c = v1.namespaces[m].interfaces[j];
                if v0.interfaces[i].ns == Some(m) {
                    assert(v0.namespaces[m].interfaces.contains(c));
                    let k = choose|k: int| 0 <= k < v0.namespaces[m].interfaces.len() && v0.namespaces[m].interfaces[k] == c;
                    assert(v0.namespaces[m].interfaces[k] == c);
                } else {
                    assert(v0.namespaces[m].interfaces[j] == c);
                }
            }
            assert forall|x: u128| #[trigger] v1.interfaces.contains_key(x) && v1.interfaces[x].ns is Some implies {
                let m = v1.interfaces[x].ns.unwrap();
                &&& v1.namespaces.contains_key(m)
                &&& v1.namespaces[m].interfaces.contains(x)
            } by {
                let m = v0.interfaces[x].ns.unwrap();
                assert(ns1[m].interfaces.contains(x));
            }
        }
        Ok(())
    }

    /// Gives interface `i` a new name.
    pub fn rename_interface(&mut self, i: u128, name: String) -> (r: Result<(), NetError>)
        requires
            old(self)@.wf(),
        ensures
            final(self)@.wf(),
            final(self)@.namespaces.dom() == old(self)@.namespaces.dom(),
            match r {
                Ok(()) => {
                    &&& old(self)@.interfaces.contains_key(i)
                    &&& final(self)@ == (CatalogView {
                        interfaces: old(self)@.interfaces.insert(i, InterfaceView { name: name@, ..old(self)@.interfaces[i] }),
                        namespaces: old(self)@.namespaces,
                    })
                },
                Err(e) => !old(self)@.interfaces.contains_key(i) && e == NetError::NotFound && final(self)@ == old(self)@,
            },
    {
        let ghost v0 = self@;
        if !self.interfaces.contains_key(&i) {
            return Err(NetError::NotFound);
        }
        let ghost nm = name@;
        assert(v0.interfaces.contains_key(i));
        let mut iface = self.take_interface(i);
        iface.name = name;
        self.put_interface(iface);
        let ghost v1 = self@;
        assert(v1.interfaces =~= v0.interfaces.insert(i, InterfaceView { name: nm, ..v0.interfaces[i] }));
        assert(v1.bridges_consistent()) by {
            assert forall|x: u128, j: int| #![trigger v1.interfaces[x].children[j]]
                v1.interfaces.contains_key(x) && 0 <= j < v1.interfaces[x].children.len() implies {
                    let c = v1.interfaces[x].children[j];
                    &&& v1.interfaces.contains_key(c)
                    &&& v1.interfaces[c].parent == Some(x)
                } by {
                assert(v0.interfaces[x].children[j] == v1.interfaces[x].children[j]);
            }
        }
        assert(v1.namespaces_consistent()) by {
            assert forall|m: u128, j: int| #![trigger v1.namespaces[m].interfaces[j]]
                v1.namespaces.contains_key(m) && 0 <= j < v1.namespaces[m].interfaces.len() implies {
                    let c = v1.namespaces[m].interfaces[j];
                    &&& v1.interfaces.contains_key(c)
                    &&& v1.interfaces[c].ns == Some(m)
                } by {
                assert(v0.namespaces[m].interfaces[j] == v1.namespaces[m].interfaces[j]);
            }
        }
        Ok(())
    }

    /// Records a new veth pair, both ends in the default namespace and
    /// attached to nothing; the first end is the internal one.
    pub fn add_veth_pair(
        &mut self,
        internal_id: u128,
        internal_name: String,
        external_id: u128,
        external_name: String,
    ) -> (r: Result<(), NetError>)
        requires
            old(self)@.wf(),
        ensures
            final(self)@.wf(),
            final(self)@.namespaces.dom() == old(self)@.namespaces.dom(),
            match r {
                Ok(()) => {
                    &&& !old(self)@.interfaces.contains_key(internal_id)
                    &&& !old(self)@.interfaces.contains_key(external_id)
                    &&& internal_id != external_id
                    &&& final(self)@ == (CatalogView {
                        interfaces: old(self)@.interfaces.insert(internal_id, InterfaceView {
                            id: internal_id,
                            name: internal_name@,
                            ns: None,
                            parent: None,
                            kind: InterfaceKind::Veth { peer: external_id, internal: true },
                            children: Seq::empty(),
                            addresses: Seq::empty(),
                            mac: zero_mac(),
                        }).insert(external_id, InterfaceView {
                            id: external_id,
                            name: external_name@,
                            ns: None,
                            parent: None,
                            kind: InterfaceKind::Veth { peer: internal_id, internal: false },
                            children: Seq::empty(),
                            addresses: Seq::empty(),
                            mac: zero_mac(),
                        }),
                        namespaces: old(self)@.namespaces,
                    })
                },
                Err(e) => {
                    &&& e == NetError::AlreadyPresent
                    &&& final(self)@ == old(self)@
                    &&& (old(self)@.interfaces.contains_key(internal_id)
                        || old(self)@.interfaces.contains_key(external_id)
                        || internal_id == external_id)
                },
            },
    {
        if self.interfaces.contains_key(&internal_id) || self.interfaces.contains_key(&external_id)
            || internal_id == external_id {
            return Err(NetError::AlreadyPresent);
        }
        let ghost v0 = self@;
        self.put_interface(VirtualInterface {
            id: internal_id,
            name: internal_name,
            ns: None,
            parent: None,
            kind: InterfaceKind::Veth { peer: external_id, internal: true },
            children: Vec::new(),
            addresses: Vec::new(),
            mac: MacAddress(0, 0, 0, 0, 0, 0),
        });
        self.put_interface(VirtualInterface {
            id: external_id,
            name: external_name,
            ns: None,
            parent: None,
            kind: InterfaceKind::Veth { peer: internal_id, internal: false },
            children: Vec::new(),
            addresses: Vec::new(),
            mac: MacAddress(0, 0, 0, 0, 0, 0),
        });
        let ghost v1 = self@;
        assert(v1.bridges_consistent()) by {
            assert forall|b: u128, j: int| #![trigger v1.interfaces[b].children[j]]
                v1.interfaces.contains_key(b) && 0 <= j < v1.interfaces[b].children.len() implies {
                    let c = v1.interfaces[b].children[j];
                    &&& v1.interfaces.contains_key(c)
                    &&& v1.interfaces[c].parent == Some(b)
                } by {
                assert(v0.interfaces[b].children[j] == v1.interfaces[b].children[j]);
            }
        }
        assert(v1.namespaces_consistent()) by {
            assert forall|n: u128, j: int| #![trigger v1.namespaces[n].interfaces[j]]
                v1.namespaces.contains_key(n) && 0 <= j < v1.namespaces[n].interfaces.len() implies
                    v1.namespaces[n].interfaces[j] != internal_id
                    && v1.namespaces[n].interfaces[j] != external_id by {
                assert(v0.interfaces.contains_key(v0.namespaces[n].interfaces[j]));
            }
        }
        Ok(())
    }

    /// Removes the record of `x` and every link to it. The veth invariant
    /// is left to the caller.
    fn unlink(&mut self, x: u128)
        requires
            old(self)@.links_wf(),
            old(self)@.interfaces.contains_key(x),
        ensures
            final(self)@ == old(self)@.removed_one(x),
    {
        let ghost v0 = self@;
        self.leave_namespace(x);
        let rec = self.take_interface(x);
        match rec.parent {
            Some(p) => {
                if p != x {
                    assert(v0.interfaces.contains_key(p));
                    let mut bridge = self.take_interface(p);
                    remove_id(&mut bridge.children, x);
                    self.put_interface(bridge);
                }
            },
            None => {},
        }
        let ghost m2 = self@.interfaces;
        assert forall|d: u128| #[trigger] m2.contains_key(d) implies m2[d].id == d by {
            assert(v0.interfaces.contains_key(d));
        }
        let kids = &rec.children;
        let mut k: usize = 0;
        while k < kids.len()
            invariant
                k <= kids.len(),
                !m2.contains_key(x),
                forall|d: u128| #[trigger] m2.contains_key(d) ==> m2[d].id == d,
                self@.namespaces == v0.namespaces_without(x),
                self@.interfaces == Map::new(
                    |c: u128| m2.contains_key(c),
                    |c: u128| if kids@.subrange(0, k as int).contains(c) {
                        InterfaceView { parent: None, ..m2[c] }
                    } else {
                        m2[c]
                    },
                ),
            decreases kids.len() - k,
        {
            let c = kids[k];
            let ghost pre = kids@.subrange(0, k as int);
            let ghost before = self@.interfaces;
            if self.interfaces.contains_key(&c) {
                assert(m2.contains_key(c));
                assert(before[c].id == c);
                let mut child = self.take_interface(c);
                assert(child.id == c);
                child.parent = None;
                self.put_interface(child);
                assert(self@.interfaces == before.remove(c).insert(c, InterfaceView { parent: None, ..before[c] }));
            } else {
                assert(self@.interfaces == before);
            }
            k = k + 1;
            let ghost post = kids@.subrange(0, k as int);
            assert(post =~= pre.push(c));
            assert forall|d: u128| #[trigger] post.contains(d) <==> (pre.contains(d) || d == c) by {
                if post.contains(d) {
                    let q = choose|q: int| 0 <= q < post.len() && post[q] == d;
                    if q < pre.len() {
                        assert(pre[q] == d);
                    }
                }
                if pre.contains(d) {
                    let q = choose|q: int| 0 <= q < pre.len() && pre[q] == d;
                    assert(post[q] == d);
                }
                if d == c {
                    assert(post[pre.len() as int] == d);
                }
            }
            assert forall|d: u128| #[trigger] m2.contains_key(d) implies self@.interfaces.contains_key(d)
                && self@.interfaces[d] == (if post.contains(d) {
                    InterfaceView { parent: None, ..m2[d] }
                } else {
                    m2[d]
                }) by {
                if d != c {
                    assert(self@.interfaces[d] == before[d]);
                }
            }
            assert(self@.interfaces =~= Map::new(
                |c: u128| m2.contains_key(c),
                |c: u128| if kids@.subrange(0, k as int).contains(c) {
                    InterfaceView { parent: None, ..m2[c] }
                } else {
                    m2[c]
                },
            ));
        }
        let ghost v1 = self@;
        assert(kids@.subrange(0, kids@.len() as int) =~= kids@);
        assert forall|c: u128| v0.interfaces.contains_key(c) && c != x implies
            (kids@.contains(c) <==> #[trigger] v0.interfaces[c].parent == Some(x)) by {
            if v0.interfaces[c].parent == Some(x) {
                assert(v0.interfaces[x].children.contains(c));
            }
            if kids@.contains(c) {
                let q = choose|q: int| 0 <= q < kids@.len() && kids@[q] == c;
                assert(v0.interfaces[x].children[q] == c);
            }
        }
        assert(v1.interfaces =~= v0.removed_one(x).interfaces);
    }

    /// Removes interface `i` from the catalog, with every link to it; a veth
    /// end is removed together with its peer.
    pub fn remove_interface(&mut self, i: u128) -> (r: Result<(), NetError>)
        requires
            old(self)@.wf(),
        ensures
            final(self)@.wf(),
            final(self)@.namespaces.dom() == old(self)@.namespaces.dom(),
            forall|c: u128| #[trigger] final(self)@.interfaces.contains_key(c) ==> {
                &&& old(self)@.interfaces.contains_key(c)
                &&& same_attributes(final(self)@.interfaces[c], old(self)@.interfaces[c])
            },
            forall|c: u128| #[trigger] old(self)@.interfaces.contains_key(c) && c != i
                && !(old(self)@.interfaces[i].kind is Veth && c == old(self)@.interfaces[i].kind->peer)
                ==> final(self)@.interfaces.contains_key(c),
            match r {
                Ok(()) => old(self)@.interfaces.contains_key(i) && final(self)@ == old(self)@.removed(i),
                Err(e) => !old(self)@.interfaces.contains_key(i) && e == NetError::NotFound && final(self)@ == old(self)@,
            },
    {
        let ghost v0 = self@;
        let kind = match self.interfaces.get(&i) {
            Some(v) => v.kind,
            None => return Err(NetError::NotFound),
        };
        proof {
            lemma_removed_one_links_wf(v0, i);
        }
        self.unlink(i);
        match kind {
            InterfaceKind::Veth { peer, .. } => {
                proof {
                    lemma_removed_one_links_wf(v0.removed_one(i), peer);
                }
                self.unlink(peer);
            },
            _ => {},
        }
        proof {
            lemma_removed_veths(v0, i);
            lemma_namespaces_without_dom(v0, i);
            let w1 = v0.removed_one(i);
            if let InterfaceKind::Veth { peer, .. } = v0.interfaces[i].kind {
                assert(w1.interfaces.contains_key(peer));
                assert forall|c: u128| #[trigger] w1.removed_one(peer).interfaces.contains_key(c) implies {
                    &&& v0.interfaces.contains_key(c)
                    &&& same_attributes(w1.removed_one(peer).interfaces[c], v0.interfaces[c])
                } by {
                    assert(w1.interfaces.contains_key(c));
                }
            }
            if let InterfaceKind::Veth { peer, .. } = v0.interfaces[i].kind {
                lemma_namespaces_without_dom(v0.removed_one(i), peer);
            }
        }
        Ok(())
    }

    /// Removes every interface of the namespace `n`, each veth end together
    /// with its peer, as deleting the kernel namespace does.
    pub fn clear_namespace(&mut self, n: u128) -> (r: Result<(), NetError>)
        requires
            old(self)@.wf(),
        ensures
            final(self)@.wf(),
            final(self)@.namespaces.dom() == old(self)@.namespaces.dom(),
            match r {
                Ok(()) => {
                    &&& old(self)@.namespaces.contains_key(n)
                    &&& final(self)@.namespaces[n].interfaces.len() == 0
                    &&& forall|c: u128| #[trigger] final(self)@.interfaces.contains_key(c) ==> {
                        &&& old(self)@.interfaces.contains_key(c)
                        &&& final(self)@.interfaces[c].ns == old(self)@.interfaces[c].ns
                        &&& final(self)@.interfaces[c].kind == old(self)@.interfaces[c].kind
                        &&& same_attributes(final(self)@.interfaces[c], old(self)@.interfaces[c])
                    }
                    &&& forall|c: u128| #[trigger] old(self)@.interfaces.contains_key(c)
                        && old(self)@.interfaces[c].ns != Some(n)
                        && !(old(self)@.interfaces[c].kind is Veth
                            && old(self)@.interfaces[old(self)@.interfaces[c].kind->peer].ns == Some(n))
                        ==> final(self)@.interfaces.contains_key(c)
                },
                Err(e) => !old(self)@.namespaces.contains_key(n) && e == NetError::NotFound && final(self)@ == old(self)@,
            },
    {
        let ghost v0 = self@;
        let mut len = match self.namespaces.get(&n) {
            Some(ns) => ns.interfaces.len(),
            None => return Err(NetError::NotFound),
        };
        while len > 0
            invariant
                self@.wf(),
                self@.namespaces.dom() == v0.namespaces.dom(),
                v0.namespaces.contains_key(n),
                len == self@.namespaces[n].interfaces.len(),
                forall|c: u128| #[trigger] self@.interfaces.contains_key(c) ==> {
                    &&& v0.interfaces.contains_key(c)
                    &&& self@.interfaces[c].ns == v0.interfaces[c].ns
                    &&& self@.interfaces[c].kind == v0.interfaces[c].kind
                    &&& same_attributes(self@.interfaces[c], v0.interfaces[c])
                },
                forall|c: u128| #[trigger] v0.interfaces.contains_key(c)
                    && v0.interfaces[c].ns != Some(n)
                    && !(v0.interfaces[c].kind is Veth
                        && v0.interfaces[v0.interfaces[c].kind->peer].ns == Some(n))
                    ==> self@.interfaces.contains_key(c),
            decreases len,
        {
            let ghost v1 = self@;
            let x = match self.namespaces.get(&n) {
                Some(ns) => ns.interfaces[0],
                None => 0,
            };
            assert(v1.namespaces[n].interfaces[0] == x);
            assert(v1.interfaces.contains_key(x) && v1.interfaces[x].ns == Some(n));
            let _ = self.remove_interface(x);
            proof {
                lemma_removed_one_links_wf(v1, x);
                lemma_without(v1.namespaces[n].interfaces, x);
                assert(v1.namespaces[n].interfaces.contains(x));
                let w1 = v1.removed_one(x);
                assert(w1.namespaces[n].interfaces.len() == v1.namespaces[n].interfaces.len() - 1);
                if let InterfaceKind::Veth { peer, .. } = v1.interfaces[x].kind {
                    lemma_removed_one_links_wf(w1, peer);
                    assert(w1.interfaces.contains_key(peer));
                    if w1.interfaces[peer].ns is Some {
                        let m = w1.interfaces[peer].ns.unwrap();
                        assert(w1.namespaces.contains_key(m));
                        lemma_without_len(w1.namespaces[m].interfaces, peer);
                    }
                    assert(w1.removed_one(peer).namespaces[n].interfaces.len() <= w1.namespaces[n].interfaces.len());
                }
                assert forall|c: u128| #[trigger] v0.interfaces.contains_key(c)
                    && v0.interfaces[c].ns != Some(n)
                    && !(v0.interfaces[c].kind is Veth
                        && v0.interfaces[v0.interfaces[c].kind->peer].ns == Some(n))
                    implies self@.interfaces.contains_key(c) by {
                    assert(v1.interfaces.contains_key(c));
                    assert(c != x);
                    if let InterfaceKind::Veth { peer, .. } = v1.interfaces[x].kind {
                        if c == peer {
                            assert(v1.interfaces[c].kind->peer == x);
                        }
                        assert(w1.interfaces.contains_key(c));
                    }
                }
            }
            len = match self.namespaces.get(&n) {
                Some(ns) => ns.interfaces.len(),
                None => 0,
            };
        }
        Ok(())
    }

    /// Replaces the name, addresses and MAC of interface `i`, which no
    /// invariant speaks of.
    fn replace_attributes(&mut self, i: u128, name: String, addresses: Vec<IpAddress>, mac: MacAddress)
        requires
            old(self)@.wf(),
            old(self)@.interfaces.contains_key(i),
        ensures
            final(self)@.wf(),
            final(self)@ == (CatalogView {
                interfaces: old(self)@.interfaces.insert(i, InterfaceView {
                    name: name@,
                    addresses: addresses@,
                    mac,
                    ..old(self)@.interfaces[i]
                }),
                namespaces: old(self)@.namespaces,
            }),
    {
        let ghost v0 = self@;
        let ghost nm = name@;
        let ghost ad = addresses@;
        let mut iface = self.take_interface(i);
        iface.name = name;
        iface.addresses = addresses;
        iface.mac = mac;
        self.put_interface(iface);
        let ghost v1 = self@;
        assert(v1.interfaces =~= v0.interfaces.insert(i, InterfaceView { name: nm, addresses: ad, mac, ..v0.interfaces[i] }));
        assert(v1.bridges_consistent()) by {
            assert forall|x: u128, j: int| #![trigger v1.interfaces[x].children[j]]
                v1.interfaces.contains_key(x) && 0 <= j < v1.interfaces[x].children.len() implies {
                    let c = v1.interfaces[x].children[j];
                    &&& v1.interfaces.contains_key(c)
                    &&& v1.interfaces[c].parent == Some(x)
                } by {
                assert(v0.interfaces[x].children[j] == v1.interfaces[x].children[j]);
            }
        }
        assert(v1.namespaces_consistent()) by {
            assert forall|m: u128, j: int| #![trigger v1.namespaces[m].interfaces[j]]
                v1.namespaces.contains_key(m) && 0 <= j < v1.namespaces[m].interfaces.len() implies {
                    let c = v1.namespaces[m].interfaces[j];
                    &&& v1.interfaces.contains_key(c)
                    &&& v1.interfaces[c].ns == Some(m)
                } by {
                assert(v0.namespaces[m].interfaces[j] == v1.namespaces[m].interfaces[j]);
            }
        }
    }

    /// Adds the address `addr` to interface `i`.
    pub fn add_address(&mut self, i: u128, addr: IpAddress) -> (r: Result<(), NetError>)
        requires
            old(self)@.wf(),
        ensures
            final(self)@.wf(),
            final(self)@.namespaces.dom() == old(self)@.namespaces.dom(),
            match r {
                Ok(()) => {
                    &&& old(self)@.interfaces.contains_key(i)
                    &&& final(self)@ == (CatalogView {
                        interfaces: old(self)@.interfaces.insert(i, InterfaceView {
                            addresses: old(self)@.interfaces[i].addresses.push(addr),
                            ..old(self)@.interfaces[i]
                        }),
                        namespaces: old(self)@.namespaces,
                    })
                },
                Err(e) => !old(self)@.interfaces.contains_key(i) && e == NetError::NotFound && final(self)@ == old(self)@,
            },
    {
        let rec = self.get_interface(i)?;
        let mut addresses = rec.addresses;
        addresses.push(addr);
        self.replace_attributes(i, rec.name, addresses, rec.mac);
        Ok(())
    }

    /// Sets the addresses of interface `i` to those that were found on it.
    pub fn set_addresses(&mut self, i: u128, addresses: Vec<IpAddress>) -> (r: Result<(), NetError>)
        requires
            old(self)@.wf(),
        ensures
            final(self)@.wf(),
            final(self)@.namespaces.dom() == old(self)@.namespaces.dom(),
            match r {
                Ok(()) => {
                    &&& old(self)@.interfaces.contains_key(i)
                    &&& final(self)@ == (CatalogView {
                        interfaces: old(self)@.interfaces.insert(i, InterfaceView {
                            addresses: addresses@,
                            ..old(self)@.interfaces[i]
                        }),
                        namespaces: old(self)@.namespaces,
                    })
                },
                Err(e) => !old(self)@.interfaces.contains_key(i) && e == NetError::NotFound && final(self)@ == old(self)@,
            },
    {
        let rec = self.get_interface(i)?;
        self.replace_attributes(i, rec.name, addresses, rec.mac);
        Ok(())
    }

    /// Takes the first occurrence of the address `addr` off interface `i`.
    pub fn remove_address(&mut self, i: u128, addr: IpAddress) -> (r: Result<(), NetError>)
        requires
            old(self)@.wf(),
        ensures
            final(self)@.wf(),
            final(self)@.namespaces.dom() == old(self)@.namespaces.dom(),
            match r {
                Ok(()) => {
                    &&& old(self)@.interfaces.contains_key(i)
                    &&& exists|p: int| {
                        &&& 0 <= p < old(self)@.interfaces[i].addresses.len()
                        &&& old(self)@.interfaces[i].addresses[p] == addr
                        &&& (forall|j: int| 0 <= j < p ==> old(self)@.interfaces[i].addresses[j] != addr)
                        &&& #[trigger] final(self)@ == (CatalogView {
                            interfaces: old(self)@.interfaces.insert(i, InterfaceView {
                                addresses: old(self)@.interfaces[i].addresses.remove(p),
                                ..old(self)@.interfaces[i]
                            }),
                            namespaces: old(self)@.namespaces,
                        })
                    }
                },
                Err(e) => {
                    &&& final(self)@ == old(self)@
                    &&& e == if !old(self)@.interfaces.contains_key(i) {
                        NetError::NotFound
                    } else {
                        NetError::NotConnected
                    }
                    &&& (old(self)@.interfaces.contains_key(i) ==> !old(self)@.interfaces[i].addresses.contains(addr))
                },
            },
    {
        let rec = self.get_interface(i)?;
        let mut addresses = rec.addresses;
        let mut k: usize = 0;
        while k < addresses.len() && addresses[k] != addr
            invariant
                k <= addresses@.len(),
                forall|j: int| 0 <= j < k ==> addresses@[j] != addr,
            decreases addresses.len() - k,
        {
            k = k + 1;
        }
        if k == addresses.len() {
            return Err(NetError::NotConnected);
        }
        let ghost v0 = self@;
        let ghost before = addresses@;
        assert(before[k as int] == addr);
        addresses.remove(k);
        self.replace_attributes(i, rec.name, addresses, rec.mac);
        assert(self@ == (CatalogView {
            interfaces: v0.interfaces.insert(i, InterfaceView {
                addresses: v0.interfaces[i].addresses.remove(k as int),
                ..v0.interfaces[i]
            }),
            namespaces: v0.namespaces,
        }));
        Ok(())
    }

    /// Sets the MAC address of interface `i`.
    pub fn set_mac(&mut self, i: u128, mac: MacAddress) -> (r: Result<(), NetError>)
        requires
            old(self)@.wf(),
        ensures
            final(self)@.wf(),
            final(self)@.namespaces.dom() == old(self)@.namespaces.dom(),
            match r {
                Ok(()) => {
                    &&& old(self)@.interfaces.contains_key(i)
                    &&& final(self)@ == (CatalogView {
                        interfaces: old(self)@.interfaces.insert(i, InterfaceView { mac, ..old(self)@.interfaces[i] }),
                        namespaces: old(self)@.namespaces,
                    })
                },
                Err(e) => !old(self)@.interfaces.contains_key(i) && e == NetError::NotFound && final(self)@ == old(self)@,
            },
    {
        let rec = self.get_interface(i)?;
        self.replace_attributes(i, rec.name, rec.addresses, mac);
        Ok(())
    }

    /// The record of the bridge `id`.
    pub fn get_virtual_bridge(&self, id: u128) -> (r: Result<VirtualInterface, NetError>)
        ensures
            match r {
                Ok(v) => {
                    &&& self@.interfaces.contains_key(id)
                    &&& self@.interfaces[id].kind == InterfaceKind::Bridge
                    &&& v@ == self@.interfaces[id]
                },
                Err(e) => e == if !self@.interfaces.contains_key(id) {
                    NetError::NotFound
                } else {
                    NetError::WrongKind
                } && (self@.interfaces.contains_key(id) ==> self@.interfaces[id].kind != InterfaceKind::Bridge),
            },
    {
        let v = self.get_interface(id)?;
        match v.kind {
            InterfaceKind::Bridge => Ok(v),
            _ => Err(NetError::WrongKind),
        }
    }

    /// Removes interface `i` when it is of the kind `expected`; an interface
    /// inside a namespace is removed whatever its kind, as its worker decides.
    pub fn remove_interface_expecting(&mut self, i: u128, expected: InterfaceKind) -> (r: Result<(), NetError>)
        requires
            old(self)@.wf(),
        ensures
            final(self)@.wf(),
            final(self)@.namespaces.dom() == old(self)@.namespaces.dom(),
            match r {
                Ok(()) => {
                    &&& old(self)@.interfaces.contains_key(i)
                    &&& (old(self)@.interfaces[i].ns is Some || old(self)@.interfaces[i].kind == expected)
                    &&& final(self)@ == old(self)@.removed(i)
                },
                Err(e) => {
                    &&& final(self)@ == old(self)@
                    &&& e == if !old(self)@.interfaces.contains_key(i) {
                        NetError::NotFound
                    } else {
                        NetError::WrongKind
                    }
                    &&& (old(self)@.interfaces.contains_key(i) ==> old(self)@.interfaces[i].ns is None
                        && old(self)@.interfaces[i].kind != expected)
                },
            },
    {
        let rec = self.get_interface(i)?;
        if rec.ns.is_none() && rec.kind != expected {
            return Err(NetError::WrongKind);
        }
        self.remove_interface(i)
    }

    /// Removes interface `i`, which must be inside the namespace `n`.
    pub fn remove_interface_in_namespace(&mut self, i: u128, n: u128) -> (r: Result<(), NetError>)
        requires
            old(self)@.wf(),
        ensures
            final(self)@.wf(),
            final(self)@.namespaces.dom() == old(self)@.namespaces.dom(),
            match r {
                Ok(()) => {
                    &&& old(self)@.interfaces.contains_key(i)
                    &&& old(self)@.interfaces[i].ns == Some(n)
                    &&& final(self)@ == old(self)@.removed(i)
                },
                Err(e) => {
                    &&& final(self)@ == old(self)@
                    &&& e == if !old(self)@.namespaces.contains_key(n) || !old(self)@.interfaces.contains_key(i) {
                        NetError::NotFound
                    } else {
                        NetError::NotConnected
                    }
                    &&& (old(self)@.namespaces.contains_key(n) && old(self)@.interfaces.contains_key(i)
                        ==> old(self)@.interfaces[i].ns != Some(n))
                },
            },
    {
        if !self.namespaces.contains_key(&n) {
            return Err(NetError::NotFound);
        }
        let rec = self.get_interface(i)?;
        if rec.ns != Some(n) {
            return Err(NetError::NotConnected);
        }
        self.remove_interface(i)
    }

    /// The name of interface `i`, through which the namespace `n` is to
    /// route by default; `i` must be inside `n`.
    pub fn default_route_target(&self, n: u128, i: u128) -> (r: Result<String, NetError>)
        ensures
            match r {
                Ok(name) => {
                    &&& self@.namespaces.contains_key(n)
                    &&& self@.interfaces.contains_key(i)
                    &&& self@.interfaces[i].ns == Some(n)
                    &&& name@ == self@.interfaces[i].name
                },
                Err(e) => e == if !self@.namespaces.contains_key(n) || !self@.interfaces.contains_key(i) {
                    NetError::NotFound
                } else {
                    NetError::NotConnected
                } && (self@.namespaces.contains_key(n) && self@.interfaces.contains_key(i)
                    ==> self@.interfaces[i].ns != Some(n)),
            },
    {
        if !self.namespaces.contains_key(&n) {
            return Err(NetError::NotFound);
        }
        let rec = self.get_interface(i)?;
        if rec.ns != Some(n) {
            return Err(NetError::NotConnected);
        }
        Ok(rec.name)
    }

    /// Records a veth pair created inside the namespace `n`: both ends in
    /// `n`, the first the internal one.
    pub fn add_veth_pair_in_namespace(
        &mut self,
        internal_id: u128,
        internal_name: String,
        external_id: u128,
        external_name: String,
        n: u128,
    ) -> (r: Result<(), NetError>)
        requires
            old(self)@.wf(),
        ensures
            final(self)@.wf(),
            final(self)@.namespaces.dom() == old(self)@.namespaces.dom(),
            r is Ok <==> {
                &&& old(self)@.namespaces.contains_key(n)
                &&& !old(self)@.interfaces.contains_key(internal_id)
                &&& !old(self)@.interfaces.contains_key(external_id)
                &&& internal_id != external_id
            },
            r is Err ==> final(self)@ == old(self)@,
            match r {
                Ok(()) => final(self)@ == (CatalogView {
                    interfaces: old(self)@.interfaces
                        .insert(internal_id, fresh_record(internal_id, internal_name@, Some(n),
                            InterfaceKind::Veth { peer: external_id, internal: true }))
                        .insert(external_id, fresh_record(external_id, external_name@, Some(n),
                            InterfaceKind::Veth { peer: internal_id, internal: false })),
                    namespaces: old(self)@.namespaces.insert(n, NamespaceView {
                        interfaces: old(self)@.namespaces[n].interfaces.push(internal_id).push(external_id),
                        ..old(self)@.namespaces[n]
                    }),
                }),
                Err(e) => e == if !old(self)@.namespaces.contains_key(n) {
                    NetError::NotFound
                } else {
                    NetError::AlreadyPresent
                },
            },
    {
        if !self.namespaces.contains_key(&n) {
            return Err(NetError::NotFound);
        }
        let ghost v0 = self@;
        let ghost (iname, ename) = (internal_name@, external_name@);
        self.add_veth_pair(internal_id, internal_name, external_id, external_name)?;
        let ghost v1 = self@;
        let _ = self.move_interface_into_namespace(internal_id, n);
        let ghost v2 = self@;
        assert(v1.namespaces_without(internal_id) == v1.namespaces);
        let _ = self.move_interface_into_namespace(external_id, n);
        assert(v2.namespaces_without(external_id) == v2.namespaces);
        let ghost v3 = self@;
        assert(v3.interfaces =~= v0.interfaces
            .insert(internal_id, fresh_record(internal_id, iname, Some(n),
                InterfaceKind::Veth { peer: external_id, internal: true }))
            .insert(external_id, fresh_record(external_id, ename, Some(n),
                InterfaceKind::Veth { peer: internal_id, internal: false })));
        assert(v3.namespaces =~= v0.namespaces.insert(n, NamespaceView {
            interfaces: v0.namespaces[n].interfaces.push(internal_id).push(external_id),
            ..v0.namespaces[n]
        }));
        Ok(())
    }

    /// The kernel work that deleting interface `i` takes: inside a namespace,
    /// a request to its worker; outside, the link itself and, for a veth
    /// end, its recorded peer.
    pub fn plan_interface_deletion(&self, i: u128) -> (r: Result<InterfaceDeletion, NetError>)
        ensures
            match r {
                Err(e) => !self@.interfaces.contains_key(i) && e == NetError::NotFound,
                Ok(d) => {
                    let rec = self@.interfaces[i];
                    &&& self@.interfaces.contains_key(i)
                    &&& match rec.ns {
                        Some(n) => match d {
                            InterfaceDeletion::Worker { ns, name, is_veth, peer_recorded } => {
                                &&& ns == n
                                &&& name@ == rec.name
                                &&& is_veth == rec.kind is Veth
                                &&& peer_recorded == (rec.kind is Veth && self@.interfaces.contains_key(rec.kind->peer))
                            },
                            _ => false,
                        },
                        None => match rec.kind {
                            InterfaceKind::Veth { peer: p, .. } => match d {
                                InterfaceDeletion::VethPair { name, peer } => {
                                    &&& name@ == rec.name
                                    &&& match peer {
                                        Some(q) => self@.interfaces.contains_key(p) && q@ == self@.interfaces[p].name,
                                        None => !self@.interfaces.contains_key(p),
                                    }
                                },
                                _ => false,
                            },
                            _ => match d {
                                InterfaceDeletion::Link { name } => name@ == rec.name,
                                _ => false,
                            },
                        },
                    }
                },
            },
    {
        let rec = self.get_interface(i)?;
        let peer_record = match rec.kind {
            InterfaceKind::Veth { peer, .. } => match self.get_interface(peer) {
                Ok(p) => Some(p.name),
                Err(_) => None,
            },
            _ => None,
        };
        match rec.ns {
            Some(ns) => {
                let is_veth = match rec.kind {
                    InterfaceKind::Veth { .. } => true,
                    _ => false,
                };
                Ok(InterfaceDeletion::Worker { ns, name: rec.name, is_veth, peer_recorded: peer_record.is_some() })
            },
            None => match rec.kind {
                InterfaceKind::Veth { .. } => Ok(InterfaceDeletion::VethPair { name: rec.name, peer: peer_record }),
                _ => Ok(InterfaceDeletion::Link { name: rec.name }),
            },
        }
    }

    /// Removes the namespace `n`, which must hold no interface.
    pub fn remove_network_namespace(&mut self, n: u128) -> (r: Result<(), NetError>)
        requires
            old(self)@.wf(),
        ensures
            final(self)@.wf(),
            match r {
                Ok(()) => {
                    &&& old(self)@.namespaces.contains_key(n)
                    &&& old(self)@.namespaces[n].interfaces.len() == 0
                    &&& final(self)@ == (CatalogView {
                        interfaces: old(self)@.interfaces,
                        namespaces: old(self)@.namespaces.remove(n),
                    })
                },
                Err(e) => {
                    &&& final(self)@ == old(self)@
                    &&& e == if !old(self)@.namespaces.contains_key(n) {
                        NetError::NotFound
                    } else {
                        NetError::NetworkingError(FailureCause::NamespaceInUse)
                    }
                    &&& (!old(self)@.namespaces.contains_key(n) || old(self)@.namespaces[n].interfaces.len() > 0)
                },
            },
    {
        let ghost v0 = self@;
        let members = match self.namespaces.get(&n) {
            Some(v) => v.interfaces.len(),
            None => return Err(NetError::NotFound),
        };
        if members > 0 {
            return Err(NetError::NetworkingError(FailureCause::NamespaceInUse));
        }
        let _ = self.take_namespace(n);
        let ghost v1 = self@;
        assert(v1.namespaces_consistent()) by {
            assert forall|m: u128, j: int| #![trigger v1.namespaces[m].interfaces[j]]
                v1.namespaces.contains_key(m) && 0 <= j < v1.namespaces[m].interfaces.len() implies {
                    let c = v1.namespaces[m].interfaces[j];
                    &&& v1.interfaces.contains_key(c)
                    &&& v1.interfaces[c].ns == Some(m)
                } by {
                assert(v0.namespaces[m].interfaces[j] == v1.namespaces[m].interfaces[j]);
            }
            assert forall|x: u128| #[trigger] v1.interfaces.contains_key(x) && v1.interfaces[x].ns is Some implies
                v1.interfaces[x].ns.unwrap() != n by {
                if v0.interfaces[x].ns == Some(n) {
                    assert(v0.namespaces[n].interfaces.contains(x));
                }
            }
        }
        Ok(())
    }
}

/// Taking an interface out of its namespace's member list keeps the set of namespaces.
proof fn lemma_namespaces_without_dom(v: CatalogView, x: u128)
    requires
        v.links_wf(),
        v.interfaces.contains_key(x),
    ensures
        v.namespaces_without(x).dom() == v.namespaces.dom(),
        v.removed_one(x).namespaces.dom() == v.namespaces.dom(),
{
    if v.interfaces[x].ns is Some {
        assert(v.namespaces.contains_key(v.interfaces[x].ns.unwrap()));
    }
    assert(v.namespaces_without(x).dom() =~= v.namespaces.dom());
}

/// Removing one record keeps every invariant but the one on veth pairs.
proof fn lemma_removed_one_links_wf(v: CatalogView, x: u128)
    requires
        v.links_wf(),
        v.interfaces.contains_key(x),
    ensures
        v.removed_one(x).links_wf(),
        forall|c: u128| #[trigger] v.removed_one(x).interfaces.contains_key(c) ==> {
            &&& v.interfaces.contains_key(c)
            &&& v.removed_one(x).interfaces[c].kind == v.interfaces[c].kind
            &&& v.removed_one(x).interfaces[c].ns == v.interfaces[c].ns
            &&& same_attributes(v.removed_one(x).interfaces[c], v.interfaces[c])
        },
        forall|c: u128| #[trigger] v.interfaces.contains_key(c) && c != x ==> v.removed_one(x).interfaces.contains_key(c),
        !v.removed_one(x).interfaces.contains_key(x),
{
    let w = v.removed_one(x);
    let xv = v.interfaces[x];
    if xv.ns is Some {
        lemma_without(v.namespaces[xv.ns.unwrap()].interfaces, x);
    }
    if xv.parent is Some {
        lemma_without(v.interfaces[xv.parent.unwrap()].children, x);
    }
    assert(w.records_keyed()) by {
        assert forall|c: u128| #[trigger] w.interfaces.contains_key(c) implies {
            &&& w.interfaces[c].id == c
            &&& w.interfaces[c].children.no_duplicates()
            &&& (w.interfaces[c].kind != InterfaceKind::Bridge ==> w.interfaces[c].children.len() == 0)
        } by {
            if xv.parent == Some(c) {
                lemma_without(v.interfaces[c].children, x);
            }
        }
    }
    assert(w.bridges_consistent()) by {
        assert forall|q: u128, j: int| #![trigger w.interfaces[q].children[j]]
            w.interfaces.contains_key(q) && 0 <= j < w.interfaces[q].children.len() implies {
                let d = w.interfaces[q].children[j];
                &&& w.interfaces.contains_key(d)
                &&& w.interfaces[d].parent == Some(q)
            } by {
            let d = w.interfaces[q].children[j];
            if xv.parent == Some(q) {
                lemma_without(v.interfaces[q].children, x);
                assert(v.interfaces[q].children.contains(d));
                let k = choose|k: int| 0 <= k < v.interfaces[q].children.len() && v.interfaces[q].children[k] == d;
                assert(v.interfaces[q].children[k] == d);
            } else {
                assert(v.interfaces[q].children[j] == d);
            }
        }
        assert forall|c: u128| #[trigger] w.interfaces.contains_key(c) && w.interfaces[c].parent is Some implies {
            let p = w.interfaces[c].parent.unwrap();
            &&& w.interfaces.contains_key(p)
            &&& w.interfaces[p].kind == InterfaceKind::Bridge
            &&& w.interfaces[p].children.contains(c)
        } by {
            let p = v.interfaces[c].parent.unwrap();
            if xv.parent == Some(p) {
                lemma_without(v.interfaces[p].children, x);
            }
        }
    }
    assert(w.namespaces_consistent()) by {
        assert forall|n: u128, j: int| #![trigger w.namespaces[n].interfaces[j]]
            w.namespaces.contains_key(n) && 0 <= j < w.namespaces[n].interfaces.len() implies {
                let d = w.namespaces[n].interfaces[j];
                &&& w.interfaces.contains_key(d)
                &&& w.interfaces[d].ns == Some(n)
            } by {
            let d = w.namespaces[n].interfaces[j];
            if xv.ns == Some(n) {
                assert(v.namespaces[n].interfaces.contains(d));
                let k = choose|k: int| 0 <= k < v.namespaces[n].interfaces.len() && v.namespaces[n].interfaces[k] == d;
                assert(v.namespaces[n].interfaces[k] == d);
            } else {
                assert(v.namespaces[n].interfaces[j] == d);
            }
        }
        assert forall|c: u128| #[trigger] w.interfaces.contains_key(c) && w.interfaces[c].ns is Some implies {
            let n = w.interfaces[c].ns.unwrap();
            &&& w.namespaces.contains_key(n)
            &&& w.namespaces[n].interfaces.contains(c)
        } by {
            let n = v.interfaces[c].ns.unwrap();
            if xv.ns == Some(n) {
                lemma_without(v.namespaces[n].interfaces, x);
            }
        }
    }
}

/// Removing an interface, together with its peer when it is a veth end,
/// keeps every invariant.
proof fn lemma_removed_veths(v: CatalogView, i: u128)
    requires
        v.wf(),
        v.interfaces.contains_key(i),
    ensures
        v.removed(i).wf(),
{
    lemma_removed_one_links_wf(v, i);
    let w1 = v.removed_one(i);
    match v.interfaces[i].kind {
        InterfaceKind::Veth { peer, .. } => {
            lemma_removed_one_links_wf(w1, peer);
            let w = w1.removed_one(peer);
            assert forall|a: u128| #[trigger] w.interfaces.contains_key(a) && w.interfaces[a].kind is Veth implies {
                let p = w.interfaces[a].kind->peer;
                &&& p != a
                &&& w.interfaces.contains_key(p)
                &&& w.interfaces[p].kind == (InterfaceKind::Veth { peer: a, internal: !w.interfaces[a].kind->internal })
            } by {
                assert(w1.interfaces.contains_key(a));
                assert(v.interfaces.contains_key(a));
                let p = v.interfaces[a].kind->peer;
                assert(v.interfaces.contains_key(p));
                assert(w1.interfaces.contains_key(p));
            }
        },
        _ => {
            let w = w1;
            assert forall|a: u128| #[trigger] w.interfaces.contains_key(a) && w.interfaces[a].kind is Veth implies {
                let p = w.interfaces[a].kind->peer;
                &&& p != a
                &&& w.interfaces.contains_key(p)
                &&& w.interfaces[p].kind == (InterfaceKind::Veth { peer: a, internal: !w.interfaces[a].kind->internal })
            } by {
                assert(v.interfaces.contains_key(a));
                let p = v.interfaces[a].kind->peer;
                assert(v.interfaces.contains_key(p));
            }
        },
    }
}

/// In a well-formed catalog an interface has the bridge `b` as its parent
/// exactly when `b` is a bridge that lists it among its children.
pub proof fn lemma_parent_iff_child(v: CatalogView, i: u128, b: u128)
    requires
        v.wf(),
        v.interfaces.contains_key(i),
        v.interfaces.contains_key(b),
    ensures
        v.interfaces[i].parent == Some(b) <==> (v.interfaces[b].kind == InterfaceKind::Bridge
            && v.interfaces[b].children.contains(i)),
{
    if v.interfaces[b].children.contains(i) {
        let j = choose|j: int| 0 <= j < v.interfaces[b].children.len() && v.interfaces[b].children[j] == i;
        assert(v.interfaces[b].children[j] == i);
    }
}

/// In a well-formed catalog the two ends of a veth pair name each other as
/// peers, and exactly one of them is the internal end.
pub proof fn lemma_veth_pair(v: CatalogView, a: u128)
    requires
        v.wf(),
        v.interfaces.contains_key(a),
        v.interfaces[a].kind is Veth,
    ensures
        ({
            let b = v.interfaces[a].kind->peer;
            &&& b != a
            &&& v.interfaces.contains_key(b)
            &&& v.interfaces[b].kind is Veth
            &&& v.interfaces[b].kind->peer == a
            &&& v.interfaces[a].kind->internal != v.interfaces[b].kind->internal
        }),
{
}

/// In a well-formed catalog an interface is recorded in the namespace `n`
/// exactly when `n` is recorded and lists it among its interfaces.
pub proof fn lemma_member_iff_namespace(v: CatalogView, i: u128, n: u128)
    requires
        v.wf(),
        v.interfaces.contains_key(i),
    ensures
        v.interfaces[i].ns == Some(n) <==> (v.namespaces.contains_key(n)
            && v.namespaces[n].interfaces.contains(i)),
{
    if v.namespaces.contains_key(n) && v.namespaces[n].interfaces.contains(i) {
        let j = choose|j: int| 0 <= j < v.namespaces[n].interfaces.len() && v.namespaces[n].interfaces[j] == i;
        assert(v.namespaces[n].interfaces[j] == i);
    }
}

} // verus!
