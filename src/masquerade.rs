use vstd::prelude::*;
use crate::error::{FailureCause, NetError};
use crate::names::{generate_random_nft_table_name, is_nft_table_name};
use crate::network::Ipv4Cidr;

verus! {

/// The mask of an IPv4 prefix of length `p`: its `p` most significant bits set.
pub open spec fn prefix_mask(p: u8) -> u32 {
    if p == 0 { 0 } else { 0xffff_ffffu32 << ((32 - p) as u32) }
}

/// The network address of `c`: its address with the host bits cleared.
pub open spec fn network_of(c: Ipv4Cidr) -> u32 {
    c.addr & prefix_mask(c.prefix)
}

/// The netfilter objects that masquerade a subnet: an `inet` table, a `nat`
/// chain hooked on postrouting with priority 0, and one rule that matches
/// source addresses of the subnet leaving through one interface.
#[derive(Debug)]
pub struct NatRule {
    pub table: String,
    /// The source-address mask of the rule.
    pub saddr_mask: u32,
    /// The value that a masked source address must equal.
    pub saddr_network: u32,
    /// The kernel index of the egress interface.
    pub oif_index: u32,
}

/// The name of the rule's chain.
pub const CHAIN_NAME: &'static str = "postrouting";
/// The priority of the rule's chain.
pub const CHAIN_PRIORITY: i32 = 0;

/// The mask of a prefix length; lengths over 32 are refused.
pub fn subnet_mask(prefix: u8) -> (r: Result<u32, NetError>)
    ensures
        prefix <= 32 ==> r == Ok::<u32, NetError>(prefix_mask(prefix)),
        prefix > 32 ==> r == Err::<u32, NetError>(NetError::NetworkingError(FailureCause::Address)),
{
    if prefix > 32 {
        Err(NetError::NetworkingError(FailureCause::Address))
    } else if prefix == 0 {
        Ok(0)
    } else {
        Ok(0xffff_ffffu32 << ((32 - prefix) as u32))
    }
}

/// The rule that masquerades the subnet `cidr` leaving through the
/// interface of index `oif_index`, in a table named `table`.
pub fn nat_rule(table: String, cidr: Ipv4Cidr, oif_index: u32) -> (r: Result<NatRule, NetError>)
    ensures
        cidr.prefix > 32 <==> r is Err,
        match r {
            Ok(rule) => {
                &&& rule.table@ == table@
                &&& rule.saddr_mask == prefix_mask(cidr.prefix)
                &&& rule.saddr_network == network_of(cidr)
                &&& rule.oif_index == oif_index
            },
            Err(e) => e == NetError::NetworkingError(FailureCause::Address),
        },
{
    let mask = subnet_mask(cidr.prefix)?;
    Ok(NatRule { table, saddr_mask: mask, saddr_network: cidr.addr & mask, oif_index })
}

/// The rule for `cidr` and the interface `oif_index` in a fresh table whose
/// name is `table` followed by ten random characters of `[A-Za-z0-9]`.
pub fn plan_nat(cidr: Ipv4Cidr, oif_index: u32) -> (r: Result<NatRule, NetError>)
    ensures
        cidr.prefix > 32 <==> r is Err,
        match r {
            Ok(rule) => {
                &&& is_nft_table_name(rule.table@)
                &&& rule.saddr_mask == prefix_mask(cidr.prefix)
                &&& rule.saddr_network == network_of(cidr)
                &&& rule.oif_index == oif_index
            },
            Err(e) => e == NetError::NetworkingError(FailureCause::Address),
        },
{
    let table = generate_random_nft_table_name();
    nat_rule(table, cidr, oif_index)
}

/// Whether a packet from `saddr` leaving through the interface `oif` is masqueraded.
pub open spec fn rule_matches(saddr_mask: u32, saddr_network: u32, oif_index: u32, saddr: u32, oif: u32) -> bool {
    saddr & saddr_mask == saddr_network && oif == oif_index
}

impl NatRule {
    /// Whether the rule masquerades a packet from `saddr` leaving through `oif`.
    pub fn matches(&self, saddr: u32, oif: u32) -> (r: bool)
        ensures
            r == rule_matches(self.saddr_mask, self.saddr_network, self.oif_index, saddr, oif),
    {
        saddr & self.saddr_mask == self.saddr_network && oif == self.oif_index
    }
}

/// The rule built for a subnet masquerades exactly the packets whose source
/// address lies in that subnet (shares its masked bits) and that leave
/// through the chosen interface.
pub proof fn lemma_rule_matches_subnet(cidr: Ipv4Cidr, oif_index: u32, saddr: u32, oif: u32)
    requires
        cidr.prefix <= 32,
    ensures
        rule_matches(prefix_mask(cidr.prefix), network_of(cidr), oif_index, saddr, oif)
            <==> (saddr & prefix_mask(cidr.prefix) == cidr.addr & prefix_mask(cidr.prefix) && oif == oif_index),
{
}

/// The mask of a prefix of 16 bits is 255.255.0.0, and 10.240.x.y lies in 10.240.0.0/16.
pub proof fn lemma_prefix_16()
    ensures
        prefix_mask(16) == 0xffff_0000u32,
        forall|low: u32| #![trigger (0x0AF0_0000u32 | (low & 0xffff))]
            (0x0AF0_0000u32 | (low & 0xffff)) & prefix_mask(16) == 0x0AF0_0000u32,
{
    assert(0xffff_ffffu32 << 16u32 == 0xffff_0000u32) by (bit_vector);
    assert forall|low: u32| #![trigger (0x0AF0_0000u32 | (low & 0xffff))]
        (0x0AF0_0000u32 | (low & 0xffff)) & 0xffff_0000u32 == 0x0AF0_0000u32 by {
        assert((0x0AF0_0000u32 | (low & 0xffff)) & 0xffff_0000u32 == 0x0AF0_0000u32) by (bit_vector);
    }
}

} // verus!
