use fos_net_linux::{nat_rule, plan_nat, subnet_mask, FailureCause, Ipv4Cidr, NetError};

#[test]
fn masks_of_common_prefixes() {
    assert_eq!(subnet_mask(16), Ok(0xFFFF_0000));
    assert_eq!(subnet_mask(24), Ok(0xFFFF_FF00));
    assert_eq!(subnet_mask(0), Ok(0));
    assert_eq!(subnet_mask(32), Ok(0xFFFF_FFFF));
    assert_eq!(subnet_mask(33), Err(NetError::NetworkingError(FailureCause::Address)));
}

#[test]
fn rule_for_the_default_subnet() {
    let r = nat_rule("tableabc".to_string(), Ipv4Cidr { addr: 0x0AF0_0000, prefix: 16 }, 2).unwrap();
    assert_eq!(r.table, "tableabc");
    assert_eq!(r.saddr_mask, 0xFFFF_0000);
    assert_eq!(r.saddr_network, 0x0AF0_0000);
    assert_eq!(r.oif_index, 2);
    assert!(r.matches(0x0AF0_1234, 2));
    assert!(!r.matches(0x0AF1_0001, 2));
    assert!(!r.matches(0x0AF0_1234, 3));
}

#[test]
fn rule_masks_host_bits() {
    let r = nat_rule("t".to_string(), Ipv4Cidr { addr: 0x0A01_0920, prefix: 16 }, 1).unwrap();
    assert_eq!(r.saddr_network, 0x0A01_0000);
}

#[test]
fn rule_refuses_a_bad_prefix() {
    let r = nat_rule("t".to_string(), Ipv4Cidr { addr: 0, prefix: 40 }, 1);
    assert_eq!(r.err(), Some(NetError::NetworkingError(FailureCause::Address)));
}

#[test]
fn planned_rule_gets_a_fresh_table() {
    let r = plan_nat(Ipv4Cidr { addr: 0x0AF0_0000, prefix: 16 }, 4).unwrap();
    assert_eq!(r.table.len(), 15);
    assert!(r.table.starts_with("table"));
    assert!(r.table[5..].chars().all(|c| c.is_ascii_alphanumeric()));
    assert_eq!(r.saddr_network, 0x0AF0_0000);
    assert_eq!(r.oif_index, 4);
}
