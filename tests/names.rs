use fos_net_linux::{
    generate_random_interface_name, generate_random_netns_name, generate_random_nft_table_name,
};

fn alphanumeric(s: &str) -> bool {
    s.chars().all(|c| c.is_ascii_alphanumeric())
}

#[test]
fn interface_name_has_eight_alphanumerics() {
    let n = generate_random_interface_name();
    assert_eq!(n.len(), 8);
    assert!(alphanumeric(&n));
}

#[test]
fn netns_name_has_prefix_and_eight_alphanumerics() {
    let n = generate_random_netns_name();
    assert_eq!(n.len(), 11);
    assert!(n.starts_with("ns-"));
    assert!(alphanumeric(&n[3..]));
}

#[test]
fn nft_table_name_has_prefix_and_ten_alphanumerics() {
    let n = generate_random_nft_table_name();
    assert_eq!(n.len(), 15);
    assert!(n.starts_with("table"));
    assert!(alphanumeric(&n[5..]));
}

#[test]
fn random_names_differ() {
    let a = generate_random_interface_name();
    let b = generate_random_interface_name();
    let c = generate_random_interface_name();
    assert!(a != b || b != c);
}
