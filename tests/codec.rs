use fos_net_linux::{
    deserialize_internals, serialize_internals, DhcpBinding, NetError, NetnsBinding,
    NetworkInternals,
};

fn sample() -> NetworkInternals {
    NetworkInternals {
        netns: Some(NetnsBinding { ns_id: 0x0123_4567_89ab_cdef_0011_2233_4455_6677, ns_name: "ns-ABCD1234".to_string() }),
        dhcp: Some(DhcpBinding {
            conf: "/run/fos/fosbr0.conf".to_string(),
            pid_file: "/run/fos/fosbr0.pid".to_string(),
            leases_file: "/run/fos/fosbr0.leases".to_string(),
            log_file: "/run/fos/fosbr0.log".to_string(),
        }),
        tables: vec!["tableAbCdE12345".to_string(), "tableZz".to_string()],
    }
}

fn same(a: &NetworkInternals, b: &NetworkInternals) -> bool {
    format!("{:?}", a) == format!("{:?}", b)
}

#[test]
fn internals_survive_a_round_trip() {
    let x = sample();
    let bytes = serialize_internals(&x).unwrap();
    let y = deserialize_internals(&bytes).unwrap();
    assert!(same(&x, &y));
}

#[test]
fn bytes_survive_a_round_trip() {
    let bytes = serialize_internals(&sample()).unwrap();
    let again = serialize_internals(&deserialize_internals(&bytes).unwrap()).unwrap();
    assert_eq!(bytes, again);
}

#[test]
fn empty_internals_have_a_short_form() {
    let x = NetworkInternals { netns: None, dhcp: None, tables: Vec::new() };
    let bytes = serialize_internals(&x).unwrap();
    assert_eq!(bytes, vec![0, 0, 0, 0, 0, 0]);
    assert!(same(&deserialize_internals(&bytes).unwrap(), &x));
}

#[test]
fn exact_layout_of_a_namespace_binding() {
    let x = NetworkInternals {
        netns: Some(NetnsBinding { ns_id: 5, ns_name: "né".to_string() }),
        dhcp: None,
        tables: vec!["t".to_string()],
    };
    let bytes = serialize_internals(&x).unwrap();
    let mut expected = vec![1u8];
    expected.extend_from_slice(&[0; 15]);
    expected.push(5);
    expected.extend_from_slice(&[0, 0, 0, 3, b'n', 0xC3, 0xA9]);
    expected.push(0);
    expected.extend_from_slice(&[0, 0, 0, 1, 0, 0, 0, 1, b't']);
    assert_eq!(bytes, expected);
}

#[test]
fn malformed_bytes_are_refused() {
    let bytes = serialize_internals(&sample()).unwrap();
    assert_eq!(deserialize_internals(&bytes[..bytes.len() - 1]).err(), Some(NetError::EncodingError));
    let mut longer = bytes.clone();
    longer.push(0);
    assert_eq!(deserialize_internals(&longer).err(), Some(NetError::EncodingError));
    assert_eq!(deserialize_internals(&[2]).err(), Some(NetError::EncodingError));
    assert_eq!(deserialize_internals(&[]).err(), Some(NetError::EncodingError));
    assert_eq!(
        deserialize_internals(&[0, 0, 0, 0, 0, 1, 0, 0, 0, 1, 0xFF]).err(),
        Some(NetError::EncodingError)
    );
}
