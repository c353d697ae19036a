use vstd::prelude::*;
use vstd::utf8::*;
use crate::error::NetError;
use crate::network::{
    DhcpBinding, DhcpBindingView, NetnsBinding, NetnsBindingView, NetworkInternals, NetworkInternalsView,
};

verus! {

/// `256` to the power `k`.
pub open spec fn pow256(k: nat) -> nat
    decreases k,
{
    if k == 0 { 1 } else { 256 * pow256((k - 1) as nat) }
}

/// The last `k` bytes of `n` in big-endian order.
pub open spec fn be_bytes(n: nat, k: nat) -> Seq<u8>
    decreases k,
{
    if k == 0 { Seq::empty() } else { be_bytes(n / 256, (k - 1) as nat).push((n % 256) as u8) }
}

/// The number that the bytes `s` spell in big-endian order.
pub open spec fn be_value(s: Seq<u8>) -> nat
    decreases s.len(),
{
    if s.len() == 0 { 0 } else { be_value(s.drop_last()) * 256 + s.last() as nat }
}

proof fn lemma_pow256_pos(k: nat)
    ensures
        pow256(k) >= 1,
    decreases k,
{
    if k > 0 {
        lemma_pow256_pos((k - 1) as nat);
    }
}

proof fn lemma_be_bytes_len(n: nat, k: nat)
    ensures
        be_bytes(n, k).len() == k,
    decreases k,
{
    if k > 0 {
        lemma_be_bytes_len(n / 256, (k - 1) as nat);
    }
}

proof fn lemma_be_value_bytes(n: nat, k: nat)
    requires
        n < pow256(k),
    ensures
        be_value(be_bytes(n, k)) == n,
    decreases k,
{
    if k > 0 {
        let p = pow256((k - 1) as nat);
        assert(n / 256 < p) by (nonlinear_arith)
            requires n < 256 * p, p >= 1;
        lemma_be_value_bytes(n / 256, (k - 1) as nat);
        let s = be_bytes(n, k);
        assert(s.drop_last() =~= be_bytes(n / 256, (k - 1) as nat));
        assert((n / 256) * 256 + n % 256 == n) by (nonlinear_arith);
    }
}

proof fn lemma_be_bytes_value(s: Seq<u8>)
    ensures
        be_bytes(be_value(s), s.len()) == s,
        be_value(s) < pow256(s.len()),
    decreases s.len(),
{
    if s.len() > 0 {
        let t = s.drop_last();
        lemma_be_bytes_value(t);
        let v = be_value(t);
        let b = s.last() as nat;
        assert((v * 256 + b) / 256 == v && (v * 256 + b) % 256 == b) by (nonlinear_arith)
            requires b < 256;
        assert(v * 256 + b < 256 * pow256(t.len())) by (nonlinear_arith)
            requires v < pow256(t.len()), b < 256;
        assert(be_bytes(be_value(s), s.len()) =~= t.push(s.last()));
        assert(t.push(s.last()) =~= s);
    }
}

/// A string: the length of its UTF-8 bytes in four bytes, then the bytes.
pub open spec fn enc_str(s: Seq<char>) -> Seq<u8> {
    be_bytes(encode_utf8(s).len(), 4) + encode_utf8(s)
}

/// Reads a string at the start of `b`; gives it with the bytes that follow.
pub open spec fn dec_str(b: Seq<u8>) -> Option<(Seq<char>, Seq<u8>)> {
    if b.len() < 4 {
        None
    } else {
        let n = be_value(b.subrange(0, 4)) as int;
        if b.len() < 4 + n || !valid_utf8(b.subrange(4, 4 + n)) {
            None
        } else {
            Some((decode_utf8(b.subrange(4, 4 + n)), b.subrange(4 + n, b.len() as int)))
        }
    }
}

/// A string whose bytes fit the four-byte length.
pub open spec fn str_fits(s: Seq<char>) -> bool {
    encode_utf8(s).len() < pow256(4)
}

proof fn lemma_str_round_trip(s: Seq<char>, rest: Seq<u8>)
    requires
        str_fits(s),
    ensures
        dec_str(enc_str(s) + rest) == Some((s, rest)),
{
    let e = encode_utf8(s);
    let m = e.len() as int;
    let b = enc_str(s) + rest;
    lemma_be_bytes_len(e.len(), 4);
    lemma_be_value_bytes(e.len(), 4);
    assert(b.subrange(0, 4) =~= be_bytes(e.len(), 4));
    assert(b.subrange(4, 4 + m) =~= e);
    assert(b.subrange(4 + m, b.len() as int) =~= rest);
    encode_utf8_valid_utf8(s);
    encode_utf8_decode_utf8(s);
}

proof fn lemma_str_canonical(b: Seq<u8>)
    requires
        dec_str(b) is Some,
    ensures
        ({
            let (s, rest) = dec_str(b).unwrap();
            str_fits(s) && b == enc_str(s) + rest
        }),
{
    let n = be_value(b.subrange(0, 4)) as int;
    let raw = b.subrange(4, 4 + n);
    lemma_be_bytes_value(b.subrange(0, 4));
    decode_utf8_encode_utf8(raw);
    assert(encode_utf8(decode_utf8(raw)) == raw);
    assert(b =~= be_bytes(n as nat, 4) + raw + b.subrange(4 + n, b.len() as int));
}

proof fn lemma_add_assoc(a: Seq<u8>, b: Seq<u8>, c: Seq<u8>)
    ensures
        a + b + c == a + (b + c),
{
    assert(a + b + c =~= a + (b + c));
}

/// An optional namespace binding: `0`, or `1`, the identifier in sixteen bytes and the name.
pub open spec fn enc_netns(o: Option<NetnsBindingView>) -> Seq<u8> {
    match o {
        None => seq![0u8],
        Some(b) => seq![1u8] + be_bytes(b.ns_id as nat, 16) + enc_str(b.ns_name),
    }
}

pub open spec fn dec_netns(b: Seq<u8>) -> Option<(Option<NetnsBindingView>, Seq<u8>)> {
    if b.len() < 1 {
        None
    } else if b[0] == 0 {
        Some((None, b.subrange(1, b.len() as int)))
    } else if b[0] == 1 && b.len() >= 17 {
        match dec_str(b.subrange(17, b.len() as int)) {
            Some((name, rest)) => Some((
                Some(NetnsBindingView { ns_id: be_value(b.subrange(1, 17)) as u128, ns_name: name }),
                rest,
            )),
            None => None,
        }
    } else {
        None
    }
}

/// An optional DHCP binding: `0`, or `1` and its four paths.
pub open spec fn enc_dhcp(o: Option<DhcpBindingView>) -> Seq<u8> {
    match o {
        None => seq![0u8],
        Some(d) => seq![1u8] + enc_str(d.conf) + enc_str(d.pid_file) + enc_str(d.leases_file) + enc_str(d.log_file),
    }
}

pub open spec fn dec_dhcp(b: Seq<u8>) -> Option<(Option<DhcpBindingView>, Seq<u8>)> {
    if b.len() < 1 {
        None
    } else if b[0] == 0 {
        Some((None, b.subrange(1, b.len() as int)))
    } else if b[0] == 1 {
        match dec_str(b.subrange(1, b.len() as int)) {
            Some((conf, r1)) => match dec_str(r1) {
                Some((pid_file, r2)) => match dec_str(r2) {
                    Some((leases_file, r3)) => match dec_str(r3) {
                        Some((log_file, r4)) => Some((
                            Some(DhcpBindingView { conf, pid_file, leases_file, log_file }),
                            r4,
                        )),
                        None => None,
                    },
                    None => None,
                },
                None => None,
            },
            None => None,
        }
    } else {
        None
    }
}

/// Strings one after the other.
pub open spec fn enc_strs(ts: Seq<Seq<char>>) -> Seq<u8>
    decreases ts.len(),
{
    if ts.len() == 0 { Seq::empty() } else { enc_str(ts[0]) + enc_strs(ts.subrange(1, ts.len() as int)) }
}

pub open spec fn dec_strs(b: Seq<u8>, n: nat) -> Option<(Seq<Seq<char>>, Seq<u8>)>
    decreases n,
{
    if n == 0 {
        Some((Seq::empty(), b))
    } else {
        match dec_str(b) {
            Some((s, r)) => match dec_strs(r, (n - 1) as nat) {
                Some((ss, r2)) => Some((seq![s] + ss, r2)),
                None => None,
            },
            None => None,
        }
    }
}

/// The table names: their count in four bytes, then each name.
pub open spec fn enc_tables(ts: Seq<Seq<char>>) -> Seq<u8> {
    be_bytes(ts.len(), 4) + enc_strs(ts)
}

pub open spec fn dec_tables(b: Seq<u8>) -> Option<(Seq<Seq<char>>, Seq<u8>)> {
    if b.len() < 4 { None } else { dec_strs(b.subrange(4, b.len() as int), be_value(b.subrange(0, 4))) }
}

/// The serialized form of a network's internals.
pub open spec fn encode_internals(v: NetworkInternalsView) -> Seq<u8> {
    enc_netns(v.netns) + enc_dhcp(v.dhcp) + enc_tables(v.tables)
}

/// The internals that a serialized form stands for; `None` when the bytes
/// are malformed or followed by anything.
pub open spec fn decode_internals(b: Seq<u8>) -> Option<NetworkInternalsView> {
    match dec_netns(b) {
        Some((netns, r1)) => match dec_dhcp(r1) {
            Some((dhcp, r2)) => match dec_tables(r2) {
                Some((tables, r3)) => if r3.len() == 0 {
                    Some(NetworkInternalsView { netns, dhcp, tables })
                } else {
                    None
                },
                None => None,
            },
            None => None,
        },
        None => None,
    }
}

/// Internals whose strings and table list fit their four-byte lengths.
pub open spec fn internals_fit(v: NetworkInternalsView) -> bool {
    &&& (v.netns is Some ==> str_fits(v.netns.unwrap().ns_name))
    &&& (v.dhcp is Some ==> {
        let d = v.dhcp.unwrap();
        str_fits(d.conf) && str_fits(d.pid_file) && str_fits(d.leases_file) && str_fits(d.log_file)
    })
    &&& v.tables.len() < pow256(4)
    &&& forall|i: int| 0 <= i < v.tables.len() ==> str_fits(#[trigger] v.tables[i])
}

proof fn lemma_pow256_16()
    ensures
        pow256(16) == 0x1_0000_0000_0000_0000_0000_0000_0000_0000,
        pow256(4) == 0x1_0000_0000,
{
    reveal_with_fuel(pow256, 17);
}

proof fn lemma_netns_round_trip(o: Option<NetnsBindingView>, rest: Seq<u8>)
    requires
        o is Some ==> str_fits(o.unwrap().ns_name),
    ensures
        dec_netns(enc_netns(o) + rest) == Some((o, rest)),
{
    let b = enc_netns(o) + rest;
    match o {
        None => {
            assert(b.subrange(1, b.len() as int) =~= rest);
        },
        Some(x) => {
            lemma_pow256_16();
            lemma_be_bytes_len(x.ns_id as nat, 16);
            lemma_be_value_bytes(x.ns_id as nat, 16);
            assert(b.subrange(1, 17) =~= be_bytes(x.ns_id as nat, 16));
            assert(b.subrange(17, b.len() as int) =~= enc_str(x.ns_name) + rest);
            lemma_str_round_trip(x.ns_name, rest);
        },
    }
}

#[verifier::rlimit(40)]
proof fn lemma_netns_canonical(b: Seq<u8>)
    requires
        dec_netns(b) is Some,
    ensures
        ({
            let (o, rest) = dec_netns(b).unwrap();
            &&& (o is Some ==> str_fits(o.unwrap().ns_name))
            &&& b == enc_netns(o) + rest
        }),
{
    if b[0] == 0 {
        assert(b =~= seq![0u8] + b.subrange(1, b.len() as int));
    } else {
        let t = b.subrange(17, b.len() as int);
        lemma_str_canonical(t);
        lemma_pow256_16();
        lemma_be_bytes_value(b.subrange(1, 17));
        let id = be_value(b.subrange(1, 17));
        assert(id as u128 as nat == id);
        let (name, rest) = dec_str(t).unwrap();
        assert(be_bytes(id, 16) == b.subrange(1, 17));
        assert(t == enc_str(name) + rest);
        assert(b =~= seq![1u8] + b.subrange(1, 17) + t);
        lemma_add_assoc(seq![1u8] + be_bytes(id, 16), enc_str(name), rest);
    }
}

proof fn lemma_dhcp_round_trip(o: Option<DhcpBindingView>, rest: Seq<u8>)
    requires
        o is Some ==> {
            let d = o.unwrap();
            str_fits(d.conf) && str_fits(d.pid_file) && str_fits(d.leases_file) && str_fits(d.log_file)
        },
    ensures
        dec_dhcp(enc_dhcp(o) + rest) == Some((o, rest)),
{
    let b = enc_dhcp(o) + rest;
    match o {
        None => {
            assert(b.subrange(1, b.len() as int) =~= rest);
        },
        Some(d) => {
            let r3 = enc_str(d.log_file) + rest;
            let r2 = enc_str(d.leases_file) + r3;
            let r1 = enc_str(d.pid_file) + r2;
            assert(b.subrange(1, b.len() as int) =~= enc_str(d.conf) + r1);
            lemma_str_round_trip(d.conf, r1);
            lemma_str_round_trip(d.pid_file, r2);
            lemma_str_round_trip(d.leases_file, r3);
            lemma_str_round_trip(d.log_file, rest);
        },
    }
}

#[verifier::rlimit(80)]
proof fn lemma_dhcp_canonical(b: Seq<u8>)
    requires
        dec_dhcp(b) is Some,
    ensures
        ({
            let (o, rest) = dec_dhcp(b).unwrap();
            &&& (o is Some ==> {
                let d = o.unwrap();
                str_fits(d.conf) && str_fits(d.pid_file) && str_fits(d.leases_file) && str_fits(d.log_file)
            })
            &&& b == enc_dhcp(o) + rest
        }),
{
    if b[0] == 0 {
        assert(b =~= seq![0u8] + b.subrange(1, b.len() as int));
    } else {
        let t = b.subrange(1, b.len() as int);
        lemma_str_canonical(t);
        let (conf, r1) = dec_str(t).unwrap();
        lemma_str_canonical(r1);
        let (pid_file, r2) = dec_str(r1).unwrap();
        lemma_str_canonical(r2);
        let (leases_file, r3) = dec_str(r2).unwrap();
        lemma_str_canonical(r3);
        let (log_file, r4) = dec_str(r3).unwrap();
        let one = seq![1u8];
        let e1 = enc_str(conf);
        let e2 = enc_str(pid_file);
        let e3 = enc_str(leases_file);
        let e4 = enc_str(log_file);
        assert(b =~= one + t);
        lemma_add_assoc(one + e1 + e2 + e3, e4, r4);
        lemma_add_assoc(one + e1 + e2, e3, r3);
        lemma_add_assoc(one + e1, e2, r2);
        lemma_add_assoc(one, e1, r1);
    }
}

proof fn lemma_strs_round_trip(ts: Seq<Seq<char>>, rest: Seq<u8>)
    requires
        forall|i: int| 0 <= i < ts.len() ==> str_fits(#[trigger] ts[i]),
    ensures
        dec_strs(enc_strs(ts) + rest, ts.len()) == Some((ts, rest)),
    decreases ts.len(),
{
    if ts.len() > 0 {
        let tail = ts.subrange(1, ts.len() as int);
        assert forall|i: int| 0 <= i < tail.len() implies str_fits(#[trigger] tail[i]) by {
            assert(tail[i] == ts[i + 1]);
        }
        lemma_strs_round_trip(tail, rest);
        assert(enc_strs(ts) + rest =~= enc_str(ts[0]) + (enc_strs(tail) + rest));
        lemma_str_round_trip(ts[0], enc_strs(tail) + rest);
        assert(seq![ts[0]] + tail =~= ts);
    }
}

proof fn lemma_strs_canonical(b: Seq<u8>, n: nat)
    requires
        dec_strs(b, n) is Some,
    ensures
        ({
            let (ts, rest) = dec_strs(b, n).unwrap();
            &&& ts.len() == n
            &&& (forall|i: int| 0 <= i < ts.len() ==> str_fits(#[trigger] ts[i]))
            &&& b == enc_strs(ts) + rest
        }),
    decreases n,
{
    if n == 0 {
        assert(b =~= enc_strs(Seq::empty()) + b);
    } else {
        lemma_str_canonical(b);
        let (s, r) = dec_str(b).unwrap();
        lemma_strs_canonical(r, (n - 1) as nat);
        let (ss, r2) = dec_strs(r, (n - 1) as nat).unwrap();
        let ts = seq![s] + ss;
        assert(ts.subrange(1, ts.len() as int) =~= ss);
        assert(ts[0] == s);
        assert forall|i: int| 0 <= i < ts.len() implies str_fits(#[trigger] ts[i]) by {
            if i > 0 {
                assert(ts[i] == ss[i - 1]);
            }
        }
        assert(b =~= enc_strs(ts) + r2);
    }
}

/// Serializing internals and reading the bytes back gives the same internals.
pub proof fn lemma_decode_encode(v: NetworkInternalsView)
    requires
        internals_fit(v),
    ensures
        decode_internals(encode_internals(v)) == Some(v),
{
    let t = enc_tables(v.tables);
    let d = enc_dhcp(v.dhcp);
    let b = encode_internals(v);
    assert(b =~= enc_netns(v.netns) + (d + t));
    lemma_netns_round_trip(v.netns, d + t);
    lemma_dhcp_round_trip(v.dhcp, t);
    assert(d + t =~= enc_dhcp(v.dhcp) + t);
    let empty = Seq::<u8>::empty();
    assert(t =~= t + empty);
    lemma_be_bytes_len(v.tables.len(), 4);
    lemma_be_value_bytes(v.tables.len(), 4);
    assert(t.subrange(0, 4) =~= be_bytes(v.tables.len(), 4));
    assert(t.subrange(4, t.len() as int) =~= enc_strs(v.tables) + empty);
    lemma_strs_round_trip(v.tables, empty);
}

/// Reading internals from bytes and serializing them again gives the same
/// bytes: the serialized form is canonical.
#[verifier::rlimit(80)]
pub proof fn lemma_encode_decode(b: Seq<u8>)
    requires
        decode_internals(b) is Some,
    ensures
        internals_fit(decode_internals(b).unwrap()),
        encode_internals(decode_internals(b).unwrap()) == b,
{
    lemma_netns_canonical(b);
    let (netns, r1) = dec_netns(b).unwrap();
    lemma_dhcp_canonical(r1);
    let (dhcp, r2) = dec_dhcp(r1).unwrap();
    let n = be_value(r2.subrange(0, 4));
    lemma_strs_canonical(r2.subrange(4, r2.len() as int), n);
    let (tables, r3) = dec_tables(r2).unwrap();
    lemma_be_bytes_value(r2.subrange(0, 4));
    lemma_pow256_16();
    assert(r2 =~= be_bytes(n, 4) + enc_strs(tables) + r3);
    assert(r3.len() == 0);
    assert(r2 =~= enc_tables(tables));
    assert(b =~= enc_netns(netns) + enc_dhcp(dhcp) + enc_tables(tables));
}

proof fn lemma_pow256_mono(i: nat, j: nat)
    requires
        i <= j,
    ensures
        pow256(i) <= pow256(j),
    decreases j,
{
    if i < j {
        lemma_pow256_mono(i, (j - 1) as nat);
        lemma_pow256_pos((j - 1) as nat);
    }
}

proof fn lemma_enc_strs_push(ts: Seq<Seq<char>>, s: Seq<char>)
    ensures
        enc_strs(ts.push(s)) == enc_strs(ts) + enc_str(s),
    decreases ts.len(),
{
    if ts.len() == 0 {
        let u = ts.push(s);
        assert(u.len() == 1 && u[0] == s);
        assert(u.subrange(1, 1) =~= Seq::<Seq<char>>::empty());
        assert(enc_strs(Seq::<Seq<char>>::empty()) == Seq::<u8>::empty());
        assert(enc_strs(u) == enc_str(u[0]) + enc_strs(u.subrange(1, 1)));
        assert(enc_strs(u) =~= enc_str(s));
        assert(enc_strs(ts) + enc_str(s) =~= enc_str(s));
    } else {
        let tail = ts.subrange(1, ts.len() as int);
        lemma_enc_strs_push(tail, s);
        assert(ts.push(s).subrange(1, ts.len() as int + 1) =~= tail.push(s));
        assert(ts.push(s)[0] == ts[0]);
        lemma_add_assoc(enc_str(ts[0]), enc_strs(tail), enc_str(s));
    }
}

/// Relies on `String::from_utf8`: bytes that are valid UTF-8 become the
/// string they spell; other bytes are refused.
#[verifier::external_body]
fn string_from_utf8(bytes: Vec<u8>) -> (r: Option<String>)
    ensures
        match r {
            Some(s) => valid_utf8(bytes@) && s@ == decode_utf8(bytes@),
            None => !valid_utf8(bytes@),
        },
{
    String::from_utf8(bytes).ok()
}

fn push_be(out: &mut Vec<u8>, n: u128, k: usize)
    requires
        k <= 16,
    ensures
        final(out)@ == old(out)@ + be_bytes(n as nat, k as nat),
    decreases k,
{
    if k > 0 {
        push_be(out, n / 256, k - 1);
        out.push((n % 256) as u8);
        assert(final(out)@ =~= old(out)@ + be_bytes(n as nat, k as nat));
    } else {
        assert(out@ =~= old(out)@ + be_bytes(n as nat, k as nat));
    }
}

fn push_str(out: &mut Vec<u8>, s: &String)
    requires
        str_fits(s@),
    ensures
        final(out)@ == old(out)@ + enc_str(s@),
{
    let bytes = s.as_str().as_bytes();
    assert(bytes@ == encode_utf8(s@));
    push_be(out, bytes.len() as u128, 4);
    let ghost start = out@;
    let mut i: usize = 0;
    while i < bytes.len()
        invariant
            i <= bytes@.len(),
            out@ == start + bytes@.subrange(0, i as int),
        decreases bytes@.len() - i,
    {
        out.push(bytes[i]);
        i = i + 1;
        assert(out@ =~= start + bytes@.subrange(0, i as int));
    }
    assert(bytes@.subrange(0, bytes@.len() as int) =~= bytes@);
    assert(out@ =~= old(out)@ + enc_str(s@));
}

/// Whether a string's bytes fit a four-byte length.
fn fits(s: &String) -> (r: bool)
    ensures
        r == str_fits(s@),
{
    proof {
        lemma_pow256_16();
    }
    s.as_str().as_bytes().len() <= 0xffff_ffff
}

/// The serialized form of a network's internals; `EncodingError` when a
/// string or the table list is too long for its four-byte length.
pub fn serialize_internals(x: &NetworkInternals) -> (r: Result<Vec<u8>, NetError>)
    ensures
        internals_fit(x@) <==> r is Ok,
        match r {
            Ok(b) => b@ == encode_internals(x@),
            Err(e) => e == NetError::EncodingError,
        },
{
    proof {
        lemma_pow256_16();
    }
    let mut out: Vec<u8> = Vec::new();
    match &x.netns {
        None => out.push(0u8),
        Some(b) => {
            if !fits(&b.ns_name) {
                return Err(NetError::EncodingError);
            }
            out.push(1u8);
            push_be(&mut out, b.ns_id, 16);
            push_str(&mut out, &b.ns_name);
        },
    }
    assert(out@ =~= enc_netns(x@.netns));
    let ghost after_netns = out@;
    match &x.dhcp {
        None => out.push(0u8),
        Some(d) => {
            if !fits(&d.conf) || !fits(&d.pid_file) || !fits(&d.leases_file) || !fits(&d.log_file) {
                return Err(NetError::EncodingError);
            }
            out.push(1u8);
            push_str(&mut out, &d.conf);
            push_str(&mut out, &d.pid_file);
            push_str(&mut out, &d.leases_file);
            push_str(&mut out, &d.log_file);
        },
    }
    assert(out@ =~= after_netns + enc_dhcp(x@.dhcp));
    let ghost after_dhcp = out@;
    let n = x.tables.len();
    if n > 0xffff_ffff {
        return Err(NetError::EncodingError);
    }
    push_be(&mut out, n as u128, 4);
    let ghost after_count = out@;
    let mut i: usize = 0;
    while i < n
        invariant
            n == x.tables@.len(),
            i <= n,
            out@ == after_count + enc_strs(x@.tables.subrange(0, i as int)),
            forall|j: int| 0 <= j < i ==> str_fits(#[trigger] x@.tables[j]),
        decreases n - i,
    {
        assert(x@.tables[i as int] == x.tables@[i as int]@);
        if !fits(&x.tables[i]) {
            return Err(NetError::EncodingError);
        }
        push_str(&mut out, &x.tables[i]);
        proof {
            let ts = x@.tables.subrange(0, i as int);
            lemma_enc_strs_push(ts, x@.tables[i as int]);
            assert(x@.tables.subrange(0, i + 1) =~= ts.push(x@.tables[i as int]));
            lemma_add_assoc(after_count, enc_strs(ts), enc_str(x@.tables[i as int]));
        }
        i = i + 1;
    }
    assert(x@.tables.subrange(0, n as int) =~= x@.tables);
    assert(out@ =~= encode_internals(x@));
    Ok(out)
}

fn read_be(b: &[u8], pos: usize, k: usize) -> (r: u128)
    requires
        pos + k <= b@.len(),
        k <= 16,
    ensures
        r as nat == be_value(b@.subrange(pos as int, pos + k)),
{
    let blen = b.len();
    let mut acc: u128 = 0;
    let mut i: usize = 0;
    proof {
        assert(b@.subrange(pos as int, pos as int) =~= Seq::<u8>::empty());
        lemma_pow256_16();
    }
    while i < k
        invariant
            i <= k <= 16,
            pos + k <= b@.len(),
            blen == b@.len(),
            acc as nat == be_value(b@.subrange(pos as int, pos + i)),
            acc < pow256(i as nat),
            pow256(16) == 0x1_0000_0000_0000_0000_0000_0000_0000_0000,
        decreases k - i,
    {
        let byte = b[pos + i];
        proof {
            lemma_pow256_mono((i + 1) as nat, 16);
            assert(acc * 256 + byte < pow256((i + 1) as nat)) by (nonlinear_arith)
                requires acc < pow256(i as nat), byte < 256, pow256((i + 1) as nat) == 256 * pow256(i as nat);
            assert(b@.subrange(pos as int, pos + i + 1).drop_last() =~= b@.subrange(pos as int, pos + i));
        }
        acc = acc * 256 + byte as u128;
        i = i + 1;
    }
    acc
}

fn read_str(b: &[u8], pos: usize) -> (r: Option<(String, usize)>)
    requires
        pos <= b@.len(),
    ensures
        match dec_str(b@.subrange(pos as int, b@.len() as int)) {
            Some((s, rest)) => r is Some && r.unwrap().0@ == s && r.unwrap().1 <= b@.len()
                && b@.subrange(r.unwrap().1 as int, b@.len() as int) == rest,
            None => r is None,
        },
{
    let ghost t = b@.subrange(pos as int, b@.len() as int);
    if b.len() - pos < 4 {
        return None;
    }
    let n = read_be(b, pos, 4);
    assert(t.subrange(0, 4) =~= b@.subrange(pos as int, pos + 4));
    if ((b.len() - pos - 4) as u128) < n {
        return None;
    }
    let n = n as usize;
    let blen = b.len();
    let start = pos + 4;
    let mut raw: Vec<u8> = Vec::new();
    let mut i: usize = 0;
    while i < n
        invariant
            i <= n,
            start + n <= b@.len(),
            blen == b@.len(),
            raw@ == b@.subrange(start as int, start + i),
        decreases n - i,
    {
        raw.push(b[start + i]);
        i = i + 1;
        assert(raw@ =~= b@.subrange(start as int, start + i));
    }
    assert(t.subrange(4, 4 + n) =~= raw@);
    assert(t.subrange(4 + n, t.len() as int) =~= b@.subrange(start + n, b@.len() as int));
    match string_from_utf8(raw) {
        Some(s) => Some((s, start + n)),
        None => None,
    }
}

fn read_netns(b: &[u8], pos: usize) -> (r: Option<(Option<NetnsBinding>, usize)>)
    requires
        pos <= b@.len(),
    ensures
        match dec_netns(b@.subrange(pos as int, b@.len() as int)) {
            Some((o, rest)) => r is Some && r.unwrap().1 <= b@.len()
                && b@.subrange(r.unwrap().1 as int, b@.len() as int) == rest
                && match r.unwrap().0 {
                    Some(x) => o == Some(x@),
                    None => o is None,
                },
            None => r is None,
        },
{
    let ghost t = b@.subrange(pos as int, b@.len() as int);
    if pos >= b.len() {
        return None;
    }
    let tag = b[pos];
    assert(t[0] == tag);
    if tag == 0 {
        assert(t.subrange(1, t.len() as int) =~= b@.subrange(pos + 1, b@.len() as int));
        return Some((None, pos + 1));
    }
    if tag != 1 || b.len() - pos < 17 {
        return None;
    }
    let id = read_be(b, pos + 1, 16);
    assert(t.subrange(1, 17) =~= b@.subrange(pos + 1, pos + 17));
    assert(t.subrange(17, t.len() as int) =~= b@.subrange(pos + 17, b@.len() as int));
    match read_str(b, pos + 17) {
        Some((name, next)) => Some((Some(NetnsBinding { ns_id: id, ns_name: name }), next)),
        None => None,
    }
}

fn read_dhcp(b: &[u8], pos: usize) -> (r: Option<(Option<DhcpBinding>, usize)>)
    requires
        pos <= b@.len(),
    ensures
        match dec_dhcp(b@.subrange(pos as int, b@.len() as int)) {
            Some((o, rest)) => r is Some && r.unwrap().1 <= b@.len()
                && b@.subrange(r.unwrap().1 as int, b@.len() as int) == rest
                && match r.unwrap().0 {
                    Some(x) => o == Some(x@),
                    None => o is None,
                },
            None => r is None,
        },
{
    let ghost t = b@.subrange(pos as int, b@.len() as int);
    if pos >= b.len() {
        return None;
    }
    let tag = b[pos];
    assert(t[0] == tag);
    if tag == 0 {
        assert(t.subrange(1, t.len() as int) =~= b@.subrange(pos + 1, b@.len() as int));
        return Some((None, pos + 1));
    }
    if tag != 1 {
        return None;
    }
    assert(t.subrange(1, t.len() as int) =~= b@.subrange(pos + 1, b@.len() as int));
    let (conf, pos1) = match read_str(b, pos + 1) {
        Some(v) => v,
        None => return None,
    };
    let (pid_file, pos2) = match read_str(b, pos1) {
        Some(v) => v,
        None => return None,
    };
    let (leases_file, pos3) = match read_str(b, pos2) {
        Some(v) => v,
        None => return None,
    };
    let (log_file, pos4) = match read_str(b, pos3) {
        Some(v) => v,
        None => return None,
    };
    Some((Some(DhcpBinding { conf, pid_file, leases_file, log_file }), pos4))
}

/// Reads the internals that `b` holds; `EncodingError` when the bytes are
/// malformed or followed by anything.
pub fn deserialize_internals(b: &[u8]) -> (r: Result<NetworkInternals, NetError>)
    ensures
        match decode_internals(b@) {
            Some(v) => r is Ok && r.unwrap()@ == v,
            None => r == Err::<NetworkInternals, NetError>(NetError::EncodingError),
        },
{
    assert(b@.subrange(0, b@.len() as int) =~= b@);
    let (netns, pos1) = match read_netns(b, 0) {
        Some(v) => v,
        None => return Err(NetError::EncodingError),
    };
    let (dhcp, pos2) = match read_dhcp(b, pos1) {
        Some(v) => v,
        None => return Err(NetError::EncodingError),
    };
    let ghost r2 = b@.subrange(pos2 as int, b@.len() as int);
    let ghost r1 = b@.subrange(pos1 as int, b@.len() as int);
    assert(dec_netns(b@) is Some && dec_netns(b@).unwrap().1 == r1);
    assert(dec_dhcp(r1) is Some && dec_dhcp(r1).unwrap().1 == r2);
    if b.len() - pos2 < 4 {
        return Err(NetError::EncodingError);
    }
    let count = read_be(b, pos2, 4);
    assert(r2.subrange(0, 4) =~= b@.subrange(pos2 as int, pos2 + 4));
    let mut tables: Vec<String> = Vec::new();
    let mut pos = pos2 + 4;
    let mut i: u128 = 0;
    assert(r2.subrange(4, r2.len() as int) =~= b@.subrange(pos as int, b@.len() as int));
    while i < count
        invariant
            i <= count,
            pos <= b@.len(),
            r2.len() >= 4,
            count as nat == be_value(r2.subrange(0, 4)),
            r2 == b@.subrange(pos2 as int, b@.len() as int),
            r1 == b@.subrange(pos1 as int, b@.len() as int),
            dec_netns(b@) is Some && dec_netns(b@).unwrap().1 == r1,
            dec_dhcp(r1) is Some && dec_dhcp(r1).unwrap().1 == r2,
            dec_strs(r2.subrange(4, r2.len() as int), count as nat) == match dec_strs(
                b@.subrange(pos as int, b@.len() as int),
                (count - i) as nat,
            ) {
                Some((ss, rest)) => Some((tables@.map_values(|t: String| t@) + ss, rest)),
                None => None::<(Seq<Seq<char>>, Seq<u8>)>,
            },
        decreases count - i,
    {
        let ghost cur = b@.subrange(pos as int, b@.len() as int);
        let ghost before = tables@.map_values(|t: String| t@);
        match read_str(b, pos) {
            Some((s, next)) => {
                proof {
                    let ghost rest_n = (count - i - 1) as nat;
                    assert(dec_strs(cur, (count - i) as nat) == match dec_strs(
                        b@.subrange(next as int, b@.len() as int),
                        rest_n,
                    ) {
                        Some((ss, rest)) => Some((seq![s@] + ss, rest)),
                        None => None::<(Seq<Seq<char>>, Seq<u8>)>,
                    });
                }
                tables.push(s);
                proof {
                    assert(tables@.map_values(|t: String| t@) =~= before.push(s@));
                    assert forall|ss: Seq<Seq<char>>| #[trigger] (before + (seq![s@] + ss)) == before.push(s@) + ss by {
                        assert(before + (seq![s@] + ss) =~= before.push(s@) + ss);
                    }
                }
                pos = next;
            },
            None => {
                assert(dec_strs(cur, (count - i) as nat) is None);
                assert(dec_tables(r2) is None);
                assert(decode_internals(b@) is None);
                return Err(NetError::EncodingError);
            },
        }
        i = i + 1;
    }
    if pos != b.len() {
        return Err(NetError::EncodingError);
    }
    let r = NetworkInternals { netns, dhcp, tables };
    assert(r@.tables =~= tables@.map_values(|t: String| t@));
    Ok(r)
}

} // verus!
