use vstd::prelude::*;

use crate::address::Addr;

verus! {

/// Address type code for an IPv4 address.
pub const ATYP_V4: u8 = 1;
/// Address type code for a domain name.
pub const ATYP_DOMAIN: u8 = 3;
/// Address type code for an IPv6 address.
pub const ATYP_V6: u8 = 4;

/// A port as two bytes, high byte first.
pub open spec fn port_bytes(port: u16) -> Seq<u8> {
    seq![(port / 256) as u8, (port % 256) as u8]
}

/// The address as a request encodes it: its type code, then its bytes, a
/// domain preceded by its length.
pub open spec fn addr_encoding(a: Addr) -> Seq<u8> {
    match a {
        Addr::V4(b) => seq![ATYP_V4] + b@,
        Addr::V6(b) => seq![ATYP_V6] + b@,
        Addr::Domain(d) => seq![ATYP_DOMAIN, d@.len() as u8] + d@,
    }
}

/// An address that a request can carry: a domain is at most 255 bytes long.
pub open spec fn addr_fits_wire(a: Addr) -> bool {
    match a {
        Addr::Domain(d) => d@.len() <= 255,
        _ => true,
    }
}

/// The success reply: version, status and reserved byte, the address echoed
/// as the request encoded it, then the local port of the outbound connection.
pub open spec fn success_reply_bytes(a: Addr, local_port: u16) -> Seq<u8> {
    seq![5u8, 0u8, 0u8] + addr_encoding(a) + port_bytes(local_port)
}

fn push_all(v: &mut Vec<u8>, bytes: &[u8])
    ensures
        final(v)@ == old(v)@ + bytes@,
{
    let ghost start = v@;
    let mut i: usize = 0;
    while i < bytes.len()
        invariant
            i <= bytes@.len(),
            v@ == start + bytes@.subrange(0, i as int),
        decreases bytes@.len() - i,
    {
        v.push(bytes[i]);
        assert(v@ =~= start + bytes@.subrange(0, i + 1));
        i = i + 1;
    }
    assert(bytes@.subrange(0, bytes@.len() as int) =~= bytes@);
}

/// Builds the reply that announces an established connection.
pub fn success_reply(addr: &Addr, local_port: u16) -> (r: Vec<u8>)
    requires
        addr_fits_wire(*addr),
    ensures
        r@ == success_reply_bytes(*addr, local_port),
{
    let mut r: Vec<u8> = Vec::new();
    r.push(5);
    r.push(0);
    r.push(0);
    match addr {
        Addr::V4(b) => {
            r.push(ATYP_V4);
            push_all(&mut r, b.as_slice());
        },
        Addr::V6(b) => {
            r.push(ATYP_V6);
            push_all(&mut r, b.as_slice());
        },
        Addr::Domain(d) => {
            r.push(ATYP_DOMAIN);
            r.push(d.len() as u8);
            push_all(&mut r, d.as_slice());
        },
    }
    r.push((local_port / 256) as u8);
    r.push((local_port % 256) as u8);
    assert(r@ =~= success_reply_bytes(*addr, local_port));
    r
}

} // verus!
