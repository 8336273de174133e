use vstd::prelude::*;
use vstd::utf8::{decode_utf8, valid_utf8};

use crate::error::ProxyError;
use crate::text::{decimal, push_char, push_decimal, string_from_utf8};

verus! {

/// A target address as a request names it.
#[derive(Debug, Clone)]
pub enum Addr {
    V4([u8; 4]),
    V6([u8; 16]),
    Domain(Vec<u8>),
}

/// The decimal text of each byte, joined by `sep`.
pub open spec fn joined_decimal(bytes: Seq<u8>, sep: char) -> Seq<char>
    decreases bytes.len(),
{
    if bytes.len() == 0 {
        Seq::empty()
    } else if bytes.len() == 1 {
        decimal(bytes[0] as nat)
    } else {
        joined_decimal(bytes.drop_last(), sep).push(sep) + decimal(bytes.last() as nat)
    }
}

/// The host text of an address, or `None` for a domain that is not UTF-8.
pub open spec fn host_text(a: Addr) -> Option<Seq<char>> {
    match a {
        Addr::V4(b) => Some(joined_decimal(b@, '.')),
        Addr::V6(b) => Some(joined_decimal(b@, ':')),
        Addr::Domain(d) => if valid_utf8(d@) {
            Some(decode_utf8(d@))
        } else {
            None
        },
    }
}

/// `host:port`, or `None` for a domain that is not UTF-8.
pub open spec fn endpoint_text(a: Addr, port: u16) -> Option<Seq<char>> {
    match host_text(a) {
        Some(h) => Some(h.push(':') + decimal(port as nat)),
        None => None,
    }
}

/// Appends the decimal text of each byte of `bytes`, joined by `sep`.
fn push_joined_decimal(s: &mut String, bytes: &[u8], sep: char)
    ensures
        final(s)@ == old(s)@ + joined_decimal(bytes@, sep),
{
    let ghost start = s@;
    let mut i: usize = 0;
    while i < bytes.len()
        invariant
            i <= bytes@.len(),
            s@ == start + joined_decimal(bytes@.subrange(0, i as int), sep),
        decreases bytes@.len() - i,
    {
        let ghost before = s@;
        if i > 0 {
            push_char(s, sep);
        }
        push_decimal(s, bytes[i] as u16);
        proof {
            let next = bytes@.subrange(0, i + 1);
            assert(next.drop_last() =~= bytes@.subrange(0, i as int));
            assert(next.last() == bytes@[i as int]);
            if i == 0 {
                assert(joined_decimal(bytes@.subrange(0, 0), sep) =~= Seq::empty());
                assert(before =~= start);
            }
        }
        assert(s@ =~= start + joined_decimal(bytes@.subrange(0, i + 1), sep));
        i = i + 1;
    }
    assert(bytes@.subrange(0, bytes@.len() as int) =~= bytes@);
}

/// Renders the host part of an address: dotted decimal for `V4`, sixteen
/// decimal octets joined by colons for `V6`, and the UTF-8 text of a domain.
pub fn format_ip_addr(addr: &Addr) -> (r: Result<String, ProxyError>)
    ensures
        match host_text(*addr) {
            Some(t) => r matches Ok(s) && s@ == t,
            None => r == Err::<String, ProxyError>(ProxyError::EncodingError),
        },
{
    match addr {
        Addr::V4(b) => {
            let mut s = String::new();
            push_joined_decimal(&mut s, b.as_slice(), '.');
            assert(s@ =~= joined_decimal(b@, '.'));
            Ok(s)
        },
        Addr::V6(b) => {
            let mut s = String::new();
            push_joined_decimal(&mut s, b.as_slice(), ':');
            assert(s@ =~= joined_decimal(b@, ':'));
            Ok(s)
        },
        Addr::Domain(d) => match string_from_utf8(d.clone()) {
            Some(s) => Ok(s),
            None => Err(ProxyError::EncodingError),
        },
    }
}

/// Renders `host:port` for an address and a port.
pub fn format_endpoint(addr: &Addr, port: u16) -> (r: Result<String, ProxyError>)
    ensures
        match endpoint_text(*addr, port) {
            Some(t) => r matches Ok(s) && s@ == t,
            None => r == Err::<String, ProxyError>(ProxyError::EncodingError),
        },
{
    match format_ip_addr(addr) {
        Ok(s) => {
            let mut s = s;
            push_char(&mut s, ':');
            push_decimal(&mut s, port);
            Ok(s)
        },
        Err(e) => Err(e),
    }
}

} // verus!
