use vstd::prelude::*;

use crate::address::{endpoint_text, format_endpoint, Addr};
use crate::error::ProxyError;

verus! {

/// The 16-bit word made of a high and a low byte.
pub open spec fn word(hi: u8, lo: u8) -> u16 {
    (hi as nat * 256 + lo as nat) as u16
}

/// Joins a high and a low byte into one 16-bit word.
pub fn makeword(hi: u8, lo: u8) -> (r: u16)
    ensures
        r == word(hi, lo),
        r as nat == hi as nat * 256 + lo as nat,
{
    (hi as u16) * 256 + (lo as u16)
}

/// The eight words of an IPv6 address, each from two bytes, high byte first.
pub fn v6_segments(b: &[u8; 16]) -> (r: [u16; 8])
    ensures
        forall|i: int| 0 <= i < 8 ==> #[trigger] r@[i] == word(b@[2 * i], b@[2 * i + 1]),
{
    let r: [u16; 8] = [
        makeword(b[0], b[1]),
        makeword(b[2], b[3]),
        makeword(b[4], b[5]),
        makeword(b[6], b[7]),
        makeword(b[8], b[9]),
        makeword(b[10], b[11]),
        makeword(b[12], b[13]),
        makeword(b[14], b[15]),
    ];
    assert forall|i: int| 0 <= i < 8 implies #[trigger] r@[i] == word(b@[2 * i], b@[2 * i + 1]) by {
        if i == 0 {} else if i == 1 {} else if i == 2 {} else if i == 3 {}
        else if i == 4 {} else if i == 5 {} else if i == 6 {} else {}
    };
    r
}

/// How to dial a target.
#[derive(Debug, Clone)]
pub enum DialPlan {
    /// Resolve and dial the `host:port` text.
    Text(String),
    /// Dial this IPv6 address directly, with no flow label and no scope id.
    V6 { segments: [u16; 8], port: u16 },
}

/// Whether `plan` dials `addr` at `port`: IPv6 by its words and the port,
/// anything else by its `host:port` text.
pub open spec fn plan_matches(addr: Addr, port: u16, plan: DialPlan) -> bool {
    match addr {
        Addr::V6(b) => plan matches DialPlan::V6 { segments, port: p } && p == port
            && forall|i: int| 0 <= i < 8 ==> #[trigger] segments@[i] == word(b@[2 * i], b@[2 * i + 1]),
        _ => plan matches DialPlan::Text(s) && endpoint_text(addr, port) == Some(s@),
    }
}

/// The dial plan for a target: IPv4 addresses and domains are dialled by their
/// `host:port` text, IPv6 addresses by their eight words. A domain that is not
/// UTF-8 gives `EncodingError`.
pub fn dial_plan(addr: &Addr, port: u16) -> (r: Result<DialPlan, ProxyError>)
    ensures
        match r {
            Ok(plan) => plan_matches(*addr, port, plan),
            Err(e) => e == ProxyError::EncodingError && endpoint_text(*addr, port) is None,
        },
        r is Err <==> endpoint_text(*addr, port) is None,
{
    match addr {
        Addr::V6(b) => Ok(DialPlan::V6 { segments: v6_segments(b), port }),
        _ => match format_endpoint(addr, port) {
            Ok(s) => Ok(DialPlan::Text(s)),
            Err(e) => Err(e),
        },
    }
}

} // verus!
