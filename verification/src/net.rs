//! IPv4 addresses and networks, held as 32-bit numbers (most significant
//! octet first, so 10.0.0.1 is 0x0A00_0001).
use crate::text::{decimal, usize_to_text};
use vstd::prelude::*;

verus! {

/// What ipnetwork's `Ipv4Network::from_str` returns for a text: the network's
/// address and prefix length, or the text of the parse error.
pub uninterp spec fn spec_parse_ipv4_network(s: Seq<char>) -> Result<(u32, u8), Seq<char>>;

/// Trusted: ipnetwork's `<Ipv4Network as FromStr>::from_str`, with the
/// network taken apart into its address (`u32::from(net.ip())`) and prefix
/// (`net.prefix()`), and an error given by its `Display` text. The result
/// is named; the one fact stated beside it is from the source: every network
/// it builds goes through `Ipv4Network::new`, which refuses prefixes above 32.
#[verifier::external_body]
pub(crate) fn parse_ipv4_network(s: &str) -> (r: Result<(u32, u8), String>)
    ensures
        match r {
            Ok(v) => spec_parse_ipv4_network(s@) == Ok::<(u32, u8), Seq<char>>(v),
            Err(e) => spec_parse_ipv4_network(s@) == Err::<(u32, u8), Seq<char>>(e@),
        },
        r matches Ok((_, p)) ==> p <= 32,
{
    match s.parse::<ipnetwork::Ipv4Network>() {
        Ok(n) => Ok((u32::from(n.ip()), n.prefix())),
        Err(e) => Err(e.to_string()),
    }
}

/// What std's `Ipv4Addr::from_str` returns for a text, as a number.
pub uninterp spec fn spec_parse_ipv4_addr(s: Seq<char>) -> Option<u32>;

/// Trusted: std's `<Ipv4Addr as FromStr>::from_str` (dotted-decimal notation),
/// with the address given as `u32::from(addr)`. The result is named.
#[verifier::external_body]
pub(crate) fn parse_ipv4_addr(s: &str) -> (r: Option<u32>)
    ensures
        r == spec_parse_ipv4_addr(s@),
{
    match s.parse::<core::net::Ipv4Addr>() {
        Ok(a) => Some(u32::from(a)),
        Err(_) => None,
    }
}

/// The netmask of a prefix length: its leading `prefix` bits set.
pub open spec fn prefix_mask(prefix: u8) -> u32 {
    (!(0xffff_ffffu64 >> prefix)) as u32
}

/// Whether `ip` lies in the network `addr/prefix`: both agree on the masked bits.
pub open spec fn spec_network_contains(addr: u32, prefix: u8, ip: u32) -> bool {
    (ip & prefix_mask(prefix)) == (addr & prefix_mask(prefix))
}

/// Membership of an address in a network, computed as ipnetwork's
/// `Ipv4Network::contains` does.
pub fn network_contains(addr: u32, prefix: u8, ip: u32) -> (r: bool)
    requires
        prefix <= 32,
    ensures
        r == spec_network_contains(addr, prefix, ip),
{
    let mask = (!(0xffff_ffffu64 >> prefix)) as u32;
    (ip & mask) == (addr & mask)
}

/// A /0 network holds every address, a /32 network only its own address.
pub proof fn lemma_network_contains_extremes(addr: u32, ip: u32)
    ensures
        spec_network_contains(addr, 0, ip),
        spec_network_contains(addr, 32, ip) == (ip == addr),
{
    assert(prefix_mask(0) == 0) by (bit_vector);
    assert(prefix_mask(32) == 0xffff_ffffu32) by (bit_vector);
    assert(ip & 0 == 0 && addr & 0 == 0) by (bit_vector);
    assert(ip & 0xffff_ffffu32 == ip && addr & 0xffff_ffffu32 == addr) by (bit_vector);
}

/// An address lies in the network `addr/prefix` exactly when its first
/// `prefix` bits (counted from the most significant) are those of `addr`.
pub proof fn lemma_network_contains_leading_bits(addr: u32, prefix: u8, ip: u32)
    requires
        prefix <= 32,
    ensures
        spec_network_contains(addr, prefix, ip) <==> ((ip as u64) >> (32 - prefix) as u64) == ((addr as u64) >> (32
            - prefix) as u64),
{
    let m = prefix_mask(prefix);
    let sh = (32 - prefix) as u64;
    let ip64 = ip as u64;
    let addr64 = addr as u64;
    let p64 = prefix as u64;
    assert(m == (!(0xffff_ffffu64 >> p64)) as u32);
    assert(((ip & m) == (addr & m)) <==> ((ip64 >> sh) == (addr64 >> sh))) by (bit_vector)
        requires
            p64 <= 32,
            sh == 32 - p64,
            m == (!(0xffff_ffffu64 >> p64)) as u32,
            ip64 == ip as u64,
            addr64 == addr as u64,
    ;
}

/// An address in dotted-decimal notation, as std's `Ipv4Addr` displays it.
pub open spec fn dotted(ip: u32) -> Seq<char> {
    decimal((ip / 0x100_0000) as nat) + "."@ + decimal(((ip / 0x1_0000) % 0x100) as nat) + "."@
        + decimal(((ip / 0x100) % 0x100) as nat) + "."@ + decimal((ip % 0x100) as nat)
}

/// An address in dotted-decimal notation.
pub fn dotted_text(ip: u32) -> (r: String)
    ensures
        r@ == dotted(ip),
{
    let a = usize_to_text((ip / 0x100_0000) as usize);
    let b = usize_to_text(((ip / 0x1_0000) % 0x100) as usize);
    let c = usize_to_text(((ip / 0x100) % 0x100) as usize);
    let d = usize_to_text((ip % 0x100) as usize);
    let mut s = a;
    s.append(".");
    s.append(b.as_str());
    s.append(".");
    s.append(c.as_str());
    s.append(".");
    s.append(d.as_str());
    s
}

} // verus!
