//! IPv4 networks.
use vstd::prelude::*;

verus! {

/// An IPv4 network: an address in it, and the number of leading bits that its
/// addresses share.
#[derive(Clone, Copy, Debug, PartialEq, Eq, Structural)]
pub struct Ipv4Net {
    pub ip: u32,
    pub prefix: u8,
}

/// The address bits and the prefix that the `FromStr` impl of
/// `ipnetwork::Ipv4Network` reads from a text; `None` where it reports an error.
pub uninterp spec fn parsed_network(text: Seq<char>) -> Option<(u32, u8)>;

/// Calls `ipnetwork::Ipv4Network::from_str` (by `str::parse`).
///
/// Claims that the outcome is a function of the text, and that the prefix of a
/// network is at most 32: `Ipv4Network::new`, by which the network is made, refuses a
/// longer one.
#[verifier::external_body]
fn parse_ipv4_network(text: &str) -> (network: Option<(u32, u8)>)
    ensures
        network == parsed_network(text@),
        network matches Some(parts) ==> parts.1 <= 32,
{
    text.parse::<ipnetwork::Ipv4Network>().ok().map(|net| (u32::from(net.ip()), net.prefix()))
}

/// The network that an outcome of the parser stands for.
pub open spec fn network_of(parts: Option<(u32, u8)>) -> Option<Ipv4Net> {
    match parts {
        Some((ip, prefix)) => Some(Ipv4Net { ip, prefix }),
        None => None,
    }
}

/// The network that an outcome of the parser stands for.
pub fn mask_of(parts: Option<(u32, u8)>) -> (mask: Option<Ipv4Net>)
    ensures
        mask == network_of(parts),
{
    match parts {
        Some((ip, prefix)) => Some(Ipv4Net { ip, prefix }),
        None => None,
    }
}

/// Reads the mask of the local network; a text that spells none gives none.
pub fn parse_mask(text: &str) -> (mask: Option<Ipv4Net>)
    ensures
        mask == network_of(parsed_network(text@)),
        mask matches Some(net) ==> net.prefix <= 32,
{
    mask_of(parse_ipv4_network(text))
}

} // verus!
