//! Socket addresses as plain values.
use vstd::prelude::*;

verus! {

/// An IP address, as the number that its bits spell.
#[derive(Clone, Copy, Debug, PartialEq, Eq, Structural)]
pub enum Ip {
    V4(u32),
    V6(u128),
}

impl Ip {
    /// An address of the loopback network `127.0.0.0/8`, or `::1`.
    #[verifier::allow_in_spec]
    pub fn is_loopback(&self) -> bool
        returns
            (match *self {
                Ip::V4(bits) => bits / 0x100_0000 == 127,
                Ip::V6(bits) => bits == 1,
            }),
    {
        match *self {
            Ip::V4(bits) => bits / 0x100_0000 == 127,
            Ip::V6(bits) => bits == 1,
        }
    }

    /// The address `0.0.0.0`, or `::`.
    #[verifier::allow_in_spec]
    pub fn is_unspecified(&self) -> bool
        returns
            (match *self {
                Ip::V4(bits) => bits == 0,
                Ip::V6(bits) => bits == 0,
            }),
    {
        match *self {
            Ip::V4(bits) => bits == 0,
            Ip::V6(bits) => bits == 0,
        }
    }
}

/// A socket address.
#[allow(inconsistent_fields)]
#[derive(Clone, Copy, Debug, PartialEq, Eq, Structural)]
pub enum Addr {
    V4 { ip: u32, port: u16 },
    V6 { ip: u128, port: u16, flowinfo: u32, scope_id: u32 },
}

impl Addr {
    #[verifier::allow_in_spec]
    pub fn ip(&self) -> Ip
        returns
            (match *self {
                Addr::V4 { ip, .. } => Ip::V4(ip),
                Addr::V6 { ip, .. } => Ip::V6(ip),
            }),
    {
        match *self {
            Addr::V4 { ip, .. } => Ip::V4(ip),
            Addr::V6 { ip, .. } => Ip::V6(ip),
        }
    }

    #[verifier::allow_in_spec]
    pub fn port(&self) -> u16
        returns
            (match *self {
                Addr::V4 { port, .. } => port,
                Addr::V6 { port, .. } => port,
            }),
    {
        match *self {
            Addr::V4 { port, .. } => port,
            Addr::V6 { port, .. } => port,
        }
    }
}

/// A remote end: the address itself, and the address under which its connections
/// are filed (the transport folds an IPv4 address that arrives in IPv6 clothing
/// into its plain form).
#[derive(Clone, Copy, Debug, PartialEq, Eq, Structural)]
pub struct Remote {
    pub addr: Addr,
    pub key: Addr,
}

} // verus!
