//! Network addresses of fog nodes.
use vstd::prelude::*;

verus! {

/// An IP address, by its bits.
#[derive(Clone, Copy, Debug, PartialEq, Eq, Structural)]
pub enum IpAddress {
    V4(u32),
    V6(u128),
}

/// Where a fog node can be reached.
#[derive(Clone, Copy, Debug, PartialEq, Eq, Structural)]
pub struct NodeDescription {
    pub ip: IpAddress,
    pub port: u16,
}

} // verus!
