//! The tunnel device's settings as the client receives them.
use vstd::prelude::*;

verus! {

/// Name, address, netmask, resolvers and MTU of a tunnel device.
#[derive(Debug, Clone)]
pub struct TunConfig {
    pub name: String,
    pub address: String,
    pub netmask: String,
    pub dns: Vec<String>,
    pub mtu: u32,
}

} // verus!
