//! Whether a name is reached directly or through the tunnel, by where its
//! addresses lie.

use vstd::prelude::*;
use crate::geoip::{be32, is_table, GeoIpTable};
use crate::outbound::cn::{in_cn, is_cn_address};
use crate::socks_stream::IpAddress;

verus! {

/// What to do with a name.
#[derive(Debug, Clone, Copy, PartialEq, Eq)]
pub enum Action {
    /// Connect straight to this address.
    Direct(IpAddress),
    /// Go through the tunnel.
    Proxy,
}

/// Why a name cannot be placed.
#[derive(Debug, Clone, Copy, PartialEq, Eq, Structural)]
pub enum DivertError {
    /// The lookup found no address.
    NoAddresses,
}

/// Whether an address is an IPv4 address that `table` places in China.
pub open spec fn spec_is_cn(address: IpAddress, table: Seq<u8>) -> bool {
    match address {
        IpAddress::V4(ip) => in_cn(table, be32(ip[0], ip[1], ip[2], ip[3])),
        IpAddress::V6(_) => false,
    }
}

/// Places a name by the addresses that a lookup has found for it: the first
/// address in China is connected to directly; with none, the name goes
/// through the tunnel.
pub fn divert_action(addrs: &Vec<IpAddress>, table: &GeoIpTable) -> (res: Result<Action, DivertError>)
    ensures
        res is Err <==> addrs@.len() == 0,
        res matches Ok(Action::Direct(a)) ==> exists|i: int|
            0 <= i < addrs@.len() && addrs@[i] == a && spec_is_cn(addrs@[i], table.data())
                && forall|j: int| 0 <= j < i ==> !spec_is_cn(#[trigger] addrs@[j], table.data()),
        res matches Ok(Action::Proxy) ==> forall|j: int|
            0 <= j < addrs@.len() ==> !spec_is_cn(#[trigger] addrs@[j], table.data()),
{
    if addrs.len() == 0 {
        return Err(DivertError::NoAddresses);
    }
    let bytes = table.as_bytes();
    let mut i: usize = 0;
    while i < addrs.len()
        invariant
            0 <= i <= addrs@.len(),
            bytes@ == table.data(),
            is_table(bytes@),
            forall|j: int| 0 <= j < i ==> !spec_is_cn(#[trigger] addrs@[j], table.data()),
        decreases addrs@.len() - i,
    {
        let found = match addrs[i] {
            IpAddress::V4(ip) => {
                let number = (ip[0] as u32) * 16777216 + (ip[1] as u32) * 65536 + (ip[2] as u32)
                    * 256 + (ip[3] as u32);
                is_cn_address(number, bytes)
            },
            IpAddress::V6(_) => false,
        };
        if found {
            assert(spec_is_cn(addrs@[i as int], table.data()));
            return Ok(Action::Direct(addrs[i]));
        }
        i += 1;
    }
    Ok(Action::Proxy)
}

} // verus!
