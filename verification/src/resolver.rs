//! The answer of the DNS divert service for a name that was looked up both
//! inside and outside China.

use vstd::prelude::*;
use crate::dns_model::SingleResolveResult;
use crate::geoip::{is_table, GeoIpTable};
use crate::outbound::cn::{in_cn, is_cn_address};

verus! {

/// Whether one of `addresses` lies in China.
pub open spec fn spec_contains_cn_address(addresses: Seq<u32>, table: Seq<u8>) -> bool {
    exists|i: int| 0 <= i < addresses.len() && in_cn(table, #[trigger] addresses[i])
}


/// Whether `table` places one of `addresses` in China.
pub fn contains_cn_address(addresses: &Vec<u32>, table: &GeoIpTable) -> (yes: bool)
    ensures
        yes == spec_contains_cn_address(addresses@, table.data()),
{
    let bytes = table.as_bytes();
    let mut i: usize = 0;
    while i < addresses.len()
        invariant
            0 <= i <= addresses@.len(),
            bytes@ == table.data(),
            is_table(bytes@),
            forall|j: int| 0 <= j < i ==> !in_cn(table.data(), #[trigger] addresses@[j]),
        decreases addresses@.len() - i,
    {
        if is_cn_address(addresses[i], bytes) {
            assert(in_cn(table.data(), addresses@[i as int]));
            return true;
        }
        i += 1;
    }
    false
}

/// The answer for a name: what the resolver in China found, where that
/// names an address in China or the resolver outside found nothing; else
/// what the resolver outside found.
pub fn resolve_dns_request(
    cn: SingleResolveResult,
    global: SingleResolveResult,
    table: &GeoIpTable,
) -> (answer: SingleResolveResult)
    ensures
        answer == if spec_contains_cn_address(cn.addresses@, table.data()) || global.addresses@.len()
            == 0 {
            cn
        } else {
            global
        },
{
    if contains_cn_address(&cn.addresses, table) || global.addresses.len() == 0 {
        cn
    } else {
        global
    }
}

} // verus!
