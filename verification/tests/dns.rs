use cpxy_ng::dns_divert::{divert_action, Action, DivertError};
use cpxy_ng::dns_model::SingleResolveResult;
use cpxy_ng::geoip::{serialize_entries, GeoIPv4Entry, GeoIpError, GeoIpTable};
use cpxy_ng::resolver::{contains_cn_address, resolve_dns_request};
use cpxy_ng::selector_outbound::SelectorOutbound;
use cpxy_ng::socks_stream::IpAddress;
use cpxy_ng::stats_outbound::Report;

fn ip(a: u8, b: u8, c: u8, d: u8) -> u32 {
    u32::from_be_bytes([a, b, c, d])
}

fn table() -> GeoIpTable {
    GeoIpTable::new(serialize_entries(vec![
        GeoIPv4Entry::new(ip(39, 156, 0, 0), ip(39, 156, 255, 255), *b"CN"),
        GeoIPv4Entry::new(ip(8, 8, 8, 0), ip(8, 8, 8, 255), *b"US"),
        GeoIPv4Entry::new(ip(1, 0, 0, 0), ip(1, 0, 0, 255), [0xff, 0xff]),
    ]))
    .expect("a table")
}

fn answer(addresses: &[u32], ttl_secs: u64) -> SingleResolveResult {
    SingleResolveResult { addresses: addresses.to_vec(), ttl_secs }
}

#[test]
fn a_checked_table_answers_lookups() {
    let table = table();
    assert_eq!(table.as_bytes().len(), 30);
    assert_eq!(table.find_country_code_v4(ip(39, 156, 1, 1)), Ok(Some("CN".to_string())));
    assert_eq!(table.find_country_code_v4(ip(8, 8, 8, 8)), Ok(Some("US".to_string())));
    assert_eq!(table.find_country_code_v4(ip(8, 8, 9, 0)), Ok(None));
    assert_eq!(table.find_country_code_v4(0), Ok(None));
    assert_eq!(
        table.find_country_code_v4(ip(1, 0, 0, 7)),
        Err(GeoIpError::InvalidCountryCode)
    );
    assert!(GeoIpTable::new(vec![1, 2, 3]).is_none());
    assert!(GeoIpTable::new(vec![]).is_some());
}

#[test]
fn a_name_with_an_address_in_china_is_reached_directly() {
    let table = table();
    let here = IpAddress::V4([39, 156, 66, 10]);
    let there = IpAddress::V4([8, 8, 8, 8]);
    let six = IpAddress::V6([0x20, 0x01, 0, 0, 0, 0, 0, 0, 0, 0, 0, 0, 0, 0, 0, 1]);
    assert_eq!(divert_action(&vec![], &table), Err(DivertError::NoAddresses));
    assert_eq!(divert_action(&vec![there], &table), Ok(Action::Proxy));
    assert_eq!(divert_action(&vec![six], &table), Ok(Action::Proxy));
    assert_eq!(divert_action(&vec![here], &table), Ok(Action::Direct(here)));
    assert_eq!(divert_action(&vec![there, six, here], &table), Ok(Action::Direct(here)));
    let other = IpAddress::V4([39, 156, 0, 1]);
    assert_eq!(
        divert_action(&vec![there, other, here], &table),
        Ok(Action::Direct(other))
    );
    assert_eq!(divert_action(&vec![IpAddress::V4([1, 0, 0, 1])], &table), Ok(Action::Proxy));
}

#[test]
fn the_answer_from_china_wins_where_it_names_china_or_stands_alone() {
    let table = table();
    let inside = answer(&[ip(8, 8, 8, 8), ip(39, 156, 66, 10)], 60);
    let outside = answer(&[ip(8, 8, 4, 4)], 300);
    let poisoned = answer(&[ip(8, 8, 8, 8)], 5);
    let nothing = answer(&[], 0);

    assert!(contains_cn_address(&inside.addresses, &table));
    assert!(!contains_cn_address(&outside.addresses, &table));
    assert!(!contains_cn_address(&nothing.addresses, &table));

    assert_eq!(resolve_dns_request(inside.clone(), outside.clone(), &table), inside);
    assert_eq!(resolve_dns_request(poisoned.clone(), outside.clone(), &table), outside);
    assert_eq!(resolve_dns_request(poisoned.clone(), nothing.clone(), &table), poisoned);
    assert_eq!(resolve_dns_request(nothing.clone(), outside.clone(), &table), outside);
    assert_eq!(resolve_dns_request(nothing.clone(), nothing.clone(), &table), nothing);
}

#[test]
fn a_selector_remembers_each_egress_by_itself() {
    let selector = SelectorOutbound::new(vec!["a", "b"]).ok().unwrap();
    let selector = selector.record(1, 30, true);
    let selector = selector.record(1, 10, false);
    let selector = selector.record(7, 999, true);
    assert_eq!(selector.len(), 2);
    assert_eq!(selector.get(0).report(), None);
    assert_eq!(
        selector.get(1).report(),
        Some(Report { avg_delay_ms: 20, error_rate_percent: 50 })
    );
    assert_eq!(*selector.get(0).get_ref(), "a");
    assert_eq!(*selector.get(1).get_ref(), "b");
}
