use cpxy_ng::geoip::{serialize_entries, GeoIPv4Entry};
use cpxy_ng::http_util::{HeadReader, HeadStep};
use cpxy_ng::outbound::cn::{
    cn_outbound, cn_select, ip_should_route_direct, ip_should_route_tailscale,
    site_should_route_ai, AiSiteRule, CnRoute, DirectRule, TailscaleRule,
};
use cpxy_ng::outbound::direct::{DialTarget, DirectOutbound, DirectPlan};
use cpxy_ng::outbound::either::EitherOutbound;
use cpxy_ng::outbound::http::{HttpProxyOutbound, HttpProxyRefusal};
use cpxy_ng::outbound::ip_divert::IPDivertOutbound;
use cpxy_ng::outbound::protocol::ProtocolOutbound;
use cpxy_ng::outbound::resolving_ip::ResolvingIPOutbound;
use cpxy_ng::outbound::site_divert::SiteDivertOutbound;
use cpxy_ng::outbound::stat_reporting::StatReportingOutbound;
use cpxy_ng::outbound::{IpRule, OutboundHost, OutboundRequest, SiteRule};
use cpxy_ng::encrypt_stream::{CipherState, Configuration};
use cpxy_ng::protocol;
use cpxy_ng::protocol_config::Config;
use cpxy_ng::stats_server::OutboundEvent;

fn ip(a: u8, b: u8, c: u8, d: u8) -> u32 {
    u32::from_be_bytes([a, b, c, d])
}

fn cn_table() -> Vec<u8> {
    serialize_entries(vec![
        GeoIPv4Entry::new(ip(39, 156, 0, 0), ip(39, 156, 255, 255), *b"CN"),
        GeoIPv4Entry::new(ip(8, 8, 8, 0), ip(8, 8, 8, 255), *b"US"),
        GeoIPv4Entry::new(ip(220, 181, 0, 0), ip(220, 181, 255, 255), *b"CN"),
    ])
}

fn request(host: &str, address: Option<u32>) -> OutboundRequest {
    OutboundRequest {
        host: OutboundHost::Resolved { domain: host.to_string(), ip: address },
        port: 443,
        tls: false,
        initial_plaintext: vec![],
    }
}

fn full_tree() -> cpxy_ng::outbound::cn::CnTree<&'static str, &'static str, &'static str, &'static str> {
    cn_outbound("global", Some("ai"), Some("tailscale"), "direct", DirectRule::new(cn_table()).unwrap())
}

fn bare_tree() -> cpxy_ng::outbound::cn::CnTree<&'static str, &'static str, &'static str, &'static str> {
    cn_outbound("global", None, None, "direct", DirectRule::new(cn_table()).unwrap())
}

#[test]
fn an_address_in_china_goes_out_directly() {
    let tree = full_tree();
    let req = request("baidu.com", Some(ip(39, 156, 66, 10)));
    assert_eq!(cn_select(&tree, &req), CnRoute::Direct(&"direct"));
    let req = request("baidu.com", Some(ip(220, 181, 38, 148)));
    assert_eq!(cn_select(&tree, &req), CnRoute::Direct(&"direct"));
}

#[test]
fn a_tailscale_address_is_caught_before_any_other_rule() {
    let tree = full_tree();
    let req = request("api.openai.com", Some(ip(100, 64, 0, 5)));
    assert_eq!(cn_select(&tree, &req), CnRoute::Tailscale(&"tailscale"));
    let req = request("node.ts.net", Some(ip(100, 0, 0, 0)));
    assert_eq!(cn_select(&tree, &req), CnRoute::Tailscale(&"tailscale"));
    let req = request("node.ts.net", Some(ip(100, 255, 255, 255)));
    assert_eq!(cn_select(&tree, &req), CnRoute::Tailscale(&"tailscale"));
    let req = request("elsewhere.example", Some(ip(101, 0, 0, 0)));
    assert_eq!(cn_select(&tree, &req), CnRoute::Global(&"global"));
    let req = request("elsewhere.example", Some(ip(99, 255, 255, 255)));
    assert_eq!(cn_select(&tree, &req), CnRoute::Global(&"global"));

    let bare = bare_tree();
    let req = request("node.ts.net", Some(ip(100, 64, 0, 5)));
    assert_eq!(cn_select(&bare, &req), CnRoute::Global(&"global"));
}

#[test]
fn an_ai_domain_goes_to_the_ai_egress_where_there_is_one() {
    let tree = full_tree();
    let req = request("api.openai.com", Some(ip(39, 156, 66, 10)));
    assert_eq!(cn_select(&tree, &req), CnRoute::Ai(&"ai"));
    let req = request("api.openai.com", None);
    assert_eq!(cn_select(&tree, &req), CnRoute::Ai(&"ai"));

    let bare = bare_tree();
    let req = request("api.openai.com", Some(ip(39, 156, 66, 10)));
    assert_eq!(cn_select(&bare, &req), CnRoute::Direct(&"direct"));
    let req = request("api.openai.com", Some(ip(104, 18, 0, 1)));
    assert_eq!(cn_select(&bare, &req), CnRoute::Global(&"global"));
}

#[test]
fn an_unknown_address_goes_through_the_tunnel() {
    let tree = full_tree();
    assert_eq!(cn_select(&tree, &request("example.com", None)), CnRoute::Global(&"global"));
    let unresolved = OutboundRequest {
        host: OutboundHost::Domain("example.com".to_string()),
        port: 80,
        tls: false,
        initial_plaintext: vec![],
    };
    assert_eq!(cn_select(&tree, &unresolved), CnRoute::Global(&"global"));
    assert_eq!(
        cn_select(&tree, &request("dns.google", Some(ip(8, 8, 8, 8)))),
        CnRoute::Global(&"global")
    );
}

#[test]
fn local_addresses_go_out_directly() {
    let tree = full_tree();
    for address in [
        ip(10, 0, 0, 1),
        ip(10, 255, 255, 255),
        ip(172, 16, 0, 0),
        ip(172, 31, 255, 255),
        ip(192, 168, 1, 1),
        ip(127, 0, 0, 1),
        ip(127, 255, 255, 255),
        ip(169, 254, 0, 1),
    ] {
        assert_eq!(
            cn_select(&tree, &request("printer.lan", Some(address))),
            CnRoute::Direct(&"direct"),
            "{address:#x}"
        );
    }
    for address in [
        ip(9, 255, 255, 255),
        ip(11, 0, 0, 0),
        ip(172, 15, 255, 255),
        ip(172, 32, 0, 0),
        ip(192, 167, 255, 255),
        ip(192, 169, 0, 0),
        ip(126, 255, 255, 255),
        ip(128, 0, 0, 0),
        ip(169, 253, 255, 255),
        ip(169, 255, 0, 0),
    ] {
        assert_eq!(
            cn_select(&tree, &request("far.example", Some(address))),
            CnRoute::Global(&"global"),
            "{address:#x}"
        );
    }
}

#[test]
fn the_address_rules_by_themselves() {
    let table = cn_table();
    assert!(!ip_should_route_direct(None, &table));
    assert!(ip_should_route_direct(Some(ip(39, 156, 0, 0)), &table));
    assert!(ip_should_route_direct(Some(ip(39, 156, 255, 255)), &table));
    assert!(!ip_should_route_direct(Some(ip(39, 157, 0, 0)), &table));
    assert!(!ip_should_route_direct(Some(ip(8, 8, 8, 8)), &table));
    assert!(ip_should_route_direct(Some(ip(192, 168, 0, 1)), &[]));
    assert!(!ip_should_route_direct(Some(ip(39, 156, 0, 0)), &[]));

    assert!(!ip_should_route_tailscale(None));
    assert!(ip_should_route_tailscale(Some(ip(100, 64, 0, 5))));
    assert!(!ip_should_route_tailscale(Some(ip(10, 64, 0, 5))));

    assert!(TailscaleRule.test(Some(ip(100, 1, 2, 3))));
    assert!(!TailscaleRule.test(None));
    let rule = DirectRule::new(table).unwrap();
    assert!(rule.test(Some(ip(220, 181, 1, 1))));
    assert!(!rule.test(Some(ip(1, 1, 1, 1))));
    assert!(!rule.test(None));
}

#[test]
fn a_rule_needs_a_table_in_order() {
    assert!(DirectRule::new(vec![]).is_some());
    assert!(DirectRule::new(cn_table()).is_some());
    assert!(DirectRule::new(vec![0u8; 9]).is_none());
    let mut swapped = cn_table();
    swapped.rotate_left(10);
    assert!(DirectRule::new(swapped).is_none());
}

#[test]
fn ai_sites_are_told_by_their_suffix() {
    for host in [
        "anthropic.com",
        "api.anthropic.com",
        "openai.com",
        "API.OpenAI.com",
        "chatgpt.com",
        "generativelanguage.googleapis.com",
        "www.google.com",
        "lh3.googleusercontent.com",
        "fonts.gstatic.com",
        "notopenai.com",
    ] {
        assert!(site_should_route_ai(host), "{host}");
        assert!(AiSiteRule.test(host), "{host}");
    }
    for host in [
        "",
        "example.com",
        "openai.com.cn",
        "openai.co",
        "google.com.",
        "anthropic.org",
        "com",
        "gemini.example",
    ] {
        assert!(!site_should_route_ai(host), "{host}");
        assert!(!AiSiteRule.test(host), "{host}");
    }
}

#[test]
fn a_fork_without_its_first_egress_always_takes_the_second() {
    let fork: IPDivertOutbound<u8, u8, TailscaleRule> =
        IPDivertOutbound { outbound_a: None, outbound_b: 2, should_use_a: TailscaleRule };
    let req = request("x", Some(ip(100, 64, 0, 5)));
    assert_eq!(fork.select(&req), EitherOutbound::Right(&2));
    assert!(!fork.select(&req).is_left());
    let fork = IPDivertOutbound { outbound_a: Some(1u8), outbound_b: 2u8, should_use_a: TailscaleRule };
    assert_eq!(fork.select(&req), EitherOutbound::Left(&1));
    assert!(fork.select(&req).is_left());
    assert_eq!(fork.select(&request("x", None)), EitherOutbound::Right(&2));

    let fork: SiteDivertOutbound<u8, u8, AiSiteRule> =
        SiteDivertOutbound { outbound_a: None, outbound_b: 2, should_use_a: AiSiteRule };
    assert_eq!(fork.select(&request("openai.com", None)), EitherOutbound::Right(&2));
    let fork = SiteDivertOutbound { outbound_a: Some(1u8), outbound_b: 2u8, should_use_a: AiSiteRule };
    assert_eq!(fork.select(&request("openai.com", None)), EitherOutbound::Left(&1));
    assert_eq!(fork.select(&request("example.com", None)), EitherOutbound::Right(&2));
}

#[test]
fn resolving_adds_the_address_and_changes_nothing_else() {
    let resolving = ResolvingIPOutbound { inner: () };
    let req = OutboundRequest {
        host: OutboundHost::Domain("baidu.com".to_string()),
        port: 443,
        tls: true,
        initial_plaintext: b"hello".to_vec(),
    };
    assert_eq!(resolving.name_to_resolve(&req), Some("baidu.com"));
    let resolved = resolving.send(req.clone(), Some(ip(39, 156, 66, 10)));
    assert_eq!(
        resolved,
        OutboundRequest {
            host: OutboundHost::Resolved {
                domain: "baidu.com".to_string(),
                ip: Some(ip(39, 156, 66, 10))
            },
            port: 443,
            tls: true,
            initial_plaintext: b"hello".to_vec(),
        }
    );
    assert_eq!(resolving.name_to_resolve(&resolved), None);
    assert_eq!(resolving.send(resolved.clone(), Some(1)), resolved);
    let failed = resolving.send(req, None);
    assert_eq!(
        failed.host,
        OutboundHost::Resolved { domain: "baidu.com".to_string(), ip: None }
    );
}

#[test]
fn hosts_know_their_name_and_address() {
    let name = OutboundHost::Domain("example.com".to_string());
    assert_eq!(name.host(), "example.com");
    assert_eq!(name.ip(), None);
    assert!(name.needs_lookup());
    let (resolved, address) = name.resolved(Some(7));
    assert_eq!(address, Some(7));
    assert_eq!(resolved.host(), "example.com");
    assert_eq!(resolved.ip(), Some(7));
    assert!(!resolved.needs_lookup());
    let (again, address) = resolved.resolved(Some(8));
    assert_eq!(address, Some(7));
    assert_eq!(again.ip(), Some(7));
}

#[test]
fn a_direct_connection_dials_the_address_and_presents_the_name() {
    let direct = DirectOutbound::default();
    assert_eq!(direct.connection_timeout_secs, 10);
    let mut req = request("baidu.com", Some(ip(39, 156, 66, 10)));
    req.tls = true;
    req.initial_plaintext = b"first".to_vec();
    assert_eq!(
        direct.send(req),
        DirectPlan {
            target: DialTarget::Ip(ip(39, 156, 66, 10)),
            port: 443,
            timeout_secs: 10,
            tls_server_name: Some("baidu.com".to_string()),
            initial_plaintext: b"first".to_vec(),
        }
    );
    let quick = DirectOutbound { connection_timeout_secs: 3 };
    assert_eq!(
        quick.send(request("example.com", None)),
        DirectPlan {
            target: DialTarget::Domain("example.com".to_string()),
            port: 443,
            timeout_secs: 3,
            tls_server_name: None,
            initial_plaintext: vec![],
        }
    );
    let unresolved = OutboundRequest {
        host: OutboundHost::Domain("example.com".to_string()),
        port: 8443,
        tls: true,
        initial_plaintext: vec![1],
    };
    assert_eq!(
        quick.send(unresolved),
        DirectPlan {
            target: DialTarget::Domain("example.com".to_string()),
            port: 8443,
            timeout_secs: 3,
            tls_server_name: Some("example.com".to_string()),
            initial_plaintext: vec![1],
        }
    );
}

fn tunnel() -> ProtocolOutbound {
    ProtocolOutbound(Config {
        host: "tunnel.example".to_string(),
        port: 8443,
        key: [1u8; 32],
        tls: true,
    })
}

#[test]
fn the_tunnel_request_carries_the_destination_unchanged() {
    let mut req = request("www.example.com", Some(ip(93, 184, 216, 34)));
    req.initial_plaintext = vec![9u8; 128];
    let out = tunnel().send(req);
    assert_eq!(out.host, "tunnel.example");
    assert_eq!(out.websocket_key.len(), 16);
    assert_eq!(out.request.host, "www.example.com");
    assert_eq!(out.request.port, 443);
    assert!(!out.request.tls);
    assert_eq!(out.request.initial_plaintext, vec![9u8; 128]);
    assert!(matches!(
        out.request.client_send_cipher,
        Configuration::PartialEncrypt { enc_size: 32, .. }
    ));
    assert!(matches!(
        out.request.server_send_cipher,
        Configuration::PartialEncrypt { enc_size: 512, .. }
    ));
    assert!(out.request.timestamp_epoch_seconds > 1_600_000_000);

    let mut plain = request("example.com", None);
    plain.port = 80;
    plain.tls = true;
    let out = tunnel().send(plain);
    assert!(out.request.tls);
    assert!(matches!(out.request.client_send_cipher, Configuration::FullEncrypt { .. }));
    assert!(matches!(out.request.server_send_cipher, Configuration::FullEncrypt { .. }));
}

#[test]
fn the_tunnel_request_is_built_from_what_it_is_given() {
    let client = Configuration::FullEncrypt { key: [1; 32], nonce: [2; 12] };
    let server = Configuration::Plaintext;
    let out = tunnel().build_request(
        OutboundRequest {
            host: OutboundHost::Domain("example.com".to_string()),
            port: 22,
            tls: false,
            initial_plaintext: b"SSH-2.0".to_vec(),
        },
        client,
        server,
        vec![1, 2, 3],
        77,
    );
    assert_eq!(
        out.request,
        protocol::Request {
            host: "example.com".to_string(),
            port: 22,
            tls: false,
            client_send_cipher: client,
            server_send_cipher: server,
            initial_plaintext: b"SSH-2.0".to_vec(),
            timestamp_epoch_seconds: 77,
        }
    );
    assert_eq!(out.websocket_key, vec![1, 2, 3]);
    assert_eq!(out.host, "tunnel.example");
}

#[test]
fn the_servers_answer_starts_the_stream_or_fails_it() {
    assert_eq!(
        ProtocolOutbound::accept(protocol::Response::Success {
            initial_response: b"HTTP/1.1 200 OK".to_vec(),
            timestamp_epoch_seconds: 5,
        }),
        Ok(b"HTTP/1.1 200 OK".to_vec())
    );
    assert_eq!(
        ProtocolOutbound::accept(protocol::Response::Error {
            msg: "connection refused".to_string(),
            timestamp_epoch_seconds: 5,
        }),
        Err("connection refused".to_string())
    );
}

#[test]
fn the_client_writes_under_its_own_cipher_and_reads_under_the_servers() {
    let client = Configuration::FullEncrypt { key: [1; 32], nonce: [2; 12] };
    let server = Configuration::PartialEncrypt { key: [3; 32], nonce: [4; 12], enc_size: 512 };
    let request = protocol::Request {
        host: "example.com".to_string(),
        port: 443,
        tls: false,
        client_send_cipher: client,
        server_send_cipher: server,
        initial_plaintext: vec![],
        timestamp_epoch_seconds: 0,
    };
    let mut stream = ProtocolOutbound::cipher_stream((), &request);
    let written = stream.encrypt_for_write(b"hello").unwrap();
    let mut expected = b"hello".to_vec();
    CipherState::new(&client).apply(&mut expected).unwrap();
    assert_eq!(written, expected);
    let mut read = b"world".to_vec();
    stream.decrypt_read(&mut read).unwrap();
    let mut expected = b"world".to_vec();
    CipherState::new(&server).apply(&mut expected).unwrap();
    assert_eq!(read, expected);
}

#[test]
fn an_upstream_proxy_is_asked_for_a_tunnel() {
    let proxy = HttpProxyOutbound { host: "proxy.lan".to_string(), port: 3128, tls: false };
    let text = proxy.connect_request(&request("example.com", Some(1)));
    assert_eq!(
        String::from_utf8(text).unwrap(),
        "CONNECT example.com:443 HTTP/1.1\r\nHost: proxy.lan:3128\r\n\r\n"
    );
    let ok = match HeadReader::new().accept_response(b"HTTP/1.1 200 Connection Established\r\n\r\n") {
        HeadStep::Done(head, _) => head,
        other => panic!("{other:?}"),
    };
    assert_eq!(HttpProxyOutbound::check_response(&ok), Ok(()));
    let denied = match HeadReader::new().accept_response(b"HTTP/1.1 407 Proxy Authentication Required\r\n\r\n") {
        HeadStep::Done(head, _) => head,
        other => panic!("{other:?}"),
    };
    assert_eq!(HttpProxyOutbound::check_response(&denied), Err(HttpProxyRefusal::NotOk));
}

#[test]
fn each_connection_is_told_of() {
    let reporting = StatReportingOutbound { name: "global".to_string(), inner: () };
    assert_eq!(
        reporting.report("example.com".to_string(), 42, 1_700_000_000_000, None),
        OutboundEvent::Connected {
            host: "example.com".to_string(),
            outbound: "global".to_string(),
            delay_mills: 42,
            request_time_mills: 1_700_000_000_000,
        }
    );
    assert_eq!(
        reporting.report("example.com".to_string(), 7, 9, Some("timed out".to_string())),
        OutboundEvent::Error {
            host: "example.com".to_string(),
            outbound: "global".to_string(),
            delay_mills: 7,
            request_time_mills: 9,
            error: "timed out".to_string(),
        }
    );
}
