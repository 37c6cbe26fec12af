use cpxy_ng::handshaker::Handshaker;
use cpxy_ng::outbound::{OutboundHost, OutboundRequest};
use cpxy_ng::socks_proxy_server::{format_ipv4, format_ipv6, SocksProxyHandshaker};
use cpxy_ng::socks_stream::{
    parse_greeting, parse_request, IpAddress, ProxyRequest, SocksAction, SocksError,
    SocksHandshake, Step,
};

fn request_of(bytes: &[u8]) -> (ProxyRequest, usize) {
    match parse_request(bytes) {
        Step::Complete(request, used) => (request, used),
        Step::Incomplete => panic!("incomplete"),
        Step::Failed(e) => panic!("failed: {e:?}"),
    }
}

fn failure_of(bytes: &[u8]) -> SocksError {
    match parse_request(bytes) {
        Step::Failed(e) => e,
        Step::Incomplete => panic!("incomplete"),
        Step::Complete(r, _) => panic!("complete: {r:?}"),
    }
}

#[test]
fn a_greeting_must_offer_no_authentication() {
    assert!(matches!(parse_greeting(&[]), Step::Incomplete));
    assert!(matches!(parse_greeting(&[5]), Step::Incomplete));
    assert!(matches!(parse_greeting(&[5, 2, 0]), Step::Incomplete));
    assert!(matches!(parse_greeting(&[5, 1, 0]), Step::Complete((), 3)));
    assert!(matches!(parse_greeting(&[5, 2, 2, 0, 9, 9]), Step::Complete((), 4)));
    assert!(matches!(
        parse_greeting(&[5, 2, 1, 2]),
        Step::Failed(SocksError::NoSupportedAuthMethod)
    ));
    assert!(matches!(
        parse_greeting(&[5, 0]),
        Step::Failed(SocksError::NoSupportedAuthMethod)
    ));
    assert!(matches!(
        parse_greeting(&[4, 1, 0]),
        Step::Failed(SocksError::UnsupportedGreetingVersion)
    ));
    assert!(matches!(
        parse_greeting(&[4]),
        Step::Failed(SocksError::UnsupportedGreetingVersion)
    ));
}

#[test]
fn a_request_names_a_domain_or_an_address() {
    let mut domain = vec![5, 1, 0, 3, 9];
    domain.extend_from_slice(b"baidu.com");
    domain.extend_from_slice(&[0x01, 0xbb, 0xff]);
    assert_eq!(
        request_of(&domain),
        (ProxyRequest::WithDomain("baidu.com".to_string(), 443), 16)
    );

    assert_eq!(
        request_of(&[5, 1, 0, 1, 100, 64, 0, 5, 0x1f, 0x90]),
        (ProxyRequest::WithIP(IpAddress::V4([100, 64, 0, 5]), 8080), 10)
    );

    let mut v6 = vec![5, 1, 0, 4];
    v6.extend_from_slice(&[0x20, 0x01, 0x0d, 0xb8, 0, 0, 0, 0, 0, 0, 0, 0, 0, 0, 0, 1]);
    v6.extend_from_slice(&[0, 80]);
    assert_eq!(
        request_of(&v6),
        (
            ProxyRequest::WithIP(
                IpAddress::V6([0x20, 0x01, 0x0d, 0xb8, 0, 0, 0, 0, 0, 0, 0, 0, 0, 0, 0, 1]),
                80
            ),
            22
        )
    );

    assert_eq!(
        request_of(&[5, 1, 0, 3, 0, 0xff, 0xff]),
        (ProxyRequest::WithDomain(String::new(), 65535), 7)
    );
}

#[test]
fn a_request_is_judged_byte_by_byte() {
    let mut whole = vec![5, 1, 0, 3, 3];
    whole.extend_from_slice(b"a.b");
    whole.extend_from_slice(&[0, 7]);
    for cut in 0..whole.len() {
        assert!(matches!(parse_request(&whole[..cut]), Step::Incomplete), "cut {cut}");
    }
    assert!(matches!(parse_request(&whole), Step::Complete(_, 10)));

    assert_eq!(failure_of(&[4]), SocksError::UnsupportedRequestVersion);
    assert_eq!(failure_of(&[5, 2]), SocksError::UnsupportedCommand);
    assert_eq!(failure_of(&[5, 3, 0, 1]), SocksError::UnsupportedCommand);
    assert_eq!(failure_of(&[5, 1, 1]), SocksError::InvalidReservedByte);
    assert_eq!(failure_of(&[5, 1, 0, 0]), SocksError::UnsupportedAddressType(0));
    assert_eq!(failure_of(&[5, 1, 0, 2, 9, 9]), SocksError::UnsupportedAddressType(2));
    assert_eq!(failure_of(&[5, 1, 0, 5]), SocksError::UnsupportedAddressType(5));
    assert_eq!(failure_of(&[5, 1, 0, 3, 2, 0xff, 0xfe]), SocksError::InvalidDomain);
    assert!(matches!(parse_request(&[5, 1, 0, 3, 2, 0xff]), Step::Incomplete));
}

#[test]
fn the_handshake_goes_from_greeting_to_request() {
    let mut handshake = SocksHandshake::new();
    assert!(handshake.can_read_initial_data());
    assert_eq!(handshake.advance(&[5]), SocksAction::ReadMore);
    assert_eq!(handshake.advance(&[1]), SocksAction::ReadMore);
    assert_eq!(handshake.advance(&[0, 5, 1]), SocksAction::Send(vec![5, 0]));
    assert_eq!(handshake.advance(&[]), SocksAction::ReadMore);
    assert_eq!(handshake.advance(&[0, 1, 127, 0, 0]), SocksAction::ReadMore);
    assert_eq!(
        handshake.advance(&[1, 0, 22, b'S', b'S', b'H']),
        SocksAction::Accept(
            ProxyRequest::WithIP(IpAddress::V4([127, 0, 0, 1]), 22),
            b"SSH".to_vec()
        )
    );
    assert_eq!(handshake.advance(&[1, 2, 3]), SocksAction::Finished);
    assert_eq!(
        SocksHandshake::respond_ok(),
        vec![5, 0, 0, 1, 0, 0, 0, 0, 0, 0]
    );
    assert_eq!(SocksHandshake::respond_err("anything"), Vec::<u8>::new());
}

#[test]
fn the_handshake_ends_at_the_first_fault() {
    let mut handshake = SocksHandshake::new();
    assert_eq!(
        handshake.advance(&[5, 1, 2]),
        SocksAction::Reject(SocksError::NoSupportedAuthMethod)
    );
    assert_eq!(handshake.advance(&[5, 1, 0]), SocksAction::Finished);

    let mut handshake = SocksHandshake::new();
    assert_eq!(handshake.advance(&[5, 1, 0]), SocksAction::Send(vec![5, 0]));
    assert_eq!(
        handshake.advance(&[5, 2, 0, 1]),
        SocksAction::Reject(SocksError::UnsupportedCommand)
    );
    assert_eq!(handshake.advance(&[]), SocksAction::Finished);
}

#[test]
fn the_socks_handshaker_answers_in_socks() {
    let handshaker = SocksProxyHandshaker;
    assert!(handshaker.can_read_initial_data());
    assert_eq!(handshaker.respond_ok(), vec![5, 0, 0, 1, 0, 0, 0, 0, 0, 0]);
    assert_eq!(handshaker.respond_err("failed"), Vec::<u8>::new());
}

#[test]
fn addresses_are_written_as_literals() {
    assert_eq!(format_ipv4(&[0, 0, 0, 0]), "0.0.0.0");
    assert_eq!(format_ipv4(&[100, 64, 0, 5]), "100.64.0.5");
    assert_eq!(format_ipv4(&[255, 255, 255, 255]), "255.255.255.255");
    assert_eq!(format_ipv4(&[10, 9, 99, 199]), "10.9.99.199");
    assert_eq!(
        format_ipv6(&[0x20, 0x01, 0x0d, 0xb8, 0, 0, 0, 0, 0, 0, 0xff, 0, 0, 0x42, 0x83, 0x29]),
        "2001:db8:0:0:0:ff00:42:8329"
    );
    assert_eq!(format_ipv6(&[0; 16]), "0:0:0:0:0:0:0:0");
    assert_eq!(
        format_ipv6(&[0xff; 16]),
        "ffff:ffff:ffff:ffff:ffff:ffff:ffff:ffff"
    );
}

#[test]
fn socks_requests_become_connections() {
    assert_eq!(
        ProxyRequest::WithDomain("baidu.com".to_string(), 443).into_outbound_request(),
        OutboundRequest {
            host: OutboundHost::Domain("baidu.com".to_string()),
            port: 443,
            tls: false,
            initial_plaintext: vec![],
        }
    );
    assert_eq!(
        ProxyRequest::WithIP(IpAddress::V4([100, 64, 0, 5]), 80).into_outbound_request(),
        OutboundRequest {
            host: OutboundHost::Domain("100.64.0.5".to_string()),
            port: 80,
            tls: false,
            initial_plaintext: vec![],
        }
    );
    let mut one = [0u8; 16];
    one[15] = 1;
    assert_eq!(
        ProxyRequest::WithIP(IpAddress::V6(one), 53).into_outbound_request().host,
        OutboundHost::Domain("0:0:0:0:0:0:0:1".to_string())
    );
}
