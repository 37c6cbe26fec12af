//! The routing tree of a client in China: which egress a request takes.

use vstd::prelude::*;
use vstd::string::StringSliceAdditionalSpecFns;
use vstd::utf8::{decode_utf8_encode_utf8, encode_utf8, encode_utf8_decode_utf8, encode_utf8_valid_utf8, valid_utf8};
use crate::geoip::{find_country_code_v4, holds, is_table, spec_find, GeoIpError, GeoIpTable};
use crate::outbound::either::EitherOutbound;
use crate::outbound::ip_divert::IPDivertOutbound;
use crate::outbound::site_divert::SiteDivertOutbound;
use crate::outbound::{IpRule, OutboundRequest, SiteRule};
use crate::text::{bytes_eq, ends_with, ends_with_ignore_ascii_case, to_ascii_lower};

verus! {

/// Whether an address lies in `100.0.0.0/8`.
pub open spec fn is_tailscale(ip: u32) -> bool {
    0x6400_0000 <= ip <= 0x64ff_ffff
}

/// Whether an address lies in `10.0.0.0/8`, `172.16.0.0/12` or `192.168.0.0/16`.
pub open spec fn is_private(ip: u32) -> bool {
    (0x0a00_0000 <= ip <= 0x0aff_ffff) || (0xac10_0000 <= ip <= 0xac1f_ffff) || (0xc0a8_0000 <= ip
        <= 0xc0a8_ffff)
}

/// Whether an address lies in `127.0.0.0/8`.
pub open spec fn is_loopback(ip: u32) -> bool {
    0x7f00_0000 <= ip <= 0x7fff_ffff
}

/// Whether an address lies in `169.254.0.0/16`.
pub open spec fn is_link_local(ip: u32) -> bool {
    0xa9fe_0000 <= ip <= 0xa9fe_ffff
}

/// Whether a lookup in a GeoIP table answers `CN`.
pub open spec fn answers_cn(found: Result<Option<String>, GeoIpError>) -> bool {
    found matches Ok(Some(code)) && code@ == "CN"@
}

/// The domains of AI services, by number.
pub open spec fn ai_domain_suffix(i: int) -> Seq<u8> {
    if i == 0 {
        "anthropic.com".spec_bytes()
    } else if i == 1 {
        "openai.com".spec_bytes()
    } else if i == 2 {
        "chatgpt.com".spec_bytes()
    } else if i == 3 {
        "googleapis.com".spec_bytes()
    } else if i == 4 {
        "google.com".spec_bytes()
    } else if i == 5 {
        "googleusercontent.com".spec_bytes()
    } else {
        "gstatic.com".spec_bytes()
    }
}

/// How many AI domains there are.
pub const AI_DOMAIN_COUNT: usize = 7;

/// Whether a host name, read in lower case, ends with an AI domain.
pub open spec fn is_ai_site(host: Seq<u8>) -> bool {
    exists|i: int| 0 <= i < AI_DOMAIN_COUNT && ends_with(to_ascii_lower(host), to_ascii_lower(#[trigger] ai_domain_suffix(i)))
}

fn ai_domain(i: usize) -> (suffix: &'static str)
    requires
        i < AI_DOMAIN_COUNT,
    ensures
        suffix.spec_bytes() == ai_domain_suffix(i as int),
{
    if i == 0 {
        "anthropic.com"
    } else if i == 1 {
        "openai.com"
    } else if i == 2 {
        "chatgpt.com"
    } else if i == 3 {
        "googleapis.com"
    } else if i == 4 {
        "google.com"
    } else if i == 5 {
        "googleusercontent.com"
    } else {
        "gstatic.com"
    }
}

/// Whether requests to `domain` go to the egress for AI services.
pub fn site_should_route_ai(domain: &str) -> (yes: bool)
    ensures
        yes == is_ai_site(domain.spec_bytes()),
{
    let host = domain.as_bytes();
    let mut i: usize = 0;
    while i < AI_DOMAIN_COUNT
        invariant
            0 <= i <= AI_DOMAIN_COUNT,
            host@ == domain.spec_bytes(),
            forall|j: int| 0 <= j < i ==> !ends_with(to_ascii_lower(host@), to_ascii_lower(#[trigger] ai_domain_suffix(j))),
        decreases AI_DOMAIN_COUNT - i,
    {
        if ends_with_ignore_ascii_case(host, ai_domain(i).as_bytes()) {
            return true;
        }
        i += 1;
    }
    false
}

/// Whether an address belongs to the Tailscale network. No address, no.
pub fn ip_should_route_tailscale(ip: Option<u32>) -> (yes: bool)
    ensures
        yes == (ip matches Some(a) && is_tailscale(a)),
{
    match ip {
        Some(a) => 0x6400_0000 <= a && a <= 0x64ff_ffff,
        None => false,
    }
}

/// Whether `table` places an address in China.
pub open spec fn in_cn(table: Seq<u8>, ip: u32) -> bool {
    spec_find(table, ip) == Some("CN".spec_bytes())
}

/// Whether an address is reached directly: a private, loopback or
/// link-local address, or one in China. An unknown address is not.
pub open spec fn spec_should_route_direct(ip: Option<u32>, table: Seq<u8>) -> bool {
    match ip {
        Some(a) => is_private(a) || is_loopback(a) || is_link_local(a) || in_cn(table, a),
        None => false,
    }
}

/// Whether `table` places an address in China.
pub fn is_cn_address(ip: u32, table: &[u8]) -> (yes: bool)
    ensures
        is_table(table@) ==> yes == in_cn(table@, ip),
        yes ==> exists|k: int| holds(table@, k, ip),
{
    proof {
        encode_utf8_valid_utf8("CN"@);
        encode_utf8_decode_utf8("CN"@);
        match spec_find(table@, ip) {
            Some(raw) => {
                if valid_utf8(raw) {
                    decode_utf8_encode_utf8(raw);
                }
            },
            None => {},
        }
    }
    is_cn_code(find_country_code_v4(ip, table))
}

/// Whether an address is reached directly: a private, loopback or
/// link-local address, or one that `table` places in China. An unknown
/// address is not.
pub fn ip_should_route_direct(ip: Option<u32>, table: &[u8]) -> (yes: bool)
    ensures
        is_table(table@) ==> yes == spec_should_route_direct(ip, table@),
        ip is None ==> !yes,
        ip matches Some(a) && (is_private(a) || is_loopback(a) || is_link_local(a)) ==> yes,
{
    match ip {
        Some(a) => {
            if (0x0a00_0000 <= a && a <= 0x0aff_ffff) || (0xac10_0000 <= a && a <= 0xac1f_ffff) || (
            0xc0a8_0000 <= a && a <= 0xc0a8_ffff) {
                true
            } else if 0x7f00_0000 <= a && a <= 0x7fff_ffff {
                true
            } else if 0xa9fe_0000 <= a && a <= 0xa9fe_ffff {
                true
            } else {
                is_cn_address(a, table)
            }
        },
        None => false,
    }
}

/// The rule that holds of addresses in the Tailscale network.
pub struct TailscaleRule;

impl IpRule for TailscaleRule {
    open spec fn holds(&self, ip: Option<u32>) -> bool {
        ip matches Some(a) && is_tailscale(a)
    }

    fn test(&self, ip: Option<u32>) -> (yes: bool) {
        ip_should_route_tailscale(ip)
    }
}

/// The rule that holds of the host names of AI services.
pub struct AiSiteRule;

impl SiteRule for AiSiteRule {
    open spec fn holds(&self, host: Seq<char>) -> bool {
        is_ai_site(encode_utf8(host))
    }

    fn test(&self, host: &str) -> (yes: bool) {
        site_should_route_ai(host)
    }
}

/// The rule that holds of addresses to reach directly, with the GeoIP table
/// that it looks addresses up in.
pub struct DirectRule {
    pub table: GeoIpTable,
}

impl DirectRule {
    /// The table that addresses are looked up in.
    pub open spec fn table(&self) -> Seq<u8> {
        self.table.data()
    }

    /// A rule over `table`, if `table` is one: whole records that start
    /// at ever greater addresses.
    pub fn new(table: Vec<u8>) -> (rule: Option<DirectRule>)
        ensures
            rule is Some <==> is_table(table@),
            rule matches Some(r) ==> r.table() == table@,
    {
        match GeoIpTable::new(table) {
            Some(table) => Some(DirectRule { table }),
            None => None,
        }
    }
}

impl IpRule for DirectRule {
    open spec fn holds(&self, ip: Option<u32>) -> bool {
        spec_should_route_direct(ip, self.table())
    }

    fn test(&self, ip: Option<u32>) -> (yes: bool) {
        ip_should_route_direct(ip, self.table.as_bytes())
    }
}

/// The tree of a client in China. From the top: Tailscale addresses go to
/// the Tailscale egress; then AI sites go to the AI egress; then addresses
/// to reach directly go out directly; all else goes through the tunnel.
pub type CnTree<T, A, D, G> = IPDivertOutbound<
    T,
    SiteDivertOutbound<A, IPDivertOutbound<D, G, DirectRule>, AiSiteRule>,
    TailscaleRule,
>;

/// The leaf of the tree that a request ends at.
#[derive(Debug, PartialEq, Eq)]
pub enum CnRoute<T, A, D, G> {
    Tailscale(T),
    Ai(A),
    Direct(D),
    Global(G),
}

/// The kinds of leaves.
pub enum RouteKind {
    Tailscale,
    Ai,
    Direct,
    Global,
}

/// The leaf that a request with host name `host` and address `ip` ends at,
/// given which egresses the tree has.
pub open spec fn spec_cn_route(
    host: Seq<char>,
    ip: Option<u32>,
    has_tailscale: bool,
    has_ai: bool,
    has_direct: bool,
    table: Seq<u8>,
) -> RouteKind {
    if has_tailscale && (ip matches Some(a) && is_tailscale(a)) {
        RouteKind::Tailscale
    } else if has_ai && is_ai_site(encode_utf8(host)) {
        RouteKind::Ai
    } else if has_direct && spec_should_route_direct(ip, table) {
        RouteKind::Direct
    } else {
        RouteKind::Global
    }
}

/// Builds the tree from its egresses: the tunnel, the egresses for AI
/// services and for Tailscale where there are any, and the direct egress
/// with its rule.
pub fn cn_outbound<T, A, D, G>(
    main_server: G,
    ai_server: Option<A>,
    tailscale_server: Option<T>,
    direct: D,
    direct_rule: DirectRule,
) -> (tree: CnTree<T, A, D, G>)
    ensures
        tree.outbound_a == tailscale_server,
        tree.outbound_b.outbound_a == ai_server,
        tree.outbound_b.outbound_b.outbound_a == Some(direct),
        tree.outbound_b.outbound_b.outbound_b == main_server,
        tree.outbound_b.outbound_b.should_use_a == direct_rule,
{
    IPDivertOutbound {
        outbound_a: tailscale_server,
        outbound_b: SiteDivertOutbound {
            outbound_a: ai_server,
            outbound_b: IPDivertOutbound {
                outbound_a: Some(direct),
                outbound_b: main_server,
                should_use_a: direct_rule,
            },
            should_use_a: AiSiteRule,
        },
        should_use_a: TailscaleRule,
    }
}

/// Walks the tree with `req` down to a leaf.
pub fn cn_select<'a, T, A, D, G>(tree: &'a CnTree<T, A, D, G>, req: &OutboundRequest) -> (route: CnRoute<
    &'a T,
    &'a A,
    &'a D,
    &'a G,
>)
    ensures
        match spec_cn_route(
            req@.host.host(),
            req@.host.ip(),
            tree.outbound_a is Some,
            tree.outbound_b.outbound_a is Some,
            tree.outbound_b.outbound_b.outbound_a is Some,
            tree.outbound_b.outbound_b.should_use_a.table(),
        ) {
            RouteKind::Tailscale => route matches CnRoute::Tailscale(t) && tree.outbound_a == Some(*t),
            RouteKind::Ai => route matches CnRoute::Ai(a) && tree.outbound_b.outbound_a == Some(*a),
            RouteKind::Direct => route matches CnRoute::Direct(d)
                && tree.outbound_b.outbound_b.outbound_a == Some(*d),
            RouteKind::Global => route matches CnRoute::Global(g)
                && tree.outbound_b.outbound_b.outbound_b == *g,
        },
{
    match tree.select(req) {
        EitherOutbound::Left(t) => CnRoute::Tailscale(t),
        EitherOutbound::Right(rest) => match rest.select(req) {
            EitherOutbound::Left(a) => CnRoute::Ai(a),
            EitherOutbound::Right(rest) => match rest.select(req) {
                EitherOutbound::Left(d) => CnRoute::Direct(d),
                EitherOutbound::Right(g) => CnRoute::Global(g),
            },
        },
    }
}

/// Whether a lookup has answered `CN`.
fn is_cn_code(found: Result<Option<String>, GeoIpError>) -> (yes: bool)
    ensures
        yes == answers_cn(found),
{
    match found {
        Ok(Some(code)) => {
            proof {
                encode_utf8_decode_utf8(code@);
                encode_utf8_decode_utf8("CN"@);
            }
            bytes_eq(code.as_str().as_bytes(), "CN".as_bytes())
        },
        _ => false,
    }
}

} // verus!
