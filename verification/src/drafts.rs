//! New entries for a draft: outbounds, inbounds and certificates with their
//! starting values.

use vstd::prelude::*;
use vstd::string::*;
use crate::ids::{is_uuid_text, new_entry_id};
use crate::display::rule_matches_nothing_yet;
use crate::model::{
    CertificateDraft, CustomOutboundDraft, DnsDraft, Hysteria2Draft, InboundEntryDraft,
    NaiveProxyDraft, NodeConfigDraft, OutboundEntryDraft, ProxyNode, ReverseProxyDraft,
    RoutingRuleDraft, ShadowsocksDraft, Socks5Draft, TProxyDraft, TlsDraft, TrojanDraft,
    TrustTunnelDraft, TrustTunnelOutboundDraft, TunnelDraft, VlessInboundDraft,
    VlessOutboundDraft, WarpRegistrationDraft, WireGuardDraft,
};
use crate::text::copy_str;

verus! {

/// `o` is a fresh built-in outbound: a new id, the given name and kind,
/// enabled, every protocol section carrying the name as its tag and nothing
/// else.
pub open spec fn is_new_builtin(o: OutboundEntryDraft, tag: Seq<char>, kind: Seq<char>) -> bool {
    &&& is_uuid_text(o.id@)
    &&& o.name@ == tag
    &&& o.outbound_type@ == kind
    &&& o.enabled
    &&& o.builtin
    &&& o.vless.tag@ == tag && o.vless.is_default_but_tag()
    &&& o.trust_tunnel.tag@ == tag && o.trust_tunnel.is_default_but_tag()
    &&& o.wireguard.tag@ == tag && o.wireguard.is_default_but_tag()
    &&& o.socks5.tag@ == tag && o.socks5.is_default_but_tag()
    &&& o.shadowsocks.tag@ == tag && o.shadowsocks.is_default_but_tag()
    &&& o.trojan.tag@ == tag && o.trojan.is_default_but_tag()
    &&& o.custom.tag@ == tag && o.custom.is_default_but_tag()
}

/// A built-in outbound (such as `direct` or `block`) of the given kind.
pub fn default_builtin_outbound(tag: &str, outbound_type: &str) -> (r: OutboundEntryDraft)
    ensures
        is_new_builtin(r, tag@, outbound_type@),
{
    let mut vless = VlessOutboundDraft::default();
    vless.tag = copy_str(tag);
    let mut trust_tunnel = TrustTunnelOutboundDraft::default();
    trust_tunnel.tag = copy_str(tag);
    let mut wireguard = WireGuardDraft::default();
    wireguard.tag = copy_str(tag);
    let mut socks5 = Socks5Draft::default();
    socks5.tag = copy_str(tag);
    let mut shadowsocks = ShadowsocksDraft::default();
    shadowsocks.tag = copy_str(tag);
    let mut trojan = TrojanDraft::default();
    trojan.tag = copy_str(tag);
    let mut custom = CustomOutboundDraft::default();
    custom.tag = copy_str(tag);
    OutboundEntryDraft {
        id: new_entry_id(),
        name: copy_str(tag),
        outbound_type: copy_str(outbound_type),
        enabled: true,
        builtin: true,
        vless,
        trust_tunnel,
        wireguard,
        socks5,
        shadowsocks,
        trojan,
        custom,
    }
}


/// A new certificate: a fresh id, named `default`, issued by Let's Encrypt
/// through an ACME HTTP challenge on port 80; everything else empty.
pub fn default_certificate_draft() -> (r: CertificateDraft)
    ensures
        is_uuid_text(r.id@),
        r.name@ == "default"@,
        r.cert_type@ == "ACME"@,
        r.source@ == "PATH"@,
        r.acme_type@ == "HTTP"@,
        r.acme_ca@ == "letsencrypt"@,
        r.acme_port == 80,
        r.acme_http_port == 80,
        r.acme_email@.len() == 0,
        r.acme_domain@.len() == 0,
        r.certificate_pem@.len() == 0,
        r.key_pem@.len() == 0,
{
    let mut c = CertificateDraft::default();
    c.id = new_entry_id();
    c.name = copy_str("default");
    c.cert_type = copy_str("ACME");
    c.source = copy_str("PATH");
    c.acme_type = copy_str("HTTP");
    c.acme_ca = copy_str("letsencrypt");
    c.acme_port = 80;
    c.acme_http_port = 80;
    c
}

/// A new inbound: a fresh id, named `main`, enabled VLESS on 0.0.0.0:443
/// without security and with no core chosen yet, and the starting values of
/// every protocol section.
pub fn default_inbound_entry() -> (r: InboundEntryDraft)
    ensures
        is_uuid_text(r.id@),
        r.name@ == "main"@,
        r.groups@.len() == 0,
        r.listen@ == "0.0.0.0"@,
        r.port == 443,
        r.enabled,
        r.core_type@.len() == 0,
        r.protocol@ == "VLESS"@,
        r.tls.is_default(),
        r.vless.security@ == "NONE"@,
        r.vless.reality_utls@ == "chrome"@,
        r.vless.reality_spider_x@ == "/"@,
        r.vless.transmission@.len() == 0,
        r.vless.flow@.len() == 0,
        r.vless.reality_dest@.len() == 0,
        r.vless.reality_private_key@.len() == 0,
        r.vless.reality_public_key@.len() == 0,
        r.vless.reality_short_ids@.len() == 0,
        r.vless.reality_sni@.len() == 0,
        r.hysteria2.up_mbps == 100,
        r.hysteria2.down_mbps == 100,
        r.hysteria2.password@.len() == 0,
        r.hysteria2.obfs_type@.len() == 0,
        r.hysteria2.obfs_password@.len() == 0,
        !r.hysteria2.ignore_client_bandwidth,
        r.hysteria2.masquerade@.len() == 0,
        r.hysteria2.bbr_profile@.len() == 0,
        !r.hysteria2.brutal_debug,
        r.trust_tunnel.is_default(),
        r.naive_proxy.is_default(),
        r.wireguard.mtu == 1420,
        r.wireguard.addresses@ == "10.0.0.1/32, fd59:7153:2388:b5fd::1/128"@,
        r.wireguard.tag@.len() == 0,
        r.wireguard.private_key@.len() == 0,
        r.wireguard.workers == 0,
        r.wireguard.peers@.len() == 0,
        r.wireguard.reserved@.len() == 0,
        r.wireguard.domain_strategy@.len() == 0,
        r.wireguard.warp_id@.len() == 0,
        r.wireguard.warp_token@.len() == 0,
        r.socks5.port == 1080,
        r.socks5.is_default_but_port(),
        r.shadowsocks.port == 8388,
        r.shadowsocks.method@ == "2022-blake3-aes-128-gcm"@,
        r.shadowsocks.udp_enabled,
        r.shadowsocks.tag@.len() == 0,
        r.shadowsocks.server@.len() == 0,
        r.shadowsocks.password@.len() == 0,
        r.shadowsocks.plugin@.len() == 0,
        r.shadowsocks.plugin_opts@.len() == 0,
        r.shadowsocks.prefix@.len() == 0,
        r.reverse_proxy.enabled,
        r.reverse_proxy.mode@ == "portal"@,
        r.reverse_proxy.tag@ == "portal"@,
        r.reverse_proxy.target_outbound_tag@ == "direct"@,
        r.reverse_proxy.domain@.len() == 0,
        r.reverse_proxy.bridge_outbound_tag@.len() == 0,
        r.reverse_proxy.portal_inbound_tag@.len() == 0,
        r.tunnel.allowed_network@ == "tcp"@,
        r.tproxy.network@ == "tcp,udp"@,
        r.tproxy.sniffing_enabled,
        r.tproxy.sniffing_dest_override@ == "http, tls, quic"@,
        !r.tproxy.sniffing_route_only,
        r.tproxy.socket_mark == 0,
        r.trojan.is_default(),
{
    let mut vless = VlessInboundDraft::default();
    vless.security = copy_str("NONE");
    vless.reality_utls = copy_str("chrome");
    vless.reality_spider_x = copy_str("/");
    let mut hysteria2 = Hysteria2Draft::default();
    hysteria2.up_mbps = 100;
    hysteria2.down_mbps = 100;
    let mut wireguard = WireGuardDraft::default();
    wireguard.mtu = 1420;
    wireguard.addresses = copy_str("10.0.0.1/32, fd59:7153:2388:b5fd::1/128");
    let mut socks5 = Socks5Draft::default();
    socks5.port = 1080;
    let mut shadowsocks = ShadowsocksDraft::default();
    shadowsocks.port = 8388;
    shadowsocks.method = copy_str("2022-blake3-aes-128-gcm");
    shadowsocks.udp_enabled = true;
    let mut reverse_proxy = ReverseProxyDraft::default();
    reverse_proxy.enabled = true;
    reverse_proxy.mode = copy_str("portal");
    reverse_proxy.tag = copy_str("portal");
    reverse_proxy.target_outbound_tag = copy_str("direct");
    let mut tproxy = TProxyDraft::default();
    tproxy.network = copy_str("tcp,udp");
    tproxy.sniffing_enabled = true;
    tproxy.sniffing_dest_override = copy_str("http, tls, quic");
    InboundEntryDraft {
        id: new_entry_id(),
        name: copy_str("main"),
        groups: Vec::new(),
        listen: copy_str("0.0.0.0"),
        port: 443,
        enabled: true,
        core_type: String::new(),
        protocol: copy_str("VLESS"),
        tls: TlsDraft::default(),
        vless,
        hysteria2,
        trust_tunnel: TrustTunnelDraft::default(),
        naive_proxy: NaiveProxyDraft::default(),
        wireguard,
        socks5,
        shadowsocks,
        reverse_proxy,
        tunnel: TunnelDraft { allowed_network: copy_str("tcp") },
        tproxy,
        trojan: TrojanDraft::default(),
    }
}

/// The parts every new user-made outbound shares: a fresh id, the name and
/// kind, enabled, not built in.
pub open spec fn is_new_outbound(o: OutboundEntryDraft, name: Seq<char>, kind: Seq<char>) -> bool {
    &&& is_uuid_text(o.id@)
    &&& o.name@ == name
    &&& o.outbound_type@ == kind
    &&& o.enabled
    &&& !o.builtin
}

/// A new VLESS outbound: named and tagged `VLESS`, without security; every
/// other section at its default.
pub fn default_vless_outbound() -> (r: OutboundEntryDraft)
    ensures
        is_new_outbound(r, "VLESS"@, "VLESS"@),
        r.vless.tag@ == "VLESS"@,
        r.vless.security@ == "NONE"@,
        r.vless.server@.len() == 0,
        r.vless.port == 0,
        r.vless.uuid@.len() == 0,
        r.vless.flow@.len() == 0,
        r.vless.transmission@.len() == 0,
        r.vless.tls_server_name@.len() == 0,
        r.vless.reality_sni@.len() == 0,
        r.vless.reality_public_key@.len() == 0,
        r.vless.reality_short_ids@.len() == 0,
        r.vless.reality_utls@.len() == 0,
        r.vless.reality_spider_x@.len() == 0,
        r.trust_tunnel.is_default(),
        r.wireguard.is_default(),
        r.socks5.is_default(),
        r.shadowsocks.is_default(),
        r.trojan.is_default(),
        r.custom.is_default(),
{
    let mut vless = VlessOutboundDraft::default();
    vless.tag = copy_str("VLESS");
    vless.security = copy_str("NONE");
    OutboundEntryDraft {
        id: new_entry_id(),
        name: copy_str("VLESS"),
        outbound_type: copy_str("VLESS"),
        enabled: true,
        builtin: false,
        vless,
        trust_tunnel: TrustTunnelOutboundDraft::default(),
        wireguard: WireGuardDraft::default(),
        socks5: Socks5Draft::default(),
        shadowsocks: ShadowsocksDraft::default(),
        trojan: TrojanDraft::default(),
        custom: CustomOutboundDraft::default(),
    }
}

/// A new WARP outbound: a WireGuard outbound named `WARP`, tagged `warp`,
/// with an MTU of 1420; every other section at its default.
pub fn default_warp_outbound() -> (r: OutboundEntryDraft)
    ensures
        is_new_outbound(r, "WARP"@, "WIREGUARD"@),
        r.wireguard.tag@ == "warp"@,
        r.wireguard.mtu == 1420,
        r.wireguard.private_key@.len() == 0,
        r.wireguard.workers == 0,
        r.wireguard.addresses@.len() == 0,
        r.wireguard.peers@.len() == 0,
        r.wireguard.reserved@.len() == 0,
        r.wireguard.domain_strategy@.len() == 0,
        r.wireguard.warp_id@.len() == 0,
        r.wireguard.warp_token@.len() == 0,
        r.vless.is_default(),
        r.trust_tunnel.is_default(),
        r.socks5.is_default(),
        r.shadowsocks.is_default(),
        r.trojan.is_default(),
        r.custom.is_default(),
{
    let mut wireguard = WireGuardDraft::default();
    wireguard.tag = copy_str("warp");
    wireguard.mtu = 1420;
    OutboundEntryDraft {
        id: new_entry_id(),
        name: copy_str("WARP"),
        outbound_type: copy_str("WIREGUARD"),
        enabled: true,
        builtin: false,
        vless: VlessOutboundDraft::default(),
        trust_tunnel: TrustTunnelOutboundDraft::default(),
        wireguard,
        socks5: Socks5Draft::default(),
        shadowsocks: ShadowsocksDraft::default(),
        trojan: TrojanDraft::default(),
        custom: CustomOutboundDraft::default(),
    }
}

/// A new Shadowsocks outbound: named `Shadowsocks`, tagged `proxy-ss`, on
/// port 8388 with the 2022-blake3-aes-128-gcm method and UDP; every other
/// section at its default.
pub fn default_shadowsocks_outbound() -> (r: OutboundEntryDraft)
    ensures
        is_new_outbound(r, "Shadowsocks"@, "SHADOWSOCKS"@),
        r.shadowsocks.tag@ == "proxy-ss"@,
        r.shadowsocks.port == 8388,
        r.shadowsocks.method@ == "2022-blake3-aes-128-gcm"@,
        r.shadowsocks.udp_enabled,
        r.shadowsocks.server@.len() == 0,
        r.shadowsocks.password@.len() == 0,
        r.shadowsocks.plugin@.len() == 0,
        r.shadowsocks.plugin_opts@.len() == 0,
        r.shadowsocks.prefix@.len() == 0,
        r.vless.is_default(),
        r.trust_tunnel.is_default(),
        r.wireguard.is_default(),
        r.socks5.is_default(),
        r.trojan.is_default(),
        r.custom.is_default(),
{
    let mut shadowsocks = ShadowsocksDraft::default();
    shadowsocks.tag = copy_str("proxy-ss");
    shadowsocks.port = 8388;
    shadowsocks.method = copy_str("2022-blake3-aes-128-gcm");
    shadowsocks.udp_enabled = true;
    OutboundEntryDraft {
        id: new_entry_id(),
        name: copy_str("Shadowsocks"),
        outbound_type: copy_str("SHADOWSOCKS"),
        enabled: true,
        builtin: false,
        vless: VlessOutboundDraft::default(),
        trust_tunnel: TrustTunnelOutboundDraft::default(),
        wireguard: WireGuardDraft::default(),
        socks5: Socks5Draft::default(),
        shadowsocks,
        trojan: TrojanDraft::default(),
        custom: CustomOutboundDraft::default(),
    }
}

/// `r` is the draft of a node that has none yet: built-in `direct` and
/// `block` outbounds, one disabled rule sending to `direct` that matches
/// nothing yet, the master key `key` and the link remark template
/// `template`; no inbounds, reverse proxies or certificates, and default DNS
/// and WARP settings.
pub open spec fn is_starting_draft(r: NodeConfigDraft, key: String, template: Seq<char>) -> bool {
    &&& r.reverse_proxies@.len() == 0
    &&& r.outbounds@.len() == 2
    &&& is_new_builtin(r.outbounds@[0], "direct"@, "DIRECT"@)
    &&& is_new_builtin(r.outbounds@[1], "block"@, "BLOCK"@)
    &&& r.certificates@.len() == 0
    &&& r.inbounds@.len() == 0
    &&& r.master_key == key
    &&& r.routing_rules@.len() == 1
    &&& r.routing_rules@[0].outbound_tag@ == "direct"@
    &&& !r.routing_rules@[0].enabled
    &&& rule_matches_nothing_yet(r.routing_rules@[0])
    &&& r.dns.is_default()
    &&& r.link_remark_template@ == template
    &&& r.warp_registration.is_default()
}

/// The draft of a node that has none yet (see `is_starting_draft`).
pub fn default_node_draft(node: &ProxyNode, link_remark_template: &str) -> (r: NodeConfigDraft)
    ensures
        is_starting_draft(r, node.master_key, link_remark_template@),
{
    let mut outbounds: Vec<OutboundEntryDraft> = Vec::new();
    outbounds.push(default_builtin_outbound("direct", "DIRECT"));
    outbounds.push(default_builtin_outbound("block", "BLOCK"));
    let mut rule = RoutingRuleDraft::default();
    rule.outbound_tag = copy_str("direct");
    let mut rules: Vec<RoutingRuleDraft> = Vec::new();
    rules.push(rule);
    NodeConfigDraft {
        reverse_proxies: Vec::new(),
        outbounds,
        certificates: Vec::new(),
        inbounds: Vec::new(),
        master_key: node.master_key.clone(),
        routing_rules: rules,
        dns: DnsDraft::default(),
        link_remark_template: copy_str(link_remark_template),
        warp_registration: WarpRegistrationDraft::default(),
    }
}

} // verus!
