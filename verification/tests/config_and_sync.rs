use node_config::config::{CertificateKind, InboundProtocol, OutboundKind, OutboundSettings};
use node_config::config_build::{build_full_config, node_accounts};
use node_config::drafts::{
    default_builtin_outbound, default_certificate_draft, default_inbound_entry,
    default_node_draft, default_shadowsocks_outbound, default_vless_outbound,
    default_warp_outbound,
};
use node_config::model::{
    AccountInfo, CertificateDraft, InboundEntryDraft, NodeConfigDraft, ProxyNode,
    ReverseProxyDraft, RoutingRuleDraft, WireGuardPeerItem,
};
use node_config::protocols::{CoreType, SecurityMode};
use node_config::sync::sync_draft;

fn strings(v: &[&str]) -> Vec<String> {
    v.iter().map(|s| s.to_string()).collect()
}

fn account(id: &str, groups: &[&str]) -> AccountInfo {
    AccountInfo {
        id: id.to_string(),
        name: format!("name-{}", id),
        token: format!("token-{}", id),
        groups: strings(groups),
        allowed_ips: strings(&["10.0.0.0/8"]),
        creation_date: 7,
        expiry_date: 42,
    }
}

fn node() -> ProxyNode {
    ProxyNode {
        id: "n1".to_string(),
        name: "node".to_string(),
        address: "node.example".to_string(),
        public_ip: "203.0.113.7".to_string(),
        groups: strings(&[" g1 ", "g3"]),
        master_key: "node-key".to_string(),
    }
}

fn rule(tag: &str) -> RoutingRuleDraft {
    let mut r = RoutingRuleDraft::default();
    r.enabled = true;
    r.domain = "a.com, b.com".to_string();
    r.outbound_tag = tag.to_string();
    r
}

fn sample_draft() -> NodeConfigDraft {
    let mut draft = NodeConfigDraft::default();
    draft.master_key = "draft-key".to_string();
    draft.link_remark_template = "{node}".to_string();

    let mut vless_in = default_inbound_entry();
    vless_in.core_type = "XRAY".to_string();
    vless_in.vless.security = "TLS".to_string();
    vless_in.vless.reality_short_ids = "AB12, bad".to_string();
    vless_in.tls.certificate_name = "cert-a".to_string();
    let mut hy_in = default_inbound_entry();
    hy_in.name = String::new();
    hy_in.core_type = "sing_box".to_string();
    hy_in.protocol = "hysteria2".to_string();
    hy_in.port = 0;
    hy_in.tls.server_name = "hy.example".to_string();
    let mut rp_in = default_inbound_entry();
    rp_in.protocol = "ReverseProxy".to_string();
    rp_in.name = "old-rp".to_string();
    rp_in.reverse_proxy.tag = String::new();
    draft.inbounds = vec![vless_in, hy_in, rp_in];

    let mut acme = default_certificate_draft();
    acme.name = "cert-a".to_string();
    acme.cert_type = "acme".to_string();
    acme.acme_domain = "a.example".to_string();
    let mut custom = CertificateDraft::default();
    custom.name = "custom".to_string();
    custom.cert_type = "FILE".to_string();
    custom.certificate_pem = "PEM".to_string();
    custom.key_pem = "KEY".to_string();
    draft.certificates = vec![acme, custom];

    let direct = default_builtin_outbound("direct", "DIRECT");
    let mut block = default_builtin_outbound("block", "BLOCK");
    block.enabled = false;
    let mut off = default_vless_outbound();
    off.name = "off".to_string();
    off.enabled = false;
    let mut warp = default_warp_outbound();
    warp.wireguard.peers = vec![
        WireGuardPeerItem {
            public_key: "PK".to_string(),
            endpoint: "e:1".to_string(),
            allowed_ips: String::new(),
        },
        WireGuardPeerItem {
            public_key: " ".to_string(),
            endpoint: "e:2".to_string(),
            allowed_ips: "1.1.1.1/32".to_string(),
        },
    ];
    warp.wireguard.reserved = "1, x, 300".to_string();
    let mut proxy = default_vless_outbound();
    proxy.name = "proxy".to_string();
    proxy.vless.server = "s.example".to_string();
    proxy.vless.port = 443;
    let ss = default_shadowsocks_outbound();
    draft.outbounds = vec![direct, block, off, warp, proxy, ss];

    draft.routing_rules = vec![rule("direct"), rule("missing"), rule(" "), rule("proxy")];

    let mut rp_on = ReverseProxyDraft::default();
    rp_on.enabled = true;
    rp_on.tag = " rp1 ".to_string();
    rp_on.mode = "BRIDGE".to_string();
    let mut rp_off = ReverseProxyDraft::default();
    rp_off.tag = "rp2".to_string();
    draft.reverse_proxies = vec![rp_on, rp_off];
    draft
}

#[test]
fn accounts_of_the_node_share_a_group() {
    let accounts = vec![
        account("a1", &[" g1 "]),
        account("a2", &["g2"]),
        account("a3", &["g2", "g3", "g3"]),
        account("a4", &[]),
    ];
    let served = node_accounts(&accounts, &node());
    let ids: Vec<&str> = served.iter().map(|a| a.id.as_str()).collect();
    assert_eq!(ids, vec!["a1", "a3"]);
    assert_eq!(served[0].groups, strings(&["g1"]));
    assert_eq!(served[1].groups, strings(&["g2", "g3"]));
    assert_eq!(served[1].token, "token-a3");
    assert_eq!(served[1].expiry_time, 42);
}

#[test]
fn full_config_of_a_sample_draft() {
    let draft = sample_draft();
    let accounts = vec![account("a1", &["g1"]), account("a2", &["g2"])];
    let c = build_full_config(&draft, &node(), &accounts);

    assert_eq!(c.master_key, "draft-key");
    assert_eq!(c.link_remark_template, "{node}");
    assert_eq!(c.accounts.len(), 1);
    assert_eq!(c.accounts[0].id, "a1");
    assert!(c.dns.is_none());

    // two kept inbounds, then the reverse proxies: the enabled one of the
    // draft and the one migrated from the reverse-proxy inbound
    assert_eq!(c.inbounds.len(), 4);
    let v = &c.inbounds[0];
    assert_eq!(v.name, "main");
    assert_eq!(v.core, CoreType::Xray);
    assert_eq!(v.accounts.len(), 1);
    match v.protocol.as_ref().unwrap() {
        InboundProtocol::Vless(x) => {
            assert_eq!(x.uuid, "");
            assert_eq!(x.security, SecurityMode::Tls);
            let tls = x.tls.as_ref().unwrap();
            assert!(tls.enabled);
            assert_eq!(tls.server_name, "a.example");
            assert_eq!(tls.certificate_name, "cert-a");
            assert_eq!(x.reality.as_ref().unwrap().short_id, strings(&["ab12"]));
        }
        other => panic!("unexpected protocol {:?}", other),
    }
    let h = &c.inbounds[1];
    assert_eq!(h.name, "inbound-2");
    assert_eq!(h.port, 443);
    assert_eq!(h.core, CoreType::SingBox);
    match h.protocol.as_ref().unwrap() {
        InboundProtocol::Hysteria2(x) => {
            assert_eq!(x.up_mbps, 100);
            let tls = x.tls.as_ref().unwrap();
            assert!(tls.enabled);
            assert_eq!(tls.server_name, "hy.example");
        }
        other => panic!("unexpected protocol {:?}", other),
    }
    let rp = &c.inbounds[2];
    assert_eq!(rp.name, "rp1");
    assert_eq!(rp.core, CoreType::Xray);
    assert_eq!(rp.port, 0);
    assert!(rp.accounts.is_empty());
    match rp.protocol.as_ref().unwrap() {
        InboundProtocol::Reverseproxy(x) => {
            assert_eq!(x.mode, "bridge");
            assert_eq!(x.target_outbound_tag, "direct");
        }
        other => panic!("unexpected protocol {:?}", other),
    }
    assert_eq!(c.inbounds[3].name, "old-rp");

    let tags: Vec<&str> = c.outbounds.iter().map(|o| o.tag.as_str()).collect();
    assert_eq!(tags, vec!["direct", "block", "WARP", "proxy", "proxy-ss"]);
    assert_eq!(c.outbounds[1].kind, OutboundKind::Block);
    match c.outbounds[2].settings.as_ref().unwrap() {
        OutboundSettings::Wireguard(w) => {
            assert_eq!(w.peers.len(), 1);
            assert_eq!(w.peers[0].public_key, "PK");
            assert_eq!(w.peers[0].allowed_ips, strings(&["0.0.0.0/0", "::/0"]));
            assert_eq!(w.reserved, vec![1, 300]);
            assert_eq!(w.domain_strategy, "ForceIP");
        }
        other => panic!("unexpected settings {:?}", other),
    }
    match c.outbounds[3].settings.as_ref().unwrap() {
        OutboundSettings::Vless(x) => {
            assert_eq!(x.server, "s.example");
            assert_eq!(x.uuid.len(), 36);
            assert_eq!(x.security, SecurityMode::Plain);
            assert_eq!(x.transmission, "TCP");
        }
        other => panic!("unexpected settings {:?}", other),
    }

    let targets: Vec<&str> = c.routing_rules.iter().map(|r| r.outbound_tag.as_str()).collect();
    assert_eq!(targets, vec!["direct", "block", "direct", "proxy"]);
    assert_eq!(c.routing_rules[0].domain, strings(&["a.com", "b.com"]));
    for r in &c.routing_rules {
        assert!(r.outbound_tag == "block" || c.outbounds.iter().any(|o| o.tag == r.outbound_tag));
    }
    for i in 0..2 {
        assert_eq!(c.inbounds[i].accounts, c.accounts);
    }

    assert_eq!(c.certificates.len(), 2);
    match c.certificates[0].kind.as_ref().unwrap() {
        CertificateKind::Acme(a) => {
            assert_eq!(a.acme_domain, "a.example");
            assert_eq!(a.acme_port, 80);
        }
        other => panic!("unexpected kind {:?}", other),
    }
    match c.certificates[1].kind.as_ref().unwrap() {
        CertificateKind::Custom(x) => {
            assert_eq!(x.certificate_pem, "PEM");
            assert_eq!(x.key_pem, "KEY");
        }
        other => panic!("unexpected kind {:?}", other),
    }
}

#[test]
fn sync_puts_a_draft_in_canonical_form() {
    let mut draft = NodeConfigDraft::default();
    let mut inbound = InboundEntryDraft::default();
    inbound.protocol = "socks5".to_string();
    inbound.groups = strings(&[" a", "a", ""]);
    draft.inbounds = vec![inbound];
    sync_draft(&mut draft);
    let i = &draft.inbounds[0];
    assert_eq!(i.id.len(), 36);
    assert_eq!(i.name, "inbound-1");
    assert_eq!(i.listen, "0.0.0.0");
    assert_eq!(i.port, 1080);
    assert_eq!(i.core_type, "SING_BOX");
    assert_eq!(i.groups, strings(&["a"]));
    assert_eq!(i.wireguard.domain_strategy, "ForceIP");
    let names: Vec<&str> = draft.outbounds.iter().map(|o| o.name.as_str()).collect();
    assert_eq!(names, vec!["direct", "block"]);
    assert!(draft.outbounds.iter().all(|o| o.builtin && o.enabled));
    assert_eq!(draft.routing_rules.len(), 1);
    assert_eq!(draft.routing_rules[0].outbound_tag, "direct");
    assert!(draft.routing_rules[0].enabled);
}

#[test]
fn new_entries_start_with_their_defaults() {
    let c = default_certificate_draft();
    assert_eq!(c.id.len(), 36);
    assert_eq!((c.name.as_str(), c.cert_type.as_str(), c.acme_ca.as_str()), ("default", "ACME", "letsencrypt"));
    let i = default_inbound_entry();
    assert_eq!(i.id.len(), 36);
    assert_eq!(i.id.matches('-').count(), 4);
    assert_eq!((i.listen.as_str(), i.port, i.protocol.as_str()), ("0.0.0.0", 443, "VLESS"));
    assert_eq!(i.shadowsocks.method, "2022-blake3-aes-128-gcm");
    assert_eq!(i.tproxy.sniffing_dest_override, "http, tls, quic");
    let w = default_warp_outbound();
    assert_eq!((w.name.as_str(), w.outbound_type.as_str(), w.wireguard.tag.as_str()), ("WARP", "WIREGUARD", "warp"));
    let s = default_shadowsocks_outbound();
    assert_eq!((s.shadowsocks.tag.as_str(), s.shadowsocks.port), ("proxy-ss", 8388));
    let d = default_node_draft(&node(), "{remark}");
    assert_eq!(d.master_key, "node-key");
    assert_eq!(d.link_remark_template, "{remark}");
    assert_eq!(d.outbounds.len(), 2);
    assert_eq!(d.outbounds[1].outbound_type, "BLOCK");
    assert_eq!(d.routing_rules[0].outbound_tag, "direct");
    assert!(!d.routing_rules[0].enabled);
}

#[test]
fn a_draft_without_rules_deploys_one_rule_to_direct() {
    let mut draft = NodeConfigDraft::default();
    draft.master_key = "k".to_string();
    draft.link_remark_template = "{node}".to_string();
    let c = build_full_config(&draft, &node(), &[]);
    assert_eq!(c.master_key, "k");
    assert_eq!(c.link_remark_template, "{node}");
    assert_eq!(c.routing_rules.len(), 1);
    assert_eq!(c.routing_rules[0].outbound_tag, "direct");
    assert!(c.outbounds.iter().any(|o| o.tag == "direct"));
    assert_eq!(c.certificates.len(), 0);
    assert!(c.dns.is_none());
}
