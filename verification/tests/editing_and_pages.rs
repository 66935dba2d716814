use node_config::drafts::{
    default_builtin_outbound, default_certificate_draft, default_inbound_entry, default_node_draft, default_vless_outbound,
};
use node_config::editing::{
    add_outbound, name_prompt_popup, delete_inbound, duplicate_inbound_name, delete_outbound, delete_reverse_proxy, delete_routing_rule,
    duplicate_inbound, duplicate_outbound, duplicate_outbound_name, duplicate_reverse_proxy,
    duplicate_reverse_proxy_tag, duplicate_routing_rule, save_certificate, save_dns_host,
    save_dns_server, save_inbound, save_outbound, save_reverse_proxy, save_routing_rule,
    set_inbound_enabled, set_outbound_enabled, set_warp_registration,
};
use node_config::model::{
    DnsDraft, WarpRegistrationDraft, DnsHostDraft, DnsServerDraft, NodeConfigDraft, NodeConfigRevision, ProxyNode,
    ReverseProxyDraft, RoutingRuleDraft, WarpRegistration,
};
use node_config::node_page::{initial_node_draft, new_revision, revision_draft, revision_options};
use node_config::sync::sync_draft;

fn node() -> ProxyNode {
    ProxyNode {
        id: "n1".to_string(),
        name: "node".to_string(),
        address: "node.example".to_string(),
        public_ip: "203.0.113.7".to_string(),
        groups: vec!["g1".to_string()],
        master_key: "node-key".to_string(),
    }
}

fn rule(tag: &str) -> RoutingRuleDraft {
    let mut r = RoutingRuleDraft::default();
    r.enabled = true;
    r.domain = "a.com".to_string();
    r.outbound_tag = tag.to_string();
    r
}

/// A synced draft with two inbounds, the two built-in outbounds and a
/// VLESS outbound, and two routing rules.
fn base_draft() -> NodeConfigDraft {
    let mut d = NodeConfigDraft::default();
    let mut a = default_inbound_entry();
    a.id = "in-a".to_string();
    a.name = "a".to_string();
    let mut b = default_inbound_entry();
    b.id = "in-b".to_string();
    b.name = "b".to_string();
    d.inbounds = vec![a, b];
    let mut v = default_vless_outbound();
    v.id = "out-v".to_string();
    v.name = "proxy".to_string();
    v.vless.tag = "proxy".to_string();
    d.outbounds = vec![
        default_builtin_outbound("direct", "DIRECT"),
        default_builtin_outbound("block", "BLOCK"),
        v,
    ];
    d.routing_rules = vec![rule("direct"), rule("proxy")];
    sync_draft(&mut d);
    d
}

fn names(d: &NodeConfigDraft) -> Vec<String> {
    d.inbounds.iter().map(|i| i.name.clone()).collect()
}

#[test]
fn base_draft_is_canonical() {
    let d = base_draft();
    assert_eq!(names(&d), vec!["a", "b"]);
    let outs: Vec<&str> = d.outbounds.iter().map(|o| o.name.as_str()).collect();
    assert_eq!(outs, vec!["direct", "block", "proxy"]);
    assert_eq!(d.routing_rules.len(), 2);
}

#[test]
fn saving_an_inbound_replaces_the_one_with_its_id() {
    let mut d = base_draft();
    let mut b = d.inbounds[1].clone();
    b.name = "b2".to_string();
    b.port = 8443;
    save_inbound(&mut d, b);
    assert_eq!(names(&d), vec!["a", "b2"]);
    assert_eq!(d.inbounds[1].port, 8443);
    assert_eq!(d.inbounds[1].id, "in-b");
}

#[test]
fn saving_a_new_inbound_adds_it() {
    let mut d = base_draft();
    let mut c = default_inbound_entry();
    c.name = "c".to_string();
    let id = c.id.clone();
    save_inbound(&mut d, c);
    assert_eq!(names(&d), vec!["a", "b", "c"]);
    assert_eq!(d.inbounds[2].id, id);
}

#[test]
fn deleting_and_switching_inbounds() {
    let mut d = base_draft();
    set_inbound_enabled(&mut d, "in-a", false);
    assert!(!d.inbounds[0].enabled);
    assert!(d.inbounds[1].enabled);
    delete_inbound(&mut d, "in-a");
    assert_eq!(names(&d), vec!["b"]);
    delete_inbound(&mut d, "missing");
    assert_eq!(names(&d), vec!["b"]);
}

#[test]
fn saving_deleting_and_switching_outbounds() {
    let mut d = base_draft();
    let mut v = d.outbounds[2].clone();
    v.vless.server = "s.example".to_string();
    save_outbound(&mut d, v);
    assert_eq!(d.outbounds.len(), 3);
    assert_eq!(d.outbounds[2].vless.server, "s.example");
    set_outbound_enabled(&mut d, "out-v", false);
    assert!(!d.outbounds[2].enabled);
    delete_outbound(&mut d, "out-v");
    let outs: Vec<&str> = d.outbounds.iter().map(|o| o.name.as_str()).collect();
    assert_eq!(outs, vec!["direct", "block"]);
}

#[test]
fn adding_and_copying_an_outbound() {
    let mut d = base_draft();
    let mut v = default_vless_outbound();
    v.name = "second".to_string();
    add_outbound(&mut d, v);
    assert_eq!(d.outbounds.len(), 4);
    assert_eq!(d.outbounds[3].name, "second");

    let original = d.outbounds[2].clone();
    let name = duplicate_outbound_name(&original);
    assert_eq!(name, "proxy Copy");
    duplicate_outbound(&mut d, &original, name);
    let copy = &d.outbounds[4];
    assert_eq!(copy.name, "proxy Copy");
    assert_eq!(copy.vless.tag, "proxy Copy");
    assert_ne!(copy.id, original.id);
    assert_eq!(copy.id.len(), 36);
}

#[test]
fn copy_names_of_outbounds_and_reverse_proxies() {
    let mut o = default_vless_outbound();
    o.name = "  edge ".to_string();
    assert_eq!(duplicate_outbound_name(&o), "edge Copy");
    let mut r = ReverseProxyDraft::default();
    r.tag = " rp1 ".to_string();
    assert_eq!(duplicate_reverse_proxy_tag(&r), "rp1-copy");
    r.tag = "  ".to_string();
    assert_eq!(duplicate_reverse_proxy_tag(&r), "reverse-copy");
}

#[test]
fn copying_an_inbound_gives_it_a_fresh_id() {
    let mut d = base_draft();
    let a = d.inbounds[0].clone();
    duplicate_inbound(&mut d, &a, "a copy".to_string());
    assert_eq!(names(&d), vec!["a", "b", "a copy"]);
    assert_ne!(d.inbounds[2].id, "in-a");
    assert_eq!(d.inbounds[2].id.len(), 36);
    assert_eq!(d.inbounds[2].port, a.port);
}

#[test]
fn routing_rules_are_saved_copied_and_deleted_by_place() {
    let mut d = base_draft();
    save_routing_rule(&mut d, 0, rule("block"));
    assert_eq!(d.routing_rules[0].outbound_tag, "block");
    save_routing_rule(&mut d, 9, rule("proxy"));
    let tags: Vec<&str> = d.routing_rules.iter().map(|r| r.outbound_tag.as_str()).collect();
    assert_eq!(tags, vec!["block", "proxy", "proxy"]);
    let mut copy = rule("direct");
    copy.remark = "copy".to_string();
    duplicate_routing_rule(&mut d, 0, copy);
    let tags: Vec<&str> = d.routing_rules.iter().map(|r| r.outbound_tag.as_str()).collect();
    assert_eq!(tags, vec!["block", "direct", "proxy", "proxy"]);
    assert_eq!(d.routing_rules[1].remark, "copy");
    delete_routing_rule(&mut d, 0);
    let tags: Vec<&str> = d.routing_rules.iter().map(|r| r.outbound_tag.as_str()).collect();
    assert_eq!(tags, vec!["direct", "proxy", "proxy"]);
    delete_routing_rule(&mut d, 7);
    assert_eq!(d.routing_rules.len(), 3);
}

#[test]
fn reverse_proxies_are_saved_as_portals() {
    let mut d = base_draft();
    let mut r = ReverseProxyDraft::default();
    r.enabled = true;
    r.tag = "rp1".to_string();
    r.mode = "bridge".to_string();
    r.domain = "x.example".to_string();
    r.bridge_outbound_tag = "proxy".to_string();
    r.target_outbound_tag = "direct".to_string();
    r.portal_inbound_tag = "a".to_string();
    save_reverse_proxy(&mut d, 0, r);
    assert_eq!(d.reverse_proxies.len(), 1);
    let p = &d.reverse_proxies[0];
    assert_eq!(p.mode, "portal");
    assert_eq!(p.tag, "rp1");
    assert_eq!(p.portal_inbound_tag, "a");
    assert_eq!(p.domain, "");
    assert_eq!(p.bridge_outbound_tag, "");
    // the target cleared by the editor is filled in again when the draft is synced
    assert_eq!(p.target_outbound_tag, "direct");

    let first = d.reverse_proxies[0].clone();
    let tag = duplicate_reverse_proxy_tag(&first);
    duplicate_reverse_proxy(&mut d, &first, tag);
    let tags: Vec<&str> = d.reverse_proxies.iter().map(|r| r.tag.as_str()).collect();
    assert_eq!(tags, vec!["rp1", "rp1-copy"]);
    delete_reverse_proxy(&mut d, 0);
    let tags: Vec<&str> = d.reverse_proxies.iter().map(|r| r.tag.as_str()).collect();
    assert_eq!(tags, vec!["rp1-copy"]);
}

#[test]
fn renaming_a_certificate_moves_its_references() {
    let mut d = base_draft();
    let mut c = default_certificate_draft();
    c.name = "main-cert".to_string();
    save_certificate(&mut d, c.clone());
    // a new certificate is taken by the inbounds that had none
    assert!(d.inbounds.iter().all(|i| i.tls.certificate_name == "main-cert"));
    let mut renamed = c.clone();
    renamed.name = "edge-cert".to_string();
    save_certificate(&mut d, renamed);
    assert_eq!(d.certificates.len(), 1);
    assert_eq!(d.certificates[0].name, "edge-cert");
    assert!(d.inbounds.iter().all(|i| i.tls.certificate_name == "edge-cert"));
    assert!(d.inbounds.iter().all(|i| i.tls.certificate_name != "main-cert"));
}

#[test]
fn dns_servers_and_hosts_are_saved_by_place() {
    let mut d = base_draft();
    let mut s = DnsServerDraft::default();
    s.address = "1.1.1.1".to_string();
    save_dns_server(&mut d, 0, s.clone());
    s.address = "8.8.8.8".to_string();
    save_dns_server(&mut d, 5, s.clone());
    s.address = "9.9.9.9".to_string();
    save_dns_server(&mut d, 0, s);
    let servers: Vec<&str> = d.dns.servers.iter().map(|s| s.address.as_str()).collect();
    assert_eq!(servers, vec!["9.9.9.9", "8.8.8.8"]);
    let h = DnsHostDraft { domain: "a.example".to_string(), values: "10.0.0.1".to_string() };
    save_dns_host(&mut d, 3, h);
    assert_eq!(d.dns.hosts.len(), 1);
    assert_eq!(d.dns.hosts[0].values, "10.0.0.1");
}

#[test]
fn a_warp_registration_is_written_once() {
    let mut d = base_draft();
    let reg = WarpRegistration {
        id: "dev".to_string(),
        token: "tok".to_string(),
        private_key: "priv".to_string(),
        public_key: "pub".to_string(),
        peer_public_key: "peer".to_string(),
        license: "lic".to_string(),
        reserved: vec![1, 2, 3],
        addresses: vec!["172.16.0.2/32".to_string(), "fd01::2/128".to_string()],
        endpoint: "engage.cloudflareclient.com:2408".to_string(),
    };
    assert!(set_warp_registration(&mut d, Some(reg.clone())));
    assert_eq!(d.warp_registration.id, "dev");
    assert_eq!(d.warp_registration.reserved, "1, 2, 3");
    assert_eq!(d.warp_registration.addresses, "172.16.0.2/32, fd01::2/128");
    assert!(!set_warp_registration(&mut d, Some(reg)));
    assert!(set_warp_registration(&mut d, None));
    assert_eq!(d.warp_registration.id, "");
    assert!(!set_warp_registration(&mut d, None));
}

fn revision(id: &str, date: &str, inbound_name: &str) -> NodeConfigRevision {
    let mut config = NodeConfigDraft::default();
    let mut i = default_inbound_entry();
    i.name = inbound_name.to_string();
    config.inbounds = vec![i];
    config.master_key = "old-key".to_string();
    NodeConfigRevision { id: id.to_string(), created_at: date.to_string(), config }
}

#[test]
fn the_page_opens_with_the_saved_draft_first() {
    let mut saved = NodeConfigDraft::default();
    saved.master_key = "stale".to_string();
    let revisions = vec![revision("r1", "2024-01-01", "from-r1")];
    let d = initial_node_draft(&node(), Some(saved), &NodeConfigDraft::default(), &revisions, "r1", "{node}");
    assert_eq!(d.master_key, "node-key");
    assert!(d.inbounds.is_empty());
    assert_eq!(d.outbounds.len(), 2);
}

#[test]
fn the_page_opens_with_the_deployed_configuration_next() {
    let deployed = base_draft();
    let revisions = vec![revision("r1", "2024-01-01", "from-r1")];
    let d = initial_node_draft(&node(), None, &deployed, &revisions, "r1", "{node}");
    assert_eq!(d, deployed);
}

#[test]
fn the_page_opens_with_the_active_or_last_revision() {
    let revisions = vec![
        revision("r1", "2024-01-01", "from-r1"),
        revision("r2", "2024-02-01", "from-r2"),
    ];
    let empty = NodeConfigDraft::default();
    let d = initial_node_draft(&node(), None, &empty, &revisions, "r1", "{node}");
    assert_eq!(names(&d), vec!["from-r1"]);
    assert_eq!(d.master_key, "node-key");
    let d = initial_node_draft(&node(), None, &empty, &revisions, "gone", "{node}");
    assert_eq!(names(&d), vec!["from-r2"]);
    let d = initial_node_draft(&node(), None, &empty, &Vec::new(), "", "{node}");
    assert!(d.inbounds.is_empty());
    assert_eq!(d.link_remark_template, "{node}");
    assert_eq!(d.master_key, "node-key");
    let fresh = default_node_draft(&node(), "{node}");
    let outs: Vec<&str> = d.outbounds.iter().map(|o| o.name.as_str()).collect();
    let fresh_outs: Vec<&str> = fresh.outbounds.iter().map(|o| o.name.as_str()).collect();
    assert_eq!(outs, fresh_outs);
    assert_eq!(d.routing_rules, fresh.routing_rules);
}

#[test]
fn revisions_are_listed_newest_first() {
    let revisions = vec![
        revision("r1", "2024-01-01", "x"),
        revision("r2", " ", "y"),
    ];
    let options = revision_options(&revisions, "2024-03-03");
    assert_eq!(
        options,
        vec![
            ("r2".to_string(), "Revision 2".to_string()),
            ("r1".to_string(), "Revision 1 (2024-01-01)".to_string()),
        ]
    );
    let none = revision_options(&Vec::new(), "2024-03-03");
    assert_eq!(none, vec![(String::new(), "Revision 1 (2024-03-03)".to_string())]);
}

#[test]
fn a_revision_draft_is_found_by_id() {
    let revisions = vec![revision("r1", "2024-01-01", "x"), revision("r2", "", "y")];
    let d = revision_draft(&revisions, "r2").unwrap();
    assert_eq!(names(&d), vec!["y"]);
    assert_eq!(d.outbounds.len(), 2);
    assert!(revision_draft(&revisions, "r3").is_none());
}

#[test]
fn a_new_revision_carries_the_node_key() {
    let d = base_draft();
    let r = new_revision(&d, &"node-key".to_string(), "2024-05-05");
    assert_eq!(r.id.len(), 36);
    assert_eq!(r.created_at, "2024-05-05");
    assert_eq!(r.config.master_key, "node-key");
    assert_eq!(names(&r.config), vec!["a", "b"]);
}

#[test]
fn copy_names_and_name_prompts() {
    let mut i = default_inbound_entry();
    i.name = " edge ".to_string();
    assert_eq!(duplicate_inbound_name(&i), "edge Copy");
    i.name = String::new();
    i.protocol = "trojan".to_string();
    assert_eq!(duplicate_inbound_name(&i), "TROJAN Copy");
    assert_eq!(name_prompt_popup("  new name "), Ok("new name".to_string()));
    assert_eq!(name_prompt_popup(" \t"), Err("Name is required.".to_string()));
}

#[test]
fn the_page_of_a_new_node_opens_with_the_starting_draft() {
    let d = initial_node_draft(&node(), None, &NodeConfigDraft::default(), &Vec::new(), "r1", "{node}");
    assert_eq!(d.master_key, "node-key");
    assert_eq!(d.link_remark_template, "{node}");
    assert!(d.inbounds.is_empty());
    assert!(d.reverse_proxies.is_empty());
    assert!(d.certificates.is_empty());
    assert_eq!(d.outbounds.len(), 2);
    assert_eq!(d.outbounds[0].name, "direct");
    assert_eq!(d.outbounds[1].name, "block");
    assert_eq!(d.routing_rules.len(), 1);
    assert_eq!(d.routing_rules[0].outbound_tag, "direct");
    assert!(!d.routing_rules[0].enabled);
    assert_eq!(d.routing_rules[0].domain, "");
    assert_eq!(d.dns, DnsDraft::default());
    assert_eq!(d.warp_registration, WarpRegistrationDraft::default());
}
