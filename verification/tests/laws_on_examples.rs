use node_config::accounts::delete_account;
use node_config::drafts::{default_certificate_draft, default_inbound_entry, default_vless_outbound};
use node_config::editing::{delete_inbound, save_inbound};
use node_config::entry_editors::with_added_short_ids;
use node_config::model::{
    AccountInfo, NodeConfigDraft, NodeConfigRevision, ReverseProxyDraft, RoutingRuleDraft,
    WarpRegistration,
};
use node_config::node_page::{persist_revision, revision_draft};
use node_config::sync::sync_draft;
use node_config::text::{join, split_lines_csv};
use node_config::warp::{warp_registration_from_draft, warp_registration_to_draft};

fn strings(v: &[&str]) -> Vec<String> {
    v.iter().map(|s| s.to_string()).collect()
}

fn messy_draft() -> NodeConfigDraft {
    let mut d = NodeConfigDraft::default();
    let mut a = default_inbound_entry();
    a.name = " ".to_string();
    a.port = -3;
    a.core_type = String::new();
    a.groups = strings(&[" g", "g", ""]);
    a.wireguard.domain_strategy = String::new();
    a.tls.certificate_name = " cert-id ".to_string();
    let mut rp = default_inbound_entry();
    rp.protocol = "reverseproxy".to_string();
    rp.name = " old ".to_string();
    d.inbounds = vec![a, rp];
    let mut c = default_certificate_draft();
    c.id = "cert-id".to_string();
    c.name = " Main ".to_string();
    d.certificates = vec![c];
    let mut custom = default_vless_outbound();
    custom.outbound_type = "custom".to_string();
    custom.name = String::new();
    let mut vless = default_vless_outbound();
    vless.name = " ".to_string();
    d.outbounds = vec![custom, vless];
    let mut r = ReverseProxyDraft::default();
    r.mode = " BRIDGE ".to_string();
    r.tag = " t ".to_string();
    d.reverse_proxies = vec![r];
    d.routing_rules = vec![RoutingRuleDraft::default()];
    d
}

#[test]
fn syncing_twice_changes_nothing_more() {
    let mut d = messy_draft();
    sync_draft(&mut d);
    let once = d.clone();
    assert_eq!(once.inbounds[0].tls.certificate_name, "Main");
    assert_eq!(once.reverse_proxies.len(), 2);
    assert_eq!(once.outbounds[0].custom.tag, "custom");
    sync_draft(&mut d);
    assert_eq!(d, once);
}

#[test]
fn a_saved_inbound_is_found_and_a_deleted_one_is_gone() {
    let mut d = NodeConfigDraft::default();
    sync_draft(&mut d);
    let mut x = default_inbound_entry();
    x.id = "keep-me".to_string();
    x.name = String::new();
    save_inbound(&mut d, x);
    let found = d.inbounds.iter().find(|i| i.id == "keep-me").expect("saved inbound");
    assert_eq!(found.name, "inbound-1");
    delete_inbound(&mut d, "keep-me");
    assert!(d.inbounds.iter().all(|i| i.id != "keep-me"));
}

#[test]
fn a_deleted_account_is_gone_and_the_others_stay() {
    let account = |id: &str| AccountInfo {
        id: id.to_string(),
        name: id.to_string(),
        token: String::new(),
        groups: Vec::new(),
        allowed_ips: Vec::new(),
        creation_date: 0,
        expiry_date: 0,
    };
    let mut accounts = vec![account("x"), account("y"), account("x"), account("z")];
    delete_account(&mut accounts, "x");
    let ids: Vec<&str> = accounts.iter().map(|a| a.id.as_str()).collect();
    assert_eq!(ids, vec!["y", "z"]);
}

#[test]
fn a_persisted_revision_is_found_by_its_id() {
    let mut config = NodeConfigDraft::default();
    let mut revisions: Vec<NodeConfigRevision> = Vec::new();
    let mut active = String::new();
    let draft = messy_draft();
    let id = persist_revision(&mut config, &mut revisions, &mut active, &draft, &"k".to_string(), "2024-01-01");
    let found = revision_draft(&revisions, &id).expect("persisted revision");
    assert_eq!(found, revisions[0].config);
}

#[test]
fn joined_entries_read_back() {
    let parts = strings(&["10.0.0.1/32", "fd00::1/128", "x"]);
    assert_eq!(split_lines_csv(&join(&parts, ", ")), parts);
    assert_eq!(split_lines_csv(&join(&parts, ",")), parts);
    assert!(split_lines_csv(&join(&Vec::new(), ", ")).is_empty());
}

#[test]
fn generated_short_ids_read_back_after_the_written_ones() {
    let added = strings(&["0123456789abcdef", "fedcba9876543210"]);
    let written = with_added_short_ids("aa, ,bb\ncc", &added);
    assert_eq!(split_lines_csv(&written), strings(&["aa", "bb", "cc", "0123456789abcdef", "fedcba9876543210"]));
}

#[test]
fn a_registration_written_in_the_draft_reads_back() {
    let reg = WarpRegistration {
        id: "id".to_string(),
        token: "t".to_string(),
        private_key: "k".to_string(),
        public_key: "p".to_string(),
        peer_public_key: "pp".to_string(),
        license: "l".to_string(),
        reserved: vec![0, 9, 10, 99, 100, 255],
        addresses: strings(&["172.16.0.2/32", "2606:4700::2/128"]),
        endpoint: "e:1".to_string(),
    };
    let back = warp_registration_from_draft(&warp_registration_to_draft(&reg));
    assert_eq!(back, Some(reg));
}

#[test]
fn fresh_ids_are_version_four_uuids() {
    for _ in 0..8 {
        let id: Vec<char> = default_inbound_entry().id.chars().collect();
        assert_eq!(id.len(), 36);
        for (k, c) in id.iter().enumerate() {
            if k == 8 || k == 13 || k == 18 || k == 23 {
                assert_eq!(*c, '-');
            } else {
                assert!(c.is_ascii_digit() || ('a'..='f').contains(c));
            }
        }
        assert_eq!(id[14], '4');
        assert!("89ab".contains(id[19]));
    }
}

#[test]
fn a_second_sync_keeps_every_id() {
    let mut d = messy_draft();
    sync_draft(&mut d);
    let ids: Vec<String> = d.inbounds.iter().map(|i| i.id.clone()).collect();
    let out_ids: Vec<String> = d.outbounds.iter().map(|o| o.id.clone()).collect();
    sync_draft(&mut d);
    let again: Vec<String> = d.inbounds.iter().map(|i| i.id.clone()).collect();
    let out_again: Vec<String> = d.outbounds.iter().map(|o| o.id.clone()).collect();
    assert_eq!(again, ids);
    assert_eq!(out_again, out_ids);
}
