use node_config::config::{OutboundKind, OutboundSettings};
use node_config::config_build::outbound_config;
use node_config::model::OutboundEntryDraft;
use node_config::vless_link::import_vless_outbound_link;

const UUID: &str = "11111111-2222-3333-4444-555555555555";

fn import(link: &str) -> Result<OutboundEntryDraft, String> {
    import_vless_outbound_link(link, &OutboundEntryDraft::default())
}

#[test]
fn imports_a_reality_link() {
    let link = format!(
        "  vless://{}@example.com:443?type=websocket&security=reality&sni=a.com&pbk=KEY&sid=ab12&fp=chrome&spx=%2F&flow=xtls-rprx-vision#name  ",
        UUID
    );
    let d = import(&link).unwrap();
    assert_eq!(d.outbound_type, "VLESS");
    assert!(d.enabled);
    assert!(!d.builtin);
    assert_eq!(d.vless.server, "example.com");
    assert_eq!(d.vless.port, 443);
    assert_eq!(d.vless.uuid, UUID);
    assert_eq!(d.vless.transmission, "WebSocket");
    assert_eq!(d.vless.security, "REALITY");
    assert_eq!(d.vless.tls_server_name, "a.com");
    assert_eq!(d.vless.reality_sni, "a.com");
    assert_eq!(d.vless.reality_public_key, "KEY");
    assert_eq!(d.vless.reality_short_ids, "ab12");
    assert_eq!(d.vless.reality_utls, "chrome");
    assert_eq!(d.vless.reality_spider_x, "/");
    assert_eq!(d.vless.flow, "xtls-rprx-vision");
    assert_eq!(d.vless.tag, "VLESS");
}

#[test]
fn imports_an_ipv6_link_with_defaults() {
    let d = import("vless://abc@[2001:db8::1]:8443").unwrap();
    assert_eq!(d.vless.server, "2001:db8::1");
    assert_eq!(d.vless.port, 8443);
    assert_eq!(d.vless.uuid, "abc");
    assert_eq!(d.vless.security, "NONE");
    assert_eq!(d.vless.transmission, "TCP");
}

#[test]
fn last_parameter_wins_and_keys_ignore_case() {
    let d = import("vless://u@h:1?SNI=a&serverName=b&Security=TLS&type=grpc&type=bogus").unwrap();
    assert_eq!(d.vless.tls_server_name, "b");
    assert_eq!(d.vless.reality_sni, "b");
    assert_eq!(d.vless.security, "TLS");
    assert_eq!(d.vless.transmission, "TCP");
}

#[test]
fn keeps_the_existing_outbound_fields() {
    let mut existing = OutboundEntryDraft::default();
    existing.id = "keep-id".to_string();
    existing.name = " My link ".to_string();
    existing.vless.security = "TLS".to_string();
    existing.vless.flow = "old".to_string();
    let d = import_vless_outbound_link("vless://u@h:2", &existing).unwrap();
    assert_eq!(d.id, "keep-id");
    assert_eq!(d.name, " My link ");
    assert_eq!(d.vless.security, "TLS");
    assert_eq!(d.vless.flow, "old");
    assert_eq!(d.vless.tag, "My link");
    existing.vless.tag = "keep".to_string();
    let d = import_vless_outbound_link("vless://u@h:2", &existing).unwrap();
    assert_eq!(d.vless.tag, "keep");
}

#[test]
fn decodes_the_user_part() {
    let d = import("vless://%20abc%2D1%20@h:3").unwrap();
    assert_eq!(d.vless.uuid, "abc-1");
}

#[test]
fn refuses_malformed_links() {
    let cases = [
        ("http://u@h:1", "Link must start with vless://"),
        ("vless://example.com:443", "Link must include UUID and server"),
        ("vless://%20@h:1", "VLESS UUID is empty"),
        ("vless://u@[::1", "Invalid IPv6 server syntax"),
        ("vless://u@[::1]", "VLESS link is missing port"),
        ("vless://u@[::1]x443", "VLESS link is missing port"),
        ("vless://u@host", "VLESS link is missing port"),
        ("vless://u@host:abc", "Invalid VLESS port"),
        ("vless://u@[::1]:99999999999", "Invalid VLESS port"),
        ("vless://u@:443", "VLESS server is empty"),
        ("vless://u@[ ]:443", "VLESS server is empty"),
    ];
    for (link, message) in cases {
        assert_eq!(import(link).unwrap_err(), message, "{}", link);
    }
}

#[test]
fn imported_outbound_is_deployed_with_the_link_endpoint() {
    let d = import(&format!("vless://{}@example.org:8443?security=tls", UUID)).unwrap();
    let c = outbound_config(&d).unwrap();
    assert_eq!(c.kind, OutboundKind::Vless);
    assert_eq!(c.tag, "VLESS");
    match c.settings {
        Some(OutboundSettings::Vless(v)) => {
            assert_eq!(v.server, "example.org");
            assert_eq!(v.port, 8443);
            assert_eq!(v.uuid, UUID);
        }
        other => panic!("unexpected settings {:?}", other),
    }
}
