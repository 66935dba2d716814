//! Building the node configuration from the editor's draft.

use vstd::prelude::*;
use vstd::string::*;
use crate::certs::{certificate_by_name, first_named, normalized_certificates};
use crate::dns::{build_dns_config, dns_section, dns_section_unset};
use crate::sync::{is_canonical, lemma_sync_canonical, outbound_views, sync_draft, synced};
use crate::config::{
    Account, AcmeCertificateConfig, CertificateConfig, CertificateKind, CustomCertificateConfig,
    Hysteria2Config, InboundConfig, InboundProtocol, NaiveProxyConfig, OutboundConfig,
    OutboundKind, OutboundSettings, ReverseProxyConfig, RoutingRule, ShadowsocksInboundConfig,
    ShadowsocksOutboundConfig, Socks5InboundConfig, Socks5OutboundConfig, TProxyConfig, TlsConfig,
    FullConfig, TrojanInboundConfig, TrojanOutboundConfig, TrustTunnelConfig, VlessConfig,
    VlessOutboundConfig, VlessRealityConfig, WireGuardConfig, WireGuardPeer,
};
use crate::groups::{normalize_groups, normalized_group_list};
use crate::model::{
    AccountInfo, CertificateDraft, InboundEntryDraft, InboundEntryDraftView, ProxyNode,
    NodeConfigDraft, NodeConfigDraftView, OutboundEntryDraft, OutboundEntryDraftView, ProxyNodeView,
    ReverseProxyDraft,
    RoutingRuleDraft, WireGuardPeerItem, copy_strings,
};
use crate::ids::{is_uuid_text, new_entry_id};
use crate::protocols::{
    CoreType, core_from, core_type_of, inbound_tls_enabled, normalize_protocol_for_core,
    normalized_protocol, security_from,
    security_mode_of, transmission_of, vless_transmission_from,
};
use crate::text::{
    chars_of, copy_str, csv_entries, eq_ascii_ci, eq_ignore_ascii_case, eq_str, is_blank,
    parse_unsigned, parsed_unsigned, trim_upper, lower_text, split_lines_csv, texts,
    to_lower, trimmed, upper_trimmed, ascii_upper, is_ws, lemma_trimmed_fixed,
};
use vstd::utf8::is_ascii_chars;

verus! {

/// An account as the node sees it, its lists taken by their contents.
pub struct AccountView {
    pub id: String,
    pub allowed_ips: Seq<String>,
    pub groups: Seq<String>,
    pub expiry_time: i64,
    pub token: String,
}

impl View for Account {
    type V = AccountView;

    open spec fn view(&self) -> AccountView {
        AccountView {
            id: self.id,
            allowed_ips: self.allowed_ips@,
            groups: self.groups@,
            expiry_time: self.expiry_time,
            token: self.token,
        }
    }
}

/// The views of a list of accounts.
pub open spec fn account_views(s: Seq<Account>) -> Seq<AccountView> {
    Seq::new(s.len(), |i: int| s[i]@)
}

impl Account {
    /// A field-by-field copy.
    pub fn duplicate(&self) -> (r: Self)
        ensures
            r@ == self@,
    {
        Account {
            id: self.id.clone(),
            allowed_ips: copy_strings(&self.allowed_ips),
            groups: copy_strings(&self.groups),
            expiry_time: self.expiry_time,
            token: self.token.clone(),
        }
    }
}

/// A copy of a list of accounts.
pub fn copy_accounts(v: &Vec<Account>) -> (r: Vec<Account>)
    ensures
        account_views(r@) == account_views(v@),
{
    let mut out: Vec<Account> = Vec::new();
    let mut i: usize = 0;
    while i < v.len()
        invariant
            i <= v@.len(),
            account_views(out@) == account_views(v@.take(i as int)),
        decreases v@.len() - i,
    {
        let ghost before = out@;
        out.push(v[i].duplicate());
        proof {
            assert(account_views(out@) =~= account_views(before).push(v@[i as int]@));
            assert(account_views(v@.take(i + 1)) =~= account_views(v@.take(i as int)).push(
                v@[i as int]@,
            ));
        }
        i = i + 1;
    }
    assert(v@.take(v@.len() as int) =~= v@);
    out
}

/// True when two group lists share a name.
pub open spec fn groups_meet(a: Seq<Seq<char>>, b: Seq<Seq<char>>) -> bool {
    exists|g: Seq<char>| a.contains(g) && b.contains(g)
}

/// True when an account may use the node: its normalised groups and the
/// node's share a name.
pub open spec fn serves(a: AccountInfo, node: ProxyNodeView) -> bool {
    groups_meet(
        normalized_group_list(texts(a.groups@)),
        normalized_group_list(texts(node.groups)),
    )
}

/// The accounts that may use the node, in order.
pub open spec fn served_accounts(accounts: Seq<AccountInfo>, node: ProxyNodeView) -> Seq<
    AccountInfo,
>
    decreases accounts.len(),
{
    if accounts.len() == 0 {
        Seq::empty()
    } else {
        let p = served_accounts(accounts.drop_last(), node);
        if serves(accounts.last(), node) {
            p.push(accounts.last())
        } else {
            p
        }
    }
}

/// The node's record of an account: its id, addresses, expiry and token,
/// and its normalised groups.
pub open spec fn account_record(c: AccountView, a: AccountInfo) -> bool {
    &&& c.id == a.id
    &&& c.allowed_ips == a.allowed_ips@
    &&& texts(c.groups) == normalized_group_list(texts(a.groups@))
    &&& c.expiry_time == a.expiry_date
    &&& c.token == a.token
}

/// `cs` records the accounts `accounts`, one for one.
pub open spec fn account_records(cs: Seq<AccountView>, accounts: Seq<AccountInfo>) -> bool {
    &&& cs.len() == accounts.len()
    &&& forall|k: int| 0 <= k < cs.len() ==> account_record(#[trigger] cs[k], accounts[k])
}

/// True when the two lists share a text.
fn lists_meet(a: &Vec<String>, b: &Vec<String>) -> (r: bool)
    ensures
        r == groups_meet(texts(a@), texts(b@)),
{
    let mut i: usize = 0;
    while i < a.len()
        invariant
            i <= a@.len(),
            forall|x: int, y: int|
                0 <= x < i && 0 <= y < b@.len() ==> #[trigger] a@[x]@ != #[trigger] b@[y]@,
        decreases a@.len() - i,
    {
        let mut j: usize = 0;
        while j < b.len()
            invariant
                i < a@.len(),
                j <= b@.len(),
                forall|x: int, y: int|
                    0 <= x < i && 0 <= y < b@.len() ==> #[trigger] a@[x]@ != #[trigger] b@[y]@,
                forall|y: int| 0 <= y < j ==> a@[i as int]@ != #[trigger] b@[y]@,
            decreases b@.len() - j,
        {
            if eq_str(a[i].as_str(), b[j].as_str()) {
                proof {
                    let g = a@[i as int]@;
                    assert(texts(a@)[i as int] == g);
                    assert(texts(b@)[j as int] == g);
                    assert(texts(a@).contains(g));
                    assert(texts(b@).contains(g));
                }
                return true;
            }
            j = j + 1;
        }
        i = i + 1;
    }
    proof {
        if groups_meet(texts(a@), texts(b@)) {
            let g = choose|g: Seq<char>| texts(a@).contains(g) && texts(b@).contains(g);
            let x = choose|x: int| 0 <= x < texts(a@).len() && texts(a@)[x] == g;
            let y = choose|y: int| 0 <= y < texts(b@).len() && texts(b@)[y] == g;
            assert(a@[x]@ == b@[y]@);
        }
    }
    false
}

/// The accounts of the node: those whose groups meet the node's, each with
/// its groups normalised.
pub fn node_accounts(accounts: &[AccountInfo], node: &ProxyNode) -> (r: Vec<Account>)
    ensures
        account_records(account_views(r@), served_accounts(accounts@, node@)),
{
    let node_groups = normalize_groups(&node.groups);
    let mut out: Vec<Account> = Vec::new();
    let mut i: usize = 0;
    while i < accounts.len()
        invariant
            i <= accounts@.len(),
            texts(node_groups@) == normalized_group_list(texts(node@.groups)),
            account_records(account_views(out@), served_accounts(accounts@.take(i as int), node@)),
        decreases accounts@.len() - i,
    {
        let a = &accounts[i];
        let groups = normalize_groups(&a.groups);
        proof {
            assert(accounts@.take(i + 1).drop_last() =~= accounts@.take(i as int));
            assert(accounts@.take(i + 1).last() == accounts@[i as int]);
        }
        if lists_meet(&groups, &node_groups) {
            let ghost before = out@;
            out.push(
                Account {
                    id: a.id.clone(),
                    allowed_ips: copy_strings(&a.allowed_ips),
                    groups,
                    expiry_time: a.expiry_date,
                    token: a.token.clone(),
                },
            );
            proof {
                assert(account_views(out@) =~= account_views(before).push(out@.last()@));
            }
        }
        i = i + 1;
    }
    assert(accounts@.take(accounts@.len() as int) =~= accounts@);
    out
}

/// True for an ASCII hexadecimal digit.
pub open spec fn is_hex_char(c: char) -> bool {
    ('0' <= c && c <= '9') || ('a' <= c && c <= 'f') || ('A' <= c && c <= 'F')
}

/// True when a lower-cased short id is kept: not empty, hexadecimal, of an
/// even length of at most 16.
pub open spec fn short_id_ok(s: Seq<char>) -> bool {
    &&& s.len() > 0
    &&& s.len() <= 16
    &&& s.len() % 2 == 0
    &&& forall|i: int| 0 <= i < s.len() ==> is_hex_char(#[trigger] s[i])
}

/// The REALITY short ids of a list of entries: each lower-cased, the
/// malformed ones dropped.
pub open spec fn short_ids_of(es: Seq<Seq<char>>) -> Seq<Seq<char>>
    decreases es.len(),
{
    if es.len() == 0 {
        Seq::empty()
    } else {
        let p = short_ids_of(es.drop_last());
        let l = lower_text(trimmed(es.last()));
        if short_id_ok(l) {
            p.push(l)
        } else {
            p
        }
    }
}

fn short_id_ok_exec(s: &str) -> (r: bool)
    ensures
        r == short_id_ok(s@),
{
    let cs = crate::text::chars_of(s);
    let n = cs.len();
    if n == 0 || n > 16 || n % 2 != 0 {
        return false;
    }
    let mut i: usize = 0;
    while i < n
        invariant
            n == cs@.len(),
            cs@ == s@,
            i <= n,
            forall|k: int| 0 <= k < i ==> is_hex_char(#[trigger] cs@[k]),
        decreases n - i,
    {
        let c = cs[i];
        if !(('0' <= c && c <= '9') || ('a' <= c && c <= 'f') || ('A' <= c && c <= 'F')) {
            return false;
        }
        i = i + 1;
    }
    true
}

/// The REALITY short ids written in a text: the comma or line separated
/// entries, lower-cased, keeping those that are hexadecimal with an even
/// length of at most 16.
pub fn normalize_reality_short_ids(value: &str) -> (r: Vec<String>)
    ensures
        texts(r@) == short_ids_of(csv_entries(value@)),
{
    let entries = split_lines_csv(value);
    let ghost es = texts(entries@);
    let mut out: Vec<String> = Vec::new();
    let mut i: usize = 0;
    while i < entries.len()
        invariant
            es == texts(entries@),
            es == csv_entries(value@),
            i <= entries@.len(),
            texts(out@) == short_ids_of(es.take(i as int)),
        decreases entries@.len() - i,
    {
        proof {
            assert(es.take(i + 1).drop_last() =~= es.take(i as int));
            assert(es.take(i + 1).last() == entries@[i as int]@);
        }
        let t = crate::text::trim(entries[i].as_str());
        let l = to_lower(t.as_str());
        if short_id_ok_exec(l.as_str()) {
            let ghost before = out@;
            out.push(l);
            assert(texts(out@) =~= texts(before).push(out@.last()@));
        }
        i = i + 1;
    }
    assert(es.take(entries@.len() as int) =~= es);
    out
}


/// The ACME domain of the first certificate named `name`; empty when none is.
pub open spec fn named_domain(certs: Seq<CertificateDraft>, name: Seq<char>) -> Seq<char> {
    if exists|i: int| first_named(certs, name, i) {
        certs[choose|i: int| first_named(certs, name, i)].acme_domain@
    } else {
        Seq::empty()
    }
}

/// The server name an inbound's TLS presents: its own, or else the ACME
/// domain of the certificate it uses.
pub open spec fn tls_server_name(i: InboundEntryDraftView, certs: Seq<CertificateDraft>) -> Seq<
    char,
> {
    if trimmed(i.tls.server_name@).len() == 0 {
        named_domain(certs, trimmed(i.tls.certificate_name@))
    } else {
        i.tls.server_name@
    }
}

/// Whether an inbound serving `protocol` has TLS on (see `tls_enabled_for`).
pub open spec fn tls_switch(protocol: Seq<char>, i: InboundEntryDraftView) -> bool {
    let u = upper_trimmed(protocol);
    if u == "HYSTERIA2"@ || u == "TRUSTTUNNEL"@ || u == "NAIVEPROXY"@ || u == "TROJAN"@ {
        true
    } else if u == "VLESS"@ {
        eq_ascii_ci(i.vless.security@, "TLS"@)
    } else {
        i.tls.enabled
    }
}

/// `t` is the TLS setting of inbound `i` serving `protocol`.
pub open spec fn inbound_tls(
    t: Option<TlsConfig>,
    i: InboundEntryDraftView,
    protocol: Seq<char>,
    certs: Seq<CertificateDraft>,
) -> bool {
    &&& t is Some
    &&& t->Some_0.enabled == tls_switch(protocol, i)
    &&& t->Some_0.server_name@ == tls_server_name(i, certs)
    &&& t->Some_0.certificate_name == i.tls.certificate_name
}

proof fn lemma_first_named_unique(cs: Seq<CertificateDraft>, name: Seq<char>, i: int, j: int)
    requires
        first_named(cs, name, i),
        first_named(cs, name, j),
    ensures
        i == j,
{
    if i < j {
        assert(trimmed(cs[i].name@) == name);
    } else if j < i {
        assert(trimmed(cs[j].name@) == name);
    }
}

fn tls_for_inbound(inbound: &InboundEntryDraft, protocol: &str, certs: &[CertificateDraft]) -> (r:
    TlsConfig)
    ensures
        inbound_tls(Some(r), inbound@, protocol@, certs@),
{
    let server_name = if is_blank(inbound.tls.server_name.as_str()) {
        match certificate_by_name(certs, inbound.tls.certificate_name.as_str()) {
            Some(c) => {
                proof {
                    let i = choose|i: int|
                        first_named(certs@, trimmed(inbound.tls.certificate_name@), i) && *c
                            == certs@[i];
                    assert forall|j: int|
                        first_named(certs@, trimmed(inbound.tls.certificate_name@), j) implies j
                        == i by {
                        lemma_first_named_unique(
                            certs@,
                            trimmed(inbound.tls.certificate_name@),
                            i,
                            j,
                        );
                    }
                }
                c.acme_domain.clone()
            },
            None => String::new(),
        }
    } else {
        inbound.tls.server_name.clone()
    };
    TlsConfig {
        enabled: inbound_tls_enabled(protocol, inbound),
        server_name,
        certificate_name: inbound.tls.certificate_name.clone(),
    }
}

/// `c` holds the VLESS settings of inbound `i`.
pub open spec fn vless_inbound_of(
    c: VlessConfig,
    i: InboundEntryDraftView,
    protocol: Seq<char>,
    certs: Seq<CertificateDraft>,
) -> bool {
    &&& c.uuid@ == Seq::<char>::empty()
    &&& c.flow == i.vless.flow
    &&& c.security == security_mode_of(upper_trimmed(i.vless.security@))
    &&& c.transmission@ == transmission_of(upper_trimmed(i.vless.transmission@))
    &&& inbound_tls(c.tls, i, protocol, certs)
    &&& c.reality is Some
    &&& c.reality->Some_0.dest == i.vless.reality_dest
    &&& c.reality->Some_0.private_key == i.vless.reality_private_key
    &&& texts(c.reality->Some_0.short_id@) == short_ids_of(csv_entries(i.vless.reality_short_ids@))
    &&& c.reality->Some_0.public_key == i.vless.reality_public_key
    &&& c.reality->Some_0.sni == i.vless.reality_sni
    &&& c.reality->Some_0.utls == i.vless.reality_utls
    &&& c.reality->Some_0.spider_x == i.vless.reality_spider_x
}

/// `p` is what inbound `i` serves, with its settings: the section of the
/// protocol that `i`'s protocol normalises to on its core, VLESS for any
/// protocol without a section of its own.
pub open spec fn inbound_protocol_of(
    p: InboundProtocol,
    i: InboundEntryDraftView,
    certs: Seq<CertificateDraft>,
) -> bool {
    let np = normalized_protocol(i.core_type@, i.protocol@);
    if np == "HYSTERIA2"@ {
        &&& p is Hysteria2
        &&& p->Hysteria2_0.password == i.hysteria2.password
        &&& p->Hysteria2_0.obfs_type == i.hysteria2.obfs_type
        &&& p->Hysteria2_0.obfs_password == i.hysteria2.obfs_password
        &&& p->Hysteria2_0.up_mbps == i.hysteria2.up_mbps
        &&& p->Hysteria2_0.down_mbps == i.hysteria2.down_mbps
        &&& inbound_tls(p->Hysteria2_0.tls, i, np, certs)
        &&& p->Hysteria2_0.ignore_client_bandwidth == i.hysteria2.ignore_client_bandwidth
        &&& p->Hysteria2_0.masquerade == i.hysteria2.masquerade
        &&& p->Hysteria2_0.bbr_profile == i.hysteria2.bbr_profile
        &&& p->Hysteria2_0.brutal_debug == i.hysteria2.brutal_debug
    } else if np == "TRUSTTUNNEL"@ {
        &&& p is Trusttunnel
        &&& p->Trusttunnel_0.http1_upload_buffer_size == i.trust_tunnel.http1_upload_buffer_size
        &&& p->Trusttunnel_0.http2_initial_connection_window_size
            == i.trust_tunnel.http2_initial_connection_window_size
        &&& p->Trusttunnel_0.http2_initial_stream_window_size
            == i.trust_tunnel.http2_initial_stream_window_size
        &&& p->Trusttunnel_0.http2_max_concurrent_streams
            == i.trust_tunnel.http2_max_concurrent_streams
        &&& p->Trusttunnel_0.http2_max_frame_size == i.trust_tunnel.http2_max_frame_size
        &&& p->Trusttunnel_0.http2_header_table_size == i.trust_tunnel.http2_header_table_size
        &&& inbound_tls(p->Trusttunnel_0.tls, i, np, certs)
    } else if np == "NAIVEPROXY"@ {
        &&& p is Naiveproxy
        &&& p->Naiveproxy_0.network == i.naive_proxy.network
        &&& p->Naiveproxy_0.quic_congestion_control == i.naive_proxy.quic_congestion_control
        &&& inbound_tls(p->Naiveproxy_0.tls, i, np, certs)
    } else if np == "WIREGUARD"@ {
        &&& p is Wireguard
        &&& p->Wireguard_0.private_key == i.wireguard.private_key
        &&& p->Wireguard_0.workers == i.wireguard.workers
        &&& texts(p->Wireguard_0.addresses@) == csv_entries(i.wireguard.addresses@)
        &&& p->Wireguard_0.peers@.len() == 0
        &&& p->Wireguard_0.mtu == i.wireguard.mtu
        &&& p->Wireguard_0.reserved@.len() == 0
        &&& p->Wireguard_0.domain_strategy == i.wireguard.domain_strategy
    } else if np == "SOCKS5"@ {
        &&& p is Socks5
        &&& p->Socks5_0.username == i.socks5.username
        &&& p->Socks5_0.password == i.socks5.password
        &&& p->Socks5_0.udp_enabled == i.socks5.udp_enabled
    } else if np == "SHADOWSOCKS"@ {
        &&& p is Shadowsocks
        &&& p->Shadowsocks_0.method == i.shadowsocks.method
        &&& p->Shadowsocks_0.password == i.shadowsocks.password
        &&& p->Shadowsocks_0.udp_enabled == i.shadowsocks.udp_enabled
    } else if np == "REVERSEPROXY"@ {
        &&& p is Reverseproxy
        &&& p->Reverseproxy_0.mode == i.reverse_proxy.mode
        &&& p->Reverseproxy_0.tag == i.reverse_proxy.tag
        &&& p->Reverseproxy_0.domain == i.reverse_proxy.domain
        &&& p->Reverseproxy_0.bridge_outbound_tag == i.reverse_proxy.bridge_outbound_tag
        &&& p->Reverseproxy_0.target_outbound_tag == i.reverse_proxy.target_outbound_tag
        &&& p->Reverseproxy_0.portal_inbound_tag == i.reverse_proxy.portal_inbound_tag
    } else if np == "TPROXY"@ {
        &&& p is Tproxy
        &&& p->Tproxy_0.network == i.tproxy.network
        &&& p->Tproxy_0.sniffing_enabled == i.tproxy.sniffing_enabled
        &&& texts(p->Tproxy_0.sniffing_dest_override@) == csv_entries(
            i.tproxy.sniffing_dest_override@,
        )
        &&& p->Tproxy_0.sniffing_route_only == i.tproxy.sniffing_route_only
        &&& p->Tproxy_0.socket_mark == i.tproxy.socket_mark
    } else if np == "TROJAN"@ {
        &&& p is Trojan
        &&& p->Trojan_0.password == i.trojan.password
        &&& inbound_tls(p->Trojan_0.tls, i, np, certs)
        &&& p->Trojan_0.fallback == i.trojan.fallback
    } else if np == "TUNNEL"@ {
        p is Tunnel
    } else {
        p is Vless && vless_inbound_of(p->Vless_0, i, np, certs)
    }
}

fn vless_inbound(inbound: &InboundEntryDraft, protocol: &str, certs: &[CertificateDraft]) -> (r:
    VlessConfig)
    ensures
        vless_inbound_of(r, inbound@, protocol@, certs@),
{
    VlessConfig {
        uuid: String::new(),
        flow: inbound.vless.flow.clone(),
        security: security_from(inbound.vless.security.as_str()),
        transmission: vless_transmission_from(inbound.vless.transmission.as_str()),
        tls: Some(tls_for_inbound(inbound, protocol, certs)),
        reality: Some(
            VlessRealityConfig {
                dest: inbound.vless.reality_dest.clone(),
                private_key: inbound.vless.reality_private_key.clone(),
                short_id: normalize_reality_short_ids(inbound.vless.reality_short_ids.as_str()),
                public_key: inbound.vless.reality_public_key.clone(),
                sni: inbound.vless.reality_sni.clone(),
                utls: inbound.vless.reality_utls.clone(),
                spider_x: inbound.vless.reality_spider_x.clone(),
            },
        ),
    }
}

/// The protocol section of an inbound's configuration (see
/// `inbound_protocol_of`).
pub fn inbound_protocol(inbound: &InboundEntryDraft, certs: &[CertificateDraft]) -> (r:
    InboundProtocol)
    ensures
        inbound_protocol_of(r, inbound@, certs@),
{
    let np = normalize_protocol_for_core(inbound.core_type.as_str(), inbound.protocol.as_str());
    let p = np.as_str();
    if eq_str(p, "HYSTERIA2") {
        let h = &inbound.hysteria2;
        InboundProtocol::Hysteria2(
            Hysteria2Config {
                password: h.password.clone(),
                obfs_type: h.obfs_type.clone(),
                obfs_password: h.obfs_password.clone(),
                up_mbps: h.up_mbps,
                down_mbps: h.down_mbps,
                tls: Some(tls_for_inbound(inbound, p, certs)),
                ignore_client_bandwidth: h.ignore_client_bandwidth,
                masquerade: h.masquerade.clone(),
                bbr_profile: h.bbr_profile.clone(),
                brutal_debug: h.brutal_debug,
            },
        )
    } else if eq_str(p, "TRUSTTUNNEL") {
        let t = &inbound.trust_tunnel;
        InboundProtocol::Trusttunnel(
            TrustTunnelConfig {
                http1_upload_buffer_size: t.http1_upload_buffer_size,
                http2_initial_connection_window_size: t.http2_initial_connection_window_size,
                http2_initial_stream_window_size: t.http2_initial_stream_window_size,
                http2_max_concurrent_streams: t.http2_max_concurrent_streams,
                http2_max_frame_size: t.http2_max_frame_size,
                http2_header_table_size: t.http2_header_table_size,
                tls: Some(tls_for_inbound(inbound, p, certs)),
            },
        )
    } else if eq_str(p, "NAIVEPROXY") {
        InboundProtocol::Naiveproxy(
            NaiveProxyConfig {
                network: inbound.naive_proxy.network.clone(),
                quic_congestion_control: inbound.naive_proxy.quic_congestion_control.clone(),
                tls: Some(tls_for_inbound(inbound, p, certs)),
            },
        )
    } else if eq_str(p, "WIREGUARD") {
        let w = &inbound.wireguard;
        InboundProtocol::Wireguard(
            WireGuardConfig {
                private_key: w.private_key.clone(),
                workers: w.workers,
                addresses: split_lines_csv(w.addresses.as_str()),
                peers: Vec::new(),
                mtu: w.mtu,
                reserved: Vec::new(),
                domain_strategy: w.domain_strategy.clone(),
            },
        )
    } else if eq_str(p, "SOCKS5") {
        InboundProtocol::Socks5(
            Socks5InboundConfig {
                username: inbound.socks5.username.clone(),
                password: inbound.socks5.password.clone(),
                udp_enabled: inbound.socks5.udp_enabled,
            },
        )
    } else if eq_str(p, "SHADOWSOCKS") {
        InboundProtocol::Shadowsocks(
            ShadowsocksInboundConfig {
                method: inbound.shadowsocks.method.clone(),
                password: inbound.shadowsocks.password.clone(),
                udp_enabled: inbound.shadowsocks.udp_enabled,
            },
        )
    } else if eq_str(p, "REVERSEPROXY") {
        let r = &inbound.reverse_proxy;
        InboundProtocol::Reverseproxy(
            ReverseProxyConfig {
                mode: r.mode.clone(),
                tag: r.tag.clone(),
                domain: r.domain.clone(),
                bridge_outbound_tag: r.bridge_outbound_tag.clone(),
                target_outbound_tag: r.target_outbound_tag.clone(),
                portal_inbound_tag: r.portal_inbound_tag.clone(),
            },
        )
    } else if eq_str(p, "TPROXY") {
        let t = &inbound.tproxy;
        InboundProtocol::Tproxy(
            TProxyConfig {
                network: t.network.clone(),
                sniffing_enabled: t.sniffing_enabled,
                sniffing_dest_override: split_lines_csv(t.sniffing_dest_override.as_str()),
                sniffing_route_only: t.sniffing_route_only,
                socket_mark: t.socket_mark,
            },
        )
    } else if eq_str(p, "TROJAN") {
        InboundProtocol::Trojan(
            TrojanInboundConfig {
                password: inbound.trojan.password.clone(),
                tls: Some(tls_for_inbound(inbound, p, certs)),
                fallback: inbound.trojan.fallback.clone(),
            },
        )
    } else if eq_str(p, "TUNNEL") {
        InboundProtocol::Tunnel
    } else {
        InboundProtocol::Vless(vless_inbound(inbound, p, certs))
    }
}


/// `c` is the configuration of inbound `i`, serving the accounts `accounts`.
pub open spec fn inbound_config_of(
    c: InboundConfig,
    i: InboundEntryDraftView,
    certs: Seq<CertificateDraft>,
    accounts: Seq<AccountView>,
) -> bool {
    &&& c.name == i.name
    &&& c.listen == i.listen
    &&& c.port == i.port
    &&& account_views(c.accounts@) == accounts
    &&& c.enabled == i.enabled
    &&& c.core == core_type_of(upper_trimmed(i.core_type@))
    &&& c.protocol is Some
    &&& inbound_protocol_of(c.protocol->Some_0, i, certs)
}

/// The configuration of an inbound (see `inbound_config_of`).
pub fn inbound_config(
    inbound: &InboundEntryDraft,
    certs: &[CertificateDraft],
    accounts: &Vec<Account>,
) -> (r: InboundConfig)
    ensures
        inbound_config_of(r, inbound@, certs@, account_views(accounts@)),
{
    InboundConfig {
        name: inbound.name.clone(),
        listen: inbound.listen.clone(),
        port: inbound.port,
        accounts: copy_accounts(accounts),
        enabled: inbound.enabled,
        core: core_from(inbound.core_type.as_str()),
        protocol: Some(inbound_protocol(inbound, certs)),
    }
}

/// `c` is the inbound that serves reverse proxy `r`: named after its tag,
/// on the Xray core, with no address, port or accounts of its own.
pub open spec fn reverse_proxy_inbound_of(c: InboundConfig, r: ReverseProxyDraft) -> bool {
    &&& c.name == r.tag
    &&& c.listen@ == Seq::<char>::empty()
    &&& c.port == 0
    &&& c.accounts@.len() == 0
    &&& c.enabled
    &&& c.core == CoreType::Xray
    &&& c.protocol is Some
    &&& c.protocol->Some_0 is Reverseproxy
    &&& c.protocol->Some_0->Reverseproxy_0.mode == r.mode
    &&& c.protocol->Some_0->Reverseproxy_0.tag == r.tag
    &&& c.protocol->Some_0->Reverseproxy_0.domain == r.domain
    &&& c.protocol->Some_0->Reverseproxy_0.bridge_outbound_tag == r.bridge_outbound_tag
    &&& c.protocol->Some_0->Reverseproxy_0.target_outbound_tag == r.target_outbound_tag
    &&& c.protocol->Some_0->Reverseproxy_0.portal_inbound_tag == r.portal_inbound_tag
}

/// The inbound that serves a reverse proxy (see `reverse_proxy_inbound_of`).
pub fn reverse_proxy_inbound(r: &ReverseProxyDraft) -> (c: InboundConfig)
    ensures
        reverse_proxy_inbound_of(c, *r),
{
    InboundConfig {
        name: r.tag.clone(),
        listen: String::new(),
        port: 0,
        accounts: Vec::new(),
        enabled: true,
        core: CoreType::Xray,
        protocol: Some(
            InboundProtocol::Reverseproxy(
                ReverseProxyConfig {
                    mode: r.mode.clone(),
                    tag: r.tag.clone(),
                    domain: r.domain.clone(),
                    bridge_outbound_tag: r.bridge_outbound_tag.clone(),
                    target_outbound_tag: r.target_outbound_tag.clone(),
                    portal_inbound_tag: r.portal_inbound_tag.clone(),
                },
            ),
        ),
    }
}

/// The reverse proxies that are enabled, in order.
pub open spec fn enabled_reverse_proxies(rs: Seq<ReverseProxyDraft>) -> Seq<ReverseProxyDraft>
    decreases rs.len(),
{
    if rs.len() == 0 {
        Seq::empty()
    } else {
        let p = enabled_reverse_proxies(rs.drop_last());
        if rs.last().enabled {
            p.push(rs.last())
        } else {
            p
        }
    }
}

/// `c` is the configuration of certificate `d`: issued through ACME when
/// its type is `ACME` in any case, given as PEM texts otherwise.
pub open spec fn certificate_config_of(c: CertificateConfig, d: CertificateDraft) -> bool {
    &&& c.name == d.name
    &&& c.kind is Some
    &&& if eq_ascii_ci(d.cert_type@, "ACME"@) {
        &&& c.kind->Some_0 is Acme
        &&& c.kind->Some_0->Acme_0.acme_type == d.acme_type
        &&& c.kind->Some_0->Acme_0.acme_ca == d.acme_ca
        &&& c.kind->Some_0->Acme_0.acme_email == d.acme_email
        &&& c.kind->Some_0->Acme_0.acme_domain == d.acme_domain
        &&& c.kind->Some_0->Acme_0.acme_port == d.acme_port
        &&& c.kind->Some_0->Acme_0.acme_http_port == d.acme_http_port
    } else {
        &&& c.kind->Some_0 is Custom
        &&& c.kind->Some_0->Custom_0.certificate_pem == d.certificate_pem
        &&& c.kind->Some_0->Custom_0.key_pem == d.key_pem
    }
}

/// The configuration of a certificate (see `certificate_config_of`).
pub fn certificate_config(d: &CertificateDraft) -> (c: CertificateConfig)
    ensures
        certificate_config_of(c, *d),
{
    let kind = if eq_ignore_ascii_case(d.cert_type.as_str(), "ACME") {
        CertificateKind::Acme(
            AcmeCertificateConfig {
                acme_type: d.acme_type.clone(),
                acme_ca: d.acme_ca.clone(),
                acme_email: d.acme_email.clone(),
                acme_domain: d.acme_domain.clone(),
                acme_port: d.acme_port,
                acme_http_port: d.acme_http_port,
            },
        )
    } else {
        CertificateKind::Custom(
            CustomCertificateConfig {
                certificate_pem: d.certificate_pem.clone(),
                key_pem: d.key_pem.clone(),
            },
        )
    };
    CertificateConfig { name: d.name.clone(), kind: Some(kind) }
}

/// True when some outbound of `outs` has the tag `t`.
pub open spec fn tag_listed(outs: Seq<OutboundConfig>, t: Seq<char>) -> bool {
    exists|k: int| 0 <= k < outs.len() && (#[trigger] outs[k]).tag@ == t
}

/// `c` is routing rule `r`: its lists split into entries, sending to its
/// outbound when one of `outs` has that tag, to `block` otherwise.
pub open spec fn routing_rule_of(c: RoutingRule, r: RoutingRuleDraft, outs: Seq<OutboundConfig>) -> bool {
    &&& texts(c.domain@) == csv_entries(r.domain@)
    &&& texts(c.ip@) == csv_entries(r.ip@)
    &&& texts(c.port@) == csv_entries(r.port@)
    &&& texts(c.transport@) == csv_entries(r.transport@)
    &&& texts(c.protocol@) == csv_entries(r.protocol@)
    &&& c.outbound_tag@ == if tag_listed(outs, r.outbound_tag@) {
        r.outbound_tag@
    } else {
        "block"@
    }
    &&& texts(c.inbound_tag@) == csv_entries(r.inbound_tag@)
    &&& texts(c.user@) == csv_entries(r.user@)
}

/// True when `outs` has an outbound tagged `t`.
fn has_tag(outs: &Vec<OutboundConfig>, t: &str) -> (r: bool)
    ensures
        r == tag_listed(outs@, t@),
{
    let mut i: usize = 0;
    while i < outs.len()
        invariant
            i <= outs@.len(),
            forall|k: int| 0 <= k < i ==> (#[trigger] outs@[k]).tag@ != t@,
        decreases outs@.len() - i,
    {
        if eq_str(outs[i].tag.as_str(), t) {
            return true;
        }
        i = i + 1;
    }
    false
}

/// The configuration of a routing rule (see `routing_rule_of`).
pub fn routing_rule(r: &RoutingRuleDraft, outs: &Vec<OutboundConfig>) -> (c: RoutingRule)
    ensures
        routing_rule_of(c, *r, outs@),
{
    let outbound_tag = if has_tag(outs, r.outbound_tag.as_str()) {
        r.outbound_tag.clone()
    } else {
        copy_str("block")
    };
    RoutingRule {
        domain: split_lines_csv(r.domain.as_str()),
        ip: split_lines_csv(r.ip.as_str()),
        port: split_lines_csv(r.port.as_str()),
        transport: split_lines_csv(r.transport.as_str()),
        protocol: split_lines_csv(r.protocol.as_str()),
        outbound_tag,
        inbound_tag: split_lines_csv(r.inbound_tag.as_str()),
        user: split_lines_csv(r.user.as_str()),
    }
}

/// `cs` are the rules `rs` that name an outbound, each as `routing_rule_of`
/// says.
pub open spec fn routing_rules_of(
    cs: Seq<RoutingRule>,
    rs: Seq<RoutingRuleDraft>,
    outs: Seq<OutboundConfig>,
) -> bool
    decreases rs.len(),
{
    if rs.len() == 0 {
        cs.len() == 0
    } else if trimmed(rs.last().outbound_tag@).len() > 0 {
        &&& cs.len() > 0
        &&& routing_rule_of(cs.last(), rs.last(), outs)
        &&& routing_rules_of(cs.drop_last(), rs.drop_last(), outs)
    } else {
        routing_rules_of(cs, rs.drop_last(), outs)
    }
}


/// The peers that go into a WireGuard outbound: those with a public key.
pub open spec fn kept_peers(ps: Seq<WireGuardPeerItem>) -> Seq<WireGuardPeerItem>
    decreases ps.len(),
{
    if ps.len() == 0 {
        Seq::empty()
    } else {
        let p = kept_peers(ps.drop_last());
        if trimmed(ps.last().public_key@).len() > 0 {
            p.push(ps.last())
        } else {
            p
        }
    }
}

/// The addresses a peer is allowed: its entries, or every address when it
/// lists none.
pub open spec fn peer_allowed_ips(p: WireGuardPeerItem) -> Seq<Seq<char>> {
    if csv_entries(p.allowed_ips@).len() == 0 {
        seq!["0.0.0.0/0"@, "::/0"@]
    } else {
        csv_entries(p.allowed_ips@)
    }
}

/// `c` is the configuration of peer `p`.
pub open spec fn peer_of(c: WireGuardPeer, p: WireGuardPeerItem) -> bool {
    &&& c.public_key == p.public_key
    &&& c.endpoint == p.endpoint
    &&& texts(c.allowed_ips@) == peer_allowed_ips(p)
    &&& c.reserved@.len() == 0
    &&& c.keepalive == 0
    &&& c.pre_shared_key@ == Seq::<char>::empty()
}

/// `cs` configure the peers `ps`, one for one.
pub open spec fn peers_of(cs: Seq<WireGuardPeer>, ps: Seq<WireGuardPeerItem>) -> bool {
    &&& cs.len() == ps.len()
    &&& forall|k: int| 0 <= k < cs.len() ==> peer_of(#[trigger] cs[k], ps[k])
}

/// The reserved bytes of a WireGuard outbound: the entries that read as
/// 32-bit numbers.
pub open spec fn reserved_values(es: Seq<Seq<char>>) -> Seq<u32>
    decreases es.len(),
{
    if es.len() == 0 {
        Seq::empty()
    } else {
        let p = reserved_values(es.drop_last());
        match parsed_unsigned(es.last(), 4294967295) {
            Some(v) => p.push(v as u32),
            None => p,
        }
    }
}

fn peers_config(ps: &Vec<WireGuardPeerItem>) -> (r: Vec<WireGuardPeer>)
    ensures
        peers_of(r@, kept_peers(ps@)),
{
    let mut out: Vec<WireGuardPeer> = Vec::new();
    let mut i: usize = 0;
    proof {
        reveal_strlit("0.0.0.0/0");
        reveal_strlit("::/0");
    }
    while i < ps.len()
        invariant
            i <= ps@.len(),
            peers_of(out@, kept_peers(ps@.take(i as int))),
        decreases ps@.len() - i,
    {
        let p = &ps[i];
        proof {
            assert(ps@.take(i + 1).drop_last() =~= ps@.take(i as int));
            assert(ps@.take(i + 1).last() == ps@[i as int]);
        }
        if !is_blank(p.public_key.as_str()) {
            let listed = split_lines_csv(p.allowed_ips.as_str());
            let allowed = if listed.len() == 0 {
                let mut v: Vec<String> = Vec::new();
                v.push(copy_str("0.0.0.0/0"));
                v.push(copy_str("::/0"));
                assert(texts(v@) =~= seq!["0.0.0.0/0"@, "::/0"@]);
                v
            } else {
                listed
            };
            let ghost before = out@;
            out.push(
                WireGuardPeer {
                    public_key: p.public_key.clone(),
                    endpoint: p.endpoint.clone(),
                    allowed_ips: allowed,
                    reserved: Vec::new(),
                    keepalive: 0,
                    pre_shared_key: String::new(),
                },
            );
            proof {
                let kp = kept_peers(ps@.take(i + 1));
                assert(kp == kept_peers(ps@.take(i as int)).push(ps@[i as int]));
                assert forall|k: int| 0 <= k < out@.len() implies peer_of(
                    #[trigger] out@[k],
                    kp[k],
                ) by {
                    if k < before.len() {
                        assert(out@[k] == before[k]);
                    }
                }
            }
        }
        i = i + 1;
    }
    assert(ps@.take(ps@.len() as int) =~= ps@);
    out
}

fn reserved_config(value: &str) -> (r: Vec<u32>)
    ensures
        r@ == reserved_values(csv_entries(value@)),
{
    let entries = split_lines_csv(value);
    let ghost es = texts(entries@);
    let mut out: Vec<u32> = Vec::new();
    let mut i: usize = 0;
    while i < entries.len()
        invariant
            es == texts(entries@),
            es == csv_entries(value@),
            i <= entries@.len(),
            out@ == reserved_values(es.take(i as int)),
        decreases entries@.len() - i,
    {
        proof {
            assert(es.take(i + 1).drop_last() =~= es.take(i as int));
            assert(es.take(i + 1).last() == entries@[i as int]@);
        }
        let cs = chars_of(entries[i].as_str());
        match parse_unsigned(&cs, 4294967295) {
            Some(v) => {
                out.push(v);
            },
            None => {},
        }
        i = i + 1;
    }
    assert(es.take(entries@.len() as int) =~= es);
    out
}

/// The kind of an outbound, trimmed and upper-cased.
pub open spec fn kind_word(o: OutboundEntryDraftView) -> Seq<char> {
    upper_trimmed(o.outbound_type@)
}

/// True when an outbound goes into the configuration: it is enabled (a
/// block outbound always counts as enabled), of a kind the node runs, and
/// has the name or tag that its kind is known by.
pub open spec fn outbound_included(o: OutboundEntryDraftView) -> bool {
    let k = kind_word(o);
    &&& (o.enabled || k == "BLOCK"@)
    &&& if k == "DIRECT"@ || k == "BLOCK"@ {
        trimmed(o.name@).len() > 0
    } else if k == "VLESS"@ {
        trimmed(o.vless.tag@).len() > 0
    } else if k == "TRUSTTUNNEL"@ {
        trimmed(o.trust_tunnel.tag@).len() > 0
    } else if k == "WIREGUARD"@ {
        trimmed(o.name@).len() > 0
    } else if k == "SOCKS5"@ {
        trimmed(o.socks5.tag@).len() > 0
    } else if k == "SHADOWSOCKS"@ {
        trimmed(o.shadowsocks.tag@).len() > 0
    } else if k == "TROJAN"@ {
        trimmed(o.trojan.tag@).len() > 0
    } else {
        false
    }
}

/// `c` is the configuration of an included outbound `o`. A VLESS outbound
/// without a UUID gets a freshly generated one.
pub open spec fn outbound_config_of(c: OutboundConfig, o: OutboundEntryDraftView) -> bool {
    let k = kind_word(o);
    if k == "DIRECT"@ {
        c.tag == o.name && c.kind == OutboundKind::Direct && c.settings is None
    } else if k == "BLOCK"@ {
        c.tag == o.name && c.kind == OutboundKind::Block && c.settings is None
    } else if k == "VLESS"@ {
        &&& c.tag == o.vless.tag
        &&& c.kind == OutboundKind::Vless
        &&& c.settings matches Some(OutboundSettings::Vless(v))
        &&& v.server == o.vless.server
        &&& v.port == o.vless.port
        &&& if trimmed(o.vless.uuid@).len() == 0 {
            is_uuid_text(v.uuid@)
        } else {
            v.uuid == o.vless.uuid
        }
        &&& v.flow == o.vless.flow
        &&& v.security == security_mode_of(upper_trimmed(o.vless.security@))
        &&& v.transmission@ == transmission_of(upper_trimmed(o.vless.transmission@))
    } else if k == "TRUSTTUNNEL"@ {
        &&& c.tag == o.trust_tunnel.tag
        &&& c.kind == OutboundKind::Trusttunnel
        &&& c.settings matches Some(OutboundSettings::Trusttunnel(t))
        &&& t.http1_upload_buffer_size == o.trust_tunnel.http1_upload_buffer_size
        &&& t.http2_initial_connection_window_size
            == o.trust_tunnel.http2_initial_connection_window_size
        &&& t.http2_initial_stream_window_size == o.trust_tunnel.http2_initial_stream_window_size
        &&& t.http2_max_concurrent_streams == o.trust_tunnel.http2_max_concurrent_streams
        &&& t.http2_max_frame_size == o.trust_tunnel.http2_max_frame_size
        &&& t.http2_header_table_size == o.trust_tunnel.http2_header_table_size
        &&& t.tls is None
    } else if k == "WIREGUARD"@ {
        &&& c.tag == o.name
        &&& c.kind == OutboundKind::Wireguard
        &&& c.settings matches Some(OutboundSettings::Wireguard(w))
        &&& w.private_key == o.wireguard.private_key
        &&& texts(w.addresses@) == csv_entries(o.wireguard.addresses@)
        &&& peers_of(w.peers@, kept_peers(o.wireguard.peers))
        &&& w.mtu == o.wireguard.mtu
        &&& w.workers == o.wireguard.workers
        &&& w.reserved@ == reserved_values(csv_entries(o.wireguard.reserved@))
        &&& w.domain_strategy == o.wireguard.domain_strategy
    } else if k == "SOCKS5"@ {
        &&& c.tag == o.socks5.tag
        &&& c.kind == OutboundKind::Socks5
        &&& c.settings matches Some(OutboundSettings::Socks5(x))
        &&& x.server == o.socks5.server
        &&& x.port == o.socks5.port
        &&& x.username == o.socks5.username
        &&& x.password == o.socks5.password
    } else if k == "SHADOWSOCKS"@ {
        &&& c.tag == o.shadowsocks.tag
        &&& c.kind == OutboundKind::Shadowsocks
        &&& c.settings matches Some(OutboundSettings::Shadowsocks(x))
        &&& x.server == o.shadowsocks.server
        &&& x.port == o.shadowsocks.port
        &&& x.method == o.shadowsocks.method
        &&& x.password == o.shadowsocks.password
        &&& x.plugin == o.shadowsocks.plugin
        &&& x.plugin_opts == o.shadowsocks.plugin_opts
        &&& x.prefix == o.shadowsocks.prefix
        &&& x.udp_enabled == o.shadowsocks.udp_enabled
    } else {
        &&& c.tag == o.trojan.tag
        &&& c.kind == OutboundKind::Trojan
        &&& c.settings matches Some(OutboundSettings::Trojan(x))
        &&& x.server == o.trojan.server
        &&& x.port == o.trojan.port
        &&& x.password == o.trojan.password
        &&& x.tls_enabled == o.trojan.tls_enabled
        &&& x.sni == o.trojan.sni
    }
}

/// The configuration of an outbound, when it goes into the configuration
/// (see `outbound_included` and `outbound_config_of`).
pub fn outbound_config(o: &OutboundEntryDraft) -> (r: Option<OutboundConfig>)
    ensures
        match r {
            Some(c) => outbound_included(o@) && outbound_config_of(c, o@),
            None => !outbound_included(o@),
        },
{
    let kind = trim_upper(o.outbound_type.as_str());
    let k = kind.as_str();
    if !o.enabled && !eq_str(k, "BLOCK") {
        return None;
    }
    if eq_str(k, "DIRECT") {
        if is_blank(o.name.as_str()) {
            None
        } else {
            Some(OutboundConfig { tag: o.name.clone(), kind: OutboundKind::Direct, settings: None })
        }
    } else if eq_str(k, "BLOCK") {
        if is_blank(o.name.as_str()) {
            None
        } else {
            Some(OutboundConfig { tag: o.name.clone(), kind: OutboundKind::Block, settings: None })
        }
    } else if eq_str(k, "VLESS") {
        if is_blank(o.vless.tag.as_str()) {
            None
        } else {
            let uuid = if is_blank(o.vless.uuid.as_str()) {
                new_entry_id()
            } else {
                o.vless.uuid.clone()
            };
            Some(
                OutboundConfig {
                    tag: o.vless.tag.clone(),
                    kind: OutboundKind::Vless,
                    settings: Some(
                        OutboundSettings::Vless(
                            VlessOutboundConfig {
                                server: o.vless.server.clone(),
                                port: o.vless.port,
                                uuid,
                                flow: o.vless.flow.clone(),
                                security: security_from(o.vless.security.as_str()),
                                transmission: vless_transmission_from(
                                    o.vless.transmission.as_str(),
                                ),
                            },
                        ),
                    ),
                },
            )
        }
    } else if eq_str(k, "TRUSTTUNNEL") {
        if is_blank(o.trust_tunnel.tag.as_str()) {
            None
        } else {
            let t = &o.trust_tunnel;
            Some(
                OutboundConfig {
                    tag: t.tag.clone(),
                    kind: OutboundKind::Trusttunnel,
                    settings: Some(
                        OutboundSettings::Trusttunnel(
                            TrustTunnelConfig {
                                http1_upload_buffer_size: t.http1_upload_buffer_size,
                                http2_initial_connection_window_size:
                                    t.http2_initial_connection_window_size,
                                http2_initial_stream_window_size:
                                    t.http2_initial_stream_window_size,
                                http2_max_concurrent_streams: t.http2_max_concurrent_streams,
                                http2_max_frame_size: t.http2_max_frame_size,
                                http2_header_table_size: t.http2_header_table_size,
                                tls: None,
                            },
                        ),
                    ),
                },
            )
        }
    } else if eq_str(k, "WIREGUARD") {
        if is_blank(o.name.as_str()) {
            None
        } else {
            let w = &o.wireguard;
            Some(
                OutboundConfig {
                    tag: o.name.clone(),
                    kind: OutboundKind::Wireguard,
                    settings: Some(
                        OutboundSettings::Wireguard(
                            WireGuardConfig {
                                private_key: w.private_key.clone(),
                                workers: w.workers,
                                addresses: split_lines_csv(w.addresses.as_str()),
                                peers: peers_config(&w.peers),
                                mtu: w.mtu,
                                reserved: reserved_config(w.reserved.as_str()),
                                domain_strategy: w.domain_strategy.clone(),
                            },
                        ),
                    ),
                },
            )
        }
    } else if eq_str(k, "SOCKS5") {
        if is_blank(o.socks5.tag.as_str()) {
            None
        } else {
            let x = &o.socks5;
            Some(
                OutboundConfig {
                    tag: x.tag.clone(),
                    kind: OutboundKind::Socks5,
                    settings: Some(
                        OutboundSettings::Socks5(
                            Socks5OutboundConfig {
                                server: x.server.clone(),
                                port: x.port,
                                username: x.username.clone(),
                                password: x.password.clone(),
                            },
                        ),
                    ),
                },
            )
        }
    } else if eq_str(k, "SHADOWSOCKS") {
        if is_blank(o.shadowsocks.tag.as_str()) {
            None
        } else {
            let x = &o.shadowsocks;
            Some(
                OutboundConfig {
                    tag: x.tag.clone(),
                    kind: OutboundKind::Shadowsocks,
                    settings: Some(
                        OutboundSettings::Shadowsocks(
                            ShadowsocksOutboundConfig {
                                server: x.server.clone(),
                                port: x.port,
                                method: x.method.clone(),
                                password: x.password.clone(),
                                plugin: x.plugin.clone(),
                                plugin_opts: x.plugin_opts.clone(),
                                prefix: x.prefix.clone(),
                                udp_enabled: x.udp_enabled,
                            },
                        ),
                    ),
                },
            )
        }
    } else if eq_str(k, "TROJAN") {
        if is_blank(o.trojan.tag.as_str()) {
            None
        } else {
            let x = &o.trojan;
            Some(
                OutboundConfig {
                    tag: x.tag.clone(),
                    kind: OutboundKind::Trojan,
                    settings: Some(
                        OutboundSettings::Trojan(
                            TrojanOutboundConfig {
                                server: x.server.clone(),
                                port: x.port,
                                password: x.password.clone(),
                                tls_enabled: x.tls_enabled,
                                sni: x.sni.clone(),
                            },
                        ),
                    ),
                },
            )
        }
    } else {
        None
    }
}

/// `cs` configure the included outbounds of `os`, in order.
pub open spec fn outbound_configs(cs: Seq<OutboundConfig>, os: Seq<OutboundEntryDraftView>) -> bool
    decreases os.len(),
{
    if os.len() == 0 {
        cs.len() == 0
    } else if outbound_included(os.last()) {
        &&& cs.len() > 0
        &&& outbound_config_of(cs.last(), os.last())
        &&& outbound_configs(cs.drop_last(), os.drop_last())
    } else {
        outbound_configs(cs, os.drop_last())
    }
}


/// `c` is the configuration built from `draft`, whose canonical form is `n`,
/// for `node` and the known `accounts`:
/// - the draft's master key and link remark template;
/// - the accounts that may use the node (see `served_accounts`), each
///   served by every inbound;
/// - an inbound for each canonical inbound, then one for each enabled
///   reverse proxy;
/// - the draft's certificates;
/// - the included outbounds (see `outbound_included`);
/// - the routing rules that name an outbound, sent to `block` when no
///   outbound has that tag;
/// - the DNS section, when it sets anything.
pub open spec fn full_config_of(
    c: FullConfig,
    draft: NodeConfigDraft,
    n: NodeConfigDraftView,
    node: ProxyNodeView,
    accounts: Seq<AccountInfo>,
) -> bool {
    let accts = account_views(c.accounts@);
    let rps = enabled_reverse_proxies(n.reverse_proxies);
    let ni = n.inbounds.len();
    &&& c.master_key == draft.master_key
    &&& account_records(accts, served_accounts(accounts, node))
    &&& c.inbounds@.len() == ni + rps.len()
    &&& forall|k: int|
        0 <= k < ni ==> inbound_config_of(
            #[trigger] c.inbounds@[k],
            n.inbounds[k],
            draft.certificates@,
            accts,
        )
    &&& forall|k: int|
        ni <= k < c.inbounds@.len() ==> reverse_proxy_inbound_of(
            #[trigger] c.inbounds@[k],
            rps[k - ni],
        )
    &&& c.certificates@.len() == draft.certificates@.len()
    &&& forall|k: int|
        0 <= k < c.certificates@.len() ==> certificate_config_of(
            #[trigger] c.certificates@[k],
            draft.certificates@[k],
        )
    &&& outbound_configs(c.outbounds@, n.outbounds)
    &&& routing_rules_of(c.routing_rules@, n.routing_rules, c.outbounds@)
    &&& match c.dns {
        Some(d) => d@ == dns_section(draft.dns) && !dns_section_unset(d@),
        None => dns_section_unset(dns_section(draft.dns)),
    }
    &&& c.link_remark_template == draft.link_remark_template
}

/// Builds the configuration that is deployed to `node` from the editor's
/// draft, for the known `accounts` (see `full_config_of`).
pub fn build_full_config(draft: &NodeConfigDraft, node: &ProxyNode, accounts: &[AccountInfo]) -> (r:
    FullConfig)
    ensures
        exists|n: NodeConfigDraftView|
            synced(draft@, n) && full_config_of(r, *draft, n, node@, accounts@),
{
    let certificates = normalized_certificates(draft);
    let accts = node_accounts(accounts, node);
    let mut copy = draft.duplicate();
    sync_draft(&mut copy);
    let ghost n = copy@;
    assert(forall|k: int| 0 <= k < copy.inbounds@.len() ==> n.inbounds[k] == #[trigger] copy.inbounds@[k]@);
    assert(outbound_views(copy.outbounds@) =~= n.outbounds);

    let mut inbounds: Vec<InboundConfig> = Vec::new();
    let mut i: usize = 0;
    while i < copy.inbounds.len()
        invariant
            n == copy@,
            certificates@ == draft.certificates@,
            i <= copy.inbounds@.len(),
            inbounds@.len() == i,
            forall|k: int| 0 <= k < copy.inbounds@.len() ==> n.inbounds[k] == #[trigger] copy.inbounds@[k]@,
            forall|k: int|
                0 <= k < i ==> inbound_config_of(
                    #[trigger] inbounds@[k],
                    n.inbounds[k],
                    draft.certificates@,
                    account_views(accts@),
                ),
        decreases copy.inbounds@.len() - i,
    {
        let c = inbound_config(&copy.inbounds[i], certificates.as_slice(), &accts);
        inbounds.push(c);
        i = i + 1;
    }
    let ni = inbounds.len();
    let mut j: usize = 0;
    while j < copy.reverse_proxies.len()
        invariant
            n == copy@,
            ni == n.inbounds.len(),
            j <= n.reverse_proxies.len(),
            inbounds@.len() == ni + enabled_reverse_proxies(n.reverse_proxies.take(j as int)).len(),
            forall|k: int|
                0 <= k < ni ==> inbound_config_of(
                    #[trigger] inbounds@[k],
                    n.inbounds[k],
                    draft.certificates@,
                    account_views(accts@),
                ),
            forall|k: int|
                ni <= k < inbounds@.len() ==> reverse_proxy_inbound_of(
                    #[trigger] inbounds@[k],
                    enabled_reverse_proxies(n.reverse_proxies.take(j as int))[k - ni],
                ),
        decreases n.reverse_proxies.len() - j,
    {
        let ghost before = inbounds@;
        let rp = &copy.reverse_proxies[j];
        proof {
            assert(n.reverse_proxies.take(j + 1).drop_last() =~= n.reverse_proxies.take(j as int));
            assert(n.reverse_proxies.take(j + 1).last() == n.reverse_proxies[j as int]);
        }
        if rp.enabled {
            inbounds.push(reverse_proxy_inbound(rp));
            proof {
                let e = enabled_reverse_proxies(n.reverse_proxies.take(j + 1));
                assert(e == enabled_reverse_proxies(n.reverse_proxies.take(j as int)).push(*rp));
                assert forall|k: int| ni <= k < inbounds@.len() implies reverse_proxy_inbound_of(
                    #[trigger] inbounds@[k],
                    e[k - ni],
                ) by {
                    if k < before.len() {
                        assert(inbounds@[k] == before[k]);
                    }
                }
                assert forall|k: int| 0 <= k < ni implies inbound_config_of(
                    #[trigger] inbounds@[k],
                    n.inbounds[k],
                    draft.certificates@,
                    account_views(accts@),
                ) by {
                    assert(inbounds@[k] == before[k]);
                }
            }
        }
        j = j + 1;
    }
    proof {
        assert(n.reverse_proxies.take(n.reverse_proxies.len() as int) =~= n.reverse_proxies);
    }

    let mut outbounds: Vec<OutboundConfig> = Vec::new();
    let mut k: usize = 0;
    while k < copy.outbounds.len()
        invariant
            n == copy@,
            n.outbounds == outbound_views(copy.outbounds@),
            k <= copy.outbounds@.len(),
            outbound_configs(outbounds@, n.outbounds.take(k as int)),
        decreases copy.outbounds@.len() - k,
    {
        proof {
            assert(n.outbounds.take(k + 1).drop_last() =~= n.outbounds.take(k as int));
            assert(n.outbounds.take(k + 1).last() == copy.outbounds@[k as int]@);
        }
        let ghost before = outbounds@;
        match outbound_config(&copy.outbounds[k]) {
            Some(c) => {
                outbounds.push(c);
                assert(outbounds@.drop_last() =~= before);
            },
            None => {},
        }
        k = k + 1;
    }
    proof {
        assert(n.outbounds.take(n.outbounds.len() as int) =~= n.outbounds);
    }

    let mut cert_configs: Vec<CertificateConfig> = Vec::new();
    let mut m: usize = 0;
    while m < certificates.len()
        invariant
            certificates@ == draft.certificates@,
            m <= certificates@.len(),
            cert_configs@.len() == m,
            forall|q: int|
                0 <= q < m ==> certificate_config_of(
                    #[trigger] cert_configs@[q],
                    draft.certificates@[q],
                ),
        decreases certificates@.len() - m,
    {
        cert_configs.push(certificate_config(&certificates[m]));
        m = m + 1;
    }

    let mut rules: Vec<RoutingRule> = Vec::new();
    let mut q: usize = 0;
    while q < copy.routing_rules.len()
        invariant
            n == copy@,
            q <= n.routing_rules.len(),
            routing_rules_of(rules@, n.routing_rules.take(q as int), outbounds@),
        decreases n.routing_rules.len() - q,
    {
        let rule = &copy.routing_rules[q];
        proof {
            assert(n.routing_rules.take(q + 1).drop_last() =~= n.routing_rules.take(q as int));
            assert(n.routing_rules.take(q + 1).last() == n.routing_rules[q as int]);
        }
        if !is_blank(rule.outbound_tag.as_str()) {
            let ghost before = rules@;
            rules.push(routing_rule(rule, &outbounds));
            assert(rules@.drop_last() =~= before);
        }
        q = q + 1;
    }
    proof {
        assert(n.routing_rules.take(n.routing_rules.len() as int) =~= n.routing_rules);
    }

    let r = FullConfig {
        master_key: draft.master_key.clone(),
        inbounds,
        certificates: cert_configs,
        accounts: accts,
        outbounds,
        routing_rules: rules,
        dns: build_dns_config(draft),
        link_remark_template: draft.link_remark_template.clone(),
    };
    assert(full_config_of(r, *draft, n, node@, accounts@));
    r
}


proof fn lemma_served_accounts(accounts: Seq<AccountInfo>, node: ProxyNodeView)
    ensures
        forall|k: int|
            0 <= k < served_accounts(accounts, node).len() ==> serves(
                #[trigger] served_accounts(accounts, node)[k],
                node,
            ) && accounts.contains(served_accounts(accounts, node)[k]),
    decreases accounts.len(),
{
    if accounts.len() > 0 {
        let p = accounts.drop_last();
        lemma_served_accounts(p, node);
        let s = served_accounts(accounts, node);
        assert forall|k: int| 0 <= k < s.len() implies serves(#[trigger] s[k], node)
            && accounts.contains(s[k]) by {
            if k < served_accounts(p, node).len() {
                assert(s[k] == served_accounts(p, node)[k]);
                let j = choose|j: int| 0 <= j < p.len() && p[j] == s[k];
                assert(accounts[j] == s[k]);
            } else {
                assert(s[k] == accounts.last());
                assert(accounts[accounts.len() - 1] == s[k]);
            }
        }
    }
}

/// Every account of a built configuration is one of the known accounts, and
/// its groups share a name with the node's normalised groups.
pub proof fn law_config_accounts_share_node_group(
    c: FullConfig,
    draft: NodeConfigDraft,
    n: NodeConfigDraftView,
    node: ProxyNodeView,
    accounts: Seq<AccountInfo>,
)
    requires
        full_config_of(c, draft, n, node, accounts),
    ensures
        forall|k: int|
            0 <= k < c.accounts@.len() ==> groups_meet(
                texts((#[trigger] c.accounts@[k]).groups@),
                normalized_group_list(texts(node.groups)),
            ) && exists|j: int| 0 <= j < accounts.len() && accounts[j].id == c.accounts@[k].id,
{
    let s = served_accounts(accounts, node);
    lemma_served_accounts(accounts, node);
    assert forall|k: int| 0 <= k < c.accounts@.len() implies groups_meet(
        texts((#[trigger] c.accounts@[k]).groups@),
        normalized_group_list(texts(node.groups)),
    ) && exists|j: int| 0 <= j < accounts.len() && accounts[j].id == c.accounts@[k].id by {
        let cv = account_views(c.accounts@);
        assert(cv[k] == c.accounts@[k]@);
        assert(account_record(cv[k], s[k]));
        assert(serves(s[k], node));
        let j = choose|j: int| 0 <= j < accounts.len() && accounts[j] == s[k];
        assert(accounts[j].id == c.accounts@[k].id);
    }
}

/// Every inbound built from a canonical inbound serves exactly the accounts
/// of the configuration.
pub proof fn law_config_inbounds_serve_node_accounts(
    c: FullConfig,
    draft: NodeConfigDraft,
    n: NodeConfigDraftView,
    node: ProxyNodeView,
    accounts: Seq<AccountInfo>,
)
    requires
        full_config_of(c, draft, n, node, accounts),
    ensures
        forall|k: int|
            0 <= k < n.inbounds.len() ==> account_views((#[trigger] c.inbounds@[k]).accounts@)
                == account_views(c.accounts@),
{
    assert forall|k: int| 0 <= k < n.inbounds.len() implies account_views(
        (#[trigger] c.inbounds@[k]).accounts@,
    ) == account_views(c.accounts@) by {
        assert(inbound_config_of(c.inbounds@[k], n.inbounds[k], draft.certificates@, account_views(c.accounts@)));
    }
}

proof fn lemma_rules_target(cs: Seq<RoutingRule>, rs: Seq<RoutingRuleDraft>, outs: Seq<OutboundConfig>)
    requires
        routing_rules_of(cs, rs, outs),
    ensures
        forall|k: int|
            0 <= k < cs.len() ==> tag_listed(outs, (#[trigger] cs[k]).outbound_tag@)
                || cs[k].outbound_tag@ == "block"@,
    decreases rs.len(),
{
    if rs.len() > 0 {
        if trimmed(rs.last().outbound_tag@).len() > 0 {
            lemma_rules_target(cs.drop_last(), rs.drop_last(), outs);
            assert forall|k: int| 0 <= k < cs.len() implies tag_listed(
                outs,
                (#[trigger] cs[k]).outbound_tag@,
            ) || cs[k].outbound_tag@ == "block"@ by {
                if k < cs.len() - 1 {
                    assert(cs[k] == cs.drop_last()[k]);
                }
            }
        } else {
            lemma_rules_target(cs, rs.drop_last(), outs);
        }
    }
}

/// Every routing rule of a built configuration sends its traffic to the tag
/// of one of the configuration's outbounds, or to `block`: no rule names an
/// outbound that the node does not have.
pub proof fn law_config_rules_target_known_outbounds(
    c: FullConfig,
    draft: NodeConfigDraft,
    n: NodeConfigDraftView,
    node: ProxyNodeView,
    accounts: Seq<AccountInfo>,
)
    requires
        full_config_of(c, draft, n, node, accounts),
    ensures
        forall|k: int|
            0 <= k < c.routing_rules@.len() ==> tag_listed(
                c.outbounds@,
                (#[trigger] c.routing_rules@[k]).outbound_tag@,
            ) || c.routing_rules@[k].outbound_tag@ == "block"@,
{
    lemma_rules_target(c.routing_rules@, n.routing_rules, c.outbounds@);
}

proof fn lemma_rules_kept(cs: Seq<RoutingRule>, rs: Seq<RoutingRuleDraft>, outs: Seq<OutboundConfig>)
    requires
        routing_rules_of(cs, rs, outs),
        forall|k: int| 0 <= k < rs.len() ==> trimmed((#[trigger] rs[k]).outbound_tag@).len() > 0,
    ensures
        cs.len() == rs.len(),
    decreases rs.len(),
{
    if rs.len() > 0 {
        assert(trimmed(rs[rs.len() - 1].outbound_tag@).len() > 0);
        assert forall|k: int| 0 <= k < rs.drop_last().len() implies trimmed(
            (#[trigger] rs.drop_last()[k]).outbound_tag@,
        ).len() > 0 by {
            assert(rs.drop_last()[k] == rs[k]);
        }
        lemma_rules_kept(cs.drop_last(), rs.drop_last(), outs);
    }
}

/// What the configuration built from a draft is made of, as a whole: the
/// draft's master key, link remark template, DNS section and certificates;
/// an inbound for each inbound of the draft's canonical form and each
/// enabled reverse proxy; one routing rule for each rule of the canonical
/// form (a draft without rules gets one), and none that names an outbound
/// the configuration lacks, but `block`.
pub proof fn law_full_config(
    c: FullConfig,
    draft: NodeConfigDraft,
    n: NodeConfigDraftView,
    node: ProxyNodeView,
    accounts: Seq<AccountInfo>,
)
    requires
        synced(draft@, n),
        full_config_of(c, draft, n, node, accounts),
    ensures
        c.master_key == draft.master_key,
        c.link_remark_template == draft.link_remark_template,
        match c.dns {
            Some(d) => d@ == dns_section(draft.dns),
            None => dns_section_unset(dns_section(draft.dns)),
        },
        c.certificates@.len() == draft.certificates@.len(),
        c.inbounds@.len() == n.inbounds.len() + enabled_reverse_proxies(n.reverse_proxies).len(),
        c.routing_rules@.len() == n.routing_rules.len(),
        c.routing_rules@.len() == if draft.routing_rules@.len() == 0 {
            1
        } else {
            draft.routing_rules@.len()
        },
        forall|k: int|
            0 <= k < c.routing_rules@.len() ==> tag_listed(
                c.outbounds@,
                (#[trigger] c.routing_rules@[k]).outbound_tag@,
            ) || c.routing_rules@[k].outbound_tag@ == "block"@,
{
    lemma_sync_canonical(draft@, n);
    assert(is_canonical(n));
    lemma_rules_kept(c.routing_rules@, n.routing_rules, c.outbounds@);
    law_config_rules_target_known_outbounds(c, draft, n, node, accounts);
}

proof fn lemma_upper_word(w: Seq<char>)
    requires
        w.len() > 0,
        forall|i: int| 0 <= i < w.len() ==> ('A' <= #[trigger] w[i] <= 'Z') || ('0' <= w[i] <= '9'),
    ensures
        upper_trimmed(w) == w,
{
    assert(!is_ws(w[0]) && !is_ws(w.last()));
    lemma_trimmed_fixed(w);
    assert(is_ascii_chars(w));
    assert(ascii_upper(w) =~= w);
}

/// What a deployed Hysteria2, TrustTunnel, NaiveProxy or Trojan inbound
/// serves always has TLS on, whatever the inbound's TLS switch says.
pub proof fn law_tls_protocols_deploy_tls(
    p: InboundProtocol,
    i: InboundEntryDraftView,
    certs: Seq<CertificateDraft>,
)
    requires
        inbound_protocol_of(p, i, certs),
    ensures
        p is Hysteria2 ==> (p->Hysteria2_0.tls is Some && p->Hysteria2_0.tls->Some_0.enabled),
        p is Trusttunnel ==> (p->Trusttunnel_0.tls is Some && p->Trusttunnel_0.tls->Some_0.enabled),
        p is Naiveproxy ==> (p->Naiveproxy_0.tls is Some && p->Naiveproxy_0.tls->Some_0.enabled),
        p is Trojan ==> (p->Trojan_0.tls is Some && p->Trojan_0.tls->Some_0.enabled),
{
    reveal_strlit("HYSTERIA2");
    reveal_strlit("TRUSTTUNNEL");
    reveal_strlit("NAIVEPROXY");
    reveal_strlit("TROJAN");
    lemma_upper_word("HYSTERIA2"@);
    lemma_upper_word("TRUSTTUNNEL"@);
    lemma_upper_word("NAIVEPROXY"@);
    lemma_upper_word("TROJAN"@);
}

/// In a built configuration, every inbound made from a draft inbound that
/// serves Hysteria2, TrustTunnel, NaiveProxy or Trojan has TLS on.
pub proof fn law_config_tls_protocols_deploy_tls(
    c: FullConfig,
    draft: NodeConfigDraft,
    n: NodeConfigDraftView,
    node: ProxyNodeView,
    accounts: Seq<AccountInfo>,
)
    requires
        full_config_of(c, draft, n, node, accounts),
    ensures
        forall|k: int|
            0 <= k < n.inbounds.len() ==> {
                let p = (#[trigger] c.inbounds@[k]).protocol->Some_0;
                &&& p is Hysteria2 ==> (p->Hysteria2_0.tls is Some && p->Hysteria2_0.tls->Some_0.enabled)
                &&& p is Trusttunnel ==> (p->Trusttunnel_0.tls is Some
                    && p->Trusttunnel_0.tls->Some_0.enabled)
                &&& p is Naiveproxy ==> (p->Naiveproxy_0.tls is Some
                    && p->Naiveproxy_0.tls->Some_0.enabled)
                &&& p is Trojan ==> (p->Trojan_0.tls is Some && p->Trojan_0.tls->Some_0.enabled)
            },
{
    assert forall|k: int| 0 <= k < n.inbounds.len() implies {
        let p = (#[trigger] c.inbounds@[k]).protocol->Some_0;
        &&& p is Hysteria2 ==> (p->Hysteria2_0.tls is Some && p->Hysteria2_0.tls->Some_0.enabled)
        &&& p is Trusttunnel ==> (p->Trusttunnel_0.tls is Some && p->Trusttunnel_0.tls->Some_0.enabled)
        &&& p is Naiveproxy ==> (p->Naiveproxy_0.tls is Some && p->Naiveproxy_0.tls->Some_0.enabled)
        &&& p is Trojan ==> (p->Trojan_0.tls is Some && p->Trojan_0.tls->Some_0.enabled)
    } by {
        assert(inbound_config_of(
            c.inbounds@[k],
            n.inbounds[k],
            draft.certificates@,
            account_views(c.accounts@),
        ));
        law_tls_protocols_deploy_tls(c.inbounds@[k].protocol->Some_0, n.inbounds[k], draft.certificates@);
    }
}

} // verus!
