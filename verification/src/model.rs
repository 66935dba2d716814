//! The data that the manager edits: a node, its accounts and the
//! configuration draft of the node, with its inbounds, outbounds, routing
//! rules, certificates and DNS settings.

use vstd::prelude::*;

verus! {

/// A proxy node as the manager knows it.
#[derive(Clone, Debug, PartialEq, Eq)]
pub struct ProxyNode {
    pub id: String,
    pub name: String,
    pub address: String,
    pub public_ip: String,
    pub groups: Vec<String>,
    pub master_key: String,
}

/// A user account.
#[derive(Clone, Debug, PartialEq, Eq)]
pub struct AccountInfo {
    pub id: String,
    pub name: String,
    pub token: String,
    pub groups: Vec<String>,
    pub allowed_ips: Vec<String>,
    pub creation_date: i64,
    pub expiry_date: i64,
}

/// A choice offered by a drop-down list.
#[derive(Clone, Debug, PartialEq, Eq)]
pub struct DropdownOption {
    pub value: String,
    pub label: String,
}

#[derive(Clone, Debug, PartialEq, Eq)]
pub struct CertificateDraft {
    pub id: String,
    pub name: String,
    pub cert_type: String,
    pub source: String,
    pub acme_type: String,
    pub acme_ca: String,
    pub acme_email: String,
    pub acme_domain: String,
    pub acme_port: u32,
    pub acme_http_port: u32,
    pub certificate_pem: String,
    pub key_pem: String,
    pub certificate_path: String,
    pub key_path: String,
    pub expiry_time: i64,
}

#[derive(Clone, Debug, PartialEq, Eq)]
pub struct TlsDraft {
    pub enabled: bool,
    pub server_name: String,
    pub certificate_name: String,
}

#[derive(Clone, Debug, PartialEq, Eq)]
pub struct VlessInboundDraft {
    pub security: String,
    pub transmission: String,
    pub flow: String,
    pub reality_dest: String,
    pub reality_private_key: String,
    pub reality_public_key: String,
    pub reality_short_ids: String,
    pub reality_sni: String,
    pub reality_utls: String,
    pub reality_spider_x: String,
}

#[derive(Clone, Debug, PartialEq, Eq)]
pub struct Hysteria2Draft {
    pub password: String,
    pub obfs_type: String,
    pub obfs_password: String,
    pub up_mbps: u32,
    pub down_mbps: u32,
    pub ignore_client_bandwidth: bool,
    pub masquerade: String,
    pub bbr_profile: String,
    pub brutal_debug: bool,
}

#[derive(Clone, Debug, PartialEq, Eq)]
pub struct TrustTunnelDraft {
    pub link_type: String,
    pub http1_upload_buffer_size: u32,
    pub http2_initial_connection_window_size: u32,
    pub http2_initial_stream_window_size: u32,
    pub http2_max_concurrent_streams: u32,
    pub http2_max_frame_size: u32,
    pub http2_header_table_size: u32,
}

#[derive(Clone, Debug, PartialEq, Eq)]
pub struct NaiveProxyDraft {
    pub network: String,
    pub quic_congestion_control: String,
}

#[derive(Clone, Debug, PartialEq, Eq)]
pub struct WireGuardPeerItem {
    pub public_key: String,
    pub endpoint: String,
    pub allowed_ips: String,
}

#[derive(Clone, Debug, PartialEq, Eq)]
pub struct WireGuardDraft {
    pub tag: String,
    pub private_key: String,
    pub workers: u32,
    pub addresses: String,
    pub peers: Vec<WireGuardPeerItem>,
    pub mtu: u32,
    pub reserved: String,
    pub domain_strategy: String,
    pub warp_id: String,
    pub warp_token: String,
}

#[derive(Clone, Debug, PartialEq, Eq)]
pub struct Socks5Draft {
    pub tag: String,
    pub server: String,
    pub port: i32,
    pub username: String,
    pub password: String,
    pub udp_enabled: bool,
}

#[derive(Clone, Debug, PartialEq, Eq)]
pub struct ShadowsocksDraft {
    pub tag: String,
    pub server: String,
    pub port: i32,
    pub method: String,
    pub password: String,
    pub plugin: String,
    pub plugin_opts: String,
    pub prefix: String,
    pub udp_enabled: bool,
}

#[derive(Clone, Debug, PartialEq, Eq)]
pub struct ReverseProxyDraft {
    pub enabled: bool,
    pub mode: String,
    pub tag: String,
    pub domain: String,
    pub bridge_outbound_tag: String,
    pub target_outbound_tag: String,
    pub portal_inbound_tag: String,
}

#[derive(Clone, Debug, PartialEq, Eq)]
pub struct TunnelDraft {
    pub allowed_network: String,
}

#[derive(Clone, Debug, PartialEq, Eq)]
pub struct TProxyDraft {
    pub network: String,
    pub sniffing_enabled: bool,
    pub sniffing_dest_override: String,
    pub sniffing_route_only: bool,
    pub socket_mark: u32,
}

#[derive(Clone, Debug, PartialEq, Eq)]
pub struct TrojanDraft {
    pub tag: String,
    pub server: String,
    pub port: i32,
    pub password: String,
    pub tls_enabled: bool,
    pub sni: String,
    pub fallback: String,
}

/// One inbound listener of the node being edited.
#[derive(Clone, Debug, PartialEq, Eq)]
pub struct InboundEntryDraft {
    pub id: String,
    pub name: String,
    pub groups: Vec<String>,
    pub listen: String,
    pub port: i32,
    pub enabled: bool,
    pub core_type: String,
    pub protocol: String,
    pub tls: TlsDraft,
    pub vless: VlessInboundDraft,
    pub hysteria2: Hysteria2Draft,
    pub trust_tunnel: TrustTunnelDraft,
    pub naive_proxy: NaiveProxyDraft,
    pub wireguard: WireGuardDraft,
    pub socks5: Socks5Draft,
    pub shadowsocks: ShadowsocksDraft,
    pub reverse_proxy: ReverseProxyDraft,
    pub tunnel: TunnelDraft,
    pub tproxy: TProxyDraft,
    pub trojan: TrojanDraft,
}

#[derive(Clone, Debug, PartialEq, Eq)]
pub struct VlessOutboundDraft {
    pub tag: String,
    pub server: String,
    pub port: i32,
    pub uuid: String,
    pub flow: String,
    pub security: String,
    pub transmission: String,
    pub tls_server_name: String,
    pub reality_sni: String,
    pub reality_public_key: String,
    pub reality_short_ids: String,
    pub reality_utls: String,
    pub reality_spider_x: String,
}

#[derive(Clone, Debug, PartialEq, Eq)]
pub struct TrustTunnelOutboundDraft {
    pub tag: String,
    pub http1_upload_buffer_size: u32,
    pub http2_initial_connection_window_size: u32,
    pub http2_initial_stream_window_size: u32,
    pub http2_max_concurrent_streams: u32,
    pub http2_max_frame_size: u32,
    pub http2_header_table_size: u32,
}

#[derive(Clone, Debug, PartialEq, Eq)]
pub struct CustomOutboundDraft {
    pub tag: String,
    pub handler_name: String,
    pub config_json: String,
}

/// One outbound of the node being edited.
#[derive(Clone, Debug, PartialEq, Eq)]
pub struct OutboundEntryDraft {
    pub id: String,
    pub name: String,
    pub outbound_type: String,
    pub enabled: bool,
    pub builtin: bool,
    pub vless: VlessOutboundDraft,
    pub trust_tunnel: TrustTunnelOutboundDraft,
    pub wireguard: WireGuardDraft,
    pub socks5: Socks5Draft,
    pub shadowsocks: ShadowsocksDraft,
    pub trojan: TrojanDraft,
    pub custom: CustomOutboundDraft,
}

/// A routing rule; every list field is text with comma or line separated values.
#[derive(Clone, Debug, PartialEq, Eq)]
pub struct RoutingRuleDraft {
    pub enabled: bool,
    pub remark: String,
    pub domain: String,
    pub ip: String,
    pub port: String,
    pub transport: String,
    pub protocol: String,
    pub inbound_tag: String,
    pub user: String,
    pub outbound_tag: String,
}

#[derive(Clone, Debug, PartialEq, Eq)]
pub struct DnsServerDraft {
    pub address: String,
    pub client_ip: String,
    pub port: u32,
    pub skip_fallback: bool,
    pub domains: String,
    pub expect_ips: String,
    pub query_strategy: String,
    pub tag: String,
    pub timeout_ms: u64,
    pub disable_cache: Option<bool>,
    pub serve_stale: Option<bool>,
    pub serve_expired_ttl: Option<u32>,
    pub final_query: bool,
    pub unexpected_ips: String,
}

#[derive(Clone, Debug, PartialEq, Eq)]
pub struct DnsHostDraft {
    pub domain: String,
    pub values: String,
}

#[derive(Clone, Debug, PartialEq, Eq)]
pub struct DnsDraft {
    pub servers: Vec<DnsServerDraft>,
    pub hosts: Vec<DnsHostDraft>,
    pub client_ip: String,
    pub tag: String,
    pub query_strategy: String,
    pub disable_cache: bool,
    pub serve_stale: bool,
    pub serve_expired_ttl: u32,
    pub disable_fallback: bool,
    pub disable_fallback_if_match: bool,
    pub enable_parallel_query: bool,
    pub use_system_hosts: bool,
}

#[derive(Clone, Debug, PartialEq, Eq)]
pub struct WarpRegistrationDraft {
    pub id: String,
    pub token: String,
    pub private_key: String,
    pub public_key: String,
    pub peer_public_key: String,
    pub license: String,
    pub reserved: String,
    pub addresses: String,
    pub endpoint: String,
}

/// A Cloudflare WARP device registration.
#[derive(Clone, Debug, PartialEq, Eq)]
pub struct WarpRegistration {
    pub id: String,
    pub token: String,
    pub private_key: String,
    pub public_key: String,
    pub peer_public_key: String,
    pub license: String,
    pub reserved: Vec<u8>,
    pub addresses: Vec<String>,
    pub endpoint: String,
}

/// The configuration draft of one node.
#[derive(Clone, Debug, PartialEq, Eq)]
pub struct NodeConfigDraft {
    pub reverse_proxies: Vec<ReverseProxyDraft>,
    pub outbounds: Vec<OutboundEntryDraft>,
    pub certificates: Vec<CertificateDraft>,
    pub inbounds: Vec<InboundEntryDraft>,
    pub master_key: String,
    pub routing_rules: Vec<RoutingRuleDraft>,
    pub dns: DnsDraft,
    pub link_remark_template: String,
    pub warp_registration: WarpRegistrationDraft,
}

/// A saved version of a node configuration.
#[derive(Clone, Debug, PartialEq, Eq)]
pub struct NodeConfigRevision {
    pub id: String,
    pub created_at: String,
    pub config: NodeConfigDraft,
}

/// The value of a `ProxyNode`, its lists taken by their contents.
pub struct ProxyNodeView {
    pub id: String,
    pub name: String,
    pub address: String,
    pub public_ip: String,
    pub groups: Seq<String>,
    pub master_key: String,
}

impl View for ProxyNode {
    type V = ProxyNodeView;

    open spec fn view(&self) -> ProxyNodeView {
        ProxyNodeView {
            id: self.id,
            name: self.name,
            address: self.address,
            public_ip: self.public_ip,
            groups: self.groups@,
            master_key: self.master_key,
        }
    }
}

/// The value of a `AccountInfo`, its lists taken by their contents.
pub struct AccountInfoView {
    pub id: String,
    pub name: String,
    pub token: String,
    pub groups: Seq<String>,
    pub allowed_ips: Seq<String>,
    pub creation_date: i64,
    pub expiry_date: i64,
}

impl View for AccountInfo {
    type V = AccountInfoView;

    open spec fn view(&self) -> AccountInfoView {
        AccountInfoView {
            id: self.id,
            name: self.name,
            token: self.token,
            groups: self.groups@,
            allowed_ips: self.allowed_ips@,
            creation_date: self.creation_date,
            expiry_date: self.expiry_date,
        }
    }
}

/// The value of a `WireGuardDraft`, its lists taken by their contents.
pub struct WireGuardDraftView {
    pub tag: String,
    pub private_key: String,
    pub workers: u32,
    pub addresses: String,
    pub peers: Seq<WireGuardPeerItem>,
    pub mtu: u32,
    pub reserved: String,
    pub domain_strategy: String,
    pub warp_id: String,
    pub warp_token: String,
}

impl View for WireGuardDraft {
    type V = WireGuardDraftView;

    open spec fn view(&self) -> WireGuardDraftView {
        WireGuardDraftView {
            tag: self.tag,
            private_key: self.private_key,
            workers: self.workers,
            addresses: self.addresses,
            peers: self.peers@,
            mtu: self.mtu,
            reserved: self.reserved,
            domain_strategy: self.domain_strategy,
            warp_id: self.warp_id,
            warp_token: self.warp_token,
        }
    }
}

/// The value of a `InboundEntryDraft`, its lists taken by their contents.
pub struct InboundEntryDraftView {
    pub id: String,
    pub name: String,
    pub groups: Seq<String>,
    pub listen: String,
    pub port: i32,
    pub enabled: bool,
    pub core_type: String,
    pub protocol: String,
    pub tls: TlsDraft,
    pub vless: VlessInboundDraft,
    pub hysteria2: Hysteria2Draft,
    pub trust_tunnel: TrustTunnelDraft,
    pub naive_proxy: NaiveProxyDraft,
    pub wireguard: WireGuardDraftView,
    pub socks5: Socks5Draft,
    pub shadowsocks: ShadowsocksDraft,
    pub reverse_proxy: ReverseProxyDraft,
    pub tunnel: TunnelDraft,
    pub tproxy: TProxyDraft,
    pub trojan: TrojanDraft,
}

impl View for InboundEntryDraft {
    type V = InboundEntryDraftView;

    open spec fn view(&self) -> InboundEntryDraftView {
        InboundEntryDraftView {
            id: self.id,
            name: self.name,
            groups: self.groups@,
            listen: self.listen,
            port: self.port,
            enabled: self.enabled,
            core_type: self.core_type,
            protocol: self.protocol,
            tls: self.tls,
            vless: self.vless,
            hysteria2: self.hysteria2,
            trust_tunnel: self.trust_tunnel,
            naive_proxy: self.naive_proxy,
            wireguard: self.wireguard@,
            socks5: self.socks5,
            shadowsocks: self.shadowsocks,
            reverse_proxy: self.reverse_proxy,
            tunnel: self.tunnel,
            tproxy: self.tproxy,
            trojan: self.trojan,
        }
    }
}

/// The value of a `OutboundEntryDraft`, its lists taken by their contents.
pub struct OutboundEntryDraftView {
    pub id: String,
    pub name: String,
    pub outbound_type: String,
    pub enabled: bool,
    pub builtin: bool,
    pub vless: VlessOutboundDraft,
    pub trust_tunnel: TrustTunnelOutboundDraft,
    pub wireguard: WireGuardDraftView,
    pub socks5: Socks5Draft,
    pub shadowsocks: ShadowsocksDraft,
    pub trojan: TrojanDraft,
    pub custom: CustomOutboundDraft,
}

impl View for OutboundEntryDraft {
    type V = OutboundEntryDraftView;

    open spec fn view(&self) -> OutboundEntryDraftView {
        OutboundEntryDraftView {
            id: self.id,
            name: self.name,
            outbound_type: self.outbound_type,
            enabled: self.enabled,
            builtin: self.builtin,
            vless: self.vless,
            trust_tunnel: self.trust_tunnel,
            wireguard: self.wireguard@,
            socks5: self.socks5,
            shadowsocks: self.shadowsocks,
            trojan: self.trojan,
            custom: self.custom,
        }
    }
}

/// The value of a `DnsDraft`, its lists taken by their contents.
pub struct DnsDraftView {
    pub servers: Seq<DnsServerDraft>,
    pub hosts: Seq<DnsHostDraft>,
    pub client_ip: String,
    pub tag: String,
    pub query_strategy: String,
    pub disable_cache: bool,
    pub serve_stale: bool,
    pub serve_expired_ttl: u32,
    pub disable_fallback: bool,
    pub disable_fallback_if_match: bool,
    pub enable_parallel_query: bool,
    pub use_system_hosts: bool,
}

impl View for DnsDraft {
    type V = DnsDraftView;

    open spec fn view(&self) -> DnsDraftView {
        DnsDraftView {
            servers: self.servers@,
            hosts: self.hosts@,
            client_ip: self.client_ip,
            tag: self.tag,
            query_strategy: self.query_strategy,
            disable_cache: self.disable_cache,
            serve_stale: self.serve_stale,
            serve_expired_ttl: self.serve_expired_ttl,
            disable_fallback: self.disable_fallback,
            disable_fallback_if_match: self.disable_fallback_if_match,
            enable_parallel_query: self.enable_parallel_query,
            use_system_hosts: self.use_system_hosts,
        }
    }
}

/// The value of a `WarpRegistration`, its lists taken by their contents.
pub struct WarpRegistrationView {
    pub id: String,
    pub token: String,
    pub private_key: String,
    pub public_key: String,
    pub peer_public_key: String,
    pub license: String,
    pub reserved: Seq<u8>,
    pub addresses: Seq<String>,
    pub endpoint: String,
}

impl View for WarpRegistration {
    type V = WarpRegistrationView;

    open spec fn view(&self) -> WarpRegistrationView {
        WarpRegistrationView {
            id: self.id,
            token: self.token,
            private_key: self.private_key,
            public_key: self.public_key,
            peer_public_key: self.peer_public_key,
            license: self.license,
            reserved: self.reserved@,
            addresses: self.addresses@,
            endpoint: self.endpoint,
        }
    }
}

/// The value of a `NodeConfigDraft`, its lists taken by their contents.
pub struct NodeConfigDraftView {
    pub reverse_proxies: Seq<ReverseProxyDraft>,
    pub outbounds: Seq<OutboundEntryDraftView>,
    pub certificates: Seq<CertificateDraft>,
    pub inbounds: Seq<InboundEntryDraftView>,
    pub master_key: String,
    pub routing_rules: Seq<RoutingRuleDraft>,
    pub dns: DnsDraftView,
    pub link_remark_template: String,
    pub warp_registration: WarpRegistrationDraft,
}

impl View for NodeConfigDraft {
    type V = NodeConfigDraftView;

    open spec fn view(&self) -> NodeConfigDraftView {
        NodeConfigDraftView {
            reverse_proxies: self.reverse_proxies@,
            outbounds: Seq::new(self.outbounds@.len(), |i: int| self.outbounds@[i]@),
            certificates: self.certificates@,
            inbounds: Seq::new(self.inbounds@.len(), |i: int| self.inbounds@[i]@),
            master_key: self.master_key,
            routing_rules: self.routing_rules@,
            dns: self.dns@,
            link_remark_template: self.link_remark_template,
            warp_registration: self.warp_registration,
        }
    }
}

/// The value of a `NodeConfigRevision`, its lists taken by their contents.
pub struct NodeConfigRevisionView {
    pub id: String,
    pub created_at: String,
    pub config: NodeConfigDraftView,
}

impl View for NodeConfigRevision {
    type V = NodeConfigRevisionView;

    open spec fn view(&self) -> NodeConfigRevisionView {
        NodeConfigRevisionView {
            id: self.id,
            created_at: self.created_at,
            config: self.config@,
        }
    }
}

impl ProxyNode {
    /// A field-by-field copy.
    pub fn duplicate(&self) -> (r: Self)
        ensures
            r@ == self@,
    {
        ProxyNode {
            id: self.id.clone(),
            name: self.name.clone(),
            address: self.address.clone(),
            public_ip: self.public_ip.clone(),
            groups: copy_strings(&self.groups),
            master_key: self.master_key.clone(),
        }
    }
}

impl AccountInfo {
    /// A field-by-field copy.
    pub fn duplicate(&self) -> (r: Self)
        ensures
            r@ == self@,
    {
        AccountInfo {
            id: self.id.clone(),
            name: self.name.clone(),
            token: self.token.clone(),
            groups: copy_strings(&self.groups),
            allowed_ips: copy_strings(&self.allowed_ips),
            creation_date: self.creation_date,
            expiry_date: self.expiry_date,
        }
    }
}

impl DropdownOption {
    /// A field-by-field copy.
    pub fn duplicate(&self) -> (r: Self)
        ensures
            r == *self,
    {
        DropdownOption {
            value: self.value.clone(),
            label: self.label.clone(),
        }
    }
}

impl CertificateDraft {
    /// A field-by-field copy.
    pub fn duplicate(&self) -> (r: Self)
        ensures
            r == *self,
    {
        CertificateDraft {
            id: self.id.clone(),
            name: self.name.clone(),
            cert_type: self.cert_type.clone(),
            source: self.source.clone(),
            acme_type: self.acme_type.clone(),
            acme_ca: self.acme_ca.clone(),
            acme_email: self.acme_email.clone(),
            acme_domain: self.acme_domain.clone(),
            acme_port: self.acme_port,
            acme_http_port: self.acme_http_port,
            certificate_pem: self.certificate_pem.clone(),
            key_pem: self.key_pem.clone(),
            certificate_path: self.certificate_path.clone(),
            key_path: self.key_path.clone(),
            expiry_time: self.expiry_time,
        }
    }
}

impl TlsDraft {
    /// A field-by-field copy.
    pub fn duplicate(&self) -> (r: Self)
        ensures
            r == *self,
    {
        TlsDraft {
            enabled: self.enabled,
            server_name: self.server_name.clone(),
            certificate_name: self.certificate_name.clone(),
        }
    }
}

impl VlessInboundDraft {
    /// A field-by-field copy.
    pub fn duplicate(&self) -> (r: Self)
        ensures
            r == *self,
    {
        VlessInboundDraft {
            security: self.security.clone(),
            transmission: self.transmission.clone(),
            flow: self.flow.clone(),
            reality_dest: self.reality_dest.clone(),
            reality_private_key: self.reality_private_key.clone(),
            reality_public_key: self.reality_public_key.clone(),
            reality_short_ids: self.reality_short_ids.clone(),
            reality_sni: self.reality_sni.clone(),
            reality_utls: self.reality_utls.clone(),
            reality_spider_x: self.reality_spider_x.clone(),
        }
    }
}

impl Hysteria2Draft {
    /// A field-by-field copy.
    pub fn duplicate(&self) -> (r: Self)
        ensures
            r == *self,
    {
        Hysteria2Draft {
            password: self.password.clone(),
            obfs_type: self.obfs_type.clone(),
            obfs_password: self.obfs_password.clone(),
            up_mbps: self.up_mbps,
            down_mbps: self.down_mbps,
            ignore_client_bandwidth: self.ignore_client_bandwidth,
            masquerade: self.masquerade.clone(),
            bbr_profile: self.bbr_profile.clone(),
            brutal_debug: self.brutal_debug,
        }
    }
}

impl TrustTunnelDraft {
    /// A field-by-field copy.
    pub fn duplicate(&self) -> (r: Self)
        ensures
            r == *self,
    {
        TrustTunnelDraft {
            link_type: self.link_type.clone(),
            http1_upload_buffer_size: self.http1_upload_buffer_size,
            http2_initial_connection_window_size: self.http2_initial_connection_window_size,
            http2_initial_stream_window_size: self.http2_initial_stream_window_size,
            http2_max_concurrent_streams: self.http2_max_concurrent_streams,
            http2_max_frame_size: self.http2_max_frame_size,
            http2_header_table_size: self.http2_header_table_size,
        }
    }
}

impl NaiveProxyDraft {
    /// A field-by-field copy.
    pub fn duplicate(&self) -> (r: Self)
        ensures
            r == *self,
    {
        NaiveProxyDraft {
            network: self.network.clone(),
            quic_congestion_control: self.quic_congestion_control.clone(),
        }
    }
}

impl WireGuardPeerItem {
    /// A field-by-field copy.
    pub fn duplicate(&self) -> (r: Self)
        ensures
            r == *self,
    {
        WireGuardPeerItem {
            public_key: self.public_key.clone(),
            endpoint: self.endpoint.clone(),
            allowed_ips: self.allowed_ips.clone(),
        }
    }
}

impl WireGuardDraft {
    /// A field-by-field copy.
    pub fn duplicate(&self) -> (r: Self)
        ensures
            r@ == self@,
    {
        WireGuardDraft {
            tag: self.tag.clone(),
            private_key: self.private_key.clone(),
            workers: self.workers,
            addresses: self.addresses.clone(),
            peers: copy_wireguardpeeritem_list(&self.peers),
            mtu: self.mtu,
            reserved: self.reserved.clone(),
            domain_strategy: self.domain_strategy.clone(),
            warp_id: self.warp_id.clone(),
            warp_token: self.warp_token.clone(),
        }
    }
}

impl Socks5Draft {
    /// A field-by-field copy.
    pub fn duplicate(&self) -> (r: Self)
        ensures
            r == *self,
    {
        Socks5Draft {
            tag: self.tag.clone(),
            server: self.server.clone(),
            port: self.port,
            username: self.username.clone(),
            password: self.password.clone(),
            udp_enabled: self.udp_enabled,
        }
    }
}

impl ShadowsocksDraft {
    /// A field-by-field copy.
    pub fn duplicate(&self) -> (r: Self)
        ensures
            r == *self,
    {
        ShadowsocksDraft {
            tag: self.tag.clone(),
            server: self.server.clone(),
            port: self.port,
            method: self.method.clone(),
            password: self.password.clone(),
            plugin: self.plugin.clone(),
            plugin_opts: self.plugin_opts.clone(),
            prefix: self.prefix.clone(),
            udp_enabled: self.udp_enabled,
        }
    }
}

impl ReverseProxyDraft {
    /// A field-by-field copy.
    pub fn duplicate(&self) -> (r: Self)
        ensures
            r == *self,
    {
        ReverseProxyDraft {
            enabled: self.enabled,
            mode: self.mode.clone(),
            tag: self.tag.clone(),
            domain: self.domain.clone(),
            bridge_outbound_tag: self.bridge_outbound_tag.clone(),
            target_outbound_tag: self.target_outbound_tag.clone(),
            portal_inbound_tag: self.portal_inbound_tag.clone(),
        }
    }
}

impl TunnelDraft {
    /// A field-by-field copy.
    pub fn duplicate(&self) -> (r: Self)
        ensures
            r == *self,
    {
        TunnelDraft {
            allowed_network: self.allowed_network.clone(),
        }
    }
}

impl TProxyDraft {
    /// A field-by-field copy.
    pub fn duplicate(&self) -> (r: Self)
        ensures
            r == *self,
    {
        TProxyDraft {
            network: self.network.clone(),
            sniffing_enabled: self.sniffing_enabled,
            sniffing_dest_override: self.sniffing_dest_override.clone(),
            sniffing_route_only: self.sniffing_route_only,
            socket_mark: self.socket_mark,
        }
    }
}

impl TrojanDraft {
    /// A field-by-field copy.
    pub fn duplicate(&self) -> (r: Self)
        ensures
            r == *self,
    {
        TrojanDraft {
            tag: self.tag.clone(),
            server: self.server.clone(),
            port: self.port,
            password: self.password.clone(),
            tls_enabled: self.tls_enabled,
            sni: self.sni.clone(),
            fallback: self.fallback.clone(),
        }
    }
}

impl InboundEntryDraft {
    /// A field-by-field copy.
    pub fn duplicate(&self) -> (r: Self)
        ensures
            r@ == self@,
    {
        InboundEntryDraft {
            id: self.id.clone(),
            name: self.name.clone(),
            groups: copy_strings(&self.groups),
            listen: self.listen.clone(),
            port: self.port,
            enabled: self.enabled,
            core_type: self.core_type.clone(),
            protocol: self.protocol.clone(),
            tls: self.tls.duplicate(),
            vless: self.vless.duplicate(),
            hysteria2: self.hysteria2.duplicate(),
            trust_tunnel: self.trust_tunnel.duplicate(),
            naive_proxy: self.naive_proxy.duplicate(),
            wireguard: self.wireguard.duplicate(),
            socks5: self.socks5.duplicate(),
            shadowsocks: self.shadowsocks.duplicate(),
            reverse_proxy: self.reverse_proxy.duplicate(),
            tunnel: self.tunnel.duplicate(),
            tproxy: self.tproxy.duplicate(),
            trojan: self.trojan.duplicate(),
        }
    }
}

impl VlessOutboundDraft {
    /// A field-by-field copy.
    pub fn duplicate(&self) -> (r: Self)
        ensures
            r == *self,
    {
        VlessOutboundDraft {
            tag: self.tag.clone(),
            server: self.server.clone(),
            port: self.port,
            uuid: self.uuid.clone(),
            flow: self.flow.clone(),
            security: self.security.clone(),
            transmission: self.transmission.clone(),
            tls_server_name: self.tls_server_name.clone(),
            reality_sni: self.reality_sni.clone(),
            reality_public_key: self.reality_public_key.clone(),
            reality_short_ids: self.reality_short_ids.clone(),
            reality_utls: self.reality_utls.clone(),
            reality_spider_x: self.reality_spider_x.clone(),
        }
    }
}

impl TrustTunnelOutboundDraft {
    /// A field-by-field copy.
    pub fn duplicate(&self) -> (r: Self)
        ensures
            r == *self,
    {
        TrustTunnelOutboundDraft {
            tag: self.tag.clone(),
            http1_upload_buffer_size: self.http1_upload_buffer_size,
            http2_initial_connection_window_size: self.http2_initial_connection_window_size,
            http2_initial_stream_window_size: self.http2_initial_stream_window_size,
            http2_max_concurrent_streams: self.http2_max_concurrent_streams,
            http2_max_frame_size: self.http2_max_frame_size,
            http2_header_table_size: self.http2_header_table_size,
        }
    }
}

impl CustomOutboundDraft {
    /// A field-by-field copy.
    pub fn duplicate(&self) -> (r: Self)
        ensures
            r == *self,
    {
        CustomOutboundDraft {
            tag: self.tag.clone(),
            handler_name: self.handler_name.clone(),
            config_json: self.config_json.clone(),
        }
    }
}

impl OutboundEntryDraft {
    /// A field-by-field copy.
    pub fn duplicate(&self) -> (r: Self)
        ensures
            r@ == self@,
    {
        OutboundEntryDraft {
            id: self.id.clone(),
            name: self.name.clone(),
            outbound_type: self.outbound_type.clone(),
            enabled: self.enabled,
            builtin: self.builtin,
            vless: self.vless.duplicate(),
            trust_tunnel: self.trust_tunnel.duplicate(),
            wireguard: self.wireguard.duplicate(),
            socks5: self.socks5.duplicate(),
            shadowsocks: self.shadowsocks.duplicate(),
            trojan: self.trojan.duplicate(),
            custom: self.custom.duplicate(),
        }
    }
}

impl RoutingRuleDraft {
    /// A field-by-field copy.
    pub fn duplicate(&self) -> (r: Self)
        ensures
            r == *self,
    {
        RoutingRuleDraft {
            enabled: self.enabled,
            remark: self.remark.clone(),
            domain: self.domain.clone(),
            ip: self.ip.clone(),
            port: self.port.clone(),
            transport: self.transport.clone(),
            protocol: self.protocol.clone(),
            inbound_tag: self.inbound_tag.clone(),
            user: self.user.clone(),
            outbound_tag: self.outbound_tag.clone(),
        }
    }
}

impl DnsServerDraft {
    /// A field-by-field copy.
    pub fn duplicate(&self) -> (r: Self)
        ensures
            r == *self,
    {
        DnsServerDraft {
            address: self.address.clone(),
            client_ip: self.client_ip.clone(),
            port: self.port,
            skip_fallback: self.skip_fallback,
            domains: self.domains.clone(),
            expect_ips: self.expect_ips.clone(),
            query_strategy: self.query_strategy.clone(),
            tag: self.tag.clone(),
            timeout_ms: self.timeout_ms,
            disable_cache: self.disable_cache,
            serve_stale: self.serve_stale,
            serve_expired_ttl: self.serve_expired_ttl,
            final_query: self.final_query,
            unexpected_ips: self.unexpected_ips.clone(),
        }
    }
}

impl DnsHostDraft {
    /// A field-by-field copy.
    pub fn duplicate(&self) -> (r: Self)
        ensures
            r == *self,
    {
        DnsHostDraft {
            domain: self.domain.clone(),
            values: self.values.clone(),
        }
    }
}

impl DnsDraft {
    /// A field-by-field copy.
    pub fn duplicate(&self) -> (r: Self)
        ensures
            r@ == self@,
    {
        DnsDraft {
            servers: copy_dnsserverdraft_list(&self.servers),
            hosts: copy_dnshostdraft_list(&self.hosts),
            client_ip: self.client_ip.clone(),
            tag: self.tag.clone(),
            query_strategy: self.query_strategy.clone(),
            disable_cache: self.disable_cache,
            serve_stale: self.serve_stale,
            serve_expired_ttl: self.serve_expired_ttl,
            disable_fallback: self.disable_fallback,
            disable_fallback_if_match: self.disable_fallback_if_match,
            enable_parallel_query: self.enable_parallel_query,
            use_system_hosts: self.use_system_hosts,
        }
    }
}

impl WarpRegistrationDraft {
    /// A field-by-field copy.
    pub fn duplicate(&self) -> (r: Self)
        ensures
            r == *self,
    {
        WarpRegistrationDraft {
            id: self.id.clone(),
            token: self.token.clone(),
            private_key: self.private_key.clone(),
            public_key: self.public_key.clone(),
            peer_public_key: self.peer_public_key.clone(),
            license: self.license.clone(),
            reserved: self.reserved.clone(),
            addresses: self.addresses.clone(),
            endpoint: self.endpoint.clone(),
        }
    }
}

impl WarpRegistration {
    /// A field-by-field copy.
    pub fn duplicate(&self) -> (r: Self)
        ensures
            r@ == self@,
    {
        WarpRegistration {
            id: self.id.clone(),
            token: self.token.clone(),
            private_key: self.private_key.clone(),
            public_key: self.public_key.clone(),
            peer_public_key: self.peer_public_key.clone(),
            license: self.license.clone(),
            reserved: copy_u8_list(&self.reserved),
            addresses: copy_strings(&self.addresses),
            endpoint: self.endpoint.clone(),
        }
    }
}

impl NodeConfigDraft {
    /// A field-by-field copy.
    pub fn duplicate(&self) -> (r: Self)
        ensures
            r@ == self@,
    {
        let r = NodeConfigDraft {
            reverse_proxies: copy_reverseproxydraft_list(&self.reverse_proxies),
            outbounds: copy_outboundentrydraft_list(&self.outbounds),
            certificates: copy_certificatedraft_list(&self.certificates),
            inbounds: copy_inboundentrydraft_list(&self.inbounds),
            master_key: self.master_key.clone(),
            routing_rules: copy_routingruledraft_list(&self.routing_rules),
            dns: self.dns.duplicate(),
            link_remark_template: self.link_remark_template.clone(),
            warp_registration: self.warp_registration.duplicate(),
        };
        assert(r@.inbounds =~= self@.inbounds);
        assert(r@.outbounds =~= self@.outbounds);
        r
    }
}

impl NodeConfigRevision {
    /// A field-by-field copy.
    pub fn duplicate(&self) -> (r: Self)
        ensures
            r@ == self@,
    {
        NodeConfigRevision {
            id: self.id.clone(),
            created_at: self.created_at.clone(),
            config: self.config.duplicate(),
        }
    }
}

/// A copy of a list of `CertificateDraft`.
pub fn copy_certificatedraft_list(v: &Vec<CertificateDraft>) -> (r: Vec<CertificateDraft>)
    ensures
        r@ == v@,
{
    let mut out: Vec<CertificateDraft> = Vec::new();
    let mut i: usize = 0;
    while i < v.len()
        invariant
            i <= v@.len(),
            out@ == v@.take(i as int),
        decreases v@.len() - i,
    {
        out.push(v[i].duplicate());
        i = i + 1;
        assert(out@ =~= v@.take(i as int));
    }
    assert(v@.take(v@.len() as int) =~= v@);
    out
}

/// A copy of a list of `DnsHostDraft`.
pub fn copy_dnshostdraft_list(v: &Vec<DnsHostDraft>) -> (r: Vec<DnsHostDraft>)
    ensures
        r@ == v@,
{
    let mut out: Vec<DnsHostDraft> = Vec::new();
    let mut i: usize = 0;
    while i < v.len()
        invariant
            i <= v@.len(),
            out@ == v@.take(i as int),
        decreases v@.len() - i,
    {
        out.push(v[i].duplicate());
        i = i + 1;
        assert(out@ =~= v@.take(i as int));
    }
    assert(v@.take(v@.len() as int) =~= v@);
    out
}

/// A copy of a list of `DnsServerDraft`.
pub fn copy_dnsserverdraft_list(v: &Vec<DnsServerDraft>) -> (r: Vec<DnsServerDraft>)
    ensures
        r@ == v@,
{
    let mut out: Vec<DnsServerDraft> = Vec::new();
    let mut i: usize = 0;
    while i < v.len()
        invariant
            i <= v@.len(),
            out@ == v@.take(i as int),
        decreases v@.len() - i,
    {
        out.push(v[i].duplicate());
        i = i + 1;
        assert(out@ =~= v@.take(i as int));
    }
    assert(v@.take(v@.len() as int) =~= v@);
    out
}

/// A copy of a list of `InboundEntryDraft`.
pub fn copy_inboundentrydraft_list(v: &Vec<InboundEntryDraft>) -> (r: Vec<InboundEntryDraft>)
    ensures
        r@.len() == v@.len(),
        forall|k: int| 0 <= k < v@.len() ==> (#[trigger] r@[k])@ == v@[k]@,
{
    let mut out: Vec<InboundEntryDraft> = Vec::new();
    let mut i: usize = 0;
    while i < v.len()
        invariant
            i <= v@.len(),
            out@.len() == i,
            forall|k: int| 0 <= k < i ==> (#[trigger] out@[k])@ == v@[k]@,
        decreases v@.len() - i,
    {
        out.push(v[i].duplicate());
        i = i + 1;
    }
    out
}

/// A copy of a list of `OutboundEntryDraft`.
pub fn copy_outboundentrydraft_list(v: &Vec<OutboundEntryDraft>) -> (r: Vec<OutboundEntryDraft>)
    ensures
        r@.len() == v@.len(),
        forall|k: int| 0 <= k < v@.len() ==> (#[trigger] r@[k])@ == v@[k]@,
{
    let mut out: Vec<OutboundEntryDraft> = Vec::new();
    let mut i: usize = 0;
    while i < v.len()
        invariant
            i <= v@.len(),
            out@.len() == i,
            forall|k: int| 0 <= k < i ==> (#[trigger] out@[k])@ == v@[k]@,
        decreases v@.len() - i,
    {
        out.push(v[i].duplicate());
        i = i + 1;
    }
    out
}

/// A copy of a list of `ReverseProxyDraft`.
pub fn copy_reverseproxydraft_list(v: &Vec<ReverseProxyDraft>) -> (r: Vec<ReverseProxyDraft>)
    ensures
        r@ == v@,
{
    let mut out: Vec<ReverseProxyDraft> = Vec::new();
    let mut i: usize = 0;
    while i < v.len()
        invariant
            i <= v@.len(),
            out@ == v@.take(i as int),
        decreases v@.len() - i,
    {
        out.push(v[i].duplicate());
        i = i + 1;
        assert(out@ =~= v@.take(i as int));
    }
    assert(v@.take(v@.len() as int) =~= v@);
    out
}

/// A copy of a list of `RoutingRuleDraft`.
pub fn copy_routingruledraft_list(v: &Vec<RoutingRuleDraft>) -> (r: Vec<RoutingRuleDraft>)
    ensures
        r@ == v@,
{
    let mut out: Vec<RoutingRuleDraft> = Vec::new();
    let mut i: usize = 0;
    while i < v.len()
        invariant
            i <= v@.len(),
            out@ == v@.take(i as int),
        decreases v@.len() - i,
    {
        out.push(v[i].duplicate());
        i = i + 1;
        assert(out@ =~= v@.take(i as int));
    }
    assert(v@.take(v@.len() as int) =~= v@);
    out
}

/// A copy of a list of `WireGuardPeerItem`.
pub fn copy_wireguardpeeritem_list(v: &Vec<WireGuardPeerItem>) -> (r: Vec<WireGuardPeerItem>)
    ensures
        r@ == v@,
{
    let mut out: Vec<WireGuardPeerItem> = Vec::new();
    let mut i: usize = 0;
    while i < v.len()
        invariant
            i <= v@.len(),
            out@ == v@.take(i as int),
        decreases v@.len() - i,
    {
        out.push(v[i].duplicate());
        i = i + 1;
        assert(out@ =~= v@.take(i as int));
    }
    assert(v@.take(v@.len() as int) =~= v@);
    out
}

/// A copy of a list of `u8`.
pub fn copy_u8_list(v: &Vec<u8>) -> (r: Vec<u8>)
    ensures
        r@ == v@,
{
    let mut out: Vec<u8> = Vec::new();
    let mut i: usize = 0;
    while i < v.len()
        invariant
            i <= v@.len(),
            out@ == v@.take(i as int),
        decreases v@.len() - i,
    {
        out.push(v[i]);
        i = i + 1;
        assert(out@ =~= v@.take(i as int));
    }
    assert(v@.take(v@.len() as int) =~= v@);
    out
}

/// A copy of a list of strings.
pub fn copy_strings(v: &Vec<String>) -> (r: Vec<String>)
    ensures
        r@ == v@,
{
    let mut out: Vec<String> = Vec::new();
    let mut i: usize = 0;
    while i < v.len()
        invariant
            i <= v@.len(),
            out@ == v@.take(i as int),
        decreases v@.len() - i,
    {
        out.push(v[i].clone());
        i = i + 1;
        assert(out@ =~= v@.take(i as int));
    }
    assert(v@.take(v@.len() as int) =~= v@);
    out
}

impl CertificateDraft {
    /// Every field holds its default value: empty texts and lists, zero,
    /// false, none.
    pub open spec fn is_default(self) -> bool {
        &&& self.id@.len() == 0
        &&& self.name@.len() == 0
        &&& self.cert_type@.len() == 0
        &&& self.source@.len() == 0
        &&& self.acme_type@.len() == 0
        &&& self.acme_ca@.len() == 0
        &&& self.acme_email@.len() == 0
        &&& self.acme_domain@.len() == 0
        &&& self.acme_port == 0
        &&& self.acme_http_port == 0
        &&& self.certificate_pem@.len() == 0
        &&& self.key_pem@.len() == 0
        &&& self.certificate_path@.len() == 0
        &&& self.key_path@.len() == 0
        &&& self.expiry_time == 0
    }
}

impl Default for CertificateDraft {
    fn default() -> (r: Self)
        ensures
            r.is_default(),
    {
        CertificateDraft {
            id: String::new(),
            name: String::new(),
            cert_type: String::new(),
            source: String::new(),
            acme_type: String::new(),
            acme_ca: String::new(),
            acme_email: String::new(),
            acme_domain: String::new(),
            acme_port: 0,
            acme_http_port: 0,
            certificate_pem: String::new(),
            key_pem: String::new(),
            certificate_path: String::new(),
            key_path: String::new(),
            expiry_time: 0,
        }
    }
}

impl TlsDraft {
    /// Every field holds its default value: empty texts and lists, zero,
    /// false, none.
    pub open spec fn is_default(self) -> bool {
        &&& !self.enabled
        &&& self.server_name@.len() == 0
        &&& self.certificate_name@.len() == 0
    }
}

impl Default for TlsDraft {
    fn default() -> (r: Self)
        ensures
            r.is_default(),
    {
        TlsDraft {
            enabled: false,
            server_name: String::new(),
            certificate_name: String::new(),
        }
    }
}

impl VlessInboundDraft {
    /// Every field holds its default value: empty texts and lists, zero,
    /// false, none.
    pub open spec fn is_default(self) -> bool {
        &&& self.security@.len() == 0
        &&& self.transmission@.len() == 0
        &&& self.flow@.len() == 0
        &&& self.reality_dest@.len() == 0
        &&& self.reality_private_key@.len() == 0
        &&& self.reality_public_key@.len() == 0
        &&& self.reality_short_ids@.len() == 0
        &&& self.reality_sni@.len() == 0
        &&& self.reality_utls@.len() == 0
        &&& self.reality_spider_x@.len() == 0
    }
}

impl Default for VlessInboundDraft {
    fn default() -> (r: Self)
        ensures
            r.is_default(),
    {
        VlessInboundDraft {
            security: String::new(),
            transmission: String::new(),
            flow: String::new(),
            reality_dest: String::new(),
            reality_private_key: String::new(),
            reality_public_key: String::new(),
            reality_short_ids: String::new(),
            reality_sni: String::new(),
            reality_utls: String::new(),
            reality_spider_x: String::new(),
        }
    }
}

impl Hysteria2Draft {
    /// Every field holds its default value: empty texts and lists, zero,
    /// false, none.
    pub open spec fn is_default(self) -> bool {
        &&& self.password@.len() == 0
        &&& self.obfs_type@.len() == 0
        &&& self.obfs_password@.len() == 0
        &&& self.up_mbps == 0
        &&& self.down_mbps == 0
        &&& !self.ignore_client_bandwidth
        &&& self.masquerade@.len() == 0
        &&& self.bbr_profile@.len() == 0
        &&& !self.brutal_debug
    }
}

impl Default for Hysteria2Draft {
    fn default() -> (r: Self)
        ensures
            r.is_default(),
    {
        Hysteria2Draft {
            password: String::new(),
            obfs_type: String::new(),
            obfs_password: String::new(),
            up_mbps: 0,
            down_mbps: 0,
            ignore_client_bandwidth: false,
            masquerade: String::new(),
            bbr_profile: String::new(),
            brutal_debug: false,
        }
    }
}

impl TrustTunnelDraft {
    /// Every field holds its default value: empty texts and lists, zero,
    /// false, none.
    pub open spec fn is_default(self) -> bool {
        &&& self.link_type@.len() == 0
        &&& self.http1_upload_buffer_size == 0
        &&& self.http2_initial_connection_window_size == 0
        &&& self.http2_initial_stream_window_size == 0
        &&& self.http2_max_concurrent_streams == 0
        &&& self.http2_max_frame_size == 0
        &&& self.http2_header_table_size == 0
    }
}

impl Default for TrustTunnelDraft {
    fn default() -> (r: Self)
        ensures
            r.is_default(),
    {
        TrustTunnelDraft {
            link_type: String::new(),
            http1_upload_buffer_size: 0,
            http2_initial_connection_window_size: 0,
            http2_initial_stream_window_size: 0,
            http2_max_concurrent_streams: 0,
            http2_max_frame_size: 0,
            http2_header_table_size: 0,
        }
    }
}

impl NaiveProxyDraft {
    /// Every field holds its default value: empty texts and lists, zero,
    /// false, none.
    pub open spec fn is_default(self) -> bool {
        &&& self.network@.len() == 0
        &&& self.quic_congestion_control@.len() == 0
    }
}

impl Default for NaiveProxyDraft {
    fn default() -> (r: Self)
        ensures
            r.is_default(),
    {
        NaiveProxyDraft {
            network: String::new(),
            quic_congestion_control: String::new(),
        }
    }
}

impl WireGuardPeerItem {
    /// Every field holds its default value: empty texts and lists, zero,
    /// false, none.
    pub open spec fn is_default(self) -> bool {
        &&& self.public_key@.len() == 0
        &&& self.endpoint@.len() == 0
        &&& self.allowed_ips@.len() == 0
    }
}

impl Default for WireGuardPeerItem {
    fn default() -> (r: Self)
        ensures
            r.is_default(),
    {
        WireGuardPeerItem {
            public_key: String::new(),
            endpoint: String::new(),
            allowed_ips: String::new(),
        }
    }
}

impl WireGuardDraft {
    /// Every field holds its default value: empty texts and lists, zero,
    /// false, none.
    pub open spec fn is_default(self) -> bool {
        &&& self.tag@.len() == 0
        &&& self.private_key@.len() == 0
        &&& self.workers == 0
        &&& self.addresses@.len() == 0
        &&& self.peers@.len() == 0
        &&& self.mtu == 0
        &&& self.reserved@.len() == 0
        &&& self.domain_strategy@.len() == 0
        &&& self.warp_id@.len() == 0
        &&& self.warp_token@.len() == 0
    }

    /// Every field but the tag holds its default value.
    pub open spec fn is_default_but_tag(self) -> bool {
        &&& self.private_key@.len() == 0
        &&& self.workers == 0
        &&& self.addresses@.len() == 0
        &&& self.peers@.len() == 0
        &&& self.mtu == 0
        &&& self.reserved@.len() == 0
        &&& self.domain_strategy@.len() == 0
        &&& self.warp_id@.len() == 0
        &&& self.warp_token@.len() == 0
    }
}

impl Default for WireGuardDraft {
    fn default() -> (r: Self)
        ensures
            r.is_default(),
    {
        WireGuardDraft {
            tag: String::new(),
            private_key: String::new(),
            workers: 0,
            addresses: String::new(),
            peers: Vec::new(),
            mtu: 0,
            reserved: String::new(),
            domain_strategy: String::new(),
            warp_id: String::new(),
            warp_token: String::new(),
        }
    }
}

impl Socks5Draft {
    /// Every field holds its default value: empty texts and lists, zero,
    /// false, none.
    pub open spec fn is_default(self) -> bool {
        &&& self.tag@.len() == 0
        &&& self.server@.len() == 0
        &&& self.port == 0
        &&& self.username@.len() == 0
        &&& self.password@.len() == 0
        &&& !self.udp_enabled
    }

    /// Every field but the tag holds its default value.
    pub open spec fn is_default_but_tag(self) -> bool {
        &&& self.server@.len() == 0
        &&& self.port == 0
        &&& self.username@.len() == 0
        &&& self.password@.len() == 0
        &&& !self.udp_enabled
    }

    /// Every field but the port holds its default value.
    pub open spec fn is_default_but_port(self) -> bool {
        &&& self.tag@.len() == 0
        &&& self.server@.len() == 0
        &&& self.username@.len() == 0
        &&& self.password@.len() == 0
        &&& !self.udp_enabled
    }
}

impl Default for Socks5Draft {
    fn default() -> (r: Self)
        ensures
            r.is_default(),
    {
        Socks5Draft {
            tag: String::new(),
            server: String::new(),
            port: 0,
            username: String::new(),
            password: String::new(),
            udp_enabled: false,
        }
    }
}

impl ShadowsocksDraft {
    /// Every field holds its default value: empty texts and lists, zero,
    /// false, none.
    pub open spec fn is_default(self) -> bool {
        &&& self.tag@.len() == 0
        &&& self.server@.len() == 0
        &&& self.port == 0
        &&& self.method@.len() == 0
        &&& self.password@.len() == 0
        &&& self.plugin@.len() == 0
        &&& self.plugin_opts@.len() == 0
        &&& self.prefix@.len() == 0
        &&& !self.udp_enabled
    }

    /// Every field but the tag holds its default value.
    pub open spec fn is_default_but_tag(self) -> bool {
        &&& self.server@.len() == 0
        &&& self.port == 0
        &&& self.method@.len() == 0
        &&& self.password@.len() == 0
        &&& self.plugin@.len() == 0
        &&& self.plugin_opts@.len() == 0
        &&& self.prefix@.len() == 0
        &&& !self.udp_enabled
    }
}

impl Default for ShadowsocksDraft {
    fn default() -> (r: Self)
        ensures
            r.is_default(),
    {
        ShadowsocksDraft {
            tag: String::new(),
            server: String::new(),
            port: 0,
            method: String::new(),
            password: String::new(),
            plugin: String::new(),
            plugin_opts: String::new(),
            prefix: String::new(),
            udp_enabled: false,
        }
    }
}

impl ReverseProxyDraft {
    /// Every field holds its default value: empty texts and lists, zero,
    /// false, none.
    pub open spec fn is_default(self) -> bool {
        &&& !self.enabled
        &&& self.mode@.len() == 0
        &&& self.tag@.len() == 0
        &&& self.domain@.len() == 0
        &&& self.bridge_outbound_tag@.len() == 0
        &&& self.target_outbound_tag@.len() == 0
        &&& self.portal_inbound_tag@.len() == 0
    }

    /// Every field but the tag holds its default value.
    pub open spec fn is_default_but_tag(self) -> bool {
        &&& !self.enabled
        &&& self.mode@.len() == 0
        &&& self.domain@.len() == 0
        &&& self.bridge_outbound_tag@.len() == 0
        &&& self.target_outbound_tag@.len() == 0
        &&& self.portal_inbound_tag@.len() == 0
    }
}

impl Default for ReverseProxyDraft {
    fn default() -> (r: Self)
        ensures
            r.is_default(),
    {
        ReverseProxyDraft {
            enabled: false,
            mode: String::new(),
            tag: String::new(),
            domain: String::new(),
            bridge_outbound_tag: String::new(),
            target_outbound_tag: String::new(),
            portal_inbound_tag: String::new(),
        }
    }
}

impl TunnelDraft {
    /// Every field holds its default value: empty texts and lists, zero,
    /// false, none.
    pub open spec fn is_default(self) -> bool {
        &&& self.allowed_network@.len() == 0
    }
}

impl Default for TunnelDraft {
    fn default() -> (r: Self)
        ensures
            r.is_default(),
    {
        TunnelDraft {
            allowed_network: String::new(),
        }
    }
}

impl TProxyDraft {
    /// Every field holds its default value: empty texts and lists, zero,
    /// false, none.
    pub open spec fn is_default(self) -> bool {
        &&& self.network@.len() == 0
        &&& !self.sniffing_enabled
        &&& self.sniffing_dest_override@.len() == 0
        &&& !self.sniffing_route_only
        &&& self.socket_mark == 0
    }
}

impl Default for TProxyDraft {
    fn default() -> (r: Self)
        ensures
            r.is_default(),
    {
        TProxyDraft {
            network: String::new(),
            sniffing_enabled: false,
            sniffing_dest_override: String::new(),
            sniffing_route_only: false,
            socket_mark: 0,
        }
    }
}

impl TrojanDraft {
    /// Every field holds its default value: empty texts and lists, zero,
    /// false, none.
    pub open spec fn is_default(self) -> bool {
        &&& self.tag@.len() == 0
        &&& self.server@.len() == 0
        &&& self.port == 0
        &&& self.password@.len() == 0
        &&& !self.tls_enabled
        &&& self.sni@.len() == 0
        &&& self.fallback@.len() == 0
    }

    /// Every field but the tag holds its default value.
    pub open spec fn is_default_but_tag(self) -> bool {
        &&& self.server@.len() == 0
        &&& self.port == 0
        &&& self.password@.len() == 0
        &&& !self.tls_enabled
        &&& self.sni@.len() == 0
        &&& self.fallback@.len() == 0
    }
}

impl Default for TrojanDraft {
    fn default() -> (r: Self)
        ensures
            r.is_default(),
    {
        TrojanDraft {
            tag: String::new(),
            server: String::new(),
            port: 0,
            password: String::new(),
            tls_enabled: false,
            sni: String::new(),
            fallback: String::new(),
        }
    }
}

impl InboundEntryDraft {
    /// Every field holds its default value: empty texts and lists, zero,
    /// false, none.
    pub open spec fn is_default(self) -> bool {
        &&& self.id@.len() == 0
        &&& self.name@.len() == 0
        &&& self.groups@.len() == 0
        &&& self.listen@.len() == 0
        &&& self.port == 0
        &&& !self.enabled
        &&& self.core_type@.len() == 0
        &&& self.protocol@.len() == 0
        &&& self.tls.is_default()
        &&& self.vless.is_default()
        &&& self.hysteria2.is_default()
        &&& self.trust_tunnel.is_default()
        &&& self.naive_proxy.is_default()
        &&& self.wireguard.is_default()
        &&& self.socks5.is_default()
        &&& self.shadowsocks.is_default()
        &&& self.reverse_proxy.is_default()
        &&& self.tunnel.is_default()
        &&& self.tproxy.is_default()
        &&& self.trojan.is_default()
    }
}

impl Default for InboundEntryDraft {
    fn default() -> (r: Self)
        ensures
            r.is_default(),
    {
        InboundEntryDraft {
            id: String::new(),
            name: String::new(),
            groups: Vec::new(),
            listen: String::new(),
            port: 0,
            enabled: false,
            core_type: String::new(),
            protocol: String::new(),
            tls: TlsDraft::default(),
            vless: VlessInboundDraft::default(),
            hysteria2: Hysteria2Draft::default(),
            trust_tunnel: TrustTunnelDraft::default(),
            naive_proxy: NaiveProxyDraft::default(),
            wireguard: WireGuardDraft::default(),
            socks5: Socks5Draft::default(),
            shadowsocks: ShadowsocksDraft::default(),
            reverse_proxy: ReverseProxyDraft::default(),
            tunnel: TunnelDraft::default(),
            tproxy: TProxyDraft::default(),
            trojan: TrojanDraft::default(),
        }
    }
}

impl VlessOutboundDraft {
    /// Every field holds its default value: empty texts and lists, zero,
    /// false, none.
    pub open spec fn is_default(self) -> bool {
        &&& self.tag@.len() == 0
        &&& self.server@.len() == 0
        &&& self.port == 0
        &&& self.uuid@.len() == 0
        &&& self.flow@.len() == 0
        &&& self.security@.len() == 0
        &&& self.transmission@.len() == 0
        &&& self.tls_server_name@.len() == 0
        &&& self.reality_sni@.len() == 0
        &&& self.reality_public_key@.len() == 0
        &&& self.reality_short_ids@.len() == 0
        &&& self.reality_utls@.len() == 0
        &&& self.reality_spider_x@.len() == 0
    }

    /// Every field but the tag holds its default value.
    pub open spec fn is_default_but_tag(self) -> bool {
        &&& self.server@.len() == 0
        &&& self.port == 0
        &&& self.uuid@.len() == 0
        &&& self.flow@.len() == 0
        &&& self.security@.len() == 0
        &&& self.transmission@.len() == 0
        &&& self.tls_server_name@.len() == 0
        &&& self.reality_sni@.len() == 0
        &&& self.reality_public_key@.len() == 0
        &&& self.reality_short_ids@.len() == 0
        &&& self.reality_utls@.len() == 0
        &&& self.reality_spider_x@.len() == 0
    }
}

impl Default for VlessOutboundDraft {
    fn default() -> (r: Self)
        ensures
            r.is_default(),
    {
        VlessOutboundDraft {
            tag: String::new(),
            server: String::new(),
            port: 0,
            uuid: String::new(),
            flow: String::new(),
            security: String::new(),
            transmission: String::new(),
            tls_server_name: String::new(),
            reality_sni: String::new(),
            reality_public_key: String::new(),
            reality_short_ids: String::new(),
            reality_utls: String::new(),
            reality_spider_x: String::new(),
        }
    }
}

impl TrustTunnelOutboundDraft {
    /// Every field holds its default value: empty texts and lists, zero,
    /// false, none.
    pub open spec fn is_default(self) -> bool {
        &&& self.tag@.len() == 0
        &&& self.http1_upload_buffer_size == 0
        &&& self.http2_initial_connection_window_size == 0
        &&& self.http2_initial_stream_window_size == 0
        &&& self.http2_max_concurrent_streams == 0
        &&& self.http2_max_frame_size == 0
        &&& self.http2_header_table_size == 0
    }

    /// Every field but the tag holds its default value.
    pub open spec fn is_default_but_tag(self) -> bool {
        &&& self.http1_upload_buffer_size == 0
        &&& self.http2_initial_connection_window_size == 0
        &&& self.http2_initial_stream_window_size == 0
        &&& self.http2_max_concurrent_streams == 0
        &&& self.http2_max_frame_size == 0
        &&& self.http2_header_table_size == 0
    }
}

impl Default for TrustTunnelOutboundDraft {
    fn default() -> (r: Self)
        ensures
            r.is_default(),
    {
        TrustTunnelOutboundDraft {
            tag: String::new(),
            http1_upload_buffer_size: 0,
            http2_initial_connection_window_size: 0,
            http2_initial_stream_window_size: 0,
            http2_max_concurrent_streams: 0,
            http2_max_frame_size: 0,
            http2_header_table_size: 0,
        }
    }
}

impl CustomOutboundDraft {
    /// Every field holds its default value: empty texts and lists, zero,
    /// false, none.
    pub open spec fn is_default(self) -> bool {
        &&& self.tag@.len() == 0
        &&& self.handler_name@.len() == 0
        &&& self.config_json@.len() == 0
    }

    /// Every field but the tag holds its default value.
    pub open spec fn is_default_but_tag(self) -> bool {
        &&& self.handler_name@.len() == 0
        &&& self.config_json@.len() == 0
    }
}

impl Default for CustomOutboundDraft {
    fn default() -> (r: Self)
        ensures
            r.is_default(),
    {
        CustomOutboundDraft {
            tag: String::new(),
            handler_name: String::new(),
            config_json: String::new(),
        }
    }
}

impl OutboundEntryDraft {
    /// Every field holds its default value: empty texts and lists, zero,
    /// false, none.
    pub open spec fn is_default(self) -> bool {
        &&& self.id@.len() == 0
        &&& self.name@.len() == 0
        &&& self.outbound_type@.len() == 0
        &&& !self.enabled
        &&& !self.builtin
        &&& self.vless.is_default()
        &&& self.trust_tunnel.is_default()
        &&& self.wireguard.is_default()
        &&& self.socks5.is_default()
        &&& self.shadowsocks.is_default()
        &&& self.trojan.is_default()
        &&& self.custom.is_default()
    }
}

impl Default for OutboundEntryDraft {
    fn default() -> (r: Self)
        ensures
            r.is_default(),
    {
        OutboundEntryDraft {
            id: String::new(),
            name: String::new(),
            outbound_type: String::new(),
            enabled: false,
            builtin: false,
            vless: VlessOutboundDraft::default(),
            trust_tunnel: TrustTunnelOutboundDraft::default(),
            wireguard: WireGuardDraft::default(),
            socks5: Socks5Draft::default(),
            shadowsocks: ShadowsocksDraft::default(),
            trojan: TrojanDraft::default(),
            custom: CustomOutboundDraft::default(),
        }
    }
}

impl RoutingRuleDraft {
    /// Every field holds its default value: empty texts and lists, zero,
    /// false, none.
    pub open spec fn is_default(self) -> bool {
        &&& !self.enabled
        &&& self.remark@.len() == 0
        &&& self.domain@.len() == 0
        &&& self.ip@.len() == 0
        &&& self.port@.len() == 0
        &&& self.transport@.len() == 0
        &&& self.protocol@.len() == 0
        &&& self.inbound_tag@.len() == 0
        &&& self.user@.len() == 0
        &&& self.outbound_tag@.len() == 0
    }
}

impl Default for RoutingRuleDraft {
    fn default() -> (r: Self)
        ensures
            r.is_default(),
    {
        RoutingRuleDraft {
            enabled: false,
            remark: String::new(),
            domain: String::new(),
            ip: String::new(),
            port: String::new(),
            transport: String::new(),
            protocol: String::new(),
            inbound_tag: String::new(),
            user: String::new(),
            outbound_tag: String::new(),
        }
    }
}

impl DnsServerDraft {
    /// Every field holds its default value: empty texts and lists, zero,
    /// false, none.
    pub open spec fn is_default(self) -> bool {
        &&& self.address@.len() == 0
        &&& self.client_ip@.len() == 0
        &&& self.port == 0
        &&& !self.skip_fallback
        &&& self.domains@.len() == 0
        &&& self.expect_ips@.len() == 0
        &&& self.query_strategy@.len() == 0
        &&& self.tag@.len() == 0
        &&& self.timeout_ms == 0
        &&& self.disable_cache is None
        &&& self.serve_stale is None
        &&& self.serve_expired_ttl is None
        &&& !self.final_query
        &&& self.unexpected_ips@.len() == 0
    }

    /// Every field but the tag holds its default value.
    pub open spec fn is_default_but_tag(self) -> bool {
        &&& self.address@.len() == 0
        &&& self.client_ip@.len() == 0
        &&& self.port == 0
        &&& !self.skip_fallback
        &&& self.domains@.len() == 0
        &&& self.expect_ips@.len() == 0
        &&& self.query_strategy@.len() == 0
        &&& self.timeout_ms == 0
        &&& self.disable_cache is None
        &&& self.serve_stale is None
        &&& self.serve_expired_ttl is None
        &&& !self.final_query
        &&& self.unexpected_ips@.len() == 0
    }
}

impl Default for DnsServerDraft {
    fn default() -> (r: Self)
        ensures
            r.is_default(),
    {
        DnsServerDraft {
            address: String::new(),
            client_ip: String::new(),
            port: 0,
            skip_fallback: false,
            domains: String::new(),
            expect_ips: String::new(),
            query_strategy: String::new(),
            tag: String::new(),
            timeout_ms: 0,
            disable_cache: None,
            serve_stale: None,
            serve_expired_ttl: None,
            final_query: false,
            unexpected_ips: String::new(),
        }
    }
}

impl DnsHostDraft {
    /// Every field holds its default value: empty texts and lists, zero,
    /// false, none.
    pub open spec fn is_default(self) -> bool {
        &&& self.domain@.len() == 0
        &&& self.values@.len() == 0
    }
}

impl Default for DnsHostDraft {
    fn default() -> (r: Self)
        ensures
            r.is_default(),
    {
        DnsHostDraft {
            domain: String::new(),
            values: String::new(),
        }
    }
}

impl DnsDraft {
    /// Every field holds its default value: empty texts and lists, zero,
    /// false, none.
    pub open spec fn is_default(self) -> bool {
        &&& self.servers@.len() == 0
        &&& self.hosts@.len() == 0
        &&& self.client_ip@.len() == 0
        &&& self.tag@.len() == 0
        &&& self.query_strategy@.len() == 0
        &&& !self.disable_cache
        &&& !self.serve_stale
        &&& self.serve_expired_ttl == 0
        &&& !self.disable_fallback
        &&& !self.disable_fallback_if_match
        &&& !self.enable_parallel_query
        &&& !self.use_system_hosts
    }

    /// Every field but the tag holds its default value.
    pub open spec fn is_default_but_tag(self) -> bool {
        &&& self.servers@.len() == 0
        &&& self.hosts@.len() == 0
        &&& self.client_ip@.len() == 0
        &&& self.query_strategy@.len() == 0
        &&& !self.disable_cache
        &&& !self.serve_stale
        &&& self.serve_expired_ttl == 0
        &&& !self.disable_fallback
        &&& !self.disable_fallback_if_match
        &&& !self.enable_parallel_query
        &&& !self.use_system_hosts
    }
}

impl Default for DnsDraft {
    fn default() -> (r: Self)
        ensures
            r.is_default(),
    {
        DnsDraft {
            servers: Vec::new(),
            hosts: Vec::new(),
            client_ip: String::new(),
            tag: String::new(),
            query_strategy: String::new(),
            disable_cache: false,
            serve_stale: false,
            serve_expired_ttl: 0,
            disable_fallback: false,
            disable_fallback_if_match: false,
            enable_parallel_query: false,
            use_system_hosts: false,
        }
    }
}

impl WarpRegistrationDraft {
    /// Every field holds its default value: empty texts and lists, zero,
    /// false, none.
    pub open spec fn is_default(self) -> bool {
        &&& self.id@.len() == 0
        &&& self.token@.len() == 0
        &&& self.private_key@.len() == 0
        &&& self.public_key@.len() == 0
        &&& self.peer_public_key@.len() == 0
        &&& self.license@.len() == 0
        &&& self.reserved@.len() == 0
        &&& self.addresses@.len() == 0
        &&& self.endpoint@.len() == 0
    }
}

impl Default for WarpRegistrationDraft {
    fn default() -> (r: Self)
        ensures
            r.is_default(),
    {
        WarpRegistrationDraft {
            id: String::new(),
            token: String::new(),
            private_key: String::new(),
            public_key: String::new(),
            peer_public_key: String::new(),
            license: String::new(),
            reserved: String::new(),
            addresses: String::new(),
            endpoint: String::new(),
        }
    }
}

impl NodeConfigDraft {
    /// Every field holds its default value: empty texts and lists, zero,
    /// false, none.
    pub open spec fn is_default(self) -> bool {
        &&& self.reverse_proxies@.len() == 0
        &&& self.outbounds@.len() == 0
        &&& self.certificates@.len() == 0
        &&& self.inbounds@.len() == 0
        &&& self.master_key@.len() == 0
        &&& self.routing_rules@.len() == 0
        &&& self.dns.is_default()
        &&& self.link_remark_template@.len() == 0
        &&& self.warp_registration.is_default()
    }
}

impl Default for NodeConfigDraft {
    fn default() -> (r: Self)
        ensures
            r.is_default(),
    {
        NodeConfigDraft {
            reverse_proxies: Vec::new(),
            outbounds: Vec::new(),
            certificates: Vec::new(),
            inbounds: Vec::new(),
            master_key: String::new(),
            routing_rules: Vec::new(),
            dns: DnsDraft::default(),
            link_remark_template: String::new(),
            warp_registration: WarpRegistrationDraft::default(),
        }
    }
}

} // verus!
