//! The node configuration that is deployed to a proxy node: accounts,
//! inbound listeners with their protocol settings, outbounds, certificates,
//! routing rules and DNS.

use vstd::prelude::*;
use crate::dns::DnsConfig;
use crate::protocols::{CoreType, SecurityMode};

verus! {

/// An account allowed on the node.
#[derive(Clone, Debug, PartialEq, Eq)]
pub struct Account {
    pub id: String,
    pub allowed_ips: Vec<String>,
    pub groups: Vec<String>,
    pub expiry_time: i64,
    pub token: String,
}

/// TLS settings of an inbound.
#[derive(Clone, Debug, PartialEq, Eq)]
pub struct TlsConfig {
    pub enabled: bool,
    pub server_name: String,
    pub certificate_name: String,
}

/// REALITY settings of a VLESS inbound.
#[derive(Clone, Debug, PartialEq, Eq)]
pub struct VlessRealityConfig {
    pub dest: String,
    pub private_key: String,
    pub short_id: Vec<String>,
    pub public_key: String,
    pub sni: String,
    pub utls: String,
    pub spider_x: String,
}

/// A VLESS inbound.
#[derive(Clone, Debug, PartialEq, Eq)]
pub struct VlessConfig {
    pub uuid: String,
    pub flow: String,
    pub security: SecurityMode,
    pub transmission: String,
    pub tls: Option<TlsConfig>,
    pub reality: Option<VlessRealityConfig>,
}

/// A Hysteria2 inbound.
#[derive(Clone, Debug, PartialEq, Eq)]
pub struct Hysteria2Config {
    pub password: String,
    pub obfs_type: String,
    pub obfs_password: String,
    pub up_mbps: u32,
    pub down_mbps: u32,
    pub tls: Option<TlsConfig>,
    pub ignore_client_bandwidth: bool,
    pub masquerade: String,
    pub bbr_profile: String,
    pub brutal_debug: bool,
}

/// TrustTunnel settings, of an inbound or an outbound.
#[derive(Clone, Debug, PartialEq, Eq)]
pub struct TrustTunnelConfig {
    pub http1_upload_buffer_size: u32,
    pub http2_initial_connection_window_size: u32,
    pub http2_initial_stream_window_size: u32,
    pub http2_max_concurrent_streams: u32,
    pub http2_max_frame_size: u32,
    pub http2_header_table_size: u32,
    pub tls: Option<TlsConfig>,
}

/// A NaiveProxy inbound.
#[derive(Clone, Debug, PartialEq, Eq)]
pub struct NaiveProxyConfig {
    pub network: String,
    pub quic_congestion_control: String,
    pub tls: Option<TlsConfig>,
}

/// A WireGuard peer.
#[derive(Clone, Debug, PartialEq, Eq)]
pub struct WireGuardPeer {
    pub public_key: String,
    pub endpoint: String,
    pub allowed_ips: Vec<String>,
    pub reserved: Vec<u32>,
    pub keepalive: u32,
    pub pre_shared_key: String,
}

/// WireGuard settings, of an inbound or an outbound.
#[derive(Clone, Debug, PartialEq, Eq)]
pub struct WireGuardConfig {
    pub private_key: String,
    pub workers: u32,
    pub addresses: Vec<String>,
    pub peers: Vec<WireGuardPeer>,
    pub mtu: u32,
    pub reserved: Vec<u32>,
    pub domain_strategy: String,
}

/// A SOCKS5 inbound.
#[derive(Clone, Debug, PartialEq, Eq)]
pub struct Socks5InboundConfig {
    pub username: String,
    pub password: String,
    pub udp_enabled: bool,
}

/// A Shadowsocks inbound.
#[derive(Clone, Debug, PartialEq, Eq)]
pub struct ShadowsocksInboundConfig {
    pub method: String,
    pub password: String,
    pub udp_enabled: bool,
}

/// A reverse proxy (bridge or portal).
#[derive(Clone, Debug, PartialEq, Eq)]
pub struct ReverseProxyConfig {
    pub mode: String,
    pub tag: String,
    pub domain: String,
    pub bridge_outbound_tag: String,
    pub target_outbound_tag: String,
    pub portal_inbound_tag: String,
}

/// A transparent proxy inbound.
#[derive(Clone, Debug, PartialEq, Eq)]
pub struct TProxyConfig {
    pub network: String,
    pub sniffing_enabled: bool,
    pub sniffing_dest_override: Vec<String>,
    pub sniffing_route_only: bool,
    pub socket_mark: u32,
}

/// A Trojan inbound.
#[derive(Clone, Debug, PartialEq, Eq)]
pub struct TrojanInboundConfig {
    pub password: String,
    pub tls: Option<TlsConfig>,
    pub fallback: String,
}

/// The protocol an inbound serves, with its settings.
#[derive(Clone, Debug, PartialEq, Eq)]
pub enum InboundProtocol {
    Vless(VlessConfig),
    Hysteria2(Hysteria2Config),
    Trusttunnel(TrustTunnelConfig),
    Naiveproxy(NaiveProxyConfig),
    Wireguard(WireGuardConfig),
    Socks5(Socks5InboundConfig),
    Shadowsocks(ShadowsocksInboundConfig),
    Reverseproxy(ReverseProxyConfig),
    Tproxy(TProxyConfig),
    Trojan(TrojanInboundConfig),
    Tunnel,
}

/// An inbound listener.
#[derive(Clone, Debug, PartialEq, Eq)]
pub struct InboundConfig {
    pub name: String,
    pub listen: String,
    pub port: i32,
    pub accounts: Vec<Account>,
    pub enabled: bool,
    pub core: CoreType,
    pub protocol: Option<InboundProtocol>,
}

/// The kind of an outbound.
#[derive(Clone, Copy, Debug, PartialEq, Eq)]
pub enum OutboundKind {
    Direct,
    Block,
    Vless,
    Trusttunnel,
    Wireguard,
    Socks5,
    Shadowsocks,
    Trojan,
}

/// A VLESS outbound.
#[derive(Clone, Debug, PartialEq, Eq)]
pub struct VlessOutboundConfig {
    pub server: String,
    pub port: i32,
    pub uuid: String,
    pub flow: String,
    pub security: SecurityMode,
    pub transmission: String,
}

/// A SOCKS5 outbound.
#[derive(Clone, Debug, PartialEq, Eq)]
pub struct Socks5OutboundConfig {
    pub server: String,
    pub port: i32,
    pub username: String,
    pub password: String,
}

/// A Shadowsocks outbound.
#[derive(Clone, Debug, PartialEq, Eq)]
pub struct ShadowsocksOutboundConfig {
    pub server: String,
    pub port: i32,
    pub method: String,
    pub password: String,
    pub plugin: String,
    pub plugin_opts: String,
    pub prefix: String,
    pub udp_enabled: bool,
}

/// A Trojan outbound.
#[derive(Clone, Debug, PartialEq, Eq)]
pub struct TrojanOutboundConfig {
    pub server: String,
    pub port: i32,
    pub password: String,
    pub tls_enabled: bool,
    pub sni: String,
}

/// The settings of an outbound.
#[derive(Clone, Debug, PartialEq, Eq)]
pub enum OutboundSettings {
    Vless(VlessOutboundConfig),
    Trusttunnel(TrustTunnelConfig),
    Wireguard(WireGuardConfig),
    Socks5(Socks5OutboundConfig),
    Shadowsocks(ShadowsocksOutboundConfig),
    Trojan(TrojanOutboundConfig),
}

/// An outbound.
#[derive(Clone, Debug, PartialEq, Eq)]
pub struct OutboundConfig {
    pub tag: String,
    pub kind: OutboundKind,
    pub settings: Option<OutboundSettings>,
}

/// A certificate issued through ACME.
#[derive(Clone, Debug, PartialEq, Eq)]
pub struct AcmeCertificateConfig {
    pub acme_type: String,
    pub acme_ca: String,
    pub acme_email: String,
    pub acme_domain: String,
    pub acme_port: u32,
    pub acme_http_port: u32,
}

/// A certificate given as PEM texts.
#[derive(Clone, Debug, PartialEq, Eq)]
pub struct CustomCertificateConfig {
    pub certificate_pem: String,
    pub key_pem: String,
}

/// Where a certificate comes from.
#[derive(Clone, Debug, PartialEq, Eq)]
pub enum CertificateKind {
    Acme(AcmeCertificateConfig),
    Custom(CustomCertificateConfig),
}

/// A named certificate.
#[derive(Clone, Debug, PartialEq, Eq)]
pub struct CertificateConfig {
    pub name: String,
    pub kind: Option<CertificateKind>,
}

/// A routing rule: traffic that matches goes to `outbound_tag`.
#[derive(Clone, Debug, PartialEq, Eq)]
pub struct RoutingRule {
    pub domain: Vec<String>,
    pub ip: Vec<String>,
    pub port: Vec<String>,
    pub transport: Vec<String>,
    pub protocol: Vec<String>,
    pub outbound_tag: String,
    pub inbound_tag: Vec<String>,
    pub user: Vec<String>,
}

/// The whole configuration of a node.
#[derive(Clone, Debug, PartialEq, Eq)]
pub struct FullConfig {
    pub master_key: String,
    pub inbounds: Vec<InboundConfig>,
    pub certificates: Vec<CertificateConfig>,
    pub accounts: Vec<Account>,
    pub outbounds: Vec<OutboundConfig>,
    pub routing_rules: Vec<RoutingRule>,
    pub dns: Option<DnsConfig>,
    pub link_remark_template: String,
}

} // verus!
