//! Protocol vocabulary: how user-typed names of protocols, transports,
//! security modes and cores are read, and the labels shown for them.

use vstd::prelude::*;
use vstd::string::*;
use crate::model::{DropdownOption, InboundEntryDraft, OutboundEntryDraft};
use vstd::utf8::is_ascii_chars;
use crate::text::{
    ascii_upper, copy_str, eq_ascii_ci, eq_ignore_ascii_case, eq_str, is_ws, lemma_trimmed_fixed,
    to_upper, trim, trim_upper, trimmed, upper_text, upper_trimmed,
};

verus! {

/// Transport security of a VLESS connection.
#[derive(Clone, Copy, Debug, PartialEq, Eq)]
pub enum SecurityMode {
    Plain,
    Tls,
    Reality,
}

/// The proxy core that runs an inbound.
#[derive(Clone, Copy, Debug, PartialEq, Eq)]
pub enum CoreType {
    Xray,
    SingBox,
}

/// The views of a list of string slices.
pub open spec fn strs(v: Seq<&str>) -> Seq<Seq<char>> {
    Seq::new(v.len(), |i: int| v[i]@)
}

/// The (value, label) pairs of a list of drop-down options.
pub open spec fn option_pairs(v: Seq<DropdownOption>) -> Seq<(Seq<char>, Seq<char>)> {
    Seq::new(v.len(), |i: int| (v[i].value@, v[i].label@))
}

pub open spec fn security_mode_of(u: Seq<char>) -> SecurityMode {
    if u == "TLS"@ {
        SecurityMode::Tls
    } else if u == "REALITY"@ {
        SecurityMode::Reality
    } else {
        SecurityMode::Plain
    }
}

/// Reads a security mode; anything but TLS or REALITY (any case) is none.
pub fn security_from(value: &str) -> (r: SecurityMode)
    ensures
        r == security_mode_of(upper_trimmed(value@)),
{
    let u = trim_upper(value);
    if eq_str(u.as_str(), "TLS") {
        SecurityMode::Tls
    } else if eq_str(u.as_str(), "REALITY") {
        SecurityMode::Reality
    } else {
        SecurityMode::Plain
    }
}

/// The canonical transport name for an upper-cased transport text.
pub open spec fn transmission_of(u: Seq<char>) -> Seq<char> {
    if u == "TCP"@ || u == "TCP (RAW)"@ {
        "TCP"@
    } else if u == "HTTP"@ {
        "HTTP"@
    } else if u == "GRPC"@ {
        "gRPC"@
    } else if u == "WEBSOCKET"@ {
        "WebSocket"@
    } else if u == "MKCP"@ {
        "mKCP"@
    } else if u == "HTTPUPGRADE"@ {
        "HttpUpgrade"@
    } else if u == "SPLITHTTP"@ {
        "SplitHTTP"@
    } else {
        "TCP"@
    }
}

/// Reads a VLESS transport name in any case; unknown names read as TCP.
pub fn vless_transmission_from(value: &str) -> (r: String)
    ensures
        r@ == transmission_of(upper_trimmed(value@)),
{
    let u = trim_upper(value);
    let u = u.as_str();
    if eq_str(u, "TCP") || eq_str(u, "TCP (RAW)") {
        copy_str("TCP")
    } else if eq_str(u, "HTTP") {
        copy_str("HTTP")
    } else if eq_str(u, "GRPC") {
        copy_str("gRPC")
    } else if eq_str(u, "WEBSOCKET") {
        copy_str("WebSocket")
    } else if eq_str(u, "MKCP") {
        copy_str("mKCP")
    } else if eq_str(u, "HTTPUPGRADE") {
        copy_str("HttpUpgrade")
    } else if eq_str(u, "SPLITHTTP") {
        copy_str("SplitHTTP")
    } else {
        copy_str("TCP")
    }
}

proof fn lemma_upper_fixed_text(t: Seq<char>)
    requires
        t.len() > 0,
        !is_ws(t[0]),
        !is_ws(t.last()),
        is_ascii_chars(t),
    ensures
        upper_trimmed(t) == ascii_upper(t),
{
    lemma_trimmed_fixed(t);
}

/// Reading a transport name that was itself read changes nothing: every
/// canonical transport name reads as itself.
pub proof fn law_transmission_canonical(u: Seq<char>)
    ensures
        transmission_of(upper_trimmed(transmission_of(u))) == transmission_of(u),
{
    reveal_strlit("TCP");
    reveal_strlit("TCP (RAW)");
    reveal_strlit("HTTP");
    reveal_strlit("GRPC");
    reveal_strlit("gRPC");
    reveal_strlit("WEBSOCKET");
    reveal_strlit("WebSocket");
    reveal_strlit("MKCP");
    reveal_strlit("mKCP");
    reveal_strlit("HTTPUPGRADE");
    reveal_strlit("HttpUpgrade");
    reveal_strlit("SPLITHTTP");
    reveal_strlit("SplitHTTP");
    let t = transmission_of(u);
    lemma_upper_fixed_text(t);
    let v = ascii_upper(t);
    if t == "TCP"@ {
        assert(v =~= "TCP"@);
    } else if t == "HTTP"@ {
        assert(v =~= "HTTP"@);
        assert("HTTP"@[0] != "TCP"@[0]);
    } else if t == "gRPC"@ {
        assert(v =~= "GRPC"@);
        assert("GRPC"@[0] != "TCP"@[0]);
        assert("GRPC"@[0] != "HTTP"@[0]);
    } else if t == "WebSocket"@ {
        assert(v =~= "WEBSOCKET"@);
        assert("WEBSOCKET"@[0] != "TCP"@[0]);
        assert("WEBSOCKET"@.len() != "HTTP"@.len());
    } else if t == "mKCP"@ {
        assert(v =~= "MKCP"@);
        assert("MKCP"@[0] != "TCP"@[0]);
        assert("MKCP"@[0] != "HTTP"@[0]);
        assert("MKCP"@[0] != "GRPC"@[0]);
    } else if t == "HttpUpgrade"@ {
        assert(v =~= "HTTPUPGRADE"@);
        assert("HTTPUPGRADE"@.len() != "TCP (RAW)"@.len());
        assert("HTTPUPGRADE"@.len() != "HTTP"@.len());
        assert("HTTPUPGRADE"@.len() != "WEBSOCKET"@.len());
    } else {
        assert(t == "SplitHTTP"@);
        assert(v =~= "SPLITHTTP"@);
        assert("SPLITHTTP"@[0] != "TCP (RAW)"@[0]);
        assert("SPLITHTTP"@[0] != "WEBSOCKET"@[0]);
        assert("SPLITHTTP"@.len() != "HTTPUPGRADE"@.len());
    }
}

/// The `type` parameter of a share link for a canonical transport name.
pub open spec fn link_type_of(t: Seq<char>) -> Seq<char> {
    if t == "HTTP"@ {
        "http"@
    } else if t == "gRPC"@ {
        "grpc"@
    } else if t == "WebSocket"@ {
        "ws"@
    } else if t == "mKCP"@ {
        "kcp"@
    } else if t == "HttpUpgrade"@ {
        "httpupgrade"@
    } else if t == "SplitHTTP"@ {
        "splithttp"@
    } else {
        "tcp"@
    }
}

/// The share-link transport type of a VLESS transport name.
pub fn vless_link_type(value: &str) -> (r: &'static str)
    ensures
        r@ == link_type_of(transmission_of(upper_trimmed(value@))),
{
    let t = vless_transmission_from(value);
    let t = t.as_str();
    if eq_str(t, "HTTP") {
        "http"
    } else if eq_str(t, "gRPC") {
        "grpc"
    } else if eq_str(t, "WebSocket") {
        "ws"
    } else if eq_str(t, "mKCP") {
        "kcp"
    } else if eq_str(t, "HttpUpgrade") {
        "httpupgrade"
    } else if eq_str(t, "SplitHTTP") {
        "splithttp"
    } else {
        "tcp"
    }
}

pub open spec fn core_type_of(u: Seq<char>) -> CoreType {
    if u == "XRAY"@ {
        CoreType::Xray
    } else {
        CoreType::SingBox
    }
}

/// Reads a core name; everything but XRAY (any case) runs on sing-box.
pub fn core_from(value: &str) -> (r: CoreType)
    ensures
        r == core_type_of(upper_trimmed(value@)),
{
    let u = trim_upper(value);
    if eq_str(u.as_str(), "XRAY") {
        CoreType::Xray
    } else {
        CoreType::SingBox
    }
}

/// The inbound protocols that a core (upper-cased name) can run, in menu order.
pub open spec fn supported_protocols(u: Seq<char>) -> Seq<Seq<char>> {
    if u == "XRAY"@ {
        seq![
            "VLESS"@,
            "HYSTERIA2"@,
            "WIREGUARD"@,
            "SOCKS5"@,
            "SHADOWSOCKS"@,
            "TPROXY"@,
            "TROJAN"@,
            "TUNNEL"@,
        ]
    } else if u == "SING_BOX"@ {
        seq!["VLESS"@, "HYSTERIA2"@, "NAIVEPROXY"@, "SOCKS5"@, "SHADOWSOCKS"@, "TROJAN"@]
    } else if u == "TRUSTTUNNEL"@ {
        seq!["TRUSTTUNNEL"@]
    } else {
        Seq::empty()
    }
}

/// The inbound protocols that a core can run; none for an unknown core.
pub fn supported_protocol_values_for_core(core_type: &str) -> (r: Vec<&'static str>)
    ensures
        strs(r@) == supported_protocols(upper_trimmed(core_type@)),
{
    let u = trim_upper(core_type);
    let u = u.as_str();
    let r: Vec<&'static str> = if eq_str(u, "XRAY") {
        vec![
            "VLESS",
            "HYSTERIA2",
            "WIREGUARD",
            "SOCKS5",
            "SHADOWSOCKS",
            "TPROXY",
            "TROJAN",
            "TUNNEL",
        ]
    } else if eq_str(u, "SING_BOX") {
        vec!["VLESS", "HYSTERIA2", "NAIVEPROXY", "SOCKS5", "SHADOWSOCKS", "TROJAN"]
    } else if eq_str(u, "TRUSTTUNNEL") {
        vec!["TRUSTTUNNEL"]
    } else {
        Vec::new()
    };
    assert(strs(r@) =~= supported_protocols(upper_trimmed(core_type@)));
    r
}

/// The menu label of a protocol value.
pub open spec fn protocol_label(v: Seq<char>) -> Seq<char> {
    if v == "HYSTERIA2"@ {
        "Hysteria2"@
    } else if v == "NAIVEPROXY"@ {
        "NaiveProxy"@
    } else if v == "WIREGUARD"@ {
        "WireGuard"@
    } else if v == "SHADOWSOCKS"@ {
        "Shadowsocks"@
    } else if v == "TRUSTTUNNEL"@ {
        "TrustTunnel"@
    } else if v == "TPROXY"@ {
        "TProxy"@
    } else if v == "TROJAN"@ {
        "Trojan"@
    } else if v == "TUNNEL"@ {
        "Tunnel"@
    } else {
        v
    }
}

fn protocol_label_of(value: &str) -> (r: String)
    ensures
        r@ == protocol_label(value@),
{
    if eq_str(value, "HYSTERIA2") {
        copy_str("Hysteria2")
    } else if eq_str(value, "NAIVEPROXY") {
        copy_str("NaiveProxy")
    } else if eq_str(value, "WIREGUARD") {
        copy_str("WireGuard")
    } else if eq_str(value, "SHADOWSOCKS") {
        copy_str("Shadowsocks")
    } else if eq_str(value, "TRUSTTUNNEL") {
        copy_str("TrustTunnel")
    } else if eq_str(value, "TPROXY") {
        copy_str("TProxy")
    } else if eq_str(value, "TROJAN") {
        copy_str("Trojan")
    } else if eq_str(value, "TUNNEL") {
        copy_str("Tunnel")
    } else {
        copy_str(value)
    }
}

/// The protocol menu of a core: each supported protocol with its label.
pub fn protocol_options_for_core(core_type: &str) -> (r: Vec<DropdownOption>)
    ensures
        option_pairs(r@) == Seq::new(
            supported_protocols(upper_trimmed(core_type@)).len(),
            |i: int|
                (
                    supported_protocols(upper_trimmed(core_type@))[i],
                    protocol_label(supported_protocols(upper_trimmed(core_type@))[i]),
                ),
        ),
{
    let values = supported_protocol_values_for_core(core_type);
    let ghost sup = supported_protocols(upper_trimmed(core_type@));
    let mut out: Vec<DropdownOption> = Vec::new();
    let mut i: usize = 0;
    while i < values.len()
        invariant
            strs(values@) == sup,
            i <= values@.len(),
            out@.len() == i,
            forall|k: int|
                0 <= k < i ==> (#[trigger] out@[k]).value@ == sup[k] && out@[k].label@
                    == protocol_label(sup[k]),
        decreases values@.len() - i,
    {
        let v = values[i];
        assert(v@ == sup[i as int]);
        out.push(DropdownOption { value: copy_str(v), label: protocol_label_of(v) });
        i = i + 1;
    }
    assert(option_pairs(out@) =~= Seq::new(
        sup.len(),
        |i: int| (sup[i], protocol_label(sup[i])),
    ));
    out
}

/// The protocol an inbound gets on a core: its own protocol when the core
/// runs it, otherwise the core's first protocol; always TRUSTTUNNEL on the
/// TrustTunnel core and nothing when no core is chosen.
pub open spec fn normalized_protocol(core_type: Seq<char>, protocol: Seq<char>) -> Seq<char> {
    let p = upper_trimmed(protocol);
    let c = upper_trimmed(core_type);
    if c.len() == 0 {
        Seq::empty()
    } else if c == "TRUSTTUNNEL"@ {
        "TRUSTTUNNEL"@
    } else {
        let supported = supported_protocols(upper_trimmed(c));
        if supported.contains(p) {
            p
        } else if supported.len() > 0 {
            supported[0]
        } else {
            Seq::empty()
        }
    }
}

/// Fits a protocol to a core (see `normalized_protocol`).
pub fn normalize_protocol_for_core(core_type: &str, protocol: &str) -> (r: String)
    ensures
        r@ == normalized_protocol(core_type@, protocol@),
{
    let p = trim_upper(protocol);
    let c = trim_upper(core_type);
    if c.as_str().unicode_len() == 0 {
        return String::new();
    }
    if eq_str(c.as_str(), "TRUSTTUNNEL") {
        return copy_str("TRUSTTUNNEL");
    }
    let supported = supported_protocol_values_for_core(c.as_str());
    let ghost sup = strs(supported@);
    let mut i: usize = 0;
    while i < supported.len()
        invariant
            sup == strs(supported@),
            sup == supported_protocols(upper_trimmed(c@)),
            c@ == upper_trimmed(core_type@),
            p@ == upper_trimmed(protocol@),
            c@.len() != 0,
            c@ != "TRUSTTUNNEL"@,
            i <= supported@.len(),
            forall|k: int| 0 <= k < i ==> sup[k] != p@,
        decreases supported@.len() - i,
    {
        if eq_str(supported[i], p.as_str()) {
            assert(sup[i as int] == p@);
            assert(sup.contains(p@));
            return p;
        }
        i = i + 1;
    }
    assert(!sup.contains(p@));
    if supported.len() > 0 {
        copy_str(supported[0])
    } else {
        String::new()
    }
}

/// The steps of the inbound creation wizard.
pub open spec fn inbound_steps(protocol: Seq<char>, security: Seq<char>) -> usize {
    if protocol == "VLESS"@ {
        if security == "REALITY"@ {
            4
        } else if security == "TLS"@ {
            4
        } else {
            3
        }
    } else if protocol == "HYSTERIA2"@ || protocol == "TRUSTTUNNEL"@ || protocol == "NAIVEPROXY"@
        || protocol == "TROJAN"@ {
        4
    } else {
        3
    }
}

/// How many steps the inbound creation wizard shows for an inbound.
pub fn inbound_creation_steps(inbound: &InboundEntryDraft) -> (r: usize)
    ensures
        r == inbound_steps(inbound.protocol@, inbound.vless.security@),
{
    let p = inbound.protocol.as_str();
    if eq_str(p, "VLESS") {
        if eq_str(inbound.vless.security.as_str(), "REALITY") {
            4
        } else if eq_str(inbound.vless.security.as_str(), "TLS") {
            4
        } else {
            3
        }
    } else if eq_str(p, "HYSTERIA2") {
        4
    } else if eq_str(p, "TRUSTTUNNEL") {
        4
    } else if eq_str(p, "NAIVEPROXY") {
        4
    } else if eq_str(p, "TROJAN") {
        4
    } else if eq_str(p, "WIREGUARD") {
        3
    } else {
        3
    }
}

/// How many steps the outbound creation wizard shows: three for every kind.
pub fn outbound_creation_steps(outbound: &OutboundEntryDraft) -> (r: usize)
    ensures
        r == 3,
{
    let t = outbound.outbound_type.as_str();
    if eq_str(t, "VLESS") {
        3
    } else if eq_str(t, "WIREGUARD") {
        3
    } else if eq_str(t, "SOCKS5") {
        3
    } else {
        3
    }
}

/// Whether an inbound of the given protocol serves TLS.
pub open spec fn tls_enabled_for(protocol: Seq<char>, inbound: InboundEntryDraft) -> bool {
    let u = upper_trimmed(protocol);
    if u == "HYSTERIA2"@ || u == "TRUSTTUNNEL"@ || u == "NAIVEPROXY"@ || u == "TROJAN"@ {
        true
    } else if u == "VLESS"@ {
        eq_ascii_ci(inbound.vless.security@, "TLS"@)
    } else {
        inbound.tls.enabled
    }
}

/// Whether an inbound of the given protocol serves TLS: always for
/// Hysteria2, TrustTunnel, NaiveProxy and Trojan, for VLESS when its security
/// is TLS, otherwise as its TLS switch says.
pub fn inbound_tls_enabled(protocol: &str, inbound: &InboundEntryDraft) -> (r: bool)
    ensures
        r == tls_enabled_for(protocol@, *inbound),
{
    let u = trim_upper(protocol);
    let u = u.as_str();
    if eq_str(u, "HYSTERIA2") || eq_str(u, "TRUSTTUNNEL") || eq_str(u, "NAIVEPROXY") || eq_str(
        u,
        "TROJAN",
    ) {
        true
    } else if eq_str(u, "VLESS") {
        eq_ignore_ascii_case(inbound.vless.security.as_str(), "TLS")
    } else {
        inbound.tls.enabled
    }
}

/// The transport summary shown for an inbound.
pub open spec fn traffic_label(inbound: InboundEntryDraft) -> Seq<char> {
    let u = upper_trimmed(inbound.protocol@);
    if u == "VLESS"@ {
        let transmission = upper_text(transmission_of(upper_trimmed(inbound.vless.transmission@)));
        let security = upper_trimmed(inbound.vless.security@);
        if security.len() == 0 || security == "NONE"@ {
            transmission
        } else {
            transmission + " "@ + security
        }
    } else if u == "HYSTERIA2"@ {
        "QUIC"@
    } else if u == "TRUSTTUNNEL"@ {
        "http2"@
    } else if u == "NAIVEPROXY"@ {
        let n = trimmed(inbound.naive_proxy.network@);
        if n.len() == 0 {
            "TCP+UDP"@
        } else if n == "tcp"@ {
            "TCP"@
        } else if n == "udp"@ {
            "UDP"@
        } else {
            n
        }
    } else if u == "WIREGUARD"@ {
        "UDP"@
    } else if u == "SOCKS5"@ {
        if inbound.socks5.udp_enabled {
            "TCP+UDP"@
        } else {
            "TCP"@
        }
    } else if u == "SHADOWSOCKS"@ {
        if inbound.shadowsocks.udp_enabled {
            "TCP+UDP"@
        } else {
            "TCP"@
        }
    } else if u == "TUNNEL"@ {
        let n = trimmed(inbound.tunnel.allowed_network@);
        if n == "udp"@ {
            "UDP"@
        } else if n == "tcp,udp"@ {
            "TCP+UDP"@
        } else {
            "TCP"@
        }
    } else if u == "TPROXY"@ {
        "TCP+UDP"@
    } else {
        "TCP"@
    }
}

/// The transport summary shown for an inbound in the inbound list.
pub fn inbound_traffic_label(inbound: &InboundEntryDraft) -> (r: String)
    ensures
        r@ == traffic_label(*inbound),
{
    let u = trim_upper(inbound.protocol.as_str());
    let u = u.as_str();
    if eq_str(u, "VLESS") {
        let t = vless_transmission_from(inbound.vless.transmission.as_str());
        let transmission = to_upper(t.as_str());
        let security = trim_upper(inbound.vless.security.as_str());
        if security.as_str().unicode_len() == 0 || eq_str(security.as_str(), "NONE") {
            transmission
        } else {
            let mut out = transmission;
            out.append(" ");
            out.append(security.as_str());
            out
        }
    } else if eq_str(u, "HYSTERIA2") {
        copy_str("QUIC")
    } else if eq_str(u, "TRUSTTUNNEL") {
        copy_str("http2")
    } else if eq_str(u, "NAIVEPROXY") {
        let n = trim(inbound.naive_proxy.network.as_str());
        if n.as_str().unicode_len() == 0 {
            copy_str("TCP+UDP")
        } else if eq_str(n.as_str(), "tcp") {
            copy_str("TCP")
        } else if eq_str(n.as_str(), "udp") {
            copy_str("UDP")
        } else {
            n
        }
    } else if eq_str(u, "WIREGUARD") {
        copy_str("UDP")
    } else if eq_str(u, "SOCKS5") {
        if inbound.socks5.udp_enabled {
            copy_str("TCP+UDP")
        } else {
            copy_str("TCP")
        }
    } else if eq_str(u, "SHADOWSOCKS") {
        if inbound.shadowsocks.udp_enabled {
            copy_str("TCP+UDP")
        } else {
            copy_str("TCP")
        }
    } else if eq_str(u, "TUNNEL") {
        let n = trim(inbound.tunnel.allowed_network.as_str());
        if eq_str(n.as_str(), "udp") {
            copy_str("UDP")
        } else if eq_str(n.as_str(), "tcp,udp") {
            copy_str("TCP+UDP")
        } else {
            copy_str("TCP")
        }
    } else if eq_str(u, "TPROXY") {
        copy_str("TCP+UDP")
    } else {
        copy_str("TCP")
    }
}

/// The routing tag of an outbound, taken from the field its kind uses.
pub open spec fn routing_tag(o: OutboundEntryDraft) -> Seq<char> {
    let u = upper_trimmed(o.outbound_type@);
    if u == "DIRECT"@ || u == "BLOCK"@ {
        o.name@
    } else if u == "TRUSTTUNNEL"@ {
        o.trust_tunnel.tag@
    } else if u == "WIREGUARD"@ {
        o.name@
    } else if u == "SOCKS5"@ {
        o.socks5.tag@
    } else if u == "SHADOWSOCKS"@ {
        o.shadowsocks.tag@
    } else if u == "CUSTOM"@ {
        o.custom.tag@
    } else {
        o.vless.tag@
    }
}

/// The tag that routing rules use to send traffic to an outbound.
pub fn outbound_tag_for_routing(outbound: &OutboundEntryDraft) -> (r: String)
    ensures
        r@ == routing_tag(*outbound),
{
    let u = trim_upper(outbound.outbound_type.as_str());
    let u = u.as_str();
    if eq_str(u, "DIRECT") || eq_str(u, "BLOCK") {
        outbound.name.clone()
    } else if eq_str(u, "TRUSTTUNNEL") {
        outbound.trust_tunnel.tag.clone()
    } else if eq_str(u, "WIREGUARD") {
        outbound.name.clone()
    } else if eq_str(u, "SOCKS5") {
        outbound.socks5.tag.clone()
    } else if eq_str(u, "SHADOWSOCKS") {
        outbound.shadowsocks.tag.clone()
    } else if eq_str(u, "CUSTOM") {
        outbound.custom.tag.clone()
    } else {
        outbound.vless.tag.clone()
    }
}

/// `tag (type)`: how an outbound is shown in routing menus.
pub fn outbound_label_for_routing(outbound: &OutboundEntryDraft) -> (r: String)
    ensures
        r@ == routing_tag(*outbound) + " ("@ + outbound.outbound_type@ + ")"@,
{
    let mut out = outbound_tag_for_routing(outbound);
    out.append(" (");
    out.append(outbound.outbound_type.as_str());
    out.append(")");
    out
}

fn option(value: &str, label: &str) -> (r: DropdownOption)
    ensures
        r.value@ == value@,
        r.label@ == label@,
{
    DropdownOption { value: copy_str(value), label: copy_str(label) }
}

/// The Shadowsocks ciphers offered in the editor, in menu order.
pub open spec fn shadowsocks_methods() -> Seq<(Seq<char>, Seq<char>)> {
    seq![
        ("2022-blake3-aes-128-gcm"@, "2022-blake3-aes-128-gcm"@),
        ("2022-blake3-aes-256-gcm"@, "2022-blake3-aes-256-gcm"@),
        ("2022-blake3-chacha20-poly1305"@, "2022-blake3-chacha20-poly1305"@),
        ("aes-256-gcm"@, "aes-256-gcm"@),
        ("aes-128-gcm"@, "aes-128-gcm"@),
        ("chacha20-poly1305"@, "chacha20-poly1305 (or chacha20-ietf-poly1305)"@),
        ("xchacha20-poly1305"@, "xchacha20-poly1305 (or xchacha20-ietf-poly1305)"@),
        ("none"@, "none (or plain)"@),
    ]
}

/// The Shadowsocks cipher menu.
pub fn shadowsocks_method_options() -> (r: Vec<DropdownOption>)
    ensures
        option_pairs(r@) == shadowsocks_methods(),
{
    let r = vec![
        option("2022-blake3-aes-128-gcm", "2022-blake3-aes-128-gcm"),
        option("2022-blake3-aes-256-gcm", "2022-blake3-aes-256-gcm"),
        option("2022-blake3-chacha20-poly1305", "2022-blake3-chacha20-poly1305"),
        option("aes-256-gcm", "aes-256-gcm"),
        option("aes-128-gcm", "aes-128-gcm"),
        option("chacha20-poly1305", "chacha20-poly1305 (or chacha20-ietf-poly1305)"),
        option("xchacha20-poly1305", "xchacha20-poly1305 (or xchacha20-ietf-poly1305)"),
        option("none", "none (or plain)"),
    ];
    assert(option_pairs(r@) =~= shadowsocks_methods());
    r
}

/// An inbound serving Hysteria2, TrustTunnel, NaiveProxy or Trojan (in any
/// case, trimmed) serves TLS whatever its TLS switch says; a VLESS inbound
/// when its security is TLS; any other as its TLS switch says.
pub proof fn law_tls_protocols_always_tls(protocol: Seq<char>, inbound: InboundEntryDraft, r: bool)
    requires
        r == tls_enabled_for(protocol, inbound),
    ensures
        upper_trimmed(protocol) == "HYSTERIA2"@ || upper_trimmed(protocol) == "TRUSTTUNNEL"@
            || upper_trimmed(protocol) == "NAIVEPROXY"@ || upper_trimmed(protocol) == "TROJAN"@ ==> r,
        upper_trimmed(protocol) == "VLESS"@ ==> r == eq_ascii_ci(inbound.vless.security@, "TLS"@),
        upper_trimmed(protocol) != "HYSTERIA2"@ && upper_trimmed(protocol) != "TRUSTTUNNEL"@
            && upper_trimmed(protocol) != "NAIVEPROXY"@ && upper_trimmed(protocol) != "TROJAN"@
            && upper_trimmed(protocol) != "VLESS"@ ==> r == inbound.tls.enabled,
{
    reveal_strlit("VLESS");
    reveal_strlit("HYSTERIA2");
    reveal_strlit("TRUSTTUNNEL");
    reveal_strlit("NAIVEPROXY");
    reveal_strlit("TROJAN");
    assert("VLESS"@.len() == 5);
    assert("HYSTERIA2"@.len() == 9);
    assert("TRUSTTUNNEL"@.len() == 11);
    assert("NAIVEPROXY"@.len() == 10);
    assert("TROJAN"@.len() == 6);
}

} // verus!
