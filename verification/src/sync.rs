//! Bringing a draft into its canonical form before it is saved or turned into
//! a node configuration: reverse-proxy inbounds become reverse proxies, and
//! every entry gets the values its blank fields stand for.

use vstd::prelude::*;
use vstd::string::*;
use crate::certs::{certificate_name_from_reference, reference_name};
use crate::display::{name_or, rule_matches_nothing_yet, vless_outbound_tag_from_name};
use crate::drafts::{default_builtin_outbound, is_new_builtin};
use crate::groups::{normalize_groups, normalized_group_list};
use crate::ids::{is_uuid_text, new_entry_id};
use crate::model::{
    CertificateDraft, InboundEntryDraft, InboundEntryDraftView, NodeConfigDraft,
    NodeConfigDraftView, OutboundEntryDraft, OutboundEntryDraftView, ReverseProxyDraft,
    RoutingRuleDraft, VlessOutboundDraft, WireGuardDraft, WireGuardDraftView,
};
use crate::text::{
    is_ws, lemma_not_blank, lemma_trimmed_fixed, copy_str, decimal, eq_ascii_ci, is_blank, lower_text, texts, to_lower, trim,
    trim_eq_ignore_ascii_case, trim_lower, trimmed, u64_to_string,
};

verus! {

/// The blank value of a text stands for `fallback`.
pub open spec fn or_default(s: Seq<char>, fallback: Seq<char>) -> Seq<char> {
    if trimmed(s).len() == 0 {
        fallback
    } else {
        s
    }
}

/// Two WireGuard sections agree on everything but the domain strategy.
pub open spec fn same_but_strategy(a: WireGuardDraftView, b: WireGuardDraftView) -> bool {
    &&& a.tag == b.tag
    &&& a.private_key == b.private_key
    &&& a.workers == b.workers
    &&& a.addresses == b.addresses
    &&& a.peers == b.peers
    &&& a.mtu == b.mtu
    &&& a.reserved == b.reserved
    &&& a.warp_id == b.warp_id
    &&& a.warp_token == b.warp_token
}

/// The WireGuard section with a blank domain strategy read as `ForceIP`.
pub open spec fn wireguard_fixed(old: WireGuardDraftView, new: WireGuardDraftView) -> bool {
    &&& same_but_strategy(old, new)
    &&& new.domain_strategy@ == or_default(old.domain_strategy@, "ForceIP"@)
    &&& trimmed(old.domain_strategy@).len() > 0 ==> new.domain_strategy == old.domain_strategy
}

/// `new` is the `index`-th kept inbound `old` in canonical form: a fresh id
/// when it had none, `inbound-n` as name, `0.0.0.0` as listen address, port
/// 443 (1080 for SOCKS5) when the port is not positive, sing-box as core and
/// VLESS as protocol when blank, normalised groups, `ForceIP` as WireGuard
/// domain strategy when blank, and the TLS certificate reference resolved to
/// the certificate's name. Everything else stays.
pub open spec fn inbound_fixed(
    old: InboundEntryDraftView,
    new: InboundEntryDraftView,
    index: nat,
    certs: Seq<CertificateDraft>,
) -> bool {
    &&& if trimmed(old.id@).len() == 0 {
        is_uuid_text(new.id@)
    } else {
        new.id == old.id
    }
    &&& new.name@ == or_default(old.name@, "inbound-"@ + decimal(index + 1))
    &&& trimmed(old.name@).len() > 0 ==> new.name == old.name
    &&& new.listen@ == or_default(old.listen@, "0.0.0.0"@)
    &&& trimmed(old.listen@).len() > 0 ==> new.listen == old.listen
    &&& new.port == if old.port <= 0 {
        if eq_ascii_ci(trimmed(old.protocol@), "SOCKS5"@) {
            1080i32
        } else {
            443i32
        }
    } else {
        old.port
    }
    &&& new.core_type@ == or_default(old.core_type@, "SING_BOX"@)
    &&& trimmed(old.core_type@).len() > 0 ==> new.core_type == old.core_type
    &&& new.protocol@ == or_default(old.protocol@, "VLESS"@)
    &&& trimmed(old.protocol@).len() > 0 ==> new.protocol == old.protocol
    &&& texts(new.groups) == normalized_group_list(texts(old.groups))
    &&& wireguard_fixed(old.wireguard, new.wireguard)
    &&& new.tls.enabled == old.tls.enabled
    &&& new.tls.server_name == old.tls.server_name
    &&& new.tls.certificate_name@ == match reference_name(certs, old.tls.certificate_name@) {
        Some(n) => n,
        None => old.tls.certificate_name@,
    }
    &&& new.enabled == old.enabled
    &&& new.vless == old.vless
    &&& new.hysteria2 == old.hysteria2
    &&& new.trust_tunnel == old.trust_tunnel
    &&& new.naive_proxy == old.naive_proxy
    &&& new.socks5 == old.socks5
    &&& new.shadowsocks == old.shadowsocks
    &&& new.reverse_proxy == old.reverse_proxy
    &&& new.tunnel == old.tunnel
    &&& new.tproxy == old.tproxy
    &&& new.trojan == old.trojan
}

fn fix_strategy(wireguard: &mut WireGuardDraft)
    ensures
        wireguard_fixed(old(wireguard)@, final(wireguard)@),
{
    if is_blank(wireguard.domain_strategy.as_str()) {
        wireguard.domain_strategy = copy_str("ForceIP");
    }
}

/// The `index`-th kept inbound in canonical form (see `inbound_fixed`).
fn fix_inbound(inbound: InboundEntryDraft, index: usize, certs: &[CertificateDraft]) -> (r:
    InboundEntryDraft)
    requires
        index < usize::MAX,
    ensures
        inbound_fixed(inbound@, r@, index as nat, certs@),
{
    let mut i = inbound;
    if is_blank(i.id.as_str()) {
        i.id = new_entry_id();
    }
    if is_blank(i.name.as_str()) {
        let mut name = copy_str("inbound-");
        let n = u64_to_string((index + 1) as u64);
        name.append(n.as_str());
        i.name = name;
    }
    if is_blank(i.listen.as_str()) {
        i.listen = copy_str("0.0.0.0");
    }
    if i.port <= 0 {
        i.port = if trim_eq_ignore_ascii_case(i.protocol.as_str(), "SOCKS5") {
            1080
        } else {
            443
        };
    }
    if is_blank(i.core_type.as_str()) {
        i.core_type = copy_str("SING_BOX");
    }
    if is_blank(i.protocol.as_str()) {
        i.protocol = copy_str("VLESS");
    }
    i.groups = normalize_groups(&i.groups);
    fix_strategy(&mut i.wireguard);
    match certificate_name_from_reference(certs, i.tls.certificate_name.as_str()) {
        Some(name) => {
            i.tls.certificate_name = name;
        },
        None => {},
    }
    i
}


/// The settings of a reverse proxy, as texts.
pub struct ReverseProxyText {
    pub enabled: bool,
    pub mode: Seq<char>,
    pub tag: Seq<char>,
    pub domain: Seq<char>,
    pub bridge_outbound_tag: Seq<char>,
    pub target_outbound_tag: Seq<char>,
    pub portal_inbound_tag: Seq<char>,
}

pub open spec fn rp_text(r: ReverseProxyDraft) -> ReverseProxyText {
    ReverseProxyText {
        enabled: r.enabled,
        mode: r.mode@,
        tag: r.tag@,
        domain: r.domain@,
        bridge_outbound_tag: r.bridge_outbound_tag@,
        target_outbound_tag: r.target_outbound_tag@,
        portal_inbound_tag: r.portal_inbound_tag@,
    }
}

pub open spec fn rp_texts(rs: Seq<ReverseProxyDraft>) -> Seq<ReverseProxyText> {
    Seq::new(rs.len(), |i: int| rp_text(rs[i]))
}

/// True when an inbound is a reverse proxy kept among the inbounds, as
/// older drafts did.
pub open spec fn is_reverse_inbound(i: InboundEntryDraftView) -> bool {
    eq_ascii_ci(trimmed(i.protocol@), "REVERSEPROXY"@)
}

/// The inbounds that stay inbounds, in order.
pub open spec fn kept_inbounds(is: Seq<InboundEntryDraftView>) -> Seq<InboundEntryDraftView>
    decreases is.len(),
{
    if is.len() == 0 {
        Seq::empty()
    } else {
        kept_inbounds(is.drop_last()) + if is_reverse_inbound(is.last()) {
            Seq::empty()
        } else {
            seq![is.last()]
        }
    }
}

/// The reverse-proxy inbounds, in order.
pub open spec fn reverse_inbounds(is: Seq<InboundEntryDraftView>) -> Seq<InboundEntryDraftView>
    decreases is.len(),
{
    if is.len() == 0 {
        Seq::empty()
    } else {
        reverse_inbounds(is.drop_last()) + if is_reverse_inbound(is.last()) {
            seq![is.last()]
        } else {
            Seq::empty()
        }
    }
}

/// The reverse proxy a reverse-proxy inbound becomes: its reverse-proxy
/// settings, enabled as the inbound is, tagged with the inbound's name when
/// it has no tag, in portal mode and targeting `direct` when those are blank.
pub open spec fn migrated(i: InboundEntryDraftView) -> ReverseProxyText {
    let r = i.reverse_proxy;
    ReverseProxyText {
        enabled: i.enabled,
        mode: or_default(r.mode@, "portal"@),
        tag: if trimmed(r.tag@).len() == 0 {
            trimmed(i.name@)
        } else {
            r.tag@
        },
        domain: r.domain@,
        bridge_outbound_tag: r.bridge_outbound_tag@,
        target_outbound_tag: or_default(r.target_outbound_tag@, "direct"@),
        portal_inbound_tag: r.portal_inbound_tag@,
    }
}

/// A reverse proxy in canonical form: trimmed texts, a lower-case mode that
/// is `bridge` or else `portal`, and `direct` as target when blank.
pub open spec fn rp_fixed(t: ReverseProxyText) -> ReverseProxyText {
    let mode = lower_text(trimmed(t.mode));
    ReverseProxyText {
        enabled: t.enabled,
        mode: if mode != "bridge"@ && mode != "portal"@ {
            "portal"@
        } else {
            mode
        },
        tag: trimmed(t.tag),
        domain: trimmed(t.domain),
        bridge_outbound_tag: trimmed(t.bridge_outbound_tag),
        target_outbound_tag: if trimmed(t.target_outbound_tag).len() == 0 {
            "direct"@
        } else {
            trimmed(t.target_outbound_tag)
        },
        portal_inbound_tag: trimmed(t.portal_inbound_tag),
    }
}

fn migrate_inbound(inbound: &InboundEntryDraft) -> (r: ReverseProxyDraft)
    ensures
        rp_text(r) == migrated(inbound@),
{
    let mut rp = inbound.reverse_proxy.duplicate();
    rp.enabled = inbound.enabled;
    if is_blank(rp.tag.as_str()) {
        rp.tag = trim(inbound.name.as_str());
    }
    if is_blank(rp.mode.as_str()) {
        rp.mode = copy_str("portal");
    }
    if is_blank(rp.target_outbound_tag.as_str()) {
        rp.target_outbound_tag = copy_str("direct");
    }
    rp
}

fn fix_reverse_proxy(rp: ReverseProxyDraft) -> (r: ReverseProxyDraft)
    ensures
        rp_text(r) == rp_fixed(rp_text(rp)),
{
    let mut r = rp;
    let mode = trim_lower(r.mode.as_str());
    r.mode = if !crate::text::eq_str(mode.as_str(), "bridge") && !crate::text::eq_str(
        mode.as_str(),
        "portal",
    ) {
        copy_str("portal")
    } else {
        mode
    };
    r.tag = trim(r.tag.as_str());
    r.domain = trim(r.domain.as_str());
    r.bridge_outbound_tag = trim(r.bridge_outbound_tag.as_str());
    r.target_outbound_tag = if is_blank(r.target_outbound_tag.as_str()) {
        copy_str("direct")
    } else {
        trim(r.target_outbound_tag.as_str())
    };
    r.portal_inbound_tag = trim(r.portal_inbound_tag.as_str());
    r
}


/// Two VLESS outbound sections agree on everything but the tag.
pub open spec fn vless_same_but_tag(a: VlessOutboundDraft, b: VlessOutboundDraft) -> bool {
    &&& a.server == b.server
    &&& a.port == b.port
    &&& a.uuid == b.uuid
    &&& a.flow == b.flow
    &&& a.security == b.security
    &&& a.transmission == b.transmission
    &&& a.tls_server_name == b.tls_server_name
    &&& a.reality_sni == b.reality_sni
    &&& a.reality_public_key == b.reality_public_key
    &&& a.reality_short_ids == b.reality_short_ids
    &&& a.reality_utls == b.reality_utls
    &&& a.reality_spider_x == b.reality_spider_x
}

/// `new` is outbound `old` in canonical form: a fresh id when it had none,
/// VLESS as kind when blank, `ForceIP` as WireGuard domain strategy when
/// blank; direct and block outbounds are built-in and named after their kind
/// (in lower case) when unnamed; VLESS outbounds are named `VLESS` when
/// unnamed and tagged with their name; custom outbounds without a tag are
/// tagged with their name, or `custom`.
pub open spec fn outbound_fixed(old: OutboundEntryDraftView, new: OutboundEntryDraftView) -> bool {
    let kind = or_default(old.outbound_type@, "VLESS"@);
    let k = trimmed(kind);
    let is_builtin_kind = eq_ascii_ci(k, "DIRECT"@) || eq_ascii_ci(k, "BLOCK"@);
    let is_vless = !is_builtin_kind && eq_ascii_ci(k, "VLESS"@);
    let is_untagged_custom = !is_builtin_kind && !is_vless && eq_ascii_ci(k, "CUSTOM"@)
        && trimmed(old.custom.tag@).len() == 0;
    &&& if trimmed(old.id@).len() == 0 {
        is_uuid_text(new.id@)
    } else {
        new.id == old.id
    }
    &&& new.outbound_type@ == kind
    &&& trimmed(old.outbound_type@).len() > 0 ==> new.outbound_type == old.outbound_type
    &&& wireguard_fixed(old.wireguard, new.wireguard)
    &&& new.enabled == old.enabled
    &&& new.trust_tunnel == old.trust_tunnel
    &&& new.socks5 == old.socks5
    &&& new.shadowsocks == old.shadowsocks
    &&& new.trojan == old.trojan
    &&& new.builtin == (is_builtin_kind || old.builtin)
    &&& new.name@ == if is_builtin_kind {
        or_default(old.name@, lower_text(k))
    } else if is_vless {
        or_default(old.name@, "VLESS"@)
    } else {
        old.name@
    }
    &&& !(trimmed(old.name@).len() == 0 && (is_builtin_kind || is_vless)) ==> new.name == old.name
    &&& vless_same_but_tag(old.vless, new.vless)
    &&& !is_vless ==> new.vless.tag == old.vless.tag
    &&& new.vless.tag@ == if is_vless {
        name_or(or_default(old.name@, "VLESS"@), "VLESS"@)
    } else {
        old.vless.tag@
    }
    &&& new.custom.handler_name == old.custom.handler_name
    &&& new.custom.config_json == old.custom.config_json
    &&& new.custom.tag@ == if is_untagged_custom {
        name_or(old.name@, "custom"@)
    } else {
        old.custom.tag@
    }
    &&& !is_untagged_custom ==> new.custom.tag == old.custom.tag
}

fn fix_outbound(outbound: OutboundEntryDraft) -> (r: OutboundEntryDraft)
    ensures
        outbound_fixed(outbound@, r@),
{
    let mut o = outbound;
    if is_blank(o.id.as_str()) {
        o.id = new_entry_id();
    }
    if is_blank(o.outbound_type.as_str()) {
        o.outbound_type = copy_str("VLESS");
    }
    fix_strategy(&mut o.wireguard);
    if trim_eq_ignore_ascii_case(o.outbound_type.as_str(), "DIRECT") || trim_eq_ignore_ascii_case(
        o.outbound_type.as_str(),
        "BLOCK",
    ) {
        o.builtin = true;
        if is_blank(o.name.as_str()) {
            o.name = trim_lower(o.outbound_type.as_str());
        }
    } else if trim_eq_ignore_ascii_case(o.outbound_type.as_str(), "VLESS") {
        if is_blank(o.name.as_str()) {
            o.name = copy_str("VLESS");
        }
        o.vless.tag = vless_outbound_tag_from_name(o.name.as_str());
    } else if trim_eq_ignore_ascii_case(o.outbound_type.as_str(), "CUSTOM") && is_blank(
        o.custom.tag.as_str(),
    ) {
        o.custom.tag = if is_blank(o.name.as_str()) {
            copy_str("custom")
        } else {
            trim(o.name.as_str())
        };
    }
    o
}

/// `new` is rule `old` sending to `direct` when it names no outbound.
pub open spec fn rule_fixed(old: RoutingRuleDraft, new: RoutingRuleDraft) -> bool {
    &&& new.outbound_tag@ == or_default(old.outbound_tag@, "direct"@)
    &&& trimmed(old.outbound_tag@).len() > 0 ==> new.outbound_tag == old.outbound_tag
    &&& new.enabled == old.enabled
    &&& new.remark == old.remark
    &&& new.domain == old.domain
    &&& new.ip == old.ip
    &&& new.port == old.port
    &&& new.transport == old.transport
    &&& new.protocol == old.protocol
    &&& new.inbound_tag == old.inbound_tag
    &&& new.user == old.user
}

fn fix_rule(rule: RoutingRuleDraft) -> (r: RoutingRuleDraft)
    ensures
        rule_fixed(rule, r),
{
    let mut r = rule;
    if is_blank(r.outbound_tag.as_str()) {
        r.outbound_tag = copy_str("direct");
    }
    r
}


proof fn lemma_rp_texts_push(s: Seq<ReverseProxyDraft>, x: ReverseProxyDraft)
    ensures
        rp_texts(s.push(x)) == rp_texts(s).push(rp_text(x)),
{
    assert(rp_texts(s.push(x)) =~= rp_texts(s).push(rp_text(x)));
}

proof fn lemma_partition_len(is: Seq<InboundEntryDraftView>)
    ensures
        kept_inbounds(is).len() + reverse_inbounds(is).len() == is.len(),
    decreases is.len(),
{
    if is.len() > 0 {
        lemma_partition_len(is.drop_last());
    }
}

/// The reverse proxies of the synced draft: the draft's own, then those made
/// from reverse-proxy inbounds, all in canonical form.
pub open spec fn reverse_proxies_after(old: NodeConfigDraftView) -> Seq<ReverseProxyText> {
    fixed_texts(rp_texts(old.reverse_proxies) + migrated_texts(reverse_inbounds(old.inbounds)))
}

/// The reverse proxies that reverse-proxy inbounds become.
pub open spec fn migrated_texts(rev: Seq<InboundEntryDraftView>) -> Seq<ReverseProxyText> {
    Seq::new(rev.len(), |i: int| migrated(rev[i]))
}

/// Reverse proxies in canonical form.
pub open spec fn fixed_texts(all: Seq<ReverseProxyText>) -> Seq<ReverseProxyText> {
    Seq::new(all.len(), |i: int| rp_fixed(all[i]))
}

/// The outbounds after syncing: each outbound in canonical form; a draft
/// without outbounds gets built-in `direct` and `block` outbounds.
pub open spec fn outbounds_synced(
    old: Seq<OutboundEntryDraftView>,
    new: Seq<OutboundEntryDraftView>,
) -> bool {
    if old.len() == 0 {
        &&& new.len() == 2
        &&& exists|b: OutboundEntryDraft|
            is_new_builtin(b, "direct"@, "DIRECT"@) && outbound_fixed(b@, #[trigger] new[0])
        &&& exists|b: OutboundEntryDraft|
            is_new_builtin(b, "block"@, "BLOCK"@) && outbound_fixed(b@, #[trigger] new[1])
    } else {
        &&& new.len() == old.len()
        &&& forall|k: int| 0 <= k < old.len() ==> outbound_fixed(old[k], #[trigger] new[k])
    }
}

/// The routing rules after syncing: each rule sends to `direct` when it names
/// no outbound; a draft without rules gets one enabled rule sending
/// everything to `direct`.
pub open spec fn rules_synced(old: Seq<RoutingRuleDraft>, new: Seq<RoutingRuleDraft>) -> bool {
    if old.len() == 0 {
        &&& new.len() == 1
        &&& new[0].enabled
        &&& new[0].outbound_tag@ == "direct"@
        &&& rule_matches_nothing_yet(new[0])
    } else {
        &&& new.len() == old.len()
        &&& forall|k: int| 0 <= k < old.len() ==> rule_fixed(old[k], #[trigger] new[k])
    }
}

/// `new` is draft `old` in canonical form.
pub open spec fn synced(old: NodeConfigDraftView, new: NodeConfigDraftView) -> bool {
    let kept = kept_inbounds(old.inbounds);
    &&& new.inbounds.len() == kept.len()
    &&& forall|k: int|
        0 <= k < kept.len() ==> inbound_fixed(
            kept[k],
            #[trigger] new.inbounds[k],
            k as nat,
            old.certificates,
        )
    &&& rp_texts(new.reverse_proxies) == reverse_proxies_after(old)
    &&& outbounds_synced(old.outbounds, new.outbounds)
    &&& rules_synced(old.routing_rules, new.routing_rules)
    &&& new.certificates == old.certificates
    &&& new.master_key == old.master_key
    &&& new.dns == old.dns
    &&& new.link_remark_template == old.link_remark_template
    &&& new.warp_registration == old.warp_registration
}

/// What every inbound of a synced draft satisfies: it is no reverse proxy,
/// it has an id, a name, a listen address, a core and a protocol, and a
/// positive port.
pub open spec fn inbound_canonical(i: InboundEntryDraftView) -> bool {
    &&& !is_reverse_inbound(i)
    &&& trimmed(i.id@).len() > 0
    &&& trimmed(i.name@).len() > 0
    &&& trimmed(i.listen@).len() > 0
    &&& trimmed(i.core_type@).len() > 0
    &&& trimmed(i.protocol@).len() > 0
    &&& i.port > 0
}

/// What a synced draft satisfies: canonical inbounds; at least one outbound,
/// each with an id and a kind; reverse proxies in bridge or portal mode with
/// a target; at least one routing rule, each naming an outbound.
pub open spec fn is_canonical(d: NodeConfigDraftView) -> bool {
    &&& forall|k: int| 0 <= k < d.inbounds.len() ==> inbound_canonical(#[trigger] d.inbounds[k])
    &&& d.outbounds.len() > 0
    &&& forall|k: int|
        0 <= k < d.outbounds.len() ==> trimmed((#[trigger] d.outbounds[k]).id@).len() > 0
            && trimmed(d.outbounds[k].outbound_type@).len() > 0
    &&& forall|k: int|
        0 <= k < d.reverse_proxies.len() ==> ((#[trigger] d.reverse_proxies[k]).mode@ == "bridge"@
            || d.reverse_proxies[k].mode@ == "portal"@) && d.reverse_proxies[k].target_outbound_tag@.len()
            > 0
    &&& d.routing_rules.len() > 0
    &&& forall|k: int|
        0 <= k < d.routing_rules.len() ==> trimmed(
            (#[trigger] d.routing_rules[k]).outbound_tag@,
        ).len() > 0
}

pub(crate) proof fn lemma_kept_not_reverse(is: Seq<InboundEntryDraftView>)
    ensures
        forall|k: int|
            0 <= k < kept_inbounds(is).len() ==> !is_reverse_inbound(#[trigger] kept_inbounds(is)[k]),
    decreases is.len(),
{
    if is.len() > 0 {
        lemma_kept_not_reverse(is.drop_last());
        let p = kept_inbounds(is.drop_last());
        assert forall|k: int|
            0 <= k < kept_inbounds(is).len() implies !is_reverse_inbound(
            #[trigger] kept_inbounds(is)[k],
        ) by {
            if k < p.len() {
                assert(kept_inbounds(is)[k] == p[k]);
            }
        }
    }
}

pub(crate) proof fn lemma_or_default_not_blank(s: Seq<char>, fallback: Seq<char>)
    requires
        fallback.len() > 0,
        !is_ws(fallback[0]),
    ensures
        trimmed(or_default(s, fallback)).len() > 0,
{
    if trimmed(s).len() == 0 {
        lemma_not_blank(fallback, 0);
    }
}

pub(crate) proof fn lemma_uuid_not_blank(s: Seq<char>)
    requires
        is_uuid_text(s),
    ensures
        trimmed(s).len() > 0,
{
    assert(crate::ids::is_lower_hex_digit(s[0]));
    lemma_not_blank(s, 0);
}

/// Every draft that syncing gives is canonical.
pub proof fn lemma_sync_canonical(old: NodeConfigDraftView, new: NodeConfigDraftView)
    requires
        synced(old, new),
    ensures
        is_canonical(new),
{
    reveal_strlit("VLESS");
    reveal_strlit("REVERSEPROXY");
    reveal_strlit("0.0.0.0");
    reveal_strlit("SING_BOX");
    reveal_strlit("inbound-");
    reveal_strlit("direct");
    reveal_strlit("portal");
    lemma_trimmed_fixed("VLESS"@);
    let kept = kept_inbounds(old.inbounds);
    lemma_kept_not_reverse(old.inbounds);
    assert forall|k: int| 0 <= k < new.inbounds.len() implies inbound_canonical(
        #[trigger] new.inbounds[k],
    ) by {
        let o = kept[k];
        let n = new.inbounds[k];
        assert(inbound_fixed(o, n, k as nat, old.certificates));
        if trimmed(o.id@).len() == 0 {
            lemma_uuid_not_blank(n.id@);
        }
        lemma_or_default_not_blank(o.name@, "inbound-"@ + decimal((k + 1) as nat));
        lemma_or_default_not_blank(o.listen@, "0.0.0.0"@);
        lemma_or_default_not_blank(o.core_type@, "SING_BOX"@);
        lemma_or_default_not_blank(o.protocol@, "VLESS"@);
        if trimmed(o.protocol@).len() == 0 {
            assert(!eq_ascii_ci(trimmed(n.protocol@), "REVERSEPROXY"@));
        } else {
            assert(n.protocol@ == o.protocol@);
            assert(!is_reverse_inbound(o));
        }
    }
    assert forall|k: int| 0 <= k < new.outbounds.len() implies trimmed(
        (#[trigger] new.outbounds[k]).id@,
    ).len() > 0 && trimmed(new.outbounds[k].outbound_type@).len() > 0 by {
        let n = new.outbounds[k];
        if old.outbounds.len() == 0 {
            reveal_strlit("DIRECT");
            reveal_strlit("BLOCK");
            let b = if k == 0 {
                choose|b: OutboundEntryDraft|
                    is_new_builtin(b, "direct"@, "DIRECT"@) && outbound_fixed(b@, new.outbounds[0])
            } else {
                choose|b: OutboundEntryDraft|
                    is_new_builtin(b, "block"@, "BLOCK"@) && outbound_fixed(b@, new.outbounds[1])
            };
            assert(outbound_fixed(b@, n));
            lemma_uuid_not_blank(b@.id@);
            lemma_or_default_not_blank(b@.outbound_type@, "VLESS"@);
        } else {
            let o = old.outbounds[k];
            assert(outbound_fixed(o, n));
            if trimmed(o.id@).len() == 0 {
                lemma_uuid_not_blank(n.id@);
            }
            lemma_or_default_not_blank(o.outbound_type@, "VLESS"@);
        }
    }
    assert forall|k: int| 0 <= k < new.reverse_proxies.len() implies ((
    #[trigger] new.reverse_proxies[k]).mode@ == "bridge"@ || new.reverse_proxies[k].mode@
        == "portal"@) && new.reverse_proxies[k].target_outbound_tag@.len() > 0 by {
        assert(rp_texts(new.reverse_proxies)[k] == rp_text(new.reverse_proxies[k]));
        assert(rp_texts(new.reverse_proxies)[k] == reverse_proxies_after(old)[k]);
        let all = rp_texts(old.reverse_proxies) + migrated_texts(reverse_inbounds(old.inbounds));
        assert(rp_texts(new.reverse_proxies).len() == new.reverse_proxies.len());
        assert(fixed_texts(all).len() == all.len());
        assert(reverse_proxies_after(old) == fixed_texts(all));
        let f = rp_fixed(all[k]);
        assert(reverse_proxies_after(old)[k] == f);
        assert(f.mode == "bridge"@ || f.mode == "portal"@);
        assert(f.target_outbound_tag.len() > 0);
    }
    assert forall|k: int| 0 <= k < new.routing_rules.len() implies trimmed(
        (#[trigger] new.routing_rules[k]).outbound_tag@,
    ).len() > 0 by {
        if old.routing_rules.len() == 0 {
            lemma_not_blank("direct"@, 0);
        } else {
            assert(rule_fixed(old.routing_rules[k], new.routing_rules[k]));
            lemma_or_default_not_blank(old.routing_rules[k].outbound_tag@, "direct"@);
        }
    }
}

/// Brings a draft into canonical form (see `synced` and `is_canonical`).
pub fn sync_draft(draft: &mut NodeConfigDraft)
    ensures
        synced(old(draft)@, final(draft)@),
        is_canonical(final(draft)@),
{
    let ghost start = draft@;
    // Inbounds: reverse proxies leave, the others are put in canonical form.
    let mut pending: Vec<InboundEntryDraft> = Vec::new();
    std::mem::swap(&mut pending, &mut draft.inbounds);
    let ghost orig = pending@;
    let ghost origv = start.inbounds;
    let total = pending.len();
    let ghost mut p: int = 0;
    let mut kept: Vec<InboundEntryDraft> = Vec::new();
    let mut moved: Vec<ReverseProxyDraft> = Vec::new();
    assert(orig.skip(0) =~= orig);
    while pending.len() > 0
        invariant
            origv == start.inbounds,
            origv.len() == orig.len(),
            forall|k: int| 0 <= k < orig.len() ==> #[trigger] origv[k] == orig[k]@,
            orig.len() == total,
            draft.certificates@ == start.certificates,
            0 <= p <= orig.len(),
            pending@ == orig.skip(p),
            kept@.len() == kept_inbounds(origv.take(p)).len(),
            forall|k: int|
                0 <= k < kept@.len() ==> inbound_fixed(
                    kept_inbounds(origv.take(p))[k],
                    (#[trigger] kept@[k])@,
                    k as nat,
                    start.certificates,
                ),
            rp_texts(moved@) == migrated_texts(reverse_inbounds(origv.take(p))),
        decreases pending@.len(),
    {
        let item = pending.remove(0);
        proof {
            assert(origv.take(p + 1).drop_last() =~= origv.take(p));
            assert(origv.take(p + 1).last() == origv[p]);
            assert(orig.skip(p)[0] == orig[p]);
            assert(orig.skip(p).remove(0) =~= orig.skip(p + 1));
            assert(item@ == origv[p]);
            lemma_partition_len(origv.take(p));
        }
        let ghost kept_before = kept@;
        let ghost moved_before = moved@;
        if trim_eq_ignore_ascii_case(item.protocol.as_str(), "REVERSEPROXY") {
            let m = migrate_inbound(&item);
            moved.push(m);
            proof {
                lemma_rp_texts_push(moved_before, m);
                let rev = reverse_inbounds(origv.take(p + 1));
                assert(rev == reverse_inbounds(origv.take(p)).push(origv[p]));
                assert(rp_texts(moved@) =~= migrated_texts(rev));
                assert(kept_inbounds(origv.take(p + 1)) =~= kept_inbounds(origv.take(p)));
            }
        } else {
            let index = kept.len();
            let fixed = fix_inbound(item, index, draft.certificates.as_slice());
            kept.push(fixed);
            proof {
                let kp = kept_inbounds(origv.take(p + 1));
                assert(kp == kept_inbounds(origv.take(p)).push(origv[p]));
                assert forall|k: int| 0 <= k < kept@.len() implies inbound_fixed(
                    kp[k],
                    (#[trigger] kept@[k])@,
                    k as nat,
                    start.certificates,
                ) by {
                    if k < kept_before.len() {
                        assert(kept@[k] == kept_before[k]);
                        assert(kp[k] == kept_inbounds(origv.take(p))[k]);
                    }
                }
                assert(reverse_inbounds(origv.take(p + 1)) =~= reverse_inbounds(origv.take(p)));
            }
        }
        proof {
            p = p + 1;
        }
    }
    assert(origv.take(p) =~= origv);
    draft.inbounds = kept;
    // Reverse proxies: the draft's own, then the moved ones, in canonical form.
    let mut rps: Vec<ReverseProxyDraft> = Vec::new();
    std::mem::swap(&mut rps, &mut draft.reverse_proxies);
    let ghost all = rp_texts(start.reverse_proxies) + rp_texts(moved@);
    let mut fixed_rps: Vec<ReverseProxyDraft> = Vec::new();
    let mut i: usize = 0;
    while i < rps.len()
        invariant
            rps@ == start.reverse_proxies,
            all == rp_texts(start.reverse_proxies) + rp_texts(moved@),
            i <= rps@.len(),
            rp_texts(fixed_rps@) == Seq::new(i as nat, |k: int| rp_fixed(all[k])),
        decreases rps@.len() - i,
    {
        let r = fix_reverse_proxy(rps[i].duplicate());
        let ghost before = fixed_rps@;
        fixed_rps.push(r);
        proof {
            lemma_rp_texts_push(before, r);
            assert(all[i as int] == rp_texts(start.reverse_proxies)[i as int]);
        }
        i = i + 1;
        assert(rp_texts(fixed_rps@) =~= Seq::new(i as nat, |k: int| rp_fixed(all[k])));
    }
    let mut j: usize = 0;
    while j < moved.len()
        invariant
            rps@ == start.reverse_proxies,
            all == rp_texts(start.reverse_proxies) + rp_texts(moved@),
            j <= moved@.len(),
            rp_texts(fixed_rps@) == Seq::new((rps@.len() + j) as nat, |k: int| rp_fixed(all[k])),
        decreases moved@.len() - j,
    {
        let r = fix_reverse_proxy(moved[j].duplicate());
        let ghost before = fixed_rps@;
        fixed_rps.push(r);
        proof {
            lemma_rp_texts_push(before, r);
            assert(all[rps@.len() + j] == rp_texts(moved@)[j as int]);
        }
        j = j + 1;
        assert(rp_texts(fixed_rps@) =~= Seq::new(
            (rps@.len() + j) as nat,
            |k: int| rp_fixed(all[k]),
        ));
    }
    proof {
        assert(all =~= rp_texts(start.reverse_proxies) + migrated_texts(
            reverse_inbounds(start.inbounds),
        ));
        assert(rp_texts(fixed_rps@) =~= reverse_proxies_after(start));
    }
    draft.reverse_proxies = fixed_rps;
    // Outbounds.
    let mut outs: Vec<OutboundEntryDraft> = Vec::new();
    std::mem::swap(&mut outs, &mut draft.outbounds);
    let was_empty = outs.len() == 0;
    let ghost mut b0: OutboundEntryDraft = vstd::pervasive::arbitrary();
    let ghost mut b1: OutboundEntryDraft = vstd::pervasive::arbitrary();
    if was_empty {
        let d = default_builtin_outbound("direct", "DIRECT");
        let b = default_builtin_outbound("block", "BLOCK");
        proof {
            b0 = d;
            b1 = b;
        }
        outs.push(d);
        outs.push(b);
    }
    let ghost base = outs@;
    let mut fixed_outs: Vec<OutboundEntryDraft> = Vec::new();
    while outs.len() > 0
        invariant
            0 <= fixed_outs@.len() <= base.len(),
            outs@ == base.skip(fixed_outs@.len() as int),
            forall|k: int|
                0 <= k < fixed_outs@.len() ==> outbound_fixed(
                    base[k]@,
                    (#[trigger] fixed_outs@[k])@,
                ),
        decreases outs@.len(),
    {
        let ghost n = fixed_outs@.len() as int;
        let item = outs.remove(0);
        proof {
            assert(base.skip(n)[0] == base[n]);
            assert(base.skip(n).remove(0) =~= base.skip(n + 1));
        }
        fixed_outs.push(fix_outbound(item));
    }
    proof {
        assert(fixed_outs@.len() == base.len()) by {
            assert(base.skip(fixed_outs@.len() as int).len() == 0);
        }
        if was_empty {
            assert(outbound_fixed(b0@, fixed_outs@[0]@));
            assert(outbound_fixed(b1@, fixed_outs@[1]@));
        } else {
        }
    }
    draft.outbounds = fixed_outs;
    // Routing rules.
    let mut rules: Vec<RoutingRuleDraft> = Vec::new();
    std::mem::swap(&mut rules, &mut draft.routing_rules);
    if rules.len() == 0 {
        rules.push(crate::display::default_routing_rule_entry());
    }
    let ghost rbase = rules@;
    let mut fixed_rules: Vec<RoutingRuleDraft> = Vec::new();
    while rules.len() > 0
        invariant
            0 <= fixed_rules@.len() <= rbase.len(),
            rules@ == rbase.skip(fixed_rules@.len() as int),
            forall|k: int|
                0 <= k < fixed_rules@.len() ==> rule_fixed(rbase[k], #[trigger] fixed_rules@[k]),
        decreases rules@.len(),
    {
        let ghost n = fixed_rules@.len() as int;
        let item = rules.remove(0);
        proof {
            assert(rbase.skip(n)[0] == rbase[n]);
            assert(rbase.skip(n).remove(0) =~= rbase.skip(n + 1));
        }
        fixed_rules.push(fix_rule(item));
    }
    proof {
        assert(fixed_rules@.len() == rbase.len()) by {
            assert(rbase.skip(fixed_rules@.len() as int).len() == 0);
        }
        if start.routing_rules.len() == 0 {
            assert(rule_fixed(rbase[0], fixed_rules@[0]));
        }
    }
    draft.routing_rules = fixed_rules;
    proof {
        assert(draft@.inbounds.len() == kept_inbounds(start.inbounds).len());
        lemma_sync_canonical(start, draft@);
    }
}


/// The views of a list of outbounds.
pub open spec fn outbound_views(v: Seq<OutboundEntryDraft>) -> Seq<OutboundEntryDraftView> {
    Seq::new(v.len(), |i: int| v[i]@)
}

/// The inbounds of the draft in canonical form, the draft left as it is.
pub fn normalized_inbounds(draft: &NodeConfigDraft) -> (r: Vec<InboundEntryDraft>)
    ensures
        r@.len() == kept_inbounds(draft@.inbounds).len(),
        forall|k: int|
            0 <= k < r@.len() ==> inbound_fixed(
                kept_inbounds(draft@.inbounds)[k],
                (#[trigger] r@[k])@,
                k as nat,
                draft@.certificates,
            ),
{
    let mut copy = draft.duplicate();
    sync_draft(&mut copy);
    assert(forall|k: int| 0 <= k < copy.inbounds@.len() ==> copy@.inbounds[k] == #[trigger] copy.inbounds@[k]@);
    copy.inbounds
}

/// The outbounds of the draft in canonical form, the draft left as it is.
pub fn normalized_outbounds(draft: &NodeConfigDraft) -> (r: Vec<OutboundEntryDraft>)
    ensures
        outbounds_synced(draft@.outbounds, outbound_views(r@)),
{
    let mut copy = draft.duplicate();
    sync_draft(&mut copy);
    assert(outbound_views(copy.outbounds@) =~= copy@.outbounds);
    copy.outbounds
}

/// The routing rules of the draft in canonical form, the draft left as it is.
pub fn normalized_routing_rules(draft: &NodeConfigDraft) -> (r: Vec<RoutingRuleDraft>)
    ensures
        rules_synced(draft.routing_rules@, r@),
{
    let mut copy = draft.duplicate();
    sync_draft(&mut copy);
    copy.routing_rules
}

} // verus!
