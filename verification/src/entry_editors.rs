//! What the inbound, outbound and WARP editors do to the entry being
//! edited when a field changes or a button is pressed.

use vstd::prelude::*;
use vstd::string::*;
use crate::display::{certificate_display_name, name_or};
use crate::drafts::{default_warp_outbound, is_new_outbound};
use crate::keys::{generate_reality_short_id, hex_text};
use crate::model::{
    CertificateDraft, DropdownOption, InboundEntryDraft, InboundEntryDraftView, OutboundEntryDraft,
    OutboundEntryDraftView, WarpRegistration, WireGuardDraftView, WireGuardPeerItem,
};
use crate::protocols::{normalize_protocol_for_core, normalized_protocol};
use crate::text::{
    copy_str, csv_entries, eq_str, is_blank, is_clean_entry, is_list_separator, join, join_with,
    law_csv_entries_clean, law_csv_join_roundtrip, split_lines_csv, texts, trimmed,
};
use crate::warp::{
    bytes_text, lemma_written_lists_read_back, registration_of_outbound, warp_registration_to_draft,
};

verus! {

/// The protocol an inbound keeps when its core is set to `core`: none when
/// no core is chosen, else its protocol as that core takes it.
pub open spec fn protocol_after_core(core: Seq<char>, protocol: Seq<char>) -> Seq<char> {
    normalized_protocol(core, if trimmed(core).len() == 0 { Seq::empty() } else { protocol })
}

/// Sets the core of the inbound being edited; its protocol follows (see
/// `protocol_after_core`).
pub fn select_inbound_core(inbound: &mut InboundEntryDraft, core: &str)
    ensures
        final(inbound).core_type@ == core@,
        final(inbound).protocol@ == protocol_after_core(core@, old(inbound).protocol@),
        final(inbound)@ == (InboundEntryDraftView {
            core_type: final(inbound).core_type,
            protocol: final(inbound).protocol,
            ..old(inbound)@
        }),
{
    inbound.core_type = copy_str(core);
    if is_blank(core) {
        inbound.protocol = String::new();
    }
    let p = normalize_protocol_for_core(core, inbound.protocol.as_str());
    inbound.protocol = p;
}

/// The core an inbound has after the protocol `protocol` is chosen:
/// WireGuard runs on Xray.
pub open spec fn core_after_protocol(core: Seq<char>, protocol: Seq<char>) -> Seq<char> {
    if protocol == "WIREGUARD"@ {
        "XRAY"@
    } else {
        core
    }
}

/// Sets the protocol of the inbound being edited: WireGuard moves it to
/// Xray, and the protocol is taken as its core takes it.
pub fn select_inbound_protocol(inbound: &mut InboundEntryDraft, protocol: &str)
    ensures
        final(inbound).core_type@ == core_after_protocol(old(inbound).core_type@, protocol@),
        final(inbound).protocol@ == normalized_protocol(
            core_after_protocol(old(inbound).core_type@, protocol@),
            normalized_protocol(old(inbound).core_type@, protocol@),
        ),
        final(inbound)@ == (InboundEntryDraftView {
            core_type: final(inbound).core_type,
            protocol: final(inbound).protocol,
            ..old(inbound)@
        }),
{
    let first = normalize_protocol_for_core(inbound.core_type.as_str(), protocol);
    if eq_str(protocol, "WIREGUARD") {
        inbound.core_type = copy_str("XRAY");
    }
    let p = normalize_protocol_for_core(inbound.core_type.as_str(), first.as_str());
    inbound.protocol = p;
}

/// The label of a certificate in the inbound editor's list.
pub open spec fn certificate_option_label(c: CertificateDraft) -> Seq<char> {
    name_or(c.name@, "Unnamed certificate"@) + " ("@ + c.cert_type@ + ")"@
}

/// The certificates the inbound editor offers: each by its name, labelled
/// with its display name and kind; a single empty choice when there is
/// none.
pub fn certificate_options(certificates: &Vec<CertificateDraft>) -> (r: Vec<DropdownOption>)
    ensures
        certificates@.len() == 0 ==> r@.len() == 1 && r@[0].value@.len() == 0 && r@[0].label@
            == "No certificates yet"@,
        certificates@.len() > 0 ==> r@.len() == certificates@.len() && forall|k: int|
            0 <= k < r@.len() ==> (#[trigger] r@[k]).value == certificates@[k].name && r@[k].label@
                == certificate_option_label(certificates@[k]),
{
    let mut out: Vec<DropdownOption> = Vec::new();
    if certificates.len() == 0 {
        out.push(DropdownOption { value: String::new(), label: copy_str("No certificates yet") });
        return out;
    }
    let mut i: usize = 0;
    while i < certificates.len()
        invariant
            i <= certificates@.len(),
            out@.len() == i,
            forall|k: int|
                0 <= k < i ==> (#[trigger] out@[k]).value == certificates@[k].name && out@[k].label@
                    == certificate_option_label(certificates@[k]),
        decreases certificates@.len() - i,
    {
        let c = &certificates[i];
        let mut label = certificate_display_name(c);
        label.append(" (");
        label.append(c.cert_type.as_str());
        label.append(")");
        out.push(DropdownOption { value: c.name.clone(), label });
        i = i + 1;
    }
    out
}

/// `t` is a REALITY short id: 8 bytes written in lower-case hexadecimal.
pub open spec fn is_short_id(t: Seq<char>) -> bool {
    exists|b: Seq<u8>| b.len() == 8 && t == hex_text(b)
}

/// `count` fresh REALITY short ids, each 8 random bytes written in
/// lower-case hexadecimal; none when the system gives no random bytes. No
/// ids are asked of the system when none are wanted.
pub fn generate_reality_short_ids_batch(count: usize) -> (r: Option<Vec<String>>)
    ensures
        r matches Some(v) ==> v@.len() == count && forall|k: int|
            0 <= k < count ==> is_short_id(#[trigger] v@[k]@),
        count == 0 ==> (r matches Some(v) && v@.len() == 0),
{
    let mut out: Vec<String> = Vec::new();
    let mut i: usize = 0;
    while i < count
        invariant
            i <= count,
            out@.len() == i,
            forall|k: int| 0 <= k < i ==> is_short_id(#[trigger] out@[k]@),
        decreases count - i,
    {
        match generate_reality_short_id() {
            Some(t) => {
                assert(is_short_id(t@));
                out.push(t);
            },
            None => return None,
        }
        i = i + 1;
    }
    Some(out)
}

/// The short ids of the REALITY settings after more are generated: the ids
/// already written, then the new ones, separated by commas.
pub fn with_added_short_ids(existing: &str, added: &Vec<String>) -> (r: String)
    ensures
        r@ == join_with(csv_entries(existing@) + texts(added@), ","@),
{
    let mut ids = split_lines_csv(existing);
    let ghost first = ids@;
    let mut i: usize = 0;
    while i < added.len()
        invariant
            i <= added@.len(),
            texts(first) == csv_entries(existing@),
            ids@.len() == first.len() + i,
            forall|k: int| 0 <= k < first.len() ==> (#[trigger] ids@[k]) == first[k],
            forall|k: int| 0 <= k < i ==> (#[trigger] ids@[first.len() + k]) == added@[k],
        decreases added@.len() - i,
    {
        ids.push(added[i].clone());
        i = i + 1;
    }
    assert(texts(ids@) =~= csv_entries(existing@) + texts(added@)) by {
        assert forall|k: int| 0 <= k < ids@.len() implies #[trigger] texts(ids@)[k] == (csv_entries(
            existing@,
        ) + texts(added@))[k] by {
            if k < first.len() {
                assert(texts(first)[k] == first[k]@);
            } else {
                assert(ids@[first.len() + (k - first.len())] == added@[k - first.len()]);
            }
        }
    }
    join(&ids, ",")
}

/// The short ids written after more are generated read back as the ids
/// that were written, then the new ones, as long as each new id is a clean
/// list entry (as generated ids are).
pub proof fn law_added_short_ids_read_back(existing: Seq<char>, added: Seq<Seq<char>>)
    requires
        forall|k: int| 0 <= k < added.len() ==> is_clean_entry(#[trigger] added[k]),
    ensures
        csv_entries(join_with(csv_entries(existing) + added, ","@)) == csv_entries(existing) + added,
{
    reveal_strlit(",");
    law_csv_entries_clean(existing);
    let all = csv_entries(existing) + added;
    let n = csv_entries(existing).len();
    assert forall|k: int| 0 <= k < all.len() implies is_clean_entry(#[trigger] all[k]) by {
        if k < n {
            assert(all[k] == csv_entries(existing)[k]);
        } else {
            assert(all[k] == added[k - n]);
        }
    }
    assert(is_list_separator(","@));
    law_csv_join_roundtrip(all, ","@);
}

/// Sets the kind of the outbound being edited; an unnamed outbound takes
/// the kind as its name.
pub fn select_outbound_type(outbound: &mut OutboundEntryDraft, value: &str)
    ensures
        final(outbound).outbound_type@ == value@,
        final(outbound).name@ == if trimmed(old(outbound).name@).len() == 0 {
            value@
        } else {
            old(outbound).name@
        },
        final(outbound)@ == (OutboundEntryDraftView {
            outbound_type: final(outbound).outbound_type,
            name: final(outbound).name,
            ..old(outbound)@
        }),
{
    outbound.outbound_type = copy_str(value);
    if is_blank(outbound.name.as_str()) {
        outbound.name = copy_str(value);
    }
}

/// `o` is `old` with the WireGuard peers `peers`.
pub open spec fn with_peers(old: OutboundEntryDraftView, o: OutboundEntryDraftView, peers: Seq<WireGuardPeerItem>) -> bool {
    o == OutboundEntryDraftView { wireguard: WireGuardDraftView { peers, ..old.wireguard }, ..old }
}

/// Adds an empty WireGuard peer to the outbound being edited.
pub fn add_wireguard_peer(outbound: &mut OutboundEntryDraft)
    ensures
        final(outbound).wireguard.peers@.len() == old(outbound).wireguard.peers@.len() + 1,
        final(outbound).wireguard.peers@.last().is_default(),
        with_peers(
            old(outbound)@,
            final(outbound)@,
            old(outbound).wireguard.peers@.push(final(outbound).wireguard.peers@.last()),
        ),
{
    outbound.wireguard.peers.push(
        WireGuardPeerItem { public_key: String::new(), endpoint: String::new(), allowed_ips: String::new() },
    );
}

/// Removes the WireGuard peer in place `index` of the outbound being
/// edited, when there is one.
pub fn remove_wireguard_peer(outbound: &mut OutboundEntryDraft, index: usize)
    ensures
        with_peers(
            old(outbound)@,
            final(outbound)@,
            if index < old(outbound).wireguard.peers@.len() {
                old(outbound).wireguard.peers@.remove(index as int)
            } else {
                old(outbound).wireguard.peers@
            },
        ),
{
    if index < outbound.wireguard.peers.len() {
        outbound.wireguard.peers.remove(index);
    }
}

/// A field of a WireGuard peer in the outbound editor.
pub enum PeerField {
    PublicKey,
    Endpoint,
    AllowedIps,
}

/// Peer `p` with `field` set to `value`.
pub open spec fn peer_with(p: WireGuardPeerItem, field: PeerField, value: String) -> WireGuardPeerItem {
    match field {
        PeerField::PublicKey => WireGuardPeerItem { public_key: value, ..p },
        PeerField::Endpoint => WireGuardPeerItem { endpoint: value, ..p },
        PeerField::AllowedIps => WireGuardPeerItem { allowed_ips: value, ..p },
    }
}

/// Sets a field of the WireGuard peer in place `index` of the outbound
/// being edited, when there is one.
pub fn edit_wireguard_peer(outbound: &mut OutboundEntryDraft, index: usize, field: PeerField, value: String)
    ensures
        with_peers(
            old(outbound)@,
            final(outbound)@,
            if index < old(outbound).wireguard.peers@.len() {
                old(outbound).wireguard.peers@.update(
                    index as int,
                    peer_with(old(outbound).wireguard.peers@[index as int], field, value),
                )
            } else {
                old(outbound).wireguard.peers@
            },
        ),
{
    if index < outbound.wireguard.peers.len() {
        let old_peer = &outbound.wireguard.peers[index];
        let mut p = WireGuardPeerItem {
            public_key: old_peer.public_key.clone(),
            endpoint: old_peer.endpoint.clone(),
            allowed_ips: old_peer.allowed_ips.clone(),
        };
        match field {
            PeerField::PublicKey => p.public_key = value,
            PeerField::Endpoint => p.endpoint = value,
            PeerField::AllowedIps => p.allowed_ips = value,
        }
        outbound.wireguard.peers.set(index, p);
    }
}

/// `o` carries registration `r`: its key, WARP account, reserved bytes and
/// addresses written out, and one peer, the WARP server.
pub open spec fn warp_outbound_of(r: WarpRegistration, o: OutboundEntryDraft) -> bool {
    &&& o.wireguard.private_key == r.private_key
    &&& o.wireguard.warp_id == r.id
    &&& o.wireguard.warp_token == r.token
    &&& o.wireguard.reserved@ == bytes_text(r.reserved@)
    &&& o.wireguard.addresses@ == join_with(texts(r.addresses@), ", "@)
    &&& o.wireguard.peers@.len() == 1
    &&& o.wireguard.peers@[0].public_key == r.peer_public_key
    &&& o.wireguard.peers@[0].endpoint == r.endpoint
}

/// A WARP outbound made from a registration gives the registration back
/// when it is read as a WARP outbound, all but the public key and the
/// license, which the outbound does not keep; this as long as the
/// registration's addresses are clean list entries.
pub proof fn law_warp_outbound_gives_registration_back(
    reg: WarpRegistration,
    o: OutboundEntryDraft,
    back: WarpRegistration,
)
    requires
        warp_outbound_of(reg, o),
        registration_of_outbound(o, back),
        forall|k: int| 0 <= k < reg.addresses@.len() ==> is_clean_entry(#[trigger] reg.addresses@[k]@),
    ensures
        back.id == reg.id,
        back.token == reg.token,
        back.private_key == reg.private_key,
        back.peer_public_key == reg.peer_public_key,
        back.endpoint == reg.endpoint,
        back.reserved@ == reg.reserved@,
        texts(back.addresses@) == texts(reg.addresses@),
{
    lemma_written_lists_read_back(reg);
}

/// The WireGuard outbound made from a WARP registration: a new WARP
/// outbound (see `default_warp_outbound`) with the registration's key,
/// account, reserved bytes and addresses, and one peer, the WARP server,
/// that takes all traffic.
pub fn warp_outbound_from_registration(registration: &WarpRegistration) -> (r: OutboundEntryDraft)
    ensures
        is_new_outbound(r, "WARP"@, "WIREGUARD"@),
        r.wireguard.tag@ == "warp"@,
        r.wireguard.mtu == 1420,
        r.wireguard.workers == 0,
        r.wireguard.domain_strategy@.len() == 0,
        warp_outbound_of(*registration, r),
        r.wireguard.peers@[0].allowed_ips@ == "0.0.0.0/0, ::/0"@,
        r.vless.is_default(),
        r.trust_tunnel.is_default(),
        r.socks5.is_default(),
        r.shadowsocks.is_default(),
        r.trojan.is_default(),
        r.custom.is_default(),
{
    let written = warp_registration_to_draft(registration);
    let mut o = default_warp_outbound();
    o.wireguard.private_key = registration.private_key.clone();
    o.wireguard.warp_id = registration.id.clone();
    o.wireguard.warp_token = registration.token.clone();
    o.wireguard.reserved = written.reserved;
    o.wireguard.addresses = written.addresses;
    let mut peers: Vec<WireGuardPeerItem> = Vec::new();
    peers.push(
        WireGuardPeerItem {
            public_key: registration.peer_public_key.clone(),
            endpoint: registration.endpoint.clone(),
            allowed_ips: copy_str("0.0.0.0/0, ::/0"),
        },
    );
    o.wireguard.peers = peers;
    o
}

/// True when the inbound wizard may not go on from step `step`: on the
/// first step while the core or the protocol is blank, and on the third
/// step while a protocol that needs a certificate (VLESS over TLS,
/// Hysteria2, TrustTunnel, Trojan) has none chosen.
pub open spec fn wizard_next_blocked(step: nat, i: InboundEntryDraftView) -> bool {
    ||| step == 0 && (trimmed(i.core_type@).len() == 0 || trimmed(i.protocol@).len() == 0)
    ||| step == 2 && ((i.protocol@ == "VLESS"@ && i.vless.security@ == "TLS"@) || i.protocol@
        == "HYSTERIA2"@ || i.protocol@ == "TRUSTTUNNEL"@ || i.protocol@ == "TROJAN"@) && trimmed(
        i.tls.certificate_name@,
    ).len() == 0
}

/// Whether the inbound wizard's "Next" button is disabled on step `step`
/// (see `wizard_next_blocked`).
pub fn inbound_next_disabled(step: usize, inbound: &InboundEntryDraft) -> (r: bool)
    ensures
        r == wizard_next_blocked(step as nat, inbound@),
{
    if step == 0 {
        return is_blank(inbound.core_type.as_str()) || is_blank(inbound.protocol.as_str());
    }
    if step != 2 {
        return false;
    }
    let p = inbound.protocol.as_str();
    let needs_certificate = (eq_str(p, "VLESS") && eq_str(inbound.vless.security.as_str(), "TLS"))
        || eq_str(p, "HYSTERIA2") || eq_str(p, "TRUSTTUNNEL") || eq_str(p, "TROJAN");
    needs_certificate && is_blank(inbound.tls.certificate_name.as_str())
}

} // verus!
