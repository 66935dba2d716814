//! WARP registrations: reading one from the draft or from a WireGuard
//! outbound that was created for WARP, and writing one back to the draft.

use vstd::prelude::*;
use vstd::string::*;
use crate::model::{NodeConfigDraft, OutboundEntryDraft, WarpRegistration, WarpRegistrationDraft};
use crate::text::{
    chars_of, csv_entries, decimal, is_blank, is_clean_entry, is_csv_sep, is_list_separator, is_ws,
    join, join_with, lemma_decimal_parses, lemma_decimal_reads_back, law_csv_join_roundtrip,
    parse_unsigned, parsed_unsigned, split_lines_csv, texts, trim_eq_ignore_ascii_case, trimmed,
    eq_ascii_ci, u64_to_string,
};

verus! {

/// The entries that read as bytes (0 to 255), as bytes, in order.
pub open spec fn parsed_bytes(entries: Seq<Seq<char>>) -> Seq<u8>
    decreases entries.len(),
{
    if entries.len() == 0 {
        Seq::empty()
    } else {
        parsed_bytes(entries.drop_last()) + match parsed_unsigned(entries.last(), 255) {
            Some(v) => seq![v as u8],
            None => Seq::empty(),
        }
    }
}

/// Keeps the entries that read as bytes.
fn parse_bytes(entries: &Vec<String>) -> (r: Vec<u8>)
    ensures
        r@ == parsed_bytes(texts(entries@)),
{
    let ghost es = texts(entries@);
    let mut out: Vec<u8> = Vec::new();
    let mut i: usize = 0;
    while i < entries.len()
        invariant
            es == texts(entries@),
            i <= entries@.len(),
            out@ == parsed_bytes(es.take(i as int)),
        decreases entries@.len() - i,
    {
        let cs = chars_of(entries[i].as_str());
        let ghost before = out@;
        match parse_unsigned(&cs, 255) {
            Some(v) => {
                out.push(v as u8);
            },
            None => {},
        }
        proof {
            assert(es.take(i + 1).drop_last() =~= es.take(i as int));
            assert(es.take(i + 1).last() == entries@[i as int]@);
            assert(out@ =~= parsed_bytes(es.take(i + 1)));
        }
        i = i + 1;
    }
    assert(es.take(es.len() as int) =~= es);
    out
}

/// True when a WARP draft holds nothing.
pub open spec fn warp_draft_unset(w: WarpRegistrationDraft) -> bool {
    &&& trimmed(w.id@).len() == 0
    &&& trimmed(w.token@).len() == 0
    &&& trimmed(w.private_key@).len() == 0
    &&& trimmed(w.public_key@).len() == 0
    &&& trimmed(w.peer_public_key@).len() == 0
    &&& trimmed(w.license@).len() == 0
    &&& trimmed(w.reserved@).len() == 0
    &&& trimmed(w.addresses@).len() == 0
    &&& trimmed(w.endpoint@).len() == 0
}

/// `r` is the registration a WARP draft describes: the same texts, the
/// reserved bytes and the addresses read from their lists.
pub open spec fn registration_of_draft(w: WarpRegistrationDraft, r: WarpRegistration) -> bool {
    &&& r.id == w.id
    &&& r.token == w.token
    &&& r.private_key == w.private_key
    &&& r.public_key == w.public_key
    &&& r.peer_public_key == w.peer_public_key
    &&& r.license == w.license
    &&& r.reserved@ == parsed_bytes(csv_entries(w.reserved@))
    &&& texts(r.addresses@) == csv_entries(w.addresses@)
    &&& r.endpoint == w.endpoint
}

/// The registration a WARP draft describes; none when the draft is empty.
pub fn warp_registration_from_draft(warp: &WarpRegistrationDraft) -> (r: Option<WarpRegistration>)
    ensures
        warp_draft_unset(*warp) ==> r is None,
        !warp_draft_unset(*warp) ==> (r matches Some(reg) && registration_of_draft(*warp, reg)),
{
    if is_blank(warp.id.as_str()) && is_blank(warp.token.as_str()) && is_blank(
        warp.private_key.as_str(),
    ) && is_blank(warp.public_key.as_str()) && is_blank(warp.peer_public_key.as_str())
        && is_blank(warp.license.as_str()) && is_blank(warp.reserved.as_str()) && is_blank(
        warp.addresses.as_str(),
    ) && is_blank(warp.endpoint.as_str()) {
        return None;
    }
    let entries = split_lines_csv(warp.reserved.as_str());
    Some(
        WarpRegistration {
            id: warp.id.clone(),
            token: warp.token.clone(),
            private_key: warp.private_key.clone(),
            public_key: warp.public_key.clone(),
            peer_public_key: warp.peer_public_key.clone(),
            license: warp.license.clone(),
            reserved: parse_bytes(&entries),
            addresses: split_lines_csv(warp.addresses.as_str()),
            endpoint: warp.endpoint.clone(),
        },
    )
}

/// True when an outbound is a WireGuard outbound registered with WARP.
pub open spec fn is_warp_outbound(o: OutboundEntryDraft) -> bool {
    &&& eq_ascii_ci(trimmed(o.outbound_type@), "WIREGUARD"@)
    &&& trimmed(o.wireguard.warp_id@).len() > 0
    &&& trimmed(o.wireguard.warp_token@).len() > 0
}

/// `r` is the registration a WARP outbound carries: its WARP id and token,
/// its private key, the key and endpoint of its first peer (empty when it has
/// none), its reserved bytes and addresses.
pub open spec fn registration_of_outbound(o: OutboundEntryDraft, r: WarpRegistration) -> bool {
    &&& r.id == o.wireguard.warp_id
    &&& r.token == o.wireguard.warp_token
    &&& r.private_key == o.wireguard.private_key
    &&& r.public_key@.len() == 0
    &&& r.license@.len() == 0
    &&& (if o.wireguard.peers@.len() > 0 {
        r.peer_public_key == o.wireguard.peers@[0].public_key && r.endpoint
            == o.wireguard.peers@[0].endpoint
    } else {
        r.peer_public_key@.len() == 0 && r.endpoint@.len() == 0
    })
    &&& r.reserved@ == parsed_bytes(csv_entries(o.wireguard.reserved@))
    &&& texts(r.addresses@) == csv_entries(o.wireguard.addresses@)
}

/// The registration of the first WARP outbound; none when there is none.
pub fn warp_registration_from_outbounds(outbounds: &[OutboundEntryDraft]) -> (r: Option<
    WarpRegistration,
>)
    ensures
        match r {
            Some(reg) => exists|i: int|
                0 <= i < outbounds@.len() && is_warp_outbound(#[trigger] outbounds@[i]) && (forall|
                    k: int,
                |
                    0 <= k < i ==> !is_warp_outbound(#[trigger] outbounds@[k]))
                    && registration_of_outbound(outbounds@[i], reg),
            None => forall|k: int|
                0 <= k < outbounds@.len() ==> !is_warp_outbound(#[trigger] outbounds@[k]),
        },
{
    let mut i: usize = 0;
    while i < outbounds.len()
        invariant
            i <= outbounds@.len(),
            forall|k: int| 0 <= k < i ==> !is_warp_outbound(#[trigger] outbounds@[k]),
        decreases outbounds@.len() - i,
    {
        let o = &outbounds[i];
        if trim_eq_ignore_ascii_case(o.outbound_type.as_str(), "WIREGUARD") && !is_blank(
            o.wireguard.warp_id.as_str(),
        ) && !is_blank(o.wireguard.warp_token.as_str()) {
            let (peer_public_key, endpoint) = if o.wireguard.peers.len() > 0 {
                (o.wireguard.peers[0].public_key.clone(), o.wireguard.peers[0].endpoint.clone())
            } else {
                (String::new(), String::new())
            };
            let entries = split_lines_csv(o.wireguard.reserved.as_str());
            let reg = WarpRegistration {
                id: o.wireguard.warp_id.clone(),
                token: o.wireguard.warp_token.clone(),
                private_key: o.wireguard.private_key.clone(),
                public_key: String::new(),
                peer_public_key,
                license: String::new(),
                reserved: parse_bytes(&entries),
                addresses: split_lines_csv(o.wireguard.addresses.as_str()),
                endpoint,
            };
            assert(is_warp_outbound(outbounds@[i as int]));
            assert(registration_of_outbound(outbounds@[i as int], reg));
            return Some(reg);
        }
        i = i + 1;
    }
    None
}

/// The reserved bytes of a registration as the draft writes them.
pub open spec fn bytes_text(bs: Seq<u8>) -> Seq<char> {
    join_with(Seq::new(bs.len(), |i: int| decimal(bs[i] as nat)), ", "@)
}

/// `w` is registration `r` written in a draft: the same texts, the reserved
/// bytes and the addresses written out, separated by `, `.
pub open spec fn registration_written(r: WarpRegistration, w: WarpRegistrationDraft) -> bool {
    &&& w.id == r.id
    &&& w.token == r.token
    &&& w.private_key == r.private_key
    &&& w.public_key == r.public_key
    &&& w.peer_public_key == r.peer_public_key
    &&& w.license == r.license
    &&& w.reserved@ == bytes_text(r.reserved@)
    &&& w.addresses@ == join_with(texts(r.addresses@), ", "@)
    &&& w.endpoint == r.endpoint
}

/// The decimal texts of some bytes.
pub open spec fn byte_texts(bs: Seq<u8>) -> Seq<Seq<char>> {
    Seq::new(bs.len(), |i: int| decimal(bs[i] as nat))
}

proof fn lemma_bytes_read_back(bs: Seq<u8>)
    ensures
        parsed_bytes(byte_texts(bs)) == bs,
    decreases bs.len(),
{
    if bs.len() > 0 {
        let q = bs.drop_last();
        lemma_bytes_read_back(q);
        assert(byte_texts(bs).drop_last() =~= byte_texts(q));
        let b = bs.last();
        assert(byte_texts(bs).last() == decimal(b as nat));
        lemma_decimal_parses(b as nat, 255);
        assert(seq![(b as nat) as u8] =~= seq![b]);
        assert(q + seq![b] =~= bs);
    } else {
        assert(byte_texts(bs) =~= Seq::<Seq<char>>::empty());
        assert(parsed_bytes(byte_texts(bs)) =~= bs);
    }
}

proof fn lemma_comma_space_separates()
    ensures
        is_list_separator(", "@),
{
    reveal_strlit(", ");
    assert(is_ws(", "@[1]) && !is_csv_sep(", "@[1]));
}

/// The reserved bytes and the addresses of a registration, written out
/// separated by `, `, read back as they were (the addresses as long as they
/// are clean list entries).
pub proof fn lemma_written_lists_read_back(reg: WarpRegistration)
    ensures
        parsed_bytes(csv_entries(bytes_text(reg.reserved@))) == reg.reserved@,
        (forall|k: int| 0 <= k < reg.addresses@.len() ==> is_clean_entry(#[trigger] reg.addresses@[k]@))
            ==> csv_entries(join_with(texts(reg.addresses@), ", "@)) == texts(reg.addresses@),
{
    lemma_comma_space_separates();
    if forall|k: int| 0 <= k < reg.addresses@.len() ==> is_clean_entry(#[trigger] reg.addresses@[k]@) {
        assert forall|k: int| 0 <= k < texts(reg.addresses@).len() implies is_clean_entry(
            #[trigger] texts(reg.addresses@)[k],
        ) by {
            assert(texts(reg.addresses@)[k] == reg.addresses@[k]@);
        }
        law_csv_join_roundtrip(texts(reg.addresses@), ", "@);
    }
    let bt = byte_texts(reg.reserved@);
    assert forall|k: int| 0 <= k < bt.len() implies is_clean_entry(#[trigger] bt[k]) by {
        lemma_decimal_reads_back(reg.reserved@[k] as nat);
    }
    law_csv_join_roundtrip(bt, ", "@);
    assert(bytes_text(reg.reserved@) == join_with(bt, ", "@));
    lemma_bytes_read_back(reg.reserved@);
}

/// A registration written in a draft reads back as the same registration,
/// as long as its addresses are clean list entries (not empty, no white
/// space around them, no comma or line break in them).
pub proof fn law_warp_registration_roundtrip(reg: WarpRegistration, w: WarpRegistrationDraft, back: WarpRegistration)
    requires
        registration_written(reg, w),
        registration_of_draft(w, back),
        forall|k: int| 0 <= k < reg.addresses@.len() ==> is_clean_entry(#[trigger] reg.addresses@[k]@),
    ensures
        back.id == reg.id,
        back.token == reg.token,
        back.private_key == reg.private_key,
        back.public_key == reg.public_key,
        back.peer_public_key == reg.peer_public_key,
        back.license == reg.license,
        back.reserved@ == reg.reserved@,
        texts(back.addresses@) == texts(reg.addresses@),
        back.endpoint == reg.endpoint,
{
    lemma_written_lists_read_back(reg);
}

/// The draft form of a registration: lists written out, separated by `, `.
pub fn warp_registration_to_draft(registration: &WarpRegistration) -> (r: WarpRegistrationDraft)
    ensures
        r.id == registration.id,
        r.token == registration.token,
        r.private_key == registration.private_key,
        r.public_key == registration.public_key,
        r.peer_public_key == registration.peer_public_key,
        r.license == registration.license,
        r.reserved@ == bytes_text(registration.reserved@),
        r.addresses@ == join_with(texts(registration.addresses@), ", "@),
        r.endpoint == registration.endpoint,
{
    let mut numbers: Vec<String> = Vec::new();
    let mut i: usize = 0;
    while i < registration.reserved.len()
        invariant
            i <= registration.reserved@.len(),
            numbers@.len() == i,
            texts(numbers@) == Seq::new(i as nat, |k: int| decimal(registration.reserved@[k] as nat)),
        decreases registration.reserved@.len() - i,
    {
        let b: u8 = registration.reserved[i];
        let text = u64_to_string(b as u64);
        assert(text@ == decimal(registration.reserved@[i as int] as nat));
        let ghost before = numbers@;
        assert(before.len() == i);
        numbers.push(text);
        assert(numbers@ == before.push(text));
        assert(texts(numbers@) =~= Seq::new(
            (i + 1) as nat,
            |k: int| decimal(registration.reserved@[k] as nat),
        )) by {
            assert forall|k: int| 0 <= k < i + 1 implies #[trigger] texts(numbers@)[k] == decimal(
                registration.reserved@[k] as nat,
            ) by {
                if k < i {
                    assert(numbers@[k] == before[k]);
                    assert(texts(before)[k] == before[k]@);
                } else {
                    assert(numbers@[k] == text);
                }
            }
        }
        i = i + 1;
    }
    WarpRegistrationDraft {
        id: registration.id.clone(),
        token: registration.token.clone(),
        private_key: registration.private_key.clone(),
        public_key: registration.public_key.clone(),
        peer_public_key: registration.peer_public_key.clone(),
        license: registration.license.clone(),
        reserved: join(&numbers, ", "),
        addresses: join(&registration.addresses, ", "),
        endpoint: registration.endpoint.clone(),
    }
}

/// The registration a draft starts with: the one its WARP settings describe,
/// else the one of its first WARP outbound.
pub fn initial_warp_registration(draft: &NodeConfigDraft) -> (r: Option<WarpRegistration>)
    ensures
        !warp_draft_unset(draft.warp_registration) ==> (r matches Some(reg)
            && registration_of_draft(draft.warp_registration, reg)),
        warp_draft_unset(draft.warp_registration) ==> match r {
            Some(reg) => exists|i: int|
                0 <= i < draft.outbounds@.len() && is_warp_outbound(#[trigger] draft.outbounds@[i])
                    && (forall|k: int|
                    0 <= k < i ==> !is_warp_outbound(#[trigger] draft.outbounds@[k]))
                    && registration_of_outbound(draft.outbounds@[i], reg),
            None => forall|k: int|
                0 <= k < draft.outbounds@.len() ==> !is_warp_outbound(
                    #[trigger] draft.outbounds@[k],
                ),
        },
{
    match warp_registration_from_draft(&draft.warp_registration) {
        Some(reg) => Some(reg),
        None => warp_registration_from_outbounds(draft.outbounds.as_slice()),
    }
}

} // verus!
