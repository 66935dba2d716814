//! Syncing a draft that is already synced gives it back: the editor syncs
//! before and after every edit, and that second sync changes nothing the
//! first one settled.

use vstd::prelude::*;
use vstd::string::*;
use crate::certs::{answers_to, first_answer, reference_name};
use crate::display::name_or;
use crate::groups::{law_normalize_groups_idempotent, normalized_group_list};
use crate::model::{
    CertificateDraft, InboundEntryDraftView, NodeConfigDraftView, OutboundEntryDraftView, TlsDraft,
    VlessOutboundDraft,
};
use crate::sync::{
    inbound_fixed, is_reverse_inbound, kept_inbounds, lemma_or_default_not_blank,
    lemma_sync_canonical, lemma_uuid_not_blank, or_default, outbound_fixed, reverse_inbounds,
    rp_fixed, rp_texts, rule_fixed, same_but_strategy, synced, wireguard_fixed, ReverseProxyText,
};
use crate::text::{
    ascii_lower, ascii_lower_char, eq_ascii_ci, is_ws, lemma_not_blank, lemma_trimmed_fixed,
    lemma_trimmed_idempotent, lower_text, texts, trimmed,
};

verus! {

/// A certificate id that reads as the (trimmed) name of a certificate
/// belongs to a certificate of that name, so that a reference resolved to a
/// name resolves to the same name again.
pub open spec fn ids_agree_with_names(cs: Seq<CertificateDraft>) -> bool {
    forall|i: int, j: int|
        0 <= i < cs.len() && 0 <= j < cs.len() && #[trigger] trimmed(cs[i].id@) == #[trigger] trimmed(
            cs[j].name@,
        ) ==> trimmed(cs[i].name@) == trimmed(cs[j].name@)
}

proof fn lemma_first_answer_is_a_name(cs: Seq<CertificateDraft>, r: Seq<char>)
    ensures
        first_answer(cs, r) matches Some(n) ==> exists|j: int|
            0 <= j < cs.len() && #[trigger] trimmed(cs[j].name@) == n,
    decreases cs.len(),
{
    if cs.len() > 0 && !answers_to(cs[0], r) {
        lemma_first_answer_is_a_name(cs.drop_first(), r);
        match first_answer(cs, r) {
            Some(n) => {
                let j = choose|j: int|
                    0 <= j < cs.drop_first().len() && #[trigger] trimmed(cs.drop_first()[j].name@) == n;
                assert(trimmed(cs[j + 1].name@) == n);
            },
            None => {},
        }
    } else if cs.len() > 0 {
        assert(trimmed(cs[0].name@) == trimmed(cs[0].name@));
    }
}

proof fn lemma_first_answer_named(cs: Seq<CertificateDraft>, n: Seq<char>, j: int)
    requires
        0 <= j < cs.len(),
        trimmed(cs[j].name@) == n,
        forall|i: int| 0 <= i < cs.len() && trimmed(#[trigger] cs[i].id@) == n ==> trimmed(cs[i].name@) == n,
    ensures
        first_answer(cs, n) == Some(n),
    decreases cs.len(),
{
    if !answers_to(cs[0], n) {
        let rest = cs.drop_first();
        assert forall|i: int| 0 <= i < rest.len() && trimmed(#[trigger] rest[i].id@) == n implies trimmed(
            rest[i].name@,
        ) == n by {
            assert(rest[i] == cs[i + 1]);
        }
        assert(rest[j - 1] == cs[j]);
        lemma_first_answer_named(rest, n, j - 1);
    }
}

/// A reference resolved once resolves to itself.
proof fn lemma_reference_settled(cs: Seq<CertificateDraft>, reference: Seq<char>)
    requires
        ids_agree_with_names(cs),
    ensures
        ({
            let once = match reference_name(cs, reference) {
                Some(n) => n,
                None => reference,
            };
            match reference_name(cs, once) {
                Some(m) => m == once,
                None => true,
            }
        }),
{
    match reference_name(cs, reference) {
        Some(n) => {
            let r = trimmed(reference);
            lemma_first_answer_is_a_name(cs, r);
            let j = choose|j: int| 0 <= j < cs.len() && #[trigger] trimmed(cs[j].name@) == n;
            lemma_trimmed_idempotent(cs[j].name@);
            if trimmed(n).len() > 0 {
                assert(trimmed(n) == n);
                assert forall|i: int| 0 <= i < cs.len() && trimmed(#[trigger] cs[i].id@) == n implies trimmed(
                    cs[i].name@,
                ) == n by {
                    assert(trimmed(cs[i].id@) == trimmed(cs[j].name@));
                }
                lemma_first_answer_named(cs, n, j);
            }
        },
        None => {},
    }
}

proof fn lemma_or_default_settled(s: Seq<char>, fallback: Seq<char>, other: Seq<char>)
    requires
        fallback.len() > 0,
        !is_ws(fallback[0]),
    ensures
        or_default(or_default(s, fallback), other) == or_default(s, fallback),
{
    lemma_or_default_not_blank(s, fallback);
}

/// An inbound synced once stays as it is when synced again.
proof fn lemma_inbound_settled(
    x: InboundEntryDraftView,
    y: InboundEntryDraftView,
    k: nat,
    certs: Seq<CertificateDraft>,
)
    requires
        inbound_fixed(x, y, k, certs),
        ids_agree_with_names(certs),
    ensures
        inbound_fixed(y, y, k, certs),
{
    reveal_strlit("0.0.0.0");
    reveal_strlit("SING_BOX");
    reveal_strlit("VLESS");
    reveal_strlit("inbound-");
    reveal_strlit("ForceIP");
    if trimmed(x.id@).len() == 0 {
        lemma_uuid_not_blank(y.id@);
    }
    let label = "inbound-"@ + crate::text::decimal(k + 1);
    assert(label[0] == 'i');
    lemma_or_default_settled(x.name@, label, label);
    lemma_or_default_settled(x.listen@, "0.0.0.0"@, "0.0.0.0"@);
    lemma_or_default_settled(x.core_type@, "SING_BOX"@, "SING_BOX"@);
    lemma_or_default_settled(x.protocol@, "VLESS"@, "VLESS"@);
    lemma_or_default_settled(x.wireguard.domain_strategy@, "ForceIP"@, "ForceIP"@);
    law_normalize_groups_idempotent(texts(x.groups));
    lemma_reference_settled(certs, x.tls.certificate_name@);
    assert(y.port > 0);
}

proof fn lemma_lower_letters_not_blank(k: Seq<char>)
    requires
        k.len() > 0,
        forall|i: int| 0 <= i < k.len() ==> 'a' <= #[trigger] ascii_lower_char(k[i]) <= 'z',
    ensures
        trimmed(lower_text(k)).len() > 0,
{
    assert forall|i: int| 0 <= i < k.len() implies '\0' <= #[trigger] k[i] <= '\u{7f}' by {
        assert('a' <= ascii_lower_char(k[i]) <= 'z');
    }
    assert(lower_text(k) == ascii_lower(k));
    assert('a' <= ascii_lower(k)[0] <= 'z');
    lemma_not_blank(ascii_lower(k), 0);
}

proof fn lemma_builtin_kind_name(k: Seq<char>)
    requires
        eq_ascii_ci(k, "DIRECT"@) || eq_ascii_ci(k, "BLOCK"@),
    ensures
        trimmed(lower_text(k)).len() > 0,
{
    reveal_strlit("DIRECT");
    reveal_strlit("BLOCK");
    if eq_ascii_ci(k, "DIRECT"@) {
        assert forall|i: int| 0 <= i < k.len() implies 'a' <= #[trigger] ascii_lower_char(k[i]) <= 'z' by {
            assert(ascii_lower_char(k[i]) == ascii_lower_char("DIRECT"@[i]));
            assert('A' <= "DIRECT"@[i] <= 'Z');
        }
    } else {
        assert forall|i: int| 0 <= i < k.len() implies 'a' <= #[trigger] ascii_lower_char(k[i]) <= 'z' by {
            assert(ascii_lower_char(k[i]) == ascii_lower_char("BLOCK"@[i]));
            assert('A' <= "BLOCK"@[i] <= 'Z');
        }
    }
    lemma_lower_letters_not_blank(k);
}

/// An outbound synced once stays as it is when synced again.
proof fn lemma_outbound_settled(x: OutboundEntryDraftView, y: OutboundEntryDraftView)
    requires
        outbound_fixed(x, y),
    ensures
        outbound_fixed(y, y),
{
    reveal_strlit("VLESS");
    reveal_strlit("ForceIP");
    reveal_strlit("custom");
    if trimmed(x.id@).len() == 0 {
        lemma_uuid_not_blank(y.id@);
    }
    lemma_or_default_settled(x.outbound_type@, "VLESS"@, "VLESS"@);
    lemma_or_default_settled(x.wireguard.domain_strategy@, "ForceIP"@, "ForceIP"@);
    let kind = or_default(x.outbound_type@, "VLESS"@);
    let k = trimmed(kind);
    assert(or_default(y.outbound_type@, "VLESS"@) == kind);
    let is_builtin_kind = eq_ascii_ci(k, "DIRECT"@) || eq_ascii_ci(k, "BLOCK"@);
    let is_vless = !is_builtin_kind && eq_ascii_ci(k, "VLESS"@);
    if is_builtin_kind {
        lemma_builtin_kind_name(k);
        if trimmed(x.name@).len() == 0 {
            assert(y.name@ == lower_text(k));
        }
        assert(trimmed(y.name@).len() > 0);
    } else if is_vless {
        lemma_or_default_settled(x.name@, "VLESS"@, "VLESS"@);
    }
    if !is_builtin_kind && !is_vless && eq_ascii_ci(k, "CUSTOM"@) && trimmed(x.custom.tag@).len() == 0 {
        if trimmed(x.name@).len() == 0 {
            lemma_not_blank("custom"@, 0);
            lemma_trimmed_fixed("custom"@);
        } else {
            lemma_trimmed_idempotent(x.name@);
        }
        assert(trimmed(y.custom.tag@).len() > 0);
    }
}

proof fn lemma_lower_word(w: Seq<char>)
    requires
        w.len() > 0,
        forall|i: int| 0 <= i < w.len() ==> 'a' <= #[trigger] w[i] <= 'z',
    ensures
        lower_text(trimmed(w)) == w,
{
    assert(!is_ws(w[0]) && !is_ws(w.last()));
    lemma_trimmed_fixed(w);
    assert forall|i: int| 0 <= i < w.len() implies '\0' <= #[trigger] w[i] <= '\u{7f}' by {}
    assert(ascii_lower(w) =~= w);
}

/// A reverse proxy put in canonical form stays as it is when put in
/// canonical form again.
proof fn lemma_rp_settled(t: ReverseProxyText)
    ensures
        rp_fixed(rp_fixed(t)) == rp_fixed(t),
{
    reveal_strlit("bridge");
    reveal_strlit("portal");
    reveal_strlit("direct");
    let f = rp_fixed(t);
    if f.mode == "bridge"@ {
        lemma_lower_word("bridge"@);
    } else {
        lemma_lower_word("portal"@);
    }
    lemma_trimmed_idempotent(t.tag);
    lemma_trimmed_idempotent(t.domain);
    lemma_trimmed_idempotent(t.bridge_outbound_tag);
    lemma_trimmed_idempotent(t.portal_inbound_tag);
    lemma_trimmed_idempotent(t.target_outbound_tag);
    assert(!is_ws("direct"@[0]) && !is_ws("direct"@.last()));
    lemma_trimmed_fixed("direct"@);
    lemma_not_blank("direct"@, 0);
}

pub(crate) proof fn lemma_all_kept(is: Seq<InboundEntryDraftView>)
    requires
        forall|k: int| 0 <= k < is.len() ==> !is_reverse_inbound(#[trigger] is[k]),
    ensures
        kept_inbounds(is) == is,
        reverse_inbounds(is) == Seq::<InboundEntryDraftView>::empty(),
    decreases is.len(),
{
    if is.len() > 0 {
        lemma_all_kept(is.drop_last());
        assert(!is_reverse_inbound(is[is.len() - 1]));
        assert(kept_inbounds(is) =~= is.drop_last().push(is.last()));
        assert(reverse_inbounds(is) =~= Seq::<InboundEntryDraftView>::empty());
    }
}

/// Syncing a synced draft gives it back: every entry that syncing puts in
/// canonical form is left as it is by a second sync. This holds as long as
/// no certificate has an id that reads as the name of another certificate
/// with a different name.
pub proof fn law_sync_settles(a: NodeConfigDraftView, b: NodeConfigDraftView)
    requires
        synced(a, b),
        ids_agree_with_names(a.certificates),
    ensures
        synced(b, b),
{
    reveal_strlit("direct");
    lemma_sync_canonical(a, b);
    let kept = kept_inbounds(a.inbounds);
    assert forall|k: int| 0 <= k < b.inbounds.len() implies !is_reverse_inbound(#[trigger] b.inbounds[k]) by {
        assert(crate::sync::inbound_canonical(b.inbounds[k]));
    }
    lemma_all_kept(b.inbounds);
    assert forall|k: int| 0 <= k < b.inbounds.len() implies inbound_fixed(
        kept_inbounds(b.inbounds)[k],
        #[trigger] b.inbounds[k],
        k as nat,
        b.certificates,
    ) by {
        assert(inbound_fixed(kept[k], b.inbounds[k], k as nat, a.certificates));
        lemma_inbound_settled(kept[k], b.inbounds[k], k as nat, a.certificates);
    }
    // reverse proxies
    let all = crate::sync::rp_texts(a.reverse_proxies) + crate::sync::migrated_texts(reverse_inbounds(a.inbounds));
    assert(crate::sync::rp_texts(b.reverse_proxies) == crate::sync::fixed_texts(all));
    assert(crate::sync::migrated_texts(reverse_inbounds(b.inbounds)) =~= Seq::<ReverseProxyText>::empty());
    let mine = crate::sync::rp_texts(b.reverse_proxies);
    assert(mine + Seq::<ReverseProxyText>::empty() =~= mine);
    assert forall|i: int| 0 <= i < mine.len() implies #[trigger] crate::sync::fixed_texts(mine)[i] == mine[i] by {
        lemma_rp_settled(all[i]);
    }
    assert(crate::sync::fixed_texts(mine) =~= mine);
    // outbounds
    if a.outbounds.len() == 0 {
        let d = choose|o: crate::model::OutboundEntryDraft|
            crate::drafts::is_new_builtin(o, "direct"@, "DIRECT"@) && crate::sync::outbound_fixed(o@, b.outbounds[0]);
        let k = choose|o: crate::model::OutboundEntryDraft|
            crate::drafts::is_new_builtin(o, "block"@, "BLOCK"@) && crate::sync::outbound_fixed(o@, b.outbounds[1]);
        lemma_outbound_settled(d@, b.outbounds[0]);
        lemma_outbound_settled(k@, b.outbounds[1]);
        assert forall|j: int| 0 <= j < b.outbounds.len() implies outbound_fixed(b.outbounds[j], #[trigger] b.outbounds[j]) by {
            if j == 0 {} else {}
        }
    } else {
        assert forall|j: int| 0 <= j < b.outbounds.len() implies outbound_fixed(b.outbounds[j], #[trigger] b.outbounds[j]) by {
            lemma_outbound_settled(a.outbounds[j], b.outbounds[j]);
        }
    }
    // routing rules
    assert(!is_ws("direct"@[0]));
    if a.routing_rules.len() == 0 {
        lemma_or_default_settled("direct"@, "direct"@, "direct"@);
        assert(rule_fixed(b.routing_rules[0], b.routing_rules[0]));
    } else {
        assert forall|j: int| 0 <= j < b.routing_rules.len() implies rule_fixed(b.routing_rules[j], #[trigger] b.routing_rules[j]) by {
            assert(rule_fixed(a.routing_rules[j], b.routing_rules[j]));
            lemma_or_default_settled(a.routing_rules[j].outbound_tag@, "direct"@, "direct"@);
        }
    }
}

/// What a second sync gives back of an inbound: the same inbound, with the
/// same group names and the same certificate name.
pub open spec fn inbound_unchanged(x: InboundEntryDraftView, y: InboundEntryDraftView) -> bool {
    &&& y == (InboundEntryDraftView {
        groups: y.groups,
        tls: TlsDraft { certificate_name: y.tls.certificate_name, ..x.tls },
        ..x
    })
    &&& texts(y.groups) == texts(x.groups)
    &&& y.tls.certificate_name@ == x.tls.certificate_name@
}

/// What a second sync gives back of an outbound: the same outbound, with the
/// same VLESS tag.
pub open spec fn outbound_unchanged(x: OutboundEntryDraftView, y: OutboundEntryDraftView) -> bool {
    &&& y == (OutboundEntryDraftView {
        vless: VlessOutboundDraft { tag: y.vless.tag, ..x.vless },
        ..x
    })
    &&& y.vless.tag@ == x.vless.tag@
}

proof fn lemma_inbound_unchanged(
    x: InboundEntryDraftView,
    y: InboundEntryDraftView,
    z: InboundEntryDraftView,
    k: nat,
    certs: Seq<CertificateDraft>,
)
    requires
        inbound_fixed(x, y, k, certs),
        inbound_fixed(y, z, k, certs),
        ids_agree_with_names(certs),
    ensures
        inbound_unchanged(y, z),
{
    reveal_strlit("0.0.0.0");
    reveal_strlit("SING_BOX");
    reveal_strlit("VLESS");
    reveal_strlit("inbound-");
    reveal_strlit("ForceIP");
    if trimmed(x.id@).len() == 0 {
        lemma_uuid_not_blank(y.id@);
    }
    let label = "inbound-"@ + crate::text::decimal(k + 1);
    assert(label[0] == 'i');
    lemma_or_default_not_blank(x.name@, label);
    lemma_or_default_not_blank(x.listen@, "0.0.0.0"@);
    lemma_or_default_not_blank(x.core_type@, "SING_BOX"@);
    lemma_or_default_not_blank(x.protocol@, "VLESS"@);
    lemma_or_default_not_blank(x.wireguard.domain_strategy@, "ForceIP"@);
    law_normalize_groups_idempotent(texts(x.groups));
    lemma_reference_settled(certs, x.tls.certificate_name@);
    assert(y.port > 0);
    assert(z.wireguard == y.wireguard);
    assert(z.tls == TlsDraft { certificate_name: z.tls.certificate_name, ..y.tls });
}

proof fn lemma_outbound_unchanged(
    x: OutboundEntryDraftView,
    y: OutboundEntryDraftView,
    z: OutboundEntryDraftView,
)
    requires
        outbound_fixed(x, y),
        outbound_fixed(y, z),
    ensures
        outbound_unchanged(y, z),
{
    reveal_strlit("VLESS");
    reveal_strlit("ForceIP");
    reveal_strlit("custom");
    lemma_outbound_settled(x, y);
    if trimmed(x.id@).len() == 0 {
        lemma_uuid_not_blank(y.id@);
    }
    lemma_or_default_not_blank(x.outbound_type@, "VLESS"@);
    lemma_or_default_not_blank(x.wireguard.domain_strategy@, "ForceIP"@);
    lemma_or_default_settled(x.outbound_type@, "VLESS"@, "VLESS"@);
    let kind = or_default(x.outbound_type@, "VLESS"@);
    let k = trimmed(kind);
    let is_builtin_kind = eq_ascii_ci(k, "DIRECT"@) || eq_ascii_ci(k, "BLOCK"@);
    let is_vless = !is_builtin_kind && eq_ascii_ci(k, "VLESS"@);
    if is_builtin_kind {
        lemma_builtin_kind_name(k);
        if trimmed(x.name@).len() == 0 {
            assert(y.name@ == lower_text(k));
        }
        assert(trimmed(y.name@).len() > 0);
    } else if is_vless {
        lemma_or_default_not_blank(x.name@, "VLESS"@);
        lemma_or_default_settled(x.name@, "VLESS"@, "VLESS"@);
    }
    if !is_builtin_kind && !is_vless && eq_ascii_ci(k, "CUSTOM"@) && trimmed(x.custom.tag@).len() == 0 {
        if trimmed(x.name@).len() == 0 {
            lemma_not_blank("custom"@, 0);
            lemma_trimmed_fixed("custom"@);
        } else {
            lemma_trimmed_idempotent(x.name@);
        }
        assert(trimmed(y.custom.tag@).len() > 0);
    }
    assert(z.wireguard == y.wireguard);
    assert(z.custom == y.custom);
    assert(z.vless == VlessOutboundDraft { tag: z.vless.tag, ..y.vless });
}

/// Syncing twice is syncing once: the second sync gives every entry back as
/// the first sync left it, and makes no new ids. This holds as long as no
/// certificate has an id that reads as the name of another certificate with
/// a different name.
pub proof fn law_second_sync_changes_nothing(
    a: NodeConfigDraftView,
    b: NodeConfigDraftView,
    c: NodeConfigDraftView,
)
    requires
        synced(a, b),
        synced(b, c),
        ids_agree_with_names(a.certificates),
    ensures
        c.inbounds.len() == b.inbounds.len(),
        forall|k: int|
            0 <= k < b.inbounds.len() ==> inbound_unchanged(b.inbounds[k], #[trigger] c.inbounds[k]),
        rp_texts(c.reverse_proxies) == rp_texts(b.reverse_proxies),
        c.outbounds.len() == b.outbounds.len(),
        forall|k: int|
            0 <= k < b.outbounds.len() ==> outbound_unchanged(b.outbounds[k], #[trigger] c.outbounds[k]),
        c.routing_rules == b.routing_rules,
        c.certificates == b.certificates,
        c.master_key == b.master_key,
        c.dns == b.dns,
        c.link_remark_template == b.link_remark_template,
        c.warp_registration == b.warp_registration,
{
    reveal_strlit("direct");
    law_sync_settles(a, b);
    lemma_sync_canonical(a, b);
    let kept = kept_inbounds(a.inbounds);
    assert forall|k: int| 0 <= k < b.inbounds.len() implies !is_reverse_inbound(#[trigger] b.inbounds[k]) by {
        assert(crate::sync::inbound_canonical(b.inbounds[k]));
    }
    lemma_all_kept(b.inbounds);
    assert forall|k: int|
        0 <= k < b.inbounds.len() implies inbound_unchanged(b.inbounds[k], #[trigger] c.inbounds[k]) by {
        assert(inbound_fixed(kept[k], b.inbounds[k], k as nat, a.certificates));
        assert(inbound_fixed(kept_inbounds(b.inbounds)[k], c.inbounds[k], k as nat, b.certificates));
        lemma_inbound_unchanged(kept[k], b.inbounds[k], c.inbounds[k], k as nat, a.certificates);
    }
    assert forall|j: int|
        0 <= j < b.outbounds.len() implies outbound_unchanged(b.outbounds[j], #[trigger] c.outbounds[j]) by {
        assert(outbound_fixed(b.outbounds[j], c.outbounds[j]));
        if a.outbounds.len() == 0 {
            if j == 0 {
                let d = choose|o: crate::model::OutboundEntryDraft|
                    crate::drafts::is_new_builtin(o, "direct"@, "DIRECT"@) && outbound_fixed(o@, b.outbounds[0]);
                lemma_outbound_unchanged(d@, b.outbounds[0], c.outbounds[0]);
            } else {
                let d = choose|o: crate::model::OutboundEntryDraft|
                    crate::drafts::is_new_builtin(o, "block"@, "BLOCK"@) && outbound_fixed(o@, b.outbounds[1]);
                lemma_outbound_unchanged(d@, b.outbounds[1], c.outbounds[1]);
            }
        } else {
            lemma_outbound_unchanged(a.outbounds[j], b.outbounds[j], c.outbounds[j]);
        }
    }
    assert forall|j: int| 0 <= j < b.routing_rules.len() implies #[trigger] c.routing_rules[j] == b.routing_rules[j] by {
        assert(rule_fixed(b.routing_rules[j], c.routing_rules[j]));
    }
    assert(c.routing_rules =~= b.routing_rules);
}

/// Syncing turns every reverse-proxy inbound into a reverse proxy placed
/// after the draft's own: the draft's reverse proxies stay enabled or
/// disabled as they were, and each migrated one is enabled exactly when its
/// inbound was, tagged with the inbound's trimmed name when it had no tag.
pub proof fn law_migrated_reverse_proxies(old: NodeConfigDraftView, new: NodeConfigDraftView)
    requires
        synced(old, new),
    ensures
        new.reverse_proxies.len() == old.reverse_proxies.len() + reverse_inbounds(old.inbounds).len(),
        forall|k: int|
            0 <= k < old.reverse_proxies.len() ==> (#[trigger] new.reverse_proxies[k]).enabled
                == old.reverse_proxies[k].enabled,
        forall|k: int|
            0 <= k < reverse_inbounds(old.inbounds).len() ==> {
                let i = #[trigger] reverse_inbounds(old.inbounds)[k];
                let r = new.reverse_proxies[old.reverse_proxies.len() + k];
                &&& r.enabled == i.enabled
                &&& trimmed(i.reverse_proxy.tag@).len() == 0 ==> r.tag@ == trimmed(i.name@)
                &&& trimmed(i.reverse_proxy.tag@).len() > 0 ==> r.tag@ == trimmed(i.reverse_proxy.tag@)
                &&& r.domain@ == trimmed(i.reverse_proxy.domain@)
                &&& trimmed(i.reverse_proxy.target_outbound_tag@).len() == 0
                    ==> r.target_outbound_tag@ == "direct"@
                &&& trimmed(i.reverse_proxy.target_outbound_tag@).len() > 0
                    ==> r.target_outbound_tag@ == trimmed(i.reverse_proxy.target_outbound_tag@)
                &&& (r.mode@ == "bridge"@ || r.mode@ == "portal"@)
            },
{
    reveal_strlit("direct");
    reveal_strlit("bridge");
    reveal_strlit("portal");
    let rev = reverse_inbounds(old.inbounds);
    let all = rp_texts(old.reverse_proxies) + crate::sync::migrated_texts(rev);
    let n = old.reverse_proxies.len();
    assert(rp_texts(new.reverse_proxies) == crate::sync::fixed_texts(all));
    assert(rp_texts(new.reverse_proxies).len() == new.reverse_proxies.len());
    assert forall|k: int| 0 <= k < n implies (#[trigger] new.reverse_proxies[k]).enabled
        == old.reverse_proxies[k].enabled by {
        assert(rp_texts(new.reverse_proxies)[k] == crate::sync::rp_text(new.reverse_proxies[k]));
        assert(all[k] == crate::sync::rp_text(old.reverse_proxies[k]));
    }
    assert forall|k: int| 0 <= k < rev.len() implies {
        let i = #[trigger] reverse_inbounds(old.inbounds)[k];
        let r = new.reverse_proxies[old.reverse_proxies.len() + k];
        &&& r.enabled == i.enabled
        &&& trimmed(i.reverse_proxy.tag@).len() == 0 ==> r.tag@ == trimmed(i.name@)
        &&& trimmed(i.reverse_proxy.tag@).len() > 0 ==> r.tag@ == trimmed(i.reverse_proxy.tag@)
        &&& r.domain@ == trimmed(i.reverse_proxy.domain@)
        &&& trimmed(i.reverse_proxy.target_outbound_tag@).len() == 0
            ==> r.target_outbound_tag@ == "direct"@
        &&& trimmed(i.reverse_proxy.target_outbound_tag@).len() > 0
            ==> r.target_outbound_tag@ == trimmed(i.reverse_proxy.target_outbound_tag@)
        &&& (r.mode@ == "bridge"@ || r.mode@ == "portal"@)
    } by {
        let j = n + k;
        assert(rp_texts(new.reverse_proxies)[j] == crate::sync::rp_text(new.reverse_proxies[j]));
        assert(all[j] == crate::sync::migrated(rev[k]));
        lemma_trimmed_idempotent(rev[k].name@);
        lemma_trimmed_idempotent(rev[k].reverse_proxy.target_outbound_tag@);
        assert(!is_ws("direct"@[0]) && !is_ws("direct"@.last()));
        lemma_trimmed_fixed("direct"@);
        lemma_not_blank("direct"@, 0);
    }
}

} // verus!
