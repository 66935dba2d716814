//! Edits of a draft made from the editor: saving, duplicating, deleting and
//! switching entries. Each edit works on the canonical form of the draft
//! and, where the editor asks for it, brings the result into canonical form
//! again.

use vstd::prelude::*;
use vstd::string::*;
use crate::display::{inbound_display_name, name_or};
use crate::ids::new_entry_id;
use crate::model::{
    CertificateDraft, DnsHostDraft, DnsServerDraft, InboundEntryDraft, InboundEntryDraftView,
    NodeConfigDraft, NodeConfigDraftView, OutboundEntryDraft, OutboundEntryDraftView,
    ReverseProxyDraft, RoutingRuleDraft, WarpRegistration, WarpRegistrationDraft,
};
use crate::ids::is_uuid_text;
use crate::sync::{sync_draft, synced};
use crate::text::{
    copy_str, eq_str, is_blank, join_with, texts, trim, trim_upper, trimmed, upper_trimmed,
};
use crate::warp::{bytes_text, warp_registration_to_draft};

verus! {

/// `i` is the first place in `s` of an inbound with the id `id`.
pub open spec fn first_inbound_with_id(s: Seq<InboundEntryDraftView>, id: Seq<char>, i: int) -> bool {
    &&& 0 <= i < s.len()
    &&& s[i].id@ == id
    &&& forall|k: int| 0 <= k < i ==> (#[trigger] s[k]).id@ != id
}

/// `i` is the first place in `s` of an outbound with the id `id`.
pub open spec fn first_outbound_with_id(s: Seq<OutboundEntryDraftView>, id: Seq<char>, i: int) -> bool {
    &&& 0 <= i < s.len()
    &&& s[i].id@ == id
    &&& forall|k: int| 0 <= k < i ==> (#[trigger] s[k]).id@ != id
}

/// The inbounds with `x` in the place of the first one with its id, or
/// added at the end when none has it.
pub open spec fn inbound_saved(s: Seq<InboundEntryDraftView>, x: InboundEntryDraftView) -> Seq<
    InboundEntryDraftView,
> {
    if exists|i: int| first_inbound_with_id(s, x.id@, i) {
        s.update(choose|i: int| first_inbound_with_id(s, x.id@, i), x)
    } else {
        s.push(x)
    }
}

/// The outbounds with `x` in the place of the first one with its id, or
/// added at the end when none has it.
pub open spec fn outbound_saved(s: Seq<OutboundEntryDraftView>, x: OutboundEntryDraftView) -> Seq<
    OutboundEntryDraftView,
> {
    if exists|i: int| first_outbound_with_id(s, x.id@, i) {
        s.update(choose|i: int| first_outbound_with_id(s, x.id@, i), x)
    } else {
        s.push(x)
    }
}

/// The inbounds without those that have the id `id`, in order.
pub open spec fn inbounds_without(s: Seq<InboundEntryDraftView>, id: Seq<char>) -> Seq<
    InboundEntryDraftView,
>
    decreases s.len(),
{
    if s.len() == 0 {
        Seq::empty()
    } else {
        let p = inbounds_without(s.drop_last(), id);
        if s.last().id@ == id {
            p
        } else {
            p.push(s.last())
        }
    }
}

/// The outbounds without those that have the id `id`, in order.
pub open spec fn outbounds_without(s: Seq<OutboundEntryDraftView>, id: Seq<char>) -> Seq<
    OutboundEntryDraftView,
>
    decreases s.len(),
{
    if s.len() == 0 {
        Seq::empty()
    } else {
        let p = outbounds_without(s.drop_last(), id);
        if s.last().id@ == id {
            p
        } else {
            p.push(s.last())
        }
    }
}

/// The inbound views of a list of inbounds.
pub open spec fn inbound_list_view(v: Seq<InboundEntryDraft>) -> Seq<InboundEntryDraftView> {
    Seq::new(v.len(), |i: int| v[i]@)
}

/// The outbound views of a list of outbounds.
pub open spec fn outbound_list_view(v: Seq<OutboundEntryDraft>) -> Seq<OutboundEntryDraftView> {
    Seq::new(v.len(), |i: int| v[i]@)
}

/// `p` is `m` with inbound `x` saved.
pub open spec fn with_inbound_saved(
    m: NodeConfigDraftView,
    p: NodeConfigDraftView,
    x: InboundEntryDraftView,
) -> bool {
    p == NodeConfigDraftView { inbounds: inbound_saved(m.inbounds, x), ..m }
}

/// `p` is `m` with outbound `x` saved.
pub open spec fn with_outbound_saved(
    m: NodeConfigDraftView,
    p: NodeConfigDraftView,
    x: OutboundEntryDraftView,
) -> bool {
    p == NodeConfigDraftView { outbounds: outbound_saved(m.outbounds, x), ..m }
}

pub(crate) fn find_inbound(v: &Vec<InboundEntryDraft>, id: &str) -> (r: Option<usize>)
    ensures
        match r {
            Some(i) => first_inbound_with_id(inbound_list_view(v@), id@, i as int),
            None => !exists|i: int| first_inbound_with_id(inbound_list_view(v@), id@, i),
        },
{
    let ghost s = inbound_list_view(v@);
    let mut i: usize = 0;
    while i < v.len()
        invariant
            s == inbound_list_view(v@),
            i <= v@.len(),
            forall|k: int| 0 <= k < i ==> (#[trigger] s[k]).id@ != id@,
        decreases v@.len() - i,
    {
        if eq_str(v[i].id.as_str(), id) {
            return Some(i);
        }
        i = i + 1;
    }
    proof {
        if exists|j: int| first_inbound_with_id(s, id@, j) {
            let j = choose|j: int| first_inbound_with_id(s, id@, j);
            assert(s[j].id@ == id@);
        }
    }
    None
}

fn find_outbound(v: &Vec<OutboundEntryDraft>, id: &str) -> (r: Option<usize>)
    ensures
        match r {
            Some(i) => first_outbound_with_id(outbound_list_view(v@), id@, i as int),
            None => !exists|i: int| first_outbound_with_id(outbound_list_view(v@), id@, i),
        },
{
    let ghost s = outbound_list_view(v@);
    let mut i: usize = 0;
    while i < v.len()
        invariant
            s == outbound_list_view(v@),
            i <= v@.len(),
            forall|k: int| 0 <= k < i ==> (#[trigger] s[k]).id@ != id@,
        decreases v@.len() - i,
    {
        if eq_str(v[i].id.as_str(), id) {
            return Some(i);
        }
        i = i + 1;
    }
    proof {
        if exists|j: int| first_outbound_with_id(s, id@, j) {
            let j = choose|j: int| first_outbound_with_id(s, id@, j);
            assert(s[j].id@ == id@);
        }
    }
    None
}

proof fn lemma_first_inbound_unique(s: Seq<InboundEntryDraftView>, id: Seq<char>, i: int, j: int)
    requires
        first_inbound_with_id(s, id, i),
        first_inbound_with_id(s, id, j),
    ensures
        i == j,
{
    if i < j {
        assert(s[i].id@ == id);
    } else if j < i {
        assert(s[j].id@ == id);
    }
}

proof fn lemma_first_outbound_unique(s: Seq<OutboundEntryDraftView>, id: Seq<char>, i: int, j: int)
    requires
        first_outbound_with_id(s, id, i),
        first_outbound_with_id(s, id, j),
    ensures
        i == j,
{
    if i < j {
        assert(s[i].id@ == id);
    } else if j < i {
        assert(s[j].id@ == id);
    }
}

/// Saves an inbound from the editor: it takes the place of the inbound with
/// its id, or is added when there is none; the draft is synced before and
/// after.
pub fn save_inbound(draft: &mut NodeConfigDraft, inbound: InboundEntryDraft)
    ensures
        exists|mid: NodeConfigDraftView, pre: NodeConfigDraftView|
            synced(old(draft)@, mid) && #[trigger] with_inbound_saved(mid, pre, inbound@) && synced(
                pre,
                final(draft)@,
            ),
{
    let ghost x = inbound@;
    let ghost start = draft@;
    sync_draft(draft);
    let ghost mid = draft@;
    assert(inbound_list_view(draft.inbounds@) =~= mid.inbounds);
    match find_inbound(&draft.inbounds, inbound.id.as_str()) {
        Some(i) => {
            proof {
                assert forall|j: int| first_inbound_with_id(mid.inbounds, x.id@, j) implies j
                    == i by {
                    lemma_first_inbound_unique(mid.inbounds, x.id@, i as int, j);
                }
                assert(first_inbound_with_id(mid.inbounds, x.id@, i as int));
                let c = choose|j: int| first_inbound_with_id(mid.inbounds, x.id@, j);
                assert(c == i);
            }
            draft.inbounds.set(i, inbound);
            assert(inbound_list_view(draft.inbounds@) =~= inbound_saved(mid.inbounds, x));
        },
        None => {
            draft.inbounds.push(inbound);
            assert(inbound_list_view(draft.inbounds@) =~= inbound_saved(mid.inbounds, x));
        },
    }
    let ghost pre = draft@;
    assert(pre.inbounds =~= inbound_saved(mid.inbounds, x));
    assert(with_inbound_saved(mid, pre, x));
    sync_draft(draft);
    assert(synced(start, mid) && with_inbound_saved(mid, pre, x) && synced(pre, draft@));
}

/// Saves an outbound from the editor: it takes the place of the outbound
/// with its id, or is added when there is none; the draft is synced before
/// and after.
pub fn save_outbound(draft: &mut NodeConfigDraft, outbound: OutboundEntryDraft)
    ensures
        exists|mid: NodeConfigDraftView, pre: NodeConfigDraftView|
            synced(old(draft)@, mid) && #[trigger] with_outbound_saved(mid, pre, outbound@)
                && synced(pre, final(draft)@),
{
    let ghost x = outbound@;
    let ghost start = draft@;
    sync_draft(draft);
    let ghost mid = draft@;
    assert(outbound_list_view(draft.outbounds@) =~= mid.outbounds);
    match find_outbound(&draft.outbounds, outbound.id.as_str()) {
        Some(i) => {
            proof {
                assert forall|j: int| first_outbound_with_id(mid.outbounds, x.id@, j) implies j
                    == i by {
                    lemma_first_outbound_unique(mid.outbounds, x.id@, i as int, j);
                }
                assert(first_outbound_with_id(mid.outbounds, x.id@, i as int));
                let c = choose|j: int| first_outbound_with_id(mid.outbounds, x.id@, j);
                assert(c == i);
            }
            draft.outbounds.set(i, outbound);
            assert(outbound_list_view(draft.outbounds@) =~= outbound_saved(mid.outbounds, x));
        },
        None => {
            draft.outbounds.push(outbound);
            assert(outbound_list_view(draft.outbounds@) =~= outbound_saved(mid.outbounds, x));
        },
    }
    let ghost pre = draft@;
    assert(pre.outbounds =~= outbound_saved(mid.outbounds, x));
    assert(with_outbound_saved(mid, pre, x));
    sync_draft(draft);
    assert(synced(start, mid) && with_outbound_saved(mid, pre, x) && synced(pre, draft@));
}


/// `p` is `m` without the inbounds that have the id `id`.
pub open spec fn with_inbound_deleted(m: NodeConfigDraftView, p: NodeConfigDraftView, id: Seq<char>) -> bool {
    p == NodeConfigDraftView { inbounds: inbounds_without(m.inbounds, id), ..m }
}

/// `p` is `m` without the outbounds that have the id `id`.
pub open spec fn with_outbound_deleted(m: NodeConfigDraftView, p: NodeConfigDraftView, id: Seq<char>) -> bool {
    p == NodeConfigDraftView { outbounds: outbounds_without(m.outbounds, id), ..m }
}

fn inbounds_without_id(v: &Vec<InboundEntryDraft>, id: &str) -> (r: Vec<InboundEntryDraft>)
    ensures
        inbound_list_view(r@) == inbounds_without(inbound_list_view(v@), id@),
{
    let ghost s = inbound_list_view(v@);
    let mut out: Vec<InboundEntryDraft> = Vec::new();
    let mut i: usize = 0;
    while i < v.len()
        invariant
            s == inbound_list_view(v@),
            i <= v@.len(),
            inbound_list_view(out@) == inbounds_without(s.take(i as int), id@),
        decreases v@.len() - i,
    {
        proof {
            assert(s.take(i + 1).drop_last() =~= s.take(i as int));
            assert(s.take(i + 1).last() == v@[i as int]@);
        }
        if !eq_str(v[i].id.as_str(), id) {
            let ghost before = out@;
            out.push(v[i].duplicate());
            assert(inbound_list_view(out@) =~= inbound_list_view(before).push(v@[i as int]@));
        }
        i = i + 1;
    }
    assert(s.take(v@.len() as int) =~= s);
    out
}

fn outbounds_without_id(v: &Vec<OutboundEntryDraft>, id: &str) -> (r: Vec<OutboundEntryDraft>)
    ensures
        outbound_list_view(r@) == outbounds_without(outbound_list_view(v@), id@),
{
    let ghost s = outbound_list_view(v@);
    let mut out: Vec<OutboundEntryDraft> = Vec::new();
    let mut i: usize = 0;
    while i < v.len()
        invariant
            s == outbound_list_view(v@),
            i <= v@.len(),
            outbound_list_view(out@) == outbounds_without(s.take(i as int), id@),
        decreases v@.len() - i,
    {
        proof {
            assert(s.take(i + 1).drop_last() =~= s.take(i as int));
            assert(s.take(i + 1).last() == v@[i as int]@);
        }
        if !eq_str(v[i].id.as_str(), id) {
            let ghost before = out@;
            out.push(v[i].duplicate());
            assert(outbound_list_view(out@) =~= outbound_list_view(before).push(v@[i as int]@));
        }
        i = i + 1;
    }
    assert(s.take(v@.len() as int) =~= s);
    out
}

/// Deletes the inbounds with the id `id`; the draft is synced before and
/// after.
pub fn delete_inbound(draft: &mut NodeConfigDraft, id: &str)
    ensures
        exists|mid: NodeConfigDraftView, pre: NodeConfigDraftView|
            synced(old(draft)@, mid) && #[trigger] with_inbound_deleted(mid, pre, id@) && synced(
                pre,
                final(draft)@,
            ),
{
    let ghost start = draft@;
    sync_draft(draft);
    let ghost mid = draft@;
    assert(inbound_list_view(draft.inbounds@) =~= mid.inbounds);
    let kept = inbounds_without_id(&draft.inbounds, id);
    draft.inbounds = kept;
    let ghost pre = draft@;
    assert(pre.inbounds =~= inbounds_without(mid.inbounds, id@));
    assert(with_inbound_deleted(mid, pre, id@));
    sync_draft(draft);
    assert(synced(start, mid) && with_inbound_deleted(mid, pre, id@) && synced(pre, draft@));
}

/// Deletes the outbounds with the id `id`; the draft is synced before and
/// after.
pub fn delete_outbound(draft: &mut NodeConfigDraft, id: &str)
    ensures
        exists|mid: NodeConfigDraftView, pre: NodeConfigDraftView|
            synced(old(draft)@, mid) && #[trigger] with_outbound_deleted(mid, pre, id@) && synced(
                pre,
                final(draft)@,
            ),
{
    let ghost start = draft@;
    sync_draft(draft);
    let ghost mid = draft@;
    assert(outbound_list_view(draft.outbounds@) =~= mid.outbounds);
    let kept = outbounds_without_id(&draft.outbounds, id);
    draft.outbounds = kept;
    let ghost pre = draft@;
    assert(pre.outbounds =~= outbounds_without(mid.outbounds, id@));
    assert(with_outbound_deleted(mid, pre, id@));
    sync_draft(draft);
    assert(synced(start, mid) && with_outbound_deleted(mid, pre, id@) && synced(pre, draft@));
}

/// `p` is `m` with the first inbound of id `id` switched on or off.
pub open spec fn with_inbound_enabled(
    m: NodeConfigDraftView,
    p: NodeConfigDraftView,
    id: Seq<char>,
    enabled: bool,
) -> bool {
    p == NodeConfigDraftView {
        inbounds: if exists|i: int| first_inbound_with_id(m.inbounds, id, i) {
            let i = choose|i: int| first_inbound_with_id(m.inbounds, id, i);
            m.inbounds.update(i, InboundEntryDraftView { enabled, ..m.inbounds[i] })
        } else {
            m.inbounds
        },
        ..m
    }
}

/// `p` is `m` with the first outbound of id `id` switched on or off.
pub open spec fn with_outbound_enabled(
    m: NodeConfigDraftView,
    p: NodeConfigDraftView,
    id: Seq<char>,
    enabled: bool,
) -> bool {
    p == NodeConfigDraftView {
        outbounds: if exists|i: int| first_outbound_with_id(m.outbounds, id, i) {
            let i = choose|i: int| first_outbound_with_id(m.outbounds, id, i);
            m.outbounds.update(i, OutboundEntryDraftView { enabled, ..m.outbounds[i] })
        } else {
            m.outbounds
        },
        ..m
    }
}

/// Switches the inbound with the id `id` on or off; the draft is synced
/// before and after.
pub fn set_inbound_enabled(draft: &mut NodeConfigDraft, id: &str, enabled: bool)
    ensures
        exists|mid: NodeConfigDraftView, pre: NodeConfigDraftView|
            synced(old(draft)@, mid) && #[trigger] with_inbound_enabled(mid, pre, id@, enabled)
                && synced(pre, final(draft)@),
{
    let ghost start = draft@;
    sync_draft(draft);
    let ghost mid = draft@;
    assert(inbound_list_view(draft.inbounds@) =~= mid.inbounds);
    match find_inbound(&draft.inbounds, id) {
        Some(i) => {
            proof {
                assert forall|j: int| first_inbound_with_id(mid.inbounds, id@, j) implies j == i by {
                    lemma_first_inbound_unique(mid.inbounds, id@, i as int, j);
                }
                assert(first_inbound_with_id(mid.inbounds, id@, i as int));
                let c = choose|j: int| first_inbound_with_id(mid.inbounds, id@, j);
                assert(c == i);
            }
            let mut item = draft.inbounds[i].duplicate();
            item.enabled = enabled;
            draft.inbounds.set(i, item);
            assert(inbound_list_view(draft.inbounds@) =~= mid.inbounds.update(
                i as int,
                InboundEntryDraftView { enabled, ..mid.inbounds[i as int] },
            ));
        },
        None => {},
    }
    let ghost pre = draft@;
    assert(with_inbound_enabled(mid, pre, id@, enabled));
    sync_draft(draft);
    assert(synced(start, mid) && with_inbound_enabled(mid, pre, id@, enabled) && synced(pre, draft@));
}

/// Switches the outbound with the id `id` on or off; the draft is synced
/// before and after.
pub fn set_outbound_enabled(draft: &mut NodeConfigDraft, id: &str, enabled: bool)
    ensures
        exists|mid: NodeConfigDraftView, pre: NodeConfigDraftView|
            synced(old(draft)@, mid) && #[trigger] with_outbound_enabled(mid, pre, id@, enabled)
                && synced(pre, final(draft)@),
{
    let ghost start = draft@;
    sync_draft(draft);
    let ghost mid = draft@;
    assert(outbound_list_view(draft.outbounds@) =~= mid.outbounds);
    match find_outbound(&draft.outbounds, id) {
        Some(i) => {
            proof {
                assert forall|j: int| first_outbound_with_id(mid.outbounds, id@, j) implies j == i by {
                    lemma_first_outbound_unique(mid.outbounds, id@, i as int, j);
                }
                assert(first_outbound_with_id(mid.outbounds, id@, i as int));
                let c = choose|j: int| first_outbound_with_id(mid.outbounds, id@, j);
                assert(c == i);
            }
            let mut item = draft.outbounds[i].duplicate();
            item.enabled = enabled;
            draft.outbounds.set(i, item);
            assert(outbound_list_view(draft.outbounds@) =~= mid.outbounds.update(
                i as int,
                OutboundEntryDraftView { enabled, ..mid.outbounds[i as int] },
            ));
        },
        None => {},
    }
    let ghost pre = draft@;
    assert(with_outbound_enabled(mid, pre, id@, enabled));
    sync_draft(draft);
    assert(synced(start, mid) && with_outbound_enabled(mid, pre, id@, enabled) && synced(pre, draft@));
}

/// `p` is `m` with `rule` in place `index`, or added when there is no such
/// place.
pub open spec fn with_rule_saved(
    m: NodeConfigDraftView,
    p: NodeConfigDraftView,
    index: int,
    rule: RoutingRuleDraft,
) -> bool {
    p == NodeConfigDraftView {
        routing_rules: if index < m.routing_rules.len() {
            m.routing_rules.update(index, rule)
        } else {
            m.routing_rules.push(rule)
        },
        ..m
    }
}

/// `p` is `m` with a copy of `rule` right after place `index` (at the end
/// when there is no such place).
pub open spec fn with_rule_duplicated(
    m: NodeConfigDraftView,
    p: NodeConfigDraftView,
    index: int,
    rule: RoutingRuleDraft,
) -> bool {
    let at = if index + 1 < m.routing_rules.len() {
        index + 1
    } else {
        m.routing_rules.len() as int
    };
    p == NodeConfigDraftView { routing_rules: m.routing_rules.insert(at, rule), ..m }
}

/// `p` is `m` without the rule in place `index` (unchanged when there is no
/// such place).
pub open spec fn with_rule_deleted(m: NodeConfigDraftView, p: NodeConfigDraftView, index: int) -> bool {
    p == NodeConfigDraftView {
        routing_rules: if index < m.routing_rules.len() {
            m.routing_rules.remove(index)
        } else {
            m.routing_rules
        },
        ..m
    }
}

/// Saves a routing rule from the editor in place `index`, or adds it; the
/// draft is synced before and after.
pub fn save_routing_rule(draft: &mut NodeConfigDraft, index: usize, rule: RoutingRuleDraft)
    ensures
        exists|mid: NodeConfigDraftView, pre: NodeConfigDraftView|
            synced(old(draft)@, mid) && #[trigger] with_rule_saved(mid, pre, index as int, rule)
                && synced(pre, final(draft)@),
{
    let ghost r = rule;
    let ghost start = draft@;
    sync_draft(draft);
    let ghost mid = draft@;
    if index < draft.routing_rules.len() {
        draft.routing_rules.set(index, rule);
    } else {
        draft.routing_rules.push(rule);
    }
    let ghost pre = draft@;
    assert(with_rule_saved(mid, pre, index as int, r));
    sync_draft(draft);
    assert(synced(start, mid) && with_rule_saved(mid, pre, index as int, r) && synced(pre, draft@));
}

/// Puts a copy of `rule` right after place `index`; the draft is synced
/// before and after.
pub fn duplicate_routing_rule(draft: &mut NodeConfigDraft, index: usize, rule: RoutingRuleDraft)
    ensures
        exists|mid: NodeConfigDraftView, pre: NodeConfigDraftView|
            synced(old(draft)@, mid) && #[trigger] with_rule_duplicated(mid, pre, index as int, rule)
                && synced(pre, final(draft)@),
{
    let ghost r = rule;
    let ghost start = draft@;
    sync_draft(draft);
    let ghost mid = draft@;
    let n = draft.routing_rules.len();
    let at = if index < n && index + 1 < n {
        index + 1
    } else {
        n
    };
    draft.routing_rules.insert(at, rule);
    let ghost pre = draft@;
    assert(with_rule_duplicated(mid, pre, index as int, r));
    sync_draft(draft);
    assert(synced(start, mid) && with_rule_duplicated(mid, pre, index as int, r) && synced(pre, draft@));
}

/// Deletes the rule in place `index`, when there is one; the draft is synced
/// before and after.
pub fn delete_routing_rule(draft: &mut NodeConfigDraft, index: usize)
    ensures
        exists|mid: NodeConfigDraftView, pre: NodeConfigDraftView|
            synced(old(draft)@, mid) && #[trigger] with_rule_deleted(mid, pre, index as int)
                && synced(pre, final(draft)@),
{
    let ghost start = draft@;
    sync_draft(draft);
    let ghost mid = draft@;
    if index < draft.routing_rules.len() {
        draft.routing_rules.remove(index);
    }
    let ghost pre = draft@;
    assert(with_rule_deleted(mid, pre, index as int));
    sync_draft(draft);
    assert(synced(start, mid) && with_rule_deleted(mid, pre, index as int) && synced(pre, draft@));
}


/// `q` is reverse proxy `r` as the editor saves it: a portal, with no
/// domain, bridge outbound or target.
pub open spec fn portal_form(r: ReverseProxyDraft, q: ReverseProxyDraft) -> bool {
    &&& q.enabled == r.enabled
    &&& q.tag == r.tag
    &&& q.portal_inbound_tag == r.portal_inbound_tag
    &&& q.mode@ == "portal"@
    &&& q.domain@.len() == 0
    &&& q.bridge_outbound_tag@.len() == 0
    &&& q.target_outbound_tag@.len() == 0
}

/// `p` is `m` with reverse proxy `q` in place `index`, or added when there is
/// no such place.
pub open spec fn with_reverse_proxy_saved(
    m: NodeConfigDraftView,
    p: NodeConfigDraftView,
    index: int,
    q: ReverseProxyDraft,
) -> bool {
    p == NodeConfigDraftView {
        reverse_proxies: if index < m.reverse_proxies.len() {
            m.reverse_proxies.update(index, q)
        } else {
            m.reverse_proxies.push(q)
        },
        ..m
    }
}

/// Saves a reverse proxy from the editor in place `index`, or adds it, as a
/// portal (see `portal_form`); the draft is synced before and after.
pub fn save_reverse_proxy(draft: &mut NodeConfigDraft, index: usize, reverse_proxy: ReverseProxyDraft)
    ensures
        exists|mid: NodeConfigDraftView, pre: NodeConfigDraftView, q: ReverseProxyDraft|
            synced(old(draft)@, mid) && portal_form(reverse_proxy, q)
                && #[trigger] with_reverse_proxy_saved(mid, pre, index as int, q) && synced(
                pre,
                final(draft)@,
            ),
{
    let ghost r = reverse_proxy;
    let ghost start = draft@;
    sync_draft(draft);
    let ghost mid = draft@;
    let mut q = reverse_proxy;
    q.mode = copy_str("portal");
    q.domain = String::new();
    q.bridge_outbound_tag = String::new();
    q.target_outbound_tag = String::new();
    let ghost qv = q;
    if index < draft.reverse_proxies.len() {
        draft.reverse_proxies.set(index, q);
    } else {
        draft.reverse_proxies.push(q);
    }
    let ghost pre = draft@;
    assert(with_reverse_proxy_saved(mid, pre, index as int, qv));
    sync_draft(draft);
    assert(synced(start, mid) && portal_form(r, qv) && with_reverse_proxy_saved(
        mid,
        pre,
        index as int,
        qv,
    ) && synced(pre, draft@));
}

/// `p` is `m` without the reverse proxy in place `index` (unchanged when
/// there is no such place).
pub open spec fn with_reverse_proxy_deleted(m: NodeConfigDraftView, p: NodeConfigDraftView, index: int) -> bool {
    p == NodeConfigDraftView {
        reverse_proxies: if index < m.reverse_proxies.len() {
            m.reverse_proxies.remove(index)
        } else {
            m.reverse_proxies
        },
        ..m
    }
}

/// Deletes the reverse proxy in place `index`, when there is one; the draft
/// is synced before and after.
pub fn delete_reverse_proxy(draft: &mut NodeConfigDraft, index: usize)
    ensures
        exists|mid: NodeConfigDraftView, pre: NodeConfigDraftView|
            synced(old(draft)@, mid) && #[trigger] with_reverse_proxy_deleted(mid, pre, index as int)
                && synced(pre, final(draft)@),
{
    let ghost start = draft@;
    sync_draft(draft);
    let ghost mid = draft@;
    if index < draft.reverse_proxies.len() {
        draft.reverse_proxies.remove(index);
    }
    let ghost pre = draft@;
    assert(with_reverse_proxy_deleted(mid, pre, index as int));
    sync_draft(draft);
    assert(synced(start, mid) && with_reverse_proxy_deleted(mid, pre, index as int) && synced(
        pre,
        draft@,
    ));
}

/// The tag the editor proposes for a copy of a reverse proxy: its trimmed
/// tag followed by `-copy`, or `reverse-copy`.
pub fn duplicate_reverse_proxy_tag(reverse_proxy: &ReverseProxyDraft) -> (r: String)
    ensures
        r@ == if trimmed(reverse_proxy.tag@).len() == 0 {
            "reverse-copy"@
        } else {
            trimmed(reverse_proxy.tag@) + "-copy"@
        },
{
    let t = trim(reverse_proxy.tag.as_str());
    if t.as_str().unicode_len() == 0 {
        copy_str("reverse-copy")
    } else {
        let mut out = t;
        out.append("-copy");
        out
    }
}

/// `p` is `m` with a copy of `r` tagged `tag` added at the end.
pub open spec fn with_reverse_proxy_copied(
    m: NodeConfigDraftView,
    p: NodeConfigDraftView,
    r: ReverseProxyDraft,
    tag: String,
) -> bool {
    p == NodeConfigDraftView {
        reverse_proxies: m.reverse_proxies.push(ReverseProxyDraft { tag, ..r }),
        ..m
    }
}

/// Adds a copy of a reverse proxy under a new tag; the draft is synced
/// before and after.
pub fn duplicate_reverse_proxy(draft: &mut NodeConfigDraft, reverse_proxy: &ReverseProxyDraft, tag: String)
    ensures
        exists|mid: NodeConfigDraftView, pre: NodeConfigDraftView|
            synced(old(draft)@, mid) && #[trigger] with_reverse_proxy_copied(mid, pre, *reverse_proxy, tag)
                && synced(pre, final(draft)@),
{
    let ghost t = tag;
    let ghost start = draft@;
    sync_draft(draft);
    let ghost mid = draft@;
    let mut copy = reverse_proxy.duplicate();
    copy.tag = tag;
    draft.reverse_proxies.push(copy);
    let ghost pre = draft@;
    assert(with_reverse_proxy_copied(mid, pre, *reverse_proxy, t));
    sync_draft(draft);
    assert(synced(start, mid) && with_reverse_proxy_copied(mid, pre, *reverse_proxy, t) && synced(
        pre,
        draft@,
    ));
}

/// `p` is `m` with a copy of inbound `x` added at the end under a fresh id
/// and the name `name`.
pub open spec fn with_inbound_copied(
    m: NodeConfigDraftView,
    p: NodeConfigDraftView,
    x: InboundEntryDraftView,
    name: String,
) -> bool {
    &&& p.inbounds.len() == m.inbounds.len() + 1
    &&& p.inbounds.drop_last() == m.inbounds
    &&& is_uuid_text(p.inbounds.last().id@)
    &&& p.inbounds.last() == InboundEntryDraftView { id: p.inbounds.last().id, name, ..x }
    &&& p == NodeConfigDraftView { inbounds: p.inbounds, ..m }
}

/// Adds a copy of an inbound under a fresh id and a new name; the draft is
/// synced before and after.
pub fn duplicate_inbound(draft: &mut NodeConfigDraft, inbound: &InboundEntryDraft, name: String)
    ensures
        exists|mid: NodeConfigDraftView, pre: NodeConfigDraftView|
            synced(old(draft)@, mid) && #[trigger] with_inbound_copied(mid, pre, inbound@, name)
                && synced(pre, final(draft)@),
{
    let ghost nm = name;
    let ghost start = draft@;
    sync_draft(draft);
    let ghost mid = draft@;
    let mut copy = inbound.duplicate();
    copy.id = new_entry_id();
    copy.name = name;
    draft.inbounds.push(copy);
    let ghost pre = draft@;
    assert(pre.inbounds.drop_last() =~= mid.inbounds);
    assert(with_inbound_copied(mid, pre, inbound@, nm));
    sync_draft(draft);
    assert(synced(start, mid) && with_inbound_copied(mid, pre, inbound@, nm) && synced(pre, draft@));
}

/// The name the editor proposes for a copy of an inbound: its display name
/// followed by ` Copy`.
pub fn duplicate_inbound_name(inbound: &InboundEntryDraft) -> (r: String)
    ensures
        r@ == name_or(inbound.name@, upper_trimmed(inbound.protocol@)) + " Copy"@,
{
    let mut out = inbound_display_name(inbound);
    out.append(" Copy");
    out
}

/// What the name prompt does when its name is confirmed: it hands on the
/// trimmed name, or shows an error when the name is blank.
pub fn name_prompt_popup(value: &str) -> (r: Result<String, String>)
    ensures
        trimmed(value@).len() > 0 ==> (r matches Ok(n) && n@ == trimmed(value@)),
        trimmed(value@).len() == 0 ==> (r matches Err(e) && e@ == "Name is required."@),
{
    let t = trim(value);
    if t.as_str().unicode_len() == 0 {
        Err(copy_str("Name is required."))
    } else {
        Ok(t)
    }
}

/// The name the editor proposes for a copy of an outbound: its trimmed name
/// followed by ` Copy`.
pub fn duplicate_outbound_name(outbound: &OutboundEntryDraft) -> (r: String)
    ensures
        r@ == trimmed(outbound.name@) + " Copy"@,
{
    let mut out = trim(outbound.name.as_str());
    out.append(" Copy");
    out
}

/// `c` is outbound `x` copied under the name `name`: the tag of the section
/// of its kind is the name as well.
pub open spec fn outbound_copy_of(c: OutboundEntryDraftView, x: OutboundEntryDraftView, name: String) -> bool {
    let k = upper_trimmed(x.outbound_type@);
    &&& c.name == name
    &&& c.outbound_type == x.outbound_type
    &&& c.enabled == x.enabled
    &&& c.builtin == x.builtin
    &&& c.vless == (if k == "VLESS"@ {
        crate::model::VlessOutboundDraft { tag: name, ..x.vless }
    } else {
        x.vless
    })
    &&& c.trust_tunnel == (if k == "TRUSTTUNNEL"@ {
        crate::model::TrustTunnelOutboundDraft { tag: name, ..x.trust_tunnel }
    } else {
        x.trust_tunnel
    })
    &&& c.wireguard == (if k == "WIREGUARD"@ {
        crate::model::WireGuardDraftView { tag: name, ..x.wireguard }
    } else {
        x.wireguard
    })
    &&& c.custom == (if k == "CUSTOM"@ {
        crate::model::CustomOutboundDraft { tag: name, ..x.custom }
    } else {
        x.custom
    })
    &&& c.socks5 == (if k == "SOCKS5"@ {
        crate::model::Socks5Draft { tag: name, ..x.socks5 }
    } else {
        x.socks5
    })
    &&& c.shadowsocks == (if k == "SHADOWSOCKS"@ {
        crate::model::ShadowsocksDraft { tag: name, ..x.shadowsocks }
    } else {
        x.shadowsocks
    })
    &&& c.trojan == (if k == "TROJAN"@ {
        crate::model::TrojanDraft { tag: name, ..x.trojan }
    } else {
        x.trojan
    })
}

/// `p` is `m` with a copy of outbound `x` (see `outbound_copy_of`) added at
/// the end under a fresh id.
pub open spec fn with_outbound_copied(
    m: NodeConfigDraftView,
    p: NodeConfigDraftView,
    x: OutboundEntryDraftView,
    name: String,
) -> bool {
    &&& p.outbounds.len() == m.outbounds.len() + 1
    &&& p.outbounds.drop_last() == m.outbounds
    &&& is_uuid_text(p.outbounds.last().id@)
    &&& outbound_copy_of(p.outbounds.last(), x, name)
    &&& p == NodeConfigDraftView { outbounds: p.outbounds, ..m }
}

fn copy_of_outbound(outbound: &OutboundEntryDraft, name: String) -> (r: OutboundEntryDraft)
    ensures
        outbound_copy_of(r@, outbound@, name),
        is_uuid_text(r.id@),
{
    proof {
        reveal_strlit("VLESS");
        reveal_strlit("TRUSTTUNNEL");
        reveal_strlit("WIREGUARD");
        reveal_strlit("CUSTOM");
        reveal_strlit("SOCKS5");
        reveal_strlit("SHADOWSOCKS");
        reveal_strlit("TROJAN");
        assert("VLESS"@.len() == 5 && "TROJAN"@.len() == 6 && "SOCKS5"@.len() == 6);
        assert("TRUSTTUNNEL"@.len() == 11 && "WIREGUARD"@.len() == 9 && "CUSTOM"@.len() == 6);
        assert("SHADOWSOCKS"@.len() == 11);
        assert("TROJAN"@[0] != "SOCKS5"@[0] && "TROJAN"@[0] != "CUSTOM"@[0]);
        assert("SOCKS5"@[0] != "CUSTOM"@[0]);
        assert("TRUSTTUNNEL"@[0] != "SHADOWSOCKS"@[0]);
    }
    let mut c = outbound.duplicate();
    c.id = new_entry_id();
    let kind = trim_upper(outbound.outbound_type.as_str());
    let k = kind.as_str();
    c.name = name.clone();
    if eq_str(k, "VLESS") {
        c.vless.tag = name;
    } else if eq_str(k, "TRUSTTUNNEL") {
        c.trust_tunnel.tag = name;
    } else if eq_str(k, "WIREGUARD") {
        c.wireguard.tag = name;
    } else if eq_str(k, "CUSTOM") {
        c.custom.tag = name;
    } else if eq_str(k, "SOCKS5") {
        c.socks5.tag = name;
    } else if eq_str(k, "SHADOWSOCKS") {
        c.shadowsocks.tag = name;
    } else if eq_str(k, "TROJAN") {
        c.trojan.tag = name;
    }
    c
}

/// Adds a copy of an outbound under a fresh id and a new name, which is
/// also the tag of the section of its kind; the draft is synced before and
/// after.
pub fn duplicate_outbound(draft: &mut NodeConfigDraft, outbound: &OutboundEntryDraft, name: String)
    ensures
        exists|mid: NodeConfigDraftView, pre: NodeConfigDraftView|
            synced(old(draft)@, mid) && #[trigger] with_outbound_copied(mid, pre, outbound@, name)
                && synced(pre, final(draft)@),
{
    let ghost nm = name;
    let ghost start = draft@;
    sync_draft(draft);
    let ghost mid = draft@;
    let copy = copy_of_outbound(outbound, name);
    draft.outbounds.push(copy);
    let ghost pre = draft@;
    assert(pre.outbounds.drop_last() =~= mid.outbounds);
    assert(with_outbound_copied(mid, pre, outbound@, nm));
    sync_draft(draft);
    assert(synced(start, mid) && with_outbound_copied(mid, pre, outbound@, nm) && synced(pre, draft@));
}

/// `p` is `m` with outbound `x` added at the end.
pub open spec fn with_outbound_added(m: NodeConfigDraftView, p: NodeConfigDraftView, x: OutboundEntryDraftView) -> bool {
    p == NodeConfigDraftView { outbounds: m.outbounds.push(x), ..m }
}

/// Adds an outbound (such as the one made from a WARP account); the draft
/// is synced before and after.
pub fn add_outbound(draft: &mut NodeConfigDraft, outbound: OutboundEntryDraft)
    ensures
        exists|mid: NodeConfigDraftView, pre: NodeConfigDraftView|
            synced(old(draft)@, mid) && #[trigger] with_outbound_added(mid, pre, outbound@)
                && synced(pre, final(draft)@),
{
    let ghost x = outbound@;
    let ghost start = draft@;
    sync_draft(draft);
    let ghost mid = draft@;
    draft.outbounds.push(outbound);
    let ghost pre = draft@;
    assert(pre.outbounds =~= mid.outbounds.push(x));
    assert(with_outbound_added(mid, pre, x));
    sync_draft(draft);
    assert(synced(start, mid) && with_outbound_added(mid, pre, x) && synced(pre, draft@));
}


/// `i` is the first place in `cs` of a certificate with the id `id`.
pub open spec fn first_certificate_with_id(cs: Seq<CertificateDraft>, id: Seq<char>, i: int) -> bool {
    &&& 0 <= i < cs.len()
    &&& cs[i].id@ == id
    &&& forall|k: int| 0 <= k < i ==> (#[trigger] cs[k]).id@ != id
}

/// The inbounds with every TLS reference to the certificate name `from`
/// made to `to`.
pub open spec fn references_renamed(s: Seq<InboundEntryDraftView>, from: Seq<char>, to: String) -> Seq<
    InboundEntryDraftView,
> {
    Seq::new(
        s.len(),
        |k: int|
            if s[k].tls.certificate_name@ == from {
                InboundEntryDraftView {
                    tls: crate::model::TlsDraft { certificate_name: to, ..s[k].tls },
                    ..s[k]
                }
            } else {
                s[k]
            },
    )
}

/// The inbounds with every blank TLS reference made to `to`.
pub open spec fn references_filled(s: Seq<InboundEntryDraftView>, to: String) -> Seq<InboundEntryDraftView> {
    Seq::new(
        s.len(),
        |k: int|
            if trimmed(s[k].tls.certificate_name@).len() == 0 {
                InboundEntryDraftView {
                    tls: crate::model::TlsDraft { certificate_name: to, ..s[k].tls },
                    ..s[k]
                }
            } else {
                s[k]
            },
    )
}

/// `p` is `m` with certificate `c` saved: in the place of the certificate
/// with its id, the inbounds that used that certificate's old name then
/// using the new one; or added at the end, the inbounds without a
/// certificate then using it.
pub open spec fn with_certificate_saved(m: NodeConfigDraftView, p: NodeConfigDraftView, c: CertificateDraft) -> bool {
    if exists|i: int| first_certificate_with_id(m.certificates, c.id@, i) {
        let i = choose|i: int| first_certificate_with_id(m.certificates, c.id@, i);
        let previous = m.certificates[i].name@;
        p == NodeConfigDraftView {
            certificates: m.certificates.update(i, c),
            inbounds: if previous != c.name@ {
                references_renamed(m.inbounds, previous, c.name)
            } else {
                m.inbounds
            },
            ..m
        }
    } else {
        p == NodeConfigDraftView {
            certificates: m.certificates.push(c),
            inbounds: references_filled(m.inbounds, c.name),
            ..m
        }
    }
}

pub(crate) fn find_certificate(v: &Vec<CertificateDraft>, id: &str) -> (r: Option<usize>)
    ensures
        match r {
            Some(i) => first_certificate_with_id(v@, id@, i as int),
            None => !exists|i: int| first_certificate_with_id(v@, id@, i),
        },
{
    let mut i: usize = 0;
    while i < v.len()
        invariant
            i <= v@.len(),
            forall|k: int| 0 <= k < i ==> (#[trigger] v@[k]).id@ != id@,
        decreases v@.len() - i,
    {
        if eq_str(v[i].id.as_str(), id) {
            return Some(i);
        }
        i = i + 1;
    }
    proof {
        if exists|j: int| first_certificate_with_id(v@, id@, j) {
            let j = choose|j: int| first_certificate_with_id(v@, id@, j);
            assert(v@[j].id@ == id@);
        }
    }
    None
}

fn rename_references(v: &mut Vec<InboundEntryDraft>, from: &str, to: &String, blanks: bool)
    ensures
        blanks ==> inbound_list_view(final(v)@) == references_filled(inbound_list_view(old(v)@), *to),
        !blanks ==> inbound_list_view(final(v)@) == references_renamed(
            inbound_list_view(old(v)@),
            from@,
            *to,
        ),
{
    let ghost s = inbound_list_view(v@);
    let ghost goal = if blanks {
        references_filled(s, *to)
    } else {
        references_renamed(s, from@, *to)
    };
    let mut i: usize = 0;
    while i < v.len()
        invariant
            s.len() == v@.len(),
            goal.len() == s.len(),
            goal == (if blanks {
                references_filled(s, *to)
            } else {
                references_renamed(s, from@, *to)
            }),
            i <= v@.len(),
            forall|k: int| 0 <= k < i ==> (#[trigger] v@[k])@ == goal[k],
            forall|k: int| i <= k < v@.len() ==> (#[trigger] v@[k])@ == s[k],
        decreases v@.len() - i,
    {
        let hit = if blanks {
            is_blank(v[i].tls.certificate_name.as_str())
        } else {
            eq_str(v[i].tls.certificate_name.as_str(), from)
        };
        if hit {
            let mut item = v[i].duplicate();
            item.tls.certificate_name = to.clone();
            v.set(i, item);
        }
        i = i + 1;
    }
    assert(inbound_list_view(v@) =~= goal);
}

/// Saves a certificate from the editor (see `with_certificate_saved`); the
/// draft is synced before.
pub fn save_certificate(draft: &mut NodeConfigDraft, certificate: CertificateDraft)
    ensures
        exists|mid: NodeConfigDraftView|
            synced(old(draft)@, mid) && #[trigger] with_certificate_saved(mid, final(draft)@, certificate),
{
    let ghost c = certificate;
    let ghost start = draft@;
    sync_draft(draft);
    let ghost mid = draft@;
    assert(inbound_list_view(draft.inbounds@) =~= mid.inbounds);
    match find_certificate(&draft.certificates, certificate.id.as_str()) {
        Some(i) => {
            proof {
                assert forall|j: int| first_certificate_with_id(mid.certificates, c.id@, j) implies j
                    == i by {
                    if j < i {
                        assert(mid.certificates[j].id@ == c.id@);
                    } else if i < j {
                        assert(mid.certificates[i as int].id@ == c.id@);
                    }
                }
                assert(first_certificate_with_id(mid.certificates, c.id@, i as int));
                let w = choose|j: int| first_certificate_with_id(mid.certificates, c.id@, j);
                assert(w == i);
            }
            let previous = draft.certificates[i].name.clone();
            let name = certificate.name.clone();
            draft.certificates.set(i, certificate);
            if !eq_str(previous.as_str(), name.as_str()) {
                rename_references(&mut draft.inbounds, previous.as_str(), &name, false);
            }
        },
        None => {
            let name = certificate.name.clone();
            draft.certificates.push(certificate);
            rename_references(&mut draft.inbounds, "", &name, true);
        },
    }
    assert(with_certificate_saved(mid, draft@, c));
    assert(synced(start, mid) && with_certificate_saved(mid, draft@, c));
}

/// After a certificate is saved under a new name, no inbound refers to its
/// old name.
pub proof fn law_certificate_rename_moves_references(
    m: NodeConfigDraftView,
    p: NodeConfigDraftView,
    c: CertificateDraft,
    i: int,
)
    requires
        with_certificate_saved(m, p, c),
        first_certificate_with_id(m.certificates, c.id@, i),
        m.certificates[i].name@ != c.name@,
    ensures
        forall|k: int|
            0 <= k < p.inbounds.len() ==> (#[trigger] p.inbounds[k]).tls.certificate_name@
                != m.certificates[i].name@,
        p.inbounds.len() == m.inbounds.len(),
{
    assert forall|j: int| first_certificate_with_id(m.certificates, c.id@, j) implies j == i by {
        if j < i {
            assert(m.certificates[j].id@ == c.id@);
        } else if i < j {
            assert(m.certificates[i].id@ == c.id@);
        }
    }
}

/// `p` is `m` with DNS server `x` in place `index`, or added when there is no
/// such place.
pub open spec fn with_dns_server_saved(m: NodeConfigDraftView, p: NodeConfigDraftView, index: int, x: DnsServerDraft) -> bool {
    p == NodeConfigDraftView {
        dns: crate::model::DnsDraftView {
            servers: if index < m.dns.servers.len() {
                m.dns.servers.update(index, x)
            } else {
                m.dns.servers.push(x)
            },
            ..m.dns
        },
        ..m
    }
}

/// `p` is `m` with DNS host `x` in place `index`, or added when there is no
/// such place.
pub open spec fn with_dns_host_saved(m: NodeConfigDraftView, p: NodeConfigDraftView, index: int, x: DnsHostDraft) -> bool {
    p == NodeConfigDraftView {
        dns: crate::model::DnsDraftView {
            hosts: if index < m.dns.hosts.len() {
                m.dns.hosts.update(index, x)
            } else {
                m.dns.hosts.push(x)
            },
            ..m.dns
        },
        ..m
    }
}

/// Saves a DNS server from the editor in place `index`, or adds it; the
/// draft is synced before.
pub fn save_dns_server(draft: &mut NodeConfigDraft, index: usize, server: DnsServerDraft)
    ensures
        exists|mid: NodeConfigDraftView|
            synced(old(draft)@, mid) && #[trigger] with_dns_server_saved(mid, final(draft)@, index as int, server),
{
    let ghost x = server;
    let ghost start = draft@;
    sync_draft(draft);
    let ghost mid = draft@;
    if index < draft.dns.servers.len() {
        draft.dns.servers.set(index, server);
    } else {
        draft.dns.servers.push(server);
    }
    assert(with_dns_server_saved(mid, draft@, index as int, x));
    assert(synced(start, mid) && with_dns_server_saved(mid, draft@, index as int, x));
}

/// Saves a DNS host entry from the editor in place `index`, or adds it; the
/// draft is synced before.
pub fn save_dns_host(draft: &mut NodeConfigDraft, index: usize, host: DnsHostDraft)
    ensures
        exists|mid: NodeConfigDraftView|
            synced(old(draft)@, mid) && #[trigger] with_dns_host_saved(mid, final(draft)@, index as int, host),
{
    let ghost x = host;
    let ghost start = draft@;
    sync_draft(draft);
    let ghost mid = draft@;
    if index < draft.dns.hosts.len() {
        draft.dns.hosts.set(index, host);
    } else {
        draft.dns.hosts.push(host);
    }
    assert(with_dns_host_saved(mid, draft@, index as int, x));
    assert(synced(start, mid) && with_dns_host_saved(mid, draft@, index as int, x));
}


/// `t` is how the settings write registration `reg`: its written-out form
/// (see `warp_registration_to_draft`), or empty settings when there is none.
pub open spec fn registration_settings(t: WarpRegistrationDraft, reg: Option<WarpRegistration>) -> bool {
    match reg {
        Some(r) => {
            &&& t.id == r.id
            &&& t.token == r.token
            &&& t.private_key == r.private_key
            &&& t.public_key == r.public_key
            &&& t.peer_public_key == r.peer_public_key
            &&& t.license == r.license
            &&& t.reserved@ == bytes_text(r.reserved@)
            &&& t.addresses@ == join_with(texts(r.addresses@), ", "@)
            &&& t.endpoint == r.endpoint
        },
        None => t.is_default(),
    }
}

/// Two WARP settings hold the same texts.
pub open spec fn same_settings(a: WarpRegistrationDraft, b: WarpRegistrationDraft) -> bool {
    &&& a.id@ == b.id@
    &&& a.token@ == b.token@
    &&& a.private_key@ == b.private_key@
    &&& a.public_key@ == b.public_key@
    &&& a.peer_public_key@ == b.peer_public_key@
    &&& a.license@ == b.license@
    &&& a.reserved@ == b.reserved@
    &&& a.addresses@ == b.addresses@
    &&& a.endpoint@ == b.endpoint@
}

fn same_settings_exec(a: &WarpRegistrationDraft, b: &WarpRegistrationDraft) -> (r: bool)
    ensures
        r == same_settings(*a, *b),
{
    eq_str(a.id.as_str(), b.id.as_str()) && eq_str(a.token.as_str(), b.token.as_str()) && eq_str(
        a.private_key.as_str(),
        b.private_key.as_str(),
    ) && eq_str(a.public_key.as_str(), b.public_key.as_str()) && eq_str(
        a.peer_public_key.as_str(),
        b.peer_public_key.as_str(),
    ) && eq_str(a.license.as_str(), b.license.as_str()) && eq_str(
        a.reserved.as_str(),
        b.reserved.as_str(),
    ) && eq_str(a.addresses.as_str(), b.addresses.as_str()) && eq_str(
        a.endpoint.as_str(),
        b.endpoint.as_str(),
    )
}

/// `p` is `m` with the WARP settings `t`.
pub open spec fn with_settings(m: NodeConfigDraftView, p: NodeConfigDraftView, t: WarpRegistrationDraft) -> bool {
    p == NodeConfigDraftView { warp_registration: t, ..m }
}

/// Takes a WARP registration (or its removal) from the WARP dialog: when the
/// settings it gives differ from the draft's, the synced draft gets them and
/// is synced again, and `true` comes back; otherwise the draft stays as it
/// is.
pub fn set_warp_registration(draft: &mut NodeConfigDraft, registration: Option<WarpRegistration>) -> (changed: bool)
    ensures
        exists|t: WarpRegistrationDraft|
            #[trigger] registration_settings(t, registration) && if same_settings(
                old(draft)@.warp_registration,
                t,
            ) {
                !changed && final(draft)@ == old(draft)@
            } else {
                changed && exists|mid: NodeConfigDraftView, pre: NodeConfigDraftView|
                    synced(old(draft)@, mid) && #[trigger] with_settings(mid, pre, t) && synced(
                        pre,
                        final(draft)@,
                    )
            },
{
    let ghost start = draft@;
    let mut next = draft.duplicate();
    sync_draft(&mut next);
    let ghost mid = next@;
    let target = match &registration {
        Some(r) => warp_registration_to_draft(r),
        None => WarpRegistrationDraft::default(),
    };
    let ghost t = target;
    assert(registration_settings(t, registration));
    if same_settings_exec(&next.warp_registration, &target) {
        return false;
    }
    next.warp_registration = target;
    let ghost pre = next@;
    sync_draft(&mut next);
    *draft = next;
    assert(synced(start, mid) && with_settings(mid, pre, t) && synced(pre, draft@));
    true
}

} // verus!
