//! What the editor's edits promise across a save or a delete and the syncs
//! around it: a saved inbound is found under its id, a deleted one is gone.

use vstd::prelude::*;
use crate::editing::{
    first_inbound_with_id, inbound_saved, inbounds_without, with_inbound_deleted,
    with_inbound_saved,
};
use crate::model::{InboundEntryDraftView, NodeConfigDraftView};
use crate::sync::{inbound_canonical, inbound_fixed, is_reverse_inbound, kept_inbounds, lemma_sync_canonical, synced};
use crate::sync_laws::lemma_all_kept;
use crate::text::trimmed;

verus! {

proof fn lemma_without_keeps_others(s: Seq<InboundEntryDraftView>, id: Seq<char>)
    ensures
        forall|k: int|
            0 <= k < inbounds_without(s, id).len() ==> (#[trigger] inbounds_without(s, id)[k]).id@ != id
                && s.contains(inbounds_without(s, id)[k]),
    decreases s.len(),
{
    if s.len() > 0 {
        let q = s.drop_last();
        lemma_without_keeps_others(q, id);
        let p = inbounds_without(q, id);
        assert forall|k: int| 0 <= k < inbounds_without(s, id).len() implies (
        #[trigger] inbounds_without(s, id)[k]).id@ != id && s.contains(inbounds_without(s, id)[k]) by {
            let r = inbounds_without(s, id);
            if k < p.len() {
                assert(r[k] == p[k]);
                let j = choose|j: int| 0 <= j < q.len() && q[j] == p[k];
                assert(s[j] == q[j]);
            } else {
                assert(r[k] == s.last());
                assert(s[s.len() - 1] == s.last());
            }
        }
    }
}

/// Once an inbound is deleted by id, and the draft synced around the
/// deletion, no inbound of the draft has that id.
pub proof fn law_deleted_inbound_is_gone(
    o: NodeConfigDraftView,
    m: NodeConfigDraftView,
    p: NodeConfigDraftView,
    f: NodeConfigDraftView,
    id: Seq<char>,
)
    requires
        synced(o, m),
        with_inbound_deleted(m, p, id),
        synced(p, f),
    ensures
        forall|k: int| 0 <= k < f.inbounds.len() ==> (#[trigger] f.inbounds[k]).id@ != id,
{
    lemma_sync_canonical(o, m);
    lemma_without_keeps_others(m.inbounds, id);
    assert forall|k: int| 0 <= k < p.inbounds.len() implies !is_reverse_inbound(#[trigger] p.inbounds[k])
        && trimmed(p.inbounds[k].id@).len() > 0 by {
        let j = choose|j: int| 0 <= j < m.inbounds.len() && m.inbounds[j] == p.inbounds[k];
        assert(inbound_canonical(m.inbounds[j]));
    }
    lemma_all_kept(p.inbounds);
    assert forall|k: int| 0 <= k < f.inbounds.len() implies (#[trigger] f.inbounds[k]).id@ != id by {
        assert(inbound_fixed(kept_inbounds(p.inbounds)[k], f.inbounds[k], k as nat, p.certificates));
        assert(p.inbounds[k].id@ != id);
    }
}

/// Once an inbound with an id is saved, and the draft synced around the
/// save, the draft has an inbound with that id: the saved one, put in
/// canonical form. An inbound saved with the reverse-proxy protocol
/// becomes a reverse proxy instead.
pub proof fn law_saved_inbound_is_kept(
    o: NodeConfigDraftView,
    m: NodeConfigDraftView,
    p: NodeConfigDraftView,
    f: NodeConfigDraftView,
    x: InboundEntryDraftView,
)
    requires
        synced(o, m),
        with_inbound_saved(m, p, x),
        synced(p, f),
        trimmed(x.id@).len() > 0,
        !is_reverse_inbound(x),
    ensures
        exists|k: int|
            0 <= k < f.inbounds.len() && (#[trigger] f.inbounds[k]).id == x.id && inbound_fixed(
                x,
                f.inbounds[k],
                k as nat,
                p.certificates,
            ),
{
    lemma_sync_canonical(o, m);
    let j = if exists|i: int| first_inbound_with_id(m.inbounds, x.id@, i) {
        choose|i: int| first_inbound_with_id(m.inbounds, x.id@, i)
    } else {
        m.inbounds.len() as int
    };
    assert(p.inbounds == inbound_saved(m.inbounds, x));
    assert(p.inbounds[j] == x);
    assert forall|k: int| 0 <= k < p.inbounds.len() implies !is_reverse_inbound(#[trigger] p.inbounds[k]) by {
        if k != j {
            assert(p.inbounds[k] == m.inbounds[k]);
            assert(inbound_canonical(m.inbounds[k]));
        }
    }
    lemma_all_kept(p.inbounds);
    assert(inbound_fixed(kept_inbounds(p.inbounds)[j], f.inbounds[j], j as nat, p.certificates));
    assert(f.inbounds[j].id == x.id);
}

} // verus!
