//! Access groups: which accounts an inbound serves.

use vstd::prelude::*;
use vstd::string::*;
use crate::model::InboundEntryDraft;
use crate::text::{copy_str, join, join_with, lemma_trimmed_idempotent, texts, trim, trimmed};

verus! {

/// A group list as it is kept: every name trimmed, empty names dropped, and
/// each name only at its first place.
pub open spec fn normalized_group_list(gs: Seq<Seq<char>>) -> Seq<Seq<char>>
    decreases gs.len(),
{
    if gs.len() == 0 {
        Seq::empty()
    } else {
        let p = normalized_group_list(gs.drop_last());
        let t = trimmed(gs.last());
        if t.len() == 0 || p.contains(t) {
            p
        } else {
            p.push(t)
        }
    }
}

pub proof fn lemma_contains_push<A>(s: Seq<A>, x: A, t: A)
    ensures
        s.push(x).contains(t) == (s.contains(t) || x == t),
{
    if x == t {
        assert(s.push(x)[s.len() as int] == t);
    }
    if s.contains(t) {
        let j = choose|j: int| 0 <= j < s.len() && s[j] == t;
        assert(s.push(x)[j] == t);
    }
    if s.push(x).contains(t) {
        let j = choose|j: int| 0 <= j < s.push(x).len() && s.push(x)[j] == t;
        if j < s.len() {
            assert(s[j] == t);
        }
    }
}

/// A normalised group list has no blank name, no name with white space
/// around it, and no name twice.
pub proof fn law_normalized_groups_clean(gs: Seq<Seq<char>>)
    ensures
        forall|k: int|
            0 <= k < normalized_group_list(gs).len() ==> (#[trigger] normalized_group_list(gs)[k]).len()
                > 0 && trimmed(normalized_group_list(gs)[k]) == normalized_group_list(gs)[k],
        forall|i: int, j: int|
            0 <= i < j < normalized_group_list(gs).len() ==> #[trigger] normalized_group_list(gs)[i]
                != #[trigger] normalized_group_list(gs)[j],
    decreases gs.len(),
{
    if gs.len() > 0 {
        let p = normalized_group_list(gs.drop_last());
        let t = trimmed(gs.last());
        law_normalized_groups_clean(gs.drop_last());
        lemma_trimmed_idempotent(gs.last());
        let r = normalized_group_list(gs);
        if !(t.len() == 0 || p.contains(t)) {
            assert(r == p.push(t));
            assert forall|i: int, j: int| 0 <= i < j < r.len() implies #[trigger] r[i] != #[trigger] r[j] by {
                if j == r.len() - 1 {
                    assert(r[i] == p[i]);
                    if r[i] == r[j] {
                        assert(p.contains(t));
                    }
                } else {
                    assert(r[i] == p[i]);
                    assert(r[j] == p[j]);
                }
            }
            assert forall|k: int| 0 <= k < r.len() implies (#[trigger] r[k]).len() > 0 && trimmed(r[k]) == r[k] by {
                if k < p.len() {
                    assert(r[k] == p[k]);
                }
            }
        }
    }
}

proof fn lemma_clean_list_fixed(r: Seq<Seq<char>>)
    requires
        forall|k: int| 0 <= k < r.len() ==> (#[trigger] r[k]).len() > 0 && trimmed(r[k]) == r[k],
        forall|i: int, j: int| 0 <= i < j < r.len() ==> #[trigger] r[i] != #[trigger] r[j],
    ensures
        normalized_group_list(r) == r,
    decreases r.len(),
{
    if r.len() > 0 {
        let q = r.drop_last();
        assert forall|k: int| 0 <= k < q.len() implies (#[trigger] q[k]).len() > 0 && trimmed(q[k]) == q[k] by {
            assert(q[k] == r[k]);
        }
        assert forall|i: int, j: int| 0 <= i < j < q.len() implies #[trigger] q[i] != #[trigger] q[j] by {
            assert(q[i] == r[i]);
            assert(q[j] == r[j]);
        }
        lemma_clean_list_fixed(q);
        let t = r.last();
        assert(trimmed(t) == t);
        assert(t == r[r.len() - 1]);
        if q.contains(t) {
            let i = choose|i: int| 0 <= i < q.len() && q[i] == t;
            assert(r[i] == q[i]);
        }
        assert(q.push(t) =~= r);
    }
}

/// Normalising a normalised group list changes nothing.
pub proof fn law_normalize_groups_idempotent(gs: Seq<Seq<char>>)
    ensures
        normalized_group_list(normalized_group_list(gs)) == normalized_group_list(gs),
{
    law_normalized_groups_clean(gs);
    lemma_clean_list_fixed(normalized_group_list(gs));
}

/// Normalises a group list: trims the names, drops the empty ones and the
/// repeated ones, keeping the first place of each name.
pub fn normalize_groups(groups: &Vec<String>) -> (r: Vec<String>)
    ensures
        texts(r@) == normalized_group_list(texts(groups@)),
{
    let ghost gs = texts(groups@);
    let mut out: Vec<String> = Vec::new();
    let mut i: usize = 0;
    while i < groups.len()
        invariant
            gs == texts(groups@),
            i <= groups@.len(),
            texts(out@) == normalized_group_list(gs.take(i as int)),
        decreases groups@.len() - i,
    {
        let t = trim(groups[i].as_str());
        proof {
            assert(gs.take(i + 1).drop_last() =~= gs.take(i as int));
            assert(gs.take(i + 1).last() == groups@[i as int]@);
        }
        if t.as_str().unicode_len() > 0 {
            let mut seen = false;
            let mut k: usize = 0;
            while k < out.len()
                invariant
                    k <= out@.len(),
                    seen == texts(out@).take(k as int).contains(t@),
                decreases out@.len() - k,
            {
                proof {
                    assert(texts(out@).take(k + 1) =~= texts(out@).take(k as int).push(out@[k as int]@));
                    lemma_contains_push(texts(out@).take(k as int), out@[k as int]@, t@);
                }
                if !seen && crate::text::eq_str(out[k].as_str(), t.as_str()) {
                    seen = true;
                }
                k = k + 1;
            }
            assert(texts(out@).take(out@.len() as int) =~= texts(out@));
            if !seen {
                let ghost before = out@;
                out.push(t);
                assert(texts(out@) =~= texts(before).push(trimmed(groups@[i as int]@)));
            }
        }
        i = i + 1;
    }
    assert(gs.take(groups@.len() as int) =~= gs);
    out
}

/// What the inbound list says about an inbound's groups.
pub fn inbound_groups_label(inbound: &InboundEntryDraft) -> (r: String)
    ensures
        normalized_group_list(texts(inbound.groups@)).len() == 0 ==> r@ == "Inherits node groups"@,
        normalized_group_list(texts(inbound.groups@)).len() > 0 ==> r@ == join_with(
            normalized_group_list(texts(inbound.groups@)),
            ", "@,
        ),
{
    let groups = normalize_groups(&inbound.groups);
    if groups.len() == 0 {
        copy_str("Inherits node groups")
    } else {
        join(&groups, ", ")
    }
}

} // verus!
