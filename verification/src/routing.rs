//! The menus of the routing-rule editor: outbounds to send traffic to,
//! inbounds and users to match on.

use vstd::prelude::*;
use vstd::string::*;
use crate::display::{name_or, reverse_proxy_display_name};
use crate::model::{AccountInfo, DropdownOption, NodeConfigDraft, OutboundEntryDraft, ReverseProxyDraft};
use crate::order::{lemma_lex_asymmetric, lemma_lex_irreflexive, lemma_lex_total, lemma_lex_transitive, lex_less, lex_lt};
use crate::protocols::{option_pairs, routing_tag};
use crate::text::{copy_str, decimal, eq_str, is_blank, texts, trim, trimmed};

verus! {

/// Some option of the menu has the value `v`.
pub open spec fn has_value(menu: Seq<(Seq<char>, Seq<char>)>, v: Seq<char>) -> bool {
    exists|k: int| 0 <= k < menu.len() && (#[trigger] menu[k]).0 == v
}

/// The menu with one more option, unless its value is blank or taken.
pub open spec fn add_unique(menu: Seq<(Seq<char>, Seq<char>)>, option: (Seq<char>, Seq<char>)) -> Seq<
    (Seq<char>, Seq<char>),
> {
    if trimmed(option.0).len() == 0 || has_value(menu, option.0) {
        menu
    } else {
        menu.push(option)
    }
}

/// The routing-menu option of an outbound: its tag, labelled `tag (kind)`.
pub open spec fn outbound_option(o: OutboundEntryDraft) -> (Seq<char>, Seq<char>) {
    (routing_tag(o), routing_tag(o) + " ("@ + o.outbound_type@ + ")"@)
}

/// The outbound part of the menu.
pub open spec fn outbound_menu(os: Seq<OutboundEntryDraft>) -> Seq<(Seq<char>, Seq<char>)>
    decreases os.len(),
{
    if os.len() == 0 {
        Seq::empty()
    } else {
        add_unique(outbound_menu(os.drop_last()), outbound_option(os.last()))
    }
}

/// The routing-menu option of the `index`-th reverse proxy.
pub open spec fn reverse_proxy_option(r: ReverseProxyDraft, index: nat) -> (Seq<char>, Seq<char>) {
    (
        trimmed(r.tag@),
        name_or(r.tag@, "VLESS Reverse #"@ + decimal(index + 1)) + " (VLESS Reverse)"@,
    )
}

/// The menu with the reverse proxies added after `menu`.
pub open spec fn reverse_proxy_menu(menu: Seq<(Seq<char>, Seq<char>)>, rs: Seq<ReverseProxyDraft>) -> Seq<
    (Seq<char>, Seq<char>),
>
    decreases rs.len(),
{
    if rs.len() == 0 {
        menu
    } else {
        add_unique(
            reverse_proxy_menu(menu, rs.drop_last()),
            reverse_proxy_option(rs.last(), (rs.len() - 1) as nat),
        )
    }
}

/// The outbounds a routing rule can send to: each outbound by its routing
/// tag, then each reverse proxy by its tag; blank and repeated tags left out.
pub open spec fn routing_targets(d: NodeConfigDraft) -> Seq<(Seq<char>, Seq<char>)> {
    reverse_proxy_menu(outbound_menu(d.outbounds@), d.reverse_proxies@)
}

fn menu_has_value(menu: &Vec<DropdownOption>, v: &str) -> (r: bool)
    ensures
        r == has_value(option_pairs(menu@), v@),
{
    let mut k: usize = 0;
    while k < menu.len()
        invariant
            k <= menu@.len(),
            forall|j: int| 0 <= j < k ==> menu@[j].value@ != v@,
        decreases menu@.len() - k,
    {
        if eq_str(menu[k].value.as_str(), v) {
            assert(option_pairs(menu@)[k as int].0 == v@);
            return true;
        }
        k = k + 1;
    }
    proof {
        if has_value(option_pairs(menu@), v@) {
            let j = choose|j: int|
                0 <= j < option_pairs(menu@).len() && (#[trigger] option_pairs(menu@)[j]).0 == v@;
            assert(menu@[j].value@ == v@);
        }
    }
    false
}

fn push_unique(menu: &mut Vec<DropdownOption>, value: String, label: String)
    ensures
        option_pairs(final(menu)@) == add_unique(option_pairs(old(menu)@), (value@, label@)),
{
    if is_blank(value.as_str()) || menu_has_value(menu, value.as_str()) {
        return;
    }
    let ghost before = menu@;
    menu.push(DropdownOption { value, label });
    assert(option_pairs(menu@) =~= option_pairs(before).push((value@, label@)));
}

/// The outbounds a routing rule can send to (see `routing_targets`).
pub fn routing_outbound_options(draft: &NodeConfigDraft) -> (r: Vec<DropdownOption>)
    ensures
        option_pairs(r@) == routing_targets(*draft),
{
    let mut options: Vec<DropdownOption> = Vec::new();
    let mut i: usize = 0;
    while i < draft.outbounds.len()
        invariant
            i <= draft.outbounds@.len(),
            option_pairs(options@) == outbound_menu(draft.outbounds@.take(i as int)),
        decreases draft.outbounds@.len() - i,
    {
        let o = &draft.outbounds[i];
        let tag = crate::protocols::outbound_tag_for_routing(o);
        let label = crate::protocols::outbound_label_for_routing(o);
        push_unique(&mut options, tag, label);
        proof {
            assert(draft.outbounds@.take(i + 1).drop_last() =~= draft.outbounds@.take(i as int));
            assert(draft.outbounds@.take(i + 1).last() == draft.outbounds@[i as int]);
        }
        i = i + 1;
    }
    assert(draft.outbounds@.take(draft.outbounds@.len() as int) =~= draft.outbounds@);
    let ghost base = option_pairs(options@);
    let mut j: usize = 0;
    while j < draft.reverse_proxies.len()
        invariant
            j <= draft.reverse_proxies@.len(),
            base == outbound_menu(draft.outbounds@),
            option_pairs(options@) == reverse_proxy_menu(
                base,
                draft.reverse_proxies@.take(j as int),
            ),
        decreases draft.reverse_proxies@.len() - j,
    {
        let r = &draft.reverse_proxies[j];
        let tag = trim(r.tag.as_str());
        let mut label = reverse_proxy_display_name(r, j);
        label.append(" (VLESS Reverse)");
        proof {
            assert(draft.reverse_proxies@.take(j + 1).drop_last() =~= draft.reverse_proxies@.take(
                j as int,
            ));
            assert(draft.reverse_proxies@.take(j + 1).last() == draft.reverse_proxies@[j as int]);
        }
        push_unique(&mut options, tag, label);
        j = j + 1;
    }
    assert(draft.reverse_proxies@.take(draft.reverse_proxies@.len() as int)
        =~= draft.reverse_proxies@);
    options
}

/// Strictly increasing in string order, so also without repeats.
pub open spec fn strictly_sorted(s: Seq<Seq<char>>) -> bool {
    forall|i: int, j: int| 0 <= i < j < s.len() ==> lex_lt(#[trigger] s[i], #[trigger] s[j])
}

/// Two strictly sorted lists with the same elements are the same list: a
/// sorted list without repeats is fixed by its set of elements.
pub proof fn law_strictly_sorted_unique(a: Seq<Seq<char>>, b: Seq<Seq<char>>)
    requires
        strictly_sorted(a),
        strictly_sorted(b),
        forall|x: Seq<char>| a.contains(x) <==> b.contains(x),
    ensures
        a == b,
    decreases a.len(),
{
    if a.len() == 0 {
        if b.len() > 0 {
            assert(b.contains(b[0]));
        }
        assert(a =~= b);
    } else {
        assert(a.contains(a[0]));
        let j = choose|j: int| 0 <= j < b.len() && b[j] == a[0];
        assert(b.contains(b[0]));
        let i = choose|i: int| 0 <= i < a.len() && a[i] == b[0];
        if j > 0 {
            assert(lex_lt(b[0], b[j]));
            if i > 0 {
                assert(lex_lt(a[0], a[i]));
                lemma_lex_asymmetric(a[0], b[0]);
            } else {
                lemma_lex_irreflexive(a[0]);
            }
        }
        assert(a[0] == b[0]);
        let a1 = a.drop_first();
        let b1 = b.drop_first();
        assert forall|x: int, y: int| 0 <= x < y < a1.len() implies lex_lt(#[trigger] a1[x], #[trigger] a1[y]) by {
            assert(a1[x] == a[x + 1] && a1[y] == a[y + 1]);
        }
        assert forall|x: int, y: int| 0 <= x < y < b1.len() implies lex_lt(#[trigger] b1[x], #[trigger] b1[y]) by {
            assert(b1[x] == b[x + 1] && b1[y] == b[y + 1]);
        }
        assert forall|x: Seq<char>| a1.contains(x) <==> b1.contains(x) by {
            if a1.contains(x) {
                let k = choose|k: int| 0 <= k < a1.len() && a1[k] == x;
                assert(a[k + 1] == x);
                assert(lex_lt(a[0], a[k + 1]));
                lemma_lex_irreflexive(x);
                assert(b.contains(x));
                let m = choose|m: int| 0 <= m < b.len() && b[m] == x;
                assert(m != 0);
                assert(b1[m - 1] == x);
            }
            if b1.contains(x) {
                let k = choose|k: int| 0 <= k < b1.len() && b1[k] == x;
                assert(b[k + 1] == x);
                assert(lex_lt(b[0], b[k + 1]));
                lemma_lex_irreflexive(x);
                assert(a.contains(x));
                let m = choose|m: int| 0 <= m < a.len() && a[m] == x;
                assert(m != 0);
                assert(a1[m - 1] == x);
            }
        }
        law_strictly_sorted_unique(a1, b1);
        assert(a =~= seq![a[0]] + a1);
        assert(b =~= seq![b[0]] + b1);
    }
}

/// The trimmed names of the inbounds that have one.
pub open spec fn inbound_names(d: NodeConfigDraft) -> Set<Seq<char>> {
    Set::new(
        |n: Seq<char>|
            n.len() > 0 && exists|k: int|
                0 <= k < d.inbounds@.len() && trimmed((#[trigger] d.inbounds@[k]).name@) == n,
    )
}

/// Puts `t` into its place in a strictly sorted list, unless it is there.
pub(crate) fn insert_sorted(list: &mut Vec<String>, t: String)
    requires
        strictly_sorted(texts(old(list)@)),
    ensures
        strictly_sorted(texts(final(list)@)),
        forall|x: Seq<char>|
            texts(final(list)@).contains(x) <==> (texts(old(list)@).contains(x) || x == t@),
{
    let ghost before = texts(list@);
    let mut k: usize = 0;
    while k < list.len() && lex_less(list[k].as_str(), t.as_str())
        invariant
            before == texts(list@),
            k <= list@.len(),
            forall|j: int| 0 <= j < k ==> lex_lt(#[trigger] before[j], t@),
        decreases list@.len() - k,
    {
        k = k + 1;
    }
    if k < list.len() && eq_str(list[k].as_str(), t.as_str()) {
        assert(before[k as int] == t@);
        return;
    }
    proof {
        if k < before.len() {
            lemma_lex_total(before[k as int], t@);
        }
    }
    list.insert(k, t);
    proof {
        let after = texts(list@);
        assert(after =~= before.insert(k as int, t@));
        assert forall|i: int, j: int| 0 <= i < j < after.len() implies lex_lt(
            #[trigger] after[i],
            #[trigger] after[j],
        ) by {
            if j < k {
            } else if j == k {
            } else if i < k {
                assert(after[j] == before[j - 1]);
                if j - 1 > k {
                    lemma_lex_transitive(t@, before[k as int], before[j - 1]);
                }
                lemma_lex_transitive(before[i], t@, before[j - 1]);
            } else if i == k {
                assert(after[j] == before[j - 1]);
                if j - 1 > k {
                    lemma_lex_transitive(t@, before[k as int], before[j - 1]);
                }
            } else {
                assert(after[i] == before[i - 1]);
                assert(after[j] == before[j - 1]);
            }
        }
        assert forall|x: Seq<char>| after.contains(x) <==> (before.contains(x) || x == t@) by {
            if after.contains(x) {
                let i = choose|i: int| 0 <= i < after.len() && after[i] == x;
                if i < k {
                    assert(before[i] == x);
                } else if i > k {
                    assert(before[i - 1] == x);
                }
            }
            if before.contains(x) {
                let i = choose|i: int| 0 <= i < before.len() && before[i] == x;
                if i < k {
                    assert(after[i] == x);
                } else {
                    assert(after[i + 1] == x);
                }
            }
            if x == t@ {
                assert(after[k as int] == x);
            }
        }
    }
}

/// The inbounds a routing rule can match on: the trimmed inbound names that
/// are not empty, sorted, each once.
pub fn routing_inbound_options(draft: &NodeConfigDraft) -> (r: Vec<String>)
    ensures
        strictly_sorted(texts(r@)),
        forall|x: Seq<char>| texts(r@).contains(x) <==> inbound_names(*draft).contains(x),
{
    let mut list: Vec<String> = Vec::new();
    let mut i: usize = 0;
    while i < draft.inbounds.len()
        invariant
            i <= draft.inbounds@.len(),
            strictly_sorted(texts(list@)),
            forall|x: Seq<char>|
                texts(list@).contains(x) <==> (x.len() > 0 && exists|k: int|
                    0 <= k < i && trimmed((#[trigger] draft.inbounds@[k]).name@) == x),
        decreases draft.inbounds@.len() - i,
    {
        let t = trim(draft.inbounds[i].name.as_str());
        let ghost before = texts(list@);
        if t.as_str().unicode_len() > 0 {
            insert_sorted(&mut list, t);
        }
        proof {
            assert forall|x: Seq<char>|
                texts(list@).contains(x) <==> (x.len() > 0 && exists|k: int|
                    0 <= k < i + 1 && trimmed((#[trigger] draft.inbounds@[k]).name@) == x) by {
                if x.len() > 0 && trimmed(draft.inbounds@[i as int].name@) == x {
                    assert(texts(list@).contains(x));
                }
                if texts(list@).contains(x) && !before.contains(x) {
                    assert(trimmed(draft.inbounds@[i as int].name@) == x);
                }
            }
        }
        i = i + 1;
    }
    list
}


/// The user option of an account: its trimmed id, labelled by the id, and
/// by `id (name)` when the account has a trimmed name other than its id.
pub open spec fn user_option(a: AccountInfo) -> (Seq<char>, Seq<char>) {
    let id = trimmed(a.id@);
    let name = trimmed(a.name@);
    (
        id,
        if name.len() == 0 || name == id {
            id
        } else {
            id + " ("@ + name + ")"@
        },
    )
}

/// The user options of the accounts that have an id, in account order.
pub open spec fn user_candidates(accs: Seq<AccountInfo>) -> Seq<(Seq<char>, Seq<char>)>
    decreases accs.len(),
{
    if accs.len() == 0 {
        Seq::empty()
    } else {
        user_candidates(accs.drop_last()) + if user_option(accs.last()).0.len() > 0 {
            seq![user_option(accs.last())]
        } else {
            Seq::empty()
        }
    }
}

/// The order of the user menu: by label, then by value.
pub open spec fn option_le(p: (Seq<char>, Seq<char>), q: (Seq<char>, Seq<char>)) -> bool {
    lex_lt(p.1, q.1) || (p.1 == q.1 && (lex_lt(p.0, q.0) || p.0 == q.0))
}

pub open spec fn option_order() -> spec_fn((Seq<char>, Seq<char>), (Seq<char>, Seq<char>)) -> bool {
    |p: (Seq<char>, Seq<char>), q: (Seq<char>, Seq<char>)| option_le(p, q)
}

/// `Vec::dedup_by` on values: of each run of options with the same value,
/// the first stays.
pub open spec fn dedup_values(s: Seq<(Seq<char>, Seq<char>)>) -> Seq<(Seq<char>, Seq<char>)>
    decreases s.len(),
{
    if s.len() == 0 {
        Seq::empty()
    } else {
        let p = dedup_values(s.drop_last());
        if p.len() > 0 && p.last().0 == s.last().0 {
            p
        } else {
            p.push(s.last())
        }
    }
}

/// The users a routing rule can match on: every account with an id, sorted
/// by label and then value, with repeated neighbouring values dropped.
pub open spec fn user_menu(accs: Seq<AccountInfo>) -> Seq<(Seq<char>, Seq<char>)> {
    dedup_values(user_candidates(accs).sort_by(option_order()))
}

proof fn lemma_option_order_total()
    ensures
        vstd::relations::total_ordering(option_order()),
{
    let leq = option_order();
    assert forall|p: (Seq<char>, Seq<char>)| #[trigger] leq(p, p) by {}
    assert forall|p: (Seq<char>, Seq<char>), q: (Seq<char>, Seq<char>)|
        #[trigger] leq(p, q) && #[trigger] leq(q, p) implies p == q by {
        lemma_lex_asymmetric(p.1, q.1);
        lemma_lex_irreflexive(p.1);
        lemma_lex_asymmetric(p.0, q.0);
        lemma_lex_irreflexive(p.0);
    }
    assert forall|p: (Seq<char>, Seq<char>), q: (Seq<char>, Seq<char>), r: (Seq<char>, Seq<char>)|
        #[trigger] leq(p, q) && #[trigger] leq(q, r) implies leq(p, r) by {
        if lex_lt(p.1, q.1) && lex_lt(q.1, r.1) {
            lemma_lex_transitive(p.1, q.1, r.1);
        }
        if p.1 == q.1 && q.1 == r.1 && lex_lt(p.0, q.0) && lex_lt(q.0, r.0) {
            lemma_lex_transitive(p.0, q.0, r.0);
        }
    }
    assert forall|p: (Seq<char>, Seq<char>), q: (Seq<char>, Seq<char>)|
        #[trigger] leq(p, q) || #[trigger] leq(q, p) by {
        lemma_lex_total(p.1, q.1);
        lemma_lex_total(p.0, q.0);
    }
}

fn option_le_exec(a: &DropdownOption, b: &DropdownOption) -> (r: bool)
    ensures
        r == option_le((a.value@, a.label@), (b.value@, b.label@)),
{
    lex_less(a.label.as_str(), b.label.as_str()) || (eq_str(a.label.as_str(), b.label.as_str()) && (
    lex_less(a.value.as_str(), b.value.as_str()) || eq_str(a.value.as_str(), b.value.as_str())))
}

/// The users a routing rule can match on (see `user_menu`).
pub fn routing_user_options(accounts: &[AccountInfo]) -> (r: Vec<DropdownOption>)
    ensures
        option_pairs(r@) == user_menu(accounts@),
{
    let ghost leq = option_order();
    proof {
        lemma_option_order_total();
    }
    // Insertion sort of the candidates.
    let mut sorted: Vec<DropdownOption> = Vec::new();
    let mut i: usize = 0;
    assert(option_pairs(sorted@) =~= user_candidates(accounts@.take(0)));
    while i < accounts.len()
        invariant
            leq == option_order(),
            vstd::relations::total_ordering(leq),
            i <= accounts@.len(),
            vstd::relations::sorted_by(option_pairs(sorted@), leq),
            option_pairs(sorted@).to_multiset() == user_candidates(accounts@.take(i as int)).to_multiset(),
        decreases accounts@.len() - i,
    {
        let id = trim(accounts[i].id.as_str());
        let name = trim(accounts[i].name.as_str());
        let label = if name.as_str().unicode_len() == 0 || eq_str(name.as_str(), id.as_str()) {
            copy_str(id.as_str())
        } else {
            let mut l = copy_str(id.as_str());
            l.append(" (");
            l.append(name.as_str());
            l.append(")");
            l
        };
        proof {
            assert(accounts@.take(i + 1).drop_last() =~= accounts@.take(i as int));
            assert(accounts@.take(i + 1).last() == accounts@[i as int]);
        }
        if id.as_str().unicode_len() > 0 {
            let opt = DropdownOption { value: id, label };
            let ghost x = (opt.value@, opt.label@);
            assert(x == user_option(accounts@[i as int]));
            let mut k: usize = 0;
            while k < sorted.len() && option_le_exec(&sorted[k], &opt)
                invariant
                    leq == option_order(),
                    x == (opt.value@, opt.label@),
                    k <= sorted@.len(),
                    forall|j: int| 0 <= j < k ==> leq(#[trigger] option_pairs(sorted@)[j], x),
                decreases sorted@.len() - k,
            {
                k = k + 1;
            }
            let ghost before = option_pairs(sorted@);
            sorted.insert(k, opt);
            proof {
                let after = option_pairs(sorted@);
                assert(after =~= before.insert(k as int, x));
                vstd::seq_lib::to_multiset_insert(before, k as int, x);
                vstd::seq_lib::to_multiset_build(user_candidates(accounts@.take(i as int)), x);
                assert(user_candidates(accounts@.take(i + 1)) == user_candidates(
                    accounts@.take(i as int),
                ).push(x));
                if k < before.len() {
                    assert(!leq(before[k as int], x));
                    assert(leq(x, before[k as int]));
                }
                assert forall|a: int, b: int| 0 <= a < b < after.len() implies #[trigger] leq(
                    after[a],
                    after[b],
                ) by {
                    if b < k {
                    } else if b == k {
                    } else if a < k {
                        assert(after[b] == before[b - 1]);
                        if b - 1 > k {
                            assert(leq(before[k as int], before[b - 1]));
                        }
                        assert(leq(x, before[b - 1]));
                    } else if a == k {
                        assert(after[b] == before[b - 1]);
                        if b - 1 > k {
                            assert(leq(before[k as int], before[b - 1]));
                        }
                    } else {
                        assert(after[a] == before[a - 1]);
                        assert(after[b] == before[b - 1]);
                    }
                }
            }
        } else {
            assert(user_candidates(accounts@.take(i + 1)) =~= user_candidates(
                accounts@.take(i as int),
            ));
        }
        i = i + 1;
    }
    proof {
        assert(accounts@.take(accounts@.len() as int) =~= accounts@);
        let c = user_candidates(accounts@);
        c.lemma_sort_by_ensures(leq);
        vstd::seq_lib::lemma_sorted_unique(option_pairs(sorted@), c.sort_by(leq), leq);
    }
    // Dedup neighbours with the same value.
    let ghost s = option_pairs(sorted@);
    let mut out: Vec<DropdownOption> = Vec::new();
    let mut j: usize = 0;
    while j < sorted.len()
        invariant
            s == option_pairs(sorted@),
            j <= sorted@.len(),
            option_pairs(out@) == dedup_values(s.take(j as int)),
        decreases sorted@.len() - j,
    {
        proof {
            assert(s.take(j + 1).drop_last() =~= s.take(j as int));
            assert(s.take(j + 1).last() == s[j as int]);
        }
        let n = out.len();
        let same = n > 0 && eq_str(out[n - 1].value.as_str(), sorted[j].value.as_str());
        if !same {
            let ghost before = option_pairs(out@);
            out.push(sorted[j].duplicate());
            assert(option_pairs(out@) =~= before.push(s[j as int]));
        }
        j = j + 1;
    }
    assert(s.take(s.len() as int) =~= s);
    out
}

} // verus!
