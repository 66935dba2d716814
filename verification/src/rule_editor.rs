//! The routing rule editor: what a saved rule holds, and the suggestions
//! offered while typing inbound tags, users and protocols.

use vstd::prelude::*;
use vstd::string::*;
use crate::model::RoutingRuleDraft;
use crate::order::lex_lt;
use crate::routing::{insert_sorted, strictly_sorted};
use crate::text::{
    chars_of, copy_str, csv_entries, eq_str, join, join_with, lower_text, lower_trimmed,
    split_lines_csv, texts, to_lower, trim, trim_lower, trimmed,
};

verus! {

/// The text of a strictly sorted list of the values of `s`.
pub open spec fn sorted_text(s: Set<Seq<char>>, sep: Seq<char>, t: Seq<char>) -> bool {
    exists|l: Seq<Seq<char>>|
        strictly_sorted(l) && (forall|x: Seq<char>| l.contains(x) <==> s.contains(x))
            && t == join_with(l, sep)
}

/// The transports a rule matches for the editor's choice: TCP, UDP, or both
/// for anything else.
pub open spec fn transport_choice(v: Seq<char>) -> Seq<char> {
    if v == "tcp"@ {
        "tcp"@
    } else if v == "udp"@ {
        "udp"@
    } else {
        "tcp,udp"@
    }
}

/// The application protocols a rule can match.
pub open spec fn app_protocol_allowed(x: Seq<char>) -> bool {
    x == "http"@ || x == "tls"@ || x == "bittorrent"@
}

/// The application protocols listed in a rule's protocol text, lower-cased,
/// that a rule can match.
pub open spec fn chosen_protocols(p: Seq<char>) -> Set<Seq<char>> {
    Set::new(
        |x: Seq<char>|
            x.len() > 0 && x != "tcp"@ && x != "udp"@ && app_protocol_allowed(x) && exists|k: int|
                0 <= k < csv_entries(p).len() && lower_trimmed(#[trigger] csv_entries(p)[k]) == x,
    )
}

/// The users listed in a rule's user text that are among the known options.
pub open spec fn chosen_users(u: Seq<char>, options: Seq<Seq<char>>) -> Set<Seq<char>> {
    Set::new(
        |x: Seq<char>|
            x.len() > 0 && options.contains(x) && exists|k: int|
                0 <= k < csv_entries(u).len() && trimmed(#[trigger] csv_entries(u)[k]) == x,
    )
}

/// True when the list holds the text.
fn list_has(list: &Vec<String>, x: &str) -> (r: bool)
    ensures
        r == texts(list@).contains(x@),
{
    let mut i: usize = 0;
    while i < list.len()
        invariant
            i <= list@.len(),
            forall|k: int| 0 <= k < i ==> list@[k]@ != x@,
        decreases list@.len() - i,
    {
        if eq_str(list[i].as_str(), x) {
            assert(texts(list@)[i as int] == x@);
            return true;
        }
        i = i + 1;
    }
    proof {
        if texts(list@).contains(x@) {
            let k = choose|k: int| 0 <= k < texts(list@).len() && texts(list@)[k] == x@;
            assert(list@[k]@ == x@);
        }
    }
    false
}

proof fn lemma_protocol_words()
    ensures
        "tcp"@ != "http"@ && "tcp"@ != "tls"@ && "tcp"@ != "bittorrent"@,
        "udp"@ != "http"@ && "udp"@ != "tls"@ && "udp"@ != "bittorrent"@,
        "http"@.len() > 0 && "tls"@.len() > 0 && "bittorrent"@.len() > 0,
{
    reveal_strlit("http");
    reveal_strlit("tls");
    reveal_strlit("bittorrent");
    reveal_strlit("tcp");
    reveal_strlit("udp");
    assert("tcp"@.len() != "http"@.len() && "tcp"@[1] != "tls"@[1]);
    assert("tcp"@.len() != "bittorrent"@.len());
    assert("udp"@.len() != "http"@.len() && "udp"@[0] != "tls"@[0]);
    assert("udp"@.len() != "bittorrent"@.len());
}

/// The rule the editor saves: its transports as chosen, its application
/// protocols lower-cased, restricted to HTTP, TLS and BitTorrent, sorted and
/// without repeats (joined by commas), and its users restricted to the known
/// options, sorted and without repeats (joined by `, `). Everything else is
/// kept.
pub fn routing_rule_for_save(
    rule: &RoutingRuleDraft,
    transport_value: &str,
    user_options: &Vec<String>,
) -> (r: RoutingRuleDraft)
    ensures
        r.transport@ == transport_choice(transport_value@),
        sorted_text(chosen_protocols(rule.protocol@), ","@, r.protocol@),
        sorted_text(chosen_users(rule.user@, texts(user_options@)), ", "@, r.user@),
        r.enabled == rule.enabled,
        r.remark == rule.remark,
        r.domain == rule.domain,
        r.ip == rule.ip,
        r.port == rule.port,
        r.inbound_tag == rule.inbound_tag,
        r.outbound_tag == rule.outbound_tag,
{
    let transport = if eq_str(transport_value, "tcp") {
        copy_str("tcp")
    } else if eq_str(transport_value, "udp") {
        copy_str("udp")
    } else {
        copy_str("tcp,udp")
    };
    let entries = split_lines_csv(rule.protocol.as_str());
    let ghost es = texts(entries@);
    let mut protocols: Vec<String> = Vec::new();
    let mut i: usize = 0;
    while i < entries.len()
        invariant
            es == texts(entries@),
            es == csv_entries(rule.protocol@),
            i <= entries@.len(),
            strictly_sorted(texts(protocols@)),
            forall|x: Seq<char>|
                #![trigger texts(protocols@).contains(x)]
                texts(protocols@).contains(x) <==> (app_protocol_allowed(x) && exists|k: int|
                    0 <= k < i && lower_trimmed(#[trigger] es[k]) == x),
        decreases entries@.len() - i,
    {
        proof {
            lemma_protocol_words();
        }
        let v = trim_lower(entries[i].as_str());
        let ghost before = texts(protocols@);
        let keep = v.as_str().unicode_len() > 0 && !eq_str(v.as_str(), "tcp") && !eq_str(
            v.as_str(),
            "udp",
        ) && (eq_str(v.as_str(), "http") || eq_str(v.as_str(), "tls") || eq_str(
            v.as_str(),
            "bittorrent",
        ));
        assert(es[i as int] == entries@[i as int]@);
        if keep {
            insert_sorted(&mut protocols, v);
        }
        proof {
            assert forall|x: Seq<char>|
                texts(protocols@).contains(x) <==> (app_protocol_allowed(x) && exists|k: int|
                    0 <= k < i + 1 && lower_trimmed(#[trigger] es[k]) == x) by {
                if texts(protocols@).contains(x) {
                    if before.contains(x) {
                        let k = choose|k: int| 0 <= k < i && lower_trimmed(#[trigger] es[k]) == x;
                        assert(lower_trimmed(es[k]) == x);
                    } else {
                        assert(x == v@);
                        assert(lower_trimmed(es[i as int]) == x);
                    }
                }
                if app_protocol_allowed(x) && exists|k: int|
                    0 <= k < i + 1 && lower_trimmed(#[trigger] es[k]) == x {
                    let k = choose|k: int| 0 <= k < i + 1 && lower_trimmed(#[trigger] es[k]) == x;
                    if k < i {
                        assert(before.contains(x));
                    } else {
                        assert(v@ == x);
                        assert(keep);
                    }
                }
            }
        }
        i = i + 1;
    }
    proof {
        lemma_protocol_words();
        assert forall|x: Seq<char>| texts(protocols@).contains(x) <==> chosen_protocols(
            rule.protocol@,
        ).contains(x) by {
            if app_protocol_allowed(x) {
                assert(x.len() > 0);
            }
        }
    }
    let protocol = join(&protocols, ",");

    let user_entries = split_lines_csv(rule.user.as_str());
    let ghost us = texts(user_entries@);
    let mut users: Vec<String> = Vec::new();
    let mut j: usize = 0;
    while j < user_entries.len()
        invariant
            us == texts(user_entries@),
            us == csv_entries(rule.user@),
            j <= user_entries@.len(),
            strictly_sorted(texts(users@)),
            forall|x: Seq<char>|
                texts(users@).contains(x) <==> (x.len() > 0 && texts(user_options@).contains(x)
                    && exists|k: int| 0 <= k < j && trimmed(#[trigger] us[k]) == x),
        decreases user_entries@.len() - j,
    {
        let v = trim(user_entries[j].as_str());
        assert(us[j as int] == user_entries@[j as int]@);
        let ghost before = texts(users@);
        if v.as_str().unicode_len() > 0 && list_has(user_options, v.as_str()) {
            insert_sorted(&mut users, v);
        }
        proof {
            assert forall|x: Seq<char>|
                texts(users@).contains(x) <==> (x.len() > 0 && texts(user_options@).contains(x)
                    && exists|k: int| 0 <= k < j + 1 && trimmed(#[trigger] us[k]) == x) by {
                if x.len() > 0 && texts(user_options@).contains(x) && trimmed(us[j as int]) == x {
                    assert(texts(users@).contains(x));
                }
            }
        }
        j = j + 1;
    }
    let user = join(&users, ", ");
    RoutingRuleDraft {
        enabled: rule.enabled,
        remark: rule.remark.clone(),
        domain: rule.domain.clone(),
        ip: rule.ip.clone(),
        port: rule.port.clone(),
        transport,
        protocol,
        inbound_tag: rule.inbound_tag.clone(),
        user,
        outbound_tag: rule.outbound_tag.clone(),
    }
}

/// `t` occurs in `s` at place `i`.
pub open spec fn occurs_at(s: Seq<char>, t: Seq<char>, i: int) -> bool {
    s.subrange(i, i + t.len()) == t
}

/// `t` occurs in `s`.
pub open spec fn has_infix(s: Seq<char>, t: Seq<char>) -> bool {
    exists|i: int| 0 <= i && i + t.len() <= s.len() && #[trigger] occurs_at(s, t, i)
}

/// Whether `t` occurs in `s` (`str::contains` with a string pattern).
fn contains_text(s: &Vec<char>, t: &Vec<char>) -> (r: bool)
    ensures
        r == has_infix(s@, t@),
{
    if t.len() > s.len() {
        return false;
    }
    if t.len() == 0 {
        assert(s@.subrange(0, 0) =~= t@);
        assert(occurs_at(s@, t@, 0));
        return true;
    }
    let mut i: usize = 0;
    while i <= s.len() - t.len()
        invariant
            0 < t@.len() <= s@.len(),
            i <= s@.len() - t@.len() + 1,
            forall|k: int| 0 <= k < i ==> !#[trigger] occurs_at(s@, t@, k),
        decreases s@.len() - t@.len() + 1 - i,
    {
        if crate::text::starts_with_at(s, i, t) {
            assert(s@.subrange(i as int, s@.len() as int).subrange(0, t@.len() as int)
                =~= s@.subrange(i as int, i + t@.len()));
            assert(occurs_at(s@, t@, i as int));
            return true;
        }
        assert(s@.subrange(i as int, s@.len() as int).subrange(0, t@.len() as int)
            =~= s@.subrange(i as int, i + t@.len()));
        i = i + 1;
    }
    proof {
        if has_infix(s@, t@) {
            let k = choose|k: int| 0 <= k && k + t@.len() <= s@.len() && #[trigger] occurs_at(s@, t@, k);
            assert(k < i);
        }
    }
    false
}

/// What the editor suggests: the trimmed options that are not empty, not
/// selected yet, and, when the query is not blank, whose lower-case form
/// holds the lower-case trimmed query.
pub open spec fn suggested(
    options: Seq<Seq<char>>,
    selected: Seq<Seq<char>>,
    query: Seq<char>,
) -> Set<Seq<char>> {
    let needle = lower_trimmed(query);
    Set::new(
        |x: Seq<char>|
            x.len() > 0 && (exists|k: int| 0 <= k < options.len() && trimmed(#[trigger] options[k]) == x)
                && !selected.contains(x) && (needle.len() == 0 || has_infix(lower_text(x), needle)),
    )
}

/// The editor's suggestions (see `suggested`), sorted and without repeats.
pub fn editor_suggestions(options: &Vec<String>, selected: &Vec<String>, query: &str) -> (r: Vec<
    String,
>)
    ensures
        strictly_sorted(texts(r@)),
        forall|x: Seq<char>|
            texts(r@).contains(x) <==> suggested(texts(options@), texts(selected@), query@).contains(x),
{
    let needle_text = trim_lower(query);
    let needle = chars_of(needle_text.as_str());
    let mut out: Vec<String> = Vec::new();
    let mut i: usize = 0;
    let ghost os = texts(options@);
    while i < options.len()
        invariant
            os == texts(options@),
            needle@ == lower_trimmed(query@),
            i <= options@.len(),
            strictly_sorted(texts(out@)),
            forall|x: Seq<char>|
                texts(out@).contains(x) <==> (x.len() > 0 && (exists|k: int|
                    0 <= k < i && trimmed(#[trigger] os[k]) == x) && !texts(selected@).contains(x)
                    && (needle@.len() == 0 || has_infix(lower_text(x), needle@))),
        decreases options@.len() - i,
    {
        let v = trim(options[i].as_str());
        assert(os[i as int] == options@[i as int]@);
        let ghost before = texts(out@);
        let matches = if needle.len() == 0 {
            true
        } else {
            let l = to_lower(v.as_str());
            let lc = chars_of(l.as_str());
            contains_text(&lc, &needle)
        };
        if v.as_str().unicode_len() > 0 && !list_has(selected, v.as_str()) && matches {
            insert_sorted(&mut out, v);
        }
        proof {
            assert forall|x: Seq<char>|
                texts(out@).contains(x) <==> (x.len() > 0 && (exists|k: int|
                    0 <= k < i + 1 && trimmed(#[trigger] os[k]) == x) && !texts(selected@).contains(x)
                    && (needle@.len() == 0 || has_infix(lower_text(x), needle@))) by {
                if x.len() > 0 && trimmed(os[i as int]) == x && !texts(selected@).contains(x) && (
                needle@.len() == 0 || has_infix(lower_text(x), needle@)) {
                    assert(texts(out@).contains(x));
                }
            }
        }
        i = i + 1;
    }
    out
}

/// The entries of a rule's list text, each lower-cased, the empty ones
/// dropped (how the editor reads the protocols already chosen).
pub open spec fn lowered_entries(v: Seq<char>) -> Seq<Seq<char>>
    decreases v.len(),
{
    lowered_of(csv_entries(v))
}

/// The lower-cased trimmed forms of texts, the empty ones dropped.
pub open spec fn lowered_of(es: Seq<Seq<char>>) -> Seq<Seq<char>>
    decreases es.len(),
{
    if es.len() == 0 {
        Seq::empty()
    } else {
        let p = lowered_of(es.drop_last());
        let l = lower_trimmed(es.last());
        if l.len() > 0 {
            p.push(l)
        } else {
            p
        }
    }
}

/// The entries of a list text, lower-cased, the empty ones dropped.
pub fn lowered_list_entries(value: &str) -> (r: Vec<String>)
    ensures
        texts(r@) == lowered_entries(value@),
{
    let entries = split_lines_csv(value);
    let ghost es = texts(entries@);
    let mut out: Vec<String> = Vec::new();
    let mut i: usize = 0;
    while i < entries.len()
        invariant
            es == texts(entries@),
            es == csv_entries(value@),
            i <= entries@.len(),
            texts(out@) == lowered_of(es.take(i as int)),
        decreases entries@.len() - i,
    {
        proof {
            assert(es.take(i + 1).drop_last() =~= es.take(i as int));
            assert(es.take(i + 1).last() == entries@[i as int]@);
        }
        let l = trim_lower(entries[i].as_str());
        if l.as_str().unicode_len() > 0 {
            let ghost before = out@;
            out.push(l);
            assert(texts(out@) =~= texts(before).push(out@.last()@));
        }
        i = i + 1;
    }
    assert(es.take(entries@.len() as int) =~= es);
    out
}

} // verus!
