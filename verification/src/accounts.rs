//! Accounts: what the account form saves, how expiry dates are shown and
//! read, and keeping group lists normalised.

use vstd::prelude::*;
use vstd::string::*;
use crate::groups::{normalize_groups, normalized_group_list};
use crate::ids::{is_lower_hex_digit, is_uuid_text, new_uuid_string};
use crate::model::{AccountInfo, AccountInfoView, ProxyNode, copy_strings};
use crate::text::{
    chars_of, copy_str, eq_str, is_blank, join, join_with, split_on, split_pieces,
    string_from_chars, sub_chars, texts, trim, trimmed,
};

verus! {

/// The text that chrono's `DateTime::from_timestamp(secs, 0)` formats with
/// `fmt`, in UTC; none for a time out of its range.
pub uninterp spec fn utc_formatted(secs: i64, fmt: Seq<char>) -> Option<Seq<char>>;

/// The UTC time, in seconds since 1970, that chrono's
/// `NaiveDateTime::parse_from_str(text, "%Y-%m-%dT%H:%M")` reads; none when
/// the text is not such a date and time.
pub uninterp spec fn local_input_seconds(text: Seq<char>) -> Option<i64>;

/// chrono's `DateTime::from_timestamp(secs, 0)` formatted with `fmt`.
/// Trusted: the text is named `utc_formatted` of the time and the format;
/// only the two formats the account pages use are admitted, both valid.
#[verifier::external_body]
fn format_utc(secs: i64, fmt: &str) -> (r: Option<String>)
    requires
        fmt@ == "%Y-%m-%d %H:%M"@ || fmt@ == "%Y-%m-%dT%H:%M"@,
    ensures
        r matches Some(t) ==> utc_formatted(secs, fmt@) == Some(t@),
        r is None ==> utc_formatted(secs, fmt@) is None,
{
    chrono::DateTime::from_timestamp(secs, 0).map(|dt| dt.format(fmt).to_string())
}

/// chrono's `NaiveDateTime::parse_from_str(text, "%Y-%m-%dT%H:%M")` taken
/// as a UTC time in seconds. Trusted: the result is named
/// `local_input_seconds` of the text.
#[verifier::external_body]
fn parse_local_input(text: &str) -> (r: Option<i64>)
    ensures
        r == local_input_seconds(text@),
{
    match chrono::NaiveDateTime::parse_from_str(text, "%Y-%m-%dT%H:%M") {
        Ok(dt) => Some(dt.and_utc().timestamp()),
        Err(_) => None,
    }
}

/// chrono's `Utc::now().timestamp()`. Trusted: nothing is claimed of the
/// time it gives.
#[verifier::external_body]
fn now_seconds() -> (r: i64) {
    chrono::Utc::now().timestamp()
}

/// How the account list shows an expiry time: the UTC date and minute, or
/// `Never` when the account does not expire or the time is out of range.
pub fn account_expiry_label(expiry_date: i64) -> (r: String)
    ensures
        r@ == if expiry_date > 0 {
            match utc_formatted(expiry_date, "%Y-%m-%d %H:%M"@) {
                Some(t) => t,
                None => "Never"@,
            }
        } else {
            "Never"@
        },
{
    if expiry_date > 0 {
        match format_utc(expiry_date, "%Y-%m-%d %H:%M") {
            Some(t) => t,
            None => copy_str("Never"),
        }
    } else {
        copy_str("Never")
    }
}

/// The expiry time as the account form's date input shows it; empty when
/// the account does not expire or the time is out of range.
pub fn account_expiry_input(expiry_date: i64) -> (r: String)
    ensures
        r@ == if expiry_date > 0 {
            match utc_formatted(expiry_date, "%Y-%m-%dT%H:%M"@) {
                Some(t) => t,
                None => Seq::empty(),
            }
        } else {
            Seq::empty()
        },
{
    if expiry_date > 0 {
        match format_utc(expiry_date, "%Y-%m-%dT%H:%M") {
            Some(t) => t,
            None => String::new(),
        }
    } else {
        String::new()
    }
}

/// The expiry time the account form's date input gives: none (0) when the
/// input is empty or does not read as a date and time.
pub fn parse_account_expiry(value: &str) -> (r: i64)
    ensures
        r == if value@.len() == 0 {
            0
        } else {
            match local_input_seconds(value@) {
                Some(t) => t,
                None => 0,
            }
        },
{
    if value.unicode_len() == 0 {
        0
    } else {
        match parse_local_input(value) {
            Some(t) => t,
            None => 0,
        }
    }
}

/// The trimmed pieces of a comma-separated text that are not empty.
pub open spec fn comma_entries(ps: Seq<Seq<char>>) -> Seq<Seq<char>>
    decreases ps.len(),
{
    if ps.len() == 0 {
        Seq::empty()
    } else {
        let p = comma_entries(ps.drop_last());
        if trimmed(ps.last()).len() > 0 {
            p.push(trimmed(ps.last()))
        } else {
            p
        }
    }
}

/// The allowed addresses written in the account form: the comma-separated
/// entries, trimmed, the empty ones dropped.
pub fn parse_allowed_ips(value: &str) -> (r: Vec<String>)
    ensures
        texts(r@) == comma_entries(split_pieces(value@, ',')),
{
    let cs = chars_of(value);
    let pieces = split_on(&cs, ',');
    let ghost ps = split_pieces(value@, ',');
    let mut out: Vec<String> = Vec::new();
    let mut i: usize = 0;
    while i < pieces.len()
        invariant
            ps == split_pieces(value@, ','),
            cs@ == value@,
            pieces@.len() == ps.len(),
            forall|k: int| 0 <= k < pieces@.len() ==> #[trigger] pieces@[k]@ == ps[k],
            i <= pieces@.len(),
            texts(out@) == comma_entries(ps.take(i as int)),
        decreases pieces@.len() - i,
    {
        proof {
            assert(ps.take(i + 1).drop_last() =~= ps.take(i as int));
            assert(ps.take(i + 1).last() == pieces@[i as int]@);
        }
        let s = string_from_chars(&pieces[i]);
        let t = trim(s.as_str());
        if t.as_str().unicode_len() > 0 {
            let ghost before = out@;
            out.push(t);
            assert(texts(out@) =~= texts(before).push(out@.last()@));
        }
        i = i + 1;
    }
    assert(ps.take(pieces@.len() as int) =~= ps);
    out
}

/// The trimmed pieces of a comma-separated text.
pub open spec fn trimmed_pieces(ps: Seq<Seq<char>>) -> Seq<Seq<char>> {
    Seq::new(ps.len(), |i: int| trimmed(ps[i]))
}

/// The groups written in a comma-separated text, normalised.
pub fn parse_group_list(value: &str) -> (r: Vec<String>)
    ensures
        texts(r@) == normalized_group_list(trimmed_pieces(split_pieces(value@, ','))),
{
    let cs = chars_of(value);
    let pieces = split_on(&cs, ',');
    let ghost ps = split_pieces(value@, ',');
    let mut parts: Vec<String> = Vec::new();
    let mut i: usize = 0;
    while i < pieces.len()
        invariant
            ps == split_pieces(value@, ','),
            pieces@.len() == ps.len(),
            forall|k: int| 0 <= k < pieces@.len() ==> #[trigger] pieces@[k]@ == ps[k],
            i <= pieces@.len(),
            texts(parts@) == trimmed_pieces(ps.take(i as int)),
        decreases pieces@.len() - i,
    {
        let s = string_from_chars(&pieces[i]);
        let ghost before = parts@;
        let t = trim(s.as_str());
        assert(t@ == trimmed(ps[i as int]));
        parts.push(t);
        proof {
            assert(parts@ == before.push(t));
            assert(texts(before).len() == before.len());
            assert(ps.take(i as int).len() == i);
            assert(trimmed_pieces(ps.take(i as int)).len() == i);
            assert(before.len() == i);
            assert forall|k: int| 0 <= k < i + 1 implies #[trigger] texts(parts@)[k]
                == trimmed_pieces(ps.take(i + 1))[k] by {
                if k < i {
                    assert(parts@[k] == before[k]);
                    assert(texts(parts@)[k] == texts(before)[k]);
                    assert(trimmed_pieces(ps.take(i + 1))[k] == trimmed_pieces(ps.take(i as int))[k]);
                }
            }
            assert(texts(parts@) =~= trimmed_pieces(ps.take(i + 1)));
        }
        i = i + 1;
    }
    assert(ps.take(pieces@.len() as int) =~= ps);
    normalize_groups(&parts)
}

/// What the account form holds, as typed.
pub struct AccountForm {
    pub name: String,
    pub token: String,
    pub allowed_ips: String,
    pub groups: String,
    pub expiry: String,
}

/// The token an account gets from the form: the trimmed typed token, or
/// `fallback` when none is typed.
pub open spec fn form_token(form: AccountForm, fallback: Seq<char>) -> Seq<char> {
    if trimmed(form.token@).len() == 0 {
        fallback
    } else {
        trimmed(form.token@)
    }
}

/// The expiry time an account gets from the form.
pub open spec fn form_expiry(form: AccountForm) -> i64 {
    if form.expiry@.len() == 0 {
        0
    } else {
        match local_input_seconds(form.expiry@) {
            Some(t) => t,
            None => 0,
        }
    }
}

/// `a` holds what the form says, with the id `id`, the token fallback
/// `fallback` and the creation time `created`.
pub open spec fn account_of_form(
    a: AccountInfoView,
    form: AccountForm,
    id: Seq<char>,
    fallback: Seq<char>,
    created: i64,
) -> bool {
    &&& a.id@ == id
    &&& a.name == form.name
    &&& a.token@ == form_token(form, fallback)
    &&& texts(a.allowed_ips) == comma_entries(split_pieces(form.allowed_ips@, ','))
    &&& texts(a.groups) == normalized_group_list(trimmed_pieces(split_pieces(form.groups@, ',')))
    &&& a.creation_date == created
    &&& a.expiry_date == form_expiry(form)
}

/// The views of a list of accounts.
pub open spec fn account_list_view(v: Seq<AccountInfo>) -> Seq<AccountInfoView> {
    Seq::new(v.len(), |i: int| v[i]@)
}

/// `i` is the first place of an account with the id `id`.
pub open spec fn first_account_with_id(v: Seq<AccountInfo>, id: Seq<char>, i: int) -> bool {
    &&& 0 <= i < v.len()
    &&& v[i].id@ == id
    &&& forall|k: int| 0 <= k < i ==> (#[trigger] v[k]).id@ != id
}

fn find_account(v: &Vec<AccountInfo>, id: &str) -> (r: Option<usize>)
    ensures
        match r {
            Some(i) => first_account_with_id(v@, id@, i as int),
            None => !exists|i: int| first_account_with_id(v@, id@, i),
        },
{
    let mut i: usize = 0;
    while i < v.len()
        invariant
            i <= v@.len(),
            forall|k: int| 0 <= k < i ==> (#[trigger] v@[k]).id@ != id@,
        decreases v@.len() - i,
    {
        if eq_str(v[i].id.as_str(), id) {
            return Some(i);
        }
        i = i + 1;
    }
    proof {
        if exists|j: int| first_account_with_id(v@, id@, j) {
            let j = choose|j: int| first_account_with_id(v@, id@, j);
            assert(v@[j].id@ == id@);
        }
    }
    None
}

fn account_from_form(form: &AccountForm, id: String, fallback: &str, created: i64) -> (r: AccountInfo)
    ensures
        account_of_form(r@, *form, id@, fallback@, created),
{
    let t = trim(form.token.as_str());
    let token = if t.as_str().unicode_len() == 0 {
        copy_str(fallback)
    } else {
        t
    };
    AccountInfo {
        id,
        name: form.name.clone(),
        token,
        groups: parse_group_list(form.groups.as_str()),
        allowed_ips: parse_allowed_ips(form.allowed_ips.as_str()),
        creation_date: created,
        expiry_date: parse_account_expiry(form.expiry.as_str()),
    }
}

/// What saving the account form does to the list `before`, giving `after`,
/// with the current time `now` and, for a new account, the id `new_id` and
/// the token `new_token` to use when none is typed. An edited account keeps
/// its id and, when none is typed, the token it had when the form was
/// opened; it keeps the creation time of the account it replaces when that
/// has one (otherwise `now`); it takes the place of the first account with
/// its id, or is added when there is none. A new account is added with
/// `new_id`, created `now`.
pub open spec fn account_form_applied(
    before: Seq<AccountInfo>,
    after: Seq<AccountInfo>,
    editing: Option<AccountInfo>,
    form: AccountForm,
    now: i64,
    new_id: Seq<char>,
    new_token: Seq<char>,
) -> bool {
    match editing {
        Some(e) => {
            if exists|i: int| first_account_with_id(before, e.id@, i) {
                let i = choose|i: int| first_account_with_id(before, e.id@, i);
                let prev = before[i];
                &&& after.len() == before.len()
                &&& forall|k: int|
                    0 <= k < after.len() && k != i ==> (#[trigger] after[k])@ == before[k]@
                &&& account_of_form(
                    after[i]@,
                    form,
                    e.id@,
                    e.token@,
                    if prev.creation_date > 0 {
                        prev.creation_date
                    } else {
                        now
                    },
                )
            } else {
                &&& after.len() == before.len() + 1
                &&& forall|k: int| 0 <= k < before.len() ==> (#[trigger] after[k])@ == before[k]@
                &&& account_of_form(
                    after.last()@,
                    form,
                    e.id@,
                    e.token@,
                    if e.creation_date > 0 {
                        e.creation_date
                    } else {
                        now
                    },
                )
            }
        },
        None => {
            &&& after.len() == before.len() + 1
            &&& forall|k: int| 0 <= k < before.len() ==> (#[trigger] after[k])@ == before[k]@
            &&& account_of_form(after.last()@, form, new_id, new_token, now)
        },
    }
}

/// The account being edited, as a plain value.
pub open spec fn edited(editing: Option<&AccountInfo>) -> Option<AccountInfo> {
    match editing {
        Some(e) => Some(*e),
        None => None,
    }
}

/// Saves what the account form holds (see `account_form_applied`), given
/// the current time `now` and, for a new account, its id and fallback token.
pub fn apply_account_form(
    accounts: &mut Vec<AccountInfo>,
    editing: Option<&AccountInfo>,
    form: &AccountForm,
    now: i64,
    new_id: &str,
    new_token: &str,
) -> (r: ())
    ensures
        account_form_applied(
            old(accounts)@,
            final(accounts)@,
            edited(editing),
            *form,
            now,
            new_id@,
            new_token@,
        ),
{
    match editing {
        Some(e) => {
            match find_account(accounts, e.id.as_str()) {
                Some(i) => {
                    proof {
                        assert forall|j: int| first_account_with_id(accounts@, e.id@, j) implies j
                            == i by {
                            if j < i {
                                assert(accounts@[j].id@ == e.id@);
                            } else if i < j {
                                assert(accounts@[i as int].id@ == e.id@);
                            }
                        }
                        assert(first_account_with_id(accounts@, e.id@, i as int));
                    }
                    let created = if accounts[i].creation_date > 0 {
                        accounts[i].creation_date
                    } else {
                        now
                    };
                    let a = account_from_form(form, e.id.clone(), e.token.as_str(), created);
                    accounts.set(i, a);
                },
                None => {
                    let created = if e.creation_date > 0 {
                        e.creation_date
                    } else {
                        now
                    };
                    let a = account_from_form(form, e.id.clone(), e.token.as_str(), created);
                    accounts.push(a);
                },
            }
        },
        None => {
            let a = account_from_form(form, copy_str(new_id), new_token, now);
            accounts.push(a);
        },
    }
}

/// Saves what the account form holds (see `account_form_applied`), taking
/// the time from the clock and, for a new account, the first 8 digits of a
/// fresh UUID as id (the same digits its simple form starts with) and
/// another fresh UUID as the token when none is typed. A new account is not
/// saved, and `false` comes back, when the system gives no random bytes for
/// those UUIDs; an edited account is always saved.
pub fn save_account_form(accounts: &mut Vec<AccountInfo>, editing: Option<&AccountInfo>, form: &AccountForm) -> (saved: bool)
    ensures
        editing is Some ==> saved && exists|now: i64|
            #[trigger] account_form_applied(
                old(accounts)@,
                final(accounts)@,
                edited(editing),
                *form,
                now,
                Seq::empty(),
                Seq::empty(),
            ),
        editing is None && saved ==> exists|id: Seq<char>, token: Seq<char>, now: i64|
            id.len() == 8 && (forall|i: int| 0 <= i < 8 ==> is_lower_hex_digit(#[trigger] id[i]))
                && is_uuid_text(token) && #[trigger] account_form_applied(
                old(accounts)@,
                final(accounts)@,
                edited(editing),
                *form,
                now,
                id,
                token,
            ),
        !saved ==> final(accounts)@ == old(accounts)@,
{
    let now = now_seconds();
    if editing.is_some() {
        let ghost before = accounts@;
        apply_account_form(accounts, editing, form, now, "", "");
        proof {
            reveal_strlit("");
            assert(""@ =~= Seq::<char>::empty());
            assert(account_form_applied(before, accounts@, edited(editing), *form, now, Seq::empty(), Seq::empty()));
        }
        return true;
    }
    let (fresh, new_token) = match (new_uuid_string(), new_uuid_string()) {
        (Some(a), Some(b)) => (a, b),
        _ => {
            return false;
        },
    };
    let cs = chars_of(fresh.as_str());
    let head = sub_chars(&cs, 0, 8);
    let new_id = string_from_chars(&head);
    proof {
        assert forall|i: int| 0 <= i < 8 implies is_lower_hex_digit(#[trigger] new_id@[i]) by {
            assert(new_id@[i] == fresh@[i]);
        }
    }
    apply_account_form(accounts, editing, form, now, new_id.as_str(), new_token.as_str());
    true
}

/// The accounts without those that have the id `id`, in order.
pub open spec fn accounts_without(v: Seq<AccountInfoView>, id: Seq<char>) -> Seq<AccountInfoView>
    decreases v.len(),
{
    if v.len() == 0 {
        Seq::empty()
    } else {
        let p = accounts_without(v.drop_last(), id);
        if v.last().id@ == id {
            p
        } else {
            p.push(v.last())
        }
    }
}

/// After the accounts with an id are deleted, none has that id, and every
/// other account stays, in order.
pub proof fn law_deleted_account_is_gone(v: Seq<AccountInfoView>, id: Seq<char>)
    ensures
        forall|k: int| 0 <= k < accounts_without(v, id).len() ==> (#[trigger] accounts_without(v, id)[k]).id@ != id,
        forall|k: int| 0 <= k < v.len() && v[k].id@ != id ==> accounts_without(v, id).contains(#[trigger] v[k]),
    decreases v.len(),
{
    if v.len() > 0 {
        let q = v.drop_last();
        law_deleted_account_is_gone(q, id);
        let p = accounts_without(q, id);
        assert forall|k: int| 0 <= k < accounts_without(v, id).len() implies (
        #[trigger] accounts_without(v, id)[k]).id@ != id by {
            if k < p.len() {
                assert(accounts_without(v, id)[k] == p[k]);
            }
        }
        assert forall|k: int| 0 <= k < v.len() && v[k].id@ != id implies accounts_without(v, id).contains(
            #[trigger] v[k],
        ) by {
            let r = accounts_without(v, id);
            if k < q.len() {
                assert(q[k] == v[k]);
                assert(p.contains(q[k]));
                let j = choose|j: int| 0 <= j < p.len() && p[j] == q[k];
                assert(r[j] == p[j]);
            } else {
                assert(r[r.len() - 1] == v.last());
            }
        }
    }
}

/// Deletes the accounts with the id `id`.
pub fn delete_account(accounts: &mut Vec<AccountInfo>, id: &str)
    ensures
        account_list_view(final(accounts)@) == accounts_without(account_list_view(old(accounts)@), id@),
{
    let ghost s = account_list_view(accounts@);
    let mut out: Vec<AccountInfo> = Vec::new();
    let mut i: usize = 0;
    while i < accounts.len()
        invariant
            s == account_list_view(accounts@),
            i <= accounts@.len(),
            account_list_view(out@) == accounts_without(s.take(i as int), id@),
        decreases accounts@.len() - i,
    {
        proof {
            assert(s.take(i + 1).drop_last() =~= s.take(i as int));
            assert(s.take(i + 1).last() == accounts@[i as int]@);
        }
        if !eq_str(accounts[i].id.as_str(), id) {
            let ghost before = out@;
            out.push(accounts[i].duplicate());
            assert(account_list_view(out@) =~= account_list_view(before).push(accounts@[i as int]@));
        }
        i = i + 1;
    }
    assert(s.take(accounts@.len() as int) =~= s);
    *accounts = out;
}

/// What the groups dialog shows first: the known groups, normalised,
/// separated by `, `.
pub fn groups_field_text(groups: &Vec<String>) -> (r: String)
    ensures
        r@ == join_with(normalized_group_list(texts(groups@)), ", "@),
{
    let g = normalize_groups(groups);
    join(&g, ", ")
}

/// Saves the group list typed in the groups dialog and normalises the groups
/// of every account and node; the normalised group list comes back.
pub fn save_group_lists(value: &str, accounts: &mut Vec<AccountInfo>, nodes: &mut Vec<ProxyNode>) -> (r:
    Vec<String>)
    ensures
        texts(r@) == normalized_group_list(trimmed_pieces(split_pieces(value@, ','))),
        final(accounts)@.len() == old(accounts)@.len(),
        forall|k: int|
            0 <= k < final(accounts)@.len() ==> {
                let a = (#[trigger] final(accounts)@[k])@;
                let b = old(accounts)@[k]@;
                &&& texts(a.groups) == normalized_group_list(texts(b.groups))
                &&& a == AccountInfoView { groups: a.groups, ..b }
            },
        final(nodes)@.len() == old(nodes)@.len(),
        forall|k: int|
            0 <= k < final(nodes)@.len() ==> {
                let a = (#[trigger] final(nodes)@[k])@;
                let b = old(nodes)@[k]@;
                &&& texts(a.groups) == normalized_group_list(texts(b.groups))
                &&& a == crate::model::ProxyNodeView { groups: a.groups, ..b }
            },
{
    let groups = parse_group_list(value);
    let ghost a0 = accounts@;
    let mut i: usize = 0;
    while i < accounts.len()
        invariant
            i <= accounts@.len(),
            accounts@.len() == a0.len(),
            forall|k: int|
                0 <= k < i ==> {
                    let a = (#[trigger] accounts@[k])@;
                    let b = a0[k]@;
                    &&& texts(a.groups) == normalized_group_list(texts(b.groups))
                    &&& a == AccountInfoView { groups: a.groups, ..b }
                },
            forall|k: int| i <= k < accounts@.len() ==> (#[trigger] accounts@[k]) == a0[k],
        decreases accounts@.len() - i,
    {
        let mut a = accounts[i].duplicate();
        a.groups = normalize_groups(&accounts[i].groups);
        accounts.set(i, a);
        i = i + 1;
    }
    let ghost n0 = nodes@;
    let mut j: usize = 0;
    while j < nodes.len()
        invariant
            j <= nodes@.len(),
            nodes@.len() == n0.len(),
            forall|k: int|
                0 <= k < j ==> {
                    let a = (#[trigger] nodes@[k])@;
                    let b = n0[k]@;
                    &&& texts(a.groups) == normalized_group_list(texts(b.groups))
                    &&& a == crate::model::ProxyNodeView { groups: a.groups, ..b }
                },
            forall|k: int| j <= k < nodes@.len() ==> (#[trigger] nodes@[k]) == n0[k],
        decreases nodes@.len() - j,
    {
        let mut n = nodes[j].duplicate();
        n.groups = normalize_groups(&nodes[j].groups);
        nodes.set(j, n);
        j = j + 1;
    }
    groups
}

} // verus!
