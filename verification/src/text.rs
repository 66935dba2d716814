//! Character-level text operations with their mathematical models.

use vstd::prelude::*;
use vstd::string::*;
use vstd::utf8::*;

verus! {

/// Unicode `White_Space`, the set that `str::trim` removes.
pub open spec fn is_ws(c: char) -> bool {
    ||| ('\u{9}' <= c && c <= '\u{d}')
    ||| c == ' '
    ||| c == '\u{85}'
    ||| c == '\u{a0}'
    ||| c == '\u{1680}'
    ||| ('\u{2000}' <= c && c <= '\u{200a}')
    ||| c == '\u{2028}'
    ||| c == '\u{2029}'
    ||| c == '\u{202f}'
    ||| c == '\u{205f}'
    ||| c == '\u{3000}'
}

pub open spec fn trim_start(s: Seq<char>) -> Seq<char>
    decreases s.len(),
{
    if s.len() > 0 && is_ws(s[0]) {
        trim_start(s.drop_first())
    } else {
        s
    }
}

pub open spec fn trim_end(s: Seq<char>) -> Seq<char>
    decreases s.len(),
{
    if s.len() > 0 && is_ws(s.last()) {
        trim_end(s.drop_last())
    } else {
        s
    }
}

/// The text with leading and trailing white space removed.
pub open spec fn trimmed(s: Seq<char>) -> Seq<char> {
    trim_end(trim_start(s))
}

pub fn is_whitespace_char(c: char) -> (r: bool)
    ensures
        r == is_ws(c),
{
    ('\u{9}' <= c && c <= '\u{d}') || c == ' ' || c == '\u{85}' || c == '\u{a0}' || c
        == '\u{1680}' || ('\u{2000}' <= c && c <= '\u{200a}') || c == '\u{2028}' || c
        == '\u{2029}' || c == '\u{202f}' || c == '\u{205f}' || c == '\u{3000}'
}

proof fn lemma_trim_start_skip(s: Seq<char>, i: int)
    requires
        0 <= i <= s.len(),
        forall|k: int| 0 <= k < i ==> is_ws(#[trigger] s[k]),
    ensures
        trim_start(s) == trim_start(s.subrange(i, s.len() as int)),
    decreases i,
{
    if i == 0 {
        assert(s.subrange(0, s.len() as int) =~= s);
    } else {
        let t = s.drop_first();
        assert forall|k: int| 0 <= k < i - 1 implies is_ws(#[trigger] t[k]) by {
            assert(t[k] == s[k + 1]);
        }
        lemma_trim_start_skip(t, i - 1);
        assert(t.subrange(i - 1, t.len() as int) =~= s.subrange(i, s.len() as int));
    }
}

proof fn lemma_trim_end_skip(s: Seq<char>, j: int)
    requires
        0 <= j <= s.len(),
        forall|k: int| j <= k < s.len() ==> is_ws(#[trigger] s[k]),
    ensures
        trim_end(s) == trim_end(s.subrange(0, j)),
    decreases s.len() - j,
{
    if j == s.len() {
        assert(s.subrange(0, j) =~= s);
    } else {
        let t = s.drop_last();
        assert forall|k: int| j <= k < t.len() implies is_ws(#[trigger] t[k]) by {
            assert(t[k] == s[k]);
        }
        lemma_trim_end_skip(t, j);
        assert(t.subrange(0, j) =~= s.subrange(0, j));
    }
}

proof fn lemma_trim_start_shape(s: Seq<char>) -> (a: int)
    ensures
        0 <= a <= s.len(),
        trim_start(s) == s.subrange(a, s.len() as int),
        forall|k: int| 0 <= k < a ==> is_ws(#[trigger] s[k]),
    decreases s.len(),
{
    if s.len() > 0 && is_ws(s[0]) {
        let t = s.drop_first();
        let b = lemma_trim_start_shape(t);
        assert(t.subrange(b, t.len() as int) =~= s.subrange(b + 1, s.len() as int));
        assert forall|k: int| 0 <= k < b + 1 implies is_ws(#[trigger] s[k]) by {
            if k > 0 {
                assert(s[k] == t[k - 1]);
            }
        }
        b + 1
    } else {
        assert(s.subrange(0, s.len() as int) =~= s);
        0
    }
}

proof fn lemma_trim_end_shape(s: Seq<char>) -> (b: int)
    ensures
        0 <= b <= s.len(),
        trim_end(s) == s.subrange(0, b),
        forall|k: int| b <= k < s.len() ==> is_ws(#[trigger] s[k]),
    decreases s.len(),
{
    if s.len() > 0 && is_ws(s.last()) {
        let t = s.drop_last();
        let b = lemma_trim_end_shape(t);
        assert(t.subrange(0, b) =~= s.subrange(0, b));
        assert forall|k: int| b <= k < s.len() implies is_ws(#[trigger] s[k]) by {
            if k < s.len() - 1 {
                assert(s[k] == t[k]);
            }
        }
        b
    } else {
        assert(s.subrange(0, s.len() as int) =~= s);
        s.len() as int
    }
}

/// A text with a character that is not white space is not blank.
pub proof fn lemma_not_blank(s: Seq<char>, i: int)
    requires
        0 <= i < s.len(),
        !is_ws(s[i]),
    ensures
        trimmed(s).len() > 0,
{
    let a = lemma_trim_start_shape(s);
    let t = s.subrange(a, s.len() as int);
    assert(a <= i);
    assert(t[i - a] == s[i]);
    let b = lemma_trim_end_shape(t);
    assert(b > i - a);
}

/// A text that starts and ends with characters that are not white space is
/// its own trimmed form.
pub proof fn lemma_trimmed_fixed(s: Seq<char>)
    requires
        s.len() > 0,
        !is_ws(s[0]),
        !is_ws(s.last()),
    ensures
        trimmed(s) == s,
{
    assert(trim_start(s) == s);
}

proof fn lemma_trim_start_clean(s: Seq<char>)
    ensures
        trim_start(s).len() > 0 ==> !is_ws(trim_start(s)[0]),
    decreases s.len(),
{
    if s.len() > 0 && is_ws(s[0]) {
        lemma_trim_start_clean(s.drop_first());
    }
}

proof fn lemma_trim_end_clean(s: Seq<char>)
    ensures
        trim_end(s).len() > 0 ==> !is_ws(trim_end(s).last()),
    decreases s.len(),
{
    if s.len() > 0 && is_ws(s.last()) {
        lemma_trim_end_clean(s.drop_last());
    }
}

/// Trimming a trimmed text changes nothing.
pub proof fn lemma_trimmed_idempotent(s: Seq<char>)
    ensures
        trimmed(trimmed(s)) == trimmed(s),
{
    let u = trim_start(s);
    lemma_trim_start_clean(s);
    lemma_trim_end_clean(u);
    let b = lemma_trim_end_shape(u);
    let t = trimmed(s);
    if t.len() > 0 {
        assert(t[0] == u[0]);
        lemma_trimmed_fixed(t);
    }
}

/// The characters of `s`, one by one.
pub fn chars_of(s: &str) -> (r: Vec<char>)
    ensures
        r@ == s@,
{
    let n = s.unicode_len();
    let mut out: Vec<char> = Vec::new();
    let mut i: usize = 0;
    while i < n
        invariant
            n == s@.len(),
            i <= n,
            out@ == s@.subrange(0, i as int),
        decreases n - i,
    {
        let c = s.get_char(i);
        out.push(c);
        i = i + 1;
        assert(out@ =~= s@.subrange(0, i as int));
    }
    assert(out@ =~= s@);
    out
}

/// `str::trim`: `s` without leading and trailing white space.
pub fn trim(s: &str) -> (r: String)
    ensures
        r@ == trimmed(s@),
{
    let cs = chars_of(s);
    let n = cs.len();
    let mut i: usize = 0;
    while i < n && is_whitespace_char(cs[i])
        invariant
            cs@ == s@,
            n == cs@.len(),
            i <= n,
            forall|k: int| 0 <= k < i ==> is_ws(#[trigger] cs@[k]),
        decreases n - i,
    {
        i = i + 1;
    }
    proof {
        lemma_trim_start_skip(s@, i as int);
    }
    let ghost rest = s@.subrange(i as int, n as int);
    assert(trim_start(rest) == rest);
    let mut j: usize = n;
    while j > i && is_whitespace_char(cs[j - 1])
        invariant
            cs@ == s@,
            n == cs@.len(),
            i <= j <= n,
            rest == s@.subrange(i as int, n as int),
            forall|k: int| j <= k < n ==> is_ws(#[trigger] cs@[k]),
        decreases j - i,
    {
        j = j - 1;
    }
    proof {
        assert forall|k: int| j - i <= k < rest.len() implies is_ws(#[trigger] rest[k]) by {
            assert(rest[k] == s@[k + i]);
        }
        lemma_trim_end_skip(rest, j - i);
        assert(rest.subrange(0, j - i) =~= s@.subrange(i as int, j as int));
    }
    let sub = s.substring_char(i, j);
    String::from_str(sub)
}


/// `String::push`: appends one character.
#[verifier::external_body]
pub(crate) fn push_char(s: &mut String, c: char)
    ensures
        final(s)@ == old(s)@.push(c),
{
    s.push(c);
}

/// A string holding the characters `cs[lo..hi]`.
pub fn string_from_range(cs: &Vec<char>, lo: usize, hi: usize) -> (r: String)
    requires
        lo <= hi <= cs@.len(),
    ensures
        r@ == cs@.subrange(lo as int, hi as int),
{
    let mut out = String::new();
    let mut i = lo;
    while i < hi
        invariant
            lo <= i <= hi <= cs@.len(),
            out@ == cs@.subrange(lo as int, i as int),
        decreases hi - i,
    {
        push_char(&mut out, cs[i]);
        i = i + 1;
        assert(out@ =~= cs@.subrange(lo as int, i as int));
    }
    out
}

/// A string holding exactly the characters of `cs`.
pub fn string_from_chars(cs: &Vec<char>) -> (r: String)
    ensures
        r@ == cs@,
{
    let r = string_from_range(cs, 0, cs.len());
    assert(cs@.subrange(0, cs@.len() as int) =~= cs@);
    r
}

/// A fresh copy of `s`.
pub fn copy_str(s: &str) -> (r: String)
    ensures
        r@ == s@,
{
    String::from_str(s)
}

/// Character-wise equality of two texts.
pub fn eq_chars(a: &Vec<char>, b: &Vec<char>) -> (r: bool)
    ensures
        r == (a@ == b@),
{
    if a.len() != b.len() {
        return false;
    }
    let mut i: usize = 0;
    while i < a.len()
        invariant
            a@.len() == b@.len(),
            i <= a@.len(),
            forall|k: int| 0 <= k < i ==> a@[k] == b@[k],
        decreases a@.len() - i,
    {
        if a[i] != b[i] {
            return false;
        }
        i = i + 1;
    }
    assert(a@ =~= b@);
    true
}

/// Character-wise equality of two string slices.
pub fn eq_str(a: &str, b: &str) -> (r: bool)
    ensures
        r == (a@ == b@),
{
    let ca = chars_of(a);
    let cb = chars_of(b);
    eq_chars(&ca, &cb)
}

/// True when `s` is empty or made of white space only.
pub fn is_blank(s: &str) -> (r: bool)
    ensures
        r == (trimmed(s@).len() == 0),
{
    let t = trim(s);
    t.as_str().unicode_len() == 0
}

pub open spec fn has_prefix(s: Seq<char>, p: Seq<char>) -> bool {
    p.len() <= s.len() && s.subrange(0, p.len() as int) == p
}

pub open spec fn has_suffix(s: Seq<char>, p: Seq<char>) -> bool {
    p.len() <= s.len() && s.subrange(s.len() - p.len(), s.len() as int) == p
}

/// True when `cs[at..]` starts with `p`.
pub fn starts_with_at(cs: &Vec<char>, at: usize, p: &Vec<char>) -> (r: bool)
    requires
        at <= cs@.len(),
    ensures
        r == has_prefix(cs@.subrange(at as int, cs@.len() as int), p@),
{
    let ghost rest = cs@.subrange(at as int, cs@.len() as int);
    if p.len() > cs.len() - at {
        return false;
    }
    let n = cs.len();
    let mut i: usize = 0;
    while i < p.len()
        invariant
            n == cs@.len(),
            at <= cs@.len(),
            at + p@.len() <= cs@.len(),
            rest == cs@.subrange(at as int, cs@.len() as int),
            i <= p@.len(),
            forall|k: int| 0 <= k < i ==> cs@[at + k] == p@[k],
        decreases p@.len() - i,
    {
        if cs[at + i] != p[i] {
            assert(rest.subrange(0, p@.len() as int)[i as int] != p@[i as int]);
            return false;
        }
        i = i + 1;
    }
    assert(rest.subrange(0, p@.len() as int) =~= p@);
    true
}

/// True when `cs` ends with `p`.
pub fn ends_with(cs: &Vec<char>, p: &Vec<char>) -> (r: bool)
    ensures
        r == has_suffix(cs@, p@),
{
    if p.len() > cs.len() {
        return false;
    }
    let at = cs.len() - p.len();
    let b = starts_with_at(cs, at, p);
    proof {
        let rest = cs@.subrange(at as int, cs@.len() as int);
        assert(rest.subrange(0, p@.len() as int) =~= rest);
    }
    b
}

/// Index of the first occurrence of `c` in `cs`.
pub fn find_char(cs: &Vec<char>, c: char) -> (r: Option<usize>)
    ensures
        match r {
            Some(i) => i < cs@.len() && cs@[i as int] == c && !cs@.subrange(0, i as int).contains(c),
            None => !cs@.contains(c),
        },
{
    let mut i: usize = 0;
    while i < cs.len()
        invariant
            i <= cs@.len(),
            forall|k: int| 0 <= k < i ==> cs@[k] != c,
        decreases cs@.len() - i,
    {
        if cs[i] == c {
            proof {
                assert forall|k: int| 0 <= k < i implies cs@.subrange(0, i as int)[k] != c by {}
            }
            return Some(i);
        }
        i = i + 1;
    }
    None
}

/// Index of the last occurrence of `c` in `cs`.
pub fn rfind_char(cs: &Vec<char>, c: char) -> (r: Option<usize>)
    ensures
        match r {
            Some(i) => i < cs@.len() && cs@[i as int] == c && !cs@.subrange(
                i + 1,
                cs@.len() as int,
            ).contains(c),
            None => !cs@.contains(c),
        },
{
    let mut j: usize = cs.len();
    while j > 0
        invariant
            j <= cs@.len(),
            forall|k: int| j <= k < cs@.len() ==> cs@[k] != c,
        decreases j,
    {
        if cs[j - 1] == c {
            proof {
                let rest = cs@.subrange(j as int, cs@.len() as int);
                assert forall|k: int| 0 <= k < rest.len() implies rest[k] != c by {
                    assert(rest[k] == cs@[k + j]);
                }
            }
            return Some(j - 1);
        }
        j = j - 1;
    }
    None
}

/// True when `c` occurs in `cs`.
pub fn contains_char(cs: &Vec<char>, c: char) -> (r: bool)
    ensures
        r == cs@.contains(c),
{
    match find_char(cs, c) {
        Some(_) => true,
        None => false,
    }
}


pub open spec fn ascii_upper_char(c: char) -> char {
    if 'a' <= c && c <= 'z' {
        ((c as int) - 32) as char
    } else {
        c
    }
}

pub open spec fn ascii_lower_char(c: char) -> char {
    if 'A' <= c && c <= 'Z' {
        ((c as int) + 32) as char
    } else {
        c
    }
}

pub open spec fn ascii_upper(s: Seq<char>) -> Seq<char> {
    Seq::new(s.len(), |i: int| ascii_upper_char(s[i]))
}

pub open spec fn ascii_lower(s: Seq<char>) -> Seq<char> {
    Seq::new(s.len(), |i: int| ascii_lower_char(s[i]))
}

/// What `str::to_uppercase` returns for a text that holds a character
/// outside ASCII (full Unicode case mapping).
pub uninterp spec fn unicode_upper(s: Seq<char>) -> Seq<char>;

/// What `str::to_lowercase` returns for a text that holds a character
/// outside ASCII (full Unicode case mapping).
pub uninterp spec fn unicode_lower(s: Seq<char>) -> Seq<char>;

/// The upper-case form of a text: on ASCII text the ASCII mapping, otherwise
/// the Unicode mapping.
pub open spec fn upper_text(s: Seq<char>) -> Seq<char> {
    if is_ascii_chars(s) {
        ascii_upper(s)
    } else {
        unicode_upper(s)
    }
}

/// The lower-case form of a text: on ASCII text the ASCII mapping, otherwise
/// the Unicode mapping.
pub open spec fn lower_text(s: Seq<char>) -> Seq<char> {
    if is_ascii_chars(s) {
        ascii_lower(s)
    } else {
        unicode_lower(s)
    }
}

/// `str::to_uppercase`. Trusted: on ASCII input the result is the ASCII
/// upper-case mapping (Unicode maps `a`..`z` to `A`..`Z` and leaves every other
/// ASCII character alone); on other input it is `unicode_upper` of the input.
#[verifier::external_body]
pub(crate) fn to_upper(s: &str) -> (r: String)
    ensures
        is_ascii_chars(s@) ==> r@ == ascii_upper(s@),
        !is_ascii_chars(s@) ==> r@ == unicode_upper(s@),
{
    s.to_uppercase()
}

/// `str::to_lowercase`. Trusted: on ASCII input the result is the ASCII
/// lower-case mapping; on other input it is `unicode_lower` of the input.
#[verifier::external_body]
pub(crate) fn to_lower(s: &str) -> (r: String)
    ensures
        is_ascii_chars(s@) ==> r@ == ascii_lower(s@),
        !is_ascii_chars(s@) ==> r@ == unicode_lower(s@),
{
    s.to_lowercase()
}

/// The text that `value.trim().to_uppercase()` gives.
pub open spec fn upper_trimmed(s: Seq<char>) -> Seq<char> {
    upper_text(trimmed(s))
}

/// The text that `value.trim().to_lowercase()` gives.
pub open spec fn lower_trimmed(s: Seq<char>) -> Seq<char> {
    lower_text(trimmed(s))
}

/// `value.trim().to_uppercase()`.
pub fn trim_upper(s: &str) -> (r: String)
    ensures
        r@ == upper_trimmed(s@),
{
    let t = trim(s);
    to_upper(t.as_str())
}

/// `value.trim().to_lowercase()`.
pub fn trim_lower(s: &str) -> (r: String)
    ensures
        r@ == lower_trimmed(s@),
{
    let t = trim(s);
    to_lower(t.as_str())
}

/// `str::eq_ignore_ascii_case`.
pub open spec fn eq_ascii_ci(a: Seq<char>, b: Seq<char>) -> bool {
    a.len() == b.len() && forall|i: int|
        0 <= i < a.len() ==> ascii_lower_char(#[trigger] a[i]) == ascii_lower_char(b[i])
}

pub fn lower_ascii_char(c: char) -> (r: char)
    ensures
        r == ascii_lower_char(c),
{
    if 'A' <= c && c <= 'Z' {
        let b: u8 = c as u8;
        (b + 32) as char
    } else {
        c
    }
}

/// `a.eq_ignore_ascii_case(b)`.
pub fn eq_ignore_ascii_case(a: &str, b: &str) -> (r: bool)
    ensures
        r == eq_ascii_ci(a@, b@),
{
    let ca = chars_of(a);
    let cb = chars_of(b);
    if ca.len() != cb.len() {
        return false;
    }
    let mut i: usize = 0;
    while i < ca.len()
        invariant
            ca@ == a@,
            cb@ == b@,
            ca@.len() == cb@.len(),
            i <= ca@.len(),
            forall|k: int| 0 <= k < i ==> ascii_lower_char(#[trigger] ca@[k]) == ascii_lower_char(
                cb@[k],
            ),
        decreases ca@.len() - i,
    {
        if lower_ascii_char(ca[i]) != lower_ascii_char(cb[i]) {
            return false;
        }
        i = i + 1;
    }
    true
}

/// `value.trim().eq_ignore_ascii_case(other)`.
pub fn trim_eq_ignore_ascii_case(a: &str, b: &str) -> (r: bool)
    ensures
        r == eq_ascii_ci(trimmed(a@), b@),
{
    let t = trim(a);
    eq_ignore_ascii_case(t.as_str(), b)
}


pub open spec fn digit_char(d: int) -> char {
    if d == 0 {
        '0'
    } else if d == 1 {
        '1'
    } else if d == 2 {
        '2'
    } else if d == 3 {
        '3'
    } else if d == 4 {
        '4'
    } else if d == 5 {
        '5'
    } else if d == 6 {
        '6'
    } else if d == 7 {
        '7'
    } else if d == 8 {
        '8'
    } else {
        '9'
    }
}

/// Decimal notation of a natural number, as `format!("{}", n)` writes it.
pub open spec fn decimal(n: nat) -> Seq<char>
    decreases n,
{
    if n < 10 {
        seq![digit_char(n as int)]
    } else {
        decimal(n / 10).push(digit_char((n % 10) as int))
    }
}

/// Decimal notation of an integer, with a leading `-` when it is negative.
pub open spec fn signed_decimal(n: int) -> Seq<char> {
    if n < 0 {
        seq!['-'] + decimal((-n) as nat)
    } else {
        decimal(n as nat)
    }
}

fn digit_of(d: u64) -> (r: char)
    requires
        d < 10,
    ensures
        r == digit_char(d as int),
{
    if d == 0 {
        '0'
    } else if d == 1 {
        '1'
    } else if d == 2 {
        '2'
    } else if d == 3 {
        '3'
    } else if d == 4 {
        '4'
    } else if d == 5 {
        '5'
    } else if d == 6 {
        '6'
    } else if d == 7 {
        '7'
    } else if d == 8 {
        '8'
    } else {
        '9'
    }
}

/// `n.to_string()` for an unsigned integer.
pub fn u64_to_string(n: u64) -> (r: String)
    ensures
        r@ == decimal(n as nat),
    decreases n,
{
    if n < 10 {
        let mut s = String::new();
        push_char(&mut s, digit_of(n));
        assert(s@ =~= seq![digit_char(n as int)]);
        s
    } else {
        let mut s = u64_to_string(n / 10);
        push_char(&mut s, digit_of(n % 10));
        s
    }
}

/// `n.to_string()` for a signed integer.
pub fn i64_to_string(n: i64) -> (r: String)
    ensures
        r@ == signed_decimal(n as int),
{
    if n < 0 {
        let m: u64 = if n == i64::MIN {
            9223372036854775808u64
        } else {
            (-n) as u64
        };
        let mut s = String::new();
        push_char(&mut s, '-');
        let d = u64_to_string(m);
        s.append(d.as_str());
        assert(s@ =~= seq!['-'] + decimal((-(n as int)) as nat));
        s
    } else {
        u64_to_string(n as u64)
    }
}

/// The views of a list of strings.
pub open spec fn texts(v: Seq<String>) -> Seq<Seq<char>> {
    Seq::new(v.len(), |i: int| v[i]@)
}

/// `parts.join(sep)`.
pub open spec fn join_with(parts: Seq<Seq<char>>, sep: Seq<char>) -> Seq<char>
    decreases parts.len(),
{
    if parts.len() == 0 {
        Seq::empty()
    } else if parts.len() == 1 {
        parts[0]
    } else {
        join_with(parts.drop_last(), sep) + sep + parts.last()
    }
}

/// `parts.join(sep)`.
pub fn join(parts: &Vec<String>, sep: &str) -> (r: String)
    ensures
        r@ == join_with(texts(parts@), sep@),
{
    let ghost all = texts(parts@);
    let mut out = String::new();
    let mut i: usize = 0;
    while i < parts.len()
        invariant
            all == texts(parts@),
            i <= parts@.len(),
            out@ == join_with(all.take(i as int), sep@),
        decreases parts@.len() - i,
    {
        if i > 0 {
            out.append(sep);
        }
        out.append(parts[i].as_str());
        proof {
            let t = all.take(i + 1);
            assert(t.drop_last() =~= all.take(i as int));
            if i == 0 {
                assert(all.take(0) =~= Seq::<Seq<char>>::empty());
            }
        }
        i = i + 1;
    }
    assert(all.take(parts@.len() as int) =~= all);
    out
}

/// `s.replace(c, with)`.
pub open spec fn replace_char(s: Seq<char>, c: char, with: Seq<char>) -> Seq<char>
    decreases s.len(),
{
    if s.len() == 0 {
        Seq::empty()
    } else {
        replace_char(s.drop_last(), c, with) + (if s.last() == c {
            with
        } else {
            seq![s.last()]
        })
    }
}

/// `s.replace(c, with)`.
pub fn replace_char_with(s: &str, c: char, with: &str) -> (r: String)
    ensures
        r@ == replace_char(s@, c, with@),
{
    let cs = chars_of(s);
    let mut out = String::new();
    let mut i: usize = 0;
    while i < cs.len()
        invariant
            cs@ == s@,
            i <= cs@.len(),
            out@ == replace_char(cs@.take(i as int), c, with@),
        decreases cs@.len() - i,
    {
        if cs[i] == c {
            out.append(with);
        } else {
            push_char(&mut out, cs[i]);
        }
        proof {
            assert(cs@.take(i + 1).drop_last() =~= cs@.take(i as int));
        }
        i = i + 1;
    }
    assert(cs@.take(cs@.len() as int) =~= cs@);
    out
}

pub open spec fn is_csv_sep(c: char) -> bool {
    c == ',' || c == '\n' || c == '\r'
}

/// The pieces of `s` between separators (`str::split`): `n` separators give
/// `n + 1` pieces.
pub open spec fn csv_pieces(s: Seq<char>) -> Seq<Seq<char>>
    decreases s.len(),
{
    if s.len() == 0 {
        seq![Seq::empty()]
    } else {
        let p = csv_pieces(s.drop_last());
        if is_csv_sep(s.last()) {
            p.push(Seq::empty())
        } else {
            p.update(p.len() - 1, p.last().push(s.last()))
        }
    }
}

/// The trimmed pieces that are not empty, in order.
pub open spec fn kept_entries(ps: Seq<Seq<char>>) -> Seq<Seq<char>>
    decreases ps.len(),
{
    if ps.len() == 0 {
        Seq::empty()
    } else {
        kept_entries(ps.drop_last()) + (if trimmed(ps.last()).len() > 0 {
            seq![trimmed(ps.last())]
        } else {
            Seq::empty()
        })
    }
}

/// The entries of a text that lists values separated by commas or line breaks.
pub open spec fn csv_entries(s: Seq<char>) -> Seq<Seq<char>> {
    kept_entries(csv_pieces(s))
}

proof fn lemma_csv_pieces_nonempty(s: Seq<char>)
    ensures
        csv_pieces(s).len() >= 1,
    decreases s.len(),
{
    if s.len() > 0 {
        lemma_csv_pieces_nonempty(s.drop_last());
    }
}

proof fn lemma_csv_pieces_no_sep(s: Seq<char>)
    ensures
        forall|k: int, i: int|
            0 <= k < csv_pieces(s).len() && 0 <= i < csv_pieces(s)[k].len() ==> !is_csv_sep(
                #[trigger] csv_pieces(s)[k][i],
            ),
    decreases s.len(),
{
    if s.len() > 0 {
        lemma_csv_pieces_no_sep(s.drop_last());
        lemma_csv_pieces_nonempty(s.drop_last());
        let p = csv_pieces(s.drop_last());
        let q = csv_pieces(s);
        assert forall|k: int, i: int| 0 <= k < q.len() && 0 <= i < q[k].len() implies !is_csv_sep(
            #[trigger] q[k][i],
        ) by {
            if is_csv_sep(s.last()) {
                if k < p.len() {
                    assert(q[k] == p[k]);
                }
            } else if k < p.len() - 1 {
                assert(q[k] == p[k]);
            } else {
                assert(q[k] == p.last().push(s.last()));
                if i < p.last().len() {
                    assert(q[k][i] == p[p.len() - 1][i]);
                }
            }
        }
    }
}

proof fn lemma_trimmed_within(s: Seq<char>)
    ensures
        forall|i: int| 0 <= i < trimmed(s).len() ==> s.contains(#[trigger] trimmed(s)[i]),
{
    let a = lemma_trim_start_shape(s);
    let u = trim_start(s);
    let b = lemma_trim_end_shape(u);
    assert forall|i: int| 0 <= i < trimmed(s).len() implies s.contains(#[trigger] trimmed(s)[i]) by {
        assert(trimmed(s)[i] == u[i]);
        assert(u[i] == s[a + i]);
    }
}

proof fn lemma_kept_entries_clean(ps: Seq<Seq<char>>)
    requires
        forall|k: int, i: int| 0 <= k < ps.len() && 0 <= i < ps[k].len() ==> !is_csv_sep(#[trigger] ps[k][i]),
    ensures
        forall|k: int|
            0 <= k < kept_entries(ps).len() ==> (#[trigger] kept_entries(ps)[k]).len() > 0
                && trimmed(kept_entries(ps)[k]) == kept_entries(ps)[k]
                && forall|i: int| 0 <= i < kept_entries(ps)[k].len() ==> !is_csv_sep(#[trigger] kept_entries(ps)[k][i]),
    decreases ps.len(),
{
    if ps.len() > 0 {
        let q = ps.drop_last();
        assert forall|k: int, i: int| 0 <= k < q.len() && 0 <= i < q[k].len() implies !is_csv_sep(#[trigger] q[k][i]) by {
            assert(q[k] == ps[k]);
        }
        lemma_kept_entries_clean(q);
        let t = trimmed(ps.last());
        lemma_trimmed_idempotent(ps.last());
        lemma_trimmed_within(ps.last());
        let e = kept_entries(ps);
        let p = kept_entries(q);
        assert forall|k: int| 0 <= k < e.len() implies (#[trigger] e[k]).len() > 0 && trimmed(e[k]) == e[k]
            && forall|i: int| 0 <= i < e[k].len() ==> !is_csv_sep(#[trigger] e[k][i]) by {
            if k < p.len() {
                assert(e[k] == p[k]);
            } else {
                assert(e[k] == t);
                assert forall|i: int| 0 <= i < e[k].len() implies !is_csv_sep(#[trigger] e[k][i]) by {
                    assert(ps.last().contains(t[i]));
                    let j = choose|j: int| 0 <= j < ps.last().len() && ps.last()[j] == t[i];
                    assert(ps[ps.len() - 1][j] == t[i]);
                }
            }
        }
    }
}

/// Every entry of a comma or line separated list is non-empty, has no white
/// space around it and holds no separator.
pub proof fn law_csv_entries_clean(s: Seq<char>)
    ensures
        forall|k: int|
            0 <= k < csv_entries(s).len() ==> (#[trigger] csv_entries(s)[k]).len() > 0
                && trimmed(csv_entries(s)[k]) == csv_entries(s)[k]
                && forall|i: int| 0 <= i < csv_entries(s)[k].len() ==> !is_csv_sep(#[trigger] csv_entries(s)[k][i]),
{
    lemma_csv_pieces_no_sep(s);
    lemma_kept_entries_clean(csv_pieces(s));
}

proof fn lemma_csv_pieces_append(s: Seq<char>, t: Seq<char>)
    requires
        forall|i: int| 0 <= i < t.len() ==> !is_csv_sep(#[trigger] t[i]),
    ensures
        csv_pieces(s + t) == csv_pieces(s).update(
            csv_pieces(s).len() - 1,
            csv_pieces(s).last() + t,
        ),
    decreases t.len(),
{
    lemma_csv_pieces_nonempty(s);
    if t.len() == 0 {
        assert(s + t =~= s);
        assert(csv_pieces(s).last() + t =~= csv_pieces(s).last());
        assert(csv_pieces(s).update(csv_pieces(s).len() - 1, csv_pieces(s).last()) =~= csv_pieces(s));
    } else {
        let u = t.drop_last();
        lemma_csv_pieces_append(s, u);
        assert((s + t).drop_last() =~= s + u);
        assert((s + t).last() == t.last());
        assert(!is_csv_sep(t[t.len() - 1]));
        let p = csv_pieces(s + u);
        assert(p.last() =~= csv_pieces(s).last() + u);
        assert(p.last().push(t.last()) =~= csv_pieces(s).last() + t);
        assert(csv_pieces(s + t) =~= csv_pieces(s).update(
            csv_pieces(s).len() - 1,
            csv_pieces(s).last() + t,
        ));
    }
}

proof fn lemma_trim_start_ws_prefix(w: Seq<char>, p: Seq<char>)
    requires
        forall|i: int| 0 <= i < w.len() ==> is_ws(#[trigger] w[i]),
    ensures
        trimmed(w + p) == trimmed(p),
    decreases w.len(),
{
    if w.len() > 0 {
        assert((w + p)[0] == w[0]);
        assert((w + p).drop_first() =~= w.drop_first() + p);
        lemma_trim_start_ws_prefix(w.drop_first(), p);
    } else {
        assert(w + p =~= p);
    }
}

/// A separator between list entries: a comma, then white space that is no
/// line break.
pub open spec fn is_list_separator(sep: Seq<char>) -> bool {
    &&& sep.len() > 0
    &&& sep[0] == ','
    &&& forall|i: int| 1 <= i < sep.len() ==> is_ws(#[trigger] sep[i]) && !is_csv_sep(sep[i])
}

/// A list entry that reads back as itself: not empty, no white space around
/// it, no separator in it.
pub open spec fn is_clean_entry(e: Seq<char>) -> bool {
    &&& e.len() > 0
    &&& trimmed(e) == e
    &&& forall|i: int| 0 <= i < e.len() ==> !is_csv_sep(#[trigger] e[i])
}

proof fn lemma_kept_entries_push(ps: Seq<Seq<char>>, x: Seq<char>)
    ensures
        kept_entries(ps.push(x)) == kept_entries(ps) + (if trimmed(x).len() > 0 {
            seq![trimmed(x)]
        } else {
            Seq::empty()
        }),
{
    assert(ps.push(x).drop_last() =~= ps);
    assert(ps.push(x).last() == x);
}

proof fn lemma_csv_single(p: Seq<char>)
    requires
        is_clean_entry(p),
    ensures
        csv_entries(p) == seq![p],
{
    lemma_csv_pieces_append(Seq::empty(), p);
    assert(Seq::<char>::empty() + p =~= p);
    assert(csv_pieces(Seq::<char>::empty()) == seq![Seq::<char>::empty()]);
    assert(csv_pieces(p) =~= seq![p]);
    lemma_kept_entries_push(Seq::empty(), p);
    assert(Seq::<Seq<char>>::empty().push(p) =~= seq![p]);
    assert(kept_entries(Seq::<Seq<char>>::empty()) == Seq::<Seq<char>>::empty());
    assert(Seq::<Seq<char>>::empty() + seq![p] =~= seq![p]);
}

proof fn lemma_csv_append_entry(j: Seq<char>, sep: Seq<char>, last: Seq<char>)
    requires
        is_list_separator(sep),
        is_clean_entry(last),
    ensures
        csv_entries(j + sep + last) == csv_entries(j).push(last),
{
    let rest = sep.drop_first() + last;
    assert forall|i: int| 0 <= i < rest.len() implies !is_csv_sep(#[trigger] rest[i]) by {
        if i < sep.len() - 1 {
            assert(rest[i] == sep[i + 1]);
        } else {
            assert(rest[i] == last[i - (sep.len() - 1)]);
        }
    }
    assert(j + sep + last =~= j.push(',') + rest);
    lemma_csv_pieces_append(j.push(','), rest);
    assert(j.push(',').drop_last() =~= j);
    assert(j.push(',').last() == ',');
    let pj = csv_pieces(j);
    assert(csv_pieces(j.push(',')) == pj.push(Seq::<char>::empty()));
    assert(Seq::<char>::empty() + rest =~= rest);
    assert(csv_pieces(j + sep + last) =~= pj.push(rest));
    assert forall|i: int| 0 <= i < sep.drop_first().len() implies is_ws(#[trigger] sep.drop_first()[i]) by {
        assert(sep.drop_first()[i] == sep[i + 1]);
    }
    lemma_trim_start_ws_prefix(sep.drop_first(), last);
    lemma_kept_entries_push(pj, rest);
    assert(kept_entries(pj) + seq![last] =~= kept_entries(pj).push(last));
}

/// Entries joined with a list separator (such as `,` or `, `) are read
/// back as the same entries.
pub proof fn law_csv_join_roundtrip(parts: Seq<Seq<char>>, sep: Seq<char>)
    requires
        is_list_separator(sep),
        forall|k: int| 0 <= k < parts.len() ==> is_clean_entry(#[trigger] parts[k]),
    ensures
        csv_entries(join_with(parts, sep)) == parts,
    decreases parts.len(),
{
    if parts.len() == 0 {
        let e = Seq::<char>::empty();
        assert(trimmed(e) == e);
        assert(csv_pieces(e) == seq![e]);
        lemma_kept_entries_push(Seq::empty(), e);
        assert(Seq::<Seq<char>>::empty().push(e) =~= seq![e]);
        assert(csv_entries(join_with(parts, sep)) =~= parts);
    } else if parts.len() == 1 {
        assert(is_clean_entry(parts[0]));
        lemma_csv_single(parts[0]);
        assert(seq![parts[0]] =~= parts);
    } else {
        let q = parts.drop_last();
        assert forall|k: int| 0 <= k < q.len() implies is_clean_entry(#[trigger] q[k]) by {
            assert(q[k] == parts[k]);
        }
        law_csv_join_roundtrip(q, sep);
        assert(is_clean_entry(parts[parts.len() - 1]));
        lemma_csv_append_entry(join_with(q, sep), sep, parts.last());
        assert(q.push(parts.last()) =~= parts);
    }
}

proof fn lemma_digit_char(d: int)
    requires
        0 <= d < 10,
    ensures
        is_digit(digit_char(d)),
        digit_value(digit_char(d)) == d,
{
}

/// The decimal notation of a number is a clean list entry of digits that
/// reads back as the number.
pub proof fn lemma_decimal_reads_back(n: nat)
    ensures
        is_clean_entry(decimal(n)),
        forall|i: int| 0 <= i < decimal(n).len() ==> is_digit(#[trigger] decimal(n)[i]),
        digits_value(decimal(n)) == n,
    decreases n,
{
    let d = decimal(n);
    if n < 10 {
        lemma_digit_char(n as int);
        assert(d.drop_last() =~= Seq::<char>::empty());
        assert(d.last() == digit_char(n as int));
        assert(digits_value(d) == digits_value(d.drop_last()) * 10 + digit_value(d.last()));
    } else {
        lemma_decimal_reads_back(n / 10);
        lemma_digit_char((n % 10) as int);
        assert(d.drop_last() =~= decimal(n / 10));
        assert forall|i: int| 0 <= i < d.len() implies is_digit(#[trigger] d[i]) by {
            if i < d.len() - 1 {
                assert(d[i] == decimal(n / 10)[i]);
            }
        }
        assert(d.last() == digit_char((n % 10) as int));
        assert(digits_value(d) == digits_value(d.drop_last()) * 10 + digit_value(d.last()));
        assert(n == (n / 10) * 10 + n % 10);
    }
    assert forall|i: int| 0 <= i < d.len() implies is_digit(#[trigger] d[i]) by {
        if n < 10 {
        } else if i < d.len() - 1 {
            assert(d[i] == decimal(n / 10)[i]);
        }
    }
    assert(is_digit(d[0]) && is_digit(d.last()));
    assert(!is_ws(d[0]) && !is_ws(d.last()));
    lemma_trimmed_fixed(d);
    assert forall|i: int| 0 <= i < d.len() implies !is_csv_sep(#[trigger] d[i]) by {
        assert(is_digit(d[i]));
    }
}

/// The decimal notation of a number no larger than `max` parses back as
/// the number.
pub proof fn lemma_decimal_parses(n: nat, max: nat)
    requires
        n <= max,
    ensures
        parsed_unsigned(decimal(n), max) == Some(n),
{
    lemma_decimal_reads_back(n);
    assert(is_digit(decimal(n)[0]));
    assert(unsigned_digits(decimal(n)) == decimal(n));
}

/// Splits a text on commas and line breaks, trims every piece and keeps the
/// pieces that are not empty.
pub fn split_lines_csv(value: &str) -> (r: Vec<String>)
    ensures
        texts(r@) == csv_entries(value@),
{
    let cs = chars_of(value);
    let mut out: Vec<String> = Vec::new();
    let mut start: usize = 0;
    let mut i: usize = 0;
    while i < cs.len()
        invariant
            cs@ == value@,
            start <= i <= cs@.len(),
            csv_pieces(cs@.take(i as int)).len() >= 1,
            csv_pieces(cs@.take(i as int)).last() == cs@.subrange(start as int, i as int),
            texts(out@) == kept_entries(csv_pieces(cs@.take(i as int)).drop_last()),
        decreases cs@.len() - i,
    {
        let ghost before = csv_pieces(cs@.take(i as int));
        assert(cs@.take(i + 1).drop_last() =~= cs@.take(i as int));
        assert(cs@.take(i + 1).last() == cs@[i as int]);
        if is_csv_sep_char(cs[i]) {
            let piece = string_from_range(&cs, start, i);
            let t = trim(piece.as_str());
            let ghost old_out = out@;
            if t.as_str().unicode_len() > 0 {
                out.push(t);
            }
            proof {
                let after = csv_pieces(cs@.take(i + 1));
                assert(after == before.push(Seq::empty()));
                assert(after.drop_last() =~= before);
                if trimmed(before.last()).len() > 0 {
                    assert(texts(out@) =~= texts(old_out).push(trimmed(before.last())));
                } else {
                    assert(texts(out@) =~= texts(old_out));
                }
                assert(kept_entries(before) =~= kept_entries(before.drop_last()) + (if trimmed(
                    before.last(),
                ).len() > 0 {
                    seq![trimmed(before.last())]
                } else {
                    Seq::empty()
                }));
                assert(cs@.subrange((i + 1) as int, (i + 1) as int) =~= Seq::<char>::empty());
            }
            start = i + 1;
        } else {
            proof {
                let after = csv_pieces(cs@.take(i + 1));
                assert(after == before.update(before.len() - 1, before.last().push(cs@[i as int])));
                assert(after.drop_last() =~= before.drop_last());
                assert(after.last() =~= cs@.subrange(start as int, (i + 1) as int));
            }
        }
        i = i + 1;
    }
    let piece = string_from_range(&cs, start, i);
    let t = trim(piece.as_str());
    let ghost old_out = out@;
    if t.as_str().unicode_len() > 0 {
        out.push(t);
    }
    proof {
        let all = csv_pieces(cs@.take(i as int));
        assert(cs@.take(i as int) =~= value@);
        if trimmed(all.last()).len() > 0 {
            assert(texts(out@) =~= texts(old_out).push(trimmed(all.last())));
        } else {
            assert(texts(out@) =~= texts(old_out));
        }
        assert(all.drop_last().push(all.last()) =~= all);
    }
    out
}

fn is_csv_sep_char(c: char) -> (r: bool)
    ensures
        r == is_csv_sep(c),
{
    c == ',' || c == '\n' || c == '\r'
}


/// A copy of `cs[lo..hi]`.
pub fn sub_chars(cs: &Vec<char>, lo: usize, hi: usize) -> (r: Vec<char>)
    requires
        lo <= hi <= cs@.len(),
    ensures
        r@ == cs@.subrange(lo as int, hi as int),
{
    let mut out: Vec<char> = Vec::new();
    let mut i = lo;
    while i < hi
        invariant
            lo <= i <= hi <= cs@.len(),
            out@ == cs@.subrange(lo as int, i as int),
        decreases hi - i,
    {
        out.push(cs[i]);
        i = i + 1;
        assert(out@ =~= cs@.subrange(lo as int, i as int));
    }
    out
}

/// The part of `s` before the first `c` (all of `s` when there is none).
pub open spec fn before_first(s: Seq<char>, c: char) -> Seq<char>
    decreases s.len(),
{
    if s.len() == 0 {
        s
    } else if s[0] == c {
        Seq::empty()
    } else {
        seq![s[0]] + before_first(s.drop_first(), c)
    }
}

/// `s.rsplit_once(c)`: the parts before and after the last `c`.
pub open spec fn split_at_last(s: Seq<char>, c: char) -> Option<(Seq<char>, Seq<char>)>
    decreases s.len(),
{
    if s.len() == 0 {
        None
    } else if s.last() == c {
        Some((s.drop_last(), Seq::empty()))
    } else {
        match split_at_last(s.drop_last(), c) {
            Some((a, b)) => Some((a, b.push(s.last()))),
            None => None,
        }
    }
}

/// `s.split_once(c)`: the parts before and after the first `c`.
pub open spec fn split_at_first(s: Seq<char>, c: char) -> Option<(Seq<char>, Seq<char>)>
    decreases s.len(),
{
    if s.len() == 0 {
        None
    } else if s[0] == c {
        Some((Seq::empty(), s.drop_first()))
    } else {
        match split_at_first(s.drop_first(), c) {
            Some((a, b)) => Some((seq![s[0]] + a, b)),
            None => None,
        }
    }
}

pub proof fn lemma_before_first(s: Seq<char>, c: char, i: int)
    requires
        0 <= i <= s.len(),
        forall|k: int| 0 <= k < i ==> #[trigger] s[k] != c,
        i < s.len() ==> s[i] == c,
    ensures
        before_first(s, c) == s.take(i),
        i < s.len() ==> split_at_first(s, c) == Some((s.take(i), s.skip(i + 1))),
        i == s.len() ==> split_at_first(s, c) is None,
    decreases i,
{
    if i == 0 {
        if s.len() == 0 {
            assert(s.take(0) =~= s);
        } else {
            assert(s.take(0) =~= Seq::<char>::empty());
            assert(s.skip(1) =~= s.drop_first());
        }
    } else {
        let t = s.drop_first();
        assert forall|k: int| 0 <= k < i - 1 implies #[trigger] t[k] != c by {
            assert(t[k] == s[k + 1]);
        }
        lemma_before_first(t, c, i - 1);
        assert(seq![s[0]] + t.take(i - 1) =~= s.take(i));
        if i < s.len() {
            assert(t.skip(i) =~= s.skip(i + 1));
        }
    }
}

pub proof fn lemma_split_at_last(s: Seq<char>, c: char, j: int)
    requires
        0 <= j < s.len(),
        s[j] == c,
        forall|k: int| j < k < s.len() ==> #[trigger] s[k] != c,
    ensures
        split_at_last(s, c) == Some((s.take(j), s.skip(j + 1))),
    decreases s.len() - j,
{
    if j == s.len() - 1 {
        assert(s.drop_last() =~= s.take(j));
        assert(s.skip(j + 1) =~= Seq::<char>::empty());
    } else {
        let t = s.drop_last();
        assert forall|k: int| j < k < t.len() implies #[trigger] t[k] != c by {
            assert(t[k] == s[k]);
        }
        lemma_split_at_last(t, c, j);
        assert(t.take(j) =~= s.take(j));
        assert(t.skip(j + 1).push(s.last()) =~= s.skip(j + 1));
    }
}

pub proof fn lemma_split_at_last_none(s: Seq<char>, c: char)
    requires
        !s.contains(c),
    ensures
        split_at_last(s, c) is None,
    decreases s.len(),
{
    if s.len() > 0 {
        assert(s.last() == s[s.len() - 1]);
        let t = s.drop_last();
        assert(!t.contains(c)) by {
            if t.contains(c) {
                let k = choose|k: int| 0 <= k < t.len() && t[k] == c;
                assert(s[k] == c);
            }
        }
        lemma_split_at_last_none(t, c);
    }
}

/// Splits `cs` at its first `c`.
pub fn split_first(cs: &Vec<char>, c: char) -> (r: Option<(Vec<char>, Vec<char>)>)
    ensures
        match r {
            Some((a, b)) => split_at_first(cs@, c) == Some((a@, b@)),
            None => split_at_first(cs@, c) is None,
        },
        before_first(cs@, c) == match r {
            Some((a, _)) => a@,
            None => cs@,
        },
{
    match find_char(cs, c) {
        Some(i) => {
            proof {
                assert forall|k: int| 0 <= k < i implies #[trigger] cs@[k] != c by {
                    if cs@[k] == c {
                        assert(cs@.subrange(0, i as int)[k] == c);
                    }
                }
                lemma_before_first(cs@, c, i as int);
            }
            let n = cs.len();
            assert(i < n);
            let a = sub_chars(cs, 0, i);
            let b = sub_chars(cs, i + 1, n);
            proof {
                assert(a@ =~= cs@.take(i as int));
                assert(b@ =~= cs@.skip(i + 1));
            }
            Some((a, b))
        },
        None => {
            proof {
                assert forall|k: int| 0 <= k < cs@.len() implies #[trigger] cs@[k] != c by {
                    if cs@[k] == c {
                        assert(cs@.contains(c));
                    }
                }
                lemma_before_first(cs@, c, cs@.len() as int);
                assert(cs@.take(cs@.len() as int) =~= cs@);
            }
            None
        },
    }
}

/// Splits `cs` at its last `c`.
pub fn split_last(cs: &Vec<char>, c: char) -> (r: Option<(Vec<char>, Vec<char>)>)
    ensures
        match r {
            Some((a, b)) => split_at_last(cs@, c) == Some((a@, b@)),
            None => split_at_last(cs@, c) is None,
        },
{
    match rfind_char(cs, c) {
        Some(j) => {
            proof {
                assert forall|k: int| j < k < cs@.len() implies #[trigger] cs@[k] != c by {
                    if cs@[k] == c {
                        assert(cs@.subrange(j + 1, cs@.len() as int)[k - j - 1] == c);
                    }
                }
                lemma_split_at_last(cs@, c, j as int);
            }
            let n = cs.len();
            assert(j < n);
            let a = sub_chars(cs, 0, j);
            let b = sub_chars(cs, j + 1, n);
            proof {
                assert(a@ =~= cs@.take(j as int));
                assert(b@ =~= cs@.skip(j + 1));
            }
            Some((a, b))
        },
        None => {
            proof {
                lemma_split_at_last_none(cs@, c);
            }
            None
        },
    }
}

pub open spec fn digit_value(c: char) -> int {
    (c as int) - 48
}

pub open spec fn is_digit(c: char) -> bool {
    '0' <= c && c <= '9'
}

/// The number that a string of decimal digits denotes.
pub open spec fn digits_value(d: Seq<char>) -> nat
    decreases d.len(),
{
    if d.len() == 0 {
        0
    } else {
        (digits_value(d.drop_last()) * 10 + digit_value(d.last())) as nat
    }
}

/// The digits of an unsigned number text, after an optional `+`.
pub open spec fn unsigned_digits(s: Seq<char>) -> Seq<char> {
    if s.len() > 0 && s[0] == '+' {
        s.drop_first()
    } else {
        s
    }
}

/// What parsing `s` as an unsigned integer type whose largest value is `max`
/// gives: an optional `+`, then one or more decimal digits whose value is at
/// most `max`.
pub open spec fn parsed_unsigned(s: Seq<char>, max: nat) -> Option<nat> {
    let d = unsigned_digits(s);
    if d.len() > 0 && (forall|i: int| 0 <= i < d.len() ==> is_digit(#[trigger] d[i]))
        && digits_value(d) <= max {
        Some(digits_value(d))
    } else {
        None
    }
}

/// True when `s.parse::<u16>()` succeeds.
pub open spec fn parses_u16(s: Seq<char>) -> bool {
    parsed_unsigned(s, 65535) is Some
}

/// `s.parse()` into an unsigned type whose largest value is `max`.
pub fn parse_unsigned(s: &Vec<char>, max: u32) -> (r: Option<u32>)
    ensures
        match r {
            Some(v) => parsed_unsigned(s@, max as nat) == Some(v as nat),
            None => parsed_unsigned(s@, max as nat) is None,
        },
{
    let start: usize = if s.len() > 0 && s[0] == '+' {
        1
    } else {
        0
    };
    let ghost d = unsigned_digits(s@);
    assert(d =~= s@.subrange(start as int, s@.len() as int));
    if start >= s.len() {
        return None;
    }
    let mut value: u32 = 0;
    let mut over = false;
    let mut i = start;
    while i < s.len()
        invariant
            d == s@.subrange(start as int, s@.len() as int),
            d == unsigned_digits(s@),
            start <= i <= s@.len(),
            forall|k: int| 0 <= k < i - start ==> is_digit(#[trigger] d[k]),
            over == (digits_value(d.take(i - start)) > max),
            !over ==> value == digits_value(d.take(i - start)),
        decreases s@.len() - i,
    {
        let c = s[i];
        if !('0' <= c && c <= '9') {
            assert(!is_digit(d[i - start]));
            return None;
        }
        proof {
            let t = d.take(i + 1 - start);
            assert(t.drop_last() =~= d.take(i - start));
            assert(t.last() == c);
        }
        if !over {
            let digit: u64 = (c as u64) - 48;
            let next: u64 = (value as u64) * 10 + digit;
            if next > max as u64 {
                over = true;
            } else {
                value = next as u32;
            }
        }
        i = i + 1;
    }
    assert(d.take(d.len() as int) =~= d);
    if over {
        None
    } else {
        Some(value)
    }
}

/// `s.parse()` into an unsigned 64-bit type whose largest value is `max`.
pub fn parse_unsigned_u64(s: &Vec<char>, max: u64) -> (r: Option<u64>)
    ensures
        match r {
            Some(v) => parsed_unsigned(s@, max as nat) == Some(v as nat),
            None => parsed_unsigned(s@, max as nat) is None,
        },
{
    let start: usize = if s.len() > 0 && s[0] == '+' {
        1
    } else {
        0
    };
    let ghost d = unsigned_digits(s@);
    assert(d =~= s@.subrange(start as int, s@.len() as int));
    if start >= s.len() {
        return None;
    }
    let mut value: u64 = 0;
    let mut over = false;
    let mut i = start;
    while i < s.len()
        invariant
            d == s@.subrange(start as int, s@.len() as int),
            d == unsigned_digits(s@),
            start <= i <= s@.len(),
            forall|k: int| 0 <= k < i - start ==> is_digit(#[trigger] d[k]),
            over == (digits_value(d.take(i - start)) > max),
            !over ==> value == digits_value(d.take(i - start)),
        decreases s@.len() - i,
    {
        let c = s[i];
        if !('0' <= c && c <= '9') {
            assert(!is_digit(d[i - start]));
            return None;
        }
        proof {
            let t = d.take(i + 1 - start);
            assert(t.drop_last() =~= d.take(i - start));
            assert(t.last() == c);
        }
        if !over {
            let digit: u128 = (c as u128) - 48;
            let next: u128 = (value as u128) * 10 + digit;
            if next > max as u128 {
                over = true;
            } else {
                value = next as u64;
            }
        }
        i = i + 1;
    }
    assert(d.take(d.len() as int) =~= d);
    if over {
        None
    } else {
        Some(value)
    }
}

/// Whether `s.parse::<u16>()` succeeds.
pub fn parses_as_u16(s: &Vec<char>) -> (r: bool)
    ensures
        r == parses_u16(s@),
{
    match parse_unsigned(s, 65535) {
        Some(_) => true,
        None => false,
    }
}

/// The view of an optional string.
pub open spec fn opt_text(o: Option<String>) -> Option<Seq<char>> {
    match o {
        Some(s) => Some(s@),
        None => None,
    }
}


/// The pieces of `s` between the separators `c` (`str::split`): `n`
/// separators give `n + 1` pieces.
pub open spec fn split_pieces(s: Seq<char>, c: char) -> Seq<Seq<char>>
    decreases s.len(),
{
    if s.len() == 0 {
        seq![Seq::empty()]
    } else {
        let p = split_pieces(s.drop_last(), c);
        if s.last() == c {
            p.push(Seq::empty())
        } else {
            p.update(p.len() - 1, p.last().push(s.last()))
        }
    }
}

proof fn lemma_split_pieces_nonempty(s: Seq<char>, c: char)
    ensures
        split_pieces(s, c).len() >= 1,
    decreases s.len(),
{
    if s.len() > 0 {
        lemma_split_pieces_nonempty(s.drop_last(), c);
    }
}

/// `cs.split(c)`, each piece as its characters.
pub fn split_on(cs: &Vec<char>, c: char) -> (r: Vec<Vec<char>>)
    ensures
        r@.len() == split_pieces(cs@, c).len(),
        forall|k: int| 0 <= k < r@.len() ==> #[trigger] r@[k]@ == split_pieces(cs@, c)[k],
{
    let mut out: Vec<Vec<char>> = Vec::new();
    let mut start: usize = 0;
    let mut i: usize = 0;
    proof {
        lemma_split_pieces_nonempty(cs@.take(0), c);
    }
    while i < cs.len()
        invariant
            start <= i <= cs@.len(),
            split_pieces(cs@.take(i as int), c).len() >= 1,
            split_pieces(cs@.take(i as int), c).last() == cs@.subrange(start as int, i as int),
            out@.len() == split_pieces(cs@.take(i as int), c).len() - 1,
            forall|k: int| 0 <= k < out@.len() ==> #[trigger] out@[k]@ == split_pieces(
                cs@.take(i as int),
                c,
            )[k],
        decreases cs@.len() - i,
    {
        let ghost before = split_pieces(cs@.take(i as int), c);
        assert(cs@.take(i + 1).drop_last() =~= cs@.take(i as int));
        assert(cs@.take(i + 1).last() == cs@[i as int]);
        if cs[i] == c {
            let piece = sub_chars(cs, start, i);
            out.push(piece);
            proof {
                let after = split_pieces(cs@.take(i + 1), c);
                assert(after == before.push(Seq::empty()));
                assert(cs@.subrange((i + 1) as int, (i + 1) as int) =~= Seq::<char>::empty());
                assert forall|k: int| 0 <= k < out@.len() implies #[trigger] out@[k]@ == after[k] by {
                    if k < out@.len() - 1 {
                        assert(after[k] == before[k]);
                    }
                }
            }
            start = i + 1;
        } else {
            proof {
                let after = split_pieces(cs@.take(i + 1), c);
                assert(after == before.update(before.len() - 1, before.last().push(cs@[i as int])));
                assert(after.last() =~= cs@.subrange(start as int, (i + 1) as int));
                assert forall|k: int| 0 <= k < out@.len() implies #[trigger] out@[k]@ == after[k] by {
                    assert(after[k] == before[k]);
                }
            }
        }
        i = i + 1;
    }
    let piece = sub_chars(cs, start, i);
    out.push(piece);
    proof {
        assert(cs@.take(i as int) =~= cs@);
    }
    out
}

/// What `s.parse::<i32>()` gives: an optional sign, then one or more
/// decimal digits whose signed value fits in 32 bits.
pub open spec fn parsed_i32(s: Seq<char>) -> Option<int> {
    if s.len() > 0 && s[0] == '-' {
        let d = s.drop_first();
        if d.len() > 0 && (forall|i: int| 0 <= i < d.len() ==> is_digit(#[trigger] d[i]))
            && digits_value(d) <= 2147483648 {
            Some(-(digits_value(d) as int))
        } else {
            None
        }
    } else {
        match parsed_unsigned(s, 2147483647) {
            Some(v) => Some(v as int),
            None => None,
        }
    }
}

/// `s.parse::<i32>()`.
pub fn parse_i32(s: &Vec<char>) -> (r: Option<i32>)
    ensures
        match r {
            Some(v) => parsed_i32(s@) == Some(v as int),
            None => parsed_i32(s@) is None,
        },
{
    if s.len() > 0 && s[0] == '-' {
        let n = s.len();
        let rest = sub_chars(s, 1, n);
        assert(rest@ =~= s@.drop_first());
        if rest.len() > 0 && rest[0] == '+' {
            assert(!is_digit(rest@[0]));
            return None;
        }
        assert(unsigned_digits(rest@) == rest@);
        match parse_unsigned(&rest, 2147483648) {
            Some(v) => {
                let w: i64 = -(v as i64);
                Some(w as i32)
            },
            None => None,
        }
    } else {
        match parse_unsigned(s, 2147483647) {
            Some(v) => Some(v as i32),
            None => None,
        }
    }
}

} // verus!
