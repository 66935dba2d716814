//! Percent-encoding of URI components, as JavaScript's `encodeURIComponent`
//! does it: every UTF-8 byte outside the unreserved set becomes `%XX`.

use vstd::prelude::*;
use vstd::string::*;
use vstd::utf8::*;
use crate::text::{chars_of, copy_str, push_char};

verus! {

/// The bytes that `encodeURIComponent` leaves as they are.
pub open spec fn uri_unreserved(b: u8) -> bool {
    ||| (65 <= b && b <= 90)
    ||| (97 <= b && b <= 122)
    ||| (48 <= b && b <= 57)
    ||| b == 45
    ||| b == 95
    ||| b == 46
    ||| b == 33
    ||| b == 126
    ||| b == 42
    ||| b == 39
    ||| b == 40
    ||| b == 41
}

/// An upper-case hexadecimal digit.
pub open spec fn hex_digit_upper(d: int) -> char {
    if d < 10 {
        ((48 + d) as u8) as char
    } else {
        ((55 + d) as u8) as char
    }
}

/// The text that stands for one byte.
pub open spec fn escaped_byte(b: u8) -> Seq<char> {
    if uri_unreserved(b) {
        seq![b as char]
    } else {
        seq!['%', hex_digit_upper(b as int / 16), hex_digit_upper(b as int % 16)]
    }
}

/// Percent-encoding of a byte string.
pub open spec fn percent_encoded(bs: Seq<u8>) -> Seq<char>
    decreases bs.len(),
{
    if bs.len() == 0 {
        Seq::empty()
    } else {
        percent_encoded(bs.drop_last()) + escaped_byte(bs.last())
    }
}

/// `encodeURIComponent(s)`: the percent-encoding of the UTF-8 bytes of `s`.
pub open spec fn uri_component(s: Seq<char>) -> Seq<char> {
    percent_encoded(encode_utf8(s))
}

fn hex_upper_of(d: u8) -> (r: char)
    requires
        d < 16,
    ensures
        r == hex_digit_upper(d as int),
{
    if d < 10 {
        (48 + d) as char
    } else {
        (55 + d) as char
    }
}

fn is_unreserved(b: u8) -> (r: bool)
    ensures
        r == uri_unreserved(b),
{
    (65 <= b && b <= 90) || (97 <= b && b <= 122) || (48 <= b && b <= 57) || b == 45 || b == 95
        || b == 46 || b == 33 || b == 126 || b == 42 || b == 39 || b == 40 || b == 41
}

/// JavaScript's `encodeURIComponent`: every UTF-8 byte of `s` but letters,
/// digits and `-_.!~*'()` is written as `%` and two upper-case hex digits.
pub fn encode_uri_component(s: &str) -> (r: String)
    ensures
        r@ == uri_component(s@),
{
    let bytes = s.as_bytes();
    let mut out = String::new();
    let mut i: usize = 0;
    while i < bytes.len()
        invariant
            bytes@ == encode_utf8(s@),
            i <= bytes@.len(),
            out@ == percent_encoded(bytes@.take(i as int)),
        decreases bytes@.len() - i,
    {
        let b = bytes[i];
        if is_unreserved(b) {
            push_char(&mut out, b as char);
        } else {
            push_char(&mut out, '%');
            push_char(&mut out, hex_upper_of(b / 16));
            push_char(&mut out, hex_upper_of(b % 16));
        }
        proof {
            assert(bytes@.take(i + 1).drop_last() =~= bytes@.take(i as int));
            assert(out@ =~= percent_encoded(bytes@.take(i as int)) + escaped_byte(b));
        }
        i = i + 1;
    }
    assert(bytes@.take(bytes@.len() as int) =~= bytes@);
    out
}


/// The value of a hexadecimal digit (either case); -1 for anything else.
pub open spec fn hex_value(c: char) -> int {
    if '0' <= c && c <= '9' {
        (c as int) - 48
    } else if 'a' <= c && c <= 'f' {
        (c as int) - 87
    } else if 'A' <= c && c <= 'F' {
        (c as int) - 55
    } else {
        -1
    }
}

/// The byte of a `%XX` escape at place `k`.
pub open spec fn escape_at(s: Seq<char>, k: int) -> Option<u8> {
    if 0 <= k && k + 2 < s.len() && s[k] == '%' && hex_value(s[k + 1]) >= 0 && hex_value(s[k + 2])
        >= 0 {
        Some((hex_value(s[k + 1]) * 16 + hex_value(s[k + 2])) as u8)
    } else {
        None
    }
}

/// The number of bytes of the UTF-8 encoding that a leading byte starts; 0
/// for a byte that starts none of two bytes or more.
pub open spec fn leading_width(b: u8) -> int {
    if is_leading_byte_width_2(b) {
        2
    } else if is_leading_byte_width_3(b) {
        3
    } else if is_leading_byte_width_4(b) {
        4
    } else {
        0
    }
}

/// The bytes of the first `n` escapes of `s`, each three characters long.
pub open spec fn escaped_bytes(s: Seq<char>, n: int) -> Option<Seq<u8>>
    decreases n,
{
    if n <= 0 {
        Some(Seq::empty())
    } else {
        match escaped_bytes(s, n - 1) {
            Some(bs) => match escape_at(s, 3 * (n - 1)) {
                Some(b) => Some(bs.push(b)),
                None => None,
            },
            None => None,
        }
    }
}

pub open spec fn prefixed(c: char, r: Option<Seq<char>>) -> Option<Seq<char>> {
    match r {
        Some(t) => Some(seq![c] + t),
        None => None,
    }
}

/// `decodeURIComponent(s)`: every `%XX` escape, and every run of escapes
/// that forms the UTF-8 encoding of one character, stands for its character;
/// none when an escape is malformed or the bytes are not valid UTF-8.
pub open spec fn uri_decoded(s: Seq<char>) -> Option<Seq<char>>
    decreases s.len(),
{
    if s.len() == 0 {
        Some(Seq::empty())
    } else if s[0] != '%' {
        prefixed(s[0], uri_decoded(s.drop_first()))
    } else if s.len() < 3 {
        None
    } else {
        match escape_at(s, 0) {
            None => None,
            Some(b) => if b < 0x80 {
                prefixed(b as char, uri_decoded(s.skip(3)))
            } else {
                let n = leading_width(b);
                if n == 0 || 3 * n > s.len() {
                    None
                } else {
                    match escaped_bytes(s, n) {
                        None => None,
                        Some(bs) => if valid_first_scalar(bs) {
                            prefixed(decode_first_scalar(bs) as char, uri_decoded(s.skip(3 * n)))
                        } else {
                            None
                        },
                    }
                }
            },
        }
    }
}

/// `char::from_u32`. Trusted: the character with that code point, none
/// for a surrogate or a value above 0x10FFFF (the documented valid range).
#[verifier::external_body]
fn char_from_u32(v: u32) -> (r: Option<char>)
    ensures
        (v <= 0x10ffff && !(0xd800 <= v && v <= 0xdfff)) ==> r == Some(v as char),
        !(v <= 0x10ffff && !(0xd800 <= v && v <= 0xdfff)) ==> r is None,
{
    char::from_u32(v)
}

fn hex_value_of(c: char) -> (r: i32)
    ensures
        r == hex_value(c),
{
    if '0' <= c && c <= '9' {
        (c as u32 - 48) as i32
    } else if 'a' <= c && c <= 'f' {
        (c as u32 - 87) as i32
    } else if 'A' <= c && c <= 'F' {
        (c as u32 - 55) as i32
    } else {
        -1
    }
}

fn escape_byte(cs: &Vec<char>, k: usize) -> (r: Option<u8>)
    ensures
        r == escape_at(cs@, k as int),
{
    if k < cs.len() && cs.len() - k > 2 && cs[k] == '%' {
        let h = hex_value_of(cs[k + 1]);
        let l = hex_value_of(cs[k + 2]);
        if h >= 0 && l >= 0 {
            return Some((h * 16 + l) as u8);
        }
    }
    None
}

proof fn lemma_escape_skip(s: Seq<char>, k: int, i: int)
    requires
        0 <= k <= s.len(),
        0 <= i,
    ensures
        escape_at(s.skip(k), i) == escape_at(s, k + i),
{
    let t = s.skip(k);
    if i + 2 < t.len() {
        assert(t[i] == s[k + i]);
        assert(t[i + 1] == s[k + i + 1]);
        assert(t[i + 2] == s[k + i + 2]);
    }
}

proof fn lemma_escaped_bytes_skip(s: Seq<char>, k: int, n: int)
    requires
        0 <= k <= s.len(),
        0 <= n,
    ensures
        escaped_bytes(s.skip(k), n) == escaped_bytes_from(s, k, n),
    decreases n,
{
    if n > 0 {
        lemma_escaped_bytes_skip(s, k, n - 1);
        lemma_escape_skip(s, k, 3 * (n - 1));
    }
}

/// The bytes of `n` escapes of `s` from place `k` on.
pub open spec fn escaped_bytes_from(s: Seq<char>, k: int, n: int) -> Option<Seq<u8>>
    decreases n,
{
    if n <= 0 {
        Some(Seq::empty())
    } else {
        match escaped_bytes_from(s, k, n - 1) {
            Some(bs) => match escape_at(s, k + 3 * (n - 1)) {
                Some(b) => Some(bs.push(b)),
                None => None,
            },
            None => None,
        }
    }
}

/// Reads the bytes of `n` escapes from place `k`.
fn read_escapes(cs: &Vec<char>, k: usize, n: usize) -> (r: Option<Vec<u8>>)
    requires
        n <= 4,
    ensures
        match r {
            Some(v) => escaped_bytes_from(cs@, k as int, n as int) == Some(v@),
            None => escaped_bytes_from(cs@, k as int, n as int) is None,
        },
{
    let mut out: Vec<u8> = Vec::new();
    let mut j: usize = 0;
    while j < n
        invariant
            j <= n <= 4,
            escaped_bytes_from(cs@, k as int, j as int) == Some(out@),
        decreases n - j,
    {
        let pos = match k.checked_add(3 * j) {
            Some(p) => p,
            None => {
                proof {
                    assert(cs@.len() == cs.len());
                    assert(escape_at(cs@, k + 3 * j) is None);
                    lemma_escaped_bytes_from_none(cs@, k as int, j as int + 1, n as int);
                }
                return None;
            },
        };
        match escape_byte(cs, pos) {
            Some(b) => {
                out.push(b);
            },
            None => {
                proof {
                    lemma_escaped_bytes_from_none(cs@, k as int, j as int + 1, n as int);
                }
                return None;
            },
        }
        j = j + 1;
    }
    Some(out)
}

proof fn lemma_escaped_bytes_from_none(s: Seq<char>, k: int, m: int, n: int)
    requires
        1 <= m <= n,
        escaped_bytes_from(s, k, m) is None,
    ensures
        escaped_bytes_from(s, k, n) is None,
    decreases n - m,
{
    if m < n {
        lemma_escaped_bytes_from_none(s, k, m + 1, n);
    }
}


proof fn lemma_escaped_bytes_from_shape(s: Seq<char>, k: int, n: int)
    requires
        0 <= n,
    ensures
        match escaped_bytes_from(s, k, n) {
            Some(v) => v.len() == n && forall|j: int|
                0 <= j < n ==> escape_at(s, k + 3 * j) == Some(#[trigger] v[j]),
            None => true,
        },
    decreases n,
{
    if n > 0 {
        lemma_escaped_bytes_from_shape(s, k, n - 1);
    }
}

fn width_of(b: u8) -> (r: usize)
    ensures
        r == leading_width(b),
{
    if 0xc0 <= b && b <= 0xdf {
        2
    } else if 0xe0 <= b && b <= 0xef {
        3
    } else if 0xf0 <= b && b <= 0xf7 {
        4
    } else {
        0
    }
}

/// The character whose UTF-8 encoding `bs` is, when `bs` is one well-formed
/// encoding of a scalar value.
fn first_scalar(bs: &Vec<u8>) -> (r: Option<char>)
    requires
        2 <= bs.len() <= 4,
        leading_width(bs@[0]) == bs.len(),
    ensures
        valid_first_scalar(bs@) ==> r == Some(decode_first_scalar(bs@) as char),
        !valid_first_scalar(bs@) ==> r is None,
{
    let n = bs.len();
    let b0 = bs[0];
    let b1 = bs[1];
    if !(0x80 <= b1 && b1 <= 0xbf) {
        return None;
    }
    let cp: u32;
    if n == 2 {
        cp = (((b0 & 0x1f) as u32) << 6) | ((b1 & 0x3f) as u32);
        assert((((b0 & 0x1f) as u32) << 6) | ((b1 & 0x3f) as u32) <= 0x7ff) by (bit_vector);
        if cp < 0x80 {
            return None;
        }
    } else if n == 3 {
        let b2 = bs[2];
        if !(0x80 <= b2 && b2 <= 0xbf) {
            return None;
        }
        cp = (((b0 & 0x0f) as u32) << 12) | (((b1 & 0x3f) as u32) << 6) | ((b2 & 0x3f) as u32);
        assert((((b0 & 0x0f) as u32) << 12) | (((b1 & 0x3f) as u32) << 6) | ((b2 & 0x3f) as u32)
            <= 0xffff) by (bit_vector);
        if cp < 0x800 || (0xd800 <= cp && cp <= 0xdfff) {
            return None;
        }
    } else {
        let b2 = bs[2];
        let b3 = bs[3];
        if !(0x80 <= b2 && b2 <= 0xbf) || !(0x80 <= b3 && b3 <= 0xbf) {
            return None;
        }
        cp = (((b0 & 0x07) as u32) << 18) | (((b1 & 0x3f) as u32) << 12) | (((b2 & 0x3f) as u32)
            << 6) | ((b3 & 0x3f) as u32);
        if cp < 0x10000 || cp > 0x10ffff {
            return None;
        }
    }
    assert(cp == decode_first_codepoint(bs@));
    char_from_u32(cp)
}

/// What is left to read joined after what was read.
pub open spec fn joined(p: Seq<char>, r: Option<Seq<char>>) -> Option<Seq<char>> {
    match r {
        Some(t) => Some(p + t),
        None => None,
    }
}

/// `decodeURIComponent`: each `%XX` escape of an ASCII byte, and each run of
/// escapes that is the UTF-8 encoding of one character, turned into that
/// character; none where `uri_decoded` finds the text malformed.
/// `js_sys::decode_uri_component` reaches the browser's function through a
/// wasm-bindgen import, and such an import panics on every call outside the
/// browser, so the decoding is written and proved here and runs anywhere.
pub fn decode_uri_component(s: &str) -> (r: Option<String>)
    ensures
        match r {
            Some(t) => uri_decoded(s@) == Some(t@),
            None => uri_decoded(s@) is None,
        },
{
    let cs = chars_of(s);
    let mut out = String::new();
    let mut i: usize = 0;
    proof {
        assert(cs@.skip(0) =~= cs@);
        assert(Seq::<char>::empty() + cs@ =~= cs@);
        assert(out@ =~= Seq::<char>::empty());
    }
    while i < cs.len()
        invariant
            i <= cs.len(),
            cs@ == s@,
            uri_decoded(cs@) == joined(out@, uri_decoded(cs@.skip(i as int))),
        decreases cs.len() - i,
    {
        let ghost t = cs@.skip(i as int);
        let ghost before = out@;
        let c = cs[i];
        assert(t[0] == c);
        if c != '%' {
            push_char(&mut out, c);
            proof {
                assert(t.drop_first() =~= cs@.skip(i + 1));
                match uri_decoded(cs@.skip(i + 1)) {
                    Some(u) => {
                        assert(before + (seq![c] + u) =~= before.push(c) + u);
                    },
                    None => {},
                }
            }
            i = i + 1;
        } else {
            if cs.len() - i < 3 {
                return None;
            }
            proof {
                lemma_escape_skip(cs@, i as int, 0);
            }
            match escape_byte(&cs, i) {
                None => {
                    return None;
                },
                Some(b) => {
                    if b < 0x80 {
                        push_char(&mut out, b as char);
                        proof {
                            assert(t.skip(3) =~= cs@.skip(i + 3));
                            match uri_decoded(cs@.skip(i + 3)) {
                                Some(u) => {
                                    assert(before + (seq![b as char] + u) =~= before.push(
                                        b as char,
                                    ) + u);
                                },
                                None => {},
                            }
                        }
                        i = i + 3;
                    } else {
                        let n = width_of(b);
                        if n == 0 || n > (cs.len() - i) / 3 {
                            return None;
                        }
                        proof {
                            lemma_escaped_bytes_skip(cs@, i as int, n as int);
                            lemma_escaped_bytes_from_shape(cs@, i as int, n as int);
                        }
                        match read_escapes(&cs, i, n) {
                            None => {
                                return None;
                            },
                            Some(bs) => {
                                assert(bs@[0] == b);
                                match first_scalar(&bs) {
                                    None => {
                                        return None;
                                    },
                                    Some(ch) => {
                                        push_char(&mut out, ch);
                                        proof {
                                            assert(t.skip(3 * n) =~= cs@.skip(i + 3 * n));
                                            match uri_decoded(cs@.skip(i + 3 * n)) {
                                                Some(u) => {
                                                    assert(before + (seq![ch] + u)
                                                        =~= before.push(ch) + u);
                                                },
                                                None => {},
                                            }
                                        }
                                        i = i + 3 * n;
                                    },
                                }
                            },
                        }
                    }
                },
            }
        }
    }
    proof {
        assert(cs@.skip(cs.len() as int) =~= Seq::<char>::empty());
        assert(out@ + Seq::<char>::empty() =~= out@);
    }
    Some(out)
}

/// The decoded text of a link component, or the component as it stands
/// where it does not decode.
pub fn decode_link_component(value: &str) -> (r: String)
    ensures
        r@ == match uri_decoded(value@) {
            Some(t) => t,
            None => value@,
        },
{
    match decode_uri_component(value) {
        Some(t) => t,
        None => copy_str(value),
    }
}


proof fn lemma_percent_concat(a: Seq<u8>, b: Seq<u8>)
    ensures
        percent_encoded(a + b) == percent_encoded(a) + percent_encoded(b),
    decreases b.len(),
{
    if b.len() == 0 {
        assert(a + b =~= a);
        assert(percent_encoded(a) + percent_encoded(b) =~= percent_encoded(a));
    } else {
        lemma_percent_concat(a, b.drop_last());
        assert((a + b).drop_last() =~= a + b.drop_last());
        assert((a + b).last() == b.last());
        assert(percent_encoded(a + b) =~= percent_encoded(a) + percent_encoded(b));
    }
}

proof fn lemma_hex_roundtrip(d: int)
    requires
        0 <= d < 16,
    ensures
        hex_value(hex_digit_upper(d)) == d,
{
    if d < 10 {
        assert(((48 + d) as u8) as char as int == 48 + d);
    } else {
        assert(((55 + d) as u8) as char as int == 55 + d);
    }
}

proof fn lemma_escape_concat(a: Seq<char>, b: Seq<char>, k: int)
    requires
        0 <= k,
        k + 2 < a.len(),
    ensures
        escape_at(a + b, k) == escape_at(a, k),
{
    assert((a + b)[k] == a[k]);
    assert((a + b)[k + 1] == a[k + 1]);
    assert((a + b)[k + 2] == a[k + 2]);
}

proof fn lemma_escapes(e: Seq<u8>)
    requires
        forall|j: int| 0 <= j < e.len() ==> !uri_unreserved(#[trigger] e[j]),
    ensures
        percent_encoded(e).len() == 3 * e.len(),
        forall|j: int| 0 <= j < e.len() ==> escape_at(percent_encoded(e), 3 * j) == Some(#[trigger] e[j]),
    decreases e.len(),
{
    if e.len() > 0 {
        let p = e.drop_last();
        let x = e.last();
        assert forall|j: int| 0 <= j < p.len() implies !uri_unreserved(#[trigger] p[j]) by {
            assert(p[j] == e[j]);
        }
        lemma_escapes(p);
        let q = percent_encoded(p);
        let t = escaped_byte(x);
        assert(!uri_unreserved(e[e.len() - 1]));
        assert(t == seq!['%', hex_digit_upper(x as int / 16), hex_digit_upper(x as int % 16)]);
        let pe = percent_encoded(e);
        assert(pe == q + t);
        lemma_hex_roundtrip(x as int / 16);
        lemma_hex_roundtrip(x as int % 16);
        assert forall|j: int| 0 <= j < e.len() implies escape_at(pe, 3 * j) == Some(#[trigger] e[j]) by {
            if j < p.len() {
                lemma_escape_concat(q, t, 3 * j);
                assert(e[j] == p[j]);
            } else {
                assert(pe[3 * j] == '%');
                assert(pe[3 * j + 1] == hex_digit_upper(x as int / 16));
                assert(pe[3 * j + 2] == hex_digit_upper(x as int % 16));
                assert((x as int / 16) * 16 + x as int % 16 == x as int);
            }
        }
    }
}

proof fn lemma_escaped_bytes_prefix(x: Seq<char>, y: Seq<char>, e: Seq<u8>, m: int)
    requires
        x.len() == 3 * e.len(),
        forall|j: int| 0 <= j < e.len() ==> escape_at(x, 3 * j) == Some(#[trigger] e[j]),
        0 <= m <= e.len(),
    ensures
        escaped_bytes(x + y, m) == Some(e.take(m)),
    decreases m,
{
    if m > 0 {
        lemma_escaped_bytes_prefix(x, y, e, m - 1);
        assert(escape_at(x, 3 * (m - 1)) == Some(e[m - 1]));
        lemma_escape_concat(x, y, 3 * (m - 1));
        assert(e.take(m - 1).push(e[m - 1]) =~= e.take(m));
    } else {
        assert(e.take(0) =~= Seq::<u8>::empty());
    }
}

proof fn lemma_decode_one(c: char, y: Seq<char>)
    ensures
        uri_decoded(uri_component(seq![c]) + y) == prefixed(c, uri_decoded(y)),
{
    let one = seq![c];
    let e = encode_utf8(one);
    assert(one.drop_first() =~= Seq::<char>::empty());
    assert(one[0] == c);
    assert(encode_utf8(Seq::<char>::empty()) =~= Seq::<u8>::empty());
    assert(encode_utf8(one) == encode_scalar(c as u32) + encode_utf8(one.drop_first()));
    assert(e =~= encode_scalar(c as u32));
    encode_utf8_first_scalar(one);
    let x = percent_encoded(e);
    let s = x + y;
    let n = e.len() as int;
    assert(valid_leading_and_continuation_bytes_first_codepoint(e));
    if n == 1 {
        let b = e[0];
        assert(is_leading_byte_width_1(b));
        assert(b <= 0x7f ==> (b & 0x7f) == b) by (bit_vector);
        assert(decode_first_scalar(e) == b as u32);
        assert(c as u32 == b as u32);
        assert(b as char == c);
        assert(e.drop_last() =~= Seq::<u8>::empty());
        assert(e.last() == b);
        assert(percent_encoded(Seq::<u8>::empty()) == Seq::<char>::empty());
        assert(x == percent_encoded(e.drop_last()) + escaped_byte(e.last()));
        assert(x =~= escaped_byte(b));
        if uri_unreserved(b) {
            assert(x =~= seq![b as char]);
            assert(s[0] == c);
            assert(c != '%');
            assert(s.drop_first() =~= y);
        } else {
            lemma_escapes(e);
            lemma_escape_concat(x, y, 0);
            assert(s[0] == '%');
            assert(s.skip(3) =~= y);
        }
    } else {
        assert(2 <= n <= 4);
        assert(forall|j: int| 0 <= j < n ==> #[trigger] e[j] >= 0x80);
        assert forall|j: int| 0 <= j < n implies !uri_unreserved(#[trigger] e[j]) by {
            assert(e[j] >= 0x80);
        }
        lemma_escapes(e);
        assert(escape_at(x, 0) == Some(e[0]));
        assert(x[0] == '%');
        assert(s[0] == '%');
        lemma_escape_concat(x, y, 0);
        assert(escape_at(s, 0) == Some(e[0]));
        assert(leading_width(e[0]) == n);
        lemma_escaped_bytes_prefix(x, y, e, n);
        assert(e.take(n as int) =~= e);
        char_u32_cast(c, decode_first_scalar(e));
        assert(s.skip(3 * n) =~= y);
    }
}

/// Decoding what `encodeURIComponent` wrote gives the text back.
pub proof fn law_uri_component_roundtrip(s: Seq<char>)
    ensures
        uri_decoded(uri_component(s)) == Some(s),
    decreases s.len(),
{
    if s.len() == 0 {
        assert(encode_utf8(s) =~= Seq::<u8>::empty());
        assert(uri_component(s) =~= Seq::<char>::empty());
        assert(s =~= Seq::<char>::empty());
    } else {
        let c = s[0];
        let rest = s.drop_first();
        let one = seq![c];
        assert(one.drop_first() =~= Seq::<char>::empty());
        assert(one[0] == c);
        assert(encode_utf8(Seq::<char>::empty()) =~= Seq::<u8>::empty());
        assert(encode_utf8(one) == encode_scalar(c as u32) + encode_utf8(one.drop_first()));
        assert(encode_utf8(one) =~= encode_scalar(c as u32));
        assert(encode_utf8(s) =~= encode_utf8(one) + encode_utf8(rest));
        lemma_percent_concat(encode_utf8(one), encode_utf8(rest));
        lemma_decode_one(c, uri_component(rest));
        law_uri_component_roundtrip(rest);
        assert(seq![c] + rest =~= s);
    }
}

} // verus!
