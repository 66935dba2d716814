//! Random material for new inbounds: REALITY key pairs and short ids, and
//! the text forms they are written in.

use vstd::prelude::*;
use vstd::string::*;
use base64::Engine;
use vstd::utf8::is_ascii_chars;
use crate::config_build::{short_id_ok, short_ids_of};
use crate::text::{
    ascii_lower, csv_entries, csv_pieces, is_csv_sep, is_ws, kept_entries, lemma_trimmed_fixed,
    lower_text, push_char, trimmed,
};

verus! {

/// The character of a 6-bit value in the URL-safe base64 alphabet.
pub open spec fn b64_char(v: int) -> char {
    if v < 26 {
        ((65 + v) as u8) as char
    } else if v < 52 {
        ((71 + v) as u8) as char
    } else if v < 62 {
        ((v - 4) as u8) as char
    } else if v == 62 {
        '-'
    } else {
        '_'
    }
}

/// URL-safe base64 without padding (RFC 4648, section 5): every three bytes
/// become four characters, a last one or two bytes two or three.
pub open spec fn b64url(b: Seq<u8>) -> Seq<char>
    decreases b.len(),
{
    if b.len() == 0 {
        Seq::empty()
    } else if b.len() == 1 {
        let b0 = b[0] as int;
        seq![b64_char(b0 / 4), b64_char((b0 % 4) * 16)]
    } else if b.len() == 2 {
        let b0 = b[0] as int;
        let b1 = b[1] as int;
        seq![b64_char(b0 / 4), b64_char((b0 % 4) * 16 + b1 / 16), b64_char((b1 % 16) * 4)]
    } else {
        let b0 = b[0] as int;
        let b1 = b[1] as int;
        let b2 = b[2] as int;
        seq![
            b64_char(b0 / 4),
            b64_char((b0 % 4) * 16 + b1 / 16),
            b64_char((b1 % 16) * 4 + b2 / 64),
            b64_char(b2 % 64),
        ] + b64url(b.skip(3))
    }
}

/// The x25519 public key of a secret key: the clamped secret times the base
/// point, as 32 bytes.
pub uninterp spec fn x25519_public(secret: Seq<u8>) -> Seq<u8>;

/// `Engine::encode` of base64's `URL_SAFE_NO_PAD` engine. Trusted: the
/// crate encodes with the URL-safe alphabet and no padding, which
/// `b64url` states.
#[verifier::external_body]
fn encode_b64url(bytes: &[u8]) -> (r: String)
    requires
        bytes@.len() <= usize::MAX / 2,
    ensures
        r@ == b64url(bytes@),
{
    base64::engine::general_purpose::URL_SAFE_NO_PAD.encode(bytes)
}

/// `PublicKey::from(&StaticSecret::from(secret))` of x25519-dalek, taken as
/// bytes. Trusted: the result is named `x25519_public` of the secret; the
/// crate's `as_bytes` gives 32 bytes.
#[verifier::external_body]
fn x25519_public_key(secret: [u8; 32]) -> (r: [u8; 32])
    ensures
        r@ == x25519_public(secret@),
{
    let s = x25519_dalek::StaticSecret::from(secret);
    *x25519_dalek::PublicKey::from(&s).as_bytes()
}

/// `getrandom::getrandom` on a buffer of `n` bytes. Trusted: on success the
/// buffer is filled, so `n` bytes come back; what they are is chance. An
/// empty buffer always succeeds (`getrandom_uninit` asks the system for
/// nothing when the buffer is empty); whether a longer one does is the
/// system's.
#[verifier::external_body]
pub(crate) fn random_bytes(n: usize) -> (r: Option<Vec<u8>>)
    ensures
        r matches Some(v) ==> v@.len() == n,
        n == 0 ==> r is Some,
{
    let mut buf = vec![0u8; n];
    match getrandom::getrandom(&mut buf) {
        Ok(()) => Some(buf),
        Err(_) => None,
    }
}

/// The 32 bytes of a buffer, as a secret key.
fn secret_of(v: &Vec<u8>) -> (r: [u8; 32])
    requires
        v@.len() == 32,
    ensures
        r@ == v@,
{
    let mut a = [0u8; 32];
    let mut i: usize = 0;
    while i < 32
        invariant
            i <= 32,
            v@.len() == 32,
            a@.len() == 32,
            forall|k: int| 0 <= k < i ==> a@[k] == v@[k],
        decreases 32 - i,
    {
        a[i] = v[i];
        i = i + 1;
    }
    assert(a@ =~= v@);
    a
}

/// The REALITY key pair of a secret key: the secret and its x25519 public
/// key, each in URL-safe base64 without padding.
pub fn reality_keypair_from(secret: [u8; 32]) -> (r: (String, String))
    ensures
        r.0@ == b64url(secret@),
        r.1@ == b64url(x25519_public(secret@)),
{
    let public = x25519_public_key(secret);
    (encode_b64url(&secret), encode_b64url(&public))
}

/// A new REALITY key pair from 32 random bytes (see
/// `reality_keypair_from`); two empty texts when no random bytes can be had.
pub fn generate_reality_keypair() -> (r: (String, String))
    ensures
        (r.0@.len() == 0 && r.1@.len() == 0) || exists|s: Seq<u8>|
            s.len() == 32 && r.0@ == b64url(s) && r.1@ == b64url(x25519_public(s)),
{
    match random_bytes(32) {
        Some(bytes) => {
            let secret = secret_of(&bytes);
            let r = reality_keypair_from(secret);
            assert(secret@.len() == 32);
            r
        },
        None => (String::new(), String::new()),
    }
}

/// The lower-case hexadecimal digit of a value below 16.
pub open spec fn hex_lower(d: int) -> char {
    if d < 10 {
        ((48 + d) as u8) as char
    } else {
        ((87 + d) as u8) as char
    }
}

/// Bytes in lower-case hexadecimal, two digits each.
pub open spec fn hex_text(b: Seq<u8>) -> Seq<char>
    decreases b.len(),
{
    if b.len() == 0 {
        Seq::empty()
    } else {
        hex_text(b.drop_last()) + seq![hex_lower(b.last() as int / 16), hex_lower(b.last() as int % 16)]
    }
}

fn hex_digit(d: u8) -> (c: char)
    requires
        d < 16,
    ensures
        c == hex_lower(d as int),
{
    if d < 10 {
        (48 + d) as char
    } else {
        (87 + d) as char
    }
}

/// Bytes in lower-case hexadecimal, two digits each.
pub fn hex_encode(bytes: &[u8]) -> (r: String)
    ensures
        r@ == hex_text(bytes@),
{
    let mut out = String::new();
    let mut i: usize = 0;
    while i < bytes.len()
        invariant
            i <= bytes@.len(),
            out@ == hex_text(bytes@.take(i as int)),
        decreases bytes@.len() - i,
    {
        let b = bytes[i];
        push_char(&mut out, hex_digit(b / 16));
        push_char(&mut out, hex_digit(b % 16));
        proof {
            assert(bytes@.take(i + 1).drop_last() =~= bytes@.take(i as int));
            assert(bytes@.take(i + 1).last() == b);
        }
        i = i + 1;
    }
    assert(bytes@.take(bytes@.len() as int) =~= bytes@);
    out
}

/// `bytes` random bytes in lower-case hexadecimal; none when no random
/// bytes can be had. No bytes are always had, and give the empty text.
pub fn random_hex(bytes: usize) -> (r: Option<String>)
    ensures
        r matches Some(t) ==> exists|b: Seq<u8>| b.len() == bytes && t@ == hex_text(b),
        bytes == 0 ==> (r matches Some(t) && t@.len() == 0),
{
    match random_bytes(bytes) {
        Some(v) => Some(hex_encode(v.as_slice())),
        None => None,
    }
}

/// A new REALITY short id: 8 random bytes in hexadecimal.
pub fn generate_reality_short_id() -> (r: Option<String>)
    ensures
        r matches Some(t) ==> exists|b: Seq<u8>| b.len() == 8 && t@ == hex_text(b),
{
    random_hex(8)
}


/// Byte `i` is written at places `2i` (high digit) and `2i + 1` (low digit).
pub proof fn lemma_hex_text_digits(b: Seq<u8>)
    ensures
        hex_text(b).len() == 2 * b.len(),
        forall|i: int|
            0 <= i < b.len() ==> #[trigger] hex_text(b)[2 * i] == hex_lower(b[i] as int / 16)
                && hex_text(b)[2 * i + 1] == hex_lower(b[i] as int % 16),
    decreases b.len(),
{
    if b.len() > 0 {
        let q = b.drop_last();
        lemma_hex_text_digits(q);
        let p = hex_text(q);
        let h = hex_text(b);
        assert forall|i: int| 0 <= i < b.len() implies #[trigger] hex_text(b)[2 * i] == hex_lower(
            b[i] as int / 16,
        ) && hex_text(b)[2 * i + 1] == hex_lower(b[i] as int % 16) by {
            if i < q.len() {
                assert(h[2 * i] == p[2 * i]);
                assert(h[2 * i + 1] == p[2 * i + 1]);
                assert(q[i] == b[i]);
            } else {
                assert(i == b.len() - 1);
                assert(b.last() == b[i]);
            }
        }
    }
}

pub(crate) proof fn lemma_hex_text_shape(b: Seq<u8>)
    ensures
        hex_text(b).len() == 2 * b.len(),
        forall|i: int|
            0 <= i < hex_text(b).len() ==> ('0' <= #[trigger] hex_text(b)[i] <= '9') || ('a'
                <= hex_text(b)[i] <= 'f'),
    decreases b.len(),
{
    if b.len() > 0 {
        lemma_hex_text_shape(b.drop_last());
        let p = hex_text(b.drop_last());
        let h = hex_text(b);
        let x = b.last() as int;
        assert forall|i: int| 0 <= i < h.len() implies ('0' <= #[trigger] h[i] <= '9') || ('a'
            <= h[i] <= 'f') by {
            if i < p.len() {
                assert(h[i] == p[i]);
            } else if i == p.len() {
                assert(h[i] == hex_lower(x / 16));
            } else {
                assert(h[i] == hex_lower(x % 16));
            }
        }
    }
}

proof fn lemma_csv_pieces_single(t: Seq<char>)
    requires
        forall|i: int| 0 <= i < t.len() ==> !is_csv_sep(#[trigger] t[i]),
    ensures
        csv_pieces(t) == seq![t],
    decreases t.len(),
{
    if t.len() > 0 {
        let q = t.drop_last();
        assert forall|i: int| 0 <= i < q.len() implies !is_csv_sep(#[trigger] q[i]) by {
            assert(q[i] == t[i]);
        }
        lemma_csv_pieces_single(q);
        assert(!is_csv_sep(t[t.len() - 1]));
        assert(q.push(t.last()) =~= t);
        assert(seq![q].update(0, q.push(t.last())) =~= seq![t]);
    } else {
        assert(t =~= Seq::<char>::empty());
    }
}

/// A generated REALITY short id, written alone in the short ids field, is
/// kept as it is when the configuration is built: hexadecimal of 1 to 8
/// random bytes passes the check of `normalize_reality_short_ids`.
pub proof fn law_generated_short_id_kept(b: Seq<u8>)
    requires
        0 < b.len() <= 8,
    ensures
        short_ids_of(csv_entries(hex_text(b))) == seq![hex_text(b)],
{
    let t = hex_text(b);
    lemma_hex_text_shape(b);
    assert(t[0] == t[0]);
    assert(!is_ws(t[0]));
    assert(t.last() == t[t.len() - 1]);
    assert(!is_ws(t.last()));
    lemma_trimmed_fixed(t);
    assert forall|i: int| 0 <= i < t.len() implies !is_csv_sep(#[trigger] t[i]) by {
        assert(('0' <= t[i] <= '9') || ('a' <= t[i] <= 'f'));
    }
    lemma_csv_pieces_single(t);
    let ps = seq![t];
    assert(ps.drop_last() =~= Seq::<Seq<char>>::empty());
    assert(ps.last() == t);
    assert(kept_entries(Seq::<Seq<char>>::empty()) =~= Seq::<Seq<char>>::empty());
    assert(kept_entries(ps) =~= seq![t]);
    assert(is_ascii_chars(t));
    assert(ascii_lower(t) =~= t);
    assert(lower_text(trimmed(t)) == t);
    assert(short_id_ok(t));
    let es = seq![t];
    assert(es.drop_last() =~= Seq::<Seq<char>>::empty());
    assert(es.last() == t);
    assert(short_ids_of(Seq::<Seq<char>>::empty()) =~= Seq::<Seq<char>>::empty());
    assert(short_ids_of(es) =~= seq![t]);
}

} // verus!
