//! Random identifiers for new entries.

use vstd::prelude::*;
use crate::keys::{hex_lower, hex_text, lemma_hex_text_digits, lemma_hex_text_shape, random_bytes};

verus! {

pub open spec fn is_lower_hex_digit(c: char) -> bool {
    ('0' <= c && c <= '9') || ('a' <= c && c <= 'f')
}

/// The hyphenated lower-case form of a version-4 UUID: 36 characters,
/// dashes at places 8, 13, 18 and 23, lower-case hex digits elsewhere, the
/// version digit `4` at place 14 and a variant digit from `8` to `b` at
/// place 19.
pub open spec fn is_uuid_text(s: Seq<char>) -> bool {
    &&& s.len() == 36
    &&& forall|i: int|
        0 <= i < 36 ==> if i == 8 || i == 13 || i == 18 || i == 23 {
            #[trigger] s[i] == '-'
        } else {
            is_lower_hex_digit(s[i])
        }
    &&& s[14] == '4'
    &&& (s[19] == '8' || s[19] == '9' || s[19] == 'a' || s[19] == 'b')
}

/// Random bytes made into the bytes of a version-4 UUID: the high half of
/// byte 6 set to the version 4, the two high bits of byte 8 set to the
/// variant `10`.
pub open spec fn v4_bytes(b: Seq<u8>) -> Seq<u8> {
    b.update(6, (b[6] & 0x0f) | 0x40).update(8, (b[8] & 0x3f) | 0x80)
}

/// 32 hex digits in the hyphenated layout `8-4-4-4-12`.
pub open spec fn hyphenated(h: Seq<char>) -> Seq<char> {
    h.subrange(0, 8) + seq!['-'] + h.subrange(8, 12) + seq!['-'] + h.subrange(12, 16) + seq!['-']
        + h.subrange(16, 20) + seq!['-'] + h.subrange(20, 32)
}

/// The text of the version-4 UUID made of 16 random bytes.
pub open spec fn uuid_text(b: Seq<u8>) -> Seq<char> {
    hyphenated(hex_text(v4_bytes(b)))
}

/// `uuid::Builder::from_random_bytes(bytes).into_uuid().to_string()`.
/// Trusted: the builder sets the version (`with_version`: byte 6 becomes
/// `(b & 0x0f) | 0x40`) and the variant (`with_variant`: byte 8 becomes
/// `(b & 0x3f) | 0x80`), and `Display` writes the hyphenated lower-case
/// form, as `uuid_text` states.
#[verifier::external_body]
fn uuid_from_random_bytes(bytes: [u8; 16]) -> (r: String)
    ensures
        r@ == uuid_text(bytes@),
{
    uuid::Builder::from_random_bytes(bytes).into_uuid().to_string()
}

proof fn lemma_version_and_variant(x: u8, y: u8)
    ensures
        ((x & 0x0f) | 0x40) / 16 == 4,
        8 <= ((y & 0x3f) | 0x80) / 16 <= 11,
{
    assert(((x & 0x0f) | 0x40) / 16 == 4) by (bit_vector);
    assert(8 <= ((y & 0x3f) | 0x80) / 16 <= 11) by (bit_vector);
}

/// The text of a UUID made of any 16 bytes is a version-4 UUID text.
pub proof fn lemma_uuid_text_v4(b: Seq<u8>)
    requires
        b.len() == 16,
    ensures
        is_uuid_text(uuid_text(b)),
{
    let v = v4_bytes(b);
    let h = hex_text(v);
    lemma_hex_text_digits(v);
    lemma_hex_text_shape(v);
    let s = uuid_text(b);
    assert(s.len() == 36);
    assert forall|i: int| 0 <= i < 36 implies if i == 8 || i == 13 || i == 18 || i == 23 {
        #[trigger] s[i] == '-'
    } else {
        is_lower_hex_digit(s[i])
    } by {
        if i < 8 {
            assert(s[i] == h[i]);
        } else if i == 8 {
        } else if i < 13 {
            assert(s[i] == h[i - 1]);
        } else if i == 13 {
        } else if i < 18 {
            assert(s[i] == h[i - 2]);
        } else if i == 18 {
        } else if i < 23 {
            assert(s[i] == h[i - 3]);
        } else if i == 23 {
        } else {
            assert(s[i] == h[i - 4]);
        }
    }
    lemma_version_and_variant(b[6], b[8]);
    assert(v[6] == (b[6] & 0x0f) | 0x40);
    assert(v[8] == (b[8] & 0x3f) | 0x80);
    assert(s[14] == h[12]);
    assert(h[2 * 6int] == hex_lower(v[6] as int / 16));
    assert(s[19] == h[16]);
    assert(h[2 * 8int] == hex_lower(v[8] as int / 16));
}

fn bytes16(v: &Vec<u8>) -> (r: [u8; 16])
    requires
        v@.len() == 16,
    ensures
        r@ == v@,
{
    let mut a = [0u8; 16];
    let mut i: usize = 0;
    while i < 16
        invariant
            i <= 16,
            v@.len() == 16,
            a@.len() == 16,
            forall|k: int| 0 <= k < i ==> a@[k] == v@[k],
        decreases 16 - i,
    {
        a[i] = v[i];
        i = i + 1;
    }
    assert(a@ =~= v@);
    a
}

/// A fresh random version-4 UUID, as `Uuid::new_v4` makes one, in its
/// hyphenated lower-case text; none when the system gives no random bytes.
pub(crate) fn new_uuid_string() -> (r: Option<String>)
    ensures
        r matches Some(t) ==> is_uuid_text(t@) && exists|b: Seq<u8>| b.len() == 16 && t@ == uuid_text(b),
{
    match random_bytes(16) {
        Some(v) => {
            let a = bytes16(&v);
            let t = uuid_from_random_bytes(a);
            proof {
                lemma_uuid_text_v4(a@);
            }
            Some(t)
        },
        None => None,
    }
}

/// The id of a new entry: a fresh random version-4 UUID; when the system
/// gives no random bytes, the version-4 UUID of 16 zero bytes,
/// `00000000-0000-4000-8000-000000000000`.
pub(crate) fn new_entry_id() -> (r: String)
    ensures
        is_uuid_text(r@),
{
    match new_uuid_string() {
        Some(t) => t,
        None => {
            let a = [0u8; 16];
            let t = uuid_from_random_bytes(a);
            proof {
                lemma_uuid_text_v4(a@);
            }
            t
        },
    }
}

} // verus!
