//! Certificates: ACME directory addresses, where certmagic stores issued
//! certificates, and how inbounds refer to certificates.

use vstd::prelude::*;
use vstd::string::*;
use crate::model::{CertificateDraft, NodeConfigDraft};
use crate::text::{
    opt_text, chars_of, copy_str, eq_str, has_prefix, push_char, replace_char, starts_with_at,
    string_from_range, trim, trim_lower, trimmed, lower_trimmed,
};

verus! {

/// The ACME directory of a certificate authority given by its short name.
pub open spec fn acme_directory(l: Seq<char>) -> Seq<char> {
    if l == "zerossl"@ {
        "https://acme.zerossl.com/v2/DV90"@
    } else if l == "google"@ {
        "https://dv.acme-v02.api.pki.goog/directory"@
    } else if l == "buypass"@ {
        "https://api.buypass.com/acme/directory"@
    } else if l == "sslcom"@ {
        "https://acme.ssl.com/sslcom-dv-rsa"@
    } else {
        "https://acme-v02.api.letsencrypt.org/directory"@
    }
}

/// The ACME directory URL of a certificate authority name (any case);
/// Let's Encrypt for any name it does not know.
pub fn acme_ca_directory_url(value: &str) -> (r: &'static str)
    ensures
        r@ == acme_directory(lower_trimmed(value@)),
{
    let l = trim_lower(value);
    let l = l.as_str();
    if eq_str(l, "zerossl") {
        "https://acme.zerossl.com/v2/DV90"
    } else if eq_str(l, "google") {
        "https://dv.acme-v02.api.pki.goog/directory"
    } else if eq_str(l, "buypass") {
        "https://api.buypass.com/acme/directory"
    } else if eq_str(l, "sslcom") {
        "https://acme.ssl.com/sslcom-dv-rsa"
    } else {
        "https://acme-v02.api.letsencrypt.org/directory"
    }
}

pub open spec fn strip_leading(s: Seq<char>, c: char) -> Seq<char>
    decreases s.len(),
{
    if s.len() > 0 && s[0] == c {
        strip_leading(s.drop_first(), c)
    } else {
        s
    }
}

pub open spec fn strip_trailing(s: Seq<char>, c: char) -> Seq<char>
    decreases s.len(),
{
    if s.len() > 0 && s.last() == c {
        strip_trailing(s.drop_last(), c)
    } else {
        s
    }
}

/// `s.trim_matches(c)`.
pub open spec fn strip_both(s: Seq<char>, c: char) -> Seq<char> {
    strip_trailing(strip_leading(s, c), c)
}

/// The text without a leading `http://` or, failing that, `https://`.
pub open spec fn without_scheme(v: Seq<char>) -> Seq<char> {
    if has_prefix(v, "http://"@) {
        v.skip(7)
    } else if has_prefix(v, "https://"@) {
        v.skip(8)
    } else {
        v
    }
}

/// A text made safe as one path component the way certmagic does it:
/// trimmed, without scheme, slashes and backslashes turned into dashes, and
/// without leading or trailing dashes.
pub open spec fn storage_component(value: Seq<char>) -> Seq<char> {
    strip_both(slashes_to_dashes(without_scheme(trimmed(value))), '-')
}

/// `s.replace('/', "-").replace('\\', "-")`.
pub open spec fn slashes_to_dashes(s: Seq<char>) -> Seq<char> {
    Seq::new(s.len(), |i: int| if s[i] == '/' || s[i] == '\\' { '-' } else { s[i] })
}

proof fn lemma_strip_leading_skip(s: Seq<char>, c: char, i: int)
    requires
        0 <= i <= s.len(),
        forall|k: int| 0 <= k < i ==> #[trigger] s[k] == c,
    ensures
        strip_leading(s, c) == strip_leading(s.subrange(i, s.len() as int), c),
    decreases i,
{
    if i == 0 {
        assert(s.subrange(0, s.len() as int) =~= s);
    } else {
        let t = s.drop_first();
        assert forall|k: int| 0 <= k < i - 1 implies #[trigger] t[k] == c by {
            assert(t[k] == s[k + 1]);
        }
        lemma_strip_leading_skip(t, c, i - 1);
        assert(t.subrange(i - 1, t.len() as int) =~= s.subrange(i, s.len() as int));
    }
}

proof fn lemma_strip_trailing_skip(s: Seq<char>, c: char, j: int)
    requires
        0 <= j <= s.len(),
        forall|k: int| j <= k < s.len() ==> #[trigger] s[k] == c,
    ensures
        strip_trailing(s, c) == strip_trailing(s.subrange(0, j), c),
    decreases s.len() - j,
{
    if j == s.len() {
        assert(s.subrange(0, j) =~= s);
    } else {
        let t = s.drop_last();
        assert forall|k: int| j <= k < t.len() implies #[trigger] t[k] == c by {
            assert(t[k] == s[k]);
        }
        lemma_strip_trailing_skip(t, c, j);
        assert(t.subrange(0, j) =~= s.subrange(0, j));
    }
}

/// `s.trim_matches(c)` on a character vector.
fn strip_char_both(cs: &Vec<char>, c: char) -> (r: String)
    ensures
        r@ == strip_both(cs@, c),
{
    let n = cs.len();
    let mut i: usize = 0;
    while i < n && cs[i] == c
        invariant
            n == cs@.len(),
            i <= n,
            forall|k: int| 0 <= k < i ==> #[trigger] cs@[k] == c,
        decreases n - i,
    {
        i = i + 1;
    }
    proof {
        lemma_strip_leading_skip(cs@, c, i as int);
    }
    let ghost rest = cs@.subrange(i as int, n as int);
    assert(strip_leading(rest, c) == rest);
    let mut j: usize = n;
    while j > i && cs[j - 1] == c
        invariant
            n == cs@.len(),
            i <= j <= n,
            rest == cs@.subrange(i as int, n as int),
            forall|k: int| j <= k < n ==> #[trigger] cs@[k] == c,
        decreases j - i,
    {
        j = j - 1;
    }
    proof {
        assert forall|k: int| j - i <= k < rest.len() implies #[trigger] rest[k] == c by {
            assert(rest[k] == cs@[k + i]);
        }
        lemma_strip_trailing_skip(rest, c, j - i);
        assert(rest.subrange(0, j - i) =~= cs@.subrange(i as int, j as int));
    }
    string_from_range(cs, i, j)
}

/// `cs` with every `/` and `\` turned into `-`.
fn dashes_for_slashes(cs: &Vec<char>) -> (r: Vec<char>)
    ensures
        r@ == slashes_to_dashes(cs@),
{
    let mut out: Vec<char> = Vec::new();
    let mut i: usize = 0;
    while i < cs.len()
        invariant
            i <= cs@.len(),
            out@ == slashes_to_dashes(cs@.take(i as int)),
        decreases cs@.len() - i,
    {
        let c = cs[i];
        if c == '/' || c == '\\' {
            out.push('-');
        } else {
            out.push(c);
        }
        i = i + 1;
        assert(out@ =~= slashes_to_dashes(cs@.take(i as int)));
    }
    assert(cs@.take(cs@.len() as int) =~= cs@);
    out
}

/// The name certmagic gives a path component made from `value`.
pub fn certmagic_storage_component(value: &str) -> (r: String)
    ensures
        r@ == storage_component(value@),
{
    let t = trim(value);
    let cs = chars_of(t.as_str());
    let http = chars_of("http://");
    let https = chars_of("https://");
    proof {
        reveal_strlit("http://");
        reveal_strlit("https://");
        assert(cs@.subrange(0, cs@.len() as int) =~= cs@);
    }
    let start: usize = if starts_with_at(&cs, 0, &http) {
        7
    } else if starts_with_at(&cs, 0, &https) {
        8
    } else {
        0
    };
    let mut rest: Vec<char> = Vec::new();
    let mut i = start;
    while i < cs.len()
        invariant
            start <= i <= cs@.len(),
            rest@ == cs@.subrange(start as int, i as int),
        decreases cs@.len() - i,
    {
        rest.push(cs[i]);
        i = i + 1;
        assert(rest@ =~= cs@.subrange(start as int, i as int));
    }
    assert(rest@ == without_scheme(trimmed(value@)));
    let dashed = dashes_for_slashes(&rest);
    strip_char_both(&dashed, '-')
}

/// Where certmagic keeps the certificate and the key it issued for a domain.
pub open spec fn certmagic_paths(ca: Seq<char>, domain: Seq<char>) -> (Seq<char>, Seq<char>) {
    let issuer = storage_component(acme_directory(lower_trimmed(ca)));
    let safe = storage_component(domain);
    let base = "data/acme_storage/certificates/"@ + issuer + "/"@ + safe;
    (base + "/"@ + safe + ".crt"@, base + "/"@ + safe + ".key"@)
}

/// The certificate and key files certmagic writes for `domain` when the
/// certificate authority `ca` issued it.
pub fn certmagic_certificate_paths(ca: &str, domain: &str) -> (r: (String, String))
    ensures
        (r.0@, r.1@) == certmagic_paths(ca@, domain@),
{
    let issuer = certmagic_storage_component(acme_ca_directory_url(ca));
    let safe = certmagic_storage_component(domain);
    let mut base = copy_str("data/acme_storage/certificates/");
    base.append(issuer.as_str());
    base.append("/");
    base.append(safe.as_str());
    let mut crt = base.clone();
    crt.append("/");
    crt.append(safe.as_str());
    crt.append(".crt");
    let mut key = base;
    key.append("/");
    key.append(safe.as_str());
    key.append(".key");
    (crt, key)
}

/// True when a certificate answers to `reference` by its name or its id.
pub open spec fn answers_to(c: CertificateDraft, reference: Seq<char>) -> bool {
    trimmed(c.name@) == reference || trimmed(c.id@) == reference
}

/// The trimmed name of the first certificate that answers to `reference`.
pub open spec fn first_answer(cs: Seq<CertificateDraft>, reference: Seq<char>) -> Option<Seq<char>>
    decreases cs.len(),
{
    if cs.len() == 0 {
        None
    } else if answers_to(cs[0], reference) {
        Some(trimmed(cs[0].name@))
    } else {
        first_answer(cs.drop_first(), reference)
    }
}

/// The certificate name a TLS setting refers to by name or id: none for an
/// empty reference.
pub open spec fn reference_name(cs: Seq<CertificateDraft>, reference: Seq<char>) -> Option<
    Seq<char>,
> {
    let r = trimmed(reference);
    if r.len() == 0 {
        None
    } else {
        first_answer(cs, r)
    }
}

/// The certificate name that a TLS setting refers to by name or id: the
/// trimmed name of the first certificate that answers to the trimmed
/// reference; none for an empty reference or when no certificate answers.
pub fn certificate_name_from_reference(
    certificates: &[CertificateDraft],
    reference: &str,
) -> (r: Option<String>)
    ensures
        opt_text(r) == reference_name(certificates@, reference@),
{
    let wanted = trim(reference);
    if wanted.as_str().unicode_len() == 0 {
        return None;
    }
    let mut i: usize = 0;
    assert(certificates@.skip(0) =~= certificates@);
    while i < certificates.len()
        invariant
            wanted@ == trimmed(reference@),
            wanted@.len() > 0,
            i <= certificates@.len(),
            first_answer(certificates@, wanted@) == first_answer(
                certificates@.skip(i as int),
                wanted@,
            ),
        decreases certificates@.len() - i,
    {
        let name = trim(certificates[i].name.as_str());
        let id = trim(certificates[i].id.as_str());
        let ghost rest = certificates@.skip(i as int);
        assert(rest[0] == certificates@[i as int]);
        assert(rest.drop_first() =~= certificates@.skip(i + 1));
        if eq_str(name.as_str(), wanted.as_str()) || eq_str(id.as_str(), wanted.as_str()) {
            return Some(name);
        }
        i = i + 1;
    }
    None
}

/// `i` is the first certificate whose trimmed name is `name`.
pub open spec fn first_named(cs: Seq<CertificateDraft>, name: Seq<char>, i: int) -> bool {
    &&& 0 <= i < cs.len()
    &&& trimmed(cs[i].name@) == name
    &&& forall|k: int| 0 <= k < i ==> trimmed(#[trigger] cs[k].name@) != name
}

/// The first certificate whose trimmed name is the trimmed `name`.
pub fn certificate_by_name<'a>(certificates: &'a [CertificateDraft], name: &str) -> (r: Option<
    &'a CertificateDraft,
>)
    ensures
        match r {
            Some(c) => exists|i: int|
                first_named(certificates@, trimmed(name@), i) && *c == certificates@[i],
            None => forall|k: int|
                0 <= k < certificates@.len() ==> trimmed(#[trigger] certificates@[k].name@)
                    != trimmed(name@),
        },
{
    let wanted = trim(name);
    let mut i: usize = 0;
    while i < certificates.len()
        invariant
            wanted@ == trimmed(name@),
            i <= certificates@.len(),
            forall|k: int|
                0 <= k < i ==> trimmed(#[trigger] certificates@[k].name@) != wanted@,
        decreases certificates@.len() - i,
    {
        let n = trim(certificates[i].name.as_str());
        if eq_str(n.as_str(), wanted.as_str()) {
            assert(first_named(certificates@, wanted@, i as int));
            return Some(&certificates[i]);
        }
        i = i + 1;
    }
    None
}

/// The certificates of a draft, as the node configuration lists them.
pub fn normalized_certificates(draft: &NodeConfigDraft) -> (r: Vec<CertificateDraft>)
    ensures
        r@ == draft.certificates@,
{
    let mut out: Vec<CertificateDraft> = Vec::new();
    let mut i: usize = 0;
    while i < draft.certificates.len()
        invariant
            i <= draft.certificates@.len(),
            out@ == draft.certificates@.take(i as int),
        decreases draft.certificates@.len() - i,
    {
        out.push(draft.certificates[i].duplicate());
        i = i + 1;
        assert(out@ =~= draft.certificates@.take(i as int));
    }
    assert(draft.certificates@.take(draft.certificates@.len() as int) =~= draft.certificates@);
    out
}

/// The directory of a certificate authority name (any case, trimmed):
/// ZeroSSL, Google, Buypass and SSL.com each have their own, told apart from
/// one another and from Let's Encrypt, which serves every other name.
pub proof fn law_acme_directories(value: Seq<char>, other: Seq<char>, r: Seq<char>, s: Seq<char>)
    requires
        r == acme_directory(lower_trimmed(value)),
        s == acme_directory(lower_trimmed(other)),
    ensures
        lower_trimmed(value) == "zerossl"@ ==> r == "https://acme.zerossl.com/v2/DV90"@,
        lower_trimmed(value) == "google"@ ==> r == "https://dv.acme-v02.api.pki.goog/directory"@,
        lower_trimmed(value) == "buypass"@ ==> r == "https://api.buypass.com/acme/directory"@,
        lower_trimmed(value) == "sslcom"@ ==> r == "https://acme.ssl.com/sslcom-dv-rsa"@,
        (r == "https://acme-v02.api.letsencrypt.org/directory"@) == (lower_trimmed(value) != "zerossl"@
            && lower_trimmed(value) != "google"@ && lower_trimmed(value) != "buypass"@
            && lower_trimmed(value) != "sslcom"@),
        r == s && r != "https://acme-v02.api.letsencrypt.org/directory"@ ==> lower_trimmed(value)
            == lower_trimmed(other),
{
    reveal_strlit("zerossl");
    reveal_strlit("google");
    reveal_strlit("buypass");
    reveal_strlit("sslcom");
    reveal_strlit("https://acme.zerossl.com/v2/DV90");
    reveal_strlit("https://dv.acme-v02.api.pki.goog/directory");
    reveal_strlit("https://api.buypass.com/acme/directory");
    reveal_strlit("https://acme.ssl.com/sslcom-dv-rsa");
    reveal_strlit("https://acme-v02.api.letsencrypt.org/directory");
    assert("https://acme.zerossl.com/v2/DV90"@.len() == 32);
    assert("https://dv.acme-v02.api.pki.goog/directory"@.len() == 42);
    assert("https://api.buypass.com/acme/directory"@.len() == 38);
    assert("https://acme.ssl.com/sslcom-dv-rsa"@.len() == 34);
    assert("https://acme-v02.api.letsencrypt.org/directory"@.len() == 46);
    assert("zerossl"@[0] != "buypass"@[0]);
    assert("google"@[0] != "sslcom"@[0]);
    assert("zerossl"@.len() != "google"@.len());
    assert("zerossl"@.len() != "sslcom"@.len());
    assert("buypass"@.len() != "google"@.len());
    assert("buypass"@.len() != "sslcom"@.len());
}

} // verus!
