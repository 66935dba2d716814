//! Reading a `vless://` share link into a VLESS outbound draft.

use vstd::prelude::*;
use vstd::string::*;
use vstd::utf8::is_ascii_chars;
use crate::config::{OutboundConfig, OutboundKind, OutboundSettings};
use crate::config_build::{kind_word, outbound_config_of, outbound_included};
use crate::display::{name_or, vless_outbound_tag_from_name};
use crate::model::{OutboundEntryDraft, OutboundEntryDraftView, VlessOutboundDraft};
use crate::protocols::{transmission_of, vless_transmission_from};
use crate::text::{
    ascii_upper, before_first, chars_of, copy_str, eq_str, has_prefix, is_blank,
    lemma_trimmed_fixed, lemma_trimmed_idempotent, lower_trimmed, parse_i32,
    parsed_i32, split_at_first, split_at_last, split_first, split_last, split_on, split_pieces,
    starts_with_at, string_from_chars, sub_chars, trim, trim_lower, trimmed, upper_trimmed,
};
use crate::uri::{decode_link_component, uri_decoded};

verus! {

/// A link component decoded, or as it stands where it does not decode.
pub open spec fn link_component(v: Seq<char>) -> Seq<char> {
    match uri_decoded(v) {
        Some(t) => t,
        None => v,
    }
}

/// What follows `vless://` in the trimmed link.
pub open spec fn vless_body(link: Seq<char>) -> Option<Seq<char>> {
    let t = trimmed(link);
    if has_prefix(t, "vless://"@) {
        Some(t.skip(8))
    } else {
        None
    }
}

/// The body without its fragment.
pub open spec fn without_fragment(body: Seq<char>) -> Seq<char> {
    before_first(body, '#')
}

/// The part of the body before its query.
pub open spec fn link_authority(body: Seq<char>) -> Seq<char> {
    match split_at_first(without_fragment(body), '?') {
        Some((a, _)) => a,
        None => without_fragment(body),
    }
}

/// The query of the body; empty when it has none.
pub open spec fn link_query(body: Seq<char>) -> Seq<char> {
    match split_at_first(without_fragment(body), '?') {
        Some((_, q)) => q,
        None => Seq::empty(),
    }
}

/// The server and port of `host:port` or `[host]:port`.
pub open spec fn server_port(hp: Seq<char>) -> Result<(Seq<char>, int), Seq<char>> {
    if hp.len() > 0 && hp[0] == '[' {
        match split_at_first(hp.drop_first(), ']') {
            None => Err("Invalid IPv6 server syntax"@),
            Some((host, tail)) => if tail.len() > 0 && tail[0] == ':' {
                match parsed_i32(trimmed(tail.drop_first())) {
                    Some(p) => Ok((trimmed(host), p)),
                    None => Err("Invalid VLESS port"@),
                }
            } else {
                Err("VLESS link is missing port"@)
            },
        }
    } else {
        match split_at_last(hp, ':') {
            None => Err("VLESS link is missing port"@),
            Some((host, port)) => match parsed_i32(trimmed(port)) {
                Some(p) => Ok((trimmed(host), p)),
                None => Err("Invalid VLESS port"@),
            },
        }
    }
}

/// The UUID, server and port that a VLESS link names, or the reason it is
/// refused.
pub open spec fn vless_endpoint(link: Seq<char>) -> Result<(Seq<char>, Seq<char>, int), Seq<char>> {
    match vless_body(link) {
        None => Err("Link must start with vless://"@),
        Some(body) => match split_at_last(link_authority(body), '@') {
            None => Err("Link must include UUID and server"@),
            Some((user, host_port)) => {
                let uuid = trimmed(link_component(user));
                if uuid.len() == 0 {
                    Err("VLESS UUID is empty"@)
                } else {
                    match server_port(host_port) {
                        Err(e) => Err(e),
                        Ok((server, port)) => if server.len() == 0 {
                            Err("VLESS server is empty"@)
                        } else {
                            Ok((uuid, server, port))
                        },
                    }
                }
            },
        },
    }
}

/// The query parameters of a VLESS link, as `&`-separated pieces.
pub open spec fn vless_params(link: Seq<char>) -> Seq<Seq<char>> {
    match vless_body(link) {
        Some(body) => split_pieces(link_query(body), '&'),
        None => Seq::empty(),
    }
}

/// The lower-case key of a query piece.
pub open spec fn param_key(p: Seq<char>) -> Seq<char> {
    match split_at_first(p, '=') {
        Some((k, _)) => lower_trimmed(k),
        None => lower_trimmed(p),
    }
}

/// The trimmed, decoded value of a query piece; empty when it has no `=`.
pub open spec fn param_value(p: Seq<char>) -> Seq<char> {
    match split_at_first(p, '=') {
        Some((_, v)) => trimmed(link_component(v)),
        None => Seq::empty(),
    }
}

/// True when the piece is not blank and its key is `k1` or `k2`.
pub open spec fn param_hits(p: Seq<char>, k1: Seq<char>, k2: Seq<char>) -> bool {
    trimmed(p).len() > 0 && (param_key(p) == k1 || param_key(p) == k2)
}

/// The value of the last piece, not blank, whose key is `k1` or `k2`.
pub open spec fn last_param(ps: Seq<Seq<char>>, k1: Seq<char>, k2: Seq<char>) -> Option<Seq<char>>
    decreases ps.len(),
{
    if ps.len() == 0 {
        None
    } else {
        let p = ps.last();
        if param_hits(p, k1, k2) {
            Some(param_value(p))
        } else {
            last_param(ps.drop_last(), k1, k2)
        }
    }
}

/// The security a `security` parameter names.
pub open spec fn security_word(v: Seq<char>) -> Seq<char> {
    let l = lower_trimmed(v);
    if l == "tls"@ {
        "TLS"@
    } else if l == "reality"@ {
        "REALITY"@
    } else {
        "NONE"@
    }
}

/// A field set by the last matching parameter, or kept.
pub open spec fn param_or(ps: Seq<Seq<char>>, k1: Seq<char>, k2: Seq<char>, kept: Seq<char>) -> Seq<
    char,
> {
    match last_param(ps, k1, k2) {
        Some(v) => v,
        None => kept,
    }
}

/// The transport after the parameters: the last `type` read as a transport
/// name, else the kept one, else `TCP`.
pub open spec fn imported_transmission(ps: Seq<Seq<char>>, kept: Seq<char>) -> Seq<char> {
    let t = match last_param(ps, "type"@, "type"@) {
        Some(v) => transmission_of(upper_trimmed(v)),
        None => kept,
    };
    if trimmed(t).len() == 0 {
        "TCP"@
    } else {
        t
    }
}

/// The security after the parameters: the last `security` read, else the
/// kept one, else `NONE`.
pub open spec fn imported_security(ps: Seq<Seq<char>>, kept: Seq<char>) -> Seq<char> {
    let s = match last_param(ps, "security"@, "security"@) {
        Some(v) => security_word(v),
        None => kept,
    };
    if trimmed(s).len() == 0 {
        "NONE"@
    } else {
        s
    }
}

/// `d` is `existing` turned into an enabled, user-made VLESS outbound that
/// dials `server:port` as `uuid`, with the link parameters `ps` applied.
pub open spec fn imported_from(
    d: OutboundEntryDraftView,
    existing: OutboundEntryDraftView,
    uuid: Seq<char>,
    server: Seq<char>,
    port: int,
    ps: Seq<Seq<char>>,
) -> bool {
    let v = d.vless;
    let e = existing.vless;
    &&& d.id@ == existing.id@
    &&& d.name@ == existing.name@
    &&& d.outbound_type@ == "VLESS"@
    &&& d.enabled
    &&& !d.builtin
    &&& d.trust_tunnel == existing.trust_tunnel
    &&& d.wireguard == existing.wireguard
    &&& d.socks5 == existing.socks5
    &&& d.shadowsocks == existing.shadowsocks
    &&& d.trojan == existing.trojan
    &&& d.custom == existing.custom
    &&& v.server@ == server
    &&& v.port == port
    &&& v.uuid@ == uuid
    &&& v.tag@ == (if trimmed(e.tag@).len() == 0 {
        name_or(existing.name@, "VLESS"@)
    } else {
        e.tag@
    })
    &&& v.transmission@ == imported_transmission(ps, e.transmission@)
    &&& v.security@ == imported_security(ps, e.security@)
    &&& v.flow@ == param_or(ps, "flow"@, "flow"@, e.flow@)
    &&& v.tls_server_name@ == param_or(ps, "sni"@, "servername"@, e.tls_server_name@)
    &&& v.reality_sni@ == param_or(ps, "sni"@, "servername"@, e.reality_sni@)
    &&& v.reality_public_key@ == param_or(ps, "pbk"@, "publickey"@, e.reality_public_key@)
    &&& v.reality_short_ids@ == param_or(ps, "sid"@, "shortid"@, e.reality_short_ids@)
    &&& v.reality_utls@ == param_or(ps, "fp"@, "fingerprint"@, e.reality_utls@)
    &&& v.reality_spider_x@ == param_or(ps, "spx"@, "spx"@, e.reality_spider_x@)
}


/// `cs.trim()`, as characters.
fn trimmed_chars(cs: &Vec<char>) -> (r: Vec<char>)
    ensures
        r@ == trimmed(cs@),
{
    let s = string_from_chars(cs);
    let t = trim(s.as_str());
    chars_of(t.as_str())
}

/// Splits `host:port` or `[host]:port` into the trimmed server and the port.
fn split_server_port(hp: &Vec<char>) -> (r: Result<(String, i32), String>)
    ensures
        match r {
            Ok((s, p)) => server_port(hp@) == Ok::<(Seq<char>, int), Seq<char>>((s@, p as int)),
            Err(e) => server_port(hp@) == Err::<(Seq<char>, int), Seq<char>>(e@),
        },
{
    let n = hp.len();
    if n > 0 && hp[0] == '[' {
        let rest = sub_chars(hp, 1, n);
        assert(rest@ =~= hp@.drop_first());
        match split_first(&rest, ']') {
            None => Err(copy_str("Invalid IPv6 server syntax")),
            Some((host, tail)) => {
                if tail.len() > 0 && tail[0] == ':' {
                    let m = tail.len();
                    let port_text = sub_chars(&tail, 1, m);
                    assert(port_text@ =~= tail@.drop_first());
                    let pt = trimmed_chars(&port_text);
                    match parse_i32(&pt) {
                        Some(p) => {
                            let hs = string_from_chars(&host);
                            Ok((trim(hs.as_str()), p))
                        },
                        None => Err(copy_str("Invalid VLESS port")),
                    }
                } else {
                    Err(copy_str("VLESS link is missing port"))
                }
            },
        }
    } else {
        match split_last(hp, ':') {
            None => Err(copy_str("VLESS link is missing port")),
            Some((host, port_text)) => {
                let pt = trimmed_chars(&port_text);
                match parse_i32(&pt) {
                    Some(p) => {
                        let hs = string_from_chars(&host);
                        Ok((trim(hs.as_str()), p))
                    },
                    None => Err(copy_str("Invalid VLESS port")),
                }
            },
        }
    }
}

/// The key and value of one query piece.
fn param_entry(p: &Vec<char>) -> (r: (String, String))
    ensures
        r.0@ == param_key(p@),
        r.1@ == param_value(p@),
{
    match split_first(p, '=') {
        Some((k, v)) => {
            let ks = string_from_chars(&k);
            let vs = string_from_chars(&v);
            let d = decode_link_component(vs.as_str());
            (trim_lower(ks.as_str()), trim(d.as_str()))
        },
        None => {
            let ps = string_from_chars(p);
            (trim_lower(ps.as_str()), String::new())
        },
    }
}

/// The body of a `vless://` link and, split from it, the authority and the
/// query.
fn link_sections(link: &str) -> (r: Option<(Vec<char>, Vec<char>)>)
    ensures
        match r {
            Some((a, q)) => vless_body(link@) matches Some(body) && a@ == link_authority(body)
                && q@ == link_query(body),
            None => vless_body(link@) is None,
        },
{
    let t = trim(link);
    let cs = chars_of(t.as_str());
    let prefix = chars_of("vless://");
    proof {
        reveal_strlit("vless://");
        assert(cs@.subrange(0, cs@.len() as int) =~= cs@);
    }
    if !starts_with_at(&cs, 0, &prefix) {
        return None;
    }
    let n = cs.len();
    let body = sub_chars(&cs, 8, n);
    assert(body@ =~= cs@.skip(8));
    let wf = match split_first(&body, '#') {
        Some((a, _)) => a,
        None => body,
    };
    match split_first(&wf, '?') {
        Some((a, q)) => Some((a, q)),
        None => {
            let q: Vec<char> = Vec::new();
            assert(q@ =~= Seq::<char>::empty());
            Some((wf, q))
        },
    }
}

/// The security that a `security` parameter value names.
fn security_from_param(value: &str) -> (r: String)
    ensures
        r@ == security_word(value@),
{
    let l = trim_lower(value);
    if eq_str(l.as_str(), "tls") {
        copy_str("TLS")
    } else if eq_str(l.as_str(), "reality") {
        copy_str("REALITY")
    } else {
        copy_str("NONE")
    }
}

/// A field after one query piece: the piece's value when it hits the keys.
pub open spec fn param_step(cur: Seq<char>, p: Seq<char>, k1: Seq<char>, k2: Seq<char>) -> Seq<
    char,
> {
    if param_hits(p, k1, k2) {
        param_value(p)
    } else {
        cur
    }
}

/// Applies one query piece to the VLESS settings.
fn apply_param(v: &mut VlessOutboundDraft, p: &Vec<char>)
    ensures
        final(v).server == old(v).server,
        final(v).port == old(v).port,
        final(v).uuid == old(v).uuid,
        final(v).tag == old(v).tag,
        final(v).transmission@ == if param_hits(p@, "type"@, "type"@) {
            transmission_of(upper_trimmed(param_value(p@)))
        } else {
            old(v).transmission@
        },
        final(v).security@ == if param_hits(p@, "security"@, "security"@) {
            security_word(param_value(p@))
        } else {
            old(v).security@
        },
        final(v).flow@ == param_step(old(v).flow@, p@, "flow"@, "flow"@),
        final(v).tls_server_name@ == param_step(
            old(v).tls_server_name@,
            p@,
            "sni"@,
            "servername"@,
        ),
        final(v).reality_sni@ == param_step(old(v).reality_sni@, p@, "sni"@, "servername"@),
        final(v).reality_public_key@ == param_step(
            old(v).reality_public_key@,
            p@,
            "pbk"@,
            "publickey"@,
        ),
        final(v).reality_short_ids@ == param_step(
            old(v).reality_short_ids@,
            p@,
            "sid"@,
            "shortid"@,
        ),
        final(v).reality_utls@ == param_step(old(v).reality_utls@, p@, "fp"@, "fingerprint"@),
        final(v).reality_spider_x@ == param_step(old(v).reality_spider_x@, p@, "spx"@, "spx"@),
{
    proof {
        reveal_strlit("type");
        reveal_strlit("flow");
        reveal_strlit("security");
        reveal_strlit("sni");
        reveal_strlit("servername");
        reveal_strlit("pbk");
        reveal_strlit("publickey");
        reveal_strlit("sid");
        reveal_strlit("shortid");
        reveal_strlit("fp");
        reveal_strlit("fingerprint");
        reveal_strlit("spx");
        assert("type"@.len() == 4 && "type"@[0] == 't');
        assert("flow"@.len() == 4 && "flow"@[0] == 'f');
        assert("security"@.len() == 8);
        assert("servername"@.len() == 10);
        assert("publickey"@.len() == 9);
        assert("shortid"@.len() == 7);
        assert("fp"@.len() == 2);
        assert("fingerprint"@.len() == 11);
        assert("sni"@.len() == 3 && "sni"@[0] == 's' && "sni"@[1] == 'n');
        assert("sid"@.len() == 3 && "sid"@[0] == 's' && "sid"@[1] == 'i');
        assert("spx"@.len() == 3 && "spx"@[0] == 's' && "spx"@[1] == 'p');
        assert("pbk"@.len() == 3 && "pbk"@[0] == 'p');
    }
    let piece_text = string_from_chars(p);
    if is_blank(piece_text.as_str()) {
        return ;
    }
    let (key, value) = param_entry(p);
    let k = key.as_str();
    if eq_str(k, "type") {
        v.transmission = vless_transmission_from(value.as_str());
    } else if eq_str(k, "flow") {
        v.flow = value;
    } else if eq_str(k, "security") {
        v.security = security_from_param(value.as_str());
    } else if eq_str(k, "sni") || eq_str(k, "servername") {
        v.reality_sni = copy_str(value.as_str());
        v.tls_server_name = value;
    } else if eq_str(k, "pbk") || eq_str(k, "publickey") {
        v.reality_public_key = value;
    } else if eq_str(k, "sid") || eq_str(k, "shortid") {
        v.reality_short_ids = value;
    } else if eq_str(k, "fp") || eq_str(k, "fingerprint") {
        v.reality_utls = value;
    } else if eq_str(k, "spx") {
        v.reality_spider_x = value;
    }
}

/// Reads a `vless://` share link into a copy of `existing`: the link's UUID,
/// server and port, and its query parameters (`type`, `flow`, `security`,
/// `sni`/`serverName`, `pbk`/`publicKey`, `sid`/`shortId`,
/// `fp`/`fingerprint`, `spx`), the last of each winning. The outbound becomes
/// an enabled, user-made VLESS outbound.
pub fn import_vless_outbound_link(link: &str, existing: &OutboundEntryDraft) -> (r: Result<
    OutboundEntryDraft,
    String,
>)
    ensures
        match r {
            Ok(d) => match vless_endpoint(link@) {
                Ok((uuid, server, port)) => imported_from(
                    d@,
                    existing@,
                    uuid,
                    server,
                    port,
                    vless_params(link@),
                ),
                Err(_) => false,
            },
            Err(e) => vless_endpoint(link@) == Err::<(Seq<char>, Seq<char>, int), Seq<char>>(e@),
        },
{
    let (authority, query) = match link_sections(link) {
        Some(x) => x,
        None => {
            return Err(copy_str("Link must start with vless://"));
        },
    };
    let ghost body = vless_body(link@)->Some_0;
    let (user, host_port) = match split_last(&authority, '@') {
        Some(x) => x,
        None => {
            return Err(copy_str("Link must include UUID and server"));
        },
    };
    let user_text = string_from_chars(&user);
    let decoded = decode_link_component(user_text.as_str());
    let uuid = trim(decoded.as_str());
    if uuid.as_str().unicode_len() == 0 {
        return Err(copy_str("VLESS UUID is empty"));
    }
    let (server, port) = match split_server_port(&host_port) {
        Ok(x) => x,
        Err(e) => {
            return Err(e);
        },
    };
    if server.as_str().unicode_len() == 0 {
        return Err(copy_str("VLESS server is empty"));
    }
    let mut imported = existing.duplicate();
    imported.outbound_type = copy_str("VLESS");
    imported.enabled = true;
    imported.builtin = false;
    imported.vless.server = server;
    imported.vless.port = port;
    imported.vless.uuid = uuid;
    let pieces = split_on(&query, '&');
    let ghost pv = split_pieces(query@, '&');
    let ghost e = existing.vless;
    let mut i: usize = 0;
    while i < pieces.len()
        invariant
            pv == split_pieces(query@, '&'),
            pieces@.len() == pv.len(),
            forall|k: int| 0 <= k < pieces@.len() ==> #[trigger] pieces@[k]@ == pv[k],
            i <= pieces@.len(),
            e == existing.vless,
            imported@.id == existing@.id,
            imported@.name == existing@.name,
            imported@.outbound_type@ == "VLESS"@,
            imported@.enabled,
            !imported@.builtin,
            imported@.trust_tunnel == existing@.trust_tunnel,
            imported@.wireguard == existing@.wireguard,
            imported@.socks5 == existing@.socks5,
            imported@.shadowsocks == existing@.shadowsocks,
            imported@.trojan == existing@.trojan,
            imported@.custom == existing@.custom,
            imported.vless.server@ == server@,
            imported.vless.port == port,
            imported.vless.uuid@ == uuid@,
            imported.vless.tag == e.tag,
            imported.vless.transmission@ == match last_param(pv.take(i as int), "type"@, "type"@) {
                Some(v) => transmission_of(upper_trimmed(v)),
                None => e.transmission@,
            },
            imported.vless.security@ == match last_param(
                pv.take(i as int),
                "security"@,
                "security"@,
            ) {
                Some(v) => security_word(v),
                None => e.security@,
            },
            imported.vless.flow@ == param_or(pv.take(i as int), "flow"@, "flow"@, e.flow@),
            imported.vless.tls_server_name@ == param_or(
                pv.take(i as int),
                "sni"@,
                "servername"@,
                e.tls_server_name@,
            ),
            imported.vless.reality_sni@ == param_or(
                pv.take(i as int),
                "sni"@,
                "servername"@,
                e.reality_sni@,
            ),
            imported.vless.reality_public_key@ == param_or(
                pv.take(i as int),
                "pbk"@,
                "publickey"@,
                e.reality_public_key@,
            ),
            imported.vless.reality_short_ids@ == param_or(
                pv.take(i as int),
                "sid"@,
                "shortid"@,
                e.reality_short_ids@,
            ),
            imported.vless.reality_utls@ == param_or(
                pv.take(i as int),
                "fp"@,
                "fingerprint"@,
                e.reality_utls@,
            ),
            imported.vless.reality_spider_x@ == param_or(
                pv.take(i as int),
                "spx"@,
                "spx"@,
                e.reality_spider_x@,
            ),
        decreases pieces@.len() - i,
    {
        let p = &pieces[i];
        proof {
            assert(pv.take(i + 1).drop_last() =~= pv.take(i as int));
            assert(pv.take(i + 1).last() == pv[i as int]);
        }
        apply_param(&mut imported.vless, p);
        i = i + 1;
    }
    proof {
        assert(pv.take(pieces@.len() as int) =~= pv);
        assert(vless_params(link@) == pv);
    }
    if is_blank(imported.vless.security.as_str()) {
        imported.vless.security = copy_str("NONE");
    }
    if is_blank(imported.vless.transmission.as_str()) {
        imported.vless.transmission = copy_str("TCP");
    }
    if is_blank(imported.vless.tag.as_str()) {
        imported.vless.tag = vless_outbound_tag_from_name(imported.name.as_str());
    }
    Ok(imported)
}


/// An outbound read from a VLESS link goes into the node configuration as a
/// VLESS outbound that dials the link's server and port with the link's
/// UUID.
pub proof fn law_imported_outbound_deployed(
    link: Seq<char>,
    d: OutboundEntryDraftView,
    existing: OutboundEntryDraftView,
    c: OutboundConfig,
)
    requires
        vless_endpoint(link) is Ok,
        imported_from(
            d,
            existing,
            vless_endpoint(link)->Ok_0.0,
            vless_endpoint(link)->Ok_0.1,
            vless_endpoint(link)->Ok_0.2,
            vless_params(link),
        ),
    ensures
        outbound_included(d),
        outbound_config_of(c, d) ==> c.kind == OutboundKind::Vless && (c.settings matches Some(
            OutboundSettings::Vless(v),
        ) && v.server@ == vless_endpoint(link)->Ok_0.1 && v.port == vless_endpoint(link)->Ok_0.2
            && v.uuid@ == vless_endpoint(link)->Ok_0.0),
{
    reveal_strlit("VLESS");
    let v = "VLESS"@;
    assert(v[0] == 'V' && v.last() == 'S');
    lemma_trimmed_fixed(v);
    assert(is_ascii_chars(v));
    assert(ascii_upper(v) =~= v);
    assert(kind_word(d) == v);
    assert("DIRECT"@ != v) by {
        reveal_strlit("DIRECT");
        assert("DIRECT"@.len() != v.len());
    }
    assert("BLOCK"@ != v) by {
        reveal_strlit("BLOCK");
        assert("BLOCK"@[0] != v[0]);
    }
    let e = existing.vless;
    if trimmed(e.tag@).len() == 0 {
        if trimmed(existing.name@).len() > 0 {
            lemma_trimmed_idempotent(existing.name@);
        }
    }
    assert(trimmed(d.vless.tag@).len() > 0);
    let body = vless_body(link)->Some_0;
    let user = split_at_last(link_authority(body), '@')->Some_0.0;
    lemma_trimmed_idempotent(link_component(user));
}

} // verus!
