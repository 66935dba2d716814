//! What the lists of the manager show for each row: outbounds, accounts,
//! and which entry an "Edit" button opens.

use vstd::prelude::*;
use vstd::string::*;
use crate::editing::{find_inbound, first_inbound_with_id, inbound_list_view};
use crate::model::{AccountInfo, InboundEntryDraft, InboundEntryDraftView, NodeConfigDraft, NodeConfigDraftView, OutboundEntryDraft};
use crate::sync::{sync_draft, synced};
use crate::text::{
    copy_str, decimal, eq_str, join, join_with, signed_decimal, texts, trim, trim_upper, trimmed,
    u64_to_string, i64_to_string, upper_trimmed,
};

verus! {

/// `server:port`.
pub open spec fn host_port(server: Seq<char>, port: i32) -> Seq<char> {
    server + ":"@ + signed_decimal(port as int)
}

/// What the outbound list shows as the tag or target of an outbound: the
/// name of a built-in, TrustTunnel or custom outbound; the endpoint of the
/// first WireGuard peer; the VLESS server and port, or the VLESS tag when
/// either is missing; the SOCKS5 or Shadowsocks server and port; the VLESS
/// tag for any other kind.
pub open spec fn target_label(o: OutboundEntryDraft) -> Seq<char> {
    let k = upper_trimmed(o.outbound_type@);
    if k == "DIRECT"@ || k == "BLOCK"@ || k == "TRUSTTUNNEL"@ || k == "CUSTOM"@ {
        o.name@
    } else if k == "WIREGUARD"@ {
        if o.wireguard.peers@.len() > 0 {
            o.wireguard.peers@[0].endpoint@
        } else {
            Seq::empty()
        }
    } else if k == "VLESS"@ {
        if trimmed(o.vless.server@).len() == 0 || o.vless.port <= 0 {
            o.vless.tag@
        } else {
            host_port(trimmed(o.vless.server@), o.vless.port)
        }
    } else if k == "SOCKS5"@ {
        host_port(o.socks5.server@, o.socks5.port)
    } else if k == "SHADOWSOCKS"@ {
        host_port(o.shadowsocks.server@, o.shadowsocks.port)
    } else {
        o.vless.tag@
    }
}

fn host_port_text(server: &str, port: i32) -> (r: String)
    ensures
        r@ == host_port(server@, port),
{
    let mut out = copy_str(server);
    out.append(":");
    let p = i64_to_string(port as i64);
    out.append(p.as_str());
    out
}

/// The tag or target the outbound list shows (see `target_label`).
pub fn outbound_target_label(outbound: &OutboundEntryDraft) -> (r: String)
    ensures
        r@ == target_label(*outbound),
{
    let k = trim_upper(outbound.outbound_type.as_str());
    let k = k.as_str();
    if eq_str(k, "DIRECT") || eq_str(k, "BLOCK") || eq_str(k, "TRUSTTUNNEL") || eq_str(k, "CUSTOM") {
        outbound.name.clone()
    } else if eq_str(k, "WIREGUARD") {
        if outbound.wireguard.peers.len() > 0 {
            outbound.wireguard.peers[0].endpoint.clone()
        } else {
            String::new()
        }
    } else if eq_str(k, "VLESS") {
        let server = trim(outbound.vless.server.as_str());
        if server.as_str().unicode_len() == 0 || outbound.vless.port <= 0 {
            outbound.vless.tag.clone()
        } else {
            host_port_text(server.as_str(), outbound.vless.port)
        }
    } else if eq_str(k, "SOCKS5") {
        host_port_text(outbound.socks5.server.as_str(), outbound.socks5.port)
    } else if eq_str(k, "SHADOWSOCKS") {
        host_port_text(outbound.shadowsocks.server.as_str(), outbound.shadowsocks.port)
    } else {
        outbound.vless.tag.clone()
    }
}

/// Whether the outbound list lets an outbound be switched on and off: every
/// outbound but the block outbound.
pub fn outbound_toggle_allowed(outbound: &OutboundEntryDraft) -> (r: bool)
    ensures
        r == (upper_trimmed(outbound.outbound_type@) != "BLOCK"@),
{
    let k = trim_upper(outbound.outbound_type.as_str());
    !eq_str(k.as_str(), "BLOCK")
}

/// The line under an outbound's name in the outbound list.
pub fn outbound_origin_label(outbound: &OutboundEntryDraft) -> (r: &'static str)
    ensures
        r@ == if outbound.builtin {
            "Built-in outbound"@
        } else {
            "Custom outbound"@
        },
{
    if outbound.builtin {
        "Built-in outbound"
    } else {
        "Custom outbound"
    }
}

/// Whether an outbound's menu offers to copy and to delete it: only for an
/// outbound that is not built in.
pub fn outbound_removable(outbound: &OutboundEntryDraft) -> (r: bool)
    ensures
        r == !outbound.builtin,
{
    !outbound.builtin
}

/// What the account list shows for the allowed addresses of an account:
/// `Any` when there is none, else how many there are.
pub fn allowed_ips_label(account: &AccountInfo) -> (r: String)
    ensures
        r@ == if account.allowed_ips@.len() == 0 {
            "Any"@
        } else {
            decimal(account.allowed_ips@.len())
        },
{
    if account.allowed_ips.len() == 0 {
        copy_str("Any")
    } else {
        u64_to_string(account.allowed_ips.len() as u64)
    }
}

/// What the account list shows for the groups of an account: the groups
/// separated by `, `.
pub fn account_groups_label(account: &AccountInfo) -> (r: String)
    ensures
        r@ == join_with(texts(account.groups@), ", "@),
{
    join(&account.groups, ", ")
}

/// The question asked before an account is deleted.
pub fn account_delete_message(account: &AccountInfo) -> (r: String)
    ensures
        r@ == "Delete account \""@ + account.name@ + "\"?"@,
{
    let mut m = copy_str("Delete account \"");
    m.append(account.name.as_str());
    m.append("\"?");
    m
}

/// The names that say where an access link of an account leads: the
/// trimmed node and inbound names that are not empty.
pub open spec fn source_parts(node_name: Seq<char>, inbound_name: Seq<char>) -> Seq<Seq<char>> {
    let a = if trimmed(node_name).len() > 0 { seq![trimmed(node_name)] } else { Seq::empty() };
    let b = if trimmed(inbound_name).len() > 0 { seq![trimmed(inbound_name)] } else { Seq::empty() };
    a + b
}

/// What the proxies of an account show as the source of a link: the node
/// and inbound names separated by ` | `, after the node's flag when it has
/// one; `-` when both names are blank.
pub fn proxy_source_label(node_name: &str, inbound_name: &str, flag: &str) -> (r: String)
    ensures
        r@ == if source_parts(node_name@, inbound_name@).len() == 0 {
            "-"@
        } else if flag@.len() == 0 {
            join_with(source_parts(node_name@, inbound_name@), " | "@)
        } else {
            flag@ + " "@ + join_with(source_parts(node_name@, inbound_name@), " | "@)
        },
{
    let node = trim(node_name);
    let inbound = trim(inbound_name);
    let mut parts: Vec<String> = Vec::new();
    if node.as_str().unicode_len() > 0 {
        parts.push(node);
    }
    if inbound.as_str().unicode_len() > 0 {
        parts.push(inbound);
    }
    assert(texts(parts@) =~= source_parts(node_name@, inbound_name@));
    if parts.len() == 0 {
        copy_str("-")
    } else if flag.unicode_len() == 0 {
        join(&parts, " | ")
    } else {
        let mut out = copy_str(flag);
        out.append(" ");
        let j = join(&parts, " | ");
        out.append(j.as_str());
        out
    }
}

/// The inbound that the "Edit" button of a row opens: the first inbound
/// with the row's id in the synced draft, as not new.
pub fn inbound_to_edit(draft: &NodeConfigDraft, id: &str) -> (r: Option<InboundEntryDraft>)
    ensures
        exists|n: NodeConfigDraftView|
            #[trigger] synced(draft@, n) && match r {
                Some(x) => exists|i: int| first_inbound_with_id(n.inbounds, id@, i) && x@ == n.inbounds[i],
                None => !exists|i: int| first_inbound_with_id(n.inbounds, id@, i),
            },
{
    let mut d = draft.duplicate();
    sync_draft(&mut d);
    let ghost n = d@;
    assert(inbound_list_view(d.inbounds@) =~= n.inbounds);
    match find_inbound(&d.inbounds, id) {
        Some(i) => {
            let x = d.inbounds[i].duplicate();
            assert(x@ == n.inbounds[i as int]);
            Some(x)
        },
        None => None,
    }
}

} // verus!
