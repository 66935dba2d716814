//! Names and labels that the editor shows for the parts of a draft.

use vstd::prelude::*;
use vstd::string::*;
use crate::model::{
    AccountInfo, CertificateDraft, InboundEntryDraft, NodeConfigRevision, ReverseProxyDraft,
    RoutingRuleDraft,
};
use crate::text::{
    copy_str, decimal, is_blank, trim, trim_lower, trim_upper, trimmed, upper_trimmed,
    lower_trimmed, u64_to_string,
};

verus! {

/// A trimmed name, or the fallback when the trimmed name is empty.
pub open spec fn name_or(name: Seq<char>, fallback: Seq<char>) -> Seq<char> {
    if trimmed(name).len() == 0 {
        fallback
    } else {
        trimmed(name)
    }
}

/// The name of a reverse proxy: its trimmed tag, or `VLESS Reverse #n` for
/// the `n`-th entry (counting from one) when it has no tag.
pub fn reverse_proxy_display_name(reverse_proxy: &ReverseProxyDraft, index: usize) -> (r: String)
    requires
        trimmed(reverse_proxy.tag@).len() == 0 ==> index < usize::MAX,
    ensures
        r@ == name_or(reverse_proxy.tag@, "VLESS Reverse #"@ + decimal((index + 1) as nat)),
{
    let tag = trim(reverse_proxy.tag.as_str());
    if tag.as_str().unicode_len() == 0 {
        let mut out = copy_str("VLESS Reverse #");
        let n = u64_to_string((index + 1) as u64);
        out.append(n.as_str());
        out
    } else {
        tag
    }
}

/// The name of an inbound: its trimmed name, or its protocol in upper case.
pub fn inbound_display_name(inbound: &InboundEntryDraft) -> (r: String)
    ensures
        r@ == name_or(inbound.name@, upper_trimmed(inbound.protocol@)),
{
    let name = trim(inbound.name.as_str());
    if name.as_str().unicode_len() == 0 {
        trim_upper(inbound.protocol.as_str())
    } else {
        name
    }
}

/// The name of an account: its trimmed name, or its trimmed id.
pub fn account_display_name(account: &AccountInfo) -> (r: String)
    ensures
        r@ == name_or(account.name@, trimmed(account.id@)),
{
    let name = trim(account.name.as_str());
    if name.as_str().unicode_len() == 0 {
        trim(account.id.as_str())
    } else {
        name
    }
}

/// The name of a certificate: its trimmed name, or `Unnamed certificate`.
pub fn certificate_display_name(certificate: &CertificateDraft) -> (r: String)
    ensures
        r@ == name_or(certificate.name@, "Unnamed certificate"@),
{
    if is_blank(certificate.name.as_str()) {
        copy_str("Unnamed certificate")
    } else {
        trim(certificate.name.as_str())
    }
}

/// The tag of a VLESS outbound: its trimmed name, or `VLESS`.
pub fn vless_outbound_tag_from_name(name: &str) -> (r: String)
    ensures
        r@ == name_or(name@, "VLESS"@),
{
    let t = trim(name);
    if t.as_str().unicode_len() == 0 {
        copy_str("VLESS")
    } else {
        t
    }
}

/// The label of the `index`-th revision (counting from zero):
/// `Revision n`, followed by its date in brackets when it has one.
pub open spec fn revision_text(index: nat, created_at: Seq<char>) -> Seq<char> {
    let date = trimmed(created_at);
    if date.len() == 0 {
        "Revision "@ + decimal(index + 1)
    } else {
        "Revision "@ + decimal(index + 1) + " ("@ + date + ")"@
    }
}

/// The label of a revision in the revision list.
pub fn revision_label(index: usize, revision: &NodeConfigRevision) -> (r: String)
    requires
        index < usize::MAX,
    ensures
        r@ == revision_text(index as nat, revision.created_at@),
{
    let date = trim(revision.created_at.as_str());
    let mut out = copy_str("Revision ");
    let n = u64_to_string((index + 1) as u64);
    out.append(n.as_str());
    if date.as_str().unicode_len() != 0 {
        out.append(" (");
        out.append(date.as_str());
        out.append(")");
    }
    out
}

/// The drop-down value of a three-state switch.
pub open spec fn option_bool_text(value: Option<bool>) -> Seq<char> {
    match value {
        Some(true) => "true"@,
        Some(false) => "false"@,
        None => Seq::empty(),
    }
}

/// The drop-down value of a three-state switch: `true`, `false` or empty.
pub fn option_bool_value(value: Option<bool>) -> (r: String)
    ensures
        r@ == option_bool_text(value),
{
    match value {
        Some(true) => copy_str("true"),
        Some(false) => copy_str("false"),
        None => String::new(),
    }
}

/// The label of a three-state switch.
pub open spec fn option_bool_caption(value: Option<bool>) -> Seq<char> {
    match value {
        Some(true) => "Enabled"@,
        Some(false) => "Disabled"@,
        None => "Inherit"@,
    }
}

/// The label of a three-state switch: `Enabled`, `Disabled` or `Inherit`.
pub fn option_bool_label(value: Option<bool>) -> (r: &'static str)
    ensures
        r@ == option_bool_caption(value),
{
    match value {
        Some(true) => "Enabled",
        Some(false) => "Disabled",
        None => "Inherit",
    }
}

/// Reads a three-state switch from a lower-cased text.
pub open spec fn option_bool_of(l: Seq<char>) -> Option<bool> {
    if l == "true"@ || l == "enabled"@ || l == "on"@ {
        Some(true)
    } else if l == "false"@ || l == "disabled"@ || l == "off"@ {
        Some(false)
    } else {
        None
    }
}

/// Reads a three-state switch: true, enabled or on; false, disabled or off
/// (any case, surrounding blanks ignored); anything else inherits.
pub fn option_bool_from_value(value: &str) -> (r: Option<bool>)
    ensures
        r == option_bool_of(lower_trimmed(value@)),
{
    let l = trim_lower(value);
    let l = l.as_str();
    if crate::text::eq_str(l, "true") || crate::text::eq_str(l, "enabled") || crate::text::eq_str(
        l,
        "on",
    ) {
        Some(true)
    } else if crate::text::eq_str(l, "false") || crate::text::eq_str(l, "disabled")
        || crate::text::eq_str(l, "off") {
        Some(false)
    } else {
        None
    }
}

/// A new reverse proxy: enabled, in portal mode, tagged `r-outbound`.
pub fn default_reverse_proxy_entry() -> (r: ReverseProxyDraft)
    ensures
        r.enabled,
        r.mode@ == "portal"@,
        r.tag@ == "r-outbound"@,
        r.domain@.len() == 0,
        r.bridge_outbound_tag@.len() == 0,
        r.target_outbound_tag@.len() == 0,
        r.portal_inbound_tag@.len() == 0,
{
    ReverseProxyDraft {
        enabled: true,
        mode: copy_str("portal"),
        tag: copy_str("r-outbound"),
        domain: String::new(),
        bridge_outbound_tag: String::new(),
        target_outbound_tag: String::new(),
        portal_inbound_tag: String::new(),
    }
}

/// True when every text field of a routing rule but the outbound tag is empty.
pub open spec fn rule_matches_nothing_yet(r: RoutingRuleDraft) -> bool {
    &&& r.remark@.len() == 0
    &&& r.domain@.len() == 0
    &&& r.ip@.len() == 0
    &&& r.port@.len() == 0
    &&& r.transport@.len() == 0
    &&& r.protocol@.len() == 0
    &&& r.inbound_tag@.len() == 0
    &&& r.user@.len() == 0
}

/// A new routing rule: enabled, sending everything to `direct`.
pub fn default_routing_rule_entry() -> (r: RoutingRuleDraft)
    ensures
        r.enabled,
        r.outbound_tag@ == "direct"@,
        rule_matches_nothing_yet(r),
{
    RoutingRuleDraft {
        enabled: true,
        remark: String::new(),
        domain: String::new(),
        ip: String::new(),
        port: String::new(),
        transport: String::new(),
        protocol: String::new(),
        inbound_tag: String::new(),
        user: String::new(),
        outbound_tag: copy_str("direct"),
    }
}

} // verus!
