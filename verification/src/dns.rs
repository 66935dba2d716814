//! DNS settings: the editor's summaries of DNS servers and hosts, and the
//! DNS section of the node configuration built from the draft.

use vstd::prelude::*;
use vstd::string::*;
use crate::model::{DnsDraft, DnsHostDraft, DnsServerDraft, NodeConfigDraft};
use crate::text::{
    chars_of, copy_str, csv_entries, decimal, is_blank, join, join_with, parse_unsigned,
    parse_unsigned_u64, parsed_unsigned, replace_char, replace_char_with, split_lines_csv, texts,
    trim, trimmed, u64_to_string,
};

verus! {

/// A DNS server of the node configuration.
#[derive(Clone, Debug, PartialEq, Eq)]
pub struct DnsServerConfig {
    pub address: String,
    pub client_ip: String,
    pub port: u32,
    pub skip_fallback: bool,
    pub domains: Vec<String>,
    pub expect_ips: Vec<String>,
    pub query_strategy: String,
    pub tag: String,
    pub timeout_ms: u64,
    pub disable_cache: Option<bool>,
    pub serve_stale: Option<bool>,
    pub serve_expired_ttl: Option<u32>,
    pub final_query: bool,
    pub unexpected_ips: Vec<String>,
}

/// A static host entry of the node configuration.
#[derive(Clone, Debug, PartialEq, Eq)]
pub struct DnsHostMapping {
    pub domain: String,
    pub values: Vec<String>,
}

/// The DNS section of the node configuration.
#[derive(Clone, Debug, PartialEq, Eq)]
pub struct DnsConfig {
    pub servers: Vec<DnsServerConfig>,
    pub hosts: Vec<DnsHostMapping>,
    pub client_ip: String,
    pub tag: String,
    pub query_strategy: String,
    pub disable_cache: bool,
    pub serve_stale: bool,
    pub serve_expired_ttl: u32,
    pub disable_fallback: bool,
    pub disable_fallback_if_match: bool,
    pub enable_parallel_query: bool,
    pub use_system_hosts: bool,
}

pub struct DnsServerView {
    pub address: Seq<char>,
    pub client_ip: Seq<char>,
    pub port: u32,
    pub skip_fallback: bool,
    pub domains: Seq<Seq<char>>,
    pub expect_ips: Seq<Seq<char>>,
    pub query_strategy: Seq<char>,
    pub tag: Seq<char>,
    pub timeout_ms: u64,
    pub disable_cache: Option<bool>,
    pub serve_stale: Option<bool>,
    pub serve_expired_ttl: Option<u32>,
    pub final_query: bool,
    pub unexpected_ips: Seq<Seq<char>>,
}

impl View for DnsServerConfig {
    type V = DnsServerView;

    open spec fn view(&self) -> DnsServerView {
        DnsServerView {
            address: self.address@,
            client_ip: self.client_ip@,
            port: self.port,
            skip_fallback: self.skip_fallback,
            domains: texts(self.domains@),
            expect_ips: texts(self.expect_ips@),
            query_strategy: self.query_strategy@,
            tag: self.tag@,
            timeout_ms: self.timeout_ms,
            disable_cache: self.disable_cache,
            serve_stale: self.serve_stale,
            serve_expired_ttl: self.serve_expired_ttl,
            final_query: self.final_query,
            unexpected_ips: texts(self.unexpected_ips@),
        }
    }
}

pub struct DnsHostView {
    pub domain: Seq<char>,
    pub values: Seq<Seq<char>>,
}

impl View for DnsHostMapping {
    type V = DnsHostView;

    open spec fn view(&self) -> DnsHostView {
        DnsHostView { domain: self.domain@, values: texts(self.values@) }
    }
}

pub struct DnsConfigView {
    pub servers: Seq<DnsServerView>,
    pub hosts: Seq<DnsHostView>,
    pub client_ip: Seq<char>,
    pub tag: Seq<char>,
    pub query_strategy: Seq<char>,
    pub disable_cache: bool,
    pub serve_stale: bool,
    pub serve_expired_ttl: u32,
    pub disable_fallback: bool,
    pub disable_fallback_if_match: bool,
    pub enable_parallel_query: bool,
    pub use_system_hosts: bool,
}

impl View for DnsConfig {
    type V = DnsConfigView;

    open spec fn view(&self) -> DnsConfigView {
        DnsConfigView {
            servers: Seq::new(self.servers@.len(), |i: int| self.servers@[i]@),
            hosts: Seq::new(self.hosts@.len(), |i: int| self.hosts@[i]@),
            client_ip: self.client_ip@,
            tag: self.tag@,
            query_strategy: self.query_strategy@,
            disable_cache: self.disable_cache,
            serve_stale: self.serve_stale,
            serve_expired_ttl: self.serve_expired_ttl,
            disable_fallback: self.disable_fallback,
            disable_fallback_if_match: self.disable_fallback_if_match,
            enable_parallel_query: self.enable_parallel_query,
            use_system_hosts: self.use_system_hosts,
        }
    }
}

/// The configured DNS server for a draft server: none when it has no address.
pub open spec fn server_config_of(s: DnsServerDraft) -> Option<DnsServerView> {
    if trimmed(s.address@).len() == 0 {
        None
    } else {
        Some(
            DnsServerView {
                address: trimmed(s.address@),
                client_ip: trimmed(s.client_ip@),
                port: s.port,
                skip_fallback: s.skip_fallback,
                domains: csv_entries(s.domains@),
                expect_ips: csv_entries(s.expect_ips@),
                query_strategy: trimmed(s.query_strategy@),
                tag: trimmed(s.tag@),
                timeout_ms: s.timeout_ms,
                disable_cache: s.disable_cache,
                serve_stale: s.serve_stale,
                serve_expired_ttl: s.serve_expired_ttl,
                final_query: s.final_query,
                unexpected_ips: csv_entries(s.unexpected_ips@),
            },
        )
    }
}

/// The configured host entry for a draft host: none when it has no domain or
/// no value.
pub open spec fn host_mapping_of(h: DnsHostDraft) -> Option<DnsHostView> {
    if trimmed(h.domain@).len() == 0 || csv_entries(h.values@).len() == 0 {
        None
    } else {
        Some(DnsHostView { domain: trimmed(h.domain@), values: csv_entries(h.values@) })
    }
}

/// Builds the configured DNS server of a draft server.
pub fn build_dns_server_config(server: &DnsServerDraft) -> (r: Option<DnsServerConfig>)
    ensures
        match r {
            Some(c) => server_config_of(*server) == Some(c@),
            None => server_config_of(*server) is None,
        },
{
    let address = trim(server.address.as_str());
    if address.as_str().unicode_len() == 0 {
        return None;
    }
    let c = DnsServerConfig {
        address,
        client_ip: trim(server.client_ip.as_str()),
        port: server.port,
        skip_fallback: server.skip_fallback,
        domains: split_lines_csv(server.domains.as_str()),
        expect_ips: split_lines_csv(server.expect_ips.as_str()),
        query_strategy: trim(server.query_strategy.as_str()),
        tag: trim(server.tag.as_str()),
        timeout_ms: server.timeout_ms,
        disable_cache: server.disable_cache,
        serve_stale: server.serve_stale,
        serve_expired_ttl: server.serve_expired_ttl,
        final_query: server.final_query,
        unexpected_ips: split_lines_csv(server.unexpected_ips.as_str()),
    };
    Some(c)
}

/// Builds the configured host entry of a draft host.
pub fn build_dns_host_mapping(host: &DnsHostDraft) -> (r: Option<DnsHostMapping>)
    ensures
        match r {
            Some(m) => host_mapping_of(*host) == Some(m@),
            None => host_mapping_of(*host) is None,
        },
{
    let domain = trim(host.domain.as_str());
    if domain.as_str().unicode_len() == 0 {
        return None;
    }
    let values = split_lines_csv(host.values.as_str());
    if values.len() == 0 {
        return None;
    }
    Some(DnsHostMapping { domain, values })
}

/// The configured servers of a list of draft servers, in order.
pub open spec fn built_servers(ds: Seq<DnsServerDraft>) -> Seq<DnsServerView>
    decreases ds.len(),
{
    if ds.len() == 0 {
        Seq::empty()
    } else {
        built_servers(ds.drop_last()) + match server_config_of(ds.last()) {
            Some(v) => seq![v],
            None => Seq::empty(),
        }
    }
}

/// The configured host entries of a list of draft hosts, in order.
pub open spec fn built_hosts(hs: Seq<DnsHostDraft>) -> Seq<DnsHostView>
    decreases hs.len(),
{
    if hs.len() == 0 {
        Seq::empty()
    } else {
        built_hosts(hs.drop_last()) + match host_mapping_of(hs.last()) {
            Some(v) => seq![v],
            None => Seq::empty(),
        }
    }
}

/// The DNS section built from a draft, before deciding whether it is empty.
pub open spec fn dns_section(d: DnsDraft) -> DnsConfigView {
    DnsConfigView {
        servers: built_servers(d.servers@),
        hosts: built_hosts(d.hosts@),
        client_ip: trimmed(d.client_ip@),
        tag: trimmed(d.tag@),
        query_strategy: trimmed(d.query_strategy@),
        disable_cache: d.disable_cache,
        serve_stale: d.serve_stale,
        serve_expired_ttl: d.serve_expired_ttl,
        disable_fallback: d.disable_fallback,
        disable_fallback_if_match: d.disable_fallback_if_match,
        enable_parallel_query: d.enable_parallel_query,
        use_system_hosts: d.use_system_hosts,
    }
}

/// True when a DNS section sets nothing at all.
pub open spec fn dns_section_unset(v: DnsConfigView) -> bool {
    &&& v.servers.len() == 0
    &&& v.hosts.len() == 0
    &&& v.client_ip.len() == 0
    &&& v.tag.len() == 0
    &&& v.query_strategy.len() == 0
    &&& !v.disable_cache
    &&& !v.serve_stale
    &&& v.serve_expired_ttl == 0
    &&& !v.disable_fallback
    &&& !v.disable_fallback_if_match
    &&& !v.enable_parallel_query
    &&& !v.use_system_hosts
}

/// Builds the DNS section of the node configuration; none when the draft
/// sets nothing.
pub fn build_dns_config(draft: &NodeConfigDraft) -> (r: Option<DnsConfig>)
    ensures
        match r {
            Some(c) => c@ == dns_section(draft.dns) && !dns_section_unset(c@),
            None => dns_section_unset(dns_section(draft.dns)),
        },
{
    let ghost ds = draft.dns.servers@;
    let mut servers: Vec<DnsServerConfig> = Vec::new();
    let mut i: usize = 0;
    while i < draft.dns.servers.len()
        invariant
            ds == draft.dns.servers@,
            i <= ds.len(),
            Seq::new(servers@.len(), |k: int| servers@[k]@) == built_servers(ds.take(i as int)),
        decreases ds.len() - i,
    {
        let ghost before = servers@;
        let built = build_dns_server_config(&draft.dns.servers[i]);
        match built {
            Some(c) => {
                servers.push(c);
            },
            None => {},
        }
        proof {
            assert(ds.take(i + 1).drop_last() =~= ds.take(i as int));
            assert(ds.take(i + 1).last() == ds[i as int]);
            assert(Seq::new(servers@.len(), |k: int| servers@[k]@) =~= built_servers(
                ds.take(i + 1),
            ));
        }
        i = i + 1;
    }
    assert(ds.take(ds.len() as int) =~= ds);
    let ghost hs = draft.dns.hosts@;
    let mut hosts: Vec<DnsHostMapping> = Vec::new();
    let mut j: usize = 0;
    while j < draft.dns.hosts.len()
        invariant
            hs == draft.dns.hosts@,
            j <= hs.len(),
            Seq::new(hosts@.len(), |k: int| hosts@[k]@) == built_hosts(hs.take(j as int)),
        decreases hs.len() - j,
    {
        let built = build_dns_host_mapping(&draft.dns.hosts[j]);
        match built {
            Some(m) => {
                hosts.push(m);
            },
            None => {},
        }
        proof {
            assert(hs.take(j + 1).drop_last() =~= hs.take(j as int));
            assert(hs.take(j + 1).last() == hs[j as int]);
            assert(Seq::new(hosts@.len(), |k: int| hosts@[k]@) =~= built_hosts(hs.take(j + 1)));
        }
        j = j + 1;
    }
    assert(hs.take(hs.len() as int) =~= hs);
    let dns = DnsConfig {
        servers,
        hosts,
        client_ip: trim(draft.dns.client_ip.as_str()),
        tag: trim(draft.dns.tag.as_str()),
        query_strategy: trim(draft.dns.query_strategy.as_str()),
        disable_cache: draft.dns.disable_cache,
        serve_stale: draft.dns.serve_stale,
        serve_expired_ttl: draft.dns.serve_expired_ttl,
        disable_fallback: draft.dns.disable_fallback,
        disable_fallback_if_match: draft.dns.disable_fallback_if_match,
        enable_parallel_query: draft.dns.enable_parallel_query,
        use_system_hosts: draft.dns.use_system_hosts,
    };
    assert(dns@ == dns_section(draft.dns));
    if dns.servers.len() == 0 && dns.hosts.len() == 0 && dns.client_ip.as_str().unicode_len() == 0
        && dns.tag.as_str().unicode_len() == 0 && dns.query_strategy.as_str().unicode_len() == 0
        && !dns.disable_cache && !dns.serve_stale && dns.serve_expired_ttl == 0
        && !dns.disable_fallback && !dns.disable_fallback_if_match && !dns.enable_parallel_query
        && !dns.use_system_hosts {
        return None;
    }
    Some(dns)
}

/// A new DNS server: port 53, five second timeout, everything else unset.
pub fn default_dns_server_draft() -> (r: DnsServerDraft)
    ensures
        r.port == 53,
        r.timeout_ms == 5000,
        r.address@.len() == 0,
        r.client_ip@.len() == 0,
        !r.skip_fallback,
        r.domains@.len() == 0,
        r.expect_ips@.len() == 0,
        r.query_strategy@.len() == 0,
        r.tag@.len() == 0,
        r.disable_cache is None,
        r.serve_stale is None,
        r.serve_expired_ttl is None,
        !r.final_query,
        r.unexpected_ips@.len() == 0,
{
    DnsServerDraft {
        address: String::new(),
        client_ip: String::new(),
        port: 53,
        skip_fallback: false,
        domains: String::new(),
        expect_ips: String::new(),
        query_strategy: String::new(),
        tag: String::new(),
        timeout_ms: 5000,
        disable_cache: None,
        serve_stale: None,
        serve_expired_ttl: None,
        final_query: false,
        unexpected_ips: String::new(),
    }
}

/// The one-line summary of a DNS server, parts joined by ` \u{b7} `.
pub open spec fn server_summary_parts(s: DnsServerDraft) -> Seq<Seq<char>> {
    seq!["Port "@ + decimal(s.port as nat)] + (if trimmed(s.client_ip@).len() > 0 {
        seq!["Client "@ + trimmed(s.client_ip@)]
    } else {
        Seq::empty()
    }) + (if trimmed(s.query_strategy@).len() > 0 {
        seq![trimmed(s.query_strategy@)]
    } else {
        Seq::empty()
    })
}

/// `Port n`, then the client address and the query strategy when set.
pub fn dns_server_summary(server: &DnsServerDraft) -> (r: String)
    ensures
        r@ == join_with(server_summary_parts(*server), " \u{b7} "@),
{
    let mut parts: Vec<String> = Vec::new();
    let mut first = copy_str("Port ");
    let p = u64_to_string(server.port as u64);
    first.append(p.as_str());
    parts.push(first);
    let client = trim(server.client_ip.as_str());
    if client.as_str().unicode_len() > 0 {
        let mut c = copy_str("Client ");
        c.append(client.as_str());
        parts.push(c);
    }
    let strategy = trim(server.query_strategy.as_str());
    if strategy.as_str().unicode_len() > 0 {
        parts.push(strategy);
    }
    assert(texts(parts@) =~= server_summary_parts(*server));
    join(&parts, " \u{b7} ")
}

/// The domain and address lists of a DNS server, line breaks shown as commas.
pub open spec fn server_detail_parts(s: DnsServerDraft) -> Seq<Seq<char>> {
    (if trimmed(s.domains@).len() > 0 {
        seq!["Domains: "@ + replace_char(s.domains@, '\n', ", "@)]
    } else {
        Seq::empty()
    }) + (if trimmed(s.expect_ips@).len() > 0 {
        seq!["Expect: "@ + replace_char(s.expect_ips@, '\n', ", "@)]
    } else {
        Seq::empty()
    }) + (if trimmed(s.unexpected_ips@).len() > 0 {
        seq!["Unexpected: "@ + replace_char(s.unexpected_ips@, '\n', ", "@)]
    } else {
        Seq::empty()
    })
}

/// The details line of a DNS server, or `-` when it lists nothing.
pub fn dns_server_details(server: &DnsServerDraft) -> (r: String)
    ensures
        server_detail_parts(*server).len() == 0 ==> r@ == "-"@,
        server_detail_parts(*server).len() > 0 ==> r@ == join_with(
            server_detail_parts(*server),
            " \u{b7} "@,
        ),
{
    let mut details: Vec<String> = Vec::new();
    if !is_blank(server.domains.as_str()) {
        let mut d = copy_str("Domains: ");
        let v = replace_char_with(server.domains.as_str(), '\n', ", ");
        d.append(v.as_str());
        details.push(d);
    }
    if !is_blank(server.expect_ips.as_str()) {
        let mut d = copy_str("Expect: ");
        let v = replace_char_with(server.expect_ips.as_str(), '\n', ", ");
        d.append(v.as_str());
        details.push(d);
    }
    if !is_blank(server.unexpected_ips.as_str()) {
        let mut d = copy_str("Unexpected: ");
        let v = replace_char_with(server.unexpected_ips.as_str(), '\n', ", ");
        d.append(v.as_str());
        details.push(d);
    }
    assert(texts(details@) =~= server_detail_parts(*server));
    if details.len() == 0 {
        copy_str("-")
    } else {
        join(&details, " \u{b7} ")
    }
}

/// The values of a DNS host joined by commas, or `-` when it has none.
pub fn dns_host_summary(host: &DnsHostDraft) -> (r: String)
    ensures
        csv_entries(host.values@).len() == 0 ==> r@ == "-"@,
        csv_entries(host.values@).len() > 0 ==> r@ == join_with(csv_entries(host.values@), ", "@),
{
    let values = split_lines_csv(host.values.as_str());
    if values.len() == 0 {
        copy_str("-")
    } else {
        join(&values, ", ")
    }
}

/// What a 32-bit number field of the DNS server editor holds after `value`
/// is typed: the number it reads as, or 0 when it does not read as one.
pub fn u32_field(value: &str) -> (r: u32)
    ensures
        r as nat == match parsed_unsigned(value@, u32::MAX as nat) {
            Some(v) => v,
            None => 0,
        },
{
    let cs = chars_of(value);
    match parse_unsigned(&cs, u32::MAX) {
        Some(v) => v,
        None => 0,
    }
}

/// What a 64-bit number field of the DNS server editor holds after `value`
/// is typed: the number it reads as, or 0 when it does not read as one.
pub fn u64_field(value: &str) -> (r: u64)
    ensures
        r as nat == match parsed_unsigned(value@, u64::MAX as nat) {
            Some(v) => v,
            None => 0,
        },
{
    let cs = chars_of(value);
    match parse_unsigned_u64(&cs, u64::MAX) {
        Some(v) => v,
        None => 0,
    }
}

/// What an optional 32-bit number field of the DNS server editor holds
/// after `value` is typed: the number it reads as, or none.
pub fn optional_u32_field(value: &str) -> (r: Option<u32>)
    ensures
        match r {
            Some(v) => parsed_unsigned(value@, u32::MAX as nat) == Some(v as nat),
            None => parsed_unsigned(value@, u32::MAX as nat) is None,
        },
{
    let cs = chars_of(value);
    parse_unsigned(&cs, u32::MAX)
}

/// A configured DNS server lists, as its domains, exactly the entries the
/// draft server's domains field was written with, and, as its expected IPs,
/// exactly the entries of its expect-IPs field (clean entries joined by a
/// list separator such as `,` or a line break), and, as its unexpected IPs,
/// exactly those of its unexpected-IPs field.
pub proof fn law_dns_server_lists(
    s: DnsServerDraft,
    v: DnsServerView,
    domains: Seq<Seq<char>>,
    ips: Seq<Seq<char>>,
    unexpected: Seq<Seq<char>>,
    sep: Seq<char>,
)
    requires
        server_config_of(s) == Some(v),
        crate::text::is_list_separator(sep),
        forall|k: int| 0 <= k < domains.len() ==> crate::text::is_clean_entry(#[trigger] domains[k]),
        forall|k: int| 0 <= k < ips.len() ==> crate::text::is_clean_entry(#[trigger] ips[k]),
        s.domains@ == crate::text::join_with(domains, sep),
        s.expect_ips@ == crate::text::join_with(ips, sep),
        forall|k: int| 0 <= k < unexpected.len() ==> crate::text::is_clean_entry(#[trigger] unexpected[k]),
        s.unexpected_ips@ == crate::text::join_with(unexpected, sep),
    ensures
        v.domains == domains,
        v.expect_ips == ips,
        v.unexpected_ips == unexpected,
{
    crate::text::law_csv_join_roundtrip(domains, sep);
    crate::text::law_csv_join_roundtrip(ips, sep);
    crate::text::law_csv_join_roundtrip(unexpected, sep);
}

/// A draft DNS server is configured exactly when its address is not blank,
/// and then with its trimmed address.
pub proof fn law_dns_server_address(s: DnsServerDraft)
    ensures
        (server_config_of(s) is Some) == (trimmed(s.address@).len() > 0),
        server_config_of(s) is Some ==> server_config_of(s)->Some_0.address == trimmed(s.address@),
{
}

} // verus!
