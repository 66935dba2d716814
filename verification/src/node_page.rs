//! The node configuration page: which draft it opens with, the revision
//! list, and new revisions.

use vstd::prelude::*;
use vstd::string::*;
use crate::display::{revision_label, revision_text};
use crate::drafts::{default_node_draft, is_starting_draft};
use crate::ids::{is_uuid_text, new_entry_id};
use crate::config::FullConfig;
use crate::config_build::{build_full_config, full_config_of};
use crate::model::{AccountInfo, NodeConfigDraft, NodeConfigDraftView, NodeConfigRevision, ProxyNode};
use crate::sync::{sync_draft, synced};
use crate::text::{copy_str, eq_str};

verus! {

/// `i` is the first place of a revision with the id `id`.
pub open spec fn first_revision_with_id(rs: Seq<NodeConfigRevision>, id: Seq<char>, i: int) -> bool {
    &&& 0 <= i < rs.len()
    &&& rs[i].id@ == id
    &&& forall|k: int| 0 <= k < i ==> (#[trigger] rs[k]).id@ != id
}

fn find_revision(rs: &Vec<NodeConfigRevision>, id: &str) -> (r: Option<usize>)
    ensures
        match r {
            Some(i) => first_revision_with_id(rs@, id@, i as int),
            None => !exists|i: int| first_revision_with_id(rs@, id@, i),
        },
{
    let mut i: usize = 0;
    while i < rs.len()
        invariant
            i <= rs@.len(),
            forall|k: int| 0 <= k < i ==> (#[trigger] rs@[k]).id@ != id@,
        decreases rs@.len() - i,
    {
        if eq_str(rs[i].id.as_str(), id) {
            return Some(i);
        }
        i = i + 1;
    }
    proof {
        if exists|j: int| first_revision_with_id(rs@, id@, j) {
            let j = choose|j: int| first_revision_with_id(rs@, id@, j);
            assert(rs@[j].id@ == id@);
        }
    }
    None
}

/// `d` is draft `c` carrying the master key `key`, in canonical form.
pub open spec fn keyed_and_synced(c: NodeConfigDraftView, key: String, d: NodeConfigDraftView) -> bool {
    synced(NodeConfigDraftView { master_key: key, ..c }, d)
}

/// The draft the node page opens with: the draft saved in the browser,
/// carrying the node's master key and synced; else the node's deployed
/// configuration when it has inbounds or outbounds; else the active
/// revision (or the last one), carrying the node's master key and synced;
/// else the starting draft of a node.
pub fn initial_node_draft(
    node: &ProxyNode,
    saved: Option<NodeConfigDraft>,
    node_config: &NodeConfigDraft,
    revisions: &Vec<NodeConfigRevision>,
    active_revision_id: &str,
    link_remark_template: &str,
) -> (r: NodeConfigDraft)
    ensures
        match saved {
            Some(s) => keyed_and_synced(s@, node.master_key, r@),
            None => if node_config.inbounds@.len() > 0 || node_config.outbounds@.len() > 0 {
                r@ == node_config@
            } else if exists|i: int| first_revision_with_id(revisions@, active_revision_id@, i) {
                keyed_and_synced(
                    revisions@[choose|i: int|
                        first_revision_with_id(revisions@, active_revision_id@, i)].config@,
                    node.master_key,
                    r@,
                )
            } else if revisions@.len() > 0 {
                keyed_and_synced(revisions@.last().config@, node.master_key, r@)
            } else {
                is_starting_draft(r, node.master_key, link_remark_template@)
            },
        },
{
    match saved {
        Some(d) => {
            let mut d = d;
            d.master_key = node.master_key.clone();
            sync_draft(&mut d);
            d
        },
        None => {
            if node_config.inbounds.len() > 0 || node_config.outbounds.len() > 0 {
                return node_config.duplicate();
            }
            let found = match find_revision(revisions, active_revision_id) {
                Some(i) => {
                    proof {
                        assert forall|j: int|
                            first_revision_with_id(revisions@, active_revision_id@, j) implies j
                            == i by {
                            if j < i {
                                assert(revisions@[j].id@ == active_revision_id@);
                            } else if i < j {
                                assert(revisions@[i as int].id@ == active_revision_id@);
                            }
                        }
                        assert(first_revision_with_id(revisions@, active_revision_id@, i as int));
                    }
                    Some(i)
                },
                None => if revisions.len() > 0 {
                    Some(revisions.len() - 1)
                } else {
                    None
                },
            };
            match found {
                Some(i) => {
                    let mut d = revisions[i].config.duplicate();
                    d.master_key = node.master_key.clone();
                    sync_draft(&mut d);
                    d
                },
                None => default_node_draft(node, link_remark_template),
            }
        },
    }
}

/// The draft of the revision with the id `id`, synced; none when there is
/// no such revision.
pub fn revision_draft(revisions: &Vec<NodeConfigRevision>, id: &str) -> (r: Option<NodeConfigDraft>)
    ensures
        match r {
            Some(d) => exists|i: int|
                first_revision_with_id(revisions@, id@, i) && synced(
                    revisions@[i].config@,
                    d@,
                ),
            None => !exists|i: int| first_revision_with_id(revisions@, id@, i),
        },
{
    match find_revision(revisions, id) {
        Some(i) => {
            let mut d = revisions[i].config.duplicate();
            sync_draft(&mut d);
            Some(d)
        },
        None => None,
    }
}

/// The entries of the revision list, newest first: each revision's id and
/// label; a single unsaved first revision dated `today` when there is none.
pub fn revision_options(revisions: &Vec<NodeConfigRevision>, today: &str) -> (r: Vec<(String, String)>)
    requires
        revisions@.len() < usize::MAX,
    ensures
        revisions@.len() == 0 ==> r@.len() == 1 && r@[0].0@.len() == 0 && r@[0].1@ == "Revision 1 ("@
            + today@ + ")"@,
        revisions@.len() > 0 ==> r@.len() == revisions@.len() && forall|k: int|
            0 <= k < r@.len() ==> {
                let i = revisions@.len() - 1 - k;
                &&& (#[trigger] r@[k]).0 == revisions@[i].id
                &&& r@[k].1@ == revision_text(i as nat, revisions@[i].created_at@)
            },
{
    let mut out: Vec<(String, String)> = Vec::new();
    if revisions.len() == 0 {
        let mut label = copy_str("Revision 1 (");
        label.append(today);
        label.append(")");
        out.push((String::new(), label));
        return out;
    }
    let n = revisions.len();
    let mut k: usize = 0;
    while k < n
        invariant
            n == revisions@.len(),
            n < usize::MAX,
            k <= n,
            out@.len() == k,
            forall|j: int|
                0 <= j < k ==> {
                    let i = n - 1 - j;
                    &&& (#[trigger] out@[j]).0 == revisions@[i].id
                    &&& out@[j].1@ == revision_text(i as nat, revisions@[i].created_at@)
                },
        decreases n - k,
    {
        let i = n - 1 - k;
        let r = &revisions[i];
        out.push((r.id.clone(), revision_label(i, r)));
        k = k + 1;
    }
    out
}

/// A new revision of a draft: a fresh id, the given date, and the draft
/// carrying the node's master key, synced.
pub fn new_revision(draft: &NodeConfigDraft, master_key: &String, created_at: &str) -> (r:
    NodeConfigRevision)
    ensures
        is_uuid_text(r.id@),
        r.created_at@ == created_at@,
        keyed_and_synced(draft@, *master_key, r.config@),
{
    let mut config = draft.duplicate();
    config.master_key = master_key.clone();
    sync_draft(&mut config);
    NodeConfigRevision { id: new_entry_id(), created_at: copy_str(created_at), config }
}

/// Records a draft as a new revision of a node whose configuration,
/// revisions and active revision are `config`, `revisions` and
/// `active_revision_id`: the revision (see `new_revision`) is added last,
/// becomes the active one, and its draft becomes the node's configuration.
/// Its id comes back.
pub fn persist_revision(
    config: &mut NodeConfigDraft,
    revisions: &mut Vec<NodeConfigRevision>,
    active_revision_id: &mut String,
    draft: &NodeConfigDraft,
    master_key: &String,
    today: &str,
) -> (r: String)
    ensures
        final(revisions)@.len() == old(revisions)@.len() + 1,
        final(revisions)@.drop_last() == old(revisions)@,
        is_uuid_text(r@),
        final(revisions)@.last().id == r,
        final(revisions)@.last().created_at@ == today@,
        keyed_and_synced(draft@, *master_key, final(revisions)@.last().config@),
        *final(active_revision_id) == r,
        final(config)@ == final(revisions)@.last().config@,
{
    let revision = new_revision(draft, master_key, today);
    let id = revision.id.clone();
    *config = revision.config.duplicate();
    *active_revision_id = revision.id.clone();
    let ghost before = revisions@;
    revisions.push(revision);
    assert(revisions@.drop_last() =~= before);
    id
}

/// A revision that was just persisted under an id no earlier revision had
/// is the one the revision list finds under that id.
pub proof fn law_persisted_revision_is_found(before: Seq<NodeConfigRevision>, after: Seq<NodeConfigRevision>, id: String)
    requires
        after.len() == before.len() + 1,
        after.drop_last() == before,
        after.last().id == id,
        forall|k: int| 0 <= k < before.len() ==> (#[trigger] before[k]).id@ != id@,
    ensures
        first_revision_with_id(after, id@, before.len() as int),
{
    assert forall|k: int| 0 <= k < before.len() implies (#[trigger] after[k]).id@ != id@ by {
        assert(after[k] == after.drop_last()[k]);
    }
}

/// The configuration deployed from the editor's draft: the draft synced,
/// carrying the master key of the node as it is now known (`current_key`,
/// when the node is still there), built for `node` and the known `accounts`
/// (see `build_full_config`).
pub fn config_for_deploy(
    draft: &NodeConfigDraft,
    current_key: Option<&String>,
    node: &ProxyNode,
    accounts: &[AccountInfo],
) -> (r: FullConfig)
    ensures
        exists|s: NodeConfigDraftView, d: NodeConfigDraft, n: NodeConfigDraftView|
            #[trigger] synced(draft@, s) && d@ == (match current_key {
                Some(k) => NodeConfigDraftView { master_key: *k, ..s },
                None => s,
            }) && synced(d@, n) && #[trigger] full_config_of(r, d, n, node@, accounts@),
{
    let mut d = draft.duplicate();
    sync_draft(&mut d);
    let ghost synced_view = d@;
    match current_key {
        Some(k) => {
            d.master_key = k.clone();
        },
        None => {},
    }
    let r = build_full_config(&d, node, accounts);
    proof {
        let n = choose|n: NodeConfigDraftView| synced(d@, n) && full_config_of(r, d, n, node@, accounts@);
        assert(synced(draft@, synced_view) && synced(d@, n) && full_config_of(r, d, n, node@, accounts@));
    }
    r
}

/// What the node answered to a new configuration.
pub struct ConfigUpdateResponse {
    pub success: bool,
    pub error: String,
}

/// The message shown after a deployment: success, or the node's error, or
/// the error of the request.
pub fn deploy_message(result: &Result<ConfigUpdateResponse, String>) -> (r: String)
    ensures
        r@ == match result {
            Ok(resp) => if resp.success {
                "Deployed successfully"@
            } else {
                "Deploy failed: "@ + resp.error@
            },
            Err(e) => "Deploy failed: "@ + e@,
        },
{
    match result {
        Ok(resp) => {
            if resp.success {
                copy_str("Deployed successfully")
            } else {
                let mut m = copy_str("Deploy failed: ");
                m.append(resp.error.as_str());
                m
            }
        },
        Err(e) => {
            let mut m = copy_str("Deploy failed: ");
            m.append(e.as_str());
            m
        },
    }
}

/// The tabs of the node page.
#[derive(PartialEq, Eq, Structural, Clone, Copy, Debug)]
pub enum ConfigTab {
    Inbounds,
    Outbounds,
    Routing,
    Settings,
    Status,
}

/// The key of a tab in the navigation bar.
pub open spec fn tab_key(tab: ConfigTab) -> Seq<char> {
    match tab {
        ConfigTab::Inbounds => "inbounds"@,
        ConfigTab::Outbounds => "outbounds"@,
        ConfigTab::Routing => "routing"@,
        ConfigTab::Settings => "settings"@,
        ConfigTab::Status => "status"@,
    }
}

/// The tab a navigation key selects: the inbounds tab for an unknown key.
pub open spec fn tab_of_key(key: Seq<char>) -> ConfigTab {
    if key == "outbounds"@ {
        ConfigTab::Outbounds
    } else if key == "routing"@ {
        ConfigTab::Routing
    } else if key == "settings"@ {
        ConfigTab::Settings
    } else if key == "status"@ {
        ConfigTab::Status
    } else {
        ConfigTab::Inbounds
    }
}

/// The key of a tab in the navigation bar.
pub fn nav_key(tab: ConfigTab) -> (r: &'static str)
    ensures
        r@ == tab_key(tab),
{
    match tab {
        ConfigTab::Inbounds => "inbounds",
        ConfigTab::Outbounds => "outbounds",
        ConfigTab::Routing => "routing",
        ConfigTab::Settings => "settings",
        ConfigTab::Status => "status",
    }
}

/// The tab a navigation key selects (see `tab_of_key`).
pub fn config_tab_for_key(key: &str) -> (r: ConfigTab)
    ensures
        r == tab_of_key(key@),
{
    if eq_str(key, "outbounds") {
        ConfigTab::Outbounds
    } else if eq_str(key, "routing") {
        ConfigTab::Routing
    } else if eq_str(key, "settings") {
        ConfigTab::Settings
    } else if eq_str(key, "status") {
        ConfigTab::Status
    } else {
        ConfigTab::Inbounds
    }
}

/// Selecting the key of a tab in the navigation bar opens that tab.
pub proof fn law_nav_key_selects_its_tab(tab: ConfigTab)
    ensures
        tab_of_key(tab_key(tab)) == tab,
{
    reveal_strlit("inbounds");
    reveal_strlit("outbounds");
    reveal_strlit("routing");
    reveal_strlit("settings");
    reveal_strlit("status");
    assert("inbounds"@.len() == 8 && "outbounds"@.len() == 9 && "routing"@.len() == 7);
    assert("settings"@.len() == 8 && "status"@.len() == 6);
    assert("inbounds"@[0] != "outbounds"@[0]);
    assert("routing"@[0] != "outbounds"@[0] && "routing"@[0] != "settings"@[0]);
    assert("routing"@[0] != "status"@[0]);
    assert("settings"@[1] != "status"@[1]);
}

/// An entry of the navigation bar: its key, its label and its icon.
pub struct NavItem {
    pub value: String,
    pub label: String,
    pub icon_name: String,
}

/// The navigation bar entries, in order: key, label, icon.
pub open spec fn nav_entries() -> Seq<(Seq<char>, Seq<char>, Seq<char>)> {
    seq![
        ("status"@, "Status"@, "icon-bar-chart-4"@),
        ("inbounds"@, "Inbounds"@, "icon-call-received"@),
        ("outbounds"@, "Outbounds"@, "icon-call-made"@),
        ("routing"@, "Routing"@, "icon-call-split"@),
        ("settings"@, "Settings"@, "icon-settings"@),
    ]
}

fn nav_item(value: &str, label: &str, icon_name: &str) -> (r: NavItem)
    ensures
        r.value@ == value@,
        r.label@ == label@,
        r.icon_name@ == icon_name@,
{
    NavItem { value: copy_str(value), label: copy_str(label), icon_name: copy_str(icon_name) }
}

/// The entries of the node page's navigation bar (see `nav_entries`).
pub fn nav_items() -> (r: Vec<NavItem>)
    ensures
        r@.len() == nav_entries().len(),
        forall|k: int|
            0 <= k < r@.len() ==> ((#[trigger] r@[k]).value@, r@[k].label@, r@[k].icon_name@)
                == nav_entries()[k],
{
    let mut r: Vec<NavItem> = Vec::new();
    r.push(nav_item("status", "Status", "icon-bar-chart-4"));
    r.push(nav_item("inbounds", "Inbounds", "icon-call-received"));
    r.push(nav_item("outbounds", "Outbounds", "icon-call-made"));
    r.push(nav_item("routing", "Routing", "icon-call-split"));
    r.push(nav_item("settings", "Settings", "icon-settings"));
    r
}

/// Every tab has an entry in the navigation bar, under its own key.
pub proof fn law_every_tab_is_in_the_nav_bar(tab: ConfigTab)
    ensures
        exists|k: int| 0 <= k < nav_entries().len() && (#[trigger] nav_entries()[k]).0 == tab_key(tab),
{
    match tab {
        ConfigTab::Status => assert(nav_entries()[0].0 == tab_key(tab)),
        ConfigTab::Inbounds => assert(nav_entries()[1].0 == tab_key(tab)),
        ConfigTab::Outbounds => assert(nav_entries()[2].0 == tab_key(tab)),
        ConfigTab::Routing => assert(nav_entries()[3].0 == tab_key(tab)),
        ConfigTab::Settings => assert(nav_entries()[4].0 == tab_key(tab)),
    }
}

} // verus!
