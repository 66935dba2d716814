//! Verified building blocks of the node configuration manager: text
//! normalisation, configuration drafts and the pure logic that turns them
//! into proxy-core configuration, access links and editor labels.

pub mod text;
pub mod model;
pub mod protocols;
pub mod display;
pub mod dns;
pub mod certs;
pub mod uri;
pub mod vless_link;
pub mod links;
pub mod groups;
pub mod warp;
pub mod ids;
pub mod drafts;
pub mod sync;
pub mod order;
pub mod routing;
pub mod config;
pub mod config_build;
pub mod keys;
pub mod qr;
pub mod time_text;
pub mod rule_editor;
pub mod editing;
pub mod node_page;
pub mod accounts;
pub mod acme;
pub mod entry_editors;
pub mod listing;
pub mod sync_laws;
pub mod editing_laws;
