# node_config

The logic of a web manager for proxy nodes, verified with Verus: the
configuration draft of a node and the edits made to it, the configuration
deployed to a node, access links, accounts, revisions, WARP registrations,
ACME requests, and the labels and choices the pages show.

Layout:

- `src/` — the verified library. `model.rs` and `config.rs` hold the data;
  `sync.rs` puts a draft in canonical form and `sync_laws.rs` proves that a
  second sync gives every entry back as the first left it (the same texts,
  no new ids); `ids.rs` makes version-4 UUIDs for new entries;
  `config_build.rs` builds the deployed configuration; `editing.rs`, `entry_editors.rs`, `rule_editor.rs`,
  `node_page.rs`, `accounts.rs`, `acme.rs` and `listing.rs` hold what the
  pages decide; `text.rs`, `uri.rs`, `vless_link.rs`, `links.rs`, `keys.rs`,
  `qr.rs`, `warp.rs` and `time_text.rs` hold the text formats and the calls
  into outside crates, each behind a small trusted wrapper.
- `tests/` — tests on concrete values, run against the compiled library.
- `app/` — the browser side that stays outside the proofs: the clipboard,
  the `Math.random` fallbacks and the floating-point traffic figures.
