use node_config::accounts::{
    account_expiry_input, account_expiry_label, apply_account_form, delete_account,
    groups_field_text, parse_account_expiry, parse_allowed_ips, parse_group_list,
    save_account_form, save_group_lists, AccountForm,
};
use node_config::model::{AccountInfo, ProxyNode};

fn strings(v: &[&str]) -> Vec<String> {
    v.iter().map(|s| s.to_string()).collect()
}

fn account(id: &str, created: i64) -> AccountInfo {
    AccountInfo {
        id: id.to_string(),
        name: format!("name-{}", id),
        token: format!("token-{}", id),
        groups: strings(&["g1"]),
        allowed_ips: strings(&["10.0.0.0/8"]),
        creation_date: created,
        expiry_date: 0,
    }
}

fn form(name: &str, token: &str, ips: &str, groups: &str, expiry: &str) -> AccountForm {
    AccountForm {
        name: name.to_string(),
        token: token.to_string(),
        allowed_ips: ips.to_string(),
        groups: groups.to_string(),
        expiry: expiry.to_string(),
    }
}

#[test]
fn expiry_times_are_shown_in_utc() {
    assert_eq!(account_expiry_label(1431648000), "2015-05-15 00:00");
    assert_eq!(account_expiry_label(1704164640), "2024-01-02 03:04");
    assert_eq!(account_expiry_label(0), "Never");
    assert_eq!(account_expiry_label(-5), "Never");
    assert_eq!(account_expiry_label(i64::MAX), "Never");
    assert_eq!(account_expiry_input(1431648000), "2015-05-15T00:00");
    assert_eq!(account_expiry_input(0), "");
}

#[test]
fn expiry_inputs_are_read_as_utc() {
    assert_eq!(parse_account_expiry("2024-01-02T03:04"), 1704164640);
    assert_eq!(parse_account_expiry("2015-05-15T00:00"), 1431648000);
    assert_eq!(parse_account_expiry(""), 0);
    assert_eq!(parse_account_expiry("tomorrow"), 0);
    // the input shows what it reads
    assert_eq!(account_expiry_input(parse_account_expiry("2030-12-31T23:59")), "2030-12-31T23:59");
}

#[test]
fn allowed_ips_and_groups_are_split_on_commas() {
    assert_eq!(
        parse_allowed_ips(" 10.0.0.0/8, ,192.168.1.0/24 ,"),
        strings(&["10.0.0.0/8", "192.168.1.0/24"])
    );
    assert!(parse_allowed_ips("").is_empty());
    assert_eq!(parse_group_list(" b, a , b,, c"), strings(&["b", "a", "c"]));
}

#[test]
fn a_new_account_gets_the_given_id_and_time() {
    let mut accounts = vec![account("a1", 10)];
    let f = form(" alice ", "  ", "1.1.1.1/32", "g2, g2", "2024-01-02T03:04");
    apply_account_form(&mut accounts, None, &f, 500, "abcd1234", "fresh-token");
    assert_eq!(accounts.len(), 2);
    assert_eq!(accounts[0], account("a1", 10));
    let a = &accounts[1];
    assert_eq!(a.id, "abcd1234");
    assert_eq!(a.name, " alice ");
    assert_eq!(a.token, "fresh-token");
    assert_eq!(a.allowed_ips, strings(&["1.1.1.1/32"]));
    assert_eq!(a.groups, strings(&["g2"]));
    assert_eq!(a.creation_date, 500);
    assert_eq!(a.expiry_date, 1704164640);
}

#[test]
fn an_edited_account_keeps_its_id_token_and_creation_time() {
    let mut accounts = vec![account("a1", 10), account("a2", 0), account("a3", 30)];
    let editing = accounts[0].clone();
    let f = form("renamed", "", "", "", "");
    apply_account_form(&mut accounts, Some(&editing), &f, 500, "unused", "unused");
    assert_eq!(accounts.len(), 3);
    let a = &accounts[0];
    assert_eq!(a.id, "a1");
    assert_eq!(a.name, "renamed");
    assert_eq!(a.token, "token-a1");
    assert_eq!(a.creation_date, 10);
    assert!(a.groups.is_empty());
    assert_eq!(a.expiry_date, 0);
    assert_eq!(accounts[1], account("a2", 0));
    assert_eq!(accounts[2], account("a3", 30));

    // an account without a creation time gets the current one; a typed token wins
    let editing = accounts[1].clone();
    let f = form("b", " new-token ", "", "g9", "");
    apply_account_form(&mut accounts, Some(&editing), &f, 777, "unused", "unused");
    assert_eq!(accounts[1].creation_date, 777);
    assert_eq!(accounts[1].token, "new-token");
    assert_eq!(accounts[1].groups, strings(&["g9"]));
}

#[test]
fn an_edited_account_that_is_gone_is_added_again() {
    let mut accounts = vec![account("a1", 10)];
    let editing = account("a9", 90);
    let f = form("back", "", "", "", "");
    apply_account_form(&mut accounts, Some(&editing), &f, 500, "unused", "unused");
    assert_eq!(accounts.len(), 2);
    assert_eq!(accounts[1].id, "a9");
    assert_eq!(accounts[1].token, "token-a9");
    assert_eq!(accounts[1].creation_date, 90);
}

#[test]
fn saving_a_new_account_draws_its_id_and_token() {
    let mut accounts = Vec::new();
    let f = form("n", "", "", "", "");
    assert!(save_account_form(&mut accounts, None, &f));
    assert_eq!(accounts.len(), 1);
    let a = &accounts[0];
    assert_eq!(a.id.len(), 8);
    assert!(a.id.chars().all(|c| c.is_ascii_hexdigit() && !c.is_ascii_uppercase()));
    assert_eq!(a.token.len(), 36);
    assert_eq!(a.token.matches('-').count(), 4);
    assert!(a.creation_date > 1_600_000_000);
}

#[test]
fn deleting_an_account_removes_every_one_with_its_id() {
    let mut accounts = vec![account("a1", 1), account("a2", 2), account("a1", 3)];
    delete_account(&mut accounts, "a1");
    assert_eq!(accounts, vec![account("a2", 2)]);
    delete_account(&mut accounts, "zz");
    assert_eq!(accounts, vec![account("a2", 2)]);
}

#[test]
fn saving_the_group_list_normalises_every_group() {
    let mut a = account("a1", 1);
    a.groups = strings(&[" g1", "g1", "", "g2 "]);
    let mut accounts = vec![a];
    let mut nodes = vec![ProxyNode {
        id: "n1".to_string(),
        name: "node".to_string(),
        address: "node.example".to_string(),
        public_ip: String::new(),
        groups: strings(&["x", " x ", "y"]),
        master_key: String::new(),
    }];
    let groups = save_group_lists("b, a, b", &mut accounts, &mut nodes);
    assert_eq!(groups, strings(&["b", "a"]));
    assert_eq!(accounts[0].groups, strings(&["g1", "g2"]));
    assert_eq!(accounts[0].token, "token-a1");
    assert_eq!(nodes[0].groups, strings(&["x", "y"]));
    assert_eq!(nodes[0].address, "node.example");
}

#[test]
fn the_groups_dialog_starts_with_the_normalised_groups() {
    assert_eq!(groups_field_text(&strings(&[" b", "a", "b", ""])), "b, a");
    assert_eq!(groups_field_text(&Vec::new()), "");
    let shown = groups_field_text(&strings(&["x", " y "]));
    assert_eq!(parse_group_list(&shown), strings(&["x", "y"]));
}

#[test]
fn an_edited_account_falls_back_on_the_token_it_was_opened_with() {
    let mut accounts = vec![account("a1", 10)];
    let mut editing = accounts[0].clone();
    editing.token = "opened-token".to_string();
    let f = form("renamed", " ", "", "", "");
    apply_account_form(&mut accounts, Some(&editing), &f, 500, "unused", "unused");
    assert_eq!(accounts[0].token, "opened-token");
    assert_eq!(accounts[0].creation_date, 10);
    let mut again = accounts.clone();
    assert!(save_account_form(&mut again, Some(&editing), &f));
    assert_eq!(again, accounts);
}
