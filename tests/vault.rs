use canister_store::vault::{PasswordEntry, PasswordVault};

fn anonymous() -> Vec<u8> {
    vec![4u8]
}

fn google_entry() -> PasswordEntry {
    PasswordEntry {
        service_name: "Google".to_string(),
        username: "myemail@example.com".to_string(),
        salt: "aaaa".to_string(),
        encrypted: "aaaa".to_string(),
        iv: "aaaa".to_string(),
        notes: Some("My Google account".to_string()),
    }
}

fn entry(name: &str) -> PasswordEntry {
    PasswordEntry {
        service_name: name.to_string(),
        username: "user".to_string(),
        encrypted: "cipher".to_string(),
        iv: "iv".to_string(),
        salt: "salt".to_string(),
        notes: None,
    }
}

#[test]
fn test_add_password() {
    let mut vault = PasswordVault::new();
    let result_add_password = vault.add_password(&anonymous(), google_entry());
    assert!(result_add_password);
    let result_get_passwords = vault.get_passwords(&anonymous());
    assert_eq!(!result_get_passwords.is_empty(), true);
    assert_eq!(result_get_passwords.len(), 1);
    assert_eq!(result_get_passwords[0].service_name, "Google");
}

#[test]
fn test_get_passwords() {
    let vault = PasswordVault::new();
    let result = vault.get_passwords(&anonymous());
    assert_eq!(result.is_empty(), true);
}

#[test]
fn test_delete_password() {
    let mut vault = PasswordVault::new();
    let result_add_password = vault.add_password(&anonymous(), google_entry());
    assert!(result_add_password);
    let result = vault.delete_password(&anonymous(), 0);
    assert!(result);
}

#[test]
fn entries_keep_their_order_and_fields() {
    let mut vault = PasswordVault::new();
    assert!(vault.add_password(&anonymous(), entry("a")));
    assert!(vault.add_password(&anonymous(), google_entry()));
    let got = vault.get_passwords(&anonymous());
    assert_eq!(got.len(), 2);
    assert_eq!(got[0].service_name, "a");
    assert_eq!(got[0].notes, None);
    assert_eq!(got[1].username, "myemail@example.com");
    assert_eq!(got[1].notes, Some("My Google account".to_string()));
}

#[test]
fn owners_do_not_see_each_other() {
    let mut vault = PasswordVault::new();
    let alice = vec![1u8, 2, 3];
    let bob = vec![1u8, 2];
    assert!(vault.add_password(&alice, entry("a")));
    assert!(vault.add_password(&bob, entry("b")));
    assert_eq!(vault.get_passwords(&alice).len(), 1);
    assert_eq!(vault.get_passwords(&alice)[0].service_name, "a");
    assert_eq!(vault.get_passwords(&bob)[0].service_name, "b");
    assert!(vault.get_passwords(&anonymous()).is_empty());
}

#[test]
fn update_replaces_one_entry() {
    let mut vault = PasswordVault::new();
    vault.add_password(&anonymous(), entry("a"));
    vault.add_password(&anonymous(), entry("b"));
    assert!(vault.update_password(&anonymous(), 1, entry("c")));
    let got = vault.get_passwords(&anonymous());
    assert_eq!(got.len(), 2);
    assert_eq!(got[0].service_name, "a");
    assert_eq!(got[1].service_name, "c");
}

#[test]
fn update_out_of_range_changes_nothing() {
    let mut vault = PasswordVault::new();
    vault.add_password(&anonymous(), entry("a"));
    assert!(!vault.update_password(&anonymous(), 1, entry("c")));
    assert!(!vault.update_password(&vec![9u8], 0, entry("c")));
    let got = vault.get_passwords(&anonymous());
    assert_eq!(got.len(), 1);
    assert_eq!(got[0].service_name, "a");
}

#[test]
fn delete_moves_later_entries_down() {
    let mut vault = PasswordVault::new();
    vault.add_password(&anonymous(), entry("a"));
    vault.add_password(&anonymous(), entry("b"));
    vault.add_password(&anonymous(), entry("c"));
    assert!(vault.delete_password(&anonymous(), 1));
    let got = vault.get_passwords(&anonymous());
    assert_eq!(got.len(), 2);
    assert_eq!(got[0].service_name, "a");
    assert_eq!(got[1].service_name, "c");
}

#[test]
fn delete_on_empty_or_unknown_owner_fails() {
    let mut vault = PasswordVault::new();
    assert!(!vault.delete_password(&anonymous(), 0));
    vault.add_password(&anonymous(), entry("a"));
    assert!(!vault.delete_password(&vec![5u8], 0));
    assert!(!vault.delete_password(&anonymous(), 1));
    assert_eq!(vault.get_passwords(&anonymous()).len(), 1);
}
