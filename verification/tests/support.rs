use soulbound::account_ids::AccountIds;
use soulbound::achievement::index::{index_push, index_remove};
use soulbound::text::{bytes_to_string, char_count, copy_of, hash_text, string_to_bytes};
use std::collections::HashMap;

#[test]
fn account_ids_start_empty() {
    let ids = AccountIds::new();
    assert!(ids.entries.is_empty());
    assert_eq!(ids.get(&"alice.near".to_string()), None);
    assert!(!ids.contains_key(&"alice.near".to_string()));
}

#[test]
fn account_ids_insert_binds_and_rebinds() {
    let mut ids = AccountIds::new();
    ids.insert("alice.near".to_string(), 1);
    ids.insert("bob.near".to_string(), 2);
    assert_eq!(ids.get(&"alice.near".to_string()), Some(1));
    assert_eq!(ids.get(&"bob.near".to_string()), Some(2));
    ids.insert("alice.near".to_string(), 3);
    assert_eq!(ids.get(&"alice.near".to_string()), Some(3));
    assert_eq!(ids.get(&"bob.near".to_string()), Some(2));
    assert_eq!(ids.entries.len(), 2);
    assert!(ids.contains_key(&"bob.near".to_string()));
}

#[test]
fn account_ids_remove_unbinds_one_account() {
    let mut ids = AccountIds::new();
    ids.insert("alice.near".to_string(), 1);
    ids.insert("bob.near".to_string(), 2);
    ids.remove(&"alice.near".to_string());
    assert_eq!(ids.get(&"alice.near".to_string()), None);
    assert_eq!(ids.get(&"bob.near".to_string()), Some(2));
    ids.remove(&"carol.near".to_string());
    assert_eq!(ids.entries, vec![("bob.near".to_string(), 2)]);
}

#[test]
fn account_ids_read_the_last_of_repeated_entries() {
    let ids = AccountIds {
        entries: vec![
            ("alice.near".to_string(), 1),
            ("bob.near".to_string(), 2),
            ("alice.near".to_string(), 3),
        ],
    };
    assert_eq!(ids.get(&"alice.near".to_string()), Some(3));
    let mut ids = ids;
    ids.remove(&"alice.near".to_string());
    assert_eq!(ids.get(&"alice.near".to_string()), None);
    assert_eq!(ids.entries, vec![("bob.near".to_string(), 2)]);
}

#[test]
fn index_push_appends_and_creates_buckets() {
    let mut index: HashMap<u128, Vec<u128>> = HashMap::new();
    index_push(&mut index, 1, 7);
    index_push(&mut index, 1, 8);
    index_push(&mut index, 2, 9);
    assert_eq!(index.get(&1), Some(&vec![7, 8]));
    assert_eq!(index.get(&2), Some(&vec![9]));
    assert_eq!(index.len(), 2);
}

#[test]
fn index_remove_takes_the_first_occurrence() {
    let mut index: HashMap<u128, Vec<u128>> = HashMap::new();
    index.insert(1, vec![7, 8, 7, 9]);
    index_remove(&mut index, 1, 7);
    assert_eq!(index.get(&1), Some(&vec![8, 7, 9]));
    index_remove(&mut index, 1, 10);
    assert_eq!(index.get(&1), Some(&vec![8, 7, 9]));
    index_remove(&mut index, 2, 7);
    assert_eq!(index.len(), 1);
    index_remove(&mut index, 1, 9);
    index_remove(&mut index, 1, 8);
    index_remove(&mut index, 1, 7);
    assert_eq!(index.get(&1), Some(&vec![]));
}

#[test]
fn text_becomes_one_byte_per_character() {
    assert_eq!(string_to_bytes(&String::new()), Vec::<u8>::new());
    assert_eq!(string_to_bytes(&"abc".to_string()), vec![0x61, 0x62, 0x63]);
    assert_eq!(string_to_bytes(&"\u{ff}\u{100}\u{1f600}".to_string()), vec![0xff, 0x00, 0x00]);
}

#[test]
fn bytes_become_one_character_per_byte() {
    assert_eq!(bytes_to_string(&vec![]), "");
    assert_eq!(bytes_to_string(&vec![0x61, 0x62, 0x63]), "abc");
    assert_eq!(bytes_to_string(&vec![0xe9, 0x00, 0x7f]), "\u{e9}\u{0}\u{7f}");
}

#[test]
fn copies_are_equal() {
    assert_eq!(copy_of(&vec![3u128, 1, 2]), vec![3, 1, 2]);
    assert_eq!(copy_of(&Vec::<u8>::new()), Vec::<u8>::new());
}

#[test]
fn characters_are_counted_not_bytes() {
    assert_eq!(char_count(&String::new()), 0);
    assert_eq!(char_count(&"abc".to_string()), 3);
    assert_eq!(char_count(&"a\u{e9}\u{20ac}\u{1f600}".to_string()), 4);
}

#[test]
fn hash_text_decodes_well_formed_bytes_only() {
    let mut hash = [0x61u8; 32];
    assert_eq!(hash_text(&hash), Some("a".repeat(32)));
    hash[30] = 0xc3;
    hash[31] = 0xa9;
    assert_eq!(hash_text(&hash), Some(format!("{}\u{e9}", "a".repeat(30))));
    hash[31] = 0x61;
    assert_eq!(hash_text(&hash), None);
    hash[30] = 0xff;
    assert_eq!(hash_text(&hash), None);
}
