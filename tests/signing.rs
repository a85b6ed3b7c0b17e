use seewo::sign::{concat_sorted, sign_params, sort_pairs, str_bytes_le};
use seewo::SeewoSignType;

fn pairs(items: &[(&str, &str)]) -> Vec<(String, String)> {
    items.iter().map(|(k, v)| (k.to_string(), v.to_string())).collect()
}

#[test]
fn salted_digest_of_no_params_is_md5_of_secret_twice() {
    let sig = sign_params(&Vec::new(), "s", SeewoSignType::Md5);
    assert_eq!(sig, "3691308F2A4C2F6983F2880D32E29C84");
}

#[test]
fn pairs_sort_by_key_into_signing_string() {
    let sorted = sort_pairs(&pairs(&[("b", "2"), ("a", "1")]));
    assert_eq!(sorted, pairs(&[("a", "1"), ("b", "2")]));
    assert_eq!(concat_sorted(&sorted), b"a1b2".to_vec());
    let sig = sign_params(&pairs(&[("b", "2"), ("a", "1")]), "", SeewoSignType::Md5);
    assert_eq!(sig, "F2E49AF795161E14ACF9D9245473A368");
}

#[test]
fn equal_keys_keep_their_order() {
    let sorted = sort_pairs(&pairs(&[("k", "2"), ("b", "x"), ("k", "1"), ("a", "y")]));
    assert_eq!(sorted, pairs(&[("a", "y"), ("b", "x"), ("k", "2"), ("k", "1")]));
}

#[test]
fn empty_values_are_not_signed() {
    let with_empty = sign_params(&pairs(&[("e", ""), ("a", "1")]), "k", SeewoSignType::Hmac);
    let without = sign_params(&pairs(&[("a", "1")]), "k", SeewoSignType::Hmac);
    assert_eq!(with_empty, without);
    assert_eq!(without, "C5936FCFAD505D8B2FD38300842E58D1");
    assert_eq!(concat_sorted(&pairs(&[("a", "1"), ("e", "")])), b"a1".to_vec());
}

#[test]
fn keyed_hash_signature_value() {
    let sig = sign_params(&pairs(&[("b", "2"), ("a", "1")]), "key", SeewoSignType::Hmac);
    assert_eq!(sig, "9D5AB5A5FD899B23168638746B38D201");
}

#[test]
fn signatures_repeat_and_follow_values() {
    for t in [SeewoSignType::Hmac, SeewoSignType::Md5] {
        let p = pairs(&[("a", "1"), ("b", "2")]);
        let first = sign_params(&p, "sec", t);
        let second = sign_params(&p, "sec", t);
        assert_eq!(first, second);
        let changed = sign_params(&pairs(&[("a", "1"), ("b", "3")]), "sec", t);
        assert_ne!(first, changed);
        assert_eq!(first.len(), 32);
        assert!(first.chars().all(|c| c.is_ascii_digit() || ('A'..='F').contains(&c)));
    }
}

#[test]
fn byte_order_of_keys() {
    assert!(str_bytes_le("a", "b"));
    assert!(!str_bytes_le("b", "a"));
    assert!(str_bytes_le("ab", "ab"));
    assert!(str_bytes_le("ab", "abc"));
    assert!(!str_bytes_le("abc", "ab"));
    assert!(str_bytes_le("", ""));
    assert!(str_bytes_le("Z", "a"));
}
