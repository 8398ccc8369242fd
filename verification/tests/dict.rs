use bandcamp_dl::dict::Dictionary;

#[test]
fn new_dictionary_is_empty() {
    let d: Dictionary<u32> = Dictionary::new();
    assert_eq!(d.len(), 0);
    assert_eq!(d.get("a"), None);
    assert!(!d.contains_key("a"));
    assert!(d.keys().is_empty());
}

#[test]
fn insert_then_get() {
    let mut d: Dictionary<u32> = Dictionary::new();
    d.insert("one".to_string(), 1);
    d.insert("two".to_string(), 2);
    assert_eq!(d.len(), 2);
    assert_eq!(d.get("one"), Some(&1));
    assert_eq!(d.get("two"), Some(&2));
    assert_eq!(d.get("three"), None);
    assert!(d.contains_key("two"));
    assert!(!d.contains_key("Two"));
}

#[test]
fn insert_replaces_and_keeps_the_place() {
    let mut d: Dictionary<u32> = Dictionary::new();
    d.insert("a".to_string(), 1);
    d.insert("b".to_string(), 2);
    d.insert("a".to_string(), 3);
    assert_eq!(d.len(), 2);
    assert_eq!(d.get("a"), Some(&3));
    assert_eq!(d.get("b"), Some(&2));
    assert_eq!(d.keys(), vec!["a".to_string(), "b".to_string()]);
}

#[test]
fn keys_come_in_insertion_order() {
    let mut d: Dictionary<()> = Dictionary::new();
    for k in ["wav", "flac", "mp3-320", "alac"] {
        d.insert(k.to_string(), ());
    }
    assert_eq!(d.keys(), vec!["wav", "flac", "mp3-320", "alac"]);
}

#[test]
fn the_empty_key_is_a_key() {
    let mut d: Dictionary<u8> = Dictionary::new();
    d.insert(String::new(), 9);
    assert_eq!(d.get(""), Some(&9));
    assert_eq!(d.len(), 1);
}

#[test]
fn clone_keeps_keys_and_values() {
    let mut d: Dictionary<String> = Dictionary::new();
    d.insert("k".to_string(), "v".to_string());
    d.insert("l".to_string(), "w".to_string());
    let e = d.clone();
    assert_eq!(e, d);
    assert_eq!(e.get("l"), Some(&"w".to_string()));
}
