use saraf_kvs::store::KeyValueStore;
use saraf_kvs::store::StoreError;
use saraf_kvs::theme::initial_theme;
use saraf_kvs::theme::theme_key;
use saraf_kvs::theme::ThemeMode;

fn fresh() -> KeyValueStore {
    KeyValueStore::new(String::from("/home/user"))
}

#[test]
fn round_trip_set_then_get() {
    let kvs = fresh();
    let text = kvs.set(None, "theme-name", "dark").unwrap();
    let got = kvs.get_as(Some(&text), "theme-name").unwrap();
    assert_eq!(got, Some(String::from("dark")));
}

#[test]
fn round_trip_i64() {
    let kvs = fresh();
    let text = kvs.set_i64(None, "count", -42).unwrap();
    assert_eq!(kvs.get_as_i64(Some(&text), "count").unwrap(), Some(-42));
}

#[test]
fn fresh_store_reads_absent() {
    let kvs = fresh();
    assert_eq!(kvs.get_as(None, "theme-name").unwrap(), None);
    let init = kvs.initial_content();
    assert_eq!(kvs.get_as(Some(&init), "theme-name").unwrap(), None);
}

#[test]
fn incompatible_type_reads_absent() {
    let kvs = fresh();
    let t = kvs.set_i64(None, "k", 7).unwrap();
    assert_eq!(kvs.get_as(Some(&t), "k").unwrap(), None);
    assert_eq!(kvs.get_as_i64(Some(&t), "k").unwrap(), Some(7));
    let t2 = kvs.set(Some(&t), "s", "x").unwrap();
    assert_eq!(kvs.get_as_i64(Some(&t2), "s").unwrap(), None);
    assert_eq!(kvs.get_as(Some(&t2), "s").unwrap(), Some(String::from("x")));
}

#[test]
fn second_write_wins_and_other_keys_keep_their_values() {
    let kvs = fresh();
    let t1 = kvs.set(None, "a", "one").unwrap();
    let t2 = kvs.set(Some(&t1), "k", "v1").unwrap();
    let t3 = kvs.set(Some(&t2), "k", "v2").unwrap();
    assert_eq!(kvs.get_as(Some(&t3), "k").unwrap(), Some(String::from("v2")));
    assert_eq!(kvs.get_as(Some(&t3), "a").unwrap(), Some(String::from("one")));
}

#[test]
fn deleted_file_reads_as_empty_store() {
    let kvs = fresh();
    let written = kvs.set(None, "k", "v").unwrap();
    assert_eq!(kvs.get_as(Some(&written), "k").unwrap(), Some(String::from("v")));
    // the backing file was deleted externally: its content is gone again
    assert_eq!(kvs.get_as(None, "k").unwrap(), None);
    let t2 = kvs.set(None, "k2", "w").unwrap();
    assert_eq!(kvs.get_as(Some(&t2), "k2").unwrap(), Some(String::from("w")));
    assert_eq!(kvs.get_as(Some(&t2), "k").unwrap(), None);
}

#[test]
fn theme_survives_restart() {
    let kvs = KeyValueStore::new(String::from("/home/user"));
    let file = kvs.set(None, theme_key(), "dark").unwrap();
    // a restart: a fresh store instance over the same base directory
    let kvs2 = KeyValueStore::new(String::from("/home/user"));
    let got = kvs2.get_as(Some(&file), theme_key()).unwrap();
    assert_eq!(got, Some(String::from("dark")));
    assert_eq!(initial_theme(got.as_ref()), ThemeMode::Dark);
}

#[test]
fn corrupt_content_is_an_error() {
    let kvs = fresh();
    assert_eq!(kvs.get_as(Some("not json"), "k"), Err(StoreError::Corrupt));
    assert_eq!(kvs.get_as_i64(Some("[1, 2]"), "k"), Err(StoreError::Corrupt));
    assert_eq!(kvs.get_hash_map(Some("{")).err(), Some(StoreError::Corrupt));
    assert_eq!(kvs.set(Some("3"), "k", "v").err(), Some(StoreError::Corrupt));
    assert_eq!(kvs.set_i64(Some("}"), "k", 1).err(), Some(StoreError::Corrupt));
}

#[test]
fn store_path_is_fixed() {
    let kvs = KeyValueStore::new(String::from("/home/user"));
    assert_eq!(
        kvs.get_store_full_path(),
        "/home/user/.local/saraf-currency-exchange-systems-front/kvs.json"
    );
}

#[test]
fn initial_content_is_the_empty_object() {
    assert_eq!(fresh().initial_content(), "{}");
}

#[test]
fn reads_hand_written_content() {
    let kvs = fresh();
    let t = "{ \"theme-name\": \"dark\", \"n\": 3 }";
    assert_eq!(kvs.get_as(Some(t), "theme-name").unwrap(), Some(String::from("dark")));
    assert_eq!(kvs.get_as_i64(Some(t), "n").unwrap(), Some(3));
    assert_eq!(kvs.get_as(Some(t), "n").unwrap(), None);
    assert_eq!(kvs.get_as(Some(t), "absent").unwrap(), None);
}

#[test]
fn file_text_is_a_json_object_with_encoded_values() {
    let kvs = fresh();
    let t = kvs.set(None, "theme-name", "dark").unwrap();
    let v: serde_json::Value = serde_json::from_str(&t).unwrap();
    assert_eq!(v.get("theme-name").and_then(|x| x.as_str()), Some("dark"));
    // the value is stored JSON-encoded, not as the raw string
    assert!(t.contains("\"dark\""));
    let t2 = kvs.set_i64(Some(&t), "n", 5).unwrap();
    let v2: serde_json::Value = serde_json::from_str(&t2).unwrap();
    assert_eq!(v2.get("n").and_then(|x| x.as_i64()), Some(5));
    assert_eq!(v2.get("theme-name").and_then(|x| x.as_str()), Some("dark"));
}

#[test]
fn float_entries_keep_their_values_across_write_cycles() {
    let kvs = fresh();
    // 51.248178375505404 is a value the best-effort float parser reads one
    // unit in the last place too high; with exact float parsing it must come
    // through write cycles unchanged, like every other untouched entry
    let t = "{\"x\": 51.248178375505404, \"pi\": 3.141592653589793}";
    let t2 = kvs.set(Some(t), "theme-name", "dark").unwrap();
    let v: serde_json::Value = serde_json::from_str(&t2).unwrap();
    assert_eq!(v.get("x").and_then(|x| x.as_f64()), Some(51.248178375505404));
    assert_eq!(v.get("pi").and_then(|x| x.as_f64()), Some(3.141592653589793));
    let t3 = kvs.set(Some(&t2), "theme-name", "light").unwrap();
    let v3: serde_json::Value = serde_json::from_str(&t3).unwrap();
    assert_eq!(v3.get("x"), v.get("x"));
    assert_eq!(v3.get("pi"), v.get("pi"));
}

#[test]
fn values_with_escapes_round_trip() {
    let kvs = fresh();
    let tricky = "a \"quoted\" name\nwith a line break";
    let t = kvs.set(None, "k", tricky).unwrap();
    assert_eq!(kvs.get_as(Some(&t), "k").unwrap(), Some(String::from(tricky)));
}
