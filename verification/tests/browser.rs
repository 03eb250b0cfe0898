use saraf_kvs::browser::KeyValueStore;

#[test]
fn browser_round_trip() {
    let kvs = KeyValueStore::new();
    let entry = kvs.set("dark");
    assert_eq!(entry, "\"dark\"");
    assert_eq!(kvs.get_as(Some(&entry)), Some(String::from("dark")));
}

#[test]
fn browser_absent_entry_reads_absent() {
    let kvs = KeyValueStore::new();
    assert_eq!(kvs.get_as(None), None);
}

#[test]
fn browser_undecodable_entry_reads_absent() {
    let kvs = KeyValueStore::new();
    assert_eq!(kvs.get_as(Some("17")), None);
    assert_eq!(kvs.get_as(Some("not json")), None);
}

#[test]
fn browser_entries_are_independent() {
    let kvs = KeyValueStore::new();
    // one entry per key: encoding a value for one key is not affected by
    // what any other key holds
    let dark = kvs.set("dark");
    let light = kvs.set("light");
    assert_eq!(kvs.get_as(Some(&dark)), Some(String::from("dark")));
    assert_eq!(kvs.get_as(Some(&light)), Some(String::from("light")));
}
