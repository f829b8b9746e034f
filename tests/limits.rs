use docs_queue::limits::{OverrideStore, Overrides};

fn ov(memory: Option<u64>, targets: Option<u64>, timeout: Option<u64>) -> Overrides {
    Overrides { memory, targets, timeout_seconds: timeout }
}

#[test]
fn overrides_set_get_remove() {
    let mut s = OverrideStore::new();
    assert_eq!(s.get("a"), None);
    assert_eq!(s.set("a", ov(Some(1024), None, None)), None);
    assert_eq!(s.set("b", ov(None, Some(2), Some(60))), None);
    assert_eq!(s.set("a", ov(Some(2048), Some(1), None)), Some(ov(Some(1024), None, None)));
    assert_eq!(s.get("a"), Some(ov(Some(2048), Some(1), None)));
    assert_eq!(s.get("b"), Some(ov(None, Some(2), Some(60))));
    let names: Vec<String> = s.list().into_iter().map(|e| e.crate_name).collect();
    assert_eq!(names, vec!["a", "b"]);
    assert_eq!(s.remove("a"), Some(ov(Some(2048), Some(1), None)));
    assert_eq!(s.remove("a"), None);
    assert_eq!(s.get("a"), None);
    assert_eq!(s.get("b"), Some(ov(None, Some(2), Some(60))));
}
