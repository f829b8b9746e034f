use docs_queue::pattern::like_matches;
use docs_queue::priority::{PriorityStore, DEFAULT_PRIORITY};
use docs_queue::queue::{BuildQueue, QueueOutcome};

fn drain(q: &mut BuildQueue) -> Vec<(String, String, i32)> {
    let mut out = Vec::new();
    while let Some(r) = q.dequeue_next() {
        out.push((r.name, r.version, r.priority));
    }
    out
}

#[test]
fn add_twice_keeps_one_request() {
    let mut q = BuildQueue::new();
    assert_eq!(q.add("serde", "1.0.0", None, None), QueueOutcome::Added { priority: 5 });
    assert_eq!(q.add("serde", "1.0.0", Some(0), None), QueueOutcome::AlreadyQueued);
    assert_eq!(q.pending_count(), 1);
    assert!(q.has_pending("serde", "1.0.0"));
    assert!(!q.has_pending("serde", "1.0.1"));
    assert!(!q.has_pending("serd", "1.0.0"));
    let r = q.dequeue_next().unwrap();
    assert_eq!(r.priority, 5);
    assert!(q.dequeue_next().is_none());
}

#[test]
fn same_release_can_be_queued_again_after_dequeue() {
    let mut q = BuildQueue::new();
    q.add("serde", "1.0.0", None, None);
    q.dequeue_next().unwrap();
    assert_eq!(q.add("serde", "1.0.0", Some(1), None), QueueOutcome::Added { priority: 1 });
}

#[test]
fn dequeue_orders_by_priority_then_arrival() {
    let mut q = BuildQueue::new();
    q.add("a", "1.0.0", Some(5), None);
    q.add("b", "1.0.0", Some(0), None);
    q.add("c", "1.0.0", Some(5), None);
    q.add("d", "1.0.0", Some(-1), None);
    let order = drain(&mut q);
    let names: Vec<&str> = order.iter().map(|r| r.0.as_str()).collect();
    let prios: Vec<i32> = order.iter().map(|r| r.2).collect();
    assert_eq!(names, vec!["d", "b", "a", "c"]);
    assert_eq!(prios, vec![-1, 0, 5, 5]);
}

#[test]
fn dequeue_on_empty_queue_is_none() {
    let mut q = BuildQueue::new();
    assert!(q.dequeue_next().is_none());
}

#[test]
fn lock_holds_back_requests_until_unlock() {
    let mut q = BuildQueue::new();
    q.add("a", "1.0.0", Some(5), None);
    q.add("b", "1.0.0", Some(0), None);
    q.lock();
    q.lock();
    assert!(q.is_locked());
    assert!(q.dequeue_next().is_none());
    assert_eq!(q.pending_count(), 2);
    // adding still works while locked
    assert_eq!(q.add("c", "2.0.0", Some(-3), None), QueueOutcome::Added { priority: -3 });
    assert!(q.dequeue_next().is_none());
    q.unlock();
    assert!(!q.is_locked());
    let names: Vec<String> = drain(&mut q).into_iter().map(|r| r.0).collect();
    assert_eq!(names, vec!["c", "b", "a"]);
}

#[test]
fn queue_starts_unlocked() {
    let q = BuildQueue::new();
    assert!(!q.is_locked());
    assert!(q.last_seen_reference().is_none());
}

#[test]
fn pattern_priority_applies_without_explicit_priority() {
    let mut q = BuildQueue::new();
    q.set_priority("foo-%", 2);
    assert_eq!(q.add("foo-bar", "1.0", None, None), QueueOutcome::Added { priority: 2 });
    let mut q2 = BuildQueue::new();
    q2.set_priority("foo-%", 2);
    assert_eq!(q2.add("foo-bar", "1.0", Some(0), None), QueueOutcome::Added { priority: 0 });
    assert_eq!(q2.add("bar", "1.0", None, None), QueueOutcome::Added { priority: DEFAULT_PRIORITY });
    assert_eq!(q2.resolve_priority("foo-baz"), 2);
    assert_eq!(q2.resolve_priority("foo"), 5);
}

#[test]
fn first_stored_pattern_wins() {
    let mut q = BuildQueue::new();
    q.set_priority("foo%", 7);
    q.set_priority("foo-%", 1);
    assert_eq!(q.resolve_priority("foo-bar"), 7);
    let hit = q.get_priority("foo-bar").unwrap();
    assert_eq!(hit.pattern, "foo%");
    assert_eq!(hit.priority, 7);
    // resetting a pattern keeps its place
    q.set_priority("foo%", 9);
    assert_eq!(q.resolve_priority("foo-bar"), 9);
    let listed: Vec<(String, i32)> = q.list_priorities().into_iter().map(|p| (p.pattern, p.priority)).collect();
    assert_eq!(listed, vec![("foo%".to_string(), 9), ("foo-%".to_string(), 1)]);
    assert_eq!(q.remove_priority("foo%"), Some(9));
    assert_eq!(q.resolve_priority("foo-bar"), 1);
    assert_eq!(q.remove_priority("foo%"), None);
    assert!(q.get_priority("zzz").is_none());
}

#[test]
fn priority_store_on_its_own() {
    let mut s = PriorityStore::new();
    assert_eq!(s.resolve("anything"), 5);
    s.set("a_c", -2);
    assert_eq!(s.resolve("abc"), -2);
    assert_eq!(s.resolve("ac"), 5);
    assert_eq!(s.find("a_c"), Some(0));
    assert_eq!(s.find("abc"), None);
    assert_eq!(s.remove("a_c"), Some(-2));
    assert_eq!(s.list().len(), 0);
}

#[test]
fn like_patterns() {
    assert!(like_matches("foo-%", "foo-bar"));
    assert!(like_matches("foo-%", "foo-"));
    assert!(!like_matches("foo-%", "foo"));
    assert!(like_matches("%", ""));
    assert!(like_matches("", ""));
    assert!(!like_matches("", "a"));
    assert!(like_matches("%bar%", "foobarbaz"));
    assert!(!like_matches("%bar%", "foobaz"));
    assert!(like_matches("b_r", "bar"));
    assert!(!like_matches("b_r", "br"));
    assert!(like_matches("100\\%", "100%"));
    assert!(!like_matches("100\\%", "1000"));
    assert!(like_matches("a\\_b", "a_b"));
    assert!(!like_matches("a\\_b", "axb"));
    assert!(like_matches("tail\\", "tail\\"));
    assert!(like_matches("%-%-%", "a-b-c"));
    assert!(like_matches("été%", "été-crate"));
}

#[test]
fn resume_reference_last_write_wins() {
    let mut q = BuildQueue::new();
    q.set_last_seen_reference("aaaa");
    q.set_last_seen_reference("bbbb");
    assert_eq!(q.last_seen_reference(), Some("bbbb".to_string()));
}

#[test]
fn registry_hint_is_kept() {
    let mut q = BuildQueue::new();
    q.add("x", "0.1.0", Some(3), Some("https://example.invalid/index"));
    q.add("y", "0.1.0", Some(4), None);
    let all = q.pending_requests();
    assert_eq!(all.len(), 2);
    assert_eq!(all[0].registry.as_deref(), Some("https://example.invalid/index"));
    assert_eq!(all[1].registry, None);
    let r = q.dequeue_next().unwrap();
    assert_eq!(r.name, "x");
    assert_eq!(r.version, "0.1.0");
}
