use docs_queue::consistency::{reconcile, Divergence};
use docs_queue::queue::BuildQueue;

fn found() -> Vec<Divergence> {
    vec![
        Divergence::NotBuilt { name: "a".to_string(), version: "1.0.0".to_string() },
        Divergence::NotInRegistry { name: "b".to_string(), version: "0.1.0".to_string() },
        Divergence::NotBuilt { name: "a".to_string(), version: "1.0.0".to_string() },
        Divergence::NotInRegistry { name: "c".to_string(), version: "2.0.0".to_string() },
    ]
}

#[test]
fn dry_run_changes_nothing() {
    let mut q = BuildQueue::new();
    let deletions = reconcile(&mut q, &found(), true);
    assert!(deletions.is_empty());
    assert_eq!(q.pending_count(), 0);
}

#[test]
fn live_run_queues_and_returns_deletions() {
    let mut q = BuildQueue::new();
    q.set_priority("a", 12);
    let deletions = reconcile(&mut q, &found(), false);
    let d: Vec<(String, String)> = deletions.into_iter().map(|x| (x.name, x.version)).collect();
    assert_eq!(
        d,
        vec![("b".to_string(), "0.1.0".to_string()), ("c".to_string(), "2.0.0".to_string())]
    );
    let reqs = q.pending_requests();
    assert_eq!(reqs.len(), 1);
    assert_eq!(reqs[0].name, "a");
    assert_eq!(reqs[0].priority, 12);
}
