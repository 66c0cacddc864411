use channel_metrics::metrics::Metrics;
use channel_metrics::orchestrator::{Orchestrator, RoundReport};
use channel_metrics::pending::PendingSet;

fn links(ids: &[&str]) -> Vec<String> {
    ids.iter().map(|s| s.to_string()).collect()
}

fn record(link: &str) -> Metrics {
    Metrics {
        link: link.to_string(),
        channel_name: format!("name of {}", link),
        video_count: 1,
        average_duration: 1000,
        average_sentence_duration: None,
        average_sentence_length: None,
    }
}

fn success(link: &str) -> RoundReport {
    RoundReport { link: link.to_string(), outcome: Some(record(link)) }
}

fn failure(link: &str) -> RoundReport {
    RoundReport { link: link.to_string(), outcome: None }
}

#[test]
fn from_links_drops_duplicates_keeping_first_occurrences() {
    let p = PendingSet::from_links(links(&["a", "b", "a", "c", "b"]));
    assert_eq!(p.len(), 3);
    assert!(p.contains(&"a".to_string()));
    assert!(p.contains(&"b".to_string()));
    assert!(p.contains(&"c".to_string()));
    assert!(!p.contains(&"d".to_string()));
}

#[test]
fn remove_ids_only_touches_the_named_identifiers() {
    let mut p = PendingSet::from_links(links(&["a", "b", "c"]));
    p.remove_ids(&links(&["b", "x"]));
    assert_eq!(p.len(), 2);
    assert!(p.contains(&"a".to_string()));
    assert!(!p.contains(&"b".to_string()));
    assert!(p.contains(&"c".to_string()));
}

#[test]
fn take_up_to_caps_the_round_size() {
    let p = PendingSet::from_links(links(&["a", "b", "c"]));
    assert_eq!(p.take_up_to(2).len(), 2);
    assert_eq!(p.take_up_to(10).len(), 3);
    assert_eq!(p.take_up_to(0).len(), 0);
}

#[test]
fn each_round_resolving_one_converges_in_n_rounds() {
    let p = PendingSet::from_links(links(&["a", "b", "c"]));
    let mut orch = Orchestrator::new(p, 3, 10);
    let mut rounds = 0;
    while orch.should_continue() {
        let selected = orch.select_round();
        // exactly one channel succeeds per round: the first selected one
        let mut reports = vec![success(&selected[0])];
        for other in &selected[1..] {
            reports.push(failure(other));
        }
        orch.apply_round(reports);
        rounds += 1;
        assert!(rounds <= 3);
    }
    assert_eq!(rounds, 3);
    assert_eq!(orch.unresolved().len(), 0);
    assert_eq!(orch.processed().len(), 3);
    assert_eq!(orch.stall_rounds(), 0);
}

#[test]
fn no_progress_stops_after_max_retry_rounds() {
    let p = PendingSet::from_links(links(&["a", "b"]));
    let mut orch = Orchestrator::new(p, 3, 10);
    let mut rounds = 0;
    while orch.should_continue() {
        let selected = orch.select_round();
        let reports = selected.iter().map(|l| failure(l)).collect();
        orch.apply_round(reports);
        rounds += 1;
        assert!(rounds <= 3);
    }
    assert_eq!(rounds, 3);
    assert_eq!(orch.stall_rounds(), 3);
    assert_eq!(orch.unresolved().len(), 2);
    assert!(orch.unresolved().contains(&"a".to_string()));
    assert!(orch.unresolved().contains(&"b".to_string()));
    assert!(orch.processed().is_empty());
}

#[test]
fn records_keep_first_success_order_and_are_never_duplicated() {
    let p = PendingSet::from_links(links(&["a", "b", "c", "d"]));
    let mut orch = Orchestrator::new(p, 3, 10);
    // round 1: c and a succeed, in that arrival order
    orch.apply_round(vec![failure("b"), success("c"), success("a"), failure("d")]);
    // round 2: d succeeds; b keeps failing
    orch.apply_round(vec![success("d"), failure("b")]);
    let processed: Vec<&str> = orch.processed().iter().map(|m| m.link.as_str()).collect();
    assert_eq!(processed, vec!["c", "a", "d"]);
    assert_eq!(orch.unresolved().len(), 1);
    assert!(orch.unresolved().contains(&"b".to_string()));
}

#[test]
fn progress_resets_the_stall_counter() {
    let p = PendingSet::from_links(links(&["a", "b"]));
    let mut orch = Orchestrator::new(p, 5, 10);
    orch.apply_round(vec![failure("a"), failure("b")]);
    assert_eq!(orch.stall_rounds(), 1);
    orch.apply_round(vec![success("a"), failure("b")]);
    assert_eq!(orch.stall_rounds(), 0);
    orch.apply_round(vec![failure("b")]);
    assert_eq!(orch.stall_rounds(), 1);
}

#[test]
fn three_pending_two_rounds_scenario() {
    // pending = {A, B, C}; round 1 resolves {A, C} persisted in arrival
    // order; round 2 resolves {B}; then nothing is pending, three records
    // are persisted, and the unresolved set is empty.
    let p = PendingSet::from_links(links(&["A", "B", "C"]));
    let mut orch = Orchestrator::new(p, 3, 10);

    assert!(orch.should_continue());
    orch.apply_round(vec![success("A"), failure("B"), success("C")]);
    assert_eq!(orch.pending_count(), 1);

    assert!(orch.should_continue());
    orch.apply_round(vec![success("B")]);

    assert!(!orch.should_continue());
    assert_eq!(orch.unresolved().len(), 0);
    let processed: Vec<&str> = orch.processed().iter().map(|m| m.link.as_str()).collect();
    assert_eq!(processed, vec!["A", "C", "B"]);
}

#[test]
fn throttle_limits_how_many_are_attempted_per_round() {
    let p = PendingSet::from_links(links(&["a", "b", "c"]));
    let orch = Orchestrator::new(p, 3, 2);
    assert_eq!(orch.select_round().len(), 2);
}
