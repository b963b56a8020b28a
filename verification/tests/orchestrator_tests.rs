use waper::dedup::DedupSet;
use waper::orchestrator::{Filter, Orchestrator, RateLimit};
use waper::scraper::scrape_document;

#[test]
fn dedup_set_insert_if_absent() {
    let mut d = DedupSet::new();
    assert!(!d.contains("https://example.com/"));
    assert!(d.insert_if_absent("https://example.com/"));
    assert!(d.contains("https://example.com/"));
    assert!(!d.insert_if_absent("https://example.com/"));
    // A longer URL sharing the prefix is still distinct.
    assert!(!d.contains("https://example.com/a"));
}

#[test]
fn rate_limit_from_u64() {
    let r = RateLimit::from(7u64);
    assert_eq!(r.max_parallel_requests, 7);
}

#[test]
fn start_splits_at_limit() {
    let seeds: Vec<String> = (0..5).map(|i| format!("https://example.com/{}", i)).collect();
    let mut o = Orchestrator::new(seeds.clone());
    let batch = o.start(Vec::new(), 2);
    assert_eq!(batch, seeds[..2].to_vec());
    assert!(!o.is_quiescent());
}

#[test]
fn start_with_zero_limit_queues_everything() {
    let mut o = Orchestrator::new(vec!["https://example.com/".to_string()]);
    let batch = o.start(Vec::new(), 0);
    assert!(batch.is_empty());
    let started = o.refill(0);
    assert!(started.is_empty());
    assert!(!o.is_quiescent());
}

#[test]
fn resume_unions_seeds_with_unresolved() {
    let seeds = vec!["https://a.com/".to_string(), "https://b.com/".to_string()];
    let unresolved = vec!["https://b.com/".to_string(), "https://c.com/".to_string()];
    let mut o = Orchestrator::new(seeds);
    let batch = o.start(unresolved, 10);
    assert_eq!(
        batch,
        vec![
            "https://a.com/".to_string(),
            "https://b.com/".to_string(),
            "https://c.com/".to_string(),
        ]
    );
}

#[test]
fn scenario_one_fetch_filters_and_dedups() {
    let seeds = vec!["https://example.com/".to_string()];
    let mut o = Orchestrator::new(seeds.clone());
    let batch = o.start(Vec::new(), 5);
    assert_eq!(batch, seeds);

    let f = Filter::new(&vec![".*example\\.com.*".to_string()], &Vec::new()).unwrap();
    let html = "<a href=\"/a\">1</a><a href=\"/a#frag\">2</a><a href=\"http://other.com/x\">3</a>".to_string();
    let result = scrape_document("https://example.com/", html);
    let admitted = o.admit_links(&result.links, &f);
    // The frontier gains only the fragment-stripped, whitelisted URL, once.
    assert_eq!(admitted, vec!["https://example.com/a".to_string()]);
}

#[test]
fn concurrency_raise_admits_more_without_restart() {
    let seeds: Vec<String> = (0..6).map(|i| format!("https://example.com/{}", i)).collect();
    let mut o = Orchestrator::new(seeds);
    let batch = o.start(Vec::new(), 1);
    assert_eq!(batch.len(), 1);
    // The limit is raised to 5 while one task is still in flight: the next
    // drain cycle admits up to 4 more; the in-flight task keeps running.
    let started = o.refill(5);
    assert_eq!(started.len(), 4);
    assert!(!o.is_quiescent());
}

#[test]
fn refill_never_exceeds_limit() {
    let seeds: Vec<String> = (0..10).map(|i| format!("https://example.com/{}", i)).collect();
    let mut o = Orchestrator::new(seeds);
    let batch = o.start(Vec::new(), 3);
    assert_eq!(batch.len(), 3);
    // Already at the limit: nothing more starts.
    let started = o.refill(3);
    assert!(started.is_empty());
    // One completion frees one slot.
    o.task_completed();
    let started = o.refill(3);
    assert_eq!(started.len(), 1);
}

#[test]
fn no_url_admitted_twice_across_tasks() {
    let mut o = Orchestrator::new(vec!["https://example.com/".to_string()]);
    let _ = o.start(Vec::new(), 1);
    let f = Filter::new(&vec![".*".to_string()], &Vec::new()).unwrap();
    let links = vec![
        "https://example.com/a".to_string(),
        "https://example.com/a".to_string(),
    ];
    let first = o.admit_links(&links, &f);
    assert_eq!(first, vec!["https://example.com/a".to_string()]);
    // A second task discovering the same link admits nothing.
    let second = o.admit_links(&links, &f);
    assert!(second.is_empty());
}

#[test]
fn run_reaches_quiescence() {
    let mut o = Orchestrator::new(vec!["https://example.com/".to_string()]);
    let batch = o.start(Vec::new(), 2);
    assert_eq!(batch.len(), 1);
    assert!(!o.is_quiescent());

    let f = Filter::new(&vec![".*".to_string()], &Vec::new()).unwrap();
    // The one in-flight task discovers one new link, persists it, publishes
    // it, then completes.
    let admitted = o.admit_links(&vec!["https://example.com/a".to_string()], &f);
    assert_eq!(admitted.len(), 1);
    o.publish_links(&admitted);
    o.task_completed();
    let started = o.refill(2);
    assert_eq!(started, vec!["https://example.com/a".to_string()]);
    assert!(!o.is_quiescent());

    // The second task discovers nothing new and completes.
    let admitted = o.admit_links(&vec!["https://example.com/".to_string()], &f);
    assert!(admitted.is_empty());
    o.publish_links(&admitted);
    o.task_completed();
    let started = o.refill(2);
    assert!(started.is_empty());
    assert!(o.is_quiescent());
}

#[test]
fn pending_queue_is_fifo() {
    let mut o = Orchestrator::new(vec!["https://example.com/".to_string()]);
    let _ = o.start(Vec::new(), 1);
    let f = Filter::new(&vec![".*".to_string()], &Vec::new()).unwrap();
    let links = vec![
        "https://example.com/a".to_string(),
        "https://example.com/b".to_string(),
        "https://example.com/c".to_string(),
    ];
    let admitted = o.admit_links(&links, &f);
    o.publish_links(&admitted);
    o.task_completed();
    let started = o.refill(2);
    assert_eq!(
        started,
        vec![
            "https://example.com/a".to_string(),
            "https://example.com/b".to_string(),
        ]
    );
    o.task_completed();
    o.task_completed();
    let started = o.refill(2);
    assert_eq!(started, vec!["https://example.com/c".to_string()]);
}

#[test]
fn admitted_links_wait_for_publication() {
    let mut o = Orchestrator::new(vec!["https://example.com/".to_string()]);
    let _ = o.start(Vec::new(), 5);
    let f = Filter::new(&vec![".*".to_string()], &Vec::new()).unwrap();
    let admitted = o.admit_links(&vec!["https://example.com/a".to_string()], &f);
    assert_eq!(admitted.len(), 1);
    // Until the batch is persisted and published, nothing new can start.
    let started = o.refill(5);
    assert!(started.is_empty());
    o.publish_links(&admitted);
    let started = o.refill(5);
    assert_eq!(started, vec!["https://example.com/a".to_string()]);
}
