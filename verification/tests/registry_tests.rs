use cloudflare_showcase::liveness::{elapsed_ms, LivenessConfig};
use cloudflare_showcase::registry::{ClientConnection, Registry, Sweep};

fn connection(id: &str, stream: u64, at: u64) -> ClientConnection {
    ClientConnection {
        id: id.to_string(),
        stream,
        last_ping_sent_at: at,
        last_pong_received_at: at,
    }
}

fn config() -> LivenessConfig {
    LivenessConfig { ping_interval_ms: 1_000, pong_timeout_ms: 5_000, broadcast_clock: false }
}

#[test]
fn new_registry_is_empty() {
    let registry = Registry::new();
    assert_eq!(registry.count(), 0);
    assert!(registry.is_empty());
    assert!(registry.all().is_empty());
    assert_eq!(registry.next_handle(), 0);
}

#[test]
fn add_issues_handles_in_order() {
    let mut registry = Registry::new();
    assert_eq!(registry.add("a".to_string(), 10), Some((0, None)));
    assert_eq!(registry.add("b".to_string(), 20), Some((1, None)));
    assert_eq!(registry.count(), 2);
    assert!(!registry.is_empty());
    assert_eq!(registry.all(), &vec![connection("a", 0, 10), connection("b", 1, 20)]);
    assert_eq!(registry.streams(), vec![0, 1]);
    assert!(registry.contains("a"));
    assert!(!registry.contains("c"));
    assert_eq!(registry.find_id("b"), Some(1));
    assert_eq!(registry.find_stream(1), Some(1));
    assert_eq!(registry.find_stream(7), None);
}

#[test]
fn add_with_a_known_id_replaces_the_entry() {
    let mut registry = Registry::new();
    registry.add("a".to_string(), 10);
    registry.add("b".to_string(), 20);
    let outcome = registry.add("a".to_string(), 30);
    assert_eq!(outcome, Some((2, Some(connection("a", 0, 10)))));
    assert_eq!(registry.count(), 2);
    assert_eq!(registry.all(), &vec![connection("b", 1, 20), connection("a", 2, 30)]);
}

#[test]
fn remove_by_id() {
    let mut registry = Registry::new();
    registry.add("a".to_string(), 10);
    registry.add("b".to_string(), 20);
    assert_eq!(registry.remove("a"), Some(connection("a", 0, 10)));
    assert_eq!(registry.remove("a"), None);
    assert_eq!(registry.count(), 1);
    assert_eq!(registry.all(), &vec![connection("b", 1, 20)]);
}

#[test]
fn remove_by_stream() {
    let mut registry = Registry::new();
    registry.add("a".to_string(), 10);
    registry.add("b".to_string(), 20);
    assert_eq!(registry.remove_stream(1), Some(connection("b", 1, 20)));
    assert_eq!(registry.remove_stream(1), None);
    assert_eq!(registry.all(), &vec![connection("a", 0, 10)]);
}

#[test]
fn handles_are_never_reused() {
    let mut registry = Registry::new();
    registry.add("a".to_string(), 10);
    registry.remove("a");
    assert_eq!(registry.add("a".to_string(), 20), Some((1, None)));
}

#[test]
fn streams_except_leaves_one_out() {
    let mut registry = Registry::new();
    registry.add("a".to_string(), 10);
    registry.add("b".to_string(), 20);
    registry.add("c".to_string(), 30);
    assert_eq!(registry.streams_except(1), vec![0, 2]);
    assert_eq!(registry.streams_except(0), vec![1, 2]);
    assert_eq!(registry.streams_except(2), vec![0, 1]);
    assert_eq!(registry.streams_except(9), vec![0, 1, 2]);
}

#[test]
fn pong_is_recorded_for_the_stream() {
    let mut registry = Registry::new();
    registry.add("a".to_string(), 10);
    registry.add("b".to_string(), 20);
    registry.record_pong(1, 99);
    registry.record_pong(7, 100);
    assert_eq!(
        registry.all(),
        &vec![
            connection("a", 0, 10),
            ClientConnection {
                id: "b".to_string(),
                stream: 1,
                last_ping_sent_at: 20,
                last_pong_received_at: 99
            },
        ]
    );
}

#[test]
fn sweep_pings_and_evicts() {
    let mut registry = Registry::new();
    registry.add("old".to_string(), 0);
    registry.add("due".to_string(), 4_000);
    registry.add("fresh".to_string(), 5_500);
    let sweep = registry.sweep(6_000, &config());
    assert_eq!(sweep, Sweep { evicted: vec![0], pinged: vec![1] });
    assert_eq!(
        registry.all(),
        &vec![
            ClientConnection {
                id: "due".to_string(),
                stream: 1,
                last_ping_sent_at: 6_000,
                last_pong_received_at: 4_000
            },
            connection("fresh", 2, 5_500),
        ]
    );
}

#[test]
fn sweep_bounds_are_strict() {
    let mut registry = Registry::new();
    registry.add("a".to_string(), 1_000);
    let first = registry.sweep(2_000, &config());
    assert_eq!(first, Sweep { evicted: vec![], pinged: vec![] });
    let second = registry.sweep(2_001, &config());
    assert_eq!(second, Sweep { evicted: vec![], pinged: vec![0] });
    let third = registry.sweep(6_000, &config());
    assert_eq!(third, Sweep { evicted: vec![], pinged: vec![0] });
    let fourth = registry.sweep(6_001, &config());
    assert_eq!(fourth, Sweep { evicted: vec![0], pinged: vec![] });
    assert!(registry.is_empty());
}

#[test]
fn clock_that_goes_backwards_counts_as_no_time() {
    assert_eq!(elapsed_ms(10, 4), 6);
    assert_eq!(elapsed_ms(4, 10), 0);
    assert_eq!(elapsed_ms(u64::MAX, 0), u64::MAX);
    let mut registry = Registry::new();
    registry.add("a".to_string(), 9_000);
    assert_eq!(registry.sweep(10, &config()), Sweep { evicted: vec![], pinged: vec![] });
}

#[test]
fn default_timing() {
    let config = LivenessConfig::default();
    assert_eq!(config.ping_interval_ms, 10_000);
    assert_eq!(config.pong_timeout_ms, 30_000);
    assert!(config.broadcast_clock);
}

#[test]
fn resumed_registry_takes_up_the_numbering() {
    let mut registry =
        Registry::resume(vec![connection("a", 3, 10), connection("b", 7, 20)], 9).unwrap();
    assert_eq!(registry.count(), 2);
    assert_eq!(registry.next_handle(), 9);
    assert_eq!(registry.add("c".to_string(), 30), Some((9, None)));
    assert!(Registry::resume(vec![connection("a", 3, 10), connection("a", 4, 10)], 9).is_none());
    assert!(Registry::resume(vec![connection("a", 3, 10), connection("b", 3, 10)], 9).is_none());
    assert!(Registry::resume(vec![connection("a", 9, 10)], 9).is_none());
}

#[test]
fn full_registry_issues_no_handle() {
    let mut registry = Registry::resume(vec![connection("a", 3, 10)], u64::MAX).unwrap();
    assert_eq!(registry.add("b".to_string(), 30), None);
    assert_eq!(registry.add("a".to_string(), 30), None);
    assert_eq!(registry.all(), &vec![connection("a", 3, 10)]);
    assert_eq!(registry.next_handle(), u64::MAX);
}

#[test]
fn unused_id_adds_as_few_underscores_as_it_takes() {
    let mut registry = Registry::new();
    assert_eq!(registry.unused_id("a".to_string()), "a");
    registry.add("a".to_string(), 0);
    registry.add("a__".to_string(), 0);
    assert_eq!(registry.unused_id("a".to_string()), "a_");
    registry.add("a_".to_string(), 0);
    assert_eq!(registry.unused_id("a".to_string()), "a___");
    assert_eq!(registry.unused_id("b".to_string()), "b");
    assert_eq!(registry.unused_id(String::new()), "");
}
