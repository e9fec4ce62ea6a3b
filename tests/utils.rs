use vitecoin::counter::Counter;
use vitecoin::key_registry::KeyRegistry;

#[test]
fn counter_counts_from_one() {
    let mut c = Counter::new();
    assert_eq!(c.next(), 1);
    assert_eq!(c.next(), 2);
    assert_eq!(c.next(), 3);
}

#[test]
fn key_registry_hands_out_fresh_keys() {
    let mut r = KeyRegistry::new();
    assert!(r.names().is_empty());
    let bob = r.generate("Bob");
    let john = r.generate("John");
    assert_eq!((bob, john), (1, 2));
    assert_eq!(r.names().len(), 2);
    assert_eq!(r.names().get(&bob).map(|s| s.as_str()), Some("Bob"));
    assert_eq!(r.names().get(&john).map(|s| s.as_str()), Some("John"));
}
