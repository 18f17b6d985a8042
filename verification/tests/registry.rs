use orchestration::registry::Registry;
use tokio_util::sync::CancellationToken;

#[test]
fn registry_delivers_to_registered_run_until_deregistered() {
    let mut r: Registry<&str> = Registry::new();
    r.register(1, "tx-1");
    assert_eq!(r.get(1), Some(&"tx-1"));
    assert_eq!(r.get(2), None);
    r.register(2, "tx-2");
    r.register(1, "tx-1b");
    assert_eq!(r.get(1), Some(&"tx-1b"));
    assert_eq!(r.get(2), Some(&"tx-2"));
    r.deregister(1);
    assert_eq!(r.get(1), None);
    assert_eq!(r.get(2), Some(&"tx-2"));
}

#[test]
fn registry_signal_is_no_op_for_unknown_run() {
    let mut r: Registry<u8> = Registry::new();
    assert_eq!(r.get(42), None);
    r.deregister(42);
    assert_eq!(r.get(42), None);
}

#[test]
fn registry_answers_with_the_last_call_for_each_run() {
    let mut r: Registry<u8> = Registry::new();
    r.register(7, 1);
    r.register(8, 2);
    r.deregister(7);
    r.register(9, 3);
    r.register(7, 4);
    r.deregister(9);
    r.register(8, 5);
    assert_eq!(r.get(7), Some(&4));
    assert_eq!(r.get(8), Some(&5));
    assert_eq!(r.get(9), None);
    assert_eq!(r.get(10), None);
}

#[test]
fn cancel_signal_flips_only_a_registered_token() {
    let mut r: Registry<CancellationToken> = Registry::new();
    let t = CancellationToken::new();
    r.register(1, t.clone());
    assert!(r.signal(1));
    assert!(t.is_cancelled());
    r.deregister(1);
    assert!(!r.signal(1));
    assert!(!r.signal(2));
    let u = CancellationToken::new();
    r.register(3, u.clone());
    assert!(!r.signal(4));
    assert!(!u.is_cancelled());
}
