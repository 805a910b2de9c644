use rustdesk_clipboard::listener::SubscriberRegistry;

#[test]
fn subscribe_and_unsubscribe() {
    let mut r: SubscriberRegistry<u32> = SubscriberRegistry::new();
    assert!(r.is_empty());
    assert_eq!(r.subscribe("a".into(), 1), None);
    assert_eq!(r.subscribe("b".into(), 2), None);
    assert_eq!(r.subscribe("a".into(), 3), Some(1));
    let mut all = r.channels().clone();
    all.sort();
    assert_eq!(all, vec![2, 3]);
    assert_eq!(r.unsubscribe("c"), None);
    assert_eq!(r.unsubscribe("a"), Some(3));
    assert!(!r.is_empty());
    assert_eq!(r.unsubscribe("a"), None);
    assert_eq!(r.unsubscribe("b"), Some(2));
    assert!(r.is_empty());
    assert!(r.channels().is_empty());
}
