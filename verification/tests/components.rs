use anonchat::dedup::ContentDeduplicator;
use anonchat::message_log::{Message, MessageLog};
use anonchat::rate_limiter::RateLimiter;

fn s(text: &str) -> String {
    text.to_string()
}

#[test]
fn rate_limiter_five_per_window() {
    let mut rl = RateLimiter::new();
    for i in 0..5u64 {
        assert!(rl.allow(&s("alice"), i));
    }
    assert!(!rl.allow(&s("alice"), 59));
    // Another sender is not affected.
    assert!(rl.allow(&s("bob"), 59));
}

#[test]
fn rate_limiter_expiry_opens_fresh_window() {
    let mut rl = RateLimiter::new();
    for i in 0..5u64 {
        assert!(rl.allow(&s("carol"), i));
    }
    assert!(!rl.allow(&s("carol"), 60));
    assert!(rl.allow(&s("carol"), 61));
    for i in 0..4u64 {
        assert!(rl.allow(&s("carol"), 62 + i));
    }
    assert!(!rl.allow(&s("carol"), 70));
}

#[test]
fn rate_limiter_clock_moving_backwards_counts_in_window() {
    let mut rl = RateLimiter::new();
    for i in 0..5u64 {
        assert!(rl.allow(&s("dave"), 100 + i));
    }
    // A time before the window opened never expires the window.
    assert!(!rl.allow(&s("dave"), 10));
}

#[test]
fn dedup_rejects_overlong_and_duplicate() {
    let mut cache = ContentDeduplicator::new();
    assert!(!cache.accept(&"y".repeat(201)));
    assert!(cache.accept(&"y".repeat(200)));
    assert!(cache.accept(&s("hello")));
    assert!(!cache.accept(&s("hello")));
    assert!(cache.accept(&s("hello again")));
}

#[test]
fn dedup_full_cache_forgets_everything() {
    let mut cache = ContentDeduplicator::new();
    for i in 0..100 {
        assert!(cache.accept(&format!("c{}", i)));
    }
    assert!(!cache.accept(&s("c42")));
    assert!(cache.accept(&s("brand new")));
    assert!(cache.accept(&s("c42")));
    assert!(!cache.accept(&s("brand new")));
}

#[test]
fn log_keeps_append_order() {
    let mut log = MessageLog::new();
    assert_eq!(log.len(), 0);
    log.append(Message { sender: s("alice"), content: s("first") });
    log.append(Message { sender: s("bob"), content: s("second") });
    assert_eq!(log.len(), 2);
    let snap = log.snapshot();
    assert_eq!(snap[0].sender, "alice");
    assert_eq!(snap[0].content, "first");
    assert_eq!(snap[1].sender, "bob");
    assert_eq!(snap[1].content, "second");
    // The snapshot is a copy: appending afterwards does not change it.
    log.append(Message { sender: s("carol"), content: s("third") });
    assert_eq!(snap.len(), 2);
    assert_eq!(log.len(), 3);
}
