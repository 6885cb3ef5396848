use anonchat::coordinator::{AdmissionError, ChatCoordinator};

fn s(text: &str) -> String {
    text.to_string()
}

#[test]
fn scenario_board_session() {
    let mut c = ChatCoordinator::new();

    // t=0, alice submits "hi": accepted.
    assert_eq!(c.submit(&s("alice"), &s("hi"), 0), Ok(()));
    let log = c.snapshot();
    assert_eq!(log.len(), 1);
    assert_eq!(log[0].sender, "alice");
    assert_eq!(log[0].content, "hi");

    // t=1, alice submits "hi" again: rejected as duplicate.
    assert_eq!(c.submit(&s("alice"), &s("hi"), 1), Err(AdmissionError::Rejected));

    // t=2, bob submits "yo": accepted, log order kept.
    assert_eq!(c.submit(&s("bob"), &s("yo"), 2), Ok(()));
    let log = c.snapshot();
    assert_eq!(log.len(), 2);
    assert_eq!(log[0].sender, "alice");
    assert_eq!(log[0].content, "hi");
    assert_eq!(log[1].sender, "bob");
    assert_eq!(log[1].content, "yo");

    // alice submits more distinct messages inside the window. The rate
    // check runs before the content check, so the rejected duplicate at
    // t=1 already counted as her second request: three more fit.
    assert_eq!(c.submit(&s("alice"), &s("one"), 3), Ok(()));
    assert_eq!(c.submit(&s("alice"), &s("two"), 5), Ok(()));
    assert_eq!(c.submit(&s("alice"), &s("three"), 7), Ok(()));

    // t=10, alice's sixth request in the same window: rate-limited.
    assert_eq!(c.submit(&s("alice"), &s("four"), 10), Err(AdmissionError::RateLimited));

    // t=65, more than 60s after alice's first request: accepted again.
    assert_eq!(c.submit(&s("alice"), &s("four"), 65), Ok(()));
    assert_eq!(c.snapshot().len(), 6);
}

#[test]
fn first_window_allows_five_then_denies() {
    let mut c = ChatCoordinator::new();
    for i in 0..5u64 {
        assert_eq!(c.submit(&s("carol"), &format!("msg {}", i), i), Ok(()));
    }
    assert_eq!(c.submit(&s("carol"), &s("msg 5"), 10), Err(AdmissionError::RateLimited));
    // Exactly at the window's edge, 60s after the first request, the
    // window has not yet expired.
    assert_eq!(c.submit(&s("carol"), &s("msg 5"), 60), Err(AdmissionError::RateLimited));
}

#[test]
fn window_expiry_resets_counter_to_one() {
    let mut c = ChatCoordinator::new();
    for i in 0..5u64 {
        assert_eq!(c.submit(&s("dave"), &format!("d{}", i), i), Ok(()));
    }
    assert_eq!(c.submit(&s("dave"), &s("d5"), 30), Err(AdmissionError::RateLimited));
    // 61s after the window opened it has expired; the next request starts
    // a fresh window counting 1, so four more still fit in it.
    assert_eq!(c.submit(&s("dave"), &s("d5"), 61), Ok(()));
    for i in 0..4u64 {
        assert_eq!(c.submit(&s("dave"), &format!("e{}", i), 62 + i), Ok(()));
    }
    assert_eq!(c.submit(&s("dave"), &s("e4"), 70), Err(AdmissionError::RateLimited));
}

#[test]
fn long_content_rejected() {
    let mut c = ChatCoordinator::new();
    let at_limit = "x".repeat(200);
    let too_long = "x".repeat(201);
    assert_eq!(c.submit(&s("erin"), &too_long, 0), Err(AdmissionError::Rejected));
    // The rejection did not consume anything: the same sender may still post.
    assert_eq!(c.submit(&s("erin"), &at_limit, 1), Ok(()));
    assert_eq!(c.snapshot().len(), 1);
}

#[test]
fn limit_applies_to_submitted_content() {
    let mut c = ChatCoordinator::new();
    // 50 ampersands are 50 characters: well under the limit and accepted,
    // although the stored escaped form is 250 characters long.
    let fifty_amps = "&".repeat(50);
    assert_eq!(c.submit(&s("frank"), &fifty_amps, 0), Ok(()));
    assert_eq!(c.snapshot()[0].content, "&amp;".repeat(50));
    // The limit judges the submitted text: 201 ampersands are too long.
    assert_eq!(c.submit(&s("frank"), &"&".repeat(201), 1), Err(AdmissionError::Rejected));
    // 200 ampersands are exactly at the limit.
    assert_eq!(c.submit(&s("frank"), &"&".repeat(200), 2), Ok(()));
    assert_eq!(c.snapshot().len(), 2);
}

#[test]
fn duplicate_rejected_across_senders() {
    let mut c = ChatCoordinator::new();
    assert_eq!(c.submit(&s("gail"), &s("same words"), 0), Ok(()));
    assert_eq!(c.submit(&s("hank"), &s("same words"), 1), Err(AdmissionError::Rejected));
    assert_eq!(c.snapshot().len(), 1);
}

#[test]
fn full_cache_clears_and_readmits() {
    let mut c = ChatCoordinator::new();
    // One sender, spacing submissions a window apart so rate limiting
    // never interferes; 100 distinct contents fill the cache.
    for i in 0..100u64 {
        assert_eq!(c.submit(&s("ivy"), &format!("note {}", i), i * 61), Ok(()));
    }
    // With the cache full, an old content is still a duplicate.
    assert_eq!(c.submit(&s("ivy"), &s("note 0"), 100 * 61), Err(AdmissionError::Rejected));
    // A fresh content clears the whole history and is remembered alone.
    assert_eq!(c.submit(&s("ivy"), &s("something new"), 101 * 61), Ok(()));
    // The content admitted before the clear passes again.
    assert_eq!(c.submit(&s("ivy"), &s("note 0"), 102 * 61), Ok(()));
    assert_eq!(c.snapshot().len(), 102);
}

#[test]
fn stored_values_are_escaped() {
    let mut c = ChatCoordinator::new();
    assert_eq!(c.submit(&s("<script>"), &s("a > b && a < c"), 0), Ok(()));
    let log = c.snapshot();
    assert_eq!(log[0].sender, "&lt;script&gt;");
    assert_eq!(log[0].content, "a &gt; b &amp;&amp; a &lt; c");
    // Rate limiting and deduplication judge the submitted texts: the
    // same submitted sender name keeps one window, and resubmitting the
    // same raw content is a duplicate.
    assert_eq!(c.submit(&s("<script>"), &s("a > b && a < c"), 1), Err(AdmissionError::Rejected));
    assert_eq!(c.submit(&s("<script>"), &s("b"), 2), Ok(()));
    assert_eq!(c.submit(&s("<script>"), &s("c"), 3), Ok(()));
    assert_eq!(c.submit(&s("<script>"), &s("d"), 4), Ok(()));
    assert_eq!(c.submit(&s("<script>"), &s("e"), 5), Err(AdmissionError::RateLimited));
}

#[test]
fn empty_content_accepted_once() {
    let mut c = ChatCoordinator::new();
    assert_eq!(c.submit(&s("kim"), &s(""), 0), Ok(()));
    assert_eq!(c.submit(&s("lee"), &s(""), 1), Err(AdmissionError::Rejected));
}

#[test]
fn rejection_does_not_charge_the_cache() {
    let mut c = ChatCoordinator::new();
    // A rate-limited submission must not touch the dedup cache: the same
    // content from another sender is still fresh.
    for i in 0..5u64 {
        assert_eq!(c.submit(&s("max"), &format!("m{}", i), i), Ok(()));
    }
    assert_eq!(c.submit(&s("max"), &s("held back"), 6), Err(AdmissionError::RateLimited));
    assert_eq!(c.submit(&s("nan"), &s("held back"), 7), Ok(()));
}
