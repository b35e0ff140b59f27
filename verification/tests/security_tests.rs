use openloom::security::{LoopDetector, MessageDedup, RateLimiter};

#[test]
fn test_rate_limiter_allows_under_limit() {
    let mut limiter = RateLimiter::new(5);
    for _ in 0..5 {
        assert!(limiter.check("user_1"));
    }
}

#[test]
fn test_rate_limiter_blocks_over_limit() {
    let mut limiter = RateLimiter::new(3);
    assert!(limiter.check("user_1"));
    assert!(limiter.check("user_1"));
    assert!(limiter.check("user_1"));
    assert!(!limiter.check("user_1"));
}

#[test]
fn test_rate_limiter_separate_users() {
    let mut limiter = RateLimiter::new(1);
    assert!(limiter.check("user_1"));
    assert!(limiter.check("user_2"));
    assert!(!limiter.check("user_1"));
    assert!(!limiter.check("user_2"));
}

#[test]
fn test_dedup_first_seen_not_duplicate() {
    let mut dedup = MessageDedup::new(100);
    assert!(!dedup.is_duplicate("msg_1"));
}

#[test]
fn test_dedup_second_seen_is_duplicate() {
    let mut dedup = MessageDedup::new(100);
    assert!(!dedup.is_duplicate("msg_1"));
    assert!(dedup.is_duplicate("msg_1"));
}

#[test]
fn test_dedup_eviction() {
    let mut dedup = MessageDedup::new(2);
    assert!(!dedup.is_duplicate("msg_1"));
    assert!(!dedup.is_duplicate("msg_2"));
    assert!(!dedup.is_duplicate("msg_3")); // evicts msg_1
    assert!(!dedup.is_duplicate("msg_1")); // msg_1 was evicted, so not duplicate
}

#[test]
fn test_loop_detector_no_loop_with_human() {
    let mut detector = LoopDetector::new(3);
    assert!(!detector.check("chat_1", true));
    assert!(!detector.check("chat_1", false)); // resets
    assert!(!detector.check("chat_1", true));
}

#[test]
fn test_loop_detector_detects_loop() {
    let mut detector = LoopDetector::new(3);
    assert!(!detector.check("chat_1", true));
    assert!(!detector.check("chat_1", true));
    assert!(detector.check("chat_1", true)); // 3 consecutive → loop!
}

#[test]
fn test_loop_detector_separate_chats() {
    let mut detector = LoopDetector::new(2);
    assert!(!detector.check("chat_1", true));
    assert!(!detector.check("chat_2", true));
    assert!(detector.check("chat_1", true));
    assert!(detector.check("chat_2", true));
}

#[test]
fn test_loop_detector_reset() {
    let mut detector = LoopDetector::new(2);
    assert!(!detector.check("chat_1", true));
    detector.reset("chat_1");
    assert!(!detector.check("chat_1", true));
}

#[test]
fn rate_window_slides_after_sixty_seconds() {
    let mut limiter = RateLimiter::new(2);
    let sec: u128 = 1_000_000_000;
    assert!(limiter.check_at("u", 0));
    assert!(limiter.check_at("u", 10 * sec));
    assert!(!limiter.check_at("u", 20 * sec));
    // the attempt at 0s has left the window, but the refused one at 20s is still counted
    assert!(!limiter.check_at("u", 60 * sec));
    // at 80s the attempts at 10s and 20s have left; only the one at 60s remains
    assert!(limiter.check_at("u", 80 * sec));
    // at 81s the attempts at 60s and 80s fill the window
    assert!(!limiter.check_at("u", 81 * sec));
}

#[test]
fn dedup_zero_capacity_remembers_last() {
    let mut dedup = MessageDedup::new(0);
    assert!(!dedup.is_duplicate("a"));
    assert!(dedup.is_duplicate("a"));
    assert!(!dedup.is_duplicate("b"));
    assert!(!dedup.is_duplicate("a"));
}

#[test]
fn loop_count_reported() {
    let mut detector = LoopDetector::new(5);
    detector.check("c", true);
    detector.check("c", true);
    assert_eq!(detector.count_of("c"), 2);
    detector.check("c", false);
    assert_eq!(detector.count_of("c"), 0);
    assert_eq!(detector.count_of("other"), 0);
}

#[test]
fn dedup_hit_counts_as_use() {
    let mut d = MessageDedup::new(2);
    assert!(!d.is_duplicate("a"));
    assert!(!d.is_duplicate("b"));
    assert!(d.is_duplicate("a")); // "a" is now the most recently used
    assert!(!d.is_duplicate("c")); // evicts "b", the least recently used
    assert!(d.is_duplicate("a"));
    assert!(!d.is_duplicate("b"));
}
