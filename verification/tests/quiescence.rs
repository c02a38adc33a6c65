use bombadil::activity::{UrlHits, MAX_HITS_PER_URL};
use bombadil::quiescence::{QuiescenceClock, QuiescenceEvent, QuiescenceOutcome};
use bombadil::time::{Duration, Time};

fn millis(ms: u64) -> Time {
    Time(ms * 1000)
}

/// Runs a countdown started at zero against activity at the given times
/// (in milliseconds, each with its bump), and returns when it goes quiet.
fn quiet_at(idle_ms: u64, max_ms: u64, activity: impl Iterator<Item = (u64, u64)>) -> Time {
    let mut clock = QuiescenceClock::start(Time(0), Duration::from_millis(idle_ms), Duration::from_millis(max_ms));
    let mut activity = activity.peekable();
    loop {
        let wake = clock.next_wake();
        match activity.peek() {
            Some(&(at, bump)) if millis(at) < wake => {
                activity.next();
                let outcome = clock.on_event(QuiescenceEvent::Activity { now: millis(at), bump: Duration::from_millis(bump) });
                assert_eq!(outcome, QuiescenceOutcome::Waiting);
            }
            _ => {
                assert_eq!(clock.on_event(QuiescenceEvent::Elapsed), QuiescenceOutcome::Quiescent);
                return wake;
            }
        }
    }
}

#[test]
fn fires_after_timeout_idle_with_no_activity() {
    let quiet = quiet_at(100, 5000, std::iter::empty());
    assert!(quiet >= millis(80));
    assert!(quiet < millis(500));
    assert_eq!(quiet, millis(100));
}

#[test]
fn stream_activity_extends_idle() {
    let quiet = quiet_at(150, 5000, (1..=5).map(|i| (i * 80, 150)));
    assert!(quiet >= millis(400));
    assert_eq!(quiet, millis(550));
}

#[test]
fn timeout_max_caps_wait() {
    let quiet = quiet_at(100, 300, (1..).map(|i| (i * 20, 100)));
    assert!(quiet >= millis(250));
    assert!(quiet < millis(600));
    assert_eq!(quiet, millis(300));
}

#[test]
fn drop_handle_cancels() {
    let mut clock = QuiescenceClock::start(Time(0), Duration::from_secs(10), Duration::from_secs(10));
    assert_eq!(clock.on_event(QuiescenceEvent::Cancelled), QuiescenceOutcome::Cancelled);
}

#[test]
fn ended_activity_leaves_the_deadlines() {
    let mut clock = QuiescenceClock::start(Time(0), Duration::from_millis(100), Duration::from_millis(300));
    let before = clock;
    assert_eq!(clock.on_event(QuiescenceEvent::ActivityEnded), QuiescenceOutcome::Waiting);
    assert_eq!(clock, before);
}

#[test]
fn repeated_urls_stop_counting() {
    let mut hits = UrlHits::new();
    for _ in 0..MAX_HITS_PER_URL {
        assert!(hits.record_hit("https://example.com/poll".to_string()));
    }
    assert!(!hits.record_hit("https://example.com/poll".to_string()));
    assert!(!hits.record_hit("https://example.com/poll".to_string()));
    assert!(hits.record_hit("https://example.com/other".to_string()));
}
