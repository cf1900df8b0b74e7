use eggtimer::{Duration, EggTimer, Stopwatch, Timer};

fn wait_ms(ms: u64) {
    let start = std::time::Instant::now();
    while start.elapsed() < std::time::Duration::from_millis(ms) {}
}

fn millis(d: Duration) -> u64 {
    d.as_secs() * 1000 + u64::from(d.subsec_nanos()) / 1_000_000
}

#[test]
fn timer_elapsed_right_after_start_is_small() {
    let t = Timer::start();
    let d = t.duration();
    assert!(millis(d) < 50);
}

#[test]
fn timer_counts_real_time() {
    let t = Timer::start();
    wait_ms(30);
    assert!(millis(t.duration()) >= 30);
}

#[test]
fn timer_reset_restarts_the_count() {
    let mut t = Timer::default();
    let first = t.started_at();
    wait_ms(30);
    t.reset();
    assert!(t.started_at() > first);
    assert!(millis(t.duration()) < 30);
}

#[test]
fn egg_timer_not_ready_then_ready() {
    let t = EggTimer::set(Duration::new(0, 50_000_000));
    assert!(!t.is_ready());
    assert!(t.duration_left().is_some());
    wait_ms(80);
    assert!(t.is_ready());
    assert_eq!(t.duration_left(), None);
}

#[test]
fn egg_timer_set_to_zero_is_ready_at_once() {
    let t = EggTimer::set(0u64);
    assert!(t.is_ready());
    assert_eq!(t.duration_left(), None);
}

#[test]
fn egg_timer_left_after_is_exact() {
    let t = EggTimer::set(5u64);
    assert_eq!(t.left_after(Duration::new(2, 250)), Some(Duration::new(2, 999_999_750)));
    assert_eq!(t.left_after(Duration::from_secs(5)), None);
    assert_eq!(t.left_after(Duration::from_secs(9)), None);
    assert!(!t.ready_after(Duration::new(4, 999_999_999)));
    assert!(t.ready_after(Duration::from_secs(5)));
}

#[test]
fn egg_timer_keeps_its_span() {
    let mut t = EggTimer::set(3u32);
    assert_eq!(t.max_duration(), Duration::from_secs(3));
    let before = t.started_at();
    wait_ms(5);
    t.reset();
    assert!(t.started_at() > before);
    assert_eq!(t.max_duration(), Duration::from_secs(3));
    assert!(millis(t.duration()) < 50);
}

#[test]
fn egg_timer_ends_span_after_start() {
    let t = EggTimer::set(Duration::new(2, 500));
    let end = t.ends_at().unwrap();
    assert_eq!(
        end.duration_since(t.started_at()),
        std::time::Duration::new(2, 500)
    );
}

#[test]
fn stopwatch_started_paused_counts_zero() {
    let mut s = Stopwatch::start_paused();
    wait_ms(20);
    assert_eq!(s.duration(), Duration::zero());
    s.resume();
    wait_ms(20);
    assert!(millis(s.duration()) >= 20);
}

#[test]
fn stopwatch_running_counts_continuously() {
    let s = Stopwatch::default();
    wait_ms(20);
    let a = s.duration();
    wait_ms(20);
    let b = s.duration();
    assert!(millis(a) >= 20);
    assert!(b.at_least(&a));
    assert!(millis(b) >= 40);
}

#[test]
fn stopwatch_does_not_advance_while_paused() {
    let mut s = Stopwatch::start();
    wait_ms(20);
    s.pause();
    let a = s.duration();
    s.pause();
    assert_eq!(s.duration(), a);
    wait_ms(20);
    assert_eq!(s.duration(), a);
}

#[test]
fn stopwatch_toggle_from_both_states() {
    let mut s = Stopwatch::start();
    s.toggle();
    let a = s.duration();
    wait_ms(20);
    assert_eq!(s.duration(), a);
    s.toggle();
    wait_ms(20);
    assert!(millis(s.duration()) >= millis(a) + 20);
}

#[test]
fn stopwatch_reset_keeps_pause_state() {
    let mut s = Stopwatch::start();
    wait_ms(20);
    s.pause();
    s.reset();
    assert_eq!(s.duration(), Duration::zero());
    wait_ms(10);
    assert_eq!(s.duration(), Duration::zero());
}

#[test]
fn stopwatch_run_adds_exactly_its_length() {
    let mut s = Stopwatch::start_paused();
    s.pause_after(Duration::from_secs(100));
    assert_eq!(s.duration(), Duration::zero());
    s.resume_from(std::time::Instant::now());
    assert_eq!(
        s.total_after(Duration::new(1, 5)),
        Duration::new(1, 5)
    );
    s.pause_after(Duration::new(2, 7));
    assert_eq!(s.duration(), Duration::new(2, 7));
    s.pause_after(Duration::from_secs(3));
    assert_eq!(s.duration(), Duration::new(2, 7));
    let now = std::time::Instant::now();
    s.resume_from(now);
    assert_eq!(s.started_at(), now);
    s.pause_after(Duration::new(0, 999_999_993));
    assert_eq!(s.duration(), Duration::from_secs(3));
}

#[test]
fn egg_timer_end_is_fixed_once_set() {
    let t = EggTimer::set(Duration::new(0, 10_000_000));
    let first = t.ends_at();
    wait_ms(20);
    assert_eq!(t.ends_at(), first);
    assert_eq!(
        first.unwrap(),
        t.started_at() + std::time::Duration::from_millis(10)
    );
}
