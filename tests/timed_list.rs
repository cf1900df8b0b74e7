use eggtimer::{Duration, TimedList};

fn wait_ms(ms: u64) {
    let start = std::time::Instant::now();
    while start.elapsed() < std::time::Duration::from_millis(ms) {}
}

#[test]
fn inserted_value_is_yielded_at_once() {
    let mut list = TimedList::new();
    list.insert("a", 5u64);
    let got: Vec<&str> = list.iter().into_iter().copied().collect();
    assert_eq!(got, vec!["a"]);
    assert_eq!(list.len(), 1);
    assert!(!list.is_empty());
}

#[test]
fn expired_value_is_cleaned_away() {
    let mut list = TimedList::new();
    list.insert("a", Duration::new(0, 50_000_000));
    list.insert("b", 5u64);
    wait_ms(100);
    list.clean();
    let got: Vec<&str> = list.iter().into_iter().copied().collect();
    assert_eq!(got, vec!["b"]);
    assert_eq!(list.len(), 1);
}

#[test]
fn expired_value_is_skipped_before_cleaning() {
    let mut list = TimedList::default();
    list.insert(1, Duration::new(0, 20_000_000));
    list.insert(2, 5u64);
    wait_ms(40);
    let got: Vec<i32> = list.iter().into_iter().copied().collect();
    assert_eq!(got, vec![2]);
    assert_eq!(list.len(), 1);
    let again: Vec<i32> = list.iter().into_iter().copied().collect();
    assert_eq!(again, vec![2]);
}

#[test]
fn zero_span_value_is_never_yielded() {
    let mut list = TimedList::new();
    list.insert('x', 0u8);
    assert_eq!(list.len(), 0);
    assert!(list.is_empty());
    assert!(list.iter().is_empty());
}

#[test]
fn built_from_three_pairs_counts_three() {
    let list = TimedList::from_pairs(vec![("a", 5u64), ("b", 6u64), ("c", 7u64)]);
    assert_eq!(list.len(), 3);
    let got: Vec<&str> = list.iter().into_iter().copied().collect();
    assert_eq!(got, vec!["a", "b", "c"]);
}

#[test]
fn retain_keeps_matching_values_in_order() {
    let mut list = TimedList::from_pairs(vec![(1, 5u64), (2, 5u64), (3, 5u64), (4, 5u64)]);
    list.retain(|v: &i32| *v % 2 == 0);
    let got: Vec<i32> = list.into_vec();
    assert_eq!(got, vec![2, 4]);
}

#[test]
fn retain_marked_follows_the_marks() {
    let mut list = TimedList::from_pairs(vec![(10, 5u64), (20, 5u64), (30, 5u64)]);
    list.retain_marked(&vec![true, false, true]);
    let got: Vec<i32> = list.iter().into_iter().copied().collect();
    assert_eq!(got, vec![10, 30]);
}

#[test]
fn clear_removes_everything() {
    let mut list = TimedList::from_pairs(vec![(1, 5u64), (2, 5u64)]);
    list.clear();
    assert!(list.is_empty());
    assert_eq!(list.len(), 0);
}

#[test]
fn iter_mut_changes_live_values_in_place() {
    let mut list = TimedList::new();
    list.insert(1, 5u64);
    list.insert(2, 0u64);
    list.insert(3, 5u64);
    for v in list.iter_mut().iter_mut() {
        *v *= 10;
    }
    assert_eq!(list.into_vec(), vec![10, 30]);
}

#[test]
fn timer_iter_pairs_values_with_their_timers() {
    let mut list = TimedList::new();
    list.insert("a", 5u64);
    list.insert("gone", 0u64);
    list.insert("b", 9u64);
    let pairs = list.timer_iter();
    assert_eq!(pairs.len(), 2);
    assert_eq!(*pairs[0].0, "a");
    assert_eq!(pairs[0].1.max_duration(), Duration::from_secs(5));
    assert_eq!(*pairs[1].0, "b");
    assert_eq!(pairs[1].1.max_duration(), Duration::from_secs(9));
}

#[test]
fn timer_iter_mut_cleans_then_lends() {
    let mut list = TimedList::new();
    list.insert(1, 0u64);
    list.insert(2, 4u64);
    let (values, timers) = list.timer_iter_mut();
    assert_eq!(values.len(), 1);
    values[0] += 40;
    assert_eq!(timers[0].max_duration(), Duration::from_secs(4));
    assert_eq!(list.into_vec(), vec![42]);
}

#[test]
fn iter_does_not_change_the_list() {
    let mut list = TimedList::new();
    list.insert(1, 5u64);
    list.insert(2, 0u64);
    let before = list.len();
    let _ = list.iter();
    let _ = list.iter();
    assert_eq!(list.len(), before);
    list.clean();
    assert_eq!(list.len(), before);
}
