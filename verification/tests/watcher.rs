use taskboard::timestamp::Timestamp;
use taskboard::watcher::{FileWatcher, Observation, WatchState};

fn at(secs: u64) -> Timestamp {
    Timestamp::since_epoch(secs, 0)
}

fn seen(path: &str, secs: u64) -> Observation {
    Observation { path: path.to_string(), modified: at(secs) }
}

#[test]
fn a_watch_state_starts_idle_and_stays_watching() {
    let mut state = WatchState::new();
    assert!(!state.is_watching());
    state.start();
    assert!(state.is_watching());
    state.start();
    assert!(state.is_watching());
    assert!(!WatchState::default().is_watching());
}

#[test]
fn the_first_sight_of_a_path_is_no_change() {
    let mut watcher = FileWatcher::new();
    assert!(!watcher.observe("tasks/a", at(10)));
}

#[test]
fn another_time_is_a_change_and_the_same_time_is_none() {
    let mut watcher = FileWatcher::new();
    assert!(!watcher.observe("tasks/a", at(10)));
    assert!(!watcher.observe("tasks/a", at(10)));
    assert!(watcher.observe("tasks/a", at(11)));
    assert!(!watcher.observe("tasks/a", at(11)));
    assert!(watcher.observe("tasks/a", at(10)));
}

#[test]
fn nanoseconds_and_the_side_of_the_epoch_count() {
    let mut watcher = FileWatcher::new();
    assert!(!watcher.observe("p", Timestamp::since_epoch(5, 1)));
    assert!(watcher.observe("p", Timestamp::since_epoch(5, 2)));
    assert!(watcher.observe("p", Timestamp::until_epoch(5, 2)));
    assert!(!watcher.observe("p", Timestamp::until_epoch(5, 2)));
}

#[test]
fn paths_are_watched_one_by_one() {
    let mut watcher = FileWatcher::new();
    assert!(!watcher.observe("tasks/a", at(10)));
    assert!(!watcher.observe("tasks/b", at(20)));
    assert!(watcher.observe("tasks/a", at(30)));
    assert!(!watcher.observe("tasks/b", at(20)));
}

#[test]
fn the_first_poll_only_records() {
    let mut watcher = FileWatcher::new();
    let children = vec![seen("tasks/a", 10), seen("tasks/b", 20)];
    assert_eq!(watcher.poll(&children), 0);
}

#[test]
fn a_poll_counts_each_changed_child_once() {
    let mut watcher = FileWatcher::new();
    assert_eq!(watcher.poll(&vec![seen("a", 1), seen("b", 1), seen("c", 1)]), 0);
    assert_eq!(watcher.poll(&vec![seen("a", 2), seen("b", 1), seen("c", 3)]), 2);
    assert_eq!(watcher.poll(&vec![seen("a", 2), seen("b", 1), seen("c", 3)]), 0);
    assert_eq!(watcher.poll(&vec![seen("a", 2), seen("b", 9), seen("c", 3)]), 1);
}

#[test]
fn a_new_child_is_recorded_without_notice() {
    let mut watcher = FileWatcher::new();
    assert_eq!(watcher.poll(&vec![seen("a", 1)]), 0);
    assert_eq!(watcher.poll(&vec![seen("a", 1), seen("b", 5)]), 0);
    assert_eq!(watcher.poll(&vec![seen("a", 1), seen("b", 6)]), 1);
}

#[test]
fn a_vanished_child_is_not_noticed_and_not_forgotten() {
    let mut watcher = FileWatcher::new();
    assert_eq!(watcher.poll(&vec![seen("a", 1), seen("b", 1)]), 0);
    assert_eq!(watcher.poll(&vec![seen("a", 1)]), 0);
    assert_eq!(watcher.poll(&vec![seen("a", 1), seen("b", 2)]), 1);
}

#[test]
fn an_empty_poll_changes_nothing() {
    let mut watcher = FileWatcher::new();
    assert_eq!(watcher.poll(&Vec::new()), 0);
    assert_eq!(watcher.poll(&vec![seen("a", 1)]), 0);
    assert_eq!(watcher.poll(&Vec::new()), 0);
    assert_eq!(watcher.poll(&vec![seen("a", 2)]), 1);
}
