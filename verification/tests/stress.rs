use arc::{Arc, Arena};
use std::cell::Cell;

/// A payload that counts how often it is destroyed.
struct Probe<'a> {
    destroyed: &'a Cell<usize>,
}

impl Drop for Probe<'_> {
    fn drop(&mut self) {
        self.destroyed.set(self.destroyed.get() + 1);
    }
}

/// Lets `workers` workers each clone `first` once and later drop their clone.
/// `schedule` yields, turn by turn, the worker that takes its next step.
fn run_workers(workers: usize, schedule: &[usize]) {
    let destroyed = Cell::new(0);
    let mut arena = Arena::new();
    let first = Arc::new(&mut arena, Probe { destroyed: &destroyed });
    let mut held: Vec<Option<Arc<Probe>>> = (0..workers).map(|_| None).collect();
    let mut done = vec![false; workers];
    let mut live = 1;
    for &worker in schedule {
        match held[worker].take() {
            None => {
                assert!(!done[worker]);
                held[worker] = Some(first.clone(&mut arena));
                live += 1;
            }
            Some(twin) => {
                assert_eq!(twin.ref_count(&arena), live);
                twin.drop(&mut arena);
                done[worker] = true;
                live -= 1;
            }
        }
        assert_eq!(first.ref_count(&arena), live);
        assert_eq!(destroyed.get(), 0);
    }
    assert!(done.iter().all(|d| *d));
    assert_eq!(first.ref_count(&arena), 1);
    first.drop(&mut arena);
    assert_eq!(destroyed.get(), 1);
}

#[test]
fn workers_that_all_clone_before_any_drops() {
    let workers = 16;
    let mut schedule: Vec<usize> = (0..workers).collect();
    schedule.extend(0..workers);
    run_workers(workers, &schedule);
}

#[test]
fn workers_that_drop_in_reverse_order() {
    let workers = 16;
    let mut schedule: Vec<usize> = (0..workers).collect();
    schedule.extend((0..workers).rev());
    run_workers(workers, &schedule);
}

#[test]
fn workers_that_run_one_after_the_other() {
    let workers = 16;
    let schedule: Vec<usize> = (0..workers).flat_map(|w| [w, w]).collect();
    run_workers(workers, &schedule);
}

#[test]
fn workers_in_a_shuffled_order() {
    let workers = 64;
    let mut schedule: Vec<usize> = (0..workers).flat_map(|w| [w, w]).collect();
    // A fixed shuffle: the order is the same in every run.
    let mut state: u64 = 0x2545_f491_4f6c_dd1d;
    for i in (1..schedule.len()).rev() {
        state = state.wrapping_mul(6364136223846793005).wrapping_add(1442695040888963407);
        let j = (state >> 33) as usize % (i + 1);
        schedule.swap(i, j);
    }
    run_workers(workers, &schedule);
}

#[test]
fn first_handle_dropped_while_workers_hold_clones() {
    let destroyed = Cell::new(0);
    let mut arena = Arena::new();
    let first = Arc::new(&mut arena, Probe { destroyed: &destroyed });
    let mut clones = vec![];
    for _ in 0..8 {
        clones.push(first.clone(&mut arena));
    }
    assert_eq!(first.ref_count(&arena), 9);
    first.drop(&mut arena);
    let mut left = 8;
    for twin in clones {
        assert_eq!(destroyed.get(), 0);
        assert_eq!(twin.ref_count(&arena), left);
        twin.drop(&mut arena);
        left -= 1;
    }
    assert_eq!(destroyed.get(), 1);
}
