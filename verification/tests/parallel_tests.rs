use autogramthis::engine::IterationResult;
use autogramthis::parallel::{SearchWorker, total_iterations};

fn letter_index(c: char) -> usize {
    (c as usize) - ('a' as usize)
}

fn known_autogram_counts() -> Vec<u64> {
    let pairs = [
        ('a', 3u64),
        ('c', 3),
        ('d', 2),
        ('e', 27),
        ('f', 4),
        ('g', 1),
        ('h', 5),
        ('i', 11),
        ('l', 2),
        ('n', 16),
        ('o', 7),
        ('r', 5),
        ('s', 29),
        ('t', 16),
        ('u', 2),
        ('v', 6),
        ('w', 6),
        ('x', 6),
        ('y', 3),
    ];
    let mut v = vec![0u64; 26];
    for &(c, n) in &pairs {
        v[letter_index(c)] = n;
    }
    v
}

#[test]
fn test_total_iterations_sums_counters() {
    assert_eq!(total_iterations(&vec![]), 0);
    assert_eq!(total_iterations(&vec![7]), 7);
    assert_eq!(total_iterations(&vec![3, 4, 5]), 12);
}

#[test]
fn test_total_iterations_saturates() {
    assert_eq!(total_iterations(&vec![u64::MAX, 5]), u64::MAX);
    assert_eq!(total_iterations(&vec![u64::MAX - 1, 1]), u64::MAX);
}

#[test]
fn test_single_worker_reports_the_fixed_point_of_the_search_predicate() {
    // A race with one worker, on a state one full update away from a known
    // fixed point, reports exactly the sentence the single-threaded search
    // accepts for the same configuration and counts.
    let mut worker = SearchWorker::new("This sentence contains", "", true, true, false, false,
        false, 5000);
    worker.engine.counts = known_autogram_counts();
    let expected = worker.engine.sentence();
    assert!(worker.engine.is_autogram());
    match worker.step() {
        IterationResult::FixedPointFound(s) => {
            assert_eq!(s, expected);
            assert!(worker.engine.is_autogram());
        },
        _ => panic!("the worker should have reported the fixed point"),
    }
    assert_eq!(worker.engine.epoch, 1);
}

#[test]
fn test_worker_counts_each_iteration_exactly_once() {
    // cycle hunting performs only full updates, so the run is deterministic;
    // the worker's counter must equal the number of steps taken, with no
    // step counted twice and none lost
    let mut worker = SearchWorker::new("test", "", true, true, false, false, true, 5000);
    let mut steps: u64 = 0;
    loop {
        steps += 1;
        match worker.step() {
            IterationResult::Continue => {
                assert_eq!(worker.engine.epoch, steps);
                assert!(steps < 1000, "the cycle search should finish quickly");
            },
            IterationResult::CycleFound(v) => {
                assert_eq!(worker.engine.epoch, steps);
                assert_eq!(v.len(), 14);
                break;
            },
            IterationResult::FixedPointFound(_) => panic!("cycle hunting cannot report one"),
        }
    }
    assert_eq!(total_iterations(&vec![worker.engine.epoch]), steps);
}
