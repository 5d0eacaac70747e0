use raytracer::schedule::{sample_row, worker_rows};

#[test]
fn rows_by_remainder() {
    assert_eq!(worker_rows(10, 3, 0), vec![0, 3, 6, 9]);
    assert_eq!(worker_rows(10, 3, 1), vec![1, 4, 7]);
    assert_eq!(worker_rows(10, 3, 2), vec![2, 5, 8]);
}

#[test]
fn single_worker_takes_every_row() {
    assert_eq!(worker_rows(5, 1, 0), vec![0, 1, 2, 3, 4]);
}

#[test]
fn more_workers_than_rows() {
    assert_eq!(worker_rows(2, 8, 1), vec![1]);
    assert!(worker_rows(2, 8, 5).is_empty());
    assert!(worker_rows(0, 4, 0).is_empty());
}

#[test]
fn every_row_has_exactly_one_worker() {
    let height: u32 = 540;
    let workers: u32 = 8;
    let mut owners = vec![0u32; height as usize];
    for w in 0..workers {
        let rows = worker_rows(height, workers, w);
        for pair in rows.windows(2) {
            assert!(pair[0] < pair[1]);
        }
        for row in rows {
            assert_eq!(row % workers, w);
            owners[row as usize] += 1;
        }
    }
    assert!(owners.iter().all(|n| *n == 1));
}

#[test]
fn top_row_samples_highest() {
    assert_eq!(sample_row(540, 0), 539);
    assert_eq!(sample_row(540, 539), 0);
    assert_eq!(sample_row(1, 0), 0);
}
