use oxide::into_intervals;

fn assert_tiling(total_size: u64, worker_count: u64) {
    let intervals = into_intervals(total_size, worker_count);
    assert_eq!(intervals.len() as u64, worker_count);
    assert_eq!(intervals[0].0, 0);
    assert_eq!(intervals[intervals.len() - 1].1 + 1, total_size);
    for i in 0..intervals.len() {
        assert!(intervals[i].0 <= intervals[i].1 + 1);
        if i + 1 < intervals.len() {
            assert_eq!(intervals[i].1 + 1, intervals[i + 1].0);
        }
    }
    let mut seen = vec![0u32; total_size as usize];
    for (start, end) in intervals {
        let mut b = start;
        while b <= end {
            seen[b as usize] += 1;
            b += 1;
        }
    }
    assert!(seen.iter().all(|&n| n == 1));
}

#[test]
fn hundred_bytes_among_four_workers() {
    assert_eq!(
        into_intervals(100, 4),
        vec![(0, 24), (25, 49), (50, 74), (75, 99)]
    );
}

#[test]
fn one_worker_takes_the_whole_resource() {
    assert_eq!(into_intervals(100, 1), vec![(0, 99)]);
    assert_eq!(into_intervals(1, 1), vec![(0, 0)]);
}

#[test]
fn last_interval_takes_the_remainder() {
    assert_eq!(into_intervals(10, 3), vec![(0, 2), (3, 5), (6, 9)]);
    assert_eq!(into_intervals(101, 4), vec![(0, 24), (25, 49), (50, 74), (75, 100)]);
}

#[test]
fn last_interval_may_be_the_shortest() {
    assert_eq!(into_intervals(7, 4), vec![(0, 1), (2, 3), (4, 5), (6, 6)]);
}

#[test]
fn resource_without_bytes_is_a_single_point() {
    assert_eq!(into_intervals(0, 1), vec![(0, 0)]);
}

#[test]
fn one_worker_more_than_bytes_leaves_the_last_empty() {
    assert_eq!(into_intervals(1, 2), vec![(0, 0), (1, 0)]);
    assert_eq!(into_intervals(3, 4), vec![(0, 0), (1, 1), (2, 2), (3, 2)]);
}

#[test]
fn as_many_workers_as_bytes() {
    assert_eq!(into_intervals(3, 3), vec![(0, 0), (1, 1), (2, 2)]);
}

#[test]
fn largest_size_does_not_overflow() {
    let half = 1u64 << 63;
    assert_eq!(
        into_intervals(u64::MAX, 2),
        vec![(0, half - 1), (half, u64::MAX - 1)]
    );
    assert_eq!(into_intervals(u64::MAX, 1), vec![(0, u64::MAX - 1)]);
}

#[test]
fn same_input_gives_same_intervals() {
    assert_eq!(into_intervals(1000, 7), into_intervals(1000, 7));
    assert_eq!(into_intervals(1, 2), into_intervals(1, 2));
}

#[test]
fn intervals_tile_the_resource() {
    for total_size in 1u64..40 {
        for worker_count in 1..=total_size + 1 {
            assert_tiling(total_size, worker_count);
        }
    }
    assert_tiling(4096, 5);
    assert_tiling(65537, 16);
}

#[test]
fn no_interval_is_empty_with_no_more_workers_than_bytes() {
    for total_size in 1u64..40 {
        for worker_count in 1..=total_size {
            for (start, end) in into_intervals(total_size, worker_count) {
                assert!(start <= end);
            }
        }
    }
}
