use updatemon::download::{plan_chunks, progress_percent, Downloader};

#[test]
fn plan_covers_length_in_order() {
    assert_eq!(plan_chunks(25, 10), vec![(0, 10), (10, 20), (20, 25)]);
    assert_eq!(plan_chunks(10, 10), vec![(0, 10)]);
    assert_eq!(plan_chunks(9, 10), vec![(0, 9)]);
    assert!(plan_chunks(0, 10).is_empty());
}

#[test]
fn plan_issues_ceil_many_requests() {
    assert_eq!(plan_chunks(101, 10).len(), 11);
    assert_eq!(plan_chunks(100, 10).len(), 10);
    assert_eq!(plan_chunks(1, 10240).len(), 1);
}

#[test]
fn progress_rounds_to_nearest_percent_halves_up() {
    assert_eq!(progress_percent(0, 10), 0);
    assert_eq!(progress_percent(5, 1000), 1);
    assert_eq!(progress_percent(25, 1000), 3);
    assert_eq!(progress_percent(24, 1000), 2);
    assert_eq!(progress_percent(1000, 1000), 100);
}

#[test]
fn chunks_arrive_in_offset_order() {
    let mut d = Downloader::new(25, 10, 3, 90);
    assert_eq!(d.current_request(), Some((0, 10)));
    d.on_success(vec![1; 10]);
    assert_eq!(d.current_request(), Some((10, 20)));
    d.on_success(vec![2; 10]);
    assert_eq!(d.current_request(), Some((20, 25)));
    d.on_success(vec![3; 5]);
    assert_eq!(d.current_request(), None);
    let mut want = vec![1; 10];
    want.extend(vec![2; 10]);
    want.extend(vec![3; 5]);
    assert_eq!(d.data, want);
    assert_eq!(d.chunks_done, 3);
}

#[test]
fn failures_back_off_without_refetching() {
    let mut d = Downloader::new(25, 10, 3, 90);
    d.on_success(vec![1; 10]);
    let before = d.data.clone();
    // The first chunk never gets re-requested: the next range stays put
    // through every failure, and the sleeps grow monotonically to the cap.
    let mut sleeps = Vec::new();
    for _ in 0..7 {
        assert_eq!(d.current_request(), Some((10, 20)));
        sleeps.push(d.on_failure());
        assert_eq!(d.data, before);
        assert_eq!(d.offset, 10);
    }
    assert_eq!(sleeps, vec![3, 6, 12, 24, 48, 90, 90]);
    // The eventual success still advances by exactly one chunk, and the
    // backoff resets for the next chunk.
    d.on_success(vec![2; 10]);
    assert_eq!(d.current_request(), Some((20, 25)));
    assert_eq!(d.timeout, 3);
    let mut want = vec![1; 10];
    want.extend(vec![2; 10]);
    assert_eq!(d.data, want);
}

#[test]
fn backoff_floor_above_nothing_still_capped() {
    let mut d = Downloader::new(10, 10, 90, 90);
    assert_eq!(d.on_failure(), 90);
    assert_eq!(d.on_failure(), 90);
    assert_eq!(d.timeout, 90);
}
