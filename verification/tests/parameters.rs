use stft::variables::Q;

#[test]
fn explicit_hop_parameters() {
    let q = Q::new(4, 5);
    assert_eq!(q.window_size(), 16);
    assert_eq!(q.hop_size(), 5);
    assert_eq!(q.overlap_size(), 11);
    assert_eq!(q.as_usize(), 3);
}

#[test]
fn overlap_ratio_parameters() {
    // The concrete scenario: order 2 with half overlap gives a window of 4
    // and a hop of 2.
    let q = Q::with_overlap(2, 1, 2);
    assert_eq!(q.window_size(), 4);
    assert_eq!(q.hop_size(), 2);
    assert_eq!(q.overlap_size(), 2);

    // Three-quarter overlap of a 1024 window hops by 256.
    let q = Q::with_overlap(10, 3, 4);
    assert_eq!(q.window_size(), 1024);
    assert_eq!(q.hop_size(), 256);

    // The hop rounds down, as `window * (1 - ratio)` does: a third of
    // overlap on a window of 4 hops by floor(8 / 3) = 2.
    let q = Q::with_overlap(2, 1, 3);
    assert_eq!(q.window_size(), 4);
    assert_eq!(q.hop_size(), 2);
}

#[test]
fn overlap_factor_conversion() {
    let q = Q::with_overlap(3, 1, 2);
    assert_eq!(usize::from(q), 2);
    assert_eq!(q.as_usize(), 2);
}

#[test]
fn zero_overlap_hops_a_full_window() {
    let q = Q::with_overlap(5, 0, 1);
    assert_eq!(q.window_size(), 32);
    assert_eq!(q.hop_size(), 32);
    assert_eq!(q.overlap_size(), 0);
}
