use radal::errors::GprError;
use radal::filters::{abslog_subsample_count, average_plan, window_subset_vec};

#[test]
fn test_window_subset_vec() {
    // Basic odd window, exact multiple: len = 9, window = 3
    // windows: [0,1,2], [3,4,5], [6,7,8] -> mids: 1, 4, 7
    let v = (0..9).collect::<Vec<_>>();
    let out = window_subset_vec(v, 3);
    assert_eq!(out, &[1, 4, 7], "len={}, window={}", 9, 3);

    // Odd window with remainder: len = 10, window = 3
    // windows: [0,1,2], [3,4,5], [6,7,8], [9] -> mids: 1, 4, 7, 9
    let v = (0..10).collect::<Vec<_>>();
    let out = window_subset_vec(v, 3);
    assert_eq!(out, &[1, 4, 7, 9], "len={}, window={}", 10, 3);

    // Even window, exact multiple: len = 8, window = 2
    // windows: [0,1], [2,3], [4,5], [6,7] -> left-of-middle: 0, 2, 4, 6
    let v = (0..8).collect::<Vec<_>>();
    let out = window_subset_vec(v, 2);
    assert_eq!(out, &[0, 2, 4, 6], "len={}, window={}", 8, 2);

    // Even window with remainder: len = 10, window = 4
    // windows: [0,1,2,3], [4,5,6,7], [8,9] -> mids: 1, 5, 8
    let v = (0..10).collect::<Vec<_>>();
    let out = window_subset_vec(v, 4);
    assert_eq!(out, &[1, 5, 8], "len={}, window={}", 10, 4);

    // Window larger than len: len = 5, window = 10
    // single window [0..5], midpoint index 2
    let v = (0..5).collect::<Vec<_>>();
    let out = window_subset_vec(v, 10);
    assert_eq!(out, &[2], "len={}, window={}", 5, 10);
}

#[test]
fn test_window_subset_vec_empty() {
    let v: Vec<u32> = Vec::new();
    let out = window_subset_vec(v, 7);
    assert!(out.is_empty());
}

#[test]
fn test_window_subset_vec_window_one() {
    let v = vec!["a", "b", "c"];
    let out = window_subset_vec(v, 1);
    assert_eq!(out, vec!["a", "b", "c"]);
}

#[test]
fn test_average_plan_blocks() {
    // Three columns averaged in windows of two: a full block and a
    // remainder block, matching an output width of ceil(3 / 2) = 2.
    let plan = average_plan(3, 2).unwrap();
    assert_eq!(plan, vec![(0, 2), (2, 3)]);

    // Window equal to the width: one block, output width 1.
    let plan = average_plan(3, 3).unwrap();
    assert_eq!(plan, vec![(0, 3)]);

    // Ten columns in windows of four.
    let plan = average_plan(10, 4).unwrap();
    assert_eq!(plan, vec![(0, 4), (4, 8), (8, 10)]);
}

#[test]
fn test_average_plan_window_too_large() {
    assert_eq!(
        average_plan(3, 4),
        Err(GprError::WindowTooLarge { window: 4, width: 3 })
    );
}

#[test]
fn test_average_plan_window_too_small() {
    assert_eq!(average_plan(3, 0), Err(GprError::WindowTooSmall { window: 0 }));
    assert_eq!(average_plan(3, 1), Err(GprError::WindowTooSmall { window: 1 }));
}

#[test]
fn test_abslog_subsample_count() {
    // A 10 x 10 grid has 100 samples; a tenth of that is below the floor
    // of one hundred samples.
    assert_eq!(abslog_subsample_count(10, 10), 100);
    // 50 x 30 = 1500 samples; a tenth is 150.
    assert_eq!(abslog_subsample_count(50, 30), 150);
    // An empty array still asks for the floor.
    assert_eq!(abslog_subsample_count(0, 5), 100);
}
