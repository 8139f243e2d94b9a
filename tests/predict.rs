use dipr::{find_best_offset, find_pixel_by_lat_long, predict_two, shift, GridData};

#[test]
fn find_best_offset_simple() {
    let t1: GridData = vec![
        vec![([0, 0], 1), ([0, 0], 1), ([0, 0], 1), ([0, 0], 1)],
        vec![([0, 0], 1), ([0, 0], 0), ([0, 0], 0), ([0, 0], 0)],
        vec![([0, 0], 1), ([0, 0], 0), ([0, 0], 0), ([0, 0], 0)],
        vec![([0, 0], 1), ([0, 0], 0), ([0, 0], 0), ([0, 0], 0)],
    ];
    let t2: GridData = vec![
        vec![([0, 0], 0), ([0, 0], 0), ([0, 0], 0), ([0, 0], 0)],
        vec![([0, 0], 0), ([0, 0], 1), ([0, 0], 1), ([0, 0], 1)],
        vec![([0, 0], 0), ([0, 0], 1), ([0, 0], 0), ([0, 0], 0)],
        vec![([0, 0], 0), ([0, 0], 1), ([0, 0], 0), ([0, 0], 0)],
    ];
    assert_eq!(find_best_offset(&t1, &t2), (1, 1));
}

fn grid(values: &[&[u16]]) -> GridData {
    values
        .iter()
        .enumerate()
        .map(|(y, row)| row.iter().enumerate().map(|(x, v)| ([y as i64, x as i64], *v)).collect())
        .collect()
}

#[test]
fn single_row_grid_has_no_search_window() {
    let g = grid(&[&[5, 6]]);
    assert_eq!(find_best_offset(&g, &g), (0, 0));
}

#[test]
fn best_offset_prefers_first_on_ties() {
    let g = grid(&[&[0, 0], &[0, 0]]);
    assert_eq!(find_best_offset(&g, &g), (-1, -1));
}

#[test]
fn shift_moves_rates_and_keeps_coordinates() {
    let g = grid(&[&[1, 2, 3], &[4, 5, 6], &[7, 8, 9]]);
    let s = shift(&g, 1, 1);
    assert_eq!(s.len(), 3 + 2);
    assert_eq!(s[0].iter().map(|c| c.1).collect::<Vec<_>>(), vec![1, 2, 3]);
    assert_eq!(s[1].iter().map(|c| c.1).collect::<Vec<_>>(), vec![4, 1, 2]);
    assert_eq!(s[2].iter().map(|c| c.1).collect::<Vec<_>>(), vec![7, 4, 5]);
    assert_eq!(s[2][1].0, [2, 1]);
    assert!(s[3].is_empty() && s[4].is_empty());
    let far = shift(&g, 0, 3);
    assert_eq!(far.len(), 3);
    assert_eq!(far[1].iter().map(|c| c.1).collect::<Vec<_>>(), vec![4, 5, 6]);
    let back = shift(&g, -1, 0);
    assert_eq!(back.len(), 6);
    assert_eq!(back[0].iter().map(|c| c.1).collect::<Vec<_>>(), vec![2, 3, 3]);
}

#[test]
fn predict_two_extrapolates_motion() {
    let mut a = vec![vec![0u16; 4]; 4];
    a[0][0] = 9;
    let mut b = vec![vec![0u16; 4]; 4];
    b[1][1] = 9;
    let rows_a: Vec<&[u16]> = a.iter().map(|r| r.as_slice()).collect();
    let rows_b: Vec<&[u16]> = b.iter().map(|r| r.as_slice()).collect();
    let ga = grid(&rows_a);
    let gb = grid(&rows_b);
    assert_eq!(find_best_offset(&ga, &gb), (1, 1));
    let steps = predict_two([&ga, &gb], 300, 0);
    assert_eq!(steps.len(), 13);
    // now: no time has passed since the first grid's motion was measured at t = 0
    assert_eq!(steps[0][0][0].1, 9);
    // one step of 300 s moves by one cell; two steps by two
    assert_eq!(steps[1][1][1].1, 9);
    assert_eq!(steps[2][2][2].1, 9);
    assert_eq!(steps[3][3][3].1, 9);
    assert_eq!(steps[12].len(), 4);
}

#[test]
fn finds_pixel_by_coordinates() {
    let g: GridData = vec![
        vec![([30, 10], 0), ([30, 20], 0), ([30, 30], 0)],
        vec![([20, 10], 0), ([20, 20], 0), ([20, 30], 0)],
        vec![([10, 10], 0), ([10, 20], 0), ([10, 30], 0)],
    ];
    assert_eq!(find_pixel_by_lat_long(&g, 25, 15), Some((1, 1)));
    assert_eq!(find_pixel_by_lat_long(&g, 30, 10), Some((0, 0)));
    assert_eq!(find_pixel_by_lat_long(&g, 10, 30), Some((2, 2)));
    assert_eq!(find_pixel_by_lat_long(&g, 5, 15), None);
    assert_eq!(find_pixel_by_lat_long(&g, 25, 31), None);
}
