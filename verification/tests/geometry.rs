use tetris::geometry::{col_of, index_of, row_of};

#[test]
fn index_of_inside_is_row_major() {
    assert_eq!(index_of(10, 20, 0, 0), Some(0));
    assert_eq!(index_of(10, 20, 0, 9), Some(9));
    assert_eq!(index_of(10, 20, 1, 0), Some(10));
    assert_eq!(index_of(10, 20, 5, 3), Some(53));
    assert_eq!(index_of(10, 20, 19, 9), Some(199));
}

#[test]
fn index_of_outside_is_none() {
    assert_eq!(index_of(10, 20, -1, 0), None);
    assert_eq!(index_of(10, 20, 0, -1), None);
    assert_eq!(index_of(10, 20, 20, 0), None);
    assert_eq!(index_of(10, 20, 0, 10), None);
    assert_eq!(index_of(10, 20, i32::MIN, i32::MIN), None);
    assert_eq!(index_of(10, 20, i32::MAX, i32::MAX), None);
}

#[test]
fn index_of_is_a_bijection_on_a_ten_by_twenty_grid() {
    let mut seen = vec![false; 200];
    for row in 0..20 {
        for col in 0..10 {
            let index = index_of(10, 20, row, col).unwrap();
            assert!(index < 200);
            assert!(!seen[index]);
            seen[index] = true;
        }
    }
    assert!(seen.iter().all(|hit| *hit));
}

#[test]
fn index_of_is_a_bijection_on_the_smallest_grid() {
    let mut seen = vec![false; 16];
    for row in -2..7 {
        for col in -2..7 {
            let inside = (0..4).contains(&row) && (0..4).contains(&col);
            match index_of(4, 4, row, col) {
                Some(index) => {
                    assert!(inside);
                    assert!(!seen[index]);
                    seen[index] = true;
                }
                None => assert!(!inside),
            }
        }
    }
    assert!(seen.iter().all(|hit| *hit));
}

#[test]
fn row_and_col_invert_index_of() {
    for row in 0..20 {
        for col in 0..10 {
            let index = index_of(10, 20, row, col).unwrap();
            assert_eq!(row_of(10, 20, index), row as usize);
            assert_eq!(col_of(10, 20, index), col as usize);
        }
    }
    assert_eq!(row_of(10, 20, 199), 19);
    assert_eq!(col_of(10, 20, 199), 9);
    assert_eq!(row_of(7, 5, 34), 4);
    assert_eq!(col_of(7, 5, 34), 6);
}
