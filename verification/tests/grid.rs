use gamebench_fyrox::grid::CellGrid;

#[test]
fn candidates_are_later_objects_in_nearby_cells() {
    let cells = vec![(5, 5), (5, 5), (6, 4), (7, 5), (4, 6), (5, 5), (3, 5)];
    let grid = CellGrid::build(&cells);
    // Row by row from the lower-left neighbour: (4,4),(5,4),(6,4),(4,5),(5,5),(6,5),(4,6),(5,6),(6,6).
    assert_eq!(grid.candidates(0, (5, 5)), vec![2, 1, 5, 4]);
    assert_eq!(grid.candidates(1, (5, 5)), vec![2, 5, 4]);
    assert_eq!(grid.candidates(5, (5, 5)), Vec::<usize>::new());
    assert_eq!(grid.candidates(2, (6, 4)), vec![5, 3]);
}

#[test]
fn candidates_use_the_given_cell() {
    let cells = vec![(0, 0), (10, 10), (11, 11)];
    let grid = CellGrid::build(&cells);
    assert_eq!(grid.candidates(0, (0, 0)), Vec::<usize>::new());
    assert_eq!(grid.candidates(0, (10, 10)), vec![1, 2]);
    assert_eq!(grid.candidates(0, (12, 12)), vec![2]);
}

#[test]
fn negative_and_large_cells_do_not_collide_by_key() {
    let cells = vec![(-1, 0), (0, -1), (-1, -1), (1, 0), (0, i32::MAX - 1), (-1, i32::MIN + 1)];
    let grid = CellGrid::build(&cells);
    assert_eq!(grid.candidates(0, (-1, 0)), vec![2, 1]);
    assert_eq!(grid.candidates(0, (100, 100)), Vec::<usize>::new());
    assert_eq!(grid.candidates(0, (0, i32::MAX - 1)), vec![4]);
    assert_eq!(grid.candidates(0, (-1, i32::MIN + 1)), vec![5]);
}

#[test]
fn empty_grid_has_no_candidates() {
    let grid = CellGrid::build(&[]);
    assert_eq!(grid.candidates(0, (0, 0)), Vec::<usize>::new());
}

#[test]
fn every_near_pair_once() {
    let cells: Vec<(i32, i32)> = (0..40).map(|k: i32| ((k * 7) % 5, (k * 3) % 4)).collect();
    let grid = CellGrid::build(&cells);
    let mut pairs = Vec::new();
    for i in 0..cells.len() {
        for j in grid.candidates(i, cells[i]) {
            pairs.push((i, j));
        }
    }
    let mut expected = Vec::new();
    for i in 0..cells.len() {
        for j in (i + 1)..cells.len() {
            if (cells[i].0 - cells[j].0).abs() <= 1 && (cells[i].1 - cells[j].1).abs() <= 1 {
                expected.push((i, j));
            }
        }
    }
    pairs.sort();
    assert_eq!(pairs, expected);
}
