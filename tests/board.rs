use fruit_box::grid::{build_cells, Cell, Grid, Status, COLS, ROWS};

#[test]
fn from_values_lays_out_column_by_column() {
    let g = Grid::from_values(2, 3, &vec![1, 2, 3, 4, 5, 6]).unwrap();
    assert_eq!(g.cols, 2);
    assert_eq!(g.rows, 3);
    assert_eq!(g.cells.len(), 6);
    assert_eq!(g.cells[4], Cell { col: 1, row: 1, value: 5, status: Status::Default });
    assert_eq!(g.cell(0, 2), Some(Cell { col: 0, row: 2, value: 3, status: Status::Default }));
    assert_eq!(g.index_of(1, 2), Some(5));
}

#[test]
fn lookup_outside_the_board_is_none() {
    let g = Grid::from_values(2, 3, &vec![1, 2, 3, 4, 5, 6]).unwrap();
    assert_eq!(g.cell(2, 0), None);
    assert_eq!(g.cell(0, 3), None);
    assert_eq!(g.index_of(5, 5), None);
}

#[test]
fn from_values_rejects_wrong_count() {
    assert!(Grid::from_values(2, 3, &vec![1, 2, 3, 4, 5]).is_none());
    assert!(Grid::from_values(2, 3, &vec![1, 2, 3, 4, 5, 6, 7]).is_none());
}

#[test]
fn from_values_rejects_values_out_of_range() {
    assert!(Grid::from_values(1, 2, &vec![0, 5]).is_none());
    assert!(Grid::from_values(1, 2, &vec![5, 10]).is_none());
    assert!(Grid::from_values(1, 2, &vec![1, 9]).is_some());
}

#[test]
fn from_values_accepts_empty_board() {
    let g = Grid::from_values(0, 4, &vec![]).unwrap();
    assert_eq!(g.cells.len(), 0);
    assert_eq!(g.scored_count(), 0);
    assert_eq!(g.selected_total(), 0);
}

#[test]
fn built_board_has_every_cell_in_range_and_default() {
    let g = build_cells();
    assert_eq!(g.cols, COLS);
    assert_eq!(g.rows, ROWS);
    assert_eq!(g.cells.len(), 170);
    for (i, c) in g.cells.iter().enumerate() {
        assert_eq!(c.col, i / ROWS);
        assert_eq!(c.row, i % ROWS);
        assert!(c.value >= 1 && c.value <= 9);
        assert_eq!(c.status, Status::Default);
    }
}

#[test]
fn built_board_values_are_drawn_not_fixed() {
    let g = build_cells();
    assert!(g.cells.iter().any(|c| c.value != 1));
    assert!(g.cells.iter().any(|c| c.value != 9));
}

#[test]
fn coordinates_of_built_board_are_unique() {
    let g = build_cells();
    for a in 0..g.cells.len() {
        for b in (a + 1)..g.cells.len() {
            let (x, y) = (g.cells[a], g.cells[b]);
            assert!(x.col != y.col || x.row != y.row);
        }
    }
}
