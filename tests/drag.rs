use fruit_box::grid::{Grid, Position, Status};
use fruit_box::round::RoundContext;
use fruit_box::selection::DragGesture;

fn pos(col: usize, row: usize) -> Position {
    Position { col, row }
}

fn statuses(rc: &RoundContext) -> Vec<Status> {
    rc.grid.cells.iter().map(|c| c.status).collect()
}

fn drag(rc: &mut RoundContext, from: Position, to: Position) {
    rc.drag_start(from);
    rc.drag_over(from);
    rc.drag_over(to);
    rc.drag_end();
    rc.update_cells();
}

#[test]
fn two_cells_summing_to_ten_are_scored() {
    // (0,0) = 4 and (1,0) = 6 on a 2 x 1 board.
    let mut rc = RoundContext::new(Grid::from_values(2, 1, &vec![4, 6]).unwrap());
    let before = rc.score_so_far();
    assert_eq!(before, 0);
    rc.drag_start(pos(0, 0));
    rc.drag_over(pos(1, 0));
    assert_eq!(rc.grid.selected_total(), 10);
    rc.drag_end();
    rc.update_cells();
    assert_eq!(statuses(&rc), vec![Status::Scored, Status::Scored]);
    assert_eq!(rc.score_so_far(), before + 2);
    assert_eq!(rc.gesture, DragGesture::NotDragging);
}

#[test]
fn matching_drag_scores_only_its_rectangle_and_repeat_is_no_op() {
    // 3 x 2 board, column by column: (0,0)=1 (0,1)=9 (1,0)=2 (1,1)=3 (2,0)=5 (2,1)=5
    let mut rc = RoundContext::new(Grid::from_values(3, 2, &vec![1, 9, 2, 3, 5, 5]).unwrap());
    drag(&mut rc, pos(2, 0), pos(2, 1));
    assert_eq!(
        statuses(&rc),
        vec![
            Status::Default,
            Status::Default,
            Status::Default,
            Status::Default,
            Status::Scored,
            Status::Scored
        ]
    );
    let after = statuses(&rc);
    drag(&mut rc, pos(2, 0), pos(2, 1));
    assert_eq!(statuses(&rc), after);
    assert_eq!(rc.score_so_far(), 2);
}

#[test]
fn unmatched_drag_reverts_selection_and_keeps_scored_cells() {
    let mut rc = RoundContext::new(Grid::from_values(3, 2, &vec![1, 9, 2, 3, 5, 5]).unwrap());
    drag(&mut rc, pos(0, 0), pos(0, 1));
    assert_eq!(rc.score_so_far(), 2);
    // The whole board: the two scored cells are left out, 2 + 3 + 5 + 5 = 15.
    rc.drag_start(pos(0, 0));
    rc.drag_over(pos(2, 1));
    assert_eq!(rc.grid.selected_total(), 15);
    rc.drag_end();
    rc.update_cells();
    assert_eq!(
        statuses(&rc),
        vec![
            Status::Scored,
            Status::Scored,
            Status::Default,
            Status::Default,
            Status::Default,
            Status::Default
        ]
    );
}

#[test]
fn rectangle_over_scored_cells_excludes_them_from_sum() {
    // (0,0)=5 (0,1)=5 (1,0)=4 (1,1)=6
    let mut rc = RoundContext::new(Grid::from_values(2, 2, &vec![5, 5, 4, 6]).unwrap());
    drag(&mut rc, pos(0, 0), pos(0, 1));
    assert_eq!(rc.score_so_far(), 2);
    drag(&mut rc, pos(0, 0), pos(1, 1));
    assert_eq!(rc.score_so_far(), 4);
}

#[test]
fn drag_over_without_start_selects_the_cell_alone() {
    let mut rc = RoundContext::new(Grid::from_values(2, 1, &vec![3, 7]).unwrap());
    rc.drag_over(pos(1, 0));
    assert_eq!(rc.gesture, DragGesture::Dragging { start: pos(1, 0) });
    assert_eq!(statuses(&rc), vec![Status::Default, Status::Selected]);
    assert_eq!(rc.grid.selected_total(), 7);
}

#[test]
fn shrinking_the_rectangle_unselects_cells() {
    let mut rc = RoundContext::new(Grid::from_values(3, 1, &vec![1, 2, 3]).unwrap());
    rc.drag_start(pos(0, 0));
    rc.drag_over(pos(2, 0));
    assert_eq!(rc.grid.selected_total(), 6);
    rc.drag_over(pos(1, 0));
    assert_eq!(statuses(&rc), vec![Status::Selected, Status::Selected, Status::Default]);
}

#[test]
fn drag_from_bottom_right_to_top_left_spans_same_rectangle() {
    let mut rc = RoundContext::new(Grid::from_values(2, 2, &vec![1, 2, 3, 4]).unwrap());
    rc.drag_start(pos(1, 1));
    rc.drag_over(pos(0, 0));
    assert_eq!(rc.grid.selected_total(), 10);
}

#[test]
fn selection_stays_live_until_drag_ends() {
    let mut rc = RoundContext::new(Grid::from_values(2, 1, &vec![4, 6]).unwrap());
    rc.drag_start(pos(0, 0));
    rc.drag_over(pos(1, 0));
    rc.update_cells();
    assert_eq!(statuses(&rc), vec![Status::Selected, Status::Selected]);
    assert_eq!(rc.gesture, DragGesture::Dragging { start: pos(0, 0) });
}

#[test]
fn several_drag_ends_resolve_once() {
    let mut rc = RoundContext::new(Grid::from_values(2, 1, &vec![4, 6]).unwrap());
    rc.drag_start(pos(0, 0));
    rc.drag_over(pos(1, 0));
    rc.drag_end();
    rc.drag_end();
    rc.drag_end();
    rc.update_cells();
    assert_eq!(rc.score_so_far(), 2);
    rc.update_cells();
    assert_eq!(rc.score_so_far(), 2);
}

#[test]
fn empty_selection_never_scores() {
    let mut rc = RoundContext::new(Grid::from_values(2, 1, &vec![4, 6]).unwrap());
    rc.drag_end();
    rc.update_cells();
    assert_eq!(rc.score_so_far(), 0);
    assert_eq!(statuses(&rc), vec![Status::Default, Status::Default]);
}

#[test]
fn new_drag_start_replaces_the_previous_one() {
    let mut rc = RoundContext::new(Grid::from_values(2, 1, &vec![4, 6]).unwrap());
    rc.drag_start(pos(0, 0));
    rc.drag_start(pos(1, 0));
    assert_eq!(rc.gesture.start(), Some(pos(1, 0)));
    rc.drag_end();
    assert_eq!(rc.gesture.start(), None);
}

#[test]
fn drag_over_scored_cell_leaves_selection_as_it_is() {
    // (0,0)=4 (1,0)=6 (2,0)=5
    let mut rc = RoundContext::new(Grid::from_values(3, 1, &vec![4, 6, 5]).unwrap());
    drag(&mut rc, pos(0, 0), pos(1, 0));
    assert_eq!(statuses(&rc), vec![Status::Scored, Status::Scored, Status::Default]);
    rc.drag_start(pos(2, 0));
    rc.drag_over(pos(1, 0));
    assert_eq!(rc.gesture, DragGesture::Dragging { start: pos(2, 0) });
    assert_eq!(statuses(&rc), vec![Status::Scored, Status::Scored, Status::Default]);
    assert_eq!(rc.grid.selected_total(), 0);
}

#[test]
fn drag_over_scored_cell_keeps_earlier_selection() {
    // (0,0)=4 (1,0)=6 (2,0)=5 (3,0)=2
    let mut rc = RoundContext::new(Grid::from_values(4, 1, &vec![4, 6, 5, 2]).unwrap());
    drag(&mut rc, pos(0, 0), pos(1, 0));
    rc.drag_start(pos(3, 0));
    rc.drag_over(pos(2, 0));
    assert_eq!(rc.grid.selected_total(), 7);
    rc.drag_over(pos(0, 0));
    assert_eq!(rc.grid.selected_total(), 7);
    assert_eq!(
        statuses(&rc),
        vec![Status::Scored, Status::Scored, Status::Selected, Status::Selected]
    );
}
