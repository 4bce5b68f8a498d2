use voxel_raytracer::{CellGrid, CellRange};

fn range(lo: [i32; 3], hi: [i32; 3]) -> CellRange {
    CellRange { lo, hi }
}

#[test]
fn build_lists_each_object_in_every_cell_it_touches() {
    let ranges = vec![
        range([0, 0, 0], [0, 0, 0]),
        range([0, 0, 0], [1, 1, 0]),
        range([1, 0, 1], [1, 0, 1]),
    ];
    let g = CellGrid::build([2, 2, 2], &ranges);
    assert_eq!((g.nx(), g.ny(), g.nz()), (2, 2, 2));
    assert_eq!(g.objects_in(0, 0, 0), &vec![0, 1]);
    assert_eq!(g.objects_in(1, 0, 0), &vec![1]);
    assert_eq!(g.objects_in(1, 1, 0), &vec![1]);
    assert_eq!(g.objects_in(0, 1, 0), &vec![1]);
    assert_eq!(g.objects_in(1, 0, 1), &vec![2]);
    assert_eq!(g.objects_in(0, 0, 1), &Vec::<usize>::new());
}

#[test]
fn build_clamps_ranges_outside_the_grid() {
    let ranges = vec![range([-5, -1, -3], [9, 0, 0]), range([3, 0, 0], [4, 0, 0]), range([0, -3, 0], [0, -1, 0])];
    let g = CellGrid::build([3, 1, 1], &ranges);
    assert_eq!(g.objects_in(0, 0, 0), &vec![0]);
    assert_eq!(g.objects_in(2, 0, 0), &vec![0]);
}

#[test]
fn cell_index_is_row_major_in_x_then_y_then_z() {
    let g = CellGrid::build([4, 3, 2], &Vec::new());
    assert_eq!(g.cell_index(0, 0, 0), 0);
    assert_eq!(g.cell_index(3, 0, 0), 3);
    assert_eq!(g.cell_index(0, 1, 0), 4);
    assert_eq!(g.cell_index(2, 1, 1), (1 * 3 + 1) * 4 + 2);
    assert_eq!(g.cell_index(3, 2, 1), 23);
}

#[test]
fn walk_starts_in_clamped_cell_and_stops_at_the_border() {
    let g = CellGrid::build([4, 3, 2], &Vec::new());
    assert_eq!(g.clamp_cell([-2, 7, 1]), [0, 2, 1]);
    assert_eq!(g.clamp_cell([i32::MIN, i32::MAX, 0]), [0, 2, 0]);
    assert_eq!(g.step_cell([0, 2, 1], 0, 1), Some([1, 2, 1]));
    assert_eq!(g.step_cell([0, 2, 1], 0, -1), None);
    assert_eq!(g.step_cell([0, 2, 1], 1, 1), None);
    assert_eq!(g.step_cell([0, 2, 1], 2, -1), Some([0, 2, 0]));
    assert_eq!(g.step_cell([3, 0, 0], 1, 0), Some([3, 0, 0]));
}
