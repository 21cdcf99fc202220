use blockfall::block::{CellColor, FallingBlock, Point};

fn point_set(points: &[Point]) -> Vec<(isize, isize)> {
    let mut v: Vec<(isize, isize)> = points.iter().map(|p| (p.x, p.y)).collect();
    v.sort();
    v
}

#[test]
fn square_piece_cells_at_the_origin() {
    let fb = FallingBlock::new(6, 0);
    let pts = fb.points();
    assert_eq!(point_set(&pts), vec![(1, 0), (1, 1), (2, 0), (2, 1)]);
}

#[test]
fn bar_piece_cells_in_both_axes() {
    let horizontal = FallingBlock::new(4, 0);
    assert_eq!(
        point_set(&horizontal.points()),
        vec![(0, 1), (1, 1), (2, 1), (3, 1)]
    );
    let vertical = FallingBlock::new(4, 1);
    assert_eq!(
        point_set(&vertical.points()),
        vec![(2, 0), (2, 1), (2, 2), (2, 3)]
    );
}

#[test]
fn shift_translates_every_cell() {
    let mut fb = FallingBlock::new(6, 0);
    fb.shift(&Point::new(3, 19));
    assert_eq!(
        point_set(&fb.points()),
        vec![(4, 19), (4, 20), (5, 19), (5, 20)]
    );
    fb.shift(&Point::new(-1, -2));
    assert_eq!(
        point_set(&fb.points()),
        vec![(3, 17), (3, 18), (4, 17), (4, 18)]
    );
}

#[test]
fn rotate_steps_through_the_four_states() {
    let mut fb = FallingBlock::new(0, 0);
    fb.rotate(1);
    assert_eq!(fb.orientation, 3);
    fb.rotate(1);
    assert_eq!(fb.orientation, 2);
    fb.rotate(-1);
    assert_eq!(fb.orientation, 3);
    fb.rotate(-1);
    assert_eq!(fb.orientation, 0);
}

#[test]
fn four_rotations_restore_the_piece() {
    // Either direction, four turns bring back the orientation and cells.
    for idx in 0..7 {
        for start in 0..4 {
            for dir in [1isize, -1isize] {
                let mut fb = FallingBlock::new(idx, start);
                fb.shift(&Point::new(3, 7));
                let before = point_set(&fb.points());
                for _ in 0..4 {
                    fb.rotate(dir);
                }
                assert_eq!(fb.orientation, start);
                assert_eq!(point_set(&fb.points()), before);
            }
        }
    }
}

#[test]
fn each_catalog_entry_has_its_own_color() {
    let colors: Vec<CellColor> = (0..7).map(|i| FallingBlock::new(i, 0).color()).collect();
    assert_eq!(colors[0], CellColor::Rgb(30, 144, 255));
    assert_eq!(colors[4], CellColor::Rgb(176, 224, 230));
    assert_eq!(colors[6], CellColor::Rgb(250, 250, 210));
    for i in 0..7 {
        for j in 0..i {
            assert_ne!(colors[i], colors[j]);
        }
    }
}
