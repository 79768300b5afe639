use yui::bounds::{Bounds, BoundsHold, Cling, Direction};
use yui::depth;

fn region(left: i32, top: i32, right: i32, bottom: i32) -> Bounds {
    Bounds { right, bottom, left, top, z: 0 }
}

#[test]
fn new_bounds_start_at_origin() {
    let b = Bounds::new(5, 3);
    assert_eq!(b, Bounds { right: 5, bottom: 3, left: 0, top: 0, z: 0 });
    assert_eq!(b.width(), 5);
    assert_eq!(b.height(), 3);
}

#[test]
fn intersects_is_half_open() {
    let b = Bounds::new(5, 3);
    assert!(b.intersects(2, 4));
    assert!(b.intersects(0, 0));
    assert!(!b.intersects(3, 0));
    assert!(!b.intersects(0, 5));
    assert!(!b.intersects(-1, 2));
}

#[test]
fn pad_moves_each_edge_inward() {
    let b = Bounds::new(10, 5).with_z(-2);
    let padded = b.pad(1, 2, 1, 0);
    assert_eq!(padded, Bounds { right: 8, bottom: 5, left: 1, top: 1, z: -2 });
}

#[test]
fn confine_center_splits_spare_space() {
    let b = Bounds::new(10, 5);
    assert_eq!(b.confine(4, 1, Cling::Center), region(3, 2, 7, 3));
}

#[test]
fn confine_center_rounds_the_first_share_down() {
    let b = Bounds::new(10, 4);
    assert_eq!(b.confine(5, 1, Cling::Center), region(2, 1, 7, 2));
}

#[test]
fn confine_right_bottom_takes_the_far_corner() {
    let b = Bounds::new(10, 5);
    assert_eq!(b.confine(3, 2, Cling::RightBottom), region(7, 3, 10, 5));
    assert_eq!(b.confine(3, 2, Cling::LeftTop), region(0, 0, 3, 2));
}

#[test]
fn confine_wider_than_region_overhangs_both_sides() {
    let b = Bounds::new(10, 4);
    assert_eq!(b.confine(12, 4, Cling::Center), region(-1, 0, 11, 4));
}

#[test]
fn sides_are_exclusive() {
    let origin = region(5, 5, 10, 10);
    let above = region(0, 0, 8, 5);
    let below = region(0, 10, 8, 12);
    let left = region(0, 6, 5, 8);
    let right = region(10, 6, 12, 8);
    assert!(above.is_above(&origin));
    assert!(!above.is_below(&origin));
    assert!(below.is_below(&origin));
    assert!(left.is_left_of(&origin));
    assert!(!left.is_right_of(&origin));
    assert!(right.is_right_of(&origin));
    assert!(above.lies(Direction::Up, &origin));
    assert!(right.lies(Direction::Right, &origin));
    assert!(!right.lies(Direction::Left, &origin));
}

#[test]
fn rank_is_distance_less_overlap() {
    let start = region(5, 5, 10, 10);
    let above = region(0, 0, 8, 3);
    assert_eq!(above.up_rank(&start), -1);
    assert_eq!(above.rank(Direction::Up, &start), -1);
    let far_right = region(20, 0, 22, 3);
    assert_eq!(far_right.right_rank(&start), 10 + 2);
    let below = region(6, 12, 9, 14);
    assert_eq!(below.down_rank(&start), 2 - 3);
    let left = region(0, 0, 4, 20);
    assert_eq!(left.left_rank(&start), 1 - 5);
}

#[test]
fn splits_clamp_to_the_region() {
    let b = Bounds::new(10, 5);
    assert_eq!(b.split_from_right(3), (region(0, 0, 7, 5), region(7, 0, 10, 5)));
    assert_eq!(b.split_from_right(20), (region(0, 0, 0, 5), region(0, 0, 10, 5)));
    assert_eq!(b.split_from_top(2), (region(0, 0, 10, 2), region(0, 2, 10, 5)));
    assert_eq!(b.split_from_top(9), (region(0, 0, 10, 5), region(0, 5, 10, 5)));
    assert_eq!(b.split_from_bottom(2), (region(0, 0, 10, 3), region(0, 3, 10, 5)));
}

#[test]
fn hold_keeps_regions_and_yard_assignments() {
    let (root, mut hold) = BoundsHold::init(10, 5);
    assert_eq!(root, 0);
    assert_eq!(hold.bounds(0), Bounds::new(10, 5));
    let index = hold.push_bounds(&region(1, 1, 4, 4));
    assert_eq!(index, 1);
    hold.insert_yard_bounds(7, index);
    assert_eq!(*hold.yard_bounds(7), region(1, 1, 4, 4));
    hold.insert_yard_bounds(7, root);
    assert_eq!(*hold.yard_bounds(7), Bounds::new(10, 5));
    assert_eq!(hold.push_root(3, 3), 2);
}

#[test]
fn depth_bounds_pack_inward() {
    let b = depth::Bounds::new(8, 6);
    assert!(b.intersects(5, 7));
    assert!(!b.intersects(6, 0));
    let packed = b.pack(1, 2);
    assert!(packed.intersects(1, 2));
    assert!(!packed.intersects(0, 2));
    assert!(!packed.intersects(1, 6));
    assert!(!depth::Bounds::zero().intersects(0, 0));
}

#[test]
fn depth_hold_assigns_yards() {
    let mut hold = depth::BoundsHold::new();
    let first = hold.push_bounds(4, 4);
    let second = hold.push_bounds(2, 2);
    assert_eq!((first, second), (0, 1));
    hold.insert_yard_bounds(11, second);
    assert_eq!(*hold.get_yard_bounds(11), depth::Bounds::new(2, 2));
    assert_eq!(*hold.get_bounds(0), depth::Bounds::new(4, 4));
}
