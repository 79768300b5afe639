use yui::bounds::Bounds;
use yui::nexus::Nexus;

fn list_height(item_heights: &Vec<i32>) -> i32 {
    item_heights.iter().fold(0, |sum, part| sum + *part)
}

#[test]
fn small_list() {
    let item_heights = vec![2, 3];
    let item_tops = vec![0, 2];
    let list_height = list_height(&item_heights);
    let top_nexus = Nexus::new(0, &item_heights);
    let bottom_nexus = top_nexus.down(&item_heights).expect("top_nexus.down");
    let top_pivot_row = top_nexus.pivot_row(10, 2, list_height, 2, &item_tops);
    let bottom_pivot_row = bottom_nexus.pivot_row(10, 2, list_height, 2, &item_tops);
    assert_eq!(top_pivot_row, 2);
    assert_eq!(bottom_pivot_row, 6);
}

#[test]
fn large_list() {
    let item_heights = vec![2, 3];
    let item_tops = vec![0, 2];
    let list_height = list_height(&item_heights);
    let top_nexus = Nexus::new(0, &item_heights);
    let bottom_nexus = top_nexus.down(&item_heights).expect("top_nexus.down");
    let top_pivot_row = top_nexus.pivot_row(4, 0, list_height, 2, &item_tops);
    let bottom_pivot_row = bottom_nexus.pivot_row(4, 0, list_height, 2, &item_tops);
    assert_eq!(top_pivot_row, 0);
    assert_eq!(bottom_pivot_row, 3);
}

#[test]
fn one_heights() {
    let item_heights = vec![2, 3];
    let nexus = Nexus::new(0, &item_heights);
    let u = nexus.up(&item_heights);
    let d = nexus.down(&item_heights).expect("nexus down");
    let dd = d.down(&item_heights);
    let du = d.up(&item_heights).expect("up on down nexus");
    assert_eq!(u, None);
    assert_eq!(d, Nexus::Down { last_pos: 4, item_index: 1, max_index: 2 });
    assert_eq!(dd, None);
    assert_eq!(du, Nexus::Up { first_pos: 0, item_index: 0, max_index: 2 });
}

#[test]
fn one_height() {
    let item_heights = vec![2];
    let nexus = Nexus::new(0, &item_heights);
    let d = nexus.down(&item_heights);
    assert_eq!(d, None);
    let u = nexus.up(&item_heights);
    assert_eq!(u, None);
}

#[test]
fn nexus_new_walks_down_to_item() {
    let item_heights = vec![2, 3, 4];
    assert_eq!(Nexus::new(0, &item_heights), Nexus::Up { first_pos: 0, item_index: 0, max_index: 3 });
    assert_eq!(Nexus::new(1, &item_heights), Nexus::Down { last_pos: 4, item_index: 1, max_index: 3 });
    assert_eq!(Nexus::new(2, &item_heights), Nexus::Down { last_pos: 8, item_index: 2, max_index: 3 });
}

#[test]
fn nexus_up_then_down_returns_to_item() {
    let item_heights = vec![2, 3, 4];
    let bottom = Nexus::new(2, &item_heights);
    let up = bottom.up(&item_heights).expect("up");
    assert_eq!(up, Nexus::Up { first_pos: 2, item_index: 1, max_index: 3 });
    let down = up.down(&item_heights).expect("down");
    assert_eq!(down, Nexus::Down { last_pos: 8, item_index: 2, max_index: 3 });
}

#[test]
fn nexus_can_move() {
    let item_heights = vec![2, 3];
    let top = Nexus::new(0, &item_heights);
    assert!(!top.can_up());
    assert!(top.can_down());
    let bottom = Nexus::new(1, &item_heights);
    assert!(bottom.can_up());
    assert!(!bottom.can_down());
    assert_eq!(bottom.pivot_pos(), 4);
    assert_eq!(bottom.item_index(), 1);
    assert_eq!(bottom.max_index(), 2);
}

#[test]
fn pivot_row_in_tall_list_keeps_neighbours_visible() {
    // Ten items of height 2 in a region 6 rows tall: the list does not fit.
    let item_heights = vec![2; 10];
    let item_tops: Vec<i32> = (0..10).map(|i| i * 2).collect();
    let middle = Nexus::new(4, &item_heights);
    // (9 + 1) * 6 / 20 = 3 exactly, so the anchor goes one row earlier.
    assert_eq!(middle.pivot_row(6, 0, 20, 2, &item_tops), 2);
    let top = Nexus::new(0, &item_heights);
    assert_eq!(top.pivot_row(6, 0, 20, 2, &item_tops), 0);
    let last = Nexus::new(9, &item_heights);
    assert_eq!(last.pivot_row(6, 0, 20, 2, &item_tops), 5);
}

#[test]
fn item_bounds_are_laid_out_from_the_anchor() {
    let item_heights = vec![2, 3];
    let item_tops = vec![0, 2];
    let bounds = Bounds { right: 10, bottom: 12, left: 0, top: 2, z: 0 };
    let up = Nexus::new(0, &item_heights);
    let b1 = up.item_bounds(1, &bounds, 2, 0, &item_tops, &item_heights);
    assert_eq!((b1.top, b1.bottom), (4, 7));
    let down = Nexus::new(1, &item_heights);
    let b0 = down.item_bounds(0, &bounds, 6, 4, &item_tops, &item_heights);
    assert_eq!((b0.top, b0.bottom), (2, 4));
}
