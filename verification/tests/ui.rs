use fun_cli::process::{process_list_area, widget_size};
use fun_cli::ui::Coordinate;

#[test]
fn coordinate_new() {
    let c = Coordinate::new(3, 7);
    assert_eq!(c.x, 3);
    assert_eq!(c.y, 7);
}

#[test]
fn widget_size_counts_both_corners() {
    assert_eq!(widget_size(&Coordinate::new(2, 3), &Coordinate::new(11, 8)), (10, 6));
    assert_eq!(widget_size(&Coordinate::new(5, 5), &Coordinate::new(5, 5)), (1, 1));
}

#[test]
fn process_list_area_insets() {
    let (a, b) = process_list_area(&Coordinate::new(1, 4), 20, 10);
    assert_eq!((a.x, a.y), (3, 4));
    assert_eq!((b.x, b.y), (21, 12));
}
