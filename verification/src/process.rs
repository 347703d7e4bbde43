use vstd::prelude::*;
use crate::ui::Coordinate;

verus! {

/// The width and height of the process widget whose corners are the cells
/// `left_top` and `right_bottom`, both included.
pub fn widget_size(left_top: &Coordinate, right_bottom: &Coordinate) -> (size: (u16, u16))
    requires
        left_top.x <= right_bottom.x,
        left_top.y <= right_bottom.y,
        right_bottom.x - left_top.x + 1 <= u16::MAX,
        right_bottom.y - left_top.y + 1 <= u16::MAX,
    ensures
        size.0 == right_bottom.x - left_top.x + 1,
        size.1 == right_bottom.y - left_top.y + 1,
{
    ((right_bottom.x - left_top.x) + 1, (right_bottom.y - left_top.y) + 1)
}

/// The corners of the process list inside a widget at `coordinate` that is
/// `width` by `height`: two columns in from the left edge, up to two
/// columns and two rows short of the widget's far edges.
pub fn process_list_area(coordinate: &Coordinate, width: u16, height: u16) -> (area: (Coordinate, Coordinate))
    requires
        coordinate.x + 2 + width <= u16::MAX,
        coordinate.y + height <= u16::MAX,
        coordinate.y + height >= 2,
    ensures
        area.0 == (Coordinate { x: (coordinate.x + 2) as u16, y: coordinate.y }),
        area.1 == (Coordinate {
            x: (coordinate.x + 2 + width - 2) as u16,
            y: (coordinate.y + height - 2) as u16,
        }),
{
    let x = coordinate.x + 2;
    let y = coordinate.y;
    (Coordinate::new(x, y), Coordinate::new(x + width - 2, y + height - 2))
}

} // verus!
