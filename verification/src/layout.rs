//! Where the cells of a board go on the screen.

use vstd::prelude::*;

verus! {

/// A rectangle of the screen: its upper left corner and its size, in
/// character cells.
#[derive(PartialEq, Eq, Structural, Clone, Copy, Debug)]
pub struct Area {
    pub x: u16,
    pub y: u16,
    pub width: u16,
    pub height: u16,
}

impl Area {
    /// The right and the lower edge of the rectangle are coordinates of
    /// the screen.
    pub open spec fn on_screen(self) -> bool {
        self.x + self.width <= u16::MAX && self.y + self.height <= u16::MAX
    }
}

/// `(i, j)` is a cell of a board of `rows` by `cols` that can be laid out
/// in `area`.
pub open spec fn can_place(area: Area, rows: int, cols: int, i: int, j: int) -> bool {
    &&& area.on_screen()
    &&& 1 <= rows <= u16::MAX
    &&& 1 <= cols <= u16::MAX
    &&& 0 <= i < rows
    &&& 0 <= j < cols
}

/// The rectangle of the cell `(i, j)` of a board of `rows` by `cols` laid
/// out in `area`: all cells have one size, the largest whole size at which
/// the board fits, and the board stands in the middle of the area, with
/// the odd column and row of padding to the right and below.
pub open spec fn cell_area_of(area: Area, rows: int, cols: int, i: int, j: int) -> Area {
    let width = area.width as int / cols;
    let height = area.height as int / rows;
    let pad_x = (area.width - width * cols) / 2;
    let pad_y = (area.height - height * rows) / 2;
    Area {
        x: (area.x + pad_x + j * width) as u16,
        y: (area.y + pad_y + i * height) as u16,
        width: width as u16,
        height: height as u16,
    }
}

/// The size of one side of a cell and the padding before the first cell,
/// where `count` cells share `length`.
fn share(length: u16, count: u16) -> (parts: (u16, u16))
    requires
        count >= 1,
    ensures
        parts.0 == length as int / count as int,
        parts.1 == (length - parts.0 * count) / 2,
        parts.1 + parts.0 * count <= length,
{
    let size = length / count;
    assert(size * count <= length) by (nonlinear_arith)
        requires
            size == length as int / count as int,
            count >= 1,
            length >= 0,
    ;
    let used = size * count;
    ((size, (length - used) / 2))
}

/// The rectangle of the cell `(i, j)` of a board of `rows` by `cols` laid
/// out in `area`; nothing where there is no such cell or the area is not
/// on the screen.
pub fn cell_area(area: Area, rows: usize, cols: usize, i: usize, j: usize) -> (cell: Option<Area>)
    ensures
        cell == if can_place(area, rows as int, cols as int, i as int, j as int) {
            Some(cell_area_of(area, rows as int, cols as int, i as int, j as int))
        } else {
            None
        },
{
    if rows < 1 || cols < 1 || rows > u16::MAX as usize || cols > u16::MAX as usize || i >= rows
        || j >= cols {
        return None;
    }
    if area.width > u16::MAX - area.x || area.height > u16::MAX - area.y {
        return None;
    }
    let (width, pad_x) = share(area.width, cols as u16);
    let (height, pad_y) = share(area.height, rows as u16);
    assert(j * width + width <= width * cols) by (nonlinear_arith)
        requires
            0 <= j < cols,
            width >= 0,
    ;
    assert(i * height + height <= height * rows) by (nonlinear_arith)
        requires
            0 <= i < rows,
            height >= 0,
    ;
    let across = (j as u16) * width;
    let down = (i as u16) * height;
    Some(Area { x: area.x + pad_x + across, y: area.y + pad_y + down, width, height })
}

} // verus!
