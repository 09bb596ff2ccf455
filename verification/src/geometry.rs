use vstd::prelude::*;

verus! {

/// Largest coordinate, and largest side length, that a rectangle keeps.
pub const MAX_EXTENT: i32 = 1073741823;

/// Smallest coordinate that a rectangle's corner keeps.
pub const MIN_COORDINATE: i32 = -1073741824;

/// A coordinate brought into `MIN_COORDINATE..=MAX_EXTENT`.
pub open spec fn clamp_position(val: int) -> int {
    if val > MAX_EXTENT {
        MAX_EXTENT as int
    } else if val < MIN_COORDINATE {
        MIN_COORDINATE as int
    } else {
        val
    }
}

/// A side length brought into `1..=MAX_EXTENT`: zero becomes one.
pub open spec fn clamp_size(val: int) -> int {
    if val == 0 {
        1
    } else if val > MAX_EXTENT {
        MAX_EXTENT as int
    } else {
        val
    }
}

/// Computes `clamp_position` on a value wide enough to hold any sum or
/// difference of two coordinates and a side length.
pub fn clamp_coordinate(val: i64) -> (r: i32)
    ensures
        r == clamp_position(val as int),
        MIN_COORDINATE <= r <= MAX_EXTENT,
{
    if val > MAX_EXTENT as i64 {
        MAX_EXTENT
    } else if val < MIN_COORDINATE as i64 {
        MIN_COORDINATE
    } else {
        val as i32
    }
}

/// Computes `clamp_size`.
pub fn clamp_extent(val: u32) -> (r: u32)
    ensures
        r == clamp_size(val as int),
        1 <= r <= MAX_EXTENT,
{
    if val == 0 {
        1
    } else if val > MAX_EXTENT as u32 {
        MAX_EXTENT as u32
    } else {
        val
    }
}

/// A point of the world, in whole pixels. The origin is arbitrary.
#[derive(Clone, Copy, Debug, PartialEq, Eq, Structural)]
pub struct Position {
    pub x: i32,
    pub y: i32,
}

impl Position {
    /// The point moved by `(dx, dy)`. Each coordinate saturates at the
    /// bounds that rectangles keep.
    pub open spec fn shifted(self, dx: int, dy: int) -> Position {
        Position {
            x: clamp_position(self.x + dx) as i32,
            y: clamp_position(self.y + dy) as i32,
        }
    }

    pub fn new(x: i32, y: i32) -> (p: Position)
        ensures
            p == (Position { x, y }),
    {
        Position { x, y }
    }

}

/// An axis-aligned rectangle: its top-left corner, its width and its height.
#[derive(Clone, Copy, Debug, PartialEq, Eq, Structural)]
pub struct Region {
    pub x: i32,
    pub y: i32,
    pub width: u32,
    pub height: u32,
}

impl Region {
    /// The corner lies within the coordinate bounds and neither side is
    /// empty or longer than `MAX_EXTENT`. Every rectangle that this library
    /// makes is of this kind.
    pub open spec fn wf(self) -> bool {
        &&& MIN_COORDINATE <= self.x <= MAX_EXTENT
        &&& MIN_COORDINATE <= self.y <= MAX_EXTENT
        &&& 1 <= self.width <= MAX_EXTENT
        &&& 1 <= self.height <= MAX_EXTENT
    }

    /// Neither side has length zero.
    pub open spec fn has_area(self) -> bool {
        self.width > 0 && self.height > 0
    }

    /// The rectangle with corner `(x, y)` and the given sides, each value
    /// clamped into its bounds.
    pub open spec fn clamped(x: int, y: int, width: int, height: int) -> Region {
        Region {
            x: clamp_position(x) as i32,
            y: clamp_position(y) as i32,
            width: clamp_size(width) as u32,
            height: clamp_size(height) as u32,
        }
    }

    /// The rectangle of the given sides whose middle is `center`. A side of
    /// odd length leaves the extra pixel to the right of, or below, the
    /// middle.
    pub open spec fn centered(center: Position, width: int, height: int) -> Region {
        Region {
            x: clamp_position(clamp_position(center.x as int) - clamp_size(width) / 2) as i32,
            y: clamp_position(clamp_position(center.y as int) - clamp_size(height) / 2) as i32,
            width: clamp_size(width) as u32,
            height: clamp_size(height) as u32,
        }
    }

    /// Makes a rectangle, clamping the corner and the sides; a side of zero
    /// becomes one.
    pub fn new(x: i32, y: i32, width: u32, height: u32) -> (r: Region)
        ensures
            r == Region::clamped(x as int, y as int, width as int, height as int),
            r.wf(),
    {
        Region {
            x: clamp_coordinate(x as i64),
            y: clamp_coordinate(y as i64),
            width: clamp_extent(width),
            height: clamp_extent(height),
        }
    }

    /// Makes the rectangle of the given sides around `center`.
    pub fn from_center(center: Position, width: u32, height: u32) -> (r: Region)
        ensures
            r == Region::centered(center, width as int, height as int),
            r.wf(),
    {
        let w: u32 = clamp_extent(width);
        let h: u32 = clamp_extent(height);
        let cx: i32 = clamp_coordinate(center.x as i64);
        let cy: i32 = clamp_coordinate(center.y as i64);
        Region {
            x: clamp_coordinate(cx as i64 - (w / 2) as i64),
            y: clamp_coordinate(cy as i64 - (h / 2) as i64),
            width: w,
            height: h,
        }
    }
}

} // verus!
