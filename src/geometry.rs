//! Court dimensions and point-in-region tests on a grid of court coordinates.
use vstd::prelude::*;

verus! {

/// Court dimensions, in inches.
#[derive(Clone, Copy, Debug, PartialEq, Eq, Structural)]
pub struct Court {
    pub length: i64,
    pub width: i64,
    pub three_point_line_distance: i64,
    pub three_point_line_corner_distance: i64,
    pub free_throw_line_distance: i64,
    pub key_width: i64,
    pub key_height: i64,
    pub hoop_height: i64,
    pub grid_size: i64,
}

/// Largest dimension, in inches, that a court may have.
pub const MAX_DIMENSION: i64 = 100_000;

/// Length of the corner strip along the sideline, in inches (14 ft).
pub const CORNER_LENGTH: i64 = 168;

/// Width of the corner strip, in inches (3 ft).
pub const CORNER_WIDTH: i64 = 36;

impl Court {
    /// Every dimension is between zero and `MAX_DIMENSION`.
    pub open spec fn wf(&self) -> bool {
        &&& 0 <= self.length <= MAX_DIMENSION
        &&& 0 <= self.width <= MAX_DIMENSION
        &&& 0 <= self.three_point_line_distance <= MAX_DIMENSION
        &&& 0 <= self.three_point_line_corner_distance <= MAX_DIMENSION
        &&& 0 <= self.free_throw_line_distance <= MAX_DIMENSION
        &&& 0 <= self.key_width <= MAX_DIMENSION
        &&& 0 <= self.key_height <= MAX_DIMENSION
        &&& 0 <= self.hoop_height <= MAX_DIMENSION
        &&& 0 <= self.grid_size <= MAX_DIMENSION
    }

    /// Grid point `(x, y)` lies on the court, whose center is the origin.
    pub open spec fn inside_court(&self, x: int, y: int) -> bool {
        abs(2 * (x * self.grid_size)) <= self.length && abs(2 * (y * self.grid_size)) <= self.width
    }

    /// Grid point `(x, y)` lies in the key centered on the origin.
    pub open spec fn inside_key(&self, x: int, y: int) -> bool {
        abs(2 * (x * self.grid_size)) <= self.key_height && abs(2 * (y * self.grid_size))
            <= self.key_width
    }

    /// Four times the squared distance from grid point `(x, y)` to the basket at `(length / 2, 0)`.
    pub open spec fn basket_distance4(&self, x: int, y: int) -> int {
        let dx = 2 * (x * self.grid_size) - self.length;
        let dy = 2 * (y * self.grid_size);
        dx * dx + dy * dy
    }

    /// Grid point `(x, y)` lies in a corner strip along the sideline near the basket.
    pub open spec fn in_corner(&self, x: int, y: int) -> bool {
        2 * (x * self.grid_size) >= self.length - 2 * CORNER_LENGTH && abs(2 * (y * self.grid_size))
            >= self.width - 2 * CORNER_WIDTH
    }

    /// A shot from grid point `(x, y)` is worth three: beyond the corner distance in a corner
    /// strip, beyond the arc distance elsewhere.
    pub open spec fn three_point_shot(&self, x: int, y: int) -> bool {
        let d = if self.in_corner(x, y) {
            self.three_point_line_corner_distance
        } else {
            self.three_point_line_distance
        };
        self.basket_distance4(x, y) >= 4 * (d * d)
    }

    /// A regulation court: 94 by 50 feet, arc at 23 ft 9 in, 22 ft in the corners, a grid of
    /// two feet.
    pub fn new() -> (r: Court)
        ensures
            r.wf(),
            r.length == 1128 && r.width == 600,
            r.three_point_line_distance == 285 && r.three_point_line_corner_distance == 264,
            r.free_throw_line_distance == 180,
            r.key_width == 192 && r.key_height == 228,
            r.hoop_height == 120 && r.grid_size == 24,
    {
        Court {
            length: 1128,
            width: 600,
            three_point_line_distance: 285,
            three_point_line_corner_distance: 264,
            free_throw_line_distance: 180,
            key_width: 192,
            key_height: 228,
            hoop_height: 120,
            grid_size: 24,
        }
    }

    /// Whether grid point `(x, y)` lies on the court.
    pub fn is_inside_court(&self, x: i32, y: i32) -> (r: bool)
        requires
            self.wf(),
        ensures
            r == self.inside_court(x as int, y as int),
    {
        let (px, py) = self.scaled(x, y);
        abs128(px) <= self.length as i128 && abs128(py) <= self.width as i128
    }

    /// Whether grid point `(x, y)` lies in the key.
    pub fn is_inside_key(&self, x: i32, y: i32) -> (r: bool)
        requires
            self.wf(),
        ensures
            r == self.inside_key(x as int, y as int),
    {
        let (px, py) = self.scaled(x, y);
        abs128(px) <= self.key_height as i128 && abs128(py) <= self.key_width as i128
    }

    /// Whether a shot from grid point `(x, y)` is a three-point attempt.
    pub fn is_three_point_shot(&self, x: i32, y: i32) -> (r: bool)
        requires
            self.wf(),
        ensures
            r == self.three_point_shot(x as int, y as int),
    {
        let (px, py) = self.scaled(x, y);
        let dx = px - self.length as i128;
        proof {
            let b: int = 429496729700000;
            assert(0 <= dx * dx <= b * b) by (nonlinear_arith)
                requires
                    -b <= dx <= b,
                    b == 429496729700000,
            ;
            assert(0 <= py * py <= b * b) by (nonlinear_arith)
                requires
                    -b <= py <= b,
                    b == 429496729700000,
            ;
        }
        let dist4 = dx * dx + py * py;
        let corner = px >= self.length as i128 - 2 * CORNER_LENGTH as i128 && abs128(py)
            >= self.width as i128 - 2 * CORNER_WIDTH as i128;
        let d = if corner {
            self.three_point_line_corner_distance as i128
        } else {
            self.three_point_line_distance as i128
        };
        proof {
            assert(0 <= d * d <= 100_000 * 100_000) by (nonlinear_arith)
                requires
                    0 <= d <= 100_000,
            ;
        }
        dist4 >= 4 * (d * d)
    }

    /// `(x, y)` scaled by twice the grid size.
    fn scaled(&self, x: i32, y: i32) -> (r: (i128, i128))
        requires
            self.wf(),
        ensures
            r.0 == 2 * (x * self.grid_size),
            r.1 == 2 * (y * self.grid_size),
            -2 * 2147483648 * MAX_DIMENSION <= r.0 <= 2 * 2147483648 * MAX_DIMENSION,
            -2 * 2147483648 * MAX_DIMENSION <= r.1 <= 2 * 2147483648 * MAX_DIMENSION,
    {
        let g = self.grid_size as i128;
        proof {
            assert(-2147483648 * MAX_DIMENSION <= (x as int) * g <= 2147483648 * MAX_DIMENSION)
                by (nonlinear_arith)
                requires
                    -2147483648 <= x <= 2147483647,
                    0 <= g <= MAX_DIMENSION,
            ;
            assert(-2147483648 * MAX_DIMENSION <= (y as int) * g <= 2147483648 * MAX_DIMENSION)
                by (nonlinear_arith)
                requires
                    -2147483648 <= y <= 2147483647,
                    0 <= g <= MAX_DIMENSION,
            ;
        }
        (2 * (x as i128 * g), 2 * (y as i128 * g))
    }
}

/// Absolute value on integers.
pub open spec fn abs(v: int) -> int {
    if v < 0 {
        -v
    } else {
        v
    }
}

fn abs128(v: i128) -> (r: i128)
    requires
        v > i128::MIN,
    ensures
        r == abs(v as int),
{
    if v < 0 {
        -v
    } else {
        v
    }
}

} // verus!
