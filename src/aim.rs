//! Directions of the 256 aim levels, and the level of an aim offset.
//!
//! Level `q` stands for the angle `pi * (2q - 255) / 255`, from `-pi` to
//! `pi`. Sines and cosines of multiples of `pi / 255` come from the Taylor
//! series of the sine, summed in fixed point with `10^18` for one, in
//! integers only, so that every peer gets the same values.
use vstd::prelude::*;

verus! {

/// Length of a unit direction as the simulation stores it.
pub const DIR_ONE: i64 = 1000;

/// One, in the fixed point of the series.
pub const FINE_ONE: u128 = 1_000_000_000_000_000_000;

/// `pi` in the fixed point of the series, rounded down.
pub const PI_FINE: u128 = 3_141_592_653_589_793_238;

/// Half a thousandth, and a thousandth, in the fixed point of the series.
pub const HALF_MILLI_FINE: u128 = 500_000_000_000_000;

pub const MILLI_FINE: u128 = 1_000_000_000_000_000;

/// Horner's scheme for `sin(x) / x = 1 - x^2/(2*3) (1 - x^2/(4*5) (1 - ...))`,
/// from the level `j` down to the `x^14 / 15!` term, with `x2 = x^2`; each
/// product is rounded down.
pub open spec fn horner(x2: int, j: int) -> int
    decreases 7 - j,
{
    if j >= 7 {
        FINE_ONE as int
    } else {
        FINE_ONE - x2 * horner(x2, j + 1) / (FINE_ONE as int) / ((2 * j + 2) * (2 * j + 3))
    }
}

/// `sin(pi * u / den)` in fixed point, for `0 <= 2u <= den`: the angle is at
/// most `pi / 2`, where the series errs by less than `10^-11`.
pub open spec fn fine_sine(u: int, den: int) -> int {
    let x = PI_FINE * u / den;
    let x2 = x * x / (FINE_ONE as int);
    x * horner(x2, 0) / (FINE_ONE as int)
}

pub open spec fn abs(x: int) -> int {
    if x >= 0 {
        x
    } else {
        -x
    }
}

/// `sin(pi * n / 255)` in fixed point, for `-255 <= n <= 255`.
pub open spec fn fine_sin(n: int) -> int {
    let t = abs(n);
    let m = if 2 * t <= 255 {
        fine_sine(t, 255)
    } else {
        fine_sine(255 - t, 255)
    };
    if n >= 0 {
        m
    } else {
        -m
    }
}

/// `cos(pi * n / 255)` in fixed point, for `-255 <= n <= 255`, as
/// `sin(pi/2 - pi |n| / 255)`.
pub open spec fn fine_cos(n: int) -> int {
    let t = abs(n);
    if 2 * t <= 255 {
        fine_sine(255 - 2 * t, 510)
    } else {
        -fine_sine(2 * t - 255, 510)
    }
}

/// A fixed-point value in thousandths, rounded to nearest, at most one.
pub open spec fn thousandths(v: int) -> int {
    let m = (abs(v) + HALF_MILLI_FINE) / (MILLI_FINE as int);
    let m = if m > DIR_ONE {
        DIR_ONE as int
    } else {
        m
    };
    if v >= 0 {
        m
    } else {
        -m
    }
}

/// Cosine of the angle of `level`, in thousandths.
pub open spec fn aim_cos(level: u8) -> int {
    thousandths(fine_cos(2 * level - 255))
}

/// Sine of the angle of `level`, in thousandths.
pub open spec fn aim_sin(level: u8) -> int {
    thousandths(fine_sin(2 * level - 255))
}

fn horner_exec(x2: u128) -> (r: u128)
    requires
        x2 <= 6 * FINE_ONE,
    ensures
        r == horner(x2 as int, 0),
        r <= FINE_ONE,
{
    let mut r: u128 = FINE_ONE;
    let mut j: u128 = 7;
    while j > 0
        invariant
            0 <= j <= 7,
            x2 <= 6 * FINE_ONE,
            r == horner(x2 as int, j as int),
            r <= FINE_ONE,
        decreases j,
    {
        j = j - 1;
        proof {
            assert(6 <= (2 * j + 2) * (2 * j + 3) <= 210) by (nonlinear_arith)
                requires
                    0 <= j <= 6,
            ;
        }
        let d: u128 = (2 * j + 2) * (2 * j + 3);
        proof {
            assert(x2 * r <= 6 * FINE_ONE * FINE_ONE) by (nonlinear_arith)
                requires
                    r <= FINE_ONE,
                    x2 <= 6 * FINE_ONE,
            ;
            assert(x2 * r <= x2 * FINE_ONE) by (nonlinear_arith)
                requires
                    r <= FINE_ONE,
            ;
            assert(x2 * r / (FINE_ONE as int) <= x2) by (nonlinear_arith)
                requires
                    0 <= x2 * r <= x2 * FINE_ONE,
                    FINE_ONE > 0,
            ;
            assert((x2 * r / (FINE_ONE as int)) / (d as int) <= x2 / 6) by (nonlinear_arith)
                requires
                    0 <= x2 * r / (FINE_ONE as int) <= x2,
                    d >= 6,
            ;
        }
        r = FINE_ONE - x2 * r / FINE_ONE / d;
    }
    r
}

/// `fine_sine(u, den)`.
fn fine_sine_exec(u: u128, den: u128) -> (r: u128)
    requires
        den == 255 || den == 510,
        2 * u <= den,
    ensures
        r == fine_sine(u as int, den as int),
        r <= 2 * FINE_ONE,
{
    proof {
        assert(PI_FINE * u <= PI_FINE * (den / 2)) by (nonlinear_arith)
            requires
                2 * u <= den,
        ;
        assert(PI_FINE * u / (den as int) <= PI_FINE / 2) by (nonlinear_arith)
            requires
                0 <= PI_FINE * u,
                2 * (PI_FINE * u) <= PI_FINE * den,
                den > 0,
        ;
    }
    let x: u128 = PI_FINE * u / den;
    proof {
        assert(x * x <= 4 * FINE_ONE * FINE_ONE) by (nonlinear_arith)
            requires
                x <= 2 * FINE_ONE,
        ;
        assert(x * x / (FINE_ONE as int) <= 4 * FINE_ONE) by (nonlinear_arith)
            requires
                0 <= x * x <= 4 * FINE_ONE * FINE_ONE,
                FINE_ONE > 0,
        ;
    }
    let x2: u128 = x * x / FINE_ONE;
    let h = horner_exec(x2);
    proof {
        assert(x * h <= x * FINE_ONE) by (nonlinear_arith)
            requires
                h <= FINE_ONE,
        ;
        assert(x * h / (FINE_ONE as int) <= x) by (nonlinear_arith)
            requires
                0 <= x * h <= x * FINE_ONE,
                FINE_ONE > 0,
        ;
    }
    x * h / FINE_ONE
}

/// `(fine_cos(n), fine_sin(n))`.
fn fine_direction(n: i64) -> (r: (i128, i128))
    requires
        -255 <= n <= 255,
    ensures
        r.0 == fine_cos(n as int),
        r.1 == fine_sin(n as int),
        -2 * FINE_ONE <= r.0 <= 2 * FINE_ONE,
        -2 * FINE_ONE <= r.1 <= 2 * FINE_ONE,
{
    let t: u128 = if n >= 0 {
        n as u128
    } else {
        (-n) as u128
    };
    let m = if 2 * t <= 255 {
        fine_sine_exec(t, 255)
    } else {
        fine_sine_exec(255 - t, 255)
    };
    let s: i128 = if n >= 0 {
        m as i128
    } else {
        -(m as i128)
    };
    let c: i128 = if 2 * t <= 255 {
        fine_sine_exec(255 - 2 * t, 510) as i128
    } else {
        -(fine_sine_exec(2 * t - 255, 510) as i128)
    };
    (c, s)
}

/// `thousandths(v)`.
fn thousandths_exec(v: i128) -> (r: i64)
    requires
        -2 * FINE_ONE <= v <= 2 * FINE_ONE,
    ensures
        r == thousandths(v as int),
        -DIR_ONE <= r <= DIR_ONE,
{
    let a: u128 = if v >= 0 {
        v as u128
    } else {
        (-v) as u128
    };
    let m: u128 = (a + HALF_MILLI_FINE) / MILLI_FINE;
    let m: i64 = if m > 1000 {
        DIR_ONE
    } else {
        m as i64
    };
    if v >= 0 {
        m
    } else {
        -m
    }
}

/// Unit direction of an aim level, in thousandths: `(cos, sin)`.
pub fn aim_direction(level: u8) -> (r: (i64, i64))
    ensures
        r.0 == aim_cos(level),
        r.1 == aim_sin(level),
        -DIR_ONE <= r.0 <= DIR_ONE,
        -DIR_ONE <= r.1 <= DIR_ONE,
{
    let (c, s) = fine_direction(2 * (level as i64) - 255);
    (thousandths_exec(c), thousandths_exec(s))
}

/// The level used when the aim offset has no direction: that of angle 0.
pub const DEFAULT_AIM_LEVEL: u8 = 128;

/// The angle of `(dx, dy)` lies in `[0, pi]`.
pub open spec fn upper(dx: int, dy: int) -> bool {
    dy > 0 || (dy == 0 && dx != 0)
}

/// The angle of `(dx, dy)`, taken in `(-pi, pi]`, is at least that of
/// boundary `k` (`1 <= k <= 255`): `pi * (2k - 256) / 255`, halfway between
/// the angles of levels `k - 1` and `k`. The sign of a cross product decides
/// it within the half-plane that holds the boundary.
pub open spec fn boundary_passed(dx: int, dy: int, k: int) -> bool {
    let n = 2 * k - 256;
    let cross = fine_cos(n) * dy - fine_sin(n) * dx;
    if k >= 128 {
        upper(dx, dy) && cross >= 0
    } else {
        upper(dx, dy) || cross >= 0
    }
}

/// How many of the boundaries `1..=k` the angle of `(dx, dy)` has reached.
pub open spec fn boundaries_passed(dx: int, dy: int, k: int) -> nat
    decreases k,
{
    if k <= 0 {
        0
    } else {
        boundaries_passed(dx, dy, k - 1) + if boundary_passed(dx, dy, k) {
            1nat
        } else {
            0nat
        }
    }
}

/// The aim level of the offset `(dx, dy)` from a player to its crosshair:
/// the number of level boundaries at or below its angle `a`, which is
/// `round((a + pi) / (2 pi) * 255)` with halves rounded up, so that the
/// level's angle is within `pi / 255` of `a`. A zero offset gives
/// `DEFAULT_AIM_LEVEL`.
pub fn aim_level(dx: i64, dy: i64) -> (r: u8)
    ensures
        dx == 0 && dy == 0 ==> r == DEFAULT_AIM_LEVEL,
        !(dx == 0 && dy == 0) ==> r == boundaries_passed(dx as int, dy as int, 255),
{
    if dx == 0 && dy == 0 {
        return DEFAULT_AIM_LEVEL;
    }
    let up = dy > 0 || (dy == 0 && dx != 0);
    let x = dx as i128;
    let y = dy as i128;
    let mut count: u16 = 0;
    let mut k: u16 = 1;
    while k <= 255
        invariant
            1 <= k <= 256,
            count < k,
            count == boundaries_passed(dx as int, dy as int, k - 1),
            x == dx,
            y == dy,
            up == upper(dx as int, dy as int),
        decreases 256 - k,
    {
        let (c, s) = fine_direction(2 * (k as i64) - 256);
        proof {
            let b: int = 0x8000_0000_0000_0000;
            let f: int = 2 * FINE_ONE;
            assert(-f * b <= c * y <= f * b) by (nonlinear_arith)
                requires
                    -f <= c <= f,
                    -b <= y <= b,
            ;
            assert(-f * b <= s * x <= f * b) by (nonlinear_arith)
                requires
                    -f <= s <= f,
                    -b <= x <= b,
            ;
        }
        let cross: i128 = c * y - s * x;
        let passed = if k >= 128 {
            up && cross >= 0
        } else {
            up || cross >= 0
        };
        if passed {
            count = count + 1;
        }
        k = k + 1;
    }
    count as u8
}

} // verus!
