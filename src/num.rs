use vstd::prelude::*;

verus! {

/// Fixed-point steps in one world unit.
pub const SCALE: i64 = 1200;

/// Every position, velocity, health value and timer stays within `[-LIMIT, LIMIT]`.
pub const LIMIT: i64 = 1_000_000_000_000_000;

/// The value `v` held within `[-LIMIT, LIMIT]`.
pub open spec fn clamp(v: int) -> int {
    if v > LIMIT as int {
        LIMIT as int
    } else if v < -(LIMIT as int) {
        -(LIMIT as int)
    } else {
        v
    }
}

pub open spec fn in_limit(v: i64) -> bool {
    -LIMIT <= v <= LIMIT
}

/// Air resistance: nine tenths of `v`, rounded toward zero.
pub open spec fn damp(v: int) -> int {
    if v >= 0 {
        (v * 9) / 10
    } else {
        -(((-v) * 9) / 10)
    }
}

/// Half of a non-negative extent, rounded down.
pub open spec fn half(w: int) -> int {
    w / 2
}

pub open spec fn min_int(a: int, b: int) -> int {
    if a <= b { a } else { b }
}

pub open spec fn max_int(a: int, b: int) -> int {
    if a >= b { a } else { b }
}

/// `a + b`, held within the limit.
pub fn add_c(a: i64, b: i64) -> (r: i64)
    requires
        in_limit(a),
        in_limit(b),
    ensures
        r == clamp(a + b),
        in_limit(r),
{
    let s: i64 = a + b;
    if s > LIMIT {
        LIMIT
    } else if s < -LIMIT {
        -LIMIT
    } else {
        s
    }
}

/// `v` held within the limit.
pub fn clamp_exec(v: i64) -> (r: i64)
    requires
        -4 * LIMIT <= v <= 4 * LIMIT,
    ensures
        r == clamp(v as int),
        in_limit(r),
{
    if v > LIMIT {
        LIMIT
    } else if v < -LIMIT {
        -LIMIT
    } else {
        v
    }
}

/// `a - b`, held within the limit.
pub fn sub_c(a: i64, b: i64) -> (r: i64)
    requires
        in_limit(a),
        in_limit(b),
    ensures
        r == clamp(a - b),
        in_limit(r),
{
    let s: i64 = a - b;
    if s > LIMIT {
        LIMIT
    } else if s < -LIMIT {
        -LIMIT
    } else {
        s
    }
}

/// Nine tenths of `v`, rounded toward zero.
pub fn damp_exec(v: i64) -> (r: i64)
    requires
        in_limit(v),
    ensures
        r == damp(v as int),
        in_limit(r),
{
    if v >= 0 {
        assert(0 <= (v * 9) / 10 <= v) by (nonlinear_arith)
            requires
                0 <= v,
        ;
        (v * 9) / 10
    } else {
        let n: i64 = -v;
        assert(0 <= (n * 9) / 10 <= n) by (nonlinear_arith)
            requires
                0 <= n,
        ;
        -((n * 9) / 10)
    }
}

pub fn min_i64(a: i64, b: i64) -> (r: i64)
    ensures
        r == min_int(a as int, b as int),
{
    if a <= b { a } else { b }
}

pub fn max_i64(a: i64, b: i64) -> (r: i64)
    ensures
        r == max_int(a as int, b as int),
{
    if a >= b { a } else { b }
}

} // verus!
