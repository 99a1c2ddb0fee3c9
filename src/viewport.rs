use vstd::prelude::*;

verus! {

/// Quotient of `a` by `b`, rounded toward zero, as Rust's integer `/` computes it.
pub open spec fn trunc_div(a: int, b: int) -> int
    recommends
        b != 0,
{
    let q: int = vstd::math::abs(a) as int / vstd::math::abs(b) as int;
    if (a >= 0) == (b >= 0) {
        q
    } else {
        -q
    }
}

/// The whole-number aspect ratio of a canvas: its client width divided by its
/// client height, truncated before it is used as a float.
///
/// A zero height (and `i32::MIN / -1`) have no quotient in `i32`; callers
/// test for them before the call.
pub fn canvas_aspect(client_width: i32, client_height: i32) -> (r: i32)
    requires
        client_height != 0,
        !(client_width == i32::MIN && client_height == -1),
    ensures
        r as int == trunc_div(client_width as int, client_height as int),
{
    let r = client_width / client_height;
    proof {
        let (a, b) = (client_width as int, client_height as int);
        if a < 0 && b > 0 {
            assert(r == -((-a) / b));
        } else if a >= 0 && b < 0 {
            assert(a / b == -(a / (-b))) by (nonlinear_arith)
                requires
                    a >= 0 && b < 0,
            ;
        } else if a < 0 && b < 0 {
            assert(-((-a) / b) == (-a) / (-b)) by (nonlinear_arith)
                requires
                    a < 0 && b < 0,
            ;
            if b < -1 {
                assert((-a) / (-b) <= (-a) / 2) by (nonlinear_arith)
                    requires
                        a < 0 && b < -1,
                ;
            }
        }
    }
    r
}

} // verus!
