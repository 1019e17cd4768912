//! The retry rule for provider requests.

use vstd::prelude::*;

verus! {

/// How many times a request is sent before it is given up.
pub const REQUEST_ATTEMPTS: u64 = 3;

/// The pause after a request could not be sent, before the next attempt:
/// 250 ms times the square of the attempt's number, counting from one.
pub fn retry_delay_ms(attempt: u64) -> (delay: u64)
    requires
        attempt < REQUEST_ATTEMPTS,
    ensures
        delay == 250 * (attempt + 1) * (attempt + 1),
{
    let n = attempt + 1;
    assert(n * n <= 9) by (nonlinear_arith)
        requires
            1 <= n <= 3,
    ;
    let square = n * n;
    assert(250 * square == 250 * n * n) by (nonlinear_arith)
        requires
            square == n * n,
    ;
    250 * square
}

} // verus!
