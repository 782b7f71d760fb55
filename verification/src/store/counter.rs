//! Event counters that wrap around at `u64::MAX`, as an atomic
//! `fetch_add` does.

use vstd::prelude::*;

verus! {

/// `x` advanced by `n` steps, modulo 2^64.
pub open spec fn wrap_add(x: u64, n: nat) -> u64 {
    ((x + n) % 0x1_0000_0000_0000_0000) as u64
}

/// One step more than `wrap_add(x, n)`.
pub proof fn lemma_wrap_add_step(x: u64, n: nat)
    ensures
        wrap_add(wrap_add(x, n), 1) == wrap_add(x, n + 1),
{
    let m: int = 0x1_0000_0000_0000_0000;
    vstd::arithmetic::div_mod::lemma_add_mod_noop(x + n, 1, m);
    vstd::arithmetic::div_mod::lemma_small_mod(1, m as nat);
    vstd::arithmetic::div_mod::lemma_mod_bound(x + n, m);
}

/// Zero steps leave a counter unchanged.
pub proof fn lemma_wrap_add_zero(x: u64)
    ensures
        wrap_add(x, 0) == x,
{
    vstd::arithmetic::div_mod::lemma_small_mod(x as nat, 0x1_0000_0000_0000_0000);
}

/// The counter advanced by one, wrapping at `u64::MAX`.
pub fn wrap_inc(x: u64) -> (r: u64)
    ensures
        r == wrap_add(x, 1),
{
    proof {
        if x == u64::MAX {
            assert((x + 1) % 0x1_0000_0000_0000_0000 == 0) by (nonlinear_arith)
                requires x == 0xffff_ffff_ffff_ffffu64;
        } else {
            vstd::arithmetic::div_mod::lemma_small_mod((x + 1) as nat, 0x1_0000_0000_0000_0000);
        }
    }
    x.wrapping_add(1)
}

} // verus!
