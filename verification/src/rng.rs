//! A tiny deterministic xorshift generator, so particle effects are
//! reproducible without a dependency.
use vstd::prelude::*;

verus! {

/// One xorshift32 step.
pub open spec fn xorshift(x: u32) -> u32 {
    let a = x ^ ((x << 13u32) as u32);
    let b = a ^ (a >> 17u32);
    b ^ ((b << 5u32) as u32)
}

/// A xorshift32 generator; its state is never zero.
#[derive(Clone, Copy, Debug)]
pub struct Rng(u32);

impl View for Rng {
    type V = u32;

    closed spec fn view(&self) -> u32 {
        self.0
    }
}

impl Rng {
    /// Seed the generator; a zero seed (which xorshift would never leave) is
    /// taken as one.
    pub fn new(seed: u32) -> (r: Rng)
        ensures
            r@ == if seed == 0 { 1 } else { seed },
            r@ != 0,
    {
        Rng(if seed == 0 { 1 } else { seed })
    }

    /// Advance the generator and return its new state.
    pub fn next_u32(&mut self) -> (x: u32)
        ensures
            x == xorshift(old(self)@),
            final(self)@ == x,
            old(self)@ != 0 ==> x != 0,
    {
        let mut x = self.0;
        let ghost x0 = x;
        x ^= x << 13;
        x ^= x >> 17;
        x ^= x << 5;
        proof {
            law_xorshift_nonzero(x0);
        }
        self.0 = x;
        x
    }
}

/// A non-zero state never steps to zero, so the generator never gets stuck.
pub proof fn law_xorshift_nonzero(x: u32)
    ensures
        x != 0 ==> xorshift(x) != 0,
{
    let a = x ^ ((x << 13u32) as u32);
    let b = a ^ (a >> 17u32);
    assert(x != 0 ==> a != 0) by (bit_vector)
        requires
            a == x ^ ((x << 13u32) as u32),
    ;
    assert(a != 0 ==> b != 0) by (bit_vector)
        requires
            b == a ^ (a >> 17u32),
    ;
    assert(b != 0 ==> (b ^ ((b << 5u32) as u32)) != 0) by (bit_vector);
}

} // verus!
