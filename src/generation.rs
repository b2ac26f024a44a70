//! The tick counter that marks generation boundaries.

use vstd::prelude::*;

verus! {

/// The age reached after one tick from `age` in generations of `length`
/// ticks: it falls back to 0 on the tick that ends a generation.
pub open spec fn next_age(age: nat, length: nat) -> nat {
    if age + 1 >= length {
        0
    } else {
        age + 1
    }
}

/// Whether the tick taken at `age` ends a generation of `length` ticks.
pub open spec fn ends_generation(age: nat, length: nat) -> bool {
    age + 1 >= length
}

/// The age after `ticks` ticks from a fresh clock.
pub open spec fn age_after(length: nat, ticks: nat) -> nat
    decreases ticks,
{
    if ticks == 0 {
        0
    } else {
        next_age(age_after(length, (ticks - 1) as nat), length)
    }
}

/// Counts the ticks of the current generation.
#[derive(Debug, Clone, Copy, PartialEq, Eq)]
pub struct GenerationClock {
    age: u32,
    generation_length: u32,
}

impl GenerationClock {
    #[verifier::type_invariant]
    closed spec fn within_generation(self) -> bool {
        self.age < self.generation_length || self.age == 0
    }

    /// Ticks taken since the generation began.
    pub closed spec fn spec_age(&self) -> nat {
        self.age as nat
    }

    /// Ticks in a generation.
    pub closed spec fn spec_length(&self) -> nat {
        self.generation_length as nat
    }

    pub fn new(generation_length: u32) -> (r: Self)
        ensures
            r.spec_age() == 0,
            r.spec_length() == generation_length,
    {
        GenerationClock { age: 0, generation_length }
    }

    pub fn age(&self) -> (r: u32)
        ensures
            r == self.spec_age(),
    {
        self.age
    }

    pub fn generation_length(&self) -> (r: u32)
        ensures
            r == self.spec_length(),
    {
        self.generation_length
    }

    /// Counts one tick; returns whether it ends the generation, in which case
    /// the next generation starts at age 0.
    pub fn tick(&mut self) -> (boundary: bool)
        ensures
            boundary == ends_generation(old(self).spec_age(), old(self).spec_length()),
            final(self).spec_age() == next_age(old(self).spec_age(), old(self).spec_length()),
            final(self).spec_length() == old(self).spec_length(),
    {
        proof {
            use_type_invariant(&*self);
        }
        let age = self.age + 1;
        if age >= self.generation_length {
            self.age = 0;
            true
        } else {
            self.age = age;
            false
        }
    }
}

/// From a fresh clock, the `n`-th tick ends a generation exactly when `n` is a
/// multiple of the generation length, and the age after `n` ticks is
/// `n % length`: one boundary every `length` ticks, none in between.
pub proof fn lemma_one_boundary_per_generation(length: nat, n: nat)
    requires
        length > 0,
    ensures
        age_after(length, n) == n % length,
        n > 0 ==> (ends_generation(age_after(length, (n - 1) as nat), length) <==> n % length == 0),
    decreases n,
{
    if n > 0 {
        lemma_one_boundary_per_generation(length, (n - 1) as nat);
        let len = length as int;
        let m = n - 1;
        let q = m / len;
        let r = m % len;
        vstd::arithmetic::div_mod::lemma_fundamental_div_mod(m, len);
        vstd::arithmetic::div_mod::lemma_mod_bound(m, len);
        assert(age_after(length, n) == next_age(age_after(length, (n - 1) as nat), length));
        assert(age_after(length, (n - 1) as nat) == r);
        if r + 1 >= len {
            assert(n == (q + 1) * len) by (nonlinear_arith)
                requires
                    m == len * q + r,
                    r + 1 == len,
                    n == m + 1,
            ;
            vstd::arithmetic::div_mod::lemma_mod_multiples_basic(q + 1, len);
            assert(n % length == 0);
        } else {
            assert(n == len * q + (r + 1)) by (nonlinear_arith)
                requires
                    m == len * q + r,
                    n == m + 1,
            ;
            vstd::arithmetic::div_mod::lemma_mod_multiples_vanish(q, r + 1, len);
            vstd::arithmetic::div_mod::lemma_small_mod((r + 1) as nat, length);
            assert(n % length == r + 1);
        }
    } else {
        vstd::arithmetic::div_mod::lemma_small_mod(0, length);
    }
}

} // verus!
