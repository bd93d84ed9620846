//! A 32-bit linear feedback shift register in Galois form.
//!
//! Each transition shifts the register right by one bit. Where the bit that
//! falls out was set, the toggle mask is folded into the register. The new
//! content of the register is the output. A register that holds zero stays at
//! zero: only the seed is kept from being zero, later states are not.

use vstd::prelude::*;
use crate::error::ConfigError;

verus! {

/// What a register is, as mathematics: its content and its toggle mask.
pub struct LfsrModel {
    pub state: u32,
    pub toggle_mask: u32,
}

impl LfsrModel {
    /// The register after one transition: the content is halved, and where
    /// it was odd the toggle mask is folded in.
    pub open spec fn step(self) -> LfsrModel {
        LfsrModel {
            state: if self.state % 2 == 1 {
                (self.state / 2) ^ self.toggle_mask
            } else {
                self.state / 2
            },
            ..self
        }
    }

    /// The register after `n` transitions.
    pub open spec fn run(self, n: nat) -> LfsrModel
        decreases n,
    {
        if n == 0 {
            self
        } else {
            self.run((n - 1) as nat).step()
        }
    }

    /// The first `n` outputs: the contents after one, two, ... `n`
    /// transitions.
    pub open spec fn outputs(self, n: nat) -> Seq<u32> {
        Seq::new(n, |i: int| self.run((i + 1) as nat).state)
    }

    /// Zero is a fixed point: once the register holds zero, every later
    /// content and output is zero.
    pub proof fn lemma_zero_stays_zero(self, n: nat)
        requires
            self.state == 0,
        ensures
            self.run(n) == self,
        decreases n,
    {
        if n > 0 {
            self.lemma_zero_stays_zero((n - 1) as nat);
        }
    }

    /// A content of zero is final: where the register reaches zero, it holds
    /// zero ever after.
    pub proof fn lemma_zero_is_final(self, k: nat, n: nat)
        requires
            self.run(k).state == 0,
            n >= k,
        ensures
            self.run(n).state == 0,
        decreases n,
    {
        if n > k {
            self.lemma_zero_is_final(k, (n - 1) as nat);
        }
    }

    /// The same content and mask give the same contents and outputs, however
    /// long the register runs.
    pub proof fn lemma_deterministic(self, other: LfsrModel, n: nat)
        requires
            self == other,
        ensures
            self.run(n) == other.run(n),
            self.outputs(n) == other.outputs(n),
    {
    }
}

#[derive(Debug)]
pub struct LinearFeedbackShiftRegistry {
    state: u32,
    toggle_mask: u32,
}

impl View for LinearFeedbackShiftRegistry {
    type V = LfsrModel;

    closed spec fn view(&self) -> LfsrModel {
        LfsrModel { state: self.state, toggle_mask: self.toggle_mask }
    }
}

impl LinearFeedbackShiftRegistry {
    /// Builds a register that holds `seed`. A seed of zero is refused.
    pub fn new(seed: u32, toggle_mask: u32) -> (r: Result<LinearFeedbackShiftRegistry, ConfigError>)
        ensures
            r.is_ok() <==> seed != 0,
            seed == 0 ==> r == Err::<LinearFeedbackShiftRegistry, ConfigError>(ConfigError::ZeroSeed),
            seed != 0 ==> r.unwrap()@ == (LfsrModel { state: seed, toggle_mask }),
    {
        if seed == 0 {
            return Err(ConfigError::ZeroSeed);
        }
        Ok(LinearFeedbackShiftRegistry { state: seed, toggle_mask })
    }

    /// Advances the register and returns its new content.
    pub fn next(&mut self) -> (out: u32)
        ensures
            final(self)@ == old(self)@.step(),
            out == final(self)@.state,
    {
        let ghost before: u32 = self.state;
        let lsb: u32 = self.state & 1u32;
        self.state >>= 1;
        proof {
            assert(before & 1u32 == before % 2) by (bit_vector);
            assert(before >> 1u32 == before / 2) by (bit_vector);
        }
        if lsb != 0 {
            self.state ^= self.toggle_mask;
        }
        self.state
    }
}

} // verus!
