//! The lagged Fibonacci generator.
//!
//! The generator keeps the `k` most recent values. Each new value combines
//! the value at lag `j` with the value at lag `k`, both counted from one and
//! from the oldest value kept, and is reduced by the modulus. It then takes
//! the place of the oldest value. Sums, differences and products are those of
//! the integers: nothing wraps before the reduction, and a difference below
//! zero is reduced to the residue between zero and the modulus.

use vstd::prelude::*;
use crate::error::ConfigError;

verus! {

/// How two values of the history are combined.
#[derive(Debug, Clone, Copy, PartialEq, Eq, Structural)]
pub enum Operator {
    Add,
    Subtract,
    Multiply,
    Xor,
}

/// The parameters of a generator together with its seed history, oldest
/// value first.
#[derive(Debug)]
pub struct Config {
    pub modulus: u64,
    pub j: usize,
    pub k: usize,
    pub seed: Box<[u64]>,
    pub operator: Operator,
}

impl Config {
    /// The first rule that the configuration breaks, in the order in which
    /// the rules are checked, or `None` where it breaks none.
    pub open spec fn violation(&self) -> Option<ConfigError> {
        if self.j >= self.k {
            Some(ConfigError::LagNotBelowWindow)
        } else if self.seed@.len() != self.k {
            Some(ConfigError::SeedLengthMismatch)
        } else if self.j == 0 {
            Some(ConfigError::ZeroLag)
        } else if self.modulus == 0 {
            Some(ConfigError::ZeroModulus)
        } else {
            None
        }
    }

    /// Every rule holds: the short lag is at least one and below the long
    /// one, the seed history holds exactly `k` values, and the modulus is not
    /// zero.
    pub open spec fn is_valid(&self) -> bool {
        &&& 1 <= self.j < self.k
        &&& self.seed@.len() == self.k
        &&& self.modulus > 0
    }

    /// Checks the configuration against every rule and reports the first one
    /// that it breaks.
    pub fn validate(&self) -> (r: Result<(), ConfigError>)
        ensures
            r.is_ok() <==> self.is_valid(),
            r == match self.violation() {
                Some(e) => Err::<(), ConfigError>(e),
                None => Ok::<(), ConfigError>(()),
            },
    {
        if self.j >= self.k {
            return Err(ConfigError::LagNotBelowWindow);
        } else if self.seed.len() != self.k {
            return Err(ConfigError::SeedLengthMismatch);
        } else if self.j == 0 {
            return Err(ConfigError::ZeroLag);
        } else if self.modulus == 0 {
            return Err(ConfigError::ZeroModulus);
        }
        Ok(())
    }
}

/// The value that `operator` makes of `a` and `b` under `modulus`.
pub open spec fn combine(operator: Operator, a: u64, b: u64, modulus: nat) -> nat {
    match operator {
        Operator::Add => ((a + b) % (modulus as int)) as nat,
        Operator::Subtract => ((a - b) % (modulus as int)) as nat,
        Operator::Multiply => ((a * b) % (modulus as int)) as nat,
        Operator::Xor => ((a ^ b) as int % (modulus as int)) as nat,
    }
}

/// What a generator is, as mathematics: its parameters and the values that
/// it keeps, oldest first. The long lag is the length of the history.
pub struct LfgModel {
    pub modulus: nat,
    pub j: nat,
    pub operator: Operator,
    pub history: Seq<u64>,
}

impl LfgModel {
    /// The model of a generator freshly built from `config`.
    pub open spec fn from_config(config: Config) -> LfgModel {
        LfgModel {
            modulus: config.modulus as nat,
            j: config.j as nat,
            operator: config.operator,
            history: config.seed@,
        }
    }

    /// The rules that hold of every generator, at every step.
    pub open spec fn is_valid(self) -> bool {
        &&& 1 <= self.j < self.history.len()
        &&& 0 < self.modulus <= u64::MAX
    }

    /// The value that the next transition appends.
    pub open spec fn next_value(self) -> nat {
        combine(self.operator, self.history[self.j - 1], self.history.last(), self.modulus)
    }

    /// The generator after one transition: the oldest value is gone and the
    /// new one is the youngest.
    pub open spec fn step(self) -> LfgModel {
        LfgModel { history: self.history.drop_first().push(self.next_value() as u64), ..self }
    }

    /// The generator after `n` transitions.
    pub open spec fn run(self, n: nat) -> LfgModel
        decreases n,
    {
        if n == 0 {
            self
        } else {
            self.run((n - 1) as nat).step()
        }
    }

    /// The first `n` outputs: the values appended by the first `n`
    /// transitions.
    pub open spec fn outputs(self, n: nat) -> Seq<nat> {
        Seq::new(n, |i: int| self.run(i as nat).next_value())
    }

    /// A valid configuration makes a valid generator.
    pub proof fn lemma_valid_config_is_valid_model(config: Config)
        requires
            config.is_valid(),
        ensures
            LfgModel::from_config(config).is_valid(),
    {
    }

    /// Every new value is below the modulus.
    pub proof fn lemma_next_value_bound(self)
        requires
            self.is_valid(),
        ensures
            self.next_value() < self.modulus,
    {
    }

    /// A transition keeps the length of the history and the parameters: it
    /// moves every value one place towards the oldest and appends the new
    /// one.
    pub proof fn lemma_step_preserves_validity(self)
        requires
            self.is_valid(),
        ensures
            self.step().is_valid(),
            self.step().history.len() == self.history.len(),
            self.step().history.last() == self.next_value(),
            forall|i: int|
                0 <= i < self.history.len() - 1 ==> self.step().history[i] == self.history[i + 1],
            self.step().modulus == self.modulus,
            self.step().j == self.j,
            self.step().operator == self.operator,
    {
    }

    /// The same parameters and history give the same histories and outputs,
    /// however long the generator runs.
    pub proof fn lemma_deterministic(self, other: LfgModel, n: nat)
        requires
            self == other,
        ensures
            self.run(n) == other.run(n),
            self.outputs(n) == other.outputs(n),
    {
    }
}

/// The place in a ring of `len` slots that lies `offset` slots after `head`.
pub open spec fn ring_index(head: int, offset: int, len: int) -> int {
    if head + offset < len {
        head + offset
    } else {
        head + offset - len
    }
}

#[derive(Debug)]
pub struct LaggedFibonacciGenerator {
    modulus: u64,
    j: usize,
    operator: Operator,
    /// The history as a ring: `head` is the place of the oldest value.
    data: Vec<u64>,
    head: usize,
}

impl View for LaggedFibonacciGenerator {
    type V = LfgModel;

    closed spec fn view(&self) -> LfgModel {
        LfgModel {
            modulus: self.modulus as nat,
            j: self.j as nat,
            operator: self.operator,
            history: Seq::new(
                self.data@.len(),
                |i: int| self.data@[ring_index(self.head as int, i, self.data@.len() as int)],
            ),
        }
    }
}

impl LaggedFibonacciGenerator {
    #[verifier::type_invariant]
    spec fn well_formed(&self) -> bool {
        &&& 1 <= self.j < self.data@.len()
        &&& self.head < self.data@.len()
        &&& self.modulus > 0
    }

    /// Builds a generator from its parameters and seed history. Nothing is
    /// built unless every rule of `Config::is_valid` holds.
    pub fn new(config: Config) -> (r: Result<LaggedFibonacciGenerator, ConfigError>)
        ensures
            r.is_ok() <==> config.is_valid(),
            match config.violation() {
                Some(e) => r == Err::<LaggedFibonacciGenerator, ConfigError>(e),
                None => r.is_ok() && r.unwrap()@ == LfgModel::from_config(config)
                    && r.unwrap()@.is_valid(),
            },
    {
        match config.validate() {
            Err(err) => return Err(err),
            _ => (),
        }
        let generator = LaggedFibonacciGenerator {
            modulus: config.modulus,
            j: config.j,
            operator: config.operator,
            data: config.seed.into_vec(),
            head: 0,
        };
        assert(generator@.history =~= config.seed@);
        Ok(generator)
    }

    /// Advances the generator and returns the value that it appended.
    pub fn next(&mut self) -> (out: u64)
        ensures
            final(self)@ == old(self)@.step(),
            final(self)@.is_valid(),
            out == old(self)@.next_value(),
    {
        proof {
            use_type_invariant(&*self);
        }
        let len: usize = self.data.len();
        let lag: usize = self.j - 1;
        let tap: usize = if self.head >= len - lag {
            self.head - (len - lag)
        } else {
            self.head + lag
        };
        let newest: usize = if self.head == 0 {
            len - 1
        } else {
            self.head - 1
        };
        let a: u64 = self.data[tap];
        let b: u64 = self.data[newest];
        let val: u64 = combine_values(self.operator, a, b, self.modulus);
        // The new value takes the slot of the oldest, and the oldest is now
        // the one after it.
        self.data[self.head] = val;
        self.head = if self.head + 1 == len {
            0
        } else {
            self.head + 1
        };
        assert(self@.history =~= old(self)@.history.drop_first().push(val));
        val
    }
}

/// Combines two values in arithmetic wide enough for every sum and product,
/// and reduces the result.
fn combine_values(operator: Operator, a: u64, b: u64, modulus: u64) -> (r: u64)
    requires
        modulus > 0,
    ensures
        r == combine(operator, a, b, modulus as nat),
        r < modulus,
{
    match operator {
        Operator::Add => (((a as u128) + (b as u128)) % (modulus as u128)) as u64,
        Operator::Subtract => {
            if a >= b {
                (a - b) % modulus
            } else {
                let below: u64 = (b - a) % modulus;
                proof {
                    lemma_negated_residue((b - a) as int, modulus as int);
                }
                if below == 0 {
                    0
                } else {
                    modulus - below
                }
            }
        },
        Operator::Multiply => {
            proof {
                assert(a * b <= 0xffff_ffff_ffff_ffff * 0xffff_ffff_ffff_ffff) by (nonlinear_arith)
                    requires
                        a <= 0xffff_ffff_ffff_ffff,
                        b <= 0xffff_ffff_ffff_ffff,
                ;
            }
            (((a as u128) * (b as u128)) % (modulus as u128)) as u64
        },
        Operator::Xor => (a ^ b) % modulus,
    }
}

/// The residue of `-x` is the modulus less the residue of `x`, or zero where
/// that residue is zero.
proof fn lemma_negated_residue(x: int, m: int)
    requires
        m > 0,
    ensures
        (-x) % m == if x % m == 0 {
            0
        } else {
            m - x % m
        },
{
    vstd::arithmetic::div_mod::lemma_fundamental_div_mod(x, m);
    let q = x / m;
    let r = x % m;
    if r == 0 {
        assert(-x == (-q) * m) by (nonlinear_arith)
            requires
                x == m * q,
        ;
        vstd::arithmetic::div_mod::lemma_fundamental_div_mod_converse(-x, m, -q, 0);
    } else {
        assert(-x == (-q - 1) * m + (m - r)) by (nonlinear_arith)
            requires
                x == m * q + r,
        ;
        vstd::arithmetic::div_mod::lemma_fundamental_div_mod_converse(-x, m, -q - 1, m - r);
    }
}

} // verus!
