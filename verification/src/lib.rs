//! Classical deterministic pseudorandom-sequence generators.
//!
//! Every generator is a small state machine: it is built from a checked
//! configuration and then advanced one output at a time. Each module gives
//! its generator a mathematical model, states the transition and the output
//! on that model, and proves that the executable code computes exactly that.
//! A generator that was built never fails: whatever could make a transition
//! impossible is refused when the generator is built.
//!
//! - `linear_congruential`: `state' = (a * state + c) mod m`, with the
//!   historical presets and an optional bit range for the output.
//! - `lehmer`: the same without increment, with its own presets.
//! - `lagged_fibonacci`: a ring of the `k` latest values, of which two are
//!   combined into the next.
//! - `linear_feedback_shift_register`: a 32-bit register in Galois form.
//! - `middle_square` and `middle_square_wide`: the middle digits of the
//!   square, on 32-bit and on 64-bit seeds; `decimal` holds the digits.
//! - `wichmann_hill`: three multiplicative registers and the exact fraction
//!   that they stand for.
//! - `error`: why a configuration is refused.
//!
//! None of these generators is fit for cryptography or for statistics. They
//! are here because their sequences are known, and have to come out as known.

pub mod decimal;
pub mod error;
pub mod lagged_fibonacci;
pub mod lehmer;
pub mod linear_congruential;
pub mod linear_feedback_shift_register;
pub mod middle_square;
pub mod middle_square_wide;
pub mod wichmann_hill;
