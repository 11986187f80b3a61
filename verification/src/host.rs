//! The host interface for number semantics.
//!
//! The interpreter carries numbers as opaque 64-bit scalars (the raw bits of
//! the host's 64-bit floating-point values) and never interprets them itself.
//! Whatever has to look inside a scalar — arithmetic, comparisons,
//! trigonometry, reading a number out of a token, rendering a number as text —
//! is delegated through [`NumHost`], which the embedding program implements.
//!
//! Each computing method is contracted to agree with a spec function of the
//! same trait, so that the library's contracts can name the host's answer:
//! `arith` returns `arith_spec(op, a, b)`, and so on. The spec functions are
//! left to the implementation, so the contract demands only that each answer
//! be a function of the operation and its arguments — which any deterministic
//! implementation, IEEE-754 arithmetic included, satisfies. An implementation
//! written outside the verified library is not checked against these
//! contracts; they are the boundary of what is proved here.

use vstd::prelude::*;

verus! {

/// A binary arithmetic operation, folded over a call's numeric arguments.
#[derive(Clone, Copy, PartialEq, Eq, Structural, Debug)]
pub enum ArithOp {
    Add,
    Sub,
    Mul,
    Div,
    Rem,
}

/// A binary comparison between two numeric arguments.
#[derive(Clone, Copy, PartialEq, Eq, Structural, Debug)]
pub enum CompareOp {
    Less,
    Greater,
    Equal,
    LessEq,
    GreaterEq,
}

/// A unary trigonometric operation on one numeric argument.
#[derive(Clone, Copy, PartialEq, Eq, Structural, Debug)]
pub enum TrigOp {
    Sin,
    Cos,
    Tan,
}

/// Number semantics supplied by the embedding program.
///
/// Scalars are the raw bits of the host's 64-bit floating-point values; the
/// scalar zero is the bit pattern `0u64` (the bits of positive zero). What
/// value an operation yields is the host's business; that it yields the same
/// value for the same operands — its own `*_spec` function — is promised
/// here, and the library's contracts speak of the answers under those names.
///
/// The spec functions carry placeholder default bodies only so that an
/// implementation written as plain Rust, where they are erased, need not
/// spell them out; the defaults carry no meaning, and the library never
/// relies on them.
pub trait NumHost {
    /// The value `arith` answers.
    open spec fn arith_spec(&self, op: ArithOp, a: u64, b: u64) -> u64 {
        0
    }

    /// The value `compare` answers.
    open spec fn compare_spec(&self, op: CompareOp, a: u64, b: u64) -> bool {
        false
    }

    /// The value `trig` answers.
    open spec fn trig_spec(&self, op: TrigOp, a: u64) -> u64 {
        0
    }

    /// The value `pi` answers.
    open spec fn pi_spec(&self) -> u64 {
        0
    }

    /// The text `render_num` answers.
    open spec fn render_spec(&self, bits: u64) -> Seq<char> {
        Seq::empty()
    }

    /// The answer `parse_num` gives.
    open spec fn parse_spec(&self, token: Seq<char>) -> Option<u64> {
        None
    }

    /// Reads a number out of a token, if the token denotes one: the
    /// counterpart of parsing the token as a 64-bit float.
    fn parse_num(&self, token: &str) -> (r: Option<u64>)
        ensures
            r == self.parse_spec(token@),
    ;

    /// Applies a binary arithmetic operation to two scalars.
    fn arith(&self, op: ArithOp, a: u64, b: u64) -> (r: u64)
        ensures
            r == self.arith_spec(op, a, b),
    ;

    /// Compares two scalars.
    fn compare(&self, op: CompareOp, a: u64, b: u64) -> (r: bool)
        ensures
            r == self.compare_spec(op, a, b),
    ;

    /// Applies a trigonometric operation to one scalar.
    fn trig(&self, op: TrigOp, a: u64) -> (r: u64)
        ensures
            r == self.trig_spec(op, a),
    ;

    /// The scalar for the circle constant pi.
    fn pi(&self) -> (r: u64)
        ensures
            r == self.pi_spec(),
    ;

    /// Renders a scalar as text, for display and for lookup keys.
    fn render_num(&self, bits: u64) -> (r: String)
        ensures
            r@ == self.render_spec(bits),
    ;
}

} // verus!
