//! The stack execution engine.
//!
//! The stack is a `Vec<u64>` of IEEE 754 double-precision bit patterns.
//! Every structural decision the engine makes — arity checks, drop / dup /
//! swap / reverse, the zero test of `if`, chain sequencing, `try` fallback,
//! repeat counting — is verified here.  The floating point arithmetic
//! itself, and the reading and writing of `input` / `display` / `print`,
//! go through the [`Port`] trait, which the surrounding program implements;
//! the engine's contract states what holds of the stack and the result
//! whatever values the port returns.
//!
//! The contract is the big-step relation [`big_node`]: executing a node
//! relates the stack before, the stack after, and the outcome, with an
//! existential for every port-chosen value.

use vstd::prelude::*;
use crate::chars::{chars_of, check_float_lit, string_from_chars, trim_chars};
use crate::command::{
    Break, Chain, CmdV, CommandEnum, CommandOrOp, CondV, Conditional, ConditionalKind, Display,
    Drop, Dup, Input, NodeV, Print, RepV, Repeat, Reverse, Swap, nodes_view,
};
use crate::error::{Error, ErrorV, error_msg};
use crate::ops::{
    Arith, Cmp, Constants, ExponentialsBinary, ExponentialsUnary, InsNum, NOP, OpEnum, OpV,
    Trigonometric,
};

verus! {

/// An unbounded repeat gives up after this many iterations of a body that
/// never fails.
pub const MAX_REPETITIONS: usize = 1000000;

// ---------------------------------------------------------------------------
// IEEE 754 bit-level facts the engine decides itself
// ---------------------------------------------------------------------------
/// The bit pattern of `1.0`.
pub const F64_ONE_BITS: u64 = 0x3FF0000000000000;

/// The bit pattern of `0.0`.
pub const F64_ZERO_BITS: u64 = 0;

/// The bit pattern of `-0.0`.
pub const F64_NEG_ZERO_BITS: u64 = 0x8000000000000000;

/// All bits but the sign.
pub const F64_ABS_MASK: u64 = 0x7FFFFFFFFFFFFFFF;

/// The bit pattern of positive infinity: any greater magnitude is a NaN.
pub const F64_INF_BITS: u64 = 0x7FF0000000000000;

/// The bit pattern of the constant `pi`.
pub const F64_PI_BITS: u64 = 0x400921FB54442D18;

/// The bit pattern of the constant `e`.
pub const F64_E_BITS: u64 = 0x4005BF0A8B145769;

/// Whether `b` encodes a zero (of either sign): the only values equal to
/// `0.0`.
pub open spec fn f64_is_zero(b: u64) -> bool {
    b == F64_ZERO_BITS || b == F64_NEG_ZERO_BITS
}

/// Whether `b` encodes a NaN: finite and infinite magnitudes stop at the
/// infinity pattern.
pub open spec fn f64_is_nan(b: u64) -> bool {
    (b & F64_ABS_MASK) > F64_INF_BITS
}

/// Whether the sign bit of `b` is set.
pub open spec fn f64_is_neg(b: u64) -> bool {
    b >= F64_NEG_ZERO_BITS
}

/// IEEE equality on bit patterns: NaN equals nothing, the two zeros equal
/// each other, and every other value has one representation.
pub open spec fn f64_eq(a: u64, b: u64) -> bool {
    &&& !f64_is_nan(a)
    &&& !f64_is_nan(b)
    &&& (a == b || (f64_is_zero(a) && f64_is_zero(b)))
}

/// IEEE `<` on bit patterns: any comparison with a NaN is false; otherwise
/// sign-magnitude order.
pub open spec fn f64_lt(a: u64, b: u64) -> bool {
    &&& !f64_is_nan(a)
    &&& !f64_is_nan(b)
    &&& !(f64_is_zero(a) && f64_is_zero(b))
    &&& if f64_is_neg(a) != f64_is_neg(b) {
        f64_is_neg(a)
    } else if !f64_is_neg(a) {
        (a & F64_ABS_MASK) < (b & F64_ABS_MASK)
    } else {
        (a & F64_ABS_MASK) > (b & F64_ABS_MASK)
    }
}

/// What each comparison operator means, with the left operand the deeper
/// stack element.
pub open spec fn cmp_eval(op: Cmp, lhs: u64, rhs: u64) -> bool {
    match op {
        Cmp::Eq => f64_eq(lhs, rhs),
        Cmp::Neq => !f64_eq(lhs, rhs),
        Cmp::Gt => f64_lt(rhs, lhs),
        Cmp::Gte => f64_lt(rhs, lhs) || f64_eq(lhs, rhs),
        Cmp::Lt => f64_lt(lhs, rhs),
        Cmp::Lte => f64_lt(lhs, rhs) || f64_eq(lhs, rhs),
    }
}

/// `1.0` for true, `0.0` for false.
pub open spec fn bool_bits(b: bool) -> u64 {
    if b {
        F64_ONE_BITS
    } else {
        F64_ZERO_BITS
    }
}

/// The bit pattern each named constant pushes.
pub open spec fn const_bits(c: Constants) -> u64 {
    match c {
        Constants::E => F64_E_BITS,
        Constants::PI => F64_PI_BITS,
        Constants::Inf => F64_INF_BITS,
    }
}

/// Decides [`f64_is_zero`].
pub fn is_zero_bits(b: u64) -> (r: bool)
    ensures
        r == f64_is_zero(b),
{
    b == F64_ZERO_BITS || b == F64_NEG_ZERO_BITS
}

fn is_nan_bits(b: u64) -> (r: bool)
    ensures
        r == f64_is_nan(b),
{
    (b & F64_ABS_MASK) > F64_INF_BITS
}

fn eq_bits(a: u64, b: u64) -> (r: bool)
    ensures
        r == f64_eq(a, b),
{
    !is_nan_bits(a) && !is_nan_bits(b) && (a == b || (is_zero_bits(a) && is_zero_bits(b)))
}

fn lt_bits(a: u64, b: u64) -> (r: bool)
    ensures
        r == f64_lt(a, b),
{
    if is_nan_bits(a) || is_nan_bits(b) {
        return false;
    }
    if is_zero_bits(a) && is_zero_bits(b) {
        return false;
    }
    let na = a >= F64_NEG_ZERO_BITS;
    let nb = b >= F64_NEG_ZERO_BITS;
    if na != nb {
        na
    } else if !na {
        (a & F64_ABS_MASK) < (b & F64_ABS_MASK)
    } else {
        (a & F64_ABS_MASK) > (b & F64_ABS_MASK)
    }
}

/// Evaluates a comparison on two bit patterns, yielding the bits of `1.0`
/// or `0.0`.
pub fn cmp_bits(op: &Cmp, lhs: u64, rhs: u64) -> (r: u64)
    ensures
        r == bool_bits(cmp_eval(*op, lhs, rhs)),
{
    let holds = match op {
        Cmp::Eq => eq_bits(lhs, rhs),
        Cmp::Neq => !eq_bits(lhs, rhs),
        Cmp::Gt => lt_bits(rhs, lhs),
        Cmp::Gte => lt_bits(rhs, lhs) || eq_bits(lhs, rhs),
        Cmp::Lt => lt_bits(lhs, rhs),
        Cmp::Lte => lt_bits(lhs, rhs) || eq_bits(lhs, rhs),
    };
    if holds {
        F64_ONE_BITS
    } else {
        F64_ZERO_BITS
    }
}

/// The bit pattern a named constant pushes.
pub fn const_value(c: &Constants) -> (r: u64)
    ensures
        r == const_bits(*c),
{
    match c {
        Constants::E => F64_E_BITS,
        Constants::PI => F64_PI_BITS,
        Constants::Inf => F64_INF_BITS,
    }
}

// ---------------------------------------------------------------------------
// The port: everything the engine cannot decide itself
// ---------------------------------------------------------------------------
/// The engine's window on the world: floating point computation and line
/// I/O.  The surrounding program implements it with real `f64` arithmetic
/// and real streams; the engine's contracts hold for every implementation.
pub trait Port {
    /// One line from the input source, or `None` when reading failed.
    fn read_line(&mut self) -> Option<String>;

    /// Writes one line to the output sink; `false` when writing failed.
    fn write_line(&mut self, text: &str) -> bool;

    /// The bit pattern of the numeric value of `text`, which matches the
    /// floating point grammar.
    fn float_value(&mut self, text: &str) -> u64;

    /// Renders a bit pattern for people to read.
    fn format_value(&mut self, bits: u64) -> String;

    /// The bit pattern of an arithmetic result.
    fn arith_value(&mut self, op: &Arith, lhs: u64, rhs: u64) -> u64;

    /// The bit pattern of a one-argument exponential result.
    fn exp_unary_value(&mut self, op: &ExponentialsUnary, x: u64) -> u64;

    /// The bit pattern of a two-argument exponential result.
    fn exp_binary_value(&mut self, op: &ExponentialsBinary, lhs: u64, rhs: u64) -> u64;

    /// The bit pattern of a trigonometric result.
    fn trig_value(&mut self, op: &Trigonometric, x: u64) -> u64;
}

// ---------------------------------------------------------------------------
// The big-step relation
// ---------------------------------------------------------------------------
/// Spec view of an execution outcome.
pub open spec fn res_view(r: Result<Option<String>, Error>) -> Result<Option<Seq<char>>, ErrorV> {
    match r {
        Ok(Some(m)) => Ok(Some(m@)),
        Ok(None) => Ok(None),
        Err(e) => Err(e@),
    }
}

pub open spec fn msg_view(m: Option<String>) -> Option<Seq<char>> {
    match m {
        Some(s) => Some(s@),
        None => None,
    }
}

/// `s` in reverse order.
pub open spec fn seq_rev(s: Seq<u64>) -> Seq<u64> {
    Seq::new(s.len(), |i: int| s[s.len() - 1 - i])
}

/// The success message of an unbounded repeat that stopped on `e`.
pub open spec fn unb_msg(e: ErrorV) -> Seq<char> {
    "Ended Repetitions with the following error: \n"@ + error_msg(e)
}

/// Executing `drop`: dropping more than the stack holds clears it, except
/// that a non-zero drop on an empty stack is an underflow.
pub open spec fn runs_drop(d: Drop, s0: Seq<u64>, s1: Seq<u64>, r: Result<
    Option<Seq<char>>,
    ErrorV,
>) -> bool {
    match d {
        Drop::Count(n) => {
            if s0.len() == 0 && n != 0 {
                s1 == s0 && r == Err::<Option<Seq<char>>, ErrorV>(
                    ErrorV::StackEmpty(0, n),
                )
            } else if n >= s0.len() {
                s1 == Seq::<u64>::empty() && r == Ok::<Option<Seq<char>>, ErrorV>(None)
            } else {
                s1 == s0.take(s0.len() - n) && r == Ok::<Option<Seq<char>>, ErrorV>(None)
            }
        },
        Drop::All => s1 == Seq::<u64>::empty() && r == Ok::<Option<Seq<char>>, ErrorV>(None),
    }
}

/// Executing `dup`: the top element is appended `n` more times; an empty
/// stack is an underflow whatever `n`.
pub open spec fn runs_dup(d: Dup, s0: Seq<u64>, s1: Seq<u64>, r: Result<
    Option<Seq<char>>,
    ErrorV,
>) -> bool {
    if s0.len() == 0 {
        s1 == s0 && r == Err::<Option<Seq<char>>, ErrorV>(ErrorV::StackEmpty(0, 1))
    } else {
        s1 == s0 + Seq::new(d.0 as nat, |i: int| s0.last()) && r == Ok::<
            Option<Seq<char>>,
            ErrorV,
        >(None)
    }
}

/// Executing `swap`: distances are counted from the top and must be inside
/// the stack.
pub open spec fn runs_swap(w: Swap, s0: Seq<u64>, s1: Seq<u64>, r: Result<
    Option<Seq<char>>,
    ErrorV,
>) -> bool {
    match w {
        Swap::Specified(f, t) => {
            if s0.len() > f {
                if s0.len() > t {
                    s1 == s0.update(s0.len() - 1 - f, s0[s0.len() - 1 - t]).update(
                        s0.len() - 1 - t,
                        s0[s0.len() - 1 - f],
                    ) && r == Ok::<Option<Seq<char>>, ErrorV>(None)
                } else {
                    s1 == s0 && r == Err::<Option<Seq<char>>, ErrorV>(
                        ErrorV::OOB(t, s0.len() as usize),
                    )
                }
            } else {
                s1 == s0 && r == Err::<Option<Seq<char>>, ErrorV>(
                    ErrorV::OOB(f, s0.len() as usize),
                )
            }
        },
        Swap::LastTwo => {
            if s0.len() >= 2 {
                s1 == s0.update(s0.len() - 1, s0[s0.len() - 2]).update(
                    s0.len() - 2,
                    s0[s0.len() - 1],
                ) && r == Ok::<Option<Seq<char>>, ErrorV>(None)
            } else {
                s1 == s0 && r == Err::<Option<Seq<char>>, ErrorV>(
                    ErrorV::StackEmpty(s0.len() as usize, 2),
                )
            }
        },
    }
}

/// Executing `reverse`: the whole stack in reverse order; always succeeds.
pub open spec fn runs_reverse(s0: Seq<u64>, s1: Seq<u64>, r: Result<
    Option<Seq<char>>,
    ErrorV,
>) -> bool {
    s1 == seq_rev(s0) && r == Ok::<Option<Seq<char>>, ErrorV>(None)
}

/// Executing one primitive operation: the stack must hold the operation's
/// input arity; the pushed result of an arithmetic, exponential or
/// trigonometric operation is whatever the port computed, a comparison's
/// result and a constant's value are exact.
pub open spec fn runs_op(op: OpV, s0: Seq<u64>, s1: Seq<u64>, r: Result<
    Option<Seq<char>>,
    ErrorV,
>) -> bool {
    match op {
        OpV::InsNum(_) => exists|v: u64|
            s1 == #[trigger] s0.push(v) && r == Ok::<Option<Seq<char>>, ErrorV>(None),
        OpV::Constants(c) => s1 == s0.push(const_bits(c)) && r == Ok::<
            Option<Seq<char>>,
            ErrorV,
        >(None),
        OpV::NOP => s1 == s0 && r == Ok::<Option<Seq<char>>, ErrorV>(None),
        OpV::Arith(_) | OpV::ExponentialsBinary(_) => {
            if s0.len() < 2 {
                s1 == s0 && r == Err::<Option<Seq<char>>, ErrorV>(
                    ErrorV::StackEmpty(s0.len() as usize, 2),
                )
            } else {
                exists|v: u64|
                    s1 == #[trigger] s0.subrange(0, s0.len() - 2).push(v) && r == Ok::<
                        Option<Seq<char>>,
                        ErrorV,
                    >(None)
            }
        },
        OpV::ExponentialsUnary(_) | OpV::Trigonometric(_) => {
            if s0.len() < 1 {
                s1 == s0 && r == Err::<Option<Seq<char>>, ErrorV>(
                    ErrorV::StackEmpty(s0.len() as usize, 1),
                )
            } else {
                exists|v: u64|
                    s1 == #[trigger] s0.drop_last().push(v) && r == Ok::<Option<Seq<char>>, ErrorV>(None)
            }
        },
        OpV::Cmp(cm) => {
            if s0.len() < 2 {
                s1 == s0 && r == Err::<Option<Seq<char>>, ErrorV>(
                    ErrorV::StackEmpty(s0.len() as usize, 2),
                )
            } else {
                s1 == s0.subrange(0, s0.len() - 2).push(
                    bool_bits(cmp_eval(cm, s0[s0.len() - 2], s0[s0.len() - 1])),
                ) && r == Ok::<Option<Seq<char>>, ErrorV>(None)
            }
        },
    }
}

/// Always true; serves as the trigger of the step existentials below, so
/// that giving a concrete intermediate stack and outcome instantiates them.
pub open spec fn step_witness(smid: Seq<u64>, r1: Result<Option<Seq<char>>, ErrorV>) -> bool {
    true
}

/// Executing one command-tree node.
pub open spec fn big_node(n: NodeV, s0: Seq<u64>, s1: Seq<u64>, r: Result<
    Option<Seq<char>>,
    ErrorV,
>) -> bool
    decreases n, 0int, 0int, 0int,
{
    match n {
        NodeV::Op(op) => runs_op(op, s0, s1, r),
        NodeV::Command(c) => big_cmd(c, s0, s1, r),
    }
}

/// Executing one command.
pub open spec fn big_cmd(c: CmdV, s0: Seq<u64>, s1: Seq<u64>, r: Result<
    Option<Seq<char>>,
    ErrorV,
>) -> bool
    decreases c, 3int, 0int, 0int,
{
    match c {
        CmdV::Drop(d) => runs_drop(d, s0, s1, r),
        CmdV::Dup(d) => runs_dup(d, s0, s1, r),
        CmdV::Swap(w) => runs_swap(w, s0, s1, r),
        CmdV::Reverse => runs_reverse(s0, s1, r),
        CmdV::Break => s1 == s0 && r == Err::<Option<Seq<char>>, ErrorV>(ErrorV::Break),
        CmdV::Print => {
            if s0.len() == 0 {
                s1 == s0 && r == Err::<Option<Seq<char>>, ErrorV>(ErrorV::StackEmpty(0, 1))
            } else {
                s1 == s0.drop_last() && ((r matches Ok(Some(_))) || r == Err::<
                    Option<Seq<char>>,
                    ErrorV,
                >(ErrorV::IO))
            }
        },
        CmdV::Display(d) => s1 == s0 && (r == Ok::<Option<Seq<char>>, ErrorV>(Some(d)) || r
            == Err::<Option<Seq<char>>, ErrorV>(ErrorV::IO)),
        CmdV::Input => {
            ||| (s1 == s0 && (r == Err::<Option<Seq<char>>, ErrorV>(ErrorV::IO) || r == Err::<
                Option<Seq<char>>,
                ErrorV,
            >(ErrorV::ParseFloat)))
            ||| (exists|v: u64|
                s1 == #[trigger] s0.push(v) && r == Ok::<Option<Seq<char>>, ErrorV>(None))
        },
        CmdV::Chain(ms) => big_chain(ms, None, s0, s1, r),
        CmdV::Conditional(cv) => match cv.kind {
            ConditionalKind::If => {
                if s0.len() == 0 {
                    s1 == s0 && r == Err::<Option<Seq<char>>, ErrorV>(ErrorV::StackEmpty(0, 1))
                } else if f64_is_zero(s0.last()) {
                    big_chain(cv.first, None, s0.drop_last(), s1, r)
                } else {
                    big_chain(cv.second, None, s0.drop_last(), s1, r)
                }
            },
            ConditionalKind::Try => exists|smid: Seq<u64>, r1: Result<Option<Seq<char>>, ErrorV>|
                #[trigger] step_witness(smid, r1) && try_step(cv, s0, s1, r, smid, r1),
        },
        CmdV::Repeat(rv) => match rv {
            RepV::Bounded(k, b) => big_rep(*b, k as nat, None, s0, s1, r),
            RepV::Unbounded(b) => big_unb(*b, MAX_REPETITIONS as nat, s0, s1, r),
        },
    }
}

/// One way a `try` can go: its first branch runs, and on failure the
/// fallback decides the outcome on the stack the first branch left behind.
pub open spec fn try_step(
    cv: CondV,
    s0: Seq<u64>,
    s1: Seq<u64>,
    r: Result<Option<Seq<char>>, ErrorV>,
    smid: Seq<u64>,
    r1: Result<Option<Seq<char>>, ErrorV>,
) -> bool
    decreases cv, 2int, 0int, 0int,
{
    &&& big_chain(cv.first, None, s0, smid, r1)
    &&& match r1 {
        Ok(m) => s1 == smid && r == Ok::<Option<Seq<char>>, ErrorV>(m),
        Err(_) => big_chain(cv.second, None, smid, s1, r),
    }
}

/// Executing the members of a chain in order on the shared stack: the first
/// failure aborts; the overall message is the last member's.
pub open spec fn big_chain(
    ms: Seq<NodeV>,
    prev: Option<Seq<char>>,
    s0: Seq<u64>,
    s1: Seq<u64>,
    r: Result<Option<Seq<char>>, ErrorV>,
) -> bool
    decreases ms, 2int, 0int, 0int,
{
    if ms.len() == 0 {
        s1 == s0 && r == Ok::<Option<Seq<char>>, ErrorV>(prev)
    } else {
        exists|smid: Seq<u64>, rh: Result<Option<Seq<char>>, ErrorV>|
            #[trigger] step_witness(smid, rh) && chain_step(ms, prev, s0, s1, r, smid, rh)
    }
}

/// One step of a chain: the head runs first; an error from it is the
/// chain's error, and otherwise the rest of the chain continues with the
/// head's message.
pub open spec fn chain_step(
    ms: Seq<NodeV>,
    prev: Option<Seq<char>>,
    s0: Seq<u64>,
    s1: Seq<u64>,
    r: Result<Option<Seq<char>>, ErrorV>,
    smid: Seq<u64>,
    rh: Result<Option<Seq<char>>, ErrorV>,
) -> bool
    decreases ms, 1int, 0int, 0int,
{
    ms.len() > 0 && {
        &&& big_node(ms[0], s0, smid, rh)
        &&& match rh {
            Err(e) => s1 == smid && r == Err::<Option<Seq<char>>, ErrorV>(e),
            Ok(m) => big_chain(ms.drop_first(), m, smid, s1, r),
        }
    }
}

/// Executing a body `k` times, stopping at the first failure; the overall
/// message is the last iteration's.
pub open spec fn big_rep(
    body: NodeV,
    k: nat,
    prev: Option<Seq<char>>,
    s0: Seq<u64>,
    s1: Seq<u64>,
    r: Result<Option<Seq<char>>, ErrorV>,
) -> bool
    decreases body, 1int, k, 1int,
{
    if k == 0 {
        s1 == s0 && r == Ok::<Option<Seq<char>>, ErrorV>(prev)
    } else {
        exists|smid: Seq<u64>, r1: Result<Option<Seq<char>>, ErrorV>|
            #[trigger] step_witness(smid, r1) && rep_step(body, k, prev, s0, s1, r, smid, r1)
    }
}

/// One iteration of a bounded repeat, followed by the remaining
/// iterations.
pub open spec fn rep_step(
    body: NodeV,
    k: nat,
    prev: Option<Seq<char>>,
    s0: Seq<u64>,
    s1: Seq<u64>,
    r: Result<Option<Seq<char>>, ErrorV>,
    smid: Seq<u64>,
    r1: Result<Option<Seq<char>>, ErrorV>,
) -> bool
    decreases body, 1int, k, 0int,
{
    k > 0 && {
        &&& big_node(body, s0, smid, r1)
        &&& match r1 {
            Err(e) => s1 == smid && r == Err::<Option<Seq<char>>, ErrorV>(e),
            Ok(m) => big_rep(body, (k - 1) as nat, m, smid, s1, r),
        }
    }
}

/// Executing a body until it fails: the failure is the normal stop and
/// yields a success message embedding the failure's text; a body that
/// succeeds `fuel` times in a row is an infinite loop.
pub open spec fn big_unb(body: NodeV, fuel: nat, s0: Seq<u64>, s1: Seq<u64>, r: Result<
    Option<Seq<char>>,
    ErrorV,
>) -> bool
    decreases body, 1int, fuel, 1int,
{
    if fuel == 0 {
        s1 == s0 && r == Err::<Option<Seq<char>>, ErrorV>(ErrorV::InfLoop)
    } else {
        exists|smid: Seq<u64>, r1: Result<Option<Seq<char>>, ErrorV>|
            #[trigger] step_witness(smid, r1) && unb_step(body, fuel, s0, s1, r, smid, r1)
    }
}

/// One iteration of an unbounded repeat: a success continues with less
/// fuel; a failure ends the repeat successfully.
pub open spec fn unb_step(
    body: NodeV,
    fuel: nat,
    s0: Seq<u64>,
    s1: Seq<u64>,
    r: Result<Option<Seq<char>>, ErrorV>,
    smid: Seq<u64>,
    r1: Result<Option<Seq<char>>, ErrorV>,
) -> bool
    decreases body, 1int, fuel, 0int,
{
    fuel > 0 && {
        &&& big_node(body, s0, smid, r1)
        &&& match r1 {
            Ok(_) => big_unb(body, (fuel - 1) as nat, smid, s1, r),
            Err(e) => s1 == smid && r == Ok::<Option<Seq<char>>, ErrorV>(Some(unb_msg(e))),
        }
    }
}

// ---------------------------------------------------------------------------
// Introduction lemmas for the relation
// ---------------------------------------------------------------------------
/// A failing head decides a non-empty chain.
pub proof fn lemma_chain_intro_err(
    ms: Seq<NodeV>,
    prev: Option<Seq<char>>,
    s0: Seq<u64>,
    s1: Seq<u64>,
    rr: Result<Option<Seq<char>>, ErrorV>,
)
    requires
        ms.len() > 0,
        rr is Err,
        big_node(ms[0], s0, s1, rr),
    ensures
        big_chain(ms, prev, s0, s1, rr),
{
    assert(step_witness(s1, rr) && chain_step(ms, prev, s0, s1, rr, s1, rr));
}

/// A successful head followed by the rest of the chain.
pub proof fn lemma_chain_intro_ok(
    ms: Seq<NodeV>,
    prev: Option<Seq<char>>,
    s0: Seq<u64>,
    smid: Seq<u64>,
    mr: Result<Option<Seq<char>>, ErrorV>,
    s1: Seq<u64>,
    r: Result<Option<Seq<char>>, ErrorV>,
)
    requires
        ms.len() > 0,
        mr is Ok,
        big_node(ms[0], s0, smid, mr),
        big_chain(ms.drop_first(), mr->Ok_0, smid, s1, r),
    ensures
        big_chain(ms, prev, s0, s1, r),
{
    assert(step_witness(smid, mr) && chain_step(ms, prev, s0, s1, r, smid, mr));
}

/// A successful first branch decides a `try`.
pub proof fn lemma_try_intro_ok(cv: CondV, s0: Seq<u64>, s1: Seq<u64>, mr: Result<
    Option<Seq<char>>,
    ErrorV,
>)
    requires
        cv.kind == ConditionalKind::Try,
        mr is Ok,
        big_chain(cv.first, None, s0, s1, mr),
    ensures
        big_cmd(CmdV::Conditional(cv), s0, s1, mr),
{
    assert(step_witness(s1, mr) && try_step(cv, s0, s1, mr, s1, mr));
}

/// A failing first branch hands a `try` to its fallback.
pub proof fn lemma_try_intro_err(
    cv: CondV,
    s0: Seq<u64>,
    smid: Seq<u64>,
    er: Result<Option<Seq<char>>, ErrorV>,
    s1: Seq<u64>,
    r: Result<Option<Seq<char>>, ErrorV>,
)
    requires
        cv.kind == ConditionalKind::Try,
        er is Err,
        big_chain(cv.first, None, s0, smid, er),
        big_chain(cv.second, None, smid, s1, r),
    ensures
        big_cmd(CmdV::Conditional(cv), s0, s1, r),
{
    assert(step_witness(smid, er) && try_step(cv, s0, s1, r, smid, er));
}

/// A failing iteration decides a bounded repeat.
pub proof fn lemma_rep_intro_err(
    body: NodeV,
    k: nat,
    prev: Option<Seq<char>>,
    s0: Seq<u64>,
    s1: Seq<u64>,
    rr: Result<Option<Seq<char>>, ErrorV>,
)
    requires
        k > 0,
        rr is Err,
        big_node(body, s0, s1, rr),
    ensures
        big_rep(body, k, prev, s0, s1, rr),
{
    assert(step_witness(s1, rr) && rep_step(body, k, prev, s0, s1, rr, s1, rr));
}

/// A successful iteration followed by the remaining iterations.
pub proof fn lemma_rep_intro_ok(
    body: NodeV,
    k: nat,
    prev: Option<Seq<char>>,
    s0: Seq<u64>,
    smid: Seq<u64>,
    mr: Result<Option<Seq<char>>, ErrorV>,
    s1: Seq<u64>,
    r: Result<Option<Seq<char>>, ErrorV>,
)
    requires
        k > 0,
        mr is Ok,
        big_node(body, s0, smid, mr),
        big_rep(body, (k - 1) as nat, mr->Ok_0, smid, s1, r),
    ensures
        big_rep(body, k, prev, s0, s1, r),
{
    assert(step_witness(smid, mr) && rep_step(body, k, prev, s0, s1, r, smid, mr));
}

/// A successful iteration followed by the rest of an unbounded run.
pub proof fn lemma_unb_intro_ok(
    body: NodeV,
    fuel: nat,
    s0: Seq<u64>,
    smid: Seq<u64>,
    mr: Result<Option<Seq<char>>, ErrorV>,
    s1: Seq<u64>,
    r: Result<Option<Seq<char>>, ErrorV>,
)
    requires
        fuel > 0,
        mr is Ok,
        big_node(body, s0, smid, mr),
        big_unb(body, (fuel - 1) as nat, smid, s1, r),
    ensures
        big_unb(body, fuel, s0, s1, r),
{
    assert(step_witness(smid, mr) && unb_step(body, fuel, s0, s1, r, smid, mr));
}

/// A failing iteration ends an unbounded run successfully, with a message
/// embedding the failure's text.
pub proof fn lemma_unb_intro_err(
    body: NodeV,
    fuel: nat,
    s0: Seq<u64>,
    s1: Seq<u64>,
    er: Result<Option<Seq<char>>, ErrorV>,
    rr: Result<Option<Seq<char>>, ErrorV>,
)
    requires
        fuel > 0,
        er is Err,
        big_node(body, s0, s1, er),
        rr == Ok::<Option<Seq<char>>, ErrorV>(Some(unb_msg(er->Err_0))),
    ensures
        big_unb(body, fuel, s0, s1, rr),
{
    assert(step_witness(s1, er) && unb_step(body, fuel, s0, s1, rr, s1, er));
}

// ---------------------------------------------------------------------------
// The engine
// ---------------------------------------------------------------------------
/// Keeps the bottom `keep` elements of the stack.
fn truncate_stack(stack: &mut Vec<u64>, keep: usize)
    requires
        keep <= old(stack)@.len(),
    ensures
        final(stack)@ == old(stack)@.take(keep as int),
{
    stack.truncate(keep);
}

impl OpEnum {
    /// Applies one primitive operation to the stack, taking the result of
    /// an arithmetic, exponential or trigonometric computation from the
    /// port.
    pub fn comm<P: Port>(&self, stack: &mut Vec<u64>, port: &mut P) -> (r: Result<
        Option<String>,
        Error,
    >)
        ensures
            runs_op(self@, old(stack)@, final(stack)@, res_view(r)),
    {
        let ghost s0 = stack@;
        match self {
            OpEnum::NOP(_) => Ok(None),
            OpEnum::InsNum(n) => {
                let v = port.float_value(n.0.as_str());
                stack.push(v);
                proof {
                    assert(stack@ == s0.push(v));
                }
                Ok(None)
            },
            OpEnum::Constants(c) => {
                let v = const_value(c);
                stack.push(v);
                Ok(None)
            },
            OpEnum::Arith(a) => {
                if stack.len() < 2 {
                    return Err(Error::StackEmpty(stack.len(), 2));
                }
                let rhs = stack.pop().unwrap();
                let lhs = stack.pop().unwrap();
                let v = port.arith_value(a, lhs, rhs);
                stack.push(v);
                proof {
                    assert(stack@ =~= s0.subrange(0, s0.len() - 2).push(v));
                }
                Ok(None)
            },
            OpEnum::ExponentialsBinary(e) => {
                if stack.len() < 2 {
                    return Err(Error::StackEmpty(stack.len(), 2));
                }
                let rhs = stack.pop().unwrap();
                let lhs = stack.pop().unwrap();
                let v = port.exp_binary_value(e, lhs, rhs);
                stack.push(v);
                proof {
                    assert(stack@ =~= s0.subrange(0, s0.len() - 2).push(v));
                }
                Ok(None)
            },
            OpEnum::ExponentialsUnary(e) => {
                if stack.len() < 1 {
                    return Err(Error::StackEmpty(stack.len(), 1));
                }
                let x = stack.pop().unwrap();
                let v = port.exp_unary_value(e, x);
                stack.push(v);
                proof {
                    assert(stack@ =~= s0.drop_last().push(v));
                }
                Ok(None)
            },
            OpEnum::Trigonometric(t) => {
                if stack.len() < 1 {
                    return Err(Error::StackEmpty(stack.len(), 1));
                }
                let x = stack.pop().unwrap();
                let v = port.trig_value(t, x);
                stack.push(v);
                proof {
                    assert(stack@ =~= s0.drop_last().push(v));
                }
                Ok(None)
            },
            OpEnum::Cmp(cm) => {
                if stack.len() < 2 {
                    return Err(Error::StackEmpty(stack.len(), 2));
                }
                let rhs = stack.pop().unwrap();
                let lhs = stack.pop().unwrap();
                let v = cmp_bits(cm, lhs, rhs);
                stack.push(v);
                proof {
                    assert(stack@ =~= s0.subrange(0, s0.len() - 2).push(v));
                }
                Ok(None)
            },
        }
    }
}

impl Drop {
    /// Removes the top elements: a count past the stack's length clears it,
    /// but a non-zero drop on an empty stack is an underflow; `all` always
    /// clears.
    pub fn comm(&self, stack: &mut Vec<u64>) -> (r: Result<Option<String>, Error>)
        ensures
            runs_drop(*self, old(stack)@, final(stack)@, res_view(r)),
    {
        match self {
            Drop::Count(amount) => {
                let stack_len = stack.len();
                if stack_len == 0 && *amount != 0 {
                    Err(Error::StackEmpty(stack_len, *amount))
                } else if *amount >= stack_len {
                    stack.clear();
                    proof {
                        assert(stack@ =~= Seq::<u64>::empty());
                    }
                    Ok(None)
                } else {
                    truncate_stack(stack, stack_len - *amount);
                    Ok(None)
                }
            },
            Drop::All => {
                stack.clear();
                proof {
                    assert(stack@ =~= Seq::<u64>::empty());
                }
                Ok(None)
            },
        }
    }
}

impl Dup {
    /// Appends the top element `n` more times; underflows when the stack is
    /// empty.
    #[verifier::loop_isolation(false)]
    pub fn comm(&self, stack: &mut Vec<u64>) -> (r: Result<Option<String>, Error>)
        ensures
            runs_dup(*self, old(stack)@, final(stack)@, res_view(r)),
    {
        let ghost s0 = stack@;
        if stack.len() == 0 {
            return Err(Error::StackEmpty(0, 1));
        }
        let last = stack[stack.len() - 1];
        let n = self.0;
        let mut j: usize = 0;
        while j < n
            invariant
                j <= n,
                stack@ == s0 + Seq::new(j as nat, |i: int| s0.last()),
            decreases n - j,
        {
            stack.push(last);
            proof {
                assert(stack@ =~= s0 + Seq::new((j + 1) as nat, |i: int| s0.last()));
            }
            j += 1;
        }
        Ok(None)
    }
}

impl Swap {
    /// Exchanges two elements named by their distance from the top, or the
    /// top two.
    pub fn comm(&self, stack: &mut Vec<u64>) -> (r: Result<Option<String>, Error>)
        ensures
            runs_swap(*self, old(stack)@, final(stack)@, res_view(r)),
    {
        match self {
            Swap::Specified(from, to) => {
                let stack_len = stack.len();
                if stack_len > *from {
                    if stack_len > *to {
                        let a = stack_len - 1 - *from;
                        let b = stack_len - 1 - *to;
                        let va = stack[a];
                        let vb = stack[b];
                        stack[a] = vb;
                        stack[b] = va;
                        Ok(None)
                    } else {
                        Err(Error::OOB(*to, stack_len))
                    }
                } else {
                    Err(Error::OOB(*from, stack_len))
                }
            },
            Swap::LastTwo => {
                let stack_len = stack.len();
                if stack_len >= 2 {
                    let a = stack_len - 1;
                    let b = stack_len - 2;
                    let va = stack[a];
                    let vb = stack[b];
                    stack[a] = vb;
                    stack[b] = va;
                    Ok(None)
                } else {
                    Err(Error::StackEmpty(stack_len, 2))
                }
            },
        }
    }
}

impl Reverse {
    /// Reverses the whole stack; always succeeds.
    #[verifier::loop_isolation(false)]
    pub fn comm(&self, stack: &mut Vec<u64>) -> (r: Result<Option<String>, Error>)
        ensures
            runs_reverse(old(stack)@, final(stack)@, res_view(r)),
    {
        let ghost s0 = stack@;
        let len = stack.len();
        let mut rev: Vec<u64> = Vec::new();
        let mut i: usize = 0;
        while i < len
            invariant
                i <= len,
                rev@.len() == i,
                forall|k: int| 0 <= k < i ==> rev@[k] == s0[len - 1 - k],
            decreases len - i,
        {
            rev.push(stack[len - 1 - i]);
            i += 1;
        }
        *stack = rev;
        proof {
            assert(stack@ =~= seq_rev(s0));
        }
        Ok(None)
    }
}

impl Break {
    /// Unconditionally fails with the dedicated break error.
    pub fn comm(&self, stack: &mut Vec<u64>) -> (r: Result<Option<String>, Error>)
        ensures
            final(stack)@ == old(stack)@,
            res_view(r) == Err::<Option<Seq<char>>, ErrorV>(ErrorV::Break),
    {
        Err(Error::Break)
    }
}

impl Print {
    /// Pops the top element, renders it through the port and writes it; the
    /// rendered text is the message.
    pub fn comm<P: Port>(&self, stack: &mut Vec<u64>, port: &mut P) -> (r: Result<
        Option<String>,
        Error,
    >)
        ensures
            big_cmd(CmdV::Print, old(stack)@, final(stack)@, res_view(r)),
    {
        if stack.len() == 0 {
            return Err(Error::StackEmpty(0, 1));
        }
        let v = stack.pop().unwrap();
        let text = port.format_value(v);
        if port.write_line(text.as_str()) {
            Ok(Some(text))
        } else {
            Err(Error::IO)
        }
    }
}

impl Display {
    /// Writes the decoded text; the text is the message; the stack is not
    /// touched.
    pub fn comm<P: Port>(&self, stack: &mut Vec<u64>, port: &mut P) -> (r: Result<
        Option<String>,
        Error,
    >)
        ensures
            big_cmd(CmdV::Display(self@), old(stack)@, final(stack)@, res_view(r)),
    {
        if port.write_line(self.0.as_str()) {
            Ok(Some(self.0.clone()))
        } else {
            Err(Error::IO)
        }
    }
}

impl Input {
    /// Reads one line from the port and pushes its numeric value; a line
    /// that does not match the floating point grammar is a float parse
    /// error.
    pub fn comm<P: Port>(&self, stack: &mut Vec<u64>, port: &mut P) -> (r: Result<
        Option<String>,
        Error,
    >)
        ensures
            big_cmd(CmdV::Input, old(stack)@, final(stack)@, res_view(r)),
    {
        let ghost s0 = stack@;
        match port.read_line() {
            None => Err(Error::IO),
            Some(line) => {
                let cs = chars_of(line.as_str());
                let t = trim_chars(&cs);
                if check_float_lit(&t) {
                    let text = string_from_chars(&t);
                    let v = port.float_value(text.as_str());
                    stack.push(v);
                    proof {
                        assert(stack@ == s0.push(v));
                    }
                    Ok(None)
                } else {
                    Err(Error::ParseFloat)
                }
            },
        }
    }
}

/// Runs the members of `v` from `idx` on; `prev` is the message of the last
/// member already run.
fn chain_run<P: Port>(
    v: &Vec<CommandOrOp>,
    idx: usize,
    prev: Option<String>,
    stack: &mut Vec<u64>,
    port: &mut P,
) -> (r: Result<Option<String>, Error>)
    requires
        idx <= v@.len(),
    ensures
        big_chain(
            nodes_view(v@).skip(idx as int),
            msg_view(prev),
            old(stack)@,
            final(stack)@,
            res_view(r),
        ),
    decreases v@, 2int, v@.len() - idx, 0int,
{
    proof {
        broadcast use crate::command::lemma_nodes_view_len, crate::command::lemma_nodes_view_index;

    }
    let ghost s0 = stack@;
    if idx == v.len() {
        proof {
            assert(nodes_view(v@).skip(idx as int) =~= Seq::<NodeV>::empty());
        }
        return Ok(prev);
    }
    let ghost ms = nodes_view(v@).skip(idx as int);
    proof {
        assert(ms[0] == v@[idx as int]@);
        assert(ms.drop_first() =~= nodes_view(v@).skip(idx + 1));
    }
    let rh = v[idx].comm(stack, port);
    match rh {
        Err(e) => {
            proof {
                lemma_chain_intro_err(
                    ms,
                    msg_view(prev),
                    s0,
                    stack@,
                    Err::<Option<Seq<char>>, ErrorV>(e@),
                );
            }
            Err(e)
        },
        Ok(m) => {
            let ghost smid = stack@;
            let ghost mv = msg_view(m);
            let r2 = chain_run(v, idx + 1, m, stack, port);
            proof {
                lemma_chain_intro_ok(
                    ms,
                    msg_view(prev),
                    s0,
                    smid,
                    Ok::<Option<Seq<char>>, ErrorV>(mv),
                    stack@,
                    res_view(r2),
                );
            }
            r2
        },
    }
}

impl Chain {
    /// Runs the members in order on the shared stack: the first failure
    /// aborts the chain, and the chain's message is its last member's.
    pub fn comm<P: Port>(&self, stack: &mut Vec<u64>, port: &mut P) -> (r: Result<
        Option<String>,
        Error,
    >)
        ensures
            big_chain(self@, None, old(stack)@, final(stack)@, res_view(r)),
        decreases self, 3int, 0int, 0int,
    {
        proof {
            assert(nodes_view(self.0@).skip(0) =~= nodes_view(self.0@));
        }
        chain_run(&self.0, 0, None, stack, port)
    }
}

impl Conditional {
    /// `if` pops the top and selects a branch by its zero test; `try` runs
    /// the first branch and, on failure, the fallback on whatever stack the
    /// first branch left.
    pub fn comm<P: Port>(&self, stack: &mut Vec<u64>, port: &mut P) -> (r: Result<
        Option<String>,
        Error,
    >)
        ensures
            big_cmd(CmdV::Conditional(self@), old(stack)@, final(stack)@, res_view(r)),
        decreases self, 3int, 0int, 0int,
    {
        let ghost s0 = stack@;
        match self.kind {
            ConditionalKind::If => {
                if stack.len() == 0 {
                    return Err(Error::StackEmpty(0, 1));
                }
                let top = stack.pop().unwrap();
                proof {
                    assert(stack@ == s0.drop_last());
                    assert(top == s0.last());
                }
                if is_zero_bits(top) {
                    self.first.comm(stack, port)
                } else {
                    self.second.comm(stack, port)
                }
            },
            ConditionalKind::Try => {
                let r1 = self.first.comm(stack, port);
                let ghost smid = stack@;
                match r1 {
                    Ok(m) => {
                        let ghost mv = msg_view(m);
                        proof {
                            lemma_try_intro_ok(
                                self@,
                                s0,
                                stack@,
                                Ok::<Option<Seq<char>>, ErrorV>(mv),
                            );
                        }
                        Ok(m)
                    },
                    Err(e) => {
                        let r2 = self.second.comm(stack, port);
                        proof {
                            lemma_try_intro_err(
                                self@,
                                s0,
                                smid,
                                Err::<Option<Seq<char>>, ErrorV>(e@),
                                stack@,
                                res_view(r2),
                            );
                        }
                        r2
                    },
                }
            },
        }
    }
}

impl Repeat {
    /// Runs the body the given number of times, or until it fails; an
    /// unbounded repeat treats the body's failure as its own success, and
    /// gives up after [`MAX_REPETITIONS`] iterations.
    #[verifier::loop_isolation(false)]
    pub fn comm<P: Port>(&self, stack: &mut Vec<u64>, port: &mut P) -> (r: Result<
        Option<String>,
        Error,
    >)
        ensures
            big_cmd(CmdV::Repeat(self@), old(stack)@, final(stack)@, res_view(r)),
        decreases self, 3int, 0int, 0int,
    {
        let ghost s0 = stack@;
        match self {
            Repeat::Bounded(reps, c) => {
                let ghost bodyv = (**c)@;
                let n = *reps;
                let mut out: Option<String> = None;
                let mut j: usize = 0;
                while j < n
                    invariant
                        j <= n,
                        forall|s1: Seq<u64>, rr: Result<Option<Seq<char>>, ErrorV>|
                            #[trigger] big_rep(bodyv, (n - j) as nat, msg_view(out), stack@, s1, rr)
                                ==> big_rep(bodyv, n as nat, None, s0, s1, rr),
                    decreases n - j,
                {
                    let ghost s_cur = stack@;
                    let ghost m_cur = msg_view(out);
                    let ghost j0 = j as int;
                    let r1 = c.comm(stack, port);
                    match r1 {
                        Err(e) => {
                            proof {
                                lemma_rep_intro_err(
                                    bodyv,
                                    (n - j) as nat,
                                    m_cur,
                                    s_cur,
                                    stack@,
                                    Err::<Option<Seq<char>>, ErrorV>(e@),
                                );
                            }
                            return Err(e);
                        },
                        Ok(m2) => {
                            proof {
                                assert forall|
                                    s1: Seq<u64>,
                                    rr: Result<Option<Seq<char>>, ErrorV>,
                                |
                                    #[trigger] big_rep(
                                        bodyv,
                                        (n - j0 - 1) as nat,
                                        msg_view(m2),
                                        stack@,
                                        s1,
                                        rr,
                                    ) implies big_rep(bodyv, n as nat, None, s0, s1, rr) by {
                                    lemma_rep_intro_ok(
                                        bodyv,
                                        (n - j) as nat,
                                        m_cur,
                                        s_cur,
                                        stack@,
                                        Ok::<Option<Seq<char>>, ErrorV>(msg_view(m2)),
                                        s1,
                                        rr,
                                    );
                                }
                            }
                            out = m2;
                        },
                    }
                    j += 1;
                    proof {
                        assert forall|s1: Seq<u64>, rr: Result<Option<Seq<char>>, ErrorV>|
                            #[trigger] big_rep(bodyv, (n - j) as nat, msg_view(out), stack@, s1, rr)
                                implies big_rep(bodyv, n as nat, None, s0, s1, rr) by {
                            assert((n - j) as nat == (n - j0 - 1) as nat);
                            assert(big_rep(bodyv, (n - j0 - 1) as nat, msg_view(out), stack@, s1, rr));
                        }
                    }
                }
                proof {
                    assert(big_rep(bodyv, 0, msg_view(out), stack@, stack@, res_view(
                        Ok::<Option<String>, Error>(out),
                    )));
                }
                Ok(out)
            },
            Repeat::Unbounded(c) => {
                let ghost bodyv = (**c)@;
                let mut reps: usize = 0;
                loop
                    invariant
                        reps <= MAX_REPETITIONS,
                        forall|s1: Seq<u64>, rr: Result<Option<Seq<char>>, ErrorV>|
                            #[trigger] big_unb(
                                bodyv,
                                (MAX_REPETITIONS - reps) as nat,
                                stack@,
                                s1,
                                rr,
                            ) ==> big_unb(bodyv, MAX_REPETITIONS as nat, s0, s1, rr),
                    decreases MAX_REPETITIONS - reps,
                {
                    if reps >= MAX_REPETITIONS {
                        proof {
                            assert(big_unb(
                                bodyv,
                                (MAX_REPETITIONS - reps) as nat,
                                stack@,
                                stack@,
                                res_view(Err::<Option<String>, Error>(Error::InfLoop)),
                            ));
                        }
                        return Err(Error::InfLoop);
                    }
                    let ghost s_cur = stack@;
                    let ghost r0 = reps as int;
                    match c.comm(stack, port) {
                        Ok(m2) => {
                            proof {
                                assert forall|
                                    s1: Seq<u64>,
                                    rr: Result<Option<Seq<char>>, ErrorV>,
                                |
                                    #[trigger] big_unb(
                                        bodyv,
                                        (MAX_REPETITIONS - r0 - 1) as nat,
                                        stack@,
                                        s1,
                                        rr,
                                    ) implies big_unb(bodyv, MAX_REPETITIONS as nat, s0, s1, rr) by {
                                    lemma_unb_intro_ok(
                                        bodyv,
                                        (MAX_REPETITIONS - r0) as nat,
                                        s_cur,
                                        stack@,
                                        Ok::<Option<Seq<char>>, ErrorV>(msg_view(m2)),
                                        s1,
                                        rr,
                                    );
                                }
                            }
                            reps += 1;
                            proof {
                                assert forall|
                                    s1: Seq<u64>,
                                    rr: Result<Option<Seq<char>>, ErrorV>,
                                |
                                    #[trigger] big_unb(
                                        bodyv,
                                        (MAX_REPETITIONS - reps) as nat,
                                        stack@,
                                        s1,
                                        rr,
                                    ) implies big_unb(bodyv, MAX_REPETITIONS as nat, s0, s1, rr) by {
                                    assert((MAX_REPETITIONS - reps) as nat == (MAX_REPETITIONS - r0
                                        - 1) as nat);
                                    assert(big_unb(
                                        bodyv,
                                        (MAX_REPETITIONS - r0 - 1) as nat,
                                        stack@,
                                        s1,
                                        rr,
                                    ));
                                }
                            }
                        },
                        Err(e) => {
                            let mut text =
                                "Ended Repetitions with the following error: \n".to_owned();
                            let em = e.message();
                            text.append(em.as_str());
                            proof {
                                lemma_unb_intro_err(
                                    bodyv,
                                    (MAX_REPETITIONS - reps) as nat,
                                    s_cur,
                                    stack@,
                                    Err::<Option<Seq<char>>, ErrorV>(e@),
                                    Ok::<Option<Seq<char>>, ErrorV>(Some(unb_msg(e@))),
                                );
                                assert(text@ == unb_msg(e@));
                            }
                            return Ok(Some(text));
                        },
                    }
                }
            },
        }
    }
}

impl CommandEnum {
    /// Runs one command against the stack.
    pub fn comm<P: Port>(&self, stack: &mut Vec<u64>, port: &mut P) -> (r: Result<
        Option<String>,
        Error,
    >)
        ensures
            big_cmd(self@, old(stack)@, final(stack)@, res_view(r)),
        decreases self, 4int, 0int, 0int,
    {
        match self {
            CommandEnum::Drop(d) => d.comm(stack),
            CommandEnum::Dup(d) => d.comm(stack),
            CommandEnum::Swap(w) => w.comm(stack),
            CommandEnum::Reverse(v) => v.comm(stack),
            CommandEnum::Break(b) => b.comm(stack),
            CommandEnum::Print(p) => p.comm(stack, port),
            CommandEnum::Display(d) => d.comm(stack, port),
            CommandEnum::Input(i) => i.comm(stack, port),
            CommandEnum::Chain(c) => c.comm(stack, port),
            CommandEnum::Conditional(c) => c.comm(stack, port),
            CommandEnum::Repeat(rp) => rp.comm(stack, port),
        }
    }
}

impl CommandOrOp {
    /// The execution entry point: runs one parsed command-tree node against
    /// the stack, with the port supplying floating point computation and
    /// line I/O.
    pub fn comm<P: Port>(&self, stack: &mut Vec<u64>, port: &mut P) -> (r: Result<
        Option<String>,
        Error,
    >)
        ensures
            big_node(self@, old(stack)@, final(stack)@, res_view(r)),
        decreases self, 5int, 0int, 0int,
    {
        match self {
            CommandOrOp::Command(c) => c.comm(stack, port),
            CommandOrOp::Op(o) => o.comm(stack, port),
        }
    }
}

} // verus!
