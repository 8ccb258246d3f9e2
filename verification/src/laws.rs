//! Laws of the calculator, stated over the parser's grammar functions and
//! the engine's big-step relation, and proved once and for all.

use vstd::prelude::*;
use crate::chars::{is_float_lit, trimmed, upper_seq};
use crate::command::{
    chain_from_str_spec, coo_from_str_spec, from_bare_spec, split_top, CmdV, CondV,
    ConditionalKind, Drop, NodeV, Swap,
};
use crate::error::ErrorV;
use crate::exec::{
    big_chain, big_cmd, big_node, big_rep, big_unb, chain_step, f64_is_zero, rep_step, runs_drop,
    runs_op, runs_swap, step_witness, try_step, unb_msg, unb_step,
};
use crate::ops::OpV;

verus! {

/// The input arity of each primitive operation.
pub open spec fn op_arity(op: OpV) -> nat {
    match op {
        OpV::InsNum(_) => 0,
        OpV::Constants(_) => 0,
        OpV::NOP => 0,
        OpV::Arith(_) => 2,
        OpV::ExponentialsBinary(_) => 2,
        OpV::Cmp(_) => 2,
        OpV::ExponentialsUnary(_) => 1,
        OpV::Trigonometric(_) => 1,
    }
}

/// The keyword round trip: each registered keyword command accepts exactly
/// its registered spellings — long and, when present, short — compared
/// after trimming and upper-casing, and no others.
pub proof fn lemma_keyword_spellings(s: Seq<char>)
    ensures
        crate::command::break_from_str_spec(s) is Ok <==> upper_seq(trimmed(s)) == "BREAK"@,
        crate::command::reverse_from_str_spec(s) is Ok <==> (upper_seq(trimmed(s)) == "REV"@
            || upper_seq(trimmed(s)) == "REVERSE"@),
        crate::command::input_from_str_spec(s) is Ok <==> (upper_seq(trimmed(s)) == "I"@
            || upper_seq(trimmed(s)) == "INPUT"@),
        crate::command::print_from_str_spec(s) is Ok <==> (upper_seq(trimmed(s)) == "P"@
            || upper_seq(trimmed(s)) == "PRINT"@),
        crate::ops::constants_from_str_spec(s) is Ok <==> (upper_seq(trimmed(s)) == "E"@
            || upper_seq(trimmed(s)) == "PI"@ || upper_seq(trimmed(s)) == "INF"@),
        crate::ops::arith_from_str_spec(s) is Ok <==> (trimmed(s) == "+"@ || trimmed(s) == "-"@
            || trimmed(s) == "*"@ || trimmed(s) == "/"@),
        crate::ops::exp_unary_from_str_spec(s) is Ok <==> (upper_seq(trimmed(s)) == "LOG10"@
            || upper_seq(trimmed(s)) == "LOG2"@ || upper_seq(trimmed(s)) == "LOGE"@ || upper_seq(
            trimmed(s),
        ) == "ROOT2"@),
        crate::ops::exp_binary_from_str_spec(s) is Ok <==> (upper_seq(trimmed(s)) == "POW"@
            || upper_seq(trimmed(s)) == "LOGN"@ || upper_seq(trimmed(s)) == "ROOTN"@),
        crate::ops::trig_from_str_spec(s) is Ok <==> (upper_seq(trimmed(s)) == "SIN"@ || upper_seq(
            trimmed(s),
        ) == "COS"@ || upper_seq(trimmed(s)) == "TAN"@ || upper_seq(trimmed(s)) == "ASIN"@
            || upper_seq(trimmed(s)) == "ACOS"@ || upper_seq(trimmed(s)) == "ATAN"@),
        crate::ops::cmp_from_str_spec(s) is Ok <==> (upper_seq(trimmed(s)) == "EQ"@ || upper_seq(
            trimmed(s),
        ) == "NEQ"@ || upper_seq(trimmed(s)) == "GT"@ || upper_seq(trimmed(s)) == "GTE"@
            || upper_seq(trimmed(s)) == "LT"@ || upper_seq(trimmed(s)) == "LTE"@),
        crate::ops::nop_from_str_spec(s) is Ok <==> trimmed(s).len() == 0,
{
}

/// Any text that reads as a floating point literal (after trimming) parses
/// as exactly that numeric literal: the literal alternative is tried first,
/// so nothing else can claim it.
pub proof fn lemma_float_literal_parses(s: Seq<char>)
    requires
        is_float_lit(trimmed(s)),
    ensures
        coo_from_str_spec(s) == Ok::<NodeV, ErrorV>(NodeV::Op(OpV::InsNum(trimmed(s)))),
{
}

/// Executing a numeric literal pushes exactly one element and succeeds; the
/// stack below the new top is unchanged.
pub proof fn lemma_literal_pushes_one(t: Seq<char>, s0: Seq<u64>, s1: Seq<u64>, r: Result<
    Option<Seq<char>>,
    ErrorV,
>)
    requires
        runs_op(OpV::InsNum(t), s0, s1, r),
    ensures
        r == Ok::<Option<Seq<char>>, ErrorV>(None),
        s1.len() == s0.len() + 1,
        s1.subrange(0, s0.len() as int) == s0,
{
    let v = choose|v: u64| s1 == #[trigger] s0.push(v) && r == Ok::<Option<Seq<char>>, ErrorV>(
        None,
    );
    assert(s1.subrange(0, s0.len() as int) =~= s0);
}

/// A primitive operation on a stack shorter than its arity fails with an
/// underflow naming the stack's length and the arity, and leaves the stack
/// unmodified.
pub proof fn lemma_op_underflow(op: OpV, s0: Seq<u64>, s1: Seq<u64>, r: Result<
    Option<Seq<char>>,
    ErrorV,
>)
    requires
        runs_op(op, s0, s1, r),
        s0.len() < op_arity(op),
    ensures
        s1 == s0,
        r == Err::<Option<Seq<char>>, ErrorV>(
            ErrorV::StackEmpty(s0.len() as usize, op_arity(op) as usize),
        ),
{
}

/// Dropping `n` elements from a stack of length `L` leaves length
/// `max(0, L - n)`, and `drop all` always leaves an empty stack — also on
/// the underflow of a non-zero drop from an empty stack, which changes
/// nothing.
pub proof fn lemma_drop_len(d: Drop, s0: Seq<u64>, s1: Seq<u64>, r: Result<
    Option<Seq<char>>,
    ErrorV,
>)
    requires
        runs_drop(d, s0, s1, r),
    ensures
        s1.len() == match d {
            Drop::Count(n) => if s0.len() >= n {
                s0.len() - n
            } else {
                0
            },
            Drop::All => 0,
        },
{
}

/// Swapping the same pair twice restores the stack, for any two distances
/// inside the stack.
pub proof fn lemma_swap_involution(
    f: usize,
    t: usize,
    s0: Seq<u64>,
    s1: Seq<u64>,
    s2: Seq<u64>,
    r1: Result<Option<Seq<char>>, ErrorV>,
    r2: Result<Option<Seq<char>>, ErrorV>,
)
    requires
        f < s0.len(),
        t < s0.len(),
        runs_swap(Swap::Specified(f, t), s0, s1, r1),
        runs_swap(Swap::Specified(f, t), s1, s2, r2),
    ensures
        r1 == Ok::<Option<Seq<char>>, ErrorV>(None),
        r2 == Ok::<Option<Seq<char>>, ErrorV>(None),
        s2 == s0,
{
    assert(s2 =~= s0);
}

/// `if` pops the selector: a zero (of either sign) runs the first branch,
/// anything else — a NaN included — the second, both on the popped stack.
pub proof fn lemma_if_selects(cv: CondV, s0: Seq<u64>, s1: Seq<u64>, r: Result<
    Option<Seq<char>>,
    ErrorV,
>)
    requires
        cv.kind == ConditionalKind::If,
        s0.len() > 0,
        big_cmd(CmdV::Conditional(cv), s0, s1, r),
    ensures
        f64_is_zero(s0.last()) ==> big_chain(cv.first, None, s0.drop_last(), s1, r),
        !f64_is_zero(s0.last()) ==> big_chain(cv.second, None, s0.drop_last(), s1, r),
{
}

/// Executing a one-member chain is executing its member.
pub proof fn lemma_chain_singleton(
    n: NodeV,
    prev: Option<Seq<char>>,
    s0: Seq<u64>,
    s1: Seq<u64>,
    r: Result<Option<Seq<char>>, ErrorV>,
)
    requires
        big_chain(seq![n], prev, s0, s1, r),
    ensures
        big_node(n, s0, s1, r),
{
    let ms = seq![n];
    let (smid, rh): (Seq<u64>, Result<Option<Seq<char>>, ErrorV>) = choose|
        smid: Seq<u64>,
        rh: Result<Option<Seq<char>>, ErrorV>,
    | #[trigger] step_witness(smid, rh) && chain_step(ms, prev, s0, s1, r, smid, rh);
    assert(ms[0] == n);
    match rh {
        Err(_) => {
            assert(s1 == smid);
        },
        Ok(_) => {
            assert(ms.drop_first() =~= Seq::<NodeV>::empty());
            assert(s1 == smid);
        },
    }
}

/// `try` whose first branch is a lone `break` always runs its fallback on
/// the unchanged stack: the break fails without touching anything, and the
/// failure is swallowed.
pub proof fn lemma_try_break_runs_fallback(cv: CondV, s0: Seq<u64>, s1: Seq<u64>, r: Result<
    Option<Seq<char>>,
    ErrorV,
>)
    requires
        cv.kind == ConditionalKind::Try,
        cv.first == seq![NodeV::Command(CmdV::Break)],
        big_cmd(CmdV::Conditional(cv), s0, s1, r),
    ensures
        big_chain(cv.second, None, s0, s1, r),
{
    let (smid, r1): (Seq<u64>, Result<Option<Seq<char>>, ErrorV>) = choose|
        smid: Seq<u64>,
        r1: Result<Option<Seq<char>>, ErrorV>,
    | #[trigger] step_witness(smid, r1) && try_step(cv, s0, s1, r, smid, r1);
    lemma_chain_singleton(NodeV::Command(CmdV::Break), None, s0, smid, r1);
    assert(smid == s0);
    assert(r1 == Err::<Option<Seq<char>>, ErrorV>(ErrorV::Break));
}

/// `try [ break ] [ <literal> ]` always succeeds and pushes exactly one
/// element.
pub proof fn lemma_try_break_literal(
    cv: CondV,
    t: Seq<char>,
    s0: Seq<u64>,
    s1: Seq<u64>,
    r: Result<Option<Seq<char>>, ErrorV>,
)
    requires
        cv.kind == ConditionalKind::Try,
        cv.first == seq![NodeV::Command(CmdV::Break)],
        cv.second == seq![NodeV::Op(OpV::InsNum(t))],
        big_cmd(CmdV::Conditional(cv), s0, s1, r),
    ensures
        r == Ok::<Option<Seq<char>>, ErrorV>(None),
        s1.len() == s0.len() + 1,
        s1.subrange(0, s0.len() as int) == s0,
{
    lemma_try_break_runs_fallback(cv, s0, s1, r);
    lemma_chain_singleton(NodeV::Op(OpV::InsNum(t)), None, s0, s1, r);
    lemma_literal_pushes_one(t, s0, s1, r);
}

/// Repeating a one-literal chain `k` times always succeeds and grows the
/// stack by exactly `k` elements.
pub proof fn lemma_repeat_literal_grows(
    t: Seq<char>,
    k: nat,
    prev: Option<Seq<char>>,
    s0: Seq<u64>,
    s1: Seq<u64>,
    r: Result<Option<Seq<char>>, ErrorV>,
)
    requires
        big_rep(NodeV::Command(CmdV::Chain(seq![NodeV::Op(OpV::InsNum(t))])), k, prev, s0, s1, r),
    ensures
        r is Ok,
        s1.len() == s0.len() + k,
    decreases k,
{
    let body = NodeV::Command(CmdV::Chain(seq![NodeV::Op(OpV::InsNum(t))]));
    if k == 0 {
    } else {
        let (smid, r1): (Seq<u64>, Result<Option<Seq<char>>, ErrorV>) = choose|
            smid: Seq<u64>,
            r1: Result<Option<Seq<char>>, ErrorV>,
        | #[trigger] step_witness(smid, r1) && rep_step(body, k, prev, s0, s1, r, smid, r1);
        assert(big_node(body, s0, smid, r1));
        assert(big_cmd(CmdV::Chain(seq![NodeV::Op(OpV::InsNum(t))]), s0, smid, r1));
        assert(big_chain(seq![NodeV::Op(OpV::InsNum(t))], None, s0, smid, r1));
        lemma_chain_singleton(NodeV::Op(OpV::InsNum(t)), None, s0, smid, r1);
        lemma_literal_pushes_one(t, s0, smid, r1);
        match r1 {
            Err(_) => {
                assert(false);
            },
            Ok(m) => {
                lemma_repeat_literal_grows(t, (k - 1) as nat, m, smid, s1, r);
            },
        }
    }
}

/// An unbounded repeat of a lone `break` stops on its very first
/// iteration: it succeeds, leaves the stack exactly as it was, and its
/// message embeds the break error's text.
pub proof fn lemma_repeat_break(fuel: nat, s0: Seq<u64>, s1: Seq<u64>, r: Result<
    Option<Seq<char>>,
    ErrorV,
>)
    requires
        fuel > 0,
        big_unb(
            NodeV::Command(CmdV::Chain(seq![NodeV::Command(CmdV::Break)])),
            fuel,
            s0,
            s1,
            r,
        ),
    ensures
        s1 == s0,
        r == Ok::<Option<Seq<char>>, ErrorV>(Some(unb_msg(ErrorV::Break))),
{
    let body = NodeV::Command(CmdV::Chain(seq![NodeV::Command(CmdV::Break)]));
    let (smid, r1): (Seq<u64>, Result<Option<Seq<char>>, ErrorV>) = choose|
        smid: Seq<u64>,
        r1: Result<Option<Seq<char>>, ErrorV>,
    | #[trigger] step_witness(smid, r1) && unb_step(body, fuel, s0, s1, r, smid, r1);
    assert(big_node(body, s0, smid, r1));
    assert(big_cmd(CmdV::Chain(seq![NodeV::Command(CmdV::Break)]), s0, smid, r1));
    assert(big_chain(seq![NodeV::Command(CmdV::Break)], None, s0, smid, r1));
    lemma_chain_singleton(NodeV::Command(CmdV::Break), None, s0, smid, r1);
    assert(smid == s0);
    assert(r1 == Err::<Option<Seq<char>>, ErrorV>(ErrorV::Break));
}

/// Unbalanced brackets in a chain body are the dedicated hard error, not a
/// token mismatch.
pub proof fn lemma_unbalanced_braces(s: Seq<char>)
    requires
        split_top(trimmed(s), 0, 0, 0, Seq::empty()) is None,
    ensures
        from_bare_spec(s) == Err::<Seq<NodeV>, ErrorV>(ErrorV::UnbBraces),
{
}

/// When no alternative matches, the aggregate error lists every
/// alternative's own error in the order tried; the bracketed-chain
/// alternative's entry — an unbalanced-brackets error among them — is kept,
/// never replaced by a generic token error.
pub proof fn lemma_aggregate_keeps_chain_error(s: Seq<char>, es: Seq<ErrorV>)
    requires
        coo_from_str_spec(s) == Err::<NodeV, ErrorV>(ErrorV::ParseEnum(es)),
    ensures
        es.len() == 19,
        chain_from_str_spec(s) == Err::<Seq<NodeV>, ErrorV>(es[9]),
{
}

/// Likewise for a malformed `display`: its token error — the one naming the
/// display construct — sits at the display alternative's position of the
/// aggregate.
pub proof fn lemma_aggregate_keeps_display_error(s: Seq<char>, es: Seq<ErrorV>)
    requires
        coo_from_str_spec(s) == Err::<NodeV, ErrorV>(ErrorV::ParseEnum(es)),
    ensures
        es.len() == 19,
        crate::command::display_from_str_spec(s) == Err::<Seq<char>, ErrorV>(es[6]),
{
}

} // verus!
