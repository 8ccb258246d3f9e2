//! Engine tests, run against a port backed by real `f64` arithmetic.

use rpncalc::command::CommandOrOp;
use rpncalc::error::Error;
use rpncalc::exec::{Port, F64_E_BITS, F64_INF_BITS, F64_ONE_BITS, F64_PI_BITS};
use rpncalc::ops::{Arith, ExponentialsBinary, ExponentialsUnary, Trigonometric};

/// A port computing with the machine's `f64` and recording all output.
struct TestPort {
    lines: Vec<String>,
    written: Vec<String>,
}

impl TestPort {
    fn new() -> TestPort {
        TestPort { lines: Vec::new(), written: Vec::new() }
    }

    fn with_line(line: &str) -> TestPort {
        TestPort { lines: vec![line.to_string()], written: Vec::new() }
    }
}

impl Port for TestPort {
    fn read_line(&mut self) -> Option<String> {
        if self.lines.is_empty() {
            None
        } else {
            Some(self.lines.remove(0))
        }
    }

    fn write_line(&mut self, text: &str) -> bool {
        self.written.push(text.to_string());
        true
    }

    fn float_value(&mut self, text: &str) -> u64 {
        text.trim().parse::<f64>().map(|v| v.to_bits()).unwrap_or(f64::NAN.to_bits())
    }

    fn format_value(&mut self, bits: u64) -> String {
        format!("{}", f64::from_bits(bits))
    }

    fn arith_value(&mut self, op: &Arith, lhs: u64, rhs: u64) -> u64 {
        let l = f64::from_bits(lhs);
        let r = f64::from_bits(rhs);
        match op {
            Arith::Add => l + r,
            Arith::Sub => l - r,
            Arith::Mul => l * r,
            Arith::Div => l / r,
        }
        .to_bits()
    }

    fn exp_unary_value(&mut self, op: &ExponentialsUnary, x: u64) -> u64 {
        let v = f64::from_bits(x);
        match op {
            ExponentialsUnary::Log10 => v.log10(),
            ExponentialsUnary::Log2 => v.log2(),
            ExponentialsUnary::LogE => v.ln(),
            ExponentialsUnary::Root2 => v.sqrt(),
        }
        .to_bits()
    }

    fn exp_binary_value(&mut self, op: &ExponentialsBinary, lhs: u64, rhs: u64) -> u64 {
        let l = f64::from_bits(lhs);
        let r = f64::from_bits(rhs);
        match op {
            ExponentialsBinary::Pow => l.powf(r),
            ExponentialsBinary::LogN => r.log(l),
            ExponentialsBinary::RootN => r.powf(l.recip()),
        }
        .to_bits()
    }

    fn trig_value(&mut self, op: &Trigonometric, x: u64) -> u64 {
        let v = f64::from_bits(x);
        match op {
            Trigonometric::Sin => v.sin(),
            Trigonometric::Cos => v.cos(),
            Trigonometric::Tan => v.tan(),
            Trigonometric::ASin => v.asin(),
            Trigonometric::ACos => v.acos(),
            Trigonometric::ATan => v.atan(),
        }
        .to_bits()
    }
}

fn stack_of(values: &[f64]) -> Vec<u64> {
    values.iter().map(|v| v.to_bits()).collect()
}

fn floats(stack: &Vec<u64>) -> Vec<f64> {
    stack.iter().map(|b| f64::from_bits(*b)).collect()
}

fn run(line: &str, stack: &mut Vec<u64>) -> Result<Option<String>, Error> {
    let cmd = match CommandOrOp::from_str(line) {
        Ok(c) => c,
        Err(e) => panic!("{} did not parse: {}", line, e.message()),
    };
    let mut port = TestPort::new();
    cmd.comm(stack, &mut port)
}

#[test]
fn exec_literal_pushes_itself() {
    let mut stack = stack_of(&[9.0]);
    assert!(matches!(run("3.25", &mut stack), Ok(None)));
    assert_eq!(floats(&stack), vec![9.0, 3.25]);
    assert!(matches!(run("-2e3", &mut stack), Ok(None)));
    assert_eq!(floats(&stack), vec![9.0, 3.25, -2000.0]);
    assert!(matches!(run("inf", &mut stack), Ok(None)));
    assert_eq!(*stack.last().unwrap(), F64_INF_BITS);
}

#[test]
fn exec_arithmetic() {
    let mut stack = Vec::new();
    assert!(matches!(run("[ 2 ; 3 ; + ]", &mut stack), Ok(None)));
    assert_eq!(floats(&stack), vec![5.0]);
    let mut stack = Vec::new();
    run("[ 2 ; 3 ; - ]", &mut stack).unwrap();
    assert_eq!(floats(&stack), vec![-1.0]);
    let mut stack = Vec::new();
    run("[ 4 ; 2.5 ; * ]", &mut stack).unwrap();
    assert_eq!(floats(&stack), vec![10.0]);
    let mut stack = Vec::new();
    run("[ 1 ; 8 ; / ]", &mut stack).unwrap();
    assert_eq!(floats(&stack), vec![0.125]);
}

#[test]
fn exec_exponentials_and_trig() {
    let mut stack = Vec::new();
    run("[ 2 ; 10 ; pow ]", &mut stack).unwrap();
    assert_eq!(floats(&stack), vec![1024.0]);
    let mut stack = Vec::new();
    run("[ 2 ; 8 ; logn ]", &mut stack).unwrap();
    assert_eq!(floats(&stack), vec![3.0]);
    let mut stack = Vec::new();
    run("[ 3 ; 27 ; rootn ]", &mut stack).unwrap();
    assert_eq!(floats(&stack), vec![3.0]);
    let mut stack = Vec::new();
    run("[ 16 ; root2 ]", &mut stack).unwrap();
    assert_eq!(floats(&stack), vec![4.0]);
    let mut stack = Vec::new();
    run("[ 0 ; sin ]", &mut stack).unwrap();
    assert_eq!(floats(&stack), vec![0.0]);
    let mut stack = Vec::new();
    run("[ 0 ; cos ]", &mut stack).unwrap();
    assert_eq!(floats(&stack), vec![1.0]);
}

#[test]
fn exec_underflow_reports_length_and_arity() {
    let mut stack = stack_of(&[1.0]);
    assert!(matches!(run("+", &mut stack), Err(Error::StackEmpty(1, 2))));
    assert_eq!(floats(&stack), vec![1.0]);
    let mut empty: Vec<u64> = Vec::new();
    assert!(matches!(run("sin", &mut empty), Err(Error::StackEmpty(0, 1))));
    assert!(empty.is_empty());
    assert!(matches!(run("eq", &mut empty), Err(Error::StackEmpty(0, 2))));
}

#[test]
fn exec_constants_bits() {
    assert_eq!(F64_PI_BITS, std::f64::consts::PI.to_bits());
    assert_eq!(F64_E_BITS, std::f64::consts::E.to_bits());
    assert_eq!(F64_INF_BITS, f64::INFINITY.to_bits());
    assert_eq!(F64_ONE_BITS, 1.0f64.to_bits());
    let mut stack = Vec::new();
    run("pi", &mut stack).unwrap();
    run("e", &mut stack).unwrap();
    run("inf", &mut stack).unwrap();
    assert_eq!(floats(&stack), vec![std::f64::consts::PI, std::f64::consts::E, f64::INFINITY]);
}

#[test]
fn exec_comparisons_match_f64() {
    let cases: [(f64, f64); 7] = [
        (1.0, 2.0),
        (2.0, 1.0),
        (1.5, 1.5),
        (0.0, -0.0),
        (f64::NAN, 1.0),
        (f64::NAN, f64::NAN),
        (f64::NEG_INFINITY, f64::INFINITY),
    ];
    for (l, r) in cases {
        for (kw, expect) in [
            ("eq", l == r),
            ("neq", l != r),
            ("gt", l > r),
            ("gte", l >= r),
            ("lt", l < r),
            ("lte", l <= r),
        ] {
            let mut stack = stack_of(&[l, r]);
            run(kw, &mut stack).unwrap();
            let want = if expect { 1.0 } else { 0.0 };
            assert_eq!(floats(&stack), vec![want], "{} {} {}", l, kw, r);
        }
    }
}

#[test]
fn exec_drop_lengths() {
    let mut stack = stack_of(&[1.0, 2.0, 3.0]);
    run("drop 2", &mut stack).unwrap();
    assert_eq!(floats(&stack), vec![1.0]);
    let mut stack = stack_of(&[1.0, 2.0, 3.0]);
    run("drop 5", &mut stack).unwrap();
    assert!(stack.is_empty());
    let mut stack = stack_of(&[1.0, 2.0, 3.0]);
    run("drop all", &mut stack).unwrap();
    assert!(stack.is_empty());
    let mut empty: Vec<u64> = Vec::new();
    assert!(matches!(run("drop", &mut empty), Err(Error::StackEmpty(0, 1))));
    assert!(matches!(run("drop 0", &mut empty), Ok(None)));
}

#[test]
fn exec_dup() {
    let mut stack = stack_of(&[5.0, 7.0]);
    run("dup 3", &mut stack).unwrap();
    assert_eq!(floats(&stack), vec![5.0, 7.0, 7.0, 7.0, 7.0]);
    let mut empty: Vec<u64> = Vec::new();
    assert!(matches!(run("dup 1", &mut empty), Err(Error::StackEmpty(0, 1))));
}

#[test]
fn exec_swap() {
    let mut stack = stack_of(&[1.0, 2.0, 3.0]);
    run("swap", &mut stack).unwrap();
    assert_eq!(floats(&stack), vec![1.0, 3.0, 2.0]);
    let mut stack = stack_of(&[1.0, 2.0, 3.0]);
    run("s 0 2", &mut stack).unwrap();
    assert_eq!(floats(&stack), vec![3.0, 2.0, 1.0]);
    // applying the same swap twice restores the original order
    run("s 0 2", &mut stack).unwrap();
    assert_eq!(floats(&stack), vec![1.0, 2.0, 3.0]);
    assert!(matches!(run("s 0 5", &mut stack), Err(Error::OOB(5, 3))));
    let mut one = stack_of(&[1.0]);
    assert!(matches!(run("swap", &mut one), Err(Error::StackEmpty(1, 2))));
}

#[test]
fn exec_reverse() {
    let mut stack = stack_of(&[1.0, 2.0, 3.0]);
    run("rev", &mut stack).unwrap();
    assert_eq!(floats(&stack), vec![3.0, 2.0, 1.0]);
    let mut empty: Vec<u64> = Vec::new();
    assert!(matches!(run("rev", &mut empty), Ok(None)));
}

#[test]
fn exec_if_selects_branch() {
    // top of stack 0.0: pops the selector and runs the first chain
    let mut stack = stack_of(&[5.0, 0.0]);
    run("if [ 10 ] [ 20 ]", &mut stack).unwrap();
    assert_eq!(floats(&stack), vec![5.0, 10.0]);
    // any nonzero top runs the second chain
    let mut stack = stack_of(&[5.0, 3.0]);
    run("if [ 10 ] [ 20 ]", &mut stack).unwrap();
    assert_eq!(floats(&stack), vec![5.0, 20.0]);
    // a negative zero counts as zero, a NaN as nonzero
    let mut stack = stack_of(&[-0.0]);
    run("if [ 10 ] [ 20 ]", &mut stack).unwrap();
    assert_eq!(floats(&stack), vec![10.0]);
    let mut stack = stack_of(&[f64::NAN]);
    run("if [ 10 ] [ 20 ]", &mut stack).unwrap();
    assert_eq!(floats(&stack), vec![20.0]);
    let mut empty: Vec<u64> = Vec::new();
    assert!(matches!(run("if [ 10 ] [ 20 ]", &mut empty), Err(Error::StackEmpty(0, 1))));
}

#[test]
fn exec_try_break_takes_fallback() {
    for start in [vec![], vec![4.0], vec![1.0, 2.0, 3.0]] {
        let mut stack = stack_of(&start);
        assert!(matches!(run("try [ break ] [ 7 ]", &mut stack), Ok(None)));
        let mut expect = start.clone();
        expect.push(7.0);
        assert_eq!(floats(&stack), expect);
    }
}

#[test]
fn exec_try_keeps_partial_mutation() {
    // the attempt pushes 1 and then fails; its mutation is kept and the
    // fallback runs on the mutated stack
    let mut stack = Vec::new();
    assert!(matches!(run("try [ 1 ; break ] [ 2 ]", &mut stack), Ok(None)));
    assert_eq!(floats(&stack), vec![1.0, 2.0]);
}

#[test]
fn exec_repeat_bounded() {
    let mut stack = Vec::new();
    assert!(matches!(run("repeat(3) [ 1 ]", &mut stack), Ok(None)));
    assert_eq!(floats(&stack), vec![1.0, 1.0, 1.0]);
    let mut stack = Vec::new();
    assert!(matches!(run("r(0) 1", &mut stack), Ok(None)));
    assert!(stack.is_empty());
    // the body's failure stops the loop and propagates
    let mut stack = stack_of(&[1.0, 2.0, 3.0]);
    assert!(matches!(run("r(5) [ p ]", &mut stack), Err(Error::StackEmpty(0, 1))));
    assert!(stack.is_empty());
}

#[test]
fn exec_repeat_unbounded_break() {
    let start = stack_of(&[1.0, 2.0]);
    let mut stack = start.clone();
    let msg = run("repeat [ break ]", &mut stack).unwrap().unwrap();
    assert_eq!(
        msg,
        "Ended Repetitions with the following error: \nBreak command was run"
    );
    assert_eq!(stack, start);
}

#[test]
fn exec_repeat_unbounded_drains() {
    // the body fails once the stack is empty; everything before that ran
    let mut stack = stack_of(&[1.0, 2.0, 3.0]);
    let msg = run("repeat [ d ]", &mut stack).unwrap().unwrap();
    assert!(msg.contains("Not enough elements in stack"));
    assert!(stack.is_empty());
}

#[test]
fn exec_repeat_nested() {
    let mut stack = Vec::new();
    assert!(matches!(run("r(2) r(3) 1", &mut stack), Ok(None)));
    assert_eq!(floats(&stack), vec![1.0; 6]);
}

#[test]
fn exec_repeat_hits_cap() {
    // a body that never fails: the repeat gives up at the iteration cap
    let mut stack = Vec::new();
    assert!(matches!(run("repeat 1", &mut stack), Err(Error::InfLoop)));
    assert_eq!(stack.len(), 1000000);
}

#[test]
fn exec_conditional_branch_text_is_uppercased() {
    // the conditional scanner reads its branches from the upper-cased
    // input, so quoted text inside a branch comes out upper-cased — a
    // deliberate quirk of the grammar
    let mut stack = stack_of(&[0.0]);
    let cmd = CommandOrOp::from_str("if [ display \"abc\" ] [ 1 ]").unwrap();
    let mut port = TestPort::new();
    let msg = cmd.comm(&mut stack, &mut port).unwrap();
    assert_eq!(msg.as_deref(), Some("ABC"));
}

#[test]
fn exec_chain_stops_at_first_failure() {
    let mut stack = Vec::new();
    assert!(matches!(run("[ 1 ; break ; 2 ]", &mut stack), Err(Error::Break)));
    assert_eq!(floats(&stack), vec![1.0]);
}

#[test]
fn exec_chain_message_is_last() {
    let mut stack = Vec::new();
    let cmd = CommandOrOp::from_str("[ display \"first\" ; display \"second\" ]").unwrap();
    let mut port = TestPort::new();
    let msg = cmd.comm(&mut stack, &mut port).unwrap();
    assert_eq!(msg.as_deref(), Some("second"));
    assert_eq!(port.written, vec!["first".to_string(), "second".to_string()]);
    // a trailing member without a message clears the chain's message
    let cmd = CommandOrOp::from_str("[ display \"first\" ; 1 ]").unwrap();
    let msg = cmd.comm(&mut stack, &mut TestPort::new()).unwrap();
    assert_eq!(msg, None);
}

#[test]
fn exec_display_and_print() {
    let mut stack = stack_of(&[3.5]);
    let cmd = CommandOrOp::from_str("p").unwrap();
    let mut port = TestPort::new();
    let msg = cmd.comm(&mut stack, &mut port).unwrap();
    assert_eq!(msg.as_deref(), Some("3.5"));
    assert!(stack.is_empty());
    assert_eq!(port.written, vec!["3.5".to_string()]);
    let mut empty: Vec<u64> = Vec::new();
    assert!(matches!(run("print", &mut empty), Err(Error::StackEmpty(0, 1))));
}

#[test]
fn exec_input_pushes_parsed_line() {
    let mut stack = Vec::new();
    let cmd = CommandOrOp::from_str("input").unwrap();
    let mut port = TestPort::with_line(" 42.5 \n");
    assert!(matches!(cmd.comm(&mut stack, &mut port), Ok(None)));
    assert_eq!(floats(&stack), vec![42.5]);
    // an unparsable line is a float parse error
    let mut port = TestPort::with_line("not a number");
    assert!(matches!(cmd.comm(&mut stack, &mut port), Err(Error::ParseFloat)));
    // a failed read is an IO error
    let mut port = TestPort::new();
    assert!(matches!(cmd.comm(&mut stack, &mut port), Err(Error::IO)));
}

/// A port whose sink always fails.
struct DeafPort;

impl Port for DeafPort {
    fn read_line(&mut self) -> Option<String> {
        None
    }

    fn write_line(&mut self, _text: &str) -> bool {
        false
    }

    fn float_value(&mut self, _text: &str) -> u64 {
        0
    }

    fn format_value(&mut self, _bits: u64) -> String {
        String::new()
    }

    fn arith_value(&mut self, _op: &Arith, _lhs: u64, _rhs: u64) -> u64 {
        0
    }

    fn exp_unary_value(&mut self, _op: &ExponentialsUnary, _x: u64) -> u64 {
        0
    }

    fn exp_binary_value(&mut self, _op: &ExponentialsBinary, _lhs: u64, _rhs: u64) -> u64 {
        0
    }

    fn trig_value(&mut self, _op: &Trigonometric, _x: u64) -> u64 {
        0
    }
}

#[test]
fn exec_failed_write_is_io_error() {
    let mut stack = Vec::new();
    let cmd = CommandOrOp::from_str("display \"x\"").unwrap();
    assert!(matches!(cmd.comm(&mut stack, &mut DeafPort), Err(Error::IO)));
    assert!(stack.is_empty());
    let mut stack = stack_of(&[1.0]);
    let cmd = CommandOrOp::from_str("p").unwrap();
    assert!(matches!(cmd.comm(&mut stack, &mut DeafPort), Err(Error::IO)));
    // the element was already popped when the write failed
    assert!(stack.is_empty());
}

#[test]
fn exec_script_like_chain() {
    // the batch format: a whole file is the interior of one chain
    let mut stack = Vec::new();
    let chain = rpncalc::command::Chain::from_bare("2 ; 3 ; + ; 4 ; *").unwrap();
    let r = chain.comm(&mut stack, &mut TestPort::new());
    assert!(matches!(r, Ok(None)));
    assert_eq!(floats(&stack), vec![20.0]);
}
