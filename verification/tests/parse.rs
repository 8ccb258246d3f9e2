//! Parser tests: keyword round-trips, the numeric literal grammar, the
//! composite constructs, and the error taxonomy.

use rpncalc::command::{
    Chain, CommandEnum, CommandOrOp, Conditional, ConditionalKind, Display, Drop, Dup, Repeat,
    Reverse, Swap,
};
use rpncalc::error::{Construct, Error, IntParseError};
use rpncalc::ops::{Arith, Cmp, Constants, ExponentialsBinary, ExponentialsUnary, InsNum, NOP,
    OpEnum, Trigonometric};

fn parsed(s: &str) -> CommandOrOp {
    match CommandOrOp::from_str(s) {
        Ok(c) => c,
        Err(e) => panic!("{} did not parse: {}", s, e.message()),
    }
}

#[test]
fn parse_drop_keywords() {
    assert!(matches!(parsed("drop"), CommandOrOp::Command(CommandEnum::Drop(Drop::Count(1)))));
    assert!(matches!(parsed("D"), CommandOrOp::Command(CommandEnum::Drop(Drop::Count(1)))));
    assert!(matches!(parsed("  dRoP 4 "), CommandOrOp::Command(CommandEnum::Drop(Drop::Count(4)))));
    assert!(matches!(parsed("d all"), CommandOrOp::Command(CommandEnum::Drop(Drop::All))));
    assert!(matches!(parsed("drop +5"), CommandOrOp::Command(CommandEnum::Drop(Drop::Count(5)))));
}

#[test]
fn parse_drop_bad_count() {
    assert!(matches!(
        Drop::from_str("drop x"),
        Err(Error::ParseInt(IntParseError::InvalidDigit))
    ));
    assert!(matches!(
        Drop::from_str("drop 99999999999999999999999999"),
        Err(Error::ParseInt(IntParseError::PosOverflow))
    ));
}

#[test]
fn parse_dup_requires_count() {
    // A deliberate asymmetry of the grammar: bare `dup` is rejected, while
    // bare `drop` defaults to dropping one element.
    assert!(matches!(Dup::from_str("dup"), Err(Error::ParseToken(Construct::Duplicate))));
    assert!(matches!(parsed("dup 3"), CommandOrOp::Command(CommandEnum::Dup(Dup(3)))));
    assert!(matches!(parsed("DUPLICATE 2"), CommandOrOp::Command(CommandEnum::Dup(Dup(2)))));
    assert!(matches!(Dup::from_str("dup y"), Err(Error::ParseInt(IntParseError::InvalidDigit))));
}

#[test]
fn parse_swap_keywords() {
    assert!(matches!(parsed("swap"), CommandOrOp::Command(CommandEnum::Swap(Swap::LastTwo))));
    assert!(matches!(parsed("s"), CommandOrOp::Command(CommandEnum::Swap(Swap::LastTwo))));
    assert!(matches!(
        parsed("S 0 2"),
        CommandOrOp::Command(CommandEnum::Swap(Swap::Specified(0, 2)))
    ));
    assert!(matches!(
        Swap::from_str("swap 1"),
        Err(Error::ParseToken(Construct::Swap))
    ));
    assert!(matches!(
        Swap::from_str("swap 1 x"),
        Err(Error::ParseInt(IntParseError::InvalidDigit))
    ));
}

#[test]
fn parse_simple_keywords() {
    assert!(matches!(parsed("rev"), CommandOrOp::Command(CommandEnum::Reverse(Reverse))));
    assert!(matches!(parsed("REVERSE"), CommandOrOp::Command(CommandEnum::Reverse(Reverse))));
    assert!(matches!(parsed("break"), CommandOrOp::Command(CommandEnum::Break(_))));
    assert!(matches!(parsed("i"), CommandOrOp::Command(CommandEnum::Input(_))));
    assert!(matches!(parsed("input"), CommandOrOp::Command(CommandEnum::Input(_))));
    assert!(matches!(parsed("p"), CommandOrOp::Command(CommandEnum::Print(_))));
    assert!(matches!(parsed("print"), CommandOrOp::Command(CommandEnum::Print(_))));
}

#[test]
fn parse_ops_keywords() {
    assert!(matches!(parsed("+"), CommandOrOp::Op(OpEnum::Arith(Arith::Add))));
    assert!(matches!(parsed("-"), CommandOrOp::Op(OpEnum::Arith(Arith::Sub))));
    assert!(matches!(parsed("*"), CommandOrOp::Op(OpEnum::Arith(Arith::Mul))));
    assert!(matches!(parsed("/"), CommandOrOp::Op(OpEnum::Arith(Arith::Div))));
    assert!(matches!(parsed("pi"), CommandOrOp::Op(OpEnum::Constants(Constants::PI))));
    assert!(matches!(parsed("E"), CommandOrOp::Op(OpEnum::Constants(Constants::E))));
    assert!(matches!(parsed("log10"), CommandOrOp::Op(OpEnum::ExponentialsUnary(
        ExponentialsUnary::Log10
    ))));
    assert!(matches!(parsed("root2"), CommandOrOp::Op(OpEnum::ExponentialsUnary(
        ExponentialsUnary::Root2
    ))));
    assert!(matches!(parsed("pow"), CommandOrOp::Op(OpEnum::ExponentialsBinary(
        ExponentialsBinary::Pow
    ))));
    assert!(matches!(parsed("rootn"), CommandOrOp::Op(OpEnum::ExponentialsBinary(
        ExponentialsBinary::RootN
    ))));
    assert!(matches!(parsed("sin"), CommandOrOp::Op(OpEnum::Trigonometric(Trigonometric::Sin))));
    assert!(matches!(parsed("ATAN"), CommandOrOp::Op(OpEnum::Trigonometric(Trigonometric::ATan))));
    assert!(matches!(parsed("eq"), CommandOrOp::Op(OpEnum::Cmp(Cmp::Eq))));
    assert!(matches!(parsed("gte"), CommandOrOp::Op(OpEnum::Cmp(Cmp::Gte))));
    assert!(matches!(parsed(""), CommandOrOp::Op(OpEnum::NOP(NOP))));
    assert!(matches!(parsed("   "), CommandOrOp::Op(OpEnum::NOP(NOP))));
}

#[test]
fn parse_numeric_literals() {
    for ok in ["3.5", "-2", "+7", "1.", ".5", "1e5", "1.25e-3", "1.e5", "inf", "-Infinity", "NaN"] {
        match parsed(ok) {
            CommandOrOp::Op(OpEnum::InsNum(InsNum(text))) => {
                assert_eq!(text, ok.trim());
                assert!(text.parse::<f64>().is_ok());
            },
            other => panic!("{} parsed as {:?}", ok, other),
        }
    }
    for bad in [".", "e5", "1e", "--5", "1.2.3", "0x10"] {
        assert!(InsNum::from_str(bad).is_err(), "{} should not be a literal", bad);
    }
}

#[test]
fn parse_chain() {
    match parsed("[ 1 ; 2 ; + ]") {
        CommandOrOp::Command(CommandEnum::Chain(Chain(members))) => {
            assert_eq!(members.len(), 3);
            assert!(matches!(members[2], CommandOrOp::Op(OpEnum::Arith(Arith::Add))));
        },
        other => panic!("parsed as {:?}", other),
    }
    match Chain::from_bare("1 ; [ 2 ; 3 ]") {
        Ok(Chain(members)) => {
            assert_eq!(members.len(), 2);
            assert!(matches!(&members[1], CommandOrOp::Command(CommandEnum::Chain(_))));
        },
        Err(e) => panic!("{}", e.message()),
    }
    // a chain with no semicolon has exactly one member
    match parsed("[ 42 ]") {
        CommandOrOp::Command(CommandEnum::Chain(Chain(members))) => assert_eq!(members.len(), 1),
        other => panic!("parsed as {:?}", other),
    }
}

#[test]
fn parse_unbalanced_braces() {
    assert!(matches!(Chain::from_str("[ 1 ; [ 2 ]"), Err(Error::UnbBraces)));
    assert!(matches!(Chain::from_bare("1 ; 2 ]"), Err(Error::UnbBraces)));
    // the dedicated error also sits in the top-level aggregate, at the
    // chain alternative's position
    match CommandOrOp::from_str("[ 1 ; [ 2 ]") {
        Err(Error::ParseEnum(errs)) => {
            assert_eq!(errs.len(), 19);
            assert!(matches!(errs[9], Error::UnbBraces));
        },
        other => panic!("parsed as {:?}", other),
    }
}

#[test]
fn parse_conditional() {
    match parsed("if [ 10 ] [ 20 ]") {
        CommandOrOp::Command(CommandEnum::Conditional(Conditional { kind, first, second })) => {
            assert!(matches!(kind, ConditionalKind::If));
            assert_eq!(first.0.len(), 1);
            assert_eq!(second.0.len(), 1);
        },
        other => panic!("parsed as {:?}", other),
    }
    assert!(matches!(
        parsed("try [ break ] [ 7 ]"),
        CommandOrOp::Command(CommandEnum::Conditional(Conditional {
            kind: ConditionalKind::Try,
            ..
        }))
    ));
    // nested brackets inside a branch must balance before it closes
    match parsed("if [ [ 1 ; 2 ] ; 3 ] [ 4 ]") {
        CommandOrOp::Command(CommandEnum::Conditional(c)) => assert_eq!(c.first.0.len(), 2),
        other => panic!("parsed as {:?}", other),
    }
    // whitespace around the branches is optional
    assert!(matches!(
        parsed("if[1][2]"),
        CommandOrOp::Command(CommandEnum::Conditional(_))
    ));
    assert!(matches!(
        Conditional::from_str("if [ 1 ] [ 2 ] extra"),
        Err(Error::ParseToken(Construct::Conditional))
    ));
    assert!(matches!(
        Conditional::from_str("if [ 1 ]"),
        Err(Error::ParseToken(Construct::Conditional))
    ));
}

#[test]
fn parse_repeat() {
    match parsed("r(3) 1") {
        CommandOrOp::Command(CommandEnum::Repeat(Repeat::Bounded(3, body))) => {
            assert!(matches!(*body, CommandOrOp::Op(OpEnum::InsNum(_))));
        },
        other => panic!("parsed as {:?}", other),
    }
    assert!(matches!(
        parsed("repeat [ break ]"),
        CommandOrOp::Command(CommandEnum::Repeat(Repeat::Unbounded(_)))
    ));
    assert!(matches!(
        parsed("R 5"),
        CommandOrOp::Command(CommandEnum::Repeat(Repeat::Unbounded(_)))
    ));
    assert!(matches!(Repeat::from_str("r"), Err(Error::ParseToken(Construct::Repeat))));
    assert!(matches!(Repeat::from_str("repeat"), Err(Error::ParseToken(Construct::Repeat))));
    assert!(matches!(Repeat::from_str("rx 1"), Err(Error::ParseToken(Construct::Repeat))));
    assert!(matches!(
        Repeat::from_str("r() 1"),
        Err(Error::ParseInt(IntParseError::Empty))
    ));
    assert!(matches!(
        Repeat::from_str("r(2a) 1"),
        Err(Error::ParseInt(IntParseError::InvalidDigit))
    ));
    assert!(matches!(Repeat::from_str("r(2)1"), Err(Error::ParseToken(Construct::Repeat))));
}

#[test]
fn parse_display() {
    match parsed("display \"hello world\"") {
        CommandOrOp::Command(CommandEnum::Display(Display(text))) => {
            assert_eq!(text, "hello world");
        },
        other => panic!("parsed as {:?}", other),
    }
    match Display::from_str("display \"a\\\\b \\\" c\"") {
        Ok(Display(text)) => assert_eq!(text, "a\\b \" c"),
        Err(e) => panic!("{}", e.message()),
    }
    // no space needed between the keyword and the quote
    assert!(Display::from_str("display\"x\"").is_ok());
}

#[test]
fn parse_display_malformed() {
    // missing closing quote: a token error naming the display construct
    assert!(matches!(
        Display::from_str("display \"abc"),
        Err(Error::ParseToken(Construct::Display))
    ));
    match CommandOrOp::from_str("display \"abc") {
        Err(Error::ParseEnum(errs)) => {
            assert!(errs.iter().any(
                |e| matches!(e, Error::ParseToken(Construct::Display)),
            ));
        },
        other => panic!("parsed as {:?}", other),
    }
    // an unknown escape fails
    assert!(matches!(
        Display::from_str("display \"a\\n\""),
        Err(Error::ParseToken(Construct::Display))
    ));
}

#[test]
fn parse_unknown_token_aggregates() {
    match CommandOrOp::from_str("frobnicate") {
        Err(Error::ParseEnum(errs)) => {
            assert_eq!(errs.len(), 19);
            assert!(matches!(errs[0], Error::ParseFloat));
            assert!(matches!(errs[1], Error::ParseToken(Construct::Drop)));
            assert!(matches!(errs[18], Error::ParseToken(Construct::Nop)));
        },
        other => panic!("parsed as {:?}", other),
    }
}

#[test]
fn parse_error_messages() {
    let e = Error::StackEmpty(1, 2);
    assert_eq!(
        e.message(),
        "Not enough elements in stack to run input.\n Elements in stack (1) < Elements needed (2)"
    );
    assert_eq!(Error::Break.message(), "Break command was run");
    assert_eq!(Error::UnbBraces.message(), "Unbalanced Braces");
    assert_eq!(
        Error::OOB(7, 3).message(),
        "Command tried to access the stack out of bounds, Index 7 is not within the stack sized 3"
    );
    assert!(Error::ParseToken(Construct::Drop).message().contains("Drop [int]"));
    // the aggregate's message embeds every alternative's own message
    let aggregate = CommandOrOp::from_str("frobnicate").unwrap_err().message();
    assert!(aggregate.starts_with("Failed to parse as any component of an enum: \n"));
    assert!(aggregate.contains("Failed to parse float"));
    assert!(aggregate.contains("Could not parse token: Drop [int]"));
    assert!(aggregate.contains("Could not parse token: <Empty>"));
}
