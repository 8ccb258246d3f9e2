//! The library's error type, shared by the parser and the execution engine.

use vstd::prelude::*;
use crate::chars::{dec_chars, dec_seq, string_from_chars};

verus! {

/// Why a decimal integer argument failed to parse.
#[derive(Clone, Copy, Debug, PartialEq, Eq, Structural)]
pub enum IntParseError {
    /// The argument was empty.
    Empty,
    /// A character was not an ASCII digit.
    InvalidDigit,
    /// The value does not fit in `usize`.
    PosOverflow,
}

/// The grammar construct a parse alternative was trying to match; carried by
/// [`Error::ParseToken`] so diagnostics can name what was expected.
#[derive(Clone, Copy, Debug, PartialEq, Eq, Structural)]
pub enum Construct {
    Break,
    Drop,
    Duplicate,
    Swap,
    Reverse,
    Repeat,
    Chain,
    Conditional,
    Display,
    Input,
    Print,
    Help,
    Number,
    Arith,
    Constants,
    ExponentialsUnary,
    ExponentialsBinary,
    Trigonometric,
    Cmp,
    Nop,
}

/// The usage string of each construct.
pub open spec fn construct_name(c: Construct) -> Seq<char> {
    match c {
        Construct::Break => "Break"@,
        Construct::Drop => "Drop [int]"@,
        Construct::Duplicate => "Duplicate [int]"@,
        Construct::Swap => "Swap"@,
        Construct::Reverse => "Reverse"@,
        Construct::Repeat => "Repeat(int) | Repeat"@,
        Construct::Chain => "[ <Command Or Op>; ... ]"@,
        Construct::Conditional => "if [ <First Command or Op> ] [ <Second Command or Op> ] | try [ <First Command or Op> ] [ <Command or Op on failure> ]"@,
        Construct::Display => "Display \"<Escaped String>\""@,
        Construct::Input => "Input"@,
        Construct::Print => "Print"@,
        Construct::Help => "Help"@,
        Construct::Number => "<Number>"@,
        Construct::Arith => "+ - * /"@,
        Construct::Constants => "Pi | E | Inf"@,
        Construct::ExponentialsUnary => "Log10 | Log2 | LogE | Root2"@,
        Construct::ExponentialsBinary => "Pow | LogN | RootN"@,
        Construct::Trigonometric => "Sin | Cos | Tan | ASin | ACos | ATan"@,
        Construct::Cmp => "= | != | > | >= | < | <="@,
        Construct::Nop => "<Empty>"@,
    }
}

impl Construct {
    /// The construct's usage string, as shown in diagnostics and help text.
    pub fn name(&self) -> (r: &'static str)
        ensures
            r@ == construct_name(*self),
    {
        match self {
            Construct::Break => "Break",
            Construct::Drop => "Drop [int]",
            Construct::Duplicate => "Duplicate [int]",
            Construct::Swap => "Swap",
            Construct::Reverse => "Reverse",
            Construct::Repeat => "Repeat(int) | Repeat",
            Construct::Chain => "[ <Command Or Op>; ... ]",
            Construct::Conditional => "if [ <First Command or Op> ] [ <Second Command or Op> ] | try [ <First Command or Op> ] [ <Command or Op on failure> ]",
            Construct::Display => "Display \"<Escaped String>\"",
            Construct::Input => "Input",
            Construct::Print => "Print",
            Construct::Help => "Help",
            Construct::Number => "<Number>",
            Construct::Arith => "+ - * /",
            Construct::Constants => "Pi | E | Inf",
            Construct::ExponentialsUnary => "Log10 | Log2 | LogE | Root2",
            Construct::ExponentialsBinary => "Pow | LogN | RootN",
            Construct::Trigonometric => "Sin | Cos | Tan | ASin | ACos | ATan",
            Construct::Cmp => "= | != | > | >= | < | <=",
            Construct::Nop => "<Empty>",
        }
    }
}

/// Everything that can go wrong while parsing a command or executing it
/// against the stack.
#[derive(Debug)]
pub enum Error {
    /// No grammar alternative matched; holds every alternative's own error,
    /// in the order the alternatives were tried.
    ParseEnum(Vec<Error>),
    /// A numeric literal did not match the floating point grammar.
    ParseFloat,
    /// An integer argument did not parse.
    ParseInt(IntParseError),
    /// The stack held fewer elements than an operation needed:
    /// `StackEmpty(available, needed)`.
    StackEmpty(usize, usize),
    /// The input did not match the named construct.
    ParseToken(Construct),
    /// A swap index was not inside the stack: `OOB(index, stack_len)`.
    OOB(usize, usize),
    /// An unbounded repeat ran for the maximum number of iterations without
    /// its body failing.
    InfLoop,
    /// Brackets in a chain did not balance.
    UnbBraces,
    /// The `break` command ran.
    Break,
    /// Reading from the input source or writing to the output sink failed.
    IO,
}

/// Spec-level mirror of [`Error`]: the aggregate variant holds a `Seq`
/// instead of a `Vec`, so that specification functions can build it.
pub enum ErrorV {
    ParseEnum(Seq<ErrorV>),
    ParseFloat,
    ParseInt(IntParseError),
    StackEmpty(usize, usize),
    ParseToken(Construct),
    OOB(usize, usize),
    InfLoop,
    UnbBraces,
    Break,
    IO,
}

pub open spec fn errors_view(v: Seq<Error>) -> Seq<ErrorV>
    decreases v,
{
    if v.len() == 0 {
        Seq::empty()
    } else {
        seq![v[0]@] + errors_view(v.drop_first())
    }
}

impl View for Error {
    type V = ErrorV;

    open spec fn view(&self) -> ErrorV
        decreases self,
    {
        match self {
            Error::ParseEnum(v) => ErrorV::ParseEnum(errors_view(v@)),
            Error::ParseFloat => ErrorV::ParseFloat,
            Error::ParseInt(k) => ErrorV::ParseInt(*k),
            Error::StackEmpty(a, n) => ErrorV::StackEmpty(*a, *n),
            Error::ParseToken(c) => ErrorV::ParseToken(*c),
            Error::OOB(i, l) => ErrorV::OOB(*i, *l),
            Error::InfLoop => ErrorV::InfLoop,
            Error::UnbBraces => ErrorV::UnbBraces,
            Error::Break => ErrorV::Break,
            Error::IO => ErrorV::IO,
        }
    }
}

pub broadcast proof fn lemma_errors_view_len(v: Seq<Error>)
    ensures
        #[trigger] errors_view(v).len() == v.len(),
    decreases v,
{
    if v.len() == 0 {
        assert(errors_view(v) =~= Seq::<ErrorV>::empty());
    } else {
        lemma_errors_view_len(v.drop_first());
        assert(errors_view(v) == seq![v[0]@] + errors_view(v.drop_first()));
    }
}

pub broadcast proof fn lemma_errors_view_index(v: Seq<Error>, i: int)
    requires
        0 <= i < v.len(),
    ensures
        #[trigger] errors_view(v)[i] == v[i]@,
    decreases v,
{
    lemma_errors_view_len(v);
    assert(errors_view(v) == seq![v[0]@] + errors_view(v.drop_first()));
    if i == 0 {
        assert((seq![v[0]@] + errors_view(v.drop_first()))[0] == v[0]@);
    } else {
        lemma_errors_view_index(v.drop_first(), i - 1);
        assert((seq![v[0]@] + errors_view(v.drop_first()))[i] == errors_view(v.drop_first())[i
            - 1]);
        assert(v.drop_first()[i - 1] == v[i]);
    }
}

// ---------------------------------------------------------------------------
// Rendering errors as text
// ---------------------------------------------------------------------------
/// The message of an integer-argument parse failure.
pub open spec fn int_err_msg(k: IntParseError) -> Seq<char> {
    match k {
        IntParseError::Empty => "cannot parse integer from empty string"@,
        IntParseError::InvalidDigit => "invalid digit found in string"@,
        IntParseError::PosOverflow => "number too large to fit in target type"@,
    }
}

/// The messages of a list of errors, each followed by a line break.
pub open spec fn errors_msgs(v: Seq<ErrorV>) -> Seq<char>
    decreases v, 1int, v.len(),
{
    if v.len() == 0 {
        Seq::empty()
    } else {
        error_msg(v[0]) + "\n"@ + errors_msgs(v.drop_first())
    }
}

/// The message of an error, as the surrounding program shows it.
pub open spec fn error_msg(e: ErrorV) -> Seq<char>
    decreases e, 0int, 0int,
{
    match e {
        ErrorV::ParseEnum(v) => "Failed to parse as any component of an enum: \n"@ + errors_msgs(
            v,
        ),
        ErrorV::ParseFloat => "Failed to parse float"@,
        ErrorV::ParseInt(k) => "Failed to parse integer: \n"@ + int_err_msg(k),
        ErrorV::StackEmpty(a, n) => "Not enough elements in stack to run input.\n Elements in stack ("@
            + dec_seq(a as int) + ") < Elements needed ("@ + dec_seq(n as int) + ")"@,
        ErrorV::ParseToken(c) => "Could not parse token: "@ + construct_name(c),
        ErrorV::OOB(i, l) => "Command tried to access the stack out of bounds, Index "@ + dec_seq(
            i as int,
        ) + " is not within the stack sized "@ + dec_seq(l as int),
        ErrorV::InfLoop => "Possible infinite loop detected. Repetition reached maximum limit"@,
        ErrorV::UnbBraces => "Unbalanced Braces"@,
        ErrorV::Break => "Break command was run"@,
        ErrorV::IO => "Error during IO"@,
    }
}

fn messages_of(v: &Vec<Error>, i: usize) -> (r: String)
    requires
        i <= v.len(),
    ensures
        r@ == errors_msgs(errors_view(v@).skip(i as int)),
    decreases v@, 1int, v@.len() - i,
{
    proof {
        broadcast use lemma_errors_view_len, lemma_errors_view_index;

    }
    if i == v.len() {
        proof {
            assert(errors_view(v@).skip(i as int) =~= Seq::<ErrorV>::empty());
        }
        String::new()
    } else {
        let mut m = v[i].message();
        m.append("\n");
        let rest = messages_of(v, i + 1);
        proof {
            assert(errors_view(v@).skip(i as int)[0] == v@[i as int]@);
            assert(errors_view(v@).skip(i as int).drop_first() =~= errors_view(v@).skip(
                i + 1 as int,
            ));
        }
        m.concat(rest.as_str())
    }
}

impl Error {
    /// The error's message, exactly as [`error_msg`] states it.
    pub fn message(&self) -> (r: String)
        ensures
            r@ == error_msg(self@),
        decreases self, 0int, 0int,
    {
        match self {
            Error::ParseEnum(v) => {
                let mut m = "Failed to parse as any component of an enum: \n".to_owned();
                let rest = messages_of(v, 0);
                proof {
                    assert(errors_view(v@).skip(0) =~= errors_view(v@));
                }
                m.concat(rest.as_str())
            },
            Error::ParseFloat => "Failed to parse float".to_owned(),
            Error::ParseInt(k) => {
                let mut m = "Failed to parse integer: \n".to_owned();
                match k {
                    IntParseError::Empty => m.append("cannot parse integer from empty string"),
                    IntParseError::InvalidDigit => m.append("invalid digit found in string"),
                    IntParseError::PosOverflow => m.append(
                        "number too large to fit in target type",
                    ),
                }
                m
            },
            Error::StackEmpty(a, n) => {
                let mut m = "Not enough elements in stack to run input.\n Elements in stack (".to_owned();
                let av = string_from_chars(&dec_chars(*a as u64));
                m.append(av.as_str());
                m.append(") < Elements needed (");
                let nv = string_from_chars(&dec_chars(*n as u64));
                m.append(nv.as_str());
                m.append(")");
                m
            },
            Error::ParseToken(c) => {
                let mut m = "Could not parse token: ".to_owned();
                m.append(c.name());
                m
            },
            Error::OOB(i, l) => {
                let mut m = "Command tried to access the stack out of bounds, Index ".to_owned();
                let iv = string_from_chars(&dec_chars(*i as u64));
                m.append(iv.as_str());
                m.append(" is not within the stack sized ");
                let lv = string_from_chars(&dec_chars(*l as u64));
                m.append(lv.as_str());
                m
            },
            Error::InfLoop => "Possible infinite loop detected. Repetition reached maximum limit".to_owned(),
            Error::UnbBraces => "Unbalanced Braces".to_owned(),
            Error::Break => "Break command was run".to_owned(),
            Error::IO => "Error during IO".to_owned(),
        }
    }
}

} // verus!
