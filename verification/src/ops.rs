//! The primitive numeric operations: numeric literals, arithmetic,
//! constants, exponentials, trigonometry, comparisons, and the no-op.
//!
//! Each operation family parses from a fixed keyword set; the parse
//! functions' contracts state exactly which spellings are accepted.

use vstd::prelude::*;
use crate::chars::{
    chars_of, check_float_lit, eq_lit, is_float_lit, string_from_chars, trim_chars, trimmed,
    upper_chars, upper_seq,
};
use crate::error::{Construct, Error, ErrorV};

verus! {

/// The view of an optional string.
pub open spec fn opt_str_view(o: Option<&'static str>) -> Option<Seq<char>> {
    match o {
        Some(s) => Some(s@),
        None => None,
    }
}

/// Per-command metadata consumed by the help index: an optional short
/// spelling, the usage string, and a description.  The spec functions name
/// each implementor's metadata, and the accessors' contracts tie the
/// returned strings to them, so the registry tables can pin their contents.
pub trait CommandDesc {
    spec fn spec_short_name() -> Option<Seq<char>>;

    spec fn spec_name() -> Seq<char>;

    spec fn spec_description() -> Seq<char>;

    fn short_name() -> (r: Option<&'static str>)
        ensures
            opt_str_view(r) == Self::spec_short_name(),
    ;

    fn name() -> (r: &'static str)
        ensures
            r@ == Self::spec_name(),
    ;

    fn description() -> (r: &'static str)
        ensures
            r@ == Self::spec_description(),
    ;
}

/// Whether a registry row holds exactly the metadata of command `T`.
pub open spec fn row_is<T: CommandDesc>(
    row: (Option<&'static str>, &'static str, &'static str),
) -> bool {
    &&& opt_str_view(row.0) == T::spec_short_name()
    &&& row.1@ == T::spec_name()
    &&& row.2@ == T::spec_description()
}

// ---------------------------------------------------------------------------
// The operation kinds
// ---------------------------------------------------------------------------
/// Basic binary arithmetic.
#[derive(Clone, Copy, Debug, PartialEq, Eq, Structural)]
pub enum Arith {
    Add,
    Sub,
    Mul,
    Div,
}

/// Numeric constants pushed onto the stack.
#[derive(Clone, Copy, Debug, PartialEq, Eq, Structural)]
pub enum Constants {
    E,
    PI,
    Inf,
}

/// Exponential operations of one argument.
#[derive(Clone, Copy, Debug, PartialEq, Eq, Structural)]
pub enum ExponentialsUnary {
    Log10,
    Log2,
    LogE,
    Root2,
}

/// Exponential operations of two arguments.
#[derive(Clone, Copy, Debug, PartialEq, Eq, Structural)]
pub enum ExponentialsBinary {
    Pow,
    LogN,
    RootN,
}

/// Forward and inverse trigonometric functions.
#[derive(Clone, Copy, Debug, PartialEq, Eq, Structural)]
pub enum Trigonometric {
    Sin,
    Cos,
    Tan,
    ASin,
    ACos,
    ATan,
}

/// Binary comparisons; they push `1.0` for true and `0.0` for false.
#[derive(Clone, Copy, Debug, PartialEq, Eq, Structural)]
pub enum Cmp {
    Eq,
    Neq,
    Gt,
    Gte,
    Lt,
    Lte,
}

/// The empty command: does nothing.
#[derive(Clone, Copy, Debug, PartialEq, Eq, Structural)]
pub struct NOP;

/// A numeric literal, kept as its (trimmed) source text, which is guaranteed
/// to match the floating point grammar [`is_float_lit`].
#[derive(Clone, Debug)]
pub struct InsNum(pub String);

impl View for InsNum {
    type V = Seq<char>;

    open spec fn view(&self) -> Seq<char> {
        self.0@
    }
}

/// One primitive operation of any family.
#[derive(Clone, Debug)]
pub enum OpEnum {
    InsNum(InsNum),
    Arith(Arith),
    Constants(Constants),
    ExponentialsUnary(ExponentialsUnary),
    ExponentialsBinary(ExponentialsBinary),
    Trigonometric(Trigonometric),
    Cmp(Cmp),
    NOP(NOP),
}

/// Spec-level mirror of [`OpEnum`]: the literal is a character sequence.
pub enum OpV {
    InsNum(Seq<char>),
    Arith(Arith),
    Constants(Constants),
    ExponentialsUnary(ExponentialsUnary),
    ExponentialsBinary(ExponentialsBinary),
    Trigonometric(Trigonometric),
    Cmp(Cmp),
    NOP,
}

impl View for OpEnum {
    type V = OpV;

    open spec fn view(&self) -> OpV {
        match self {
            OpEnum::InsNum(n) => OpV::InsNum(n@),
            OpEnum::Arith(a) => OpV::Arith(*a),
            OpEnum::Constants(c) => OpV::Constants(*c),
            OpEnum::ExponentialsUnary(e) => OpV::ExponentialsUnary(*e),
            OpEnum::ExponentialsBinary(e) => OpV::ExponentialsBinary(*e),
            OpEnum::Trigonometric(t) => OpV::Trigonometric(*t),
            OpEnum::Cmp(c) => OpV::Cmp(*c),
            OpEnum::NOP(_) => OpV::NOP,
        }
    }
}

// ---------------------------------------------------------------------------
// Parsing: numeric literals
// ---------------------------------------------------------------------------
/// What parsing a numeric literal yields: the trimmed text when it matches
/// the floating point grammar, and a float parse error otherwise.
pub open spec fn insnum_from_str_spec(s: Seq<char>) -> Result<Seq<char>, ErrorV> {
    if is_float_lit(trimmed(s)) {
        Ok(trimmed(s))
    } else {
        Err(ErrorV::ParseFloat)
    }
}

impl InsNum {
    pub(crate) fn from_chars(cs: &Vec<char>) -> (r: Result<InsNum, Error>)
        ensures
            match r {
                Ok(n) => insnum_from_str_spec(cs@) == Ok::<Seq<char>, ErrorV>(n@),
                Err(e) => insnum_from_str_spec(cs@) == Err::<Seq<char>, ErrorV>(e@),
            },
    {
        let t = trim_chars(cs);
        if check_float_lit(&t) {
            Ok(InsNum(string_from_chars(&t)))
        } else {
            Err(Error::ParseFloat)
        }
    }

    /// Parses a numeric literal, accepting exactly the floating point
    /// grammar (after trimming).
    pub fn from_str(s: &str) -> (r: Result<InsNum, Error>)
        ensures
            match r {
                Ok(n) => insnum_from_str_spec(s@) == Ok::<Seq<char>, ErrorV>(n@),
                Err(e) => insnum_from_str_spec(s@) == Err::<Seq<char>, ErrorV>(e@),
            },
    {
        let cs = chars_of(s);
        InsNum::from_chars(&cs)
    }
}

impl CommandDesc for InsNum {
    open spec fn spec_short_name() -> Option<Seq<char>> {
        None
    }

    open spec fn spec_name() -> Seq<char> {
        "<Number>"@
    }

    open spec fn spec_description() -> Seq<char> {
        "Just entering a Floating Point number will add it to the bottom of the stack"@
    }

    fn short_name() -> Option<&'static str> {
        None
    }

    fn name() -> &'static str {
        "<Number>"
    }

    fn description() -> &'static str {
        "Just entering a Floating Point number will add it to the bottom of the stack"
    }
}

// ---------------------------------------------------------------------------
// Parsing: symbolic arithmetic operators
// ---------------------------------------------------------------------------
pub open spec fn arith_from_str_spec(s: Seq<char>) -> Result<Arith, ErrorV> {
    let t = trimmed(s);
    if t == "+"@ {
        Ok(Arith::Add)
    } else if t == "-"@ {
        Ok(Arith::Sub)
    } else if t == "*"@ {
        Ok(Arith::Mul)
    } else if t == "/"@ {
        Ok(Arith::Div)
    } else {
        Err(ErrorV::ParseToken(Construct::Arith))
    }
}

impl Arith {
    pub(crate) fn from_chars(cs: &Vec<char>) -> (r: Result<Arith, Error>)
        ensures
            match r {
                Ok(a) => arith_from_str_spec(cs@) == Ok::<Arith, ErrorV>(a),
                Err(e) => arith_from_str_spec(cs@) == Err::<Arith, ErrorV>(e@),
            },
    {
        let t = trim_chars(cs);
        if eq_lit(&t, "+") {
            Ok(Arith::Add)
        } else if eq_lit(&t, "-") {
            Ok(Arith::Sub)
        } else if eq_lit(&t, "*") {
            Ok(Arith::Mul)
        } else if eq_lit(&t, "/") {
            Ok(Arith::Div)
        } else {
            Err(Error::ParseToken(Construct::Arith))
        }
    }

    /// Parses one of the four symbolic operators, case-sensitively.
    pub fn from_str(s: &str) -> (r: Result<Arith, Error>)
        ensures
            match r {
                Ok(a) => arith_from_str_spec(s@) == Ok::<Arith, ErrorV>(a),
                Err(e) => arith_from_str_spec(s@) == Err::<Arith, ErrorV>(e@),
            },
    {
        let cs = chars_of(s);
        Arith::from_chars(&cs)
    }
}

impl CommandDesc for Arith {
    open spec fn spec_short_name() -> Option<Seq<char>> {
        None
    }

    open spec fn spec_name() -> Seq<char> {
        "+ - * /"@
    }

    open spec fn spec_description() -> Seq<char> {
        "Basic Arithmetic operations"@
    }

    fn short_name() -> Option<&'static str> {
        None
    }

    fn name() -> &'static str {
        "+ - * /"
    }

    fn description() -> &'static str {
        "Basic Arithmetic operations"
    }
}

// ---------------------------------------------------------------------------
// Parsing: keyword-matched operation families
// ---------------------------------------------------------------------------
pub open spec fn constants_from_str_spec(s: Seq<char>) -> Result<Constants, ErrorV> {
    let u = upper_seq(trimmed(s));
    if u == "E"@ {
        Ok(Constants::E)
    } else if u == "PI"@ {
        Ok(Constants::PI)
    } else if u == "INF"@ {
        Ok(Constants::Inf)
    } else {
        Err(ErrorV::ParseToken(Construct::Constants))
    }
}

impl Constants {
    pub(crate) fn from_chars(cs: &Vec<char>) -> (r: Result<Constants, Error>)
        ensures
            match r {
                Ok(c) => constants_from_str_spec(cs@) == Ok::<Constants, ErrorV>(c),
                Err(e) => constants_from_str_spec(cs@) == Err::<Constants, ErrorV>(e@),
            },
    {
        let t = trim_chars(cs);
        let u = upper_chars(&t);
        if eq_lit(&u, "E") {
            Ok(Constants::E)
        } else if eq_lit(&u, "PI") {
            Ok(Constants::PI)
        } else if eq_lit(&u, "INF") {
            Ok(Constants::Inf)
        } else {
            Err(Error::ParseToken(Construct::Constants))
        }
    }

    /// Parses a constant's keyword, case-insensitively.
    pub fn from_str(s: &str) -> (r: Result<Constants, Error>)
        ensures
            match r {
                Ok(c) => constants_from_str_spec(s@) == Ok::<Constants, ErrorV>(c),
                Err(e) => constants_from_str_spec(s@) == Err::<Constants, ErrorV>(e@),
            },
    {
        let cs = chars_of(s);
        Constants::from_chars(&cs)
    }
}

impl CommandDesc for Constants {
    open spec fn spec_short_name() -> Option<Seq<char>> {
        None
    }

    open spec fn spec_name() -> Seq<char> {
        "Pi | E | Inf"@
    }

    open spec fn spec_description() -> Seq<char> {
        "Constants made available for use"@
    }

    fn short_name() -> Option<&'static str> {
        None
    }

    fn name() -> &'static str {
        "Pi | E | Inf"
    }

    fn description() -> &'static str {
        "Constants made available for use"
    }
}

pub open spec fn exp_unary_from_str_spec(s: Seq<char>) -> Result<ExponentialsUnary, ErrorV> {
    let u = upper_seq(trimmed(s));
    if u == "LOG10"@ {
        Ok(ExponentialsUnary::Log10)
    } else if u == "LOG2"@ {
        Ok(ExponentialsUnary::Log2)
    } else if u == "LOGE"@ {
        Ok(ExponentialsUnary::LogE)
    } else if u == "ROOT2"@ {
        Ok(ExponentialsUnary::Root2)
    } else {
        Err(ErrorV::ParseToken(Construct::ExponentialsUnary))
    }
}

impl ExponentialsUnary {
    pub(crate) fn from_chars(cs: &Vec<char>) -> (r: Result<ExponentialsUnary, Error>)
        ensures
            match r {
                Ok(c) => exp_unary_from_str_spec(cs@) == Ok::<ExponentialsUnary, ErrorV>(c),
                Err(e) => exp_unary_from_str_spec(cs@) == Err::<ExponentialsUnary, ErrorV>(e@),
            },
    {
        let t = trim_chars(cs);
        let u = upper_chars(&t);
        if eq_lit(&u, "LOG10") {
            Ok(ExponentialsUnary::Log10)
        } else if eq_lit(&u, "LOG2") {
            Ok(ExponentialsUnary::Log2)
        } else if eq_lit(&u, "LOGE") {
            Ok(ExponentialsUnary::LogE)
        } else if eq_lit(&u, "ROOT2") {
            Ok(ExponentialsUnary::Root2)
        } else {
            Err(Error::ParseToken(Construct::ExponentialsUnary))
        }
    }

    /// Parses a unary exponential's keyword, case-insensitively.
    pub fn from_str(s: &str) -> (r: Result<ExponentialsUnary, Error>)
        ensures
            match r {
                Ok(c) => exp_unary_from_str_spec(s@) == Ok::<ExponentialsUnary, ErrorV>(c),
                Err(e) => exp_unary_from_str_spec(s@) == Err::<ExponentialsUnary, ErrorV>(e@),
            },
    {
        let cs = chars_of(s);
        ExponentialsUnary::from_chars(&cs)
    }
}

impl CommandDesc for ExponentialsUnary {
    open spec fn spec_short_name() -> Option<Seq<char>> {
        None
    }

    open spec fn spec_name() -> Seq<char> {
        "Log10 | Log2 | LogE | Root2"@
    }

    open spec fn spec_description() -> Seq<char> {
        "Exponential operations that take one argument"@
    }

    fn short_name() -> Option<&'static str> {
        None
    }

    fn name() -> &'static str {
        "Log10 | Log2 | LogE | Root2"
    }

    fn description() -> &'static str {
        "Exponential operations that take one argument"
    }
}

pub open spec fn exp_binary_from_str_spec(s: Seq<char>) -> Result<ExponentialsBinary, ErrorV> {
    let u = upper_seq(trimmed(s));
    if u == "POW"@ {
        Ok(ExponentialsBinary::Pow)
    } else if u == "LOGN"@ {
        Ok(ExponentialsBinary::LogN)
    } else if u == "ROOTN"@ {
        Ok(ExponentialsBinary::RootN)
    } else {
        Err(ErrorV::ParseToken(Construct::ExponentialsBinary))
    }
}

impl ExponentialsBinary {
    pub(crate) fn from_chars(cs: &Vec<char>) -> (r: Result<ExponentialsBinary, Error>)
        ensures
            match r {
                Ok(c) => exp_binary_from_str_spec(cs@) == Ok::<ExponentialsBinary, ErrorV>(c),
                Err(e) => exp_binary_from_str_spec(cs@) == Err::<ExponentialsBinary, ErrorV>(e@),
            },
    {
        let t = trim_chars(cs);
        let u = upper_chars(&t);
        if eq_lit(&u, "POW") {
            Ok(ExponentialsBinary::Pow)
        } else if eq_lit(&u, "LOGN") {
            Ok(ExponentialsBinary::LogN)
        } else if eq_lit(&u, "ROOTN") {
            Ok(ExponentialsBinary::RootN)
        } else {
            Err(Error::ParseToken(Construct::ExponentialsBinary))
        }
    }

    /// Parses a binary exponential's keyword, case-insensitively.
    pub fn from_str(s: &str) -> (r: Result<ExponentialsBinary, Error>)
        ensures
            match r {
                Ok(c) => exp_binary_from_str_spec(s@) == Ok::<ExponentialsBinary, ErrorV>(c),
                Err(e) => exp_binary_from_str_spec(s@) == Err::<ExponentialsBinary, ErrorV>(e@),
            },
    {
        let cs = chars_of(s);
        ExponentialsBinary::from_chars(&cs)
    }
}

impl CommandDesc for ExponentialsBinary {
    open spec fn spec_short_name() -> Option<Seq<char>> {
        None
    }

    open spec fn spec_name() -> Seq<char> {
        "Pow | LogN | RootN"@
    }

    open spec fn spec_description() -> Seq<char> {
        "Exponential operations that take two arguments"@
    }

    fn short_name() -> Option<&'static str> {
        None
    }

    fn name() -> &'static str {
        "Pow | LogN | RootN"
    }

    fn description() -> &'static str {
        "Exponential operations that take two arguments"
    }
}

pub open spec fn trig_from_str_spec(s: Seq<char>) -> Result<Trigonometric, ErrorV> {
    let u = upper_seq(trimmed(s));
    if u == "SIN"@ {
        Ok(Trigonometric::Sin)
    } else if u == "COS"@ {
        Ok(Trigonometric::Cos)
    } else if u == "TAN"@ {
        Ok(Trigonometric::Tan)
    } else if u == "ASIN"@ {
        Ok(Trigonometric::ASin)
    } else if u == "ACOS"@ {
        Ok(Trigonometric::ACos)
    } else if u == "ATAN"@ {
        Ok(Trigonometric::ATan)
    } else {
        Err(ErrorV::ParseToken(Construct::Trigonometric))
    }
}

impl Trigonometric {
    pub(crate) fn from_chars(cs: &Vec<char>) -> (r: Result<Trigonometric, Error>)
        ensures
            match r {
                Ok(c) => trig_from_str_spec(cs@) == Ok::<Trigonometric, ErrorV>(c),
                Err(e) => trig_from_str_spec(cs@) == Err::<Trigonometric, ErrorV>(e@),
            },
    {
        let t = trim_chars(cs);
        let u = upper_chars(&t);
        if eq_lit(&u, "SIN") {
            Ok(Trigonometric::Sin)
        } else if eq_lit(&u, "COS") {
            Ok(Trigonometric::Cos)
        } else if eq_lit(&u, "TAN") {
            Ok(Trigonometric::Tan)
        } else if eq_lit(&u, "ASIN") {
            Ok(Trigonometric::ASin)
        } else if eq_lit(&u, "ACOS") {
            Ok(Trigonometric::ACos)
        } else if eq_lit(&u, "ATAN") {
            Ok(Trigonometric::ATan)
        } else {
            Err(Error::ParseToken(Construct::Trigonometric))
        }
    }

    /// Parses a trigonometric function's keyword, case-insensitively.
    pub fn from_str(s: &str) -> (r: Result<Trigonometric, Error>)
        ensures
            match r {
                Ok(c) => trig_from_str_spec(s@) == Ok::<Trigonometric, ErrorV>(c),
                Err(e) => trig_from_str_spec(s@) == Err::<Trigonometric, ErrorV>(e@),
            },
    {
        let cs = chars_of(s);
        Trigonometric::from_chars(&cs)
    }
}

impl CommandDesc for Trigonometric {
    open spec fn spec_short_name() -> Option<Seq<char>> {
        None
    }

    open spec fn spec_name() -> Seq<char> {
        "Sin | Cos | Tan | ASin | ACos | ATan"@
    }

    open spec fn spec_description() -> Seq<char> {
        "Forward and inverse trigonometric functions"@
    }

    fn short_name() -> Option<&'static str> {
        None
    }

    fn name() -> &'static str {
        "Sin | Cos | Tan | ASin | ACos | ATan"
    }

    fn description() -> &'static str {
        "Forward and inverse trigonometric functions"
    }
}

pub open spec fn cmp_from_str_spec(s: Seq<char>) -> Result<Cmp, ErrorV> {
    let u = upper_seq(trimmed(s));
    if u == "EQ"@ {
        Ok(Cmp::Eq)
    } else if u == "NEQ"@ {
        Ok(Cmp::Neq)
    } else if u == "GT"@ {
        Ok(Cmp::Gt)
    } else if u == "GTE"@ {
        Ok(Cmp::Gte)
    } else if u == "LT"@ {
        Ok(Cmp::Lt)
    } else if u == "LTE"@ {
        Ok(Cmp::Lte)
    } else {
        Err(ErrorV::ParseToken(Construct::Cmp))
    }
}

impl Cmp {
    pub(crate) fn from_chars(cs: &Vec<char>) -> (r: Result<Cmp, Error>)
        ensures
            match r {
                Ok(c) => cmp_from_str_spec(cs@) == Ok::<Cmp, ErrorV>(c),
                Err(e) => cmp_from_str_spec(cs@) == Err::<Cmp, ErrorV>(e@),
            },
    {
        let t = trim_chars(cs);
        let u = upper_chars(&t);
        if eq_lit(&u, "EQ") {
            Ok(Cmp::Eq)
        } else if eq_lit(&u, "NEQ") {
            Ok(Cmp::Neq)
        } else if eq_lit(&u, "GT") {
            Ok(Cmp::Gt)
        } else if eq_lit(&u, "GTE") {
            Ok(Cmp::Gte)
        } else if eq_lit(&u, "LT") {
            Ok(Cmp::Lt)
        } else if eq_lit(&u, "LTE") {
            Ok(Cmp::Lte)
        } else {
            Err(Error::ParseToken(Construct::Cmp))
        }
    }

    /// Parses a comparison's keyword, case-insensitively.
    pub fn from_str(s: &str) -> (r: Result<Cmp, Error>)
        ensures
            match r {
                Ok(c) => cmp_from_str_spec(s@) == Ok::<Cmp, ErrorV>(c),
                Err(e) => cmp_from_str_spec(s@) == Err::<Cmp, ErrorV>(e@),
            },
    {
        let cs = chars_of(s);
        Cmp::from_chars(&cs)
    }
}

impl CommandDesc for Cmp {
    open spec fn spec_short_name() -> Option<Seq<char>> {
        None
    }

    open spec fn spec_name() -> Seq<char> {
        "= | != | > | >= | < | <="@
    }

    open spec fn spec_description() -> Seq<char> {
        "Binary operators that compare two elements on the stack, the return 1 for true and 0 for false. Mostly for use with the if command."@
    }

    fn short_name() -> Option<&'static str> {
        None
    }

    fn name() -> &'static str {
        "= | != | > | >= | < | <="
    }

    fn description() -> &'static str {
        "Binary operators that compare two elements on the stack, the return 1 for true and 0 for false. Mostly for use with the if command."
    }
}

pub open spec fn nop_from_str_spec(s: Seq<char>) -> Result<NOP, ErrorV> {
    if trimmed(s).len() == 0 {
        Ok(NOP)
    } else {
        Err(ErrorV::ParseToken(Construct::Nop))
    }
}

impl NOP {
    pub(crate) fn from_chars(cs: &Vec<char>) -> (r: Result<NOP, Error>)
        ensures
            match r {
                Ok(c) => nop_from_str_spec(cs@) == Ok::<NOP, ErrorV>(c),
                Err(e) => nop_from_str_spec(cs@) == Err::<NOP, ErrorV>(e@),
            },
    {
        let t = trim_chars(cs);
        if t.len() == 0 {
            Ok(NOP)
        } else {
            Err(Error::ParseToken(Construct::Nop))
        }
    }

    /// Parses the empty command: accepts whitespace-only input.
    pub fn from_str(s: &str) -> (r: Result<NOP, Error>)
        ensures
            match r {
                Ok(c) => nop_from_str_spec(s@) == Ok::<NOP, ErrorV>(c),
                Err(e) => nop_from_str_spec(s@) == Err::<NOP, ErrorV>(e@),
            },
    {
        let cs = chars_of(s);
        NOP::from_chars(&cs)
    }
}

impl CommandDesc for NOP {
    open spec fn spec_short_name() -> Option<Seq<char>> {
        None
    }

    open spec fn spec_name() -> Seq<char> {
        "<Empty>"@
    }

    open spec fn spec_description() -> Seq<char> {
        "Will do nothing"@
    }

    fn short_name() -> Option<&'static str> {
        None
    }

    fn name() -> &'static str {
        "<Empty>"
    }

    fn description() -> &'static str {
        "Will do nothing"
    }
}

} // verus!
