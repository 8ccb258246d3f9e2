//! The interactive layer's input dispatch: a typed line is either a request
//! to leave, a request for help, or a command for the calculator; and the
//! help index listing every registered command and operation.

use vstd::prelude::*;
use crate::chars::{chars_of, eq_lit, trim_chars, trimmed, upper_chars, upper_seq};
use crate::command::{
    Break, Chain, CommandOrOp, Conditional, Display, Drop, Dup, NodeV, Print, Repeat, Reverse,
    Swap, coo_from_str_spec,
};
use crate::error::{Construct, Error, ErrorV};
use crate::ops::{
    row_is, Arith, Cmp, CommandDesc, Constants, ExponentialsBinary, ExponentialsUnary, InsNum,
    NOP, Trigonometric,
};

verus! {

/// Asks for the help page; accepted beside the calculator commands at the
/// interactive prompt.
#[derive(Clone, Copy, Debug, PartialEq, Eq, Structural)]
pub struct Help;

pub open spec fn help_from_str_spec(s: Seq<char>) -> Result<Help, ErrorV> {
    let u = upper_seq(trimmed(s));
    if u == "H"@ || u == "HELP"@ {
        Ok(Help)
    } else {
        Err(ErrorV::ParseToken(Construct::Help))
    }
}

impl Help {
    /// Parses `h` / `help`, case-insensitively.
    pub fn from_str(s: &str) -> (r: Result<Help, Error>)
        ensures
            match r {
                Ok(h) => help_from_str_spec(s@) == Ok::<Help, ErrorV>(h),
                Err(e) => help_from_str_spec(s@) == Err::<Help, ErrorV>(e@),
            },
    {
        let cs = chars_of(s);
        let u = upper_chars(&trim_chars(&cs));
        if eq_lit(&u, "H") || eq_lit(&u, "HELP") {
            Ok(Help)
        } else {
            Err(Error::ParseToken(Construct::Help))
        }
    }
}

impl CommandDesc for Help {
    open spec fn spec_short_name() -> Option<Seq<char>> {
        Some("H"@)
    }

    open spec fn spec_name() -> Seq<char> {
        "Help"@
    }

    open spec fn spec_description() -> Seq<char> {
        "Shows the current help page"@
    }

    fn short_name() -> Option<&'static str> {
        Some("H")
    }

    fn name() -> &'static str {
        "Help"
    }

    fn description() -> &'static str {
        "Shows the current help page"
    }
}

/// One line typed at the interactive prompt.
#[derive(Debug)]
pub enum Input {
    /// Leave the program.
    Exit,
    /// Show the help page.
    Help,
    /// Run a command or operation.
    CommandOrOp(CommandOrOp),
}

/// Spec-level mirror of [`Input`].
pub enum InputV {
    Exit,
    Help,
    Node(NodeV),
}

impl View for Input {
    type V = InputV;

    open spec fn view(&self) -> InputV {
        match self {
            Input::Exit => InputV::Exit,
            Input::Help => InputV::Help,
            Input::CommandOrOp(c) => InputV::Node(c@),
        }
    }
}

/// What typing one line at the prompt means: `exit` / `quit` leaves,
/// `help` / `h` shows the help page, and anything else goes through the
/// command parser.
pub open spec fn input_from_str_spec(s: Seq<char>) -> Result<InputV, ErrorV> {
    let u = upper_seq(trimmed(s));
    if u == "EXIT"@ || u == "QUIT"@ {
        Ok(InputV::Exit)
    } else if u == "HELP"@ || u == "H"@ {
        Ok(InputV::Help)
    } else {
        match coo_from_str_spec(s) {
            Ok(n) => Ok(InputV::Node(n)),
            Err(e) => Err(e),
        }
    }
}

impl Input {
    /// Parses one line typed at the prompt.
    pub fn from_str(s: &str) -> (r: Result<Input, Error>)
        ensures
            match r {
                Ok(i) => input_from_str_spec(s@) == Ok::<InputV, ErrorV>(i@),
                Err(e) => input_from_str_spec(s@) == Err::<InputV, ErrorV>(e@),
            },
    {
        let cs = chars_of(s);
        let u = upper_chars(&trim_chars(&cs));
        if eq_lit(&u, "EXIT") || eq_lit(&u, "QUIT") {
            return Ok(Input::Exit);
        }
        if eq_lit(&u, "HELP") || eq_lit(&u, "H") {
            return Ok(Input::Help);
        }
        match CommandOrOp::from_chars(&cs) {
            Ok(c) => Ok(Input::CommandOrOp(c)),
            Err(e) => Err(e),
        }
    }
}

/// The registry of commands, in declaration order: short spelling, usage,
/// description.  The contract pins every row to the metadata of the command
/// it stands for.
pub fn comm_names_descriptions() -> (r: Vec<(Option<&'static str>, &'static str, &'static str)>)
    ensures
        r@.len() == 11,
        row_is::<Drop>(r@[0]),
        row_is::<Dup>(r@[1]),
        row_is::<Swap>(r@[2]),
        row_is::<Reverse>(r@[3]),
        row_is::<Repeat>(r@[4]),
        row_is::<Chain>(r@[5]),
        row_is::<Conditional>(r@[6]),
        row_is::<Break>(r@[7]),
        row_is::<crate::command::Input>(r@[8]),
        row_is::<Display>(r@[9]),
        row_is::<Print>(r@[10]),
{
    let mut r: Vec<(Option<&'static str>, &'static str, &'static str)> = Vec::new();
    r.push((Drop::short_name(), Drop::name(), Drop::description()));
    r.push((Dup::short_name(), Dup::name(), Dup::description()));
    r.push((Swap::short_name(), Swap::name(), Swap::description()));
    r.push((Reverse::short_name(), Reverse::name(), Reverse::description()));
    r.push((Repeat::short_name(), Repeat::name(), Repeat::description()));
    r.push((Chain::short_name(), Chain::name(), Chain::description()));
    r.push((Conditional::short_name(), Conditional::name(), Conditional::description()));
    r.push((Break::short_name(), Break::name(), Break::description()));
    r.push((crate::command::Input::short_name(), crate::command::Input::name(), crate::command::Input::description()));
    r.push((Display::short_name(), Display::name(), Display::description()));
    r.push((Print::short_name(), Print::name(), Print::description()));
    r
}

/// The registry of primitive operations, in declaration order.  The
/// contract pins every row to the metadata of the operation family it
/// stands for.
pub fn op_names_descriptions() -> (r: Vec<(Option<&'static str>, &'static str, &'static str)>)
    ensures
        r@.len() == 8,
        row_is::<InsNum>(r@[0]),
        row_is::<Arith>(r@[1]),
        row_is::<Constants>(r@[2]),
        row_is::<ExponentialsUnary>(r@[3]),
        row_is::<ExponentialsBinary>(r@[4]),
        row_is::<Trigonometric>(r@[5]),
        row_is::<Cmp>(r@[6]),
        row_is::<NOP>(r@[7]),
{
    let mut r: Vec<(Option<&'static str>, &'static str, &'static str)> = Vec::new();
    r.push((InsNum::short_name(), InsNum::name(), InsNum::description()));
    r.push((Arith::short_name(), Arith::name(), Arith::description()));
    r.push((Constants::short_name(), Constants::name(), Constants::description()));
    r.push((ExponentialsUnary::short_name(), ExponentialsUnary::name(), ExponentialsUnary::description()));
    r.push((ExponentialsBinary::short_name(), ExponentialsBinary::name(), ExponentialsBinary::description()));
    r.push((Trigonometric::short_name(), Trigonometric::name(), Trigonometric::description()));
    r.push((Cmp::short_name(), Cmp::name(), Cmp::description()));
    r.push((NOP::short_name(), NOP::name(), NOP::description()));
    r
}

} // verus!
