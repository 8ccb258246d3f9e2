//! The command tree and its recursive-descent parser.
//!
//! A command is a stack-manipulation keyword (`drop`, `dup`, `swap`,
//! `reverse`, `break`, `display`, `input`, `print`), a bracketed chain, a
//! conditional (`if` / `try`), a repeat, or one primitive numeric operation.
//! Each parse function's contract states exactly which strings it accepts
//! and what it yields, through a spec-level mirror of the tree.

use vstd::prelude::*;
use crate::chars::{
    alnum_end, chars_of, eq_lit, find_char, find_from, lemma_trimmed_len, parse_usize_chars,
    skip_alnum, skip_ws, string_from_chars, sub_vec, trim_chars, trimmed, upper_chars, upper_seq,
    usize_from_chars, ws_end,
};
use crate::error::{Construct, Error, ErrorV};
use crate::ops::{
    arith_from_str_spec, cmp_from_str_spec, constants_from_str_spec, exp_binary_from_str_spec,
    exp_unary_from_str_spec, insnum_from_str_spec, nop_from_str_spec, trig_from_str_spec, Arith,
    Cmp, CommandDesc, Constants, ExponentialsBinary, ExponentialsUnary, InsNum, Trigonometric,
    NOP, OpEnum, OpV,
};

verus! {

// ---------------------------------------------------------------------------
// The tree
// ---------------------------------------------------------------------------
/// Unconditionally fails when executed; used to leave loops.
#[derive(Clone, Copy, Debug, PartialEq, Eq, Structural)]
pub struct Break;

/// Removes elements from the top of the stack.
#[derive(Clone, Copy, Debug, PartialEq, Eq, Structural)]
pub enum Drop {
    Count(usize),
    All,
}

/// Duplicates the top element a number of times.
#[derive(Clone, Copy, Debug, PartialEq, Eq, Structural)]
pub struct Dup(pub usize);

/// Exchanges two stack elements, named by their distance from the top.
#[derive(Clone, Copy, Debug, PartialEq, Eq, Structural)]
pub enum Swap {
    Specified(usize, usize),
    LastTwo,
}

/// Reverses the whole stack.
#[derive(Clone, Copy, Debug, PartialEq, Eq, Structural)]
pub struct Reverse;

/// Reads one line from the input source and pushes it as a number.
#[derive(Clone, Copy, Debug, PartialEq, Eq, Structural)]
pub struct Input;

/// Pops the top element and writes it to the output sink.
#[derive(Clone, Copy, Debug, PartialEq, Eq, Structural)]
pub struct Print;

/// Writes a fixed, already-unescaped text to the output sink.
#[derive(Clone, Debug)]
pub struct Display(pub String);

/// Runs its body a bounded number of times, or until the body fails.
#[derive(Debug)]
pub enum Repeat {
    Bounded(usize, Box<CommandOrOp>),
    Unbounded(Box<CommandOrOp>),
}

/// An ordered sequence of commands run on one shared stack.
#[derive(Debug)]
pub struct Chain(pub Vec<CommandOrOp>);

/// Which conditional was written: `if` selects a branch by the popped top of
/// the stack; `try` runs its fallback when the first branch fails.
#[derive(Clone, Copy, Debug, PartialEq, Eq, Structural)]
pub enum ConditionalKind {
    If,
    Try,
}

/// A two-branch conditional.
#[derive(Debug)]
pub struct Conditional {
    pub kind: ConditionalKind,
    pub first: Chain,
    pub second: Chain,
}

/// Any stack-manipulation or composite command.
#[derive(Debug)]
pub enum CommandEnum {
    Drop(Drop),
    Dup(Dup),
    Swap(Swap),
    Reverse(Reverse),
    Repeat(Repeat),
    Chain(Chain),
    Conditional(Conditional),
    Break(Break),
    Input(Input),
    Display(Display),
    Print(Print),
}

/// One node of the command tree: a command or a primitive operation.
#[derive(Debug)]
pub enum CommandOrOp {
    Command(CommandEnum),
    Op(OpEnum),
}

// ---------------------------------------------------------------------------
// Spec-level mirror of the tree
// ---------------------------------------------------------------------------
/// Spec-level mirror of [`Repeat`].
pub enum RepV {
    Bounded(usize, Box<NodeV>),
    Unbounded(Box<NodeV>),
}

/// Spec-level mirror of [`Conditional`].
pub struct CondV {
    pub kind: ConditionalKind,
    pub first: Seq<NodeV>,
    pub second: Seq<NodeV>,
}

/// Spec-level mirror of [`CommandEnum`].
pub enum CmdV {
    Drop(Drop),
    Dup(Dup),
    Swap(Swap),
    Reverse,
    Repeat(RepV),
    Chain(Seq<NodeV>),
    Conditional(CondV),
    Break,
    Input,
    Display(Seq<char>),
    Print,
}

/// Spec-level mirror of [`CommandOrOp`].
pub enum NodeV {
    Command(CmdV),
    Op(OpV),
}

pub open spec fn nodes_view(v: Seq<CommandOrOp>) -> Seq<NodeV>
    decreases v,
{
    if v.len() == 0 {
        Seq::empty()
    } else {
        seq![v[0]@] + nodes_view(v.drop_first())
    }
}

impl View for CommandOrOp {
    type V = NodeV;

    open spec fn view(&self) -> NodeV
        decreases self,
    {
        match self {
            CommandOrOp::Command(c) => NodeV::Command(c@),
            CommandOrOp::Op(o) => NodeV::Op(o@),
        }
    }
}

impl View for CommandEnum {
    type V = CmdV;

    open spec fn view(&self) -> CmdV
        decreases self,
    {
        match self {
            CommandEnum::Drop(d) => CmdV::Drop(*d),
            CommandEnum::Dup(d) => CmdV::Dup(*d),
            CommandEnum::Swap(s) => CmdV::Swap(*s),
            CommandEnum::Reverse(_) => CmdV::Reverse,
            CommandEnum::Repeat(r) => CmdV::Repeat(r@),
            CommandEnum::Chain(c) => CmdV::Chain(c@),
            CommandEnum::Conditional(c) => CmdV::Conditional(c@),
            CommandEnum::Break(_) => CmdV::Break,
            CommandEnum::Input(_) => CmdV::Input,
            CommandEnum::Display(d) => CmdV::Display(d.0@),
            CommandEnum::Print(_) => CmdV::Print,
        }
    }
}

impl View for Repeat {
    type V = RepV;

    open spec fn view(&self) -> RepV
        decreases self,
    {
        match self {
            Repeat::Bounded(n, b) => RepV::Bounded(*n, Box::new((**b)@)),
            Repeat::Unbounded(b) => RepV::Unbounded(Box::new((**b)@)),
        }
    }
}

impl View for Chain {
    type V = Seq<NodeV>;

    open spec fn view(&self) -> Seq<NodeV>
        decreases self,
    {
        nodes_view(self.0@)
    }
}

impl View for Conditional {
    type V = CondV;

    open spec fn view(&self) -> CondV
        decreases self,
    {
        CondV { kind: self.kind, first: self.first@, second: self.second@ }
    }
}

impl View for Display {
    type V = Seq<char>;

    open spec fn view(&self) -> Seq<char> {
        self.0@
    }
}

pub broadcast proof fn lemma_nodes_view_len(v: Seq<CommandOrOp>)
    ensures
        #[trigger] nodes_view(v).len() == v.len(),
    decreases v,
{
    if v.len() == 0 {
        assert(nodes_view(v) =~= Seq::<NodeV>::empty());
    } else {
        lemma_nodes_view_len(v.drop_first());
        assert(nodes_view(v) == seq![v[0]@] + nodes_view(v.drop_first()));
    }
}

pub broadcast proof fn lemma_nodes_view_index(v: Seq<CommandOrOp>, i: int)
    requires
        0 <= i < v.len(),
    ensures
        #[trigger] nodes_view(v)[i] == v[i]@,
    decreases v,
{
    lemma_nodes_view_len(v);
    assert(nodes_view(v) == seq![v[0]@] + nodes_view(v.drop_first()));
    if i == 0 {
        assert((seq![v[0]@] + nodes_view(v.drop_first()))[0] == v[0]@);
    } else {
        lemma_nodes_view_index(v.drop_first(), i - 1);
        assert((seq![v[0]@] + nodes_view(v.drop_first()))[i] == nodes_view(v.drop_first())[i - 1]);
        assert(v.drop_first()[i - 1] == v[i]);
    }
}

pub broadcast proof fn lemma_nodes_view_push(v: Seq<CommandOrOp>, c: CommandOrOp)
    ensures
        #[trigger] nodes_view(v.push(c)) == nodes_view(v).push(c@),
{
    lemma_nodes_view_len(v);
    lemma_nodes_view_len(v.push(c));
    broadcast use lemma_nodes_view_index;

    assert forall|i: int| 0 <= i < v.len() + 1 implies nodes_view(v.push(c))[i] == nodes_view(
        v,
    ).push(c@)[i] by {
        if i < v.len() {
            assert(v.push(c)[i] == v[i]);
        } else {
            assert(v.push(c)[i] == c);
        }
    }
    assert(nodes_view(v.push(c)) =~= nodes_view(v).push(c@));
}

// ---------------------------------------------------------------------------
// Leaf commands: keyword parsing
// ---------------------------------------------------------------------------
pub open spec fn break_from_str_spec(s: Seq<char>) -> Result<Break, ErrorV> {
    if upper_seq(trimmed(s)) == "BREAK"@ {
        Ok(Break)
    } else {
        Err(ErrorV::ParseToken(Construct::Break))
    }
}

impl Break {
    pub(crate) fn from_chars(cs: &Vec<char>) -> (r: Result<Break, Error>)
        ensures
            match r {
                Ok(b) => break_from_str_spec(cs@) == Ok::<Break, ErrorV>(b),
                Err(e) => break_from_str_spec(cs@) == Err::<Break, ErrorV>(e@),
            },
    {
        let t = trim_chars(cs);
        let u = upper_chars(&t);
        if eq_lit(&u, "BREAK") {
            Ok(Break)
        } else {
            Err(Error::ParseToken(Construct::Break))
        }
    }

    /// Parses the `break` keyword, case-insensitively.
    pub fn from_str(s: &str) -> (r: Result<Break, Error>)
        ensures
            match r {
                Ok(b) => break_from_str_spec(s@) == Ok::<Break, ErrorV>(b),
                Err(e) => break_from_str_spec(s@) == Err::<Break, ErrorV>(e@),
            },
    {
        let cs = chars_of(s);
        Break::from_chars(&cs)
    }
}

impl CommandDesc for Break {
    open spec fn spec_short_name() -> Option<Seq<char>> {
        None
    }

    open spec fn spec_name() -> Seq<char> {
        "Break"@
    }

    open spec fn spec_description() -> Seq<char> {
        "Unconditionally produces an error. Useful for exiting infinite loops."@
    }

    fn short_name() -> Option<&'static str> {
        None
    }

    fn name() -> &'static str {
        "Break"
    }

    fn description() -> &'static str {
        "Unconditionally produces an error. Useful for exiting infinite loops."
    }
}

/// What parsing `drop` yields: the bare keyword drops one element; a trailing
/// argument names a count, or `all`.
pub open spec fn drop_from_str_spec(s: Seq<char>) -> Result<Drop, ErrorV> {
    let t = trimmed(s);
    let sp = find_from(t, 0, ' ');
    if sp == t.len() {
        let u = upper_seq(t);
        if u == "DROP"@ || u == "D"@ {
            Ok(Drop::Count(1))
        } else {
            Err(ErrorV::ParseToken(Construct::Drop))
        }
    } else {
        let key = upper_seq(trimmed(t.subrange(0, sp)));
        let arg = upper_seq(trimmed(t.subrange(sp + 1, t.len() as int)));
        if key == "DROP"@ || key == "D"@ {
            if arg == "ALL"@ {
                Ok(Drop::All)
            } else {
                match usize_from_chars(arg) {
                    Ok(n) => Ok(Drop::Count(n as usize)),
                    Err(k) => Err(ErrorV::ParseInt(k)),
                }
            }
        } else {
            Err(ErrorV::ParseToken(Construct::Drop))
        }
    }
}

impl Drop {
    pub(crate) fn from_chars(cs: &Vec<char>) -> (r: Result<Drop, Error>)
        ensures
            match r {
                Ok(d) => drop_from_str_spec(cs@) == Ok::<Drop, ErrorV>(d),
                Err(e) => drop_from_str_spec(cs@) == Err::<Drop, ErrorV>(e@),
            },
    {
        let t = trim_chars(cs);
        let sp = find_char(&t, 0, ' ');
        proof {
            crate::chars::lemma_find_from(t@, 0, ' ');
        }
        if sp == t.len() {
            let u = upper_chars(&t);
            if eq_lit(&u, "DROP") || eq_lit(&u, "D") {
                Ok(Drop::Count(1))
            } else {
                Err(Error::ParseToken(Construct::Drop))
            }
        } else {
            let key_part = sub_vec(&t, 0, sp);
            let arg_part = sub_vec(&t, sp + 1, t.len());
            let key = upper_chars(&trim_chars(&key_part));
            let arg = upper_chars(&trim_chars(&arg_part));
            if eq_lit(&key, "DROP") || eq_lit(&key, "D") {
                if eq_lit(&arg, "ALL") {
                    Ok(Drop::All)
                } else {
                    match parse_usize_chars(&arg) {
                        Ok(n) => Ok(Drop::Count(n)),
                        Err(k) => Err(Error::ParseInt(k)),
                    }
                }
            } else {
                Err(Error::ParseToken(Construct::Drop))
            }
        }
    }

    /// Parses `drop` / `d`, optionally followed by a count or `all`.  The
    /// bare keyword drops exactly one element.
    pub fn from_str(s: &str) -> (r: Result<Drop, Error>)
        ensures
            match r {
                Ok(d) => drop_from_str_spec(s@) == Ok::<Drop, ErrorV>(d),
                Err(e) => drop_from_str_spec(s@) == Err::<Drop, ErrorV>(e@),
            },
    {
        let cs = chars_of(s);
        Drop::from_chars(&cs)
    }
}

impl CommandDesc for Drop {
    open spec fn spec_short_name() -> Option<Seq<char>> {
        Some("D [int]"@)
    }

    open spec fn spec_name() -> Seq<char> {
        "Drop [int]"@
    }

    open spec fn spec_description() -> Seq<char> {
        "Takes a number of items to drop from the bottom of the stack. If the argument is \"all\", all values will be dropped. Otherwise drops one."@
    }

    fn short_name() -> Option<&'static str> {
        Some("D [int]")
    }

    fn name() -> &'static str {
        "Drop [int]"
    }

    fn description() -> &'static str {
        "Takes a number of items to drop from the bottom of the stack. If the argument is \"all\", all values will be dropped. Otherwise drops one."
    }
}

/// What parsing `dup` yields: a trailing count is required; the bare keyword
/// is rejected (unlike `drop`, which defaults to one).
pub open spec fn dup_from_str_spec(s: Seq<char>) -> Result<Dup, ErrorV> {
    let t = trimmed(s);
    let sp = find_from(t, 0, ' ');
    if sp == t.len() {
        Err(ErrorV::ParseToken(Construct::Duplicate))
    } else {
        let key = upper_seq(trimmed(t.subrange(0, sp)));
        let arg = trimmed(t.subrange(sp + 1, t.len() as int));
        if key == "DUP"@ || key == "DUPLICATE"@ {
            match usize_from_chars(arg) {
                Ok(n) => Ok(Dup(n as usize)),
                Err(k) => Err(ErrorV::ParseInt(k)),
            }
        } else {
            Err(ErrorV::ParseToken(Construct::Duplicate))
        }
    }
}

impl Dup {
    pub(crate) fn from_chars(cs: &Vec<char>) -> (r: Result<Dup, Error>)
        ensures
            match r {
                Ok(d) => dup_from_str_spec(cs@) == Ok::<Dup, ErrorV>(d),
                Err(e) => dup_from_str_spec(cs@) == Err::<Dup, ErrorV>(e@),
            },
    {
        let t = trim_chars(cs);
        let sp = find_char(&t, 0, ' ');
        proof {
            crate::chars::lemma_find_from(t@, 0, ' ');
        }
        if sp == t.len() {
            Err(Error::ParseToken(Construct::Duplicate))
        } else {
            let key_part = sub_vec(&t, 0, sp);
            let arg_part = sub_vec(&t, sp + 1, t.len());
            let key = upper_chars(&trim_chars(&key_part));
            let arg = trim_chars(&arg_part);
            if eq_lit(&key, "DUP") || eq_lit(&key, "DUPLICATE") {
                match parse_usize_chars(&arg) {
                    Ok(n) => Ok(Dup(n)),
                    Err(k) => Err(Error::ParseInt(k)),
                }
            } else {
                Err(Error::ParseToken(Construct::Duplicate))
            }
        }
    }

    /// Parses `dup` / `duplicate` with an explicit count.
    pub fn from_str(s: &str) -> (r: Result<Dup, Error>)
        ensures
            match r {
                Ok(d) => dup_from_str_spec(s@) == Ok::<Dup, ErrorV>(d),
                Err(e) => dup_from_str_spec(s@) == Err::<Dup, ErrorV>(e@),
            },
    {
        let cs = chars_of(s);
        Dup::from_chars(&cs)
    }
}

impl CommandDesc for Dup {
    open spec fn spec_short_name() -> Option<Seq<char>> {
        Some("Dup [int]"@)
    }

    open spec fn spec_name() -> Seq<char> {
        "Duplicate [int]"@
    }

    open spec fn spec_description() -> Seq<char> {
        "Duplicates the last element in the stack a specified amount of times, or by default one."@
    }

    fn short_name() -> Option<&'static str> {
        Some("Dup [int]")
    }

    fn name() -> &'static str {
        "Duplicate [int]"
    }

    fn description() -> &'static str {
        "Duplicates the last element in the stack a specified amount of times, or by default one."
    }
}

/// What parsing `swap` yields: the bare keyword swaps the top two elements;
/// two trailing indices name the pair to exchange.
pub open spec fn swap_from_str_spec(s: Seq<char>) -> Result<Swap, ErrorV> {
    let tu = upper_seq(trimmed(s));
    let sp = find_from(tu, 0, ' ');
    let bare = if tu == "SWAP"@ || tu == "S"@ {
        Ok::<Swap, ErrorV>(Swap::LastTwo)
    } else {
        Err::<Swap, ErrorV>(ErrorV::ParseToken(Construct::Swap))
    };
    if sp == tu.len() {
        bare
    } else {
        let key = trimmed(tu.subrange(0, sp));
        let rest = trimmed(tu.subrange(sp + 1, tu.len() as int));
        let sp2 = find_from(rest, 0, ' ');
        if sp2 == rest.len() {
            bare
        } else {
            let from = trimmed(rest.subrange(0, sp2));
            let to = trimmed(rest.subrange(sp2 + 1, rest.len() as int));
            if key == "SWAP"@ || key == "S"@ {
                match usize_from_chars(from) {
                    Err(k) => Err(ErrorV::ParseInt(k)),
                    Ok(f) => match usize_from_chars(to) {
                        Err(k) => Err(ErrorV::ParseInt(k)),
                        Ok(t2) => Ok(Swap::Specified(f as usize, t2 as usize)),
                    },
                }
            } else {
                Err(ErrorV::ParseToken(Construct::Swap))
            }
        }
    }
}

impl Swap {
    pub(crate) fn from_chars(cs: &Vec<char>) -> (r: Result<Swap, Error>)
        ensures
            match r {
                Ok(sw) => swap_from_str_spec(cs@) == Ok::<Swap, ErrorV>(sw),
                Err(e) => swap_from_str_spec(cs@) == Err::<Swap, ErrorV>(e@),
            },
    {
        let tu = upper_chars(&trim_chars(cs));
        let sp = find_char(&tu, 0, ' ');
        proof {
            crate::chars::lemma_find_from(tu@, 0, ' ');
        }
        if sp == tu.len() {
            if eq_lit(&tu, "SWAP") || eq_lit(&tu, "S") {
                return Ok(Swap::LastTwo);
            }
            return Err(Error::ParseToken(Construct::Swap));
        }
        let rest_part = sub_vec(&tu, sp + 1, tu.len());
        let rest = trim_chars(&rest_part);
        let sp2 = find_char(&rest, 0, ' ');
        proof {
            crate::chars::lemma_find_from(rest@, 0, ' ');
        }
        if sp2 == rest.len() {
            if eq_lit(&tu, "SWAP") || eq_lit(&tu, "S") {
                return Ok(Swap::LastTwo);
            }
            return Err(Error::ParseToken(Construct::Swap));
        }
        let key_part = sub_vec(&tu, 0, sp);
        let key = trim_chars(&key_part);
        let from_part = sub_vec(&rest, 0, sp2);
        let from = trim_chars(&from_part);
        let to_part = sub_vec(&rest, sp2 + 1, rest.len());
        let to = trim_chars(&to_part);
        if eq_lit(&key, "SWAP") || eq_lit(&key, "S") {
            match parse_usize_chars(&from) {
                Err(k) => Err(Error::ParseInt(k)),
                Ok(f) => match parse_usize_chars(&to) {
                    Err(k) => Err(Error::ParseInt(k)),
                    Ok(t2) => Ok(Swap::Specified(f, t2)),
                },
            }
        } else {
            Err(Error::ParseToken(Construct::Swap))
        }
    }

    /// Parses `swap` / `s`, bare or with two indices counted from the top.
    pub fn from_str(s: &str) -> (r: Result<Swap, Error>)
        ensures
            match r {
                Ok(sw) => swap_from_str_spec(s@) == Ok::<Swap, ErrorV>(sw),
                Err(e) => swap_from_str_spec(s@) == Err::<Swap, ErrorV>(e@),
            },
    {
        let cs = chars_of(s);
        Swap::from_chars(&cs)
    }
}

impl CommandDesc for Swap {
    open spec fn spec_short_name() -> Option<Seq<char>> {
        Some("S"@)
    }

    open spec fn spec_name() -> Seq<char> {
        "Swap"@
    }

    open spec fn spec_description() -> Seq<char> {
        "Swaps the position of any two values in the stack. If argument is not provided, it swaps the last element with the previous one"@
    }

    fn short_name() -> Option<&'static str> {
        Some("S")
    }

    fn name() -> &'static str {
        "Swap"
    }

    fn description() -> &'static str {
        "Swaps the position of any two values in the stack. If argument is not provided, it swaps the last element with the previous one"
    }
}

pub open spec fn reverse_from_str_spec(s: Seq<char>) -> Result<Reverse, ErrorV> {
    let u = upper_seq(trimmed(s));
    if u == "REV"@ || u == "REVERSE"@ {
        Ok(Reverse)
    } else {
        Err(ErrorV::ParseToken(Construct::Reverse))
    }
}

impl Reverse {
    pub(crate) fn from_chars(cs: &Vec<char>) -> (r: Result<Reverse, Error>)
        ensures
            match r {
                Ok(v) => reverse_from_str_spec(cs@) == Ok::<Reverse, ErrorV>(v),
                Err(e) => reverse_from_str_spec(cs@) == Err::<Reverse, ErrorV>(e@),
            },
    {
        let u = upper_chars(&trim_chars(cs));
        if eq_lit(&u, "REV") || eq_lit(&u, "REVERSE") {
            Ok(Reverse)
        } else {
            Err(Error::ParseToken(Construct::Reverse))
        }
    }

    /// Parses `rev` / `reverse`, case-insensitively.
    pub fn from_str(s: &str) -> (r: Result<Reverse, Error>)
        ensures
            match r {
                Ok(v) => reverse_from_str_spec(s@) == Ok::<Reverse, ErrorV>(v),
                Err(e) => reverse_from_str_spec(s@) == Err::<Reverse, ErrorV>(e@),
            },
    {
        let cs = chars_of(s);
        Reverse::from_chars(&cs)
    }
}

impl CommandDesc for Reverse {
    open spec fn spec_short_name() -> Option<Seq<char>> {
        Some("Rev"@)
    }

    open spec fn spec_name() -> Seq<char> {
        "Reverse"@
    }

    open spec fn spec_description() -> Seq<char> {
        "Reverses the order of the stack"@
    }

    fn short_name() -> Option<&'static str> {
        Some("Rev")
    }

    fn name() -> &'static str {
        "Reverse"
    }

    fn description() -> &'static str {
        "Reverses the order of the stack"
    }
}

pub open spec fn input_from_str_spec(s: Seq<char>) -> Result<Input, ErrorV> {
    let u = upper_seq(trimmed(s));
    if u == "I"@ || u == "INPUT"@ {
        Ok(Input)
    } else {
        Err(ErrorV::ParseToken(Construct::Input))
    }
}

impl Input {
    pub(crate) fn from_chars(cs: &Vec<char>) -> (r: Result<Input, Error>)
        ensures
            match r {
                Ok(v) => input_from_str_spec(cs@) == Ok::<Input, ErrorV>(v),
                Err(e) => input_from_str_spec(cs@) == Err::<Input, ErrorV>(e@),
            },
    {
        let u = upper_chars(&trim_chars(cs));
        if eq_lit(&u, "I") || eq_lit(&u, "INPUT") {
            Ok(Input)
        } else {
            Err(Error::ParseToken(Construct::Input))
        }
    }

    /// Parses `i` / `input`, case-insensitively.
    pub fn from_str(s: &str) -> (r: Result<Input, Error>)
        ensures
            match r {
                Ok(v) => input_from_str_spec(s@) == Ok::<Input, ErrorV>(v),
                Err(e) => input_from_str_spec(s@) == Err::<Input, ErrorV>(e@),
            },
    {
        let cs = chars_of(s);
        Input::from_chars(&cs)
    }
}

impl CommandDesc for Input {
    open spec fn spec_short_name() -> Option<Seq<char>> {
        Some("I"@)
    }

    open spec fn spec_name() -> Seq<char> {
        "Input"@
    }

    open spec fn spec_description() -> Seq<char> {
        "Allows the user to input a floating point number, and puts it on the stack. Mostly used in scripts."@
    }

    fn short_name() -> Option<&'static str> {
        Some("I")
    }

    fn name() -> &'static str {
        "Input"
    }

    fn description() -> &'static str {
        "Allows the user to input a floating point number, and puts it on the stack. Mostly used in scripts."
    }
}

pub open spec fn print_from_str_spec(s: Seq<char>) -> Result<Print, ErrorV> {
    let u = upper_seq(trimmed(s));
    if u == "P"@ || u == "PRINT"@ {
        Ok(Print)
    } else {
        Err(ErrorV::ParseToken(Construct::Print))
    }
}

impl Print {
    pub(crate) fn from_chars(cs: &Vec<char>) -> (r: Result<Print, Error>)
        ensures
            match r {
                Ok(v) => print_from_str_spec(cs@) == Ok::<Print, ErrorV>(v),
                Err(e) => print_from_str_spec(cs@) == Err::<Print, ErrorV>(e@),
            },
    {
        let u = upper_chars(&trim_chars(cs));
        if eq_lit(&u, "P") || eq_lit(&u, "PRINT") {
            Ok(Print)
        } else {
            Err(Error::ParseToken(Construct::Print))
        }
    }

    /// Parses `p` / `print`, case-insensitively.
    pub fn from_str(s: &str) -> (r: Result<Print, Error>)
        ensures
            match r {
                Ok(v) => print_from_str_spec(s@) == Ok::<Print, ErrorV>(v),
                Err(e) => print_from_str_spec(s@) == Err::<Print, ErrorV>(e@),
            },
    {
        let cs = chars_of(s);
        Print::from_chars(&cs)
    }
}

impl CommandDesc for Print {
    open spec fn spec_short_name() -> Option<Seq<char>> {
        Some("P"@)
    }

    open spec fn spec_name() -> Seq<char> {
        "Print"@
    }

    open spec fn spec_description() -> Seq<char> {
        "Prints the top number in the stack to the screen. Mostly used in scripts."@
    }

    fn short_name() -> Option<&'static str> {
        Some("P")
    }

    fn name() -> &'static str {
        "Print"
    }

    fn description() -> &'static str {
        "Prints the top number in the stack to the screen. Mostly used in scripts."
    }
}

// ---------------------------------------------------------------------------
// Display: quoted, escaped text
// ---------------------------------------------------------------------------
/// Decoding the interior of a quoted string from index `i` on: `\\` and `\"`
/// are the only escapes; a backslash before anything else, or at the end,
/// fails.
pub open spec fn unescape_from(s: Seq<char>, i: int, acc: Seq<char>) -> Option<Seq<char>>
    decreases s.len() - i,
{
    if i < 0 || i >= s.len() {
        Some(acc)
    } else if s[i] == '\\' {
        if i + 1 < s.len() && (s[i + 1] == '\\' || s[i + 1] == '"') {
            unescape_from(s, i + 2, acc.push(s[i + 1]))
        } else {
            None
        }
    } else {
        unescape_from(s, i + 1, acc.push(s[i]))
    }
}

/// What parsing `display` yields: the keyword, optional whitespace, then a
/// double-quoted string whose only escapes are `\\` and `\"`; the result is
/// the decoded interior.
pub open spec fn display_from_str_spec(s: Seq<char>) -> Result<Seq<char>, ErrorV> {
    let t = trimmed(s);
    if t.len() < 7 || upper_seq(t.subrange(0, 7)) != "DISPLAY"@ {
        Err(ErrorV::ParseToken(Construct::Display))
    } else {
        let q = t.subrange(ws_end(t, 7), t.len() as int);
        if q.len() == 0 || q[q.len() - 1] != '"' || (q.len() >= 2 && q[q.len() - 2] == '\\') {
            Err(ErrorV::ParseToken(Construct::Display))
        } else {
            let q2 = q.drop_last();
            if q2.len() == 0 || q2[0] != '"' {
                Err(ErrorV::ParseToken(Construct::Display))
            } else {
                match unescape_from(q2.drop_first(), 0, Seq::empty()) {
                    Some(out) => Ok(out),
                    None => Err(ErrorV::ParseToken(Construct::Display)),
                }
            }
        }
    }
}

impl Display {
    #[verifier::loop_isolation(false)]
    pub(crate) fn from_chars(cs: &Vec<char>) -> (r: Result<Display, Error>)
        ensures
            match r {
                Ok(d) => display_from_str_spec(cs@) == Ok::<Seq<char>, ErrorV>(d@),
                Err(e) => display_from_str_spec(cs@) == Err::<Seq<char>, ErrorV>(e@),
            },
    {
        let t = trim_chars(cs);
        if t.len() < 7 {
            return Err(Error::ParseToken(Construct::Display));
        }
        let head = sub_vec(&t, 0, 7);
        let head_up = upper_chars(&head);
        if !eq_lit(&head_up, "DISPLAY") {
            return Err(Error::ParseToken(Construct::Display));
        }
        let qstart = skip_ws(&t, 7);
        let q = sub_vec(&t, qstart, t.len());
        if q.len() == 0 || q[q.len() - 1] != '"' || (q.len() >= 2 && q[q.len() - 2] == '\\') {
            return Err(Error::ParseToken(Construct::Display));
        }
        let q2 = sub_vec(&q, 0, q.len() - 1);
        proof {
            assert(q2@ =~= q@.drop_last());
        }
        if q2.len() == 0 {
            return Err(Error::ParseToken(Construct::Display));
        }
        if q2[0] != '"' {
            return Err(Error::ParseToken(Construct::Display));
        }
        let body = sub_vec(&q2, 1, q2.len());
        proof {
            assert(body@ =~= q2@.drop_first());
        }
        let mut out: Vec<char> = Vec::new();
        let mut i: usize = 0;
        while i < body.len()
            invariant
                i <= body.len(),
                unescape_from(body@, 0, Seq::empty()) == unescape_from(body@, i as int, out@),
            decreases body.len() - i,
        {
            let c = body[i];
            if c == '\\' {
                if i + 1 < body.len() && (body[i + 1] == '\\' || body[i + 1] == '"') {
                    out.push(body[i + 1]);
                    i += 2;
                } else {
                    proof {
                        assert(unescape_from(body@, 0, Seq::empty()) is None);
                    }
                    return Err(Error::ParseToken(Construct::Display));
                }
            } else {
                out.push(c);
                i += 1;
            }
        }
        Ok(Display(string_from_chars(&out)))
    }

    /// Parses `display "<text>"`; `\\` and `\"` are the only escapes.
    pub fn from_str(s: &str) -> (r: Result<Display, Error>)
        ensures
            match r {
                Ok(d) => display_from_str_spec(s@) == Ok::<Seq<char>, ErrorV>(d@),
                Err(e) => display_from_str_spec(s@) == Err::<Seq<char>, ErrorV>(e@),
            },
    {
        let cs = chars_of(s);
        Display::from_chars(&cs)
    }
}

// ---------------------------------------------------------------------------
// Chains: bracket-aware splitting on top-level semicolons
// ---------------------------------------------------------------------------
/// Scans `s` from index `i`, splitting on semicolons that sit at bracket
/// depth zero; `start` marks where the current piece began, `acc` holds the
/// finished pieces.  A closing bracket at depth zero, or a depth left open at
/// the end, yields `None`: the brackets do not balance.
pub open spec fn split_top(s: Seq<char>, i: int, start: int, depth: int, acc: Seq<Seq<char>>) -> Option<
    Seq<Seq<char>>,
>
    decreases s.len() - i,
{
    if i < 0 || i >= s.len() {
        if depth == 0 {
            Some(acc.push(s.subrange(start, s.len() as int)))
        } else {
            None
        }
    } else if s[i] == '[' {
        split_top(s, i + 1, start, depth + 1, acc)
    } else if s[i] == ']' {
        if depth == 0 {
            None
        } else {
            split_top(s, i + 1, start, depth - 1, acc)
        }
    } else if s[i] == ';' && depth == 0 {
        split_top(s, i + 1, i + 1, 0, acc.push(s.subrange(start, i)))
    } else {
        split_top(s, i + 1, start, depth, acc)
    }
}

/// The length of the longest piece.
pub open spec fn max_piece_len(ps: Seq<Seq<char>>) -> int
    decreases ps.len(),
{
    if ps.len() == 0 {
        0
    } else {
        let m = max_piece_len(ps.drop_first());
        if ps[0].len() > m {
            ps[0].len() as int
        } else {
            m
        }
    }
}

proof fn lemma_max_piece_push_le(ps: Seq<Seq<char>>, p: Seq<char>, b: int)
    requires
        max_piece_len(ps) <= b,
        p.len() <= b,
    ensures
        max_piece_len(ps.push(p)) <= b,
    decreases ps.len(),
{
    let q = ps.push(p);
    if ps.len() == 0 {
        assert(q[0] == p);
        assert(q.drop_first() =~= Seq::<Seq<char>>::empty());
        assert(max_piece_len(q.drop_first()) == 0);
    } else {
        assert(max_piece_len(ps) == if ps[0].len() > max_piece_len(ps.drop_first()) {
            ps[0].len() as int
        } else {
            max_piece_len(ps.drop_first())
        });
        lemma_max_piece_push_le(ps.drop_first(), p, b);
        assert(q.drop_first() =~= ps.drop_first().push(p));
        assert(q[0] == ps[0]);
    }
}

proof fn lemma_split_top_bound(s: Seq<char>, i: int, start: int, depth: int, acc: Seq<Seq<char>>)
    requires
        0 <= start <= i <= s.len(),
        max_piece_len(acc) <= s.len(),
    ensures
        match split_top(s, i, start, depth, acc) {
            Some(ps) => max_piece_len(ps) <= s.len(),
            None => true,
        },
    decreases s.len() - i,
{
    if i >= s.len() {
        if depth == 0 {
            lemma_max_piece_push_le(acc, s.subrange(start, s.len() as int), s.len() as int);
        }
    } else if s[i] == '[' {
        lemma_split_top_bound(s, i + 1, start, depth + 1, acc);
    } else if s[i] == ']' {
        if depth != 0 {
            lemma_split_top_bound(s, i + 1, start, depth - 1, acc);
        }
    } else if s[i] == ';' && depth == 0 {
        lemma_max_piece_push_le(acc, s.subrange(start, i), s.len() as int);
        lemma_split_top_bound(s, i + 1, i + 1, 0, acc.push(s.subrange(start, i)));
    } else {
        lemma_split_top_bound(s, i + 1, start, depth, acc);
    }
}

/// Views of a vector of character buffers.
pub open spec fn piece_views(ps: Seq<Vec<char>>) -> Seq<Seq<char>> {
    ps.map_values(|p: Vec<char>| p@)
}

proof fn lemma_piece_views_push(ps: Seq<Vec<char>>, p: Vec<char>)
    ensures
        piece_views(ps.push(p)) == piece_views(ps).push(p@),
{
    assert(piece_views(ps.push(p)) =~= piece_views(ps).push(p@));
}

// ---------------------------------------------------------------------------
// The mutually recursive grammar
// ---------------------------------------------------------------------------
/// Parses each piece in turn; the first piece that fails decides the error.
pub open spec fn parse_pieces(ps: Seq<Seq<char>>) -> Result<Seq<NodeV>, ErrorV>
    decreases max_piece_len(ps), 2int, ps.len(),
{
    if ps.len() == 0 {
        Ok(Seq::empty())
    } else {
        match coo_from_str_spec(ps[0]) {
            Err(e) => Err(e),
            Ok(n) => match parse_pieces(ps.drop_first()) {
                Err(e) => Err(e),
                Ok(rest) => Ok(seq![n] + rest),
            },
        }
    }
}

/// What parsing a bare chain body yields: the trimmed text is split on
/// top-level semicolons (unbalanced brackets fail), and every piece is
/// parsed as a full command.
pub open spec fn from_bare_spec(s: Seq<char>) -> Result<Seq<NodeV>, ErrorV>
    decreases s.len(), 3int, 0int,
        via from_bare_spec_dec
{
    match split_top(trimmed(s), 0, 0, 0, Seq::empty()) {
        None => Err(ErrorV::UnbBraces),
        Some(ps) => parse_pieces(ps),
    }
}

#[via_fn]
proof fn from_bare_spec_dec(s: Seq<char>) {
    lemma_trimmed_len(s);
    lemma_split_top_bound(trimmed(s), 0, 0, 0, Seq::empty());
}

/// What parsing a bracketed chain yields: a leading `[`, a trailing `]`, and
/// the interior read as a bare chain body.
pub open spec fn chain_from_str_spec(s: Seq<char>) -> Result<Seq<NodeV>, ErrorV>
    decreases s.len(), 0int, 0int,
        via chain_from_str_spec_dec
{
    let t = trimmed(s);
    if t.len() > 0 && t[0] == '[' && t[t.len() - 1] == ']' {
        from_bare_spec(t.subrange(1, t.len() - 1))
    } else {
        Err(ErrorV::ParseToken(Construct::Chain))
    }
}

#[via_fn]
proof fn chain_from_str_spec_dec(s: Seq<char>) {
    lemma_trimmed_len(s);
}

/// The index of the `]` that brings the bracket depth from `depth` to zero,
/// or the length of `s` when the brackets never close.
pub open spec fn find_close(s: Seq<char>, i: int, depth: int) -> int
    decreases s.len() - i,
{
    if i < 0 || i >= s.len() {
        s.len() as int
    } else if s[i] == '[' {
        find_close(s, i + 1, depth + 1)
    } else if s[i] == ']' {
        if depth == 1 {
            i
        } else {
            find_close(s, i + 1, depth - 1)
        }
    } else {
        find_close(s, i + 1, depth)
    }
}

pub proof fn lemma_find_close(s: Seq<char>, i: int, depth: int)
    requires
        0 <= i <= s.len(),
    ensures
        i <= find_close(s, i, depth) <= s.len(),
    decreases s.len() - i,
{
    if i < s.len() {
        if s[i] == '[' {
            lemma_find_close(s, i + 1, depth + 1);
        } else if s[i] == ']' {
            if depth != 1 {
                lemma_find_close(s, i + 1, depth - 1);
            }
        } else {
            lemma_find_close(s, i + 1, depth);
        }
    }
}

/// What parsing a conditional yields: `if` or `try`, whitespace, a bracketed
/// branch, whitespace, a second bracketed branch, and nothing after it.
/// Both branches are read from the upper-cased text.
pub open spec fn cond_from_str_spec(s: Seq<char>) -> Result<CondV, ErrorV>
    decreases s.len(), 0int, 1int,
        via cond_from_str_spec_dec
{
    let u = upper_seq(trimmed(s));
    if u.len() >= 2 && u[0] == 'I' && u[1] == 'F' {
        cond_branches(s, u, ConditionalKind::If, 2)
    } else if u.len() >= 3 && u[0] == 'T' && u[1] == 'R' && u[2] == 'Y' {
        cond_branches(s, u, ConditionalKind::Try, 3)
    } else {
        Err(ErrorV::ParseToken(Construct::Conditional))
    }
}

#[via_fn]
proof fn cond_from_str_spec_dec(s: Seq<char>) {
    lemma_trimmed_len(s);
}

/// The bracketed-branch part of a conditional, starting at `klen` in the
/// upper-cased text `u`.
pub open spec fn cond_branches(s: Seq<char>, u: Seq<char>, kind: ConditionalKind, klen: int) -> Result<
    CondV,
    ErrorV,
>
    decreases s.len(), 0int, 0int,
        via cond_branches_dec
{
    if u.len() > s.len() || klen < 0 || klen > u.len() {
        Err(ErrorV::ParseToken(Construct::Conditional))
    } else {
        let i = ws_end(u, klen);
        if i >= u.len() || u[i] != '[' {
            Err(ErrorV::ParseToken(Construct::Conditional))
        } else {
            let j = find_close(u, i + 1, 1);
            if j >= u.len() {
                Err(ErrorV::ParseToken(Construct::Conditional))
            } else {
                let k = ws_end(u, j + 1);
                if k >= u.len() || u[k] != '[' {
                    Err(ErrorV::ParseToken(Construct::Conditional))
                } else {
                    let m = find_close(u, k + 1, 1);
                    if m >= u.len() || m != u.len() - 1 {
                        Err(ErrorV::ParseToken(Construct::Conditional))
                    } else {
                        match chain_from_str_spec(u.subrange(i, j + 1)) {
                            Err(e) => Err(e),
                            Ok(c1) => match chain_from_str_spec(u.subrange(k, m + 1)) {
                                Err(e) => Err(e),
                                Ok(c2) => Ok(CondV { kind, first: c1, second: c2 }),
                            },
                        }
                    }
                }
            }
        }
    }
}

#[via_fn]
proof fn cond_branches_dec(s: Seq<char>, u: Seq<char>, kind: ConditionalKind, klen: int) {
    if !(u.len() > s.len() || klen < 0 || klen > u.len()) {
        crate::chars::lemma_ws_end(u, klen);
        let i = ws_end(u, klen);
        if i < u.len() {
            lemma_find_close(u, i + 1, 1);
            let j = find_close(u, i + 1, 1);
            if j < u.len() {
                crate::chars::lemma_ws_end(u, j + 1);
                let k = ws_end(u, j + 1);
                if k < u.len() {
                    lemma_find_close(u, k + 1, 1);
                }
            }
        }
    }
}

/// The argument-and-body part of a repeat, from index `i` of the upper-cased
/// text `u`: either `(count)`, a space and the body, or a space and the body
/// alone (unbounded).  The body is read from the upper-cased text.
pub open spec fn rep_after(u: Seq<char>, i: int) -> Result<RepV, ErrorV>
    decreases u.len(), 0int, 1int,
        via rep_after_dec
{
    if i < 1 || i >= u.len() {
        Err(ErrorV::ParseToken(Construct::Repeat))
    } else if u[i] == '(' {
        let p = alnum_end(u, i + 1);
        if p >= u.len() || u[p] != ')' {
            Err(ErrorV::ParseToken(Construct::Repeat))
        } else {
            match usize_from_chars(u.subrange(i + 1, p)) {
                Err(k) => Err(ErrorV::ParseInt(k)),
                Ok(n) => {
                    if p + 1 >= u.len() || u[p + 1] != ' ' {
                        Err(ErrorV::ParseToken(Construct::Repeat))
                    } else {
                        match coo_from_str_spec(u.subrange(p + 2, u.len() as int)) {
                            Err(e) => Err(e),
                            Ok(node) => Ok(RepV::Bounded(n as usize, Box::new(node))),
                        }
                    }
                },
            }
        }
    } else if u[i] == ' ' {
        match coo_from_str_spec(u.subrange(i + 1, u.len() as int)) {
            Err(e) => Err(e),
            Ok(node) => Ok(RepV::Unbounded(Box::new(node))),
        }
    } else {
        Err(ErrorV::ParseToken(Construct::Repeat))
    }
}

#[via_fn]
proof fn rep_after_dec(u: Seq<char>, i: int) {
    if 1 <= i < u.len() {
        crate::chars::lemma_alnum_end(u, i + 1);
    }
}

/// What parsing a repeat yields: `r` or `repeat`, then `(count)` and a space
/// for a bounded repeat, or a space alone for an unbounded one, then the
/// body.
pub open spec fn repeat_from_str_spec(s: Seq<char>) -> Result<RepV, ErrorV>
    decreases s.len(), 0int, 2int,
        via repeat_from_str_spec_dec
{
    let u = upper_seq(trimmed(s));
    if u.len() == 0 || u[0] != 'R' {
        Err(ErrorV::ParseToken(Construct::Repeat))
    } else if u.len() == 1 {
        Err(ErrorV::ParseToken(Construct::Repeat))
    } else if u[1] == 'E' {
        if u.len() >= 6 && u.subrange(2, 6) == "PEAT"@ {
            rep_after(u, 6)
        } else {
            Err(ErrorV::ParseToken(Construct::Repeat))
        }
    } else {
        rep_after(u, 1)
    }
}

#[via_fn]
proof fn repeat_from_str_spec_dec(s: Seq<char>) {
    lemma_trimmed_len(s);
}

/// What the top-level parser yields.  The alternatives are tried in a fixed
/// order — numeric literal, the stack-manipulation keywords, chain,
/// conditional, repeat, then the primitive operation families — and the
/// first success wins; when none matches, the aggregate error holds every
/// alternative's own error, in that order.
pub open spec fn coo_from_str_spec(s: Seq<char>) -> Result<NodeV, ErrorV>
    decreases s.len(), 1int, 0int,
{
    match insnum_from_str_spec(s) {
        Ok(t) => Ok(NodeV::Op(OpV::InsNum(t))),
        Err(e0) => match drop_from_str_spec(s) {
            Ok(d) => Ok(NodeV::Command(CmdV::Drop(d))),
            Err(e1) => match dup_from_str_spec(s) {
                Ok(d) => Ok(NodeV::Command(CmdV::Dup(d))),
                Err(e2) => match swap_from_str_spec(s) {
                    Ok(w) => Ok(NodeV::Command(CmdV::Swap(w))),
                    Err(e3) => match reverse_from_str_spec(s) {
                        Ok(_) => Ok(NodeV::Command(CmdV::Reverse)),
                        Err(e4) => match break_from_str_spec(s) {
                            Ok(_) => Ok(NodeV::Command(CmdV::Break)),
                            Err(e5) => match display_from_str_spec(s) {
                                Ok(d) => Ok(NodeV::Command(CmdV::Display(d))),
                                Err(e6) => match input_from_str_spec(s) {
                                    Ok(_) => Ok(NodeV::Command(CmdV::Input)),
                                    Err(e7) => match print_from_str_spec(s) {
                                        Ok(_) => Ok(NodeV::Command(CmdV::Print)),
                                        Err(e8) => match chain_from_str_spec(s) {
                                            Ok(c) => Ok(NodeV::Command(CmdV::Chain(c))),
                                            Err(e9) => match cond_from_str_spec(s) {
                                                Ok(c) => Ok(NodeV::Command(CmdV::Conditional(c))),
                                                Err(e10) => match repeat_from_str_spec(s) {
                                                    Ok(rp) => Ok(
                                                        NodeV::Command(CmdV::Repeat(rp)),
                                                    ),
                                                    Err(e11) => match arith_from_str_spec(s) {
                                                        Ok(a) => Ok(NodeV::Op(OpV::Arith(a))),
                                                        Err(e12) => match constants_from_str_spec(
                                                            s,
                                                        ) {
                                                            Ok(c) => Ok(
                                                                NodeV::Op(OpV::Constants(c)),
                                                            ),
                                                            Err(e13) => match exp_unary_from_str_spec(
                                                                s,
                                                            ) {
                                                                Ok(c) => Ok(
                                                                    NodeV::Op(
                                                                        OpV::ExponentialsUnary(c),
                                                                    ),
                                                                ),
                                                                Err(e14) => match exp_binary_from_str_spec(
                                                                    s,
                                                                ) {
                                                                    Ok(c) => Ok(
                                                                        NodeV::Op(
                                                                            OpV::ExponentialsBinary(
                                                                                c,
                                                                            ),
                                                                        ),
                                                                    ),
                                                                    Err(e15) => match trig_from_str_spec(
                                                                        s,
                                                                    ) {
                                                                        Ok(c) => Ok(
                                                                            NodeV::Op(
                                                                                OpV::Trigonometric(
                                                                                    c,
                                                                                ),
                                                                            ),
                                                                        ),
                                                                        Err(e16) => match cmp_from_str_spec(
                                                                            s,
                                                                        ) {
                                                                            Ok(c) => Ok(
                                                                                NodeV::Op(
                                                                                    OpV::Cmp(c),
                                                                                ),
                                                                            ),
                                                                            Err(
                                                                                e17,
                                                                            ) => match nop_from_str_spec(
                                                                                s,
                                                                            ) {
                                                                                Ok(_) => Ok(
                                                                                    NodeV::Op(
                                                                                        OpV::NOP,
                                                                                    ),
                                                                                ),
                                                                                Err(e18) => Err(
                                                                                    ErrorV::ParseEnum(
                                                                                        seq![
                                                                                            e0,
                                                                                            e1,
                                                                                            e2,
                                                                                            e3,
                                                                                            e4,
                                                                                            e5,
                                                                                            e6,
                                                                                            e7,
                                                                                            e8,
                                                                                            e9,
                                                                                            e10,
                                                                                            e11,
                                                                                            e12,
                                                                                            e13,
                                                                                            e14,
                                                                                            e15,
                                                                                            e16,
                                                                                            e17,
                                                                                            e18,
                                                                                        ],
                                                                                    ),
                                                                                ),
                                                                            },
                                                                        },
                                                                    },
                                                                },
                                                            },
                                                        },
                                                    },
                                                },
                                            },
                                        },
                                    },
                                },
                            },
                        },
                    },
                },
            },
        },
    }
}

proof fn lemma_max_piece_ge(ps: Seq<Seq<char>>, i: int)
    requires
        0 <= i < ps.len(),
    ensures
        ps[i].len() <= max_piece_len(ps),
    decreases ps.len(),
{
    if i > 0 {
        lemma_max_piece_ge(ps.drop_first(), i - 1);
        assert(ps.drop_first()[i - 1] == ps[i]);
    }
}

/// The matching closing bracket: scans `v` from `from` at depth one.
pub(crate) fn find_close_chars(v: &Vec<char>, from: usize) -> (r: usize)
    requires
        1 <= from <= v.len(),
    ensures
        r == find_close(v@, from as int, 1),
        from <= r <= v.len(),
{
    proof {
        lemma_find_close(v@, from as int, 1);
    }
    let mut i: usize = from;
    let mut depth: usize = 1;
    while i < v.len()
        invariant
            1 <= from <= i <= v.len(),
            1 <= depth <= i - from + 1,
            find_close(v@, from as int, 1) == find_close(v@, i as int, depth as int),
        decreases v.len() - i,
    {
        let c = v[i];
        if c == '[' {
            let n = v.len();
            proof {
                assert(i < n && n <= usize::MAX && from >= 1);
                assert(depth < usize::MAX);
            }
            depth += 1;
        } else if c == ']' {
            if depth == 1 {
                return i;
            }
            depth -= 1;
        }
        i += 1;
    }
    i
}

impl Chain {
    #[verifier::loop_isolation(false)]
    #[verifier::rlimit(100)]
    pub(crate) fn from_bare_chars(cs: &Vec<char>) -> (r: Result<Chain, Error>)
        ensures
            match r {
                Ok(c) => from_bare_spec(cs@) == Ok::<Seq<NodeV>, ErrorV>(c@),
                Err(e) => from_bare_spec(cs@) == Err::<Seq<NodeV>, ErrorV>(e@),
            },
        decreases cs@.len(), 3int, 0int,
    {
        let t = trim_chars(cs);
        let mut pieces: Vec<Vec<char>> = Vec::new();
        let mut curr: Vec<char> = Vec::new();
        let mut depth: usize = 0;
        let ghost mut start: int = 0;
        let mut i: usize = 0;
        proof {
            assert(piece_views(pieces@) =~= Seq::<Seq<char>>::empty());
            assert(curr@ =~= t@.subrange(0, 0));
        }
        while i < t.len()
            invariant
                0 <= start <= i as int <= t@.len(),
                depth <= i,
                curr@ == t@.subrange(start, i as int),
                split_top(t@, 0, 0, 0, Seq::empty()) == split_top(
                    t@,
                    i as int,
                    start,
                    depth as int,
                    piece_views(pieces@),
                ),
            decreases t.len() - i,
        {
            let c = t[i];
            if c == '[' {
                depth += 1;
                curr.push('[');
                proof {
                    assert(curr@ =~= t@.subrange(start, i + 1));
                }
            } else if c == ']' {
                if depth == 0 {
                    return Err(Error::UnbBraces);
                }
                depth -= 1;
                curr.push(']');
                proof {
                    assert(curr@ =~= t@.subrange(start, i + 1));
                }
            } else if c == ';' && depth == 0 {
                proof {
                    lemma_piece_views_push(pieces@, curr);
                }
                pieces.push(curr);
                curr = Vec::new();
                proof {
                    start = i + 1;
                    assert(curr@ =~= t@.subrange(start, i + 1));
                }
            } else {
                curr.push(c);
                proof {
                    assert(curr@ =~= t@.subrange(start, i + 1));
                }
            }
            i += 1;
        }
        if depth != 0 {
            return Err(Error::UnbBraces);
        }
        proof {
            lemma_piece_views_push(pieces@, curr);
            assert(curr@ == t@.subrange(start, t@.len() as int));
        }
        pieces.push(curr);
        let ghost pv = piece_views(pieces@);
        proof {
            assert(split_top(t@, 0, 0, 0, Seq::empty()) == Some(pv));
            assert(from_bare_spec(cs@) == parse_pieces(pv));
            lemma_trimmed_len(cs@);
            lemma_split_top_bound(t@, 0, 0, 0, Seq::empty());
        }
        let mut members: Vec<CommandOrOp> = Vec::new();
        let mut j: usize = 0;
        proof {
            assert(nodes_view(members@) =~= Seq::<NodeV>::empty());
            assert(pv.skip(0) =~= pv);
            if parse_pieces(pv) is Ok {
                assert(nodes_view(members@) + parse_pieces(pv)->Ok_0 =~= parse_pieces(pv)->Ok_0);
            }
        }
        while j < pieces.len()
            invariant
                j <= pieces.len(),
                pv == piece_views(pieces@),
                match parse_pieces(pv.skip(j as int)) {
                    Ok(rest) => parse_pieces(pv) == Ok::<Seq<NodeV>, ErrorV>(
                        nodes_view(members@) + rest,
                    ),
                    Err(e) => parse_pieces(pv) == Err::<Seq<NodeV>, ErrorV>(e),
                },
            decreases pieces.len() - j,
        {
            proof {
                lemma_max_piece_ge(pv, j as int);
                assert(pv[j as int] == pieces@[j as int]@);
                assert(pv.skip(j as int)[0] == pv[j as int]);
            }
            let node = match CommandOrOp::from_chars(&pieces[j]) {
                Ok(n) => n,
                Err(e) => {
                    return Err(e);
                },
            };
            proof {
                lemma_nodes_view_push(members@, node);
                assert(pv.skip(j as int).drop_first() =~= pv.skip(j + 1));
            }
            let ghost old_members = members@;
            members.push(node);
            proof {
                if parse_pieces(pv.skip(j + 1)) is Ok {
                    let rest2 = parse_pieces(pv.skip(j + 1))->Ok_0;
                    assert(nodes_view(old_members) + (seq![node@] + rest2) =~= nodes_view(
                        members@,
                    ) + rest2);
                }
            }
            j += 1;
        }
        proof {
            assert(pv.skip(pieces@.len() as int) =~= Seq::<Seq<char>>::empty());
            assert(parse_pieces(pv.skip(pieces@.len() as int)) == Ok::<Seq<NodeV>, ErrorV>(
                Seq::empty(),
            ));
            assert(nodes_view(members@) + Seq::<NodeV>::empty() =~= nodes_view(members@));
        }
        Ok(Chain(members))
    }

    /// Parses the interior of a chain: the text is split on top-level
    /// semicolons and every piece is parsed as a command; unbalanced
    /// brackets fail with the dedicated error.
    pub fn from_bare(input: &str) -> (r: Result<Chain, Error>)
        ensures
            match r {
                Ok(c) => from_bare_spec(input@) == Ok::<Seq<NodeV>, ErrorV>(c@),
                Err(e) => from_bare_spec(input@) == Err::<Seq<NodeV>, ErrorV>(e@),
            },
    {
        let cs = chars_of(input);
        Chain::from_bare_chars(&cs)
    }

    pub(crate) fn from_chars(cs: &Vec<char>) -> (r: Result<Chain, Error>)
        ensures
            match r {
                Ok(c) => chain_from_str_spec(cs@) == Ok::<Seq<NodeV>, ErrorV>(c@),
                Err(e) => chain_from_str_spec(cs@) == Err::<Seq<NodeV>, ErrorV>(e@),
            },
        decreases cs@.len(), 0int, 0int,
    {
        let t = trim_chars(cs);
        if t.len() > 0 && t[0] == '[' && t[t.len() - 1] == ']' {
            let interior = sub_vec(&t, 1, t.len() - 1);
            proof {
                lemma_trimmed_len(cs@);
            }
            Chain::from_bare_chars(&interior)
        } else {
            Err(Error::ParseToken(Construct::Chain))
        }
    }

    /// Parses a bracket-delimited chain.
    pub fn from_str(s: &str) -> (r: Result<Chain, Error>)
        ensures
            match r {
                Ok(c) => chain_from_str_spec(s@) == Ok::<Seq<NodeV>, ErrorV>(c@),
                Err(e) => chain_from_str_spec(s@) == Err::<Seq<NodeV>, ErrorV>(e@),
            },
    {
        let cs = chars_of(s);
        Chain::from_chars(&cs)
    }
}

impl CommandDesc for Chain {
    open spec fn spec_short_name() -> Option<Seq<char>> {
        None
    }

    open spec fn spec_name() -> Seq<char> {
        "[ <Command Or Op>; ... ]"@
    }

    open spec fn spec_description() -> Seq<char> {
        "Allows you to chain commands or operations together"@
    }

    fn short_name() -> Option<&'static str> {
        None
    }

    fn name() -> &'static str {
        "[ <Command Or Op>; ... ]"
    }

    fn description() -> &'static str {
        "Allows you to chain commands or operations together"
    }
}

impl Conditional {
    pub(crate) fn from_chars(cs: &Vec<char>) -> (r: Result<Conditional, Error>)
        ensures
            match r {
                Ok(c) => cond_from_str_spec(cs@) == Ok::<CondV, ErrorV>(c@),
                Err(e) => cond_from_str_spec(cs@) == Err::<CondV, ErrorV>(e@),
            },
        decreases cs@.len(), 0int, 1int,
    {
        let t = trim_chars(cs);
        let u = upper_chars(&t);
        proof {
            lemma_trimmed_len(cs@);
        }
        let (kind, klen): (ConditionalKind, usize) = if u.len() >= 2 && u[0] == 'I' && u[1] == 'F' {
            (ConditionalKind::If, 2)
        } else if u.len() >= 3 && u[0] == 'T' && u[1] == 'R' && u[2] == 'Y' {
            (ConditionalKind::Try, 3)
        } else {
            return Err(Error::ParseToken(Construct::Conditional));
        };
        let i = skip_ws(&u, klen);
        if i >= u.len() {
            return Err(Error::ParseToken(Construct::Conditional));
        }
        if u[i] != '[' {
            return Err(Error::ParseToken(Construct::Conditional));
        }
        let j = find_close_chars(&u, i + 1);
        if j >= u.len() {
            return Err(Error::ParseToken(Construct::Conditional));
        }
        let k = skip_ws(&u, j + 1);
        if k >= u.len() {
            return Err(Error::ParseToken(Construct::Conditional));
        }
        if u[k] != '[' {
            return Err(Error::ParseToken(Construct::Conditional));
        }
        let m = find_close_chars(&u, k + 1);
        if m >= u.len() {
            return Err(Error::ParseToken(Construct::Conditional));
        }
        if m != u.len() - 1 {
            return Err(Error::ParseToken(Construct::Conditional));
        }
        let first_v = sub_vec(&u, i, j + 1);
        let second_v = sub_vec(&u, k, m + 1);
        let c1 = match Chain::from_chars(&first_v) {
            Ok(c) => c,
            Err(e) => {
                return Err(e);
            },
        };
        let c2 = match Chain::from_chars(&second_v) {
            Ok(c) => c,
            Err(e) => {
                return Err(e);
            },
        };
        Ok(Conditional { kind, first: c1, second: c2 })
    }

    /// Parses `if` / `try` followed by two bracketed branches.
    pub fn from_str(s: &str) -> (r: Result<Conditional, Error>)
        ensures
            match r {
                Ok(c) => cond_from_str_spec(s@) == Ok::<CondV, ErrorV>(c@),
                Err(e) => cond_from_str_spec(s@) == Err::<CondV, ErrorV>(e@),
            },
    {
        let cs = chars_of(s);
        Conditional::from_chars(&cs)
    }
}

impl CommandDesc for Conditional {
    open spec fn spec_short_name() -> Option<Seq<char>> {
        None
    }

    open spec fn spec_name() -> Seq<char> {
        "if [ <First Command or Op> ] [ <Second Command or Op> ] | try [ <First Command or Op> ] [ <Command or Op on failure> ]"@
    }

    open spec fn spec_description() -> Seq<char> {
        "If: Pops the value at the top of the stack, executes the first command if nonzero, otherwise the other. Try: Runs the first command. If an error occurs during execution, the command is interrupted and the second command is run."@
    }

    fn short_name() -> Option<&'static str> {
        None
    }

    fn name() -> &'static str {
        "if [ <First Command or Op> ] [ <Second Command or Op> ] | try [ <First Command or Op> ] [ <Command or Op on failure> ]"
    }

    fn description() -> &'static str {
        "If: Pops the value at the top of the stack, executes the first command if nonzero, otherwise the other. Try: Runs the first command. If an error occurs during execution, the command is interrupted and the second command is run."
    }
}

impl Repeat {
    pub(crate) fn from_chars(cs: &Vec<char>) -> (r: Result<Repeat, Error>)
        ensures
            match r {
                Ok(rp) => repeat_from_str_spec(cs@) == Ok::<RepV, ErrorV>(rp@),
                Err(e) => repeat_from_str_spec(cs@) == Err::<RepV, ErrorV>(e@),
            },
        decreases cs@.len(), 0int, 2int,
    {
        let t = trim_chars(cs);
        let u = upper_chars(&t);
        proof {
            lemma_trimmed_len(cs@);
        }
        if u.len() == 0 || u[0] != 'R' {
            return Err(Error::ParseToken(Construct::Repeat));
        }
        if u.len() == 1 {
            return Err(Error::ParseToken(Construct::Repeat));
        }
        let i: usize = if u[1] == 'E' {
            if u.len() >= 6 {
                let sub = sub_vec(&u, 2, 6);
                if eq_lit(&sub, "PEAT") {
                    6
                } else {
                    return Err(Error::ParseToken(Construct::Repeat));
                }
            } else {
                return Err(Error::ParseToken(Construct::Repeat));
            }
        } else {
            1
        };
        proof {
            assert(repeat_from_str_spec(cs@) == rep_after(u@, i as int));
        }
        if i >= u.len() {
            return Err(Error::ParseToken(Construct::Repeat));
        }
        let c = u[i];
        if c == '(' {
            let p = skip_alnum(&u, i + 1);
            if p >= u.len() {
                return Err(Error::ParseToken(Construct::Repeat));
            }
            if u[p] != ')' {
                return Err(Error::ParseToken(Construct::Repeat));
            }
            let count_v = sub_vec(&u, i + 1, p);
            let n = match parse_usize_chars(&count_v) {
                Ok(n) => n,
                Err(k) => {
                    return Err(Error::ParseInt(k));
                },
            };
            if p + 1 >= u.len() {
                return Err(Error::ParseToken(Construct::Repeat));
            }
            if u[p + 1] != ' ' {
                return Err(Error::ParseToken(Construct::Repeat));
            }
            let rest = sub_vec(&u, p + 2, u.len());
            match CommandOrOp::from_chars(&rest) {
                Ok(node) => Ok(Repeat::Bounded(n, Box::new(node))),
                Err(e) => Err(e),
            }
        } else if c == ' ' {
            let rest = sub_vec(&u, i + 1, u.len());
            match CommandOrOp::from_chars(&rest) {
                Ok(node) => Ok(Repeat::Unbounded(Box::new(node))),
                Err(e) => Err(e),
            }
        } else {
            Err(Error::ParseToken(Construct::Repeat))
        }
    }

    /// Parses `r` / `repeat`, with `(count)` for a bounded repeat, then the
    /// body.
    pub fn from_str(s: &str) -> (r: Result<Repeat, Error>)
        ensures
            match r {
                Ok(rp) => repeat_from_str_spec(s@) == Ok::<RepV, ErrorV>(rp@),
                Err(e) => repeat_from_str_spec(s@) == Err::<RepV, ErrorV>(e@),
            },
    {
        let cs = chars_of(s);
        Repeat::from_chars(&cs)
    }
}

impl CommandDesc for Repeat {
    open spec fn spec_short_name() -> Option<Seq<char>> {
        Some("R(int) | R"@)
    }

    open spec fn spec_name() -> Seq<char> {
        "Repeat(int) | Repeat"@
    }

    open spec fn spec_description() -> Seq<char> {
        "Repeats a command a specified number of times, or if argument not provided, until an error is yielded or a precompiled limit is reached"@
    }

    fn short_name() -> Option<&'static str> {
        Some("R(int) | R")
    }

    fn name() -> &'static str {
        "Repeat(int) | Repeat"
    }

    fn description() -> &'static str {
        "Repeats a command a specified number of times, or if argument not provided, until an error is yielded or a precompiled limit is reached"
    }
}

impl CommandOrOp {
    #[verifier::rlimit(80)]
    pub(crate) fn from_chars(cs: &Vec<char>) -> (r: Result<CommandOrOp, Error>)
        ensures
            match r {
                Ok(n) => coo_from_str_spec(cs@) == Ok::<NodeV, ErrorV>(n@),
                Err(e) => coo_from_str_spec(cs@) == Err::<NodeV, ErrorV>(e@),
            },
        decreases cs@.len(), 1int, 0int,
    {
        let e0 = match InsNum::from_chars(cs) {
            Ok(n) => {
                return Ok(CommandOrOp::Op(OpEnum::InsNum(n)));
            },
            Err(e) => e,
        };
        let e1 = match Drop::from_chars(cs) {
            Ok(d) => {
                return Ok(CommandOrOp::Command(CommandEnum::Drop(d)));
            },
            Err(e) => e,
        };
        let e2 = match Dup::from_chars(cs) {
            Ok(d) => {
                return Ok(CommandOrOp::Command(CommandEnum::Dup(d)));
            },
            Err(e) => e,
        };
        let e3 = match Swap::from_chars(cs) {
            Ok(w) => {
                return Ok(CommandOrOp::Command(CommandEnum::Swap(w)));
            },
            Err(e) => e,
        };
        let e4 = match Reverse::from_chars(cs) {
            Ok(v) => {
                return Ok(CommandOrOp::Command(CommandEnum::Reverse(v)));
            },
            Err(e) => e,
        };
        let e5 = match Break::from_chars(cs) {
            Ok(b) => {
                return Ok(CommandOrOp::Command(CommandEnum::Break(b)));
            },
            Err(e) => e,
        };
        let e6 = match Display::from_chars(cs) {
            Ok(d) => {
                return Ok(CommandOrOp::Command(CommandEnum::Display(d)));
            },
            Err(e) => e,
        };
        let e7 = match Input::from_chars(cs) {
            Ok(v) => {
                return Ok(CommandOrOp::Command(CommandEnum::Input(v)));
            },
            Err(e) => e,
        };
        let e8 = match Print::from_chars(cs) {
            Ok(v) => {
                return Ok(CommandOrOp::Command(CommandEnum::Print(v)));
            },
            Err(e) => e,
        };
        let e9 = match Chain::from_chars(cs) {
            Ok(c) => {
                return Ok(CommandOrOp::Command(CommandEnum::Chain(c)));
            },
            Err(e) => e,
        };
        let e10 = match Conditional::from_chars(cs) {
            Ok(c) => {
                return Ok(CommandOrOp::Command(CommandEnum::Conditional(c)));
            },
            Err(e) => e,
        };
        let e11 = match Repeat::from_chars(cs) {
            Ok(rp) => {
                return Ok(CommandOrOp::Command(CommandEnum::Repeat(rp)));
            },
            Err(e) => e,
        };
        let e12 = match Arith::from_chars(cs) {
            Ok(a) => {
                return Ok(CommandOrOp::Op(OpEnum::Arith(a)));
            },
            Err(e) => e,
        };
        let e13 = match Constants::from_chars(cs) {
            Ok(c) => {
                return Ok(CommandOrOp::Op(OpEnum::Constants(c)));
            },
            Err(e) => e,
        };
        let e14 = match ExponentialsUnary::from_chars(cs) {
            Ok(c) => {
                return Ok(CommandOrOp::Op(OpEnum::ExponentialsUnary(c)));
            },
            Err(e) => e,
        };
        let e15 = match ExponentialsBinary::from_chars(cs) {
            Ok(c) => {
                return Ok(CommandOrOp::Op(OpEnum::ExponentialsBinary(c)));
            },
            Err(e) => e,
        };
        let e16 = match Trigonometric::from_chars(cs) {
            Ok(c) => {
                return Ok(CommandOrOp::Op(OpEnum::Trigonometric(c)));
            },
            Err(e) => e,
        };
        let e17 = match Cmp::from_chars(cs) {
            Ok(c) => {
                return Ok(CommandOrOp::Op(OpEnum::Cmp(c)));
            },
            Err(e) => e,
        };
        let e18 = match NOP::from_chars(cs) {
            Ok(n) => {
                return Ok(CommandOrOp::Op(OpEnum::NOP(n)));
            },
            Err(e) => e,
        };
        let ghost evs = seq![
            e0@,
            e1@,
            e2@,
            e3@,
            e4@,
            e5@,
            e6@,
            e7@,
            e8@,
            e9@,
            e10@,
            e11@,
            e12@,
            e13@,
            e14@,
            e15@,
            e16@,
            e17@,
            e18@,
        ];
        let errs = vec![
            e0,
            e1,
            e2,
            e3,
            e4,
            e5,
            e6,
            e7,
            e8,
            e9,
            e10,
            e11,
            e12,
            e13,
            e14,
            e15,
            e16,
            e17,
            e18,
        ];
        proof {
            broadcast use crate::error::lemma_errors_view_len, crate::error::lemma_errors_view_index;

            assert(crate::error::errors_view(errs@) =~= evs);
        }
        Err(Error::ParseEnum(errs))
    }

    /// The top-level parser: one line of input becomes one command-tree
    /// node.  Alternatives are tried in a fixed order and the first success
    /// wins; when none matches, every alternative's error is collected.
    pub fn from_str(s: &str) -> (r: Result<CommandOrOp, Error>)
        ensures
            match r {
                Ok(n) => coo_from_str_spec(s@) == Ok::<NodeV, ErrorV>(n@),
                Err(e) => coo_from_str_spec(s@) == Err::<NodeV, ErrorV>(e@),
            },
    {
        let cs = chars_of(s);
        CommandOrOp::from_chars(&cs)
    }
}

impl CommandDesc for Display {
    open spec fn spec_short_name() -> Option<Seq<char>> {
        Some("Disp \"<Escaped String>\""@)
    }

    open spec fn spec_name() -> Seq<char> {
        "Display \"<Escaped String>\""@
    }

    open spec fn spec_description() -> Seq<char> {
        "Prints an escaped string to the command line. Only escaped characters are double quotes and backslashes, both escaped with a preceeding backslash."@
    }

    fn short_name() -> Option<&'static str> {
        Some("Disp \"<Escaped String>\"")
    }

    fn name() -> &'static str {
        "Display \"<Escaped String>\""
    }

    fn description() -> &'static str {
        "Prints an escaped string to the command line. Only escaped characters are double quotes and backslashes, both escaped with a preceeding backslash."
    }
}

} // verus!
