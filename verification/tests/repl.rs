//! Tests of the interactive layer's dispatch and the help registry.

use rpncalc::command::{CommandEnum, CommandOrOp};
use rpncalc::ops::OpEnum;
use rpncalc::repl::{comm_names_descriptions, op_names_descriptions, Help, Input};

#[test]
fn repl_exit_and_quit() {
    assert!(matches!(Input::from_str("exit"), Ok(Input::Exit)));
    assert!(matches!(Input::from_str("  QUIT "), Ok(Input::Exit)));
}

#[test]
fn repl_help() {
    assert!(matches!(Input::from_str("h"), Ok(Input::Help)));
    assert!(matches!(Input::from_str("Help"), Ok(Input::Help)));
    assert!(matches!(Help::from_str("HELP"), Ok(Help)));
    assert!(Help::from_str("halp").is_err());
}

#[test]
fn repl_commands_pass_through() {
    assert!(matches!(
        Input::from_str("drop 2"),
        Ok(Input::CommandOrOp(CommandOrOp::Command(CommandEnum::Drop(_))))
    ));
    assert!(matches!(
        Input::from_str("3.5"),
        Ok(Input::CommandOrOp(CommandOrOp::Op(OpEnum::InsNum(_))))
    ));
    // an empty line is the no-op command, not a parse failure
    assert!(matches!(
        Input::from_str("   "),
        Ok(Input::CommandOrOp(CommandOrOp::Op(OpEnum::NOP(_))))
    ));
    assert!(Input::from_str("frobnicate").is_err());
}

#[test]
fn repl_registry_is_complete() {
    let commands = comm_names_descriptions();
    let ops = op_names_descriptions();
    // every row, in declaration order
    let expected_commands = [
        (Some("D [int]"), "Drop [int]"),
        (Some("Dup [int]"), "Duplicate [int]"),
        (Some("S"), "Swap"),
        (Some("Rev"), "Reverse"),
        (Some("R(int) | R"), "Repeat(int) | Repeat"),
        (None, "[ <Command Or Op>; ... ]"),
        (
            None,
            "if [ <First Command or Op> ] [ <Second Command or Op> ] | try [ <First Command or Op> ] [ <Command or Op on failure> ]",
        ),
        (None, "Break"),
        (Some("I"), "Input"),
        (Some("Disp \"<Escaped String>\""), "Display \"<Escaped String>\""),
        (Some("P"), "Print"),
    ];
    let expected_ops = [
        (None, "<Number>"),
        (None, "+ - * /"),
        (None, "Pi | E | Inf"),
        (None, "Log10 | Log2 | LogE | Root2"),
        (None, "Pow | LogN | RootN"),
        (None, "Sin | Cos | Tan | ASin | ACos | ATan"),
        (None, "= | != | > | >= | < | <="),
        (None, "<Empty>"),
    ];
    assert_eq!(commands.len(), expected_commands.len());
    for (row, want) in commands.iter().zip(expected_commands.iter()) {
        assert_eq!(row.0, want.0);
        assert_eq!(row.1, want.1);
        assert!(!row.2.is_empty());
    }
    assert_eq!(ops.len(), expected_ops.len());
    for (row, want) in ops.iter().zip(expected_ops.iter()) {
        assert_eq!(row.0, want.0);
        assert_eq!(row.1, want.1);
        assert!(!row.2.is_empty());
    }
}

#[test]
fn repl_keyword_round_trips() {
    // every keyword command's accepted spellings, upper-cased, parse back
    // to the same variant
    let spellings: [(&str, fn(&CommandOrOp) -> bool); 14] = [
        ("D", |c| matches!(c, CommandOrOp::Command(CommandEnum::Drop(_)))),
        ("DROP", |c| matches!(c, CommandOrOp::Command(CommandEnum::Drop(_)))),
        ("DUP 1", |c| matches!(c, CommandOrOp::Command(CommandEnum::Dup(_)))),
        ("DUPLICATE 1", |c| matches!(c, CommandOrOp::Command(CommandEnum::Dup(_)))),
        ("S", |c| matches!(c, CommandOrOp::Command(CommandEnum::Swap(_)))),
        ("SWAP", |c| matches!(c, CommandOrOp::Command(CommandEnum::Swap(_)))),
        ("REV", |c| matches!(c, CommandOrOp::Command(CommandEnum::Reverse(_)))),
        ("REVERSE", |c| matches!(c, CommandOrOp::Command(CommandEnum::Reverse(_)))),
        ("BREAK", |c| matches!(c, CommandOrOp::Command(CommandEnum::Break(_)))),
        ("I", |c| matches!(c, CommandOrOp::Command(CommandEnum::Input(_)))),
        ("INPUT", |c| matches!(c, CommandOrOp::Command(CommandEnum::Input(_)))),
        ("P", |c| matches!(c, CommandOrOp::Command(CommandEnum::Print(_)))),
        ("PRINT", |c| matches!(c, CommandOrOp::Command(CommandEnum::Print(_)))),
        ("DISPLAY \"X\"", |c| matches!(c, CommandOrOp::Command(CommandEnum::Display(_)))),
    ];
    for (text, check) in spellings {
        let parsed = CommandOrOp::from_str(text).unwrap();
        assert!(check(&parsed), "{} parsed to the wrong variant", text);
        // lower-case spellings land on the same variant
        let lower = text.to_lowercase();
        let parsed_lower = CommandOrOp::from_str(&lower).unwrap();
        assert!(check(&parsed_lower), "{} parsed to the wrong variant", lower);
    }
}
