//! Behavior of the command parser, the inbound splitter, the sink
//! formatting and the text utilities.

use chatterm::gateway::{split_inbound, Settings};
use chatterm::parser::{parse, Command, Error};
use chatterm::sink::{fit_frame, prepare_update, render_terminal_layout};
use chatterm::text::{eq_str, find_char, parse_usize, split_ws, to_decimal, trim};

#[test]
fn parse_new_uses_defaults() {
    match parse("new") {
        Ok(Command::New { height, private }) => {
            assert_eq!(height, 20);
            assert!(!private);
        }
        _ => panic!("expected a new command"),
    }
}

#[test]
fn parse_new_reads_height_and_private() {
    match parse("new height=5 private") {
        Ok(Command::New { height, private }) => {
            assert_eq!(height, 5);
            assert!(private);
        }
        _ => panic!("expected a new command"),
    }
}

#[test]
fn parse_new_last_height_wins() {
    match parse("new height=5 height=9") {
        Ok(Command::New { height, .. }) => assert_eq!(height, 9),
        _ => panic!("expected a new command"),
    }
}

#[test]
fn parse_new_bad_number_is_invalid() {
    assert!(matches!(parse("new height=abc"), Err(Error::InvalidNumber)));
    assert!(matches!(parse("new height="), Err(Error::InvalidNumber)));
}

#[test]
fn parse_new_overflowing_number_is_invalid() {
    assert!(matches!(
        parse("new height=18446744073709551616"),
        Err(Error::InvalidNumber)
    ));
}

#[test]
fn parse_new_height_over_limit_is_rejected() {
    match parse("new height=100000") {
        Err(Error::HeightToLarge(h)) => assert_eq!(h, 100000),
        _ => panic!("expected the height-too-large error"),
    }
}

#[test]
fn parse_new_bare_height_is_missing_argument() {
    match parse("new height") {
        Err(Error::MissingArgument(m)) => assert_eq!(m, "int after 'height'"),
        _ => panic!("expected a missing-argument error"),
    }
}

#[test]
fn parse_remove() {
    assert!(matches!(parse("remove"), Ok(Command::Remove)));
}

#[test]
fn parse_run_takes_the_rest() {
    match parse("run ls -la") {
        Ok(Command::Run(code)) => assert_eq!(code, "ls -la"),
        _ => panic!("expected a run command"),
    }
}

#[test]
fn parse_run_trims_the_payload() {
    match parse("run   echo hi  ") {
        Ok(Command::Run(code)) => assert_eq!(code, "echo hi"),
        _ => panic!("expected a run command"),
    }
}

#[test]
fn parse_bare_run_is_missing_argument() {
    match parse("run") {
        Err(Error::MissingArgument(m)) => assert_eq!(m, "code after 'run'"),
        _ => panic!("expected a missing-argument error"),
    }
}

#[test]
fn parse_backtick_code_literal() {
    match parse("`ls -la`") {
        Ok(Command::Run(code)) => assert_eq!(code, "ls -la"),
        _ => panic!("expected a run command"),
    }
}

#[test]
fn parse_unclosed_backtick_fails() {
    assert!(matches!(parse("`ls"), Err(Error::MissingEndToCodeBlock)));
}

#[test]
fn parse_empty_input_is_no_action() {
    assert!(matches!(parse(""), Err(Error::NoAction)));
}

#[test]
fn parse_unknown_command_fails() {
    match parse("frobnicate now") {
        Err(Error::UnrecognizedCommand(w)) => assert_eq!(w, "frobnicate"),
        _ => panic!("expected an unrecognized-command error"),
    }
}

#[test]
fn parse_errors_describe_themselves() {
    assert_eq!(Error::NoAction.describe(), "no command was supplied");
    assert_eq!(
        Error::UnrecognizedCommand(String::from("blah")).describe(),
        "blah is not a valid command"
    );
    assert_eq!(
        Error::MissingArgument(String::from("int after 'height'")).describe(),
        "missing required argument 'int after 'height''"
    );
    assert_eq!(
        Error::HeightToLarge(1234).describe(),
        "height limit is 1000 but you tried to set it to 1234"
    );
    assert_eq!(Error::InvalidNumber.describe(), "not a valid number");
    assert_eq!(
        Error::MissingEndToCodeBlock.describe(),
        "missing end to code block"
    );
}

#[test]
fn split_inbound_separates_id_and_command() {
    match split_inbound("$term echo hi", '$') {
        Some((id, cmd)) => {
            assert_eq!(id, "term");
            assert_eq!(cmd, "echo hi");
        }
        None => panic!("expected a split"),
    }
}

#[test]
fn split_inbound_without_prefix_is_ignored() {
    assert!(split_inbound("hello there", '$').is_none());
    assert!(split_inbound("", '$').is_none());
}

#[test]
fn split_inbound_without_space_has_empty_command() {
    match split_inbound("$solo", '$') {
        Some((id, cmd)) => {
            assert_eq!(id, "solo");
            assert_eq!(cmd, "");
        }
        None => panic!("expected a split"),
    }
}

#[test]
fn authorization_needs_a_shared_role() {
    let settings = Settings::new(vec![1, 2], '$');
    assert!(settings.is_authorized(&vec![9, 2]));
    assert!(!settings.is_authorized(&vec![5]));
    assert!(!settings.is_authorized(&vec![]));
}

#[test]
fn fit_frame_drops_oldest_lines_first() {
    assert_eq!(fit_frame("aaa\nbbb\nccc", 8), "bbb\nccc");
    assert_eq!(fit_frame("aaa\nbbb\nccc", 3), "ccc");
}

#[test]
fn fit_frame_keeps_fitting_frames() {
    assert_eq!(fit_frame("short", 100), "short");
}

#[test]
fn fit_frame_keeps_a_single_oversized_line() {
    assert_eq!(fit_frame("abcdefgh", 3), "abcdefgh");
}

#[test]
fn layout_fences_the_frame() {
    assert_eq!(render_terminal_layout("hi"), "```\nhi```");
    assert_eq!(prepare_update(String::from("hi")), "```\nhi```");
}

#[test]
fn to_decimal_renders_exact_digits() {
    assert_eq!(to_decimal(0), "0");
    assert_eq!(to_decimal(7), "7");
    assert_eq!(to_decimal(907), "907");
    assert_eq!(to_decimal(18446744073709551615), "18446744073709551615");
}

#[test]
fn parse_usize_accepts_digits_only() {
    assert_eq!(parse_usize("0"), Some(0));
    assert_eq!(parse_usize("1000"), Some(1000));
    assert_eq!(parse_usize("18446744073709551615"), Some(usize::MAX));
    assert_eq!(parse_usize("18446744073709551616"), None);
    assert_eq!(parse_usize(""), None);
    assert_eq!(parse_usize("12a"), None);
    assert_eq!(parse_usize("-3"), None);
}

#[test]
fn text_helpers_behave() {
    assert_eq!(trim("  padded \t"), "padded");
    assert_eq!(find_char("abc", 'b'), Some(1));
    assert_eq!(find_char("abc", 'z'), None);
    assert!(eq_str("same", "same"));
    assert!(!eq_str("same", "sane"));
    let words = split_ws("a b  c");
    assert_eq!(words, vec!["a", "b", "", "c"]);
}
