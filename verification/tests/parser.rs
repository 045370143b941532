//! Tests for the line parser and the command builder.

use millsim::actions::{Command, Global, Movement};
use millsim::parser::Line;
use millsim::types::Micrometer;
use millsim::words::{GWord, MWord, Word};

fn words_of(text: &str) -> Vec<Word> {
    match Line::parse(text).unwrap() {
        Line::Code(ws) => ws.0,
        other => panic!("expected a code line, got {:?}", other),
    }
}

#[test]
fn parse_g() {
    let s = "G0 G1 G2KG3 X15 Y60";
    println!("{:?}", Line::parse(s));
}

#[test]
fn parse_error_names_rest() {
    let e = Line::parse("G0 G1 G2KG3 X15 Y60").unwrap_err();
    assert_eq!(e.0.as_str(), "Invalid syntax at 'KG3 X15 Y60'");
    let e = Line::parse("%MPF1 G0").unwrap_err();
    assert_eq!(e.0.as_str(), "Invalid syntax at 'G0'");
    let e = Line::parse("  ?").unwrap_err();
    assert_eq!(e.0.as_str(), "Invalid syntax at '?'");
}

#[test]
fn parse_headers() {
    assert!(matches!(Line::parse("%MPF1"), Ok(Line::MainProgram(1))));
    assert!(matches!(Line::parse("%SPF17  "), Ok(Line::SubProgram(17))));
    assert!(matches!(Line::parse(""), Ok(Line::Empty)));
    assert!(matches!(Line::parse("    "), Ok(Line::Empty)));
    // An overflowing designator is no header.
    let e = Line::parse("%MPF256").unwrap_err();
    assert_eq!(e.0.as_str(), "Invalid syntax at '%MPF256'");
}

#[test]
fn parse_words() {
    let ws = words_of("N10 G1 X1.5 Y-2 F200 S1000 D3 (cut) R5=1.25 L7 P2 M8");
    assert_eq!(ws[0], Word::N(10));
    assert_eq!(ws[1], Word::G(GWord::G1));
    assert_eq!(ws[2], Word::X(Micrometer(1500)));
    assert_eq!(ws[3], Word::Y(Micrometer(-2000)));
    assert_eq!(ws[4], Word::F(200));
    assert_eq!(ws[5], Word::S(1000));
    assert_eq!(ws[6], Word::D(3));
    assert_eq!(ws[7], Word::Comment(String::from("cut")));
    assert_eq!(ws[8], Word::R(5, Micrometer(1250)));
    assert_eq!(ws[9], Word::L(7));
    assert_eq!(ws[10], Word::P(2));
    assert_eq!(ws[11], Word::M(MWord::M8));
}

#[test]
fn parse_comment_without_close() {
    let ws = words_of("G0 (half open");
    assert_eq!(ws[1], Word::Comment(String::from("half open")));
}

#[test]
fn unknown_codes() {
    let e = Line::parse("G5").unwrap_err();
    assert_eq!(e.0.as_str(), "Unknown G code 'G5'");
    let e = Line::parse("M1").unwrap_err();
    assert_eq!(e.0.as_str(), "Unknown M code 'M1'");
}

#[test]
fn from_number_words() {
    assert_eq!(GWord::from_number(90).unwrap(), GWord::G90);
    assert_eq!(
        GWord::from_number(4).unwrap_err().0.as_str(),
        "Unknown G code 'G4'"
    );
    assert_eq!(MWord::from_number(17).unwrap(), MWord::M17);
    assert_eq!(
        MWord::from_number(7).unwrap_err().0.as_str(),
        "Unknown M code 'M7'"
    );
}

#[test]
fn word_is_executable() {
    assert!(!Word::N(1).is_executable());
    assert!(!Word::Comment(String::from("x")).is_executable());
    assert!(Word::G(GWord::G0).is_executable());
    assert!(Word::X(Micrometer(1)).is_executable());
}

#[test]
fn build_command() {
    let ws = words_of("N10 G1 X1.5 F200 (a)(b)");
    let cmd = Command::from_gcode(&ws).unwrap();
    assert_eq!(cmd.n, Some(10));
    assert_eq!(cmd.movement, Some(Movement::Line));
    assert_eq!(cmd.raw_x, Some(Micrometer(1500)));
    assert_eq!(cmd.feed, Some(200));
    assert_eq!(cmd.comment.as_str(), "ab");
    assert_eq!(cmd.raw.0.len(), 6);
    assert!(cmd.global.is_none());
}

#[test]
fn build_command_l_words() {
    let ws = words_of("L7 P2");
    let cmd = Command::from_gcode(&ws).unwrap();
    assert_eq!(cmd.global, Some(Global::CallSub(7)));
    assert_eq!(cmd.p, Some(2));
    let ws = words_of("L80");
    let cmd = Command::from_gcode(&ws).unwrap();
    assert_eq!(cmd.movement, Some(Movement::BuiltinCycle(80)));
}

#[test]
fn build_command_duplicates() {
    let ws = words_of("G0 G1");
    let e = Command::from_gcode(&ws).unwrap_err();
    assert_eq!(
        e.0.as_str(),
        "Double command: 'G0 (fast move)' and 'G1 (linear move)'"
    );
    let ws = words_of("M2 L7");
    let e = Command::from_gcode(&ws).unwrap_err();
    assert_eq!(
        e.0.as_str(),
        "Double command: 'M2 (program end)' and 'L (subroutine call)'"
    );
    let ws = words_of("X1 X2.5");
    let e = Command::from_gcode(&ws).unwrap_err();
    assert_eq!(e.0.as_str(), "Double 'X' command: '1.000' and '2.500'");
    let ws = words_of("Y-.42 Y1");
    let e = Command::from_gcode(&ws).unwrap_err();
    assert_eq!(e.0.as_str(), "Double 'Y' command: '-0.420' and '1.000'");
    let ws = words_of("N1 N2");
    let e = Command::from_gcode(&ws).unwrap_err();
    assert_eq!(e.0.as_str(), "Double 'N[umber]' command: '1' and '2'");
    let ws = words_of("S100 S200");
    let e = Command::from_gcode(&ws).unwrap_err();
    assert_eq!(e.0.as_str(), "Double 'S[peed]' command: '100' and '200'");
}

#[test]
fn words_echo() {
    let ws = match Line::parse("N1 G0 X1.5 (hi)").unwrap() {
        Line::Code(ws) => ws,
        _ => unreachable!(),
    };
    assert_eq!(ws.to_text().as_str(), "N1 G0 X1.500 (hi)");
}
