//! Tests for the program structurer and the executor.

use millsim::actions::{Global, Movement};
use millsim::errors::LineError;
use millsim::file::GCodeFile;
use millsim::program::Program;
use millsim::types::Micrometer;

fn program_of(text: &str) -> Result<Program, LineError> {
    let lines: Vec<String> = text.lines().map(|s| s.to_string()).collect();
    let file = GCodeFile::from_lines(&lines)?;
    Program::from_file(file)
}

#[test]
fn printable_echoes_lines() {
    let lines: Vec<String> = vec![
        "%MPF1".to_string(),
        " G0  Z150 (up)".to_string(),
        "".to_string(),
        "M2".to_string(),
    ];
    let file = GCodeFile::from_lines(&lines).unwrap();
    assert_eq!(file.printable().as_str(), "%MPF1\nG0 Z150.000 (up)\n\nM2\n");
}

#[test]
fn loader_counts_lines() {
    let lines: Vec<String> = vec!["%MPF1".to_string(), "G0 Z150".to_string(), "M2".to_string()];
    let file = GCodeFile::from_lines(&lines).unwrap();
    assert_eq!(file.code.len(), 3);
    let lines: Vec<String> = vec!["G0".to_string(), "G0 G2KG3".to_string()];
    let e = GCodeFile::from_lines(&lines).unwrap_err();
    assert_eq!(e.line, Some(2));
    assert_eq!(e.error.0.as_str(), "Invalid syntax at 'KG3'");
    assert_eq!(e.to_text(), "At line 2:\nError: Invalid syntax at 'KG3'\n");
}

#[test]
fn structurer_accepts_terminated_blocks() {
    let p = program_of("%MPF1\nG0 Z150\nM2\n%SPF7\nG1 X10\nM17\n").unwrap();
    assert_eq!(p.main_programs.len(), 1);
    assert_eq!(p.sub_programs.len(), 1);
    assert_eq!(p.main_programs[0].0, 1);
    assert_eq!(p.main_programs[0].1.file_line, 1);
    assert_eq!(p.main_programs[0].1.code.len(), 2);
    assert_eq!(p.sub_programs[0].0, 7);
    assert_eq!(p.sub_programs[0].1.file_line, 4);
}

#[test]
fn structurer_orders_keys() {
    let p = program_of("%MPF9\nM2\n%MPF1\nM2\n%MPF5\nM2\n").unwrap();
    let keys: Vec<u8> = p.main_programs.iter().map(|b| b.0).collect();
    assert_eq!(keys, vec![1, 5, 9]);
}

#[test]
fn structurer_appends_repeated_headers() {
    let p = program_of("%MPF1\nG0 Z150\n%MPF1\nM2\n").unwrap();
    assert_eq!(p.main_programs.len(), 1);
    assert_eq!(p.main_programs[0].1.code.len(), 2);
    assert_eq!(p.main_programs[0].1.file_line, 1);
}

#[test]
fn structurer_rejects_loose_code() {
    let e = program_of("G0 Z150\n").unwrap_err();
    assert_eq!(e.error.0.as_str(), "Code line with no program");
    assert_eq!(e.line, Some(1));
}

#[test]
fn terminator_law_violations() {
    let e = program_of("%MPF1\nG0 Z150\n").unwrap_err();
    assert_eq!(e.error.0.as_str(), "Main program #1 does not end with M2");
    assert_eq!(e.line, Some(1));
    let e = program_of("%MPF2\nM2\n%SPF3\nG1 X1\n").unwrap_err();
    assert_eq!(e.error.0.as_str(), "Subprogram #3 does not end with M17");
    assert_eq!(e.line, Some(3));
    // Trailing empty and non-executable lines do not count.
    program_of("%MPF1\nM2\nN5 (done)\n\n").unwrap();
    // The terminator must stand alone on its line.
    let e = program_of("%MPF1\nG0 Z150 M2\n").unwrap_err();
    assert_eq!(e.error.0.as_str(), "Main program #1 does not end with M2");
}

#[test]
fn executor_picks_main_program() {
    let p = program_of("%MPF2\nM2\n%MPF5\nM2\n").unwrap();
    assert!(p.execute(None).is_ok());
    assert!(p.execute(Some(5)).is_ok());
    let e = p.execute(Some(9)).unwrap_err();
    assert_eq!(e.0.as_str(), "Program %9 not found");
    let p = program_of("%SPF1\nM17\n").unwrap();
    let e = p.execute(None).unwrap_err();
    assert_eq!(e.0.as_str(), "No main programs found");
}

#[test]
fn executor_repeats_subprogram() {
    let p = program_of("%MPF1\nL7 P2\nM2\n%SPF7\nG1 X10 Y0\nM17\n").unwrap();
    let mut ex = p.execute(None).unwrap();
    let mut stream: Vec<(u64, Option<Movement>, Option<Global>)> = Vec::new();
    while let Some(item) = ex.next() {
        let (line, cmd) = item.unwrap();
        stream.push((line, cmd.movement, cmd.global));
    }
    // The subprogram body runs three times: once for the call and twice
    // more for `P2`; the main program then ends.
    let cuts: Vec<&(u64, Option<Movement>, Option<Global>)> = stream
        .iter()
        .filter(|t| t.1 == Some(Movement::Line))
        .collect();
    assert_eq!(cuts.len(), 3);
    assert!(cuts.iter().all(|t| t.0 == 5));
    let expected: Vec<Option<Global>> = vec![
        Some(Global::CallSub(7)),
        None,
        Some(Global::ReturnSub),
        None,
        Some(Global::ReturnSub),
        None,
        Some(Global::ReturnSub),
        Some(Global::EndProgram),
    ];
    let globals: Vec<Option<Global>> = stream.iter().map(|t| t.2).collect();
    assert_eq!(globals, expected);
}

#[test]
fn executor_call_errors() {
    let p = program_of("%MPF1\nL7 P1\nM2\n").unwrap();
    let mut ex = p.execute(None).unwrap();
    let e = ex.next().unwrap().unwrap_err();
    assert_eq!(e.error.0.as_str(), "Subroutine L7 not found");
    assert_eq!(e.line, Some(2));

    let p = program_of("%MPF1\nL7\nM2\n%SPF7\nM17\n").unwrap();
    let mut ex = p.execute(None).unwrap();
    let e = ex.next().unwrap().unwrap_err();
    assert_eq!(
        e.error.0.as_str(),
        "Repeats count for subroutine L7 not defined"
    );
}

#[test]
fn executor_return_errors() {
    // A return outside any subprogram.
    let p = program_of("%MPF1\nM17\nM2\n").unwrap();
    let mut ex = p.execute(None).unwrap();
    let e = ex.next().unwrap().unwrap_err();
    assert_eq!(
        e.error.0.as_str(),
        "Subroutine return (M17) without subroutine call"
    );

    // A return that is not the subprogram's last statement.
    let p = program_of("%MPF1\nL7 P0\nM2\n%SPF7\nM17\nG1 X1\nM17\n").unwrap();
    let mut ex = p.execute(None).unwrap();
    ex.next().unwrap().unwrap();
    let e = ex.next().unwrap().unwrap_err();
    assert_eq!(
        e.error.0.as_str(),
        "Subroutine return (M17) is not the last statement"
    );
}

#[test]
fn executor_end_errors() {
    // A program end inside a subprogram.
    let p = program_of("%MPF1\nL7 P0\nM2\n%SPF7\nM2 (stray)\nM17\n").unwrap();
    let mut ex = p.execute(None).unwrap();
    ex.next().unwrap().unwrap();
    let e = ex.next().unwrap().unwrap_err();
    assert_eq!(e.error.0.as_str(), "Program end (M2) in a subroutine");

    // A program end that is not the last statement.
    let p = program_of("%MPF1\nM2\nG0 Z150\nM2\n").unwrap();
    let mut ex = p.execute(None).unwrap();
    let e = ex.next().unwrap().unwrap_err();
    assert_eq!(e.error.0.as_str(), "Program end (M2) is not the last statement");
    assert_eq!(e.line, Some(2));
}

#[test]
fn executable_code_filters_words() {
    let p = program_of("%MPF1\nN1 G0 X1 (note)\nM2\n").unwrap();
    let line = &p.main_programs[0].1.code[0];
    let ex = line.executable_code();
    assert_eq!(ex.len(), 2);
    assert_eq!(
        ex[1],
        millsim::words::Word::X(Micrometer(1000))
    );
}
