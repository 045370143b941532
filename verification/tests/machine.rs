//! End-to-end tests for the machine simulator.

use millsim::actions::Command;
use millsim::errors::LineError;
use millsim::file::GCodeFile;
use millsim::mach::{Machine, MachineConfig};
use millsim::program::Program;
use millsim::render::{Circle, Line, Render};
use millsim::types::Micrometer;
use millsim::words::{GWord, Word};

/// A recording sink.
#[derive(Debug, Default)]
struct Recorder {
    lines: Vec<(Line, i64, i64, i64)>,
    arcs: Vec<(Circle, i64, i64, i64, i64)>,
}

impl Render for Recorder {
    fn line_to(
        &mut self,
        _tool: Micrometer,
        ty: Line,
        point: (Micrometer, Micrometer),
        height: Micrometer,
    ) {
        self.lines.push((ty, point.0 .0, point.1 .0, height.0));
    }

    fn arc_to(
        &mut self,
        _tool: Micrometer,
        ty: Circle,
        center: (Micrometer, Micrometer),
        end: (Micrometer, Micrometer),
    ) {
        self.arcs.push((ty, center.0 .0, center.1 .0, end.0 .0, end.1 .0));
    }
}

fn run(text: &str) -> Result<Machine<Recorder>, LineError> {
    let lines: Vec<String> = text.lines().map(|s| s.to_string()).collect();
    let file = GCodeFile::from_lines(&lines)?;
    let program = Program::from_file(file)?;
    let mut ex = program.execute(None).map_err(|e| e.no_line())?;
    let mut machine = Machine::with_render(Some(Recorder::default()));
    while let Some(item) = ex.next() {
        let (line, cmd) = item?;
        machine.execute_line(line, cmd)?;
    }
    Ok(machine)
}

fn run_err(text: &str) -> LineError {
    match run(text) {
        Ok(_) => panic!("expected the program to fail"),
        Err(e) => e,
    }
}

#[test]
fn clean_program_ends_at_safe_z() {
    let m = run("%MPF1\nG0 Z150\nM2\n").unwrap();
    assert_eq!(m.z, Some(Micrometer(150_000)));
    assert!(!m.spindle_on);
    assert!(!m.water_on);
}

#[test]
fn first_movement_must_reach_safe_z() {
    let e = run_err("%MPF1\nG0 Z100\nM2\n");
    assert_eq!(e.error.0.as_str(), "First movement should be to safe Z height");
    assert_eq!(e.line, Some(2));
}

#[test]
fn spindle_needs_coolant() {
    let e = run_err("%MPF1\nG0 Z150\nS1000 M3\nM2\n");
    assert_eq!(
        e.error.0.as_str(),
        "Trying to start spindle without ensuring coolant flow"
    );
    assert_eq!(e.line, Some(3));
}

#[test]
fn spindle_needs_speed() {
    let e = run_err("%MPF1\nG0 Z150\nM8\nM3\nM2\n");
    assert_eq!(e.error.0.as_str(), "Trying to start spindle without any speed");
}

#[test]
fn spindle_never_runs_backwards() {
    let e = run_err("%MPF1\nG0 Z150\nM8\nS1000 M4\nM2\n");
    assert_eq!(e.error.0.as_str(), "Trying to start spindle backwards");
}

#[test]
fn ending_checks() {
    let e = run_err("%MPF1\nG0 Z150\nM8\nS1000 M3\nM2\n");
    assert_eq!(e.error.0.as_str(), "Ending program with spindle on");
    let e = run_err("%MPF1\nG0 Z150\nM8\nM2\n");
    assert_eq!(e.error.0.as_str(), "Ending program with coolant on");
    let e = run_err("%MPF1\nG0 Z150\nG0 X0 Y0\nG0 Z10\nM2\n");
    assert_eq!(e.error.0.as_str(), "Ending program with too low Z");
}

fn cut_preamble() -> &'static str {
    // Reach safe Z, position the tool, start coolant and spindle.
    "%MPF1\nD1 M6\nG0 Z150\nG0 X0 Y0\nM8\nS1000 M3 F100\n"
}

#[test]
fn cutting_needs_spindle() {
    let e = run_err("%MPF1\nG0 Z150\nG0 X0 Y0\nG1 X10\nM2\n");
    assert_eq!(e.error.0.as_str(), "Trying to cut with spindle off");
}

#[test]
fn cutting_speed_and_feed_bounds() {
    let e = run_err("%MPF1\nD1 M6\nG0 Z150\nG0 X0 Y0\nM8\nS100 M3\nG1 X10\nM2\n");
    assert_eq!(e.error.0.as_str(), "Speed 100 is too low");
    let e = run_err("%MPF1\nD1 M6\nG0 Z150\nG0 X0 Y0\nM8\nS1000 M3\nG1 X10 F500\nM2\n");
    assert_eq!(e.error.0.as_str(), "Feed 500 is too high");
    let e = run_err("%MPF1\nD1 M6\nG0 Z150\nG0 X0 Y0\nM8\nS1000 M3\nG1 X10\nM2\n");
    assert_eq!(e.error.0.as_str(), "Feed 0 is too low");
}

#[test]
fn straight_cut_renders() {
    let text = format!("{}G1 X10 Y0\nG1 X10 Y20\nM5\nM9\nG0 Z150\nM2\n", cut_preamble());
    let m = run(&text).unwrap();
    let r = m.finalize().unwrap();
    // Two rapid positioning lines and two cuts.
    assert_eq!(r.lines.len(), 4);
    assert_eq!(r.lines[0], (Line::Fast, 0, 0, 150_000));
    assert_eq!(r.lines[1], (Line::Cut, 10_000, 0, 150_000));
    assert_eq!(r.lines[2], (Line::Cut, 10_000, 20_000, 150_000));
    assert_eq!(r.lines[3], (Line::Fast, 10_000, 20_000, 150_000));
}

#[test]
fn arc_radius_must_match() {
    // From (0, 0) around (10, 0) to (20, 0): both radii are 10 mm.
    let text = format!("{}G1 X0 Y0\nG2 I10 J0 X20 Y0\nM5\nM9\nG0 Z150\nM2\n", cut_preamble());
    let m = run(&text).unwrap();
    assert_eq!(m.x, Some(Micrometer(20_000)));
    assert_eq!(m.y, Some(Micrometer(0)));
    let r = m.finalize().unwrap();
    assert_eq!(r.arcs.len(), 1);
    assert_eq!(r.arcs[0], (Circle::Cw, 10_000, 0, 20_000, 0));

    // The same arc with an endpoint off the circle fails.
    let text = format!("{}G1 X0 Y0\nG3 I10 J0 X20 Y1\nM2\n", cut_preamble());
    let e = run_err(&text);
    assert_eq!(
        e.error.0.as_str(),
        "Circle end point not on the circle (radius = 10.000, start at (0.000, 0.000))"
    );
}

#[test]
fn arc_radius_rounds_to_micrometers() {
    // From (0, 0) around (1, 1) the start radius is sqrt(2) mm; the
    // endpoint (2, 2) gives the same rounded radius, 1.414 mm.
    let text = format!("{}G1 X0 Y0\nG2 I1 J1 X2 Y2\nM5\nM9\nG0 Z150\nM2\n", cut_preamble());
    run(&text).unwrap();
}

#[test]
fn relative_coordinates() {
    let text = format!("{}G91\nG1 X5\nG1 X5\nM5\nM9\nG90 G0 Z150\nM2\n", cut_preamble());
    let m = run(&text).unwrap();
    assert_eq!(m.x, Some(Micrometer(10_000)));
    let e = run_err("%MPF1\nG0 Z150\nG91\nG0 X1\nM2\n");
    assert_eq!(
        e.error.0.as_str(),
        "Relative coordinates can only be used with fully defined position"
    );
}

#[test]
fn dangerous_parameters() {
    let e = run_err("%MPF1\nX10\nM2\n");
    assert_eq!(e.error.0.as_str(), "Parameter 'X' is dangerous here");
    let e = run_err("%MPF1\nG0 Z150\nM9 Z10\nM2\n");
    assert_eq!(e.error.0.as_str(), "Parameter 'Z' is dangerous here");
    let e = run_err("%MPF1\nG0 Z150 I1\nM2\n");
    assert_eq!(e.error.0.as_str(), "Parameter 'I' is dangerous here");
}

#[test]
fn rapid_moves_guard_position() {
    let e = run_err("%MPF1\nG0 X10\nM2\n");
    assert_eq!(e.error.0.as_str(), "Parameter 'X' is dangerous here");
    let e = run_err("%MPF1\nG0 Z150\nG0 X1 Z10\nM2\n");
    assert_eq!(
        e.error.0.as_str(),
        "Unsafe movement without fully defining the position"
    );
    let e = run_err("%MPF1\nG0\nM2\n");
    assert_eq!(e.error.0.as_str(), "Required parameter 'Z'");
}

#[test]
fn tool_change_rules() {
    let e = run_err("%MPF1\nM6\nM2\n");
    assert_eq!(e.error.0.as_str(), "Required parameter 'D'");
    let e = run_err("%MPF1\nG0 Z150\nM8\nD1 M6\nM2\n");
    assert_eq!(
        e.error.0.as_str(),
        "Turn off spindle and coolant before performing tool change"
    );
    // Changing the tool without an M6 on the line is refused.
    let text = format!("{}G1 X1 Y1 D2\nM2\n", cut_preamble());
    let e = run_err(&text);
    assert_eq!(e.error.0.as_str(), "Parameter 'D' is dangerous here");
    let e = run_err("%MPF1\nD1 M6\nG0 Z150\nD2 G0 X0 Y0\nM2\n");
    assert_eq!(e.error.0.as_str(), "Parameter 'D' is dangerous here");
    let e = run_err("%MPF1\nD1 M6\nG0 Z150\nD2 S100\nM2\n");
    assert_eq!(e.error.0.as_str(), "Tool change without stopping");
}

#[test]
fn stopping_while_moving() {
    let text = format!("{}G1 X1 Y1 M5\nM2\n", cut_preamble());
    let e = run_err(&text);
    assert_eq!(e.error.0.as_str(), "Trying to turn off spindle while moving");
    let text = format!("{}M9\nM2\n", cut_preamble());
    let e = run_err(&text);
    assert_eq!(
        e.error.0.as_str(),
        "Coolant turned off while spindle still running"
    );
}

#[test]
fn relative_overflow_is_an_error() {
    let mut m: Machine<Recorder> = Machine::with_config(MachineConfig {
        safe_z: Micrometer(0),
        min_speed: 1,
        max_speed: 10,
        min_feed: 1,
        max_feed: 10,
    });
    let steps: Vec<Vec<Word>> = vec![
        vec![Word::G(GWord::G0), Word::Z(Micrometer(0))],
        vec![
            Word::G(GWord::G0),
            Word::X(Micrometer(i64::MAX)),
            Word::Y(Micrometer(0)),
        ],
        vec![Word::G(GWord::G91)],
        vec![Word::G(GWord::G0), Word::X(Micrometer(i64::MAX))],
    ];
    let mut last = Ok(());
    for ws in &steps {
        let cmd = Command::from_gcode(ws).unwrap();
        last = m.execute_command(cmd);
        if last.is_err() {
            break;
        }
    }
    assert_eq!(last.unwrap_err().0.as_str(), "Coordinate overflow");
}

#[test]
fn custom_config_bounds() {
    let cfg = MachineConfig {
        safe_z: Micrometer(10_000),
        min_speed: 1,
        max_speed: 10,
        min_feed: 1,
        max_feed: 10,
    };
    let lines: Vec<String> = "%MPF1\nG0 Z10\nM2\n".lines().map(|s| s.to_string()).collect();
    let file = GCodeFile::from_lines(&lines).unwrap();
    let program = Program::from_file(file).unwrap();
    let mut ex = program.execute(None).unwrap();
    let mut machine: Machine<Recorder> = Machine::with_config(cfg);
    while let Some(item) = ex.next() {
        let (line, cmd) = item.unwrap();
        machine.execute_line(line, cmd).unwrap();
    }
    assert_eq!(machine.z, Some(Micrometer(10_000)));
}
