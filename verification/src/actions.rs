//! Folding the words of one line into a single machine command.
//!
//! Every word populates one slot of the [`Command`]; a slot populated
//! twice on the same line is a `Double command` error.

use vstd::prelude::*;
use crate::errors::SimpleError;
use crate::text::{dec_u64, spec_dec_nat};
use crate::types::{spec_um_text, Micrometer};
use crate::words::{spec_words_view, GWord, MWord, Word, WordV};
use crate::parser::Words;

verus! {

/// A whole-program action of a command.
#[derive(Clone, Copy, PartialEq, Eq, Structural, Debug)]
pub enum Global {
    /// `L n`: call subprogram `n`.
    CallSub(u16),
    /// `M17`: return from a subprogram.
    ReturnSub,
    /// `M2`: end the program.
    EndProgram,
}

/// A movement mode of a command.
#[derive(Clone, Copy, PartialEq, Eq, Structural, Debug)]
pub enum Movement {
    /// `G0`: rapid positioning.
    FastLine,
    /// `G1`: linear feed.
    Line,
    /// `G2`: clockwise arc.
    CircleCW,
    /// `G3`: counter-clockwise arc.
    CircleCCW,
    /// `M6`: tool change.
    ToolChange,
    /// `L n` with `n >= 80`: builtin cycle.
    BuiltinCycle(u16),
}

/// A spindle action of a command.
#[derive(Clone, Copy, PartialEq, Eq, Structural, Debug)]
pub enum SpindleAction {
    /// `M3`: start the spindle clockwise.
    SpindleOnCW,
    /// `M4`: start the spindle counter-clockwise.
    SpindleOnCCW,
    /// `M5`: stop the spindle.
    SpindleOff,
}

/// A coolant action of a command.
#[derive(Clone, Copy, PartialEq, Eq, Structural, Debug)]
pub enum WaterAction {
    /// `M8`: start the coolant.
    WaterOn,
    /// `M9`: stop the coolant.
    WaterOff,
}

/// A coordinate mode switch of a command.
#[derive(Clone, Copy, PartialEq, Eq, Structural, Debug)]
pub enum CoordSwitch {
    /// `G90`: absolute coordinates.
    Absolute,
    /// `G91`: relative coordinates.
    Relative,
}

/// Whether an `L` designator names a builtin cycle rather than a
/// subprogram call.
pub open spec fn spec_is_builtin(l: int) -> bool {
    l >= 80
}

/// Whether an `L` designator names a builtin cycle.
pub fn is_builtin(l: u16) -> (r: bool)
    ensures
        r == spec_is_builtin(l as int),
{
    l >= 80
}

/// The fold of one line's words.
#[derive(Debug)]
pub struct Command {
    pub global: Option<Global>,
    pub movement: Option<Movement>,

    pub spindle_action: Option<SpindleAction>,
    pub water_action: Option<WaterAction>,
    pub coord_switch: Option<CoordSwitch>,

    pub raw_x: Option<Micrometer>,
    pub raw_y: Option<Micrometer>,
    pub raw_z: Option<Micrometer>,
    pub i: Option<Micrometer>,
    pub j: Option<Micrometer>,

    pub speed: Option<u16>,
    pub feed: Option<u16>,
    pub tool: Option<u8>,

    pub n: Option<u32>,
    pub p: Option<u16>,

    pub comment: String,

    pub raw: Words,
}

/// The ghost image of a command.
#[verifier::ext_equal]
pub ghost struct CommandV {
    pub global: Option<Global>,
    pub movement: Option<Movement>,
    pub spindle_action: Option<SpindleAction>,
    pub water_action: Option<WaterAction>,
    pub coord_switch: Option<CoordSwitch>,
    pub raw_x: Option<int>,
    pub raw_y: Option<int>,
    pub raw_z: Option<int>,
    pub i: Option<int>,
    pub j: Option<int>,
    pub speed: Option<u16>,
    pub feed: Option<u16>,
    pub tool: Option<u8>,
    pub n: Option<u32>,
    pub p: Option<u16>,
    pub comment: Seq<char>,
    pub raw: Seq<WordV>,
}

/// The ghost image of an optional length.
pub open spec fn spec_um_opt(m: Option<Micrometer>) -> Option<int> {
    match m {
        Some(um) => Some(um.0 as int),
        None => None,
    }
}

impl View for Command {
    type V = CommandV;

    open spec fn view(&self) -> CommandV {
        CommandV {
            global: self.global,
            movement: self.movement,
            spindle_action: self.spindle_action,
            water_action: self.water_action,
            coord_switch: self.coord_switch,
            raw_x: spec_um_opt(self.raw_x),
            raw_y: spec_um_opt(self.raw_y),
            raw_z: spec_um_opt(self.raw_z),
            i: spec_um_opt(self.i),
            j: spec_um_opt(self.j),
            speed: self.speed,
            feed: self.feed,
            tool: self.tool,
            n: self.n,
            p: self.p,
            comment: self.comment@,
            raw: self.raw@,
        }
    }
}

/// The command with nothing populated.
pub open spec fn spec_empty_command() -> CommandV {
    CommandV {
        global: None,
        movement: None,
        spindle_action: None,
        water_action: None,
        coord_switch: None,
        raw_x: None,
        raw_y: None,
        raw_z: None,
        i: None,
        j: None,
        speed: None,
        feed: None,
        tool: None,
        n: None,
        p: None,
        comment: Seq::<char>::empty(),
        raw: Seq::<WordV>::empty(),
    }
}

/// The self-describing name of a whole-program action.
pub open spec fn spec_global_text(g: Global) -> Seq<char> {
    match g {
        Global::CallSub(_) => "L (subroutine call)"@,
        Global::ReturnSub => "M17 (subroutine return)"@,
        Global::EndProgram => "M2 (program end)"@,
    }
}

/// The self-describing name of a movement mode.
pub open spec fn spec_movement_text(m: Movement) -> Seq<char> {
    match m {
        Movement::FastLine => "G0 (fast move)"@,
        Movement::Line => "G1 (linear move)"@,
        Movement::CircleCW => "G2 (circular move CW)"@,
        Movement::CircleCCW => "G3 (circular move CCW)"@,
        Movement::ToolChange => "M6 (tool change)"@,
        Movement::BuiltinCycle(_) => "L (builtin subroutine)"@,
    }
}

/// The self-describing name of a spindle action.
pub open spec fn spec_spindle_text(a: SpindleAction) -> Seq<char> {
    match a {
        SpindleAction::SpindleOnCW => "M3 (spindle on CW)"@,
        SpindleAction::SpindleOnCCW => "M4 (spindle on CCW)"@,
        SpindleAction::SpindleOff => "M5 (spindle off)"@,
    }
}

/// The self-describing name of a coolant action.
pub open spec fn spec_water_text(a: WaterAction) -> Seq<char> {
    match a {
        WaterAction::WaterOn => "M8 (coolant on)"@,
        WaterAction::WaterOff => "M9 (coolant off)"@,
    }
}

/// The self-describing name of a coordinate mode switch.
pub open spec fn spec_coord_text(c: CoordSwitch) -> Seq<char> {
    match c {
        CoordSwitch::Absolute => "G90 (absolute coordinates)"@,
        CoordSwitch::Relative => "G91 (relative coordinates)"@,
    }
}

/// The duplicate error for a self-describing slot.
pub open spec fn spec_double_msg(old_t: Seq<char>, new_t: Seq<char>) -> Seq<char> {
    "Double command: '"@ + old_t + "' and '"@ + new_t + "'"@
}

/// The duplicate error for a named scalar slot.
pub open spec fn spec_doublen_msg(name: Seq<char>, old_t: Seq<char>, new_t: Seq<char>) -> Seq<
    char,
> {
    "Double '"@ + name + "' command: '"@ + old_t + "' and '"@ + new_t + "'"@
}

/// Populate the slot of one word, or produce the duplicate error.
/// The word is also recorded in `raw`.
pub open spec fn spec_add_word(c: CommandV, w: WordV) -> Result<CommandV, Seq<char>> {
    let c1 = CommandV { raw: c.raw.push(w), ..c };
    match w {
        WordV::L(l) => if spec_is_builtin(l as int) {
            match c.movement {
                Some(old) => Err(
                    spec_double_msg(
                        spec_movement_text(old),
                        spec_movement_text(Movement::BuiltinCycle(l)),
                    ),
                ),
                None => Ok(CommandV { movement: Some(Movement::BuiltinCycle(l)), ..c1 }),
            }
        } else {
            match c.global {
                Some(old) => Err(
                    spec_double_msg(spec_global_text(old), spec_global_text(Global::CallSub(l))),
                ),
                None => Ok(CommandV { global: Some(Global::CallSub(l)), ..c1 }),
            }
        },
        WordV::N(v) => match c.n {
            Some(old) => Err(
                spec_doublen_msg(
                    "N[umber]"@,
                    spec_dec_nat(old as nat),
                    spec_dec_nat(v as nat),
                ),
            ),
            None => Ok(CommandV { n: Some(v), ..c1 }),
        },
        WordV::Comment(s) => Ok(CommandV { comment: c.comment + s, ..c1 }),
        WordV::R(_, _) => Ok(c1),
        WordV::M(MWord::M2) => match c.global {
            Some(old) => Err(
                spec_double_msg(spec_global_text(old), spec_global_text(Global::EndProgram)),
            ),
            None => Ok(CommandV { global: Some(Global::EndProgram), ..c1 }),
        },
        WordV::M(MWord::M17) => match c.global {
            Some(old) => Err(
                spec_double_msg(spec_global_text(old), spec_global_text(Global::ReturnSub)),
            ),
            None => Ok(CommandV { global: Some(Global::ReturnSub), ..c1 }),
        },
        WordV::M(MWord::M6) => match c.movement {
            Some(old) => Err(
                spec_double_msg(
                    spec_movement_text(old),
                    spec_movement_text(Movement::ToolChange),
                ),
            ),
            None => Ok(CommandV { movement: Some(Movement::ToolChange), ..c1 }),
        },
        WordV::G(GWord::G0) => match c.movement {
            Some(old) => Err(
                spec_double_msg(spec_movement_text(old), spec_movement_text(Movement::FastLine)),
            ),
            None => Ok(CommandV { movement: Some(Movement::FastLine), ..c1 }),
        },
        WordV::G(GWord::G1) => match c.movement {
            Some(old) => Err(
                spec_double_msg(spec_movement_text(old), spec_movement_text(Movement::Line)),
            ),
            None => Ok(CommandV { movement: Some(Movement::Line), ..c1 }),
        },
        WordV::G(GWord::G2) => match c.movement {
            Some(old) => Err(
                spec_double_msg(spec_movement_text(old), spec_movement_text(Movement::CircleCW)),
            ),
            None => Ok(CommandV { movement: Some(Movement::CircleCW), ..c1 }),
        },
        WordV::G(GWord::G3) => match c.movement {
            Some(old) => Err(
                spec_double_msg(
                    spec_movement_text(old),
                    spec_movement_text(Movement::CircleCCW),
                ),
            ),
            None => Ok(CommandV { movement: Some(Movement::CircleCCW), ..c1 }),
        },
        WordV::G(GWord::G90) => match c.coord_switch {
            Some(old) => Err(
                spec_double_msg(spec_coord_text(old), spec_coord_text(CoordSwitch::Absolute)),
            ),
            None => Ok(CommandV { coord_switch: Some(CoordSwitch::Absolute), ..c1 }),
        },
        WordV::G(GWord::G91) => match c.coord_switch {
            Some(old) => Err(
                spec_double_msg(spec_coord_text(old), spec_coord_text(CoordSwitch::Relative)),
            ),
            None => Ok(CommandV { coord_switch: Some(CoordSwitch::Relative), ..c1 }),
        },
        WordV::M(MWord::M3) => match c.spindle_action {
            Some(old) => Err(
                spec_double_msg(
                    spec_spindle_text(old),
                    spec_spindle_text(SpindleAction::SpindleOnCW),
                ),
            ),
            None => Ok(CommandV { spindle_action: Some(SpindleAction::SpindleOnCW), ..c1 }),
        },
        WordV::M(MWord::M4) => match c.spindle_action {
            Some(old) => Err(
                spec_double_msg(
                    spec_spindle_text(old),
                    spec_spindle_text(SpindleAction::SpindleOnCCW),
                ),
            ),
            None => Ok(CommandV { spindle_action: Some(SpindleAction::SpindleOnCCW), ..c1 }),
        },
        WordV::M(MWord::M5) => match c.spindle_action {
            Some(old) => Err(
                spec_double_msg(
                    spec_spindle_text(old),
                    spec_spindle_text(SpindleAction::SpindleOff),
                ),
            ),
            None => Ok(CommandV { spindle_action: Some(SpindleAction::SpindleOff), ..c1 }),
        },
        WordV::M(MWord::M8) => match c.water_action {
            Some(old) => Err(
                spec_double_msg(spec_water_text(old), spec_water_text(WaterAction::WaterOn)),
            ),
            None => Ok(CommandV { water_action: Some(WaterAction::WaterOn), ..c1 }),
        },
        WordV::M(MWord::M9) => match c.water_action {
            Some(old) => Err(
                spec_double_msg(spec_water_text(old), spec_water_text(WaterAction::WaterOff)),
            ),
            None => Ok(CommandV { water_action: Some(WaterAction::WaterOff), ..c1 }),
        },
        WordV::S(v) => match c.speed {
            Some(old) => Err(
                spec_doublen_msg("S[peed]"@, spec_dec_nat(old as nat), spec_dec_nat(v as nat)),
            ),
            None => Ok(CommandV { speed: Some(v), ..c1 }),
        },
        WordV::F(v) => match c.feed {
            Some(old) => Err(
                spec_doublen_msg("F[eed]"@, spec_dec_nat(old as nat), spec_dec_nat(v as nat)),
            ),
            None => Ok(CommandV { feed: Some(v), ..c1 }),
        },
        WordV::D(v) => match c.tool {
            Some(old) => Err(
                spec_doublen_msg("D (tool)"@, spec_dec_nat(old as nat), spec_dec_nat(v as nat)),
            ),
            None => Ok(CommandV { tool: Some(v), ..c1 }),
        },
        WordV::X(v) => match c.raw_x {
            Some(old) => Err(spec_doublen_msg("X"@, spec_um_text(old), spec_um_text(v))),
            None => Ok(CommandV { raw_x: Some(v), ..c1 }),
        },
        WordV::Y(v) => match c.raw_y {
            Some(old) => Err(spec_doublen_msg("Y"@, spec_um_text(old), spec_um_text(v))),
            None => Ok(CommandV { raw_y: Some(v), ..c1 }),
        },
        WordV::Z(v) => match c.raw_z {
            Some(old) => Err(spec_doublen_msg("Z"@, spec_um_text(old), spec_um_text(v))),
            None => Ok(CommandV { raw_z: Some(v), ..c1 }),
        },
        WordV::I(v) => match c.i {
            Some(old) => Err(
                spec_doublen_msg("I (center X)"@, spec_um_text(old), spec_um_text(v)),
            ),
            None => Ok(CommandV { i: Some(v), ..c1 }),
        },
        WordV::J(v) => match c.j {
            Some(old) => Err(
                spec_doublen_msg("J (center Y)"@, spec_um_text(old), spec_um_text(v)),
            ),
            None => Ok(CommandV { j: Some(v), ..c1 }),
        },
        WordV::P(v) => match c.p {
            Some(old) => Err(
                spec_doublen_msg(
                    "P (repeat count)"@,
                    spec_dec_nat(old as nat),
                    spec_dec_nat(v as nat),
                ),
            ),
            None => Ok(CommandV { p: Some(v), ..c1 }),
        },
    }
}

/// Fold a word list onto a command, left to right.
pub open spec fn spec_fill(c: CommandV, ws: Seq<WordV>) -> Result<CommandV, Seq<char>>
    decreases ws.len(),
{
    if ws.len() == 0 {
        Ok(c)
    } else {
        match spec_add_word(c, ws[0]) {
            Ok(c2) => spec_fill(c2, ws.subrange(1, ws.len() as int)),
            Err(m) => Err(m),
        }
    }
}

/// The command that a word list folds to, or the first duplicate error.
pub open spec fn spec_from_gcode(ws: Seq<WordV>) -> Result<CommandV, Seq<char>> {
    spec_fill(spec_empty_command(), ws)
}

/// Folding one more word folds the prefix first.
pub proof fn lemma_fill_snoc(c: CommandV, ws: Seq<WordV>, w: WordV)
    ensures
        spec_fill(c, ws.push(w)) == (match spec_fill(c, ws) {
            Ok(c2) => spec_add_word(c2, w),
            Err(m) => Err(m),
        }),
    decreases ws.len(),
{
    if ws.len() == 0 {
        assert(ws.push(w)[0] == w);
        let rest = ws.push(w).subrange(1, ws.push(w).len() as int);
        assert(rest =~= Seq::<WordV>::empty());
        assert(spec_fill(c, ws) == Ok::<CommandV, Seq<char>>(c));
        match spec_add_word(c, w) {
            Ok(c2) => {
                assert(spec_fill(c2, rest) == Ok::<CommandV, Seq<char>>(c2));
            },
            Err(_) => {},
        }
    } else {
        assert(ws.push(w)[0] == ws[0]);
        match spec_add_word(c, ws[0]) {
            Ok(c2) => {
                assert(ws.push(w).subrange(1, ws.push(w).len() as int) =~= ws.subrange(
                    1,
                    ws.len() as int,
                ).push(w));
                lemma_fill_snoc(c2, ws.subrange(1, ws.len() as int), w);
            },
            Err(_) => {
                assert(ws.push(w).subrange(1, ws.push(w).len() as int) =~= ws.subrange(
                    1,
                    ws.len() as int,
                ).push(w));
            },
        }
    }
}

/// The slots of a command that single words populate.
pub ghost enum Slot {
    GlobalAction,
    MovementMode,
    Spindle,
    Water,
    Coord,
    LineNo,
    Speed,
    Feed,
    Tool,
    AxisX,
    AxisY,
    AxisZ,
    CenterI,
    CenterJ,
    Repeats,
}

/// The slot a word populates; comments and `R` pairs populate none that
/// could collide.
pub open spec fn spec_slot_of(w: WordV) -> Option<Slot> {
    match w {
        WordV::L(l) => if spec_is_builtin(l as int) {
            Some(Slot::MovementMode)
        } else {
            Some(Slot::GlobalAction)
        },
        WordV::N(_) => Some(Slot::LineNo),
        WordV::Comment(_) => None,
        WordV::R(_, _) => None,
        WordV::M(m) => match m {
            MWord::M2 => Some(Slot::GlobalAction),
            MWord::M17 => Some(Slot::GlobalAction),
            MWord::M6 => Some(Slot::MovementMode),
            MWord::M3 => Some(Slot::Spindle),
            MWord::M4 => Some(Slot::Spindle),
            MWord::M5 => Some(Slot::Spindle),
            MWord::M8 => Some(Slot::Water),
            MWord::M9 => Some(Slot::Water),
        },
        WordV::G(g) => match g {
            GWord::G0 => Some(Slot::MovementMode),
            GWord::G1 => Some(Slot::MovementMode),
            GWord::G2 => Some(Slot::MovementMode),
            GWord::G3 => Some(Slot::MovementMode),
            GWord::G90 => Some(Slot::Coord),
            GWord::G91 => Some(Slot::Coord),
        },
        WordV::S(_) => Some(Slot::Speed),
        WordV::F(_) => Some(Slot::Feed),
        WordV::D(_) => Some(Slot::Tool),
        WordV::X(_) => Some(Slot::AxisX),
        WordV::Y(_) => Some(Slot::AxisY),
        WordV::Z(_) => Some(Slot::AxisZ),
        WordV::I(_) => Some(Slot::CenterI),
        WordV::J(_) => Some(Slot::CenterJ),
        WordV::P(_) => Some(Slot::Repeats),
    }
}

/// Whether a slot of a command is populated.
pub open spec fn spec_slot_set(c: CommandV, s: Slot) -> bool {
    match s {
        Slot::GlobalAction => c.global is Some,
        Slot::MovementMode => c.movement is Some,
        Slot::Spindle => c.spindle_action is Some,
        Slot::Water => c.water_action is Some,
        Slot::Coord => c.coord_switch is Some,
        Slot::LineNo => c.n is Some,
        Slot::Speed => c.speed is Some,
        Slot::Feed => c.feed is Some,
        Slot::Tool => c.tool is Some,
        Slot::AxisX => c.raw_x is Some,
        Slot::AxisY => c.raw_y is Some,
        Slot::AxisZ => c.raw_z is Some,
        Slot::CenterI => c.i is Some,
        Slot::CenterJ => c.j is Some,
        Slot::Repeats => c.p is Some,
    }
}

/// Adding one word populates exactly its slot, and only when it was free.
proof fn lemma_add_word_slots(c: CommandV, w: WordV)
    ensures
        spec_add_word(c, w) matches Ok(c2) ==> {
            &&& (spec_slot_of(w) matches Some(s) ==> !spec_slot_set(c, s))
            &&& forall|t: Slot|
                spec_slot_set(c2, t) == (spec_slot_set(c, t) || spec_slot_of(w) == Some(t))
        },
        spec_slot_of(w) matches Some(s) && spec_slot_set(c, s) ==> spec_add_word(c, w) is Err,
{
}

/// A fold that succeeds finds every touched slot free, and no two of its
/// words touch the same slot.
proof fn lemma_fill_slots(c: CommandV, ws: Seq<WordV>)
    requires
        spec_fill(c, ws) is Ok,
    ensures
        forall|k: int|
            0 <= k < ws.len() ==> !(spec_slot_of(#[trigger] ws[k]) matches Some(s)
                && spec_slot_set(c, s)),
        forall|i: int, j: int|
            0 <= i < j < ws.len() ==> !(spec_slot_of(#[trigger] ws[i]) is Some && spec_slot_of(
                ws[i],
            ) == spec_slot_of(#[trigger] ws[j])),
    decreases ws.len(),
{
    if ws.len() > 0 {
        let w0 = ws[0];
        let rest = ws.subrange(1, ws.len() as int);
        lemma_add_word_slots(c, w0);
        match spec_add_word(c, w0) {
            Ok(c2) => {
                lemma_fill_slots(c2, rest);
                assert forall|k: int| 0 <= k < ws.len() implies !(spec_slot_of(
                    #[trigger] ws[k],
                ) matches Some(s) && spec_slot_set(c, s)) by {
                    if k > 0 {
                        assert(rest[k - 1] == ws[k]);
                    }
                }
                assert forall|i: int, j: int| 0 <= i < j < ws.len() implies !(spec_slot_of(
                    #[trigger] ws[i],
                ) is Some && spec_slot_of(ws[i]) == spec_slot_of(#[trigger] ws[j])) by {
                    if i == 0 {
                        assert(rest[j - 1] == ws[j]);
                    } else {
                        assert(rest[i - 1] == ws[i]);
                        assert(rest[j - 1] == ws[j]);
                    }
                }
            },
            Err(_) => {},
        }
    }
}

/// At most one word per slot: a line whose words fold to a command
/// populates each slot at most once, and a line in which two words aim at
/// the same slot folds to the duplicate error instead.
pub proof fn lemma_at_most_one_per_line(ws: Seq<WordV>)
    ensures
        spec_from_gcode(ws) is Ok ==> forall|i: int, j: int|
            0 <= i < j < ws.len() ==> !(spec_slot_of(#[trigger] ws[i]) is Some && spec_slot_of(
                ws[i],
            ) == spec_slot_of(#[trigger] ws[j])),
        (exists|i: int, j: int|
            0 <= i < j < ws.len() && spec_slot_of(#[trigger] ws[i]) is Some && spec_slot_of(
                ws[i],
            ) == spec_slot_of(#[trigger] ws[j])) ==> spec_from_gcode(ws) is Err,
{
    if spec_from_gcode(ws) is Ok {
        lemma_fill_slots(spec_empty_command(), ws);
    }
}

/// Filling from concatenated lists fills the first list first.
pub proof fn lemma_fill_append(c: CommandV, a: Seq<WordV>, b: Seq<WordV>)
    ensures
        spec_fill(c, a + b) == (match spec_fill(c, a) {
            Ok(c2) => spec_fill(c2, b),
            Err(m) => Err(m),
        }),
    decreases a.len(),
{
    if a.len() == 0 {
        assert(a + b =~= b);
        assert(spec_fill(c, a) == Ok::<CommandV, Seq<char>>(c));
    } else {
        assert((a + b)[0] == a[0]);
        assert((a + b).len() > 0);
        match spec_add_word(c, a[0]) {
            Ok(c2) => {
                assert((a + b).subrange(1, (a + b).len() as int) =~= a.subrange(
                    1,
                    a.len() as int,
                ) + b);
                lemma_fill_append(c2, a.subrange(1, a.len() as int), b);
            },
            Err(_) => {},
        }
    }
}

impl Global {
    /// The self-describing name of the action.
    pub fn text(&self) -> (r: &'static str)
        ensures
            r@ == spec_global_text(*self),
    {
        match self {
            Global::CallSub(_) => "L (subroutine call)",
            Global::ReturnSub => "M17 (subroutine return)",
            Global::EndProgram => "M2 (program end)",
        }
    }
}

impl Movement {
    /// The self-describing name of the mode.
    pub fn text(&self) -> (r: &'static str)
        ensures
            r@ == spec_movement_text(*self),
    {
        match self {
            Movement::FastLine => "G0 (fast move)",
            Movement::Line => "G1 (linear move)",
            Movement::CircleCW => "G2 (circular move CW)",
            Movement::CircleCCW => "G3 (circular move CCW)",
            Movement::ToolChange => "M6 (tool change)",
            Movement::BuiltinCycle(_) => "L (builtin subroutine)",
        }
    }
}

impl SpindleAction {
    /// The self-describing name of the action.
    pub fn text(&self) -> (r: &'static str)
        ensures
            r@ == spec_spindle_text(*self),
    {
        match self {
            SpindleAction::SpindleOnCW => "M3 (spindle on CW)",
            SpindleAction::SpindleOnCCW => "M4 (spindle on CCW)",
            SpindleAction::SpindleOff => "M5 (spindle off)",
        }
    }
}

impl WaterAction {
    /// The self-describing name of the action.
    pub fn text(&self) -> (r: &'static str)
        ensures
            r@ == spec_water_text(*self),
    {
        match self {
            WaterAction::WaterOn => "M8 (coolant on)",
            WaterAction::WaterOff => "M9 (coolant off)",
        }
    }
}

impl CoordSwitch {
    /// The self-describing name of the switch.
    pub fn text(&self) -> (r: &'static str)
        ensures
            r@ == spec_coord_text(*self),
    {
        match self {
            CoordSwitch::Absolute => "G90 (absolute coordinates)",
            CoordSwitch::Relative => "G91 (relative coordinates)",
        }
    }
}

/// The duplicate error for a self-describing slot.
fn double_msg(old_t: &str, new_t: &str) -> (r: SimpleError)
    ensures
        r.0@ == spec_double_msg(old_t@, new_t@),
{
    let mut s = String::from_str("Double command: '");
    s.append(old_t);
    s.append("' and '");
    s.append(new_t);
    s.append("'");
    SimpleError(s)
}

/// The duplicate error for a named scalar slot.
fn doublen_msg(name: &str, old_t: &str, new_t: &str) -> (r: SimpleError)
    ensures
        r.0@ == spec_doublen_msg(name@, old_t@, new_t@),
{
    let mut s = String::from_str("Double '");
    s.append(name);
    s.append("' command: '");
    s.append(old_t);
    s.append("' and '");
    s.append(new_t);
    s.append("'");
    SimpleError(s)
}

impl Default for Command {
    /// The command with nothing populated.
    fn default() -> (r: Command)
        ensures
            r@ == spec_empty_command(),
    {
        let r = Command {
            global: None,
            movement: None,
            spindle_action: None,
            water_action: None,
            coord_switch: None,
            raw_x: None,
            raw_y: None,
            raw_z: None,
            i: None,
            j: None,
            speed: None,
            feed: None,
            tool: None,
            n: None,
            p: None,
            comment: String::new(),
            raw: Words(Vec::new()),
        };
        proof {
            assert(r@ =~= spec_empty_command());
        }
        r
    }
}

impl Command {
    /// Fold the words of one line into a command; the first slot populated
    /// twice produces its duplicate error.
    pub fn from_gcode(gcode: &[Word]) -> (r: Result<Command, SimpleError>)
        ensures
            match r {
                Ok(cmd) => spec_from_gcode(spec_words_view(gcode@)) == Ok::<CommandV, Seq<char>>(cmd@),
                Err(e) => spec_from_gcode(spec_words_view(gcode@)) matches Err(m) && e.0@ == m,
            },
    {
        let ghost wsv = spec_words_view(gcode@);
        let mut cmd = Command::default();
        let n = gcode.len();
        let mut idx: usize = 0;
        while idx < n
            invariant
                n == gcode@.len(),
                idx <= n,
                wsv == spec_words_view(gcode@),
                spec_fill(spec_empty_command(), wsv.subrange(0, idx as int)) == Ok::<CommandV, Seq<char>>(cmd@),
            decreases n - idx,
        {
            let word = &gcode[idx];
            let ghost prev = cmd@;
            let ghost prefix = wsv.subrange(0, idx as int);
            proof {
                assert(wsv[idx as int] == gcode@[idx as int]@);
                assert(wsv.subrange(0, idx + 1) =~= prefix.push(word@));
                lemma_fill_snoc(spec_empty_command(), prefix, word@);
            }
            cmd.raw.0.push(word.duplicate());
            proof {
                assert(cmd@.raw =~= prev.raw.push(word@));
                assert(cmd@ =~= (CommandV { raw: prev.raw.push(word@), ..prev }));
            }
            match word {
                Word::L(l) => {
                    if is_builtin(*l) {
                        if let Some(old) = cmd.movement {
                            return Err(
                                Self::fail(
                                    Ghost(wsv),
                                    idx,
                                    double_msg(old.text(), Movement::BuiltinCycle(*l).text()),
                                ),
                            );
                        }
                        cmd.movement = Some(Movement::BuiltinCycle(*l));
                    } else {
                        if let Some(old) = cmd.global {
                            return Err(
                                Self::fail(
                                    Ghost(wsv),
                                    idx,
                                    double_msg(old.text(), Global::CallSub(*l).text()),
                                ),
                            );
                        }
                        cmd.global = Some(Global::CallSub(*l));
                    }
                },
                Word::N(v) => {
                    if let Some(old) = cmd.n {
                        let old_t = dec_u64(old as u64);
                        let new_t = dec_u64(*v as u64);
                        return Err(
                            Self::fail(
                                Ghost(wsv),
                                idx,
                                doublen_msg("N[umber]", old_t.as_str(), new_t.as_str()),
                            ),
                        );
                    }
                    cmd.n = Some(*v);
                },
                Word::Comment(s) => {
                    cmd.comment.append(s.as_str());
                },
                Word::R(_, _) => {},
                Word::M(m) => {
                    match m {
                        MWord::M2 => {
                            if let Some(old) = cmd.global {
                                return Err(
                                    Self::fail(
                                        Ghost(wsv),
                                        idx,
                                        double_msg(old.text(), Global::EndProgram.text()),
                                    ),
                                );
                            }
                            cmd.global = Some(Global::EndProgram);
                        },
                        MWord::M17 => {
                            if let Some(old) = cmd.global {
                                return Err(
                                    Self::fail(
                                        Ghost(wsv),
                                        idx,
                                        double_msg(old.text(), Global::ReturnSub.text()),
                                    ),
                                );
                            }
                            cmd.global = Some(Global::ReturnSub);
                        },
                        MWord::M6 => {
                            if let Some(old) = cmd.movement {
                                return Err(
                                    Self::fail(
                                        Ghost(wsv),
                                        idx,
                                        double_msg(old.text(), Movement::ToolChange.text()),
                                    ),
                                );
                            }
                            cmd.movement = Some(Movement::ToolChange);
                        },
                        MWord::M3 => {
                            if let Some(old) = cmd.spindle_action {
                                return Err(
                                    Self::fail(
                                        Ghost(wsv),
                                        idx,
                                        double_msg(old.text(), SpindleAction::SpindleOnCW.text()),
                                    ),
                                );
                            }
                            cmd.spindle_action = Some(SpindleAction::SpindleOnCW);
                        },
                        MWord::M4 => {
                            if let Some(old) = cmd.spindle_action {
                                return Err(
                                    Self::fail(
                                        Ghost(wsv),
                                        idx,
                                        double_msg(old.text(), SpindleAction::SpindleOnCCW.text()),
                                    ),
                                );
                            }
                            cmd.spindle_action = Some(SpindleAction::SpindleOnCCW);
                        },
                        MWord::M5 => {
                            if let Some(old) = cmd.spindle_action {
                                return Err(
                                    Self::fail(
                                        Ghost(wsv),
                                        idx,
                                        double_msg(old.text(), SpindleAction::SpindleOff.text()),
                                    ),
                                );
                            }
                            cmd.spindle_action = Some(SpindleAction::SpindleOff);
                        },
                        MWord::M8 => {
                            if let Some(old) = cmd.water_action {
                                return Err(
                                    Self::fail(
                                        Ghost(wsv),
                                        idx,
                                        double_msg(old.text(), WaterAction::WaterOn.text()),
                                    ),
                                );
                            }
                            cmd.water_action = Some(WaterAction::WaterOn);
                        },
                        MWord::M9 => {
                            if let Some(old) = cmd.water_action {
                                return Err(
                                    Self::fail(
                                        Ghost(wsv),
                                        idx,
                                        double_msg(old.text(), WaterAction::WaterOff.text()),
                                    ),
                                );
                            }
                            cmd.water_action = Some(WaterAction::WaterOff);
                        },
                    }
                },
                Word::G(g) => {
                    match g {
                        GWord::G0 => {
                            if let Some(old) = cmd.movement {
                                return Err(
                                    Self::fail(
                                        Ghost(wsv),
                                        idx,
                                        double_msg(old.text(), Movement::FastLine.text()),
                                    ),
                                );
                            }
                            cmd.movement = Some(Movement::FastLine);
                        },
                        GWord::G1 => {
                            if let Some(old) = cmd.movement {
                                return Err(
                                    Self::fail(
                                        Ghost(wsv),
                                        idx,
                                        double_msg(old.text(), Movement::Line.text()),
                                    ),
                                );
                            }
                            cmd.movement = Some(Movement::Line);
                        },
                        GWord::G2 => {
                            if let Some(old) = cmd.movement {
                                return Err(
                                    Self::fail(
                                        Ghost(wsv),
                                        idx,
                                        double_msg(old.text(), Movement::CircleCW.text()),
                                    ),
                                );
                            }
                            cmd.movement = Some(Movement::CircleCW);
                        },
                        GWord::G3 => {
                            if let Some(old) = cmd.movement {
                                return Err(
                                    Self::fail(
                                        Ghost(wsv),
                                        idx,
                                        double_msg(old.text(), Movement::CircleCCW.text()),
                                    ),
                                );
                            }
                            cmd.movement = Some(Movement::CircleCCW);
                        },
                        GWord::G90 => {
                            if let Some(old) = cmd.coord_switch {
                                return Err(
                                    Self::fail(
                                        Ghost(wsv),
                                        idx,
                                        double_msg(old.text(), CoordSwitch::Absolute.text()),
                                    ),
                                );
                            }
                            cmd.coord_switch = Some(CoordSwitch::Absolute);
                        },
                        GWord::G91 => {
                            if let Some(old) = cmd.coord_switch {
                                return Err(
                                    Self::fail(
                                        Ghost(wsv),
                                        idx,
                                        double_msg(old.text(), CoordSwitch::Relative.text()),
                                    ),
                                );
                            }
                            cmd.coord_switch = Some(CoordSwitch::Relative);
                        },
                    }
                },
                Word::S(v) => {
                    if let Some(old) = cmd.speed {
                        let old_t = dec_u64(old as u64);
                        let new_t = dec_u64(*v as u64);
                        return Err(
                            Self::fail(
                                Ghost(wsv),
                                idx,
                                doublen_msg("S[peed]", old_t.as_str(), new_t.as_str()),
                            ),
                        );
                    }
                    cmd.speed = Some(*v);
                },
                Word::F(v) => {
                    if let Some(old) = cmd.feed {
                        let old_t = dec_u64(old as u64);
                        let new_t = dec_u64(*v as u64);
                        return Err(
                            Self::fail(
                                Ghost(wsv),
                                idx,
                                doublen_msg("F[eed]", old_t.as_str(), new_t.as_str()),
                            ),
                        );
                    }
                    cmd.feed = Some(*v);
                },
                Word::D(v) => {
                    if let Some(old) = cmd.tool {
                        let old_t = dec_u64(old as u64);
                        let new_t = dec_u64(*v as u64);
                        return Err(
                            Self::fail(
                                Ghost(wsv),
                                idx,
                                doublen_msg("D (tool)", old_t.as_str(), new_t.as_str()),
                            ),
                        );
                    }
                    cmd.tool = Some(*v);
                },
                Word::P(v) => {
                    if let Some(old) = cmd.p {
                        let old_t = dec_u64(old as u64);
                        let new_t = dec_u64(*v as u64);
                        return Err(
                            Self::fail(
                                Ghost(wsv),
                                idx,
                                doublen_msg("P (repeat count)", old_t.as_str(), new_t.as_str()),
                            ),
                        );
                    }
                    cmd.p = Some(*v);
                },
                Word::X(v) => {
                    if let Some(old) = cmd.raw_x {
                        let old_t = old.to_text();
                        let new_t = v.to_text();
                        return Err(
                            Self::fail(Ghost(wsv), idx, doublen_msg("X", old_t.as_str(), new_t.as_str())),
                        );
                    }
                    cmd.raw_x = Some(*v);
                },
                Word::Y(v) => {
                    if let Some(old) = cmd.raw_y {
                        let old_t = old.to_text();
                        let new_t = v.to_text();
                        return Err(
                            Self::fail(Ghost(wsv), idx, doublen_msg("Y", old_t.as_str(), new_t.as_str())),
                        );
                    }
                    cmd.raw_y = Some(*v);
                },
                Word::Z(v) => {
                    if let Some(old) = cmd.raw_z {
                        let old_t = old.to_text();
                        let new_t = v.to_text();
                        return Err(
                            Self::fail(Ghost(wsv), idx, doublen_msg("Z", old_t.as_str(), new_t.as_str())),
                        );
                    }
                    cmd.raw_z = Some(*v);
                },
                Word::I(v) => {
                    if let Some(old) = cmd.i {
                        let old_t = old.to_text();
                        let new_t = v.to_text();
                        return Err(
                            Self::fail(
                                Ghost(wsv),
                                idx,
                                doublen_msg("I (center X)", old_t.as_str(), new_t.as_str()),
                            ),
                        );
                    }
                    cmd.i = Some(*v);
                },
                Word::J(v) => {
                    if let Some(old) = cmd.j {
                        let old_t = old.to_text();
                        let new_t = v.to_text();
                        return Err(
                            Self::fail(
                                Ghost(wsv),
                                idx,
                                doublen_msg("J (center Y)", old_t.as_str(), new_t.as_str()),
                            ),
                        );
                    }
                    cmd.j = Some(*v);
                },
            }
            proof {
                assert(match spec_add_word(prev, gcode@[idx as int]@) {
                    Ok(c2) => cmd@ =~= c2,
                    Err(_) => false,
                });
            }
            idx = idx + 1;
        }
        proof {
            assert(wsv.subrange(0, n as int) =~= wsv);
        }
        Ok(cmd)
    }
}

impl Command {
    /// Return the duplicate error for word `idx`, shown to fail the whole
    /// fold.
    fn fail(Ghost(wsv): Ghost<Seq<WordV>>, idx: usize, e: SimpleError) -> (r: SimpleError)
        requires
            idx < wsv.len(),
            spec_fill(spec_empty_command(), wsv.subrange(0, idx + 1)) matches Err(m) && e.0@ == m,
        ensures
            spec_fill(spec_empty_command(), wsv) matches Err(m) && r.0@ == m,
    {
        proof {
            let prefix = wsv.subrange(0, idx + 1);
            let rest = wsv.subrange(idx + 1, wsv.len() as int);
            assert(wsv =~= prefix + rest);
            lemma_fill_append(spec_empty_command(), prefix, rest);
        }
        e
    }
}

} // verus!
