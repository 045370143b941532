//! The recognized G-code words.

use vstd::prelude::*;
use crate::errors::SimpleError;
use crate::text::spec_dec_nat;
use crate::types::Micrometer;

verus! {

/// The recognized G codes.
#[derive(Clone, Copy, PartialEq, Eq, Structural, Debug)]
pub enum GWord {
    /// Rapid positioning.
    G0,
    /// Linear feed.
    G1,
    /// Clockwise circular feed.
    G2,
    /// Counter-clockwise circular feed.
    G3,
    /// Absolute coordinates.
    G90,
    /// Relative coordinates.
    G91,
}

/// The recognized M codes.
#[derive(Clone, Copy, PartialEq, Eq, Structural, Debug)]
pub enum MWord {
    /// Program end.
    M2,
    /// Start spindle clockwise (forwards).
    M3,
    /// Start spindle counter-clockwise (backwards).
    M4,
    /// Stop spindle.
    M5,
    /// Tool change.
    M6,
    /// Start coolant.
    M8,
    /// Stop coolant.
    M9,
    /// Return from a subprogram.
    M17,
}

/// One word of a code line.
#[derive(Clone, PartialEq, Eq, Debug)]
pub enum Word {
    /// Line number.
    N(u32),
    /// G command.
    G(GWord),
    /// M command.
    M(MWord),
    /// Tool number.
    D(u8),
    /// Spindle speed.
    S(u16),
    /// Milling feed.
    F(u16),
    /// Arc center offset along X.
    I(Micrometer),
    /// Arc center offset along Y.
    J(Micrometer),
    /// X coordinate.
    X(Micrometer),
    /// Y coordinate.
    Y(Micrometer),
    /// Z coordinate.
    Z(Micrometer),
    /// Subprogram call or builtin cycle.
    L(u16),
    /// Subprogram repeat count.
    P(u16),
    /// Parametric pair, accepted and otherwise inert.
    R(u8, Micrometer),
    /// Comment text.
    Comment(String),
}

/// The ghost image of a word; lengths appear as their micrometer value and
/// a comment as its character sequence.
pub ghost enum WordV {
    N(u32),
    G(GWord),
    M(MWord),
    D(u8),
    S(u16),
    F(u16),
    I(int),
    J(int),
    X(int),
    Y(int),
    Z(int),
    L(u16),
    P(u16),
    R(u8, int),
    Comment(Seq<char>),
}

impl View for Word {
    type V = WordV;

    open spec fn view(&self) -> WordV {
        match self {
            Word::N(x) => WordV::N(*x),
            Word::G(w) => WordV::G(*w),
            Word::M(w) => WordV::M(*w),
            Word::D(x) => WordV::D(*x),
            Word::S(x) => WordV::S(*x),
            Word::F(x) => WordV::F(*x),
            Word::I(m) => WordV::I(m.0 as int),
            Word::J(m) => WordV::J(m.0 as int),
            Word::X(m) => WordV::X(m.0 as int),
            Word::Y(m) => WordV::Y(m.0 as int),
            Word::Z(m) => WordV::Z(m.0 as int),
            Word::L(x) => WordV::L(*x),
            Word::P(x) => WordV::P(*x),
            Word::R(a, b) => WordV::R(*a, b.0 as int),
            Word::Comment(c) => WordV::Comment(c@),
        }
    }
}

/// The ghost image of a word list.
pub open spec fn spec_words_view(ws: Seq<Word>) -> Seq<WordV> {
    ws.map_values(|w: Word| w@)
}

/// Whether a word takes part in execution; comments and line numbers do not.
pub open spec fn spec_is_executable(w: WordV) -> bool {
    match w {
        WordV::N(_) => false,
        WordV::Comment(_) => false,
        _ => true,
    }
}

impl Word {
    /// A copy of the word.
    pub fn duplicate(&self) -> (w: Word)
        ensures
            w@ == self@,
    {
        match self {
            Word::N(x) => Word::N(*x),
            Word::G(w) => Word::G(*w),
            Word::M(w) => Word::M(*w),
            Word::D(x) => Word::D(*x),
            Word::S(x) => Word::S(*x),
            Word::F(x) => Word::F(*x),
            Word::I(m) => Word::I(*m),
            Word::J(m) => Word::J(*m),
            Word::X(m) => Word::X(*m),
            Word::Y(m) => Word::Y(*m),
            Word::Z(m) => Word::Z(*m),
            Word::L(x) => Word::L(*x),
            Word::P(x) => Word::P(*x),
            Word::R(a, b) => Word::R(*a, *b),
            Word::Comment(c) => Word::Comment(c.clone()),
        }
    }

    /// Whether the word takes part in execution.
    pub fn is_executable(&self) -> (r: bool)
        ensures
            r == spec_is_executable(self@),
    {
        match self {
            Word::N(_) => false,
            Word::Comment(_) => false,
            _ => true,
        }
    }
}

/// The numeric designator of a G code.
pub open spec fn spec_g_num(g: GWord) -> int {
    match g {
        GWord::G0 => 0,
        GWord::G1 => 1,
        GWord::G2 => 2,
        GWord::G3 => 3,
        GWord::G90 => 90,
        GWord::G91 => 91,
    }
}

/// The numeric designator of an M code.
pub open spec fn spec_m_num(m: MWord) -> int {
    match m {
        MWord::M2 => 2,
        MWord::M3 => 3,
        MWord::M4 => 4,
        MWord::M5 => 5,
        MWord::M6 => 6,
        MWord::M8 => 8,
        MWord::M9 => 9,
        MWord::M17 => 17,
    }
}

/// The textual form of a word, as it is echoed.
pub open spec fn spec_word_text(w: WordV) -> Seq<char> {
    match w {
        WordV::N(x) => "N"@ + spec_dec_nat(x as nat),
        WordV::G(g) => "G"@ + spec_dec_nat(spec_g_num(g) as nat),
        WordV::M(m) => "M"@ + spec_dec_nat(spec_m_num(m) as nat),
        WordV::D(x) => "D"@ + spec_dec_nat(x as nat),
        WordV::S(x) => "S"@ + spec_dec_nat(x as nat),
        WordV::F(x) => "F"@ + spec_dec_nat(x as nat),
        WordV::I(v) => "I"@ + crate::types::spec_um_text(v),
        WordV::J(v) => "J"@ + crate::types::spec_um_text(v),
        WordV::X(v) => "X"@ + crate::types::spec_um_text(v),
        WordV::Y(v) => "Y"@ + crate::types::spec_um_text(v),
        WordV::Z(v) => "Z"@ + crate::types::spec_um_text(v),
        WordV::L(x) => "L"@ + spec_dec_nat(x as nat),
        WordV::P(x) => "P"@ + spec_dec_nat(x as nat),
        WordV::R(a, b) => "P"@ + spec_dec_nat(a as nat) + "="@ + crate::types::spec_um_text(b),
        WordV::Comment(c) => "("@ + c + ")"@,
    }
}

impl Word {
    /// The textual form of the word.
    pub fn to_text(&self) -> (s: String)
        ensures
            s@ == spec_word_text(self@),
    {
        match self {
            Word::N(x) => {
                let mut s = String::from_str("N");
                let d = crate::text::dec_u64(*x as u64);
                s.append(d.as_str());
                s
            },
            Word::G(g) => {
                let mut s = String::from_str("G");
                let d = crate::text::dec_u64(g.number() as u64);
                s.append(d.as_str());
                proof {
                    assert(spec_g_of_num(spec_g_num(*g)) == Some(*g));
                }
                s
            },
            Word::M(m) => {
                let mut s = String::from_str("M");
                let d = crate::text::dec_u64(m.number() as u64);
                s.append(d.as_str());
                proof {
                    assert(spec_m_of_num(spec_m_num(*m)) == Some(*m));
                }
                s
            },
            Word::D(x) => {
                let mut s = String::from_str("D");
                let d = crate::text::dec_u64(*x as u64);
                s.append(d.as_str());
                s
            },
            Word::S(x) => {
                let mut s = String::from_str("S");
                let d = crate::text::dec_u64(*x as u64);
                s.append(d.as_str());
                s
            },
            Word::F(x) => {
                let mut s = String::from_str("F");
                let d = crate::text::dec_u64(*x as u64);
                s.append(d.as_str());
                s
            },
            Word::I(v) => {
                let mut s = String::from_str("I");
                let t = v.to_text();
                s.append(t.as_str());
                s
            },
            Word::J(v) => {
                let mut s = String::from_str("J");
                let t = v.to_text();
                s.append(t.as_str());
                s
            },
            Word::X(v) => {
                let mut s = String::from_str("X");
                let t = v.to_text();
                s.append(t.as_str());
                s
            },
            Word::Y(v) => {
                let mut s = String::from_str("Y");
                let t = v.to_text();
                s.append(t.as_str());
                s
            },
            Word::Z(v) => {
                let mut s = String::from_str("Z");
                let t = v.to_text();
                s.append(t.as_str());
                s
            },
            Word::L(x) => {
                let mut s = String::from_str("L");
                let d = crate::text::dec_u64(*x as u64);
                s.append(d.as_str());
                s
            },
            Word::P(x) => {
                let mut s = String::from_str("P");
                let d = crate::text::dec_u64(*x as u64);
                s.append(d.as_str());
                s
            },
            Word::R(a, b) => {
                let mut s = String::from_str("P");
                let d = crate::text::dec_u64(*a as u64);
                s.append(d.as_str());
                s.append("=");
                let t = b.to_text();
                s.append(t.as_str());
                s
            },
            Word::Comment(c) => {
                let mut s = String::from_str("(");
                s.append(c.as_str());
                s.append(")");
                s
            },
        }
    }
}

/// The G code for a numeric designator, when there is one.
pub open spec fn spec_g_of_num(n: int) -> Option<GWord> {
    if n == 0 {
        Some(GWord::G0)
    } else if n == 1 {
        Some(GWord::G1)
    } else if n == 2 {
        Some(GWord::G2)
    } else if n == 3 {
        Some(GWord::G3)
    } else if n == 90 {
        Some(GWord::G90)
    } else if n == 91 {
        Some(GWord::G91)
    } else {
        None
    }
}

/// The M code for a numeric designator, when there is one.
pub open spec fn spec_m_of_num(n: int) -> Option<MWord> {
    if n == 2 {
        Some(MWord::M2)
    } else if n == 3 {
        Some(MWord::M3)
    } else if n == 4 {
        Some(MWord::M4)
    } else if n == 5 {
        Some(MWord::M5)
    } else if n == 6 {
        Some(MWord::M6)
    } else if n == 8 {
        Some(MWord::M8)
    } else if n == 9 {
        Some(MWord::M9)
    } else if n == 17 {
        Some(MWord::M17)
    } else {
        None
    }
}

/// The message for a G designator outside the recognized set.
pub open spec fn spec_unknown_g_msg(n: nat) -> Seq<char> {
    "Unknown G code 'G"@ + spec_dec_nat(n) + "'"@
}

/// The message for an M designator outside the recognized set.
pub open spec fn spec_unknown_m_msg(n: nat) -> Seq<char> {
    "Unknown M code 'M"@ + spec_dec_nat(n) + "'"@
}

impl GWord {
    /// Convert an integer designator to a G code.
    pub fn from_number(n: u8) -> (r: Result<GWord, SimpleError>)
        ensures
            match r {
                Ok(g) => spec_g_of_num(n as int) == Some(g),
                Err(e) => spec_g_of_num(n as int) is None && e.0@ == spec_unknown_g_msg(n as nat),
            },
    {
        match n {
            0 => Ok(GWord::G0),
            1 => Ok(GWord::G1),
            2 => Ok(GWord::G2),
            3 => Ok(GWord::G3),
            90 => Ok(GWord::G90),
            91 => Ok(GWord::G91),
            _ => {
                let mut s = String::from_str("Unknown G code 'G");
                let d = crate::text::dec_u64(n as u64);
                s.append(d.as_str());
                s.append("'");
                Err(SimpleError(s))
            },
        }
    }

    /// The numeric designator of the code.
    pub fn number(&self) -> (r: u8)
        ensures
            spec_g_of_num(r as int) == Some(*self),
    {
        match self {
            GWord::G0 => 0,
            GWord::G1 => 1,
            GWord::G2 => 2,
            GWord::G3 => 3,
            GWord::G90 => 90,
            GWord::G91 => 91,
        }
    }
}

impl MWord {
    /// Convert an integer designator to an M code.
    pub fn from_number(n: u8) -> (r: Result<MWord, SimpleError>)
        ensures
            match r {
                Ok(m) => spec_m_of_num(n as int) == Some(m),
                Err(e) => spec_m_of_num(n as int) is None && e.0@ == spec_unknown_m_msg(n as nat),
            },
    {
        match n {
            2 => Ok(MWord::M2),
            3 => Ok(MWord::M3),
            4 => Ok(MWord::M4),
            5 => Ok(MWord::M5),
            6 => Ok(MWord::M6),
            8 => Ok(MWord::M8),
            9 => Ok(MWord::M9),
            17 => Ok(MWord::M17),
            _ => {
                let mut s = String::from_str("Unknown M code 'M");
                let d = crate::text::dec_u64(n as u64);
                s.append(d.as_str());
                s.append("'");
                Err(SimpleError(s))
            },
        }
    }

    /// The numeric designator of the code.
    pub fn number(&self) -> (r: u8)
        ensures
            spec_m_of_num(r as int) == Some(*self),
    {
        match self {
            MWord::M2 => 2,
            MWord::M3 => 3,
            MWord::M4 => 4,
            MWord::M5 => 5,
            MWord::M6 => 6,
            MWord::M8 => 8,
            MWord::M9 => 9,
            MWord::M17 => 17,
        }
    }
}

} // verus!
