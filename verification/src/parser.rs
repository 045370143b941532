//! The line parser of the G-code dialect.
//!
//! A line is either a `%MPF n` or `%SPF n` program header, a list of words
//! separated by spaces, or empty.  The whole line must be consumed; the
//! error for a line that is not names the remaining text.

use vstd::prelude::*;
use crate::errors::SimpleError;
use crate::text::{
    digit_run_end, digits_val_u32, lemma_digit_run_end_bounds, skip_spaces, spec_digit_run_end,
    spec_digits_val, spec_is_digit, spec_skip_spaces,
};
use crate::types::{spec_parse_um, Micrometer};
use crate::words::{
    spec_g_of_num, spec_m_of_num, spec_unknown_g_msg, spec_unknown_m_msg, spec_words_view, GWord,
    MWord, Word, WordV,
};

verus! {

/// An ordered list of words.
#[derive(Clone, PartialEq, Eq, Debug)]
pub struct Words(pub Vec<Word>);

impl View for Words {
    type V = Seq<WordV>;

    open spec fn view(&self) -> Seq<WordV> {
        spec_words_view(self.0@)
    }
}

/// One parsed line of program text.
#[derive(Clone, PartialEq, Eq, Debug)]
pub enum Line {
    /// A line with no code.
    Empty,
    /// A `%MPF` main program header.
    MainProgram(u8),
    /// A `%SPF` sub program header.
    SubProgram(u8),
    /// A line of words.
    Code(Words),
}

/// The ghost image of a parsed line.
pub ghost enum LineV {
    Empty,
    MainProgram(u8),
    SubProgram(u8),
    Code(Seq<WordV>),
}

impl View for Line {
    type V = LineV;

    open spec fn view(&self) -> LineV {
        match self {
            Line::Empty => LineV::Empty,
            Line::MainProgram(x) => LineV::MainProgram(*x),
            Line::SubProgram(x) => LineV::SubProgram(*x),
            Line::Code(ws) => LineV::Code(ws@),
        }
    }
}

/// What reading one word at a position yields.
pub ghost enum WordParse {
    /// A word and the position after it.
    Hit(int, WordV),
    /// A `G` designator outside the recognized set.
    UnknownG(int),
    /// An `M` designator outside the recognized set.
    UnknownM(int),
    /// No word starts here.
    Miss,
}

/// What reading a whole line yields.
pub ghost enum LineParse {
    /// A well-formed line.
    Parsed(LineV),
    /// A syntax error; the unparsed rest begins here.
    Bad(int),
    /// A `G` designator outside the recognized set.
    UnknownG(int),
    /// An `M` designator outside the recognized set.
    UnknownM(int),
}

/// The end of the comment body that starts at `pos`: the first position
/// holding a closing parenthesis, or the end of the line.
pub open spec fn spec_comment_end(s: Seq<char>, pos: int) -> int
    decreases s.len() - pos,
{
    if pos < 0 || pos >= s.len() || s[pos] == ')' {
        pos
    } else {
        spec_comment_end(s, pos + 1)
    }
}

/// A numeric designator directly after the letter at `pos`:
/// the run end and the value, or `None` for an empty run or a value
/// over `bound`.
pub open spec fn spec_num_after(s: Seq<char>, pos: int, bound: int) -> Option<(int, int)> {
    let e = spec_digit_run_end(s, pos + 1);
    if e == pos + 1 {
        None
    } else {
        let v = spec_digits_val(s.subrange(pos + 1, e));
        if v > bound {
            None
        } else {
            Some((e, v))
        }
    }
}

/// The word grammar, read at `pos`.
pub open spec fn spec_parse_word(s: Seq<char>, pos: int) -> WordParse {
    let len = s.len() as int;
    if pos >= len {
        WordParse::Miss
    } else {
        let c = s[pos];
        if c == 'G' {
            match spec_num_after(s, pos, 255) {
                None => WordParse::Miss,
                Some((e, v)) => match spec_g_of_num(v) {
                    Some(g) => WordParse::Hit(e, WordV::G(g)),
                    None => WordParse::UnknownG(v),
                },
            }
        } else if c == 'M' {
            match spec_num_after(s, pos, 255) {
                None => WordParse::Miss,
                Some((e, v)) => match spec_m_of_num(v) {
                    Some(m) => WordParse::Hit(e, WordV::M(m)),
                    None => WordParse::UnknownM(v),
                },
            }
        } else if c == 'X' || c == 'Y' || c == 'Z' || c == 'I' || c == 'J' {
            match spec_parse_um(s, pos + 1) {
                None => WordParse::Miss,
                Some((e, v)) => WordParse::Hit(
                    e,
                    if c == 'X' {
                        WordV::X(v)
                    } else if c == 'Y' {
                        WordV::Y(v)
                    } else if c == 'Z' {
                        WordV::Z(v)
                    } else if c == 'I' {
                        WordV::I(v)
                    } else {
                        WordV::J(v)
                    },
                ),
            }
        } else if c == 'N' {
            match spec_num_after(s, pos, u32::MAX as int) {
                None => WordParse::Miss,
                Some((e, v)) => WordParse::Hit(e, WordV::N(v as u32)),
            }
        } else if c == 'S' || c == 'F' || c == 'L' || c == 'P' {
            match spec_num_after(s, pos, u16::MAX as int) {
                None => WordParse::Miss,
                Some((e, v)) => WordParse::Hit(
                    e,
                    if c == 'S' {
                        WordV::S(v as u16)
                    } else if c == 'F' {
                        WordV::F(v as u16)
                    } else if c == 'L' {
                        WordV::L(v as u16)
                    } else {
                        WordV::P(v as u16)
                    },
                ),
            }
        } else if c == 'D' {
            match spec_num_after(s, pos, 255) {
                None => WordParse::Miss,
                Some((e, v)) => WordParse::Hit(e, WordV::D(v as u8)),
            }
        } else if c == 'R' {
            match spec_num_after(s, pos, 255) {
                None => WordParse::Miss,
                Some((e, v)) => if e < len && s[e] == '=' {
                    match spec_parse_um(s, e + 1) {
                        None => WordParse::Miss,
                        Some((e2, mv)) => WordParse::Hit(e2, WordV::R(v as u8, mv)),
                    }
                } else {
                    WordParse::Miss
                },
            }
        } else if c == '(' {
            let ce = spec_comment_end(s, pos + 1);
            let end = if ce < len {
                ce + 1
            } else {
                ce
            };
            WordParse::Hit(end, WordV::Comment(s.subrange(pos + 1, ce)))
        } else {
            WordParse::Miss
        }
    }
}

/// The comment end stays within the line.
pub proof fn lemma_comment_end_bounds(s: Seq<char>, pos: int)
    requires
        0 <= pos <= s.len(),
    ensures
        pos <= spec_comment_end(s, pos) <= s.len(),
    decreases s.len() - pos,
{
    if pos < s.len() && s[pos] != ')' {
        lemma_comment_end_bounds(s, pos + 1);
    }
}

/// The space run end stays within the line.
pub proof fn lemma_skip_spaces_bounds(s: Seq<char>, pos: int)
    requires
        0 <= pos <= s.len(),
    ensures
        pos <= spec_skip_spaces(s, pos) <= s.len(),
    decreases s.len() - pos,
{
    if pos < s.len() && s[pos] == ' ' {
        lemma_skip_spaces_bounds(s, pos + 1);
    }
}

/// A word hit consumes at least one character and stays within the line.
pub proof fn lemma_parse_word_bounds(s: Seq<char>, pos: int)
    requires
        0 <= pos <= s.len(),
    ensures
        spec_parse_word(s, pos) matches WordParse::Hit(e, _) ==> pos < e <= s.len(),
{
    let len = s.len() as int;
    if pos < len {
        lemma_digit_run_end_bounds(s, pos + 1);
        let c = s[pos];
        if c == 'X' || c == 'Y' || c == 'Z' || c == 'I' || c == 'J' {
            lemma_parse_um_bounds(s, pos + 1);
        } else if c == 'R' {
            let e = spec_digit_run_end(s, pos + 1);
            if pos + 1 < e && e < len && s[e] == '=' {
                lemma_parse_um_bounds(s, e + 1);
            }
        } else if c == '(' {
            lemma_comment_end_bounds(s, pos + 1);
        }
    }
}

/// A length match consumes at least one character and stays in the line.
pub proof fn lemma_parse_um_bounds(s: Seq<char>, pos: int)
    requires
        0 <= pos <= s.len(),
    ensures
        spec_parse_um(s, pos) matches Some(r) ==> pos < r.0 <= s.len(),
{
    let len = s.len() as int;
    let p1 = if pos < len && (s[pos] == '+' || s[pos] == '-') {
        pos + 1
    } else {
        pos
    };
    lemma_digit_run_end_bounds(s, p1);
    if p1 < len && s[p1] == '.' {
        lemma_digit_run_end_bounds(s, p1 + 1);
    } else {
        let e1 = spec_digit_run_end(s, p1);
        if p1 < e1 && e1 < len && s[e1] == '.' {
            lemma_digit_run_end_bounds(s, e1 + 1);
        }
    }
}

/// The word-list grammar, read at a space-normalized position: the words
/// from `pos` on, or the failure for the first word that does not parse.
pub open spec fn spec_parse_words(s: Seq<char>, pos: int) -> LineParse
    decreases s.len() - pos,
    when 0 <= pos <= s.len()
    via spec_parse_words_dec
{
    if pos >= s.len() {
        LineParse::Parsed(LineV::Code(Seq::<WordV>::empty()))
    } else {
        match spec_parse_word(s, pos) {
            WordParse::Miss => LineParse::Bad(pos),
            WordParse::UnknownG(n) => LineParse::UnknownG(n),
            WordParse::UnknownM(n) => LineParse::UnknownM(n),
            WordParse::Hit(e, w) => match spec_parse_words(s, spec_skip_spaces(s, e)) {
                LineParse::Parsed(LineV::Code(ws)) => LineParse::Parsed(
                    LineV::Code(seq![w] + ws),
                ),
                other => other,
            },
        }
    }
}

#[via_fn]
proof fn spec_parse_words_dec(s: Seq<char>, pos: int) {
    if 0 <= pos < s.len() {
        lemma_parse_word_bounds(s, pos);
        if let WordParse::Hit(e, _) = spec_parse_word(s, pos) {
            lemma_skip_spaces_bounds(s, e);
        }
    }
}

/// A `%MPF n` or `%SPF n` header: the designator value and the position
/// after the digits and any trailing spaces, or `None` when the line does
/// not start with the tag followed by a valid `u8` designator.
pub open spec fn spec_header(s: Seq<char>, tag: Seq<char>) -> Option<(int, int)> {
    if s.len() >= 4 && s.subrange(0, 4) == tag {
        match spec_num_after(s, 3, 255) {
            None => None,
            Some((e, v)) => Some((v, spec_skip_spaces(s, e))),
        }
    } else {
        None
    }
}

/// The line grammar: a header line, a word line, an empty line, or the
/// failure that the text produces.
pub open spec fn spec_parse_line(s: Seq<char>) -> LineParse {
    let len = s.len() as int;
    match spec_header(s, "%MPF"@) {
        Some((v, p)) => if p == len {
            LineParse::Parsed(LineV::MainProgram(v as u8))
        } else {
            LineParse::Bad(p)
        },
        None => match spec_header(s, "%SPF"@) {
            Some((v, p)) => if p == len {
                LineParse::Parsed(LineV::SubProgram(v as u8))
            } else {
                LineParse::Bad(p)
            },
            None => {
                let q = spec_skip_spaces(s, 0);
                if q == len {
                    LineParse::Parsed(LineV::Empty)
                } else {
                    spec_parse_words(s, q)
                }
            },
        },
    }
}

/// The message for a line with unparsable text.
pub open spec fn spec_invalid_syntax_msg(s: Seq<char>, pos: int) -> Seq<char> {
    "Invalid syntax at '"@ + s.subrange(pos, s.len() as int) + "'"@
}

/// The message that a failed line parse produces.
pub open spec fn spec_line_fail_msg(s: Seq<char>, r: LineParse) -> Seq<char> {
    match r {
        LineParse::Parsed(_) => Seq::<char>::empty(),
        LineParse::Bad(p) => spec_invalid_syntax_msg(s, p),
        LineParse::UnknownG(n) => spec_unknown_g_msg(n as nat),
        LineParse::UnknownM(n) => spec_unknown_m_msg(n as nat),
    }
}

/// The outcome of reading one word.
enum WordHit {
    Hit(usize, Word),
    Unknown(SimpleError),
    Miss,
}

/// The end of the comment body that starts at `pos`.
fn comment_end(s: &str, n: usize, pos: usize) -> (r: usize)
    requires
        n == s@.len(),
        pos <= n,
    ensures
        r == spec_comment_end(s@, pos as int),
        pos <= r <= n,
{
    let mut i = pos;
    while i < n && s.get_char(i) != ')'
        invariant
            pos <= i <= n,
            n == s@.len(),
            spec_comment_end(s@, pos as int) == spec_comment_end(s@, i as int),
        decreases n - i,
    {
        i = i + 1;
    }
    i
}

/// A numeric designator directly after the letter at `pos`.
fn num_after(s: &str, n: usize, pos: usize, bound: u32) -> (r: Option<(usize, u32)>)
    requires
        n == s@.len(),
        pos < n,
    ensures
        match r {
            Some((e, v)) => spec_num_after(s@, pos as int, bound as int) == Some(
                (e as int, v as int),
            ) && pos < e <= n && v <= bound,
            None => spec_num_after(s@, pos as int, bound as int) is None,
        },
{
    let e = digit_run_end(s, n, pos + 1);
    proof {
        lemma_digit_run_end_bounds(s@, pos + 1);
    }
    if e == pos + 1 {
        return None;
    }
    proof {
        assert forall|i: int| 0 <= i < e - (pos + 1) implies spec_is_digit(
            #[trigger] s@.subrange(pos + 1, e as int)[i],
        ) by {
            assert(s@.subrange(pos + 1, e as int)[i] == s@[pos + 1 + i]);
        }
    }
    match digits_val_u32(s, n, pos + 1, e) {
        None => None,
        Some(v) => {
            if v > bound {
                None
            } else {
                Some((e, v))
            }
        },
    }
}

/// Read one word at `pos`.
fn parse_word_at(s: &str, n: usize, pos: usize) -> (r: WordHit)
    requires
        n == s@.len(),
        pos < n,
    ensures
        match r {
            WordHit::Hit(e, w) => spec_parse_word(s@, pos as int) == WordParse::Hit(
                e as int,
                w@,
            ) && pos < e <= n,
            WordHit::Miss => spec_parse_word(s@, pos as int) is Miss,
            WordHit::Unknown(err) => match spec_parse_word(s@, pos as int) {
                WordParse::UnknownG(v) => err.0@ == spec_unknown_g_msg(v as nat),
                WordParse::UnknownM(v) => err.0@ == spec_unknown_m_msg(v as nat),
                _ => false,
            },
        },
{
    let c = s.get_char(pos);
    if c == 'G' {
        match num_after(s, n, pos, 255) {
            None => WordHit::Miss,
            Some((e, v)) => match GWord::from_number(v as u8) {
                Ok(g) => WordHit::Hit(e, Word::G(g)),
                Err(err) => WordHit::Unknown(err),
            },
        }
    } else if c == 'M' {
        match num_after(s, n, pos, 255) {
            None => WordHit::Miss,
            Some((e, v)) => match MWord::from_number(v as u8) {
                Ok(m) => WordHit::Hit(e, Word::M(m)),
                Err(err) => WordHit::Unknown(err),
            },
        }
    } else if c == 'X' || c == 'Y' || c == 'Z' || c == 'I' || c == 'J' {
        match Micrometer::parse_at(s, n, pos + 1) {
            None => WordHit::Miss,
            Some((e, um)) => WordHit::Hit(
                e,
                if c == 'X' {
                    Word::X(um)
                } else if c == 'Y' {
                    Word::Y(um)
                } else if c == 'Z' {
                    Word::Z(um)
                } else if c == 'I' {
                    Word::I(um)
                } else {
                    Word::J(um)
                },
            ),
        }
    } else if c == 'N' {
        match num_after(s, n, pos, u32::MAX) {
            None => WordHit::Miss,
            Some((e, v)) => WordHit::Hit(e, Word::N(v)),
        }
    } else if c == 'S' || c == 'F' || c == 'L' || c == 'P' {
        match num_after(s, n, pos, 65535) {
            None => WordHit::Miss,
            Some((e, v)) => WordHit::Hit(
                e,
                if c == 'S' {
                    Word::S(v as u16)
                } else if c == 'F' {
                    Word::F(v as u16)
                } else if c == 'L' {
                    Word::L(v as u16)
                } else {
                    Word::P(v as u16)
                },
            ),
        }
    } else if c == 'D' {
        match num_after(s, n, pos, 255) {
            None => WordHit::Miss,
            Some((e, v)) => WordHit::Hit(e, Word::D(v as u8)),
        }
    } else if c == 'R' {
        match num_after(s, n, pos, 255) {
            None => WordHit::Miss,
            Some((e, v)) => {
                if e < n && s.get_char(e) == '=' {
                    match Micrometer::parse_at(s, n, e + 1) {
                        None => WordHit::Miss,
                        Some((e2, um)) => WordHit::Hit(e2, Word::R(v as u8, um)),
                    }
                } else {
                    WordHit::Miss
                }
            },
        }
    } else if c == '(' {
        let ce = comment_end(s, n, pos + 1);
        let body = s.substring_char(pos + 1, ce);
        let end = if ce < n {
            ce + 1
        } else {
            ce
        };
        WordHit::Hit(end, Word::Comment(String::from_str(body)))
    } else {
        WordHit::Miss
    }
}

/// Read a `%MPF n` or `%SPF n` header when the line starts with one.
fn parse_header(s: &str, n: usize, main: bool) -> (r: Option<(u8, usize)>)
    requires
        n == s@.len(),
    ensures
        (match r {
            Some((v, p)) => spec_header(
                s@,
                if main {
                    "%MPF"@
                } else {
                    "%SPF"@
                },
            ) == Some((v as int, p as int)) && p <= n,
            None => spec_header(
                s@,
                if main {
                    "%MPF"@
                } else {
                    "%SPF"@
                },
            ) is None,
        }),
{
    let ghost tag: Seq<char> = if main {
        "%MPF"@
    } else {
        "%SPF"@
    };
    proof {
        reveal_strlit("%MPF");
        reveal_strlit("%SPF");
    }
    if n < 4 {
        return None;
    }
    let second = if main {
        'M'
    } else {
        'S'
    };
    if !(s.get_char(0) == '%' && s.get_char(1) == second && s.get_char(2) == 'P' && s.get_char(3)
        == 'F') {
        proof {
            assert(s@.subrange(0, 4)[0] == s@[0]);
            assert(s@.subrange(0, 4)[1] == s@[1]);
            assert(s@.subrange(0, 4)[2] == s@[2]);
            assert(s@.subrange(0, 4)[3] == s@[3]);
        }
        return None;
    }
    proof {
        assert(s@.subrange(0, 4) =~= tag);
    }
    match num_after(s, n, 3, 255) {
        None => None,
        Some((e, v)) => {
            let p = skip_spaces(s, n, e);
            Some((v as u8, p))
        },
    }
}

/// The textual form of a word list: the words separated by spaces.
pub open spec fn spec_words_text(ws: Seq<WordV>) -> Seq<char>
    decreases ws.len(),
{
    if ws.len() == 0 {
        Seq::<char>::empty()
    } else if ws.len() == 1 {
        crate::words::spec_word_text(ws[0])
    } else {
        spec_words_text(ws.drop_last()) + " "@ + crate::words::spec_word_text(ws.last())
    }
}

impl Words {
    /// The textual form of the word list.
    pub fn to_text(&self) -> (s: String)
        ensures
            s@ == spec_words_text(self@),
    {
        let ghost wsv = spec_words_view(self.0@);
        let n = self.0.len();
        let mut s = String::new();
        let mut i: usize = 0;
        while i < n
            invariant
                n == self.0@.len(),
                i <= n,
                wsv == spec_words_view(self.0@),
                s@ == spec_words_text(wsv.subrange(0, i as int)),
            decreases n - i,
        {
            proof {
                assert(wsv.subrange(0, i + 1).drop_last() =~= wsv.subrange(0, i as int));
                assert(wsv.subrange(0, i + 1).last() == wsv[i as int]);
                assert(wsv[i as int] == self.0@[i as int]@);
                assert(wsv.subrange(0, 1) =~= seq![wsv[0]]);
            }
            if i > 0 {
                s.append(" ");
            }
            let t = self.0[i].to_text();
            s.append(t.as_str());
            i = i + 1;
        }
        proof {
            assert(wsv.subrange(0, n as int) =~= wsv);
        }
        s
    }

    /// A copy of the word list.
    pub fn duplicate(&self) -> (w: Words)
        ensures
            w@ == self@,
    {
        let mut out: Vec<Word> = Vec::new();
        let n = self.0.len();
        let mut i: usize = 0;
        while i < n
            invariant
                n == self.0@.len(),
                i <= n,
                out@.len() == i,
                spec_words_view(out@) =~= spec_words_view(self.0@).subrange(0, i as int),
            decreases n - i,
        {
            let ghost prev = out@;
            out.push(self.0[i].duplicate());
            proof {
                assert(spec_words_view(out@) =~= spec_words_view(prev).push(self.0@[i as int]@));
                assert(spec_words_view(out@) =~= spec_words_view(self.0@).subrange(0, i + 1));
            }
            i = i + 1;
        }
        proof {
            assert(spec_words_view(self.0@).subrange(0, n as int) =~= spec_words_view(self.0@));
        }
        Words(out)
    }
}

/// The textual form of a parsed line.
pub open spec fn spec_line_text(l: LineV) -> Seq<char> {
    match l {
        LineV::Empty => Seq::<char>::empty(),
        LineV::MainProgram(x) => "%MPF"@ + crate::text::spec_dec_nat(x as nat),
        LineV::SubProgram(x) => "%SPF"@ + crate::text::spec_dec_nat(x as nat),
        LineV::Code(ws) => spec_words_text(ws),
    }
}

impl Line {
    /// The textual form of the line.
    pub fn to_text(&self) -> (s: String)
        ensures
            s@ == spec_line_text(self@),
    {
        match self {
            Line::Empty => String::new(),
            Line::MainProgram(x) => {
                let mut s = String::from_str("%MPF");
                let d = crate::text::dec_u64(*x as u64);
                s.append(d.as_str());
                s
            },
            Line::SubProgram(x) => {
                let mut s = String::from_str("%SPF");
                let d = crate::text::dec_u64(*x as u64);
                s.append(d.as_str());
                s
            },
            Line::Code(ws) => ws.to_text(),
        }
    }
}

impl Line {
    /// Parse one line of program text.  The whole line must be consumed;
    /// a line that the grammar does not accept produces either the
    /// message for an unknown G or M designator or an `Invalid syntax`
    /// message naming the unparsed rest of the line.
    pub fn parse(line: &str) -> (r: Result<Line, SimpleError>)
        ensures
            match r {
                Ok(l) => spec_parse_line(line@) == LineParse::Parsed(l@),
                Err(e) => !(spec_parse_line(line@) is Parsed) && e.0@ == spec_line_fail_msg(
                    line@,
                    spec_parse_line(line@),
                ),
            },
    {
        let n = line.unicode_len();
        if let Some((v, p)) = parse_header(line, n, true) {
            if p == n {
                return Ok(Line::MainProgram(v));
            }
            return Err(invalid_syntax(line, n, p));
        }
        if let Some((v, p)) = parse_header(line, n, false) {
            if p == n {
                return Ok(Line::SubProgram(v));
            }
            return Err(invalid_syntax(line, n, p));
        }
        let q = skip_spaces(line, n, 0);
        if q == n {
            return Ok(Line::Empty);
        }
        let mut words: Vec<Word> = Vec::new();
        let mut p = q;
        while p < n
            invariant
                n == line@.len(),
                q <= p <= n,
                p > q ==> p == spec_skip_spaces(line@, p as int),
                spec_parse_line(line@) == (match spec_parse_words(line@, p as int) {
                    LineParse::Parsed(LineV::Code(ws)) => LineParse::Parsed(
                        LineV::Code(spec_words_view(words@) + ws),
                    ),
                    other => other,
                }),
            decreases n - p,
        {
            match parse_word_at(line, n, p) {
                WordHit::Hit(e, w) => {
                    let ghost old_words = words@;
                    words.push(w);
                    proof {
                        assert(spec_words_view(words@) =~= spec_words_view(old_words) + seq![w@]);
                    }
                    p = skip_spaces(line, n, e);
                    proof {
                        lemma_skip_spaces_idempotent(line@, e as int);
                        if let LineParse::Parsed(LineV::Code(ws)) = spec_parse_words(
                            line@,
                            p as int,
                        ) {
                            assert(spec_words_view(old_words) + (seq![w@] + ws) =~= (
                            spec_words_view(old_words) + seq![w@]) + ws);
                        }
                    }
                },
                WordHit::Miss => {
                    return Err(invalid_syntax(line, n, p));
                },
                WordHit::Unknown(err) => {
                    return Err(err);
                },
            }
        }
        proof {
            assert(spec_words_view(words@) + Seq::<WordV>::empty() =~= spec_words_view(words@));
        }
        Ok(Line::Code(Words(words)))
    }
}

/// Skipping spaces twice is the same as skipping them once.
proof fn lemma_skip_spaces_idempotent(s: Seq<char>, pos: int)
    requires
        0 <= pos <= s.len(),
    ensures
        spec_skip_spaces(s, spec_skip_spaces(s, pos)) == spec_skip_spaces(s, pos),
    decreases s.len() - pos,
{
    if pos < s.len() && s[pos] == ' ' {
        lemma_skip_spaces_idempotent(s, pos + 1);
    }
}

/// The `Invalid syntax` message for the rest of a line.
fn invalid_syntax(s: &str, n: usize, pos: usize) -> (r: SimpleError)
    requires
        n == s@.len(),
        pos <= n,
    ensures
        r.0@ == spec_invalid_syntax_msg(s@, pos as int),
{
    let rest = s.substring_char(pos, n);
    let mut msg = String::from_str("Invalid syntax at '");
    msg.append(rest);
    msg.append("'");
    SimpleError(msg)
}

} // verus!
