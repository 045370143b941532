//! A program file as a list of parsed lines.
//!
//! Reading the text from disk happens outside the library; the lines
//! arrive here as strings.  File lines are 1-based, and the first line
//! that fails to parse annotates the error with its number.

use vstd::prelude::*;
use crate::errors::LineError;
use crate::parser::{
    spec_line_fail_msg, spec_line_text, spec_parse_line, Line, LineParse, LineV,
};

verus! {

/// The printable form of a line list: each line's text and a newline.
pub open spec fn spec_printable(ls: Seq<LineV>) -> Seq<char>
    decreases ls.len(),
{
    if ls.len() == 0 {
        Seq::<char>::empty()
    } else {
        spec_printable(ls.drop_last()) + spec_line_text(ls.last()) + "\n"@
    }
}

/// The ghost image of a line list.
pub open spec fn spec_lines_view(ls: Seq<Line>) -> Seq<LineV> {
    ls.map_values(|l: Line| l@)
}

/// A parsed program file.
#[derive(Debug)]
pub struct GCodeFile {
    /// The parsed lines, in file order.
    pub code: Vec<Line>,
}

impl View for GCodeFile {
    type V = Seq<LineV>;

    open spec fn view(&self) -> Seq<LineV> {
        spec_lines_view(self.code@)
    }
}

impl GCodeFile {
    /// Parse the lines of a program text.  The result holds every line,
    /// in order; the first line that the grammar does not accept produces
    /// its parse error annotated with its 1-based line number.
    pub fn from_lines(lines: &Vec<String>) -> (r: Result<GCodeFile, LineError>)
        ensures
            match r {
                Ok(f) => f@.len() == lines@.len() && forall|i: int|
                    0 <= i < lines@.len() ==> spec_parse_line(#[trigger] lines@[i]@)
                        == LineParse::Parsed(f@[i]),
                Err(e) => exists|i: int|
                    {
                        &&& 0 <= i < lines@.len()
                        &&& !(#[trigger] spec_parse_line(lines@[i]@) is Parsed)
                        &&& forall|j: int| 0 <= j < i ==> #[trigger] spec_parse_line(
                            lines@[j]@,
                        ) is Parsed
                        &&& e.line == Some((i + 1) as u64)
                        &&& e.error.0@ == spec_line_fail_msg(lines@[i]@, spec_parse_line(lines@[i]@))
                    },
            },
    {
        let n = lines.len();
        let mut code: Vec<Line> = Vec::new();
        let mut idx: usize = 0;
        while idx < n
            invariant
                n == lines@.len(),
                idx <= n,
                code@.len() == idx,
                forall|j: int|
                    0 <= j < idx ==> spec_parse_line(#[trigger] lines@[j]@) == LineParse::Parsed(
                        spec_lines_view(code@)[j],
                    ),
            decreases n - idx,
        {
            match Line::parse(lines[idx].as_str()) {
                Ok(l) => {
                    let ghost prev = code@;
                    code.push(l);
                    proof {
                        assert(spec_lines_view(code@) =~= spec_lines_view(prev).push(l@));
                        assert forall|j: int| 0 <= j < idx + 1 implies spec_parse_line(
                            #[trigger] lines@[j]@,
                        ) == LineParse::Parsed(spec_lines_view(code@)[j]) by {
                            if j < idx {
                                assert(spec_lines_view(prev)[j] == spec_lines_view(code@)[j]);
                            }
                        }
                    }
                },
                Err(e) => {
                    return Err(e.at_line((idx as u64) + 1));
                },
            }
            idx = idx + 1;
        }
        Ok(GCodeFile { code })
    }

    /// The printable form of the file: one text line per parsed line.
    pub fn printable(&self) -> (s: String)
        ensures
            s@ == spec_printable(self@),
    {
        let ghost lv = spec_lines_view(self.code@);
        let n = self.code.len();
        let mut s = String::new();
        let mut i: usize = 0;
        while i < n
            invariant
                n == self.code@.len(),
                i <= n,
                lv == spec_lines_view(self.code@),
                s@ == spec_printable(lv.subrange(0, i as int)),
            decreases n - i,
        {
            proof {
                assert(lv.subrange(0, i + 1).drop_last() =~= lv.subrange(0, i as int));
                assert(lv.subrange(0, i + 1).last() == lv[i as int]);
                assert(lv[i as int] == self.code@[i as int]@);
            }
            let t = self.code[i].to_text();
            s.append(t.as_str());
            s.append("\n");
            i = i + 1;
        }
        proof {
            assert(lv.subrange(0, n as int) =~= lv);
        }
        s
    }
}

} // verus!
