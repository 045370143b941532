//! Grouping parsed lines into programs, and walking a program.
//!
//! A `%MPF n` or `%SPF n` header retargets a cursor; code lines are
//! appended to the block the cursor names.  Every main program must end
//! with `M2` and every sub program with `M17`.  The executor walks the
//! chosen main program and expands subprogram calls with their repeat
//! counts.

use vstd::prelude::*;
use crate::actions::{spec_from_gcode, Command, CommandV, Global};
use crate::errors::{LineError, SimpleError};
use crate::file::GCodeFile;
use crate::parser::{Line, LineV, Words};
use crate::text::{dec_u64, spec_dec_nat};
use crate::words::{spec_is_executable, MWord, Word, WordV};

verus! {

/// One code line of a program block.
#[derive(Debug)]
pub struct CodeLine {
    /// The 1-based file line the code came from.
    pub file_line: u64,
    /// The words of the line.
    pub words: Words,
}

/// The ghost image of a code line.
#[verifier::ext_equal]
pub ghost struct CodeLineV {
    pub file_line: u64,
    pub words: Seq<WordV>,
}

impl View for CodeLine {
    type V = CodeLineV;

    open spec fn view(&self) -> CodeLineV {
        CodeLineV { file_line: self.file_line, words: self.words@ }
    }
}

/// One program block: the header's file line and the block's code lines.
#[derive(Debug)]
pub struct CodeBlock {
    /// The 1-based file line of the block's first header.
    pub file_line: u64,
    /// The code lines of the block, in file order.
    pub code: Vec<CodeLine>,
}

/// The ghost image of a program block.
#[verifier::ext_equal]
pub ghost struct CodeBlockV {
    pub file_line: u64,
    pub code: Seq<CodeLineV>,
}

impl View for CodeBlock {
    type V = CodeBlockV;

    open spec fn view(&self) -> CodeBlockV {
        CodeBlockV { file_line: self.file_line, code: self.code@.map_values(|l: CodeLine| l@) }
    }
}

/// The ghost image of a keyed block list.
pub open spec fn spec_blocks_view(v: Seq<(u8, CodeBlock)>) -> Seq<(u8, CodeBlockV)> {
    v.map_values(|p: (u8, CodeBlock)| (p.0, p.1@))
}

/// Whether the keys of a block list are strictly ascending.
pub open spec fn spec_keys_sorted(m: Seq<(u8, CodeBlockV)>) -> bool {
    forall|i: int, j: int| 0 <= i < j < m.len() ==> (#[trigger] m[i]).0 < (#[trigger] m[j]).0
}

/// The index of a key in a block list, or `-1`.
pub open spec fn spec_find_key(m: Seq<(u8, CodeBlockV)>, n: u8) -> int
    decreases m.len(),
{
    if m.len() == 0 {
        -1
    } else if m[0].0 == n {
        0
    } else {
        let r = spec_find_key(m.subrange(1, m.len() as int), n);
        if r == -1 {
            -1
        } else {
            r + 1
        }
    }
}

/// The position at which a new key keeps the list sorted: the first index
/// whose key is larger.
pub open spec fn spec_insert_pos(m: Seq<(u8, CodeBlockV)>, n: u8) -> int
    decreases m.len(),
{
    if m.len() == 0 {
        0
    } else if m[0].0 > n {
        0
    } else {
        1 + spec_insert_pos(m.subrange(1, m.len() as int), n)
    }
}

/// A code line lands in the block its key names: appended to the existing
/// block, or opening a new block at the header's line.
pub open spec fn spec_append_block(
    m: Seq<(u8, CodeBlockV)>,
    n: u8,
    cl: CodeLineV,
    def_line: u64,
) -> Seq<(u8, CodeBlockV)> {
    let k = spec_find_key(m, n);
    if k >= 0 {
        m.update(k, (n, CodeBlockV { file_line: m[k].1.file_line, code: m[k].1.code.push(cl) }))
    } else {
        m.insert(spec_insert_pos(m, n), (n, CodeBlockV { file_line: def_line, code: seq![cl] }))
    }
}

/// Where the structurer's cursor points.
pub ghost enum CursorV {
    Unknown,
    Main(u8),
    Sub(u8),
}

/// The structurer's running state.
#[verifier::ext_equal]
pub ghost struct StructState {
    pub cursor: CursorV,
    pub def_line: u64,
    pub mains: Seq<(u8, CodeBlockV)>,
    pub subs: Seq<(u8, CodeBlockV)>,
}

/// The state before any line.
pub open spec fn spec_struct_init() -> StructState {
    StructState {
        cursor: CursorV::Unknown,
        def_line: 0,
        mains: Seq::<(u8, CodeBlockV)>::empty(),
        subs: Seq::<(u8, CodeBlockV)>::empty(),
    }
}

/// One line of the structuring fold.
pub open spec fn spec_struct_step(st: StructState, l: LineV, file_line: u64) -> Result<
    StructState,
    Seq<char>,
> {
    match l {
        LineV::Empty => Ok(st),
        LineV::MainProgram(n) => Ok(
            StructState { cursor: CursorV::Main(n), def_line: file_line, ..st },
        ),
        LineV::SubProgram(n) => Ok(
            StructState { cursor: CursorV::Sub(n), def_line: file_line, ..st },
        ),
        LineV::Code(ws) => {
            let cl = CodeLineV { file_line, words: ws };
            match st.cursor {
                CursorV::Unknown => Err("Code line with no program"@),
                CursorV::Main(n) => Ok(
                    StructState {
                        mains: spec_append_block(st.mains, n, cl, st.def_line),
                        ..st
                    },
                ),
                CursorV::Sub(n) => Ok(
                    StructState { subs: spec_append_block(st.subs, n, cl, st.def_line), ..st },
                ),
            }
        },
    }
}

/// The structuring fold over the first `k` lines; an error carries the
/// 1-based line it arose at.
pub open spec fn spec_structure_upto(lines: Seq<LineV>, k: int) -> Result<
    StructState,
    (Seq<char>, u64),
>
    decreases k,
{
    if k <= 0 {
        Ok(spec_struct_init())
    } else {
        match spec_structure_upto(lines, k - 1) {
            Ok(st) => match spec_struct_step(st, lines[k - 1], k as u64) {
                Ok(st2) => Ok(st2),
                Err(m) => Err((m, k as u64)),
            },
            Err(e) => Err(e),
        }
    }
}

/// The structuring fold over all lines.
pub open spec fn spec_structure(lines: Seq<LineV>) -> Result<StructState, (Seq<char>, u64)> {
    spec_structure_upto(lines, lines.len() as int)
}

/// The executable words of a line, in order.
pub open spec fn spec_exec_words(ws: Seq<WordV>) -> Seq<WordV>
    decreases ws.len(),
{
    if ws.len() == 0 {
        Seq::<WordV>::empty()
    } else {
        let rest = spec_exec_words(ws.drop_last());
        if spec_is_executable(ws.last()) {
            rest.push(ws.last())
        } else {
            rest
        }
    }
}

/// The executable words of the last code line that has any.
pub open spec fn spec_last_exec(code: Seq<CodeLineV>) -> Option<Seq<WordV>>
    decreases code.len(),
{
    if code.len() == 0 {
        None
    } else {
        let t = spec_exec_words(code.last().words);
        if t.len() > 0 {
            Some(t)
        } else {
            spec_last_exec(code.drop_last())
        }
    }
}

/// The terminator word of a program kind: `M2` for main programs, `M17`
/// for sub programs.
pub open spec fn spec_final_word(main: bool) -> WordV {
    if main {
        WordV::M(MWord::M2)
    } else {
        WordV::M(MWord::M17)
    }
}

/// Whether a block ends with exactly the terminator of its kind: the
/// last code line with any executable words consists of that single word.
pub open spec fn spec_block_ok(b: CodeBlockV, main: bool) -> bool {
    spec_last_exec(b.code) == Some(seq![spec_final_word(main)])
}

/// The message for a block that does not end with its terminator.
pub open spec fn spec_bad_block_msg(main: bool, key: u8) -> Seq<char> {
    if main {
        "Main program #"@ + spec_dec_nat(key as nat) + " does not end with M2"@
    } else {
        "Subprogram #"@ + spec_dec_nat(key as nat) + " does not end with M17"@
    }
}

/// Whether every block of a list ends with its terminator.
pub open spec fn spec_all_blocks_ok(m: Seq<(u8, CodeBlockV)>, main: bool) -> bool {
    forall|k: int| 0 <= k < m.len() ==> spec_block_ok((#[trigger] m[k]).1, main)
}

/// The first block of a list that misses its terminator.
pub open spec fn spec_first_bad_block(m: Seq<(u8, CodeBlockV)>, main: bool, k: int) -> bool {
    &&& 0 <= k < m.len()
    &&& !spec_block_ok(m[k].1, main)
    &&& forall|j: int| 0 <= j < k ==> spec_block_ok((#[trigger] m[j]).1, main)
}

/// A key list without the key finds nothing.
proof fn lemma_find_key_absent(m: Seq<(u8, CodeBlockV)>, n: u8)
    requires
        forall|i: int| 0 <= i < m.len() ==> (#[trigger] m[i]).0 != n,
    ensures
        spec_find_key(m, n) == -1,
    decreases m.len(),
{
    if m.len() > 0 {
        let tail = m.subrange(1, m.len() as int);
        assert forall|i: int| 0 <= i < tail.len() implies (#[trigger] tail[i]).0 != n by {
            assert(tail[i] == m[i + 1]);
        }
        lemma_find_key_absent(tail, n);
    }
}

/// The first occurrence of a key is where the search stops.
proof fn lemma_find_key_at(m: Seq<(u8, CodeBlockV)>, n: u8, idx: int)
    requires
        0 <= idx < m.len(),
        m[idx].0 == n,
        forall|j: int| 0 <= j < idx ==> (#[trigger] m[j]).0 != n,
    ensures
        spec_find_key(m, n) == idx,
    decreases m.len(),
{
    if idx == 0 {
    } else {
        let tail = m.subrange(1, m.len() as int);
        assert(tail[idx - 1] == m[idx]);
        assert forall|j: int| 0 <= j < idx - 1 implies (#[trigger] tail[j]).0 != n by {
            assert(tail[j] == m[j + 1]);
        }
        lemma_find_key_at(tail, n, idx - 1);
    }
}

/// The first key larger than `n` is where an insertion lands.
proof fn lemma_insert_pos_at(m: Seq<(u8, CodeBlockV)>, n: u8, idx: int)
    requires
        0 <= idx <= m.len(),
        forall|j: int| 0 <= j < idx ==> (#[trigger] m[j]).0 < n,
        idx < m.len() ==> m[idx].0 > n,
    ensures
        spec_insert_pos(m, n) == idx,
    decreases m.len(),
{
    if m.len() == 0 {
    } else if idx == 0 {
    } else {
        let tail = m.subrange(1, m.len() as int);
        assert(m[0].0 < n);
        assert forall|j: int| 0 <= j < idx - 1 implies (#[trigger] tail[j]).0 < n by {
            assert(tail[j] == m[j + 1]);
        }
        if idx - 1 < tail.len() {
            assert(tail[idx - 1] == m[idx]);
        }
        lemma_insert_pos_at(tail, n, idx - 1);
    }
}

/// The structurer's cursor.
enum Cursor {
    Unknown,
    Main(u8),
    Sub(u8),
}

/// The ghost image of the cursor.
spec fn spec_cursor_view(c: &Cursor) -> CursorV {
    match c {
        Cursor::Unknown => CursorV::Unknown,
        Cursor::Main(n) => CursorV::Main(*n),
        Cursor::Sub(n) => CursorV::Sub(*n),
    }
}

/// Append a code line to the block `n` names, opening the block at
/// `def_line` on its first use.  Keys stay strictly ascending.
fn append_block(m: &mut Vec<(u8, CodeBlock)>, n: u8, cl: CodeLine, def_line: u64)
    requires
        spec_keys_sorted(spec_blocks_view(old(m)@)),
    ensures
        spec_blocks_view(final(m)@) == spec_append_block(
            spec_blocks_view(old(m)@),
            n,
            cl@,
            def_line,
        ),
        spec_keys_sorted(spec_blocks_view(final(m)@)),
{
    let ghost mv = spec_blocks_view(m@);
    let len = m.len();
    let mut idx: usize = 0;
    while idx < len && m[idx].0 < n
        invariant
            len == m@.len(),
            idx <= len,
            mv == spec_blocks_view(m@),
            forall|j: int| 0 <= j < idx ==> (#[trigger] mv[j]).0 < n,
        decreases len - idx,
    {
        proof {
            assert(mv[idx as int].0 == m@[idx as int].0);
        }
        idx = idx + 1;
    }
    proof {
        if idx < len {
            assert(mv[idx as int].0 == m@[idx as int].0);
        }
    }
    if idx < len && m[idx].0 == n {
        proof {
            lemma_find_key_at(mv, n, idx as int);
        }
        let ghost old_m = m@;
        m[idx].1.code.push(cl);
        proof {
            let newv = spec_blocks_view(m@);
            let target = spec_append_block(mv, n, cl@, def_line);
            assert forall|j: int| 0 <= j < newv.len() implies newv[j] == target[j] by {
                if j != idx {
                    assert(m@[j] == old_m[j]);
                }
            }
            assert(newv =~= target);
            assert forall|i: int, j: int| 0 <= i < j < newv.len() implies (
            #[trigger] newv[i]).0 < (#[trigger] newv[j]).0 by {
                assert(newv[i].0 == mv[i].0);
                assert(newv[j].0 == mv[j].0);
            }
        }
    } else {
        proof {
            assert forall|i: int| 0 <= i < mv.len() implies (#[trigger] mv[i]).0 != n by {
                if i >= idx {
                    if idx < len {
                        assert(mv[idx as int].0 > n);
                        if i > idx {
                            assert(mv[idx as int].0 < mv[i].0);
                        }
                    }
                }
            }
            lemma_find_key_absent(mv, n);
            lemma_insert_pos_at(mv, n, idx as int);
        }
        let mut code: Vec<CodeLine> = Vec::new();
        code.push(cl);
        let block = CodeBlock { file_line: def_line, code };
        let ghost old_m = m@;
        m.insert(idx, (n, block));
        proof {
            let newv = spec_blocks_view(m@);
            let target = spec_append_block(mv, n, cl@, def_line);
            assert(block@.code =~= seq![cl@]);
            assert forall|j: int| 0 <= j < newv.len() implies newv[j] == target[j] by {
                assert(m@[j] == old_m.insert(idx as int, (n, block))[j]);
            }
            assert(newv =~= target);
            assert forall|i: int, j: int| 0 <= i < j < newv.len() implies (
            #[trigger] newv[i]).0 < (#[trigger] newv[j]).0 by {
                if j < idx {
                    assert(newv[i].0 == mv[i].0 && newv[j].0 == mv[j].0);
                } else if i < idx && j == idx {
                    assert(newv[i].0 == mv[i].0);
                } else if i < idx && j > idx {
                    assert(newv[i].0 == mv[i].0 && newv[j].0 == mv[j - 1].0);
                } else if i == idx {
                    assert(newv[j].0 == mv[j - 1].0);
                    assert(mv[idx as int].0 > n);
                    if j - 1 > idx {
                        assert(mv[idx as int].0 < mv[j - 1].0);
                    }
                } else {
                    assert(newv[i].0 == mv[i - 1].0 && newv[j].0 == mv[j - 1].0);
                }
            }
        }
    }
}

/// A structuring error at line `k` fails the whole fold.
proof fn lemma_structure_err_extends(lines: Seq<LineV>, k: int, l: int)
    requires
        0 <= k <= l <= lines.len(),
        spec_structure_upto(lines, k) is Err,
    ensures
        spec_structure_upto(lines, l) == spec_structure_upto(lines, k),
    decreases l - k,
{
    if k < l {
        lemma_structure_err_extends(lines, k, l - 1);
    }
}

impl CodeLine {
    /// The executable words of the line, in order.
    pub fn executable_code(&self) -> (r: Vec<Word>)
        ensures
            crate::words::spec_words_view(r@) == spec_exec_words(self.words@),
    {
        let ws = &self.words.0;
        let n = ws.len();
        let mut out: Vec<Word> = Vec::new();
        let mut i: usize = 0;
        while i < n
            invariant
                n == ws@.len(),
                i <= n,
                crate::words::spec_words_view(out@) == spec_exec_words(
                    crate::words::spec_words_view(ws@).subrange(0, i as int),
                ),
            decreases n - i,
        {
            let ghost wsv = crate::words::spec_words_view(ws@);
            let ghost prev = out@;
            proof {
                assert(wsv.subrange(0, i + 1).drop_last() =~= wsv.subrange(0, i as int));
                assert(wsv.subrange(0, i + 1).last() == wsv[i as int]);
                assert(wsv[i as int] == ws@[i as int]@);
            }
            if ws[i].is_executable() {
                out.push(ws[i].duplicate());
                proof {
                    assert(crate::words::spec_words_view(out@) =~= crate::words::spec_words_view(
                        prev,
                    ).push(ws@[i as int]@));
                }
            }
            i = i + 1;
        }
        proof {
            assert(crate::words::spec_words_view(ws@).subrange(0, n as int)
                =~= crate::words::spec_words_view(ws@));
            assert(self.words@ == crate::words::spec_words_view(ws@));
        }
        out
    }
}

/// The executable words of the last code line that has any.
fn find_last_exec(code: &Vec<CodeLine>) -> (r: Option<Vec<Word>>)
    ensures
        match r {
            Some(ex) => spec_last_exec(code@.map_values(|l: CodeLine| l@)) == Some(
                crate::words::spec_words_view(ex@),
            ) && ex@.len() > 0,
            None => spec_last_exec(code@.map_values(|l: CodeLine| l@)) is None,
        },
{
    let ghost cv = code@.map_values(|l: CodeLine| l@);
    let nl = code.len();
    let mut j = nl;
    proof {
        assert(cv.subrange(0, nl as int) =~= cv);
    }
    while j > 0
        invariant
            nl == code@.len(),
            j <= nl,
            cv == code@.map_values(|l: CodeLine| l@),
            spec_last_exec(cv.subrange(0, j as int)) == spec_last_exec(cv),
        decreases j,
    {
        proof {
            assert(cv.subrange(0, j as int).drop_last() =~= cv.subrange(0, j - 1));
            assert(cv.subrange(0, j as int).last() == cv[j - 1]);
            assert(cv[j - 1] == code@[j - 1]@);
        }
        let ex = code[j - 1].executable_code();
        if ex.len() > 0 {
            return Some(ex);
        }
        j = j - 1;
    }
    proof {
        assert(cv.subrange(0, 0) =~= Seq::<CodeLineV>::empty());
    }
    None
}

/// Check that every block of a list ends with its terminator (`M2` for
/// main programs, `M17` for sub programs); the first block that does not
/// produces its message at the block's header line.
pub fn check_last_executable(programs: &Vec<(u8, CodeBlock)>, main: bool) -> (r: Result<
    (),
    LineError,
>)
    ensures
        match r {
            Ok(()) => spec_all_blocks_ok(spec_blocks_view(programs@), main),
            Err(e) => exists|k: int|
                {
                    &&& #[trigger] spec_first_bad_block(spec_blocks_view(programs@), main, k)
                    &&& e.error.0@ == spec_bad_block_msg(main, spec_blocks_view(programs@)[k].0)
                    &&& e.line == Some(spec_blocks_view(programs@)[k].1.file_line)
                },
        },
{
    let ghost m = spec_blocks_view(programs@);
    let np = programs.len();
    let mut k: usize = 0;
    while k < np
        invariant
            np == programs@.len(),
            k <= np,
            m == spec_blocks_view(programs@),
            forall|j: int| 0 <= j < k ==> spec_block_ok((#[trigger] m[j]).1, main),
        decreases np - k,
    {
        proof {
            assert(m[k as int] == (programs@[k as int].0, programs@[k as int].1@));
        }
        let code = &programs[k].1.code;
        let ghost cv = m[k as int].1.code;
        proof {
            assert(cv =~= code@.map_values(|l: CodeLine| l@));
        }
        let mut ok = false;
        match find_last_exec(code) {
            Some(ex) => {
                let ghost exv = crate::words::spec_words_view(ex@);
                if ex.len() == 1 {
                    let is_term = if main {
                        matches!(ex[0], Word::M(MWord::M2))
                    } else {
                        matches!(ex[0], Word::M(MWord::M17))
                    };
                    ok = is_term;
                    proof {
                        assert(exv[0] == ex@[0]@);
                        if is_term {
                            assert(exv =~= seq![spec_final_word(main)]);
                        } else {
                            assert(exv[0] != spec_final_word(main));
                            assert(exv != seq![spec_final_word(main)]);
                        }
                    }
                } else {
                    ok = false;
                    proof {
                        assert(exv.len() == ex@.len());
                        assert(exv != seq![spec_final_word(main)]);
                    }
                }
            },
            None => {
                ok = false;
            },
        }
        if !ok {
            let key = programs[k].0;
            let mut msg = if main {
                String::from_str("Main program #")
            } else {
                String::from_str("Subprogram #")
            };
            let d = dec_u64(key as u64);
            msg.append(d.as_str());
            if main {
                msg.append(" does not end with M2");
            } else {
                msg.append(" does not end with M17");
            }
            let line = programs[k].1.file_line;
            proof {
                assert(spec_first_bad_block(m, main, k as int));
                assert(m[k as int].1.file_line == programs@[k as int].1.file_line);
            }
            return Err(SimpleError(msg).at_line(line));
        }
        k = k + 1;
    }
    Ok(())
}

/// A decoded program: its main and sub program blocks, keyed by the
/// numeric suffix of their headers, in ascending key order.
#[derive(Debug)]
pub struct Program {
    pub main_programs: Vec<(u8, CodeBlock)>,
    pub sub_programs: Vec<(u8, CodeBlock)>,
}

/// The ghost image of a program.
#[verifier::ext_equal]
pub ghost struct ProgramV {
    pub mains: Seq<(u8, CodeBlockV)>,
    pub subs: Seq<(u8, CodeBlockV)>,
}

impl View for Program {
    type V = ProgramV;

    open spec fn view(&self) -> ProgramV {
        ProgramV {
            mains: spec_blocks_view(self.main_programs@),
            subs: spec_blocks_view(self.sub_programs@),
        }
    }
}

impl Program {
    /// Group the lines of a file into program blocks.  The grouping is the
    /// structuring fold; it is accepted exactly when every code line falls
    /// under a header and every block ends with its terminator, and the
    /// first violation is reported at its line.
    pub fn from_file(file: GCodeFile) -> (r: Result<Program, LineError>)
        ensures
            match r {
                Ok(p) => {
                    &&& spec_structure(file@) matches Ok(st) && p@.mains == st.mains && p@.subs
                        == st.subs
                    &&& spec_all_blocks_ok(p@.mains, true)
                    &&& spec_all_blocks_ok(p@.subs, false)
                    &&& spec_keys_sorted(p@.mains)
                    &&& spec_keys_sorted(p@.subs)
                },
                Err(e) => {
                    ||| (spec_structure(file@) matches Err((m, ln)) && e.error.0@ == m && e.line
                        == Some(ln))
                    ||| (spec_structure(file@) matches Ok(st) && exists|k: int|
                        #[trigger] spec_first_bad_block(st.mains, true, k) && e.error.0@
                            == spec_bad_block_msg(true, st.mains[k].0) && e.line == Some(
                            st.mains[k].1.file_line,
                        ))
                    ||| (spec_structure(file@) matches Ok(st) && spec_all_blocks_ok(st.mains, true)
                        && exists|k: int|
                        #[trigger] spec_first_bad_block(st.subs, false, k) && e.error.0@
                            == spec_bad_block_msg(false, st.subs[k].0) && e.line == Some(
                            st.subs[k].1.file_line,
                        ))
                },
            },
    {
        let ghost fv = file@;
        let mut mains: Vec<(u8, CodeBlock)> = Vec::new();
        let mut subs: Vec<(u8, CodeBlock)> = Vec::new();
        let mut cursor = Cursor::Unknown;
        let mut def_line: u64 = 0;
        let n = file.code.len();
        let mut idx: usize = 0;
        proof {
            assert(spec_blocks_view(mains@) =~= Seq::<(u8, CodeBlockV)>::empty());
            assert(spec_blocks_view(subs@) =~= Seq::<(u8, CodeBlockV)>::empty());
            assert((StructState {
                cursor: spec_cursor_view(&cursor),
                def_line: def_line,
                mains: spec_blocks_view(mains@),
                subs: spec_blocks_view(subs@),
            }) =~= spec_struct_init());
        }
        while idx < n
            invariant
                n == file.code@.len(),
                idx <= n,
                fv == file@,
                spec_structure_upto(fv, idx as int) == Ok::<StructState, (Seq<char>, u64)>(
                    StructState {
                        cursor: spec_cursor_view(&cursor),
                        def_line: def_line,
                        mains: spec_blocks_view(mains@),
                        subs: spec_blocks_view(subs@),
                    },
                ),
                spec_keys_sorted(spec_blocks_view(mains@)),
                spec_keys_sorted(spec_blocks_view(subs@)),
            decreases n - idx,
        {
            proof {
                assert(fv[idx as int] == file.code@[idx as int]@);
            }
            let file_line: u64 = (idx as u64) + 1;
            match &file.code[idx] {
                Line::Empty => {},
                Line::MainProgram(nn) => {
                    def_line = file_line;
                    cursor = Cursor::Main(*nn);
                },
                Line::SubProgram(nn) => {
                    def_line = file_line;
                    cursor = Cursor::Sub(*nn);
                },
                Line::Code(ws) => {
                    let cl = CodeLine { file_line, words: ws.duplicate() };
                    match &cursor {
                        Cursor::Unknown => {
                            proof {
                                lemma_structure_err_extends(fv, idx + 1, fv.len() as int);
                            }
                            return Err(
                                SimpleError(String::from_str("Code line with no program")).at_line(
                                    file_line,
                                ),
                            );
                        },
                        Cursor::Main(nn) => {
                            append_block(&mut mains, *nn, cl, def_line);
                        },
                        Cursor::Sub(nn) => {
                            append_block(&mut subs, *nn, cl, def_line);
                        },
                    }
                },
            }
            idx = idx + 1;
        }
        proof {
            assert(spec_structure(fv) == spec_structure_upto(fv, n as int));
        }
        proof {
            assert(spec_structure(fv) matches Ok(st) && st.mains == spec_blocks_view(mains@)
                && st.subs == spec_blocks_view(subs@));
        }
        match check_last_executable(&mains, true) {
            Ok(()) => {},
            Err(e) => {
                proof {
                    assert(spec_structure(fv) matches Ok(st) && exists|k: int|
                        #[trigger] spec_first_bad_block(st.mains, true, k) && e.error.0@
                            == spec_bad_block_msg(true, st.mains[k].0) && e.line == Some(
                            st.mains[k].1.file_line,
                        ));
                }
                return Err(e);
            },
        }
        match check_last_executable(&subs, false) {
            Ok(()) => {},
            Err(e) => {
                proof {
                    assert(spec_structure(fv) matches Ok(st) && spec_all_blocks_ok(st.mains, true)
                        && exists|k: int|
                        #[trigger] spec_first_bad_block(st.subs, false, k) && e.error.0@
                            == spec_bad_block_msg(false, st.subs[k].0) && e.line == Some(
                            st.subs[k].1.file_line,
                        ));
                }
                return Err(e);
            },
        }
        Ok(Program { main_programs: mains, sub_programs: subs })
    }

    /// Start walking a main program: the one named by `idx`, or the one
    /// with the smallest designator when `idx` is `None`.
    pub fn execute<'t>(&'t self, idx: Option<u8>) -> (r: Result<Executor<'t>, SimpleError>)
        ensures
            match r {
                Ok(ex) => {
                    &&& ex@.subs == self@.subs
                    &&& ex@.stack.len() == 1
                    &&& ex@.stack[0].repeats == 0
                    &&& ex@.stack[0].code == ex@.stack[0].full
                    &&& match idx {
                        Some(i) => spec_find_key(self@.mains, i) >= 0 && ex@.stack[0].code
                            == self@.mains[spec_find_key(self@.mains, i)].1.code,
                        None => self@.mains.len() > 0 && ex@.stack[0].code
                            == self@.mains[0].1.code,
                    }
                },
                Err(e) => match idx {
                    Some(i) => spec_find_key(self@.mains, i) == -1 && e.0@ == "Program %"@
                        + spec_dec_nat(i as nat) + " not found"@,
                    None => self@.mains.len() == 0 && e.0@ == "No main programs found"@,
                },
            },
    {
        match idx {
            Some(i) => {
                match find_block(&self.main_programs, i) {
                    Some(bi) => Ok(
                        Executor::start(
                            &self.sub_programs,
                            self.main_programs[bi].1.code.as_slice(),
                        ),
                    ),
                    None => {
                        let mut msg = String::from_str("Program %");
                        let d = dec_u64(i as u64);
                        msg.append(d.as_str());
                        msg.append(" not found");
                        Err(SimpleError(msg))
                    },
                }
            },
            None => {
                if self.main_programs.len() == 0 {
                    Err(SimpleError(String::from_str("No main programs found")))
                } else {
                    proof {
                        assert(self@.mains[0] == (self.main_programs@[0].0, self.main_programs@[0].1@));
                    }
                    Ok(Executor::start(&self.sub_programs, self.main_programs[0].1.code.as_slice()))
                }
            },
        }
    }
}

/// The index of a key in a keyed block list.
fn find_block(m: &Vec<(u8, CodeBlock)>, n: u8) -> (r: Option<usize>)
    ensures
        match r {
            Some(bi) => spec_find_key(spec_blocks_view(m@), n) == bi as int && bi < m@.len()
                && spec_blocks_view(m@)[bi as int].0 == n,
            None => spec_find_key(spec_blocks_view(m@), n) == -1,
        },
{
    let ghost mv = spec_blocks_view(m@);
    let len = m.len();
    let mut i: usize = 0;
    while i < len
        invariant
            len == m@.len(),
            i <= len,
            mv == spec_blocks_view(m@),
            forall|j: int| 0 <= j < i ==> (#[trigger] mv[j]).0 != n,
        decreases len - i,
    {
        proof {
            assert(mv[i as int].0 == m@[i as int].0);
        }
        if m[i].0 == n {
            proof {
                lemma_find_key_at(mv, n, i as int);
            }
            return Some(i);
        }
        i = i + 1;
    }
    proof {
        lemma_find_key_absent(mv, n);
    }
    None
}

/// One frame of the executor's call stack.
#[derive(Debug)]
pub struct StackItem<'t> {
    /// How many further passes over the body remain after this one.
    pub repeats: u16,
    /// The code that remains to be executed in this pass.
    pub code: &'t [CodeLine],
    /// The whole body, re-entered for each repeat.
    pub full_code: &'t [CodeLine],
}

/// The ghost image of a stack frame.
#[verifier::ext_equal]
pub ghost struct FrameV {
    pub repeats: u16,
    pub code: Seq<CodeLineV>,
    pub full: Seq<CodeLineV>,
}

impl<'t> View for StackItem<'t> {
    type V = FrameV;

    open spec fn view(&self) -> FrameV {
        FrameV {
            repeats: self.repeats,
            code: self.code@.map_values(|l: CodeLine| l@),
            full: self.full_code@.map_values(|l: CodeLine| l@),
        }
    }
}

impl<'t> StackItem<'t> {
    /// A fresh frame over a body: nothing executed yet.
    pub fn new(code: &'t [CodeLine], repeats: u16) -> (r: Self)
        ensures
            r@.repeats == repeats,
            r@.code == code@.map_values(|l: CodeLine| l@),
            r@.full == r@.code,
    {
        Self { code, repeats, full_code: code }
    }
}

/// The walker over the executable statements of a program.
#[derive(Debug)]
pub struct Executor<'t> {
    /// The call stack; the innermost frame is last.
    pub stack: Vec<StackItem<'t>>,
    /// The catalog of callable sub programs.
    pub sub_programs: &'t Vec<(u8, CodeBlock)>,
}

/// The ghost image of an executor.
#[verifier::ext_equal]
pub ghost struct ExecutorV {
    pub stack: Seq<FrameV>,
    pub subs: Seq<(u8, CodeBlockV)>,
}

impl<'t> View for Executor<'t> {
    type V = ExecutorV;

    open spec fn view(&self) -> ExecutorV {
        ExecutorV {
            stack: self.stack@.map_values(|f: StackItem<'t>| f@),
            subs: spec_blocks_view(self.sub_programs@),
        }
    }
}

/// The message for a call of an unknown subprogram.
pub open spec fn spec_sub_not_found_msg(n: u16) -> Seq<char> {
    "Subroutine L"@ + spec_dec_nat(n as nat) + " not found"@
}

/// The message for a call without a repeat count.
pub open spec fn spec_repeats_msg(n: u16) -> Seq<char> {
    "Repeats count for subroutine L"@ + spec_dec_nat(n as nat) + " not defined"@
}

/// What a command's whole-program action does to the call stack: a call
/// pushes a fresh frame over the named subprogram with the line's repeat
/// count; a return pops the exhausted frame and re-enters the body while
/// repeats remain; a program end must be the last statement at the root.
pub open spec fn spec_exec_step(
    subs: Seq<(u8, CodeBlockV)>,
    stack: Seq<FrameV>,
    cmd: CommandV,
) -> Result<Seq<FrameV>, Seq<char>> {
    match cmd.global {
        None => Ok(stack),
        Some(Global::CallSub(nn)) => {
            if nn > 255 || spec_find_key(subs, nn as u8) < 0 {
                Err(spec_sub_not_found_msg(nn))
            } else {
                match cmd.p {
                    None => Err(spec_repeats_msg(nn)),
                    Some(p) => {
                        let b = subs[spec_find_key(subs, nn as u8)].1;
                        Ok(stack.push(FrameV { repeats: p, code: b.code, full: b.code }))
                    },
                }
            }
        },
        Some(Global::ReturnSub) => {
            if stack.len() <= 1 {
                Err("Subroutine return (M17) without subroutine call"@)
            } else if stack.last().code.len() != 0 {
                Err("Subroutine return (M17) is not the last statement"@)
            } else {
                let f = stack.last();
                let popped = stack.drop_last();
                if f.repeats > 0 {
                    Ok(
                        popped.push(
                            FrameV {
                                repeats: (f.repeats - 1) as u16,
                                code: f.full,
                                full: f.full,
                            },
                        ),
                    )
                } else {
                    Ok(popped)
                }
            }
        },
        Some(Global::EndProgram) => {
            if stack.len() > 1 {
                Err("Program end (M2) in a subroutine"@)
            } else if stack.last().code.len() != 0 {
                Err("Program end (M2) is not the last statement"@)
            } else {
                Ok(stack)
            }
        },
    }
}

impl<'t> Executor<'t> {
    /// The walker for a main program body, over a subprogram catalog.
    pub fn start(sub_programs: &'t Vec<(u8, CodeBlock)>, code: &'t [CodeLine]) -> (r: Self)
        ensures
            r@.subs == spec_blocks_view(sub_programs@),
            r@.stack.len() == 1,
            r@.stack[0].repeats == 0,
            r@.stack[0].code == code@.map_values(|l: CodeLine| l@),
            r@.stack[0].full == r@.stack[0].code,
    {
        let mut stack: Vec<StackItem<'t>> = Vec::new();
        stack.push(StackItem::new(code, 0));
        let r = Self { stack, sub_programs };
        proof {
            assert(r@.stack =~= seq![stack@[0]@]);
        }
        r
    }

    /// Turn one already-consumed code line into a command and apply its
    /// whole-program action to the call stack.  On an error the stack is
    /// left as it was.
    pub fn exec(&mut self, line: &CodeLine) -> (r: Result<Command, SimpleError>)
        requires
            old(self)@.stack.len() >= 1,
        ensures
            final(self)@.subs == old(self)@.subs,
            match r {
                Ok(cmd) => {
                    &&& spec_from_gcode(line@.words) == Ok::<CommandV, Seq<char>>(cmd@)
                    &&& spec_exec_step(old(self)@.subs, old(self)@.stack, cmd@) == Ok::<
                        Seq<FrameV>,
                        Seq<char>,
                    >(final(self)@.stack)
                },
                Err(e) => {
                    &&& final(self)@ == old(self)@
                    &&& {
                        ||| (spec_from_gcode(line@.words) matches Err(m) && e.0@ == m)
                        ||| (spec_from_gcode(line@.words) matches Ok(c) && spec_exec_step(
                            old(self)@.subs,
                            old(self)@.stack,
                            c,
                        ) matches Err(m) && e.0@ == m)
                    }
                },
            },
    {
        let cmd = match Command::from_gcode(line.words.0.as_slice()) {
            Ok(c) => c,
            Err(e) => {
                return Err(e);
            },
        };
        let ghost stack0 = self@.stack;
        match cmd.global {
            None => Ok(cmd),
            Some(Global::CallSub(nn)) => {
                if nn > 255 {
                    return Err(sub_not_found(nn));
                }
                match find_block(self.sub_programs, nn as u8) {
                    None => Err(sub_not_found(nn)),
                    Some(bi) => {
                        match cmd.p {
                            None => {
                                let mut msg = String::from_str("Repeats count for subroutine L");
                                let d = dec_u64(nn as u64);
                                msg.append(d.as_str());
                                msg.append(" not defined");
                                Err(SimpleError(msg))
                            },
                            Some(p) => {
                                let sub_code: &'t [CodeLine] =
                                    self.sub_programs[bi].1.code.as_slice();
                                proof {
                                    assert(spec_blocks_view(self.sub_programs@)[bi as int].1
                                        == self.sub_programs@[bi as int].1@);
                                }
                                self.stack.push(StackItem::new(sub_code, p));
                                proof {
                                    assert(self@.stack =~= stack0.push(
                                        self.stack@[self.stack@.len() - 1]@,
                                    ));
                                }
                                Ok(cmd)
                            },
                        }
                    },
                }
            },
            Some(Global::ReturnSub) => {
                if self.stack.len() <= 1 {
                    Err(
                        SimpleError(
                            String::from_str("Subroutine return (M17) without subroutine call"),
                        ),
                    )
                } else if self.stack[self.stack.len() - 1].code.len() > 0 {
                    proof {
                        assert(stack0.last() == self.stack@[self.stack@.len() - 1]@);
                    }
                    Err(
                        SimpleError(
                            String::from_str("Subroutine return (M17) is not the last statement"),
                        ),
                    )
                } else {
                    proof {
                        assert(stack0.last() == self.stack@[self.stack@.len() - 1]@);
                    }
                    let popped = match self.stack.pop() {
                        Some(f) => f,
                        None => {
                            proof {
                                assert(false);
                            }
                            return Err(SimpleError(String::new()));
                        },
                    };
                    proof {
                        assert(self@.stack =~= stack0.drop_last());
                    }
                    if popped.repeats > 0 {
                        let ghost stack1 = self@.stack;
                        self.stack.push(StackItem::new(popped.full_code, popped.repeats - 1));
                        proof {
                            assert(self@.stack =~= stack1.push(
                                self.stack@[self.stack@.len() - 1]@,
                            ));
                        }
                    }
                    Ok(cmd)
                }
            },
            Some(Global::EndProgram) => {
                if self.stack.len() > 1 {
                    Err(SimpleError(String::from_str("Program end (M2) in a subroutine")))
                } else if self.stack[self.stack.len() - 1].code.len() > 0 {
                    proof {
                        assert(stack0.last() == self.stack@[self.stack@.len() - 1]@);
                    }
                    Err(SimpleError(String::from_str("Program end (M2) is not the last statement")))
                } else {
                    proof {
                        assert(stack0.last() == self.stack@[self.stack@.len() - 1]@);
                    }
                    Ok(cmd)
                }
            },
        }
    }
}

/// The stack with the first remaining line of its top frame consumed.
pub open spec fn spec_consume_top(stack: Seq<FrameV>) -> Seq<FrameV> {
    let f = stack.last();
    stack.update(
        stack.len() - 1,
        FrameV { code: f.code.subrange(1, f.code.len() as int), ..f },
    )
}

impl<'t> Executor<'t> {
    /// Take the next code line from the top frame, turn it into a command
    /// and apply its whole-program action; `None` when the top frame is
    /// exhausted.  Errors carry the line they arose at, and leave the
    /// stack with only the line consumed.
    pub fn next(&mut self) -> (r: Option<Result<(u64, Command), LineError>>)
        requires
            old(self)@.stack.len() >= 1,
        ensures
            final(self)@.subs == old(self)@.subs,
            final(self)@.stack.len() >= 1,
            match r {
                None => old(self)@.stack.last().code.len() == 0 && final(self)@ == old(self)@
                    && spec_next(old(self)@.subs, old(self)@.stack) is None,
                Some(res) => {
                    &&& old(self)@.stack.last().code.len() > 0
                    &&& match res {
                        Ok((ln, cmd)) => ln == old(self)@.stack.last().code[0].file_line
                            && spec_from_gcode(old(self)@.stack.last().code[0].words) == Ok::<
                            CommandV,
                            Seq<char>,
                        >(cmd@) && spec_exec_step(
                            old(self)@.subs,
                            spec_consume_top(old(self)@.stack),
                            cmd@,
                        ) == Ok::<Seq<FrameV>, Seq<char>>(final(self)@.stack) && spec_next(
                            old(self)@.subs,
                            old(self)@.stack,
                        ) == Some(
                            (final(self)@.stack, Ok::<CommandV, Seq<char>>(cmd@)),
                        ),
                        Err(e) => e.line == Some(old(self)@.stack.last().code[0].file_line)
                            && final(self)@.stack == spec_consume_top(old(self)@.stack) && (
                        spec_next(old(self)@.subs, old(self)@.stack) matches Some(p) && p.0
                            == final(self)@.stack && (p.1 matches Err(m) && e.error.0@ == m)) && {
                            ||| (spec_from_gcode(old(self)@.stack.last().code[0].words) matches Err(
                                m,
                            ) && e.error.0@ == m)
                            ||| (spec_from_gcode(old(self)@.stack.last().code[0].words) matches Ok(
                                c,
                            ) && spec_exec_step(
                                old(self)@.subs,
                                spec_consume_top(old(self)@.stack),
                                c,
                            ) matches Err(m) && e.error.0@ == m)
                        },
                    }
                },
            },
    {
        let ti = self.stack.len() - 1;
        let code: &'t [CodeLine] = self.stack[ti].code;
        proof {
            assert(old(self)@.stack.last() == self.stack@[ti as int]@);
        }
        if code.len() == 0 {
            return None;
        }
        let line: &'t CodeLine = &code[0];
        let ghost stack0 = self@.stack;
        self.stack[ti].code = &code[1..code.len()];
        proof {
            assert(self@.stack.len() == stack0.len());
            assert(self@.stack[ti as int].code =~= stack0[ti as int].code.subrange(
                1,
                stack0[ti as int].code.len() as int,
            ));
            assert(self@.stack[ti as int] =~= spec_consume_top(stack0)[ti as int]);
            assert(self@.stack =~= spec_consume_top(stack0));
            assert(line@ == stack0.last().code[0]);
        }
        match self.exec(line) {
            Ok(cmd) => Some(Ok((line.file_line, cmd))),
            Err(e) => Some(Err(e.at_line(line.file_line))),
        }
    }
}

/// One step of the walk, at the spec level, as `Executor::next` performs
/// it: `None` when the top frame is exhausted; otherwise the top frame's
/// first line is consumed, folded to a command, and its whole-program
/// action applied.
pub open spec fn spec_next(subs: Seq<(u8, CodeBlockV)>, stack: Seq<FrameV>) -> Option<
    (Seq<FrameV>, Result<CommandV, Seq<char>>),
> {
    if stack.len() == 0 || stack.last().code.len() == 0 {
        None
    } else {
        let line = stack.last().code[0];
        let consumed = spec_consume_top(stack);
        match spec_from_gcode(line.words) {
            Err(m) => Some((consumed, Err(m))),
            Ok(cmd) => match spec_exec_step(subs, consumed, cmd) {
                Err(m) => Some((consumed, Err(m))),
                Ok(st2) => Some((st2, Ok(cmd))),
            },
        }
    }
}

/// The stack after `n` successful steps; a stuck or finished walk stays
/// where it is.
pub open spec fn spec_stack_after(subs: Seq<(u8, CodeBlockV)>, stack: Seq<FrameV>, n: nat) -> Seq<
    FrameV,
>
    decreases n,
{
    if n == 0 {
        stack
    } else {
        match spec_next(subs, stack) {
            Some((st2, Ok(_))) => spec_stack_after(subs, st2, (n - 1) as nat),
            _ => stack,
        }
    }
}

/// The commands the walk emits over its next `n` successful steps.
pub open spec fn spec_emitted(subs: Seq<(u8, CodeBlockV)>, stack: Seq<FrameV>, n: nat) -> Seq<
    CommandV,
>
    decreases n,
{
    if n == 0 {
        Seq::<CommandV>::empty()
    } else {
        match spec_next(subs, stack) {
            Some((st2, Ok(cmd))) => seq![cmd] + spec_emitted(subs, st2, (n - 1) as nat),
            _ => Seq::<CommandV>::empty(),
        }
    }
}

/// A straight-line subprogram body: every line folds to a command, no
/// line but the last carries a whole-program action, and the last line's
/// action is the subroutine return.
pub open spec fn spec_straight_body(b: Seq<CodeLineV>) -> bool {
    &&& b.len() > 0
    &&& forall|i: int| 0 <= i < b.len() ==> spec_from_gcode((#[trigger] b[i]).words) is Ok
    &&& forall|i: int|
        0 <= i < b.len() - 1 ==> spec_from_gcode((#[trigger] b[i]).words)->Ok_0.global is None
    &&& spec_from_gcode(b[b.len() - 1].words)->Ok_0.global == Some(Global::ReturnSub)
}

/// The commands of a body, in order.
pub open spec fn spec_body_cmds(b: Seq<CodeLineV>) -> Seq<CommandV> {
    b.map_values(|l: CodeLineV| spec_from_gcode(l.words)->Ok_0)
}

/// A sequence repeated `k` times.
pub open spec fn spec_repeat(cs: Seq<CommandV>, k: nat) -> Seq<CommandV>
    decreases k,
{
    if k == 0 {
        Seq::<CommandV>::empty()
    } else {
        cs + spec_repeat(cs, (k - 1) as nat)
    }
}

/// A fresh frame over a body.
pub open spec fn spec_fresh_frame(b: Seq<CodeLineV>, r: u16) -> FrameV {
    FrameV { repeats: r, code: b, full: b }
}

/// Stepping splits over sums of step counts.
proof fn lemma_stack_after_add(subs: Seq<(u8, CodeBlockV)>, stack: Seq<FrameV>, m: nat, n: nat)
    ensures
        spec_stack_after(subs, stack, m + n) == spec_stack_after(
            subs,
            spec_stack_after(subs, stack, m),
            n,
        ),
        spec_emitted(subs, stack, m + n) == spec_emitted(subs, stack, m) + spec_emitted(
            subs,
            spec_stack_after(subs, stack, m),
            n,
        ),
    decreases m,
{
    if m == 0 {
        assert(spec_emitted(subs, stack, 0) + spec_emitted(subs, stack, n) =~= spec_emitted(
            subs,
            stack,
            n,
        ));
    } else {
        match spec_next(subs, stack) {
            Some((st2, Ok(cmd))) => {
                lemma_stack_after_add(subs, st2, (m - 1) as nat, n);
                assert((m - 1) + n == (m + n) - 1);
                assert(seq![cmd] + (spec_emitted(subs, st2, (m - 1) as nat) + spec_emitted(
                    subs,
                    spec_stack_after(subs, st2, (m - 1) as nat),
                    n,
                )) =~= (seq![cmd] + spec_emitted(subs, st2, (m - 1) as nat)) + spec_emitted(
                    subs,
                    spec_stack_after(subs, st2, (m - 1) as nat),
                    n,
                ));
            },
            _ => {
                proof_stuck(subs, stack, n);
                assert(spec_emitted(subs, stack, m) + spec_emitted(subs, stack, n)
                    =~= Seq::<CommandV>::empty());
                assert(spec_emitted(subs, stack, m + n) =~= Seq::<CommandV>::empty());
            },
        }
    }
}

/// A stuck walk stays where it is for any number of steps.
proof fn proof_stuck(subs: Seq<(u8, CodeBlockV)>, stack: Seq<FrameV>, n: nat)
    requires
        !(spec_next(subs, stack) matches Some(r) && r.1 is Ok),
    ensures
        spec_stack_after(subs, stack, n) == stack,
        spec_emitted(subs, stack, n) == Seq::<CommandV>::empty(),
    decreases n,
{
    if n > 0 {
        proof_stuck(subs, stack, (n - 1) as nat);
    }
}

/// One pass over the rest of a straight-line body: its remaining lines
/// are emitted in order; the return either re-enters the full body with
/// one repeat fewer, or pops back to the caller.
proof fn lemma_pass(
    subs: Seq<(u8, CodeBlockV)>,
    base: Seq<FrameV>,
    b: Seq<CodeLineV>,
    i: int,
    r: u16,
)
    requires
        spec_straight_body(b),
        base.len() >= 1,
        0 <= i < b.len(),
    ensures
        spec_stack_after(
            subs,
            base.push(FrameV { repeats: r, code: b.subrange(i, b.len() as int), full: b }),
            (b.len() - i) as nat,
        ) == (if r > 0 {
            base.push(spec_fresh_frame(b, (r - 1) as u16))
        } else {
            base
        }),
        spec_emitted(
            subs,
            base.push(FrameV { repeats: r, code: b.subrange(i, b.len() as int), full: b }),
            (b.len() - i) as nat,
        ) == spec_body_cmds(b).subrange(i, b.len() as int),
    decreases b.len() - i,
{
    let frame = FrameV { repeats: r, code: b.subrange(i, b.len() as int), full: b };
    let stack = base.push(frame);
    let line = b[i];
    assert(stack.last() == frame);
    assert(frame.code[0] == line);
    let consumed = spec_consume_top(stack);
    let cmd = spec_from_gcode(line.words)->Ok_0;
    assert(consumed.last().code =~= b.subrange(i + 1, b.len() as int));
    assert(consumed =~= base.push(
        FrameV { repeats: r, code: b.subrange(i + 1, b.len() as int), full: b },
    ));
    if i < b.len() - 1 {
        assert(cmd.global is None);
        assert(spec_exec_step(subs, consumed, cmd) == Ok::<Seq<FrameV>, Seq<char>>(consumed));
        assert(spec_next(subs, stack) == Some(
            (consumed, Ok::<CommandV, Seq<char>>(cmd)),
        ));
        lemma_pass(subs, base, b, i + 1, r);
        assert(spec_body_cmds(b).subrange(i, b.len() as int) =~= seq![cmd] + spec_body_cmds(
            b,
        ).subrange(i + 1, b.len() as int));
    } else {
        assert(cmd.global == Some(Global::ReturnSub));
        assert(consumed.last().code.len() == 0);
        assert(consumed.len() == base.len() + 1 >= 2);
        let popped = consumed.drop_last();
        assert(popped =~= base);
        let st2 = if r > 0 {
            base.push(spec_fresh_frame(b, (r - 1) as u16))
        } else {
            base
        };
        if r > 0 {
            assert(spec_exec_step(subs, consumed, cmd) == Ok::<Seq<FrameV>, Seq<char>>(st2));
        } else {
            assert(spec_exec_step(subs, consumed, cmd) == Ok::<Seq<FrameV>, Seq<char>>(st2));
        }
        assert(spec_next(subs, stack) == Some((st2, Ok::<CommandV, Seq<char>>(cmd))));
        assert(spec_body_cmds(b).subrange(i, b.len() as int) =~= seq![cmd]);
        assert(spec_stack_after(subs, st2, 0) == st2);
        assert(spec_emitted(subs, st2, 0) == Seq::<CommandV>::empty());
        assert(spec_stack_after(subs, stack, 1) == st2);
        assert(spec_emitted(subs, stack, 1) == seq![cmd] + spec_emitted(subs, st2, 0));
        assert(seq![cmd] + Seq::<CommandV>::empty() =~= seq![cmd]);
    }
}

/// A call `L n P k` pushes a fresh frame over the named subprogram's
/// whole body with repeat count `k`, whatever that body holds.
pub proof fn lemma_call_pushes(subs: Seq<(u8, CodeBlockV)>, stack: Seq<FrameV>, cmd: CommandV)
    requires
        cmd.global matches Some(Global::CallSub(n)) && n <= 255 && spec_find_key(subs, n as u8)
            >= 0,
        cmd.p is Some,
    ensures
        cmd.global matches Some(Global::CallSub(n)) && spec_exec_step(subs, stack, cmd) == Ok::<
            Seq<FrameV>,
            Seq<char>,
        >(
            stack.push(
                spec_fresh_frame(subs[spec_find_key(subs, n as u8)].1.code, cmd.p->Some_0),
            ),
        ),
{
}

/// A return on an exhausted frame re-enters the frame's full body with
/// one repeat fewer while repeats remain, and pops back to the caller
/// when none do, whatever the body holds.
pub proof fn lemma_return_repeats(subs: Seq<(u8, CodeBlockV)>, stack: Seq<FrameV>, cmd: CommandV)
    requires
        cmd.global == Some(Global::ReturnSub),
        stack.len() >= 2,
        stack.last().code.len() == 0,
    ensures
        spec_exec_step(subs, stack, cmd) == Ok::<Seq<FrameV>, Seq<char>>(
            if stack.last().repeats > 0 {
                stack.drop_last().push(
                    spec_fresh_frame(stack.last().full, (stack.last().repeats - 1) as u16),
                )
            } else {
                stack.drop_last()
            },
        ),
{
}

/// Executor repetition law: a fresh frame over a straight-line body with
/// repeat count `k` emits the body's commands exactly `k + 1` times, in
/// order, and then hands the walk back to the caller's stack.  A call
/// `L n P k` pushes exactly such a frame (`lemma_call_pushes`); for a
/// body with nested calls the per-pass mechanism is `lemma_return_repeats`.
pub proof fn lemma_repetition(
    subs: Seq<(u8, CodeBlockV)>,
    base: Seq<FrameV>,
    b: Seq<CodeLineV>,
    k: u16,
)
    requires
        spec_straight_body(b),
        base.len() >= 1,
    ensures
        spec_stack_after(subs, base.push(spec_fresh_frame(b, k)), ((k + 1) * b.len()) as nat)
            == base,
        spec_emitted(subs, base.push(spec_fresh_frame(b, k)), ((k + 1) * b.len()) as nat)
            == spec_repeat(spec_body_cmds(b), (k + 1) as nat),
    decreases k,
{
    let n1 = b.len() as nat;
    let rest = (k * b.len()) as nat;
    assert(((k + 1) * b.len()) as nat == n1 + rest) by (nonlinear_arith)
        requires
            n1 == b.len(),
            rest == k * b.len(),
    ;
    assert(b.subrange(0, b.len() as int) =~= b);
    lemma_pass(subs, base, b, 0, k);
    assert(spec_body_cmds(b).subrange(0, b.len() as int) =~= spec_body_cmds(b));
    lemma_stack_after_add(subs, base.push(spec_fresh_frame(b, k)), n1, rest);
    if k > 0 {
        lemma_repetition(subs, base, b, (k - 1) as u16);
        assert((((k - 1) + 1) * b.len()) as nat == rest);
    } else {
        assert(k * b.len() == 0) by (nonlinear_arith)
            requires
                k == 0,
        ;
        assert(rest == 0);
        assert(spec_body_cmds(b) + Seq::<CommandV>::empty() =~= spec_body_cmds(b));
        assert(spec_repeat(spec_body_cmds(b), 0) == Seq::<CommandV>::empty());
        assert(spec_repeat(spec_body_cmds(b), 1) =~= spec_body_cmds(b));
    }
}

/// The message for a call of an unknown subprogram.
fn sub_not_found(n: u16) -> (r: SimpleError)
    ensures
        r.0@ == spec_sub_not_found_msg(n),
{
    let mut msg = String::from_str("Subroutine L");
    let d = dec_u64(n as u64);
    msg.append(d.as_str());
    msg.append(" not found");
    SimpleError(msg)
}

} // verus!
