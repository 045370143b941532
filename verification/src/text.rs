//! Decimal text for the integer values that appear in words and diagnostics.

use vstd::prelude::*;

verus! {

/// The decimal digit character for a value in `0 ..= 9`.
pub open spec fn spec_digit(d: int) -> char {
    if d == 0 {
        '0'
    } else if d == 1 {
        '1'
    } else if d == 2 {
        '2'
    } else if d == 3 {
        '3'
    } else if d == 4 {
        '4'
    } else if d == 5 {
        '5'
    } else if d == 6 {
        '6'
    } else if d == 7 {
        '7'
    } else if d == 8 {
        '8'
    } else {
        '9'
    }
}

/// Decimal digits of a non-negative integer, most significant first,
/// without leading zeros (a single `'0'` for zero).
pub open spec fn spec_dec_nat(n: nat) -> Seq<char>
    decreases n,
{
    if n <= 9 {
        seq![spec_digit(n as int)]
    } else {
        spec_dec_nat(n / 10).push(spec_digit((n % 10) as int))
    }
}

/// A value below 1000 written with exactly three digits, leading zeros kept.
pub open spec fn spec_pad3(f: int) -> Seq<char> {
    seq![spec_digit(f / 100), spec_digit((f / 10) % 10), spec_digit(f % 10)]
}

/// Whether a character is a decimal digit.
pub open spec fn spec_is_digit(c: char) -> bool {
    48 <= c as u32 <= 57
}

/// The numeric value of a digit character.
pub open spec fn spec_digit_val(c: char) -> int {
    c as u32 - 48
}

/// The numeric value of a sequence of digit characters.
pub open spec fn spec_digits_val(s: Seq<char>) -> int
    decreases s.len(),
{
    if s.len() == 0 {
        0
    } else {
        spec_digits_val(s.drop_last()) * 10 + spec_digit_val(s.last())
    }
}

/// Whether every character of a sequence is a decimal digit.
pub open spec fn spec_all_digits(s: Seq<char>) -> bool {
    forall|i: int| 0 <= i < s.len() ==> spec_is_digit(#[trigger] s[i])
}

/// The end of the digit run that starts at `pos`.
pub open spec fn spec_digit_run_end(s: Seq<char>, pos: int) -> int
    decreases s.len() - pos,
{
    if pos < 0 || pos >= s.len() || !spec_is_digit(s[pos]) {
        pos
    } else {
        spec_digit_run_end(s, pos + 1)
    }
}

/// The end of the run of spaces that starts at `pos`.
pub open spec fn spec_skip_spaces(s: Seq<char>, pos: int) -> int
    decreases s.len() - pos,
{
    if pos < 0 || pos >= s.len() || s[pos] != ' ' {
        pos
    } else {
        spec_skip_spaces(s, pos + 1)
    }
}

/// The value of a digit sequence never shrinks as the sequence grows.
pub proof fn lemma_digits_val_bounds(s: Seq<char>)
    requires
        spec_all_digits(s),
    ensures
        spec_digits_val(s) >= 0,
        forall|k: int| 0 <= k <= s.len() ==> spec_digits_val(#[trigger] s.subrange(0, k)) <= spec_digits_val(s),
    decreases s.len(),
{
    if s.len() == 0 {
        assert forall|k: int| 0 <= k <= s.len() implies spec_digits_val(#[trigger] s.subrange(0, k))
            <= spec_digits_val(s) by {
            assert(s.subrange(0, k) =~= s);
        }
    } else {
        let d = s.drop_last();
        assert(spec_all_digits(d));
        lemma_digits_val_bounds(d);
        assert(spec_digit_val(s.last()) >= 0);
        assert(spec_digits_val(s) >= spec_digits_val(d) * 10 >= spec_digits_val(d));
        assert forall|k: int| 0 <= k <= s.len() implies spec_digits_val(#[trigger] s.subrange(0, k))
            <= spec_digits_val(s) by {
            if k == s.len() {
                assert(s.subrange(0, k) =~= s);
            } else {
                assert(s.subrange(0, k) =~= d.subrange(0, k));
            }
        }
    }
}

/// The end of the digit run stays within the sequence.
pub proof fn lemma_digit_run_end_bounds(s: Seq<char>, pos: int)
    requires
        0 <= pos <= s.len(),
    ensures
        pos <= spec_digit_run_end(s, pos) <= s.len(),
        forall|i: int| pos <= i < spec_digit_run_end(s, pos) ==> spec_is_digit(#[trigger] s[i]),
    decreases s.len() - pos,
{
    if pos < s.len() && spec_is_digit(s[pos]) {
        lemma_digit_run_end_bounds(s, pos + 1);
    }
}

/// Whether a character is a decimal digit.
pub fn is_digit_char(c: char) -> (r: bool)
    ensures
        r == spec_is_digit(c),
{
    c >= '0' && c <= '9'
}

/// The end of the digit run that starts at `pos`, computed on a string.
pub fn digit_run_end(s: &str, n: usize, pos: usize) -> (r: usize)
    requires
        n == s@.len(),
        pos <= n,
    ensures
        r == spec_digit_run_end(s@, pos as int),
        pos <= r <= n,
{
    let mut i = pos;
    while i < n && is_digit_char(s.get_char(i))
        invariant
            pos <= i <= n,
            n == s@.len(),
            spec_digit_run_end(s@, pos as int) == spec_digit_run_end(s@, i as int),
            forall|j: int| pos <= j < i ==> spec_is_digit(#[trigger] s@[j]),
        decreases n - i,
    {
        i = i + 1;
    }
    i
}

/// The end of the space run that starts at `pos`, computed on a string.
pub fn skip_spaces(s: &str, n: usize, pos: usize) -> (r: usize)
    requires
        n == s@.len(),
        pos <= n,
    ensures
        r == spec_skip_spaces(s@, pos as int),
        pos <= r <= n,
{
    let mut i = pos;
    while i < n && s.get_char(i) == ' '
        invariant
            pos <= i <= n,
            n == s@.len(),
            spec_skip_spaces(s@, pos as int) == spec_skip_spaces(s@, i as int),
        decreases n - i,
    {
        i = i + 1;
    }
    i
}

/// The value of the digit run `start .. end`, or `None` when it exceeds
/// `u32::MAX`.
pub fn digits_val_u32(s: &str, n: usize, start: usize, end: usize) -> (r: Option<u32>)
    requires
        n == s@.len(),
        start <= end <= n,
        spec_all_digits(s@.subrange(start as int, end as int)),
    ensures
        match r {
            Some(v) => v == spec_digits_val(s@.subrange(start as int, end as int)) && v
                <= u32::MAX,
            None => spec_digits_val(s@.subrange(start as int, end as int)) > u32::MAX,
        },
{
    let ghost full = s@.subrange(start as int, end as int);
    let mut acc: u64 = 0;
    let mut i = start;
    while i < end
        invariant
            start <= i <= end <= n,
            n == s@.len(),
            spec_all_digits(full),
            full == s@.subrange(start as int, end as int),
            acc == spec_digits_val(full.subrange(0, i - start)),
            acc <= u32::MAX,
        decreases end - i,
    {
        let c = s.get_char(i);
        assert(s@[i as int] == full[i - start]);
        assert(spec_is_digit(c));
        let d: u64 = (c as u32) as u64 - 48;
        let next = acc * 10 + d;
        proof {
            assert(full.subrange(0, i + 1 - start).drop_last() =~= full.subrange(0, i - start));
            assert(full.subrange(0, i + 1 - start).last() == c);
        }
        if next > 0xffff_ffff {
            proof {
                lemma_digits_val_bounds(full);
                assert(spec_digits_val(full.subrange(0, i + 1 - start)) <= spec_digits_val(full));
            }
            return None;
        }
        acc = next;
        i = i + 1;
    }
    proof {
        assert(full.subrange(0, end - start) =~= full);
    }
    Some(acc as u32)
}

/// One decimal digit as a string slice.
fn digit_str(d: u64) -> (r: &'static str)
    requires
        d <= 9,
    ensures
        r@ == seq![spec_digit(d as int)],
{
    let r = match d {
        0 => "0",
        1 => "1",
        2 => "2",
        3 => "3",
        4 => "4",
        5 => "5",
        6 => "6",
        7 => "7",
        8 => "8",
        _ => "9",
    };
    proof {
        reveal_strlit("0");
        reveal_strlit("1");
        reveal_strlit("2");
        reveal_strlit("3");
        reveal_strlit("4");
        reveal_strlit("5");
        reveal_strlit("6");
        reveal_strlit("7");
        reveal_strlit("8");
        reveal_strlit("9");
        assert(r@ =~= seq![spec_digit(d as int)]);
    }
    r
}

/// Decimal text of an unsigned value.
pub fn dec_u64(n: u64) -> (s: String)
    ensures
        s@ == spec_dec_nat(n as nat),
    decreases n,
{
    if n <= 9 {
        String::from_str(digit_str(n))
    } else {
        let mut s = dec_u64(n / 10);
        s.append(digit_str(n % 10));
        proof {
            assert(s@ =~= spec_dec_nat((n / 10) as nat).push(spec_digit((n % 10) as int)));
        }
        s
    }
}

/// A value below 1000 with exactly three digits.
pub fn pad3_u64(f: u64) -> (s: String)
    requires
        f < 1000,
    ensures
        s@ == spec_pad3(f as int),
{
    let mut s = String::from_str(digit_str(f / 100));
    s.append(digit_str((f / 10) % 10));
    s.append(digit_str(f % 10));
    proof {
        assert(s@ =~= spec_pad3(f as int));
    }
    s
}

} // verus!
