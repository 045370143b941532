//! The fixed-point length type.

use vstd::prelude::*;
use crate::text::{
    dec_u64, pad3_u64, spec_dec_nat, spec_pad3, spec_is_digit, spec_digit_val, spec_digits_val,
    spec_all_digits, spec_digit_run_end, lemma_digit_run_end_bounds, lemma_digits_val_bounds,
    is_digit_char, digit_run_end, digits_val_u32,
};

verus! {

/// Signed length in units of 10^-6 m, the sole length representation of
/// the crate.
#[derive(Clone, Copy, PartialEq, Eq, Structural, Debug)]
pub struct Micrometer(pub i64);

/// The textual form of a micrometer value: a `'-'` prefix for every
/// negative value, the integer millimeters, a dot, and the three-digit
/// fractional part.
pub open spec fn spec_um_text(v: int) -> Seq<char> {
    let m = if v >= 0 {
        v
    } else {
        -v
    };
    let sign = if v < 0 {
        seq!['-']
    } else {
        Seq::<char>::empty()
    };
    sign + spec_dec_nat((m / 1000) as nat) + "."@ + spec_pad3(m % 1000)
}

/// The value of up to three fractional digits, scaled to thousandths;
/// digits beyond the third are truncated.
pub open spec fn spec_frac3(f: Seq<char>) -> int {
    if f.len() >= 3 {
        spec_digits_val(f.subrange(0, 3))
    } else if f.len() == 2 {
        spec_digits_val(f) * 10
    } else if f.len() == 1 {
        spec_digits_val(f) * 100
    } else {
        0
    }
}

/// Negate when the sign was `'-'`.
pub open spec fn spec_signed(neg: bool, v: int) -> int {
    if neg {
        -v
    } else {
        v
    }
}

/// The fixed-point grammar `[+-]? ( d+ ('.' d*)? | '.' d+ )` read at `pos`:
/// the end position and the micrometer value, or `None` when no prefix
/// matches.  An integer part beyond `u32::MAX` is no match.
pub open spec fn spec_parse_um(s: Seq<char>, pos: int) -> Option<(int, int)> {
    let len = s.len() as int;
    let neg = pos < len && s[pos] == '-';
    let p1 = if pos < len && (s[pos] == '+' || s[pos] == '-') {
        pos + 1
    } else {
        pos
    };
    if p1 < len && s[p1] == '.' {
        let e = spec_digit_run_end(s, p1 + 1);
        if e == p1 + 1 {
            None
        } else {
            Some((e, spec_signed(neg, spec_frac3(s.subrange(p1 + 1, e)))))
        }
    } else {
        let e1 = spec_digit_run_end(s, p1);
        if e1 == p1 {
            None
        } else {
            let iv = spec_digits_val(s.subrange(p1, e1));
            if iv > u32::MAX {
                None
            } else if e1 < len && s[e1] == '.' {
                let e2 = spec_digit_run_end(s, e1 + 1);
                Some((e2, spec_signed(neg, iv * 1000 + spec_frac3(s.subrange(e1 + 1, e2)))))
            } else {
                Some((e1, spec_signed(neg, iv * 1000)))
            }
        }
    }
}

/// Whether a numeral carries a `'-'` sign.
pub open spec fn spec_um_sign(s: Seq<char>) -> bool {
    s.len() > 0 && s[0] == '-'
}

/// The position after the optional sign of a numeral.
pub open spec fn spec_um_body(s: Seq<char>) -> int {
    if s.len() > 0 && (s[0] == '+' || s[0] == '-') {
        1
    } else {
        0
    }
}

/// The value of the integer part of a numeral.
pub open spec fn spec_um_int_val(s: Seq<char>) -> int {
    let p1 = spec_um_body(s);
    if p1 < s.len() && s[p1] == '.' {
        0
    } else {
        spec_digits_val(s.subrange(p1, spec_digit_run_end(s, p1)))
    }
}

/// The fractional digits of a numeral.
pub open spec fn spec_um_frac(s: Seq<char>) -> Seq<char> {
    let p1 = spec_um_body(s);
    if p1 < s.len() && s[p1] == '.' {
        s.subrange(p1 + 1, spec_digit_run_end(s, p1 + 1))
    } else {
        let e1 = spec_digit_run_end(s, p1);
        if e1 < s.len() && s[e1] == '.' {
            s.subrange(e1 + 1, spec_digit_run_end(s, e1 + 1))
        } else {
            Seq::<char>::empty()
        }
    }
}

/// The canonical text of a numeral: a `'-'` prefix when its value is
/// negative, the integer part, a dot, and the fraction written with
/// exactly three digits.
pub open spec fn spec_canonical_um(s: Seq<char>) -> Seq<char> {
    let sign = if spec_um_sign(s) && (spec_um_int_val(s) > 0 || spec_frac3(spec_um_frac(s)) > 0) {
        seq!['-']
    } else {
        Seq::<char>::empty()
    };
    sign + spec_dec_nat(spec_um_int_val(s) as nat) + "."@ + spec_pad3(spec_frac3(spec_um_frac(s)))
}

/// Digit runs of up to three digits scale to a value below one thousand.
proof fn lemma_frac3_range(f: Seq<char>)
    requires
        spec_all_digits(f),
    ensures
        0 <= spec_frac3(f) <= 999,
{
    assert(spec_digits_val(Seq::<char>::empty()) == 0);
    if f.len() >= 3 {
        let three = f.subrange(0, 3);
        assert(three.drop_last() =~= f.subrange(0, 2));
        assert(f.subrange(0, 2).drop_last() =~= f.subrange(0, 1));
        assert(f.subrange(0, 1).drop_last() =~= f.subrange(0, 0));
        assert(f.subrange(0, 0) =~= Seq::<char>::empty());
        assert(spec_is_digit(f[0]) && spec_is_digit(f[1]) && spec_is_digit(f[2]));
        assert(spec_digits_val(f.subrange(0, 1)) == spec_digit_val(f[0]));
        assert(spec_digits_val(f.subrange(0, 2)) == spec_digit_val(f[0]) * 10 + spec_digit_val(
            f[1],
        ));
        assert(spec_digits_val(three) == spec_digits_val(f.subrange(0, 2)) * 10 + spec_digit_val(
            f[2],
        ));
    } else if f.len() == 2 {
        assert(f.drop_last() =~= f.subrange(0, 1));
        assert(f.subrange(0, 1).drop_last() =~= Seq::<char>::empty());
        assert(spec_is_digit(f[0]) && spec_is_digit(f[1]));
        assert(spec_digits_val(f.subrange(0, 1)) == spec_digit_val(f[0]));
        assert(spec_digits_val(f) == spec_digit_val(f[0]) * 10 + spec_digit_val(f[1]));
    } else if f.len() == 1 {
        assert(f.drop_last() =~= Seq::<char>::empty());
        assert(spec_is_digit(f[0]));
        assert(spec_digits_val(f) == spec_digit_val(f[0]));
    }
}

/// The textual form of a composed value splits back into its parts.
proof fn lemma_um_text_parts(neg: bool, iv: int, f3: int)
    requires
        0 <= iv,
        0 <= f3 <= 999,
    ensures
        spec_um_text(spec_signed(neg, iv * 1000 + f3)) == (if neg && (iv > 0 || f3 > 0) {
            seq!['-']
        } else {
            Seq::<char>::empty()
        }) + spec_dec_nat(iv as nat) + "."@ + spec_pad3(f3),
{
    let m = iv * 1000 + f3;
    assert(m / 1000 == iv && m % 1000 == f3) by (nonlinear_arith)
        requires
            0 <= f3 < 1000,
            0 <= iv,
            m == iv * 1000 + f3,
    ;
    let v = spec_signed(neg, m);
    if neg && m > 0 {
        assert(v < 0);
        assert(-v == m);
    } else {
        assert(v == m >= 0);
    }
}

/// Round-trip law: a string that the fixed-point grammar wholly accepts,
/// with at most three fractional digits, parses to a value whose textual
/// form is the string's canonical form (a sign exactly when the value is
/// negative, the integer part, a dot, three fractional digits).
pub proof fn lemma_um_round_trip(s: Seq<char>)
    requires
        spec_parse_um(s, 0) matches Some(r) && r.0 == s.len(),
        spec_um_frac(s).len() <= 3,
    ensures
        spec_parse_um(s, 0) matches Some(r) && spec_um_text(r.1) == spec_canonical_um(s),
{
    let len = s.len() as int;
    let neg = spec_um_sign(s);
    let p1 = spec_um_body(s);
    lemma_digit_run_end_bounds(s, p1);
    if p1 < len && s[p1] == '.' {
        let e = spec_digit_run_end(s, p1 + 1);
        lemma_digit_run_end_bounds(s, p1 + 1);
        let f = s.subrange(p1 + 1, e);
        assert(spec_all_digits(f));
        lemma_frac3_range(f);
        assert(spec_um_int_val(s) == 0);
        lemma_um_text_parts(neg, 0, spec_frac3(f));
    } else {
        let e1 = spec_digit_run_end(s, p1);
        let ip = s.subrange(p1, e1);
        assert forall|i: int| 0 <= i < ip.len() implies spec_is_digit(#[trigger] ip[i]) by {
            assert(ip[i] == s[p1 + i]);
        }
        lemma_digits_val_bounds(ip);
        let iv = spec_digits_val(ip);
        assert(spec_um_int_val(s) == iv);
        if e1 < len && s[e1] == '.' {
            let e2 = spec_digit_run_end(s, e1 + 1);
            lemma_digit_run_end_bounds(s, e1 + 1);
            let f = s.subrange(e1 + 1, e2);
            assert(spec_all_digits(f));
            lemma_frac3_range(f);
            assert(spec_um_frac(s) == f);
            lemma_um_text_parts(neg, iv, spec_frac3(f));
        } else {
            assert(spec_um_frac(s) == Seq::<char>::empty());
            assert(spec_frac3(spec_um_frac(s)) == 0);
            lemma_um_text_parts(neg, iv, 0);
        }
    }
}

/// The numeric value of the digit at `i`.
fn digit_at(s: &str, n: usize, i: usize) -> (d: u64)
    requires
        n == s@.len(),
        i < n,
        spec_is_digit(s@[i as int]),
    ensures
        d == spec_digit_val(s@[i as int]),
        d <= 9,
{
    (s.get_char(i) as u32 - 48) as u64
}

/// The scaled value of the fractional digit run `fs .. fe`.
fn frac3_val(s: &str, n: usize, fs: usize, fe: usize) -> (f: u64)
    requires
        n == s@.len(),
        fs <= fe <= n,
        spec_all_digits(s@.subrange(fs as int, fe as int)),
    ensures
        f == spec_frac3(s@.subrange(fs as int, fe as int)),
        f <= 999,
{
    let ghost sub = s@.subrange(fs as int, fe as int);
    proof {
        assert forall|i: int| fs <= i < fe implies spec_is_digit(#[trigger] s@[i]) by {
            assert(spec_is_digit(sub[i - fs]));
            assert(sub[i - fs] == s@[i]);
        }
        assert(spec_digits_val(Seq::<char>::empty()) == 0);
    }
    if fe - fs >= 3 {
        let d0 = digit_at(s, n, fs);
        let d1 = digit_at(s, n, fs + 1);
        let d2 = digit_at(s, n, fs + 2);
        proof {
            let three = sub.subrange(0, 3);
            assert(three.drop_last() =~= sub.subrange(0, 2));
            assert(sub.subrange(0, 2).drop_last() =~= sub.subrange(0, 1));
            assert(sub.subrange(0, 1).drop_last() =~= sub.subrange(0, 0));
            assert(sub.subrange(0, 0) =~= Seq::<char>::empty());
            assert(sub.subrange(0, 1).last() == s@[fs as int]);
            assert(sub.subrange(0, 2).last() == s@[fs + 1]);
            assert(three.last() == s@[fs + 2]);
            assert(spec_digits_val(sub.subrange(0, 1)) == spec_digit_val(s@[fs as int]));
            assert(spec_digits_val(sub.subrange(0, 2)) == spec_digit_val(s@[fs as int]) * 10
                + spec_digit_val(s@[fs + 1]));
            assert(spec_digits_val(three) == (spec_digit_val(s@[fs as int]) * 10 + spec_digit_val(
                s@[fs + 1],
            )) * 10 + spec_digit_val(s@[fs + 2]));
            assert(spec_frac3(sub) == spec_digits_val(three));
        }
        d0 * 100 + d1 * 10 + d2
    } else if fe - fs == 2 {
        let d0 = digit_at(s, n, fs);
        let d1 = digit_at(s, n, fs + 1);
        proof {
            assert(sub.drop_last() =~= sub.subrange(0, 1));
            assert(sub.subrange(0, 1).drop_last() =~= Seq::<char>::empty());
            assert(sub.subrange(0, 1).last() == s@[fs as int]);
            assert(sub.last() == s@[fs + 1]);
            assert(spec_digits_val(sub.subrange(0, 1)) == spec_digit_val(s@[fs as int]));
            assert(spec_digits_val(sub) == spec_digit_val(s@[fs as int]) * 10 + spec_digit_val(
                s@[fs + 1],
            ));
        }
        (d0 * 10 + d1) * 10
    } else if fe - fs == 1 {
        let d0 = digit_at(s, n, fs);
        proof {
            assert(sub.drop_last() =~= Seq::<char>::empty());
            assert(sub.last() == s@[fs as int]);
            assert(spec_digits_val(sub) == spec_digit_val(s@[fs as int]));
        }
        d0 * 100
    } else {
        0
    }
}

impl Micrometer {
    /// Read a length at position `pos` of a line.
    pub fn parse_at(s: &str, n: usize, pos: usize) -> (r: Option<(usize, Micrometer)>)
        requires
            n == s@.len(),
            pos <= n,
        ensures
            match r {
                Some((e, um)) => spec_parse_um(s@, pos as int) == Some((e as int, um.0 as int))
                    && pos < e <= n,
                None => spec_parse_um(s@, pos as int) is None,
            },
    {
        let mut p = pos;
        let mut neg = false;
        if p < n {
            let c = s.get_char(p);
            if c == '+' || c == '-' {
                neg = c == '-';
                p = p + 1;
            }
        }
        if p < n && s.get_char(p) == '.' {
            let e = digit_run_end(s, n, p + 1);
            proof {
                lemma_digit_run_end_bounds(s@, p + 1);
            }
            if e == p + 1 {
                return None;
            }
            proof {
                assert forall|i: int| 0 <= i < e - (p + 1) implies spec_is_digit(
                    #[trigger] s@.subrange(p + 1, e as int)[i],
                ) by {
                    assert(s@.subrange(p + 1, e as int)[i] == s@[p + 1 + i]);
                }
            }
            let f = frac3_val(s, n, p + 1, e);
            let v: i64 = if neg {
                -(f as i64)
            } else {
                f as i64
            };
            Some((e, Micrometer(v)))
        } else {
            let e1 = digit_run_end(s, n, p);
            proof {
                lemma_digit_run_end_bounds(s@, p as int);
            }
            if e1 == p {
                return None;
            }
            proof {
                assert forall|i: int| 0 <= i < e1 - p implies spec_is_digit(
                    #[trigger] s@.subrange(p as int, e1 as int)[i],
                ) by {
                    assert(s@.subrange(p as int, e1 as int)[i] == s@[p + i]);
                }
            }
            let iv = match digits_val_u32(s, n, p, e1) {
                Some(v) => v,
                None => {
                    return None;
                },
            };
            if e1 < n && s.get_char(e1) == '.' {
                let e2 = digit_run_end(s, n, e1 + 1);
                proof {
                    lemma_digit_run_end_bounds(s@, e1 + 1);
                    assert forall|i: int| 0 <= i < e2 - (e1 + 1) implies spec_is_digit(
                        #[trigger] s@.subrange(e1 + 1, e2 as int)[i],
                    ) by {
                        assert(s@.subrange(e1 + 1, e2 as int)[i] == s@[e1 + 1 + i]);
                    }
                }
                let f = frac3_val(s, n, e1 + 1, e2);
                let mag: u64 = (iv as u64) * 1000 + f;
                let v: i64 = if neg {
                    -(mag as i64)
                } else {
                    mag as i64
                };
                Some((e2, Micrometer(v)))
            } else {
                let mag: u64 = (iv as u64) * 1000;
                let v: i64 = if neg {
                    -(mag as i64)
                } else {
                    mag as i64
                };
                Some((e1, Micrometer(v)))
            }
        }
    }

    /// Read a length at the start of `s`.  The result holds the number of
    /// characters consumed and the value.
    pub fn parse(s: &str) -> (r: Option<(usize, Micrometer)>)
        ensures
            match r {
                Some((e, um)) => spec_parse_um(s@, 0) == Some((e as int, um.0 as int)),
                None => spec_parse_um(s@, 0) is None,
            },
    {
        let n = s.unicode_len();
        Micrometer::parse_at(s, n, 0)
    }

    /// Checked addition; `None` when the sum does not fit.
    pub fn checked_add(self, other: Micrometer) -> (r: Option<Micrometer>)
        ensures
            i64::MIN <= self.0 + other.0 <= i64::MAX ==> r == Some(Micrometer((self.0 + other.0) as i64)),
            !(i64::MIN <= self.0 + other.0 <= i64::MAX) ==> r is None,
    {
        match self.0.checked_add(other.0) {
            Some(v) => Some(Micrometer(v)),
            None => None,
        }
    }

    /// Checked subtraction; `None` when the difference does not fit.
    pub fn checked_sub(self, other: Micrometer) -> (r: Option<Micrometer>)
        ensures
            i64::MIN <= self.0 - other.0 <= i64::MAX ==> r == Some(Micrometer((self.0 - other.0) as i64)),
            !(i64::MIN <= self.0 - other.0 <= i64::MAX) ==> r is None,
    {
        match self.0.checked_sub(other.0) {
            Some(v) => Some(Micrometer(v)),
            None => None,
        }
    }

    /// The textual form `a.bbb` of the value.
    pub fn to_text(&self) -> (s: String)
        ensures
            s@ == spec_um_text(self.0 as int),
    {
        let neg = self.0 < 0;
        let m: u64 = if self.0 < 0 {
            (-(self.0 as i128)) as u64
        } else {
            self.0 as u64
        };
        let a = m / 1000;
        let f = m % 1000;
        let mut s = if neg {
            String::from_str("-")
        } else {
            String::new()
        };
        let d = dec_u64(a);
        s.append(d.as_str());
        s.append(".");
        let p = pad3_u64(f);
        s.append(p.as_str());
        proof {
            reveal_strlit("-");
            if neg {
                assert(s@ =~= seq!['-'] + spec_dec_nat(a as nat) + "."@ + spec_pad3(f as int));
            } else {
                assert(s@ =~= spec_dec_nat(a as nat) + "."@ + spec_pad3(f as int));
            }
        }
        s
    }
}

} // verus!
