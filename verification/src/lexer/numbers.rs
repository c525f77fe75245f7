//! Integer and float literals: decimal, `0x`, `0b` and `0o` forms with `_`
//! separators between digits.
use vstd::prelude::*;
use crate::text::{push_char, string_of_chars};
use super::chars::{is_alpha, is_digit, spec_is_alpha, spec_is_digit};
use super::error::LexError;
use super::source::Source;
use super::token::{Span, Token};

verus! {

/// Whether `c` is a digit in the given radix (2, 8, 10 or 16).
pub open spec fn is_radix_digit(c: char, radix: nat) -> bool {
    if radix == 16 {
        spec_is_digit(c) || ('a' <= c && c <= 'f') || ('A' <= c && c <= 'F')
    } else if radix == 2 {
        c == '0' || c == '1'
    } else if radix == 8 {
        '0' <= c && c <= '7'
    } else {
        spec_is_digit(c)
    }
}

fn radix_digit(c: char, radix: u64) -> (r: bool)
    ensures
        r == is_radix_digit(c, radix as nat),
{
    if radix == 16 {
        is_digit(c) || ('a' <= c && c <= 'f') || ('A' <= c && c <= 'F')
    } else if radix == 2 {
        c == '0' || c == '1'
    } else if radix == 8 {
        '0' <= c && c <= '7'
    } else {
        is_digit(c)
    }
}

/// Numeric value of a digit character.
pub open spec fn digit_val(c: char) -> nat {
    if '0' <= c && c <= '9' {
        (c as nat - '0' as nat) as nat
    } else if 'a' <= c && c <= 'f' {
        (c as nat - 'a' as nat + 10) as nat
    } else {
        (c as nat - 'A' as nat + 10) as nat
    }
}

/// Value of a digit sequence in the given radix, most significant first.
pub open spec fn digits_value(ds: Seq<char>, radix: nat) -> nat
    decreases ds.len(),
{
    if ds.len() == 0 {
        0
    } else {
        digits_value(ds.drop_last(), radix) * radix + digit_val(ds.last())
    }
}

proof fn lemma_digits_value_prefix_le(ds: Seq<char>, k: int, radix: nat)
    requires
        0 <= k <= ds.len(),
        radix >= 1,
    ensures
        digits_value(ds.take(k), radix) <= digits_value(ds, radix),
    decreases ds.len() - k,
{
    if k < ds.len() {
        lemma_digits_value_prefix_le(ds, k + 1, radix);
        assert(ds.take(k + 1).drop_last() =~= ds.take(k));
        let v = digits_value(ds.take(k), radix);
        assert(v * radix >= v) by (nonlinear_arith)
            requires
                radix >= 1,
        ;
    } else {
        assert(ds.take(k) =~= ds);
    }
}

fn digit_value(c: char) -> (r: u64)
    requires
        is_radix_digit(c, 16),
    ensures
        r as nat == digit_val(c),
        r < 16,
{
    if '0' <= c && c <= '9' {
        (c as u32 - '0' as u32) as u64
    } else if 'a' <= c && c <= 'f' {
        (c as u32 - 'a' as u32 + 10) as u64
    } else {
        (c as u32 - 'A' as u32 + 10) as u64
    }
}

/// The value of `ds` in `radix`, or `None` when it exceeds `i64::MAX`.
pub fn digits_to_i64(ds: &Vec<char>, radix: u64) -> (r: Option<i64>)
    requires
        radix == 2 || radix == 8 || radix == 10 || radix == 16,
        forall|k: int| 0 <= k < ds@.len() ==> is_radix_digit(#[trigger] ds@[k], radix as nat),
    ensures
        digits_value(ds@, radix as nat) <= i64::MAX ==> r == Some(digits_value(ds@, radix as nat) as i64),
        digits_value(ds@, radix as nat) > i64::MAX ==> r is None,
{
    let mut v: u64 = 0;
    let mut k: usize = 0;
    while k < ds.len()
        invariant
            radix == 2 || radix == 8 || radix == 10 || radix == 16,
            forall|m: int| 0 <= m < ds@.len() ==> is_radix_digit(#[trigger] ds@[m], radix as nat),
            k <= ds@.len(),
            v as nat == digits_value(ds@.take(k as int), radix as nat),
            v <= i64::MAX,
        decreases ds@.len() - k,
    {
        let c = ds[k];
        assert(is_radix_digit(c, radix as nat));
        let d = digit_value(c);
        proof {
            assert(ds@.take(k + 1).drop_last() =~= ds@.take(k as int));
            assert(ds@.take(k + 1).last() == c);
        }
        // v * radix + d, checked against i64::MAX without overflowing u64.
        let lim = (9223372036854775807u64 - d) / radix;
        if v > lim {
            proof {
                assert(v * radix + d > i64::MAX) by (nonlinear_arith)
                    requires
                        v > lim,
                        lim as int == (9223372036854775807 - d as int) / (radix as int),
                        radix >= 2,
                        d < 16,
                ;
                lemma_digits_value_prefix_le(ds@, k + 1, radix as nat);
            }
            return None;
        }
        proof {
            assert(v * radix + d <= i64::MAX) by (nonlinear_arith)
                requires
                    v <= lim,
                    lim as int == (9223372036854775807 - d as int) / (radix as int),
                    radix >= 2,
                    d < 16,
            ;
        }
        v = v * radix + d;
        k = k + 1;
    }
    assert(ds@.take(ds@.len() as int) =~= ds@);
    Some(v as i64)
}

/// The digits of a separator-delimited run starting at `k` and the index just
/// past it, or the byte of a misplaced `_`. `have` says whether a digit of the
/// literal has already been seen (a `_` must sit between two digits).
pub open spec fn digit_run(src: &Source, k: int, radix: nat, have: bool) -> Result<(Seq<char>, int), usize>
    decreases src.n() - k,
{
    if 0 <= k < src.n() && (is_radix_digit(src.chars@[k], radix) || src.chars@[k] == '_') {
        if src.chars@[k] == '_' {
            if !have || !(k + 1 < src.n() && is_radix_digit(src.chars@[k + 1], radix)) {
                Err(src.spec_off(k) as usize)
            } else {
                digit_run(src, k + 1, radix, have)
            }
        } else {
            match digit_run(src, k + 1, radix, true) {
                Ok((ds, e)) => Ok((seq![src.chars@[k]] + ds, e)),
                Err(b) => Err(b),
            }
        }
    } else {
        Ok((Seq::empty(), k))
    }
}

proof fn lemma_digit_run_bounds(src: &Source, k: int, radix: nat, have: bool)
    requires
        0 <= k <= src.n(),
    ensures
        digit_run(src, k, radix, have) matches Ok((ds, e)) ==> k <= e <= src.n()
            && (forall|m: int| 0 <= m < ds.len() ==> is_radix_digit(#[trigger] ds[m], radix)),
    decreases src.n() - k,
{
    if 0 <= k < src.n() && (is_radix_digit(src.chars@[k], radix) || src.chars@[k] == '_') {
        if src.chars@[k] == '_' {
            lemma_digit_run_bounds(src, k + 1, radix, have);
        } else {
            lemma_digit_run_bounds(src, k + 1, radix, true);
            if let Ok((ds, e)) = digit_run(src, k + 1, radix, true) {
                let all = seq![src.chars@[k]] + ds;
                assert forall|m: int| 0 <= m < all.len() implies is_radix_digit(#[trigger] all[m], radix) by {
                    if m > 0 {
                        assert(all[m] == ds[m - 1]);
                    }
                }
            }
        }
    }
}

/// Scans a separator-delimited digit run starting at `k`, appending digits to `acc`.
fn scan_digit_run(src: &Source, k0: usize, radix: u64, have0: bool, acc: &mut Vec<char>) -> (r: Result<usize, usize>)
    requires
        src.wf(),
        k0 <= src.n(),
    ensures
        match digit_run(src, k0 as int, radix as nat, have0) {
            Ok((ds, e)) => r == Ok::<usize, usize>(e as usize) && final(acc)@ == old(acc)@ + ds,
            Err(b) => r == Err::<usize, usize>(b),
        },
        r matches Ok(e) ==> k0 <= e <= src.n(),
{
    let n = src.len();
    let mut k = k0;
    let mut have = have0;
    let ghost acc0 = acc@;
    proof {
        lemma_digit_run_bounds(src, k0 as int, radix as nat, have0);
    }
    while k < n && (radix_digit(src.chars[k], radix) || src.chars[k] == '_')
        invariant
            src.wf(),
            n == src.n(),
            k0 <= k <= n,
            old(acc)@ == acc0,
            match digit_run(src, k as int, radix as nat, have) {
                Ok((ds, e)) => digit_run(src, k0 as int, radix as nat, have0) == Ok::<(Seq<char>, int), usize>((acc@.skip(acc0.len() as int) + ds, e)),
                Err(b) => digit_run(src, k0 as int, radix as nat, have0) == Err::<(Seq<char>, int), usize>(b),
            },
            acc@.len() >= acc0.len(),
            acc@.take(acc0.len() as int) == acc0,
        decreases n - k,
    {
        let c = src.chars[k];
        if c == '_' {
            if !have || !(k + 1 < n && radix_digit(src.chars[k + 1], radix)) {
                return Err(src.off(k));
            }
            k = k + 1;
        } else {
            let ghost before = acc@;
            acc.push(c);
            proof {
                assert(acc@.skip(acc0.len() as int) =~= before.skip(acc0.len() as int).push(c));
                assert(acc@.take(acc0.len() as int) =~= before.take(acc0.len() as int));
                match digit_run(src, k + 1, radix as nat, true) {
                    Ok((ds, e)) => {
                        assert(before.skip(acc0.len() as int) + (seq![c] + ds) =~= acc@.skip(acc0.len() as int) + ds);
                    },
                    Err(b) => {},
                }
            }
            have = true;
            k = k + 1;
        }
    }
    proof {
        assert(acc@ =~= acc0 + acc@.skip(acc0.len() as int));
        assert(acc@.skip(acc0.len() as int) + Seq::<char>::empty() =~= acc@.skip(acc0.len() as int));
    }
    Ok(k)
}

/// Whether an identifier character immediately follows index `k`.
pub open spec fn ident_follows(src: &Source, k: int) -> bool {
    0 <= k < src.n() && (spec_is_alpha(src.chars@[k]) || src.chars@[k] == '_')
}

/// What scanning a numeric literal produces.
pub enum NumScan {
    Int(int),
    /// The normalized literal text `<int digits>.<frac digits>`.
    Float(Seq<char>),
    Fail(LexError),
    /// An identifier character `ch` directly follows the literal text `literal`.
    IdentAfter(Seq<char>, char),
}

/// A successful scan ending at `e`, unless an identifier character follows.
pub open spec fn finish_num(src: &Source, start_idx: int, v: NumScan, e: int) -> (NumScan, int) {
    if ident_follows(src, e) {
        (NumScan::IdentAfter(src.chars@.subrange(start_idx, e), src.chars@[e]), e)
    } else {
        (v, e)
    }
}

/// The outcome and end index of scanning a numeric literal whose first digit
/// `first` sits at index `i - 1` (byte `start`).
pub open spec fn spec_scan_number(src: &Source, i: int, start: usize, first: char) -> (NumScan, int) {
    let n = src.n();
    let start_idx = i - 1;
    let has_prefix = first == '0' && i < n && (src.chars@[i] == 'x' || src.chars@[i] == 'b' || src.chars@[i] == 'o');
    if has_prefix {
        let marker = src.chars@[i];
        let radix: nat = if marker == 'x' { 16 } else if marker == 'b' { 2 } else { 8 };
        match digit_run(src, i + 1, radix, false) {
            Err(b) => (NumScan::Fail(LexError::MisplacedDigitSeparator { byte: b }), i + 1),
            Ok((ds, e)) => if ds.len() == 0 {
                (NumScan::Fail(LexError::MissingDigitsAfterBase { start, marker }), e)
            } else if digits_value(ds, radix) > i64::MAX {
                (NumScan::Fail(LexError::IntegerOverflow { start }), e)
            } else {
                finish_num(src, start_idx, NumScan::Int(digits_value(ds, radix) as int), e)
            },
        }
    } else {
        match digit_run(src, i, 10, true) {
            Err(b) => (NumScan::Fail(LexError::MisplacedDigitSeparator { byte: b }), i),
            Ok((ids, e1)) => {
                let int_digits = seq![first] + ids;
                let is_float = e1 + 1 < n && src.chars@[e1] == '.' && spec_is_digit(src.chars@[e1 + 1]);
                if is_float {
                    match digit_run(src, e1 + 1, 10, true) {
                        Err(b) => (NumScan::Fail(LexError::MisplacedDigitSeparator { byte: b }), e1 + 1),
                        Ok((fds, e2)) => finish_num(src, start_idx, NumScan::Float(int_digits + seq!['.'] + fds), e2),
                    }
                } else if digits_value(int_digits, 10) > i64::MAX {
                    (NumScan::Fail(LexError::IntegerOverflow { start }), e1)
                } else {
                    finish_num(src, start_idx, NumScan::Int(digits_value(int_digits, 10) as int), e1)
                }
            },
        }
    }
}

/// A numeric scan ends between its next unread index and the end of input.
pub proof fn lemma_scan_number_bounds(src: &Source, i: int, start: usize, first: char)
    requires
        1 <= i <= src.n(),
    ensures
        i <= spec_scan_number(src, i, start, first).1 <= src.n(),
{
    let n = src.n();
    let has_prefix = first == '0' && i < n && (src.chars@[i] == 'x' || src.chars@[i] == 'b' || src.chars@[i] == 'o');
    if has_prefix {
        let marker = src.chars@[i];
        let radix: nat = if marker == 'x' { 16 } else if marker == 'b' { 2 } else { 8 };
        lemma_digit_run_bounds(src, i + 1, radix, false);
    } else {
        lemma_digit_run_bounds(src, i, 10, true);
        match digit_run(src, i, 10, true) {
            Ok((ids, e1)) => {
                if e1 + 1 < n {
                    lemma_digit_run_bounds(src, e1 + 1, 10, true);
                }
            },
            Err(_) => {},
        }
    }
}

fn check_no_ident_follows(src: &Source, start_idx: usize, k: usize, start: usize) -> (r: Result<(), LexError>)
    requires
        src.wf(),
        start_idx <= k <= src.n(),
    ensures
        !ident_follows(src, k as int) ==> r is Ok,
        ident_follows(src, k as int) ==> (r matches Err(LexError::IdentAfterNumericLiteral { start: s, literal, ch })
            && s == start && literal@ == src.chars@.subrange(start_idx as int, k as int) && ch == src.chars@[k as int]),
{
    if k < src.len() {
        let ch = src.chars[k];
        if is_alpha(ch) || ch == '_' {
            return Err(LexError::IdentAfterNumericLiteral {
                start,
                literal: string_of_chars(&src.chars, start_idx, k),
                ch,
            });
        }
    }
    Ok(())
}

/// Scans a numeric literal; its first digit `first` sits at index `i - 1` and
/// byte `start`, and `i` is the next unread index.
pub fn scan_number(src: &Source, i: usize, start: usize, first: char) -> (r: Result<(Token, Span, usize), LexError>)
    requires
        src.wf(),
        1 <= i <= src.n(),
        src.chars@[i - 1] == first,
        spec_is_digit(first),
        start == src.spec_off(i - 1),
    ensures
        ({
            let (outcome, e) = spec_scan_number(src, i as int, start, first);
            match outcome {
                NumScan::Int(v) => r == Ok::<(Token, Span, usize), LexError>((Token::Integer(v as i64),
                    Span { start, end: src.spec_off(e) as usize }, e as usize)),
                NumScan::Float(t) => r matches Ok((Token::Float(s), span, next)) && s@ == t
                    && span == (Span { start, end: src.spec_off(e) as usize }) && next == e,
                NumScan::Fail(err) => r == Err::<(Token, Span, usize), LexError>(err),
                NumScan::IdentAfter(lit, ch) => r matches Err(LexError::IdentAfterNumericLiteral { start: s, literal, ch: c })
                    && s == start && literal@ == lit && c == ch,
            }
        }),
        r matches Ok((_, _, next)) ==> i <= next <= src.n(),
        r matches Ok((tok, span, next)) ==> span == (Span { start, end: src.spec_off(next as int) as usize })
            && (tok is Integer || tok is Float),
{
    let n = src.len();
    let start_idx = i - 1;
    let has_prefix = first == '0' && i < n && (src.chars[i] == 'x' || src.chars[i] == 'b' || src.chars[i] == 'o');
    if has_prefix {
        let marker = src.chars[i];
        let radix: u64 = if marker == 'x' { 16 } else if marker == 'b' { 2 } else { 8 };
        let mut digits: Vec<char> = Vec::new();
        let run = scan_digit_run(src, i + 1, radix, false, &mut digits);
        let e = match run {
            Err(b) => {
                return Err(LexError::MisplacedDigitSeparator { byte: b });
            },
            Ok(e) => e,
        };
        proof {
            lemma_digit_run_bounds(src, i + 1, radix as nat, false);
            match digit_run(src, i + 1, radix as nat, false) {
                Ok((ds, e)) => {
                    assert(digits@ =~= ds);
                },
                Err(_) => {},
            }
        }
        if digits.len() == 0 {
            return Err(LexError::MissingDigitsAfterBase { start, marker });
        }
        let value = match digits_to_i64(&digits, radix) {
            None => {
                return Err(LexError::IntegerOverflow { start });
            },
            Some(v) => v,
        };
        return match check_no_ident_follows(src, start_idx, e, start) {
            Err(err) => Err(err),
            Ok(()) => Ok((Token::Integer(value), Span { start, end: src.off(e) }, e)),
        };
    } else {
        let mut int_digits: Vec<char> = Vec::new();
        int_digits.push(first);
        let ghost first_seq = int_digits@;
        let run = scan_digit_run(src, i, 10, true, &mut int_digits);
        let e1 = match run {
            Err(b) => {
                return Err(LexError::MisplacedDigitSeparator { byte: b });
            },
            Ok(e) => e,
        };
        proof {
            lemma_digit_run_bounds(src, i as int, 10, true);
            assert(first_seq =~= seq![first]);
            match digit_run(src, i as int, 10, true) {
                Ok((ids, e)) => {
                    assert(int_digits@ == seq![first] + ids);
                    assert(int_digits@.skip(1) =~= ids);
                },
                Err(_) => {},
            }
        }
        let is_float = e1 < n && e1 + 1 < n && src.chars[e1] == '.' && is_digit(src.chars[e1 + 1]);
        if is_float {
            let mut frac_digits: Vec<char> = Vec::new();
            let run2 = scan_digit_run(src, e1 + 1, 10, true, &mut frac_digits);
            let e2 = match run2 {
                Err(b) => {
                    return Err(LexError::MisplacedDigitSeparator { byte: b });
                },
                Ok(e) => e,
            };
            proof {
                lemma_digit_run_bounds(src, e1 + 1, 10, true);
                match digit_run(src, e1 + 1, 10, true) {
                    Ok((fds, e)) => {
                        assert(frac_digits@ =~= fds);
                    },
                    Err(_) => {},
                }
            }
            let mut text = String::new();
            let mut k: usize = 0;
            while k < int_digits.len()
                invariant
                    k <= int_digits@.len(),
                    text@ == int_digits@.take(k as int),
                decreases int_digits@.len() - k,
            {
                push_char(&mut text, int_digits[k]);
                k = k + 1;
                assert(text@ =~= int_digits@.take(k as int));
            }
            push_char(&mut text, '.');
            let ghost mid = text@;
            let mut k: usize = 0;
            while k < frac_digits.len()
                invariant
                    k <= frac_digits@.len(),
                    text@ == mid + frac_digits@.take(k as int),
                decreases frac_digits@.len() - k,
            {
                push_char(&mut text, frac_digits[k]);
                k = k + 1;
                assert(text@ =~= mid + frac_digits@.take(k as int));
            }
            proof {
                assert(int_digits@.take(int_digits@.len() as int) =~= int_digits@);
                assert(frac_digits@.take(frac_digits@.len() as int) =~= frac_digits@);
            }
            assert(text@ =~= int_digits@ + seq!['.'] + frac_digits@);
            return match check_no_ident_follows(src, start_idx, e2, start) {
                Err(err) => Err(err),
                Ok(()) => Ok((Token::Float(text), Span { start, end: src.off(e2) }, e2)),
            };
        } else {
            proof {
                assert forall|m: int| 0 <= m < int_digits@.len() implies is_radix_digit(#[trigger] int_digits@[m], 10) by {
                    if m > 0 {
                        assert(int_digits@[m] == (int_digits@.skip(1))[m - 1]);
                    }
                }
            }
            let value = match digits_to_i64(&int_digits, 10) {
                None => {
                    return Err(LexError::IntegerOverflow { start });
                },
                Some(v) => v,
            };
            assert(int_digits@ =~= seq![first] + int_digits@.skip(1));
            return match check_no_ident_follows(src, start_idx, e1, start) {
                Err(err) => Err(err),
                Ok(()) => {
                    Ok((Token::Integer(value), Span { start, end: src.off(e1) }, e1))
                },
            };
        }
    }
}

} // verus!
