//! Fixed-point coordinates and their decimal rendering.
//!
//! All lengths in this crate are integers counting sub-units: one unit of
//! length (a design unit or a device-independent pixel) is `SUB` sub-units.
//! Path output is quantized to `QUANTUM` sub-units (1/256 of a unit), so a
//! coordinate value of `q` sub-units denotes the exact rational `q / SUB`
//! units, and every such value has a finite decimal expansion of at most
//! `FRAC_DIGITS` fraction digits.

use vstd::prelude::*;

verus! {

/// Sub-units per unit of length.
pub const SUB: i64 = 512;

/// Sub-units per output quantum (1/256 unit).
pub const QUANTUM: i64 = 2;

/// Largest magnitude, in sub-units, that a coordinate handled by this crate
/// may have. Small enough that sums, triplings and scalings of coordinates
/// stay far inside `i64`.
pub const COORD_LIMIT: i64 = 0x40_0000_0000;

/// `10^FRAC_DIGITS * (1/SUB)` is an integer: 9 fraction digits render a
/// sub-unit count exactly.
pub const FRAC_DIGITS: u64 = 9;

/// `10^FRAC_DIGITS / SUB`, the numerator scale of one sub-unit.
pub const SUB_DECIMAL: u64 = 1953125;

/// The decimal digit character for `d` (only meaningful for `d < 10`).
pub open spec fn digit_char(d: nat) -> char {
    ((48 + d) as u8) as char
}

/// The decimal digits of `n`, most significant first, without leading
/// zeros (`0` renders as `"0"`).
pub open spec fn dec_seq(n: nat) -> Seq<char>
    decreases n,
{
    if n < 10 {
        seq![digit_char(n)]
    } else {
        dec_seq(n / 10).push(digit_char(n % 10))
    }
}

/// The decimal digits of `n` left-padded with zeros to `width` characters
/// (unpadded if they already fill the width).
pub open spec fn dec_seq_pad(n: nat, width: nat) -> Seq<char>
    decreases width,
{
    if width > dec_seq(n).len() {
        seq!['0'] + dec_seq_pad(n, (width - 1) as nat)
    } else {
        dec_seq(n)
    }
}

/// `s` with all trailing `'0'` characters removed.
pub open spec fn trim_zeros(s: Seq<char>) -> Seq<char>
    decreases s.len(),
{
    if s.len() > 0 && s.last() == '0' {
        trim_zeros(s.drop_last())
    } else {
        s
    }
}

/// The exact decimal rendering of the coordinate `q` sub-units, i.e. of the
/// rational `q / SUB`: optional sign, integer part, and, when the value is
/// not integral, a point followed by the exact fraction digits with
/// trailing zeros removed.
pub open spec fn fix_text(q: int) -> Seq<char> {
    let n = if q < 0 { (-q) as nat } else { q as nat };
    let sign: Seq<char> = if q < 0 { seq!['-'] } else { Seq::empty() };
    let whole = n / (SUB as nat);
    let frac = n % (SUB as nat);
    if frac == 0 {
        sign + dec_seq(whole)
    } else {
        sign + dec_seq(whole) + seq!['.'] + trim_zeros(
            dec_seq_pad(frac * (SUB_DECIMAL as nat), FRAC_DIGITS as nat),
        )
    }
}

/// Relies on `String::push`: appends exactly the one character.
#[verifier::external_body]
pub fn push_char(s: &mut String, c: char)
    ensures
        final(s)@ == old(s)@.push(c),
{
    s.push(c)
}

/// The character of a single decimal digit.
fn digit_to_char(d: u64) -> (c: char)
    requires
        d < 10,
    ensures
        c == digit_char(d as nat),
{
    (48 + d as u8) as char
}

proof fn lemma_dec_seq_len_pos(n: nat)
    ensures
        dec_seq(n).len() >= 1,
    decreases n,
{
    if n >= 10 {
        lemma_dec_seq_len_pos(n / 10);
    }
}

proof fn lemma_dec_seq_step(n: nat)
    requires
        n >= 10,
    ensures
        dec_seq(n) == dec_seq(n / 10).push(digit_char(n % 10)),
        dec_seq(n).len() == dec_seq(n / 10).len() + 1,
{
}

/// The decimal digits of `n` as a `String`.
pub fn dec_string(n: u64) -> (s: String)
    ensures
        s@ == dec_seq(n as nat),
    decreases n,
{
    if n < 10 {
        let mut s = String::new();
        push_char(&mut s, digit_to_char(n));
        assert(s@ =~= dec_seq(n as nat));
        s
    } else {
        assert(n / 10 < n) by (nonlinear_arith)
            requires
                n >= 10,
        ;
        let mut s = dec_string(n / 10);
        push_char(&mut s, digit_to_char(n % 10));
        s
    }
}

proof fn lemma_trim_zeros_push(s: Seq<char>)
    ensures
        trim_zeros(s.push('0')) == trim_zeros(s),
{
    assert(s.push('0').drop_last() =~= s);
}

proof fn lemma_dec_seq_last(n: nat)
    ensures
        dec_seq(n).last() == digit_char(n % 10),
{
    if n < 10 {
    } else {
        lemma_dec_seq_step(n);
    }
}

proof fn lemma_pad_shift(n: nat, width: nat)
    requires
        n % 10 == 0,
        n >= 10,
        width >= dec_seq(n).len(),
    ensures
        dec_seq_pad(n, width) == dec_seq_pad(n / 10, (width - 1) as nat).push('0'),
    decreases width,
{
    lemma_dec_seq_step(n);
    assert(digit_char(n % 10) == '0');
    if width > dec_seq(n).len() {
        lemma_dec_seq_len_pos(n / 10);
        lemma_pad_shift(n, (width - 1) as nat);
        assert(dec_seq_pad(n, width) == seq!['0'] + dec_seq_pad(n / 10, (width - 2) as nat).push(
            '0',
        ));
        assert(dec_seq_pad(n / 10, (width - 1) as nat) == seq!['0'] + dec_seq_pad(
            n / 10,
            (width - 2) as nat,
        ));
        assert(dec_seq_pad(n, width) =~= dec_seq_pad(n / 10, (width - 1) as nat).push('0'));
    } else {
        assert(dec_seq_pad(n, width) == dec_seq(n));
        assert(dec_seq(n / 10).len() == dec_seq(n).len() - 1);
        assert(width - 1 <= dec_seq(n / 10).len());
        assert(dec_seq_pad(n / 10, (width - 1) as nat) == dec_seq(n / 10));
    }
}

/// `10^k`.
pub open spec fn pow10(k: nat) -> nat
    decreases k,
{
    if k == 0 {
        1
    } else {
        10 * pow10((k - 1) as nat)
    }
}

proof fn lemma_dec_seq_len_bound(n: nat, k: nat)
    requires
        n < pow10(k),
        k >= 1,
    ensures
        dec_seq(n).len() <= k,
    decreases k,
{
    if n < 10 {
        lemma_dec_seq_len_pos(n);
    } else {
        assert(k >= 2) by {
            if k == 1 {
                assert(pow10(1) == 10 * pow10(0));
            }
        }
        assert(pow10(k) == 10 * pow10((k - 1) as nat));
        assert(n / 10 < pow10((k - 1) as nat)) by (nonlinear_arith)
            requires
                n < 10 * pow10((k - 1) as nat),
        ;
        lemma_dec_seq_len_bound(n / 10, (k - 1) as nat);
        lemma_dec_seq_step(n);
    }
}

/// The digits of `n` zero-padded to `width`, as a `String`.
fn dec_string_pad(n: u64, width: u64) -> (s: String)
    requires
        width <= 20,
    ensures
        s@ == dec_seq_pad(n as nat, width as nat),
{
    let digits = dec_string(n);
    let len = digits.as_str().unicode_len();
    let mut s = String::new();
    let mut k: u64 = width;
    while k > len as u64
        invariant
            len == dec_seq(n as nat).len(),
            k <= width <= 20,
            s@ + dec_seq_pad(n as nat, k as nat) == dec_seq_pad(n as nat, width as nat),
        decreases k,
    {
        push_char(&mut s, '0');
        assert(dec_seq_pad(n as nat, k as nat) == seq!['0'] + dec_seq_pad(
            n as nat,
            (k - 1) as nat,
        ));
        assert(s@ + dec_seq_pad(n as nat, (k - 1) as nat) =~= dec_seq_pad(
            n as nat,
            width as nat,
        ));
        k = k - 1;
    }
    assert(dec_seq_pad(n as nat, k as nat) == dec_seq(n as nat));
    let mut s = s;
    s.append(digits.as_str());
    assert(s@ =~= dec_seq_pad(n as nat, width as nat));
    s
}

/// The exact decimal rendering of the fraction numerator `d` over
/// `10^width`, with trailing zeros removed.
fn frac_digits_string(d: u64, width: u64) -> (s: String)
    requires
        1 <= d,
        1 <= width <= 9,
        d < pow10(width as nat),
    ensures
        s@ == trim_zeros(dec_seq_pad(d as nat, width as nat)),
{
    let ghost full = dec_seq_pad(d as nat, width as nat);
    let mut m: u64 = d;
    let mut w: u64 = width;
    proof {
        lemma_dec_seq_len_bound(d as nat, width as nat);
    }
    while m % 10 == 0
        invariant
            1 <= m,
            1 <= w <= width,
            dec_seq(m as nat).len() <= w,
            trim_zeros(dec_seq_pad(m as nat, w as nat)) == trim_zeros(full),
        decreases m,
    {
        proof {
            lemma_dec_seq_len_pos((m / 10) as nat);
            lemma_dec_seq_step(m as nat);
            lemma_pad_shift(m as nat, w as nat);
            lemma_trim_zeros_push(dec_seq_pad((m / 10) as nat, (w - 1) as nat));
        }
        m = m / 10;
        w = w - 1;
    }
    proof {
        let padded = dec_seq_pad(m as nat, w as nat);
        lemma_dec_seq_last(m as nat);
        if w as nat > dec_seq(m as nat).len() {
            lemma_pad_last(m as nat, w as nat);
        }
        assert(padded.last() == digit_char((m % 10) as nat));
        assert(digit_char((m % 10) as nat) != '0');
        assert(trim_zeros(padded) == padded);
    }
    dec_string_pad(m, w)
}

proof fn lemma_pad_last(n: nat, width: nat)
    requires
        width > dec_seq(n).len(),
    ensures
        dec_seq_pad(n, width).last() == dec_seq(n).last(),
    decreases width,
{
    if width - 1 > dec_seq(n).len() {
        lemma_pad_last(n, (width - 1) as nat);
    } else {
        assert(dec_seq_pad(n, (width - 1) as nat) == dec_seq(n));
        lemma_dec_seq_len_pos(n);
    }
}

/// The decimal rendering of the coordinate `q` sub-units, exactly
/// `fix_text(q)`.
pub fn fix_to_string(q: i64) -> (s: String)
    requires
        -COORD_LIMIT * 16 <= q <= COORD_LIMIT * 16,
    ensures
        s@ == fix_text(q as int),
{
    let neg = q < 0;
    let n: u64 = if q < 0 {
        (-q) as u64
    } else {
        q as u64
    };
    let whole: u64 = n / 512;
    let frac: u64 = n % 512;
    let mut s = String::new();
    if neg {
        push_char(&mut s, '-');
    }
    let ws = dec_string(whole);
    s.append(ws.as_str());
    if frac == 0 {
        assert(s@ =~= fix_text(q as int));
        s
    } else {
        push_char(&mut s, '.');
        proof {
            reveal_with_fuel(pow10, 10);
            assert(pow10(9) == 1000000000);
        }
        let fs = frac_digits_string(frac * SUB_DECIMAL, FRAC_DIGITS);
        s.append(fs.as_str());
        assert(s@ =~= fix_text(q as int));
        s
    }
}

/// The exact decimal rendering of `m` millionths: integer part and, when
/// the value is not integral, a point and the exact fraction digits with
/// trailing zeros removed.
pub open spec fn micro_text(m: nat) -> Seq<char> {
    let whole = m / 1000000;
    let frac = m % 1000000;
    if frac == 0 {
        dec_seq(whole)
    } else {
        dec_seq(whole) + seq!['.'] + trim_zeros(dec_seq_pad(frac, 6))
    }
}

/// The decimal rendering of `m` millionths, exactly `micro_text(m)`.
pub fn micro_to_string(m: u64) -> (s: String)
    ensures
        s@ == micro_text(m as nat),
{
    let whole: u64 = m / 1000000;
    let frac: u64 = m % 1000000;
    let mut s = dec_string(whole);
    if frac == 0 {
        assert(s@ =~= micro_text(m as nat));
        s
    } else {
        push_char(&mut s, '.');
        proof {
            reveal_with_fuel(pow10, 7);
            assert(pow10(6) == 1000000);
        }
        let fs = frac_digits_string(frac, 6);
        s.append(fs.as_str());
        assert(s@ =~= micro_text(m as nat));
        s
    }
}

/// `num / den` rounded to the nearest integer, halves up (meaningful for
/// a positive denominator).
pub open spec fn round_ratio(num: int, den: int) -> int {
    (2 * num + den) / (2 * den)
}

/// Rounds a non-negative ratio to the nearest integer, exactly
/// `round_ratio`.
pub fn round_ratio_fix(num: i64, den: i64) -> (r: i64)
    requires
        0 <= num <= 0x400_0000_0000_0000,
        1 <= den <= 0x100_0000_0000,
    ensures
        r == round_ratio(num as int, den as int),
        0 <= r <= 0x400_0000_0000_0000,
{
    proof {
        assert(0 <= (2 * num + den) / (2 * den) <= num) by (nonlinear_arith)
            requires
                0 <= num,
                1 <= den,
        ;
    }
    (2 * num + den) / (2 * den)
}

/// `v / 2` rounded to the nearest integer, halves away from zero.
pub open spec fn half_round(v: int) -> int {
    if v >= 0 {
        (v + 1) / 2
    } else {
        -((-v + 1) / 2)
    }
}

/// Rounds the coordinate `q` sub-units to the output quantum (`QUANTUM`
/// sub-units), halves away from zero.
pub open spec fn quantize(q: int) -> int {
    QUANTUM * half_round(q)
}

/// Rounds the coordinate `q` sub-units to the output quantum.
pub fn quantize_fix(q: i64) -> (r: i64)
    requires
        -COORD_LIMIT * 8 <= q <= COORD_LIMIT * 8,
    ensures
        r == quantize(q as int),
        -COORD_LIMIT * 8 - 2 <= r <= COORD_LIMIT * 8 + 2,
{
    if q >= 0 {
        2 * ((q + 1) / 2)
    } else {
        -(2 * ((-q + 1) / 2))
    }
}

} // verus!
