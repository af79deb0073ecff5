//! Human-readable numbers: decimal digits with thousands separators, and
//! byte counts scaled to KB / MB / GB / TB with one decimal.

use vstd::prelude::*;
use crate::text::push_char;

verus! {

/// The ASCII digit for `d` (`d < 10`).
pub open spec fn digit_char(d: nat) -> char {
    if d == 0 { '0' }
    else if d == 1 { '1' }
    else if d == 2 { '2' }
    else if d == 3 { '3' }
    else if d == 4 { '4' }
    else if d == 5 { '5' }
    else if d == 6 { '6' }
    else if d == 7 { '7' }
    else if d == 8 { '8' }
    else { '9' }
}

/// The decimal representation of `n`, most significant digit first,
/// without leading zeros ("0" for zero).
pub open spec fn decimal(n: nat) -> Seq<char>
    decreases n,
{
    if n < 10 {
        seq![digit_char(n)]
    } else {
        decimal(n / 10).push(digit_char(n % 10))
    }
}

/// Inserts a ',' between every group of three characters, counted from the
/// right: "1234567" becomes "1,234,567".
pub open spec fn group_thousands(s: Seq<char>) -> Seq<char>
    decreases s.len(),
{
    if s.len() <= 3 {
        s
    } else {
        group_thousands(s.subrange(0, s.len() - 3)) + seq![','] + s.subrange(
            s.len() - 3,
            s.len() as int,
        )
    }
}

/// What `format_number` shows for `n`.
pub open spec fn spec_format_number(n: nat) -> Seq<char> {
    group_thousands(decimal(n))
}

fn digit(d: u64) -> (c: char)
    requires
        d < 10,
    ensures
        c == digit_char(d as nat),
{
    if d == 0 { '0' }
    else if d == 1 { '1' }
    else if d == 2 { '2' }
    else if d == 3 { '3' }
    else if d == 4 { '4' }
    else if d == 5 { '5' }
    else if d == 6 { '6' }
    else if d == 7 { '7' }
    else if d == 8 { '8' }
    else { '9' }
}

/// The decimal digits of `n`, most significant first.
pub fn decimal_digits(n: u64) -> (ds: Vec<char>)
    ensures
        ds@ == decimal(n as nat),
{
    let mut rev: Vec<char> = Vec::new();
    let mut m: u64 = n;
    while m >= 10
        invariant
            decimal(n as nat) == decimal(m as nat) + rev@.reverse(),
        decreases m,
    {
        let c = digit(m % 10);
        proof {
            assert(rev@.push(c).reverse() =~= seq![c] + rev@.reverse());
            assert(decimal(m as nat) == decimal((m / 10) as nat).push(c));
            assert(decimal(m as nat) + rev@.reverse() =~= decimal((m / 10) as nat) + (seq![c]
                + rev@.reverse()));
        }
        rev.push(c);
        m = m / 10;
    }
    let c = digit(m);
    proof {
        assert(rev@.push(c).reverse() =~= seq![c] + rev@.reverse());
    }
    rev.push(c);
    assert(decimal(n as nat) =~= rev@.reverse());
    let len: usize = rev.len();
    let mut ds: Vec<char> = Vec::new();
    let mut i: usize = len;
    while i > 0
        invariant
            i <= len,
            len == rev@.len(),
            ds@ =~= rev@.reverse().subrange(0, (len - i) as int),
        decreases i,
    {
        i = i - 1;
        ds.push(rev[i]);
        assert(ds@ =~= rev@.reverse().subrange(0, (len - i) as int));
    }
    ds
}

/// Formats `n` in decimal with a ',' between groups of three digits.
pub fn format_number(n: u64) -> (s: String)
    ensures
        s@ == spec_format_number(n as nat),
{
    let ds = decimal_digits(n);
    let len: usize = ds.len();
    let first: usize = (len - 1) % 3 + 1;
    let mut out = String::new();
    let mut k: usize = 0;
    while k < first
        invariant
            k <= first <= 3,
            first <= len,
            len == ds@.len(),
            out@ =~= ds@.subrange(0, k as int),
        decreases first - k,
    {
        push_char(&mut out, ds[k]);
        k = k + 1;
    }
    assert(group_thousands(ds@.subrange(0, first as int)) == ds@.subrange(0, first as int));
    while k < len
        invariant
            1 <= first <= k <= len,
            len == ds@.len(),
            (k - first) % 3 == 0,
            (len - first) % 3 == 0,
            out@ == group_thousands(ds@.subrange(0, k as int)),
        decreases len - k,
    {
        let ghost before = ds@.subrange(0, k as int);
        push_char(&mut out, ',');
        push_char(&mut out, ds[k]);
        push_char(&mut out, ds[k + 1]);
        push_char(&mut out, ds[k + 2]);
        k = k + 3;
        proof {
            let after = ds@.subrange(0, k as int);
            assert(after.len() > 3);
            assert(group_thousands(after) == group_thousands(after.subrange(0, after.len() - 3))
                + seq![','] + after.subrange(after.len() - 3, after.len() as int));
            assert(after.subrange(0, after.len() - 3) =~= before);
            assert(after.subrange(after.len() - 3, after.len() as int) =~= seq![
                ds@[k - 3],
                ds@[k - 2],
                ds@[k - 1],
            ]);
            assert(out@ =~= group_thousands(after));
        }
    }
    assert(ds@.subrange(0, len as int) =~= ds@);
    out
}


/// Bytes in a kibibyte, mebibyte, gibibyte and tebibyte.
pub const KB: u64 = 1024;
pub const MB: u64 = 1048576;
pub const GB: u64 = 1073741824;
pub const TB: u64 = 1099511627776;

/// 2^53: below it every integer is exactly an `f64`.
pub const F64_EXACT: u64 = 9007199254740992;

/// The spacing of `f64` values around `b`: 1 below 2^53, doubling with
/// each further bit of `b`.
pub open spec fn f64_spacing(b: nat) -> nat
    decreases b,
{
    if b < F64_EXACT {
        1
    } else {
        2 * f64_spacing(b / 2)
    }
}

/// `x / d` rounded to the nearest integer, ties to the even one.
pub open spec fn round_half_even(x: nat, d: nat) -> nat {
    let q = x / d;
    let r = x % d;
    if 2 * r > d || (2 * r == d && q % 2 == 1) {
        q + 1
    } else {
        q
    }
}

/// The value of `b as f64`: `b` rounded to the nearest multiple of its
/// `f64` spacing, ties to an even significand.
pub open spec fn as_f64(b: nat) -> nat {
    round_half_even(b, f64_spacing(b)) * f64_spacing(b)
}

/// `b / unit` written with one decimal, then " <letter>B": the tenths are
/// those of the `f64` quotient, rounded half to even.
pub open spec fn scaled(b: nat, unit: nat, letter: char) -> Seq<char> {
    let t = round_half_even(10 * as_f64(b), unit);
    decimal(t / 10) + seq!['.', digit_char(t % 10), ' ', letter, 'B']
}

/// What `format_bytes` shows for `b`.
pub open spec fn spec_format_bytes(b: nat) -> Seq<char> {
    if b >= TB {
        scaled(b, TB as nat, 'T')
    } else if b >= GB {
        scaled(b, GB as nat, 'G')
    } else if b >= MB {
        scaled(b, MB as nat, 'M')
    } else if b >= KB {
        scaled(b, KB as nat, 'K')
    } else {
        decimal(b) + seq![' ', 'B']
    }
}

fn round_half_even_exec(x: u128, d: u128) -> (q: u128)
    requires
        d > 0,
        x / d < u128::MAX,
    ensures
        q == round_half_even(x as nat, d as nat),
{
    let q: u128 = x / d;
    let r: u128 = x % d;
    if r > d - r || (r == d - r && q % 2 == 1) {
        q + 1
    } else {
        q
    }
}

proof fn lemma_spacing_step(b: nat, t: nat, d: nat)
    requires
        t >= F64_EXACT,
        f64_spacing(b) == d * f64_spacing(t),
    ensures
        f64_spacing(b) == (2 * d) * f64_spacing(t / 2),
{
    assert(f64_spacing(t) == 2 * f64_spacing(t / 2));
    let u = f64_spacing(t / 2);
    assert(d * (2 * u) == (2 * d) * u) by (nonlinear_arith);
}

/// The value that `b as f64` holds, as an integer.
fn f64_value(b: u64) -> (f: u128)
    ensures
        f == as_f64(b as nat),
        f <= 36893488147419103232,
{
    let mut t: u64 = b;
    let mut d: u128 = 1;
    while t >= F64_EXACT
        invariant
            1 <= d <= 4096,
            t as nat == b as nat / d as nat,
            f64_spacing(b as nat) == d * f64_spacing(t as nat),
        decreases t,
    {
        proof {
            lemma_spacing_step(b as nat, t as nat, d as nat);
            vstd::arithmetic::div_mod::lemma_div_denominator(b as int, d as int, 2);
            vstd::arithmetic::div_mod::lemma_fundamental_div_mod(b as int, d as int);
            let bb = b as int;
            let dd = d as int;
            let tt = t as int;
            assert(dd * 9007199254740992 <= dd * tt) by (nonlinear_arith)
                requires
                    tt >= 9007199254740992,
                    dd >= 1,
            ;
            assert(bb % dd >= 0) by (nonlinear_arith)
                requires
                    dd >= 1,
            ;
        }
        t = t / 2;
        d = d * 2;
    }
    proof {
        assert(f64_spacing(t as nat) == 1);
        vstd::arithmetic::div_mod::lemma_fundamental_div_mod(b as int, d as int);
    }
    let q: u128 = round_half_even_exec(b as u128, d);
    proof {
        let dd = d as int;
        let qq = q as int;
        let tt = t as int;
        assert(qq <= tt + 1);
        assert(qq * dd <= (tt + 1) * dd) by (nonlinear_arith)
            requires
                qq <= tt + 1,
                dd >= 1,
        ;
        assert((tt + 1) * dd == tt * dd + dd) by (nonlinear_arith);
        assert(tt * dd <= b as int) by (nonlinear_arith)
            requires
                b as int == dd * tt + (b as int) % dd,
                (b as int) % dd >= 0,
        ;
        assert((b as int) - tt * dd < dd) by (nonlinear_arith)
            requires
                b as int == dd * tt + (b as int) % dd,
                (b as int) % dd < dd,
        ;
        assert(qq * dd <= 36893488147419103232) by (nonlinear_arith)
            requires
                qq * dd <= tt * dd + dd,
                tt * dd <= b as int,
                b as int <= 18446744073709551615,
                dd <= 4096,
        ;
        let sb = f64_spacing(b as nat);
        let st = f64_spacing(t as nat);
        assert(sb == d as nat) by (nonlinear_arith)
            requires
                sb == (d as nat) * st,
                st == 1,
        ;
        assert(as_f64(b as nat) == q * d);
    }
    q * d
}

/// Writes `t / 10` in decimal, a '.', the digit `t % 10`, a space and
/// "<letter>B".
fn push_scaled(out: &mut String, t: u64, letter: char)
    ensures
        final(out)@ == old(out)@ + decimal((t / 10) as nat) + seq![
            '.',
            digit_char((t % 10) as nat),
            ' ',
            letter,
            'B',
        ],
{
    let ds = decimal_digits(t / 10);
    let mut i: usize = 0;
    while i < ds.len()
        invariant
            i <= ds@.len(),
            ds@ == decimal((t / 10) as nat),
            out@ =~= old(out)@ + ds@.subrange(0, i as int),
        decreases ds@.len() - i,
    {
        push_char(out, ds[i]);
        i = i + 1;
        assert(out@ =~= old(out)@ + ds@.subrange(0, i as int));
    }
    push_char(out, '.');
    push_char(out, digit(t % 10));
    push_char(out, ' ');
    push_char(out, letter);
    push_char(out, 'B');
    assert(ds@.subrange(0, ds@.len() as int) =~= ds@);
    assert(out@ =~= old(out)@ + ds@ + seq!['.', digit_char((t % 10) as nat), ' ', letter, 'B']);
}

fn format_scaled(b: u64, unit: u64, letter: char) -> (s: String)
    requires
        unit >= KB,
    ensures
        s@ == scaled(b as nat, unit as nat, letter),
{
    let f: u128 = f64_value(b);
    let t: u128 = round_half_even_exec(10 * f, unit as u128);
    proof {
        assert(((10 * f) as int) / (unit as int) <= ((10 * f) as int) / 1024) by {
            vstd::arithmetic::div_mod::lemma_div_is_ordered_by_denominator(
                (10 * f) as int,
                1024,
                unit as int,
            );
        }
    }
    let mut out = String::new();
    push_scaled(&mut out, t as u64, letter);
    assert(out@ =~= scaled(b as nat, unit as nat, letter));
    out
}

/// Formats a byte count: below 1 KB as "<n> B", else scaled to the largest
/// of KB, MB, GB, TB that it reaches, with one decimal ("1.5 KB").
pub fn format_bytes(bytes: u64) -> (s: String)
    ensures
        s@ == spec_format_bytes(bytes as nat),
{
    if bytes >= TB {
        format_scaled(bytes, TB, 'T')
    } else if bytes >= GB {
        format_scaled(bytes, GB, 'G')
    } else if bytes >= MB {
        format_scaled(bytes, MB, 'M')
    } else if bytes >= KB {
        format_scaled(bytes, KB, 'K')
    } else {
        let ds = decimal_digits(bytes);
        let mut out = String::new();
        let mut i: usize = 0;
        while i < ds.len()
            invariant
                i <= ds@.len(),
                ds@ == decimal(bytes as nat),
                out@ =~= ds@.subrange(0, i as int),
            decreases ds@.len() - i,
        {
            push_char(&mut out, ds[i]);
            i = i + 1;
        }
        push_char(&mut out, ' ');
        push_char(&mut out, 'B');
        assert(ds@.subrange(0, ds@.len() as int) =~= ds@);
        assert(out@ =~= decimal(bytes as nat) + seq![' ', 'B']);
        out
    }
}

/// `s` with every ',' removed.
pub open spec fn without_commas(s: Seq<char>) -> Seq<char>
    decreases s.len(),
{
    if s.len() == 0 {
        s
    } else if s.last() == ',' {
        without_commas(s.drop_last())
    } else {
        without_commas(s.drop_last()).push(s.last())
    }
}

/// The number that the decimal digits `s` (most significant first) denote.
pub open spec fn decimal_value(s: Seq<char>) -> nat
    decreases s.len(),
{
    if s.len() == 0 {
        0
    } else {
        10 * decimal_value(s.drop_last()) + digit_of(s.last())
    }
}

/// The value of the digit `c` ('0' to '9').
pub open spec fn digit_of(c: char) -> nat {
    if c == '1' { 1 }
    else if c == '2' { 2 }
    else if c == '3' { 3 }
    else if c == '4' { 4 }
    else if c == '5' { 5 }
    else if c == '6' { 6 }
    else if c == '7' { 7 }
    else if c == '8' { 8 }
    else if c == '9' { 9 }
    else { 0 }
}

proof fn lemma_without_commas_concat(a: Seq<char>, b: Seq<char>)
    ensures
        without_commas(a + b) == without_commas(a) + without_commas(b),
    decreases b.len(),
{
    if b.len() == 0 {
        assert(a + b =~= a);
        assert(without_commas(a) + without_commas(b) =~= without_commas(a));
    } else {
        lemma_without_commas_concat(a, b.drop_last());
        assert((a + b).drop_last() =~= a + b.drop_last());
        if b.last() == ',' {
        } else {
            assert(without_commas(a) + without_commas(b.drop_last()).push(b.last()) =~= (
            without_commas(a) + without_commas(b.drop_last())).push(b.last()));
        }
    }
}

proof fn lemma_without_commas_digits(s: Seq<char>)
    requires
        forall|i: int| 0 <= i < s.len() ==> s[i] != ',',
    ensures
        without_commas(s) == s,
    decreases s.len(),
{
    if s.len() > 0 {
        lemma_without_commas_digits(s.drop_last());
        assert(s.drop_last().push(s.last()) =~= s);
    }
}

proof fn lemma_group_without_commas(s: Seq<char>)
    requires
        forall|i: int| 0 <= i < s.len() ==> s[i] != ',',
    ensures
        without_commas(group_thousands(s)) == s,
    decreases s.len(),
{
    if s.len() <= 3 {
        lemma_without_commas_digits(s);
    } else {
        let front = s.subrange(0, s.len() - 3);
        let back = s.subrange(s.len() - 3, s.len() as int);
        lemma_group_without_commas(front);
        lemma_without_commas_concat(group_thousands(front) + seq![','], back);
        lemma_without_commas_concat(group_thousands(front), seq![',']);
        let comma = seq![','];
        assert(comma.drop_last() =~= Seq::<char>::empty());
        assert(comma.last() == ',');
        assert(without_commas(Seq::<char>::empty()) == Seq::<char>::empty());
        assert(without_commas(comma) == without_commas(comma.drop_last()));
        assert(without_commas(comma) =~= Seq::<char>::empty());
        lemma_without_commas_digits(back);
        assert(front + back =~= s);
        assert(without_commas(group_thousands(front)) + Seq::<char>::empty() =~= front);
    }
}

proof fn lemma_decimal_has_no_commas(n: nat)
    ensures
        forall|i: int| 0 <= i < decimal(n).len() ==> decimal(n)[i] != ',',
    decreases n,
{
    if n >= 10 {
        lemma_decimal_has_no_commas(n / 10);
        let d = decimal(n);
        assert(d == decimal(n / 10).push(digit_char(n % 10)));
        assert forall|i: int| 0 <= i < d.len() implies d[i] != ',' by {
            if i < d.len() - 1 {
                assert(d[i] == decimal(n / 10)[i]);
            }
        }
    }
}

proof fn lemma_digit_of_char(d: nat)
    requires
        d < 10,
    ensures
        digit_of(digit_char(d)) == d,
{
}

/// The separators lose nothing: removing the ',' from `format_number(n)`
/// leaves the decimal digits of `n`, and those digits denote `n`.
pub proof fn law_format_number_round_trip(n: nat)
    ensures
        without_commas(spec_format_number(n)) == decimal(n),
        decimal_value(decimal(n)) == n,
    decreases n,
{
    lemma_decimal_has_no_commas(n);
    lemma_group_without_commas(decimal(n));
    let d = decimal(n);
    if n >= 10 {
        law_format_number_round_trip(n / 10);
        assert(d.drop_last() =~= decimal(n / 10));
        lemma_digit_of_char(n % 10);
        assert(decimal_value(d) == 10 * decimal_value(decimal(n / 10)) + digit_of(d.last()));
    } else {
        lemma_digit_of_char(n);
        assert(d.drop_last() =~= Seq::<char>::empty());
        assert(decimal_value(d) == 10 * decimal_value(d.drop_last()) + digit_of(d.last()));
    }
}

/// A whole number `k` of kibibytes, mebibytes or gibibytes (below 1024 of
/// them) is shown as "k.0" and its unit.
pub proof fn law_whole_units(k: nat)
    requires
        1 <= k < 1024,
    ensures
        spec_format_bytes(k * (KB as nat)) == decimal(k) + seq!['.', '0', ' ', 'K', 'B'],
        spec_format_bytes(k * (MB as nat)) == decimal(k) + seq!['.', '0', ' ', 'M', 'B'],
        spec_format_bytes(k * (GB as nat)) == decimal(k) + seq!['.', '0', ' ', 'G', 'B'],
{
    lemma_whole_unit(k, KB as nat);
    lemma_whole_unit(k, MB as nat);
    lemma_whole_unit(k, GB as nat);
    assert(k * KB < MB) by (nonlinear_arith)
        requires
            k < 1024,
    ;
    assert(k * MB < GB) by (nonlinear_arith)
        requires
            k < 1024,
    ;
    assert(k * GB < TB) by (nonlinear_arith)
        requires
            k < 1024,
    ;
    assert(k * KB >= KB) by (nonlinear_arith)
        requires
            k >= 1,
    ;
    assert(k * MB >= MB) by (nonlinear_arith)
        requires
            k >= 1,
    ;
    assert(k * GB >= GB) by (nonlinear_arith)
        requires
            k >= 1,
    ;
}

proof fn lemma_whole_unit(k: nat, unit: nat)
    requires
        1 <= k < 1024,
        1 <= unit <= GB,
    ensures
        forall|c: char| #[trigger] scaled(k * unit, unit, c) == decimal(k) + seq!['.', '0', ' ', c, 'B'],
{
    let b = k * unit;
    assert(b < F64_EXACT) by (nonlinear_arith)
        requires
            k < 1024,
            unit <= GB,
            b == k * unit,
    ;
    assert(f64_spacing(b) == 1);
    assert(as_f64(b) == b);
    assert((10 * b) / unit == 10 * k && (10 * b) % unit == 0) by (nonlinear_arith)
        requires
            b == k * unit,
            unit >= 1,
    {
        vstd::arithmetic::div_mod::lemma_div_multiples_vanish((10 * k) as int, unit as int);
        vstd::arithmetic::div_mod::lemma_mod_multiples_basic((10 * k) as int, unit as int);
        assert(10 * b == (10 * k) * unit);
    }
    assert(round_half_even(10 * b, unit) == 10 * k);
    assert((10 * k) / 10 == k);
    assert((10 * k) % 10 == 0);
}

/// Digits are ASCII: `digit_char(d)` is the character with code 48 + d.
pub proof fn law_digit_char_is_ascii(d: nat)
    requires
        d < 10,
    ensures
        digit_char(d) as int == 48 + d,
        digit_of(digit_char(d)) == d,
{
}

proof fn lemma_group_commas(s: Seq<char>)
    requires
        s.len() > 0,
        forall|i: int| 0 <= i < s.len() ==> s[i] != ',',
    ensures
        group_thousands(s).len() == s.len() + (s.len() - 1) / 3,
        forall|i: int|
            0 <= i < group_thousands(s).len() ==> (#[trigger] group_thousands(s)[i] == ',' <==> (
            i > 0 && (group_thousands(s).len() - i) % 4 == 0)),
    decreases s.len(),
{
    let r = group_thousands(s);
    if s.len() > 3 {
        let front = s.subrange(0, s.len() - 3);
        let back = s.subrange(s.len() - 3, s.len() as int);
        lemma_group_commas(front);
        let g = group_thousands(front);
        assert(r == g + seq![','] + back);
        assert forall|i: int| 0 <= i < r.len() implies (#[trigger] r[i] == ',' <==> (i > 0 && (
        r.len() - i) % 4 == 0)) by {
            if i < g.len() {
                assert(r[i] == g[i]);
                assert((r.len() - i) % 4 == (g.len() - i) % 4);
            } else if i == g.len() {
                assert(r[i] == ',');
            } else {
                assert(r[i] == back[i - g.len() - 1]);
                assert(back[i - g.len() - 1] == s[s.len() - 3 + (i - g.len() - 1)]);
            }
        }
    }
}

/// Separators come every three digits from the right and nowhere else:
/// a character of `format_number(n)` is ',' exactly when it is not the
/// first and the number of characters from it to the end is a multiple
/// of four; so there are (digits - 1) / 3 of them.
pub proof fn law_format_number_commas(n: nat)
    ensures
        spec_format_number(n).len() == decimal(n).len() + (decimal(n).len() - 1) / 3,
        forall|i: int|
            0 <= i < spec_format_number(n).len() ==> (#[trigger] spec_format_number(n)[i] == ','
                <==> (i > 0 && (spec_format_number(n).len() - i) % 4 == 0)),
{
    lemma_decimal_has_no_commas(n);
    lemma_decimal_nonempty(n);
    lemma_group_commas(decimal(n));
}

proof fn lemma_decimal_nonempty(n: nat)
    ensures
        decimal(n).len() > 0,
    decreases n,
{
    if n >= 10 {
        lemma_decimal_nonempty(n / 10);
    }
}

/// Rounding to the nearest multiple, ties to even: `q * d` is within half
/// of `d` of `x`, and when `x` lies exactly halfway `q` is even.
pub proof fn law_round_half_even(x: nat, d: nat)
    requires
        d > 0,
    ensures
        -(d as int) <= 2 * (x - round_half_even(x, d) * d) <= d,
        (2 * (x - round_half_even(x, d) * d) == d || 2 * (x - round_half_even(x, d) * d) == -(
        d as int)) ==> round_half_even(x, d) % 2 == 0,
{
    let q = x / d;
    let r = x % d;
    vstd::arithmetic::div_mod::lemma_fundamental_div_mod(x as int, d as int);
    assert((q + 1) * d == q * d + d) by (nonlinear_arith);
}

/// The spacing of `f64` values around `b` is a power of two, and `b`
/// divided by it has 53 significant bits at most, and exactly 53 once
/// `b` is too large to be held exactly.
pub proof fn law_f64_spacing(b: nat)
    ensures
        exists|k: nat| f64_spacing(b) == vstd::arithmetic::power2::pow2(k),
        b / f64_spacing(b) < F64_EXACT,
        f64_spacing(b) > 1 ==> b / f64_spacing(b) >= F64_EXACT / 2,
    decreases b,
{
    vstd::arithmetic::power2::lemma2_to64();
    if b < F64_EXACT {
        assert(f64_spacing(b) == vstd::arithmetic::power2::pow2(0));
    } else {
        law_f64_spacing(b / 2);
        let s = f64_spacing(b / 2);
        let k = choose|k: nat| s == vstd::arithmetic::power2::pow2(k);
        vstd::arithmetic::power2::lemma_pow2_unfold(k + 1);
        assert(f64_spacing(b) == vstd::arithmetic::power2::pow2(k + 1));
        vstd::arithmetic::power2::lemma_pow2_pos(k);
        vstd::arithmetic::div_mod::lemma_div_denominator(b as int, 2, s as int);
        assert(b / f64_spacing(b) == (b / 2) / s);
        if s == 1 {
            assert((b / 2) / s == b / 2);
        }
    }
}

} // verus!
