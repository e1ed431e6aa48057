//! Text building blocks: decimal rendering of integers, fixed-point
//! rendering of binary fractions with round-half-to-even, the value a
//! `u64` takes once converted to an IEEE double, padding and repetition.
use vstd::prelude::*;

verus! {

/// `String::push` appends one character.
pub assume_specification[ String::push ](s: &mut String, ch: char)
    ensures
        final(s)@ == old(s)@.push(ch),
;

// ── Decimal digits ───────────────────────────────────────────────────

/// The ASCII digit for `d` (`d < 10`).
pub open spec fn digit(d: nat) -> char {
    if d == 0 { '0' }
    else if d == 1 { '1' }
    else if d == 2 { '2' }
    else if d == 3 { '3' }
    else if d == 4 { '4' }
    else if d == 5 { '5' }
    else if d == 6 { '6' }
    else if d == 7 { '7' }
    else if d == 8 { '8' }
    else { '9' }
}

/// The decimal representation of `n`, without leading zeros ("0" for zero).
pub open spec fn decimal(n: nat) -> Seq<char>
    decreases n,
{
    if n < 10 {
        seq![digit(n)]
    } else {
        decimal(n / 10).push(digit(n % 10))
    }
}

/// The decimal representation of a signed integer, with a leading `-`
/// for negative values.
pub open spec fn signed_decimal(n: int) -> Seq<char> {
    if n < 0 {
        seq!['-'] + decimal((-n) as nat)
    } else {
        decimal(n as nat)
    }
}

/// The last `width` decimal digits of `n`, padded with leading zeros.
pub open spec fn zero_padded(n: nat, width: nat) -> Seq<char>
    decreases width,
{
    if width == 0 {
        Seq::empty()
    } else {
        zero_padded(n / 10, (width - 1) as nat).push(digit(n % 10))
    }
}

fn digit_char(d: u128) -> (c: char)
    requires
        d < 10,
    ensures
        c == digit(d as nat),
{
    if d == 0 { '0' }
    else if d == 1 { '1' }
    else if d == 2 { '2' }
    else if d == 3 { '3' }
    else if d == 4 { '4' }
    else if d == 5 { '5' }
    else if d == 6 { '6' }
    else if d == 7 { '7' }
    else if d == 8 { '8' }
    else { '9' }
}

/// Appends the decimal representation of `n`.
pub fn push_decimal(s: &mut String, n: u128)
    ensures
        final(s)@ == old(s)@ + decimal(n as nat),
    decreases n,
{
    if n >= 10 {
        push_decimal(s, n / 10);
    }
    s.push(digit_char(n % 10));
    proof {
        if n >= 10 {
            assert(decimal(n as nat) == decimal((n / 10) as nat).push(digit((n % 10) as nat)));
        }
    }
    assert(final(s)@ =~= old(s)@ + decimal(n as nat)) by {
        if n < 10 {
            assert(n % 10 == n);
        }
    }
}

/// Appends the last `width` digits of `n`, zero-padded.
pub fn push_zero_padded(s: &mut String, n: u128, width: u32)
    ensures
        final(s)@ == old(s)@ + zero_padded(n as nat, width as nat),
    decreases width,
{
    if width > 0 {
        push_zero_padded(s, n / 10, width - 1);
        s.push(digit_char(n % 10));
        assert(final(s)@ =~= old(s)@ + zero_padded(n as nat, width as nat));
    } else {
        assert(final(s)@ =~= old(s)@ + zero_padded(n as nat, width as nat));
    }
}

/// Appends the decimal representation of a signed integer.
pub fn push_signed_decimal(s: &mut String, n: i64)
    ensures
        final(s)@ == old(s)@ + signed_decimal(n as int),
{
    if n < 0 {
        s.push('-');
        let magnitude: u128 = (0i128 - (n as i128)) as u128;
        push_decimal(s, magnitude);
        assert(final(s)@ =~= old(s)@ + signed_decimal(n as int));
    } else {
        push_decimal(s, n as u128);
    }
}

/// The decimal representation of an unsigned integer.
pub fn decimal_string(n: u64) -> (s: String)
    ensures
        s@ == decimal(n as nat),
{
    let mut s = String::new();
    push_decimal(&mut s, n as u128);
    assert(s@ =~= decimal(n as nat));
    s
}

/// The decimal representation of a signed integer.
pub fn signed_decimal_string(n: i64) -> (s: String)
    ensures
        s@ == signed_decimal(n as int),
{
    let mut s = String::new();
    push_signed_decimal(&mut s, n);
    assert(s@ =~= signed_decimal(n as int));
    s
}

// ── Rounding and fixed-point rendering ──────────────────────────────

/// `x / d` rounded to the nearest integer, ties to the even neighbour.
pub open spec fn div_round_half_even(x: nat, d: nat) -> nat {
    let q = x / d;
    let r = x % d;
    if 2 * r > d || (2 * r == d && q % 2 == 1) {
        q + 1
    } else {
        q
    }
}

/// `10` to the power `p`.
pub open spec fn pow10(p: nat) -> nat
    decreases p,
{
    if p == 0 {
        1
    } else {
        10 * pow10((p - 1) as nat)
    }
}

/// The exact value `num / den` written with `places` decimals, rounded
/// half to even: the text that `{:.places}` gives for that value.
pub open spec fn fixed(num: nat, den: nat, places: nat) -> Seq<char> {
    let v = div_round_half_even(num * pow10(places), den);
    if places == 0 {
        decimal(v)
    } else {
        decimal(v / pow10(places)) + seq!['.'] + zero_padded(v, places)
    }
}

/// `x / d` rounded half to even, for `d > 0`.
pub fn round_half_even(x: u128, d: u128) -> (v: u128)
    requires
        d > 0,
    ensures
        v == div_round_half_even(x as nat, d as nat),
{
    let q = x / d;
    let r = x % d;
    proof {
        assert(x == d * q + r) by (nonlinear_arith)
            requires d > 0, q == x / d, r == x % d;
    }
    if r > d - r || (r == d - r && q % 2 == 1) {
        assert(q < u128::MAX) by (nonlinear_arith)
            requires d > 0, x <= u128::MAX, x == d * q + r, r < d, r >= 1, q >= 0;
        q + 1
    } else {
        q
    }
}

/// Appends `num / den` written with `places` (at most two) decimals,
/// rounded half to even.
pub fn push_fixed(s: &mut String, num: u128, den: u128, places: u32)
    requires
        den > 0,
        places <= 2,
        num * 100 <= u128::MAX,
    ensures
        final(s)@ == old(s)@ + fixed(num as nat, den as nat, places as nat),
{
    let scale: u128 = if places == 0 { 1 } else if places == 1 { 10 } else { 100 };
    assert(scale == pow10(places as nat)) by {
        reveal_with_fuel(pow10, 3);
    }
    let v = round_half_even(num * scale, den);
    if places == 0 {
        push_decimal(s, v);
    } else {
        push_decimal(s, v / scale);
        s.push('.');
        push_zero_padded(s, v, places);
    }
    assert(final(s)@ =~= old(s)@ + fixed(num as nat, den as nat, places as nat));
}

// ── Integer to double conversion ────────────────────────────────────

/// The spacing of doubles around `x`: one below `2^53`, doubling with
/// each further binary digit of `x`.
pub open spec fn f64_unit(x: nat) -> nat
    decreases x,
{
    if x < 0x20_0000_0000_0000 {
        1
    } else {
        2 * f64_unit(x / 2)
    }
}

/// The value that `x as f64` takes: `x` rounded to 53 significant bits,
/// ties to even (IEEE 754 round-to-nearest).
pub open spec fn f64_value(x: nat) -> nat {
    let u = f64_unit(x);
    div_round_half_even(x, u) * u
}

/// The exact value of `x as f64`, as an integer.
pub fn f64_value_of(x: u64) -> (v: u128)
    ensures
        v == f64_value(x as nat),
        v <= 0x2_0000_0000_0000_0000,
{
    let mut y: u128 = x as u128;
    let mut u: u128 = 1;
    while y >= 0x20_0000_0000_0000
        invariant
            1 <= u <= 0x1000,
            y == (x as nat) / (u as nat),
            f64_unit(x as nat) == u * f64_unit(y as nat),
        decreases y,
    {
        proof {
            vstd::arithmetic::div_mod::lemma_div_denominator(x as int, u as int, 2);
            assert(u * (2 * f64_unit((y / 2) as nat)) == (u * 2) * f64_unit((y / 2) as nat))
                by (nonlinear_arith);
            assert(u * 2 <= 0x1000) by (nonlinear_arith)
                requires y == (x as nat) / (u as nat), y >= 0x20_0000_0000_0000, u >= 1,
                    x < 0x1_0000_0000_0000_0000;
        }
        y = y / 2;
        u = u * 2;
    }
    let q = round_half_even(x as u128, u);
    assert(f64_unit(y as nat) == 1);
    assert(f64_unit(x as nat) == u) by (nonlinear_arith)
        requires f64_unit(x as nat) == u * f64_unit(y as nat), f64_unit(y as nat) == 1;
    assert(q <= y + 1);
    proof {
        assert(q * u <= 0x2_0000_0000_0000_0000) by (nonlinear_arith)
            requires q <= y + 1, 1 <= u <= 0x1000, y < 0x20_0000_0000_0000;
    }
    q * u
}

// ── Comparison, padding and repetition ──────────────────────────────

/// Whether two strings hold the same characters.
pub fn str_eq(a: &str, b: &str) -> (r: bool)
    ensures
        r == (a@ == b@),
{
    let n = a.unicode_len();
    if n != b.unicode_len() {
        return false;
    }
    let mut i: usize = 0;
    while i < n
        invariant
            n == a@.len(),
            n == b@.len(),
            i <= n,
            forall|j: int| 0 <= j < i ==> a@[j] == b@[j],
        decreases n - i,
    {
        if a.get_char(i) != b.get_char(i) {
            return false;
        }
        i = i + 1;
    }
    assert(a@ =~= b@);
    true
}

/// `n` copies of the character `c`.
pub open spec fn repeat_char(c: char, n: nat) -> Seq<char> {
    Seq::new(n, |_i: int| c)
}

/// Appends `n` copies of `c`.
pub fn push_repeat(s: &mut String, c: char, n: usize)
    ensures
        final(s)@ == old(s)@ + repeat_char(c, n as nat),
{
    let mut i: usize = 0;
    while i < n
        invariant
            i <= n,
            s@ == old(s)@ + repeat_char(c, i as nat),
        decreases n - i,
    {
        s.push(c);
        i = i + 1;
        assert(s@ =~= old(s)@ + repeat_char(c, i as nat));
    }
}

/// `text` followed by spaces up to `width` characters (nothing is cut
/// when `text` is longer): the text `{:<width}` gives.
pub open spec fn pad_right(text: Seq<char>, width: nat) -> Seq<char> {
    if text.len() < width {
        text + repeat_char(' ', (width - text.len()) as nat)
    } else {
        text
    }
}

/// Appends `text` left-aligned in a field of `width` characters.
pub fn push_padded(s: &mut String, text: &str, width: usize)
    ensures
        final(s)@ == old(s)@ + pad_right(text@, width as nat),
{
    let n = text.unicode_len();
    s.append(text);
    if n < width {
        push_repeat(s, ' ', width - n);
    }
    assert(final(s)@ =~= old(s)@ + pad_right(text@, width as nat));
}

// ── ASCII case ──────────────────────────────────────────────────────

/// `c` with ASCII upper-case letters mapped to lower case.
pub open spec fn ascii_lower_char(c: char) -> char {
    if 'A' <= c && c <= 'Z' {
        ((c as u32) + 32) as char
    } else {
        c
    }
}

/// `s` with ASCII upper-case letters mapped to lower case; other
/// characters are kept.
pub open spec fn ascii_lower(s: Seq<char>) -> Seq<char> {
    s.map_values(|c: char| ascii_lower_char(c))
}

fn lower_char(c: char) -> (r: char)
    ensures
        r == ascii_lower_char(c),
{
    if 'A' <= c && c <= 'Z' {
        let b = c as u8;
        (b + 32) as char
    } else {
        c
    }
}

/// Whether two strings are equal ignoring ASCII case (what
/// `str::eq_ignore_ascii_case` decides).
pub fn eq_ignore_ascii_case(a: &str, b: &str) -> (r: bool)
    ensures
        r == (ascii_lower(a@) == ascii_lower(b@)),
{
    let n = a.unicode_len();
    if n != b.unicode_len() {
        proof {
            assert(ascii_lower(a@).len() != ascii_lower(b@).len());
        }
        return false;
    }
    let mut i: usize = 0;
    while i < n
        invariant
            n == a@.len(),
            n == b@.len(),
            i <= n,
            forall|j: int| 0 <= j < i ==> ascii_lower_char(a@[j]) == ascii_lower_char(b@[j]),
        decreases n - i,
    {
        if lower_char(a.get_char(i)) != lower_char(b.get_char(i)) {
            proof {
                assert(ascii_lower(a@)[i as int] != ascii_lower(b@)[i as int]);
            }
            return false;
        }
        i = i + 1;
    }
    assert(ascii_lower(a@) =~= ascii_lower(b@));
    true
}

} // verus!
