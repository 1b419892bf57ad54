//! Text layout primitives: repeated glyphs, alignment within a fixed number
//! of cells, and decimal renderings of the numbers that the sections show.
use vstd::prelude::*;
use vstd::string::*;

verus! {

/// `n` copies of `c`.
pub open spec fn repeat_char(c: char, n: nat) -> Seq<char> {
    Seq::new(n, |i: int| c)
}

/// `n` blank cells.
pub open spec fn spaces(n: nat) -> Seq<char> {
    repeat_char(' ', n)
}

/// `s` centered in `width` cells: the surplus is split in two, the smaller half
/// on the left. Text that does not fit is left as it is.
pub open spec fn centered(s: Seq<char>, width: nat, fill: char) -> Seq<char> {
    if s.len() >= width {
        s
    } else {
        let pad = (width - s.len()) as nat;
        repeat_char(fill, pad / 2) + s + repeat_char(fill, (pad - pad / 2) as nat)
    }
}

/// `s` pushed to the right end of `width` cells.
pub open spec fn right_aligned(s: Seq<char>, width: nat) -> Seq<char> {
    if s.len() >= width {
        s
    } else {
        spaces((width - s.len()) as nat) + s
    }
}

/// `s` at the left end of `width` cells.
pub open spec fn left_aligned(s: Seq<char>, width: nat) -> Seq<char> {
    if s.len() >= width {
        s
    } else {
        s + spaces((width - s.len()) as nat)
    }
}

/// The cells that `centered` (or either alignment) occupies.
pub open spec fn fitted_len(len: nat, width: nat) -> nat {
    if len >= width {
        len
    } else {
        width
    }
}

pub proof fn lemma_centered_len(s: Seq<char>, width: nat, fill: char)
    ensures
        centered(s, width, fill).len() == fitted_len(s.len(), width),
{
}

pub proof fn lemma_aligned_len(s: Seq<char>, width: nat)
    ensures
        right_aligned(s, width).len() == fitted_len(s.len(), width),
        left_aligned(s, width).len() == fitted_len(s.len(), width),
{
}

/// The character of a decimal digit.
pub open spec fn digit_char(d: nat) -> char {
    if d == 0 {
        '0'
    } else if d == 1 {
        '1'
    } else if d == 2 {
        '2'
    } else if d == 3 {
        '3'
    } else if d == 4 {
        '4'
    } else if d == 5 {
        '5'
    } else if d == 6 {
        '6'
    } else if d == 7 {
        '7'
    } else if d == 8 {
        '8'
    } else {
        '9'
    }
}

/// The decimal digits of `n`, most significant first, without leading zeros.
pub open spec fn decimal(n: nat) -> Seq<char>
    decreases n,
{
    if n < 10 {
        seq![digit_char(n)]
    } else {
        decimal(n / 10) + seq![digit_char(n % 10)]
    }
}

/// The decimal rendering of `n`, with a leading `-` when it is negative.
pub open spec fn signed_decimal(n: int) -> Seq<char> {
    if n < 0 {
        seq!['-'] + decimal((-n) as nat)
    } else {
        decimal(n as nat)
    }
}

/// A magnitude held in hundredths, shown with as few decimals as it needs:
/// `400` is `4`, `170` is `1.7`, `225` is `2.25`.
pub open spec fn hundredths_display(h: nat) -> Seq<char> {
    let frac = h % 100;
    if frac == 0 {
        decimal(h / 100)
    } else if frac % 10 == 0 {
        decimal(h / 100) + seq!['.', digit_char(frac / 10)]
    } else {
        decimal(h / 100) + seq!['.', digit_char(frac / 10), digit_char(frac % 10)]
    }
}

/// `10` to the power `k`.
pub open spec fn pow10(k: nat) -> nat
    decreases k,
{
    if k == 0 {
        1
    } else {
        10 * pow10((k - 1) as nat)
    }
}

/// A number below `10^k` has at most `k` digits.
pub proof fn lemma_decimal_len(n: nat, k: nat)
    requires
        n < pow10(k),
        k >= 1,
    ensures
        decimal(n).len() <= k,
    decreases k,
{
    if n >= 10 {
        reveal_with_fuel(pow10, 2);
        if k == 1 {
            assert(pow10(1) == 10);
        }
        let p = pow10((k - 1) as nat);
        assert(pow10(k) == 10 * p);
        assert(n / 10 < p) by (nonlinear_arith)
            requires
                n < 10 * p,
        ;
        lemma_decimal_len(n / 10, (k - 1) as nat);
    }
}

/// The legend's numbers stay short.
pub proof fn lemma_hundredths_display_short(h: nat)
    requires
        h < 10_000_000_000,
    ensures
        hundredths_display(h).len() <= 13,
{
    reveal_with_fuel(pow10, 11);
    assert(pow10(10) == 10_000_000_000);
    lemma_decimal_len(h / 100, 10);
}

/// A magnitude held in hundredths, rounded half up to one decimal: `348` is `3.5`.
pub open spec fn tenths_display(h: nat) -> Seq<char> {
    let t = (h + 5) / 10;
    decimal(t / 10) + seq!['.', digit_char(t % 10)]
}

/// A magnitude held in hundredths, rounded half up to a whole number.
pub open spec fn rounded_whole(h: nat) -> nat {
    (h + 50) / 100
}

/// Relies on std's `Display` for `u64` (through `to_string`): the decimal
/// digits, without sign, padding or leading zeros.
#[verifier::external_body]
fn decimal_string(n: u64) -> (r: String)
    ensures
        r@ == decimal(n as nat),
{
    n.to_string()
}

/// Relies on std's `Display` for `i64` (through `to_string`): the decimal
/// digits, led by `-` for a negative value.
#[verifier::external_body]
fn signed_decimal_string(n: i64) -> (r: String)
    ensures
        r@ == signed_decimal(n as int),
{
    n.to_string()
}

/// The decimal rendering of `n`.
pub fn decimal_text(n: u64) -> (r: String)
    ensures
        r@ == decimal(n as nat),
{
    decimal_string(n)
}

/// The decimal rendering of `n`, signed.
pub fn signed_decimal_text(n: i64) -> (r: String)
    ensures
        r@ == signed_decimal(n as int),
{
    signed_decimal_string(n)
}

/// A value in hundredths shown with the decimals it needs.
pub fn hundredths_text(h: u64) -> (r: String)
    ensures
        r@ == hundredths_display(h as nat),
{
    let mut r = decimal_string(h / 100);
    let frac = h % 100;
    if frac != 0 {
        r.append(".");
        let tens = decimal_string(frac / 10);
        r.append(tens.as_str());
        if frac % 10 != 0 {
            let ones = decimal_string(frac % 10);
            r.append(ones.as_str());
        }
        proof {
            reveal_strlit(".");
        }
        assert(r@ =~= hundredths_display(h as nat));
    }
    r
}

/// A value in hundredths rounded half up to one decimal.
pub fn tenths_text(h: u32) -> (r: String)
    ensures
        r@ == tenths_display(h as nat),
{
    let t: u64 = (h as u64 + 5) / 10;
    let mut r = decimal_string(t / 10);
    r.append(".");
    let d = decimal_string(t % 10);
    r.append(d.as_str());
    proof {
        reveal_strlit(".");
    }
    assert(r@ =~= tenths_display(h as nat));
    r
}

/// `n` copies of a one-cell glyph.
pub fn repeat_glyph(glyph: &str, n: usize) -> (r: String)
    requires
        glyph@.len() == 1,
    ensures
        r@ == repeat_char(glyph@[0], n as nat),
{
    let mut r = String::new();
    let mut i: usize = 0;
    while i < n
        invariant
            i <= n,
            glyph@.len() == 1,
            r@ == repeat_char(glyph@[0], i as nat),
        decreases n - i,
    {
        r.append(glyph);
        i = i + 1;
        assert(r@ =~= repeat_char(glyph@[0], i as nat));
    }
    r
}

/// `n` blank cells.
pub fn blank(n: usize) -> (r: String)
    ensures
        r@ == spaces(n as nat),
{
    proof {
        reveal_strlit(" ");
    }
    repeat_glyph(" ", n)
}

/// `s` centered in `width` cells, padded with a one-cell `fill`.
pub fn center(s: &str, width: usize, fill: &str) -> (r: String)
    requires
        fill@.len() == 1,
    ensures
        r@ == centered(s@, width as nat, fill@[0]),
{
    let len = s.unicode_len();
    if len >= width {
        String::from_str(s)
    } else {
        let pad = width - len;
        let mut r = repeat_glyph(fill, pad / 2);
        r.append(s);
        let right = repeat_glyph(fill, pad - pad / 2);
        r.append(right.as_str());
        assert(r@ =~= centered(s@, width as nat, fill@[0]));
        r
    }
}

/// `s` centered in `width` blank-padded cells.
pub fn center_blank(s: &str, width: usize) -> (r: String)
    ensures
        r@ == centered(s@, width as nat, ' '),
{
    proof {
        reveal_strlit(" ");
    }
    center(s, width, " ")
}

/// `s` at the right end of `width` cells.
pub fn align_right(s: &str, width: usize) -> (r: String)
    ensures
        r@ == right_aligned(s@, width as nat),
{
    let len = s.unicode_len();
    if len >= width {
        String::from_str(s)
    } else {
        let mut r = blank(width - len);
        r.append(s);
        r
    }
}

/// `s` at the left end of `width` cells.
pub fn align_left(s: &str, width: usize) -> (r: String)
    ensures
        r@ == left_aligned(s@, width as nat),
{
    let len = s.unicode_len();
    let mut r = String::from_str(s);
    if len < width {
        let pad = blank(width - len);
        r.append(pad.as_str());
    }
    r
}

} // verus!
