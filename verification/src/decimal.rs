//! Decimal rendering of unsigned integers, as `{}` and `{:width}` print them.

use vstd::prelude::*;

verus! {

/// The ASCII digit for `d < 10`.
pub open spec fn digit_char(d: nat) -> char {
    ((48 + d) as u8) as char
}

/// The decimal digits of `n`, most significant first, without leading zeros.
pub open spec fn decimal(n: nat) -> Seq<char>
    decreases n,
{
    if n < 10 {
        seq![digit_char(n)]
    } else {
        decimal(n / 10).push(digit_char(n % 10))
    }
}

/// `s` right-aligned in a field of `width` characters, padded with spaces
/// on the left, as `{:width}` aligns numbers.
pub open spec fn pad_left(s: Seq<char>, width: nat) -> Seq<char> {
    if s.len() >= width {
        s
    } else {
        Seq::new((width - s.len()) as nat, |i: int| ' ') + s
    }
}

fn digit(d: u64) -> (c: char)
    requires
        d < 10,
    ensures
        c == digit_char(d as nat),
{
    ((48 + d) as u8) as char
}

fn decimal_chars(n: u64) -> (v: Vec<char>)
    ensures
        v@ == decimal(n as nat),
    decreases n,
{
    if n < 10 {
        let mut v: Vec<char> = Vec::new();
        v.push(digit(n));
        assert(v@ =~= seq![digit_char(n as nat)]);
        v
    } else {
        let mut v = decimal_chars(n / 10);
        v.push(digit(n % 10));
        v
    }
}

/// The decimal text of `n`, as `n.to_string()` gives it.
pub fn decimal_text(n: u64) -> (s: String)
    ensures
        s@ == decimal(n as nat),
        s@.len() >= 1,
        forall|i: int| 0 <= i < s@.len() ==> crate::laws::is_decimal_digit(#[trigger] s@[i]),
        crate::laws::digits_value(s@) == n,
{
    proof {
        crate::laws::law_decimal_reads_back(n as nat);
    }
    let v = decimal_chars(n);
    crate::text::string_from_chars(v.as_slice())
}

/// The decimal text of `n` right-aligned in `width` characters.
pub fn padded_decimal_text(n: u64, width: usize) -> (s: String)
    ensures
        s@ == pad_left(decimal(n as nat), width as nat),
        s@.len() == if decimal(n as nat).len() >= width { decimal(n as nat).len() } else {
            width as nat
        },
        s@.skip(s@.len() - decimal(n as nat).len()) == decimal(n as nat),
        forall|i: int| 0 <= i < s@.len() - decimal(n as nat).len() ==> #[trigger] s@[i] == ' ',
        crate::laws::digits_value(s@.skip(s@.len() - decimal(n as nat).len())) == n,
{
    proof {
        crate::laws::law_decimal_reads_back(n as nat);
        crate::laws::law_pad_left_shape(decimal(n as nat), width as nat);
    }
    let digits = decimal_chars(n);
    let mut v: Vec<char> = Vec::new();
    if digits.len() < width {
        let pad = width - digits.len();
        let mut k: usize = 0;
        while k < pad
            invariant
                k <= pad,
                v@ == Seq::new(k as nat, |i: int| ' '),
            decreases pad - k,
        {
            v.push(' ');
            k = k + 1;
            assert(v@ =~= Seq::new(k as nat, |i: int| ' '));
        }
    }
    let ghost spaces = v@;
    let mut k: usize = 0;
    while k < digits.len()
        invariant
            k <= digits.len(),
            v@ == spaces + digits@.take(k as int),
        decreases digits.len() - k,
    {
        v.push(digits[k]);
        k = k + 1;
        assert(v@ =~= spaces + digits@.take(k as int));
    }
    assert(digits@.take(digits.len() as int) =~= digits@);
    assert(v@ =~= pad_left(decimal(n as nat), width as nat));
    crate::text::string_from_chars(v.as_slice())
}

} // verus!
