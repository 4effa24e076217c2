//! The numbered lines that the demo servers write to their clients, such as
//! `Hello You3\n`: a prefix, the connection number in decimal, a newline.
use vstd::prelude::*;
use vstd::string::StringSliceAdditionalSpecFns;

verus! {

/// The ASCII byte of the decimal digit `d`.
pub open spec fn digit_byte(d: int) -> u8 {
    (48 + d) as u8
}

/// The decimal digits of `n`, most significant first, without leading
/// zeros (a single `0` for zero).
pub open spec fn decimal(n: nat) -> Seq<u8>
    decreases n,
{
    if n < 10 {
        seq![digit_byte(n as int)]
    } else {
        decimal(n / 10).push(digit_byte((n % 10) as int))
    }
}

/// `n` in decimal, with a leading `-` when it is negative.
pub open spec fn signed_decimal(n: int) -> Seq<u8> {
    if n < 0 {
        seq![45u8] + decimal((-n) as nat)
    } else {
        decimal(n as nat)
    }
}

/// The line `prefix`, `n` in decimal, newline.
pub open spec fn numbered(prefix: Seq<u8>, n: int) -> Seq<u8> {
    prefix + signed_decimal(n) + seq![10u8]
}

/// The number that the decimal digits `digits` spell.
pub open spec fn decimal_value(digits: Seq<u8>) -> int
    decreases digits.len(),
{
    if digits.len() == 0 {
        0
    } else {
        decimal_value(digits.drop_last()) * 10 + (digits.last() - 48)
    }
}

/// Whether every byte of `digits` is an ASCII decimal digit.
pub open spec fn all_digits(digits: Seq<u8>) -> bool {
    forall|i: int| 0 <= i < digits.len() ==> 48 <= #[trigger] digits[i] <= 57
}

fn push_decimal(out: &mut Vec<u8>, m: u32)
    ensures
        final(out)@ == old(out)@ + decimal(m as nat),
    decreases m,
{
    if m >= 10 {
        push_decimal(out, m / 10);
    }
    let d: u8 = (m % 10) as u8;
    out.push(48u8 + d);
    proof {
        if m >= 10 {
            assert(decimal(m as nat) == decimal((m / 10) as nat).push(digit_byte((m % 10) as int)));
        }
    }
    assert(final(out)@ =~= old(out)@ + decimal(m as nat)) by {
        if m < 10 {
            assert(decimal(m as nat) =~= seq![digit_byte(m as int)]);
        }
    }
}

/// The line `prefix`, `n` in decimal, newline, as bytes; what
/// `format!("{prefix}{n}\n")` writes.
pub fn numbered_line(prefix: &str, n: i32) -> (line: Vec<u8>)
    ensures
        line@ == numbered(prefix.spec_bytes(), n as int),
{
    let bytes = prefix.as_bytes();
    let mut line: Vec<u8> = Vec::new();
    let mut i: usize = 0;
    while i < bytes.len()
        invariant
            i <= bytes@.len(),
            bytes@ == prefix.spec_bytes(),
            line@ == bytes@.take(i as int),
        decreases bytes@.len() - i,
    {
        line.push(bytes[i]);
        i = i + 1;
        assert(line@ =~= bytes@.take(i as int));
    }
    assert(bytes@.take(bytes@.len() as int) =~= bytes@);
    let ghost before = line@;
    if n < 0 {
        line.push(45u8);
        let magnitude: u32 = (-(n as i64)) as u32;
        push_decimal(&mut line, magnitude);
        assert(line@ =~= before + signed_decimal(n as int));
    } else {
        push_decimal(&mut line, n as u32);
        assert(line@ =~= before + signed_decimal(n as int));
    }
    line.push(10u8);
    assert(line@ =~= numbered(prefix.spec_bytes(), n as int));
    line
}

/// The greeting of the blocking client-server demo: `Hello You{n}\n`.
pub fn hello_line(n: i32) -> (line: Vec<u8>)
    ensures
        line@ == numbered("Hello You".spec_bytes(), n as int),
{
    numbered_line("Hello You", n)
}

/// The first line of the poll client-server demo: `start {n}\n`.
pub fn start_line(n: i32) -> (line: Vec<u8>)
    ensures
        line@ == numbered("start ".spec_bytes(), n as int),
{
    numbered_line("start ", n)
}

/// The last line of the poll client-server demo: `end {n}\n`.
pub fn end_line(n: i32) -> (line: Vec<u8>)
    ensures
        line@ == numbered("end ".spec_bytes(), n as int),
{
    numbered_line("end ", n)
}

/// The number that a decimal text spells, with a leading `-` for a
/// negative one.
pub open spec fn signed_value(text: Seq<u8>) -> int {
    if text.len() > 0 && text[0] == 45 {
        -decimal_value(text.drop_first())
    } else {
        decimal_value(text)
    }
}

/// Whether `digits` is the canonical decimal writing of a number: at least
/// one digit, all digits, and no leading zero unless it is the number zero.
pub open spec fn canonical_digits(digits: Seq<u8>) -> bool {
    &&& digits.len() >= 1
    &&& all_digits(digits)
    &&& (digits.len() > 1 ==> digits[0] != 48)
}

/// The number in a numbered line is written as `{n}` writes it: its
/// canonical decimal digits, after a `-` exactly when it is negative, and
/// they spell the number back.
pub proof fn lemma_signed_decimal(n: int)
    ensures
        signed_value(signed_decimal(n)) == n,
        n >= 0 ==> canonical_digits(signed_decimal(n)),
        n >= 0 ==> signed_decimal(n) == decimal(n as nat),
        n < 0 ==> signed_decimal(n)[0] == 45 && canonical_digits(signed_decimal(n).drop_first()),
        n > 0 ==> signed_decimal(n)[0] != 48,
{
    if n >= 0 {
        lemma_decimal_value(n as nat);
        lemma_no_leading_zero(n as nat);
    } else {
        let m = (-n) as nat;
        lemma_decimal_value(m);
        lemma_no_leading_zero(m);
        let t = signed_decimal(n);
        assert(t.drop_first() =~= decimal(m));
    }
}

/// The first digit of a positive number is not zero, and a number below ten
/// has one digit.
pub proof fn lemma_no_leading_zero(n: nat)
    ensures
        n > 0 ==> decimal(n)[0] != 48,
        decimal(n).len() > 1 ==> n >= 10 && decimal(n)[0] != 48,
    decreases n,
{
    if n >= 10 {
        lemma_no_leading_zero(n / 10);
        lemma_decimal_value(n / 10);
        assert(decimal(n)[0] == decimal(n / 10)[0]);
    }
}

/// The decimal digits of a number are digits, and they spell that number
/// back.
pub proof fn lemma_decimal_value(n: nat)
    ensures
        all_digits(decimal(n)),
        decimal_value(decimal(n)) == n,
        decimal(n).len() >= 1,
    decreases n,
{
    if n >= 10 {
        lemma_decimal_value(n / 10);
        let d = decimal(n / 10).push(digit_byte((n % 10) as int));
        assert(d.drop_last() =~= decimal(n / 10));
        assert(d.last() == 48 + n % 10);
        assert(decimal_value(d) == (n / 10) * 10 + n % 10);
        assert(decimal(n) == d);
    } else {
        let d = decimal(n);
        assert(d.drop_last() =~= Seq::<u8>::empty());
        assert(d.last() == 48 + n);
        assert(decimal_value(d) == decimal_value(d.drop_last()) * 10 + (d.last() - 48));
    }
}

} // verus!
