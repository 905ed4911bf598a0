//! Numbers and short texts as ASCII bytes.

use vstd::prelude::*;
use vstd::string::is_ascii;

verus! {

broadcast use vstd::string::is_ascii_spec_bytes;

/// The decimal digits of `n` as ASCII bytes, without leading zeros.
pub open spec fn decimal(n: nat) -> Seq<u8>
    decreases n,
{
    if n < 10 {
        seq![(48 + n) as u8]
    } else {
        decimal(n / 10).push((48 + n % 10) as u8)
    }
}

/// `count` times the ASCII digit zero.
pub open spec fn zeros(count: int) -> Seq<u8> {
    Seq::new(
        if count < 0 {
            0nat
        } else {
            count as nat
        },
        |i: int| 48u8,
    )
}

/// The decimal digits of `n`, with zeros in front of them where they are
/// fewer than `width`.
pub open spec fn zero_padded(n: nat, width: nat) -> Seq<u8> {
    zeros(width - decimal(n).len()) + decimal(n)
}

/// The bytes of a text of ASCII characters.
pub open spec fn ascii(text: Seq<char>) -> Seq<u8> {
    Seq::new(text.len(), |i: int| text[i] as u8)
}

/// `digits` from its last to its first.
spec fn backwards(digits: Seq<u8>) -> Seq<u8> {
    Seq::new(digits.len(), |i: int| digits[digits.len() - 1 - i])
}

/// A number has at least one digit.
pub proof fn lemma_decimal_len(n: nat)
    ensures
        decimal(n).len() >= 1,
    decreases n,
{
    if n >= 10 {
        lemma_decimal_len(n / 10);
    }
}

/// Appends the decimal digits of `n` to `out`, padded with zeros in
/// front to at least `width` digits.
pub fn push_decimal(out: &mut Vec<u8>, n: u64, width: usize)
    ensures
        final(out)@ == old(out)@ + zero_padded(n as nat, width as nat),
{
    let mut digits: Vec<u8> = Vec::new();
    let mut rest = n;
    while rest >= 10
        invariant
            decimal(n as nat) == decimal(rest as nat) + backwards(digits@),
        decreases rest,
    {
        let digit = 48 + (rest % 10) as u8;
        proof {
            let quotient = (rest / 10) as nat;
            assert(decimal(rest as nat) == decimal(quotient).push(digit));
            assert(backwards(digits@.push(digit)) =~= seq![digit] + backwards(digits@));
            assert(decimal(quotient).push(digit) + backwards(digits@) =~= decimal(quotient) + (
            seq![digit] + backwards(digits@)));
        }
        digits.push(digit);
        rest = rest / 10;
    }
    let digit = 48 + rest as u8;
    proof {
        assert(decimal(rest as nat) == seq![digit]);
        assert(backwards(digits@.push(digit)) =~= seq![digit] + backwards(digits@));
    }
    digits.push(digit);
    assert(decimal(n as nat) == backwards(digits@));
    let mut k: usize = digits.len();
    while k < width
        invariant
            digits@.len() <= k,
            k == digits@.len() || k <= width,
            out@ == old(out)@ + zeros(k - digits@.len()),
        decreases width - k,
    {
        out.push(48);
        k += 1;
        assert(out@ =~= old(out)@ + zeros(k - digits@.len()));
    }
    assert(out@ =~= old(out)@ + zeros(width - digits@.len()));
    let ghost padded = out@;
    let mut i: usize = digits.len();
    while i > 0
        invariant
            i <= digits@.len(),
            out@ == padded + backwards(digits@).subrange(0, digits@.len() - i),
        decreases i,
    {
        i -= 1;
        out.push(digits[i]);
        assert(out@ =~= padded + backwards(digits@).subrange(0, digits@.len() - i));
    }
    assert(out@ =~= old(out)@ + zero_padded(n as nat, width as nat));
}

/// Appends the bytes of an ASCII text to `out`.
pub(crate) fn push_ascii(out: &mut Vec<u8>, text: &str)
    requires
        is_ascii(text),
    ensures
        final(out)@ == old(out)@ + ascii(text@),
{
    out.extend_from_slice(text.as_bytes());
    assert(out@ =~= old(out)@ + ascii(text@));
}

/// The decimal digits of `n` in groups of three, with a comma between
/// the groups.
pub open spec fn grouped(n: nat) -> Seq<u8>
    decreases n,
{
    if n < 1000 {
        decimal(n)
    } else {
        grouped(n / 1000) + seq![44u8] + zero_padded(n % 1000, 3)
    }
}

/// Appends the decimal digits of `n` to `out`, in groups of three with a
/// comma between the groups.
pub fn push_grouped(out: &mut Vec<u8>, n: u64)
    ensures
        final(out)@ == old(out)@ + grouped(n as nat),
    decreases n,
{
    if n < 1000 {
        push_decimal(out, n, 0);
        proof {
            lemma_decimal_len(n as nat);
            assert(zero_padded(n as nat, 0) =~= decimal(n as nat));
        }
    } else {
        push_grouped(out, n / 1000);
        out.push(44);
        push_decimal(out, n % 1000, 3);
        assert(out@ =~= old(out)@ + grouped(n as nat));
    }
}

} // verus!
