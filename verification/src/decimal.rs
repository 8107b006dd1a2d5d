//! ASCII decimal numbers as they appear in responses and in command arguments.

use vstd::prelude::*;

verus! {

/// The ASCII code of the digit `0`.
pub const ZERO: u8 = 0x30;

/// True for the ASCII codes of `0` to `9`.
pub open spec fn is_digit(b: u8) -> bool {
    0x30 <= b <= 0x39
}

/// True when every byte of `s` is an ASCII digit.
pub open spec fn all_digits(s: Seq<u8>) -> bool {
    forall|i: int| 0 <= i < s.len() ==> is_digit(#[trigger] s[i])
}

/// The number that a run of ASCII digits writes, most significant digit first.
pub open spec fn digits_value(s: Seq<u8>) -> nat
    decreases s.len(),
{
    if s.len() == 0 {
        0
    } else {
        digits_value(s.drop_last()) * 10 + (s.last() - 0x30) as nat
    }
}

/// What a field holds when it is read as an unsigned number: the field must be
/// a non-empty run of digits whose value fits in 32 bits.
pub open spec fn decimal_value(s: Seq<u8>) -> Option<u32> {
    if s.len() > 0 && all_digits(s) && digits_value(s) <= u32::MAX {
        Some(digits_value(s) as u32)
    } else {
        None
    }
}

/// The shortest decimal writing of `n`.
pub open spec fn decimal_digits(n: nat) -> Seq<u8>
    decreases n,
{
    if n < 10 {
        seq![(0x30 + n) as u8]
    } else {
        decimal_digits(n / 10).push((0x30 + n % 10) as u8)
    }
}

/// The decimal writing of `n` padded with zeros on the left to four digits.
/// A number of five digits or more is written in full.
pub open spec fn padded4(n: nat) -> Seq<u8> {
    if n < 10000 {
        seq![
            (0x30 + n / 1000) as u8,
            (0x30 + (n / 100) % 10) as u8,
            (0x30 + (n / 10) % 10) as u8,
            (0x30 + n % 10) as u8,
        ]
    } else {
        decimal_digits(n)
    }
}

/// A longer run of digits never writes a smaller number than its prefix.
pub proof fn lemma_prefix_value(s: Seq<u8>, k: int)
    requires
        0 <= k <= s.len(),
        all_digits(s),
    ensures
        digits_value(s.take(k)) <= digits_value(s),
    decreases s.len() - k,
{
    if k == s.len() {
        assert(s.take(k) =~= s);
    } else {
        lemma_prefix_value(s, k + 1);
        assert(s.take(k + 1).drop_last() =~= s.take(k));
        assert(is_digit(s[k]));
    }
}

/// Reads a whole field as an unsigned decimal number.
pub fn parse_unsigned(b: &[u8]) -> (r: Option<u32>)
    ensures
        r == decimal_value(b@),
{
    let n: usize = b.len();
    if n == 0 {
        return None;
    }
    let mut acc: u32 = 0;
    let mut i: usize = 0;
    while i < n
        invariant
            n == b@.len(),
            i <= n,
            all_digits(b@.take(i as int)),
            acc as nat == digits_value(b@.take(i as int)),
        decreases n - i,
    {
        let c: u8 = b[i];
        proof {
            assert(b@.take(i + 1).drop_last() =~= b@.take(i as int));
            assert(b@.take(i + 1).last() == c);
        }
        if c < 0x30 || c > 0x39 {
            assert(!is_digit(b@[i as int]));
            return None;
        }
        let next: Option<u32> = match acc.checked_mul(10) {
            Some(m) => m.checked_add((c - 0x30) as u32),
            None => None,
        };
        match next {
            Some(v) => {
                acc = v;
            },
            None => {
                proof {
                    assert(digits_value(b@.take(i + 1)) > u32::MAX);
                    if all_digits(b@) {
                        lemma_prefix_value(b@, i + 1);
                    }
                }
                return None;
            },
        }
        i = i + 1;
    }
    proof {
        assert(b@.take(n as int) =~= b@);
    }
    Some(acc)
}

/// Appends the shortest decimal writing of `n`.
pub fn push_decimal(out: &mut Vec<u8>, n: u32)
    ensures
        final(out)@ == old(out)@ + decimal_digits(n as nat),
    decreases n,
{
    if n >= 10 {
        push_decimal(out, n / 10);
    }
    out.push(0x30 + (n % 10) as u8);
    assert(out@ =~= old(out)@ + decimal_digits(n as nat));
}

/// Appends `n` as a command argument: four digits, zero-padded, or all of its
/// digits where four do not hold it.
pub fn push_padded4(out: &mut Vec<u8>, n: u32)
    ensures
        final(out)@ == old(out)@ + padded4(n as nat),
{
    if n < 10000 {
        out.push(0x30 + (n / 1000) as u8);
        out.push(0x30 + ((n / 100) % 10) as u8);
        out.push(0x30 + ((n / 10) % 10) as u8);
        out.push(0x30 + (n % 10) as u8);
        assert(out@ =~= old(out)@ + padded4(n as nat));
    } else {
        push_decimal(out, n);
    }
}

/// The shortest writing of a number is a run of digits that writes it.
pub proof fn lemma_decimal_digits(n: nat)
    ensures
        decimal_digits(n).len() > 0,
        all_digits(decimal_digits(n)),
        digits_value(decimal_digits(n)) == n,
    decreases n,
{
    let s = decimal_digits(n);
    if n < 10 {
        assert(s.drop_last() =~= Seq::<u8>::empty());
        assert(digits_value(s.drop_last()) == 0);
    } else {
        lemma_decimal_digits(n / 10);
        assert(s.drop_last() =~= decimal_digits(n / 10));
    }
}

/// A number that was written as a command argument reads back as itself.
pub proof fn lemma_padded4_reads_back(n: u32)
    ensures
        decimal_value(padded4(n as nat)) == Some(n),
{
    let s = padded4(n as nat);
    if n < 10000 {
        let s3 = s.drop_last();
        let s2 = s3.drop_last();
        let s1 = s2.drop_last();
        assert(s1.drop_last() =~= Seq::<u8>::empty());
        assert(digits_value(s1.drop_last()) == 0);
        assert(digits_value(s1) == n / 1000);
        assert(digits_value(s2) == n / 100);
        assert(digits_value(s3) == n / 10);
        assert(digits_value(s) == n);
    } else {
        lemma_decimal_digits(n as nat);
    }
}

} // verus!
