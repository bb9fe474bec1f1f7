use vstd::prelude::*;
use vstd::string::StringSliceAdditionalSpecFns;

verus! {

/// Why a text is not a permission value in octal.
#[derive(Clone, Copy, Debug, PartialEq, Eq)]
pub enum OctalError {
    /// The text is empty.
    Empty,
    /// A character other than `0`..=`7` (after one optional leading `+`), or no digit at all.
    InvalidDigit,
    /// The digits are valid but their value does not fit in 32 bits.
    Overflow,
}

pub open spec fn is_octal_digit(c: u8) -> bool {
    0x30 <= c <= 0x37
}

/// The digits of a text: all of it, but for one leading `+`.
pub open spec fn octal_digits(b: Seq<u8>) -> Seq<u8> {
    if b.len() > 0 && b[0] == 0x2b {
        b.drop_first()
    } else {
        b
    }
}

/// The value of a sequence of octal digits, most significant first.
pub open spec fn octal_value(d: Seq<u8>) -> nat
    decreases d.len(),
{
    if d.len() == 0 {
        0
    } else {
        octal_value(d.drop_last()) * 8 + (d.last() - 0x30) as nat
    }
}

/// What reading the bytes `b` as an unsigned 32-bit octal number gives.
pub open spec fn parse_octal_spec(b: Seq<u8>) -> Result<u32, OctalError> {
    let d = octal_digits(b);
    if b.len() == 0 {
        Err(OctalError::Empty)
    } else if d.len() == 0 || exists|i: int| 0 <= i < d.len() && !is_octal_digit(#[trigger] d[i]) {
        Err(OctalError::InvalidDigit)
    } else if octal_value(d) > u32::MAX {
        Err(OctalError::Overflow)
    } else {
        Ok(octal_value(d) as u32)
    }
}

proof fn lemma_prefix_value_le(d: Seq<u8>, j: int)
    requires
        0 <= j <= d.len(),
        forall|i: int| 0 <= i < d.len() ==> is_octal_digit(#[trigger] d[i]),
    ensures
        octal_value(d.subrange(0, j)) <= octal_value(d),
    decreases d.len(),
{
    if j == d.len() {
        assert(d.subrange(0, j) =~= d);
    } else {
        let p = d.drop_last();
        assert(p.subrange(0, j) =~= d.subrange(0, j));
        lemma_prefix_value_le(p, j);
    }
}

/// Reads a permission value written in octal, such as `644` or `+0755`.
pub fn parse_octal(s: &str) -> (r: Result<u32, OctalError>)
    ensures
        r == parse_octal_spec(s.spec_bytes()),
{
    let b = s.as_bytes();
    let n = b.len();
    if n == 0 {
        return Err(OctalError::Empty);
    }
    let start: usize = if b[0] == 0x2b {
        1
    } else {
        0
    };
    let ghost d = octal_digits(b@);
    assert(d =~= b@.subrange(start as int, n as int));
    if start == n {
        return Err(OctalError::InvalidDigit);
    }
    let mut i: usize = start;
    while i < n
        invariant
            start <= i <= n,
            n == b@.len(),
            b@ == s.spec_bytes(),
            d == octal_digits(b@),
            d =~= b@.subrange(start as int, n as int),
            forall|k: int| 0 <= k < i - start ==> is_octal_digit(#[trigger] d[k]),
        decreases n - i,
    {
        assert(d[i - start] == b@[i as int]);
        if b[i] < 0x30 || b[i] > 0x37 {
            assert(!is_octal_digit(d[i - start]));
            return Err(OctalError::InvalidDigit);
        }
        i = i + 1;
    }
    let mut acc: u32 = 0;
    i = start;
    while i < n
        invariant
            start <= i <= n,
            n == b@.len(),
            b@ == s.spec_bytes(),
            d == octal_digits(b@),
            d =~= b@.subrange(start as int, n as int),
            forall|k: int| 0 <= k < d.len() ==> is_octal_digit(#[trigger] d[k]),
            acc == octal_value(d.subrange(0, i - start)),
        decreases n - i,
    {
        assert(d[i - start] == b@[i as int]);
        assert(is_octal_digit(d[i - start]));
        let digit: u32 = (b[i] - 0x30) as u32;
        let ghost p = d.subrange(0, i - start + 1);
        assert(p.drop_last() =~= d.subrange(0, i - start));
        assert(p.last() == b[i as int]);
        assert(octal_value(p) == acc * 8 + digit);
        if acc > (u32::MAX - digit) / 8 {
            assert(acc * 8 + digit > u32::MAX) by (nonlinear_arith)
                requires
                    acc > (u32::MAX - digit) / 8,
                    digit <= 7,
            ;
            proof {
                lemma_prefix_value_le(d, i - start + 1);
            }
            return Err(OctalError::Overflow);
        }
        assert(acc * 8 + digit <= u32::MAX) by (nonlinear_arith)
            requires
                acc <= (u32::MAX - digit) / 8,
                digit <= 7,
        ;
        acc = acc * 8 + digit;
        i = i + 1;
    }
    assert(d.subrange(0, d.len() as int) =~= d);
    Ok(acc)
}

} // verus!
