use vstd::prelude::*;
use vstd::string::StringSliceAdditionalSpecFns;

verus! {

pub open spec fn is_digit(b: u8) -> bool {
    48 <= b <= 57
}

pub open spec fn all_digits(b: Seq<u8>) -> bool {
    forall|i: int| 0 <= i < b.len() ==> is_digit(#[trigger] b[i])
}

/// The value of a run of decimal digits, most significant first.
pub open spec fn digits_value(b: Seq<u8>) -> int
    decreases b.len(),
{
    if b.len() == 0 {
        0
    } else {
        digits_value(b.drop_last()) * 10 + (b.last() - 48)
    }
}

/// The digits of an unsigned decimal numeral: one leading `+` is dropped.
pub open spec fn unsigned_body(b: Seq<u8>) -> Seq<u8> {
    if b.len() > 0 && b[0] == 43 {
        b.drop_first()
    } else {
        b
    }
}

/// What reading `b` as an unsigned 64-bit decimal numeral gives: an optional
/// `+`, then one or more digits whose value fits.
pub open spec fn parsed_u64(b: Seq<u8>) -> Option<u64> {
    let d = unsigned_body(b);
    if d.len() > 0 && all_digits(d) && digits_value(d) <= u64::MAX {
        Some(digits_value(d) as u64)
    } else {
        None
    }
}

proof fn lemma_digits_value_nonneg(b: Seq<u8>)
    requires
        all_digits(b),
    ensures
        digits_value(b) >= 0,
    decreases b.len(),
{
    if b.len() > 0 {
        lemma_digits_value_nonneg(b.drop_last());
    }
}

/// Reads `s` as an unsigned 64-bit decimal numeral; nothing where it is not one
/// or its value does not fit.
pub fn parse_u64(s: &str) -> (r: Option<u64>)
    ensures
        r == parsed_u64(s.spec_bytes()),
{
    let b = s.as_bytes();
    let ghost bs = b@;
    let n = b.len();
    let mut start: usize = 0;
    if n > 0 && b[0] == 43 {
        start = 1;
    }
    let ghost d = unsigned_body(bs);
    assert(d == bs.subrange(start as int, n as int));
    if start >= n {
        return None;
    }
    let mut acc: u64 = 0;
    let mut overflow = false;
    let mut i: usize = start;
    while i < n
        invariant
            b@ == bs,
            n == bs.len(),
            start <= i <= n,
            d == bs.subrange(start as int, n as int),
            d == unsigned_body(bs),
            bs == s.spec_bytes(),
            all_digits(d.take(i - start)),
            !overflow ==> acc == digits_value(d.take(i - start)),
            overflow ==> digits_value(d.take(i - start)) > u64::MAX,
        decreases n - i,
    {
        let c = b[i];
        if !(48 <= c && c <= 57) {
            assert(!is_digit(d[i - start]));
            assert(!all_digits(d));
            return None;
        }
        let ghost k = i - start;
        assert(d.take(k + 1).drop_last() == d.take(k));
        proof {
            lemma_digits_value_nonneg(d.take(k));
        }
        let dv = (c - 48) as u64;
        if !overflow {
            match acc.checked_mul(10) {
                Some(m) => match m.checked_add(dv) {
                    Some(v) => {
                        acc = v;
                    },
                    None => {
                        overflow = true;
                    },
                },
                None => {
                    overflow = true;
                },
            }
        } else {
            assert(digits_value(d.take(k)) * 10 >= digits_value(d.take(k))) by (nonlinear_arith)
                requires
                    digits_value(d.take(k)) >= 0,
            ;
        }
        i = i + 1;
    }
    assert(d.take(n - start) == d);
    if overflow {
        None
    } else {
        Some(acc)
    }
}

} // verus!
