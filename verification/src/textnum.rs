//! Decimal rendering of class indices.

use vstd::prelude::*;

use vstd::string::StrSliceExecFns;
use vstd::string::StringExecFns;

verus! {

/// The decimal digit character for `d` (`0 <= d <= 9`).
pub open spec fn digit_char(d: int) -> char {
    if d == 0 {
        '0'
    } else if d == 1 {
        '1'
    } else if d == 2 {
        '2'
    } else if d == 3 {
        '3'
    } else if d == 4 {
        '4'
    } else if d == 5 {
        '5'
    } else if d == 6 {
        '6'
    } else if d == 7 {
        '7'
    } else if d == 8 {
        '8'
    } else {
        '9'
    }
}

/// The decimal rendering of `n`, without leading zeros (just `0` for zero).
pub open spec fn dec_str(n: nat) -> Seq<char>
    decreases n,
{
    if n < 10 {
        seq![digit_char(n as int)]
    } else {
        dec_str(n / 10).push(digit_char((n % 10) as int))
    }
}

/// The digit characters of `ds`, last digit first.
spec fn rev_chars(ds: Seq<u8>) -> Seq<char>
    decreases ds.len(),
{
    if ds.len() == 0 {
        Seq::empty()
    } else {
        seq![digit_char(ds.last() as int)] + rev_chars(ds.drop_last())
    }
}

proof fn lemma_rev_chars_first(ds: Seq<u8>)
    requires
        ds.len() > 0,
    ensures
        rev_chars(ds) == rev_chars(ds.drop_first()) + seq![digit_char(ds[0] as int)],
    decreases ds.len(),
{
    if ds.len() == 1 {
        assert(ds.drop_last() =~= ds.drop_first());
        assert(rev_chars(ds) =~= rev_chars(ds.drop_first()) + seq![digit_char(ds[0] as int)]);
    } else {
        lemma_rev_chars_first(ds.drop_last());
        assert(ds.drop_last().drop_first() =~= ds.drop_first().drop_last());
        assert(ds.drop_last()[0] == ds[0]);
        assert(ds.drop_first().last() == ds.last());
        assert(rev_chars(ds) =~= rev_chars(ds.drop_first()) + seq![digit_char(ds[0] as int)]);
    }
}

/// Render `n` in decimal.
pub fn decimal_string(n: u64) -> (s: String)
    ensures
        s@ == dec_str(n as nat),
{
    let digit_table: &str = "0123456789";
    proof {
        reveal_strlit("0123456789");
    }
    if n == 0 {
        let z: String = digit_table.substring_ascii(0, 1).to_owned();
        proof {
            assert(z@ =~= dec_str(0));
        }
        return z;
    }
    let mut digits: Vec<u8> = Vec::new();
    let mut m: u64 = n;
    while m > 0
        invariant
            m > 0 ==> dec_str(n as nat) == dec_str(m as nat) + rev_chars(digits@),
            m == 0 ==> dec_str(n as nat) == rev_chars(digits@),
            forall|j: int| 0 <= j < digits@.len() ==> #[trigger] digits@[j] < 10,
        decreases m,
    {
        let d: u8 = (m % 10) as u8;
        let ghost old_digits = digits@;
        digits.push(d);
        proof {
            assert(digits@.drop_last() =~= old_digits);
            assert(rev_chars(digits@) == seq![digit_char(d as int)] + rev_chars(old_digits));
            if m >= 10 {
                assert(dec_str(m as nat) == dec_str((m / 10) as nat).push(
                    digit_char((m % 10) as int),
                ));
                assert(dec_str((m / 10) as nat) + (seq![digit_char(d as int)] + rev_chars(
                    old_digits,
                )) =~= (dec_str((m / 10) as nat).push(digit_char((m % 10) as int))) + rev_chars(
                    old_digits,
                ));
            } else {
                assert(dec_str(m as nat) =~= seq![digit_char(d as int)]);
                assert(dec_str(m as nat) + rev_chars(old_digits) =~= seq![digit_char(d as int)]
                    + rev_chars(old_digits));
            }
        }
        m = m / 10;
    }
    let mut out: String = String::new();
    let mut k: usize = digits.len();
    proof {
        assert(digits@.skip(k as int) =~= Seq::<u8>::empty());
        assert(out@ =~= rev_chars(digits@.skip(k as int)));
    }
    while k > 0
        invariant
            k <= digits.len(),
            forall|j: int| 0 <= j < digits@.len() ==> #[trigger] digits@[j] < 10,
            out@ == rev_chars(digits@.skip(k as int)),
            digit_table@ =~= "0123456789"@,
            digit_table.is_ascii(),
        decreases k,
    {
        let d: u8 = digits[k - 1];
        let du: usize = d as usize;
        proof {
            reveal_strlit("0123456789");
        }
        let piece: &str = digit_table.substring_ascii(du, du + 1);
        proof {
            assert(piece@ =~= seq![digit_char(d as int)]);
        }
        out.append(piece);
        proof {
            let tail = digits@.skip(k - 1);
            assert(tail[0] == digits@[k - 1]);
            assert(tail.drop_first() =~= digits@.skip(k as int));
            lemma_rev_chars_first(tail);
        }
        k = k - 1;
    }
    proof {
        assert(digits@.skip(0) =~= digits@);
    }
    out
}

} // verus!
