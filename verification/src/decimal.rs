//! The decimal text representation of integers: the specification that
//! `GlobalBuffer::int_to_ascii` and the diagnostic rendering are proved
//! against, together with the parsing functions and the round-trip law.

use vstd::arithmetic::div_mod::{lemma_fundamental_div_mod, lemma_multiply_divide_lt};
use vstd::prelude::*;

verus! {

/// The decimal digits of `n`, most significant first, as ASCII bytes.
pub open spec fn dec_digits(n: nat) -> Seq<u8>
    decreases n,
{
    if n < 10 {
        seq![(48 + n) as u8]
    } else {
        dec_digits(n / 10) + seq![(48 + n % 10) as u8]
    }
}

/// The decimal text of `v`: a leading `-` and then the digits of its
/// absolute value when `v` is negative, the digits alone otherwise.
pub open spec fn int_repr(v: int) -> Seq<u8> {
    if v < 0 {
        seq![45u8] + dec_digits((-v) as nat)
    } else {
        dec_digits(v as nat)
    }
}

/// The value of an unsigned digit string, most significant digit first.
pub open spec fn parse_udec(s: Seq<u8>) -> int
    decreases s.len(),
{
    if s.len() == 0 {
        0
    } else {
        parse_udec(s.drop_last()) * 10 + (s.last() - 48)
    }
}

/// The value of a decimal string with an optional leading `-`.
pub open spec fn parse_dec(s: Seq<u8>) -> int {
    if s.len() > 0 && s[0] == 45 {
        -parse_udec(s.subrange(1, s.len() as int))
    } else {
        parse_udec(s)
    }
}

/// The decimal digit bytes of `n`, most significant first.
pub fn dec_bytes_u64(n: u64) -> (r: Vec<u8>)
    ensures
        r@ == dec_digits(n as nat),
{
    let mut digits: Vec<u8> = Vec::new();
    let mut cur: u64 = n;
    loop
        invariant_except_break
            digits@.len() == 0 ==> cur == n,
            digits@.len() > 0 ==> cur > 0 && dec_digits(n as nat) == dec_digits(cur as nat)
                + digits@.reverse(),
        ensures
            dec_digits(n as nat) == digits@.reverse(),
        decreases cur,
    {
        let d: u8 = 48 + (cur % 10) as u8;
        let ghost pre = digits@;
        let ghost precur = cur as nat;
        digits.push(d);
        cur = cur / 10;
        proof {
            assert(digits@.reverse() =~= seq![d] + pre.reverse());
            if pre.len() == 0 {
                if cur == 0 {
                    assert(dec_digits(n as nat) =~= digits@.reverse());
                } else {
                    assert(dec_digits(n as nat) =~= dec_digits(cur as nat) + digits@.reverse());
                }
            } else {
                if cur == 0 {
                    assert(dec_digits(precur) =~= seq![d]);
                    assert(dec_digits(n as nat) =~= digits@.reverse());
                } else {
                    assert(dec_digits(precur) =~= dec_digits(cur as nat) + seq![d]);
                    assert(dec_digits(cur as nat) + seq![d] + pre.reverse() =~= dec_digits(
                        cur as nat,
                    ) + digits@.reverse());
                }
            }
        }
        if cur == 0 {
            break;
        }
    }
    let mut r: Vec<u8> = Vec::new();
    let mut i: usize = digits.len();
    while i > 0
        invariant
            i <= digits@.len(),
            r@.len() == digits@.len() - i,
            forall|k: int| 0 <= k < r@.len() ==> r@[k] == digits@[digits@.len() - 1 - k],
        decreases i,
    {
        i = i - 1;
        r.push(digits[i]);
    }
    proof {
        assert(r@ =~= digits@.reverse());
    }
    r
}

/// Every byte of `dec_digits(n)` is an ASCII digit, and there is at least one.
pub proof fn lemma_dec_digits_shape(n: nat)
    ensures
        dec_digits(n).len() >= 1,
        forall|i: int| 0 <= i < dec_digits(n).len() ==> 48 <= #[trigger] dec_digits(n)[i] <= 57,
    decreases n,
{
    if n >= 10 {
        lemma_dec_digits_shape(n / 10);
    }
}

/// Parsing the digit string of `n` yields `n` again.
pub proof fn lemma_udec_round_trip(n: nat)
    ensures
        parse_udec(dec_digits(n)) == n,
    decreases n,
{
    if n < 10 {
        assert(dec_digits(n).drop_last() =~= Seq::<u8>::empty());
        assert(dec_digits(n).last() == (48 + n) as u8);
        assert(parse_udec(dec_digits(n)) == parse_udec(Seq::<u8>::empty()) * 10 + ((48 + n) as u8
            - 48));
    } else {
        lemma_udec_round_trip(n / 10);
        assert(dec_digits(n).drop_last() =~= dec_digits(n / 10));
        assert(dec_digits(n).last() == (48 + n % 10) as u8);
        assert(parse_udec(dec_digits(n)) == parse_udec(dec_digits(n / 10)) * 10 + ((48 + n % 10)
            as u8 - 48));
        lemma_fundamental_div_mod(n as int, 10);
    }
}

/// Powers of ten, for bounding the length of digit strings.
pub open spec fn pow10(k: nat) -> nat
    decreases k,
{
    if k == 0 {
        1
    } else {
        10 * pow10((k - 1) as nat)
    }
}

/// A number below `10^k` has at most `k` decimal digits.
pub proof fn lemma_dec_digits_len(n: nat, k: nat)
    requires
        k >= 1,
        n < pow10(k),
    ensures
        dec_digits(n).len() <= k,
    decreases n,
{
    if n >= 10 {
        assert(pow10(k) == 10 * pow10((k - 1) as nat));
        if k == 1 {
            assert(pow10(1nat) == 10);
        }
        lemma_multiply_divide_lt(n as int, 10, pow10((k - 1) as nat) as int);
        lemma_dec_digits_len(n / 10, (k - 1) as nat);
    }
}

/// The decimal text of any `i32` other than the smallest holds at most
/// eleven bytes: a possible sign and at most ten digits.
pub proof fn lemma_int_repr_i32_len(v: int)
    requires
        i32::MIN < v <= i32::MAX,
    ensures
        int_repr(v).len() <= 11,
{
    let n = if v < 0 {
        (-v) as nat
    } else {
        v as nat
    };
    assert(pow10(10nat) == 10000000000) by {
        reveal_with_fuel(pow10, 11);
    }
    lemma_dec_digits_len(n, 10);
}

/// Law: formatting an integer as decimal text and parsing that text back
/// yields the integer, and the text starts with `-` exactly when the
/// integer is negative.
pub proof fn lemma_int_repr_round_trip(v: int)
    ensures
        parse_dec(int_repr(v)) == v,
        int_repr(v).len() >= 1,
        (int_repr(v)[0] == 45) <==> v < 0,
{
    if v < 0 {
        let n = (-v) as nat;
        lemma_udec_round_trip(n);
        lemma_dec_digits_shape(n);
        assert(int_repr(v).subrange(1, int_repr(v).len() as int) =~= dec_digits(n));
    } else {
        lemma_udec_round_trip(v as nat);
        lemma_dec_digits_shape(v as nat);
    }
}

} // verus!
