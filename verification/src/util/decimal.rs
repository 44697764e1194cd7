//! Zero-padded decimal rendering of counters.
use vstd::prelude::*;

use crate::util::text::string_push;

verus! {

pub const DECIMAL_DIGITS: [char; 10] = ['0', '1', '2', '3', '4', '5', '6', '7', '8', '9'];

/// Decimal digits of `n`, most significant first, without leading zeros.
pub open spec fn decimal(n: nat) -> Seq<char>
    decreases n,
{
    if n < 10 {
        seq![DECIMAL_DIGITS@[n as int]]
    } else {
        decimal(n / 10) + seq![DECIMAL_DIGITS@[(n % 10) as int]]
    }
}

/// Decimal digits of `n`, left-padded with zeros to at least `width` digits.
pub open spec fn padded_decimal(n: nat, width: nat) -> Seq<char> {
    if decimal(n).len() < width {
        Seq::new((width - decimal(n).len()) as nat, |i: int| '0') + decimal(n)
    } else {
        decimal(n)
    }
}

/// Ten raised to `k`.
pub open spec fn ten_pow(k: nat) -> nat
    decreases k,
{
    if k == 0 {
        1
    } else {
        10 * ten_pow((k - 1) as nat)
    }
}

proof fn lemma_decimal_len_bound(n: nat, k: nat)
    requires
        n < ten_pow(k),
    ensures
        decimal(n).len() <= k + 1,
    decreases n,
{
    if n >= 10 && k > 0 {
        lemma_decimal_len_bound(n / 10, (k - 1) as nat);
    }
}

fn digit_count(n: u64) -> (c: usize)
    ensures
        c == decimal(n as nat).len(),
    decreases n,
{
    proof {
        reveal_with_fuel(ten_pow, 21);
        assert(ten_pow(20) == 100000000000000000000nat);
        lemma_decimal_len_bound(n as nat, 20);
    }
    if n < 10 {
        1
    } else {
        let c = digit_count(n / 10);
        c + 1
    }
}

fn push_digits(s: &mut String, n: u64)
    ensures
        final(s)@ == old(s)@ + decimal(n as nat),
    decreases n,
{
    if n >= 10 {
        push_digits(s, n / 10);
    }
    let ghost mid = s@;
    string_push(s, DECIMAL_DIGITS[(n % 10) as usize]);
    assert(s@ =~= old(s)@ + decimal(n as nat));
}

/// Appends the zero-padded decimal form of `n`.
pub fn push_padded_decimal(s: &mut String, n: u64, width: usize)
    ensures
        final(s)@ == old(s)@ + padded_decimal(n as nat, width as nat),
{
    let count = digit_count(n);
    let ghost start = s@;
    if count < width {
        let zeros = width - count;
        let mut i: usize = 0;
        while i < zeros
            invariant
                i <= zeros,
                s@ =~= start + Seq::new(i as nat, |k: int| '0'),
            decreases zeros - i,
        {
            string_push(s, '0');
            i = i + 1;
        }
    }
    let ghost before_digits = s@;
    push_digits(s, n);
    assert(s@ =~= start + padded_decimal(n as nat, width as nat));
}

} // verus!

verus! {

/// Lower-case hexadecimal digits of `n`, most significant first, without
/// leading zeros.
pub open spec fn hex_numeral(n: nat) -> Seq<char>
    decreases n,
{
    if n < 16 {
        seq![crate::util::encoding::HEX_DIGITS@[n as int]]
    } else {
        hex_numeral(n / 16) + seq![crate::util::encoding::HEX_DIGITS@[(n % 16) as int]]
    }
}

/// Appends the lower-case hexadecimal form of `n`.
pub fn push_hex(s: &mut String, n: u64)
    ensures
        final(s)@ == old(s)@ + hex_numeral(n as nat),
    decreases n,
{
    if n >= 16 {
        push_hex(s, n / 16);
    }
    string_push(s, crate::util::encoding::HEX_DIGITS[(n % 16) as usize]);
    assert(s@ =~= old(s)@ + hex_numeral(n as nat));
}

} // verus!

verus! {

/// The decimal form of `n` is never empty, and has two digits or more from 10 on.
pub proof fn lemma_decimal_len(n: nat)
    ensures
        decimal(n).len() >= 1,
        n >= 10 ==> decimal(n).len() >= 2,
        n >= 1 ==> decimal(n)[0] != '0',
    decreases n,
{
    if n >= 10 {
        lemma_decimal_len(n / 10);
        assert(decimal(n)[0] == decimal(n / 10)[0]);
    }
}

/// Different numbers have different decimal forms.
pub proof fn lemma_decimal_injective(a: nat, b: nat)
    requires
        decimal(a) == decimal(b),
    ensures
        a == b,
    decreases a,
{
    lemma_decimal_len(a);
    lemma_decimal_len(b);
    if a < 10 && b < 10 {
        assert(decimal(a)[0] == DECIMAL_DIGITS@[a as int]);
        assert(decimal(b)[0] == DECIMAL_DIGITS@[b as int]);
    } else if a >= 10 && b >= 10 {
        let da = decimal(a);
        let db = decimal(b);
        assert(da.last() == DECIMAL_DIGITS@[(a % 10) as int]);
        assert(db.last() == DECIMAL_DIGITS@[(b % 10) as int]);
        assert(da.drop_last() =~= decimal(a / 10));
        assert(db.drop_last() =~= decimal(b / 10));
        lemma_decimal_injective(a / 10, b / 10);
    } else {
        assert(decimal(a).len() != decimal(b).len());
    }
}

/// Different numbers have different zero-padded decimal forms.
pub proof fn lemma_padded_decimal_injective(a: nat, b: nat, w: nat)
    requires
        padded_decimal(a, w) == padded_decimal(b, w),
    ensures
        a == b,
{
    let da = decimal(a);
    let db = decimal(b);
    lemma_decimal_len(a);
    lemma_decimal_len(b);
    let pa = padded_decimal(a, w);
    if da.len() == db.len() {
        if da.len() < w {
            assert(pa.subrange(w - da.len(), w as int) =~= da);
            assert(pa.subrange(w - db.len(), w as int) =~= db);
        }
        lemma_decimal_injective(a, b);
    } else if da.len() < db.len() {
        lemma_padded_first_digit(a, b, w);
    } else {
        lemma_padded_first_digit(b, a, w);
    }
}

proof fn lemma_padded_first_digit(a: nat, b: nat, w: nat)
    requires
        decimal(a).len() < decimal(b).len(),
    ensures
        padded_decimal(a, w) != padded_decimal(b, w),
{
    let da = decimal(a);
    let db = decimal(b);
    lemma_decimal_len(a);
    lemma_decimal_len(b);
    assert(b >= 10);
    if db.len() < w {
        let i = w - db.len();
        assert(padded_decimal(b, w)[i] == db[0]);
        if da.len() < w {
            assert(padded_decimal(a, w)[i] == '0');
        }
    } else {
        assert(padded_decimal(b, w).len() == db.len());
    }
}

} // verus!
