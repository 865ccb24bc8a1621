//! Arbitrary-precision signed integers, stored as base-1000 limbs.
//!
//! The spelling algorithm reads a number group of three decimal digits at
//! a time, so the representation keeps exactly those groups: a sign and a
//! little-endian vector of limbs, each below one thousand.

use vstd::arithmetic::div_mod::*;
use vstd::arithmetic::mul::*;
use vstd::arithmetic::power::*;
use vstd::prelude::*;
use vstd::string::StrSliceExecFns;

verus! {

/// One thousand raised to the given power.
pub open spec fn pow1000(p: nat) -> int {
    pow(1000, p)
}

/// Ten raised to the given power.
pub open spec fn pow10(e: nat) -> int {
    pow(10, e)
}

/// The integer denoted by a little-endian sequence of base-1000 limbs.
pub open spec fn limbs_value(s: Seq<u16>) -> int
    decreases s.len(),
{
    if s.len() == 0 {
        0
    } else {
        s[0] + 1000 * limbs_value(s.drop_first())
    }
}

/// Every limb is a proper base-1000 digit.
pub open spec fn limbs_in_range(s: Seq<u16>) -> bool {
    forall|i: int| 0 <= i < s.len() ==> s[i] < 1000
}

/// A signed arbitrary-precision integer. Zero is represented by an empty
/// limb vector with a positive sign, so every integer has exactly one
/// well-formed representation.
pub struct BigNum {
    pub negative: bool,
    pub limbs: Vec<u16>,
}

impl BigNum {
    /// Limbs in range, no leading zero limb, and no negative zero.
    pub open spec fn wf(&self) -> bool {
        &&& limbs_in_range(self.limbs@)
        &&& self.limbs@.len() > 0 ==> self.limbs@.last() != 0
        &&& self.negative ==> self.limbs@.len() > 0
    }

    /// The integer this value denotes.
    pub open spec fn value(&self) -> int {
        if self.negative {
            -limbs_value(self.limbs@)
        } else {
            limbs_value(self.limbs@)
        }
    }
}

/// Peeling the most significant limb off a non-empty limb sequence.
pub proof fn lemma_limbs_value_split_last(s: Seq<u16>)
    requires
        s.len() >= 1,
    ensures
        limbs_value(s) == limbs_value(s.drop_last()) + s.last() * pow1000((s.len() - 1) as nat),
    decreases s.len(),
{
    if s.len() == 1 {
        assert(s.drop_last() =~= Seq::<u16>::empty());
        assert(s.drop_first() =~= Seq::<u16>::empty());
        assert(pow1000(0) == 1) by {
            reveal_with_fuel(pow, 2);
        }
    } else {
        let t = s.drop_first();
        lemma_limbs_value_split_last(t);
        assert(t.drop_last() =~= s.drop_last().drop_first());
        assert(t.last() == s.last());
        let p = pow1000((s.len() - 2) as nat);
        assert(pow1000((s.len() - 1) as nat) == 1000 * p) by {
            reveal_with_fuel(pow, 2);
        }
        assert(1000 * (limbs_value(t.drop_last()) + s.last() * p) == 1000 * limbs_value(
            t.drop_last(),
        ) + s.last() * (1000 * p)) by (nonlinear_arith);
    }
}

/// The value of an in-range limb sequence lies below the power of one
/// thousand given by its length.
pub proof fn lemma_limbs_value_bounds(s: Seq<u16>)
    requires
        limbs_in_range(s),
    ensures
        0 <= limbs_value(s) < pow1000(s.len()),
    decreases s.len(),
{
    if s.len() == 0 {
        assert(pow1000(0) == 1) by {
            reveal_with_fuel(pow, 2);
        }
    } else {
        let t = s.drop_first();
        assert(limbs_in_range(t));
        lemma_limbs_value_bounds(t);
        assert(pow1000(s.len()) == 1000 * pow1000((s.len() - 1) as nat)) by {
            reveal_with_fuel(pow, 2);
        }
    }
}

/// A non-empty limb sequence whose top limb is non-zero denotes a value
/// no smaller than the power of one thousand just below its length.
pub proof fn lemma_limbs_value_lower(s: Seq<u16>)
    requires
        limbs_in_range(s),
        s.len() >= 1,
        s.last() != 0,
    ensures
        limbs_value(s) >= pow1000((s.len() - 1) as nat),
{
    lemma_limbs_value_split_last(s);
    assert(limbs_in_range(s.drop_last()));
    lemma_limbs_value_bounds(s.drop_last());
    let p = pow1000((s.len() - 1) as nat);
    lemma_pow_positive(1000, (s.len() - 1) as nat);
    lemma_mul_inequality(1, s.last() as int, p);
}

/// Building a number from a machine word, one limb at a time.
pub fn from_usize(v: usize) -> (r: BigNum)
    ensures
        r.wf(),
        r.value() == v as int,
{
    let mut limbs: Vec<u16> = Vec::new();
    let mut rem: usize = v;
    proof {
        assert(pow1000(0) == 1) by {
            reveal_with_fuel(pow, 2);
        }
    }
    while rem > 0
        invariant
            limbs_in_range(limbs@),
            limbs_value(limbs@) + pow1000(limbs@.len()) * rem == v as int,
            limbs@.len() > 0 && rem == 0 ==> limbs@.last() != 0,
        decreases rem,
    {
        let limb: u16 = (rem % 1000) as u16;
        let next: usize = rem / 1000;
        proof {
            let ghost old_limbs = limbs@;
            let ghost p = pow1000(limbs@.len());
            lemma_limbs_value_split_last(old_limbs.push(limb));
            assert(old_limbs.push(limb).drop_last() =~= old_limbs);
            assert(pow1000(old_limbs.len() + 1) == 1000 * p) by {
                reveal_with_fuel(pow, 2);
            }
            assert(rem as int == 1000 * (next as int) + limb as int);
            assert(p * (1000 * (next as int) + limb as int) == limb as int * p + (1000 * p) * (
            next as int)) by (nonlinear_arith);
        }
        limbs.push(limb);
        rem = next;
    }
    BigNum { negative: false, limbs }
}

/// The scale index of the most significant base-1000 group of a
/// non-negative integer: zero for values below one thousand, and one
/// more for each further group of three decimal digits.
pub open spec fn group_index(x: int) -> nat
    decreases x,
{
    if x < 1000 {
        0
    } else {
        (1 + group_index(x / 1000)) as nat
    }
}

/// A positive integer lies between the powers of one thousand at its
/// group index and just above it.
pub proof fn lemma_group_index_bounds(x: int)
    requires
        x >= 1,
    ensures
        pow1000(group_index(x)) <= x < pow1000(group_index(x) + 1),
        x >= 1000 ==> group_index(x) >= 1,
    decreases x,
{
    if x < 1000 {
        assert(pow1000(0) == 1 && pow1000(1) == 1000) by {
            reveal_with_fuel(pow, 3);
        }
    } else {
        let q = x / 1000;
        lemma_div_is_ordered(1000, x, 1000);
        lemma_group_index_bounds(q);
        let g = group_index(q);
        lemma_fundamental_div_mod(x, 1000);
        lemma_mod_bound(x, 1000);
        let r = x % 1000;
        assert(pow1000(g + 1) == 1000 * pow1000(g) && pow1000(g + 2) == 1000 * pow1000(g + 1)) by {
            reveal_with_fuel(pow, 2);
        }
        assert(1000 * pow1000(g) <= 1000 * q) by (nonlinear_arith)
            requires
                pow1000(g) <= q,
        ;
        assert(1000 * (q + 1) <= 1000 * pow1000(g + 1)) by (nonlinear_arith)
            requires
                q + 1 <= pow1000(g + 1),
        ;
    }
}

/// The group index is the only power index whose powers bracket the
/// value.
pub proof fn lemma_group_index_unique(x: int, p: nat)
    requires
        x >= 1,
        pow1000(p) <= x < pow1000(p + 1),
    ensures
        group_index(x) == p,
{
    lemma_group_index_bounds(x);
    let g = group_index(x);
    if g < p {
        lemma_pow_increases(1000, g + 1, p);
        assert(false);
    }
    if p < g {
        lemma_pow_increases(1000, p + 1, g);
        assert(false);
    }
}

/// A limb sequence of two or more limbs with a non-zero top limb: its
/// top limb is the quotient, and the rest the remainder, by the power of
/// one thousand at its group index.
pub proof fn lemma_limbs_div_mod(s: Seq<u16>)
    requires
        limbs_in_range(s),
        s.len() >= 2,
        s.last() != 0,
    ensures
        group_index(limbs_value(s)) == s.len() - 1,
        limbs_value(s) / pow1000((s.len() - 1) as nat) == s.last() as int,
        limbs_value(s) % pow1000((s.len() - 1) as nat) == limbs_value(s.drop_last()),
{
    let p = (s.len() - 1) as nat;
    let pw = pow1000(p);
    let v = limbs_value(s);
    let r = limbs_value(s.drop_last());
    lemma_limbs_value_split_last(s);
    assert(limbs_in_range(s.drop_last()));
    lemma_limbs_value_bounds(s.drop_last());
    lemma_pow_positive(1000, p);
    lemma_fundamental_div_mod_converse(v, pw, s.last() as int, r);
    lemma_limbs_value_lower(s);
    lemma_limbs_value_bounds(s);
    assert(pow1000(s.len()) == 1000 * pw) by {
        reveal_with_fuel(pow, 2);
    }
    lemma_group_index_unique(v, p);
}

/// An ASCII decimal digit.
pub open spec fn is_digit(c: char) -> bool {
    '0' <= c && c <= '9'
}

/// The numeric value of a decimal digit character.
pub open spec fn digit_val(c: char) -> int {
    c as u32 - 48
}

/// Every character of the sequence is a decimal digit.
pub open spec fn all_digits(s: Seq<char>) -> bool {
    forall|i: int| 0 <= i < s.len() ==> is_digit(s[i])
}

/// Length of the optional leading sign of a literal: one for a leading
/// `-` or `+`, zero otherwise.
pub open spec fn sign_len(s: Seq<char>) -> int {
    if s.len() > 0 && (s[0] == '-' || s[0] == '+') {
        1
    } else {
        0
    }
}

/// A signed decimal integer literal: an optional sign followed by at
/// least one digit.
pub open spec fn is_int_literal(s: Seq<char>) -> bool {
    s.len() > sign_len(s) && all_digits(s.skip(sign_len(s)))
}

/// The integer denoted by a sequence of decimal digits, most significant
/// first.
pub open spec fn digits_value(s: Seq<char>) -> int
    decreases s.len(),
{
    if s.len() == 0 {
        0
    } else {
        10 * digits_value(s.drop_last()) + digit_val(s.last())
    }
}

/// The integer denoted by a signed decimal literal.
pub open spec fn int_literal_value(s: Seq<char>) -> int {
    if s.len() > 0 && s[0] == '-' {
        -digits_value(s.skip(1))
    } else {
        digits_value(s.skip(sign_len(s)))
    }
}

/// Splitting a digit string: the prefix scaled by the length of the
/// suffix, plus the suffix.
proof fn lemma_digits_split(t: Seq<char>, k: int)
    requires
        0 <= k <= t.len(),
    ensures
        digits_value(t) == digits_value(t.take(k)) * pow10((t.len() - k) as nat) + digits_value(
            t.skip(k),
        ),
    decreases t.len() - k,
{
    if k == t.len() {
        assert(t.take(k) =~= t);
        assert(t.skip(k) =~= Seq::<char>::empty());
        assert(pow10(0) == 1) by {
            reveal_with_fuel(pow, 2);
        }
    } else {
        let dl = t.drop_last();
        lemma_digits_split(dl, k);
        assert(dl.take(k) =~= t.take(k));
        assert(dl.skip(k) =~= t.skip(k).drop_last());
        assert(t.skip(k).last() == t.last());
        let p = pow10((t.len() - 1 - k) as nat);
        assert(pow10((t.len() - k) as nat) == 10 * p) by {
            reveal_with_fuel(pow, 2);
        }
        assert(10 * (digits_value(t.take(k)) * p) == digits_value(t.take(k)) * (10 * p))
            by (nonlinear_arith);
    }
}

/// Three decimal digits make one base-1000 limb.
proof fn lemma_pow10_pow1000(k: nat)
    ensures
        pow10(3 * k) == pow1000(k),
    decreases k,
{
    if k == 0 {
        assert(pow10(0) == 1 && pow1000(0) == 1) by {
            reveal_with_fuel(pow, 2);
        }
    } else {
        lemma_pow10_pow1000((k - 1) as nat);
        assert(pow10(3 * k) == 10 * (10 * (10 * pow10(3 * (k - 1) as nat)))) by {
            reveal_with_fuel(pow, 4);
            assert(3 * k - 3 == 3 * (k - 1) as nat);
        }
        assert(pow1000(k) == 1000 * pow1000((k - 1) as nat)) by {
            reveal_with_fuel(pow, 2);
        }
    }
}

/// Parsing a signed decimal literal: an optional `-` or `+` sign followed
/// by at least one digit. Returns the parsed number exactly when the
/// string has that shape.
pub fn parse_decimal(s: &str) -> (r: Option<BigNum>)
    ensures
        match r {
            Some(b) => b.wf() && is_int_literal(s@) && b.value() == int_literal_value(s@),
            None => !is_int_literal(s@),
        },
{
    if !s.is_ascii() {
        proof {
            let i = choose|i: int| 0 <= i < s@.len() && !('\0' <= #[trigger] s@[i] <= '\u{7f}');
            if is_int_literal(s@) {
                let sl = sign_len(s@);
                if i >= sl {
                    assert(s@.skip(sl)[i - sl] == s@[i]);
                    assert(is_digit(s@[i]));
                }
                assert(false);
            }
        }
        return None;
    }
    let n: usize = s.unicode_len();
    if n == 0 {
        return None;
    }
    let first: u8 = s.get_ascii(0);
    let neg: bool = first == 45;
    let start: usize = if first == 45 || first == 43 {
        1
    } else {
        0
    };
    proof {
        assert('\0' <= s@[0] <= '\u{7f}');
        if first == 45 {
            assert(s@[0] == '-');
        } else if first == 43 {
            assert(s@[0] == '+');
        } else {
            assert(s@[0] != '-' && s@[0] != '+');
        }
        assert(sign_len(s@) == start as int);
    }
    if n == start {
        return None;
    }
    let mut i: usize = start;
    while i < n
        invariant
            start <= i <= n,
            n == s@.len(),
            s.is_ascii(),
            start as int == sign_len(s@),
            n > start,
            forall|j: int| start <= j < i ==> is_digit(s@[j]),
        decreases n - i,
    {
        let b: u8 = s.get_ascii(i);
        if b < 48 || 57 < b {
            proof {
                assert('\0' <= s@[i as int] <= '\u{7f}');
                assert(!is_digit(s@[i as int]));
                if is_int_literal(s@) {
                    assert(s@.skip(start as int)[i - start] == s@[i as int]);
                    assert(false);
                }
            }
            return None;
        }
        proof {
            assert('\0' <= s@[i as int] <= '\u{7f}');
            assert(is_digit(s@[i as int]));
        }
        i += 1;
    }
    let mut limbs: Vec<u16> = Vec::new();
    let mut k: usize = n;
    proof {
        assert(s@.subrange(n as int, n as int) =~= Seq::<char>::empty());
        assert(pow1000(0) == 1) by {
            reveal_with_fuel(pow, 2);
        }
    }
    while k > start
        invariant
            start <= k <= n,
            n == s@.len(),
            s.is_ascii(),
            start as int == sign_len(s@),
            n > start,
            forall|j: int| start <= j < n ==> is_digit(s@[j]),
            limbs_in_range(limbs@),
            limbs_value(limbs@) == digits_value(s@.subrange(k as int, n as int)),
            k > start ==> n - k == 3 * limbs@.len(),
        decreases k,
    {
        let c: usize = if k - start >= 3 {
            3
        } else {
            k - start
        };
        let lo: usize = k - c;
        let mut v: u16 = 0;
        let mut j: usize = lo;
        proof {
            assert(s@.subrange(lo as int, lo as int) =~= Seq::<char>::empty());
            assert(pow10(0) == 1) by {
                reveal_with_fuel(pow, 2);
            }
        }
        while j < k
            invariant
                lo <= j <= k,
                k <= n,
                n == s@.len(),
                s.is_ascii(),
                k - lo <= 3,
                start <= lo,
                forall|jj: int| start <= jj < n ==> is_digit(s@[jj]),
                v as int == digits_value(s@.subrange(lo as int, j as int)),
                (v as int) < pow10((j - lo) as nat),
            decreases k - j,
        {
            let b: u8 = s.get_ascii(j);
            proof {
                assert('\0' <= s@[j as int] <= '\u{7f}');
                assert(is_digit(s@[j as int]));
                assert(48 <= b <= 57);
                assert(pow10((j - lo) as nat) <= 100 && pow10((j + 1 - lo) as nat) == 10 * pow10(
                    (j - lo) as nat,
                )) by {
                    reveal_with_fuel(pow, 4);
                }
                let sub = s@.subrange(lo as int, j + 1);
                assert(sub.drop_last() =~= s@.subrange(lo as int, j as int));
                assert(sub.last() == s@[j as int]);
                assert(digit_val(s@[j as int]) == b - 48);
            }
            v = v * 10 + ((b - 48) as u16);
            j += 1;
        }
        proof {
            assert(v < 1000) by {
                assert(pow10((k - lo) as nat) <= 1000) by {
                    reveal_with_fuel(pow, 4);
                }
            }
            let ghost old_limbs = limbs@;
            lemma_limbs_value_split_last(old_limbs.push(v));
            assert(old_limbs.push(v).drop_last() =~= old_limbs);
            let ghost t = s@.subrange(lo as int, n as int);
            lemma_digits_split(t, c as int);
            assert(t.take(c as int) =~= s@.subrange(lo as int, k as int));
            assert(t.skip(c as int) =~= s@.subrange(k as int, n as int));
            lemma_pow10_pow1000(old_limbs.len());
            assert(3 * old_limbs.len() == n - k);
        }
        limbs.push(v);
        k = lo;
    }
    proof {
        assert(s@.subrange(start as int, n as int) =~= s@.skip(start as int));
    }
    while limbs.len() > 0 && limbs[limbs.len() - 1] == 0
        invariant
            limbs_in_range(limbs@),
            limbs_value(limbs@) == digits_value(s@.skip(start as int)),
        decreases limbs@.len(),
    {
        proof {
            lemma_limbs_value_split_last(limbs@);
            assert(limbs@.last() == 0);
        }
        let _ = limbs.pop();
    }
    let negative: bool = neg && limbs.len() > 0;
    proof {
        assert forall|j: int| 0 <= j < s@.skip(start as int).len() implies is_digit(
            #[trigger] s@.skip(start as int)[j],
        ) by {
            assert(s@.skip(start as int)[j] == s@[j + start]);
        }
        assert(is_int_literal(s@));
    }
    Some(BigNum { negative, limbs })
}

} // verus!
