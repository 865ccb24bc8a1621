//! The fixed-point driver: iterating "spell the number, count the
//! letters, spell the count" down to the word "four", with a proof that
//! the iteration always gets there.

use crate::bignum::{
    from_usize, group_index, lemma_group_index_bounds, lemma_limbs_value_lower, limbs_value,
    pow1000, BigNum,
};
use crate::words::{
    in_table_range, lemma_ones_word_ok, lemma_scale_word_ok, lemma_tens_word_ok,
    lemma_wordify_clean, lemma_wordify_four, spec_wordify, wordify, WordifyError,
};
use vstd::arithmetic::div_mod::*;
use vstd::arithmetic::mul::*;
use vstd::arithmetic::power::*;
use vstd::prelude::*;
use vstd::string::{StrSliceExecFns, StringExecFns};

verus! {

/// The letter-counting transform: the length of the spelled word.
pub open spec fn next_count(x: int) -> int {
    spec_wordify(x).len() as int
}

/// An upper bound on the spelled length of a non-negative number, linear
/// in its group index.
proof fn lemma_wordify_len_upper(x: int)
    requires
        x >= 0,
    ensures
        x < 100 ==> spec_wordify(x).len() <= 13,
        x < 1000 ==> spec_wordify(x).len() <= 27,
        spec_wordify(x).len() <= 27 + 54 * group_index(x),
    decreases x,
{
    reveal_strlit("zero");
    reveal_strlit("hundred");
    reveal_strlit(" ");
    reveal_strlit("-");
    if x == 0 {
    } else if x < 20 {
        lemma_ones_word_ok(x);
    } else if x < 100 {
        lemma_tens_word_ok(x / 10);
        if x % 10 != 0 {
            lemma_ones_word_ok(x % 10);
        }
    } else if x < 1000 {
        lemma_ones_word_ok(x / 100);
        if x % 100 != 0 {
            lemma_wordify_len_upper(x % 100);
        }
    } else {
        let p = group_index(x);
        lemma_group_index_bounds(x);
        assert(pow1000(1) == 1000) by {
            reveal_with_fuel(pow, 3);
        }
        lemma_pow_increases(1000, 1, p);
        lemma_div_pos_is_pos(x, pow1000(p));
        lemma_div_decreases(x, pow1000(p));
        lemma_mod_bound(x, pow1000(p));
        let amount = x / pow1000(p);
        let rem = x % pow1000(p);
        assert(pow1000(p) * 1000 == pow1000(p + 1)) by {
            reveal_with_fuel(pow, 2);
            lemma_mul_is_commutative(pow1000(p), 1000);
        }
        lemma_multiply_divide_lt(x, pow1000(p), 1000);
        assert(amount < 1000);
        lemma_wordify_len_upper(amount);
        assert(group_index(amount) == 0);
        lemma_scale_word_ok(p as int);
        if rem != 0 {
            lemma_wordify_len_upper(rem);
            lemma_group_index_bounds(rem);
            if group_index(rem) >= p {
                lemma_pow_increases(1000, p, group_index(rem));
                assert(false);
            }
            assert(54 * group_index(rem) <= 54 * (p - 1));
        }
    }
}

/// The power of one thousand outgrows the linear length bound.
proof fn lemma_pow_vs_linear(g: nat)
    requires
        g >= 1,
    ensures
        54 * g + 27 < pow1000(g),
    decreases g,
{
    if g == 1 {
        assert(pow1000(1) == 1000) by {
            reveal_with_fuel(pow, 3);
        }
    } else {
        lemma_pow_vs_linear((g - 1) as nat);
        lemma_pow_positive(1000, (g - 1) as nat);
        assert(pow1000(g) == 1000 * pow1000((g - 1) as nat)) by {
            reveal_with_fuel(pow, 2);
        }
    }
}

/// Spelling a number of at least six shortens it: the letter count is
/// strictly below the number itself.
proof fn lemma_wordify_len_lt(x: int)
    requires
        x >= 6,
    ensures
        next_count(x) < x,
{
    reveal_strlit(" ");
    reveal_strlit("-");
    if x < 20 {
        lemma_ones_word_ok(x);
    } else if x < 100 {
        lemma_tens_word_ok(x / 10);
        if x % 10 != 0 {
            lemma_ones_word_ok(x % 10);
        }
    } else {
        lemma_wordify_len_upper(x);
        if x < 1000 {
            assert(group_index(x) == 0);
        } else {
            lemma_group_index_bounds(x);
            lemma_pow_vs_linear(group_index(x));
        }
    }
}

/// The exact letter counts of the smallest spelled words.
proof fn lemma_small_counts()
    ensures
        next_count(0) == 4,
        next_count(1) == 3,
        next_count(2) == 3,
        next_count(3) == 5,
        next_count(4) == 4,
        next_count(5) == 4,
{
    reveal_strlit("zero");
    reveal_strlit("one");
    reveal_strlit("two");
    reveal_strlit("three");
    reveal_strlit("four");
    reveal_strlit("five");
}

/// How many letter-counting steps remain before the value four: a
/// measure that strictly decreases at every step of the iteration.
pub open spec fn steps_measure(x: int) -> nat {
    if x < 0 {
        (spec_wordify(x).len() + 1) as nat
    } else if x == 4 {
        0
    } else if x == 5 {
        1
    } else if x == 0 {
        2
    } else if x == 3 {
        3
    } else if x == 1 || x == 2 {
        4
    } else {
        x as nat
    }
}

/// One step of the iteration strictly decreases the measure.
proof fn lemma_steps_measure_decreases(x: int)
    requires
        x != 4,
    ensures
        next_count(x) >= 0,
        steps_measure(next_count(x)) < steps_measure(x),
{
    lemma_small_counts();
    if x < 0 {
        reveal_strlit("negative");
        reveal_strlit(" ");
        lemma_wordify_clean(-x);
        assert(spec_wordify(x).len() == 9 + spec_wordify(-x).len());
        assert(next_count(x) >= 10);
    } else if x >= 6 {
        lemma_wordify_len_lt(x);
        let nx = next_count(x);
        lemma_wordify_clean(x);
        if nx >= 6 {
            assert(steps_measure(nx) == nx);
        } else {
            assert(steps_measure(nx) <= 4);
        }
    }
}

/// The iteration in specification form: does repeated letter counting
/// starting from the given value reach four within the given number of
/// steps?
pub open spec fn reaches_four(x: int, fuel: nat) -> bool
    decreases fuel,
{
    if x == 4 {
        true
    } else if fuel == 0 {
        false
    } else {
        reaches_four(next_count(x), (fuel - 1) as nat)
    }
}

/// Convergence: from any starting integer, the iteration reaches four
/// within the number of steps given by its measure.
pub proof fn lemma_reaches_four(x: int, fuel: nat)
    requires
        fuel >= steps_measure(x),
    ensures
        reaches_four(x, fuel),
    decreases fuel,
{
    if x != 4 {
        lemma_steps_measure_decreases(x);
        lemma_reaches_four(next_count(x), (fuel - 1) as nat);
    }
}

/// The spelled length of any supported value is at most 5490 letters.
proof fn lemma_next_count_bound(x: int)
    requires
        in_table_range(x),
    ensures
        0 <= next_count(x) <= 5490,
{
    if x >= 0 {
        lemma_wordify_len_upper(x);
        if x >= 1 {
            lemma_group_index_bounds(x);
            if group_index(x) >= 102 {
                lemma_pow_increases(1000, 102, group_index(x));
                assert(false);
            }
            assert(54 * group_index(x) <= 54 * 101);
        }
    } else {
        reveal_strlit("negative");
        reveal_strlit(" ");
        assert(spec_wordify(x).len() == 9 + spec_wordify(-x).len());
        lemma_wordify_len_upper(-x);
        lemma_group_index_bounds(-x);
        if group_index(-x) >= 102 {
            lemma_pow_increases(1000, 102, group_index(-x));
            assert(false);
        }
        assert(54 * group_index(-x) <= 54 * 101);
    }
}

/// Convergence for every supported value: six thousand steps always
/// suffice to reach four.
pub proof fn lemma_converges_in_range(x: int)
    requires
        in_table_range(x),
    ensures
        reaches_four(x, 6000),
{
    if x != 4 {
        lemma_next_count_bound(x);
        let nx = next_count(x);
        assert(steps_measure(nx) <= 5490);
        lemma_reaches_four(nx, 5999);
    }
}

/// The upper-case form of the lower-case letters that can begin an
/// English number word; any other character is left unchanged.
pub open spec fn cap_char(c: char) -> char {
    if c == 'e' {
        'E'
    } else if c == 'f' {
        'F'
    } else if c == 'n' {
        'N'
    } else if c == 'o' {
        'O'
    } else if c == 's' {
        'S'
    } else if c == 't' {
        'T'
    } else if c == 'z' {
        'Z'
    } else {
        c
    }
}

/// The string with its first character capitalized and the rest kept.
pub open spec fn capitalized(s: Seq<char>) -> Seq<char> {
    if s.len() == 0 {
        s
    } else {
        seq![cap_char(s[0])] + s.skip(1)
    }
}

/// Capitalizing the first character of a spelled word for display; the
/// rest of the word, and its length, are unchanged.
pub fn capitalize(s: &str) -> (r: String)
    ensures
        r@ == capitalized(s@),
{
    let n: usize = s.unicode_len();
    if n == 0 {
        let r = String::new();
        proof {
            assert(r@ =~= capitalized(s@));
        }
        return r;
    }
    let c: char = s.get_char(0);
    let head: &str = if c == 'e' {
        "E"
    } else if c == 'f' {
        "F"
    } else if c == 'n' {
        "N"
    } else if c == 'o' {
        "O"
    } else if c == 's' {
        "S"
    } else if c == 't' {
        "T"
    } else if c == 'z' {
        "Z"
    } else {
        ""
    };
    proof {
        reveal_strlit("");
        reveal_strlit("E");
        reveal_strlit("F");
        reveal_strlit("N");
        reveal_strlit("O");
        reveal_strlit("S");
        reveal_strlit("T");
        reveal_strlit("Z");
    }
    if head.is_empty() {
        let r = s.to_owned();
        proof {
            assert(cap_char(s@[0]) == s@[0]);
            assert(r@ =~= capitalized(s@));
        }
        r
    } else {
        let mut r = String::from_str(head);
        let rest = s.substring_char(1, n);
        r.append(rest);
        proof {
            assert(head@ =~= seq![cap_char(s@[0])]);
            assert(r@ =~= capitalized(s@));
        }
        r
    }
}

/// Whether the number is exactly four, the fixed point of the
/// letter-counting transform.
pub fn is_four(x: &BigNum) -> (r: bool)
    requires
        x.wf(),
    ensures
        r == (x.value() == 4),
{
    if x.negative {
        proof {
            lemma_limbs_value_lower(x.limbs@);
            lemma_pow_positive(1000, (x.limbs@.len() - 1) as nat);
        }
        false
    } else if x.limbs.len() == 0 {
        proof {
            assert(x.limbs@ =~= Seq::<u16>::empty());
        }
        false
    } else if x.limbs.len() > 1 {
        proof {
            lemma_limbs_value_lower(x.limbs@);
            assert(pow1000((x.limbs@.len() - 1) as nat) >= pow1000(1)) by {
                lemma_pow_increases(1000, 1, (x.limbs@.len() - 1) as nat);
            }
            assert(pow1000(1) == 1000) by {
                reveal_with_fuel(pow, 3);
            }
        }
        false
    } else {
        proof {
            assert(limbs_value(x.limbs@) == x.limbs@[0] as int) by {
                reveal_with_fuel(limbs_value, 3);
                assert(x.limbs@.drop_first() =~= Seq::<u16>::empty());
            }
        }
        x.limbs[0] == 4
    }
}

/// One printed step of the iteration: the spelled word with its first
/// letter capitalized, and its letter count.
pub struct TraceLine {
    pub word: String,
    pub letters: usize,
}

/// A complete run of the iteration: one line for every value seen, the
/// last of which spells "four", and the count of letter-counting steps
/// taken after the first line.
pub struct FourTrace {
    pub lines: Vec<TraceLine>,
    pub iterations: usize,
}

/// The value at the given step of the letter-counting iteration.
pub open spec fn iterate(x0: int, i: nat) -> int
    decreases i,
{
    if i == 0 {
        x0
    } else {
        next_count(iterate(x0, (i - 1) as nat))
    }
}

/// Running the iteration from the given start value down to the word
/// "four": every intermediate word is recorded, with its letter count,
/// and the loop provably terminates.
pub fn run_to_four(start: &BigNum) -> (r: Result<FourTrace, WordifyError>)
    requires
        start.wf(),
    ensures
        match r {
            Ok(t) => {
                &&& in_table_range(start.value())
                &&& t.lines@.len() >= 1
                &&& t.iterations == t.lines@.len() - 1
                &&& forall|i: int|
                    0 <= i < t.lines@.len() ==> (#[trigger] t.lines@[i]).word@ == capitalized(
                        spec_wordify(iterate(start.value(), i as nat)),
                    ) && t.lines@[i].letters == spec_wordify(iterate(start.value(), i as nat)).len()
                &&& forall|i: int|
                    0 <= i < t.lines@.len() - 1 ==> spec_wordify(
                        #[trigger] iterate(start.value(), i as nat),
                    ) != "four"@
                &&& iterate(start.value(), (t.lines@.len() - 1) as nat) == 4
                &&& spec_wordify(iterate(start.value(), (t.lines@.len() - 1) as nat)) == "four"@
            },
            Err(e) => !in_table_range(start.value()) && e == WordifyError::MagnitudeTooLarge,
        },
{
    let ghost x0: int = start.value();
    let mut word = match wordify(start) {
        Ok(w) => w,
        Err(e) => {
            return Err(e);
        },
    };
    let mut done: bool = is_four(start);
    let ghost mut v: int = x0;
    let mut lines: Vec<TraceLine> = Vec::new();
    let cap0 = capitalize(word.as_str());
    let cnt0: usize = word.as_str().unicode_len();
    lines.push(TraceLine { word: cap0, letters: cnt0 });
    while !done
        invariant
            lines@.len() >= 1,
            in_table_range(x0),
            in_table_range(v),
            v == iterate(x0, (lines@.len() - 1) as nat),
            done == (v == 4),
            word@ == spec_wordify(v),
            forall|i: int|
                0 <= i < lines@.len() ==> (#[trigger] lines@[i]).word@ == capitalized(
                    spec_wordify(iterate(x0, i as nat)),
                ) && lines@[i].letters == spec_wordify(iterate(x0, i as nat)).len(),
            forall|i: int| 0 <= i < lines@.len() - 1 ==> #[trigger] iterate(x0, i as nat) != 4,
        decreases steps_measure(v),
    {
        proof {
            lemma_steps_measure_decreases(v);
            lemma_next_count_bound(v);
            assert(5490 < pow1000(102)) by {
                assert(pow1000(2) == 1000000) by {
                    reveal_with_fuel(pow, 3);
                }
                lemma_pow_increases(1000, 2, 102);
            }
        }
        let l: usize = word.as_str().unicode_len();
        let bn = from_usize(l);
        let wn = match wordify(&bn) {
            Ok(w) => w,
            Err(e) => {
                return Err(e);
            },
        };
        word = wn;
        proof {
            v = next_count(v);
        }
        done = l == 4;
        let cap = capitalize(word.as_str());
        let cnt: usize = word.as_str().unicode_len();
        let ghost old_len: int = lines@.len() as int;
        lines.push(TraceLine { word: cap, letters: cnt });
        proof {
            assert(iterate(x0, old_len as nat) == next_count(iterate(x0, (old_len - 1) as nat)));
        }
    }
    let iters: usize = lines.len() - 1;
    proof {
        assert forall|i: int| 0 <= i < lines@.len() - 1 implies spec_wordify(
            #[trigger] iterate(x0, i as nat),
        ) != "four"@ by {
            lemma_wordify_four(iterate(x0, i as nat));
        }
        lemma_wordify_four(iterate(x0, (lines@.len() - 1) as nat));
    }
    Ok(FourTrace { lines, iterations: iters })
}

} // verus!
