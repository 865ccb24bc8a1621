//! English names for numbers: the fixed word tables and the recursive
//! spelling function, with its executable counterpart.

use crate::bignum::{
    group_index, lemma_group_index_bounds, lemma_limbs_div_mod, lemma_limbs_value_bounds,
    lemma_limbs_value_lower, lemma_limbs_value_split_last, limbs_in_range, limbs_value, pow1000,
    BigNum,
};
use vstd::arithmetic::div_mod::*;
use vstd::arithmetic::power::*;
use vstd::prelude::*;
use vstd::string::StringExecFns;

verus! {

/// A word fragment is free of spaces; the spelling function joins such
/// fragments with single separators, which is what keeps the final string
/// free of double spaces.
pub open spec fn no_space(s: Seq<char>) -> bool {
    forall|i: int| 0 <= i < s.len() ==> s[i] != ' '
}

/// A usable table entry: non-empty and free of spaces.
pub open spec fn word_ok(s: Seq<char>) -> bool {
    s.len() >= 1 && no_space(s)
}

/// Names of the values zero through nineteen; the teens are irregular
/// names of their own, not compositions.
pub open spec fn ones_word(i: int) -> Seq<char> {
    if i == 0 {
        "zero"@
    } else if i == 1 {
        "one"@
    } else if i == 2 {
        "two"@
    } else if i == 3 {
        "three"@
    } else if i == 4 {
        "four"@
    } else if i == 5 {
        "five"@
    } else if i == 6 {
        "six"@
    } else if i == 7 {
        "seven"@
    } else if i == 8 {
        "eight"@
    } else if i == 9 {
        "nine"@
    } else if i == 10 {
        "ten"@
    } else if i == 11 {
        "eleven"@
    } else if i == 12 {
        "twelve"@
    } else if i == 13 {
        "thirteen"@
    } else if i == 14 {
        "fourteen"@
    } else if i == 15 {
        "fifteen"@
    } else if i == 16 {
        "sixteen"@
    } else if i == 17 {
        "seventeen"@
    } else if i == 18 {
        "eighteen"@
    } else {
        "nineteen"@
    }
}

/// Names of the multiples of ten from twenty through ninety.
pub open spec fn tens_word(t: int) -> Seq<char> {
    if t == 2 {
        "twenty"@
    } else if t == 3 {
        "thirty"@
    } else if t == 4 {
        "forty"@
    } else if t == 5 {
        "fifty"@
    } else if t == 6 {
        "sixty"@
    } else if t == 7 {
        "seventy"@
    } else if t == 8 {
        "eighty"@
    } else {
        "ninety"@
    }
}

/// Table lookup for `ones_word`.
pub fn ones_name(i: u16) -> (r: &'static str)
    requires
        i < 20,
    ensures
        r@ == ones_word(i as int),
{
    if i == 0 {
        "zero"
    } else if i == 1 {
        "one"
    } else if i == 2 {
        "two"
    } else if i == 3 {
        "three"
    } else if i == 4 {
        "four"
    } else if i == 5 {
        "five"
    } else if i == 6 {
        "six"
    } else if i == 7 {
        "seven"
    } else if i == 8 {
        "eight"
    } else if i == 9 {
        "nine"
    } else if i == 10 {
        "ten"
    } else if i == 11 {
        "eleven"
    } else if i == 12 {
        "twelve"
    } else if i == 13 {
        "thirteen"
    } else if i == 14 {
        "fourteen"
    } else if i == 15 {
        "fifteen"
    } else if i == 16 {
        "sixteen"
    } else if i == 17 {
        "seventeen"
    } else if i == 18 {
        "eighteen"
    } else {
        "nineteen"
    }
}

/// Table lookup for `tens_word`.
pub fn tens_name(t: u16) -> (r: &'static str)
    requires
        2 <= t < 10,
    ensures
        r@ == tens_word(t as int),
{
    if t == 2 {
        "twenty"
    } else if t == 3 {
        "thirty"
    } else if t == 4 {
        "forty"
    } else if t == 5 {
        "fifty"
    } else if t == 6 {
        "sixty"
    } else if t == 7 {
        "seventy"
    } else if t == 8 {
        "eighty"
    } else {
        "ninety"
    }
}

/// Every ones-table entry is a space-free word of three to nine letters;
/// the single-digit names have at most five letters, and "four" names
/// four and nothing else.
pub proof fn lemma_ones_word_ok(i: int)
    requires
        0 <= i < 20,
    ensures
        word_ok(ones_word(i)),
        3 <= ones_word(i).len() <= 9,
        1 <= i < 10 ==> ones_word(i).len() <= 5,
        i != 4 ==> ones_word(i) != "four"@,
{
    reveal_strlit("zero");
    reveal_strlit("one");
    reveal_strlit("two");
    reveal_strlit("three");
    reveal_strlit("four");
    reveal_strlit("five");
    reveal_strlit("six");
    reveal_strlit("seven");
    reveal_strlit("eight");
    reveal_strlit("nine");
    reveal_strlit("ten");
    reveal_strlit("eleven");
    reveal_strlit("twelve");
    reveal_strlit("thirteen");
    reveal_strlit("fourteen");
    reveal_strlit("fifteen");
    reveal_strlit("sixteen");
    reveal_strlit("seventeen");
    reveal_strlit("eighteen");
    reveal_strlit("nineteen");
    assert("zero"@ != "four"@) by {
        assert("zero"@[0] != "four"@[0]);
    }
    assert("five"@ != "four"@) by {
        assert("five"@[1] != "four"@[1]);
    }
    assert("nine"@ != "four"@) by {
        assert("nine"@[0] != "four"@[0]);
    }
}

/// Every tens-table entry is a space-free word of five to seven letters,
/// and none of them is "four".
pub proof fn lemma_tens_word_ok(t: int)
    requires
        2 <= t < 10,
    ensures
        word_ok(tens_word(t)),
        5 <= tens_word(t).len() <= 7,
        tens_word(t) != "four"@,
{
    reveal_strlit("four");
    reveal_strlit("twenty");
    reveal_strlit("thirty");
    reveal_strlit("forty");
    reveal_strlit("fifty");
    reveal_strlit("sixty");
    reveal_strlit("seventy");
    reveal_strlit("eighty");
    reveal_strlit("ninety");
}

/// Scale names for power-of-one-thousand indices 1 through 25.
pub open spec fn scale_word_a(p: int) -> Seq<char> {
    if p == 1 {
        "thousand"@
    } else if p == 2 {
        "million"@
    } else if p == 3 {
        "billion"@
    } else if p == 4 {
        "trillion"@
    } else if p == 5 {
        "quadrillion"@
    } else if p == 6 {
        "quintillion"@
    } else if p == 7 {
        "sextillion"@
    } else if p == 8 {
        "septillion"@
    } else if p == 9 {
        "octillion"@
    } else if p == 10 {
        "nonillion"@
    } else if p == 11 {
        "decillion"@
    } else if p == 12 {
        "undecillion"@
    } else if p == 13 {
        "duodecillion"@
    } else if p == 14 {
        "tredecillion"@
    } else if p == 15 {
        "quattuordecillion"@
    } else if p == 16 {
        "quindecillion"@
    } else if p == 17 {
        "sexdecillion"@
    } else if p == 18 {
        "septendecillion"@
    } else if p == 19 {
        "octodecillion"@
    } else if p == 20 {
        "novemdecillion"@
    } else if p == 21 {
        "vigintillion"@
    } else if p == 22 {
        "unvigintillion"@
    } else if p == 23 {
        "duovigintillion"@
    } else if p == 24 {
        "trevigintillion"@
    } else {
        "quattuorvigintillion"@
    }
}

/// Scale names for power-of-one-thousand indices 26 through 50.
pub open spec fn scale_word_b(p: int) -> Seq<char> {
    if p == 26 {
        "quinvigintillion"@
    } else if p == 27 {
        "sexvigintillion"@
    } else if p == 28 {
        "septenvigintillion"@
    } else if p == 29 {
        "octovigintillion"@
    } else if p == 30 {
        "novemvigintillion"@
    } else if p == 31 {
        "trigintillion"@
    } else if p == 32 {
        "untrigintillion"@
    } else if p == 33 {
        "duotrigintillion"@
    } else if p == 34 {
        "tretrigintillion"@
    } else if p == 35 {
        "quattuortrigintillion"@
    } else if p == 36 {
        "quintrigintillion"@
    } else if p == 37 {
        "sextrigintillion"@
    } else if p == 38 {
        "septentrigintillion"@
    } else if p == 39 {
        "octotrigintillion"@
    } else if p == 40 {
        "novemtrigintillion"@
    } else if p == 41 {
        "quadragintillion"@
    } else if p == 42 {
        "unquadragintillion"@
    } else if p == 43 {
        "duoquadragintillion"@
    } else if p == 44 {
        "trequadragintillion"@
    } else if p == 45 {
        "quattuorquadragintillion"@
    } else if p == 46 {
        "quinquadragintillion"@
    } else if p == 47 {
        "sexquadragintillion"@
    } else if p == 48 {
        "septenquadragintillion"@
    } else if p == 49 {
        "octoquadragintillion"@
    } else {
        "novemquadragintillion"@
    }
}

/// Scale names for power-of-one-thousand indices 51 through 75.
pub open spec fn scale_word_c(p: int) -> Seq<char> {
    if p == 51 {
        "quinquagintillion"@
    } else if p == 52 {
        "unquinquagintillion"@
    } else if p == 53 {
        "duoquinquagintillion"@
    } else if p == 54 {
        "trequinquagintillion"@
    } else if p == 55 {
        "quattuorquinquagintillion"@
    } else if p == 56 {
        "quinquinquagintillion"@
    } else if p == 57 {
        "sexquinquagintillion"@
    } else if p == 58 {
        "septenquinquagintillion"@
    } else if p == 59 {
        "octoquinquagintillion"@
    } else if p == 60 {
        "novemquinquagintillion"@
    } else if p == 61 {
        "sexagintillion"@
    } else if p == 62 {
        "unsexagintillion"@
    } else if p == 63 {
        "duosexagintillion"@
    } else if p == 64 {
        "tresexagintillion"@
    } else if p == 65 {
        "quattuorsexagintillion"@
    } else if p == 66 {
        "quinsexagintillion"@
    } else if p == 67 {
        "sexsexagintillion"@
    } else if p == 68 {
        "septsexagintillion"@
    } else if p == 69 {
        "octosexagintillion"@
    } else if p == 70 {
        "novemsexagintillion"@
    } else if p == 71 {
        "septuagintillion"@
    } else if p == 72 {
        "unseptuagintillion"@
    } else if p == 73 {
        "duoseptuagintillion"@
    } else if p == 74 {
        "treseptuagintillion"@
    } else {
        "quattuorseptuagintillion"@
    }
}

/// Scale names for power-of-one-thousand indices 76 through 101.
pub open spec fn scale_word_d(p: int) -> Seq<char> {
    if p == 76 {
        "quinseptuagintillion"@
    } else if p == 77 {
        "sexseptuagintillion"@
    } else if p == 78 {
        "septseptuagintillion"@
    } else if p == 79 {
        "octoseptuagintillion"@
    } else if p == 80 {
        "novemseptuagintillion"@
    } else if p == 81 {
        "octogintillion"@
    } else if p == 82 {
        "unoctogintillion"@
    } else if p == 83 {
        "duooctogintillion"@
    } else if p == 84 {
        "treoctogintillion"@
    } else if p == 85 {
        "quattuoroctogintillion"@
    } else if p == 86 {
        "quinoctogintillion"@
    } else if p == 87 {
        "sexoctogintillion"@
    } else if p == 88 {
        "septoctogintillion"@
    } else if p == 89 {
        "octooctogintillion"@
    } else if p == 90 {
        "novemoctogintillion"@
    } else if p == 91 {
        "nonagintillion"@
    } else if p == 92 {
        "unnonagintillion"@
    } else if p == 93 {
        "duononagintillion"@
    } else if p == 94 {
        "trenonagintillion"@
    } else if p == 95 {
        "quattuornonagintillion"@
    } else if p == 96 {
        "quinnonagintillion"@
    } else if p == 97 {
        "sexnonagintillion"@
    } else if p == 98 {
        "septnonagintillion"@
    } else if p == 99 {
        "octononagintillion"@
    } else if p == 100 {
        "novemnonagintillion"@
    } else {
        "centillion"@
    }
}

/// Table lookup for `scale_word_a`.
fn scale_name_a(p: usize) -> (r: &'static str)
    requires
        1 <= p <= 25,
    ensures
        r@ == scale_word_a(p as int),
{
    if p == 1 {
        "thousand"
    } else if p == 2 {
        "million"
    } else if p == 3 {
        "billion"
    } else if p == 4 {
        "trillion"
    } else if p == 5 {
        "quadrillion"
    } else if p == 6 {
        "quintillion"
    } else if p == 7 {
        "sextillion"
    } else if p == 8 {
        "septillion"
    } else if p == 9 {
        "octillion"
    } else if p == 10 {
        "nonillion"
    } else if p == 11 {
        "decillion"
    } else if p == 12 {
        "undecillion"
    } else if p == 13 {
        "duodecillion"
    } else if p == 14 {
        "tredecillion"
    } else if p == 15 {
        "quattuordecillion"
    } else if p == 16 {
        "quindecillion"
    } else if p == 17 {
        "sexdecillion"
    } else if p == 18 {
        "septendecillion"
    } else if p == 19 {
        "octodecillion"
    } else if p == 20 {
        "novemdecillion"
    } else if p == 21 {
        "vigintillion"
    } else if p == 22 {
        "unvigintillion"
    } else if p == 23 {
        "duovigintillion"
    } else if p == 24 {
        "trevigintillion"
    } else {
        "quattuorvigintillion"
    }
}

/// Table lookup for `scale_word_b`.
fn scale_name_b(p: usize) -> (r: &'static str)
    requires
        26 <= p <= 50,
    ensures
        r@ == scale_word_b(p as int),
{
    if p == 26 {
        "quinvigintillion"
    } else if p == 27 {
        "sexvigintillion"
    } else if p == 28 {
        "septenvigintillion"
    } else if p == 29 {
        "octovigintillion"
    } else if p == 30 {
        "novemvigintillion"
    } else if p == 31 {
        "trigintillion"
    } else if p == 32 {
        "untrigintillion"
    } else if p == 33 {
        "duotrigintillion"
    } else if p == 34 {
        "tretrigintillion"
    } else if p == 35 {
        "quattuortrigintillion"
    } else if p == 36 {
        "quintrigintillion"
    } else if p == 37 {
        "sextrigintillion"
    } else if p == 38 {
        "septentrigintillion"
    } else if p == 39 {
        "octotrigintillion"
    } else if p == 40 {
        "novemtrigintillion"
    } else if p == 41 {
        "quadragintillion"
    } else if p == 42 {
        "unquadragintillion"
    } else if p == 43 {
        "duoquadragintillion"
    } else if p == 44 {
        "trequadragintillion"
    } else if p == 45 {
        "quattuorquadragintillion"
    } else if p == 46 {
        "quinquadragintillion"
    } else if p == 47 {
        "sexquadragintillion"
    } else if p == 48 {
        "septenquadragintillion"
    } else if p == 49 {
        "octoquadragintillion"
    } else {
        "novemquadragintillion"
    }
}

/// Table lookup for `scale_word_c`.
fn scale_name_c(p: usize) -> (r: &'static str)
    requires
        51 <= p <= 75,
    ensures
        r@ == scale_word_c(p as int),
{
    if p == 51 {
        "quinquagintillion"
    } else if p == 52 {
        "unquinquagintillion"
    } else if p == 53 {
        "duoquinquagintillion"
    } else if p == 54 {
        "trequinquagintillion"
    } else if p == 55 {
        "quattuorquinquagintillion"
    } else if p == 56 {
        "quinquinquagintillion"
    } else if p == 57 {
        "sexquinquagintillion"
    } else if p == 58 {
        "septenquinquagintillion"
    } else if p == 59 {
        "octoquinquagintillion"
    } else if p == 60 {
        "novemquinquagintillion"
    } else if p == 61 {
        "sexagintillion"
    } else if p == 62 {
        "unsexagintillion"
    } else if p == 63 {
        "duosexagintillion"
    } else if p == 64 {
        "tresexagintillion"
    } else if p == 65 {
        "quattuorsexagintillion"
    } else if p == 66 {
        "quinsexagintillion"
    } else if p == 67 {
        "sexsexagintillion"
    } else if p == 68 {
        "septsexagintillion"
    } else if p == 69 {
        "octosexagintillion"
    } else if p == 70 {
        "novemsexagintillion"
    } else if p == 71 {
        "septuagintillion"
    } else if p == 72 {
        "unseptuagintillion"
    } else if p == 73 {
        "duoseptuagintillion"
    } else if p == 74 {
        "treseptuagintillion"
    } else {
        "quattuorseptuagintillion"
    }
}

/// Table lookup for `scale_word_d`.
fn scale_name_d(p: usize) -> (r: &'static str)
    requires
        76 <= p <= 101,
    ensures
        r@ == scale_word_d(p as int),
{
    if p == 76 {
        "quinseptuagintillion"
    } else if p == 77 {
        "sexseptuagintillion"
    } else if p == 78 {
        "septseptuagintillion"
    } else if p == 79 {
        "octoseptuagintillion"
    } else if p == 80 {
        "novemseptuagintillion"
    } else if p == 81 {
        "octogintillion"
    } else if p == 82 {
        "unoctogintillion"
    } else if p == 83 {
        "duooctogintillion"
    } else if p == 84 {
        "treoctogintillion"
    } else if p == 85 {
        "quattuoroctogintillion"
    } else if p == 86 {
        "quinoctogintillion"
    } else if p == 87 {
        "sexoctogintillion"
    } else if p == 88 {
        "septoctogintillion"
    } else if p == 89 {
        "octooctogintillion"
    } else if p == 90 {
        "novemoctogintillion"
    } else if p == 91 {
        "nonagintillion"
    } else if p == 92 {
        "unnonagintillion"
    } else if p == 93 {
        "duononagintillion"
    } else if p == 94 {
        "trenonagintillion"
    } else if p == 95 {
        "quattuornonagintillion"
    } else if p == 96 {
        "quinnonagintillion"
    } else if p == 97 {
        "sexnonagintillion"
    } else if p == 98 {
        "septnonagintillion"
    } else if p == 99 {
        "octononagintillion"
    } else if p == 100 {
        "novemnonagintillion"
    } else {
        "centillion"
    }
}

/// Every entry in this part of the scale table is a space-free word
/// of seven to twenty-five letters.
proof fn lemma_scale_word_a_ok(p: int)
    ensures
        word_ok(scale_word_a(p)),
        7 <= scale_word_a(p).len() <= 25,
{
    reveal_strlit("thousand");
    reveal_strlit("million");
    reveal_strlit("billion");
    reveal_strlit("trillion");
    reveal_strlit("quadrillion");
    reveal_strlit("quintillion");
    reveal_strlit("sextillion");
    reveal_strlit("septillion");
    reveal_strlit("octillion");
    reveal_strlit("nonillion");
    reveal_strlit("decillion");
    reveal_strlit("undecillion");
    reveal_strlit("duodecillion");
    reveal_strlit("tredecillion");
    reveal_strlit("quattuordecillion");
    reveal_strlit("quindecillion");
    reveal_strlit("sexdecillion");
    reveal_strlit("septendecillion");
    reveal_strlit("octodecillion");
    reveal_strlit("novemdecillion");
    reveal_strlit("vigintillion");
    reveal_strlit("unvigintillion");
    reveal_strlit("duovigintillion");
    reveal_strlit("trevigintillion");
    reveal_strlit("quattuorvigintillion");
}

/// Every entry in this part of the scale table is a space-free word
/// of seven to twenty-five letters.
proof fn lemma_scale_word_b_ok(p: int)
    ensures
        word_ok(scale_word_b(p)),
        7 <= scale_word_b(p).len() <= 25,
{
    reveal_strlit("quinvigintillion");
    reveal_strlit("sexvigintillion");
    reveal_strlit("septenvigintillion");
    reveal_strlit("octovigintillion");
    reveal_strlit("novemvigintillion");
    reveal_strlit("trigintillion");
    reveal_strlit("untrigintillion");
    reveal_strlit("duotrigintillion");
    reveal_strlit("tretrigintillion");
    reveal_strlit("quattuortrigintillion");
    reveal_strlit("quintrigintillion");
    reveal_strlit("sextrigintillion");
    reveal_strlit("septentrigintillion");
    reveal_strlit("octotrigintillion");
    reveal_strlit("novemtrigintillion");
    reveal_strlit("quadragintillion");
    reveal_strlit("unquadragintillion");
    reveal_strlit("duoquadragintillion");
    reveal_strlit("trequadragintillion");
    reveal_strlit("quattuorquadragintillion");
    reveal_strlit("quinquadragintillion");
    reveal_strlit("sexquadragintillion");
    reveal_strlit("septenquadragintillion");
    reveal_strlit("octoquadragintillion");
    reveal_strlit("novemquadragintillion");
}

/// Every entry in this part of the scale table is a space-free word
/// of seven to twenty-five letters.
proof fn lemma_scale_word_c_ok(p: int)
    ensures
        word_ok(scale_word_c(p)),
        7 <= scale_word_c(p).len() <= 25,
{
    reveal_strlit("quinquagintillion");
    reveal_strlit("unquinquagintillion");
    reveal_strlit("duoquinquagintillion");
    reveal_strlit("trequinquagintillion");
    reveal_strlit("quattuorquinquagintillion");
    reveal_strlit("quinquinquagintillion");
    reveal_strlit("sexquinquagintillion");
    reveal_strlit("septenquinquagintillion");
    reveal_strlit("octoquinquagintillion");
    reveal_strlit("novemquinquagintillion");
    reveal_strlit("sexagintillion");
    reveal_strlit("unsexagintillion");
    reveal_strlit("duosexagintillion");
    reveal_strlit("tresexagintillion");
    reveal_strlit("quattuorsexagintillion");
    reveal_strlit("quinsexagintillion");
    reveal_strlit("sexsexagintillion");
    reveal_strlit("septsexagintillion");
    reveal_strlit("octosexagintillion");
    reveal_strlit("novemsexagintillion");
    reveal_strlit("septuagintillion");
    reveal_strlit("unseptuagintillion");
    reveal_strlit("duoseptuagintillion");
    reveal_strlit("treseptuagintillion");
    reveal_strlit("quattuorseptuagintillion");
}

/// Every entry in this part of the scale table is a space-free word
/// of seven to twenty-five letters.
proof fn lemma_scale_word_d_ok(p: int)
    ensures
        word_ok(scale_word_d(p)),
        7 <= scale_word_d(p).len() <= 25,
{
    reveal_strlit("quinseptuagintillion");
    reveal_strlit("sexseptuagintillion");
    reveal_strlit("septseptuagintillion");
    reveal_strlit("octoseptuagintillion");
    reveal_strlit("novemseptuagintillion");
    reveal_strlit("octogintillion");
    reveal_strlit("unoctogintillion");
    reveal_strlit("duooctogintillion");
    reveal_strlit("treoctogintillion");
    reveal_strlit("quattuoroctogintillion");
    reveal_strlit("quinoctogintillion");
    reveal_strlit("sexoctogintillion");
    reveal_strlit("septoctogintillion");
    reveal_strlit("octooctogintillion");
    reveal_strlit("novemoctogintillion");
    reveal_strlit("nonagintillion");
    reveal_strlit("unnonagintillion");
    reveal_strlit("duononagintillion");
    reveal_strlit("trenonagintillion");
    reveal_strlit("quattuornonagintillion");
    reveal_strlit("quinnonagintillion");
    reveal_strlit("sexnonagintillion");
    reveal_strlit("septnonagintillion");
    reveal_strlit("octononagintillion");
    reveal_strlit("novemnonagintillion");
    reveal_strlit("centillion");
}


/// Scale names for the powers of one thousand, indices 1 through 101
/// ("thousand" up to "centillion").
pub open spec fn scale_word(p: int) -> Seq<char> {
    if p <= 25 {
        scale_word_a(p)
    } else if p <= 50 {
        scale_word_b(p)
    } else if p <= 75 {
        scale_word_c(p)
    } else {
        scale_word_d(p)
    }
}

/// Table lookup for `scale_word`.
pub fn scale_name(p: usize) -> (r: &'static str)
    requires
        1 <= p <= 101,
    ensures
        r@ == scale_word(p as int),
{
    if p <= 25 {
        scale_name_a(p)
    } else if p <= 50 {
        scale_name_b(p)
    } else if p <= 75 {
        scale_name_c(p)
    } else {
        scale_name_d(p)
    }
}

/// Every scale-table entry is a space-free word of seven to twenty-five
/// letters; in particular none of them is "four".
pub proof fn lemma_scale_word_ok(p: int)
    ensures
        word_ok(scale_word(p)),
        7 <= scale_word(p).len() <= 25,
        scale_word(p) != "four"@,
{
    if p <= 25 {
        lemma_scale_word_a_ok(p);
    } else if p <= 50 {
        lemma_scale_word_b_ok(p);
    } else if p <= 75 {
        lemma_scale_word_c_ok(p);
    } else {
        lemma_scale_word_d_ok(p);
    }
    reveal_strlit("four");
}


/// The failure of the spelling function: the number needs a scale name
/// beyond the last entry of the table.
#[derive(Clone, Copy, Debug, PartialEq, Eq, Structural)]
pub enum WordifyError {
    MagnitudeTooLarge,
}

/// The integers the scale-name table can spell: magnitude below one
/// thousand to the hundred-and-second power.
pub open spec fn in_table_range(x: int) -> bool {
    -pow1000(102) < x < pow1000(102)
}

/// The English spelling of an integer, as the spelling algorithm
/// defines it: sign word, then the most significant group with its
/// scale name, then the spelled remainder, with zero remainders
/// suppressed.
pub open spec fn spec_wordify(x: int) -> Seq<char>
    decreases vstd::math::abs(x), (if x < 0 { 1int } else { 0int }),
{
    if x < 0 {
        "negative"@ + " "@ + spec_wordify(-x)
    } else if x == 0 {
        "zero"@
    } else if x < 20 {
        ones_word(x)
    } else if x < 100 {
        if x % 10 == 0 {
            tens_word(x / 10)
        } else {
            tens_word(x / 10) + "-"@ + ones_word(x % 10)
        }
    } else if x < 1000 {
        if x % 100 == 0 {
            ones_word(x / 100) + " "@ + "hundred"@
        } else {
            ones_word(x / 100) + " "@ + "hundred"@ + " "@ + spec_wordify(x % 100)
        }
    } else {
        let p = group_index(x);
        proof {
            lemma_group_index_bounds(x);
            assert(pow1000(1) == 1000) by {
                reveal_with_fuel(pow, 3);
            }
            lemma_pow_increases(1000, 1, p);
            lemma_div_pos_is_pos(x, pow1000(p));
            lemma_div_decreases(x, pow1000(p));
            lemma_mod_bound(x, pow1000(p));
        }
        let amount = x / pow1000(p);
        let rem = x % pow1000(p);
        if rem == 0 {
            spec_wordify(amount) + " "@ + scale_word(p as int)
        } else {
            spec_wordify(amount) + " "@ + scale_word(p as int) + " "@ + spec_wordify(rem)
        }
    }
}

/// Spelling a value below one thousand: the base case of the group
/// recursion.
pub fn wordify_small(v: u16) -> (r: String)
    requires
        v < 1000,
    ensures
        r@ == spec_wordify(v as int),
    decreases v,
{
    if v == 0 {
        String::from_str("zero")
    } else if v < 20 {
        String::from_str(ones_name(v))
    } else if v < 100 {
        let t: u16 = v / 10;
        let o: u16 = v % 10;
        if o == 0 {
            String::from_str(tens_name(t))
        } else {
            let mut r = String::from_str(tens_name(t));
            r.append("-");
            r.append(ones_name(o));
            r
        }
    } else {
        let h: u16 = v / 100;
        let rest: u16 = v % 100;
        let mut r = String::from_str(ones_name(h));
        r.append(" ");
        r.append("hundred");
        if rest != 0 {
            r.append(" ");
            let w = wordify_small(rest);
            r.append(w.as_str());
        }
        r
    }
}

/// Spelling the non-negative value held in the first `n` limbs, whose
/// top limb must be non-zero; the groups are spelled from the most
/// significant down, each with its scale name.
#[verifier::rlimit(50)]
pub fn wordify_limbs(limbs: &Vec<u16>, n: usize) -> (r: String)
    requires
        n <= limbs@.len(),
        limbs@.len() <= 102,
        limbs_in_range(limbs@),
        n > 0 ==> limbs@[n - 1] != 0,
    ensures
        r@ == spec_wordify(limbs_value(limbs@.take(n as int))),
    decreases n,
{
    if n == 0 {
        proof {
            assert(limbs@.take(0) =~= Seq::<u16>::empty());
        }
        String::from_str("zero")
    } else if n == 1 {
        proof {
            assert(limbs_value(limbs@.take(n as int)) == limbs@[0] as int) by {
                reveal_with_fuel(limbs_value, 3);
                assert(limbs@.take(1).drop_first() =~= Seq::<u16>::empty());
                assert(limbs@.take(1)[0] == limbs@[0]);
            }
        }
        wordify_small(limbs[0])
    } else {
        let p: usize = n - 1;
        let amount: u16 = limbs[p];
        let ghost s: Seq<u16> = limbs@.take(n as int);
        proof {
            assert(limbs_in_range(s));
            assert(s.last() == limbs@[p as int]);
            lemma_limbs_div_mod(s);
            assert(s.drop_last() =~= limbs@.take(p as int));
            lemma_limbs_value_lower(s);
            assert(pow1000((n - 1) as nat) >= pow1000(1)) by {
                lemma_pow_increases(1000, 1, (n - 1) as nat);
            }
            assert(pow1000(1) == 1000) by {
                reveal_with_fuel(pow, 3);
            }
        }
        let mut m: usize = p;
        while m > 0 && limbs[m - 1] == 0
            invariant
                m <= p,
                p < limbs@.len(),
                limbs_in_range(limbs@),
                limbs_value(limbs@.take(m as int)) == limbs_value(limbs@.take(p as int)),
            decreases m,
        {
            proof {
                let t = limbs@.take(m as int);
                lemma_limbs_value_split_last(t);
                assert(t.drop_last() =~= limbs@.take(m - 1));
                assert(t.last() == limbs@[m - 1]);
                assert(t.last() == 0);
                let l: int = t.last() as int;
                let pw: int = pow1000((t.len() - 1) as nat);
                assert(l * pw == 0) by (nonlinear_arith)
                    requires
                        l == 0,
                ;
                assert(limbs_value(limbs@.take(m as int)) == limbs_value(limbs@.take(m - 1)));
            }
            m = m - 1;
        }
        let ghost x: int = limbs_value(s);
        proof {
            assert(group_index(x) == n - 1);
            assert(x >= 1000);
        }
        let mut r = wordify_small(amount);
        r.append(" ");
        r.append(scale_name(p));
        if m == 0 {
            proof {
                assert(limbs@.take(0) =~= Seq::<u16>::empty());
                assert(x % pow1000((n - 1) as nat) == 0);
            }
            r
        } else {
            proof {
                assert(limbs@[m - 1] != 0);
                assert(limbs_in_range(limbs@.take(m as int)));
                assert(limbs@.take(m as int).last() == limbs@[m - 1]);
                lemma_limbs_value_lower(limbs@.take(m as int));
                lemma_pow_positive(1000, (m - 1) as nat);
            }
            r.append(" ");
            let w = wordify_limbs(limbs, m);
            r.append(w.as_str());
            proof {
                assert(x % pow1000(group_index(x)) == limbs_value(limbs@.take(m as int)));
            }
            r
        }
    }
}

/// The English spelling of an arbitrary-precision integer, or an error
/// when its magnitude is beyond the reach of the scale-name table.
pub fn wordify(x: &BigNum) -> (r: Result<String, WordifyError>)
    requires
        x.wf(),
    ensures
        match r {
            Ok(s) => in_table_range(x.value()) && s@ == spec_wordify(x.value()),
            Err(e) => !in_table_range(x.value()) && e == WordifyError::MagnitudeTooLarge,
        },
{
    if x.limbs.len() > 102 {
        proof {
            lemma_limbs_value_lower(x.limbs@);
            lemma_pow_increases(1000, 102, (x.limbs@.len() - 1) as nat);
        }
        return Err(WordifyError::MagnitudeTooLarge);
    }
    proof {
        lemma_limbs_value_bounds(x.limbs@);
        lemma_pow_increases(1000, x.limbs@.len(), 102);
    }
    let n: usize = x.limbs.len();
    let w = wordify_limbs(&x.limbs, n);
    proof {
        assert(x.limbs@.take(n as int) =~= x.limbs@);
    }
    if x.negative {
        proof {
            lemma_limbs_value_lower(x.limbs@);
            lemma_pow_positive(1000, (x.limbs@.len() - 1) as nat);
        }
        let mut r = String::from_str("negative");
        r.append(" ");
        r.append(w.as_str());
        Ok(r)
    } else {
        Ok(w)
    }
}



/// A well-shaped spelled string: non-empty, no space at either end, and
/// no two adjacent spaces.
pub open spec fn clean(s: Seq<char>) -> bool {
    &&& s.len() >= 1
    &&& s[0] != ' '
    &&& s[s.len() - 1] != ' '
    &&& forall|i: int| 0 <= i < s.len() - 1 ==> !(#[trigger] s[i] == ' ' && s[i + 1] == ' ')
}

/// A non-empty space-free fragment is well shaped on its own.
proof fn lemma_word_ok_clean(s: Seq<char>)
    requires
        word_ok(s),
    ensures
        clean(s),
{
}

/// Joining two well-shaped strings with any single-character separator
/// keeps the result well shaped.
proof fn lemma_join_clean(a: Seq<char>, sep: Seq<char>, b: Seq<char>)
    requires
        clean(a),
        clean(b),
        sep.len() == 1,
    ensures
        clean(a + sep + b),
{
    let s = a + sep + b;
    assert(s[0] == a[0]);
    assert(s[s.len() - 1] == b[b.len() - 1]);
    assert forall|i: int| 0 <= i < s.len() - 1 implies !(#[trigger] s[i] == ' ' && s[i + 1] == ' ') by {
        if i + 1 < a.len() {
            assert(s[i] == a[i] && s[i + 1] == a[i + 1]);
        } else if i + 1 == a.len() {
            assert(s[i] == a[i]);
        } else if i == a.len() {
            assert(s[i + 1] == b[0]);
        } else {
            let j = i - a.len() - 1;
            assert(!(b[j] == ' ' && b[j + 1] == ' '));
            assert(s[i] == b[j] && s[i + 1] == b[j + 1]);
        }
    }
}

/// Every spelled string is well shaped: non-empty, without leading or
/// trailing whitespace, and without double spaces.
pub proof fn lemma_wordify_clean(x: int)
    ensures
        clean(spec_wordify(x)),
    decreases vstd::math::abs(x), (if x < 0 { 1int } else { 0int }),
{
    reveal_strlit("negative");
    reveal_strlit("zero");
    reveal_strlit("hundred");
    reveal_strlit(" ");
    reveal_strlit("-");
    if x < 0 {
        lemma_wordify_clean(-x);
        lemma_word_ok_clean("negative"@);
        lemma_join_clean("negative"@, " "@, spec_wordify(-x));
    } else if x == 0 {
        assert(clean("zero"@));
    } else if x < 20 {
        lemma_ones_word_ok(x);
        lemma_word_ok_clean(ones_word(x));
    } else if x < 100 {
        lemma_tens_word_ok(x / 10);
        lemma_word_ok_clean(tens_word(x / 10));
        if x % 10 != 0 {
            lemma_ones_word_ok(x % 10);
            lemma_word_ok_clean(ones_word(x % 10));
            lemma_join_clean(tens_word(x / 10), "-"@, ones_word(x % 10));
        }
    } else if x < 1000 {
        lemma_ones_word_ok(x / 100);
        lemma_word_ok_clean(ones_word(x / 100));
        lemma_word_ok_clean("hundred"@);
        lemma_join_clean(ones_word(x / 100), " "@, "hundred"@);
        if x % 100 != 0 {
            lemma_wordify_clean(x % 100);
            lemma_join_clean(ones_word(x / 100) + " "@ + "hundred"@, " "@, spec_wordify(x % 100));
        }
    } else {
        let p = group_index(x);
        lemma_group_index_bounds(x);
        assert(pow1000(1) == 1000) by {
            reveal_with_fuel(pow, 3);
        }
        lemma_pow_increases(1000, 1, p);
        lemma_div_pos_is_pos(x, pow1000(p));
        lemma_div_decreases(x, pow1000(p));
        lemma_mod_bound(x, pow1000(p));
        let amount = x / pow1000(p);
        let rem = x % pow1000(p);
        lemma_wordify_clean(amount);
        lemma_scale_word_ok(p as int);
        lemma_word_ok_clean(scale_word(p as int));
        lemma_join_clean(spec_wordify(amount), " "@, scale_word(p as int));
        if rem != 0 {
            lemma_wordify_clean(rem);
            lemma_join_clean(
                spec_wordify(amount) + " "@ + scale_word(p as int),
                " "@,
                spec_wordify(rem),
            );
        }
    }
}

/// Spelling a negative number prefixes "negative " to the spelling of
/// its magnitude.
pub proof fn lemma_wordify_negative(x: int)
    requires
        x > 0,
    ensures
        spec_wordify(-x) == "negative "@ + spec_wordify(x),
{
    reveal_strlit("negative");
    reveal_strlit("negative ");
    reveal_strlit(" ");
    assert("negative "@ =~= "negative"@ + " "@);
    assert(spec_wordify(-x) == ("negative"@ + " "@) + spec_wordify(x));
}

/// "four" spells the number four and no other integer: the word of the
/// letter-counting fixed point is reached exactly at the value four.
pub proof fn lemma_wordify_four(x: int)
    ensures
        (spec_wordify(x) == "four"@) <==> (x == 4),
{
    reveal_strlit("four");
    reveal_strlit("zero");
    reveal_strlit("negative");
    reveal_strlit("hundred");
    reveal_strlit(" ");
    reveal_strlit("-");
    if x == 4 {
        assert(spec_wordify(4) == "four"@);
    } else if x < 0 {
        let s = spec_wordify(x);
        assert(s[0] == 'n');
        assert("four"@[0] == 'f');
    } else if x == 0 {
        assert("zero"@[0] != "four"@[0]);
    } else if x < 20 {
        lemma_ones_word_ok(x);
    } else if x < 100 {
        lemma_tens_word_ok(x / 10);
        if x % 10 != 0 {
            lemma_ones_word_ok(x % 10);
            assert(spec_wordify(x).len() >= 9);
        }
    } else if x < 1000 {
        lemma_ones_word_ok(x / 100);
        assert(spec_wordify(x).len() >= 11);
    } else {
        let p = group_index(x);
        lemma_group_index_bounds(x);
        assert(pow1000(1) == 1000) by {
            reveal_with_fuel(pow, 3);
        }
        lemma_pow_increases(1000, 1, p);
        lemma_div_pos_is_pos(x, pow1000(p));
        lemma_mod_bound(x, pow1000(p));
        let amount = x / pow1000(p);
        lemma_wordify_clean(amount);
        lemma_scale_word_ok(p as int);
        assert(spec_wordify(x).len() >= 9);
    }
}

/// The fixed point itself: "four" has four letters, and four spells
/// "four", so the transform maps the word "four" to itself.
pub proof fn lemma_four_fixed_point()
    ensures
        spec_wordify(4) == "four"@,
        "four"@.len() == 4,
        spec_wordify("four"@.len() as int) == "four"@,
{
    reveal_strlit("four");
}

} // verus!
