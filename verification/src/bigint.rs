//! Script big integers: whole numbers of any size.

use vstd::prelude::*;

verus! {

/// Two to the power 64, the base of a big integer's words.
pub const WORD_BASE: u128 = 0x1_0000_0000_0000_0000;

/// A whole number of any size: a sign, and a magnitude in 64-bit words, the
/// least significant word first. Leading zero words and a negative zero are
/// allowed and change nothing of the value.
#[derive(Clone, Debug, PartialEq, Eq)]
pub struct BigInt {
    pub negative: bool,
    pub words: Vec<u64>,
}

/// The number that the words spell in base `2^64`, least significant first.
pub open spec fn magnitude(words: Seq<u64>) -> nat
    decreases words.len(),
{
    if words.len() == 0 {
        0
    } else {
        words[0] as nat + WORD_BASE as nat * magnitude(words.skip(1))
    }
}

impl View for BigInt {
    type V = int;

    /// The whole number that the sign and the words stand for.
    open spec fn view(&self) -> int {
        if self.negative {
            -(magnitude(self.words@) as int)
        } else {
            magnitude(self.words@) as int
        }
    }
}

/// The integer in `0 .. 2^64` that is congruent to `n` modulo `2^64`.
pub open spec fn wrap_u64(n: int) -> u64 {
    (n % (WORD_BASE as int)) as u64
}

/// The integer in `-2^63 .. 2^63` that is congruent to `n` modulo `2^64`.
pub open spec fn wrap_i64(n: int) -> i64 {
    let low = n % (WORD_BASE as int);
    if low >= 0x8000_0000_0000_0000 {
        (low - WORD_BASE as int) as i64
    } else {
        low as i64
    }
}

/// Whether the words have no zero word at their upper end.
pub open spec fn trimmed(words: Seq<u64>) -> bool {
    words.len() == 0 || words.last() != 0
}

/// Words without a zero word at their upper end are told by the number they
/// spell.
pub proof fn lemma_magnitude_tells_words(first: Seq<u64>, second: Seq<u64>)
    requires
        trimmed(first),
        trimmed(second),
        magnitude(first) == magnitude(second),
    ensures
        first == second,
    decreases first.len() + second.len(),
{
    if first.len() == 0 || second.len() == 0 {
        lemma_magnitude_positive(first);
        lemma_magnitude_positive(second);
        assert(first =~= second);
    } else {
        let rest_first = first.skip(1);
        let rest_second = second.skip(1);
        assert(trimmed(rest_first)) by {
            if rest_first.len() > 0 {
                assert(rest_first.last() == first.last());
            }
        }
        assert(trimmed(rest_second)) by {
            if rest_second.len() > 0 {
                assert(rest_second.last() == second.last());
            }
        }
        assert(magnitude(rest_first) == magnitude(rest_second) && first[0] == second[0]);
        lemma_magnitude_tells_words(rest_first, rest_second);
        assert(first =~= seq![first[0]] + rest_first);
        assert(second =~= seq![second[0]] + rest_second);
    }
}

/// Words that end in a word other than zero spell a number other than zero.
pub proof fn lemma_magnitude_positive(words: Seq<u64>)
    requires
        trimmed(words),
    ensures
        magnitude(words) == 0 <==> words.len() == 0,
    decreases words.len(),
{
    if words.len() > 0 {
        let rest = words.skip(1);
        if rest.len() > 0 {
            assert(rest.last() == words.last());
            lemma_magnitude_positive(rest);
        }
    }
}

impl BigInt {
    /// Whether this is the one form in which the library hands big integers
    /// out: no zero word at the upper end, and zero not negative.
    pub open spec fn is_canonical(&self) -> bool {
        trimmed(self.words@) && (self.words@.len() == 0 ==> !self.negative)
    }

    /// There is one canonical form of every whole number.
    pub proof fn law_canonical_form_is_unique(first: BigInt, second: BigInt)
        requires
            first.is_canonical(),
            second.is_canonical(),
            first@ == second@,
        ensures
            first.negative == second.negative,
            first.words@ == second.words@,
    {
        lemma_magnitude_positive(first.words@);
        lemma_magnitude_positive(second.words@);
        lemma_magnitude_tells_words(first.words@, second.words@);
    }

    /// The big integer of an unsigned 64-bit value: no word for zero, one
    /// word otherwise.
    pub fn from_u64(n: u64) -> (big: BigInt)
        ensures
            big@ == n,
            big.is_canonical(),
            !big.negative,
            big.words@ == if n == 0 {
                Seq::<u64>::empty()
            } else {
                seq![n]
            },
    {
        let mut words: Vec<u64> = Vec::new();
        if n != 0 {
            words.push(n);
            assert(words@ =~= seq![n]);
            assert(magnitude(words@) == n) by {
                reveal_with_fuel(magnitude, 2);
            }
        }
        BigInt { negative: false, words }
    }

    /// The big integer of a signed 64-bit value: no word for zero, one word
    /// otherwise.
    pub fn from_i64(n: i64) -> (big: BigInt)
        ensures
            big@ == n,
            big.is_canonical(),
            big.negative == (n < 0),
            big.words@ == if n == 0 {
                Seq::<u64>::empty()
            } else if n < 0 {
                seq![(-n) as u64]
            } else {
                seq![n as u64]
            },
    {
        let mut words: Vec<u64> = Vec::new();
        if n != 0 {
            let size: u64 = if n == i64::MIN {
                0x8000_0000_0000_0000
            } else if n < 0 {
                (-n) as u64
            } else {
                n as u64
            };
            words.push(size);
            assert(words@ =~= seq![size]);
            assert(magnitude(words@) == size) by {
                reveal_with_fuel(magnitude, 2);
            }
        }
        BigInt { negative: n < 0, words }
    }

    /// The value taken modulo `2^64`, as an unsigned integer. A value that
    /// does not fit wraps around; nothing is refused.
    pub fn low_u64(&self) -> (low: u64)
        ensures
            low == wrap_u64(self@),
    {
        if self.words.len() == 0 {
            0
        } else {
            let first: u64 = self.words[0];
            if self.negative && first != 0 {
                u64::MAX - first + 1
            } else {
                first
            }
        }
    }

    /// The value taken modulo `2^64` into the signed range. A value that does
    /// not fit wraps around; nothing is refused.
    pub fn low_i64(&self) -> (low: i64)
        ensures
            low == wrap_i64(self@),
    {
        let unsigned: u64 = self.low_u64();
        if unsigned >= 0x8000_0000_0000_0000 {
            (unsigned as i128 - 0x1_0000_0000_0000_0000) as i64
        } else {
            unsigned as i64
        }
    }
}

} // verus!
