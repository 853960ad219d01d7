//! Unsigned integers as sequences of bytes, in either byte order.

use vstd::arithmetic::div_mod::{lemma_div_denominator, lemma_mod_breakdown};
use vstd::arithmetic::power2::{
    lemma2_to64, lemma_pow2_adds, lemma_pow2_pos, lemma_pow2_strictly_increases, pow2,
};
use vstd::prelude::*;

verus! {

/// The order in which the bytes of a multi-byte value lie in memory.
#[derive(Clone, Copy, Debug, PartialEq, Eq, Structural)]
pub enum ByteOrder {
    /// The least significant byte comes first.
    LittleEndian,
    /// The most significant byte comes first.
    BigEndian,
}

/// The two bytes of `x` as they lie in this machine's memory, from std's
/// `u16::to_ne_bytes`. Which order that is depends on the machine; the
/// contract claims only that it is one of the two.
#[verifier::external_body]
fn native_layout(x: u16) -> (bytes: [u8; 2])
    ensures
        bytes@ == layout(x as nat, 2, ByteOrder::LittleEndian) || bytes@ == layout(
            x as nat,
            2,
            ByteOrder::BigEndian,
        ),
{
    x.to_ne_bytes()
}

impl ByteOrder {
    /// The byte order that a machine has, told from how it lays out the
    /// number one in two bytes: the one lies first on a little-endian
    /// machine and last on a big-endian one.
    pub fn of_probe(probe: &[u8; 2]) -> (order: ByteOrder)
        ensures
            order == if probe@[0] == 1 {
                ByteOrder::LittleEndian
            } else {
                ByteOrder::BigEndian
            },
            probe@ == layout(1, 2, ByteOrder::LittleEndian) ==> order == ByteOrder::LittleEndian,
            probe@ == layout(1, 2, ByteOrder::BigEndian) ==> order == ByteOrder::BigEndian,
    {
        proof {
            lemma2_to64();
            assert(pow2(8 * 0) == 1);
            assert(digit(1, 0) == 1);
            assert(layout(1, 2, ByteOrder::LittleEndian)[0] == digit(1, 0));
            lemma_digit_shift(1, 0);
            assert(digit(1, 1) == 0);
            assert(layout(1, 2, ByteOrder::BigEndian)[0] == digit(1, 1));
        }
        if probe[0] == 1 {
            ByteOrder::LittleEndian
        } else {
            ByteOrder::BigEndian
        }
    }

    /// The byte order of the machine that the program runs on.
    ///
    /// It is found when the program runs, from how the machine lays out the
    /// number one, and differs from machine to machine: nothing is promised
    /// of it beforehand. How the order follows from the layout that is found
    /// is what [`ByteOrder::of_probe`] states.
    pub fn native() -> ByteOrder {
        let probe: [u8; 2] = native_layout(1);
        ByteOrder::of_probe(&probe)
    }
}

/// Digit `k` of `value` written in base 256, digit 0 being the least
/// significant.
pub open spec fn digit(value: nat, k: nat) -> u8 {
    ((value / pow2(8 * k)) % 256) as u8
}

/// The `width` low digits of `value` in base 256, in the given order. Digits
/// beyond `width` are cut off.
pub open spec fn layout(value: nat, width: nat, order: ByteOrder) -> Seq<u8> {
    Seq::new(
        width,
        |k: int|
            match order {
                ByteOrder::LittleEndian => digit(value, k as nat),
                ByteOrder::BigEndian => digit(value, (width - 1 - k) as nat),
            },
    )
}

/// The number whose base-256 digits are `bytes`, least significant first.
pub open spec fn le_number(bytes: Seq<u8>) -> nat
    decreases bytes.len(),
{
    if bytes.len() == 0 {
        0
    } else {
        bytes[0] as nat + 256 * le_number(bytes.skip(1))
    }
}

/// The number that `bytes` spell in the given order.
pub open spec fn number(bytes: Seq<u8>, order: ByteOrder) -> nat {
    match order {
        ByteOrder::LittleEndian => le_number(bytes),
        ByteOrder::BigEndian => le_number(bytes.reverse()),
    }
}

/// Digit `k + 1` of a number is digit `k` of the number without its lowest
/// digit.
pub proof fn lemma_digit_shift(value: nat, k: nat)
    ensures
        value / pow2(8 * (k + 1)) == (value / pow2(8 * k)) / 256,
        digit(value, k + 1) == digit(value / 256, k),
        digit(value, 0) == value % 256,
{
    lemma2_to64();
    assert(pow2(8 * 0) == 1);
    lemma_pow2_pos(8 * k);
    lemma_pow2_adds(8 * k, 8);
    lemma_pow2_adds(8, 8 * k);
    lemma_div_denominator(value as int, pow2(8 * k) as int, 256);
    lemma_div_denominator(value as int, 256, pow2(8 * k) as int);
    assert(pow2(8 * k) * 256 == pow2(8 * (k + 1)));
    assert(256 * pow2(8 * k) == pow2(8 * (k + 1)));
}

/// The big-endian layout is the little-endian one read backwards.
pub proof fn lemma_layout_reverse(value: nat, width: nat)
    ensures
        layout(value, width, ByteOrder::BigEndian).reverse() == layout(
            value,
            width,
            ByteOrder::LittleEndian,
        ),
        layout(value, width, ByteOrder::LittleEndian).reverse() == layout(
            value,
            width,
            ByteOrder::BigEndian,
        ),
{
    assert(layout(value, width, ByteOrder::BigEndian).reverse() =~= layout(
        value,
        width,
        ByteOrder::LittleEndian,
    ));
    assert(layout(value, width, ByteOrder::LittleEndian).reverse() =~= layout(
        value,
        width,
        ByteOrder::BigEndian,
    ));
}

/// A sequence of bytes spells a number below 256 to the power of its length.
pub proof fn lemma_number_bound(bytes: Seq<u8>, order: ByteOrder)
    ensures
        number(bytes, order) < pow2(8 * bytes.len()),
    decreases bytes.len(), (if order == ByteOrder::BigEndian { 1nat } else { 0nat }),
{
    match order {
        ByteOrder::LittleEndian => {
            lemma2_to64();
            if bytes.len() > 0 {
                lemma_number_bound(bytes.skip(1), ByteOrder::LittleEndian);
                lemma_pow2_adds(8, 8 * (bytes.len() - 1) as nat);
            }
        },
        ByteOrder::BigEndian => {
            lemma_number_bound(bytes.reverse(), ByteOrder::LittleEndian);
        },
    }
}

/// Reading back what was laid out gives the value again, up to the digits
/// that the width cut off.
pub proof fn lemma_number_of_layout(value: nat, width: nat, order: ByteOrder)
    ensures
        number(layout(value, width, order), order) == value % pow2(8 * width),
    decreases width, (if order == ByteOrder::BigEndian { 1nat } else { 0nat }),
{
    match order {
        ByteOrder::LittleEndian => {
            lemma2_to64();
            let bytes = layout(value, width, order);
            if width > 0 {
                let rest = (width - 1) as nat;
                assert(bytes.skip(1) =~= layout(value / 256, rest, order)) by {
                    assert forall|k: int| 0 <= k < rest implies bytes.skip(1)[k] == layout(
                        value / 256,
                        rest,
                        order,
                    )[k] by {
                        lemma_digit_shift(value, k as nat);
                    }
                }
                lemma_digit_shift(value, 0);
                lemma_number_of_layout(value / 256, rest, order);
                lemma_pow2_pos(8 * rest);
                lemma_pow2_adds(8, 8 * rest);
                lemma_mod_breakdown(value as int, 256, pow2(8 * rest) as int);
            }
        },
        ByteOrder::BigEndian => {
            lemma_layout_reverse(value, width);
            lemma_number_of_layout(value, width, ByteOrder::LittleEndian);
        },
    }
}

/// Laying out the number that bytes spell, at their length, gives the same
/// bytes again.
pub proof fn lemma_layout_of_number(bytes: Seq<u8>, order: ByteOrder)
    ensures
        layout(number(bytes, order), bytes.len(), order) == bytes,
    decreases bytes.len(), (if order == ByteOrder::BigEndian { 1nat } else { 0nat }),
{
    match order {
        ByteOrder::LittleEndian => {
            let value = le_number(bytes);
            if bytes.len() > 0 {
                let tail = bytes.skip(1);
                lemma_layout_of_number(tail, order);
                assert(value / 256 == le_number(tail));
                assert forall|k: int| 0 <= k < bytes.len() implies layout(
                    value,
                    bytes.len(),
                    order,
                )[k] == bytes[k] by {
                    if k == 0 {
                        lemma_digit_shift(value, 0);
                    } else {
                        lemma_digit_shift(value, (k - 1) as nat);
                        assert(layout(le_number(tail), tail.len(), order)[k - 1] == tail[k - 1]);
                    }
                }
            }
            assert(layout(value, bytes.len(), order) =~= bytes);
        },
        ByteOrder::BigEndian => {
            let value = le_number(bytes.reverse());
            lemma_layout_of_number(bytes.reverse(), ByteOrder::LittleEndian);
            lemma_layout_reverse(value, bytes.len());
            assert(bytes.reverse().reverse() =~= bytes);
        },
    }
}

/// The same bytes in the opposite order.
pub fn reversed(bytes: &Vec<u8>) -> (turned: Vec<u8>)
    ensures
        turned@ == bytes@.reverse(),
{
    let n: usize = bytes.len();
    let mut turned: Vec<u8> = Vec::new();
    let mut i: usize = 0;
    while i < n
        invariant
            n == bytes.len(),
            i <= n,
            turned.len() == i,
            forall|k: int| 0 <= k < i ==> turned[k] == bytes[n - 1 - k],
        decreases n - i,
    {
        turned.push(bytes[n - 1 - i]);
        i += 1;
    }
    assert(turned@ =~= bytes@.reverse());
    turned
}

/// Lays the `width` low bytes of `value` out in the given order.
pub fn store(value: u64, width: usize, order: ByteOrder) -> (bytes: Vec<u8>)
    ensures
        bytes@ == layout(value as nat, width as nat, order),
{
    let mut digits: Vec<u8> = Vec::new();
    let mut rest: u64 = value;
    let mut i: usize = 0;
    proof {
        lemma2_to64();
        assert(pow2(8 * 0) == 1);
    }
    while i < width
        invariant
            i <= width,
            rest == value as nat / pow2(8 * i as nat),
            digits.len() == i,
            forall|k: int| 0 <= k < i ==> digits[k] == digit(value as nat, k as nat),
        decreases width - i,
    {
        digits.push((rest % 256) as u8);
        proof {
            lemma_digit_shift(value as nat, i as nat);
        }
        rest = rest / 256;
        i += 1;
    }
    assert(digits@ =~= layout(value as nat, width as nat, ByteOrder::LittleEndian));
    match order {
        ByteOrder::LittleEndian => digits,
        ByteOrder::BigEndian => {
            proof {
                lemma_layout_reverse(value as nat, width as nat);
            }
            reversed(&digits)
        },
    }
}

/// Reads the number that the first `width` bytes spell in the given order.
/// There is none where fewer bytes are at hand, or where more are asked for
/// than eight, which is what the result can hold.
pub fn load(bytes: &Vec<u8>, width: usize, order: ByteOrder) -> (value: Option<u64>)
    ensures
        value == if width <= 8 && width <= bytes.len() {
            Some(number(bytes@.take(width as int), order) as u64)
        } else {
            None
        },
        value matches Some(read) ==> read == number(bytes@.take(width as int), order),
{
    if width <= 8 && width <= bytes.len() {
        Some(read(bytes, width, order))
    } else {
        None
    }
}

/// Reads the number that the first `width` bytes spell in the given order.
pub(crate) fn read(bytes: &Vec<u8>, width: usize, order: ByteOrder) -> (value: u64)
    requires
        width <= 8,
        width <= bytes.len(),
    ensures
        value == number(bytes@.take(width as int), order),
{
    let ghost window = bytes@.take(width as int);
    let mut value: u64 = 0;
    let mut i: usize = 0;
    proof {
        lemma2_to64();
    }
    match order {
        ByteOrder::LittleEndian => {
            // From the most significant byte, which lies last, downwards.
            while i < width
                invariant
                    i <= width <= 8,
                    width <= bytes.len(),
                    window == bytes@.take(width as int),
                    value == le_number(window.skip(width - i)),
                decreases width - i,
            {
                let ghost seen = window.skip(width - i);
                let ghost next = window.skip(width - i - 1);
                proof {
                    lemma_number_bound(seen, ByteOrder::LittleEndian);
                    lemma2_to64();
                    lemma_pow2_adds(8, 8 * i as nat);
                    if 8 * i + 8 < 64 {
                        lemma_pow2_strictly_increases((8 * i + 8) as nat, 64);
                    }
                    assert(next.skip(1) =~= seen);
                    assert(next[0] == bytes[width - i - 1]);
                }
                value = value * 256 + bytes[width - i - 1] as u64;
                i += 1;
            }
            assert(window.skip(0) =~= window);
        },
        ByteOrder::BigEndian => {
            // From the most significant byte, which lies first, onwards.
            while i < width
                invariant
                    i <= width <= 8,
                    width <= bytes.len(),
                    window == bytes@.take(width as int),
                    value == le_number(window.take(i as int).reverse()),
                decreases width - i,
            {
                let ghost seen = window.take(i as int).reverse();
                let ghost next = window.take(i + 1).reverse();
                proof {
                    lemma_number_bound(seen, ByteOrder::LittleEndian);
                    lemma2_to64();
                    lemma_pow2_adds(8, 8 * i as nat);
                    if 8 * i + 8 < 64 {
                        lemma_pow2_strictly_increases((8 * i + 8) as nat, 64);
                    }
                    assert(next.skip(1) =~= seen);
                    assert(next[0] == bytes[i as int]);
                }
                value = value * 256 + bytes[i] as u64;
                i += 1;
            }
            assert(window.take(width as int) =~= window);
        },
    }
    value
}

} // verus!
