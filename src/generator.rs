//! Random password generation from per-category character counts.

use crate::strength::{is_digit_char, is_lower_char, is_symbol_char, is_upper_char};
use rand::seq::{IndexedRandom, SliceRandom};
use rand::rngs::StdRng;
use vstd::prelude::*;

verus! {

/// rand's standard generator, carried through as an opaque value.
#[verifier::external_type_specification]
#[verifier::external_body]
pub struct ExStdRng(StdRng);

/// Relies on rand's `IndexedRandom::choose`: on a non-empty slice it returns
/// a reference to one of the slice's elements.
#[verifier::external_body]
fn choose_byte(alphabet: &[u8], rng: &mut StdRng) -> (r: u8)
    requires
        alphabet@.len() > 0,
    ensures
        alphabet@.contains(r),
{
    *alphabet.choose(rng).unwrap()
}

/// Relies on rand's `SliceRandom::shuffle`: it only swaps elements in place,
/// so the result is a rearrangement of the input.
#[verifier::external_body]
fn shuffle_chars(v: &mut Vec<char>, rng: &mut StdRng)
    ensures
        final(v)@.len() == old(v)@.len(),
        final(v)@.to_multiset() == old(v)@.to_multiset(),
{
    v.shuffle(rng)
}

/// Relies on std's `String::from_iter` over chars: the string holds exactly
/// those characters, in order.
#[verifier::external_body]
fn string_from_chars(v: &Vec<char>) -> (r: String)
    ensures
        r@ == v@,
{
    String::from_iter(v.iter())
}

/// The characters a generated password may hold.
pub open spec fn is_allowed_char(c: char) -> bool {
    is_lower_char(c) || is_upper_char(c) || is_digit_char(c) || is_symbol_char(c)
}

/// A count as used by the generator: negative counts draw nothing.
pub open spec fn amount(n: i32) -> nat {
    if n < 0 {
        0
    } else {
        n as nat
    }
}

/// `d` is a concatenation of `l` lowercase letters, `u` uppercase letters,
/// `s` symbols and `n` digits, in that order.
pub open spec fn is_category_blocks(d: Seq<char>, l: nat, u: nat, s: nat, n: nat) -> bool {
    &&& d.len() == l + u + s + n
    &&& forall|i: int| 0 <= i < l ==> is_lower_char(#[trigger] d[i])
    &&& forall|i: int| l <= i < l + u ==> is_upper_char(#[trigger] d[i])
    &&& forall|i: int| l + u <= i < l + u + s ==> is_symbol_char(#[trigger] d[i])
    &&& forall|i: int| l + u + s <= i < l + u + s + n ==> is_digit_char(#[trigger] d[i])
}

/// `p` is a rearrangement of exactly `l` lowercase letters, `u` uppercase
/// letters, `s` symbols and `n` digits.
pub open spec fn is_arrangement(p: Seq<char>, l: nat, u: nat, s: nat, n: nat) -> bool {
    exists|d: Seq<char>| is_category_blocks(d, l, u, s, n) && #[trigger] d.to_multiset() == p.to_multiset()
}

/// The lowercase alphabet `a`..`z` as bytes.
pub fn lowercase_alphabet() -> (r: Vec<u8>)
    ensures
        r@.len() == 26,
        forall|i: int| 0 <= i < 26 ==> #[trigger] r@[i] == 97 + i,
{
    let mut v: Vec<u8> = Vec::new();
    let mut i: u8 = 0;
    while i < 26
        invariant
            i <= 26,
            v@.len() == i,
            forall|j: int| 0 <= j < i ==> #[trigger] v@[j] == 97 + j,
        decreases 26 - i,
    {
        v.push(97 + i);
        i = i + 1;
    }
    v
}

/// The digits `0`..`9` as bytes.
pub fn digit_alphabet() -> (r: Vec<u8>)
    ensures
        r@.len() == 10,
        forall|i: int| 0 <= i < 10 ==> #[trigger] r@[i] == 48 + i,
{
    let mut v: Vec<u8> = Vec::new();
    let mut i: u8 = 0;
    while i < 10
        invariant
            i <= 10,
            v@.len() == i,
            forall|j: int| 0 <= j < i ==> #[trigger] v@[j] == 48 + j,
        decreases 10 - i,
    {
        v.push(48 + i);
        i = i + 1;
    }
    v
}

/// The symbols `!#$%&()*+` as bytes.
pub fn symbol_alphabet() -> (r: Vec<u8>)
    ensures
        r@ == seq![33u8, 35u8, 36u8, 37u8, 38u8, 40u8, 41u8, 42u8, 43u8],
{
    vec![33u8, 35u8, 36u8, 37u8, 38u8, 40u8, 41u8, 42u8, 43u8]
}

/// ASCII upper-casing of a byte: `a`..`z` become `A`..`Z`, all else is kept.
pub open spec fn upper_of(b: u8) -> u8 {
    if 97 <= b <= 122 {
        (b - 32) as u8
    } else {
        b
    }
}

/// Upper-cases an ASCII lowercase byte.
pub fn ascii_upper(b: u8) -> (r: u8)
    ensures
        r == upper_of(b),
{
    if 97 <= b && b <= 122 {
        b - 32
    } else {
        b
    }
}

/// `c` is a byte of `alphabet`, upper-cased first when `upper` is set.
pub open spec fn drawn_from(c: char, alphabet: Seq<u8>, upper: bool) -> bool {
    exists|b: u8|
        alphabet.contains(b) && c == (if upper {
            upper_of(b) as char
        } else {
            b as char
        })
}

/// Appends `count` characters drawn from `alphabet`; when `upper` is set,
/// each drawn byte is upper-cased first.
fn draw_into(
    generated: &mut Vec<char>,
    alphabet: &Vec<u8>,
    count: i32,
    upper: bool,
    rng: &mut StdRng,
)
    requires
        alphabet@.len() > 0,
    ensures
        final(generated)@.len() == old(generated)@.len() + amount(count),
        forall|j: int|
            0 <= j < old(generated)@.len() ==> #[trigger] final(generated)@[j] == old(
                generated,
            )@[j],
        forall|j: int|
            old(generated)@.len() <= j < final(generated)@.len() ==> drawn_from(#[trigger] final(generated)@[j], alphabet@, upper),
{
    let ghost start = old(generated)@;
    let mut k: i32 = 0;
    while k < count
        invariant
            alphabet@.len() > 0,
            0 <= k,
            k as nat <= amount(count),
            generated@.len() == start.len() + k,
            forall|j: int| 0 <= j < start.len() ==> #[trigger] generated@[j] == start[j],
            forall|j: int|
                start.len() <= j < generated@.len() ==> drawn_from(#[trigger] generated@[j], alphabet@, upper),
        decreases count - k,
    {
        let b = choose_byte(alphabet.as_slice(), rng);
        let c = if upper {
            ascii_upper(b) as char
        } else {
            b as char
        };
        generated.push(c);
        assert(drawn_from(generated@[generated@.len() - 1], alphabet@, upper));
        k = k + 1;
    }
}

/// Generates a password of `letters` lowercase letters, `uppercase`
/// upper-cased letters, `symbols` symbols and `numbers` digits, drawn
/// independently from `rng` and then shuffled. Negative counts draw nothing.
pub fn generate_password(
    letters: i32,
    uppercase: i32,
    symbols: i32,
    numbers: i32,
    rng: &mut StdRng,
) -> (r: String)
    ensures
        r@.len() == amount(letters) + amount(uppercase) + amount(symbols) + amount(numbers),
        forall|i: int| 0 <= i < r@.len() ==> is_allowed_char(#[trigger] r@[i]),
        is_arrangement(r@, amount(letters), amount(uppercase), amount(symbols), amount(numbers)),
{
    broadcast use vstd::seq_lib::to_multiset_contains;

    let lower = lowercase_alphabet();
    let syms = symbol_alphabet();
    let digits = digit_alphabet();
    assert(lower@.contains(lower@[0]));
    assert(syms@.contains(syms@[0]));
    assert(digits@.contains(digits@[0]));
    let mut generated: Vec<char> = Vec::new();
    draw_into(&mut generated, &lower, letters, false, rng);
    draw_into(&mut generated, &lower, uppercase, true, rng);
    draw_into(&mut generated, &syms, symbols, false, rng);
    draw_into(&mut generated, &digits, numbers, false, rng);
    let ghost d = generated@;
    let ghost (l, u, s, n) = (amount(letters), amount(uppercase), amount(symbols), amount(numbers));
    assert(is_category_blocks(d, l, u, s, n)) by {
        assert forall|i: int| 0 <= i < l implies is_lower_char(#[trigger] d[i]) by {
            let b = choose|b: u8| lower@.contains(b) && d[i] == b as char;
        }
        assert forall|i: int| l <= i < l + u implies is_upper_char(#[trigger] d[i]) by {
            let b = choose|b: u8| lower@.contains(b) && d[i] == upper_of(b) as char;
        }
        assert forall|i: int| l + u <= i < l + u + s implies is_symbol_char(#[trigger] d[i]) by {
            let b = choose|b: u8| syms@.contains(b) && d[i] == b as char;
        }
        assert forall|i: int|
            l + u + s <= i < l + u + s + n implies is_digit_char(#[trigger] d[i]) by {
            let b = choose|b: u8| digits@.contains(b) && d[i] == b as char;
        }
    }
    shuffle_chars(&mut generated, rng);
    let r = string_from_chars(&generated);
    assert forall|i: int| 0 <= i < r@.len() implies is_allowed_char(#[trigger] r@[i]) by {
        assert(r@.contains(r@[i]));
        assert(r@.to_multiset().count(r@[i]) > 0);
        let j = choose|j: int| 0 <= j < d.len() && d[j] == r@[i];
    }
    r
}

} // verus!
