//! Event ids: `evt_` followed by a ULID in its 26-character Crockford base-32
//! text. The time prefix of a ULID makes later ids sort after earlier ones,
//! which is what the `since` cursor of a subscription compares.

use vstd::arithmetic::div_mod::*;
use vstd::arithmetic::power2::*;
use vstd::prelude::*;

verus! {

/// The code point of Crockford base-32 digit `d` (0 to 31): `0`-`9`, then
/// the letters `A`-`Z` without `I`, `L`, `O` and `U`.
pub open spec fn crockford_code(d: int) -> u32 {
    if d < 10 {
        (48 + d) as u32
    } else if d < 18 {
        (65 + (d - 10)) as u32
    } else if d < 20 {
        (74 + (d - 18)) as u32
    } else if d < 22 {
        (77 + (d - 20)) as u32
    } else if d < 27 {
        (80 + (d - 22)) as u32
    } else {
        (86 + (d - 27)) as u32
    }
}

/// The 32 digits of Crockford base 32: `0123456789ABCDEFGHJKMNPQRSTVWXYZ`.
pub open spec fn crockford_alphabet() -> Seq<char> {
    Seq::new(32, |d: int| crockford_code(d) as char)
}

/// Digit `j` (0 is the most significant) of the 26-digit base-32 form of `value`.
pub open spec fn ulid_digit(value: u128, j: int) -> int {
    ((value as int) / (pow2((5 * (25 - j)) as nat) as int)) % 32
}

/// The text of the ULID whose 128-bit value is `value`: 26 base-32 digits,
/// most significant first.
pub open spec fn ulid_text(value: u128) -> Seq<char> {
    Seq::new(26, |j: int| crockford_alphabet()[ulid_digit(value, j)])
}

/// The event id made from the ULID value `value`.
pub open spec fn event_id_of(value: u128) -> Seq<char> {
    "evt_"@ + ulid_text(value)
}

/// `s` is an event id made from some ULID.
pub open spec fn is_event_id(s: Seq<char>) -> bool {
    exists|value: u128| s == event_id_of(value)
}

/// `v / 32^k`: the digits of `v` above the lowest `k`.
pub open spec fn high_digits(v: u128, k: nat) -> int {
    (v as int) / (pow2(5 * k) as int)
}

proof fn lemma_high_digits_step(v: u128, k: nat)
    ensures
        high_digits(v, k + 1) == high_digits(v, k) / 32,
{
    lemma2_to64();
    lemma_pow2_adds(5 * k, 5);
    assert(5 * (k + 1) == 5 * k + 5) by (nonlinear_arith);
    lemma_pow2_pos(5 * k);
    lemma_div_denominator(v as int, pow2(5 * k) as int, 32);
}

proof fn lemma_high_digits_top(v: u128)
    ensures
        high_digits(v, 26) == 0,
{
    lemma2_to64();
    lemma_pow2_adds(64, 64);
    lemma_pow2_strictly_increases(128, 130);
    assert(pow2(128) == 0x1_0000_0000_0000_0000_0000_0000_0000_0000) by (nonlinear_arith)
        requires
            pow2(128) == pow2(64) * pow2(64),
            pow2(64) == 0x1_0000_0000_0000_0000,
    ;
    lemma_basic_div(v as int, pow2(130) as int);
}

proof fn lemma_high_digits_bottom(v: u128)
    ensures
        high_digits(v, 0) == v as int,
{
    lemma2_to64();
    assert(5 * 0nat == 0);
    assert(pow2(0) == 1);
    assert((v as int) / 1 == v as int);
}

proof fn lemma_high_digits_agree_above(u1: u128, u2: u128, k: nat, m: nat)
    requires
        high_digits(u1, k) == high_digits(u2, k),
    ensures
        high_digits(u1, k + m) == high_digits(u2, k + m),
    decreases m,
{
    if m > 0 {
        lemma_high_digits_agree_above(u1, u2, k, (m - 1) as nat);
        lemma_high_digits_step(u1, (k + m - 1) as nat);
        lemma_high_digits_step(u2, (k + m - 1) as nat);
    }
}

proof fn lemma_split_point(u1: u128, u2: u128, top: nat) -> (k: nat)
    requires
        1 <= top,
        high_digits(u1, top) == high_digits(u2, top),
        high_digits(u1, 0) != high_digits(u2, 0),
    ensures
        k < top,
        high_digits(u1, k) != high_digits(u2, k),
        high_digits(u1, k + 1) == high_digits(u2, k + 1),
    decreases top,
{
    let below = (top - 1) as nat;
    if high_digits(u1, below) != high_digits(u2, below) {
        below
    } else {
        lemma_split_point(u1, u2, below)
    }
}

proof fn lemma_lex_lt_at(a: Seq<char>, b: Seq<char>, p: int)
    requires
        0 <= p < a.len(),
        p < b.len(),
        forall|i: int| 0 <= i < p ==> a[i] == b[i],
        (a[p] as u32) < (b[p] as u32),
    ensures
        crate::text::lex_lt(a, b),
    decreases p,
{
    if p > 0 {
        assert forall|i: int| 0 <= i < p - 1 implies a.drop_first()[i] == b.drop_first()[i] by {
            assert(a[i + 1] == b[i + 1]);
        }
        lemma_lex_lt_at(a.drop_first(), b.drop_first(), p - 1);
    }
}

/// Ids sort as their ULIDs do: a larger ULID value (a later time, or the same
/// millisecond with a larger random part) gives an id that sorts after, which
/// is what comparing a replay cursor with the ring's ids relies on.
pub proof fn law_event_ids_sort_by_ulid(u1: u128, u2: u128)
    requires
        u1 < u2,
    ensures
        crate::text::lex_lt(event_id_of(u1), event_id_of(u2)),
{
    reveal_strlit("evt_");
    lemma_high_digits_top(u1);
    lemma_high_digits_top(u2);
    lemma_high_digits_bottom(u1);
    lemma_high_digits_bottom(u2);
    let k = lemma_split_point(u1, u2, 26);
    let j = 25 - k;
    lemma_high_digits_step(u1, k);
    lemma_high_digits_step(u2, k);
    let q1 = high_digits(u1, k);
    let q2 = high_digits(u2, k);
    lemma_pow2_pos(5 * k);
    lemma_div_is_ordered(u1 as int, u2 as int, pow2(5 * k) as int);
    lemma_fundamental_div_mod(q1, 32);
    lemma_fundamental_div_mod(q2, 32);
    lemma_mod_bound(q1, 32);
    lemma_mod_bound(q2, 32);
    assert(q1 % 32 < q2 % 32);
    assert(ulid_digit(u1, j) == q1 % 32);
    assert(ulid_digit(u2, j) == q2 % 32);
    let a = event_id_of(u1);
    let b = event_id_of(u2);
    assert forall|i: int| 0 <= i < 4 + j implies a[i] == b[i] by {
        if i >= 4 {
            let jj = i - 4;
            lemma_high_digits_agree_above(u1, u2, k + 1, (25 - jj - (k + 1)) as nat);
            assert(ulid_digit(u1, jj) == high_digits(u1, (25 - jj) as nat) % 32);
            assert(ulid_digit(u2, jj) == high_digits(u2, (25 - jj) as nat) % 32);
        }
    }
    lemma_lex_lt_at(a, b, 4 + j);
}

/// Calls `ulid::Ulid::new`, which reads the clock and a random source; its
/// value is not stated.
#[verifier::external_body]
fn fresh_ulid_value() -> u128 {
    ulid::Ulid::new().0
}

/// Calls `ulid::Ulid::to_string`, which encodes the value as 26 Crockford
/// base-32 digits, most significant first (`base32::encode` in the ulid crate).
#[verifier::external_body]
fn ulid_string(value: u128) -> (r: String)
    ensures
        r@ == ulid_text(value),
{
    ulid::Ulid(value).to_string()
}

/// The event id made from the ULID value `value`.
pub fn event_id_from_ulid(value: u128) -> (r: String)
    ensures
        r@ == event_id_of(value),
{
    let text = ulid_string(value);
    let prefix = "evt_".to_string();
    let mut id = prefix;
    id.append(text.as_str());
    id
}

/// A fresh event id from a new ULID.
pub fn next_event_id() -> (r: String)
    ensures
        is_event_id(r@),
{
    let value = fresh_ulid_value();
    event_id_from_ulid(value)
}

} // verus!
