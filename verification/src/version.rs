//! Semantic-version ordering of release names.
//!
//! A release name such as `v18.16.0` is read as a sequence of numbers: an
//! optional leading marker character is dropped, the rest is split at every
//! dot, and each piece counts as the number written by its leading decimal
//! digits (zero when it has none). Two such sequences are ordered number by
//! number from the left, the shorter one padded with zeros.

use vstd::prelude::*;
use crate::text::chars_of;

verus! {

/// Whether `c` is one of the ten ASCII decimal digits.
pub open spec fn is_digit(c: char) -> bool {
    '0' <= c && c <= '9'
}

/// The value of a decimal digit.
pub open spec fn digit_value(c: char) -> nat {
    (c as int - '0' as int) as nat
}

/// The number that a string of decimal digits writes, most significant digit
/// first. The empty string writes zero.
pub open spec fn decimal(digits: Seq<char>) -> nat
    decreases digits.len(),
{
    if digits.len() == 0 {
        0
    } else {
        10 * decimal(digits.drop_last()) + digit_value(digits.last())
    }
}

/// The first position at or after `from` that does not hold a digit; the
/// length of `s` if every later character is a digit.
pub open spec fn digits_end(s: Seq<char>, from: int) -> int
    decreases s.len() - from,
{
    if 0 <= from < s.len() && is_digit(s[from]) {
        digits_end(s, from + 1)
    } else {
        from
    }
}

/// The first position at or after `from` that holds a dot; the length of `s`
/// if no later character is a dot.
pub open spec fn segment_end(s: Seq<char>, from: int) -> int
    decreases s.len() - from,
{
    if 0 <= from < s.len() && s[from] != '.' {
        segment_end(s, from + 1)
    } else {
        from
    }
}

/// The number of the dot-separated piece that starts at `from`: the value of
/// its leading digits.
pub open spec fn number_starting_at(s: Seq<char>, from: int) -> nat {
    decimal(s.subrange(from, digits_end(s, from)))
}

/// The numbers of the dot-separated pieces of `s` from position `from` on.
pub open spec fn numbers_from(s: Seq<char>, from: int) -> Seq<nat>
    decreases s.len() - from,
{
    let end = segment_end(s, from);
    if from <= end < s.len() {
        seq![number_starting_at(s, from)] + numbers_from(s, end + 1)
    } else {
        seq![number_starting_at(s, from)]
    }
}

/// How many leading characters of a release name are a marker: one if the
/// name starts with something other than a digit, none otherwise.
pub open spec fn marker_len(s: Seq<char>) -> int {
    if s.len() > 0 && !is_digit(s[0]) {
        1
    } else {
        0
    }
}

/// The numbers that a release name stands for.
pub open spec fn version_numbers(name: Seq<char>) -> Seq<nat> {
    numbers_from(name, marker_len(name))
}

/// The `k`-th number of `v`, zero beyond its end.
pub open spec fn number_at(v: Seq<nat>, k: int) -> nat {
    if 0 <= k < v.len() {
        v[k]
    } else {
        0
    }
}

/// Whether `a` and `b` hold the same numbers at every position before `k`.
pub open spec fn agree_before(a: Seq<nat>, b: Seq<nat>, k: int) -> bool {
    forall|j: int| 0 <= j < k ==> number_at(a, j) == number_at(b, j)
}

/// Whether version `a` is strictly lower than version `b`: at the first
/// position where they differ, `a` holds the smaller number.
pub open spec fn precedes(a: Seq<nat>, b: Seq<nat>) -> bool {
    exists|k: int| 0 <= k && agree_before(a, b, k) && number_at(a, k) < number_at(b, k)
}

/// Whether `a` and `b` denote the same version: they agree at every position
/// once the shorter is padded with zeros.
pub open spec fn equivalent(a: Seq<nat>, b: Seq<nat>) -> bool {
    forall|k: int| 0 <= k ==> number_at(a, k) == number_at(b, k)
}

/// Ten to the power `n`.
pub open spec fn pow10(n: nat) -> nat
    decreases n,
{
    if n == 0 {
        1
    } else {
        10 * pow10((n - 1) as nat)
    }
}

/// Whether every character of `d` is a digit.
pub open spec fn all_digits(d: Seq<char>) -> bool {
    forall|i: int| 0 <= i < d.len() ==> is_digit(#[trigger] d[i])
}

/// Whether `d` is the shortest way to write its number: digits only, and no
/// leading zero (so zero itself is the empty string).
pub open spec fn is_normal(d: Seq<char>) -> bool {
    all_digits(d) && (d.len() > 0 ==> d[0] != '0')
}

/// A digit string of length `n` writes a number below ten to the `n`; without
/// a leading zero it writes at least ten to the `n - 1`.
pub proof fn lemma_decimal_bounds(d: Seq<char>)
    requires
        all_digits(d),
    ensures
        decimal(d) < pow10(d.len()),
        d.len() > 0 && d[0] != '0' ==> decimal(d) >= pow10((d.len() - 1) as nat),
    decreases d.len(),
{
    if d.len() > 0 {
        let front = d.drop_last();
        lemma_decimal_bounds(front);
        if d.len() > 1 {
            assert(front[0] == d[0]);
        }
    }
}

/// Ten to the `n` grows with `n`.
pub proof fn lemma_pow10_monotonic(m: nat, n: nat)
    requires
        m <= n,
    ensures
        pow10(m) <= pow10(n),
    decreases n,
{
    if m < n {
        lemma_pow10_monotonic(m, (n - 1) as nat);
    }
}

/// Of two numbers written without leading zeros, the one with fewer digits is
/// the smaller.
pub proof fn lemma_shorter_is_smaller(a: Seq<char>, b: Seq<char>)
    requires
        is_normal(a),
        is_normal(b),
        a.len() < b.len(),
    ensures
        decimal(a) < decimal(b),
{
    lemma_decimal_bounds(a);
    lemma_decimal_bounds(b);
    lemma_pow10_monotonic(a.len(), (b.len() - 1) as nat);
}

/// Of two digit strings of one length, the one with the smaller digit at the
/// first position where they differ writes the smaller number.
pub proof fn lemma_first_difference_decides(a: Seq<char>, b: Seq<char>, i: int)
    requires
        all_digits(a),
        all_digits(b),
        a.len() == b.len(),
        0 <= i < a.len(),
        forall|k: int| 0 <= k < i ==> a[k] == b[k],
        a[i] < b[i],
    ensures
        decimal(a) < decimal(b),
    decreases a.len(),
{
    let fa = a.drop_last();
    let fb = b.drop_last();
    if i == a.len() - 1 {
        assert(fa =~= fb);
    } else {
        lemma_first_difference_decides(fa, fb, i);
    }
}

/// No version is lower than itself, nor lower than one that denotes the same
/// version.
pub proof fn lemma_equivalent_not_precedes(a: Seq<nat>, b: Seq<nat>)
    requires
        equivalent(a, b),
    ensures
        !precedes(a, b),
        !precedes(b, a),
{
}

/// The order is transitive.
pub proof fn lemma_precedes_transitive(a: Seq<nat>, b: Seq<nat>, c: Seq<nat>)
    requires
        precedes(a, b),
        precedes(b, c),
    ensures
        precedes(a, c),
{
    let k1 = choose|k: int| 0 <= k && agree_before(a, b, k) && number_at(a, k) < number_at(b, k);
    let k2 = choose|k: int| 0 <= k && agree_before(b, c, k) && number_at(b, k) < number_at(c, k);
    let k = if k1 <= k2 { k1 } else { k2 };
    assert(agree_before(a, c, k));
    assert(number_at(a, k) < number_at(c, k));
}

/// Two versions cannot each be lower than the other.
pub proof fn lemma_precedes_asymmetric(a: Seq<nat>, b: Seq<nat>)
    requires
        precedes(a, b),
    ensures
        !precedes(b, a),
{
    if precedes(b, a) {
        let k1 = choose|k: int| 0 <= k && agree_before(a, b, k) && number_at(a, k) < number_at(b, k);
        let k2 = choose|k: int| 0 <= k && agree_before(b, a, k) && number_at(b, k) < number_at(a, k);
        if k1 < k2 {
            assert(number_at(b, k1) == number_at(a, k1));
        } else if k2 < k1 {
            assert(number_at(a, k2) == number_at(b, k2));
        }
    }
}

/// Of two versions that agree before position `k`, one is lower than the
/// other or they denote the same version.
proof fn lemma_comparable_from(a: Seq<nat>, b: Seq<nat>, k: int)
    requires
        0 <= k,
        agree_before(a, b, k),
    ensures
        precedes(a, b) || precedes(b, a) || equivalent(a, b),
    decreases a.len() + b.len() - k,
{
    if k >= a.len() && k >= b.len() {
        assert(equivalent(a, b)) by {
            assert forall|j: int| 0 <= j implies number_at(a, j) == number_at(b, j) by {
                if j < k {
                } else {
                }
            }
        }
    } else if number_at(a, k) < number_at(b, k) {
    } else if number_at(b, k) < number_at(a, k) {
        assert(agree_before(b, a, k));
    } else {
        assert(agree_before(a, b, k + 1));
        lemma_comparable_from(a, b, k + 1);
    }
}

/// Any two versions are comparable: one is lower than the other, or they
/// denote the same version.
pub proof fn lemma_precedes_total(a: Seq<nat>, b: Seq<nat>)
    ensures
        precedes(a, b) || precedes(b, a) || equivalent(a, b),
{
    lemma_comparable_from(a, b, 0);
}

/// A version that is not above `b` stays below everything that `b` is below.
pub proof fn lemma_not_above_stays_below(a: Seq<nat>, b: Seq<nat>, c: Seq<nat>)
    requires
        !precedes(b, a),
        precedes(b, c),
    ensures
        precedes(a, c),
{
    lemma_precedes_total(a, b);
    if precedes(a, b) {
        lemma_precedes_transitive(a, b, c);
    } else {
        let k = choose|k: int| 0 <= k && agree_before(b, c, k) && number_at(b, k) < number_at(c, k);
        assert(agree_before(a, c, k));
        assert(number_at(a, k) == number_at(b, k));
    }
}

/// Putting one character in front of a text moves every piece one position
/// to the right and changes none of them.
proof fn lemma_numbers_shift(front: char, s: Seq<char>, from: int)
    requires
        0 <= from <= s.len(),
    ensures
        digits_end(seq![front] + s, from + 1) == digits_end(s, from) + 1,
        segment_end(seq![front] + s, from + 1) == segment_end(s, from) + 1,
        from <= digits_end(s, from) <= s.len(),
        from <= segment_end(s, from) <= s.len(),
        numbers_from(seq![front] + s, from + 1) == numbers_from(s, from),
    decreases s.len() - from,
{
    let t = seq![front] + s;
    lemma_ends_shift(front, s, from);
    let d = digits_end(s, from);
    let e = segment_end(s, from);
    assert(t.subrange(from + 1, d + 1) =~= s.subrange(from, d));
    if e < s.len() {
        lemma_numbers_shift(front, s, e + 1);
    }
}

/// Putting one character in front of a text moves the end of the digits and
/// the end of the piece one position to the right.
proof fn lemma_ends_shift(front: char, s: Seq<char>, from: int)
    requires
        0 <= from <= s.len(),
    ensures
        digits_end(seq![front] + s, from + 1) == digits_end(s, from) + 1,
        segment_end(seq![front] + s, from + 1) == segment_end(s, from) + 1,
        from <= digits_end(s, from) <= s.len(),
        from <= segment_end(s, from) <= s.len(),
    decreases s.len() - from,
{
    let t = seq![front] + s;
    if from < s.len() {
        assert(t[from + 1] == s[from]);
        lemma_ends_shift(front, s, from + 1);
    }
}

/// A marker does not change the version that a name stands for: `v18.16.0`
/// and `18.16.0` are the same version.
pub proof fn lemma_marker_is_ignored(marker: char, name: Seq<char>)
    requires
        !is_digit(marker),
        name.len() > 0,
        is_digit(name[0]),
    ensures
        version_numbers(seq![marker] + name) == version_numbers(name),
{
    lemma_numbers_shift(marker, name, 0);
}

} // verus!
