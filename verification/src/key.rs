//! Executable version keys: a release name read once into its numbers, ready
//! to be compared with others.

use vstd::prelude::*;
use crate::text::chars_of;
use crate::version::{
    agree_before, all_digits, decimal, digits_end, equivalent, is_digit, is_normal,
    lemma_equivalent_not_precedes, lemma_first_difference_decides, lemma_precedes_asymmetric,
    lemma_shorter_is_smaller, marker_len, number_at, number_starting_at, numbers_from, precedes,
    segment_end, version_numbers,
};

verus! {

/// How one number stands to another.
#[derive(Clone, Copy, Debug, PartialEq, Eq, Structural)]
pub enum Rank {
    Lower,
    Same,
    Higher,
}

/// The numbers of a release name. Each number is kept as its decimal digits
/// without leading zeros, so a number of any size is held exactly.
#[derive(Debug)]
pub struct VersionKey {
    parts: Vec<Vec<char>>,
}

impl View for VersionKey {
    type V = Seq<nat>;

    closed spec fn view(&self) -> Seq<nat> {
        numbers_of(self.parts@)
    }
}

/// The numbers written by a list of digit strings.
spec fn numbers_of(parts: Seq<Vec<char>>) -> Seq<nat> {
    Seq::new(parts.len(), |k: int| decimal(parts[k]@))
}

/// Whether every digit string of a list is in shortest form.
spec fn all_normal(parts: Seq<Vec<char>>) -> bool {
    forall|k: int| 0 <= k < parts.len() ==> is_normal(#[trigger] parts[k]@)
}

/// A position that is reached from `from` over characters other than dots,
/// and that holds a dot or is the end, is where the piece ends.
proof fn lemma_segment_end_is(s: Seq<char>, from: int, end: int)
    requires
        0 <= from <= end <= s.len(),
        forall|k: int| from <= k < end ==> s[k] != '.',
        end == s.len() || s[end] == '.',
    ensures
        segment_end(s, from) == end,
    decreases end - from,
{
    if from < end {
        lemma_segment_end_is(s, from + 1, end);
    }
}

/// A position that is reached from `from` over digits, and that holds no
/// digit or is the end, is where the leading digits end.
proof fn lemma_digits_end_is(s: Seq<char>, from: int, end: int)
    requires
        0 <= from <= end <= s.len(),
        forall|k: int| from <= k < end ==> is_digit(s[k]),
        end == s.len() || !is_digit(s[end]),
    ensures
        digits_end(s, from) == end,
    decreases end - from,
{
    if from < end {
        lemma_digits_end_is(s, from + 1, end);
    }
}

fn is_digit_char(c: char) -> (r: bool)
    ensures
        r == is_digit(c),
{
    c >= '0' && c <= '9'
}

/// Finds where the dot-separated piece that starts at `from` ends.
fn find_segment_end(chars: &Vec<char>, from: usize) -> (end: usize)
    requires
        from <= chars.len(),
    ensures
        from <= end <= chars.len(),
        end == segment_end(chars@, from as int),
{
    let mut end: usize = from;
    while end < chars.len() && chars[end] != '.'
        invariant
            from <= end <= chars.len(),
            forall|k: int| from <= k < end ==> chars@[k] != '.',
        decreases chars.len() - end,
    {
        end = end + 1;
    }
    proof {
        lemma_segment_end_is(chars@, from as int, end as int);
    }
    end
}

/// Reads the leading digits of the piece that starts at `from`, dropping
/// leading zeros.
fn read_number(chars: &Vec<char>, from: usize) -> (digits: Vec<char>)
    requires
        from <= chars.len(),
    ensures
        is_normal(digits@),
        decimal(digits@) == number_starting_at(chars@, from as int),
{
    let mut digits: Vec<char> = Vec::new();
    let mut at: usize = from;
    while at < chars.len() && is_digit_char(chars[at])
        invariant
            from <= at <= chars.len(),
            forall|k: int| from <= k < at ==> is_digit(chars@[k]),
            is_normal(digits@),
            decimal(digits@) == decimal(chars@.subrange(from as int, at as int)),
        decreases chars.len() - at,
    {
        let c: char = chars[at];
        proof {
            let seen = chars@.subrange(from as int, at as int);
            let next = chars@.subrange(from as int, at + 1);
            assert(next.drop_last() =~= seen);
            assert(next.last() == c);
        }
        if digits.len() > 0 || c != '0' {
            let ghost before = digits@;
            digits.push(c);
            proof {
                assert(digits@.drop_last() =~= before);
                assert(digits@.last() == c);
                assert(digits@[0] != '0');
            }
        }
        at = at + 1;
    }
    proof {
        lemma_digits_end_is(chars@, from as int, at as int);
    }
    digits
}

/// Compares two numbers given by their digits in shortest form.
fn rank_digits(a: &Vec<char>, b: &Vec<char>) -> (r: Rank)
    requires
        is_normal(a@),
        is_normal(b@),
    ensures
        r == Rank::Lower <==> decimal(a@) < decimal(b@),
        r == Rank::Same <==> decimal(a@) == decimal(b@),
        r == Rank::Higher <==> decimal(a@) > decimal(b@),
{
    if a.len() < b.len() {
        proof {
            lemma_shorter_is_smaller(a@, b@);
        }
        return Rank::Lower;
    }
    if a.len() > b.len() {
        proof {
            lemma_shorter_is_smaller(b@, a@);
        }
        return Rank::Higher;
    }
    let mut i: usize = 0;
    while i < a.len()
        invariant
            a.len() == b.len(),
            i <= a.len(),
            all_digits(a@),
            all_digits(b@),
            forall|k: int| 0 <= k < i ==> a@[k] == b@[k],
        decreases a.len() - i,
    {
        if a[i] < b[i] {
            proof {
                lemma_first_difference_decides(a@, b@, i as int);
            }
            return Rank::Lower;
        }
        if a[i] > b[i] {
            proof {
                lemma_first_difference_decides(b@, a@, i as int);
            }
            return Rank::Higher;
        }
        i = i + 1;
    }
    assert(a@ =~= b@);
    Rank::Same
}

impl VersionKey {
    #[verifier::type_invariant]
    spec fn well_formed(&self) -> bool {
        all_normal(self.parts@)
    }

    /// Reads a release name into its numbers.
    pub fn parse(name: &str) -> (key: VersionKey)
        ensures
            key@ == version_numbers(name@),
    {
        let chars: Vec<char> = chars_of(name);
        let n: usize = chars.len();
        let start: usize = if n > 0 && !is_digit_char(chars[0]) {
            1
        } else {
            0
        };
        let mut parts: Vec<Vec<char>> = Vec::new();
        let mut at: usize = start;
        let mut more: bool = true;
        assert(numbers_of(parts@) + numbers_from(chars@, at as int) =~= numbers_from(
            chars@,
            start as int,
        ));
        while more
            invariant
                n == chars.len(),
                start <= at <= n,
                all_normal(parts@),
                more ==> numbers_of(parts@) + numbers_from(chars@, at as int) == numbers_from(
                    chars@,
                    start as int,
                ),
                !more ==> numbers_of(parts@) == numbers_from(chars@, start as int),
            decreases n - at + (if more { 1int } else { 0int }),
        {
            let digits: Vec<char> = read_number(&chars, at);
            let end: usize = find_segment_end(&chars, at);
            let ghost before = parts@;
            let ghost number = decimal(digits@);
            parts.push(digits);
            proof {
                assert(numbers_of(parts@) =~= numbers_of(before).push(number));
                assert forall|k: int| 0 <= k < parts@.len() implies is_normal(
                    #[trigger] parts@[k]@,
                ) by {
                    if k < before.len() {
                        assert(parts@[k] == before[k]);
                    }
                }
            }
            if end < n {
                proof {
                    assert(numbers_from(chars@, at as int) == seq![number] + numbers_from(
                        chars@,
                        end + 1,
                    ));
                    assert(numbers_of(before).push(number) + numbers_from(chars@, end + 1)
                        =~= numbers_of(before) + (seq![number] + numbers_from(chars@, end + 1)));
                }
                at = end + 1;
            } else {
                proof {
                    assert(numbers_from(chars@, at as int) == seq![number]);
                    assert(numbers_of(before).push(number) =~= numbers_of(before) + seq![number]);
                }
                more = false;
            }
        }
        assert(start == marker_len(name@));
        VersionKey { parts }
    }

    /// How many numbers the name held.
    pub fn len(&self) -> (n: usize)
        ensures
            n == self@.len(),
    {
        self.parts.len()
    }

    /// How this version stands to `other`: lower, the same, or higher.
    pub fn rank(&self, other: &VersionKey) -> (r: Rank)
        ensures
            r == Rank::Lower <==> precedes(self@, other@),
            r == Rank::Same <==> equivalent(self@, other@),
            r == Rank::Higher <==> precedes(other@, self@),
    {
        proof {
            use_type_invariant(self);
            use_type_invariant(other);
        }
        let zero: Vec<char> = Vec::new();
        let la: usize = self.parts.len();
        let lb: usize = other.parts.len();
        let n: usize = if la < lb {
            lb
        } else {
            la
        };
        let mut k: usize = 0;
        while k < n
            invariant
                la == self.parts@.len(),
                lb == other.parts@.len(),
                n >= la,
                n >= lb,
                k <= n,
                zero@.len() == 0,
                all_normal(self.parts@),
                all_normal(other.parts@),
                agree_before(self@, other@, k as int),
            decreases n - k,
        {
            let a: &Vec<char> = if k < la {
                &self.parts[k]
            } else {
                &zero
            };
            let b: &Vec<char> = if k < lb {
                &other.parts[k]
            } else {
                &zero
            };
            assert(decimal(a@) == number_at(self@, k as int));
            assert(decimal(b@) == number_at(other@, k as int));
            match rank_digits(a, b) {
                Rank::Lower => {
                    proof {
                        lemma_precedes_asymmetric(self@, other@);
                    }
                    return Rank::Lower;
                },
                Rank::Higher => {
                    proof {
                        assert(agree_before(other@, self@, k as int));
                        lemma_precedes_asymmetric(other@, self@);
                    }
                    return Rank::Higher;
                },
                Rank::Same => {},
            }
            k = k + 1;
        }
        proof {
            assert(equivalent(self@, other@)) by {
                assert forall|j: int| 0 <= j implies number_at(self@, j) == number_at(
                    other@,
                    j,
                ) by {
                    if j < k {
                    } else {
                    }
                }
            }
            lemma_equivalent_not_precedes(self@, other@);
        }
        Rank::Same
    }

    /// Whether this version is strictly lower than `other`.
    pub fn is_below(&self, other: &VersionKey) -> (r: bool)
        ensures
            r == precedes(self@, other@),
    {
        self.rank(other) == Rank::Lower
    }
}

} // verus!
