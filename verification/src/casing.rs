//! Changing the case of letters, at random places.
use vstd::prelude::*;

use rand::distributions::{Distribution, Uniform};
use rand::rngs::ThreadRng;

use crate::text::{
    char_is_uppercase, char_to_lowercase, char_to_uppercase, is_uppercase_char, lowercase_chars,
    chars_of, string_of, uppercase_chars,
};

verus! {

#[verifier::external_type_specification]
#[verifier::external_body]
pub struct ExThreadRng(ThreadRng);

/// Calls `rand::thread_rng`: a handle to the random number generator of
/// the current thread.  Nothing is claimed of it.
#[verifier::external_body]
fn thread_rng() -> ThreadRng {
    rand::thread_rng()
}

/// Calls `Uniform::from(low..high)` and draws one number with
/// `Distribution::sample`.  `Uniform::new` asserts `low < high`; a sample of
/// the integer distribution is `low` plus a number below `high - low`.  Which
/// number comes out is chance.
#[verifier::external_body]
fn sample_uniform(rng: &mut ThreadRng, low: usize, high: usize) -> (k: usize)
    requires
        low < high,
    ensures
        low <= k < high,
{
    Uniform::from(low..high).sample(rng)
}

/// Calls `rand::seq::index::sample`, which draws exactly `amount` distinct
/// indices from `0..length` (and panics when `amount > length`), and turns
/// the `IndexVec` into a `Vec`.  Which indices, and their order, is chance.
#[verifier::external_body]
fn sample_indexes(rng: &mut ThreadRng, length: usize, amount: usize) -> (v: Vec<usize>)
    requires
        amount <= length,
    ensures
        v@.len() == amount,
        v@.no_duplicates(),
        forall|t: int| 0 <= t < v@.len() ==> #[trigger] v@[t] < length,
{
    rand::seq::index::sample(rng, length, amount).into_vec()
}

/// `c` with its case swapped: the first character of its lower-case mapping
/// if it is upper case, else the first character of its upper-case mapping.
pub open spec fn swapped_case(c: char) -> char {
    if is_uppercase_char(c) {
        lowercase_chars(c)[0]
    } else {
        uppercase_chars(c)[0]
    }
}

/// Swaps the case of `c`.
pub fn swap_case(c: char) -> (r: char)
    ensures
        r == swapped_case(c),
{
    if char_is_uppercase(c) {
        let lower = char_to_lowercase(c);
        lower[0]
    } else {
        let upper = char_to_uppercase(c);
        upper[0]
    }
}

/// `s` with the case of the characters at the positions in `flipped` swapped.
pub open spec fn with_swapped_case_at(s: Seq<char>, flipped: Seq<usize>) -> Seq<char> {
    Seq::new(
        s.len(),
        |j: int|
            if flipped.contains(j as usize) {
                swapped_case(s[j])
            } else {
                s[j]
            },
    )
}

/// How many characters of a string of `len` characters get their case
/// swapped: at least a quarter, and fewer than three quarters (fewer than
/// one, for strings of fewer than two characters).
pub open spec fn flip_count_allowed(len: int, count: int) -> bool {
    let high = if len * 3 / 4 > 1 {
        len * 3 / 4
    } else {
        1
    };
    len / 4 <= count < high
}

/// `r` is `s` with the case of some of its characters swapped: as many
/// distinct positions as `flip_count_allowed` admits.
pub open spec fn is_case_randomization(s: Seq<char>, r: Seq<char>) -> bool {
    exists|flipped: Seq<usize>|
        {
            &&& flipped.no_duplicates()
            &&& forall|t: int| 0 <= t < flipped.len() ==> #[trigger] flipped[t] < s.len()
            &&& flip_count_allowed(s.len() as int, flipped.len() as int)
            &&& r == with_swapped_case_at(s, flipped)
        }
}

/// Swaps the case of the characters of `chars` at the positions `indexes`,
/// each of which occurs once.
pub fn swap_case_at(chars: &mut Vec<char>, indexes: &Vec<usize>)
    requires
        indexes@.no_duplicates(),
        forall|t: int| 0 <= t < indexes@.len() ==> #[trigger] indexes@[t] < old(chars)@.len(),
    ensures
        final(chars)@ == with_swapped_case_at(old(chars)@, indexes@),
{
    let ghost s = chars@;
    let len = chars.len();
    for t in 0..indexes.len()
        invariant
            s.len() == chars@.len(),
            s.len() == len,
            indexes@.no_duplicates(),
            forall|u: int| 0 <= u < indexes@.len() ==> #[trigger] indexes@[u] < s.len(),
            chars@ == with_swapped_case_at(s, indexes@.subrange(0, t as int)),
    {
        let index = indexes[t];
        assert(!indexes@.subrange(0, t as int).contains(index));
        let swapped = swap_case(chars[index]);
        chars[index] = swapped;
        proof {
            broadcast use vstd::seq_lib::group_seq_properties;
            let before = indexes@.subrange(0, t as int);
            let after = indexes@.subrange(0, t + 1);
            assert(after =~= before.push(index));
            assert forall|j: int| 0 <= j < s.len() implies #[trigger] chars@[j]
                == with_swapped_case_at(s, after)[j] by {
                assert(after.contains(j as usize) <==> (before.contains(j as usize) || j
                    == index));
            }
            assert(chars@ =~= with_swapped_case_at(s, after));
        }
    }
    assert(indexes@.subrange(0, indexes@.len() as int) =~= indexes@);
}

/// Randomizes the case of the characters of `s`: the case of a randomly
/// drawn number of characters at randomly drawn positions is swapped.
pub fn randomize_string_case(s: &str) -> (r: String)
    requires
        s@.len() * 3 <= usize::MAX,
    ensures
        is_case_randomization(s@, r@),
{
    let mut chars = chars_of(s);
    let mut rng = thread_rng();

    let min = chars.len() / 4;
    let three_quarters = chars.len() * 3 / 4;
    let max = if three_quarters > 1 {
        three_quarters
    } else {
        1
    };
    let num_indexes = sample_uniform(&mut rng, min, max);

    let indexes = sample_indexes(&mut rng, chars.len(), num_indexes);
    swap_case_at(&mut chars, &indexes);
    assert(flip_count_allowed(s@.len() as int, indexes@.len() as int));
    string_of(&chars)
}

/// Randomizing the case of a string keeps its length, and every character
/// is either left alone or has its case swapped.
pub proof fn lemma_randomization_shape(s: Seq<char>, r: Seq<char>)
    requires
        is_case_randomization(s, r),
    ensures
        r.len() == s.len(),
        forall|j: int| 0 <= j < s.len() ==> #[trigger] r[j] == s[j] || r[j] == swapped_case(s[j]),
{
}

} // verus!
