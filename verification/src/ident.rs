//! Identifiers for new folders.

use rand::Rng;
use vstd::prelude::*;
use crate::text::from_chars;

verus! {

/// The number of characters in each half of a folder identifier.
pub const SEGMENT_LENGTH: usize = 5;

/// The character between the two halves of a folder identifier.
pub const SEPARATOR: char = '-';

/// An ASCII letter or digit.
pub open spec fn is_alphanumeric(c: char) -> bool {
    ||| 'a' <= c <= 'z'
    ||| 'A' <= c <= 'Z'
    ||| '0' <= c <= '9'
}

/// The shape of a generated folder identifier: two segments of five ASCII
/// letters or digits with a hyphen between them.
pub open spec fn is_folder_id(id: Seq<char>) -> bool {
    &&& id.len() == 2 * SEGMENT_LENGTH + 1
    &&& id[SEGMENT_LENGTH as int] == SEPARATOR
    &&& forall|i: int|
        0 <= i < id.len() && i != SEGMENT_LENGTH ==> is_alphanumeric(#[trigger] id[i])
}

/// `Rng::sample_iter` over `Alphanumeric` on the thread's generator, cut off
/// after `n` samples: `n` characters, each an ASCII letter or digit. Which
/// ones is left to chance, so two calls need not agree.
#[verifier::external_body]
fn random_segment(n: usize) -> (r: Vec<char>)
    ensures
        r@.len() == n,
        forall|i: int| 0 <= i < r@.len() ==> is_alphanumeric(#[trigger] r@[i]),
{
    rand::rng().sample_iter(&rand::distr::Alphanumeric).take(n).map(char::from).collect()
}

/// The identifier made of two segments: the first, a hyphen, the second.
pub fn join_segments(first: &Vec<char>, second: &Vec<char>) -> (r: String)
    ensures
        r@ == first@ + seq![SEPARATOR] + second@,
{
    let mut id: Vec<char> = Vec::new();
    let mut i: usize = 0;
    while i < first.len()
        invariant
            i <= first.len(),
            id@ == first@.take(i as int),
        decreases first.len() - i,
    {
        id.push(first[i]);
        proof {
            first@.lemma_take_succ_push(i as int);
        }
        i += 1;
    }
    id.push(SEPARATOR);
    let mut j: usize = 0;
    proof {
        first@.lemma_take_len();
        assert(second@.take(0) =~= Seq::empty());
    }
    while j < second.len()
        invariant
            j <= second.len(),
            id@ == first@ + seq![SEPARATOR] + second@.take(j as int),
        decreases second.len() - j,
    {
        id.push(second[j]);
        proof {
            second@.lemma_take_succ_push(j as int);
            assert((first@ + seq![SEPARATOR] + second@.take(j as int)).push(second@[j as int])
                =~= first@ + seq![SEPARATOR] + second@.take(j as int).push(second@[j as int]));
        }
        j += 1;
    }
    proof {
        second@.lemma_take_len();
    }
    from_chars(&id)
}

/// A new folder identifier: two random segments joined by a hyphen.
///
/// Nothing is known of the daemon's folders here, so the identifier is not
/// compared with those in use; that it is new rests on chance alone.
pub fn generate_id() -> (r: String)
    ensures
        is_folder_id(r@),
{
    let first = random_segment(SEGMENT_LENGTH);
    let second = random_segment(SEGMENT_LENGTH);
    join_segments(&first, &second)
}

} // verus!
