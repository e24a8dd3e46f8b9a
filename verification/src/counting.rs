use vstd::prelude::*;
use vstd::string::*;
use crate::text::to_char_vec;

verus! {

/// The five punctuation characters that can be counted besides the letters.
pub const PUNCTUATION_CHARS: &'static str = ",-'.!";

/// The twenty-six lowercase letters, in order.
pub open spec fn spec_letters() -> Seq<char> {
    "abcdefghijklmnopqrstuvwxyz"@
}

/// The five countable punctuation characters, in order.
pub open spec fn spec_punct() -> Seq<char> {
    ",-'.!"@
}

/// The countable alphabet: the letters, followed by the punctuation
/// characters when those are included.
pub open spec fn spec_alphabet(punct: bool) -> Seq<char> {
    if punct {
        spec_letters() + spec_punct()
    } else {
        spec_letters()
    }
}

/// Builds the countable alphabet as a vector.
pub fn alphabet(punct: bool) -> (r: Vec<char>)
    ensures
        r@ == spec_alphabet(punct),
{
    let mut v = to_char_vec("abcdefghijklmnopqrstuvwxyz");
    if punct {
        let mut p = to_char_vec(PUNCTUATION_CHARS);
        v.append(&mut p);
    }
    v
}

/// How often the character occurs in the text.
pub open spec fn spec_occ(s: Seq<char>, c: char) -> nat
    decreases s.len(),
{
    if s.len() == 0 {
        0
    } else {
        spec_occ(s.drop_last(), c) + (if s.last() == c {
            1nat
        } else {
            0nat
        })
    }
}

pub proof fn lemma_occ_le_len(s: Seq<char>, c: char)
    ensures
        spec_occ(s, c) <= s.len(),
    decreases s.len(),
{
    if s.len() > 0 {
        lemma_occ_le_len(s.drop_last(), c);
    }
}

/// The counts of a text over an alphabet: one counter per alphabet
/// character, in alphabet order.
pub open spec fn spec_counts_seq(s: Seq<char>, alpha: Seq<char>) -> Seq<u64> {
    Seq::new(alpha.len(), |i: int| spec_occ(s, alpha[i]) as u64)
}

/// Counts the occurrences of one character in a vector of characters.
pub fn count_char(v: &Vec<char>, c: char) -> (r: u64)
    ensures
        r as nat == spec_occ(v@, c),
{
    let mut count: u64 = 0;
    let mut j: usize = 0;
    while j < v.len()
        invariant
            j <= v@.len(),
            count as nat == spec_occ(v@.take(j as int), c),
            count <= j,
        decreases v@.len() - j,
    {
        proof {
            assert(v@.take(j + 1).drop_last() =~= v@.take(j as int));
            assert(v@.take(j + 1).last() == v@[j as int]);
        }
        if v[j] == c {
            count = count + 1;
        }
        j += 1;
    }
    proof {
        assert(v@.take(v@.len() as int) =~= v@);
    }
    count
}

/// Computes the counts of an already-lowercased text over an alphabet.
pub fn counts_of_chars(lv: &Vec<char>, alpha: &Vec<char>) -> (r: Vec<u64>)
    ensures
        r@ == spec_counts_seq(lv@, alpha@),
{
    let mut r: Vec<u64> = Vec::new();
    let mut i: usize = 0;
    while i < alpha.len()
        invariant
            i <= alpha@.len(),
            r@.len() == i,
            forall|k: int| 0 <= k < i ==> r@[k] as nat == spec_occ(lv@, alpha@[k]),
        decreases alpha@.len() - i,
    {
        let c = count_char(lv, alpha[i]);
        r.push(c);
        i += 1;
    }
    proof {
        assert(r@ =~= spec_counts_seq(lv@, alpha@));
    }
    r
}

} // verus!
