use vstd::prelude::*;
use vstd::string::*;
use vstd::pervasive::VecAdditionalExecFns;
use crate::text::{spec_lower, spec_dec, to_char_vec, lower_vec, dec_u64, vec_u64_eq};
use crate::counting::{spec_alphabet, spec_counts_seq, alphabet, counts_of_chars, count_char};
use crate::words::{spec_num_words, num_words_u64};
use crate::rng::random_below;
use crate::cycle::CycleDetector;

verus! {

/// One search state: the fixed texts and style flags of the configuration,
/// the countable alphabet they imply, the current character counts (one
/// counter per alphabet character, zero meaning absent), and the number of
/// update steps taken so far.
pub struct Autogram {
    pub prefix: String,
    pub suffix: String,
    pub epoch: u64,
    pub make_plural: bool,
    pub include_final_and: bool,
    pub is_pangram: bool,
    pub include_punctuation: bool,
    pub countable_chars: Vec<char>,
    pub counts: Vec<u64>,
}

impl Autogram {
    /// The alphabet vector matches the configured alphabet and the counts
    /// vector has one entry per alphabet character.
    pub open spec fn wf(self) -> bool {
        &&& self.countable_chars@ == spec_alphabet(self.include_punctuation)
        &&& self.counts@.len() == spec_alphabet(self.include_punctuation).len()
    }

    /// Two states carry the same configuration: the fixed texts and the
    /// four style flags.
    pub open spec fn same_config(self, other: Autogram) -> bool {
        &&& self.prefix@ == other.prefix@
        &&& self.suffix@ == other.suffix@
        &&& self.make_plural == other.make_plural
        &&& self.include_final_and == other.include_final_and
        &&& self.is_pangram == other.is_pangram
        &&& self.include_punctuation == other.include_punctuation
    }

    /// Two states agree on everything the rendered sentence depends on:
    /// the configuration and the counts.
    pub open spec fn same_rendering_state(self, other: Autogram) -> bool {
        self.same_config(other) && self.counts@ == other.counts@
    }
}

/// The word used for a countable character in a phrase: the letter itself,
/// or the name of a punctuation character.
pub open spec fn spec_char_word(c: char) -> Seq<char> {
    if c == ',' { "comma"@ }
    else if c == '-' { "hyphen"@ }
    else if c == '\'' { "apostrophe"@ }
    else if c == '.' { "period"@ }
    else if c == '!' { "!"@ }
    else { seq![c] }
}

/// One phrase of the sentence: the count in words, a space, the character's
/// word, and "'s" when pluralization is on and the count exceeds one.
pub open spec fn spec_phrase(n: u64, c: char, plural: bool) -> Seq<char> {
    spec_num_words(n as int) + " "@ + spec_char_word(c) + (if plural && n > 1 {
        "'s"@
    } else {
        Seq::<char>::empty()
    })
}

/// The phrases of the first `i` alphabet positions, in alphabet order,
/// skipping the characters whose count is zero.
pub open spec fn spec_phrases_upto(
    counts: Seq<u64>,
    alpha: Seq<char>,
    plural: bool,
    i: int,
) -> Seq<Seq<char>>
    decreases i,
{
    if i <= 0 {
        Seq::<Seq<char>>::empty()
    } else {
        spec_phrases_upto(counts, alpha, plural, i - 1) + (if counts[i - 1] != 0 {
            seq![spec_phrase(counts[i - 1], alpha[i - 1], plural)]
        } else {
            Seq::<Seq<char>>::empty()
        })
    }
}

/// All phrases of a state.
pub open spec fn spec_phrases(a: Autogram) -> Seq<Seq<char>> {
    let alpha = spec_alphabet(a.include_punctuation);
    spec_phrases_upto(a.counts@, alpha, a.make_plural, alpha.len() as int)
}

pub open spec fn spec_join_commas(ps: Seq<Seq<char>>) -> Seq<char>
    decreases ps.len(),
{
    if ps.len() == 0 {
        Seq::<char>::empty()
    } else if ps.len() == 1 {
        ps[0]
    } else {
        spec_join_commas(ps.drop_last()) + ", "@ + ps.last()
    }
}

/// The phrases joined with commas, with an optional "and" before the last
/// phrase when there are at least two.
pub open spec fn spec_join_phrases(ps: Seq<Seq<char>>, incl_and: bool) -> Seq<char> {
    if ps.len() <= 1 {
        spec_join_commas(ps)
    } else {
        spec_join_commas(ps.drop_last()) + (if incl_and {
            ", and "@
        } else {
            ", "@
        }) + ps.last()
    }
}

/// The sentence a state's configuration renders for the given counts:
/// optional prefix and a space, the joined phrases, then either a comma and
/// the suffix, or a period after a bare prefix.
pub open spec fn spec_sentence_counts(a: Autogram, counts: Seq<u64>) -> Seq<char> {
    let alpha = spec_alphabet(a.include_punctuation);
    let ps = spec_phrases_upto(counts, alpha, a.make_plural, alpha.len() as int);
    (if a.prefix@.len() > 0 {
        a.prefix@ + " "@
    } else {
        Seq::<char>::empty()
    }) + spec_join_phrases(ps, a.include_final_and) + (if a.suffix@.len() > 0 {
        ", "@ + a.suffix@
    } else if a.prefix@.len() > 0 {
        "."@
    } else {
        Seq::<char>::empty()
    })
}

/// The full rendered sentence of a state.
pub open spec fn spec_sentence(a: Autogram) -> Seq<char> {
    spec_sentence_counts(a, a.counts@)
}

/// The sentence the next full update leads to: count the lowercased text
/// `s`, then render those counts under the same configuration.
pub open spec fn spec_next_sentence(a: Autogram, s: Seq<char>) -> Seq<char> {
    spec_sentence_counts(a, spec_counts_seq(spec_lower(s), spec_alphabet(a.include_punctuation)))
}

/// A state is a fixed point exactly when recounting its own lowercased
/// rendered sentence over its alphabet reproduces its counts entry for
/// entry.
pub open spec fn spec_is_fixed_point(a: Autogram) -> bool {
    a.counts@ == spec_counts_seq(spec_lower(spec_sentence(a)), spec_alphabet(a.include_punctuation))
}

/// The serialized signature of a count state: the counters rendered in
/// decimal and concatenated in alphabet order.
pub open spec fn spec_counts_str(cs: Seq<u64>) -> Seq<char>
    decreases cs.len(),
{
    if cs.len() == 0 {
        Seq::<char>::empty()
    } else {
        spec_counts_str(cs.drop_last()) + spec_dec(cs.last() as int)
    }
}

/// A count state holding a single one, for the alphabet position `j`, and
/// zero everywhere else.
pub open spec fn spec_single_seed(counts: Seq<u64>, n: int, j: int) -> bool {
    &&& counts.len() == n
    &&& counts[j] == 1
    &&& forall|k: int| 0 <= k < n && k != j ==> counts[k] == 0
}

/// The counts a search starts from: every letter once in pangram mode, the
/// counts of the fixed texts when some are given, and otherwise a single
/// one for one letter.
pub open spec fn spec_seed_ok(a: Autogram, counts: Seq<u64>) -> bool {
    let alpha = spec_alphabet(a.include_punctuation);
    if a.is_pangram {
        counts == Seq::new(alpha.len(), |i: int| if i < 26 { 1u64 } else { 0u64 })
    } else if a.prefix@.len() + a.suffix@.len() > 0 {
        counts == spec_counts_seq(spec_lower(a.prefix@ + a.suffix@), alpha)
    } else {
        exists|j: int| 0 <= j < 26 && #[trigger] spec_single_seed(counts, alpha.len() as int, j)
    }
}

/// What a partial update may do to the counts: one character with a
/// non-zero count gets its counter recomputed from the rendered sentence;
/// when every counter is zero, the counts stay as they are.
pub open spec fn spec_partial_update_ok(pre: Autogram, post_counts: Seq<u64>) -> bool {
    let fresh = spec_counts_seq(
        spec_lower(spec_sentence(pre)),
        spec_alphabet(pre.include_punctuation),
    );
    ||| exists|j: int|
        0 <= j < pre.counts@.len() && pre.counts@[j] != 0 && post_counts == pre.counts@.update(
            j,
            fresh[j],
        )
    ||| (forall|j: int| 0 <= j < pre.counts@.len() ==> pre.counts@[j] == 0) && post_counts
        == pre.counts@
}

fn char_word(c: char) -> (r: &'static str)
    ensures
        spec_alphabet(true).contains(c) ==> r@ == spec_char_word(c),
{
    proof {
        reveal_strlit("abcdefghijklmnopqrstuvwxyz");
        reveal_strlit(",-'.!");
        reveal_strlit("a");
        reveal_strlit("b");
        reveal_strlit("c");
        reveal_strlit("d");
        reveal_strlit("e");
        reveal_strlit("f");
        reveal_strlit("g");
        reveal_strlit("h");
        reveal_strlit("i");
        reveal_strlit("j");
        reveal_strlit("k");
        reveal_strlit("l");
        reveal_strlit("m");
        reveal_strlit("n");
        reveal_strlit("o");
        reveal_strlit("p");
        reveal_strlit("q");
        reveal_strlit("r");
        reveal_strlit("s");
        reveal_strlit("t");
        reveal_strlit("u");
        reveal_strlit("v");
        reveal_strlit("w");
        reveal_strlit("x");
        reveal_strlit("y");
        reveal_strlit("z");
        assert("a"@ =~= seq!['a']);
        assert("b"@ =~= seq!['b']);
        assert("c"@ =~= seq!['c']);
        assert("d"@ =~= seq!['d']);
        assert("e"@ =~= seq!['e']);
        assert("f"@ =~= seq!['f']);
        assert("g"@ =~= seq!['g']);
        assert("h"@ =~= seq!['h']);
        assert("i"@ =~= seq!['i']);
        assert("j"@ =~= seq!['j']);
        assert("k"@ =~= seq!['k']);
        assert("l"@ =~= seq!['l']);
        assert("m"@ =~= seq!['m']);
        assert("n"@ =~= seq!['n']);
        assert("o"@ =~= seq!['o']);
        assert("p"@ =~= seq!['p']);
        assert("q"@ =~= seq!['q']);
        assert("r"@ =~= seq!['r']);
        assert("s"@ =~= seq!['s']);
        assert("t"@ =~= seq!['t']);
        assert("u"@ =~= seq!['u']);
        assert("v"@ =~= seq!['v']);
        assert("w"@ =~= seq!['w']);
        assert("x"@ =~= seq!['x']);
        assert("y"@ =~= seq!['y']);
        assert("z"@ =~= seq!['z']);
    }
    match c {
        'a' => "a",
        'b' => "b",
        'c' => "c",
        'd' => "d",
        'e' => "e",
        'f' => "f",
        'g' => "g",
        'h' => "h",
        'i' => "i",
        'j' => "j",
        'k' => "k",
        'l' => "l",
        'm' => "m",
        'n' => "n",
        'o' => "o",
        'p' => "p",
        'q' => "q",
        'r' => "r",
        's' => "s",
        't' => "t",
        'u' => "u",
        'v' => "v",
        'w' => "w",
        'x' => "x",
        'y' => "y",
        'z' => "z",
        ',' => "comma",
        '-' => "hyphen",
        '\'' => "apostrophe",
        '.' => "period",
        '!' => "!",
        _ => "",
    }
}

impl Autogram {
    /// A fresh state for the given fixed texts, with the default style: all
    /// counts mentioned in plural form, a final "and", no pangram mode and
    /// no punctuation, seeded by the three-way seeding rule.
    pub fn new(prefix: &str, suffix: &str) -> (r: Autogram)
        ensures
            r.wf(),
            r.prefix@ == prefix@,
            r.suffix@ == suffix@,
            r.epoch == 0,
            r.make_plural,
            r.include_final_and,
            !r.is_pangram,
            !r.include_punctuation,
            spec_seed_ok(r, r.counts@),
    {
        let mut ag = Autogram {
            prefix: String::from_str(prefix),
            suffix: String::from_str(suffix),
            epoch: 0,
            make_plural: true,
            include_final_and: true,
            is_pangram: false,
            include_punctuation: false,
            countable_chars: Vec::new(),
            counts: Vec::new(),
        };
        ag.countable_chars = alphabet(ag.include_punctuation);
        ag.counts = ag.seed_counts();
        ag
    }

    /// Recomputes the alphabet, the seed counts, and resets the step
    /// counter, as a search start does.
    pub fn reset(&mut self)
        ensures
            final(self).wf(),
            final(self).prefix@ == old(self).prefix@,
            final(self).suffix@ == old(self).suffix@,
            final(self).make_plural == old(self).make_plural,
            final(self).include_final_and == old(self).include_final_and,
            final(self).is_pangram == old(self).is_pangram,
            final(self).include_punctuation == old(self).include_punctuation,
            final(self).epoch == 0,
            spec_seed_ok(*final(self), final(self).counts@),
    {
        self.countable_chars = alphabet(self.include_punctuation);
        let c = self.seed_counts();
        self.counts = c;
        self.epoch = 0;
    }

    fn seed_counts(&self) -> (r: Vec<u64>)
        requires
            self.countable_chars@ == spec_alphabet(self.include_punctuation),
        ensures
            spec_seed_ok(*self, r@),
            r@.len() == spec_alphabet(self.include_punctuation).len(),
    {
        let n = self.countable_chars.len();
        if self.is_pangram {
            let mut c: Vec<u64> = Vec::new();
            let mut i: usize = 0;
            while i < n
                invariant
                    i <= n,
                    c@.len() == i,
                    forall|k: int| 0 <= k < i ==> c@[k] == (if k < 26 { 1u64 } else { 0u64 }),
                decreases n - i,
            {
                if i < 26 {
                    c.push(1);
                } else {
                    c.push(0);
                }
                i += 1;
            }
            proof {
                assert(c@ =~= Seq::new(self.countable_chars@.len(), |i: int| if i < 26 { 1u64 } else { 0u64 }));
            }
            c
        } else if self.prefix.unicode_len() > 0 || self.suffix.unicode_len() > 0 {
            let mut v = to_char_vec(self.prefix.as_str());
            let mut w = to_char_vec(self.suffix.as_str());
            v.append(&mut w);
            let lv = lower_vec(&v);
            counts_of_chars(&lv, &self.countable_chars)
        } else {
            proof {
                reveal_strlit("abcdefghijklmnopqrstuvwxyz");
                assert(crate::counting::spec_letters().len() == 26);
            }
            let j = random_below(26);
            let mut c: Vec<u64> = Vec::new();
            let mut i: usize = 0;
            while i < n
                invariant
                    i <= n,
                    c@.len() == i,
                    j < 26,
                    26 <= n,
                    n == self.countable_chars@.len(),
                    forall|k: int| 0 <= k < i ==> c@[k] == (if k == j { 1u64 } else { 0u64 }),
                decreases n - i,
            {
                if i == j {
                    c.push(1);
                } else {
                    c.push(0);
                }
                i += 1;
            }
            proof {
                let alpha = spec_alphabet(self.include_punctuation);
                assert(spec_single_seed(c@, alpha.len() as int, j as int));
            }
            c
        }
    }

    /// Counts every countable character of the given text, lowercased.
    pub fn count_occurrences(&self, s: &str) -> (r: Vec<u64>)
        requires
            self.wf(),
        ensures
            r@ == spec_counts_seq(spec_lower(s@), spec_alphabet(self.include_punctuation)),
    {
        let v = to_char_vec(s);
        let lv = lower_vec(&v);
        counts_of_chars(&lv, &self.countable_chars)
    }

    fn counts_as_phrases(&self) -> (r: Vec<String>)
        requires
            self.wf(),
        ensures
            r.deep_view() == spec_phrases(*self),
    {
        let ghost alpha = spec_alphabet(self.include_punctuation);
        let mut out: Vec<String> = Vec::new();
        let mut i: usize = 0;
        proof {
            assert(out.deep_view() =~~= spec_phrases_upto(self.counts@, alpha, self.make_plural, 0));
        }
        while i < self.countable_chars.len()
            invariant
                self.wf(),
                i <= self.countable_chars@.len(),
                alpha == spec_alphabet(self.include_punctuation),
                out.deep_view() == spec_phrases_upto(self.counts@, alpha, self.make_plural, i as int),
            decreases self.countable_chars@.len() - i,
        {
            let ghost old_out = out.deep_view();
            let count = self.counts[i];
            if count != 0 {
                let mut p = num_words_u64(count);
                p.append(" ");
                let c = self.countable_chars[i];
                proof {
                    assert(spec_alphabet(true).contains(c)) by {
                        assert((crate::counting::spec_letters() + crate::counting::spec_punct())[
                            i as int
                        ] == c);
                    }
                }
                p.append(char_word(c));
                if self.make_plural && count > 1 {
                    p.append("'s");
                }
                proof {
                    assert(p@ == spec_phrase(count, c, self.make_plural));
                }
                out.push(p);
                proof {
                    assert(out.deep_view() =~~= old_out.push(spec_phrase(count, c, self.make_plural)));
                    assert(old_out.push(spec_phrase(count, c, self.make_plural)) =~~= old_out + seq![
                        spec_phrase(count, c, self.make_plural),
                    ]);
                }
            } else {
                proof {
                    assert(out.deep_view() =~~= old_out + Seq::<Seq<char>>::empty());
                }
            }
            i += 1;
        }
        out
    }

    /// Renders the sentence for the current counts.
    pub fn sentence(&self) -> (r: String)
        requires
            self.wf(),
        ensures
            r@ == spec_sentence(*self),
    {
        let phrases = self.counts_as_phrases();
        let ghost pd = spec_phrases(*self);
        let mut body = String::new();
        if phrases.len() == 1 {
            proof {
                assert(phrases.deep_view()[0] =~= phrases@[0]@);
            }
            body.append(phrases[0].as_str());
            proof {
                assert(body@ =~= pd[0]);
            }
        } else if phrases.len() > 1 {
            let last = phrases.len() - 1;
            let mut i: usize = 0;
            while i < last
                invariant
                    phrases.deep_view() == pd,
                    pd.len() == phrases@.len(),
                    last == phrases@.len() - 1,
                    i <= last,
                    body@ == spec_join_commas(pd.take(i as int)),
                decreases last - i,
            {
                proof {
                    assert(phrases.deep_view()[i as int] =~= phrases@[i as int]@);
                    assert(pd.take(i + 1).drop_last() =~= pd.take(i as int));
                    assert(pd.take(i + 1).last() == pd[i as int]);
                }
                if i > 0 {
                    body.append(", ");
                }
                body.append(phrases[i].as_str());
                proof {
                    if i == 0 {
                        assert(body@ =~= pd[0]);
                        assert(pd.take(1).len() == 1);
                        assert(pd.take(1)[0] == pd[0]);
                        assert(body@ == spec_join_commas(pd.take(1)));
                    } else {
                        assert(pd.take(i + 1).len() >= 2);
                        assert(body@ == spec_join_commas(pd.take(i + 1)));
                    }
                }
                i += 1;
            }
            proof {
                assert(pd.take(last as int) =~= pd.drop_last());
                assert(phrases.deep_view()[last as int] =~= phrases@[last as int]@);
            }
            if self.include_final_and {
                body.append(", and ");
            } else {
                body.append(", ");
            }
            body.append(phrases[last].as_str());
        }
        proof {
            if pd.len() == 0 {
                assert(body@ =~= spec_join_phrases(pd, self.include_final_and));
            }
        }
        let mut s = String::new();
        if self.prefix.unicode_len() > 0 {
            s.append(self.prefix.as_str());
            s.append(" ");
        }
        s.append(body.as_str());
        if self.suffix.unicode_len() > 0 {
            s.append(", ");
            s.append(self.suffix.as_str());
        } else if self.prefix.unicode_len() > 0 {
            s.append(".");
        }
        proof {
            if !(self.prefix@.len() > 0) {
                assert(Seq::<char>::empty() + spec_join_phrases(pd, self.include_final_and)
                    =~= spec_join_phrases(pd, self.include_final_and));
            }
            assert(s@ =~= spec_sentence(*self));
        }
        s
    }

    /// True exactly when the current state is a fixed point: recounting the
    /// lowercased rendered sentence reproduces the counts entry for entry.
    pub fn is_autogram(&self) -> (r: bool)
        requires
            self.wf(),
        ensures
            r == spec_is_fixed_point(*self),
    {
        let s = self.sentence();
        let fresh = self.count_occurrences(s.as_str());
        vec_u64_eq(&self.counts, &fresh)
    }

    /// One update step. A full update recomputes every counter from the
    /// rendered sentence; a partial update picks one character whose count
    /// is non-zero and recomputes only its counter (when every counter is
    /// zero it leaves the counts alone). The step counter advances by one,
    /// saturating at its maximum.
    pub fn update_counts(&mut self, rand_char: bool)
        requires
            old(self).wf(),
        ensures
            final(self).wf(),
            final(self).prefix@ == old(self).prefix@,
            final(self).suffix@ == old(self).suffix@,
            final(self).make_plural == old(self).make_plural,
            final(self).include_final_and == old(self).include_final_and,
            final(self).is_pangram == old(self).is_pangram,
            final(self).include_punctuation == old(self).include_punctuation,
            final(self).countable_chars@ == old(self).countable_chars@,
            final(self).epoch as int == (if old(self).epoch < u64::MAX {
                old(self).epoch + 1
            } else {
                old(self).epoch as int
            }),
            !rand_char ==> final(self).counts@ == spec_counts_seq(
                spec_lower(spec_sentence(*old(self))),
                spec_alphabet(old(self).include_punctuation),
            ),
            rand_char ==> spec_partial_update_ok(*old(self), final(self).counts@),
    {
        if !rand_char {
            let s = self.sentence();
            let fresh = self.count_occurrences(s.as_str());
            self.counts = fresh;
        } else {
            let mut idxs: Vec<usize> = Vec::new();
            let mut i: usize = 0;
            while i < self.counts.len()
                invariant
                    i <= self.counts@.len(),
                    forall|k: int|
                        0 <= k < idxs@.len() ==> idxs@[k] < i && self.counts@[idxs@[k] as int]
                            != 0,
                    idxs@.len() == 0 ==> forall|j: int| 0 <= j < i ==> self.counts@[j] == 0,
                decreases self.counts@.len() - i,
            {
                if self.counts[i] != 0 {
                    idxs.push(i);
                }
                i += 1;
            }
            if idxs.len() > 0 {
                let pick = random_below(idxs.len());
                let j = idxs[pick];
                let s = self.sentence();
                let v = to_char_vec(s.as_str());
                let lv = lower_vec(&v);
                let c = count_char(&lv, self.countable_chars[j]);
                self.counts.set(j, c);
                proof {
                    let alpha = spec_alphabet(self.include_punctuation);
                    assert(spec_counts_seq(lv@, alpha)[j as int] == c);
                }
            }
        }
        if self.epoch < u64::MAX {
            self.epoch = self.epoch + 1;
        }
    }

    /// The serialized count signature: each counter in decimal, concatenated
    /// in alphabet order.
    pub fn counts_to_str(&self) -> (r: String)
        requires
            self.wf(),
        ensures
            r@ == spec_counts_str(self.counts@),
    {
        let mut s = String::new();
        let mut i: usize = 0;
        proof {
            assert(s@ =~= spec_counts_str(self.counts@.take(0)));
        }
        while i < self.counts.len()
            invariant
                self.wf(),
                i <= self.counts@.len(),
                s@ == spec_counts_str(self.counts@.take(i as int)),
            decreases self.counts@.len() - i,
        {
            proof {
                assert(self.counts@.take(i + 1).drop_last() =~= self.counts@.take(i as int));
                assert(self.counts@.take(i + 1).last() == self.counts@[i as int]);
            }
            let d = dec_u64(self.counts[i]);
            s.append(d.as_str());
            i += 1;
        }
        proof {
            assert(self.counts@.take(self.counts@.len() as int) =~= self.counts@);
        }
        s
    }
}

/// Rendering reads only the configuration, never the current counts or the
/// step counter: under equal configurations the same counts render the same
/// sentence.
pub proof fn lemma_sentence_config_only(a: Autogram, b: Autogram, counts: Seq<u64>)
    requires
        a.same_config(b),
    ensures
        spec_sentence_counts(a, counts) == spec_sentence_counts(b, counts),
{
}

pub proof fn lemma_next_sentence_config(a: Autogram, b: Autogram, s: Seq<char>)
    requires
        a.same_config(b),
    ensures
        spec_next_sentence(a, s) == spec_next_sentence(b, s),
{
    lemma_sentence_config_only(
        a,
        b,
        spec_counts_seq(spec_lower(s), spec_alphabet(a.include_punctuation)),
    );
}

/// The rendered sentence and the fixed-point test depend only on the
/// configuration texts, the style flags, and the counts: two states that
/// agree on those render the same sentence and are fixed points together.
/// The outcome a parallel worker reports is therefore drawn from the same
/// set of fixed points that a single-threaded search over the same
/// configuration accepts, however either arrived at its state.
pub proof fn lemma_outcome_determined_by_state(a: Autogram, b: Autogram)
    requires
        a.same_rendering_state(b),
    ensures
        spec_sentence(a) == spec_sentence(b),
        spec_is_fixed_point(a) == spec_is_fixed_point(b),
{
    lemma_sentence_config_only(a, b, a.counts@);
}

/// The outcome of one search iteration: still searching, a fixed point
/// reached, or a recorded cycle closed.
pub enum IterationResult {
    Continue,
    FixedPointFound(String),
    CycleFound(Vec<String>),
}

/// The texts of a vector of strings.
pub open spec fn spec_texts(vs: Seq<String>) -> Seq<Seq<char>> {
    vs.map_values(|s: String| s@)
}

/// Texts joined with a newline between neighbours.
pub open spec fn spec_join_lines(ss: Seq<Seq<char>>) -> Seq<char>
    decreases ss.len(),
{
    if ss.len() == 0 {
        Seq::<char>::empty()
    } else if ss.len() == 1 {
        ss[0]
    } else {
        spec_join_lines(ss.drop_last()) + "\n"@ + ss.last()
    }
}

/// Joins rendered sentences with newlines.
pub fn join_lines(v: &Vec<String>) -> (r: String)
    ensures
        r@ == spec_join_lines(spec_texts(v@)),
{
    let ghost st = spec_texts(v@);
    let mut s = String::new();
    let mut i: usize = 0;
    while i < v.len()
        invariant
            i <= v@.len(),
            st == spec_texts(v@),
            st.len() == v@.len(),
            s@ == spec_join_lines(st.take(i as int)),
        decreases v@.len() - i,
    {
        proof {
            assert(st.take(i + 1).drop_last() =~= st.take(i as int));
            assert(st.take(i + 1).last() == st[i as int]);
            assert(st[i as int] == v@[i as int]@);
        }
        if i > 0 {
            s.append("\n");
        }
        s.append(v[i].as_str());
        proof {
            if i == 0 {
                assert(s@ =~= st[0]);
                assert(st.take(1).len() == 1);
                assert(st.take(1)[0] == st[0]);
            } else {
                assert(st.take(i + 1).len() >= 2);
            }
        }
        i += 1;
    }
    proof {
        assert(st.take(st.len() as int) =~= st);
    }
    s
}

/// One full period of a cycle, as seen from a state: the recorded sentences
/// follow one another under the full-update step, the state's own sentence
/// is the successor of the last recorded one, and it already occurs among
/// them.
pub open spec fn spec_cycle_chain(a: Autogram, ss: Seq<Seq<char>>) -> bool {
    &&& ss.len() >= 1
    &&& forall|k: int| 1 <= k < ss.len() ==> #[trigger] ss[k] == spec_next_sentence(a, ss[k - 1])
    &&& spec_sentence(a) == spec_next_sentence(a, ss.last())
    &&& exists|k: int| 0 <= k < ss.len() && #[trigger] ss[k] == spec_sentence(a)
}

/// What holds of a detector between iterations: once it records, the
/// recorded sentences follow one another under the full-update step and the
/// last of them is the sentence of the current state.
pub open spec fn spec_detector_inv(a: Autogram, det: CycleDetector) -> bool {
    det.recording ==> {
        let ss = spec_texts(det.recorded@);
        &&& ss.len() >= 1
        &&& forall|k: int|
            1 <= k < ss.len() ==> #[trigger] ss[k] == spec_next_sentence(a, ss[k - 1])
        &&& ss.last() == spec_sentence(a)
    }
}

/// One search iteration: an update step, then the completion test — the
/// fixed-point test when searching for an autogram, the cycle detector when
/// hunting a cycle (cycle hunting always updates fully; autogram search
/// alternates full and partial updates via the flag).
pub fn search_step(
    engine: &mut Autogram,
    det: &mut CycleDetector,
    find_cycle: bool,
    update_random: &mut bool,
) -> (r: IterationResult)
    requires
        old(engine).wf(),
        find_cycle ==> spec_detector_inv(*old(engine), *old(det)),
        find_cycle ==> !*old(update_random),
    ensures
        final(engine).wf(),
        final(engine).same_config(*old(engine)),
        final(engine).epoch as int == (if old(engine).epoch < u64::MAX {
            old(engine).epoch + 1
        } else {
            old(engine).epoch as int
        }),
        find_cycle && r is Continue ==> spec_detector_inv(*final(engine), *final(det))
            && !*final(update_random),
        match r {
            IterationResult::Continue => !find_cycle ==> (!spec_is_fixed_point(*final(engine))
                && *final(update_random) == !*old(update_random)),
            IterationResult::FixedPointFound(s) => !find_cycle && spec_is_fixed_point(
                *final(engine),
            ) && s@ == spec_sentence(*final(engine)),
            IterationResult::CycleFound(v) => find_cycle && spec_cycle_chain(
                *final(engine),
                spec_texts(v@),
            ),
        },
{
    let ghost pre = *engine;
    engine.update_counts(if find_cycle {
        false
    } else {
        *update_random
    });
    if find_cycle {
        proof {
            lemma_sentence_config_only(*engine, pre, engine.counts@);
            assert(spec_sentence(*engine) == spec_next_sentence(pre, spec_sentence(pre)));
            lemma_next_sentence_config(pre, *engine, spec_sentence(pre));
        }
        let s = engine.sentence();
        let sig = engine.counts_to_str();
        let ghost det_pre = *det;
        let complete = det.observe(sig, s);
        if complete {
            let mut out: Vec<String> = Vec::new();
            core::mem::swap(&mut out, &mut det.recorded);
            proof {
                let ss = spec_texts(out@);
                assert(ss.len() >= 1);
                assert forall|k: int| 1 <= k < ss.len() implies #[trigger] ss[k]
                    == spec_next_sentence(*engine, ss[k - 1]) by {
                    assert(ss[k] == spec_next_sentence(pre, ss[k - 1]));
                    lemma_next_sentence_config(pre, *engine, ss[k - 1]);
                }
                assert(ss.last() == spec_sentence(pre));
                lemma_next_sentence_config(pre, *engine, ss.last());
                assert(spec_sentence(*engine) == spec_next_sentence(*engine, ss.last()));
                let w = choose|k: int|
                    0 <= k < det_pre.recorded@.len() && det_pre.recorded@[k]@ == s@;
                assert(ss[w] == spec_sentence(*engine));
            }
            return IterationResult::CycleFound(out);
        }
        proof {
            if det_pre.recording {
                let ss0 = spec_texts(det_pre.recorded@);
                let ss = spec_texts(det.recorded@);
                assert(ss =~= ss0.push(s@));
                assert forall|k: int| 1 <= k < ss.len() implies #[trigger] ss[k]
                    == spec_next_sentence(*engine, ss[k - 1]) by {
                    if k < ss0.len() {
                        assert(ss[k] == ss0[k]);
                        assert(ss0[k] == spec_next_sentence(*engine, ss0[k - 1]));
                    } else {
                        assert(ss[k] == s@);
                        assert(ss[k - 1] == ss0.last());
                        assert(s@ == spec_next_sentence(*engine, spec_sentence(pre)));
                    }
                }
            } else if det.recording {
                let ss = spec_texts(det.recorded@);
                assert(ss.len() == 1);
                assert(ss[0] == spec_sentence(*engine));
            }
        }
        IterationResult::Continue
    } else {
        if engine.is_autogram() {
            let s = engine.sentence();
            return IterationResult::FixedPointFound(s);
        }
        *update_random = !*update_random;
        IterationResult::Continue
    }
}

/// How many count signatures the cycle detector caches before it starts
/// over, bounding its memory on long searches.
pub const CYCLE_CACHE_LIMIT: usize = 5000;

impl Autogram {
    /// Runs the search from a fresh seed until it completes or the step
    /// counter is exhausted: a fixed point when searching for an autogram, a
    /// recorded cycle when hunting cycles, and `Continue` only if the whole
    /// counter range was consumed without either.
    pub fn run_search(&mut self, find_cycle: bool, cache_limit: usize) -> (r: IterationResult)
        ensures
            final(self).wf(),
            final(self).same_config(*old(self)),
            match r {
                IterationResult::Continue => final(self).epoch == u64::MAX,
                IterationResult::FixedPointFound(s) => !find_cycle && spec_is_fixed_point(
                    *final(self),
                ) && s@ == spec_sentence(*final(self)),
                IterationResult::CycleFound(v) => find_cycle && spec_cycle_chain(
                    *final(self),
                    spec_texts(v@),
                ),
            },
    {
        self.reset();
        let ghost cfg = *self;
        let mut det = CycleDetector::new(cache_limit);
        let mut update_random: bool = false;
        while self.epoch < u64::MAX
            invariant
                self.wf(),
                self.same_config(cfg),
                cfg.same_config(*old(self)),
                find_cycle ==> spec_detector_inv(*self, det),
                find_cycle ==> !update_random,
            decreases u64::MAX - self.epoch,
        {
            let r = search_step(self, &mut det, find_cycle, &mut update_random);
            match r {
                IterationResult::Continue => {},
                _ => {
                    return r;
                },
            }
        }
        IterationResult::Continue
    }

    /// Runs the search and renders its outcome as one text: the autogram
    /// sentence itself, a newline-joined cycle, or a fixed no-solution text
    /// if the step counter was exhausted.
    pub fn search(&mut self, find_cycle: bool) -> (r: String)
        ensures
            final(self).wf(),
            final(self).same_config(*old(self)),
            !find_cycle && final(self).epoch < u64::MAX ==> spec_is_fixed_point(*final(self))
                && r@ == spec_sentence(*final(self)),
            find_cycle && final(self).epoch < u64::MAX ==> exists|ss: Seq<Seq<char>>|
                spec_cycle_chain(*final(self), ss) && r@ == #[trigger] spec_join_lines(ss),
    {
        let r = self.run_search(find_cycle, CYCLE_CACHE_LIMIT);
        match r {
            IterationResult::FixedPointFound(s) => s,
            IterationResult::CycleFound(v) => {
                let joined = join_lines(&v);
                proof {
                    assert(spec_cycle_chain(*self, spec_texts(v@)) && joined@ == spec_join_lines(
                        spec_texts(v@),
                    ));
                }
                joined
            },
            IterationResult::Continue => String::from_str("No solution found"),
        }
    }
}

} // verus!
