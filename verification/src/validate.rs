use vstd::prelude::*;
use vstd::string::*;
use crate::text::{spec_lower, to_char_vec, lower_vec, char_vec_eq_str, chars_to_string,
    char_at};
use crate::counting::{spec_alphabet, spec_counts_seq, alphabet, counts_of_chars};
use crate::words::{spec_split, spec_sum_words, spec_first_unknown, spec_word_value, word_value,
    words_to_num};
use vstd::pervasive::VecAdditionalExecFns;

verus! {

pub open spec fn spec_is_letter(c: char) -> bool {
    ('a' as u32) <= (c as u32) && (c as u32) <= ('z' as u32)
}

pub fn is_letter(c: char) -> (r: bool)
    ensures
        r == spec_is_letter(c),
{
    let u = c as u32;
    ('a' as u32) <= u && u <= ('z' as u32)
}

/// A word can only start where no letter immediately precedes.
pub open spec fn spec_boundary(s: Seq<char>, i: int) -> bool {
    i == 0 || !spec_is_letter(s[i - 1])
}

/// The end of the letter run that starts at `i`.
pub open spec fn spec_run_end(s: Seq<char>, i: int) -> int
    decreases s.len() - i,
{
    if 0 <= i < s.len() && spec_is_letter(s[i]) {
        spec_run_end(s, i + 1)
    } else {
        i
    }
}

pub open spec fn spec_is_space(c: char) -> bool {
    c == ' ' || c == '\n' || c == '\t' || c == '\r'
}

pub fn is_space(c: char) -> (r: bool)
    ensures
        r == spec_is_space(c),
{
    c == ' ' || c == '\n' || c == '\t' || c == '\r'
}

/// The text `w` occurs in `s` starting at position `p`.
pub open spec fn spec_matches_at(s: Seq<char>, p: int, w: Seq<char>) -> bool {
    0 <= p && p + w.len() <= s.len() && s.subrange(p, p + w.len()) == w
}

/// The character word readable at position `p`: one of the punctuation
/// names (tried first, and only when punctuation is enabled), the bang
/// itself, or a single letter.
pub open spec fn spec_char_match(s: Seq<char>, p: int, punct: bool) -> Option<(Seq<char>, int)> {
    if punct && spec_matches_at(s, p, "comma"@) {
        Some(("comma"@, p + "comma"@.len()))
    } else if punct && spec_matches_at(s, p, "hyphen"@) {
        Some(("hyphen"@, p + "hyphen"@.len()))
    } else if punct && spec_matches_at(s, p, "apostrophe"@) {
        Some(("apostrophe"@, p + "apostrophe"@.len()))
    } else if punct && spec_matches_at(s, p, "period"@) {
        Some(("period"@, p + "period"@.len()))
    } else if punct && 0 <= p < s.len() && s[p] == '!' {
        Some(("!"@, p + 1))
    } else if 0 <= p < s.len() && spec_is_letter(s[p]) {
        Some((seq![s[p]], p + 1))
    } else {
        None
    }
}

/// The count claim readable at position `i`, if any: a known number word
/// (optionally preceded, when it is itself worth twenty or more, joined by
/// a hyphen or space to a second known word), one whitespace character, a
/// character word, and an optional "'s" or "s" tail. Yields the number
/// text, the character word, and the position right after the claim.
pub open spec fn spec_match_at(s: Seq<char>, i: int, punct: bool) -> Option<
    (Seq<char>, Seq<char>, int),
> {
    if !(0 <= i < s.len() && spec_boundary(s, i) && spec_is_letter(s[i])) {
        None
    } else {
        let j = spec_run_end(s, i);
        match spec_word_value(s.subrange(i, j)) {
            None => None,
            Some(v1) => {
                let two = v1 >= 20 && j + 1 < s.len() && (s[j] == '-' || s[j] == ' ')
                    && spec_is_letter(s[j + 1]) && spec_word_value(
                    s.subrange(j + 1, spec_run_end(s, j + 1)),
                ) is Some;
                let num_end = if two {
                    spec_run_end(s, j + 1)
                } else {
                    j
                };
                if num_end < s.len() && spec_is_space(s[num_end]) {
                    match spec_char_match(s, num_end + 1, punct) {
                        None => None,
                        Some((cw, q)) => {
                            let q2 = if q < s.len() && s[q] == '\'' {
                                q + 1
                            } else {
                                q
                            };
                            let q3 = if q2 < s.len() && s[q2] == 's' {
                                q2 + 1
                            } else {
                                q2
                            };
                            Some((s.subrange(i, num_end), cw, q3))
                        },
                    }
                } else {
                    None
                }
            },
        }
    }
}

/// Every claim of the text from position `i` on, leftmost first and
/// non-overlapping: scanning resumes right after each claim.
pub open spec fn spec_scan(s: Seq<char>, i: int, punct: bool) -> Seq<(Seq<char>, Seq<char>)>
    decreases s.len() - i,
{
    if i < 0 || i >= s.len() {
        Seq::<(Seq<char>, Seq<char>)>::empty()
    } else {
        match spec_match_at(s, i, punct) {
            None => spec_scan(s, i + 1, punct),
            Some((num, cw, end)) => {
                let nxt = if i < end && end <= s.len() {
                    end
                } else {
                    i + 1
                };
                seq![(num, cw)] + spec_scan(s, nxt, punct)
            },
        }
    }
}

fn run_end(v: &Vec<char>, i: usize) -> (r: usize)
    requires
        i <= v@.len(),
    ensures
        r as int == spec_run_end(v@, i as int),
        i <= r <= v@.len(),
{
    let mut j = i;
    while j < v.len() && is_letter(v[j])
        invariant
            i <= j <= v@.len(),
            spec_run_end(v@, i as int) == spec_run_end(v@, j as int),
        decreases v@.len() - j,
    {
        j += 1;
    }
    j
}

fn subvec(v: &Vec<char>, from: usize, to: usize) -> (r: Vec<char>)
    requires
        from <= to <= v@.len(),
    ensures
        r@ == v@.subrange(from as int, to as int),
{
    let mut r: Vec<char> = Vec::new();
    let mut k = from;
    while k < to
        invariant
            from <= k <= to <= v@.len(),
            r@ == v@.subrange(from as int, k as int),
        decreases to - k,
    {
        r.push(v[k]);
        proof {
            assert(v@.subrange(from as int, k + 1) =~= v@.subrange(from as int, k as int).push(
                v@[k as int],
            ));
        }
        k += 1;
    }
    r
}

fn matches_at(v: &Vec<char>, p: usize, w: &str) -> (r: bool)
    requires
        p <= v@.len(),
    ensures
        r == spec_matches_at(v@, p as int, w@),
{
    let n = w.unicode_len();
    let vn = v.len();
    if n > vn - p {
        return false;
    }
    let mut k: usize = 0;
    while k < n
        invariant
            k <= n,
            n == w@.len(),
            vn == v@.len(),
            p + n <= vn,
            forall|m: int| 0 <= m < k ==> v@[p + m] == w@[m],
        decreases n - k,
    {
        if v[p + k] != w.get_char(k) {
            proof {
                assert(v@.subrange(p as int, p + n)[k as int] == v@[p + k]);
            }
            return false;
        }
        k += 1;
    }
    proof {
        assert(v@.subrange(p as int, p + n) =~= w@);
    }
    true
}

fn char_match(v: &Vec<char>, p: usize, punct: bool) -> (r: Option<(Vec<char>, usize)>)
    requires
        p <= v@.len(),
    ensures
        match r {
            Some(t) => spec_char_match(v@, p as int, punct) == Some((t.0@, t.1 as int)) && p < t.1
                <= v@.len(),
            None => spec_char_match(v@, p as int, punct) is None,
        },
{
    let vn = v.len();
    proof {
        assert(vn == v@.len());
        reveal_strlit("comma");
        reveal_strlit("hyphen");
        reveal_strlit("apostrophe");
        reveal_strlit("period");
        reveal_strlit("!");
        assert("!"@ =~= seq!['!']);
    }
    if punct && matches_at(v, p, "comma") {
        let n = "comma".unicode_len();
        return Some((to_char_vec("comma"), p + n));
    }
    if punct && matches_at(v, p, "hyphen") {
        let n = "hyphen".unicode_len();
        return Some((to_char_vec("hyphen"), p + n));
    }
    if punct && matches_at(v, p, "apostrophe") {
        let n = "apostrophe".unicode_len();
        return Some((to_char_vec("apostrophe"), p + n));
    }
    if punct && matches_at(v, p, "period") {
        let n = "period".unicode_len();
        return Some((to_char_vec("period"), p + n));
    }
    if punct && p < vn && v[p] == '!' {
        return Some((to_char_vec("!"), p + 1));
    }
    if p < vn && is_letter(v[p]) {
        let mut cv: Vec<char> = Vec::new();
        cv.push(v[p]);
        proof {
            assert(cv@ =~= seq![v@[p as int]]);
        }
        return Some((cv, p + 1));
    }
    None
}

fn match_at(v: &Vec<char>, i: usize, punct: bool) -> (r: Option<(Vec<char>, Vec<char>, usize)>)
    requires
        i < v@.len(),
    ensures
        match r {
            Some(t) => spec_match_at(v@, i as int, punct) == Some((t.0@, t.1@, t.2 as int)) && i
                < t.2 <= v@.len(),
            None => spec_match_at(v@, i as int, punct) is None,
        },
{
    let bound = i == 0 || !is_letter(v[i - 1]);
    if !bound || !is_letter(v[i]) {
        return None;
    }
    let j = run_end(v, i);
    let w1 = subvec(v, i, j);
    let v1 = match word_value(&w1) {
        Some(x) => x,
        None => {
            return None;
        },
    };
    let mut num_end = j;
    if v1 >= 20 && v.len() - j > 1 && (v[j] == '-' || v[j] == ' ') && is_letter(v[j + 1]) {
        let k = run_end(v, j + 1);
        let w2 = subvec(v, j + 1, k);
        if word_value(&w2).is_some() {
            num_end = k;
        }
    }
    if !(num_end < v.len() && is_space(v[num_end])) {
        return None;
    }
    let num = subvec(v, i, num_end);
    match char_match(v, num_end + 1, punct) {
        None => None,
        Some((cw, q)) => {
            let mut q3 = q;
            if q3 < v.len() && v[q3] == '\'' {
                q3 = q3 + 1;
            }
            if q3 < v.len() && v[q3] == 's' {
                q3 = q3 + 1;
            }
            Some((num, cw, q3))
        },
    }
}

/// The texts of a vector of string pairs.
pub open spec fn spec_pair_texts(ps: Seq<(String, String)>) -> Seq<(Seq<char>, Seq<char>)> {
    ps.map_values(|p: (String, String)| (p.0@, p.1@))
}

impl crate::engine::Autogram {
    /// Every `<number words> <character word>['s]` claim of the sentence, in
    /// order of occurrence: the number text (hyphen or space included) and
    /// the character word, both lowercased.
    pub fn find_counts_and_chars(sentence: &str, include_punctuation: bool) -> (r: Vec<
        (String, String),
    >)
        ensures
            spec_pair_texts(r@) == spec_scan(spec_lower(sentence@), 0, include_punctuation),
    {
        let v = to_char_vec(sentence);
        let lv = lower_vec(&v);
        let mut out: Vec<(String, String)> = Vec::new();
        let mut i: usize = 0;
        proof {
            assert(spec_pair_texts(out@) =~= Seq::<(Seq<char>, Seq<char>)>::empty());
            assert(Seq::<(Seq<char>, Seq<char>)>::empty() + spec_scan(lv@, 0, include_punctuation)
                =~= spec_scan(lv@, 0, include_punctuation));
        }
        while i < lv.len()
            invariant
                i <= lv@.len(),
                lv@ == spec_lower(sentence@),
                spec_pair_texts(out@) + spec_scan(lv@, i as int, include_punctuation) == spec_scan(
                    lv@,
                    0,
                    include_punctuation,
                ),
            decreases lv@.len() - i,
        {
            let ghost old_pt = spec_pair_texts(out@);
            match match_at(&lv, i, include_punctuation) {
                None => {
                    i += 1;
                },
                Some((num, cw, end)) => {
                    let ns = chars_to_string(&num);
                    let cs = chars_to_string(&cw);
                    out.push((ns, cs));
                    proof {
                        assert(spec_pair_texts(out@) =~= old_pt.push((num@, cw@)));
                        assert(spec_scan(lv@, i as int, include_punctuation) == seq![(num@, cw@)]
                            + spec_scan(lv@, end as int, include_punctuation));
                        assert(old_pt.push((num@, cw@)) + spec_scan(lv@, end as int,
                            include_punctuation) =~= old_pt + (seq![(num@, cw@)] + spec_scan(
                            lv@,
                            end as int,
                            include_punctuation,
                        )));
                    }
                    i = end;
                },
            }
        }
        proof {
            assert(spec_scan(lv@, i as int, include_punctuation)
                =~= Seq::<(Seq<char>, Seq<char>)>::empty());
            assert(spec_pair_texts(out@) + Seq::<(Seq<char>, Seq<char>)>::empty() =~= spec_pair_texts(
                out@,
            ));
        }
        out
    }
}

/// The character a character word names: a single letter names itself, the
/// punctuation names and the bang name their characters.
pub open spec fn spec_word_to_char(w: Seq<char>) -> Option<char> {
    if w.len() == 1 && spec_is_letter(w[0]) {
        Some(w[0])
    } else if w == "comma"@ {
        Some(',')
    } else if w == "hyphen"@ {
        Some('-')
    } else if w == "apostrophe"@ {
        Some('\'')
    } else if w == "period"@ {
        Some('.')
    } else if w == "!"@ {
        Some('!')
    } else {
        None
    }
}

pub fn word_to_char(w: &str) -> (r: Option<char>)
    ensures
        r == spec_word_to_char(w@),
{
    let cv = to_char_vec(w);
    if cv.len() == 1 && is_letter(cv[0]) {
        Some(cv[0])
    } else if char_vec_eq_str(&cv, "comma") {
        Some(',')
    } else if char_vec_eq_str(&cv, "hyphen") {
        Some('-')
    } else if char_vec_eq_str(&cv, "apostrophe") {
        Some('\'')
    } else if char_vec_eq_str(&cv, "period") {
        Some('.')
    } else if char_vec_eq_str(&cv, "!") {
        Some('!')
    } else {
        None
    }
}

/// The number a claim's number text parses to, if its words split into at
/// most two known lexicon words.
pub open spec fn spec_parse_claim_num(t: Seq<char>) -> Option<i32> {
    let ws = spec_split(spec_lower(t));
    if ws.len() <= 2 && spec_first_unknown(ws) is None {
        Some(spec_sum_words(ws) as i32)
    } else {
        None
    }
}

/// Applying one extracted claim to the claimed-count table: when both its
/// number and its character word parse, the character's entry is set to the
/// claimed number (a later claim for the same character wins); otherwise
/// the claim is ignored.
pub open spec fn spec_apply_claim(
    cl: Seq<Option<i32>>,
    alpha: Seq<char>,
    pr: (Seq<char>, Seq<char>),
) -> Seq<Option<i32>> {
    match (spec_parse_claim_num(pr.0), spec_word_to_char(pr.1)) {
        (Some(n), Some(c)) => Seq::new(
            cl.len(),
            |ix: int|
                if alpha[ix] == c {
                    Some(n)
                } else {
                    cl[ix]
                },
        ),
        _ => cl,
    }
}

/// The claimed counts after the first `k` claims, starting from an empty
/// table.
pub open spec fn spec_claimed_upto(
    pairs: Seq<(Seq<char>, Seq<char>)>,
    alpha: Seq<char>,
    k: int,
) -> Seq<Option<i32>>
    decreases k,
{
    if k <= 0 {
        Seq::new(alpha.len(), |ix: int| None::<i32>)
    } else {
        spec_apply_claim(spec_claimed_upto(pairs, alpha, k - 1), alpha, pairs[k - 1])
    }
}

/// The claimed counts of a sentence: every extracted claim applied in
/// order.
pub open spec fn spec_claimed(pairs: Seq<(Seq<char>, Seq<char>)>, alpha: Seq<char>) -> Seq<
    Option<i32>,
> {
    spec_claimed_upto(pairs, alpha, pairs.len() as int)
}

/// One per-character finding of the validator.
#[derive(Debug, Clone, Copy, PartialEq, Eq, Structural)]
pub enum Diagnostic {
    /// The sentence claims this character's true count.
    Verified { ch: char, count: u64 },
    /// The sentence claims a different count for this character.
    Mismatch { ch: char, true_count: u64, claimed: i32 },
    /// The sentence claims nothing for a character it contains.
    Missing { ch: char, true_count: u64 },
}

/// The sentence claims a count for a character it does not contain: the
/// claimed table is inconsistent with the tracked alphabet, a fault of the
/// extraction rather than an ordinary invalid sentence.
#[derive(Debug, Clone, Copy, PartialEq, Eq, Structural)]
pub struct ExtractionInconsistency {
    pub ch: char,
    pub claimed: i32,
}

/// The validator's answer: overall validity and one diagnostic per
/// character the sentence contains, in alphabet order.
#[derive(Debug)]
pub struct ValidationReport {
    pub valid: bool,
    pub diagnostics: Vec<Diagnostic>,
}

/// The diagnostic for one alphabet position, empty when the character does
/// not occur in the sentence.
pub open spec fn spec_diag_at(
    tc: Seq<u64>,
    cl: Seq<Option<i32>>,
    alpha: Seq<char>,
    ix: int,
) -> Seq<Diagnostic> {
    if tc[ix] == 0 {
        Seq::<Diagnostic>::empty()
    } else {
        match cl[ix] {
            Some(c) => if c as int == tc[ix] as int {
                seq![Diagnostic::Verified { ch: alpha[ix], count: tc[ix] }]
            } else {
                seq![Diagnostic::Mismatch { ch: alpha[ix], true_count: tc[ix], claimed: c }]
            },
            None => seq![Diagnostic::Missing { ch: alpha[ix], true_count: tc[ix] }],
        }
    }
}

pub open spec fn spec_diags_upto(
    tc: Seq<u64>,
    cl: Seq<Option<i32>>,
    alpha: Seq<char>,
    k: int,
) -> Seq<Diagnostic>
    decreases k,
{
    if k <= 0 {
        Seq::<Diagnostic>::empty()
    } else {
        spec_diags_upto(tc, cl, alpha, k - 1) + spec_diag_at(tc, cl, alpha, k - 1)
    }
}

/// Every character the sentence contains is claimed with its true count.
pub open spec fn spec_all_valid(tc: Seq<u64>, cl: Seq<Option<i32>>, n: int) -> bool {
    forall|ix: int|
        0 <= ix < n && tc[ix] != 0 ==> (#[trigger] cl[ix] matches Some(c) && c as int
            == tc[ix] as int)
}

/// Some character is claimed although the sentence does not contain it.
pub open spec fn spec_has_leftover(tc: Seq<u64>, cl: Seq<Option<i32>>, n: int) -> bool {
    exists|ix: int| 0 <= ix < n && tc[ix] == 0 && (#[trigger] cl[ix]) is Some
}

/// Compares true counts against claimed counts over an alphabet: a
/// diagnostic for every character the sentence contains, overall validity,
/// and a distinct inconsistency error when a character is claimed that the
/// sentence does not contain.
pub fn compare_counts(
    true_counts: &Vec<u64>,
    claimed: &Vec<Option<i32>>,
    alpha: &Vec<char>,
) -> (r: Result<ValidationReport, ExtractionInconsistency>)
    requires
        true_counts@.len() == alpha@.len(),
        claimed@.len() == alpha@.len(),
    ensures
        ({
            let n = alpha@.len() as int;
            match r {
                Ok(rep) => !spec_has_leftover(true_counts@, claimed@, n) && rep.valid
                    == spec_all_valid(true_counts@, claimed@, n) && rep.diagnostics@
                    == spec_diags_upto(true_counts@, claimed@, alpha@, n),
                Err(e) => spec_has_leftover(true_counts@, claimed@, n) && (exists|ix: int|
                    0 <= ix < n && true_counts@[ix] == 0 && #[trigger] claimed@[ix] == Some(
                        e.claimed,
                    ) && alpha@[ix] == e.ch),
            }
        }),
{
    let n = alpha.len();
    let mut diags: Vec<Diagnostic> = Vec::new();
    let mut valid = true;
    let mut leftover: Option<ExtractionInconsistency> = None;
    let mut ix: usize = 0;
    while ix < n
        invariant
            ix <= n,
            n == alpha@.len(),
            true_counts@.len() == n,
            claimed@.len() == n,
            diags@ == spec_diags_upto(true_counts@, claimed@, alpha@, ix as int),
            valid == spec_all_valid(true_counts@, claimed@, ix as int),
            match leftover {
                None => !spec_has_leftover(true_counts@, claimed@, ix as int),
                Some(e) => exists|k: int|
                    0 <= k < ix && true_counts@[k] == 0 && #[trigger] claimed@[k] == Some(
                        e.claimed,
                    ) && alpha@[k] == e.ch,
            },
        decreases n - ix,
    {
        let ghost old_diags = diags@;
        let t = true_counts[ix];
        let c = char_at(alpha, ix);
        if t != 0 {
            let ghost dx = spec_diag_at(true_counts@, claimed@, alpha@, ix as int);
            match claimed[ix] {
                Some(sc) => {
                    if sc >= 0 && sc as u64 == t {
                        diags.push(Diagnostic::Verified { ch: c, count: t });
                        proof {
                            assert((sc as u64) as int == sc as int);
                            assert(Seq::<Diagnostic>::empty().push(
                                Diagnostic::Verified { ch: c, count: t },
                            ).len() == 1);
                            assert(dx == Seq::<Diagnostic>::empty().push(
                                Diagnostic::Verified { ch: c, count: t },
                            ));
                        }
                    } else {
                        valid = false;
                        diags.push(Diagnostic::Mismatch { ch: c, true_count: t, claimed: sc });
                        proof {
                            if sc >= 0 {
                                assert((sc as u64) as int == sc as int);
                            }
                            assert(Seq::<Diagnostic>::empty().push(
                                Diagnostic::Mismatch { ch: c, true_count: t, claimed: sc },
                            ).len() == 1);
                            assert(dx == Seq::<Diagnostic>::empty().push(
                                Diagnostic::Mismatch { ch: c, true_count: t, claimed: sc },
                            ));
                        }
                    }
                },
                None => {
                    valid = false;
                    diags.push(Diagnostic::Missing { ch: c, true_count: t });
                    proof {
                        assert(Seq::<Diagnostic>::empty().push(
                            Diagnostic::Missing { ch: c, true_count: t },
                        ).len() == 1);
                        assert(dx == Seq::<Diagnostic>::empty().push(
                            Diagnostic::Missing { ch: c, true_count: t },
                        ));
                    }
                },
            }
            proof {
                assert(diags@ =~= old_diags + dx);
            }
        } else {
            if leftover.is_none() {
                match claimed[ix] {
                    Some(sc) => {
                        leftover = Some(ExtractionInconsistency { ch: c, claimed: sc });
                    },
                    None => {},
                }
            }
            proof {
                assert(diags@ =~= old_diags + spec_diag_at(
                    true_counts@,
                    claimed@,
                    alpha@,
                    ix as int,
                ));
            }
        }
        ix += 1;
    }
    match leftover {
        Some(e) => Err(e),
        None => Ok(ValidationReport { valid, diagnostics: diags }),
    }
}

/// Builds the claimed-count table from the extracted claims.
pub fn claimed_counts(pairs: &Vec<(String, String)>, alpha: &Vec<char>) -> (r: Vec<Option<i32>>)
    ensures
        r@ == spec_claimed(spec_pair_texts(pairs@), alpha@),
        r@.len() == alpha@.len(),
{
    let ghost pt = spec_pair_texts(pairs@);
    let mut cl: Vec<Option<i32>> = Vec::new();
    let mut ix: usize = 0;
    while ix < alpha.len()
        invariant
            ix <= alpha@.len(),
            cl@.len() == ix,
            forall|k: int| 0 <= k < ix ==> cl@[k] is None,
        decreases alpha@.len() - ix,
    {
        cl.push(None);
        ix += 1;
    }
    proof {
        assert(cl@ =~= spec_claimed_upto(pt, alpha@, 0));
    }
    let mut k: usize = 0;
    while k < pairs.len()
        invariant
            k <= pairs@.len(),
            pt == spec_pair_texts(pairs@),
            pt.len() == pairs@.len(),
            cl@.len() == alpha@.len(),
            cl@ == spec_claimed_upto(pt, alpha@, k as int),
        decreases pairs@.len() - k,
    {
        let ghost old_cl = cl@;
        proof {
            assert(pt[k as int] == (pairs@[k as int].0@, pairs@[k as int].1@));
        }
        let num = match words_to_num(pairs[k].0.as_str()) {
            Ok(x) => Some(x),
            Err(_) => None,
        };
        let chr = word_to_char(pairs[k].1.as_str());
        proof {
            match num {
                Some(x) => {
                    assert(spec_parse_claim_num(pt[k as int].0) == Some(x));
                },
                None => {
                    assert(spec_parse_claim_num(pt[k as int].0) is None);
                },
            }
        }
        match (num, chr) {
            (Some(nv), Some(cv)) => {
                let mut ix2: usize = 0;
                while ix2 < alpha.len()
                    invariant
                        ix2 <= alpha@.len(),
                        cl@.len() == alpha@.len(),
                        forall|m: int|
                            0 <= m < ix2 ==> cl@[m] == (if alpha@[m] == cv {
                                Some(nv)
                            } else {
                                old_cl[m]
                            }),
                        forall|m: int| ix2 <= m < alpha@.len() ==> cl@[m] == old_cl[m],
                    decreases alpha@.len() - ix2,
                {
                    if alpha[ix2] == cv {
                        cl.set(ix2, Some(nv));
                    }
                    ix2 += 1;
                }
                proof {
                    assert(cl@ =~= spec_apply_claim(old_cl, alpha@, pt[k as int]));
                }
            },
            _ => {
                proof {
                    assert(cl@ =~= spec_apply_claim(old_cl, alpha@, pt[k as int]));
                }
            },
        }
        k += 1;
    }
    cl
}

/// Validates a sentence against its own claims: counts every countable
/// character of the lowercased sentence, extracts and parses every claim,
/// and compares the two tables character by character. A claim for a
/// character the sentence does not contain is an extraction inconsistency,
/// reported as an error distinct from an ordinary invalid answer.
pub fn validate_autogram(sentence: &str, include_punctuation: bool) -> (r: Result<
    ValidationReport,
    ExtractionInconsistency,
>)
    ensures
        ({
            let alpha = spec_alphabet(include_punctuation);
            let n = alpha.len() as int;
            let tc = spec_counts_seq(spec_lower(sentence@), alpha);
            let cl = spec_claimed(spec_scan(spec_lower(sentence@), 0, include_punctuation), alpha);
            match r {
                Ok(rep) => !spec_has_leftover(tc, cl, n) && rep.valid == spec_all_valid(tc, cl, n)
                    && rep.diagnostics@ == spec_diags_upto(tc, cl, alpha, n),
                Err(e) => spec_has_leftover(tc, cl, n) && (exists|ix: int|
                    0 <= ix < n && tc[ix] == 0 && #[trigger] cl[ix] == Some(e.claimed) && alpha[ix]
                        == e.ch),
            }
        }),
{
    let alpha = alphabet(include_punctuation);
    let v = to_char_vec(sentence);
    let lv = lower_vec(&v);
    let tc = counts_of_chars(&lv, &alpha);
    let pairs = crate::engine::Autogram::find_counts_and_chars(sentence, include_punctuation);
    let cl = claimed_counts(&pairs, &alpha);
    compare_counts(&tc, &cl, &alpha)
}

} // verus!
