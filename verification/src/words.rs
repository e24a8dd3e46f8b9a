use vstd::prelude::*;
use vstd::string::*;
use crate::text::{spec_lower, spec_lower_char, to_char_vec, lower_vec, char_vec_eq_str,
    chars_to_string};

verus! {

/// The word for one entry of the number lexicon: 0 to 20 and the tens up to
/// ninety. Any other value has no single-word form and maps to the empty text.
pub open spec fn spec_unit_word(n: int) -> Seq<char> {
    if n == 0 { "zero"@ }
    else if n == 1 { "one"@ }
    else if n == 2 { "two"@ }
    else if n == 3 { "three"@ }
    else if n == 4 { "four"@ }
    else if n == 5 { "five"@ }
    else if n == 6 { "six"@ }
    else if n == 7 { "seven"@ }
    else if n == 8 { "eight"@ }
    else if n == 9 { "nine"@ }
    else if n == 10 { "ten"@ }
    else if n == 11 { "eleven"@ }
    else if n == 12 { "twelve"@ }
    else if n == 13 { "thirteen"@ }
    else if n == 14 { "fourteen"@ }
    else if n == 15 { "fifteen"@ }
    else if n == 16 { "sixteen"@ }
    else if n == 17 { "seventeen"@ }
    else if n == 18 { "eighteen"@ }
    else if n == 19 { "nineteen"@ }
    else if n == 20 { "twenty"@ }
    else if n == 30 { "thirty"@ }
    else if n == 40 { "forty"@ }
    else if n == 50 { "fifty"@ }
    else if n == 60 { "sixty"@ }
    else if n == 70 { "seventy"@ }
    else if n == 80 { "eighty"@ }
    else if n == 90 { "ninety"@ }
    else { Seq::<char>::empty() }
}

/// True for the values that the lexicon writes as a single word.
pub open spec fn spec_is_unit(n: int) -> bool {
    (0 <= n <= 20) || (20 < n <= 90 && n % 10 == 0)
}

/// English rendering of an integer: single words up to twenty and for the
/// tens, hyphenated tens-ones, "hundred and", "thousand", with a sentinel
/// text for anything above ten thousand (negative values included).
pub open spec fn spec_num_words(n: int) -> Seq<char>
    decreases n,
{
    if 0 <= n <= 20 { spec_unit_word(n) }
    else if 21 <= n <= 99 && n % 10 == 0 { spec_unit_word(n) }
    else if 21 <= n <= 99 { spec_unit_word(n / 10 * 10) + "-"@ + spec_unit_word(n % 10) }
    else if 100 <= n <= 999 && n % 100 == 0 { spec_unit_word(n / 100) + " hundred"@ }
    else if 100 <= n <= 999 { spec_unit_word(n / 100) + " hundred and "@ + spec_num_words(n % 100) }
    else if 1000 <= n <= 9999 && n % 1000 == 0 { spec_unit_word(n / 1000) + " thousand"@ }
    else if 1000 <= n <= 9999 { spec_unit_word(n / 1000) + " thousand "@ + spec_num_words(n % 1000) }
    else if n == 10000 { "ten thousand"@ }
    else { "more than ten thousand"@ }
}

/// The value of one lexicon word, "single" counting as one.
pub open spec fn spec_word_value(w: Seq<char>) -> Option<int> {
    if w == "zero"@ { Some(0int) }
    else if w == "single"@ { Some(1int) }
    else if w == "one"@ { Some(1int) }
    else if w == "two"@ { Some(2int) }
    else if w == "three"@ { Some(3int) }
    else if w == "four"@ { Some(4int) }
    else if w == "five"@ { Some(5int) }
    else if w == "six"@ { Some(6int) }
    else if w == "seven"@ { Some(7int) }
    else if w == "eight"@ { Some(8int) }
    else if w == "nine"@ { Some(9int) }
    else if w == "ten"@ { Some(10int) }
    else if w == "eleven"@ { Some(11int) }
    else if w == "twelve"@ { Some(12int) }
    else if w == "thirteen"@ { Some(13int) }
    else if w == "fourteen"@ { Some(14int) }
    else if w == "fifteen"@ { Some(15int) }
    else if w == "sixteen"@ { Some(16int) }
    else if w == "seventeen"@ { Some(17int) }
    else if w == "eighteen"@ { Some(18int) }
    else if w == "nineteen"@ { Some(19int) }
    else if w == "twenty"@ { Some(20int) }
    else if w == "thirty"@ { Some(30int) }
    else if w == "forty"@ { Some(40int) }
    else if w == "fifty"@ { Some(50int) }
    else if w == "sixty"@ { Some(60int) }
    else if w == "seventy"@ { Some(70int) }
    else if w == "eighty"@ { Some(80int) }
    else if w == "ninety"@ { Some(90int) }
    else { None }
}

/// The separators that number-word parsing splits on.
pub open spec fn spec_is_sep(c: char) -> bool {
    c == '-' || c == ' '
}

pub open spec fn spec_no_sep(w: Seq<char>) -> bool {
    forall|i: int| 0 <= i < w.len() ==> !spec_is_sep(#[trigger] w[i])
}

pub open spec fn spec_split_rec(s: Seq<char>, cur: Seq<char>, acc: Seq<Seq<char>>) -> Seq<Seq<char>>
    decreases s.len(),
{
    if s.len() == 0 {
        acc.push(cur)
    } else if spec_is_sep(s[0]) {
        spec_split_rec(s.drop_first(), Seq::<char>::empty(), acc.push(cur))
    } else {
        spec_split_rec(s.drop_first(), cur.push(s[0]), acc)
    }
}

/// Splitting a text at '-' and ' ', keeping empty words, as Rust's `split`
/// with those two separators does.
pub open spec fn spec_split(s: Seq<char>) -> Seq<Seq<char>> {
    spec_split_rec(s, Seq::<char>::empty(), Seq::<Seq<char>>::empty())
}

/// The sum of the values of a list of words, unknown words counting zero.
pub open spec fn spec_sum_words(ws: Seq<Seq<char>>) -> int
    decreases ws.len(),
{
    if ws.len() == 0 {
        0
    } else {
        (match spec_word_value(ws[0]) {
            Some(v) => v,
            None => 0,
        }) + spec_sum_words(ws.drop_first())
    }
}

/// The first word of the list that the lexicon does not know, if any.
pub open spec fn spec_first_unknown(ws: Seq<Seq<char>>) -> Option<Seq<char>>
    decreases ws.len(),
{
    if ws.len() == 0 {
        None
    } else if spec_word_value(ws[0]) is None {
        Some(ws[0])
    } else {
        spec_first_unknown(ws.drop_first())
    }
}

/// How parsing a number-word text fails.
#[derive(Debug)]
pub enum ParseNumError {
    /// More than two words after splitting at '-' and ' '.
    TooManyWords,
    /// A word that the lexicon does not know, carried as the offending token.
    UnknownWord(String),
}

fn unit_word(n: i32) -> (r: &'static str)
    ensures
        r@ == spec_unit_word(n as int),
{
    proof {
        reveal_strlit("");
        assert(""@ =~= Seq::<char>::empty());
    }
    match n {
        0 => "zero",
        1 => "one",
        2 => "two",
        3 => "three",
        4 => "four",
        5 => "five",
        6 => "six",
        7 => "seven",
        8 => "eight",
        9 => "nine",
        10 => "ten",
        11 => "eleven",
        12 => "twelve",
        13 => "thirteen",
        14 => "fourteen",
        15 => "fifteen",
        16 => "sixteen",
        17 => "seventeen",
        18 => "eighteen",
        19 => "nineteen",
        20 => "twenty",
        30 => "thirty",
        40 => "forty",
        50 => "fifty",
        60 => "sixty",
        70 => "seventy",
        80 => "eighty",
        90 => "ninety",
        _ => "",
    }
}

/// Renders an integer as English number words; values above ten thousand
/// (and negative ones) render as a sentinel text rather than failing.
pub fn num_to_words(num: i32) -> (r: String)
    ensures
        r@ == spec_num_words(num as int),
    decreases num,
{
    if 0 <= num && num <= 20 {
        String::from_str(unit_word(num))
    } else if 21 <= num && num <= 99 && num % 10 == 0 {
        String::from_str(unit_word(num))
    } else if 21 <= num && num <= 99 {
        let mut s = String::from_str(unit_word(num / 10 * 10));
        s.append("-");
        s.append(unit_word(num % 10));
        s
    } else if 100 <= num && num <= 999 && num % 100 == 0 {
        let mut s = String::from_str(unit_word(num / 100));
        s.append(" hundred");
        s
    } else if 100 <= num && num <= 999 {
        let mut s = String::from_str(unit_word(num / 100));
        s.append(" hundred and ");
        let rest = num_to_words(num % 100);
        s.append(rest.as_str());
        s
    } else if 1000 <= num && num <= 9999 && num % 1000 == 0 {
        let mut s = String::from_str(unit_word(num / 1000));
        s.append(" thousand");
        s
    } else if 1000 <= num && num <= 9999 {
        let mut s = String::from_str(unit_word(num / 1000));
        s.append(" thousand ");
        let rest = num_to_words(num % 1000);
        s.append(rest.as_str());
        s
    } else if num == 10000 {
        String::from_str("ten thousand")
    } else {
        String::from_str("more than ten thousand")
    }
}

/// Rendering for the unsigned counters the search works with: the same words,
/// with the sentinel text for everything above ten thousand.
pub fn num_words_u64(n: u64) -> (r: String)
    ensures
        r@ == spec_num_words(n as int),
{
    if n > 10000 {
        String::from_str("more than ten thousand")
    } else {
        num_to_words(n as i32)
    }
}

pub(crate) fn word_value(v: &Vec<char>) -> (r: Option<i32>)
    ensures
        match r {
            Some(x) => spec_word_value(v@) == Some(x as int),
            None => spec_word_value(v@) is None,
        },
{
    if char_vec_eq_str(v, "zero") { Some(0) }
    else if char_vec_eq_str(v, "single") { Some(1) }
    else if char_vec_eq_str(v, "one") { Some(1) }
    else if char_vec_eq_str(v, "two") { Some(2) }
    else if char_vec_eq_str(v, "three") { Some(3) }
    else if char_vec_eq_str(v, "four") { Some(4) }
    else if char_vec_eq_str(v, "five") { Some(5) }
    else if char_vec_eq_str(v, "six") { Some(6) }
    else if char_vec_eq_str(v, "seven") { Some(7) }
    else if char_vec_eq_str(v, "eight") { Some(8) }
    else if char_vec_eq_str(v, "nine") { Some(9) }
    else if char_vec_eq_str(v, "ten") { Some(10) }
    else if char_vec_eq_str(v, "eleven") { Some(11) }
    else if char_vec_eq_str(v, "twelve") { Some(12) }
    else if char_vec_eq_str(v, "thirteen") { Some(13) }
    else if char_vec_eq_str(v, "fourteen") { Some(14) }
    else if char_vec_eq_str(v, "fifteen") { Some(15) }
    else if char_vec_eq_str(v, "sixteen") { Some(16) }
    else if char_vec_eq_str(v, "seventeen") { Some(17) }
    else if char_vec_eq_str(v, "eighteen") { Some(18) }
    else if char_vec_eq_str(v, "nineteen") { Some(19) }
    else if char_vec_eq_str(v, "twenty") { Some(20) }
    else if char_vec_eq_str(v, "thirty") { Some(30) }
    else if char_vec_eq_str(v, "forty") { Some(40) }
    else if char_vec_eq_str(v, "fifty") { Some(50) }
    else if char_vec_eq_str(v, "sixty") { Some(60) }
    else if char_vec_eq_str(v, "seventy") { Some(70) }
    else if char_vec_eq_str(v, "eighty") { Some(80) }
    else if char_vec_eq_str(v, "ninety") { Some(90) }
    else { None }
}

/// Every known word is worth between zero and ninety.
pub proof fn lemma_word_value_bounds(w: Seq<char>)
    ensures
        match spec_word_value(w) {
            Some(v) => 0 <= v <= 90,
            None => true,
        },
{
}

fn split_words(v: &Vec<char>) -> (r: Vec<Vec<char>>)
    ensures
        r.deep_view() == spec_split(v@),
{
    let mut acc: Vec<Vec<char>> = Vec::new();
    let mut cur: Vec<char> = Vec::new();
    let mut i: usize = 0;
    proof {
        assert(acc.deep_view() =~~= Seq::<Seq<char>>::empty());
        assert(v@.skip(0) =~= v@);
    }
    while i < v.len()
        invariant
            i <= v@.len(),
            spec_split_rec(v@.skip(i as int), cur@, acc.deep_view()) == spec_split(v@),
        decreases v@.len() - i,
    {
        let ghost pre = v@.skip(i as int);
        let ghost old_acc = acc.deep_view();
        let ghost old_cur = cur@;
        proof {
            assert(pre.len() > 0);
            assert(pre[0] == v@[i as int]);
            assert(pre.drop_first() =~= v@.skip(i + 1));
        }
        let c = v[i];
        if c == '-' || c == ' ' {
            acc.push(cur);
            cur = Vec::new();
            proof {
                assert(acc.deep_view() =~~= old_acc.push(old_cur));
            }
        } else {
            cur.push(c);
        }
        i += 1;
    }
    proof {
        assert(v@.skip(v@.len() as int) =~= Seq::<char>::empty());
    }
    let ghost old_acc = acc.deep_view();
    let ghost old_cur = cur@;
    acc.push(cur);
    proof {
        assert(acc.deep_view() =~~= old_acc.push(old_cur));
    }
    acc
}

/// Parses a number-word text of at most two '-' or ' ' separated words,
/// lowercasing first, and sums the word values; the first unknown word is
/// reported as the offending token.
pub fn words_to_num(words: &str) -> (r: Result<i32, ParseNumError>)
    ensures
        ({
            let ws = spec_split(spec_lower(words@));
            match r {
                Ok(v) => ws.len() <= 2 && spec_first_unknown(ws) is None && v as int
                    == spec_sum_words(ws),
                Err(ParseNumError::TooManyWords) => ws.len() > 2,
                Err(ParseNumError::UnknownWord(t)) => ws.len() <= 2 && (spec_first_unknown(ws)
                    matches Some(u) && t@ == u),
            }
        }),
{
    let v = to_char_vec(words);
    let lv = lower_vec(&v);
    let ws = split_words(&lv);
    let ghost wsd = spec_split(spec_lower(words@));
    proof {
        assert(ws.deep_view() == wsd);
        assert(ws.deep_view().len() == ws@.len());
    }
    if ws.len() > 2 {
        return Err(ParseNumError::TooManyWords);
    }
    let mut sum: i32 = 0;
    if ws.len() >= 1 {
        proof {
            assert(ws.deep_view()[0] =~= ws@[0]@);
            lemma_word_value_bounds(wsd[0]);
        }
        match word_value(&ws[0]) {
            Some(x) => {
                sum = x;
            },
            None => {
                return Err(ParseNumError::UnknownWord(chars_to_string(&ws[0])));
            },
        }
    }
    if ws.len() == 2 {
        proof {
            assert(ws.deep_view()[1] =~= ws@[1]@);
            assert(wsd.drop_first()[0] == wsd[1]);
            lemma_word_value_bounds(wsd[1]);
        }
        match word_value(&ws[1]) {
            Some(x) => {
                sum = sum + x;
            },
            None => {
                proof {
                    assert(spec_first_unknown(wsd.drop_first()) == Some(wsd[1]));
                    assert(spec_first_unknown(wsd) == Some(wsd[1]));
                }
                return Err(ParseNumError::UnknownWord(chars_to_string(&ws[1])));
            },
        }
        proof {
            assert(wsd.drop_first().drop_first().len() == 0);
            assert(spec_sum_words(wsd.drop_first().drop_first()) == 0);
            assert(spec_sum_words(wsd.drop_first()) == (match spec_word_value(wsd[1]) {
                Some(x) => x,
                None => 0,
            }));
            assert(spec_sum_words(wsd) == (match spec_word_value(wsd[0]) {
                Some(x) => x,
                None => 0,
            }) + spec_sum_words(wsd.drop_first()));
            assert(spec_first_unknown(wsd.drop_first().drop_first()) is None);
            assert(spec_first_unknown(wsd.drop_first()) is None);
            assert(spec_first_unknown(wsd) is None);
        }
    }
    proof {
        if wsd.len() == 1 {
            assert(wsd.drop_first().len() == 0);
            assert(spec_sum_words(wsd.drop_first()) == 0);
            assert(spec_sum_words(wsd) == (match spec_word_value(wsd[0]) {
                Some(x) => x,
                None => 0,
            }));
            assert(spec_first_unknown(wsd.drop_first()) is None);
            assert(spec_first_unknown(wsd) is None);
        }
    }
    Ok(sum)
}

proof fn lemma_no_sep_drop_first(s: Seq<char>)
    requires
        spec_no_sep(s),
        s.len() > 0,
    ensures
        spec_no_sep(s.drop_first()),
{
    assert forall|i: int| 0 <= i < s.drop_first().len() implies !spec_is_sep(
        #[trigger] s.drop_first()[i],
    ) by {
        assert(s.drop_first()[i] == s[i + 1]);
    }
}

proof fn lemma_split_rec_no_sep(s: Seq<char>, cur: Seq<char>, acc: Seq<Seq<char>>)
    requires
        spec_no_sep(s),
    ensures
        spec_split_rec(s, cur, acc) == acc.push(cur + s),
    decreases s.len(),
{
    if s.len() == 0 {
        assert(cur + s =~= cur);
    } else {
        assert(!spec_is_sep(s[0]));
        lemma_no_sep_drop_first(s);
        lemma_split_rec_no_sep(s.drop_first(), cur.push(s[0]), acc);
        assert(cur.push(s[0]) + s.drop_first() =~= cur + s);
    }
}

proof fn lemma_split_rec_skip(a: Seq<char>, rest: Seq<char>, cur: Seq<char>, acc: Seq<Seq<char>>)
    requires
        spec_no_sep(a),
    ensures
        spec_split_rec(a + rest, cur, acc) == spec_split_rec(rest, cur + a, acc),
    decreases a.len(),
{
    if a.len() == 0 {
        assert(a + rest =~= rest);
        assert(cur + a =~= cur);
    } else {
        assert((a + rest).len() > 0);
        assert((a + rest)[0] == a[0]);
        assert(!spec_is_sep(a[0]));
        assert((a + rest).drop_first() =~= a.drop_first() + rest);
        lemma_no_sep_drop_first(a);
        lemma_split_rec_skip(a.drop_first(), rest, cur.push(a[0]), acc);
        assert(cur.push(a[0]) + a.drop_first() =~= cur + a);
    }
}

/// Splitting a single word without separators gives back that word alone.
proof fn lemma_split_single(a: Seq<char>)
    requires
        spec_no_sep(a),
    ensures
        spec_split(a) == seq![a],
{
    lemma_split_rec_no_sep(a, Seq::<char>::empty(), Seq::<Seq<char>>::empty());
    assert(Seq::<char>::empty() + a =~= a);
    assert(Seq::<Seq<char>>::empty().push(a) =~= seq![a]);
}

/// Splitting two separator-free words joined by one separator gives the pair.
proof fn lemma_split_pair(a: Seq<char>, sep: char, b: Seq<char>)
    requires
        spec_no_sep(a),
        spec_no_sep(b),
        spec_is_sep(sep),
    ensures
        spec_split(a + seq![sep] + b) == seq![a, b],
{
    let mid = seq![sep] + b;
    assert(a + seq![sep] + b =~= a + mid);
    lemma_split_rec_skip(a, mid, Seq::<char>::empty(), Seq::<Seq<char>>::empty());
    let cur = Seq::<char>::empty() + a;
    assert(cur =~= a);
    assert(mid.len() > 0);
    assert(spec_is_sep(mid[0]));
    assert(mid.drop_first() =~= b);
    lemma_split_rec_no_sep(b, Seq::<char>::empty(), Seq::<Seq<char>>::empty().push(a));
    assert(Seq::<char>::empty() + b =~= b);
    assert(Seq::<Seq<char>>::empty().push(a).push(b) =~= seq![a, b]);
}

/// The facts the round trip needs of each single-word lexicon entry: no
/// separator occurs in it, it is already lowercase, and parsing it back
/// yields its value.
proof fn lemma_unit_word_facts(n: int)
    requires
        spec_is_unit(n),
    ensures
        spec_no_sep(spec_unit_word(n)),
        spec_lower(spec_unit_word(n)) == spec_unit_word(n),
        spec_word_value(spec_unit_word(n)) == Some(n),
{
    reveal_strlit("zero");
    reveal_strlit("single");
    reveal_strlit("one");
    reveal_strlit("two");
    reveal_strlit("three");
    reveal_strlit("four");
    reveal_strlit("five");
    reveal_strlit("six");
    reveal_strlit("seven");
    reveal_strlit("eight");
    reveal_strlit("nine");
    reveal_strlit("ten");
    reveal_strlit("eleven");
    reveal_strlit("twelve");
    reveal_strlit("thirteen");
    reveal_strlit("fourteen");
    reveal_strlit("fifteen");
    reveal_strlit("sixteen");
    reveal_strlit("seventeen");
    reveal_strlit("eighteen");
    reveal_strlit("nineteen");
    reveal_strlit("twenty");
    reveal_strlit("thirty");
    reveal_strlit("forty");
    reveal_strlit("fifty");
    reveal_strlit("sixty");
    reveal_strlit("seventy");
    reveal_strlit("eighty");
    reveal_strlit("ninety");
    let w = spec_unit_word(n);
    assert(spec_no_sep(w));
    assert(spec_lower(w) =~= w);
        if n == 0 {
            assert(spec_word_value(w) == Some(0int));
        } else if n == 1 {
            assert(spec_word_value(w) == Some(1int));
        } else if n == 2 {
            assert("two"@ != "one"@) by {
                assert("two"@[0] == 't');
                assert("one"@[0] == 'o');
            }
            assert(spec_word_value(w) == Some(2int));
        } else if n == 3 {
            assert(spec_word_value(w) == Some(3int));
        } else if n == 4 {
            assert("four"@ != "zero"@) by {
                assert("four"@[0] == 'f');
                assert("zero"@[0] == 'z');
            }
            assert(spec_word_value(w) == Some(4int));
        } else if n == 5 {
            assert("five"@ != "zero"@) by {
                assert("five"@[0] == 'f');
                assert("zero"@[0] == 'z');
            }
            assert("five"@ != "four"@) by {
                assert("five"@[1] == 'i');
                assert("four"@[1] == 'o');
            }
            assert(spec_word_value(w) == Some(5int));
        } else if n == 6 {
            assert("six"@ != "one"@) by {
                assert("six"@[0] == 's');
                assert("one"@[0] == 'o');
            }
            assert("six"@ != "two"@) by {
                assert("six"@[0] == 's');
                assert("two"@[0] == 't');
            }
            assert(spec_word_value(w) == Some(6int));
        } else if n == 7 {
            assert("seven"@ != "three"@) by {
                assert("seven"@[0] == 's');
                assert("three"@[0] == 't');
            }
            assert(spec_word_value(w) == Some(7int));
        } else if n == 8 {
            assert("eight"@ != "three"@) by {
                assert("eight"@[0] == 'e');
                assert("three"@[0] == 't');
            }
            assert("eight"@ != "seven"@) by {
                assert("eight"@[0] == 'e');
                assert("seven"@[0] == 's');
            }
            assert(spec_word_value(w) == Some(8int));
        } else if n == 9 {
            assert("nine"@ != "zero"@) by {
                assert("nine"@[0] == 'n');
                assert("zero"@[0] == 'z');
            }
            assert("nine"@ != "four"@) by {
                assert("nine"@[0] == 'n');
                assert("four"@[0] == 'f');
            }
            assert("nine"@ != "five"@) by {
                assert("nine"@[0] == 'n');
                assert("five"@[0] == 'f');
            }
            assert(spec_word_value(w) == Some(9int));
        } else if n == 10 {
            assert("ten"@ != "one"@) by {
                assert("ten"@[0] == 't');
                assert("one"@[0] == 'o');
            }
            assert("ten"@ != "two"@) by {
                assert("ten"@[1] == 'e');
                assert("two"@[1] == 'w');
            }
            assert("ten"@ != "six"@) by {
                assert("ten"@[0] == 't');
                assert("six"@[0] == 's');
            }
            assert(spec_word_value(w) == Some(10int));
        } else if n == 11 {
            assert("eleven"@ != "single"@) by {
                assert("eleven"@[0] == 'e');
                assert("single"@[0] == 's');
            }
            assert(spec_word_value(w) == Some(11int));
        } else if n == 12 {
            assert("twelve"@ != "single"@) by {
                assert("twelve"@[0] == 't');
                assert("single"@[0] == 's');
            }
            assert("twelve"@ != "eleven"@) by {
                assert("twelve"@[0] == 't');
                assert("eleven"@[0] == 'e');
            }
            assert(spec_word_value(w) == Some(12int));
        } else if n == 13 {
            assert(spec_word_value(w) == Some(13int));
        } else if n == 14 {
            assert("fourteen"@ != "thirteen"@) by {
                assert("fourteen"@[0] == 'f');
                assert("thirteen"@[0] == 't');
            }
            assert(spec_word_value(w) == Some(14int));
        } else if n == 15 {
            assert(spec_word_value(w) == Some(15int));
        } else if n == 16 {
            assert("sixteen"@ != "fifteen"@) by {
                assert("sixteen"@[0] == 's');
                assert("fifteen"@[0] == 'f');
            }
            assert(spec_word_value(w) == Some(16int));
        } else if n == 17 {
            assert(spec_word_value(w) == Some(17int));
        } else if n == 18 {
            assert("eighteen"@ != "thirteen"@) by {
                assert("eighteen"@[0] == 'e');
                assert("thirteen"@[0] == 't');
            }
            assert("eighteen"@ != "fourteen"@) by {
                assert("eighteen"@[0] == 'e');
                assert("fourteen"@[0] == 'f');
            }
            assert(spec_word_value(w) == Some(18int));
        } else if n == 19 {
            assert("nineteen"@ != "thirteen"@) by {
                assert("nineteen"@[0] == 'n');
                assert("thirteen"@[0] == 't');
            }
            assert("nineteen"@ != "fourteen"@) by {
                assert("nineteen"@[0] == 'n');
                assert("fourteen"@[0] == 'f');
            }
            assert("nineteen"@ != "eighteen"@) by {
                assert("nineteen"@[0] == 'n');
                assert("eighteen"@[0] == 'e');
            }
            assert(spec_word_value(w) == Some(19int));
        } else if n == 20 {
            assert("twenty"@ != "single"@) by {
                assert("twenty"@[0] == 't');
                assert("single"@[0] == 's');
            }
            assert("twenty"@ != "eleven"@) by {
                assert("twenty"@[0] == 't');
                assert("eleven"@[0] == 'e');
            }
            assert("twenty"@ != "twelve"@) by {
                assert("twenty"@[3] == 'n');
                assert("twelve"@[3] == 'l');
            }
            assert(spec_word_value(w) == Some(20int));
        } else if n == 30 {
            assert("thirty"@ != "single"@) by {
                assert("thirty"@[0] == 't');
                assert("single"@[0] == 's');
            }
            assert("thirty"@ != "eleven"@) by {
                assert("thirty"@[0] == 't');
                assert("eleven"@[0] == 'e');
            }
            assert("thirty"@ != "twelve"@) by {
                assert("thirty"@[1] == 'h');
                assert("twelve"@[1] == 'w');
            }
            assert("thirty"@ != "twenty"@) by {
                assert("thirty"@[1] == 'h');
                assert("twenty"@[1] == 'w');
            }
            assert(spec_word_value(w) == Some(30int));
        } else if n == 40 {
            assert("forty"@ != "three"@) by {
                assert("forty"@[0] == 'f');
                assert("three"@[0] == 't');
            }
            assert("forty"@ != "seven"@) by {
                assert("forty"@[0] == 'f');
                assert("seven"@[0] == 's');
            }
            assert("forty"@ != "eight"@) by {
                assert("forty"@[0] == 'f');
                assert("eight"@[0] == 'e');
            }
            assert(spec_word_value(w) == Some(40int));
        } else if n == 50 {
            assert("fifty"@ != "three"@) by {
                assert("fifty"@[0] == 'f');
                assert("three"@[0] == 't');
            }
            assert("fifty"@ != "seven"@) by {
                assert("fifty"@[0] == 'f');
                assert("seven"@[0] == 's');
            }
            assert("fifty"@ != "eight"@) by {
                assert("fifty"@[0] == 'f');
                assert("eight"@[0] == 'e');
            }
            assert("fifty"@ != "forty"@) by {
                assert("fifty"@[1] == 'i');
                assert("forty"@[1] == 'o');
            }
            assert(spec_word_value(w) == Some(50int));
        } else if n == 60 {
            assert("sixty"@ != "three"@) by {
                assert("sixty"@[0] == 's');
                assert("three"@[0] == 't');
            }
            assert("sixty"@ != "seven"@) by {
                assert("sixty"@[1] == 'i');
                assert("seven"@[1] == 'e');
            }
            assert("sixty"@ != "eight"@) by {
                assert("sixty"@[0] == 's');
                assert("eight"@[0] == 'e');
            }
            assert("sixty"@ != "forty"@) by {
                assert("sixty"@[0] == 's');
                assert("forty"@[0] == 'f');
            }
            assert("sixty"@ != "fifty"@) by {
                assert("sixty"@[0] == 's');
                assert("fifty"@[0] == 'f');
            }
            assert(spec_word_value(w) == Some(60int));
        } else if n == 70 {
            assert("seventy"@ != "fifteen"@) by {
                assert("seventy"@[0] == 's');
                assert("fifteen"@[0] == 'f');
            }
            assert("seventy"@ != "sixteen"@) by {
                assert("seventy"@[1] == 'e');
                assert("sixteen"@[1] == 'i');
            }
            assert(spec_word_value(w) == Some(70int));
        } else if n == 80 {
            assert("eighty"@ != "single"@) by {
                assert("eighty"@[0] == 'e');
                assert("single"@[0] == 's');
            }
            assert("eighty"@ != "eleven"@) by {
                assert("eighty"@[1] == 'i');
                assert("eleven"@[1] == 'l');
            }
            assert("eighty"@ != "twelve"@) by {
                assert("eighty"@[0] == 'e');
                assert("twelve"@[0] == 't');
            }
            assert("eighty"@ != "twenty"@) by {
                assert("eighty"@[0] == 'e');
                assert("twenty"@[0] == 't');
            }
            assert("eighty"@ != "thirty"@) by {
                assert("eighty"@[0] == 'e');
                assert("thirty"@[0] == 't');
            }
            assert(spec_word_value(w) == Some(80int));
        } else if n == 90 {
            assert("ninety"@ != "single"@) by {
                assert("ninety"@[0] == 'n');
                assert("single"@[0] == 's');
            }
            assert("ninety"@ != "eleven"@) by {
                assert("ninety"@[0] == 'n');
                assert("eleven"@[0] == 'e');
            }
            assert("ninety"@ != "twelve"@) by {
                assert("ninety"@[0] == 'n');
                assert("twelve"@[0] == 't');
            }
            assert("ninety"@ != "twenty"@) by {
                assert("ninety"@[0] == 'n');
                assert("twenty"@[0] == 't');
            }
            assert("ninety"@ != "thirty"@) by {
                assert("ninety"@[0] == 'n');
                assert("thirty"@[0] == 't');
            }
            assert("ninety"@ != "eighty"@) by {
                assert("ninety"@[0] == 'n');
                assert("eighty"@[0] == 'e');
            }
            assert(spec_word_value(w) == Some(90int));
        }
}

/// Rendering any integer from zero to ninety-nine as words and parsing the
/// words back yields the same integer: the parse sees at most two words,
/// knows each of them, and their values sum to the original.
pub proof fn lemma_number_words_round_trip(n: int)
    requires
        0 <= n <= 99,
    ensures
        ({
            let ws = spec_split(spec_lower(spec_num_words(n)));
            ws.len() <= 2 && spec_first_unknown(ws) is None && spec_sum_words(ws) == n
        }),
{
    if n <= 20 || n % 10 == 0 {
        lemma_unit_word_facts(n);
        let w = spec_unit_word(n);
        assert(spec_num_words(n) == w);
        lemma_split_single(w);
        let ws = seq![w];
        assert(spec_split(spec_lower(spec_num_words(n))) == ws);
        assert(ws.drop_first().len() == 0);
        assert(spec_sum_words(ws.drop_first()) == 0);
        assert(spec_first_unknown(ws.drop_first()) is None);
        assert(spec_sum_words(ws) == n);
        assert(spec_first_unknown(ws) is None);
    } else {
        let t = n / 10 * 10;
        let o = n % 10;
        assert(21 <= n <= 99);
        assert(2 <= n / 10 <= 9);
        assert(t == 10 * (n / 10));
        assert(spec_is_unit(t));
        assert(spec_is_unit(o));
        lemma_unit_word_facts(t);
        lemma_unit_word_facts(o);
        let wt = spec_unit_word(t);
        let wo = spec_unit_word(o);
        reveal_strlit("-");
        assert("-"@ =~= seq!['-']);
        assert(spec_num_words(n) == wt + seq!['-'] + wo);
        let full = wt + seq!['-'] + wo;
        assert(spec_lower(full) =~= full) by {
            assert forall|i: int| 0 <= i < full.len() implies spec_lower(full)[i] == full[i] by {
                if i < wt.len() {
                    assert(full[i] == wt[i]);
                    assert(spec_lower_char(wt[i]) == wt[i]) by {
                        assert(spec_lower(wt)[i] == spec_lower_char(wt[i]));
                    }
                } else if i == wt.len() {
                    assert(full[i] == '-');
                } else {
                    assert(full[i] == wo[i - wt.len() - 1]);
                    assert(spec_lower_char(wo[i - wt.len() - 1]) == wo[i - wt.len() - 1]) by {
                        assert(spec_lower(wo)[i - wt.len() - 1] == spec_lower_char(
                            wo[i - wt.len() - 1],
                        ));
                    }
                }
            }
        }
        lemma_split_pair(wt, '-', wo);
        let ws = seq![wt, wo];
        assert(spec_split(spec_lower(spec_num_words(n))) == ws);
        assert(ws.drop_first() =~= seq![wo]);
        assert(seq![wo].drop_first().len() == 0);
        assert(spec_sum_words(seq![wo].drop_first()) == 0);
        assert(spec_first_unknown(seq![wo].drop_first()) is None);
        assert(spec_sum_words(seq![wo]) == o);
        assert(spec_first_unknown(seq![wo]) is None);
        assert(spec_sum_words(ws) == t + o);
        assert(t + o == n);
        assert(spec_first_unknown(ws) is None);
    }
}

} // verus!
