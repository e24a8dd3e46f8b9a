use autogramthis::engine::Autogram;
use autogramthis::validate::{validate_autogram, compare_counts,
    claimed_counts, word_to_char, Diagnostic, ExtractionInconsistency};
use autogramthis::counting::alphabet;

fn pairs_of(v: &[(&str, &str)]) -> Vec<(String, String)> {
    v.iter().map(|(a, b)| (a.to_string(), b.to_string())).collect()
}

#[test]
fn test_extract_simple_claims() {
    let got = Autogram::find_counts_and_chars("two a's, one b", false);
    assert_eq!(got, pairs_of(&[("two", "a"), ("one", "b")]));
    let got = Autogram::find_counts_and_chars("three a's, one b", false);
    assert_eq!(got, pairs_of(&[("three", "a"), ("one", "b")]));
}

#[test]
fn test_extract_two_word_numbers() {
    let got = Autogram::find_counts_and_chars("thirty-one s's and twenty e", false);
    assert_eq!(got, pairs_of(&[("thirty-one", "s"), ("twenty", "e")]));
    let got = Autogram::find_counts_and_chars("thirty one s's", false);
    assert_eq!(got, pairs_of(&[("thirty one", "s")]));
}

#[test]
fn test_extract_is_case_insensitive_and_respects_boundaries() {
    let got = Autogram::find_counts_and_chars("Two A's, stone b", false);
    assert_eq!(got, pairs_of(&[("two", "a")]));
}

#[test]
fn test_extract_punctuation_words() {
    let got = Autogram::find_counts_and_chars("twenty-seven commas, a single !", true);
    assert_eq!(got, pairs_of(&[("twenty-seven", "comma"), ("single", "!")]));
    // without punctuation enabled, "commas" reads as the letter c
    let got = Autogram::find_counts_and_chars("twenty-seven commas", false);
    assert_eq!(got, pairs_of(&[("twenty-seven", "c")]));
}

#[test]
fn test_word_to_char_table() {
    assert_eq!(word_to_char("a"), Some('a'));
    assert_eq!(word_to_char("z"), Some('z'));
    assert_eq!(word_to_char("comma"), Some(','));
    assert_eq!(word_to_char("hyphen"), Some('-'));
    assert_eq!(word_to_char("apostrophe"), Some('\''));
    assert_eq!(word_to_char("period"), Some('.'));
    assert_eq!(word_to_char("!"), Some('!'));
    assert_eq!(word_to_char("ab"), None);
}

#[test]
fn test_claimed_counts_last_claim_wins() {
    let alpha = alphabet(false);
    let cl = claimed_counts(&pairs_of(&[("two", "a"), ("three", "a")]), &alpha);
    assert_eq!(cl[0], Some(3));
    assert_eq!(cl[1], None);
}

#[test]
fn test_compare_counts_matching_claims_are_valid() {
    // true counts {a:2, b:1} against claimed counts {a:2, b:1}
    let alpha = vec!['a', 'b'];
    let tc = vec![2u64, 1u64];
    let cl = vec![Some(2), Some(1)];
    let rep = compare_counts(&tc, &cl, &alpha).unwrap();
    assert!(rep.valid);
    assert_eq!(rep.diagnostics, vec![
        Diagnostic::Verified { ch: 'a', count: 2 },
        Diagnostic::Verified { ch: 'b', count: 1 },
    ]);
}

#[test]
fn test_compare_counts_reports_mismatch() {
    // the sentence says three a's but the text holds two
    let alpha = vec!['a', 'b'];
    let tc = vec![2u64, 1u64];
    let cl = vec![Some(3), Some(1)];
    let rep = compare_counts(&tc, &cl, &alpha).unwrap();
    assert!(!rep.valid);
    assert_eq!(rep.diagnostics[0], Diagnostic::Mismatch { ch: 'a', true_count: 2, claimed: 3 });
    assert_eq!(rep.diagnostics[1], Diagnostic::Verified { ch: 'b', count: 1 });
}

#[test]
fn test_compare_counts_reports_missing() {
    let alpha = vec!['a', 'b'];
    let tc = vec![2u64, 1u64];
    let cl = vec![None, Some(1)];
    let rep = compare_counts(&tc, &cl, &alpha).unwrap();
    assert!(!rep.valid);
    assert_eq!(rep.diagnostics[0], Diagnostic::Missing { ch: 'a', true_count: 2 });
}

#[test]
fn test_compare_counts_leftover_claim_is_an_error() {
    let alpha = vec!['a', 'b'];
    let tc = vec![0u64, 1u64];
    let cl = vec![Some(2), Some(1)];
    let err = compare_counts(&tc, &cl, &alpha).unwrap_err();
    assert_eq!(err, ExtractionInconsistency { ch: 'a', claimed: 2 });
}

#[test]
fn test_validate_reports_mismatch_with_both_values() {
    let rep = validate_autogram("three a's, one b", false).unwrap();
    assert!(!rep.valid);
    assert!(rep.diagnostics.contains(&Diagnostic::Mismatch {
        ch: 'a',
        true_count: 1,
        claimed: 3,
    }));
}

#[test]
fn test_validate_inconsistent_claim() {
    // the claim names a comma, but the text holds none
    let err = validate_autogram("one comma", true).unwrap_err();
    assert_eq!(err, ExtractionInconsistency { ch: ',', claimed: 1 });
}

#[test]
fn test_validate_singular_autogram() {
    let rep = validate_autogram(
        "twenty e, four f, one g, five h, three i, one l, ten n, seven o, seven r, \
         three s, nine t, three u, four v, three w, one x, two y",
        false,
    )
    .unwrap();
    assert!(rep.valid);
}

#[test]
fn test_validate_known_autogram() {
    let rep = validate_autogram(
        "This sentence contains three a's, three c's, two d's, twenty-seven e's, \
         four f's, one g, five h's, eleven i's, two l's, sixteen n's, seven o's, \
         five r's, twenty-nine s's, sixteen t's, two u's, six v's, six w's, six x's, \
         and three y's.",
        false,
    )
    .unwrap();
    assert!(rep.valid);
    assert!(rep.diagnostics.iter().all(|d| matches!(d, Diagnostic::Verified { .. })));
}

#[test]
fn test_validate_pangram_autogram() {
    let rep = validate_autogram(
        "The quick brown fox jumped over alphabet soup containing five a's, three b's, \
         three c's, three d's, thirty-two e's, six f's, two g's, ten h's, twelve i's, \
         two j's, two k's, three l's, two m's, sixteen n's, sixteen o's, four p's, \
         two q's, thirteen r's, thirty-four s's, twenty-seven t's, seven u's, seven v's, \
         ten w's, six x's, four y's, and one z.",
        false,
    )
    .unwrap();
    assert!(rep.valid);
}

#[test]
fn test_validate_punctuation_autogram() {
    let rep = validate_autogram(
        "Only the fool would take trouble to verify that his sentence was composed \
         of ten a's, three b's, four c's, four d's, forty-six e's, sixteen f's, \
         four g's, thirteen h's, fifteen i's, two k's, nine l's, four m's, \
         twenty-five n's, twenty-four o's, five p's, sixteen r's, forty-one s's, \
         thirty-seven t's, ten u's, eight v's, eight w's, four x's, eleven y's, \
         twenty-seven commas, twenty-three apostrophes, seven hyphens and, last but \
         not least, a single !",
        true,
    )
    .unwrap();
    assert!(rep.valid);
}
