use autogramthis::engine::{Autogram, IterationResult};

fn letter_index(c: char) -> usize {
    (c as usize) - ('a' as usize)
}

fn counts_from(pairs: &[(char, u64)]) -> Vec<u64> {
    let mut v = vec![0u64; 26];
    for &(c, n) in pairs {
        v[letter_index(c)] = n;
    }
    v
}

const KNOWN_AUTOGRAM_PREFIX: &str = "This sentence contains";

fn known_autogram_counts() -> Vec<u64> {
    counts_from(&[
        ('a', 3),
        ('c', 3),
        ('d', 2),
        ('e', 27),
        ('f', 4),
        ('g', 1),
        ('h', 5),
        ('i', 11),
        ('l', 2),
        ('n', 16),
        ('o', 7),
        ('r', 5),
        ('s', 29),
        ('t', 16),
        ('u', 2),
        ('v', 6),
        ('w', 6),
        ('x', 6),
        ('y', 3),
    ])
}

const KNOWN_AUTOGRAM: &str = "This sentence contains three a's, three c's, two d's, \
twenty-seven e's, four f's, one g, five h's, eleven i's, two l's, sixteen n's, \
seven o's, five r's, twenty-nine s's, sixteen t's, two u's, six v's, six w's, \
six x's, and three y's.";

#[test]
fn test_new_seeds_from_fixed_text() {
    let ag = Autogram::new("abc", "");
    assert_eq!(ag.counts.len(), 26);
    assert_eq!(ag.counts[letter_index('a')], 1);
    assert_eq!(ag.counts[letter_index('b')], 1);
    assert_eq!(ag.counts[letter_index('c')], 1);
    assert_eq!(ag.counts[letter_index('d')], 0);
    assert_eq!(ag.epoch, 0);
    assert!(ag.make_plural);
    assert!(ag.include_final_and);
    assert!(!ag.is_pangram);
    assert!(!ag.include_punctuation);
}

#[test]
fn test_new_without_texts_seeds_one_letter() {
    let ag = Autogram::new("", "");
    assert_eq!(ag.counts.iter().sum::<u64>(), 1);
}

#[test]
fn test_pangram_seed() {
    let mut ag = Autogram::new("", "");
    ag.is_pangram = true;
    ag.reset();
    assert_eq!(ag.counts, vec![1u64; 26]);
}

#[test]
fn test_count_occurrences_lowercases() {
    let ag = Autogram::new("", "");
    let counts = ag.count_occurrences("Hello, World!");
    assert_eq!(counts[letter_index('l')], 3);
    assert_eq!(counts[letter_index('o')], 2);
    assert_eq!(counts[letter_index('h')], 1);
    assert_eq!(counts[letter_index('w')], 1);
    assert_eq!(counts[letter_index('z')], 0);
}

#[test]
fn test_count_occurrences_punctuation() {
    let mut ag = Autogram::new("", "");
    ag.include_punctuation = true;
    ag.reset();
    let counts = ag.count_occurrences("a, b, c! it's fine.");
    assert_eq!(counts.len(), 31);
    assert_eq!(counts[26], 2); // commas
    assert_eq!(counts[27], 0); // hyphens
    assert_eq!(counts[28], 1); // apostrophes
    assert_eq!(counts[29], 1); // periods
    assert_eq!(counts[30], 1); // bangs
}

#[test]
fn test_sentence_two_phrases() {
    let mut ag = Autogram::new("", "");
    ag.counts = counts_from(&[('a', 2), ('b', 1)]);
    assert_eq!(ag.sentence(), "two a's, and one b");
}

#[test]
fn test_sentence_without_final_and() {
    let mut ag = Autogram::new("", "");
    ag.include_final_and = false;
    ag.counts = counts_from(&[('a', 2), ('b', 1)]);
    assert_eq!(ag.sentence(), "two a's, one b");
}

#[test]
fn test_sentence_singular() {
    let mut ag = Autogram::new("", "");
    ag.make_plural = false;
    ag.counts = counts_from(&[('a', 2), ('b', 1)]);
    assert_eq!(ag.sentence(), "two a, and one b");
}

#[test]
fn test_sentence_with_prefix_and_suffix() {
    let mut ag = Autogram::new("Say", "");
    ag.counts = counts_from(&[('a', 2)]);
    assert_eq!(ag.sentence(), "Say two a's.");
    let mut ag2 = Autogram::new("", "the end");
    ag2.counts = counts_from(&[('a', 2), ('b', 1)]);
    assert_eq!(ag2.sentence(), "two a's, and one b, the end");
}

#[test]
fn test_sentence_punctuation_phrases() {
    let mut ag = Autogram::new("", "");
    ag.include_punctuation = true;
    ag.reset();
    let mut counts = vec![0u64; 31];
    counts[26] = 2; // commas
    counts[27] = 1; // hyphens
    ag.counts = counts;
    assert_eq!(ag.sentence(), "two comma's, and one hyphen");
}

#[test]
fn test_is_autogram_known_fixed_point() {
    let mut ag = Autogram::new(KNOWN_AUTOGRAM_PREFIX, "");
    ag.counts = known_autogram_counts();
    assert_eq!(ag.sentence(), KNOWN_AUTOGRAM);
    assert!(ag.is_autogram());
}

#[test]
fn test_is_autogram_rejects_wrong_counts() {
    let mut ag = Autogram::new(KNOWN_AUTOGRAM_PREFIX, "");
    let mut counts = known_autogram_counts();
    counts[letter_index('a')] = 4;
    ag.counts = counts;
    assert!(!ag.is_autogram());
}

#[test]
fn test_update_counts_full_recounts_sentence() {
    let mut ag = Autogram::new("", "");
    ag.counts = counts_from(&[('a', 2), ('b', 1)]);
    // the sentence is "two a's, and one b"
    ag.update_counts(false);
    let expected = counts_from(&[
        ('a', 2),
        ('b', 1),
        ('d', 1),
        ('e', 1),
        ('n', 2),
        ('o', 2),
        ('s', 1),
        ('t', 1),
        ('w', 1),
    ]);
    assert_eq!(ag.counts, expected);
    assert_eq!(ag.epoch, 1);
}

#[test]
fn test_update_counts_partial_changes_one_entry() {
    let mut ag = Autogram::new("", "");
    ag.counts = counts_from(&[('a', 2), ('b', 1)]);
    let before = ag.counts.clone();
    ag.update_counts(true);
    let changed: Vec<usize> = (0..26).filter(|&i| ag.counts[i] != before[i]).collect();
    assert!(changed.len() <= 1);
    if let Some(&i) = changed.first() {
        assert!(before[i] != 0);
    }
    assert_eq!(ag.epoch, 1);
}

#[test]
fn test_counts_to_str_signature() {
    let mut ag = Autogram::new("", "");
    ag.counts = counts_from(&[('a', 3), ('c', 12)]);
    let sig = ag.counts_to_str();
    assert_eq!(sig, format!("3012{}", "0".repeat(23)));
}

#[test]
fn test_run_search_finds_cycle_of_true_period() {
    // Under full updates the configuration with fixed prefix "test" revisits
    // a count signature and then repeats with period fourteen.
    let mut ag = Autogram::new("test", "");
    match ag.run_search(true, 5000) {
        IterationResult::CycleFound(v) => {
            assert_eq!(v.len(), 14);
            let first = v[0].clone();
            assert!(v[1..].iter().all(|s| *s != first));
        },
        other => panic!("expected a cycle, got {:?}", outcome_name(&other)),
    }
}

#[test]
fn test_search_cycle_reports_all_sentences() {
    let mut ag = Autogram::new("test", "");
    let joined = ag.search(true);
    assert_eq!(joined.split('\n').count(), 14);
}

fn outcome_name(r: &IterationResult) -> &'static str {
    match r {
        IterationResult::Continue => "continue",
        IterationResult::FixedPointFound(_) => "fixed point",
        IterationResult::CycleFound(_) => "cycle",
    }
}
