use autogramthis::words::{num_to_words, words_to_num, ParseNumError};

#[test]
fn test_num_to_words_small() {
    assert_eq!(num_to_words(0), "zero");
    assert_eq!(num_to_words(1), "one");
    assert_eq!(num_to_words(7), "seven");
    assert_eq!(num_to_words(13), "thirteen");
    assert_eq!(num_to_words(20), "twenty");
}

#[test]
fn test_num_to_words_tens_and_hyphenated() {
    assert_eq!(num_to_words(30), "thirty");
    assert_eq!(num_to_words(21), "twenty-one");
    assert_eq!(num_to_words(47), "forty-seven");
    assert_eq!(num_to_words(99), "ninety-nine");
}

#[test]
fn test_num_to_words_hundreds() {
    assert_eq!(num_to_words(100), "one hundred");
    assert_eq!(num_to_words(105), "one hundred and five");
    assert_eq!(num_to_words(342), "three hundred and forty-two");
    assert_eq!(num_to_words(999), "nine hundred and ninety-nine");
}

#[test]
fn test_num_to_words_thousands() {
    assert_eq!(num_to_words(1000), "one thousand");
    assert_eq!(num_to_words(1234), "one thousand two hundred and thirty-four");
    assert_eq!(num_to_words(9000), "nine thousand");
    assert_eq!(num_to_words(10000), "ten thousand");
}

#[test]
fn test_num_to_words_out_of_range() {
    assert_eq!(num_to_words(10001), "more than ten thousand");
    assert_eq!(num_to_words(123456), "more than ten thousand");
    assert_eq!(num_to_words(-5), "more than ten thousand");
}

#[test]
fn test_words_to_num_single_words() {
    assert_eq!(words_to_num("zero").unwrap(), 0);
    assert_eq!(words_to_num("single").unwrap(), 1);
    assert_eq!(words_to_num("seven").unwrap(), 7);
    assert_eq!(words_to_num("ninety").unwrap(), 90);
}

#[test]
fn test_words_to_num_two_words() {
    assert_eq!(words_to_num("twenty-one").unwrap(), 21);
    assert_eq!(words_to_num("thirty one").unwrap(), 31);
    assert_eq!(words_to_num("ninety-nine").unwrap(), 99);
    // any two known words sum, as the lexicon's parser always did
    assert_eq!(words_to_num("ninety ninety").unwrap(), 180);
}

#[test]
fn test_words_to_num_is_case_insensitive() {
    assert_eq!(words_to_num("Twenty-One").unwrap(), 21);
    assert_eq!(words_to_num("FIVE").unwrap(), 5);
}

#[test]
fn test_words_to_num_unknown_word() {
    match words_to_num("bananas") {
        Err(ParseNumError::UnknownWord(t)) => assert_eq!(t, "bananas"),
        other => panic!("expected an unknown-word error, got {:?}", other),
    }
    match words_to_num("twenty-bananas") {
        Err(ParseNumError::UnknownWord(t)) => assert_eq!(t, "bananas"),
        other => panic!("expected an unknown-word error, got {:?}", other),
    }
}

#[test]
fn test_words_to_num_too_many_words() {
    assert!(matches!(words_to_num("one two three"), Err(ParseNumError::TooManyWords)));
    assert!(matches!(words_to_num("one-two-three"), Err(ParseNumError::TooManyWords)));
}

#[test]
fn test_words_to_num_rejects_unknown_composites() {
    assert!(matches!(words_to_num("one hundred"), Err(ParseNumError::UnknownWord(_))));
    assert!(matches!(words_to_num(""), Err(ParseNumError::UnknownWord(_))));
}

#[test]
fn test_round_trip_zero_to_ninety_nine() {
    for n in 0..=99 {
        assert_eq!(words_to_num(&num_to_words(n)).unwrap(), n);
    }
}
