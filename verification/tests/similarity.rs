use scafalra::similarity::Score;

#[test]
fn score_counts_what_needs_no_edit() {
    let score = Score::of("kitten", "sitting");
    assert_eq!((score.part, score.whole), (4, 7));
    assert!(score.exceeds_half());

    let score = Score::of("fop", "foo");
    assert_eq!((score.part, score.whole), (2, 3));
    assert!(score.exceeds_half());

    let score = Score::of("abxy", "abcd");
    assert_eq!((score.part, score.whole), (2, 4));
    assert!(!score.exceeds_half());
}

#[test]
fn score_of_empty_texts() {
    let score = Score::of("", "");
    assert_eq!((score.part, score.whole), (1, 1));
    assert!(score.exceeds_half());

    let score = Score::of("", "second");
    assert_eq!((score.part, score.whole), (0, 6));
    assert!(!score.exceeds_half());

    let score = Score::of("first", "");
    assert_eq!((score.part, score.whole), (0, 5));
}

#[test]
fn score_of_same_texts_is_one() {
    let score = Score::of("string", "string");
    assert_eq!((score.part, score.whole), (6, 6));
}

#[test]
fn score_counts_characters_not_bytes() {
    let score = Score::of("größe", "grösse");
    assert_eq!((score.part, score.whole), (4, 6));
}

#[test]
fn scores_compare_as_fractions() {
    let two_thirds = Score::of("fop", "foo");
    let four_sevenths = Score::of("kitten", "sitting");
    let one_half = Score::of("abxy", "abcd");
    let also_two_thirds = Score { part: 4, whole: 6 };
    assert!(four_sevenths.less_than(&two_thirds));
    assert!(!two_thirds.less_than(&four_sevenths));
    assert!(one_half.less_than(&four_sevenths));
    assert!(!two_thirds.less_than(&also_two_thirds));
    assert!(!also_two_thirds.less_than(&two_thirds));
    let large = Score { part: u64::MAX - 1, whole: u64::MAX };
    let larger = Score { part: u64::MAX, whole: u64::MAX };
    assert!(large.less_than(&larger));
    assert!(!larger.less_than(&large));
    assert!(large.exceeds_half());
}
