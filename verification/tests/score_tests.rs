use fishermann::score::{score_neg, SCORE_LOSS, SCORE_WIN};

#[test]
fn negation_saturates_on_sentinels() {
    assert_eq!(score_neg(SCORE_WIN), SCORE_LOSS);
    assert_eq!(score_neg(SCORE_LOSS), SCORE_WIN);
}

#[test]
fn negation_never_overflows() {
    assert_eq!(score_neg(i64::MIN), i64::MAX);
    assert_eq!(score_neg(0), 0);
    assert_eq!(score_neg(1234), -1234);
    assert_eq!(score_neg(-1234), 1234);
}

#[test]
fn negation_is_involutive_on_the_scale() {
    for x in [SCORE_LOSS, -3210, -1, 0, 1, 3210, SCORE_WIN] {
        assert_eq!(score_neg(score_neg(x)), x);
    }
}
