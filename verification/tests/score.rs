use auto_runner::score::{padded_text, score_text, score_value};

#[test]
fn score_starts_at_zero() {
    assert_eq!(score_value(0), 0);
    assert_eq!(score_text(0), "00000");
}

#[test]
fn score_counts_full_tenths_of_a_second() {
    assert_eq!(score_value(99), 0);
    assert_eq!(score_value(100), 1);
    assert_eq!(score_value(12_345), 123);
    assert_eq!(score_text(12_345), "00123");
}

#[test]
fn score_text_has_five_characters() {
    for ms in [0u64, 99, 100, 999, 1000, 54_321, 999_899, 6_553_500, u64::MAX] {
        assert_eq!(score_text(ms).chars().count(), 5);
    }
}

#[test]
fn score_text_near_the_end_of_the_range() {
    assert_eq!(score_value(999_899), 9998);
    assert_eq!(score_text(999_899), "09998");
}

#[test]
fn score_text_reads_back_as_the_score() {
    for ms in [0u64, 7, 100, 4_200, 99_999, 123_456, 999_899, 3_141_592] {
        let text = score_text(ms);
        assert_eq!(text.parse::<u64>().unwrap(), ms / 100);
    }
}

#[test]
fn score_is_held_at_its_maximum() {
    assert_eq!(score_value(6_553_499), 65534);
    assert_eq!(score_value(6_553_500), 65535);
    assert_eq!(score_value(6_553_600), 65535);
    assert_eq!(score_value(u64::MAX), 65535);
    assert_eq!(score_text(u64::MAX), "65535");
}

#[test]
fn padded_text_pads_with_zeros() {
    assert_eq!(padded_text(0), "00000");
    assert_eq!(padded_text(7), "00007");
    assert_eq!(padded_text(42), "00042");
    assert_eq!(padded_text(905), "00905");
    assert_eq!(padded_text(1000), "01000");
    assert_eq!(padded_text(65535), "65535");
}
