use cloudflare_showcase::scorer::{
    calculate_confidence_score, ScorerConfig, Segment, Thresholds, Word, MICRO,
};

fn segment() -> Segment {
    Segment {
        start: None,
        end: None,
        text: String::new(),
        temperature: None,
        avg_logprob: None,
        compression_ratio: None,
        no_speech_prob: None,
        words: None,
    }
}

fn word(text: &str, start: i64, end: i64) -> Word {
    Word { word: text.to_string(), start, end }
}

fn score(segment: &Segment) -> u64 {
    calculate_confidence_score(segment, &ScorerConfig::default())
}

#[test]
fn short_utterance_example_clears_the_threshold() {
    let config = ScorerConfig::default();
    let example = Segment {
        text: "a".to_string(),
        temperature: Some(0),
        avg_logprob: Some(-500_000),
        compression_ratio: Some(1_000_000),
        no_speech_prob: Some(50_000),
        words: Some(vec![word("a", 0, 200_000)]),
        ..segment()
    };
    let result = calculate_confidence_score(&example, &config);
    assert_eq!(result, 750_000);
    assert!(result > config.thresholds().min_confidence_score);
}

#[test]
fn score_is_the_same_on_every_call() {
    let config = ScorerConfig::default();
    let example = Segment {
        temperature: Some(250_000),
        avg_logprob: Some(-400_000),
        compression_ratio: Some(2_500_000),
        no_speech_prob: Some(100_000),
        words: Some(vec![
            word("hello", 100_000, 500_000),
            word("world", 500_000, 900_000),
            word("again", 900_000, 1_400_000),
        ]),
        ..segment()
    };
    let first = calculate_confidence_score(&example, &config);
    for _ in 0..10 {
        assert_eq!(calculate_confidence_score(&example, &config), first);
    }
    assert_eq!(first, 555_750);
}

#[test]
fn segment_without_metrics_scores_one() {
    assert_eq!(score(&segment()), MICRO);
}

#[test]
fn score_never_exceeds_one() {
    assert_eq!(score(&Segment { avg_logprob: Some(0), ..segment() }), MICRO);
    assert_eq!(score(&Segment { avg_logprob: Some(i64::MAX), ..segment() }), MICRO);
    assert_eq!(score(&Segment { no_speech_prob: Some(-5), ..segment() }), MICRO);
    assert_eq!(score(&Segment { temperature: Some(-1), ..segment() }), MICRO);
    assert_eq!(score(&Segment { temperature: Some(i64::MIN), ..segment() }), MICRO);
}

#[test]
fn logprob_at_the_floor_is_rejected() {
    assert_eq!(score(&Segment { avg_logprob: Some(-700_000), ..segment() }), 0);
    assert_eq!(score(&Segment { avg_logprob: Some(i64::MIN), ..segment() }), 0);
    assert_eq!(score(&Segment { avg_logprob: Some(-699_999), ..segment() }), 800_000);
}

#[test]
fn short_utterance_has_the_lenient_floor() {
    let short = Segment {
        avg_logprob: Some(-700_000),
        words: Some(vec![word("a", 0, 200_000)]),
        ..segment()
    };
    assert_eq!(score(&short), 850_000);
    let at_short_floor = Segment {
        avg_logprob: Some(-900_000),
        words: Some(vec![word("a", 0, 200_000)]),
        ..segment()
    };
    assert_eq!(score(&at_short_floor), 0);
    let three_words = Segment {
        avg_logprob: Some(-700_000),
        words: Some(vec![
            word("aa", 0, 200_000),
            word("bb", 200_000, 400_000),
            word("cc", 400_000, 600_000),
        ]),
        ..segment()
    };
    assert_eq!(score(&three_words), 0);
}

#[test]
fn temperature_above_the_ceiling_is_rejected() {
    assert_eq!(score(&Segment { temperature: Some(500_000), ..segment() }), 950_000);
    assert_eq!(score(&Segment { temperature: Some(500_001), ..segment() }), 0);
}

#[test]
fn no_speech_above_the_ceiling_is_rejected() {
    assert_eq!(score(&Segment { no_speech_prob: Some(300_001), ..segment() }), 0);
    assert_eq!(score(&Segment { no_speech_prob: Some(300_000), ..segment() }), 0);
    assert_eq!(score(&Segment { no_speech_prob: Some(150_000), ..segment() }), 500_000);
}

#[test]
fn compression_above_the_ceiling_costs_a_little() {
    assert_eq!(score(&Segment { compression_ratio: Some(2_000_000), ..segment() }), MICRO);
    assert_eq!(score(&Segment { compression_ratio: Some(2_000_001), ..segment() }), 950_000);
}

#[test]
fn word_without_timing_is_rejected() {
    assert_eq!(score(&Segment { words: Some(vec![word("a", 0, 0)]), ..segment() }), 0);
}

#[test]
fn word_duration_bounds_scale_with_length() {
    let one = |text: &str, end: i64| {
        score(&Segment { words: Some(vec![word(text, 0, end)]), ..segment() })
    };
    assert_eq!(one("a", 2_000_001), 0);
    assert_eq!(one("a", 2_000_000), MICRO);
    assert_eq!(one("hello", 149_999), 0);
    assert_eq!(one("hello", 150_000), MICRO);
    assert_eq!(one("  hi ", 59_999), 0);
    assert_eq!(one("  hi ", 60_000), MICRO);
    assert_eq!(one("", 29_999), 0);
    assert_eq!(one("", 30_000), MICRO);
    assert_eq!(one("\u{e9}", 59_999), 0);
    assert_eq!(one("\u{e9}", 60_000), MICRO);
}

#[test]
fn word_timing_at_the_limits_of_the_type_is_rejected() {
    let wild = Segment { words: Some(vec![word("a", i64::MIN, i64::MAX)]), ..segment() };
    assert_eq!(score(&wild), 0);
    let backwards = Segment { words: Some(vec![word("a", i64::MAX, i64::MIN)]), ..segment() };
    assert_eq!(score(&backwards), 0);
}

#[test]
fn average_word_duration_is_bounded() {
    let spread = Segment {
        words: Some(vec![word("aa", 0, 100_000), word("bb", 5_000_000, 5_100_000)]),
        ..segment()
    };
    assert_eq!(score(&spread), 0);
    let close = Segment {
        words: Some(vec![word("aa", 0, 100_000), word("bb", 3_900_000, 4_000_000)]),
        ..segment()
    };
    assert_eq!(score(&close), MICRO);
    assert_eq!(score(&Segment { words: Some(vec![]), ..segment() }), MICRO);
}

#[test]
fn default_thresholds_are_the_standard_ones() {
    let t = ScorerConfig::default().thresholds();
    assert_eq!(t, Thresholds::default());
    assert_eq!(t.min_avg_logprob, -700_000);
    assert_eq!(t.min_avg_logprob_short, -900_000);
    assert_eq!(t.full_confidence_logprob, -100_000);
    assert_eq!(t.max_no_speech_prob, 300_000);
    assert_eq!(t.max_compression_ratio, 2_000_000);
    assert_eq!(t.max_temperature, 500_000);
    assert_eq!(t.min_word_duration, 30_000);
    assert_eq!(t.max_word_duration, 2_000_000);
    assert_eq!(t.min_confidence_score, 400_000);
    assert_eq!(t.min_confidence_score_numeric, 300_000);
    assert_eq!(t.short_utterance_words, 2);
    assert_eq!(t.min_audio_energy, 10);
    assert!(t.is_valid());
}

#[test]
fn inconsistent_thresholds_are_refused() {
    let good = Thresholds::default();
    assert!(ScorerConfig::new(good).is_some());
    assert!(ScorerConfig::new(Thresholds { max_temperature: 0, ..good }).is_none());
    assert!(ScorerConfig::new(Thresholds { max_no_speech_prob: 0, ..good }).is_none());
    assert!(ScorerConfig::new(Thresholds { min_audio_energy: 0, ..good }).is_none());
    assert!(ScorerConfig::new(Thresholds { full_confidence_logprob: -700_000, ..good }).is_none());
    assert!(ScorerConfig::new(Thresholds { min_avg_logprob_short: -600_000, ..good }).is_none());
    assert!(ScorerConfig::new(Thresholds { min_confidence_score: 1_000_001, ..good }).is_none());
    assert!(ScorerConfig::new(Thresholds { min_confidence_score_numeric: 400_001, ..good })
        .is_none());
    assert!(ScorerConfig::new(Thresholds { min_word_duration: 2_000_001, ..good }).is_none());
    assert!(ScorerConfig::new(Thresholds { max_word_duration: 1_000_000_000_001, ..good })
        .is_none());
}

#[test]
fn tuned_thresholds_change_the_score() {
    let strict = ScorerConfig::new(Thresholds {
        min_avg_logprob: -300_000,
        min_avg_logprob_short: -300_000,
        ..Thresholds::default()
    })
    .unwrap();
    let example = Segment { avg_logprob: Some(-500_000), ..segment() };
    assert_eq!(calculate_confidence_score(&example, &strict), 0);
    assert_eq!(calculate_confidence_score(&example, &ScorerConfig::default()), 866_666);
}
