use cloudflare_showcase::pipeline::{
    assess_transcription, calculate_overall_confidence, is_accepted, prepare_audio,
    welcome_transcript, Rejection, SkipReason, Submission, TranscriptionInfo, TranscriptionResult,
    Verdict, WhisperResponse,
};
use cloudflare_showcase::scorer::{
    calculate_confidence_score, is_hard_rejected, ScorerConfig, Segment, Thresholds, Word,
};

fn pcm(samples: &[i16]) -> Vec<u8> {
    samples.iter().flat_map(|s| s.to_le_bytes()).collect()
}

fn segment(avg_logprob: i64) -> Segment {
    segment_with(avg_logprob, 30_000)
}

fn segment_with(avg_logprob: i64, no_speech_prob: i64) -> Segment {
    Segment {
        start: Some(0),
        end: Some(1_000_000),
        text: "hello there".to_string(),
        temperature: Some(0),
        avg_logprob: Some(avg_logprob),
        compression_ratio: Some(1_200_000),
        no_speech_prob: Some(no_speech_prob),
        words: Some(vec![
            Word { word: " hello".to_string(), start: 100_000, end: 500_000 },
            Word { word: " there".to_string(), start: 500_000, end: 900_000 },
        ]),
    }
}

fn response(text: &str, segments: Option<Vec<Segment>>) -> WhisperResponse {
    WhisperResponse {
        transcription_info: Some(TranscriptionInfo {
            language: Some("en".to_string()),
            language_probability: Some(990_000),
            duration: Some(1_000_000),
            duration_after_vad: None,
        }),
        text: text.to_string(),
        word_count: Some(2),
        segments,
        vtt: Some("WEBVTT".to_string()),
    }
}

fn assess(response: WhisperResponse, streaming: bool) -> Verdict {
    assess_transcription(response, "QUJD".to_string(), streaming, &ScorerConfig::default())
}

#[test]
fn empty_frame_is_skipped() {
    let config = ScorerConfig::default();
    assert_eq!(prepare_audio(&[], &config), Submission::Skip(SkipReason::Empty));
}

#[test]
fn all_zero_buffer_never_reaches_inference() {
    let config = ScorerConfig::default();
    for len in [1usize, 2, 3, 640, 32_000] {
        assert_eq!(prepare_audio(&vec![0u8; len], &config), Submission::Skip(SkipReason::Silence));
    }
    let sensitive =
        ScorerConfig::new(Thresholds { min_audio_energy: 1, ..Thresholds::default() }).unwrap();
    assert_eq!(prepare_audio(&[0u8; 640], &sensitive), Submission::Skip(SkipReason::Silence));
}

#[test]
fn quiet_frame_below_the_floor_is_skipped() {
    let config = ScorerConfig::default();
    let mut samples = vec![0i16; 10_001];
    samples[0] = 1;
    assert_eq!(prepare_audio(&pcm(&samples), &config), Submission::Skip(SkipReason::Silence));
}

#[test]
fn audible_frame_is_wrapped_and_encoded() {
    let config = ScorerConfig::default();
    let submission = prepare_audio(&pcm(&[1000, -1000, 1000, -1000]), &config);
    assert_eq!(
        submission,
        Submission::Infer {
            audio: "UklGRiwAAABXQVZFZm10IBAAAAABAAEAgD4AAAB9AAACABAAZGF0YQgAAADoAxj86AMY/A=="
                .to_string()
        }
    );
}

#[test]
fn frame_at_the_floor_is_submitted() {
    let config = ScorerConfig::default();
    let mut samples = vec![0i16; 10_000];
    samples[0] = 1;
    assert!(matches!(prepare_audio(&pcm(&samples), &config), Submission::Infer { .. }));
}

#[test]
fn result_without_text_is_discarded() {
    assert_eq!(
        assess(response("", Some(vec![segment(-200_000)])), true),
        Verdict::Discard(Rejection::EmptyText)
    );
}

#[test]
fn result_without_segments_is_discarded() {
    assert_eq!(assess(response("hello", None), true), Verdict::Discard(Rejection::NoSegments));
    assert_eq!(
        assess(response("hello", Some(vec![])), true),
        Verdict::Discard(Rejection::NoSegments)
    );
}

#[test]
fn result_whose_first_segment_fails_is_discarded() {
    assert_eq!(
        assess(response("hello there", Some(vec![segment(-950_000), segment(-100_000)])), true),
        Verdict::Discard(Rejection::FailedThresholds)
    );
}

#[test]
fn result_whose_first_segment_scores_low_is_discarded() {
    let config = ScorerConfig::default();
    let low = segment_with(-200_000, 192_000);
    assert_eq!(calculate_confidence_score(&low, &config), 351_000);
    assert_eq!(
        assess(response("hello there", Some(vec![low, segment(-200_000)])), true),
        Verdict::Discard(Rejection::LowConfidence)
    );
}

#[test]
fn first_segment_alone_decides() {
    let config = ScorerConfig::default();
    let segments = vec![segment(-200_000), segment(-950_000), segment(-950_000)];
    assert_eq!(calculate_overall_confidence(&segments, &config), 292_500);
    assert!(matches!(
        assess(response("hello there", Some(segments)), true),
        Verdict::Broadcast(_)
    ));
}

#[test]
fn score_of_zero_without_a_hard_rejection_is_low_confidence() {
    let config = ScorerConfig::default();
    let muted = segment_with(-200_000, 300_000);
    assert!(!is_hard_rejected(&muted, &config));
    assert_eq!(calculate_confidence_score(&muted, &config), 0);
    assert_eq!(
        assess(response("hello there", Some(vec![muted])), true),
        Verdict::Discard(Rejection::LowConfidence)
    );
    assert!(is_hard_rejected(&segment_with(-200_000, 300_001), &config));
    assert!(is_hard_rejected(&segment(-950_000), &config));
}

#[test]
fn numeric_transcript_has_the_lenient_minimum() {
    let config = ScorerConfig::default();
    assert!(is_accepted(300_000, "12:30, 45", &config));
    assert!(!is_accepted(299_999, "12:30, 45", &config));
    assert!(!is_accepted(399_999, "half past 12", &config));
    assert!(is_accepted(400_000, "half past 12", &config));
    let between = || vec![segment_with(-200_000, 192_000), segment(-200_000)];
    assert_eq!(calculate_confidence_score(&between()[0], &config), 351_000);
    let spoken = assess(response("twelve thirty", Some(between())), true);
    assert_eq!(spoken, Verdict::Discard(Rejection::LowConfidence));
    assert!(matches!(assess(response("12:30", Some(between())), true), Verdict::Broadcast(_)));
}

#[test]
fn accepted_result_becomes_a_transcript() {
    let verdict = assess(response("hello there", Some(vec![segment(-200_000)])), true);
    assert_eq!(
        verdict,
        Verdict::Broadcast(TranscriptionResult {
            text: "hello there".to_string(),
            is_final: false,
            word_count: Some(2),
            words: Some(vec![
                Word { word: " hello".to_string(), start: 100_000, end: 500_000 },
                Word { word: " there".to_string(), start: 500_000, end: 900_000 },
            ]),
            vtt: Some("WEBVTT".to_string()),
            audio_data: Some("QUJD".to_string()),
            language_probability: Some(990_000),
            avg_logprob: Some(-200_000),
            no_speech_prob: Some(30_000),
            temperature: Some(0),
            compression_ratio: Some(1_200_000),
        })
    );
}

#[test]
fn finalized_chunk_is_final() {
    match assess(response("hello there", Some(vec![segment(-200_000)])), false) {
        Verdict::Broadcast(result) => assert!(result.is_final),
        other => panic!("unexpected verdict {:?}", other),
    }
}

#[test]
fn word_count_keeps_its_low_32_bits() {
    let mut wide = response("hello there", Some(vec![segment(-200_000)]));
    wide.word_count = Some(0x1_0000_0005);
    wide.transcription_info = None;
    match assess(wide, true) {
        Verdict::Broadcast(result) => {
            assert_eq!(result.word_count, Some(5));
            assert_eq!(result.language_probability, None);
        }
        other => panic!("unexpected verdict {:?}", other),
    }
}

#[test]
fn overall_confidence_is_the_mean_score() {
    let config = ScorerConfig::default();
    assert_eq!(calculate_overall_confidence(&vec![], &config), 0);
    assert_eq!(calculate_overall_confidence(&vec![segment(-200_000)], &config), 877_500);
    assert_eq!(
        calculate_overall_confidence(&vec![segment(-200_000), segment(-950_000)], &config),
        438_750
    );
}

#[test]
fn welcome_holds_the_greeting_only() {
    let welcome = welcome_transcript();
    assert_eq!(welcome.text, "Connected! Click Start Recording to begin...");
    assert!(welcome.is_final);
    assert_eq!(welcome.word_count, None);
    assert_eq!(welcome.words, None);
    assert_eq!(welcome.audio_data, None);
    assert_eq!(welcome.clone(), welcome);
}
