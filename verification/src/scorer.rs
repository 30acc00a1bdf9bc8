//! Confidence scoring of one transcription segment.
//!
//! All quantities are fixed-point integers in millionths: a log-probability
//! of -0.5 is `-500_000`, a start time of 0.2 s is `200_000`, and a score of
//! one is `1_000_000`. A score is a pure function of the segment and the
//! thresholds.

use crate::text::{trimmed, trimmed_byte_len, utf8_byte_len};
use vstd::prelude::*;

verus! {

/// One, in millionths.
pub const MICRO: u64 = 1_000_000;

/// Share of the score that a segment keeps whatever its log-probability.
pub const LOGPROB_BASE_WEIGHT: u64 = 800_000;

/// Share of the score that grows with the normalised log-probability.
pub const LOGPROB_SPAN_WEIGHT: u64 = 200_000;

/// Factor applied when the compression ratio is above its ceiling.
pub const COMPRESSION_PENALTY_FACTOR: u64 = 950_000;

/// Largest share of the score that temperature can take away.
pub const TEMPERATURE_PENALTY_WEIGHT: u64 = 50_000;

/// Largest magnitude accepted for a threshold.
pub const THRESHOLD_LIMIT: i64 = 1_000_000_000_000;

/// One recognised word with its timing.
#[derive(Debug, PartialEq, Eq)]
pub struct Word {
    pub word: String,
    pub start: i64,
    pub end: i64,
}

/// Mathematical content of a `Word`.
pub struct WordModel {
    pub word: Seq<char>,
    pub start: i64,
    pub end: i64,
}

impl DeepView for Word {
    type V = WordModel;

    open spec fn deep_view(&self) -> WordModel {
        WordModel { word: self.word@, start: self.start, end: self.end }
    }
}

impl View for Word {
    type V = WordModel;

    open spec fn view(&self) -> WordModel {
        self.deep_view()
    }
}

impl Clone for Word {
    fn clone(&self) -> (r: Self)
        ensures
            r == *self,
    {
        Word { word: self.word.clone(), start: self.start, end: self.end }
    }
}

/// One segment of an inference result with its quality metrics.
#[derive(Debug, PartialEq, Eq)]
pub struct Segment {
    pub start: Option<i64>,
    pub end: Option<i64>,
    pub text: String,
    pub temperature: Option<i64>,
    pub avg_logprob: Option<i64>,
    pub compression_ratio: Option<i64>,
    pub no_speech_prob: Option<i64>,
    pub words: Option<Vec<Word>>,
}

/// Mathematical content of a `Segment`.
pub struct SegmentModel {
    pub start: Option<i64>,
    pub end: Option<i64>,
    pub text: Seq<char>,
    pub temperature: Option<i64>,
    pub avg_logprob: Option<i64>,
    pub compression_ratio: Option<i64>,
    pub no_speech_prob: Option<i64>,
    pub words: Option<Seq<WordModel>>,
}

impl DeepView for Segment {
    type V = SegmentModel;

    open spec fn deep_view(&self) -> SegmentModel {
        SegmentModel {
            start: self.start,
            end: self.end,
            text: self.text@,
            temperature: self.temperature,
            avg_logprob: self.avg_logprob,
            compression_ratio: self.compression_ratio,
            no_speech_prob: self.no_speech_prob,
            words: self.words.deep_view(),
        }
    }
}

impl View for Segment {
    type V = SegmentModel;

    open spec fn view(&self) -> SegmentModel {
        self.deep_view()
    }
}

/// The tunable thresholds of the scorer, in millionths.
#[derive(Debug, PartialEq, Eq, Clone, Copy)]
pub struct Thresholds {
    /// A log-probability at or below this floor rejects the segment.
    pub min_avg_logprob: i64,
    /// The more lenient floor of a short utterance.
    pub min_avg_logprob_short: i64,
    /// A log-probability at or above this value counts in full.
    pub full_confidence_logprob: i64,
    /// A no-speech probability above this ceiling rejects the segment.
    pub max_no_speech_prob: i64,
    /// A compression ratio above this ceiling costs a small penalty.
    pub max_compression_ratio: i64,
    /// A temperature above this ceiling rejects the segment.
    pub max_temperature: i64,
    /// Shortest duration of a word, per byte of its text.
    pub min_word_duration: i64,
    /// Longest duration of a word, and of the average word.
    pub max_word_duration: i64,
    /// Least score at which free text is accepted.
    pub min_confidence_score: u64,
    /// Least score at which a numeric-only transcript is accepted.
    pub min_confidence_score_numeric: u64,
    /// A segment of at most this many words is a short utterance.
    pub short_utterance_words: usize,
    /// Audio whose energy, in thousandths, is below this floor is silence.
    pub min_audio_energy: u64,
}

impl Thresholds {
    /// The thresholds are consistent and within the limits of the
    /// fixed-point arithmetic.
    pub open spec fn valid(&self) -> bool {
        &&& -THRESHOLD_LIMIT <= self.min_avg_logprob_short <= self.min_avg_logprob
        &&& self.min_avg_logprob < self.full_confidence_logprob <= THRESHOLD_LIMIT
        &&& 0 < self.max_no_speech_prob <= THRESHOLD_LIMIT
        &&& 0 < self.max_temperature <= THRESHOLD_LIMIT
        &&& 0 <= self.max_compression_ratio <= THRESHOLD_LIMIT
        &&& 0 <= self.min_word_duration <= self.max_word_duration <= THRESHOLD_LIMIT
        &&& self.min_confidence_score_numeric <= self.min_confidence_score <= MICRO
        &&& 0 < self.min_audio_energy
    }

    /// The thresholds the pipeline ships with.
    pub open spec fn standard() -> Thresholds {
        Thresholds {
            min_avg_logprob: -700_000i64,
            min_avg_logprob_short: -900_000i64,
            full_confidence_logprob: -100_000i64,
            max_no_speech_prob: 300_000,
            max_compression_ratio: 2_000_000,
            max_temperature: 500_000,
            min_word_duration: 30_000,
            max_word_duration: 2_000_000,
            min_confidence_score: 400_000,
            min_confidence_score_numeric: 300_000,
            short_utterance_words: 2,
            min_audio_energy: 10,
        }
    }

    /// Whether the thresholds are consistent.
    pub fn is_valid(&self) -> (b: bool)
        ensures
            b == self.valid(),
    {
        -THRESHOLD_LIMIT <= self.min_avg_logprob_short && self.min_avg_logprob_short
            <= self.min_avg_logprob && self.min_avg_logprob < self.full_confidence_logprob
            && self.full_confidence_logprob <= THRESHOLD_LIMIT && 0 < self.max_no_speech_prob
            && self.max_no_speech_prob <= THRESHOLD_LIMIT && 0 < self.max_temperature
            && self.max_temperature <= THRESHOLD_LIMIT && 0 <= self.max_compression_ratio
            && self.max_compression_ratio <= THRESHOLD_LIMIT && 0 <= self.min_word_duration
            && self.min_word_duration <= self.max_word_duration && self.max_word_duration
            <= THRESHOLD_LIMIT && self.min_confidence_score_numeric <= self.min_confidence_score
            && self.min_confidence_score <= MICRO && 0 < self.min_audio_energy
    }
}

impl Default for Thresholds {
    fn default() -> (t: Thresholds)
        ensures
            t == Thresholds::standard(),
            t.valid(),
    {
        Thresholds {
            min_avg_logprob: -700_000,
            min_avg_logprob_short: -900_000,
            full_confidence_logprob: -100_000,
            max_no_speech_prob: 300_000,
            max_compression_ratio: 2_000_000,
            max_temperature: 500_000,
            min_word_duration: 30_000,
            max_word_duration: 2_000_000,
            min_confidence_score: 400_000,
            min_confidence_score_numeric: 300_000,
            short_utterance_words: 2,
            min_audio_energy: 10,
        }
    }
}

/// A segment with at most the configured number of words. A segment
/// without word timing is never short.
pub open spec fn is_short_utterance(seg: SegmentModel, t: Thresholds) -> bool {
    seg.words matches Some(ws) && ws.len() <= t.short_utterance_words
}

/// The log-probability floor that applies to the segment.
pub open spec fn logprob_floor(seg: SegmentModel, t: Thresholds) -> i64 {
    if is_short_utterance(seg, t) {
        t.min_avg_logprob_short
    } else {
        t.min_avg_logprob
    }
}

/// Byte length of the word's text without surrounding white space.
pub open spec fn word_length(w: WordModel) -> nat {
    utf8_byte_len(trimmed(w.word))
}

/// Shortest acceptable duration of the word: the per-byte minimum times its
/// length, a word without text counting as one byte.
pub open spec fn min_duration_for(w: WordModel, t: Thresholds) -> int {
    if word_length(w) <= 1 {
        t.min_word_duration as int
    } else {
        t.min_word_duration * word_length(w)
    }
}

/// The word's timing is unusable: both stamps are zero (no timing at all),
/// or the duration is outside the bounds for a word of its length.
pub open spec fn word_rejected(w: WordModel, t: Thresholds) -> bool {
    let duration = w.end - w.start;
    ||| (w.start == 0 && w.end == 0)
    ||| duration > t.max_word_duration
    ||| duration < min_duration_for(w, t)
}

/// Some word has unusable timing, or the words are on average longer than
/// the longest acceptable word.
pub open spec fn timing_rejected(seg: SegmentModel, t: Thresholds) -> bool {
    seg.words matches Some(ws) && {
        ||| exists|i: int| 0 <= i < ws.len() && #[trigger] word_rejected(ws[i], t)
        ||| (ws.len() > 0 && ws.last().end - ws[0].start > t.max_word_duration * ws.len())
    }
}

/// A hard threshold fails, which sets the score to zero whatever the other
/// metrics say.
pub open spec fn hard_rejected(seg: SegmentModel, t: Thresholds) -> bool {
    ||| (seg.avg_logprob matches Some(p) && p <= logprob_floor(seg, t))
    ||| (seg.temperature matches Some(temp) && temp > t.max_temperature)
    ||| (seg.no_speech_prob matches Some(p) && p > t.max_no_speech_prob)
    ||| timing_rejected(seg, t)
}

/// `value` limited to the range from zero to `ceiling`.
pub open spec fn clamp(value: int, ceiling: int) -> int {
    if value < 0 {
        0
    } else if value > ceiling {
        ceiling
    } else {
        value
    }
}

/// Position of the log-probability between its floor (zero) and the value
/// of full confidence (one).
pub open spec fn logprob_norm(p: int, floor: int, full: int) -> int {
    clamp(p - floor, full - floor) * MICRO / (full - floor)
}

/// Contribution of the log-probability: the dominant weight.
pub open spec fn logprob_factor(seg: SegmentModel, t: Thresholds) -> int {
    match seg.avg_logprob {
        Some(p) => LOGPROB_BASE_WEIGHT + logprob_norm(
            p as int,
            logprob_floor(seg, t) as int,
            t.full_confidence_logprob as int,
        ) * LOGPROB_SPAN_WEIGHT / (MICRO as int),
        None => MICRO as int,
    }
}

/// Penalty for a compression ratio above its ceiling.
pub open spec fn compression_factor(seg: SegmentModel, t: Thresholds) -> int {
    match seg.compression_ratio {
        Some(r) if r > t.max_compression_ratio => COMPRESSION_PENALTY_FACTOR as int,
        _ => MICRO as int,
    }
}

/// Penalty that grows with the temperature up to its ceiling.
pub open spec fn temperature_factor(seg: SegmentModel, t: Thresholds) -> int {
    match seg.temperature {
        Some(temp) => MICRO - clamp(temp as int, t.max_temperature as int)
            * TEMPERATURE_PENALTY_WEIGHT / (t.max_temperature as int),
        None => MICRO as int,
    }
}

/// Penalty that grows with the no-speech probability up to its ceiling,
/// where it takes the whole score.
pub open spec fn no_speech_factor(seg: SegmentModel, t: Thresholds) -> int {
    match seg.no_speech_prob {
        Some(p) => MICRO - clamp(p as int, t.max_no_speech_prob as int) * MICRO / (
        t.max_no_speech_prob as int),
        None => MICRO as int,
    }
}

/// Product of two fixed-point values, rounded down.
pub open spec fn scale(a: int, b: int) -> int {
    a * b / (MICRO as int)
}

/// The weighted composite of a segment that passed the hard thresholds.
pub open spec fn composite_score(seg: SegmentModel, t: Thresholds) -> int {
    scale(
        scale(scale(logprob_factor(seg, t), compression_factor(seg, t)), temperature_factor(seg, t)),
        no_speech_factor(seg, t),
    )
}

/// The confidence score of a segment: zero when a hard threshold fails,
/// else the weighted composite.
pub open spec fn confidence_score(seg: SegmentModel, t: Thresholds) -> int {
    if hard_rejected(seg, t) {
        0
    } else {
        composite_score(seg, t)
    }
}

/// `num * scale / den` stays within `scale` when `num` is within `den`.
pub proof fn lemma_ratio_bound(num: int, den: int, scale: int)
    requires
        0 <= num <= den,
        0 < den,
        0 <= scale,
    ensures
        0 <= num * scale / den <= scale,
        num * scale <= den * scale,
{
    assert(0 <= num * scale <= den * scale) by (nonlinear_arith)
        requires
            0 <= num <= den,
            0 <= scale,
    ;
    assert(num * scale / den <= scale) by (nonlinear_arith)
        requires
            0 <= num * scale <= den * scale,
            0 < den,
    ;
    assert(0 <= num * scale / den) by (nonlinear_arith)
        requires
            0 <= num * scale,
            0 < den,
    ;
}

/// A product of two values within one is within one.
pub proof fn lemma_scale_bound(a: int, b: int)
    requires
        0 <= a <= MICRO,
        0 <= b <= MICRO,
    ensures
        0 <= scale(a, b) <= MICRO,
        a * b <= MICRO * MICRO,
{
    lemma_ratio_bound(a, MICRO as int, b);
    assert(a * b <= MICRO * MICRO) by (nonlinear_arith)
        requires
            0 <= a <= MICRO,
            0 <= b <= MICRO,
    ;
    assert(a * b / (MICRO as int) <= MICRO) by (nonlinear_arith)
        requires
            0 <= a * b <= MICRO * MICRO,
    ;
    assert(0 <= a * b / (MICRO as int)) by (nonlinear_arith)
        requires
            0 <= a * b,
    ;
    assert(0 <= a * b) by (nonlinear_arith)
        requires
            0 <= a,
            0 <= b,
    ;
}

/// Each factor of the composite lies between zero and one.
pub proof fn lemma_factor_bounds(seg: SegmentModel, t: Thresholds)
    requires
        t.valid(),
    ensures
        LOGPROB_BASE_WEIGHT <= logprob_factor(seg, t) <= MICRO,
        COMPRESSION_PENALTY_FACTOR <= compression_factor(seg, t) <= MICRO,
        MICRO - TEMPERATURE_PENALTY_WEIGHT <= temperature_factor(seg, t) <= MICRO,
        0 <= no_speech_factor(seg, t) <= MICRO,
{
    match seg.avg_logprob {
        Some(p) => {
            let floor = logprob_floor(seg, t) as int;
            let full = t.full_confidence_logprob as int;
            lemma_ratio_bound(clamp(p - floor, full - floor), full - floor, MICRO as int);
            lemma_ratio_bound(logprob_norm(p as int, floor, full), MICRO as int, LOGPROB_SPAN_WEIGHT as int);
        },
        None => {},
    }
    match seg.temperature {
        Some(temp) => {
            lemma_ratio_bound(
                clamp(temp as int, t.max_temperature as int),
                t.max_temperature as int,
                TEMPERATURE_PENALTY_WEIGHT as int,
            );
        },
        None => {},
    }
    match seg.no_speech_prob {
        Some(p) => {
            lemma_ratio_bound(
                clamp(p as int, t.max_no_speech_prob as int),
                t.max_no_speech_prob as int,
                MICRO as int,
            );
        },
        None => {},
    }
}

/// The score of every segment lies between zero and one, and a segment that
/// fails a hard threshold scores zero.
pub proof fn lemma_score_range(seg: SegmentModel, t: Thresholds)
    requires
        t.valid(),
    ensures
        0 <= confidence_score(seg, t) <= MICRO,
        hard_rejected(seg, t) ==> confidence_score(seg, t) == 0,
{
    lemma_factor_bounds(seg, t);
    let a = logprob_factor(seg, t);
    let b = compression_factor(seg, t);
    let c = temperature_factor(seg, t);
    let d = no_speech_factor(seg, t);
    lemma_scale_bound(a, b);
    lemma_scale_bound(scale(a, b), c);
    lemma_scale_bound(scale(scale(a, b), c), d);
}

/// The score is a function of the metrics and the word timing alone: two
/// segments that agree on them score alike, whatever their text and their
/// bounds, and however often the score is asked for.
pub proof fn lemma_score_is_deterministic(a: SegmentModel, b: SegmentModel, t: Thresholds)
    requires
        a.temperature == b.temperature,
        a.avg_logprob == b.avg_logprob,
        a.compression_ratio == b.compression_ratio,
        a.no_speech_prob == b.no_speech_prob,
        a.words == b.words,
    ensures
        hard_rejected(a, t) == hard_rejected(b, t),
        confidence_score(a, t) == confidence_score(b, t),
{
}

/// Validated thresholds: a value of this type always holds consistent
/// thresholds, so scoring needs no precondition.
#[derive(Debug)]
pub struct ScorerConfig {
    thresholds: Thresholds,
}

impl View for ScorerConfig {
    type V = Thresholds;

    closed spec fn view(&self) -> Thresholds {
        self.thresholds
    }
}

impl ScorerConfig {
    #[verifier::type_invariant]
    spec fn consistent(self) -> bool {
        self.thresholds.valid()
    }

    /// Accepts the thresholds if and only if they are consistent.
    pub fn new(thresholds: Thresholds) -> (config: Option<ScorerConfig>)
        ensures
            config is Some <==> thresholds.valid(),
            config matches Some(c) ==> c@ == thresholds,
    {
        if thresholds.is_valid() {
            Some(ScorerConfig { thresholds })
        } else {
            None
        }
    }

    /// The thresholds in force.
    pub fn thresholds(&self) -> (t: Thresholds)
        ensures
            t == self@,
            t.valid(),
    {
        proof {
            use_type_invariant(self);
        }
        self.thresholds
    }
}

impl Default for ScorerConfig {
    fn default() -> (config: ScorerConfig)
        ensures
            config@ == Thresholds::standard(),
    {
        ScorerConfig { thresholds: Thresholds::default() }
    }
}

/// `num * scale / den`, rounded down.
fn ratio(num: u64, den: u64, scale: u64) -> (r: u64)
    requires
        num <= den,
        0 < den,
        scale <= MICRO,
    ensures
        r == num * scale / (den as int),
        r <= scale,
{
    proof {
        lemma_ratio_bound(num as int, den as int, scale as int);
        assert(num * scale <= 0xFFFF_FFFF_FFFF_FFFF * 1_000_000) by (nonlinear_arith)
            requires
                num <= 0xFFFF_FFFF_FFFF_FFFF,
                scale <= 1_000_000,
        ;
    }
    let wide: u128 = num as u128 * scale as u128;
    (wide / den as u128) as u64
}

/// Product of two fixed-point values within one, rounded down.
fn scale_by(a: u64, b: u64) -> (r: u64)
    requires
        a <= MICRO,
        b <= MICRO,
    ensures
        r == scale(a as int, b as int),
        r <= MICRO,
{
    proof {
        lemma_scale_bound(a as int, b as int);
    }
    a * b / MICRO
}

/// `value` limited to the range from zero to `ceiling`.
fn clamp_to(value: i64, ceiling: i64) -> (r: u64)
    requires
        0 <= ceiling,
    ensures
        r == clamp(value as int, ceiling as int),
        r <= ceiling,
{
    if value < 0 {
        0
    } else if value > ceiling {
        ceiling as u64
    } else {
        value as u64
    }
}

/// Whether the word's timing is unusable.
fn word_is_rejected(w: &Word, t: &Thresholds) -> (b: bool)
    requires
        t.valid(),
    ensures
        b == word_rejected(w@, *t),
{
    if w.start == 0 && w.end == 0 {
        return true;
    }
    let duration: i128 = w.end as i128 - w.start as i128;
    if duration > t.max_word_duration as i128 {
        return true;
    }
    let len: u128 = trimmed_byte_len(w.word.as_str());
    let min: i128 = if len <= 1 {
        t.min_word_duration as i128
    } else {
        assert(t.min_word_duration * len <= 1_000_000_000_000 * (4 * 0xFFFF_FFFF_FFFF_FFFF))
            by (nonlinear_arith)
            requires
                0 <= t.min_word_duration <= 1_000_000_000_000,
                len <= 4 * 0xFFFF_FFFF_FFFF_FFFF,
        ;
        assert(0 <= t.min_word_duration * len) by (nonlinear_arith)
            requires
                0 <= t.min_word_duration,
                0 <= len,
        ;
        t.min_word_duration as i128 * len as i128
    };
    duration < min
}

/// Whether the words are on average longer than the longest acceptable
/// word: the span from the first start to the last end, over their number.
fn average_duration_rejected(words: &Vec<Word>, t: &Thresholds) -> (b: bool)
    requires
        t.valid(),
    ensures
        b == (words.len() > 0 && words@.last().end - words@[0].start > t.max_word_duration
            * words.len()),
{
    let n = words.len();
    if n == 0 {
        return false;
    }
    let total: i128 = words[n - 1].end as i128 - words[0].start as i128;
    assert(0 <= t.max_word_duration * n <= 1_000_000_000_000 * 0xFFFF_FFFF_FFFF_FFFF)
        by (nonlinear_arith)
        requires
            0 <= t.max_word_duration <= 1_000_000_000_000,
            0 <= n <= 0xFFFF_FFFF_FFFF_FFFF,
    ;
    total > t.max_word_duration as i128 * n as i128
}

/// Whether the word timing of the segment rejects it.
fn timing_is_rejected(segment: &Segment, t: &Thresholds) -> (b: bool)
    requires
        t.valid(),
    ensures
        b == timing_rejected(segment@, *t),
{
    match &segment.words {
        None => false,
        Some(words) => {
            let ghost ws = words.deep_view();
            assert(segment@.words == Some(ws));
            let mut i: usize = 0;
            while i < words.len()
                invariant
                    i <= words.len(),
                    t.valid(),
                    ws == words.deep_view(),
                    segment@.words == Some(ws),
                    forall|j: int| 0 <= j < i ==> !#[trigger] word_rejected(ws[j], *t),
                decreases words.len() - i,
            {
                if word_is_rejected(&words[i], t) {
                    assert(word_rejected(ws[i as int], *t));
                    return true;
                }
                i = i + 1;
            }
            average_duration_rejected(words, t)
        },
    }
}

/// Whether a hard threshold fails on the segment: a log-probability at or
/// below its floor (a more lenient floor for a short utterance), a
/// temperature or a no-speech probability above its ceiling, or unusable
/// word timing.
pub fn is_hard_rejected(segment: &Segment, config: &ScorerConfig) -> (rejected: bool)
    ensures
        rejected == hard_rejected(segment@, config@),
{
    let t = config.thresholds();
    let short = match &segment.words {
        Some(words) => words.len() <= t.short_utterance_words,
        None => false,
    };
    let floor: i64 = if short {
        t.min_avg_logprob_short
    } else {
        t.min_avg_logprob
    };
    assert(floor == logprob_floor(segment@, t));
    match segment.avg_logprob {
        Some(p) => {
            if p <= floor {
                return true;
            }
        },
        None => {},
    }
    match segment.temperature {
        Some(temp) => {
            if temp > t.max_temperature {
                return true;
            }
        },
        None => {},
    }
    match segment.no_speech_prob {
        Some(p) => {
            if p > t.max_no_speech_prob {
                return true;
            }
        },
        None => {},
    }
    timing_is_rejected(segment, &t)
}

/// Scores one segment.
///
/// Hard thresholds come first and set the score to zero: a log-probability
/// at or below its floor (a more lenient floor for a short utterance), a
/// temperature or a no-speech probability above its ceiling, or unusable
/// word timing. Otherwise the score is the product of the log-probability
/// weight with the smaller penalties for compression ratio, temperature and
/// no-speech probability. The result depends on the segment and the
/// thresholds alone.
pub fn calculate_confidence_score(segment: &Segment, config: &ScorerConfig) -> (score: u64)
    ensures
        score == confidence_score(segment@, config@),
        score <= MICRO,
        hard_rejected(segment@, config@) ==> score == 0,
{
    let t = config.thresholds();
    proof {
        lemma_score_range(segment@, t);
        lemma_factor_bounds(segment@, t);
    }
    if is_hard_rejected(segment, config) {
        return 0;
    }
    let floor: i64 = match &segment.words {
        Some(words) => if words.len() <= t.short_utterance_words {
            t.min_avg_logprob_short
        } else {
            t.min_avg_logprob
        },
        None => t.min_avg_logprob,
    };
    assert(floor == logprob_floor(segment@, t));
    assert(!hard_rejected(segment@, t));

    let logprob: u64 = match segment.avg_logprob {
        Some(p) => {
            let span: i64 = t.full_confidence_logprob - floor;
            let above: i64 = if p >= t.full_confidence_logprob {
                span
            } else {
                p - floor
            };
            let norm = ratio(above as u64, span as u64, MICRO);
            LOGPROB_BASE_WEIGHT + ratio(norm, MICRO, LOGPROB_SPAN_WEIGHT)
        },
        None => MICRO,
    };
    let compression: u64 = match segment.compression_ratio {
        Some(r) => if r > t.max_compression_ratio {
            COMPRESSION_PENALTY_FACTOR
        } else {
            MICRO
        },
        None => MICRO,
    };
    let temperature: u64 = match segment.temperature {
        Some(temp) => MICRO - ratio(
            clamp_to(temp, t.max_temperature),
            t.max_temperature as u64,
            TEMPERATURE_PENALTY_WEIGHT,
        ),
        None => MICRO,
    };
    let no_speech: u64 = match segment.no_speech_prob {
        Some(p) => MICRO - ratio(
            clamp_to(p, t.max_no_speech_prob),
            t.max_no_speech_prob as u64,
            MICRO,
        ),
        None => MICRO,
    };
    assert(logprob == logprob_factor(segment@, t));
    assert(compression == compression_factor(segment@, t));
    assert(temperature == temperature_factor(segment@, t));
    assert(no_speech == no_speech_factor(segment@, t));
    scale_by(scale_by(scale_by(logprob, compression), temperature), no_speech)
}

} // verus!
