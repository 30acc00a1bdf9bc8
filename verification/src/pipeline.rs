//! The audio ingestion pipeline around the inference call.
//!
//! Before the call: reject silence, wrap the samples in a WAVE container and
//! encode it as text. After the call: score the result and decide whether it
//! is trustworthy enough to broadcast.

use crate::energy::{all_zero, calculate_audio_energy, lemma_silence_has_no_energy, rms_milli};
use crate::scorer::{
    calculate_confidence_score, confidence_score, hard_rejected, is_hard_rejected,
    lemma_score_range, ScorerConfig, Segment,
    SegmentModel, Thresholds, Word, WordModel, MICRO,
};
use crate::text::{is_numeric_only, text_is_numeric_only};
use crate::wav::{header_bytes, WavHeader, MAX_DATA_SIZE};
use vstd::prelude::*;

verus! {

/// The standard base64 text, with padding, of a byte sequence: what
/// `Engine::encode` of the `base64` crate returns on its `STANDARD` engine.
pub uninterp spec fn base64_standard(bytes: Seq<u8>) -> Seq<char>;

/// The length of the base64 text of `len` bytes fits in `usize`.
pub open spec fn base64_fits(len: nat) -> bool {
    len / 3 * 4 + 4 <= usize::MAX
}

/// Encodes bytes as standard base64 with padding. Trusted: calls
/// `base64::Engine::encode` on `base64::engine::general_purpose::STANDARD`,
/// whose result is a function of the bytes alone and which panics only when
/// the encoded length overflows `usize`; that case is excluded here.
#[verifier::external_body]
fn encode_base64(bytes: &Vec<u8>) -> (text: String)
    requires
        base64_fits(bytes@.len()),
    ensures
        text@ == base64_standard(bytes@),
{
    base64::Engine::encode(&base64::engine::general_purpose::STANDARD, bytes)
}

/// The WAVE file that carries `samples`: the header, then the samples.
pub open spec fn wav_file(samples: Seq<u8>) -> Seq<u8>
    recommends
        samples.len() <= MAX_DATA_SIZE,
{
    header_bytes(samples.len() as u32) + samples
}

/// Wraps raw samples in a WAVE container whose size fields match them.
pub fn wrap_pcm(audio_samples: &[u8]) -> (wav: Vec<u8>)
    requires
        audio_samples@.len() <= MAX_DATA_SIZE,
    ensures
        wav@ == wav_file(audio_samples@),
        wav@.len() == 44 + audio_samples@.len(),
{
    let header = WavHeader::new(audio_samples.len() as u32);
    let mut wav = header.to_bytes();
    wav.extend_from_slice(audio_samples);
    wav
}

/// Why a frame never reaches the inference call.
#[derive(Debug, PartialEq, Eq, Clone, Copy)]
pub enum SkipReason {
    /// The frame holds no bytes.
    Empty,
    /// The energy of the frame is below the floor.
    Silence,
    /// The frame is too large for the size fields of the container.
    TooLarge,
}

/// What to do with an inbound audio frame.
#[derive(Debug, PartialEq, Eq)]
pub enum Submission {
    /// Drop the frame without calling inference.
    Skip(SkipReason),
    /// Submit this base64 text of the WAVE container to inference.
    Infer { audio: String },
}

/// The frame fits the container and its base64 text fits in memory.
pub open spec fn frame_fits(len: nat) -> bool {
    len <= MAX_DATA_SIZE && base64_fits(44 + len)
}

/// The decision on a frame, but for the text to submit.
pub open spec fn skip_reason(samples: Seq<u8>, t: Thresholds) -> Option<SkipReason> {
    if samples.len() == 0 {
        Some(SkipReason::Empty)
    } else if rms_milli(samples) < t.min_audio_energy {
        Some(SkipReason::Silence)
    } else if !frame_fits(samples.len()) {
        Some(SkipReason::TooLarge)
    } else {
        None
    }
}

/// Silence never reaches inference: a frame of zero bytes only is skipped
/// under all valid thresholds.
pub proof fn lemma_silence_is_skipped(samples: Seq<u8>, t: Thresholds)
    requires
        all_zero(samples),
        t.valid(),
    ensures
        skip_reason(samples, t) is Some,
        samples.len() > 0 ==> skip_reason(samples, t) == Some(SkipReason::Silence),
{
    lemma_silence_has_no_energy(samples);
}

/// Decides whether a frame goes to inference, and prepares what is sent.
///
/// An empty frame and a frame below the energy floor are skipped; so is a
/// frame of all zero bytes, whatever the thresholds. Every other frame that
/// fits is wrapped in a WAVE container and encoded as base64.
pub fn prepare_audio(audio_samples: &[u8], config: &ScorerConfig) -> (submission: Submission)
    ensures
        match submission {
            Submission::Skip(reason) => skip_reason(audio_samples@, config@) == Some(reason),
            Submission::Infer { audio } => skip_reason(audio_samples@, config@) is None && audio@
                == base64_standard(wav_file(audio_samples@)),
        },
        all_zero(audio_samples@) ==> submission is Skip,
{
    let t = config.thresholds();
    if audio_samples.len() == 0 {
        return Submission::Skip(SkipReason::Empty);
    }
    let energy = calculate_audio_energy(audio_samples);
    if energy < t.min_audio_energy {
        return Submission::Skip(SkipReason::Silence);
    }
    if audio_samples.len() > MAX_DATA_SIZE as usize {
        return Submission::Skip(SkipReason::TooLarge);
    }
    let file_len: u64 = audio_samples.len() as u64 + 44;
    if file_len / 3 * 4 + 4 > usize::MAX as u64 {
        return Submission::Skip(SkipReason::TooLarge);
    }
    let wav = wrap_pcm(audio_samples);
    let audio = encode_base64(&wav);
    Submission::Infer { audio }
}

/// Side information of an inference result.
#[derive(Debug, PartialEq, Eq)]
pub struct TranscriptionInfo {
    pub language: Option<String>,
    pub language_probability: Option<i64>,
    pub duration: Option<i64>,
    pub duration_after_vad: Option<i64>,
}

/// The structured result of one inference call.
#[derive(Debug, PartialEq, Eq)]
pub struct WhisperResponse {
    pub transcription_info: Option<TranscriptionInfo>,
    pub text: String,
    pub word_count: Option<u64>,
    pub segments: Option<Vec<Segment>>,
    pub vtt: Option<String>,
}

/// Mathematical content of a `WhisperResponse`, as far as the pipeline
/// reads it.
pub struct WhisperResponseModel {
    pub language_probability: Option<i64>,
    pub text: Seq<char>,
    pub word_count: Option<u64>,
    pub segments: Option<Seq<SegmentModel>>,
    pub vtt: Option<Seq<char>>,
}

impl DeepView for WhisperResponse {
    type V = WhisperResponseModel;

    open spec fn deep_view(&self) -> WhisperResponseModel {
        WhisperResponseModel {
            language_probability: match self.transcription_info {
                Some(info) => info.language_probability,
                None => None,
            },
            text: self.text@,
            word_count: self.word_count,
            segments: self.segments.deep_view(),
            vtt: self.vtt.deep_view(),
        }
    }
}

impl View for WhisperResponse {
    type V = WhisperResponseModel;

    open spec fn view(&self) -> WhisperResponseModel {
        self.deep_view()
    }
}

/// A transcript that is broadcast to the connections.
#[derive(Debug, PartialEq, Eq)]
pub struct TranscriptionResult {
    pub text: String,
    pub is_final: bool,
    pub word_count: Option<u32>,
    pub words: Option<Vec<Word>>,
    pub vtt: Option<String>,
    pub audio_data: Option<String>,
    pub language_probability: Option<i64>,
    pub avg_logprob: Option<i64>,
    pub no_speech_prob: Option<i64>,
    pub temperature: Option<i64>,
    pub compression_ratio: Option<i64>,
}

/// Mathematical content of a `TranscriptionResult`.
pub struct TranscriptionResultModel {
    pub text: Seq<char>,
    pub is_final: bool,
    pub word_count: Option<u32>,
    pub words: Option<Seq<WordModel>>,
    pub vtt: Option<Seq<char>>,
    pub audio_data: Option<Seq<char>>,
    pub language_probability: Option<i64>,
    pub avg_logprob: Option<i64>,
    pub no_speech_prob: Option<i64>,
    pub temperature: Option<i64>,
    pub compression_ratio: Option<i64>,
}

impl DeepView for TranscriptionResult {
    type V = TranscriptionResultModel;

    open spec fn deep_view(&self) -> TranscriptionResultModel {
        TranscriptionResultModel {
            text: self.text@,
            is_final: self.is_final,
            word_count: self.word_count,
            words: self.words.deep_view(),
            vtt: self.vtt.deep_view(),
            audio_data: self.audio_data.deep_view(),
            language_probability: self.language_probability,
            avg_logprob: self.avg_logprob,
            no_speech_prob: self.no_speech_prob,
            temperature: self.temperature,
            compression_ratio: self.compression_ratio,
        }
    }
}

impl View for TranscriptionResult {
    type V = TranscriptionResultModel;

    open spec fn view(&self) -> TranscriptionResultModel {
        self.deep_view()
    }
}

impl Clone for TranscriptionResult {
    fn clone(&self) -> (r: Self)
        ensures
            r@ == self@,
    {
        let words = match &self.words {
            Some(ws) => Some(clone_words(ws)),
            None => None,
        };
        let vtt = match &self.vtt {
            Some(v) => Some(v.clone()),
            None => None,
        };
        let audio_data = match &self.audio_data {
            Some(a) => Some(a.clone()),
            None => None,
        };
        TranscriptionResult {
            text: self.text.clone(),
            is_final: self.is_final,
            word_count: self.word_count,
            words,
            vtt,
            audio_data,
            language_probability: self.language_probability,
            avg_logprob: self.avg_logprob,
            no_speech_prob: self.no_speech_prob,
            temperature: self.temperature,
            compression_ratio: self.compression_ratio,
        }
    }
}

/// A copy of the words, in order.
pub fn clone_words(words: &Vec<Word>) -> (copy: Vec<Word>)
    ensures
        copy.deep_view() == words.deep_view(),
{
    let mut copy: Vec<Word> = Vec::new();
    let mut i: usize = 0;
    while i < words.len()
        invariant
            i <= words.len(),
            copy.len() == i,
            forall|j: int| 0 <= j < i ==> copy[j]@ == words[j]@,
        decreases words.len() - i,
    {
        copy.push(words[i].clone());
        i = i + 1;
    }
    assert(copy.deep_view() =~= words.deep_view());
    copy
}

/// Sum of the scores of the first `n` segments.
pub open spec fn score_sum(segments: Seq<SegmentModel>, n: nat, t: Thresholds) -> int
    recommends
        n <= segments.len(),
    decreases n,
{
    if n == 0 {
        0
    } else {
        score_sum(segments, (n - 1) as nat, t) + confidence_score(segments[n - 1], t)
    }
}

/// Mean of the scores of all segments, rounded down; zero without segments.
pub open spec fn overall_confidence(segments: Seq<SegmentModel>, t: Thresholds) -> int {
    if segments.len() == 0 {
        0
    } else {
        score_sum(segments, segments.len(), t) / (segments.len() as int)
    }
}

/// The sum of `n` scores is at most `n`.
pub proof fn lemma_score_sum_bound(segments: Seq<SegmentModel>, n: nat, t: Thresholds)
    requires
        t.valid(),
    ensures
        0 <= score_sum(segments, n, t) <= n * MICRO,
    decreases n,
{
    if n > 0 {
        lemma_score_sum_bound(segments, (n - 1) as nat, t);
        lemma_score_range(segments[n - 1], t);
    }
}

/// The overall confidence lies between zero and one.
pub proof fn lemma_overall_range(segments: Seq<SegmentModel>, t: Thresholds)
    requires
        t.valid(),
    ensures
        0 <= overall_confidence(segments, t) <= MICRO,
{
    let n = segments.len();
    if n > 0 {
        lemma_score_sum_bound(segments, n, t);
        let s = score_sum(segments, n, t);
        assert(0 <= s / (n as int) <= MICRO) by (nonlinear_arith)
            requires
                0 <= s <= n * MICRO,
                n > 0,
        ;
    }
}

/// Mean confidence over all segments of a result; zero when there is none.
pub fn calculate_overall_confidence(segments: &Vec<Segment>, config: &ScorerConfig) -> (overall:
    u64)
    ensures
        overall == overall_confidence(segments.deep_view(), config@),
        overall <= MICRO,
{
    let t = config.thresholds();
    let ghost models = segments.deep_view();
    let n = segments.len();
    let mut total: u128 = 0;
    let mut i: usize = 0;
    while i < n
        invariant
            i <= n == segments.len(),
            t == config@,
            t.valid(),
            models == segments.deep_view(),
            total == score_sum(models, i as nat, t),
            total <= i * MICRO,
        decreases n - i,
    {
        let score = calculate_confidence_score(&segments[i], config);
        total = total + score as u128;
        i = i + 1;
    }
    proof {
        lemma_overall_range(models, t);
    }
    if n == 0 {
        0
    } else {
        (total / n as u128) as u64
    }
}

/// Least score at which a transcript with this text is accepted: a
/// numeric-only transcript has the more lenient minimum.
pub open spec fn min_score_for(text: Seq<char>, t: Thresholds) -> u64 {
    if is_numeric_only(text) {
        t.min_confidence_score_numeric
    } else {
        t.min_confidence_score
    }
}

/// The accept decision: whether a score reaches the minimum for a
/// transcript with this text.
pub fn is_accepted(score: u64, text: &str, config: &ScorerConfig) -> (accepted: bool)
    ensures
        accepted == (score >= min_score_for(text@, config@)),
{
    let t = config.thresholds();
    let minimum = if text_is_numeric_only(text) {
        t.min_confidence_score_numeric
    } else {
        t.min_confidence_score
    };
    score >= minimum
}

/// Why a transcript is not broadcast.
#[derive(Debug, PartialEq, Eq, Clone, Copy)]
pub enum Rejection {
    /// The result holds no text.
    EmptyText,
    /// The result holds no segment to judge.
    NoSegments,
    /// A hard threshold fails on the first segment.
    FailedThresholds,
    /// The score of the first segment is below the minimum for this text.
    LowConfidence,
}

/// The outcome of judging one inference result.
#[derive(Debug, PartialEq, Eq)]
pub enum Verdict {
    /// Trustworthy: broadcast this transcript to every connection.
    Broadcast(TranscriptionResult),
    /// Not trustworthy: drop it without telling anyone.
    Discard(Rejection),
}

/// The reason to discard a result, if there is one. The first segment
/// alone is judged, and the checks come in this order: text, presence of a
/// segment, hard thresholds, score against the minimum for the text.
pub open spec fn rejection_of(response: WhisperResponseModel, t: Thresholds) -> Option<Rejection> {
    if response.text.len() == 0 {
        Some(Rejection::EmptyText)
    } else if response.segments is None || response.segments->0.len() == 0 {
        Some(Rejection::NoSegments)
    } else if hard_rejected(response.segments->0[0], t) {
        Some(Rejection::FailedThresholds)
    } else if confidence_score(response.segments->0[0], t) < min_score_for(response.text, t) {
        Some(Rejection::LowConfidence)
    } else {
        None
    }
}

/// A result is broadcast exactly when it has text, has a first segment, no
/// hard threshold fails on that segment, and the score of that segment
/// reaches the minimum for the text. The other segments play no part.
pub proof fn lemma_broadcast_iff_first_segment_accepted(
    response: WhisperResponseModel,
    t: Thresholds,
)
    ensures
        rejection_of(response, t) is None <==> {
            &&& response.text.len() > 0
            &&& response.segments matches Some(segments)
            &&& segments.len() > 0
            &&& !hard_rejected(segments[0], t)
            &&& confidence_score(segments[0], t) >= min_score_for(response.text, t)
        },
{
}

/// Of two results that differ in their text only, one numeric-only and one
/// free text, whose first segment scores between the two minimums, the
/// numeric-only one is broadcast and the free text is not.
pub proof fn lemma_numeric_text_is_held_to_less(
    numeric: WhisperResponseModel,
    free: WhisperResponseModel,
    t: Thresholds,
)
    requires
        is_numeric_only(numeric.text),
        !is_numeric_only(free.text),
        numeric.text.len() > 0,
        free.text.len() > 0,
        numeric.segments == free.segments,
        numeric.segments matches Some(segments) && segments.len() > 0 && !hard_rejected(
            segments[0],
            t,
        ) && t.min_confidence_score_numeric <= confidence_score(segments[0], t)
            < t.min_confidence_score,
    ensures
        rejection_of(numeric, t) is None,
        rejection_of(free, t) == Some(Rejection::LowConfidence),
{
}

/// The transcript that is broadcast for an accepted result: the text and
/// subtitle track of the result, the metrics and words of its first
/// segment, and the audio that was submitted. A streaming partial is not
/// final.
pub open spec fn accepted_transcript(
    response: WhisperResponseModel,
    audio: Seq<char>,
    is_streaming: bool,
) -> TranscriptionResultModel
    recommends
        response.segments is Some,
        response.segments->0.len() > 0,
{
    let first = response.segments->0[0];
    TranscriptionResultModel {
        text: response.text,
        is_final: !is_streaming,
        word_count: match response.word_count {
            Some(w) => Some((w % 0x1_0000_0000) as u32),
            None => None,
        },
        words: first.words,
        vtt: response.vtt,
        audio_data: Some(audio),
        language_probability: response.language_probability,
        avg_logprob: first.avg_logprob,
        no_speech_prob: first.no_speech_prob,
        temperature: first.temperature,
        compression_ratio: first.compression_ratio,
    }
}

/// Judges one inference result.
///
/// The first segment alone decides. The result is discarded when it has no
/// text or no segment, when a hard threshold fails on its first segment,
/// or when the score of that segment is below the minimum for its text.
/// Otherwise the transcript to broadcast is returned.
pub fn assess_transcription(
    response: WhisperResponse,
    audio: String,
    is_streaming: bool,
    config: &ScorerConfig,
) -> (verdict: Verdict)
    ensures
        match verdict {
            Verdict::Discard(reason) => rejection_of(response@, config@) == Some(reason),
            Verdict::Broadcast(result) => rejection_of(response@, config@) is None && result@
                == accepted_transcript(response@, audio@, is_streaming),
        },
{
    let ghost model = response@;
    let WhisperResponse { transcription_info, text, word_count, segments, vtt } = response;
    if text.as_str().unicode_len() == 0 {
        return Verdict::Discard(Rejection::EmptyText);
    }
    let segments = match segments {
        Some(segments) => segments,
        None => {
            return Verdict::Discard(Rejection::NoSegments);
        },
    };
    if segments.len() == 0 {
        return Verdict::Discard(Rejection::NoSegments);
    }
    assert(model.segments == Some(segments.deep_view()));
    if is_hard_rejected(&segments[0], config) {
        return Verdict::Discard(Rejection::FailedThresholds);
    }
    let score = calculate_confidence_score(&segments[0], config);
    if !is_accepted(score, text.as_str(), config) {
        return Verdict::Discard(Rejection::LowConfidence);
    }
    let first = &segments[0];
    let words = match &first.words {
        Some(ws) => Some(clone_words(ws)),
        None => None,
    };
    let language_probability = match transcription_info {
        Some(info) => info.language_probability,
        None => None,
    };
    let word_count = match word_count {
        Some(w) => Some((w % 0x1_0000_0000) as u32),
        None => None,
    };
    Verdict::Broadcast(
        TranscriptionResult {
            text,
            is_final: !is_streaming,
            word_count,
            words,
            vtt,
            audio_data: Some(audio),
            language_probability,
            avg_logprob: first.avg_logprob,
            no_speech_prob: first.no_speech_prob,
            temperature: first.temperature,
            compression_ratio: first.compression_ratio,
        },
    )
}

/// The greeting that a connection to the transcription actor gets: a
/// final transcript that holds the text and nothing else.
pub fn welcome_transcript() -> (result: TranscriptionResult)
    ensures
        result@ == (TranscriptionResultModel {
            text: "Connected! Click Start Recording to begin..."@,
            is_final: true,
            word_count: None,
            words: None,
            vtt: None,
            audio_data: None,
            language_probability: None,
            avg_logprob: None,
            no_speech_prob: None,
            temperature: None,
            compression_ratio: None,
        }),
{
    TranscriptionResult {
        text: String::from_str("Connected! Click Start Recording to begin..."),
        is_final: true,
        word_count: None,
        words: None,
        vtt: None,
        audio_data: None,
        language_probability: None,
        avg_logprob: None,
        no_speech_prob: None,
        temperature: None,
        compression_ratio: None,
    }
}

} // verus!
