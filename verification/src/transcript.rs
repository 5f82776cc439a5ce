//! The source data model: a transcription result holds channels, each channel
//! holds recognition alternatives, and each alternative holds timestamped
//! words and utterances. All times are whole milliseconds from the start of
//! the audio. The result is only ever read; the renderers produce new owned
//! documents from it.

use vstd::prelude::*;

verus! {

/// One recognized word with its own time span.
pub struct Word {
    /// The recognized token, in its punctuated form where one exists.
    pub text: String,
    /// Start of the word's span, in milliseconds.
    pub start_ms: u64,
    /// End of the word's span, in milliseconds.
    pub end_ms: u64,
}

/// One provider-segmented utterance (a sentence-or-phrase-scale unit of
/// recognized speech) with its own time span.
pub struct Utterance {
    /// The utterance's full recognized text.
    pub text: String,
    /// Start of the utterance's span, in milliseconds.
    pub start_ms: u64,
    /// End of the utterance's span, in milliseconds.
    pub end_ms: u64,
}

/// One recognition hypothesis for a channel.
pub struct Alternative {
    /// The full recognized text of this alternative.
    pub transcript: String,
    /// The recognized words, non-decreasing in `start_ms`.
    pub words: Vec<Word>,
    /// The recognized utterances, non-decreasing in `start_ms`; empty when
    /// the provider was not asked for utterance segmentation.
    pub utterances: Vec<Utterance>,
}

/// One independent audio/recognition stream of a transcription result.
pub struct Channel {
    /// The competing hypotheses for this channel, in provider order.
    pub alternatives: Vec<Alternative>,
}

/// The root value returned by the transcription provider.
pub struct TranscriptionResult {
    /// The channels, in provider order; the index is the channel id.
    pub channels: Vec<Channel>,
}

/// One displayed subtitle entry: a 1-based index, a time span and the text
/// shown over that span.
pub struct Cue {
    /// 1-based position of this cue within its document.
    pub index: u64,
    /// Start of the cue's span, in milliseconds.
    pub start_ms: u64,
    /// End of the cue's span, in milliseconds.
    pub end_ms: u64,
    /// The subtitle text of this cue.
    pub text: String,
}

/// An ordered run of cues for one (channel, alternative) pair, independent
/// of every other document.
pub struct Document {
    /// The cues, in emission order; indices are the contiguous run `1..=n`.
    pub cues: Vec<Cue>,
}

/// A well-formed document: cue indices are the contiguous run starting at 1.
pub open spec fn document_indices_contiguous(cues: Seq<Cue>) -> bool {
    forall|i: int| 0 <= i < cues.len() ==> (#[trigger] cues[i]).index == i + 1
}

/// Cue start times never decrease in emission order.
pub open spec fn cue_starts_non_decreasing(cues: Seq<Cue>) -> bool {
    forall|i: int, j: int|
        0 <= i <= j < cues.len() ==> (#[trigger] cues[i]).start_ms <= (#[trigger] cues[j]).start_ms
}

} // verus!
