//! The word cue renderer for single-word burned-in caption styles: one cue
//! per recognized word, timed to exactly that word's span — no merging, no
//! silence-gap cues, no minimum-duration enforcement.

use vstd::prelude::*;
use crate::srt::document_to_srt;
use crate::srt::spec_cue_block;
use crate::srt::spec_document_srt;
use crate::srt::spec_document_srt_prefix;
use crate::transcript::Alternative;
use crate::transcript::Cue;
use crate::transcript::Document;
use crate::transcript::TranscriptionResult;
use crate::transcript::Word;
use crate::transcript::cue_starts_non_decreasing;
use crate::transcript::document_indices_contiguous;

verus! {

/// The cue at `position` (0-based) renders this word: a 1-based index and
/// the word's own span and text, verbatim.
pub open spec fn cue_matches_word(cue: Cue, position: int, word: Word) -> bool {
    &&& cue.index == position + 1
    &&& cue.start_ms == word.start_ms
    &&& cue.end_ms == word.end_ms
    &&& cue.text@ == word.text@
}

/// A document renders a run of words: one cue per word, in source order,
/// each cue matching the word at its own position.
pub open spec fn word_cues_match(cues: Seq<Cue>, words: Seq<Word>) -> bool {
    &&& cues.len() == words.len()
    &&& forall|i: int| 0 <= i < words.len() ==> cue_matches_word(#[trigger] cues[i], i, words[i])
}

/// Renders one alternative's words: exactly one cue per word, in order,
/// indexed contiguously from 1. An empty run of words yields an empty
/// document, not an error.
pub fn word_cues(words: &Vec<Word>) -> (doc: Document)
    ensures
        word_cues_match(doc.cues@, words@),
{
    let mut cues: Vec<Cue> = Vec::new();
    let n = words.len();
    for i in 0..n
        invariant
            n == words.len(),
            cues.len() == i,
            forall|k: int| 0 <= k < i ==> cue_matches_word(#[trigger] cues@[k], k, words@[k]),
    {
        let w = &words[i];
        cues.push(
            Cue {
                index: (i as u64) + 1,
                start_ms: w.start_ms,
                end_ms: w.end_ms,
                text: w.text.clone(),
            },
        );
    }
    Document { cues }
}

/// The serialized word document of the first `i` words.
pub open spec fn spec_word_srt_prefix(words: Seq<Word>, i: int) -> Seq<char>
    decreases i,
{
    if i <= 0 {
        Seq::empty()
    } else {
        spec_word_srt_prefix(words, i - 1) + spec_cue_block(
            i as nat,
            words[i - 1].start_ms as nat,
            words[i - 1].end_ms as nat,
            words[i - 1].text@,
        )
    }
}

/// The full serialized SRT document for a run of words: the `k`-th word
/// becomes cue `k + 1` with the word's own span and text.
pub open spec fn spec_word_srt(words: Seq<Word>) -> Seq<char> {
    spec_word_srt_prefix(words, words.len() as int)
}

proof fn lemma_word_srt_prefix(cues: Seq<Cue>, words: Seq<Word>, i: int)
    requires
        word_cues_match(cues, words),
        i <= words.len(),
    ensures
        spec_document_srt_prefix(cues, i) == spec_word_srt_prefix(words, i),
    decreases i,
{
    if i > 0 {
        lemma_word_srt_prefix(cues, words, i - 1);
    }
}

/// Serialization agrees with rendering: a document that matches a run of
/// words serializes to exactly the word SRT form of that run.
pub proof fn lemma_word_document_srt(cues: Seq<Cue>, words: Seq<Word>)
    requires
        word_cues_match(cues, words),
    ensures
        spec_document_srt(cues) == spec_word_srt(words),
{
    lemma_word_srt_prefix(cues, words, words.len() as int);
}

/// Cue index contiguity: a document rendered from `n` words has exactly `n`
/// cues, whose indices are `1..=n` in emission order.
pub proof fn lemma_word_cue_contiguity(cues: Seq<Cue>, words: Seq<Word>)
    requires
        word_cues_match(cues, words),
    ensures
        cues.len() == words.len(),
        document_indices_contiguous(cues),
{
}

/// Order preservation: cues keep the source order, so when the source words
/// are non-decreasing in start time, the cue start times are too.
pub proof fn lemma_word_cue_order(cues: Seq<Cue>, words: Seq<Word>)
    requires
        word_cues_match(cues, words),
        forall|i: int, j: int|
            0 <= i <= j < words.len() ==> (#[trigger] words[i]).start_ms
                <= (#[trigger] words[j]).start_ms,
    ensures
        cue_starts_non_decreasing(cues),
{
}

/// Empty-input idempotence: rendering an empty run of words yields a
/// document with zero cues, whose serialized form is the empty text.
pub proof fn lemma_empty_words(cues: Seq<Cue>)
    requires
        word_cues_match(cues, Seq::empty()),
    ensures
        cues.len() == 0,
        spec_document_srt(cues) == Seq::<char>::empty(),
{
}

/// The word-level ("beast caption") SRT documents of a whole transcription
/// result, one serialized document per (channel, alternative) pair.
pub struct BeastCaptions {
    /// `channels[c][a]` is the serialized single-word document of
    /// alternative `a` of channel `c` of the source result.
    pub channels: Vec<Vec<String>>,
}

impl BeastCaptions {
    /// Renders every (channel, alternative) pair of `result` independently:
    /// one serialized single-word document each, in source order.
    pub fn from_result(result: &TranscriptionResult) -> (captions: BeastCaptions)
        ensures
            captions.channels@.len() == result.channels@.len(),
            forall|c: int|
                0 <= c < result.channels@.len() ==> (#[trigger] captions.channels@[c])@.len()
                    == result.channels@[c].alternatives@.len(),
            forall|c: int, a: int|
                0 <= c < result.channels@.len() && 0 <= a
                    < result.channels@[c].alternatives@.len() ==> (
                #[trigger] captions.channels@[c]@[a])@ == spec_word_srt(
                    result.channels@[c].alternatives@[a].words@,
                ),
    {
        let mut channels: Vec<Vec<String>> = Vec::new();
        let nc = result.channels.len();
        for c in 0..nc
            invariant
                nc == result.channels.len(),
                channels.len() == c,
                forall|ci: int|
                    0 <= ci < c ==> (#[trigger] channels@[ci])@.len()
                        == result.channels@[ci].alternatives@.len(),
                forall|ci: int, a: int|
                    0 <= ci < c && 0 <= a < result.channels@[ci].alternatives@.len() ==> (
                    #[trigger] channels@[ci]@[a])@ == spec_word_srt(
                        result.channels@[ci].alternatives@[a].words@,
                    ),
        {
            let mut docs: Vec<String> = Vec::new();
            let na = result.channels[c].alternatives.len();
            for a in 0..na
                invariant
                    nc == result.channels.len(),
                    c < nc,
                    na == result.channels@[c as int].alternatives.len(),
                    docs.len() == a,
                    forall|ai: int|
                        0 <= ai < a ==> (#[trigger] docs@[ai])@ == spec_word_srt(
                            result.channels@[c as int].alternatives@[ai].words@,
                        ),
            {
                let alt: &Alternative = &result.channels[c].alternatives[a];
                let doc = word_cues(&alt.words);
                let text = document_to_srt(&doc);
                proof {
                    lemma_word_document_srt(doc.cues@, alt.words@);
                }
                docs.push(text);
            }
            channels.push(docs);
        }
        BeastCaptions { channels }
    }
}

} // verus!
