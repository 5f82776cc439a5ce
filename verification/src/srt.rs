//! The utterance cue renderer and the shared SRT serialization: one cue per
//! utterance, then the textual SRT document form reused by both renderers.

use vstd::prelude::*;
use vstd::string::StringExecFns;
use crate::timecode::decimal_string;
use crate::timecode::format_timecode;
use crate::timecode::spec_decimal;
use crate::timecode::spec_timecode;
use crate::transcript::Alternative;
use crate::transcript::Cue;
use crate::transcript::Document;
use crate::transcript::TranscriptionResult;
use crate::transcript::Utterance;
use crate::transcript::cue_starts_non_decreasing;
use crate::transcript::document_indices_contiguous;

verus! {

/// The serialized form of one cue: the index on its own line, the timerange
/// `START --> END` on the next, the cue text, then a blank separator line.
pub open spec fn spec_cue_block(index: nat, start_ms: nat, end_ms: nat, text: Seq<char>) -> Seq<
    char,
> {
    spec_decimal(index) + seq!['\n'] + spec_timecode(start_ms) + seq![' ', '-', '-', '>', ' ']
        + spec_timecode(end_ms) + seq!['\n'] + text + seq!['\n', '\n']
}

/// The serialized form of the first `i` cues of a document, in order.
pub open spec fn spec_document_srt_prefix(cues: Seq<Cue>, i: int) -> Seq<char>
    decreases i,
{
    if i <= 0 {
        Seq::empty()
    } else {
        spec_document_srt_prefix(cues, i - 1) + spec_cue_block(
            cues[i - 1].index as nat,
            cues[i - 1].start_ms as nat,
            cues[i - 1].end_ms as nat,
            cues[i - 1].text@,
        )
    }
}

/// The serialized SRT form of a whole document.
pub open spec fn spec_document_srt(cues: Seq<Cue>) -> Seq<char> {
    spec_document_srt_prefix(cues, cues.len() as int)
}

/// The serialized form of one cue of `doc`.
fn cue_block(cue: &Cue) -> (res: String)
    ensures
        res@ == spec_cue_block(cue.index as nat, cue.start_ms as nat, cue.end_ms as nat, cue.text@),
{
    let mut res = decimal_string(cue.index);
    res.append("\n");
    let start = format_timecode(cue.start_ms);
    res.append(start.as_str());
    res.append(" --> ");
    let end = format_timecode(cue.end_ms);
    res.append(end.as_str());
    res.append("\n");
    res.append(cue.text.as_str());
    res.append("\n\n");
    proof {
        reveal_strlit("\n");
        reveal_strlit(" --> ");
        reveal_strlit("\n\n");
        assert(res@ =~= spec_cue_block(
            cue.index as nat,
            cue.start_ms as nat,
            cue.end_ms as nat,
            cue.text@,
        ));
    }
    res
}

/// Serializes a document to SRT text: for each cue in order, its index line,
/// its timerange line, its text, and a blank separator line.
pub fn document_to_srt(doc: &Document) -> (res: String)
    ensures
        res@ == spec_document_srt(doc.cues@),
{
    let mut res = String::new();
    let n = doc.cues.len();
    for i in 0..n
        invariant
            n == doc.cues.len(),
            res@ == spec_document_srt_prefix(doc.cues@, i as int),
    {
        let block = cue_block(&doc.cues[i]);
        res.append(block.as_str());
    }
    res
}

/// The cue at `position` (0-based) renders this utterance: a 1-based index
/// and the utterance's own span and text, verbatim.
pub open spec fn cue_matches_utterance(cue: Cue, position: int, utt: Utterance) -> bool {
    &&& cue.index == position + 1
    &&& cue.start_ms == utt.start_ms
    &&& cue.end_ms == utt.end_ms
    &&& cue.text@ == utt.text@
}

/// A document renders a run of utterances: one cue per utterance, in source
/// order, each cue matching the utterance at its own position.
pub open spec fn utterance_cues_match(cues: Seq<Cue>, utts: Seq<Utterance>) -> bool {
    &&& cues.len() == utts.len()
    &&& forall|i: int|
        0 <= i < utts.len() ==> cue_matches_utterance(#[trigger] cues[i], i, utts[i])
}

/// Renders one alternative's utterances: exactly one cue per utterance, in
/// order, indexed contiguously from 1. An empty run of utterances yields an
/// empty document, not an error.
pub fn utterance_cues(utterances: &Vec<Utterance>) -> (doc: Document)
    ensures
        utterance_cues_match(doc.cues@, utterances@),
{
    let mut cues: Vec<Cue> = Vec::new();
    let n = utterances.len();
    for i in 0..n
        invariant
            n == utterances.len(),
            cues.len() == i,
            forall|k: int|
                0 <= k < i ==> cue_matches_utterance(#[trigger] cues@[k], k, utterances@[k]),
    {
        let u = &utterances[i];
        cues.push(
            Cue {
                index: (i as u64) + 1,
                start_ms: u.start_ms,
                end_ms: u.end_ms,
                text: u.text.clone(),
            },
        );
    }
    Document { cues }
}

/// The serialized utterance document of the first `i` utterances.
pub open spec fn spec_utterance_srt_prefix(utts: Seq<Utterance>, i: int) -> Seq<char>
    decreases i,
{
    if i <= 0 {
        Seq::empty()
    } else {
        spec_utterance_srt_prefix(utts, i - 1) + spec_cue_block(
            i as nat,
            utts[i - 1].start_ms as nat,
            utts[i - 1].end_ms as nat,
            utts[i - 1].text@,
        )
    }
}

/// The full serialized SRT document for a run of utterances: the `k`-th
/// utterance becomes cue `k + 1` with the utterance's own span and text.
pub open spec fn spec_utterance_srt(utts: Seq<Utterance>) -> Seq<char> {
    spec_utterance_srt_prefix(utts, utts.len() as int)
}

proof fn lemma_utterance_srt_prefix(cues: Seq<Cue>, utts: Seq<Utterance>, i: int)
    requires
        utterance_cues_match(cues, utts),
        i <= utts.len(),
    ensures
        spec_document_srt_prefix(cues, i) == spec_utterance_srt_prefix(utts, i),
    decreases i,
{
    if i > 0 {
        lemma_utterance_srt_prefix(cues, utts, i - 1);
    }
}

/// Serialization agrees with rendering: a document that matches a run of
/// utterances serializes to exactly the utterance SRT form of that run.
pub proof fn lemma_utterance_document_srt(cues: Seq<Cue>, utts: Seq<Utterance>)
    requires
        utterance_cues_match(cues, utts),
    ensures
        spec_document_srt(cues) == spec_utterance_srt(utts),
{
    lemma_utterance_srt_prefix(cues, utts, utts.len() as int);
}

/// Cue index contiguity: a document rendered from `n` utterances has exactly
/// `n` cues, whose indices are `1..=n` in emission order.
pub proof fn lemma_utterance_cue_contiguity(cues: Seq<Cue>, utts: Seq<Utterance>)
    requires
        utterance_cues_match(cues, utts),
    ensures
        cues.len() == utts.len(),
        document_indices_contiguous(cues),
{
}

/// Order preservation: cues keep the source order, so when the source
/// utterances are non-decreasing in start time, the cue start times are too.
pub proof fn lemma_utterance_cue_order(cues: Seq<Cue>, utts: Seq<Utterance>)
    requires
        utterance_cues_match(cues, utts),
        forall|i: int, j: int|
            0 <= i <= j < utts.len() ==> (#[trigger] utts[i]).start_ms
                <= (#[trigger] utts[j]).start_ms,
    ensures
        cue_starts_non_decreasing(cues),
{
}

/// Empty-input idempotence: rendering an empty run of utterances yields a
/// document with zero cues, whose serialized form is the empty text.
pub proof fn lemma_empty_utterances(cues: Seq<Cue>)
    requires
        utterance_cues_match(cues, Seq::empty()),
    ensures
        cues.len() == 0,
        spec_document_srt(cues) == Seq::<char>::empty(),
{
}

/// The utterance-level SRT documents of a whole transcription result, one
/// serialized document per (channel, alternative) pair.
pub struct Srt {
    /// `channels[c][a]` is the serialized document of alternative `a` of
    /// channel `c` of the source result.
    pub channels: Vec<Vec<String>>,
}

impl Srt {
    /// Renders every (channel, alternative) pair of `result` independently:
    /// one serialized utterance document each, in source order.
    pub fn from_result(result: &TranscriptionResult) -> (srt: Srt)
        ensures
            srt.channels@.len() == result.channels@.len(),
            forall|c: int|
                0 <= c < result.channels@.len() ==> (#[trigger] srt.channels@[c])@.len()
                    == result.channels@[c].alternatives@.len(),
            forall|c: int, a: int|
                0 <= c < result.channels@.len() && 0 <= a
                    < result.channels@[c].alternatives@.len() ==> (#[trigger] srt.channels@[c]@[a])@
                    == spec_utterance_srt(result.channels@[c].alternatives@[a].utterances@),
    {
        let mut channels: Vec<Vec<String>> = Vec::new();
        let nc = result.channels.len();
        for c in 0..nc
            invariant
                nc == result.channels.len(),
                channels.len() == c,
                forall|ci: int|
                    0 <= ci < c ==> (#[trigger] channels@[ci])@.len()
                        == result.channels@[ci].alternatives@.len(),
                forall|ci: int, a: int|
                    0 <= ci < c && 0 <= a < result.channels@[ci].alternatives@.len() ==> (
                    #[trigger] channels@[ci]@[a])@ == spec_utterance_srt(
                        result.channels@[ci].alternatives@[a].utterances@,
                    ),
        {
            let mut docs: Vec<String> = Vec::new();
            let na = result.channels[c].alternatives.len();
            for a in 0..na
                invariant
                    nc == result.channels.len(),
                    c < nc,
                    na == result.channels@[c as int].alternatives.len(),
                    docs.len() == a,
                    forall|ai: int|
                        0 <= ai < a ==> (#[trigger] docs@[ai])@ == spec_utterance_srt(
                            result.channels@[c as int].alternatives@[ai].utterances@,
                        ),
            {
                let alt: &Alternative = &result.channels[c].alternatives[a];
                let doc = utterance_cues(&alt.utterances);
                let text = document_to_srt(&doc);
                proof {
                    lemma_utterance_document_srt(doc.cues@, alt.utterances@);
                }
                docs.push(text);
            }
            channels.push(docs);
        }
        Srt { channels }
    }
}

} // verus!
