use lamarck::beast_captions::word_cues;
use lamarck::beast_captions::BeastCaptions;
use lamarck::naming::file_suffix;
use lamarck::srt::document_to_srt;
use lamarck::srt::utterance_cues;
use lamarck::srt::Srt;
use lamarck::transcript::Alternative;
use lamarck::transcript::Channel;
use lamarck::transcript::TranscriptionResult;
use lamarck::transcript::Utterance;
use lamarck::transcript::Word;

/// Truncate a floating-point seconds offset to whole milliseconds, the way
/// the surrounding program feeds provider timestamps to the library.
fn ms(seconds: f64) -> u64 {
    (seconds * 1000.0).floor() as u64
}

fn word(text: &str, start: f64, end: f64) -> Word {
    Word { text: text.to_string(), start_ms: ms(start), end_ms: ms(end) }
}

fn utterance(text: &str, start: f64, end: f64) -> Utterance {
    Utterance { text: text.to_string(), start_ms: ms(start), end_ms: ms(end) }
}

fn alternative(words: Vec<Word>, utterances: Vec<Utterance>) -> Alternative {
    Alternative { transcript: String::new(), words, utterances }
}

#[test]
fn word_cue_example() {
    let words = vec![word("Hi", 0.0, 0.3), word("there", 0.3, 0.8)];
    let doc = word_cues(&words);
    assert_eq!(doc.cues.len(), 2);
    assert_eq!(doc.cues[0].index, 1);
    assert_eq!(doc.cues[0].start_ms, 0);
    assert_eq!(doc.cues[0].end_ms, 300);
    assert_eq!(doc.cues[0].text, "Hi");
    assert_eq!(doc.cues[1].index, 2);
    assert_eq!(doc.cues[1].start_ms, 300);
    assert_eq!(doc.cues[1].end_ms, 800);
    assert_eq!(doc.cues[1].text, "there");
    assert_eq!(
        document_to_srt(&doc),
        "1\n00:00:00,000 --> 00:00:00,300\nHi\n\n2\n00:00:00,300 --> 00:00:00,800\nthere\n\n"
    );
}

#[test]
fn utterance_cue_example() {
    let utterances = vec![utterance("Hi there.", 0.0, 0.8)];
    let doc = utterance_cues(&utterances);
    assert_eq!(doc.cues.len(), 1);
    assert_eq!(doc.cues[0].index, 1);
    assert_eq!(doc.cues[0].start_ms, 0);
    assert_eq!(doc.cues[0].end_ms, 800);
    assert_eq!(doc.cues[0].text, "Hi there.");
    assert_eq!(document_to_srt(&doc), "1\n00:00:00,000 --> 00:00:00,800\nHi there.\n\n");
}

#[test]
fn empty_inputs_yield_empty_documents() {
    let no_utterances: Vec<Utterance> = Vec::new();
    let doc = utterance_cues(&no_utterances);
    assert_eq!(doc.cues.len(), 0);
    assert_eq!(document_to_srt(&doc), "");

    let no_words: Vec<Word> = Vec::new();
    let doc = word_cues(&no_words);
    assert_eq!(doc.cues.len(), 0);
    assert_eq!(document_to_srt(&doc), "");
}

#[test]
fn cue_indices_are_contiguous_from_one() {
    let utterances = vec![
        utterance("One.", 0.0, 1.0),
        utterance("Two.", 1.0, 2.0),
        utterance("Three.", 2.0, 3.0),
    ];
    let doc = utterance_cues(&utterances);
    assert_eq!(doc.cues.len(), 3);
    for (position, cue) in doc.cues.iter().enumerate() {
        assert_eq!(cue.index, position as u64 + 1);
    }

    let words = vec![word("a", 0.0, 0.1), word("b", 0.1, 0.2), word("c", 0.2, 0.3)];
    let doc = word_cues(&words);
    assert_eq!(doc.cues.len(), 3);
    for (position, cue) in doc.cues.iter().enumerate() {
        assert_eq!(cue.index, position as u64 + 1);
    }
}

#[test]
fn ordering_follows_the_source_even_with_overlaps() {
    let utterances = vec![
        utterance("First.", 0.0, 5.0),
        utterance("Second.", 0.5, 4.0),
        utterance("Third.", 0.5, 6.0),
    ];
    let doc = utterance_cues(&utterances);
    assert_eq!(doc.cues[0].text, "First.");
    assert_eq!(doc.cues[1].text, "Second.");
    assert_eq!(doc.cues[2].text, "Third.");
    assert_eq!(doc.cues[0].index, 1);
    assert_eq!(doc.cues[1].index, 2);
    assert_eq!(doc.cues[2].index, 3);
}

fn two_by_two_result() -> TranscriptionResult {
    let mut channels = Vec::new();
    for c in 0..2u64 {
        let mut alternatives = Vec::new();
        for a in 0..2u64 {
            let tag = format!("c{c}a{a}");
            let words = vec![word(&format!("w-{tag}"), 0.0, 0.5)];
            let utterances = vec![utterance(&format!("u-{tag}"), 0.0, 0.5)];
            alternatives.push(alternative(words, utterances));
        }
        channels.push(Channel { alternatives });
    }
    TranscriptionResult { channels }
}

#[test]
fn two_channels_two_alternatives_make_four_independent_documents() {
    let result = two_by_two_result();

    let mut srt = Srt::from_result(&result);
    assert_eq!(srt.channels.len(), 2);
    assert_eq!(srt.channels[0].len(), 2);
    assert_eq!(srt.channels[1].len(), 2);
    for c in 0..2usize {
        for a in 0..2usize {
            let expected = format!("1\n00:00:00,000 --> 00:00:00,500\nu-c{c}a{a}\n\n");
            assert_eq!(srt.channels[c][a], expected);
        }
    }
    srt.channels[0][0].clear();
    assert_eq!(srt.channels[0][1], "1\n00:00:00,000 --> 00:00:00,500\nu-c0a1\n\n");
    assert_eq!(srt.channels[1][0], "1\n00:00:00,000 --> 00:00:00,500\nu-c1a0\n\n");
    assert_eq!(srt.channels[1][1], "1\n00:00:00,000 --> 00:00:00,500\nu-c1a1\n\n");

    let mut captions = BeastCaptions::from_result(&result);
    assert_eq!(captions.channels.len(), 2);
    assert_eq!(captions.channels[0].len(), 2);
    assert_eq!(captions.channels[1].len(), 2);
    for c in 0..2usize {
        for a in 0..2usize {
            let expected = format!("1\n00:00:00,000 --> 00:00:00,500\nw-c{c}a{a}\n\n");
            assert_eq!(captions.channels[c][a], expected);
        }
    }
    captions.channels[1][1].clear();
    assert_eq!(captions.channels[0][0], "1\n00:00:00,000 --> 00:00:00,500\nw-c0a0\n\n");
}

#[test]
fn renderers_read_their_own_segmentation_only() {
    let words = vec![word("Hi", 0.0, 0.3), word("there", 0.3, 0.8)];
    let utterances = vec![utterance("Hi there.", 0.0, 0.8)];
    let result = TranscriptionResult {
        channels: vec![Channel { alternatives: vec![alternative(words, utterances)] }],
    };
    let srt = Srt::from_result(&result);
    assert_eq!(srt.channels[0][0], "1\n00:00:00,000 --> 00:00:00,800\nHi there.\n\n");
    let captions = BeastCaptions::from_result(&result);
    assert_eq!(
        captions.channels[0][0],
        "1\n00:00:00,000 --> 00:00:00,300\nHi\n\n2\n00:00:00,300 --> 00:00:00,800\nthere\n\n"
    );
}

#[test]
fn file_suffix_names_channel_and_alternative() {
    assert_eq!(file_suffix(0, 0, false), "-channel-0-alternative-0.srt");
    assert_eq!(file_suffix(1, 2, false), "-channel-1-alternative-2.srt");
    assert_eq!(file_suffix(0, 1, true), "-channel-0-alternative-1-beast.srt");
    assert_eq!(file_suffix(12, 34, true), "-channel-12-alternative-34-beast.srt");
}
