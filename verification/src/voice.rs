//! The request the API sends to the speech service.
use vstd::prelude::*;
use crate::text::{join, join_strings, owned};
use crate::text_enum::strings_view;

verus! {

/// A reference recording and its transcript.
#[derive(Debug, Clone, Default)]
pub struct ServeReferenceAudio {
    pub audio: Vec<u8>,
    pub text: String,
}

/// The audio formats the API asks for.
#[derive(Debug, Clone, Copy, PartialEq, Eq, Structural)]
pub enum AudioFormat {
    Wav,
    Pcm,
    Mp3,
}

impl Default for AudioFormat {
    /// MP3.
    fn default() -> (r: Self)
        ensures
            r == AudioFormat::Mp3,
    {
        AudioFormat::Mp3
    }
}

/// The latency modes the API asks for.
#[derive(Debug, Clone, Copy, PartialEq, Eq, Structural)]
pub enum Latency {
    Normal,
    Balanced,
}

impl Default for Latency {
    /// Normal latency.
    fn default() -> (r: Self)
        ensures
            r == Latency::Normal,
    {
        Latency::Normal
    }
}

/// A speech request.
#[derive(Debug, Clone)]
pub struct TTSRequest {
    pub text: String,
    pub chunk_length: i32,
    pub format: AudioFormat,
    pub mp3_bitrate: i32,
    pub references: Vec<ServeReferenceAudio>,
    pub reference_id: Option<String>,
    pub normalize: bool,
    pub latency: Latency,
}

impl TTSRequest {
    /// The request for `text` in the voice `reference_id`: chunks of 280,
    /// normalized MP3 at 128 kbit/s, normal latency, no reference recordings.
    pub fn for_text(text: &str, reference_id: String) -> (r: Self)
        ensures
            r.text@ == text@,
            r.reference_id == Some(reference_id),
            r.chunk_length == 280,
            r.format == AudioFormat::Mp3,
            r.mp3_bitrate == 128,
            r.references@.len() == 0,
            r.normalize,
            r.latency == Latency::Normal,
    {
        TTSRequest {
            text: owned(text),
            reference_id: Some(reference_id),
            chunk_length: 280,
            format: AudioFormat::Mp3,
            mp3_bitrate: 128,
            references: Vec::new(),
            normalize: true,
            latency: Latency::Normal,
        }
    }
}

/// The chat lines of a reply that are spoken: the text of each chat message
/// (`None` stands for a message of another kind), skipping empty ones.
pub open spec fn spoken_lines(messages: Seq<Option<String>>) -> Seq<Seq<char>>
    decreases messages.len(),
{
    if messages.len() == 0 {
        Seq::empty()
    } else {
        let prev = spoken_lines(messages.drop_last());
        match messages.last() {
            Some(t) => if t@.len() > 0 { prev.push(t@) } else { prev },
            None => prev,
        }
    }
}

/// The text spoken for a reply: its non-empty chat lines, one per line.
pub fn speech_text(messages: &Vec<Option<String>>) -> (r: String)
    ensures
        r@ == join(spoken_lines(messages@), "\n"@),
{
    let mut lines: Vec<String> = Vec::new();
    let mut i: usize = 0;
    while i < messages.len()
        invariant
            i <= messages@.len(),
            strings_view(lines@) == spoken_lines(messages@.take(i as int)),
        decreases messages@.len() - i,
    {
        assert(messages@.take(i + 1).drop_last() =~= messages@.take(i as int));
        let ghost l0 = strings_view(lines@);
        match &messages[i] {
            Some(t) => {
                if !t.as_str().is_empty() {
                    lines.push(t.clone());
                    assert(strings_view(lines@) =~= l0.push(t@));
                }
            },
            None => {},
        }
        i = i + 1;
    }
    assert(messages@.take(messages@.len() as int) =~= messages@);
    assert(lines@.map_values(|p: String| p@) =~= strings_view(lines@));
    join_strings(&lines, "\n")
}

/// The speech model asked for: the configured one, else `speech-1.5`.
pub fn tts_model(model_name: Option<String>) -> (r: String)
    ensures
        r@ == match model_name { Some(m) => m@, None => "speech-1.5"@ },
{
    match model_name {
        Some(m) => m,
        None => owned("speech-1.5"),
    }
}

} // verus!
