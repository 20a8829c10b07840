use metastable::voice::{speech_text, tts_model, AudioFormat, Latency, ServeReferenceAudio, TTSRequest};

#[test]
fn speech_request_defaults() {
    let r = TTSRequest::for_text("hello", "voice-1".to_string());
    assert_eq!(r.text, "hello");
    assert_eq!(r.reference_id, Some("voice-1".to_string()));
    assert_eq!(r.chunk_length, 280);
    assert_eq!(r.format, AudioFormat::Mp3);
    assert_eq!(r.mp3_bitrate, 128);
    assert!(r.references.is_empty());
    assert!(r.normalize);
    assert_eq!(r.latency, Latency::Normal);
    assert_eq!(AudioFormat::default(), AudioFormat::Mp3);
    assert_eq!(Latency::default(), Latency::Normal);
    let reference = ServeReferenceAudio::default();
    assert!(reference.audio.is_empty() && reference.text.is_empty());
}

#[test]
fn spoken_reply_text() {
    let msgs = vec![Some("hello".to_string()), None, Some(String::new()), Some("bye".to_string())];
    assert_eq!(speech_text(&msgs), "hello\nbye");
    assert_eq!(speech_text(&vec![]), "");
    assert_eq!(speech_text(&vec![None]), "");
    assert_eq!(tts_model(None), "speech-1.5");
    assert_eq!(tts_model(Some("s2".to_string())), "s2");
}
