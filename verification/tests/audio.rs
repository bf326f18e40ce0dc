use ts3_ai_bot::audio::{
    assemble_tts_pcm, music_tick, needs_resolver, pcm_from_le_bytes, resolved_link, split_long_segment_by_words,
    split_tts_segments, voice_for_language, voice_model_path, AudioState, TTS_LEAD_IN_SAMPLES,
    TTS_MAX_SEGMENT_CHARS, TTS_SEGMENT_PAUSE_SAMPLES,
};

#[test]
fn splits_on_paragraphs_and_sentences() {
    let input = "Okay, here is a joke for you!\n\nWhy do programmers prefer dark mode?\n\nBecause light attracts bugs!";
    let parts = split_tts_segments(input);
    assert!(parts.len() >= 2);
    assert!(parts.iter().any(|p| p.contains("Okay, here is a joke for you!")));
    assert!(parts.iter().any(|p| p.contains("Why do programmers prefer dark mode?")));
    assert!(parts.iter().any(|p| p.contains("Because light attracts bugs!")));
}

#[test]
fn splits_long_text_to_safe_lengths() {
    let input = "word ".repeat(TTS_MAX_SEGMENT_CHARS + 120);
    let parts = split_tts_segments(&input);
    assert!(parts.len() >= 2);
    assert!(parts.iter().all(|p| p.len() <= TTS_MAX_SEGMENT_CHARS));
}

#[test]
fn trims_and_ignores_empty_input() {
    assert!(split_tts_segments(" \n\n \n").is_empty());
}

#[test]
fn sentences_of_a_paragraph_are_packed_together() {
    let parts = split_tts_segments("Hi there.  How are you?\r\n\r\nFine!");
    assert_eq!(parts, vec!["Hi there. How are you?".to_string(), "Fine!".to_string()]);
}

#[test]
fn overlong_word_stands_alone() {
    let long = "x".repeat(300);
    let text = format!("short {} tail", long);
    let parts = split_tts_segments(&text);
    assert_eq!(parts, vec!["short".to_string(), long.clone(), "tail".to_string()]);
}

#[test]
fn long_segment_split_by_words() {
    assert_eq!(
        split_long_segment_by_words("aa bb cc dd", 5),
        vec!["aa bb".to_string(), "cc dd".to_string()]
    );
    assert_eq!(split_long_segment_by_words("  ", 5), Vec::<String>::new());
    assert_eq!(
        split_long_segment_by_words("toolongword x", 5),
        vec!["toolongword".to_string(), "x".to_string()]
    );
}

#[test]
fn model_path_drops_trailing_slashes() {
    assert_eq!(voice_model_path("/voices//", "en_US.onnx"), "/voices/en_US.onnx");
    assert_eq!(voice_model_path("voices", "a.onnx"), "voices/a.onnx");
}

#[test]
fn voices_follow_language() {
    assert_eq!(voice_for_language("spa", "/v"), ("/v/es_ES.onnx".to_string(), Some("1".to_string())));
    assert_eq!(voice_for_language("srp", "/v"), ("/v/sl_SI.onnx".to_string(), None));
    assert_eq!(voice_for_language("deu", "/v/"), ("/v/de_DE.onnx".to_string(), None));
    assert_eq!(voice_for_language("jpn", "/v"), ("/v/en_US.onnx".to_string(), None));
}

#[test]
fn detected_language_picks_voice() {
    let (code, path, speaker) = ts3_ai_bot::audio::piper_voice_for_text(
        "Dies ist ein deutscher Satz, der eindeutig in deutscher Sprache geschrieben wurde.",
        "/v",
    );
    assert_eq!(code, "deu");
    assert_eq!(path, "/v/de_DE.onnx");
    assert_eq!(speaker, None);
}

#[test]
fn resolver_hosts_are_recognised() {
    assert!(needs_resolver("https://www.youtube.com/watch?v=x"));
    assert!(needs_resolver("https://youtu.be/x"));
    assert!(!needs_resolver("http://radio.example.com/stream.mp3"));
}

#[test]
fn pcm_samples_are_little_endian() {
    assert_eq!(pcm_from_le_bytes(&[0x01, 0x00, 0xff, 0xff, 0x00, 0x80, 0x07]), vec![1i16, -1, -32768]);
}

#[test]
fn tts_stream_has_lead_in_and_pauses() {
    let out = assemble_tts_pcm(&vec![vec![5i16, 6], vec![7i16]]);
    assert_eq!(out.len(), TTS_LEAD_IN_SAMPLES + 2 + TTS_SEGMENT_PAUSE_SAMPLES + 1);
    assert_eq!(out[TTS_LEAD_IN_SAMPLES], 5);
    assert_eq!(out[out.len() - 1], 7);
    assert!(out[..TTS_LEAD_IN_SAMPLES].iter().all(|s| *s == 0));
}

#[test]
fn music_waits_for_prebuffer_and_ducking() {
    assert_eq!(music_tick(false, false, 100), (false, false));
    assert_eq!(music_tick(false, false, 48000), (true, true));
    assert_eq!(music_tick(true, true, 48000), (true, false));
    assert_eq!(music_tick(true, false, 500), (true, false));
}

#[test]
fn volume_and_ducking_state() {
    let mut s = AudioState::new();
    assert_eq!(ts3_ai_bot::audio::get_volume(&s), 100);
    ts3_ai_bot::audio::set_volume(&mut s, 40);
    ts3_ai_bot::audio::set_ducking(&mut s, true);
    assert_eq!(ts3_ai_bot::audio::get_volume(&s), 40);
    assert!(ts3_ai_bot::audio::is_ducking(&s));
}

#[test]
fn resolver_output_is_trimmed_to_one_link() {
    assert_eq!(resolved_link("  https://cdn.example/a.m4a\n").as_deref(), Some("https://cdn.example/a.m4a"));
    assert_eq!(resolved_link("\n \n"), None);
    assert_eq!(resolved_link(""), None);
}

#[test]
fn long_segments_keep_every_word() {
    let text = "  one two\tthree   supercalifragilistic four five six  ";
    let pieces = split_long_segment_by_words(text, 10);
    let rejoined: Vec<&str> = pieces.iter().flat_map(|p| p.split_whitespace()).collect();
    let original: Vec<&str> = text.split_whitespace().collect();
    assert_eq!(rejoined, original);
    assert_eq!(pieces, vec!["one two", "three", "supercalifragilistic", "four five", "six"]);
}
