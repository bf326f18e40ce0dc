//! Text-to-speech segmentation, voice selection, volume and ducking state,
//! and the sample handling around audio streaming.
use vstd::prelude::*;
use crate::actions::opt_view;
use crate::text::{
    all_ws, byte_len, byte_len_upto, char_seqs, chars_of, collapse_ws, collapse_ws_exec, extend_chars,
    is_ws, join, no_ws, replace_all, replace_all_exec, split_on, split_on_exec, split_words, str_contains,
    str_eq, string_of, string_views, trim, trim_chars, trim_end_char, trim_end_char_exec, trimmed_shape,
    words,
};

verus! {

/// Longest text, in UTF-8 bytes, handed to the speech synthesizer at once.
pub const TTS_MAX_SEGMENT_CHARS: usize = 240;

/// Samples per 20 ms frame at 48 kHz mono.
pub const FRAME_SIZE: usize = 960;

/// Silence between two synthesized segments (120 ms at 48 kHz).
pub const TTS_SEGMENT_PAUSE_SAMPLES: usize = 5760;

/// Silence before the first synthesized segment (50 ms at 48 kHz).
pub const TTS_LEAD_IN_SAMPLES: usize = 2400;

/// Samples buffered before music playback starts (one second).
pub const MUSIC_PREBUFFER_SAMPLES: usize = 48000;

/// Buffered music samples above which the oldest are dropped.
pub const MUSIC_BUFFER_CAP: usize = 30_000_000;

/// How many of the oldest samples are dropped when the cap is passed.
pub const MUSIC_BUFFER_DRAIN: usize = 5_000_000;

/// Paths and settings for speech synthesis and music playback.
#[derive(Debug, Clone)]
pub struct TtsConfig {
    pub piper_path: String,
    pub voice_dir: String,
    pub ffmpeg_path: String,
    pub yt_dlp_path: String,
    pub music_start_volume: u8,
}

// ---------------------------------------------------------------- volume and ducking

/// Playback volume in percent, and whether speech is playing so that music
/// must pause.
pub struct AudioState {
    pub volume: u8,
    pub ducking: bool,
}

impl AudioState {
    /// Full volume, no speech playing.
    pub fn new() -> (r: Self)
        ensures
            r.volume == 100,
            !r.ducking,
    {
        AudioState { volume: 100, ducking: false }
    }
}

pub fn set_volume(state: &mut AudioState, v: u8)
    ensures
        final(state).volume == v,
        final(state).ducking == old(state).ducking,
{
    state.volume = v;
}

pub fn get_volume(state: &AudioState) -> (r: u8)
    ensures
        r == state.volume,
{
    state.volume
}

pub fn set_ducking(state: &mut AudioState, active: bool)
    ensures
        final(state).ducking == active,
        final(state).volume == old(state).volume,
{
    state.ducking = active;
}

pub fn is_ducking(state: &AudioState) -> (r: bool)
    ensures
        r == state.ducking,
{
    state.ducking
}

/// The volume music starts at: the configured one, at most 100.
pub fn music_start_volume(config: &TtsConfig) -> (r: u8)
    ensures
        r == if config.music_start_volume <= 100 {
            config.music_start_volume
        } else {
            100
        },
{
    if config.music_start_volume <= 100 {
        config.music_start_volume
    } else {
        100
    }
}

// ---------------------------------------------------------------- voices

/// `voice_dir` without trailing slashes, a slash, then `filename`.
pub open spec fn model_path(voice_dir: Seq<char>, filename: Seq<char>) -> Seq<char> {
    trim_end_char(voice_dir, '/') + seq!['/'] + filename
}

pub fn voice_model_path(voice_dir: &str, filename: &str) -> (r: String)
    ensures
        r@ == model_path(voice_dir@, filename@),
{
    let dir = chars_of(voice_dir);
    let mut out = trim_end_char_exec(dir.as_slice(), '/');
    out.push('/');
    let f = chars_of(filename);
    extend_chars(&mut out, f.as_slice());
    string_of(out.as_slice())
}

/// The voice model file and speaker for an ISO 639-3 language code.
pub open spec fn voice_for(code: Seq<char>) -> (Seq<char>, Option<Seq<char>>) {
    if code == "tur"@ {
        ("tr_TR.onnx"@, None)
    } else if code == "deu"@ {
        ("de_DE.onnx"@, None)
    } else if code == "fra"@ {
        ("fr_FR.onnx"@, None)
    } else if code == "spa"@ {
        ("es_ES.onnx"@, Some("1"@))
    } else if code == "hrv"@ || code == "srp"@ || code == "slv"@ {
        ("sl_SI.onnx"@, None)
    } else {
        ("en_US.onnx"@, None)
    }
}

/// The model path and speaker used for a language code.
pub fn voice_for_language(code: &str, voice_dir: &str) -> (r: (String, Option<String>))
    ensures
        r.0@ == model_path(voice_dir@, voice_for(code@).0),
        opt_view(r.1) == voice_for(code@).1,
{
    let (file, speaker): (&str, Option<String>) = if str_eq(code, "tur") {
        ("tr_TR.onnx", None)
    } else if str_eq(code, "deu") {
        ("de_DE.onnx", None)
    } else if str_eq(code, "fra") {
        ("fr_FR.onnx", None)
    } else if str_eq(code, "spa") {
        ("es_ES.onnx", Some("1".to_string()))
    } else if str_eq(code, "hrv") || str_eq(code, "srp") || str_eq(code, "slv") {
        ("sl_SI.onnx", None)
    } else {
        ("en_US.onnx", None)
    };
    (voice_model_path(voice_dir, file), speaker)
}

/// ISO 639-3 code of the language that `whatlang::detect` finds in a text,
/// or none when it finds none.
pub uninterp spec fn detected_language(text: Seq<char>) -> Option<Seq<char>>;

/// `whatlang::detect`, reduced to the code of the language it detects.
#[verifier::external_body]
fn detect_language_code(text: &str) -> (r: Option<String>)
    ensures
        opt_view(r) == detected_language(text@),
{
    match whatlang::detect(text) {
        Some(info) => Some(info.lang().code().to_string()),
        None => None,
    }
}

/// The detected language, English when none is detected.
pub open spec fn language_or_english(d: Option<Seq<char>>) -> Seq<char> {
    match d {
        Some(c) => c,
        None => "eng"@,
    }
}

/// Language code, model path and speaker for speaking `text`.
pub fn piper_voice_for_text(text: &str, voice_dir: &str) -> (r: (String, String, Option<String>))
    ensures
        r.0@ == language_or_english(detected_language(text@)),
        r.1@ == model_path(voice_dir@, voice_for(r.0@).0),
        opt_view(r.2) == voice_for(r.0@).1,
{
    let code = match detect_language_code(text) {
        Some(c) => c,
        None => "eng".to_string(),
    };
    let (path, speaker) = voice_for_language(code.as_str(), voice_dir);
    (code, path, speaker)
}

// ---------------------------------------------------------------- streaming

/// Hosts whose links go through the resolver first.
pub open spec fn resolver_hosts() -> Seq<Seq<char>> {
    seq![
        "youtube.com"@,
        "youtu.be"@,
        "soundcloud.com"@,
        "twitch.tv"@,
        "vimeo.com"@,
        "dailymotion.com"@,
        "bandcamp.com"@,
        "spotify.com"@,
    ]
}

/// The direct link in what the link resolver printed: its trimmed output,
/// none when that is empty.
pub fn resolved_link(output: &str) -> (r: Option<String>)
    ensures
        opt_view(r) == if trim(output@).len() > 0 {
            Some(trim(output@))
        } else {
            None
        },
{
    let t = crate::text::trim_str(output);
    if crate::text::str_nonempty(t.as_str()) {
        Some(t)
    } else {
        None
    }
}

/// Whether a URL must be resolved to a direct audio link before playing.
pub fn needs_resolver(url: &str) -> (r: bool)
    ensures
        r == exists|i: int|
            0 <= i < resolver_hosts().len() && crate::text::contains(url@, #[trigger] resolver_hosts()[i]),
{
    let hosts: [&str; 8] = [
        "youtube.com",
        "youtu.be",
        "soundcloud.com",
        "twitch.tv",
        "vimeo.com",
        "dailymotion.com",
        "bandcamp.com",
        "spotify.com",
    ];
    let mut i: usize = 0;
    while i < 8
        invariant
            i <= 8,
            forall|k: int| 0 <= k < 8 ==> (#[trigger] hosts@[k])@ == resolver_hosts()[k],
            forall|k: int| 0 <= k < i ==> !crate::text::contains(url@, #[trigger] resolver_hosts()[k]),
        decreases 8 - i,
    {
        if str_contains(url, hosts[i]) {
            assert(crate::text::contains(url@, resolver_hosts()[i as int]));
            return true;
        }
        i = i + 1;
    }
    false
}

/// The value of a little-endian two-byte signed sample.
pub open spec fn le_sample(lo: u8, hi: u8) -> int {
    if hi < 128 {
        lo + 256 * hi
    } else {
        lo + 256 * hi - 65536
    }
}

/// Signed 16-bit little-endian samples from raw bytes; an odd last byte is ignored.
pub fn pcm_from_le_bytes(bytes: &[u8]) -> (r: Vec<i16>)
    ensures
        r@.len() == bytes@.len() / 2,
        forall|i: int| 0 <= i < r@.len() ==> r@[i] == le_sample(bytes@[2 * i], bytes@[2 * i + 1]),
{
    let mut out: Vec<i16> = Vec::new();
    let n = bytes.len() / 2;
    let mut i: usize = 0;
    assert(2 * n <= bytes@.len());
    assert(bytes@.len() == bytes.len());
    while i < n
        invariant
            bytes@.len() <= usize::MAX,
            n == bytes@.len() / 2,
            2 * n <= bytes@.len(),
            i <= n,
            out@.len() == i,
            forall|k: int| 0 <= k < i ==> out@[k] == le_sample(bytes@[2 * k], bytes@[2 * k + 1]),
        decreases n - i,
    {
        let lo = bytes[2 * i];
        let hi = bytes[2 * i + 1];
        let v: i32 = if hi < 128 {
            lo as i32 + 256 * hi as i32
        } else {
            lo as i32 + 256 * hi as i32 - 65536
        };
        out.push(v as i16);
        i = i + 1;
    }
    out
}

/// How many of the oldest buffered music samples to drop: none up to the cap,
/// a fixed amount above it.
pub fn music_buffer_drain(buffered: usize) -> (r: usize)
    ensures
        r == if buffered > MUSIC_BUFFER_CAP {
            MUSIC_BUFFER_DRAIN
        } else {
            0
        },
{
    if buffered > MUSIC_BUFFER_CAP {
        MUSIC_BUFFER_DRAIN
    } else {
        0
    }
}

/// What the music player does on one tick: whether playback has started
/// (pre-buffering done) after the tick, and whether a frame is sent.
pub open spec fn music_tick_spec(prebuffered: bool, ducking: bool, buffered: nat) -> (bool, bool) {
    if ducking {
        (prebuffered, false)
    } else if !prebuffered && buffered < MUSIC_PREBUFFER_SAMPLES {
        (false, false)
    } else {
        (true, buffered >= FRAME_SIZE)
    }
}

pub fn music_tick(prebuffered: bool, ducking: bool, buffered: usize) -> (r: (bool, bool))
    ensures
        r == music_tick_spec(prebuffered, ducking, buffered as nat),
{
    if ducking {
        (prebuffered, false)
    } else if !prebuffered && buffered < MUSIC_PREBUFFER_SAMPLES {
        (false, false)
    } else {
        (true, buffered >= FRAME_SIZE)
    }
}

/// `n` zero samples.
pub open spec fn silence(n: nat) -> Seq<i16> {
    Seq::new(n, |i: int| 0i16)
}

/// Synthesized segments as one stream: a short lead-in, then the segments
/// with a pause between each two.
pub open spec fn tts_stream(parts: Seq<Seq<i16>>) -> Seq<i16>
    decreases parts.len(),
{
    if parts.len() == 0 {
        silence(TTS_LEAD_IN_SAMPLES as nat)
    } else if parts.len() == 1 {
        silence(TTS_LEAD_IN_SAMPLES as nat) + parts[0]
    } else {
        tts_stream(parts.drop_last()) + silence(TTS_SEGMENT_PAUSE_SAMPLES as nat) + parts.last()
    }
}

fn push_silence(out: &mut Vec<i16>, n: usize)
    ensures
        final(out)@ == old(out)@ + silence(n as nat),
{
    let mut k: usize = 0;
    while k < n
        invariant
            k <= n,
            out@ == old(out)@ + silence(k as nat),
        decreases n - k,
    {
        out.push(0);
        k = k + 1;
        assert(out@ =~= old(out)@ + silence(k as nat));
    }
}

pub fn assemble_tts_pcm(parts: &Vec<Vec<i16>>) -> (r: Vec<i16>)
    ensures
        r@ == tts_stream(parts@.map_values(|p: Vec<i16>| p@)),
{
    let ghost views = parts@.map_values(|p: Vec<i16>| p@);
    let mut out: Vec<i16> = Vec::new();
    push_silence(&mut out, TTS_LEAD_IN_SAMPLES);
    assert(out@ =~= tts_stream(views.take(0)) + Seq::empty());
    let mut i: usize = 0;
    while i < parts.len()
        invariant
            i <= parts@.len(),
            views == parts@.map_values(|p: Vec<i16>| p@),
            out@ == tts_stream(views.take(i as int)),
        decreases parts@.len() - i,
    {
        assert(views.take(i + 1).drop_last() =~= views.take(i as int));
        if i > 0 {
            push_silence(&mut out, TTS_SEGMENT_PAUSE_SAMPLES);
        } else {
            assert(views.take(1)[0] == views[0]);
        }
        let ghost before = out@;
        let mut k: usize = 0;
        while k < parts[i].len()
            invariant
                i < parts@.len(),
                k <= parts@[i as int]@.len(),
                out@ == before + parts@[i as int]@.take(k as int),
            decreases parts@[i as int]@.len() - k,
        {
            out.push(parts[i][k]);
            k = k + 1;
            assert(out@ =~= before + parts@[i as int]@.take(k as int));
        }
        assert(parts@[i as int]@.take(k as int) =~= parts@[i as int]@);
        i = i + 1;
    }
    assert(views.take(i as int) =~= views);
    out
}

// ---------------------------------------------------------------- segmentation

/// `out` with `cur`, trimmed, added when `cur` is not empty.
pub open spec fn flush(out: Seq<Seq<char>>, cur: Seq<char>) -> Seq<Seq<char>> {
    if cur.len() == 0 {
        out
    } else {
        out.push(trim(cur))
    }
}

/// `out` with `cur`, trimmed, added when that leaves something.
pub open spec fn finish(out: Seq<Seq<char>>, cur: Seq<char>) -> Seq<Seq<char>> {
    if trim(cur).len() == 0 {
        out
    } else {
        out.push(trim(cur))
    }
}

/// `cur` followed by `w`, with a space between when `cur` is not empty.
pub open spec fn append_word(cur: Seq<char>, w: Seq<char>) -> Seq<char> {
    if cur.len() == 0 {
        w
    } else {
        cur + seq![' '] + w
    }
}

/// Greedy packing of words into pieces of at most `max` bytes: a word longer
/// than `max` becomes a piece of its own. Returns the finished pieces and
/// the piece being filled.
pub open spec fn pack_words(ws: Seq<Seq<char>>, max: nat) -> (Seq<Seq<char>>, Seq<char>)
    decreases ws.len(),
{
    if ws.len() == 0 {
        (Seq::empty(), Seq::empty())
    } else {
        let prev = pack_words(ws.drop_last(), max);
        let w = ws.last();
        if byte_len(w) > max {
            (flush(prev.0, prev.1).push(w), Seq::empty())
        } else if prev.1.len() > 0 && byte_len(prev.1) + 1 + byte_len(w) > max {
            (prev.0.push(trim(prev.1)), w)
        } else {
            (prev.0, append_word(prev.1, w))
        }
    }
}

/// The words of `text` packed into pieces of at most `max` bytes, except
/// that a longer word stands alone.
pub open spec fn split_long(text: Seq<char>, max: nat) -> Seq<Seq<char>> {
    let f = pack_words(words(text), max);
    finish(f.0, f.1)
}

pub open spec fn is_sentence_end(c: char) -> bool {
    c == '.' || c == '!' || c == '?'
}

/// Sentences found so far and the sentence in progress.
pub open spec fn sentences_fold(b: Seq<char>) -> (Seq<Seq<char>>, Seq<char>)
    decreases b.len(),
{
    if b.len() == 0 {
        (Seq::empty(), Seq::empty())
    } else {
        let prev = sentences_fold(b.drop_last());
        let cur = prev.1.push(b.last());
        if is_sentence_end(b.last()) {
            (finish(prev.0, cur), Seq::empty())
        } else {
            (prev.0, cur)
        }
    }
}

/// The trimmed sentences of `b`, each ending at `.`, `!` or `?` (the last
/// possibly without one); empty ones are left out.
pub open spec fn sentences(b: Seq<char>) -> Seq<Seq<char>> {
    let f = sentences_fold(b);
    finish(f.0, f.1)
}

/// The pieces of each sentence, in order.
pub open spec fn parts_of(sents: Seq<Seq<char>>, max: nat) -> Seq<Seq<char>>
    decreases sents.len(),
{
    if sents.len() == 0 {
        Seq::empty()
    } else {
        parts_of(sents.drop_last(), max) + split_long(sents.last(), max)
    }
}

/// Greedy packing of pieces, joined by spaces, into segments of at most
/// `max` bytes; empty pieces are skipped.
pub open spec fn pack_parts(parts: Seq<Seq<char>>, max: nat) -> (Seq<Seq<char>>, Seq<char>)
    decreases parts.len(),
{
    if parts.len() == 0 {
        (Seq::empty(), Seq::empty())
    } else {
        let prev = pack_parts(parts.drop_last(), max);
        let part = parts.last();
        if part.len() == 0 {
            prev
        } else if prev.1.len() > 0 && byte_len(prev.1) + 1 + byte_len(part) > max {
            (prev.0.push(trim(prev.1)), part)
        } else {
            (prev.0, append_word(prev.1, part))
        }
    }
}

/// The segments of one paragraph.
pub open spec fn block_segments(block: Seq<char>) -> Seq<Seq<char>> {
    let f = pack_parts(
        parts_of(sentences(block), TTS_MAX_SEGMENT_CHARS as nat),
        TTS_MAX_SEGMENT_CHARS as nat,
    );
    finish(f.0, f.1)
}

/// The paragraphs with their whitespace collapsed, empty ones left out.
pub open spec fn collapsed_blocks(pieces: Seq<Seq<char>>) -> Seq<Seq<char>>
    decreases pieces.len(),
{
    if pieces.len() == 0 {
        Seq::empty()
    } else {
        let prev = collapsed_blocks(pieces.drop_last());
        let b = collapse_ws(pieces.last());
        if b.len() == 0 {
            prev
        } else {
            prev.push(b)
        }
    }
}

/// The segments of each paragraph, in order.
pub open spec fn segments_of_blocks(blocks: Seq<Seq<char>>) -> Seq<Seq<char>>
    decreases blocks.len(),
{
    if blocks.len() == 0 {
        Seq::empty()
    } else {
        segments_of_blocks(blocks.drop_last()) + block_segments(blocks.last())
    }
}

/// `text` with CR LF line ends turned into LF.
pub open spec fn normalized_newlines(text: Seq<char>) -> Seq<char> {
    replace_all(text, seq!['\r', '\n'], seq!['\n'])
}

/// Speech segments of a text: paragraphs (split at blank lines) with their
/// whitespace collapsed, cut into sentences, packed greedily into segments
/// of at most `TTS_MAX_SEGMENT_CHARS` bytes; the whole text collapsed is the
/// fallback when that yields nothing.
pub open spec fn tts_segments(text: Seq<char>) -> Seq<Seq<char>> {
    let normalized = normalized_newlines(text);
    let compact = collapse_ws(normalized);
    let blocks0 = collapsed_blocks(split_on(normalized, seq!['\n', '\n']));
    let blocks = if blocks0.len() == 0 && compact.len() > 0 {
        seq![compact]
    } else {
        blocks0
    };
    let packed = segments_of_blocks(blocks);
    if packed.len() == 0 && compact.len() > 0 {
        seq![compact]
    } else {
        packed
    }
}

fn strings_of(v: &Vec<Vec<char>>) -> (r: Vec<String>)
    ensures
        string_views(r@) == char_seqs(v@),
{
    let mut out: Vec<String> = Vec::new();
    let mut i: usize = 0;
    while i < v.len()
        invariant
            i <= v@.len(),
            string_views(out@) == char_seqs(v@).take(i as int),
        decreases v@.len() - i,
    {
        let ghost prev = out@;
        let s = string_of(v[i].as_slice());
        out.push(s);
        assert(out@ == prev.push(s));
        assert(char_seqs(v@).take(i + 1) =~= char_seqs(v@).take(i as int).push(v@[i as int]@));
        assert(string_views(out@) =~= string_views(prev).push(s@));
        i = i + 1;
    }
    assert(char_seqs(v@).take(i as int) =~= char_seqs(v@));
    out
}

fn push_trimmed(out: &mut Vec<Vec<char>>, cur: &Vec<char>, when_nonempty: bool)
    ensures
        char_seqs(final(out)@) == if when_nonempty {
            finish(char_seqs(old(out)@), cur@)
        } else {
            char_seqs(old(out)@).push(trim(cur@))
        },
{
    let t = trim_chars(cur.as_slice());
    if !when_nonempty || t.len() > 0 {
        let ghost prev = char_seqs(out@);
        out.push(t);
        assert(char_seqs(out@) =~= prev.push(trim(cur@)));
    }
}

fn append_chars(cur: &mut Vec<char>, w: &Vec<char>)
    ensures
        final(cur)@ == append_word(old(cur)@, w@),
{
    if cur.len() > 0 {
        cur.push(' ');
    }
    extend_chars(cur, w.as_slice());
}

proof fn lemma_byte_len_joined(a: Seq<char>, b: Seq<char>)
    ensures
        byte_len(a + seq![' '] + b) == byte_len(a) + 1 + byte_len(b),
{
    crate::text::lemma_byte_len_concat(a, seq![' ']);
    crate::text::lemma_byte_len_concat(a + seq![' '], b);
    assert(seq![' '].drop_last() =~= Seq::<char>::empty());
    assert(byte_len(Seq::<char>::empty()) == 0);
    assert(byte_len(seq![' ']) == 1);
}

fn split_long_chars(text: &[char], max: usize) -> (r: Vec<Vec<char>>)
    ensures
        char_seqs(r@) == split_long(text@, max as nat),
{
    let ws = split_words(text);
    let mut out: Vec<Vec<char>> = Vec::new();
    let mut cur: Vec<char> = Vec::new();
    let mut cur_len: usize = 0;
    let mut j: usize = 0;
    while j < ws.len()
        invariant
            j <= ws@.len(),
            (char_seqs(out@), cur@) == pack_words(char_seqs(ws@).take(j as int), max as nat),
            cur_len == byte_len(cur@),
            cur_len <= max,
        decreases ws@.len() - j,
    {
        let ghost wsv = char_seqs(ws@);
        assert(wsv.take(j + 1).drop_last() =~= wsv.take(j as int));
        assert(wsv.take(j + 1).last() == ws@[j as int]@);
        let w = &ws[j];
        match byte_len_upto(w.as_slice(), max) {
            None => {
                if cur.len() > 0 {
                    push_trimmed(&mut out, &cur, false);
                }
                let ghost prev = char_seqs(out@);
                out.push(w.clone());
                assert(char_seqs(out@) =~= prev.push(w@));
                cur = Vec::new();
                cur_len = 0;
            },
            Some(n) => {
                let too_long = cur.len() > 0 && (cur_len >= max || n > max - cur_len - 1);
                if too_long {
                    push_trimmed(&mut out, &cur, false);
                    cur = w.clone();
                    cur_len = n;
                } else {
                    proof {
                        if cur@.len() > 0 {
                            lemma_byte_len_joined(cur@, w@);
                        }
                    }
                    if cur.len() > 0 {
                        cur_len = cur_len + 1 + n;
                    } else {
                        cur_len = n;
                    }
                    append_chars(&mut cur, w);
                }
            },
        }
        j = j + 1;
    }
    assert(char_seqs(ws@).take(j as int) =~= char_seqs(ws@));
    push_trimmed(&mut out, &cur, true);
    out
}

/// The words of `text` packed, space-separated, into pieces of at most
/// `max_chars` UTF-8 bytes; a longer word becomes a piece of its own.
pub fn split_long_segment_by_words(text: &str, max_chars: usize) -> (r: Vec<String>)
    ensures
        string_views(r@) == split_long(text@, max_chars as nat),
{
    let t = chars_of(text);
    let parts = split_long_chars(t.as_slice(), max_chars);
    strings_of(&parts)
}

fn sentences_exec(b: &[char]) -> (r: Vec<Vec<char>>)
    ensures
        char_seqs(r@) == sentences(b@),
{
    let mut out: Vec<Vec<char>> = Vec::new();
    let mut cur: Vec<char> = Vec::new();
    let mut i: usize = 0;
    while i < b.len()
        invariant
            i <= b@.len(),
            (char_seqs(out@), cur@) == sentences_fold(b@.take(i as int)),
        decreases b@.len() - i,
    {
        assert(b@.take(i + 1).drop_last() =~= b@.take(i as int));
        let c = b[i];
        cur.push(c);
        if c == '.' || c == '!' || c == '?' {
            push_trimmed(&mut out, &cur, true);
            cur = Vec::new();
        }
        i = i + 1;
    }
    assert(b@.take(i as int) =~= b@);
    push_trimmed(&mut out, &cur, true);
    out
}

fn block_segments_exec(block: &[char]) -> (r: Vec<Vec<char>>)
    ensures
        char_seqs(r@) == block_segments(block@),
{
    let max = TTS_MAX_SEGMENT_CHARS;
    let sents = sentences_exec(block);
    let mut parts: Vec<Vec<char>> = Vec::new();
    let mut k: usize = 0;
    while k < sents.len()
        invariant
            k <= sents@.len(),
            max == TTS_MAX_SEGMENT_CHARS,
            char_seqs(parts@) == parts_of(char_seqs(sents@).take(k as int), max as nat),
        decreases sents@.len() - k,
    {
        assert(char_seqs(sents@).take(k + 1).drop_last() =~= char_seqs(sents@).take(k as int));
        let mut more = split_long_chars(sents[k].as_slice(), max);
        let ghost pv = char_seqs(parts@);
        let ghost mv = char_seqs(more@);
        parts.append(&mut more);
        assert(char_seqs(parts@) =~= pv + mv);
        k = k + 1;
    }
    assert(char_seqs(sents@).take(k as int) =~= char_seqs(sents@));
    let mut out: Vec<Vec<char>> = Vec::new();
    let mut bp: Vec<char> = Vec::new();
    let mut bp_len: Option<usize> = Some(0);
    let mut j: usize = 0;
    while j < parts.len()
        invariant
            j <= parts@.len(),
            max == TTS_MAX_SEGMENT_CHARS,
            (char_seqs(out@), bp@) == pack_parts(char_seqs(parts@).take(j as int), max as nat),
            bp_len matches Some(b) ==> b == byte_len(bp@) && b <= max,
            bp_len is None ==> byte_len(bp@) > max,
        decreases parts@.len() - j,
    {
        let ghost pv = char_seqs(parts@);
        assert(pv.take(j + 1).drop_last() =~= pv.take(j as int));
        assert(pv.take(j + 1).last() == parts@[j as int]@);
        let part = &parts[j];
        if part.len() > 0 {
            let plen = byte_len_upto(part.as_slice(), max);
            let too_long = bp.len() > 0 && match (bp_len, plen) {
                (Some(b), Some(n)) => b >= max || n > max - b - 1,
                _ => true,
            };
            if too_long {
                push_trimmed(&mut out, &bp, false);
                bp = part.clone();
                bp_len = plen;
            } else {
                if bp.len() > 0 {
                    proof {
                        lemma_byte_len_joined(bp@, part@);
                    }
                    match (bp_len, plen) {
                        (Some(b), Some(n)) => {
                            bp_len = Some(b + 1 + n);
                        },
                        _ => {},
                    }
                } else {
                    bp_len = plen;
                }
                append_chars(&mut bp, part);
            }
        }
        j = j + 1;
    }
    assert(char_seqs(parts@).take(j as int) =~= char_seqs(parts@));
    push_trimmed(&mut out, &bp, true);
    out
}

/// Split text into segments for speech synthesis (see `tts_segments`).
pub fn split_tts_segments(text: &str) -> (r: Vec<String>)
    ensures
        string_views(r@) == tts_segments(text@),
{
    let t = chars_of(text);
    let crlf = vec!['\r', '\n'];
    let lf = vec!['\n'];
    let para = vec!['\n', '\n'];
    assert(crlf@ =~= seq!['\r', '\n']);
    assert(lf@ =~= seq!['\n']);
    assert(para@ =~= seq!['\n', '\n']);
    let normalized = replace_all_exec(t.as_slice(), crlf.as_slice(), lf.as_slice());
    let compact = collapse_ws_exec(normalized.as_slice());
    let pieces = split_on_exec(normalized.as_slice(), para.as_slice());
    let mut blocks: Vec<Vec<char>> = Vec::new();
    let mut i: usize = 0;
    while i < pieces.len()
        invariant
            i <= pieces@.len(),
            char_seqs(blocks@) == collapsed_blocks(char_seqs(pieces@).take(i as int)),
        decreases pieces@.len() - i,
    {
        assert(char_seqs(pieces@).take(i + 1).drop_last() =~= char_seqs(pieces@).take(i as int));
        let b = collapse_ws_exec(pieces[i].as_slice());
        if b.len() > 0 {
            let ghost prev = char_seqs(blocks@);
            blocks.push(b);
            assert(char_seqs(blocks@) =~= prev.push(b@));
        }
        i = i + 1;
    }
    assert(char_seqs(pieces@).take(i as int) =~= char_seqs(pieces@));
    if blocks.len() == 0 && compact.len() > 0 {
        blocks.push(compact.clone());
        assert(char_seqs(blocks@) =~= seq![compact@]);
    }
    let mut packed: Vec<Vec<char>> = Vec::new();
    let mut k: usize = 0;
    while k < blocks.len()
        invariant
            k <= blocks@.len(),
            char_seqs(packed@) == segments_of_blocks(char_seqs(blocks@).take(k as int)),
        decreases blocks@.len() - k,
    {
        assert(char_seqs(blocks@).take(k + 1).drop_last() =~= char_seqs(blocks@).take(k as int));
        let mut segs = block_segments_exec(blocks[k].as_slice());
        let ghost pv = char_seqs(packed@);
        let ghost sv = char_seqs(segs@);
        packed.append(&mut segs);
        assert(char_seqs(packed@) =~= pv + sv);
        k = k + 1;
    }
    assert(char_seqs(blocks@).take(k as int) =~= char_seqs(blocks@));
    if packed.len() == 0 && compact.len() > 0 {
        packed.push(compact);
        assert(char_seqs(packed@) =~= seq![compact@]);
    }
    strings_of(&packed)
}

// ---------------------------------------------------------------- segmentation laws

/// A piece of text ready to speak: trimmed, and either within `max` bytes
/// or a single unbroken word.
pub open spec fn good_piece(s: Seq<char>, max: nat) -> bool {
    trimmed_shape(s) && (byte_len(s) <= max || no_ws(s))
}

pub open spec fn all_good(ps: Seq<Seq<char>>, max: nat) -> bool {
    forall|i: int| 0 <= i < ps.len() ==> good_piece(#[trigger] ps[i], max)
}

proof fn lemma_append_word(cur: Seq<char>, w: Seq<char>)
    requires
        cur.len() == 0 || trimmed_shape(cur),
        trimmed_shape(w),
    ensures
        trimmed_shape(append_word(cur, w)),
        cur.len() > 0 ==> byte_len(append_word(cur, w)) == byte_len(cur) + 1 + byte_len(w),
{
    if cur.len() > 0 {
        lemma_byte_len_joined(cur, w);
        let j = cur + seq![' '] + w;
        assert(j[0] == cur[0]);
        assert(j.last() == w.last());
    }
}

proof fn lemma_word_is_good(w: Seq<char>, max: nat)
    requires
        w.len() > 0,
        no_ws(w),
    ensures
        good_piece(w, max),
{
    assert(!is_ws(w[0]));
    assert(!is_ws(w[w.len() - 1]));
}

proof fn lemma_all_good_push(ps: Seq<Seq<char>>, x: Seq<char>, max: nat)
    requires
        all_good(ps, max),
        good_piece(x, max),
    ensures
        all_good(ps.push(x), max),
{
    assert forall|i: int| 0 <= i < ps.push(x).len() implies good_piece(#[trigger] ps.push(x)[i], max) by {
        if i < ps.len() {
            assert(ps.push(x)[i] == ps[i]);
        }
    }
}

proof fn lemma_all_good_concat(a: Seq<Seq<char>>, b: Seq<Seq<char>>, max: nat)
    requires
        all_good(a, max),
        all_good(b, max),
    ensures
        all_good(a + b, max),
{
    assert forall|i: int| 0 <= i < (a + b).len() implies good_piece(#[trigger] (a + b)[i], max) by {
        if i < a.len() {
            assert((a + b)[i] == a[i]);
        } else {
            assert((a + b)[i] == b[i - a.len()]);
        }
    }
}

proof fn lemma_finish_good(out: Seq<Seq<char>>, cur: Seq<char>, max: nat)
    requires
        all_good(out, max),
        cur.len() == 0 || good_piece(cur, max),
    ensures
        all_good(finish(out, cur), max),
        finish(out, cur).len() >= out.len(),
        cur.len() > 0 ==> finish(out, cur).len() > 0,
{
    if cur.len() > 0 {
        crate::text::lemma_trim_of_trimmed(cur);
        lemma_all_good_push(out, cur, max);
    } else {
        crate::text::lemma_trim_shape(cur);
    }
}

proof fn lemma_pack_words(ws: Seq<Seq<char>>, max: nat)
    requires
        forall|i: int| 0 <= i < ws.len() ==> (#[trigger] ws[i]).len() > 0 && no_ws(ws[i]),
    ensures
        all_good(pack_words(ws, max).0, max),
        pack_words(ws, max).1.len() == 0 || (trimmed_shape(pack_words(ws, max).1) && byte_len(
            pack_words(ws, max).1,
        ) <= max),
        ws.len() > 0 ==> pack_words(ws, max).0.len() > 0 || pack_words(ws, max).1.len() > 0,
    decreases ws.len(),
{
    if ws.len() > 0 {
        let prev_ws = ws.drop_last();
        assert forall|i: int| 0 <= i < prev_ws.len() implies (#[trigger] prev_ws[i]).len() > 0 && no_ws(prev_ws[i]) by {
            assert(prev_ws[i] == ws[i]);
        }
        lemma_pack_words(prev_ws, max);
        let prev = pack_words(prev_ws, max);
        let w = ws.last();
        assert(w == ws[ws.len() - 1]);
        lemma_word_is_good(w, max);
        if prev.1.len() > 0 {
            crate::text::lemma_trim_of_trimmed(prev.1);
        }
        if byte_len(w) > max {
            if prev.1.len() > 0 {
                lemma_all_good_push(prev.0, prev.1, max);
            }
            lemma_all_good_push(flush(prev.0, prev.1), w, max);
        } else if prev.1.len() > 0 && byte_len(prev.1) + 1 + byte_len(w) > max {
            lemma_all_good_push(prev.0, prev.1, max);
        } else {
            lemma_append_word(prev.1, w);
        }
    }
}

/// Pieces of a sentence are ready to speak, and a sentence with some
/// non-whitespace gives at least one.
proof fn lemma_split_long(text: Seq<char>, max: nat)
    ensures
        all_good(split_long(text, max), max),
        !all_ws(text) ==> split_long(text, max).len() > 0,
{
    crate::text::lemma_words(text);
    lemma_pack_words(words(text), max);
    let f = pack_words(words(text), max);
    lemma_finish_good(f.0, f.1, max);
}

proof fn lemma_all_ws_push(s: Seq<char>, c: char)
    ensures
        all_ws(s.push(c)) <==> (all_ws(s) && is_ws(c)),
{
    if all_ws(s.push(c)) {
        assert(s.push(c)[s.len() as int] == c);
        assert forall|i: int| 0 <= i < s.len() implies is_ws(#[trigger] s[i]) by {
            assert(s.push(c)[i] == s[i]);
        }
    }
    if all_ws(s) && is_ws(c) {
        assert forall|i: int| 0 <= i < s.push(c).len() implies is_ws(#[trigger] s.push(c)[i]) by {
            if i < s.len() {
                assert(s.push(c)[i] == s[i]);
            }
        }
    }
}

proof fn lemma_finish_trimmed(out: Seq<Seq<char>>, cur: Seq<char>)
    requires
        forall|i: int| 0 <= i < out.len() ==> trimmed_shape(#[trigger] out[i]),
    ensures
        forall|i: int| 0 <= i < finish(out, cur).len() ==> trimmed_shape(#[trigger] finish(out, cur)[i]),
        finish(out, cur).len() >= out.len(),
        !all_ws(cur) ==> finish(out, cur).len() > 0,
{
    crate::text::lemma_trim_shape(cur);
    assert forall|i: int| 0 <= i < finish(out, cur).len() implies trimmed_shape(#[trigger] finish(out, cur)[i]) by {
        if i < out.len() {
            assert(finish(out, cur)[i] == out[i]);
        }
    }
}

proof fn lemma_sentences_fold(b: Seq<char>)
    ensures
        forall|i: int| 0 <= i < sentences_fold(b).0.len() ==> trimmed_shape(#[trigger] sentences_fold(b).0[i]),
        !all_ws(b) ==> sentences_fold(b).0.len() > 0 || !all_ws(sentences_fold(b).1),
    decreases b.len(),
{
    if b.len() > 0 {
        lemma_sentences_fold(b.drop_last());
        let prev = sentences_fold(b.drop_last());
        let cur = prev.1.push(b.last());
        lemma_all_ws_push(prev.1, b.last());
        assert(b.drop_last().push(b.last()) =~= b);
        lemma_all_ws_push(b.drop_last(), b.last());
        lemma_finish_trimmed(prev.0, cur);
    }
}

proof fn lemma_sentences(b: Seq<char>)
    ensures
        forall|i: int| 0 <= i < sentences(b).len() ==> trimmed_shape(#[trigger] sentences(b)[i]),
        !all_ws(b) ==> sentences(b).len() > 0,
{
    lemma_sentences_fold(b);
    let f = sentences_fold(b);
    lemma_finish_trimmed(f.0, f.1);
}

proof fn lemma_trimmed_not_all_ws(s: Seq<char>)
    requires
        trimmed_shape(s),
    ensures
        !all_ws(s),
{
    assert(!is_ws(s[0]));
}

proof fn lemma_parts_of(sents: Seq<Seq<char>>, max: nat)
    requires
        forall|i: int| 0 <= i < sents.len() ==> trimmed_shape(#[trigger] sents[i]),
    ensures
        all_good(parts_of(sents, max), max),
        sents.len() > 0 ==> parts_of(sents, max).len() > 0,
    decreases sents.len(),
{
    if sents.len() > 0 {
        let prev = sents.drop_last();
        assert forall|i: int| 0 <= i < prev.len() implies trimmed_shape(#[trigger] prev[i]) by {
            assert(prev[i] == sents[i]);
        }
        lemma_parts_of(prev, max);
        assert(trimmed_shape(sents[sents.len() - 1]));
        lemma_trimmed_not_all_ws(sents.last());
        lemma_split_long(sents.last(), max);
        lemma_all_good_concat(parts_of(prev, max), split_long(sents.last(), max), max);
    }
}

proof fn lemma_pack_parts(parts: Seq<Seq<char>>, max: nat)
    requires
        all_good(parts, max),
    ensures
        all_good(pack_parts(parts, max).0, max),
        pack_parts(parts, max).1.len() == 0 || good_piece(pack_parts(parts, max).1, max),
        parts.len() > 0 ==> pack_parts(parts, max).0.len() > 0 || pack_parts(parts, max).1.len() > 0,
    decreases parts.len(),
{
    if parts.len() > 0 {
        let prev_parts = parts.drop_last();
        assert forall|i: int| 0 <= i < prev_parts.len() implies good_piece(#[trigger] prev_parts[i], max) by {
            assert(prev_parts[i] == parts[i]);
        }
        lemma_pack_parts(prev_parts, max);
        let prev = pack_parts(prev_parts, max);
        let part = parts.last();
        assert(good_piece(parts[parts.len() - 1], max));
        if prev.1.len() > 0 {
            crate::text::lemma_trim_of_trimmed(prev.1);
        }
        if prev.1.len() > 0 && byte_len(prev.1) + 1 + byte_len(part) > max {
            lemma_all_good_push(prev.0, prev.1, max);
        } else {
            lemma_append_word(prev.1, part);
        }
    }
}

proof fn lemma_block_segments(block: Seq<char>)
    ensures
        all_good(block_segments(block), TTS_MAX_SEGMENT_CHARS as nat),
        !all_ws(block) ==> block_segments(block).len() > 0,
{
    let max = TTS_MAX_SEGMENT_CHARS as nat;
    lemma_sentences(block);
    lemma_parts_of(sentences(block), max);
    lemma_pack_parts(parts_of(sentences(block), max), max);
    let f = pack_parts(parts_of(sentences(block), max), max);
    lemma_finish_good(f.0, f.1, max);
}

proof fn lemma_collapsed_blocks(pieces: Seq<Seq<char>>)
    ensures
        forall|i: int| 0 <= i < collapsed_blocks(pieces).len() ==> trimmed_shape(
            #[trigger] collapsed_blocks(pieces)[i],
        ),
        (exists|k: int| 0 <= k < pieces.len() && !all_ws(#[trigger] pieces[k])) ==> collapsed_blocks(
            pieces,
        ).len() > 0,
        (forall|k: int| 0 <= k < pieces.len() ==> all_ws(#[trigger] pieces[k])) ==> collapsed_blocks(
            pieces,
        ).len() == 0,
    decreases pieces.len(),
{
    if pieces.len() > 0 {
        let prev = pieces.drop_last();
        lemma_collapsed_blocks(prev);
        let last = pieces.last();
        crate::text::lemma_collapse_ws(last);
        let cb = collapsed_blocks(pieces);
        assert forall|i: int| 0 <= i < cb.len() implies trimmed_shape(#[trigger] cb[i]) by {
            if i < collapsed_blocks(prev).len() {
                assert(cb[i] == collapsed_blocks(prev)[i]);
            }
        }
        if exists|k: int| 0 <= k < pieces.len() && !all_ws(#[trigger] pieces[k]) {
            let k = choose|k: int| 0 <= k < pieces.len() && !all_ws(#[trigger] pieces[k]);
            if k < pieces.len() - 1 {
                assert(prev[k] == pieces[k]);
            }
        }
        if forall|k: int| 0 <= k < pieces.len() ==> all_ws(#[trigger] pieces[k]) {
            assert forall|k: int| 0 <= k < prev.len() implies all_ws(#[trigger] prev[k]) by {
                assert(prev[k] == pieces[k]);
            }
            assert(all_ws(pieces[pieces.len() - 1]));
        }
    }
}

proof fn lemma_segments_of_blocks(blocks: Seq<Seq<char>>)
    requires
        forall|i: int| 0 <= i < blocks.len() ==> trimmed_shape(#[trigger] blocks[i]),
    ensures
        all_good(segments_of_blocks(blocks), TTS_MAX_SEGMENT_CHARS as nat),
        blocks.len() > 0 ==> segments_of_blocks(blocks).len() > 0,
    decreases blocks.len(),
{
    if blocks.len() > 0 {
        let prev = blocks.drop_last();
        assert forall|i: int| 0 <= i < prev.len() implies trimmed_shape(#[trigger] prev[i]) by {
            assert(prev[i] == blocks[i]);
        }
        lemma_segments_of_blocks(prev);
        assert(trimmed_shape(blocks[blocks.len() - 1]));
        lemma_trimmed_not_all_ws(blocks.last());
        lemma_block_segments(blocks.last());
        lemma_all_good_concat(
            segments_of_blocks(prev),
            block_segments(blocks.last()),
            TTS_MAX_SEGMENT_CHARS as nat,
        );
    }
}

proof fn lemma_normalized_ws(text: Seq<char>)
    ensures
        all_ws(normalized_newlines(text)) <==> all_ws(text),
{
    assert(is_ws('\r') && is_ws('\n'));
    let crlf = seq!['\r', '\n'];
    let lf = seq!['\n'];
    assert(all_ws(crlf)) by {
        assert forall|i: int| 0 <= i < 2 implies is_ws(#[trigger] crlf[i]) by {}
    }
    assert(all_ws(lf)) by {
        assert forall|i: int| 0 <= i < 1 implies is_ws(#[trigger] lf[i]) by {}
    }
    crate::text::lemma_replace_ws(text, seq!['\r', '\n'], seq!['\n'], 0);
    assert(text.skip(0) =~= text);
}

/// Every speech segment is trimmed and non-empty, and is at most
/// `TTS_MAX_SEGMENT_CHARS` bytes long unless it is a single word that is
/// longer than that on its own.
pub proof fn law_tts_segments_are_short(text: Seq<char>)
    ensures
        all_good(tts_segments(text), TTS_MAX_SEGMENT_CHARS as nat),
{
    let normalized = normalized_newlines(text);
    let para = seq!['\n', '\n'];
    assert(all_ws(para)) by {
        assert forall|i: int| 0 <= i < 2 implies is_ws(#[trigger] para[i]) by {}
    }
    crate::text::lemma_split_from_ws(normalized, para, 0);
    assert(normalized.skip(0) =~= normalized);
    crate::text::lemma_collapse_ws(normalized);
    let pieces = split_on(normalized, para);
    lemma_collapsed_blocks(pieces);
    let blocks0 = collapsed_blocks(pieces);
    lemma_segments_of_blocks(blocks0);
}

/// A text gives no speech segment exactly when it is all whitespace.
pub proof fn law_tts_segments_empty_iff_blank(text: Seq<char>)
    ensures
        tts_segments(text).len() == 0 <==> all_ws(text),
{
    let normalized = normalized_newlines(text);
    let para = seq!['\n', '\n'];
    assert(all_ws(para)) by {
        assert forall|i: int| 0 <= i < 2 implies is_ws(#[trigger] para[i]) by {}
    }
    lemma_normalized_ws(text);
    crate::text::lemma_split_from_ws(normalized, para, 0);
    assert(normalized.skip(0) =~= normalized);
    crate::text::lemma_collapse_ws(normalized);
    let pieces = split_on(normalized, para);
    lemma_collapsed_blocks(pieces);
    let blocks0 = collapsed_blocks(pieces);
    lemma_segments_of_blocks(blocks0);
}


/// The words of each piece, one piece after another.
pub open spec fn words_of_pieces(ps: Seq<Seq<char>>) -> Seq<Seq<char>>
    decreases ps.len(),
{
    if ps.len() == 0 {
        Seq::empty()
    } else {
        words_of_pieces(ps.drop_last()) + words(ps.last())
    }
}

proof fn lemma_words_of_pieces_push(ps: Seq<Seq<char>>, x: Seq<char>)
    ensures
        words_of_pieces(ps.push(x)) == words_of_pieces(ps) + words(x),
{
    assert(ps.push(x).drop_last() =~= ps);
}

proof fn lemma_words_of_empty()
    ensures
        words(Seq::<char>::empty()) == Seq::<Seq<char>>::empty(),
{
}

/// Packing loses no word: the pieces finished so far and the piece being
/// filled hold the words, in order.
proof fn lemma_pack_keeps_words(ws: Seq<Seq<char>>, max: nat)
    requires
        forall|i: int| 0 <= i < ws.len() ==> (#[trigger] ws[i]).len() > 0 && no_ws(ws[i]),
    ensures
        words_of_pieces(pack_words(ws, max).0) + words(pack_words(ws, max).1) == ws,
    decreases ws.len(),
{
    lemma_words_of_empty();
    if ws.len() == 0 {
        assert(Seq::<Seq<char>>::empty() + Seq::<Seq<char>>::empty() =~= ws);
    } else {
        let d = ws.drop_last();
        assert forall|i: int| 0 <= i < d.len() implies (#[trigger] d[i]).len() > 0 && no_ws(d[i]) by {
            assert(d[i] == ws[i]);
        }
        lemma_pack_keeps_words(d, max);
        lemma_pack_words(d, max);
        let prev = pack_words(d, max);
        let w = ws.last();
        assert(w == ws[ws.len() - 1]);
        crate::text::lemma_words_then_word(prev.1, w);
        if prev.1.len() > 0 {
            crate::text::lemma_trim_of_trimmed(prev.1);
        }
        let before = words_of_pieces(prev.0) + words(prev.1);
        assert(before == d);
        assert(d.push(w) =~= ws);
        if byte_len(w) > max {
            let f = flush(prev.0, prev.1);
            if prev.1.len() > 0 {
                lemma_words_of_pieces_push(prev.0, prev.1);
            } else {
                assert(words_of_pieces(prev.0) + words(prev.1) =~= words_of_pieces(prev.0));
            }
            assert(words_of_pieces(f) == before);
            lemma_words_of_pieces_push(f, w);
            assert(words_of_pieces(f.push(w)) + Seq::<Seq<char>>::empty() =~= before + seq![w]);
        } else if prev.1.len() > 0 && byte_len(prev.1) + 1 + byte_len(w) > max {
            lemma_words_of_pieces_push(prev.0, prev.1);
            assert(words_of_pieces(prev.0.push(prev.1)) + seq![w] =~= before.push(w));
        } else {
            if prev.1.len() == 0 {
                assert(append_word(prev.1, w) == w);
                assert(words(prev.1) =~= Seq::<Seq<char>>::empty());
                assert(words_of_pieces(prev.0) + seq![w] =~= before.push(w));
            } else {
                assert(append_word(prev.1, w) == prev.1 + seq![' '] + w);
                assert(words_of_pieces(prev.0) + words(prev.1).push(w) =~= before.push(w));
            }
        }
    }
}

/// Splitting a long segment keeps every word of it, in order: the words of
/// the pieces, one piece after another, are the words of the text.
pub proof fn law_split_keeps_words(text: Seq<char>, max: nat)
    ensures
        words_of_pieces(split_long(text, max)) == words(text),
{
    crate::text::lemma_words(text);
    let ws = words(text);
    lemma_pack_keeps_words(ws, max);
    lemma_pack_words(ws, max);
    let f = pack_words(ws, max);
    lemma_words_of_empty();
    if f.1.len() > 0 {
        crate::text::lemma_trim_of_trimmed(f.1);
        lemma_words_of_pieces_push(f.0, f.1);
    } else {
        crate::text::lemma_trim_shape(f.1);
        assert(words_of_pieces(f.0) + words(f.1) =~= words_of_pieces(f.0));
    }
}

} // verus!
