//! What the bot learns about a user from their messages: preferences kept
//! in a managed profile block and short notes in a managed notes block of
//! the user's profile file.
use vstd::prelude::*;
use crate::actions::opt_view;
use crate::prompts::{lemma_first_value_agreed, preferred_language, value_after};
use crate::text::{
    lemma_lines_have_no_newline, lemma_lines_of_join, lemma_lines_of_join_ended, lemma_trim_lead_space,
    lemma_trim_of_trimmed, lemma_trim_strip_cr, no_newline, trimmed_shape,
    char_seqs, chars_of, contains, ends_with, ends_with_exec, extend_chars, find, find_exec, first_contained,
    first_contained_exec, join, join_chars, lines, lines_exec, lowercase, slice_chars, split_words, starts_with,
    starts_with_exec, str_contains, str_eq, str_views, string_of, string_views, strip_class, strip_class_exec,
    strip_prefix_all, strip_prefix_all_exec, to_lowercase, trim, trim_chars, truncate, truncate_chars, words,
};
use crate::strmap::{sm_get, sm_insert, sm_remove, sorted, Entries, StrMap};

verus! {

/// Whose message it is: the owner's, or any other member's.
#[derive(Debug, Clone, Copy, PartialEq, Eq, Structural)]
pub enum TrustTier {
    Owner,
    Member,
}

pub open spec fn tier_text(t: TrustTier) -> Seq<char> {
    match t {
        TrustTier::Owner => "owner"@,
        TrustTier::Member => "member"@,
    }
}

impl TrustTier {
    pub fn as_str(self) -> (r: &'static str)
        ensures
            r@ == tier_text(self),
    {
        match self {
            TrustTier::Owner => "owner",
            TrustTier::Member => "member",
        }
    }
}

/// What one message changed: the profile fields set (as `key=value`),
/// whether a note was added, and why learning was refused, if it was.
pub struct LearningOutcome {
    pub applied_fields: Vec<String>,
    pub note_added: bool,
    pub blocked_reason: Option<String>,
}

pub open spec fn summary_parts(applied: Seq<Seq<char>>, note_added: bool) -> Seq<Seq<char>> {
    if note_added {
        applied.push("note_added=true"@)
    } else {
        applied
    }
}

/// The changes as one line: the fields set and the note flag, comma
/// separated, or `no_updates`.
pub open spec fn summary_text(applied: Seq<Seq<char>>, note_added: bool) -> Seq<char> {
    if summary_parts(applied, note_added).len() == 0 {
        "no_updates"@
    } else {
        join(summary_parts(applied, note_added), ", "@)
    }
}

impl LearningOutcome {
    /// Nothing changed, nothing refused.
    pub fn new() -> (r: Self)
        ensures
            r.applied_fields@.len() == 0,
            !r.note_added,
            r.blocked_reason is None,
    {
        LearningOutcome { applied_fields: Vec::new(), note_added: false, blocked_reason: None }
    }

    pub fn has_updates(&self) -> (r: bool)
        ensures
            r == (self.applied_fields@.len() > 0 || self.note_added),
    {
        self.applied_fields.len() > 0 || self.note_added
    }

    pub fn summary(&self) -> (r: String)
        ensures
            r@ == summary_text(string_views(self.applied_fields@), self.note_added),
    {
        let mut parts: Vec<String> = Vec::new();
        let mut i: usize = 0;
        while i < self.applied_fields.len()
            invariant
                i <= self.applied_fields@.len(),
                string_views(parts@) == string_views(self.applied_fields@).take(i as int),
            decreases self.applied_fields@.len() - i,
        {
            let ghost prev = parts@;
            let s = self.applied_fields[i].clone();
            parts.push(s);
            assert(parts@ == prev.push(s));
            assert(string_views(self.applied_fields@).take(i + 1) =~= string_views(
                self.applied_fields@,
            ).take(i as int).push(self.applied_fields@[i as int]@));
            assert(string_views(parts@) =~= string_views(prev).push(s@));
            i = i + 1;
        }
        assert(string_views(self.applied_fields@).take(i as int) =~= string_views(
            self.applied_fields@,
        ));
        if self.note_added {
            let ghost prev = parts@;
            let s = "note_added=true".to_string();
            parts.push(s);
            assert(string_views(parts@) =~= string_views(prev).push(s@));
        }
        if parts.len() == 0 {
            "no_updates".to_string()
        } else {
            crate::text::join_strings(&parts, ", ")
        }
    }
}

// ---------------------------------------------------------------- screening

/// Phrases that make the bot refuse to learn from a message.
pub open spec fn blocked_patterns() -> Seq<Seq<char>> {
    seq![
        "ignore previous instructions"@,
        "ignore all previous"@,
        "forget previous instructions"@,
        "bypass safety"@,
        "developer mode"@,
        "jailbreak"@,
        "print system prompt"@,
        "reveal system prompt"@,
        "show system prompt"@,
        "dump system prompt"@,
        "ignore safety rules"@,
    ]
}

/// Words that make a text count as being about TeamSpeak.
pub open spec fn ts_keywords() -> Seq<Seq<char>> {
    seq![
        "teamspeak"@,
        "ts3"@,
        "channel"@,
        "server"@,
        "group"@,
        "ticket"@,
        "tts"@,
        "mute"@,
        "kick"@,
        "ban"@,
        "move"@,
        "room"@,
        "$ask"@,
        "$ticket"@,
    ]
}

/// The words of `ws` with surrounding characters other than ASCII
/// alphanumerics, `$` and `_` removed; those left empty are dropped.
pub open spec fn tokens_of(ws: Seq<Seq<char>>) -> Seq<Seq<char>>
    decreases ws.len(),
{
    if ws.len() == 0 {
        Seq::empty()
    } else {
        let t = strip_class(ws.last(), 1);
        if t.len() == 0 {
            tokens_of(ws.drop_last())
        } else {
            tokens_of(ws.drop_last()).push(t)
        }
    }
}

/// A keyword hits: `$` keywords anywhere in the text, others as a whole token.
pub open spec fn keyword_hit(kw: Seq<char>, lower: Seq<char>, toks: Seq<Seq<char>>) -> bool {
    if kw.len() > 0 && kw[0] == '$' {
        contains(lower, kw)
    } else {
        toks.contains(kw)
    }
}

/// Whether a text is about TeamSpeak: one of `ts_keywords` hits in its lowercase form.
pub open spec fn is_ts_related(text: Seq<char>) -> bool {
    let lower = lowercase(text);
    exists|i: int| 0 <= i < ts_keywords().len() && keyword_hit(#[trigger] ts_keywords()[i], lower, tokens_of(words(lower)))
}

fn tokens_exec(text: &[char]) -> (r: Vec<Vec<char>>)
    ensures
        char_seqs(r@) == tokens_of(words(text@)),
{
    let ws = split_words(text);
    let mut out: Vec<Vec<char>> = Vec::new();
    let mut i: usize = 0;
    while i < ws.len()
        invariant
            i <= ws@.len(),
            char_seqs(out@) == tokens_of(char_seqs(ws@).take(i as int)),
        decreases ws@.len() - i,
    {
        assert(char_seqs(ws@).take(i + 1).drop_last() =~= char_seqs(ws@).take(i as int));
        let t = strip_class_exec(ws[i].as_slice(), 1);
        if t.len() > 0 {
            let ghost prev = char_seqs(out@);
            out.push(t);
            assert(char_seqs(out@) =~= prev.push(t@));
        }
        i = i + 1;
    }
    assert(char_seqs(ws@).take(i as int) =~= char_seqs(ws@));
    out
}

fn has_token(toks: &Vec<Vec<char>>, kw: &str) -> (r: bool)
    ensures
        r == char_seqs(toks@).contains(kw@),
{
    let k = chars_of(kw);
    let mut i: usize = 0;
    while i < toks.len()
        invariant
            i <= toks@.len(),
            k@ == kw@,
            forall|j: int| 0 <= j < i ==> char_seqs(toks@)[j] != kw@,
        decreases toks@.len() - i,
    {
        let s = string_of(toks[i].as_slice());
        if str_eq(s.as_str(), kw) {
            assert(char_seqs(toks@)[i as int] == kw@);
            return true;
        }
        i = i + 1;
    }
    false
}

/// Whether a text is about TeamSpeak (see `is_ts_related`).
pub fn is_teamspeak_related(text: &str) -> (r: bool)
    ensures
        r == is_ts_related(text@),
{
    let lower = to_lowercase(text);
    let lc = chars_of(lower.as_str());
    let toks = tokens_exec(lc.as_slice());
    let kws: [&str; 14] = [
        "teamspeak",
        "ts3",
        "channel",
        "server",
        "group",
        "ticket",
        "tts",
        "mute",
        "kick",
        "ban",
        "move",
        "room",
        "$ask",
        "$ticket",
    ];
    let mut i: usize = 0;
    while i < 14
        invariant
            i <= 14,
            lower@ == lowercase(text@),
            char_seqs(toks@) == tokens_of(words(lower@)),
            forall|k: int| 0 <= k < 14 ==> (#[trigger] kws@[k])@ == ts_keywords()[k],
            forall|k: int| 0 <= k < i ==> !keyword_hit(#[trigger] ts_keywords()[k], lower@, tokens_of(words(lower@))),
        decreases 14 - i,
    {
        let kwc = chars_of(kws[i]);
        let hit = if kwc.len() > 0 && kwc[0] == '$' {
            str_contains(lower.as_str(), kws[i])
        } else {
            has_token(&toks, kws[i])
        };
        assert(hit == keyword_hit(ts_keywords()[i as int], lower@, tokens_of(words(lower@))));
        if hit {
            return true;
        }
        i = i + 1;
    }
    false
}

/// The first blocked phrase the lowercased message contains.
pub fn blocked_pattern(lower: &str) -> (r: Option<&'static str>)
    ensures
        r matches Some(p) ==> first_contained(lower@, blocked_patterns()) matches Some(i) && p@
            == blocked_patterns()[i],
        r is None ==> first_contained(lower@, blocked_patterns()) is None,
{
    let pats: [&'static str; 11] = [
        "ignore previous instructions",
        "ignore all previous",
        "forget previous instructions",
        "bypass safety",
        "developer mode",
        "jailbreak",
        "print system prompt",
        "reveal system prompt",
        "show system prompt",
        "dump system prompt",
        "ignore safety rules",
    ];
    assert(str_views(pats@) =~= blocked_patterns());
    proof {
        crate::text::lemma_first_contained(lower@, blocked_patterns());
    }
    match first_contained_exec(lower, &pats) {
        Some(i) => Some(pats[i]),
        None => None,
    }
}

// ---------------------------------------------------------------- preferences

pub open spec fn language_hints(language: Seq<char>) -> Seq<Seq<char>> {
    if language == "english"@ {
        seq!["english"@, "in english"@]
    } else if language == "serbian"@ {
        seq!["serbian"@, "in serbian"@, "serbian language"@]
    } else {
        Seq::empty()
    }
}

pub open spec fn action_hints() -> Seq<Seq<char>> {
    seq!["reply"@, "speak"@, "talk"@, "language"@, "write"@]
}

pub open spec fn style_hints(style: Seq<char>) -> Seq<Seq<char>> {
    if style == "concise"@ {
        seq!["concise"@, "short answers"@, "short"@, "brief"@]
    } else if style == "detailed"@ {
        seq!["detailed"@, "explain"@, "longer"@, "in depth"@, "in-depth"@]
    } else {
        Seq::empty()
    }
}

/// Whether the message names `language` and asks how the bot should talk.
pub open spec fn prefers_language_spec(lower: Seq<char>, language: Seq<char>) -> bool {
    first_contained(lower, language_hints(language)) is Some && first_contained(lower, action_hints()) is Some
}

pub open spec fn prefers_style_spec(lower: Seq<char>, style: Seq<char>) -> bool {
    first_contained(lower, style_hints(style)) is Some
}

pub fn prefers_language(lower: &str, language: &str) -> (r: bool)
    ensures
        r == prefers_language_spec(lower@, language@),
{
    let lang_hit = if str_eq(language, "english") {
        let hints: [&str; 2] = ["english", "in english"];
        assert(str_views(hints@) =~= language_hints(language@));
        first_contained_exec(lower, &hints).is_some()
    } else if str_eq(language, "serbian") {
        let hints: [&str; 3] = ["serbian", "in serbian", "serbian language"];
        assert(str_views(hints@) =~= language_hints(language@));
        first_contained_exec(lower, &hints).is_some()
    } else {
        let hints: [&str; 0] = [];
        assert(str_views(hints@) =~= language_hints(language@));
        first_contained_exec(lower, &hints).is_some()
    };
    let actions: [&str; 5] = ["reply", "speak", "talk", "language", "write"];
    assert(str_views(actions@) =~= action_hints());
    lang_hit && first_contained_exec(lower, &actions).is_some()
}

pub fn prefers_style(lower: &str, style: &str) -> (r: bool)
    ensures
        r == prefers_style_spec(lower@, style@),
{
    if str_eq(style, "concise") {
        let hints: [&str; 4] = ["concise", "short answers", "short", "brief"];
        assert(str_views(hints@) =~= style_hints(style@));
        first_contained_exec(lower, &hints).is_some()
    } else if str_eq(style, "detailed") {
        let hints: [&str; 5] = ["detailed", "explain", "longer", "in depth", "in-depth"];
        assert(str_views(hints@) =~= style_hints(style@));
        first_contained_exec(lower, &hints).is_some()
    } else {
        let hints: [&str; 0] = [];
        assert(str_views(hints@) =~= style_hints(style@));
        first_contained_exec(lower, &hints).is_some()
    }
}

/// The interaction mode a command sets, if any.
pub open spec fn interaction_mode_of(lower: Seq<char>) -> Option<Seq<char>> {
    if contains(lower, "$ticket"@) {
        Some("ticket_support"@)
    } else if contains(lower, "$tts"@) {
        Some("voice_chat"@)
    } else if contains(lower, "$ask"@) {
        Some("text_chat"@)
    } else {
        None
    }
}

pub open spec fn asks_tts_on(lower: Seq<char>) -> bool {
    contains(lower, "$tts on"@) || contains(lower, "tts on"@) || contains(lower, "ukljuci tts"@)
}

pub open spec fn asks_tts_off(lower: Seq<char>) -> bool {
    contains(lower, "$tts off"@) || contains(lower, "tts off"@) || contains(lower, "iskljuci tts"@)
}

pub open spec fn put(m: Entries, k: Seq<char>, v: Option<Seq<char>>) -> Entries {
    match v {
        Some(x) => sm_insert(m, k, x),
        None => m,
    }
}

/// The profile fields a message sets, as the map holds them after each
/// rule has set or cleared its key in turn.
pub open spec fn updates_spec(message: Seq<char>, lower: Seq<char>, tier: TrustTier) -> Entries {
    let m1 = put(Seq::empty(), "interaction_mode"@, interaction_mode_of(lower));
    let m2 = if asks_tts_on(lower) {
        sm_insert(m1, "tts_mode"@, "on"@)
    } else {
        m1
    };
    let m3 = if asks_tts_off(lower) {
        sm_insert(m2, "tts_mode"@, "off"@)
    } else {
        m2
    };
    match tier {
        TrustTier::Owner => {
            let lang = if prefers_language_spec(lower, "english"@) {
                Some("English"@)
            } else if prefers_language_spec(lower, "serbian"@) {
                Some("Serbian"@)
            } else {
                None
            };
            let style = if prefers_style_spec(lower, "concise"@) {
                Some("concise"@)
            } else if prefers_style_spec(lower, "detailed"@) {
                Some("detailed"@)
            } else {
                None
            };
            sm_insert(put(put(m3, "response_language"@, lang), "response_style"@, style), "ts_scope"@, "owner_full"@)
        },
        TrustTier::Member => {
            let m4 = sm_insert(m3, "ts_scope"@, "teamspeak_only"@);
            if !is_ts_related(message) {
                sm_remove(m4, "interaction_mode"@)
            } else {
                m4
            }
        },
    }
}

fn put_opt(m: &mut StrMap, k: &str, v: Option<&str>)
    ensures
        final(m)@ == put(old(m)@, k@, match v {
            Some(x) => Some(x@),
            None => None,
        }),
{
    match v {
        Some(x) => m.insert(k.to_string(), x.to_string()),
        None => {},
    }
}

/// The profile fields a message sets (see `updates_spec`).
pub fn extract_updates(message: &str, lower: &str, trust_tier: TrustTier) -> (r: StrMap)
    ensures
        r@ == updates_spec(message@, lower@, trust_tier),
{
    let mut updates = StrMap::new();
    let mode: Option<&str> = if str_contains(lower, "$ticket") {
        Some("ticket_support")
    } else if str_contains(lower, "$tts") {
        Some("voice_chat")
    } else if str_contains(lower, "$ask") {
        Some("text_chat")
    } else {
        None
    };
    put_opt(&mut updates, "interaction_mode", mode);
    if str_contains(lower, "$tts on") || str_contains(lower, "tts on") || str_contains(lower, "ukljuci tts") {
        updates.insert("tts_mode".to_string(), "on".to_string());
    }
    if str_contains(lower, "$tts off") || str_contains(lower, "tts off") || str_contains(
        lower,
        "iskljuci tts",
    ) {
        updates.insert("tts_mode".to_string(), "off".to_string());
    }
    match trust_tier {
        TrustTier::Owner => {
            let lang: Option<&str> = if prefers_language(lower, "english") {
                Some("English")
            } else if prefers_language(lower, "serbian") {
                Some("Serbian")
            } else {
                None
            };
            put_opt(&mut updates, "response_language", lang);
            let style: Option<&str> = if prefers_style(lower, "concise") {
                Some("concise")
            } else if prefers_style(lower, "detailed") {
                Some("detailed")
            } else {
                None
            };
            put_opt(&mut updates, "response_style", style);
            updates.insert("ts_scope".to_string(), "owner_full".to_string());
        },
        TrustTier::Member => {
            updates.insert("ts_scope".to_string(), "teamspeak_only".to_string());
            if !is_teamspeak_related(message) {
                updates.remove("interaction_mode");
            }
        },
    }
    updates
}

// ---------------------------------------------------------------- notes

/// Whether a word asks the bot to remember what follows it.
pub open spec fn is_note_trigger(w: Seq<char>) -> bool {
    let n = lowercase(strip_class(w, 0));
    n == "remember"@ || n == "note"@ || n == "save"@
}

pub open spec fn first_trigger(ws: Seq<Seq<char>>) -> Option<int>
    decreases ws.len(),
{
    if ws.len() == 0 {
        None
    } else if is_note_trigger(ws[0]) {
        Some(0)
    } else {
        match first_trigger(ws.drop_first()) {
            Some(i) => Some(i + 1),
            None => None,
        }
    }
}

/// The note a message asks to remember: the words after the first trigger
/// word, joined by spaces, with surrounding `:`, `-` and spaces removed;
/// none when that is empty, or when a member's message is not about TeamSpeak.
pub open spec fn note_spec(message: Seq<char>, lower: Seq<char>, tier: TrustTier) -> Option<Seq<char>> {
    let ws = words(message);
    match first_trigger(ws) {
        None => None,
        Some(i) => {
            let note = strip_class(trim(join(ws.skip(i + 1), seq![' '])), 2);
            if note.len() == 0 {
                None
            } else if tier == TrustTier::Member && !is_ts_related(lower) {
                None
            } else {
                Some(note)
            }
        },
    }
}

/// `word` with surrounding non-alphanumerics removed, lowercased.
pub fn normalize_token(token: &str) -> (r: String)
    ensures
        r@ == lowercase(strip_class(token@, 0)),
{
    let t = chars_of(token);
    let s = strip_class_exec(t.as_slice(), 0);
    let st = string_of(s.as_slice());
    to_lowercase(st.as_str())
}

fn first_trigger_exec(ws: &Vec<Vec<char>>) -> (r: Option<usize>)
    ensures
        r matches Some(k) ==> first_trigger(char_seqs(ws@)) == Some(k as int) && k < ws@.len(),
        r is None ==> first_trigger(char_seqs(ws@)) is None,
{
    let ghost wv = char_seqs(ws@);
    let mut i: usize = 0;
    assert(wv.skip(0) =~= wv);
    while i < ws.len()
        invariant
            i <= ws@.len(),
            wv == char_seqs(ws@),
            first_trigger(wv) == match first_trigger(wv.skip(i as int)) {
                Some(k) => Some(k + i),
                None => None,
            },
        decreases ws@.len() - i,
    {
        let ghost rest = wv.skip(i as int);
        assert(rest[0] == ws@[i as int]@);
        assert(rest.drop_first() =~= wv.skip(i + 1));
        let w = string_of(ws[i].as_slice());
        let n = normalize_token(w.as_str());
        if str_eq(n.as_str(), "remember") || str_eq(n.as_str(), "note") || str_eq(n.as_str(), "save") {
            return Some(i);
        }
        i = i + 1;
    }
    assert(wv.skip(i as int) =~= Seq::<Seq<char>>::empty());
    None
}

/// The note a message asks to remember (see `note_spec`).
pub fn extract_note(message: &str, lower: &str, trust_tier: TrustTier) -> (r: Option<String>)
    ensures
        opt_view(r) == note_spec(message@, lower@, trust_tier),
{
    let m = chars_of(message);
    let ws = split_words(m.as_slice());
    let ghost wv = char_seqs(ws@);
    let idx = match first_trigger_exec(&ws) {
        None => {
            return None;
        },
        Some(k) => k,
    };
    assert(first_trigger(wv) == Some(idx as int));
    assert(ws@.len() == ws.len());
    let mut rest: Vec<Vec<char>> = Vec::new();
    let mut j: usize = idx + 1;
    while j < ws.len()
        invariant
            idx < ws@.len(),
            idx + 1 <= j <= ws@.len(),
            wv == char_seqs(ws@),
            char_seqs(rest@) == wv.subrange(idx + 1, j as int),
        decreases ws@.len() - j,
    {
        let ghost prev = rest@;
        let c = ws[j].clone();
        rest.push(c);
        assert(rest@ == prev.push(c));
        assert(char_seqs(rest@) =~= char_seqs(prev).push(c@));
        assert(wv.subrange(idx + 1, j + 1) =~= wv.subrange(idx + 1, j as int).push(wv[j as int]));
        j = j + 1;
    }
    assert(wv.subrange(idx + 1, j as int) =~= wv.skip(idx + 1));
    let sep = vec![' '];
    assert(sep@ =~= seq![' ']);
    let joined = join_chars(&rest, sep.as_slice());
    let trimmed = trim_chars(joined.as_slice());
    let note = strip_class_exec(trimmed.as_slice(), 2);
    if note.len() == 0 {
        return None;
    }
    if trust_tier == TrustTier::Member && !is_teamspeak_related(lower) {
        return None;
    }
    Some(string_of(note.as_slice()))
}

// ---------------------------------------------------------------- managed blocks

pub const AUTO_PROFILE_START: &'static str = "<!-- AUTO_PROFILE_START -->";
pub const AUTO_PROFILE_END: &'static str = "<!-- AUTO_PROFILE_END -->";
pub const AUTO_NOTES_START: &'static str = "<!-- AUTO_NOTES_START -->";
pub const AUTO_NOTES_END: &'static str = "<!-- AUTO_NOTES_END -->";

/// Longest note kept from the owner, in characters.
pub const OWNER_NOTE_MAX_CHARS: usize = 220;

/// Longest note kept from a member, in characters.
pub const MEMBER_NOTE_MAX_CHARS: usize = 140;

pub open spec fn profile_start() -> Seq<char> {
    "<!-- AUTO_PROFILE_START -->"@
}

pub open spec fn profile_end() -> Seq<char> {
    "<!-- AUTO_PROFILE_END -->"@
}

pub open spec fn notes_start() -> Seq<char> {
    "<!-- AUTO_NOTES_START -->"@
}

pub open spec fn notes_end() -> Seq<char> {
    "<!-- AUTO_NOTES_END -->"@
}

pub open spec fn profile_section() -> Seq<char> {
    "\n\n## Auto Profile (managed)\n<!-- AUTO_PROFILE_START -->\ntrust_tier: member\nresponse_language: \nresponse_style: \ntts_mode: \ninteraction_mode: \nts_scope: teamspeak_only\nlast_updated_at: \n<!-- AUTO_PROFILE_END -->\n"@
}

pub open spec fn notes_section() -> Seq<char> {
    "\n## Auto Notes (managed)\n<!-- AUTO_NOTES_START -->\n<!-- AUTO_NOTES_END -->\n"@
}

/// The content with an empty profile section appended unless both profile
/// markers occur, then an empty notes section unless both notes markers do.
pub open spec fn ensure_managed_spec(content: Seq<char>) -> Seq<char> {
    let c1 = if !contains(content, profile_start()) || !contains(content, profile_end()) {
        content + profile_section()
    } else {
        content
    };
    if !contains(c1, notes_start()) || !contains(c1, notes_end()) {
        c1 + notes_section()
    } else {
        c1
    }
}

pub fn ensure_managed_sections(content: &str) -> (r: String)
    ensures
        r@ == ensure_managed_spec(content@),
{
    let mut out = content.to_string();
    if !str_contains(out.as_str(), AUTO_PROFILE_START) || !str_contains(out.as_str(), AUTO_PROFILE_END) {
        out.append(
            "\n\n## Auto Profile (managed)\n<!-- AUTO_PROFILE_START -->\ntrust_tier: member\nresponse_language: \nresponse_style: \ntts_mode: \ninteraction_mode: \nts_scope: teamspeak_only\nlast_updated_at: \n<!-- AUTO_PROFILE_END -->\n",
        );
    }
    if !str_contains(out.as_str(), AUTO_NOTES_START) || !str_contains(out.as_str(), AUTO_NOTES_END) {
        out.append("\n## Auto Notes (managed)\n<!-- AUTO_NOTES_START -->\n<!-- AUTO_NOTES_END -->\n");
    }
    out
}

/// The trimmed text between the first `start_marker` and the first
/// `end_marker` after it.
pub open spec fn extract_block_spec(content: Seq<char>, start_marker: Seq<char>, end_marker: Seq<char>) -> Option<
    Seq<char>,
> {
    match find(content, start_marker) {
        None => None,
        Some(st) => {
            let bs = st + start_marker.len();
            match find(content.skip(bs), end_marker) {
                None => None,
                Some(er) => Some(trim(content.subrange(bs, bs + er))),
            }
        },
    }
}

/// The content with the text between the markers (found as in
/// `extract_block_spec`) replaced by the trimmed new body on lines of its
/// own; unchanged when the markers are not found.
pub open spec fn replace_block_spec(
    content: Seq<char>,
    start_marker: Seq<char>,
    end_marker: Seq<char>,
    new_body: Seq<char>,
) -> Seq<char> {
    match find(content, start_marker) {
        None => content,
        Some(st) => {
            let bs = st + start_marker.len();
            match find(content.skip(bs), end_marker) {
                None => content,
                Some(er) => content.take(st) + start_marker + seq!['\n'] + trim(new_body) + seq!['\n']
                    + end_marker + content.skip(bs + er + end_marker.len()),
            }
        },
    }
}

/// Where the block body starts and ends.
fn block_bounds(c: &[char], s: &[char], e: &[char]) -> (r: Option<(usize, usize, usize)>)
    ensures
        match r {
            None => match find(c@, s@) {
                None => true,
                Some(st) => find(c@.skip(st + s@.len()), e@) is None,
            },
            Some((st, bs, be)) => find(c@, s@) == Some(st as int) && bs == st + s@.len() && find(
                c@.skip(bs as int),
                e@,
            ) == Some(be - bs) && bs <= be && be + e@.len() <= c@.len(),
        },
{
    match find_exec(c, s, 0) {
        None => None,
        Some(st) => {
            proof {
                crate::text::lemma_find_from(c@, s@, 0);
                assert(c@.len() == c.len() && s@.len() == s.len());
            }
            let bs = st + s.len();
            let rest = slice_chars(c, bs, c.len());
            assert(rest@ =~= c@.skip(bs as int));
            match find_exec(rest.as_slice(), e, 0) {
                None => None,
                Some(er) => {
                    proof {
                        crate::text::lemma_find_from(rest@, e@, 0);
                    }
                    Some((st, bs, bs + er))
                },
            }
        },
    }
}

pub fn extract_block(content: &str, start_marker: &str, end_marker: &str) -> (r: Option<String>)
    ensures
        opt_view(r) == extract_block_spec(content@, start_marker@, end_marker@),
{
    let c = chars_of(content);
    let s = chars_of(start_marker);
    let e = chars_of(end_marker);
    match block_bounds(c.as_slice(), s.as_slice(), e.as_slice()) {
        None => None,
        Some((_st, bs, be)) => {
            let body = slice_chars(c.as_slice(), bs, be);
            let t = trim_chars(body.as_slice());
            Some(string_of(t.as_slice()))
        },
    }
}

pub fn replace_block(content: &str, start_marker: &str, end_marker: &str, new_body: &str) -> (r: String)
    ensures
        r@ == replace_block_spec(content@, start_marker@, end_marker@, new_body@),
{
    let c = chars_of(content);
    let s = chars_of(start_marker);
    let e = chars_of(end_marker);
    match block_bounds(c.as_slice(), s.as_slice(), e.as_slice()) {
        None => content.to_string(),
        Some((st, _bs, be)) => {
            let mut out = slice_chars(c.as_slice(), 0, st);
            extend_chars(&mut out, s.as_slice());
            out.push('\n');
            let nb = chars_of(new_body);
            let t = trim_chars(nb.as_slice());
            extend_chars(&mut out, t.as_slice());
            out.push('\n');
            extend_chars(&mut out, e.as_slice());
            assert(be + e@.len() <= c@.len());
            assert(c@.len() == c.len());
            let tail = slice_chars(c.as_slice(), be + e.len(), c.len());
            extend_chars(&mut out, tail.as_slice());
            assert(c@.take(st as int) =~= c@.subrange(0, st as int));
            assert(tail@ =~= c@.skip(be + e@.len()));
            string_of(out.as_slice())
        },
    }
}

// ---------------------------------------------------------------- profile map

/// One `key: value` line read into the map; blank lines and lines without
/// a colon are skipped.
pub open spec fn profile_line(m: Entries, line: Seq<char>) -> Entries {
    let t = trim(line);
    if t.len() == 0 {
        m
    } else {
        match find(t, seq![':']) {
            None => m,
            Some(i) => sm_insert(m, trim(t.take(i)), trim(t.skip(i + 1))),
        }
    }
}

pub open spec fn profile_fold(ls: Seq<Seq<char>>) -> Entries
    decreases ls.len(),
{
    if ls.len() == 0 {
        Seq::empty()
    } else {
        profile_line(profile_fold(ls.drop_last()), ls.last())
    }
}

/// The `key: value` lines of a profile block, later lines winning.
pub open spec fn parse_profile_spec(block: Seq<char>) -> Entries {
    profile_fold(lines(block))
}

pub fn parse_profile_map(block: &str) -> (r: StrMap)
    ensures
        r@ == parse_profile_spec(block@),
{
    let b = chars_of(block);
    let ls = lines_exec(b.as_slice());
    let colon = vec![':'];
    assert(colon@ =~= seq![':']);
    let mut map = StrMap::new();
    let mut i: usize = 0;
    while i < ls.len()
        invariant
            i <= ls@.len(),
            colon@ == seq![':'],
            map@ == profile_fold(char_seqs(ls@).take(i as int)),
        decreases ls@.len() - i,
    {
        assert(char_seqs(ls@).take(i + 1).drop_last() =~= char_seqs(ls@).take(i as int));
        let t = trim_chars(ls[i].as_slice());
        if t.len() > 0 {
            match find_exec(t.as_slice(), colon.as_slice(), 0) {
                None => {},
                Some(k) => {
                    proof {
                        crate::text::lemma_find_from(t@, colon@, 0);
                    }
                    let key = slice_chars(t.as_slice(), 0, k);
                    let val = slice_chars(t.as_slice(), k + 1, t.len());
                    assert(key@ =~= t@.take(k as int));
                    assert(val@ =~= t@.skip(k + 1));
                    let kt = trim_chars(key.as_slice());
                    let vt = trim_chars(val.as_slice());
                    map.insert(string_of(kt.as_slice()), string_of(vt.as_slice()));
                },
            }
        }
        i = i + 1;
    }
    assert(char_seqs(ls@).take(i as int) =~= char_seqs(ls@));
    map
}

/// Keys rendered first, in this order, whether set or not.
pub open spec fn preferred_keys() -> Seq<Seq<char>> {
    seq![
        "trust_tier"@,
        "response_language"@,
        "response_style"@,
        "tts_mode"@,
        "interaction_mode"@,
        "ts_scope"@,
        "last_updated_at"@,
    ]
}

pub open spec fn kv_line(k: Seq<char>, v: Seq<char>) -> Seq<char> {
    k + ": "@ + v
}

pub open spec fn preferred_lines(m: Entries, keys: Seq<Seq<char>>) -> Seq<Seq<char>>
    decreases keys.len(),
{
    if keys.len() == 0 {
        Seq::empty()
    } else {
        preferred_lines(m, keys.drop_last()).push(
            kv_line(keys.last(), crate::actions::or_empty(sm_get(m, keys.last()))),
        )
    }
}

pub open spec fn other_lines(m: Entries) -> Seq<Seq<char>>
    decreases m.len(),
{
    if m.len() == 0 {
        Seq::empty()
    } else if preferred_keys().contains(m.last().0) {
        other_lines(m.drop_last())
    } else {
        other_lines(m.drop_last()).push(kv_line(m.last().0, m.last().1))
    }
}

/// The profile as `key: value` lines: the preferred keys first, then the
/// other keys in key order.
pub open spec fn render_profile_spec(m: Entries) -> Seq<char> {
    join(preferred_lines(m, preferred_keys()) + other_lines(m), "\n"@)
}

fn kv_line_exec(k: &str, v: &str) -> (r: Vec<char>)
    ensures
        r@ == kv_line(k@, v@),
{
    let mut out = chars_of(k);
    let sep = chars_of(": ");
    extend_chars(&mut out, sep.as_slice());
    let vc = chars_of(v);
    extend_chars(&mut out, vc.as_slice());
    out
}

pub fn render_profile_map(map: &StrMap) -> (r: String)
    ensures
        r@ == render_profile_spec(map@),
{
    let keys: [&str; 7] = [
        "trust_tier",
        "response_language",
        "response_style",
        "tts_mode",
        "interaction_mode",
        "ts_scope",
        "last_updated_at",
    ];
    assert(str_views(keys@) =~= preferred_keys());
    let mut lines: Vec<Vec<char>> = Vec::new();
    let mut i: usize = 0;
    while i < 7
        invariant
            i <= 7,
            str_views(keys@) == preferred_keys(),
            char_seqs(lines@) == preferred_lines(map@, preferred_keys().take(i as int)),
        decreases 7 - i,
    {
        assert(preferred_keys().take(i + 1).drop_last() =~= preferred_keys().take(i as int));
        assert(preferred_keys().take(i + 1).last() == keys@[i as int]@);
        let v = match map.get(keys[i]) {
            Some(x) => x,
            None => String::new(),
        };
        let line = kv_line_exec(keys[i], v.as_str());
        let ghost prev = char_seqs(lines@);
        lines.push(line);
        assert(char_seqs(lines@) =~= prev.push(line@));
        i = i + 1;
    }
    assert(preferred_keys().take(7) =~= preferred_keys());
    let ghost pref = char_seqs(lines@);
    let mut j: usize = 0;
    while j < map.len()
        invariant
            j <= map@.len(),
            str_views(keys@) == preferred_keys(),
            pref == preferred_lines(map@, preferred_keys()),
            char_seqs(lines@) == pref + other_lines(map@.take(j as int)),
        decreases map@.len() - j,
    {
        assert(map@.take(j + 1).drop_last() =~= map@.take(j as int));
        let (k, v) = map.entry(j);
        let mut is_pref = false;
        let mut q: usize = 0;
        while q < 7
            invariant
                q <= 7,
                str_views(keys@) == preferred_keys(),
                is_pref == exists|x: int| 0 <= x < q && preferred_keys()[x] == k@,
            decreases 7 - q,
        {
            if str_eq(keys[q], k.as_str()) {
                is_pref = true;
            }
            assert(str_views(keys@)[q as int] == keys@[q as int]@);
            q = q + 1;
        }
        assert(is_pref == preferred_keys().contains(k@));
        if !is_pref {
            let line = kv_line_exec(k.as_str(), v.as_str());
            let ghost prev = char_seqs(lines@);
            lines.push(line);
            assert(char_seqs(lines@) =~= prev.push(line@));
        }
        j = j + 1;
    }
    assert(map@.take(j as int) =~= map@);
    let nl = vec!['\n'];
    let nls = chars_of("\n");
    let out = join_chars(&lines, nls.as_slice());
    string_of(out.as_slice())
}

// ---------------------------------------------------------------- notes block

pub open spec fn notes_fold(ls: Seq<Seq<char>>) -> Seq<Seq<char>>
    decreases ls.len(),
{
    if ls.len() == 0 {
        Seq::empty()
    } else {
        let prev = notes_fold(ls.drop_last());
        let t = trim(ls.last());
        if starts_with(t, "- "@) && trim(strip_prefix_all(t, "- "@)).len() > 0 {
            prev.push(trim(strip_prefix_all(t, "- "@)))
        } else {
            prev
        }
    }
}

/// The notes of a notes block: its `- ` lines without the bullet.
pub open spec fn parse_notes_spec(block: Seq<char>) -> Seq<Seq<char>> {
    notes_fold(lines(block))
}

pub fn parse_notes_block(block: &str) -> (r: Vec<String>)
    ensures
        string_views(r@) == parse_notes_spec(block@),
{
    let b = chars_of(block);
    let ls = lines_exec(b.as_slice());
    let dash = chars_of("- ");
    let mut out: Vec<String> = Vec::new();
    let mut i: usize = 0;
    while i < ls.len()
        invariant
            i <= ls@.len(),
            dash@ == "- "@,
            string_views(out@) == notes_fold(char_seqs(ls@).take(i as int)),
        decreases ls@.len() - i,
    {
        assert(char_seqs(ls@).take(i + 1).drop_last() =~= char_seqs(ls@).take(i as int));
        let t = trim_chars(ls[i].as_slice());
        if starts_with_exec(t.as_slice(), dash.as_slice()) {
            proof {
                reveal_strlit("- ");
            }
            let stripped = strip_prefix_all_exec(t.as_slice(), dash.as_slice());
            let n = trim_chars(stripped.as_slice());
            if n.len() > 0 {
                let ghost prev = out@;
                let ns = string_of(n.as_slice());
                out.push(ns);
                assert(out@ == prev.push(ns));
                assert(string_views(out@) =~= string_views(prev).push(ns@));
            }
        }
        i = i + 1;
    }
    assert(char_seqs(ls@).take(i as int) =~= char_seqs(ls@));
    out
}

pub open spec fn bullet_lines(notes: Seq<Seq<char>>) -> Seq<Seq<char>> {
    notes.map_values(|n: Seq<char>| "- "@ + n)
}

/// The notes as `- ` lines.
pub open spec fn render_notes_spec(notes: Seq<Seq<char>>) -> Seq<char> {
    join(bullet_lines(notes), "\n"@)
}

pub fn render_notes_block(notes: &Vec<String>) -> (r: String)
    ensures
        r@ == render_notes_spec(string_views(notes@)),
{
    let mut ls: Vec<Vec<char>> = Vec::new();
    let mut i: usize = 0;
    while i < notes.len()
        invariant
            i <= notes@.len(),
            char_seqs(ls@) == bullet_lines(string_views(notes@).take(i as int)),
        decreases notes@.len() - i,
    {
        let mut line = chars_of("- ");
        let n = chars_of(notes[i].as_str());
        extend_chars(&mut line, n.as_slice());
        let ghost prev = ls@;
        ls.push(line);
        assert(ls@ == prev.push(line));
        assert(string_views(notes@).take(i + 1) =~= string_views(notes@).take(i as int).push(
            notes@[i as int]@,
        ));
        assert(char_seqs(ls@) =~= char_seqs(prev).push(line@));
        assert(char_seqs(ls@) =~= bullet_lines(string_views(notes@).take(i + 1)));
        i = i + 1;
    }
    assert(string_views(notes@).take(i as int) =~= string_views(notes@));
    let nl = chars_of("\n");
    let out = join_chars(&ls, nl.as_slice());
    string_of(out.as_slice())
}

// ---------------------------------------------------------------- preferred language line

pub open spec fn pref_prefix() -> Seq<char> {
    "Preferred language:"@
}

pub open spec fn pref_line(language: Seq<char>) -> Seq<char> {
    "Preferred language: "@ + language
}

pub open spec fn upsert_lines(ls: Seq<Seq<char>>, language: Seq<char>) -> Seq<Seq<char>> {
    ls.map_values(|l: Seq<char>| if starts_with(l, pref_prefix()) {
        pref_line(language)
    } else {
        l
    })
}

/// The written line names `language` on being read.
proof fn lemma_pref_line_value(language: Seq<char>)
    requires
        trimmed_shape(language),
    ensures
        value_after(pref_line(language), pref_prefix()) == Some(language),
        no_newline(language) ==> no_newline(pref_line(language)),
{
    reveal_strlit("Preferred language: ");
    reveal_strlit("Preferred language:");
    let o = pref_line(language);
    let lead = "Preferred language: "@;
    assert(o[0] == 'P');
    assert(o.last() == language.last());
    lemma_trim_of_trimmed(o);
    assert(o.take(19) =~= pref_prefix());
    assert(o.skip(19) =~= seq![' '] + language);
    lemma_trim_lead_space(language);
    if no_newline(language) {
        assert forall|k: int| 0 <= k < o.len() implies o[k] != '\n' by {
            if k >= lead.len() {
                assert(o[k] == language[k - lead.len()]);
            }
        }
    }
}

/// The content with every `Preferred language:` line set to `language`, or
/// such a line appended when there is none; a final newline is kept.
pub open spec fn upsert_spec(content: Seq<char>, language: Seq<char>) -> Seq<char> {
    let ls = lines(content);
    let replaced = exists|i: int| 0 <= i < ls.len() && starts_with(#[trigger] ls[i], pref_prefix());
    let out = if replaced {
        upsert_lines(ls, language)
    } else {
        upsert_lines(ls, language).push(pref_line(language))
    };
    join(out, "\n"@) + if ends_with(content, "\n"@) {
        "\n"@
    } else {
        Seq::empty()
    }
}

pub fn upsert_preferred_language(content: &str, language: &str) -> (r: String)
    ensures
        r@ == upsert_spec(content@, language@),
{
    let c = chars_of(content);
    let ls = lines_exec(c.as_slice());
    let prefix = chars_of("Preferred language:");
    let mut line_for_lang = chars_of("Preferred language: ");
    let lang = chars_of(language);
    extend_chars(&mut line_for_lang, lang.as_slice());
    let mut out: Vec<Vec<char>> = Vec::new();
    let mut replaced = false;
    let mut i: usize = 0;
    while i < ls.len()
        invariant
            i <= ls@.len(),
            prefix@ == pref_prefix(),
            line_for_lang@ == pref_line(language@),
            char_seqs(out@) == upsert_lines(char_seqs(ls@).take(i as int), language@),
            replaced == exists|k: int| 0 <= k < i && starts_with(#[trigger] char_seqs(ls@)[k], pref_prefix()),
        decreases ls@.len() - i,
    {
        let ghost prev = out@;
        let ghost li = char_seqs(ls@)[i as int];
        assert(li == ls@[i as int]@);
        assert(char_seqs(ls@).take(i + 1) =~= char_seqs(ls@).take(i as int).push(li));
        if starts_with_exec(ls[i].as_slice(), prefix.as_slice()) {
            let x = line_for_lang.clone();
            out.push(x);
            assert(out@ == prev.push(x));
            assert(char_seqs(out@) =~= char_seqs(prev).push(pref_line(language@)));
            replaced = true;
        } else {
            let x = ls[i].clone();
            out.push(x);
            assert(out@ == prev.push(x));
            assert(char_seqs(out@) =~= char_seqs(prev).push(li));
        }
        assert(char_seqs(out@) =~= upsert_lines(char_seqs(ls@).take(i + 1), language@));
        i = i + 1;
    }
    assert(char_seqs(ls@).take(i as int) =~= char_seqs(ls@));
    if !replaced {
        let ghost prev = char_seqs(out@);
        out.push(line_for_lang.clone());
        assert(char_seqs(out@) =~= prev.push(pref_line(language@)));
    }
    let nl = chars_of("\n");
    let mut r = join_chars(&out, nl.as_slice());
    if ends_with_exec(c.as_slice(), nl.as_slice()) {
        r.push('\n');
        proof {
            reveal_strlit("\n");
        }
    } else {
        assert(r@ =~= r@ + Seq::<char>::empty());
    }
    string_of(r.as_slice())
}

// ---------------------------------------------------------------- learning

/// The profile after the updates are applied in key order, the `key=value`
/// fields that changed (other than the time stamp), and whether any did.
pub open spec fn apply_updates(profile: Entries, ups: Entries) -> (Entries, Seq<Seq<char>>, bool)
    decreases ups.len(),
{
    if ups.len() == 0 {
        (profile, Seq::empty(), false)
    } else {
        let prev = apply_updates(profile, ups.drop_last());
        let k = ups.last().0;
        let v = ups.last().1;
        if crate::actions::or_empty(sm_get(prev.0, k)) != v {
            (
                sm_insert(prev.0, k, v),
                if k != "last_updated_at"@ {
                    prev.1.push(k + "="@ + v)
                } else {
                    prev.1
                },
                true,
            )
        } else {
            prev
        }
    }
}

/// `c` with `A`..`Z` mapped to `a`..`z`.
pub open spec fn ascii_fold(c: char) -> char {
    if 'A' <= c && c <= 'Z' {
        ((c as int) + 32) as char
    } else {
        c
    }
}

/// `A`..`Z` mapped to `a`..`z`; every other character as it is.
fn to_ascii_lowercase(c: char) -> (r: char)
    ensures
        r == ascii_fold(c),
{
    if 'A' <= c && c <= 'Z' {
        let b: u8 = c as u8;
        (b + 32) as char
    } else {
        c
    }
}

/// `str::eq_ignore_ascii_case`: equal once ASCII letters are lowercased.
pub open spec fn eq_ignore_ascii_case(a: Seq<char>, b: Seq<char>) -> bool {
    a.len() == b.len() && forall|i: int| 0 <= i < a.len() ==> ascii_fold(#[trigger] a[i]) == ascii_fold(b[i])
}

pub fn eq_ignore_ascii_case_exec(a: &str, b: &str) -> (r: bool)
    ensures
        r == eq_ignore_ascii_case(a@, b@),
{
    let av = chars_of(a);
    let bv = chars_of(b);
    if av.len() != bv.len() {
        return false;
    }
    let mut i: usize = 0;
    while i < av.len()
        invariant
            i <= av@.len(),
            av@ == a@,
            bv@ == b@,
            av@.len() == bv@.len(),
            forall|k: int| 0 <= k < i ==> ascii_fold(#[trigger] av@[k]) == ascii_fold(bv@[k]),
        decreases av@.len() - i,
    {
        if to_ascii_lowercase(av[i]) != to_ascii_lowercase(bv[i]) {
            return false;
        }
        i = i + 1;
    }
    true
}

/// The notes after a new note is put first (unless it is empty or already
/// there, ignoring ASCII case), cut to `max_notes`; and whether it was added.
pub open spec fn notes_after(notes: Seq<Seq<char>>, note: Option<Seq<char>>, stamp: Seq<char>, max_notes: nat) -> (
    Seq<Seq<char>>,
    bool,
) {
    match note {
        Some(n) => if n.len() > 0 && !(exists|i: int| 0 <= i < notes.len() && eq_ignore_ascii_case(#[trigger] notes[i], n)) {
            let added = seq!["["@ + stamp + "] "@ + n] + notes;
            (if added.len() > max_notes {
                added.take(max_notes as int)
            } else {
                added
            }, true)
        } else {
            (notes, false)
        },
        None => (notes, false),
    }
}

pub open spec fn note_limit(tier: TrustTier) -> nat {
    match tier {
        TrustTier::Owner => OWNER_NOTE_MAX_CHARS as nat,
        TrustTier::Member => MEMBER_NOTE_MAX_CHARS as nat,
    }
}

/// The note kept from a message: a member's only when it is about
/// TeamSpeak, cut to the tier's length limit.
pub open spec fn kept_note(message: Seq<char>, lower: Seq<char>, tier: TrustTier) -> Option<Seq<char>> {
    match note_spec(message, lower, tier) {
        Some(n) => if tier == TrustTier::Member && !is_ts_related(n) {
            None
        } else {
            Some(truncate(n, note_limit(tier)))
        },
        None => None,
    }
}

/// Whether a message is refused before any learning: `Some(None)` when it
/// is blank, `Some(Some(reason))` when it holds a blocked phrase, `None`
/// when learning goes on.
pub open spec fn screen_spec(message: Seq<char>) -> Option<Option<Seq<char>>> {
    let tm = trim(message);
    if tm.len() == 0 {
        Some(None)
    } else {
        match first_contained(lowercase(tm), blocked_patterns()) {
            Some(i) => Some(Some("blocked_pattern="@ + blocked_patterns()[i])),
            None => None,
        }
    }
}

/// The outcome for a message that is not learned from at all, if it is one.
pub fn screen_message(message: &str) -> (r: Option<LearningOutcome>)
    ensures
        match screen_spec(message@) {
            None => r is None,
            Some(reason) => r matches Some(o) && o.applied_fields@.len() == 0 && !o.note_added && opt_view(
                o.blocked_reason,
            ) == reason,
        },
{
    let tm = crate::text::trim_str(message);
    if tm.as_str().is_empty() {
        proof {
            reveal_strlit("");
        }
        assert(tm@.len() == 0);
        return Some(LearningOutcome::new());
    }
    let lower = to_lowercase(tm.as_str());
    match blocked_pattern(lower.as_str()) {
        Some(p) => {
            let mut reason = "blocked_pattern=".to_string();
            reason.append(p);
            Some(LearningOutcome { applied_fields: Vec::new(), note_added: false, blocked_reason: Some(reason) })
        },
        None => None,
    }
}

/// What learning from a message does to a profile file's content, at the
/// given times: the fields set, whether a note was added, and the new
/// content when anything changed.
pub open spec fn learned(
    tier: TrustTier,
    message: Seq<char>,
    max_notes: nat,
    content: Seq<char>,
    note_stamp: Seq<char>,
    updated_at: Seq<char>,
) -> (Seq<Seq<char>>, bool, Option<Seq<char>>) {
    let tm = trim(message);
    let lower = lowercase(tm);
    let ups = sm_insert(updates_spec(tm, lower, tier), "trust_tier"@, tier_text(tier));
    let note = kept_note(tm, lower, tier);
    let c1 = ensure_managed_spec(content);
    let profile0 = parse_profile_spec(crate::actions::or_empty(extract_block_spec(c1, profile_start(), profile_end())));
    let applied = apply_updates(profile0, ups);
    let notes0 = parse_notes_spec(crate::actions::or_empty(extract_block_spec(c1, notes_start(), notes_end())));
    let na = notes_after(notes0, note, note_stamp, max_notes);
    if !(applied.2 || na.1) {
        (applied.1, na.1, None)
    } else {
        let profile2 = sm_insert(applied.0, "last_updated_at"@, updated_at);
        let c2 = replace_block_spec(c1, profile_start(), profile_end(), render_profile_spec(profile2));
        let c3 = replace_block_spec(c2, notes_start(), notes_end(), render_notes_spec(na.0));
        let fin = match sm_get(profile2, "response_language"@) {
            Some(l) => if trim(l).len() > 0 {
                upsert_spec(c3, l)
            } else {
                c3
            },
            None => c3,
        };
        (applied.1, na.1, Some(fin))
    }
}

fn apply_updates_exec(profile: &mut StrMap, ups: &StrMap) -> (r: (Vec<String>, bool))
    ensures
        (final(profile)@, string_views(r.0@), r.1) == apply_updates(old(profile)@, ups@),
{
    let mut applied: Vec<String> = Vec::new();
    let mut changed = false;
    let mut i: usize = 0;
    while i < ups.len()
        invariant
            i <= ups@.len(),
            (profile@, string_views(applied@), changed) == apply_updates(old(profile)@, ups@.take(i as int)),
        decreases ups@.len() - i,
    {
        assert(ups@.take(i + 1).drop_last() =~= ups@.take(i as int));
        let (k, v) = ups.entry(i);
        let current = match profile.get(k.as_str()) {
            Some(x) => x,
            None => String::new(),
        };
        if !str_eq(current.as_str(), v.as_str()) {
            profile.insert(k.clone(), v.clone());
            changed = true;
            if !str_eq(k.as_str(), "last_updated_at") {
                let mut f = k.clone();
                f.append("=");
                f.append(v.as_str());
                let ghost prev = applied@;
                applied.push(f);
                assert(applied@ == prev.push(f));
                assert(string_views(applied@) =~= string_views(prev).push(f@));
            }
        }
        i = i + 1;
    }
    assert(ups@.take(i as int) =~= ups@);
    (applied, changed)
}

fn notes_after_exec(notes: Vec<String>, note: Option<String>, stamp: &str, max_notes: usize) -> (r: (
    Vec<String>,
    bool,
))
    ensures
        (string_views(r.0@), r.1) == notes_after(string_views(notes@), opt_view(note), stamp@, max_notes as nat),
{
    match note {
        None => (notes, false),
        Some(n) => {
            if n.as_str().is_empty() {
                proof {
                    reveal_strlit("");
                }
                return (notes, false);
            }
            let mut dup = false;
            let mut i: usize = 0;
            while i < notes.len()
                invariant
                    i <= notes@.len(),
                    dup == exists|k: int| 0 <= k < i && eq_ignore_ascii_case(#[trigger] string_views(notes@)[k], n@),
                decreases notes@.len() - i,
            {
                if eq_ignore_ascii_case_exec(notes[i].as_str(), n.as_str()) {
                    dup = true;
                }
                assert(string_views(notes@)[i as int] == notes@[i as int]@);
                i = i + 1;
            }
            if dup {
                return (notes, false);
            }
            let mut entry = "[".to_string();
            entry.append(stamp);
            entry.append("] ");
            entry.append(n.as_str());
            let mut out: Vec<String> = Vec::new();
            out.push(entry);
            let ghost e = entry@;
            let mut rest = notes;
            let ghost nv = string_views(rest@);
            out.append(&mut rest);
            assert(string_views(out@) =~= seq![e] + nv);
            if out.len() > max_notes {
                out.truncate(max_notes);
                assert(string_views(out@) =~= (seq![e] + nv).take(max_notes as int));
            }
            (out, true)
        },
    }
}

/// Learn from a message, given the current content of the user's profile
/// file and the times to stamp the note and the profile with. Returns the
/// outcome and the new content, when anything changed.
pub fn learn_from_profile(
    trust_tier: TrustTier,
    message: &str,
    max_notes: usize,
    content: &str,
    note_stamp: &str,
    updated_at: &str,
) -> (r: (LearningOutcome, Option<String>))
    ensures
        string_views(r.0.applied_fields@) == learned(trust_tier, message@, max_notes as nat, content@, note_stamp@, updated_at@).0,
        r.0.note_added == learned(trust_tier, message@, max_notes as nat, content@, note_stamp@, updated_at@).1,
        r.0.blocked_reason is None,
        opt_view(r.1) == learned(trust_tier, message@, max_notes as nat, content@, note_stamp@, updated_at@).2,
{
    let tm = crate::text::trim_str(message);
    let lower = to_lowercase(tm.as_str());
    let mut ups = extract_updates(tm.as_str(), lower.as_str(), trust_tier);
    ups.insert("trust_tier".to_string(), trust_tier.as_str().to_string());
    let note0 = extract_note(tm.as_str(), lower.as_str(), trust_tier);
    let note = match note0 {
        Some(n) => {
            if trust_tier == TrustTier::Member && !is_teamspeak_related(n.as_str()) {
                None
            } else {
                let limit = match trust_tier {
                    TrustTier::Owner => OWNER_NOTE_MAX_CHARS,
                    TrustTier::Member => MEMBER_NOTE_MAX_CHARS,
                };
                Some(truncate_chars(n.as_str(), limit))
            }
        },
        None => None,
    };
    let c1 = ensure_managed_sections(content);
    let pblock = match extract_block(c1.as_str(), AUTO_PROFILE_START, AUTO_PROFILE_END) {
        Some(b) => b,
        None => String::new(),
    };
    let mut profile = parse_profile_map(pblock.as_str());
    let (applied, changed) = apply_updates_exec(&mut profile, &ups);
    let nblock = match extract_block(c1.as_str(), AUTO_NOTES_START, AUTO_NOTES_END) {
        Some(b) => b,
        None => String::new(),
    };
    let notes0 = parse_notes_block(nblock.as_str());
    let (notes, note_added) = notes_after_exec(notes0, note, note_stamp, max_notes);
    let outcome = LearningOutcome { applied_fields: applied, note_added, blocked_reason: None };
    if !(changed || note_added) {
        return (outcome, None);
    }
    profile.insert("last_updated_at".to_string(), updated_at.to_string());
    let pbody = render_profile_map(&profile);
    let nbody = render_notes_block(&notes);
    let c2 = replace_block(c1.as_str(), AUTO_PROFILE_START, AUTO_PROFILE_END, pbody.as_str());
    let c3 = replace_block(c2.as_str(), AUTO_NOTES_START, AUTO_NOTES_END, nbody.as_str());
    let fin = match profile.get("response_language") {
        Some(l) => {
            let lt = crate::text::trim_str(l.as_str());
            if lt.as_str().is_empty() {
                proof {
                    reveal_strlit("");
                }
                c3
            } else {
                upsert_preferred_language(c3.as_str(), l.as_str())
            }
        },
        None => c3,
    };
    (outcome, Some(fin))
}

/// The daily memory line recorded for a learning outcome.
pub open spec fn memory_line_spec(
    time: Seq<char>,
    tier: TrustTier,
    user_name: Seq<char>,
    user_uid: Seq<char>,
    summary: Seq<char>,
) -> Seq<char> {
    "- "@ + time + " ["@ + tier_text(tier) + "] "@ + user_name + " ("@ + user_uid + ") -> "@ + summary + "\n"@
}

pub fn memory_entry_line(
    time: &str,
    trust_tier: TrustTier,
    user_name: &str,
    user_uid: &str,
    outcome: &LearningOutcome,
) -> (r: String)
    ensures
        r@ == memory_line_spec(
            time@,
            trust_tier,
            user_name@,
            user_uid@,
            summary_text(string_views(outcome.applied_fields@), outcome.note_added),
        ),
{
    let mut s = "- ".to_string();
    s.append(time);
    s.append(" [");
    s.append(trust_tier.as_str());
    s.append("] ");
    s.append(user_name);
    s.append(" (");
    s.append(user_uid);
    s.append(") -> ");
    let sm = outcome.summary();
    s.append(sm.as_str());
    s.append("\n");
    s
}

// ---------------------------------------------------------------- laws

/// Reading a block back after replacing it gives the new body, trimmed,
/// when the block was there and the new body does not hold the end marker.
pub proof fn law_replaced_block_reads_back(
    content: Seq<char>,
    start_marker: Seq<char>,
    end_marker: Seq<char>,
    new_body: Seq<char>,
)
    requires
        extract_block_spec(content, start_marker, end_marker) is Some,
        find(seq!['\n'] + trim(new_body) + seq!['\n'] + end_marker, end_marker) == Some(
            trim(new_body).len() as int + 2,
        ),
    ensures
        extract_block_spec(
            replace_block_spec(content, start_marker, end_marker, new_body),
            start_marker,
            end_marker,
        ) == Some(trim(new_body)),
{
    let c = content;
    let s = start_marker;
    let e = end_marker;
    let tb = trim(new_body);
    crate::text::lemma_find_from(c, s, 0);
    let st = find(c, s)->0;
    let bs = st + s.len();
    crate::text::lemma_find_from(c.skip(bs), e, 0);
    let er = find(c.skip(bs), e)->0;
    let tail = c.skip(bs + er + e.len());
    let u = seq!['\n'] + tb + seq!['\n'] + e;
    let new = c.take(st) + s + u + tail;
    assert(replace_block_spec(c, s, e, new_body) =~= new);
    // the start marker is found where it was
    assert forall|x: int| 0 <= x < st + s.len() implies new[x] == c[x] by {
        if x >= st {
            assert(c.subrange(st, st + s.len())[x - st] == c[x]);
        }
    }
    assert forall|j: int| 0 <= j < st implies !crate::text::matches_at(new, s, j) by {
        if crate::text::matches_at(new, s, j) {
            assert forall|x: int| 0 <= x < s.len() implies #[trigger] new.subrange(j, j + s.len())[x] == c.subrange(
                j,
                j + s.len(),
            )[x] by {
                assert(new[j + x] == c[j + x]);
            }
            assert(new.subrange(j, j + s.len()) =~= c.subrange(j, j + s.len()));
            assert(crate::text::matches_at(c, s, j));
        }
    }
    assert(new.subrange(st, st + s.len()) =~= s);
    crate::text::lemma_find_from_first(new, s, 0, st);
    // the end marker is found right after the new body
    let w = new.skip(bs);
    assert(w =~= u + tail);
    let l: int = tb.len() as int + 2;
    crate::text::lemma_find_from(u, e, 0);
    assert forall|j: int| 0 <= j < l implies !crate::text::matches_at(w, e, j) by {
        if crate::text::matches_at(w, e, j) {
            assert forall|x: int| 0 <= x < e.len() implies #[trigger] w.subrange(j, j + e.len())[x] == u.subrange(
                j,
                j + e.len(),
            )[x] by {
                assert(w[j + x] == u[j + x]);
            }
            assert(w.subrange(j, j + e.len()) =~= u.subrange(j, j + e.len()));
            assert(crate::text::matches_at(u, e, j));
        }
    }
    assert(w.subrange(l, l + e.len()) =~= u.subrange(l, l + e.len()));
    crate::text::lemma_find_from_first(w, e, 0, l);
    assert(new.subrange(bs, bs + l) =~= seq!['\n'] + tb + seq!['\n']);
    crate::text::lemma_trim_shape(new_body);
    crate::text::lemma_trim_wrapped(tb);
}

/// The profile read from a block has its keys in order, each once.
pub proof fn lemma_profile_sorted(ls: Seq<Seq<char>>)
    ensures
        crate::strmap::sorted(profile_fold(ls)),
    decreases ls.len(),
{
    if ls.len() > 0 {
        lemma_profile_sorted(ls.drop_last());
        let m = profile_fold(ls.drop_last());
        let t = trim(ls.last());
        if t.len() > 0 {
            if let Some(i) = find(t, seq![':']) {
                crate::strmap::law_insert_keeps_sorted(m, trim(t.take(i)), trim(t.skip(i + 1)));
            }
        }
    }
}

/// Applying updates that all hold already changes nothing.
proof fn lemma_apply_updates_settled(q: Entries, ups: Entries)
    requires
        forall|i: int| 0 <= i < ups.len() ==> sm_get(q, (#[trigger] ups[i]).0) == Some(ups[i].1),
    ensures
        apply_updates(q, ups) == (q, Seq::<Seq<char>>::empty(), false),
    decreases ups.len(),
{
    if ups.len() > 0 {
        let t = ups.drop_last();
        assert forall|i: int| 0 <= i < t.len() implies sm_get(q, (#[trigger] t[i]).0) == Some(t[i].1) by {
            assert(t[i] == ups[i]);
        }
        lemma_apply_updates_settled(q, t);
        assert(ups.last() == ups[ups.len() - 1]);
    }
}

/// After the updates are applied every updated key holds its new value, the
/// keys stay in order, and applying the same updates again changes nothing.
pub proof fn law_updates_take_effect(profile: Entries, ups: Entries)
    requires
        crate::strmap::sorted(profile),
        crate::strmap::sorted(ups),
        forall|i: int| 0 <= i < ups.len() ==> (#[trigger] ups[i]).1.len() > 0,
    ensures
        crate::strmap::sorted(apply_updates(profile, ups).0),
        forall|i: int| 0 <= i < ups.len() ==> sm_get(apply_updates(profile, ups).0, (#[trigger] ups[i]).0) == Some(ups[i].1),
        !apply_updates(apply_updates(profile, ups).0, ups).2,
    decreases ups.len(),
{
    if ups.len() > 0 {
        let t = ups.drop_last();
        assert(crate::strmap::sorted(t)) by {
            assert forall|i: int, j: int| 0 <= i < j < t.len() implies crate::strmap::key_lt(#[trigger] t[i].0, #[trigger] t[j].0) by {
                assert(t[i] == ups[i] && t[j] == ups[j]);
            }
        }
        assert forall|i: int| 0 <= i < t.len() implies (#[trigger] t[i]).1.len() > 0 by {
            assert(t[i] == ups[i]);
        }
        law_updates_take_effect(profile, t);
        let prev = apply_updates(profile, t);
        let k = ups.last().0;
        let v = ups.last().1;
        assert(ups.last() == ups[ups.len() - 1]);
        let r = apply_updates(profile, ups).0;
        if crate::actions::or_empty(sm_get(prev.0, k)) != v {
            crate::strmap::law_insert_keeps_sorted(prev.0, k, v);
            crate::strmap::law_get_after_insert(prev.0, k, v);
            assert forall|i: int| 0 <= i < ups.len() implies sm_get(r, (#[trigger] ups[i]).0) == Some(ups[i].1) by {
                if i < ups.len() - 1 {
                    assert(t[i] == ups[i]);
                    assert(crate::strmap::key_lt(ups[i].0, k));
                    crate::strmap::lemma_key_lt_irreflexive(k);
                    crate::strmap::law_get_other_after_insert(prev.0, k, v, ups[i].0);
                }
            }
        } else {
            assert forall|i: int| 0 <= i < ups.len() implies sm_get(r, (#[trigger] ups[i]).0) == Some(ups[i].1) by {
                if i < ups.len() - 1 {
                    assert(t[i] == ups[i]);
                }
            }
        }
        lemma_apply_updates_settled(r, ups);
    }
}

/// A kept note fits the tier's length limit, and a member's note is kept
/// only from a message about TeamSpeak.
pub proof fn law_kept_note_is_limited(message: Seq<char>, lower: Seq<char>, tier: TrustTier)
    ensures
        kept_note(message, lower, tier) matches Some(n) ==> n.len() <= note_limit(tier),
        kept_note(message, lower, tier) is Some && tier == TrustTier::Member ==> is_ts_related(lower),
{
}

/// When a note is added it comes first, stamped, and the list holds at most
/// `max_notes` notes.
pub proof fn law_added_note_comes_first(
    notes: Seq<Seq<char>>,
    note: Option<Seq<char>>,
    stamp: Seq<char>,
    max_notes: nat,
)
    ensures
        notes_after(notes, note, stamp, max_notes).1 ==> notes_after(notes, note, stamp, max_notes).0.len() <= max_notes,
        notes_after(notes, note, stamp, max_notes).1 && max_notes > 0 ==> notes_after(notes, note, stamp, max_notes).0[0]
            == "["@ + stamp + "] "@ + note->0,
        !notes_after(notes, note, stamp, max_notes).1 ==> notes_after(notes, note, stamp, max_notes).0 == notes,
{
}


/// Setting a preferred language in a memory file and then reading the
/// file's preferred language gives that language back, for every file in
/// which a `Preferred language:` label starts its line wherever it starts
/// the trimmed line.
pub proof fn law_written_language_reads_back(content: Seq<char>, language: Seq<char>)
    requires
        trimmed_shape(language),
        no_newline(language),
        forall|i: int|
            0 <= i < lines(content).len() && starts_with(trim(#[trigger] lines(content)[i]), pref_prefix())
                ==> starts_with(lines(content)[i], pref_prefix()),
    ensures
        preferred_language(upsert_spec(content, language)) == Some(language),
{
    let p = pref_prefix();
    let ls = lines(content);
    lemma_lines_have_no_newline(content, 0);
    lemma_pref_line_value(language);
    let replaced = exists|i: int| 0 <= i < ls.len() && starts_with(#[trigger] ls[i], p);
    let out = if replaced {
        upsert_lines(ls, language)
    } else {
        upsert_lines(ls, language).push(pref_line(language))
    };
    let k: int = if replaced {
        choose|i: int| 0 <= i < ls.len() && starts_with(#[trigger] ls[i], p)
    } else {
        ls.len() as int
    };
    assert(0 <= k < out.len() && out[k] == pref_line(language));
    assert forall|i: int| 0 <= i < out.len() implies no_newline(#[trigger] out[i]) && (value_after(out[i], p) is None
        || value_after(out[i], p) == Some(language)) by {
        if i < ls.len() && !starts_with(ls[i], p) {
            assert(out[i] == ls[i]);
        }
    }
    reveal_strlit("\n");
    let nl = seq!['\n'];
    assert("\n"@ =~= nl);
    let r = upsert_spec(content, language);
    let ls2 = lines(r);
    if ends_with(content, "\n"@) {
        assert(r =~= join(out, nl) + nl);
        lemma_lines_of_join_ended(out);
        assert forall|i: int| 0 <= i < ls2.len() implies #[trigger] value_after(ls2[i], p) == value_after(out[i], p) by {
            lemma_trim_strip_cr(out[i]);
        }
    } else {
        assert(r =~= join(out, nl));
        lemma_lines_of_join(out);
        let d = out.drop_last();
        assert forall|i: int| 0 <= i < d.len() implies #[trigger] value_after(ls2[i], p) == value_after(out[i], p) by {
            lemma_trim_strip_cr(out[i]);
            assert(d[i] == out[i]);
        }
        if out.last().len() > 0 {
            assert(ls2[d.len() as int] == out.last());
        } else {
            assert(k < d.len());
        }
    }
    lemma_first_value_agreed(ls2, p, language, k);
}


proof fn lemma_get_put(m: Entries, key: Seq<char>, v: Option<Seq<char>>, k: Seq<char>)
    requires
        sorted(m),
    ensures
        sorted(put(m, key, v)),
        sm_get(put(m, key, v), k) == (if k == key && v is Some { v } else { sm_get(m, k) }),
{
    if let Some(x) = v {
        crate::strmap::law_insert_keeps_sorted(m, key, x);
        if k == key {
            crate::strmap::law_get_after_insert(m, key, x);
        } else {
            crate::strmap::law_get_other_after_insert(m, key, x, k);
        }
    }
}

proof fn lemma_get_remove(m: Entries, key: Seq<char>, k: Seq<char>)
    requires
        sorted(m),
    ensures
        sorted(sm_remove(m, key)),
        sm_get(sm_remove(m, key), k) == (if k == key { None } else { sm_get(m, k) }),
{
    crate::strmap::law_remove_keeps_sorted(m, key);
    if k == key {
        crate::strmap::law_get_after_remove(m, key);
    } else {
        crate::strmap::law_get_other_after_remove(m, key, k);
    }
}

/// The value the updates hold under `k`, read off step by step.
proof fn lemma_updates_get(message: Seq<char>, lower: Seq<char>, tier: TrustTier, k: Seq<char>)
    ensures
        sorted(updates_spec(message, lower, tier)),
        sm_get(updates_spec(message, lower, tier), k) == if k == "ts_scope"@ {
            Some(if tier == TrustTier::Owner { "owner_full"@ } else { "teamspeak_only"@ })
        } else if k == "tts_mode"@ && asks_tts_off(lower) {
            Some("off"@)
        } else if k == "tts_mode"@ && asks_tts_on(lower) {
            Some("on"@)
        } else if k == "interaction_mode"@ && !(tier == TrustTier::Member && !is_ts_related(message)) {
            interaction_mode_of(lower)
        } else if k == "response_language"@ && tier == TrustTier::Owner {
            if prefers_language_spec(lower, "english"@) {
                Some("English"@)
            } else if prefers_language_spec(lower, "serbian"@) {
                Some("Serbian"@)
            } else {
                None
            }
        } else if k == "response_style"@ && tier == TrustTier::Owner {
            if prefers_style_spec(lower, "concise"@) {
                Some("concise"@)
            } else if prefers_style_spec(lower, "detailed"@) {
                Some("detailed"@)
            } else {
                None
            }
        } else {
            None
        },
{
    let im = "interaction_mode"@;
    let tm = "tts_mode"@;
    let ts = "ts_scope"@;
    let rl = "response_language"@;
    let rs = "response_style"@;
    reveal_strlit("interaction_mode");
    reveal_strlit("tts_mode");
    reveal_strlit("ts_scope");
    reveal_strlit("response_language");
    reveal_strlit("response_style");
    assert(im.len() != tm.len() && im.len() != ts.len() && im.len() != rl.len() && im.len() != rs.len());
    assert(tm[1] != ts[1] && tm.len() != rl.len() && tm.len() != rs.len() && ts.len() != rl.len() && ts.len()
        != rs.len() && rl.len() != rs.len());
    let m0 = Seq::<(Seq<char>, Seq<char>)>::empty();
    assert(sorted(m0));
    assert(!crate::strmap::has_key_at(m0, k));
    let m1 = put(m0, im, interaction_mode_of(lower));
    lemma_get_put(m0, im, interaction_mode_of(lower), k);
    let m2 = if asks_tts_on(lower) { sm_insert(m1, tm, "on"@) } else { m1 };
    lemma_get_put(m1, tm, if asks_tts_on(lower) { Some("on"@) } else { None }, k);
    let m3 = if asks_tts_off(lower) { sm_insert(m2, tm, "off"@) } else { m2 };
    lemma_get_put(m2, tm, if asks_tts_off(lower) { Some("off"@) } else { None }, k);
    match tier {
        TrustTier::Owner => {
            let lang = if prefers_language_spec(lower, "english"@) {
                Some("English"@)
            } else if prefers_language_spec(lower, "serbian"@) {
                Some("Serbian"@)
            } else {
                None
            };
            let style = if prefers_style_spec(lower, "concise"@) {
                Some("concise"@)
            } else if prefers_style_spec(lower, "detailed"@) {
                Some("detailed"@)
            } else {
                None
            };
            lemma_get_put(m3, rl, lang, k);
            let m4 = put(m3, rl, lang);
            lemma_get_put(m4, rs, style, k);
            let m5 = put(m4, rs, style);
            lemma_get_put(m5, ts, Some("owner_full"@), k);
        },
        TrustTier::Member => {
            lemma_get_put(m3, ts, Some("teamspeak_only"@), k);
            let m4 = sm_insert(m3, ts, "teamspeak_only"@);
            lemma_get_remove(m4, im, k);
        },
    }
}

/// What a message sets in its sender's profile. Asking to switch TTS off
/// sets `tts_mode` to `off`, even when the message also says `tts on`;
/// asking only to switch it on sets `on`; otherwise `tts_mode` is left
/// alone. `ts_scope` is `owner_full` for the owner and `teamspeak_only` for
/// members. `interaction_mode` follows the command (`$ticket`, then `$tts`,
/// then `$ask`), except for members' messages that are not about TeamSpeak.
/// Only the owner's messages set the response language and style. No other
/// field is touched.
pub proof fn law_updates_follow_the_message(message: Seq<char>, lower: Seq<char>, tier: TrustTier, k: Seq<char>)
    ensures
        (contains(lower, "$tts off"@) || contains(lower, "tts off"@) || contains(lower, "iskljuci tts"@)) ==> sm_get(
            updates_spec(message, lower, tier),
            "tts_mode"@,
        ) == Some("off"@),
        !(contains(lower, "$tts off"@) || contains(lower, "tts off"@) || contains(lower, "iskljuci tts"@)) && (contains(
            lower,
            "$tts on"@,
        ) || contains(lower, "tts on"@) || contains(lower, "ukljuci tts"@)) ==> sm_get(
            updates_spec(message, lower, tier),
            "tts_mode"@,
        ) == Some("on"@),
        !(contains(lower, "$tts off"@) || contains(lower, "tts off"@) || contains(lower, "iskljuci tts"@)) && !(contains(
            lower,
            "$tts on"@,
        ) || contains(lower, "tts on"@) || contains(lower, "ukljuci tts"@)) ==> sm_get(
            updates_spec(message, lower, tier),
            "tts_mode"@,
        ) is None,
        sm_get(updates_spec(message, lower, TrustTier::Owner), "ts_scope"@) == Some("owner_full"@),
        sm_get(updates_spec(message, lower, TrustTier::Member), "ts_scope"@) == Some("teamspeak_only"@),
        sm_get(updates_spec(message, lower, tier), "interaction_mode"@) == if tier == TrustTier::Member
            && !is_ts_related(message) {
            None
        } else if contains(lower, "$ticket"@) {
            Some("ticket_support"@)
        } else if contains(lower, "$tts"@) {
            Some("voice_chat"@)
        } else if contains(lower, "$ask"@) {
            Some("text_chat"@)
        } else {
            None
        },
        sm_get(updates_spec(message, lower, TrustTier::Owner), "response_language"@) == if prefers_language_spec(
            lower,
            "english"@,
        ) {
            Some("English"@)
        } else if prefers_language_spec(lower, "serbian"@) {
            Some("Serbian"@)
        } else {
            None
        },
        sm_get(updates_spec(message, lower, TrustTier::Owner), "response_style"@) == if prefers_style_spec(
            lower,
            "concise"@,
        ) {
            Some("concise"@)
        } else if prefers_style_spec(lower, "detailed"@) {
            Some("detailed"@)
        } else {
            None
        },
        sm_get(updates_spec(message, lower, TrustTier::Member), "response_language"@) is None,
        sm_get(updates_spec(message, lower, TrustTier::Member), "response_style"@) is None,
        k != "tts_mode"@ && k != "ts_scope"@ && k != "interaction_mode"@ && k != "response_language"@ && k
            != "response_style"@ ==> sm_get(updates_spec(message, lower, tier), k) is None,
{
    reveal_strlit("interaction_mode");
    reveal_strlit("tts_mode");
    reveal_strlit("ts_scope");
    reveal_strlit("response_language");
    reveal_strlit("response_style");
    assert("tts_mode"@[1] != "ts_scope"@[1]);
    lemma_updates_get(message, lower, tier, "tts_mode"@);
    lemma_updates_get(message, lower, TrustTier::Owner, "ts_scope"@);
    lemma_updates_get(message, lower, TrustTier::Member, "ts_scope"@);
    lemma_updates_get(message, lower, tier, "interaction_mode"@);
    lemma_updates_get(message, lower, TrustTier::Owner, "response_language"@);
    lemma_updates_get(message, lower, TrustTier::Owner, "response_style"@);
    lemma_updates_get(message, lower, TrustTier::Member, "response_language"@);
    lemma_updates_get(message, lower, TrustTier::Member, "response_style"@);
    lemma_updates_get(message, lower, tier, k);
}

} // verus!

