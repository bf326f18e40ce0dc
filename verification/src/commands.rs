//! Chat commands the bot answers itself, the rate limit on incoming
//! messages, and the small text rules around them.
use vstd::prelude::*;
use crate::actions::opt_view;
use crate::text::{
    char_seqs, chars_of, decimal, find, find_exec, join, lines, lines_exec, slice_chars, starts_with, str_eq,
    str_starts_with, string_of, string_views, strip_prefix_all, strip_prefix_all_exec, trim, trim_chars, trim_str,
    truncate, contains,
};

verus! {

// ---------------------------------------------------------------- rate limit

/// Accepts at most `max_per_second` messages in any one-second window.
/// Times are milliseconds on a clock that does not go backwards.
pub struct RateLimiter {
    pub timestamps: Vec<u64>,
    pub max_per_second: u8,
}

/// The recorded times no more than a second before `now`.
pub open spec fn recent(ts: Seq<u64>, now: u64) -> Seq<u64>
    decreases ts.len(),
{
    if ts.len() == 0 {
        Seq::empty()
    } else if now <= ts.last() + 1000 {
        recent(ts.drop_last(), now).push(ts.last())
    } else {
        recent(ts.drop_last(), now)
    }
}

impl RateLimiter {
    pub fn new(max_per_second: u8) -> (r: Self)
        ensures
            r.timestamps@.len() == 0,
            r.max_per_second == max_per_second,
    {
        RateLimiter { timestamps: Vec::new(), max_per_second }
    }

    /// Whether a message arriving at `now_ms` is accepted; only accepted
    /// messages are recorded, and times older than a second are forgotten.
    pub fn check_and_record(&mut self, now_ms: u64) -> (r: bool)
        ensures
            final(self).max_per_second == old(self).max_per_second,
            r == (recent(old(self).timestamps@, now_ms).len() < old(self).max_per_second),
            final(self).timestamps@ == if r {
                recent(old(self).timestamps@, now_ms).push(now_ms)
            } else {
                recent(old(self).timestamps@, now_ms)
            },
    {
        let mut kept: Vec<u64> = Vec::new();
        let mut i: usize = 0;
        while i < self.timestamps.len()
            invariant
                i <= self.timestamps@.len(),
                kept@ == recent(self.timestamps@.take(i as int), now_ms),
            decreases self.timestamps@.len() - i,
        {
            assert(self.timestamps@.take(i + 1).drop_last() =~= self.timestamps@.take(i as int));
            let t = self.timestamps[i];
            if t >= now_ms || now_ms - t <= 1000 {
                kept.push(t);
            }
            i = i + 1;
        }
        assert(self.timestamps@.take(i as int) =~= self.timestamps@);
        let ok = kept.len() < self.max_per_second as usize;
        if ok {
            kept.push(now_ms);
        }
        self.timestamps = kept;
        ok
    }
}

/// An accepted message leaves at most `max_per_second` messages recorded
/// within the last second, the new one included.
pub proof fn law_rate_limit_holds(ts: Seq<u64>, now: u64, max: u8)
    requires
        recent(ts, now).len() < max,
    ensures
        recent(ts, now).push(now).len() <= max,
{
}

proof fn lemma_recent_shorter(ts: Seq<u64>, now: u64)
    ensures
        recent(ts, now).len() <= ts.len(),
    decreases ts.len(),
{
    if ts.len() > 0 {
        lemma_recent_shorter(ts.drop_last(), now);
    }
}

/// The limiter never remembers more than `max_per_second` times: a call
/// keeps that bound whether it accepts the message or not.
pub proof fn law_limiter_memory_bounded(ts: Seq<u64>, now: u64, max: u8)
    requires
        ts.len() <= max,
    ensures
        (if recent(ts, now).len() < max {
            recent(ts, now).push(now)
        } else {
            recent(ts, now)
        }).len() <= max,
{
    lemma_recent_shorter(ts, now);
}

// ---------------------------------------------------------------- radio arguments

/// `"Some Name" url`, or `Name url` where the URL starts at the first `http`.
pub open spec fn radio_args_spec(args: Seq<char>) -> Option<(Seq<char>, Seq<char>)> {
    let a = trim(args);
    if starts_with(a, seq!['"']) {
        let st = a.skip(1);
        match find(st, seq!['"']) {
            Some(q) => if trim(st.skip(q + 1)).len() > 0 {
                Some((st.take(q), trim(st.skip(q + 1))))
            } else {
                None
            },
            None => None,
        }
    } else {
        match find(a, "http"@) {
            Some(h) => if trim(a.take(h)).len() > 0 && trim(a.skip(h)).len() > 0 {
                Some((trim(a.take(h)), trim(a.skip(h))))
            } else {
                None
            },
            None => None,
        }
    }
}

/// The station name and URL of a radio command.
pub fn parse_radio_args(args: &str) -> (r: Option<(String, String)>)
    ensures
        match r {
            Some((n, u)) => radio_args_spec(args@) == Some((n@, u@)),
            None => radio_args_spec(args@) is None,
        },
{
    let av = chars_of(args);
    let a = trim_chars(av.as_slice());
    let quote = vec!['"'];
    assert(quote@ =~= seq!['"']);
    if a.len() > 0 && a[0] == '"' {
        assert(starts_with(a@, seq!['"'])) by {
            assert(a@.take(1) =~= seq!['"']);
        }
        let st = slice_chars(a.as_slice(), 1, a.len());
        assert(st@ =~= a@.skip(1));
        match find_exec(st.as_slice(), quote.as_slice(), 0) {
            Some(q) => {
                proof {
                    crate::text::lemma_find_from(st@, quote@, 0);
                }
                let rest = slice_chars(st.as_slice(), q + 1, st.len());
                assert(rest@ =~= st@.skip(q + 1));
                let rt = trim_chars(rest.as_slice());
                if rt.len() > 0 {
                    let name = slice_chars(st.as_slice(), 0, q);
                    assert(name@ =~= st@.take(q as int));
                    Some((string_of(name.as_slice()), string_of(rt.as_slice())))
                } else {
                    None
                }
            },
            None => None,
        }
    } else {
        assert(!starts_with(a@, seq!['"'])) by {
            if a@.len() > 0 {
                assert(a@.take(1)[0] == a@[0]);
            }
        }
        let http = chars_of("http");
        match find_exec(a.as_slice(), http.as_slice(), 0) {
            Some(h) => {
                proof {
                    crate::text::lemma_find_from(a@, http@, 0);
                }
                let before = slice_chars(a.as_slice(), 0, h);
                let after = slice_chars(a.as_slice(), h, a.len());
                assert(before@ =~= a@.take(h as int));
                assert(after@ =~= a@.skip(h as int));
                let name = trim_chars(before.as_slice());
                let url = trim_chars(after.as_slice());
                if name.len() > 0 && url.len() > 0 {
                    Some((string_of(name.as_slice()), string_of(url.as_slice())))
                } else {
                    None
                }
            },
            None => None,
        }
    }
}

// ---------------------------------------------------------------- sanitizing

/// Whether `char::is_alphanumeric` holds (Unicode `Alphabetic` or `Numeric`).
pub uninterp spec fn unicode_alphanumeric(c: char) -> bool;

/// `char::is_alphanumeric`; ASCII letters and digits are alphanumeric.
#[verifier::external_body]
fn is_alphanumeric(c: char) -> (r: bool)
    ensures
        r == unicode_alphanumeric(c),
        crate::text::is_ascii_alnum(c) ==> r,
{
    c.is_alphanumeric()
}

/// Punctuation and spacing kept by `sanitize`.
pub open spec fn safe_symbol(c: char) -> bool {
    c == ' ' || c == '\t' || c == '.' || c == ':' || c == '-' || c == '_' || c == '"' || c == '\'' || c == '/'
        || c == '(' || c == ')' || c == '[' || c == ']' || c == '{' || c == '}' || c == '!' || c == '?' || c == ','
        || c == '\n'
}

pub open spec fn sanitized(s: Seq<char>) -> Seq<char>
    decreases s.len(),
{
    if s.len() == 0 {
        Seq::empty()
    } else if unicode_alphanumeric(s.last()) || safe_symbol(s.last()) {
        sanitized(s.drop_last()).push(s.last())
    } else {
        sanitized(s.drop_last())
    }
}

/// The characters of `s` that are alphanumeric or safe punctuation.
pub fn sanitize(s: &str) -> (r: String)
    ensures
        r@ == sanitized(s@),
{
    let v = chars_of(s);
    let mut out: Vec<char> = Vec::new();
    let mut i: usize = 0;
    while i < v.len()
        invariant
            i <= v@.len(),
            out@ == sanitized(v@.take(i as int)),
        decreases v@.len() - i,
    {
        assert(v@.take(i + 1).drop_last() =~= v@.take(i as int));
        let c = v[i];
        let keep = is_alphanumeric(c) || c == ' ' || c == '\t' || c == '.' || c == ':' || c == '-' || c == '_'
            || c == '"' || c == '\'' || c == '/' || c == '(' || c == ')' || c == '[' || c == ']' || c == '{' || c
            == '}' || c == '!' || c == '?' || c == ',' || c == '\n';
        if keep {
            out.push(c);
        }
        i = i + 1;
    }
    assert(v@.take(i as int) =~= v@);
    string_of(out.as_slice())
}

/// At most `max_chars` characters of a report.
pub fn truncate_report_chars(input: &str, max_chars: usize) -> (r: String)
    ensures
        r@ == truncate(input@, max_chars as nat),
{
    crate::text::truncate_chars(input, max_chars)
}

// ---------------------------------------------------------------- numbers

pub open spec fn is_digit(c: char) -> bool {
    '0' <= c && c <= '9'
}

pub open spec fn digits_value(s: Seq<char>) -> nat
    decreases s.len(),
{
    if s.len() == 0 {
        0
    } else {
        digits_value(s.drop_last()) * 10 + ((s.last() as int - '0' as int) as nat)
    }
}

pub open spec fn all_digits(d: Seq<char>) -> bool {
    forall|i: int| 0 <= i < d.len() ==> is_digit(#[trigger] d[i])
}

/// `str::parse::<u8>`: an optional `+`, then one or more digits, of value at most 255.
pub open spec fn parse_u8_spec(s: Seq<char>) -> Option<u8> {
    let d = if s.len() > 0 && s[0] == '+' {
        s.skip(1)
    } else {
        s
    };
    if d.len() > 0 && all_digits(d) && digits_value(d) <= 255 {
        Some(digits_value(d) as u8)
    } else {
        None
    }
}

fn digit_value(c: char) -> (r: u32)
    requires
        is_digit(c),
    ensures
        r == c as int - '0' as int,
        r <= 9,
{
    if c == '0' {
        0
    } else if c == '1' {
        1
    } else if c == '2' {
        2
    } else if c == '3' {
        3
    } else if c == '4' {
        4
    } else if c == '5' {
        5
    } else if c == '6' {
        6
    } else if c == '7' {
        7
    } else if c == '8' {
        8
    } else {
        assert(c == '9');
        9
    }
}

pub fn parse_u8(s: &str) -> (r: Option<u8>)
    ensures
        r == parse_u8_spec(s@),
{
    let v = chars_of(s);
    let start: usize = if v.len() > 0 && v[0] == '+' {
        1
    } else {
        0
    };
    let d = slice_chars(v.as_slice(), start, v.len());
    assert(d@ =~= if v@.len() > 0 && v@[0] == '+' {
        v@.skip(1)
    } else {
        v@
    });
    let ghost sd = if s@.len() > 0 && s@[0] == '+' {
        s@.skip(1)
    } else {
        s@
    };
    assert(sd == d@);
    if d.len() == 0 {
        assert(sd.len() == 0);
        assert(parse_u8_spec(s@) is None);
        return None;
    }
    let mut value: u32 = 0;
    let mut i: usize = 0;
    while i < d.len()
        invariant
            i <= d@.len(),
            d@ == (if s@.len() > 0 && s@[0] == '+' {
                s@.skip(1)
            } else {
                s@
            }),
            forall|k: int| 0 <= k < i ==> is_digit(#[trigger] d@[k]),
            value == digits_value(d@.take(i as int)),
            value <= 255,
        decreases d@.len() - i,
    {
        assert(d@.take(i + 1).drop_last() =~= d@.take(i as int));
        let c = d[i];
        if !('0' <= c && c <= '9') {
            assert(!is_digit(d@[i as int]));
            assert(!all_digits(d@));
            assert(parse_u8_spec(s@) is None);
            return None;
        }
        let next = value * 10 + digit_value(c);
        if next > 255 {
            proof {
                lemma_digits_value_grows(d@, i + 1);
            }
            return None;
        }
        value = next;
        i = i + 1;
    }
    assert(d@.take(i as int) =~= d@);
    Some(value as u8)
}

/// A longer digit prefix never has a smaller value.
proof fn lemma_digits_value_grows(d: Seq<char>, k: int)
    requires
        0 <= k <= d.len(),
        forall|i: int| 0 <= i < d.len() ==> is_digit(#[trigger] d[i]) || i >= k,
    ensures
        (forall|i: int| 0 <= i < d.len() ==> is_digit(#[trigger] d[i])) ==> digits_value(d.take(k)) <= digits_value(d),
    decreases d.len() - k,
{
    if k < d.len() {
        if forall|i: int| 0 <= i < d.len() ==> is_digit(#[trigger] d[i]) {
            lemma_digits_value_grows(d, k + 1);
            assert(d.take(k + 1).drop_last() =~= d.take(k));
            assert(is_digit(d[k]));
        }
    } else {
        assert(d.take(k) =~= d);
    }
}


/// `str::parse::<u64>`: an optional `+`, then one or more digits, of value
/// at most `u64::MAX`.
pub open spec fn parse_u64_spec(s: Seq<char>) -> Option<u64> {
    let d = if s.len() > 0 && s[0] == '+' {
        s.skip(1)
    } else {
        s
    };
    if d.len() > 0 && all_digits(d) && digits_value(d) <= u64::MAX {
        Some(digits_value(d) as u64)
    } else {
        None
    }
}

pub fn parse_u64(s: &str) -> (r: Option<u64>)
    ensures
        r == parse_u64_spec(s@),
{
    let v = chars_of(s);
    let start: usize = if v.len() > 0 && v[0] == '+' {
        1
    } else {
        0
    };
    let d = slice_chars(v.as_slice(), start, v.len());
    assert(d@ =~= if v@.len() > 0 && v@[0] == '+' {
        v@.skip(1)
    } else {
        v@
    });
    if d.len() == 0 {
        return None;
    }
    let mut value: u128 = 0;
    let mut i: usize = 0;
    while i < d.len()
        invariant
            i <= d@.len(),
            d@ == (if s@.len() > 0 && s@[0] == '+' {
                s@.skip(1)
            } else {
                s@
            }),
            forall|k: int| 0 <= k < i ==> is_digit(#[trigger] d@[k]),
            value == digits_value(d@.take(i as int)),
            value <= u64::MAX,
        decreases d@.len() - i,
    {
        assert(d@.take(i + 1).drop_last() =~= d@.take(i as int));
        let c = d[i];
        if !('0' <= c && c <= '9') {
            assert(!is_digit(d@[i as int]));
            assert(!all_digits(d@));
            return None;
        }
        let next = value * 10 + digit_value(c) as u128;
        if next > 0xffff_ffff_ffff_ffff {
            proof {
                lemma_digits_value_grows(d@, i + 1);
            }
            return None;
        }
        value = next;
        i = i + 1;
    }
    assert(d@.take(i as int) =~= d@);
    Some(value as u64)
}

// ---------------------------------------------------------------- commands

/// A chat message as a command the bot handles itself, or a request for
/// the model, in the order the bot checks them.
pub enum BotCommand {
    /// `$ticket …`: the text after the command.
    Ticket { content: String },
    /// `$identity <uid>` (administrators).
    Identity { content: String },
    /// `$memory …` (administrators).
    Memory { content: String },
    /// `$play <url>` (administrators).
    Play { url: String },
    /// `$stop` (administrators).
    Stop,
    /// `$vol [level]` (administrators); no level when it does not parse.
    Volume { level: Option<u8> },
    /// `$radios`.
    Radios,
    /// `$radio <name>` (administrators).
    Radio { name: String },
    /// `$addradio "Name" url` (administrators); none when malformed.
    AddRadio { station: Option<(String, String)> },
    /// `$delradio <name>` (administrators).
    DelRadio { name: String },
    /// `$editradio "Name" url` (administrators); none when malformed.
    EditRadio { station: Option<(String, String)> },
    /// `$ask …`: the question for the model.
    Ask { message: String },
    /// `$tts …` (administrators): the whole message goes to the model.
    Tts { message: String },
    /// An administrators' command from someone else; the reply to send.
    Refused { reply: String },
    /// Not a command.
    Other,
}

pub ghost enum CommandView {
    Ticket { content: Seq<char> },
    Identity { content: Seq<char> },
    Memory { content: Seq<char> },
    Play { url: Seq<char> },
    Stop,
    Volume { level: Option<u8> },
    Radios,
    Radio { name: Seq<char> },
    AddRadio { station: Option<(Seq<char>, Seq<char>)> },
    DelRadio { name: Seq<char> },
    EditRadio { station: Option<(Seq<char>, Seq<char>)> },
    Ask { message: Seq<char> },
    Tts { message: Seq<char> },
    Refused { reply: Seq<char> },
    Other,
}

pub open spec fn pair_view(p: Option<(String, String)>) -> Option<(Seq<char>, Seq<char>)> {
    match p {
        Some((a, b)) => Some((a@, b@)),
        None => None,
    }
}

impl View for BotCommand {
    type V = CommandView;

    open spec fn view(&self) -> CommandView {
        match self {
            BotCommand::Ticket { content } => CommandView::Ticket { content: content@ },
            BotCommand::Identity { content } => CommandView::Identity { content: content@ },
            BotCommand::Memory { content } => CommandView::Memory { content: content@ },
            BotCommand::Play { url } => CommandView::Play { url: url@ },
            BotCommand::Stop => CommandView::Stop,
            BotCommand::Volume { level } => CommandView::Volume { level: *level },
            BotCommand::Radios => CommandView::Radios,
            BotCommand::Radio { name } => CommandView::Radio { name: name@ },
            BotCommand::AddRadio { station } => CommandView::AddRadio { station: pair_view(*station) },
            BotCommand::DelRadio { name } => CommandView::DelRadio { name: name@ },
            BotCommand::EditRadio { station } => CommandView::EditRadio { station: pair_view(*station) },
            BotCommand::Ask { message } => CommandView::Ask { message: message@ },
            BotCommand::Tts { message } => CommandView::Tts { message: message@ },
            BotCommand::Refused { reply } => CommandView::Refused { reply: reply@ },
            BotCommand::Other => CommandView::Other,
        }
    }
}

pub open spec fn admin_only_text() -> Seq<char> {
    "Only administrators can use this command."@
}

pub open spec fn memory_admin_only_text() -> Seq<char> {
    "Only administrators can use `$memory`."@
}

/// The text after every leading copy of the command word, trimmed.
pub open spec fn after(raw: Seq<char>, word: Seq<char>) -> Seq<char> {
    trim(strip_prefix_all(raw, word))
}

/// An administrators' command: itself for administrators, a refusal otherwise.
pub open spec fn admin_cmd(is_admin: bool, c: CommandView) -> CommandView {
    if is_admin {
        c
    } else {
        CommandView::Refused { reply: admin_only_text() }
    }
}

/// How the bot reads a chat message.
pub open spec fn command_spec(raw: Seq<char>, is_admin: bool) -> CommandView {
    if starts_with(raw, "$ticket"@) {
        CommandView::Ticket { content: after(raw, "$ticket"@) }
    } else if starts_with(raw, "$identity"@) && is_admin {
        CommandView::Identity { content: after(raw, "$identity"@) }
    } else if starts_with(raw, "$memory"@) {
        if is_admin {
            CommandView::Memory { content: after(raw, "$memory"@) }
        } else {
            CommandView::Refused { reply: memory_admin_only_text() }
        }
    } else if starts_with(raw, "$play "@) {
        admin_cmd(is_admin, CommandView::Play { url: after(raw, "$play "@) })
    } else if raw == "$stop"@ {
        admin_cmd(is_admin, CommandView::Stop)
    } else if starts_with(raw, "$vol"@) {
        admin_cmd(is_admin, CommandView::Volume { level: parse_u8_spec(after(raw, "$vol"@)) })
    } else if raw == "$radios"@ {
        CommandView::Radios
    } else if starts_with(raw, "$radio "@) {
        admin_cmd(is_admin, CommandView::Radio { name: after(raw, "$radio "@) })
    } else if starts_with(raw, "$addradio "@) {
        admin_cmd(is_admin, CommandView::AddRadio { station: radio_args_spec(after(raw, "$addradio "@)) })
    } else if starts_with(raw, "$delradio "@) {
        admin_cmd(is_admin, CommandView::DelRadio { name: after(raw, "$delradio "@) })
    } else if starts_with(raw, "$editradio "@) {
        admin_cmd(is_admin, CommandView::EditRadio { station: radio_args_spec(after(raw, "$editradio "@)) })
    } else if starts_with(raw, "$ask "@) {
        CommandView::Ask { message: strip_prefix_all(raw, "$ask "@) }
    } else if raw == "$ask"@ {
        CommandView::Ask { message: Seq::empty() }
    } else if starts_with(raw, "$tts"@) {
        admin_cmd(is_admin, CommandView::Tts { message: raw })
    } else {
        CommandView::Other
    }
}

fn after_exec(raw: &str, word: &str) -> (r: String)
    requires
        word@.len() > 0,
    ensures
        r@ == after(raw@, word@),
{
    let rv = chars_of(raw);
    let wv = chars_of(word);
    let s = strip_prefix_all_exec(rv.as_slice(), wv.as_slice());
    let t = trim_chars(s.as_slice());
    string_of(t.as_slice())
}

fn admin_command(is_admin: bool, c: BotCommand) -> (r: BotCommand)
    ensures
        r@ == admin_cmd(is_admin, c@),
{
    if is_admin {
        c
    } else {
        BotCommand::Refused { reply: "Only administrators can use this command.".to_string() }
    }
}

/// How the bot reads a chat message (see `command_spec`).
pub fn parse_command(raw: &str, is_admin: bool) -> (r: BotCommand)
    ensures
        r@ == command_spec(raw@, is_admin),
{
    proof {
        reveal_strlit("$ticket");
        reveal_strlit("$identity");
        reveal_strlit("$memory");
        reveal_strlit("$play ");
        reveal_strlit("$vol");
        reveal_strlit("$radio ");
        reveal_strlit("$addradio ");
        reveal_strlit("$delradio ");
        reveal_strlit("$editradio ");
        reveal_strlit("$ask ");
    }
    if str_starts_with(raw, "$ticket") {
        BotCommand::Ticket { content: after_exec(raw, "$ticket") }
    } else if str_starts_with(raw, "$identity") && is_admin {
        BotCommand::Identity { content: after_exec(raw, "$identity") }
    } else if str_starts_with(raw, "$memory") {
        if is_admin {
            BotCommand::Memory { content: after_exec(raw, "$memory") }
        } else {
            BotCommand::Refused { reply: "Only administrators can use `$memory`.".to_string() }
        }
    } else if str_starts_with(raw, "$play ") {
        admin_command(is_admin, BotCommand::Play { url: after_exec(raw, "$play ") })
    } else if str_eq(raw, "$stop") {
        admin_command(is_admin, BotCommand::Stop)
    } else if str_starts_with(raw, "$vol") {
        let v = after_exec(raw, "$vol");
        admin_command(is_admin, BotCommand::Volume { level: parse_u8(v.as_str()) })
    } else if str_eq(raw, "$radios") {
        BotCommand::Radios
    } else if str_starts_with(raw, "$radio ") {
        admin_command(is_admin, BotCommand::Radio { name: after_exec(raw, "$radio ") })
    } else if str_starts_with(raw, "$addradio ") {
        let a = after_exec(raw, "$addradio ");
        admin_command(is_admin, BotCommand::AddRadio { station: parse_radio_args(a.as_str()) })
    } else if str_starts_with(raw, "$delradio ") {
        admin_command(is_admin, BotCommand::DelRadio { name: after_exec(raw, "$delradio ") })
    } else if str_starts_with(raw, "$editradio ") {
        let a = after_exec(raw, "$editradio ");
        admin_command(is_admin, BotCommand::EditRadio { station: parse_radio_args(a.as_str()) })
    } else if str_starts_with(raw, "$ask ") {
        let rv = chars_of(raw);
        let wv = chars_of("$ask ");
        let m = strip_prefix_all_exec(rv.as_slice(), wv.as_slice());
        BotCommand::Ask { message: string_of(m.as_slice()) }
    } else if str_eq(raw, "$ask") {
        BotCommand::Ask { message: String::new() }
    } else if str_starts_with(raw, "$tts") {
        admin_command(is_admin, BotCommand::Tts { message: raw.to_string() })
    } else {
        BotCommand::Other
    }
}

/// The names of the self-assignable groups with their ids, as `name=id`
/// joined by commas.
pub open spec fn group_entries(groups: Seq<(String, u64)>) -> Seq<Seq<char>> {
    groups.map_values(|g: (String, u64)| g.0@ + "="@ + decimal(g.1 as nat))
}

pub fn server_groups_text(groups: &Vec<(String, u64)>) -> (r: String)
    ensures
        r@ == join(group_entries(groups@), ", "@),
{
    let mut parts: Vec<String> = Vec::new();
    let mut i: usize = 0;
    while i < groups.len()
        invariant
            i <= groups@.len(),
            string_views(parts@) == group_entries(groups@).take(i as int),
        decreases groups@.len() - i,
    {
        let mut v: Vec<char> = Vec::new();
        crate::text::push_str(&mut v, groups[i].0.as_str());
        v.push('=');
        proof {
            reveal_strlit("=");
        }
        crate::text::push_u64(&mut v, groups[i].1);
        let ghost prev = parts@;
        let s = string_of(v.as_slice());
        parts.push(s);
        assert(parts@ == prev.push(s));
        assert(group_entries(groups@)[i as int] == s@);
        assert(group_entries(groups@).take(i + 1) =~= group_entries(groups@).take(i as int).push(s@));
        assert(string_views(parts@) =~= string_views(prev).push(s@));
        i = i + 1;
    }
    assert(group_entries(groups@).take(i as int) =~= group_entries(groups@));
    crate::text::join_strings(&parts, ", ")
}

// ---------------------------------------------------------------- memory report

/// The memory lines of one day that mention the UID, newest first, as
/// `day | entry`.
pub open spec fn day_entries(ls: Seq<Seq<char>>, day: Seq<char>, marker: Seq<char>) -> Seq<Seq<char>>
    decreases ls.len(),
{
    if ls.len() == 0 {
        Seq::empty()
    } else {
        let t = trim(ls.last());
        let rest = day_entries(ls.drop_last(), day, marker);
        if contains(t, marker) {
            seq![day + " | "@ + trim(strip_prefix_all(t, "- "@))] + rest
        } else {
            rest
        }
    }
}

pub open spec fn all_entries(days: Seq<(Seq<char>, Option<Seq<char>>)>, marker: Seq<char>) -> Seq<Seq<char>>
    decreases days.len(),
{
    if days.len() == 0 {
        Seq::empty()
    } else {
        let d = days[0];
        (match d.1 {
            Some(c) => day_entries(lines(c), d.0, marker),
            None => Seq::empty(),
        }) + all_entries(days.drop_first(), marker)
    }
}

pub open spec fn day_view(d: (String, Option<String>)) -> (Seq<char>, Option<Seq<char>>) {
    (d.0@, opt_view(d.1))
}

/// The recent memory entries of a UID: the first `limit` of the entries of
/// the days given (newest day first), each day's newest first.
pub open spec fn memory_entries_spec(days: Seq<(Seq<char>, Option<Seq<char>>)>, uid: Seq<char>, limit: nat) -> Seq<Seq<char>> {
    crate::context::first_n(all_entries(days, "("@ + trim(uid) + ")"@), limit)
}

pub fn collect_recent_memory_entries(days: &Vec<(String, Option<String>)>, target_uid: &str, limit: usize) -> (r: Vec<String>)
    ensures
        string_views(r@) == memory_entries_spec(days@.map_values(|d: (String, Option<String>)| day_view(d)), target_uid@, limit as nat),
{
    let ghost dv = days@.map_values(|d: (String, Option<String>)| day_view(d));
    let mut marker = "(".to_string();
    let tu = trim_str(target_uid);
    marker.append(tu.as_str());
    marker.append(")");
    let mut out: Vec<String> = Vec::new();
    if limit == 0 {
        return out;
    }
    let mut k: usize = 0;
    assert(dv.skip(0) =~= dv);
    while k < days.len()
        invariant
            k <= days@.len(),
            dv == days@.map_values(|d: (String, Option<String>)| day_view(d)),
            marker@ == "("@ + trim(target_uid@) + ")"@,
            0 < limit,
            out@.len() < limit,
            string_views(out@) + all_entries(dv.skip(k as int), marker@) == all_entries(dv, marker@),
        decreases days@.len() - k,
    {
        let ghost rest = dv.skip(k as int);
        assert(rest[0] == day_view(days@[k as int]));
        assert(rest.drop_first() =~= dv.skip(k + 1));
        match &days[k].1 {
            Some(content) => {
                let cv = chars_of(content.as_str());
                let ls = lines_exec(cv.as_slice());
                let ghost lv = char_seqs(ls@);
                let mut j: usize = ls.len();
                assert(lv.take(j as int) =~= lv);
                while j > 0
                    invariant
                        k < days@.len(),
                        dv == days@.map_values(|d: (String, Option<String>)| day_view(d)),
                        j <= ls@.len(),
                        lv == char_seqs(ls@),
                        lv == lines(content@),
                        marker@ == "("@ + trim(target_uid@) + ")"@,
                        0 < limit,
                        out@.len() < limit,
                        string_views(out@) + day_entries(lv.take(j as int), days@[k as int].0@, marker@) + all_entries(
                            dv.skip(k + 1),
                            marker@,
                        ) == all_entries(dv, marker@),
                    decreases j,
                {
                    let ghost pre = lv.take(j as int);
                    assert(pre.drop_last() =~= lv.take(j - 1));
                    assert(pre.last() == ls@[j - 1]@);
                    let t = trim_chars(ls[j - 1].as_slice());
                    let ts = string_of(t.as_slice());
                    if crate::text::str_contains(ts.as_str(), marker.as_str()) {
                        let dash = chars_of("- ");
                        proof {
                            reveal_strlit("- ");
                        }
                        let stripped = strip_prefix_all_exec(t.as_slice(), dash.as_slice());
                        let n = trim_chars(stripped.as_slice());
                        let mut e: Vec<char> = chars_of(days[k].0.as_str());
                        crate::text::push_str(&mut e, " | ");
                        crate::text::extend_chars(&mut e, n.as_slice());
                        let es = string_of(e.as_slice());
                        let ghost prev = out@;
                        out.push(es);
                        assert(string_views(out@) =~= string_views(prev).push(es@));
                        assert(string_views(out@) + day_entries(lv.take(j - 1), days@[k as int].0@, marker@)
                            =~= string_views(prev) + day_entries(pre, days@[k as int].0@, marker@));
                        if out.len() >= limit {
                            assert(string_views(out@).len() == limit);
                            proof {
                                lemma_first_n_prefix(
                                    string_views(out@),
                                    day_entries(lv.take(j - 1), days@[k as int].0@, marker@) + all_entries(
                                        dv.skip(k + 1),
                                        marker@,
                                    ),
                                    limit as nat,
                                );
                            }
                            assert(string_views(out@) + (day_entries(lv.take(j - 1), days@[k as int].0@, marker@)
                                + all_entries(dv.skip(k + 1), marker@)) =~= all_entries(dv, marker@));
                            assert(crate::context::first_n(all_entries(dv, marker@), limit as nat) == string_views(out@));
                            return out;
                        }
                    }
                    j = j - 1;
                }
                assert(lv.take(0) =~= Seq::<Seq<char>>::empty());
            },
            None => {},
        }
        assert(string_views(out@) + all_entries(dv.skip(k + 1), marker@) =~= all_entries(dv, marker@));
        k = k + 1;
    }
    assert(dv.skip(k as int) =~= Seq::<(Seq<char>, Option<Seq<char>>)>::empty());
    assert(string_views(out@) =~= all_entries(dv, marker@));
    assert(string_views(out@).len() == out@.len());
    out
}

/// The first `n` of `a + b`, when `a` has `n` items, are `a`.
proof fn lemma_first_n_prefix(a: Seq<Seq<char>>, b: Seq<Seq<char>>, n: nat)
    requires
        a.len() == n,
    ensures
        crate::context::first_n(a + b, n) == a,
{
    if b.len() > 0 {
        assert((a + b).take(n as int) =~= a);
    } else {
        assert(a + b =~= a);
    }
}

// ---------------------------------------------------------------- command replies

/// The `$memory show` report: the profile file (cut to 5000 characters) or
/// where it was looked for, then the recent memory entries.
pub open spec fn memory_report_spec(uid: Seq<char>, path: Seq<char>, content: Option<Seq<char>>, recent: Seq<Seq<char>>) -> Seq<char> {
    "🧠 MEMORY REPORT\nUID: "@ + uid + "\n"@ + (match content {
        Some(c) => "USER.md: "@ + path + "\n\n"@ + "=== USER.md ===\n"@ + truncate(c, 5000) + if c.len() > 5000 {
            "\n\n[USER.md TRUNCATED]"@
        } else {
            Seq::empty()
        },
        None => "USER.md not found at path: "@ + path + "\n"@,
    }) + "\n\n=== Recent memory entries ===\n"@ + if recent.len() == 0 {
        "(no auto-learning entries for this UID in the last 7 days)"@
    } else {
        entry_lines(recent)
    }
}

pub open spec fn entry_lines(es: Seq<Seq<char>>) -> Seq<char>
    decreases es.len(),
{
    if es.len() == 0 {
        Seq::empty()
    } else {
        entry_lines(es.drop_last()) + "- "@ + es.last() + "\n"@
    }
}

pub open spec fn memory_usage_text() -> Seq<char> {
    "UID is empty. Usage: `$memory show <uid>`"@
}

/// The `$memory show <uid>` report, given the profile file's path, its
/// content when it could be read, and the recent entries.
pub fn build_memory_show_report(target_uid: &str, user_file: &str, content: Option<&str>, recent: &Vec<String>) -> (r: String)
    ensures
        trim(target_uid@).len() == 0 ==> r@ == memory_usage_text(),
        trim(target_uid@).len() > 0 ==> r@ == memory_report_spec(
            trim(target_uid@),
            user_file@,
            match content {
                Some(c) => Some(c@),
                None => None,
            },
            string_views(recent@),
        ),
{
    let uid = trim_str(target_uid);
    if !crate::text::str_nonempty(uid.as_str()) {
        return "UID is empty. Usage: `$memory show <uid>`".to_string();
    }
    let mut out = chars_of("🧠 MEMORY REPORT\nUID: ");
    crate::text::push_str(&mut out, uid.as_str());
    crate::text::push_str(&mut out, "\n");
    let ghost head = out@;
    match content {
        Some(c) => {
            crate::text::push_str(&mut out, "USER.md: ");
            crate::text::push_str(&mut out, user_file);
            crate::text::push_str(&mut out, "\n\n");
            crate::text::push_str(&mut out, "=== USER.md ===\n");
            let t = crate::text::truncate_chars(c, 5000);
            crate::text::push_str(&mut out, t.as_str());
            let cv = chars_of(c);
            let ghost mid = out@;
            if cv.len() > 5000 {
                crate::text::push_str(&mut out, "\n\n[USER.md TRUNCATED]");
            } else {
                assert(mid + Seq::<char>::empty() =~= mid);
            }
        },
        None => {
            crate::text::push_str(&mut out, "USER.md not found at path: ");
            crate::text::push_str(&mut out, user_file);
            crate::text::push_str(&mut out, "\n");
        },
    }
    let ghost body = out@;
    crate::text::push_str(&mut out, "\n\n=== Recent memory entries ===\n");
    if recent.len() == 0 {
        crate::text::push_str(&mut out, "(no auto-learning entries for this UID in the last 7 days)");
    } else {
        let ghost start = out@;
        let mut i: usize = 0;
        while i < recent.len()
            invariant
                i <= recent@.len(),
                out@ == start + entry_lines(string_views(recent@).take(i as int)),
            decreases recent@.len() - i,
        {
            assert(string_views(recent@).take(i + 1).drop_last() =~= string_views(recent@).take(i as int));
            assert(string_views(recent@).take(i + 1).last() == recent@[i as int]@);
            crate::text::push_str(&mut out, "- ");
            crate::text::push_str(&mut out, recent[i].as_str());
            crate::text::push_str(&mut out, "\n");
            i = i + 1;
        }
        assert(string_views(recent@).take(i as int) =~= string_views(recent@));
    }
    string_of(out.as_slice())
}

/// The `$identity <uid>` answer.
pub open spec fn identity_report_spec(uid: Seq<char>, history: Option<Seq<Seq<char>>>) -> Seq<char> {
    if uid.len() == 0 {
        "Usage: `$identity <uid>`"@
    } else {
        match history {
            Some(h) => "Identity for UID: "@ + uid + "\n\nName history:\n`UID -> "@ + join(h, " -> "@) + "`"@,
            None => "No records found for UID: "@ + uid,
        }
    }
}

pub fn identity_report(uid: &str, history: Option<Vec<String>>) -> (r: String)
    ensures
        r@ == identity_report_spec(uid@, match history {
            Some(h) => Some(string_views(h@)),
            None => None,
        }),
{
    if !crate::text::str_nonempty(uid) {
        return "Usage: `$identity <uid>`".to_string();
    }
    match history {
        Some(h) => {
            let mut s = "Identity for UID: ".to_string();
            s.append(uid);
            s.append("\n\nName history:\n`UID -> ");
            let j = crate::text::join_strings(&h, " -> ");
            s.append(j.as_str());
            s.append("`");
            s
        },
        None => {
            let mut s = "No records found for UID: ".to_string();
            s.append(uid);
            s
        },
    }
}

/// The `$vol` answer: the new level, or the current one with the usage.
pub fn volume_reply(level: Option<u8>, current: u8) -> (r: String)
    ensures
        r@ == match level {
            Some(v) => "Volume set to "@ + decimal(v as nat) + "%."@,
            None => "Current volume: "@ + decimal(current as nat) + "%. Use `$vol [0-100]` to change it."@,
        },
{
    let mut out: Vec<char> = Vec::new();
    match level {
        Some(v) => {
            crate::text::push_str(&mut out, "Volume set to ");
            crate::text::push_u64(&mut out, v as u64);
            crate::text::push_str(&mut out, "%.");
        },
        None => {
            crate::text::push_str(&mut out, "Current volume: ");
            crate::text::push_u64(&mut out, current as u64);
            crate::text::push_str(&mut out, "%. Use `$vol [0-100]` to change it.");
        },
    }
    string_of(out.as_slice())
}

/// What administrators are told when someone tries an action beyond their level.
pub fn permission_alert(invoker_name: &str, level: crate::permissions::PermissionLevel, action_name: &str) -> (r: String)
    ensures
        r@ == "WARNING: User [b]"@ + invoker_name@ + "[/b] ("@ + crate::permissions::level_name(level)
            + ") attempted action [b]"@ + action_name@ + "[/b] without sufficient permissions."@,
{
    let mut s = "WARNING: User [b]".to_string();
    s.append(invoker_name);
    s.append("[/b] (");
    s.append(level.to_text());
    s.append(") attempted action [b]");
    s.append(action_name);
    s.append("[/b] without sufficient permissions.");
    s
}

/// Whether a user may change a channel: administrators always, others only
/// from inside it as its channel administrator.
pub fn may_manage_channel(is_admin: bool, in_channel: bool, is_channel_admin: bool) -> (r: bool)
    ensures
        r == (is_admin || (in_channel && is_channel_admin)),
{
    is_admin || (in_channel && is_channel_admin)
}

// ---------------------------------------------------------------- radio stations

/// The first station (in name order) whose name matches ignoring case.
pub open spec fn radio_match(m: crate::strmap::Entries, name: Seq<char>) -> Option<int>
    decreases m.len(),
{
    if m.len() == 0 {
        None
    } else {
        match radio_match(m.drop_last(), name) {
            Some(i) => Some(i),
            None => if crate::text::lowercase(m.last().0) == crate::text::lowercase(name) {
                Some(m.len() - 1)
            } else {
                None
            },
        }
    }
}

/// The saved station a name refers to, as its stored name and URL.
pub fn find_radio(radios: &crate::strmap::StrMap, name: &str) -> (r: Option<(String, String)>)
    ensures
        match radio_match(radios@, name@) {
            Some(i) => r matches Some((k, u)) && (k@, u@) == radios@[i],
            None => r is None,
        },
{
    let lname = crate::text::to_lowercase(name);
    let mut i: usize = 0;
    while i < radios.len()
        invariant
            i <= radios@.len(),
            lname@ == crate::text::lowercase(name@),
            radio_match(radios@.take(i as int), name@) is None,
        decreases radios@.len() - i,
    {
        assert(radios@.take(i + 1).drop_last() =~= radios@.take(i as int));
        let (k, u) = radios.entry(i);
        let lk = crate::text::to_lowercase(k.as_str());
        if str_eq(lk.as_str(), lname.as_str()) {
            proof {
                lemma_radio_prefix(radios@, i as int + 1, name@);
            }
            return Some((k.clone(), u.clone()));
        }
        i = i + 1;
    }
    assert(radios@.take(i as int) =~= radios@);
    None
}

proof fn lemma_radio_prefix(m: crate::strmap::Entries, k: int, name: Seq<char>)
    requires
        0 < k <= m.len(),
        radio_match(m.take(k - 1), name) is None,
        crate::text::lowercase(m[k - 1].0) == crate::text::lowercase(name),
    ensures
        radio_match(m, name) == Some(k - 1),
    decreases m.len(),
{
    assert(m.take(k).drop_last() =~= m.take(k - 1));
    if k < m.len() {
        assert(m.drop_last().take(k) =~= m.take(k));
        assert(m.drop_last().take(k - 1) =~= m.take(k - 1));
        lemma_radio_prefix(m.drop_last(), k, name);
    } else {
        assert(m.take(k) =~= m);
    }
}

pub open spec fn radio_list_lines(m: crate::strmap::Entries) -> Seq<char>
    decreases m.len(),
{
    if m.len() == 0 {
        Seq::empty()
    } else {
        radio_list_lines(m.drop_last()) + "  • "@ + m.last().0 + "\n"@
    }
}

/// The `$radios` answer: the station names in order, or how to add one.
pub open spec fn radio_list_spec(m: crate::strmap::Entries) -> Seq<char> {
    if m.len() == 0 {
        "No saved radio stations. Admin can add one with `$addradio name url`."@
    } else {
        "Radio stations:\n"@ + radio_list_lines(m) + "\nUse: `$radio name` to play."@
    }
}

pub fn radio_list(radios: &crate::strmap::StrMap) -> (r: String)
    ensures
        r@ == radio_list_spec(radios@),
{
    if radios.len() == 0 {
        return "No saved radio stations. Admin can add one with `$addradio name url`.".to_string();
    }
    let mut out = chars_of("Radio stations:\n");
    let ghost start = out@;
    let mut i: usize = 0;
    while i < radios.len()
        invariant
            i <= radios@.len(),
            out@ == start + radio_list_lines(radios@.take(i as int)),
        decreases radios@.len() - i,
    {
        assert(radios@.take(i + 1).drop_last() =~= radios@.take(i as int));
        let (k, _u) = radios.entry(i);
        crate::text::push_str(&mut out, "  • ");
        crate::text::push_str(&mut out, k.as_str());
        crate::text::push_str(&mut out, "\n");
        i = i + 1;
    }
    assert(radios@.take(i as int) =~= radios@);
    crate::text::push_str(&mut out, "\nUse: `$radio name` to play.");
    string_of(out.as_slice())
}

/// The names of the saved stations joined by commas.
pub open spec fn station_names(m: crate::strmap::Entries) -> Seq<Seq<char>> {
    m.map_values(|e: (Seq<char>, Seq<char>)| e.0)
}

/// The `$radio <name>` answer, and the URL to play when the station exists.
pub open spec fn play_radio_spec(m: crate::strmap::Entries, name: Seq<char>) -> (Seq<char>, Option<Seq<char>>) {
    match radio_match(m, name) {
        Some(i) => ("Playing radio: "@ + m[i].0, Some(m[i].1)),
        None => (
            "Radio '"@ + name + "' does not exist.\nAvailable stations: "@ + join(station_names(m), ", "@),
            None,
        ),
    }
}

pub fn play_radio(radios: &crate::strmap::StrMap, name: &str) -> (r: (String, Option<String>))
    ensures
        (r.0@, opt_view(r.1)) == play_radio_spec(radios@, name@),
{
    match find_radio(radios, name) {
        Some((k, u)) => {
            let mut s = "Playing radio: ".to_string();
            s.append(k.as_str());
            (s, Some(u))
        },
        None => {
            let mut names: Vec<String> = Vec::new();
            let mut i: usize = 0;
            while i < radios.len()
                invariant
                    i <= radios@.len(),
                    string_views(names@) == station_names(radios@).take(i as int),
                decreases radios@.len() - i,
            {
                let (k, _u) = radios.entry(i);
                let ghost prev = names@;
                names.push(k.clone());
                assert(string_views(names@) =~= string_views(prev).push(k@));
                assert(station_names(radios@).take(i + 1) =~= station_names(radios@).take(i as int).push(
                    radios@[i as int].0,
                ));
                i = i + 1;
            }
            assert(station_names(radios@).take(i as int) =~= station_names(radios@));
            let mut s = "Radio '".to_string();
            s.append(name);
            s.append("' does not exist.\nAvailable stations: ");
            s.append(crate::text::join_strings(&names, ", ").as_str());
            (s, None)
        },
    }
}

/// What a change to the saved stations answers, and the stations after it.
pub struct RadioUpdate {
    pub reply: String,
    pub stations: crate::strmap::StrMap,
    pub changed: bool,
}

/// `$addradio`: the station saved under its name as typed (replacing a
/// station of exactly that name), or the expected format.
pub open spec fn add_radio_spec(m: crate::strmap::Entries, station: Option<(Seq<char>, Seq<char>)>) -> (Seq<char>, crate::strmap::Entries, bool) {
    match station {
        Some((n, u)) => ("Radio '"@ + n + "' added with URL: "@ + u, crate::strmap::sm_insert(m, n, u), true),
        None => ("Format: `$addradio \"Station Name\" https://link`"@, m, false),
    }
}

pub fn add_radio(radios: crate::strmap::StrMap, station: Option<(String, String)>) -> (r: RadioUpdate)
    ensures
        (r.reply@, r.stations@, r.changed) == add_radio_spec(radios@, pair_view(station)),
{
    let mut radios = radios;
    match station {
        Some((n, u)) => {
            let mut s = "Radio '".to_string();
            s.append(n.as_str());
            s.append("' added with URL: ");
            s.append(u.as_str());
            radios.insert(n, u);
            RadioUpdate { reply: s, stations: radios, changed: true }
        },
        None => RadioUpdate {
            reply: "Format: `$addradio \"Station Name\" https://link`".to_string(),
            stations: radios,
            changed: false,
        },
    }
}

/// `$delradio <name>`: the first station of that name (ignoring case) removed.
pub open spec fn delete_radio_spec(m: crate::strmap::Entries, name: Seq<char>) -> (Seq<char>, crate::strmap::Entries, bool) {
    match radio_match(m, name) {
        Some(i) => ("Radio '"@ + m[i].0 + "' removed."@, crate::strmap::sm_remove(m, m[i].0), true),
        None => ("Radio '"@ + name + "' does not exist."@, m, false),
    }
}

pub fn delete_radio(radios: crate::strmap::StrMap, name: &str) -> (r: RadioUpdate)
    ensures
        (r.reply@, r.stations@, r.changed) == delete_radio_spec(radios@, name@),
{
    let mut radios = radios;
    match find_radio(&radios, name) {
        Some((k, _u)) => {
            let mut s = "Radio '".to_string();
            s.append(k.as_str());
            s.append("' removed.");
            radios.remove(k.as_str());
            RadioUpdate { reply: s, stations: radios, changed: true }
        },
        None => {
            let mut s = "Radio '".to_string();
            s.append(name);
            s.append("' does not exist.");
            RadioUpdate { reply: s, stations: radios, changed: false }
        },
    }
}

/// `$editradio`: the URL of the first station of that name (ignoring case)
/// replaced, or why not.
pub open spec fn edit_radio_spec(m: crate::strmap::Entries, station: Option<(Seq<char>, Seq<char>)>) -> (Seq<char>, crate::strmap::Entries, bool) {
    match station {
        Some((n, u)) => match radio_match(m, n) {
            Some(i) => ("Radio '"@ + m[i].0 + "' updated with URL: "@ + u, crate::strmap::sm_insert(m, m[i].0, u), true),
            None => ("Radio '"@ + n + "' does not exist. Use `$addradio` to add it."@, m, false),
        },
        None => ("Format: `$editradio \"Station Name\" https://new-link`"@, m, false),
    }
}

pub fn edit_radio(radios: crate::strmap::StrMap, station: Option<(String, String)>) -> (r: RadioUpdate)
    ensures
        (r.reply@, r.stations@, r.changed) == edit_radio_spec(radios@, pair_view(station)),
{
    let mut radios = radios;
    match station {
        Some((n, u)) => match find_radio(&radios, n.as_str()) {
            Some((k, _old)) => {
                let mut s = "Radio '".to_string();
                s.append(k.as_str());
                s.append("' updated with URL: ");
                s.append(u.as_str());
                radios.insert(k, u);
                RadioUpdate { reply: s, stations: radios, changed: true }
            },
            None => {
                let mut s = "Radio '".to_string();
                s.append(n.as_str());
                s.append("' does not exist. Use `$addradio` to add it.");
                RadioUpdate { reply: s, stations: radios, changed: false }
            },
        },
        None => RadioUpdate {
            reply: "Format: `$editradio \"Station Name\" https://new-link`".to_string(),
            stations: radios,
            changed: false,
        },
    }
}

proof fn lemma_no_radio_match(m: crate::strmap::Entries, name: Seq<char>)
    requires
        forall|k: int| 0 <= k < m.len() ==> crate::text::lowercase(#[trigger] m[k].0) != crate::text::lowercase(name),
    ensures
        radio_match(m, name) is None,
    decreases m.len(),
{
    if m.len() > 0 {
        assert forall|k: int| 0 <= k < m.drop_last().len() implies crate::text::lowercase(
            #[trigger] m.drop_last()[k].0,
        ) != crate::text::lowercase(name) by {
            assert(m.drop_last()[k] == m[k]);
        }
        lemma_no_radio_match(m.drop_last(), name);
        assert(crate::text::lowercase(m[m.len() - 1].0) != crate::text::lowercase(name));
    }
}

proof fn lemma_unique_radio_match(m: crate::strmap::Entries, name: Seq<char>, j: int)
    requires
        0 <= j < m.len(),
        crate::text::lowercase(m[j].0) == crate::text::lowercase(name),
        forall|k: int| 0 <= k < m.len() && k != j ==> crate::text::lowercase(#[trigger] m[k].0) != crate::text::lowercase(name),
    ensures
        radio_match(m, name) == Some(j),
    decreases m.len(),
{
    let d = m.drop_last();
    if j == m.len() - 1 {
        assert forall|k: int| 0 <= k < d.len() implies crate::text::lowercase(#[trigger] d[k].0)
            != crate::text::lowercase(name) by {
            assert(d[k] == m[k]);
        }
        lemma_no_radio_match(d, name);
    } else {
        assert(d[j] == m[j]);
        assert forall|k: int| 0 <= k < d.len() && k != j implies crate::text::lowercase(#[trigger] d[k].0)
            != crate::text::lowercase(name) by {
            assert(d[k] == m[k]);
        }
        lemma_unique_radio_match(d, name, j);
    }
}

/// A station added by name is the one `$radio` plays under that name, in
/// any case, as long as no other saved station has the same name in
/// another case.
pub proof fn law_added_radio_plays(m: crate::strmap::Entries, n: Seq<char>, u: Seq<char>, asked: Seq<char>)
    requires
        crate::strmap::sorted(m),
        crate::text::lowercase(asked) == crate::text::lowercase(n),
        forall|i: int|
            0 <= i < m.len() && m[i].0 != n ==> crate::text::lowercase(#[trigger] m[i].0) != crate::text::lowercase(n),
    ensures
        play_radio_spec(crate::strmap::sm_insert(m, n, u), asked) == ("Playing radio: "@ + n, Some(u)),
{
    let m2 = crate::strmap::sm_insert(m, n, u);
    crate::strmap::lemma_lower_bound(m, n);
    crate::strmap::lemma_find_key(m, n);
    crate::strmap::lemma_key_lt_irreflexive(n);
    let lb = crate::strmap::lower_bound(m, n);
    assert(m2[lb] == (n, u));
    if crate::strmap::has_key_at(m, n) {
        assert forall|k: int| 0 <= k < m2.len() && k != lb implies crate::text::lowercase(#[trigger] m2[k].0)
            != crate::text::lowercase(asked) by {
            assert(m2[k] == m[k]);
            if m[k].0 == n {
                if k < lb {
                    assert(crate::strmap::key_lt(m[k].0, m[lb].0));
                } else {
                    assert(crate::strmap::key_lt(m[lb].0, m[k].0));
                }
            }
        }
    } else {
        assert forall|k: int| 0 <= k < m2.len() && k != lb implies crate::text::lowercase(#[trigger] m2[k].0)
            != crate::text::lowercase(asked) by {
            let x = if k < lb { k } else { k - 1 };
            assert(m2[k] == m[x]);
            assert(m[x].0 != n);
        }
    }
    lemma_unique_radio_match(m2, asked, lb);
}


/// A member who is not an administrator is refused every administrators'
/// command (`$play`, `$stop`, `$vol`, `$radio`, `$addradio`, `$delradio`,
/// `$editradio`, `$tts`) with the administrators' text, whatever follows the
/// command word, and `$memory` with its own text; what a member's message
/// can be read as is a ticket, the station list, a question, a refusal or
/// nothing. An administrator is never refused.
pub proof fn law_admin_commands_refused(raw: Seq<char>)
    ensures
        (starts_with(raw, "$play "@) || raw == "$stop"@ || starts_with(raw, "$vol"@) || starts_with(raw, "$radio "@)
            || starts_with(raw, "$addradio "@) || starts_with(raw, "$delradio "@) || starts_with(raw, "$editradio "@)
            || starts_with(raw, "$tts"@)) ==> command_spec(raw, false) == (CommandView::Refused {
            reply: "Only administrators can use this command."@,
        }),
        starts_with(raw, "$memory"@) ==> command_spec(raw, false) == (CommandView::Refused {
            reply: "Only administrators can use `$memory`."@,
        }),
        command_spec(raw, false) is Ticket || command_spec(raw, false) is Radios || command_spec(raw, false) is Ask
            || command_spec(raw, false) is Refused || command_spec(raw, false) is Other,
        !(command_spec(raw, true) is Refused),
{
    reveal_strlit("$ticket");
    reveal_strlit("$identity");
    reveal_strlit("$memory");
    reveal_strlit("$play ");
    reveal_strlit("$stop");
    reveal_strlit("$vol");
    reveal_strlit("$radios");
    reveal_strlit("$radio ");
    reveal_strlit("$addradio ");
    reveal_strlit("$delradio ");
    reveal_strlit("$editradio ");
    reveal_strlit("$ask ");
    reveal_strlit("$ask");
    reveal_strlit("$tts");
    if starts_with(raw, "$play "@) {
        assert(raw[0] == raw.take(6)[0]);
        assert(raw[1] == raw.take(6)[1]);
        assert(raw[2] == raw.take(6)[2]);
    }
    if starts_with(raw, "$vol"@) {
        assert(raw[0] == raw.take(4)[0]);
        assert(raw[1] == raw.take(4)[1]);
        assert(raw[2] == raw.take(4)[2]);
    }
    if starts_with(raw, "$radio "@) {
        assert(raw[0] == raw.take(7)[0]);
        assert(raw[1] == raw.take(7)[1]);
        assert(raw[2] == raw.take(7)[2]);
        assert(raw[6] == raw.take(7)[6]);
    }
    if starts_with(raw, "$addradio "@) {
        assert(raw[0] == raw.take(10)[0]);
        assert(raw[1] == raw.take(10)[1]);
        assert(raw[2] == raw.take(10)[2]);
    }
    if starts_with(raw, "$delradio "@) {
        assert(raw[0] == raw.take(10)[0]);
        assert(raw[1] == raw.take(10)[1]);
        assert(raw[2] == raw.take(10)[2]);
    }
    if starts_with(raw, "$editradio "@) {
        assert(raw[0] == raw.take(11)[0]);
        assert(raw[1] == raw.take(11)[1]);
        assert(raw[2] == raw.take(11)[2]);
    }
    if starts_with(raw, "$tts"@) {
        assert(raw[0] == raw.take(4)[0]);
        assert(raw[1] == raw.take(4)[1]);
        assert(raw[2] == raw.take(4)[2]);
    }
    if starts_with(raw, "$memory"@) {
        assert(raw[0] == raw.take(7)[0]);
        assert(raw[1] == raw.take(7)[1]);
        assert(raw[2] == raw.take(7)[2]);
    }
}

} // verus!
