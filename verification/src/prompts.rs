//! The system prompt and what it reads from the workspace files.
use vstd::prelude::*;
use crate::actions::opt_view;
use crate::context::{
    differs_in_admin_data, invoker_text, law_non_admin_view_hides_connection_data, snapshot_text, InvokerContext,
    ServerSnapshot,
};
use crate::permissions::{level_name, PermissionLevel};
use crate::text::{
    char_seqs, chars_of, decimal, lines, lines_exec, push_str, push_u64, slice_chars, starts_with, starts_with_exec,
    string_of, trim, trim_chars,
};

verus! {

/// The trimmed text after `prefix` on a trimmed line starting with it, when
/// that text is not empty.
pub open spec fn value_after(line: Seq<char>, prefix: Seq<char>) -> Option<Seq<char>> {
    let t = trim(line);
    if starts_with(t, prefix) && trim(t.skip(prefix.len() as int)).len() > 0 {
        Some(trim(t.skip(prefix.len() as int)))
    } else {
        None
    }
}

/// The value of the first line that has one for `prefix`.
pub open spec fn first_value(ls: Seq<Seq<char>>, prefix: Seq<char>) -> Option<Seq<char>>
    decreases ls.len(),
{
    if ls.len() == 0 {
        None
    } else {
        match value_after(ls[0], prefix) {
            Some(v) => Some(v),
            None => first_value(ls.drop_first(), prefix),
        }
    }
}

/// Where every line names `v` or nothing, and one names `v`, the first value
/// is `v`.
pub proof fn lemma_first_value_agreed(ls: Seq<Seq<char>>, prefix: Seq<char>, v: Seq<char>, k: int)
    requires
        0 <= k < ls.len(),
        value_after(ls[k], prefix) == Some(v),
        forall|i: int|
            0 <= i < ls.len() ==> (#[trigger] value_after(ls[i], prefix)) is None || value_after(ls[i], prefix)
                == Some(v),
    ensures
        first_value(ls, prefix) == Some(v),
    decreases ls.len(),
{
    if value_after(ls[0], prefix) is None {
        let d = ls.drop_first();
        assert forall|i: int| 0 <= i < d.len() implies (#[trigger] value_after(d[i], prefix)) is None || value_after(
            d[i],
            prefix,
        ) == Some(v) by {
            assert(d[i] == ls[i + 1]);
        }
        assert(d[k - 1] == ls[k]);
        lemma_first_value_agreed(d, prefix, v, k - 1);
    }
}

/// The language named on a `Preferred language:` line, or else on a
/// `response_language:` line.
pub open spec fn preferred_language(ctx: Seq<char>) -> Option<Seq<char>> {
    match first_value(lines(ctx), "Preferred language:"@) {
        Some(v) => Some(v),
        None => first_value(lines(ctx), "response_language:"@),
    }
}

fn first_value_exec(ls: &Vec<Vec<char>>, prefix: &str) -> (r: Option<String>)
    ensures
        opt_view(r) == first_value(char_seqs(ls@), prefix@),
{
    let p = chars_of(prefix);
    let mut i: usize = 0;
    assert(char_seqs(ls@).skip(0) =~= char_seqs(ls@));
    while i < ls.len()
        invariant
            i <= ls@.len(),
            p@ == prefix@,
            first_value(char_seqs(ls@), prefix@) == first_value(char_seqs(ls@).skip(i as int), prefix@),
        decreases ls@.len() - i,
    {
        let ghost rest = char_seqs(ls@).skip(i as int);
        assert(rest[0] == ls@[i as int]@);
        assert(rest.drop_first() =~= char_seqs(ls@).skip(i + 1));
        let t = trim_chars(ls[i].as_slice());
        if starts_with_exec(t.as_slice(), p.as_slice()) {
            let after = slice_chars(t.as_slice(), p.len(), t.len());
            assert(after@ =~= t@.skip(p@.len() as int));
            let v = trim_chars(after.as_slice());
            if v.len() > 0 {
                return Some(string_of(v.as_slice()));
            }
        }
        i = i + 1;
    }
    assert(char_seqs(ls@).skip(i as int) =~= Seq::<Seq<char>>::empty());
    None
}

/// The user's preferred language as the workspace files state it.
pub fn extract_preferred_language(workspace_context: &str) -> (r: Option<String>)
    ensures
        opt_view(r) == preferred_language(workspace_context@),
{
    let c = chars_of(workspace_context);
    let ls = lines_exec(c.as_slice());
    match first_value_exec(&ls, "Preferred language:") {
        Some(v) => Some(v),
        None => first_value_exec(&ls, "response_language:"),
    }
}
/// Fixed text of the system prompt, between the parts that vary.
pub const PROMPT_INTRO: &'static str = "You are a highly intelligent, multilingual AI assistant named \"Support Agent\" on a TeamSpeak 3 server.\nThe current real-time system clock is: ";

pub const PROMPT_AFTER_CLOCK: &'static str = "\n\n";

pub const PROMPT_AFTER_STATE: &'static str = "\n\n";

pub const PROMPT_BEFORE_LEVEL: &'static str = "\nPermission level: ";

pub const PROMPT_AFTER_LEVEL: &'static str = "\n";

pub const PROMPT_BEFORE_WORKSPACE: &'static str = "\n\nCRITICAL PERMISSION INFO:\nYou (the bot) are a SERVER ADMINISTRATOR. You have full permissions to create, edit, delete channels, and modify permissions. If a user asks you to do something, do NOT say \"I don't have permissions\" unless the user's permission level forbids it (see above).\n\nCONTEXT & HISTORY:\nYou MUST look at the conversation history to understand context. For example, if a user asks \"Create a room named Janko\" and then later \"Give me admin in that room\", you should check the history to see that they are the one who requested the room, and then grant them admin.\n\nYou have access to the full server state above. Use it to answer questions like \"who is online?\", \"what channel is X in?\", etc.\n\nWORKSPACE CONTEXT FILES:\n";

pub const PROMPT_AFTER_WORKSPACE: &'static str = "\n\nThe workspace files are internal context. Use them to personalize behavior, but do not leak private/internal notes unless the user explicitly asks for those exact details.\n\nYOUR MISSION:\nYou are an all-purpose assistant. You can chat, answer questions, translate languages, write code, tell jokes, or perform server actions (like creating channels).\n";

pub const PROMPT_BEFORE_GROUPS: &'static str = "\n\nHOW TO RESPOND (CRITICAL STRUCTURAL RULE):\nBecause you are integrated into a bot program, your response MUST ALWAYS BE VALID JSON. You cannot just output raw text.\nYour entire output must be a single JSON Array containing your actions.\n\nALLOWED ACTIONS IN YOUR JSON ARRAY:\n1. `REPLY`: Use this to actually talk to the user. Put all your translations, answers, and conversation in the \"message\" field.\n   Format: {\"action\": \"REPLY\", \"message\": \"Your text here...\"}\n\n2. `CREATE_CHANNEL` / `EDIT_CHANNEL` / `DELETE_CHANNEL`: Manage channels.\n   Format: {\"action\": \"CREATE_CHANNEL\", \"channel_name\": \"Room Name\", \"password\": \"optional_password\", \"permanent\": true}\n   Format: {\"action\": \"DELETE_CHANNEL\", \"channel_name\": \"Room Name\"}\n   CRITICAL: Do NOT use underscores `_` in channel names. Spaces are allowed!\n\n3. `SET_CHANNEL_ADMIN`: Give Channel Admin to a user in a specific channel. If the user says \"give me admin in room X\", leave `client_name` empty.\n   Format: {\"action\": \"SET_CHANNEL_ADMIN\", \"channel_name\": \"Room Name\", \"client_name\": \"optional_target_name\"}\n\n4. `KICK_CLIENT` / `BAN_CLIENT`: Remove users from the server. ADMIN ONLY.\n   Format: {\"action\": \"KICK_CLIENT\", \"client_name\": \"Username\", \"reason\": \"Kick reason\"}\n   Format: {\"action\": \"BAN_CLIENT\", \"client_name\": \"Username\", \"reason\": \"Ban reason\", \"duration_seconds\": 3600}\n\n5. `MOVE_CLIENT` / `MOVE_CLIENT_RETURN` / `POKE_CLIENT`: Manage other users. MODERATOR or higher.\n   Standard users CANNOT request to be moved to existing channels, and they CANNOT use these.\n   MOVE AND RETURN: If asked to move someone AND return them, use `MOVE_CLIENT` first then `MOVE_CLIENT_RETURN`.\n   Format: {\"action\": \"MOVE_CLIENT\", \"client_name\": \"Username\", \"channel_name\": \"Target Room\"}\n   Format: {\"action\": \"MOVE_CLIENT_RETURN\", \"client_name\": \"Username\"}\n   Format: {\"action\": \"POKE_CLIENT\", \"client_name\": \"Username\", \"message\": \"Poke message\"}\n\n6. `SEND_MESSAGE`: Send a private message to a specific online user. MODERATOR or higher.\n   Format: {\"action\": \"SEND_MESSAGE\", \"target_name\": \"Username\", \"message\": \"Your message\"}\n\n7. `SEND_CHANNEL_MESSAGE`: Send a message to a specific channel. MODERATOR or higher.\n   The bot will temporarily move to the channel, send the message, and return.\n   Do NOT use this action when the user asks the bot to stay in that channel.\n   Format: {\"action\": \"SEND_CHANNEL_MESSAGE\", \"channel_name\": \"Channel Name\", \"message\": \"Your message\"}\n\n8. `MOVE_BOT_CHANNEL`: Move the bot itself to a specific channel and stay there. MODERATOR or higher.\n   Use this when the user says things like \"go to channel X and stay there\".\n   Format: {\"action\": \"MOVE_BOT_CHANNEL\", \"channel_name\": \"Channel Name\"}\n\n9. `SET_SERVER_GROUP` / `REMOVE_SERVER_GROUP`: Assign or remove a server group (badge/role).\n   Standard users can ONLY modify their OWN groups (client_name MUST be their own name), and only from the allowed list:\n   ";

pub const PROMPT_AFTER_GROUPS: &'static str = "\n   ADMINISTRATORS can assign/remove ANY server group to/from ANY user.\n   If a standard user tries to modify another user's groups, refuse and explain only admins can do that.\n   Format: {\"action\": \"SET_SERVER_GROUP\", \"client_name\": \"";

pub const PROMPT_BETWEEN_NAMES: &'static str = "\", \"server_group_id\": 57}\n   Format: {\"action\": \"REMOVE_SERVER_GROUP\", \"client_name\": \"";

pub const PROMPT_BEFORE_CODE_CHANNEL: &'static str = "\", \"server_group_id\": 57}\n\n10. `SET_CHANNEL_DESCRIPTION`: Update a channel's text description.\n   CRITICAL RULE: If the user asks you to write code or a long technical response, and the user is an ADMINISTRATOR, you can put that generated text inside the description of channel ID ";

pub const PROMPT_BETWEEN_CODE_CHANNEL: &'static str = ". If the user is a STANDARD USER, you MUST break your long response into multiple `REPLY` actions instead.\n   FORMATTING RULE: You MUST use TeamSpeak BBCode (never Markdown).\n   - [b]Bold[/b], [i]Italic[/i], [u]Underline[/u]\n   - [color=red]Text[/color], [color=#FF0000]Text[/color]\n   - [size=1]Text[/size] (1 do 7)\n   - [center]Text[/center], [left]Text[/left], [right]Text[/right]\n   - [list][*]Item 1[*]Item 2[/list]\n   - [img]image_link[/img], [url=http://link.com]Link text[/url]\n   Format: {\"action\": \"SET_CHANNEL_DESCRIPTION\", \"channel_id\": ";

pub const PROMPT_BEFORE_EXAMPLE_CHANNEL: &'static str = ", \"description\": \"[center][b]Your Code/Text[/b][/center]\\n[color=green]fn main() { }[/color]\"}\n\n11. `JOIN_USER_CHANNEL`: Move yourself (the bot) to the user's current channel.\n    Format: {\"action\": \"JOIN_USER_CHANNEL\"}\n\n12. `BAN_ADD` / `BAN_DEL` / `BAN_DEL_ALL` / `BAN_LIST`: Ban management. ADMIN ONLY.\n    BAN_ADD: Ban by IP, UID, or name (user doesn't need to be online).\n    Format: {\"action\": \"BAN_ADD\", \"ip\": \"1.2.3.4\", \"uid\": \"optional_uid\", \"name\": \"optional_name\", \"reason\": \"reason\", \"duration_seconds\": 3600}\n    Format: {\"action\": \"BAN_DEL\", \"ban_id\": 42}\n    Format: {\"action\": \"BAN_DEL_ALL\"}\n    Format: {\"action\": \"BAN_LIST\"}\n\n13. `CLIENT_EDIT`: Edit a client's description or talker status. MODERATOR or higher.\n    Format: {\"action\": \"CLIENT_EDIT\", \"client_name\": \"Username\", \"description\": \"New description\", \"is_talker\": true}\n\n14. `CHANNEL_MOVE`: Move a channel under a new parent channel. MODERATOR or higher.\n    Format: {\"action\": \"CHANNEL_MOVE\", \"channel_name\": \"Channel To Move\", \"parent_channel_name\": \"New Parent\"}\n\n15. `CHANNEL_SUBSCRIBE` / `CHANNEL_UNSUBSCRIBE`: Subscribe/unsubscribe to channels. Anyone can use.\n    Format: {\"action\": \"CHANNEL_SUBSCRIBE\", \"channel_name\": \"Channel Name\"}\n\n16. `PLAY_TTS`: Generate Text-To-Speech audio and stream it to your current channel. Use this when the user explicitly asks you to speak or use TTS (e.g., \"$tts <text>\").\n    IF THE USER SAYS \"$tts ON\" or asks to turn on TTS mode: Acknowledge the request using `PLAY_TTS` and from then on, you MUST use `PLAY_TTS` instead of `REPLY` for ALL your messages until they say \"$tts OFF\".\n    Format: {\"action\": \"PLAY_TTS\", \"text\": \"Hello, how are you?\"}\n\n17. `PLAY_MUSIC`: Play audio/radio from a URL.\n    Format: {\"action\": \"PLAY_MUSIC\", \"url\": \"http://example.com/stream.mp3\"}\n\n18. `SET_VOLUME`: Adjust the bot's global audio volume (0-100).\n    Format: {\"action\": \"SET_VOLUME\", \"volume\": 50}\n\nEXAMPLE FORMAT:\n[\n  {\"action\": \"REPLY\", \"message\": \"Your text goes here...\"},\n  {\"action\": \"SET_CHANNEL_DESCRIPTION\", \"channel_id\": ";

pub const PROMPT_END: &'static str = ", \"description\": \"[b]Here is your code:[/b]\\n[color=yellow]fn main() { }[/color]\"}\n]\n\nYou have total freedom to say whatever is helpful to the user, as long as it is wrapped inside a JSON array action!\n";

/// The rule on the language of replies.
pub const LANGUAGE_RULE: &'static str = "LANGUAGE RULE (HIGHEST PRIORITY): You MUST write all user-facing text in English only, regardless of user language or workspace preferences. This includes REPLY messages, SEND_MESSAGE/SEND_CHANNEL_MESSAGE content, and any generated text. Only use another language when an administrator explicitly asks for translation.";

/// Shown in place of the workspace files when there are none.
pub const NO_WORKSPACE_TEXT: &'static str = "(No workspace prompt files loaded.)";

/// The workspace context, or a note that there is none when it is blank.
pub open spec fn workspace_block(ctx: Seq<char>) -> Seq<char> {
    if trim(ctx).len() == 0 {
        NO_WORKSPACE_TEXT@
    } else {
        ctx
    }
}

pub open spec fn prompt_head(now: Seq<char>, state: Seq<char>, invoker: Seq<char>, level: Seq<char>, description: Seq<char>) -> Seq<char> {
    PROMPT_INTRO@ + now + PROMPT_AFTER_CLOCK@ + state + PROMPT_AFTER_STATE@ + invoker + PROMPT_BEFORE_LEVEL@ + level
        + PROMPT_AFTER_LEVEL@ + description
}

pub open spec fn prompt_middle(workspace: Seq<char>, groups: Seq<char>, invoker_name: Seq<char>) -> Seq<char> {
    PROMPT_BEFORE_WORKSPACE@ + workspace + PROMPT_AFTER_WORKSPACE@ + LANGUAGE_RULE@ + PROMPT_BEFORE_GROUPS@ + groups
        + PROMPT_AFTER_GROUPS@ + invoker_name + PROMPT_BETWEEN_NAMES@ + invoker_name
}

pub open spec fn prompt_tail(code_channel: u64) -> Seq<char> {
    PROMPT_BEFORE_CODE_CHANNEL@ + decimal(code_channel as nat) + PROMPT_BETWEEN_CODE_CHANNEL@ + decimal(code_channel as nat)
        + PROMPT_BEFORE_EXAMPLE_CHANNEL@ + decimal(code_channel as nat) + PROMPT_END@
}

/// The system prompt: the clock, the server state (with the administrators'
/// details for administrators), the invoker, their permission level, the
/// workspace files, the rules and the actions the model may answer with.
pub open spec fn system_prompt_spec(
    invoker: InvokerContext,
    snapshot: ServerSnapshot,
    level: PermissionLevel,
    description: Seq<char>,
    groups: Seq<char>,
    workspace: Seq<char>,
    code_channel: u64,
    now: Seq<char>,
) -> Seq<char> {
    prompt_head(
        now,
        snapshot_text(snapshot, level.rank_spec() >= PermissionLevel::Admin.rank_spec()),
        invoker_text(invoker),
        level_name(level),
        description,
    ) + prompt_middle(workspace_block(workspace), groups, invoker.name@) + prompt_tail(code_channel)
}

fn push_head(out: &mut Vec<char>, now: &str, state: &str, invoker: &str, level: &str, description: &str)
    ensures
        final(out)@ == old(out)@ + prompt_head(now@, state@, invoker@, level@, description@),
{
    push_str(out, PROMPT_INTRO);
    push_str(out, now);
    push_str(out, PROMPT_AFTER_CLOCK);
    push_str(out, state);
    push_str(out, PROMPT_AFTER_STATE);
    push_str(out, invoker);
    push_str(out, PROMPT_BEFORE_LEVEL);
    push_str(out, level);
    push_str(out, PROMPT_AFTER_LEVEL);
    push_str(out, description);
    assert(out@ =~= old(out)@ + prompt_head(now@, state@, invoker@, level@, description@));
}

fn push_middle(out: &mut Vec<char>, workspace: &str, groups: &str, invoker_name: &str)
    ensures
        final(out)@ == old(out)@ + prompt_middle(workspace@, groups@, invoker_name@),
{
    push_str(out, PROMPT_BEFORE_WORKSPACE);
    push_str(out, workspace);
    push_str(out, PROMPT_AFTER_WORKSPACE);
    push_str(out, LANGUAGE_RULE);
    push_str(out, PROMPT_BEFORE_GROUPS);
    push_str(out, groups);
    push_str(out, PROMPT_AFTER_GROUPS);
    push_str(out, invoker_name);
    push_str(out, PROMPT_BETWEEN_NAMES);
    push_str(out, invoker_name);
    assert(out@ =~= old(out)@ + prompt_middle(workspace@, groups@, invoker_name@));
}

fn push_tail(out: &mut Vec<char>, code_channel: u64)
    ensures
        final(out)@ == old(out)@ + prompt_tail(code_channel),
{
    push_str(out, PROMPT_BEFORE_CODE_CHANNEL);
    push_u64(out, code_channel);
    push_str(out, PROMPT_BETWEEN_CODE_CHANNEL);
    push_u64(out, code_channel);
    push_str(out, PROMPT_BEFORE_EXAMPLE_CHANNEL);
    push_u64(out, code_channel);
    push_str(out, PROMPT_END);
    assert(out@ =~= old(out)@ + prompt_tail(code_channel));
}

/// The system prompt for one request, with the clock reading `now`.
pub fn build_system_prompt(
    invoker_ctx: &InvokerContext,
    server_snapshot: &ServerSnapshot,
    perm_level: PermissionLevel,
    perm_description: &str,
    server_groups_text: &str,
    workspace_context: &str,
    code_output_channel_id: u64,
    now: &str,
) -> (r: String)
    ensures
        r@ == system_prompt_spec(
            *invoker_ctx,
            *server_snapshot,
            perm_level,
            perm_description@,
            server_groups_text@,
            workspace_context@,
            code_output_channel_id,
            now@,
        ),
{
    let admin_view = perm_level.rank() >= 2;
    let context_block = server_snapshot.to_prompt_text(admin_view);
    let invoker_block = invoker_ctx.to_prompt_text();
    let ws = crate::text::trim_str(workspace_context);
    let workspace: &str = if ws.as_str().is_empty() {
        proof {
            reveal_strlit("");
        }
        NO_WORKSPACE_TEXT
    } else {
        workspace_context
    };
    let _preferred_language = extract_preferred_language(workspace_context);
    let mut out: Vec<char> = Vec::new();
    push_head(
        &mut out,
        now,
        context_block.as_str(),
        invoker_block.as_str(),
        perm_level.to_text(),
        perm_description,
    );
    push_middle(&mut out, workspace, server_groups_text, invoker_ctx.name.as_str());
    push_tail(&mut out, code_output_channel_id);
    assert(out@ =~= system_prompt_spec(
        *invoker_ctx,
        *server_snapshot,
        perm_level,
        perm_description@,
        server_groups_text@,
        workspace_context@,
        code_output_channel_id,
        now@,
    ));
    string_of(out.as_slice())
}


/// The prompt opens with the clock and then the server state as the
/// reader's level may see it: the administrators' view (with every user's
/// ping, idle time, address, packet loss and time online) for an
/// administrator, and the plain view for moderators and standard users.
pub proof fn law_prompt_state_follows_level(
    invoker: InvokerContext,
    snapshot: ServerSnapshot,
    level: PermissionLevel,
    description: Seq<char>,
    groups: Seq<char>,
    workspace: Seq<char>,
    code_channel: u64,
    now: Seq<char>,
)
    ensures
        starts_with(
            system_prompt_spec(invoker, snapshot, level, description, groups, workspace, code_channel, now),
            PROMPT_INTRO@ + now + PROMPT_AFTER_CLOCK@ + snapshot_text(snapshot, level == PermissionLevel::Admin),
        ),
{
    let state = snapshot_text(snapshot, level == PermissionLevel::Admin);
    assert(snapshot_text(snapshot, level.rank_spec() >= PermissionLevel::Admin.rank_spec()) == state);
    lemma_head_prefix(
        PROMPT_INTRO@,
        now,
        PROMPT_AFTER_CLOCK@,
        state,
        PROMPT_AFTER_STATE@,
        invoker_text(invoker),
        PROMPT_BEFORE_LEVEL@,
        level_name(level),
        PROMPT_AFTER_LEVEL@,
        description,
        prompt_middle(workspace_block(workspace), groups, invoker.name@),
        prompt_tail(code_channel),
    );
}

proof fn lemma_head_prefix(
    a: Seq<char>,
    b: Seq<char>,
    c: Seq<char>,
    d: Seq<char>,
    e: Seq<char>,
    f: Seq<char>,
    g: Seq<char>,
    h: Seq<char>,
    i: Seq<char>,
    j: Seq<char>,
    k: Seq<char>,
    l: Seq<char>,
)
    ensures
        starts_with((a + b + c + d + e + f + g + h + i + j) + k + l, a + b + c + d),
{
    let x = a + b + c + d;
    let y = (a + b + c + d + e + f + g + h + i + j) + k + l;
    assert(y =~= x + (e + f + g + h + i + j + k + l));
    assert(y.take(x.len() as int) =~= x);
}

/// A moderator's or a standard user's prompt shows nothing of the online
/// users' connection details: two snapshots that differ only in those
/// details give the same prompt.
pub proof fn law_prompt_hides_connection_data_below_admin(
    invoker: InvokerContext,
    s1: ServerSnapshot,
    s2: ServerSnapshot,
    level: PermissionLevel,
    description: Seq<char>,
    groups: Seq<char>,
    workspace: Seq<char>,
    code_channel: u64,
    now: Seq<char>,
)
    requires
        level != PermissionLevel::Admin,
        s2 == (ServerSnapshot { online_users: s2.online_users, ..s1 }),
        s1.online_users@.len() == s2.online_users@.len(),
        forall|i: int|
            0 <= i < s1.online_users@.len() ==> differs_in_admin_data(
                #[trigger] s1.online_users@[i],
                s2.online_users@[i],
            ),
    ensures
        system_prompt_spec(invoker, s1, level, description, groups, workspace, code_channel, now)
            == system_prompt_spec(invoker, s2, level, description, groups, workspace, code_channel, now),
{
    law_non_admin_view_hides_connection_data(s1, s2);
}

} // verus!
