//! The prompt workspace: seed files, the per-user profile file and the
//! context text assembled from them for the system prompt.
use vstd::prelude::*;
use crate::text::{chars_of, extend_chars, slice_chars, string_of, trim, trim_chars, truncate};

verus! {

pub const AGENTS_TEMPLATE: &'static str = "# AGENTS.md\n\nThis workspace provides persistent prompt context for the TS3 bot.\n\nRules:\n- Always return valid JSON action arrays.\n- Use only supported actions.\n- Keep replies useful and concise.\n";

pub const SOUL_TEMPLATE: &'static str = "# SOUL.md\n\nIdentity:\n- Helpful, direct, and calm.\n- Avoid filler words.\n- Be proactive with internal reasoning and context.\n\nBoundaries:\n- Do not expose private data.\n- Ask before external/destructive actions.\n";

pub const TOOLS_TEMPLATE: &'static str = "# TOOLS.md\n\nLocal notes for this installation:\n- Preferred TTS voices\n- Local server details\n- Short operator-specific reminders\n";

pub const MEMORY_TEMPLATE: &'static str = "# MEMORY.md\n\nLong-term bot memory:\n- Important decisions\n- Persistent preferences\n- Known constraints\n";

/// The UID trimmed, or `unknown` when blank.
pub open spec fn normalized_uid(uid: Seq<char>) -> Seq<char> {
    if trim(uid).len() == 0 {
        "unknown"@
    } else {
        trim(uid)
    }
}

pub fn normalize_uid(user_uid: &str) -> (r: String)
    ensures
        r@ == normalized_uid(user_uid@),
{
    let t = crate::text::trim_str(user_uid);
    if t.as_str().is_empty() {
        proof {
            reveal_strlit("");
        }
        "unknown".to_string()
    } else {
        t
    }
}

/// `urlencoding::encode` of a text: every UTF-8 byte other than ASCII
/// letters, digits, `-`, `_`, `.` and `~` written as `%XX`.
pub uninterp spec fn url_encoded(s: Seq<char>) -> Seq<char>;

pub open spec fn is_unreserved(c: char) -> bool {
    crate::text::is_ascii_alnum(c) || c == '-' || c == '_' || c == '.' || c == '~'
}

/// `urlencoding::encode`; a text of unreserved characters only comes back unchanged.
#[verifier::external_body]
fn url_encode(s: &str) -> (r: String)
    ensures
        r@ == url_encoded(s@),
        (forall|i: int| 0 <= i < s@.len() ==> is_unreserved(#[trigger] s@[i])) ==> r@ == s@,
{
    urlencoding::encode(s).into_owned()
}

/// `base` joined with the component `c` as `PathBuf::join` does on Unix:
/// a separator is put between unless `base` is empty or already ends in one.
pub open spec fn path_join(base: Seq<char>, c: Seq<char>) -> Seq<char> {
    if base.len() == 0 || base.last() == '/' {
        base + c
    } else {
        base + seq!['/'] + c
    }
}

fn path_join_exec(base: &str, c: &str) -> (r: String)
    ensures
        r@ == path_join(base@, c@),
{
    let mut b = chars_of(base);
    if b.len() > 0 && b[b.len() - 1] != '/' {
        b.push('/');
    }
    let cv = chars_of(c);
    extend_chars(&mut b, cv.as_slice());
    string_of(b.as_slice())
}

/// Where a user's profile file lives: `users/<encoded uid>/USER.md` under the workspace.
pub open spec fn profile_path(workspace_dir: Seq<char>, uid: Seq<char>) -> Seq<char> {
    path_join(path_join(path_join(workspace_dir, "users"@), url_encoded(normalized_uid(uid))), "USER.md"@)
}

pub fn user_profile_path(workspace_dir: &str, user_uid: &str) -> (r: String)
    ensures
        r@ == profile_path(workspace_dir@, user_uid@),
{
    let uid = normalize_uid(user_uid);
    let enc = url_encode(uid.as_str());
    let p1 = path_join_exec(workspace_dir, "users");
    let p2 = path_join_exec(p1.as_str(), enc.as_str());
    path_join_exec(p2.as_str(), "USER.md")
}

/// The profile file a new user starts with.
pub open spec fn user_template_spec(uid: Seq<char>, name: Seq<char>) -> Seq<char> {
    "# USER.md\n\nUID: "@ + uid + "\nName: "@ + name
        + "\nPreferred language: \nNotes:\n- \n\n## Auto Profile (managed)\n<!-- AUTO_PROFILE_START -->\ntrust_tier: member\nresponse_language: \nresponse_style: \ntts_mode: \ninteraction_mode: \nts_scope: teamspeak_only\nlast_updated_at: \n<!-- AUTO_PROFILE_END -->\n\n## Auto Notes (managed)\n<!-- AUTO_NOTES_START -->\n<!-- AUTO_NOTES_END -->\n"@
}

pub fn user_template(user_uid: &str, user_name: &str) -> (r: String)
    ensures
        r@ == user_template_spec(user_uid@, user_name@),
{
    let mut s = "# USER.md\n\nUID: ".to_string();
    s.append(user_uid);
    s.append("\nName: ");
    s.append(user_name);
    s.append(
        "\nPreferred language: \nNotes:\n- \n\n## Auto Profile (managed)\n<!-- AUTO_PROFILE_START -->\ntrust_tier: member\nresponse_language: \nresponse_style: \ntts_mode: \ninteraction_mode: \nts_scope: teamspeak_only\nlast_updated_at: \n<!-- AUTO_PROFILE_END -->\n\n## Auto Notes (managed)\n<!-- AUTO_NOTES_START -->\n<!-- AUTO_NOTES_END -->\n",
    );
    s
}

/// At most `max_chars` characters of `input`.
pub fn truncate_chars(input: &str, max_chars: usize) -> (r: String)
    ensures
        r@ == truncate(input@, max_chars as nat),
{
    crate::text::truncate_chars(input, max_chars)
}

/// One workspace file as a context section; long files are cut to
/// `per_file` characters and marked as cut.
pub open spec fn section_spec(label: Seq<char>, path: Seq<char>, content: Seq<char>, per_file: nat) -> Seq<char> {
    let t = trim(content);
    let body = truncate(t, per_file) + if t.len() > per_file {
        "\n\n[FILE TRUNCATED]"@
    } else {
        Seq::empty()
    };
    "=== "@ + label + " ===\nPath: "@ + path + "\n"@ + body + "\n\n"@
}

/// A workspace file as its label, its displayed path and its content.
pub open spec fn file_view(f: (String, String, String)) -> (Seq<char>, Seq<char>, Seq<char>) {
    (f.0@, f.1@, f.2@)
}

pub open spec fn files_view(v: Seq<(String, String, String)>) -> Seq<(Seq<char>, Seq<char>, Seq<char>)> {
    v.map_values(|f: (String, String, String)| file_view(f))
}

/// Sections added in order while they fit in `total` characters; the first
/// that does not fit is cut to what is left and ends the text. Blank files
/// are skipped. Returns the text and whether it was ended.
pub open spec fn render_fold(files: Seq<(Seq<char>, Seq<char>, Seq<char>)>, per_file: nat, total: nat) -> (Seq<char>, bool)
    decreases files.len(),
{
    if files.len() == 0 {
        (Seq::empty(), false)
    } else {
        let prev = render_fold(files.drop_last(), per_file, total);
        let f = files.last();
        if prev.1 || trim(f.2).len() == 0 {
            prev
        } else {
            let sec = section_spec(f.0, f.1, f.2, per_file);
            if prev.0.len() + sec.len() > total {
                (prev.0 + truncate(sec, (total - prev.0.len()) as nat), true)
            } else {
                (prev.0 + sec, false)
            }
        }
    }
}

/// The workspace context from the files read, empty when either limit is zero.
pub open spec fn workspace_context_spec(files: Seq<(Seq<char>, Seq<char>, Seq<char>)>, per_file: nat, total: nat) -> Seq<char> {
    if per_file == 0 || total == 0 {
        Seq::empty()
    } else {
        trim(render_fold(files, per_file, total).0)
    }
}

fn section_exec(label: &str, path: &str, content: &str, per_file: usize) -> (r: Vec<char>)
    ensures
        r@ == section_spec(label@, path@, content@, per_file as nat),
{
    let c = chars_of(content);
    let t = trim_chars(c.as_slice());
    let mut body = if t.len() <= per_file {
        t.clone()
    } else {
        slice_chars(t.as_slice(), 0, per_file)
    };
    assert(t@.len() > per_file ==> t@.subrange(0, per_file as int) =~= t@.take(per_file as int));
    if t.len() > per_file {
        let mark = chars_of("\n\n[FILE TRUNCATED]");
        extend_chars(&mut body, mark.as_slice());
    } else {
        assert(body@ =~= body@ + Seq::<char>::empty());
    }
    let mut out = chars_of("=== ");
    let l = chars_of(label);
    extend_chars(&mut out, l.as_slice());
    let mid = chars_of(" ===\nPath: ");
    extend_chars(&mut out, mid.as_slice());
    let p = chars_of(path);
    extend_chars(&mut out, p.as_slice());
    out.push('\n');
    extend_chars(&mut out, body.as_slice());
    out.push('\n');
    out.push('\n');
    proof {
        reveal_strlit("\n");
        reveal_strlit("\n\n");
    }
    assert(out@ =~= section_spec(label@, path@, content@, per_file as nat));
    out
}

/// The context text from the workspace files that could be read, in order.
pub fn render_workspace_context(files: &Vec<(String, String, String)>, max_chars_per_file: usize, max_total_chars: usize) -> (r: String)
    ensures
        r@ == workspace_context_spec(files_view(files@), max_chars_per_file as nat, max_total_chars as nat),
{
    if max_chars_per_file == 0 || max_total_chars == 0 {
        return String::new();
    }
    let ghost fv = files_view(files@);
    let mut rendered: Vec<char> = Vec::new();
    let mut stopped = false;
    let mut i: usize = 0;
    while i < files.len()
        invariant
            i <= files@.len(),
            fv == files_view(files@),
            (rendered@, stopped) == render_fold(fv.take(i as int), max_chars_per_file as nat, max_total_chars as nat),
            !stopped ==> rendered@.len() <= max_total_chars,
        decreases files@.len() - i,
    {
        assert(fv.take(i + 1).drop_last() =~= fv.take(i as int));
        assert(fv.take(i + 1).last() == file_view(files@[i as int]));
        let (label, path, content) = (&files[i].0, &files[i].1, &files[i].2);
        if !stopped {
            let t = crate::text::trim_str(content.as_str());
            if !t.as_str().is_empty() {
                let sec = section_exec(label.as_str(), path.as_str(), content.as_str(), max_chars_per_file);
                let used = rendered.len();
                if sec.len() > max_total_chars - used {
                    let remaining = max_total_chars - used;
                    if remaining > 0 {
                        let part = if sec.len() <= remaining {
                            sec.clone()
                        } else {
                            slice_chars(sec.as_slice(), 0, remaining)
                        };
                        assert(part@ == truncate(sec@, remaining as nat));
                        extend_chars(&mut rendered, part.as_slice());
                    } else {
                        assert(truncate(sec@, 0) =~= Seq::<char>::empty());
                        assert(rendered@ =~= rendered@ + Seq::<char>::empty());
                    }
                    stopped = true;
                } else {
                    extend_chars(&mut rendered, sec.as_slice());
                }
            } else {
                proof {
                    reveal_strlit("");
                }
            }
        }
        i = i + 1;
    }
    assert(fv.take(i as int) =~= fv);
    let t = trim_chars(rendered.as_slice());
    string_of(t.as_slice())
}

/// Trimming never makes a text longer.
proof fn lemma_trim_len(s: Seq<char>)
    ensures
        trim(s).len() <= s.len(),
{
    crate::text::lemma_skip_ws_bounds(s, 0);
    let t = s.skip(crate::text::skip_ws(s, 0));
    crate::text::lemma_back_ws_bounds(t, t.len() as int);
}

proof fn lemma_render_fold_len(files: Seq<(Seq<char>, Seq<char>, Seq<char>)>, per_file: nat, total: nat)
    ensures
        render_fold(files, per_file, total).0.len() <= total,
    decreases files.len(),
{
    if files.len() > 0 {
        lemma_render_fold_len(files.drop_last(), per_file, total);
    }
}

/// The workspace context never exceeds the total character limit.
pub proof fn law_workspace_context_fits(files: Seq<(Seq<char>, Seq<char>, Seq<char>)>, per_file: nat, total: nat)
    ensures
        workspace_context_spec(files, per_file, total).len() <= total,
{
    lemma_render_fold_len(files, per_file, total);
    lemma_trim_len(render_fold(files, per_file, total).0);
}

} // verus!
