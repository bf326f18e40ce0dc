use ts3_ai_bot::prompt_workspace::{normalize_uid, render_workspace_context, user_profile_path, user_template};

fn files() -> Vec<(String, String, String)> {
    vec![
        ("AGENTS.md".to_string(), "/w/AGENTS.md".to_string(), "# AGENTS.md\nrules\n".to_string()),
        ("SOUL.md".to_string(), "/w/SOUL.md".to_string(), "   \n".to_string()),
        ("USER.md".to_string(), "/w/users/uid/USER.md".to_string(), user_template("uid", "OwnerUser")),
    ]
}

#[test]
fn context_lists_sections_and_skips_blank_files() {
    let ctx = render_workspace_context(&files(), 2000, 20000);
    assert!(ctx.starts_with("=== AGENTS.md ===\nPath: /w/AGENTS.md\n# AGENTS.md\nrules\n\n=== USER.md ==="));
    assert!(!ctx.contains("SOUL.md"));
    assert!(ctx.contains("OwnerUser"));
}

#[test]
fn context_respects_total_limit() {
    let ctx = render_workspace_context(&files(), 5000, 180);
    assert!(ctx.chars().count() <= 180);
    assert!(ctx.starts_with("=== AGENTS.md ==="));
}

#[test]
fn long_files_are_marked_truncated() {
    let f = vec![("MEMORY.md".to_string(), "p".to_string(), "abcdefghij".to_string())];
    assert_eq!(render_workspace_context(&f, 4, 1000), "=== MEMORY.md ===\nPath: p\nabcd\n\n[FILE TRUNCATED]");
    assert_eq!(render_workspace_context(&f, 0, 1000), "");
}

#[test]
fn profile_paths_encode_the_uid() {
    assert_eq!(normalize_uid("  "), "unknown");
    assert_eq!(normalize_uid(" a "), "a");
    assert_eq!(user_profile_path("/w", "VBOROBYGV1unsuWVHzZFIPzAADY="), "/w/users/VBOROBYGV1unsuWVHzZFIPzAADY%3D/USER.md");
    assert_eq!(user_profile_path("/w/", "a/b"), "/w/users/a%2Fb/USER.md");
    assert_eq!(user_profile_path("", "x"), "users/x/USER.md");
}

#[test]
fn template_has_managed_sections() {
    let t = user_template("u", "N");
    assert!(t.starts_with("# USER.md\n\nUID: u\nName: N\nPreferred language: \n"));
    assert!(t.contains("<!-- AUTO_PROFILE_START -->\ntrust_tier: member\n"));
    assert!(t.ends_with("<!-- AUTO_NOTES_START -->\n<!-- AUTO_NOTES_END -->\n"));
}
