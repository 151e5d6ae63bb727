use klaw_gui::markdown::{
    extract_skill_body_description, extract_skill_frontmatter_description,
    extract_skill_short_description, format_skill_source, frontmatter_lines, strip_frontmatter,
    trim_matching_quotes, truncate_skill_description, SkillSourceKind,
};

#[test]
fn short_description_prefers_the_frontmatter() {
    let md = "---\nname: demo\ndescription: \"Plans work\"\n---\n# Demo\nBody line\n";
    assert_eq!(extract_skill_frontmatter_description(md).as_deref(), Some("Plans work"));
    assert_eq!(extract_skill_short_description(md), "Plans work");
}

#[test]
fn short_description_falls_back_to_the_first_body_line() {
    let md = "---\nname: demo\n---\n\n# Title\n\nFirst body line.\nSecond\n";
    assert_eq!(extract_skill_frontmatter_description(md), None);
    assert_eq!(extract_skill_body_description(md).as_deref(), Some("First body line."));
    assert_eq!(extract_skill_short_description(md), "First body line.");
    assert_eq!(extract_skill_short_description("  plain text  \nmore"), "plain text");
}

#[test]
fn short_description_without_text_says_so() {
    assert_eq!(extract_skill_short_description("# Only heading\n"), "no description");
    assert_eq!(extract_skill_short_description("---\ndescription:   \n---\n---\n"), "no description");
}

#[test]
fn long_descriptions_are_cut_at_180_characters() {
    let long = "a".repeat(200);
    let md = format!("---\ndescription: {}\n---\n", long);
    let expected = format!("{}...", "a".repeat(180));
    assert_eq!(extract_skill_short_description(&md), expected);
    assert_eq!(truncate_skill_description("héllo", 5), "héllo");
    assert_eq!(truncate_skill_description("héllo!", 5), "héllo...");
}

#[test]
fn skill_sources_name_where_a_skill_comes_from() {
    assert_eq!(format_skill_source(&SkillSourceKind::Local, None, None), "workspace/local");
    assert_eq!(
        format_skill_source(&SkillSourceKind::Local, Some("x"), Some(true)),
        "workspace/local (stale)"
    );
    assert_eq!(
        format_skill_source(&SkillSourceKind::Registry, Some("  anthropic "), Some(true)),
        "managed/anthropic (stale)"
    );
    assert_eq!(
        format_skill_source(&SkillSourceKind::Registry, Some("   "), Some(false)),
        "managed/registry"
    );
    assert_eq!(format_skill_source(&SkillSourceKind::Registry, None, None), "managed/registry");
}

#[test]
fn matching_quotes_are_removed_once() {
    assert_eq!(trim_matching_quotes("'x'"), "x");
    assert_eq!(trim_matching_quotes("\"\"x\"\""), "\"x\"");
    assert_eq!(trim_matching_quotes("\"x'"), "\"x'");
    assert_eq!(trim_matching_quotes("\""), "\"");
    assert_eq!(trim_matching_quotes(""), "");
}

#[test]
fn frontmatter_lines_accept_both_line_endings() {
    assert_eq!(
        frontmatter_lines("---\na: 1\nb: 2\n---\nbody"),
        Some(vec!["a: 1".to_string(), "b: 2".to_string()])
    );
    assert_eq!(
        frontmatter_lines("---\r\na: 1\r\nb: 2\r\n---\r\nbody"),
        Some(vec!["a: 1".to_string(), "b: 2".to_string()])
    );
    assert_eq!(frontmatter_lines("no frontmatter"), None);
    assert_eq!(frontmatter_lines("---\nunterminated"), None);
}

#[test]
fn strip_frontmatter_returns_the_body() {
    assert_eq!(strip_frontmatter("---\ntitle: x\n---\nrest").as_deref(), Some("rest"));
    assert_eq!(strip_frontmatter("  ---  \ntitle: x\n  ---\nrest\n").as_deref(), Some("rest\n"));
    assert_eq!(strip_frontmatter("---\nunterminated"), None);
    assert_eq!(strip_frontmatter("text"), None);
}

use klaw_gui::markdown::{frontmatter_offsets_on_boundary, skill_short_description};

#[test]
fn body_offset_inside_a_character_is_detected() {
    let bad = "---\r\nx\r\n---\u{3000}\r\nbody";
    assert!(!frontmatter_offsets_on_boundary(bad));
    assert_eq!(skill_short_description(bad), None);

    let good = "---\nname: demo\n---\n\n# Title\n\nFirst body line.\n";
    assert!(frontmatter_offsets_on_boundary(good));
    assert_eq!(skill_short_description(good).as_deref(), Some("First body line."));
    assert!(frontmatter_offsets_on_boundary("no frontmatter"));
    assert_eq!(skill_short_description("# Only heading\n").as_deref(), Some("no description"));
}

#[test]
fn frontmatter_description_needs_no_body_offset() {
    let md = "---\ndescription: 'Reads files'\n---\n";
    assert_eq!(skill_short_description(md).as_deref(), Some("Reads files"));
}
