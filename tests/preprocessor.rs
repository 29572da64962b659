use mdbook_private_chapters::compat::VersionError;
use mdbook_private_chapters::policy::{is_private_file, is_truthy_value};
use mdbook_private_chapters::{
    check_version, compatibility_warning, filter_sections, mismatch_warning,
    should_export_private, should_keep_chapter, supported_renderers, supports_renderer,
    transform, HostContext, SectionKind, NAME,
};

fn chapter(path: &str) -> SectionKind {
    SectionKind::Chapter { source_path: Some(path.to_string()) }
}

fn sample() -> (Vec<&'static str>, Vec<SectionKind>) {
    (vec!["intro", "draft", "separator"], vec![chapter("intro.md"), chapter("_draft.md"), SectionKind::Other])
}

fn context(version: &str, setting: Option<bool>) -> HostContext {
    HostContext { mdbook_version: version.to_string(), export_private_setting: setting }
}

#[test]
fn private_chapter_dropped_without_export() {
    let (items, kinds) = sample();
    assert_eq!(filter_sections(items, &kinds, false), vec!["intro", "separator"]);
}

#[test]
fn private_chapter_kept_with_export() {
    let (items, kinds) = sample();
    assert_eq!(filter_sections(items, &kinds, true), vec!["intro", "draft", "separator"]);
}

#[test]
fn public_chapter_kept_either_way() {
    let kinds = vec![chapter("guide/setup.md")];
    assert_eq!(filter_sections(vec![1u32], &kinds, false), vec![1u32]);
    assert_eq!(filter_sections(vec![1u32], &kinds, true), vec![1u32]);
}

#[test]
fn pathless_chapter_always_kept() {
    let kinds = vec![SectionKind::Chapter { source_path: None }, chapter("_x.md")];
    assert_eq!(filter_sections(vec!['a', 'b'], &kinds, false), vec!['a']);
}

#[test]
fn other_items_kept_in_place() {
    let kinds = vec![
        SectionKind::Other,
        chapter("_a.md"),
        SectionKind::Other,
        chapter("b.md"),
        chapter("_c.md"),
        SectionKind::Other,
    ];
    let items = vec![10u8, 11, 12, 13, 14, 15];
    assert_eq!(filter_sections(items, &kinds, false), vec![10u8, 12, 13, 15]);
}

#[test]
fn empty_book_stays_empty() {
    let kinds: Vec<SectionKind> = Vec::new();
    let items: Vec<u8> = Vec::new();
    assert!(filter_sections(items, &kinds, false).is_empty());
}

#[test]
fn keep_chapter_by_file_name() {
    assert!(should_keep_chapter(None));
    assert!(should_keep_chapter(Some("intro.md")));
    assert!(should_keep_chapter(Some("_drafts/intro.md")));
    assert!(!should_keep_chapter(Some("_draft.md")));
    assert!(!should_keep_chapter(Some("part/_draft.md")));
    assert!(!should_keep_chapter(Some("/abs/path/_draft.md")));
}

#[test]
fn file_name_follows_path_components() {
    assert!(is_private_file("a/_b/"));
    assert!(is_private_file("a/_b/."));
    assert!(is_private_file("a/_b//./"));
    assert!(is_private_file("_"));
    assert!(!is_private_file("_a/.."));
    assert!(!is_private_file("/"));
    assert!(!is_private_file(""));
    assert!(!is_private_file("."));
    assert!(!is_private_file("a/b_c.md"));
}

#[test]
fn truthy_spellings() {
    for v in ["1", "true", "TRUE", "yes", "YES"] {
        assert!(is_truthy_value(v), "{v}");
    }
    for v in ["", "0", "True", "Yes", "false", "on", "yes "] {
        assert!(!is_truthy_value(v), "{v}");
    }
}

#[test]
fn export_private_sources() {
    assert!(!should_export_private(None, None));
    assert!(should_export_private(Some(true), None));
    assert!(!should_export_private(Some(false), None));
    assert!(should_export_private(None, Some("yes")));
    assert!(!should_export_private(None, Some("no")));
    assert!(should_export_private(Some(false), Some("1")));
    assert!(should_export_private(Some(true), Some("no")));
    assert!(should_export_private(Some(true), Some("TRUE")));
}

#[test]
fn renderer_support() {
    assert!(supports_renderer("html"));
    assert!(supports_renderer("pdf"));
    assert!(supports_renderer("epub"));
    assert!(!supports_renderer("docx"));
    assert!(!supports_renderer("HTML"));
    assert!(!supports_renderer(""));
    assert_eq!(supported_renderers(), vec!["html", "pdf", "epub"]);
}

#[test]
fn version_checks() {
    assert_eq!(check_version("0.4.52", "0.4.52"), Ok(true));
    assert_eq!(check_version("0.4.60", "0.4.52"), Ok(true));
    assert_eq!(check_version("0.5.0", "0.4.52"), Ok(false));
    assert_eq!(check_version("0.4", "0.4.52"), Err(VersionError::InvalidVersion));
    assert_eq!(check_version("not a version", "@1.0"), Err(VersionError::InvalidVersion));
    assert_eq!(check_version("0.4.52", "@1.0"), Err(VersionError::InvalidRequirement));
}

#[test]
fn warning_text() {
    let expected = "Warning: The private-chapters plugin was built against version 0.4.52 of mdbook, \
                    but we're being called from version 0.5.0";
    assert_eq!(mismatch_warning("0.4.52", "0.5.0"), expected);
    assert_eq!(compatibility_warning(false, "0.4.52", "0.5.0"), Some(expected.to_string()));
    assert_eq!(compatibility_warning(true, "0.4.52", "0.5.0"), None);
    assert_eq!(NAME, "private-chapters");
}

#[test]
fn transform_filters_by_default() {
    let (items, kinds) = sample();
    let r = transform(&context("0.4.52", None), "0.4.52", None, items, &kinds).unwrap();
    assert_eq!(r.sections, vec!["intro", "separator"]);
    assert_eq!(r.warning, None);
}

#[test]
fn transform_exports_with_environment() {
    let (items, kinds) = sample();
    let r = transform(&context("0.4.52", None), "0.4.52", Some("yes"), items, &kinds).unwrap();
    assert_eq!(r.sections, vec!["intro", "draft", "separator"]);
}

#[test]
fn transform_exports_with_config() {
    let (items, kinds) = sample();
    let r = transform(&context("0.4.52", Some(true)), "0.4.52", None, items, &kinds).unwrap();
    assert_eq!(r.sections, vec!["intro", "draft", "separator"]);
}

#[test]
fn transform_warns_on_mismatch_and_goes_on() {
    let (items, kinds) = sample();
    let r = transform(&context("0.5.0", None), "0.4.52", None, items, &kinds).unwrap();
    assert_eq!(r.sections, vec!["intro", "separator"]);
    assert_eq!(r.warning, Some(mismatch_warning("0.4.52", "0.5.0")));
}

#[test]
fn transform_rejects_bad_version() {
    let (items, kinds) = sample();
    let r = transform(&context("garbage", None), "0.4.52", None, items, &kinds);
    assert!(matches!(r, Err(VersionError::InvalidVersion)));
    let (items, kinds) = sample();
    let r = transform(&context("0.4.52", None), "@1.0", None, items, &kinds);
    assert!(matches!(r, Err(VersionError::InvalidRequirement)));
}
