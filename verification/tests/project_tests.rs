use chronikl::project::{resolve, ResolveInputs};
use chronikl::project::{
    cargo_toml_description, find_readme, manifest_description, package_json_description,
    pyproject_description, read_readme_intro, DESCRIPTION_MAX_CHARS, README_INTRO_MAX_CHARS,
};

#[test]
fn find_readme_prefers_md() {
    let present = ["README", "README.md"];
    let found = find_readme(|n: &str| present.contains(&n)).unwrap();
    assert_eq!(found, "README.md");
}

#[test]
fn find_readme_falls_back_in_order() {
    let present = ["README", "README.txt"];
    assert_eq!(find_readme(|n: &str| present.contains(&n)), Some("README.txt"));
}

#[test]
fn find_readme_returns_none_when_absent() {
    assert!(find_readme(|_: &str| false).is_none());
}

#[test]
fn read_readme_intro_keeps_title_and_intro_paragraph() {
    let intro = read_readme_intro(
        "# chronikl\n\
         \n\
         **AI-powered release notes for your team.** Turn commits into prose.\n\
         \n\
         ## Install\n\
         \n\
         cargo install chronikl\n",
    )
    .unwrap();
    assert!(intro.contains("# chronikl"));
    assert!(intro.contains("Turn commits into prose"));
    assert!(!intro.contains("## Install"));
    assert!(!intro.contains("cargo install"));
}

#[test]
fn read_readme_intro_strips_badge_lines() {
    let intro = read_readme_intro(
        "# chronikl\n\
         \n\
         [![Crates.io](https://img.shields.io/crates/v/chronikl)](https://crates.io/crates/chronikl)\n\
         [![CI](https://example.com/ci.svg)](https://example.com/ci)\n\
         ![Standalone badge](https://example.com/x.svg)\n\
         \n\
         The actual tagline.\n\
         \n\
         ## Install\n",
    )
    .unwrap();
    assert!(intro.contains("# chronikl"));
    assert!(intro.contains("The actual tagline."));
    assert!(!intro.contains("Crates.io"));
    assert!(!intro.contains("CI"));
    assert!(!intro.contains("Standalone badge"));
}

#[test]
fn read_readme_intro_strips_yaml_front_matter() {
    let intro = read_readme_intro(
        "---\n\
         title: chronikl\n\
         layout: project\n\
         ---\n\
         # chronikl\n\
         \n\
         Real content.\n",
    )
    .unwrap();
    assert!(intro.contains("# chronikl"));
    assert!(intro.contains("Real content"));
    assert!(!intro.contains("layout:"));
    assert!(!intro.contains("title: chronikl"));
}

#[test]
fn read_readme_intro_truncates_to_cap() {
    let body = "x".repeat(README_INTRO_MAX_CHARS * 2);
    let intro = read_readme_intro(&body).unwrap();
    assert!(intro.chars().count() <= README_INTRO_MAX_CHARS + 1);
    assert!(intro.ends_with('\u{2026}'));
}

#[test]
fn read_readme_intro_returns_none_for_empty_after_cleanup() {
    assert!(read_readme_intro("## Install\n\ncargo install\n").is_none());
}

#[test]
fn cargo_toml_description_reads_package_section() {
    let cargo = "[package]\nname = \"x\"\nversion = \"0.1.0\"\ndescription = \"A small CLI\"\n";
    assert_eq!(manifest_description(Some(cargo), None, None).as_deref(), Some("A small CLI"));
    assert_eq!(cargo_toml_description(cargo).as_deref(), Some("A small CLI"));
}

#[test]
fn package_json_description_falls_back() {
    let pkg = r#"{"name":"x","description":"A node CLI"}"#;
    assert_eq!(manifest_description(None, Some(pkg), None).as_deref(), Some("A node CLI"));
    assert_eq!(package_json_description(pkg).as_deref(), Some("A node CLI"));
}

#[test]
fn pyproject_description_reads_pep621() {
    let py = "[project]\nname = \"x\"\ndescription = \"A python CLI\"\n";
    assert_eq!(manifest_description(None, None, Some(py)).as_deref(), Some("A python CLI"));
    assert_eq!(pyproject_description(py).as_deref(), Some("A python CLI"));
}

#[test]
fn manifest_description_prefers_cargo_over_others() {
    let cargo = "[package]\nname=\"x\"\nversion=\"0\"\ndescription=\"rust\"\n";
    let pkg = r#"{"name":"x","description":"node"}"#;
    assert_eq!(manifest_description(Some(cargo), Some(pkg), None).as_deref(), Some("rust"));
}

#[test]
fn manifest_description_skips_a_manifest_without_description() {
    let cargo = "[package]\nname=\"x\"\n";
    let pkg = r#"{"name":"x","description":"  node  "}"#;
    assert_eq!(manifest_description(Some(cargo), Some(pkg), None).as_deref(), Some("node"));
    assert_eq!(cargo_toml_description("not = = toml"), None);
    assert_eq!(package_json_description(r#"{"description": 3}"#), None);
}

#[test]
fn manifest_description_returns_none_when_absent() {
    assert!(manifest_description(None, None, None).is_none());
}

#[test]
fn manifest_description_truncates_excessive() {
    let long = "x".repeat(DESCRIPTION_MAX_CHARS * 2);
    let cargo = format!("[package]\nname=\"x\"\nversion=\"0\"\ndescription=\"{long}\"\n");
    let desc = manifest_description(Some(&cargo), None, None).unwrap();
    assert!(desc.chars().count() <= DESCRIPTION_MAX_CHARS + 1);
    assert!(desc.ends_with('\u{2026}'));
}

#[test]
fn resolve_composes_description_and_readme_rules() {
    let read = |p: &str| if p == "README.md" { Some("# T\n\nIntro text.\n\n## More\n".to_string()) } else { None };
    let inputs = ResolveInputs { cli_description: Some("  From CLI  "), ..Default::default() };
    let ctx = resolve(&inputs, Some("manifest".into()), Some("README.md".into()), read);
    assert_eq!(ctx.description.as_deref(), Some("From CLI"));
    assert_eq!(ctx.readme_intro, read_readme_intro("# T\n\nIntro text.\n\n## More\n"));
    assert!(ctx.readme_intro.is_some());
    let off = ResolveInputs { toml_no_readme: true, ..Default::default() };
    let ctx = resolve(&off, Some("  ".into()), Some("README.md".into()), read);
    assert_eq!(ctx.description, None);
    assert_eq!(ctx.readme_intro, None);
    let other = ResolveInputs { cli_readme: Some("docs/INTRO.md"), ..Default::default() };
    let ctx = resolve(&other, None, Some("README.md".into()), read);
    assert_eq!(ctx.readme_intro, None);
}
