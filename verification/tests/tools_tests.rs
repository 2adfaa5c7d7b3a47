use chronikl::tools::files::{
    cap_output, git_show_failure, git_show_output, read_file_output, DirEntry, EntryKind, Match, ReadFileArgs,
    MAX_OUTPUT_BYTES,
};
use chronikl::tools::listing::finish_listing;
use chronikl::tools::search::{search_lines, searches_file, PathFilter, Pattern, MAX_MATCHES};
use chronikl::tools::ToolError;

fn e(name: &str, kind: EntryKind) -> DirEntry {
    DirEntry { name: name.to_string(), kind }
}

#[test]
fn listing_drops_git_and_sorts() {
    let raw = vec![e("src", EntryKind::Dir), e(".git", EntryKind::Dir), e("README.md", EntryKind::File), e("Cargo.toml", EntryKind::File)];
    let (out, truncated) = finish_listing(raw);
    assert!(!truncated);
    let names: Vec<&str> = out.iter().map(|d| d.name.as_str()).collect();
    assert_eq!(names, vec!["Cargo.toml", "README.md", "src"]);
}

#[test]
fn listing_caps_at_two_hundred() {
    let raw: Vec<DirEntry> = (0..250).rev().map(|i| e(&format!("f{i:03}"), EntryKind::File)).collect();
    let (out, truncated) = finish_listing(raw);
    assert!(truncated);
    assert_eq!(out.len(), 200);
    assert!(out.windows(2).all(|w| w[0].name <= w[1].name));
}

#[test]
fn invalid_regex_is_invalid_args() {
    match Pattern::new("(unclosed") {
        Err(ToolError::InvalidArgs(m)) => assert!(m.starts_with("invalid regex `(unclosed`: ")),
        _ => panic!("expected InvalidArgs"),
    }
}

#[test]
fn invalid_glob_is_invalid_args() {
    match PathFilter::new(Some("a[")) {
        Err(ToolError::InvalidArgs(m)) => assert!(m.starts_with("invalid path_glob: ")),
        _ => panic!("expected InvalidArgs"),
    }
    assert!(matches!(PathFilter::new(Some("")), Ok(None)));
    assert!(matches!(PathFilter::new(None), Ok(None)));
}

#[test]
fn finds_matches_with_line_numbers() {
    let p = Pattern::new("(?i)login").ok().unwrap();
    let mut matches: Vec<Match> = Vec::new();
    let truncated = search_lines(&p, "src/lib.rs", "pub fn login() {}\nfn other() {}\nLOGIN again\n", &mut matches);
    assert!(!truncated);
    assert_eq!(matches.len(), 2);
    assert_eq!(matches[0].line_number, 1);
    assert_eq!(matches[0].line, "pub fn login() {}");
    assert_eq!(matches[1].line_number, 3);
    assert_eq!(matches[1].path, "src/lib.rs");
}

#[test]
fn long_lines_are_cut_and_matches_capped() {
    let p = Pattern::new("x").ok().unwrap();
    let mut matches: Vec<Match> = Vec::new();
    let long = "x".repeat(400);
    assert!(!search_lines(&p, "a", &long, &mut matches));
    assert_eq!(matches[0].line.chars().count(), 300);
    let many = "x\n".repeat(60);
    let truncated = search_lines(&p, "b", &many, &mut matches);
    assert!(truncated);
    assert_eq!(matches.len(), MAX_MATCHES);
}

#[test]
fn glob_restricts_search() {
    let f = PathFilter::new(Some("src/**/*.rs")).ok().unwrap();
    assert!(searches_file(&f, "src/lib.rs", Some(10)));
    assert!(!searches_file(&f, "README.md", Some(10)));
    assert!(!searches_file(&None, ".git/config", None));
    assert!(!searches_file(&None, "a/.git/HEAD", None));
    assert!(searches_file(&None, "a/git/HEAD", None));
    assert!(!searches_file(&None, "big.bin", Some(2 * 1024 * 1024)));
}

#[test]
fn reads_a_file_and_slices_lines() {
    let args = ReadFileArgs { path: "src/lib.rs".into(), start_line: None, end_line: None };
    let out = read_file_output(&args, "one\ntwo\nthree\n");
    assert_eq!(out.content, "one\ntwo\nthree\n");
    assert!(!out.truncated);
    let args = ReadFileArgs { path: "src/lib.rs".into(), start_line: Some(2), end_line: Some(2) };
    let out = read_file_output(&args, "one\ntwo\nthree\n");
    assert_eq!(out.content, "two");
    assert!(out.truncated);
}

#[test]
fn large_output_is_capped_with_a_note() {
    let big = "a".repeat(MAX_OUTPUT_BYTES + 10);
    let (text, cut) = cap_output(big);
    assert!(cut);
    assert!(text.starts_with(&"a".repeat(MAX_OUTPUT_BYTES)));
    assert!(text.ends_with("\n\n[\u{2026}truncated; original was 262154 bytes]"));
    let (small, cut) = cap_output("ok".to_string());
    assert_eq!(small, "ok");
    assert!(!cut);
    let shown = git_show_output("abc1234", "commit abc1234\n".to_string());
    assert_eq!(shown.sha, "abc1234");
    assert!(!shown.truncated);
}

#[test]
fn unknown_sha_surfaces_git_error() {
    match git_show_failure("deadbeef", "  fatal: bad object deadbeef\n") {
        ToolError::Other(m) => assert_eq!(m, "git show deadbeef failed: fatal: bad object deadbeef"),
        _ => panic!("expected Other"),
    }
}

#[test]
fn populates_captured_slot() {
    let mut tool = chronikl::tools::files::SubmitClassificationTool::new();
    let out = tool.call(chronikl::ladder::Verdict {
        section: "features".into(),
        summary: "Add x".into(),
        confidence: 900,
        breaking: false,
    });
    assert!(out.acknowledged);
    let captured = tool.take().unwrap();
    assert_eq!(captured.section, "features");
    assert_eq!(captured.summary, "Add x");
    assert!(tool.take().is_none());
}

#[test]
fn read_file_output_cuts_on_a_character_boundary() {
    // 262143 ASCII bytes, then a two-byte character straddling the cap.
    let mut content = "a".repeat(262143);
    content.push('é');
    content.push_str("tail");
    let args = ReadFileArgs { path: "big.txt".into(), start_line: None, end_line: None };
    let out = read_file_output(&args, &content);
    assert!(out.truncated);
    let expected = format!("{}\n\n[…truncated; original was {} bytes]", "a".repeat(262143), content.len());
    assert_eq!(out.content, expected);
    let small = read_file_output(&args, "é");
    assert!(!small.truncated);
    assert_eq!(small.content, "é");
}

#[test]
fn path_filter_refuses_deeply_nested_globs() {
    let deep = format!("{}a{}", "{".repeat(100_000), "}".repeat(100_000));
    match PathFilter::new(Some(&deep)) {
        Err(ToolError::InvalidArgs(m)) => assert_eq!(m, "invalid path_glob: more than 250 `{` characters"),
        _ => panic!("expected InvalidArgs"),
    }
    let many = "{a,b}".repeat(251);
    assert!(matches!(PathFilter::new(Some(&many)), Err(ToolError::InvalidArgs(_))));
    let nested = format!("{}a{}", "{".repeat(250), "}".repeat(250));
    let _ = PathFilter::new(Some(&nested));
    let f = PathFilter::new(Some("src/{a,b}/*.rs")).ok().unwrap().unwrap();
    assert!(f.allows("src/a/x.rs"));
}
