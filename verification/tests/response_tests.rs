use chronikl::providers::response::parse_with_fallbacks;
use chronikl::providers::ProviderError;

/// A list of `{name, n}` objects, as the reply is expected to hold.
fn items(c: &str) -> Option<Vec<(String, u32)>> {
    let v: serde_json::Value = serde_json::from_str(c).ok()?;
    let arr = v.as_array()?;
    let mut out = Vec::new();
    for it in arr {
        let name = it.get("name")?.as_str()?.to_string();
        let n = u32::try_from(it.get("n")?.as_u64()?).ok()?;
        out.push((name, n));
    }
    Some(out)
}

/// An object with an `items` list.
fn wrapper(c: &str) -> Option<usize> {
    let v: serde_json::Value = serde_json::from_str(c).ok()?;
    Some(v.as_object()?.get("items")?.as_array()?.len())
}

#[test]
fn parses_clean_json_array() {
    let v = parse_with_fallbacks(r#"[{"name":"a","n":1}]"#, items).unwrap();
    assert_eq!(v, vec![("a".to_string(), 1)]);
}

#[test]
fn parses_markdown_fenced_json() {
    let response = "Here you go:\n```json\n[{\"name\":\"x\",\"n\":42}]\n```";
    let v = parse_with_fallbacks(response, items).unwrap();
    assert_eq!(v[0].1, 42);
}

#[test]
fn parses_fenced_without_json_label() {
    let response = "```\n[{\"name\":\"x\",\"n\":1}]\n```";
    let v = parse_with_fallbacks(response, items).unwrap();
    assert_eq!(v.len(), 1);
}

#[test]
fn parses_json_embedded_in_prose() {
    let response = "I picked these:\n[{\"name\":\"alpha\",\"n\":7}]\nThat's all.";
    let v = parse_with_fallbacks(response, items).unwrap();
    assert_eq!(v[0].0, "alpha");
}

#[test]
fn empty_response_is_parse_error() {
    let result = parse_with_fallbacks("", items);
    assert!(matches!(result, Err(ProviderError::Parse(_))));
}

#[test]
fn whitespace_only_is_parse_error() {
    let result = parse_with_fallbacks("   \n\n", items);
    assert!(matches!(result, Err(ProviderError::Parse(_))));
}

#[test]
fn unparseable_text_is_parse_error() {
    let result = parse_with_fallbacks("just regular text", items);
    assert!(matches!(result, Err(ProviderError::Parse(_))));
    match result {
        Err(ProviderError::Parse(m)) => {
            assert_eq!(m, "could not parse LLM response as JSON. Response: just regular text")
        },
        _ => unreachable!(),
    }
}

#[test]
fn parses_object_response() {
    let response = r#"{"items": [{"name":"a","n":1}]}"#;
    let n = parse_with_fallbacks(response, wrapper).unwrap();
    assert_eq!(n, 1);
}

#[test]
fn first_candidate_that_parses_wins() {
    // The whole reply does not parse; the bracketed span does.
    let response = "prefix [1, 2] suffix";
    let got = parse_with_fallbacks(response, |c: &str| serde_json::from_str::<Vec<u32>>(c).ok()).unwrap();
    assert_eq!(got, vec![1, 2]);
}
