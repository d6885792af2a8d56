use gist::errors::GistError;
use gist::extract::extract_abstract;
use gist::extract::process_document;
use gist::summary::encode_summary_request;
use gist::summary::parse_summary;
use gist::text::clean_text;
use gist::text::normalize;
use gist::text::strip_label_prefix;

#[test]
fn test_clean_text() {
    let input = "This   is  a   test   string  with   extra   spaces";
    let expected = "This is a test string with extra spaces";
    assert_eq!(clean_text(input), expected);
}

#[test]
fn clean_text_mixed_whitespace() {
    assert_eq!(clean_text("  a\t\nb \r\n"), "a b");
    assert_eq!(clean_text("a\u{00A0}b"), "a b");
    assert_eq!(clean_text(""), "");
    assert_eq!(clean_text("   \t  "), "");
}

#[test]
fn label_stripping_scenario() {
    assert_eq!(normalize("Abstract   Cell signaling pathways"), "Cell signaling pathways");
    assert_eq!(strip_label_prefix("Abstract Cell signaling"), "Cell signaling");
}

#[test]
fn label_stripping_is_a_character_class_trim() {
    // the trim takes any leading characters of the set {a b s t r c}, not
    // only the literal word
    assert_eq!(normalize("Cats are cute"), "are cute");
    assert_eq!(normalize("bascr stays"), "stays");
}

#[test]
fn normalize_empty_and_spaces() {
    assert_eq!(normalize(""), "");
    assert_eq!(normalize("   "), "");
    assert_eq!(normalize("abstract"), "");
}

#[test]
fn normalize_idempotent_on_samples() {
    for s in [
        "  Abstract   Der   Wert  ",
        "This   is  a   test",
        "",
        "x",
        "  \t ",
        "Abstract: Background material",
        "quick   brown\tfox",
    ] {
        let once = normalize(s);
        assert_eq!(normalize(&once), once);
    }
}

#[test]
fn normalize_can_strip_again_when_a_label_character_surfaces() {
    // stripping can expose a fresh leading label character; on such
    // inputs a second normalization strips further
    assert_eq!(normalize("  Abstract   Cell   signaling  "), "Cell signaling");
    assert_eq!(normalize("Cell signaling"), "ell signaling");
}

#[test]
fn extraction_hit() {
    let html = "<div class=\"abstract\">Hello   world</div>";
    let raw = extract_abstract(html).unwrap();
    assert!(raw.contains("Hello"));
    assert!(raw.contains("world"));
    assert!(raw.contains("Hello   world"));
}

#[test]
fn extraction_joins_text_parts_with_spaces() {
    let html = "<div class=\"abstract\">Background<b>Cell</b>biology</div>";
    let raw = extract_abstract(html).unwrap();
    assert_eq!(raw, "Background Cell biology");
}

#[test]
fn extraction_matches_any_element_with_the_class() {
    let html = "<section class=\"abstract\">From a section</section>";
    assert_eq!(extract_abstract(html).unwrap(), "From a section");
}

#[test]
fn extraction_miss() {
    let html = "<html><body><p>nothing of note</p></body></html>";
    let r = extract_abstract(html);
    assert!(matches!(r, Err(GistError::AbstractNotFound)));
}

#[test]
fn extraction_takes_first_match() {
    let html = "<div class=\"abstract\">first</div><div class=\"abstract\">second</div>";
    let raw = extract_abstract(html).unwrap();
    assert_eq!(raw, "first");
}

#[test]
fn process_document_normalizes() {
    let html = "<div class=\"abstract\">Abstract:   Hello   world </div>";
    let text = process_document(html).unwrap();
    assert_eq!(text, ": Hello world");
}

#[test]
fn process_document_miss() {
    let r = process_document("<p class=\"other\">plain</p>");
    assert!(matches!(r, Err(GistError::AbstractNotFound)));
}

#[test]
fn summarize_success() {
    let r = parse_summary("{\"summary\": \"short text\"}");
    assert_eq!(r.unwrap(), "short text");
}

#[test]
fn summarize_missing_field() {
    let r = parse_summary("{}");
    assert!(matches!(r, Err(GistError::SummaryNotFound)));
}

#[test]
fn summarize_non_string_field() {
    let r = parse_summary("{\"summary\": 3}");
    assert!(matches!(r, Err(GistError::SummaryNotFound)));
}

#[test]
fn summarize_invalid_body() {
    let r = parse_summary("this is not json");
    assert!(matches!(r, Err(GistError::FetchError(_))));
}

#[test]
fn request_body_plain() {
    assert_eq!(encode_summary_request("short text"), "{\"text\":\"short text\"}");
}

#[test]
fn request_body_escapes() {
    assert_eq!(
        encode_summary_request("a\"b\\c\nd\u{1}e"),
        "{\"text\":\"a\\\"b\\\\c\\nd\\u0001e\"}"
    );
}

#[test]
fn request_body_matches_reference_encoder() {
    for s in ["short text", "a\"b\\c\nd\u{1}e", "", "tabs\tand\rreturns", "\u{1F}\u{10}"] {
        let expected = format!(
            "{{\"text\":{}}}",
            serde_json::to_string(s).unwrap()
        );
        assert_eq!(encode_summary_request(s), expected);
    }
}

#[test]
fn request_body_round_trips_through_summary_decoder() {
    // a body built by the encoder, read back with the summary key
    let body = encode_summary_request("quoted \"words\"").replace("text", "summary");
    let r = parse_summary(&body);
    assert_eq!(r.unwrap(), "quoted \"words\"");
}
