use ellie::json::Json;
use ellie::json::merge_patch;
use ellie::json::obj_get_or_null;
use ellie::jsontext::parse_json;
use ellie::jsontext::to_compact_text;
use ellie::jsontext::try_compact_json;

fn num(text: &str) -> Json {
    Json::Num(text.to_string())
}

fn key(k: &str, v: Json) -> (String, Json) {
    (k.to_string(), v)
}

#[test]
fn compacts_spaced_json() {
    assert_eq!(try_compact_json("  { \"a\" : 1 ,  \"b\" : [ 1 , 2 ] }  "), "{\"a\":1,\"b\":[1,2]}");
}

#[test]
fn malformed_json_is_trimmed_unchanged() {
    assert_eq!(try_compact_json("  not json at all  "), "not json at all");
    assert_eq!(try_compact_json("{\"a\": "), "{\"a\":");
    assert_eq!(try_compact_json(""), "");
}

#[test]
fn normalizer_is_idempotent_on_samples() {
    let samples = [
        "  { \"a\" : 1 }  ",
        "plain text",
        "[1,  2,\t3]",
        " \"quoted\" ",
        "null",
        "  12.5  ",
        "{\"nested\": {\"deep\": [true, false, null]}}",
        "{broken",
        // A float whose text needs correctly-rounded parsing to come back
        // to the same value.
        "9331137037688034e-14",
        "[2.2250738585072014e-308, 1.7976931348623157e308]",
    ];
    for s in samples {
        let once = try_compact_json(s);
        let twice = try_compact_json(&once);
        assert_eq!(once, twice);
    }
}

#[test]
fn trims_unicode_whitespace() {
    assert_eq!(try_compact_json("\u{a0}\u{2003}hello\u{3000}"), "hello");
}

#[test]
fn merge_patch_deletes_and_adds_keys() {
    // {"a":1,"b":2} merged with {"b":null,"c":3} must yield {"a":1,"c":3}.
    let doc = Json::Obj(vec![key("a", num("1")), key("b", num("2"))]);
    let patch = Json::Obj(vec![key("b", Json::Null), key("c", num("3"))]);
    let merged = merge_patch(&doc, &patch);
    assert_eq!(to_compact_text(&merged), "{\"a\":1,\"c\":3}");
}

#[test]
fn merge_patch_overwrites_recursively() {
    let doc = parse_json("{\"o\":{\"x\":1,\"y\":2},\"k\":true}").unwrap();
    let patch = parse_json("{\"o\":{\"y\":null,\"z\":\"v\"}}").unwrap();
    let merged = merge_patch(&doc, &patch);
    assert_eq!(to_compact_text(&merged), "{\"k\":true,\"o\":{\"x\":1,\"z\":\"v\"}}");
}

#[test]
fn merge_patch_non_object_patch_replaces() {
    let doc = parse_json("{\"a\":1}").unwrap();
    let patch = num("7");
    let merged = merge_patch(&doc, &patch);
    assert_eq!(to_compact_text(&merged), "7");
}

#[test]
fn merge_patch_non_object_doc_starts_empty() {
    let doc = num("7");
    let patch = parse_json("{\"a\":{\"b\":null,\"c\":1}}").unwrap();
    let merged = merge_patch(&doc, &patch);
    assert_eq!(to_compact_text(&merged), "{\"a\":{\"c\":1}}");
}

#[test]
fn parse_json_reads_documents() {
    assert!(parse_json("{\"a\": 1}").is_some());
    assert!(parse_json("[1, 2]").is_some());
    assert!(parse_json("not json").is_none());
    match parse_json("\"hi\"").unwrap() {
        Json::Text(s) => assert_eq!(s, "hi"),
        _ => panic!("expected a string value"),
    }
}

#[test]
fn object_lookup_finds_first_binding() {
    let entries = vec![key("a", num("1")), key("b", num("2"))];
    match obj_get_or_null(&entries, "b") {
        Json::Num(text) => assert_eq!(text, "2"),
        _ => panic!("expected a number"),
    }
    assert!(matches!(obj_get_or_null(&entries, "missing"), Json::Null));
}
