use orchestration::json::{JsonNumber, JsonValue, object_insert};
use orchestration::template::{find_close, render_template};

fn text(s: &str) -> JsonValue {
    JsonValue::String(s.to_string())
}

fn object(pairs: Vec<(&str, JsonValue)>) -> JsonValue {
    let mut entries = Vec::new();
    for (k, v) in pairs {
        object_insert(&mut entries, k.to_string(), v);
    }
    JsonValue::Object(entries)
}

#[test]
fn template_replaces_simple_placeholder() {
    let ctx = object(vec![("foo", text("bar"))]);
    assert_eq!(render_template("hello {{foo}}", &ctx), "hello bar");
}

#[test]
fn template_walks_nested_path() {
    let ctx = object(vec![("foo", object(vec![("bar", text("baz"))]))]);
    assert_eq!(render_template("{{foo.bar}}", &ctx), "baz");
}

#[test]
fn template_leaves_unknown_placeholders_unchanged() {
    let ctx = object(vec![("foo", text("bar"))]);
    assert_eq!(
        render_template("{{missing}} {{foo}}", &ctx),
        "{{missing}} bar"
    );
}

#[test]
fn template_handles_integer_values() {
    let ctx = object(vec![("n", JsonValue::Number(JsonNumber::PosInt(42)))]);
    assert_eq!(render_template("x={{n}}", &ctx), "x=42");
}

#[test]
fn template_trims_keys_and_renders_structures_as_json() {
    let ctx = object(vec![
        ("flag", JsonValue::Bool(true)),
        ("none", JsonValue::Null),
        ("list", JsonValue::Array(vec![text("a"), JsonValue::Number(JsonNumber::NegInt(-1))])),
        ("obj", object(vec![("k", text("v\"q"))])),
    ]);
    assert_eq!(render_template("{{ flag }}", &ctx), "true");
    assert_eq!(render_template("{{none}}", &ctx), "null");
    assert_eq!(render_template("{{list}}", &ctx), "[\"a\",-1]");
    assert_eq!(render_template("{{obj}}", &ctx), "{\"k\":\"v\\\"q\"}");
}

#[test]
fn template_keeps_unclosed_braces() {
    let ctx = object(vec![("foo", text("bar"))]);
    assert_eq!(render_template("a {{foo", &ctx), "a {{foo");
    assert_eq!(render_template("{x} }}", &ctx), "{x} }}");
}

#[test]
fn template_copies_non_ascii_text_unchanged() {
    let ctx = object(vec![("name", text("Zoë"))]);
    assert_eq!(render_template("é", &ctx), "é");
    assert_eq!(render_template("héllo {{name}} — ok", &ctx), "héllo Zoë — ok");
}

#[test]
fn plain_ascii_text_renders_as_itself() {
    let ctx = object(vec![("a", text("b"))]);
    let t = "no placeholders here: just text, 42 } and more";
    assert_eq!(render_template(t, &ctx), t);
}

#[test]
fn find_close_finds_first_closing_pair() {
    let t: Vec<char> = "ab}}c}}".chars().collect();
    assert_eq!(find_close(&t, 0), Some(2));
    assert_eq!(find_close(&t, 3), Some(5));
    assert_eq!(find_close(&t, 6), None);
}

#[test]
fn json_text_is_written_by_serde_json() {
    let v = object(vec![
        ("b", text("x\ny")),
        ("a", JsonValue::Array(vec![JsonValue::Null, JsonValue::Bool(false)])),
        ("c", JsonValue::Number(JsonNumber::Float("1.5".into()))),
    ]);
    assert_eq!(
        orchestration::json::json_string(&v),
        "{\"a\":[null,false],\"b\":\"x\\ny\",\"c\":1.5}"
    );
    let mut entries = Vec::new();
    object_insert(&mut entries, "k".into(), text("1"));
    object_insert(&mut entries, "j".into(), text("2"));
    object_insert(&mut entries, "k".into(), text("3"));
    let keys: Vec<&str> = entries.iter().map(|(k, _)| k.as_str()).collect();
    assert_eq!(keys, vec!["k", "j"]);
    assert_eq!(entries[0].1, text("3"));
}
