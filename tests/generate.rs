use anylang::emit::{decimal_text, generate, render};
use anylang::builder::parse_json;
use anylang::classify::{classify_and_render, json_text_of};
use anylang::error::GenerateError;
use anylang::naming::{check_identifier, normalize_constant, normalize_namespace};
use anylang::source::{base_name, check_source_kind, extension, find_language_file};
use anylang::tree::{JsonNamespace, TokenJson, TokenVariant};
use anylang::value::JsonValue;
use serde_json::value::RawValue;
use std::collections::HashMap;

/// Reads JSON text into the library's value. Numbers keep the exact literal
/// of the source, which is taken from the raw text of each value; object
/// members keep the order of the source.
fn parse_document(text: &str) -> Result<JsonValue, serde_json::Error> {
    let raw: Box<RawValue> = serde_json::from_str(text)?;
    to_value(&raw)
}

fn to_value(raw: &RawValue) -> Result<JsonValue, serde_json::Error> {
    let text = raw.get();
    Ok(match text.as_bytes().first() {
        Some(b'{') => {
            let order: serde_json::Map<String, serde_json::Value> = serde_json::from_str(text)?;
            let mut raws: HashMap<String, Box<RawValue>> = serde_json::from_str(text)?;
            let mut members = Vec::with_capacity(order.len());
            for key in order.keys() {
                if let Some(r) = raws.remove(key) {
                    members.push((key.clone(), to_value(&r)?));
                }
            }
            JsonValue::Object(members)
        },
        Some(b'[') => {
            let items: Vec<Box<RawValue>> = serde_json::from_str(text)?;
            JsonValue::Array(items.iter().map(|r| to_value(r)).collect::<Result<_, _>>()?)
        },
        Some(b'"') => JsonValue::Str(serde_json::from_str(text)?),
        Some(b't') | Some(b'f') => JsonValue::Bool(serde_json::from_str(text)?),
        Some(b'n') => JsonValue::Null,
        _ => JsonValue::Number(text.to_string()),
    })
}

fn doc(text: &str) -> JsonValue {
    parse_document(text).unwrap()
}

fn tree(text: &str, file: &str) -> JsonNamespace {
    match parse_json(&doc(text), file) {
        Ok(ns) => ns,
        Err(e) => panic!("{}", e.diagnostic(file)),
    }
}

fn lookup<'a>(ns: &'a JsonNamespace, path: &[&str]) -> &'a TokenVariant {
    let (last, modules) = path.split_last().unwrap();
    let mut cur = ns;
    for m in modules {
        cur = cur
            .tokens
            .iter()
            .find_map(|t| match t {
                TokenJson::Namespace(n) if n.namespace.as_deref() == Some(*m) => Some(n),
                _ => None,
            })
            .unwrap();
    }
    cur.tokens
        .iter()
        .find_map(|t| match t {
            TokenJson::Token(t) if t.name == *last => Some(&t.data),
            _ => None,
        })
        .unwrap()
}

fn single(ns: &JsonNamespace, path: &[&str]) -> String {
    match lookup(ns, path) {
        TokenVariant::Single(s) => s.clone(),
        TokenVariant::Array(_) => panic!("array"),
    }
}

fn array(ns: &JsonNamespace, path: &[&str]) -> Vec<String> {
    match lookup(ns, path) {
        TokenVariant::Array(a) => a.clone(),
        TokenVariant::Single(_) => panic!("single"),
    }
}

const RU_RU: &str = r#"{
    "ping": "понг",
    "dummy": {
        "foo": "базз",
        "some": ["ничего", "или", 0]
    },
    "rust": {
        "rust": "раст",
        "is": null,
        "good": {
            "true": [1, true]
        }
    }
}"#;

const EN_US: &str = r#"[
    {
        "ping": "pong"
    },
    {
        "dummy": {
            "some": ["none", "or", 0]
        },
        "foo": "buzz",
        "rust": {
            "rust": "rust",
            "is": null,
            "good": {
                "true": [1, true]
            }
        }
    }
]"#;

#[test]
fn check_obj() {
    let ns = tree(RU_RU, "ru_RU");
    assert_eq!(single(&ns, &["PING"]), "понг");
    assert_eq!(single(&ns, &["dummy", "FOO"]), "базз");
    assert_eq!(array(&ns, &["dummy", "SOME"]), ["ничего", "или", "0"]);
    assert_eq!(single(&ns, &["rust", "RUST"]), "раст");
    assert!(single(&ns, &["rust", "IS"]).is_empty());
    assert_eq!(array(&ns, &["rust", "good", "TRUE"]), ["1", "true"]);
}

#[test]
fn check_arr() {
    let ns = tree(EN_US, "en_US");
    assert_eq!(single(&ns, &["PING"]), "pong");
    assert_eq!(single(&ns, &["FOO"]), "buzz");
    assert_eq!(array(&ns, &["dummy", "SOME"]), ["none", "or", "0"]);
    assert_eq!(single(&ns, &["rust", "RUST"]), "rust");
    assert!(single(&ns, &["rust", "IS"]).is_empty());
    assert_eq!(array(&ns, &["rust", "good", "TRUE"]), ["1", "true"]);
}

#[test]
fn check_null() {
    let ns = tree("null", "en_UK");
    assert!(single(&ns, &["EN_UK"]).is_empty());
}

#[test]
fn check_big_num() {
    let ns = tree("1e37", "ru_BY");
    assert_eq!(single(&ns, &["RU_BY"]), "1e37");
}

#[test]
fn check_small_num() {
    let ns = tree("228.01", "de_DE");
    assert_eq!(single(&ns, &["DE_DE"]), "228.01");
}

#[test]
fn check_bool() {
    let ns = tree("false", "fr_FR");
    assert_eq!(single(&ns, &["FR_FR"]), "false");
}

#[test]
fn scenario_single_constant() {
    let text = generate(&doc(r#"{"ping":"pong"}"#), "en_US").unwrap();
    assert_eq!(text, "pub mod lang {\n    pub const PING: &str = \"pong\";\n}\n");
}

#[test]
fn scenario_nested_namespace() {
    let text = generate(&doc(r#"{"dummy":{"foo":"buzz","some":["none","or",0]}}"#), "en_US").unwrap();
    assert_eq!(
        text,
        "pub mod lang {\n    pub mod dummy {\n        pub const FOO: &str = \"buzz\";\n        \
         pub const SOME: [&str; 3] = [\"none\", \"or\", \"0\"];\n    }\n}\n"
    );
}

#[test]
fn scenario_null_is_empty() {
    let text = generate(&doc(r#"{"is":null}"#), "en_US").unwrap();
    assert_eq!(text, "pub mod lang {\n    pub const IS: &str = \"\";\n}\n");
}

#[test]
fn scenario_bare_root_value() {
    let text = generate(&doc("228.01"), "de_DE").unwrap();
    assert_eq!(text, "pub mod lang {\n    pub const DE_DE: &str = \"228.01\";\n}\n");
}

#[test]
fn scenario_root_array_merges() {
    let text = generate(&doc(r#"[{"ping":"pong"},{"foo":"buzz"}]"#), "en_US").unwrap();
    assert_eq!(
        text,
        "pub mod lang {\n    pub const PING: &str = \"pong\";\n    pub const FOO: &str = \"buzz\";\n}\n"
    );
}

#[test]
fn scenario_array_of_objects_fails() {
    match generate(&doc(r#"{"bad":[{"x":1}]}"#), "en_US") {
        Err(GenerateError::ArrayContainsObject { key, index }) => {
            assert_eq!(key, "bad");
            assert_eq!(index, 0);
        },
        _ => panic!("expected ArrayContainsObject"),
    }
}

#[test]
fn scenario_missing_language() {
    let names = vec!["en_US.json".to_string(), "ru_RU.json".to_string()];
    match find_language_file("./lang", &names, "xx_XX") {
        Err(GenerateError::FileNotFoundForLanguage { dir, lang }) => {
            assert_eq!(dir, "./lang");
            assert_eq!(lang, "xx_XX");
        },
        _ => panic!("expected FileNotFoundForLanguage"),
    }
}

#[test]
fn structure_follows_document() {
    let ns = tree(r#"{"a":"1","b":{"c":true,"d":{}},"e":[1,2]}"#, "x");
    assert_eq!(ns.namespace, None);
    assert_eq!(ns.tokens.len(), 3);
    match &ns.tokens[0] {
        TokenJson::Token(t) => assert_eq!(t.name, "A"),
        _ => panic!("constant expected"),
    }
    match &ns.tokens[1] {
        TokenJson::Namespace(n) => {
            assert_eq!(n.namespace.as_deref(), Some("b"));
            assert_eq!(n.tokens.len(), 2);
            match &n.tokens[1] {
                TokenJson::Namespace(d) => assert!(d.tokens.is_empty()),
                _ => panic!("namespace expected"),
            }
        },
        _ => panic!("namespace expected"),
    }
    match &ns.tokens[2] {
        TokenJson::Token(t) => assert_eq!(t.name, "E"),
        _ => panic!("constant expected"),
    }
}

#[test]
fn generation_is_repeatable() {
    let d = doc(RU_RU);
    let first = generate(&d, "ru_RU").unwrap();
    let second = generate(&d, "ru_RU").unwrap();
    assert_eq!(first, second);
    assert_eq!(render(&tree(RU_RU, "ru_RU")), first);
}

#[test]
fn root_array_with_scalar_fails() {
    match generate(&doc(r#"[{"a":1},2]"#), "x") {
        Err(GenerateError::ArrayRootContainsNonObject { index }) => assert_eq!(index, 1),
        _ => panic!("expected ArrayRootContainsNonObject"),
    }
}

#[test]
fn invalid_key_is_rejected() {
    match generate(&doc(r#"{"a b":1}"#), "x") {
        Err(GenerateError::InvalidIdentifier { name }) => assert_eq!(name, "a b"),
        _ => panic!("expected InvalidIdentifier"),
    }
    match generate(&doc(r#"{"type":{}}"#), "x") {
        Err(GenerateError::InvalidIdentifier { name }) => assert_eq!(name, "type"),
        _ => panic!("expected InvalidIdentifier"),
    }
}

#[test]
fn duplicate_identifier_is_rejected() {
    match generate(&doc(r#"{"a":1,"A":2}"#), "x") {
        Err(GenerateError::DuplicateIdentifier { name }) => assert_eq!(name, "A"),
        _ => panic!("expected DuplicateIdentifier"),
    }
    match generate(&doc(r#"[{"m":{}},{"m":{}}]"#), "x") {
        Err(GenerateError::DuplicateIdentifier { name }) => assert_eq!(name, "m"),
        _ => panic!("expected DuplicateIdentifier"),
    }
}

#[test]
fn constant_and_namespace_may_share_a_name() {
    let text = generate(&doc(r#"{"m":{},"M":1}"#), "x").unwrap();
    assert_eq!(text, "pub mod lang {\n    pub mod m {\n    }\n    pub const M: &str = \"1\";\n}\n");
}

#[test]
fn identifiers_are_normalized() {
    assert_eq!(normalize_constant("some_key").ok().unwrap(), "SOME_KEY");
    assert_eq!(normalize_namespace("someKey").ok().unwrap(), "someKey");
    assert!(!check_identifier("r#type"));
    assert!(!check_identifier("type"));
    assert!(!check_identifier("Self"));
    assert!(!check_identifier("_"));
    assert!(check_identifier("_a"));
    assert!(check_identifier("ключ"));
    assert!(check_identifier("TRUE"));
    assert!(!check_identifier("1abc"));
    assert!(!check_identifier(""));
    assert!(!check_identifier("a // b"));
}

#[test]
fn literals_are_escaped() {
    let text = generate(&doc(r#"{"q":"say \"hi\"\n"}"#), "x").unwrap();
    assert_eq!(text, "pub mod lang {\n    pub const Q: &str = \"say \\\"hi\\\"\\n\";\n}\n");
}

#[test]
fn apostrophe_and_control_characters() {
    let text = generate(&doc(r#"{"q":"it's\u0001"}"#), "x").unwrap();
    assert_eq!(text, "pub mod lang {\n    pub const Q: &str = \"it\\'s\\u{1}\";\n}\n");
    let v = JsonValue::Str("a\u{1}\"\\".to_string());
    assert_eq!(json_text_of(&v), "\"a\\u0001\\\"\\\\\"");
}

#[test]
fn nested_array_element_is_json_text() {
    let v = doc(r#"[["a",1],null,false]"#);
    match classify_and_render("k", &v) {
        Ok(TokenVariant::Array(a)) => assert_eq!(a, ["[\"a\",1]", "", "false"]),
        _ => panic!("array expected"),
    }
    assert_eq!(json_text_of(&doc(r#"{"k":[true,"x"]}"#)), "{\"k\":[true,\"x\"]}");
}

#[test]
fn empty_array_constant() {
    let text = generate(&doc(r#"{"e":[]}"#), "x").unwrap();
    assert_eq!(text, "pub mod lang {\n    pub const E: [&str; 0] = [];\n}\n");
}

#[test]
fn empty_object_document() {
    assert_eq!(generate(&doc("{}"), "x").unwrap(), "pub mod lang {\n}\n");
}

#[test]
fn file_names_are_split() {
    assert_eq!(base_name("en_US.json"), "en_US");
    assert_eq!(base_name("a.tar.gz"), "a");
    assert_eq!(base_name(".hidden"), ".hidden");
    assert_eq!(extension("a.tar.json"), Some("json".to_string()));
    assert_eq!(extension("noext"), None);
    assert_eq!(extension(".hidden"), None);
}

#[test]
fn language_file_is_found() {
    let names = vec!["de_DE.json".to_string(), "en_US.json".to_string()];
    assert_eq!(find_language_file("d", &names, "en_US").ok(), Some(1));
    assert_eq!(find_language_file("d", &names, "en").ok(), None);
}

#[test]
fn source_kind_is_checked() {
    assert!(check_source_kind("en_US.json").is_ok());
    match check_source_kind("en_US") {
        Err(GenerateError::MissingExtension { file }) => assert_eq!(file, "en_US"),
        _ => panic!("expected MissingExtension"),
    }
    match check_source_kind("en_US.toml") {
        Err(GenerateError::UnsupportedExtension { file, extension }) => {
            assert_eq!(file, "en_US.toml");
            assert_eq!(extension, "toml");
        },
        _ => panic!("expected UnsupportedExtension"),
    }
}

#[test]
fn decimal_digits() {
    assert_eq!(decimal_text(0), "0");
    assert_eq!(decimal_text(7), "7");
    assert_eq!(decimal_text(1205), "1205");
    assert_eq!(decimal_text(usize::MAX), usize::MAX.to_string());
}

#[test]
fn diagnostics_name_the_file() {
    let e = GenerateError::ArrayContainsObject { key: "bad".to_string(), index: 12 };
    assert_eq!(e.diagnostic("en_US.json"), "[anylang:ERROR] en_US.json: array bad holds an object at index 12");
    let e = GenerateError::FileNotFoundForLanguage { dir: "./lang".to_string(), lang: "xx_XX".to_string() };
    assert_eq!(e.message(), "no file for language xx_XX in directory ./lang");
}

#[test]
fn constructors() {
    match TokenVariant::from_str("x") {
        TokenVariant::Single(s) => assert_eq!(s, "x"),
        _ => panic!(),
    }
    match TokenVariant::from_iter(vec!["a".to_string()]) {
        TokenVariant::Array(a) => assert_eq!(a, ["a"]),
        _ => panic!(),
    }
    let ns = JsonNamespace::new("m".to_string());
    assert_eq!(ns.namespace.as_deref(), Some("m"));
    assert!(ns.tokens.is_empty());
}
