use xml_to_json::{
    convert_node, parse_text, xml_to_map, Config, JsonArray, JsonMap, JsonType, JsonValue,
    NullValue, PathMatcher, XmlNode,
};

fn elem(tag: &str, attrs: Vec<(&str, &str)>, children: Vec<XmlNode>, text: Option<&str>) -> XmlNode {
    XmlNode {
        tag: tag.to_string(),
        attrs: attrs.into_iter().map(|(k, v)| (k.to_string(), v.to_string())).collect(),
        children,
        text: text.map(|t| t.to_string()),
    }
}

fn obj(entries: Vec<(&str, JsonValue)>) -> JsonValue {
    JsonValue::Object(JsonMap {
        entries: entries.into_iter().map(|(k, v)| (k.to_string(), v)).collect(),
    })
}

fn s(x: &str) -> JsonValue {
    JsonValue::Str(x.to_string())
}

#[test]
fn text_leaf_is_bare_scalar() {
    let conf = Config::new_with_defaults();
    let node = elem("b", vec![], vec![], Some("hello"));
    let got = convert_node(&node, &conf, "").unwrap();
    assert_eq!(got, s("hello"));
    let node = elem("b", vec![], vec![], Some("1"));
    let got = convert_node(&node, &conf, "").unwrap();
    assert_eq!(got, JsonValue::UInt(1));
}

#[test]
fn attributes_and_text_become_object() {
    let node = elem("c", vec![("attr2", "001")], vec![], Some("some text"));
    let conf = Config::new_with_defaults();
    let got = xml_to_map(&node, &conf);
    let want = obj(vec![(
        "c",
        obj(vec![("@attr2", JsonValue::UInt(1)), ("#text", s("some text"))]),
    )]);
    assert_eq!(got, want);

    let conf = Config::new_with_custom_values(true, "", "txt", NullValue::Null);
    let got = xml_to_map(&node, &conf);
    let want = obj(vec![("c", obj(vec![("attr2", s("001")), ("txt", s("some text"))]))]);
    assert_eq!(got, want);
}

#[test]
fn repeated_siblings_promote_to_array() {
    let conf = Config::new_with_defaults();
    let one = elem("a", vec![], vec![elem("b", vec![], vec![], Some("1"))], None);
    let got = xml_to_map(&one, &conf);
    assert_eq!(got, obj(vec![("a", obj(vec![("b", JsonValue::UInt(1))]))]));

    let three = elem(
        "a",
        vec![],
        vec![
            elem("b", vec![], vec![], Some("1")),
            elem("b", vec![], vec![], Some("2")),
            elem("b", vec![], vec![], Some("3")),
        ],
        None,
    );
    let got = xml_to_map(&three, &conf);
    let want = obj(vec![(
        "a",
        obj(vec![(
            "b",
            JsonValue::Array(vec![JsonValue::UInt(1), JsonValue::UInt(2), JsonValue::UInt(3)]),
        )]),
    )]);
    assert_eq!(got, want);
}

#[test]
fn forced_array_override() {
    let conf = Config::new_with_defaults()
        .add_json_type_override(PathMatcher::absolute("/a/b"), JsonArray::Always(JsonType::Infer));
    let one = elem("a", vec![], vec![elem("b", vec![], vec![], Some("1"))], None);
    let got = xml_to_map(&one, &conf);
    let want = obj(vec![("a", obj(vec![("b", JsonValue::Array(vec![JsonValue::UInt(1)]))]))]);
    assert_eq!(got, want);
}

#[test]
fn forced_array_override_without_leading_slash() {
    let conf = Config::new_with_defaults()
        .add_json_type_override(PathMatcher::absolute("a/b"), JsonArray::Always(JsonType::Infer));
    let one = elem("a", vec![], vec![elem("b", vec![], vec![], Some("1"))], None);
    let got = xml_to_map(&one, &conf);
    let want = obj(vec![("a", obj(vec![("b", JsonValue::Array(vec![JsonValue::UInt(1)]))]))]);
    assert_eq!(got, want);
}

#[test]
fn always_string_attribute_override() {
    let conf = Config::new_with_defaults().add_json_type_override(
        PathMatcher::absolute("/a/b/@attr2"),
        JsonArray::Infer(JsonType::AlwaysString),
    );
    let node = elem(
        "a",
        vec![],
        vec![elem("b", vec![("attr2", "001")], vec![], Some("x"))],
        None,
    );
    let got = xml_to_map(&node, &conf);
    let want = obj(vec![(
        "a",
        obj(vec![("b", obj(vec![("@attr2", s("001")), ("#text", s("x"))]))]),
    )]);
    assert_eq!(got, want);
}

#[test]
fn empty_element_handling_modes() {
    let node = elem("a", vec![], vec![elem("x", vec![], vec![], None)], None);

    let conf = Config::new_with_custom_values(false, "@", "#text", NullValue::Ignore);
    assert_eq!(xml_to_map(&node, &conf), obj(vec![("a", JsonValue::Null)]));

    let conf = Config::new_with_custom_values(false, "@", "#text", NullValue::Null);
    assert_eq!(
        xml_to_map(&node, &conf),
        obj(vec![("a", obj(vec![("x", JsonValue::Null)]))])
    );

    let conf = Config::new_with_custom_values(false, "@", "#text", NullValue::EmptyObject);
    assert_eq!(
        xml_to_map(&node, &conf),
        obj(vec![("a", obj(vec![("x", obj(vec![]))]))])
    );
}

#[test]
fn numeric_literal_leading_zeros() {
    assert_eq!(parse_text("0", false, &JsonType::Infer), JsonValue::UInt(0));
    assert_eq!(parse_text("0", true, &JsonType::Infer), JsonValue::UInt(0));
    assert_eq!(parse_text("0000", false, &JsonType::Infer), JsonValue::UInt(0));
    assert_eq!(parse_text("0000", true, &JsonType::Infer), s("0000"));
    assert_eq!(parse_text("007", false, &JsonType::Infer), JsonValue::UInt(7));
    assert_eq!(parse_text("007", true, &JsonType::Infer), s("007"));
}

#[test]
fn conversion_is_deterministic() {
    let node = elem(
        "a",
        vec![("id", "01")],
        vec![
            elem("b", vec![], vec![], Some("1")),
            elem("b", vec![], vec![], Some("2.5")),
            elem("c", vec![], vec![], None),
        ],
        None,
    );
    let conf = Config::new_with_defaults()
        .add_json_type_override(PathMatcher::absolute("/a/b"), JsonArray::Always(JsonType::Infer));
    let first = xml_to_map(&node, &conf);
    let second = xml_to_map(&node, &conf);
    assert_eq!(first, second);
}

#[test]
fn float_inference() {
    assert_eq!(parse_text("1.5", false, &JsonType::Infer), JsonValue::Float("1.5".to_string()));
    assert_eq!(parse_text("0.5", false, &JsonType::Infer), JsonValue::Float("0.5".to_string()));
    assert_eq!(parse_text("05.5", false, &JsonType::Infer), s("05.5"));
    assert_eq!(parse_text("1e999", false, &JsonType::Infer), s("1e999"));
    assert_eq!(parse_text("abc", false, &JsonType::Infer), s("abc"));
    assert_eq!(parse_text(" 42 ", false, &JsonType::Infer), JsonValue::UInt(42));
    assert_eq!(
        parse_text("18446744073709551616", false, &JsonType::Infer),
        JsonValue::Float("18446744073709551616".to_string())
    );
}

#[test]
fn bool_inference_and_rule() {
    assert_eq!(parse_text("true", false, &JsonType::Infer), JsonValue::Bool(true));
    assert_eq!(parse_text("false", false, &JsonType::Infer), JsonValue::Bool(false));
    assert_eq!(parse_text("True", false, &JsonType::Infer), s("True"));

    let rule = JsonType::Bool(vec!["True", "true"]);
    assert_eq!(parse_text("True", false, &rule), JsonValue::Bool(true));
    assert_eq!(parse_text("no", false, &rule), JsonValue::Bool(false));
    assert_eq!(parse_text("1", false, &rule), JsonValue::Bool(false));
}

#[test]
fn always_string_rule_is_unconditional() {
    assert_eq!(parse_text("1234", false, &JsonType::AlwaysString), s("1234"));
    assert_eq!(parse_text("true", false, &JsonType::AlwaysString), s("true"));
}

#[test]
fn unsigned_integer_forms() {
    assert_eq!(parse_text("+7", false, &JsonType::Infer), JsonValue::UInt(7));
    assert_eq!(
        parse_text("18446744073709551615", false, &JsonType::Infer),
        JsonValue::UInt(u64::MAX)
    );
    assert_eq!(parse_text("-3", false, &JsonType::Infer), JsonValue::Float("-3".to_string()));
}

#[test]
fn regex_override_applies() {
    let conf = Config::new_with_defaults().add_json_type_override(
        PathMatcher::regex("b$").unwrap(),
        JsonArray::Always(JsonType::Infer),
    );
    let one = elem("a", vec![], vec![elem("b", vec![], vec![], Some("1"))], None);
    let got = xml_to_map(&one, &conf);
    let want = obj(vec![("a", obj(vec![("b", JsonValue::Array(vec![JsonValue::UInt(1)]))]))]);
    assert_eq!(got, want);

    let conf = Config::new_with_defaults().add_json_type_override(
        PathMatcher::regex("zzz$").unwrap(),
        JsonArray::Always(JsonType::Infer),
    );
    let got = xml_to_map(&one, &conf);
    assert_eq!(got, obj(vec![("a", obj(vec![("b", JsonValue::UInt(1))]))]));
}

#[test]
fn invalid_regex_pattern_is_rejected() {
    assert!(PathMatcher::regex("(").is_none());
    assert!(PathMatcher::regex("b$").is_some());
}

#[test]
fn regex_override_beats_exact_path() {
    let conf = Config::new_with_defaults()
        .add_json_type_override(
            PathMatcher::absolute("/a/b"),
            JsonArray::Infer(JsonType::AlwaysString),
        )
        .add_json_type_override(
            PathMatcher::regex("b$").unwrap(),
            JsonArray::Infer(JsonType::Infer),
        );
    let one = elem("a", vec![], vec![elem("b", vec![], vec![], Some("1"))], None);
    let got = xml_to_map(&one, &conf);
    assert_eq!(got, obj(vec![("a", obj(vec![("b", JsonValue::UInt(1))]))]));
}

#[test]
fn exact_override_replaces_earlier_rule_for_same_path() {
    let conf = Config::new_with_defaults()
        .add_json_type_override(
            PathMatcher::absolute("/a/b"),
            JsonArray::Infer(JsonType::AlwaysString),
        )
        .add_json_type_override(PathMatcher::absolute("/a/b"), JsonArray::Infer(JsonType::Infer));
    let one = elem("a", vec![], vec![elem("b", vec![], vec![], Some("1"))], None);
    let got = xml_to_map(&one, &conf);
    assert_eq!(got, obj(vec![("a", obj(vec![("b", JsonValue::UInt(1))]))]));
}

#[test]
fn attribute_key_collision_promotes_child() {
    let conf = Config::new_with_custom_values(false, "", "#text", NullValue::EmptyObject);
    let node = elem(
        "a",
        vec![("b", "1")],
        vec![elem("b", vec![], vec![], Some("2"))],
        None,
    );
    let got = xml_to_map(&node, &conf);
    let want = obj(vec![(
        "a",
        obj(vec![("b", JsonValue::Array(vec![JsonValue::UInt(1), JsonValue::UInt(2)]))]),
    )]);
    assert_eq!(got, want);
}

#[test]
fn empty_tag_child_is_skipped() {
    let conf = Config::new_with_defaults();
    let node = elem("a", vec![], vec![elem("", vec![], vec![], Some("x"))], None);
    let got = xml_to_map(&node, &conf);
    assert_eq!(got, obj(vec![("a", obj(vec![]))]));
}

#[test]
fn blank_text_counts_as_no_text() {
    let conf = Config::new_with_defaults();
    let node = elem("a", vec![], vec![], Some("   "));
    let got = xml_to_map(&node, &conf);
    assert_eq!(got, obj(vec![("a", obj(vec![]))]));
}

#[test]
fn attribute_values_are_trimmed() {
    let conf = Config::new_with_defaults();
    let node = elem("a", vec![("n", " 5 ")], vec![], None);
    let got = xml_to_map(&node, &conf);
    assert_eq!(got, obj(vec![("a", obj(vec![("@n", JsonValue::UInt(5))]))]));
}

#[test]
fn nested_document_with_defaults() {
    let conf = Config::new_with_defaults();
    let node = elem(
        "a",
        vec![("attr1", "1")],
        vec![elem(
            "b",
            vec![],
            vec![elem("c", vec![("attr2", "001")], vec![], Some("some text"))],
            None,
        )],
        None,
    );
    let got = xml_to_map(&node, &conf);
    let want = obj(vec![(
        "a",
        obj(vec![
            ("@attr1", JsonValue::UInt(1)),
            (
                "b",
                obj(vec![(
                    "c",
                    obj(vec![("@attr2", JsonValue::UInt(1)), ("#text", s("some text"))]),
                )]),
            ),
        ]),
    )]);
    assert_eq!(got, want);
}

#[test]
fn default_config_values() {
    let c = Config::new_with_defaults();
    assert_eq!(c.leading_zero_as_string, false);
    assert_eq!(c.xml_attr_prefix, "@".to_string());
    assert_eq!(c.xml_text_node_prop_name, "#text".to_string());
    assert!(matches!(c.empty_element_handling, NullValue::EmptyObject));
    let d = Config::default();
    assert_eq!(d.xml_attr_prefix, "@".to_string());
    assert!(d.json_type_overrides.is_empty());
    assert!(d.json_regex_type_overrides.is_empty());
}

#[test]
fn map_accessors() {
    let conf = Config::new_with_defaults();
    let node = elem(
        "a",
        vec![("x", "1")],
        vec![elem("b", vec![], vec![], Some("two"))],
        None,
    );
    let got = xml_to_map(&node, &conf);
    match got {
        JsonValue::Object(m) => {
            assert_eq!(m.len(), 1);
            assert!(m.contains_key("a"));
            assert!(m.get("zzz").is_none());
            match m.get("a") {
                Some(JsonValue::Object(inner)) => {
                    assert_eq!(inner.len(), 2);
                    assert!(!inner.is_empty());
                    let (k0, v0) = inner.entry_at(0);
                    assert_eq!(k0.as_str(), "@x");
                    assert_eq!(v0, &JsonValue::UInt(1));
                    let (k1, v1) = inner.entry_at(1);
                    assert_eq!(k1.as_str(), "b");
                    assert_eq!(v1, &JsonValue::Str("two".to_string()));
                }
                _ => panic!("expected an object under the root key"),
            }
        }
        _ => panic!("expected a root object"),
    }
}
