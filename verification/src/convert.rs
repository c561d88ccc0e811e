use vstd::prelude::*;
use vstd::string::StrSliceExecFns;
use crate::config::{
    jarr_forced, jarr_type, resolve_override, Config, ConfigV, JsonType, NullValue,
};
use crate::node::{NodeV, XmlNode};
use crate::scalar::{parse_text, scalar_of};
use crate::strings::{concat2, concat3, trim_str, trimmed};
use crate::value::{assoc_set, jarr_elems, jval_of, key_idx, lemma_key_idx, JVal, JsonMap, JsonValue};

verus! {

/// The object entries contributed by an element's attributes, in document
/// order: each attribute becomes one entry keyed by the configured prefix
/// followed by the attribute name, holding the scalar inferred from its
/// value under the type rule resolved for the attribute's own path.
pub open spec fn spec_attr_entries(
    attrs: Seq<(Seq<char>, Seq<char>)>,
    c: ConfigV,
    node_path: Seq<char>,
) -> Seq<(Seq<char>, JVal)>
    decreases attrs.len(),
{
    if attrs.len() == 0 {
        Seq::empty()
    } else {
        let prev = spec_attr_entries(attrs.drop_last(), c, node_path);
        let a = attrs.last();
        let arule = jarr_type(resolve_override(c, node_path + "/@"@ + a.0));
        assoc_set(
            prev,
            c.xml_attr_prefix + a.0,
            scalar_of(trimmed(a.1), c.leading_zero_as_string, arule),
        )
    }
}

/// Adds one converted child value under its tag name: the value is wrapped
/// in (or appended to) an array when the child's path forces arrays or when
/// the key is already present; otherwise it is stored as-is.
pub open spec fn spec_add_child(
    entries: Seq<(Seq<char>, JVal)>,
    name: Seq<char>,
    forced: bool,
    v: JVal,
) -> Seq<(Seq<char>, JVal)> {
    let i = key_idx(entries, name);
    if forced || i < entries.len() {
        if i < entries.len() {
            match entries[i].1 {
                JVal::Arr(vs) => entries.update(i, (name, JVal::Arr(vs.push(v)))),
                prev => entries.update(i, (name, JVal::Arr(seq![prev, v]))),
            }
        } else {
            entries.push((name, JVal::Arr(seq![v])))
        }
    } else {
        entries.push((name, v))
    }
}

/// The object entries after converting the children in document order on
/// top of `base`: children yielding no value and children with an empty tag
/// name are skipped.
pub open spec fn spec_child_entries(
    children: Seq<NodeV>,
    c: ConfigV,
    node_path: Seq<char>,
    base: Seq<(Seq<char>, JVal)>,
) -> Seq<(Seq<char>, JVal)>
    decreases children, 1int,
{
    if children.len() == 0 {
        base
    } else {
        let prev = spec_child_entries(children.drop_last(), c, node_path, base);
        let ch = children.last();
        if ch.tag.len() == 0 {
            prev
        } else {
            match spec_convert_node(ch, c, node_path) {
                Some(v) => {
                    let forced = jarr_forced(resolve_override(c, node_path + "/"@ + ch.tag));
                    spec_add_child(prev, ch.tag, forced, v)
                },
                None => prev,
            }
        }
    }
}

/// The conversion of an element with non-blank trimmed text `t`: with
/// attributes, an object holding the attribute entries followed by the text
/// under the configured text property name; without attributes, the bare
/// scalar.
pub open spec fn spec_convert_text(
    attrs: Seq<(Seq<char>, Seq<char>)>,
    c: ConfigV,
    node_path: Seq<char>,
    t: Seq<char>,
    rule: crate::config::JTypeV,
) -> JVal {
    if attrs.len() > 0 {
        JVal::Obj(
            assoc_set(
                spec_attr_entries(attrs, c, node_path),
                c.xml_text_node_prop_name,
                scalar_of(t, c.leading_zero_as_string, rule),
            ),
        )
    } else {
        scalar_of(t, c.leading_zero_as_string, rule)
    }
}

/// The conversion of an element without text: attribute entries, then child
/// entries; an empty result is kept, turned into null, or dropped according
/// to the empty-element handling.
pub open spec fn spec_convert_no_text(n: NodeV, c: ConfigV, node_path: Seq<char>) -> Option<JVal>
    decreases n, 0int,
{
    let entries = spec_child_entries(
        n.children,
        c,
        node_path,
        spec_attr_entries(n.attrs, c, node_path),
    );
    if entries.len() > 0 {
        Some(JVal::Obj(entries))
    } else {
        match c.empty_element_handling {
            NullValue::Null => Some(JVal::Null),
            NullValue::EmptyObject => Some(JVal::Obj(entries)),
            NullValue::Ignore => None,
        }
    }
}

/// The conversion of one element at `path`: its own path is `path` extended
/// by `/` and its tag name; an element with non-blank text converts through
/// `spec_convert_text`, any other through `spec_convert_no_text`.
pub open spec fn spec_convert_node(n: NodeV, c: ConfigV, path: Seq<char>) -> Option<JVal>
    decreases n, 1int,
{
    let node_path = path + "/"@ + n.tag;
    let rule = jarr_type(resolve_override(c, node_path));
    match n.text {
        Some(t) => if trimmed(t).len() > 0 {
            Some(spec_convert_text(n.attrs, c, node_path, trimmed(t), rule))
        } else {
            spec_convert_no_text(n, c, node_path)
        },
        None => spec_convert_no_text(n, c, node_path),
    }
}

/// The whole conversion: a one-entry object keyed by the root's tag name;
/// a root that converts to nothing degrades to null.
pub open spec fn spec_xml_to_map(n: NodeV, c: ConfigV) -> JVal {
    JVal::Obj(
        seq![
            (
                n.tag,
                match spec_convert_node(n, c, Seq::empty()) {
                    Some(v) => v,
                    None => JVal::Null,
                },
            ),
        ],
    )
}

/// Builds the object entries for an element's attributes, in document order.
fn convert_attrs(el: &XmlNode, config: &Config, node_path: &str) -> (map: JsonMap)
    ensures
        map@ =~= spec_attr_entries(el.deep_view().attrs, config.deep_view(), node_path@),
{
    let mut map = JsonMap::new();
    let n = el.attrs.len();
    let mut i: usize = 0;
    while i < n
        invariant
            0 <= i <= n,
            n == el.attrs@.len(),
            map@ =~= spec_attr_entries(
                el.deep_view().attrs.take(i as int),
                config.deep_view(),
                node_path@,
            ),
        decreases n - i,
    {
        let apath = concat3(node_path, "/@", el.attrs[i].0.as_str());
        let (_, arule) = crate::config::get_json_type(config, apath.as_str());
        let key = concat2(config.xml_attr_prefix.as_str(), el.attrs[i].0.as_str());
        let v = parse_text(el.attrs[i].1.as_str(), config.leading_zero_as_string, arule);
        map.set(key, v);
        proof {
            let attrs_v = el.deep_view().attrs;
            assert(attrs_v.take(i + 1).drop_last() =~= attrs_v.take(i as int));
            assert(attrs_v.take(i + 1).last() == attrs_v[i as int]);
        }
        i = i + 1;
    }
    proof {
        assert(el.deep_view().attrs.take(n as int) =~= el.deep_view().attrs);
    }
    map
}

/// Stores one converted child value under its tag name, promoting to an
/// array when the path forces it or when the key is already present.
fn add_child_value(map: &mut JsonMap, name: &String, forced: bool, v: JsonValue)
    ensures
        final(map)@ =~= spec_add_child(old(map)@, name@, forced, jval_of(v)),
{
    let i = map.index_of(name.as_str());
    proof {
        lemma_key_idx(map@, name@);
    }
    let len = map.len();
    if forced || i < len {
        if i < len {
            let (k, prev) = map.remove_at(i);
            match prev {
                JsonValue::Array(mut arr) => {
                    let ghost arr0 = arr@;
                    arr.push(v);
                    proof {
                        assert(jarr_elems(arr@) =~= jarr_elems(arr0).push(jval_of(v)));
                    }
                    map.insert_at(i, k, JsonValue::Array(arr));
                },
                other => {
                    let ghost prev_v = jval_of(other);
                    let mut arr: Vec<JsonValue> = Vec::new();
                    arr.push(other);
                    arr.push(v);
                    proof {
                        assert(jarr_elems(arr@) =~= seq![prev_v, jval_of(v)]);
                        assert(!(prev_v is Arr));
                    }
                    map.insert_at(i, k, JsonValue::Array(arr));
                },
            }
        } else {
            let mut arr: Vec<JsonValue> = Vec::new();
            arr.push(v);
            proof {
                assert(jarr_elems(arr@) =~= seq![jval_of(v)]);
            }
            map.push_entry(name.clone(), JsonValue::Array(arr));
        }
    } else {
        map.push_entry(name.clone(), v);
    }
}

/// Converts an element that carries non-blank text.
fn convert_text(el: &XmlNode, config: &Config, node_path: &str, text: &str, rule: &JsonType) -> (r:
    JsonValue)
    ensures
        r.deep_view() == spec_convert_text(
            el.deep_view().attrs,
            config.deep_view(),
            node_path@,
            trimmed(text@),
            rule.deep_view(),
        ),
{
    if el.attrs.len() > 0 {
        let mut map = convert_attrs(el, config, node_path);
        map.set(
            config.xml_text_node_prop_name.clone(),
            parse_text(text, config.leading_zero_as_string, rule),
        );
        JsonValue::Object(map)
    } else {
        parse_text(text, config.leading_zero_as_string, rule)
    }
}

/// Converts an element without text: attributes first, then the children in
/// document order, then the empty-element rule.
fn convert_no_text(el: &XmlNode, config: &Config, node_path: &str) -> (r: Option<JsonValue>)
    ensures
        r.deep_view() == spec_convert_no_text(el.deep_view(), config.deep_view(), node_path@),
    decreases el, 0int,
{
    let mut map = convert_attrs(el, config, node_path);
    let n = el.children.len();
    let mut i: usize = 0;
    while i < n
        invariant
            0 <= i <= n,
            n == el.children@.len(),
            map@ =~= spec_child_entries(
                el.deep_view().children.take(i as int),
                config.deep_view(),
                node_path@,
                spec_attr_entries(el.deep_view().attrs, config.deep_view(), node_path@),
            ),
        decreases n - i,
    {
        let child = &el.children[i];
        let val = convert_node(child, config, node_path);
        match val {
            Some(v) => {
                if child.tag.unicode_len() == 0 {
                    // a child with an empty tag name is skipped defensively
                } else {
                    let child_path = concat3(node_path, "/", child.tag.as_str());
                    let (forced, _) = crate::config::get_json_type(config, child_path.as_str());
                    add_child_value(&mut map, &child.tag, forced, v);
                }
            },
            None => {},
        }
        proof {
            let ch_v = el.deep_view().children;
            assert(ch_v.take(i + 1).drop_last() =~= ch_v.take(i as int));
            assert(ch_v.take(i + 1).last() == ch_v[i as int]);
        }
        i = i + 1;
    }
    proof {
        assert(el.deep_view().children.take(n as int) =~= el.deep_view().children);
    }
    if map.len() > 0 {
        return Some(JsonValue::Object(map));
    }
    match config.empty_element_handling {
        NullValue::Null => Some(JsonValue::Null),
        NullValue::EmptyObject => Some(JsonValue::Object(map)),
        NullValue::Ignore => None,
    }
}

/// Converts an XML element into a JSON property value, `path` being the
/// concatenated tag names of its ancestors.
pub fn convert_node(el: &XmlNode, config: &Config, path: &str) -> (r: Option<JsonValue>)
    ensures
        r.deep_view() == spec_convert_node(el.deep_view(), config.deep_view(), path@),
    decreases el, 1int,
{
    let node_path = concat3(path, "/", el.tag.as_str());
    let (_, json_type_value) = crate::config::get_json_type(config, node_path.as_str());
    match &el.text {
        Some(text) => {
            let tt = trim_str(text.as_str());
            if tt.unicode_len() > 0 {
                Some(convert_text(el, config, node_path.as_str(), text.as_str(), json_type_value))
            } else {
                convert_no_text(el, config, node_path.as_str())
            }
        },
        None => convert_no_text(el, config, node_path.as_str()),
    }
}

/// Converts a document's root element into a one-entry object keyed by the
/// root's tag name; a root that converts to nothing degrades to null.
pub fn xml_to_map(root: &XmlNode, config: &Config) -> (r: JsonValue)
    ensures
        r.deep_view() == spec_xml_to_map(root.deep_view(), config.deep_view()),
{
    proof {
        reveal_strlit("");
        assert(""@ =~= Seq::<char>::empty());
    }
    let v = match convert_node(root, config, "") {
        Some(v) => v,
        None => JsonValue::Null,
    };
    let mut map = JsonMap::new();
    map.push_entry(root.tag.clone(), v);
    JsonValue::Object(map)
}

/// A node with non-blank text and no attributes converts to a bare scalar:
/// a string, boolean, integer or float, never null, an array, or an object.
pub proof fn lemma_text_leaf_scalar(n: NodeV, c: ConfigV, path: Seq<char>)
    requires
        n.attrs.len() == 0,
        n.text is Some,
        trimmed(n.text->0).len() > 0,
    ensures
        spec_convert_node(n, c, path) is Some,
        !(spec_convert_node(n, c, path)->0 is Obj),
        !(spec_convert_node(n, c, path)->0 is Arr),
        !(spec_convert_node(n, c, path)->0 is Null),
{
}

/// The conversion is a function of the node tree, the configuration and the
/// ancestor path alone: two conversions of the same input under the same
/// configuration agree.
pub proof fn lemma_convert_deterministic(
    r1: Option<JVal>,
    r2: Option<JVal>,
    n: NodeV,
    c: ConfigV,
    path: Seq<char>,
)
    requires
        r1 == spec_convert_node(n, c, path),
        r2 == spec_convert_node(n, c, path),
    ensures
        r1 == r2,
{
}

} // verus!
