use vstd::prelude::*;
use crate::strings::str_eq;
use crate::value::{assoc_set, key_idx, lemma_key_idx, lemma_key_idx_from_scan};

verus! {

/// How empty elements such as `<x />` are handled: excluded from the output,
/// kept as a JSON null, or kept as an empty object.
#[derive(Debug)]
pub enum NullValue {
    Ignore,
    Null,
    EmptyObject,
}

/// Which JSON data type to enforce for a node's value.
#[derive(Debug, PartialEq, Clone)]
pub enum JsonType {
    /// Do not infer the type: convert the value to a JSON string.
    AlwaysString,
    /// Convert values included in this member into JSON bool `true`, and any
    /// other value into `false`.
    Bool(Vec<&'static str>),
    /// Infer the type from the single value of the node being converted.
    Infer,
}

/// Whether the values of a node are collected into a JSON array: always, or
/// only when there are multiple sibling elements with the same name.
#[derive(Debug)]
pub enum JsonArray {
    /// Convert the nodes into a JSON array even if there is only one element.
    Always(JsonType),
    /// Convert the nodes into a JSON array only if there are multiple
    /// identical sibling elements.
    Infer(JsonType),
}

/// Model of a `JsonType`: the literal set of the `Bool` rule is a sequence
/// of character sequences.
pub enum JTypeV {
    AlwaysString,
    Bool(Seq<Seq<char>>),
    Infer,
}

/// Model of a `JsonArray` override.
pub enum JArrV {
    Always(JTypeV),
    Infer(JTypeV),
}

impl DeepView for JsonType {
    type V = JTypeV;

    open spec fn deep_view(&self) -> JTypeV {
        match self {
            JsonType::AlwaysString => JTypeV::AlwaysString,
            JsonType::Bool(lits) => JTypeV::Bool(lits.deep_view()),
            JsonType::Infer => JTypeV::Infer,
        }
    }
}

impl DeepView for JsonArray {
    type V = JArrV;

    open spec fn deep_view(&self) -> JArrV {
        match self {
            JsonArray::Always(t) => JArrV::Always(t.deep_view()),
            JsonArray::Infer(t) => JArrV::Infer(t.deep_view()),
        }
    }
}

/// Whether an override forces array promotion.
pub open spec fn jarr_forced(a: JArrV) -> bool {
    a is Always
}

/// The type rule carried by an override.
pub open spec fn jarr_type(a: JArrV) -> JTypeV {
    match a {
        JArrV::Always(t) => t,
        JArrV::Infer(t) => t,
    }
}

#[verifier::external_type_specification]
#[verifier::external_body]
pub struct ExRegex(regex::Regex);

/// Whether the regular expression denoted by `pattern`, compiled with the
/// regex crate's default settings, matches somewhere in `text`. For a fixed
/// version of the regex crate the outcome is a function of the pattern and
/// the text alone.
pub uninterp spec fn regex_matches(pattern: Seq<char>, text: Seq<char>) -> bool;

/// Whether the regex crate accepts `pattern` as a valid regular expression
/// under its default settings: a function of the pattern alone.
pub uninterp spec fn pattern_compiles(pattern: Seq<char>) -> bool;

/// A compiled regular expression together with the pattern it was built
/// from. Values are only created by `RegexMatcher::new`, which compiles the
/// stored pattern itself with default settings, so the pattern determines
/// how the regex matches.
#[derive(Debug)]
pub struct RegexMatcher {
    pattern: String,
    re: regex::Regex,
}

impl DeepView for RegexMatcher {
    type V = Seq<char>;

    closed spec fn deep_view(&self) -> Seq<char> {
        self.pattern@
    }
}

impl RegexMatcher {
    /// Relies on `regex::Regex::new`: compiles the pattern with the regex
    /// crate's default settings, succeeding exactly for the patterns that
    /// the crate accepts, and stores the pattern beside the compiled regex.
    #[verifier::external_body]
    pub(crate) fn new(pattern: &str) -> (r: Option<RegexMatcher>)
        ensures
            r is Some <==> pattern_compiles(pattern@),
            r matches Some(m) ==> m.deep_view() == pattern@,
    {
        match regex::Regex::new(pattern) {
            Ok(re) => Some(RegexMatcher { pattern: pattern.to_owned(), re }),
            Err(_) => None,
        }
    }

    /// Relies on `regex::Regex::is_match`: the regex was compiled from the
    /// stored pattern with default settings, so whether a match exists is a
    /// function of the pattern and the text alone.
    #[verifier::external_body]
    pub(crate) fn is_match(&self, text: &str) -> (r: bool)
        ensures
            r == regex_matches(self.deep_view(), text@),
    {
        self.re.is_match(text)
    }
}

/// How an override path is matched: an exact absolute path, or a regular
/// expression checked against the path.
pub enum PathMatcher {
    /// An absolute path starting with a leading slash, e.g. `/a/b/c/@d`.
    Absolute(String),
    /// A regex checked against the XML path, e.g. `(\w/)*c$`.
    Regex(RegexMatcher),
}

/// The path itself when it already starts with `/`, otherwise the path with
/// `/` prepended.
pub open spec fn with_leading_slash(s: Seq<char>) -> Seq<char> {
    if s.len() > 0 && s[0] == '/' {
        s
    } else {
        seq!['/'] + s
    }
}

impl PathMatcher {
    /// An exact-path matcher; a missing leading slash is supplied.
    pub fn absolute(path: &str) -> (r: PathMatcher)
        ensures
            r matches PathMatcher::Absolute(p) && p@ == with_leading_slash(path@),
    {
        proof {
            reveal_strlit("/");
        }
        let starts_with_slash = !path.is_empty() && path.get_char(0) == '/';
        if starts_with_slash {
            PathMatcher::Absolute(path.to_owned())
        } else {
            let mut p = "/".to_owned();
            p.append(path);
            proof {
                assert(p@ =~= with_leading_slash(path@));
            }
            PathMatcher::Absolute(p)
        }
    }

    /// A regex matcher compiled from a pattern; fails exactly when the
    /// pattern is not a valid regular expression.
    pub fn regex(pattern: &str) -> (r: Option<PathMatcher>)
        ensures
            r is Some <==> pattern_compiles(pattern@),
            match r {
                Some(pm) => pm matches PathMatcher::Regex(m) && m.deep_view() == pattern@,
                None => true,
            },
    {
        match RegexMatcher::new(pattern) {
            Some(m) => Some(PathMatcher::Regex(m)),
            None => None,
        }
    }
}

/// Model of a `Config`: override tables are sequences of key/override pairs,
/// regex overrides keyed by their pattern.
pub struct ConfigV {
    pub leading_zero_as_string: bool,
    pub xml_attr_prefix: Seq<char>,
    pub xml_text_node_prop_name: Seq<char>,
    pub empty_element_handling: NullValue,
    pub json_type_overrides: Seq<(Seq<char>, JArrV)>,
    pub json_regex_type_overrides: Seq<(Seq<char>, JArrV)>,
}

/// Tells the converter how to perform certain conversions.
#[derive(Debug)]
pub struct Config {
    /// Numeric values starting with 0 are treated as strings.
    pub leading_zero_as_string: bool,
    /// XML attribute names are prefixed with this value in JSON keys.
    pub xml_attr_prefix: String,
    /// The JSON property name for XML text nodes.
    pub xml_text_node_prop_name: String,
    /// How empty elements such as `<x />` are handled.
    pub empty_element_handling: NullValue,
    /// Exact-path overrides: the first entry whose path equals the node's
    /// path applies.
    pub json_type_overrides: Vec<(String, JsonArray)>,
    /// Regex overrides, checked in order before the exact paths; the first
    /// match applies.
    pub json_regex_type_overrides: Vec<(RegexMatcher, JsonArray)>,
}

impl DeepView for Config {
    type V = ConfigV;

    open spec fn deep_view(&self) -> ConfigV {
        ConfigV {
            leading_zero_as_string: self.leading_zero_as_string,
            xml_attr_prefix: self.xml_attr_prefix@,
            xml_text_node_prop_name: self.xml_text_node_prop_name@,
            empty_element_handling: self.empty_element_handling,
            json_type_overrides: self.json_type_overrides.deep_view(),
            json_regex_type_overrides: self.json_regex_type_overrides.deep_view(),
        }
    }
}

impl Config {
    /// The default configuration: infer types, prefix attributes with `@`,
    /// name text nodes `#text`, keep empty elements as empty objects, no
    /// overrides.
    pub fn new_with_defaults() -> (c: Config)
        ensures
            c.leading_zero_as_string == false,
            c.xml_attr_prefix@ == "@"@,
            c.xml_text_node_prop_name@ == "#text"@,
            c.empty_element_handling is EmptyObject,
            c.json_type_overrides@.len() == 0,
            c.json_regex_type_overrides@.len() == 0,
    {
        Config {
            leading_zero_as_string: false,
            xml_attr_prefix: "@".to_owned(),
            xml_text_node_prop_name: "#text".to_owned(),
            empty_element_handling: NullValue::EmptyObject,
            json_type_overrides: Vec::new(),
            json_regex_type_overrides: Vec::new(),
        }
    }

    /// A configuration with non-default values and no overrides.
    pub fn new_with_custom_values(
        leading_zero_as_string: bool,
        xml_attr_prefix: &str,
        xml_text_node_prop_name: &str,
        empty_element_handling: NullValue,
    ) -> (c: Config)
        ensures
            c.leading_zero_as_string == leading_zero_as_string,
            c.xml_attr_prefix@ == xml_attr_prefix@,
            c.xml_text_node_prop_name@ == xml_text_node_prop_name@,
            c.empty_element_handling == empty_element_handling,
            c.json_type_overrides@.len() == 0,
            c.json_regex_type_overrides@.len() == 0,
    {
        Config {
            leading_zero_as_string,
            xml_attr_prefix: xml_attr_prefix.to_owned(),
            xml_text_node_prop_name: xml_text_node_prop_name.to_owned(),
            empty_element_handling,
            json_type_overrides: Vec::new(),
            json_regex_type_overrides: Vec::new(),
        }
    }

    /// Adds a single JSON type override rule. An exact path replaces an
    /// earlier rule for the same path; a regex rule is appended after the
    /// existing regex rules.
    pub fn add_json_type_override(self, path: PathMatcher, json_type: JsonArray) -> (c: Config)
        ensures
            c.leading_zero_as_string == self.leading_zero_as_string,
            c.xml_attr_prefix@ == self.xml_attr_prefix@,
            c.xml_text_node_prop_name@ == self.xml_text_node_prop_name@,
            c.empty_element_handling == self.empty_element_handling,
            match path {
                PathMatcher::Absolute(p) => c.deep_view().json_type_overrides =~= assoc_set(
                    self.deep_view().json_type_overrides,
                    p@,
                    json_type.deep_view(),
                ) && c.deep_view().json_regex_type_overrides
                    =~= self.deep_view().json_regex_type_overrides,
                PathMatcher::Regex(m) => c.deep_view().json_regex_type_overrides
                    =~= self.deep_view().json_regex_type_overrides.push(
                    (m.deep_view(), json_type.deep_view()),
                ) && c.deep_view().json_type_overrides =~= self.deep_view().json_type_overrides,
            },
    {
        let mut conf = self;
        match path {
            PathMatcher::Absolute(p) => {
                let n = conf.json_type_overrides.len();
                let found = override_index_of(&conf.json_type_overrides, p.as_str());
                proof {
                    lemma_key_idx(conf.json_type_overrides.deep_view(), p@);
                }
                if found < n {
                    let _ = conf.json_type_overrides.remove(found);
                    conf.json_type_overrides.insert(found, (p, json_type));
                } else {
                    conf.json_type_overrides.push((p, json_type));
                }
            },
            PathMatcher::Regex(m) => {
                conf.json_regex_type_overrides.push((m, json_type));
            },
        }
        conf
    }
}

impl Default for Config {
    /// Same as `new_with_defaults`.
    fn default() -> (c: Config)
        ensures
            c.leading_zero_as_string == false,
            c.xml_attr_prefix@ == "@"@,
            c.xml_text_node_prop_name@ == "#text"@,
            c.empty_element_handling is EmptyObject,
            c.json_type_overrides@.len() == 0,
            c.json_regex_type_overrides@.len() == 0,
    {
        Config::new_with_defaults()
    }
}

/// Index of the first override entry with the given path; the table's
/// length when the path is absent.
fn override_index_of(entries: &Vec<(String, JsonArray)>, key: &str) -> (r: usize)
    ensures
        r == key_idx(entries.deep_view(), key@),
{
    let n = entries.len();
    let mut i: usize = 0;
    while i < n
        invariant
            0 <= i <= n,
            n == entries@.len(),
            forall|j: int| 0 <= j < i ==> entries.deep_view()[j].0 != key@,
        decreases n - i,
    {
        if str_eq(entries[i].0.as_str(), key) {
            proof {
                lemma_key_idx_from_scan(entries.deep_view(), key@, i as int);
            }
            return i;
        }
        i = i + 1;
    }
    proof {
        lemma_key_idx_from_scan(entries.deep_view(), key@, n as int);
    }
    n
}

/// The override reached by scanning the regex rules in order: the first
/// whose pattern matches the path, if any.
pub open spec fn first_regex_match(ovs: Seq<(Seq<char>, JArrV)>, path: Seq<char>) -> Option<
    JArrV,
>
    decreases ovs.len(),
{
    if ovs.len() == 0 {
        None
    } else if regex_matches(ovs[0].0, path) {
        Some(ovs[0].1)
    } else {
        first_regex_match(ovs.drop_first(), path)
    }
}

/// A scan that finds no regex match up to `i`, and a match or the end at
/// `i`, pins `first_regex_match` down.
pub proof fn lemma_first_regex_from_scan(ovs: Seq<(Seq<char>, JArrV)>, path: Seq<char>, i: int)
    requires
        0 <= i <= ovs.len(),
        forall|j: int| 0 <= j < i ==> !regex_matches(ovs[j].0, path),
        i < ovs.len() ==> regex_matches(ovs[i].0, path),
    ensures
        first_regex_match(ovs, path) == if i < ovs.len() {
            Some(ovs[i].1)
        } else {
            Option::<JArrV>::None
        },
    decreases ovs.len(),
{
    if ovs.len() > 0 && i > 0 {
        lemma_first_regex_from_scan(ovs.drop_first(), path, i - 1);
    }
}

/// The array policy and type rule that apply to a path: the first matching
/// regex override wins; otherwise the exact-path table is consulted;
/// otherwise the default `Infer`/`Infer` applies.
pub open spec fn resolve_override(c: ConfigV, path: Seq<char>) -> JArrV {
    match first_regex_match(c.json_regex_type_overrides, path) {
        Some(a) => a,
        None => {
            let i = key_idx(c.json_type_overrides, path);
            if i < c.json_type_overrides.len() {
                c.json_type_overrides[i].1
            } else {
                JArrV::Infer(JTypeV::Infer)
            }
        },
    }
}

const DEFAULT_JSON_TYPE: JsonType = JsonType::Infer;

/// Returns the array enforcement and the type rule for the given path,
/// searching regex overrides first, then exact paths.
pub fn get_json_type<'c>(config: &'c Config, path: &str) -> (r: (bool, &'c JsonType))
    ensures
        r.0 == jarr_forced(resolve_override(config.deep_view(), path@)),
        r.1.deep_view() == jarr_type(resolve_override(config.deep_view(), path@)),
{
    let n = config.json_regex_type_overrides.len();
    let mut i: usize = 0;
    while i < n
        invariant
            0 <= i <= n,
            n == config.json_regex_type_overrides@.len(),
            forall|j: int|
                0 <= j < i ==> !regex_matches(
                    config.json_regex_type_overrides.deep_view()[j].0,
                    path@,
                ),
        decreases n - i,
    {
        if config.json_regex_type_overrides[i].0.is_match(path) {
            proof {
                lemma_first_regex_from_scan(
                    config.json_regex_type_overrides.deep_view(),
                    path@,
                    i as int,
                );
            }
            return match &config.json_regex_type_overrides[i].1 {
                JsonArray::Always(t) => (true, t),
                JsonArray::Infer(t) => (false, t),
            };
        }
        i = i + 1;
    }
    proof {
        lemma_first_regex_from_scan(config.json_regex_type_overrides.deep_view(), path@, n as int);
    }
    let m = config.json_type_overrides.len();
    let mut k: usize = 0;
    while k < m
        invariant
            0 <= k <= m,
            m == config.json_type_overrides@.len(),
            first_regex_match(config.json_regex_type_overrides.deep_view(), path@) is None,
            forall|j: int| 0 <= j < k ==> config.json_type_overrides.deep_view()[j].0 != path@,
        decreases m - k,
    {
        if str_eq(config.json_type_overrides[k].0.as_str(), path) {
            proof {
                lemma_key_idx_from_scan(config.json_type_overrides.deep_view(), path@, k as int);
            }
            return match &config.json_type_overrides[k].1 {
                JsonArray::Always(t) => (true, t),
                JsonArray::Infer(t) => (false, t),
            };
        }
        k = k + 1;
    }
    proof {
        lemma_key_idx_from_scan(config.json_type_overrides.deep_view(), path@, m as int);
    }
    (false, &DEFAULT_JSON_TYPE)
}

} // verus!
