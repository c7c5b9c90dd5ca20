//! The mapping rules between element/attribute names and JSON keys: which
//! elements are known, how child keys are renamed, how each attribute is
//! carried to a key and value, and which keys hold expressions or tokens.
use vstd::prelude::*;
use crate::text::{ends_with, has_suffix, same_text, split_tokens, text_of, tokens};
use crate::tree::{arr_view, lemma_arr_view_push, lemma_value_views, Json, JsonValue};

verus! {

/// The decimal text that serde_json gives the number written `s`, or `None`
/// where `s` is not a JSON number.
pub uninterp spec fn number_text(s: Seq<char>) -> Option<Seq<char>>;

/// Relies on serde_json's `Number` (`FromStr`, then `Display`): whether `s`
/// is a JSON number, and its text as serde_json writes it.
#[verifier::external_body]
fn parse_number(s: &String) -> (r: Option<String>)
    ensures
        r is None <==> number_text(s@) is None,
        r matches Some(t) ==> number_text(s@) == Some(t@),
{
    s.parse::<serde_json::Number>().ok().map(|n| n.to_string())
}

/// The element names of the state-chart vocabulary.
pub open spec fn is_known_name(n: Seq<char>) -> bool {
    ||| n == "scxml"@
    ||| n == "state"@
    ||| n == "parallel"@
    ||| n == "final"@
    ||| n == "history"@
    ||| n == "transition"@
    ||| n == "invoke"@
    ||| n == "finalize"@
    ||| n == "datamodel"@
    ||| n == "data"@
    ||| n == "onentry"@
    ||| n == "onexit"@
    ||| n == "log"@
    ||| n == "send"@
    ||| n == "cancel"@
    ||| n == "raise"@
    ||| n == "assign"@
    ||| n == "script"@
    ||| n == "foreach"@
    ||| n == "param"@
    ||| n == "if"@
    ||| n == "elseif"@
    ||| n == "else"@
    ||| n == "content"@
    ||| n == "donedata"@
    ||| n == "initial"@
}

/// Whether `n` is an element name of the state-chart vocabulary.
pub fn is_known_element(n: &String) -> (r: bool)
    ensures
        r == is_known_name(n@),
{
    same_text(n, "scxml") || same_text(n, "state") || same_text(n, "parallel") || same_text(
        n,
        "final",
    ) || same_text(n, "history") || same_text(n, "transition") || same_text(n, "invoke")
        || same_text(n, "finalize") || same_text(n, "datamodel") || same_text(n, "data")
        || same_text(n, "onentry") || same_text(n, "onexit") || same_text(n, "log") || same_text(
        n,
        "send",
    ) || same_text(n, "cancel") || same_text(n, "raise") || same_text(n, "assign") || same_text(
        n,
        "script",
    ) || same_text(n, "foreach") || same_text(n, "param") || same_text(n, "if") || same_text(
        n,
        "elseif",
    ) || same_text(n, "else") || same_text(n, "content") || same_text(n, "donedata")
        || same_text(n, "initial")
}

/// The key of a child element: `if` and `else` are renamed, since they are
/// reserved words in the languages that read the JSON form.
pub open spec fn renamed(n: Seq<char>) -> Seq<char> {
    if n == "if"@ {
        "if_value"@
    } else if n == "else"@ {
        "else_value"@
    } else {
        n
    }
}

/// The key under which a known child element named `child` is collected in
/// its parent `parent`: a nested document goes under "content".
pub open spec fn child_key(parent: Seq<char>, child: Seq<char>) -> Seq<char> {
    if child == "scxml"@ && parent != "scxml"@ {
        "content"@
    } else {
        renamed(child)
    }
}

/// The key under which a known child element is collected.
pub fn child_key_of(parent: &String, child: &String) -> (r: String)
    ensures
        r@ == child_key(parent@, child@),
{
    if same_text(child, "scxml") && !same_text(parent, "scxml") {
        text_of("content")
    } else if same_text(child, "if") {
        text_of("if_value")
    } else if same_text(child, "else") {
        text_of("else_value")
    } else {
        child.clone()
    }
}

/// The tag name of the child elements held under key `k`.
pub open spec fn tag_of_key(k: Seq<char>) -> Seq<char> {
    if k == "if_value"@ {
        "if"@
    } else if k == "else_value"@ {
        "else"@
    } else {
        k
    }
}

/// The tag name of the child elements held under key `k`.
pub fn tag_for_key(k: &String) -> (r: String)
    ensures
        r@ == tag_of_key(k@),
{
    if same_text(k, "if_value") {
        text_of("if")
    } else if same_text(k, "else_value") {
        text_of("else")
    } else {
        k.clone()
    }
}

/// An array of strings.
pub open spec fn str_array(ts: Seq<Seq<char>>) -> Json {
    Json::Array(Seq::new(ts.len(), |i: int| Json::Str(ts[i])))
}

/// The value of a `version` attribute: a number where its text is a JSON
/// number, by serde_json's grammar, and the text otherwise. Floating point
/// is not used here, so `+1` and `.5` stay text, and `1` stays the integer
/// 1 rather than becoming 1.0.
pub open spec fn version_value(v: Seq<char>) -> Json {
    match number_text(v) {
        Some(t) => Json::Number(t),
        None => Json::Str(v),
    }
}

/// Whether an attribute named `k`, carried by the generic rule, would
/// meet a key of another rule or of the element's structure: such an
/// attribute is carried under `k` followed by "_attribute", which the
/// reverse direction strips once.
pub open spec fn is_escaped(k: Seq<char>) -> bool {
    ||| ends_with(k, "_attribute"@)
    ||| k == "type_value"@
    ||| k == "raise_value"@
    ||| k == "content"@
    ||| k == "qname"@
    ||| k == "text"@
    ||| k == "attributes"@
    ||| k == "if_value"@
    ||| k == "else_value"@
    ||| is_known_name(k)
}

/// The key that the rule table gives attribute `k` of element `elem`.
pub open spec fn attr_key(elem: Seq<char>, k: Seq<char>) -> Seq<char> {
    if elem == "transition"@ && k == "target"@ {
        "target"@
    } else if k == "initial"@ {
        if elem == "scxml"@ {
            "initial"@
        } else {
            "initial_attribute"@
        }
    } else if k == "version"@ {
        "version"@
    } else if k == "datamodel"@ {
        "datamodel_attribute"@
    } else if k == "type"@ {
        "type_value"@
    } else if k == "raise"@ {
        "raise_value"@
    } else if is_escaped(k) {
        k + "_attribute"@
    } else {
        k
    }
}

/// The value that the rule table gives attribute `k` of element `elem` with
/// text `v`: tokens for a transition's targets and for `initial`, a number
/// where `version` is one, the text itself otherwise.
pub open spec fn attr_value(elem: Seq<char>, k: Seq<char>, v: Seq<char>) -> Json {
    if (elem == "transition"@ && k == "target"@) || k == "initial"@ {
        str_array(tokens(v))
    } else if k == "version"@ {
        version_value(v)
    } else {
        Json::Str(v)
    }
}

/// The rule table from attribute to key and value, for attribute `k` with
/// value `v` on element `elem`. Element-specific rules come first; an
/// attribute that no rule names keeps its name and its text, or is
/// escaped where its name would meet another key (see `is_escaped`), so
/// that no two attributes share a key. A namespace declaration is dropped:
/// the reverse direction writes it anew.
pub open spec fn attr_rule(elem: Seq<char>, k: Seq<char>, v: Seq<char>) -> Option<
    (Seq<char>, Json),
> {
    if k == "xmlns"@ {
        None
    } else {
        Some((attr_key(elem, k), attr_value(elem, k, v)))
    }
}

/// Whether attribute `k` is escaped (see `is_escaped`).
fn escaped(k: &String) -> (r: bool)
    ensures
        r == is_escaped(k@),
{
    has_suffix(k, "_attribute") || same_text(k, "type_value") || same_text(k, "raise_value")
        || same_text(k, "content") || same_text(k, "qname") || same_text(k, "text") || same_text(
        k,
        "attributes",
    ) || same_text(k, "if_value") || same_text(k, "else_value") || is_known_element(k)
}

/// An array holding the strings `ts`.
pub fn string_array(ts: Vec<String>) -> (r: JsonValue)
    ensures
        r.model() == str_array(ts@.map_values(|t: String| t@)),
{
    let ghost tv = ts@.map_values(|t: String| t@);
    let mut out: Vec<JsonValue> = Vec::new();
    let mut i: usize = 0;
    while i < ts.len()
        invariant
            i <= ts.len(),
            tv == ts@.map_values(|t: String| t@),
            arr_view(out@) =~= str_array(tv)->Array_0.subrange(0, i as int),
        decreases ts.len() - i,
    {
        let s = ts[i].clone();
        proof {
            lemma_arr_view_push(out@, JsonValue::Str(s));
        }
        out.push(JsonValue::Str(s));
        i = i + 1;
        assert(arr_view(out@) =~= str_array(tv)->Array_0.subrange(0, i as int));
    }
    let r = JsonValue::Array(out);
    proof {
        lemma_value_views(&r);
        assert(arr_view(out@) =~= str_array(tv)->Array_0);
    }
    r
}

/// Applies the rule table to attribute `k` with value `v` on element `elem`.
pub fn attribute_rule(elem: &String, k: &String, v: &String) -> (r: Option<(String, JsonValue)>)
    ensures
        match r {
            Some((key, val)) => attr_rule(elem@, k@, v@) == Some((key@, val.model())),
            None => attr_rule(elem@, k@, v@) is None,
        },
{
    if same_text(k, "xmlns") {
        None
    } else if same_text(elem, "transition") && same_text(k, "target") {
        Some((text_of("target"), string_array(split_tokens(v))))
    } else if same_text(k, "initial") {
        let key = if same_text(elem, "scxml") {
            text_of("initial")
        } else {
            text_of("initial_attribute")
        };
        Some((key, string_array(split_tokens(v))))
    } else if same_text(k, "version") {
        let val = match parse_number(v) {
            Some(t) => JsonValue::Number(t),
            None => JsonValue::Str(v.clone()),
        };
        Some((text_of("version"), val))
    } else if same_text(k, "datamodel") {
        Some((text_of("datamodel_attribute"), JsonValue::Str(v.clone())))
    } else if same_text(k, "type") {
        Some((text_of("type_value"), JsonValue::Str(v.clone())))
    } else if same_text(k, "raise") {
        Some((text_of("raise_value"), JsonValue::Str(v.clone())))
    } else if escaped(k) {
        let mut key = k.clone();
        key.append("_attribute");
        Some((key, JsonValue::Str(v.clone())))
    } else {
        Some((k.clone(), JsonValue::Str(v.clone())))
    }
}

/// The keys whose string values hold expressions or tokens, and so have
/// their line breaks and tabs collapsed.
pub open spec fn is_collapse_key(k: Seq<char>) -> bool {
    ||| ends_with(k, "_attribute"@)
    ||| k == "expr"@
    ||| k == "cond"@
    ||| k == "event"@
    ||| k == "target"@
    ||| k == "delay"@
    ||| k == "location"@
    ||| k == "name"@
    ||| k == "src"@
    ||| k == "id"@
}

/// Whether the string value under key `k` has its whitespace collapsed.
pub fn collapses(k: &String) -> (r: bool)
    ensures
        r == is_collapse_key(k@),
{
    has_suffix(k, "_attribute") || same_text(k, "expr") || same_text(k, "cond") || same_text(
        k,
        "event",
    ) || same_text(k, "target") || same_text(k, "delay") || same_text(k, "location")
        || same_text(k, "name") || same_text(k, "src") || same_text(k, "id")
}

} // verus!
