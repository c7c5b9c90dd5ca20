//! The reverse transcoder: from a JSON value tree back to an XML element
//! tree.
use vstd::prelude::*;
use crate::forward::prune;
use crate::rules::{tag_for_key, tag_of_key};
use crate::text::{
    ends_with, has_suffix, join_spaced, join_with_spaces, same_text, strip_suffix, text_of,
    trim_suffix,
};
use crate::tree::{
    attr_set, attr_set_exec, attrs_view, has_key, lemma_element_view, lemma_key_index,
    lemma_nodes_view_push, lemma_value_views, nodes_view, obj_get, obj_view, find_key,
    Json, JsonValue, XmlElement, XmlItem, XmlModel, XmlNode,
};

verus! {

/// The namespace of the state-chart vocabulary, written on every root.
pub open spec fn scxml_namespace() -> Seq<char> {
    "http://www.w3.org/2005/07/scxml"@
}

/// Whether each element of `a` is a string.
pub open spec fn all_strings(a: Seq<Json>) -> bool {
    forall|i: int| 0 <= i < a.len() ==> #[trigger] a[i] is Str
}

/// The texts of an array of strings.
pub open spec fn string_items(a: Seq<Json>) -> Seq<Seq<char>> {
    Seq::new(a.len(), |i: int| a[i]->Str_0)
}

/// The attribute text of a value: a string as it is, a non-empty array of
/// strings joined with single spaces; nothing for any other value.
pub open spec fn joined(v: Json) -> Option<Seq<char>> {
    match v {
        Json::Str(s) => Some(s),
        Json::Array(a) => if a.len() > 0 && all_strings(a) {
            Some(join_spaced(string_items(a)))
        } else {
            None
        },
        _ => None,
    }
}

/// The attribute that key `k` stands for: a key ending in "_attribute"
/// loses that suffix once, the renamed keys go back to their attribute
/// names, and any other key is the attribute's own name.
pub open spec fn attr_name_of(k: Seq<char>) -> Seq<char> {
    if ends_with(k, "_attribute"@) {
        trim_suffix(k, "_attribute"@)
    } else if k == "type_value"@ {
        "type"@
    } else if k == "raise_value"@ {
        "raise"@
    } else {
        k
    }
}

/// The attribute text of a value: a number as its text, a boolean as
/// "true" or "false", null as "null", and strings as `joined` gives them.
pub open spec fn attr_text(v: Json) -> Option<Seq<char>> {
    match v {
        Json::Number(t) => Some(t),
        Json::Bool(b) => Some(
            if b {
                "true"@
            } else {
                "false"@
            },
        ),
        Json::Null => Some("null"@),
        _ => joined(v),
    }
}

/// The tag of a payload object: a nested document where it has the marks of
/// one, "content" otherwise.
pub open spec fn payload_tag(m: Seq<(Seq<char>, Json)>) -> Seq<char> {
    if has_key(m, "state"@) || has_key(m, "final"@) || has_key(m, "version"@) || has_key(
        m,
        "datamodel_attribute"@,
    ) {
        "scxml"@
    } else {
        "content"@
    }
}

/// An element with no attributes but the namespace of a root, and no
/// children.
pub open spec fn bare_element(tag: Seq<char>) -> XmlModel {
    XmlModel {
        name: tag,
        attrs: if tag == "scxml"@ {
            seq![("xmlns"@, scxml_namespace())]
        } else {
            Seq::empty()
        },
        children: Seq::empty(),
    }
}

/// Whether object `m` is a wrapper round one nested document: one "content"
/// key holding an array of one object.
pub open spec fn is_wrapper(m: Seq<(Seq<char>, Json)>) -> bool {
    &&& m.len() == 1
    &&& m[0].0 == "content"@
    &&& m[0].1 matches Json::Array(a)
    &&& a.len() == 1
    &&& a[0] is Object
}

/// The attributes of the generic "attributes" object: its string members.
pub open spec fn generic_attrs(
    a: Seq<(Seq<char>, Seq<char>)>,
    am: Seq<(Seq<char>, Json)>,
    n: int,
) -> Seq<(Seq<char>, Seq<char>)>
    decreases n,
{
    if n <= 0 || n > am.len() {
        a
    } else {
        let a1 = generic_attrs(a, am, n - 1);
        match am[n - 1].1 {
            Json::Str(s) => attr_set(a1, am[n - 1].0, s),
            _ => a1,
        }
    }
}

/// The element that object `m` becomes under tag `name`. A "qname" member
/// names an element outside the vocabulary, but a document root keeps the
/// tag `scxml`, and its namespace is set last, whatever `m` holds. Members
/// become attributes where they are scalars or arrays of strings, and
/// children where they are objects or arrays holding objects.
pub open spec fn map_element(name: Seq<char>, m: Seq<(Seq<char>, Json)>) -> XmlModel
    decreases m, m.len() + 1,
{
    if name == "scxml"@ && is_wrapper(m) {
        map_element("scxml"@, m[0].1->Array_0[0]->Object_0)
    } else {
        let tag = if name == "scxml"@ {
            name
        } else {
            match obj_get(m, "qname"@) {
                Some(Json::Str(q)) => q,
                _ => name,
            }
        };
        let a0 = bare_element(name).attrs;
        let k0 = match obj_get(m, "text"@) {
            Some(Json::Str(t)) => if t.len() > 0 {
                seq![XmlItem::Text(t)]
            } else {
                Seq::empty()
            },
            _ => Seq::empty(),
        };
        let a1 = match obj_get(m, "attributes"@) {
            Some(Json::Object(am)) => generic_attrs(a0, am, am.len() as int),
            _ => a0,
        };
        let r = entries_fold(name, m, m.len() as int, a1, k0);
        let attrs = if name == "scxml"@ {
            attr_set(r.0, "xmlns"@, scxml_namespace())
        } else {
            r.0
        };
        XmlModel { name: tag, attrs, children: r.1 }
    }
}

/// The attributes and children after the first `n` members of `m`, starting
/// from `a0` and `k0`.
pub open spec fn entries_fold(
    name: Seq<char>,
    m: Seq<(Seq<char>, Json)>,
    n: int,
    a0: Seq<(Seq<char>, Seq<char>)>,
    k0: Seq<XmlItem>,
) -> (Seq<(Seq<char>, Seq<char>)>, Seq<XmlItem>)
    decreases m, n,
{
    if n <= 0 || n > m.len() {
        (a0, k0)
    } else {
        let prev = entries_fold(name, m, n - 1, a0, k0);
        let a = prev.0;
        let ks = prev.1;
        let k = m[n - 1].0;
        let v = m[n - 1].1;
        if k == "qname"@ || k == "text"@ || k == "attributes"@ {
            (a, ks)
        } else if k == "content"@ {
            match v {
                Json::Array(arr) => (a, ks + content_items(name, arr, arr.len() as int)),
                _ => (a, ks),
            }
        } else {
            match attr_text(v) {
                Some(s) => (attr_set(a, attr_name_of(k), s), ks),
                None => match v {
                    Json::Array(arr) => (a, ks + keyed_items(tag_of_key(k), arr, arr.len() as int)),
                    Json::Object(obj) => (a, ks.push(XmlItem::Element(map_element(tag_of_key(k), obj)))),
                    _ => (a, ks),
                },
            }
        }
    }
}

/// The children that the first `n` items of a "content" array become in an
/// element named `name`: in an invocation each string is wrapped in a
/// payload element; in a script only strings count, as text; elsewhere
/// strings are text. Objects become payloads or nested documents.
pub open spec fn content_items(name: Seq<char>, arr: Seq<Json>, n: int) -> Seq<XmlItem>
    decreases arr, n,
{
    if n <= 0 || n > arr.len() {
        Seq::empty()
    } else {
        let rest = content_items(name, arr, n - 1);
        match arr[n - 1] {
            Json::Str(s) => if name == "invoke"@ {
                rest.push(
                    XmlItem::Element(
                        XmlModel {
                            name: "content"@,
                            attrs: Seq::empty(),
                            children: seq![XmlItem::Text(s)],
                        },
                    ),
                )
            } else {
                rest.push(XmlItem::Text(s))
            },
            Json::Object(obj) => if name == "script"@ {
                rest
            } else {
                rest.push(XmlItem::Element(map_element(payload_tag(obj), obj)))
            },
            _ => rest,
        }
    }
}

/// The children that the first `n` items of the array under a key become,
/// with tag `tag`: an object becomes an element, a string an empty element
/// followed by the string as text.
pub open spec fn keyed_items(tag: Seq<char>, arr: Seq<Json>, n: int) -> Seq<XmlItem>
    decreases arr, n,
{
    if n <= 0 || n > arr.len() {
        Seq::empty()
    } else {
        let rest = keyed_items(tag, arr, n - 1);
        match arr[n - 1] {
            Json::Object(obj) => rest.push(XmlItem::Element(map_element(tag, obj))),
            Json::Str(s) => rest.push(XmlItem::Element(bare_element(tag))).push(XmlItem::Text(s)),
            _ => rest,
        }
    }
}

/// The document that a JSON value becomes: pruned where asked, then, where
/// it is an object, the root element it describes.
pub open spec fn document_xml(v: Json, omit_empty: bool) -> Option<XmlModel> {
    let p = if omit_empty {
        prune(v)
    } else {
        v
    };
    match p {
        Json::Object(m) => Some(map_element("scxml"@, m)),
        _ => None,
    }
}

/// The attribute text of `v` (see `joined`).
pub fn join_tokens(v: &JsonValue) -> (r: Option<String>)
    ensures
        match r {
            Some(s) => joined(v.model()) == Some(s@),
            None => joined(v.model()) is None,
        },
{
    proof {
        lemma_value_views(v);
    }
    match v {
        JsonValue::Str(s) => Some(s.clone()),
        JsonValue::Array(a) => {
            if a.len() == 0 {
                return None;
            }
            let ghost am = v.model()->Array_0;
            let mut parts: Vec<String> = Vec::new();
            let mut i: usize = 0;
            while i < a.len()
                invariant
                    i <= a.len(),
                    am == v.model()->Array_0,
                    am.len() == a.len(),
                    *v == JsonValue::Array(*a),
                    v.model() == Json::Array(crate::tree::arr_view(a@)),
                    forall|j: int| 0 <= j < i ==> #[trigger] am[j] is Str,
                    parts@.map_values(|t: String| t@) =~= string_items(am).subrange(0, i as int),
                decreases a.len() - i,
            {
                let ghost before = parts@;
                match &a[i] {
                    JsonValue::Str(s) => {
                        parts.push(s.clone());
                        assert(am[i as int] == Json::Str(s@));
                        assert(parts@.map_values(|t: String| t@) =~= before.map_values(
                            |t: String| t@,
                        ).push(s@));
                    },
                    _ => {
                        assert(am[i as int] == a@[i as int].model());
                        assert(!(am[i as int] is Str));
                        return None;
                    },
                }
                i = i + 1;
            }
            assert(string_items(am).subrange(0, i as int) =~= string_items(am));
            Some(join_with_spaces(&parts))
        },
        _ => None,
    }
}

/// The tag of a payload object (see `payload_tag`).
fn payload_tag_of(m: &Vec<(String, JsonValue)>) -> (r: String)
    ensures
        r@ == payload_tag(obj_view(m@)),
{
    if find_key(m, &text_of("state")).is_some() || find_key(m, &text_of("final")).is_some()
        || find_key(m, &text_of("version")).is_some() || find_key(
        m,
        &text_of("datamodel_attribute"),
    ).is_some() {
        text_of("scxml")
    } else {
        text_of("content")
    }
}

/// An element with no attributes but the namespace of a root, and no
/// children.
fn bare_element_of(tag: &String) -> (r: XmlElement)
    ensures
        r.model() == bare_element(tag@),
{
    let mut attributes: Vec<(String, String)> = Vec::new();
    if same_text(tag, "scxml") {
        attributes.push((text_of("xmlns"), text_of("http://www.w3.org/2005/07/scxml")));
    }
    let r = XmlElement { name: tag.clone(), attributes, children: Vec::new() };
    proof {
        lemma_element_view(&r);
        assert(attrs_view(r.attributes@) =~= bare_element(tag@).attrs);
        assert(nodes_view(r.children@) =~= Seq::<XmlItem>::empty());
    }
    r
}

/// The element that object `m` becomes under tag `name` (see
/// `map_element`).
pub fn map_to_element(name: &String, m: &Vec<(String, JsonValue)>) -> (r: XmlElement)
    ensures
        r.model() == map_element(name@, obj_view(m@)),
    decreases m,
{
    let ghost mm = obj_view(m@);
    if same_text(name, "scxml") && m.len() == 1 && same_text(&m[0].0, "content") {
        proof {
            lemma_value_views(&m[0].1);
        }
        match &m[0].1 {
            JsonValue::Array(arr) => {
                if arr.len() == 1 {
                    proof {
                        lemma_value_views(&arr[0]);
                    }
                    match &arr[0] {
                        JsonValue::Object(obj) => {
                            proof {
                                assert(decreases_to!(m@ => m@[0]));
                                assert(decreases_to!(m@[0] => m@[0].1));
                                assert(decreases_to!(m@[0].1 => m@[0].1->Array_0));
                                assert(decreases_to!(arr@ => arr@[0]));
                                assert(decreases_to!(arr@[0] => arr@[0]->Object_0));
                            }
                            return map_to_element(name, obj);
                        },
                        _ => {},
                    }
                }
            },
            _ => {},
        }
    }
    proof {
        lemma_key_index(mm, "qname"@);
        lemma_key_index(mm, "text"@);
        lemma_key_index(mm, "attributes"@);
    }
    let root = same_text(name, "scxml");
    let mut tag = name.clone();
    if !root {
    match find_key(m, &text_of("qname")) {
        Some(i) => {
            proof {
                lemma_value_views(&m[i as int].1);
            }
            match &m[i].1 {
                JsonValue::Str(q) => {
                    tag = q.clone();
                },
                _ => {},
            }
        },
        None => {},
    }
    }
    let mut attributes = bare_element_of(name).attributes;
    let mut children: Vec<XmlNode> = Vec::new();
    match find_key(m, &text_of("text")) {
        Some(i) => {
            match &m[i].1 {
                JsonValue::Str(t) => {
                    if !t.as_str().is_empty() {
                        children.push(XmlNode::Text(t.clone()));
                    }
                },
                _ => {},
            }
        },
        None => {},
    }
    let ghost k0 = nodes_view(children@);
    assert(k0 == match obj_get(mm, "text"@) {
        Some(Json::Str(t)) => if t.len() > 0 {
            seq![XmlItem::Text(t)]
        } else {
            Seq::<XmlItem>::empty()
        },
        _ => Seq::<XmlItem>::empty(),
    }) by {
        assert(nodes_view(children@) =~= k0);
    }
    match find_key(m, &text_of("attributes")) {
        Some(i) => {
            proof {
                lemma_value_views(&m[i as int].1);
            }
            match &m[i].1 {
                JsonValue::Object(am) => {
                    let ghost amv = obj_view(am@);
                    let ghost a0 = attrs_view(attributes@);
                    let mut j: usize = 0;
                    while j < am.len()
                        invariant
                            j <= am.len(),
                            amv == obj_view(am@),
                            attrs_view(attributes@) == generic_attrs(a0, amv, j as int),
                        decreases am.len() - j,
                    {
                        match &am[j].1 {
                            JsonValue::Str(s) => {
                                attr_set_exec(&mut attributes, am[j].0.clone(), s.clone());
                            },
                            _ => {},
                        }
                        j = j + 1;
                    }
                },
                _ => {},
            }
        },
        None => {},
    }
    let ghost a1 = attrs_view(attributes@);
    let mut i: usize = 0;
    while i < m.len()
        invariant
            i <= m.len(),
            mm == obj_view(m@),
            (attrs_view(attributes@), nodes_view(children@)) == entries_fold(
                name@,
                mm,
                i as int,
                a1,
                k0,
            ),
        decreases m.len() - i,
    {
        let k = &m[i].0;
        let v = &m[i].1;
        proof {
            lemma_value_views(v);
        }
        if same_text(k, "qname") || same_text(k, "text") || same_text(k, "attributes") {
        } else if same_text(k, "content") {
            match v {
                JsonValue::Array(arr) => {
                    proof {
                        assert(decreases_to!(m@ => m@[i as int]));
                        assert(decreases_to!(m@[i as int] => m@[i as int].1));
                        assert(decreases_to!(m@[i as int].1 => m@[i as int].1->Array_0));
                    }
                    push_content(name, arr, &mut children);
                },
                _ => {},
            }
        } else {
            match attribute_text(v) {
                Some(s) => attr_set_exec(&mut attributes, attribute_name(k), s),
                None => match v {
                    JsonValue::Array(arr) => {
                        proof {
                            assert(decreases_to!(m@ => m@[i as int]));
                            assert(decreases_to!(m@[i as int] => m@[i as int].1));
                            assert(decreases_to!(m@[i as int].1 => m@[i as int].1->Array_0));
                        }
                        let tag_k = tag_for_key(k);
                        push_keyed(&tag_k, arr, &mut children);
                    },
                    JsonValue::Object(obj) => {
                        proof {
                            assert(decreases_to!(m@ => m@[i as int]));
                            assert(decreases_to!(m@[i as int] => m@[i as int].1));
                            assert(decreases_to!(m@[i as int].1 => m@[i as int].1->Object_0));
                        }
                        let tag_k = tag_for_key(k);
                        let node = XmlNode::Element(map_to_element(&tag_k, obj));
                        proof {
                            lemma_nodes_view_push(children@, node);
                        }
                        children.push(node);
                    },
                    _ => {},
                },
            }
        }
        i = i + 1;
    }
    if root {
        attr_set_exec(&mut attributes, text_of("xmlns"), text_of("http://www.w3.org/2005/07/scxml"));
    }
    let r = XmlElement { name: tag, attributes, children };
    proof {
        lemma_element_view(&r);
    }
    r
}

/// The attribute text of `v` (see `attr_text`).
fn attribute_text(v: &JsonValue) -> (r: Option<String>)
    ensures
        match r {
            Some(s) => attr_text(v.model()) == Some(s@),
            None => attr_text(v.model()) is None,
        },
{
    match v {
        JsonValue::Number(t) => Some(t.clone()),
        JsonValue::Bool(b) => Some(
            if *b {
                text_of("true")
            } else {
                text_of("false")
            },
        ),
        JsonValue::Null => Some(text_of("null")),
        _ => join_tokens(v),
    }
}

/// The attribute that key `k` stands for (see `attr_name_of`).
fn attribute_name(k: &String) -> (r: String)
    ensures
        r@ == attr_name_of(k@),
{
    if has_suffix(k, "_attribute") {
        strip_suffix(k, "_attribute")
    } else if same_text(k, "type_value") {
        text_of("type")
    } else if same_text(k, "raise_value") {
        text_of("raise")
    } else {
        k.clone()
    }
}

/// Appends the children that a "content" array becomes in an element named
/// `name` (see `content_items`).
fn push_content(name: &String, arr: &Vec<JsonValue>, children: &mut Vec<XmlNode>)
    ensures
        nodes_view(final(children)@) == nodes_view(old(children)@) + content_items(
            name@,
            crate::tree::arr_view(arr@),
            arr.len() as int,
        ),
    decreases arr,
{
    let ghost av = crate::tree::arr_view(arr@);
    let ghost start = nodes_view(children@);
    let invoke = same_text(name, "invoke");
    let script = same_text(name, "script");
    let mut j: usize = 0;
    while j < arr.len()
        invariant
            j <= arr.len(),
            av == crate::tree::arr_view(arr@),
            invoke == (name@ == "invoke"@),
            script == (name@ == "script"@),
            nodes_view(children@) == start + content_items(name@, av, j as int),
        decreases arr.len() - j,
    {
        proof {
            lemma_value_views(&arr[j as int]);
        }
        match &arr[j] {
            JsonValue::Str(s) => {
                let node = if invoke {
                    let wrap = XmlElement {
                        name: text_of("content"),
                        attributes: Vec::new(),
                        children: vec![XmlNode::Text(s.clone())],
                    };
                    proof {
                        lemma_element_view(&wrap);
                        assert(nodes_view(wrap.children@) =~= seq![XmlItem::Text(s@)]);
                        assert(attrs_view(wrap.attributes@) =~= Seq::empty());
                        assert(wrap.model() == (XmlModel {
                            name: "content"@,
                            attrs: Seq::empty(),
                            children: seq![XmlItem::Text(s@)],
                        }));
                    }
                    XmlNode::Element(wrap)
                } else {
                    XmlNode::Text(s.clone())
                };
                proof {
                    lemma_nodes_view_push(children@, node);
                }
                children.push(node);
            },
            JsonValue::Object(obj) => {
                if !script {
                    proof {
                        assert(decreases_to!(arr@ => arr@[j as int]));
                        assert(decreases_to!(arr@[j as int] => arr@[j as int]->Object_0));
                    }
                    let tag = payload_tag_of(obj);
                    let node = XmlNode::Element(map_to_element(&tag, obj));
                    proof {
                        lemma_nodes_view_push(children@, node);
                    }
                    children.push(node);
                }
            },
            _ => {},
        }
        j = j + 1;
        assert(nodes_view(children@) =~= start + content_items(name@, av, j as int));
    }
}

/// Appends the children that the array under a key becomes, with tag `tag`
/// (see `keyed_items`).
fn push_keyed(tag: &String, arr: &Vec<JsonValue>, children: &mut Vec<XmlNode>)
    ensures
        nodes_view(final(children)@) == nodes_view(old(children)@) + keyed_items(
            tag@,
            crate::tree::arr_view(arr@),
            arr.len() as int,
        ),
    decreases arr,
{
    let ghost av = crate::tree::arr_view(arr@);
    let ghost start = nodes_view(children@);
    let mut j: usize = 0;
    while j < arr.len()
        invariant
            j <= arr.len(),
            av == crate::tree::arr_view(arr@),
            nodes_view(children@) == start + keyed_items(tag@, av, j as int),
        decreases arr.len() - j,
    {
        proof {
            lemma_value_views(&arr[j as int]);
        }
        match &arr[j] {
            JsonValue::Object(obj) => {
                proof {
                    assert(decreases_to!(arr@ => arr@[j as int]));
                    assert(decreases_to!(arr@[j as int] => arr@[j as int]->Object_0));
                }
                let node = XmlNode::Element(map_to_element(tag, obj));
                proof {
                    lemma_nodes_view_push(children@, node);
                }
                children.push(node);
            },
            JsonValue::Str(s) => {
                let node = XmlNode::Element(bare_element_of(tag));
                proof {
                    lemma_nodes_view_push(children@, node);
                }
                children.push(node);
                let text = XmlNode::Text(s.clone());
                proof {
                    lemma_nodes_view_push(children@, text);
                }
                children.push(text);
            },
            _ => {},
        }
        j = j + 1;
        assert(nodes_view(children@) =~= start + keyed_items(tag@, av, j as int));
    }
}

} // verus!
