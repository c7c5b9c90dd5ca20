//! The forward transcoder: from an XML element tree to a JSON value tree,
//! with the whitespace normaliser and the empty-value pruner.
use vstd::prelude::*;
use crate::rules::{
    attr_rule, attribute_rule, child_key, child_key_of, collapses, is_collapse_key,
    is_known_element, is_known_name,
};
use crate::text::{blank, collapse, collapse_text, is_blank, text_of};
use crate::tree::{
    arr_view, attrs_view, copy_value, lemma_arr_view_push, lemma_element_view,
    lemma_obj_view_push, lemma_value_views, nodes_view, obj_append, obj_append_exec, obj_default,
    obj_default_exec, obj_insert, obj_insert_exec, obj_view, Json, JsonValue, XmlElement, XmlItem,
    XmlModel, XmlNode,
};

verus! {

/// The object made of the first `n` attributes of element `elem`, each
/// carried by the rule table. The table gives distinct attribute names
/// distinct keys (see `law_attr_name_recovered`), so only a repeated name,
/// which well-formed XML does not allow, could override an earlier value.
pub open spec fn attrs_obj(elem: Seq<char>, attrs: Seq<(Seq<char>, Seq<char>)>, n: int) -> Seq<
    (Seq<char>, Json),
>
    decreases n,
{
    if n <= 0 || n > attrs.len() {
        Seq::empty()
    } else {
        let m = attrs_obj(elem, attrs, n - 1);
        match attr_rule(elem, attrs[n - 1].0, attrs[n - 1].1) {
            Some((k, v)) => obj_insert(m, k, v),
            None => m,
        }
    }
}

/// The defaults that an element gets where its attributes leave them out:
/// an assignment replaces children, an event is sent at once to a
/// state-chart processor.
pub open spec fn with_defaults(elem: Seq<char>, m: Seq<(Seq<char>, Json)>) -> Seq<
    (Seq<char>, Json),
> {
    if elem == "assign"@ {
        obj_default(m, "type_value"@, Json::Str("replacechildren"@))
    } else if elem == "send"@ {
        obj_default(obj_default(m, "type_value"@, Json::Str("scxml"@)), "delay"@, Json::Str("0s"@))
    } else {
        m
    }
}

/// The defaults of the document root: version 1.0 and the null data model.
pub open spec fn root_defaults(elem: Seq<char>, m: Seq<(Seq<char>, Json)>) -> Seq<
    (Seq<char>, Json),
> {
    if elem == "scxml"@ {
        obj_default(
            obj_default(m, "version"@, Json::Number("1.0"@)),
            "datamodel_attribute"@,
            Json::Str("null"@),
        )
    } else {
        m
    }
}

/// The text of an element outside the vocabulary: its text and character
/// data children, joined.
pub open spec fn inner_text(cs: Seq<XmlItem>, n: int) -> Seq<char>
    decreases n,
{
    if n <= 0 || n > cs.len() {
        Seq::empty()
    } else {
        inner_text(cs, n - 1) + match cs[n - 1] {
            XmlItem::Text(t) => t,
            XmlItem::CData(t) => t,
            _ => Seq::empty(),
        }
    }
}

/// The attributes of an element outside the vocabulary, as an object of
/// strings.
pub open spec fn plain_attrs(attrs: Seq<(Seq<char>, Seq<char>)>, n: int) -> Seq<
    (Seq<char>, Json),
>
    decreases n,
{
    if n <= 0 || n > attrs.len() {
        Seq::empty()
    } else {
        obj_insert(plain_attrs(attrs, n - 1), attrs[n - 1].0, Json::Str(attrs[n - 1].1))
    }
}

/// An element outside the vocabulary, kept generically: its name under
/// "qname", its text under "text", its attributes under "attributes" and
/// its child elements under "children".
pub open spec fn foreign_value(e: XmlModel) -> Json
    decreases e, 0int,
{
    let base = seq![("qname"@, Json::Str(e.name)), ("text"@, Json::Str(inner_text(e.children, e.children.len() as int)))];
    let with_attrs = if e.attrs.len() > 0 {
        base.push(("attributes"@, Json::Object(plain_attrs(e.attrs, e.attrs.len() as int))))
    } else {
        base
    };
    let kids = foreign_list(e.children, e.children.len() as int);
    Json::Object(
        if kids.len() > 0 {
            with_attrs.push(("children"@, Json::Array(kids)))
        } else {
            with_attrs
        },
    )
}

/// The element children among the first `n` of `cs`, kept generically.
pub open spec fn foreign_list(cs: Seq<XmlItem>, n: int) -> Seq<Json>
    decreases cs, n,
{
    if n <= 0 || n > cs.len() {
        Seq::empty()
    } else {
        let l = foreign_list(cs, n - 1);
        match cs[n - 1] {
            XmlItem::Element(c) => l.push(foreign_value(c)),
            _ => l,
        }
    }
}

/// The object that element `e` becomes: its attributes by the rule table,
/// its defaults, its child elements appended under their keys, its
/// non-blank text runs appended under "content", and the root defaults.
pub open spec fn element_obj(e: XmlModel) -> Seq<(Seq<char>, Json)>
    decreases e, 0int,
{
    let m0 = with_defaults(e.name, attrs_obj(e.name, e.attrs, e.attrs.len() as int));
    let m1 = children_obj(e.name, m0, e.children, e.children.len() as int);
    let m2 = text_runs(m1, e.children, e.children.len() as int);
    root_defaults(e.name, m2)
}

/// `m` with the element children among the first `n` of `cs` appended: a
/// known element under its key, any other under "content".
pub open spec fn children_obj(
    parent: Seq<char>,
    m: Seq<(Seq<char>, Json)>,
    cs: Seq<XmlItem>,
    n: int,
) -> Seq<(Seq<char>, Json)>
    decreases cs, n,
{
    if n <= 0 || n > cs.len() {
        m
    } else {
        let m1 = children_obj(parent, m, cs, n - 1);
        match cs[n - 1] {
            XmlItem::Element(c) => if is_known_name(c.name) {
                obj_append(m1, child_key(parent, c.name), Json::Object(element_obj(c)))
            } else {
                obj_append(m1, "content"@, foreign_value(c))
            },
            _ => m1,
        }
    }
}

/// `m` with the non-blank text runs among the first `n` of `cs` appended
/// under "content".
pub open spec fn text_runs(m: Seq<(Seq<char>, Json)>, cs: Seq<XmlItem>, n: int) -> Seq<
    (Seq<char>, Json),
>
    decreases n,
{
    if n <= 0 || n > cs.len() {
        m
    } else {
        let m1 = text_runs(m, cs, n - 1);
        match cs[n - 1] {
            XmlItem::Text(t) => if !is_blank(t) {
                obj_append(m1, "content"@, Json::Str(t))
            } else {
                m1
            },
            _ => m1,
        }
    }
}

/// `v` with line breaks and tabs turned to spaces in the string values of
/// the keys that hold expressions or tokens, at every depth.
pub open spec fn collapse_ws(v: Json) -> Json
    decreases v,
{
    match v {
        Json::Array(a) => Json::Array(
            Seq::new(
                a.len(),
                |i: int|
                    if 0 <= i < a.len() {
                        collapse_ws(a[i])
                    } else {
                        Json::Null
                    },
            ),
        ),
        Json::Object(m) => Json::Object(
            Seq::new(
                m.len(),
                |i: int|
                    if 0 <= i < m.len() {
                        (
                            m[i].0,
                            if is_collapse_key(m[i].0) && m[i].1 is Str {
                                Json::Str(collapse(m[i].1->Str_0))
                            } else {
                                collapse_ws(m[i].1)
                            },
                        )
                    } else {
                        (Seq::empty(), Json::Null)
                    },
            ),
        ),
        _ => v,
    }
}

/// Whether `v` is empty once pruned: null, the empty string, or an array or
/// object all of whose members are empty once pruned.
pub open spec fn prunes_away(v: Json) -> bool
    decreases v, 1int,
{
    match v {
        Json::Null => true,
        Json::Str(s) => s.len() == 0,
        Json::Array(a) => items_prune_away(a, a.len() as int),
        Json::Object(m) => entries_prune_away(m, m.len() as int),
        _ => false,
    }
}

/// Whether each of the first `n` elements of `a` is empty once pruned.
pub open spec fn items_prune_away(a: Seq<Json>, n: int) -> bool
    decreases a, n,
{
    if n <= 0 || n > a.len() {
        true
    } else {
        items_prune_away(a, n - 1) && prunes_away(a[n - 1])
    }
}

/// Whether each of the first `n` members of `m` is empty once pruned.
pub open spec fn entries_prune_away(m: Seq<(Seq<char>, Json)>, n: int) -> bool
    decreases m, n,
{
    if n <= 0 || n > m.len() {
        true
    } else {
        entries_prune_away(m, n - 1) && prunes_away(m[n - 1].1)
    }
}

/// `v` pruned, at every depth: an object loses the members that are empty
/// once pruned and prunes the others; an array loses the elements that are
/// empty once pruned and prunes the others.
pub open spec fn prune(v: Json) -> Json
    decreases v, 1int,
{
    match v {
        Json::Object(m) => Json::Object(prune_entries(m, m.len() as int)),
        Json::Array(a) => Json::Array(kept_items(a, a.len() as int)),
        _ => v,
    }
}

/// The first `n` members of `m`, pruned, without those empty once pruned.
pub open spec fn prune_entries(m: Seq<(Seq<char>, Json)>, n: int) -> Seq<(Seq<char>, Json)>
    decreases m, n,
{
    if n <= 0 || n > m.len() {
        Seq::empty()
    } else {
        let rest = prune_entries(m, n - 1);
        if prunes_away(m[n - 1].1) {
            rest
        } else {
            rest.push((m[n - 1].0, prune(m[n - 1].1)))
        }
    }
}

/// The first `n` elements of `a`, pruned, without those empty once pruned.
pub open spec fn kept_items(a: Seq<Json>, n: int) -> Seq<Json>
    decreases a, n,
{
    if n <= 0 || n > a.len() {
        Seq::empty()
    } else {
        let rest = kept_items(a, n - 1);
        if prunes_away(a[n - 1]) {
            rest
        } else {
            rest.push(prune(a[n - 1]))
        }
    }
}

/// The JSON form of a document root: the object of the root element, with
/// whitespace collapsed and, where asked, empty values pruned.
pub open spec fn document_json(e: XmlModel, omit_empty: bool) -> Json {
    let v = collapse_ws(Json::Object(element_obj(e)));
    if omit_empty {
        prune(v)
    } else {
        v
    }
}

/// An element outside the vocabulary as a generic object (see
/// `foreign_value`).
pub fn any_element_to_value(e: &XmlElement) -> (r: JsonValue)
    ensures
        r.model() == foreign_value(e.model()),
    decreases e,
{
    proof {
        lemma_element_view(e);
    }
    let ghost cs = e.model().children;
    let mut text = String::new();
    let mut i: usize = 0;
    while i < e.children.len()
        invariant
            i <= e.children.len(),
            cs == e.model().children,
            cs == nodes_view(e.children@),
            text@ == inner_text(cs, i as int),
        decreases e.children.len() - i,
    {
        match &e.children[i] {
            XmlNode::Text(t) => {
                text.append(t.as_str());
            },
            XmlNode::CData(t) => {
                text.append(t.as_str());
            },
            _ => {},
        }
        i = i + 1;
        assert(text@ =~= inner_text(cs, i as int));
    }
    let mut m: Vec<(String, JsonValue)> = Vec::new();
    m.push((text_of("qname"), JsonValue::Str(e.name.clone())));
    m.push((text_of("text"), JsonValue::Str(text)));
    let ghost ea = e.model().attrs;
    if e.attributes.len() > 0 {
        let mut attrs: Vec<(String, JsonValue)> = Vec::new();
        let mut j: usize = 0;
        while j < e.attributes.len()
            invariant
                j <= e.attributes.len(),
                ea == attrs_view(e.attributes@),
                obj_view(attrs@) == plain_attrs(ea, j as int),
            decreases e.attributes.len() - j,
        {
            let (k, v) = (e.attributes[j].0.clone(), e.attributes[j].1.clone());
            obj_insert_exec(&mut attrs, k, JsonValue::Str(v));
            j = j + 1;
        }
        let av = JsonValue::Object(attrs);
        proof {
            lemma_value_views(&av);
        }
        m.push((text_of("attributes"), av));
    }
    let mut kids: Vec<JsonValue> = Vec::new();
    let mut j: usize = 0;
    while j < e.children.len()
        invariant
            j <= e.children.len(),
            cs == e.model().children,
            cs == nodes_view(e.children@),
            arr_view(kids@) == foreign_list(cs, j as int),
        decreases e.children.len() - j,
    {
        match &e.children[j] {
            XmlNode::Element(c) => {
                proof {
                    assert(decreases_to!(*e => e.children));
                    assert(decreases_to!(e.children => e.children@));
                    assert(decreases_to!(e.children@ => e.children@[j as int]));
                    assert(decreases_to!(e.children@[j as int] => e.children@[j as int]->Element_0));
                }
                let fv = any_element_to_value(c);
                proof {
                    lemma_arr_view_push(kids@, fv);
                }
                kids.push(fv);
            },
            _ => {},
        }
        j = j + 1;
    }
    if kids.len() > 0 {
        let kv = JsonValue::Array(kids);
        proof {
            lemma_value_views(&kv);
        }
        m.push((text_of("children"), kv));
    }
    let r = JsonValue::Object(m);
    proof {
        lemma_value_views(&r);
        assert(obj_view(m@) =~= foreign_value(e.model())->Object_0);
    }
    r
}

/// The defaults that element `elem` gets where its attributes leave them
/// out (see `with_defaults`).
pub fn apply_defaults(elem: &String, m: &mut Vec<(String, JsonValue)>)
    ensures
        obj_view(final(m)@) == with_defaults(elem@, obj_view(old(m)@)),
{
    if crate::text::same_text(elem, "assign") {
        obj_default_exec(m, text_of("type_value"), JsonValue::Str(text_of("replacechildren")));
    } else if crate::text::same_text(elem, "send") {
        obj_default_exec(m, text_of("type_value"), JsonValue::Str(text_of("scxml")));
        obj_default_exec(m, text_of("delay"), JsonValue::Str(text_of("0s")));
    }
}

/// The object that element `e` becomes (see `element_obj`).
pub fn element_to_map(e: &XmlElement) -> (r: Vec<(String, JsonValue)>)
    ensures
        obj_view(r@) == element_obj(e.model()),
    decreases e,
{
    proof {
        lemma_element_view(e);
    }
    let ghost em = e.model();
    let mut m: Vec<(String, JsonValue)> = Vec::new();
    let mut i: usize = 0;
    while i < e.attributes.len()
        invariant
            i <= e.attributes.len(),
            em == e.model(),
            obj_view(m@) == attrs_obj(em.name, em.attrs, i as int),
        decreases e.attributes.len() - i,
    {
        match attribute_rule(&e.name, &e.attributes[i].0, &e.attributes[i].1) {
            Some((k, v)) => obj_insert_exec(&mut m, k, v),
            None => {},
        }
        i = i + 1;
    }
    apply_defaults(&e.name, &mut m);
    let ghost m0 = obj_view(m@);
    let mut j: usize = 0;
    while j < e.children.len()
        invariant
            j <= e.children.len(),
            em == e.model(),
            em.children == nodes_view(e.children@),
            obj_view(m@) == children_obj(em.name, m0, em.children, j as int),
        decreases e.children.len() - j,
    {
        match &e.children[j] {
            XmlNode::Element(c) => {
                if is_known_element(&c.name) {
                    proof {
                        assert(decreases_to!(*e => e.children));
                        assert(decreases_to!(e.children => e.children@));
                        assert(decreases_to!(e.children@ => e.children@[j as int]));
                        assert(decreases_to!(e.children@[j as int] => e.children@[j as int]->Element_0));
                    }
                    let cm = element_to_map(c);
                    let key = child_key_of(&e.name, &c.name);
                    let cv = JsonValue::Object(cm);
                    proof {
                        lemma_value_views(&cv);
                    }
                    obj_append_exec(&mut m, key, cv);
                } else {
                    let fv = any_element_to_value(c);
                    obj_append_exec(&mut m, text_of("content"), fv);
                }
            },
            _ => {},
        }
        j = j + 1;
    }
    let ghost m1 = obj_view(m@);
    let mut j: usize = 0;
    while j < e.children.len()
        invariant
            j <= e.children.len(),
            em == e.model(),
            em.children == nodes_view(e.children@),
            obj_view(m@) == text_runs(m1, em.children, j as int),
        decreases e.children.len() - j,
    {
        match &e.children[j] {
            XmlNode::Text(t) => {
                if !blank(t) {
                    obj_append_exec(&mut m, text_of("content"), JsonValue::Str(t.clone()));
                }
            },
            _ => {},
        }
        j = j + 1;
    }
    if crate::text::same_text(&e.name, "scxml") {
        obj_default_exec(&mut m, text_of("version"), JsonValue::Number(text_of("1.0")));
        obj_default_exec(&mut m, text_of("datamodel_attribute"), JsonValue::Str(text_of("null")));
    }
    m
}

/// A copy of `v` with whitespace collapsed (see `collapse_ws`).
pub fn collapsed(v: &JsonValue) -> (r: JsonValue)
    ensures
        r.model() == collapse_ws(v.model()),
    decreases v,
{
    proof {
        lemma_value_views(v);
    }
    match v {
        JsonValue::Array(a) => {
            let mut out: Vec<JsonValue> = Vec::new();
            let mut i: usize = 0;
            while i < a.len()
                invariant
                    i <= a.len(),
                    *v == JsonValue::Array(*a),
                    arr_view(out@) == collapse_ws(v.model())->Array_0.subrange(0, i as int),
                    v.model() == Json::Array(arr_view(a@)),
                decreases a.len() - i,
            {
                proof {
                    assert(decreases_to!(*v => v->Array_0));
                    assert(decreases_to!(*a => a@));
                    assert(decreases_to!(a@ => a@[i as int]));
                }
                let c = collapsed(&a[i]);
                proof {
                    lemma_arr_view_push(out@, c);
                }
                out.push(c);
                i = i + 1;
                assert(arr_view(out@) =~= collapse_ws(v.model())->Array_0.subrange(0, i as int));
            }
            let r = JsonValue::Array(out);
            proof {
                lemma_value_views(&r);
                assert(arr_view(out@) =~= collapse_ws(v.model())->Array_0);
            }
            r
        },
        JsonValue::Object(m) => {
            let mut out: Vec<(String, JsonValue)> = Vec::new();
            let mut i: usize = 0;
            while i < m.len()
                invariant
                    i <= m.len(),
                    *v == JsonValue::Object(*m),
                    obj_view(out@) == collapse_ws(v.model())->Object_0.subrange(0, i as int),
                    v.model() == Json::Object(obj_view(m@)),
                decreases m.len() - i,
            {
                let k = m[i].0.clone();
                let c = match &m[i].1 {
                    JsonValue::Str(s) => {
                        if collapses(&k) {
                            JsonValue::Str(collapse_text(s))
                        } else {
                            JsonValue::Str(s.clone())
                        }
                    },
                    other => {
                        proof {
                            assert(decreases_to!(*v => v->Object_0));
                            assert(decreases_to!(*m => m@));
                            assert(decreases_to!(m@ => m@[i as int]));
                            assert(decreases_to!(m@[i as int] => m@[i as int].1));
                        }
                        collapsed(other)
                    },
                };
                proof {
                    lemma_obj_view_push(out@, k, c);
                    let mm = obj_view(m@);
                    assert(mm[i as int] == (m@[i as int].0@, m@[i as int].1.model()));
                    if m@[i as int].1 is Str {
                        assert(collapse_ws(mm[i as int].1) == mm[i as int].1);
                    }
                    assert(collapse_ws(v.model())->Object_0[i as int] == (k@, c.model()));
                }
                out.push((k, c));
                i = i + 1;
                assert(obj_view(out@) =~= collapse_ws(v.model())->Object_0.subrange(0, i as int));
            }
            let r = JsonValue::Object(out);
            proof {
                lemma_value_views(&r);
                assert(obj_view(out@) =~= collapse_ws(v.model())->Object_0);
            }
            r
        },
        other => copy_value(other),
    }
}

/// Collapses line breaks and tabs in `value` (see `collapse_ws`).
pub fn collapse_whitespace(value: &mut JsonValue)
    ensures
        final(value).model() == collapse_ws(old(value).model()),
{
    let c = collapsed(value);
    *value = c;
}

/// A pruned copy of `v`, and whether `v` is empty once pruned.
pub fn pruned(v: &JsonValue) -> (r: (JsonValue, bool))
    ensures
        r.0.model() == prune(v.model()),
        r.1 == prunes_away(v.model()),
    decreases v,
{
    proof {
        lemma_value_views(v);
    }
    match v {
        JsonValue::Null => (JsonValue::Null, true),
        JsonValue::Str(s) => (JsonValue::Str(s.clone()), s.as_str().is_empty()),
        JsonValue::Array(a) => {
            let ghost am = arr_view(a@);
            let mut out: Vec<JsonValue> = Vec::new();
            let mut all = true;
            let mut i: usize = 0;
            while i < a.len()
                invariant
                    i <= a.len(),
                    *v == JsonValue::Array(*a),
                    am == arr_view(a@),
                    arr_view(out@) == kept_items(am, i as int),
                    all == items_prune_away(am, i as int),
                decreases a.len() - i,
            {
                proof {
                    assert(decreases_to!(*v => v->Array_0));
                    assert(decreases_to!(*a => a@));
                    assert(decreases_to!(a@ => a@[i as int]));
                }
                let (c, gone) = pruned(&a[i]);
                if !gone {
                    proof {
                        lemma_arr_view_push(out@, c);
                    }
                    out.push(c);
                    all = false;
                }
                i = i + 1;
            }
            let r = JsonValue::Array(out);
            proof {
                lemma_value_views(&r);
                assert(v.model() == Json::Array(am));
            }
            (r, all)
        },
        JsonValue::Object(m) => {
            let ghost mm = obj_view(m@);
            let mut out: Vec<(String, JsonValue)> = Vec::new();
            let mut all = true;
            let mut i: usize = 0;
            while i < m.len()
                invariant
                    i <= m.len(),
                    *v == JsonValue::Object(*m),
                    mm == obj_view(m@),
                    obj_view(out@) == prune_entries(mm, i as int),
                    all == entries_prune_away(mm, i as int),
                decreases m.len() - i,
            {
                proof {
                    assert(decreases_to!(*v => v->Object_0));
                    assert(decreases_to!(*m => m@));
                    assert(decreases_to!(m@ => m@[i as int]));
                    assert(decreases_to!(m@[i as int] => m@[i as int].1));
                }
                let (c, gone) = pruned(&m[i].1);
                if !gone {
                    let k = m[i].0.clone();
                    proof {
                        lemma_obj_view_push(out@, k, c);
                    }
                    out.push((k, c));
                    all = false;
                }
                i = i + 1;
            }
            let r = JsonValue::Object(out);
            proof {
                lemma_value_views(&r);
                assert(v.model() == Json::Object(mm));
            }
            (r, all)
        },
        JsonValue::Bool(b) => (JsonValue::Bool(*b), false),
        JsonValue::Number(n) => (JsonValue::Number(n.clone()), false),
    }
}

/// Prunes `value` (see `prune`) and says whether it was empty once pruned.
pub fn remove_empty(value: &mut JsonValue) -> (r: bool)
    ensures
        final(value).model() == prune(old(value).model()),
        r == prunes_away(old(value).model()),
{
    let (p, gone) = pruned(value);
    *value = p;
    gone
}

} // verus!
