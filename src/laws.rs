//! Properties of the transcoders, stated over their models and proved.
use vstd::prelude::*;
use crate::forward::{
    document_json, element_obj, entries_prune_away, items_prune_away, kept_items, prune,
    prune_entries, prunes_away, collapse_ws,
};
use crate::reverse::{joined, string_items, all_strings};
use crate::forward::{attrs_obj, children_obj, text_runs, with_defaults, root_defaults};
use crate::rules::{
    attr_key, attr_rule, attr_value, child_key, is_collapse_key, is_escaped, is_known_name,
    str_array,
};
use crate::reverse::attr_name_of;
use crate::text::{ends_with, trim_suffix};
use crate::text::{collapse, is_ws, join_spaced, tokens};
use crate::tree::{
    has_key, lemma_default_found, lemma_other_key, lemma_key_index, obj_get, Json,
    XmlItem, XmlModel,
};

verus! {

proof fn lemma_items_all(a: Seq<Json>, n: int)
    requires
        0 <= n <= a.len(),
    ensures
        items_prune_away(a, n) <==> forall|j: int| 0 <= j < n ==> #[trigger] prunes_away(a[j]),
    decreases n,
{
    if n > 0 {
        lemma_items_all(a, n - 1);
        if forall|j: int| 0 <= j < n ==> #[trigger] prunes_away(a[j]) {
            assert(prunes_away(a[n - 1]));
        }
        if items_prune_away(a, n) {
            assert forall|j: int| 0 <= j < n implies #[trigger] prunes_away(a[j]) by {
                if j < n - 1 {
                }
            }
        }
    }
}

proof fn lemma_entries_all(m: Seq<(Seq<char>, Json)>, n: int)
    requires
        0 <= n <= m.len(),
    ensures
        entries_prune_away(m, n) <==> forall|j: int| 0 <= j < n ==> #[trigger] prunes_away(m[j].1),
    decreases n,
{
    if n > 0 {
        lemma_entries_all(m, n - 1);
        if forall|j: int| 0 <= j < n ==> #[trigger] prunes_away(m[j].1) {
            assert(prunes_away(m[n - 1].1));
        }
        if entries_prune_away(m, n) {
            assert forall|j: int| 0 <= j < n implies #[trigger] prunes_away(m[j].1) by {
                if j < n - 1 {
                }
            }
        }
    }
}

proof fn lemma_kept_items(a: Seq<Json>, n: int)
    requires
        0 <= n <= a.len(),
    ensures
        forall|j: int|
            0 <= j < kept_items(a, n).len() ==> !prunes_away(#[trigger] kept_items(a, n)[j]),
        kept_items(a, n).len() == 0 <==> items_prune_away(a, n),
    decreases a, n,
{
    if n > 0 {
        lemma_kept_items(a, n - 1);
        let rest = kept_items(a, n - 1);
        if !prunes_away(a[n - 1]) {
            lemma_prune_keeps_emptiness(a[n - 1]);
            assert forall|j: int|
                0 <= j < kept_items(a, n).len() implies !prunes_away(
                #[trigger] kept_items(a, n)[j],
            ) by {
                if j < rest.len() {
                    assert(kept_items(a, n)[j] == rest[j]);
                }
            }
        }
    }
}

proof fn lemma_prune_entries(m: Seq<(Seq<char>, Json)>, n: int)
    requires
        0 <= n <= m.len(),
    ensures
        forall|j: int|
            0 <= j < prune_entries(m, n).len() ==> !prunes_away(
                #[trigger] prune_entries(m, n)[j].1,
            ),
        prune_entries(m, n).len() == 0 <==> entries_prune_away(m, n),
    decreases m, n,
{
    if n > 0 {
        lemma_prune_entries(m, n - 1);
        let rest = prune_entries(m, n - 1);
        if !prunes_away(m[n - 1].1) {
            lemma_prune_keeps_emptiness(m[n - 1].1);
            assert forall|j: int|
                0 <= j < prune_entries(m, n).len() implies !prunes_away(
                #[trigger] prune_entries(m, n)[j].1,
            ) by {
                if j < rest.len() {
                    assert(prune_entries(m, n)[j] == rest[j]);
                }
            }
        }
    }
}

/// Pruning a value leaves it empty exactly where it was empty once pruned.
pub proof fn lemma_prune_keeps_emptiness(v: Json)
    ensures
        prunes_away(prune(v)) == prunes_away(v),
    decreases v, 1int,
{
    match v {
        Json::Array(a) => {
            let k = kept_items(a, a.len() as int);
            lemma_kept_items(a, a.len() as int);
            lemma_items_all(k, k.len() as int);
            if k.len() > 0 {
                assert(!prunes_away(k[0]));
            }
        },
        Json::Object(m) => {
            let p = prune_entries(m, m.len() as int);
            lemma_prune_entries(m, m.len() as int);
            lemma_entries_all(p, p.len() as int);
            if p.len() > 0 {
                assert(!prunes_away(p[0].1));
            }
        },
        _ => {},
    }
}

/// With empty values left out, the JSON form of a document is an object
/// none of whose members is empty: no null, no empty string, and no array
/// or object that holds only such values; nor is anything empty at any
/// depth inside it. Without it, the form is the
/// collapsed object itself, empty members included.
pub proof fn law_pruning(e: XmlModel)
    ensures
        document_json(e, true) is Object,
        forall|i: int|
            0 <= i < document_json(e, true)->Object_0.len() ==> !prunes_away(
                #[trigger] document_json(e, true)->Object_0[i].1,
            ),
        document_json(e, false) == collapse_ws(Json::Object(element_obj(e))),
        document_json(e, false) is Object,
        clean(document_json(e, true)),
{
    let c = collapse_ws(Json::Object(element_obj(e)));
    let m = c->Object_0;
    lemma_prune_entries(m, m.len() as int);
    law_prune_clean(c);
}

/// `p` followed by a token: the tokens of `p`, then that token.
proof fn lemma_tokens_append(p: Seq<char>, t: Seq<char>)
    requires
        p.len() == 0 || is_ws(p.last()),
        t.len() > 0,
        forall|i: int| 0 <= i < t.len() ==> !is_ws(#[trigger] t[i]),
    ensures
        tokens(p + t) == tokens(p).push(t),
    decreases t.len(),
{
    let s = p + t;
    assert(s.drop_last() =~= p + t.drop_last());
    assert(s.last() == t.last());
    if t.len() == 1 {
        assert(p + t.drop_last() =~= p);
        if s.len() >= 2 {
            assert(s[s.len() - 2] == p.last());
        }
        assert(t =~= seq![t.last()]);
    } else {
        lemma_tokens_append(p, t.drop_last());
        assert(s[s.len() - 2] == t[t.len() - 2]);
        assert(t.drop_last().push(t.last()) =~= t);
        assert(tokens(p).push(t.drop_last()).update(
            tokens(p).len() as int,
            t.drop_last().push(t.last()),
        ) =~= tokens(p).push(t));
    }
}

/// A sequence of tokens, joined with single spaces and split again, is the
/// sequence itself, where each token is non-empty and holds no whitespace.
pub proof fn law_tokens_inverse(ts: Seq<Seq<char>>)
    requires
        forall|i: int| 0 <= i < ts.len() ==> (#[trigger] ts[i]).len() > 0,
        forall|i: int, j: int| 0 <= i < ts.len() && 0 <= j < ts[i].len() ==> !is_ws(#[trigger] ts[i][j]),
    ensures
        tokens(join_spaced(ts)) == ts,
        ts.len() > 0 ==> joined(str_array(ts)) == Some(join_spaced(ts)),
    decreases ts.len(),
{
    if ts.len() == 0 {
    } else if ts.len() == 1 {
        lemma_tokens_append(Seq::empty(), ts[0]);
        assert(Seq::<char>::empty() + ts[0] =~= ts[0]);
        assert(Seq::<Seq<char>>::empty().push(ts[0]) =~= ts);
    } else {
        let init = ts.drop_last();
        law_tokens_inverse(init);
        let p = join_spaced(init) + seq![' '];
        assert(p.drop_last() =~= join_spaced(init));
        assert(tokens(p) == tokens(join_spaced(init)));
        lemma_tokens_append(p, ts.last());
        assert(init.push(ts.last()) =~= ts);
    }
    if ts.len() > 0 {
        let a = str_array(ts)->Array_0;
        assert(all_strings(a));
        assert(string_items(a) =~= ts);
    }
}

/// The lengths and distinguishing characters of the names the laws speak of.
proof fn lemma_literals()
    ensures
        "_attribute"@.len() == 10,
        "_attribute"@[0] == '_',
        "qname"@.len() == 5,
        "text"@.len() == 4,
        "attributes"@.len() == 10,
        "attributes"@[0] == 'a',
        "target"@[0] == 't',
        "children"@.len() == 8,
        "target"@.len() == 6,
        "initial"@.len() == 7,
        "initial_attribute"@.len() == 17,
        "version"@.len() == 7,
        "datamodel"@.len() == 9,
        "datamodel_attribute"@.len() == 19,
        "type"@.len() == 4,
        "type_value"@.len() == 10,
        "raise"@.len() == 5,
        "raise_value"@.len() == 11,
        "xmlns"@.len() == 5,
        "delay"@.len() == 5,
        "transition"@.len() == 10,
        "scxml"@.len() == 5,
        "assign"@.len() == 6,
        "send"@.len() == 4,
        "content"@.len() == 7,
        "if"@.len() == 2,
        "else"@.len() == 4,
        "if_value"@.len() == 8,
        "else_value"@.len() == 10,
        "type_value"@[1] == 'y' && "transition"@[1] == 'r',
        "else_value"@[0] == 'e' && "transition"@[0] == 't',
        "state"@.len() == 5,
        "parallel"@.len() == 8,
        "final"@.len() == 5,
        "history"@.len() == 7,
        "invoke"@.len() == 6,
        "finalize"@.len() == 8,
        "data"@.len() == 4,
        "onentry"@.len() == 7,
        "onexit"@.len() == 6,
        "log"@.len() == 3,
        "cancel"@.len() == 6,
        "script"@.len() == 6,
        "foreach"@.len() == 7,
        "param"@.len() == 5,
        "elseif"@.len() == 6,
        "donedata"@.len() == 8,
        "type_value"@[0] == 't',
        "scxml"@[0] == 's',
        "state"@[0] == 's',
        "parallel"@[0] == 'p',
        "final"@[0] == 'f',
        "history"@[0] == 'h',
        "transition"@[0] == 't',
        "invoke"@[0] == 'i',
        "finalize"@[0] == 'f',
        "datamodel"@[0] == 'd',
        "data"@[0] == 'd',
        "onentry"@[0] == 'o',
        "onexit"@[0] == 'o',
        "log"@[0] == 'l',
        "send"@[0] == 's',
        "cancel"@[0] == 'c',
        "raise"@[0] == 'r',
        "assign"@[0] == 'a',
        "script"@[0] == 's',
        "foreach"@[0] == 'f',
        "param"@[0] == 'p',
        "if"@[0] == 'i',
        "elseif"@[0] == 'e',
        "else"@[0] == 'e',
        "content"@[0] == 'c',
        "donedata"@[0] == 'd',
        "initial"@[0] == 'i',
        "if_value"@[0] == 'i',
        "else_value"@[0] == 'e',
        "type_value"@[0] == 't',
        "delay"@[0] == 'd',
        "version"@[0] == 'v',
        "elseif"@[4] == 'i',
        "onentry"@[2] == 'e',
        "onexit"@[2] == 'e',
        "state"@[1] == 't',
        "scxml"@[1] == 'c',
        "send"@[1] == 'e',
        "script"@[1] == 'c',
        "data"@[1] == 'a',
        "datamodel"@[1] == 'a',
        "donedata"@[1] == 'o',
{
    reveal_strlit("_attribute");
    reveal_strlit("qname");
    reveal_strlit("text");
    reveal_strlit("attributes");
    reveal_strlit("children");
    reveal_strlit("assign");
    reveal_strlit("cancel");
    reveal_strlit("content");
    reveal_strlit("data");
    reveal_strlit("datamodel");
    reveal_strlit("datamodel_attribute");
    reveal_strlit("delay");
    reveal_strlit("donedata");
    reveal_strlit("else");
    reveal_strlit("else_value");
    reveal_strlit("elseif");
    reveal_strlit("final");
    reveal_strlit("finalize");
    reveal_strlit("foreach");
    reveal_strlit("history");
    reveal_strlit("if");
    reveal_strlit("if_value");
    reveal_strlit("initial");
    reveal_strlit("initial_attribute");
    reveal_strlit("invoke");
    reveal_strlit("log");
    reveal_strlit("onentry");
    reveal_strlit("onexit");
    reveal_strlit("parallel");
    reveal_strlit("param");
    reveal_strlit("raise");
    reveal_strlit("raise_value");
    reveal_strlit("script");
    reveal_strlit("scxml");
    reveal_strlit("send");
    reveal_strlit("state");
    reveal_strlit("target");
    reveal_strlit("transition");
    reveal_strlit("type");
    reveal_strlit("type_value");
    reveal_strlit("version");
    reveal_strlit("xmlns");
}

/// Whether the rule table carries attribute `k` to key `key`.
pub open spec fn rule_gives(elem: Seq<char>, k: Seq<char>, v: Seq<char>, key: Seq<char>) -> bool {
    match attr_rule(elem, k, v) {
        Some(p) => p.0 == key,
        None => false,
    }
}

proof fn lemma_attrs_lack(
    elem: Seq<char>,
    attrs: Seq<(Seq<char>, Seq<char>)>,
    n: int,
    key: Seq<char>,
)
    requires
        forall|i: int|
            0 <= i < attrs.len() ==> !rule_gives(elem, #[trigger] attrs[i].0, attrs[i].1, key),
    ensures
        !has_key(attrs_obj(elem, attrs, n), key),
    decreases n,
{
    if n > 0 && n <= attrs.len() {
        lemma_attrs_lack(elem, attrs, n - 1, key);
        let m = attrs_obj(elem, attrs, n - 1);
        assert(!rule_gives(elem, attrs[n - 1].0, attrs[n - 1].1, key));
        match attr_rule(elem, attrs[n - 1].0, attrs[n - 1].1) {
            Some((k2, v)) => lemma_other_key(m, k2, v, key),
            None => {},
        }
    }
}


/// A bare assignment, with no children and no `type` attribute, gets the
/// mode "replacechildren".
pub proof fn law_assign_default(e: XmlModel)
    requires
        e.name == "assign"@,
        e.children.len() == 0,
        forall|i: int|
            0 <= i < e.attrs.len() ==> (#[trigger] e.attrs[i]).0 != "type"@ && e.attrs[i].0
                != "type_value"@,
    ensures
        obj_get(element_obj(e), "type_value"@) == Some(Json::Str("replacechildren"@)),
{
    lemma_literals();
    assert forall|i: int| 0 <= i < e.attrs.len() implies !rule_gives(
        e.name,
        #[trigger] e.attrs[i].0,
        e.attrs[i].1,
        "type_value"@,
    ) by {
        assert(e.attrs[i].0 != "type"@);
    }
    let m = attrs_obj(e.name, e.attrs, e.attrs.len() as int);
    lemma_attrs_lack(e.name, e.attrs, e.attrs.len() as int, "type_value"@);
    lemma_default_found(m, "type_value"@, Json::Str("replacechildren"@));
}

/// A bare send, with no children and no `type` or `delay` attribute, is
/// sent to a state-chart processor at once: type "scxml", delay "0s".
pub proof fn law_send_defaults(e: XmlModel)
    requires
        e.name == "send"@,
        e.children.len() == 0,
        forall|i: int|
            0 <= i < e.attrs.len() ==> (#[trigger] e.attrs[i]).0 != "type"@ && e.attrs[i].0
                != "type_value"@ && e.attrs[i].0 != "delay"@,
    ensures
        obj_get(element_obj(e), "type_value"@) == Some(Json::Str("scxml"@)),
        obj_get(element_obj(e), "delay"@) == Some(Json::Str("0s"@)),
{
    lemma_literals();
    assert forall|i: int| 0 <= i < e.attrs.len() implies !rule_gives(
        e.name,
        #[trigger] e.attrs[i].0,
        e.attrs[i].1,
        "type_value"@,
    ) && !rule_gives(e.name, e.attrs[i].0, e.attrs[i].1, "delay"@) by {
        assert(e.attrs[i].0 != "type"@);
    }
    let m = attrs_obj(e.name, e.attrs, e.attrs.len() as int);
    lemma_attrs_lack(e.name, e.attrs, e.attrs.len() as int, "type_value"@);
    lemma_attrs_lack(e.name, e.attrs, e.attrs.len() as int, "delay"@);
    let m1 = crate::tree::obj_default(m, "type_value"@, Json::Str("scxml"@));
    lemma_default_found(m, "type_value"@, Json::Str("scxml"@));
    lemma_other_key(m, "type_value"@, Json::Str("scxml"@), "delay"@);
    lemma_default_found(m1, "delay"@, Json::Str("0s"@));
    lemma_other_key(m1, "delay"@, Json::Str("0s"@), "type_value"@);
}

/// A bare document root, with no children and no `version` or data model
/// attribute, gets version 1.0 and the null data model.
pub proof fn law_root_defaults(e: XmlModel)
    requires
        e.name == "scxml"@,
        e.children.len() == 0,
        forall|i: int|
            0 <= i < e.attrs.len() ==> (#[trigger] e.attrs[i]).0 != "version"@ && e.attrs[i].0
                != "datamodel"@ && e.attrs[i].0 != "datamodel_attribute"@,
    ensures
        obj_get(element_obj(e), "version"@) == Some(Json::Number("1.0"@)),
        obj_get(element_obj(e), "datamodel_attribute"@) == Some(Json::Str("null"@)),
{
    lemma_literals();
    assert forall|i: int| 0 <= i < e.attrs.len() implies !rule_gives(
        e.name,
        #[trigger] e.attrs[i].0,
        e.attrs[i].1,
        "version"@,
    ) && !rule_gives(e.name, e.attrs[i].0, e.attrs[i].1, "datamodel_attribute"@) by {
        assert(e.attrs[i].0 != "version"@);
    }
    let m = attrs_obj(e.name, e.attrs, e.attrs.len() as int);
    lemma_attrs_lack(e.name, e.attrs, e.attrs.len() as int, "version"@);
    lemma_attrs_lack(e.name, e.attrs, e.attrs.len() as int, "datamodel_attribute"@);
    let m1 = crate::tree::obj_default(m, "version"@, Json::Number("1.0"@));
    lemma_default_found(m, "version"@, Json::Number("1.0"@));
    lemma_other_key(m, "version"@, Json::Number("1.0"@), "datamodel_attribute"@);
    lemma_default_found(m1, "datamodel_attribute"@, Json::Str("null"@));
    lemma_other_key(m1, "datamodel_attribute"@, Json::Str("null"@), "version"@);
}

/// How many of the first `n` items of `cs` are elements named `name`.
pub open spec fn count_named(cs: Seq<XmlItem>, n: int, name: Seq<char>) -> nat
    decreases n,
{
    if n <= 0 || n > cs.len() {
        0
    } else {
        count_named(cs, n - 1, name) + if cs[n - 1] matches XmlItem::Element(c) && c.name
            == name {
            1nat
        } else {
            0nat
        }
    }
}

proof fn lemma_text_runs_other(m: Seq<(Seq<char>, Json)>, cs: Seq<XmlItem>, n: int, k: Seq<char>)
    requires
        k != "content"@,
    ensures
        obj_get(text_runs(m, cs, n), k) == obj_get(m, k),
        has_key(text_runs(m, cs, n), k) == has_key(m, k),
    decreases n,
{
    if n > 0 && n <= cs.len() {
        lemma_text_runs_other(m, cs, n - 1, k);
        match cs[n - 1] {
            XmlItem::Text(t) => lemma_other_key(text_runs(m, cs, n - 1), "content"@, Json::Str(t), k),
            _ => {},
        }
    }
}

/// The objects of the children named `t` among the first `n` of `cs`, in
/// document order.
pub open spec fn named_objs(cs: Seq<XmlItem>, n: int, t: Seq<char>) -> Seq<Json>
    decreases n,
{
    if n <= 0 || n > cs.len() {
        Seq::empty()
    } else {
        let rest = named_objs(cs, n - 1, t);
        match cs[n - 1] {
            XmlItem::Element(c) => if c.name == t {
                rest.push(Json::Object(element_obj(c)))
            } else {
                rest
            },
            _ => rest,
        }
    }
}

proof fn lemma_named_len(cs: Seq<XmlItem>, n: int, t: Seq<char>)
    ensures
        named_objs(cs, n, t).len() == count_named(cs, n, t),
    decreases n,
{
    if n > 0 && n <= cs.len() {
        lemma_named_len(cs, n - 1, t);
    }
}

proof fn lemma_children_fold(
    parent: Seq<char>,
    m: Seq<(Seq<char>, Json)>,
    cs: Seq<XmlItem>,
    n: int,
    t: Seq<char>,
    key: Seq<char>,
)
    requires
        0 <= n <= cs.len(),
        !has_key(m, key),
        key != "content"@,
        is_known_name(t),
        forall|c: Seq<char>| #[trigger] is_known_name(c) ==> (child_key(parent, c) == key <==> c == t),
    ensures
        count_named(cs, n, t) == 0 ==> !has_key(children_obj(parent, m, cs, n), key),
        count_named(cs, n, t) > 0 ==> (obj_get(children_obj(parent, m, cs, n), key) matches Some(
            Json::Array(a),
        ) && a.len() == count_named(cs, n, t) && forall|j: int|
            0 <= j < a.len() ==> #[trigger] a[j] is Object),
        count_named(cs, n, t) > 0 ==> obj_get(children_obj(parent, m, cs, n), key) == Some(
            Json::Array(named_objs(cs, n, t)),
        ),
        named_objs(cs, n, t).len() == count_named(cs, n, t),
    decreases n,
{
    if n > 0 {
        lemma_children_fold(parent, m, cs, n - 1, t, key);
        let r1 = children_obj(parent, m, cs, n - 1);
        lemma_key_index(r1, key);
        match cs[n - 1] {
            XmlItem::Element(c) => {
                let k2 = if is_known_name(c.name) {
                    child_key(parent, c.name)
                } else {
                    "content"@
                };
                let val = if is_known_name(c.name) {
                    Json::Object(element_obj(c))
                } else {
                    crate::forward::foreign_value(c)
                };
                assert(children_obj(parent, m, cs, n) == crate::tree::obj_append(r1, k2, val));
                if c.name == t {
                    assert(k2 == key);
                    crate::tree::lemma_append_found(r1, key, val);
                    let a = obj_get(children_obj(parent, m, cs, n), key)->0->Array_0;
                    if count_named(cs, n - 1, t) > 0 {
                        let a0 = obj_get(r1, key)->0->Array_0;
                        assert(a == a0.push(val));
                        assert forall|j: int| 0 <= j < a.len() implies #[trigger] a[j] is Object by {
                            if j < a0.len() {
                                assert(a[j] == a0[j]);
                            }
                        }
                    } else {
                        assert(named_objs(cs, n - 1, t) =~= Seq::<Json>::empty());
                        assert(a == seq![val]);
                        assert(named_objs(cs, n, t) =~= seq![val]);
                    }
                } else {
                    assert(k2 != key);
                    lemma_other_key(r1, k2, val, key);
                }
            },
            _ => {},
        }
    }
}

/// The known children named `t` of element `e` are collected under `key`
/// (one array entry each, each an object), where nothing else of `e` goes
/// to that key.
proof fn lemma_collected(e: XmlModel, t: Seq<char>, key: Seq<char>)
    requires
        forall|i: int|
            0 <= i < e.attrs.len() ==> !rule_gives(e.name, #[trigger] e.attrs[i].0, e.attrs[i].1, key),
        key != "content"@,
        key != "type_value"@,
        key != "delay"@,
        key != "version"@,
        key != "datamodel_attribute"@,
        is_known_name(t),
        forall|c: Seq<char>| #[trigger] is_known_name(c) ==> (child_key(e.name, c) == key <==> c == t),
    ensures
        count_named(e.children, e.children.len() as int, t) == 0 ==> obj_get(element_obj(e), key) is None,
        count_named(e.children, e.children.len() as int, t) > 0 ==> (obj_get(
            element_obj(e),
            key,
        ) matches Some(Json::Array(a)) && a.len() == count_named(
            e.children,
            e.children.len() as int,
            t,
        ) && forall|j: int| 0 <= j < a.len() ==> #[trigger] a[j] is Object),
        count_named(e.children, e.children.len() as int, t) > 0 ==> obj_get(element_obj(e), key)
            == Some(Json::Array(named_objs(e.children, e.children.len() as int, t))),
{
    let ma = attrs_obj(e.name, e.attrs, e.attrs.len() as int);
    lemma_attrs_lack(e.name, e.attrs, e.attrs.len() as int, key);
    let m0 = with_defaults(e.name, ma);
    lemma_other_key(ma, "type_value"@, Json::Str("replacechildren"@), key);
    lemma_other_key(ma, "type_value"@, Json::Str("scxml"@), key);
    lemma_other_key(
        crate::tree::obj_default(ma, "type_value"@, Json::Str("scxml"@)),
        "delay"@,
        Json::Str("0s"@),
        key,
    );
    assert(!has_key(m0, key));
    let n = e.children.len() as int;
    lemma_children_fold(e.name, m0, e.children, n, t, key);
    let m1 = children_obj(e.name, m0, e.children, n);
    lemma_text_runs_other(m1, e.children, n, key);
    let m2 = text_runs(m1, e.children, n);
    lemma_other_key(m2, "version"@, Json::Number("1.0"@), key);
    lemma_other_key(
        crate::tree::obj_default(m2, "version"@, Json::Number("1.0"@)),
        "datamodel_attribute"@,
        Json::Str("null"@),
        key,
    );
    assert(obj_get(root_defaults(e.name, m2), key) == obj_get(m2, key));
}

/// Transition children are always collected in an array of objects, one
/// entry each, in document order: one transition gives an array of one, two
/// give an array of two, and none gives no key.
pub proof fn law_transitions_array(e: XmlModel)
    ensures
        count_named(e.children, e.children.len() as int, "transition"@) == 0 ==> obj_get(
            element_obj(e),
            "transition"@,
        ) is None,
        count_named(e.children, e.children.len() as int, "transition"@) > 0 ==> obj_get(
            element_obj(e),
            "transition"@,
        ) == Some(Json::Array(named_objs(e.children, e.children.len() as int, "transition"@))),
        named_objs(e.children, e.children.len() as int, "transition"@).len() == count_named(
            e.children,
            e.children.len() as int,
            "transition"@,
        ),
{
    lemma_literals();
    law_repeated_children(e, "transition"@);
    lemma_named_len(e.children, e.children.len() as int, "transition"@);
}

/// An `else` child of a conditional is collected under the renamed key
/// "else_value", in an array with one object per branch in document order,
/// present even when the branch is empty.
pub proof fn law_else_renamed(e: XmlModel)
    ensures
        count_named(e.children, e.children.len() as int, "else"@) == 0 ==> obj_get(
            element_obj(e),
            "else_value"@,
        ) is None,
        count_named(e.children, e.children.len() as int, "else"@) > 0 ==> obj_get(
            element_obj(e),
            "else_value"@,
        ) == Some(Json::Array(named_objs(e.children, e.children.len() as int, "else"@))),
        named_objs(e.children, e.children.len() as int, "else"@).len() == count_named(
            e.children,
            e.children.len() as int,
            "else"@,
        ),
{
    lemma_literals();
    law_repeated_children(e, "else"@);
    lemma_named_len(e.children, e.children.len() as int, "else"@);
}

/// Every known child element other than a nested document or a payload is
/// collected under its key (its name, or the renamed key of `if` and
/// `else`) in an array of objects with one entry per child: one child
/// gives an array of one, never a bare object, and none gives no key. An
/// attribute that the rule table carries to the same key would share it,
/// so none is allowed.
pub proof fn law_repeated_children(e: XmlModel, t: Seq<char>)
    requires
        is_known_name(t),
        t != "scxml"@,
        t != "content"@,
        e.name == "scxml"@ && t == "initial"@ ==> forall|i: int|
            0 <= i < e.attrs.len() ==> (#[trigger] e.attrs[i]).0 != "initial"@,
    ensures
        count_named(e.children, e.children.len() as int, t) == 0 ==> obj_get(
            element_obj(e),
            crate::rules::renamed(t),
        ) is None,
        count_named(e.children, e.children.len() as int, t) > 0 ==> (obj_get(
            element_obj(e),
            crate::rules::renamed(t),
        ) matches Some(Json::Array(a)) && a.len() == count_named(
            e.children,
            e.children.len() as int,
            t,
        ) && forall|j: int| 0 <= j < a.len() ==> #[trigger] a[j] is Object),
        count_named(e.children, e.children.len() as int, t) > 0 ==> obj_get(
            element_obj(e),
            crate::rules::renamed(t),
        ) == Some(Json::Array(named_objs(e.children, e.children.len() as int, t))),
{
    lemma_literals();
    let key = crate::rules::renamed(t);
    assert forall|i: int| 0 <= i < e.attrs.len() implies !rule_gives(
        e.name,
        #[trigger] e.attrs[i].0,
        e.attrs[i].1,
        key,
    ) by {
        let k = e.attrs[i].0;
        if k != "xmlns"@ {
            lemma_key_not_structural(e.name, k);
        }
    }
    assert(!is_known_name("if_value"@));
    assert(!is_known_name("else_value"@));
    assert(key != "content"@ && key != "type_value"@ && key != "delay"@ && key != "version"@
        && key != "datamodel_attribute"@);
    assert forall|c: Seq<char>| #[trigger] is_known_name(c) implies (child_key(e.name, c) == key
        <==> c == t) by {
        if c == "if"@ || c == "else"@ {
        }
    }
    lemma_collected(e, t, key);
}

/// Whether no array element and no object member inside `v`, at any
/// depth, is empty once pruned.
pub open spec fn clean(v: Json) -> bool
    decreases v, 1int,
{
    match v {
        Json::Array(a) => items_clean(a, a.len() as int),
        Json::Object(m) => entries_clean(m, m.len() as int),
        _ => true,
    }
}

pub open spec fn items_clean(a: Seq<Json>, n: int) -> bool
    decreases a, n,
{
    if n <= 0 || n > a.len() {
        true
    } else {
        items_clean(a, n - 1) && !prunes_away(a[n - 1]) && clean(a[n - 1])
    }
}

pub open spec fn entries_clean(m: Seq<(Seq<char>, Json)>, n: int) -> bool
    decreases m, n,
{
    if n <= 0 || n > m.len() {
        true
    } else {
        entries_clean(m, n - 1) && !prunes_away(m[n - 1].1) && clean(m[n - 1].1)
    }
}

proof fn lemma_items_clean_prefix(a: Seq<Json>, x: Json, n: int)
    requires
        0 <= n <= a.len(),
    ensures
        items_clean(a.push(x), n) == items_clean(a, n),
    decreases n,
{
    if n > 0 {
        lemma_items_clean_prefix(a, x, n - 1);
        assert(a.push(x)[n - 1] == a[n - 1]);
    }
}

proof fn lemma_entries_clean_prefix(m: Seq<(Seq<char>, Json)>, p: (Seq<char>, Json), n: int)
    requires
        0 <= n <= m.len(),
    ensures
        entries_clean(m.push(p), n) == entries_clean(m, n),
    decreases n,
{
    if n > 0 {
        lemma_entries_clean_prefix(m, p, n - 1);
        assert(m.push(p)[n - 1] == m[n - 1]);
    }
}

proof fn lemma_kept_clean(a: Seq<Json>, n: int)
    requires
        0 <= n <= a.len(),
    ensures
        items_clean(kept_items(a, n), kept_items(a, n).len() as int),
    decreases a, n,
{
    if n > 0 {
        lemma_kept_clean(a, n - 1);
        let k = kept_items(a, n - 1);
        if !prunes_away(a[n - 1]) {
            let x = prune(a[n - 1]);
            lemma_items_clean_prefix(k, x, k.len() as int);
            lemma_prune_keeps_emptiness(a[n - 1]);
            law_prune_clean(a[n - 1]);
            assert(k.push(x)[k.len() as int] == x);
        }
    }
}

proof fn lemma_entries_clean(m: Seq<(Seq<char>, Json)>, n: int)
    requires
        0 <= n <= m.len(),
    ensures
        entries_clean(prune_entries(m, n), prune_entries(m, n).len() as int),
    decreases m, n,
{
    if n > 0 {
        lemma_entries_clean(m, n - 1);
        let pe = prune_entries(m, n - 1);
        if !prunes_away(m[n - 1].1) {
            let p = (m[n - 1].0, prune(m[n - 1].1));
            lemma_entries_clean_prefix(pe, p, pe.len() as int);
            lemma_prune_keeps_emptiness(m[n - 1].1);
            law_prune_clean(m[n - 1].1);
            assert(pe.push(p)[pe.len() as int] == p);
        }
    }
}

/// A pruned value holds nothing empty at any depth: every array element
/// and every object member inside it, however deep, is neither null, nor
/// the empty string, nor an array or object of only such values.
pub proof fn law_prune_clean(v: Json)
    ensures
        clean(prune(v)),
    decreases v, 2int,
{
    match v {
        Json::Array(a) => lemma_kept_clean(a, a.len() as int),
        Json::Object(m) => lemma_entries_clean(m, m.len() as int),
        _ => {},
    }
}

proof fn lemma_suffixed(k: Seq<char>)
    ensures
        ends_with(k + "_attribute"@, "_attribute"@),
        trim_suffix(k + "_attribute"@, "_attribute"@) == k,
        (k + "_attribute"@).len() == k.len() + 10,
        (k + "_attribute"@)[k.len() as int] == '_',
{
    lemma_literals();
    let x = k + "_attribute"@;
    assert(x.subrange(x.len() - 10, x.len() as int) =~= "_attribute"@);
    assert(x.subrange(0, x.len() - 10) =~= k);
}

/// The reverse direction's attribute name for the key that the rule table
/// gives an attribute is that attribute's own name: no two attributes of an
/// element share a key, and each name can be read back from its key.
pub proof fn law_attr_name_recovered(elem: Seq<char>, k: Seq<char>)
    requires
        k != "xmlns"@,
    ensures
        attr_name_of(attr_key(elem, k)) == k,
{
    lemma_literals();
    reveal_strlit("initial_attribute");
    reveal_strlit("datamodel_attribute");
    reveal_strlit("raise_value");
    reveal_strlit("_attribute");
    reveal_strlit("initial");
    reveal_strlit("datamodel");
    let key = attr_key(elem, k);
    if elem == "transition"@ && k == "target"@ {
    } else if k == "initial"@ {
        if elem != "scxml"@ {
            assert("initial_attribute"@.subrange(7, 17) =~= "_attribute"@);
            assert("initial_attribute"@.subrange(0, 7) =~= "initial"@);
        }
    } else if k == "version"@ {
    } else if k == "datamodel"@ {
        assert("datamodel_attribute"@.subrange(9, 19) =~= "_attribute"@);
        assert("datamodel_attribute"@.subrange(0, 9) =~= "datamodel"@);
    } else if k == "type"@ {
        assert(!ends_with("type_value"@, "_attribute"@)) by {
            assert("type_value"@.subrange(0, 10)[0] != "_attribute"@[0]);
        }
    } else if k == "raise"@ {
        assert(!ends_with("raise_value"@, "_attribute"@)) by {
            assert("raise_value"@.subrange(1, 11)[0] != "_attribute"@[0]);
        }
    } else if is_escaped(k) {
        lemma_suffixed(k);
    }
}

proof fn lemma_attrs_found(
    elem: Seq<char>,
    attrs: Seq<(Seq<char>, Seq<char>)>,
    n: int,
    i: int,
)
    requires
        0 <= i < n <= attrs.len(),
        attrs[i].0 != "xmlns"@,
        forall|p: int, q: int|
            0 <= p < attrs.len() && 0 <= q < attrs.len() && p != q ==> #[trigger] attrs[p].0
                != #[trigger] attrs[q].0,
    ensures
        obj_get(attrs_obj(elem, attrs, n), attr_key(elem, attrs[i].0)) == Some(
            attr_value(elem, attrs[i].0, attrs[i].1),
        ),
    decreases n,
{
    let m = attrs_obj(elem, attrs, n - 1);
    let key = attr_key(elem, attrs[i].0);
    if i == n - 1 {
        crate::tree::lemma_insert_found(m, key, attr_value(elem, attrs[i].0, attrs[i].1));
    } else {
        lemma_attrs_found(elem, attrs, n - 1, i);
        let k2 = attrs[n - 1].0;
        if k2 != "xmlns"@ {
            law_attr_name_recovered(elem, k2);
            law_attr_name_recovered(elem, attrs[i].0);
            assert(attr_key(elem, k2) != key);
            lemma_other_key(m, attr_key(elem, k2), attr_value(elem, k2, attrs[n - 1].1), key);
        }
    }
}

/// Whether `item`, where it is a known child element, goes to a key other
/// than `k`.
pub open spec fn keyed_apart(parent: Seq<char>, item: XmlItem, k: Seq<char>) -> bool {
    match item {
        XmlItem::Element(c) => is_known_name(c.name) ==> child_key(parent, c.name) != k,
        _ => true,
    }
}

proof fn lemma_children_keep(
    parent: Seq<char>,
    m: Seq<(Seq<char>, Json)>,
    cs: Seq<XmlItem>,
    n: int,
    k: Seq<char>,
)
    requires
        0 <= n <= cs.len(),
        k != "content"@,
        forall|i: int| 0 <= i < cs.len() ==> keyed_apart(parent, #[trigger] cs[i], k),
    ensures
        obj_get(children_obj(parent, m, cs, n), k) == obj_get(m, k),
    decreases n,
{
    if n > 0 {
        lemma_children_keep(parent, m, cs, n - 1, k);
        let r1 = children_obj(parent, m, cs, n - 1);
        match cs[n - 1] {
            XmlItem::Element(c) => {
                if is_known_name(c.name) {
                    lemma_other_key(r1, child_key(parent, c.name), Json::Object(element_obj(c)), k);
                } else {
                    lemma_other_key(r1, "content"@, crate::forward::foreign_value(c), k);
                }
            },
            _ => {},
        }
    }
}

proof fn lemma_key_not_structural(elem: Seq<char>, k: Seq<char>)
    requires
        k != "xmlns"@,
    ensures
        attr_key(elem, k) != "content"@,
        attr_key(elem, k) != "if_value"@,
        attr_key(elem, k) != "else_value"@,
        is_known_name(attr_key(elem, k)) ==> attr_key(elem, k) == "initial"@ && elem == "scxml"@,
{
    lemma_literals();
    if !(elem == "transition"@ && k == "target"@) && k != "initial"@ && k != "version"@ && k
        != "datamodel"@ && k != "type"@ && k != "raise"@ && is_escaped(k) {
        lemma_suffixed(k);
    }
}

/// No attribute is dropped: every attribute of an element but the namespace
/// declaration is found in the element's object under the key that the rule
/// table gives it, with the value the rule table gives it, whatever the
/// element's other attributes and children. Attribute names are unique, as
/// in any well-formed document; a root's `initial` attribute and an
/// `initial` child would share the key "initial", so a root with both is
/// left out.
pub proof fn law_attributes_kept(e: XmlModel)
    requires
        forall|p: int, q: int|
            0 <= p < e.attrs.len() && 0 <= q < e.attrs.len() && p != q ==> #[trigger] e.attrs[p].0
                != #[trigger] e.attrs[q].0,
        e.name == "scxml"@ ==> forall|i: int|
            0 <= i < e.children.len() ==> !(#[trigger] e.children[i] matches XmlItem::Element(c)
                && c.name == "initial"@),
    ensures
        forall|i: int|
            0 <= i < e.attrs.len() && (#[trigger] e.attrs[i]).0 != "xmlns"@ ==> obj_get(
                element_obj(e),
                attr_key(e.name, e.attrs[i].0),
            ) == Some(attr_value(e.name, e.attrs[i].0, e.attrs[i].1)),
{
    lemma_literals();
    assert forall|i: int|
        0 <= i < e.attrs.len() && (#[trigger] e.attrs[i]).0 != "xmlns"@ implies obj_get(
            element_obj(e),
            attr_key(e.name, e.attrs[i].0),
        ) == Some(attr_value(e.name, e.attrs[i].0, e.attrs[i].1)) by {
        let k = e.attrs[i].0;
        let key = attr_key(e.name, k);
        let n = e.attrs.len() as int;
        let ma = attrs_obj(e.name, e.attrs, n);
        lemma_attrs_found(e.name, e.attrs, n, i);
        crate::tree::lemma_default_keeps(ma, "type_value"@, Json::Str("replacechildren"@), key);
        crate::tree::lemma_default_keeps(ma, "type_value"@, Json::Str("scxml"@), key);
        let ms = crate::tree::obj_default(ma, "type_value"@, Json::Str("scxml"@));
        crate::tree::lemma_default_keeps(ms, "delay"@, Json::Str("0s"@), key);
        let m0 = with_defaults(e.name, ma);
        lemma_key_not_structural(e.name, k);
        assert forall|j: int| 0 <= j < e.children.len() implies keyed_apart(
            e.name,
            #[trigger] e.children[j],
            key,
        ) by {
            match e.children[j] {
                XmlItem::Element(c) => {
                    if is_known_name(c.name) && child_key(e.name, c.name) == key {
                        if c.name == "if"@ || c.name == "else"@ {
                        } else if c.name == "scxml"@ && e.name != "scxml"@ {
                        } else {
                            assert(child_key(e.name, c.name) == c.name);
                        }
                    }
                },
                _ => {},
            }
        }
        let cn = e.children.len() as int;
        lemma_children_keep(e.name, m0, e.children, cn, key);
        let m1 = children_obj(e.name, m0, e.children, cn);
        lemma_text_runs_other(m1, e.children, cn, key);
        let m2 = text_runs(m1, e.children, cn);
        crate::tree::lemma_default_keeps(m2, "version"@, Json::Number("1.0"@), key);
        let mv = crate::tree::obj_default(m2, "version"@, Json::Number("1.0"@));
        crate::tree::lemma_default_keeps(mv, "datamodel_attribute"@, Json::Str("null"@), key);
    }
}

} // verus!
