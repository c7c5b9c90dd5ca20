//! The two tree forms of a document: an XML element tree and a JSON value
//! tree, each with the mathematical model its contracts speak of, and the
//! object operations (lookup, insert, append) the transcoders are built on.
use vstd::prelude::*;

verus! {

/// A JSON value as the contracts see it. An object is a sequence of
/// key/value pairs whose keys are looked up from the back (see `key_index`).
pub enum Json {
    Null,
    Bool(bool),
    Number(Seq<char>),
    Str(Seq<char>),
    Array(Seq<Json>),
    Object(Seq<(Seq<char>, Json)>),
}

/// A JSON value. A number is held as its decimal text.
#[derive(Debug)]
pub enum JsonValue {
    Null,
    Bool(bool),
    Number(String),
    Str(String),
    Array(Vec<JsonValue>),
    Object(Vec<(String, JsonValue)>),
}

/// An XML element as the contracts see it.
pub struct XmlModel {
    pub name: Seq<char>,
    pub attrs: Seq<(Seq<char>, Seq<char>)>,
    pub children: Seq<XmlItem>,
}

/// A child of an XML element as the contracts see it.
pub enum XmlItem {
    Element(XmlModel),
    Text(Seq<char>),
    CData(Seq<char>),
    Comment(Seq<char>),
    Instruction(Seq<char>, Option<Seq<char>>),
}

/// An XML element: a tag name, attributes in order, and children in order.
#[derive(Debug)]
pub struct XmlElement {
    pub name: String,
    pub attributes: Vec<(String, String)>,
    pub children: Vec<XmlNode>,
}

/// A child of an XML element.
#[derive(Debug)]
pub enum XmlNode {
    Element(XmlElement),
    Text(String),
    CData(String),
    Comment(String),
    Instruction(String, Option<String>),
}

impl JsonValue {
    pub open spec fn model(&self) -> Json
        decreases self,
    {
        match self {
            JsonValue::Null => Json::Null,
            JsonValue::Bool(b) => Json::Bool(*b),
            JsonValue::Number(n) => Json::Number(n@),
            JsonValue::Str(s) => Json::Str(s@),
            JsonValue::Array(a) => Json::Array(
                Seq::new(
                    a.len() as nat,
                    |i: int|
                        if 0 <= i < a.len() {
                            a@[i].model()
                        } else {
                            Json::Null
                        },
                ),
            ),
            JsonValue::Object(m) => Json::Object(
                Seq::new(
                    m.len() as nat,
                    |i: int|
                        if 0 <= i < m.len() {
                            (m@[i].0@, m@[i].1.model())
                        } else {
                            (Seq::empty(), Json::Null)
                        },
                ),
            ),
        }
    }
}

impl XmlElement {
    pub open spec fn model(&self) -> XmlModel
        decreases self,
    {
        XmlModel {
            name: self.name@,
            attrs: attrs_view(self.attributes@),
            children: Seq::new(
                self.children.len() as nat,
                |i: int|
                    if 0 <= i < self.children.len() {
                        self.children@[i].model()
                    } else {
                        XmlItem::Comment(Seq::empty())
                    },
            ),
        }
    }
}

impl XmlNode {
    pub open spec fn model(&self) -> XmlItem
        decreases self,
    {
        match self {
            XmlNode::Element(e) => XmlItem::Element(e.model()),
            XmlNode::Text(t) => XmlItem::Text(t@),
            XmlNode::CData(t) => XmlItem::CData(t@),
            XmlNode::Comment(t) => XmlItem::Comment(t@),
            XmlNode::Instruction(n, d) => XmlItem::Instruction(
                n@,
                match d {
                    Some(s) => Some(s@),
                    None => None,
                },
            ),
        }
    }
}

pub open spec fn attrs_view(a: Seq<(String, String)>) -> Seq<(Seq<char>, Seq<char>)> {
    Seq::new(a.len(), |i: int| (a[i].0@, a[i].1@))
}

pub open spec fn arr_view(a: Seq<JsonValue>) -> Seq<Json> {
    Seq::new(a.len(), |i: int| a[i].model())
}

pub open spec fn obj_view(m: Seq<(String, JsonValue)>) -> Seq<(Seq<char>, Json)> {
    Seq::new(m.len(), |i: int| (m[i].0@, m[i].1.model()))
}

pub open spec fn nodes_view(c: Seq<XmlNode>) -> Seq<XmlItem> {
    Seq::new(c.len(), |i: int| c[i].model())
}

/// The models of an array and of an object, stated over their elements.
pub proof fn lemma_value_views(v: &JsonValue)
    ensures
        v matches JsonValue::Array(a) ==> v.model() == Json::Array(arr_view(a@)),
        v matches JsonValue::Object(m) ==> v.model() == Json::Object(obj_view(m@)),
{
    match v {
        JsonValue::Array(a) => {
            assert(v.model()->Array_0 =~= arr_view(a@));
        },
        JsonValue::Object(m) => {
            assert(v.model()->Object_0 =~= obj_view(m@));
        },
        _ => {},
    }
}

pub proof fn lemma_arr_view_push(a: Seq<JsonValue>, x: JsonValue)
    ensures
        arr_view(a.push(x)) == arr_view(a).push(x.model()),
{
    assert(arr_view(a.push(x)) =~= arr_view(a).push(x.model()));
}

pub proof fn lemma_obj_view_push(m: Seq<(String, JsonValue)>, k: String, x: JsonValue)
    ensures
        obj_view(m.push((k, x))) == obj_view(m).push((k@, x.model())),
{
    assert(obj_view(m.push((k, x))) =~= obj_view(m).push((k@, x.model())));
}

/// The model of an element, stated over its children.
pub proof fn lemma_element_view(e: &XmlElement)
    ensures
        e.model().children == nodes_view(e.children@),
        e.model().children.len() == e.children.len(),
        e.model() == (XmlModel {
            name: e.name@,
            attrs: attrs_view(e.attributes@),
            children: nodes_view(e.children@),
        }),
{
    assert(e.model().children =~= nodes_view(e.children@));
}

pub proof fn lemma_nodes_view_push(c: Seq<XmlNode>, x: XmlNode)
    ensures
        nodes_view(c.push(x)) == nodes_view(c).push(x.model()),
{
    assert(nodes_view(c.push(x)) =~= nodes_view(c).push(x.model()));
}

/// Where attribute `k` stands in `a`: its last occurrence, or -1.
pub open spec fn attr_index(a: Seq<(Seq<char>, Seq<char>)>, k: Seq<char>) -> int
    decreases a.len(),
{
    if a.len() == 0 {
        -1
    } else if a.last().0 == k {
        a.len() - 1
    } else {
        attr_index(a.drop_last(), k)
    }
}

/// `a` with attribute `k` set to `v`: replaced in place, or added at the end.
pub open spec fn attr_set(a: Seq<(Seq<char>, Seq<char>)>, k: Seq<char>, v: Seq<char>) -> Seq<
    (Seq<char>, Seq<char>),
> {
    if attr_index(a, k) >= 0 {
        a.update(attr_index(a, k), (k, v))
    } else {
        a.push((k, v))
    }
}

pub proof fn lemma_attr_index(a: Seq<(Seq<char>, Seq<char>)>, k: Seq<char>)
    ensures
        -1 <= attr_index(a, k) < a.len(),
    decreases a.len(),
{
    if a.len() > 0 && a.last().0 != k {
        lemma_attr_index(a.drop_last(), k);
    }
}

/// Sets attribute `k` to `v` in `a`.
pub fn attr_set_exec(a: &mut Vec<(String, String)>, k: String, v: String)
    ensures
        attrs_view(final(a)@) == attr_set(attrs_view(old(a)@), k@, v@),
{
    let ghost full = attrs_view(a@);
    proof {
        lemma_attr_index(full, k@);
    }
    let mut i: usize = a.len();
    assert(full.subrange(0, i as int) =~= full);
    while i > 0
        invariant
            i <= a.len(),
            full == attrs_view(a@),
            a@ == old(a)@,
            attr_index(full.subrange(0, i as int), k@) == attr_index(full, k@),
        decreases i,
    {
        let ghost pre = full.subrange(0, i as int);
        if a[i - 1].0 == k {
            a.set(i - 1, (k, v));
            assert(attrs_view(a@) =~= attr_set(full, k@, v@));
            return;
        }
        assert(pre.drop_last() =~= full.subrange(0, i - 1));
        i = i - 1;
    }
    assert(full.subrange(0, 0) =~= Seq::<(Seq<char>, Seq<char>)>::empty());
    a.push((k, v));
    assert(attrs_view(a@) =~= attr_set(full, k@, v@));
}

/// Where key `k` stands in object `m`: its last occurrence, or -1.
pub open spec fn key_index(m: Seq<(Seq<char>, Json)>, k: Seq<char>) -> int
    decreases m.len(),
{
    if m.len() == 0 {
        -1
    } else if m.last().0 == k {
        m.len() - 1
    } else {
        key_index(m.drop_last(), k)
    }
}

pub open spec fn has_key(m: Seq<(Seq<char>, Json)>, k: Seq<char>) -> bool {
    key_index(m, k) >= 0
}

/// The value under key `k`, if any.
pub open spec fn obj_get(m: Seq<(Seq<char>, Json)>, k: Seq<char>) -> Option<Json> {
    if has_key(m, k) {
        Some(m[key_index(m, k)].1)
    } else {
        None
    }
}

/// `m` with `k` bound to `v`: replaced in place, or added at the end.
pub open spec fn obj_insert(m: Seq<(Seq<char>, Json)>, k: Seq<char>, v: Json) -> Seq<
    (Seq<char>, Json),
> {
    if has_key(m, k) {
        m.update(key_index(m, k), (k, v))
    } else {
        m.push((k, v))
    }
}

/// `m` with `k` bound to `v` where `k` is absent; `m` itself otherwise.
pub open spec fn obj_default(m: Seq<(Seq<char>, Json)>, k: Seq<char>, v: Json) -> Seq<
    (Seq<char>, Json),
> {
    if has_key(m, k) {
        m
    } else {
        m.push((k, v))
    }
}

/// `m` with `v` appended to the array under `k`: a missing key starts an
/// array of one, a value that is not an array becomes the first of two.
pub open spec fn obj_append(m: Seq<(Seq<char>, Json)>, k: Seq<char>, v: Json) -> Seq<
    (Seq<char>, Json),
> {
    if has_key(m, k) {
        let old = m[key_index(m, k)].1;
        let new = match old {
            Json::Array(a) => Json::Array(a.push(v)),
            _ => Json::Array(seq![old, v]),
        };
        m.update(key_index(m, k), (k, new))
    } else {
        m.push((k, Json::Array(seq![v])))
    }
}

pub proof fn lemma_key_index(m: Seq<(Seq<char>, Json)>, k: Seq<char>)
    ensures
        -1 <= key_index(m, k) < m.len(),
        key_index(m, k) >= 0 ==> m[key_index(m, k)].0 == k,
        key_index(m, k) == -1 ==> forall|j: int| 0 <= j < m.len() ==> m[j].0 != k,
    decreases m.len(),
{
    if m.len() > 0 && m.last().0 != k {
        lemma_key_index(m.drop_last(), k);
        if key_index(m, k) == -1 {
            assert forall|j: int| 0 <= j < m.len() implies m[j].0 != k by {
                if j < m.len() - 1 {
                    assert(m.drop_last()[j] == m[j]);
                }
            }
        }
    }
}

/// Where key `k` stands in object `m`.
pub fn find_key(m: &Vec<(String, JsonValue)>, k: &String) -> (r: Option<usize>)
    ensures
        r is None <==> key_index(obj_view(m@), k@) == -1,
        r matches Some(i) ==> i == key_index(obj_view(m@), k@),
{
    let ghost full = obj_view(m@);
    let mut i: usize = m.len();
    assert(full.subrange(0, i as int) =~= full);
    while i > 0
        invariant
            i <= m.len(),
            full == obj_view(m@),
            key_index(full.subrange(0, i as int), k@) == key_index(full, k@),
        decreases i,
    {
        let ghost pre = full.subrange(0, i as int);
        if m[i - 1].0 == *k {
            return Some(i - 1);
        }
        assert(pre.drop_last() =~= full.subrange(0, i - 1));
        i = i - 1;
    }
    assert(full.subrange(0, 0) =~= Seq::<(Seq<char>, Json)>::empty());
    None
}

/// Binds `k` to `v` in `m`.
pub fn obj_insert_exec(m: &mut Vec<(String, JsonValue)>, k: String, v: JsonValue)
    ensures
        obj_view(final(m)@) == obj_insert(obj_view(old(m)@), k@, v.model()),
{
    proof {
        lemma_key_index(obj_view(m@), k@);
    }
    match find_key(m, &k) {
        Some(i) => {
            m.set(i, (k, v));
        },
        None => {
            m.push((k, v));
        },
    }
    assert(obj_view(m@) =~= obj_insert(obj_view(old(m)@), k@, v.model()));
}

/// Binds `k` to `v` in `m` where `k` is absent.
pub fn obj_default_exec(m: &mut Vec<(String, JsonValue)>, k: String, v: JsonValue)
    ensures
        obj_view(final(m)@) == obj_default(obj_view(old(m)@), k@, v.model()),
{
    if find_key(m, &k).is_none() {
        m.push((k, v));
        assert(obj_view(m@) =~= obj_view(old(m)@).push((k@, v.model())));
    }
}

/// Appends `v` to the array under `k` in `m` (see `obj_append`).
pub fn obj_append_exec(m: &mut Vec<(String, JsonValue)>, k: String, v: JsonValue)
    ensures
        obj_view(final(m)@) == obj_append(obj_view(old(m)@), k@, v.model()),
{
    proof {
        lemma_key_index(obj_view(m@), k@);
    }
    match find_key(m, &k) {
        Some(i) => {
            let (_, old_val) = m.remove(i);
            proof {
                lemma_value_views(&old_val);
            }
            let new_val = match old_val {
                JsonValue::Array(mut a) => {
                    let ghost a0 = a@;
                    a.push(v);
                    proof {
                        assert(arr_view(a@) =~= arr_view(a0).push(v.model()));
                    }
                    JsonValue::Array(a)
                },
                other => {
                    let a = vec![other, v];
                    proof {
                        assert(arr_view(a@) =~= seq![other.model(), v.model()]);
                    }
                    JsonValue::Array(a)
                },
            };
            proof {
                lemma_value_views(&new_val);
            }
            m.insert(i, (k, new_val));
        },
        None => {
            let a = vec![v];
            let new_val = JsonValue::Array(a);
            proof {
                assert(arr_view(a@) =~= seq![v.model()]);
                lemma_value_views(&new_val);
            }
            m.push((k, new_val));
        },
    }
    assert(obj_view(m@) =~= obj_append(obj_view(old(m)@), k@, v.model()));
}

/// A copy of `v`.
pub fn copy_value(v: &JsonValue) -> (r: JsonValue)
    ensures
        r.model() == v.model(),
    decreases v,
{
    proof {
        lemma_value_views(v);
    }
    let r = match v {
        JsonValue::Null => JsonValue::Null,
        JsonValue::Bool(b) => JsonValue::Bool(*b),
        JsonValue::Number(n) => JsonValue::Number(n.clone()),
        JsonValue::Str(s) => JsonValue::Str(s.clone()),
        JsonValue::Array(a) => {
            let mut out: Vec<JsonValue> = Vec::new();
            let mut i: usize = 0;
            while i < a.len()
                invariant
                    i <= a.len(),
                    arr_view(out@) == arr_view(a@).subrange(0, i as int),
                    *v == JsonValue::Array(*a),
                decreases a.len() - i,
            {
                proof {
                    assert(decreases_to!(*v => v->Array_0));
                    assert(decreases_to!(*a => a@));
                    assert(decreases_to!(a@ => a@[i as int]));
                }
                let c = copy_value(&a[i]);
                proof {
                    lemma_arr_view_push(out@, c);
                    assert(arr_view(a@).subrange(0, i + 1) =~= arr_view(a@).subrange(0, i as int).push(a@[i as int].model()));
                }
                out.push(c);
                i = i + 1;
            }
            assert(arr_view(a@).subrange(0, i as int) =~= arr_view(a@));
            JsonValue::Array(out)
        },
        JsonValue::Object(m) => {
            let mut out: Vec<(String, JsonValue)> = Vec::new();
            let mut i: usize = 0;
            while i < m.len()
                invariant
                    i <= m.len(),
                    obj_view(out@) == obj_view(m@).subrange(0, i as int),
                    *v == JsonValue::Object(*m),
                decreases m.len() - i,
            {
                proof {
                    assert(decreases_to!(*v => v->Object_0));
                    assert(decreases_to!(*m => m@));
                    assert(decreases_to!(m@ => m@[i as int]));
                    assert(decreases_to!(m@[i as int] => m@[i as int].1));
                }
                let c = copy_value(&m[i].1);
                let k = m[i].0.clone();
                proof {
                    lemma_obj_view_push(out@, k, c);
                    assert(obj_view(m@).subrange(0, i + 1) =~= obj_view(m@).subrange(0, i as int).push((m@[i as int].0@, m@[i as int].1.model())));
                }
                out.push((k, c));
                i = i + 1;
            }
            assert(obj_view(m@).subrange(0, i as int) =~= obj_view(m@));
            JsonValue::Object(out)
        },
    };
    proof {
        lemma_value_views(&r);
    }
    r
}

proof fn lemma_key_index_update_other(
    m: Seq<(Seq<char>, Json)>,
    i: int,
    p: (Seq<char>, Json),
    k: Seq<char>,
)
    requires
        0 <= i < m.len(),
        m[i].0 != k,
        p.0 != k,
    ensures
        key_index(m.update(i, p), k) == key_index(m, k),
    decreases m.len(),
{
    let u = m.update(i, p);
    if i < m.len() - 1 {
        assert(u.last() == m.last());
        if m.last().0 != k {
            assert(u.drop_last() =~= m.drop_last().update(i, p));
            lemma_key_index_update_other(m.drop_last(), i, p, k);
        }
    } else {
        assert(u.drop_last() =~= m.drop_last());
    }
}

proof fn lemma_key_index_push_other(m: Seq<(Seq<char>, Json)>, p: (Seq<char>, Json), k: Seq<char>)
    requires
        p.0 != k,
    ensures
        key_index(m.push(p), k) == key_index(m, k),
{
    assert(m.push(p).drop_last() =~= m);
}

/// Binding, defaulting or appending under one key leaves every other key
/// as it was.
pub proof fn lemma_other_key(m: Seq<(Seq<char>, Json)>, k2: Seq<char>, v: Json, k: Seq<char>)
    requires
        k2 != k,
    ensures
        obj_get(obj_insert(m, k2, v), k) == obj_get(m, k),
        obj_get(obj_default(m, k2, v), k) == obj_get(m, k),
        obj_get(obj_append(m, k2, v), k) == obj_get(m, k),
        has_key(obj_insert(m, k2, v), k) == has_key(m, k),
        has_key(obj_default(m, k2, v), k) == has_key(m, k),
        has_key(obj_append(m, k2, v), k) == has_key(m, k),
{
    lemma_key_index(m, k2);
    lemma_key_index(m, k);
    if has_key(m, k2) {
        let i = key_index(m, k2);
        let old = m[i].1;
        let new = match old {
            Json::Array(a) => Json::Array(a.push(v)),
            _ => Json::Array(seq![old, v]),
        };
        lemma_key_index_update_other(m, i, (k2, v), k);
        lemma_key_index_update_other(m, i, (k2, new), k);
    } else {
        lemma_key_index_push_other(m, (k2, v), k);
        lemma_key_index_push_other(m, (k2, Json::Array(seq![v])), k);
    }
}

/// A default for an absent key is then found under it.
pub proof fn lemma_default_found(m: Seq<(Seq<char>, Json)>, k: Seq<char>, v: Json)
    requires
        !has_key(m, k),
    ensures
        obj_get(obj_default(m, k, v), k) == Some(v),
{
}

pub proof fn lemma_key_index_update_same(m: Seq<(Seq<char>, Json)>, i: int, p: (Seq<char>, Json))
    requires
        0 <= i,
        i == key_index(m, p.0),
    ensures
        key_index(m.update(i, p), p.0) == i,
    decreases m.len(),
{
    lemma_key_index(m, p.0);
    let u = m.update(i, p);
    if i < m.len() - 1 {
        assert(m.last().0 != p.0);
        assert(u.last() == m.last());
        assert(u.drop_last() =~= m.drop_last().update(i, p));
        lemma_key_index_update_same(m.drop_last(), i, p);
    }
}

/// Appending under key `k` leaves under `k` the array grown by one.
pub proof fn lemma_append_found(m: Seq<(Seq<char>, Json)>, k: Seq<char>, v: Json)
    ensures
        obj_get(obj_append(m, k, v), k) == Some(
            match obj_get(m, k) {
                Some(Json::Array(a)) => Json::Array(a.push(v)),
                Some(old) => Json::Array(seq![old, v]),
                None => Json::Array(seq![v]),
            },
        ),
{
    lemma_key_index(m, k);
    if has_key(m, k) {
        let i = key_index(m, k);
        let old = m[i].1;
        let new = match old {
            Json::Array(a) => Json::Array(a.push(v)),
            _ => Json::Array(seq![old, v]),
        };
        lemma_key_index_update_same(m, i, (k, new));
    } else {
        assert(m.push((k, Json::Array(seq![v]))).last().0 == k);
    }
}

/// Binding `k` leaves `v` under `k`.
pub proof fn lemma_insert_found(m: Seq<(Seq<char>, Json)>, k: Seq<char>, v: Json)
    ensures
        obj_get(obj_insert(m, k, v), k) == Some(v),
{
    lemma_key_index(m, k);
    if has_key(m, k) {
        lemma_key_index_update_same(m, key_index(m, k), (k, v));
    } else {
        assert(m.push((k, v)).last().0 == k);
    }
}

/// A default never replaces a value that is there.
pub proof fn lemma_default_keeps(m: Seq<(Seq<char>, Json)>, k2: Seq<char>, v: Json, k: Seq<char>)
    requires
        obj_get(m, k) is Some,
    ensures
        obj_get(obj_default(m, k2, v), k) == obj_get(m, k),
{
    if k2 != k {
        lemma_other_key(m, k2, v, k);
    }
}

} // verus!
