//! The two conversions on text: XML text to JSON text and back. The XML and
//! JSON libraries parse and write; the transcoders in between are this
//! crate's own, on its own trees.
use vstd::prelude::*;
use crate::forward::{
    collapse_whitespace, document_json, element_to_map, remove_empty,
};
use crate::reverse::{document_xml, map_to_element};
use crate::text::{same_text, text_of};
use crate::tree::{lemma_value_views, JsonValue, XmlElement, XmlNode};

verus! {

#[verifier::external_type_specification]
#[verifier::external_body]
pub struct ExElement(xmltree::Element);

#[verifier::external_type_specification]
#[verifier::external_body]
pub struct ExXmlNode(xmltree::XMLNode);

#[verifier::external_type_specification]
#[verifier::external_body]
pub struct ExParseError(xmltree::ParseError);

#[verifier::external_type_specification]
#[verifier::external_body]
pub struct ExWriteError(xmltree::Error);

#[verifier::external_type_specification]
#[verifier::external_body]
pub struct ExValue(serde_json::Value);

#[verifier::external_type_specification]
#[verifier::external_body]
pub struct ExJsonError(serde_json::Error);

/// Errors of the conversions.
#[derive(Debug)]
pub enum ScjsonError {
    /// The XML text is not well formed.
    Xml(xmltree::ParseError),
    /// The XML writer failed.
    XmlWrite(xmltree::Error),
    /// The JSON text is not well formed.
    Json(serde_json::Error),
    /// The document does not have the expected root.
    Unsupported,
}

impl From<xmltree::ParseError> for ScjsonError {
    fn from(e: xmltree::ParseError) -> Self {
        ScjsonError::Xml(e)
    }
}

impl vstd::std_specs::convert::FromSpecImpl<xmltree::ParseError> for ScjsonError {
    open spec fn obeys_from_spec() -> bool {
        true
    }

    open spec fn from_spec(e: xmltree::ParseError) -> Self {
        ScjsonError::Xml(e)
    }
}

impl From<xmltree::Error> for ScjsonError {
    fn from(e: xmltree::Error) -> Self {
        ScjsonError::XmlWrite(e)
    }
}

impl vstd::std_specs::convert::FromSpecImpl<xmltree::Error> for ScjsonError {
    open spec fn obeys_from_spec() -> bool {
        true
    }

    open spec fn from_spec(e: xmltree::Error) -> Self {
        ScjsonError::XmlWrite(e)
    }
}

impl From<serde_json::Error> for ScjsonError {
    fn from(e: serde_json::Error) -> Self {
        ScjsonError::Json(e)
    }
}

impl vstd::std_specs::convert::FromSpecImpl<serde_json::Error> for ScjsonError {
    open spec fn obeys_from_spec() -> bool {
        true
    }

    open spec fn from_spec(e: serde_json::Error) -> Self {
        ScjsonError::Json(e)
    }
}

/// One child node of an element of the XML library, taken apart.
pub enum RawNode {
    Element(xmltree::Element),
    Text(String),
    CData(String),
    Comment(String),
    Instruction(String, Option<String>),
}

/// One value of the JSON library, taken apart one level deep.
pub enum RawJson {
    Null,
    Bool(bool),
    Number(String),
    Str(String),
    Array(Vec<serde_json::Value>),
    Object(Vec<(String, serde_json::Value)>),
}

/// Whether XML text parses, and then the local name of its root element.
pub uninterp spec fn xml_root(text: Seq<char>) -> Option<Seq<char>>;

/// Whether JSON text parses, and then whether its value is an object.
pub uninterp spec fn json_top(text: Seq<char>) -> Option<bool>;

/// Relies on `xmltree::Element::parse` and the root's public fields: parses
/// XML text and gives its root's local name, attributes (in the order its
/// hash map yields them, which is unspecified) and children. It returns an
/// error on text that is not well formed.
#[verifier::external_body]
fn parse_xml(text: &str) -> (r: Result<
    (String, Vec<(String, String)>, Vec<xmltree::XMLNode>),
    xmltree::ParseError,
>)
    ensures
        r is Ok <==> xml_root(text@) is Some,
        r matches Ok(p) ==> xml_root(text@) == Some(p.0@),
{
    xmltree::Element::parse(text.as_bytes()).map(
        |e| (e.name, e.attributes.into_iter().collect(), e.children),
    )
}

/// Relies on `xmltree::Element::write`: writes an element as an XML
/// document, as UTF-8.
#[verifier::external_body]
fn write_xml(e: &xmltree::Element) -> (r: Result<String, xmltree::Error>) {
    let mut out: Vec<u8> = Vec::new();
    e.write(&mut out)?;
    Ok(String::from_utf8_lossy(&out).into_owned())
}

/// Relies on the public fields of `xmltree::Element`: its local name, its
/// attributes (in the order its hash map yields them, which is unspecified)
/// and its children.
#[verifier::external_body]
fn element_parts(e: xmltree::Element) -> (r: (String, Vec<(String, String)>, Vec<xmltree::XMLNode>)) {
    (e.name, e.attributes.into_iter().collect(), e.children)
}

/// Relies on `xmltree::XMLNode`: which kind of node it is, with its fields.
#[verifier::external_body]
fn node_parts(n: xmltree::XMLNode) -> (r: RawNode) {
    match n {
        xmltree::XMLNode::Element(e) => RawNode::Element(e),
        xmltree::XMLNode::Text(t) => RawNode::Text(t),
        xmltree::XMLNode::CData(t) => RawNode::CData(t),
        xmltree::XMLNode::Comment(t) => RawNode::Comment(t),
        xmltree::XMLNode::ProcessingInstruction(n, d) => RawNode::Instruction(n, d),
    }
}

/// Relies on `xmltree::Element::new` and its public fields: an element with
/// the given name, attributes and children.
#[verifier::external_body]
fn make_element(
    name: &str,
    attributes: Vec<(String, String)>,
    children: Vec<xmltree::XMLNode>,
) -> (r: xmltree::Element) {
    let mut e = xmltree::Element::new(name);
    e.attributes = attributes.into_iter().collect();
    e.children = children;
    e
}

/// Relies on the variants of `xmltree::XMLNode`: the node of each kind.
#[verifier::external_body]
fn make_node(n: RawNode) -> (r: xmltree::XMLNode) {
    match n {
        RawNode::Element(e) => xmltree::XMLNode::Element(e),
        RawNode::Text(t) => xmltree::XMLNode::Text(t),
        RawNode::CData(t) => xmltree::XMLNode::CData(t),
        RawNode::Comment(t) => xmltree::XMLNode::Comment(t),
        RawNode::Instruction(n, d) => xmltree::XMLNode::ProcessingInstruction(n, d),
    }
}

/// Relies on `serde_json::from_str` and the variants of `serde_json::Value`:
/// parses JSON text and takes its value apart one level deep. It returns an
/// error on text that is not one well-formed JSON value.
#[verifier::external_body]
fn parse_json(text: &str) -> (r: Result<RawJson, serde_json::Error>)
    ensures
        r is Ok <==> json_top(text@) is Some,
        r matches Ok(p) ==> json_top(text@) == Some(p is Object),
{
    Ok(match serde_json::from_str(text)? {
        serde_json::Value::Null => RawJson::Null,
        serde_json::Value::Bool(b) => RawJson::Bool(b),
        serde_json::Value::Number(n) => RawJson::Number(n.to_string()),
        serde_json::Value::String(s) => RawJson::Str(s),
        serde_json::Value::Array(a) => RawJson::Array(a),
        serde_json::Value::Object(m) => RawJson::Object(m.into_iter().collect()),
    })
}

/// Relies on `serde_json::to_string_pretty`: writes a value as indented
/// JSON text. Its documentation gives two causes of failure, a `Serialize`
/// impl that fails and a map with keys that are not strings; a
/// `serde_json::Value` has neither.
#[verifier::external_body]
fn pretty_json(v: &serde_json::Value) -> (r: Result<String, serde_json::Error>)
    ensures
        r is Ok,
{
    serde_json::to_string_pretty(v)
}

/// Relies on the variants of `serde_json::Value`, and on `Display` of its
/// numbers: which kind of value it is, with its members.
#[verifier::external_body]
fn json_parts(v: serde_json::Value) -> (r: RawJson) {
    match v {
        serde_json::Value::Null => RawJson::Null,
        serde_json::Value::Bool(b) => RawJson::Bool(b),
        serde_json::Value::Number(n) => RawJson::Number(n.to_string()),
        serde_json::Value::String(s) => RawJson::Str(s),
        serde_json::Value::Array(a) => RawJson::Array(a),
        serde_json::Value::Object(m) => RawJson::Object(m.into_iter().collect()),
    }
}

/// Relies on the variants of `serde_json::Value`, and on `FromStr` of its
/// numbers: the value of each kind; an error where a number's text is not a
/// JSON number.
#[verifier::external_body]
fn make_json(r: RawJson) -> (v: Result<serde_json::Value, serde_json::Error>) {
    Ok(match r {
        RawJson::Null => serde_json::Value::Null,
        RawJson::Bool(b) => serde_json::Value::Bool(b),
        RawJson::Number(t) => serde_json::Value::Number(t.parse()?),
        RawJson::Str(s) => serde_json::Value::String(s),
        RawJson::Array(a) => serde_json::Value::Array(a),
        RawJson::Object(m) => serde_json::Value::Object(m.into_iter().collect()),
    })
}

/// Child nodes of the XML library as this crate's nodes; `None` where they
/// nest more than `depth` levels deep.
fn nodes_from_xml(raw: Vec<xmltree::XMLNode>, depth: usize) -> (r: Option<Vec<XmlNode>>)
    decreases depth, 1int,
{
    let mut raw = raw;
    let mut children: Vec<XmlNode> = Vec::new();
    while raw.len() > 0
        decreases raw.len(),
    {
        let node = match node_parts(raw.remove(0)) {
            RawNode::Element(c) => match element_from_xml(c, depth) {
                Some(x) => XmlNode::Element(x),
                None => {
                    return None;
                },
            },
            RawNode::Text(t) => XmlNode::Text(t),
            RawNode::CData(t) => XmlNode::CData(t),
            RawNode::Comment(t) => XmlNode::Comment(t),
            RawNode::Instruction(n, d) => XmlNode::Instruction(n, d),
        };
        children.push(node);
    }
    Some(children)
}

/// An element of the XML library as this crate's element; `None` where it
/// nests more than `depth` levels deep.
fn element_from_xml(e: xmltree::Element, depth: usize) -> (r: Option<XmlElement>)
    decreases depth, 0int,
{
    if depth == 0 {
        return None;
    }
    let (name, attributes, raw) = element_parts(e);
    match nodes_from_xml(raw, depth - 1) {
        Some(children) => Some(XmlElement { name, attributes, children }),
        None => None,
    }
}

/// This crate's element tree as one of the XML library.
fn element_into_xml(e: &XmlElement) -> (r: xmltree::Element)
    decreases e,
{
    let mut children: Vec<xmltree::XMLNode> = Vec::new();
    let mut i: usize = 0;
    while i < e.children.len()
        invariant
            i <= e.children.len(),
        decreases e.children.len() - i,
    {
        let raw = match &e.children[i] {
            XmlNode::Element(c) => {
                proof {
                    assert(decreases_to!(*e => e.children));
                    assert(decreases_to!(e.children => e.children@));
                    assert(decreases_to!(e.children@ => e.children@[i as int]));
                    assert(decreases_to!(e.children@[i as int] => e.children@[i as int]->Element_0));
                }
                RawNode::Element(element_into_xml(c))
            },
            XmlNode::Text(t) => RawNode::Text(t.clone()),
            XmlNode::CData(t) => RawNode::CData(t.clone()),
            XmlNode::Comment(t) => RawNode::Comment(t.clone()),
            XmlNode::Instruction(n, d) => RawNode::Instruction(n.clone(), d.clone()),
        };
        children.push(make_node(raw));
        i = i + 1;
    }
    let mut attributes: Vec<(String, String)> = Vec::new();
    let mut j: usize = 0;
    while j < e.attributes.len()
        invariant
            j <= e.attributes.len(),
        decreases e.attributes.len() - j,
    {
        attributes.push((e.attributes[j].0.clone(), e.attributes[j].1.clone()));
        j = j + 1;
    }
    make_element(e.name.as_str(), attributes, children)
}

/// A value of the JSON library, taken apart, as this crate's value; `None`
/// where it nests more than `depth` levels deep.
fn value_from_json(raw: RawJson, depth: usize) -> (r: Option<JsonValue>)
    ensures
        r matches Some(v) ==> (v is Object <==> raw is Object),
    decreases depth,
{
    match raw {
        RawJson::Null => Some(JsonValue::Null),
        RawJson::Bool(b) => Some(JsonValue::Bool(b)),
        RawJson::Number(t) => Some(JsonValue::Number(t)),
        RawJson::Str(s) => Some(JsonValue::Str(s)),
        RawJson::Array(mut items) => {
            if depth == 0 {
                return None;
            }
            let mut out: Vec<JsonValue> = Vec::new();
            while items.len() > 0
                invariant
                    depth > 0,
                decreases items.len(),
            {
                match value_from_json(json_parts(items.remove(0)), depth - 1) {
                    Some(x) => out.push(x),
                    None => {
                        return None;
                    },
                }
            }
            Some(JsonValue::Array(out))
        },
        RawJson::Object(mut members) => {
            if depth == 0 {
                return None;
            }
            let mut out: Vec<(String, JsonValue)> = Vec::new();
            while members.len() > 0
                invariant
                    depth > 0,
                decreases members.len(),
            {
                let (k, x) = members.remove(0);
                match value_from_json(json_parts(x), depth - 1) {
                    Some(y) => out.push((k, y)),
                    None => {
                        return None;
                    },
                }
            }
            Some(JsonValue::Object(out))
        },
    }
}

/// This crate's value as one of the JSON library; an error where a number's
/// text is not a JSON number.
fn value_into_json(v: &JsonValue) -> (r: Result<serde_json::Value, serde_json::Error>)
    decreases v,
{
    match v {
        JsonValue::Null => make_json(RawJson::Null),
        JsonValue::Bool(b) => make_json(RawJson::Bool(*b)),
        JsonValue::Number(t) => make_json(RawJson::Number(t.clone())),
        JsonValue::Str(s) => make_json(RawJson::Str(s.clone())),
        JsonValue::Array(a) => {
            let mut out: Vec<serde_json::Value> = Vec::new();
            let mut i: usize = 0;
            while i < a.len()
                invariant
                    i <= a.len(),
                    *v == JsonValue::Array(*a),
                decreases a.len() - i,
            {
                proof {
                    assert(decreases_to!(*v => v->Array_0));
                    assert(decreases_to!(*a => a@));
                    assert(decreases_to!(a@ => a@[i as int]));
                }
                let x = value_into_json(&a[i])?;
                out.push(x);
                i = i + 1;
            }
            make_json(RawJson::Array(out))
        },
        JsonValue::Object(m) => {
            let mut out: Vec<(String, serde_json::Value)> = Vec::new();
            let mut i: usize = 0;
            while i < m.len()
                invariant
                    i <= m.len(),
                    *v == JsonValue::Object(*m),
                decreases m.len() - i,
            {
                proof {
                    assert(decreases_to!(*v => v->Object_0));
                    assert(decreases_to!(*m => m@));
                    assert(decreases_to!(m@ => m@[i as int]));
                    assert(decreases_to!(m@[i as int] => m@[i as int].1));
                }
                let x = value_into_json(&m[i].1)?;
                out.push((m[i].0.clone(), x));
                i = i + 1;
            }
            make_json(RawJson::Object(out))
        },
    }
}

/// The JSON form of a document whose root is `root`: the root's object with
/// whitespace collapsed and, where `omit_empty` holds, empty values pruned.
/// A root that is not `scxml` is refused.
pub fn document_to_value(root: &XmlElement, omit_empty: bool) -> (r: Result<
    JsonValue,
    ScjsonError,
>)
    ensures
        r is Ok <==> root.name@ == "scxml"@,
        r matches Ok(v) ==> v.model() == document_json(root.model(), omit_empty),
        r matches Err(e) ==> e is Unsupported,
{
    if !same_text(&root.name, "scxml") {
        return Err(ScjsonError::Unsupported);
    }
    let m = element_to_map(root);
    let mut value = JsonValue::Object(m);
    proof {
        lemma_value_views(&value);
    }
    collapse_whitespace(&mut value);
    if omit_empty {
        remove_empty(&mut value);
    }
    Ok(value)
}

/// The document that a JSON value describes: pruned where `omit_empty`
/// holds, then, where it is an object, its root element, which carries the
/// vocabulary's namespace. A value that is not an object is refused.
pub fn value_to_document(value: &JsonValue, omit_empty: bool) -> (r: Result<
    XmlElement,
    ScjsonError,
>)
    ensures
        r is Ok <==> document_xml(value.model(), omit_empty) is Some,
        r matches Ok(e) ==> document_xml(value.model(), omit_empty) == Some(e.model()),
        r matches Err(e) ==> e is Unsupported,
{
    let v = if omit_empty {
        crate::forward::pruned(value).0
    } else {
        crate::tree::copy_value(value)
    };
    proof {
        lemma_value_views(&v);
        lemma_value_views(value);
    }
    match &v {
        JsonValue::Object(m) => Ok(map_to_element(&text_of("scxml"), m)),
        _ => Err(ScjsonError::Unsupported),
    }
}

/// Converts a state-chart document from XML text to JSON text; where
/// `omit_empty` holds, empty values are left out. Text that is not well
/// formed is an `Xml` error; a root other than `scxml` is `Unsupported`.
/// Otherwise the root becomes this crate's tree and is transcoded by
/// `document_to_value`, whose contract is exact, and serde_json writes the
/// result. The tree conversion is bounded by the text's length in depth,
/// which no parsed document reaches; past it the answer is `Unsupported`.
pub fn xml_to_json(xml: &str, omit_empty: bool) -> (r: Result<String, ScjsonError>)
    ensures
        r matches Err(ScjsonError::Xml(_)) <==> xml_root(xml@) is None,
        (xml_root(xml@) matches Some(n) && n != "scxml"@) ==> r matches Err(
            ScjsonError::Unsupported,
        ),
        r matches Err(ScjsonError::Unsupported) ==> xml_root(xml@) is Some,
        !(r matches Err(ScjsonError::XmlWrite(_))),
{
    let (name, attributes, raw) = match parse_xml(xml) {
        Ok(p) => p,
        Err(e) => {
            return Err(ScjsonError::Xml(e));
        },
    };
    if !same_text(&name, "scxml") {
        return Err(ScjsonError::Unsupported);
    }
    let children = match nodes_from_xml(raw, xml.len()) {
        Some(c) => c,
        None => {
            return Err(ScjsonError::Unsupported);
        },
    };
    let doc = XmlElement { name, attributes, children };
    let value = match document_to_value(&doc, omit_empty) {
        Ok(v) => v,
        Err(_) => {
            return Err(ScjsonError::Unsupported);
        },
    };
    let out = match value_into_json(&value) {
        Ok(v) => v,
        Err(e) => {
            return Err(ScjsonError::Json(e));
        },
    };
    match pretty_json(&out) {
        Ok(s) => Ok(s),
        Err(e) => Err(ScjsonError::Json(e)),
    }
}

/// Converts a state-chart document from JSON text to XML text; where
/// `omit_empty` holds, empty values are left out first. Text that is not
/// one JSON value is a `Json` error; a value that is not an object is
/// `Unsupported`. Otherwise the value becomes this crate's tree and is
/// transcoded by `value_to_document`, whose contract is exact, and xmltree
/// writes the result, which may fail only as `XmlWrite`. The tree
/// conversion is bounded by the text's length in depth, which no parsed
/// value reaches; past it the answer is `Unsupported`.
pub fn json_to_xml_opts(json_str: &str, omit_empty: bool) -> (r: Result<String, ScjsonError>)
    ensures
        r matches Err(ScjsonError::Json(_)) <==> json_top(json_str@) is None,
        json_top(json_str@) == Some(false) ==> r matches Err(ScjsonError::Unsupported),
        r matches Err(ScjsonError::Unsupported) ==> json_top(json_str@) is Some,
        !(r matches Err(ScjsonError::Xml(_))),
{
    let parsed = match parse_json(json_str) {
        Ok(p) => p,
        Err(e) => {
            return Err(ScjsonError::Json(e));
        },
    };
    let is_object = match &parsed {
        RawJson::Object(_) => true,
        _ => false,
    };
    if !is_object {
        return Err(ScjsonError::Unsupported);
    }
    let value = match value_from_json(parsed, json_str.len()) {
        Some(v) => v,
        None => {
            return Err(ScjsonError::Unsupported);
        },
    };
    let doc = match value_to_document(&value, omit_empty) {
        Ok(d) => d,
        Err(_) => {
            return Err(ScjsonError::Unsupported);
        },
    };
    match write_xml(&element_into_xml(&doc)) {
        Ok(s) => Ok(s),
        Err(e) => Err(ScjsonError::XmlWrite(e)),
    }
}

/// Converts a state-chart document from JSON text to XML text, leaving out
/// empty values: `json_to_xml_opts` with `omit_empty` set.
pub fn json_to_xml(json_str: &str) -> (r: Result<String, ScjsonError>)
    ensures
        r matches Err(ScjsonError::Json(_)) <==> json_top(json_str@) is None,
        json_top(json_str@) == Some(false) ==> r matches Err(ScjsonError::Unsupported),
        r matches Err(ScjsonError::Unsupported) ==> json_top(json_str@) is Some,
        !(r matches Err(ScjsonError::Xml(_))),
{
    json_to_xml_opts(json_str, true)
}

} // verus!
