use scjson::{
    document_to_value, json_to_xml, json_to_xml_opts, value_to_document, xml_to_json, JsonValue,
    ScjsonError, XmlElement, XmlNode,
};
use serde_json::Value;

const NS: &str = "xmlns=\"http://www.w3.org/2005/07/scxml\"";

fn to_json(xml: &str, omit_empty: bool) -> Value {
    serde_json::from_str(&xml_to_json(xml, omit_empty).unwrap()).unwrap()
}

fn doc(body: &str) -> String {
    format!("<scxml {}>{}</scxml>", NS, body)
}

#[test]
fn idempotent_on_a_sample_document() {
    let xml = doc(
        "<datamodel><data id=\"x\" expr=\"1\"/></datamodel>\
         <state id=\"a\" initial=\"b c\"><onentry><log label=\"in\" expr=\"x\"/>\
         <if cond=\"x &gt; 1\"><raise event=\"go\"/><elseif cond=\"y\"/><else/></if></onentry>\
         <transition event=\"e\" target=\"b\"/><transition event=\"f\" target=\"c d\"/>\
         <state id=\"b\"/><final id=\"c\"/></state>",
    );
    for omit in [true, false] {
        let first = xml_to_json(&xml, omit).unwrap();
        let back = json_to_xml_opts(&first, omit).unwrap();
        let second = xml_to_json(&back, omit).unwrap();
        let a: Value = serde_json::from_str(&first).unwrap();
        let b: Value = serde_json::from_str(&second).unwrap();
        assert_eq!(a, b);
    }
}

#[test]
fn token_attribute_splits_and_joins() {
    let obj = to_json(&doc("<state id=\"s\"><transition target=\"a b\"/></state>"), true);
    let target = &obj["state"][0]["transition"][0]["target"];
    assert_eq!(
        target,
        &Value::Array(vec![Value::String("a".into()), Value::String("b".into())])
    );
    let json = "{\"state\":[{\"id\":\"s\",\"transition\":[{\"target\":[\"a\",\"b\"]}]}]}";
    let xml = json_to_xml(json).unwrap();
    assert!(xml.contains("target=\"a b\""));
}

#[test]
fn token_attribute_with_extra_whitespace() {
    let obj = to_json(&doc("<state id=\"s\" initial=\"  a \t b  \"/>"), true);
    assert_eq!(
        obj["state"][0]["initial_attribute"],
        Value::Array(vec![Value::String("a".into()), Value::String("b".into())])
    );
}

#[test]
fn empty_token_array_gives_no_attribute() {
    let json = "{\"state\":[{\"id\":\"s\",\"transition\":[{\"event\":\"e\",\"target\":[]}]}]}";
    let xml = json_to_xml_opts(json, false).unwrap();
    assert!(xml.contains("<transition"));
    assert!(!xml.contains("target="));
}

#[test]
fn bare_assign_gets_default_mode() {
    let obj = to_json(&doc("<state id=\"s\"><onentry><assign location=\"x\" expr=\"1\"/></onentry></state>"), true);
    assert_eq!(obj["state"][0]["onentry"][0]["assign"][0]["type_value"], "replacechildren");
}

#[test]
fn explicit_assign_mode_is_kept() {
    let obj = to_json(&doc("<state id=\"s\"><onentry><assign location=\"x\" type=\"delete\"/></onentry></state>"), true);
    assert_eq!(obj["state"][0]["onentry"][0]["assign"][0]["type_value"], "delete");
}

#[test]
fn bare_send_gets_default_type_and_delay() {
    let obj = to_json(&doc("<state id=\"s\"><onentry><send event=\"e\"/></onentry></state>"), true);
    let send = &obj["state"][0]["onentry"][0]["send"][0];
    assert_eq!(send["type_value"], "scxml");
    assert_eq!(send["delay"], "0s");
    assert_eq!(send["event"], "e");
}

#[test]
fn bare_root_gets_version_and_datamodel() {
    let obj = to_json(&format!("<scxml {}/>", NS), true);
    assert_eq!(obj["version"].to_string(), "1.0");
    assert_eq!(obj["datamodel_attribute"], "null");
}

#[test]
fn version_attribute_is_a_number() {
    let obj = to_json(&format!("<scxml {} version=\"1e2\"/>", NS), true);
    assert!(obj["version"].is_number());
    assert_eq!(obj["version"].to_string(), "100.0");
    let obj = to_json(&format!("<scxml {} version=\"draft\"/>", NS), true);
    assert_eq!(obj["version"], "draft");
}

#[test]
fn one_transition_is_an_array_of_one() {
    let obj = to_json(&doc("<state id=\"s\"><transition target=\"t\"/></state>"), true);
    let arr = obj["state"][0]["transition"].as_array().unwrap();
    assert_eq!(arr.len(), 1);
    assert!(arr[0].is_object());
}

#[test]
fn two_transitions_are_an_array_of_two() {
    let obj = to_json(
        &doc("<state id=\"s\"><transition target=\"t\"/><transition target=\"u\"/></state>"),
        true,
    );
    let arr = obj["state"][0]["transition"].as_array().unwrap();
    assert_eq!(arr.len(), 2);
    assert_eq!(arr[1]["target"][0], "u");
}

#[test]
fn empty_else_is_renamed_and_present() {
    let obj = to_json(&doc("<state id=\"s\"><onentry><if cond=\"c\"><else/></if></onentry></state>"), false);
    let branch = &obj["state"][0]["onentry"][0]["if_value"][0];
    assert!(branch.get("else_value").is_some());
    assert!(branch.get("else").is_none());
    let xml = json_to_xml_opts(&serde_json::to_string(&obj).unwrap(), false).unwrap();
    assert!(xml.contains("<if"));
    assert!(xml.contains("<else"));
}

#[test]
fn wrong_root_is_rejected() {
    assert!(matches!(xml_to_json("<state id=\"s\"/>", true), Err(ScjsonError::Unsupported)));
}

#[test]
fn top_level_array_is_rejected() {
    assert!(matches!(json_to_xml("[1, 2]"), Err(ScjsonError::Unsupported)));
    assert!(matches!(json_to_xml_opts("\"text\"", false), Err(ScjsonError::Unsupported)));
}

#[test]
fn malformed_xml_is_a_parse_error() {
    assert!(matches!(xml_to_json("<scxml><state></scxml>", true), Err(ScjsonError::Xml(_))));
}

#[test]
fn malformed_json_is_a_parse_error() {
    assert!(matches!(json_to_xml("{\"state\": ["), Err(ScjsonError::Json(_))));
}

#[test]
fn pruning_drops_empty_string_attribute() {
    let xml = format!("<scxml {} name=\"\"/>", NS);
    let pruned = to_json(&xml, true);
    assert!(pruned.get("name").is_none());
    let kept = to_json(&xml, false);
    assert_eq!(kept["name"], "");
}

#[test]
fn pruning_drops_empty_child_array() {
    let json = "{\"state\": [], \"name\": \"\", \"version\": 1.0}";
    let pruned = json_to_xml_opts(json, true).unwrap();
    assert!(!pruned.contains("<state"));
    assert!(!pruned.contains("name="));
    let kept = json_to_xml_opts(json, false).unwrap();
    assert!(kept.contains("name=\"\""));
}

#[test]
fn whitespace_is_collapsed_in_expressions() {
    let obj = to_json(&doc("<state id=\"s\"><onentry><log expr=\"a&#10;b&#9;c\"/></onentry></state>"), true);
    assert_eq!(obj["state"][0]["onentry"][0]["log"][0]["expr"], "a b c");
}

#[test]
fn foreign_elements_are_kept_generically() {
    let obj = to_json(&doc("<state id=\"s\"><foo a=\"1\">hi<bar/></foo></state>"), true);
    let foo = &obj["state"][0]["content"][0];
    assert_eq!(foo["qname"], "foo");
    assert_eq!(foo["text"], "hi");
    assert_eq!(foo["attributes"]["a"], "1");
    assert_eq!(foo["children"][0]["qname"], "bar");
}

#[test]
fn text_runs_go_under_content() {
    let obj = to_json(&doc("<state id=\"s\"><onentry><log expr=\"x\"/></onentry>  </state><final id=\"f\">done</final>"), true);
    assert!(obj["state"][0].get("content").is_none());
    assert_eq!(obj["final"][0]["content"][0], "done");
}

#[test]
fn invoke_strings_become_payloads() {
    let json = "{\"state\":[{\"id\":\"s\",\"invoke\":[{\"content\":[\"x\"]}]}]}";
    let xml = json_to_xml(json).unwrap();
    assert!(xml.contains("<invoke><content>x</content></invoke>"));
}

#[test]
fn root_gets_namespace() {
    let xml = json_to_xml("{\"version\": 1.0}").unwrap();
    assert!(xml.contains("http://www.w3.org/2005/07/scxml"));
    assert!(xml.contains("version=\"1.0\""));
}

#[test]
fn wrapper_around_one_document_is_unwrapped() {
    let json = "{\"content\":[{\"state\":[{\"id\":\"inner\"}],\"version\":1.0}]}";
    let xml = json_to_xml(json).unwrap();
    assert_eq!(xml.matches("<scxml").count(), 1);
    assert!(xml.contains("id=\"inner\""));
}

#[test]
fn document_to_value_refuses_other_roots() {
    let root = XmlElement { name: "state".to_string(), attributes: vec![], children: vec![] };
    assert!(matches!(document_to_value(&root, true), Err(ScjsonError::Unsupported)));
}

#[test]
fn document_to_value_on_library_tree() {
    let root = XmlElement {
        name: "scxml".to_string(),
        attributes: vec![("initial".to_string(), "a  b".to_string())],
        children: vec![XmlNode::Text("  ".to_string())],
    };
    match document_to_value(&root, true).unwrap() {
        JsonValue::Object(members) => {
            let keys: Vec<&str> = members.iter().map(|(k, _)| k.as_str()).collect();
            assert!(keys.contains(&"initial"));
            assert!(keys.contains(&"version"));
            assert!(!keys.contains(&"content"));
        }
        other => panic!("not an object: {:?}", other),
    }
}

#[test]
fn value_to_document_refuses_arrays() {
    let v = JsonValue::Array(vec![JsonValue::Null]);
    assert!(matches!(value_to_document(&v, true), Err(ScjsonError::Unsupported)));
    let v = JsonValue::Object(vec![(
        "state".to_string(),
        JsonValue::Array(vec![JsonValue::Object(vec![("id".to_string(), JsonValue::Str("s".to_string()))])]),
    )]);
    let e = value_to_document(&v, true).unwrap();
    assert_eq!(e.name, "scxml");
    assert_eq!(e.children.len(), 1);
}

#[test]
fn pruning_reaches_inside_arrays() {
    let obj = to_json(&doc("<state id=\"s\" name=\"\"><onentry><if cond=\"c\"><else/></if></onentry></state>"), true);
    let state = &obj["state"][0];
    assert!(state.get("name").is_none());
    assert!(state["onentry"][0]["if_value"][0].get("else_value").is_none());
    assert_eq!(state["onentry"][0]["if_value"][0]["cond"], "c");
}

#[test]
fn root_name_and_namespace_are_fixed() {
    let xml = json_to_xml("{\"qname\": \"other\", \"xmlns\": \"urn:other\", \"version\": 1.0}").unwrap();
    assert!(xml.contains("<scxml"));
    assert!(!xml.contains("<other"));
    assert!(xml.contains("xmlns=\"http://www.w3.org/2005/07/scxml\""));
    assert!(!xml.contains("urn:other"));
}

#[test]
fn scalars_become_attributes_and_objects_children() {
    let json = "{\"state\":[{\"id\":\"s\",\"count\":3,\"flag\":true,\"type_value\":[{\"id\":\"t\"}],\"donedata\":{\"id\":\"d\"}}]}";
    let xml = json_to_xml(json).unwrap();
    assert!(xml.contains("count=\"3\""));
    assert!(xml.contains("flag=\"true\""));
    assert!(xml.contains("<type_value id=\"t\""));
    assert!(xml.contains("<donedata id=\"d\""));
}

#[test]
fn colliding_attributes_are_both_kept() {
    let xml = doc("<state id=\"s\" type=\"a\" type_value=\"b\" datamodel_attribute=\"c\"/>");
    let obj = to_json(&xml, true);
    let state = &obj["state"][0];
    assert_eq!(state["type_value"], "a");
    assert_eq!(state["type_value_attribute"], "b");
    assert_eq!(state["datamodel_attribute_attribute"], "c");
    let back = json_to_xml(&serde_json::to_string(&obj).unwrap()).unwrap();
    assert!(back.contains("type=\"a\""));
    assert!(back.contains("type_value=\"b\""));
    assert!(back.contains("datamodel_attribute=\"c\""));
    assert_eq!(to_json(&back, true), obj);
}

#[test]
fn attribute_named_like_a_child_is_kept_apart() {
    let xml = doc("<state id=\"s\" state=\"x\" content=\"y\"><state id=\"t\"/>text</state>");
    let obj = to_json(&xml, true);
    let state = &obj["state"][0];
    assert_eq!(state["state_attribute"], "x");
    assert_eq!(state["content_attribute"], "y");
    assert_eq!(state["state"].as_array().unwrap().len(), 1);
    assert_eq!(state["content"][0], "text");
    let back = json_to_xml(&serde_json::to_string(&obj).unwrap()).unwrap();
    assert!(back.contains("state=\"x\""));
    assert!(back.contains("content=\"y\""));
}

#[test]
fn empty_else_and_final_are_pruned() {
    let xml_else = doc("<state id=\"s\"><onentry><if cond=\"true\"><else/></if></onentry></state>");
    let obj = to_json(&xml_else, true);
    let branch = &obj["state"][0]["onentry"][0]["if_value"][0];
    assert_eq!(branch["cond"], "true");
    assert!(branch.get("else_value").is_none());
    let xml_final = doc("<state id=\"s\"><onentry><assign location=\"x\"><scxml><final/></scxml></assign></onentry></state>");
    let obj = to_json(&xml_final, true);
    let nested = &obj["state"][0]["onentry"][0]["assign"][0]["content"][0];
    assert!(nested.get("final").is_none());
    assert_eq!(nested["datamodel_attribute"], "null");
}

#[test]
fn errors_convert_from_library_errors() {
    let e: ScjsonError = serde_json::from_str::<Value>("{").unwrap_err().into();
    assert!(matches!(e, ScjsonError::Json(_)));
}
