//! The qualified-name codec and the node codec, member by member.

use dom_json::decode::DecodeError;
use dom_json::dom::{AttributeDef, NodeDataDef, NodeDef, QualNameDef, QualNameHelper};
use dom_json::encode::html_namespace;
use dom_json::json::Json;

fn s(x: &str) -> String {
    x.to_string()
}

fn entry(k: &str, v: Json) -> (String, Json) {
    (s(k), v)
}

fn html_name(local: &str) -> QualNameDef {
    QualNameDef { prefix: None, ns: html_namespace(), local: s(local) }
}

#[test]
fn shorthand_encoding() {
    let q = html_name("div");
    assert_eq!(QualNameHelper::serialize(&q), Json::Str(s("div")));
}

#[test]
fn full_form_encoding() {
    let q = QualNameDef {
        prefix: Some(s("svg")),
        ns: s("http://www.w3.org/2000/svg"),
        local: s("rect"),
    };
    assert_eq!(
        QualNameHelper::serialize(&q),
        Json::Obj(vec![
            entry("prefix", Json::Str(s("svg"))),
            entry("ns", Json::Str(s("http://www.w3.org/2000/svg"))),
            entry("local", Json::Str(s("rect"))),
        ])
    );
}

#[test]
fn full_form_empty_namespace() {
    let q = QualNameDef { prefix: None, ns: s(""), local: s("x") };
    assert_eq!(
        QualNameHelper::serialize(&q),
        Json::Obj(vec![entry("local", Json::Str(s("x")))])
    );
}

#[test]
fn dual_form_acceptance() {
    let from_short = QualNameHelper::deserialize(&Json::Str(s("div"))).unwrap();
    let from_full = QualNameHelper::deserialize(&Json::Obj(vec![
        entry("ns", Json::Str(html_namespace())),
        entry("local", Json::Str(s("div"))),
    ]))
    .unwrap();
    assert_eq!(from_short, from_full);
    assert_eq!(from_short, html_name("div"));
}

#[test]
fn shorthand_idempotence() {
    let q = html_name("p");
    let once = QualNameHelper::deserialize(&QualNameHelper::serialize(&q)).unwrap();
    assert_eq!(once, q);
    assert!(matches!(QualNameHelper::serialize(&once), Json::Str(_)));

    let foreign = QualNameDef {
        prefix: None,
        ns: s("http://www.w3.org/1998/Math/MathML"),
        local: s("mi"),
    };
    let once = QualNameHelper::deserialize(&QualNameHelper::serialize(&foreign)).unwrap();
    assert_eq!(once, foreign);
    assert!(matches!(QualNameHelper::serialize(&once), Json::Obj(_)));
}

#[test]
fn malformed_qual_name() {
    assert_eq!(
        QualNameHelper::deserialize(&Json::Num(s("5"))),
        Err(DecodeError::MalformedQualifiedName)
    );
    assert_eq!(
        QualNameHelper::deserialize(&Json::Null),
        Err(DecodeError::MalformedQualifiedName)
    );
    // A non-string where `local` is expected is a malformed node, not a
    // malformed name.
    assert_eq!(
        QualNameHelper::deserialize(&Json::Obj(vec![entry("local", Json::Bool(true))])),
        Err(DecodeError::MalformedNode)
    );
}

#[test]
fn attribute_codec() {
    let a = AttributeDef { name: html_name("class"), value: s("wide") };
    let encoded = a.encode();
    assert_eq!(
        encoded,
        Json::Obj(vec![
            entry("name", Json::Str(s("class"))),
            entry("value", Json::Str(s("wide"))),
        ])
    );
    assert_eq!(AttributeDef::decode(&encoded).unwrap(), a);
    assert_eq!(
        AttributeDef::decode(&Json::Obj(vec![entry("name", Json::Arr(vec![]))])),
        Err(DecodeError::MalformedQualifiedName)
    );
    assert_eq!(
        AttributeDef::decode(&Json::Str(s("class"))),
        Err(DecodeError::MalformedNode)
    );
}

#[test]
fn doctype_default_elision() {
    let node = NodeDef {
        data: NodeDataDef::Doctype { name: s("html"), public_id: s(""), system_id: s("") },
        children: vec![],
    };
    assert_eq!(
        node.encode(),
        Json::Obj(vec![
            entry("type", Json::Str(s("Doctype"))),
            entry("name", Json::Str(s("html"))),
        ])
    );
    let decoded = NodeDef::decode(&Json::Obj(vec![
        entry("type", Json::Str(s("Doctype"))),
        entry("name", Json::Str(s("html"))),
    ]))
    .unwrap();
    assert_eq!(decoded, node);
}

#[test]
fn doctype_full() {
    let node = NodeDef {
        data: NodeDataDef::Doctype {
            name: s("html"),
            public_id: s("-//W3C//DTD HTML 4.01//EN"),
            system_id: s("http://www.w3.org/TR/html4/strict.dtd"),
        },
        children: vec![],
    };
    let encoded = node.encode();
    assert_eq!(
        encoded,
        Json::Obj(vec![
            entry("type", Json::Str(s("Doctype"))),
            entry("name", Json::Str(s("html"))),
            entry("public_id", Json::Str(s("-//W3C//DTD HTML 4.01//EN"))),
            entry("system_id", Json::Str(s("http://www.w3.org/TR/html4/strict.dtd"))),
        ])
    );
    assert_eq!(NodeDef::decode(&encoded).unwrap(), node);
}

#[test]
fn boolean_default_elision() {
    let node = NodeDef {
        data: NodeDataDef::Element {
            name: html_name("annotation-xml"),
            attrs: vec![],
            template_contents: None,
            mathml_annotation_xml_integration_point: false,
        },
        children: vec![],
    };
    let encoded = node.encode();
    if let Json::Obj(fields) = &encoded {
        assert!(fields
            .iter()
            .all(|(k, _)| k != "mathml_annotation_xml_integration_point"));
    } else {
        panic!("an element must encode as an object");
    }
    assert_eq!(NodeDef::decode(&encoded).unwrap(), node);

    let set = NodeDef {
        data: NodeDataDef::Element {
            name: html_name("annotation-xml"),
            attrs: vec![],
            template_contents: None,
            mathml_annotation_xml_integration_point: true,
        },
        children: vec![],
    };
    let encoded = set.encode();
    assert_eq!(
        encoded,
        Json::Obj(vec![
            entry("type", Json::Str(s("Element"))),
            entry("name", Json::Str(s("annotation-xml"))),
            entry("mathml_annotation_xml_integration_point", Json::Bool(true)),
        ])
    );
    assert_eq!(NodeDef::decode(&encoded).unwrap(), set);
}

#[test]
fn empty_collection_elision() {
    let node = NodeDef {
        data: NodeDataDef::Element {
            name: html_name("br"),
            attrs: vec![],
            template_contents: None,
            mathml_annotation_xml_integration_point: false,
        },
        children: vec![],
    };
    assert_eq!(
        node.encode(),
        Json::Obj(vec![
            entry("type", Json::Str(s("Element"))),
            entry("name", Json::Str(s("br"))),
        ])
    );
}

#[test]
fn unknown_discriminant_rejection() {
    assert_eq!(
        NodeDef::decode(&Json::Obj(vec![entry("type", Json::Str(s("Bogus")))])),
        Err(DecodeError::MalformedNode)
    );
    assert_eq!(
        NodeDef::decode(&Json::Obj(vec![])),
        Err(DecodeError::MalformedNode)
    );
    assert_eq!(
        NodeDef::decode(&Json::Obj(vec![entry("type", Json::Num(s("3")))])),
        Err(DecodeError::MalformedNode)
    );
    assert_eq!(NodeDef::decode(&Json::Null), Err(DecodeError::MalformedNode));
}

#[test]
fn text_contents_not_elided() {
    let node = NodeDef { data: NodeDataDef::Text { contents: s("") }, children: vec![] };
    assert_eq!(
        node.encode(),
        Json::Obj(vec![
            entry("type", Json::Str(s("Text"))),
            entry("contents", Json::Str(s(""))),
        ])
    );
    assert_eq!(NodeDef::decode(&node.encode()).unwrap(), node);
}

#[test]
fn unknown_members_are_ignored() {
    let decoded = NodeDef::decode(&Json::Obj(vec![
        entry("type", Json::Str(s("Text"))),
        entry("contents", Json::Str(s("a"))),
        entry("extra", Json::Null),
    ]))
    .unwrap();
    assert_eq!(
        decoded,
        NodeDef { data: NodeDataDef::Text { contents: s("a") }, children: vec![] }
    );
}

#[test]
fn element_decode_defaults() {
    let decoded = NodeDef::decode(&Json::Obj(vec![
        entry("type", Json::Str(s("Element"))),
        entry("name", Json::Str(s("div"))),
    ]))
    .unwrap();
    assert_eq!(
        decoded,
        NodeDef {
            data: NodeDataDef::Element {
                name: html_name("div"),
                attrs: vec![],
                template_contents: None,
                mathml_annotation_xml_integration_point: false,
            },
            children: vec![],
        }
    );
}

#[test]
fn processing_instruction_codec() {
    let node = NodeDef {
        data: NodeDataDef::ProcessingInstruction { target: s("xml"), contents: s("x=\"y\"") },
        children: vec![],
    };
    let encoded = node.encode();
    assert_eq!(
        encoded,
        Json::Obj(vec![
            entry("type", Json::Str(s("ProcessingInstruction"))),
            entry("target", Json::Str(s("xml"))),
            entry("contents", Json::Str(s("x=\"y\""))),
        ])
    );
    assert_eq!(NodeDef::decode(&encoded).unwrap(), node);
}

#[test]
fn comment_codec() {
    let node = NodeDef { data: NodeDataDef::Comment { contents: s("note") }, children: vec![] };
    let encoded = node.encode();
    assert_eq!(
        encoded,
        Json::Obj(vec![
            entry("type", Json::Str(s("Comment"))),
            entry("contents", Json::Str(s("note"))),
        ])
    );
    assert_eq!(NodeDef::decode(&encoded).unwrap(), node);
}
