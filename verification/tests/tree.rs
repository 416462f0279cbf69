//! Whole-document encoding, decoding and round trips.

use dom_json::decode::DecodeError;
use dom_json::dom::{
    is_empty_refcell_vec, is_empty_text, is_false, AttributeDef, NodeDataDef, NodeDef,
    QualNameDef, QuirksModeDef, RcDomDef,
};
use dom_json::encode::html_namespace;
use dom_json::json::Json;

fn s(x: &str) -> String {
    x.to_string()
}

fn entry(k: &str, v: Json) -> (String, Json) {
    (s(k), v)
}

fn html_name(local: &str) -> QualNameDef {
    QualNameDef { prefix: None, ns: html_namespace(), local: s(local) }
}

fn text(contents: &str) -> NodeDef {
    NodeDef { data: NodeDataDef::Text { contents: s(contents) }, children: vec![] }
}

#[test]
fn end_to_end_scenario() {
    let tree = RcDomDef {
        quirks_mode: QuirksModeDef::NoQuirks,
        document: NodeDef {
            data: NodeDataDef::Document,
            children: vec![NodeDef {
                data: NodeDataDef::Element {
                    name: html_name("p"),
                    attrs: vec![],
                    template_contents: None,
                    mathml_annotation_xml_integration_point: false,
                },
                children: vec![text("hi")],
            }],
        },
        errors: vec![],
    };
    let expected = Json::Obj(vec![entry(
        "document",
        Json::Obj(vec![
            entry("type", Json::Str(s("Document"))),
            entry(
                "children",
                Json::Arr(vec![Json::Obj(vec![
                    entry("type", Json::Str(s("Element"))),
                    entry("name", Json::Str(s("p"))),
                    entry(
                        "children",
                        Json::Arr(vec![Json::Obj(vec![
                            entry("type", Json::Str(s("Text"))),
                            entry("contents", Json::Str(s("hi"))),
                        ])]),
                    ),
                ])]),
            ),
        ]),
    )]);
    let encoded = tree.encode();
    assert_eq!(encoded, expected);
    assert_eq!(RcDomDef::decode(&encoded).unwrap(), tree);
}

#[test]
fn round_trip_full_tree() {
    let template_body = NodeDef {
        data: NodeDataDef::Element {
            name: html_name("span"),
            attrs: vec![],
            template_contents: None,
            mathml_annotation_xml_integration_point: false,
        },
        children: vec![text("inner")],
    };
    let tree = RcDomDef {
        quirks_mode: QuirksModeDef::Quirks,
        document: NodeDef {
            data: NodeDataDef::Document,
            children: vec![
                NodeDef {
                    data: NodeDataDef::Doctype {
                        name: s("html"),
                        public_id: s("pub"),
                        system_id: s(""),
                    },
                    children: vec![],
                },
                NodeDef {
                    data: NodeDataDef::Comment { contents: s("a comment") },
                    children: vec![],
                },
                NodeDef {
                    data: NodeDataDef::Element {
                        name: html_name("template"),
                        attrs: vec![
                            AttributeDef { name: html_name("id"), value: s("t1") },
                            AttributeDef {
                                name: QualNameDef {
                                    prefix: Some(s("xlink")),
                                    ns: s("http://www.w3.org/1999/xlink"),
                                    local: s("href"),
                                },
                                value: s("#x"),
                            },
                        ],
                        template_contents: Some(Box::new(template_body)),
                        mathml_annotation_xml_integration_point: false,
                    },
                    children: vec![text("visible")],
                },
                NodeDef {
                    data: NodeDataDef::ProcessingInstruction {
                        target: s("pi"),
                        contents: s("data"),
                    },
                    children: vec![],
                },
            ],
        },
        errors: vec![s("first diagnostic"), s("second diagnostic")],
    };
    let encoded = tree.encode();
    assert_eq!(RcDomDef::decode(&encoded).unwrap(), tree);
}

#[test]
fn quirks_mode_elision() {
    let no_quirks = RcDomDef {
        quirks_mode: QuirksModeDef::NoQuirks,
        document: NodeDef { data: NodeDataDef::Document, children: vec![] },
        errors: vec![],
    };
    assert_eq!(
        no_quirks.encode(),
        Json::Obj(vec![entry(
            "document",
            Json::Obj(vec![entry("type", Json::Str(s("Document")))]),
        )])
    );

    let limited = RcDomDef { quirks_mode: QuirksModeDef::LimitedQuirks, ..no_quirks };
    let encoded = limited.encode();
    assert_eq!(
        encoded,
        Json::Obj(vec![
            entry("quirks_mode", Json::Str(s("LimitedQuirks"))),
            entry(
                "document",
                Json::Obj(vec![entry("type", Json::Str(s("Document")))]),
            ),
        ])
    );
    assert_eq!(RcDomDef::decode(&encoded).unwrap().quirks_mode, QuirksModeDef::LimitedQuirks);
}

#[test]
fn errors_carried_verbatim() {
    let tree = RcDomDef {
        quirks_mode: QuirksModeDef::NoQuirks,
        document: NodeDef { data: NodeDataDef::Document, children: vec![] },
        errors: vec![s("b"), s("a")],
    };
    let encoded = tree.encode();
    assert_eq!(
        encoded,
        Json::Obj(vec![
            entry(
                "document",
                Json::Obj(vec![entry("type", Json::Str(s("Document")))]),
            ),
            entry("errors", Json::Arr(vec![Json::Str(s("b")), Json::Str(s("a"))])),
        ])
    );
    assert_eq!(RcDomDef::decode(&encoded).unwrap(), tree);
}

#[test]
fn document_member_required() {
    assert_eq!(RcDomDef::decode(&Json::Obj(vec![])), Err(DecodeError::MalformedNode));
    assert_eq!(
        RcDomDef::decode(&Json::Arr(vec![])),
        Err(DecodeError::MalformedNode)
    );
    assert_eq!(
        RcDomDef::decode(&Json::Obj(vec![
            entry("document", Json::Obj(vec![entry("type", Json::Str(s("Document")))])),
            entry("quirks_mode", Json::Str(s("Sideways"))),
        ])),
        Err(DecodeError::MalformedNode)
    );
}

#[test]
fn malformation_aborts_whole_decode() {
    // A bad node deep in the tree fails the entire decode.
    let encoded = Json::Obj(vec![entry(
        "document",
        Json::Obj(vec![
            entry("type", Json::Str(s("Document"))),
            entry(
                "children",
                Json::Arr(vec![
                    Json::Obj(vec![entry("type", Json::Str(s("Text"))), entry("contents", Json::Str(s("ok")))]),
                    Json::Obj(vec![entry("type", Json::Str(s("Nonsense")))]),
                ]),
            ),
        ]),
    )]);
    assert_eq!(RcDomDef::decode(&encoded), Err(DecodeError::MalformedNode));
}

#[test]
fn elision_predicates() {
    assert!(is_false(&false));
    assert!(!is_false(&true));
    let empty: Vec<NodeDef> = vec![];
    assert!(is_empty_refcell_vec(&empty));
    assert!(!is_empty_refcell_vec(&vec![text("x")]));
    assert!(is_empty_text(&s("")));
    assert!(!is_empty_text(&s("x")));
}

#[test]
fn wrong_shapes_are_malformed() {
    // `children` must be an array.
    assert_eq!(
        NodeDef::decode(&Json::Obj(vec![
            entry("type", Json::Str(s("Document"))),
            entry("children", Json::Str(s("none"))),
        ])),
        Err(DecodeError::MalformedNode)
    );
    // `attrs` must be an array.
    assert_eq!(
        NodeDef::decode(&Json::Obj(vec![
            entry("type", Json::Str(s("Element"))),
            entry("name", Json::Str(s("div"))),
            entry("attrs", Json::Obj(vec![])),
        ])),
        Err(DecodeError::MalformedNode)
    );
    // The boolean flag must be a boolean.
    assert_eq!(
        NodeDef::decode(&Json::Obj(vec![
            entry("type", Json::Str(s("Element"))),
            entry("name", Json::Str(s("div"))),
            entry("mathml_annotation_xml_integration_point", Json::Str(s("true"))),
        ])),
        Err(DecodeError::MalformedNode)
    );
    // Every diagnostic must be a string.
    assert_eq!(
        RcDomDef::decode(&Json::Obj(vec![
            entry("document", Json::Obj(vec![entry("type", Json::Str(s("Document")))])),
            entry("errors", Json::Arr(vec![Json::Bool(false)])),
        ])),
        Err(DecodeError::MalformedNode)
    );
}

#[test]
fn first_member_wins() {
    let decoded = NodeDef::decode(&Json::Obj(vec![
        entry("type", Json::Str(s("Text"))),
        entry("contents", Json::Str(s("a"))),
        entry("contents", Json::Str(s("b"))),
    ]))
    .unwrap();
    assert_eq!(
        decoded,
        NodeDef { data: NodeDataDef::Text { contents: s("a") }, children: vec![] }
    );
}

#[test]
fn template_contents_round_trip() {
    let node = NodeDef {
        data: NodeDataDef::Element {
            name: html_name("template"),
            attrs: vec![],
            template_contents: Some(Box::new(text("stamped"))),
            mathml_annotation_xml_integration_point: false,
        },
        children: vec![],
    };
    let encoded = node.encode();
    assert_eq!(
        encoded,
        Json::Obj(vec![
            entry("type", Json::Str(s("Element"))),
            entry("name", Json::Str(s("template"))),
            entry(
                "template_contents",
                Json::Obj(vec![
                    entry("type", Json::Str(s("Text"))),
                    entry("contents", Json::Str(s("stamped"))),
                ]),
            ),
        ])
    );
    assert_eq!(NodeDef::decode(&encoded).unwrap(), node);
}

#[test]
fn child_order_preserved() {
    let tree = NodeDef {
        data: NodeDataDef::Document,
        children: vec![text("one"), text("two"), text("three")],
    };
    let decoded = NodeDef::decode(&tree.encode()).unwrap();
    assert_eq!(decoded.children.len(), 3);
    assert_eq!(decoded, tree);
}

#[test]
fn explicit_no_quirks_accepted() {
    let decoded = RcDomDef::decode(&Json::Obj(vec![
        entry("quirks_mode", Json::Str(s("NoQuirks"))),
        entry("document", Json::Obj(vec![entry("type", Json::Str(s("Document")))])),
    ]))
    .unwrap();
    assert_eq!(decoded.quirks_mode, QuirksModeDef::NoQuirks);
}

#[test]
fn lacks_quirks() {
    assert!(QuirksModeDef::lacks_quirks(&QuirksModeDef::NoQuirks));
    assert!(!QuirksModeDef::lacks_quirks(&QuirksModeDef::Quirks));
    assert!(!QuirksModeDef::lacks_quirks(&QuirksModeDef::LimitedQuirks));
}
