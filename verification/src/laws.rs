//! The laws of the codec: decoding is the inverse of encoding, the
//! shorthand name form is chosen exactly for unprefixed HTML-namespace
//! names, and every default-valued field is omitted from the encoded form.

use vstd::prelude::*;

use crate::decode::{
    spec_decode_attr, spec_decode_attrs, spec_decode_data, spec_decode_dom, spec_decode_node,
    spec_decode_nodes, spec_decode_qual_name, spec_decode_strings, DecodeError,
};
use crate::dom::{AttrView, DomView, NodeDataView, NodeView, QualNameView, QuirksModeDef};
use crate::encode::{
    html_ns, spec_encode_attr, spec_encode_attrs, spec_encode_data_fields, spec_encode_dom,
    spec_encode_errors, spec_encode_node, spec_encode_nodes, spec_encode_qual_name,
    spec_quirks_name,
};
use crate::json::{
    lemma_obj_lookup_absent, lemma_obj_lookup_found, lemma_obj_lookup_skip, obj_lookup, JsonView,
};

verus! {

/// The member names and discriminant values of the wire form are pairwise
/// distinct, so a lookup for one of them never finds another.
pub proof fn lemma_wire_words_distinct()
    ensures
        "prefix"@ != "ns"@,
        "prefix"@ != "local"@,
        "ns"@ != "local"@,
        "name"@ != "value"@,
        "type"@ != "name"@,
        "type"@ != "public_id"@,
        "type"@ != "system_id"@,
        "type"@ != "contents"@,
        "type"@ != "target"@,
        "type"@ != "attrs"@,
        "type"@ != "template_contents"@,
        "type"@ != "mathml_annotation_xml_integration_point"@,
        "type"@ != "children"@,
        "name"@ != "public_id"@,
        "name"@ != "system_id"@,
        "name"@ != "contents"@,
        "name"@ != "target"@,
        "name"@ != "attrs"@,
        "name"@ != "template_contents"@,
        "name"@ != "mathml_annotation_xml_integration_point"@,
        "name"@ != "children"@,
        "public_id"@ != "system_id"@,
        "public_id"@ != "contents"@,
        "public_id"@ != "target"@,
        "public_id"@ != "children"@,
        "system_id"@ != "contents"@,
        "system_id"@ != "target"@,
        "system_id"@ != "children"@,
        "contents"@ != "target"@,
        "contents"@ != "attrs"@,
        "contents"@ != "template_contents"@,
        "contents"@ != "mathml_annotation_xml_integration_point"@,
        "contents"@ != "children"@,
        "target"@ != "children"@,
        "attrs"@ != "template_contents"@,
        "attrs"@ != "mathml_annotation_xml_integration_point"@,
        "attrs"@ != "children"@,
        "template_contents"@ != "mathml_annotation_xml_integration_point"@,
        "template_contents"@ != "children"@,
        "mathml_annotation_xml_integration_point"@ != "children"@,
        "quirks_mode"@ != "document"@,
        "quirks_mode"@ != "errors"@,
        "document"@ != "errors"@,
        "Document"@ != "Doctype"@,
        "Document"@ != "Text"@,
        "Document"@ != "Comment"@,
        "Document"@ != "Element"@,
        "Document"@ != "ProcessingInstruction"@,
        "Doctype"@ != "Text"@,
        "Doctype"@ != "Comment"@,
        "Doctype"@ != "Element"@,
        "Doctype"@ != "ProcessingInstruction"@,
        "Text"@ != "Comment"@,
        "Text"@ != "Element"@,
        "Text"@ != "ProcessingInstruction"@,
        "Comment"@ != "Element"@,
        "Comment"@ != "ProcessingInstruction"@,
        "Element"@ != "ProcessingInstruction"@,
        "Quirks"@ != "LimitedQuirks"@,
        "Quirks"@ != "NoQuirks"@,
        "LimitedQuirks"@ != "NoQuirks"@,
{
    reveal_strlit("prefix");
    reveal_strlit("ns");
    reveal_strlit("local");
    reveal_strlit("type");
    reveal_strlit("name");
    reveal_strlit("value");
    reveal_strlit("contents");
    reveal_strlit("public_id");
    reveal_strlit("system_id");
    reveal_strlit("target");
    reveal_strlit("attrs");
    reveal_strlit("template_contents");
    reveal_strlit("mathml_annotation_xml_integration_point");
    reveal_strlit("children");
    reveal_strlit("quirks_mode");
    reveal_strlit("document");
    reveal_strlit("errors");
    reveal_strlit("Document");
    reveal_strlit("Doctype");
    reveal_strlit("Text");
    reveal_strlit("Comment");
    reveal_strlit("Element");
    reveal_strlit("ProcessingInstruction");
    reveal_strlit("Quirks");
    reveal_strlit("LimitedQuirks");
    reveal_strlit("NoQuirks");
    assert("prefix"@[0] != "ns"@[0]);
    assert("prefix"@[0] != "local"@[0]);
    assert("ns"@[0] != "local"@[0]);
    assert("name"@[0] != "value"@[0]);
    assert("type"@[0] != "name"@[0]);
    assert("type"@[0] != "public_id"@[0]);
    assert("type"@[0] != "system_id"@[0]);
    assert("type"@[0] != "contents"@[0]);
    assert("type"@[1] != "target"@[1]);
    assert("type"@[0] != "attrs"@[0]);
    assert("type"@[1] != "template_contents"@[1]);
    assert("type"@[0] != "mathml_annotation_xml_integration_point"@[0]);
    assert("type"@[0] != "children"@[0]);
    assert("name"@[0] != "public_id"@[0]);
    assert("name"@[0] != "system_id"@[0]);
    assert("name"@[0] != "contents"@[0]);
    assert("name"@[0] != "target"@[0]);
    assert("name"@[0] != "attrs"@[0]);
    assert("name"@[0] != "template_contents"@[0]);
    assert("name"@[0] != "mathml_annotation_xml_integration_point"@[0]);
    assert("name"@[0] != "children"@[0]);
    assert("public_id"@[0] != "system_id"@[0]);
    assert("public_id"@[0] != "contents"@[0]);
    assert("public_id"@[0] != "target"@[0]);
    assert("public_id"@[0] != "children"@[0]);
    assert("system_id"@[0] != "contents"@[0]);
    assert("system_id"@[0] != "target"@[0]);
    assert("system_id"@[0] != "children"@[0]);
    assert("contents"@[0] != "target"@[0]);
    assert("contents"@[0] != "attrs"@[0]);
    assert("contents"@[0] != "template_contents"@[0]);
    assert("contents"@[0] != "mathml_annotation_xml_integration_point"@[0]);
    assert("contents"@[1] != "children"@[1]);
    assert("target"@[0] != "children"@[0]);
    assert("attrs"@[0] != "template_contents"@[0]);
    assert("attrs"@[0] != "mathml_annotation_xml_integration_point"@[0]);
    assert("attrs"@[0] != "children"@[0]);
    assert("template_contents"@[0] != "mathml_annotation_xml_integration_point"@[0]);
    assert("template_contents"@[0] != "children"@[0]);
    assert("mathml_annotation_xml_integration_point"@[0] != "children"@[0]);
    assert("quirks_mode"@[0] != "document"@[0]);
    assert("quirks_mode"@[0] != "errors"@[0]);
    assert("document"@[0] != "errors"@[0]);
    assert("Document"@[3] != "Doctype"@[3]);
    assert("Document"@[0] != "Text"@[0]);
    assert("Document"@[0] != "Comment"@[0]);
    assert("Document"@[0] != "Element"@[0]);
    assert("Document"@[0] != "ProcessingInstruction"@[0]);
    assert("Doctype"@[0] != "Text"@[0]);
    assert("Doctype"@[0] != "Comment"@[0]);
    assert("Doctype"@[0] != "Element"@[0]);
    assert("Doctype"@[0] != "ProcessingInstruction"@[0]);
    assert("Text"@[0] != "Comment"@[0]);
    assert("Text"@[0] != "Element"@[0]);
    assert("Text"@[0] != "ProcessingInstruction"@[0]);
    assert("Comment"@[0] != "Element"@[0]);
    assert("Comment"@[0] != "ProcessingInstruction"@[0]);
    assert("Element"@[0] != "ProcessingInstruction"@[0]);
    assert("Quirks"@[0] != "LimitedQuirks"@[0]);
    assert("Quirks"@[0] != "NoQuirks"@[0]);
    assert("LimitedQuirks"@[0] != "NoQuirks"@[0]);
}

/// Decoding an encoded qualified name gives the name back, whichever of the
/// two forms the encoder chose.
pub proof fn lemma_qual_name_round_trip(q: QualNameView)
    ensures
        spec_decode_qual_name(spec_encode_qual_name(q)) == Ok::<QualNameView, DecodeError>(q),
{
    lemma_wire_words_distinct();
    if q.prefix is None && q.ns == html_ns() {
        assert(spec_decode_qual_name(spec_encode_qual_name(q)) matches Ok(p) && p =~= q);
    } else {
        let pe = (match q.prefix {
            Some(p) => seq![("prefix"@, JsonView::Str(p))],
            None => Seq::<(Seq<char>, JsonView)>::empty(),
        });
        let ne = (if q.ns.len() == 0 {
            Seq::<(Seq<char>, JsonView)>::empty()
        } else {
            seq![("ns"@, JsonView::Str(q.ns))]
        });
        let le = seq![("local"@, JsonView::Str(q.local))];
        let fields = pe + ne + le;
        assert(spec_encode_qual_name(q) == JsonView::Obj(fields));
        assert(fields =~= pe + (ne + le));
        // The `prefix` member is found exactly when the name has one.
        match q.prefix {
            Some(p) => {
                lemma_obj_lookup_found(fields, "prefix"@, 0);
            },
            None => {
                assert forall|i: int| 0 <= i < fields.len() implies (#[trigger] fields[i].0)
                    != "prefix"@ by {}
                lemma_obj_lookup_absent(fields, "prefix"@);
            },
        }
        // The `ns` member is found exactly when the namespace is non-empty.
        assert forall|i: int| 0 <= i < pe.len() implies (#[trigger] pe[i].0) != "ns"@ by {}
        lemma_obj_lookup_skip(pe, ne + le, "ns"@);
        if q.ns.len() == 0 {
            assert(ne + le =~= le);
            lemma_obj_lookup_absent(le, "ns"@);
        } else {
            lemma_obj_lookup_found(ne + le, "ns"@, 0);
        }
        // The `local` member always follows whatever else was emitted.
        assert forall|i: int| 0 <= i < (pe + ne).len() implies (#[trigger] (pe + ne)[i].0)
            != "local"@ by {}
        assert(fields =~= (pe + ne) + le);
        lemma_obj_lookup_skip(pe + ne, le, "local"@);
        lemma_obj_lookup_found(le, "local"@, 0);
        assert(spec_decode_qual_name(spec_encode_qual_name(q)) matches Ok(p) && p =~= q);
    }
}

/// Decoding an encoded attribute gives the attribute back.
pub proof fn lemma_attr_round_trip(a: AttrView)
    ensures
        spec_decode_attr(spec_encode_attr(a)) == Ok::<AttrView, DecodeError>(a),
{
    lemma_wire_words_distinct();
    let fields = seq![("name"@, spec_encode_qual_name(a.name)), ("value"@, JsonView::Str(a.value))];
    lemma_obj_lookup_found(fields, "name"@, 0);
    lemma_obj_lookup_found(fields, "value"@, 1);
    lemma_qual_name_round_trip(a.name);
    assert(spec_decode_attr(spec_encode_attr(a)) matches Ok(r) && r =~= a);
}

/// Decoding an encoded attribute list gives the list back.
pub proof fn lemma_attrs_round_trip(s: Seq<AttrView>)
    ensures
        spec_decode_attrs(spec_encode_attrs(s)) == Ok::<Seq<AttrView>, DecodeError>(s),
    decreases s,
{
    if s.len() == 0 {
        assert(spec_decode_attrs(spec_encode_attrs(s)) matches Ok(r) && r =~= s);
    } else {
        let enc = spec_encode_attrs(s);
        assert(enc[0] == spec_encode_attr(s[0]));
        assert(enc.drop_first() =~= spec_encode_attrs(s.drop_first()));
        lemma_attr_round_trip(s[0]);
        lemma_attrs_round_trip(s.drop_first());
        assert(spec_decode_attrs(enc) matches Ok(r) && r =~= s);
    }
}

/// Decoding an encoded diagnostic list gives the list back.
pub proof fn lemma_strings_round_trip(s: Seq<Seq<char>>)
    ensures
        spec_decode_strings(spec_encode_errors(s)) == Ok::<Seq<Seq<char>>, DecodeError>(s),
    decreases s,
{
    if s.len() == 0 {
        assert(spec_decode_strings(spec_encode_errors(s)) matches Ok(r) && r =~= s);
    } else {
        let enc = spec_encode_errors(s);
        assert(enc[0] == JsonView::Str(s[0]));
        assert(enc.drop_first() =~= spec_encode_errors(s.drop_first()));
        lemma_strings_round_trip(s.drop_first());
        assert(spec_decode_strings(enc) matches Ok(r) && r =~= s);
    }
}

/// No member that a node's payload contributes is named `children`: the
/// child list can never be shadowed by a payload field.
pub proof fn lemma_data_fields_keys(d: NodeDataView)
    ensures
        forall|i: int|
            0 <= i < spec_encode_data_fields(d).len() ==> (#[trigger] spec_encode_data_fields(
                d,
            )[i].0) != "children"@,
{
    lemma_wire_words_distinct();
}

/// Decoding the payload members of an encoded node payload gives the
/// payload back, whatever `children` member may follow them.
pub proof fn lemma_data_round_trip(d: NodeDataView, rest: Seq<(Seq<char>, JsonView)>)
    requires
        forall|i: int| 0 <= i < rest.len() ==> (#[trigger] rest[i].0) == "children"@,
    ensures
        spec_decode_data(spec_encode_data_fields(d) + rest) == Ok::<NodeDataView, DecodeError>(d),
    decreases d,
{
    lemma_wire_words_distinct();
    let df = spec_encode_data_fields(d);
    let fields = df + rest;
    lemma_obj_lookup_found(fields, "type"@, 0);
    match d {
        NodeDataView::Document => {
        },
        NodeDataView::Doctype { name, public_id, system_id } => {
            let tn = seq![("type"@, JsonView::Str("Doctype"@)), ("name"@, JsonView::Str(name))];
            let pe = (if public_id.len() == 0 {
                Seq::<(Seq<char>, JsonView)>::empty()
            } else {
                seq![("public_id"@, JsonView::Str(public_id))]
            });
            let se = (if system_id.len() == 0 {
                Seq::<(Seq<char>, JsonView)>::empty()
            } else {
                seq![("system_id"@, JsonView::Str(system_id))]
            });
            assert(fields =~= tn + (pe + (se + rest)));
            lemma_obj_lookup_found(fields, "name"@, 1);
            lemma_obj_lookup_skip(tn, pe + (se + rest), "public_id"@);
            if public_id.len() == 0 {
                assert forall|i: int| 0 <= i < (pe + (se + rest)).len() implies (#[trigger] (pe
                    + (se + rest))[i].0) != "public_id"@ by {}
                lemma_obj_lookup_absent(pe + (se + rest), "public_id"@);
                assert(public_id =~= Seq::<char>::empty());
            } else {
                lemma_obj_lookup_found(pe + (se + rest), "public_id"@, 0);
            }
            assert(fields =~= (tn + pe) + (se + rest));
            assert forall|i: int| 0 <= i < (tn + pe).len() implies (#[trigger] (tn + pe)[i].0)
                != "system_id"@ by {}
            lemma_obj_lookup_skip(tn + pe, se + rest, "system_id"@);
            if system_id.len() == 0 {
                assert forall|i: int| 0 <= i < (se + rest).len() implies (#[trigger] (se
                    + rest)[i].0) != "system_id"@ by {}
                lemma_obj_lookup_absent(se + rest, "system_id"@);
                assert(system_id =~= Seq::<char>::empty());
            } else {
                lemma_obj_lookup_found(se + rest, "system_id"@, 0);
            }
            assert(spec_decode_data(fields) matches Ok(r) && r =~= d);
        },
        NodeDataView::Text { contents } => {
            lemma_obj_lookup_found(fields, "contents"@, 1);
        },
        NodeDataView::Comment { contents } => {
            lemma_obj_lookup_found(fields, "contents"@, 1);
        },
        NodeDataView::Element {
            name,
            attrs,
            template_contents,
            mathml_annotation_xml_integration_point,
        } => {
            let tn = seq![
                ("type"@, JsonView::Str("Element"@)),
                ("name"@, spec_encode_qual_name(name)),
            ];
            let ap = (if attrs.len() == 0 {
                Seq::<(Seq<char>, JsonView)>::empty()
            } else {
                seq![("attrs"@, JsonView::Arr(spec_encode_attrs(attrs)))]
            });
            let tp = (match template_contents {
                Some(t) => seq![("template_contents"@, spec_encode_node(*t))],
                None => Seq::<(Seq<char>, JsonView)>::empty(),
            });
            let fp = (if !mathml_annotation_xml_integration_point {
                Seq::<(Seq<char>, JsonView)>::empty()
            } else {
                seq![("mathml_annotation_xml_integration_point"@, JsonView::Bool(true))]
            });
            assert(fields =~= tn + (ap + (tp + (fp + rest))));
            lemma_obj_lookup_found(fields, "name"@, 1);
            lemma_qual_name_round_trip(name);
            // The `attrs` member is present exactly when there are
            // attributes.
            lemma_obj_lookup_skip(tn, ap + (tp + (fp + rest)), "attrs"@);
            if attrs.len() == 0 {
                assert forall|i: int| 0 <= i < (ap + (tp + (fp + rest))).len() implies (
                #[trigger] (ap + (tp + (fp + rest)))[i].0) != "attrs"@ by {}
                lemma_obj_lookup_absent(ap + (tp + (fp + rest)), "attrs"@);
                assert(attrs =~= Seq::<AttrView>::empty());
            } else {
                lemma_obj_lookup_found(ap + (tp + (fp + rest)), "attrs"@, 0);
                lemma_attrs_round_trip(attrs);
            }
            // The `template_contents` member is present exactly when the
            // element has template contents.
            crate::decode::lemma_template_walker(fields);
            assert(fields =~= (tn + ap) + (tp + (fp + rest)));
            assert forall|i: int| 0 <= i < (tn + ap).len() implies (#[trigger] (tn + ap)[i].0)
                != "template_contents"@ by {}
            lemma_obj_lookup_skip(tn + ap, tp + (fp + rest), "template_contents"@);
            match template_contents {
                Some(t) => {
                    lemma_obj_lookup_found(tp + (fp + rest), "template_contents"@, 0);
                    lemma_node_round_trip(*t);
                },
                None => {
                    assert forall|i: int| 0 <= i < (tp + (fp + rest)).len() implies (#[trigger] (tp
                        + (fp + rest))[i].0) != "template_contents"@ by {}
                    lemma_obj_lookup_absent(tp + (fp + rest), "template_contents"@);
                },
            }
            // The boolean flag is present exactly when it is set.
            assert(fields =~= ((tn + ap) + tp) + (fp + rest));
            assert forall|i: int| 0 <= i < ((tn + ap) + tp).len() implies (#[trigger] ((tn + ap)
                + tp)[i].0) != "mathml_annotation_xml_integration_point"@ by {}
            lemma_obj_lookup_skip(
                (tn + ap) + tp,
                fp + rest,
                "mathml_annotation_xml_integration_point"@,
            );
            if !mathml_annotation_xml_integration_point {
                assert forall|i: int| 0 <= i < (fp + rest).len() implies (#[trigger] (fp
                    + rest)[i].0) != "mathml_annotation_xml_integration_point"@ by {}
                lemma_obj_lookup_absent(fp + rest, "mathml_annotation_xml_integration_point"@);
            } else {
                lemma_obj_lookup_found(fp + rest, "mathml_annotation_xml_integration_point"@, 0);
            }
            assert(spec_decode_data(fields) matches Ok(r) && r =~= d);
        },
        NodeDataView::ProcessingInstruction { target, contents } => {
            lemma_obj_lookup_found(fields, "target"@, 1);
            lemma_obj_lookup_found(fields, "contents"@, 2);
        },
    }
}

/// Decoding an encoded node gives the node back, children and all.
pub proof fn lemma_node_round_trip(n: NodeView)
    ensures
        spec_decode_node(spec_encode_node(n)) == Ok::<NodeView, DecodeError>(n),
    decreases n,
{
    lemma_wire_words_distinct();
    let df = spec_encode_data_fields(n.data);
    let cf = (if n.children.len() == 0 {
        Seq::<(Seq<char>, JsonView)>::empty()
    } else {
        seq![("children"@, JsonView::Arr(spec_encode_nodes(n.children)))]
    });
    let fields = df + cf;
    lemma_data_round_trip(n.data, cf);
    crate::decode::lemma_children_walker(fields);
    lemma_data_fields_keys(n.data);
    lemma_obj_lookup_skip(df, cf, "children"@);
    if n.children.len() == 0 {
        lemma_obj_lookup_absent(cf, "children"@);
        assert(n.children =~= Seq::<NodeView>::empty());
    } else {
        lemma_obj_lookup_found(cf, "children"@, 0);
        lemma_nodes_round_trip(n.children);
    }
    assert(spec_decode_node(spec_encode_node(n)) matches Ok(r) && r =~= n);
}

/// Decoding an encoded node list gives the list back.
pub proof fn lemma_nodes_round_trip(s: Seq<NodeView>)
    ensures
        spec_decode_nodes(spec_encode_nodes(s)) == Ok::<Seq<NodeView>, DecodeError>(s),
    decreases s,
{
    if s.len() == 0 {
        assert(spec_decode_nodes(spec_encode_nodes(s)) matches Ok(r) && r =~= s);
    } else {
        let enc = spec_encode_nodes(s);
        assert(enc[0] == spec_encode_node(s[0]));
        assert(enc.drop_first() =~= spec_encode_nodes(s.drop_first()));
        lemma_node_round_trip(s[0]);
        lemma_nodes_round_trip(s.drop_first());
        assert(spec_decode_nodes(enc) matches Ok(r) && r =~= s);
    }
}

/// Decoding an encoded document gives the document back, field by field:
/// the round trip loses nothing but shared handle identity and parent
/// back-references, neither of which the wire form carries.
pub proof fn lemma_tree_round_trip(d: DomView)
    ensures
        spec_decode_dom(spec_encode_dom(d)) == Ok::<DomView, DecodeError>(d),
{
    lemma_wire_words_distinct();
    let qf = (if d.quirks_mode == QuirksModeDef::NoQuirks {
        Seq::<(Seq<char>, JsonView)>::empty()
    } else {
        seq![("quirks_mode"@, JsonView::Str(spec_quirks_name(d.quirks_mode)))]
    });
    let de = seq![("document"@, spec_encode_node(d.document))];
    let ef = (if d.errors.len() == 0 {
        Seq::<(Seq<char>, JsonView)>::empty()
    } else {
        seq![("errors"@, JsonView::Arr(spec_encode_errors(d.errors)))]
    });
    let fields = qf + de + ef;
    assert(fields =~= qf + (de + ef));
    // The root node is always present and round-trips.
    assert forall|i: int| 0 <= i < qf.len() implies (#[trigger] qf[i].0) != "document"@ by {}
    lemma_obj_lookup_skip(qf, de + ef, "document"@);
    lemma_obj_lookup_found(de + ef, "document"@, 0);
    lemma_node_round_trip(d.document);
    // The mode is present exactly when it is not the default.
    if d.quirks_mode == QuirksModeDef::NoQuirks {
        assert forall|i: int| 0 <= i < fields.len() implies (#[trigger] fields[i].0)
            != "quirks_mode"@ by {}
        lemma_obj_lookup_absent(fields, "quirks_mode"@);
    } else {
        lemma_obj_lookup_found(fields, "quirks_mode"@, 0);
        reveal_strlit("Quirks");
        reveal_strlit("LimitedQuirks");
        reveal_strlit("NoQuirks");
    }
    // The diagnostics are present exactly when there are any.
    assert(fields =~= (qf + de) + ef);
    assert forall|i: int| 0 <= i < (qf + de).len() implies (#[trigger] (qf + de)[i].0)
        != "errors"@ by {}
    lemma_obj_lookup_skip(qf + de, ef, "errors"@);
    if d.errors.len() == 0 {
        lemma_obj_lookup_absent(ef, "errors"@);
        assert(d.errors =~= Seq::<Seq<char>>::empty());
    } else {
        lemma_obj_lookup_found(ef, "errors"@, 0);
        lemma_strings_round_trip(d.errors);
    }
    assert(spec_decode_dom(spec_encode_dom(d)) matches Ok(r) && r =~= d);
}

/// The encoder chooses the shorthand string form exactly for unprefixed
/// HTML-namespace names and the full object form for every other name, and
/// either choice decodes back to the name it encoded.
pub proof fn lemma_shorthand_idempotence(q: QualNameView)
    ensures
        spec_decode_qual_name(spec_encode_qual_name(q)) == Ok::<QualNameView, DecodeError>(q),
        (q.prefix is None && q.ns == html_ns()) <==> spec_encode_qual_name(q) is Str,
        !(q.prefix is None && q.ns == html_ns()) <==> spec_encode_qual_name(q) is Obj,
{
    lemma_qual_name_round_trip(q);
}

/// Both the shorthand string form and the full object form of an
/// HTML-namespace name decode to the same qualified name.
pub proof fn lemma_dual_form_acceptance(local: Seq<char>)
    ensures
        spec_decode_qual_name(JsonView::Str(local)) == Ok::<QualNameView, DecodeError>(
            QualNameView { prefix: None, ns: html_ns(), local },
        ),
        spec_decode_qual_name(
            JsonView::Obj(
                seq![("ns"@, JsonView::Str(html_ns())), ("local"@, JsonView::Str(local))],
            ),
        ) == Ok::<QualNameView, DecodeError>(
            QualNameView { prefix: None, ns: html_ns(), local },
        ),
{
    lemma_wire_words_distinct();
    let fields = seq![("ns"@, JsonView::Str(html_ns())), ("local"@, JsonView::Str(local))];
    assert forall|i: int| 0 <= i < fields.len() implies (#[trigger] fields[i].0)
        != "prefix"@ by {}
    lemma_obj_lookup_absent(fields, "prefix"@);
    lemma_obj_lookup_found(fields, "ns"@, 0);
    lemma_obj_lookup_found(fields, "local"@, 1);
    reveal_strlit("http://www.w3.org/1999/xhtml");
    assert(html_ns().len() != 0);
    assert(spec_decode_qual_name(JsonView::Obj(fields)) matches Ok(r) && r =~= (QualNameView {
        prefix: None,
        ns: html_ns(),
        local,
    }));
}

/// A doctype with empty public and system identifiers encodes without
/// either member, and an encoded doctype lacking them decodes with both
/// empty.
pub proof fn lemma_doctype_default_elision(name: Seq<char>)
    ensures
        spec_encode_node(
            NodeView {
                data: NodeDataView::Doctype {
                    name,
                    public_id: Seq::empty(),
                    system_id: Seq::empty(),
                },
                children: Seq::empty(),
            },
        ) == JsonView::Obj(
            seq![("type"@, JsonView::Str("Doctype"@)), ("name"@, JsonView::Str(name))],
        ),
        spec_decode_node(
            JsonView::Obj(
                seq![("type"@, JsonView::Str("Doctype"@)), ("name"@, JsonView::Str(name))],
            ),
        ) == Ok::<NodeView, DecodeError>(
            NodeView {
                data: NodeDataView::Doctype {
                    name,
                    public_id: Seq::empty(),
                    system_id: Seq::empty(),
                },
                children: Seq::empty(),
            },
        ),
{
    let n = NodeView {
        data: NodeDataView::Doctype { name, public_id: Seq::empty(), system_id: Seq::empty() },
        children: Seq::empty(),
    };
    let fields = seq![("type"@, JsonView::Str("Doctype"@)), ("name"@, JsonView::Str(name))];
    assert(spec_encode_node(n) matches JsonView::Obj(f) && f =~= fields);
    lemma_node_round_trip(n);
}

/// An element whose boolean flag is `false` encodes without the flag
/// member, and a member list without the flag decodes it as `false`.
pub proof fn lemma_flag_default_elision(n: NodeView, f: Seq<(Seq<char>, JsonView)>)
    requires
        n.data matches NodeDataView::Element { mathml_annotation_xml_integration_point, .. }
            && !mathml_annotation_xml_integration_point,
        obj_lookup(f, "mathml_annotation_xml_integration_point"@) == None::<JsonView>,
    ensures
        spec_encode_node(n) matches JsonView::Obj(g) && obj_lookup(
            g,
            "mathml_annotation_xml_integration_point"@,
        ) == None::<JsonView>,
        crate::decode::spec_flag_field(f) == Ok::<bool, DecodeError>(false),
{
    lemma_wire_words_distinct();
    let g = (spec_encode_node(n)->Obj_0);
    assert forall|i: int| 0 <= i < g.len() implies (#[trigger] g[i].0)
        != "mathml_annotation_xml_integration_point"@ by {}
    lemma_obj_lookup_absent(g, "mathml_annotation_xml_integration_point"@);
}

/// An element with no attributes and no children encodes without either
/// the `attrs` or the `children` member.
pub proof fn lemma_empty_collection_elision(n: NodeView)
    requires
        n.data matches NodeDataView::Element { attrs, .. } && attrs.len() == 0,
        n.children.len() == 0,
    ensures
        spec_encode_node(n) matches JsonView::Obj(g) && obj_lookup(g, "attrs"@) == None::<JsonView>
            && obj_lookup(g, "children"@) == None::<JsonView>,
{
    lemma_wire_words_distinct();
    let g = (spec_encode_node(n)->Obj_0);
    assert forall|i: int| 0 <= i < g.len() implies (#[trigger] g[i].0) != "attrs"@ by {}
    lemma_obj_lookup_absent(g, "attrs"@);
    assert forall|i: int| 0 <= i < g.len() implies (#[trigger] g[i].0) != "children"@ by {}
    lemma_obj_lookup_absent(g, "children"@);
}

/// A JSON object whose `type` discriminant names no variant is rejected as
/// a malformed node.
pub proof fn lemma_unknown_discriminant_rejection()
    ensures
        spec_decode_node(JsonView::Obj(seq![("type"@, JsonView::Str("Bogus"@))])) == Err::<
            NodeView,
            DecodeError,
        >(DecodeError::MalformedNode),
{
    let fields = seq![("type"@, JsonView::Str("Bogus"@))];
    lemma_obj_lookup_found(fields, "type"@, 0);
    reveal_strlit("Bogus");
    reveal_strlit("Document");
    reveal_strlit("Doctype");
    reveal_strlit("Text");
    reveal_strlit("Comment");
    reveal_strlit("Element");
    reveal_strlit("ProcessingInstruction");
    assert("Bogus"@[0] != "Document"@[0]);
    assert("Bogus"@[0] != "Doctype"@[0]);
    assert("Bogus"@[0] != "Text"@[0]);
    assert("Bogus"@[0] != "Comment"@[0]);
    assert("Bogus"@[0] != "Element"@[0]);
    assert("Bogus"@[0] != "ProcessingInstruction"@[0]);
}

} // verus!
