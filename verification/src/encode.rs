//! Encoding a document tree as a JSON value.
//!
//! Every node becomes a JSON object with a `type` discriminant naming its
//! variant, the variant's own fields, and a `children` array; ownership is
//! encoded structurally, by nesting.  A field whose value equals its default
//! (`false` for the boolean element flag, empty for text fields with an
//! empty default, empty lists, an absent template, `NoQuirks`) is omitted
//! entirely.  A qualified name with no prefix and the HTML namespace is
//! encoded as its bare local name; any other name is encoded as an object.

use vstd::prelude::*;

use crate::dom::{
    attrs_view, is_empty_refcell_vec, is_empty_text, is_false, lemma_attrs_view, lemma_nodes_view,
    lemma_strs_view, nodes_view, strs_view, AttrView, AttributeDef, DomView, NodeDataDef,
    NodeDataView, NodeDef, NodeView, QualNameDef, QualNameHelper, QualNameView, QuirksModeDef,
    RcDomDef,
};
use crate::json::{arr_view, fields_view, lemma_arr_view, lemma_fields_view, Json, JsonView};

verus! {

/// The HTML namespace: the one namespace whose unprefixed names take the
/// shorthand string form.
pub open spec fn html_ns() -> Seq<char> {
    "http://www.w3.org/1999/xhtml"@
}

/// The HTML namespace as a string value.
pub fn html_namespace() -> (r: String)
    ensures
        r@ == html_ns(),
{
    "http://www.w3.org/1999/xhtml".to_owned()
}

/// The encoding of a qualified name: the bare local name for an unprefixed
/// HTML-namespace name, otherwise an object with `prefix` omitted when
/// absent and `ns` omitted when empty.
pub open spec fn spec_encode_qual_name(q: QualNameView) -> JsonView {
    if q.prefix is None && q.ns == html_ns() {
        JsonView::Str(q.local)
    } else {
        JsonView::Obj(
            (match q.prefix {
                Some(p) => seq![("prefix"@, JsonView::Str(p))],
                None => Seq::empty(),
            }) + (if q.ns.len() == 0 {
                Seq::empty()
            } else {
                seq![("ns"@, JsonView::Str(q.ns))]
            }) + seq![("local"@, JsonView::Str(q.local))],
        )
    }
}

/// The encoding of one attribute.
pub open spec fn spec_encode_attr(a: AttrView) -> JsonView {
    JsonView::Obj(
        seq![("name"@, spec_encode_qual_name(a.name)), ("value"@, JsonView::Str(a.value))],
    )
}

/// The encodings of a list of attributes, in order.
pub open spec fn spec_encode_attrs(s: Seq<AttrView>) -> Seq<JsonView>
    decreases s,
{
    if s.len() == 0 {
        Seq::empty()
    } else {
        seq![spec_encode_attr(s[0])] + spec_encode_attrs(s.drop_first())
    }
}

/// `spec_encode_attrs` maps the list elementwise.
pub proof fn lemma_spec_encode_attrs(s: Seq<AttrView>)
    ensures
        spec_encode_attrs(s).len() == s.len(),
        forall|i: int|
            0 <= i < s.len() ==> #[trigger] spec_encode_attrs(s)[i] == spec_encode_attr(s[i]),
    decreases s,
{
    if s.len() > 0 {
        lemma_spec_encode_attrs(s.drop_first());
        assert forall|i: int| 0 <= i < s.len() implies #[trigger] spec_encode_attrs(s)[i]
            == spec_encode_attr(s[i]) by {
            if i > 0 {
                assert(s.drop_first()[i - 1] == s[i]);
            }
        }
    }
}

/// The members contributed by a node's payload: the `type` discriminant
/// first, then the variant's own fields, each elided when it equals its
/// default.
pub open spec fn spec_encode_data_fields(d: NodeDataView) -> Seq<(Seq<char>, JsonView)>
    decreases d,
{
    match d {
        NodeDataView::Document => seq![("type"@, JsonView::Str("Document"@))],
        NodeDataView::Doctype { name, public_id, system_id } => {
            seq![("type"@, JsonView::Str("Doctype"@)), ("name"@, JsonView::Str(name))] + (
            if public_id.len() == 0 {
                Seq::empty()
            } else {
                seq![("public_id"@, JsonView::Str(public_id))]
            }) + (if system_id.len() == 0 {
                Seq::empty()
            } else {
                seq![("system_id"@, JsonView::Str(system_id))]
            })
        },
        NodeDataView::Text { contents } => {
            seq![("type"@, JsonView::Str("Text"@)), ("contents"@, JsonView::Str(contents))]
        },
        NodeDataView::Comment { contents } => {
            seq![("type"@, JsonView::Str("Comment"@)), ("contents"@, JsonView::Str(contents))]
        },
        NodeDataView::Element {
            name,
            attrs,
            template_contents,
            mathml_annotation_xml_integration_point,
        } => {
            seq![("type"@, JsonView::Str("Element"@)), ("name"@, spec_encode_qual_name(name))] + (
            if attrs.len() == 0 {
                Seq::empty()
            } else {
                seq![("attrs"@, JsonView::Arr(spec_encode_attrs(attrs)))]
            }) + (match template_contents {
                Some(t) => seq![("template_contents"@, spec_encode_node(*t))],
                None => Seq::empty(),
            }) + (if !mathml_annotation_xml_integration_point {
                Seq::empty()
            } else {
                seq![("mathml_annotation_xml_integration_point"@, JsonView::Bool(true))]
            })
        },
        NodeDataView::ProcessingInstruction { target, contents } => {
            seq![
                ("type"@, JsonView::Str("ProcessingInstruction"@)),
                ("target"@, JsonView::Str(target)),
                ("contents"@, JsonView::Str(contents)),
            ]
        },
    }
}

/// The encoding of one node: its payload's members followed by a `children`
/// array, which is omitted when the node has no children.
pub open spec fn spec_encode_node(n: NodeView) -> JsonView
    decreases n,
{
    JsonView::Obj(
        spec_encode_data_fields(n.data) + (if n.children.len() == 0 {
            Seq::empty()
        } else {
            seq![("children"@, JsonView::Arr(spec_encode_nodes(n.children)))]
        }),
    )
}

/// The encodings of a list of nodes, in order.
pub open spec fn spec_encode_nodes(s: Seq<NodeView>) -> Seq<JsonView>
    decreases s,
{
    if s.len() == 0 {
        Seq::empty()
    } else {
        seq![spec_encode_node(s[0])] + spec_encode_nodes(s.drop_first())
    }
}

/// `spec_encode_nodes` maps the list elementwise.
pub proof fn lemma_spec_encode_nodes(s: Seq<NodeView>)
    ensures
        spec_encode_nodes(s).len() == s.len(),
        forall|i: int|
            0 <= i < s.len() ==> #[trigger] spec_encode_nodes(s)[i] == spec_encode_node(s[i]),
    decreases s,
{
    if s.len() > 0 {
        lemma_spec_encode_nodes(s.drop_first());
        assert forall|i: int| 0 <= i < s.len() implies #[trigger] spec_encode_nodes(s)[i]
            == spec_encode_node(s[i]) by {
            if i > 0 {
                assert(s.drop_first()[i - 1] == s[i]);
            }
        }
    }
}

/// The wire name of a compatibility mode.
pub open spec fn spec_quirks_name(q: QuirksModeDef) -> Seq<char> {
    match q {
        QuirksModeDef::Quirks => "Quirks"@,
        QuirksModeDef::LimitedQuirks => "LimitedQuirks"@,
        QuirksModeDef::NoQuirks => "NoQuirks"@,
    }
}

/// The encodings of the diagnostic strings, in order.
pub open spec fn spec_encode_errors(s: Seq<Seq<char>>) -> Seq<JsonView>
    decreases s,
{
    if s.len() == 0 {
        Seq::empty()
    } else {
        seq![JsonView::Str(s[0])] + spec_encode_errors(s.drop_first())
    }
}

/// `spec_encode_errors` maps the list elementwise.
pub proof fn lemma_spec_encode_errors(s: Seq<Seq<char>>)
    ensures
        spec_encode_errors(s).len() == s.len(),
        forall|i: int|
            0 <= i < s.len() ==> #[trigger] spec_encode_errors(s)[i] == JsonView::Str(s[i]),
    decreases s,
{
    if s.len() > 0 {
        lemma_spec_encode_errors(s.drop_first());
        assert forall|i: int| 0 <= i < s.len() implies #[trigger] spec_encode_errors(s)[i]
            == JsonView::Str(s[i]) by {
            if i > 0 {
                assert(s.drop_first()[i - 1] == s[i]);
            }
        }
    }
}

/// The encoding of a whole document: `quirks_mode` omitted when it is
/// `NoQuirks`, the root node under `document`, and `errors` omitted when
/// empty.
pub open spec fn spec_encode_dom(d: DomView) -> JsonView {
    JsonView::Obj(
        (if d.quirks_mode == QuirksModeDef::NoQuirks {
            Seq::empty()
        } else {
            seq![("quirks_mode"@, JsonView::Str(spec_quirks_name(d.quirks_mode)))]
        }) + seq![("document"@, spec_encode_node(d.document))] + (if d.errors.len() == 0 {
            Seq::empty()
        } else {
            seq![("errors"@, JsonView::Arr(spec_encode_errors(d.errors)))]
        }),
    )
}

impl QualNameHelper {
    /// Encodes a qualified name, choosing the shorthand string form exactly
    /// for unprefixed HTML-namespace names.
    pub fn serialize(val: &QualNameDef) -> (r: Json)
        ensures
            r@ == spec_encode_qual_name(val@),
    {
        let is_short = match &val.prefix {
            None => val.ns == html_namespace(),
            Some(_) => false,
        };
        if is_short {
            Json::Str(val.local.clone())
        } else {
            let mut fields: Vec<(String, Json)> = Vec::new();
            match &val.prefix {
                Some(p) => fields.push(("prefix".to_owned(), Json::Str(p.clone()))),
                None => (),
            }
            if !is_empty_text(&val.ns) {
                fields.push(("ns".to_owned(), Json::Str(val.ns.clone())));
            }
            fields.push(("local".to_owned(), Json::Str(val.local.clone())));
            let r = Json::Obj(fields);
            proof {
                lemma_fields_view(fields@);
                assert(r@ matches JsonView::Obj(f) && f =~= (match val@.prefix {
                    Some(p) => seq![("prefix"@, JsonView::Str(p))],
                    None => Seq::empty(),
                }) + (if val@.ns.len() == 0 {
                    Seq::empty()
                } else {
                    seq![("ns"@, JsonView::Str(val@.ns))]
                }) + seq![("local"@, JsonView::Str(val@.local))]);
            }
            r
        }
    }
}

impl AttributeDef {
    /// Encodes one attribute as `{name, value}`.
    pub fn encode(&self) -> (r: Json)
        ensures
            r@ == spec_encode_attr(self@),
    {
        let mut fields: Vec<(String, Json)> = Vec::new();
        fields.push(("name".to_owned(), QualNameHelper::serialize(&self.name)));
        fields.push(("value".to_owned(), Json::Str(self.value.clone())));
        let r = Json::Obj(fields);
        proof {
            lemma_fields_view(fields@);
            assert(r@ matches JsonView::Obj(f) && f =~= seq![
                ("name"@, spec_encode_qual_name(self@.name)),
                ("value"@, JsonView::Str(self@.value)),
            ]);
        }
        r
    }
}

impl NodeDataDef {
    /// Encodes a node payload as its member list: the `type` discriminant
    /// and the variant's non-default fields.
    fn encode_fields(&self) -> (r: Vec<(String, Json)>)
        ensures
            fields_view(r@) == spec_encode_data_fields(self@),
        decreases *self,
    {
        let mut fields: Vec<(String, Json)> = Vec::new();
        match self {
            NodeDataDef::Document => {
                fields.push(("type".to_owned(), Json::Str("Document".to_owned())));
            },
            NodeDataDef::Doctype { name, public_id, system_id } => {
                fields.push(("type".to_owned(), Json::Str("Doctype".to_owned())));
                fields.push(("name".to_owned(), Json::Str(name.clone())));
                if !is_empty_text(public_id) {
                    fields.push(("public_id".to_owned(), Json::Str(public_id.clone())));
                }
                if !is_empty_text(system_id) {
                    fields.push(("system_id".to_owned(), Json::Str(system_id.clone())));
                }
            },
            NodeDataDef::Text { contents } => {
                fields.push(("type".to_owned(), Json::Str("Text".to_owned())));
                fields.push(("contents".to_owned(), Json::Str(contents.clone())));
            },
            NodeDataDef::Comment { contents } => {
                fields.push(("type".to_owned(), Json::Str("Comment".to_owned())));
                fields.push(("contents".to_owned(), Json::Str(contents.clone())));
            },
            NodeDataDef::Element {
                name,
                attrs,
                template_contents,
                mathml_annotation_xml_integration_point,
            } => {
                fields.push(("type".to_owned(), Json::Str("Element".to_owned())));
                fields.push(("name".to_owned(), QualNameHelper::serialize(name)));
                if !is_empty_refcell_vec(attrs) {
                    let mut elems: Vec<Json> = Vec::new();
                    let mut i: usize = 0;
                    while i < attrs.len()
                        invariant
                            0 <= i <= attrs.len(),
                            elems@.len() == i,
                            forall|j: int|
                                0 <= j < i ==> (#[trigger] elems@[j])@ == spec_encode_attr(
                                    attrs@[j]@,
                                ),
                        decreases attrs.len() - i,
                    {
                        elems.push(attrs[i].encode());
                        i = i + 1;
                    }
                    proof {
                        lemma_arr_view(elems@);
                        lemma_attrs_view(attrs@);
                        lemma_spec_encode_attrs(attrs_view(attrs@));
                        assert(arr_view(elems@) =~= spec_encode_attrs(attrs_view(attrs@)));
                    }
                    fields.push(("attrs".to_owned(), Json::Arr(elems)));
                }
                match template_contents {
                    Some(t) => {
                        fields.push(("template_contents".to_owned(), t.encode()));
                    },
                    None => (),
                }
                if !is_false(mathml_annotation_xml_integration_point) {
                    fields.push(
                        (
                            "mathml_annotation_xml_integration_point".to_owned(),
                            Json::Bool(true),
                        ),
                    );
                }
            },
            NodeDataDef::ProcessingInstruction { target, contents } => {
                fields.push(("type".to_owned(), Json::Str("ProcessingInstruction".to_owned())));
                fields.push(("target".to_owned(), Json::Str(target.clone())));
                fields.push(("contents".to_owned(), Json::Str(contents.clone())));
            },
        }
        proof {
            lemma_fields_view(fields@);
            assert(fields_view(fields@) =~= spec_encode_data_fields(self@));
        }
        fields
    }
}

impl NodeDef {
    /// Encodes one node (and, recursively, the subtree it owns) as a JSON
    /// object.
    pub fn encode(&self) -> (r: Json)
        ensures
            r@ == spec_encode_node(self@),
        decreases *self,
    {
        let mut fields = self.data.encode_fields();
        let ghost fields0 = fields@;
        if !is_empty_refcell_vec(&self.children) {
            let mut elems: Vec<Json> = Vec::new();
            let mut i: usize = 0;
            while i < self.children.len()
                invariant
                    0 <= i <= self.children.len(),
                    elems@.len() == i,
                    forall|j: int|
                        0 <= j < i ==> (#[trigger] elems@[j])@ == spec_encode_node(
                            self.children@[j]@,
                        ),
                decreases self.children.len() - i,
            {
                elems.push(self.children[i].encode());
                i = i + 1;
            }
            proof {
                lemma_arr_view(elems@);
                lemma_nodes_view(self.children@);
                lemma_spec_encode_nodes(nodes_view(self.children@));
                assert(arr_view(elems@) =~= spec_encode_nodes(nodes_view(self.children@)));
            }
            fields.push(("children".to_owned(), Json::Arr(elems)));
        }
        let r = Json::Obj(fields);
        proof {
            lemma_fields_view(fields@);
            lemma_fields_view(fields0);
            lemma_nodes_view(self.children@);
            assert(fields_view(fields@) =~= spec_encode_data_fields(self@.data) + (
            if self@.children.len() == 0 {
                Seq::<(Seq<char>, JsonView)>::empty()
            } else {
                seq![("children"@, JsonView::Arr(spec_encode_nodes(self@.children)))]
            }));
        }
        r
    }
}

impl RcDomDef {
    /// Encodes a whole document: its mode (unless `NoQuirks`), its root
    /// node, and its diagnostics (unless empty).
    pub fn encode(&self) -> (r: Json)
        ensures
            r@ == spec_encode_dom(self@),
    {
        let mut fields: Vec<(String, Json)> = Vec::new();
        if !QuirksModeDef::lacks_quirks(&self.quirks_mode) {
            let mode = match self.quirks_mode {
                QuirksModeDef::Quirks => "Quirks".to_owned(),
                QuirksModeDef::LimitedQuirks => "LimitedQuirks".to_owned(),
                QuirksModeDef::NoQuirks => "NoQuirks".to_owned(),
            };
            fields.push(("quirks_mode".to_owned(), Json::Str(mode)));
        }
        fields.push(("document".to_owned(), self.document.encode()));
        if !is_empty_refcell_vec(&self.errors) {
            let mut elems: Vec<Json> = Vec::new();
            let mut i: usize = 0;
            while i < self.errors.len()
                invariant
                    0 <= i <= self.errors.len(),
                    elems@.len() == i,
                    forall|j: int|
                        0 <= j < i ==> (#[trigger] elems@[j])@ == JsonView::Str(self.errors@[j]@),
                decreases self.errors.len() - i,
            {
                elems.push(Json::Str(self.errors[i].clone()));
                i = i + 1;
            }
            proof {
                lemma_arr_view(elems@);
                lemma_strs_view(self.errors@);
                lemma_spec_encode_errors(strs_view(self.errors@));
                assert(arr_view(elems@) =~= spec_encode_errors(strs_view(self.errors@)));
            }
            fields.push(("errors".to_owned(), Json::Arr(elems)));
        }
        let r = Json::Obj(fields);
        proof {
            lemma_fields_view(fields@);
            assert(fields_view(fields@) =~= (if self@.quirks_mode == QuirksModeDef::NoQuirks {
                Seq::<(Seq<char>, JsonView)>::empty()
            } else {
                seq![("quirks_mode"@, JsonView::Str(spec_quirks_name(self@.quirks_mode)))]
            }) + seq![("document"@, spec_encode_node(self@.document))] + (
            if self@.errors.len() == 0 {
                Seq::<(Seq<char>, JsonView)>::empty()
            } else {
                seq![("errors"@, JsonView::Arr(spec_encode_errors(self@.errors)))]
            }));
        }
        r
    }
}

} // verus!
