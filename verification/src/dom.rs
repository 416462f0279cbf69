//! The in-memory model of an HTML document tree.
//!
//! A node is a tagged union of variants, each node owning an ordered list of
//! children.  A parent back-reference is deliberately not part of this
//! model: the wire form never carries one, the codec never reads one, and a
//! decoded tree reports none; maintaining parent links is the business of
//! the tree-construction collaborator that produces trees in the first
//! place.  Shared handles are likewise a concern of that collaborator: this
//! model owns each subtree exactly once, and an encoder given two handles to
//! one node would emit two independent copies.

use vstd::prelude::*;

verus! {

/// A document-compatibility mode.  `NoQuirks` is the default and is elided
/// from the encoded form.
#[derive(Debug, Clone, Copy, PartialEq, Eq, Structural)]
pub enum QuirksModeDef {
    Quirks,
    LimitedQuirks,
    NoQuirks,
}

impl QuirksModeDef {
    /// True exactly when the mode is the default, `NoQuirks`; such a mode is
    /// omitted from the encoded form.
    pub fn lacks_quirks(val: &QuirksModeDef) -> (r: bool)
        ensures
            r == (*val == QuirksModeDef::NoQuirks),
    {
        match val {
            QuirksModeDef::NoQuirks => true,
            _ => false,
        }
    }
}

/// A qualified name: a namespace (may be empty), an optional prefix, and a
/// local name.
#[derive(Debug, PartialEq, Eq)]
pub struct QualNameDef {
    pub prefix: Option<String>,
    pub ns: String,
    pub local: String,
}

/// The mathematical model of a qualified name.
#[verifier::ext_equal]
pub struct QualNameView {
    pub prefix: Option<Seq<char>>,
    pub ns: Seq<char>,
    pub local: Seq<char>,
}

impl View for QualNameDef {
    type V = QualNameView;

    open spec fn view(&self) -> QualNameView {
        QualNameView {
            prefix: match self.prefix {
                Some(p) => Some(p@),
                None => None,
            },
            ns: self.ns@,
            local: self.local@,
        }
    }
}

/// The codec for qualified names.  It owns no state of its own; it exists
/// so that the dual-form name codec (`serialize`, `deserialize`) has a home
/// of its own beside the node codec, and it can carry a name where a value
/// is wanted.
#[derive(Debug, PartialEq, Eq)]
pub struct QualNameHelper(pub QualNameDef);

/// One attribute of an element: a qualified name and a text value.
#[derive(Debug, PartialEq, Eq)]
pub struct AttributeDef {
    pub name: QualNameDef,
    pub value: String,
}

/// The mathematical model of an attribute.
#[verifier::ext_equal]
pub struct AttrView {
    pub name: QualNameView,
    pub value: Seq<char>,
}

impl View for AttributeDef {
    type V = AttrView;

    open spec fn view(&self) -> AttrView {
        AttrView { name: self.name@, value: self.value@ }
    }
}

/// The payload of one node, by variant.
#[derive(Debug, PartialEq, Eq)]
pub enum NodeDataDef {
    Document,
    Doctype { name: String, public_id: String, system_id: String },
    Text { contents: String },
    Comment { contents: String },
    Element {
        name: QualNameDef,
        attrs: Vec<AttributeDef>,
        template_contents: Option<Box<NodeDef>>,
        mathml_annotation_xml_integration_point: bool,
    },
    ProcessingInstruction { target: String, contents: String },
}

/// One node of the tree: its payload and its ordered list of children.
#[derive(Debug, PartialEq, Eq)]
pub struct NodeDef {
    pub data: NodeDataDef,
    pub children: Vec<NodeDef>,
}

/// The mathematical model of a node payload.
#[verifier::ext_equal]
pub enum NodeDataView {
    Document,
    Doctype { name: Seq<char>, public_id: Seq<char>, system_id: Seq<char> },
    Text { contents: Seq<char> },
    Comment { contents: Seq<char> },
    Element {
        name: QualNameView,
        attrs: Seq<AttrView>,
        template_contents: Option<Box<NodeView>>,
        mathml_annotation_xml_integration_point: bool,
    },
    ProcessingInstruction { target: Seq<char>, contents: Seq<char> },
}

/// The mathematical model of a node.
#[verifier::ext_equal]
pub struct NodeView {
    pub data: NodeDataView,
    pub children: Seq<NodeView>,
}

/// The model of a list of attributes.
pub open spec fn attrs_view(s: Seq<AttributeDef>) -> Seq<AttrView>
    decreases s,
{
    if s.len() == 0 {
        Seq::empty()
    } else {
        seq![s[0]@] + attrs_view(s.drop_first())
    }
}

/// `attrs_view` maps the list elementwise.
pub proof fn lemma_attrs_view(s: Seq<AttributeDef>)
    ensures
        attrs_view(s).len() == s.len(),
        forall|i: int| 0 <= i < s.len() ==> #[trigger] attrs_view(s)[i] == s[i]@,
    decreases s,
{
    if s.len() > 0 {
        lemma_attrs_view(s.drop_first());
        assert forall|i: int| 0 <= i < s.len() implies #[trigger] attrs_view(s)[i] == s[i]@ by {
            if i > 0 {
                assert(s.drop_first()[i - 1] == s[i]);
            }
        }
    }
}

/// The model of a node.
pub open spec fn node_view(n: NodeDef) -> NodeView
    decreases n,
{
    NodeView { data: data_view(n.data), children: nodes_view(n.children@) }
}

/// The model of a node payload.
pub open spec fn data_view(d: NodeDataDef) -> NodeDataView
    decreases d,
{
    match d {
        NodeDataDef::Document => NodeDataView::Document,
        NodeDataDef::Doctype { name, public_id, system_id } => NodeDataView::Doctype {
            name: name@,
            public_id: public_id@,
            system_id: system_id@,
        },
        NodeDataDef::Text { contents } => NodeDataView::Text { contents: contents@ },
        NodeDataDef::Comment { contents } => NodeDataView::Comment { contents: contents@ },
        NodeDataDef::Element {
            name,
            attrs,
            template_contents,
            mathml_annotation_xml_integration_point,
        } => NodeDataView::Element {
            name: name@,
            attrs: attrs_view(attrs@),
            template_contents: match template_contents {
                Some(b) => Some(Box::new(node_view(*b))),
                None => None,
            },
            mathml_annotation_xml_integration_point,
        },
        NodeDataDef::ProcessingInstruction { target, contents } => {
            NodeDataView::ProcessingInstruction { target: target@, contents: contents@ }
        },
    }
}

/// The model of a list of nodes.
pub open spec fn nodes_view(s: Seq<NodeDef>) -> Seq<NodeView>
    decreases s,
{
    if s.len() == 0 {
        Seq::empty()
    } else {
        seq![node_view(s[0])] + nodes_view(s.drop_first())
    }
}

/// `nodes_view` maps the list elementwise.
pub proof fn lemma_nodes_view(s: Seq<NodeDef>)
    ensures
        nodes_view(s).len() == s.len(),
        forall|i: int| 0 <= i < s.len() ==> #[trigger] nodes_view(s)[i] == node_view(s[i]),
    decreases s,
{
    if s.len() > 0 {
        lemma_nodes_view(s.drop_first());
        assert forall|i: int| 0 <= i < s.len() implies #[trigger] nodes_view(s)[i] == node_view(
            s[i],
        ) by {
            if i > 0 {
                assert(s.drop_first()[i - 1] == s[i]);
            }
        }
    }
}

impl View for NodeDef {
    type V = NodeView;

    open spec fn view(&self) -> NodeView {
        node_view(*self)
    }
}

impl View for NodeDataDef {
    type V = NodeDataView;

    open spec fn view(&self) -> NodeDataView {
        data_view(*self)
    }
}

/// The model of a list of diagnostic strings.
pub open spec fn strs_view(s: Seq<String>) -> Seq<Seq<char>>
    decreases s,
{
    if s.len() == 0 {
        Seq::empty()
    } else {
        seq![s[0]@] + strs_view(s.drop_first())
    }
}

/// `strs_view` maps the list elementwise.
pub proof fn lemma_strs_view(s: Seq<String>)
    ensures
        strs_view(s).len() == s.len(),
        forall|i: int| 0 <= i < s.len() ==> #[trigger] strs_view(s)[i] == s[i]@,
    decreases s,
{
    if s.len() > 0 {
        lemma_strs_view(s.drop_first());
        assert forall|i: int| 0 <= i < s.len() implies #[trigger] strs_view(s)[i] == s[i]@ by {
            if i > 0 {
                assert(s.drop_first()[i - 1] == s[i]);
            }
        }
    }
}

/// A whole document: its compatibility mode, its root node (the one
/// `Document`-variant node of the tree), and the diagnostics that the
/// tree-construction collaborator accumulated while building it.
#[derive(Debug, PartialEq, Eq)]
pub struct RcDomDef {
    pub quirks_mode: QuirksModeDef,
    pub document: NodeDef,
    pub errors: Vec<String>,
}

/// The mathematical model of a whole document.
#[verifier::ext_equal]
pub struct DomView {
    pub quirks_mode: QuirksModeDef,
    pub document: NodeView,
    pub errors: Seq<Seq<char>>,
}

impl View for RcDomDef {
    type V = DomView;

    open spec fn view(&self) -> DomView {
        DomView {
            quirks_mode: self.quirks_mode,
            document: self.document@,
            errors: strs_view(self.errors@),
        }
    }
}

/// True exactly of `false`: the elision predicate for the boolean element
/// flag, whose default is `false`.
pub fn is_false(val: &bool) -> (r: bool)
    ensures
        r == !*val,
{
    !val
}

/// True exactly of an empty list: the elision predicate for child and
/// attribute lists, whose default is empty.
pub fn is_empty_refcell_vec<T>(val: &Vec<T>) -> (r: bool)
    ensures
        r == (val@.len() == 0),
{
    val.len() == 0
}

/// True exactly of empty text: the elision predicate for text fields whose
/// default is the empty string.
pub fn is_empty_text(val: &String) -> (r: bool)
    ensures
        r == (val@.len() == 0),
{
    val.as_str().unicode_len() == 0
}

} // verus!
