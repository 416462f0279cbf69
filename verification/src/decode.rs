//! Decoding a JSON value back into a document tree.
//!
//! Decoding is the structural inverse of encoding: an absent field takes its
//! stated default, a qualified name is accepted in either its shorthand
//! string form or its full object form, and unknown members of an object are
//! ignored.  Any structural malformation is fatal to the whole decode:
//! an unrecognized or missing `type` discriminant, or a field of the wrong
//! shape, is `MalformedNode`; a value that is neither a string nor an
//! object where a qualified name was expected is `MalformedQualifiedName`.
//! Decoding always builds fresh nodes; shared identity between handles of
//! the encoded tree is not reconstructed, and no parent back-references are
//! wired up.

use vstd::prelude::*;

use crate::dom::{
    attrs_view, nodes_view, strs_view, AttrView, AttributeDef, DomView, NodeDataDef, NodeDataView,
    NodeDef, NodeView, QualNameDef, QualNameHelper, QualNameView, QuirksModeDef, RcDomDef,
};
use crate::encode::html_ns;
use crate::json::{
    arr_view, fields_view, json_view, lemma_arr_view, obj_get, obj_get_idx, obj_lookup, Json,
    JsonView,
};

verus! {

/// Why a decode failed.
#[derive(Debug, Clone, Copy, PartialEq, Eq, Structural)]
pub enum DecodeError {
    /// A JSON object had an unrecognized or missing `type` discriminant, or
    /// a field of the wrong shape for its place.
    MalformedNode,
    /// Neither a string nor an object stood where a qualified name was
    /// expected.
    MalformedQualifiedName,
}

/// A member that must be a string when present, with a default when absent.
pub open spec fn spec_opt_str(
    fields: Seq<(Seq<char>, JsonView)>,
    key: Seq<char>,
    default: Seq<char>,
) -> Result<Seq<char>, DecodeError> {
    match obj_lookup(fields, key) {
        None => Ok(default),
        Some(JsonView::Str(s)) => Ok(s),
        Some(_) => Err(DecodeError::MalformedNode),
    }
}

/// A member that must be present and a string.
pub open spec fn spec_req_str(fields: Seq<(Seq<char>, JsonView)>, key: Seq<char>) -> Result<
    Seq<char>,
    DecodeError,
> {
    match obj_lookup(fields, key) {
        Some(JsonView::Str(s)) => Ok(s),
        _ => Err(DecodeError::MalformedNode),
    }
}

/// The decoding of a qualified name: a bare string is an unprefixed
/// HTML-namespace name; an object carries `prefix` (absent means none),
/// `ns` (absent means empty) and `local` (required); anything else is
/// malformed.
pub open spec fn spec_decode_qual_name(j: JsonView) -> Result<QualNameView, DecodeError> {
    match j {
        JsonView::Str(s) => Ok(QualNameView { prefix: None, ns: html_ns(), local: s }),
        JsonView::Obj(fields) => match obj_lookup(fields, "prefix"@) {
            Some(JsonView::Str(p)) => spec_decode_qual_rest(fields, Some(p)),
            None => spec_decode_qual_rest(fields, None),
            Some(_) => Err(DecodeError::MalformedNode),
        },
        _ => Err(DecodeError::MalformedQualifiedName),
    }
}

/// The `ns` and `local` members of a full-form qualified name.
pub open spec fn spec_decode_qual_rest(
    fields: Seq<(Seq<char>, JsonView)>,
    prefix: Option<Seq<char>>,
) -> Result<QualNameView, DecodeError> {
    match spec_opt_str(fields, "ns"@, Seq::empty()) {
        Err(e) => Err(e),
        Ok(ns) => match spec_req_str(fields, "local"@) {
            Err(e) => Err(e),
            Ok(local) => Ok(QualNameView { prefix, ns, local }),
        },
    }
}

/// The decoding of one attribute: an object with a qualified `name` and a
/// string `value`.
pub open spec fn spec_decode_attr(j: JsonView) -> Result<AttrView, DecodeError> {
    match j {
        JsonView::Obj(fields) => match obj_lookup(fields, "name"@) {
            None => Err(DecodeError::MalformedNode),
            Some(nj) => match spec_decode_qual_name(nj) {
                Err(e) => Err(e),
                Ok(name) => match spec_req_str(fields, "value"@) {
                    Err(e) => Err(e),
                    Ok(value) => Ok(AttrView { name, value }),
                },
            },
        },
        _ => Err(DecodeError::MalformedNode),
    }
}

/// The decodings of a list of attributes, in order; the first failure wins.
pub open spec fn spec_decode_attrs(s: Seq<JsonView>) -> Result<Seq<AttrView>, DecodeError>
    decreases s,
{
    if s.len() == 0 {
        Ok(Seq::empty())
    } else {
        match spec_decode_attr(s[0]) {
            Err(e) => Err(e),
            Ok(a) => match spec_decode_attrs(s.drop_first()) {
                Err(e) => Err(e),
                Ok(rest) => Ok(seq![a] + rest),
            },
        }
    }
}

/// The `attrs` member of an element: absent means no attributes; present,
/// it must be an array of attribute objects.
pub open spec fn spec_attrs_field(fields: Seq<(Seq<char>, JsonView)>) -> Result<
    Seq<AttrView>,
    DecodeError,
> {
    match obj_lookup(fields, "attrs"@) {
        None => Ok(Seq::empty()),
        Some(JsonView::Arr(elems)) => spec_decode_attrs(elems),
        Some(_) => Err(DecodeError::MalformedNode),
    }
}

/// The boolean element flag: absent means `false`.
pub open spec fn spec_flag_field(fields: Seq<(Seq<char>, JsonView)>) -> Result<
    bool,
    DecodeError,
> {
    match obj_lookup(fields, "mathml_annotation_xml_integration_point"@) {
        None => Ok(false),
        Some(JsonView::Bool(b)) => Ok(b),
        Some(_) => Err(DecodeError::MalformedNode),
    }
}

/// The decoding of one node: an object whose `type` discriminant picks the
/// variant, with the variant's own members and a `children` array, each
/// defaulted when absent.
pub open spec fn spec_decode_node(j: JsonView) -> Result<NodeView, DecodeError>
    decreases j, 2nat, 0nat,
{
    match j {
        JsonView::Obj(fields) => match spec_decode_data(fields) {
            Err(e) => Err(e),
            Ok(data) => match spec_decode_children(fields) {
                Err(e) => Err(e),
                Ok(children) => Ok(NodeView { data, children }),
            },
        },
        _ => Err(DecodeError::MalformedNode),
    }
}

/// The decoding of a node's payload from its object's members.
pub open spec fn spec_decode_data(fields: Seq<(Seq<char>, JsonView)>) -> Result<
    NodeDataView,
    DecodeError,
>
    decreases fields, 1nat, 0nat,
{
    match obj_lookup(fields, "type"@) {
        Some(JsonView::Str(t)) => {
            if t == "Document"@ {
                Ok(NodeDataView::Document)
            } else if t == "Doctype"@ {
                match spec_req_str(fields, "name"@) {
                    Err(e) => Err(e),
                    Ok(name) => match spec_opt_str(fields, "public_id"@, Seq::empty()) {
                        Err(e) => Err(e),
                        Ok(public_id) => match spec_opt_str(fields, "system_id"@, Seq::empty()) {
                            Err(e) => Err(e),
                            Ok(system_id) => Ok(
                                NodeDataView::Doctype { name, public_id, system_id },
                            ),
                        },
                    },
                }
            } else if t == "Text"@ {
                match spec_req_str(fields, "contents"@) {
                    Err(e) => Err(e),
                    Ok(contents) => Ok(NodeDataView::Text { contents }),
                }
            } else if t == "Comment"@ {
                match spec_req_str(fields, "contents"@) {
                    Err(e) => Err(e),
                    Ok(contents) => Ok(NodeDataView::Comment { contents }),
                }
            } else if t == "Element"@ {
                match obj_lookup(fields, "name"@) {
                    None => Err(DecodeError::MalformedNode),
                    Some(nj) => match spec_decode_qual_name(nj) {
                        Err(e) => Err(e),
                        Ok(name) => match spec_attrs_field(fields) {
                            Err(e) => Err(e),
                            Ok(attrs) => match spec_decode_template(fields) {
                                Err(e) => Err(e),
                                Ok(template_contents) => match spec_flag_field(fields) {
                                    Err(e) => Err(e),
                                    Ok(mathml_annotation_xml_integration_point) => Ok(
                                        NodeDataView::Element {
                                            name,
                                            attrs,
                                            template_contents,
                                            mathml_annotation_xml_integration_point,
                                        },
                                    ),
                                },
                            },
                        },
                    },
                }
            } else if t == "ProcessingInstruction"@ {
                match spec_req_str(fields, "target"@) {
                    Err(e) => Err(e),
                    Ok(target) => match spec_req_str(fields, "contents"@) {
                        Err(e) => Err(e),
                        Ok(contents) => Ok(
                            NodeDataView::ProcessingInstruction { target, contents },
                        ),
                    },
                }
            } else {
                Err(DecodeError::MalformedNode)
            }
        },
        _ => Err(DecodeError::MalformedNode),
    }
}

/// The `template_contents` member, found by walking the member list:
/// absent means no template subtree; present, it is decoded as a node.
pub open spec fn spec_decode_template(fields: Seq<(Seq<char>, JsonView)>) -> Result<
    Option<Box<NodeView>>,
    DecodeError,
>
    decreases fields, 0nat, 0nat,
{
    if fields.len() == 0 {
        Ok(None)
    } else if fields[0].0 == "template_contents"@ {
        match spec_decode_node(fields[0].1) {
            Err(e) => Err(e),
            Ok(n) => Ok(Some(Box::new(n))),
        }
    } else {
        spec_decode_template(fields.drop_first())
    }
}

/// The `children` member, found by walking the member list: absent means no
/// children; present, it must be an array of node objects.
pub open spec fn spec_decode_children(fields: Seq<(Seq<char>, JsonView)>) -> Result<
    Seq<NodeView>,
    DecodeError,
>
    decreases fields, 0nat, 0nat,
{
    if fields.len() == 0 {
        Ok(Seq::empty())
    } else if fields[0].0 == "children"@ {
        match fields[0].1 {
            JsonView::Arr(elems) => spec_decode_nodes(elems),
            _ => Err(DecodeError::MalformedNode),
        }
    } else {
        spec_decode_children(fields.drop_first())
    }
}

/// The decodings of a list of nodes, in order; the first failure wins.
pub open spec fn spec_decode_nodes(s: Seq<JsonView>) -> Result<Seq<NodeView>, DecodeError>
    decreases s, 2nat, 0nat,
{
    if s.len() == 0 {
        Ok(Seq::empty())
    } else {
        match spec_decode_node(s[0]) {
            Err(e) => Err(e),
            Ok(n) => match spec_decode_nodes(s.drop_first()) {
                Err(e) => Err(e),
                Ok(rest) => Ok(seq![n] + rest),
            },
        }
    }
}

/// The decodings of a list of diagnostic strings; each entry must be a
/// string.
pub open spec fn spec_decode_strings(s: Seq<JsonView>) -> Result<Seq<Seq<char>>, DecodeError>
    decreases s,
{
    if s.len() == 0 {
        Ok(Seq::empty())
    } else {
        match s[0] {
            JsonView::Str(e) => match spec_decode_strings(s.drop_first()) {
                Err(err) => Err(err),
                Ok(rest) => Ok(seq![e] + rest),
            },
            _ => Err(DecodeError::MalformedNode),
        }
    }
}

/// The `quirks_mode` member: absent means `NoQuirks`; present, it must be
/// one of the three mode names.
pub open spec fn spec_quirks_field(fields: Seq<(Seq<char>, JsonView)>) -> Result<
    QuirksModeDef,
    DecodeError,
> {
    match obj_lookup(fields, "quirks_mode"@) {
        None => Ok(QuirksModeDef::NoQuirks),
        Some(JsonView::Str(s)) => {
            if s == "Quirks"@ {
                Ok(QuirksModeDef::Quirks)
            } else if s == "LimitedQuirks"@ {
                Ok(QuirksModeDef::LimitedQuirks)
            } else if s == "NoQuirks"@ {
                Ok(QuirksModeDef::NoQuirks)
            } else {
                Err(DecodeError::MalformedNode)
            }
        },
        Some(_) => Err(DecodeError::MalformedNode),
    }
}

/// The `errors` member: absent means no diagnostics; present, it must be an
/// array of strings.
pub open spec fn spec_errors_field(fields: Seq<(Seq<char>, JsonView)>) -> Result<
    Seq<Seq<char>>,
    DecodeError,
> {
    match obj_lookup(fields, "errors"@) {
        None => Ok(Seq::empty()),
        Some(JsonView::Arr(elems)) => spec_decode_strings(elems),
        Some(_) => Err(DecodeError::MalformedNode),
    }
}

/// The decoding of a whole document: the required `document` member, with
/// `quirks_mode` and `errors` defaulted when absent.
pub open spec fn spec_decode_dom(j: JsonView) -> Result<DomView, DecodeError> {
    match j {
        JsonView::Obj(fields) => match obj_lookup(fields, "document"@) {
            None => Err(DecodeError::MalformedNode),
            Some(dj) => match spec_decode_node(dj) {
                Err(e) => Err(e),
                Ok(document) => match spec_quirks_field(fields) {
                    Err(e) => Err(e),
                    Ok(quirks_mode) => match spec_errors_field(fields) {
                        Err(e) => Err(e),
                        Ok(errors) => Ok(DomView { quirks_mode, document, errors }),
                    },
                },
            },
        },
        _ => Err(DecodeError::MalformedNode),
    }
}

/// Walking the member list for `template_contents` is the same as looking
/// the key up and decoding what it names.
pub proof fn lemma_template_walker(fields: Seq<(Seq<char>, JsonView)>)
    ensures
        spec_decode_template(fields) == (match obj_lookup(fields, "template_contents"@) {
            None => Ok::<Option<Box<NodeView>>, DecodeError>(None),
            Some(tj) => match spec_decode_node(tj) {
                Err(e) => Err(e),
                Ok(n) => Ok(Some(Box::new(n))),
            },
        }),
    decreases fields,
{
    if fields.len() > 0 && fields[0].0 != "template_contents"@ {
        lemma_template_walker(fields.drop_first());
    }
}

/// Walking the member list for `children` is the same as looking the key up
/// and decoding the array it names.
pub proof fn lemma_children_walker(fields: Seq<(Seq<char>, JsonView)>)
    ensures
        spec_decode_children(fields) == (match obj_lookup(fields, "children"@) {
            None => Ok::<Seq<NodeView>, DecodeError>(Seq::empty()),
            Some(JsonView::Arr(elems)) => spec_decode_nodes(elems),
            Some(_) => Err(DecodeError::MalformedNode),
        }),
    decreases fields,
{
    if fields.len() > 0 && fields[0].0 != "children"@ {
        lemma_children_walker(fields.drop_first());
    }
}

impl QualNameHelper {
    /// Decodes a qualified name, accepting both the shorthand string form
    /// and the full object form.
    pub fn deserialize(j: &Json) -> (r: Result<QualNameDef, DecodeError>)
        ensures
            (match r {
                Ok(q) => spec_decode_qual_name(j@) == Ok::<QualNameView, DecodeError>(q@),
                Err(e) => spec_decode_qual_name(j@) == Err::<QualNameView, DecodeError>(e),
            }),
    {
        match j {
            Json::Str(s) => Ok(
                QualNameDef {
                    prefix: None,
                    ns: crate::encode::html_namespace(),
                    local: s.clone(),
                },
            ),
            Json::Obj(fields) => {
                let prefix: Option<String> = match obj_get(fields, &"prefix".to_owned()) {
                    None => None,
                    Some(Json::Str(p)) => Some(p.clone()),
                    Some(_) => {
                        return Err(DecodeError::MalformedNode);
                    },
                };
                let ns: String = match obj_get(fields, &"ns".to_owned()) {
                    None => String::new(),
                    Some(Json::Str(s)) => s.clone(),
                    Some(_) => {
                        return Err(DecodeError::MalformedNode);
                    },
                };
                let local: String = match obj_get(fields, &"local".to_owned()) {
                    Some(Json::Str(s)) => s.clone(),
                    _ => {
                        return Err(DecodeError::MalformedNode);
                    },
                };
                Ok(QualNameDef { prefix, ns, local })
            },
            _ => Err(DecodeError::MalformedQualifiedName),
        }
    }
}

impl AttributeDef {
    /// Decodes one attribute from its `{name, value}` object.
    pub fn decode(j: &Json) -> (r: Result<AttributeDef, DecodeError>)
        ensures
            (match r {
                Ok(a) => spec_decode_attr(j@) == Ok::<AttrView, DecodeError>(a@),
                Err(e) => spec_decode_attr(j@) == Err::<AttrView, DecodeError>(e),
            }),
    {
        match j {
            Json::Obj(fields) => {
                let name = match obj_get(fields, &"name".to_owned()) {
                    None => {
                        return Err(DecodeError::MalformedNode);
                    },
                    Some(nj) => match QualNameHelper::deserialize(nj) {
                        Err(e) => {
                            return Err(e);
                        },
                        Ok(name) => name,
                    },
                };
                let value = match obj_get(fields, &"value".to_owned()) {
                    Some(Json::Str(s)) => s.clone(),
                    _ => {
                        return Err(DecodeError::MalformedNode);
                    },
                };
                Ok(AttributeDef { name, value })
            },
            _ => Err(DecodeError::MalformedNode),
        }
    }
}

/// Decodes the tail of an attribute array, from position `i` on.
fn decode_attrs_from(elems: &Vec<Json>, i: usize) -> (r: Result<Vec<AttributeDef>, DecodeError>)
    requires
        i <= elems@.len(),
    ensures
        (match r {
            Ok(v) => spec_decode_attrs(arr_view(elems@).skip(i as int)) == Ok::<
                Seq<AttrView>,
                DecodeError,
            >(attrs_view(v@)),
            Err(e) => spec_decode_attrs(arr_view(elems@).skip(i as int)) == Err::<
                Seq<AttrView>,
                DecodeError,
            >(e),
        }),
    decreases elems@.len() - i,
{
    proof {
        lemma_arr_view(elems@);
    }
    if i == elems.len() {
        proof {
            assert(arr_view(elems@).skip(i as int) =~= Seq::<JsonView>::empty());
        }
        Ok(Vec::new())
    } else {
        let a = match AttributeDef::decode(&elems[i]) {
            Err(e) => {
                proof {
                    assert(arr_view(elems@).skip(i as int)[0] == json_view(elems@[i as int]));
                }
                return Err(e);
            },
            Ok(a) => a,
        };
        match decode_attrs_from(elems, i + 1) {
            Err(e) => {
                proof {
                    assert(arr_view(elems@).skip(i as int).drop_first() =~= arr_view(
                        elems@,
                    ).skip(i + 1));
                }
                Err(e)
            },
            Ok(mut rest) => {
                let ghost r0 = rest@;
                rest.insert(0, a);
                proof {
                    assert(arr_view(elems@).skip(i as int).drop_first() =~= arr_view(
                        elems@,
                    ).skip(i + 1));
                    assert(rest@.drop_first() =~= r0);
                    crate::dom::lemma_attrs_view(rest@);
                    crate::dom::lemma_attrs_view(r0);
                    assert(attrs_view(rest@) =~= seq![a@] + attrs_view(r0));
                }
                Ok(rest)
            },
        }
    }
}

/// Decodes the tail of a node array, from position `i` on.
fn decode_nodes_from(elems: &Vec<Json>, i: usize) -> (r: Result<Vec<NodeDef>, DecodeError>)
    requires
        i <= elems@.len(),
    ensures
        (match r {
            Ok(v) => spec_decode_nodes(arr_view(elems@).skip(i as int)) == Ok::<
                Seq<NodeView>,
                DecodeError,
            >(nodes_view(v@)),
            Err(e) => spec_decode_nodes(arr_view(elems@).skip(i as int)) == Err::<
                Seq<NodeView>,
                DecodeError,
            >(e),
        }),
    decreases *elems, 0nat, elems@.len() - i,
{
    proof {
        lemma_arr_view(elems@);
    }
    if i == elems.len() {
        proof {
            assert(arr_view(elems@).skip(i as int) =~= Seq::<JsonView>::empty());
        }
        Ok(Vec::new())
    } else {
        let n = match NodeDef::decode(&elems[i]) {
            Err(e) => {
                proof {
                    assert(arr_view(elems@).skip(i as int)[0] == json_view(elems@[i as int]));
                }
                return Err(e);
            },
            Ok(n) => n,
        };
        match decode_nodes_from(elems, i + 1) {
            Err(e) => {
                proof {
                    assert(arr_view(elems@).skip(i as int).drop_first() =~= arr_view(
                        elems@,
                    ).skip(i + 1));
                }
                Err(e)
            },
            Ok(mut rest) => {
                let ghost r0 = rest@;
                rest.insert(0, n);
                proof {
                    assert(arr_view(elems@).skip(i as int).drop_first() =~= arr_view(
                        elems@,
                    ).skip(i + 1));
                    assert(rest@.drop_first() =~= r0);
                    crate::dom::lemma_nodes_view(rest@);
                    crate::dom::lemma_nodes_view(r0);
                    assert(nodes_view(rest@) =~= seq![n@] + nodes_view(r0));
                }
                Ok(rest)
            },
        }
    }
}

/// Decodes the tail of a diagnostic-string array, from position `i` on.
fn decode_strings_from(elems: &Vec<Json>, i: usize) -> (r: Result<Vec<String>, DecodeError>)
    requires
        i <= elems@.len(),
    ensures
        (match r {
            Ok(v) => spec_decode_strings(arr_view(elems@).skip(i as int)) == Ok::<
                Seq<Seq<char>>,
                DecodeError,
            >(strs_view(v@)),
            Err(e) => spec_decode_strings(arr_view(elems@).skip(i as int)) == Err::<
                Seq<Seq<char>>,
                DecodeError,
            >(e),
        }),
    decreases elems@.len() - i,
{
    proof {
        lemma_arr_view(elems@);
    }
    if i == elems.len() {
        proof {
            assert(arr_view(elems@).skip(i as int) =~= Seq::<JsonView>::empty());
        }
        Ok(Vec::new())
    } else {
        proof {
            assert(arr_view(elems@).skip(i as int)[0] == json_view(elems@[i as int]));
        }
        let s = match &elems[i] {
            Json::Str(s) => s.clone(),
            _ => {
                return Err(DecodeError::MalformedNode);
            },
        };
        match decode_strings_from(elems, i + 1) {
            Err(e) => {
                proof {
                    assert(arr_view(elems@).skip(i as int).drop_first() =~= arr_view(
                        elems@,
                    ).skip(i + 1));
                }
                Err(e)
            },
            Ok(mut rest) => {
                let ghost r0 = rest@;
                rest.insert(0, s);
                proof {
                    assert(arr_view(elems@).skip(i as int).drop_first() =~= arr_view(
                        elems@,
                    ).skip(i + 1));
                    assert(rest@.drop_first() =~= r0);
                    crate::dom::lemma_strs_view(rest@);
                    crate::dom::lemma_strs_view(r0);
                    assert(strs_view(rest@) =~= seq![s@] + strs_view(r0));
                }
                Ok(rest)
            },
        }
    }
}

impl NodeDataDef {
    /// Decodes a node's payload from its object's member list.
    fn decode_fields(fields: &Vec<(String, Json)>) -> (r: Result<NodeDataDef, DecodeError>)
        ensures
            (match r {
                Ok(d) => spec_decode_data(fields_view(fields@)) == Ok::<
                    NodeDataView,
                    DecodeError,
                >(d@),
                Err(e) => spec_decode_data(fields_view(fields@)) == Err::<
                    NodeDataView,
                    DecodeError,
                >(e),
            }),
        decreases *fields, 1nat, 0nat,
    {
        let t = match obj_get(fields, &"type".to_owned()) {
            Some(Json::Str(t)) => t,
            _ => {
                return Err(DecodeError::MalformedNode);
            },
        };
        if *t == "Document".to_owned() {
            Ok(NodeDataDef::Document)
        } else if *t == "Doctype".to_owned() {
            let name = match obj_get(fields, &"name".to_owned()) {
                Some(Json::Str(s)) => s.clone(),
                _ => {
                    return Err(DecodeError::MalformedNode);
                },
            };
            let public_id = match obj_get(fields, &"public_id".to_owned()) {
                None => String::new(),
                Some(Json::Str(s)) => s.clone(),
                Some(_) => {
                    return Err(DecodeError::MalformedNode);
                },
            };
            let system_id = match obj_get(fields, &"system_id".to_owned()) {
                None => String::new(),
                Some(Json::Str(s)) => s.clone(),
                Some(_) => {
                    return Err(DecodeError::MalformedNode);
                },
            };
            Ok(NodeDataDef::Doctype { name, public_id, system_id })
        } else if *t == "Text".to_owned() {
            let contents = match obj_get(fields, &"contents".to_owned()) {
                Some(Json::Str(s)) => s.clone(),
                _ => {
                    return Err(DecodeError::MalformedNode);
                },
            };
            Ok(NodeDataDef::Text { contents })
        } else if *t == "Comment".to_owned() {
            let contents = match obj_get(fields, &"contents".to_owned()) {
                Some(Json::Str(s)) => s.clone(),
                _ => {
                    return Err(DecodeError::MalformedNode);
                },
            };
            Ok(NodeDataDef::Comment { contents })
        } else if *t == "Element".to_owned() {
            let name = match obj_get(fields, &"name".to_owned()) {
                None => {
                    return Err(DecodeError::MalformedNode);
                },
                Some(nj) => match QualNameHelper::deserialize(nj) {
                    Err(e) => {
                        return Err(e);
                    },
                    Ok(name) => name,
                },
            };
            let attrs = match obj_get_idx(fields, &"attrs".to_owned()) {
                None => Vec::new(),
                Some(ai) => match &fields[ai].1 {
                    Json::Arr(elems) => match decode_attrs_from(elems, 0) {
                        Err(e) => {
                            proof {
                                assert(arr_view(elems@).skip(0) =~= arr_view(elems@));
                            }
                            return Err(e);
                        },
                        Ok(attrs) => {
                            proof {
                                assert(arr_view(elems@).skip(0) =~= arr_view(elems@));
                            }
                            attrs
                        },
                    },
                    _ => {
                        return Err(DecodeError::MalformedNode);
                    },
                },
            };
            let template_contents = match obj_get_idx(fields, &"template_contents".to_owned()) {
                None => {
                    proof {
                        lemma_template_walker(fields_view(fields@));
                    }
                    None
                },
                Some(ti) => match NodeDef::decode(&fields[ti].1) {
                    Err(e) => {
                        proof {
                            lemma_template_walker(fields_view(fields@));
                        }
                        return Err(e);
                    },
                    Ok(sub) => {
                        proof {
                            lemma_template_walker(fields_view(fields@));
                        }
                        Some(Box::new(sub))
                    },
                },
            };
            let mathml_annotation_xml_integration_point = match obj_get(
                fields,
                &"mathml_annotation_xml_integration_point".to_owned(),
            ) {
                None => false,
                Some(Json::Bool(b)) => *b,
                Some(_) => {
                    return Err(DecodeError::MalformedNode);
                },
            };
            Ok(
                NodeDataDef::Element {
                    name,
                    attrs,
                    template_contents,
                    mathml_annotation_xml_integration_point,
                },
            )
        } else if *t == "ProcessingInstruction".to_owned() {
            let target = match obj_get(fields, &"target".to_owned()) {
                Some(Json::Str(s)) => s.clone(),
                _ => {
                    return Err(DecodeError::MalformedNode);
                },
            };
            let contents = match obj_get(fields, &"contents".to_owned()) {
                Some(Json::Str(s)) => s.clone(),
                _ => {
                    return Err(DecodeError::MalformedNode);
                },
            };
            Ok(NodeDataDef::ProcessingInstruction { target, contents })
        } else {
            Err(DecodeError::MalformedNode)
        }
    }
}

impl NodeDef {
    /// Decodes one node (and, recursively, the subtree it owns) from a JSON
    /// value, building fresh nodes throughout.
    pub fn decode(j: &Json) -> (r: Result<NodeDef, DecodeError>)
        ensures
            (match r {
                Ok(n) => spec_decode_node(j@) == Ok::<NodeView, DecodeError>(n@),
                Err(e) => spec_decode_node(j@) == Err::<NodeView, DecodeError>(e),
            }),
        decreases *j, 2nat, 0nat,
    {
        let fields = match j {
            Json::Obj(fields) => fields,
            _ => {
                return Err(DecodeError::MalformedNode);
            },
        };
        let data = match NodeDataDef::decode_fields(fields) {
            Err(e) => {
                return Err(e);
            },
            Ok(d) => d,
        };
        let children = match obj_get_idx(fields, &"children".to_owned()) {
            None => {
                proof {
                    lemma_children_walker(fields_view(fields@));
                }
                Vec::new()
            },
            Some(ci) => match &fields[ci].1 {
                Json::Arr(elems) => match decode_nodes_from(elems, 0) {
                    Err(e) => {
                        proof {
                            lemma_children_walker(fields_view(fields@));
                            assert(arr_view(elems@).skip(0) =~= arr_view(elems@));
                        }
                        return Err(e);
                    },
                    Ok(children) => {
                        proof {
                            lemma_children_walker(fields_view(fields@));
                            assert(arr_view(elems@).skip(0) =~= arr_view(elems@));
                        }
                        children
                    },
                },
                _ => {
                    proof {
                        lemma_children_walker(fields_view(fields@));
                    }
                    return Err(DecodeError::MalformedNode);
                },
            },
        };
        Ok(NodeDef { data, children })
    }
}

impl RcDomDef {
    /// Decodes a whole document from a JSON value.
    pub fn decode(j: &Json) -> (r: Result<RcDomDef, DecodeError>)
        ensures
            (match r {
                Ok(d) => spec_decode_dom(j@) == Ok::<DomView, DecodeError>(d@),
                Err(e) => spec_decode_dom(j@) == Err::<DomView, DecodeError>(e),
            }),
    {
        let fields = match j {
            Json::Obj(fields) => fields,
            _ => {
                return Err(DecodeError::MalformedNode);
            },
        };
        let document = match obj_get(fields, &"document".to_owned()) {
            None => {
                return Err(DecodeError::MalformedNode);
            },
            Some(dj) => match NodeDef::decode(dj) {
                Err(e) => {
                    return Err(e);
                },
                Ok(document) => document,
            },
        };
        let quirks_mode = match obj_get(fields, &"quirks_mode".to_owned()) {
            None => QuirksModeDef::NoQuirks,
            Some(Json::Str(s)) => {
                if *s == "Quirks".to_owned() {
                    QuirksModeDef::Quirks
                } else if *s == "LimitedQuirks".to_owned() {
                    QuirksModeDef::LimitedQuirks
                } else if *s == "NoQuirks".to_owned() {
                    QuirksModeDef::NoQuirks
                } else {
                    return Err(DecodeError::MalformedNode);
                }
            },
            Some(_) => {
                return Err(DecodeError::MalformedNode);
            },
        };
        let errors = match obj_get(fields, &"errors".to_owned()) {
            None => Vec::new(),
            Some(Json::Arr(elems)) => match decode_strings_from(elems, 0) {
                Err(e) => {
                    proof {
                        assert(arr_view(elems@).skip(0) =~= arr_view(elems@));
                    }
                    return Err(e);
                },
                Ok(errors) => {
                    proof {
                        assert(arr_view(elems@).skip(0) =~= arr_view(elems@));
                    }
                    errors
                },
            },
            Some(_) => {
                return Err(DecodeError::MalformedNode);
            },
        };
        Ok(RcDomDef { quirks_mode, document, errors })
    }
}

} // verus!
