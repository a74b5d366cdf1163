//! The XML document tree that the dossier logic reads, and the queries on it.
//!
//! Parsing itself is done by `roxmltree`; the parsed document is copied node by
//! node into plain values, over which every query below is verified.
use vstd::prelude::*;
use crate::seqs::{first_of, lemma_filter_empty, lemma_filter_take_succ, lemma_first_match, lemma_take_full};
use crate::text::{opt_view, str_eq};
use crate::error::{Error, ErrorView};

verus! {

/// The XML Signature namespace.
pub const DS_NS: &'static str = "http://www.w3.org/2000/09/xmldsig#";

/// The largest number of nodes that the parser accepts.
pub const XML_PARSE_NODE_LIMIT: u32 = 4096;

/// The kinds of node that an XML document tree holds.
#[derive(Clone, Copy, Debug, PartialEq, Eq, Structural)]
pub enum XmlNodeKind {
    Root,
    Element,
    ProcessingInstruction,
    Comment,
    Text,
}

/// An attribute of an element, as plain values.
pub struct XmlAttrView {
    pub name: Seq<char>,
    pub value: Seq<char>,
}

/// A node of a parsed XML document, as plain values.
pub struct XmlNodeView {
    pub kind: XmlNodeKind,
    pub name: Seq<char>,
    pub namespace: Option<Seq<char>>,
    pub attributes: Seq<XmlAttrView>,
    pub text: Option<Seq<char>>,
    pub parent: Option<usize>,
    pub range_start: usize,
    pub range_end: usize,
}

/// An attribute of an element.
#[derive(Clone, Debug)]
pub struct XmlAttribute {
    pub name: String,
    pub value: String,
}

impl View for XmlAttribute {
    type V = XmlAttrView;

    open spec fn view(&self) -> XmlAttrView {
        XmlAttrView { name: self.name@, value: self.value@ }
    }
}

/// A node of a parsed XML document: its kind, its (local) tag name and
/// namespace for elements, its attributes, the text that the parser reports
/// for it, its parent, and its byte range in the source text.
#[derive(Clone, Debug)]
pub struct XmlNode {
    pub kind: XmlNodeKind,
    pub name: String,
    pub namespace: Option<String>,
    pub attributes: Vec<XmlAttribute>,
    pub text: Option<String>,
    pub parent: Option<usize>,
    pub range_start: usize,
    pub range_end: usize,
}

impl View for XmlNode {
    type V = XmlNodeView;

    open spec fn view(&self) -> XmlNodeView {
        XmlNodeView {
            kind: self.kind,
            name: self.name@,
            namespace: opt_view(self.namespace),
            attributes: self.attributes@.map_values(|a: XmlAttribute| a@),
            text: opt_view(self.text),
            parent: self.parent,
            range_start: self.range_start,
            range_end: self.range_end,
        }
    }
}

/// A parsed XML document: its nodes in document order, the root node first.
#[derive(Clone, Debug)]
pub struct XmlTree {
    pub nodes: Vec<XmlNode>,
}

impl View for XmlTree {
    type V = Seq<XmlNodeView>;

    open spec fn view(&self) -> Seq<XmlNodeView> {
        self.nodes@.map_values(|n: XmlNode| n@)
    }
}

/// The shape every parsed document has: a root node first, at most as many
/// nodes as the parser accepts, and each parent before its children.
pub open spec fn tree_wf(nodes: Seq<XmlNodeView>) -> bool {
    &&& 1 <= nodes.len() <= XML_PARSE_NODE_LIMIT
    &&& forall|i: int| 0 <= i < nodes.len() ==> ((#[trigger] nodes[i]).parent matches Some(p) ==> p < i)
}

#[verifier::external_type_specification]
#[verifier::external_body]
pub struct ExXmlDocument<'input>(roxmltree::Document<'input>);

/// The nodes that a parsed `roxmltree::Document` holds, indexed by node id.
pub uninterp spec fn xml_document_nodes(document: roxmltree::Document<'_>) -> Seq<XmlNodeView>;

/// What `roxmltree::Document::parse_with_options` makes of a text under this
/// library's options (no DTD, at most 4096 nodes): the nodes, or the message of
/// its error.
pub uninterp spec fn spec_xml_parse(xml: Seq<char>) -> Result<Seq<XmlNodeView>, Seq<char>>;

/// Parses XML text with `roxmltree::Document::parse_with_options`, DTDs refused
/// and at most 4096 nodes. Claims: the outcome is the named parse of the text,
/// an error carries its `Display` text, and a parsed document has its root
/// node first, at most 4096 nodes (the parser stops at the limit), and each
/// node's parent before it (nodes are numbered as they are appended).
#[verifier::external_body]
fn xml_parse<'a>(xml: &'a str) -> (res: Result<roxmltree::Document<'a>, String>)
    ensures
        match res {
            Ok(document) => {
                &&& spec_xml_parse(xml@) == Ok::<Seq<XmlNodeView>, Seq<char>>(
                    xml_document_nodes(document),
                )
                &&& tree_wf(xml_document_nodes(document))
            },
            Err(message) => spec_xml_parse(xml@) == Err::<Seq<XmlNodeView>, Seq<char>>(message@),
        },
{
    let options = roxmltree::ParsingOptions {
        allow_dtd: false,
        nodes_limit: XML_PARSE_NODE_LIMIT,
        entity_resolver: None,
    };
    roxmltree::Document::parse_with_options(xml, options).map_err(|error| error.to_string())
}

/// The number of nodes of a document (`Document::descendants` of the root,
/// counted). Claims: the length of the named node sequence.
#[verifier::external_body]
fn xml_node_count(document: &roxmltree::Document<'_>) -> (res: usize)
    ensures
        res == xml_document_nodes(*document).len(),
{
    document.descendants().count()
}

/// The kind of a node (`Node::node_type`). Claims: the named node's kind.
#[verifier::external_body]
fn xml_node_kind(document: &roxmltree::Document<'_>, id: usize) -> (res: XmlNodeKind)
    requires
        id < xml_document_nodes(*document).len() <= XML_PARSE_NODE_LIMIT,
    ensures
        res == xml_document_nodes(*document)[id as int].kind,
{
    match document.get_node(roxmltree::NodeId::new(id as u32)).unwrap().node_type() {
        roxmltree::NodeType::Root => XmlNodeKind::Root,
        roxmltree::NodeType::Element => XmlNodeKind::Element,
        roxmltree::NodeType::PI => XmlNodeKind::ProcessingInstruction,
        roxmltree::NodeType::Comment => XmlNodeKind::Comment,
        roxmltree::NodeType::Text => XmlNodeKind::Text,
    }
}

/// The local tag name of a node (`Node::tag_name().name()`). Claims: the
/// named node's name.
#[verifier::external_body]
fn xml_node_name(document: &roxmltree::Document<'_>, id: usize) -> (res: String)
    requires
        id < xml_document_nodes(*document).len() <= XML_PARSE_NODE_LIMIT,
    ensures
        res@ == xml_document_nodes(*document)[id as int].name,
{
    document.get_node(roxmltree::NodeId::new(id as u32)).unwrap().tag_name().name().to_owned()
}

/// The namespace of a node's tag name (`Node::tag_name().namespace()`).
/// Claims: the named node's namespace.
#[verifier::external_body]
fn xml_node_namespace(document: &roxmltree::Document<'_>, id: usize) -> (res: Option<String>)
    requires
        id < xml_document_nodes(*document).len() <= XML_PARSE_NODE_LIMIT,
    ensures
        opt_view(res) == xml_document_nodes(*document)[id as int].namespace,
{
    let node = document.get_node(roxmltree::NodeId::new(id as u32)).unwrap();
    node.tag_name().namespace().map(|namespace| namespace.to_owned())
}

/// The text of a node (`Node::text`). Claims: the named node's text.
#[verifier::external_body]
fn xml_node_text(document: &roxmltree::Document<'_>, id: usize) -> (res: Option<String>)
    requires
        id < xml_document_nodes(*document).len() <= XML_PARSE_NODE_LIMIT,
    ensures
        opt_view(res) == xml_document_nodes(*document)[id as int].text,
{
    document.get_node(roxmltree::NodeId::new(id as u32)).unwrap().text().map(|text| text.to_owned())
}

/// The id of a node's parent (`Node::parent`). Claims: the named node's parent.
#[verifier::external_body]
fn xml_node_parent(document: &roxmltree::Document<'_>, id: usize) -> (res: Option<usize>)
    requires
        id < xml_document_nodes(*document).len() <= XML_PARSE_NODE_LIMIT,
    ensures
        res == xml_document_nodes(*document)[id as int].parent,
{
    let node = document.get_node(roxmltree::NodeId::new(id as u32)).unwrap();
    node.parent().map(|parent| parent.id().get_usize())
}

/// The byte range of a node in the source text (`Node::range`). Claims: the
/// named node's range.
#[verifier::external_body]
fn xml_node_range(document: &roxmltree::Document<'_>, id: usize) -> (res: (usize, usize))
    requires
        id < xml_document_nodes(*document).len() <= XML_PARSE_NODE_LIMIT,
    ensures
        res.0 == xml_document_nodes(*document)[id as int].range_start,
        res.1 == xml_document_nodes(*document)[id as int].range_end,
{
    let range = document.get_node(roxmltree::NodeId::new(id as u32)).unwrap().range();
    (range.start, range.end)
}

/// The number of attributes of a node (`Node::attributes().len()`). Claims:
/// the length of the named node's attribute sequence.
#[verifier::external_body]
fn xml_attribute_count(document: &roxmltree::Document<'_>, id: usize) -> (res: usize)
    requires
        id < xml_document_nodes(*document).len() <= XML_PARSE_NODE_LIMIT,
    ensures
        res == xml_document_nodes(*document)[id as int].attributes.len(),
{
    document.get_node(roxmltree::NodeId::new(id as u32)).unwrap().attributes().len()
}

/// The local name and value of a node's attribute, by position
/// (`Node::attributes().nth`). Claims: the named attribute.
#[verifier::external_body]
fn xml_attribute(document: &roxmltree::Document<'_>, id: usize, index: usize) -> (res: XmlAttribute)
    requires
        id < xml_document_nodes(*document).len() <= XML_PARSE_NODE_LIMIT,
        index < xml_document_nodes(*document)[id as int].attributes.len(),
    ensures
        res@ == xml_document_nodes(*document)[id as int].attributes[index as int],
{
    let node = document.get_node(roxmltree::NodeId::new(id as u32)).unwrap();
    let attribute = node.attributes().nth(index).unwrap();
    XmlAttribute { name: attribute.name().to_owned(), value: attribute.value().to_owned() }
}

/// Copies one node of a parsed document into plain values.
fn copy_node(document: &roxmltree::Document<'_>, id: usize) -> (res: XmlNode)
    requires
        id < xml_document_nodes(*document).len() <= XML_PARSE_NODE_LIMIT,
    ensures
        res@ == xml_document_nodes(*document)[id as int],
{
    let ghost target = xml_document_nodes(*document)[id as int];
    let count = xml_attribute_count(document, id);
    let mut attributes: Vec<XmlAttribute> = Vec::new();
    let mut k: usize = 0;
    while k < count
        invariant
            k <= count,
            count == target.attributes.len(),
            id < xml_document_nodes(*document).len() <= XML_PARSE_NODE_LIMIT,
            target == xml_document_nodes(*document)[id as int],
            attributes@.len() == k,
            forall|j: int| 0 <= j < k ==> (#[trigger] attributes@[j])@ == target.attributes[j],
        decreases count - k,
    {
        let attribute = xml_attribute(document, id, k);
        attributes.push(attribute);
        k = k + 1;
    }
    let (range_start, range_end) = xml_node_range(document, id);
    let node = XmlNode {
        kind: xml_node_kind(document, id),
        name: xml_node_name(document, id),
        namespace: xml_node_namespace(document, id),
        attributes,
        text: xml_node_text(document, id),
        parent: xml_node_parent(document, id),
        range_start,
        range_end,
    };
    assert(node@.attributes =~= target.attributes);
    node
}

/// Parses XML text into a tree of plain values. An `Err` carries the parser's
/// message; the outcome is the named parse of the text.
pub fn parse_xml_tree(xml: &str) -> (res: Result<XmlTree, String>)
    ensures
        match res {
            Ok(tree) => spec_xml_parse(xml@) == Ok::<Seq<XmlNodeView>, Seq<char>>(tree@) && tree_wf(
                tree@,
            ),
            Err(message) => spec_xml_parse(xml@) == Err::<Seq<XmlNodeView>, Seq<char>>(message@),
        },
{
    let document = match xml_parse(xml) {
        Ok(document) => document,
        Err(message) => return Err(message),
    };
    let ghost target = xml_document_nodes(document);
    let count = xml_node_count(&document);
    let mut nodes: Vec<XmlNode> = Vec::new();
    let mut id: usize = 0;
    while id < count
        invariant
            id <= count,
            count == target.len(),
            target == xml_document_nodes(document),
            tree_wf(target),
            nodes@.len() == id,
            forall|j: int| 0 <= j < id ==> (#[trigger] nodes@[j])@ == target[j],
        decreases count - id,
    {
        let node = copy_node(&document, id);
        nodes.push(node);
        id = id + 1;
    }
    let tree = XmlTree { nodes };
    assert(tree@ =~= target);
    Ok(tree)
}

/// The number of `=` bytes of a text in UTF-8: an upper bound of how many
/// attributes it can hold.
pub open spec fn spec_marker_count(xml: Seq<char>) -> nat {
    vstd::utf8::encode_utf8(xml).filter(|b: u8| b == 61u8).len()
}

/// Counts the `=` bytes of a text; more than the node limit is refused
/// before the text is parsed.
pub fn ensure_xml_marker_budget(xml: &str) -> (res: Result<(), Error>)
    ensures
        match res {
            Ok(()) => spec_marker_count(xml@) <= XML_PARSE_NODE_LIMIT,
            Err(e) => spec_marker_count(xml@) > XML_PARSE_NODE_LIMIT && e@ == (
            ErrorView::XmlAttributeMarkerLimitReached {
                markers: spec_marker_count(xml@) as usize,
                limit: XML_PARSE_NODE_LIMIT as usize,
            }),
        },
{
    let bytes = xml.as_bytes();
    let ghost pred = |b: u8| b == 61u8;
    let mut count: usize = 0;
    let mut i: usize = 0;
    proof {
        lemma_filter_empty(bytes@.take(0), pred);
    }
    while i < bytes.len()
        invariant
            i <= bytes@.len(),
            bytes@ == vstd::utf8::encode_utf8(xml@),
            pred == (|b: u8| b == 61u8),
            count == bytes@.take(i as int).filter(pred).len(),
            count <= i,
        decreases bytes@.len() - i,
    {
        proof {
            lemma_filter_take_succ(bytes@, i as int, pred);
        }
        if bytes[i] == 61u8 {
            count = count + 1;
        }
        i = i + 1;
    }
    proof {
        lemma_take_full(bytes@);
    }
    if count > XML_PARSE_NODE_LIMIT as usize {
        Err(Error::XmlAttributeMarkerLimitReached { markers: count, limit: XML_PARSE_NODE_LIMIT as usize })
    } else {
        Ok(())
    }
}

/// How a text is parsed: refused when it has more `=` characters than the
/// node limit, otherwise parsed by `roxmltree`.
pub open spec fn spec_parse_xml_document(xml: Seq<char>) -> Result<Seq<XmlNodeView>, ErrorView> {
    if spec_marker_count(xml) > XML_PARSE_NODE_LIMIT {
        Err(ErrorView::XmlAttributeMarkerLimitReached {
            markers: spec_marker_count(xml) as usize,
            limit: XML_PARSE_NODE_LIMIT as usize,
        })
    } else {
        match spec_xml_parse(xml) {
            Ok(nodes) => Ok(nodes),
            Err(message) => Err(ErrorView::Xml { message }),
        }
    }
}

/// Parses XML text into a tree, after the attribute-marker budget check.
pub fn parse_xml_document(xml: &str) -> (res: Result<XmlTree, Error>)
    ensures
        match res {
            Ok(tree) => spec_parse_xml_document(xml@) == Ok::<Seq<XmlNodeView>, ErrorView>(tree@) && tree.wf(),
            Err(e) => spec_parse_xml_document(xml@) == Err::<Seq<XmlNodeView>, ErrorView>(e@),
        },
{
    ensure_xml_marker_budget(xml)?;
    match parse_xml_tree(xml) {
        Ok(tree) => Ok(tree),
        Err(message) => Err(Error::Xml { message }),
    }
}

// ---------------------------------------------------------------------------
// Node predicates
// ---------------------------------------------------------------------------

/// An element with the given local name.
pub open spec fn spec_is_element_named(node: XmlNodeView, name: Seq<char>) -> bool {
    node.kind == XmlNodeKind::Element && node.name == name
}

/// An element of the dossier vocabulary: the given name in some namespace
/// other than XML Signature's.
pub open spec fn spec_is_es(node: XmlNodeView, name: Seq<char>) -> bool {
    &&& spec_is_element_named(node, name)
    &&& node.namespace is Some
    &&& node.namespace != Some(DS_NS@)
}

/// An XML Signature element with the given name.
pub open spec fn spec_is_ds(node: XmlNodeView, name: Seq<char>) -> bool {
    spec_is_element_named(node, name) && node.namespace == Some(DS_NS@)
}

/// An element with the given name in exactly the given namespace.
pub open spec fn spec_is_es_child(node: XmlNodeView, name: Seq<char>, namespace: Option<Seq<char>>) -> bool {
    spec_is_element_named(node, name) && node.namespace == namespace
}

/// An element with the given name outside the XML Signature namespace.
pub open spec fn spec_is_non_dsig(node: XmlNodeView, name: Seq<char>) -> bool {
    spec_is_element_named(node, name) && node.namespace != Some(DS_NS@)
}

fn is_element_named(node: &XmlNode, name: &str) -> (res: bool)
    ensures
        res == spec_is_element_named(node@, name@),
{
    node.kind == XmlNodeKind::Element && str_eq(node.name.as_str(), name)
}

fn namespace_is(namespace: &Option<String>, expected: &str) -> (res: bool)
    ensures
        res == (opt_view(*namespace) == Some(expected@)),
{
    match namespace {
        Some(value) => str_eq(value.as_str(), expected),
        None => false,
    }
}

fn namespaces_equal(a: &Option<String>, b: &Option<String>) -> (res: bool)
    ensures
        res == (opt_view(*a) == opt_view(*b)),
{
    match (a, b) {
        (Some(x), Some(y)) => str_eq(x.as_str(), y.as_str()),
        (None, None) => true,
        _ => false,
    }
}

/// Whether a node is a dossier-vocabulary element with the given name.
pub fn is_es(node: &XmlNode, name: &str) -> (res: bool)
    ensures
        res == spec_is_es(node@, name@),
{
    is_element_named(node, name) && node.namespace.is_some() && !namespace_is(&node.namespace, DS_NS)
}

/// Whether a node is an XML Signature element with the given name.
pub fn is_ds(node: &XmlNode, name: &str) -> (res: bool)
    ensures
        res == spec_is_ds(node@, name@),
{
    is_element_named(node, name) && namespace_is(&node.namespace, DS_NS)
}

/// Whether a node is an element with the given name outside the XML
/// Signature namespace.
pub fn is_non_dsig(node: &XmlNode, name: &str) -> (res: bool)
    ensures
        res == spec_is_non_dsig(node@, name@),
{
    is_element_named(node, name) && !namespace_is(&node.namespace, DS_NS)
}

fn is_es_child(node: &XmlNode, name: &str, namespace: &Option<String>) -> (res: bool)
    ensures
        res == spec_is_es_child(node@, name@, opt_view(*namespace)),
{
    is_element_named(node, name) && namespaces_equal(&node.namespace, namespace)
}

// ---------------------------------------------------------------------------
// Tree navigation
// ---------------------------------------------------------------------------

/// The node ids of a tree with `n` nodes, in document order.
pub open spec fn spec_ids(n: nat) -> Seq<usize> {
    Seq::new(n, |k: int| k as usize)
}

/// The children of node `i`, in document order.
pub open spec fn spec_children(nodes: Seq<XmlNodeView>, i: usize) -> Seq<usize> {
    spec_ids(nodes.len()).filter(|k: usize| nodes[k as int].parent == Some(i))
}

/// The children of node `i` that are dossier-vocabulary elements named
/// `name` in node `i`'s own namespace.
pub open spec fn spec_children_es(nodes: Seq<XmlNodeView>, i: usize, name: Seq<char>) -> Seq<usize> {
    spec_children(nodes, i).filter(
        |k: usize| spec_is_es_child(nodes[k as int], name, nodes[i as int].namespace),
    )
}

/// The first such child.
pub open spec fn spec_child_es(nodes: Seq<XmlNodeView>, i: usize, name: Seq<char>) -> Option<usize> {
    first_of(spec_children_es(nodes, i, name))
}

/// The children of node `i` that are XML Signature elements named `name`.
pub open spec fn spec_children_ds(nodes: Seq<XmlNodeView>, i: usize, name: Seq<char>) -> Seq<usize> {
    spec_children(nodes, i).filter(|k: usize| spec_is_ds(nodes[k as int], name))
}

/// The first child of node `i` named `name` outside the XML Signature namespace.
pub open spec fn spec_child_non_dsig(nodes: Seq<XmlNodeView>, i: usize, name: Seq<char>) -> Option<usize> {
    first_of(spec_children(nodes, i).filter(|k: usize| spec_is_non_dsig(nodes[k as int], name)))
}

/// The text of the first dossier-vocabulary child named `name`: its text, or
/// the empty text when it has none.
pub open spec fn spec_child_text(nodes: Seq<XmlNodeView>, i: usize, name: Seq<char>) -> Option<Seq<char>> {
    match spec_child_es(nodes, i, name) {
        Some(c) => Some(
            match nodes[c as int].text {
                Some(t) => t,
                None => Seq::<char>::empty(),
            },
        ),
        None => None,
    }
}

/// The value of the first attribute of a node with the given local name.
pub open spec fn spec_attribute(node: XmlNodeView, name: Seq<char>) -> Option<Seq<char>> {
    match first_of(node.attributes.filter(|a: XmlAttrView| a.name == name)) {
        Some(a) => Some(a.value),
        None => None,
    }
}

impl XmlTree {
    pub open spec fn wf(&self) -> bool {
        tree_wf(self@)
    }

    /// The number of nodes.
    pub fn len(&self) -> (res: usize)
        ensures
            res == self@.len(),
    {
        self.nodes.len()
    }

    /// The node with the given id.
    pub fn node(&self, id: usize) -> (res: &XmlNode)
        requires
            id < self@.len(),
        ensures
            res@ == self@[id as int],
    {
        &self.nodes[id]
    }

    /// The children of a node, in document order.
    pub fn children(&self, id: usize) -> (res: Vec<usize>)
        requires
            self.wf(),
            id < self@.len(),
        ensures
            res@ == spec_children(self@, id),
            forall|j: int| 0 <= j < res@.len() ==> res@[j] < self@.len(),
            res@.len() <= self@.len(),
    {
        let ghost nodes = self@;
        let ghost pred = |k: usize| nodes[k as int].parent == Some(id);
        let ghost ids = spec_ids(nodes.len());
        let n = self.nodes.len();
        let mut res: Vec<usize> = Vec::new();
        let mut k: usize = 0;
        proof {
            lemma_filter_empty(ids.take(0), pred);
        }
        while k < n
            invariant
                k <= n,
                n == nodes.len(),
                nodes == self@,
                ids == spec_ids(nodes.len()),
                pred == (|k: usize| nodes[k as int].parent == Some(id)),
                res@ == ids.take(k as int).filter(pred),
                forall|j: int| 0 <= j < res@.len() ==> res@[j] < k,
            decreases n - k,
        {
            proof {
                lemma_filter_take_succ(ids, k as int, pred);
            }
            if self.nodes[k].parent == Some(id) {
                res.push(k);
            }
            k = k + 1;
        }
        proof {
            lemma_take_full(ids);
            ids.lemma_filter_len(pred);
        }
        res
    }

    /// The children of node `id` that are dossier-vocabulary elements named
    /// `name` in node `id`'s own namespace (`children_es`).
    pub fn children_es(&self, id: usize, name: &str) -> (res: Vec<usize>)
        requires
            self.wf(),
            id < self@.len(),
        ensures
            res@ == spec_children_es(self@, id, name@),
            forall|j: int| 0 <= j < res@.len() ==> res@[j] < self@.len(),
            res@.len() <= self@.len(),
    {
        let ghost nodes = self@;
        let namespace = &self.nodes[id].namespace;
        let ghost pred = |k: usize| spec_is_es_child(nodes[k as int], name@, nodes[id as int].namespace);
        let children = self.children(id);
        let mut res: Vec<usize> = Vec::new();
        let mut j: usize = 0;
        proof {
            lemma_filter_empty(children@.take(0), pred);
        }
        while j < children.len()
            invariant
                j <= children@.len(),
                nodes == self@,
                opt_view(*namespace) == nodes[id as int].namespace,
                children@ == spec_children(nodes, id),
                forall|i: int| 0 <= i < children@.len() ==> children@[i] < nodes.len(),
                pred == (|k: usize| spec_is_es_child(nodes[k as int], name@, nodes[id as int].namespace)),
                res@ == children@.take(j as int).filter(pred),
                forall|i: int| 0 <= i < res@.len() ==> res@[i] < nodes.len(),
            decreases children@.len() - j,
        {
            proof {
                lemma_filter_take_succ(children@, j as int, pred);
            }
            let c = children[j];
            if is_es_child(&self.nodes[c], name, namespace) {
                res.push(c);
            }
            j = j + 1;
        }
        proof {
            lemma_take_full(children@);
            children@.lemma_filter_len(pred);
        }
        res
    }

    /// The first child of node `id` that is a dossier-vocabulary element named
    /// `name` in node `id`'s own namespace (`child_es`).
    pub fn child_es(&self, id: usize, name: &str) -> (res: Option<usize>)
        requires
            self.wf(),
            id < self@.len(),
        ensures
            res == spec_child_es(self@, id, name@),
            res matches Some(c) ==> c < self@.len(),
    {
        let matches = self.children_es(id, name);
        if matches.len() > 0 {
            Some(matches[0])
        } else {
            None
        }
    }

    /// The children of node `id` that are XML Signature elements named `name`.
    pub fn children_ds(&self, id: usize, name: &str) -> (res: Vec<usize>)
        requires
            self.wf(),
            id < self@.len(),
        ensures
            res@ == spec_children_ds(self@, id, name@),
            forall|j: int| 0 <= j < res@.len() ==> res@[j] < self@.len(),
            res@.len() <= self@.len(),
    {
        let ghost nodes = self@;
        let ghost pred = |k: usize| spec_is_ds(nodes[k as int], name@);
        let children = self.children(id);
        let mut res: Vec<usize> = Vec::new();
        let mut j: usize = 0;
        proof {
            lemma_filter_empty(children@.take(0), pred);
        }
        while j < children.len()
            invariant
                j <= children@.len(),
                nodes == self@,
                children@ == spec_children(nodes, id),
                forall|i: int| 0 <= i < children@.len() ==> children@[i] < nodes.len(),
                pred == (|k: usize| spec_is_ds(nodes[k as int], name@)),
                res@ == children@.take(j as int).filter(pred),
                forall|i: int| 0 <= i < res@.len() ==> res@[i] < nodes.len(),
            decreases children@.len() - j,
        {
            proof {
                lemma_filter_take_succ(children@, j as int, pred);
            }
            let c = children[j];
            if is_ds(&self.nodes[c], name) {
                res.push(c);
            }
            j = j + 1;
        }
        proof {
            lemma_take_full(children@);
            children@.lemma_filter_len(pred);
        }
        res
    }

    /// The first child of node `id` named `name` outside the XML Signature
    /// namespace.
    pub fn child_non_dsig(&self, id: usize, name: &str) -> (res: Option<usize>)
        requires
            self.wf(),
            id < self@.len(),
        ensures
            res == spec_child_non_dsig(self@, id, name@),
            res matches Some(c) ==> c < self@.len(),
    {
        let ghost nodes = self@;
        let ghost pred = |k: usize| spec_is_non_dsig(nodes[k as int], name@);
        let children = self.children(id);
        let mut j: usize = 0;
        proof {
            lemma_filter_empty(children@.take(0), pred);
        }
        while j < children.len()
            invariant
                j <= children@.len(),
                nodes == self@,
                children@ == spec_children(nodes, id),
                forall|i: int| 0 <= i < children@.len() ==> children@[i] < nodes.len(),
                pred == (|k: usize| spec_is_non_dsig(nodes[k as int], name@)),
                children@.take(j as int).filter(pred).len() == 0,
            decreases children@.len() - j,
        {
            proof {
                lemma_filter_take_succ(children@, j as int, pred);
            }
            let c = children[j];
            if is_non_dsig(&self.nodes[c], name) {
                proof {
                    lemma_first_match(children@, j as int, pred);
                }
                return Some(c);
            }
            j = j + 1;
        }
        proof {
            lemma_take_full(children@);
        }
        None
    }

    /// The text of the first dossier-vocabulary child named `name`
    /// (`child_text`): its text, or the empty text when it has none.
    pub fn child_text(&self, id: usize, name: &str) -> (res: Option<String>)
        requires
            self.wf(),
            id < self@.len(),
        ensures
            opt_view(res) == spec_child_text(self@, id, name@),
    {
        match self.child_es(id, name) {
            Some(c) => match &self.nodes[c].text {
                Some(text) => Some(text.clone()),
                None => Some(String::new()),
            },
            None => None,
        }
    }

    /// The value of the first attribute of node `id` with the given local name
    /// (`Node::attribute`).
    pub fn attribute(&self, id: usize, name: &str) -> (res: Option<String>)
        requires
            id < self@.len(),
        ensures
            opt_view(res) == spec_attribute(self@[id as int], name@),
    {
        let ghost attrs = self@[id as int].attributes;
        let ghost pred = |a: XmlAttrView| a.name == name@;
        let attributes = &self.nodes[id].attributes;
        let mut j: usize = 0;
        proof {
            lemma_filter_empty(attrs.take(0), pred);
        }
        while j < attributes.len()
            invariant
                j <= attributes@.len(),
                id < self@.len(),
                attrs == self@[id as int].attributes,
                attrs == attributes@.map_values(|a: XmlAttribute| a@),
                pred == (|a: XmlAttrView| a.name == name@),
                attrs.take(j as int).filter(pred).len() == 0,
            decreases attributes@.len() - j,
        {
            proof {
                lemma_filter_take_succ(attrs, j as int, pred);
            }
            if str_eq(attributes[j].name.as_str(), name) {
                proof {
                    lemma_first_match(attrs, j as int, pred);
                    assert(attrs[j as int] == attributes@[j as int]@);
                }
                let value = attributes[j].value.clone();
                assert(value@ == attrs[j as int].value);
                return Some(value);
            }
            j = j + 1;
        }
        proof {
            lemma_take_full(attrs);
        }
        None
    }
}

} // verus!
