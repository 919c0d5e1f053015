//! The separate Direct PCM dynamic policy: a copy of the module's template
//! into which the system policy's Bluetooth A2DP sinks, their routes and
//! the Bluetooth module are carried over. Upstream templates are never
//! edited. The XML is read by `roxmltree` into a plain tree of nodes, and
//! every edit is a byte range of the text that was read.
use vstd::prelude::*;
use vstd::string::StringSliceAdditionalSpecFns;

use crate::domain::{opt_view, NamespaceInfo, Settings};
use crate::text::{concat2, concat3, decimal, eq_str, owned, push_str, u64_to_string};

verus! {

broadcast use vstd::string::group_string_axioms;

// ---------------------------------------------------------------------------
// The XML tree
// ---------------------------------------------------------------------------

/// An attribute: its local name, its value, and where the value stands in
/// the text (without the quotes).
pub struct XmlAttribute {
    pub name: String,
    pub value: String,
    pub value_start: usize,
    pub value_end: usize,
}

/// A node in document order: an element with its tag, or another node;
/// its parent's index, its byte range in the text, and its attributes.
pub struct XmlNode {
    pub element: bool,
    pub namespace: Option<String>,
    pub name: String,
    pub parent: Option<usize>,
    pub start: usize,
    pub end: usize,
    pub attributes: Vec<XmlAttribute>,
}

/// A parsed document: every node in document order, the document root
/// first.
pub struct XmlDocument {
    pub nodes: Vec<XmlNode>,
}

pub struct AttrView {
    pub name: Seq<char>,
    pub value: Seq<char>,
    pub value_start: nat,
    pub value_end: nat,
}

pub struct NodeView {
    pub element: bool,
    pub namespace: Option<Seq<char>>,
    pub name: Seq<char>,
    pub parent: Option<nat>,
    pub start: nat,
    pub end: nat,
    pub attributes: Seq<AttrView>,
}

impl XmlAttribute {
    /// An attribute from its name, its value and the byte range of its
    /// value.
    pub fn from_parts(name: &str, value: &str, range: core::ops::Range<usize>) -> (r: XmlAttribute)
        ensures
            r@ == (AttrView { name: name@, value: value@, value_start: range.start as nat, value_end: range.end as nat }),
    {
        XmlAttribute { name: owned(name), value: owned(value), value_start: range.start, value_end: range.end }
    }
}

impl XmlNode {
    /// A node from its kind, its tag, its parent's index, its byte range and
    /// its attributes.
    pub fn from_parts(
        element: bool,
        namespace: Option<&str>,
        name: &str,
        parent: Option<usize>,
        range: core::ops::Range<usize>,
        attributes: Vec<XmlAttribute>,
    ) -> (r: XmlNode)
        ensures
            r.element == element,
            opt_view(r.namespace) == (match namespace {
                Some(x) => Some(x@),
                None => None::<Seq<char>>,
            }),
            r.name@ == name@,
            r.parent == parent,
            r.start == range.start,
            r.end == range.end,
            r.attributes@ == attributes@,
    {
        let namespace = match namespace {
            Some(x) => Some(owned(x)),
            None => None,
        };
        XmlNode { element, namespace, name: owned(name), parent, start: range.start, end: range.end, attributes }
    }
}

impl View for XmlAttribute {
    type V = AttrView;

    open spec fn view(&self) -> AttrView {
        AttrView {
            name: self.name@,
            value: self.value@,
            value_start: self.value_start as nat,
            value_end: self.value_end as nat,
        }
    }
}

impl View for XmlNode {
    type V = NodeView;

    open spec fn view(&self) -> NodeView {
        NodeView {
            element: self.element,
            namespace: opt_view(self.namespace),
            name: self.name@,
            parent: match self.parent {
                Some(p) => Some(p as nat),
                None => None,
            },
            start: self.start as nat,
            end: self.end as nat,
            attributes: self.attributes@.map_values(|a: XmlAttribute| a@),
        }
    }
}

impl View for XmlDocument {
    type V = Seq<NodeView>;

    open spec fn view(&self) -> Seq<NodeView> {
        self.nodes@.map_values(|n: XmlNode| n@)
    }
}

/// What `roxmltree::Document::parse` makes of a UTF-8 text: its nodes in
/// document order, or the parser's error message.
pub uninterp spec fn xml_parse_result(text: Seq<u8>) -> Result<Seq<NodeView>, Seq<char>>;

/// Parses a policy XML text with `roxmltree::Document::parse` (default
/// options) and lists its nodes in document order, each with its tag, its
/// parent's position, its byte range and its attributes' value ranges. The
/// result, or the parser's error text, is named `xml_parse_result`.
#[verifier::external_body]
fn parse_xml(text: &[u8]) -> (r: Result<XmlDocument, String>)
    ensures
        match xml_parse_result(text@) {
            Ok(nodes) => r matches Ok(d) && d@ == nodes,
            Err(e) => r matches Err(m) && m@ == e,
        },
{
    let text = std::str::from_utf8(text).map_err(|e| e.to_string())?;
    let doc = roxmltree::Document::parse(text).map_err(|e| e.to_string())?;
    let nodes = doc.descendants().map(|n| XmlNode::from_parts(
        n.is_element(),
        n.tag_name().namespace(),
        n.tag_name().name(),
        n.parent().map(|p| p.id().get_usize()),
        n.range(),
        n.attributes().map(|a| XmlAttribute::from_parts(a.name(), a.value(), a.range_value())).collect(),
    ));
    Ok(XmlDocument { nodes: nodes.collect() })
}

/// `i` is `j` or one of its ancestors.
pub open spec fn ancestor_or_self(nodes: Seq<NodeView>, j: int, i: int) -> bool
    decreases j,
{
    if j == i {
        true
    } else if 0 <= j < nodes.len() {
        match nodes[j].parent {
            Some(p) => if p < j {
                ancestor_or_self(nodes, p as int, i)
            } else {
                false
            },
            None => false,
        }
    } else {
        false
    }
}

/// The positions in `lo..hi` that satisfy `p`, in order.
pub open spec fn select(lo: int, hi: int, p: spec_fn(int) -> bool) -> Seq<int>
    decreases hi - lo,
{
    if hi <= lo {
        Seq::empty()
    } else {
        let s = select(lo, hi - 1, p);
        if p(hi - 1) {
            s.push(hi - 1)
        } else {
            s
        }
    }
}

/// An element with the local name `name` (`Node::has_tag_name` with a name
/// without namespace).
pub open spec fn has_tag(n: NodeView, name: Seq<char>) -> bool {
    n.element && n.name == name
}

/// The XInclude `include` element.
pub open spec fn is_xinclude(n: NodeView) -> bool {
    n.element && n.namespace == Some("http://www.w3.org/2001/XInclude"@) && n.name == "include"@
}

/// Index of the first attribute named `key`, from `i` on.
pub open spec fn attr_index(attrs: Seq<AttrView>, key: Seq<char>, i: int) -> Option<int>
    decreases attrs.len() - i,
{
    if i < 0 || i >= attrs.len() {
        None
    } else if attrs[i].name == key {
        Some(i)
    } else {
        attr_index(attrs, key, i + 1)
    }
}

/// The value of the first attribute named `key` (`Node::attribute`).
pub open spec fn attribute(n: NodeView, key: Seq<char>) -> Option<Seq<char>> {
    match attr_index(n.attributes, key, 0) {
        Some(k) => Some(n.attributes[k].value),
        None => None,
    }
}

/// The one position of a list, or how many there were.
pub open spec fn unique_spec(list: Seq<int>, label: Seq<char>) -> Result<int, Seq<char>> {
    if list.len() == 1 {
        Ok(list[0])
    } else {
        Err("expected one "@ + label + ", found "@ + decimal(list.len()))
    }
}

/// A `module` element named `name` in the document.
pub open spec fn is_module_named(nodes: Seq<NodeView>, name: Seq<char>) -> spec_fn(int) -> bool {
    |j: int|
        ancestor_or_self(nodes, j, 0) && has_tag(nodes[j], "module"@) && attribute(nodes[j], "name"@)
            == Some(name)
}

/// The `module` element named `name`, which must be unique.
pub open spec fn module_spec(nodes: Seq<NodeView>, name: Seq<char>) -> Result<int, Seq<char>> {
    unique_spec(select(0, nodes.len() as int, is_module_named(nodes, name)), name)
}

/// A child element of `parent` named `name`.
pub open spec fn is_child_named(nodes: Seq<NodeView>, parent: int, name: Seq<char>) -> spec_fn(
    int,
) -> bool {
    |j: int| nodes[j].parent == Some(parent as nat) && has_tag(nodes[j], name)
}

/// The child element of `parent` named `name`, which must be unique.
pub open spec fn child_spec(nodes: Seq<NodeView>, parent: int, name: Seq<char>) -> Result<int, Seq<char>> {
    unique_spec(select(0, nodes.len() as int, is_child_named(nodes, parent, name)), name)
}

/// A required, non-empty attribute.
pub open spec fn attr_spec(n: NodeView, key: Seq<char>) -> Result<Seq<char>, Seq<char>> {
    match attribute(n, key) {
        Some(v) if v.len() > 0 => Ok(v),
        _ => Err("missing "@ + key + " on "@ + n.name),
    }
}

/// The modules must be inline: no XInclude below `i`.
pub open spec fn includes_below(nodes: Seq<NodeView>, i: int) -> bool {
    exists|j: int| 0 <= j < nodes.len() && ancestor_or_self(nodes, j, i) && is_xinclude(#[trigger] nodes[j])
}

pub open spec fn nested_include_error() -> Seq<char> {
    "Direct PCM dynamic v1 requires inline Primary/Bluetooth modules; nested XInclude is not supported"@
}

fn is_descendant(doc: &XmlDocument, j: usize, i: usize) -> (r: bool)
    requires
        j < doc@.len(),
    ensures
        r == ancestor_or_self(doc@, j as int, i as int),
{
    let mut k = j;
    while k != i
        invariant
            k < doc@.len(),
            ancestor_or_self(doc@, j as int, i as int) == ancestor_or_self(doc@, k as int, i as int),
        decreases k,
    {
        assert(doc.nodes@[k as int]@ == doc@[k as int]);
        match doc.nodes[k].parent {
            Some(p) => {
                if p < k {
                    k = p;
                } else {
                    return false;
                }
            },
            None => {
                return false;
            },
        }
    }
    true
}

fn node_has_tag(node: &XmlNode, name: &str) -> (r: bool)
    ensures
        r == has_tag(node@, name@),
{
    node.element && eq_str(node.name.as_str(), name)
}

fn node_is_xinclude(node: &XmlNode) -> (r: bool)
    ensures
        r == is_xinclude(node@),
{
    if !node.element || !eq_str(node.name.as_str(), "include") {
        return false;
    }
    match &node.namespace {
        Some(ns) => eq_str(ns.as_str(), "http://www.w3.org/2001/XInclude"),
        None => false,
    }
}

proof fn lemma_attr_index(attrs: Seq<AttrView>, key: Seq<char>, i: int)
    requires
        0 <= i,
    ensures
        match attr_index(attrs, key, i) {
            Some(k) => i <= k < attrs.len() && attrs[k].name == key,
            None => true,
        },
    decreases attrs.len() - i,
{
    if i < attrs.len() && attrs[i].name != key {
        lemma_attr_index(attrs, key, i + 1);
    }
}

fn attr_position(node: &XmlNode, key: &str) -> (r: Option<usize>)
    ensures
        match r {
            Some(i) => attr_index(node@.attributes, key@, 0) == Some(i as int) && i < node.attributes@.len(),
            None => attr_index(node@.attributes, key@, 0) is None,
        },
{
    let mut i: usize = 0;
    while i < node.attributes.len()
        invariant
            i <= node.attributes@.len(),
            attr_index(node@.attributes, key@, 0) == attr_index(node@.attributes, key@, i as int),
        decreases node.attributes@.len() - i,
    {
        assert(node.attributes@[i as int]@ == node@.attributes[i as int]);
        if eq_str(node.attributes[i].name.as_str(), key) {
            proof {
                lemma_attr_index(node@.attributes, key@, 0);
            }
            return Some(i);
        }
        i += 1;
    }
    None
}

/// The value of the first attribute named `key`.
pub fn attribute_of<'a>(node: &'a XmlNode, key: &str) -> (r: Option<&'a str>)
    ensures
        match attribute(node@, key@) {
            Some(v) => r matches Some(s) && s@ == v,
            None => r is None,
        },
{
    match attr_position(node, key) {
        Some(i) => {
            assert(attr_index(node@.attributes, key@, 0) == Some(i as int));
            assert(node.attributes@[i as int]@ == node@.attributes[i as int]);
            assert(attribute(node@, key@) == Some(node.attributes@[i as int].value@));
            Some(node.attributes[i].value.as_str())
        },
        None => None,
    }
}

fn attribute_is(node: &XmlNode, key: &str, value: &str) -> (r: bool)
    ensures
        r == (attribute(node@, key@) == Some(value@)),
{
    match attribute_of(node, key) {
        Some(v) => eq_str(v, value),
        None => false,
    }
}

/// The one position of a list, or an error that counts them.
pub fn unique(list: Vec<usize>, label: &str) -> (r: Result<usize, String>)
    ensures
        match unique_spec(list@.map_values(|k: usize| k as int), label@) {
            Ok(k) => r matches Ok(x) && x as int == k,
            Err(e) => r matches Err(m) && m@ == e,
        },
{
    if list.len() == 1 {
        Ok(list[0])
    } else {
        let mut m = concat3("expected one ", label, ", found ");
        push_str(&mut m, u64_to_string(list.len() as u64).as_str());
        Err(m)
    }
}

/// The `module` element named `name`.
pub fn module(doc: &XmlDocument, name: &str) -> (r: Result<usize, String>)
    ensures
        match module_spec(doc@, name@) {
            Ok(k) => r matches Ok(x) && x as int == k && x < doc@.len(),
            Err(e) => r matches Err(m) && m@ == e,
        },
{
    let ghost p = is_module_named(doc@, name@);
    let mut found: Vec<usize> = Vec::new();
    let mut j: usize = 0;
    while j < doc.nodes.len()
        invariant
            j <= doc@.len(),
            doc.nodes@.len() == doc@.len(),
            p == is_module_named(doc@, name@),
            found@.map_values(|k: usize| k as int) == select(0, j as int, p),
            forall|i: int| 0 <= i < found@.len() ==> #[trigger] found@[i] < j,
        decreases doc@.len() - j,
    {
        assert(doc.nodes@[j as int]@ == doc@[j as int]);
        let ghost before = found@;
        if is_descendant(doc, j, 0) && node_has_tag(&doc.nodes[j], "module") && attribute_is(
            &doc.nodes[j],
            "name",
            name,
        ) {
            found.push(j);
            assert(found@.map_values(|k: usize| k as int) =~= before.map_values(|k: usize| k as int).push(j as int));
        }
        j += 1;
    }
    if found.len() == 1 {
        assert(found@[0] < doc@.len());
    }
    unique(found, name)
}

/// The child element of `parent` named `name`.
pub fn child(doc: &XmlDocument, parent: usize, name: &str) -> (r: Result<usize, String>)
    ensures
        match child_spec(doc@, parent as int, name@) {
            Ok(k) => r matches Ok(x) && x as int == k && x < doc@.len(),
            Err(e) => r matches Err(m) && m@ == e,
        },
{
    let ghost p = is_child_named(doc@, parent as int, name@);
    let mut found: Vec<usize> = Vec::new();
    let mut j: usize = 0;
    while j < doc.nodes.len()
        invariant
            j <= doc@.len(),
            doc.nodes@.len() == doc@.len(),
            p == is_child_named(doc@, parent as int, name@),
            found@.map_values(|k: usize| k as int) == select(0, j as int, p),
            forall|i: int| 0 <= i < found@.len() ==> #[trigger] found@[i] < j,
        decreases doc@.len() - j,
    {
        assert(doc.nodes@[j as int]@ == doc@[j as int]);
        let ghost before = found@;
        let is_child = match doc.nodes[j].parent {
            Some(q) => q == parent,
            None => false,
        };
        if is_child && node_has_tag(&doc.nodes[j], name) {
            found.push(j);
            assert(found@.map_values(|k: usize| k as int) =~= before.map_values(|k: usize| k as int).push(j as int));
        }
        j += 1;
    }
    if found.len() == 1 {
        assert(found@[0] < doc@.len());
    }
    unique(found, name)
}

/// A required, non-empty attribute.
pub fn attr(node: &XmlNode, key: &str) -> (r: Result<String, String>)
    ensures
        match attr_spec(node@, key@) {
            Ok(v) => r matches Ok(x) && x@ == v,
            Err(e) => r matches Err(m) && m@ == e,
        },
{
    match attribute_of(node, key) {
        Some(v) if !v.is_empty() => Ok(owned(v)),
        _ => {
            let mut m = concat3("missing ", key, " on ");
            push_str(&mut m, node.name.as_str());
            Err(m)
        },
    }
}

/// Refuses a module that pulls parts of itself in by XInclude.
pub fn no_includes(doc: &XmlDocument, node: usize) -> (r: Result<(), String>)
    ensures
        match r {
            Ok(()) => !includes_below(doc@, node as int),
            Err(m) => includes_below(doc@, node as int) && m@ == nested_include_error(),
        },
{
    let mut j: usize = 0;
    while j < doc.nodes.len()
        invariant
            j <= doc@.len(),
            doc.nodes@.len() == doc@.len(),
            forall|k: int|
                0 <= k < j ==> !(ancestor_or_self(doc@, k, node as int) && is_xinclude(#[trigger] doc@[k])),
        decreases doc@.len() - j,
    {
        assert(doc.nodes@[j as int]@ == doc@[j as int]);
        if is_descendant(doc, j, node) && node_is_xinclude(&doc.nodes[j]) {
            return Err(
                owned(
                    "Direct PCM dynamic v1 requires inline Primary/Bluetooth modules; nested XInclude is not supported",
                ),
            );
        }
        j += 1;
    }
    Ok(())
}

// ---------------------------------------------------------------------------
// Editing the text
// ---------------------------------------------------------------------------

/// How one character is written in an XML attribute value.
pub open spec fn escape_char(c: char) -> Seq<char> {
    if c == '&' {
        "&amp;"@
    } else if c == '"' {
        "&quot;"@
    } else if c == '<' {
        "&lt;"@
    } else if c == '>' {
        "&gt;"@
    } else {
        seq![c]
    }
}

/// A text escaped for an XML attribute value.
pub open spec fn xml_escape(s: Seq<char>) -> Seq<char>
    decreases s.len(),
{
    if s.len() == 0 {
        Seq::empty()
    } else {
        xml_escape(s.drop_last()) + escape_char(s.last())
    }
}

/// Escapes `&`, `"`, `<` and `>` for an XML attribute value.
pub fn escape(value: &str) -> (r: String)
    ensures
        r@ == xml_escape(value@),
{
    let v = crate::text::chars_of(value);
    let mut out = String::new();
    let mut i: usize = 0;
    while i < v.len()
        invariant
            i <= v@.len(),
            v@ == value@,
            out@ == xml_escape(value@.take(i as int)),
        decreases v@.len() - i,
    {
        assert(value@.take(i + 1).drop_last() =~= value@.take(i as int));
        let c = v[i];
        if c == '&' {
            push_str(&mut out, "&amp;");
        } else if c == '"' {
            push_str(&mut out, "&quot;");
        } else if c == '<' {
            push_str(&mut out, "&lt;");
        } else if c == '>' {
            push_str(&mut out, "&gt;");
        } else {
            crate::text::push_char(&mut out, c);
            assert(out@ =~= xml_escape(value@.take(i as int)) + seq![c]);
        }
        i += 1;
    }
    assert(value@.take(v@.len() as int) =~= value@);
    out
}

/// A replacement of the bytes `start..end` by `value`.
pub struct Edit {
    pub start: usize,
    pub end: usize,
    pub value: Vec<u8>,
}

pub struct EditView {
    pub start: nat,
    pub end: nat,
    pub value: Seq<u8>,
}

impl View for Edit {
    type V = EditView;

    open spec fn view(&self) -> EditView {
        EditView { start: self.start as nat, end: self.end as nat, value: self.value@ }
    }
}

pub open spec fn edit_views(v: Seq<Edit>) -> Seq<EditView> {
    v.map_values(|e: Edit| e@)
}

/// The first position whose edit starts after `key`.
pub open spec fn upper(sorted: Seq<EditView>, key: nat, i: int) -> int
    decreases sorted.len() - i,
{
    if i < 0 || i >= sorted.len() {
        sorted.len() as int
    } else if sorted[i].start > key {
        i
    } else {
        upper(sorted, key, i + 1)
    }
}

/// The edits ordered by start, keeping the order of edits that start at
/// the same byte (a stable sort).
pub open spec fn sort_by_start(s: Seq<EditView>) -> Seq<EditView>
    decreases s.len(),
{
    if s.len() == 0 {
        Seq::empty()
    } else {
        let sorted = sort_by_start(s.drop_last());
        sorted.insert(upper(sorted, s.last().start, 0), s.last())
    }
}

/// Two consecutive edits overlap.
pub open spec fn overlapping(s: Seq<EditView>) -> bool {
    exists|i: int| 0 <= i && i + 1 < s.len() && #[trigger] s[i].end > s[i + 1].start
}

/// An edit lies within a text of `len` bytes.
pub open spec fn edit_within(e: EditView, len: nat) -> bool {
    e.start <= e.end && e.end <= len
}

/// Every edit lies within the text.
pub open spec fn within(s: Seq<EditView>, len: nat) -> bool {
    forall|i: int| 0 <= i < s.len() ==> edit_within(#[trigger] s[i], len)
}

/// The text with the edits from `k` on applied, copying from `pos`.
pub open spec fn splice(text: Seq<u8>, s: Seq<EditView>, pos: int, k: int) -> Seq<u8>
    decreases s.len() - k,
{
    if k < 0 || k >= s.len() {
        text.subrange(pos, text.len() as int)
    } else {
        text.subrange(pos, s[k].start as int) + s[k].value + splice(text, s, s[k].end as int, k + 1)
    }
}

pub open spec fn invalid_range_error() -> Seq<char> {
    "XML edit outside the text"@
}

/// The text with every edit applied, refused when two edits overlap.
pub open spec fn edit_spec(text: Seq<u8>, edits: Seq<EditView>) -> Result<Seq<u8>, Seq<char>> {
    let s = sort_by_start(edits);
    if overlapping(s) {
        Err("overlapping XML edits"@)
    } else if !within(s, text.len()) {
        Err(invalid_range_error())
    } else {
        Ok(splice(text, s, 0, 0))
    }
}

fn upper_index(sorted: &Vec<Edit>, key: usize) -> (r: usize)
    ensures
        r as int == upper(edit_views(sorted@), key as nat, 0),
        r <= sorted@.len(),
{
    let mut i: usize = 0;
    while i < sorted.len()
        invariant
            i <= sorted@.len(),
            upper(edit_views(sorted@), key as nat, 0) == upper(edit_views(sorted@), key as nat, i as int),
        decreases sorted@.len() - i,
    {
        assert(edit_views(sorted@)[i as int] == sorted@[i as int]@);
        if sorted[i].start > key {
            return i;
        }
        i += 1;
    }
    i
}

fn sort_edits(edits: Vec<Edit>) -> (r: Vec<Edit>)
    ensures
        edit_views(r@) == sort_by_start(edit_views(edits@)),
{
    let mut sorted: Vec<Edit> = Vec::new();
    let mut rest = edits;
    let ghost all = edit_views(rest@);
    let total = rest.len();
    assert(all.len() == total);
    let mut n: usize = 0;
    while rest.len() > 0
        invariant
            n + rest@.len() == all.len(),
            all.len() <= usize::MAX,
            edit_views(rest@) == all.skip(n as int),
            edit_views(sorted@) == sort_by_start(all.take(n as int)),
        decreases rest@.len(),
    {
        let ghost old_rest = rest@;
        let e = rest.remove(0);
        proof {
            assert(edit_views(old_rest)[0] == all[n as int]);
            assert(e@ == all[n as int]);
            assert(rest@ =~= old_rest.subrange(1, old_rest.len() as int));
            assert(all.take(n + 1).drop_last() =~= all.take(n as int));
            assert(edit_views(rest@) =~= edit_views(old_rest).subrange(1, old_rest.len() as int));
            assert(all.skip(n as int).subrange(1, old_rest.len() as int) =~= all.skip(n + 1));
            assert(edit_views(rest@) =~= all.skip(n + 1));
        }
        let q = upper_index(&sorted, e.start);
        let ghost before = edit_views(sorted@);
        sorted.insert(q, e);
        proof {
            assert(edit_views(sorted@) =~= before.insert(q as int, all[n as int]));
        }
        n += 1;
    }
    assert(all.take(all.len() as int) =~= all);
    sorted
}

fn extend_range(out: &mut Vec<u8>, src: &[u8], lo: usize, hi: usize)
    requires
        lo <= hi <= src@.len(),
    ensures
        final(out)@ == old(out)@ + src@.subrange(lo as int, hi as int),
{
    let mut i = lo;
    while i < hi
        invariant
            lo <= i <= hi <= src@.len(),
            out@ == old(out)@ + src@.subrange(lo as int, i as int),
        decreases hi - i,
    {
        out.push(src[i]);
        assert(out@ =~= old(out)@ + src@.subrange(lo as int, i + 1));
        i += 1;
    }
}

/// Applies byte edits to a text: in order of their start, refused when
/// two overlap or one lies outside the text.
pub fn edit(text: &[u8], edits: Vec<Edit>) -> (r: Result<Vec<u8>, String>)
    ensures
        match edit_spec(text@, edit_views(edits@)) {
            Ok(t) => r matches Ok(x) && x@ == t,
            Err(e) => r matches Err(m) && m@ == e,
        },
{
    let ghost input = edit_views(edits@);
    let sorted = sort_edits(edits);
    let ghost s = edit_views(sorted@);
    assert(s == sort_by_start(input));
    let n = sorted.len();
    let mut i: usize = 0;
    while i < n && i + 1 < n
        invariant
            s == edit_views(sorted@),
            s == sort_by_start(input),
            input == edit_views(edits@),
            n == sorted@.len(),
            i <= n,
            forall|k: int| 0 <= k < i && k + 1 < s.len() ==> !(#[trigger] s[k].end > s[k + 1].start),
        decreases n - i,
    {
        assert(s[i as int] == sorted@[i as int]@ && s[i + 1] == sorted@[i + 1]@);
        if sorted[i].end > sorted[i + 1].start {
            assert(s[i as int].end > s[i + 1].start);
            assert(overlapping(s));
            return Err(owned("overlapping XML edits"));
        }
        i += 1;
    }
    assert(!overlapping(s));
    let mut j: usize = 0;
    while j < sorted.len()
        invariant
            s == edit_views(sorted@),
            s == sort_by_start(input),
            input == edit_views(edits@),
            !overlapping(s),
            j <= sorted@.len(),
            forall|k: int| 0 <= k < j ==> edit_within(#[trigger] s[k], text@.len()),
        decreases sorted@.len() - j,
    {
        assert(s[j as int] == sorted@[j as int]@);
        if !(sorted[j].start <= sorted[j].end && sorted[j].end <= text.len()) {
            assert(!edit_within(s[j as int], text@.len()));
            assert(!within(s, text@.len()));
            return Err(owned("XML edit outside the text"));
        }
        j += 1;
    }
    assert(within(s, text@.len()));
    // Copy the text from the front, one edit at a time.
    let mut out: Vec<u8> = Vec::new();
    let mut pos: usize = 0;
    let mut k: usize = 0;
    while k < sorted.len()
        invariant
            s == edit_views(sorted@),
            s == sort_by_start(input),
            input == edit_views(edits@),
            within(s, text@.len()),
            !overlapping(s),
            k <= s.len(),
            pos <= text@.len(),
            k < s.len() ==> pos <= s[k as int].start,
            out@ + splice(text@, s, pos as int, k as int) == splice(text@, s, 0, 0),
        decreases s.len() - k,
    {
        let ghost before = out@;
        assert(s[k as int] == sorted@[k as int]@);
        extend_range(&mut out, text, pos, sorted[k].start);
        let mut v: usize = 0;
        while v < sorted[k].value.len()
            invariant
                s == edit_views(sorted@),
                k < s.len(),
                pos <= s[k as int].start <= text@.len(),
                v <= s[k as int].value.len(),
                out@ == before + text@.subrange(pos as int, s[k as int].start as int) + s[k as int].value.take(v as int),
            decreases s[k as int].value.len() - v,
        {
            out.push(sorted[k].value[v]);
            assert(out@ =~= before + text@.subrange(pos as int, s[k as int].start as int) + s[k as int].value.take(v + 1));
            v += 1;
        }
        proof {
            assert(s[k as int].value.take(v as int) =~= s[k as int].value);
            if k + 1 < s.len() {
                assert(!(s[k as int].end > s[k + 1].start));
            }
            assert(before + (text@.subrange(pos as int, s[k as int].start as int) + s[k as int].value
                + splice(text@, s, s[k as int].end as int, k + 1)) =~= out@ + splice(text@, s, s[k as int].end as int, k + 1));
        }
        pos = sorted[k].end;
        k += 1;
    }
    extend_range(&mut out, text, pos, text.len());
    assert(out@ =~= splice(text@, s, 0, 0));
    Ok(out)
}

/// The text of a node with the value of its attribute `key` replaced.
pub open spec fn renamed_spec(text: Seq<u8>, n: NodeView, key: Seq<char>, value: Seq<char>) -> Result<Seq<u8>, Seq<char>> {
    match attr_index(n.attributes, key, 0) {
        None => Err("missing "@ + key),
        Some(k) => {
            let a = n.attributes[k];
            if !(n.start <= n.end <= text.len() && n.start <= a.value_start && n.start <= a.value_end) {
                Err(invalid_range_error())
            } else {
                edit_spec(
                    text.subrange(n.start as int, n.end as int),
                    seq![EditView { start: (a.value_start - n.start) as nat, end: (a.value_end - n.start) as nat, value: vstd::utf8::encode_utf8(xml_escape(value)) }],
                )
            }
        },
    }
}

/// The text of `node` with its attribute `key` set to `value`.
pub fn renamed_node(text: &[u8], node: &XmlNode, key: &str, value: &str) -> (r: Result<Vec<u8>, String>)
    ensures
        match renamed_spec(text@, node@, key@, value@) {
            Ok(t) => r matches Ok(x) && x@ == t,
            Err(e) => r matches Err(m) && m@ == e,
        },
{
    let i = match attr_position(node, key) {
        Some(i) => i,
        None => {
            return Err(concat2("missing ", key));
        },
    };
    assert(attr_index(node@.attributes, key@, 0) == Some(i as int));
    assert(node.attributes@[i as int]@ == node@.attributes[i as int]);
    let a = &node.attributes[i];
    if !(node.start <= node.end && node.end <= text.len() && node.start <= a.value_start
        && node.start <= a.value_end) {
        return Err(owned("XML edit outside the text"));
    }
    let mut part: Vec<u8> = Vec::new();
    extend_range(&mut part, text, node.start, node.end);
    let escaped = escape(value);
    let mut bytes: Vec<u8> = Vec::new();
    crate::finalize::append_text(&mut bytes, escaped.as_str());
    let start = a.value_start - node.start;
    let end = a.value_end - node.start;
    let edits = vec![Edit { start, end, value: bytes }];
    proof {
        assert(edit_views(edits@) =~= seq![EditView { start: (a@.value_start - node@.start) as nat, end: (a@.value_end - node@.start) as nat, value: vstd::utf8::encode_utf8(xml_escape(value@)) }]);
        assert(part@ =~= text@.subrange(node.start as int, node.end as int));
    }
    edit(part.as_slice(), edits)
}

// ---------------------------------------------------------------------------
// The module graph
// ---------------------------------------------------------------------------

/// The kinds of elements the graph check walks.
#[derive(Clone, Copy, PartialEq, Eq, Structural)]
pub enum Walk {
    Modules,
    Ports,
    Routes,
}

/// An element of the kind `w` below node `m`.
pub open spec fn walked(nodes: Seq<NodeView>, m: int, w: Walk) -> spec_fn(int) -> bool {
    |j: int|
        ancestor_or_self(nodes, j, m) && match w {
            Walk::Modules => has_tag(nodes[j], "module"@),
            Walk::Ports => has_tag(nodes[j], "mixPort"@) || has_tag(nodes[j], "devicePort"@),
            Walk::Routes => has_tag(nodes[j], "route"@),
        }
}

pub open spec fn positions(v: Seq<usize>) -> Seq<int> {
    v.map_values(|k: usize| k as int)
}

fn walk(doc: &XmlDocument, m: usize, w: Walk) -> (r: Vec<usize>)
    ensures
        positions(r@) == select(0, doc@.len() as int, walked(doc@, m as int, w)),
        forall|i: int| 0 <= i < r@.len() ==> #[trigger] r@[i] < doc@.len(),
{
    let ghost p = walked(doc@, m as int, w);
    let mut found: Vec<usize> = Vec::new();
    let mut j: usize = 0;
    while j < doc.nodes.len()
        invariant
            j <= doc@.len(),
            doc.nodes@.len() == doc@.len(),
            p == walked(doc@, m as int, w),
            positions(found@) == select(0, j as int, p),
            forall|i: int| 0 <= i < found@.len() ==> #[trigger] found@[i] < j,
        decreases doc@.len() - j,
    {
        assert(doc.nodes@[j as int]@ == doc@[j as int]);
        let ghost before = found@;
        let node = &doc.nodes[j];
        let kind = match w {
            Walk::Modules => node_has_tag(node, "module"),
            Walk::Ports => node_has_tag(node, "mixPort") || node_has_tag(node, "devicePort"),
            Walk::Routes => node_has_tag(node, "route"),
        };
        if kind && is_descendant(doc, j, m) {
            found.push(j);
            assert(positions(found@) =~= positions(before).push(j as int));
        }
        j += 1;
    }
    found
}

/// The role recorded for a port tag, the first one that names it.
pub open spec fn lookup(ports: Seq<(Seq<char>, Seq<char>)>, key: Seq<char>, i: int) -> Option<Seq<char>>
    decreases ports.len() - i,
{
    if i < 0 || i >= ports.len() {
        None
    } else if ports[i].0 == key {
        Some(ports[i].1)
    } else {
        lookup(ports, key, i + 1)
    }
}

pub open spec fn pair_views(v: Seq<(String, String)>) -> Seq<(Seq<char>, Seq<char>)> {
    v.map_values(|p: (String, String)| (p.0@, p.1@))
}

fn lookup_role<'a>(ports: &'a Vec<(String, String)>, key: &str) -> (r: Option<&'a str>)
    ensures
        match lookup(pair_views(ports@), key@, 0) {
            Some(v) => r matches Some(x) && x@ == v,
            None => r is None,
        },
{
    let mut i: usize = 0;
    while i < ports.len()
        invariant
            i <= ports@.len(),
            lookup(pair_views(ports@), key@, 0) == lookup(pair_views(ports@), key@, i as int),
        decreases ports@.len() - i,
    {
        assert(pair_views(ports@)[i as int] == (ports@[i as int].0@, ports@[i as int].1@));
        if eq_str(ports[i].0.as_str(), key) {
            return Some(ports[i].1.as_str());
        }
        i += 1;
    }
    None
}

fn role_is(ports: &Vec<(String, String)>, key: &str, role: &str) -> (r: bool)
    ensures
        r == (lookup(pair_views(ports@), key@, 0) == Some(role@)),
{
    match lookup_role(ports, key) {
        Some(v) => eq_str(v, role),
        None => false,
    }
}

/// The attribute that names a port.
pub open spec fn port_key(n: NodeView) -> Seq<char> {
    if has_tag(n, "mixPort"@) {
        "name"@
    } else {
        "tagName"@
    }
}

/// The ports of a module, tag and role, refused on a missing attribute or a
/// tag named twice.
pub open spec fn collect_ports(nodes: Seq<NodeView>, module: Seq<char>, list: Seq<int>, k: int) -> Result<Seq<(Seq<char>, Seq<char>)>, Seq<char>>
    decreases k,
{
    if k <= 0 {
        Ok(Seq::empty())
    } else {
        match collect_ports(nodes, module, list, k - 1) {
            Err(e) => Err(e),
            Ok(ports) => {
                let p = nodes[list[k - 1]];
                match attr_spec(p, port_key(p)) {
                    Err(e) => Err(e),
                    Ok(tag) => match attr_spec(p, "role"@) {
                        Err(e) => Err(e),
                        Ok(role) => if lookup(ports, tag, 0) is Some {
                            Err("duplicate port: "@ + module + "/"@ + tag)
                        } else {
                            Ok(ports.push((tag, role)))
                        },
                    },
                }
            },
        }
    }
}

/// Every source of a route is a source port of the module.
pub open spec fn check_sources(ports: Seq<(Seq<char>, Seq<char>)>, module: Seq<char>, sources: Seq<Seq<char>>, k: int) -> Result<(), Seq<char>>
    decreases k,
{
    if k <= 0 {
        Ok(())
    } else {
        match check_sources(ports, module, sources, k - 1) {
            Err(e) => Err(e),
            Ok(()) => {
                let source = crate::text::trim(sources[k - 1]);
                if lookup(ports, source, 0) == Some("source"@) {
                    Ok(())
                } else {
                    Err("invalid route source: "@ + module + "/"@ + source)
                }
            },
        }
    }
}

/// Every route of a module leads from its source ports to a sink port.
pub open spec fn check_routes(nodes: Seq<NodeView>, ports: Seq<(Seq<char>, Seq<char>)>, module: Seq<char>, list: Seq<int>, k: int) -> Result<(), Seq<char>>
    decreases k,
{
    if k <= 0 {
        Ok(())
    } else {
        match check_routes(nodes, ports, module, list, k - 1) {
            Err(e) => Err(e),
            Ok(()) => {
                let r = nodes[list[k - 1]];
                match attr_spec(r, "sink"@) {
                    Err(e) => Err(e),
                    Ok(sink) => if lookup(ports, sink, 0) != Some("sink"@) {
                        Err("invalid route sink: "@ + module + "/"@ + sink)
                    } else {
                        match attr_spec(r, "sources"@) {
                            Err(e) => Err(e),
                            Ok(sources) => {
                                let parts = crate::text::split_char(sources, ',');
                                check_sources(ports, module, parts, parts.len() as int)
                            },
                        }
                    },
                }
            },
        }
    }
}

/// One module: its ports, then its routes.
pub open spec fn check_module(nodes: Seq<NodeView>, m: int, module: Seq<char>) -> Result<(), Seq<char>> {
    let plist = select(0, nodes.len() as int, walked(nodes, m, Walk::Ports));
    match collect_ports(nodes, module, plist, plist.len() as int) {
        Err(e) => Err(e),
        Ok(ports) => {
            let rlist = select(0, nodes.len() as int, walked(nodes, m, Walk::Routes));
            check_routes(nodes, ports, module, rlist, rlist.len() as int)
        },
    }
}

/// The modules in order, each named once.
pub open spec fn check_modules(nodes: Seq<NodeView>, list: Seq<int>, k: int) -> Result<Seq<Seq<char>>, Seq<char>>
    decreases k,
{
    if k <= 0 {
        Ok(Seq::empty())
    } else {
        match check_modules(nodes, list, k - 1) {
            Err(e) => Err(e),
            Ok(seen) => match attr_spec(nodes[list[k - 1]], "name"@) {
                Err(e) => Err(e),
                Ok(name) => if seen.contains(name) {
                    Err("duplicate module: "@ + name)
                } else {
                    match check_module(nodes, list[k - 1], name) {
                        Err(e) => Err(e),
                        Ok(()) => Ok(seen.push(name)),
                    }
                },
            },
        }
    }
}

/// A parser error, as the controller reports it.
pub open spec fn parse_error(e: Seq<char>) -> Seq<char> {
    "invalid audio policy XML: "@ + e
}

/// The generated policy's graph is sound: modules named once, ports named
/// once per module, every route from its module's sources to its sinks.
pub open spec fn validate_graph_spec(text: Seq<u8>) -> Result<(), Seq<char>> {
    match xml_parse_result(text) {
        Err(e) => Err(parse_error(e)),
        Ok(nodes) => {
            let list = select(0, nodes.len() as int, walked(nodes, 0, Walk::Modules));
            match check_modules(nodes, list, list.len() as int) {
                Ok(_) => Ok(()),
                Err(e) => Err(e),
            }
        },
    }
}

/// Parses a policy XML text; a text that does not parse is refused with the
/// parser's message.
pub fn parse_policy(text: &[u8]) -> (r: Result<XmlDocument, String>)
    ensures
        match xml_parse_result(text@) {
            Ok(nodes) => r matches Ok(d) && d@ == nodes,
            Err(e) => r matches Err(m) && m@ == parse_error(e),
        },
{
    match parse_xml(text) {
        Ok(d) => Ok(d),
        Err(e) => Err(concat2("invalid audio policy XML: ", e.as_str())),
    }
}

fn check_route_sources(ports: &Vec<(String, String)>, module: &str, sources: &str) -> (r: Result<(), String>)
    ensures
        match check_sources(pair_views(ports@), module@, crate::text::split_char(sources@, ','), crate::text::split_char(sources@, ',').len() as int) {
            Ok(()) => r is Ok,
            Err(e) => r matches Err(m) && m@ == e,
        },
{
    let parts = crate::text::split_str(sources, ',');
    let ghost sv = crate::text::split_char(sources@, ',');
    let mut i: usize = 0;
    while i < parts.len()
        invariant
            i <= parts@.len(),
            crate::text::views(parts@) == sv,
            sv == crate::text::split_char(sources@, ','),
            check_sources(pair_views(ports@), module@, sv, i as int) is Ok,
        decreases parts@.len() - i,
    {
        assert(parts@[i as int]@ == sv[i as int]);
        let source = crate::text::trim_str(parts[i].as_str());
        if !role_is(ports, source.as_str(), "source") {
            let mut m = concat3("invalid route source: ", module, "/");
            push_str(&mut m, source.as_str());
            proof {
                assert(check_sources(pair_views(ports@), module@, sv, i + 1) == Err::<(), Seq<char>>(m@));
                lemma_fold_error_persists_sources(pair_views(ports@), module@, sv, i + 1, sv.len() as int);
            }
            return Err(m);
        }
        i += 1;
    }
    Ok(())
}

proof fn lemma_fold_error_persists_sources(ports: Seq<(Seq<char>, Seq<char>)>, module: Seq<char>, sources: Seq<Seq<char>>, i: int, n: int)
    requires
        1 <= i <= n,
        check_sources(ports, module, sources, i) is Err,
    ensures
        check_sources(ports, module, sources, n) == check_sources(ports, module, sources, i),
    decreases n - i,
{
    if i < n {
        lemma_fold_error_persists_sources(ports, module, sources, i, n - 1);
        assert(check_sources(ports, module, sources, n - 1) is Err);
    }
}

proof fn lemma_ports_error_persists(nodes: Seq<NodeView>, module: Seq<char>, list: Seq<int>, i: int, n: int)
    requires
        1 <= i <= n,
        collect_ports(nodes, module, list, i) is Err,
    ensures
        collect_ports(nodes, module, list, n) == collect_ports(nodes, module, list, i),
    decreases n - i,
{
    if i < n {
        lemma_ports_error_persists(nodes, module, list, i, n - 1);
        assert(collect_ports(nodes, module, list, n - 1) is Err);
    }
}

proof fn lemma_routes_error_persists(nodes: Seq<NodeView>, ports: Seq<(Seq<char>, Seq<char>)>, module: Seq<char>, list: Seq<int>, i: int, n: int)
    requires
        1 <= i <= n,
        check_routes(nodes, ports, module, list, i) is Err,
    ensures
        check_routes(nodes, ports, module, list, n) == check_routes(nodes, ports, module, list, i),
    decreases n - i,
{
    if i < n {
        lemma_routes_error_persists(nodes, ports, module, list, i, n - 1);
        assert(check_routes(nodes, ports, module, list, n - 1) is Err);
    }
}

proof fn lemma_modules_error_persists(nodes: Seq<NodeView>, list: Seq<int>, i: int, n: int)
    requires
        1 <= i <= n,
        check_modules(nodes, list, i) is Err,
    ensures
        check_modules(nodes, list, n) == check_modules(nodes, list, i),
    decreases n - i,
{
    if i < n {
        lemma_modules_error_persists(nodes, list, i, n - 1);
        assert(check_modules(nodes, list, n - 1) is Err);
    }
}

fn module_ports(doc: &XmlDocument, m: usize, module: &str) -> (r: Result<Vec<(String, String)>, String>)
    requires
        m < doc@.len(),
    ensures
        ({
            let plist = select(0, doc@.len() as int, walked(doc@, m as int, Walk::Ports));
            match collect_ports(doc@, module@, plist, plist.len() as int) {
                Ok(ports) => r matches Ok(x) && pair_views(x@) == ports,
                Err(e) => r matches Err(x) && x@ == e,
            }
        }),
{
    let list = walk(doc, m, Walk::Ports);
    let ghost pl = positions(list@);
    let mut ports: Vec<(String, String)> = Vec::new();
    assert(pair_views(ports@) =~= Seq::<(Seq<char>, Seq<char>)>::empty());
    let mut i: usize = 0;
    while i < list.len()
        invariant
            i <= list@.len(),
            pl == positions(list@),
            pl == select(0, doc@.len() as int, walked(doc@, m as int, Walk::Ports)),
            forall|k: int| 0 <= k < list@.len() ==> #[trigger] list@[k] < doc@.len(),
            doc.nodes@.len() == doc@.len(),
            collect_ports(doc@, module@, pl, i as int) == Ok::<Seq<(Seq<char>, Seq<char>)>, Seq<char>>(pair_views(ports@)),
        decreases list@.len() - i,
    {
        let j = list[i];
        assert(pl[i as int] == j as int);
        assert(doc.nodes@[j as int]@ == doc@[j as int]);
        let node = &doc.nodes[j];
        let key = if node_has_tag(node, "mixPort") {
            "name"
        } else {
            "tagName"
        };
        let tag = match attr(node, key) {
            Ok(t) => t,
            Err(e) => {
                proof {
                    lemma_ports_error_persists(doc@, module@, pl, i + 1, pl.len() as int);
                }
                return Err(e);
            },
        };
        let role = match attr(node, "role") {
            Ok(t) => t,
            Err(e) => {
                proof {
                    lemma_ports_error_persists(doc@, module@, pl, i + 1, pl.len() as int);
                }
                return Err(e);
            },
        };
        if lookup_role(&ports, tag.as_str()).is_some() {
            let mut msg = concat3("duplicate port: ", module, "/");
            push_str(&mut msg, tag.as_str());
            proof {
                lemma_ports_error_persists(doc@, module@, pl, i + 1, pl.len() as int);
            }
            return Err(msg);
        }
        let ghost before = ports@;
        ports.push((tag, role));
        assert(pair_views(ports@) =~= pair_views(before).push((tag@, role@)));
        i += 1;
    }
    Ok(ports)
}

fn module_routes(doc: &XmlDocument, m: usize, module: &str, ports: &Vec<(String, String)>) -> (r: Result<(), String>)
    requires
        m < doc@.len(),
    ensures
        ({
            let rlist = select(0, doc@.len() as int, walked(doc@, m as int, Walk::Routes));
            match check_routes(doc@, pair_views(ports@), module@, rlist, rlist.len() as int) {
                Ok(()) => r is Ok,
                Err(e) => r matches Err(x) && x@ == e,
            }
        }),
{
    let list = walk(doc, m, Walk::Routes);
    let ghost rl = positions(list@);
    let mut i: usize = 0;
    while i < list.len()
        invariant
            i <= list@.len(),
            rl == positions(list@),
            rl == select(0, doc@.len() as int, walked(doc@, m as int, Walk::Routes)),
            forall|k: int| 0 <= k < list@.len() ==> #[trigger] list@[k] < doc@.len(),
            doc.nodes@.len() == doc@.len(),
            check_routes(doc@, pair_views(ports@), module@, rl, i as int) is Ok,
        decreases list@.len() - i,
    {
        let j = list[i];
        assert(rl[i as int] == j as int);
        assert(doc.nodes@[j as int]@ == doc@[j as int]);
        let node = &doc.nodes[j];
        let sink = match attr(node, "sink") {
            Ok(t) => t,
            Err(e) => {
                proof {
                    lemma_routes_error_persists(doc@, pair_views(ports@), module@, rl, i + 1, rl.len() as int);
                }
                return Err(e);
            },
        };
        if !role_is(ports, sink.as_str(), "sink") {
            let mut msg = concat3("invalid route sink: ", module, "/");
            push_str(&mut msg, sink.as_str());
            proof {
                lemma_routes_error_persists(doc@, pair_views(ports@), module@, rl, i + 1, rl.len() as int);
            }
            return Err(msg);
        }
        let sources = match attr(node, "sources") {
            Ok(t) => t,
            Err(e) => {
                proof {
                    lemma_routes_error_persists(doc@, pair_views(ports@), module@, rl, i + 1, rl.len() as int);
                }
                return Err(e);
            },
        };
        match check_route_sources(ports, module, sources.as_str()) {
            Ok(()) => {},
            Err(e) => {
                proof {
                    lemma_routes_error_persists(doc@, pair_views(ports@), module@, rl, i + 1, rl.len() as int);
                }
                return Err(e);
            },
        }
        i += 1;
    }
    Ok(())
}

fn contains_name(seen: &Vec<String>, name: &str) -> (r: bool)
    ensures
        r == crate::text::views(seen@).contains(name@),
{
    let mut k: usize = 0;
    while k < seen.len()
        invariant
            k <= seen@.len(),
            forall|q: int| 0 <= q < k ==> #[trigger] seen@[q]@ != name@,
        decreases seen@.len() - k,
    {
        if eq_str(seen[k].as_str(), name) {
            assert(crate::text::views(seen@)[k as int] == name@);
            return true;
        }
        k += 1;
    }
    assert forall|q: int| 0 <= q < seen@.len() implies #[trigger] crate::text::views(seen@)[q] != name@ by {
        assert(crate::text::views(seen@)[q] == seen@[q]@);
    }
    false
}

/// Checks the module graph of a generated policy.
pub fn validate_graph(text: &[u8]) -> (r: Result<(), String>)
    ensures
        match validate_graph_spec(text@) {
            Ok(()) => r is Ok,
            Err(e) => r matches Err(x) && x@ == e,
        },
{
    let doc = parse_policy(text)?;
    assert(xml_parse_result(text@) == Ok::<Seq<NodeView>, Seq<char>>(doc@));
    let list = walk(&doc, 0, Walk::Modules);
    let ghost ml = positions(list@);
    let mut seen: Vec<String> = Vec::new();
    assert(crate::text::views(seen@) =~= Seq::<Seq<char>>::empty());
    let mut i: usize = 0;
    while i < list.len()
        invariant
            i <= list@.len(),
            ml == positions(list@),
            ml == select(0, doc@.len() as int, walked(doc@, 0, Walk::Modules)),
            forall|k: int| 0 <= k < list@.len() ==> #[trigger] list@[k] < doc@.len(),
            doc.nodes@.len() == doc@.len(),
            xml_parse_result(text@) == Ok::<Seq<NodeView>, Seq<char>>(doc@),
            check_modules(doc@, ml, i as int) == Ok::<Seq<Seq<char>>, Seq<char>>(crate::text::views(seen@)),
        decreases list@.len() - i,
    {
        let j = list[i];
        assert(ml[i as int] == j as int);
        assert(doc.nodes@[j as int]@ == doc@[j as int]);
        let name = match attr(&doc.nodes[j], "name") {
            Ok(t) => t,
            Err(e) => {
                proof {
                    lemma_modules_error_persists(doc@, ml, i + 1, ml.len() as int);
                }
                return Err(e);
            },
        };
        if contains_name(&seen, name.as_str()) {
            let msg = concat2("duplicate module: ", name.as_str());
            proof {
                lemma_modules_error_persists(doc@, ml, i + 1, ml.len() as int);
            }
            return Err(msg);
        }
        let ports = match module_ports(&doc, j, name.as_str()) {
            Ok(p) => p,
            Err(e) => {
                proof {
                    lemma_modules_error_persists(doc@, ml, i + 1, ml.len() as int);
                }
                return Err(e);
            },
        };
        match module_routes(&doc, j, name.as_str(), &ports) {
            Ok(()) => {},
            Err(e) => {
                proof {
                    lemma_modules_error_persists(doc@, ml, i + 1, ml.len() as int);
                }
                return Err(e);
            },
        }
        let ghost before = seen@;
        seen.push(name);
        assert(crate::text::views(seen@) =~= crate::text::views(before).push(name@));
        i += 1;
    }
    Ok(())
}

// ---------------------------------------------------------------------------
// Inheriting the system's Bluetooth A2DP outputs
// ---------------------------------------------------------------------------

/// The marker that ends every generated policy.
pub const MARKER: &'static str = "<!-- usbsrctl:direct-pcm-dynamic:v1 -->";

/// The module of the template that the system's Bluetooth module replaces.
pub const BT_PLACEHOLDER: &'static str = "dynamic_bluetooth_placeholder";

/// The A2DP sink device types.
pub const A2DP: [&'static str; 3] = [
    "AUDIO_DEVICE_OUT_BLUETOOTH_A2DP",
    "AUDIO_DEVICE_OUT_BLUETOOTH_A2DP_HEADPHONES",
    "AUDIO_DEVICE_OUT_BLUETOOTH_A2DP_SPEAKER",
];

/// Which children a lookup keeps.
pub enum Filter {
    /// The sink `devicePort` of a device type.
    SinkPort(String),
    /// The `route` to a sink.
    RouteTo(String),
    /// The source `mixPort` of a name.
    SourceMix(String),
    /// Any `mixPort` of a name.
    NamedMix(String),
}

pub enum FilterView {
    SinkPort(Seq<char>),
    RouteTo(Seq<char>),
    SourceMix(Seq<char>),
    NamedMix(Seq<char>),
}

impl View for Filter {
    type V = FilterView;

    open spec fn view(&self) -> FilterView {
        match self {
            Filter::SinkPort(s) => FilterView::SinkPort(s@),
            Filter::RouteTo(s) => FilterView::RouteTo(s@),
            Filter::SourceMix(s) => FilterView::SourceMix(s@),
            Filter::NamedMix(s) => FilterView::NamedMix(s@),
        }
    }
}

pub open spec fn keeps(n: NodeView, f: FilterView) -> bool {
    match f {
        FilterView::SinkPort(t) => has_tag(n, "devicePort"@) && attribute(n, "type"@) == Some(t)
            && attribute(n, "role"@) == Some("sink"@),
        FilterView::RouteTo(t) => has_tag(n, "route"@) && attribute(n, "sink"@) == Some(t),
        FilterView::SourceMix(t) => has_tag(n, "mixPort"@) && attribute(n, "name"@) == Some(t)
            && attribute(n, "role"@) == Some("source"@),
        FilterView::NamedMix(t) => has_tag(n, "mixPort"@) && attribute(n, "name"@) == Some(t),
    }
}

/// A child of `p` that the filter keeps.
pub open spec fn kept_child(nodes: Seq<NodeView>, p: int, f: FilterView) -> spec_fn(int) -> bool {
    |j: int| nodes[j].parent == Some(p as nat) && keeps(nodes[j], f)
}

/// The children of `p` that the filter keeps, in order.
pub open spec fn kept_children(nodes: Seq<NodeView>, p: int, f: FilterView) -> Seq<int> {
    select(0, nodes.len() as int, kept_child(nodes, p, f))
}

fn node_keeps(node: &XmlNode, f: &Filter) -> (r: bool)
    ensures
        r == keeps(node@, f@),
{
    match f {
        Filter::SinkPort(t) => node_has_tag(node, "devicePort") && attribute_is(node, "type", t.as_str())
            && attribute_is(node, "role", "sink"),
        Filter::RouteTo(t) => node_has_tag(node, "route") && attribute_is(node, "sink", t.as_str()),
        Filter::SourceMix(t) => node_has_tag(node, "mixPort") && attribute_is(node, "name", t.as_str())
            && attribute_is(node, "role", "source"),
        Filter::NamedMix(t) => node_has_tag(node, "mixPort") && attribute_is(node, "name", t.as_str()),
    }
}

fn children_kept(doc: &XmlDocument, p: usize, f: &Filter) -> (r: Vec<usize>)
    ensures
        positions(r@) == kept_children(doc@, p as int, f@),
        forall|i: int| 0 <= i < r@.len() ==> #[trigger] r@[i] < doc@.len(),
{
    let ghost pred = kept_child(doc@, p as int, f@);
    let mut found: Vec<usize> = Vec::new();
    let mut j: usize = 0;
    while j < doc.nodes.len()
        invariant
            j <= doc@.len(),
            doc.nodes@.len() == doc@.len(),
            pred == kept_child(doc@, p as int, f@),
            positions(found@) == select(0, j as int, pred),
            forall|i: int| 0 <= i < found@.len() ==> #[trigger] found@[i] < j,
        decreases doc@.len() - j,
    {
        assert(doc.nodes@[j as int]@ == doc@[j as int]);
        let ghost before = found@;
        let is_child = match doc.nodes[j].parent {
            Some(q) => q == p,
            None => false,
        };
        if is_child && node_keeps(&doc.nodes[j], f) {
            found.push(j);
            assert(positions(found@) =~= positions(before).push(j as int));
        }
        j += 1;
    }
    found
}

/// What the inheritance reads: both trees, the system text, and the
/// Primary modules with their port and mix lists.
pub struct Ctx {
    pub s: Seq<NodeView>,
    pub t: Seq<NodeView>,
    pub sb: Seq<u8>,
    pub sp: int,
    pub tp: int,
    pub sports: int,
    pub tports: int,
    pub smixes: int,
    pub tmixes: int,
}

/// A codec the system's Primary module offloads.
pub open spec fn offload_codec(f: Seq<char>) -> bool {
    crate::text::starts_with(f, "AUDIO_FORMAT_"@) && f != "AUDIO_FORMAT_FORCE_AOSP"@
}

pub open spec fn has_offload_codec(formats: Seq<char>) -> bool {
    exists|i: int| 0 <= i < crate::text::words(formats).len() && offload_codec(#[trigger] crate::text::words(formats)[i])
}

/// The output flags of a mix port, as a set.
pub open spec fn flag_set(n: NodeView) -> Set<Seq<char>> {
    match attribute(n, "flags"@) {
        Some(f) => crate::text::words(f).to_set(),
        None => Set::empty(),
    }
}

/// The bytes of a node of the system text.
pub open spec fn node_bytes(sb: Seq<u8>, n: NodeView) -> Result<Seq<u8>, Seq<char>> {
    if n.start <= n.end <= sb.len() {
        Ok(sb.subrange(n.start as int, n.end as int))
    } else {
        Err(invalid_range_error())
    }
}

/// The edit that replaces node `n` of the template.
pub open spec fn replace_node(n: NodeView, value: Seq<u8>) -> EditView {
    EditView { start: n.start, end: n.end, value }
}

/// The edits so far, the sources already inherited, and the mapped names
/// of the route in progress.
pub type SourceAcc = (Seq<EditView>, Seq<Seq<char>>, Seq<Seq<char>>);

/// One source of a system A2DP route: mapped to the template's mix of the
/// same name, or `deep buffer` for `deep_buffer`; `voip_rx` is copied from
/// the system once, the others must have the same output flags.
pub open spec fn source_step(c: Ctx, name: Seq<char>, acc: SourceAcc) -> Result<SourceAcc, Seq<char>> {
    match unique_spec(kept_children(c.s, c.smixes, FilterView::SourceMix(name)), "system route source"@) {
        Err(e) => Err(e),
        Ok(sm) => {
            let exact = kept_children(c.t, c.tmixes, FilterView::NamedMix(name));
            if exact.len() != 1 && name != "deep_buffer"@ {
                Err("cannot map system A2DP source "@ + name + "; original policy retained"@)
            } else {
                let mapped = if exact.len() == 1 {
                    name
                } else {
                    "deep buffer"@
                };
                match unique_spec(kept_children(c.t, c.tmixes, FilterView::SourceMix(mapped)), "mapped route source"@) {
                    Err(e) => Err(e),
                    Ok(tm) => if name == "voip_rx"@ {
                        if acc.1.contains(name) {
                            Ok((acc.0, acc.1, acc.2.push(mapped)))
                        } else {
                            match node_bytes(c.sb, c.s[sm]) {
                                Err(e) => Err(e),
                                Ok(text) => Ok((acc.0.push(replace_node(c.t[tm], text)), acc.1.push(name), acc.2.push(mapped))),
                            }
                        }
                    } else if flag_set(c.s[sm]) != flag_set(c.t[tm]) {
                        Err("incompatible output flags for "@ + name + " -> "@ + mapped)
                    } else {
                        Ok((acc.0, acc.1, acc.2.push(mapped)))
                    },
                }
            }
        },
    }
}

/// The sources of a route, in order.
pub open spec fn sources_fold(c: Ctx, names: Seq<Seq<char>>, k: int, init: SourceAcc) -> Result<SourceAcc, Seq<char>>
    decreases k,
{
    if k <= 0 {
        Ok(init)
    } else {
        match sources_fold(c, names, k - 1, init) {
            Err(e) => Err(e),
            Ok(acc) => source_step(c, crate::text::trim(names[k - 1]), acc),
        }
    }
}

/// The route the template gets for an A2DP sink.
pub open spec fn route_text(tag: Seq<char>, sources: Seq<char>) -> Seq<char> {
    "<route type=\"mix\" sink=\""@ + xml_escape(tag) + "\" sources=\""@ + xml_escape(sources)
        + "\"/>"@
}

/// The sink ports of a device type in both Primary modules, with their
/// tags and the system port renamed to the template's tag.
pub open spec fn device_ports(c: Ctx, dt: Seq<char>) -> Result<(int, Seq<char>, Seq<char>, Seq<u8>), Seq<char>> {
    match unique_spec(kept_children(c.s, c.sports, FilterView::SinkPort(dt)), dt) {
        Err(e) => Err(e),
        Ok(sd) => match unique_spec(kept_children(c.t, c.tports, FilterView::SinkPort(dt)), dt) {
            Err(e) => Err(e),
            Ok(td) => match attr_spec(c.s[sd], "encodedFormats"@) {
                Err(e) => Err(e),
                Ok(formats) => if !has_offload_codec(formats) {
                    Err(dt + ": no system Primary offload codecs"@)
                } else {
                    match attr_spec(c.s[sd], "tagName"@) {
                        Err(e) => Err(e),
                        Ok(source_tag) => match attr_spec(c.t[td], "tagName"@) {
                            Err(e) => Err(e),
                            Ok(target_tag) => match renamed_spec(c.sb, c.s[sd], "tagName"@, target_tag) {
                                Err(e) => Err(e),
                                Ok(renamed) => Ok((td, source_tag, target_tag, renamed)),
                            },
                        },
                    }
                },
            },
        },
    }
}

/// The A2DP routes to the sink in both Primary modules.
pub open spec fn device_routes(c: Ctx, source_tag: Seq<char>, target_tag: Seq<char>) -> Result<(int, int), Seq<char>> {
    match child_spec(c.s, c.sp, "routes"@) {
        Err(e) => Err(e),
        Ok(sroutes) => match unique_spec(kept_children(c.s, sroutes, FilterView::RouteTo(source_tag)), "system A2DP route"@) {
            Err(e) => Err(e),
            Ok(sr) => match child_spec(c.t, c.tp, "routes"@) {
                Err(e) => Err(e),
                Ok(troutes) => match unique_spec(kept_children(c.t, troutes, FilterView::RouteTo(target_tag)), "template A2DP route"@) {
                    Err(e) => Err(e),
                    Ok(tr) => Ok((sr, tr)),
                },
            },
        },
    }
}

/// One A2DP device type: its sink port renamed into the template, and its
/// route rebuilt from the mapped system sources.
pub open spec fn device_step(c: Ctx, dt: Seq<char>, acc: (Seq<EditView>, Seq<Seq<char>>)) -> Result<(Seq<EditView>, Seq<Seq<char>>), Seq<char>> {
    match device_ports(c, dt) {
        Err(e) => Err(e),
        Ok((td, source_tag, target_tag, renamed)) => {
            let edits = acc.0.push(replace_node(c.t[td], renamed));
            match device_routes(c, source_tag, target_tag) {
                Err(e) => Err(e),
                Ok((sr, tr)) => if attribute(c.s[sr], "type"@) != Some("mix"@) {
                    Err("unsupported A2DP route type"@)
                } else {
                    match attr_spec(c.s[sr], "sources"@) {
                        Err(e) => Err(e),
                        Ok(sources) => {
                            let names = crate::text::split_char(sources, ',');
                            match sources_fold(c, names, names.len() as int, (edits, acc.1, Seq::empty())) {
                                Err(e) => Err(e),
                                Ok((edits2, aux, mapped)) => Ok((
                                    edits2.push(replace_node(c.t[tr], vstd::utf8::encode_utf8(route_text(target_tag, crate::state_file::join_with(mapped, ","@))))),
                                    aux,
                                )),
                            }
                        },
                    }
                },
            }
        },
    }
}

/// The device types from the first on.
pub open spec fn devices_fold(c: Ctx, k: int) -> Result<(Seq<EditView>, Seq<Seq<char>>), Seq<char>>
    decreases k,
{
    if k <= 0 {
        Ok((Seq::empty(), Seq::empty()))
    } else {
        match devices_fold(c, k - 1) {
            Err(e) => Err(e),
            Ok(acc) => device_step(c, A2DP@[k - 1]@, acc),
        }
    }
}

/// Both trees, the system text, and the Primary modules' lists.
pub struct Trees<'a> {
    pub s: &'a XmlDocument,
    pub t: &'a XmlDocument,
    pub sb: &'a [u8],
    pub sp: usize,
    pub tp: usize,
    pub sports: usize,
    pub tports: usize,
    pub smixes: usize,
    pub tmixes: usize,
}

impl<'a> Trees<'a> {
    pub open spec fn ctx(&self) -> Ctx {
        Ctx {
            s: self.s@,
            t: self.t@,
            sb: self.sb@,
            sp: self.sp as int,
            tp: self.tp as int,
            sports: self.sports as int,
            tports: self.tports as int,
            smixes: self.smixes as int,
            tmixes: self.tmixes as int,
        }
    }
}

fn first_of(list: Vec<usize>, label: &str, len: usize) -> (r: Result<usize, String>)
    requires
        forall|i: int| 0 <= i < list@.len() ==> #[trigger] list@[i] < len,
    ensures
        match unique_spec(positions(list@), label@) {
            Ok(k) => r matches Ok(x) && x as int == k && x < len,
            Err(e) => r matches Err(m) && m@ == e,
        },
{
    if list.len() == 1 {
        assert(list@[0] < len);
    }
    unique(list, label)
}

fn has_word(words: &Vec<String>, w: &str) -> (r: bool)
    ensures
        r == crate::text::views(words@).contains(w@),
{
    contains_name(words, w)
}

fn flag_words(node: &XmlNode) -> (r: Vec<String>)
    ensures
        crate::text::views(r@) == match attribute(node@, "flags"@) {
            Some(f) => crate::text::words(f),
            None => Seq::empty(),
        },
{
    match attribute_of(node, "flags") {
        Some(f) => crate::text::words_of(f),
        None => Vec::new(),
    }
}

fn included_words(a: &Vec<String>, b: &Vec<String>) -> (r: bool)
    ensures
        r == forall|x: Seq<char>| crate::text::views(a@).contains(x) ==> crate::text::views(b@).contains(x),
{
    let mut i: usize = 0;
    while i < a.len()
        invariant
            i <= a@.len(),
            forall|k: int| 0 <= k < i ==> crate::text::views(b@).contains(#[trigger] crate::text::views(a@)[k]),
        decreases a@.len() - i,
    {
        assert(crate::text::views(a@)[i as int] == a@[i as int]@);
        if !has_word(b, a[i].as_str()) {
            assert(crate::text::views(a@).contains(a@[i as int]@));
            return false;
        }
        i += 1;
    }
    assert forall|x: Seq<char>| crate::text::views(a@).contains(x) implies crate::text::views(b@).contains(x) by {
        let k = choose|k: int| 0 <= k < crate::text::views(a@).len() && crate::text::views(a@)[k] == x;
        assert(crate::text::views(b@).contains(crate::text::views(a@)[k]));
    }
    true
}

fn same_flags(a: &XmlNode, b: &XmlNode) -> (r: bool)
    ensures
        r == (flag_set(a@) == flag_set(b@)),
{
    let wa = flag_words(a);
    let wb = flag_words(b);
    let ghost sa = crate::text::views(wa@);
    let ghost sb = crate::text::views(wb@);
    assert(flag_set(a@) == sa.to_set());
    assert(flag_set(b@) == sb.to_set());
    let r = included_words(&wa, &wb) && included_words(&wb, &wa);
    proof {
        if r {
            assert(sa.to_set() =~= sb.to_set());
        } else {
            if sa.to_set() == sb.to_set() {
                assert forall|x: Seq<char>| sa.contains(x) implies sb.contains(x) by {
                    assert(sa.to_set().contains(x));
                }
                assert forall|x: Seq<char>| sb.contains(x) implies sa.contains(x) by {
                    assert(sb.to_set().contains(x));
                }
            }
        }
    }
    r
}

fn copy_node_bytes(sb: &[u8], node: &XmlNode) -> (r: Result<Vec<u8>, String>)
    ensures
        match node_bytes(sb@, node@) {
            Ok(b) => r matches Ok(x) && x@ == b,
            Err(e) => r matches Err(m) && m@ == e,
        },
{
    if node.start <= node.end && node.end <= sb.len() {
        let mut out: Vec<u8> = Vec::new();
        extend_range(&mut out, sb, node.start, node.end);
        assert(out@ =~= sb@.subrange(node.start as int, node.end as int));
        Ok(out)
    } else {
        Err(owned("XML edit outside the text"))
    }
}

fn source_step_exec(
    c: &Trees,
    name: &str,
    edits: &mut Vec<Edit>,
    aux: &mut Vec<String>,
    mapped: &mut Vec<String>,
) -> (r: Result<(), String>)
    ensures
        match source_step(c.ctx(), name@, (edit_views(old(edits)@), crate::text::views(old(aux)@), crate::text::views(old(mapped)@))) {
            Ok(acc) => r is Ok && acc == (edit_views(final(edits)@), crate::text::views(final(aux)@), crate::text::views(final(mapped)@)),
            Err(e) => r matches Err(m) && m@ == e,
        },
{
    let ghost acc = (edit_views(edits@), crate::text::views(aux@), crate::text::views(mapped@));
    let sm = match first_of(children_kept(c.s, c.smixes, &Filter::SourceMix(owned(name))), "system route source", c.s.nodes.len()) {
        Ok(x) => x,
        Err(e) => {
            return Err(e);
        },
    };
    let exact = children_kept(c.t, c.tmixes, &Filter::NamedMix(owned(name)));
    let is_deep = eq_str(name, "deep_buffer");
    if exact.len() != 1 && !is_deep {
        return Err(concat3("cannot map system A2DP source ", name, "; original policy retained"));
    }
    let mapped_name = if exact.len() == 1 {
        owned(name)
    } else {
        owned("deep buffer")
    };
    let tm = match first_of(children_kept(c.t, c.tmixes, &Filter::SourceMix(owned(mapped_name.as_str()))), "mapped route source", c.t.nodes.len()) {
        Ok(x) => x,
        Err(e) => {
            return Err(e);
        },
    };
    assert(c.s.nodes@[sm as int]@ == c.s@[sm as int]);
    assert(c.t.nodes@[tm as int]@ == c.t@[tm as int]);
    if eq_str(name, "voip_rx") {
        if !contains_name(aux, name) {
            let text = match copy_node_bytes(c.sb, &c.s.nodes[sm]) {
                Ok(b) => b,
                Err(e) => {
                    return Err(e);
                },
            };
            let ghost e0 = edit_views(edits@);
            edits.push(Edit { start: c.t.nodes[tm].start, end: c.t.nodes[tm].end, value: text });
            assert(edit_views(edits@) =~= e0.push(replace_node(c.t@[tm as int], text@)));
            let ghost a0 = crate::text::views(aux@);
            aux.push(owned(name));
            assert(crate::text::views(aux@) =~= a0.push(name@));
        }
    } else if !same_flags(&c.s.nodes[sm], &c.t.nodes[tm]) {
        let mut m = concat3("incompatible output flags for ", name, " -> ");
        push_str(&mut m, mapped_name.as_str());
        return Err(m);
    }
    let ghost m0 = crate::text::views(mapped@);
    mapped.push(mapped_name);
    assert(crate::text::views(mapped@) =~= m0.push(if exact@.len() == 1 { name@ } else { "deep buffer"@ }));
    Ok(())
}

proof fn lemma_sources_error_persists(c: Ctx, names: Seq<Seq<char>>, i: int, n: int, init: SourceAcc)
    requires
        1 <= i <= n,
        sources_fold(c, names, i, init) is Err,
    ensures
        sources_fold(c, names, n, init) == sources_fold(c, names, i, init),
    decreases n - i,
{
    if i < n {
        lemma_sources_error_persists(c, names, i, n - 1, init);
        assert(sources_fold(c, names, n - 1, init) is Err);
    }
}

proof fn lemma_devices_error_persists(c: Ctx, i: int, n: int)
    requires
        1 <= i <= n,
        devices_fold(c, i) is Err,
    ensures
        devices_fold(c, n) == devices_fold(c, i),
    decreases n - i,
{
    if i < n {
        lemma_devices_error_persists(c, i, n - 1);
        assert(devices_fold(c, n - 1) is Err);
    }
}

fn sources_exec(
    c: &Trees,
    sources: &str,
    edits: &mut Vec<Edit>,
    aux: &mut Vec<String>,
    mapped: &mut Vec<String>,
) -> (r: Result<(), String>)
    ensures
        ({
            let names = crate::text::split_char(sources@, ',');
            match sources_fold(c.ctx(), names, names.len() as int, (edit_views(old(edits)@), crate::text::views(old(aux)@), crate::text::views(old(mapped)@))) {
                Ok(acc) => r is Ok && acc == (edit_views(final(edits)@), crate::text::views(final(aux)@), crate::text::views(final(mapped)@)),
                Err(e) => r matches Err(m) && m@ == e,
            }
        }),
{
    let ghost init = (edit_views(edits@), crate::text::views(aux@), crate::text::views(mapped@));
    let parts = crate::text::split_str(sources, ',');
    let ghost names = crate::text::split_char(sources@, ',');
    let mut i: usize = 0;
    while i < parts.len()
        invariant
            i <= parts@.len(),
            crate::text::views(parts@) == names,
            names == crate::text::split_char(sources@, ','),
            init == (edit_views(old(edits)@), crate::text::views(old(aux)@), crate::text::views(old(mapped)@)),
            sources_fold(c.ctx(), names, i as int, init) == Ok::<SourceAcc, Seq<char>>((edit_views(edits@), crate::text::views(aux@), crate::text::views(mapped@))),
        decreases parts@.len() - i,
    {
        assert(parts@[i as int]@ == names[i as int]);
        let name = crate::text::trim_str(parts[i].as_str());
        match source_step_exec(c, name.as_str(), edits, aux, mapped) {
            Ok(()) => {},
            Err(e) => {
                proof {
                    lemma_sources_error_persists(c.ctx(), names, i + 1, names.len() as int, init);
                }
                return Err(e);
            },
        }
        i += 1;
    }
    Ok(())
}

fn device_ports_exec(c: &Trees, dt: &str) -> (r: Result<(usize, String, String, Vec<u8>), String>)
    ensures
        match device_ports(c.ctx(), dt@) {
            Ok((td, st, tt, renamed)) => r matches Ok((x, a, b, v)) && x as int == td && x < c.t@.len() && a@ == st && b@ == tt && v@ == renamed,
            Err(e) => r matches Err(m) && m@ == e,
        },
{
    let sd = match first_of(children_kept(c.s, c.sports, &Filter::SinkPort(owned(dt))), dt, c.s.nodes.len()) {
        Ok(x) => x,
        Err(e) => {
            return Err(e);
        },
    };
    let td = match first_of(children_kept(c.t, c.tports, &Filter::SinkPort(owned(dt))), dt, c.t.nodes.len()) {
        Ok(x) => x,
        Err(e) => {
            return Err(e);
        },
    };
    assert(c.s.nodes@[sd as int]@ == c.s@[sd as int]);
    assert(c.t.nodes@[td as int]@ == c.t@[td as int]);
    let source = &c.s.nodes[sd];
    let formats = attr(source, "encodedFormats")?;
    let words = crate::text::words_of(formats.as_str());
    let mut i: usize = 0;
    let mut found = false;
    while i < words.len()
        invariant
            i <= words@.len(),
            crate::text::views(words@) == crate::text::words(formats@),
            found == exists|k: int| 0 <= k < i && offload_codec(#[trigger] crate::text::words(formats@)[k]),
        decreases words@.len() - i,
    {
        assert(words@[i as int]@ == crate::text::words(formats@)[i as int]);
        let w = words[i].as_str();
        if crate::text::strip_prefix_str(w, "AUDIO_FORMAT_").is_some() && !eq_str(w, "AUDIO_FORMAT_FORCE_AOSP") {
            assert(offload_codec(crate::text::words(formats@)[i as int]));
            found = true;
        }
        i += 1;
    }
    if !found {
        return Err(concat2(dt, ": no system Primary offload codecs"));
    }
    let source_tag = attr(source, "tagName")?;
    let target_tag = attr(&c.t.nodes[td], "tagName")?;
    let renamed = renamed_node(c.sb, source, "tagName", target_tag.as_str())?;
    Ok((td, source_tag, target_tag, renamed))
}

fn device_routes_exec(c: &Trees, source_tag: &str, target_tag: &str) -> (r: Result<(usize, usize), String>)
    ensures
        match device_routes(c.ctx(), source_tag@, target_tag@) {
            Ok((sr, tr)) => r matches Ok((x, y)) && x as int == sr && y as int == tr && x < c.s@.len() && y < c.t@.len(),
            Err(e) => r matches Err(m) && m@ == e,
        },
{
    let sroutes = child(c.s, c.sp, "routes")?;
    let sr = first_of(children_kept(c.s, sroutes, &Filter::RouteTo(owned(source_tag))), "system A2DP route", c.s.nodes.len())?;
    let troutes = child(c.t, c.tp, "routes")?;
    let tr = first_of(children_kept(c.t, troutes, &Filter::RouteTo(owned(target_tag))), "template A2DP route", c.t.nodes.len())?;
    Ok((sr, tr))
}

pub(crate) fn join_names(parts: &Vec<String>, sep: &str) -> (r: String)
    ensures
        r@ == crate::state_file::join_with(crate::text::views(parts@), sep@),
{
    let mut out = String::new();
    let mut i: usize = 0;
    while i < parts.len()
        invariant
            i <= parts@.len(),
            out@ == crate::state_file::join_with(crate::text::views(parts@).take(i as int), sep@),
        decreases parts@.len() - i,
    {
        let ghost v = crate::text::views(parts@);
        assert(v.take(i + 1).drop_last() =~= v.take(i as int));
        assert(v.take(i + 1).last() == parts@[i as int]@);
        if i > 0 {
            push_str(&mut out, sep);
        } else {
            assert(v.take(1) =~= seq![parts@[0]@]);
            assert(out@ =~= Seq::<char>::empty());
        }
        push_str(&mut out, parts[i].as_str());
        i += 1;
    }
    assert(crate::text::views(parts@).take(parts@.len() as int) =~= crate::text::views(parts@));
    out
}

fn device_step_exec(c: &Trees, dt: &str, edits: &mut Vec<Edit>, aux: &mut Vec<String>) -> (r: Result<(), String>)
    ensures
        match device_step(c.ctx(), dt@, (edit_views(old(edits)@), crate::text::views(old(aux)@))) {
            Ok(acc) => r is Ok && acc == (edit_views(final(edits)@), crate::text::views(final(aux)@)),
            Err(e) => r matches Err(m) && m@ == e,
        },
{
    let (td, source_tag, target_tag, renamed) = device_ports_exec(c, dt)?;
    assert(c.t.nodes@[td as int]@ == c.t@[td as int]);
    let ghost e0 = edit_views(edits@);
    edits.push(Edit { start: c.t.nodes[td].start, end: c.t.nodes[td].end, value: renamed });
    assert(edit_views(edits@) =~= e0.push(replace_node(c.t@[td as int], renamed@)));
    let (sr, tr) = device_routes_exec(c, source_tag.as_str(), target_tag.as_str())?;
    assert(c.s.nodes@[sr as int]@ == c.s@[sr as int]);
    assert(c.t.nodes@[tr as int]@ == c.t@[tr as int]);
    if !attribute_is(&c.s.nodes[sr], "type", "mix") {
        return Err(owned("unsupported A2DP route type"));
    }
    let sources = attr(&c.s.nodes[sr], "sources")?;
    let mut mapped: Vec<String> = Vec::new();
    assert(crate::text::views(mapped@) =~= Seq::<Seq<char>>::empty());
    sources_exec(c, sources.as_str(), edits, aux, &mut mapped)?;
    let joined = join_names(&mapped, ",");
    let route = concat3("<route type=\"mix\" sink=\"", escape(target_tag.as_str()).as_str(), "\" sources=\"");
    let mut route = route;
    push_str(&mut route, escape(joined.as_str()).as_str());
    push_str(&mut route, "\"/>");
    let mut bytes: Vec<u8> = Vec::new();
    crate::finalize::append_text(&mut bytes, route.as_str());
    assert(bytes@ =~= vstd::utf8::encode_utf8(route_text(target_tag@, joined@)));
    let ghost e1 = edit_views(edits@);
    edits.push(Edit { start: c.t.nodes[tr].start, end: c.t.nodes[tr].end, value: bytes });
    assert(edit_views(edits@) =~= e1.push(replace_node(c.t@[tr as int], bytes@)));
    Ok(())
}

fn devices_exec(c: &Trees) -> (r: Result<(Vec<Edit>, Vec<String>), String>)
    ensures
        match devices_fold(c.ctx(), 3) {
            Ok(acc) => r matches Ok((e, a)) && acc == (edit_views(e@), crate::text::views(a@)),
            Err(e) => r matches Err(m) && m@ == e,
        },
{
    let mut edits: Vec<Edit> = Vec::new();
    let mut aux: Vec<String> = Vec::new();
    assert(edit_views(edits@) =~= Seq::<EditView>::empty());
    assert(crate::text::views(aux@) =~= Seq::<Seq<char>>::empty());
    let types = A2DP;
    let mut i: usize = 0;
    while i < 3
        invariant
            i <= 3,
            types == A2DP,
            devices_fold(c.ctx(), i as int) == Ok::<(Seq<EditView>, Seq<Seq<char>>), Seq<char>>((edit_views(edits@), crate::text::views(aux@))),
        decreases 3 - i,
    {
        match device_step_exec(c, types[i], &mut edits, &mut aux) {
            Ok(()) => {},
            Err(e) => {
                proof {
                    lemma_devices_error_persists(c.ctx(), i + 1, 3);
                }
                return Err(e);
            },
        }
        i += 1;
    }
    Ok((edits, aux))
}

/// An A2DP sink device type.
pub open spec fn a2dp_type(t: Option<Seq<char>>) -> bool {
    t matches Some(x) && (x == A2DP@[0]@ || x == A2DP@[1]@ || x == A2DP@[2]@)
}

/// Node `j` holds an A2DP device port.
pub open spec fn has_a2dp_port(nodes: Seq<NodeView>, j: int) -> bool {
    exists|d: int|
        0 <= d < nodes.len() && ancestor_or_self(nodes, d, j) && has_tag(nodes[d], "devicePort"@)
            && a2dp_type(attribute(#[trigger] nodes[d], "type"@))
}

/// A module of the system, other than its Primary module, that holds an
/// A2DP device port.
pub open spec fn is_bt_module(nodes: Seq<NodeView>, sp: int) -> spec_fn(int) -> bool {
    |j: int|
        ancestor_or_self(nodes, j, 0) && has_tag(nodes[j], "module"@) && j != sp && has_a2dp_port(
            nodes,
            j,
        )
}

pub open spec fn bt_modules(nodes: Seq<NodeView>, sp: int) -> Seq<int> {
    select(0, nodes.len() as int, is_bt_module(nodes, sp))
}

/// Parts joined with a separator.
pub open spec fn join_bytes(parts: Seq<Seq<u8>>, sep: Seq<u8>) -> Seq<u8>
    decreases parts.len(),
{
    if parts.len() == 0 {
        Seq::empty()
    } else if parts.len() == 1 {
        parts[0]
    } else {
        join_bytes(parts.drop_last(), sep) + sep + parts.last()
    }
}

/// The system's Bluetooth modules, in order, in place of the template's
/// placeholder module, joined by newlines.
pub open spec fn bluetooth_edit(c: Ctx) -> Result<EditView, Seq<char>> {
    let list = bt_modules(c.s, c.sp);
    if list.len() == 0 {
        Err("system inline Bluetooth A2DP module not found"@)
    } else if exists|i: int| 0 <= i < list.len() && includes_below(c.s, #[trigger] list[i]) {
        Err(nested_include_error())
    } else {
        match module_spec(c.t, BT_PLACEHOLDER@) {
            Err(e) => Err(e),
            Ok(bt) => if exists|i: int| 0 <= i < list.len() && node_bytes(c.sb, c.s[#[trigger] list[i]]) is Err {
                Err(invalid_range_error())
            } else {
                let texts = Seq::new(list.len(), |i: int| node_bytes(c.sb, c.s[list[i]])->Ok_0);
                Ok(replace_node(c.t[bt], join_bytes(texts, seq![10u8])))
            },
        }
    }
}

/// The root element's `version`.
pub open spec fn root_version(s: Seq<NodeView>) -> Option<Seq<char>> {
    let roots = select(0, s.len() as int, |j: int| s[j].parent == Some(0nat) && s[j].element);
    if roots.len() == 0 {
        None
    } else {
        attribute(s[roots[0]], "version"@)
    }
}

pub open spec fn version_error() -> Seq<char> {
    "Direct PCM dynamic v1 supports HIDL policy XML version 7.0 only"@
}

/// The Primary modules and their lists, in the order they are looked up.
pub open spec fn primary_ctx(s: Seq<NodeView>, t: Seq<NodeView>, sb: Seq<u8>) -> Result<Ctx, Seq<char>> {
    match module_spec(s, "primary"@) {
        Err(e) => Err(e),
        Ok(sp) => match module_spec(t, "primary"@) {
            Err(e) => Err(e),
            Ok(tp) => if includes_below(s, sp) {
                Err(nested_include_error())
            } else {
                match child_spec(s, sp, "devicePorts"@) {
                    Err(e) => Err(e),
                    Ok(sports) => match child_spec(t, tp, "devicePorts"@) {
                        Err(e) => Err(e),
                        Ok(tports) => match child_spec(s, sp, "mixPorts"@) {
                            Err(e) => Err(e),
                            Ok(smixes) => match child_spec(t, tp, "mixPorts"@) {
                                Err(e) => Err(e),
                                Ok(tmixes) => Ok(Ctx { s, t, sb, sp, tp, sports, tports, smixes, tmixes }),
                            },
                        },
                    },
                }
            },
        },
    }
}

/// The template text `tb` with the A2DP sinks, routes, auxiliary outputs
/// and Bluetooth module of the system policy `s` (text `sb`) carried over,
/// where `t` is the template's parse.
pub open spec fn merge_spec(s: Seq<NodeView>, t: Seq<NodeView>, sb: Seq<u8>, tb: Seq<u8>) -> Result<Seq<u8>, Seq<char>> {
    if root_version(s) != Some("7.0"@) {
        Err(version_error())
    } else {
        match primary_ctx(s, t, sb) {
            Err(e) => Err(e),
            Ok(c) => match devices_fold(c, 3) {
                Err(e) => Err(e),
                Ok((edits, _aux)) => match bluetooth_edit(c) {
                    Err(e) => Err(e),
                    Ok(bt) => edit_spec(tb, edits.push(bt)),
                },
            },
        }
    }
}

/// The generated policy: the template with the system's A2DP sinks, routes
/// and Bluetooth module carried over, checked, and marked as generated.
pub open spec fn inherit_spec(sb: Seq<u8>, tb: Seq<u8>) -> Result<Seq<u8>, Seq<char>> {
    match xml_parse_result(sb) {
        Err(e) => Err(parse_error(e)),
        Ok(s) => match xml_parse_result(tb) {
            Err(e) => Err(parse_error(e)),
            Ok(t) => match merge_spec(s, t, sb, tb) {
                Err(e) => Err(e),
                Ok(out) => match validate_graph_spec(out) {
                    Err(e) => Err(e),
                    Ok(()) => Ok(out + vstd::utf8::encode_utf8("\n"@ + MARKER@ + "\n"@)),
                },
            },
        },
    }
}

fn a2dp_type_of(node: &XmlNode) -> (r: bool)
    ensures
        r == a2dp_type(attribute(node@, "type"@)),
{
    let types = A2DP;
    match attribute_of(node, "type") {
        Some(t) => eq_str(t, types[0]) || eq_str(t, types[1]) || eq_str(t, types[2]),
        None => false,
    }
}

fn holds_a2dp_port(doc: &XmlDocument, j: usize) -> (r: bool)
    ensures
        r == has_a2dp_port(doc@, j as int),
{
    let mut d: usize = 0;
    while d < doc.nodes.len()
        invariant
            d <= doc@.len(),
            doc.nodes@.len() == doc@.len(),
            forall|k: int|
                0 <= k < d ==> !(ancestor_or_self(doc@, k, j as int) && has_tag(doc@[k], "devicePort"@)
                    && a2dp_type(attribute(#[trigger] doc@[k], "type"@))),
        decreases doc@.len() - d,
    {
        assert(doc.nodes@[d as int]@ == doc@[d as int]);
        if is_descendant(doc, d, j) && node_has_tag(&doc.nodes[d], "devicePort") && a2dp_type_of(&doc.nodes[d]) {
            return true;
        }
        d += 1;
    }
    false
}

fn bluetooth_modules(doc: &XmlDocument, sp: usize) -> (r: Vec<usize>)
    ensures
        positions(r@) == bt_modules(doc@, sp as int),
        forall|i: int| 0 <= i < r@.len() ==> #[trigger] r@[i] < doc@.len(),
{
    let ghost p = is_bt_module(doc@, sp as int);
    let mut found: Vec<usize> = Vec::new();
    let mut j: usize = 0;
    while j < doc.nodes.len()
        invariant
            j <= doc@.len(),
            doc.nodes@.len() == doc@.len(),
            p == is_bt_module(doc@, sp as int),
            positions(found@) == select(0, j as int, p),
            forall|i: int| 0 <= i < found@.len() ==> #[trigger] found@[i] < j,
        decreases doc@.len() - j,
    {
        assert(doc.nodes@[j as int]@ == doc@[j as int]);
        let ghost before = found@;
        if is_descendant(doc, j, 0) && node_has_tag(&doc.nodes[j], "module") && j != sp && holds_a2dp_port(doc, j) {
            found.push(j);
            assert(positions(found@) =~= positions(before).push(j as int));
        }
        j += 1;
    }
    found
}

fn bluetooth_edit_exec(c: &Trees) -> (r: Result<Edit, String>)
    ensures
        match bluetooth_edit(c.ctx()) {
            Ok(e) => r matches Ok(x) && x@ == e,
            Err(e) => r matches Err(m) && m@ == e,
        },
{
    let list = bluetooth_modules(c.s, c.sp);
    let ghost pl = positions(list@);
    if list.len() == 0 {
        return Err(owned("system inline Bluetooth A2DP module not found"));
    }
    let mut i: usize = 0;
    while i < list.len()
        invariant
            i <= list@.len(),
            pl == positions(list@),
            pl == bt_modules(c.s@, c.sp as int),
            list@.len() > 0,
            forall|k: int| 0 <= k < list@.len() ==> #[trigger] list@[k] < c.s@.len(),
            forall|k: int| 0 <= k < i ==> !includes_below(c.s@, #[trigger] pl[k]),
        decreases list@.len() - i,
    {
        match no_includes(c.s, list[i]) {
            Ok(()) => {},
            Err(e) => {
                assert(includes_below(c.s@, pl[i as int]));
                return Err(e);
            },
        }
        i += 1;
    }
    assert(!(exists|k: int| 0 <= k < pl.len() && includes_below(c.s@, #[trigger] pl[k])));
    let bt = module(c.t, BT_PLACEHOLDER)?;
    let mut joined: Vec<u8> = Vec::new();
    let ghost texts = Seq::new(pl.len(), |k: int| node_bytes(c.sb@, c.s@[pl[k]])->Ok_0);
    let mut k: usize = 0;
    while k < list.len()
        invariant
            k <= list@.len(),
            pl == positions(list@),
            pl == bt_modules(c.s@, c.sp as int),
            !(exists|q: int| 0 <= q < pl.len() && includes_below(c.s@, #[trigger] pl[q])),
            module_spec(c.t@, BT_PLACEHOLDER@) == Ok::<int, Seq<char>>(bt as int),
            pl.len() > 0,
            texts == Seq::new(pl.len(), |q: int| node_bytes(c.sb@, c.s@[pl[q]])->Ok_0),
            forall|q: int| 0 <= q < list@.len() ==> #[trigger] list@[q] < c.s@.len(),
            c.s.nodes@.len() == c.s@.len(),
            forall|q: int| 0 <= q < k ==> node_bytes(c.sb@, c.s@[#[trigger] pl[q]]) is Ok,
            k > 0 ==> joined@ == join_bytes(texts.take(k as int), seq![10u8]),
            k == 0 ==> joined@.len() == 0,
        decreases list@.len() - k,
    {
        let j = list[k];
        assert(pl[k as int] == j as int);
        assert(c.s.nodes@[j as int]@ == c.s@[j as int]);
        let text = match copy_node_bytes(c.sb, &c.s.nodes[j]) {
            Ok(t) => t,
            Err(e) => {
                assert(node_bytes(c.sb@, c.s@[pl[k as int]]) is Err);
                return Err(e);
            },
        };
        let ghost before = joined@;
        if k > 0 {
            joined.push(10u8);
        }
        let all = text.as_slice();
        extend_range(&mut joined, all, 0, text.len());
        proof {
            assert(texts[k as int] == text@);
            assert(texts.take(k + 1).drop_last() =~= texts.take(k as int));
            assert(all@.subrange(0, text@.len() as int) =~= text@);
            if k > 0 {
                assert(joined@ =~= join_bytes(texts.take(k as int), seq![10u8]) + seq![10u8] + text@);
            } else {
                assert(texts.take(1) =~= seq![text@]);
                assert(joined@ =~= text@);
            }
        }
        k += 1;
    }
    assert(texts.take(pl.len() as int) =~= texts);
    assert(c.t.nodes@[bt as int]@ == c.t@[bt as int]);
    Ok(Edit { start: c.t.nodes[bt].start, end: c.t.nodes[bt].end, value: joined })
}

fn root_version_of(doc: &XmlDocument) -> (r: Option<&str>)
    ensures
        match root_version(doc@) {
            Some(v) => r matches Some(x) && x@ == v,
            None => r is None,
        },
{
    let ghost p = |j: int| doc@[j].parent == Some(0nat) && doc@[j].element;
    let mut j: usize = 0;
    while j < doc.nodes.len()
        invariant
            j <= doc@.len(),
            doc.nodes@.len() == doc@.len(),
            p == (|j: int| doc@[j].parent == Some(0nat) && doc@[j].element),
            select(0, j as int, p).len() == 0,
        decreases doc@.len() - j,
    {
        assert(doc.nodes@[j as int]@ == doc@[j as int]);
        let is_root = match doc.nodes[j].parent {
            Some(q) => q == 0 && doc.nodes[j].element,
            None => false,
        };
        if is_root {
            proof {
                lemma_select_first(0, j as int, doc@.len() as int, p);
            }
            return attribute_of(&doc.nodes[j], "version");
        }
        j += 1;
    }
    None
}

/// When nothing before `j` satisfies `p` and `j` does, `j` is the first
/// position selected.
proof fn lemma_select_first(lo: int, j: int, hi: int, p: spec_fn(int) -> bool)
    requires
        lo <= j < hi,
        select(lo, j, p).len() == 0,
        p(j),
    ensures
        select(lo, hi, p).len() > 0,
        select(lo, hi, p)[0] == j,
    decreases hi - j,
{
    if hi - 1 > j {
        lemma_select_first(lo, j, hi - 1, p);
    }
}

fn primary_trees<'a>(s: &'a XmlDocument, t: &'a XmlDocument, sb: &'a [u8]) -> (r: Result<Trees<'a>, String>)
    ensures
        match primary_ctx(s@, t@, sb@) {
            Ok(c) => r matches Ok(x) && x.ctx() == c && x.s == s && x.t == t && x.sb == sb,
            Err(e) => r matches Err(m) && m@ == e,
        },
{
    let sp = module(s, "primary")?;
    let tp = module(t, "primary")?;
    no_includes(s, sp)?;
    let sports = child(s, sp, "devicePorts")?;
    let tports = child(t, tp, "devicePorts")?;
    let smixes = child(s, sp, "mixPorts")?;
    let tmixes = child(t, tp, "mixPorts")?;
    Ok(Trees { s, t, sb, sp, tp, sports, tports, smixes, tmixes })
}

/// Carries the system's Bluetooth A2DP sinks, routes, auxiliary outputs and
/// Bluetooth module over into the rendered template: `source` is the parse
/// of the system policy `stock`, `target` that of `template`.
pub fn merge_documents(
    stock: &[u8],
    template: &[u8],
    source: &XmlDocument,
    target: &XmlDocument,
) -> (r: Result<Vec<u8>, String>)
    ensures
        match merge_spec(source@, target@, stock@, template@) {
            Ok(t) => r matches Ok(x) && x@ == t,
            Err(e) => r matches Err(m) && m@ == e,
        },
{
    match root_version_of(source) {
        Some(v) if eq_str(v, "7.0") => {},
        _ => {
            return Err(owned("Direct PCM dynamic v1 supports HIDL policy XML version 7.0 only"));
        },
    }
    let c = primary_trees(source, target, stock)?;
    let (mut edits, _aux) = devices_exec(&c)?;
    let bt = bluetooth_edit_exec(&c)?;
    let ghost e0 = edit_views(edits@);
    edits.push(bt);
    assert(edit_views(edits@) =~= e0.push(bt@));
    edit(template, edits)
}

/// Builds the dynamic policy: the rendered template with the system's
/// Bluetooth A2DP sinks, routes and Bluetooth module carried over, the
/// result checked as a module graph and marked as generated.
pub fn inherit(stock: &[u8], template: &[u8]) -> (r: Result<Vec<u8>, String>)
    ensures
        match inherit_spec(stock@, template@) {
            Ok(t) => r matches Ok(x) && x@ == t,
            Err(e) => r matches Err(m) && m@ == e,
        },
{
    let source = parse_policy(stock)?;
    let target = parse_policy(template)?;
    let mut output = merge_documents(stock, template, &source, &target)?;
    validate_graph(output.as_slice())?;
    let mut tail = owned("\n");
    push_str(&mut tail, MARKER);
    push_str(&mut tail, "\n");
    crate::finalize::append_text(&mut output, tail.as_str());
    Ok(output)
}

// ---------------------------------------------------------------------------
// The template
// ---------------------------------------------------------------------------

/// The AudioFlinger format of a bit depth.
pub open spec fn pcm_format(depth: Seq<char>) -> Option<Seq<char>> {
    if depth == "16"@ {
        Some("AUDIO_FORMAT_PCM_16_BIT"@)
    } else if depth == "24"@ {
        Some("AUDIO_FORMAT_PCM_24_BIT_PACKED"@)
    } else if depth == "32"@ {
        Some("AUDIO_FORMAT_PCM_32_BIT"@)
    } else if depth == "float"@ {
        Some("AUDIO_FORMAT_PCM_FLOAT"@)
    } else {
        None
    }
}

/// The template with its placeholders filled in, one after the other, each
/// value escaped; refused when a placeholder is left.
pub open spec fn render_spec(
    template: Seq<char>,
    s: crate::domain::SettingsView,
    usb: Seq<char>,
    volume: Seq<char>,
    default_volume: Seq<char>,
) -> Result<Seq<char>, Seq<char>> {
    match pcm_format(s.bit_depth) {
        None => Err("unsupported PCM format"@),
        Some(format) => {
            let o1 = crate::text::replace_all(template, "%DRC_ENABLED%"@, xml_escape(if s.drc { "true"@ } else { "false"@ }));
            let o2 = crate::text::replace_all(o1, "%USB_MODULE%"@, xml_escape(usb));
            let o3 = crate::text::replace_all(o2, "%BT_MODULE%"@, xml_escape(BT_PLACEHOLDER@));
            let o4 = crate::text::replace_all(o3, "%SAMPLING_RATE%"@, xml_escape(decimal(s.sample_rate as nat)));
            let o5 = crate::text::replace_all(o4, "%AUDIO_FORMAT%"@, xml_escape(format));
            let o6 = crate::text::replace_all(o5, "%VOLUME_FILE%"@, xml_escape(volume));
            let o7 = crate::text::replace_all(o6, "%DEFAULT_VOLUME_FILE%"@, xml_escape(default_volume));
            if crate::text::lacks(o7, '%') {
                Ok(o7)
            } else {
                Err("unresolved dynamic template placeholder"@)
            }
        },
    }
}

/// The Direct PCM format follows the bit depth: every supported depth has
/// one, distinct depths have distinct formats, a numeric depth `N` gives a
/// format that starts `AUDIO_FORMAT_PCM_N_BIT`, and `float` the float
/// format; an unsupported depth has none.
pub proof fn lemma_pcm_format_by_depth()
    ensures
        forall|d: Seq<char>| #[trigger] pcm_format(d) is Some <==> crate::catalog::is_bit_depth(d),
        forall|i: int, j: int|
            0 <= i < 4 && 0 <= j < 4 && i != j ==> pcm_format(
                #[trigger] crate::catalog::BIT_DEPTHS[i].0@,
            ) != pcm_format(#[trigger] crate::catalog::BIT_DEPTHS[j].0@),
        forall|d: Seq<char>|
            (d == "16"@ || d == "24"@ || d == "32"@) ==> exists|rest: Seq<char>|
                #[trigger] pcm_format(d) == Some("AUDIO_FORMAT_PCM_"@ + d + "_BIT"@ + rest),
        pcm_format("float"@) == Some("AUDIO_FORMAT_PCM_FLOAT"@),
{
    reveal_strlit("16");
    reveal_strlit("24");
    reveal_strlit("32");
    reveal_strlit("float");
    reveal_strlit("AUDIO_FORMAT_PCM_");
    reveal_strlit("_BIT");
    reveal_strlit("_PACKED");
    reveal_strlit("AUDIO_FORMAT_PCM_16_BIT");
    reveal_strlit("AUDIO_FORMAT_PCM_24_BIT_PACKED");
    reveal_strlit("AUDIO_FORMAT_PCM_32_BIT");
    reveal_strlit("AUDIO_FORMAT_PCM_FLOAT");
    assert("16"@[0] == '1' && "24"@[0] == '2' && "32"@[0] == '3' && "float"@[0] == 'f');
    assert("AUDIO_FORMAT_PCM_16_BIT"@ =~= "AUDIO_FORMAT_PCM_"@ + "16"@ + "_BIT"@ + Seq::<char>::empty());
    assert("AUDIO_FORMAT_PCM_24_BIT_PACKED"@ =~= "AUDIO_FORMAT_PCM_"@ + "24"@ + "_BIT"@ + "_PACKED"@);
    assert("AUDIO_FORMAT_PCM_32_BIT"@ =~= "AUDIO_FORMAT_PCM_"@ + "32"@ + "_BIT"@ + Seq::<char>::empty());
    assert("AUDIO_FORMAT_PCM_16_BIT"@[17] == '1' && "AUDIO_FORMAT_PCM_24_BIT_PACKED"@[17] == '2'
        && "AUDIO_FORMAT_PCM_32_BIT"@[17] == '3' && "AUDIO_FORMAT_PCM_FLOAT"@[17] == 'F');
    assert forall|d: Seq<char>| #[trigger] pcm_format(d) is Some <==> crate::catalog::is_bit_depth(d) by {
        if crate::catalog::is_bit_depth(d) {
            let i = choose|i: int| 0 <= i < 4 && #[trigger] crate::catalog::BIT_DEPTHS[i].0@ == d;
        }
        if d == "16"@ {
            assert(crate::catalog::BIT_DEPTHS[0].0@ == d);
        } else if d == "24"@ {
            assert(crate::catalog::BIT_DEPTHS[1].0@ == d);
        } else if d == "32"@ {
            assert(crate::catalog::BIT_DEPTHS[2].0@ == d);
        } else if d == "float"@ {
            assert(crate::catalog::BIT_DEPTHS[3].0@ == d);
        }
    }
}

fn fill(output: String, key: &str, value: &str) -> (r: String)
    requires
        key@.len() > 0,
    ensures
        r@ == crate::text::replace_all(output@, key@, xml_escape(value@)),
{
    let escaped = escape(value);
    crate::text::replace_str(output.as_str(), key, escaped.as_str())
}

/// Fills the dynamic template's placeholders.
pub fn render(template: &str, settings: &Settings, usb: &str, volume: &str, default_volume: &str) -> (r: Result<String, String>)
    ensures
        match render_spec(template@, settings@, usb@, volume@, default_volume@) {
            Ok(t) => r matches Ok(x) && x@ == t,
            Err(e) => r matches Err(m) && m@ == e,
        },
{
    let depth = settings.bit_depth.as_str();
    let format = if eq_str(depth, "16") {
        "AUDIO_FORMAT_PCM_16_BIT"
    } else if eq_str(depth, "24") {
        "AUDIO_FORMAT_PCM_24_BIT_PACKED"
    } else if eq_str(depth, "32") {
        "AUDIO_FORMAT_PCM_32_BIT"
    } else if eq_str(depth, "float") {
        "AUDIO_FORMAT_PCM_FLOAT"
    } else {
        return Err(owned("unsupported PCM format"));
    };
    proof {
        reveal_strlit("%DRC_ENABLED%");
        reveal_strlit("%USB_MODULE%");
        reveal_strlit("%BT_MODULE%");
        reveal_strlit("%SAMPLING_RATE%");
        reveal_strlit("%AUDIO_FORMAT%");
        reveal_strlit("%VOLUME_FILE%");
        reveal_strlit("%DEFAULT_VOLUME_FILE%");
    }
    let mut output = owned(template);
    output = fill(output, "%DRC_ENABLED%", if settings.drc { "true" } else { "false" });
    output = fill(output, "%USB_MODULE%", usb);
    output = fill(output, "%BT_MODULE%", BT_PLACEHOLDER);
    let rate = crate::text::u32_to_string(settings.sample_rate);
    output = fill(output, "%SAMPLING_RATE%", rate.as_str());
    output = fill(output, "%AUDIO_FORMAT%", format);
    output = fill(output, "%VOLUME_FILE%", volume);
    output = fill(output, "%DEFAULT_VOLUME_FILE%", default_volume);
    if crate::text::has_char(output.as_str(), '%') {
        return Err(owned("unresolved dynamic template placeholder"));
    }
    Ok(output)
}

// ---------------------------------------------------------------------------
// Where the policy comes from
// ---------------------------------------------------------------------------

/// The text after `Config source: ` on the first trimmed line that has it.
pub open spec fn source_from(ls: Seq<Seq<char>>, i: int) -> Option<Seq<char>>
    decreases ls.len() - i,
{
    if i < 0 || i >= ls.len() {
        None
    } else {
        match crate::text::strip_prefix(crate::text::trim(ls[i]), "Config source: "@) {
            Some(rest) => Some(rest),
            None => source_from(ls, i + 1),
        }
    }
}

/// The policy file that `dumpsys media.audio_policy` names.
pub fn policy_source(dump: &str) -> (r: Result<String, String>)
    ensures
        match source_from(crate::text::lines(dump@), 0) {
            Some(p) => r matches Ok(x) && x@ == p,
            None => r matches Err(m) && m@ == "audio policy source unavailable"@,
        },
{
    let ls = crate::text::split_lines(dump);
    let mut i: usize = 0;
    while i < ls.len()
        invariant
            i <= ls@.len(),
            crate::text::views(ls@) == crate::text::lines(dump@),
            source_from(crate::text::lines(dump@), 0) == source_from(crate::text::lines(dump@), i as int),
        decreases ls@.len() - i,
    {
        assert(ls@[i as int]@ == crate::text::lines(dump@)[i as int]);
        let line = crate::text::trim_str(ls[i].as_str());
        if let Some(rest) = crate::text::strip_prefix_str(line.as_str(), "Config source: ") {
            return Ok(rest);
        }
        i += 1;
    }
    Err(owned("audio policy source unavailable"))
}

/// The dynamic policy replaces only a vendor or ODM policy XML.
pub fn vendor_policy(path: &str) -> (r: Result<(), String>)
    ensures
        r is Ok <==> (crate::text::starts_with(path@, "/vendor/"@) || crate::text::starts_with(path@, "/odm/"@)),
        r matches Err(m) ==> m@ == "dynamic v1 requires a vendor/odm HIDL XML policy"@,
{
    if crate::text::strip_prefix_str(path, "/vendor/").is_some() || crate::text::strip_prefix_str(path, "/odm/").is_some() {
        Ok(())
    } else {
        Err(owned("dynamic v1 requires a vendor/odm HIDL XML policy"))
    }
}

/// The fourth field of each mount whose mount point is `target`
/// (`/proc/self/mountinfo`).
pub open spec fn roots_from(ls: Seq<Seq<char>>, target: Seq<char>, n: int) -> Seq<Seq<char>>
    decreases n,
{
    if n <= 0 {
        Seq::empty()
    } else {
        let before = roots_from(ls, target, n - 1);
        let fields = crate::text::words(ls[n - 1]);
        if fields.len() > 4 && fields[4] == target {
            before.push(fields[3])
        } else {
            before
        }
    }
}

/// The roots mounted over `target`, from the mount table.
pub fn mounted_roots(mountinfo: &str, target: &str) -> (r: Vec<String>)
    ensures
        crate::text::views(r@) == roots_from(crate::text::lines(mountinfo@), target@, crate::text::lines(mountinfo@).len() as int),
{
    let ls = crate::text::split_lines(mountinfo);
    let ghost lv = crate::text::lines(mountinfo@);
    let mut out: Vec<String> = Vec::new();
    assert(crate::text::views(out@) =~= Seq::<Seq<char>>::empty());
    let mut i: usize = 0;
    while i < ls.len()
        invariant
            i <= ls@.len(),
            crate::text::views(ls@) == lv,
            lv == crate::text::lines(mountinfo@),
            crate::text::views(out@) == roots_from(lv, target@, i as int),
        decreases ls@.len() - i,
    {
        assert(ls@[i as int]@ == lv[i as int]);
        let fields = crate::text::words_of(ls[i].as_str());
        if fields.len() > 4 && eq_str(fields[4].as_str(), target) {
            assert(fields@[4]@ == crate::text::words(lv[i as int])[4]);
            assert(fields@[3]@ == crate::text::words(lv[i as int])[3]);
            let ghost before = crate::text::views(out@);
            out.push(owned(fields[3].as_str()));
            assert(crate::text::views(out@) =~= before.push(fields@[3]@));
        } else {
            assert(fields@.len() > 4 ==> fields@[4]@ == crate::text::words(lv[i as int])[4]);
        }
        i += 1;
    }
    out
}

/// The `href` of each XInclude in the document that ends with `suffix`.
pub open spec fn includes_with(nodes: Seq<NodeView>, suffix: Seq<char>, n: int) -> Seq<Seq<char>>
    decreases n,
{
    if n <= 0 {
        Seq::empty()
    } else {
        let before = includes_with(nodes, suffix, n - 1);
        let node = nodes[n - 1];
        if ancestor_or_self(nodes, n - 1, 0) && is_xinclude(node) && (attribute(node, "href"@) matches Some(h)
            && crate::text::ends_with(h, suffix)) {
            before.push(attribute(node, "href"@)->0)
        } else {
            before
        }
    }
}

/// The one include of the system policy whose path ends with `suffix`.
pub open spec fn include_href_spec(stock: Seq<u8>, suffix: Seq<char>) -> Result<Seq<char>, Seq<char>> {
    match xml_parse_result(stock) {
        Err(e) => Err(parse_error(e)),
        Ok(nodes) => {
            let found = includes_with(nodes, suffix, nodes.len() as int);
            if found.len() == 1 {
                Ok(found[0])
            } else {
                Err("expected one system "@ + suffix + " include"@)
            }
        },
    }
}

/// The path of the one include of the system policy that ends with
/// `suffix`, relative to the policy's directory.
pub fn include_href(stock: &[u8], suffix: &str) -> (r: Result<String, String>)
    ensures
        match include_href_spec(stock@, suffix@) {
            Ok(h) => r matches Ok(x) && x@ == h,
            Err(e) => r matches Err(m) && m@ == e,
        },
{
    let doc = parse_policy(stock)?;
    let mut found: Vec<String> = Vec::new();
    assert(crate::text::views(found@) =~= Seq::<Seq<char>>::empty());
    let mut j: usize = 0;
    while j < doc.nodes.len()
        invariant
            j <= doc@.len(),
            doc.nodes@.len() == doc@.len(),
            crate::text::views(found@) == includes_with(doc@, suffix@, j as int),
        decreases doc@.len() - j,
    {
        assert(doc.nodes@[j as int]@ == doc@[j as int]);
        let node = &doc.nodes[j];
        if is_descendant(&doc, j, 0) && node_is_xinclude(node) {
            if let Some(h) = attribute_of(node, "href") {
                if crate::text::strip_suffix_str(h, suffix).is_some() {
                    let ghost before = crate::text::views(found@);
                    found.push(owned(h));
                    assert(crate::text::views(found@) =~= before.push(h@));
                }
            }
        }
        j += 1;
    }
    if found.len() == 1 {
        assert(found@[0]@ == crate::text::views(found@)[0]);
        Ok(owned(found[0].as_str()))
    } else {
        Err(concat3("expected one system ", suffix, " include"))
    }
}

/// Volume tables must come from a system partition.
pub fn system_partition(path: &str) -> (r: Result<(), String>)
    ensures
        r is Ok <==> (crate::text::starts_with(path@, "/vendor/"@) || crate::text::starts_with(path@, "/odm/"@)
            || crate::text::starts_with(path@, "/system/"@) || crate::text::starts_with(path@, "/system_ext/"@)
            || crate::text::starts_with(path@, "/product/"@)),
        r matches Err(m) ==> m@ == "volume include outside system partitions"@,
{
    if crate::text::strip_prefix_str(path, "/vendor/").is_some() || crate::text::strip_prefix_str(path, "/odm/").is_some()
        || crate::text::strip_prefix_str(path, "/system/").is_some() || crate::text::strip_prefix_str(path, "/system_ext/").is_some()
        || crate::text::strip_prefix_str(path, "/product/").is_some() {
        Ok(())
    } else {
        Err(owned("volume include outside system partitions"))
    }
}

// ---------------------------------------------------------------------------
// Digests
// ---------------------------------------------------------------------------

/// The SHA-256 digest of a byte string.
pub uninterp spec fn sha256(data: Seq<u8>) -> Seq<u8>;

/// `sha2::Sha256::digest`: the 32-byte SHA-256 digest of `data`, named
/// `sha256`.
#[verifier::external_body]
fn sha256_digest(data: &[u8]) -> (r: Vec<u8>)
    ensures
        r@ == sha256(data@),
        r@.len() == 32,
{
    <sha2::Sha256 as sha2::Digest>::digest(data).to_vec()
}

/// Bytes written as lower-case hexadecimal, two digits each.
pub open spec fn hex_bytes(b: Seq<u8>) -> Seq<char>
    decreases b.len(),
{
    if b.len() == 0 {
        Seq::empty()
    } else {
        hex_bytes(b.drop_last()) + seq![
            crate::protocol::hex_digit((b.last() / 16) as nat),
            crate::protocol::hex_digit((b.last() % 16) as nat),
        ]
    }
}

fn hex_char_of(d: u8) -> (c: char)
    requires
        d < 16,
    ensures
        c == crate::protocol::hex_digit(d as nat),
{
    if d < 10 {
        (d + 48) as char
    } else {
        (d + 87) as char
    }
}

/// The SHA-256 digest of `value` in lower-case hexadecimal.
pub fn digest(value: &[u8]) -> (r: String)
    ensures
        r@ == hex_bytes(sha256(value@)),
{
    let bytes = sha256_digest(value);
    let mut out = String::new();
    let mut i: usize = 0;
    while i < bytes.len()
        invariant
            i <= bytes@.len(),
            out@ == hex_bytes(bytes@.take(i as int)),
        decreases bytes@.len() - i,
    {
        assert(bytes@.take(i + 1).drop_last() =~= bytes@.take(i as int));
        let b = bytes[i];
        crate::text::push_char(&mut out, hex_char_of(b / 16));
        crate::text::push_char(&mut out, hex_char_of(b % 16));
        assert(out@ =~= hex_bytes(bytes@.take(i + 1)));
        i += 1;
    }
    assert(bytes@.take(bytes@.len() as int) =~= bytes@);
    out
}

// ---------------------------------------------------------------------------
// The snapshot of the system policy
// ---------------------------------------------------------------------------

/// Whether the policy file is the system's own or the generated overlay.
#[derive(Clone, Copy, PartialEq, Eq, Structural, Debug)]
pub enum BaselinePlan {
    /// Nothing is mounted over it: it is the system's policy, to be kept.
    Capture,
    /// The generated policy is mounted over it: the kept copy is used.
    Reuse,
}

/// Nothing mounted captures the policy; the generated overlay alone reuses
/// the snapshot; any other overlay is refused.
pub fn baseline_plan(roots: &Vec<String>) -> (r: Result<BaselinePlan, String>)
    ensures
        crate::text::views(roots@).len() == 0 ==> r == Ok::<BaselinePlan, String>(BaselinePlan::Capture),
        roots@.len() == 1 && crate::text::ends_with(roots@[0]@, "/audio_conf_generated.xml"@) ==> r
            == Ok::<BaselinePlan, String>(BaselinePlan::Reuse),
        roots@.len() > 0 && !(roots@.len() == 1 && crate::text::ends_with(roots@[0]@, "/audio_conf_generated.xml"@))
            ==> (r matches Err(m) && m@ == "audio policy has an unrecognized overlay; reset it before using Direct PCM dynamic"@),
{
    if roots.len() == 0 {
        return Ok(BaselinePlan::Capture);
    }
    if roots.len() != 1 || crate::text::strip_suffix_str(roots[0].as_str(), "/audio_conf_generated.xml").is_none() {
        return Err(owned("audio policy has an unrecognized overlay; reset it before using Direct PCM dynamic"));
    }
    Ok(BaselinePlan::Reuse)
}

/// The name of the snapshot of a policy for one ROM and boot.
pub fn snapshot_key(target: &str, identity: &str) -> (r: String)
    ensures
        r@ == hex_bytes(sha256(vstd::utf8::encode_utf8(target@ + "\n"@ + identity@))),
{
    let text = concat3(target, "\n", identity);
    digest(text.as_str().as_bytes())
}

/// A policy may be kept as the system's only when it is not a generated
/// one and it parses.
pub fn check_capture(original: &str) -> (r: Result<(), String>)
    ensures
        crate::text::contains(original@, MARKER@) ==> (r matches Err(m) && m@ == "dynamic policy is not a valid system baseline; reset first"@),
        !crate::text::contains(original@, MARKER@) ==> match xml_parse_result(original.spec_bytes()) {
            Ok(_) => r is Ok,
            Err(e) => r matches Err(m) && m@ == parse_error(e),
        },
{
    if crate::text::contains_str(original, MARKER) {
        return Err(owned("dynamic policy is not a valid system baseline; reset first"));
    }
    parse_policy(original.as_bytes())?;
    Ok(())
}

/// A kept snapshot must match its recorded checksum.
pub fn check_snapshot(original: &str, recorded: &str) -> (r: Result<(), String>)
    ensures
        r is Ok <==> recorded@ == hex_bytes(sha256(original.spec_bytes())),
        r matches Err(m) ==> m@ == "original policy snapshot checksum mismatch; reset first"@,
{
    let sum = digest(original.as_bytes());
    if eq_str(recorded, sum.as_str()) {
        Ok(())
    } else {
        Err(owned("original policy snapshot checksum mismatch; reset first"))
    }
}

/// Why a policy cannot be reused without a snapshot.
pub const MISSING_SNAPSHOT: &'static str = "no original policy snapshot for this boot/ROM; reset the existing policy before first dynamic apply";

// ---------------------------------------------------------------------------
// The apply entry point's checks and report
// ---------------------------------------------------------------------------

/// The internal entry point applies only the dynamic policy.
pub fn dynamic_policy(settings: &Settings) -> (r: Result<(), String>)
    ensures
        r is Ok <==> settings@.policy == "offload-direct-dynamic"@,
        r matches Err(m) ==> m@ == "internal dynamic entry requires dynamic policy"@,
{
    if eq_str(settings.policy.as_str(), "offload-direct-dynamic") {
        Ok(())
    } else {
        Err(owned("internal dynamic entry requires dynamic policy"))
    }
}

/// The controller must share audioserver's mount namespace.
pub fn dynamic_namespace(ns: &NamespaceInfo) -> (r: Result<(), String>)
    ensures
        r is Ok <==> (opt_view(ns.self_ns) is Some && opt_view(ns.self_ns) == opt_view(ns.audio_ns)),
        r matches Err(m) ==> m@ == "dynamic mount namespace mismatch"@,
{
    let same = match (&ns.self_ns, &ns.audio_ns) {
        (Some(a), Some(b)) => eq_str(a.as_str(), b.as_str()),
        _ => false,
    };
    if same {
        Ok(())
    } else {
        Err(owned("dynamic mount namespace mismatch"))
    }
}

/// The ROM and boot a snapshot belongs to: the build fingerprint and the
/// boot id, both required.
pub fn rom_identity(fingerprint: &str, boot: &str) -> (r: Result<String, String>)
    ensures
        (fingerprint@.len() == 0 || crate::text::trim(boot@).len() == 0) ==> (r matches Err(m)
            && m@ == "cannot identify ROM/boot for policy snapshot"@),
        !(fingerprint@.len() == 0 || crate::text::trim(boot@).len() == 0) ==> (r matches Ok(x) && x@
            == fingerprint@ + "\n"@ + boot@),
{
    let trimmed = crate::text::trim_str(boot);
    if fingerprint.is_empty() || trimmed.as_str().is_empty() {
        return Err(owned("cannot identify ROM/boot for policy snapshot"));
    }
    Ok(concat3(fingerprint, "\n", boot))
}

/// The USB HAL module of the policy: `usbv2` when forced, or when only the
/// `usbv2` HAL is installed.
pub fn usb_module(force_usbv2: bool, has_usb: bool, has_usbv2: bool) -> (r: &'static str)
    ensures
        r@ == if force_usbv2 || (!has_usb && has_usbv2) { "usbv2"@ } else { "usb"@ },
{
    if force_usbv2 || (!has_usb && has_usbv2) {
        "usbv2"
    } else {
        "usb"
    }
}

/// Files larger than 2 MiB are not read as policies or state.
pub fn within_read_limit(data: &str, path: &str) -> (r: Result<(), String>)
    ensures
        r is Ok <==> data.len() <= 2 * 1024 * 1024,
        r matches Err(m) ==> m@ == "XML/state file too large: "@ + path@,
{
    if data.len() > 2 * 1024 * 1024 {
        Err(concat2("XML/state file too large: ", path))
    } else {
        Ok(())
    }
}

/// Whether the generated policy in place is the dynamic one.
pub fn generated_is_dynamic(text: &str) -> (r: bool)
    ensures
        r == crate::text::contains(text@, MARKER@),
{
    crate::text::contains_str(text, MARKER)
}

/// What the entry point prints after the dynamic policy was installed.
pub open spec fn report_spec(target: Seq<char>, stock: Seq<u8>, candidate: Seq<char>, generated: Seq<u8>) -> Seq<char> {
    "dynamic_direct=1\ndynamic_source="@ + target + "\ndynamic_source_sha256="@ + hex_bytes(sha256(stock))
        + "\ndynamic_a2dp_ports=3\ndynamic_routes=3\ndynamic_candidate="@ + candidate
        + "\ndynamic_xml_sha256="@ + hex_bytes(sha256(generated)) + "\n"@
}

/// The report of an installed dynamic policy.
pub fn dynamic_report(target: &str, stock: &[u8], candidate: &str, generated: &[u8]) -> (r: String)
    ensures
        r@ == report_spec(target@, stock@, candidate@, generated@),
{
    let mut out = concat2("dynamic_direct=1\ndynamic_source=", target);
    push_str(&mut out, "\ndynamic_source_sha256=");
    push_str(&mut out, digest(stock).as_str());
    push_str(&mut out, "\ndynamic_a2dp_ports=3\ndynamic_routes=3\ndynamic_candidate=");
    push_str(&mut out, candidate);
    push_str(&mut out, "\ndynamic_xml_sha256=");
    push_str(&mut out, digest(generated).as_str());
    push_str(&mut out, "\n");
    out
}

// ---------------------------------------------------------------------------
// What the generation leaves alone
// ---------------------------------------------------------------------------

proof fn lemma_upper_bounds(sorted: Seq<EditView>, key: nat, i: int)
    requires
        0 <= i <= sorted.len(),
    ensures
        i <= upper(sorted, key, i) <= sorted.len(),
    decreases sorted.len() - i,
{
    if i < sorted.len() && sorted[i].start <= key {
        lemma_upper_bounds(sorted, key, i + 1);
    }
}

/// Sorting the edits neither adds nor drops one.
proof fn lemma_sort_members(s: Seq<EditView>)
    ensures
        sort_by_start(s).len() == s.len(),
        forall|i: int| 0 <= i < sort_by_start(s).len() ==> s.contains(#[trigger] sort_by_start(s)[i]),
    decreases s.len(),
{
    if s.len() > 0 {
        let rest = s.drop_last();
        lemma_sort_members(rest);
        let sorted = sort_by_start(rest);
        lemma_upper_bounds(sorted, s.last().start, 0);
        let p = upper(sorted, s.last().start, 0);
        let r = sorted.insert(p, s.last());
        assert(sort_by_start(s) == r);
        assert forall|i: int| 0 <= i < r.len() implies s.contains(#[trigger] r[i]) by {
            if i == p {
                assert(r[i] == s[s.len() - 1]);
            } else {
                let q = if i < p { i } else { i - 1 };
                assert(r[i] == sorted[q]);
                assert(rest.contains(sorted[q]));
                let w = choose|w: int| 0 <= w < rest.len() && rest[w] == sorted[q];
                assert(s[w] == rest[w]);
            }
        }
    }
}

/// Bytes `a..b` of the text, which no edit from `k` on touches, come out of
/// the splice unchanged.
proof fn lemma_splice_keeps(text: Seq<u8>, s: Seq<EditView>, pos: int, k: int, a: int, b: int)
    requires
        0 <= k,
        0 <= pos <= a <= b <= text.len(),
        !overlapping(s),
        within(s, text.len()),
        k < s.len() ==> pos <= s[k].start,
        forall|i: int| k <= i < s.len() ==> #[trigger] s[i].end <= a || s[i].start >= b,
    ensures
        exists|j: int|
            0 <= j && j + (b - a) <= splice(text, s, pos, k).len() && #[trigger] splice(text, s, pos, k).subrange(
                j,
                j + (b - a),
            ) == text.subrange(a, b),
    decreases s.len() - k,
{
    let out = splice(text, s, pos, k);
    if k >= s.len() {
        let j = a - pos;
        assert(out.subrange(j, j + (b - a)) =~= text.subrange(a, b));
    } else {
        let e = s[k];
        assert(edit_within(s[k], text.len()));
        if e.start >= b {
            let j = a - pos;
            let first = text.subrange(pos, e.start as int);
            assert(out == first + e.value + splice(text, s, e.end as int, k + 1));
            assert(out.subrange(j, j + (b - a)) =~= text.subrange(a, b));
        } else {
            assert(e.end <= a);
            if k + 1 < s.len() {
                assert(!(s[k].end > s[k + 1].start));
            }
            lemma_splice_keeps(text, s, e.end as int, k + 1, a, b);
            let rest = splice(text, s, e.end as int, k + 1);
            let j0 = choose|j: int| 0 <= j && j + (b - a) <= rest.len() && #[trigger] rest.subrange(j, j + (b - a)) == text.subrange(a, b);
            let head = text.subrange(pos, e.start as int) + e.value;
            assert(out == head + rest);
            let j = head.len() + j0;
            assert(out.subrange(j, j + (b - a)) =~= rest.subrange(j0, j0 + (b - a)));
        }
    }
}

/// A text range that no edit touches comes through an edit unchanged.
pub proof fn lemma_edit_keeps(text: Seq<u8>, edits: Seq<EditView>, a: int, b: int)
    requires
        edit_spec(text, edits) is Ok,
        0 <= a <= b <= text.len(),
        forall|i: int| 0 <= i < edits.len() ==> #[trigger] edits[i].end <= a || edits[i].start >= b,
    ensures
        exists|j: int|
            0 <= j && j + (b - a) <= edit_spec(text, edits)->Ok_0.len() && #[trigger] edit_spec(text, edits)->Ok_0.subrange(
                j,
                j + (b - a),
            ) == text.subrange(a, b),
{
    let s = sort_by_start(edits);
    lemma_sort_members(edits);
    assert forall|i: int| 0 <= i < s.len() implies #[trigger] s[i].end <= a || s[i].start >= b by {
        assert(edits.contains(s[i]));
        let w = choose|w: int| 0 <= w < edits.len() && edits[w] == s[i];
        assert(edits[w].end <= a || edits[w].start >= b);
    }
    lemma_splice_keeps(text, s, 0, 0, a, b);
    let out = splice(text, s, 0, 0);
    assert(edit_spec(text, edits) == Ok::<Seq<u8>, Seq<char>>(out));
    let j = choose|j: int| 0 <= j && j + (b - a) <= out.len() && #[trigger] out.subrange(j, j + (b - a)) == text.subrange(a, b);
    assert(edit_spec(text, edits)->Ok_0.subrange(j, j + (b - a)) == text.subrange(a, b));
}

/// The replacements the generation makes in the template, once the two
/// policies parse and the system's parts are found: each A2DP sink and its
/// route, the inherited auxiliary outputs, and the Bluetooth module.
pub open spec fn inherit_edits(sb: Seq<u8>, tb: Seq<u8>) -> Option<Seq<EditView>> {
    match xml_parse_result(sb) {
        Err(_) => None,
        Ok(s) => match xml_parse_result(tb) {
            Err(_) => None,
            Ok(t) => if root_version(s) != Some("7.0"@) {
                None
            } else {
                match primary_ctx(s, t, sb) {
                    Err(_) => None,
                    Ok(c) => match devices_fold(c, 3) {
                        Err(_) => None,
                        Ok((edits, _aux)) => match bluetooth_edit(c) {
                            Err(_) => None,
                            Ok(bt) => Some(edits.push(bt)),
                        },
                    },
                }
            },
        },
    }
}

/// The generated policy carries every part of the template that none of
/// its replacements touches over byte for byte: only the A2DP sinks, their
/// routes, the inherited auxiliary outputs and the Bluetooth module are
/// rewritten.
pub proof fn lemma_untouched_template_kept(sb: Seq<u8>, tb: Seq<u8>, a: int, b: int)
    requires
        inherit_spec(sb, tb) is Ok,
        0 <= a <= b <= tb.len(),
        inherit_edits(sb, tb) matches Some(es) && forall|i: int|
            0 <= i < es.len() ==> #[trigger] es[i].end <= a || es[i].start >= b,
    ensures
        exists|j: int|
            0 <= j && j + (b - a) <= inherit_spec(sb, tb)->Ok_0.len() && #[trigger] inherit_spec(sb, tb)->Ok_0.subrange(
                j,
                j + (b - a),
            ) == tb.subrange(a, b),
{
    let es = inherit_edits(sb, tb)->Some_0;
    lemma_edit_keeps(tb, es, a, b);
    let out = edit_spec(tb, es)->Ok_0;
    let whole = out + vstd::utf8::encode_utf8("\n"@ + MARKER@ + "\n"@);
    assert(inherit_spec(sb, tb) == Ok::<Seq<u8>, Seq<char>>(whole));
    let j = choose|j: int| 0 <= j && j + (b - a) <= out.len() && #[trigger] out.subrange(j, j + (b - a)) == tb.subrange(a, b);
    assert(whole.subrange(j, j + (b - a)) =~= out.subrange(j, j + (b - a)));
    assert(inherit_spec(sb, tb)->Ok_0.subrange(j, j + (b - a)) == tb.subrange(a, b));
}

/// Policy generation refuses a system policy whose root is not version
/// 7.0, and one whose Primary module holds an XInclude; a generated policy
/// is the merged template, checked as a module graph, followed by the
/// generation marker on a line of its own.
pub proof fn lemma_inherit_checked_and_marked(sb: Seq<u8>, tb: Seq<u8>)
    ensures
        xml_parse_result(sb) is Ok && xml_parse_result(tb) is Ok && root_version(
            xml_parse_result(sb)->Ok_0,
        ) == Some("7.0"@) && module_spec(xml_parse_result(sb)->Ok_0, "primary"@) is Ok && module_spec(
            xml_parse_result(tb)->Ok_0,
            "primary"@,
        ) is Ok && includes_below(
            xml_parse_result(sb)->Ok_0,
            module_spec(xml_parse_result(sb)->Ok_0, "primary"@)->Ok_0,
        ) ==> inherit_spec(sb, tb) == Err::<Seq<u8>, Seq<char>>(nested_include_error()),
        xml_parse_result(sb) is Ok && xml_parse_result(tb) is Ok && root_version(
            xml_parse_result(sb)->Ok_0,
        ) != Some("7.0"@) ==> inherit_spec(sb, tb) == Err::<Seq<u8>, Seq<char>>(version_error()),
        inherit_spec(sb, tb) is Ok ==> ({
            let s = xml_parse_result(sb)->Ok_0;
            let t = xml_parse_result(tb)->Ok_0;
            &&& xml_parse_result(sb) is Ok
            &&& xml_parse_result(tb) is Ok
            &&& merge_spec(s, t, sb, tb) is Ok
            &&& validate_graph_spec(merge_spec(s, t, sb, tb)->Ok_0) == Ok::<(), Seq<char>>(())
            &&& inherit_spec(sb, tb)->Ok_0 == merge_spec(s, t, sb, tb)->Ok_0
                + vstd::utf8::encode_utf8("\n"@ + MARKER@ + "\n"@)
        }),
{
}

} // verus!
