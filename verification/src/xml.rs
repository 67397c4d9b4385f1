//! The element tree the extractor walks.
//!
//! The tree is the crate's own value type: an element's local name, its
//! attributes, and its children in document order.  A child that is not
//! an element (text, a comment, CDATA, a processing instruction) is kept
//! only as a placeholder, since the extractor never reads its content.
//! The `xmltree` crate parses the raw bytes into this shape.

use vstd::prelude::*;

use crate::text::str_eq;

verus! {

/// One node of the tree: an element, or a placeholder for anything else.
#[derive(Debug, PartialEq)]
pub enum XmlNode {
    Element(XmlElement),
    Other,
}

/// An element: its local name, its attributes, and its children.
#[derive(Debug, PartialEq)]
pub struct XmlElement {
    pub name: String,
    pub attributes: Vec<(String, String)>,
    pub children: Vec<XmlNode>,
}

/// The value of the first attribute of the given name.
pub open spec fn attr_lookup(attrs: Seq<(String, String)>, name: Seq<char>) -> Option<Seq<char>>
    decreases attrs.len(),
{
    if attrs.len() == 0 {
        None
    } else if attrs[0].0@ == name {
        Some(attrs[0].1@)
    } else {
        attr_lookup(attrs.skip(1), name)
    }
}

/// The first child that is an element, skipping any other nodes.
pub open spec fn first_elem(children: Seq<XmlNode>) -> Option<XmlElement>
    decreases children.len(),
{
    if children.len() == 0 {
        None
    } else {
        match children[0] {
            XmlNode::Element(e) => Some(e),
            XmlNode::Other => first_elem(children.skip(1)),
        }
    }
}

/// The first child element with the given name.
pub open spec fn child_lookup(children: Seq<XmlNode>, tag: Seq<char>) -> Option<XmlElement>
    decreases children.len(),
{
    if children.len() == 0 {
        None
    } else {
        match children[0] {
            XmlNode::Element(e) => if e.name@ == tag {
                Some(e)
            } else {
                child_lookup(children.skip(1), tag)
            },
            XmlNode::Other => child_lookup(children.skip(1), tag),
        }
    }
}

impl XmlElement {
    /// The value of this element's first attribute of the given name.
    pub fn attribute(&self, name: &str) -> (r: Option<&String>)
        ensures
            match r {
                Some(v) => attr_lookup(self.attributes@, name@) == Some(v@),
                None => attr_lookup(self.attributes@, name@) is None,
            },
    {
        let n = self.attributes.len();
        let mut i: usize = 0;
        proof {
            assert(self.attributes@.skip(0) =~= self.attributes@);
        }
        while i < n
            invariant
                0 <= i <= n,
                n == self.attributes@.len(),
                attr_lookup(self.attributes@, name@) == attr_lookup(
                    self.attributes@.skip(i as int),
                    name@,
                ),
            decreases n - i,
        {
            if str_eq(self.attributes[i].0.as_str(), name) {
                return Some(&self.attributes[i].1);
            }
            proof {
                assert(self.attributes@.skip(i as int).skip(1) =~= self.attributes@.skip(
                    i as int + 1,
                ));
            }
            i = i + 1;
        }
        None
    }

    /// This element's first child that is itself an element.
    pub fn first_child_element(&self) -> (r: Option<&XmlElement>)
        ensures
            match r {
                Some(e) => first_elem(self.children@) == Some(*e),
                None => first_elem(self.children@) is None,
            },
    {
        let n = self.children.len();
        let mut i: usize = 0;
        proof {
            assert(self.children@.skip(0) =~= self.children@);
        }
        while i < n
            invariant
                0 <= i <= n,
                n == self.children@.len(),
                first_elem(self.children@) == first_elem(self.children@.skip(i as int)),
            decreases n - i,
        {
            match &self.children[i] {
                XmlNode::Element(e) => {
                    return Some(e);
                },
                XmlNode::Other => {},
            }
            proof {
                assert(self.children@.skip(i as int).skip(1) =~= self.children@.skip(i as int + 1));
            }
            i = i + 1;
        }
        None
    }

    /// This element's first child element with the given name.
    pub fn get_child(&self, tag: &str) -> (r: Option<&XmlElement>)
        ensures
            match r {
                Some(e) => child_lookup(self.children@, tag@) == Some(*e),
                None => child_lookup(self.children@, tag@) is None,
            },
    {
        let n = self.children.len();
        let mut i: usize = 0;
        proof {
            assert(self.children@.skip(0) =~= self.children@);
        }
        while i < n
            invariant
                0 <= i <= n,
                n == self.children@.len(),
                child_lookup(self.children@, tag@) == child_lookup(
                    self.children@.skip(i as int),
                    tag@,
                ),
            decreases n - i,
        {
            match &self.children[i] {
                XmlNode::Element(e) => {
                    if str_eq(e.name.as_str(), tag) {
                        return Some(e);
                    }
                },
                XmlNode::Other => {},
            }
            proof {
                assert(self.children@.skip(i as int).skip(1) =~= self.children@.skip(i as int + 1));
            }
            i = i + 1;
        }
        None
    }
}

#[verifier::external_type_specification]
#[verifier::external_body]
pub struct ExElement(xmltree::Element);

/// The tree that parsing the given bytes yields: the first root element,
/// or the message of the reported failure.  With sorted attribute maps
/// the whole outcome depends on the bytes alone.
pub uninterp spec fn xml_tree(bytes: Seq<u8>) -> Result<XmlElement, Seq<char>>;

/// The recursive helper of `parse_tree` below.  Relies on xmltree's node
/// model: keeps an element's local name, its attributes in the sorted
/// order of the crate's attribute maps, and its children in document
/// order; a child that is no element is kept as a placeholder only.
#[verifier::external_body]
fn convert_element(e: xmltree::Element) -> XmlElement {
    let attributes = e.attributes.into_iter().collect();
    let children = e
        .children
        .into_iter()
        .map(|c| match c {
            xmltree::XMLNode::Element(el) => XmlNode::Element(convert_element(el)),
            xmltree::XMLNode::Comment(_) => XmlNode::Other,
            xmltree::XMLNode::CData(_) => XmlNode::Other,
            xmltree::XMLNode::Text(_) => XmlNode::Other,
            xmltree::XMLNode::ProcessingInstruction(_, _) => XmlNode::Other,
        })
        .collect();
    XmlElement { name: e.name, attributes, children }
}

/// Relies on `xmltree::Element::parse`: on well-formed input it builds the
/// tree of the document's first root element, a value that depends on the
/// bytes alone (the crate is built with sorted attribute maps); otherwise
/// it reports why the bytes are not a well-formed document.  The
/// underlying reader rejects input without a root element, so the parse
/// returns on every input.
#[verifier::external_body]
pub(crate) fn parse_tree(bytes: &[u8]) -> (r: Result<XmlElement, String>)
    ensures
        match r {
            Ok(root) => xml_tree(bytes@) == Ok::<XmlElement, Seq<char>>(root),
            Err(m) => xml_tree(bytes@) == Err::<XmlElement, Seq<char>>(m@),
        },
{
    match xmltree::Element::parse(bytes) {
        Ok(root) => Ok(convert_element(root)),
        Err(e) => Err(format!("{}", e)),
    }
}

} // verus!
