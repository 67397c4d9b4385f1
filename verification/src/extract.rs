//! The extraction pass: one walk over the element tree that synthesizes
//! the typed model, or fails with the first error in document order.

use vstd::prelude::*;

use crate::strmap::StrMap;
use crate::text::parse_u32;
use crate::text::spec_parse_u32;
use crate::text::split_namespace;
use crate::text::split_ns;
use crate::text::str_eq;
use crate::wsdl::ComplexType;
use crate::wsdl::Message;
use crate::wsdl::Occurence;
use crate::wsdl::Operation;
use crate::wsdl::SimpleType;
use crate::wsdl::SpecComplexType;
use crate::wsdl::SpecMessage;
use crate::wsdl::SpecOperation;
use crate::wsdl::SpecSimpleType;
use crate::wsdl::SpecType;
use crate::wsdl::SpecWsdl;
use crate::wsdl::SpecWsdlError;
use crate::wsdl::Type;
use crate::wsdl::TypeAttribute;
use crate::wsdl::Wsdl;
use crate::wsdl::WsdlError;
use crate::wsdl::classify_type_name;
use crate::wsdl::normalize_occurs;
use crate::wsdl::spec_classify;
use crate::wsdl::spec_normalize;
use crate::xml::XmlElement;
use crate::xml::XmlNode;
use crate::xml::attr_lookup;
use crate::xml::child_lookup;
use crate::xml::first_elem;
use crate::xml::parse_tree;
use crate::xml::xml_tree;

verus! {

/// Whether a field's `nillable` attribute value reads as true: only the
/// literal `true` does; `false`, any other value, and absence do not.
pub open spec fn spec_nillable(v: Option<Seq<char>>) -> bool {
    v == Some("true"@)
}

/// An occurrence attribute's meaning: absent means no bound, the literal
/// `unbounded` is the unbounded marker, anything else must be a
/// non-negative count.
pub open spec fn spec_occurs(v: Option<Seq<char>>) -> Result<Option<Occurence>, SpecWsdlError> {
    match v {
        None => Ok(None),
        Some(t) => if t == "unbounded"@ {
            Ok(Some(Occurence::Unbounded))
        } else {
            match spec_parse_u32(t) {
                Some(n) => Ok(Some(Occurence::Num(n))),
                None => Err(SpecWsdlError::Unsupported("occurence should be a number"@)),
            }
        },
    }
}

/// One field of a complex type: its name, and its normalized cardinality
/// and classified type.
pub open spec fn spec_extract_field(f: XmlElement) -> Result<
    (Seq<char>, (TypeAttribute, SpecSimpleType)),
    SpecWsdlError,
> {
    match attr_lookup(f.attributes@, "name"@) {
        None => Err(SpecWsdlError::AttributeNotFound("name"@)),
        Some(fname) => match attr_lookup(f.attributes@, "type"@) {
            None => Err(SpecWsdlError::AttributeNotFound("type"@)),
            Some(ftype) => {
                let nillable = spec_nillable(attr_lookup(f.attributes@, "nillable"@));
                match spec_occurs(attr_lookup(f.attributes@, "minOccurs"@)) {
                    Err(e) => Err(e),
                    Ok(min) => match spec_occurs(attr_lookup(f.attributes@, "maxOccurs"@)) {
                        Err(e) => Err(e),
                        Ok(max) => Ok(
                            (
                                fname,
                                (
                                    spec_normalize(nillable, min, max),
                                    spec_classify(split_ns(ftype)),
                                ),
                            ),
                        ),
                    },
                }
            },
        },
    }
}

/// The field table of a sequence container's children, in document order,
/// a later field of the same name winning.
pub open spec fn spec_extract_fields(s: Seq<XmlNode>) -> Result<
    Map<Seq<char>, (TypeAttribute, SpecSimpleType)>,
    SpecWsdlError,
>
    decreases s.len(),
{
    if s.len() == 0 {
        Ok(Map::empty())
    } else {
        match spec_extract_fields(s.drop_last()) {
            Err(e) => Err(e),
            Ok(m) => match s.last() {
                XmlNode::Other => Ok(m),
                XmlNode::Element(f) => match spec_extract_field(f) {
                    Err(e) => Err(e),
                    Ok(kv) => Ok(m.insert(kv.0, kv.1)),
                },
            },
        }
    }
}

/// The two accepted shapes of a type declaration resolved to one body: a
/// bare `complexType` element is its own body; any other element must
/// wrap the body as its first child node.
pub open spec fn spec_type_body(elem: XmlElement) -> Result<XmlElement, SpecWsdlError> {
    if elem.name@ == "complexType"@ {
        Ok(elem)
    } else if elem.children@.len() == 0 {
        Err(SpecWsdlError::Empty)
    } else {
        match elem.children@[0] {
            XmlNode::Element(b) => Ok(b),
            XmlNode::Other => Err(SpecWsdlError::NotAnElement),
        }
    }
}

/// One declared type: its name, and the field table found inside its
/// `complexType` body's first child node, the sequence container.
pub open spec fn spec_extract_type(elem: XmlElement) -> Result<
    (Seq<char>, SpecType),
    SpecWsdlError,
> {
    match attr_lookup(elem.attributes@, "name"@) {
        None => Err(SpecWsdlError::AttributeNotFound("name"@)),
        Some(name) => match spec_type_body(elem) {
            Err(e) => Err(e),
            Ok(body) => if body.name@ == "complexType"@ {
                if body.children@.len() == 0 {
                    Err(SpecWsdlError::Empty)
                } else {
                    match body.children@[0] {
                        XmlNode::Other => Err(SpecWsdlError::NotAnElement),
                        XmlNode::Element(container) => match spec_extract_fields(
                            container.children@,
                        ) {
                            Err(e) => Err(e),
                            Ok(fields) => Ok(
                                (name, SpecType::Complex(SpecComplexType { fields })),
                            ),
                        },
                    }
                }
            } else {
                Err(SpecWsdlError::Unsupported("not a complex type"@))
            },
        },
    }
}

/// The type table of the schema root's children, a later declaration of
/// the same name winning.
pub open spec fn spec_extract_types(s: Seq<XmlNode>) -> Result<
    Map<Seq<char>, SpecType>,
    SpecWsdlError,
>
    decreases s.len(),
{
    if s.len() == 0 {
        Ok(Map::empty())
    } else {
        match spec_extract_types(s.drop_last()) {
            Err(e) => Err(e),
            Ok(m) => match s.last() {
                XmlNode::Other => Ok(m),
                XmlNode::Element(el) => match spec_extract_type(el) {
                    Err(e) => Err(e),
                    Ok(kv) => Ok(m.insert(kv.0, kv.1)),
                },
            },
        }
    }
}

/// One message: its name, and the name and referred element of its first
/// child element, the sole recorded part.
pub open spec fn spec_extract_message(m: XmlElement) -> Result<
    (Seq<char>, SpecMessage),
    SpecWsdlError,
> {
    match attr_lookup(m.attributes@, "name"@) {
        None => Err(SpecWsdlError::AttributeNotFound("name"@)),
        Some(name) => match first_elem(m.children@) {
            None => Err(SpecWsdlError::Empty),
            Some(part) => match attr_lookup(part.attributes@, "name"@) {
                None => Err(SpecWsdlError::AttributeNotFound("name"@)),
                Some(pn) => match attr_lookup(part.attributes@, "element"@) {
                    None => Err(SpecWsdlError::AttributeNotFound("element"@)),
                    Some(pe) => Ok(
                        (name, SpecMessage { part_name: pn, part_element: split_ns(pe) }),
                    ),
                },
            },
        },
    }
}

/// The message table of the root's children named `message`, a later
/// message of the same name winning.
pub open spec fn spec_extract_messages(s: Seq<XmlNode>) -> Result<
    Map<Seq<char>, SpecMessage>,
    SpecWsdlError,
>
    decreases s.len(),
{
    if s.len() == 0 {
        Ok(Map::empty())
    } else {
        match spec_extract_messages(s.drop_last()) {
            Err(e) => Err(e),
            Ok(m) => match s.last() {
                XmlNode::Other => Ok(m),
                XmlNode::Element(el) => if el.name@ != "message"@ {
                    Ok(m)
                } else {
                    match spec_extract_message(el) {
                        Err(e) => Err(e),
                        Ok(kv) => Ok(m.insert(kv.0, kv.1)),
                    }
                },
            },
        }
    }
}

/// An operation's member references while its children are walked.
pub struct SpecMembers {
    pub input: Option<Seq<char>>,
    pub output: Option<Seq<char>>,
    pub faults: Option<Seq<Seq<char>>>,
}

/// One operation child carrying a `message` attribute: `input` and
/// `output` overwrite their slot, `fault` appends to the fault list, and
/// any other tag is a structural error.  A child without the attribute
/// changes nothing.
pub open spec fn spec_member_step(acc: SpecMembers, el: XmlElement) -> Result<
    SpecMembers,
    SpecWsdlError,
> {
    match attr_lookup(el.attributes@, "message"@) {
        None => Ok(acc),
        Some(msg) => {
            let m = split_ns(msg);
            if el.name@ == "input"@ {
                Ok(SpecMembers { input: Some(m), ..acc })
            } else if el.name@ == "output"@ {
                Ok(SpecMembers { output: Some(m), ..acc })
            } else if el.name@ == "fault"@ {
                Ok(
                    SpecMembers {
                        faults: Some(
                            (match acc.faults {
                                None => Seq::<Seq<char>>::empty(),
                                Some(fs) => fs,
                            }).push(m),
                        ),
                        ..acc
                    },
                )
            } else {
                Err(SpecWsdlError::ElementNotFound("operation member"@))
            }
        },
    }
}

/// The member references gathered over an operation's children.
pub open spec fn spec_operation_members(s: Seq<XmlNode>) -> Result<SpecMembers, SpecWsdlError>
    decreases s.len(),
{
    if s.len() == 0 {
        Ok(SpecMembers { input: None, output: None, faults: None })
    } else {
        match spec_operation_members(s.drop_last()) {
            Err(e) => Err(e),
            Ok(acc) => match s.last() {
                XmlNode::Other => Ok(acc),
                XmlNode::Element(el) => spec_member_step(acc, el),
            },
        }
    }
}

/// One operation: its name and its gathered member references.
pub open spec fn spec_extract_operation(o: XmlElement) -> Result<
    (Seq<char>, SpecOperation),
    SpecWsdlError,
> {
    match attr_lookup(o.attributes@, "name"@) {
        None => Err(SpecWsdlError::AttributeNotFound("name"@)),
        Some(name) => match spec_operation_members(o.children@) {
            Err(e) => Err(e),
            Ok(acc) => Ok(
                (
                    name,
                    SpecOperation {
                        name,
                        input: acc.input,
                        output: acc.output,
                        faults: acc.faults,
                    },
                ),
            ),
        },
    }
}

/// The operation table of the port type's children, a later operation of
/// the same name winning.
pub open spec fn spec_extract_operations(s: Seq<XmlNode>) -> Result<
    Map<Seq<char>, SpecOperation>,
    SpecWsdlError,
>
    decreases s.len(),
{
    if s.len() == 0 {
        Ok(Map::empty())
    } else {
        match spec_extract_operations(s.drop_last()) {
            Err(e) => Err(e),
            Ok(m) => match s.last() {
                XmlNode::Other => Ok(m),
                XmlNode::Element(el) => match spec_extract_operation(el) {
                    Err(e) => Err(e),
                    Ok(kv) => Ok(m.insert(kv.0, kv.1)),
                },
            },
        }
    }
}

/// The whole extraction of one document tree, in document order: the
/// target namespace, the type table under `types`, the message table, the
/// operation table under `portType`, and the service name.
pub open spec fn spec_extract(root: XmlElement) -> Result<SpecWsdl, SpecWsdlError> {
    match attr_lookup(root.attributes@, "targetNamespace"@) {
        None => Err(SpecWsdlError::AttributeNotFound("targetNamespace"@)),
        Some(tns) => match child_lookup(root.children@, "types"@) {
            None => Err(SpecWsdlError::ElementNotFound("types"@)),
            Some(types_el) => match first_elem(types_el.children@) {
                None => Err(SpecWsdlError::Empty),
                Some(schema) => match spec_extract_types(schema.children@) {
                    Err(e) => Err(e),
                    Ok(types) => match spec_extract_messages(root.children@) {
                        Err(e) => Err(e),
                        Ok(messages) => match child_lookup(root.children@, "portType"@) {
                            None => Err(SpecWsdlError::ElementNotFound("portType"@)),
                            Some(port_type) => match spec_extract_operations(
                                port_type.children@,
                            ) {
                                Err(e) => Err(e),
                                Ok(operations) => match child_lookup(
                                    root.children@,
                                    "service"@,
                                ) {
                                    None => Err(SpecWsdlError::ElementNotFound("service"@)),
                                    Some(service) => match attr_lookup(
                                        service.attributes@,
                                        "name"@,
                                    ) {
                                        None => Err(SpecWsdlError::AttributeNotFound("name"@)),
                                        Some(name) => Ok(
                                            SpecWsdl {
                                                name,
                                                target_namespace: tns,
                                                types,
                                                messages,
                                                operations,
                                            },
                                        ),
                                    },
                                },
                            },
                        },
                    },
                },
            },
        },
    }
}

/// The outcome of the whole pass on raw bytes: a parse failure, or the
/// extraction of the parsed tree.
pub open spec fn spec_parse(bytes: Seq<u8>) -> Result<SpecWsdl, SpecWsdlError> {
    match xml_tree(bytes) {
        Ok(root) => spec_extract(root),
        Err(m) => Err(SpecWsdlError::Parse(m)),
    }
}

proof fn lemma_types_err_persists(s: Seq<XmlNode>, i: int)
    requires
        0 <= i <= s.len(),
        spec_extract_types(s.take(i)) is Err,
    ensures
        spec_extract_types(s) == spec_extract_types(s.take(i)),
    decreases s.len() - i,
{
    if i < s.len() {
        assert(s.take(i + 1).drop_last() =~= s.take(i));
        lemma_types_err_persists(s, i + 1);
    } else {
        assert(s.take(i) =~= s);
    }
}

proof fn lemma_fields_err_persists(s: Seq<XmlNode>, i: int)
    requires
        0 <= i <= s.len(),
        spec_extract_fields(s.take(i)) is Err,
    ensures
        spec_extract_fields(s) == spec_extract_fields(s.take(i)),
    decreases s.len() - i,
{
    if i < s.len() {
        assert(s.take(i + 1).drop_last() =~= s.take(i));
        lemma_fields_err_persists(s, i + 1);
    } else {
        assert(s.take(i) =~= s);
    }
}

proof fn lemma_messages_err_persists(s: Seq<XmlNode>, i: int)
    requires
        0 <= i <= s.len(),
        spec_extract_messages(s.take(i)) is Err,
    ensures
        spec_extract_messages(s) == spec_extract_messages(s.take(i)),
    decreases s.len() - i,
{
    if i < s.len() {
        assert(s.take(i + 1).drop_last() =~= s.take(i));
        lemma_messages_err_persists(s, i + 1);
    } else {
        assert(s.take(i) =~= s);
    }
}

proof fn lemma_operations_err_persists(s: Seq<XmlNode>, i: int)
    requires
        0 <= i <= s.len(),
        spec_extract_operations(s.take(i)) is Err,
    ensures
        spec_extract_operations(s) == spec_extract_operations(s.take(i)),
    decreases s.len() - i,
{
    if i < s.len() {
        assert(s.take(i + 1).drop_last() =~= s.take(i));
        lemma_operations_err_persists(s, i + 1);
    } else {
        assert(s.take(i) =~= s);
    }
}

proof fn lemma_members_err_persists(s: Seq<XmlNode>, i: int)
    requires
        0 <= i <= s.len(),
        spec_operation_members(s.take(i)) is Err,
    ensures
        spec_operation_members(s) == spec_operation_members(s.take(i)),
    decreases s.len() - i,
{
    if i < s.len() {
        assert(s.take(i + 1).drop_last() =~= s.take(i));
        lemma_members_err_persists(s, i + 1);
    } else {
        assert(s.take(i) =~= s);
    }
}

/// Reads one occurrence attribute off a field element.
fn read_occurs(f: &XmlElement, attr: &str) -> (r: Result<Option<Occurence>, WsdlError>)
    ensures
        match r {
            Ok(o) => spec_occurs(attr_lookup(f.attributes@, attr@)) == Ok::<
                Option<Occurence>,
                SpecWsdlError,
            >(o),
            Err(e) => spec_occurs(attr_lookup(f.attributes@, attr@)) == Err::<
                Option<Occurence>,
                SpecWsdlError,
            >(e@),
        },
{
    match f.attribute(attr) {
        None => Ok(None),
        Some(v) => {
            if str_eq(v.as_str(), "unbounded") {
                Ok(Some(Occurence::Unbounded))
            } else {
                match parse_u32(v.as_str()) {
                    Some(n) => Ok(Some(Occurence::Num(n))),
                    None => Err(WsdlError::Unsupported("occurence should be a number")),
                }
            }
        },
    }
}

/// Extracts one field of a complex type.
fn extract_field(f: &XmlElement) -> (r: Result<(String, (TypeAttribute, SimpleType)), WsdlError>)
    ensures
        match r {
            Ok(p) => spec_extract_field(*f) == Ok::<
                (Seq<char>, (TypeAttribute, SpecSimpleType)),
                SpecWsdlError,
            >((p.0@, (p.1.0, p.1.1@))),
            Err(e) => spec_extract_field(*f) == Err::<
                (Seq<char>, (TypeAttribute, SpecSimpleType)),
                SpecWsdlError,
            >(e@),
        },
{
    let name = match f.attribute("name") {
        Some(n) => n.clone(),
        None => {
            return Err(WsdlError::AttributeNotFound("name"));
        },
    };
    let ftype = match f.attribute("type") {
        Some(t) => t,
        None => {
            return Err(WsdlError::AttributeNotFound("type"));
        },
    };
    let nillable = match f.attribute("nillable") {
        Some(v) => str_eq(v.as_str(), "true"),
        None => false,
    };
    let min = match read_occurs(f, "minOccurs") {
        Ok(o) => o,
        Err(e) => {
            return Err(e);
        },
    };
    let max = match read_occurs(f, "maxOccurs") {
        Ok(o) => o,
        Err(e) => {
            return Err(e);
        },
    };
    let ta = normalize_occurs(nillable, min, max);
    let local = split_namespace(ftype.as_str());
    let st = classify_type_name(local);
    Ok((name, (ta, st)))
}

/// Extracts the field table of a sequence container's children.
fn extract_fields(children: &Vec<XmlNode>) -> (r: Result<
    StrMap<(TypeAttribute, SimpleType)>,
    WsdlError,
>)
    ensures
        match r {
            Ok(t) => spec_extract_fields(children@) == Ok::<
                Map<Seq<char>, (TypeAttribute, SpecSimpleType)>,
                SpecWsdlError,
            >(t@),
            Err(e) => spec_extract_fields(children@) == Err::<
                Map<Seq<char>, (TypeAttribute, SpecSimpleType)>,
                SpecWsdlError,
            >(e@),
        },
{
    let mut table: StrMap<(TypeAttribute, SimpleType)> = StrMap::new();
    let n = children.len();
    let mut i: usize = 0;
    proof {
        assert(children@.take(0) =~= Seq::<XmlNode>::empty());
    }
    while i < n
        invariant
            0 <= i <= n,
            n == children@.len(),
            spec_extract_fields(children@.take(i as int)) == Ok::<
                Map<Seq<char>, (TypeAttribute, SpecSimpleType)>,
                SpecWsdlError,
            >(table@),
        decreases n - i,
    {
        proof {
            assert(children@.take(i as int + 1).drop_last() =~= children@.take(i as int));
        }
        match &children[i] {
            XmlNode::Other => {},
            XmlNode::Element(f) => {
                match extract_field(f) {
                    Ok(p) => {
                        let (key, value) = p;
                        table.insert(key, value);
                    },
                    Err(e) => {
                        proof {
                            lemma_fields_err_persists(children@, i as int + 1);
                        }
                        return Err(e);
                    },
                }
            },
        }
        i = i + 1;
    }
    proof {
        assert(children@.take(n as int) =~= children@);
    }
    Ok(table)
}

/// Resolves a type declaration to its `complexType` body reference.
fn type_body<'a>(elem: &'a XmlElement) -> (r: Result<&'a XmlElement, WsdlError>)
    ensures
        match r {
            Ok(b) => spec_type_body(*elem) == Ok::<XmlElement, SpecWsdlError>(*b),
            Err(e) => spec_type_body(*elem) == Err::<XmlElement, SpecWsdlError>(e@),
        },
{
    if str_eq(elem.name.as_str(), "complexType") {
        Ok(elem)
    } else if elem.children.len() == 0 {
        Err(WsdlError::Empty)
    } else {
        match &elem.children[0] {
            XmlNode::Element(b) => Ok(b),
            XmlNode::Other => Err(WsdlError::NotAnElement),
        }
    }
}

/// Extracts one declared type, in either accepted shape.
fn extract_type(elem: &XmlElement) -> (r: Result<(String, Type), WsdlError>)
    ensures
        match r {
            Ok(p) => spec_extract_type(*elem) == Ok::<(Seq<char>, SpecType), SpecWsdlError>(
                (p.0@, p.1@),
            ),
            Err(e) => spec_extract_type(*elem) == Err::<(Seq<char>, SpecType), SpecWsdlError>(e@),
        },
{
    let name = match elem.attribute("name") {
        Some(n) => n.clone(),
        None => {
            return Err(WsdlError::AttributeNotFound("name"));
        },
    };
    let body = match type_body(elem) {
        Ok(b) => b,
        Err(e) => {
            return Err(e);
        },
    };
    if !str_eq(body.name.as_str(), "complexType") {
        return Err(WsdlError::Unsupported("not a complex type"));
    }
    if body.children.len() == 0 {
        return Err(WsdlError::Empty);
    }
    let container = match &body.children[0] {
        XmlNode::Element(c) => c,
        XmlNode::Other => {
            return Err(WsdlError::NotAnElement);
        },
    };
    let fields = match extract_fields(&container.children) {
        Ok(f) => f,
        Err(e) => {
            return Err(e);
        },
    };
    Ok((name, Type::Complex(ComplexType { fields })))
}

/// Extracts the type table of the schema root's children.
fn extract_types(children: &Vec<XmlNode>) -> (r: Result<StrMap<Type>, WsdlError>)
    ensures
        match r {
            Ok(t) => spec_extract_types(children@) == Ok::<
                Map<Seq<char>, SpecType>,
                SpecWsdlError,
            >(t@),
            Err(e) => spec_extract_types(children@) == Err::<
                Map<Seq<char>, SpecType>,
                SpecWsdlError,
            >(e@),
        },
{
    let mut table: StrMap<Type> = StrMap::new();
    let n = children.len();
    let mut i: usize = 0;
    proof {
        assert(children@.take(0) =~= Seq::<XmlNode>::empty());
    }
    while i < n
        invariant
            0 <= i <= n,
            n == children@.len(),
            spec_extract_types(children@.take(i as int)) == Ok::<
                Map<Seq<char>, SpecType>,
                SpecWsdlError,
            >(table@),
        decreases n - i,
    {
        proof {
            assert(children@.take(i as int + 1).drop_last() =~= children@.take(i as int));
        }
        match &children[i] {
            XmlNode::Other => {},
            XmlNode::Element(el) => {
                match extract_type(el) {
                    Ok(p) => {
                        let (key, value) = p;
                        table.insert(key, value);
                    },
                    Err(e) => {
                        proof {
                            lemma_types_err_persists(children@, i as int + 1);
                        }
                        return Err(e);
                    },
                }
            },
        }
        i = i + 1;
    }
    proof {
        assert(children@.take(n as int) =~= children@);
    }
    Ok(table)
}

/// Extracts one message and its sole recorded part.
fn extract_message(m: &XmlElement) -> (r: Result<(String, Message), WsdlError>)
    ensures
        match r {
            Ok(p) => spec_extract_message(*m) == Ok::<(Seq<char>, SpecMessage), SpecWsdlError>(
                (p.0@, p.1@),
            ),
            Err(e) => spec_extract_message(*m) == Err::<(Seq<char>, SpecMessage), SpecWsdlError>(
                e@,
            ),
        },
{
    let name = match m.attribute("name") {
        Some(n) => n.clone(),
        None => {
            return Err(WsdlError::AttributeNotFound("name"));
        },
    };
    let part = match m.first_child_element() {
        Some(p) => p,
        None => {
            return Err(WsdlError::Empty);
        },
    };
    let part_name = match part.attribute("name") {
        Some(n) => n.clone(),
        None => {
            return Err(WsdlError::AttributeNotFound("name"));
        },
    };
    let part_element = match part.attribute("element") {
        Some(e) => split_namespace(e.as_str()).to_owned(),
        None => {
            return Err(WsdlError::AttributeNotFound("element"));
        },
    };
    Ok((name, Message { part_name, part_element }))
}

/// Extracts the message table of the root's children named `message`.
fn extract_messages(children: &Vec<XmlNode>) -> (r: Result<StrMap<Message>, WsdlError>)
    ensures
        match r {
            Ok(t) => spec_extract_messages(children@) == Ok::<
                Map<Seq<char>, SpecMessage>,
                SpecWsdlError,
            >(t@),
            Err(e) => spec_extract_messages(children@) == Err::<
                Map<Seq<char>, SpecMessage>,
                SpecWsdlError,
            >(e@),
        },
{
    let mut table: StrMap<Message> = StrMap::new();
    let n = children.len();
    let mut i: usize = 0;
    proof {
        assert(children@.take(0) =~= Seq::<XmlNode>::empty());
    }
    while i < n
        invariant
            0 <= i <= n,
            n == children@.len(),
            spec_extract_messages(children@.take(i as int)) == Ok::<
                Map<Seq<char>, SpecMessage>,
                SpecWsdlError,
            >(table@),
        decreases n - i,
    {
        proof {
            assert(children@.take(i as int + 1).drop_last() =~= children@.take(i as int));
        }
        match &children[i] {
            XmlNode::Other => {},
            XmlNode::Element(el) => {
                if str_eq(el.name.as_str(), "message") {
                    match extract_message(el) {
                        Ok(p) => {
                            let (key, value) = p;
                            table.insert(key, value);
                        },
                        Err(e) => {
                            proof {
                                lemma_messages_err_persists(children@, i as int + 1);
                            }
                            return Err(e);
                        },
                    }
                }
            },
        }
        i = i + 1;
    }
    proof {
        assert(children@.take(n as int) =~= children@);
    }
    Ok(table)
}

/// Extracts one operation and its member references.
fn extract_operation(o: &XmlElement) -> (r: Result<(String, Operation), WsdlError>)
    ensures
        match r {
            Ok(p) => spec_extract_operation(*o) == Ok::<
                (Seq<char>, SpecOperation),
                SpecWsdlError,
            >((p.0@, p.1@)),
            Err(e) => spec_extract_operation(*o) == Err::<
                (Seq<char>, SpecOperation),
                SpecWsdlError,
            >(e@),
        },
{
    let name = match o.attribute("name") {
        Some(n) => n.clone(),
        None => {
            return Err(WsdlError::AttributeNotFound("name"));
        },
    };
    let mut input: Option<String> = None;
    let mut output: Option<String> = None;
    let mut faults: Option<Vec<String>> = None;
    let n = o.children.len();
    let mut i: usize = 0;
    proof {
        assert(o.children@.take(0) =~= Seq::<XmlNode>::empty());
    }
    while i < n
        invariant
            0 <= i <= n,
            n == o.children@.len(),
            attr_lookup(o.attributes@, "name"@) == Some(name@),
            spec_operation_members(o.children@.take(i as int)) == Ok::<
                SpecMembers,
                SpecWsdlError,
            >(
                (SpecMembers {
                    input: input.deep_view(),
                    output: output.deep_view(),
                    faults: faults.deep_view(),
                }),
            ),
        decreases n - i,
    {
        let ghost prev = SpecMembers {
            input: input.deep_view(),
            output: output.deep_view(),
            faults: faults.deep_view(),
        };
        proof {
            assert(o.children@.take(i as int + 1).drop_last() =~= o.children@.take(i as int));
            assert(o.children@.take(i as int + 1).last() == o.children@[i as int]);
        }
        match &o.children[i] {
            XmlNode::Other => {},
            XmlNode::Element(child) => {
                match child.attribute("message") {
                    None => {},
                    Some(msg) => {
                        let member = split_namespace(msg.as_str()).to_owned();
                        if str_eq(child.name.as_str(), "input") {
                            input = Some(member);
                            proof {
                                assert(spec_member_step(prev, *child) == Ok::<
                                    SpecMembers,
                                    SpecWsdlError,
                                >((SpecMembers { input: Some(member@), ..prev })));
                            }
                        } else if str_eq(child.name.as_str(), "output") {
                            output = Some(member);
                            proof {
                                assert(spec_member_step(prev, *child) == Ok::<
                                    SpecMembers,
                                    SpecWsdlError,
                                >((SpecMembers { output: Some(member@), ..prev })));
                            }
                        } else if str_eq(child.name.as_str(), "fault") {
                            let mut fs = match faults {
                                Some(v) => v,
                                None => Vec::new(),
                            };
                            let ghost old_fs = fs.deep_view();
                            proof {
                                assert(old_fs == match prev.faults {
                                    None => Seq::<Seq<char>>::empty(),
                                    Some(q) => q,
                                });
                            }
                            fs.push(member);
                            proof {
                                assert(fs.deep_view() =~= old_fs.push(member@));
                            }
                            faults = Some(fs);
                            proof {
                                assert(spec_member_step(prev, *child) == Ok::<
                                    SpecMembers,
                                    SpecWsdlError,
                                >((SpecMembers { faults: Some(old_fs.push(member@)), ..prev })));
                            }
                        } else {
                            proof {
                                assert(spec_member_step(prev, *child) == Err::<
                                    SpecMembers,
                                    SpecWsdlError,
                                >(SpecWsdlError::ElementNotFound("operation member"@)));
                                assert(spec_operation_members(o.children@.take(i as int + 1))
                                    is Err);
                                lemma_members_err_persists(o.children@, i as int + 1);
                            }
                            return Err(WsdlError::ElementNotFound("operation member"));
                        }
                    },
                }
            },
        }
        i = i + 1;
    }
    proof {
        assert(o.children@.take(n as int) =~= o.children@);
    }
    Ok(
        (
            name.clone(),
            Operation { name, input, output, faults },
        ),
    )
}

/// Extracts the operation table of the port type's children.
fn extract_operations(children: &Vec<XmlNode>) -> (r: Result<StrMap<Operation>, WsdlError>)
    ensures
        match r {
            Ok(t) => spec_extract_operations(children@) == Ok::<
                Map<Seq<char>, SpecOperation>,
                SpecWsdlError,
            >(t@),
            Err(e) => spec_extract_operations(children@) == Err::<
                Map<Seq<char>, SpecOperation>,
                SpecWsdlError,
            >(e@),
        },
{
    let mut table: StrMap<Operation> = StrMap::new();
    let n = children.len();
    let mut i: usize = 0;
    proof {
        assert(children@.take(0) =~= Seq::<XmlNode>::empty());
    }
    while i < n
        invariant
            0 <= i <= n,
            n == children@.len(),
            spec_extract_operations(children@.take(i as int)) == Ok::<
                Map<Seq<char>, SpecOperation>,
                SpecWsdlError,
            >(table@),
        decreases n - i,
    {
        proof {
            assert(children@.take(i as int + 1).drop_last() =~= children@.take(i as int));
        }
        match &children[i] {
            XmlNode::Other => {},
            XmlNode::Element(el) => {
                match extract_operation(el) {
                    Ok(p) => {
                        let (key, value) = p;
                        table.insert(key, value);
                    },
                    Err(e) => {
                        proof {
                            lemma_operations_err_persists(children@, i as int + 1);
                        }
                        return Err(e);
                    },
                }
            },
        }
        i = i + 1;
    }
    proof {
        assert(children@.take(n as int) =~= children@);
    }
    Ok(table)
}

/// Extracts the typed model from one parsed element tree.
pub fn extract_document(root: &XmlElement) -> (r: Result<Wsdl, WsdlError>)
    ensures
        match r {
            Ok(w) => spec_extract(*root) == Ok::<SpecWsdl, SpecWsdlError>(w@),
            Err(e) => spec_extract(*root) == Err::<SpecWsdl, SpecWsdlError>(e@),
        },
{
    let target_namespace = match root.attribute("targetNamespace") {
        Some(t) => t.clone(),
        None => {
            return Err(WsdlError::AttributeNotFound("targetNamespace"));
        },
    };
    let types_el = match root.get_child("types") {
        Some(e) => e,
        None => {
            return Err(WsdlError::ElementNotFound("types"));
        },
    };
    let schema = match types_el.first_child_element() {
        Some(e) => e,
        None => {
            return Err(WsdlError::Empty);
        },
    };
    let types = match extract_types(&schema.children) {
        Ok(t) => t,
        Err(e) => {
            return Err(e);
        },
    };
    let messages = match extract_messages(&root.children) {
        Ok(m) => m,
        Err(e) => {
            return Err(e);
        },
    };
    let port_type = match root.get_child("portType") {
        Some(e) => e,
        None => {
            return Err(WsdlError::ElementNotFound("portType"));
        },
    };
    let operations = match extract_operations(&port_type.children) {
        Ok(o) => o,
        Err(e) => {
            return Err(e);
        },
    };
    let service = match root.get_child("service") {
        Some(e) => e,
        None => {
            return Err(WsdlError::ElementNotFound("service"));
        },
    };
    let name = match service.attribute("name") {
        Some(n) => n.clone(),
        None => {
            return Err(WsdlError::AttributeNotFound("name"));
        },
    };
    Ok(Wsdl { name, target_namespace, types, messages, operations })
}

/// Parses raw bytes and extracts the typed model of the document.
pub fn parse(bytes: &[u8]) -> (r: Result<Wsdl, WsdlError>)
    ensures
        match r {
            Ok(w) => spec_parse(bytes@) == Ok::<SpecWsdl, SpecWsdlError>(w@),
            Err(e) => spec_parse(bytes@) == Err::<SpecWsdl, SpecWsdlError>(e@),
        },
{
    match parse_tree(bytes) {
        Ok(root) => extract_document(&root),
        Err(m) => Err(WsdlError::Parse(m)),
    }
}

} // verus!
