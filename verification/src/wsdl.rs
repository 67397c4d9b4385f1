//! The typed model of a service description, and the rules that shape it:
//! type-name classification and cardinality normalization.

use vstd::prelude::*;

use crate::strmap::StrMap;
use crate::text::split_ns;
use crate::text::str_eq;

verus! {

/// Why an extraction failed.  Every failure is terminal: no partial
/// document is ever returned.
#[derive(Debug, PartialEq)]
pub enum WsdlError {
    /// The bytes are not a well-formed document; holds the parser's message.
    Parse(String),
    /// A structurally required child element is absent.
    ElementNotFound(&'static str),
    /// A structurally required attribute is absent.
    AttributeNotFound(&'static str),
    /// A node expected to be an element is text or some other content.
    NotAnElement,
    /// A container expected to hold at least one child element has none.
    Empty,
    /// A declaration shape or occurrence count the model does not cover.
    Unsupported(&'static str),
}

/// The abstract form of an extraction failure.
pub enum SpecWsdlError {
    Parse(Seq<char>),
    ElementNotFound(Seq<char>),
    AttributeNotFound(Seq<char>),
    NotAnElement,
    Empty,
    Unsupported(Seq<char>),
}

impl View for WsdlError {
    type V = SpecWsdlError;

    open spec fn view(&self) -> SpecWsdlError {
        match self {
            WsdlError::Parse(m) => SpecWsdlError::Parse(m@),
            WsdlError::ElementNotFound(t) => SpecWsdlError::ElementNotFound(t@),
            WsdlError::AttributeNotFound(a) => SpecWsdlError::AttributeNotFound(a@),
            WsdlError::NotAnElement => SpecWsdlError::NotAnElement,
            WsdlError::Empty => SpecWsdlError::Empty,
            WsdlError::Unsupported(w) => SpecWsdlError::Unsupported(w@),
        }
    }
}

/// A field's type: one of the five recognized primitives, or a reference
/// to another declared type by local name.
#[derive(Debug, Clone, PartialEq)]
pub enum SimpleType {
    Boolean,
    String,
    Float,
    Int,
    DateTime,
    Complex(String),
}

/// The abstract form of a field's type.
pub enum SpecSimpleType {
    Boolean,
    String,
    Float,
    Int,
    DateTime,
    Complex(Seq<char>),
}

impl View for SimpleType {
    type V = SpecSimpleType;

    open spec fn view(&self) -> SpecSimpleType {
        match self {
            SimpleType::Boolean => SpecSimpleType::Boolean,
            SimpleType::String => SpecSimpleType::String,
            SimpleType::Float => SpecSimpleType::Float,
            SimpleType::Int => SpecSimpleType::Int,
            SimpleType::DateTime => SpecSimpleType::DateTime,
            SimpleType::Complex(n) => SpecSimpleType::Complex(n@),
        }
    }
}

/// An occurrence bound: the literal `unbounded`, or a count.
#[derive(Debug, Clone, Copy, PartialEq, Eq)]
pub enum Occurence {
    Unbounded,
    Num(u32),
}

impl View for Occurence {
    type V = Occurence;

    open spec fn view(&self) -> Occurence {
        *self
    }
}

/// A field's cardinality and nullability.  After normalization an
/// optional or required single value is expressed through `nillable`
/// alone, with both bounds cleared.
#[derive(Debug, Clone, Copy, PartialEq, Eq)]
pub struct TypeAttribute {
    pub nillable: bool,
    pub min_occurs: Option<Occurence>,
    pub max_occurs: Option<Occurence>,
}

impl View for TypeAttribute {
    type V = TypeAttribute;

    open spec fn view(&self) -> TypeAttribute {
        *self
    }
}

impl Default for TypeAttribute {
    /// A plain required field: not nillable, no explicit bounds.
    fn default() -> (r: Self)
        ensures
            r == (TypeAttribute { nillable: false, min_occurs: None, max_occurs: None }),
    {
        TypeAttribute { nillable: false, min_occurs: None, max_occurs: None }
    }
}

/// A declared complex type: a table of fields, keyed by unique field name.
#[derive(Debug, Clone)]
pub struct ComplexType {
    pub fields: StrMap<(TypeAttribute, SimpleType)>,
}

/// The abstract form of a complex type.
pub struct SpecComplexType {
    pub fields: Map<Seq<char>, (TypeAttribute, SpecSimpleType)>,
}

impl View for ComplexType {
    type V = SpecComplexType;

    open spec fn view(&self) -> SpecComplexType {
        SpecComplexType { fields: self.fields@ }
    }
}

/// A declared type: a bare simple type, or a complex field table.
#[derive(Debug, Clone)]
pub enum Type {
    Simple(SimpleType),
    Complex(ComplexType),
}

/// The abstract form of a declared type.
pub enum SpecType {
    Simple(SpecSimpleType),
    Complex(SpecComplexType),
}

impl View for Type {
    type V = SpecType;

    open spec fn view(&self) -> SpecType {
        match self {
            Type::Simple(s) => SpecType::Simple(s@),
            Type::Complex(c) => SpecType::Complex(c@),
        }
    }
}

/// An abstract message: its sole recorded part's name and the local name
/// of the element that part refers to.
#[derive(Debug, Clone, PartialEq)]
pub struct Message {
    pub part_name: String,
    pub part_element: String,
}

/// The abstract form of a message.
pub struct SpecMessage {
    pub part_name: Seq<char>,
    pub part_element: Seq<char>,
}

impl View for Message {
    type V = SpecMessage;

    open spec fn view(&self) -> SpecMessage {
        SpecMessage { part_name: self.part_name@, part_element: self.part_element@ }
    }
}

/// An operation: at most one input and one output message reference, and
/// an optional list of fault references, all by local name.
#[derive(Debug, PartialEq)]
pub struct Operation {
    pub name: String,
    pub input: Option<String>,
    pub output: Option<String>,
    pub faults: Option<Vec<String>>,
}

/// The abstract form of an operation.
pub struct SpecOperation {
    pub name: Seq<char>,
    pub input: Option<Seq<char>>,
    pub output: Option<Seq<char>>,
    pub faults: Option<Seq<Seq<char>>>,
}

impl View for Operation {
    type V = SpecOperation;

    open spec fn view(&self) -> SpecOperation {
        SpecOperation {
            name: self.name@,
            input: self.input.deep_view(),
            output: self.output.deep_view(),
            faults: self.faults.deep_view(),
        }
    }
}

/// The extracted document: the service's name, its target namespace, and
/// the three tables of the model.
#[derive(Debug)]
pub struct Wsdl {
    pub name: String,
    pub target_namespace: String,
    pub types: StrMap<Type>,
    pub messages: StrMap<Message>,
    pub operations: StrMap<Operation>,
}

/// The abstract form of an extracted document.
pub struct SpecWsdl {
    pub name: Seq<char>,
    pub target_namespace: Seq<char>,
    pub types: Map<Seq<char>, SpecType>,
    pub messages: Map<Seq<char>, SpecMessage>,
    pub operations: Map<Seq<char>, SpecOperation>,
}

impl View for Wsdl {
    type V = SpecWsdl;

    open spec fn view(&self) -> SpecWsdl {
        SpecWsdl {
            name: self.name@,
            target_namespace: self.target_namespace@,
            types: self.types@,
            messages: self.messages@,
            operations: self.operations@,
        }
    }
}

/// The simple type a local type name denotes: each of the five recognized
/// names maps to its own variant, case-sensitively; every other name is a
/// reference to a complex type.
pub open spec fn spec_classify(local: Seq<char>) -> SpecSimpleType {
    if local == "boolean"@ {
        SpecSimpleType::Boolean
    } else if local == "string"@ {
        SpecSimpleType::String
    } else if local == "int"@ {
        SpecSimpleType::Int
    } else if local == "float"@ {
        SpecSimpleType::Float
    } else if local == "dateTime"@ {
        SpecSimpleType::DateTime
    } else {
        SpecSimpleType::Complex(local)
    }
}

/// Maps a local type name to the simple type it denotes.
pub fn classify_type_name(local: &str) -> (r: SimpleType)
    ensures
        r@ == spec_classify(local@),
{
    if str_eq(local, "boolean") {
        SimpleType::Boolean
    } else if str_eq(local, "string") {
        SimpleType::String
    } else if str_eq(local, "int") {
        SimpleType::Int
    } else if str_eq(local, "float") {
        SimpleType::Float
    } else if str_eq(local, "dateTime") {
        SimpleType::DateTime
    } else {
        SimpleType::Complex(local.to_owned())
    }
}

/// The cardinality collapse rule: bounds of exactly (0, 1) mean an
/// optional single value and become `nillable` with the bounds cleared;
/// exactly (1, 1) means a required single value, likewise cleared; every
/// other combination passes through unchanged.
pub open spec fn spec_normalize(
    nillable: bool,
    min: Option<Occurence>,
    max: Option<Occurence>,
) -> TypeAttribute {
    if min == Some(Occurence::Num(0)) && max == Some(Occurence::Num(1)) {
        TypeAttribute { nillable: true, min_occurs: None, max_occurs: None }
    } else if min == Some(Occurence::Num(1)) && max == Some(Occurence::Num(1)) {
        TypeAttribute { nillable: false, min_occurs: None, max_occurs: None }
    } else {
        TypeAttribute { nillable, min_occurs: min, max_occurs: max }
    }
}

/// Applies the cardinality collapse rule.
pub fn normalize_occurs(nillable: bool, min: Option<Occurence>, max: Option<Occurence>) -> (r:
    TypeAttribute)
    ensures
        r == spec_normalize(nillable, min, max),
{
    match (min, max) {
        (Some(Occurence::Num(0)), Some(Occurence::Num(1))) => TypeAttribute {
            nillable: true,
            min_occurs: None,
            max_occurs: None,
        },
        (Some(Occurence::Num(1)), Some(Occurence::Num(1))) => TypeAttribute {
            nillable: false,
            min_occurs: None,
            max_occurs: None,
        },
        _ => TypeAttribute { nillable, min_occurs: min, max_occurs: max },
    }
}

} // verus!
