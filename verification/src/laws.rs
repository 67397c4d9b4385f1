//! The extractor's stated laws, proved once and for all against the
//! specification functions that the executable contracts use.

use vstd::prelude::*;

use crate::extract::SpecMembers;
use crate::extract::spec_extract_field;
use crate::extract::spec_extract_type;
use crate::extract::spec_member_step;
use crate::extract::spec_operation_members;
use crate::extract::spec_parse;
use crate::extract::spec_type_body;
use crate::text::has_colon;
use crate::text::lemma_local_name_qualified;
use crate::text::lemma_local_name_unqualified;
use crate::wsdl::Occurence;
use crate::wsdl::SpecSimpleType;
use crate::wsdl::SpecWsdlError;
use crate::wsdl::TypeAttribute;
use crate::wsdl::spec_classify;
use crate::wsdl::spec_normalize;
use crate::xml::XmlElement;
use crate::xml::XmlNode;
use crate::xml::attr_lookup;

verus! {

/// Extraction is deterministic: identical input bytes always yield the
/// identical outcome, document or error.
pub proof fn lemma_parse_deterministic(b1: Seq<u8>, b2: Seq<u8>)
    requires
        b1 == b2,
    ensures
        spec_parse(b1) == spec_parse(b2),
{
}

/// Occurrence bounds of exactly (0, 1) always collapse to an optional
/// single value, and exactly (1, 1) to a required one, with both bounds
/// cleared — whatever the field's literal `nillable` attribute read.
pub proof fn lemma_single_value_collapse(nillable: bool)
    ensures
        spec_normalize(nillable, Some(Occurence::Num(0)), Some(Occurence::Num(1))) == (
        TypeAttribute { nillable: true, min_occurs: None, max_occurs: None }),
        spec_normalize(nillable, Some(Occurence::Num(1)), Some(Occurence::Num(1))) == (
        TypeAttribute { nillable: false, min_occurs: None, max_occurs: None }),
{
}

/// Each of the five recognized local names maps to exactly its own
/// simple type, case-sensitively, and every other local name maps to a
/// complex reference carrying that name.
pub proof fn lemma_type_classification(local: Seq<char>)
    ensures
        spec_classify(local) == SpecSimpleType::Boolean <==> local == "boolean"@,
        spec_classify(local) == SpecSimpleType::String <==> local == "string"@,
        spec_classify(local) == SpecSimpleType::Int <==> local == "int"@,
        spec_classify(local) == SpecSimpleType::Float <==> local == "float"@,
        spec_classify(local) == SpecSimpleType::DateTime <==> local == "dateTime"@,
        local != "boolean"@ && local != "string"@ && local != "int"@ && local != "float"@ && local
            != "dateTime"@ ==> spec_classify(local) == SpecSimpleType::Complex(local),
{
    reveal_strlit("boolean");
    reveal_strlit("string");
    reveal_strlit("int");
    reveal_strlit("float");
    reveal_strlit("dateTime");
    assert("boolean"@.len() == 7);
    assert("string"@.len() == 6);
    assert("int"@.len() == 3);
    assert("float"@.len() == 5);
    assert("dateTime"@.len() == 8);
}

/// A type declared as a bare `complexType` and one declared as any
/// wrapper element whose first child node is that same `complexType`
/// body extract to identical types, provided both carry the same `name`
/// attribute value.
pub proof fn lemma_dual_shape(wrapper: XmlElement, body: XmlElement)
    requires
        wrapper.name@ != "complexType"@,
        body.name@ == "complexType"@,
        wrapper.children@.len() > 0,
        wrapper.children@[0] == XmlNode::Element(body),
        attr_lookup(wrapper.attributes@, "name"@) == attr_lookup(body.attributes@, "name"@),
    ensures
        spec_extract_type(wrapper) == spec_extract_type(body),
{
    assert(spec_type_body(wrapper) == Ok::<XmlElement, SpecWsdlError>(body));
    assert(spec_type_body(body) == Ok::<XmlElement, SpecWsdlError>(body));
}

/// A field whose declared type is written with a namespace prefix,
/// `ns:Local`, extracts exactly as the same field written with the bare
/// `Local`, every other attribute being equal.
pub proof fn lemma_field_prefix_insensitive(f1: XmlElement, f2: XmlElement, ns: Seq<char>, local: Seq<char>)
    requires
        !has_colon(ns),
        !has_colon(local),
        attr_lookup(f1.attributes@, "type"@) == Some(ns + seq![':'] + local),
        attr_lookup(f2.attributes@, "type"@) == Some(local),
        forall|a: Seq<char>|
            a != "type"@ ==> attr_lookup(f1.attributes@, a) == attr_lookup(f2.attributes@, a),
    ensures
        spec_extract_field(f1) == spec_extract_field(f2),
{
    reveal_strlit("type");
    reveal_strlit("name");
    reveal_strlit("nillable");
    reveal_strlit("minOccurs");
    reveal_strlit("maxOccurs");
    assert("name"@ != "type"@) by {
        assert("name"@[0] == 'n');
        assert("type"@[0] == 't');
    }
    assert("nillable"@ != "type"@) by {
        assert("nillable"@.len() == 8);
        assert("type"@.len() == 4);
    }
    assert("minOccurs"@ != "type"@) by {
        assert("minOccurs"@.len() == 9);
    }
    assert("maxOccurs"@ != "type"@) by {
        assert("maxOccurs"@.len() == 9);
    }
    assert(attr_lookup(f1.attributes@, "name"@) == attr_lookup(f2.attributes@, "name"@));
    assert(attr_lookup(f1.attributes@, "nillable"@) == attr_lookup(f2.attributes@, "nillable"@));
    assert(attr_lookup(f1.attributes@, "minOccurs"@) == attr_lookup(f2.attributes@, "minOccurs"@));
    assert(attr_lookup(f1.attributes@, "maxOccurs"@) == attr_lookup(f2.attributes@, "maxOccurs"@));
    lemma_local_name_qualified(ns, local);
    lemma_local_name_unqualified(local);
}

proof fn lemma_members_err_only(s: Seq<XmlNode>)
    requires
        spec_operation_members(s) is Err,
    ensures
        spec_operation_members(s) == Err::<SpecMembers, SpecWsdlError>(
            SpecWsdlError::ElementNotFound("operation member"@),
        ),
    decreases s.len(),
{
    if s.len() > 0 {
        if spec_operation_members(s.drop_last()) is Err {
            lemma_members_err_only(s.drop_last());
        }
    }
}

/// An operation child element that carries a `message` attribute but is
/// neither `input`, `output` nor `fault` never goes silently: the walk
/// over the operation's children fails, and with the structural
/// operation-member error.
pub proof fn lemma_operation_member_misuse(children: Seq<XmlNode>, i: int, c: XmlElement)
    requires
        0 <= i < children.len(),
        children[i] == XmlNode::Element(c),
        attr_lookup(c.attributes@, "message"@) is Some,
        c.name@ != "input"@,
        c.name@ != "output"@,
        c.name@ != "fault"@,
    ensures
        spec_operation_members(children) == Err::<SpecMembers, SpecWsdlError>(
            SpecWsdlError::ElementNotFound("operation member"@),
        ),
    decreases children.len(),
{
    let prefix = children.drop_last();
    if i == children.len() - 1 {
        match spec_operation_members(prefix) {
            Err(e) => {
                lemma_members_err_only(prefix);
            },
            Ok(acc) => {
                assert(spec_member_step(acc, c) == Err::<SpecMembers, SpecWsdlError>(
                    SpecWsdlError::ElementNotFound("operation member"@),
                ));
            },
        }
    } else {
        lemma_operation_member_misuse(prefix, i, c);
    }
}

} // verus!
