//! Each structurally required site, when absent or malformed, yields its
//! own specific error kind, never a generic failure.

use wsdl_model::WsdlError;
use wsdl_model::parse;

#[test]
fn missing_target_namespace() {
    let doc = br#"<definitions>
  <types><schema></schema></types>
  <portType name="Port"></portType>
  <service name="S"/>
</definitions>"#;
    assert_eq!(parse(doc).unwrap_err(), WsdlError::AttributeNotFound("targetNamespace"));
}

#[test]
fn missing_types_element() {
    let doc = br#"<definitions targetNamespace="urn:x">
  <portType name="Port"></portType>
  <service name="S"/>
</definitions>"#;
    assert_eq!(parse(doc).unwrap_err(), WsdlError::ElementNotFound("types"));
}

#[test]
fn empty_types_element() {
    let doc = br#"<definitions targetNamespace="urn:x">
  <types></types>
  <portType name="Port"></portType>
  <service name="S"/>
</definitions>"#;
    assert_eq!(parse(doc).unwrap_err(), WsdlError::Empty);
}

#[test]
fn missing_port_type() {
    let doc = br#"<definitions targetNamespace="urn:x">
  <types><schema></schema></types>
  <service name="S"/>
</definitions>"#;
    assert_eq!(parse(doc).unwrap_err(), WsdlError::ElementNotFound("portType"));
}

#[test]
fn missing_service() {
    let doc = br#"<definitions targetNamespace="urn:x">
  <types><schema></schema></types>
  <portType name="Port"></portType>
</definitions>"#;
    assert_eq!(parse(doc).unwrap_err(), WsdlError::ElementNotFound("service"));
}

#[test]
fn service_without_name() {
    let doc = br#"<definitions targetNamespace="urn:x">
  <types><schema></schema></types>
  <portType name="Port"></portType>
  <service/>
</definitions>"#;
    assert_eq!(parse(doc).unwrap_err(), WsdlError::AttributeNotFound("name"));
}

#[test]
fn type_without_name() {
    let doc = br#"<definitions targetNamespace="urn:x">
  <types><schema><complexType><sequence></sequence></complexType></schema></types>
  <portType name="Port"></portType>
  <service name="S"/>
</definitions>"#;
    assert_eq!(parse(doc).unwrap_err(), WsdlError::AttributeNotFound("name"));
}

#[test]
fn field_without_name() {
    let doc = br#"<definitions targetNamespace="urn:x">
  <types><schema><complexType name="T"><sequence>
    <element type="xs:int"/>
  </sequence></complexType></schema></types>
  <portType name="Port"></portType>
  <service name="S"/>
</definitions>"#;
    assert_eq!(parse(doc).unwrap_err(), WsdlError::AttributeNotFound("name"));
}

#[test]
fn field_without_type() {
    let doc = br#"<definitions targetNamespace="urn:x">
  <types><schema><complexType name="T"><sequence>
    <element name="f"/>
  </sequence></complexType></schema></types>
  <portType name="Port"></portType>
  <service name="S"/>
</definitions>"#;
    assert_eq!(parse(doc).unwrap_err(), WsdlError::AttributeNotFound("type"));
}

#[test]
fn message_without_name() {
    let doc = br#"<definitions targetNamespace="urn:x">
  <types><schema></schema></types>
  <message><part name="p" element="E"/></message>
  <portType name="Port"></portType>
  <service name="S"/>
</definitions>"#;
    assert_eq!(parse(doc).unwrap_err(), WsdlError::AttributeNotFound("name"));
}

#[test]
fn message_without_part() {
    let doc = br#"<definitions targetNamespace="urn:x">
  <types><schema></schema></types>
  <message name="M"></message>
  <portType name="Port"></portType>
  <service name="S"/>
</definitions>"#;
    assert_eq!(parse(doc).unwrap_err(), WsdlError::Empty);
}

#[test]
fn part_without_element() {
    let doc = br#"<definitions targetNamespace="urn:x">
  <types><schema></schema></types>
  <message name="M"><part name="p"/></message>
  <portType name="Port"></portType>
  <service name="S"/>
</definitions>"#;
    assert_eq!(parse(doc).unwrap_err(), WsdlError::AttributeNotFound("element"));
}

#[test]
fn operation_without_name() {
    let doc = br#"<definitions targetNamespace="urn:x">
  <types><schema></schema></types>
  <portType name="Port"><operation/></portType>
  <service name="S"/>
</definitions>"#;
    assert_eq!(parse(doc).unwrap_err(), WsdlError::AttributeNotFound("name"));
}

#[test]
fn type_declaration_not_complex() {
    let doc = br#"<definitions targetNamespace="urn:x">
  <types><schema><simpleType name="S2"><restriction/></simpleType></schema></types>
  <portType name="Port"></portType>
  <service name="S"/>
</definitions>"#;
    assert_eq!(parse(doc).unwrap_err(), WsdlError::Unsupported("not a complex type"));
}

#[test]
fn wrapper_without_body() {
    let doc = br#"<definitions targetNamespace="urn:x">
  <types><schema><element name="X"></element></schema></types>
  <portType name="Port"></portType>
  <service name="S"/>
</definitions>"#;
    assert_eq!(parse(doc).unwrap_err(), WsdlError::Empty);
}

#[test]
fn wrapper_with_text_body() {
    let doc = br#"<definitions targetNamespace="urn:x">
  <types><schema><element name="X">just text</element></schema></types>
  <portType name="Port"></portType>
  <service name="S"/>
</definitions>"#;
    assert_eq!(parse(doc).unwrap_err(), WsdlError::NotAnElement);
}

#[test]
fn complex_type_without_container() {
    let doc = br#"<definitions targetNamespace="urn:x">
  <types><schema><complexType name="T"></complexType></schema></types>
  <portType name="Port"></portType>
  <service name="S"/>
</definitions>"#;
    assert_eq!(parse(doc).unwrap_err(), WsdlError::Empty);
}

#[test]
fn occurrence_not_a_number() {
    let doc = br#"<definitions targetNamespace="urn:x">
  <types><schema><complexType name="T"><sequence>
    <element name="f" type="xs:int" minOccurs="lots"/>
  </sequence></complexType></schema></types>
  <portType name="Port"></portType>
  <service name="S"/>
</definitions>"#;
    assert_eq!(parse(doc).unwrap_err(), WsdlError::Unsupported("occurence should be a number"));
}

#[test]
fn occurrence_too_large() {
    let doc = br#"<definitions targetNamespace="urn:x">
  <types><schema><complexType name="T"><sequence>
    <element name="f" type="xs:int" maxOccurs="4294967296"/>
  </sequence></complexType></schema></types>
  <portType name="Port"></portType>
  <service name="S"/>
</definitions>"#;
    assert_eq!(parse(doc).unwrap_err(), WsdlError::Unsupported("occurence should be a number"));
}
