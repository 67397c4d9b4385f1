//! End-to-end extraction: whole documents in, typed models or errors out.

use wsdl_model::Message;
use wsdl_model::Occurence;
use wsdl_model::SimpleType;
use wsdl_model::StrMap;
use wsdl_model::Type;
use wsdl_model::TypeAttribute;
use wsdl_model::Wsdl;
use wsdl_model::WsdlError;
use wsdl_model::parse;

fn document(types: &str, rest: &str) -> Vec<u8> {
    format!(
        r#"<definitions targetNamespace="urn:example">
  <types>
    <schema>
{}
    </schema>
  </types>
{}
  <portType name="Port">
  </portType>
  <service name="ExampleService"/>
</definitions>"#,
        types, rest
    )
    .into_bytes()
}

fn person_document() -> Vec<u8> {
    br#"<definitions targetNamespace="urn:people">
  <types>
    <schema>
      <element name="Person">
        <complexType>
          <sequence>
            <element name="name" type="xs:string"/>
            <element name="age" type="xs:int" minOccurs="0" maxOccurs="1"/>
          </sequence>
        </complexType>
      </element>
    </schema>
  </types>
  <message name="PersonMsg">
    <part name="body" element="tns:Person"/>
  </message>
  <portType name="PersonPort">
    <operation name="GetPerson">
      <input message="tns:PersonMsg"/>
    </operation>
  </portType>
  <service name="PersonService"/>
</definitions>"#
        .to_vec()
}

fn fields_of<'a>(w: &'a Wsdl, name: &str) -> &'a StrMap<(TypeAttribute, SimpleType)> {
    match w.types.get(name) {
        Some(Type::Complex(ct)) => &ct.fields,
        Some(Type::Simple(_)) => panic!("expected a complex type"),
        None => panic!("type not found"),
    }
}

fn plain() -> TypeAttribute {
    TypeAttribute { nillable: false, min_occurs: None, max_occurs: None }
}

#[test]
fn parse_example() {
    let res = parse(&person_document());
    println!("res: {:?}", res);
    res.unwrap();
}

#[test]
fn person_end_to_end() {
    let w = parse(&person_document()).unwrap();
    assert_eq!(w.name, "PersonService");
    assert_eq!(w.target_namespace, "urn:people");

    let fields = fields_of(&w, "Person");
    let name = fields.get("name").unwrap();
    assert_eq!(name.0, plain());
    assert_eq!(name.1, SimpleType::String);
    let age = fields.get("age").unwrap();
    assert_eq!(age.0, TypeAttribute { nillable: true, min_occurs: None, max_occurs: None });
    assert_eq!(age.1, SimpleType::Int);

    let msg = w.messages.get("PersonMsg").unwrap();
    assert_eq!(*msg, Message { part_name: "body".to_string(), part_element: "Person".to_string() });

    let op = w.operations.get("GetPerson").unwrap();
    assert_eq!(op.name, "GetPerson");
    assert_eq!(op.input, Some("PersonMsg".to_string()));
    assert_eq!(op.output, None);
    assert_eq!(op.faults, None);
}

#[test]
fn dual_shape_equivalence() {
    let bare = document(
        r#"<complexType name="X"><sequence>
             <element name="a" type="xs:string"/>
             <element name="b" type="xs:int"/>
           </sequence></complexType>"#,
        "",
    );
    let wrapped = document(
        r#"<element name="X"><complexType><sequence>
             <element name="a" type="xs:string"/>
             <element name="b" type="xs:int"/>
           </sequence></complexType></element>"#,
        "",
    );
    let w1 = parse(&bare).unwrap();
    let w2 = parse(&wrapped).unwrap();
    let f1 = fields_of(&w1, "X");
    let f2 = fields_of(&w2, "X");
    for key in ["a", "b"] {
        assert_eq!(f1.get(key).unwrap(), f2.get(key).unwrap());
    }
    assert_eq!(f1.get("a").unwrap().1, SimpleType::String);
    assert_eq!(f1.get("b").unwrap().1, SimpleType::Int);
}

#[test]
fn prefix_stripping_is_invisible() {
    let qualified = document(
        r#"<complexType name="T"><sequence>
             <element name="w" type="ns:Widget"/>
           </sequence></complexType>"#,
        "",
    );
    let bare = document(
        r#"<complexType name="T"><sequence>
             <element name="w" type="Widget"/>
           </sequence></complexType>"#,
        "",
    );
    let w1 = parse(&qualified).unwrap();
    let w2 = parse(&bare).unwrap();
    assert_eq!(fields_of(&w1, "T").get("w").unwrap(), fields_of(&w2, "T").get("w").unwrap());
    assert_eq!(fields_of(&w1, "T").get("w").unwrap().1, SimpleType::Complex("Widget".to_string()));
}

#[test]
fn classification_of_type_names() {
    let doc = document(
        r#"<complexType name="T"><sequence>
             <element name="a" type="xs:boolean"/>
             <element name="b" type="xs:string"/>
             <element name="c" type="xs:int"/>
             <element name="d" type="xs:float"/>
             <element name="e" type="xs:dateTime"/>
             <element name="f" type="xs:Custom"/>
             <element name="g" type="xs:Boolean"/>
           </sequence></complexType>"#,
        "",
    );
    let w = parse(&doc).unwrap();
    let fields = fields_of(&w, "T");
    assert_eq!(fields.get("a").unwrap().1, SimpleType::Boolean);
    assert_eq!(fields.get("b").unwrap().1, SimpleType::String);
    assert_eq!(fields.get("c").unwrap().1, SimpleType::Int);
    assert_eq!(fields.get("d").unwrap().1, SimpleType::Float);
    assert_eq!(fields.get("e").unwrap().1, SimpleType::DateTime);
    assert_eq!(fields.get("f").unwrap().1, SimpleType::Complex("Custom".to_string()));
    assert_eq!(fields.get("g").unwrap().1, SimpleType::Complex("Boolean".to_string()));
}

#[test]
fn occurrence_normalization() {
    let doc = document(
        r#"<complexType name="T"><sequence>
             <element name="opt" type="xs:int" nillable="false" minOccurs="0" maxOccurs="1"/>
             <element name="req" type="xs:int" nillable="true" minOccurs="1" maxOccurs="1"/>
             <element name="many" type="xs:int" nillable="true" minOccurs="0" maxOccurs="unbounded"/>
             <element name="low" type="xs:int" minOccurs="0"/>
           </sequence></complexType>"#,
        "",
    );
    let w = parse(&doc).unwrap();
    let fields = fields_of(&w, "T");
    assert_eq!(
        fields.get("opt").unwrap().0,
        TypeAttribute { nillable: true, min_occurs: None, max_occurs: None }
    );
    assert_eq!(
        fields.get("req").unwrap().0,
        TypeAttribute { nillable: false, min_occurs: None, max_occurs: None }
    );
    assert_eq!(
        fields.get("many").unwrap().0,
        TypeAttribute {
            nillable: true,
            min_occurs: Some(Occurence::Num(0)),
            max_occurs: Some(Occurence::Unbounded),
        }
    );
    assert_eq!(
        fields.get("low").unwrap().0,
        TypeAttribute { nillable: false, min_occurs: Some(Occurence::Num(0)), max_occurs: None }
    );
}

#[test]
fn duplicate_names_last_write_wins() {
    let doc = document(
        r#"<complexType name="Dup"><sequence>
             <element name="first" type="xs:int"/>
           </sequence></complexType>
           <complexType name="Dup"><sequence>
             <element name="second" type="xs:string"/>
           </sequence></complexType>"#,
        "",
    );
    let w = parse(&doc).unwrap();
    let fields = fields_of(&w, "Dup");
    assert!(fields.get("first").is_none());
    assert_eq!(fields.get("second").unwrap().1, SimpleType::String);
}

#[test]
fn operation_members() {
    let doc = br#"<definitions targetNamespace="urn:ops">
  <types><schema></schema></types>
  <portType name="Port">
    <operation name="Op">
      <documentation/>
      <input message="tns:InOld"/>
      <input message="tns:In"/>
      <output message="tns:Out"/>
      <fault message="tns:F1"/>
      <fault message="tns:F2"/>
    </operation>
  </portType>
  <service name="S"/>
</definitions>"#;
    let w = parse(doc).unwrap();
    let op = w.operations.get("Op").unwrap();
    assert_eq!(op.input, Some("In".to_string()));
    assert_eq!(op.output, Some("Out".to_string()));
    assert_eq!(op.faults, Some(vec!["F1".to_string(), "F2".to_string()]));
}

#[test]
fn operation_member_misuse() {
    let doc = br#"<definitions targetNamespace="urn:ops">
  <types><schema></schema></types>
  <portType name="Port">
    <operation name="Op">
      <wibble message="tns:M"/>
    </operation>
  </portType>
  <service name="S"/>
</definitions>"#;
    let err = parse(doc).unwrap_err();
    assert_eq!(err, WsdlError::ElementNotFound("operation member"));
}

#[test]
fn comments_and_text_are_skipped() {
    let doc = br#"<definitions targetNamespace="urn:c">
  <types><!-- leading comment --><schema><complexType name="T"><sequence>
  </sequence></complexType></schema></types>
  <message name="M"><!-- before part --><part name="p" element="E"/></message>
  <portType name="Port"></portType>
  <service name="S"/>
</definitions>"#;
    let w = parse(doc).unwrap();
    assert!(w.types.get("T").is_some());
    assert_eq!(w.messages.get("M").unwrap().part_element, "E");
}

#[test]
fn malformed_input_is_a_parse_error() {
    let err = parse(b"<definitions").unwrap_err();
    assert!(matches!(err, WsdlError::Parse(_)));
}
