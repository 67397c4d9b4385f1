//! A verified extractor of a typed service model from WSDL documents.
//!
//! The crate walks a generic XML element tree and synthesizes the typed
//! model of a SOAP-style service description: its data types, abstract
//! messages, and operations.  The XML text itself is parsed by the
//! `xmltree` crate; everything done on the resulting tree is verified.

pub mod extract;
pub mod laws;
pub mod strmap;
pub mod text;
pub mod wsdl;
pub mod xml;

pub use crate::extract::extract_document;
pub use crate::extract::parse;
pub use crate::strmap::StrMap;
pub use crate::text::split_namespace;
pub use crate::xml::XmlElement;
pub use crate::xml::XmlNode;
pub use crate::wsdl::ComplexType;
pub use crate::wsdl::Message;
pub use crate::wsdl::Occurence;
pub use crate::wsdl::Operation;
pub use crate::wsdl::SimpleType;
pub use crate::wsdl::Type;
pub use crate::wsdl::TypeAttribute;
pub use crate::wsdl::Wsdl;
pub use crate::wsdl::WsdlError;
