//! Parsing the bytes of a PDF file into the document model.

use vstd::prelude::*;
use crate::pdf::{PdfDict, PdfDocument, PdfObject};

verus! {

#[verifier::external_type_specification]
#[verifier::external_body]
pub struct ExLopdfObject(lopdf::Object);

#[verifier::external_type_specification]
#[verifier::external_body]
pub struct ExLopdfDictionary(lopdf::Dictionary);

/// The model of an object that `lopdf` parsed: the same variant with the
/// same contents, a real number kept as its bit pattern and a stream as its
/// dictionary. Used only by `parse_pdf`; it states nothing.
#[verifier::external_body]
fn model_object(o: &lopdf::Object) -> PdfObject {
    match o {
        lopdf::Object::Null => PdfObject::Null,
        lopdf::Object::Boolean(b) => PdfObject::Boolean(*b),
        lopdf::Object::Integer(i) => PdfObject::Integer(*i),
        lopdf::Object::Real(r) => PdfObject::Real(r.to_bits()),
        lopdf::Object::Name(v) => PdfObject::Name(v.clone()),
        lopdf::Object::String(v, _) => PdfObject::String(v.clone()),
        lopdf::Object::Array(a) => PdfObject::Array(a.iter().map(model_object).collect()),
        lopdf::Object::Dictionary(d) => PdfObject::Dictionary(model_dict(d)),
        lopdf::Object::Stream(s) => PdfObject::Stream(model_dict(&s.dict)),
        lopdf::Object::Reference(id) => PdfObject::Reference(*id),
    }
}

/// The model of a dictionary that `lopdf` parsed: its entries in order.
/// Used only by `parse_pdf`; it states nothing.
#[verifier::external_body]
fn model_dict(d: &lopdf::Dictionary) -> PdfDict {
    PdfDict { entries: d.iter().map(|(k, v)| (k.clone(), model_object(v))).collect() }
}

/// Parses the bytes of a PDF file with `lopdf::Document::load_mem`, and
/// reads the page list with `Document::get_pages`; the document is converted
/// one for one into the model. Trusted, and nothing is stated of the result:
/// `lopdf` may parse the objects on a thread pool and merge the members of
/// object streams in the order the threads finish, and for an encrypted file
/// it walks the object streams in the order of a `HashMap`, so the same bytes
/// can give different documents; nor is its grammar stated here.
#[verifier::external_body]
pub(crate) fn parse_pdf(bytes: &[u8]) -> (r: Result<PdfDocument, String>) {
    match lopdf::Document::load_mem(bytes) {
        Ok(doc) => Ok(PdfDocument {
            objects: doc.objects.iter().map(|(id, o)| (*id, model_object(o))).collect(),
            trailer: model_dict(&doc.trailer),
            pages: doc.get_pages().into_iter().collect(),
        }),
        Err(e) => Err(e.to_string()),
    }
}

} // verus!
