//! A plain-value model of a loaded PDF document: its indirect objects, its
//! trailer and its page list, with the lookups that the audit performs on it.

use vstd::prelude::*;
use vstd::string::StringSliceAdditionalSpecFns;
use crate::text::{bytes_eq, decimal, push_decimal};

verus! {

/// An indirect object's number and generation.
pub type ObjectId = (u32, u16);

/// A PDF object.
#[derive(Debug)]
pub enum PdfObject {
    Null,
    Boolean(bool),
    Integer(i64),
    /// A real number, held as the bit pattern of its single-precision value.
    Real(u32),
    Name(Vec<u8>),
    String(Vec<u8>),
    Array(Vec<PdfObject>),
    Dictionary(PdfDict),
    /// A stream, of which only the dictionary is kept.
    Stream(PdfDict),
    Reference(ObjectId),
}

/// A dictionary: its entries in their original order, with distinct keys.
#[derive(Debug)]
pub struct PdfDict {
    pub entries: Vec<(Vec<u8>, PdfObject)>,
}

/// A loaded document.
#[derive(Debug)]
pub struct PdfDocument {
    /// The indirect objects by identifier.
    pub objects: Vec<(ObjectId, PdfObject)>,
    /// The trailer dictionary.
    pub trailer: PdfDict,
    /// The pages in page order: page number and the page object's identifier.
    pub pages: Vec<(u32, ObjectId)>,
}

/// The variant of a PDF object.
#[derive(Clone, Copy, Debug, PartialEq, Eq, Structural)]
pub enum ObjectKind {
    Null,
    Boolean,
    Integer,
    Real,
    Name,
    String,
    Array,
    Dictionary,
    Stream,
    Reference,
}

/// Why a lookup in the document failed.
#[derive(Clone, Copy, Debug)]
pub enum LookupError {
    /// No object has this identifier.
    ObjectNotFound(ObjectId),
    /// A chain of references is longer than the dereferencing limit.
    ReferenceLimit,
    /// The object is of another variant than the one expected.
    WrongType { expected: ObjectKind, found: ObjectKind },
}

/// How many references a lookup follows in a row before it gives up.
pub const DEREF_LIMIT: usize = 128;

pub open spec fn kind_of(o: PdfObject) -> ObjectKind {
    match o {
        PdfObject::Null => ObjectKind::Null,
        PdfObject::Boolean(_) => ObjectKind::Boolean,
        PdfObject::Integer(_) => ObjectKind::Integer,
        PdfObject::Real(_) => ObjectKind::Real,
        PdfObject::Name(_) => ObjectKind::Name,
        PdfObject::String(_) => ObjectKind::String,
        PdfObject::Array(_) => ObjectKind::Array,
        PdfObject::Dictionary(_) => ObjectKind::Dictionary,
        PdfObject::Stream(_) => ObjectKind::Stream,
        PdfObject::Reference(_) => ObjectKind::Reference,
    }
}

/// The variant of an object.
pub fn object_kind(o: &PdfObject) -> (k: ObjectKind)
    ensures
        k == kind_of(*o),
{
    match o {
        PdfObject::Null => ObjectKind::Null,
        PdfObject::Boolean(_) => ObjectKind::Boolean,
        PdfObject::Integer(_) => ObjectKind::Integer,
        PdfObject::Real(_) => ObjectKind::Real,
        PdfObject::Name(_) => ObjectKind::Name,
        PdfObject::String(_) => ObjectKind::String,
        PdfObject::Array(_) => ObjectKind::Array,
        PdfObject::Dictionary(_) => ObjectKind::Dictionary,
        PdfObject::Stream(_) => ObjectKind::Stream,
        PdfObject::Reference(_) => ObjectKind::Reference,
    }
}

/// The name under which error messages refer to a variant.
pub open spec fn kind_name(k: ObjectKind) -> Seq<char> {
    match k {
        ObjectKind::Null => "Null"@,
        ObjectKind::Boolean => "Boolean"@,
        ObjectKind::Integer => "Integer"@,
        ObjectKind::Real => "Real"@,
        ObjectKind::Name => "Name"@,
        ObjectKind::String => "String"@,
        ObjectKind::Array => "Array"@,
        ObjectKind::Dictionary => "Dictionary"@,
        ObjectKind::Stream => "Stream"@,
        ObjectKind::Reference => "Reference"@,
    }
}

pub fn kind_name_str(k: ObjectKind) -> (s: &'static str)
    ensures
        s@ == kind_name(k),
{
    match k {
        ObjectKind::Null => "Null",
        ObjectKind::Boolean => "Boolean",
        ObjectKind::Integer => "Integer",
        ObjectKind::Real => "Real",
        ObjectKind::Name => "Name",
        ObjectKind::String => "String",
        ObjectKind::Array => "Array",
        ObjectKind::Dictionary => "Dictionary",
        ObjectKind::Stream => "Stream",
        ObjectKind::Reference => "Reference",
    }
}

/// The text of a lookup error, as the PDF reader words it.
pub open spec fn lookup_error_text(e: LookupError) -> Seq<char> {
    match e {
        LookupError::ObjectNotFound(id) => "object ID "@ + decimal(id.0 as nat) + " "@ + decimal(
            id.1 as nat,
        ) + " not found"@,
        LookupError::ReferenceLimit => "dereferencing object reached limit, may indicate a reference cycle"@,
        LookupError::WrongType { expected, found } => "object has wrong type; expected type "@
            + kind_name(expected) + " but found type "@ + kind_name(found),
    }
}

/// Appends the text of a lookup error to `out`.
pub fn push_lookup_error(out: &mut String, e: LookupError)
    ensures
        final(out)@ == old(out)@ + lookup_error_text(e),
{
    match e {
        LookupError::ObjectNotFound(id) => {
            out.append("object ID ");
            push_decimal(out, id.0 as u64);
            out.append(" ");
            push_decimal(out, id.1 as u64);
            out.append(" not found");
        },
        LookupError::ReferenceLimit => {
            out.append("dereferencing object reached limit, may indicate a reference cycle");
        },
        LookupError::WrongType { expected, found } => {
            out.append("object has wrong type; expected type ");
            out.append(kind_name_str(expected));
            out.append(" but found type ");
            out.append(kind_name_str(found));
        },
    }
    assert(final(out)@ =~= old(out)@ + lookup_error_text(e));
}

/// The value of the first entry with the given key.
pub open spec fn entry_lookup(es: Seq<(Vec<u8>, PdfObject)>, key: Seq<u8>) -> Option<PdfObject>
    decreases es.len(),
{
    if es.len() == 0 {
        None
    } else if es[0].0@ == key {
        Some(es[0].1)
    } else {
        entry_lookup(es.drop_first(), key)
    }
}

/// The value stored under a key of a dictionary.
pub open spec fn dict_get(d: PdfDict, key: Seq<u8>) -> Option<PdfObject> {
    entry_lookup(d.entries@, key)
}

/// The object of the first entry with the given identifier.
pub open spec fn object_lookup(objs: Seq<(ObjectId, PdfObject)>, id: ObjectId) -> Option<PdfObject>
    decreases objs.len(),
{
    if objs.len() == 0 {
        None
    } else if objs[0].0 == id {
        Some(objs[0].1)
    } else {
        object_lookup(objs.drop_first(), id)
    }
}

/// An optional reference read as an optional value.
pub open spec fn opt_val<T>(o: Option<&T>) -> Option<T> {
    match o {
        Some(r) => Some(*r),
        None => None,
    }
}

/// A result holding a reference read as a result holding a value.
pub open spec fn res_val<T, E>(r: Result<&T, E>) -> Result<T, E> {
    match r {
        Ok(v) => Ok(*v),
        Err(e) => Err(e),
    }
}

/// Follows references from `obj`, `n` of them having been followed already.
pub open spec fn follow_refs(doc: PdfDocument, obj: PdfObject, n: nat) -> Result<PdfObject, LookupError>
    decreases 128 - n,
{
    match obj {
        PdfObject::Reference(id) => match object_lookup(doc.objects@, id) {
            None => Err(LookupError::ObjectNotFound(id)),
            Some(next) => if n >= 128 {
                Err(LookupError::ReferenceLimit)
            } else {
                follow_refs(doc, next, n + 1)
            },
        },
        _ => Ok(obj),
    }
}

/// The object with an identifier, with references followed.
pub open spec fn get_object_spec(doc: PdfDocument, id: ObjectId) -> Result<PdfObject, LookupError> {
    match object_lookup(doc.objects@, id) {
        None => Err(LookupError::ObjectNotFound(id)),
        Some(o) => follow_refs(doc, o, 0),
    }
}

/// An object with a reference resolved; any other object as it is.
pub open spec fn deref_spec(doc: PdfDocument, obj: PdfObject) -> Result<PdfObject, LookupError> {
    match obj {
        PdfObject::Reference(id) => get_object_spec(doc, id),
        _ => Ok(obj),
    }
}

pub open spec fn as_dict_spec(o: PdfObject) -> Result<PdfDict, LookupError> {
    match o {
        PdfObject::Dictionary(d) => Ok(d),
        _ => Err(LookupError::WrongType { expected: ObjectKind::Dictionary, found: kind_of(o) }),
    }
}

/// A key given as text, as the bytes of a PDF name.
pub open spec fn key(s: &str) -> Seq<u8> {
    s.spec_bytes()
}

impl PdfDict {
    /// The value stored under `key`.
    pub fn get(&self, key: &[u8]) -> (res: Option<&PdfObject>)
        ensures
            opt_val(res) == dict_get(*self, key@),
    {
        let es = &self.entries;
        let mut i: usize = 0;
        assert(es@.skip(0) =~= es@);
        while i < es.len()
            invariant
                es@ == self.entries@,
                i <= es@.len(),
                entry_lookup(es@, key@) == entry_lookup(es@.skip(i as int), key@),
            decreases es.len() - i,
        {
            assert(es@.skip(i as int)[0] == es@[i as int]);
            assert(es@.skip(i as int).drop_first() =~= es@.skip(i + 1));
            if bytes_eq(es[i].0.as_slice(), key) {
                assert(es@[i as int].0@ == key@);
                assert(entry_lookup(es@.skip(i as int), key@) == Some(es@[i as int].1));
                return Some(&es[i].1);
            }
            i = i + 1;
        }
        None
    }
}

pub fn as_dict(o: &PdfObject) -> (res: Result<&PdfDict, LookupError>)
    ensures
        res_val(res) == as_dict_spec(*o),
{
    match o {
        PdfObject::Dictionary(d) => Ok(d),
        _ => Err(LookupError::WrongType { expected: ObjectKind::Dictionary, found: object_kind(o) }),
    }
}

impl PdfDocument {
    /// The object stored under an identifier, without following references.
    pub fn lookup(&self, id: ObjectId) -> (res: Option<&PdfObject>)
        ensures
            opt_val(res) == object_lookup(self.objects@, id),
    {
        let objs = &self.objects;
        let mut i: usize = 0;
        assert(objs@.skip(0) =~= objs@);
        while i < objs.len()
            invariant
                objs@ == self.objects@,
                i <= objs@.len(),
                object_lookup(objs@, id) == object_lookup(objs@.skip(i as int), id),
            decreases objs.len() - i,
        {
            assert(objs@.skip(i as int)[0] == objs@[i as int]);
            assert(objs@.skip(i as int).drop_first() =~= objs@.skip(i + 1));
            if objs[i].0.0 == id.0 && objs[i].0.1 == id.1 {
                assert(objs@[i as int].0 == id);
                assert(object_lookup(objs@.skip(i as int), id) == Some(objs@[i as int].1));
                return Some(&objs[i].1);
            }
            i = i + 1;
        }
        None
    }

    /// Follows references from `object` until a direct object is reached.
    pub fn dereference<'a>(&'a self, object: &'a PdfObject) -> (res: Result<&'a PdfObject, LookupError>)
        ensures
            res_val(res) == follow_refs(*self, *object, 0),
    {
        let mut cur = object;
        let mut n: usize = 0;
        loop
            invariant
                n <= 128,
                follow_refs(*self, *object, 0) == follow_refs(*self, *cur, n as nat),
            decreases 128 - n,
        {
            match cur {
                PdfObject::Reference(id) => {
                    match self.lookup(*id) {
                        None => {
                            return Err(LookupError::ObjectNotFound(*id));
                        },
                        Some(next) => {
                            if n >= DEREF_LIMIT {
                                return Err(LookupError::ReferenceLimit);
                            }
                            cur = next;
                            n = n + 1;
                        },
                    }
                },
                _ => {
                    return Ok(cur);
                },
            }
        }
    }

    /// The object with an identifier, with references followed.
    pub fn get_object(&self, id: ObjectId) -> (res: Result<&PdfObject, LookupError>)
        ensures
            res_val(res) == get_object_spec(*self, id),
    {
        match self.lookup(id) {
            None => Err(LookupError::ObjectNotFound(id)),
            Some(o) => self.dereference(o),
        }
    }

    /// An object with a reference resolved; any other object as it is.
    pub fn deref<'a>(&'a self, obj: &'a PdfObject) -> (res: Result<&'a PdfObject, LookupError>)
        ensures
            res_val(res) == deref_spec(*self, *obj),
    {
        match obj {
            PdfObject::Reference(id) => self.get_object(*id),
            _ => Ok(obj),
        }
    }
}

/// The dictionary that an identifier held in a trailer entry leads to.
pub open spec fn trailer_dict(doc: PdfDocument, k: Seq<u8>) -> Option<PdfDict> {
    match dict_get(doc.trailer, k) {
        Some(PdfObject::Reference(id)) => match get_object_spec(doc, id) {
            Ok(PdfObject::Dictionary(d)) => Some(d),
            _ => None,
        },
        _ => None,
    }
}

/// The document catalog.
pub open spec fn catalog_spec(doc: PdfDocument) -> Option<PdfDict> {
    trailer_dict(doc, key("Root"))
}

/// The document is encrypted: its trailer names an encryption dictionary.
pub open spec fn encrypted_spec(doc: PdfDocument) -> bool {
    trailer_dict(doc, key("Encrypt")) is Some
}

impl PdfDocument {
    fn trailer_dictionary(&self, k: &[u8]) -> (res: Option<&PdfDict>)
        ensures
            opt_val(res) == trailer_dict(*self, k@),
    {
        match self.trailer.get(k) {
            Some(PdfObject::Reference(id)) => match self.get_object(*id) {
                Ok(PdfObject::Dictionary(d)) => Some(d),
                _ => None,
            },
            _ => None,
        }
    }

    /// The document catalog, if the trailer leads to one.
    pub fn catalog(&self) -> (res: Option<&PdfDict>)
        ensures
            opt_val(res) == catalog_spec(*self),
    {
        self.trailer_dictionary("Root".as_bytes())
    }

    /// Whether the trailer names an encryption dictionary.
    pub fn is_encrypted(&self) -> (res: bool)
        ensures
            res == encrypted_spec(*self),
    {
        self.trailer_dictionary("Encrypt".as_bytes()).is_some()
    }
}

} // verus!
