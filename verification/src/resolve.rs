//! Resolving destinations: the page index, the named destinations of the
//! catalog and of its name tree, and the page that a destination leads to.

use std::collections::HashMap;
use vstd::prelude::*;
use crate::pdf::{ObjectId, PdfObject, PdfDict, PdfDocument, catalog_spec, deref_spec, dict_get, key, opt_val};
use crate::text::{lossy_text, lossy_utf8};

verus! {

/// The key under which the page index files an object identifier.
pub open spec fn object_key(id: ObjectId) -> u64 {
    (id.0 as int * 65536 + id.1 as int) as u64
}

fn object_key_exec(id: ObjectId) -> (k: u64)
    ensures
        k == object_key(id),
{
    (id.0 as u64) * 65536 + (id.1 as u64)
}

/// The page number of each page object, the later of two entries for one
/// object winning.
pub open spec fn page_map(pages: Seq<(u32, ObjectId)>) -> Map<u64, u32>
    decreases pages.len(),
{
    if pages.len() == 0 {
        Map::empty()
    } else {
        page_map(pages.drop_last()).insert(object_key(pages.last().1), pages.last().0)
    }
}

pub open spec fn map_get(m: Map<u64, u32>, k: u64) -> Option<u32> {
    if m.dom().contains(k) {
        Some(m[k])
    } else {
        None
    }
}

/// The page number of a page object.
pub open spec fn page_number_of(doc: PdfDocument, id: ObjectId) -> Option<u32> {
    map_get(page_map(doc.pages@), object_key(id))
}

/// How many distinct page objects the document has.
pub open spec fn page_object_count(doc: PdfDocument) -> nat {
    page_map(doc.pages@).len()
}

/// The pages of a document by object identifier.
pub struct PageIndex {
    map: HashMap<u64, u32>,
}

impl View for PageIndex {
    type V = Map<u64, u32>;

    closed spec fn view(&self) -> Map<u64, u32> {
        self.map@
    }
}

impl PageIndex {
    /// Files each page under its object identifier.
    pub fn new(pages: &Vec<(u32, ObjectId)>) -> (r: PageIndex)
        ensures
            r@ == page_map(pages@),
    {
        let mut map: HashMap<u64, u32> = HashMap::new();
        let mut i: usize = 0;
        while i < pages.len()
            invariant
                i <= pages@.len(),
                map@ == page_map(pages@.take(i as int)),
            decreases pages.len() - i,
        {
            assert(pages@.take(i + 1).drop_last() =~= pages@.take(i as int));
            let (n, id) = pages[i];
            map.insert(object_key_exec(id), n);
            i = i + 1;
        }
        assert(pages@.take(i as int) =~= pages@);
        PageIndex { map }
    }

    /// The page number filed under an object identifier.
    pub fn page_of(&self, id: ObjectId) -> (r: Option<u32>)
        ensures
            r == map_get(self@, object_key(id)),
    {
        let k = object_key_exec(id);
        match self.map.get(&k) {
            Some(n) => Some(*n),
            None => None,
        }
    }

    /// How many objects are filed.
    pub fn len(&self) -> (r: usize)
        ensures
            r == self@.len(),
    {
        proof {
            broadcast use vstd::std_specs::hash::group_hash_axioms;
        }
        self.map.len()
    }
}

/// The text of a string or name object; empty for any other object.
pub open spec fn object_text_spec(o: PdfObject) -> Seq<char> {
    match o {
        PdfObject::String(v) => lossy_utf8(v@),
        PdfObject::Name(v) => lossy_utf8(v@),
        _ => Seq::empty(),
    }
}

/// The text of a string or name object; empty for any other object.
pub fn object_text(o: &PdfObject) -> (s: String)
    ensures
        s@ == object_text_spec(*o),
{
    match o {
        PdfObject::String(v) => lossy_text(v.as_slice()),
        PdfObject::Name(v) => lossy_text(v.as_slice()),
        _ => String::new(),
    }
}

/// The dictionary stored, directly or by reference, under a key.
pub open spec fn lookup_dict(doc: PdfDocument, d: PdfDict, k: Seq<u8>) -> Option<PdfDict> {
    match dict_get(d, k) {
        Some(v) => match deref_spec(doc, v) {
            Ok(PdfObject::Dictionary(x)) => Some(x),
            _ => None,
        },
        None => None,
    }
}

/// The array stored, directly or by reference, under a key.
pub open spec fn lookup_array(doc: PdfDocument, d: PdfDict, k: Seq<u8>) -> Option<Seq<PdfObject>> {
    match dict_get(d, k) {
        Some(v) => match deref_spec(doc, v) {
            Ok(PdfObject::Array(x)) => Some(x@),
            _ => None,
        },
        None => None,
    }
}

/// A list of named destinations read as text and object.
pub open spec fn named_view(v: Seq<(String, &PdfObject)>) -> Seq<(Seq<char>, PdfObject)> {
    v.map_values(|p: (String, &PdfObject)| (p.0@, *p.1))
}

/// The entries of a destination dictionary, keys decoded as text.
pub open spec fn dict_destinations(d: PdfDict) -> Seq<(Seq<char>, PdfObject)> {
    d.entries@.map_values(|e: (Vec<u8>, PdfObject)| (lossy_utf8(e.0@), e.1))
}

/// The pairs of a name tree's `Names` array; an odd last item is ignored.
pub open spec fn name_array_pairs(a: Seq<PdfObject>) -> Seq<(Seq<char>, PdfObject)> {
    Seq::new(a.len() / 2, |k: int| (object_text_spec(a[2 * k]), a[2 * k + 1]))
}

/// The named destinations of a name tree node and its descendants, in
/// order; nodes deeper than 32 levels are not read.
pub open spec fn name_tree(doc: PdfDocument, obj: PdfObject, depth: nat) -> Seq<(Seq<char>, PdfObject)>
    decreases 33 - depth, 0nat,
{
    if depth > 32 {
        Seq::empty()
    } else {
        match deref_spec(doc, obj) {
            Ok(PdfObject::Dictionary(d)) => {
                let own = match lookup_array(doc, d, key("Names")) {
                    Some(a) => name_array_pairs(a),
                    None => Seq::empty(),
                };
                let below = match lookup_array(doc, d, key("Kids")) {
                    Some(kids) => name_tree_kids(doc, kids, depth + 1),
                    None => Seq::empty(),
                };
                own + below
            },
            _ => Seq::empty(),
        }
    }
}

/// The named destinations of a list of name tree nodes, in order.
pub open spec fn name_tree_kids(doc: PdfDocument, kids: Seq<PdfObject>, depth: nat) -> Seq<(Seq<char>, PdfObject)>
    decreases 33 - depth, kids.len(),
{
    if kids.len() == 0 || depth > 33 {
        Seq::empty()
    } else {
        name_tree_kids(doc, kids.drop_last(), depth) + name_tree(doc, kids.last(), depth)
    }
}

/// All named destinations of a document, in the order they are defined:
/// those of the catalog's `Dests` dictionary, then those of the `Dests`
/// name tree.
pub open spec fn named_destinations(doc: PdfDocument) -> Seq<(Seq<char>, PdfObject)> {
    match catalog_spec(doc) {
        None => Seq::empty(),
        Some(cat) => {
            let from_dict = match lookup_dict(doc, cat, key("Dests")) {
                Some(d) => dict_destinations(d),
                None => Seq::empty(),
            };
            let from_tree = match lookup_dict(doc, cat, key("Names")) {
                Some(names) => match dict_get(names, key("Dests")) {
                    Some(tree) => name_tree(doc, tree, 0),
                    None => Seq::empty(),
                },
                None => Seq::empty(),
            };
            from_dict + from_tree
        },
    }
}

/// The object of the first destination with the given name.
pub open spec fn first_named(pairs: Seq<(Seq<char>, PdfObject)>, name: Seq<char>) -> Option<PdfObject>
    decreases pairs.len(),
{
    if pairs.len() == 0 {
        None
    } else if pairs[0].0 == name {
        Some(pairs[0].1)
    } else {
        first_named(pairs.drop_first(), name)
    }
}

/// The page that the first item of an explicit destination designates: a
/// page object by reference, or a zero-based page index. An index is a page
/// only when it is below the number of page objects (and the page number
/// fits in 32 bits); any other index designates no page.
pub open spec fn first_item_page(doc: PdfDocument, first: PdfObject) -> Option<u32> {
    match first {
        PdfObject::Reference(id) => page_number_of(doc, id),
        PdfObject::Integer(i) => if 0 <= i && i < page_object_count(doc) && i < u32::MAX {
            Some((i + 1) as u32)
        } else {
            None
        },
        _ => None,
    }
}

/// The page a destination resolves to.
pub open spec fn destination_page_spec(doc: PdfDocument, obj: PdfObject) -> Option<u32> {
    match deref_spec(doc, obj) {
        Err(_) => None,
        Ok(o) => {
            let target = match o {
                PdfObject::Dictionary(d) => match dict_get(d, key("D")) {
                    Some(v) => match deref_spec(doc, v) {
                        Ok(x) => x,
                        Err(_) => o,
                    },
                    None => o,
                },
                _ => o,
            };
            match target {
                PdfObject::Array(items) => if items@.len() == 0 {
                    None
                } else {
                    first_item_page(doc, items@[0])
                },
                _ => None,
            }
        },
    }
}


fn lookup_dict_exec<'a>(doc: &'a PdfDocument, d: &'a PdfDict, k: &[u8]) -> (r: Option<&'a PdfDict>)
    ensures
        opt_val(r) == lookup_dict(*doc, *d, k@),
{
    match d.get(k) {
        Some(v) => match doc.deref(v) {
            Ok(PdfObject::Dictionary(x)) => Some(x),
            _ => None,
        },
        None => None,
    }
}

fn lookup_array_exec<'a>(doc: &'a PdfDocument, d: &'a PdfDict, k: &[u8]) -> (r: Option<&'a Vec<PdfObject>>)
    ensures
        match r {
            Some(a) => lookup_array(*doc, *d, k@) == Some(a@),
            None => lookup_array(*doc, *d, k@) is None,
        },
{
    match d.get(k) {
        Some(v) => match doc.deref(v) {
            Ok(PdfObject::Array(x)) => Some(x),
            _ => None,
        },
        None => None,
    }
}

/// Appends the pairs of a name tree's `Names` array.
fn push_name_pairs<'a>(names: &'a Vec<PdfObject>, output: &mut Vec<(String, &'a PdfObject)>)
    ensures
        named_view(final(output)@) == named_view(old(output)@) + name_array_pairs(names@),
{
    let ghost start = named_view(output@);
    let half = names.len() / 2;
    let mut k: usize = 0;
    while k < half
        invariant
            half == names@.len() / 2,
            k <= half,
            named_view(output@) == start + name_array_pairs(names@).take(k as int),
        decreases half - k,
    {
        assert(2 * k + 1 < names.len()) by (nonlinear_arith)
            requires
                k < half,
                half == names.len() / 2,
        ;
        let text = object_text(&names[2 * k]);
        let ghost prev = output@;
        output.push((text, &names[2 * k + 1]));
        assert(output@ == prev.push((text, &names[2 * k + 1])));
        assert(named_view(output@) =~= named_view(prev).push((text@, names@[2 * k + 1])));
        assert(name_array_pairs(names@).take(k + 1) =~= name_array_pairs(names@).take(k as int).push(
            (object_text_spec(names@[2 * k]), names@[2 * k + 1]),
        ));
        assert(named_view(output@) =~= start + name_array_pairs(names@).take(k + 1));
        k = k + 1;
    }
    assert(name_array_pairs(names@).take(half as int) =~= name_array_pairs(names@));
}

/// Appends the named destinations of a name tree node and its descendants.
fn collect_name_tree<'a>(
    doc: &'a PdfDocument,
    object: &'a PdfObject,
    output: &mut Vec<(String, &'a PdfObject)>,
    depth: u8,
)
    ensures
        named_view(final(output)@) == named_view(old(output)@) + name_tree(*doc, *object, depth as nat),
    decreases 33 - depth,
{
    if depth > 32 {
        assert(named_view(output@) =~= named_view(output@) + Seq::<(Seq<char>, PdfObject)>::empty());
        return;
    }
    let ghost start = named_view(output@);
    let d = match doc.deref(object) {
        Ok(PdfObject::Dictionary(d)) => d,
        _ => {
            assert(named_view(output@) =~= start + Seq::<(Seq<char>, PdfObject)>::empty());
            return;
        },
    };
    let ghost own = match lookup_array(*doc, *d, key("Names")) {
        Some(a) => name_array_pairs(a),
        None => Seq::empty(),
    };
    match lookup_array_exec(doc, d, "Names".as_bytes()) {
        Some(names) => {
            push_name_pairs(names, output);
        },
        None => {
            assert(named_view(output@) =~= start + own);
        },
    }
    let ghost mid = named_view(output@);
    assert(mid == start + own);
    match lookup_array_exec(doc, d, "Kids".as_bytes()) {
        Some(kids) => {
            let mut i: usize = 0;
            while i < kids.len()
                invariant
                    depth <= 32,
                    i <= kids@.len(),
                    named_view(output@) == mid + name_tree_kids(*doc, kids@.take(i as int), depth as nat + 1),
                decreases kids.len() - i,
            {
                collect_name_tree(doc, &kids[i], output, depth + 1);
                assert(kids@.take(i + 1).drop_last() =~= kids@.take(i as int));
                assert(named_view(output@) =~= mid + name_tree_kids(*doc, kids@.take(i + 1), depth as nat + 1));
                i = i + 1;
            }
            assert(kids@.take(i as int) =~= kids@);
            assert(named_view(output@) =~= start + name_tree(*doc, *object, depth as nat));
        },
        None => {
            assert(named_view(output@) =~= start + name_tree(*doc, *object, depth as nat));
        },
    }
}

/// The named destinations of a document, in the order they are defined.
pub fn collect_named_destinations<'a>(doc: &'a PdfDocument) -> (r: Vec<(String, &'a PdfObject)>)
    ensures
        named_view(r@) == named_destinations(*doc),
{
    let mut output: Vec<(String, &'a PdfObject)> = Vec::new();
    let catalog = match doc.catalog() {
        Some(c) => c,
        None => {
            assert(named_view(output@) =~= named_destinations(*doc));
            return output;
        },
    };
    match lookup_dict_exec(doc, catalog, "Dests".as_bytes()) {
        Some(dests) => {
            let mut i: usize = 0;
            while i < dests.entries.len()
                invariant
                    i <= dests.entries@.len(),
                    named_view(output@) == dict_destinations(*dests).take(i as int),
                decreases dests.entries.len() - i,
            {
                let name = lossy_text(dests.entries[i].0.as_slice());
                let ghost prev = output@;
                output.push((name, &dests.entries[i].1));
                assert(named_view(output@) =~= named_view(prev).push((name@, dests.entries@[i as int].1)));
                assert(named_view(output@) =~= dict_destinations(*dests).take(i + 1));
                i = i + 1;
            }
            assert(dict_destinations(*dests).take(i as int) =~= dict_destinations(*dests));
        },
        None => {
            assert(named_view(output@) =~= Seq::<(Seq<char>, PdfObject)>::empty());
        },
    }
    let ghost from_dict = named_view(output@);
    match lookup_dict_exec(doc, catalog, "Names".as_bytes()) {
        Some(names) => match names.get("Dests".as_bytes()) {
            Some(tree) => {
                collect_name_tree(doc, tree, &mut output, 0);
            },
            None => {
                assert(named_view(output@) =~= from_dict + Seq::<(Seq<char>, PdfObject)>::empty());
            },
        },
        None => {
            assert(named_view(output@) =~= from_dict + Seq::<(Seq<char>, PdfObject)>::empty());
        },
    }
    output
}


/// A document together with its page index and its named destinations:
/// what resolving a destination needs.
pub struct Resolver<'a> {
    doc: &'a PdfDocument,
    pages: PageIndex,
    named: Vec<(String, &'a PdfObject)>,
}

impl<'a> Resolver<'a> {
    #[verifier::type_invariant]
    closed spec fn well_formed(self) -> bool {
        &&& self.pages@ == page_map(self.doc.pages@)
        &&& named_view(self.named@) == named_destinations(*self.doc)
    }

    /// The document that destinations are resolved in.
    pub closed spec fn document(self) -> PdfDocument {
        *self.doc
    }

    /// Indexes the pages and collects the named destinations of a document.
    pub fn new(doc: &'a PdfDocument) -> (r: Resolver<'a>)
        ensures
            r.document() == *doc,
    {
        let pages = PageIndex::new(&doc.pages);
        let named = collect_named_destinations(doc);
        Resolver { doc, pages, named }
    }

    /// The document that destinations are resolved in.
    pub fn doc(&self) -> (d: &'a PdfDocument)
        ensures
            *d == self.document(),
    {
        self.doc
    }

    /// The named destinations, in the order they are defined.
    pub fn named(&self) -> (n: &Vec<(String, &'a PdfObject)>)
        ensures
            named_view(n@) == named_destinations(self.document()),
    {
        proof {
            use_type_invariant(self);
        }
        &self.named
    }

    /// The object of the first destination with the given name.
    pub fn lookup_named(&self, name: &String) -> (r: Option<&'a PdfObject>)
        ensures
            opt_val(r) == first_named(named_destinations(self.document()), name@),
    {
        proof {
            use_type_invariant(self);
        }
        let named = &self.named;
        let ghost pairs = named_view(named@);
        let mut i: usize = 0;
        assert(pairs.skip(0) =~= pairs);
        while i < named.len()
            invariant
                pairs == named_view(named@),
                pairs == named_destinations(self.document()),
                i <= named@.len(),
                first_named(pairs, name@) == first_named(pairs.skip(i as int), name@),
            decreases named.len() - i,
        {
            assert(pairs.skip(i as int)[0] == pairs[i as int]);
            assert(pairs.skip(i as int).drop_first() =~= pairs.skip(i + 1));
            if named[i].0 == *name {
                assert(pairs[i as int] == (named@[i as int].0@, *named@[i as int].1));
                return Some(named[i].1);
            }
            i = i + 1;
        }
        None
    }

    /// The page a destination resolves to.
    pub fn destination_page(&self, obj: &PdfObject) -> (r: Option<u32>)
        ensures
            r == destination_page_spec(self.document(), *obj),
    {
        proof {
            use_type_invariant(self);
        }
        let doc = self.doc;
        let o = match doc.deref(obj) {
            Ok(o) => o,
            Err(_) => {
                return None;
            },
        };
        let target: &PdfObject = match o {
            PdfObject::Dictionary(d) => match d.get("D".as_bytes()) {
                Some(v) => match doc.deref(v) {
                    Ok(x) => x,
                    Err(_) => o,
                },
                None => o,
            },
            _ => o,
        };
        let items = match target {
            PdfObject::Array(items) => items,
            _ => {
                return None;
            },
        };
        if items.len() == 0 {
            return None;
        }
        match &items[0] {
            PdfObject::Reference(id) => self.pages.page_of(*id),
            PdfObject::Integer(i) => {
                let count = self.pages.len() as u64;
                if *i >= 0 && (*i as u64) < count && (*i as u64) < (u32::MAX as u64) {
                    Some((*i as u32) + 1)
                } else {
                    None
                }
            },
            _ => None,
        }
    }
}

} // verus!
