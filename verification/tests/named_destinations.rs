use pdf_link_map::resolve::{collect_named_destinations, Resolver};
use pdf_link_map::{PdfDict, PdfDocument, PdfObject};

fn name(value: &str) -> PdfObject {
    PdfObject::Name(value.as_bytes().to_vec())
}

fn text(value: &str) -> PdfObject {
    PdfObject::String(value.as_bytes().to_vec())
}

fn dict(entries: Vec<(&str, PdfObject)>) -> PdfDict {
    PdfDict { entries: entries.into_iter().map(|(k, v)| (k.as_bytes().to_vec(), v)).collect() }
}

fn to_page(n: u32) -> PdfObject {
    PdfObject::Array(vec![PdfObject::Reference((100 + n, 0)), name("XYZ")])
}

fn document(catalog: PdfDict, mut objects: Vec<((u32, u16), PdfObject)>) -> PdfDocument {
    objects.push(((1, 0), PdfObject::Dictionary(catalog)));
    objects.push(((101, 0), PdfObject::Dictionary(dict(vec![("Type", name("Page"))]))));
    objects.push(((102, 0), PdfObject::Dictionary(dict(vec![("Type", name("Page"))]))));
    PdfDocument {
        objects,
        trailer: dict(vec![("Root", PdfObject::Reference((1, 0)))]),
        pages: vec![(1, (101, 0)), (2, (102, 0))],
    }
}

#[test]
fn dests_dictionary_comes_before_the_name_tree() {
    let catalog = dict(vec![
        ("Dests", PdfObject::Reference((5, 0))),
        (
            "Names",
            PdfObject::Dictionary(dict(vec![(
                "Dests",
                PdfObject::Dictionary(dict(vec![(
                    "Kids",
                    PdfObject::Array(vec![
                        PdfObject::Reference((6, 0)),
                        PdfObject::Dictionary(dict(vec![("Names", PdfObject::Array(vec![text("c"), to_page(2), text("odd")]))])),
                    ]),
                )])),
            )])),
        ),
    ]);
    let doc = document(
        catalog,
        vec![
            ((5, 0), PdfObject::Dictionary(dict(vec![("a", to_page(1))]))),
            ((6, 0), PdfObject::Dictionary(dict(vec![("Names", PdfObject::Array(vec![text("b"), to_page(2)]))]))),
        ],
    );
    let named = collect_named_destinations(&doc);
    let names: Vec<&str> = named.iter().map(|(n, _)| n.as_str()).collect();
    assert_eq!(names, vec!["a", "b", "c"]);
    let r = Resolver::new(&doc);
    let pages: Vec<Option<u32>> = r.named().iter().map(|(_, o)| r.destination_page(o)).collect();
    assert_eq!(pages, vec![Some(1), Some(2), Some(2)]);
    assert!(r.lookup_named(&"b".to_string()).is_some());
    assert!(r.lookup_named(&"z".to_string()).is_none());
}

#[test]
fn destination_dictionary_with_d_entry_resolves() {
    let catalog = dict(vec![(
        "Dests",
        PdfObject::Dictionary(dict(vec![("intro", PdfObject::Dictionary(dict(vec![("D", to_page(2))])))])),
    )]);
    let doc = document(catalog, vec![]);
    let r = Resolver::new(&doc);
    let dest = r.lookup_named(&"intro".to_string()).unwrap();
    assert_eq!(r.destination_page(dest), Some(2));
}

#[test]
fn name_tree_deeper_than_the_limit_is_not_read() {
    // A chain of 40 nested Kids; the leaf names sit below the depth limit.
    let mut node = PdfObject::Dictionary(dict(vec![("Names", PdfObject::Array(vec![text("deep"), to_page(1)]))]));
    for _ in 0..40 {
        node = PdfObject::Dictionary(dict(vec![("Kids", PdfObject::Array(vec![node]))]));
    }
    let shallow = PdfObject::Dictionary(dict(vec![
        ("Names", PdfObject::Array(vec![text("top"), to_page(1)])),
        ("Kids", PdfObject::Array(vec![node])),
    ]));
    let catalog = dict(vec![("Names", PdfObject::Dictionary(dict(vec![("Dests", shallow)])))]);
    let doc = document(catalog, vec![]);
    let named = collect_named_destinations(&doc);
    let names: Vec<&str> = named.iter().map(|(n, _)| n.as_str()).collect();
    assert_eq!(names, vec!["top"]);
}

#[test]
fn first_definition_of_a_name_wins() {
    let catalog = dict(vec![(
        "Names",
        PdfObject::Dictionary(dict(vec![(
            "Dests",
            PdfObject::Dictionary(dict(vec![("Names", PdfObject::Array(vec![text("n"), to_page(2), text("n"), to_page(1)]))])),
        )])),
    )]);
    let doc = document(catalog, vec![]);
    let r = Resolver::new(&doc);
    let dest = r.lookup_named(&"n".to_string()).unwrap();
    assert_eq!(r.destination_page(dest), Some(2));
}

#[test]
fn missing_catalog_means_no_named_destinations() {
    let doc = PdfDocument { objects: vec![], trailer: dict(vec![("Root", PdfObject::Reference((1, 0)))]), pages: vec![] };
    assert!(collect_named_destinations(&doc).is_empty());
    assert!(!doc.is_encrypted());
}
