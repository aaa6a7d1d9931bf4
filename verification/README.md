# pdf-link-map

Audits the link annotations of a PDF document: which links resolve to a
page, which are broken, which leave the document, whether named
destinations are defined twice or resolve nowhere, and whether a manifest
of expected headings matches the named destinations. The result is a
report (printed as JSON on request) and a standalone HTML map.

The library under `src/` is verified with Verus:

- `pdf` — a plain-value model of a loaded document and its lookups
  (dictionary entries, indirect objects, references, catalog, encryption).
- `load` — parsing the bytes of a PDF file with `lopdf` into the model.
- `resolve` — the page index, the named destinations of the catalog and its
  name tree, and the page a destination leads to.
- `links` — inspecting one link annotation, and what each page contributes.
- `audit` — duplicates, destinations (sorted by name), the manifest, and the
  whole report (`audit_document`); `parse_document` turns the file's bytes
  into the document model.
- `report` — the report's records, their views and summary counts.
- `html` — the HTML map; `paths` — the default report location;
  `policy` — the `--fail-on` decision; `text` — escaping, decimal numbers,
  byte order.
- `laws` — properties proved of every document and report.

`app/` holds the command line program: argument parsing, reading the PDF
file's bytes, reading the manifest with `serde_json`, writing the map, the
JSON output, and the demo document.
