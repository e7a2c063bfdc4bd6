//! The PDF object graph builder: serializes a laid-out document into
//! the low-level PDF object model — font dictionaries (Type1 Helvetica,
//! regular and bold), a resources dictionary mapping the short names
//! `F1`/`F2` to the fonts, one content stream per page, page objects
//! referencing the pages tree, the pages tree, and a catalog installed
//! as the trailer root.
//!
//! Object IDs are allocated by a fixed scheme before the objects that
//! reference them exist (the pages tree has ID 1, and every page
//! references it), so forward references are resolved by assigned IDs,
//! not by serialization order.  The whole graph is specified by
//! [`graph_spec`] and the builder is proved to construct exactly that
//! graph inside the `lopdf` document; `lopdf` then writes the file
//! (header, object bodies, cross-reference table, trailer).

use crate::content::{content_bytes, encode_content};
use crate::errors::RenderError;
use crate::model::DocV;
use vstd::prelude::*;

verus! {

/// The mathematical model of one PDF object.
#[verifier::ext_equal]
pub enum PdfObj {
    IntVal(int),
    NameVal(Seq<char>),
    RefVal(u32),
    ArrayVal(Seq<PdfObj>),
    DictVal(Map<Seq<char>, PdfObj>),
    StreamVal(Seq<u8>),
}

#[verifier::external_type_specification]
#[verifier::external_body]
pub struct ExLopdfDocument(lopdf::Document);

#[verifier::external_type_specification]
#[verifier::external_body]
pub struct ExLopdfObject(lopdf::Object);

#[verifier::external_type_specification]
#[verifier::external_body]
pub struct ExLopdfDictionary(lopdf::Dictionary);

/// An empty dictionary model.
pub open spec fn empty_dict() -> Map<Seq<char>, PdfObj> {
    Map::empty()
}

/// An empty object-graph model.
pub open spec fn empty_objs() -> Map<u32, PdfObj> {
    Map::empty()
}

/// The model of a `lopdf` object.
pub uninterp spec fn obj_model(o: lopdf::Object) -> PdfObj;

/// The entries of a `lopdf` dictionary, keyed by name.
pub uninterp spec fn dict_model(d: lopdf::Dictionary) -> Map<Seq<char>, PdfObj>;

/// The indirect objects of a `lopdf` document, keyed by object ID
/// (generation 0).
pub uninterp spec fn doc_objs(d: lopdf::Document) -> Map<u32, PdfObj>;

/// The object ID installed as the trailer's `Root`, if any.
pub uninterp spec fn doc_root(d: lopdf::Document) -> Option<u32>;

/// Whether the document's binary mark passes the writer's validity
/// check (all four bytes at least 128).  The writer refuses to emit a
/// document whose mark has a low byte; a freshly constructed document
/// carries a valid default mark, and nothing here alters it.
pub uninterp spec fn doc_mark_ok(d: lopdf::Document) -> bool;

/// Relies on `lopdf::Document::new`: a fresh document has no indirect
/// objects and an empty trailer.  The body pins the output format the
/// engine targets: PDF version 1.7 and a classic cross-reference table.
#[verifier::external_body]
fn lop_new_doc() -> (d: lopdf::Document)
    ensures
        doc_objs(d) == empty_objs(),
        doc_root(d) is None,
        doc_mark_ok(d),
{
    let mut d = lopdf::Document::new();
    d.version = "1.7".to_string();
    d.reference_table = lopdf::xref::Xref::new(0, lopdf::xref::XrefType::CrossReferenceTable);
    d
}

/// Relies on `lopdf::Object::Integer`: wraps an integer.
#[verifier::external_body]
fn lop_obj_int(v: i64) -> (o: lopdf::Object)
    ensures
        obj_model(o) == PdfObj::IntVal(v as int),
{
    lopdf::Object::Integer(v)
}

/// Relies on `lopdf::Object::Name`: wraps a name given by its bytes.
#[verifier::external_body]
fn lop_obj_name(s: &str) -> (o: lopdf::Object)
    ensures
        obj_model(o) == PdfObj::NameVal(s@),
{
    lopdf::Object::Name(s.as_bytes().to_vec())
}

/// Relies on `lopdf::Object::Reference`: wraps a reference to the
/// object with the given ID (generation 0).
#[verifier::external_body]
fn lop_obj_ref(id: u32) -> (o: lopdf::Object)
    ensures
        obj_model(o) == PdfObj::RefVal(id),
{
    lopdf::Object::Reference((id, 0))
}

/// Relies on `lopdf::Object::Array`: wraps a vector of objects.
#[verifier::external_body]
fn lop_obj_array(items: Vec<lopdf::Object>) -> (o: lopdf::Object)
    ensures
        obj_model(o) == PdfObj::ArrayVal(items@.map_values(|x: lopdf::Object| obj_model(x))),
{
    lopdf::Object::Array(items)
}

/// Relies on `lopdf::Stream::new`: wraps raw content bytes as a stream
/// object (the stream dictionary receives only the mandatory `Length`).
#[verifier::external_body]
fn lop_obj_stream(bytes: Vec<u8>) -> (o: lopdf::Object)
    ensures
        obj_model(o) == PdfObj::StreamVal(bytes@),
{
    lopdf::Object::Stream(lopdf::Stream::new(lopdf::Dictionary::new(), bytes))
}

/// Relies on `lopdf::Dictionary::new`: an empty dictionary.
#[verifier::external_body]
fn lop_dict_new() -> (r: lopdf::Dictionary)
    ensures
        dict_model(r) == empty_dict(),
{
    lopdf::Dictionary::new()
}

/// Relies on `lopdf::Dictionary::set`: inserts or replaces the entry
/// under the given key.
#[verifier::external_body]
fn lop_dict_set(d: &mut lopdf::Dictionary, key: &str, val: lopdf::Object)
    ensures
        dict_model(*final(d)) == dict_model(*old(d)).insert(key@, obj_model(val)),
{
    d.set(key, val);
}

/// Relies on `lopdf::Object::Dictionary`: wraps a dictionary.
#[verifier::external_body]
fn lop_obj_dict(d: lopdf::Dictionary) -> (o: lopdf::Object)
    ensures
        obj_model(o) == PdfObj::DictVal(dict_model(d)),
{
    lopdf::Object::Dictionary(d)
}

/// Relies on `BTreeMap::insert` on `lopdf::Document::objects`: stores
/// an indirect object under the given ID (generation 0), replacing any
/// previous object with that ID.  The trailer is untouched.
#[verifier::external_body]
fn lop_doc_insert(d: &mut lopdf::Document, id: u32, o: lopdf::Object)
    ensures
        doc_objs(*final(d)) == doc_objs(*old(d)).insert(id, obj_model(o)),
        doc_root(*final(d)) == doc_root(*old(d)),
        doc_mark_ok(*final(d)) == doc_mark_ok(*old(d)),
{
    d.objects.insert((id, 0), o);
}

/// Relies on `lopdf::Dictionary::set` on the trailer: installs the
/// catalog reference as `Root`.  The indirect objects are untouched.
#[verifier::external_body]
fn lop_doc_set_root(d: &mut lopdf::Document, id: u32)
    ensures
        doc_objs(*final(d)) == doc_objs(*old(d)),
        doc_root(*final(d)) == Option::Some(id),
        doc_mark_ok(*final(d)) == doc_mark_ok(*old(d)),
{
    d.trailer.set("Root", lopdf::Object::Reference((id, 0)));
}

/// Relies on the `max_id` field of `lopdf::Document`, which its writer
/// uses to size the cross-reference table.  The objects and trailer are
/// untouched.
#[verifier::external_body]
fn lop_doc_set_max_id(d: &mut lopdf::Document, id: u32)
    ensures
        doc_objs(*final(d)) == doc_objs(*old(d)),
        doc_root(*final(d)) == doc_root(*old(d)),
        doc_mark_ok(*final(d)) == doc_mark_ok(*old(d)),
{
    d.max_id = id;
}

/// Relies on `lopdf::Document::save_to`: writes the complete file
/// (header, objects, cross-reference table, trailer) into an in-memory
/// buffer.  Writing into a `Vec` cannot fail on I/O, and the writer's
/// only other refusal is an invalid binary mark, so a document with a
/// valid mark always saves; the buffer is then non-empty (the writer
/// emits the `%PDF-` header first).  The document's own state may be
/// reorganised by the writer, so nothing is claimed about it afterwards.
#[verifier::external_body]
fn lop_doc_save(d: &mut lopdf::Document) -> (r: Result<Vec<u8>, String>)
    ensures
        doc_mark_ok(*old(d)) ==> r is Ok,
        r matches Ok(b) ==> b@.len() > 0,
{
    let mut buf: Vec<u8> = Vec::new();
    match d.save_to(&mut buf) {
        Ok(()) => Ok(buf),
        Err(e) => Err(e.to_string()),
    }
}

/// The fixed object ID of the pages tree.
pub const PAGES_ID: u32 = 1;

/// The fixed object ID of the regular font.
pub const FONT_REGULAR_ID: u32 = 2;

/// The fixed object ID of the bold font.
pub const FONT_BOLD_ID: u32 = 3;

/// The fixed object ID of the resources dictionary.
pub const RESOURCES_ID: u32 = 4;

/// The content stream of page `i` has ID `5 + 2 i`.
pub open spec fn content_id(i: int) -> int {
    5 + 2 * i
}

/// The page object of page `i` has ID `6 + 2 i`.
pub open spec fn page_id(i: int) -> int {
    6 + 2 * i
}

/// The catalog's ID comes after every page object.
pub open spec fn catalog_id(n: int) -> int {
    5 + 2 * n
}

/// A Type1 Helvetica font dictionary, regular or bold.
pub open spec fn font_obj(bold: bool) -> PdfObj {
    PdfObj::DictVal(
        Map::<Seq<char>, PdfObj>::empty().insert("Type"@, PdfObj::NameVal("Font"@)).insert(
            "Subtype"@,
            PdfObj::NameVal("Type1"@),
        ).insert(
            "BaseFont"@,
            PdfObj::NameVal(if bold {
                "Helvetica-Bold"@
            } else {
                "Helvetica"@
            }),
        ),
    )
}

/// The resources dictionary: the font names `F1` and `F2` mapped to the
/// two font objects.
pub open spec fn resources_obj() -> PdfObj {
    PdfObj::DictVal(
        Map::<Seq<char>, PdfObj>::empty().insert(
            "Font"@,
            PdfObj::DictVal(
                Map::<Seq<char>, PdfObj>::empty().insert(
                    "F1"@,
                    PdfObj::RefVal(FONT_REGULAR_ID),
                ).insert("F2"@, PdfObj::RefVal(FONT_BOLD_ID)),
            ),
        ),
    )
}

/// The content stream object of page `i`: its operations serialized.
pub open spec fn content_obj(d: DocV, i: int) -> PdfObj {
    PdfObj::StreamVal(content_bytes(d.pages[i].ops))
}

/// The page object of page `i`: type, parent pages tree, content
/// stream, resources, and a media box in whole points.
pub open spec fn page_obj(d: DocV, i: int) -> PdfObj {
    PdfObj::DictVal(
        Map::<Seq<char>, PdfObj>::empty().insert("Type"@, PdfObj::NameVal("Page"@)).insert(
            "Parent"@,
            PdfObj::RefVal(PAGES_ID),
        ).insert("Contents"@, PdfObj::RefVal(content_id(i) as u32)).insert(
            "Resources"@,
            PdfObj::RefVal(RESOURCES_ID),
        ).insert(
            "MediaBox"@,
            PdfObj::ArrayVal(
                seq![
                    PdfObj::IntVal(0),
                    PdfObj::IntVal(0),
                    PdfObj::IntVal(d.pages[i].width / 1000),
                    PdfObj::IntVal(d.pages[i].height / 1000),
                ],
            ),
        ),
    )
}

/// The pages tree: one kid reference per page, and the page count.
pub open spec fn pages_obj(n: int) -> PdfObj {
    PdfObj::DictVal(
        Map::<Seq<char>, PdfObj>::empty().insert("Type"@, PdfObj::NameVal("Pages"@)).insert(
            "Kids"@,
            PdfObj::ArrayVal(Seq::new(n as nat, |i: int| PdfObj::RefVal(page_id(i) as u32))),
        ).insert("Count"@, PdfObj::IntVal(n)),
    )
}

/// The catalog: the trailer root, referencing the pages tree.
pub open spec fn catalog_obj() -> PdfObj {
    PdfObj::DictVal(
        Map::<Seq<char>, PdfObj>::empty().insert("Type"@, PdfObj::NameVal("Catalog"@)).insert(
            "Pages"@,
            PdfObj::RefVal(PAGES_ID),
        ),
    )
}

/// The graph before any page is added: the two fonts and the resources.
pub open spec fn base_graph() -> Map<u32, PdfObj> {
    Map::<u32, PdfObj>::empty().insert(FONT_REGULAR_ID, font_obj(false)).insert(
        FONT_BOLD_ID,
        font_obj(true),
    ).insert(RESOURCES_ID, resources_obj())
}

/// The graph after the first `m` pages' content streams and page
/// objects have been added.
pub open spec fn graph_upto(d: DocV, m: int) -> Map<u32, PdfObj>
    decreases m,
{
    if m <= 0 {
        base_graph()
    } else {
        graph_upto(d, m - 1).insert(content_id(m - 1) as u32, content_obj(d, m - 1)).insert(
            page_id(m - 1) as u32,
            page_obj(d, m - 1),
        )
    }
}

/// The complete object graph of a document: fonts, resources, content
/// streams and page objects, the pages tree, and the catalog.
pub open spec fn graph_spec(d: DocV) -> Map<u32, PdfObj> {
    let n = d.pages.len() as int;
    graph_upto(d, n).insert(PAGES_ID, pages_obj(n)).insert(catalog_id(n) as u32, catalog_obj())
}

/// A document the serializer accepts: a bounded page count (so object
/// IDs fit in 32 bits) and nonnegative page dimensions (the media box
/// is written in whole points).
pub open spec fn doc_wf(d: DocV) -> bool {
    &&& d.pages.len() <= 1000000000
    &&& forall|i: int|
        0 <= i < d.pages.len() ==> 0 <= (#[trigger] d.pages[i]).width <= 9000000000000000000 && 0
            <= d.pages[i].height <= 9000000000000000000
}

/// Builds the complete PDF object graph of a document inside a `lopdf`
/// document: exactly [`graph_spec`], with the catalog installed as the
/// trailer root.
pub fn build_pdf_graph(doc: &crate::model::DocModel) -> (g: lopdf::Document)
    requires
        doc_wf(doc@),
        1 <= doc@.pages.len(),
    ensures
        doc_objs(g) == graph_spec(doc@),
        doc_root(g) == Option::Some(catalog_id(doc@.pages.len() as int) as u32),
        doc_mark_ok(g),
{
    let mut g = lop_new_doc();
    let mut f1 = lop_dict_new();
    lop_dict_set(&mut f1, "Type", lop_obj_name("Font"));
    lop_dict_set(&mut f1, "Subtype", lop_obj_name("Type1"));
    lop_dict_set(&mut f1, "BaseFont", lop_obj_name("Helvetica"));
    lop_doc_insert(&mut g, FONT_REGULAR_ID, lop_obj_dict(f1));
    let mut f2 = lop_dict_new();
    lop_dict_set(&mut f2, "Type", lop_obj_name("Font"));
    lop_dict_set(&mut f2, "Subtype", lop_obj_name("Type1"));
    lop_dict_set(&mut f2, "BaseFont", lop_obj_name("Helvetica-Bold"));
    lop_doc_insert(&mut g, FONT_BOLD_ID, lop_obj_dict(f2));
    let mut fonts = lop_dict_new();
    lop_dict_set(&mut fonts, "F1", lop_obj_ref(FONT_REGULAR_ID));
    lop_dict_set(&mut fonts, "F2", lop_obj_ref(FONT_BOLD_ID));
    let mut res = lop_dict_new();
    lop_dict_set(&mut res, "Font", lop_obj_dict(fonts));
    lop_doc_insert(&mut g, RESOURCES_ID, lop_obj_dict(res));
    proof {
        assert(doc_objs(g) == base_graph());
        assert(doc_objs(g) == graph_upto(doc@, 0));
    }
    let n = doc.pages.len();
    let mut i: usize = 0;
    while i < n
        invariant
            i <= n,
            n == doc@.pages.len(),
            doc_wf(doc@),
            doc_objs(g) == graph_upto(doc@, i as int),
            doc_root(g) is None,
            doc_mark_ok(g),
        decreases n - i,
    {
        let bytes = encode_content(&doc.pages[i].ops);
        proof {
            assert(bytes@ == content_bytes(doc@.pages[i as int].ops)) by {
                assert(doc.pages@[i as int]@.ops == doc@.pages[i as int].ops);
            }
        }
        let cid: u32 = (5 + 2 * i) as u32;
        let pid: u32 = (6 + 2 * i) as u32;
        lop_doc_insert(&mut g, cid, lop_obj_stream(bytes));
        let mut pd = lop_dict_new();
        lop_dict_set(&mut pd, "Type", lop_obj_name("Page"));
        lop_dict_set(&mut pd, "Parent", lop_obj_ref(PAGES_ID));
        lop_dict_set(&mut pd, "Contents", lop_obj_ref(cid));
        lop_dict_set(&mut pd, "Resources", lop_obj_ref(RESOURCES_ID));
        let mut mb: Vec<lopdf::Object> = Vec::new();
        mb.push(lop_obj_int(0));
        mb.push(lop_obj_int(0));
        mb.push(lop_obj_int(doc.pages[i].width_mpt / 1000));
        mb.push(lop_obj_int(doc.pages[i].height_mpt / 1000));
        lop_dict_set(&mut pd, "MediaBox", lop_obj_array(mb));
        proof {
            assert(mb@.map_values(|x: lopdf::Object| obj_model(x)) =~= seq![
                PdfObj::IntVal(0),
                PdfObj::IntVal(doc@.pages[i as int].width / 1000),
            ].insert(1, PdfObj::IntVal(0)).push(
                PdfObj::IntVal(doc@.pages[i as int].height / 1000),
            ));
        }
        lop_doc_insert(&mut g, pid, lop_obj_dict(pd));
        i += 1;
        proof {
            assert(mb@.map_values(|x: lopdf::Object| obj_model(x)) =~~= seq![
                PdfObj::IntVal(0),
                PdfObj::IntVal(0),
                PdfObj::IntVal(doc@.pages[i as int - 1].width / 1000),
                PdfObj::IntVal(doc@.pages[i as int - 1].height / 1000),
            ]);
            assert(dict_model(pd) == empty_dict().insert("Type"@, PdfObj::NameVal("Page"@)).insert(
                "Parent"@,
                PdfObj::RefVal(PAGES_ID),
            ).insert("Contents"@, PdfObj::RefVal(content_id(i as int - 1) as u32)).insert(
                "Resources"@,
                PdfObj::RefVal(RESOURCES_ID),
            ).insert(
                "MediaBox"@,
                PdfObj::ArrayVal(
                    seq![
                        PdfObj::IntVal(0),
                        PdfObj::IntVal(0),
                        PdfObj::IntVal(doc@.pages[i as int - 1].width / 1000),
                        PdfObj::IntVal(doc@.pages[i as int - 1].height / 1000),
                    ],
                ),
            ));
            assert(PdfObj::DictVal(dict_model(pd)) =~~= page_obj(doc@, i as int - 1));
            assert(doc_objs(g) == graph_upto(doc@, i as int));
        }
    }
    let mut kids: Vec<lopdf::Object> = Vec::new();
    let mut j: usize = 0;
    while j < n
        invariant
            j <= n,
            n == doc@.pages.len(),
            doc@.pages.len() <= 1000000000,
            kids@.map_values(|x: lopdf::Object| obj_model(x)) == Seq::new(
                j as nat,
                |i: int| PdfObj::RefVal(page_id(i) as u32),
            ),
        decreases n - j,
    {
        let ghost kids0 = kids@;
        kids.push(lop_obj_ref((6 + 2 * j) as u32));
        j += 1;
        proof {
            assert(obj_model(kids@.last()) == PdfObj::RefVal(page_id(j as int - 1) as u32));
            assert(kids@.map_values(|x: lopdf::Object| obj_model(x)) =~~= kids0.map_values(
                |x: lopdf::Object| obj_model(x),
            ).push(obj_model(kids@.last())));
            assert(kids@.map_values(|x: lopdf::Object| obj_model(x)) =~~= Seq::new(
                j as nat,
                |i: int| PdfObj::RefVal(page_id(i) as u32),
            ));
        }
    }
    let mut pt = lop_dict_new();
    lop_dict_set(&mut pt, "Type", lop_obj_name("Pages"));
    lop_dict_set(&mut pt, "Kids", lop_obj_array(kids));
    lop_dict_set(&mut pt, "Count", lop_obj_int(n as i64));
    lop_doc_insert(&mut g, PAGES_ID, lop_obj_dict(pt));
    proof {
        assert(PdfObj::DictVal(dict_model(pt)) =~~= pages_obj(n as int));
    }
    let mut cat = lop_dict_new();
    lop_dict_set(&mut cat, "Type", lop_obj_name("Catalog"));
    lop_dict_set(&mut cat, "Pages", lop_obj_ref(PAGES_ID));
    let cat_id: u32 = (5 + 2 * n) as u32;
    lop_doc_insert(&mut g, cat_id, lop_obj_dict(cat));
    lop_doc_set_root(&mut g, cat_id);
    lop_doc_set_max_id(&mut g, cat_id);
    proof {
        assert(PdfObj::DictVal(dict_model(cat)) =~~= catalog_obj());
        assert(doc_objs(g) == graph_spec(doc@));
    }
    g
}

/// Renders a document through the low-level object-graph path: builds
/// the object graph and has `lopdf` write the complete file into an
/// in-memory buffer.  Serialization always succeeds: the graph is built
/// on a freshly constructed document (whose binary mark the writer
/// accepts) and the buffer lives in memory, so the complete, non-empty
/// byte buffer is assembled before any caller could write a file.
pub fn render_lowlevel(doc: &crate::model::DocModel) -> (r: Result<Vec<u8>, RenderError>)
    requires
        doc_wf(doc@),
        1 <= doc@.pages.len(),
    ensures
        r is Ok,
        r matches Ok(b) ==> b@.len() > 0,
{
    let mut g = build_pdf_graph(doc);
    match lop_doc_save(&mut g) {
        Ok(b) => Ok(b),
        Err(e) => Err(RenderError::SaveFailed(e)),
    }
}

/// Every ID of `graph_upto` is at least 2, and each processed page's
/// content stream and page object are present under their assigned IDs.
proof fn lemma_graph_upto_facts(d: DocV, m: int)
    requires
        0 <= m <= 1000000000,
    ensures
        forall|j: int|
            0 <= j < m ==> graph_upto(d, m).contains_key((5 + 2 * j) as u32) && graph_upto(d, m)[
                (5 + 2 * j) as u32] == content_obj(d, j),
        forall|j: int|
            0 <= j < m ==> graph_upto(d, m).contains_key((6 + 2 * j) as u32) && graph_upto(d, m)[
                (6 + 2 * j) as u32] == page_obj(d, j),
        graph_upto(d, m).contains_key(FONT_REGULAR_ID),
        graph_upto(d, m)[FONT_REGULAR_ID] == font_obj(false),
        graph_upto(d, m).contains_key(FONT_BOLD_ID),
        graph_upto(d, m)[FONT_BOLD_ID] == font_obj(true),
        graph_upto(d, m).contains_key(RESOURCES_ID),
        graph_upto(d, m)[RESOURCES_ID] == resources_obj(),
        !graph_upto(d, m).contains_key(PAGES_ID),
        forall|k: u32| graph_upto(d, m).contains_key(k) ==> 2 <= k < (5 + 2 * m),
    decreases m,
{
    if m > 0 {
        lemma_graph_upto_facts(d, m - 1);
    }
}

/// The pages tree object indeed carries `n` kid references and the
/// count `n`.
pub proof fn lemma_pages_obj_shape(n: int)
    requires
        n >= 0,
    ensures
        (pages_obj(n) matches PdfObj::DictVal(pm) && pm.contains_key("Kids"@) && (pm["Kids"@]
            matches PdfObj::ArrayVal(kids) && kids.len() == n) && pm.contains_key("Count"@)
            && pm["Count"@] == PdfObj::IntVal(n)),
{
    reveal_strlit("Kids");
    reveal_strlit("Count");
    assert("Kids"@.len() == 4);
    assert("Count"@.len() == 5);
    assert("Kids"@ !~= "Count"@);
}

/// The object graph is a well-formed document skeleton: the catalog is
/// present and references the pages tree; the pages tree is present
/// with one kid reference per page and the exact page count (see
/// [`lemma_pages_obj_shape`]); every page object is present, references
/// the pages tree as parent and its own content stream; and every
/// content stream is present and holds the page's serialized
/// operations.  In particular both generation paths agree on the
/// number of pages: the graph references exactly `d.pages.len()` pages.
#[verifier::rlimit(100)]
pub proof fn lemma_graph_chain(d: DocV)
    requires
        1 <= d.pages.len() <= 1000000000,
    ensures
        graph_spec(d).contains_key(catalog_id(d.pages.len() as int) as u32),
        graph_spec(d)[catalog_id(d.pages.len() as int) as u32] == catalog_obj(),
        graph_spec(d).contains_key(PAGES_ID),
        graph_spec(d)[PAGES_ID] == pages_obj(d.pages.len() as int),
        forall|i: int|
            0 <= i < d.pages.len() ==> graph_spec(d).contains_key((6 + 2 * i) as u32)
                && graph_spec(d)[(6 + 2 * i) as u32] == page_obj(d, i),
        forall|i: int|
            0 <= i < d.pages.len() ==> graph_spec(d).contains_key((5 + 2 * i) as u32)
                && graph_spec(d)[(5 + 2 * i) as u32] == content_obj(d, i),
{
    let n = d.pages.len() as int;
    lemma_graph_upto_facts(d, n);
    let gr = graph_spec(d);
    assert(gr[catalog_id(n) as u32] == catalog_obj());
    assert(PAGES_ID as int != catalog_id(n));
    assert(gr[PAGES_ID] == pages_obj(n));
    assert forall|i: int| 0 <= i < n implies gr.contains_key((6 + 2 * i) as u32) && gr[(6 + 2 * i)
        as u32] == page_obj(d, i) by {
        assert((6 + 2 * i) as u32 != PAGES_ID);
        assert(6 + 2 * i != 5 + 2 * n);
        assert((6 + 2 * i) as u32 != catalog_id(n) as u32);
        assert(graph_upto(d, n).contains_key((6 + 2 * i) as u32));
    }
    assert forall|i: int| 0 <= i < n implies gr.contains_key((5 + 2 * i) as u32) && gr[(5 + 2 * i)
        as u32] == content_obj(d, i) by {
        assert((5 + 2 * i) as u32 != PAGES_ID);
        assert((5 + 2 * i) as u32 != catalog_id(n) as u32);
        assert(graph_upto(d, n).contains_key((5 + 2 * i) as u32));
    }
}

} // verus!