//! The generation backends.  Three interchangeable strategies share one
//! input contract (consume a document, produce PDF bytes):
//!
//! * the low-level object-graph path ([`crate::pdf::render_lowlevel`]),
//! * a high-level drawing API that manages its own object graph, driven
//!   by replaying the document's draw operations (that replay lives with
//!   the caller, outside the verified library, because the drawing API
//!   works in floating-point coordinates),
//! * a pass-through that persists externally rendered bytes unchanged
//!   after validating them ([`render_passthrough`] and
//!   [`web_content_to_pdf`]).
//!
//! The whole byte buffer is always assembled in memory before a caller
//! could begin writing a file.

use crate::errors::RenderError;
use crate::layout::{build_document, item_views, item_wf, layout_doc, TEXT_MAX};
use crate::model::{DocModel, ListItem};
use crate::units::{settings_wf, PrintSettings};
use vstd::prelude::*;

verus! {

/// The pass-through path: an empty buffer is rejected with an
/// empty-input error and nothing else happens; a non-empty buffer is
/// returned byte-for-byte unchanged.
pub fn render_passthrough(bytes: Vec<u8>) -> (r: Result<Vec<u8>, RenderError>)
    ensures
        bytes@.len() == 0 <==> (r matches Err(e) && e is EmptyInput),
        bytes@.len() > 0 ==> (r matches Ok(b) && b@ == bytes@),
{
    if bytes.len() == 0 {
        Err(RenderError::EmptyInput)
    } else {
        Ok(bytes)
    }
}

/// What the standard base64 alphabet decodes a string to, if it is
/// valid.
pub uninterp spec fn b64_decode(s: Seq<char>) -> Option<Seq<u8>>;

/// Relies on base64's `Engine::decode` with the standard padded
/// alphabet: decoding is a function of the input characters alone; on
/// invalid input it reports an error, whose message is passed along.
#[verifier::external_body]
fn b64_decode_exec(s: &str) -> (r: Result<Vec<u8>, String>)
    ensures
        r matches Ok(v) ==> b64_decode(s@) == Option::Some(v@),
        r is Err ==> b64_decode(s@) is None,
{
    match base64::Engine::decode(&base64::engine::general_purpose::STANDARD, s) {
        Ok(v) => Ok(v),
        Err(e) => Err(e.to_string()),
    }
}

/// The alternate ingress for pre-rendered content: takes a base64
/// payload produced by an external renderer and returns the decoded PDF
/// bytes unchanged.  An empty payload, an undecodable payload, and a
/// payload decoding to zero bytes are each rejected with their own
/// error; no other outcome exists.
pub fn web_content_to_pdf(pdf_base64: &str) -> (r: Result<Vec<u8>, RenderError>)
    ensures
        pdf_base64@.len() == 0 ==> (r matches Err(e) && e is EmptyInput),
        pdf_base64@.len() > 0 && b64_decode(pdf_base64@) is None ==> (r matches Err(e)
            && e is DecodeFailed),
        pdf_base64@.len() > 0 && (b64_decode(pdf_base64@) matches Some(v) && v.len() == 0) ==> (
        r matches Err(e) && e is EmptyDecoded),
        pdf_base64@.len() > 0 && (b64_decode(pdf_base64@) matches Some(v) && v.len() > 0) ==> (
        r matches Ok(b) && b@ == b64_decode(pdf_base64@)->0),
{
    if pdf_base64.unicode_len() == 0 {
        return Err(RenderError::EmptyInput);
    }
    match b64_decode_exec(pdf_base64) {
        Err(e) => Err(RenderError::DecodeFailed(e)),
        Ok(bytes) => {
            if bytes.len() == 0 {
                Err(RenderError::EmptyDecoded)
            } else {
                Ok(bytes)
            }
        },
    }
}

/// Relies on `chrono::Local::now` and strftime formatting: the current
/// local date as `MM/DD/YYYY`.  The value depends on the clock and time
/// zone, so nothing is promised of it.
#[verifier::external_body]
pub fn today_label() -> (r: String) {
    chrono::Local::now().format("%m/%d/%Y").to_string()
}

/// Lays out the records under the given settings with the given date
/// label and serializes the document through the object-graph path.
/// The document is exactly the laid-out model of the inputs;
/// serialization always succeeds and the returned buffer is non-empty.
pub fn generate_table_pdf_dated(
    items: &Vec<ListItem>,
    settings: &PrintSettings,
    date_text: &str,
) -> (r: Result<Vec<u8>, RenderError>)
    requires
        settings_wf(*settings),
        forall|i: int| 0 <= i < items@.len() ==> item_wf(#[trigger] items@[i]@),
        items@.len() <= 900000000,
        date_text@.len() <= TEXT_MAX,
    ensures
        r is Ok,
        r matches Ok(b) ==> b@.len() > 0,
{
    let doc = build_document(items, settings, date_text);
    proof {
        crate::layout::lemma_layout_pages_count(item_views(items@), *settings, date_text@);
        crate::units::lemma_settings_bounds(*settings);
        assert(crate::pdf::doc_wf(doc@)) by {
            let d = layout_doc(item_views(items@), *settings, date_text@);
            assert forall|i: int| 0 <= i < d.pages.len() implies 0 <= (#[trigger] d.pages[i]).width
                <= 9000000000000000000 && 0 <= d.pages[i].height <= 9000000000000000000 by {
                assert(d.pages[i].width == settings.page_w());
            }
        }
    }
    crate::pdf::render_lowlevel(&doc)
}

/// Like [`generate_table_pdf_dated`], with the date taken from the
/// system clock.  A date label longer than the engine's text bound is
/// replaced by an empty label (no real date is).
pub fn generate_table_pdf(items: &Vec<ListItem>, settings: &PrintSettings) -> (r: Result<
    Vec<u8>,
    RenderError,
>)
    requires
        settings_wf(*settings),
        forall|i: int| 0 <= i < items@.len() ==> item_wf(#[trigger] items@[i]@),
        items@.len() <= 900000000,
    ensures
        r is Ok,
        r matches Ok(b) ==> b@.len() > 0,
{
    let date = today_label();
    if date.as_str().unicode_len() <= TEXT_MAX {
        generate_table_pdf_dated(items, settings, date.as_str())
    } else {
        proof {
            reveal_strlit("");
        }
        generate_table_pdf_dated(items, settings, "")
    }
}

} // verus!
