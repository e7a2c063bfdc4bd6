use schedule_pdf::backend::{render_passthrough, web_content_to_pdf};
use schedule_pdf::errors::RenderError;
use schedule_pdf::layout::build_document;
use schedule_pdf::model::{DrawOp, ListItem};
use schedule_pdf::pdf::render_lowlevel;
use schedule_pdf::units::{Margins, Orientation, PageSize, PrintSettings, ViewMode};

fn settings() -> PrintSettings {
    PrintSettings {
        page_size: PageSize::Letter,
        orientation: Orientation::Portrait,
        margins: Margins { top: 1000, bottom: 1000, left: 1000, right: 1000 },
        font_size: 10,
        view_mode: ViewMode::Summary,
    }
}

fn item(theme: &str, instructions: Option<&str>) -> ListItem {
    ListItem {
        time: Some("10:00".to_string()),
        item_number: None,
        theme: theme.to_string(),
        speaker: Some("A. Smith".to_string()),
        item_type: Some("Talk".to_string()),
        duration: Some("10 min".to_string()),
        instructions: instructions.map(|s| s.to_string()),
    }
}

#[test]
fn lowlevel_output_parses_and_chain_is_intact() {
    let items = vec![item("One", None), item("Two", None), item("Three", None)];
    let doc = build_document(&items, &settings(), "01/02/2025");
    let expected_pages = doc.pages.len();
    let bytes = render_lowlevel(&doc).expect("low-level render");
    assert!(!bytes.is_empty());
    let parsed = lopdf::Document::load_mem(&bytes).expect("reader parses the output");
    // catalog -> pages -> page -> content chain resolves.
    assert_eq!(parsed.get_pages().len(), expected_pages);
    let catalog = parsed.catalog().expect("catalog present");
    assert!(catalog.get(b"Pages").is_ok());
    for (_, page_id) in parsed.get_pages() {
        let content = parsed.get_page_content(page_id);
        assert!(!content.is_empty());
    }
}

#[test]
fn lowlevel_and_highlevel_reference_same_page_count() {
    let many: Vec<ListItem> = (0..60)
        .map(|i| item(&format!("Item {i}"), None))
        .collect();
    let doc = build_document(&many, &settings(), "01/02/2025");
    let low = render_lowlevel(&doc).expect("low-level render");
    let low_parsed = lopdf::Document::load_mem(&low).expect("low-level output parses");

    // The high-level path: replay the document's operations against the
    // high-level drawing API, which manages its own object graph.
    let mut hi = oxidize_pdf::Document::new();
    hi.set_title(doc.title.clone());
    for page in &doc.pages {
        let mut p = oxidize_pdf::Page::new(
            page.width_mpt as f64 / 1000.0,
            page.height_mpt as f64 / 1000.0,
        );
        for op in &page.ops {
            match op {
                DrawOp::TextRun { content, font, size_mpt, x, y, .. } => {
                    let f = match font {
                        schedule_pdf::model::FontKind::Regular => oxidize_pdf::Font::Helvetica,
                        schedule_pdf::model::FontKind::Bold => oxidize_pdf::Font::HelveticaBold,
                    };
                    p.text()
                        .set_font(f, *size_mpt as f64 / 1000.0)
                        .at(*x as f64 / 1000.0, *y as f64 / 1000.0)
                        .write(content)
                        .expect("high-level text write");
                }
                DrawOp::LineSeg { x1, y1, x2, y2, width_mpt, color } => {
                    p.graphics()
                        .set_stroke_color(oxidize_pdf::Color::rgb(
                            color.r as f64 / 1000.0,
                            color.g as f64 / 1000.0,
                            color.b as f64 / 1000.0,
                        ))
                        .set_line_width(*width_mpt as f64 / 1000.0)
                        .move_to(*x1 as f64 / 1000.0, *y1 as f64 / 1000.0)
                        .line_to(*x2 as f64 / 1000.0, *y2 as f64 / 1000.0)
                        .stroke();
                }
                DrawOp::RectFill { x, y, w, h, color } => {
                    p.graphics()
                        .set_fill_color(oxidize_pdf::Color::rgb(
                            color.r as f64 / 1000.0,
                            color.g as f64 / 1000.0,
                            color.b as f64 / 1000.0,
                        ))
                        .rect(
                            *x as f64 / 1000.0,
                            *y as f64 / 1000.0,
                            *w as f64 / 1000.0,
                            *h as f64 / 1000.0,
                        )
                        .fill();
                }
            }
        }
        hi.add_page(p);
    }
    let hi_bytes = hi.to_bytes().expect("high-level render");
    let hi_parsed = lopdf::Document::load_mem(&hi_bytes).expect("high-level output parses");

    assert_eq!(low_parsed.get_pages().len(), doc.pages.len());
    assert_eq!(hi_parsed.get_pages().len(), doc.pages.len());
    assert_eq!(low_parsed.get_pages().len(), hi_parsed.get_pages().len());
}

#[test]
fn passthrough_rejects_empty_buffer() {
    match render_passthrough(Vec::new()) {
        Err(e) => {
            assert!(matches!(e, RenderError::EmptyInput));
            assert_eq!(e.message(), "Received empty PDF data");
        }
        Ok(_) => panic!("empty buffer must be rejected"),
    }
}

#[test]
fn passthrough_returns_bytes_unchanged() {
    let payload = vec![0x25, 0x50, 0x44, 0x46, 0x2d, 0x31, 0x2e, 0x37];
    let out = render_passthrough(payload.clone()).expect("non-empty passthrough");
    assert_eq!(out, payload);
}

#[test]
fn web_content_empty_payload_is_empty_input() {
    match web_content_to_pdf("") {
        Err(RenderError::EmptyInput) => {}
        other => panic!("expected the empty-input error, got {:?}", kind(&other)),
    }
}

#[test]
fn web_content_invalid_base64_is_decode_failure() {
    match web_content_to_pdf("!!!not-base64!!!") {
        Err(e @ RenderError::DecodeFailed(_)) => {
            assert!(e.message().starts_with("Failed to decode base64 PDF: "));
        }
        other => panic!("expected a decode failure, got {:?}", kind(&other)),
    }
}

#[test]
fn web_content_round_trips_valid_base64() {
    let payload = b"%PDF-1.7 fake payload".to_vec();
    let encoded = base64::Engine::encode(&base64::engine::general_purpose::STANDARD, &payload);
    let out = web_content_to_pdf(&encoded).expect("valid payload decodes");
    assert_eq!(out, payload);
}

fn kind(r: &Result<Vec<u8>, RenderError>) -> &'static str {
    match r {
        Ok(_) => "ok",
        Err(RenderError::EmptyInput) => "empty-input",
        Err(RenderError::DecodeFailed(_)) => "decode-failed",
        Err(RenderError::EmptyDecoded) => "empty-decoded",
        Err(RenderError::SaveFailed(_)) => "save-failed",
    }
}

#[test]
fn error_messages_name_their_stage() {
    assert_eq!(RenderError::EmptyDecoded.message(), "Decoded PDF bytes are empty");
    assert_eq!(
        RenderError::SaveFailed("disk".to_string()).message(),
        "Failed to save PDF: disk"
    );
    assert_eq!(
        RenderError::DecodeFailed("bad pad".to_string()).message(),
        "Failed to decode base64 PDF: bad pad"
    );
}

#[test]
fn generate_table_pdf_produces_a_parseable_file() {
    let items = vec![item("Alpha", Some("Short note")), item("Beta", None)];
    let s = PrintSettings { view_mode: ViewMode::Detailed, ..settings() };
    let bytes = schedule_pdf::backend::generate_table_pdf(&items, &s).expect("render");
    let parsed = lopdf::Document::load_mem(&bytes).expect("output parses");
    assert_eq!(parsed.get_pages().len(), 1);
}

#[test]
fn forms_render_through_the_lowlevel_path() {
    for doc in [
        schedule_pdf::forms::meeting_schedule_document(),
        schedule_pdf::forms::service_report_document(),
        schedule_pdf::forms::territory_document(),
    ] {
        assert_eq!(doc.pages.len(), 1);
        let bytes = render_lowlevel(&doc).expect("form renders");
        let parsed = lopdf::Document::load_mem(&bytes).expect("form output parses");
        assert_eq!(parsed.get_pages().len(), 1);
    }
}

#[test]
fn territory_form_holds_its_field_lines() {
    let doc = schedule_pdf::forms::territory_document();
    let texts: Vec<String> = doc.pages[0]
        .ops
        .iter()
        .filter_map(|op| match op {
            DrawOp::TextRun { content, .. } => Some(content.clone()),
            _ => None,
        })
        .collect();
    assert_eq!(texts[0], "TERRITORY ASSIGNMENT");
    assert!(texts.iter().any(|t| t.starts_with("Territory Number:")));
    assert!(texts.iter().any(|t| t == "ASSIGNMENT DETAILS"));
    assert_eq!(texts.last().unwrap(), "Circuit Assistant Mobile Companion");
}

#[test]
fn today_label_is_a_slash_separated_date() {
    let label = schedule_pdf::backend::today_label();
    assert_eq!(label.len(), 10);
    let b = label.as_bytes();
    assert_eq!(b[2], b'/');
    assert_eq!(b[5], b'/');
}
