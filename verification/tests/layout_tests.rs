use schedule_pdf::model::{DrawOp, FontKind, ListItem};
use schedule_pdf::layout::build_document;
use schedule_pdf::units::{Margins, Orientation, PageSize, PrintSettings, ViewMode};
use schedule_pdf::units::{content_h_exec, content_w_exec, page_height_mpt_exec, page_width_mpt_exec};

fn settings(view_mode: ViewMode) -> PrintSettings {
    PrintSettings {
        page_size: PageSize::Letter,
        orientation: Orientation::Portrait,
        // 10 mm margins, in hundredths of a millimeter.
        margins: Margins { top: 1000, bottom: 1000, left: 1000, right: 1000 },
        font_size: 10,
        view_mode,
    }
}

fn simple_item(theme: &str) -> ListItem {
    ListItem {
        time: None,
        item_number: None,
        theme: theme.to_string(),
        speaker: None,
        item_type: None,
        duration: None,
        instructions: None,
    }
}

#[test]
fn geometry_positive_for_all_combinations() {
    let sizes = [PageSize::Letter, PageSize::A4, PageSize::Legal];
    let orients = [Orientation::Portrait, Orientation::Landscape];
    for &page_size in &sizes {
        for &orientation in &orients {
            let s = PrintSettings { page_size, orientation, ..settings(ViewMode::Summary) };
            assert!(content_w_exec(&s) > 0);
            assert!(content_h_exec(&s) > 0);
            let w = page_width_mpt_exec(page_size, orientation);
            let h = page_height_mpt_exec(page_size, orientation);
            assert!(w > 0 && h > 0);
        }
    }
    // The five column fractions sum to exactly 100%.
    assert_eq!(
        schedule_pdf::units::COL_TIME_PCT
            + schedule_pdf::units::COL_THEME_PCT
            + schedule_pdf::units::COL_SPEAKER_PCT
            + schedule_pdf::units::COL_TYPE_PCT
            + schedule_pdf::units::COL_INSTRUCTIONS_PCT,
        100
    );
}

#[test]
fn page_geometry_lookup_table() {
    assert_eq!(page_width_mpt_exec(PageSize::Letter, Orientation::Portrait), 612_000);
    assert_eq!(page_height_mpt_exec(PageSize::Letter, Orientation::Portrait), 792_000);
    assert_eq!(page_width_mpt_exec(PageSize::A4, Orientation::Portrait), 595_000);
    assert_eq!(page_height_mpt_exec(PageSize::A4, Orientation::Portrait), 842_000);
    assert_eq!(page_width_mpt_exec(PageSize::Legal, Orientation::Portrait), 612_000);
    assert_eq!(page_height_mpt_exec(PageSize::Legal, Orientation::Portrait), 1_008_000);
    assert_eq!(page_width_mpt_exec(PageSize::A4, Orientation::Landscape), 842_000);
    assert_eq!(page_height_mpt_exec(PageSize::A4, Orientation::Landscape), 595_000);
}

#[test]
fn zero_records_still_renders_title_and_header() {
    let items: Vec<ListItem> = Vec::new();
    let doc = build_document(&items, &settings(ViewMode::Summary), "01/02/2025");
    assert_eq!(doc.pages.len(), 1);
    let ops = &doc.pages[0].ops;
    assert!(!ops.is_empty());
    match &ops[0] {
        DrawOp::TextRun { content, font, .. } => {
            assert_eq!(content, "Program Schedule");
            assert!(matches!(font, FontKind::Bold));
        }
        other => panic!("first operation is not the title run: {:?}", op_kind(other)),
    }
    // The header captions are rendered on the page.
    let texts: Vec<String> = ops
        .iter()
        .filter_map(|op| match op {
            DrawOp::TextRun { content, .. } => Some(content.clone()),
            _ => None,
        })
        .collect();
    for caption in ["Time", "Theme", "Speaker", "Type", "Instructions"] {
        assert!(texts.iter().any(|t| t == caption), "missing caption {caption}");
    }
}

fn op_kind(op: &DrawOp) -> &'static str {
    match op {
        DrawOp::TextRun { .. } => "text",
        DrawOp::LineSeg { .. } => "line",
        DrawOp::RectFill { .. } => "rect",
    }
}

#[test]
fn sixty_records_paginate_to_two_pages() {
    // Letter portrait, 10 mm margins, font 10: the cursor starts at
    // 763654 mpt; title (30000), date (37500), one intro line (15000),
    // blank line (15000) and header (18000) leave 648154 mpt. Rows are
    // 18000 mpt tall and must keep 28346 mpt of bottom margin, so page
    // one holds 34 rows and page two holds the remaining 26.
    let items: Vec<ListItem> = (0..60).map(|i| simple_item(&format!("Item {i}"))).collect();
    let doc = build_document(&items, &settings(ViewMode::Summary), "01/02/2025");
    assert_eq!(doc.pages.len(), 2);
}

#[test]
fn row_operations_never_split_across_pages() {
    // Each record's rule line is immediately followed on the same page
    // by its theme text; a split row would separate them.
    let items: Vec<ListItem> = (0..60).map(|i| simple_item(&format!("Item {i}"))).collect();
    let doc = build_document(&items, &settings(ViewMode::Summary), "01/02/2025");
    let mut seen = 0;
    for page in &doc.pages {
        let mut idx = 0;
        while idx < page.ops.len() {
            if let DrawOp::LineSeg { width_mpt: 500, .. } = page.ops[idx] {
                // The row's theme run lies on the same page right after its rule.
                assert!(idx + 1 < page.ops.len(), "row rule without its text on one page");
                match &page.ops[idx + 1] {
                    DrawOp::TextRun { content, .. } => {
                        assert_eq!(content, &format!("Item {seen}"));
                    }
                    _ => panic!("expected the row's theme text after its rule"),
                }
                seen += 1;
            }
            idx += 1;
        }
    }
    assert_eq!(seen, 60);
}

#[test]
fn detailed_mode_renders_instructions_and_grows_rows() {
    let mut item = simple_item("Opening");
    item.instructions = Some(
        "Please remember to greet all visitors warmly and direct them to their seats before \
         the session begins"
            .to_string(),
    );
    let s = settings(ViewMode::Detailed);
    let h = schedule_pdf::layout::item_height_exec(&item, &s);
    // Base row height is 18 pt; the instructions wrap to several lines
    // of 15 pt each in the instructions column.
    assert!(h > 18_000);

    let doc = build_document(&vec![item.clone()], &s, "01/02/2025");
    let texts: Vec<String> = doc.pages[0]
        .ops
        .iter()
        .filter_map(|op| match op {
            DrawOp::TextRun { content, .. } => Some(content.clone()),
            _ => None,
        })
        .collect();
    assert!(texts.iter().any(|t| t.starts_with("Please remember")));

    // Summary mode omits the instructions column.
    let doc2 = build_document(&vec![item], &settings(ViewMode::Summary), "01/02/2025");
    let texts2: Vec<String> = doc2.pages[0]
        .ops
        .iter()
        .filter_map(|op| match op {
            DrawOp::TextRun { content, .. } => Some(content.clone()),
            _ => None,
        })
        .collect();
    assert!(!texts2.iter().any(|t| t.starts_with("Please remember")));
}

#[test]
fn theme_and_type_cells_compose_their_texts() {
    let item = ListItem {
        time: Some("10:00".to_string()),
        item_number: Some("3".to_string()),
        theme: "Opening Remarks".to_string(),
        speaker: Some("J. Doe".to_string()),
        item_type: Some("Talk".to_string()),
        duration: Some("10 min".to_string()),
        instructions: None,
    };
    assert_eq!(schedule_pdf::layout::theme_text(&item), "3: Opening Remarks");
    assert_eq!(schedule_pdf::layout::type_text(&item), "Talk (10 min)");
    let bare = simple_item("Song");
    assert_eq!(schedule_pdf::layout::theme_text(&bare), "Song");
    assert_eq!(schedule_pdf::layout::type_text(&bare), "");
    // A duration without a type is not rendered.
    let mut dur_only = simple_item("Song");
    dur_only.duration = Some("5 min".to_string());
    assert_eq!(schedule_pdf::layout::type_text(&dur_only), "");
}

#[test]
fn date_line_carries_the_supplied_label() {
    let items: Vec<ListItem> = Vec::new();
    let doc = build_document(&items, &settings(ViewMode::Summary), "11/09/2025");
    match &doc.pages[0].ops[1] {
        DrawOp::TextRun { content, .. } => assert_eq!(content, "Generated: 11/09/2025"),
        _ => panic!("second operation is not the date line"),
    }
}
