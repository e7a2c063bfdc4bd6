use schedule_pdf::samples::{
    create_sample_ics_content, create_sample_vcard_content, greet, ics_export_filename,
    test_db_connection, vcard_export_filename,
};

#[test]
fn ics_content_is_a_complete_calendar() {
    let ics = create_sample_ics_content();
    assert!(ics.starts_with("BEGIN:VCALENDAR\r\n"));
    assert!(ics.ends_with("END:VCALENDAR\r\n"));
    assert!(ics.contains("SUMMARY:Circuit Overseer Visit\r\n"));
    assert!(ics.contains("DTSTART:20251115T100000Z\r\n"));
    assert!(ics.contains("LOCATION:Kingdom Hall\r\n"));
}

#[test]
fn vcard_content_is_a_complete_card() {
    let vcf = create_sample_vcard_content();
    assert!(vcf.starts_with("BEGIN:VCARD\r\n"));
    assert!(vcf.ends_with("END:VCARD\r\n"));
    assert!(vcf.contains("FN:John Smith\r\n"));
    assert!(vcf.contains("TEL;TYPE=CELL:+1-555-123-4567\r\n"));
}

#[test]
fn export_filenames_are_fixed() {
    assert_eq!(ics_export_filename(), "CircuitOverseerVisit.ics");
    assert_eq!(vcard_export_filename(), "JohnSmith.vcf");
}

#[test]
fn greeting_embeds_the_name() {
    assert_eq!(greet("World"), "Hello, World! You've been greeted from Rust!");
    assert_eq!(greet(""), "Hello, ! You've been greeted from Rust!");
}

#[test]
fn sample_events_are_valid_json() {
    let json = schedule_pdf::samples::create_sample_events();
    let parsed: serde_json::Value = serde_json::from_str(&json).expect("sample events parse");
    let events = parsed.as_array().expect("an array of events");
    assert_eq!(events.len(), 5);
    assert_eq!(events[0]["title"], "Circuit Overseer Visit");
    assert_eq!(events[4]["color"], "orange");
}

#[test]
fn content_getters_match_the_creators() {
    assert_eq!(
        schedule_pdf::samples::get_ics_content(),
        schedule_pdf::samples::create_sample_ics_content()
    );
    assert_eq!(
        schedule_pdf::samples::get_vcard_content(),
        schedule_pdf::samples::create_sample_vcard_content()
    );
}

#[test]
fn db_status_string_is_fixed() {
    assert_eq!(test_db_connection(), "Database ready: camc.db");
}
