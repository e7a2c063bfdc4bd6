//! Fixed text content the host exports besides PDFs: a sample calendar
//! event, a sample contact card, sample event data, and the small
//! greeting and status strings of the command surface.

use vstd::prelude::*;

verus! {

/// The sample calendar content.
pub open spec fn ics_content_v() -> Seq<char> {
    "BEGIN:VCALENDAR\r\nVERSION:2.0\r\nPRODID:-//Circuit Assistant//EN\r\nBEGIN:VEVENT\r\nUID:sample-event-001@circuitassistant.org\r\nDTSTAMP:20251109T120000Z\r\nDTSTART:20251115T100000Z\r\nDTEND:20251115T110000Z\r\nSUMMARY:Circuit Overseer Visit\r\nDESCRIPTION:Weekly meeting with Circuit Overseer talk\r\nLOCATION:Kingdom Hall\r\nSTATUS:CONFIRMED\r\nEND:VEVENT\r\nEND:VCALENDAR\r\n"@
}

/// Creates sample ICS calendar content.
pub fn create_sample_ics_content() -> (r: String)
    ensures
        r@ == ics_content_v(),
{
    String::from_str(
        "BEGIN:VCALENDAR\r\nVERSION:2.0\r\nPRODID:-//Circuit Assistant//EN\r\nBEGIN:VEVENT\r\nUID:sample-event-001@circuitassistant.org\r\nDTSTAMP:20251109T120000Z\r\nDTSTART:20251115T100000Z\r\nDTEND:20251115T110000Z\r\nSUMMARY:Circuit Overseer Visit\r\nDESCRIPTION:Weekly meeting with Circuit Overseer talk\r\nLOCATION:Kingdom Hall\r\nSTATUS:CONFIRMED\r\nEND:VEVENT\r\nEND:VCALENDAR\r\n",
    )
}

/// The sample contact card content.
pub open spec fn vcard_content_v() -> Seq<char> {
    "BEGIN:VCARD\r\nVERSION:3.0\r\nFN:John Smith\r\nN:Smith;John;;;\r\nORG:Kingdom Hall of Jehovah's Witnesses\r\nTITLE:Elder\r\nTEL;TYPE=CELL:+1-555-123-4567\r\nEMAIL:john.smith@example.com\r\nADR;TYPE=HOME:;;123 Main Street;Anytown;CA;12345;USA\r\nNOTE:Circuit Overseer Contact\r\nEND:VCARD\r\n"@
}

/// Creates sample vCard contact content.
pub fn create_sample_vcard_content() -> (r: String)
    ensures
        r@ == vcard_content_v(),
{
    String::from_str(
        "BEGIN:VCARD\r\nVERSION:3.0\r\nFN:John Smith\r\nN:Smith;John;;;\r\nORG:Kingdom Hall of Jehovah's Witnesses\r\nTITLE:Elder\r\nTEL;TYPE=CELL:+1-555-123-4567\r\nEMAIL:john.smith@example.com\r\nADR;TYPE=HOME:;;123 Main Street;Anytown;CA;12345;USA\r\nNOTE:Circuit Overseer Contact\r\nEND:VCARD\r\n",
    )
}

/// The fixed name of the export file the calendar content is written to.
pub fn ics_export_filename() -> (r: String)
    ensures
        r@ == "CircuitOverseerVisit.ics"@,
{
    String::from_str("CircuitOverseerVisit.ics")
}

/// The fixed name of the export file the contact content is written to.
pub fn vcard_export_filename() -> (r: String)
    ensures
        r@ == "JohnSmith.vcf"@,
{
    String::from_str("JohnSmith.vcf")
}

/// ICS content handed to the host UI, which performs the save itself
/// on platforms where the engine cannot write files.
pub fn get_ics_content() -> (r: String)
    ensures
        r@ == ics_content_v(),
{
    create_sample_ics_content()
}

/// vCard content handed to the host UI, which performs the save itself
/// on platforms where the engine cannot write files.
pub fn get_vcard_content() -> (r: String)
    ensures
        r@ == vcard_content_v(),
{
    create_sample_vcard_content()
}

/// The sample events data written for testing the host's JSON import.
pub open spec fn sample_events_v() -> Seq<char> {
    "[\n  {\n    \"title\": \"Circuit Overseer Visit\",\n    \"date\": \"2025-11-11\",\n    \"time\": \"7:00 PM\",\n    \"location\": \"Kingdom Hall\",\n    \"description\": \"Weekly meeting with Circuit Overseer talk\",\n    \"color\": \"primary\"\n  },\n  {\n    \"title\": \"Field Service\",\n    \"date\": \"2025-11-12\",\n    \"time\": \"9:30 AM\",\n    \"location\": \"Kingdom Hall\",\n    \"description\": \"Morning service arrangement\",\n    \"color\": \"green\"\n  },\n  {\n    \"title\": \"Servants Meeting\",\n    \"date\": \"2025-11-12\",\n    \"time\": \"6:00 PM\",\n    \"location\": \"Kingdom Hall\",\n    \"description\": \"Meeting with elders and ministerial servants\",\n    \"color\": \"blue\"\n  },\n  {\n    \"title\": \"Pioneers Meeting\",\n    \"date\": \"2025-11-13\",\n    \"time\": \"6:00 PM\",\n    \"location\": \"Kingdom Hall\",\n    \"description\": \"Meeting with regular and auxiliary pioneers\",\n    \"color\": \"purple\"\n  },\n  {\n    \"title\": \"Weekend Meeting\",\n    \"date\": \"2025-11-16\",\n    \"time\": \"10:00 AM\",\n    \"location\": \"Kingdom Hall\",\n    \"description\": \"Public talk and Watchtower study\",\n    \"color\": \"orange\"\n  }\n]"@
}

/// Creates the sample events JSON document.
pub fn create_sample_events() -> (r: String)
    ensures
        r@ == sample_events_v(),
{
    String::from_str(
        "[\n  {\n    \"title\": \"Circuit Overseer Visit\",\n    \"date\": \"2025-11-11\",\n    \"time\": \"7:00 PM\",\n    \"location\": \"Kingdom Hall\",\n    \"description\": \"Weekly meeting with Circuit Overseer talk\",\n    \"color\": \"primary\"\n  },\n  {\n    \"title\": \"Field Service\",\n    \"date\": \"2025-11-12\",\n    \"time\": \"9:30 AM\",\n    \"location\": \"Kingdom Hall\",\n    \"description\": \"Morning service arrangement\",\n    \"color\": \"green\"\n  },\n  {\n    \"title\": \"Servants Meeting\",\n    \"date\": \"2025-11-12\",\n    \"time\": \"6:00 PM\",\n    \"location\": \"Kingdom Hall\",\n    \"description\": \"Meeting with elders and ministerial servants\",\n    \"color\": \"blue\"\n  },\n  {\n    \"title\": \"Pioneers Meeting\",\n    \"date\": \"2025-11-13\",\n    \"time\": \"6:00 PM\",\n    \"location\": \"Kingdom Hall\",\n    \"description\": \"Meeting with regular and auxiliary pioneers\",\n    \"color\": \"purple\"\n  },\n  {\n    \"title\": \"Weekend Meeting\",\n    \"date\": \"2025-11-16\",\n    \"time\": \"10:00 AM\",\n    \"location\": \"Kingdom Hall\",\n    \"description\": \"Public talk and Watchtower study\",\n    \"color\": \"orange\"\n  }\n]",
    )
}

/// The greeting returned to the host UI for a given name.
pub fn greet(name: &str) -> (r: String)
    ensures
        r@ == "Hello, "@ + name@ + "! You've been greeted from Rust!"@,
{
    let mut r = String::from_str("Hello, ");
    r.append(name);
    r.append("! You've been greeted from Rust!");
    r
}

/// The database readiness status string.
pub fn test_db_connection() -> (r: String)
    ensures
        r@ == "Database ready: camc.db"@,
{
    String::from_str("Database ready: camc.db")
}

} // verus!
