//! The three fixed fill-in forms: a meeting schedule, a territory
//! assignment record, and a field service report.  Each is built as a
//! one-page document of draw operations and can be rendered through any
//! backend; each builder's result is pinned exactly by a spec function.
//!
//! The meeting schedule and service report position their content in
//! millimeters (converted exactly to millipoints); the territory
//! assignment positions its lines in whole points, as its fill-in
//! underscores are part of the text itself.

use crate::model::{Color, DocModel, DrawOp, FontKind, OpModel, PageModel, PageV};
use vstd::prelude::*;

verus! {

/// Millimeters to millipoints (1 mm = 283.465 mpt x 10), rounding down.
pub open spec fn mm_mpt(mm: int) -> int {
    mm * 283465 / 100
}

/// Exec counterpart of [`mm_mpt`].
pub fn mm_mpt_exec(mm: i64) -> (r: i64)
    requires
        0 <= mm <= 1000000,
    ensures
        r == mm_mpt(mm as int),
{
    mm * 283465 / 100
}

/// A text run op at millimeter coordinates.
pub open spec fn text_mm(s: Seq<char>, bold: bool, size_mpt: int, x_mm: int, y_mm: int) -> OpModel {
    OpModel::TextRun {
        content: s,
        font: if bold {
            FontKind::Bold
        } else {
            FontKind::Regular
        },
        size_mpt: size_mpt,
        color: crate::layout::black(),
        x: mm_mpt(x_mm),
        y: mm_mpt(y_mm),
    }
}

/// A fill-in line op between millimeter coordinates, half a point wide.
pub open spec fn rule_mm(x1_mm: int, y1_mm: int, x2_mm: int, y2_mm: int) -> OpModel {
    OpModel::LineSeg {
        x1: mm_mpt(x1_mm),
        y1: mm_mpt(y1_mm),
        x2: mm_mpt(x2_mm),
        y2: mm_mpt(y2_mm),
        width_mpt: 500,
        color: crate::layout::black(),
    }
}

/// A labeled fill-in field: the label at the left column and an
/// underline from `field_x` spanning `width` millimeters, two
/// millimeters under the label's baseline.
pub open spec fn field_ops(label: Seq<char>, y_mm: int, field_x: int, width: int) -> Seq<OpModel> {
    seq![
        text_mm(label, false, 11000, 20, y_mm),
        rule_mm(field_x, y_mm - 2, field_x + width, y_mm - 2),
    ]
}

/// A checkbox drawn as four half-point lines on a five-millimeter
/// square, with its label beside it.
pub open spec fn checkbox_ops(label: Seq<char>, y_mm: int) -> Seq<OpModel> {
    seq![
        rule_mm(20, y_mm, 25, y_mm),
        rule_mm(25, y_mm, 25, y_mm + 5),
        rule_mm(25, y_mm + 5, 20, y_mm + 5),
        rule_mm(20, y_mm + 5, 20, y_mm),
        text_mm(label, false, 11000, 28, y_mm + 1),
    ]
}

/// Pushes one text run at millimeter coordinates.
fn push_text_mm(ops: &mut Vec<DrawOp>, s: &str, bold: bool, size_mpt: i64, x_mm: i64, y_mm: i64)
    requires
        0 <= x_mm <= 1000000,
        0 <= y_mm <= 1000000,
    ensures
        crate::layout::ops_views(final(ops)@) == crate::layout::ops_views(old(ops)@) + seq![
            text_mm(s@, bold, size_mpt as int, x_mm as int, y_mm as int),
        ],
{
    let ghost o = crate::layout::ops_views(ops@);
    ops.push(
        DrawOp::TextRun {
            content: String::from_str(s),
            font: if bold {
                FontKind::Bold
            } else {
                FontKind::Regular
            },
            size_mpt: size_mpt,
            color: Color { r: 0, g: 0, b: 0 },
            x: mm_mpt_exec(x_mm),
            y: mm_mpt_exec(y_mm),
        },
    );
    proof {
        assert(crate::layout::ops_views(ops@) =~~= o + seq![
            text_mm(s@, bold, size_mpt as int, x_mm as int, y_mm as int),
        ]);
    }
}

/// Pushes one fill-in line at millimeter coordinates.
fn push_rule_mm(ops: &mut Vec<DrawOp>, x1_mm: i64, y1_mm: i64, x2_mm: i64, y2_mm: i64)
    requires
        0 <= x1_mm <= 1000000,
        0 <= y1_mm <= 1000000,
        0 <= x2_mm <= 1000000,
        0 <= y2_mm <= 1000000,
    ensures
        crate::layout::ops_views(final(ops)@) == crate::layout::ops_views(old(ops)@) + seq![
            rule_mm(x1_mm as int, y1_mm as int, x2_mm as int, y2_mm as int),
        ],
{
    let ghost o = crate::layout::ops_views(ops@);
    ops.push(
        DrawOp::LineSeg {
            x1: mm_mpt_exec(x1_mm),
            y1: mm_mpt_exec(y1_mm),
            x2: mm_mpt_exec(x2_mm),
            y2: mm_mpt_exec(y2_mm),
            width_mpt: 500,
            color: Color { r: 0, g: 0, b: 0 },
        },
    );
    proof {
        assert(crate::layout::ops_views(ops@) =~~= o + seq![
            rule_mm(x1_mm as int, y1_mm as int, x2_mm as int, y2_mm as int),
        ]);
    }
}

/// Pushes one labeled fill-in field; see [`field_ops`].
fn push_field(ops: &mut Vec<DrawOp>, label: &str, y_mm: i64, field_x: i64, width: i64)
    requires
        2 <= y_mm <= 100000,
        0 <= field_x <= 100000,
        0 <= width <= 100000,
    ensures
        crate::layout::ops_views(final(ops)@) == crate::layout::ops_views(old(ops)@) + field_ops(
            label@,
            y_mm as int,
            field_x as int,
            width as int,
        ),
{
    let ghost o = crate::layout::ops_views(ops@);
    push_text_mm(ops, label, false, 11000, 20, y_mm);
    push_rule_mm(ops, field_x, y_mm - 2, field_x + width, y_mm - 2);
    proof {
        assert(crate::layout::ops_views(ops@) =~~= o + field_ops(
            label@,
            y_mm as int,
            field_x as int,
            width as int,
        ));
    }
}

/// Pushes one checkbox with its label; see [`checkbox_ops`].
fn push_checkbox(ops: &mut Vec<DrawOp>, label: &str, y_mm: i64)
    requires
        0 <= y_mm <= 100000,
    ensures
        crate::layout::ops_views(final(ops)@) == crate::layout::ops_views(old(ops)@)
            + checkbox_ops(label@, y_mm as int),
{
    let ghost o = crate::layout::ops_views(ops@);
    push_rule_mm(ops, 20, y_mm, 25, y_mm);
    push_rule_mm(ops, 25, y_mm, 25, y_mm + 5);
    push_rule_mm(ops, 25, y_mm + 5, 20, y_mm + 5);
    push_rule_mm(ops, 20, y_mm + 5, 20, y_mm);
    push_text_mm(ops, label, false, 11000, 28, y_mm + 1);
    proof {
        assert(crate::layout::ops_views(ops@) =~~= o + checkbox_ops(label@, y_mm as int));
    }
}

/// The one page of the meeting schedule form: title, subtitle, the
/// congregation and week fields, the midweek and weekend meeting
/// sections with their fields, and the footer.
pub open spec fn meeting_form_ops() -> Seq<OpModel> {
    seq![text_mm("MEETING SCHEDULE"@, true, 20000, 105, 270)] + seq![
        text_mm("Congregation Meeting Information"@, false, 12000, 70, 260),
    ] + field_ops("Congregation:"@, 240, 80, 100) + field_ops("Week of:"@, 225, 80, 100) + seq![
        text_mm("MIDWEEK MEETING"@, true, 13000, 20, 200),
    ] + field_ops("Date:"@, 185, 80, 100) + field_ops("Time:"@, 173, 80, 100) + field_ops(
        "Location:"@,
        161,
        80,
        100,
    ) + field_ops("Chairman:"@, 149, 80, 100) + seq![
        text_mm("WEEKEND MEETING"@, true, 13000, 20, 129),
    ] + field_ops("Date:"@, 114, 80, 100) + field_ops("Time:"@, 102, 80, 100) + field_ops(
        "Speaker:"@,
        90,
        80,
        100,
    ) + field_ops("Talk Title:"@, 78, 80, 100) + seq![
        text_mm("Circuit Assistant Mobile Companion"@, false, 8000, 60, 20),
    ]
}

/// The meeting schedule document: one A4 portrait page (210 x 297 mm)
/// holding exactly [`meeting_form_ops`].
pub open spec fn meeting_form_doc() -> crate::model::DocV {
    crate::model::DocV {
        title: "Meeting Schedule"@,
        pages: seq![
            PageV { width: mm_mpt(210), height: mm_mpt(297), ops: meeting_form_ops() },
        ],
    }
}

/// Builds the meeting schedule form.
pub fn meeting_schedule_document() -> (d: DocModel)
    ensures
        d@ == meeting_form_doc(),
{
    let mut ops: Vec<DrawOp> = Vec::new();
    push_text_mm(&mut ops, "MEETING SCHEDULE", true, 20000, 105, 270);
    push_text_mm(&mut ops, "Congregation Meeting Information", false, 12000, 70, 260);
    push_field(&mut ops, "Congregation:", 240, 80, 100);
    push_field(&mut ops, "Week of:", 225, 80, 100);
    push_text_mm(&mut ops, "MIDWEEK MEETING", true, 13000, 20, 200);
    push_field(&mut ops, "Date:", 185, 80, 100);
    push_field(&mut ops, "Time:", 173, 80, 100);
    push_field(&mut ops, "Location:", 161, 80, 100);
    push_field(&mut ops, "Chairman:", 149, 80, 100);
    push_text_mm(&mut ops, "WEEKEND MEETING", true, 13000, 20, 129);
    push_field(&mut ops, "Date:", 114, 80, 100);
    push_field(&mut ops, "Time:", 102, 80, 100);
    push_field(&mut ops, "Speaker:", 90, 80, 100);
    push_field(&mut ops, "Talk Title:", 78, 80, 100);
    push_text_mm(&mut ops, "Circuit Assistant Mobile Companion", false, 8000, 60, 20);
    proof {
        assert(crate::layout::ops_views(ops@) =~~= meeting_form_ops());
    }
    let page = PageModel { width_mpt: mm_mpt_exec(210), height_mpt: mm_mpt_exec(297), ops };
    let mut pages: Vec<PageModel> = Vec::new();
    pages.push(page);
    let d = DocModel { title: String::from_str("Meeting Schedule"), pages };
    proof {
        assert(d@ =~~= meeting_form_doc());
    }
    d
}

/// The one page of the field service report form: title, subtitle, the
/// identity fields, the ministry activity fields, the attendance
/// checkboxes, and the footer.
pub open spec fn service_form_ops() -> Seq<OpModel> {
    seq![text_mm("FIELD SERVICE REPORT"@, true, 20000, 60, 270)] + seq![
        text_mm("Monthly Activity Summary"@, false, 12000, 70, 260),
    ] + field_ops("Name:"@, 240, 80, 110) + field_ops("Month:"@, 228, 80, 110) + field_ops(
        "Congregation:"@,
        216,
        80,
        110,
    ) + seq![text_mm("MINISTRY ACTIVITY"@, true, 13000, 20, 196)] + field_ops(
        "Hours:"@,
        181,
        80,
        110,
    ) + field_ops("Publications:"@, 169, 80, 110) + field_ops("Videos Shown:"@, 157, 80, 110)
        + field_ops("Return Visits:"@, 145, 80, 110) + field_ops("Bible Studies:"@, 133, 80, 110)
        + seq![text_mm("MEETING ATTENDANCE"@, true, 13000, 20, 113)] + checkbox_ops(
        "Attended Midweek Meeting"@,
        98,
    ) + checkbox_ops("Attended Weekend Meeting"@, 88) + seq![
        text_mm("Circuit Assistant Mobile Companion"@, false, 8000, 60, 20),
    ]
}

/// The service report document: one A4 portrait page (210 x 297 mm)
/// holding exactly [`service_form_ops`].
pub open spec fn service_form_doc() -> crate::model::DocV {
    crate::model::DocV {
        title: "Field Service Report"@,
        pages: seq![
            PageV { width: mm_mpt(210), height: mm_mpt(297), ops: service_form_ops() },
        ],
    }
}

/// Builds the field service report form.
pub fn service_report_document() -> (d: DocModel)
    ensures
        d@ == service_form_doc(),
{
    let mut ops: Vec<DrawOp> = Vec::new();
    push_text_mm(&mut ops, "FIELD SERVICE REPORT", true, 20000, 60, 270);
    push_text_mm(&mut ops, "Monthly Activity Summary", false, 12000, 70, 260);
    push_field(&mut ops, "Name:", 240, 80, 110);
    push_field(&mut ops, "Month:", 228, 80, 110);
    push_field(&mut ops, "Congregation:", 216, 80, 110);
    push_text_mm(&mut ops, "MINISTRY ACTIVITY", true, 13000, 20, 196);
    push_field(&mut ops, "Hours:", 181, 80, 110);
    push_field(&mut ops, "Publications:", 169, 80, 110);
    push_field(&mut ops, "Videos Shown:", 157, 80, 110);
    push_field(&mut ops, "Return Visits:", 145, 80, 110);
    push_field(&mut ops, "Bible Studies:", 133, 80, 110);
    push_text_mm(&mut ops, "MEETING ATTENDANCE", true, 13000, 20, 113);
    push_checkbox(&mut ops, "Attended Midweek Meeting", 98);
    push_checkbox(&mut ops, "Attended Weekend Meeting", 88);
    push_text_mm(&mut ops, "Circuit Assistant Mobile Companion", false, 8000, 60, 20);
    proof {
        assert(crate::layout::ops_views(ops@) =~~= service_form_ops());
    }
    let page = PageModel { width_mpt: mm_mpt_exec(210), height_mpt: mm_mpt_exec(297), ops };
    let mut pages: Vec<PageModel> = Vec::new();
    pages.push(page);
    let d = DocModel { title: String::from_str("Field Service Report"), pages };
    proof {
        assert(d@ =~~= service_form_doc());
    }
    d
}

/// A text run op at point coordinates (used by the territory form,
/// whose fill-in underscores are part of the text).
pub open spec fn text_pt(s: Seq<char>, bold: bool, size_mpt: int, x_pt: int, y_pt: int) -> OpModel {
    OpModel::TextRun {
        content: s,
        font: if bold {
            FontKind::Bold
        } else {
            FontKind::Regular
        },
        size_mpt: size_mpt,
        color: crate::layout::black(),
        x: x_pt * 1000,
        y: y_pt * 1000,
    }
}

/// Pushes one text run at point coordinates.
fn push_text_pt(ops: &mut Vec<DrawOp>, s: &str, bold: bool, size_mpt: i64, x_pt: i64, y_pt: i64)
    requires
        -1000000 <= x_pt <= 1000000,
        -1000000 <= y_pt <= 1000000,
    ensures
        crate::layout::ops_views(final(ops)@) == crate::layout::ops_views(old(ops)@) + seq![
            text_pt(s@, bold, size_mpt as int, x_pt as int, y_pt as int),
        ],
{
    let ghost o = crate::layout::ops_views(ops@);
    ops.push(
        DrawOp::TextRun {
            content: String::from_str(s),
            font: if bold {
                FontKind::Bold
            } else {
                FontKind::Regular
            },
            size_mpt: size_mpt,
            color: Color { r: 0, g: 0, b: 0 },
            x: x_pt * 1000,
            y: y_pt * 1000,
        },
    );
    proof {
        assert(crate::layout::ops_views(ops@) =~~= o + seq![
            text_pt(s@, bold, size_mpt as int, x_pt as int, y_pt as int),
        ]);
    }
}

/// The one page of the territory assignment record: title, subtitle,
/// the fill-in lines (whose underscores are part of the text), the
/// assignment details section, and the footer.
pub open spec fn territory_form_ops() -> Seq<OpModel> {
    seq![text_pt("TERRITORY ASSIGNMENT"@, true, 20000, 100, 750)] + seq![
        text_pt("Territory Record"@, false, 12000, 150, 730),
    ] + seq![text_pt("Territory Number: ________________"@, false, 11000, 50, 680)] + seq![
        text_pt("Publisher Name: __________________"@, false, 11000, 50, 665),
    ] + seq![text_pt("Date Assigned: ___________________"@, false, 11000, 50, 650)] + seq![
        text_pt("Date Completed: __________________"@, false, 11000, 50, 635),
    ] + seq![text_pt("ASSIGNMENT DETAILS"@, true, 13000, 50, 625)] + seq![
        text_pt("Description: _____________________"@, false, 11000, 50, 595),
    ] + seq![text_pt("_____________________________________"@, false, 11000, 50, 580)] + seq![
        text_pt("Boundaries: ______________________"@, false, 11000, 50, 555),
    ] + seq![text_pt("_____________________________________"@, false, 11000, 50, 540)] + seq![
        text_pt("Special Notes: ___________________"@, false, 11000, 50, 515),
    ] + seq![text_pt("_____________________________________"@, false, 11000, 50, 500)] + seq![
        text_pt("_____________________________________"@, false, 11000, 50, 485),
    ] + seq![text_pt("Circuit Assistant Mobile Companion"@, false, 8000, 200, 50)]
}

/// The territory assignment document: one A4 portrait page measured in
/// whole points (595 x 842 pt) holding exactly [`territory_form_ops`].
pub open spec fn territory_form_doc() -> crate::model::DocV {
    crate::model::DocV {
        title: "Territory Assignment"@,
        pages: seq![PageV { width: 595000, height: 842000, ops: territory_form_ops() }],
    }
}

/// Builds the territory assignment record.
pub fn territory_document() -> (d: DocModel)
    ensures
        d@ == territory_form_doc(),
{
    let mut ops: Vec<DrawOp> = Vec::new();
    push_text_pt(&mut ops, "TERRITORY ASSIGNMENT", true, 20000, 100, 750);
    push_text_pt(&mut ops, "Territory Record", false, 12000, 150, 730);
    push_text_pt(&mut ops, "Territory Number: ________________", false, 11000, 50, 680);
    push_text_pt(&mut ops, "Publisher Name: __________________", false, 11000, 50, 665);
    push_text_pt(&mut ops, "Date Assigned: ___________________", false, 11000, 50, 650);
    push_text_pt(&mut ops, "Date Completed: __________________", false, 11000, 50, 635);
    push_text_pt(&mut ops, "ASSIGNMENT DETAILS", true, 13000, 50, 625);
    push_text_pt(&mut ops, "Description: _____________________", false, 11000, 50, 595);
    push_text_pt(&mut ops, "_____________________________________", false, 11000, 50, 580);
    push_text_pt(&mut ops, "Boundaries: ______________________", false, 11000, 50, 555);
    push_text_pt(&mut ops, "_____________________________________", false, 11000, 50, 540);
    push_text_pt(&mut ops, "Special Notes: ___________________", false, 11000, 50, 515);
    push_text_pt(&mut ops, "_____________________________________", false, 11000, 50, 500);
    push_text_pt(&mut ops, "_____________________________________", false, 11000, 50, 485);
    push_text_pt(&mut ops, "Circuit Assistant Mobile Companion", false, 8000, 200, 50);
    proof {
        assert(crate::layout::ops_views(ops@) =~~= territory_form_ops());
    }
    let page = PageModel { width_mpt: 595000, height_mpt: 842000, ops };
    let mut pages: Vec<PageModel> = Vec::new();
    pages.push(page);
    let d = DocModel { title: String::from_str("Territory Assignment"), pages };
    proof {
        assert(d@ =~~= territory_form_doc());
    }
    d
}

} // verus!
