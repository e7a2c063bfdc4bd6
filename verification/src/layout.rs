//! The layout planner: turns records and print settings into a document
//! of positioned draw operations, breaking pages when content would
//! cross the bottom margin.
//!
//! The whole layout is defined twice: once as spec functions
//! ([`layout_pages`] and its helpers), which are the contract, and once
//! as executable code ([`build_document`]), which is proved to produce
//! exactly the pages the spec functions describe.  A page break is
//! decided per logical unit (a full table row, one wrapped paragraph
//! line, the header row): a unit that would cross the bottom margin is
//! drawn on a fresh page instead, and no unit is ever split between two
//! pages.

use crate::model::{Color, DocV, DocModel, DrawOp, FontKind, ItemV, ListItem, OpModel, PageV};
use crate::units::{
    page_height_mpt_exec,
    col_width, col_width_exec, settings_wf, PrintSettings, ViewMode, COL_INSTRUCTIONS_PCT,
    COL_SPEAKER_PCT, COL_THEME_PCT, COL_TIME_PCT, COL_TYPE_PCT,
};
use crate::wrap::{max_chars_of, views, wrap_spec, wrap_text};
use vstd::prelude::*;

verus! {

/// Black text and rules.
pub open spec fn black() -> Color {
    Color { r: 0, g: 0, b: 0 }
}

/// The light-gray header background (0.96 per channel).
pub open spec fn header_fill() -> Color {
    Color { r: 960, g: 960, b: 960 }
}

/// The dark rule under the header row (0.2 per channel).
pub open spec fn header_rule() -> Color {
    Color { r: 200, g: 200, b: 200 }
}

/// The light rule under each data row (0.9 per channel).
pub open spec fn row_rule() -> Color {
    Color { r: 900, g: 900, b: 900 }
}

/// The document title.
pub open spec fn title_view() -> Seq<char> {
    "Program Schedule"@
}

/// The fixed introduction paragraph rendered above the table.
pub open spec fn intro_view() -> Seq<char> {
    "This document contains the program schedule with detailed information for each item."@
}

/// Line height in millipoints: `font_size * 1.5`.
pub open spec fn line_h(s: PrintSettings) -> int {
    s.font_size * 1500
}

/// Base row height in millipoints: `font_size * 1.8`.
pub open spec fn row_h(s: PrintSettings) -> int {
    s.font_size * 1800
}

/// The running layout state: the operations of every page so far (the
/// last page is the active one) and the cursor y position on it.
pub struct LayoutSt {
    pub pages: Seq<Seq<OpModel>>,
    pub y: int,
}

/// Appends operations to the active page.
pub open spec fn st_emit(st: LayoutSt, ops: Seq<OpModel>) -> LayoutSt {
    LayoutSt { pages: st.pages.update(st.pages.len() - 1, st.pages.last() + ops), y: st.y }
}

/// Moves the cursor down by `d`.
pub open spec fn st_down(st: LayoutSt, d: int) -> LayoutSt {
    LayoutSt { pages: st.pages, y: st.y - d }
}

/// The page-break check, evaluated before each logical unit of height
/// `need`: if the unit would cross the bottom margin, a fresh page is
/// started and the cursor returns to the top margin.
pub open spec fn st_break(st: LayoutSt, need: int, s: PrintSettings) -> LayoutSt {
    if st.y - need < s.margin_bottom() {
        LayoutSt { pages: st.pages.push(Seq::empty()), y: s.page_h() - s.margin_top() }
    } else {
        st
    }
}

/// The x positions of the five columns: time, theme, speaker, type,
/// instructions, each starting where the previous one ends.
pub open spec fn col_x(s: PrintSettings, idx: int) -> int {
    let cw = s.content_w();
    if idx == 0 {
        s.margin_left()
    } else if idx == 1 {
        s.margin_left() + col_width(cw, COL_TIME_PCT as int)
    } else if idx == 2 {
        s.margin_left() + col_width(cw, COL_TIME_PCT as int) + col_width(cw, COL_THEME_PCT as int)
    } else if idx == 3 {
        s.margin_left() + col_width(cw, COL_TIME_PCT as int) + col_width(cw, COL_THEME_PCT as int)
            + col_width(cw, COL_SPEAKER_PCT as int)
    } else {
        s.margin_left() + col_width(cw, COL_TIME_PCT as int) + col_width(cw, COL_THEME_PCT as int)
            + col_width(cw, COL_SPEAKER_PCT as int) + col_width(cw, COL_TYPE_PCT as int)
    }
}

/// The width of column `idx` in millipoints.
pub open spec fn col_w(s: PrintSettings, idx: int) -> int {
    let cw = s.content_w();
    if idx == 0 {
        col_width(cw, COL_TIME_PCT as int)
    } else if idx == 1 {
        col_width(cw, COL_THEME_PCT as int)
    } else if idx == 2 {
        col_width(cw, COL_SPEAKER_PCT as int)
    } else if idx == 3 {
        col_width(cw, COL_TYPE_PCT as int)
    } else {
        col_width(cw, COL_INSTRUCTIONS_PCT as int)
    }
}

/// The text runs of one table cell: the wrapped lines of the cell text,
/// stacked downward from `y_top` with spacing `lh`.
pub open spec fn cell_ops(
    lines: Seq<Seq<char>>,
    x: int,
    y_top: int,
    size: int,
    lh: int,
) -> Seq<OpModel> {
    Seq::new(
        lines.len(),
        |j: int|
            OpModel::TextRun {
                content: lines[j],
                font: FontKind::Regular,
                size_mpt: size,
                color: black(),
                x: x,
                y: y_top - j * lh,
            },
    )
}

/// The theme cell text: `"<item number>: <theme>"` when an item number
/// is present, else the theme alone.
pub open spec fn theme_text_v(it: ItemV) -> Seq<char> {
    match it.item_number {
        Option::Some(n) => n + ": "@ + it.theme,
        Option::None => it.theme,
    }
}

/// The type cell text: `"<type> (<duration>)"` when both are present,
/// the type alone when only it is present, else empty (a duration
/// without a type is not rendered).
pub open spec fn type_text_v(it: ItemV) -> Seq<char> {
    match (it.item_type, it.duration) {
        (Option::Some(t), Option::Some(d)) => t + " ("@ + d + ")"@,
        (Option::Some(t), Option::None) => t,
        _ => Seq::empty(),
    }
}

/// The height of one record's row: the base row height, except in
/// detailed mode with instructions present, where it grows to hold the
/// wrapped instruction lines.  The wrap capacity here is estimated from
/// the full instructions column width (the drawn text itself is wrapped
/// 10 pt narrower; that asymmetry is deliberate and preserved).
pub open spec fn item_height(it: ItemV, s: PrintSettings) -> int {
    if s.view_mode == ViewMode::Detailed && it.instructions is Some {
        let k = wrap_spec(
            it.instructions->0,
            max_chars_of(col_w(s, 4), s.font_size as int),
        ).len() as int;
        if k * line_h(s) > row_h(s) {
            k * line_h(s)
        } else {
            row_h(s)
        }
    } else {
        row_h(s)
    }
}

/// The wrapped lines of one cell's text, at the cell width minus the
/// 10 pt text inset.
pub open spec fn cell_lines(text: Seq<char>, s: PrintSettings, idx: int) -> Seq<Seq<char>> {
    wrap_spec(text, max_chars_of(col_w(s, idx) - 10000, s.font_size as int))
}

/// All draw operations of one record's row, drawn at cursor position
/// `row_y` with row height `ih`: the bottom rule, then the time, theme,
/// speaker, type and (in detailed mode) instructions cells.
pub open spec fn row_ops(it: ItemV, s: PrintSettings, row_y: int, ih: int) -> Seq<OpModel> {
    let fs = s.font_size as int;
    let y_text = row_y - fs * 540;
    let rule = OpModel::LineSeg {
        x1: s.margin_left(),
        y1: row_y - ih,
        x2: s.margin_left() + s.content_w(),
        y2: row_y - ih,
        width_mpt: 500,
        color: row_rule(),
    };
    let time_ops = match it.time {
        Option::Some(t) => cell_ops(
            cell_lines(t, s, 0),
            col_x(s, 0) + 5000,
            y_text,
            fs * 1000,
            line_h(s),
        ),
        Option::None => Seq::empty(),
    };
    let theme_ops = cell_ops(
        cell_lines(theme_text_v(it), s, 1),
        col_x(s, 1) + 5000,
        y_text,
        fs * 1000,
        line_h(s),
    );
    let speaker_ops = match it.speaker {
        Option::Some(t) => cell_ops(
            cell_lines(t, s, 2),
            col_x(s, 2) + 5000,
            y_text,
            fs * 1000,
            line_h(s),
        ),
        Option::None => Seq::empty(),
    };
    let type_ops = if type_text_v(it).len() != 0 {
        cell_ops(cell_lines(type_text_v(it), s, 3), col_x(s, 3) + 5000, y_text, fs * 1000, line_h(s))
    } else {
        Seq::empty()
    };
    let instr_ops = if s.view_mode == ViewMode::Detailed && it.instructions is Some {
        cell_ops(
            cell_lines(it.instructions->0, s, 4),
            col_x(s, 4) + 5000,
            y_text,
            fs * 920,
            line_h(s),
        )
    } else {
        Seq::empty()
    };
    seq![rule] + time_ops + theme_ops + speaker_ops + type_ops + instr_ops
}

/// The seven operations of the table header: the gray background, the
/// five bold column captions, and the dark rule under the row.
pub open spec fn header_ops(s: PrintSettings, y: int) -> Seq<OpModel> {
    let fs = s.font_size as int;
    let y_text = y - fs * 540;
    let cap = |text: Seq<char>, idx: int|
        OpModel::TextRun {
            content: text,
            font: FontKind::Bold,
            size_mpt: fs * 920,
            color: black(),
            x: col_x(s, idx) + 5000,
            y: y_text,
        };
    seq![
        OpModel::RectFill {
            x: s.margin_left(),
            y: y - row_h(s),
            w: s.content_w(),
            h: row_h(s),
            color: header_fill(),
        },
        cap("Time"@, 0),
        cap("Theme"@, 1),
        cap("Speaker"@, 2),
        cap("Type"@, 3),
        cap("Instructions"@, 4),
        OpModel::LineSeg {
            x1: s.margin_left(),
            y1: y - row_h(s),
            x2: s.margin_left() + s.content_w(),
            y2: y - row_h(s),
            width_mpt: 2000,
            color: header_rule(),
        },
    ]
}

/// Lays out a run of already-wrapped paragraph lines: each line gets a
/// page-break check for one line height, is drawn at the left margin,
/// and moves the cursor down one line.
pub open spec fn layout_lines(
    lines: Seq<Seq<char>>,
    s: PrintSettings,
    size: int,
    st: LayoutSt,
) -> LayoutSt
    decreases lines.len(),
{
    if lines.len() == 0 {
        st
    } else {
        let st1 = layout_lines(lines.drop_last(), s, size, st);
        let st2 = st_break(st1, line_h(s), s);
        let st3 = st_emit(
            st2,
            seq![
                OpModel::TextRun {
                    content: lines.last(),
                    font: FontKind::Regular,
                    size_mpt: size,
                    color: black(),
                    x: s.margin_left(),
                    y: st2.y,
                },
            ],
        );
        st_down(st3, line_h(s))
    }
}

/// Lays out the records: each gets its height computed, a page-break
/// check for that full height, its row operations emitted on the (then)
/// active page, and the cursor moved down by the row height.
pub open spec fn layout_items(items: Seq<ItemV>, s: PrintSettings, st: LayoutSt) -> LayoutSt
    decreases items.len(),
{
    if items.len() == 0 {
        st
    } else {
        let st1 = layout_items(items.drop_last(), s, st);
        let it = items.last();
        let ih = item_height(it, s);
        let st2 = st_break(st1, ih, s);
        let st3 = st_emit(st2, row_ops(it, s, st2.y, ih));
        st_down(st3, ih)
    }
}

/// The prologue: title at the top margin, the generation date line, the
/// wrapped introduction paragraph, a blank line, and the table header
/// (the latter two with page-break checks).
pub open spec fn prologue(s: PrintSettings, date: Seq<char>) -> LayoutSt {
    let st4 = pre_header_st(s, date);
    let st5 = st_emit(st4, header_ops(s, st4.y));
    st_down(st5, row_h(s))
}

/// The title op the prologue places first on the first page.
pub open spec fn title_op(s: PrintSettings) -> OpModel {
    OpModel::TextRun {
        content: title_view(),
        font: FontKind::Bold,
        size_mpt: (s.font_size as int) * 2000,
        color: black(),
        x: s.margin_left(),
        y: s.page_h() - s.margin_top(),
    }
}

/// The layout state just before the table header is emitted: title,
/// date line and introduction laid out, and the header's page-break
/// check already taken.
pub open spec fn pre_header_st(s: PrintSettings, date: Seq<char>) -> LayoutSt {
    let fs = s.font_size as int;
    let y0 = s.page_h() - s.margin_top();
    let st0 = LayoutSt { pages: seq![Seq::<OpModel>::empty()], y: y0 };
    let st1 = st_down(st_emit(st0, seq![title_op(s)]), fs * 3000);
    let st2 = st_down(
        st_emit(
            st1,
            seq![
                OpModel::TextRun {
                    content: "Generated: "@ + date,
                    font: FontKind::Regular,
                    size_mpt: fs * 830,
                    color: black(),
                    x: s.margin_left(),
                    y: st1.y,
                },
            ],
        ),
        fs * 3750,
    );
    let intro_lines = wrap_spec(intro_view(), max_chars_of(s.content_w(), fs));
    let st3 = st_down(layout_lines(intro_lines, s, fs * 1000, st2), line_h(s));
    st_break(st3, row_h(s), s)
}

/// The operations of every page of the laid-out document.
pub open spec fn layout_pages(items: Seq<ItemV>, s: PrintSettings, date: Seq<char>) -> Seq<
    Seq<OpModel>,
> {
    layout_items(items, s, prologue(s, date)).pages
}

/// The full expected document model.
pub open spec fn layout_doc(items: Seq<ItemV>, s: PrintSettings, date: Seq<char>) -> DocV {
    DocV {
        title: title_view(),
        pages: layout_pages(items, s, date).map_values(
            |ops: Seq<OpModel>| PageV { width: s.page_w(), height: s.page_h(), ops: ops },
        ),
    }
}

/// Upper bound on the length of any one text field of a record, so that
/// every layout computation fits comfortably in 64-bit arithmetic.
pub const TEXT_MAX: usize = 100000000;

/// A record whose text fields respect [`TEXT_MAX`].
pub open spec fn item_wf(it: ItemV) -> bool {
    &&& (it.time matches Option::Some(t) ==> t.len() <= TEXT_MAX)
    &&& (it.item_number matches Option::Some(t) ==> t.len() <= TEXT_MAX)
    &&& it.theme.len() <= TEXT_MAX
    &&& (it.speaker matches Option::Some(t) ==> t.len() <= TEXT_MAX)
    &&& (it.item_type matches Option::Some(t) ==> t.len() <= TEXT_MAX)
    &&& (it.duration matches Option::Some(t) ==> t.len() <= TEXT_MAX)
    &&& (it.instructions matches Option::Some(t) ==> t.len() <= TEXT_MAX)
}

/// The views of a sequence of records.
pub open spec fn item_views(v: Seq<ListItem>) -> Seq<ItemV> {
    v.map_values(|it: ListItem| it@)
}

/// The views of a sequence of draw operations.
pub open spec fn ops_views(v: Seq<DrawOp>) -> Seq<OpModel> {
    v.map_values(|o: DrawOp| o@)
}

/// The operation sequences of a document's pages.
pub open spec fn pages_ops(d: DocV) -> Seq<Seq<OpModel>> {
    d.pages.map_values(|p: PageV| p.ops)
}

/// Every page of the document has the dimensions the settings dictate.
pub open spec fn pages_sized(d: DocV, s: PrintSettings) -> bool {
    forall|i: int|
        0 <= i < d.pages.len() ==> (#[trigger] d.pages[i]).width == s.page_w() && d.pages[i].height
            == s.page_h()
}

/// Upper bound on any row height: the most wrapped instruction lines a
/// record within the text bound can have, times the largest line
/// height.
pub const IH_MAX: i64 = 15000000150000000;

/// Column geometry bounds that follow from well-formed settings.
pub proof fn lemma_col_bounds(s: PrintSettings)
    requires
        settings_wf(s),
    ensures
        forall|idx: int| 0 <= idx <= 4 ==> 19815 <= #[trigger] col_w(s, idx) <= 352800,
        forall|idx: int| 0 <= idx <= 4 ==> 0 <= #[trigger] col_x(s, idx) <= 1008000,
{
    crate::units::lemma_settings_bounds(s);
    let cw = s.content_w();
    assert forall|idx: int| 0 <= idx <= 4 implies 19815 <= #[trigger] col_w(s, idx) <= 352800 by {
        assert(cw * 10 / 100 >= 19815 && cw * 10 / 100 <= 352800 && cw * 25 / 100 >= 19815 && cw
            * 25 / 100 <= 352800 && cw * 15 / 100 >= 19815 && cw * 15 / 100 <= 352800 && cw * 35
            / 100 >= 19815 && cw * 35 / 100 <= 352800) by (nonlinear_arith)
            requires
                198150 <= cw <= 1008000,
        ;
    }
    assert forall|idx: int| 0 <= idx <= 4 implies 0 <= #[trigger] col_x(s, idx) <= 1008000 by {
        assert(cw * 10 / 100 >= 0 && cw * 25 / 100 >= 0 && cw * 15 / 100 >= 0 && (cw * 10 / 100)
            + (cw * 25 / 100) + (cw * 15 / 100) + (cw * 15 / 100) <= cw) by (nonlinear_arith)
            requires
                198150 <= cw <= 1008000,
        ;
    }
}

/// Appends already-built operations to the active page of the document.
fn append_ops(doc: &mut DocModel, mut ops: Vec<DrawOp>)
    requires
        old(doc)@.pages.len() > 0,
    ensures
        final(doc)@.title == old(doc)@.title,
        final(doc)@.pages.len() == old(doc)@.pages.len(),
        forall|i: int|
            0 <= i < final(doc)@.pages.len() ==> (#[trigger] final(doc)@.pages[i]).width == old(
                doc,
            )@.pages[i].width && final(doc)@.pages[i].height == old(doc)@.pages[i].height,
        pages_ops(final(doc)@) == pages_ops(old(doc)@).update(
            old(doc)@.pages.len() - 1,
            pages_ops(old(doc)@).last() + ops_views(ops@),
        ),
{
    let ghost orig = ops@;
    let ghost d0 = doc@;
    let mut k: usize = 0;
    proof {
        assert(ops_views(orig.take(0)) =~~= Seq::<OpModel>::empty());
        assert(pages_ops(d0).last() + ops_views(orig.take(0)) =~~= pages_ops(d0).last());
        assert(pages_ops(doc@) =~~= pages_ops(d0).update(
            d0.pages.len() - 1,
            pages_ops(d0).last() + ops_views(orig.take(0)),
        ));
    }
    while k < ops.len()
        invariant
            k <= ops.len(),
            ops@ == orig,
            doc@.pages.len() == d0.pages.len() > 0,
            doc@.title == d0.title,
            forall|i: int|
                0 <= i < doc@.pages.len() ==> (#[trigger] doc@.pages[i]).width
                    == d0.pages[i].width && doc@.pages[i].height == d0.pages[i].height,
            pages_ops(doc@) == pages_ops(d0).update(
                d0.pages.len() - 1,
                pages_ops(d0).last() + ops_views(orig.take(k as int)),
            ),
        decreases ops.len() - k,
    {
        let ghost before = doc@;
        let op = ops[k].clone_op();
        let ghost opv = op@;
        doc.append_operation(op);
        k += 1;
        proof {
            assert(opv == orig[k as int - 1]@);
            assert(ops_views(orig.take(k as int)) =~~= ops_views(orig.take(k as int - 1)).push(
                orig[k as int - 1]@,
            ));
            assert(pages_ops(before).last() == pages_ops(d0).last() + ops_views(
                orig.take(k as int - 1),
            ));
            assert(doc@.pages == before.pages.update(
                before.pages.len() - 1,
                PageV {
                    width: before.pages.last().width,
                    height: before.pages.last().height,
                    ops: before.pages.last().ops.push(opv),
                },
            ));
            assert(pages_ops(doc@).last() =~~= pages_ops(d0).last() + ops_views(
                orig.take(k as int),
            ));
            let goal = pages_ops(d0).update(
                d0.pages.len() - 1,
                pages_ops(d0).last() + ops_views(orig.take(k as int)),
            );
            assert forall|i: int| 0 <= i < pages_ops(doc@).len() implies pages_ops(doc@)[i]
                =~~= goal[i] by {
                if i < d0.pages.len() - 1 {
                    assert(pages_ops(doc@)[i] == doc@.pages[i].ops);
                    assert(doc@.pages[i] == before.pages[i]);
                    assert(pages_ops(before)[i] == before.pages[i].ops);
                    assert(pages_ops(before)[i] == pages_ops(d0)[i]);
                } else {
                    assert(pages_ops(doc@)[i] == pages_ops(doc@).last());
                }
            }
            assert(pages_ops(doc@) =~~= goal);
        }
    }
    proof {
        assert(orig.take(orig.len() as int) =~~= orig);
    }
}

impl DrawOp {
    /// An explicit deep copy (the derived clone of a type holding a
    /// `String` carries no specification).
    pub fn clone_op(&self) -> (r: DrawOp)
        ensures
            r@ == self@,
    {
        match self {
            DrawOp::TextRun { content, font, size_mpt, color, x, y } => DrawOp::TextRun {
                content: content.clone(),
                font: *font,
                size_mpt: *size_mpt,
                color: *color,
                x: *x,
                y: *y,
            },
            DrawOp::LineSeg { x1, y1, x2, y2, width_mpt, color } => DrawOp::LineSeg {
                x1: *x1,
                y1: *y1,
                x2: *x2,
                y2: *y2,
                width_mpt: *width_mpt,
                color: *color,
            },
            DrawOp::RectFill { x, y, w, h, color } => DrawOp::RectFill {
                x: *x,
                y: *y,
                w: *w,
                h: *h,
                color: *color,
            },
        }
    }
}

/// Pushes the text runs of one wrapped cell onto an operation list.
fn push_cell(ops: &mut Vec<DrawOp>, lines: &Vec<String>, x: i64, y_top: i64, size: i64, lh: i64)
    requires
        lines@.len() <= 210000000,
        -21000000000000000 <= y_top <= 21000000000000000,
        0 < lh <= 150000000,
    ensures
        ops_views(final(ops)@) == ops_views(old(ops)@) + cell_ops(
            views(lines@),
            x as int,
            y_top as int,
            size as int,
            lh as int,
        ),
{
    let ghost base = ops@;
    let mut j: usize = 0;
    while j < lines.len()
        invariant
            j <= lines@.len(),
            lines@.len() <= 210000000,
            -21000000000000000 <= y_top <= 21000000000000000,
            0 < lh <= 150000000,
            ops_views(ops@) == ops_views(base) + cell_ops(
                views(lines@),
                x as int,
                y_top as int,
                size as int,
                lh as int,
            ).take(j as int),
        decreases lines@.len() - j,
    {
        proof {
            assert(0 <= (j as i64) * lh <= 31500000000000000) by (nonlinear_arith)
                requires
                    0 <= j <= 210000000 && 0 < lh <= 150000000,
            ;
        }
        let content = lines[j].clone();
        let ghost prev_ops = ops@;
        ops.push(
            DrawOp::TextRun {
                content,
                font: FontKind::Regular,
                size_mpt: size,
                color: Color { r: 0, g: 0, b: 0 },
                x,
                y: y_top - (j as i64) * lh,
            },
        );
        j += 1;
        proof {
            let full = cell_ops(views(lines@), x as int, y_top as int, size as int, lh as int);
            assert(ops_views(ops@) =~~= ops_views(prev_ops).push(ops@.last()@));
            assert(ops@.last()@ =~~= full[j as int - 1]);
            assert(full.take(j as int) =~~= full.take(j as int - 1).push(full[j as int - 1]));
            assert(ops_views(ops@) =~~= ops_views(base) + full.take(j as int));
        }
    }
    proof {
        let full = cell_ops(views(lines@), x as int, y_top as int, size as int, lh as int);
        assert(full.take(full.len() as int) =~~= full);
    }
}

/// Length bounds on the synthesized cell texts of a well-formed record.
pub proof fn lemma_item_text_lens(it: ItemV)
    requires
        item_wf(it),
    ensures
        theme_text_v(it).len() <= 200000002,
        type_text_v(it).len() <= 200000003,
{
    reveal_strlit(": ");
    reveal_strlit(" (");
    reveal_strlit(")");
}

/// The theme cell text of a record; see [`theme_text_v`].
pub fn theme_text(item: &ListItem) -> (t: String)
    ensures
        t@ == theme_text_v(item@),
{
    match &item.item_number {
        Option::Some(n) => {
            let mut t = n.clone();
            t.append(": ");
            t.append(item.theme.as_str());
            t
        },
        Option::None => item.theme.clone(),
    }
}

/// The type cell text of a record; see [`type_text_v`].
pub fn type_text(item: &ListItem) -> (t: String)
    ensures
        t@ == type_text_v(item@),
{
    match (&item.item_type, &item.duration) {
        (Option::Some(ty), Option::Some(d)) => {
            let mut t = ty.clone();
            t.append(" (");
            t.append(d.as_str());
            t.append(")");
            t
        },
        (Option::Some(ty), Option::None) => ty.clone(),
        _ => {
            let t = String::new();
            proof {
                assert(t@ =~= type_text_v(item@));
            }
            t
        },
    }
}

/// The height of one record's row; see [`item_height`].
pub fn item_height_exec(item: &ListItem, s: &PrintSettings) -> (ih: i64)
    requires
        settings_wf(*s),
        item_wf(item@),
    ensures
        ih == item_height(item@, *s),
        row_h(*s) <= ih <= IH_MAX,
{
    proof {
        crate::units::lemma_settings_bounds(*s);
        lemma_col_bounds(*s);
    }
    let fs = s.font_size as i64;
    let lh: i64 = fs * 1500;
    let rh: i64 = fs * 1800;
    match (s.view_mode, &item.instructions) {
        (ViewMode::Detailed, Option::Some(instr)) => {
            let cw = crate::units::content_w_exec(s);
            let col4 = col_width_exec(cw, COL_INSTRUCTIONS_PCT);
            let lines = wrap_text(instr.as_str(), col4, s.font_size);
            proof {
                crate::wrap::lemma_wrap_len_bound(
                    instr@,
                    max_chars_of(col_w(*s, 4), s.font_size as int),
                );
            }
            let k = lines.len() as i64;
            proof {
                assert(0 <= k * lh <= 15000000150000000) by (nonlinear_arith)
                    requires
                        0 <= k <= 100000001 && 0 < lh <= 150000000,
                ;
            }
            let h = k * lh;
            if h > rh {
                h
            } else {
                rh
            }
        },
        _ => rh,
    }
}

/// All draw operations of one record's row; see [`row_ops`].
fn row_ops_exec(item: &ListItem, s: &PrintSettings, row_y: i64, ih: i64) -> (ops: Vec<DrawOp>)
    requires
        settings_wf(*s),
        item_wf(item@),
        -20000000000000000 <= row_y <= 1008000,
        0 < ih <= IH_MAX,
    ensures
        ops_views(ops@) == row_ops(item@, *s, row_y as int, ih as int),
{
    proof {
        crate::units::lemma_settings_bounds(*s);
        lemma_col_bounds(*s);
        lemma_item_text_lens(item@);
    }
    let fs = s.font_size as i64;
    let lh: i64 = fs * 1500;
    let y_text: i64 = row_y - fs * 540;
    let cw = crate::units::content_w_exec(s);
    let ml = crate::units::margin_left_exec(s);
    let mut ops: Vec<DrawOp> = Vec::new();
    ops.push(
        DrawOp::LineSeg {
            x1: ml,
            y1: row_y - ih,
            x2: ml + cw,
            y2: row_y - ih,
            width_mpt: 500,
            color: Color { r: 900, g: 900, b: 900 },
        },
    );
    let ghost after_rule = ops_views(ops@);
    proof {
        assert(after_rule =~~= seq![
            OpModel::LineSeg {
                x1: s.margin_left(),
                y1: row_y - ih,
                x2: s.margin_left() + s.content_w(),
                y2: row_y - ih,
                width_mpt: 500,
                color: row_rule(),
            },
        ]);
    }
    let x0 = col_x_exec(s, 0);
    let x1 = col_x_exec(s, 1);
    let x2 = col_x_exec(s, 2);
    let x3 = col_x_exec(s, 3);
    let x4 = col_x_exec(s, 4);
    let w0 = col_w_exec(s, 0);
    let w1 = col_w_exec(s, 1);
    let w2 = col_w_exec(s, 2);
    let w3 = col_w_exec(s, 3);
    let w4 = col_w_exec(s, 4);
    match &item.time {
        Option::Some(t) => {
            let lines = wrap_text(t.as_str(), w0 - 10000, s.font_size);
            proof {
                crate::wrap::lemma_wrap_len_bound(
                    t@,
                    max_chars_of(col_w(*s, 0) - 10000, s.font_size as int),
                );
            }
            push_cell(&mut ops, &lines, x0 + 5000, y_text, fs * 1000, lh);
        },
        Option::None => {},
    }
    let tt = theme_text(item);
    let theme_lines = wrap_text(tt.as_str(), w1 - 10000, s.font_size);
    proof {
        crate::wrap::lemma_wrap_len_bound(
            tt@,
            max_chars_of(col_w(*s, 1) - 10000, s.font_size as int),
        );
    }
    push_cell(&mut ops, &theme_lines, x1 + 5000, y_text, fs * 1000, lh);
    match &item.speaker {
        Option::Some(t) => {
            let lines = wrap_text(t.as_str(), w2 - 10000, s.font_size);
            proof {
                crate::wrap::lemma_wrap_len_bound(
                    t@,
                    max_chars_of(col_w(*s, 2) - 10000, s.font_size as int),
                );
            }
            push_cell(&mut ops, &lines, x2 + 5000, y_text, fs * 1000, lh);
        },
        Option::None => {},
    }
    let ty = type_text(item);
    if ty.as_str().unicode_len() > 0 {
        let lines = wrap_text(ty.as_str(), w3 - 10000, s.font_size);
        proof {
            crate::wrap::lemma_wrap_len_bound(
                ty@,
                max_chars_of(col_w(*s, 3) - 10000, s.font_size as int),
            );
        }
        push_cell(&mut ops, &lines, x3 + 5000, y_text, fs * 1000, lh);
    }
    match (s.view_mode, &item.instructions) {
        (ViewMode::Detailed, Option::Some(instr)) => {
            let lines = wrap_text(instr.as_str(), w4 - 10000, s.font_size);
            proof {
                crate::wrap::lemma_wrap_len_bound(
                    instr@,
                    max_chars_of(col_w(*s, 4) - 10000, s.font_size as int),
                );
            }
            push_cell(&mut ops, &lines, x4 + 5000, y_text, fs * 920, lh);
        },
        _ => {},
    }
    proof {
        assert(ops_views(ops@) =~~= row_ops(item@, *s, row_y as int, ih as int));
    }
    ops
}

/// The layout state a document and cursor stand for.
pub open spec fn doc_st(d: DocV, y: int) -> LayoutSt {
    LayoutSt { pages: pages_ops(d), y: y }
}

/// Appends one operation to the active page.
fn emit_one(doc: &mut DocModel, op: DrawOp)
    requires
        old(doc)@.pages.len() > 0,
    ensures
        final(doc)@.title == old(doc)@.title,
        final(doc)@.pages.len() == old(doc)@.pages.len(),
        forall|i: int|
            0 <= i < final(doc)@.pages.len() ==> (#[trigger] final(doc)@.pages[i]).width == old(
                doc,
            )@.pages[i].width && final(doc)@.pages[i].height == old(doc)@.pages[i].height,
        pages_ops(final(doc)@) == pages_ops(old(doc)@).update(
            old(doc)@.pages.len() - 1,
            pages_ops(old(doc)@).last() + seq![op@],
        ),
{
    let ghost d0 = doc@;
    let ghost opv = op@;
    doc.append_operation(op);
    proof {
        let goal = pages_ops(d0).update(
            d0.pages.len() - 1,
            pages_ops(d0).last() + seq![opv],
        );
        assert forall|i: int| 0 <= i < pages_ops(doc@).len() implies pages_ops(doc@)[i]
            =~~= goal[i] by {
            assert(pages_ops(doc@)[i] == doc@.pages[i].ops);
            if i < d0.pages.len() - 1 {
                assert(doc@.pages[i] == d0.pages[i]);
            } else {
                assert(doc@.pages[i].ops == d0.pages.last().ops.push(opv));
                assert(d0.pages.last().ops.push(opv) =~~= pages_ops(d0).last() + seq![opv]);
            }
        }
        assert(pages_ops(doc@) =~~= goal);
    }
}

/// The page-break check before a unit of height `need`; see
/// [`st_break`].  Returns the cursor position at which the unit is to be
/// drawn.
fn break_if_needed(doc: &mut DocModel, y: i64, need: i64, s: &PrintSettings) -> (y2: i64)
    requires
        settings_wf(*s),
        old(doc)@.pages.len() > 0,
        pages_sized(old(doc)@, *s),
        -20000000000000000 <= y <= 1008000,
        0 < need <= IH_MAX,
    ensures
        final(doc)@.title == old(doc)@.title,
        final(doc)@.pages.len() >= 1,
        pages_sized(final(doc)@, *s),
        doc_st(final(doc)@, y2 as int) == st_break(doc_st(old(doc)@, y as int), need as int, *s),
        y2 - need >= s.margin_bottom() || y2 == s.page_h() - s.margin_top(),
        0 <= y2 <= 1008000 || y2 == y,
        -20000000000000000 <= y2 <= 1008000,
{
    proof {
        crate::units::lemma_settings_bounds(*s);
    }
    let mb = crate::units::margin_bottom_exec(s);
    if y - need < mb {
        let ghost d0 = doc@;
        doc.add_page(s);
        proof {
            assert(pages_ops(doc@) =~~= pages_ops(d0).push(Seq::<OpModel>::empty()));
            assert(doc_st(doc@, (s.page_h() - s.margin_top()) as int) =~~= st_break(
                doc_st(d0, y as int),
                need as int,
                *s,
            ));
        }
        page_height_mpt_exec(s.page_size, s.orientation) - crate::units::margin_top_exec(s)
    } else {
        proof {
            assert(doc_st(doc@, y as int) =~~= st_break(doc_st(doc@, y as int), need as int, *s));
        }
        y
    }
}

/// Emits the seven operations of the table header; see [`header_ops`].
fn emit_header(doc: &mut DocModel, s: &PrintSettings, y: i64)
    requires
        settings_wf(*s),
        old(doc)@.pages.len() > 0,
        pages_sized(old(doc)@, *s),
        -20000000000000000 <= y <= 1008000,
    ensures
        final(doc)@.title == old(doc)@.title,
        final(doc)@.pages.len() == old(doc)@.pages.len(),
        pages_sized(final(doc)@, *s),
        pages_ops(final(doc)@) == pages_ops(old(doc)@).update(
            old(doc)@.pages.len() - 1,
            pages_ops(old(doc)@).last() + header_ops(*s, y as int),
        ),
{
    proof {
        crate::units::lemma_settings_bounds(*s);
        lemma_col_bounds(*s);
    }
    let fs = s.font_size as i64;
    let rh: i64 = fs * 1800;
    let y_text: i64 = y - fs * 540;
    let ml = crate::units::margin_left_exec(s);
    let cw = crate::units::content_w_exec(s);
    let mut ops: Vec<DrawOp> = Vec::new();
    ops.push(
        DrawOp::RectFill {
            x: ml,
            y: y - rh,
            w: cw,
            h: rh,
            color: Color { r: 960, g: 960, b: 960 },
        },
    );
    let captions = ["Time", "Theme", "Speaker", "Type", "Instructions"];
    let mut idx: usize = 0;
    while idx < 5
        invariant
            idx <= 5,
            settings_wf(*s),
            fs == s.font_size,
            y_text == y - fs * 540,
            -21000000000000000 <= y_text <= 1008000,
            captions@.len() == 5,
            captions@[0]@ == "Time"@ && captions@[1]@ == "Theme"@ && captions@[2]@ == "Speaker"@
                && captions@[3]@ == "Type"@ && captions@[4]@ == "Instructions"@,
            ops_views(ops@) == header_ops(*s, y as int).take(1 + idx as int),
        decreases 5 - idx,
    {
        let cap = captions[idx];
        let x = col_x_exec(s, idx);
        let ghost prev_ops = ops@;
        ops.push(
            DrawOp::TextRun {
                content: String::from_str(cap),
                font: FontKind::Bold,
                size_mpt: fs * 920,
                color: Color { r: 0, g: 0, b: 0 },
                x: x + 5000,
                y: y_text,
            },
        );
        idx += 1;
        proof {
            let full = header_ops(*s, y as int);
            assert(ops@.last()@ =~~= full[idx as int]);
            assert(full.take(1 + idx as int) =~~= full.take(idx as int).push(full[idx as int]));
            assert(ops_views(ops@) =~~= ops_views(prev_ops).push(ops@.last()@));
            assert(ops_views(ops@) =~~= full.take(1 + idx as int));
        }
    }
    let ghost prev_ops = ops@;
    ops.push(
        DrawOp::LineSeg {
            x1: ml,
            y1: y - rh,
            x2: ml + cw,
            y2: y - rh,
            width_mpt: 2000,
            color: Color { r: 200, g: 200, b: 200 },
        },
    );
    proof {
        let full = header_ops(*s, y as int);
        assert(ops@.last()@ =~~= full[6]);
        assert(ops_views(ops@) =~~= ops_views(prev_ops).push(ops@.last()@));
        assert(ops_views(ops@) =~~= full);
    }
    append_ops(doc, ops);
}

/// Lays out a run of already-wrapped paragraph lines with per-line
/// page-break checks; see [`layout_lines`].  Returns the cursor after
/// the last line.
fn emit_par_lines(
    doc: &mut DocModel,
    y: i64,
    lines: &Vec<String>,
    size: i64,
    s: &PrintSettings,
) -> (y2: i64)
    requires
        settings_wf(*s),
        old(doc)@.pages.len() > 0,
        pages_sized(old(doc)@, *s),
        -20000000000000000 <= y <= 1008000,
        lines@.len() <= 210000000,
    ensures
        final(doc)@.title == old(doc)@.title,
        final(doc)@.pages.len() >= 1,
        pages_sized(final(doc)@, *s),
        doc_st(final(doc)@, y2 as int) == layout_lines(
            views(lines@),
            *s,
            size as int,
            doc_st(old(doc)@, y as int),
        ),
        -20000000000000000 <= y2 <= 1008000,
{
    proof {
        crate::units::lemma_settings_bounds(*s);
    }
    let fs = s.font_size as i64;
    let lh: i64 = fs * 1500;
    let ml = crate::units::margin_left_exec(s);
    let mut cur_y = y;
    let mut k: usize = 0;
    let ghost st0 = doc_st(doc@, y as int);
    proof {
        assert(views(lines@).take(0) =~~= Seq::<Seq<char>>::empty());
        assert(layout_lines(views(lines@).take(0), *s, size as int, st0) == st0);
    }
    while k < lines.len()
        invariant
            k <= lines@.len(),
            settings_wf(*s),
            fs == s.font_size,
            lh == fs * 1500,
            ml == s.margin_left(),
            doc@.pages.len() > 0,
            doc@.title == old(doc)@.title,
            pages_sized(doc@, *s),
            doc_st(doc@, cur_y as int) == layout_lines(
                views(lines@).take(k as int),
                *s,
                size as int,
                st0,
            ),
            -20000000000000000 <= cur_y <= 1008000,
        decreases lines@.len() - k,
    {
        let ghost lv = views(lines@);
        proof {
            assert(lv.take(k as int + 1).drop_last() =~~= lv.take(k as int));
            assert(lv.take(k as int + 1).last() == lv[k as int]);
        }
        let ghost st_before = doc_st(doc@, cur_y as int);
        let y_line = break_if_needed(doc, cur_y, lh, s);
        let ghost st_b = st_break(st_before, lh as int, *s);
        emit_one(
            doc,
            DrawOp::TextRun {
                content: lines[k].clone(),
                font: FontKind::Regular,
                size_mpt: size,
                color: Color { r: 0, g: 0, b: 0 },
                x: ml,
                y: y_line,
            },
        );
        cur_y = y_line - lh;
        k += 1;
        proof {
            let emitted = st_emit(
                st_b,
                seq![
                    OpModel::TextRun {
                        content: lv[k as int - 1],
                        font: FontKind::Regular,
                        size_mpt: size as int,
                        color: black(),
                        x: s.margin_left(),
                        y: st_b.y,
                    },
                ],
            );
            assert(doc_st(doc@, cur_y as int) =~~= st_down(emitted, lh as int));
            assert(doc_st(doc@, cur_y as int) =~~= layout_lines(
                lv.take(k as int),
                *s,
                size as int,
                st0,
            ));
        }
    }
    proof {
        assert(views(lines@).take(lines@.len() as int) =~~= views(lines@));
    }
    cur_y
}

/// Builds the laid-out document for the given records, settings and
/// date label: the title and date lines, the wrapped introduction, the
/// table header, and one row per record, paginating whenever a logical
/// unit would cross the bottom margin.  The result is exactly
/// [`layout_doc`] of the inputs.
pub fn build_document(items: &Vec<ListItem>, settings: &PrintSettings, date_text: &str) -> (doc:
    DocModel)
    requires
        settings_wf(*settings),
        forall|i: int| 0 <= i < items@.len() ==> item_wf(#[trigger] items@[i]@),
        date_text@.len() <= TEXT_MAX,
    ensures
        doc@ == layout_doc(item_views(items@), *settings, date_text@),
        doc@.pages.len() >= 1,
{
    let s = settings;
    proof {
        crate::units::lemma_settings_bounds(*s);
    }
    let fs = s.font_size as i64;
    let lh: i64 = fs * 1500;
    let rh: i64 = fs * 1800;
    let ml = crate::units::margin_left_exec(s);
    let cw = crate::units::content_w_exec(s);
    let mut doc = DocModel::new("Program Schedule");
    doc.add_page(s);
    proof {
        assert(pages_ops(doc@) =~~= seq![Seq::<OpModel>::empty()]);
    }
    let y0 = page_height_mpt_exec(s.page_size, s.orientation) - crate::units::margin_top_exec(s);
    let ghost st0 = LayoutSt { pages: seq![Seq::<OpModel>::empty()], y: y0 as int };
    emit_one(
        &mut doc,
        DrawOp::TextRun {
            content: String::from_str("Program Schedule"),
            font: FontKind::Bold,
            size_mpt: fs * 2000,
            color: Color { r: 0, g: 0, b: 0 },
            x: ml,
            y: y0,
        },
    );
    let y1 = y0 - fs * 3000;
    let ghost st1 = st_down(
        st_emit(
            st0,
            seq![
                OpModel::TextRun {
                    content: title_view(),
                    font: FontKind::Bold,
                    size_mpt: (fs * 2000) as int,
                    color: black(),
                    x: s.margin_left(),
                    y: y0 as int,
                },
            ],
        ),
        (fs * 3000) as int,
    );
    proof {
        assert(doc_st(doc@, y1 as int) =~~= st1);
    }
    let mut date_line = String::from_str("Generated: ");
    date_line.append(date_text);
    emit_one(
        &mut doc,
        DrawOp::TextRun {
            content: date_line,
            font: FontKind::Regular,
            size_mpt: fs * 830,
            color: Color { r: 0, g: 0, b: 0 },
            x: ml,
            y: y1,
        },
    );
    let y2 = y1 - fs * 3750;
    let ghost st2 = st_down(
        st_emit(
            st1,
            seq![
                OpModel::TextRun {
                    content: "Generated: "@ + date_text@,
                    font: FontKind::Regular,
                    size_mpt: (fs * 830) as int,
                    color: black(),
                    x: s.margin_left(),
                    y: y1 as int,
                },
            ],
        ),
        (fs * 3750) as int,
    );
    proof {
        assert(doc_st(doc@, y2 as int) =~~= st2);
    }
    let intro =
        "This document contains the program schedule with detailed information for each item.";
    let intro_lines = wrap_text(intro, cw, s.font_size);
    proof {
        crate::wrap::lemma_wrap_len_bound(
            intro_view(),
            max_chars_of(s.content_w(), s.font_size as int),
        );
        reveal_strlit(
            "This document contains the program schedule with detailed information for each item.",
        );
    }
    let y3 = emit_par_lines(&mut doc, y2, &intro_lines, fs * 1000, s);
    let ghost st3 = st_down(
        layout_lines(
            wrap_spec(intro_view(), max_chars_of(s.content_w(), s.font_size as int)),
            *s,
            (fs * 1000) as int,
            st2,
        ),
        line_h(*s),
    );
    let y4 = y3 - lh;
    proof {
        assert(doc_st(doc@, y4 as int) =~~= st3);
    }
    let ghost st_before_hdr = doc_st(doc@, y4 as int);
    let y5 = break_if_needed(&mut doc, y4, rh, s);
    let ghost st4 = st_break(st3, row_h(*s), *s);
    emit_header(&mut doc, s, y5);
    let y6 = y5 - rh;
    let ghost st5 = st_down(st_emit(st4, header_ops(*s, st4.y)), row_h(*s));
    proof {
        assert(doc_st(doc@, y6 as int) =~~= st5);
        assert(st5 =~~= prologue(*s, date_text@));
    }
    let ghost pro = prologue(*s, date_text@);
    let mut cur_y = y6;
    let mut k: usize = 0;
    proof {
        assert(item_views(items@).take(0) =~~= Seq::<ItemV>::empty());
        assert(layout_items(item_views(items@).take(0), *s, pro) == pro);
    }
    while k < items.len()
        invariant
            k <= items@.len(),
            settings_wf(*s),
            s == settings,
            forall|i: int| 0 <= i < items@.len() ==> item_wf(#[trigger] items@[i]@),
            doc@.pages.len() > 0,
            doc@.title == title_view(),
            pages_sized(doc@, *s),
            doc_st(doc@, cur_y as int) == layout_items(item_views(items@).take(k as int), *s, pro),
            -20000000000000000 <= cur_y <= 1008000,
        decreases items@.len() - k,
    {
        let ghost itv = item_views(items@);
        proof {
            assert(itv.take(k as int + 1).drop_last() =~~= itv.take(k as int));
            assert(itv.take(k as int + 1).last() == itv[k as int]);
        }
        let item = &items[k];
        let ih = item_height_exec(item, s);
        let ghost st_before = doc_st(doc@, cur_y as int);
        let row_y = break_if_needed(&mut doc, cur_y, ih, s);
        let ghost st_b = st_break(st_before, item_height(itv[k as int], *s), *s);
        let rops = row_ops_exec(item, s, row_y, ih);
        append_ops(&mut doc, rops);
        cur_y = row_y - ih;
        k += 1;
        proof {
            let emitted = st_emit(st_b, row_ops(itv[k as int - 1], *s, st_b.y, item_height(
                itv[k as int - 1],
                *s,
            )));
            assert(doc_st(doc@, cur_y as int) =~~= st_down(emitted, item_height(
                itv[k as int - 1],
                *s,
            )));
            assert(doc_st(doc@, cur_y as int) =~~= layout_items(itv.take(k as int), *s, pro));
        }
    }
    proof {
        assert(item_views(items@).take(items@.len() as int) =~~= item_views(items@));
        let lp = layout_pages(item_views(items@), *s, date_text@);
        assert(pages_ops(doc@) == lp);
        assert(doc@ =~~= layout_doc(item_views(items@), *s, date_text@)) by {
            let goal = layout_doc(item_views(items@), *s, date_text@);
            assert(goal.pages.len() == lp.len());
            assert forall|i: int| 0 <= i < doc@.pages.len() implies doc@.pages[i]
                =~~= goal.pages[i] by {
                assert(doc@.pages[i].ops == pages_ops(doc@)[i]);
                assert(goal.pages[i].ops == lp[i]);
            }
        }
        if doc@.pages.len() == 0 {
            assert(pages_ops(doc@).len() == 0);
            assert(false) by {
                lemma_layout_items_pages_nonempty(item_views(items@), *s, pro);
            }
        }
    }
    doc
}

/// The fold over records never drops a page.
pub proof fn lemma_layout_items_pages_nonempty(items: Seq<ItemV>, s: PrintSettings, st: LayoutSt)
    requires
        st.pages.len() >= 1,
    ensures
        layout_items(items, s, st).pages.len() >= st.pages.len(),
    decreases items.len(),
{
    if items.len() > 0 {
        lemma_layout_items_pages_nonempty(items.drop_last(), s, st);
    }
}

/// Exec counterpart of [`col_x`].
fn col_x_exec(s: &PrintSettings, idx: usize) -> (r: i64)
    requires
        settings_wf(*s),
        idx <= 4,
    ensures
        r == col_x(*s, idx as int),
        0 <= r <= 1008000,
{
    proof {
        crate::units::lemma_settings_bounds(*s);
        lemma_col_bounds(*s);
    }
    let ml = crate::units::margin_left_exec(s);
    let cw = crate::units::content_w_exec(s);
    if idx == 0 {
        ml
    } else if idx == 1 {
        ml + col_width_exec(cw, COL_TIME_PCT)
    } else if idx == 2 {
        ml + col_width_exec(cw, COL_TIME_PCT) + col_width_exec(cw, COL_THEME_PCT)
    } else if idx == 3 {
        ml + col_width_exec(cw, COL_TIME_PCT) + col_width_exec(cw, COL_THEME_PCT) + col_width_exec(
            cw,
            COL_SPEAKER_PCT,
        )
    } else {
        ml + col_width_exec(cw, COL_TIME_PCT) + col_width_exec(cw, COL_THEME_PCT) + col_width_exec(
            cw,
            COL_SPEAKER_PCT,
        ) + col_width_exec(cw, COL_TYPE_PCT)
    }
}

/// Exec counterpart of [`col_w`].
fn col_w_exec(s: &PrintSettings, idx: usize) -> (r: i64)
    requires
        settings_wf(*s),
        idx <= 4,
    ensures
        r == col_w(*s, idx as int),
        19815 <= r <= 352800,
{
    proof {
        crate::units::lemma_settings_bounds(*s);
        lemma_col_bounds(*s);
    }
    let cw = crate::units::content_w_exec(s);
    if idx == 0 {
        col_width_exec(cw, COL_TIME_PCT)
    } else if idx == 1 {
        col_width_exec(cw, COL_THEME_PCT)
    } else if idx == 2 {
        col_width_exec(cw, COL_SPEAKER_PCT)
    } else if idx == 3 {
        col_width_exec(cw, COL_TYPE_PCT)
    } else {
        col_width_exec(cw, COL_INSTRUCTIONS_PCT)
    }
}

/// Laying out paragraph lines adds at most one page per line.
pub proof fn lemma_lines_page_growth(lines: Seq<Seq<char>>, s: PrintSettings, size: int, st: LayoutSt)
    requires
        st.pages.len() >= 1,
    ensures
        layout_lines(lines, s, size, st).pages.len() >= 1,
        layout_lines(lines, s, size, st).pages.len() <= st.pages.len() + lines.len(),
    decreases lines.len(),
{
    if lines.len() > 0 {
        lemma_lines_page_growth(lines.drop_last(), s, size, st);
    }
}

/// Laying out records adds at most one page per record.
pub proof fn lemma_items_page_growth(items: Seq<ItemV>, s: PrintSettings, st: LayoutSt)
    requires
        st.pages.len() >= 1,
    ensures
        layout_items(items, s, st).pages.len() >= 1,
        layout_items(items, s, st).pages.len() <= st.pages.len() + items.len(),
    decreases items.len(),
{
    if items.len() > 0 {
        lemma_items_page_growth(items.drop_last(), s, st);
    }
}

/// The introduction paragraph is 84 characters long.
pub proof fn lemma_intro_len()
    ensures
        intro_view().len() == 84,
{
    reveal_strlit(
        "This document contains the program schedule with detailed information for each item.",
    );
}

/// The prologue opens at most 88 pages (one per introduction line,
/// plus the first page and a break before the header) and at least one.
#[verifier::rlimit(100)]
pub proof fn lemma_prologue_pages(s: PrintSettings, date: Seq<char>)
    ensures
        1 <= prologue(s, date).pages.len() <= 88,
{
    let fs = s.font_size as int;
    let intro_lines = wrap_spec(intro_view(), max_chars_of(s.content_w(), fs));
    lemma_intro_len();
    crate::wrap::lemma_wrap_len_bound(intro_view(), max_chars_of(s.content_w(), fs));
    let y0 = s.page_h() - s.margin_top();
    let st0 = LayoutSt { pages: seq![Seq::<OpModel>::empty()], y: y0 };
    let st1 = st_down(st_emit(st0, seq![title_op(s)]), fs * 3000);
    let st2 = st_down(
        st_emit(
            st1,
            seq![
                OpModel::TextRun {
                    content: "Generated: "@ + date,
                    font: FontKind::Regular,
                    size_mpt: fs * 830,
                    color: black(),
                    x: s.margin_left(),
                    y: st1.y,
                },
            ],
        ),
        fs * 3750,
    );
    assert(st2.pages.len() == 1);
    lemma_lines_page_growth(intro_lines, s, fs * 1000, st2);
}

/// The laid-out document never has more pages than the prologue can
/// open (one per introduction line, plus the first page and one break
/// before the header) plus one page per record.
pub proof fn lemma_layout_pages_count(items: Seq<ItemV>, s: PrintSettings, date: Seq<char>)
    ensures
        layout_pages(items, s, date).len() <= 88 + items.len(),
{
    lemma_prologue_pages(s, date);
    lemma_items_page_growth(items, s, prologue(s, date));
}

/// The cumulative height of all rows.
pub open spec fn items_total_height(items: Seq<ItemV>, s: PrintSettings) -> int
    decreases items.len(),
{
    if items.len() == 0 {
        0
    } else {
        items_total_height(items.drop_last(), s) + item_height(items.last(), s)
    }
}

/// Laying out paragraph lines never raises the cursor above the top
/// margin.
proof fn lemma_lines_cursor_below_top(lines: Seq<Seq<char>>, s: PrintSettings, size: int, st: LayoutSt)
    requires
        settings_wf(s),
        st.y <= s.page_h() - s.margin_top(),
    ensures
        layout_lines(lines, s, size, st).y <= s.page_h() - s.margin_top(),
    decreases lines.len(),
{
    crate::units::lemma_settings_bounds(s);
    if lines.len() > 0 {
        lemma_lines_cursor_below_top(lines.drop_last(), s, size, st);
    }
}

/// The prologue leaves the cursor inside the content area: at or above
/// the bottom margin and at or below the top margin.  This needs the
/// base row height (the header's) to fit within one page's content
/// height.
proof fn lemma_prologue_cursor(s: PrintSettings, date: Seq<char>)
    requires
        settings_wf(s),
        row_h(s) <= s.content_h(),
    ensures
        s.margin_bottom() <= prologue(s, date).y <= s.page_h() - s.margin_top(),
        prologue(s, date).pages.len() >= 1,
{
    crate::units::lemma_settings_bounds(s);
    let fs = s.font_size as int;
    let y0 = s.page_h() - s.margin_top();
    let st0 = LayoutSt { pages: seq![Seq::<OpModel>::empty()], y: y0 };
    let st1 = st_down(st_emit(st0, seq![title_op(s)]), fs * 3000);
    let st2 = st_down(
        st_emit(
            st1,
            seq![
                OpModel::TextRun {
                    content: "Generated: "@ + date,
                    font: FontKind::Regular,
                    size_mpt: fs * 830,
                    color: black(),
                    x: s.margin_left(),
                    y: st1.y,
                },
            ],
        ),
        fs * 3750,
    );
    let intro_lines = wrap_spec(intro_view(), max_chars_of(s.content_w(), fs));
    lemma_lines_cursor_below_top(intro_lines, s, fs * 1000, st2);
    lemma_lines_extend(intro_lines, s, fs * 1000, st2);
    lemma_prologue_pages(s, date);
}

/// Rows that each fit within one page's content height consume at most
/// one page of capacity per page of output: the pages of the laid-out
/// document can hold the cumulative row height.  (In particular, when
/// the cumulative height exceeds one page's content height, more than
/// one page is produced.)
pub proof fn lemma_items_capacity(items: Seq<ItemV>, s: PrintSettings, st: LayoutSt)
    requires
        settings_wf(s),
        st.pages.len() >= 1,
        s.margin_bottom() <= st.y <= s.page_h() - s.margin_top(),
        forall|i: int| 0 <= i < items.len() ==> item_height(#[trigger] items[i], s) <= s.content_h(),
    ensures
        ({
            let r = layout_items(items, s, st);
            &&& s.margin_bottom() <= r.y <= s.page_h() - s.margin_top()
            &&& r.pages.len() >= st.pages.len()
            &&& items_total_height(items, s) <= (r.pages.len() - st.pages.len()) * s.content_h()
                + st.y - r.y
        }),
    decreases items.len(),
{
    crate::units::lemma_settings_bounds(s);
    let ch = s.content_h();
    if items.len() == 0 {
        assert(layout_items(items, s, st) == st);
        assert((st.pages.len() - st.pages.len()) * ch == 0) by (nonlinear_arith);
    } else {
        let prefix = items.drop_last();
        assert(forall|i: int|
            0 <= i < prefix.len() ==> item_height(#[trigger] prefix[i], s) <= ch);
        lemma_items_capacity(prefix, s, st);
        let st1 = layout_items(prefix, s, st);
        let it = items.last();
        let ih = item_height(it, s);
        assert(ih <= ch);
        let st2 = st_break(st1, ih, s);
        let r = layout_items(items, s, st);
        assert(r.y == st2.y - ih);
        assert(r.pages.len() == st2.pages.len());
        let p0 = st.pages.len() as int;
        let p1 = st1.pages.len() as int;
        if st1.y - ih < s.margin_bottom() {
            assert(r.pages.len() == p1 + 1);
            assert(items_total_height(items, s) <= (p1 - p0) * ch + st.y - st1.y + ih);
            assert((p1 + 1 - p0) * ch == (p1 - p0) * ch + ch) by (nonlinear_arith);
            assert(s.page_h() - s.margin_top() - st1.y <= ch);
        } else {
            assert(r.pages.len() == p1);
        }
    }
}

/// The capacity law for a whole document: when every row fits within
/// one page's content height, the pages produced can hold the
/// cumulative row height — the page count is never less than the
/// cumulative height divided by the content height.
pub proof fn lemma_document_capacity(items: Seq<ItemV>, s: PrintSettings, date: Seq<char>)
    requires
        settings_wf(s),
        row_h(s) <= s.content_h(),
        forall|i: int| 0 <= i < items.len() ==> item_height(#[trigger] items[i], s) <= s.content_h(),
    ensures
        items_total_height(items, s) <= layout_pages(items, s, date).len() * s.content_h(),
{
    crate::units::lemma_settings_bounds(s);
    lemma_prologue_cursor(s, date);
    let pro = prologue(s, date);
    lemma_items_capacity(items, s, pro);
    let r = layout_items(items, s, pro);
    let ch = s.content_h();
    let n = r.pages.len() as int;
    let k = pro.pages.len() as int;
    assert(items_total_height(items, s) <= (n - k) * ch + pro.y - r.y);
    assert(pro.y - r.y <= ch);
    assert((n - k) * ch + ch <= n * ch) by (nonlinear_arith)
        requires
            k >= 1 && ch > 0,
    ;
}

/// One page list extends another: pages the first had closed are
/// untouched, its active page only grew, and pages were only added.
pub open spec fn pages_extend(a: Seq<Seq<OpModel>>, b: Seq<Seq<OpModel>>) -> bool {
    &&& b.len() >= a.len()
    &&& (forall|j: int| 0 <= j < a.len() - 1 ==> a[j] == #[trigger] b[j])
    &&& a.last().is_prefix_of(b[a.len() - 1])
}

/// `pages_extend` is transitive.
pub proof fn lemma_pages_extend_trans(a: Seq<Seq<OpModel>>, b: Seq<Seq<OpModel>>, c: Seq<
    Seq<OpModel>,
>)
    requires
        a.len() >= 1,
        b.len() >= 1,
        pages_extend(a, b),
        pages_extend(b, c),
    ensures
        pages_extend(a, c),
{
    assert forall|j: int| 0 <= j < a.len() - 1 implies a[j] == #[trigger] c[j] by {
        assert(a[j] == b[j]);
        assert(b[j] == c[j]);
    }
    if a.len() - 1 < b.len() - 1 {
        assert(b[a.len() - 1] == c[a.len() - 1]);
    } else {
        assert(b[a.len() - 1] == b.last());
        assert(a.last().is_prefix_of(b.last()));
        assert(b.last().is_prefix_of(c[b.len() - 1]));
        assert(a.last().len() <= b.last().len());
        assert(a.last() =~= c[a.len() - 1].take(a.last().len() as int)) by {
            assert(a.last() =~= b.last().take(a.last().len() as int));
            assert(b.last() =~= c[a.len() - 1].take(b.last().len() as int));
        }
    }
}

/// Laying out paragraph lines only extends the pages.
pub proof fn lemma_lines_extend(lines: Seq<Seq<char>>, s: PrintSettings, size: int, st: LayoutSt)
    requires
        st.pages.len() >= 1,
    ensures
        layout_lines(lines, s, size, st).pages.len() >= 1,
        pages_extend(st.pages, layout_lines(lines, s, size, st).pages),
    decreases lines.len(),
{
    if lines.len() == 0 {
        assert(st.pages.last().is_prefix_of(st.pages[st.pages.len() - 1]));
    } else {
        lemma_lines_extend(lines.drop_last(), s, size, st);
        let st1 = layout_lines(lines.drop_last(), s, size, st);
        let st2 = st_break(st1, line_h(s), s);
        let st3 = layout_lines(lines, s, size, st);
        assert(pages_extend(st1.pages, st2.pages)) by {
            assert(st1.pages.last().is_prefix_of(st2.pages[st1.pages.len() - 1]));
        }
        assert(pages_extend(st2.pages, st3.pages)) by {
            assert(st2.pages.last().is_prefix_of(st3.pages[st2.pages.len() - 1]));
        }
        lemma_pages_extend_trans(st.pages, st1.pages, st2.pages);
        lemma_pages_extend_trans(st.pages, st2.pages, st3.pages);
    }
}

/// Laying out records only extends the pages.
pub proof fn lemma_items_extend(items: Seq<ItemV>, s: PrintSettings, st: LayoutSt)
    requires
        st.pages.len() >= 1,
    ensures
        layout_items(items, s, st).pages.len() >= 1,
        pages_extend(st.pages, layout_items(items, s, st).pages),
    decreases items.len(),
{
    if items.len() == 0 {
        assert(st.pages.last().is_prefix_of(st.pages[st.pages.len() - 1]));
    } else {
        lemma_items_extend(items.drop_last(), s, st);
        let st1 = layout_items(items.drop_last(), s, st);
        let st2 = st_break(st1, item_height(items.last(), s), s);
        let st3 = layout_items(items, s, st);
        assert(pages_extend(st1.pages, st2.pages)) by {
            assert(st1.pages.last().is_prefix_of(st2.pages[st1.pages.len() - 1]));
        }
        assert(pages_extend(st2.pages, st3.pages)) by {
            assert(st2.pages.last().is_prefix_of(st3.pages[st2.pages.len() - 1]));
        }
        lemma_pages_extend_trans(st.pages, st1.pages, st2.pages);
        lemma_pages_extend_trans(st.pages, st2.pages, st3.pages);
    }
}

/// Where record `i` lands: the state after the page-break check that
/// precedes its row.
pub open spec fn row_start_st(items: Seq<ItemV>, s: PrintSettings, st: LayoutSt, i: int) -> LayoutSt {
    let before = layout_items(items.take(i), s, st);
    st_break(before, item_height(items[i], s), s)
}

/// No record's draw operations are ever split across two pages: each
/// record's full row lies as one contiguous block on the single page
/// that was active after its page-break check.
pub proof fn lemma_rows_not_split(items: Seq<ItemV>, s: PrintSettings, st: LayoutSt)
    requires
        st.pages.len() >= 1,
    ensures
        forall|i: int|
            0 <= i < items.len() ==> {
                let stb = #[trigger] row_start_st(items, s, st, i);
                let rops = row_ops(items[i], s, stb.y, item_height(items[i], s));
                let p = stb.pages.len() - 1;
                let off = stb.pages.last().len() as int;
                &&& 0 <= p < layout_items(items, s, st).pages.len()
                &&& off + rops.len() <= layout_items(items, s, st).pages[p].len()
                &&& layout_items(items, s, st).pages[p].subrange(off, off + rops.len()) == rops
            },
    decreases items.len(),
{
    if items.len() > 0 {
        let prefix = items.drop_last();
        lemma_rows_not_split(prefix, s, st);
        let st1 = layout_items(prefix, s, st);
        lemma_items_extend(prefix, s, st);
        let it = items.last();
        let ih = item_height(it, s);
        let st2 = st_break(st1, ih, s);
        let rops_last = row_ops(it, s, st2.y, ih);
        let st3 = st_emit(st2, rops_last);
        let result = layout_items(items, s, st);
        assert(result.pages == st3.pages);
        assert forall|i: int| 0 <= i < items.len() implies {
            let stb = #[trigger] row_start_st(items, s, st, i);
            let rops = row_ops(items[i], s, stb.y, item_height(items[i], s));
            let p = stb.pages.len() - 1;
            let off = stb.pages.last().len() as int;
            &&& 0 <= p < result.pages.len()
            &&& off + rops.len() <= result.pages[p].len()
            &&& result.pages[p].subrange(off, off + rops.len()) == rops
        } by {
            if i < items.len() - 1 {
                assert(items.take(i) =~= prefix.take(i));
                assert(items[i] == prefix[i]);
                let stb = row_start_st(prefix, s, st, i);
                assert(row_start_st(items, s, st, i) == stb);
                let rops = row_ops(prefix[i], s, stb.y, item_height(prefix[i], s));
                let p = stb.pages.len() - 1;
                let off = stb.pages.last().len() as int;
                assert(0 <= p < st1.pages.len());
                assert(off + rops.len() <= st1.pages[p].len());
                assert(st1.pages[p].subrange(off, off + rops.len()) == rops);
                assert(pages_extend(st1.pages, st2.pages)) by {
                    assert(st1.pages.last().is_prefix_of(st2.pages[st1.pages.len() - 1]));
                }
                assert(pages_extend(st2.pages, st3.pages)) by {
                    assert(st2.pages.last().is_prefix_of(st3.pages[st2.pages.len() - 1]));
                }
                lemma_pages_extend_trans(st1.pages, st2.pages, st3.pages);
                assert(result.pages[p].subrange(off, off + rops.len()) =~= rops) by {
                    if p < st1.pages.len() - 1 {
                        assert(result.pages[p] == st1.pages[p]);
                    } else {
                        assert(st1.pages.last().is_prefix_of(result.pages[p]));
                        assert(st1.pages[p] =~= result.pages[p].take(st1.pages[p].len() as int));
                        assert forall|q: int| 0 <= q < rops.len() implies result.pages[p][off + q]
                            == rops[q] by {
                            assert(st1.pages[p][off + q] == rops[q]);
                            assert(result.pages[p][off + q] == st1.pages[p][off + q]);
                        }
                    }
                }
            } else {
                assert(items.take(i) =~= prefix);
                let stb = row_start_st(items, s, st, i);
                assert(stb == st2);
                assert(items[i] == it);
                let p = st2.pages.len() - 1;
                let off = st2.pages.last().len() as int;
                assert(result.pages[p] == st2.pages.last() + rops_last);
                assert(result.pages[p].subrange(off, off + rops_last.len()) =~= rops_last);
            }
        }
    }
}

/// With zero records the document still holds at least one page; the
/// title stands first on the first page, and the table header stands as
/// the final block of the last page.
pub proof fn lemma_zero_records_document(s: PrintSettings, date: Seq<char>)
    requires
        settings_wf(s),
    ensures
        layout_pages(Seq::<ItemV>::empty(), s, date).len() >= 1,
        layout_pages(Seq::<ItemV>::empty(), s, date)[0].len() >= 1,
        layout_pages(Seq::<ItemV>::empty(), s, date)[0][0] == title_op(s),
        layout_pages(Seq::<ItemV>::empty(), s, date).last() == pre_header_st(s, date).pages.last()
            + header_ops(s, pre_header_st(s, date).y),
{
    let fs = s.font_size as int;
    let y0 = s.page_h() - s.margin_top();
    let st0 = LayoutSt { pages: seq![Seq::<OpModel>::empty()], y: y0 };
    let st1 = st_down(st_emit(st0, seq![title_op(s)]), fs * 3000);
    assert(st1.pages.len() == 1);
    assert(st1.pages[0] =~= seq![title_op(s)]);
    let st2_emit = st_emit(
        st1,
        seq![
            OpModel::TextRun {
                content: "Generated: "@ + date,
                font: FontKind::Regular,
                size_mpt: fs * 830,
                color: black(),
                x: s.margin_left(),
                y: st1.y,
            },
        ],
    );
    let st2 = st_down(st2_emit, fs * 3750);
    assert(st2.pages.len() == 1 && st2.pages[0].len() >= 1 && st2.pages[0][0] == title_op(s));
    let intro_lines = wrap_spec(intro_view(), max_chars_of(s.content_w(), fs));
    lemma_lines_extend(intro_lines, s, fs * 1000, st2);
    let st3 = st_down(layout_lines(intro_lines, s, fs * 1000, st2), line_h(s));
    assert(st3.pages[0].len() >= 1 && st3.pages[0][0] == title_op(s)) by {
        assert(st2.pages.last().is_prefix_of(st3.pages[0]));
        assert(st3.pages[0][0] == st2.pages[0][0]);
    }
    let st4 = st_break(st3, row_h(s), s);
    assert(st4.pages[0].len() >= 1 && st4.pages[0][0] == title_op(s));
    assert(st4 == pre_header_st(s, date));
    let st5 = st_emit(st4, header_ops(s, st4.y));
    let pro = st_down(st5, row_h(s));
    assert(pro == prologue(s, date));
    assert(pro.pages[0][0] == title_op(s)) by {
        if st4.pages.len() == 1 {
            assert(pro.pages[0] == st4.pages.last() + header_ops(s, st4.y));
            assert(pro.pages[0][0] == st4.pages.last()[0]);
        } else {
            assert(pro.pages[0] == st4.pages[0]);
        }
    }
    assert(layout_items(Seq::<ItemV>::empty(), s, pro) == pro);
    assert(pro.pages.last() == st4.pages.last() + header_ops(s, st4.y));
}

} // verus!
