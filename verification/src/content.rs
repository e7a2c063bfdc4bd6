//! Serialization of draw operations into a PDF content stream: a linear
//! sequence of text-positioning and line-drawing operators (`BT`/`ET`
//! text blocks, `Tf` font selection, `Td` positioning, `Tj` string show,
//! and path move/line/stroke and rectangle/fill operators), encoded as
//! plain bytes.
//!
//! Numbers are written as fixed-point decimals with three fractional
//! digits (millipoints to points), so no precision is lost.  Text is
//! written as a PDF literal string: backslash, parenthesis characters
//! are escaped, characters above U+00FF are replaced by `?`.

use crate::model::{Color, FontKind, OpModel};
use vstd::prelude::*;

verus! {

/// The decimal digits of a nonnegative integer, most significant first.
pub open spec fn dec_digits(n: nat) -> Seq<u8>
    decreases n,
{
    if n < 10 {
        seq![(48 + n) as u8]
    } else {
        dec_digits(n / 10) + seq![(48 + n % 10) as u8]
    }
}

/// Exactly three decimal digits, zero padded: the fractional part of a
/// millipoint value.
pub open spec fn pad3(r: int) -> Seq<u8> {
    seq![(48 + r / 100 % 10) as u8, (48 + r / 10 % 10) as u8, (48 + r % 10) as u8]
}

/// A millipoint value as a fixed-point decimal in points:
/// `<sign><integer part>.<three fraction digits>`.
pub open spec fn mpt_bytes(v: int) -> Seq<u8> {
    if v >= 0 {
        dec_digits((v / 1000) as nat) + seq![46u8] + pad3(v % 1000)
    } else {
        seq![45u8] + dec_digits(((-v) / 1000) as nat) + seq![46u8] + pad3((-v) % 1000)
    }
}

/// A color channel in thousandths as a PDF number in `[0, 1]`.
pub open spec fn chan_bytes(t: int) -> Seq<u8> {
    if t >= 1000 {
        seq![49u8]
    } else {
        seq![48u8, 46u8] + pad3(t)
    }
}

/// The three channels of a color, space separated.
pub open spec fn color_bytes(c: Color) -> Seq<u8> {
    chan_bytes(c.r as int) + seq![32u8] + chan_bytes(c.g as int) + seq![32u8] + chan_bytes(
        c.b as int,
    )
}

/// One character of a PDF literal string: `\`, `(` and `)` are escaped
/// with a backslash, characters above U+00FF become `?`, the rest are
/// written as their code point.
pub open spec fn char_pdf(c: char) -> Seq<u8> {
    if c == '\\' || c == '(' || c == ')' {
        seq![92u8, c as u8]
    } else if c as u32 <= 255 {
        seq![c as u8]
    } else {
        seq![63u8]
    }
}

/// A whole text as PDF literal string bytes (without the delimiters).
pub open spec fn text_pdf(s: Seq<char>) -> Seq<u8>
    decreases s.len(),
{
    if s.len() == 0 {
        Seq::empty()
    } else {
        text_pdf(s.drop_last()) + char_pdf(s.last())
    }
}

/// The font resource name: `/F1` for regular, `/F2` for bold.
pub open spec fn font_bytes(f: FontKind) -> Seq<u8> {
    match f {
        FontKind::Regular => seq![47u8, 70u8, 49u8],
        FontKind::Bold => seq![47u8, 70u8, 50u8],
    }
}

/// The content-stream bytes of one draw operation.
pub open spec fn op_bytes(op: OpModel) -> Seq<u8> {
    match op {
        OpModel::TextRun { content, font, size_mpt, color, x, y } => seq![66u8, 84u8, 10u8]  // "BT\n"
         + color_bytes(color) + seq![32u8, 114u8, 103u8, 10u8]  // " rg\n"
         + font_bytes(font) + seq![32u8] + mpt_bytes(size_mpt) + seq![32u8, 84u8, 102u8, 10u8]  // " Tf\n"
         + mpt_bytes(x) + seq![32u8] + mpt_bytes(y) + seq![32u8, 84u8, 100u8, 10u8]  // " Td\n"
         + seq![40u8] + text_pdf(content) + seq![41u8, 32u8, 84u8, 106u8, 10u8]  // ") Tj\n"
         + seq![69u8, 84u8, 10u8],  // "ET\n"
        OpModel::LineSeg { x1, y1, x2, y2, width_mpt, color } => color_bytes(color) + seq![
            32u8,
            82u8,
            71u8,
            10u8,
        ]  // " RG\n"
         + mpt_bytes(width_mpt) + seq![32u8, 119u8, 10u8]  // " w\n"
         + mpt_bytes(x1) + seq![32u8] + mpt_bytes(y1) + seq![32u8, 109u8, 10u8]  // " m\n"
         + mpt_bytes(x2) + seq![32u8] + mpt_bytes(y2) + seq![32u8, 108u8, 10u8]  // " l\n"
         + seq![83u8, 10u8],  // "S\n"
        OpModel::RectFill { x, y, w, h, color } => color_bytes(color) + seq![32u8, 114u8, 103u8, 10u8]  // " rg\n"
         + mpt_bytes(x) + seq![32u8] + mpt_bytes(y) + seq![32u8] + mpt_bytes(w) + seq![32u8]
            + mpt_bytes(h) + seq![32u8, 114u8, 101u8, 10u8]  // " re\n"
         + seq![102u8, 10u8],  // "f\n"
    }
}

/// The full content stream of a page: the bytes of its operations in
/// order.
pub open spec fn content_bytes(ops: Seq<OpModel>) -> Seq<u8>
    decreases ops.len(),
{
    if ops.len() == 0 {
        Seq::empty()
    } else {
        content_bytes(ops.drop_last()) + op_bytes(ops.last())
    }
}

/// Appends the decimal digits of `n`.
fn push_udec(out: &mut Vec<u8>, n: u64)
    ensures
        final(out)@ == old(out)@ + dec_digits(n as nat),
    decreases n,
{
    if n < 10 {
        out.push(48 + n as u8);
        proof {
            assert(out@ =~= old(out)@ + dec_digits(n as nat));
        }
    } else {
        push_udec(out, n / 10);
        out.push(48 + (n % 10) as u8);
        proof {
            assert(out@ =~= old(out)@ + dec_digits(n as nat));
        }
    }
}

/// Appends a millipoint value as a fixed-point decimal; see
/// [`mpt_bytes`].
fn push_mpt(out: &mut Vec<u8>, v: i64)
    ensures
        final(out)@ == old(out)@ + mpt_bytes(v as int),
{
    let mag: u64 = if v >= 0 {
        v as u64
    } else if v == i64::MIN {
        out.push(45);
        9223372036854775808u64
    } else {
        out.push(45);
        (-v) as u64
    };
    push_udec(out, mag / 1000);
    out.push(46);
    let r = mag % 1000;
    out.push(48 + (r / 100 % 10) as u8);
    out.push(48 + (r / 10 % 10) as u8);
    out.push(48 + (r % 10) as u8);
    proof {
        assert(out@ =~= old(out)@ + mpt_bytes(v as int));
    }
}

/// Appends one color channel; see [`chan_bytes`].
fn push_chan(out: &mut Vec<u8>, t: u32)
    ensures
        final(out)@ == old(out)@ + chan_bytes(t as int),
{
    if t >= 1000 {
        out.push(49);
        proof {
            assert(out@ =~= old(out)@ + chan_bytes(t as int));
        }
    } else {
        out.push(48);
        out.push(46);
        out.push(48 + (t / 100 % 10) as u8);
        out.push(48 + (t / 10 % 10) as u8);
        out.push(48 + (t % 10) as u8);
        proof {
            assert(out@ =~= old(out)@ + chan_bytes(t as int));
        }
    }
}

/// Appends a color's three channels; see [`color_bytes`].
fn push_color(out: &mut Vec<u8>, c: &Color)
    ensures
        final(out)@ == old(out)@ + color_bytes(*c),
{
    push_chan(out, c.r);
    out.push(32);
    push_chan(out, c.g);
    out.push(32);
    push_chan(out, c.b);
    proof {
        assert(out@ =~= old(out)@ + color_bytes(*c));
    }
}

/// Appends the escaped literal-string bytes of a text; see
/// [`text_pdf`].
fn push_text(out: &mut Vec<u8>, s: &str)
    ensures
        final(out)@ == old(out)@ + text_pdf(s@),
{
    let n = s.unicode_len();
    let mut i: usize = 0;
    while i < n
        invariant
            i <= n,
            n == s@.len(),
            out@ == old(out)@ + text_pdf(s@.take(i as int)),
        decreases n - i,
    {
        let c = s.get_char(i);
        proof {
            assert(s@.take(i as int + 1).drop_last() =~= s@.take(i as int));
            assert(s@.take(i as int + 1).last() == s@[i as int]);
        }
        if c == '\\' || c == '(' || c == ')' {
            out.push(92);
            out.push((c as u32) as u8);
        } else if (c as u32) <= 255 {
            out.push((c as u32) as u8);
        } else {
            out.push(63);
        }
        i += 1;
        proof {
            assert((s@[i as int - 1] as u32) as u8 == s@[i as int - 1] as u8);
            assert(out@ =~= old(out)@ + text_pdf(s@.take(i as int)));
        }
    }
    proof {
        assert(s@.take(n as int) =~= s@);
    }
}

/// Appends two literal bytes.
fn push_lit2(out: &mut Vec<u8>, b0: u8, b1: u8)
    ensures
        final(out)@ == old(out)@ + seq![b0, b1],
{
    out.push(b0);
    out.push(b1);
    proof {
        assert(out@ =~= old(out)@ + seq![b0, b1]);
    }
}

/// Appends three literal bytes.
fn push_lit3(out: &mut Vec<u8>, b0: u8, b1: u8, b2: u8)
    ensures
        final(out)@ == old(out)@ + seq![b0, b1, b2],
{
    out.push(b0);
    out.push(b1);
    out.push(b2);
    proof {
        assert(out@ =~= old(out)@ + seq![b0, b1, b2]);
    }
}

/// Appends four literal bytes.
fn push_lit4(out: &mut Vec<u8>, b0: u8, b1: u8, b2: u8, b3: u8)
    ensures
        final(out)@ == old(out)@ + seq![b0, b1, b2, b3],
{
    out.push(b0);
    out.push(b1);
    out.push(b2);
    out.push(b3);
    proof {
        assert(out@ =~= old(out)@ + seq![b0, b1, b2, b3]);
    }
}

/// Appends one literal byte as a one-element chunk.
fn push_lit1(out: &mut Vec<u8>, b0: u8)
    ensures
        final(out)@ == old(out)@ + seq![b0],
{
    out.push(b0);
    proof {
        assert(out@ =~= old(out)@ + seq![b0]);
    }
}

/// Appends the font resource name; see [`font_bytes`].
fn push_font(out: &mut Vec<u8>, f: FontKind)
    ensures
        final(out)@ == old(out)@ + font_bytes(f),
{
    match f {
        FontKind::Regular => push_lit3(out, 47, 70, 49),
        FontKind::Bold => push_lit3(out, 47, 70, 50),
    }
}

/// Appends one text-run operator block.
fn push_text_run(
    out: &mut Vec<u8>,
    content: &String,
    font: FontKind,
    size_mpt: i64,
    color: Color,
    x: i64,
    y: i64,
)
    ensures
        final(out)@ == old(out)@ + op_bytes(
            OpModel::TextRun {
                content: content@,
                font: font,
                size_mpt: size_mpt as int,
                color: color,
                x: x as int,
                y: y as int,
            },
        ),
{
    broadcast use vstd::seq_lib::group_seq_properties;

    let ghost o = out@;
    push_lit3(out, 66, 84, 10);
    let ghost a1 = seq![66u8, 84u8, 10u8];
    push_color(out, &color);
    proof {
        vstd::seq_lib::lemma_concat_associative(o, a1, color_bytes(color));
    }
    let ghost a2 = a1 + color_bytes(color);
    push_lit4(out, 32, 114, 103, 10);
    proof {
        vstd::seq_lib::lemma_concat_associative(o, a2, seq![32u8, 114u8, 103u8, 10u8]);
    }
    let ghost a3 = a2 + seq![32u8, 114u8, 103u8, 10u8];
    push_font(out, font);
    proof {
        vstd::seq_lib::lemma_concat_associative(o, a3, font_bytes(font));
    }
    let ghost a4 = a3 + font_bytes(font);
    push_lit1(out, 32);
    proof {
        vstd::seq_lib::lemma_concat_associative(o, a4, seq![32u8]);
    }
    let ghost a5 = a4 + seq![32u8];
    push_mpt(out, size_mpt);
    proof {
        vstd::seq_lib::lemma_concat_associative(o, a5, mpt_bytes(size_mpt as int));
    }
    let ghost a6 = a5 + mpt_bytes(size_mpt as int);
    push_lit4(out, 32, 84, 102, 10);
    proof {
        vstd::seq_lib::lemma_concat_associative(o, a6, seq![32u8, 84u8, 102u8, 10u8]);
    }
    let ghost a7 = a6 + seq![32u8, 84u8, 102u8, 10u8];
    push_mpt(out, x);
    proof {
        vstd::seq_lib::lemma_concat_associative(o, a7, mpt_bytes(x as int));
    }
    let ghost a8 = a7 + mpt_bytes(x as int);
    push_lit1(out, 32);
    proof {
        vstd::seq_lib::lemma_concat_associative(o, a8, seq![32u8]);
    }
    let ghost a9 = a8 + seq![32u8];
    push_mpt(out, y);
    proof {
        vstd::seq_lib::lemma_concat_associative(o, a9, mpt_bytes(y as int));
    }
    let ghost a10 = a9 + mpt_bytes(y as int);
    push_lit4(out, 32, 84, 100, 10);
    proof {
        vstd::seq_lib::lemma_concat_associative(o, a10, seq![32u8, 84u8, 100u8, 10u8]);
    }
    let ghost a11 = a10 + seq![32u8, 84u8, 100u8, 10u8];
    push_lit1(out, 40);
    proof {
        vstd::seq_lib::lemma_concat_associative(o, a11, seq![40u8]);
    }
    let ghost a12 = a11 + seq![40u8];
    push_text(out, content.as_str());
    proof {
        vstd::seq_lib::lemma_concat_associative(o, a12, text_pdf(content@));
    }
    let ghost a13 = a12 + text_pdf(content@);
    push_lit4(out, 41, 32, 84, 106);
    proof {
        vstd::seq_lib::lemma_concat_associative(o, a13, seq![41u8, 32u8, 84u8, 106u8]);
    }
    let ghost a14 = a13 + seq![41u8, 32u8, 84u8, 106u8];
    push_lit4(out, 10, 69, 84, 10);
    proof {
        vstd::seq_lib::lemma_concat_associative(o, a14, seq![10u8, 69u8, 84u8, 10u8]);
    }
    let ghost a15 = a14 + seq![10u8, 69u8, 84u8, 10u8];
    proof {
        let opv = OpModel::TextRun {
            content: content@,
            font: font,
            size_mpt: size_mpt as int,
            color: color,
            x: x as int,
            y: y as int,
        };
        assert(a15 =~= op_bytes(opv));
        assert(out@ == o + a15);
    }
}

/// Appends one stroked-line operator block.
fn push_line_seg(
    out: &mut Vec<u8>,
    x1: i64,
    y1: i64,
    x2: i64,
    y2: i64,
    width_mpt: i64,
    color: Color,
)
    ensures
        final(out)@ == old(out)@ + op_bytes(
            OpModel::LineSeg {
                x1: x1 as int,
                y1: y1 as int,
                x2: x2 as int,
                y2: y2 as int,
                width_mpt: width_mpt as int,
                color: color,
            },
        ),
{
    let ghost o = out@;
    push_color(out, &color);
    let ghost a1 = color_bytes(color);
    push_lit4(out, 32, 82, 71, 10);
    proof {
        vstd::seq_lib::lemma_concat_associative(o, a1, seq![32u8, 82u8, 71u8, 10u8]);
    }
    let ghost a2 = a1 + seq![32u8, 82u8, 71u8, 10u8];
    push_mpt(out, width_mpt);
    proof {
        vstd::seq_lib::lemma_concat_associative(o, a2, mpt_bytes(width_mpt as int));
    }
    let ghost a3 = a2 + mpt_bytes(width_mpt as int);
    push_lit3(out, 32, 119, 10);
    proof {
        vstd::seq_lib::lemma_concat_associative(o, a3, seq![32u8, 119u8, 10u8]);
    }
    let ghost a4 = a3 + seq![32u8, 119u8, 10u8];
    push_mpt(out, x1);
    proof {
        vstd::seq_lib::lemma_concat_associative(o, a4, mpt_bytes(x1 as int));
    }
    let ghost a5 = a4 + mpt_bytes(x1 as int);
    push_lit1(out, 32);
    proof {
        vstd::seq_lib::lemma_concat_associative(o, a5, seq![32u8]);
    }
    let ghost a6 = a5 + seq![32u8];
    push_mpt(out, y1);
    proof {
        vstd::seq_lib::lemma_concat_associative(o, a6, mpt_bytes(y1 as int));
    }
    let ghost a7 = a6 + mpt_bytes(y1 as int);
    push_lit3(out, 32, 109, 10);
    proof {
        vstd::seq_lib::lemma_concat_associative(o, a7, seq![32u8, 109u8, 10u8]);
    }
    let ghost a8 = a7 + seq![32u8, 109u8, 10u8];
    push_mpt(out, x2);
    proof {
        vstd::seq_lib::lemma_concat_associative(o, a8, mpt_bytes(x2 as int));
    }
    let ghost a9 = a8 + mpt_bytes(x2 as int);
    push_lit1(out, 32);
    proof {
        vstd::seq_lib::lemma_concat_associative(o, a9, seq![32u8]);
    }
    let ghost a10 = a9 + seq![32u8];
    push_mpt(out, y2);
    proof {
        vstd::seq_lib::lemma_concat_associative(o, a10, mpt_bytes(y2 as int));
    }
    let ghost a11 = a10 + mpt_bytes(y2 as int);
    push_lit3(out, 32, 108, 10);
    proof {
        vstd::seq_lib::lemma_concat_associative(o, a11, seq![32u8, 108u8, 10u8]);
    }
    let ghost a12 = a11 + seq![32u8, 108u8, 10u8];
    push_lit2(out, 83, 10);
    proof {
        vstd::seq_lib::lemma_concat_associative(o, a12, seq![83u8, 10u8]);
    }
    let ghost a13 = a12 + seq![83u8, 10u8];
    proof {
        let opv = OpModel::LineSeg {
            x1: x1 as int,
            y1: y1 as int,
            x2: x2 as int,
            y2: y2 as int,
            width_mpt: width_mpt as int,
            color: color,
        };
        assert(a13 =~= op_bytes(opv));
        assert(out@ == o + a13);
    }
}

/// Appends one filled-rectangle operator block.
fn push_rect_fill(out: &mut Vec<u8>, x: i64, y: i64, w: i64, h: i64, color: Color)
    ensures
        final(out)@ == old(out)@ + op_bytes(
            OpModel::RectFill { x: x as int, y: y as int, w: w as int, h: h as int, color: color },
        ),
{
    let ghost o = out@;
    push_color(out, &color);
    let ghost a1 = color_bytes(color);
    push_lit4(out, 32, 114, 103, 10);
    proof {
        vstd::seq_lib::lemma_concat_associative(o, a1, seq![32u8, 114u8, 103u8, 10u8]);
    }
    let ghost a2 = a1 + seq![32u8, 114u8, 103u8, 10u8];
    push_mpt(out, x);
    proof {
        vstd::seq_lib::lemma_concat_associative(o, a2, mpt_bytes(x as int));
    }
    let ghost a3 = a2 + mpt_bytes(x as int);
    push_lit1(out, 32);
    proof {
        vstd::seq_lib::lemma_concat_associative(o, a3, seq![32u8]);
    }
    let ghost a4 = a3 + seq![32u8];
    push_mpt(out, y);
    proof {
        vstd::seq_lib::lemma_concat_associative(o, a4, mpt_bytes(y as int));
    }
    let ghost a5 = a4 + mpt_bytes(y as int);
    push_lit1(out, 32);
    proof {
        vstd::seq_lib::lemma_concat_associative(o, a5, seq![32u8]);
    }
    let ghost a6 = a5 + seq![32u8];
    push_mpt(out, w);
    proof {
        vstd::seq_lib::lemma_concat_associative(o, a6, mpt_bytes(w as int));
    }
    let ghost a7 = a6 + mpt_bytes(w as int);
    push_lit1(out, 32);
    proof {
        vstd::seq_lib::lemma_concat_associative(o, a7, seq![32u8]);
    }
    let ghost a8 = a7 + seq![32u8];
    push_mpt(out, h);
    proof {
        vstd::seq_lib::lemma_concat_associative(o, a8, mpt_bytes(h as int));
    }
    let ghost a9 = a8 + mpt_bytes(h as int);
    push_lit4(out, 32, 114, 101, 10);
    proof {
        vstd::seq_lib::lemma_concat_associative(o, a9, seq![32u8, 114u8, 101u8, 10u8]);
    }
    let ghost a10 = a9 + seq![32u8, 114u8, 101u8, 10u8];
    push_lit2(out, 102, 10);
    proof {
        vstd::seq_lib::lemma_concat_associative(o, a10, seq![102u8, 10u8]);
    }
    let ghost a11 = a10 + seq![102u8, 10u8];
    proof {
        let opv = OpModel::RectFill {
            x: x as int,
            y: y as int,
            w: w as int,
            h: h as int,
            color: color,
        };
        assert(a11 =~= op_bytes(opv));
        assert(out@ == o + a11);
    }
}

/// Appends the content-stream bytes of one draw operation; see
/// [`op_bytes`].
fn push_op(out: &mut Vec<u8>, op: &crate::model::DrawOp)
    ensures
        final(out)@ == old(out)@ + op_bytes(op@),
{
    match op {
        crate::model::DrawOp::TextRun { content, font, size_mpt, color, x, y } => {
            push_text_run(out, content, *font, *size_mpt, *color, *x, *y);
        },
        crate::model::DrawOp::LineSeg { x1, y1, x2, y2, width_mpt, color } => {
            push_line_seg(out, *x1, *y1, *x2, *y2, *width_mpt, *color);
        },
        crate::model::DrawOp::RectFill { x, y, w, h, color } => {
            push_rect_fill(out, *x, *y, *w, *h, *color);
        },
    }
}

/// The content stream of one page's operations; see [`content_bytes`].
pub fn encode_content(ops: &Vec<crate::model::DrawOp>) -> (out: Vec<u8>)
    ensures
        out@ == content_bytes(ops@.map_values(|o: crate::model::DrawOp| o@)),
{
    let mut out: Vec<u8> = Vec::new();
    let ghost opv = ops@.map_values(|o: crate::model::DrawOp| o@);
    let mut k: usize = 0;
    proof {
        assert(out@ =~= content_bytes(opv.take(0)));
    }
    while k < ops.len()
        invariant
            k <= ops@.len(),
            opv == ops@.map_values(|o: crate::model::DrawOp| o@),
            out@ == content_bytes(opv.take(k as int)),
        decreases ops@.len() - k,
    {
        proof {
            assert(opv.take(k as int + 1).drop_last() =~= opv.take(k as int));
            assert(opv.take(k as int + 1).last() == opv[k as int]);
        }
        push_op(&mut out, &ops[k]);
        k += 1;
        proof {
            assert(out@ == content_bytes(opv.take(k as int)));
        }
    }
    proof {
        assert(opv.take(opv.len() as int) =~= opv);
    }
    out
}

} // verus!
