//! In-memory representation of pages and documents.
//!
//! A page holds an ordered sequence of draw operations (text runs, line
//! segments, filled rectangles) in a coordinate system whose origin is
//! the bottom-left corner, with y increasing upward.  A document is an
//! ordered sequence of pages plus a title.  Colors are in thousandths
//! (0 = none, 1000 = full channel); lengths are in millipoints.

use crate::units::PrintSettings;
use vstd::prelude::*;

verus! {

/// An RGB color with channels in thousandths (0..=1000).
#[derive(Clone, Copy, PartialEq, Eq, Structural, Debug)]
pub struct Color {
    pub r: u32,
    pub g: u32,
    pub b: u32,
}

/// The two fonts a document references: the regular and the bold face of
/// the built-in Helvetica family.
#[derive(Clone, Copy, PartialEq, Eq, Structural, Debug)]
pub enum FontKind {
    Regular,
    Bold,
}

/// One draw operation.
pub enum DrawOp {
    /// A text run at (x, y), with font, size (millipoints) and color.
    TextRun { content: String, font: FontKind, size_mpt: i64, color: Color, x: i64, y: i64 },
    /// A stroked line segment between two points.
    LineSeg { x1: i64, y1: i64, x2: i64, y2: i64, width_mpt: i64, color: Color },
    /// A filled rectangle with origin (x, y), width w and height h.
    RectFill { x: i64, y: i64, w: i64, h: i64, color: Color },
}

/// The mathematical model of a draw operation.
#[verifier::ext_equal]
pub enum OpModel {
    TextRun { content: Seq<char>, font: FontKind, size_mpt: int, color: Color, x: int, y: int },
    LineSeg { x1: int, y1: int, x2: int, y2: int, width_mpt: int, color: Color },
    RectFill { x: int, y: int, w: int, h: int, color: Color },
}

impl View for DrawOp {
    type V = OpModel;

    open spec fn view(&self) -> OpModel {
        match *self {
            DrawOp::TextRun { content, font, size_mpt, color, x, y } => OpModel::TextRun {
                content: content@,
                font,
                size_mpt: size_mpt as int,
                color,
                x: x as int,
                y: y as int,
            },
            DrawOp::LineSeg { x1, y1, x2, y2, width_mpt, color } => OpModel::LineSeg {
                x1: x1 as int,
                y1: y1 as int,
                x2: x2 as int,
                y2: y2 as int,
                width_mpt: width_mpt as int,
                color,
            },
            DrawOp::RectFill { x, y, w, h, color } => OpModel::RectFill {
                x: x as int,
                y: y as int,
                w: w as int,
                h: h as int,
                color,
            },
        }
    }
}

/// One page: fixed dimensions (millipoints) and its draw operations.
pub struct PageModel {
    pub width_mpt: i64,
    pub height_mpt: i64,
    pub ops: Vec<DrawOp>,
}

/// The mathematical model of a page.
#[verifier::ext_equal]
pub struct PageV {
    pub width: int,
    pub height: int,
    pub ops: Seq<OpModel>,
}

impl View for PageModel {
    type V = PageV;

    open spec fn view(&self) -> PageV {
        PageV {
            width: self.width_mpt as int,
            height: self.height_mpt as int,
            ops: self.ops@.map_values(|o: DrawOp| o@),
        }
    }
}

/// A document: a title and an ordered sequence of pages.  The last page
/// is the active one to which operations are appended.
pub struct DocModel {
    pub title: String,
    pub pages: Vec<PageModel>,
}

/// The mathematical model of a document.
#[verifier::ext_equal]
pub struct DocV {
    pub title: Seq<char>,
    pub pages: Seq<PageV>,
}

impl View for DocModel {
    type V = DocV;

    open spec fn view(&self) -> DocV {
        DocV { title: self.title@, pages: self.pages@.map_values(|p: PageModel| p@) }
    }
}

/// An empty page sized for the given settings.
pub open spec fn empty_page_v(s: PrintSettings) -> PageV {
    PageV { width: s.page_w(), height: s.page_h(), ops: Seq::empty() }
}

impl DocModel {
    /// A new document with the given title and no pages.
    pub fn new(title: &str) -> (d: DocModel)
        ensures
            d@.title == title@,
            d@.pages == Seq::<PageV>::empty(),
    {
        let d = DocModel { title: String::from_str(title), pages: Vec::new() };
        proof {
            assert(d@.pages =~~= Seq::<PageV>::empty());
        }
        d
    }

    /// Appends a new empty page sized per the settings; it becomes the
    /// active page.
    pub fn add_page(&mut self, settings: &PrintSettings)
        ensures
            final(self)@.title == old(self)@.title,
            final(self)@.pages == old(self)@.pages.push(empty_page_v(*settings)),
    {
        let w = crate::units::page_width_mpt_exec(settings.page_size, settings.orientation);
        let h = crate::units::page_height_mpt_exec(settings.page_size, settings.orientation);
        let ghost pages0 = self.pages@;
        self.pages.push(PageModel { width_mpt: w, height_mpt: h, ops: Vec::new() });
        proof {
            assert(self@.pages =~~= pages0.map_values(|p: PageModel| p@).push(
                empty_page_v(*settings),
            )) by {
                assert(self.pages@.last()@ =~~= empty_page_v(*settings));
            }
        }
    }

    /// Records a draw operation against the currently active (last) page.
    pub fn append_operation(&mut self, op: DrawOp)
        requires
            old(self)@.pages.len() > 0,
        ensures
            final(self)@.title == old(self)@.title,
            final(self)@.pages.len() == old(self)@.pages.len(),
            final(self)@.pages == old(self)@.pages.update(
                old(self)@.pages.len() - 1,
                PageV {
                    width: old(self)@.pages.last().width,
                    height: old(self)@.pages.last().height,
                    ops: old(self)@.pages.last().ops.push(op@),
                },
            ),
    {
        let n = self.pages.len();
        let ghost pages0 = self@.pages;
        let ghost opv = op@;
        let page = &mut self.pages[n - 1];
        page.ops.push(op);
        proof {
            assert(self@.pages =~~= pages0.update(
                pages0.len() - 1,
                PageV {
                    width: pages0.last().width,
                    height: pages0.last().height,
                    ops: pages0.last().ops.push(opv),
                },
            ));
        }
    }
}

/// One row of tabular data to be rendered: an optional time label,
/// optional item number, required theme text, optional speaker, type and
/// duration, and optional free-text instructions.
#[derive(Clone, Debug)]
pub struct ListItem {
    pub time: Option<String>,
    pub item_number: Option<String>,
    pub theme: String,
    pub speaker: Option<String>,
    pub item_type: Option<String>,
    pub duration: Option<String>,
    pub instructions: Option<String>,
}

/// The mathematical model of a record.
#[verifier::ext_equal]
pub struct ItemV {
    pub time: Option<Seq<char>>,
    pub item_number: Option<Seq<char>>,
    pub theme: Seq<char>,
    pub speaker: Option<Seq<char>>,
    pub item_type: Option<Seq<char>>,
    pub duration: Option<Seq<char>>,
    pub instructions: Option<Seq<char>>,
}

/// The view of an optional string.
pub open spec fn opt_view(o: Option<String>) -> Option<Seq<char>> {
    match o {
        Option::Some(s) => Option::Some(s@),
        Option::None => Option::None,
    }
}

impl View for ListItem {
    type V = ItemV;

    open spec fn view(&self) -> ItemV {
        ItemV {
            time: opt_view(self.time),
            item_number: opt_view(self.item_number),
            theme: self.theme@,
            speaker: opt_view(self.speaker),
            item_type: opt_view(self.item_type),
            duration: opt_view(self.duration),
            instructions: opt_view(self.instructions),
        }
    }
}

} // verus!
