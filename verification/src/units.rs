//! Page geometry and print settings.
//!
//! Every length in the engine is an integer number of millipoints
//! (1 mpt = 1/1000 of a PostScript point).  Margins are supplied in
//! hundredths of a millimeter and converted with the fixed factor
//! 1 mm = 2.83465 pt, so the conversion is exact integer arithmetic.

use vstd::prelude::*;

verus! {

/// Supported page sizes.
#[derive(Clone, Copy, PartialEq, Eq, Structural, Debug)]
pub enum PageSize {
    Letter,
    A4,
    Legal,
}

/// Page orientation.
#[derive(Clone, Copy, PartialEq, Eq, Structural, Debug)]
pub enum Orientation {
    Portrait,
    Landscape,
}

/// View mode of the table: `Detailed` renders the instructions column,
/// `Summary` omits it.
#[derive(Clone, Copy, PartialEq, Eq, Structural, Debug)]
pub enum ViewMode {
    Summary,
    Detailed,
}

/// Page margins in hundredths of a millimeter.
#[derive(Clone, Copy, PartialEq, Eq, Structural, Debug)]
pub struct Margins {
    pub top: u32,
    pub bottom: u32,
    pub left: u32,
    pub right: u32,
}

/// Caller-supplied page geometry and typography configuration.
/// `font_size` is in whole points.
#[derive(Clone, Copy, PartialEq, Eq, Structural, Debug)]
pub struct PrintSettings {
    pub page_size: PageSize,
    pub orientation: Orientation,
    pub margins: Margins,
    pub font_size: u32,
    pub view_mode: ViewMode,
}

/// Upper bound for each margin: 70 mm, in hundredths of a millimeter.
pub const MARGIN_MAX: u32 = 7000;

/// Upper bound for the font size in points.  The bound is a machine
/// limit, not a layout rule: row heights grow with the wrapped line
/// count times the line height, and this cap keeps every intermediate
/// layout quantity far inside 64-bit range for texts up to the engine's
/// length bound.
pub const FONT_SIZE_MAX: u32 = 100000;

/// Well-formed margins: each side at most 70 mm, which keeps the content
/// area strictly positive on every supported page size and orientation.
pub open spec fn margins_wf(m: Margins) -> bool {
    m.top <= MARGIN_MAX && m.bottom <= MARGIN_MAX && m.left <= MARGIN_MAX && m.right <= MARGIN_MAX
}

/// Well-formed print settings.
pub open spec fn settings_wf(s: PrintSettings) -> bool {
    &&& margins_wf(s.margins)
    &&& 1 <= s.font_size <= FONT_SIZE_MAX
}

/// Converts hundredths of a millimeter to millipoints, rounding down:
/// 0.01 mm = 28.3465 mpt.
pub open spec fn hmm_to_mpt(hmm: u32) -> int {
    hmm * 283465 / 10000
}

/// Exec counterpart of [`hmm_to_mpt`].
pub fn hmm_to_mpt_exec(hmm: u32) -> (r: i64)
    ensures
        r == hmm_to_mpt(hmm),
{
    (hmm as i64) * 283465 / 10000
}

/// Width of a page in millipoints: the fixed lookup table
/// Letter 612x792 pt, A4 595x842 pt, Legal 612x1008 pt, swapped for
/// landscape orientation.
pub open spec fn page_width_mpt(size: PageSize, orientation: Orientation) -> int {
    match orientation {
        Orientation::Portrait => match size {
            PageSize::Letter => 612000,
            PageSize::A4 => 595000,
            PageSize::Legal => 612000,
        },
        Orientation::Landscape => match size {
            PageSize::Letter => 792000,
            PageSize::A4 => 842000,
            PageSize::Legal => 1008000,
        },
    }
}

/// Height of a page in millipoints; see [`page_width_mpt`].
pub open spec fn page_height_mpt(size: PageSize, orientation: Orientation) -> int {
    page_width_mpt(size, other_orientation(orientation))
}

/// The opposite orientation.
pub open spec fn other_orientation(o: Orientation) -> Orientation {
    match o {
        Orientation::Portrait => Orientation::Landscape,
        Orientation::Landscape => Orientation::Portrait,
    }
}

/// Exec counterpart of [`page_width_mpt`].
pub fn page_width_mpt_exec(size: PageSize, orientation: Orientation) -> (r: i64)
    ensures
        r == page_width_mpt(size, orientation),
{
    match orientation {
        Orientation::Portrait => match size {
            PageSize::Letter => 612000,
            PageSize::A4 => 595000,
            PageSize::Legal => 612000,
        },
        Orientation::Landscape => match size {
            PageSize::Letter => 792000,
            PageSize::A4 => 842000,
            PageSize::Legal => 1008000,
        },
    }
}

/// Exec counterpart of [`page_height_mpt`].
pub fn page_height_mpt_exec(size: PageSize, orientation: Orientation) -> (r: i64)
    ensures
        r == page_height_mpt(size, orientation),
{
    match orientation {
        Orientation::Portrait => match size {
            PageSize::Letter => 792000,
            PageSize::A4 => 842000,
            PageSize::Legal => 1008000,
        },
        Orientation::Landscape => match size {
            PageSize::Letter => 612000,
            PageSize::A4 => 595000,
            PageSize::Legal => 612000,
        },
    }
}

impl PrintSettings {
    /// Page width under these settings, millipoints.
    pub open spec fn page_w(self) -> int {
        page_width_mpt(self.page_size, self.orientation)
    }

    /// Page height under these settings, millipoints.
    pub open spec fn page_h(self) -> int {
        page_height_mpt(self.page_size, self.orientation)
    }

    /// Top margin in millipoints.
    pub open spec fn margin_top(self) -> int {
        hmm_to_mpt(self.margins.top)
    }

    /// Bottom margin in millipoints.
    pub open spec fn margin_bottom(self) -> int {
        hmm_to_mpt(self.margins.bottom)
    }

    /// Left margin in millipoints.
    pub open spec fn margin_left(self) -> int {
        hmm_to_mpt(self.margins.left)
    }

    /// Right margin in millipoints.
    pub open spec fn margin_right(self) -> int {
        hmm_to_mpt(self.margins.right)
    }

    /// Usable drawing width: page width minus the side margins.
    pub open spec fn content_w(self) -> int {
        self.page_w() - self.margin_left() - self.margin_right()
    }

    /// Usable drawing height: page height minus the top and bottom margins.
    pub open spec fn content_h(self) -> int {
        self.page_h() - self.margin_top() - self.margin_bottom()
    }
}

/// Percentages of the content width given to the five columns:
/// time, theme, speaker, type, instructions.
pub const COL_TIME_PCT: i64 = 10;

pub const COL_THEME_PCT: i64 = 25;

pub const COL_SPEAKER_PCT: i64 = 15;

pub const COL_TYPE_PCT: i64 = 15;

pub const COL_INSTRUCTIONS_PCT: i64 = 35;

/// Width of one column as a fixed fraction of the content width.
pub open spec fn col_width(content_w: int, pct: int) -> int {
    content_w * pct / 100
}

/// Exec counterpart of [`col_width`].
pub fn col_width_exec(content_w: i64, pct: i64) -> (r: i64)
    requires
        0 <= content_w <= 2000000,
        0 <= pct <= 100,
    ensures
        r == col_width(content_w as int, pct as int),
{
    proof {
        assert(content_w * pct <= 2000000 * 100) by (nonlinear_arith)
            requires
                0 <= content_w <= 2000000 && 0 <= pct <= 100,
        ;
        assert(content_w * pct >= 0) by (nonlinear_arith)
            requires
                content_w >= 0 && pct >= 0,
        ;
    }
    content_w * pct / 100
}

/// Numeric bounds that follow from well-formed settings: margins stay
/// under 200 pt and the content area spans at least 198.15 pt each way.
pub proof fn lemma_settings_bounds(s: PrintSettings)
    requires
        settings_wf(s),
    ensures
        0 <= s.margin_top() <= 198425,
        0 <= s.margin_bottom() <= 198425,
        0 <= s.margin_left() <= 198425,
        0 <= s.margin_right() <= 198425,
        595000 <= s.page_w() <= 1008000,
        595000 <= s.page_h() <= 1008000,
        198150 <= s.content_w() <= 1008000,
        198150 <= s.content_h() <= 1008000,
{
    assert(hmm_to_mpt(s.margins.top) <= 7000 * 283465 / 10000 && hmm_to_mpt(s.margins.bottom)
        <= 7000 * 283465 / 10000 && hmm_to_mpt(s.margins.left) <= 7000 * 283465 / 10000
        && hmm_to_mpt(s.margins.right) <= 7000 * 283465 / 10000) by (nonlinear_arith)
        requires
            s.margins.top <= 7000 && s.margins.bottom <= 7000 && s.margins.left <= 7000
                && s.margins.right <= 7000,
    ;
}

/// Exec counterpart of `content_w`.
pub fn content_w_exec(s: &PrintSettings) -> (r: i64)
    requires
        settings_wf(*s),
    ensures
        r == s.content_w(),
        198150 <= r <= 1008000,
{
    proof {
        lemma_settings_bounds(*s);
    }
    page_width_mpt_exec(s.page_size, s.orientation) - hmm_to_mpt_exec(s.margins.left)
        - hmm_to_mpt_exec(s.margins.right)
}

/// Exec counterpart of `content_h`.
pub fn content_h_exec(s: &PrintSettings) -> (r: i64)
    requires
        settings_wf(*s),
    ensures
        r == s.content_h(),
        198150 <= r <= 1008000,
{
    proof {
        lemma_settings_bounds(*s);
    }
    page_height_mpt_exec(s.page_size, s.orientation) - hmm_to_mpt_exec(s.margins.top)
        - hmm_to_mpt_exec(s.margins.bottom)
}

/// Exec counterpart of `margin_left`.
pub fn margin_left_exec(s: &PrintSettings) -> (r: i64)
    requires
        settings_wf(*s),
    ensures
        r == s.margin_left(),
        0 <= r <= 198425,
{
    proof {
        lemma_settings_bounds(*s);
    }
    hmm_to_mpt_exec(s.margins.left)
}

/// Exec counterpart of `margin_bottom`.
pub fn margin_bottom_exec(s: &PrintSettings) -> (r: i64)
    requires
        settings_wf(*s),
    ensures
        r == s.margin_bottom(),
        0 <= r <= 198425,
{
    proof {
        lemma_settings_bounds(*s);
    }
    hmm_to_mpt_exec(s.margins.bottom)
}

/// Exec counterpart of `margin_top`.
pub fn margin_top_exec(s: &PrintSettings) -> (r: i64)
    requires
        settings_wf(*s),
    ensures
        r == s.margin_top(),
        0 <= r <= 198425,
{
    proof {
        lemma_settings_bounds(*s);
    }
    hmm_to_mpt_exec(s.margins.top)
}

/// The column fractions of the content width sum to exactly 1 (100%),
/// with the instructions column included, and on every supported
/// combination of page size and orientation well-formed margins leave a
/// strictly positive content area.
pub proof fn lemma_geometry_invariants(s: PrintSettings)
    requires
        settings_wf(s),
    ensures
        COL_TIME_PCT + COL_THEME_PCT + COL_SPEAKER_PCT + COL_TYPE_PCT + COL_INSTRUCTIONS_PCT
            == 100,
        s.content_w() > 0,
        s.content_h() > 0,
        col_width(s.content_w(), COL_TIME_PCT as int) + col_width(
            s.content_w(),
            COL_THEME_PCT as int,
        ) + col_width(s.content_w(), COL_SPEAKER_PCT as int) + col_width(
            s.content_w(),
            COL_TYPE_PCT as int,
        ) + col_width(s.content_w(), COL_INSTRUCTIONS_PCT as int) <= s.content_w(),
{
    assert(s.margin_left() <= 198425) by {
        assert(s.margins.left <= 7000);
        assert(hmm_to_mpt(s.margins.left) <= 7000 * 283465 / 10000) by (nonlinear_arith)
            requires
                s.margins.left <= 7000,
        ;
    }
    assert(s.margin_right() <= 198425) by {
        assert(hmm_to_mpt(s.margins.right) <= 7000 * 283465 / 10000) by (nonlinear_arith)
            requires
                s.margins.right <= 7000,
        ;
    }
    assert(s.margin_top() <= 198425) by {
        assert(hmm_to_mpt(s.margins.top) <= 7000 * 283465 / 10000) by (nonlinear_arith)
            requires
                s.margins.top <= 7000,
        ;
    }
    assert(s.margin_bottom() <= 198425) by {
        assert(hmm_to_mpt(s.margins.bottom) <= 7000 * 283465 / 10000) by (nonlinear_arith)
            requires
                s.margins.bottom <= 7000,
        ;
    }
    let cw = s.content_w();
    assert(cw * 10 / 100 + cw * 25 / 100 + cw * 15 / 100 + cw * 15 / 100 + cw * 35 / 100 <= cw)
        by (nonlinear_arith)
        requires
            cw > 0,
    ;
}

} // verus!
