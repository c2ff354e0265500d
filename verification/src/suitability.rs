//! Resolution and aspect suitability of an asset for a selected display group.

use vstd::prelude::*;

use crate::asset::MediaDimensions;
use crate::display::NativePixelSize;

verus! {

/// `a + b` clamped to the `u64` range.
pub open spec fn sat_add_u64(a: int, b: int) -> int {
    if a + b > u64::MAX {
        u64::MAX as int
    } else {
        a + b
    }
}

/// `a * b` clamped to the `u64` range.
pub open spec fn sat_mul_u64(a: int, b: int) -> int {
    if a * b > u64::MAX {
        u64::MAX as int
    } else {
        a * b
    }
}

/// `a + b` clamped to the `u32` range.
pub open spec fn sat_add_u32(a: int, b: int) -> int {
    if a + b > u32::MAX {
        u32::MAX as int
    } else {
        a + b
    }
}

/// Widest native width among the displays (zero when there are none).
pub open spec fn max_width(s: Seq<NativePixelSize>) -> u32
    decreases s.len(),
{
    if s.len() == 0 {
        0
    } else {
        let rest = max_width(s.drop_last());
        if s.last().width > rest { s.last().width } else { rest }
    }
}

/// Tallest native height among the displays (zero when there are none).
pub open spec fn max_height(s: Seq<NativePixelSize>) -> u32
    decreases s.len(),
{
    if s.len() == 0 {
        0
    } else {
        let rest = max_height(s.drop_last());
        if s.last().height > rest { s.last().height } else { rest }
    }
}

/// Sum of native pixel areas, each product and each partial sum saturating at `u64::MAX`.
pub open spec fn total_area(s: Seq<NativePixelSize>) -> int
    decreases s.len(),
{
    if s.len() == 0 {
        0
    } else {
        sat_add_u64(total_area(s.drop_last()), sat_mul_u64(s.last().width as int, s.last().height as int))
    }
}

/// Sum of native widths, saturating at `u32::MAX`.
pub open spec fn span_width(s: Seq<NativePixelSize>) -> int
    decreases s.len(),
{
    if s.len() == 0 {
        0
    } else {
        sat_add_u32(span_width(s.drop_last()), s.last().width as int)
    }
}

/// Sum of native heights, saturating at `u32::MAX`.
pub open spec fn span_height(s: Seq<NativePixelSize>) -> int
    decreases s.len(),
{
    if s.len() == 0 {
        0
    } else {
        sat_add_u32(span_height(s.drop_last()), s.last().height as int)
    }
}

fn saturating_mul_u64(a: u64, b: u64) -> (r: u64)
    ensures
        r == sat_mul_u64(a as int, b as int),
{
    if a == 0 || b == 0 {
        proof {
            assert(a * b == 0) by (nonlinear_arith)
                requires
                    a == 0 || b == 0,
            ;
        }
        0
    } else if b > u64::MAX / a {
        proof {
            assert(a * b > u64::MAX) by (nonlinear_arith)
                requires
                    a > 0,
                    b > u64::MAX / a,
            ;
        }
        u64::MAX
    } else {
        proof {
            assert(a * b <= u64::MAX) by (nonlinear_arith)
                requires
                    a > 0,
                    b <= u64::MAX / a,
            ;
        }
        a * b
    }
}

/// Pixel budget derived from a selected display group.
#[derive(Clone, Copy, Debug, PartialEq, Eq, Structural)]
pub struct PixelBudget {
    /// Widest native width among selected displays.
    pub max_display_width: u32,
    /// Tallest native height among selected displays.
    pub max_display_height: u32,
    /// Sum of native pixel areas across selected displays.
    pub total_area: u64,
    /// Approximate span width when displays are treated as a horizontal row.
    pub span_width: u32,
    /// Approximate span height when displays are treated as a vertical stack.
    pub span_height: u32,
}

impl PixelBudget {
    /// Computes a budget from the native pixel sizes of the selected displays.
    pub fn from_displays(displays: &[NativePixelSize]) -> (r: Self)
        ensures
            r.max_display_width == max_width(displays@),
            r.max_display_height == max_height(displays@),
            r.total_area == total_area(displays@),
            r.span_width == span_width(displays@),
            r.span_height == span_height(displays@),
    {
        let mut budget = PixelBudget {
            max_display_width: 0,
            max_display_height: 0,
            total_area: 0,
            span_width: 0,
            span_height: 0,
        };
        let mut i: usize = 0;
        while i < displays.len()
            invariant
                i <= displays@.len(),
                budget.max_display_width == max_width(displays@.subrange(0, i as int)),
                budget.max_display_height == max_height(displays@.subrange(0, i as int)),
                budget.total_area == total_area(displays@.subrange(0, i as int)),
                budget.span_width == span_width(displays@.subrange(0, i as int)),
                budget.span_height == span_height(displays@.subrange(0, i as int)),
            decreases displays@.len() - i,
        {
            let d = displays[i];
            let ghost prefix = displays@.subrange(0, i + 1);
            assert(prefix.drop_last() =~= displays@.subrange(0, i as int));
            assert(prefix.last() == d);
            if d.width > budget.max_display_width {
                budget.max_display_width = d.width;
            }
            if d.height > budget.max_display_height {
                budget.max_display_height = d.height;
            }
            let area = saturating_mul_u64(d.width as u64, d.height as u64);
            budget.total_area = budget.total_area.saturating_add(area);
            budget.span_width = budget.span_width.saturating_add(d.width);
            budget.span_height = budget.span_height.saturating_add(d.height);
            i = i + 1;
        }
        assert(displays@.subrange(0, displays@.len() as int) =~= displays@);
        budget
    }
}

/// Width/height aspect ratio in thousandths, with zero sides counted as one.
pub open spec fn aspect_milli_spec(width: u32, height: u32) -> int {
    let w: int = if width == 0 { 1 } else { width as int };
    let h: int = if height == 0 { 1 } else { height as int };
    let v = (w * 1000) / h;
    if v > u32::MAX { u32::MAX as int } else { v }
}

/// Width/height aspect ratio in thousandths to avoid floating-point scoring.
pub fn aspect_milli(width: u32, height: u32) -> (r: u32)
    ensures
        r == aspect_milli_spec(width, height),
{
    let w: u64 = if width == 0 { 1 } else { width as u64 };
    let h: u64 = if height == 0 { 1 } else { height as u64 };
    let v = (w * 1000) / h;
    if v > u32::MAX as u64 {
        u32::MAX
    } else {
        v as u32
    }
}

/// Suitability of one asset for a display-group pixel budget.
#[derive(Clone, Debug, PartialEq, Eq)]
pub struct SuitabilityAssessment {
    /// Score from 0 (unsuitable) to 100 (excellent).
    pub score: u8,
    /// Whether the asset meets the minimum no-upscale bar for every selected display.
    pub meets_minimum: bool,
    /// Short machine-readable reasons contributing to the score.
    pub reasons: Vec<&'static str>,
}

/// Which share of the group's total area the asset covers: 3 = all, 2 = at least 70%,
/// 1 = at least 40%, 0 = less (or an empty area).
pub open spec fn area_tier(asset: MediaDimensions, budget: PixelBudget) -> int {
    let asset_area = sat_mul_u64(asset.width as int, asset.height as int);
    if budget.total_area > 0 && asset_area >= budget.total_area {
        3
    } else if budget.total_area > 0 && sat_mul_u64(asset_area, 10) >= sat_mul_u64(budget.total_area as int, 7) {
        2
    } else if budget.total_area > 0 && sat_mul_u64(asset_area, 10) >= sat_mul_u64(budget.total_area as int, 4) {
        1
    } else {
        0
    }
}

/// How far the asset's aspect is from the group span's: 2 = within 0.15, 1 = within 0.4, 0 = farther.
pub open spec fn aspect_tier(asset: MediaDimensions, budget: PixelBudget) -> int {
    let a = aspect_milli_spec(asset.width, asset.height);
    let s = aspect_milli_spec(
        if budget.span_width == 0 { 1 } else { budget.span_width },
        if budget.max_display_height == 0 { 1 } else { budget.max_display_height },
    );
    let delta = if a >= s { a - s } else { s - a };
    if delta <= 150 {
        2
    } else if delta <= 400 {
        1
    } else {
        0
    }
}

/// Whether the asset is at least as large as the largest display on both axes.
pub open spec fn covers_largest(asset: MediaDimensions, budget: PixelBudget) -> bool {
    asset.width >= budget.max_display_width && asset.height >= budget.max_display_height
}

/// The score: 40 for covering the largest display, 40/25/10 by area tier, 20/10 by aspect tier.
pub open spec fn suitability_score(asset: MediaDimensions, budget: PixelBudget) -> int {
    (if covers_largest(asset, budget) { 40int } else { 0int })
        + (if area_tier(asset, budget) == 3 { 40int } else if area_tier(asset, budget) == 2 { 25int } else if area_tier(asset, budget) == 1 { 10int } else { 0int })
        + (if aspect_tier(asset, budget) == 2 { 20int } else if aspect_tier(asset, budget) == 1 { 10int } else { 0int })
}

/// The reasons, in order: display coverage, area coverage, aspect agreement.
pub open spec fn suitability_reasons(asset: MediaDimensions, budget: PixelBudget) -> Seq<&'static str> {
    seq![
        if covers_largest(asset, budget) { "covers_largest_display" } else { "below_largest_display" },
        if area_tier(asset, budget) == 3 {
            "covers_total_area"
        } else if area_tier(asset, budget) == 2 {
            "near_total_area"
        } else if area_tier(asset, budget) == 1 {
            "partial_total_area"
        } else {
            "insufficient_total_area"
        },
        if aspect_tier(asset, budget) == 2 {
            "aspect_close_to_span"
        } else if aspect_tier(asset, budget) == 1 {
            "aspect_acceptable"
        } else {
            "aspect_mismatch"
        },
    ]
}

/// Scores how well `asset` covers `budget` without heavy upscaling.
pub fn assess_suitability(asset: MediaDimensions, budget: PixelBudget) -> (r: SuitabilityAssessment)
    ensures
        budget.max_display_width == 0 || budget.max_display_height == 0 ==> r.score == 0
            && !r.meets_minimum && r.reasons@ == seq!["empty_display_group"],
        budget.max_display_width != 0 && budget.max_display_height != 0 ==> r.score
            == suitability_score(asset, budget) && r.meets_minimum == covers_largest(asset, budget)
            && r.reasons@ == suitability_reasons(asset, budget),
        r.score <= 100,
{
    if budget.max_display_width == 0 || budget.max_display_height == 0 {
        let mut reasons: Vec<&'static str> = Vec::new();
        reasons.push("empty_display_group");
        assert(reasons@ =~= seq!["empty_display_group"]);
        return SuitabilityAssessment { score: 0, meets_minimum: false, reasons };
    }
    let mut reasons: Vec<&'static str> = Vec::new();
    let meets_minimum = asset.width >= budget.max_display_width && asset.height
        >= budget.max_display_height;
    if meets_minimum {
        reasons.push("covers_largest_display");
    } else {
        reasons.push("below_largest_display");
    }
    let asset_area = saturating_mul_u64(asset.width as u64, asset.height as u64);
    let mut score: u8 = 0;
    if meets_minimum {
        score = score + 40;
    }
    if budget.total_area > 0 && asset_area >= budget.total_area {
        score = score + 40;
        reasons.push("covers_total_area");
    } else if budget.total_area > 0 && saturating_mul_u64(asset_area, 10) >= saturating_mul_u64(
        budget.total_area,
        7,
    ) {
        score = score + 25;
        reasons.push("near_total_area");
    } else if budget.total_area > 0 && saturating_mul_u64(asset_area, 10) >= saturating_mul_u64(
        budget.total_area,
        4,
    ) {
        score = score + 10;
        reasons.push("partial_total_area");
    } else {
        reasons.push("insufficient_total_area");
    }
    let asset_aspect = aspect_milli(asset.width, asset.height);
    let span_w = if budget.span_width == 0 { 1 } else { budget.span_width };
    let span_h = if budget.max_display_height == 0 { 1 } else { budget.max_display_height };
    let span_aspect = aspect_milli(span_w, span_h);
    let delta = if asset_aspect >= span_aspect {
        asset_aspect - span_aspect
    } else {
        span_aspect - asset_aspect
    };
    if delta <= 150 {
        score = score + 20;
        reasons.push("aspect_close_to_span");
    } else if delta <= 400 {
        score = score + 10;
        reasons.push("aspect_acceptable");
    } else {
        reasons.push("aspect_mismatch");
    }
    assert(reasons@ =~= suitability_reasons(asset, budget));
    SuitabilityAssessment { score, meets_minimum, reasons }
}

/// An asset meets the minimum exactly when it is at least as wide as the widest display and
/// at least as tall as the tallest; an asset with at least the group's total pixel area
/// earns the top area tier.
pub proof fn lemma_coverage_by_size(asset: MediaDimensions, budget: PixelBudget)
    ensures
        covers_largest(asset, budget) <==> (asset.width >= budget.max_display_width && asset.height
            >= budget.max_display_height),
        budget.total_area > 0 && asset.width * asset.height >= budget.total_area ==> area_tier(asset, budget) == 3,
{
}

proof fn lemma_equal_ratios_equal_quotients(w: int, h: int, s: int, t: int)
    requires
        h > 0,
        t > 0,
        w >= 0,
        s >= 0,
        w * t == s * h,
    ensures
        (w * 1000) / h == (s * 1000) / t,
{
    let q = (w * 1000) / h;
    let r = (w * 1000) % h;
    vstd::arithmetic::div_mod::lemma_fundamental_div_mod(w * 1000, h);
    assert(0 <= r < h);
    assert(h * (s * 1000 - q * t) == r * t) by (nonlinear_arith)
        requires
            w * 1000 == h * q + r,
            w * t == s * h,
    ;
    assert(0 <= s * 1000 - q * t < t) by (nonlinear_arith)
        requires
            h * (s * 1000 - q * t) == r * t,
            0 <= r < h,
            h > 0,
            t > 0,
    ;
    vstd::arithmetic::div_mod::lemma_fundamental_div_mod_converse(s * 1000, t, q, s * 1000 - q * t);
}

/// The span a group offers is its side-by-side row: total width over the tallest display.
/// An asset with exactly that width/height ratio earns the top aspect tier.
pub proof fn lemma_span_aspect_is_row(asset: MediaDimensions, budget: PixelBudget)
    requires
        asset.width > 0,
        asset.height > 0,
        budget.span_width > 0,
        budget.max_display_height > 0,
        asset.width * budget.max_display_height == budget.span_width * asset.height,
    ensures
        aspect_tier(asset, budget) == 2,
{
    lemma_equal_ratios_equal_quotients(
        asset.width as int,
        asset.height as int,
        budget.span_width as int,
        budget.max_display_height as int,
    );
}

/// An asset that covers every display and the group's whole area, with a span-matching
/// aspect, scores the full 100; one below the largest display never reaches 61.
pub proof fn lemma_score_bounds(asset: MediaDimensions, budget: PixelBudget)
    ensures
        suitability_score(asset, budget) <= 100,
        !covers_largest(asset, budget) ==> suitability_score(asset, budget) <= 60,
        covers_largest(asset, budget) && area_tier(asset, budget) == 3 && aspect_tier(asset, budget) == 2
            ==> suitability_score(asset, budget) == 100,
{
}

} // verus!
