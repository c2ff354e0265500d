//! Display pixel geometry, scale factors, and stable identity rematching.

use vstd::prelude::*;

use crate::text::{chars_eq, chars_of, lower, lower_chars, string_of, trim, trim_chars};

verus! {

/// Native output dimensions in physical pixels.
#[derive(Clone, Copy, Debug, PartialEq, Eq, Structural)]
pub struct NativePixelSize {
    /// Output width.
    pub width: u32,
    /// Output height.
    pub height: u32,
}

/// Rectangle in compositor logical coordinates.
#[derive(Clone, Copy, Debug, PartialEq, Eq, Structural)]
pub struct LogicalRect {
    /// Logical x coordinate; may be negative.
    pub x: i32,
    /// Logical y coordinate; may be negative.
    pub y: i32,
    /// Logical width.
    pub width: u32,
    /// Logical height.
    pub height: u32,
}

/// Factor by which pixel geometry shrinks in the layout preview.
pub const PREVIEW_SCALE: u32 = 8;

/// Integer quotient rounded toward zero, as Rust's `/` rounds for signed integers.
pub open spec fn quotient_toward_zero(x: int, d: int) -> int {
    if x >= 0 {
        x / d
    } else {
        -((-x) / d)
    }
}

/// A pixel length shrunk for the preview, never below one pixel.
pub open spec fn preview_length(n: u32) -> u32 {
    if n / PREVIEW_SCALE >= 1 {
        (n / PREVIEW_SCALE) as u32
    } else {
        1
    }
}

/// Native size and logical rectangle of a display shrunk for the layout preview: lengths are
/// divided by the preview scale and kept at least one pixel, coordinates are divided with
/// rounding toward zero.
pub fn preview_geometry(native: NativePixelSize, logical: LogicalRect) -> (r: (NativePixelSize, LogicalRect))
    ensures
        r.0.width == preview_length(native.width),
        r.0.height == preview_length(native.height),
        r.1.width == preview_length(logical.width),
        r.1.height == preview_length(logical.height),
        r.1.x == quotient_toward_zero(logical.x as int, PREVIEW_SCALE as int),
        r.1.y == quotient_toward_zero(logical.y as int, PREVIEW_SCALE as int),
{
    let x: i32 = logical.x / 8;
    let y: i32 = logical.y / 8;
    (
        NativePixelSize { width: shrink_length(native.width), height: shrink_length(native.height) },
        LogicalRect {
            x,
            y,
            width: shrink_length(logical.width),
            height: shrink_length(logical.height),
        },
    )
}

fn shrink_length(n: u32) -> (r: u32)
    ensures
        r == preview_length(n),
{
    let q = n / PREVIEW_SCALE;
    if q >= 1 {
        q
    } else {
        1
    }
}

/// Right edge of a logical rectangle as the layout preview measures it; a width beyond the
/// signed coordinate range counts as zero.
pub open spec fn preview_right(r: LogicalRect) -> int {
    r.x + if r.width <= i32::MAX {
        r.width as int
    } else {
        0int
    }
}

/// Bottom edge of a logical rectangle as the layout preview measures it; a height beyond the
/// signed coordinate range counts as zero.
pub open spec fn preview_bottom(r: LogicalRect) -> int {
    r.y + if r.height <= i32::MAX {
        r.height as int
    } else {
        0int
    }
}

/// `v` is the least left edge among the first `n` rectangles.
pub open spec fn least_left(rects: Seq<LogicalRect>, n: int, v: int) -> bool {
    &&& forall|i: int| 0 <= i < n ==> v <= #[trigger] rects[i].x
    &&& exists|i: int| 0 <= i < n && v == #[trigger] rects[i].x
}

/// `v` is the least top edge among the first `n` rectangles.
pub open spec fn least_top(rects: Seq<LogicalRect>, n: int, v: int) -> bool {
    &&& forall|i: int| 0 <= i < n ==> v <= #[trigger] rects[i].y
    &&& exists|i: int| 0 <= i < n && v == #[trigger] rects[i].y
}

/// `v` is the greatest right edge among the first `n` rectangles.
pub open spec fn greatest_right(rects: Seq<LogicalRect>, n: int, v: int) -> bool {
    &&& forall|i: int| 0 <= i < n ==> v >= #[trigger] preview_right(rects[i])
    &&& exists|i: int| 0 <= i < n && v == #[trigger] preview_right(rects[i])
}

/// `v` is the greatest bottom edge among the first `n` rectangles.
pub open spec fn greatest_bottom(rects: Seq<LogicalRect>, n: int, v: int) -> bool {
    &&& forall|i: int| 0 <= i < n ==> v >= #[trigger] preview_bottom(rects[i])
    &&& exists|i: int| 0 <= i < n && v == #[trigger] preview_bottom(rects[i])
}

/// Bounding box of logical rectangles in desktop coordinates.
#[derive(Clone, Copy, Debug, PartialEq, Eq, Structural)]
pub struct LogicalExtent {
    /// Least left edge.
    pub min_x: i64,
    /// Least top edge.
    pub min_y: i64,
    /// Greatest right edge.
    pub max_x: i64,
    /// Greatest bottom edge.
    pub max_y: i64,
}

fn right_edge(r: LogicalRect) -> (e: i64)
    ensures
        e == preview_right(r),
{
    let width: i64 = if r.width <= 2147483647 {
        r.width as i64
    } else {
        0
    };
    r.x as i64 + width
}

fn bottom_edge(r: LogicalRect) -> (e: i64)
    ensures
        e == preview_bottom(r),
{
    let height: i64 = if r.height <= 2147483647 {
        r.height as i64
    } else {
        0
    };
    r.y as i64 + height
}

/// The bounding box that the logical layout preview spans: least left and top edges, greatest
/// right and bottom edges; with no rectangles, the unit box at the origin.
pub fn logical_extent(rects: &[LogicalRect]) -> (r: LogicalExtent)
    ensures
        rects@.len() == 0 ==> r == (LogicalExtent { min_x: 0, min_y: 0, max_x: 1, max_y: 1 }),
        rects@.len() > 0 ==> {
            &&& least_left(rects@, rects@.len() as int, r.min_x as int)
            &&& least_top(rects@, rects@.len() as int, r.min_y as int)
            &&& greatest_right(rects@, rects@.len() as int, r.max_x as int)
            &&& greatest_bottom(rects@, rects@.len() as int, r.max_y as int)
        },
{
    if rects.len() == 0 {
        return LogicalExtent { min_x: 0, min_y: 0, max_x: 1, max_y: 1 };
    }
    let first = rects[0];
    let mut min_x: i64 = first.x as i64;
    let mut min_y: i64 = first.y as i64;
    let mut max_x: i64 = right_edge(first);
    let mut max_y: i64 = bottom_edge(first);
    let mut i: usize = 1;
    while i < rects.len()
        invariant
            1 <= i <= rects@.len(),
            least_left(rects@, i as int, min_x as int),
            least_top(rects@, i as int, min_y as int),
            greatest_right(rects@, i as int, max_x as int),
            greatest_bottom(rects@, i as int, max_y as int),
        decreases rects@.len() - i,
    {
        let rect = rects[i];
        let right = right_edge(rect);
        let bottom = bottom_edge(rect);
        if (rect.x as i64) < min_x {
            min_x = rect.x as i64;
        }
        if (rect.y as i64) < min_y {
            min_y = rect.y as i64;
        }
        if right > max_x {
            max_x = right;
        }
        if bottom > max_y {
            max_y = bottom;
        }
        i = i + 1;
    }
    LogicalExtent { min_x, min_y, max_x, max_y }
}

/// Greatest common divisor by Euclid's rule.
pub open spec fn gcd(a: nat, b: nat) -> nat
    decreases b,
{
    if b == 0 {
        a
    } else {
        gcd(b, a % b)
    }
}

/// The greatest common divisor divides both arguments and is positive unless both are zero.
pub proof fn lemma_gcd_divides(a: nat, b: nat)
    ensures
        (a > 0 || b > 0) ==> gcd(a, b) > 0,
        gcd(a, b) > 0 ==> a % gcd(a, b) == 0 && b % gcd(a, b) == 0,
    decreases b,
{
    if b > 0 {
        let r = a % b;
        lemma_gcd_divides(b, r);
        let g = gcd(b, r);
        assert(g > 0);
        vstd::arithmetic::div_mod::lemma_fundamental_div_mod(a as int, b as int);
        vstd::arithmetic::div_mod::lemma_fundamental_div_mod(b as int, g as int);
        let q = (a / b) as int;
        let k = (b / g) as int;
        assert(b as int == g * k);
        assert(b * q == g * (k * q)) by (nonlinear_arith)
            requires
                b as int == g * k,
        ;
        assert(a as int == g * (k * q) + r);
        vstd::arithmetic::div_mod::lemma_mod_multiples_vanish(k * q, r as int, g as int);
    }
}

/// Every common divisor of `a` and `b` divides their greatest common divisor.
pub proof fn lemma_common_divisor_divides_gcd(a: nat, b: nat, c: nat)
    requires
        c > 0,
        a % c == 0,
        b % c == 0,
    ensures
        gcd(a, b) % c == 0,
    decreases b,
{
    if b > 0 {
        let r = a % b;
        vstd::arithmetic::div_mod::lemma_fundamental_div_mod(a as int, b as int);
        vstd::arithmetic::div_mod::lemma_fundamental_div_mod(a as int, c as int);
        vstd::arithmetic::div_mod::lemma_fundamental_div_mod(b as int, c as int);
        let q = (a / b) as int;
        let x = (a / c) as int;
        let y = (b / c) as int;
        assert(r == c * (x - q * y)) by (nonlinear_arith)
            requires
                a as int == b * q + r,
                a as int == c * x,
                b as int == c * y,
        ;
        vstd::arithmetic::div_mod::lemma_mod_multiples_basic(x - q * y, c as int);
        assert((c * (x - q * y)) % (c as int) == 0) by {
            assert(c * (x - q * y) == (x - q * y) * c) by (nonlinear_arith);
        }
        lemma_common_divisor_divides_gcd(b, r, c);
    }
}

/// Dividing both numbers by their greatest common divisor leaves no common factor.
pub proof fn lemma_reduced_coprime(a: nat, b: nat)
    requires
        a > 0,
        b > 0,
    ensures
        gcd(a / gcd(a, b), b / gcd(a, b)) == 1,
{
    let g = gcd(a, b);
    lemma_gcd_divides(a, b);
    let x = a / g;
    let y = b / g;
    vstd::arithmetic::div_mod::lemma_fundamental_div_mod(a as int, g as int);
    vstd::arithmetic::div_mod::lemma_fundamental_div_mod(b as int, g as int);
    assert(a == g * x && b == g * y);
    assert(x > 0) by (nonlinear_arith)
        requires
            a == g * x,
            a > 0,
    ;
    lemma_gcd_divides(x, y);
    let h = gcd(x, y);
    vstd::arithmetic::div_mod::lemma_fundamental_div_mod(x as int, h as int);
    vstd::arithmetic::div_mod::lemma_fundamental_div_mod(y as int, h as int);
    let u = x / h;
    let v = y / h;
    assert(a == (h * g) * u && b == (h * g) * v) by (nonlinear_arith)
        requires
            a == g * x,
            b == g * y,
            x == h * u,
            y == h * v,
    ;
    assert(h * g > 0) by (nonlinear_arith)
        requires
            h > 0,
            g > 0,
    ;
    vstd::arithmetic::div_mod::lemma_mod_multiples_basic(u as int, (h * g) as int);
    vstd::arithmetic::div_mod::lemma_mod_multiples_basic(v as int, (h * g) as int);
    assert(a % (h * g) == 0 && b % (h * g) == 0) by {
        assert((h * g) * u == u * (h * g)) by (nonlinear_arith);
        assert((h * g) * v == v * (h * g)) by (nonlinear_arith);
    }
    lemma_common_divisor_divides_gcd(a, b, h * g);
    vstd::arithmetic::div_mod::lemma_fundamental_div_mod(g as int, (h * g) as int);
    let w = g / (h * g);
    assert(g == (h * g) * w);
    assert(h == 1) by (nonlinear_arith)
        requires
            g == (h * g) * w,
            g > 0,
            h > 0,
            w >= 0,
    ;
}

/// Scaling both numbers scales their greatest common divisor.
proof fn lemma_gcd_scale(k: nat, a: nat, b: nat)
    requires
        k > 0,
    ensures
        gcd(k * a, k * b) == k * gcd(a, b),
    decreases b,
{
    if b > 0 {
        let q = (a / b) as int;
        let r = (a % b) as int;
        vstd::arithmetic::div_mod::lemma_fundamental_div_mod(a as int, b as int);
        assert(k * b > 0) by (nonlinear_arith)
            requires
                k > 0,
                b > 0,
        ;
        assert(k * a == (k * b) * q + k * r && 0 <= k * r < k * b) by (nonlinear_arith)
            requires
                a as int == b * q + r,
                0 <= r < b,
                k > 0,
        ;
        vstd::arithmetic::div_mod::lemma_fundamental_div_mod_converse((k * a) as int, (k * b) as int, q, k * r);
        lemma_gcd_scale(k, b, r as nat);
        assert((k * a) as nat % (k * b) as nat == (k * r) as nat);
    } else {
        assert(k * b == 0) by (nonlinear_arith)
            requires
                b == 0,
        ;
    }
}

/// Euclid's lemma: a number with no common factor with `d` that divides `m * d` divides `m`.
proof fn lemma_coprime_divides(n: nat, d: nat, m: nat)
    requires
        n > 0,
        gcd(n, d) == 1,
        (m * d) % n == 0,
    ensures
        m % n == 0,
{
    if m == 0 {
        return;
    }
    lemma_gcd_scale(m, n, d);
    assert(gcd(m * n, m * d) == m) by (nonlinear_arith)
        requires
            gcd(m * n, m * d) == m * gcd(n, d),
            gcd(n, d) == 1,
    ;
    vstd::arithmetic::div_mod::lemma_mod_multiples_basic(m as int, n as int);
    assert((m * n) % n == 0) by {
        assert(m * n == m as int * n as int);
    }
    lemma_common_divisor_divides_gcd(m * n, m * d, n);
}

/// Scale factors are canonical: two fractions naming the same ratio reduce to the same pair.
pub proof fn lemma_reduced_unique(a: nat, b: nat, c: nat, d: nat)
    requires
        a > 0,
        b > 0,
        c > 0,
        d > 0,
        a * d == c * b,
    ensures
        a / gcd(a, b) == c / gcd(c, d),
        b / gcd(a, b) == d / gcd(c, d),
{
    lemma_gcd_divides(a, b);
    lemma_gcd_divides(c, d);
    lemma_reduced_coprime(a, b);
    lemma_reduced_coprime(c, d);
    let g1 = gcd(a, b);
    let g2 = gcd(c, d);
    vstd::arithmetic::div_mod::lemma_fundamental_div_mod(a as int, g1 as int);
    vstd::arithmetic::div_mod::lemma_fundamental_div_mod(b as int, g1 as int);
    vstd::arithmetic::div_mod::lemma_fundamental_div_mod(c as int, g2 as int);
    vstd::arithmetic::div_mod::lemma_fundamental_div_mod(d as int, g2 as int);
    let n1 = a / g1;
    let d1 = b / g1;
    let n2 = c / g2;
    let d2 = d / g2;
    assert(n1 > 0 && d1 > 0 && n2 > 0 && d2 > 0) by (nonlinear_arith)
        requires
            a == g1 * n1,
            b == g1 * d1,
            c == g2 * n2,
            d == g2 * d2,
            a > 0,
            b > 0,
            c > 0,
            d > 0,
    ;
    assert(n1 * d2 == n2 * d1) by (nonlinear_arith)
        requires
            a == g1 * n1,
            b == g1 * d1,
            c == g2 * n2,
            d == g2 * d2,
            a * d == c * b,
            g1 > 0,
            g2 > 0,
    ;
    vstd::arithmetic::div_mod::lemma_mod_multiples_basic(d2 as int, n1 as int);
    assert((n2 * d1) % n1 == 0) by {
        assert(n2 * d1 == d2 * n1) by (nonlinear_arith)
            requires
                n1 * d2 == n2 * d1,
        ;
    }
    lemma_coprime_divides(n1, d1, n2);
    vstd::arithmetic::div_mod::lemma_mod_multiples_basic(d1 as int, n2 as int);
    assert((n1 * d2) % n2 == 0) by {
        assert(n1 * d2 == d1 * n2) by (nonlinear_arith)
            requires
                n1 * d2 == n2 * d1,
        ;
    }
    lemma_coprime_divides(n2, d2, n1);
    vstd::arithmetic::div_mod::lemma_fundamental_div_mod(n2 as int, n1 as int);
    vstd::arithmetic::div_mod::lemma_fundamental_div_mod(n1 as int, n2 as int);
    assert(n1 == n2) by (nonlinear_arith)
        requires
            n2 == n1 * (n2 / n1),
            n1 == n2 * (n1 / n2),
            n1 > 0,
            n2 > 0,
    ;
    assert(d1 == d2) by (nonlinear_arith)
        requires
            n1 * d2 == n2 * d1,
            n1 == n2,
            n1 > 0,
    ;
}

fn gcd_u32(a: u32, b: u32) -> (r: u32)
    ensures
        r == gcd(a as nat, b as nat),
{
    let mut left = a;
    let mut right = b;
    while right != 0
        invariant
            gcd(left as nat, right as nat) == gcd(a as nat, b as nat),
        decreases right,
    {
        let remainder = left % right;
        left = right;
        right = remainder;
    }
    left
}

/// Positive display scale factor represented as a reduced fraction.
#[derive(Clone, Copy, Debug, PartialEq, Eq, Structural)]
pub struct ScaleFactor {
    numerator: u32,
    denominator: u32,
}

impl View for ScaleFactor {
    type V = (u32, u32);

    closed spec fn view(&self) -> (u32, u32) {
        (self.numerator, self.denominator)
    }
}

/// A scale factor is its view: equal views mean equal values.
pub proof fn lemma_scale_factor_view_injective(a: ScaleFactor, b: ScaleFactor)
    requires
        a@ == b@,
    ensures
        a == b,
{
}

impl ScaleFactor {
    #[verifier::type_invariant]
    spec fn positive(self) -> bool {
        self.numerator > 0 && self.denominator > 0
    }

    /// Creates a reduced positive scale factor.
    pub fn new(numerator: u32, denominator: u32) -> (r: Result<Self, DisplayValidationError>)
        ensures
            (numerator == 0 || denominator == 0) ==> r == Err::<Self, _>(
                DisplayValidationError::InvalidScaleFactor,
            ),
            (numerator > 0 && denominator > 0) ==> (r matches Ok(f) && f@ == (
                (numerator as nat / gcd(numerator as nat, denominator as nat)) as u32,
                (denominator as nat / gcd(numerator as nat, denominator as nat)) as u32,
            ) && f@.0 > 0 && f@.1 > 0 && f@.0 * denominator == numerator * f@.1 && gcd(f@.0 as nat, f@.1 as nat) == 1),
    {
        if numerator == 0 || denominator == 0 {
            return Err(DisplayValidationError::InvalidScaleFactor);
        }
        let divisor = gcd_u32(numerator, denominator);
        proof {
            lemma_gcd_divides(numerator as nat, denominator as nat);
            lemma_reduced_coprime(numerator as nat, denominator as nat);
        }
        let n = numerator / divisor;
        let d = denominator / divisor;
        proof {
            let g = divisor as int;
            vstd::arithmetic::div_mod::lemma_fundamental_div_mod(numerator as int, g);
            vstd::arithmetic::div_mod::lemma_fundamental_div_mod(denominator as int, g);
            assert(n * denominator == numerator * d) by (nonlinear_arith)
                requires
                    numerator as int == g * n,
                    denominator as int == g * d,
            ;
            assert(n > 0) by (nonlinear_arith)
                requires
                    numerator as int == g * n,
                    numerator > 0,
                    n >= 0,
            ;
            assert(d > 0) by (nonlinear_arith)
                requires
                    denominator as int == g * d,
                    denominator > 0,
                    d >= 0,
            ;
        }
        Ok(ScaleFactor { numerator: n, denominator: d })
    }

    /// Reduced numerator.
    pub fn numerator(self) -> (r: u32)
        ensures
            r == self@.0,
            r > 0,
    {
        proof {
            use_type_invariant(&self);
        }
        self.numerator
    }

    /// Reduced denominator.
    pub fn denominator(self) -> (r: u32)
        ensures
            r == self@.1,
            r > 0,
    {
        proof {
            use_type_invariant(&self);
        }
        self.denominator
    }
}

impl Default for ScaleFactor {
    fn default() -> (r: Self)
        ensures
            r@ == (1u32, 1u32),
    {
        ScaleFactor { numerator: 1, denominator: 1 }
    }
}

/// Whether the physical size came from the platform or a user override.
#[derive(Clone, Copy, Debug, PartialEq, Eq, Structural)]
pub enum PhysicalSizeSource {
    /// Size reported by EDID/platform probing.
    Detected,
    /// Size entered or confirmed by the user; rematching must preserve it.
    UserOverride,
}

impl Default for PhysicalSizeSource {
    fn default() -> (r: Self)
        ensures
            r == PhysicalSizeSource::Detected,
    {
        PhysicalSizeSource::Detected
    }
}

/// Invalid display model.
#[derive(Clone, Copy, Debug, PartialEq, Eq, Structural)]
pub enum DisplayValidationError {
    /// Native pixel dimensions are empty.
    EmptyNativeSize,
    /// Logical dimensions are empty.
    EmptyLogicalSize,
    /// Physical dimensions are zero, negative, or not finite.
    InvalidPhysicalSize,
    /// Physical origin coordinates must be finite.
    InvalidPhysicalOrigin,
    /// Bezel insets must be finite and non-negative.
    InvalidBezel,
    /// Bezels consume the entire panel.
    BezelExceedsPanel,
    /// Scale factors must be positive ratios.
    InvalidScaleFactor,
    /// Only quarter-turn rotations are currently modeled.
    UnsupportedRotation(u16),
}

/// The first display rule a record breaks, in the order they are checked: native size,
/// logical size, physical size, bezels, bezels against the panel, origin, rotation.
pub open spec fn display_problem(
    native: NativePixelSize,
    logical: LogicalRect,
    physical_size_valid: bool,
    bezel_valid: bool,
    content_positive: bool,
    origin_finite: bool,
    rotation_degrees: u16,
) -> Option<DisplayValidationError> {
    if native.width == 0 || native.height == 0 {
        Some(DisplayValidationError::EmptyNativeSize)
    } else if logical.width == 0 || logical.height == 0 {
        Some(DisplayValidationError::EmptyLogicalSize)
    } else if !physical_size_valid {
        Some(DisplayValidationError::InvalidPhysicalSize)
    } else if !bezel_valid {
        Some(DisplayValidationError::InvalidBezel)
    } else if !content_positive {
        Some(DisplayValidationError::BezelExceedsPanel)
    } else if !origin_finite {
        Some(DisplayValidationError::InvalidPhysicalOrigin)
    } else if !(rotation_degrees == 0 || rotation_degrees == 90 || rotation_degrees == 180 || rotation_degrees == 270) {
        Some(DisplayValidationError::UnsupportedRotation(rotation_degrees))
    } else {
        None
    }
}

/// Validates a display record in order. The millimeter measurements are real numbers and
/// are tested where they live: `physical_size_valid` says both panel sides are finite and
/// positive, `bezel_valid` that every bezel inset is finite and non-negative,
/// `content_positive` that the panel minus its bezels keeps a positive width and height,
/// and `origin_finite` that the physical origin is finite.
pub fn check_display(
    native: NativePixelSize,
    logical: LogicalRect,
    physical_size_valid: bool,
    bezel_valid: bool,
    content_positive: bool,
    origin_finite: bool,
    rotation_degrees: u16,
) -> (r: Result<(), DisplayValidationError>)
    ensures
        match display_problem(native, logical, physical_size_valid, bezel_valid, content_positive, origin_finite, rotation_degrees) {
            None => r == Ok::<(), DisplayValidationError>(()),
            Some(e) => r == Err::<(), DisplayValidationError>(e),
        },
{
    if native.width == 0 || native.height == 0 {
        return Err(DisplayValidationError::EmptyNativeSize);
    }
    if logical.width == 0 || logical.height == 0 {
        return Err(DisplayValidationError::EmptyLogicalSize);
    }
    if !physical_size_valid {
        return Err(DisplayValidationError::InvalidPhysicalSize);
    }
    if !bezel_valid {
        return Err(DisplayValidationError::InvalidBezel);
    }
    if !content_positive {
        return Err(DisplayValidationError::BezelExceedsPanel);
    }
    if !origin_finite {
        return Err(DisplayValidationError::InvalidPhysicalOrigin);
    }
    if !(rotation_degrees == 0 || rotation_degrees == 90 || rotation_degrees == 180 || rotation_degrees == 270) {
        return Err(DisplayValidationError::UnsupportedRotation(rotation_degrees));
    }
    Ok(())
}

/// Invalid physical layout input.
#[derive(Clone, Copy, Debug, PartialEq, Eq, Structural)]
pub enum PhysicalLayoutError {
    /// At least one display is required.
    NoDisplays,
    /// Native pixel dimensions are empty.
    EmptyNativeSize,
    /// Physical dimensions are zero, negative, or not finite.
    InvalidPhysicalSize,
    /// Bezel insets must be finite and non-negative.
    InvalidBezel,
    /// Bezels consume the entire panel.
    BezelExceedsPanel,
    /// Embedded display failed validation.
    Display(DisplayValidationError),
}

/// Probe observation used to rematch a physical output across sessions.
#[derive(Clone, Debug, PartialEq, Eq)]
pub struct DisplayEvidence {
    /// Connector or platform display name.
    pub connector_name: Option<String>,
    /// EDID/platform manufacturer string.
    pub manufacturer: Option<String>,
    /// EDID/platform model string.
    pub model: Option<String>,
    /// EDID/platform serial string.
    pub serial: Option<String>,
    /// Native output dimensions.
    pub native_pixels: NativePixelSize,
}

/// An identity field after trimming and ASCII lower-casing; blank text counts as absent.
pub open spec fn normalized(value: Option<String>) -> Option<Seq<char>> {
    match value {
        Some(s) => if trim(s@).len() == 0 {
            None
        } else {
            Some(lower(trim(s@)))
        },
        None => None,
    }
}

/// Manufacturer, model, and serial all present on both sides and equal after normalization.
pub open spec fn strong_match(left: DisplayEvidence, right: DisplayEvidence) -> bool {
    &&& normalized(left.manufacturer) is Some
    &&& normalized(left.model) is Some
    &&& normalized(left.serial) is Some
    &&& normalized(right.manufacturer) is Some
    &&& normalized(right.model) is Some
    &&& normalized(right.serial) is Some
    &&& normalized(left.manufacturer) == normalized(right.manufacturer)
    &&& normalized(left.model) == normalized(right.model)
    &&& normalized(left.serial) == normalized(right.serial)
}

/// Same normalized connector on both sides and the same native pixel size.
pub open spec fn weak_match(left: DisplayEvidence, right: DisplayEvidence) -> bool {
    &&& normalized(left.connector_name) is Some
    &&& normalized(left.connector_name) == normalized(right.connector_name)
    &&& left.native_pixels == right.native_pixels
}

/// A weak identity match holds exactly when both sides name a connector, the names agree
/// after trimming and ASCII lower-casing and are not blank, and the native pixel sizes are
/// equal: displays on different connectors never match weakly.
pub proof fn lemma_weak_match_needs_same_connector(left: DisplayEvidence, right: DisplayEvidence)
    ensures
        weak_match(left, right) <==> ({
            &&& left.connector_name matches Some(a)
            &&& right.connector_name matches Some(b)
            &&& trim(a@).len() > 0
            &&& lower(trim(a@)) == lower(trim(b@))
            &&& left.native_pixels == right.native_pixels
        }),
{
    if left.connector_name is Some && right.connector_name is Some {
        let a = left.connector_name->0;
        let b = right.connector_name->0;
        assert(lower(trim(a@)).len() == trim(a@).len());
        assert(lower(trim(b@)).len() == trim(b@).len());
    }
}

/// A strong identity match holds exactly when manufacturer, model and serial are all given,
/// non-blank, on both sides and agree after trimming and ASCII lower-casing.
pub proof fn lemma_strong_match_needs_full_edid(left: DisplayEvidence, right: DisplayEvidence)
    ensures
        strong_match(left, right) <==> ({
            &&& left.manufacturer matches Some(lm) && right.manufacturer matches Some(rm)
                && trim(lm@).len() > 0 && lower(trim(lm@)) == lower(trim(rm@))
            &&& left.model matches Some(lo) && right.model matches Some(ro)
                && trim(lo@).len() > 0 && lower(trim(lo@)) == lower(trim(ro@))
            &&& left.serial matches Some(ls) && right.serial matches Some(rs)
                && trim(ls@).len() > 0 && lower(trim(ls@)) == lower(trim(rs@))
        }),
{
    if left.manufacturer is Some && right.manufacturer is Some {
        assert(lower(trim(left.manufacturer->0@)).len() == trim(left.manufacturer->0@).len());
        assert(lower(trim(right.manufacturer->0@)).len() == trim(right.manufacturer->0@).len());
    }
    if left.model is Some && right.model is Some {
        assert(lower(trim(left.model->0@)).len() == trim(left.model->0@).len());
        assert(lower(trim(right.model->0@)).len() == trim(right.model->0@).len());
    }
    if left.serial is Some && right.serial is Some {
        assert(lower(trim(left.serial->0@)).len() == trim(left.serial->0@).len());
        assert(lower(trim(right.serial->0@)).len() == trim(right.serial->0@).len());
    }
}

/// Trimmed, ASCII-lowercased characters of an identity field, or `None` when it is blank.
fn normalize_chars(value: Option<&String>) -> (r: Option<Vec<char>>)
    ensures
        match value {
            Some(s) => match normalized(Some(*s)) {
                Some(n) => r matches Some(v) && v@ == n,
                None => r is None,
            },
            None => r is None,
        },
{
    match value {
        None => None,
        Some(text) => {
            let chars = chars_of(text.as_str());
            let trimmed = trim_chars(&chars);
            if trimmed.len() == 0 {
                None
            } else {
                Some(lower_chars(&trimmed))
            }
        },
    }
}

fn same_normalized(left: &Option<Vec<char>>, right: &Option<Vec<char>>) -> (r: bool)
    ensures
        r == (left is Some && right is Some && left->0@ == right->0@),
{
    match (left, right) {
        (Some(l), Some(rv)) => chars_eq(l.as_slice(), rv.as_slice()),
        _ => false,
    }
}

/// Trimmed, lower-cased text of an identity field, or `None` when it is blank.
pub fn normalize_opt(value: Option<&String>) -> (r: Option<String>)
    ensures
        match value {
            Some(s) => match normalized(Some(*s)) {
                Some(n) => r matches Some(t) && t@ == n,
                None => r is None,
            },
            None => r is None,
        },
{
    match normalize_chars(value) {
        Some(chars) => Some(string_of(chars.as_slice())),
        None => None,
    }
}

/// Strong identity: manufacturer, model, and serial agree after normalization.
pub fn strong_identity_match(left: &DisplayEvidence, right: &DisplayEvidence) -> (r: bool)
    ensures
        r == strong_match(*left, *right),
{
    let lm = normalize_chars(left.manufacturer.as_ref());
    let lmodel = normalize_chars(left.model.as_ref());
    let ls = normalize_chars(left.serial.as_ref());
    let rm = normalize_chars(right.manufacturer.as_ref());
    let rmodel = normalize_chars(right.model.as_ref());
    let rs = normalize_chars(right.serial.as_ref());
    same_normalized(&lm, &rm) && same_normalized(&lmodel, &rmodel) && same_normalized(&ls, &rs)
}

/// Weak identity: same connector name and native size.
pub fn weak_identity_match(left: &DisplayEvidence, right: &DisplayEvidence) -> (r: bool)
    ensures
        r == weak_match(*left, *right),
{
    let lc = normalize_chars(left.connector_name.as_ref());
    let rc = normalize_chars(right.connector_name.as_ref());
    same_normalized(&lc, &rc) && left.native_pixels == right.native_pixels
}


/// The identity test used in one matching pass: strong, or (when `strong` is false) weak.
pub open spec fn identity_ok(previous: DisplayEvidence, observed: DisplayEvidence, strong: bool) -> bool {
    if strong {
        strong_match(previous, observed)
    } else {
        weak_match(previous, observed)
    }
}

/// `p` is the first position in `remaining` whose previous display passes the identity test.
pub open spec fn is_first_match(
    previous: Seq<DisplayEvidence>,
    remaining: Seq<usize>,
    observed: DisplayEvidence,
    strong: bool,
    p: int,
) -> bool {
    &&& 0 <= p < remaining.len()
    &&& identity_ok(previous[remaining[p] as int], observed, strong)
    &&& forall|q: int|
        0 <= q < p ==> !identity_ok(#[trigger] previous[remaining[q] as int], observed, strong)
}

/// Position in `remaining` of the previous display an observation takes: the first strong
/// match, else the first weak match, else none.
pub open spec fn pick(previous: Seq<DisplayEvidence>, remaining: Seq<usize>, observed: DisplayEvidence) -> Option<int> {
    if exists|p: int| is_first_match(previous, remaining, observed, true, p) {
        Some(choose|p: int| is_first_match(previous, remaining, observed, true, p))
    } else if exists|p: int| is_first_match(previous, remaining, observed, false, p) {
        Some(choose|p: int| is_first_match(previous, remaining, observed, false, p))
    } else {
        None
    }
}

/// Greedy rematch of observations, in order, against the still-unclaimed previous displays.
pub open spec fn plan_from(
    previous: Seq<DisplayEvidence>,
    remaining: Seq<usize>,
    observed: Seq<DisplayEvidence>,
) -> Seq<Option<usize>>
    decreases observed.len(),
{
    if observed.len() == 0 {
        Seq::empty()
    } else {
        let rest = observed.subrange(1, observed.len() as int);
        match pick(previous, remaining, observed[0]) {
            Some(p) => seq![Some(remaining[p])] + plan_from(previous, remaining.remove(p), rest),
            None => seq![None::<usize>] + plan_from(previous, remaining, rest),
        }
    }
}

/// Every previous display index, in order.
pub open spec fn all_indices(n: nat) -> Seq<usize> {
    Seq::new(n, |i: int| i as usize)
}

/// For each observation, the index of the previous display it rematches, if any.
pub open spec fn match_plan(previous: Seq<DisplayEvidence>, observed: Seq<DisplayEvidence>) -> Seq<Option<usize>> {
    plan_from(previous, all_indices(previous.len()), observed)
}

proof fn lemma_first_unique(
    previous: Seq<DisplayEvidence>,
    remaining: Seq<usize>,
    observed: DisplayEvidence,
    strong: bool,
    p1: int,
    p2: int,
)
    requires
        is_first_match(previous, remaining, observed, strong, p1),
        is_first_match(previous, remaining, observed, strong, p2),
    ensures
        p1 == p2,
{
    if p1 < p2 {
        assert(!identity_ok(previous[remaining[p1] as int], observed, strong));
    } else if p2 < p1 {
        assert(!identity_ok(previous[remaining[p2] as int], observed, strong));
    }
}

fn find_first(
    previous: &[DisplayEvidence],
    remaining: &Vec<usize>,
    observed: &DisplayEvidence,
    strong: bool,
) -> (r: Option<usize>)
    requires
        forall|k: int| 0 <= k < remaining@.len() ==> (#[trigger] remaining@[k]) < previous@.len(),
    ensures
        match r {
            Some(p) => is_first_match(previous@, remaining@, *observed, strong, p as int),
            None => forall|p: int|
                0 <= p < remaining@.len() ==> !identity_ok(
                    #[trigger] previous@[remaining@[p] as int],
                    *observed,
                    strong,
                ),
        },
{
    let mut i: usize = 0;
    while i < remaining.len()
        invariant
            i <= remaining@.len(),
            forall|k: int| 0 <= k < remaining@.len() ==> (#[trigger] remaining@[k]) < previous@.len(),
            forall|q: int|
                0 <= q < i ==> !identity_ok(#[trigger] previous@[remaining@[q] as int], *observed, strong),
        decreases remaining@.len() - i,
    {
        let candidate = &previous[remaining[i]];
        let ok = if strong {
            strong_identity_match(candidate, observed)
        } else {
            weak_identity_match(candidate, observed)
        };
        if ok {
            return Some(i);
        }
        i = i + 1;
    }
    None
}

/// Takes the previous display that `observed` rematches out of `remaining`, preferring a
/// strong identity match over a weak one, and returns its index.
pub fn take_best_match(
    previous: &[DisplayEvidence],
    remaining: &mut Vec<usize>,
    observed: &DisplayEvidence,
) -> (r: Option<usize>)
    requires
        forall|k: int| 0 <= k < old(remaining)@.len() ==> (#[trigger] old(remaining)@[k]) < previous@.len(),
    ensures
        match pick(previous@, old(remaining)@, *observed) {
            Some(p) => r == Some(old(remaining)@[p]) && final(remaining)@ == old(remaining)@.remove(p),
            None => r is None && final(remaining)@ == old(remaining)@,
        },
{
    match find_first(previous, remaining, observed, true) {
        Some(p) => {
            proof {
                let c = choose|q: int| is_first_match(previous@, remaining@, *observed, true, q);
                lemma_first_unique(previous@, remaining@, *observed, true, p as int, c);
            }
            let index = remaining.remove(p);
            return Some(index);
        },
        None => {},
    }
    proof {
        assert(!exists|q: int| is_first_match(previous@, remaining@, *observed, true, q));
    }
    match find_first(previous, remaining, observed, false) {
        Some(p) => {
            proof {
                let c = choose|q: int| is_first_match(previous@, remaining@, *observed, false, q);
                lemma_first_unique(previous@, remaining@, *observed, false, p as int, c);
            }
            let index = remaining.remove(p);
            Some(index)
        },
        None => {
            proof {
                assert(!exists|q: int| is_first_match(previous@, remaining@, *observed, false, q));
            }
            None
        },
    }
}

/// Rematches observed outputs against previously persisted displays.
///
/// Each observation, in order, claims the first unclaimed previous display with the same
/// manufacturer, model, and serial; failing that, the first with the same connector and
/// native size; failing that, it is new (`None`).
pub fn match_display_evidence(previous: &[DisplayEvidence], observed: &[DisplayEvidence]) -> (r: Vec<Option<usize>>)
    ensures
        r@ == match_plan(previous@, observed@),
{
    let mut remaining: Vec<usize> = Vec::new();
    let mut i: usize = 0;
    while i < previous.len()
        invariant
            i <= previous@.len(),
            remaining@ == all_indices(i as nat),
        decreases previous@.len() - i,
    {
        remaining.push(i);
        i = i + 1;
        assert(remaining@ =~= all_indices(i as nat));
    }
    let mut out: Vec<Option<usize>> = Vec::new();
    let mut j: usize = 0;
    let n = observed.len();
    assert(observed@.subrange(0, n as int) =~= observed@);
    while j < n
        invariant
            n == observed@.len(),
            j <= n,
            forall|k: int| 0 <= k < remaining@.len() ==> (#[trigger] remaining@[k]) < previous@.len(),
            out@ + plan_from(previous@, remaining@, observed@.subrange(j as int, n as int))
                == match_plan(previous@, observed@),
        decreases n - j,
    {
        let ghost before = remaining@;
        let ghost rest = observed@.subrange(j as int, n as int);
        assert(rest.subrange(1, rest.len() as int) =~= observed@.subrange(j + 1, n as int));
        assert(rest[0] == observed@[j as int]);
        let taken = take_best_match(previous, &mut remaining, &observed[j]);
        proof {
            match pick(previous@, before, observed@[j as int]) {
                Some(p) => {
                    assert forall|k: int| 0 <= k < remaining@.len() implies (#[trigger] remaining@[k]) < previous@.len() by {
                        if k < p {
                            assert(remaining@[k] == before[k]);
                        } else {
                            assert(remaining@[k] == before[k + 1]);
                        }
                    }
                },
                None => {},
            }
        }
        out.push(taken);
        j = j + 1;
        proof {
            assert(out@ + plan_from(previous@, remaining@, observed@.subrange(j as int, n as int))
                =~= (out@.subrange(0, out@.len() - 1) + plan_from(previous@, before, rest)));
        }
    }
    assert(out@ + plan_from(previous@, remaining@, observed@.subrange(n as int, n as int)) =~= out@);
    out
}

/// Every rematch pairs an observation with a distinct, still-unclaimed previous display whose
/// identity (strong or weak) agrees with it.
pub proof fn lemma_plan_sound(
    previous: Seq<DisplayEvidence>,
    remaining: Seq<usize>,
    observed: Seq<DisplayEvidence>,
)
    requires
        remaining.no_duplicates(),
    ensures
        plan_from(previous, remaining, observed).len() == observed.len(),
        forall|j: int|
            0 <= j < observed.len() ==> (#[trigger] plan_from(previous, remaining, observed)[j] matches Some(i)
                ==> remaining.contains(i) && (strong_match(previous[i as int], observed[j]) || weak_match(
                previous[i as int],
                observed[j],
            ))),
        forall|j1: int, j2: int|
            0 <= j1 < j2 < observed.len() && (#[trigger] plan_from(previous, remaining, observed)[j1]) is Some
                ==> plan_from(previous, remaining, observed)[j1] != #[trigger] plan_from(previous, remaining, observed)[j2],
    decreases observed.len(),
{
    if observed.len() > 0 {
        let rest = observed.subrange(1, observed.len() as int);
        let plan = plan_from(previous, remaining, observed);
        match pick(previous, remaining, observed[0]) {
            Some(p) => {
                let smaller = remaining.remove(p);
                remaining.remove_ensures(p);
                assert(smaller.no_duplicates()) by {
                    assert forall|a: int, b: int| 0 <= a < smaller.len() && 0 <= b < smaller.len() && a != b implies smaller[a] != smaller[b] by {
                        let ia = if a < p { a } else { a + 1 };
                        let ib = if b < p { b } else { b + 1 };
                        assert(smaller[a] == remaining[ia]);
                        assert(smaller[b] == remaining[ib]);
                    }
                }
                lemma_plan_sound(previous, smaller, rest);
                let tail = plan_from(previous, smaller, rest);
                assert(plan == seq![Some(remaining[p])] + tail);
                let strong_found = exists|q: int| is_first_match(previous, remaining, observed[0], true, q);
                if strong_found {
                    let c = choose|q: int| is_first_match(previous, remaining, observed[0], true, q);
                    assert(c == p);
                } else {
                    let c = choose|q: int| is_first_match(previous, remaining, observed[0], false, q);
                    assert(c == p);
                }
                assert forall|j: int| 0 <= j < observed.len() implies (#[trigger] plan[j] matches Some(i)
                    ==> remaining.contains(i) && (strong_match(previous[i as int], observed[j]) || weak_match(previous[i as int], observed[j]))) by {
                    if j > 0 {
                        assert(plan[j] == tail[j - 1]);
                        assert(observed[j] == rest[j - 1]);
                        if let Some(i) = plan[j] {
                            let k = choose|k: int| 0 <= k < smaller.len() && smaller[k] == i;
                            if k < p {
                                assert(remaining[k] == i);
                            } else {
                                assert(remaining[k + 1] == i);
                            }
                        }
                    } else {
                        assert(remaining[p] == remaining[p]);
                    }
                }
                assert forall|j1: int, j2: int| 0 <= j1 < j2 < observed.len() && (#[trigger] plan[j1]) is Some
                    implies plan[j1] != #[trigger] plan[j2] by {
                    if j1 == 0 {
                        assert(plan[j2] == tail[j2 - 1]);
                        if let Some(i) = tail[j2 - 1] {
                            assert(rest[j2 - 1] == observed[j2]);
                            let k = choose|k: int| 0 <= k < smaller.len() && smaller[k] == i;
                            if k < p {
                                assert(smaller[k] == remaining[k]);
                            } else {
                                assert(smaller[k] == remaining[k + 1]);
                            }
                        }
                    } else {
                        assert(plan[j1] == tail[j1 - 1]);
                        assert(plan[j2] == tail[j2 - 1]);
                    }
                }
            },
            None => {
                lemma_plan_sound(previous, remaining, rest);
                let tail = plan_from(previous, remaining, rest);
                assert(plan == seq![None::<usize>] + tail);
                assert forall|j: int| 0 <= j < observed.len() implies (#[trigger] plan[j] matches Some(i)
                    ==> remaining.contains(i) && (strong_match(previous[i as int], observed[j]) || weak_match(previous[i as int], observed[j]))) by {
                    if j > 0 {
                        assert(plan[j] == tail[j - 1]);
                        assert(observed[j] == rest[j - 1]);
                    }
                }
                assert forall|j1: int, j2: int| 0 <= j1 < j2 < observed.len() && (#[trigger] plan[j1]) is Some
                    implies plan[j1] != #[trigger] plan[j2] by {
                    assert(plan[j1] == tail[j1 - 1]);
                    assert(plan[j2] == tail[j2 - 1]);
                }
            },
        }
    }
}

/// A full rematch never hands one previous display to two observations, and each claimed
/// display's identity agrees with its observation.
pub proof fn lemma_match_plan_sound(previous: Seq<DisplayEvidence>, observed: Seq<DisplayEvidence>)
    requires
        previous.len() <= usize::MAX,
    ensures
        match_plan(previous, observed).len() == observed.len(),
        forall|j: int|
            0 <= j < observed.len() ==> (#[trigger] match_plan(previous, observed)[j] matches Some(i) ==> i
                < previous.len() && (strong_match(previous[i as int], observed[j]) || weak_match(
                previous[i as int],
                observed[j],
            ))),
        forall|j1: int, j2: int|
            0 <= j1 < j2 < observed.len() && (#[trigger] match_plan(previous, observed)[j1]) is Some
                ==> match_plan(previous, observed)[j1] != #[trigger] match_plan(previous, observed)[j2],
{
    let all = all_indices(previous.len());
    assert forall|a: int, b: int| 0 <= a < all.len() && 0 <= b < all.len() && a != b implies all[a] != all[b] by {
        assert(all[a] == a as usize);
        assert(all[b] == b as usize);
    }
    assert(all.no_duplicates());
    lemma_plan_sound(previous, all, observed);
    assert forall|j: int| 0 <= j < observed.len() implies (#[trigger] match_plan(previous, observed)[j] matches Some(i) ==> i
        < previous.len() && (strong_match(previous[i as int], observed[j]) || weak_match(previous[i as int], observed[j]))) by {
        if let Some(i) = match_plan(previous, observed)[j] {
            let k = choose|k: int| 0 <= k < all.len() && all[k] == i;
            assert(all[k] == k as usize);
        }
    }
}

} // verus!
