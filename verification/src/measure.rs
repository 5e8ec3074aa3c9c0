//! Measurement of renderable widths: the minimum and maximum number of cells
//! a renderable needs.
use vstd::prelude::*;

verus! {

/// The smaller of two numbers.
pub open spec fn min_nat(a: int, b: int) -> int {
    if a <= b { a } else { b }
}

/// The larger of two numbers.
pub open spec fn max_nat(a: int, b: int) -> int {
    if a >= b { a } else { b }
}

/// `a + b`, or `usize::MAX` where the sum does not fit.
pub open spec fn sat_add(a: usize, b: usize) -> usize {
    if a + b > usize::MAX { usize::MAX } else { (a + b) as usize }
}

/// `a - b`, or 0 where `b` is larger.
pub open spec fn sat_sub(a: usize, b: usize) -> usize {
    if a >= b { (a - b) as usize } else { 0 }
}

/// Minimum and maximum widths of a renderable, in cells.
#[derive(Debug, Clone, Copy, PartialEq, Eq, Default, Structural)]
pub struct Measurement {
    /// Minimum width required.
    pub minimum: usize,
    /// Maximum width that can be used.
    pub maximum: usize,
}

impl Measurement {
    /// Create a new measurement.
    pub fn new(minimum: usize, maximum: usize) -> (m: Self)
        ensures
            m.minimum == minimum,
            m.maximum == maximum,
    {
        Measurement { minimum, maximum }
    }

    /// A measurement whose minimum and maximum are both `size`.
    pub fn exact(size: usize) -> (m: Self)
        ensures
            m.minimum == size,
            m.maximum == size,
    {
        Measurement { minimum: size, maximum: size }
    }

    /// The zero measurement.
    pub fn zero() -> (m: Self)
        ensures
            m.minimum == 0,
            m.maximum == 0,
    {
        Measurement { minimum: 0, maximum: 0 }
    }

    /// Difference between maximum and minimum (0 when the maximum is smaller).
    pub fn span(&self) -> (r: usize)
        ensures
            r == sat_sub(self.maximum, self.minimum),
    {
        self.maximum.saturating_sub(self.minimum)
    }

    /// The same bounds, with the smaller one as minimum.
    pub fn normalize(&self) -> (m: Self)
        ensures
            m.minimum == min_nat(self.minimum as int, self.maximum as int),
            m.maximum == max_nat(self.minimum as int, self.maximum as int),
            m.minimum <= m.maximum,
    {
        let min_val = if self.minimum <= self.maximum { self.minimum } else { self.maximum };
        let max_val = if self.minimum >= self.maximum { self.minimum } else { self.maximum };
        Measurement { minimum: min_val, maximum: max_val }
    }

    /// Both bounds capped at `width`.
    pub fn with_maximum(&self, width: usize) -> (m: Self)
        ensures
            m.minimum == min_nat(self.minimum as int, width as int),
            m.maximum == min_nat(self.maximum as int, width as int),
    {
        Measurement {
            minimum: if self.minimum <= width { self.minimum } else { width },
            maximum: if self.maximum <= width { self.maximum } else { width },
        }
    }

    /// Both bounds raised to at least `width`.
    pub fn with_minimum(&self, width: usize) -> (m: Self)
        ensures
            m.minimum == max_nat(self.minimum as int, width as int),
            m.maximum == max_nat(self.maximum as int, width as int),
    {
        Measurement {
            minimum: if self.minimum >= width { self.minimum } else { width },
            maximum: if self.maximum >= width { self.maximum } else { width },
        }
    }

    /// Apply an optional lower bound, then an optional upper bound.
    pub fn clamp(&self, min_width: Option<usize>, max_width: Option<usize>) -> (m: Self)
        ensures
            m == clamp_spec(*self, min_width, max_width),
    {
        let mut result = *self;
        if let Some(min_w) = min_width {
            result = result.with_minimum(min_w);
        }
        if let Some(max_w) = max_width {
            result = result.with_maximum(max_w);
        }
        result
    }

    /// The larger of each pair of bounds.
    pub fn union(&self, other: &Self) -> (m: Self)
        ensures
            m == union_spec(*self, *other),
    {
        Measurement {
            minimum: if self.minimum >= other.minimum { self.minimum } else { other.minimum },
            maximum: if self.maximum >= other.maximum { self.maximum } else { other.maximum },
        }
    }

    /// The overlap of two ranges, or `None` when they do not overlap.
    pub fn intersect(&self, other: &Self) -> (r: Option<Self>)
        ensures
            r == intersect_spec(*self, *other),
    {
        let min_val = if self.minimum >= other.minimum { self.minimum } else { other.minimum };
        let max_val = if self.maximum <= other.maximum { self.maximum } else { other.maximum };
        if min_val <= max_val {
            Some(Measurement { minimum: min_val, maximum: max_val })
        } else {
            None
        }
    }

    /// Both bounds increased by `width` (saturating).
    pub fn add(&self, width: usize) -> (m: Self)
        ensures
            m.minimum == sat_add(self.minimum, width),
            m.maximum == sat_add(self.maximum, width),
    {
        Measurement {
            minimum: self.minimum.saturating_add(width),
            maximum: self.maximum.saturating_add(width),
        }
    }

    /// Both bounds decreased by `width` (saturating at 0).
    pub fn subtract(&self, width: usize) -> (m: Self)
        ensures
            m.minimum == sat_sub(self.minimum, width),
            m.maximum == sat_sub(self.maximum, width),
    {
        Measurement {
            minimum: self.minimum.saturating_sub(width),
            maximum: self.maximum.saturating_sub(width),
        }
    }

    /// Whether `width` lies within the bounds.
    pub fn fits(&self, width: usize) -> (r: bool)
        ensures
            r == (self.minimum <= width <= self.maximum),
    {
        width >= self.minimum && width <= self.maximum
    }
}

/// What `clamp` computes.
pub open spec fn clamp_spec(m: Measurement, min_width: Option<usize>, max_width: Option<usize>) -> Measurement {
    let lo = match min_width {
        Some(w) => Measurement {
            minimum: max_nat(m.minimum as int, w as int) as usize,
            maximum: max_nat(m.maximum as int, w as int) as usize,
        },
        None => m,
    };
    match max_width {
        Some(w) => Measurement {
            minimum: min_nat(lo.minimum as int, w as int) as usize,
            maximum: min_nat(lo.maximum as int, w as int) as usize,
        },
        None => lo,
    }
}

/// What `union` computes.
pub open spec fn union_spec(a: Measurement, b: Measurement) -> Measurement {
    Measurement {
        minimum: max_nat(a.minimum as int, b.minimum as int) as usize,
        maximum: max_nat(a.maximum as int, b.maximum as int) as usize,
    }
}

/// What `intersect` computes.
pub open spec fn intersect_spec(a: Measurement, b: Measurement) -> Option<Measurement> {
    let lo = max_nat(a.minimum as int, b.minimum as int);
    let hi = min_nat(a.maximum as int, b.maximum as int);
    if lo <= hi {
        Some(Measurement { minimum: lo as usize, maximum: hi as usize })
    } else {
        None
    }
}

/// What `+` on two measurements computes.
pub open spec fn add_measurements(a: Measurement, b: Measurement) -> Measurement {
    Measurement {
        minimum: sat_add(a.minimum, b.minimum),
        maximum: sat_add(a.maximum, b.maximum),
    }
}

impl std::ops::Add for Measurement {
    type Output = Measurement;

    fn add(self, rhs: Measurement) -> (m: Measurement) {
        Measurement {
            minimum: self.minimum.saturating_add(rhs.minimum),
            maximum: self.maximum.saturating_add(rhs.maximum),
        }
    }
}

impl vstd::std_specs::ops::AddSpecImpl for Measurement {
    open spec fn obeys_add_spec() -> bool {
        true
    }

    open spec fn add_req(self, rhs: Measurement) -> bool {
        true
    }

    open spec fn add_spec(self, rhs: Measurement) -> Measurement {
        add_measurements(self, rhs)
    }
}

/// The largest minimum over a sequence of measurements (0 when empty).
pub open spec fn max_minimum(ms: Seq<Measurement>) -> nat
    decreases ms.len(),
{
    if ms.len() == 0 {
        0
    } else {
        max_nat(max_minimum(ms.drop_last()) as int, ms.last().minimum as int) as nat
    }
}

/// The largest maximum over a sequence of measurements (0 when empty).
pub open spec fn max_maximum(ms: Seq<Measurement>) -> nat
    decreases ms.len(),
{
    if ms.len() == 0 {
        0
    } else {
        max_nat(max_maximum(ms.drop_last()) as int, ms.last().maximum as int) as nat
    }
}

/// The sum of the minimums.
pub open spec fn sum_minimum(ms: Seq<Measurement>) -> nat
    decreases ms.len(),
{
    if ms.len() == 0 {
        0
    } else {
        sum_minimum(ms.drop_last()) + ms.last().minimum as nat
    }
}

/// The sum of the maximums.
pub open spec fn sum_maximum(ms: Seq<Measurement>) -> nat
    decreases ms.len(),
{
    if ms.len() == 0 {
        0
    } else {
        sum_maximum(ms.drop_last()) + ms.last().maximum as nat
    }
}

proof fn lemma_sum_prefix(ms: Seq<Measurement>, i: int)
    requires
        0 <= i <= ms.len(),
    ensures
        sum_minimum(ms.take(i)) <= sum_minimum(ms),
        sum_maximum(ms.take(i)) <= sum_maximum(ms),
    decreases ms.len() - i,
{
    if i < ms.len() {
        lemma_sum_prefix(ms, i + 1);
        assert(ms.take(i + 1).drop_last() =~= ms.take(i));
    } else {
        assert(ms.take(i) =~= ms);
    }
}

/// Union of many measurements: the largest minimum and the largest maximum.
pub fn measure_union(measurements: &[Measurement]) -> (m: Measurement)
    ensures
        m.minimum == max_minimum(measurements@),
        m.maximum == max_maximum(measurements@),
{
    let mut lo: usize = 0;
    let mut hi: usize = 0;
    let mut i: usize = 0;
    while i < measurements.len()
        invariant
            i <= measurements@.len(),
            lo == max_minimum(measurements@.take(i as int)),
            hi == max_maximum(measurements@.take(i as int)),
        decreases measurements.len() - i,
    {
        assert(measurements@.take(i + 1).drop_last() =~= measurements@.take(i as int));
        let m = measurements[i];
        if m.minimum > lo {
            lo = m.minimum;
        }
        if m.maximum > hi {
            hi = m.maximum;
        }
        i += 1;
    }
    assert(measurements@.take(i as int) =~= measurements@);
    Measurement { minimum: lo, maximum: hi }
}

/// Sum of many measurements: the sums of the minimums and of the maximums.
pub fn measure_sum(measurements: &[Measurement]) -> (m: Measurement)
    requires
        sum_maximum(measurements@) <= usize::MAX,
        sum_minimum(measurements@) <= usize::MAX,
    ensures
        m.minimum == sum_minimum(measurements@),
        m.maximum == sum_maximum(measurements@),
{
    let mut lo: usize = 0;
    let mut hi: usize = 0;
    let mut i: usize = 0;
    while i < measurements.len()
        invariant
            i <= measurements@.len(),
            lo == sum_minimum(measurements@.take(i as int)),
            hi == sum_maximum(measurements@.take(i as int)),
            sum_maximum(measurements@) <= usize::MAX,
            sum_minimum(measurements@) <= usize::MAX,
        decreases measurements.len() - i,
    {
        assert(measurements@.take(i + 1).drop_last() =~= measurements@.take(i as int));
        proof {
            lemma_sum_prefix(measurements@, i + 1);
        }
        let m = measurements[i];
        lo = lo + m.minimum;
        hi = hi + m.maximum;
        i += 1;
    }
    assert(measurements@.take(i as int) =~= measurements@);
    Measurement { minimum: lo, maximum: hi }
}

/// Union of measurements is commutative.
pub proof fn law_union_commutative(a: Measurement, b: Measurement)
    ensures
        union_spec(a, b) == union_spec(b, a),
{
}

/// Union of measurements is associative.
pub proof fn law_union_associative(a: Measurement, b: Measurement, c: Measurement)
    ensures
        union_spec(union_spec(a, b), c) == union_spec(a, union_spec(b, c)),
{
}

/// Union of a measurement with itself gives it back.
pub proof fn law_union_idempotent(a: Measurement)
    ensures
        union_spec(a, a) == a,
{
}

/// The intersection, when it exists, is contained in both ranges.
pub proof fn law_intersect_within(a: Measurement, b: Measurement)
    ensures
        intersect_spec(a, b) matches Some(m) ==> (a.minimum <= m.minimum && m.maximum <= a.maximum
            && b.minimum <= m.minimum && m.maximum <= b.maximum && m.minimum <= m.maximum),
{
}

/// Intersection is commutative.
pub proof fn law_intersect_commutative(a: Measurement, b: Measurement)
    ensures
        intersect_spec(a, b) == intersect_spec(b, a),
{
}

/// Intersecting a well-ordered range with itself gives it back.
pub proof fn law_intersect_self(a: Measurement)
    requires
        a.minimum <= a.maximum,
    ensures
        intersect_spec(a, a) == Some(a),
{
}

/// A width fits a range exactly when it fits the intersection of that range with the
/// exact measurement of the width.
pub proof fn law_fits_iff_intersect_exact(a: Measurement, w: usize)
    ensures
        (a.minimum <= w <= a.maximum) <==> intersect_spec(a, Measurement { minimum: w, maximum: w }) is Some,
{
}

/// Clamping with both bounds keeps a well-ordered range within `[lo, hi]` when `lo <= hi`.
pub proof fn law_clamp_within(m: Measurement, lo: usize, hi: usize)
    requires
        lo <= hi,
    ensures
        lo <= clamp_spec(m, Some(lo), Some(hi)).minimum <= hi,
        lo <= clamp_spec(m, Some(lo), Some(hi)).maximum <= hi,
{
}

/// Adding then subtracting the same width gives back the measurement when nothing saturated.
pub proof fn law_add_subtract(m: Measurement, w: usize)
    requires
        m.maximum + w <= usize::MAX,
        m.minimum + w <= usize::MAX,
    ensures
        sat_sub(sat_add(m.minimum, w), w) == m.minimum,
        sat_sub(sat_add(m.maximum, w), w) == m.maximum,
{
}

/// Normalizing twice is the same as normalizing once, and keeps the pair of bounds.
pub proof fn law_normalize_idempotent(m: Measurement)
    ensures
        min_nat(min_nat(m.minimum as int, m.maximum as int), max_nat(m.minimum as int, m.maximum as int))
            == min_nat(m.minimum as int, m.maximum as int),
        max_nat(min_nat(m.minimum as int, m.maximum as int), max_nat(m.minimum as int, m.maximum as int))
            == max_nat(m.minimum as int, m.maximum as int),
{
}

} // verus!
