//! The measurement pass and the choice of items that take part in layout.
use crate::grid::AspectRatio;
use crate::placement::saturate;
use vstd::prelude::*;

verus! {

/// The axis a size request is about.
#[derive(Clone, Copy, Debug, PartialEq, Eq)]
pub enum Orientation {
    Horizontal,
    Vertical,
}

/// Minimum and natural sizes on one axis, with their baselines; `-1` stands
/// for "no baseline".
#[derive(Clone, Copy, Debug, PartialEq, Eq)]
pub struct SizeRequest {
    pub minimum: i32,
    pub natural: i32,
    pub minimum_baseline: i32,
    pub natural_baseline: i32,
}

/// The indices of the items that take part in layout, in order.
pub open spec fn participating(flags: Seq<bool>) -> Seq<usize>
    decreases flags.len(),
{
    if flags.len() == 0 {
        Seq::empty()
    } else {
        let rest = participating(flags.drop_last());
        if flags.last() {
            rest.push((flags.len() - 1) as usize)
        } else {
            rest
        }
    }
}

/// Walks the items once, in order, and keeps the indices of those that take
/// part in layout.
pub fn collect(participates: &Vec<bool>) -> (r: Vec<usize>)
    ensures
        r@ == participating(participates@),
{
    let mut out: Vec<usize> = Vec::new();
    let mut i: usize = 0;
    while i < participates.len()
        invariant
            i <= participates.len(),
            out@ == participating(participates@.take(i as int)),
        decreases participates.len() - i,
    {
        assert(participates@.take(i + 1).drop_last() =~= participates@.take(i as int));
        if participates[i] {
            out.push(i);
        }
        i = i + 1;
    }
    assert(participates@.take(i as int) =~= participates@);
    out
}

pub open spec fn max_int(a: int, b: int) -> int {
    if a >= b {
        a
    } else {
        b
    }
}

pub open spec fn min_int(a: int, b: int) -> int {
    if a <= b {
        a
    } else {
        b
    }
}

/// The largest minimum size, and `0` for no items.
pub open spec fn envelope_minimum(s: Seq<SizeRequest>) -> int
    decreases s.len(),
{
    if s.len() == 0 {
        0
    } else {
        max_int(envelope_minimum(s.drop_last()), s.last().minimum as int)
    }
}

/// The largest natural size, and `0` for no items.
pub open spec fn envelope_natural(s: Seq<SizeRequest>) -> int
    decreases s.len(),
{
    if s.len() == 0 {
        0
    } else {
        max_int(envelope_natural(s.drop_last()), s.last().natural as int)
    }
}

/// `m` raised to the baseline `b`, unless `b` is the "no baseline" mark.
pub open spec fn with_baseline(m: int, b: i32) -> int {
    if b != -1 {
        max_int(m, b as int)
    } else {
        m
    }
}

/// The largest minimum baseline, and `-1` where there is none.
pub open spec fn envelope_minimum_baseline(s: Seq<SizeRequest>) -> int
    decreases s.len(),
{
    if s.len() == 0 {
        -1
    } else {
        with_baseline(envelope_minimum_baseline(s.drop_last()), s.last().minimum_baseline)
    }
}

/// The largest natural baseline, and `-1` where there is none.
pub open spec fn envelope_natural_baseline(s: Seq<SizeRequest>) -> int
    decreases s.len(),
{
    if s.len() == 0 {
        -1
    } else {
        with_baseline(envelope_natural_baseline(s.drop_last()), s.last().natural_baseline)
    }
}

/// `num / den` rounded to the nearest integer, halves away from zero.
pub open spec fn round_div(num: int, den: int) -> int {
    if num >= 0 {
        (2 * num + den) / (2 * den)
    } else {
        -((2 * (-num) + den) / (2 * den))
    }
}

/// The size the aspect ratio asks for on `orientation`, from the size `src`
/// of the other axis: `src * num / den` for a width, `src * den / num` for a
/// height; rounded, then clamped to `i32`.
pub open spec fn expected_size(orientation: Orientation, src: int, ratio: AspectRatio) -> int {
    match orientation {
        Orientation::Horizontal => saturate(round_div(src * ratio.num, ratio.den as int)) as int,
        Orientation::Vertical => saturate(round_div(src * ratio.den, ratio.num as int)) as int,
    }
}

/// The size of the other axis the expectation is derived from: `for_size`
/// when it is known, else the container's current extent on that axis.
pub open spec fn cross_size(
    orientation: Orientation,
    for_size: i32,
    container_width: i32,
    container_height: i32,
) -> int {
    if for_size == -1 {
        match orientation {
            Orientation::Horizontal => container_height as int,
            Orientation::Vertical => container_width as int,
        }
    } else {
        for_size as int
    }
}

/// The layout's size request for the participating items `s`.
pub open spec fn measurement(
    s: Seq<SizeRequest>,
    orientation: Orientation,
    for_size: i32,
    container_width: i32,
    container_height: i32,
    aspect: Option<AspectRatio>,
) -> SizeRequest {
    let min = envelope_minimum(s);
    let natural_max = envelope_natural(s);
    let natural = match aspect {
        None => natural_max,
        Some(r) => max_int(
            min_int(
                natural_max,
                expected_size(
                    orientation,
                    cross_size(orientation, for_size, container_width, container_height),
                    r,
                ),
            ),
            min,
        ),
    };
    SizeRequest {
        minimum: min as i32,
        natural: natural as i32,
        minimum_baseline: envelope_minimum_baseline(s) as i32,
        natural_baseline: envelope_natural_baseline(s) as i32,
    }
}

proof fn lemma_envelopes_in_range(s: Seq<SizeRequest>)
    ensures
        0 <= envelope_minimum(s) <= i32::MAX,
        0 <= envelope_natural(s) <= i32::MAX,
        -1 <= envelope_minimum_baseline(s) <= i32::MAX,
        -1 <= envelope_natural_baseline(s) <= i32::MAX,
    decreases s.len(),
{
    if s.len() > 0 {
        lemma_envelopes_in_range(s.drop_last());
    }
}

/// Rounds `num / den` to the nearest integer, halves away from zero, and
/// clamps it to `i32`.
fn round_to_i32(num: i128, den: i128) -> (r: i32)
    requires
        0 < den <= 0x1_0000_0000,
        -0x1_0000_0000_0000_0000 <= num <= 0x1_0000_0000_0000_0000,
    ensures
        r == saturate(round_div(num as int, den as int)),
{
    let t: i128 = if num >= 0 {
        proof {
            assert((2 * num + den) / (2 * den) <= 2 * num + den) by (nonlinear_arith)
                requires
                    num >= 0,
                    den > 0,
            ;
            assert((2 * num + den) / (2 * den) >= 0) by (nonlinear_arith)
                requires
                    num >= 0,
                    den > 0,
            ;
        }
        (2 * num + den) / (2 * den)
    } else {
        let m: i128 = -num;
        proof {
            assert((2 * m + den) / (2 * den) <= 2 * m + den) by (nonlinear_arith)
                requires
                    m >= 0,
                    den > 0,
            ;
            assert((2 * m + den) / (2 * den) >= 0) by (nonlinear_arith)
                requires
                    m >= 0,
                    den > 0,
            ;
        }
        -((2 * m + den) / (2 * den))
    };
    if t < i32::MIN as i128 {
        i32::MIN
    } else if t > i32::MAX as i128 {
        i32::MAX
    } else {
        t as i32
    }
}

/// Answers the toolkit's size query for the participating items `items` on
/// `orientation`: the envelope of the items' sizes and baselines, with the
/// natural size bent toward the aspect ratio when one is set. `for_size` is
/// the known size of the other axis, or `-1` when it is not known yet, in
/// which case the container's current extent on that axis is used.
pub fn measure(
    items: &Vec<SizeRequest>,
    orientation: Orientation,
    for_size: i32,
    container_width: i32,
    container_height: i32,
    aspect: Option<AspectRatio>,
) -> (r: SizeRequest)
    requires
        aspect matches Some(a) ==> a.wf(),
    ensures
        r == measurement(items@, orientation, for_size, container_width, container_height, aspect),
{
    let mut min: i32 = 0;
    let mut natural_max: i32 = 0;
    let mut min_baseline: i32 = -1;
    let mut nat_baseline: i32 = -1;
    let mut i: usize = 0;
    while i < items.len()
        invariant
            i <= items.len(),
            min == envelope_minimum(items@.take(i as int)),
            natural_max == envelope_natural(items@.take(i as int)),
            min_baseline == envelope_minimum_baseline(items@.take(i as int)),
            nat_baseline == envelope_natural_baseline(items@.take(i as int)),
        decreases items.len() - i,
    {
        let it = items[i];
        assert(items@.take(i + 1).drop_last() =~= items@.take(i as int));
        if it.minimum > min {
            min = it.minimum;
        }
        if it.natural > natural_max {
            natural_max = it.natural;
        }
        if it.minimum_baseline != -1 && it.minimum_baseline > min_baseline {
            min_baseline = it.minimum_baseline;
        }
        if it.natural_baseline != -1 && it.natural_baseline > nat_baseline {
            nat_baseline = it.natural_baseline;
        }
        i = i + 1;
    }
    assert(items@.take(i as int) =~= items@);
    proof {
        lemma_envelopes_in_range(items@);
    }
    let natural: i32 = match aspect {
        None => natural_max,
        Some(ratio) => {
            let src: i128 = if for_size == -1 {
                match orientation {
                    Orientation::Horizontal => container_height as i128,
                    Orientation::Vertical => container_width as i128,
                }
            } else {
                for_size as i128
            };
            proof {
                assert(-0x8000_0000 * 0x1_0000_0000 <= src * ratio.num <= 0x8000_0000
                    * 0x1_0000_0000) by (nonlinear_arith)
                    requires
                        -0x8000_0000 <= src < 0x8000_0000,
                        0 <= ratio.num < 0x1_0000_0000,
                ;
                assert(-0x8000_0000 * 0x1_0000_0000 <= src * ratio.den <= 0x8000_0000
                    * 0x1_0000_0000) by (nonlinear_arith)
                    requires
                        -0x8000_0000 <= src < 0x8000_0000,
                        0 <= ratio.den < 0x1_0000_0000,
                ;
            }
            let expected: i32 = match orientation {
                Orientation::Horizontal => round_to_i32(
                    src * ratio.num as i128,
                    ratio.den as i128,
                ),
                Orientation::Vertical => round_to_i32(src * ratio.den as i128, ratio.num as i128),
            };
            let capped: i32 = if expected < natural_max {
                expected
            } else {
                natural_max
            };
            if capped < min {
                min
            } else {
                capped
            }
        },
    };
    SizeRequest {
        minimum: min,
        natural,
        minimum_baseline: min_baseline,
        natural_baseline: nat_baseline,
    }
}

} // verus!
