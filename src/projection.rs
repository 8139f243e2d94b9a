use vstd::prelude::*;

use crate::product::PrecipRate;
use crate::radials::{radials_view, RadialView};
use crate::units::Velocity;

verus! {

/// One range bin to draw: which radial, which bin of it (0 nearest the station), its rate.
#[derive(Debug, Clone, Copy, PartialEq, Eq, Structural)]
pub struct BinRef {
    pub radial: usize,
    pub bin: usize,
    pub rate: Velocity,
}

/// The bins of the radial with index `ri` whose rates are `rates`, nearest first; those
/// with a zero rate are left out when `skip_zeros` holds.
pub open spec fn radial_bins(ri: int, rates: Seq<Velocity>, skip_zeros: bool) -> Seq<BinRef>
    decreases rates.len(),
{
    if rates.len() == 0 {
        seq![]
    } else {
        let rest = radial_bins(ri, rates.drop_last(), skip_zeros);
        if skip_zeros && rates.last().thousandths_inch_per_hour == 0 {
            rest
        } else {
            rest.push(
                BinRef { radial: ri as usize, bin: (rates.len() - 1) as usize, rate: rates.last() },
            )
        }
    }
}

/// The bins of all radials: radials in order, and within each its bins outward.
pub open spec fn all_bins(rs: Seq<RadialView>, skip_zeros: bool) -> Seq<BinRef>
    decreases rs.len(),
{
    if rs.len() == 0 {
        seq![]
    } else {
        all_bins(rs.drop_last(), skip_zeros) + radial_bins(
            rs.len() - 1,
            rs.last().precip_rates,
            skip_zeros,
        )
    }
}

impl PrecipRate {
    /// Lists the bins to draw, radials in the order of the product and each radial's bins
    /// from the station outward; with `skip_zeros`, bins whose rate is zero are left out.
    pub fn bins(&self, skip_zeros: bool) -> (r: Vec<BinRef>)
        ensures
            r@ == all_bins(radials_view(self.radials@), skip_zeros),
    {
        let ghost rs = radials_view(self.radials@);
        let mut out: Vec<BinRef> = Vec::new();
        let mut i: usize = 0;
        assert(rs.take(0) =~= seq![]);
        while i < self.radials.len()
            invariant
                i <= self.radials@.len(),
                rs == radials_view(self.radials@),
                out@ == all_bins(rs.take(i as int), skip_zeros),
            decreases self.radials@.len() - i,
        {
            let rates = &self.radials[i].precip_rates;
            let ghost before = out@;
            let mut j: usize = 0;
            assert(rates@.take(0) =~= seq![]);
            assert(before + seq![] =~= before);
            while j < rates.len()
                invariant
                    i < self.radials@.len(),
                    j <= rates@.len(),
                    out@ == before + radial_bins(i as int, rates@.take(j as int), skip_zeros),
                decreases rates@.len() - j,
            {
                assert(rates@.take(j + 1).drop_last() =~= rates@.take(j as int));
                let rate = rates[j];
                if !(skip_zeros && rate.thousandths_inch_per_hour == 0) {
                    out.push(BinRef { radial: i, bin: j, rate });
                    assert(out@ =~= before + radial_bins(i as int, rates@.take(j + 1), skip_zeros));
                }
                j = j + 1;
            }
            assert(rates@.take(j as int) =~= rates@);
            assert(rs.take(i + 1).drop_last() =~= rs.take(i as int));
            assert(rs.take(i + 1).last() == self.radials@[i as int]@);
            i = i + 1;
        }
        assert(rs.take(i as int) =~= rs);
        out
    }
}

/// The outline of one bin from its corner points: the six points in ring order, or, where
/// the inner point on the center line coincides with an inner corner (a bin at the station,
/// whose inner edge has shrunk to a point), the triangle of that point and the two outer
/// corners.
pub fn bin_ring<T: Copy>(
    center_inner: T,
    right_inner: T,
    right_outer: T,
    center_outer: T,
    left_outer: T,
    left_inner: T,
    inner_collapsed: bool,
) -> (r: Vec<T>)
    ensures
        r@ == if inner_collapsed {
            seq![center_inner, right_outer, left_outer]
        } else {
            seq![center_inner, right_inner, right_outer, center_outer, left_outer, left_inner]
        },
{
    let mut ring: Vec<T> = Vec::new();
    if inner_collapsed {
        ring.push(center_inner);
        ring.push(right_outer);
        ring.push(left_outer);
    } else {
        ring.push(center_inner);
        ring.push(right_inner);
        ring.push(right_outer);
        ring.push(center_outer);
        ring.push(left_outer);
        ring.push(left_inner);
    }
    assert(ring@ =~= if inner_collapsed {
        seq![center_inner, right_outer, left_outer]
    } else {
        seq![center_inner, right_inner, right_outer, center_outer, left_outer, left_inner]
    });
    ring
}

/// The number of rates above zero.
pub open spec fn wet_count_in(rates: Seq<Velocity>) -> int
    decreases rates.len(),
{
    if rates.len() == 0 {
        0
    } else {
        wet_count_in(rates.drop_last()) + if rates.last().thousandths_inch_per_hour > 0 {
            1int
        } else {
            0int
        }
    }
}

/// The number of bins with a rate above zero, over all radials.
pub open spec fn wet_count(rs: Seq<RadialView>) -> int
    decreases rs.len(),
{
    if rs.len() == 0 {
        0
    } else {
        wet_count(rs.drop_last()) + wet_count_in(rs.last().precip_rates)
    }
}

/// The number of bins over all radials.
pub open spec fn bin_count(rs: Seq<RadialView>) -> int
    decreases rs.len(),
{
    if rs.len() == 0 {
        0
    } else {
        bin_count(rs.drop_last()) + rs.last().precip_rates.len()
    }
}

proof fn lemma_wet_count_in_bounds(rates: Seq<Velocity>)
    ensures
        0 <= wet_count_in(rates) <= rates.len(),
    decreases rates.len(),
{
    if rates.len() > 0 {
        lemma_wet_count_in_bounds(rates.drop_last());
    }
}

proof fn lemma_counts_grow(rs: Seq<RadialView>, i: int)
    requires
        0 <= i <= rs.len(),
    ensures
        0 <= wet_count(rs.take(i)) <= bin_count(rs.take(i)) <= bin_count(rs),
    decreases rs.len() - i,
{
    if i < rs.len() {
        lemma_counts_grow(rs, i + 1);
        assert(rs.take(i + 1).drop_last() =~= rs.take(i));
        assert(rs.take(i + 1).last() == rs[i]);
        lemma_counts_bounded(rs.take(i));
    } else {
        assert(rs.take(i) =~= rs);
        lemma_counts_bounded(rs);
    }
}

proof fn lemma_counts_bounded(rs: Seq<RadialView>)
    ensures
        0 <= wet_count(rs) <= bin_count(rs),
    decreases rs.len(),
{
    if rs.len() > 0 {
        lemma_counts_bounded(rs.drop_last());
        lemma_wet_count_in_bounds(rs.last().precip_rates);
    }
}

impl PrecipRate {
    /// Counts the bins with a rate above zero and all bins, over all radials.
    pub fn bin_counts(&self) -> (r: (u64, u64))
        requires
            bin_count(radials_view(self.radials@)) <= u64::MAX,
        ensures
            r.0 == wet_count(radials_view(self.radials@)),
            r.1 == bin_count(radials_view(self.radials@)),
    {
        let ghost rs = radials_view(self.radials@);
        let mut wet: u64 = 0;
        let mut total: u64 = 0;
        let mut i: usize = 0;
        assert(rs.take(0) =~= seq![]);
        while i < self.radials.len()
            invariant
                i <= self.radials@.len(),
                rs == radials_view(self.radials@),
                bin_count(rs) <= u64::MAX,
                wet == wet_count(rs.take(i as int)),
                total == bin_count(rs.take(i as int)),
            decreases self.radials@.len() - i,
        {
            let rates = &self.radials[i].precip_rates;
            proof {
                lemma_counts_grow(rs, i + 1);
                assert(rs.take(i + 1).drop_last() =~= rs.take(i as int));
                assert(rs.take(i + 1).last() == self.radials@[i as int]@);
            }
            let ghost wet_before = wet as int;
            let mut j: usize = 0;
            assert(rates@.take(0) =~= seq![]);
            while j < rates.len()
                invariant
                    j <= rates@.len(),
                    wet == wet_before + wet_count_in(rates@.take(j as int)),
                    wet_before + wet_count_in(rates@) <= u64::MAX,
                decreases rates@.len() - j,
            {
                assert(rates@.take(j + 1).drop_last() =~= rates@.take(j as int));
                proof {
                    lemma_wet_count_in_bounds(rates@.take(j + 1));
                    lemma_wet_prefix(rates@, j + 1);
                }
                if rates[j].thousandths_inch_per_hour > 0 {
                    wet = wet + 1;
                }
                j = j + 1;
            }
            assert(rates@.take(j as int) =~= rates@);
            total = total + rates.len() as u64;
            i = i + 1;
        }
        assert(rs.take(i as int) =~= rs);
        (wet, total)
    }
}

proof fn lemma_wet_prefix(rates: Seq<Velocity>, k: int)
    requires
        0 <= k <= rates.len(),
    ensures
        wet_count_in(rates.take(k)) <= wet_count_in(rates),
    decreases rates.len() - k,
{
    if k < rates.len() {
        lemma_wet_prefix(rates, k + 1);
        assert(rates.take(k + 1).drop_last() =~= rates.take(k));
    } else {
        assert(rates.take(k) =~= rates);
    }
}

} // verus!
