//! The back-EMF measurement: how many samples are taken, and what they come to.
use vstd::prelude::*;
use crate::math;

verus! {

/// Maximum number of ADC samples taken per EMF measurement. The sample count comes from
/// CV61, which is a `u8`, so 255 covers the entire configurable range.
pub const MAX_EMF_SAMPLES: usize = 255;

/// A measured level: the sum of some samples and their number. The level is their mean, a
/// fraction that is not rounded.
#[derive(Copy, Clone, Debug, PartialEq, Eq, Structural)]
pub struct Measurement {
    pub sum: u32,
    pub count: u32,
}

/// How many samples a measurement takes.
pub open spec fn samples_taken(emf_samples: u8) -> int {
    if emf_samples == 0 {
        1
    } else {
        emf_samples as int
    }
}

/// How many samples a measurement takes.
pub fn sample_count(emf_samples: u8) -> (r: usize)
    ensures
        r == samples_taken(emf_samples),
        1 <= r <= MAX_EMF_SAMPLES,
{
    if emf_samples == 0 {
        1
    } else {
        emf_samples as usize
    }
}

/// How many of `n` sorted samples are discarded at the low and at the high end: as many as
/// are configured, or none if that would leave no sample.
pub open spec fn kept_cutoffs(n: int, l_cutoff: u8, r_cutoff: u8) -> (int, int) {
    if l_cutoff + r_cutoff < n {
        (l_cutoff as int, r_cutoff as int)
    } else {
        (0, 0)
    }
}

/// How many of `n` sorted samples are discarded at the low and at the high end.
pub fn cutoffs(n: usize, l_cutoff: u8, r_cutoff: u8) -> (r: (usize, usize))
    ensures
        (r.0 as int, r.1 as int) == kept_cutoffs(n as int, l_cutoff, r_cutoff),
{
    // Guard against pathological CVs that would otherwise discard every sample.
    let l: usize = l_cutoff as usize;
    let r: usize = r_cutoff as usize;
    if l + r < n {
        (l, r)
    } else {
        (0, 0)
    }
}

/// The samples in ascending order.
pub open spec fn ascending(samples: Seq<u16>) -> Seq<u16> {
    samples.sort_by(|a: u16, b: u16| a <= b)
}

/// The samples that are left when the discarded ones are taken off at both ends.
pub open spec fn kept_samples(samples: Seq<u16>, l_cutoff: u8, r_cutoff: u8) -> Seq<u16> {
    let (l, r) = kept_cutoffs(samples.len() as int, l_cutoff, r_cutoff);
    ascending(samples).subrange(l, samples.len() - r)
}

/// `<[u16]>::sort_unstable`: puts the elements in ascending order; none is added or lost.
#[verifier::external_body]
fn sort_samples(samples: &mut [u16])
    ensures
        final(samples)@.to_multiset() == old(samples)@.to_multiset(),
        forall|i: int, j: int|
            0 <= i <= j < final(samples)@.len() ==> final(samples)@[i] <= final(samples)@[j],
{
    samples.sort_unstable();
}

/// Sorting is the only way to put the samples in ascending order.
proof fn lemma_ascending(samples: Seq<u16>, sorted: Seq<u16>)
    requires
        sorted.to_multiset() == samples.to_multiset(),
        forall|i: int, j: int| 0 <= i <= j < sorted.len() ==> sorted[i] <= sorted[j],
    ensures
        sorted == ascending(samples),
        sorted.len() == samples.len(),
{
    let leq = |a: u16, b: u16| a <= b;
    samples.lemma_sort_by_ensures(leq);
    vstd::seq_lib::lemma_sorted_unique(sorted, ascending(samples), leq);
    samples.to_multiset_ensures();
    sorted.to_multiset_ensures();
}

/// The level that the samples come to.
pub open spec fn measurement_of(samples: Seq<u16>, l_cutoff: u8, r_cutoff: u8) -> Measurement {
    let kept = kept_samples(samples, l_cutoff, r_cutoff);
    Measurement { sum: math::sum(kept) as u32, count: kept.len() as u32 }
}

/// The level that the samples come to: the mean of those that are left when the configured
/// numbers of them have been discarded at both ends. The samples are left sorted.
pub fn trimmed_measurement(samples: &mut [u16], l_cutoff: u8, r_cutoff: u8) -> (r: Measurement)
    requires
        1 <= old(samples)@.len() <= MAX_EMF_SAMPLES,
    ensures
        final(samples)@ == ascending(old(samples)@),
        r.sum == math::sum(kept_samples(old(samples)@, l_cutoff, r_cutoff)),
        r.count == kept_samples(old(samples)@, l_cutoff, r_cutoff).len(),
        r.count >= 1,
        r == measurement_of(old(samples)@, l_cutoff, r_cutoff),
{
    let ghost before = samples@;
    sort_samples(samples);
    proof {
        lemma_ascending(before, samples@);
    }
    let n: usize = samples.len();
    let (l, r) = cutoffs(n, l_cutoff, r_cutoff);
    let ghost kept = kept_samples(before, l_cutoff, r_cutoff);
    let mut sum: u32 = 0;
    let mut i: usize = l;
    while i < n - r
        invariant
            l <= i <= n - r,
            r <= n <= 255,
            samples@.len() == n,
            kept == samples@.subrange(l as int, n - r),
            sum == math::sum(kept.take(i - l)),
            sum <= 65535 * (i - l),
        decreases n - r - i,
    {
        assert(kept.take(i - l + 1).drop_last() =~= kept.take(i - l));
        sum = sum + samples[i] as u32;
        i = i + 1;
    }
    assert(kept.take(i - l) =~= kept);
    Measurement { sum, count: (n - r - l) as u32 }
}

/// The order in which samples were taken does not matter.
pub proof fn sample_order_is_irrelevant(
    a: Seq<u16>,
    b: Seq<u16>,
    l_cutoff: u8,
    r_cutoff: u8,
)
    requires
        a.to_multiset() == b.to_multiset(),
    ensures
        kept_samples(a, l_cutoff, r_cutoff) == kept_samples(b, l_cutoff, r_cutoff),
{
    let leq = |x: u16, y: u16| x <= y;
    a.lemma_sort_by_ensures(leq);
    b.lemma_sort_by_ensures(leq);
    vstd::seq_lib::lemma_sorted_unique(ascending(a), ascending(b), leq);
    a.to_multiset_ensures();
    b.to_multiset_ensures();
}

/// At least one sample is kept, and all kept samples are samples that were taken.
pub proof fn kept_samples_were_taken(samples: Seq<u16>, l_cutoff: u8, r_cutoff: u8, i: int)
    requires
        samples.len() >= 1,
        0 <= i < kept_samples(samples, l_cutoff, r_cutoff).len(),
    ensures
        1 <= kept_samples(samples, l_cutoff, r_cutoff).len() <= samples.len(),
        samples.contains(kept_samples(samples, l_cutoff, r_cutoff)[i]),
{
    let leq = |x: u16, y: u16| x <= y;
    samples.lemma_sort_by_ensures(leq);
    samples.to_multiset_ensures();
    ascending(samples).to_multiset_ensures();
    let (l, r) = kept_cutoffs(samples.len() as int, l_cutoff, r_cutoff);
    let kept = kept_samples(samples, l_cutoff, r_cutoff);
    assert(ascending(samples)[l + i] == kept[i]);
    assert(ascending(samples).contains(kept[i]));
}

/// As many samples are taken as are configured, but at least one.
pub proof fn configured_samples_are_taken(emf_samples: u8)
    ensures
        emf_samples >= 1 ==> samples_taken(emf_samples) == emf_samples,
        samples_taken(0) == samples_taken(1),
{
}

/// Of samples in ascending order, the first `l_cutoff` and the last `r_cutoff` are left out, or
/// none if that would leave none; the level is the sum of the others, and their number.
pub proof fn ends_are_cut_off(samples: Seq<u16>, l_cutoff: u8, r_cutoff: u8)
    requires
        1 <= samples.len() <= MAX_EMF_SAMPLES,
        forall|i: int, j: int| 0 <= i <= j < samples.len() ==> samples[i] <= samples[j],
    ensures
        ({
            let m = measurement_of(samples, l_cutoff, r_cutoff);
            let n = samples.len();
            if l_cutoff + r_cutoff < n {
                &&& m.count == n - l_cutoff - r_cutoff
                &&& m.sum == math::sum(samples.subrange(l_cutoff as int, n - r_cutoff))
            } else {
                &&& m.count == n
                &&& m.sum == math::sum(samples)
            }
        }),
{
    lemma_ascending(samples, samples);
    let kept = kept_samples(samples, l_cutoff, r_cutoff);
    assert(samples.subrange(0, samples.len() as int) =~= samples);
    lemma_sum_fits(kept);
}

/// The sum of the samples of a measurement fits its type.
proof fn lemma_sum_fits(samples: Seq<u16>)
    ensures
        math::sum(samples) <= 65535 * samples.len(),
    decreases samples.len(),
{
    if samples.len() > 0 {
        lemma_sum_fits(samples.drop_last());
    }
}

/// Raising every sample by an amount raises the level by that amount: it is added to the sum once
/// for every sample that is kept, of which there are as many as before.
pub proof fn level_rises_with_samples(samples: Seq<u16>, l_cutoff: u8, r_cutoff: u8, d: u16)
    requires
        1 <= samples.len() <= MAX_EMF_SAMPLES,
        forall|i: int, j: int| 0 <= i <= j < samples.len() ==> samples[i] <= samples[j],
        forall|i: int| 0 <= i < samples.len() ==> #[trigger] samples[i] + d <= u16::MAX,
    ensures
        ({
            let before = measurement_of(samples, l_cutoff, r_cutoff);
            let after = measurement_of(math::shifted(samples, d), l_cutoff, r_cutoff);
            &&& after.count == before.count
            &&& after.sum == before.sum + before.count * d
        }),
{
    let raised = math::shifted(samples, d);
    assert forall|i: int, j: int| 0 <= i <= j < raised.len() implies raised[i] <= raised[j] by {
        assert(samples[i] + d <= u16::MAX && samples[j] + d <= u16::MAX);
    }
    ends_are_cut_off(samples, l_cutoff, r_cutoff);
    ends_are_cut_off(raised, l_cutoff, r_cutoff);
    let n = samples.len();
    let (l, r) = if l_cutoff + r_cutoff < n {
        (l_cutoff as int, r_cutoff as int)
    } else {
        (0, 0)
    };
    let kept = samples.subrange(l, n - r);
    assert forall|i: int| 0 <= i < kept.len() implies #[trigger] kept[i] + d <= u16::MAX by {
        assert(samples[l + i] + d <= u16::MAX);
    }
    math::sum_of_shifted(kept, d);
    assert(raised.subrange(l, n - r) =~= math::shifted(kept, d));
    assert(samples.subrange(0, n as int) =~= samples);
    assert(raised.subrange(0, n as int) =~= raised);
}

} // verus!
