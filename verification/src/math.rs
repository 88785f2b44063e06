//! Statistics on measurements.
use vstd::prelude::*;

verus! {

/// The sum of all elements.
pub open spec fn sum(data: Seq<u16>) -> nat
    decreases data.len(),
{
    if data.len() == 0 {
        0
    } else {
        sum(data.drop_last()) + data.last() as nat
    }
}

/// The mean of the elements, rounded down.
pub open spec fn mean(data: Seq<u16>) -> int {
    sum(data) as int / data.len() as int
}

/// The square of the distance from `center`.
pub open spec fn squared_distance(e: u16, center: int) -> nat {
    ((e - center) * (e - center)) as nat
}

/// The sum of the squared distances of all elements from `center`.
pub open spec fn squared_distances(data: Seq<u16>, center: int) -> nat
    decreases data.len(),
{
    if data.len() == 0 {
        0
    } else {
        squared_distances(data.drop_last(), center) + squared_distance(data.last(), center)
    }
}

/// Whether an element is at most `std_deviations` standard deviations away from the mean.
/// With the squares of both sides: the variance of the elements is their squared distances
/// from the mean, divided by their number less one.
pub open spec fn near_mean(data: Seq<u16>, std_deviations: u16, e: u16) -> bool {
    squared_distance(e, mean(data)) * (data.len() - 1) <= (std_deviations * std_deviations)
        * squared_distances(data, mean(data))
}

/// The elements that are at most `std_deviations` standard deviations away from the mean.
pub open spec fn near_elements(data: Seq<u16>, std_deviations: u16) -> Seq<u16> {
    data.filter(|e: u16| near_mean(data, std_deviations, e))
}

/// The mean of the elements, rounded to the nearest integer (up if it lies halfway).
pub open spec fn rounded_mean(data: Seq<u16>) -> int {
    (2 * sum(data) as int + data.len() as int) / (2 * data.len() as int)
}

/// The mean of the elements, without those that are too far away from it.
pub open spec fn mean_of_near(data: Seq<u16>, std_deviations: u16) -> Option<u16> {
    if data.len() == 0 {
        None
    } else if data.len() == 1 {
        Some(data[0])
    } else if near_elements(data, std_deviations).len() == 0 {
        None
    } else {
        Some(rounded_mean(near_elements(data, std_deviations)) as u16)
    }
}

/// The sum of elements lies between the bounds of the elements, times their number.
proof fn lemma_sum_bounds(data: Seq<u16>, low: int, high: int)
    requires
        forall|i: int| 0 <= i < data.len() ==> low <= #[trigger] data[i] <= high,
    ensures
        low * data.len() <= sum(data) <= high * data.len(),
    decreases data.len(),
{
    if data.len() > 0 {
        let shorter = data.drop_last();
        assert forall|i: int| 0 <= i < shorter.len() implies low <= #[trigger] shorter[i]
            <= high by {
            assert(shorter[i] == data[i]);
        }
        lemma_sum_bounds(shorter, low, high);
        let n = shorter.len() as int;
        assert(low * (n + 1) == low * n + low && high * (n + 1) == high * n + high)
            by (nonlinear_arith);
        assert(low <= data[data.len() - 1] <= high);
    } else {
        assert(low * 0 == 0 && high * 0 == 0) by (nonlinear_arith);
    }
}

/// The mean lies between the bounds of the elements, rounded down or to the nearest.
pub proof fn lemma_mean_bounds(data: Seq<u16>, low: int, high: int)
    requires
        data.len() > 0,
        forall|i: int| 0 <= i < data.len() ==> low <= #[trigger] data[i] <= high,
    ensures
        low <= mean(data) <= high,
        low <= rounded_mean(data) <= high,
{
    lemma_sum_bounds(data, low, high);
    let (s, n) = (sum(data) as int, data.len() as int);
    assert(low <= s / n <= high) by (nonlinear_arith)
        requires
            n > 0,
            low * n <= s <= high * n,
    ;
    assert(low <= (2 * s + n) / (2 * n) <= high) by (nonlinear_arith)
        requires
            n > 0,
            low * n <= s <= high * n,
    ;
}

/// A squared distance between two 16-bit values fits 32 bits.
proof fn lemma_squared_distance_bound(e: u16, center: int)
    requires
        0 <= center <= 65535,
    ensures
        squared_distance(e, center) <= 4294836225,
        (e - center) * (e - center) >= 0,
{
    let d = e - center;
    assert(0 <= d * d <= 4294836225) by (nonlinear_arith)
        requires
            -65535 <= d <= 65535,
    ;
}

/// The squared distances of `n` elements fit `n` times 32 bits.
proof fn lemma_squared_distances_bound(data: Seq<u16>, center: int)
    requires
        0 <= center <= 65535,
    ensures
        squared_distances(data, center) <= 4294836225 * data.len(),
    decreases data.len(),
{
    if data.len() > 0 {
        lemma_squared_distances_bound(data.drop_last(), center);
        lemma_squared_distance_bound(data.last(), center);
    }
}

/// The sum of all elements.
fn sum_of(data: &[u16]) -> (r: u128)
    ensures
        r == sum(data@),
{
    let mut total: u128 = 0;
    let mut i: usize = 0;
    while i < data.len()
        invariant
            i <= data@.len(),
            total == sum(data@.take(i as int)),
            total <= 65535 * i,
        decreases data@.len() - i,
    {
        assert(data@.take(i + 1).drop_last() =~= data@.take(i as int));
        total = total + data[i] as u128;
        i = i + 1;
    }
    assert(data@.take(i as int) =~= data@);
    total
}

/// The square of the distance between two values.
fn squared_distance_of(e: u16, center: u16) -> (r: u128)
    ensures
        r == squared_distance(e, center as int),
        r <= 4294836225,
{
    proof {
        lemma_squared_distance_bound(e, center as int);
    }
    let d: u128 = if e < center {
        (center - e) as u128
    } else {
        (e - center) as u128
    };
    let ghost (x, y) = (e as int, center as int);
    assert((x - y) * (x - y) == (y - x) * (y - x)) by (nonlinear_arith);
    d * d
}

/// The sum of the squared distances of all elements from `center`.
fn squared_distances_of(data: &[u16], center: u16) -> (r: u128)
    ensures
        r == squared_distances(data@, center as int),
{
    let mut total: u128 = 0;
    let mut i: usize = 0;
    while i < data.len()
        invariant
            i <= data@.len(),
            total == squared_distances(data@.take(i as int), center as int),
            total <= 4294836225 * i,
        decreases data@.len() - i,
    {
        assert(data@.take(i + 1).drop_last() =~= data@.take(i as int));
        total = total + squared_distance_of(data[i], center);
        i = i + 1;
    }
    assert(data@.take(i as int) =~= data@);
    total
}

/// Calculates the mean of the data filtering out any elements that are
/// more than `std_deviations` standard deviations away from the mean.
pub fn filtered_mean(data: &[u16], std_deviations: u16) -> (r: Option<u16>)
    ensures
        r == mean_of_near(data@, std_deviations),
{
    if data.len() == 0 {
        return None;
    }
    let n: u128 = data.len() as u128;
    let total: u128 = sum_of(data);
    proof {
        assert forall|i: int| 0 <= i < data@.len() implies 0 <= #[trigger] data@[i] <= 65535 by {}
        lemma_mean_bounds(data@, 0, 65535);
    }
    let center: u16 = (total / n) as u16;
    if data.len() == 1 {
        proof {
            reveal_with_fuel(sum, 2);
            assert(mean(data@) == data@[0]);
        }
        return Some(center);
    }
    // the sum of the squared distances stands for the variance, and the comparison below for
    // the one of the distance with the standard deviation
    let var_sum: u128 = squared_distances_of(data, center);
    assert(0 <= std_deviations * std_deviations <= 4294836225) by (nonlinear_arith)
        requires
            0 <= std_deviations <= 65535,
    ;
    let k: u128 = std_deviations as u128 * std_deviations as u128;
    let ghost pred = |e: u16| near_mean(data@, std_deviations, e);
    proof {
        lemma_squared_distances_bound(data@, center as int);
        let (kk, v, len) = (k as int, var_sum as int, n as int);
        assert(0 <= kk * v <= 0xffff_ffff_ffff_ffff_ffff_ffff_ffff_ffff) by (nonlinear_arith)
            requires
                0 <= kk <= 4294836225,
                0 <= v <= 4294836225 * len,
                0 <= len <= 0xffff_ffff_ffff_ffff,
        ;
    }
    let threshold: u128 = k * var_sum;
    let mut near_sum: u128 = 0;
    let mut near_count: u128 = 0;
    let mut i: usize = 0;
    while i < data.len()
        invariant
            i <= data@.len(),
            data@.len() >= 2,
            n == data@.len(),
            center == mean(data@),
            threshold == (std_deviations * std_deviations) * squared_distances(
                data@,
                mean(data@),
            ),
            pred == (|e: u16| near_mean(data@, std_deviations, e)),
            near_sum == sum(data@.take(i as int).filter(pred)),
            near_count == data@.take(i as int).filter(pred).len(),
            near_sum <= 65535 * i,
            near_count <= i,
        decreases data@.len() - i,
    {
        let e: u16 = data[i];
        let d: u128 = squared_distance_of(e, center);
        proof {
            let shorter = data@.take(i as int);
            let longer = data@.take(i + 1);
            assert(longer.drop_last() =~= shorter);
            assert(longer.last() == e);
            reveal(Seq::filter);
            assert(shorter.filter(pred).push(e).drop_last() =~= shorter.filter(pred));
            let (dd, len) = (d as int, n as int);
            assert(0 <= dd * (len - 1) <= 0xffff_ffff_ffff_ffff_ffff_ffff_ffff_ffff)
                by (nonlinear_arith)
                requires
                    0 <= dd <= 4294836225,
                    2 <= len <= 0xffff_ffff_ffff_ffff,
            ;
        }
        if d * (n - 1) <= threshold {
            near_sum = near_sum + e as u128;
            near_count = near_count + 1;
        }
        i = i + 1;
    }
    assert(data@.take(i as int) =~= data@);
    assert(near_elements(data@, std_deviations) == data@.filter(pred));
    if near_count == 0 {
        None
    } else {
        proof {
            lemma_mean_bounds(near_elements(data@, std_deviations), 0, 65535);
        }
        Some(((2 * near_sum + near_count) / (2 * near_count)) as u16)
    }
}

/// What is kept of the data lies between the bounds of the data, and only elements that are
/// not near the mean are dropped.
pub proof fn lemma_filter(data: Seq<u16>, pred: spec_fn(u16) -> bool, low: int, high: int)
    requires
        forall|i: int| 0 <= i < data.len() ==> low <= #[trigger] data[i] <= high,
    ensures
        forall|i: int|
            0 <= i < data.filter(pred).len() ==> low <= #[trigger] data.filter(pred)[i] <= high,
        data.filter(pred).len() == 0 ==> forall|i: int|
            0 <= i < data.len() ==> !pred(#[trigger] data[i]),
    decreases data.len(),
{
    reveal(Seq::filter);
    if data.len() > 0 {
        let shorter = data.drop_last();
        assert forall|i: int| 0 <= i < shorter.len() implies low <= #[trigger] shorter[i]
            <= high by {
            assert(shorter[i] == data[i]);
        }
        lemma_filter(shorter, pred, low, high);
        assert(low <= data[data.len() - 1] <= high);
        if data.filter(pred).len() == 0 {
            assert forall|i: int| 0 <= i < data.len() implies !pred(#[trigger] data[i]) by {
                if i < shorter.len() {
                    assert(shorter[i] == data[i]);
                }
            }
        }
    }
}

/// The filtered mean lies between the smallest and the largest element.
pub proof fn filtered_mean_between_bounds(
    data: Seq<u16>,
    std_deviations: u16,
    low: u16,
    high: u16,
)
    requires
        forall|i: int| 0 <= i < data.len() ==> low <= #[trigger] data[i] <= high,
    ensures
        mean_of_near(data, std_deviations) is Some ==> low <= mean_of_near(
            data,
            std_deviations,
        )->Some_0 <= high,
{
    lemma_filter(
        data,
        |e: u16| near_mean(data, std_deviations, e),
        low as int,
        high as int,
    );
    if near_elements(data, std_deviations).len() > 0 {
        lemma_mean_bounds(near_elements(data, std_deviations), low as int, high as int);
    }
    if data.len() == 1 {
        assert(low <= data[0] <= high);
    }
}

/// If every squared distance, times `m`, is more than `limit`, then so is their average.
proof fn lemma_squared_distances_above(data: Seq<u16>, center: int, m: int, limit: int)
    requires
        forall|i: int|
            0 <= i < data.len() ==> squared_distance(#[trigger] data[i], center) * m > limit,
    ensures
        squared_distances(data, center) * m >= (limit + 1) * data.len(),
    decreases data.len(),
{
    if data.len() > 0 {
        let shorter = data.drop_last();
        assert forall|i: int| 0 <= i < shorter.len() implies squared_distance(
            #[trigger] shorter[i],
            center,
        ) * m > limit by {
            assert(shorter[i] == data[i]);
        }
        lemma_squared_distances_above(shorter, center, m, limit);
        let (a, b, n) = (
            squared_distances(shorter, center) as int,
            squared_distance(data.last(), center) as int,
            shorter.len() as int,
        );
        assert(squared_distance(data[data.len() - 1], center) * m > limit);
        assert((a + b) * m >= (limit + 1) * (n + 1)) by (nonlinear_arith)
            requires
                a * m >= (limit + 1) * n,
                b * m >= limit + 1,
        ;
    } else {
        assert(0 * m == 0 && (limit + 1) * 0 == 0) by (nonlinear_arith);
    }
}

/// Data that is not empty has a filtered mean, if elements up to at least one standard
/// deviation away are kept: not all elements can be further away than that.
pub proof fn filtered_mean_exists(data: Seq<u16>, std_deviations: u16)
    requires
        data.len() > 0,
        std_deviations >= 1,
    ensures
        mean_of_near(data, std_deviations) is Some,
{
    if data.len() >= 2 && near_elements(data, std_deviations).len() == 0 {
        let center = mean(data);
        let pred = |e: u16| near_mean(data, std_deviations, e);
        let (v, m, n) = (
            squared_distances(data, center) as int,
            data.len() - 1,
            data.len() as int,
        );
        let k = std_deviations * std_deviations;
        assert forall|i: int| 0 <= i < data.len() implies 0 <= #[trigger] data[i] <= 65535 by {}
        lemma_filter(data, pred, 0, 65535);
        assert(k >= 1) by (nonlinear_arith)
            requires
                k == std_deviations * std_deviations,
                std_deviations >= 1,
        ;
        assert(k * v >= v) by (nonlinear_arith)
            requires
                k >= 1,
                v >= 0,
        ;
        assert forall|i: int| 0 <= i < data.len() implies squared_distance(
            #[trigger] data[i],
            center,
        ) * m > v by {
            assert(!pred(data[i]));
        }
        lemma_squared_distances_above(data, center, m, v);
        assert(false) by (nonlinear_arith)
            requires
                v * m >= (v + 1) * n,
                m == n - 1,
                v >= 0,
                n >= 1,
        ;
    }
}

/// The sum of elements that are put together is the sum of their sums, and a single element is its
/// own sum.
pub proof fn sum_of_parts(a: Seq<u16>, b: Seq<u16>, element: u16)
    ensures
        sum(a + b) == sum(a) + sum(b),
        sum(seq![element]) == element,
        sum(Seq::<u16>::empty()) == 0,
    decreases b.len(),
{
    reveal_with_fuel(sum, 2);
    if b.len() == 0 {
        assert(a + b =~= a);
    } else {
        sum_of_parts(a, b.drop_last(), element);
        assert((a + b).drop_last() =~= a + b.drop_last());
    }
}

/// Elements that are 0 do not count for the sum.
pub proof fn zeros_add_nothing(data: Seq<u16>)
    ensures
        sum(data.filter(|v: u16| v > 0)) == sum(data),
    decreases data.len(),
{
    let pred = |v: u16| v > 0;
    reveal(Seq::filter);
    if data.len() > 0 {
        zeros_add_nothing(data.drop_last());
        let shorter = data.drop_last().filter(pred);
        assert(shorter.push(data.last()).drop_last() =~= shorter);
    }
}

/// The elements with the same amount added to each of them.
pub open spec fn shifted(data: Seq<u16>, d: u16) -> Seq<u16> {
    Seq::new(data.len(), |i: int| (data[i] + d) as u16)
}

/// Adding an amount to every element adds it to the sum once for each of them.
pub proof fn sum_of_shifted(data: Seq<u16>, d: u16)
    requires
        forall|i: int| 0 <= i < data.len() ==> #[trigger] data[i] + d <= u16::MAX,
    ensures
        sum(shifted(data, d)) == sum(data) + data.len() * d,
    decreases data.len(),
{
    if data.len() > 0 {
        let shorter = data.drop_last();
        assert forall|i: int| 0 <= i < shorter.len() implies #[trigger] shorter[i] + d
            <= u16::MAX by {
            assert(shorter[i] == data[i]);
        }
        sum_of_shifted(shorter, d);
        assert(shifted(data, d).drop_last() =~= shifted(shorter, d));
        let n = shorter.len() as int;
        assert((n + 1) * d == n * d + d) by (nonlinear_arith);
        assert(data[data.len() - 1] + d <= u16::MAX);
    } else {
        assert(0 * d == 0) by (nonlinear_arith);
    }
}

/// Equal elements have their number times their value as sum.
pub proof fn sum_of_equal(data: Seq<u16>, value: u16)
    requires
        forall|i: int| 0 <= i < data.len() ==> #[trigger] data[i] == value,
    ensures
        sum(data) == data.len() * value,
    decreases data.len(),
{
    if data.len() > 0 {
        let shorter = data.drop_last();
        assert forall|i: int| 0 <= i < shorter.len() implies #[trigger] shorter[i] == value by {
            assert(shorter[i] == data[i]);
        }
        sum_of_equal(shorter, value);
        let n = shorter.len() as int;
        assert((n + 1) * value == n * value + value) by (nonlinear_arith);
        assert(data[data.len() - 1] == value);
    } else {
        assert(0 * value == 0) by (nonlinear_arith);
    }
}

/// The squared distances of elements that are put together add up, and the one of a single element
/// is the square of its distance.
pub proof fn squared_distances_of_parts(a: Seq<u16>, b: Seq<u16>, center: int, element: u16)
    ensures
        squared_distances(a + b, center) == squared_distances(a, center) + squared_distances(
            b,
            center,
        ),
        squared_distances(seq![element], center) == (element - center) * (element - center),
        squared_distances(Seq::<u16>::empty(), center) == 0,
    decreases b.len(),
{
    reveal_with_fuel(squared_distances, 2);
    let d = element - center;
    assert(d * d >= 0) by (nonlinear_arith);
    if b.len() == 0 {
        assert(a + b =~= a);
    } else {
        squared_distances_of_parts(a, b.drop_last(), center, element);
        assert((a + b).drop_last() =~= a + b.drop_last());
    }
}

/// Which elements are kept: with `spread` the sum of the squared distances of all elements from
/// their mean (rounded down), those whose own squared distance is at most the square of the allowed
/// deviations times the spread divided by the number of elements less one.
pub proof fn near_elements_by_variance(data: Seq<u16>, std_deviations: u16)
    requires
        data.len() > 0,
    ensures
        ({
            let center = sum(data) as int / data.len() as int;
            let spread = squared_distances(data, center);
            near_elements(data, std_deviations) == data.filter(
                |e: u16|
                    ((e - center) * (e - center)) * (data.len() - 1) <= (std_deviations
                        * std_deviations) * spread,
            )
        }),
{
    let center = sum(data) as int / data.len() as int;
    let spread = squared_distances(data, center);
    let raw = |e: u16|
        ((e - center) * (e - center)) * (data.len() - 1) <= (std_deviations * std_deviations)
            * spread;
    let pred = |e: u16| near_mean(data, std_deviations, e);
    assert forall|e: u16| #[trigger] raw(e) == pred(e) by {
        let d = e - center;
        assert(d * d >= 0) by (nonlinear_arith);
    }
    assert(raw =~= pred);
}

/// The filtered mean of at least two elements is the mean of those that are kept, rounded to the
/// nearest integer, and up if it lies halfway between two; of one element it is that element, and
/// without elements there is none.
pub proof fn filtered_mean_is_rounded(data: Seq<u16>, std_deviations: u16)
    ensures
        data.len() == 0 ==> mean_of_near(data, std_deviations) is None,
        data.len() == 1 ==> mean_of_near(data, std_deviations) == Some(data[0]),
        data.len() >= 2 ==> {
            let kept = near_elements(data, std_deviations);
            let (s, n) = (sum(kept) as int, kept.len() as int);
            match mean_of_near(data, std_deviations) {
                None => n == 0,
                Some(r) => n > 0 && (2 * r - 1) * n <= 2 * s < (2 * r + 1) * n,
            }
        },
{
    let kept = near_elements(data, std_deviations);
    let (s, n) = (sum(kept) as int, kept.len() as int);
    if n > 0 && data.len() >= 2 {
        assert forall|i: int| 0 <= i < kept.len() implies 0 <= #[trigger] kept[i] <= 65535 by {}
        lemma_mean_bounds(kept, 0, 65535);
        let r = (2 * s + n) / (2 * n);
        assert((2 * r - 1) * n <= 2 * s < (2 * r + 1) * n) by (nonlinear_arith)
            requires
                r == (2 * s + n) / (2 * n),
                n > 0,
        ;
    }
}

/// An element is no further from the center than all elements together.
proof fn lemma_one_of_the_distances(data: Seq<u16>, center: int, i: int)
    requires
        0 <= i < data.len(),
    ensures
        squared_distance(data[i], center) <= squared_distances(data, center),
    decreases data.len(),
{
    if i < data.len() - 1 {
        lemma_one_of_the_distances(data.drop_last(), center, i);
    }
}

/// If every element satisfies the predicate, all of them are kept.
proof fn lemma_filter_all(data: Seq<u16>, pred: spec_fn(u16) -> bool)
    requires
        forall|i: int| 0 <= i < data.len() ==> pred(#[trigger] data[i]),
    ensures
        data.filter(pred) == data,
    decreases data.len(),
{
    reveal(Seq::filter);
    if data.len() > 0 {
        let shorter = data.drop_last();
        assert forall|i: int| 0 <= i < shorter.len() implies pred(#[trigger] shorter[i]) by {
            assert(shorter[i] == data[i]);
        }
        lemma_filter_all(shorter, pred);
        assert(pred(data[data.len() - 1]));
        assert(shorter.push(data.last()) =~= data);
    }
}

/// If the square of the allowed deviations is at least the number of elements less one, no element
/// can be too far away: the filtered mean is the mean of all elements, rounded to the nearest
/// integer.
pub proof fn many_deviations_keep_everything(data: Seq<u16>, std_deviations: u16)
    requires
        data.len() >= 2,
        std_deviations * std_deviations >= data.len() - 1,
    ensures
        near_elements(data, std_deviations) == data,
        mean_of_near(data, std_deviations) matches Some(r) && (2 * r - 1) * data.len() <= 2 * sum(
            data,
        ) < (2 * r + 1) * data.len(),
{
    let pred = |e: u16| near_mean(data, std_deviations, e);
    let center = mean(data);
    assert forall|i: int| 0 <= i < data.len() implies pred(#[trigger] data[i]) by {
        lemma_one_of_the_distances(data, center, i);
        let (d, v) = (
            squared_distance(data[i], center) as int,
            squared_distances(data, center) as int,
        );
        let (k, m) = (std_deviations * std_deviations, data.len() - 1);
        assert(d * m <= k * v) by (nonlinear_arith)
            requires
                0 <= d <= v,
                0 <= m <= k,
        ;
    }
    lemma_filter_all(data, pred);
    filtered_mean_is_rounded(data, std_deviations);
}

/// The squared distances stay when the elements and the center move together.
proof fn lemma_shifted_distances(data: Seq<u16>, d: u16, center: int)
    requires
        forall|i: int| 0 <= i < data.len() ==> #[trigger] data[i] + d <= u16::MAX,
    ensures
        squared_distances(shifted(data, d), center + d) == squared_distances(data, center),
    decreases data.len(),
{
    if data.len() > 0 {
        let shorter = data.drop_last();
        assert forall|i: int| 0 <= i < shorter.len() implies #[trigger] shorter[i] + d
            <= u16::MAX by {
            assert(shorter[i] == data[i]);
        }
        lemma_shifted_distances(shorter, d, center);
        assert(shifted(data, d).drop_last() =~= shifted(shorter, d));
        assert(data[data.len() - 1] + d <= u16::MAX);
    }
}

/// Filtering and shifting can be exchanged if the predicates agree.
proof fn lemma_shifted_filter(
    data: Seq<u16>,
    d: u16,
    pred: spec_fn(u16) -> bool,
    shifted_pred: spec_fn(u16) -> bool,
)
    requires
        forall|i: int|
            0 <= i < data.len() ==> #[trigger] data[i] + d <= u16::MAX && pred(data[i])
                == shifted_pred((data[i] + d) as u16),
    ensures
        shifted(data, d).filter(shifted_pred) == shifted(data.filter(pred), d),
        forall|i: int| 0 <= i < data.filter(pred).len() ==> #[trigger] data.filter(pred)[i] + d
            <= u16::MAX,
    decreases data.len(),
{
    reveal(Seq::filter);
    if data.len() > 0 {
        let shorter = data.drop_last();
        assert forall|i: int| 0 <= i < shorter.len() implies #[trigger] shorter[i] + d <= u16::MAX
            && pred(shorter[i]) == shifted_pred((shorter[i] + d) as u16) by {
            assert(shorter[i] == data[i]);
        }
        lemma_shifted_filter(shorter, d, pred, shifted_pred);
        assert(shifted(data, d).drop_last() =~= shifted(shorter, d));
        assert(data[data.len() - 1] + d <= u16::MAX);
        assert(shifted(shorter.filter(pred).push(data.last()), d) =~= shifted(
            shorter.filter(pred),
            d,
        ).push((data.last() + d) as u16));
    }
    assert(shifted(data, d).filter(shifted_pred) =~= shifted(data.filter(pred), d));
}

/// Adding the same amount to all elements adds it to the filtered mean.
pub proof fn filtered_mean_of_shifted(data: Seq<u16>, std_deviations: u16, d: u16)
    requires
        forall|i: int| 0 <= i < data.len() ==> #[trigger] data[i] + d <= u16::MAX,
    ensures
        match mean_of_near(data, std_deviations) {
            None => mean_of_near(shifted(data, d), std_deviations) is None,
            Some(r) => mean_of_near(shifted(data, d), std_deviations) matches Some(t) && t == r + d,
        },
{
    if data.len() == 1 {
        assert(data[0] + d <= u16::MAX);
    } else if data.len() >= 2 {
        let moved = shifted(data, d);
        sum_of_shifted(data, d);
        let (s, n, more) = (sum(data) as int, data.len() as int, d as int);
        assert((s + n * more) / n == s / n + more) by (nonlinear_arith)
            requires
                n > 0,
        ;
        assert(mean(moved) == mean(data) + d);
        lemma_shifted_distances(data, d, mean(data));
        let pred = |e: u16| near_mean(data, std_deviations, e);
        let moved_pred = |e: u16| near_mean(moved, std_deviations, e);
        assert forall|i: int| 0 <= i < data.len() implies #[trigger] data[i] + d <= u16::MAX
            && pred(data[i]) == moved_pred((data[i] + d) as u16) by {
            assert((data[i] + d) as u16 - mean(moved) == data[i] - mean(data));
        }
        lemma_shifted_filter(data, d, pred, moved_pred);
        let kept = near_elements(data, std_deviations);
        if kept.len() > 0 {
            sum_of_shifted(kept, d);
            let (ks, kn) = (sum(kept) as int, kept.len() as int);
            assert((2 * (ks + kn * more) + kn) / (2 * kn) == (2 * ks + kn) / (2 * kn) + more)
                by (nonlinear_arith)
                requires
                    kn > 0,
            ;
            assert forall|i: int| 0 <= i < kept.len() implies 0 <= #[trigger] kept[i] <= 65535
                - d by {
                assert(kept[i] + d <= u16::MAX);
            }
            lemma_mean_bounds(kept, 0, 65535 - d);
        }
    }
}

} // verus!
