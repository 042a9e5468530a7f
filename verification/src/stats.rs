//! The aggregator: count, total, mean and standard deviation of the
//! durations of a list of videos.
//!
//! Mean and standard deviation are defined over the reals and then cut to
//! whole seconds. They are computed here in whole numbers, exactly.

use crate::arith::{floor_sqrt, is_floor_sqrt};
use crate::details::{durations, VideoDetail};
use crate::duration::{clock_seconds, clock_text, format_duration, lemma_clock_round_trip, ParseError};
use vstd::prelude::*;

verus! {

/// The sum of the numbers.
pub open spec fn sum(d: Seq<nat>) -> nat
    decreases d.len(),
{
    if d.len() == 0 {
        0
    } else {
        sum(d.drop_last()) + d.last()
    }
}

/// The sum of the squares of the numbers.
pub open spec fn sum_squares(d: Seq<nat>) -> nat
    decreases d.len(),
{
    if d.len() == 0 {
        0
    } else {
        sum_squares(d.drop_last()) + d.last() * d.last()
    }
}

/// The sum over the numbers `x` of the squares of `scale * x - offset`.
pub open spec fn sum_squared_offsets(d: Seq<nat>, scale: nat, offset: nat) -> nat
    decreases d.len(),
{
    if d.len() == 0 {
        0
    } else {
        sum_squared_offsets(d.drop_last(), scale, offset) + ((scale * d.last() - offset) * (scale
            * d.last() - offset)) as nat
    }
}

/// The squared distances of the numbers from their mean, added up and
/// multiplied by the square of their count: with `n` numbers of sum `t`,
/// the number `x` is `(n * x - t) / n` away from the mean `t / n`.
pub open spec fn scaled_squared_deviations(d: Seq<nat>) -> nat {
    sum_squared_offsets(d, d.len(), sum(d))
}

/// The mean of the numbers, cut to a whole number; 0 where there are none.
pub open spec fn truncated_mean(d: Seq<nat>) -> nat {
    if d.len() == 0 {
        0
    } else {
        sum(d) / d.len()
    }
}

/// Whether `k` is the population standard deviation of the numbers, cut to
/// a whole number: the variance is the mean of the squared distances from
/// the mean, and `k * k <= variance < (k + 1) * (k + 1)`. Of no numbers it
/// is 0.
pub open spec fn is_truncated_std(k: nat, d: Seq<nat>) -> bool {
    let n = d.len();
    if n == 0 {
        k == 0
    } else {
        k * k * (n * n * n) <= scaled_squared_deviations(d) < (k + 1) * (k + 1) * (n * n * n)
    }
}

/// The population standard deviation of the numbers, cut to a whole number.
pub open spec fn truncated_std(d: Seq<nat>) -> nat {
    choose|k: nat| is_truncated_std(k, d)
}

/// Whether the sums that the statistics of the numbers need are within 128
/// bits.
pub open spec fn in_range(d: Seq<nat>) -> bool {
    d.len() * sum_squares(d) <= u128::MAX
}

/// Count, total, mean and standard deviation of a list of durations, in
/// whole seconds.
#[derive(Clone, Copy, Debug, PartialEq, Eq, Structural)]
pub struct DurationStats {
    pub mean: u64,
    pub std: u64,
    pub total: u64,
    pub count: usize,
}

/// Whether `stats` are the statistics of the durations `d`.
pub open spec fn is_stats_of(stats: DurationStats, d: Seq<nat>) -> bool {
    &&& stats.count == d.len()
    &&& stats.total == sum(d)
    &&& stats.mean == truncated_mean(d)
    &&& stats.std == truncated_std(d)
}

/// The squares of a part of the numbers add up to no more than those of all.
pub proof fn lemma_sum_squares_prefix(d: Seq<nat>, k: int)
    requires
        0 <= k <= d.len(),
    ensures
        sum_squares(d.subrange(0, k)) <= sum_squares(d),
    decreases d.len() - k,
{
    if k == d.len() {
        assert(d.subrange(0, k) =~= d);
    } else {
        lemma_sum_squares_prefix(d, k + 1);
        assert(d.subrange(0, k + 1).drop_last() =~= d.subrange(0, k));
        assert(d[k] * d[k] >= 0) by (nonlinear_arith);
    }
}

/// At most one number is the truncated standard deviation.
pub proof fn lemma_truncated_std_unique(k: nat, j: nat, d: Seq<nat>)
    requires
        is_truncated_std(k, d),
        is_truncated_std(j, d),
    ensures
        k == j,
{
    let n = d.len();
    if n > 0 {
        let c = n * n * n;
        let v = scaled_squared_deviations(d);
        assert(c > 0) by (nonlinear_arith)
            requires
                c == n * n * n,
                n > 0,
        ;
        if k < j {
            assert((k + 1) * (k + 1) * c <= j * j * c) by (nonlinear_arith)
                requires
                    k + 1 <= j,
                    c > 0,
            ;
        }
        if j < k {
            assert((j + 1) * (j + 1) * c <= k * k * c) by (nonlinear_arith)
                requires
                    j + 1 <= k,
                    c > 0,
            ;
        }
    }
}

/// A number that is the truncated standard deviation is `truncated_std`.
pub proof fn lemma_truncated_std_is(k: nat, d: Seq<nat>)
    requires
        is_truncated_std(k, d),
    ensures
        truncated_std(d) == k,
{
    lemma_truncated_std_unique(k, truncated_std(d), d);
}

/// The squared offsets, multiplied out.
pub proof fn lemma_sum_squared_offsets(d: Seq<nat>, scale: nat, offset: nat)
    ensures
        sum_squared_offsets(d, scale, offset) == (scale * scale) * sum_squares(d) - (2 * scale
            * offset) * sum(d) + d.len() * (offset * offset),
    decreases d.len(),
{
    if d.len() > 0 {
        let rest = d.drop_last();
        lemma_sum_squared_offsets(rest, scale, offset);
        let x = d.last() as int;
        let a = sum_squares(rest) as int;
        let b = sum(rest) as int;
        let m = rest.len() as int;
        let s2 = (scale * scale) as int;
        let so = (2 * scale * offset) as int;
        let o2 = (offset * offset) as int;
        let p = (scale * d.last()) as int;
        let o = offset as int;
        assert((p - o) * (p - o) == p * p - 2 * p * o + o * o) by (nonlinear_arith);
        assert(p * p == s2 * (x * x)) by (nonlinear_arith)
            requires
                p == scale * x,
                s2 == scale * scale,
        ;
        assert(2 * p * o == so * x) by (nonlinear_arith)
            requires
                p == scale * x,
                so == 2 * scale * offset,
                o == offset,
        ;
        assert(s2 * (a + x * x) == s2 * a + s2 * (x * x)) by (nonlinear_arith);
        assert(so * (b + x) == so * b + so * x) by (nonlinear_arith);
        assert((m + 1) * o2 == m * o2 + o2) by (nonlinear_arith);
        assert((p - o) * (p - o) >= 0) by (nonlinear_arith);
        assert(sum_squares(d) == a + x * x);
        assert(sum(d) == b + x);
        assert(d.len() == m + 1);
        assert(sum_squared_offsets(rest, scale, offset) == s2 * a - so * b + m * o2);
        assert(sum_squared_offsets(d, scale, offset) == sum_squared_offsets(rest, scale, offset) + (p
            - o) * (p - o));
        assert(sum_squared_offsets(d, scale, offset) == s2 * (a + x * x) - so * (b + x) + (m + 1)
            * o2);
    } else {
        assert(sum_squared_offsets(d, scale, offset) == 0);
        assert(sum_squares(d) == 0);
        assert(sum(d) == 0);
    }
}

/// The squared deviations in terms of the two sums: with `n` numbers of sum
/// `t` and sum of squares `q`, they are `n * (n * q - t * t)`. So `t * t`
/// is at most `n * q`.
pub proof fn lemma_scaled_squared_deviations(d: Seq<nat>)
    ensures
        scaled_squared_deviations(d) == d.len() * (d.len() * sum_squares(d) - sum(d) * sum(d)),
        sum(d) * sum(d) <= d.len() * sum_squares(d),
{
    let n = d.len() as int;
    let t = sum(d) as int;
    let q = sum_squares(d) as int;
    lemma_sum_squared_offsets(d, d.len(), sum(d));
    assert((n * n) * q - (2 * n * t) * t + n * (t * t) == n * (n * q - t * t)) by (nonlinear_arith);
    if n > 0 {
        assert(n * q - t * t >= 0) by (nonlinear_arith)
            requires
                n * (n * q - t * t) >= 0,
                n > 0,
        ;
    } else {
        assert(d =~= Seq::<nat>::empty());
    }
}

/// The two sums of the durations of the videos: the durations themselves,
/// and their squares. Nothing where the squares exceed 128 bits.
fn sums(videos: &Vec<VideoDetail>) -> (sums: Option<(u128, u128)>)
    ensures
        sums is Some <==> sum_squares(durations(videos.deep_view())) <= u128::MAX,
        sums matches Some((total, squares)) ==> total == sum(durations(videos.deep_view())) && squares
            == sum_squares(durations(videos.deep_view())),
{
    let ghost d = durations(videos.deep_view());
    let n: usize = videos.len();
    let mut total: u128 = 0;
    let mut squares: u128 = 0;
    let mut i: usize = 0;
    assert(d.subrange(0, 0) =~= Seq::<nat>::empty());
    while i < n
        invariant
            n == videos.len(),
            d == durations(videos.deep_view()),
            i <= n,
            total == sum(d.subrange(0, i as int)),
            squares == sum_squares(d.subrange(0, i as int)),
            total <= i * u64::MAX,
        decreases n - i,
    {
        let x: u128 = videos[i].duration as u128;
        proof {
            let next = d.subrange(0, i + 1);
            assert(next.drop_last() =~= d.subrange(0, i as int));
            assert(next.last() == x);
            assert(x * x <= u64::MAX * u64::MAX) by (nonlinear_arith)
                requires
                    0 <= x <= u64::MAX,
            ;
            assert((i + 1) * u64::MAX == i * u64::MAX + u64::MAX) by (nonlinear_arith);
            assert(i * u64::MAX <= usize::MAX * u64::MAX) by (nonlinear_arith)
                requires
                    i <= usize::MAX,
            ;
        }
        match squares.checked_add(x * x) {
            Some(more) => {
                squares = more;
            },
            None => {
                proof {
                    lemma_sum_squares_prefix(d, i + 1);
                }
                return None;
            },
        }
        total = total + x;
        i = i + 1;
    }
    assert(d.subrange(0, n as int) =~= d);
    Some((total, squares))
}

/// Count, total, mean and standard deviation of the durations of the
/// videos, the last two cut to whole seconds; all 0 where there is no
/// video. Nothing where the sums that this takes exceed 128 bits.
pub fn calculate_pirula_stats(videos: &Vec<VideoDetail>) -> (stats: Option<DurationStats>)
    ensures
        stats is Some <==> in_range(durations(videos.deep_view())),
        stats matches Some(s) ==> is_stats_of(s, durations(videos.deep_view())),
{
    let ghost d = durations(videos.deep_view());
    let count: usize = videos.len();
    if count == 0 {
        proof {
            assert(d =~= Seq::<nat>::empty());
            lemma_truncated_std_is(0, d);
        }
        return Some(DurationStats { mean: 0, std: 0, total: 0, count: 0 });
    }
    let n: u128 = count as u128;
    let (total, squares) = match sums(videos) {
        Some(both) => both,
        None => {
            assert(n * sum_squares(d) >= sum_squares(d)) by (nonlinear_arith)
                requires
                    n >= 1,
            ;
            return None;
        },
    };
    let scaled: u128 = match n.checked_mul(squares) {
        Some(product) => product,
        None => {
            return None;
        },
    };
    proof {
        lemma_scaled_squared_deviations(d);
        assert(total < 0x1_0000_0000_0000_0000) by (nonlinear_arith)
            requires
                total * total <= u128::MAX,
                total >= 0,
        ;
    }
    let spread: u128 = scaled - total * total;
    let root: u64 = floor_sqrt(spread);
    let std: u64 = (root as u128 / n) as u64;
    let mean: u64 = (total / n) as u64;
    proof {
        let k = std as int;
        let r = root as int;
        let c = n as int;
        let v = spread as int;
        assert(k * c <= r < (k + 1) * c) by (nonlinear_arith)
            requires
                k == r / c,
                c > 0,
                r >= 0,
        ;
        assert((k * c) * (k * c) <= r * r) by (nonlinear_arith)
            requires
                0 <= k * c <= r,
        ;
        assert(((k + 1) * c) * ((k + 1) * c) >= (r + 1) * (r + 1)) by (nonlinear_arith)
            requires
                (k + 1) * c >= r + 1,
                r >= 0,
        ;
        assert(k * k * (c * c * c) == ((k * c) * (k * c)) * c) by (nonlinear_arith);
        assert((k + 1) * (k + 1) * (c * c * c) == (((k + 1) * c) * ((k + 1) * c)) * c)
            by (nonlinear_arith);
        assert(((k * c) * (k * c)) * c <= v * c) by (nonlinear_arith)
            requires
                (k * c) * (k * c) <= v,
                c > 0,
        ;
        assert((((k + 1) * c) * ((k + 1) * c)) * c > v * c) by (nonlinear_arith)
            requires
                ((k + 1) * c) * ((k + 1) * c) > v,
                c > 0,
        ;
        assert(scaled_squared_deviations(d) == c * v);
        assert(c * v == v * c) by (nonlinear_arith);
        assert(is_truncated_std(std as nat, d));
        lemma_truncated_std_is(std as nat, d);
    }
    Some(DurationStats { mean, std, total: total as u64, count })
}

/// The statistics of a run, as they are stored and shown: the three
/// durations as clock texts, and the number of videos.
#[derive(Debug)]
pub struct Statistics {
    pub mean_duration: String,
    pub std_duration: String,
    pub total_duration: String,
    pub total_count: usize,
}

/// `Statistics` with its texts as sequences of characters.
pub struct StatisticsView {
    pub mean_duration: Seq<char>,
    pub std_duration: Seq<char>,
    pub total_duration: Seq<char>,
    pub total_count: nat,
}

impl View for Statistics {
    type V = StatisticsView;

    open spec fn view(&self) -> StatisticsView {
        StatisticsView {
            mean_duration: self.mean_duration@,
            std_duration: self.std_duration@,
            total_duration: self.total_duration@,
            total_count: self.total_count as nat,
        }
    }
}

/// The statistics of the durations `d`, as they are stored and shown.
pub open spec fn statistics_of(d: Seq<nat>) -> StatisticsView {
    StatisticsView {
        mean_duration: clock_text(truncated_mean(d)),
        std_duration: clock_text(truncated_std(d)),
        total_duration: clock_text(sum(d)),
        total_count: d.len(),
    }
}

/// The statistics of no video at all are three times the zero duration and
/// the count 0.
pub proof fn lemma_statistics_of_nothing()
    ensures
        statistics_of(Seq::empty()) == (StatisticsView {
            mean_duration: clock_text(0),
            std_duration: clock_text(0),
            total_duration: clock_text(0),
            total_count: 0,
        }),
        clock_text(0) == seq!['0', '0', ':', '0', '0', ':', '0', '0'],
{
    lemma_truncated_std_is(0, Seq::empty());
    assert(clock_text(0) =~= seq!['0', '0', ':', '0', '0', ':', '0', '0']);
}

/// Durations whose statistics are in range have a sum, and so a mean, of
/// no more than 64 bits.
pub proof fn lemma_in_range_sum(d: Seq<nat>)
    requires
        in_range(d),
    ensures
        truncated_mean(d) <= sum(d) <= u64::MAX,
{
    lemma_scaled_squared_deviations(d);
    let t = sum(d);
    let n = d.len();
    assert(t <= u64::MAX) by (nonlinear_arith)
        requires
            t * t <= u128::MAX,
    ;
    if n > 0 {
        assert(t / n <= t) by (nonlinear_arith)
            requires
                n > 0,
        ;
    }
}

/// Reading the mean of stored statistics gives the truncated mean back.
pub proof fn lemma_stored_mean(d: Seq<nat>)
    requires
        in_range(d),
    ensures
        truncated_mean(d) <= u64::MAX,
        clock_seconds(statistics_of(d).mean_duration) == Ok::<u64, ParseError>(
            truncated_mean(d) as u64,
        ),
{
    lemma_in_range_sum(d);
    lemma_clock_round_trip(truncated_mean(d) as u64);
}

/// Writes the three durations as clock texts.
pub fn describe(stats: &DurationStats) -> (described: Statistics)
    ensures
        described@ == (StatisticsView {
            mean_duration: clock_text(stats.mean as nat),
            std_duration: clock_text(stats.std as nat),
            total_duration: clock_text(stats.total as nat),
            total_count: stats.count as nat,
        }),
{
    Statistics {
        mean_duration: format_duration(stats.mean),
        std_duration: format_duration(stats.std),
        total_duration: format_duration(stats.total),
        total_count: stats.count,
    }
}

/// The statistics of the videos, as they are stored and shown. Nothing where
/// the sums that this takes exceed 128 bits.
pub fn summarize(videos: &Vec<VideoDetail>) -> (stats: Option<Statistics>)
    ensures
        stats is Some <==> in_range(durations(videos.deep_view())),
        stats matches Some(s) ==> s@ == statistics_of(durations(videos.deep_view())),
{
    match calculate_pirula_stats(videos) {
        Some(stats) => Some(describe(&stats)),
        None => None,
    }
}

} // verus!
