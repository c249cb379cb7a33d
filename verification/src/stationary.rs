//! The rule that decides when the order parameter of a running simulation has
//! settled: a sliding window over the latest order values, and a cap on the
//! number of steps.

use std::collections::VecDeque;
use vstd::prelude::*;
use crate::math::{
    abs, div_toward_zero, lemma_mean_bounded, lemma_trunc_div_of_multiple, trunc_div,
};
use crate::simulation::SimulationError;
use crate::types::SCALE;

verus! {

/// Beyond this many steps the search for a stationary order parameter fails.
pub const MAX_STATIONARY_ORDER_PARAM_ITERATIONS: usize = 5000;

/// The number of order values that the sliding window holds.
pub const STATIONARY_ORDER_PARAM_AVG_WINDOWSIZE: usize = 100;

/// How close the newest order value must be to the mean of the window.
pub const STATIONARY_ORDER_EPSILON: i64 = 1_000;

/// The sum of a series of order values.
pub open spec fn series_sum(values: Seq<i64>) -> int
    decreases values.len(),
{
    if values.len() == 0 {
        0
    } else {
        series_sum(values.drop_last()) + values.last()
    }
}

/// The mean of a series of order values.
pub open spec fn series_mean(values: Seq<i64>) -> int {
    trunc_div(series_sum(values), values.len() as int)
}

/// The window after it has taken in one more value: a full window first lets go
/// of its oldest value.
pub open spec fn slid(window: Seq<i64>, value: i64) -> Seq<i64> {
    if window.len() >= STATIONARY_ORDER_PARAM_AVG_WINDOWSIZE {
        window.subrange(1, window.len() as int).push(value)
    } else {
        window.push(value)
    }
}

/// The window is full and its newest value lies within epsilon of its mean.
pub open spec fn is_settled(window: Seq<i64>) -> bool {
    &&& window.len() == STATIONARY_ORDER_PARAM_AVG_WINDOWSIZE
    &&& abs(window.last() - series_mean(window)) <= STATIONARY_ORDER_EPSILON
}

/// Every value of the series is an order parameter.
pub open spec fn all_orders(values: Seq<i64>) -> bool {
    forall|i: int| 0 <= i < values.len() ==> 0 <= #[trigger] values[i] <= SCALE
}

/// The window once the first `k` values of a series have gone through it.
pub open spec fn window_at(series: Seq<i64>, k: int) -> Seq<i64> {
    if k > STATIONARY_ORDER_PARAM_AVG_WINDOWSIZE {
        series.subrange(k - STATIONARY_ORDER_PARAM_AVG_WINDOWSIZE, k)
    } else {
        series.subrange(0, k)
    }
}

/// What the rule makes of a series of which the first `k` values have not
/// settled it: the mean of the window at the first value that settles it, or
/// `NonConvergence` where the series or the cap ends before that.
pub open spec fn outcome_from(series: Seq<i64>, k: int) -> Result<i64, SimulationError>
    decreases series.len() - k,
{
    if k >= series.len() || k >= MAX_STATIONARY_ORDER_PARAM_ITERATIONS {
        Err(
            SimulationError::NonConvergence {
                max_iterations: MAX_STATIONARY_ORDER_PARAM_ITERATIONS,
            },
        )
    } else if is_settled(window_at(series, k + 1)) {
        Ok(series_mean(window_at(series, k + 1)) as i64)
    } else {
        outcome_from(series, k + 1)
    }
}

/// The stationary order parameter that a series of instantaneous order values
/// gives, one value for each step.
pub open spec fn stationary_outcome(series: Seq<i64>) -> Result<i64, SimulationError> {
    outcome_from(series, 0)
}

/// The sum grows by the value that is appended.
pub proof fn lemma_series_sum_push(values: Seq<i64>, value: i64)
    ensures
        series_sum(values.push(value)) == series_sum(values) + value,
{
    assert(values.push(value).drop_last() =~= values);
}

/// The sum of `n` values lies between `n` times the least and `n` times the
/// largest 64-bit integer.
pub proof fn lemma_series_sum_bounds(values: Seq<i64>)
    ensures
        values.len() * i64::MIN <= series_sum(values) <= values.len() * i64::MAX,
    decreases values.len(),
{
    if values.len() > 0 {
        lemma_series_sum_bounds(values.drop_last());
    }
}

/// The sum of `n` order values lies between zero and `n`.
pub proof fn lemma_order_sum_bounds(values: Seq<i64>)
    requires
        all_orders(values),
    ensures
        0 <= series_sum(values) <= values.len() * SCALE,
    decreases values.len(),
{
    if values.len() > 0 {
        let rest = values.drop_last();
        assert forall|i: int| 0 <= i < rest.len() implies 0 <= #[trigger] rest[i] <= SCALE by {
            assert(rest[i] == values[i]);
        }
        lemma_order_sum_bounds(rest);
        assert(0 <= values[values.len() - 1] <= SCALE);
    }
}

/// The mean of order values is an order parameter.
pub proof fn lemma_order_mean_in_range(values: Seq<i64>)
    requires
        values.len() > 0,
        all_orders(values),
    ensures
        0 <= series_mean(values) <= SCALE,
{
    lemma_order_sum_bounds(values);
    lemma_mean_bounded(series_sum(values), values.len() as int, 0, SCALE as int);
}

/// One more value takes the window of the first `k` values of a series to the
/// window of the first `k + 1`.
pub proof fn lemma_window_slides(series: Seq<i64>, k: int)
    requires
        0 <= k < series.len(),
    ensures
        slid(window_at(series, k), series[k]) == window_at(series, k + 1),
{
    assert(slid(window_at(series, k), series[k]) =~= window_at(series, k + 1));
}

/// Order values stay order values when the window takes in another one.
pub proof fn lemma_slid_keeps_orders(window: Seq<i64>, value: i64)
    requires
        all_orders(window),
        0 <= value <= SCALE,
    ensures
        all_orders(slid(window, value)),
{
}

/// Where none of the first `k` values settles the window, the outcome of the
/// series is decided by what follows them.
pub proof fn lemma_outcome_skips_unsettled(series: Seq<i64>, k: int)
    requires
        0 <= k <= series.len(),
        k <= MAX_STATIONARY_ORDER_PARAM_ITERATIONS,
        forall|j: int| 1 <= j <= k ==> !is_settled(#[trigger] window_at(series, j)),
    ensures
        stationary_outcome(series) == outcome_from(series, k),
    decreases k,
{
    if k > 0 {
        lemma_outcome_skips_unsettled(series, k - 1);
        assert(!is_settled(window_at(series, k)));
    }
}

/// The window of the first `k` values does not depend on what follows them.
pub proof fn lemma_window_of_prefix(series: Seq<i64>, value: i64, k: int)
    requires
        0 <= k <= series.len(),
    ensures
        window_at(series.push(value), k) == window_at(series, k),
{
    assert(window_at(series.push(value), k) =~= window_at(series, k));
}

/// The sum of `n` copies of a value is `n` times the value.
pub proof fn lemma_constant_series_sum(values: Seq<i64>, value: i64)
    requires
        forall|i: int| 0 <= i < values.len() ==> #[trigger] values[i] == value,
    ensures
        series_sum(values) == values.len() * value,
    decreases values.len(),
{
    let n = values.len() as int;
    if n == 0 {
        assert(0 * value == 0) by (nonlinear_arith);
    } else {
        let rest = values.drop_last();
        assert forall|i: int| 0 <= i < rest.len() implies #[trigger] rest[i] == value by {
            assert(rest[i] == values[i]);
        }
        lemma_constant_series_sum(rest, value);
        assert(values[n - 1] == value);
        assert((n - 1) * value + value == n * value) by (nonlinear_arith);
    }
}

/// A series that holds one value throughout settles on that value as soon as
/// the window is full; a shorter one does not settle.
pub proof fn lemma_constant_series_outcome(series: Seq<i64>, value: i64)
    requires
        forall|i: int| 0 <= i < series.len() ==> #[trigger] series[i] == value,
    ensures
        stationary_outcome(series) == (if series.len() >= STATIONARY_ORDER_PARAM_AVG_WINDOWSIZE {
            Ok::<i64, SimulationError>(value)
        } else {
            Err::<i64, SimulationError>(
                SimulationError::NonConvergence {
                    max_iterations: MAX_STATIONARY_ORDER_PARAM_ITERATIONS,
                },
            )
        }),
{
    if series.len() >= STATIONARY_ORDER_PARAM_AVG_WINDOWSIZE {
        assert forall|j: int| 1 <= j <= 99 implies !is_settled(#[trigger] window_at(series, j)) by {
            assert(window_at(series, j).len() == j);
        }
        lemma_outcome_skips_unsettled(series, 99);
        let window = window_at(series, 100);
        assert(window.len() == 100);
        assert forall|i: int| 0 <= i < window.len() implies #[trigger] window[i] == value by {
            assert(window[i] == series[i]);
        }
        lemma_constant_series_sum(window, value);
        lemma_trunc_div_of_multiple(value as int, 100);
        assert(window.last() == value);
        assert(is_settled(window));
    } else {
        assert forall|j: int| 1 <= j <= series.len() implies !is_settled(
            #[trigger] window_at(series, j),
        ) by {
            assert(window_at(series, j).len() == j);
        }
        lemma_outcome_skips_unsettled(series, series.len() as int);
    }
}

/// A sliding window over the latest instantaneous order values.
pub struct OrderWindow {
    values: VecDeque<i64>,
}

impl View for OrderWindow {
    type V = Seq<i64>;

    closed spec fn view(&self) -> Seq<i64> {
        self.values@
    }
}

impl OrderWindow {
    /// An empty window.
    pub fn new() -> (r: OrderWindow)
        ensures
            r@ == Seq::<i64>::empty(),
    {
        OrderWindow { values: VecDeque::with_capacity(STATIONARY_ORDER_PARAM_AVG_WINDOWSIZE) }
    }

    /// The mean of the values in the window.
    pub fn mean(&self) -> (r: i64)
        requires
            self@.len() > 0,
        ensures
            r == series_mean(self@),
    {
        let n = self.values.len();
        let mut sum: i128 = 0;
        let mut k: usize = 0;
        proof {
            assert(self@.take(0) =~= Seq::<i64>::empty());
        }
        while k < n
            invariant
                k <= n,
                n == self@.len(),
                sum == series_sum(self@.take(k as int)),
                k * i64::MIN <= sum <= k * i64::MAX,
            decreases n - k,
        {
            let value = self.values[k];
            proof {
                assert(self@.take(k + 1) =~= self@.take(k as int).push(self@[k as int]));
                lemma_series_sum_push(self@.take(k as int), self@[k as int]);
            }
            sum = sum + value as i128;
            k = k + 1;
        }
        proof {
            assert(self@.take(n as int) =~= self@);
            lemma_mean_bounded(sum as int, n as int, i64::MIN as int, i64::MAX as int);
        }
        div_toward_zero(sum, n as i128) as i64
    }

    /// Takes in the order value of one more step. Returns the stationary order
    /// parameter, the mean of the window, once the window is full and the new
    /// value lies within epsilon of that mean.
    pub fn observe(&mut self, order: i64) -> (r: Option<i64>)
        ensures
            final(self)@ == slid(old(self)@, order),
            r == (if is_settled(final(self)@) {
                Some(series_mean(final(self)@) as i64)
            } else {
                None::<i64>
            }),
    {
        // Keep track of the values over time for a sliding average.
        if self.values.len() >= STATIONARY_ORDER_PARAM_AVG_WINDOWSIZE {
            self.values.pop_front();
        }
        self.values.push_back(order);
        if self.values.len() != STATIONARY_ORDER_PARAM_AVG_WINDOWSIZE {
            return None;
        }
        let stationary_order_parameter = self.mean();
        let gap: i128 = order as i128 - stationary_order_parameter as i128;
        if -(STATIONARY_ORDER_EPSILON as i128) <= gap && gap <= STATIONARY_ORDER_EPSILON as i128 {
            Some(stationary_order_parameter)
        } else {
            None
        }
    }
}

/// The stationary order parameter that a recorded series of instantaneous order
/// values gives, one value for each step: the mean of the window at the first
/// step that settles it. Fails with `NonConvergence` where none of the first
/// `MAX_STATIONARY_ORDER_PARAM_ITERATIONS` values does.
pub fn stationary_order_of_series(series: &Vec<i64>) -> (r: Result<i64, SimulationError>)
    ensures
        r == stationary_outcome(series@),
{
    let mut window = OrderWindow::new();
    let mut k: usize = 0;
    proof {
        assert(window_at(series@, 0) =~= Seq::<i64>::empty());
    }
    while k < series.len() && k < MAX_STATIONARY_ORDER_PARAM_ITERATIONS
        invariant
            k <= series@.len(),
            k <= MAX_STATIONARY_ORDER_PARAM_ITERATIONS,
            window@ == window_at(series@, k as int),
            stationary_outcome(series@) == outcome_from(series@, k as int),
        decreases series@.len() - k,
    {
        proof {
            lemma_window_slides(series@, k as int);
        }
        match window.observe(series[k]) {
            Some(stationary_order_parameter) => {
                return Ok(stationary_order_parameter);
            },
            None => {},
        }
        k = k + 1;
    }
    Err(SimulationError::NonConvergence { max_iterations: MAX_STATIONARY_ORDER_PARAM_ITERATIONS })
}

} // verus!
