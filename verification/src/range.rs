//! The finite window over which a distribution is worth plotting.
//!
//! A continuous distribution is plotted between two of its quantiles, unless
//! one of them is infinite. For a discrete distribution the window is searched
//! for along its cumulative function, one evaluation at a time and within a
//! budget of evaluations: [`RangeSearch`] says which point to evaluate next and
//! takes the value back, so that whoever owns the distribution runs the loop.

use crate::double::{lemma_rounds_by_fields, Double};
use vstd::arithmetic::power2::{lemma2_to64, lemma2_to64_rest, lemma_pow2_adds};
use vstd::prelude::*;

verus! {

/// The bit pattern of 0.0001, the level of the quantile at which the window
/// of a continuous distribution starts.
pub const LOWER_QUANTILE: u64 = 0x3F1A_36E2_EB1C_432D;

/// The bit pattern of 0.9999, the level of the quantile at which the window
/// of a continuous distribution ends.
pub const UPPER_QUANTILE: u64 = 0x3FEF_FF2E_48E8_A71E;

/// The bit pattern of 0.001: the window of a discrete distribution starts one
/// point before the cumulative function first reaches this.
pub const LOWER_TAIL: u64 = 0x3F50_624D_D2F1_A9FC;

/// The bit pattern of 0.999: the window of a discrete distribution ends where
/// the cumulative function first reaches this.
pub const UPPER_TAIL: u64 = 0x3FEF_F7CE_D916_872B;

/// The budget of evaluations that a search gets where nothing else is asked.
pub const DEFAULT_BUDGET: u64 = 10_000_000;

/// The thresholds are the numbers that their names say, as near as a binary64
/// number comes to them: a ten-thousandth and one less a ten-thousandth for
/// the quantiles, a thousandth and one less a thousandth for the tails.
pub proof fn lemma_thresholds()
    ensures
        (Double { bits: LOWER_QUANTILE }).rounds(1, 10000),
        (Double { bits: UPPER_QUANTILE }).rounds(9999, 10000),
        (Double { bits: LOWER_TAIL }).rounds(1, 1000),
        (Double { bits: UPPER_TAIL }).rounds(999, 1000),
{
    lemma2_to64();
    lemma2_to64_rest();
    lemma_pow2_adds(2, 64);
    lemma_rounds_by_fields(Double { bits: LOWER_QUANTILE }, 1, 10000, 66);
    lemma_rounds_by_fields(Double { bits: UPPER_QUANTILE }, 9999, 10000, 53);
    lemma_rounds_by_fields(Double { bits: LOWER_TAIL }, 1, 1000, 62);
    lemma_rounds_by_fields(Double { bits: UPPER_TAIL }, 999, 1000, 53);
}

/// The window of a continuous distribution whose quantiles at the levels
/// [`LOWER_QUANTILE`] and [`UPPER_QUANTILE`] are `lo` and `hi`: the two, unless
/// one of them is infinite. Then there is no finite window, which is no error.
pub fn resolve_range(lo: Double, hi: Double) -> (window: Option<(Double, Double)>)
    ensures
        window == if lo.infinite() || hi.infinite() {
            None
        } else {
            Some((lo, hi))
        },
{
    if lo.is_infinite() || hi.is_infinite() {
        None
    } else {
        Some((lo, hi))
    }
}

/// The highest of `floor` and the values, as found by going through the
/// values in their order and keeping one only where it is above what is
/// kept so far. A value that is not a number is never kept.
pub open spec fn highest(floor: Double, values: Seq<Double>) -> Double
    decreases values.len(),
{
    if values.len() == 0 {
        floor
    } else {
        let before = highest(floor, values.drop_last());
        if before.lt_spec(values.last()) {
            values.last()
        } else {
            before
        }
    }
}

/// The height that a plot of these values needs, and `floor` at least.
pub fn tallest(floor: Double, values: &Vec<Double>) -> (top: Double)
    ensures
        top == highest(floor, values@),
{
    let mut top: Double = floor;
    let mut i: usize = 0;
    while i < values.len()
        invariant
            i <= values.len(),
            top == highest(floor, values@.take(i as int)),
        decreases values.len() - i,
    {
        proof {
            assert(values@.take(i + 1).drop_last() =~= values@.take(i as int));
        }
        if top.lt(&values[i]) {
            top = values[i];
        }
        i += 1;
    }
    proof {
        assert(values@.take(i as int) =~= values@);
    }
    top
}

/// Nothing is above the highest: where `floor` is a number, so is the
/// highest, it is `floor` or one of the values, and neither `floor` nor any
/// value is above it.
pub proof fn lemma_highest_is_on_top(floor: Double, values: Seq<Double>)
    requires
        !floor.nan(),
    ensures
        !highest(floor, values).nan(),
        highest(floor, values) == floor || values.contains(highest(floor, values)),
        floor.le_spec(highest(floor, values)),
        forall|i: int| 0 <= i < values.len() ==> !highest(floor, values).lt_spec(#[trigger] values[i]),
    decreases values.len(),
{
    if values.len() > 0 {
        let front = values.drop_last();
        lemma_highest_is_on_top(floor, front);
        let before = highest(floor, front);
        let top = highest(floor, values);
        if before != floor {
            let at = choose|i: int| 0 <= i < front.len() && front[i] == before;
            assert(values[at] == before);
        }
        assert(values[values.len() - 1] == values.last());
        assert forall|i: int| 0 <= i < values.len() implies !top.lt_spec(#[trigger] values[i]) by {
            if i < values.len() - 1 {
                assert(front[i] == values[i]);
            }
        }
    }
}

/// Where a search stands.
#[derive(Clone, Copy, Debug, PartialEq, Eq, Structural)]
pub enum Stage {
    /// Every point below `at` has a cumulative value under the lower
    /// threshold; the value at `at` is awaited.
    Lower { at: u64 },
    /// `first` is the first point whose cumulative value is not under the
    /// lower threshold. Every point after the start of the window and before
    /// `at` has a cumulative value under the upper threshold; the value at
    /// `at` is awaited.
    Upper { first: u64, at: u64 },
    /// The window is from `min` to `max`, both included.
    Found { min: u64, max: u64 },
    /// The budget was used up before the window was found.
    Exhausted,
}

/// The search for the window of a discrete distribution: where it stands, how
/// many evaluations it has asked for, and how many it may ask for.
#[derive(Clone, Copy, Debug, PartialEq, Eq, Structural)]
pub struct RangeSearch {
    pub stage: Stage,
    pub spent: u64,
    pub budget: u64,
}

/// How a search ended.
#[derive(Clone, Copy, Debug, PartialEq, Eq, Structural)]
pub enum Resolution {
    /// The window, both ends included.
    Window { min: u64, max: u64 },
    /// The budget of evaluations did not suffice.
    BudgetExceeded,
}

/// Whether a cumulative value is under the lower threshold.
pub open spec fn under_lower(value: Double) -> bool {
    value.lt_spec(Double { bits: LOWER_TAIL })
}

/// Whether a cumulative value is under the upper threshold.
pub open spec fn under_upper(value: Double) -> bool {
    value.lt_spec(Double { bits: UPPER_TAIL })
}

/// The start of the window, given the first point whose cumulative value is
/// not under the lower threshold: one point before it, to show the last point
/// under the threshold too, but not before zero.
pub open spec fn window_start(first: u64) -> u64 {
    if first == 0 {
        0
    } else {
        (first - 1) as u64
    }
}

impl RangeSearch {
    /// A search at its start: the value at zero is awaited, unless the budget
    /// allows for no evaluation at all.
    pub open spec fn start(budget: u64) -> RangeSearch {
        if budget == 0 {
            RangeSearch { stage: Stage::Exhausted, spent: 0, budget }
        } else {
            RangeSearch { stage: Stage::Lower { at: 0 }, spent: 1, budget }
        }
    }

    /// The point whose cumulative value the search awaits, if it has not ended.
    pub open spec fn awaited(self) -> Option<u64> {
        match self.stage {
            Stage::Lower { at } => Some(at),
            Stage::Upper { first, at } => Some(at),
            _ => None,
        }
    }

    /// The search moved on to await the value at `stage`'s point, if another
    /// evaluation is within the budget; else the search exhausted.
    pub open spec fn ask(self, stage: Stage) -> RangeSearch {
        if self.spent < self.budget {
            RangeSearch { stage, spent: (self.spent + 1) as u64, budget: self.budget }
        } else {
            RangeSearch { stage: Stage::Exhausted, spent: self.spent, budget: self.budget }
        }
    }

    /// The search after it was told the cumulative value at the point that it
    /// awaited. A search that has ended stays as it is.
    pub open spec fn after(self, value: Double) -> RangeSearch {
        match self.stage {
            Stage::Lower { at } => {
                if !under_lower(value) {
                    self.ask(Stage::Upper { first: at, at: (window_start(at) + 1) as u64 })
                } else if at < u64::MAX {
                    self.ask(Stage::Lower { at: (at + 1) as u64 })
                } else {
                    RangeSearch { stage: Stage::Exhausted, spent: self.spent, budget: self.budget }
                }
            },
            Stage::Upper { first, at } => {
                if under_upper(value) && at < u64::MAX {
                    self.ask(Stage::Upper { first, at: (at + 1) as u64 })
                } else {
                    RangeSearch {
                        stage: Stage::Found { min: window_start(first), max: at },
                        spent: self.spent,
                        budget: self.budget,
                    }
                }
            },
            _ => self,
        }
    }

    /// A search that may ask for `budget` evaluations.
    pub fn new(budget: u64) -> (search: RangeSearch)
        ensures
            search == RangeSearch::start(budget),
    {
        if budget == 0 {
            RangeSearch { stage: Stage::Exhausted, spent: 0, budget }
        } else {
            RangeSearch { stage: Stage::Lower { at: 0 }, spent: 1, budget }
        }
    }

    /// The point at which the cumulative function is to be evaluated next, or
    /// `None` when the search has ended.
    pub fn wanted(&self) -> (point: Option<u64>)
        ensures
            point == self.awaited(),
    {
        match self.stage {
            Stage::Lower { at } => Some(at),
            Stage::Upper { first, at } => Some(at),
            _ => None,
        }
    }

    /// How the search ended, or `None` while it awaits a value.
    pub fn outcome(&self) -> (end: Option<Resolution>)
        ensures
            end == match self.stage {
                Stage::Found { min, max } => Some(Resolution::Window { min, max }),
                Stage::Exhausted => Some(Resolution::BudgetExceeded),
                _ => None,
            },
    {
        match self.stage {
            Stage::Found { min, max } => Some(Resolution::Window { min, max }),
            Stage::Exhausted => Some(Resolution::BudgetExceeded),
            _ => None,
        }
    }

    fn asking(&self, stage: Stage) -> (next: RangeSearch)
        ensures
            next == self.ask(stage),
    {
        if self.spent < self.budget {
            RangeSearch { stage, spent: self.spent + 1, budget: self.budget }
        } else {
            RangeSearch { stage: Stage::Exhausted, spent: self.spent, budget: self.budget }
        }
    }

    /// Tells the search the cumulative value at the point that it awaited.
    pub fn feed(&mut self, value: Double)
        ensures
            *final(self) == old(self).after(value),
    {
        let lower = Double { bits: LOWER_TAIL };
        let upper = Double { bits: UPPER_TAIL };
        match self.stage {
            Stage::Lower { at } => {
                if !value.lt(&lower) {
                    let start: u64 = if at == 0 {
                        0
                    } else {
                        at - 1
                    };
                    *self = self.asking(Stage::Upper { first: at, at: start + 1 });
                } else if at < u64::MAX {
                    *self = self.asking(Stage::Lower { at: at + 1 });
                } else {
                    self.stage = Stage::Exhausted;
                }
            },
            Stage::Upper { first, at } => {
                if value.lt(&upper) && at < u64::MAX {
                    *self = self.asking(Stage::Upper { first, at: at + 1 });
                } else {
                    let min: u64 = if first == 0 {
                        0
                    } else {
                        first - 1
                    };
                    self.stage = Stage::Found { min, max: at };
                }
            },
            _ => {},
        }
    }
}

/// Whether `first` is the first point at which the cumulative function `c`
/// is not under the lower threshold.
pub open spec fn reaches_lower_at(c: spec_fn(u64) -> Double, first: u64) -> bool {
    &&& forall|k: u64| k < first ==> under_lower(#[trigger] c(k))
    &&& !under_lower(c(first))
}

/// Whether `max` is the first point after `min` at which the cumulative
/// function `c` is not under the upper threshold, or the last point there is
/// where no such point exists.
pub open spec fn reaches_upper_at(c: spec_fn(u64) -> Double, min: u64, max: u64) -> bool {
    &&& min < max
    &&& forall|k: u64| min < k < max ==> under_upper(#[trigger] c(k))
    &&& !under_upper(c(max)) || max == u64::MAX
}

/// Whether the window of the cumulative function `c` is from one point before
/// `first`, but not before zero, to `max`.
pub open spec fn resolves(c: spec_fn(u64) -> Double, first: u64, max: u64) -> bool {
    reaches_lower_at(c, first) && reaches_upper_at(c, window_start(first), max)
}

/// How many evaluations the search needs to find that window: the points from
/// zero to `first`, then those from the start of the window, not included, to
/// `max`.
pub open spec fn evaluations(first: u64, max: u64) -> int {
    first + 1 + (max - window_start(first))
}

/// Whether the window of `c` is from `min` to `max`, with `first` the first
/// point not under the lower threshold, and is found within `budget`
/// evaluations.
pub open spec fn within_budget(
    c: spec_fn(u64) -> Double,
    first: u64,
    min: u64,
    max: u64,
    budget: u64,
) -> bool {
    &&& resolves(c, first, max)
    &&& min == window_start(first)
    &&& evaluations(first, max) <= budget
}

impl RangeSearch {
    /// The search after at most `steps` more evaluations of the cumulative
    /// function `c`, each at the point that the search awaits.
    pub open spec fn run(self, c: spec_fn(u64) -> Double, steps: nat) -> RangeSearch
        decreases steps,
    {
        if steps == 0 {
            self
        } else {
            match self.awaited() {
                Some(k) => self.after(c(k)).run(c, (steps - 1) as nat),
                None => self,
            }
        }
    }

    /// Whether the search is where a search along `c` can be: what the stage
    /// says of the points seen so far is true of `c`, the evaluations asked for
    /// are those of the points seen, and a search that has ended has ended
    /// rightly.
    pub open spec fn explains(self, c: spec_fn(u64) -> Double) -> bool {
        match self.stage {
            Stage::Lower { at } => {
                &&& forall|k: u64| k < at ==> under_lower(#[trigger] c(k))
                &&& self.spent == at + 1
                &&& self.spent <= self.budget
            },
            Stage::Upper { first, at } => {
                &&& reaches_lower_at(c, first)
                &&& window_start(first) < at
                &&& forall|k: u64| window_start(first) < k < at ==> under_upper(#[trigger] c(k))
                &&& self.spent == evaluations(first, at)
                &&& self.spent <= self.budget
            },
            Stage::Found { min, max } => exists|first: u64| #[trigger]
                within_budget(c, first, min, max, self.budget),
            Stage::Exhausted => forall|first: u64, max: u64| #[trigger]
                resolves(c, first, max) ==> evaluations(first, max) > self.budget,
        }
    }
}

/// Only one point is the first at which a cumulative function is not under
/// the lower threshold.
pub proof fn lemma_lower_end_is_unique(c: spec_fn(u64) -> Double, a: u64, b: u64)
    requires
        reaches_lower_at(c, a),
        reaches_lower_at(c, b),
    ensures
        a == b,
{
    if a < b {
        assert(under_lower(c(a)));
    }
    if b < a {
        assert(under_lower(c(b)));
    }
}

/// One evaluation keeps a search where a search along `c` can be, and either
/// ends it or counts as one evaluation more.
pub proof fn lemma_step_explains(search: RangeSearch, c: spec_fn(u64) -> Double)
    requires
        search.explains(c),
        search.awaited() is Some,
    ensures
        search.after(c(search.awaited().unwrap())).explains(c),
        search.after(c(search.awaited().unwrap())).budget == search.budget,
        search.after(c(search.awaited().unwrap())).awaited() is Some ==> search.after(
            c(search.awaited().unwrap()),
        ).spent == search.spent + 1,
{
    let next = search.after(c(search.awaited().unwrap()));
    match search.stage {
        Stage::Lower { at } => {
            if !under_lower(c(at)) {
                assert(reaches_lower_at(c, at));
                if search.spent >= search.budget {
                    assert forall|first: u64, max: u64| #[trigger]
                        resolves(c, first, max) implies evaluations(first, max)
                        > search.budget by {
                        lemma_lower_end_is_unique(c, first, at);
                    }
                }
            } else {
                if at < u64::MAX && search.spent < search.budget {
                    assert forall|k: u64| k < at + 1 implies under_lower(#[trigger] c(k)) by {
                        if k == at {
                        }
                    }
                } else {
                    assert forall|first: u64, max: u64| #[trigger]
                        resolves(c, first, max) implies evaluations(first, max)
                        > search.budget by {
                        if first <= at {
                            if first < at {
                                assert(under_lower(c(first)));
                            }
                        }
                    }
                }
            }
            assert(next.explains(c));
        },
        Stage::Upper { first, at } => {
            if under_upper(c(at)) && at < u64::MAX {
                if search.spent < search.budget {
                    assert forall|k: u64| window_start(first) < k < at + 1 implies under_upper(
                        #[trigger] c(k),
                    ) by {
                        if k == at {
                        }
                    }
                } else {
                    assert forall|other: u64, max: u64| #[trigger]
                        resolves(c, other, max) implies evaluations(other, max)
                        > search.budget by {
                        lemma_lower_end_is_unique(c, other, first);
                        if max <= at {
                            if max < at {
                                assert(under_upper(c(max)));
                            }
                        }
                    }
                }
            } else {
                assert(next.stage matches Stage::Found { min, max } && within_budget(
                    c,
                    first,
                    min,
                    max,
                    next.budget,
                ));
            }
            assert(next.explains(c));
        },
        _ => {},
    }
}

/// Along every cumulative function a search ends within its budget: after as
/// many evaluations as the budget still allows it has ended, and it has ended
/// rightly.
pub proof fn lemma_run_ends(search: RangeSearch, c: spec_fn(u64) -> Double, steps: nat)
    requires
        search.explains(c),
        search.awaited() is Some ==> search.spent + steps > search.budget,
    ensures
        search.run(c, steps).awaited() is None,
        search.run(c, steps).explains(c),
        search.run(c, steps).budget == search.budget,
    decreases steps,
{
    if search.awaited() is Some {
        lemma_step_explains(search, c);
        let next = search.after(c(search.awaited().unwrap()));
        lemma_run_ends(next, c, (steps - 1) as nat);
    } else if steps > 0 {
    }
}

/// What a search finds. Run along the cumulative function `c` for as many
/// evaluations as its budget allows, a search has ended. It has found a window
/// exactly where `c` has one that is within the budget: the window starts one
/// point before the first point whose cumulative value is not under the lower
/// threshold (at zero, where that point is zero), and ends at the first point
/// after its start whose cumulative value is not under the upper threshold.
/// Where the budget does not suffice for that window, or `c` has none, the
/// search is exhausted: it never goes on without end.
pub proof fn lemma_search_outcome(c: spec_fn(u64) -> Double, budget: u64)
    ensures
        ({
            let end = RangeSearch::start(budget).run(c, budget as nat);
            match end.stage {
                Stage::Found { min, max } => exists|first: u64| #[trigger]
                    within_budget(c, first, min, max, budget),
                Stage::Exhausted => forall|first: u64, max: u64| #[trigger]
                    resolves(c, first, max) ==> evaluations(first, max) > budget,
                _ => false,
            }
        }),
{
    let start = RangeSearch::start(budget);
    lemma_run_ends(start, c, budget as nat);
}

} // verus!
