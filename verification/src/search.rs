//! The pattern search for a root: which way to move, and for how long.
//!
//! The search keeps an estimate and two step lengths, one along the real
//! axis and one along the imaginary axis. A step looks at the four points
//! diagonally off the estimate and moves to the first that brings the value
//! of the polynomial closer to zero. The steps are counted in rounds: an
//! outer round for each length of the real step, and inner rounds in it for
//! the lengths of the imaginary step. A value is closer to zero than another
//! where its squared magnitude comes first in the total order.

use vstd::prelude::*;
use crate::complex::Complex;
use crate::arithmetic::{added, defined, magnitude_squared, plus, squared_magnitude};
use crate::polynomial::{evaluates_to, zero_coefficient, Polynomial};
use crate::scalar::Scalar;

verus! {

/// The length of both steps when the usual search begins: the encoding of
/// ten to the twentieth.
pub const FIRST_STEP_BITS: u64 = 0x4415_AF1D_78B5_8C40;

/// The number of outer rounds of the usual search.
pub const OUTER_ROUNDS: u32 = 150;

/// The number of inner rounds in each outer round of the usual search.
pub const INNER_ROUNDS: u32 = 150;

/// One of the four points that a step looks at, by the signs of the real and
/// the imaginary step that lead to it. They are looked at in this order.
#[derive(Clone, Copy, Debug, PartialEq, Eq)]
pub enum Probe {
    PlusPlus,
    MinusPlus,
    PlusMinus,
    MinusMinus,
}

impl Probe {
    /// Whether the real step is taken backwards.
    pub open spec fn spec_re_negated(self) -> bool {
        self == Probe::MinusPlus || self == Probe::MinusMinus
    }

    /// Whether the imaginary step is taken backwards.
    pub open spec fn spec_im_negated(self) -> bool {
        self == Probe::PlusMinus || self == Probe::MinusMinus
    }

    /// The way from the estimate to the point, for steps of the lengths
    /// `re` and `im`.
    pub open spec fn spec_offset(self, re: Scalar, im: Scalar) -> Complex {
        Complex {
            re: if self.spec_re_negated() {
                re.spec_negated()
            } else {
                re
            },
            im: if self.spec_im_negated() {
                im.spec_negated()
            } else {
                im
            },
        }
    }

    #[verifier::when_used_as_spec(spec_offset)]
    pub fn offset(self, re: Scalar, im: Scalar) -> (way: Complex)
        ensures
            way == self.spec_offset(re, im),
    {
        Complex {
            re: if self.re_negated() {
                re.negated()
            } else {
                re
            },
            im: if self.im_negated() {
                im.negated()
            } else {
                im
            },
        }
    }

    #[verifier::when_used_as_spec(spec_re_negated)]
    pub fn re_negated(self) -> (answer: bool)
        ensures
            answer == self.spec_re_negated(),
    {
        match self {
            Probe::PlusPlus => false,
            Probe::MinusPlus => true,
            Probe::PlusMinus => false,
            Probe::MinusMinus => true,
        }
    }

    #[verifier::when_used_as_spec(spec_im_negated)]
    pub fn im_negated(self) -> (answer: bool)
        ensures
            answer == self.spec_im_negated(),
    {
        match self {
            Probe::PlusPlus => false,
            Probe::MinusPlus => false,
            Probe::PlusMinus => true,
            Probe::MinusMinus => true,
        }
    }
}

/// The point to move to: the first of the four whose distance is strictly
/// before the current one in the total order, if there is any.
pub open spec fn first_improvement(current: Scalar, probed: Seq<Scalar>) -> Option<Probe>
    recommends
        probed.len() == 4,
{
    if probed[0].spec_precedes(current) {
        Some(Probe::PlusPlus)
    } else if probed[1].spec_precedes(current) {
        Some(Probe::MinusPlus)
    } else if probed[2].spec_precedes(current) {
        Some(Probe::PlusMinus)
    } else if probed[3].spec_precedes(current) {
        Some(Probe::MinusMinus)
    } else {
        None
    }
}

/// Chooses the move of one step. `current` measures how far the value of
/// the polynomial at the estimate is from zero, and `probed` does so for the
/// four points, in the order of [`Probe`].
pub fn choose_probe(current: Scalar, probed: &[Scalar; 4]) -> (choice: Option<Probe>)
    ensures
        choice == first_improvement(current, probed@),
{
    if probed[0].precedes(current) {
        Some(Probe::PlusPlus)
    } else if probed[1].precedes(current) {
        Some(Probe::MinusPlus)
    } else if probed[2].precedes(current) {
        Some(Probe::PlusMinus)
    } else if probed[3].precedes(current) {
        Some(Probe::MinusMinus)
    } else {
        None
    }
}

/// Where a search stands: in which outer round, and in which inner round of
/// it. A schedule always stands before a step that is still to be taken.
#[derive(Clone, Copy, Debug, PartialEq, Eq)]
pub struct Schedule {
    outer_rounds: u32,
    inner_rounds: u32,
    outer: u32,
    inner: u32,
}

/// What follows a step.
#[derive(Clone, Copy, Debug, PartialEq, Eq)]
pub enum Advance {
    /// The next inner round: the imaginary step is halved.
    Inner(Schedule),
    /// The next outer round: the real step is halved and the imaginary step
    /// starts over at its first length.
    Outer(Schedule),
    /// The search is over.
    Done,
}

impl Schedule {
    /// The schedule stands inside its rounds. Every schedule that this
    /// module hands out does.
    pub closed spec fn wf(self) -> bool {
        self.outer < self.outer_rounds && self.inner < self.inner_rounds
    }

    /// The number of outer rounds in all.
    pub closed spec fn spec_outer_rounds(self) -> nat {
        self.outer_rounds as nat
    }

    /// The number of inner rounds in each outer round.
    pub closed spec fn spec_inner_rounds(self) -> nat {
        self.inner_rounds as nat
    }

    /// The outer rounds that are over.
    pub closed spec fn spec_outer(self) -> nat {
        self.outer as nat
    }

    /// The inner rounds of this outer round that are over.
    pub closed spec fn spec_inner(self) -> nat {
        self.inner as nat
    }

    /// The most steps that can still be taken, the one at hand included.
    pub open spec fn steps_left(self) -> nat {
        ((self.spec_outer_rounds() - self.spec_outer() - 1) * self.spec_inner_rounds() + (
        self.spec_inner_rounds() - self.spec_inner())) as nat
    }

    /// Whether `next` is this schedule moved on to the given rounds.
    pub open spec fn moved_to(self, next: Schedule, outer: nat, inner: nat) -> bool {
        &&& next.spec_outer_rounds() == self.spec_outer_rounds()
        &&& next.spec_inner_rounds() == self.spec_inner_rounds()
        &&& next.spec_outer() == outer
        &&& next.spec_inner() == inner
    }

    /// What follows a step of this schedule. The inner rounds of an outer
    /// round end when all of them are taken, and at once when the value of
    /// the polynomial at the estimate is exactly zero.
    pub open spec fn advanced(self, at_root: bool, next: Advance) -> bool {
        let inner_over = at_root || self.spec_inner() + 1 == self.spec_inner_rounds();
        match next {
            Advance::Inner(schedule) => !inner_over && self.moved_to(
                schedule,
                self.spec_outer(),
                self.spec_inner() + 1,
            ),
            Advance::Outer(schedule) => inner_over && self.spec_outer() + 1
                < self.spec_outer_rounds() && self.moved_to(schedule, self.spec_outer() + 1, 0),
            Advance::Done => inner_over && self.spec_outer() + 1 == self.spec_outer_rounds(),
        }
    }

    /// The rounds are inside their numbers.
    pub proof fn rounds_in_range(self)
        requires
            self.wf(),
        ensures
            self.spec_outer() < self.spec_outer_rounds(),
            self.spec_inner() < self.spec_inner_rounds(),
            self.steps_left() >= 1,
            self.steps_left() <= self.spec_outer_rounds() * self.spec_inner_rounds(),
    {
        let rounds = self.outer_rounds as int;
        let width = self.inner_rounds as int;
        let outer = self.outer as int;
        assert((rounds - outer - 1) * width >= 0) by (nonlinear_arith)
            requires
                rounds - outer - 1 >= 0,
                width >= 0,
        ;
        assert((rounds - outer - 1) * width + width <= rounds * width) by (nonlinear_arith)
            requires
                outer >= 0,
                width >= 0,
        ;
    }

    /// The usual search takes at most 150 times 150 steps.
    pub proof fn usual_is_bounded()
        ensures
            Schedule::spec_usual().wf(),
            Schedule::spec_usual().steps_left() == 22500,
    {
    }

    /// The schedule of a search with the given numbers of rounds, before its
    /// first step, or `None` where the numbers leave no step to take.
    pub fn start(outer_rounds: u32, inner_rounds: u32) -> (schedule: Option<Schedule>)
        ensures
            schedule is Some <==> outer_rounds > 0 && inner_rounds > 0,
            schedule matches Some(first) ==> {
                &&& first.wf()
                &&& first.spec_outer_rounds() == outer_rounds
                &&& first.spec_inner_rounds() == inner_rounds
                &&& first.spec_outer() == 0
                &&& first.spec_inner() == 0
                &&& first.steps_left() == outer_rounds * inner_rounds
            },
    {
        if outer_rounds > 0 && inner_rounds > 0 {
            let first = Schedule { outer_rounds, inner_rounds, outer: 0, inner: 0 };
            assert(first.steps_left() == outer_rounds * inner_rounds) by (nonlinear_arith)
                requires
                    first.steps_left() == ((outer_rounds - 0 - 1) * inner_rounds + (inner_rounds
                        - 0)) as nat,
                    outer_rounds > 0,
                    inner_rounds > 0,
            ;
            Some(first)
        } else {
            None
        }
    }

    /// The schedule of the usual search, before its first step.
    pub closed spec fn spec_usual() -> Schedule {
        Schedule { outer_rounds: OUTER_ROUNDS, inner_rounds: INNER_ROUNDS, outer: 0, inner: 0 }
    }

    /// The schedule of the usual search, before its first step.
    #[verifier::when_used_as_spec(spec_usual)]
    pub fn usual() -> (schedule: Schedule)
        ensures
            schedule == Schedule::spec_usual(),
            schedule.wf(),
            schedule.spec_outer_rounds() == OUTER_ROUNDS,
            schedule.spec_inner_rounds() == INNER_ROUNDS,
            schedule.spec_outer() == 0,
            schedule.spec_inner() == 0,
            schedule.steps_left() == 22500,
    {
        Schedule { outer_rounds: OUTER_ROUNDS, inner_rounds: INNER_ROUNDS, outer: 0, inner: 0 }
    }

    /// The number of outer rounds in all.
    pub fn outer_rounds(&self) -> (rounds: u32)
        ensures
            rounds == self.spec_outer_rounds(),
    {
        self.outer_rounds
    }

    /// The number of inner rounds in each outer round.
    pub fn inner_rounds(&self) -> (rounds: u32)
        ensures
            rounds == self.spec_inner_rounds(),
    {
        self.inner_rounds
    }

    /// The outer rounds that are over.
    pub fn outer(&self) -> (round: u32)
        ensures
            round == self.spec_outer(),
    {
        self.outer
    }

    /// The inner rounds of this outer round that are over.
    pub fn inner(&self) -> (round: u32)
        ensures
            round == self.spec_inner(),
    {
        self.inner
    }

    /// Moves on after a step. `at_root` says whether the value of the
    /// polynomial at the estimate, after the move of the step, is exactly
    /// zero. Every advance leaves fewer steps to take.
    pub fn advance(self, at_root: bool) -> (next: Advance)
        requires
            self.wf(),
        ensures
            self.advanced(at_root, next),
            next matches Advance::Inner(schedule) ==> schedule.wf() && schedule.steps_left()
                < self.steps_left(),
            next matches Advance::Outer(schedule) ==> schedule.wf() && schedule.steps_left()
                < self.steps_left(),
    {
        if !at_root && self.inner + 1 < self.inner_rounds {
            let schedule = Schedule { inner: self.inner + 1, ..self };
            Advance::Inner(schedule)
        } else if self.outer + 1 < self.outer_rounds {
            let schedule = Schedule { outer: self.outer + 1, inner: 0, ..self };
            proof {
                let rounds = self.outer_rounds as int;
                let width = self.inner_rounds as int;
                let outer = self.outer as int;
                assert((rounds - outer - 1) * width == (rounds - (outer + 1) - 1) * width + width)
                    by (nonlinear_arith);
            }
            Advance::Outer(schedule)
        } else {
            Advance::Done
        }
    }
}

/// A search between two steps.
#[derive(Clone, Copy, Debug, PartialEq, Eq)]
pub struct Search {
    /// The estimate of the root.
    pub solution: Complex,
    /// The length of the real step.
    pub re: Scalar,
    /// The length of the imaginary step.
    pub im: Scalar,
    /// The length at which the imaginary step starts over in each outer
    /// round.
    pub first_step: Scalar,
    pub schedule: Schedule,
}

/// What a step of a search leads to.
#[derive(Clone, Copy, Debug, PartialEq, Eq)]
pub enum Stepped {
    /// The search goes on.
    Next(Search),
    /// The search is over, with this estimate.
    Found(Complex),
}

/// Whether `seen` measures how far the value of the polynomial at `point` is
/// from zero: it is the squared magnitude of that value.
pub open spec fn measured<
    A: Fn(Scalar, Scalar) -> Scalar,
    B: Fn(Scalar, Scalar) -> Scalar,
    M: Fn(Scalar, Scalar) -> Scalar,
>(sum: A, difference: B, product: M, coefficients: Seq<Complex>, point: Complex, seen: Scalar) -> bool {
    exists|value: Complex| #[trigger]
        evaluates_to(sum, difference, product, coefficients, point, value) && magnitude_squared(
            sum,
            product,
            value,
            seen,
        )
}

/// Whether `point` is the point that `probe` names, off the estimate by the
/// two steps, and `seen` measures the polynomial there.
pub open spec fn probe_seen<
    A: Fn(Scalar, Scalar) -> Scalar,
    B: Fn(Scalar, Scalar) -> Scalar,
    M: Fn(Scalar, Scalar) -> Scalar,
>(
    sum: A,
    difference: B,
    product: M,
    coefficients: Seq<Complex>,
    search: Search,
    probe: Probe,
    point: Complex,
    seen: Scalar,
) -> bool {
    &&& added(sum, search.solution, probe.spec_offset(search.re, search.im), point)
    &&& measured(sum, difference, product, coefficients, point, seen)
}

/// Whether a step has looked around: `current` measures the polynomial at
/// the estimate, and `points` and `seen` are the four points and what
/// measures the polynomial at each, in the order of [`Probe`].
pub open spec fn looked<
    A: Fn(Scalar, Scalar) -> Scalar,
    B: Fn(Scalar, Scalar) -> Scalar,
    M: Fn(Scalar, Scalar) -> Scalar,
>(
    sum: A,
    difference: B,
    product: M,
    coefficients: Seq<Complex>,
    search: Search,
    current: Scalar,
    points: Seq<Complex>,
    seen: Seq<Scalar>,
) -> bool {
    &&& points.len() == 4
    &&& seen.len() == 4
    &&& measured(sum, difference, product, coefficients, search.solution, current)
    &&& probe_seen(sum, difference, product, coefficients, search, Probe::PlusPlus, points[0], seen[0])
    &&& probe_seen(sum, difference, product, coefficients, search, Probe::MinusPlus, points[1], seen[1])
    &&& probe_seen(sum, difference, product, coefficients, search, Probe::PlusMinus, points[2], seen[2])
    &&& probe_seen(
        sum,
        difference,
        product,
        coefficients,
        search,
        Probe::MinusMinus,
        points[3],
        seen[3],
    )
}

/// Where a step moves the estimate: to the chosen point, or nowhere.
pub open spec fn destination(solution: Complex, choice: Option<Probe>, points: Seq<Complex>) -> Complex
    recommends
        points.len() == 4,
{
    match choice {
        Some(Probe::PlusPlus) => points[0],
        Some(Probe::MinusPlus) => points[1],
        Some(Probe::PlusMinus) => points[2],
        Some(Probe::MinusMinus) => points[3],
        None => solution,
    }
}

/// Whether a step moves the estimate to `target`: it looks around and goes
/// to the first point that improves on the estimate, if any does.
pub open spec fn moved_to<
    A: Fn(Scalar, Scalar) -> Scalar,
    B: Fn(Scalar, Scalar) -> Scalar,
    M: Fn(Scalar, Scalar) -> Scalar,
>(
    sum: A,
    difference: B,
    product: M,
    coefficients: Seq<Complex>,
    search: Search,
    target: Complex,
) -> bool {
    exists|current: Scalar, points: Seq<Complex>, seen: Seq<Scalar>| #[trigger]
        looked(sum, difference, product, coefficients, search, current, points, seen) && target
            == destination(search.solution, first_improvement(current, seen), points)
}

/// Whether `after` is how the search goes on from `before` once the
/// estimate has moved to `target`, where `at_root` says whether the
/// polynomial is exactly zero there. In the next inner round the imaginary
/// step is halved; in the next outer round the real step is halved and the
/// imaginary step has its first length again. `halved(s)` stands for
/// `s / 2`.
pub open spec fn continued<H: Fn(Scalar) -> Scalar>(
    halved: H,
    before: Search,
    target: Complex,
    at_root: bool,
    after: Stepped,
) -> bool {
    match after {
        Stepped::Found(solution) => {
            &&& solution == target
            &&& before.schedule.advanced(at_root, Advance::Done)
        },
        Stepped::Next(next) => {
            &&& next.solution == target
            &&& next.first_step == before.first_step
            &&& {
                ||| {
                    &&& before.schedule.advanced(at_root, Advance::Inner(next.schedule))
                    &&& next.re == before.re
                    &&& call_ensures(halved, (before.im,), next.im)
                }
                ||| {
                    &&& before.schedule.advanced(at_root, Advance::Outer(next.schedule))
                    &&& call_ensures(halved, (before.re,), next.re)
                    &&& next.im == before.first_step
                }
            }
        },
    }
}

/// Whether `after` is what one step makes of `before`: the estimate moves,
/// the polynomial is evaluated at the new estimate, and the search goes on
/// or ends by its schedule.
pub open spec fn stepped<
    A: Fn(Scalar, Scalar) -> Scalar,
    B: Fn(Scalar, Scalar) -> Scalar,
    M: Fn(Scalar, Scalar) -> Scalar,
    H: Fn(Scalar) -> Scalar,
>(
    sum: A,
    difference: B,
    product: M,
    halved: H,
    coefficients: Seq<Complex>,
    before: Search,
    after: Stepped,
) -> bool {
    exists|target: Complex, value: Complex|
        {
            &&& moved_to(sum, difference, product, coefficients, before, target)
            &&& #[trigger] evaluates_to(sum, difference, product, coefficients, target, value)
            &&& continued(halved, before, target, value.spec_is_zero(), after)
        }
}

/// Whether step `i` of a search leads from its state `i` to the next.
pub open spec fn step_linked<
    A: Fn(Scalar, Scalar) -> Scalar,
    B: Fn(Scalar, Scalar) -> Scalar,
    M: Fn(Scalar, Scalar) -> Scalar,
    H: Fn(Scalar) -> Scalar,
>(
    sum: A,
    difference: B,
    product: M,
    halved: H,
    coefficients: Seq<Complex>,
    trace: Seq<Search>,
    i: int,
) -> bool {
    stepped(
        sum,
        difference,
        product,
        halved,
        coefficients,
        trace[i],
        Stepped::Next(trace[i + 1]),
    )
}

/// Whether a search that begins as `first` goes through the states of
/// `trace` and ends with `solution`: each state leads to the next by one
/// step, the last step ends the search, and there are no more steps than
/// the schedule of `first` has left.
pub open spec fn searched<
    A: Fn(Scalar, Scalar) -> Scalar,
    B: Fn(Scalar, Scalar) -> Scalar,
    M: Fn(Scalar, Scalar) -> Scalar,
    H: Fn(Scalar) -> Scalar,
>(
    sum: A,
    difference: B,
    product: M,
    halved: H,
    coefficients: Seq<Complex>,
    first: Search,
    trace: Seq<Search>,
    solution: Complex,
) -> bool {
    &&& 1 <= trace.len() <= first.schedule.steps_left()
    &&& trace[0] == first
    &&& forall|i: int|
        0 <= i < trace.len() - 1 ==> #[trigger] step_linked(
            sum,
            difference,
            product,
            halved,
            coefficients,
            trace,
            i,
        )
    &&& stepped(
        sum,
        difference,
        product,
        halved,
        coefficients,
        trace.last(),
        Stepped::Found(solution),
    )
}

/// Whether `solution` is what a search that begins as `first` finds.
pub open spec fn found<
    A: Fn(Scalar, Scalar) -> Scalar,
    B: Fn(Scalar, Scalar) -> Scalar,
    M: Fn(Scalar, Scalar) -> Scalar,
    H: Fn(Scalar) -> Scalar,
>(
    sum: A,
    difference: B,
    product: M,
    halved: H,
    coefficients: Seq<Complex>,
    first: Search,
    solution: Complex,
) -> bool {
    exists|trace: Seq<Search>| #[trigger]
        searched(sum, difference, product, halved, coefficients, first, trace, solution)
}

impl Search {
    /// A search before its first step: the estimate is zero and both steps
    /// have the length `first_step`.
    pub fn begin(first_step: Scalar, schedule: Schedule) -> (search: Search)
        ensures
            search == (Search {
                solution: zero_coefficient(),
                re: first_step,
                im: first_step,
                first_step,
                schedule,
            }),
    {
        Search { solution: Complex::zero(), re: first_step, im: first_step, first_step, schedule }
    }

    /// The usual search before its first step: from zero, with steps of
    /// ten to the twentieth, on the usual schedule.
    pub open spec fn spec_usual() -> Search {
        Search {
            solution: zero_coefficient(),
            re: Scalar { bits: FIRST_STEP_BITS },
            im: Scalar { bits: FIRST_STEP_BITS },
            first_step: Scalar { bits: FIRST_STEP_BITS },
            schedule: Schedule::spec_usual(),
        }
    }

    /// The usual search before its first step.
    #[verifier::when_used_as_spec(spec_usual)]
    pub fn usual() -> (search: Search)
        ensures
            search == Search::spec_usual(),
            search.schedule.wf(),
    {
        Search::begin(Scalar { bits: FIRST_STEP_BITS }, Schedule::usual())
    }
}

/// Measures how far the value of the polynomial at `point` is from zero.
fn measure_at<
    A: Fn(Scalar, Scalar) -> Scalar,
    B: Fn(Scalar, Scalar) -> Scalar,
    M: Fn(Scalar, Scalar) -> Scalar,
>(polynomial: &Polynomial, point: Complex, sum: &A, difference: &B, product: &M) -> (seen: Scalar)
    requires
        defined(*sum),
        defined(*difference),
        defined(*product),
    ensures
        measured(*sum, *difference, *product, polynomial@, point, seen),
{
    let value = polynomial.value_at(point, sum, difference, product);
    squared_magnitude(value, sum, product)
}

/// Takes one step of a search for a root of `polynomial`.
///
/// `sum(a, b)` stands for `a + b`, `difference(a, b)` for `a - b`,
/// `product(a, b)` for `a * b` and `halved(s)` for `s / 2`, all on real
/// numbers.
pub fn search_step<
    A: Fn(Scalar, Scalar) -> Scalar,
    B: Fn(Scalar, Scalar) -> Scalar,
    M: Fn(Scalar, Scalar) -> Scalar,
    H: Fn(Scalar) -> Scalar,
>(
    polynomial: &Polynomial,
    search: Search,
    sum: &A,
    difference: &B,
    product: &M,
    halved: &H,
) -> (after: Stepped)
    requires
        search.schedule.wf(),
        defined(*sum),
        defined(*difference),
        defined(*product),
        forall|step: Scalar| call_requires(*halved, (step,)),
    ensures
        stepped(*sum, *difference, *product, *halved, polynomial@, search, after),
        after matches Stepped::Next(next) ==> next.schedule.wf() && next.schedule.steps_left()
            < search.schedule.steps_left(),
{
    let current = measure_at(polynomial, search.solution, sum, difference, product);
    let first = plus(search.solution, Probe::PlusPlus.offset(search.re, search.im), sum);
    let second = plus(search.solution, Probe::MinusPlus.offset(search.re, search.im), sum);
    let third = plus(search.solution, Probe::PlusMinus.offset(search.re, search.im), sum);
    let fourth = plus(search.solution, Probe::MinusMinus.offset(search.re, search.im), sum);
    let seen = [
        measure_at(polynomial, first, sum, difference, product),
        measure_at(polynomial, second, sum, difference, product),
        measure_at(polynomial, third, sum, difference, product),
        measure_at(polynomial, fourth, sum, difference, product),
    ];
    let ghost points = seq![first, second, third, fourth];
    let target = match choose_probe(current, &seen) {
        Some(Probe::PlusPlus) => first,
        Some(Probe::MinusPlus) => second,
        Some(Probe::PlusMinus) => third,
        Some(Probe::MinusMinus) => fourth,
        None => search.solution,
    };
    assert(looked(*sum, *difference, *product, polynomial@, search, current, points, seen@));
    assert(moved_to(*sum, *difference, *product, polynomial@, search, target));
    let value = polynomial.value_at(target, sum, difference, product);
    let after = match search.schedule.advance(value.is_zero()) {
        Advance::Inner(schedule) => Stepped::Next(
            Search {
                solution: target,
                re: search.re,
                im: halved(search.im),
                first_step: search.first_step,
                schedule,
            },
        ),
        Advance::Outer(schedule) => Stepped::Next(
            Search {
                solution: target,
                re: halved(search.re),
                im: search.first_step,
                first_step: search.first_step,
                schedule,
            },
        ),
        Advance::Done => Stepped::Found(target),
    };
    assert(continued(*halved, search, target, value.spec_is_zero(), after));
    after
}

/// Searches for a root of `polynomial`, from the state `first` until its
/// schedule is over, and returns the last estimate.
pub fn search_min<
    A: Fn(Scalar, Scalar) -> Scalar,
    B: Fn(Scalar, Scalar) -> Scalar,
    M: Fn(Scalar, Scalar) -> Scalar,
    H: Fn(Scalar) -> Scalar,
>(
    polynomial: &Polynomial,
    first: Search,
    sum: &A,
    difference: &B,
    product: &M,
    halved: &H,
) -> (solution: Complex)
    requires
        first.schedule.wf(),
        defined(*sum),
        defined(*difference),
        defined(*product),
        forall|step: Scalar| call_requires(*halved, (step,)),
    ensures
        found(*sum, *difference, *product, *halved, polynomial@, first, solution),
{
    let mut search = first;
    let ghost mut trace: Seq<Search> = seq![first];
    loop
        invariant
            defined(*sum),
            defined(*difference),
            defined(*product),
            forall|step: Scalar| call_requires(*halved, (step,)),
            search.schedule.wf(),
            trace.len() >= 1,
            trace[0] == first,
            trace.last() == search,
            trace.len() + search.schedule.steps_left() <= first.schedule.steps_left() + 1,
            forall|i: int|
                0 <= i < trace.len() - 1 ==> #[trigger] step_linked(
                    *sum,
                    *difference,
                    *product,
                    *halved,
                    polynomial@,
                    trace,
                    i,
                ),
        decreases search.schedule.steps_left(),
    {
        proof {
            search.schedule.rounds_in_range();
        }
        match search_step(polynomial, search, sum, difference, product, halved) {
            Stepped::Found(solution) => {
                assert(searched(
                    *sum,
                    *difference,
                    *product,
                    *halved,
                    polynomial@,
                    first,
                    trace,
                    solution,
                ));
                return solution;
            },
            Stepped::Next(next) => {
                proof {
                    let before = trace;
                    trace = trace.push(next);
                    assert forall|i: int| 0 <= i < trace.len() - 1 implies #[trigger] step_linked(
                        *sum,
                        *difference,
                        *product,
                        *halved,
                        polynomial@,
                        trace,
                        i,
                    ) by {
                        if i < before.len() - 1 {
                            assert(step_linked(
                                *sum,
                                *difference,
                                *product,
                                *halved,
                                polynomial@,
                                before,
                                i,
                            ));
                            assert(trace[i] == before[i]);
                            assert(trace[i + 1] == before[i + 1]);
                        }
                    }
                }
                search = next;
            },
        }
    }
}

} // verus!
