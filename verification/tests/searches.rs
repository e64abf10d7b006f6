use polynomial_roots::scalar::Scalar;
use polynomial_roots::search::{choose_probe, Advance, Probe, Schedule, INNER_ROUNDS, OUTER_ROUNDS};

fn scalar(x: f64) -> Scalar {
    Scalar { bits: x.to_bits() }
}

fn probed(values: [f64; 4]) -> [Scalar; 4] {
    [scalar(values[0]), scalar(values[1]), scalar(values[2]), scalar(values[3])]
}

#[test]
fn no_probe_where_nothing_improves() {
    assert_eq!(choose_probe(scalar(1.0), &probed([1.0, 2.0, 3.0, f64::INFINITY])), None);
    assert_eq!(choose_probe(scalar(0.0), &probed([0.0, 0.0, 0.0, 0.0])), None);
}

#[test]
fn first_improving_probe_is_chosen() {
    assert_eq!(
        choose_probe(scalar(4.0), &probed([3.0, 1.0, 0.0, 0.5])),
        Some(Probe::PlusPlus)
    );
    assert_eq!(
        choose_probe(scalar(4.0), &probed([4.0, 1.0, 0.0, 0.5])),
        Some(Probe::MinusPlus)
    );
    assert_eq!(
        choose_probe(scalar(4.0), &probed([5.0, 4.0, 3.5, 0.5])),
        Some(Probe::PlusMinus)
    );
    assert_eq!(
        choose_probe(scalar(4.0), &probed([5.0, 4.0, 4.5, 0.5])),
        Some(Probe::MinusMinus)
    );
}

#[test]
fn positive_nan_never_improves() {
    assert_eq!(
        choose_probe(scalar(4.0), &probed([f64::NAN, f64::NAN, f64::NAN, f64::NAN])),
        None
    );
    assert_eq!(
        choose_probe(scalar(f64::NAN), &probed([f64::INFINITY, 1.0, 1.0, 1.0])),
        Some(Probe::PlusPlus)
    );
}

#[test]
fn probe_signs() {
    assert!(!Probe::PlusPlus.re_negated() && !Probe::PlusPlus.im_negated());
    assert!(Probe::MinusPlus.re_negated() && !Probe::MinusPlus.im_negated());
    assert!(!Probe::PlusMinus.re_negated() && Probe::PlusMinus.im_negated());
    assert!(Probe::MinusMinus.re_negated() && Probe::MinusMinus.im_negated());
}

#[test]
fn usual_schedule_has_the_usual_rounds() {
    let schedule = Schedule::usual();
    assert_eq!(OUTER_ROUNDS, 150);
    assert_eq!(INNER_ROUNDS, 150);
    assert_eq!(schedule.outer_rounds(), 150);
    assert_eq!(schedule.inner_rounds(), 150);
    assert_eq!(schedule.outer(), 0);
    assert_eq!(schedule.inner(), 0);
    assert_eq!(Schedule::start(150, 150), Some(schedule));
}

#[test]
fn no_schedule_without_rounds() {
    assert_eq!(Schedule::start(0, 0), None);
    assert_eq!(Schedule::start(0, 5), None);
    assert_eq!(Schedule::start(5, 0), None);
    assert!(Schedule::start(1, 1).is_some());
}

fn count_steps(first: Schedule, at_root: bool) -> (u32, u32, u32) {
    let mut schedule = first;
    let (mut steps, mut inner, mut outer) = (1, 0, 0);
    loop {
        match schedule.advance(at_root) {
            Advance::Inner(next) => {
                inner += 1;
                schedule = next;
            }
            Advance::Outer(next) => {
                outer += 1;
                schedule = next;
            }
            Advance::Done => return (steps, inner, outer),
        }
        steps += 1;
    }
}

#[test]
fn usual_search_takes_every_step_off_a_root() {
    assert_eq!(count_steps(Schedule::usual(), false), (22500, 150 * 149, 149));
}

#[test]
fn search_on_a_root_takes_one_step_in_each_outer_round() {
    assert_eq!(count_steps(Schedule::usual(), true), (150, 0, 149));
}

#[test]
fn small_schedule_step_by_step() {
    let first = Schedule::start(2, 3).unwrap();
    let second = match first.advance(false) {
        Advance::Inner(next) => next,
        other => panic!("{:?}", other),
    };
    assert_eq!((second.outer(), second.inner()), (0, 1));
    let third = match second.advance(false) {
        Advance::Inner(next) => next,
        other => panic!("{:?}", other),
    };
    assert_eq!((third.outer(), third.inner()), (0, 2));
    let fourth = match third.advance(false) {
        Advance::Outer(next) => next,
        other => panic!("{:?}", other),
    };
    assert_eq!((fourth.outer(), fourth.inner()), (1, 0));
    assert_eq!((fourth.outer_rounds(), fourth.inner_rounds()), (2, 3));
    let fifth = match fourth.advance(false) {
        Advance::Inner(next) => next,
        other => panic!("{:?}", other),
    };
    assert_eq!(fifth.advance(true), Advance::Done);
    assert_eq!(second.advance(true), Advance::Outer(fourth));
}

#[test]
fn single_round_schedule_is_done_after_one_step() {
    let only = Schedule::start(1, 1).unwrap();
    assert_eq!(only.advance(false), Advance::Done);
    assert_eq!(only.advance(true), Advance::Done);
}
