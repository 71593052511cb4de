use root_finding::binary64::Binary64;
use root_finding::bisection::{solve_bisection as bisect, Bisection, Midpoint};
use root_finding::newton::{solve_newton as newton, Newton, Tangent};
use root_finding::outcome::{Bracket, Config, FailureKind, SolveResult};
use root_finding::reference::{solve_reference as refer, Monitor, Monitoring, Reported, Search};
use root_finding::report::{agree, compare, Comparison};
use roots::{find_root_brent, Convergency, SearchError};

fn bits(x: f64) -> Binary64 {
    Binary64::from_bits(x.to_bits())
}

fn number(b: Binary64) -> f64 {
    f64::from_bits(b.to_bits())
}

struct Watch {
    monitor: Monitor,
}

impl Convergency<f64> for Watch {
    fn is_root_found(&mut self, y: f64) -> bool {
        self.monitor.root_found(bits(y))
    }

    fn is_converged(&mut self, x1: f64, x2: f64) -> bool {
        self.monitor.converged(bits(x1 - x2))
    }

    fn is_iteration_limit_reached(&mut self, iter: usize) -> bool {
        self.monitor.iteration_limit_reached(iter)
    }
}

fn solve_reference(
    f: &dyn Fn(f64) -> f64,
    bracket: (f64, f64),
    tolerance: f64,
    max_iterations: u32,
) -> SolveResult {
    let (a, b) = bracket;
    let bracket = Bracket::new(bits(a), bits(b)).expect("low < high");
    let config = Config::new(bits(tolerance), max_iterations).expect("valid config");
    refer(bracket, bits(f(a)), bits(f(b)), config, |monitor: Monitor| {
        let mut watch = Watch { monitor };
        let last = std::cell::Cell::new(a);
        let found = find_root_brent(
            a,
            b,
            |x: f64| {
                last.set(x);
                f(x)
            },
            &mut watch,
        );
        let reported = match found {
            Ok(root) => Reported::Root { root: bits(root), residual: bits(f(root)) },
            Err(SearchError::NoBracketing) => Reported::NoBracketing,
            Err(SearchError::NoConvergency) => Reported::NoConvergency,
            Err(SearchError::ZeroDerivative) => Reported::ZeroDerivative,
        };
        Search { monitor: watch.monitor, reported, last: bits(last.get()) }
    })
}

fn solve_bisection(
    f: &dyn Fn(f64) -> f64,
    bracket: (f64, f64),
    tolerance: f64,
    max_iterations: u32,
) -> SolveResult {
    let bracket = Bracket::new(bits(bracket.0), bits(bracket.1)).expect("low < high");
    let config = Config::new(bits(tolerance), max_iterations).expect("valid config");
    let at_low = bits(f(number(bracket.low)));
    let at_high = bits(f(number(bracket.high)));
    bisect(bracket, at_low, at_high, config, |state: Bisection| {
        let xr = (number(state.low) + number(state.high)) / 2.0;
        let change = match state.previous {
            Some(previous) => (xr - number(previous)) / xr,
            None => f64::NAN,
        };
        Midpoint { estimate: bits(xr), value: bits(f(xr)), change: bits(change) }
    })
}

fn solve_newton(f: &dyn Fn(f64) -> f64, x0: f64, tolerance: f64, max_iterations: u32) -> SolveResult {
    let config = Config::new(bits(tolerance), max_iterations).expect("valid config");
    newton(bits(x0), config, |state: Newton| {
        let h = 1e-6;
        let x0 = number(state.estimate);
        let dfx = (f(x0 + h / 2.0) - f(x0 - h / 2.0)) / h;
        let x1 = x0 - f(x0) / dfx;
        Tangent {
            derivative: bits(dfx),
            next: bits(x1),
            step: bits(x1 - x0),
            bound: bits(tolerance * x1.abs()),
            residual: bits(f(x1)),
        }
    })
}

fn compare_with(result: &SolveResult, true_root: f64) -> Comparison {
    compare(result, bits(true_root), |estimate: Binary64, root: Binary64| {
        let difference = number(estimate) - number(root);
        (bits(difference), bits(difference / number(root)))
    })
}

fn cubic(x: f64) -> f64 {
    x * x * x - x - 2.0
}

fn falling_speed(h: f64) -> f64 {
    let g = 9.81;
    let l = 5.0;
    let t = 3.0;
    let vt = 4.0;
    let root = (2.0 * g * h).sqrt();
    root * (root / (2.0 * l) * t).tanh() - vt
}

fn monitor(low: f64, high: f64, tolerance: f64, max: u32) -> Monitor {
    Monitor {
        bracket: Bracket::new(bits(low), bits(high)).unwrap(),
        config: Config::new(bits(tolerance), max).unwrap(),
        iterations: 0,
        unstable: false,
    }
}

#[test]
fn reference_finds_the_cubic_root() {
    match solve_reference(&cubic, (1.0, 2.0), 1e-9, 100) {
        SolveResult::Converged { root, residual, iterations } => {
            assert!((number(root) - 1.5213797068045676).abs() < 1e-8, "root {}", number(root));
            assert_eq!(number(residual), cubic(number(root)));
            assert!(iterations < 100);
        }
        other => panic!("expected convergence, got {other:?}"),
    }
}

#[test]
fn reference_without_sign_change_fails_after_two_evaluations() {
    let calls = std::cell::Cell::new(0u32);
    let f = |x: f64| {
        calls.set(calls.get() + 1);
        x * x + 1.0
    };
    let result = solve_reference(&f, (0.0, 10.0), 1e-9, 100);
    assert_eq!(
        result,
        SolveResult::Failed { reason: FailureKind::NoSignChange, last_estimate: bits(0.0) }
    );
    assert_eq!(calls.get(), 2);
}

#[test]
fn reference_and_bisection_refuse_the_same_brackets() {
    let f = |x: f64| x * x + 1.0;
    assert_eq!(
        solve_reference(&f, (-2.0, 3.0), 1e-9, 100),
        solve_bisection(&f, (-2.0, 3.0), 1e-9, 100)
    );
    let g = |x: f64| x - 1.0;
    assert_eq!(
        solve_reference(&g, (1.0, 3.0), 1e-9, 100),
        solve_bisection(&g, (1.0, 3.0), 1e-9, 100)
    );
}

#[test]
fn reference_budget_of_one_does_not_converge() {
    let result = solve_reference(&cubic, (-100.0, 1000.0), 1e-9, 1);
    match result {
        SolveResult::Failed { reason, last_estimate } => {
            assert_eq!(reason, FailureKind::DidNotConverge);
            let x = number(last_estimate);
            assert!((-100.0..=1000.0).contains(&x));
        }
        other => panic!("expected failure, got {other:?}"),
    }
}

#[test]
fn all_solvers_fail_on_a_budget_of_one() {
    assert_eq!(
        solve_bisection(&cubic, (-100.0, 1000.0), 1e-9, 1).failure(),
        Some(FailureKind::DidNotConverge)
    );
    assert_eq!(
        solve_newton(&cubic, 1000.0, 1e-9, 1).failure(),
        Some(FailureKind::DidNotConverge)
    );
    assert_eq!(
        solve_reference(&cubic, (-100.0, 1000.0), 1e-9, 1).failure(),
        Some(FailureKind::DidNotConverge)
    );
}

#[test]
fn reference_value_not_a_number_is_unstable() {
    let f = |x: f64| if x > 1.2 && x < 1.9 { f64::NAN } else { cubic(x) };
    let result = solve_reference(&f, (1.0, 2.0), 1e-9, 100);
    match result {
        SolveResult::Failed { reason, last_estimate } => {
            assert_eq!(reason, FailureKind::NumericalInstability);
            let x = number(last_estimate);
            assert!((1.0..=2.0).contains(&x));
        }
        other => panic!("expected failure, got {other:?}"),
    }
}

#[test]
fn reference_is_repeatable() {
    let first = solve_reference(&cubic, (1.0, 2.0), 1e-9, 100);
    let second = solve_reference(&cubic, (1.0, 2.0), 1e-9, 100);
    assert_eq!(first, second);
}

#[test]
fn solvers_agree_on_the_cubic_root() {
    let tolerance_bisection = 1e-9;
    let tolerance_newton = 1e-12;
    let tolerance_reference = 1e-10;
    let b = solve_bisection(&cubic, (1.0, 2.0), tolerance_bisection, 100);
    let n = solve_newton(&cubic, 1.5, tolerance_newton, 100);
    let r = solve_reference(&cubic, (1.0, 2.0), tolerance_reference, 100);
    assert!(b.is_converged() && n.is_converged() && r.is_converged());
    let xb = number(b.estimate());
    let xn = number(n.estimate());
    let xr = number(r.estimate());
    let limit = tolerance_bisection.max(tolerance_newton);
    assert!((xb - xn).abs() < limit, "{xb} {xn}");
    assert!((xb - xr).abs() < limit, "{xb} {xr}");
    assert!((xn - xr).abs() < limit, "{xn} {xr}");
    assert!(agree(bits(xb - xn), bits(tolerance_bisection), bits(tolerance_newton)));
    assert!(agree(bits(xb - xr), bits(tolerance_bisection), bits(tolerance_newton)));
    assert!(agree(bits(xn - xr), bits(tolerance_bisection), bits(tolerance_newton)));
}

#[test]
fn solvers_agree_on_the_falling_speed_problem() {
    let b = solve_bisection(&falling_speed, (0.0, 10.0), 1e-7, 100);
    let n = solve_newton(&falling_speed, 2.0, 1e-3, 100);
    let r = solve_reference(&falling_speed, (0.0, 10.0), 1e-7, 100);
    assert!(b.is_converged() && n.is_converged() && r.is_converged());
    let xb = number(b.estimate());
    let xn = number(n.estimate());
    let xr = number(r.estimate());
    assert!(agree(bits(xb - xn), bits(1e-7), bits(1e-3)));
    assert!(agree(bits(xb - xr), bits(1e-7), bits(1e-3)));
    assert!(agree(bits(xn - xr), bits(1e-7), bits(1e-3)));
    assert!((xr - 1.0579620).abs() < 1e-5);
}

#[test]
fn compare_measures_both_errors() {
    let result = SolveResult::Converged { root: bits(1.5), residual: bits(0.0), iterations: 4 };
    let comparison = compare_with(&result, 2.0);
    assert_eq!(comparison, Comparison { abs_error: bits(0.5), rel_error: bits(0.25) });
    let comparison = compare_with(&result, -2.0);
    assert_eq!(comparison, Comparison { abs_error: bits(3.5), rel_error: bits(1.75) });
}

#[test]
fn compare_uses_the_last_estimate_of_a_failed_solve() {
    let result = SolveResult::Failed { reason: FailureKind::DidNotConverge, last_estimate: bits(3.0) };
    let comparison = compare_with(&result, 4.0);
    assert_eq!(comparison, Comparison { abs_error: bits(1.0), rel_error: bits(0.25) });
}

#[test]
fn compare_with_the_exact_root_has_no_error() {
    let result = solve_bisection(&|x: f64| x - 3.0, (1.0, 5.0), 1e-9, 100);
    let comparison = compare_with(&result, 3.0);
    assert_eq!(comparison, Comparison { abs_error: bits(0.0), rel_error: bits(0.0) });
    assert!(comparison.accurate(bits(1e-12)));
}

#[test]
fn comparison_is_made_of_magnitudes() {
    let comparison = Comparison::new(bits(-0.5), bits(-0.25));
    assert_eq!(comparison, Comparison { abs_error: bits(0.5), rel_error: bits(0.25) });
    assert!(comparison.accurate(bits(0.6)));
    assert!(!comparison.accurate(bits(0.5)));
    assert!(!comparison.accurate(bits(f64::NAN)));
}

#[test]
fn agree_uses_the_larger_tolerance() {
    assert!(agree(bits(5e-4), bits(1e-9), bits(1e-3)));
    assert!(agree(bits(-5e-4), bits(1e-3), bits(1e-9)));
    assert!(!agree(bits(5e-3), bits(1e-9), bits(1e-3)));
    assert!(!agree(bits(1e-3), bits(1e-9), bits(1e-3)));
    assert!(!agree(bits(f64::NAN), bits(1e-9), bits(1e-3)));
    assert!(agree(bits(0.0), bits(1e-9), bits(1e-9)));
}

#[test]
fn monitor_root_found_is_an_absolute_test() {
    let mut m = monitor(1.0, 2.0, 1e-3, 10);
    assert!(m.root_found(bits(5e-4)));
    assert!(m.root_found(bits(-5e-4)));
    assert!(!m.root_found(bits(1e-3)));
    assert!(!m.root_found(bits(2.0)));
    assert!(!m.root_found(bits(1e300)));
    assert_eq!(m, monitor(1.0, 2.0, 1e-3, 10));
}

#[test]
fn monitor_converged_is_an_absolute_test() {
    let mut m = monitor(1.0, 2.0, 1e-3, 10);
    assert!(m.converged(bits(5e-4)));
    assert!(m.converged(bits(-9e-4)));
    assert!(!m.converged(bits(-1e-3)));
    assert!(!m.converged(bits(0.5)));
    assert_eq!(m, monitor(1.0, 2.0, 1e-3, 10));
}

#[test]
fn monitor_notes_a_value_that_is_not_finite() {
    for bad in [f64::NAN, f64::INFINITY, f64::NEG_INFINITY] {
        let mut m = monitor(1.0, 2.0, 1e-3, 10);
        assert!(!m.root_found(bits(bad)));
        assert!(m.unstable);
        assert!(!m.iteration_limit_reached(0) || m.unstable);
        let mut m = monitor(1.0, 2.0, 1e-3, 10);
        assert!(!m.converged(bits(bad)));
        assert!(m.unstable);
    }
    let mut m = monitor(1.0, 2.0, 1e-3, 10);
    assert!(!m.root_found(bits(f64::NAN)));
    assert!(m.unstable);
    // once unstable, nothing is a root and nothing has converged
    assert!(!m.root_found(bits(0.0)));
    assert!(!m.converged(bits(0.0)));
    // and the solver is told to stop
    assert!(m.iteration_limit_reached(1));
    let mut m = monitor(1.0, 2.0, 1e-3, 10);
    assert!(!m.converged(bits(f64::NAN)));
    assert!(m.unstable);
}

#[test]
fn monitor_counts_iterations_and_enforces_the_budget() {
    let mut m = monitor(1.0, 2.0, 1e-3, 10);
    assert!(!m.iteration_limit_reached(1));
    assert_eq!(m.iterations, 1);
    assert!(!m.iteration_limit_reached(9));
    assert_eq!(m.iterations, 9);
    assert!(m.iteration_limit_reached(10));
    assert_eq!(m.iterations, 10);
    assert!(m.iteration_limit_reached(11));
    assert!(m.iteration_limit_reached(usize::MAX));
    assert_eq!(m.iterations, u32::MAX);
    assert!(!m.unstable);
}

#[test]
fn conclude_maps_every_report() {
    let mut m = monitor(1.0, 2.0, 1e-3, 10);
    m.iteration_limit_reached(4);
    assert_eq!(
        m.conclude(Reported::Root { root: bits(1.5), residual: bits(1e-4) }, bits(1.7)),
        SolveResult::Converged { root: bits(1.5), residual: bits(1e-4), iterations: 4 }
    );
    assert_eq!(
        m.conclude(Reported::NoBracketing, bits(1.7)),
        SolveResult::Failed { reason: FailureKind::NoSignChange, last_estimate: bits(1.0) }
    );
    assert_eq!(
        m.conclude(Reported::NoConvergency, bits(1.7)),
        SolveResult::Failed { reason: FailureKind::DidNotConverge, last_estimate: bits(1.7) }
    );
    assert_eq!(
        m.conclude(Reported::ZeroDerivative, bits(1.7)),
        SolveResult::Failed { reason: FailureKind::ZeroDerivative, last_estimate: bits(1.7) }
    );
    // a last point outside the bracket is not reported
    assert_eq!(
        m.conclude(Reported::NoConvergency, bits(f64::NAN)),
        SolveResult::Failed { reason: FailureKind::DidNotConverge, last_estimate: bits(1.0) }
    );
}

#[test]
fn conclude_refuses_a_root_outside_the_bracket() {
    let m = monitor(1.0, 2.0, 1e-3, 10);
    let unstable = SolveResult::Failed {
        reason: FailureKind::NumericalInstability,
        last_estimate: bits(1.25),
    };
    assert_eq!(m.conclude(Reported::Root { root: bits(2.5), residual: bits(0.0) }, bits(1.25)), unstable);
    assert_eq!(
        m.conclude(Reported::Root { root: bits(f64::NAN), residual: bits(0.0) }, bits(1.25)),
        unstable
    );
    assert_eq!(
        m.conclude(Reported::Root { root: bits(1.5), residual: bits(f64::NAN) }, bits(1.25)),
        unstable
    );
    assert_eq!(
        m.conclude(Reported::Root { root: bits(1.5), residual: bits(f64::INFINITY) }, bits(1.25)),
        unstable
    );
}

#[test]
fn conclude_on_an_unstable_run_is_always_a_failure() {
    let mut m = monitor(1.0, 2.0, 1e-3, 10);
    m.root_found(bits(f64::NAN));
    for reported in [
        Reported::Root { root: bits(1.5), residual: bits(0.0) },
        Reported::NoBracketing,
        Reported::NoConvergency,
        Reported::ZeroDerivative,
    ] {
        assert_eq!(
            m.conclude(reported, bits(1.5)),
            SolveResult::Failed {
                reason: FailureKind::NumericalInstability,
                last_estimate: bits(1.5)
            }
        );
    }
}

#[test]
fn start_of_the_reference_judges_the_bracket() {
    let bracket = Bracket::new(bits(1.0), bits(2.0)).unwrap();
    let config = Config::new(bits(1e-9), 100).unwrap();
    assert_eq!(
        Monitor::start(bracket, bits(-1.0), bits(1.0), config),
        Monitoring::Continue(Monitor { bracket, config, iterations: 0, unstable: false })
    );
    assert_eq!(
        Monitor::start(bracket, bits(0.0), bits(1.0), config),
        Monitoring::Done(SolveResult::Converged {
            root: bits(1.0),
            residual: bits(0.0),
            iterations: 0
        })
    );
    assert_eq!(
        Monitor::start(bracket, bits(-1.0), bits(-0.0), config),
        Monitoring::Done(SolveResult::Converged {
            root: bits(2.0),
            residual: bits(-0.0),
            iterations: 0
        })
    );
    assert_eq!(
        Monitor::start(bracket, bits(f64::NAN), bits(1.0), config),
        Monitoring::Done(SolveResult::Failed {
            reason: FailureKind::NumericalInstability,
            last_estimate: bits(1.0)
        })
    );
    assert_eq!(
        Monitor::start(bracket, bits(-3.0), bits(-1.0), config),
        Monitoring::Done(SolveResult::Failed {
            reason: FailureKind::NoSignChange,
            last_estimate: bits(1.0)
        })
    );
}

#[test]
fn solve_reference_reads_only_count_and_mark_from_the_returned_monitor() {
    let bracket = Bracket::new(bits(1.0), bits(2.0)).unwrap();
    let config = Config::new(bits(1e-9), 100).unwrap();
    let other = monitor(-5.0, 5.0, 0.5, 3);
    let result = refer(bracket, bits(-1.0), bits(1.0), config, |_given: Monitor| Search {
        monitor: Monitor { iterations: 7, ..other },
        reported: Reported::Root { root: bits(1.5), residual: bits(1e-12) },
        last: bits(1.5),
    });
    assert_eq!(
        result,
        SolveResult::Converged { root: bits(1.5), residual: bits(1e-12), iterations: 7 }
    );
    // a root inside the other bracket but outside the real one is refused
    let result = refer(bracket, bits(-1.0), bits(1.0), config, |_given: Monitor| Search {
        monitor: other,
        reported: Reported::Root { root: bits(3.0), residual: bits(0.0) },
        last: bits(1.5),
    });
    assert_eq!(
        result,
        SolveResult::Failed { reason: FailureKind::NumericalInstability, last_estimate: bits(1.5) }
    );
}

#[test]
fn solve_reference_hands_out_a_fresh_monitor() {
    let bracket = Bracket::new(bits(1.0), bits(2.0)).unwrap();
    let config = Config::new(bits(1e-9), 100).unwrap();
    let seen = std::cell::Cell::new(None);
    let result = refer(bracket, bits(-1.0), bits(1.0), config, |given: Monitor| {
        seen.set(Some(given));
        Search { monitor: given, reported: Reported::NoConvergency, last: bits(1.25) }
    });
    assert_eq!(seen.get(), Some(Monitor { bracket, config, iterations: 0, unstable: false }));
    assert_eq!(
        result,
        SolveResult::Failed { reason: FailureKind::DidNotConverge, last_estimate: bits(1.25) }
    );
}

#[test]
fn solve_reference_never_searches_without_a_sign_change() {
    let bracket = Bracket::new(bits(1.0), bits(2.0)).unwrap();
    let config = Config::new(bits(1e-9), 100).unwrap();
    let called = std::cell::Cell::new(false);
    let result = refer(bracket, bits(2.0), bits(1.0), config, |given: Monitor| {
        called.set(true);
        Search { monitor: given, reported: Reported::NoConvergency, last: bits(1.25) }
    });
    assert!(!called.get());
    assert_eq!(
        result,
        SolveResult::Failed { reason: FailureKind::NoSignChange, last_estimate: bits(1.0) }
    );
}
