use financial::common::bisection::{bisection, halving, Halving};
use financial::common::bounds::Bounds;
use financial::common::find_bounds::{confined, find_bounds};
use financial::common::find_root::find_root;
use financial::common::newton::{derivative, newton};
use financial::common::settings::{
    Settings,
    BISECTION_MAX_ITERATION,
    BOUNDS_MAX_ITERATION,
    NEWTON_MAX_ITERATION,
};
use financial::decimal::Decimal;
use financial::periodic_cashflow::npv::npv;
use financial::scalar::Scalar;

const PRECISION: f64 = 1e-7;

#[derive(Clone, Copy, Debug, PartialEq)]
struct Num(f64);

impl Scalar for Num {
    fn spec_from_int(n: i64) -> Self {
        Num(n as f64)
    }

    fn spec_greatest() -> Self {
        Num(f64::MAX)
    }

    fn spec_least() -> Self {
        Num(f64::MIN)
    }

    fn spec_plus(self, rhs: Self) -> Self {
        Num(self.0 + rhs.0)
    }

    fn spec_minus(self, rhs: Self) -> Self {
        Num(self.0 - rhs.0)
    }

    fn spec_times(self, rhs: Self) -> Self {
        Num(self.0 * rhs.0)
    }

    fn spec_over(self, rhs: Self) -> Self {
        Num(self.0 / rhs.0)
    }

    fn spec_neg(self) -> Self {
        Num(-self.0)
    }

    fn spec_abs(self) -> Self {
        Num(self.0.abs())
    }

    fn spec_powf(self, exponent: Self) -> Self {
        Num(self.0.powf(exponent.0))
    }

    fn spec_below(self, rhs: Self) -> bool {
        self.0 < rhs.0
    }

    fn spec_at_most(self, rhs: Self) -> bool {
        self.0 <= rhs.0
    }

    fn spec_is_negative(self) -> bool {
        self.0.is_sign_negative()
    }

    fn spec_is_finite(self) -> bool {
        self.0.is_finite()
    }

    fn from_int(n: i64) -> Self {
        Num(n as f64)
    }

    fn greatest() -> Self {
        Num(f64::MAX)
    }

    fn least() -> Self {
        Num(f64::MIN)
    }

    fn plus(self, rhs: Self) -> Self {
        Num(self.0 + rhs.0)
    }

    fn minus(self, rhs: Self) -> Self {
        Num(self.0 - rhs.0)
    }

    fn times(self, rhs: Self) -> Self {
        Num(self.0 * rhs.0)
    }

    fn over(self, rhs: Self) -> Self {
        Num(self.0 / rhs.0)
    }

    fn neg(self) -> Self {
        Num(-self.0)
    }

    fn abs(self) -> Self {
        Num(self.0.abs())
    }

    fn powf(self, exponent: Self) -> Self {
        Num(self.0.powf(exponent.0))
    }

    fn below(self, rhs: Self) -> bool {
        self.0 < rhs.0
    }

    fn at_most(self, rhs: Self) -> bool {
        self.0 <= rhs.0
    }

    fn is_negative(self) -> bool {
        self.0.is_sign_negative()
    }

    fn is_finite(self) -> bool {
        self.0.is_finite()
    }
}

fn nums(values: &[f64]) -> Vec<Num> {
    values.iter().map(|v| Num(*v)).collect()
}

fn irr_settings() -> Settings<Num> {
    Settings::new_with_factor(Num(1.1))
}

fn units(d: Decimal) -> i128 {
    d.unpack().unwrap()
}

// thousandths
fn milli(n: i128) -> Decimal {
    Decimal::Finite(n * 1_000_000_000_000_000)
}

// ten millionths: the standard tolerance is one
const TOLERANCE: i128 = 100_000_000_000;

#[test]
fn standard_settings() {
    let s = Settings::<Num>::new();
    assert_eq!(s.tolerance, Num(1e-7));
    assert_eq!(s.shift, Num(0.01));
    assert_eq!(s.factor, Num(1.6));
    assert_eq!(s.newton_cap, 20);
    assert_eq!(s.bounds_cap, 60);
    assert_eq!(s.bisection_cap, 2000);
    assert_eq!(NEWTON_MAX_ITERATION, 20);
    assert_eq!(BOUNDS_MAX_ITERATION, 60);
    assert_eq!(BISECTION_MAX_ITERATION, 2000);
    assert_eq!(irr_settings().factor, Num(1.1));
    assert_eq!(irr_settings().tolerance, Num(1e-7));
}

#[test]
fn standard_settings_in_decimals() {
    let s = Settings::<Decimal>::new();
    assert_eq!(s.tolerance, Decimal::Finite(TOLERANCE));
    assert_eq!(s.shift, milli(10));
    assert_eq!(s.factor, milli(1600));
}

#[test]
fn derivative_is_the_central_difference() {
    let square = |x: Num| Num(x.0 * x.0);
    let h = 1e-7;
    let expected = ((3.0 + h) * (3.0 + h) - (3.0 - h) * (3.0 - h)) / (2. * h);
    assert_eq!(derivative(&square, Num(3.0), Num(h)), Num(expected));
    assert!((derivative(&square, Num(3.0), Num(h)).0 - 6.0).abs() < 1e-6);
}

#[test]
fn derivative_of_a_line_is_exact_in_decimals() {
    let line = |x: Decimal| x.times(milli(3000)).minus(Decimal::Finite(7));
    assert_eq!(derivative(&line, milli(2000), Decimal::Finite(TOLERANCE)), milli(3000));
}

#[test]
fn newton_converges_on_a_square_root() {
    let f = |x: Num| Num(x.0 * x.0 - 2.0);
    let s = Settings::<Num>::new();
    for guess in [1.0, 1.2, 1.5, 2.0, 3.0] {
        let r = newton(Num(guess), &f, &s).unwrap();
        assert!((r.0 - 2f64.sqrt()).abs() <= PRECISION, "from {} got {}", guess, r.0);
    }
}

#[test]
fn newton_returns_the_iterate_after_the_one_that_settled() {
    // From 0 the first step lands on the root 1; the second round sees a zero
    // residual there and reports its own iterate, 1 again.
    let f = |x: Decimal| x.minus(milli(1000));
    let s = Settings::<Decimal>::new();
    assert_eq!(newton(Decimal::Finite(0), &f, &s), Some(milli(1000)));
}

#[test]
fn newton_gives_up_at_the_cap() {
    let f = |x: Num| Num(x.0 * x.0 - 2.0);
    let mut s = Settings::<Num>::new();
    s.newton_cap = 3;
    assert_eq!(newton(Num(100.0), &f, &s), None);
    s.newton_cap = 1;
    assert_eq!(newton(Num(2f64.sqrt()), &f, &s), None);
    s.newton_cap = 0;
    assert_eq!(newton(Num(2f64.sqrt()), &f, &s), None);
    s.newton_cap = 2;
    assert!(newton(Num(2f64.sqrt()), &f, &s).is_some());
}

#[test]
fn newton_does_not_report_what_is_not_a_number() {
    // The residual is within the tolerance everywhere, and the slope is zero:
    // every iterate is infinite or not a number.
    let flat = |_x: Num| Num(1e-8);
    let s = Settings::<Num>::new();
    assert_eq!(newton(Num(0.0), &flat, &s), None);
    let zero = |_x: Num| Num(0.0);
    assert_eq!(newton(Num(0.0), &zero, &s), None);
    let undefined = |_x: Decimal| Decimal::Undefined;
    assert_eq!(newton(Decimal::Finite(0), &undefined, &Settings::<Decimal>::new()), None);
}

#[test]
fn bounds_templates() {
    let p = Bounds::<Num>::new_positive();
    assert_eq!((p.lower, p.upper), (Num(0.0), Num(f64::MAX)));
    let n = Bounds::<Num>::new_negative();
    assert_eq!((n.lower, n.upper), (Num(f64::MIN), Num(0.0)));
    let b = Bounds::new_from_range(Num(-1.0), Num(2.0));
    assert_eq!((b.lower, b.upper), (Num(-1.0), Num(2.0)));
    let d = Bounds::<Decimal>::new_positive();
    assert_eq!((d.lower, d.upper), (Decimal::Finite(0), Decimal::Finite(10i128.pow(37))));
}

#[test]
fn confined_keeps_a_tolerance_from_the_ends() {
    let p = Bounds::<Num>::new_positive();
    assert_eq!(confined(Num(-0.01), &p, Num(1e-7)), Num(1e-7));
    assert_eq!(confined(Num(0.0), &p, Num(1e-7)), Num(1e-7));
    assert_eq!(confined(Num(0.01), &p, Num(1e-7)), Num(0.01));
    assert_eq!(confined(Num(f64::INFINITY), &p, Num(1e-7)), Num(f64::MAX - 1e-7));
    let n = Bounds::<Num>::new_negative();
    assert_eq!(confined(Num(0.01), &n, Num(1e-7)), Num(-1e-7));
    assert_eq!(confined(Num(-0.01), &n, Num(1e-7)), Num(-0.01));
    assert_eq!(confined(Num(f64::NEG_INFINITY), &n, Num(1e-7)), Num(f64::MIN + 1e-7));
}

#[test]
fn find_bounds_starts_a_shift_around_the_guess() {
    let f = |x: Num| Num(x.0 - 2.0);
    let s = Settings::<Num>::new();
    let b = find_bounds(Num(2.0), Bounds::new_positive(), &f, &s).unwrap();
    assert_eq!((b.lower, b.upper), (Num(2.0 - 0.01), Num(2.0 + 0.01)));
}

#[test]
fn find_bounds_widens_by_the_factor() {
    let f = |x: Num| Num(x.0 - 2.0);
    let s = Settings::<Num>::new();
    let b = find_bounds(Num(1.0), Bounds::new_positive(), &f, &s).unwrap();
    // rounds: [0.99, 1.01], [0.958, 1.042], [0.8236, 1.1764], ... until 2 lies inside
    let (mut low, mut upp) = (1.0 - 0.01, 1.0 + 0.01);
    while (low - 2.0) * (upp - 2.0) > 0. {
        let (l, u) = (low + 1.6 * (low - upp), upp + 1.6 * (upp - low));
        low = if l <= 0. { 1e-7 } else { l };
        upp = u;
    }
    assert_eq!((b.lower, b.upper), (Num(low), Num(upp)));
    assert!(b.lower.0 <= 2.0 && 2.0 <= b.upper.0);
}

#[test]
fn find_bounds_stays_in_its_half_line() {
    let f = |x: Num| Num(x.0 + 2.0);
    let s = Settings::<Num>::new();
    assert!(find_bounds(Num(0.0), Bounds::new_positive(), &f, &s).is_none());
    let b = find_bounds(Num(0.0), Bounds::new_negative(), &f, &s).unwrap();
    assert!(b.lower.0 <= -2.0 && -2.0 <= b.upper.0);
    assert_eq!(b.upper, Num(-1e-7));
}

#[test]
fn find_bounds_gives_up_at_the_cap() {
    let f = |x: Num| Num(x.0 - 2.0);
    let mut s = Settings::<Num>::new();
    s.bounds_cap = 3;
    assert!(find_bounds(Num(1.0), Bounds::new_positive(), &f, &s).is_none());
    s.bounds_cap = 1;
    assert!(find_bounds(Num(2.0), Bounds::new_positive(), &f, &s).is_none());
    s.bounds_cap = 2;
    assert!(find_bounds(Num(2.0), Bounds::new_positive(), &f, &s).is_some());
}

#[test]
fn bisection_returns_an_end_with_a_small_residual() {
    let f = |x: Num| Num(x.0 - 2.0);
    let s = Settings::<Num>::new();
    assert_eq!(bisection(Bounds::new_from_range(Num(2.0), Num(3.0)), &f, &s), Some(Num(2.0)));
    assert_eq!(bisection(Bounds::new_from_range(Num(1.0), Num(2.0)), &f, &s), Some(Num(2.0)));
    assert_eq!(
        bisection(Bounds::new_from_range(Num(1.0), Num(2.0 + 1e-7)), &f, &s),
        Some(Num(2.0 + 1e-7))
    );
}

#[test]
fn bisection_returns_the_midpoint_with_a_small_residual() {
    let f = |x: Num| Num(x.0 - 2.0);
    let s = Settings::<Num>::new();
    assert_eq!(bisection(Bounds::new_from_range(Num(1.0), Num(3.0)), &f, &s), Some(Num(2.0)));
    assert_eq!(bisection(Bounds::new_from_range(Num(0.0), Num(8.0)), &f, &s), Some(Num(2.0)));
}

#[test]
fn bisection_gives_up_without_a_sign_change() {
    let f = |x: Num| Num(x.0 - 2.0);
    let s = Settings::<Num>::new();
    assert_eq!(bisection(Bounds::new_from_range(Num(3.0), Num(4.0)), &f, &s), None);
    let nan = |_x: Num| Num(f64::NAN);
    assert_eq!(bisection(Bounds::new_from_range(Num(3.0), Num(4.0)), &nan, &s), None);
}

#[test]
fn bisection_gives_up_at_the_cap() {
    let f = |x: Num| Num(x.0 - 2.0);
    let mut s = Settings::<Num>::new();
    s.bisection_cap = 3;
    assert_eq!(bisection(Bounds::new_from_range(Num(0.0), Num(3.0)), &f, &s), None);
    s.bisection_cap = 1;
    assert_eq!(bisection(Bounds::new_from_range(Num(2.0), Num(3.0)), &f, &s), None);
}

#[test]
fn bisection_in_decimals() {
    let f = |x: Decimal| x.minus(milli(2000));
    let s = Settings::<Decimal>::new();
    let r = bisection(Bounds::new_from_range(Decimal::Finite(0), milli(3000)), &f, &s);
    assert!((units(r.unwrap()) - units(milli(2000))).abs() <= TOLERANCE);
    assert_eq!(bisection(Bounds::new_from_range(milli(1000), milli(3000)), &f, &s), Some(milli(2000)));
}

#[test]
fn halving_keeps_the_half_with_the_sign_change() {
    let f = |x: Num| Num(x.0 - 2.0);
    match halving(Num(0.0), Num(3.0), &f, Num(1e-7)) {
        Halving::Narrowed(a, b) => assert_eq!((a, b), (Num(1.5), Num(3.0))),
        Halving::Done(_) => panic!("the round should narrow"),
    }
    match halving(Num(0.0), Num(6.0), &f, Num(1e-7)) {
        Halving::Narrowed(a, b) => assert_eq!((a, b), (Num(0.0), Num(3.0))),
        Halving::Done(_) => panic!("the round should narrow"),
    }
    match halving(Num(0.0), Num(4.0), &f, Num(1e-7)) {
        Halving::Done(r) => assert_eq!(r, Some(Num(2.0))),
        Halving::Narrowed(..) => panic!("the midpoint is the root"),
    }
}

#[test]
fn every_halved_bracket_changes_sign() {
    let cf = nums(&[10., 20., -10.]);
    let f = |x: Num| npv(x, &cf);
    let s = irr_settings();
    let found = find_bounds(Num(0.0), Bounds::new_negative(), &f, &s).unwrap();
    let expected = bisection(Bounds::new_from_range(found.lower, found.upper), &f, &s);
    let (mut a, mut b) = (found.lower, found.upper);
    let mut rounds = 0;
    let result = loop {
        assert!(a.0 <= b.0);
        assert!(f(a).0 * f(b).0 <= 0., "round {}: [{}, {}]", rounds, a.0, b.0);
        match halving(a, b, &f, s.tolerance) {
            Halving::Done(r) => break r,
            Halving::Narrowed(lower, upper) => {
                assert!(a.0 <= lower.0 && upper.0 <= b.0);
                assert!(upper.0 - lower.0 < b.0 - a.0);
                a = lower;
                b = upper;
            }
        }
        rounds += 1;
        assert!(rounds < 2000);
    };
    assert!(rounds > 10);
    assert_eq!(result, expected);
    assert_eq!(result, Some(Num(-0.5857864377789364)));
}

#[test]
fn find_root_converges_near_a_known_root() {
    let s = Settings::<Num>::new();
    let cubic = |x: Num| Num((x.0 - 0.3) * (x.0 * x.0 + 1.0));
    for guess in [0.0, 0.1, 0.25, 0.3, 0.5, 1.0] {
        let r = find_root(Some(Num(guess)), cubic, &s).unwrap();
        assert!((r.0 - 0.3).abs() <= PRECISION, "from {} got {}", guess, r.0);
    }
    let line = |x: Num| Num(0.5 * x.0 + 0.1);
    for guess in [-1.0, -0.3, -0.2, -0.1] {
        let r = find_root(Some(Num(guess)), line, &s).unwrap();
        assert!((r.0 + 0.2).abs() <= PRECISION, "from {} got {}", guess, r.0);
    }
}

#[test]
fn find_root_defaults_the_guess_to_zero() {
    let s = Settings::<Num>::new();
    let f = |x: Num| Num(x.0 * x.0 - 2.0);
    assert_eq!(find_root(None, f, &s), find_root(Some(Num(0.0)), f, &s));
    assert!(find_root(None, f, &s).is_some());
}

#[test]
fn find_root_trusts_newton_on_the_side_of_the_guess_only() {
    let s = Settings::<Num>::new();
    let f = |x: Num| Num(x.0 + 0.5);
    // Newton lands on -0.5 from either guess. From -0.0 that is the side of
    // the guess and is reported as it is; from 0.0 it is not, and the root is
    // looked for again by bracketing.
    let from_negative_zero = find_root(Some(Num(-0.0)), f, &s).unwrap();
    assert_eq!(Some(from_negative_zero), newton(Num(-0.0), &f, &s));
    let from_zero = find_root(Some(Num(0.0)), f, &s).unwrap();
    let bracket = find_bounds(Num(0.0), Bounds::new_negative(), &f, &s).unwrap();
    assert_eq!(Some(from_zero), bisection(bracket, &f, &s));
    assert!((from_zero.0 + 0.5).abs() <= PRECISION);
    assert!((from_negative_zero.0 + 0.5).abs() <= PRECISION);
}

#[test]
fn find_root_prefers_the_positive_half_line() {
    // Roots at 2 and at -2; Newton cannot start at 0, where the slope is zero.
    let s = Settings::<Num>::new();
    let f = |x: Num| Num(x.0 * x.0 - 4.0);
    let r = find_root(None, f, &s).unwrap();
    assert!((r.0 - 2.0).abs() <= PRECISION, "got {}", r.0);
}

#[test]
fn slow_widening_finds_the_root_next_to_the_guess() {
    let cf = nums(&[10., 20., -10.]);
    let f = |x: Num| npv(x, &cf);
    assert_eq!(find_root(None, f, &irr_settings()), Some(Num(-0.5857864377789364)));
    assert_eq!(find_root(Some(Num(0.0)), f, &irr_settings()), Some(Num(-0.5857864377789364)));
}

#[test]
fn fast_widening_can_step_over_the_root_next_to_the_guess() {
    let cf = nums(&[10., 20., -10.]);
    let f = |x: Num| npv(x, &cf);
    assert_eq!(find_root(None, f, &Settings::<Num>::new()), Some(Num(-3.414213531256609)));
}

#[test]
fn find_root_reports_no_root_of_a_one_signed_function() {
    let s = Settings::<Num>::new();
    let f = |x: Num| Num(x.0 * x.0 + 1.0);
    for guess in [None, Some(Num(0.0)), Some(Num(1.0)), Some(Num(-3.0))] {
        assert_eq!(find_root(guess, f, &s), None);
    }
    let positive = nums(&[100., 100., 100.]);
    assert_eq!(find_root(None, |x: Num| npv(x, &positive), &irr_settings()), None);
    let g = |x: Decimal| x.times(x).plus(milli(1000));
    assert_eq!(find_root(None, g, &Settings::<Decimal>::new()), None);
}

#[test]
fn newton_can_settle_where_a_one_signed_function_fades() {
    // The values stay positive but fall below the tolerance far out, and the
    // residual test of the Newton solver is met there.
    let faint = nums(&[0.001, 0.001]);
    let r = find_root(None, |x: Num| npv(x, &faint), &irr_settings()).unwrap();
    assert!(r.0 > 1000.0);
    assert!(npv(r, &faint).0 > 0.0);
}

#[test]
fn find_root_returns_a_guess_that_is_a_root() {
    let s = Settings::<Num>::new();
    let f = |x: Num| Num(2.0 * x.0 - 0.5);
    assert_eq!(find_root(Some(Num(0.25)), f, &s), Some(Num(0.25)));
    let d = |x: Decimal| x.minus(milli(250));
    assert_eq!(find_root(Some(milli(250)), d, &Settings::<Decimal>::new()), Some(milli(250)));
    let balanced = nums(&[-500., 100., 100., 100., 100., 100.]);
    assert_eq!(find_root(None, |x: Num| npv(x, &balanced), &irr_settings()), Some(Num(0.0)));
}

#[test]
fn find_root_stops_after_one_round_near_a_root() {
    let s = Settings::<Num>::new();
    let f = |x: Num| Num(2.0 * x.0 - 0.5);
    let guess = 0.25 + 2e-8;
    let r = find_root(Some(Num(guess)), f, &s).unwrap();
    let slope = derivative(&f, Num(guess), s.tolerance);
    assert_eq!(r, Num(guess - f(Num(guess)).0 / slope.0));
    assert!((r.0 - guess).abs() <= PRECISION);
}

#[test]
fn a_search_from_beyond_the_half_line_stays_at_its_end() {
    // The root is negative and the guess positive by more than the shift:
    // Newton finds the root, which has the other sign, and the interval of the
    // search on the negative half-line is confined to a single point.
    let cf = nums(&[-500., 100., 100., 100., 100.]);
    let f = |x: Num| npv(x, &cf);
    assert!(newton(Num(0.2), &f, &irr_settings()).unwrap().0 < 0.0);
    assert!(find_bounds(Num(0.2), Bounds::new_negative(), &f, &irr_settings()).is_none());
    assert_eq!(find_root(Some(Num(0.2)), f, &irr_settings()), None);
    // within the shift of zero the search reaches across
    assert!(find_root(Some(Num(0.005)), f, &irr_settings()).is_some());
}

#[test]
fn a_small_residual_at_the_guess_can_send_newton_far() {
    // The residual at the guess is within the tolerance, so the first Newton
    // iterate is reported; on a slope this flat it lies a long way off.
    let s = Settings::<Num>::new();
    let f = |x: Num| Num(1e-8 + 1e-10 * x.0);
    let r = find_root(Some(Num(-0.0)), f, &s).unwrap();
    assert_eq!(Some(r), newton(Num(-0.0), &f, &s));
    assert!((r.0 + 100.0).abs() < 1.0, "got {}", r.0);
}

#[test]
fn find_root_gives_the_same_answer_twice() {
    let cf = nums(&[-500., 100., 100., 100., 100.]);
    let f = |x: Num| npv(x, &cf);
    for guess in [None, Some(Num(0.0)), Some(Num(-0.0)), Some(Num(0.3)), Some(Num(-0.9))] {
        let first = find_root(guess, f, &irr_settings());
        let second = find_root(guess, f, &irr_settings());
        assert_eq!(first.map(|r| r.0.to_bits()), second.map(|r| r.0.to_bits()));
    }
}

#[test]
fn find_root_of_a_rate_of_return() {
    let cf = nums(&[-500., 100., 100., 100., 100.]);
    let r = find_root(None, |x: Num| npv(x, &cf), &irr_settings()).unwrap();
    assert!((r.0 - -0.08364541746615).abs() <= PRECISION);
}

#[test]
fn find_root_survives_values_that_are_not_numbers() {
    let s = Settings::<Num>::new();
    assert_eq!(find_root(None, |_x: Num| Num(f64::NAN), &s), None);
    assert_eq!(find_root(None, |_x: Num| Num(f64::INFINITY), &s), None);
    assert_eq!(find_root(Some(Num(f64::NAN)), |x: Num| x, &s), None);
    let pole = |x: Num| Num(1.0 / x.0);
    assert_eq!(find_root(None, pole, &s), None);
}

#[test]
fn find_root_in_decimals() {
    let s = Settings::<Decimal>::new();
    let f = |x: Decimal| x.minus(milli(1000));
    assert_eq!(find_root(None, f, &s), Some(milli(1000)));
    let g = |x: Decimal| x.plus(milli(1000));
    let r = find_root(None, g, &s).unwrap();
    assert!((units(r) + units(milli(1000))).abs() <= TOLERANCE);
    let square = |x: Decimal| x.times(x).minus(milli(2000));
    let r = find_root(Some(milli(1000)), square, &s).unwrap();
    assert!((units(r) - 1_414_213_562_373_095_048).abs() <= TOLERANCE);
}

#[test]
fn find_root_finds_the_root_of_a_line_in_decimals() {
    let s = Settings::<Decimal>::new();
    for c in [milli(250), milli(-1500), Decimal::Finite(0), Decimal::Finite(7), milli(40_000_000)] {
        let line = |x: Decimal| x.minus(c);
        for guess in [milli(0), milli(1), milli(-1), milli(300), milli(-90_000), c] {
            assert_eq!(newton(guess, &line, &s), Some(c));
            match find_root(Some(guess), line, &s) {
                Some(r) => {
                    assert!((units(r) - units(c)).abs() <= TOLERANCE);
                    if c.is_negative() == guess.is_negative() {
                        assert_eq!(r, c);
                    }
                }
                None => assert!(c.is_negative() != guess.is_negative()),
            }
        }
    }
}

#[test]
fn brackets_stay_brackets_in_decimals() {
    let s = Settings::<Decimal>::new();
    let f = |x: Decimal| x.times(x).minus(milli(2000));
    let (first, last) = (milli(1000), milli(2000));
    let (mut a, mut b) = (first, last);
    let mut rounds = 0;
    let result = loop {
        assert!(first.at_most(a) && a.at_most(b) && b.at_most(last));
        assert!(f(a).times(f(b)).at_most(Decimal::Finite(0)));
        match halving(a, b, &f, s.tolerance) {
            Halving::Done(r) => break r,
            Halving::Narrowed(lower, upper) => {
                let mid = a.plus(b.minus(a).over(Decimal::from_int(2)));
                assert!((lower, upper) == (a, mid) || (lower, upper) == (mid, b));
                a = lower;
                b = upper;
            }
        }
        rounds += 1;
        assert!(rounds < 2000);
    };
    assert!(rounds > 10);
    assert_eq!(result, bisection(Bounds::new_from_range(first, last), &f, &s));
    let r = result.unwrap();
    assert!(first.at_most(r) && r.at_most(last));
    assert!((units(r) - 1_414_213_562_373_095_048).abs() <= TOLERANCE);
}
