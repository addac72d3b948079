use std::f64::consts::{FRAC_PI_2, PI, TAU};

use geocart::cartesian::Cartesian;
use geocart::geographic::{Altitude, Geographic, Latitude, Longitude};
use geocart::radian::Radian;
use geocart::scalar::Scalar;

/// The double-precision scalar every test runs the library over.
#[derive(Debug, Clone, Copy, PartialEq, Default)]
struct F64(f64);

// The `spec_*` and `law*` members of the trait are ghost: they only exist
// for verification, nothing ever runs them, and the compiled trait keeps
// them as bodyless members. Each one is stubbed out below.
impl Scalar for F64 {
    fn spec_add(self, _: Self) -> Self {
        unreachable!()
    }

    fn spec_sub(self, _: Self) -> Self {
        unreachable!()
    }

    fn spec_mul(self, _: Self) -> Self {
        unreachable!()
    }

    fn spec_div(self, _: Self) -> Self {
        unreachable!()
    }

    fn spec_neg(self) -> Self {
        unreachable!()
    }

    fn spec_rem(self, _: Self) -> Self {
        unreachable!()
    }

    fn spec_rem_euclid(self, _: Self) -> Self {
        unreachable!()
    }

    fn spec_abs(self) -> Self {
        unreachable!()
    }

    fn spec_signum(self) -> Self {
        unreachable!()
    }

    fn spec_sin(self) -> Self {
        unreachable!()
    }

    fn spec_cos(self) -> Self {
        unreachable!()
    }

    fn spec_tan(self) -> Self {
        unreachable!()
    }

    fn spec_asin(self) -> Self {
        unreachable!()
    }

    fn spec_acos(self) -> Self {
        unreachable!()
    }

    fn spec_atan(self) -> Self {
        unreachable!()
    }

    fn spec_sqrt(self) -> Self {
        unreachable!()
    }

    fn spec_lt(self, _: Self) -> bool {
        unreachable!()
    }

    fn spec_zero() -> Self {
        unreachable!()
    }

    fn spec_one() -> Self {
        unreachable!()
    }

    fn spec_pi() -> Self {
        unreachable!()
    }

    fn spec_frac_pi_2() -> Self {
        unreachable!()
    }

    fn spec_tau() -> Self {
        unreachable!()
    }

    fn spec_sqrt_2() -> Self {
        unreachable!()
    }

    fn spec_from_usize(_: usize) -> Self {
        unreachable!()
    }

    fn laws_ring() {}

    fn law_add_assoc(_: Self, _: Self, _: Self) {}

    fn law_mul_assoc(_: Self, _: Self, _: Self) {}

    fn law_mul_distrib(_: Self, _: Self, _: Self) {}

    fn laws_div() {}

    fn laws_order() {}

    fn laws_consts() {}

    fn laws_sign() {}

    fn laws_rem() {}

    fn laws_trig() {}

    fn laws_inverse_trig() {}

    fn laws_sqrt() {}

    fn add(self, rhs: Self) -> Self {
        F64(self.0 + rhs.0)
    }

    fn sub(self, rhs: Self) -> Self {
        F64(self.0 - rhs.0)
    }

    fn mul(self, rhs: Self) -> Self {
        F64(self.0 * rhs.0)
    }

    fn div(self, rhs: Self) -> Self {
        F64(self.0 / rhs.0)
    }

    fn neg(self) -> Self {
        F64(-self.0)
    }

    fn rem(self, rhs: Self) -> Self {
        F64(self.0 % rhs.0)
    }

    fn rem_euclid(self, rhs: Self) -> Self {
        F64(self.0.rem_euclid(rhs.0))
    }

    fn abs(self) -> Self {
        F64(self.0.abs())
    }

    fn signum(self) -> Self {
        F64(self.0.signum())
    }

    fn sin(self) -> Self {
        F64(self.0.sin())
    }

    fn cos(self) -> Self {
        F64(self.0.cos())
    }

    fn tan(self) -> Self {
        F64(self.0.tan())
    }

    fn asin(self) -> Self {
        F64(self.0.asin())
    }

    fn acos(self) -> Self {
        F64(self.0.acos())
    }

    fn atan(self) -> Self {
        F64(self.0.atan())
    }

    fn sqrt(self) -> Self {
        F64(self.0.sqrt())
    }

    fn lt(self, rhs: Self) -> bool {
        self.0 < rhs.0
    }

    fn le(self, rhs: Self) -> bool {
        self.0 <= rhs.0
    }

    fn equals(self, rhs: Self) -> bool {
        self.0 == rhs.0
    }

    fn is_sign_negative(self) -> bool {
        self.0.is_sign_negative()
    }

    fn zero() -> Self {
        F64(0.0)
    }

    fn one() -> Self {
        F64(1.0)
    }

    fn pi() -> Self {
        F64(PI)
    }

    fn frac_pi_2() -> Self {
        F64(FRAC_PI_2)
    }

    fn tau() -> Self {
        F64(TAU)
    }

    fn sqrt_2() -> Self {
        F64(std::f64::consts::SQRT_2)
    }

    fn from_usize(n: usize) -> Self {
        F64(n as f64)
    }
}

fn approx_eq(a: f64, b: f64, abs_error: f64) -> bool {
    (a - b).abs() <= abs_error
}

#[test]
fn cartesian_from_geographic_must_not_fail() {
    struct Test {
        name: &'static str,
        input: Geographic<F64>,
        output: Cartesian<F64>,
    }

    vec![
        Test {
            name: "north point",
            input: Geographic::default().with_latitude(Latitude::from(F64(FRAC_PI_2))),
            output: Cartesian::origin().with_z(F64(1.)),
        },
        Test {
            name: "south point",
            input: Geographic::default().with_latitude(Latitude::from(F64(-FRAC_PI_2))),
            output: Cartesian::origin().with_z(F64(-1.)),
        },
        Test {
            name: "east point",
            input: Geographic::default().with_longitude(Longitude::from(F64(FRAC_PI_2))),
            output: Cartesian::origin().with_y(F64(1.)),
        },
        Test {
            name: "weast point",
            input: Geographic::default().with_longitude(Longitude::from(F64(-FRAC_PI_2))),
            output: Cartesian::origin().with_y(F64(-1.)),
        },
        Test {
            name: "front point",
            input: Geographic::default(),
            output: Cartesian::origin().with_x(F64(1.)),
        },
        Test {
            name: "back point as negative bound",
            input: Geographic::default().with_longitude(Longitude::from(F64(-PI))),
            output: Cartesian::origin().with_x(F64(-1.)),
        },
        Test {
            name: "back point as positive bound",
            input: Geographic::default().with_longitude(Longitude::from(F64(PI))),
            output: Cartesian::origin().with_x(F64(-1.)),
        },
    ]
    .into_iter()
    .for_each(|test| {
        let from = Cartesian::from(test.input);
        let point = from;
        assert_eq!(
            point, test.output,
            "{}: got cartesian point = {:#?}, want {:#?}",
            test.name, point, test.output
        );
    });
}

#[test]
fn longitude_must_not_exceed_boundaries() {
    struct Test {
        name: &'static str,
        input: f64,
        output: f64,
    }

    vec![
        Test {
            name: "positive longitude value must not change",
            input: 1.,
            output: 1.,
        },
        Test {
            name: "negative longitude value must not change",
            input: -3.,
            output: -3.,
        },
        Test {
            name: "positive overflowing longitude must change",
            input: PI + 1.,
            output: -PI + 1.,
        },
        Test {
            name: "negative overflowing longitude must change",
            input: -PI - 1.,
            output: PI - 1.,
        },
    ]
    .into_iter()
    .for_each(|test| {
        let longitude = Longitude::from(F64(test.input)).into_inner().0;

        assert_eq!(
            longitude, test.output,
            "{}: got longitude = {}, want {}",
            test.name, longitude, test.output
        );
    });
}

#[test]
fn latitude_must_not_exceed_boundaries() {
    const ABS_ERROR: f64 = 0.0000000000000003;

    struct Test {
        name: &'static str,
        input: f64,
        output: f64,
    }

    vec![
        Test {
            name: "positive latitude value must not change",
            input: 1.,
            output: 1.,
        },
        Test {
            name: "negative latitude value must not change",
            input: -1.,
            output: -1.,
        },
        Test {
            name: "positive overflowing latitude must change",
            input: 7. * PI / 4.,
            output: -PI / 4.,
        },
        Test {
            name: "negative overflowing latidude must change",
            input: -7. * PI / 4.,
            output: PI / 4.,
        },
    ]
    .into_iter()
    .for_each(|test| {
        let latitude = Latitude::from(F64(test.input)).into_inner().0;

        assert!(
            approx_eq(latitude, test.output, ABS_ERROR),
            "{}: got latitude = {}, want {}",
            test.name,
            latitude,
            test.output
        );
    });
}

#[test]
fn geographic_from_cartesian_must_not_fail() {
    struct Test {
        name: &'static str,
        input: Cartesian<F64>,
        output: Geographic<F64>,
    }

    vec![
        Test {
            name: "north point",
            input: Cartesian::origin().with_z(F64(1.)),
            output: Geographic::default()
                .with_latitude(Latitude::from(F64(FRAC_PI_2)))
                .with_altitude(Altitude::from(F64(1.))),
        },
        Test {
            name: "south point",
            input: Cartesian::origin().with_z(F64(-1.)),
            output: Geographic::default()
                .with_latitude(Latitude::from(F64(-FRAC_PI_2)))
                .with_altitude(Altitude::from(F64(1.))),
        },
        Test {
            name: "east point",
            input: Cartesian::origin().with_y(F64(1.)),
            output: Geographic::default()
                .with_longitude(Longitude::from(F64(FRAC_PI_2)))
                .with_altitude(Altitude::from(F64(1.))),
        },
        Test {
            name: "weast point",
            input: Cartesian::origin().with_y(F64(-1.)),
            output: Geographic::default()
                .with_longitude(Longitude::from(F64(-FRAC_PI_2)))
                .with_altitude(Altitude::from(F64(1.))),
        },
        Test {
            name: "front point",
            input: Cartesian::origin().with_x(F64(1.)),
            output: Geographic::default().with_altitude(Altitude::from(F64(1.))),
        },
        Test {
            name: "back point",
            input: Cartesian::origin().with_x(F64(-1.)),
            output: Geographic::default()
                .with_longitude(Longitude::from(F64(PI)))
                .with_altitude(Altitude::from(F64(1.))),
        },
    ]
    .into_iter()
    .for_each(|test| {
        let point = Geographic::from(test.input);

        assert_eq!(
            point.longitude,
            test.output.longitude,
            "{}: got longitude = {}, want {}",
            test.name,
            point.longitude.into_inner().0,
            test.output.longitude.into_inner().0,
        );

        assert_eq!(
            point.latitude,
            test.output.latitude,
            "{}: got latitude = {}, want {}",
            test.name,
            point.latitude.into_inner().0,
            test.output.latitude.into_inner().0,
        );

        assert_eq!(
            point.altitude,
            test.output.altitude,
            "{}: got altitude = {}, want {}",
            test.name,
            point.altitude.into_inner().0,
            test.output.altitude.into_inner().0,
        );
    });
}

#[test]
fn distance_must_not_fail() {
    struct Test<'a> {
        name: &'a str,
        from: Geographic<F64>,
        to: Geographic<F64>,
        distance: f64,
    }

    vec![
        Test {
            name: "Same point must be zero",
            from: Geographic::default(),
            to: Geographic::default(),
            distance: 0.,
        },
        Test {
            name: "Oposite points in the horizontal",
            from: Geographic::default(),
            to: Geographic::default().with_longitude(Longitude::from(F64(-PI))),
            distance: PI,
        },
        Test {
            name: "Oposite points in the vertical",
            from: Geographic::default().with_latitude(Latitude::from(F64(FRAC_PI_2))),
            to: Geographic::default().with_latitude(Latitude::from(F64(-FRAC_PI_2))),
            distance: PI,
        },
    ]
    .into_iter()
    .for_each(|test| {
        let distance = test.from.distance(&test.to).0;

        assert_eq!(
            distance, test.distance,
            "{}: distance {} ± e == {}",
            test.name, distance, test.distance,
        )
    });
}

#[test]
fn radiant_must_not_exceed_boundaries() {
    struct Test {
        name: &'static str,
        input: f64,
        output: f64,
    }

    vec![
        Test {
            name: "radiant within range must not change",
            input: PI,
            output: PI,
        },
        Test {
            name: "2π radiants must equals zero",
            input: TAU,
            output: 0.,
        },
        Test {
            name: "negative radiant must change",
            input: -FRAC_PI_2,
            output: TAU - FRAC_PI_2,
        },
        Test {
            name: "overflowing radiant must change",
            input: TAU + FRAC_PI_2,
            output: FRAC_PI_2,
        },
    ]
    .into_iter()
    .for_each(|test| {
        let radiant = Radian::from(F64(test.input)).into_inner().0;

        assert_eq!(
            radiant, test.output,
            "{}: got radiant = {}, want {}",
            test.name, radiant, test.output
        );
    });
}

#[test]
fn positive_wrappers_take_absolute_values() {
    let positive = geocart::positive::Positive::from(F64(-1.56));
    assert_eq!(positive.into_inner().0, 1.56, "a negative value must flip its sign");

    let kept = geocart::positive::Positive::from(F64(1.56));
    assert_eq!(kept.into_inner().0, 1.56, "a positive value must stay as it is");

    let sum = positive.add(kept);
    assert_eq!(sum.into_inner().0, 3.12, "the sum of two positives stays positive");

    assert!(geocart::positive::Positive::<F64>::zero().is_zero());
    assert!(!positive.is_zero());

    let float = geocart::float::PositiveFloat::from(F64(-2.5));
    assert_eq!(float.into_inner().0, 2.5, "a negative value must flip its sign");

    let altitude = Altitude::from(F64(-1.56));
    assert_eq!(altitude.into_inner().0, 1.56, "a negative radius must flip its sign");
}

#[test]
fn cartesian_vector_algebra_matches_hand_computation() {
    let a = Cartesian::origin().with_x(F64(1.)).with_y(F64(2.)).with_z(F64(3.));
    let b = Cartesian::origin().with_x(F64(4.)).with_y(F64(5.)).with_z(F64(6.));

    assert_eq!(a.dot(&b).0, 32., "1*4 + 2*5 + 3*6");

    let cross = a.cross(&b);
    assert_eq!((cross.x.0, cross.y.0, cross.z.0), (-3., 6., -3.));

    let lopsided = Cartesian::origin().with_x(F64(3.)).with_y(F64(4.));
    assert_eq!(lopsided.magnitude().0, 5., "a 3-4-5 triangle");

    let unit = Cartesian::origin().with_y(F64(3.)).normal();
    assert_eq!((unit.x.0, unit.y.0, unit.z.0), (0., 1., 0.));

    let offset = Cartesian::origin().with_x(F64(1.)).with_y(F64(2.)).with_z(F64(2.));
    assert_eq!(offset.distance(&Cartesian::origin()).0, 3., "a 1-2-2 box diagonal");

    let sum = a.add(b);
    assert_eq!((sum.x.0, sum.y.0, sum.z.0), (5., 7., 9.));

    let scaled = a.mul(F64(2.));
    assert_eq!((scaled.x.0, scaled.y.0, scaled.z.0), (2., 4., 6.));

    let halved = a.div(F64(2.));
    assert_eq!((halved.x.0, halved.y.0, halved.z.0), (0.5, 1., 1.5));
}

#[test]
fn radian_scaling_renormalizes() {
    let scaled = Radian::from(F64(0.5)).mul(F64(2.));
    assert_eq!(scaled.into_inner().0, 1., "a product inside the range stays");

    let full_turn = Radian::from(F64(PI)).mul(F64(2.));
    assert_eq!(full_turn.into_inner().0, 0., "a full turn wraps back to zero");
}

#[test]
fn angles_repeat_each_full_turn() {
    for value in [0., 1., -3., PI + 1., -PI - 1., 7. * PI / 4.] {
        let shifted = Longitude::from(F64(value + TAU)).into_inner().0;
        let plain = Longitude::from(F64(value)).into_inner().0;
        assert!(
            approx_eq(shifted, plain, 1e-12),
            "a longitude must not care about full turns: {} vs {}",
            shifted,
            plain
        );

        let shifted = Radian::from(F64(value + TAU)).into_inner().0;
        let plain = Radian::from(F64(value)).into_inner().0;
        assert!(
            approx_eq(shifted, plain, 1e-12),
            "a radian must not care about full turns: {} vs {}",
            shifted,
            plain
        );

        let shifted = Latitude::from(F64(value + TAU)).into_inner().0;
        let plain = Latitude::from(F64(value)).into_inner().0;
        assert!(
            approx_eq(shifted, plain, 1e-12),
            "a latitude must not care about full turns: {} vs {}",
            shifted,
            plain
        );
    }
}

#[test]
fn latitude_mirrors_across_the_pole() {
    const ABS_ERROR: f64 = 0.0000000000000002;

    let refolded = Latitude::from(F64(-5. * PI / 4.)).into_inner().0;
    let equivalent = Latitude::from(F64(PI / 4.)).into_inner().0;

    assert!(
        approx_eq(refolded, equivalent, ABS_ERROR),
        "the overflowing latitude should be as the equivalent latitude ± e"
    );
}
