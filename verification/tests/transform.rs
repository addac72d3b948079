use std::f64::consts::{FRAC_PI_2, PI, TAU};

use geocart::cartesian::Cartesian;
use geocart::geographic::{Geographic, Latitude, Longitude};
use geocart::positive::Positive;
use geocart::projection::{Equirectangular, GallStereographic, Projection};
use geocart::radian::Radian;
use geocart::scalar::Scalar;
use geocart::shape::Arc;
use geocart::transform::{Axis, Rotation, Transform};

/// The double-precision scalar every test runs the library over.
#[derive(Debug, Clone, Copy, PartialEq, Default)]
struct F64(f64);

// The `spec_*` and `law*` members of the trait are ghost: they only exist
// for verification, nothing ever runs them, and the compiled trait keeps
// them as bodyless members. Each one is stubbed out below.
impl Scalar for F64 {
    fn spec_add(self, _: Self) -> Self {
        unreachable!()
    }

    fn spec_sub(self, _: Self) -> Self {
        unreachable!()
    }

    fn spec_mul(self, _: Self) -> Self {
        unreachable!()
    }

    fn spec_div(self, _: Self) -> Self {
        unreachable!()
    }

    fn spec_neg(self) -> Self {
        unreachable!()
    }

    fn spec_rem(self, _: Self) -> Self {
        unreachable!()
    }

    fn spec_rem_euclid(self, _: Self) -> Self {
        unreachable!()
    }

    fn spec_abs(self) -> Self {
        unreachable!()
    }

    fn spec_signum(self) -> Self {
        unreachable!()
    }

    fn spec_sin(self) -> Self {
        unreachable!()
    }

    fn spec_cos(self) -> Self {
        unreachable!()
    }

    fn spec_tan(self) -> Self {
        unreachable!()
    }

    fn spec_asin(self) -> Self {
        unreachable!()
    }

    fn spec_acos(self) -> Self {
        unreachable!()
    }

    fn spec_atan(self) -> Self {
        unreachable!()
    }

    fn spec_sqrt(self) -> Self {
        unreachable!()
    }

    fn spec_lt(self, _: Self) -> bool {
        unreachable!()
    }

    fn spec_zero() -> Self {
        unreachable!()
    }

    fn spec_one() -> Self {
        unreachable!()
    }

    fn spec_pi() -> Self {
        unreachable!()
    }

    fn spec_frac_pi_2() -> Self {
        unreachable!()
    }

    fn spec_tau() -> Self {
        unreachable!()
    }

    fn spec_sqrt_2() -> Self {
        unreachable!()
    }

    fn spec_from_usize(_: usize) -> Self {
        unreachable!()
    }

    fn laws_ring() {}

    fn law_add_assoc(_: Self, _: Self, _: Self) {}

    fn law_mul_assoc(_: Self, _: Self, _: Self) {}

    fn law_mul_distrib(_: Self, _: Self, _: Self) {}

    fn laws_div() {}

    fn laws_order() {}

    fn laws_consts() {}

    fn laws_sign() {}

    fn laws_rem() {}

    fn laws_trig() {}

    fn laws_inverse_trig() {}

    fn laws_sqrt() {}

    fn add(self, rhs: Self) -> Self {
        F64(self.0 + rhs.0)
    }

    fn sub(self, rhs: Self) -> Self {
        F64(self.0 - rhs.0)
    }

    fn mul(self, rhs: Self) -> Self {
        F64(self.0 * rhs.0)
    }

    fn div(self, rhs: Self) -> Self {
        F64(self.0 / rhs.0)
    }

    fn neg(self) -> Self {
        F64(-self.0)
    }

    fn rem(self, rhs: Self) -> Self {
        F64(self.0 % rhs.0)
    }

    fn rem_euclid(self, rhs: Self) -> Self {
        F64(self.0.rem_euclid(rhs.0))
    }

    fn abs(self) -> Self {
        F64(self.0.abs())
    }

    fn signum(self) -> Self {
        F64(self.0.signum())
    }

    fn sin(self) -> Self {
        F64(self.0.sin())
    }

    fn cos(self) -> Self {
        F64(self.0.cos())
    }

    fn tan(self) -> Self {
        F64(self.0.tan())
    }

    fn asin(self) -> Self {
        F64(self.0.asin())
    }

    fn acos(self) -> Self {
        F64(self.0.acos())
    }

    fn atan(self) -> Self {
        F64(self.0.atan())
    }

    fn sqrt(self) -> Self {
        F64(self.0.sqrt())
    }

    fn lt(self, rhs: Self) -> bool {
        self.0 < rhs.0
    }

    fn le(self, rhs: Self) -> bool {
        self.0 <= rhs.0
    }

    fn equals(self, rhs: Self) -> bool {
        self.0 == rhs.0
    }

    fn is_sign_negative(self) -> bool {
        self.0.is_sign_negative()
    }

    fn zero() -> Self {
        F64(0.0)
    }

    fn one() -> Self {
        F64(1.0)
    }

    fn pi() -> Self {
        F64(PI)
    }

    fn frac_pi_2() -> Self {
        F64(FRAC_PI_2)
    }

    fn tau() -> Self {
        F64(TAU)
    }

    fn sqrt_2() -> Self {
        F64(std::f64::consts::SQRT_2)
    }

    fn from_usize(n: usize) -> Self {
        F64(n as f64)
    }
}

fn approx_eq(a: f64, b: f64, abs_error: f64) -> bool {
    (a - b).abs() <= abs_error
}

#[test]
fn rotation_must_not_fail() {
    const ABS_ERROR: f64 = 0.0000000000000003;

    struct Test {
        name: &'static str,
        theta: Radian<F64>,
        axis: Cartesian<F64>,
        input: Cartesian<F64>,
        output: Cartesian<F64>,
    }

    vec![
        Test {
            name: "noop rotation must not change the point",
            theta: Radian::from(F64(0.)),
            axis: Cartesian::origin(),
            input: Cartesian::origin().with_x(F64(1.)).with_y(F64(2.)).with_z(F64(3.)),
            output: Cartesian::origin().with_x(F64(1.)).with_y(F64(2.)).with_z(F64(3.)),
        },
        Test {
            name: "full rotation on the x axis must not change the y point",
            theta: Radian::from(F64(2. * PI)),
            axis: Axis::X.as_cartesian(),
            input: Cartesian::origin().with_y(F64(1.)),
            output: Cartesian::origin().with_y(F64(1.)),
        },
        Test {
            name: "half of a whole rotation on the x axis must change the y point",
            theta: Radian::from(F64(PI)),
            axis: Axis::X.as_cartesian(),
            input: Cartesian::origin().with_y(F64(1.)),
            output: Cartesian::origin().with_y(F64(-1.)),
        },
        Test {
            name: "a quarter of a whole rotation on the x axis must change the y point",
            theta: Radian::from(F64(FRAC_PI_2)),
            axis: Axis::X.as_cartesian(),
            input: Cartesian::origin().with_y(F64(1.)),
            output: Cartesian::origin().with_z(F64(1.)),
        },
        Test {
            name: "full rotation on the z axis must not change the y point",
            theta: Radian::from(F64(2. * PI)),
            axis: Axis::Z.as_cartesian(),
            input: Cartesian::origin().with_y(F64(1.)),
            output: Cartesian::origin().with_y(F64(1.)),
        },
        Test {
            name: "half of a whole rotation on the z axis must change the y point",
            theta: Radian::from(F64(PI)),
            axis: Axis::Z.as_cartesian(),
            input: Cartesian::origin().with_y(F64(1.)),
            output: Cartesian::origin().with_y(F64(-1.)),
        },
        Test {
            name: "a quarter of a whole rotation on the z axis must change the y point",
            theta: Radian::from(F64(FRAC_PI_2)),
            axis: Axis::Z.as_cartesian(),
            input: Cartesian::origin().with_y(F64(1.)),
            output: Cartesian::origin().with_x(F64(-1.)),
        },
        Test {
            name: "rotate over itself must not change the point",
            theta: Radian::from(F64(FRAC_PI_2)),
            axis: Axis::Y.as_cartesian(),
            input: Cartesian::origin().with_y(F64(1.)),
            output: Cartesian::origin().with_y(F64(1.)),
        },
    ]
    .into_iter()
    .for_each(|test| {
        let rotated = Rotation::noop()
            .with_axis(test.axis)
            .with_theta(test.theta)
            .transform(test.input);

        [
            (rotated.x.0, test.output.x.0),
            (rotated.y.0, test.output.y.0),
            (rotated.z.0, test.output.z.0),
        ]
        .into_iter()
        .for_each(|(got, want)| {
            assert!(
                approx_eq(got, want, ABS_ERROR),
                "{}: got rotated = {:?}, want ± e = {:?}",
                test.name,
                rotated,
                test.output
            );
        });
    });
}

#[test]
fn rotation_by_a_full_turn_is_exact_identity() {
    let third = 1. / 3.;
    let axis = Cartesian::origin()
        .with_x(F64(third))
        .with_y(F64(2. * third))
        .with_z(F64(2. * third));
    let point = Cartesian::origin().with_x(F64(1.)).with_y(F64(2.)).with_z(F64(3.));

    let rotated = Rotation::noop()
        .with_axis(axis)
        .with_theta(Radian::from(F64(TAU)))
        .transform(point);

    // a full turn wraps to the radian zero, whose sine and cosine are exact
    assert_eq!(rotated, point, "full turn must wrap to zero and change nothing");
}

#[test]
fn arc_with_equal_endpoints_collapses_to_one_point() {
    let endpoint = Geographic::default()
        .with_longitude(Longitude::from(F64(1.)))
        .with_latitude(Latitude::from(F64(0.5)))
        .with_altitude(geocart::geographic::Altitude::from(F64(1.)));

    let mut iter = Arc::new(4).with_from(endpoint).with_to(endpoint).into_iter();

    let mut points: Vec<Geographic<F64>> = Vec::new();
    while let Some(point) = iter.next() {
        points.push(point);
    }

    assert_eq!(points.len(), 5, "an arc of n segments must yield n + 1 points");
    for point in points {
        assert!(
            approx_eq(point.longitude.into_inner().0, 1., 1e-9),
            "longitude must stay at the endpoint"
        );
        assert!(
            approx_eq(point.latitude.into_inner().0, 0.5, 1e-9),
            "latitude must stay at the endpoint"
        );
        assert!(
            approx_eq(point.altitude.into_inner().0, 1., 1e-9),
            "altitude must stay on the unit sphere"
        );
    }
}

#[test]
fn arc_between_poles_yields_three_points() {
    let north = Geographic::default().with_latitude(Latitude::from(F64(FRAC_PI_2)));
    let south = Geographic::default().with_latitude(Latitude::from(F64(-FRAC_PI_2)));

    let mut iter = Arc::new(2).with_from(north).with_to(south).into_iter();

    let mut points: Vec<Geographic<F64>> = Vec::new();
    while let Some(point) = iter.next() {
        points.push(point);
    }

    assert_eq!(points.len(), 3, "an arc of two segments must yield exactly three points");
    assert_eq!(
        points[0].latitude.into_inner().0,
        FRAC_PI_2,
        "the first point must sit at the north pole"
    );
    assert_eq!(points[0].longitude.into_inner().0, 0., "the poles carry no longitude");
    assert_eq!(
        points[2].latitude.into_inner().0,
        -FRAC_PI_2,
        "the last point must sit at the south pole"
    );
    assert_eq!(points[2].longitude.into_inner().0, 0., "the poles carry no longitude");
}

#[test]
fn equirectangular_round_trip_preserves_the_angles() {
    let projection = Equirectangular { radius: Positive::from(F64(6371.)) };
    let point = Geographic::default()
        .with_longitude(Longitude::from(F64(1.)))
        .with_latitude(Latitude::from(F64(0.5)))
        .with_altitude(geocart::geographic::Altitude::from(F64(7.)));

    let round_trip = projection.reverse(&projection.forward(&point));

    assert!(
        approx_eq(round_trip.longitude.into_inner().0, 1., 1e-12),
        "the longitude must survive the round trip"
    );
    assert!(
        approx_eq(round_trip.latitude.into_inner().0, 0.5, 1e-12),
        "the latitude must survive the round trip"
    );
    assert_eq!(
        round_trip.altitude.into_inner().0,
        0.,
        "projections do not represent the altitude"
    );
}

#[test]
fn gall_stereographic_round_trip_preserves_the_angles() {
    let projection = GallStereographic { radius: Positive::from(F64(6371.)) };
    let point = Geographic::default()
        .with_longitude(Longitude::from(F64(-2.5)))
        .with_latitude(Latitude::from(F64(-0.8)));

    let round_trip = projection.reverse(&projection.forward(&point));

    assert!(
        approx_eq(round_trip.longitude.into_inner().0, -2.5, 1e-12),
        "the longitude must survive the round trip"
    );
    assert!(
        approx_eq(round_trip.latitude.into_inner().0, -0.8, 1e-12),
        "the latitude must survive the round trip"
    );
    assert_eq!(
        round_trip.altitude.into_inner().0,
        0.,
        "projections do not represent the altitude"
    );
}

#[test]
fn geographic_round_trip_preserves_nondegenerate_points() {
    struct Test {
        name: &'static str,
        longitude: f64,
        latitude: f64,
        altitude: f64,
    }

    vec![
        Test { name: "first quadrant", longitude: 1., latitude: 0.5, altitude: 2. },
        Test { name: "behind the meridian", longitude: 2.5, latitude: -0.7, altitude: 1. },
        Test { name: "western hemisphere", longitude: -2.9, latitude: 1.2, altitude: 0.25 },
        Test { name: "near the lower bound", longitude: -1.5, latitude: -1.5, altitude: 10. },
    ]
    .into_iter()
    .for_each(|test| {
        let point = Geographic::default()
            .with_longitude(Longitude::from(F64(test.longitude)))
            .with_latitude(Latitude::from(F64(test.latitude)))
            .with_altitude(geocart::geographic::Altitude::from(F64(test.altitude)));

        let round_trip = Geographic::from(Cartesian::from(point));

        assert!(
            approx_eq(round_trip.longitude.into_inner().0, test.longitude, 1e-12),
            "{}: got longitude {}, want {}",
            test.name,
            round_trip.longitude.into_inner().0,
            test.longitude
        );
        assert!(
            approx_eq(round_trip.latitude.into_inner().0, test.latitude, 1e-12),
            "{}: got latitude {}, want {}",
            test.name,
            round_trip.latitude.into_inner().0,
            test.latitude
        );
        assert!(
            approx_eq(round_trip.altitude.into_inner().0, test.altitude, 1e-12),
            "{}: got altitude {}, want {}",
            test.name,
            round_trip.altitude.into_inner().0,
            test.altitude
        );
    });
}

#[test]
fn distance_is_symmetric_and_zero_on_the_diagonal() {
    let a = Geographic::default()
        .with_longitude(Longitude::from(F64(1.2)))
        .with_latitude(Latitude::from(F64(-0.3)));
    let b = Geographic::default()
        .with_longitude(Longitude::from(F64(-2.1)))
        .with_latitude(Latitude::from(F64(0.9)));

    assert_eq!(
        a.distance(&b).0,
        b.distance(&a).0,
        "the distance must not depend on the order of its points"
    );
    assert!(
        approx_eq(a.distance(&a).0, 0., 1e-7),
        "the distance from a point to itself must vanish"
    );
}

#[test]
fn longitude_and_latitude_are_idempotent() {
    for value in [0., 1., -3., PI + 1., -PI - 1., 7. * PI / 4., -5. * PI / 4.] {
        let longitude = Longitude::from(F64(value)).into_inner();
        assert_eq!(
            Longitude::from(longitude).into_inner().0,
            longitude.0,
            "a longitude must feed back into construction unchanged"
        );

        let latitude = Latitude::from(F64(value)).into_inner();
        assert_eq!(
            Latitude::from(latitude).into_inner().0,
            latitude.0,
            "a latitude must feed back into construction unchanged"
        );
    }
}

#[test]
fn cross_product_is_perpendicular_to_its_operands() {
    let a = Cartesian::origin().with_x(F64(1.)).with_y(F64(2.)).with_z(F64(3.));
    let b = Cartesian::origin().with_x(F64(4.)).with_y(F64(5.)).with_z(F64(6.));

    let cross = a.cross(&b);

    assert_eq!(cross.dot(&a).0, 0., "the cross product is perpendicular to the first operand");
    assert_eq!(cross.dot(&b).0, 0., "the cross product is perpendicular to the second operand");
}

#[test]
fn distance_stays_within_half_a_turn() {
    let points = [
        Geographic::default(),
        Geographic::default().with_longitude(Longitude::from(F64(-PI))),
        Geographic::default()
            .with_longitude(Longitude::from(F64(2.1)))
            .with_latitude(Latitude::from(F64(-1.2))),
        Geographic::default().with_latitude(Latitude::from(F64(FRAC_PI_2))),
    ];

    for from in points {
        for to in points {
            let distance = from.distance(&to).0;
            assert!(
                (0. ..=PI).contains(&distance),
                "a great-circle distance must lie within [0, π], got {}",
                distance
            );
        }
    }
}
