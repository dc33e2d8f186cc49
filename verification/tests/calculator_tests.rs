use line2d::get_intercept;
use line2d::get_slope;
use line2d::get_y_from_x;
use line2d::Line;
use line2d::Rat;

fn whole(n: i64) -> Rat {
    Rat::from_int(n)
}

#[test]
fn get_slope_test() {
    let test_cases = vec![
        (whole(1), whole(1), whole(2), whole(2), Some(whole(1)), "delta x = delta y"),
        (whole(1), whole(1), whole(2), whole(3), Some(whole(2)), "slope 2"),
        (whole(2), whole(3), whole(1), whole(1), Some(whole(2)), "slope 2 with inverted x"),
        (whole(1), whole(1), whole(3), whole(2), Some(Rat::new(1, 2)), "slope 0.5"),
        (
            whole(3),
            whole(2),
            whole(1),
            whole(1),
            Some(Rat::new(1, 2)),
            "slope 0.5 with inverted x",
        ),
        (whole(1), whole(1), whole(3), whole(0), Some(Rat::new(-1, 2)), "slope -0.5"),
        (
            whole(3),
            whole(1),
            whole(1),
            whole(2),
            Some(Rat::new(-1, 2)),
            "slope -0.5 with inverted x",
        ),
        (whole(1), whole(1), whole(1), whole(2), None, "infinite slope"),
    ];
    for (x1, y1, x2, y2, result, message) in test_cases {
        let got = get_slope(x1, y1, x2, y2);
        let same = match (&got, &result) {
            (Some(g), Some(want)) => g.eqv(want),
            (None, None) => true,
            _ => false,
        };
        assert!(same, "test failed when testing {}", message);
    }
}

#[test]
fn get_intercept_test() {
    let test_cases = vec![
        (whole(1), whole(1), whole(1), whole(0), "slope 1"),
        (whole(2), whole(2), whole(2), whole(-2), "slope 2"),
        (whole(2), whole(2), Rat::new(1, 2), whole(1), "slope 0.5"),
        (whole(1), whole(1), whole(-1), whole(2), "slope -1"),
        (whole(2), whole(2), whole(-2), whole(6), "slope -2"),
        (whole(2), whole(2), Rat::new(-1, 2), whole(3), "slope -0.5"),
    ];
    for (x, y, slope, result, message) in test_cases {
        assert!(
            get_intercept(x, y, slope).eqv(&result),
            "test failed when testing {}",
            message
        );
    }
}

#[test]
fn get_y_from_x_test() {
    let test_cases = vec![
        (Line { m: whole(1), q: whole(0) }, whole(1), whole(1), "slope = 1 q = 0"),
        (Line { m: whole(2), q: whole(-2) }, whole(5), whole(8), "slope = 2 q = -2"),
        (Line { m: Rat::new(-3, 2), q: whole(5) }, whole(-4), whole(11), "slope = 1 q = 0"),
        (Line { m: whole(0), q: whole(5) }, whole(125435), whole(5), "slope = 0 q = 5"),
    ];
    for (line, x, y, message) in test_cases {
        assert!(
            get_y_from_x(line, x).eqv(&y),
            "test failed when testing {}",
            message
        );
    }
}
