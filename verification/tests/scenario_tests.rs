use line2d::get_intercept;
use line2d::get_line_from_point_and_slope;
use line2d::get_line_from_points;
use line2d::get_slope;
use line2d::get_y_from_x;
use line2d::Line;
use line2d::Rat;

fn whole(n: i64) -> Rat {
    Rat::from_int(n)
}

#[test]
fn slope_of_unit_diagonal_is_one() {
    let got = get_slope(whole(1), whole(1), whole(2), whole(2));
    assert!(got.expect("slope must be defined").eqv(&whole(1)));
}

#[test]
fn shared_x_gives_no_slope_regardless_of_y() {
    assert!(get_slope(whole(1), whole(1), whole(1), whole(2)).is_none());
    assert!(get_slope(whole(1), whole(-7), whole(1), whole(100)).is_none());
    assert!(get_slope(whole(0), whole(3), whole(0), whole(3)).is_none());
}

#[test]
fn shared_x_is_value_equality_not_representation() {
    // 1/1 and 2/2 denote the same x-coordinate, so the line is vertical.
    assert!(get_slope(Rat::new(1, 1), whole(1), Rat::new(2, 2), whole(2)).is_none());
    // A tiny difference in x still counts as non-vertical: no tolerance.
    let x1 = Rat::new(1, 1000000);
    let x2 = Rat::new(2, 1000000);
    let got = get_slope(x1, whole(0), x2, whole(1)).expect("slope must be defined");
    assert!(got.eqv(&whole(1000000)));
}

#[test]
fn slope_is_symmetric_in_the_two_points() {
    let ab = get_slope(whole(1), whole(1), whole(3), whole(2)).expect("slope must be defined");
    let ba = get_slope(whole(3), whole(2), whole(1), whole(1)).expect("slope must be defined");
    assert!(ab.eqv(&ba));
    assert!(ab.eqv(&Rat::new(1, 2)));
}

#[test]
fn intercept_of_half_slope_through_two_two() {
    assert!(get_intercept(whole(2), whole(2), Rat::new(1, 2)).eqv(&whole(1)));
}

#[test]
fn line_through_diagonal_points() {
    let line = get_line_from_points(whole(1), whole(1), whole(2), whole(2))
        .expect("line must exist");
    assert!(line.m.eqv(&whole(1)));
    assert!(line.q.eqv(&whole(0)));
}

#[test]
fn no_line_through_vertically_aligned_points() {
    assert!(get_line_from_points(whole(1), whole(1), whole(1), whole(2)).is_none());
}

#[test]
fn line_from_point_and_slope_always_succeeds() {
    let line = get_line_from_point_and_slope(whole(5), whole(8), whole(2));
    assert!(line.m.eqv(&whole(2)));
    assert!(line.q.eqv(&whole(-2)));
    assert!(get_y_from_x(line, whole(5)).eqv(&whole(8)));
}

#[test]
fn horizontal_line_is_constant() {
    let line = Line { m: whole(0), q: whole(5) };
    assert!(get_y_from_x(line, whole(125435)).eqv(&whole(5)));
    assert!(get_y_from_x(line, whole(-1)).eqv(&whole(5)));
}

#[test]
fn evaluating_at_zero_gives_the_intercept() {
    let line = Line { m: Rat::new(7, 3), q: Rat::new(-2, 5) };
    assert!(get_y_from_x(line, whole(0)).eqv(&line.q));
}

#[test]
fn line_from_points_passes_through_both() {
    let x1 = Rat::new(1, 2);
    let y1 = Rat::new(1, 3);
    let x2 = Rat::new(5, 2);
    let y2 = Rat::new(7, 3);
    let line = get_line_from_points(x1, y1, x2, y2).expect("line must exist");
    assert!(get_y_from_x(line, x1).eqv(&y1));
    assert!(get_y_from_x(line, x2).eqv(&y2));
    assert!(line.m.eqv(&whole(1)));
    assert!(line.q.eqv(&Rat::new(-1, 6)));
}

#[test]
fn rat_new_normalises_the_sign_and_compares_by_value() {
    assert!(Rat::new(1, -2).eqv(&Rat::new(-1, 2)));
    assert!(Rat::new(2, 4).eqv(&Rat::new(1, 2)));
    assert!(!Rat::new(1, 2).eqv(&Rat::new(1, 3)));
}

#[test]
fn negative_slope_line_round_trip() {
    let line = get_line_from_points(whole(-3), whole(4), whole(2), whole(-6))
        .expect("line must exist");
    assert!(line.m.eqv(&whole(-2)));
    assert!(line.q.eqv(&whole(-2)));
    assert!(get_y_from_x(line, whole(-3)).eqv(&whole(4)));
    assert!(get_y_from_x(line, whole(2)).eqv(&whole(-6)));
}
