use shapes::constraint::ConstraintType;
use shapes::point::{Continuity, Point, PointRole};
use shapes::polygon::Polygon;
use shapes::propagate::Correction;
use shapes::scalar::Scalar;

#[derive(Clone, Copy, Debug, PartialEq)]
struct Real(f32);

impl Scalar for Real {
    type Wide = f64;

    fn from_int(n: i32) -> Self {
        Real(n as f32)
    }

    fn epsilon() -> Self {
        Real(f32::EPSILON)
    }

    fn narrow(wide: f64) -> Self {
        Real(wide as f32)
    }

    fn plus(self, rhs: Self) -> Self {
        Real(self.0 + rhs.0)
    }

    fn minus(self, rhs: Self) -> Self {
        Real(self.0 - rhs.0)
    }

    fn times(self, rhs: Self) -> Self {
        Real(self.0 * rhs.0)
    }

    fn over(self, rhs: Self) -> Self {
        Real(self.0 / rhs.0)
    }

    fn negated(self) -> Self {
        Real(-self.0)
    }

    fn sqrt(self) -> Self {
        Real(self.0.sqrt())
    }

    fn powi(self, n: i32) -> Self {
        Real(self.0.powi(n))
    }

    fn abs(self) -> Self {
        Real(self.0.abs())
    }

    fn max(self, rhs: Self) -> Self {
        Real(self.0.max(rhs.0))
    }

    fn clamp(self, lo: Self, hi: Self) -> Self {
        Real(self.0.clamp(lo.0, hi.0))
    }

    fn less(self, rhs: Self) -> bool {
        self.0 < rhs.0
    }

    fn at_most(self, rhs: Self) -> bool {
        self.0 <= rhs.0
    }

    fn equals(self, rhs: Self) -> bool {
        self.0 == rhs.0
    }
}

fn vertex(x: f32, y: f32) -> Point<Real> {
    Point::new(Real(x), Real(y))
}

fn vertex_with(x: f32, y: f32, continuity: Continuity) -> Point<Real> {
    Point { x: Real(x), y: Real(y), role: PointRole::Vertex, continuity }
}

fn control(x: f32, y: f32) -> Point<Real> {
    Point { x: Real(x), y: Real(y), role: PointRole::Control, continuity: Continuity::Unset }
}

fn square() -> Polygon<Real> {
    Polygon::new(vec![
        vertex(100.0, 100.0),
        vertex(200.0, 100.0),
        vertex(200.0, 200.0),
        vertex(100.0, 200.0),
    ])
}

fn coords(polygon: &Polygon<Real>) -> Vec<(f32, f32)> {
    polygon.vertices.iter().map(|v| (v.x.0, v.y.0)).collect()
}

fn close(a: f32, b: f32) -> bool {
    (a - b).abs() < 1e-4
}

fn curve(c1: Point<Real>, c2: Point<Real>) -> ConstraintType<Real> {
    ConstraintType::Bezier {
        control1: c1,
        control2: c2,
        g1_start: true,
        g1_end: true,
        c1_start: false,
        c1_end: false,
    }
}

fn controls_of(polygon: &Polygon<Real>, edge: usize) -> ((f32, f32), (f32, f32)) {
    match polygon.get_constraint(edge) {
        Some(ConstraintType::Bezier { control1, control2, .. }) => {
            ((control1.x.0, control1.y.0), (control2.x.0, control2.y.0))
        }
        _ => panic!("no curve on edge {}", edge),
    }
}

#[test]
fn horizontal_after_drag_averages_both_ends() {
    let mut p = square();
    p.set_constaint(0, ConstraintType::Horizontal);
    p.move_vertex(0, Real(0.0), Real(50.0));
    assert_eq!(coords(&p)[0], (100.0, 150.0));
    p.apply_constraints();
    assert_eq!(
        coords(&p),
        vec![(100.0, 125.0), (200.0, 125.0), (200.0, 200.0), (100.0, 200.0)]
    );
}

#[test]
fn vertical_averages_the_abscissas() {
    let mut p = square();
    p.set_constaint(1, ConstraintType::Vertical);
    p.move_vertex(1, Real(-30.0), Real(0.0));
    p.apply_constraints();
    assert_eq!(
        coords(&p),
        vec![(100.0, 100.0), (185.0, 100.0), (185.0, 200.0), (100.0, 200.0)]
    );
}

#[test]
fn fixed_length_stretches_about_the_midpoint() {
    let mut p = Polygon::new(vec![vertex(0.0, 0.0), vertex(100.0, 0.0), vertex(50.0, 80.0)]);
    p.enforce_constraint(0, 1, &ConstraintType::FixedLength(200.0));
    assert_eq!(coords(&p), vec![(-50.0, 0.0), (150.0, 0.0), (50.0, 80.0)]);
}

#[test]
fn fixed_length_holds_within_tolerance() {
    let mut p = Polygon::new(vec![vertex(10.0, 20.0), vertex(40.0, 60.0), vertex(0.0, 90.0)]);
    p.set_constaint(0, ConstraintType::FixedLength(125.0));
    p.apply_constraints();
    let c = coords(&p);
    let (dx, dy) = (c[1].0 - c[0].0, c[1].1 - c[0].1);
    assert!(close((dx * dx + dy * dy).sqrt(), 125.0));
    assert!(close((c[0].0 + c[1].0) / 2.0, 25.0));
    assert!(close((c[0].1 + c[1].1) / 2.0, 40.0));
    assert!(dx > 0.0 && dy > 0.0);
    assert_eq!(c[0], (-12.5, -10.0));
    assert_eq!(c[1], (62.5, 90.0));
    assert_eq!(c[2], (0.0, 90.0));
}

#[test]
fn fixed_length_leaves_a_zero_length_edge() {
    let mut p = Polygon::new(vec![vertex(5.0, 5.0), vertex(5.0, 5.0), vertex(9.0, 1.0)]);
    let planned = p.plan_correction(0, 1, &ConstraintType::FixedLength(10.0));
    assert!(matches!(planned, Correction::Keep));
    p.enforce_constraint(0, 1, &ConstraintType::FixedLength(10.0));
    assert_eq!(coords(&p), vec![(5.0, 5.0), (5.0, 5.0), (9.0, 1.0)]);
}

#[test]
fn diagonal_keeps_length_and_quadrant() {
    let mut p = Polygon::new(vec![vertex(0.0, 0.0), vertex(30.0, -40.0), vertex(100.0, 100.0)]);
    p.set_constaint(0, ConstraintType::Diagonal45);
    p.apply_constraints();
    let c = coords(&p);
    let (dx, dy) = (c[1].0 - c[0].0, c[1].1 - c[0].1);
    assert!(close(dx.abs(), dy.abs()));
    assert!(dx > 0.0 && dy < 0.0);
    assert!(close((dx * dx + dy * dy).sqrt(), 50.0));
    let offset = 50.0_f32 / (2.0 * std::f32::consts::SQRT_2);
    assert_eq!(c[0], (15.0 - offset, -20.0 + offset));
    assert_eq!(c[1], (15.0 + offset, -20.0 - offset));
    assert_eq!(c[2], (100.0, 100.0));
}

#[test]
fn diagonal_leaves_a_degenerate_edge() {
    let mut p = Polygon::new(vec![vertex(7.0, 7.0), vertex(7.0, 7.0), vertex(0.0, 3.0)]);
    assert!(matches!(p.plan_correction(0, 1, &ConstraintType::Diagonal45), Correction::Keep));
    p.set_constaint(0, ConstraintType::Diagonal45);
    p.apply_constraints();
    assert_eq!(coords(&p), vec![(7.0, 7.0), (7.0, 7.0), (0.0, 3.0)]);
}

#[test]
fn arc_and_line_move_nothing() {
    let mut p = square();
    p.set_constaint(0, ConstraintType::Arc { g1_start: true, g1_end: false });
    p.set_constaint(2, ConstraintType::Line);
    p.move_vertex(2, Real(13.0), Real(-7.0));
    let before = coords(&p);
    p.apply_constraints();
    assert_eq!(coords(&p), before);
    assert!(matches!(p.get_constraint(0), Some(ConstraintType::Arc { g1_start: true, g1_end: false })));
    assert!(matches!(p.get_constraint(2), Some(ConstraintType::Line)));
}

#[test]
fn later_edge_has_the_last_word() {
    let mut p = square();
    p.set_constaint(0, ConstraintType::Horizontal);
    p.set_constaint(1, ConstraintType::Horizontal);
    p.apply_constraints();
    assert_eq!(
        coords(&p),
        vec![(100.0, 100.0), (200.0, 150.0), (200.0, 150.0), (100.0, 200.0)]
    );
}

#[test]
fn closing_edge_reaches_back_to_vertex_zero() {
    let mut p = square();
    p.set_constaint(3, ConstraintType::Horizontal);
    p.apply_constraints();
    assert_eq!(
        coords(&p),
        vec![(100.0, 150.0), (200.0, 100.0), (200.0, 200.0), (100.0, 150.0)]
    );
}

#[test]
fn undisturbed_horizontal_edges_end_level() {
    let mut p = Polygon::new(vec![
        vertex(3.0, 11.0),
        vertex(40.0, 17.5),
        vertex(60.0, 90.0),
        vertex(20.0, 70.25),
        vertex(-5.0, 40.0),
    ]);
    p.set_constaint(0, ConstraintType::Horizontal);
    p.set_constaint(1, ConstraintType::Vertical);
    p.set_constaint(2, ConstraintType::Horizontal);
    p.apply_constraints();
    let c = coords(&p);
    assert_eq!(c[0].1.to_bits(), c[1].1.to_bits());
    assert_eq!(c[1].0.to_bits(), c[2].0.to_bits());
    assert_eq!(c[2].1.to_bits(), c[3].1.to_bits());
    assert_eq!(c[0].1, 14.25);
    assert_eq!(c[1].0, 50.0);
    assert_eq!(c[2].1, 80.125);
}

#[test]
fn propagation_skips_polygons_below_two_vertices() {
    let mut p = Polygon::new(vec![vertex(1.0, 2.0)]);
    p.constraints = vec![Some(ConstraintType::Horizontal)];
    p.apply_constraints();
    assert_eq!(coords(&p), vec![(1.0, 2.0)]);
    assert!(matches!(p.get_constraint(0), Some(ConstraintType::Horizontal)));
}

#[test]
fn g1_control_points_line_up_with_the_neighbours() {
    let mut p = Polygon::new(vec![
        vertex(0.0, 0.0),
        vertex_with(100.0, 0.0, Continuity::G1),
        vertex_with(100.0, 100.0, Continuity::G1),
        vertex(0.0, 100.0),
    ]);
    p.set_constaint(1, curve(control(100.0, 30.0), control(140.0, 70.0)));
    p.apply_constraints();
    assert_eq!(
        coords(&p),
        vec![(0.0, 0.0), (100.0, 0.0), (100.0, 100.0), (0.0, 100.0)]
    );
    let (c1, c2) = controls_of(&p, 1);
    assert_eq!(c1, (130.0, 0.0));
    assert_eq!(c2, (150.0, 100.0));
    match p.get_constraint(1) {
        Some(ConstraintType::Bezier { control1, control2, g1_start, g1_end, c1_start, c1_end }) => {
            assert_eq!(control1.role, PointRole::Control);
            assert_eq!(control1.continuity, Continuity::G1);
            assert_eq!(control2.role, PointRole::Control);
            assert_eq!(control2.continuity, Continuity::G1);
            assert!(g1_start && g1_end && !c1_start && !c1_end);
        }
        _ => panic!("the curve is gone"),
    }
}

#[test]
fn c1_control_points_sit_a_third_of_the_neighbour_away() {
    let mut p = Polygon::new(vec![
        vertex(10.0, 40.0),
        vertex_with(100.0, 10.0, Continuity::C1),
        vertex_with(130.0, 100.0, Continuity::C1),
        vertex(40.0, 160.0),
    ]);
    p.set_constaint(1, curve(control(0.0, 0.0), control(1.0, 1.0)));
    p.apply_constraints();
    let (c1, c2) = controls_of(&p, 1);
    assert_eq!(c1, (130.0, 0.0));
    assert_eq!(c2, (160.0, 80.0));
}

#[test]
fn other_continuities_leave_the_control_points() {
    let mut p = Polygon::new(vec![
        vertex(0.0, 0.0),
        vertex_with(100.0, 0.0, Continuity::G0),
        vertex(100.0, 100.0),
        vertex(0.0, 100.0),
    ]);
    p.set_constaint(1, curve(control(111.0, 31.0), control(141.0, 71.0)));
    p.apply_constraints();
    assert_eq!(controls_of(&p, 1), ((111.0, 31.0), (141.0, 71.0)));
}

#[test]
fn g1_leaves_the_control_point_without_a_direction() {
    let mut p = Polygon::new(vec![
        vertex(100.0, 0.0),
        vertex_with(100.0, 0.0, Continuity::G1),
        vertex(100.0, 100.0),
        vertex(0.0, 100.0),
    ]);
    p.set_constaint(1, curve(control(100.0, 30.0), control(140.0, 70.0)));
    let planned = p.plan_correction(1, 2, &curve(control(100.0, 30.0), control(140.0, 70.0)));
    assert!(matches!(planned, Correction::Controls { control1: None, control2: None }));
    p.apply_constraints();
    assert_eq!(controls_of(&p, 1), ((100.0, 30.0), (140.0, 70.0)));
}

#[test]
fn c1_leaves_the_control_point_without_a_direction() {
    let mut p = Polygon::new(vec![
        vertex(100.0, 0.0),
        vertex_with(100.0, 0.0, Continuity::C1),
        vertex_with(100.0, 100.0, Continuity::C1),
        vertex(100.0, 100.0),
    ]);
    p.set_constaint(1, curve(control(100.0, 30.0), control(140.0, 70.0)));
    let planned = p.plan_correction(1, 2, &curve(control(100.0, 30.0), control(140.0, 70.0)));
    assert!(matches!(planned, Correction::Controls { control1: None, control2: None }));
    p.apply_constraints();
    assert_eq!(controls_of(&p, 1), ((100.0, 30.0), (140.0, 70.0)));
    let v = vertex(5.0, 5.0);
    assert!(Polygon::<Real>::place_control(Continuity::C1, v, v, control(9.0, 9.0)).is_none());
    assert!(Polygon::<Real>::place_control(Continuity::G1, v, v, control(9.0, 9.0)).is_none());
}

#[test]
fn diagonal_plan_moves_both_ends_about_the_midpoint() {
    let offset = 50.0_f32 / (2.0 * std::f32::consts::SQRT_2);
    match Polygon::<Real>::plan_diagonal(vertex(0.0, 0.0), vertex(-30.0, 40.0)) {
        Correction::Endpoints { start_x, start_y, end_x, end_y } => {
            assert_eq!((start_x.0, start_y.0), (-15.0 + offset, 20.0 - offset));
            assert_eq!((end_x.0, end_y.0), (-15.0 - offset, 20.0 + offset));
        }
        _ => panic!("the edge has a length"),
    }
    match Polygon::<Real>::plan_diagonal(vertex(0.0, 7.0), vertex(10.0, 7.0)) {
        Correction::Endpoints { start_x, start_y, end_x, end_y } => {
            let offset = 10.0_f32 / (2.0 * std::f32::consts::SQRT_2);
            assert_eq!((start_x.0, start_y.0), (5.0 - offset, 7.0 - offset));
            assert_eq!((end_x.0, end_y.0), (5.0 + offset, 7.0 + offset));
        }
        _ => panic!("the edge has a length"),
    }
    let p = vertex(3.0, 3.0);
    assert!(matches!(Polygon::<Real>::plan_diagonal(p, p), Correction::Keep));
}

#[test]
fn length_plan_scales_the_delta_about_the_midpoint() {
    match Polygon::<Real>::plan_length(vertex(0.0, 0.0), vertex(100.0, 0.0), 200.0) {
        Correction::Endpoints { start_x, start_y, end_x, end_y } => {
            assert_eq!((start_x.0, start_y.0), (-50.0, 0.0));
            assert_eq!((end_x.0, end_y.0), (150.0, 0.0));
        }
        _ => panic!("the edge has a length"),
    }
    match Polygon::<Real>::plan_length(vertex(40.0, 60.0), vertex(10.0, 20.0), 25.0) {
        Correction::Endpoints { start_x, start_y, end_x, end_y } => {
            assert_eq!((start_x.0, start_y.0), (32.5, 50.0));
            assert_eq!((end_x.0, end_y.0), (17.5, 30.0));
        }
        _ => panic!("the edge has a length"),
    }
    let p = vertex(3.0, 3.0);
    assert!(matches!(Polygon::<Real>::plan_length(p, p, 10.0), Correction::Keep));
}

#[test]
fn place_control_follows_the_class() {
    let v = vertex(100.0, 0.0);
    let n = vertex(0.0, 0.0);
    let c = control(100.0, 30.0);
    assert!(Polygon::<Real>::place_control(Continuity::Unset, v, n, c).is_none());
    assert!(Polygon::<Real>::place_control(Continuity::G0, v, n, c).is_none());
    let g1 = Polygon::<Real>::place_control(Continuity::G1, v, n, c).unwrap();
    assert_eq!((g1.x.0, g1.y.0, g1.role, g1.continuity), (130.0, 0.0, PointRole::Control, Continuity::G1));
    let c1 = Polygon::<Real>::place_control(Continuity::C1, v, n, c).unwrap();
    assert_eq!((c1.x.0, c1.y.0, c1.role, c1.continuity), (100.0 + 100.0 / 3.0, 0.0, PointRole::Control, Continuity::C1));
}

#[test]
fn corrections_are_written_as_given() {
    let mut p = square();
    p.apply_correction(0, 1, Correction::Keep);
    assert_eq!(coords(&p), coords(&square()));
    p.apply_correction(0, 1, Correction::LevelY(Real(7.0)));
    assert_eq!(coords(&p)[..2], [(100.0, 7.0), (200.0, 7.0)]);
    p.apply_correction(1, 2, Correction::LevelX(Real(-3.0)));
    assert_eq!(coords(&p)[1..3], [(-3.0, 7.0), (-3.0, 200.0)]);
    p.apply_correction(
        3,
        0,
        Correction::Endpoints { start_x: Real(1.0), start_y: Real(2.0), end_x: Real(3.0), end_y: Real(4.0) },
    );
    assert_eq!(
        coords(&p),
        vec![(3.0, 4.0), (-3.0, 7.0), (-3.0, 200.0), (1.0, 2.0)]
    );
    p.apply_correction(2, 3, Correction::Controls { control1: Some(control(1.0, 1.0)), control2: None });
    assert!(p.get_constraint(2).is_none());
    p.set_constaint(2, curve(control(5.0, 6.0), control(7.0, 8.0)));
    p.apply_correction(2, 3, Correction::Controls { control1: None, control2: Some(control(9.0, 10.0)) });
    assert_eq!(controls_of(&p, 2), ((5.0, 6.0), (9.0, 10.0)));
    p.apply_correction(2, 3, Correction::Controls { control1: Some(control(0.5, 0.25)), control2: None });
    assert_eq!(controls_of(&p, 2), ((0.5, 0.25), (9.0, 10.0)));
}

#[test]
fn dragging_control1_turns_the_previous_vertex_for_g1() {
    let mut p = Polygon::new(vec![
        vertex(0.0, 0.0),
        vertex_with(100.0, 0.0, Continuity::G1),
        vertex(100.0, 100.0),
        vertex(0.0, 100.0),
    ]);
    p.set_constaint(1, curve(control(100.0, 30.0), control(140.0, 70.0)));
    p.enforce_continuity_after_control_move(1, 1);
    assert_eq!(
        coords(&p),
        vec![(100.0, -100.0), (100.0, 0.0), (100.0, 100.0), (0.0, 100.0)]
    );
    assert_eq!(controls_of(&p, 1), ((100.0, 30.0), (140.0, 70.0)));
}

#[test]
fn dragging_control2_moves_the_next_vertex_for_c1() {
    let mut p = Polygon::new(vec![
        vertex(0.0, 0.0),
        vertex(100.0, 0.0),
        vertex_with(100.0, 100.0, Continuity::C1),
        vertex(0.0, 100.0),
    ]);
    p.set_constaint(1, curve(control(100.0, 30.0), control(110.0, 80.0)));
    p.enforce_continuity_after_control_move(1, 2);
    assert_eq!(
        coords(&p),
        vec![(0.0, 0.0), (100.0, 0.0), (100.0, 100.0), (70.0, 160.0)]
    );
}

#[test]
fn control_moves_do_nothing_without_cause() {
    let mut p = Polygon::new(vec![
        vertex(0.0, 0.0),
        vertex_with(100.0, 0.0, Continuity::G0),
        vertex_with(100.0, 100.0, Continuity::C1),
        vertex(0.0, 100.0),
    ]);
    p.set_constaint(0, ConstraintType::Horizontal);
    p.set_constaint(1, curve(control(100.0, 30.0), control(110.0, 80.0)));
    let before = coords(&p);
    p.enforce_continuity_after_control_move(0, 1);
    p.enforce_continuity_after_control_move(1, 1);
    p.enforce_continuity_after_control_move(1, 0);
    p.enforce_continuity_after_control_move(1, 3);
    p.enforce_continuity_after_control_move(2, 2);
    assert_eq!(coords(&p), before);
}

#[test]
fn follow_control_follows_the_class() {
    let anchor = vertex(100.0, 0.0);
    let handle = control(100.0, 30.0);
    let neighbour = vertex(0.0, 0.0);
    assert!(Polygon::<Real>::follow_control(Continuity::Unset, anchor, handle, neighbour).is_none());
    assert!(Polygon::<Real>::follow_control(Continuity::G0, anchor, handle, neighbour).is_none());
    let g1 = Polygon::<Real>::follow_control(Continuity::G1, anchor, handle, neighbour).unwrap();
    assert_eq!((g1.0 .0, g1.1 .0), (100.0, -100.0));
    let c1 = Polygon::<Real>::follow_control(Continuity::C1, anchor, handle, neighbour).unwrap();
    assert_eq!((c1.0 .0, c1.1 .0), (100.0, -90.0));
}

#[test]
fn place_vertex_keeps_the_tags() {
    let mut p = Polygon::new(vec![vertex(0.0, 0.0), vertex_with(1.0, 1.0, Continuity::C1)]);
    p.place_vertex(1, Real(8.0), Real(9.0));
    assert_eq!(coords(&p), vec![(0.0, 0.0), (8.0, 9.0)]);
    assert_eq!(p.vertices[1].continuity, Continuity::C1);
    assert_eq!(p.vertices[1].role, PointRole::Vertex);
}
