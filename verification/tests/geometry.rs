use shapes::arc::{compute_arc_geometry, ChordFit};
use shapes::constraint::ConstraintType;
use shapes::point::{Continuity, Point, PointRole};
use shapes::polygon::Polygon;
use shapes::scalar::{half, mean, millionth, norm, two, zero, Scalar};
use shapes::selection::{
    distance_point_to_segment, first_control_within, first_vertex_within, Selection,
};
use shapes::view::{arc_tangents, DrawMode, MyPolygonDrawer, PolygonDrawer};

#[derive(Clone, Copy, Debug, PartialEq)]
struct Real(f32);

impl Scalar for Real {
    type Wide = f64;

    fn from_int(n: i32) -> Self {
        Real(n as f32)
    }

    fn epsilon() -> Self {
        Real(f32::EPSILON)
    }

    fn narrow(wide: f64) -> Self {
        Real(wide as f32)
    }

    fn plus(self, rhs: Self) -> Self {
        Real(self.0 + rhs.0)
    }

    fn minus(self, rhs: Self) -> Self {
        Real(self.0 - rhs.0)
    }

    fn times(self, rhs: Self) -> Self {
        Real(self.0 * rhs.0)
    }

    fn over(self, rhs: Self) -> Self {
        Real(self.0 / rhs.0)
    }

    fn negated(self) -> Self {
        Real(-self.0)
    }

    fn sqrt(self) -> Self {
        Real(self.0.sqrt())
    }

    fn powi(self, n: i32) -> Self {
        Real(self.0.powi(n))
    }

    fn abs(self) -> Self {
        Real(self.0.abs())
    }

    fn max(self, rhs: Self) -> Self {
        Real(self.0.max(rhs.0))
    }

    fn clamp(self, lo: Self, hi: Self) -> Self {
        Real(self.0.clamp(lo.0, hi.0))
    }

    fn less(self, rhs: Self) -> bool {
        self.0 < rhs.0
    }

    fn at_most(self, rhs: Self) -> bool {
        self.0 <= rhs.0
    }

    fn equals(self, rhs: Self) -> bool {
        self.0 == rhs.0
    }
}

fn vertex(x: f32, y: f32) -> Point<Real> {
    Point::new(Real(x), Real(y))
}

fn control(x: f32, y: f32) -> Point<Real> {
    Point { x: Real(x), y: Real(y), role: PointRole::Control, continuity: Continuity::Unset }
}

fn square() -> Polygon<Real> {
    Polygon::new(vec![
        vertex(100.0, 100.0),
        vertex(200.0, 100.0),
        vertex(200.0, 200.0),
        vertex(100.0, 200.0),
    ])
}

fn close(a: f32, b: f32) -> bool {
    (a - b).abs() < 1e-4
}

fn at(p: Point<Real>) -> (f32, f32) {
    (p.x.0, p.y.0)
}

fn plain(p: Point<Real>) -> bool {
    p.role == PointRole::Vertex && p.continuity == Continuity::Unset
}

fn curved_square() -> Polygon<Real> {
    let mut p = square();
    p.set_constaint(
        1,
        ConstraintType::Bezier {
            control1: control(230.0, 120.0),
            control2: control(230.0, 180.0),
            g1_start: false,
            g1_end: false,
            c1_start: false,
            c1_end: false,
        },
    );
    p
}

#[test]
fn scalar_helpers_are_the_usual_numbers() {
    assert_eq!(zero::<Real>(), Real(0.0));
    assert_eq!(two::<Real>(), Real(2.0));
    assert_eq!(half::<Real>(), Real(0.5));
    assert_eq!(millionth::<Real>(), Real(1e-6));
    assert_eq!(mean(Real(150.0), Real(100.0)), Real(125.0));
    assert_eq!(norm(Real(3.0), Real(-4.0)), Real(5.0));
    assert_eq!(two::<Real>().sqrt(), Real(std::f32::consts::SQRT_2));
}

#[test]
fn point_arithmetic() {
    let a = vertex(1.0, 2.0);
    let b = vertex(4.0, 6.0);
    assert_eq!(a.distance(&b), Real(5.0));
    assert_eq!(vertex(3.0, 4.0).length(), Real(5.0));
    assert_eq!(at(a.plus(b)), (5.0, 8.0));
    assert_eq!(at(b.minus(a)), (3.0, 4.0));
    assert_eq!(at(a.scale(Real(2.5))), (2.5, 5.0));
    assert_eq!(at(a.rot90()), (-2.0, 1.0));
    assert_eq!(at(vertex(3.0, 4.0).normalized()), (0.6, 0.8));
    assert!(plain(control(1.0, 1.0).plus(a)));
    assert!(plain(control(1.0, 1.0).rot90()));
}

#[test]
fn normalized_zero_vector_is_zero() {
    let n = vertex(0.0, 0.0).normalized();
    assert_eq!(at(n), (0.0, 0.0));
    assert!(plain(n));
    let m = control(-0.0, 0.0).normalized();
    assert_eq!(at(m), (0.0, 0.0));
    assert!(plain(m));
}

#[test]
fn translate_keeps_role_and_continuity() {
    let mut c = Point { x: Real(1.0), y: Real(1.0), role: PointRole::Control, continuity: Continuity::C1 };
    c.translate(Real(2.0), Real(-3.0));
    assert_eq!(at(c), (3.0, -2.0));
    assert_eq!(c.role, PointRole::Control);
    assert_eq!(c.continuity, Continuity::C1);
}

#[test]
fn default_arc_is_the_half_circle_on_the_left() {
    let p = square();
    let (center, radius) = p.compute_default_arc(vertex(0.0, 0.0), vertex(100.0, 0.0));
    assert_eq!(at(center), (50.0, 50.0));
    assert_eq!(radius, Real(50.0));
    assert!(plain(center));
    let (center, radius) = p.compute_default_arc(vertex(0.0, 0.0), vertex(0.0, 8.0));
    assert_eq!(at(center), (-4.0, 4.0));
    assert_eq!(radius, Real(4.0));
}

#[test]
fn default_arc_over_a_chord_without_length_is_a_point() {
    let p = square();
    let (center, radius) = p.compute_default_arc(vertex(30.0, -4.0), vertex(30.0, -4.0));
    assert_eq!(at(center), (30.0, -4.0));
    assert_eq!(radius, Real(0.0));
    assert!(plain(center));
}

#[test]
fn arc_from_chord_refuses_a_radius_below_half_the_chord() {
    let arc = Polygon::<Real>::compute_arc_from_chord(
        vertex(0.0, 0.0),
        vertex(100.0, 0.0),
        Some(Real(40.0)),
        true,
    );
    assert!(arc.is_none());
}

#[test]
fn arc_from_chord_refuses_a_chord_without_length() {
    let p = vertex(3.0, 3.0);
    assert!(Polygon::<Real>::compute_arc_from_chord(p, p, Some(Real(10.0)), true).is_none());
    assert!(Polygon::<Real>::compute_arc_from_chord(p, p, None, false).is_none());
}

#[test]
fn chord_is_measured_against_the_radius() {
    let start = vertex(0.0, 0.0);
    let end = vertex(100.0, 0.0);
    assert!(matches!(
        Polygon::<Real>::measure_chord(start, start, Some(Real(5.0))),
        ChordFit::NoChord
    ));
    assert!(matches!(
        Polygon::<Real>::measure_chord(start, end, Some(Real(40.0))),
        ChordFit::RadiusTooSmall
    ));
    match Polygon::<Real>::measure_chord(start, end, None) {
        ChordFit::Fits { chord_len, radius } => {
            assert_eq!(chord_len, Real(100.0));
            assert_eq!(radius, Real(50.0));
        }
        _ => panic!("half the chord must fit"),
    }
    match Polygon::<Real>::measure_chord(start, end, Some(Real(130.0))) {
        ChordFit::Fits { chord_len, radius } => {
            assert_eq!(chord_len, Real(100.0));
            assert_eq!(radius, Real(130.0));
        }
        _ => panic!("a radius above half the chord must fit"),
    }
}

#[test]
fn arc_over_chord_follows_the_measure() {
    let start = vertex(0.0, 0.0);
    let end = vertex(100.0, 0.0);
    assert!(Polygon::<Real>::arc_over_chord(start, end, ChordFit::NoChord, true).is_none());
    assert!(Polygon::<Real>::arc_over_chord(start, end, ChordFit::RadiusTooSmall, false).is_none());
    let fit = ChordFit::Fits { chord_len: Real(100.0), radius: Real(130.0) };
    let (center, radius) = Polygon::<Real>::arc_over_chord(start, end, fit, true).unwrap();
    assert_eq!(at(center), (50.0, 120.0));
    assert_eq!(radius, Real(130.0));
    let (center, radius) = Polygon::<Real>::arc_over_chord(start, end, fit.clone(), false).unwrap();
    assert_eq!(at(center), (50.0, -120.0));
    assert_eq!(radius, Real(130.0));
}

#[test]
fn arc_from_chord_offsets_the_midpoint_by_the_sagitta() {
    let start = vertex(0.0, 0.0);
    let end = vertex(100.0, 0.0);
    let (center, radius) =
        Polygon::<Real>::compute_arc_from_chord(start, end, Some(Real(130.0)), true).unwrap();
    assert_eq!(at(center), (50.0, 120.0));
    assert_eq!(radius, Real(130.0));
    assert!(plain(center));
    let (center, radius) =
        Polygon::<Real>::compute_arc_from_chord(start, end, Some(Real(130.0)), false).unwrap();
    assert_eq!(at(center), (50.0, -120.0));
    assert_eq!(radius, Real(130.0));
}

#[test]
fn arc_from_chord_defaults_to_the_half_circle() {
    let (center, radius) =
        Polygon::<Real>::compute_arc_from_chord(vertex(0.0, 0.0), vertex(100.0, 0.0), None, true)
            .unwrap();
    assert_eq!(at(center), (50.0, 0.0));
    assert_eq!(radius, Real(50.0));
    let (center, radius) = Polygon::<Real>::compute_arc_from_chord(
        vertex(0.0, 0.0),
        vertex(100.0, 0.0),
        Some(Real(50.0)),
        false,
    )
    .unwrap();
    assert_eq!(at(center), (50.0, 0.0));
    assert_eq!(radius, Real(50.0));
}

#[test]
fn arc_geometry_without_tangents_is_the_half_circle() {
    let start = vertex(0.0, 0.0);
    let end = vertex(100.0, 0.0);
    let (center, radius) = compute_arc_geometry(start, end, None, None, false, false);
    assert_eq!(at(center), (50.0, 50.0));
    assert_eq!(radius, Real((5000.0_f32).sqrt()));
    assert!(plain(center));
    let with_points =
        compute_arc_geometry(start, end, Some(vertex(0.0, -100.0)), Some(vertex(7.0, 7.0)), false, false);
    assert_eq!(at(with_points.0), (50.0, 50.0));
    let without_points = compute_arc_geometry(start, end, None, None, true, true);
    assert_eq!(at(without_points.0), (50.0, 50.0));
    assert_eq!(without_points.1, radius);
}

#[test]
fn arc_geometry_takes_the_tangent_at_the_start() {
    let start = vertex(0.0, 0.0);
    let end = vertex(100.0, 0.0);
    let (center, radius) =
        compute_arc_geometry(start, end, Some(vertex(0.0, -100.0)), None, true, false);
    assert_eq!(at(center), (50.0, 0.0));
    assert_eq!(radius, Real(50.0));
    let (center, radius) =
        compute_arc_geometry(start, end, Some(vertex(-100.0, -100.0)), Some(vertex(5.0, 5.0)), true, true);
    assert!(close(center.x.0, 50.0));
    assert!(close(center.y.0, -50.0));
    assert!(close(radius.0, (5000.0_f32).sqrt()));
}

#[test]
fn arc_geometry_takes_the_tangent_at_the_end() {
    let start = vertex(0.0, 0.0);
    let end = vertex(100.0, 0.0);
    let (center, radius) =
        compute_arc_geometry(start, end, None, Some(vertex(100.0, 100.0)), false, true);
    assert_eq!(at(center), (50.0, 0.0));
    assert_eq!(radius, Real(50.0));
    let (center, radius) =
        compute_arc_geometry(start, end, None, Some(vertex(100.0, 100.0)), true, true);
    assert_eq!(at(center), (50.0, 0.0));
    assert_eq!(radius, Real(50.0));
}

#[test]
fn arc_geometry_falls_back_where_the_lines_are_parallel() {
    let start = vertex(0.0, 0.0);
    let end = vertex(100.0, 0.0);
    let (center, radius) =
        compute_arc_geometry(start, end, Some(vertex(-100.0, 0.0)), None, true, false);
    assert_eq!(at(center), (50.0, 50.0));
    assert_eq!(radius, Real((5000.0_f32).sqrt()));
    let (center, _) = compute_arc_geometry(start, end, None, Some(vertex(200.0, 0.0)), false, true);
    assert_eq!(at(center), (50.0, 50.0));
}

#[test]
fn drawers_share_the_arc_geometry() {
    let _library = PolygonDrawer::new();
    let _pixels = MyPolygonDrawer::new();
    let start = vertex(0.0, 0.0);
    let end = vertex(100.0, 0.0);
    let ts = Some(vertex(0.0, -100.0));
    let a = PolygonDrawer::compute_arc_geometry(start, end, ts, None, true, false);
    let b = MyPolygonDrawer::compute_arc_geometry(start, end, ts, None, true, false);
    assert_eq!((at(a.0), a.1), ((50.0, 0.0), Real(50.0)));
    assert_eq!((at(b.0), b.1), ((50.0, 0.0), Real(50.0)));
}

#[test]
fn draw_modes_compare_by_variant() {
    assert_eq!(DrawMode::Library, DrawMode::Library);
    assert_ne!(DrawMode::Library, DrawMode::Bresenham);
}

#[test]
fn arc_tangents_do_not_wrap_around() {
    let p = square();
    let (before, after) = arc_tangents(&p, 0);
    assert!(before.is_none());
    assert_eq!(at(after.unwrap()), (200.0, 200.0));
    let (before, after) = arc_tangents(&p, 1);
    assert_eq!(at(before.unwrap()), (100.0, 100.0));
    assert_eq!(at(after.unwrap()), (100.0, 200.0));
    let (before, after) = arc_tangents(&p, 2);
    assert_eq!(at(before.unwrap()), (200.0, 100.0));
    assert!(after.is_none());
    let (before, after) = arc_tangents(&p, 3);
    assert_eq!(at(before.unwrap()), (200.0, 200.0));
    assert!(after.is_none());
}

#[test]
fn distance_to_a_segment() {
    let a = vertex(0.0, 0.0);
    let b = vertex(10.0, 0.0);
    assert_eq!(distance_point_to_segment(&vertex(5.0, 3.0), &a, &b), Real(3.0));
    assert_eq!(distance_point_to_segment(&vertex(-3.0, 4.0), &a, &b), Real(5.0));
    assert_eq!(distance_point_to_segment(&vertex(13.0, -4.0), &a, &b), Real(5.0));
    assert_eq!(distance_point_to_segment(&vertex(7.0, 0.0), &a, &b), Real(0.0));
}

#[test]
fn new_selection_is_empty() {
    let s = Selection::new();
    assert_eq!(s.selected_vertex, None);
    assert_eq!(s.selected_control, None);
}

#[test]
fn select_vertex_takes_the_first_vertex_in_reach() {
    let mut p = square();
    p.move_vertex(1, Real(-95.0), Real(0.0));
    let mut s = Selection::new();
    s.selected_control = Some((9, 2));
    assert_eq!(s.select_vertex(&p, vertex(103.0, 100.0), Real(15.0)), Some(0));
    assert_eq!(s.selected_vertex, Some(0));
    assert_eq!(s.selected_control, Some((9, 2)));
    assert_eq!(s.select_vertex(&p, vertex(110.0, 100.0), Real(6.0)), Some(1));
    assert_eq!(s.selected_vertex, Some(1));
    assert_eq!(first_vertex_within(&p, &vertex(200.0, 195.0), Real(5.5)), Some(2));
}

#[test]
fn select_vertex_is_strict_about_the_radius() {
    let p = square();
    let mut s = Selection::new();
    assert_eq!(s.select_vertex(&p, vertex(100.0, 110.0), Real(10.0)), None);
    assert_eq!(s.select_vertex(&p, vertex(100.0, 110.0), Real(10.5)), Some(0));
}

#[test]
fn select_vertex_falls_back_to_control_points() {
    let p = curved_square();
    let mut s = Selection::new();
    s.selected_vertex = Some(3);
    assert_eq!(s.select_vertex(&p, vertex(231.0, 179.0), Real(5.0)), None);
    assert_eq!(s.selected_vertex, None);
    assert_eq!(s.selected_control, Some((1, 2)));
    assert_eq!(s.select_vertex(&p, vertex(229.0, 121.0), Real(5.0)), None);
    assert_eq!(s.selected_control, Some((1, 1)));
    assert_eq!(s.select_vertex(&p, vertex(230.0, 150.0), Real(40.0)), None);
    assert_eq!(s.selected_control, Some((1, 1)));
    assert_eq!(first_control_within(&p, &vertex(230.0, 150.0), Real(29.0)), None);
}

#[test]
fn select_vertex_clears_the_selection_on_a_miss() {
    let p = curved_square();
    let mut s = Selection::new();
    s.selected_vertex = Some(2);
    s.selected_control = Some((1, 1));
    assert_eq!(s.select_vertex(&p, vertex(0.0, 0.0), Real(10.0)), None);
    assert_eq!(s.selected_vertex, None);
    assert_eq!(s.selected_control, None);
}

#[test]
fn settle_prefers_the_vertex() {
    let mut s = Selection::new();
    s.selected_control = Some((4, 1));
    assert_eq!(s.settle(Some(7), Some((2, 2))), Some(7));
    assert_eq!(s.selected_vertex, Some(7));
    assert_eq!(s.selected_control, Some((4, 1)));
    assert_eq!(s.settle(None, Some((2, 2))), None);
    assert_eq!(s.selected_vertex, None);
    assert_eq!(s.selected_control, Some((2, 2)));
    assert_eq!(s.settle(None, None), None);
    assert_eq!(s.selected_control, None);
}

#[test]
fn select_edge_takes_the_nearest_edge_in_reach() {
    let p = square();
    let s = Selection::new();
    assert_eq!(s.select_edge(&p, &vertex(150.0, 104.0), Real(10.0)), Some(0));
    assert_eq!(s.select_edge(&p, &vertex(196.0, 150.0), Real(10.0)), Some(1));
    assert_eq!(s.select_edge(&p, &vertex(150.0, 203.0), Real(10.0)), Some(2));
    assert_eq!(s.select_edge(&p, &vertex(97.0, 150.0), Real(10.0)), Some(3));
    assert_eq!(s.select_edge(&p, &vertex(150.0, 150.0), Real(10.0)), None);
    assert_eq!(s.select_edge(&p, &vertex(150.0, 110.0), Real(10.0)), None);
    assert_eq!(s.select_edge(&p, &vertex(197.0, 102.0), Real(10.0)), Some(0));
    assert_eq!(s.select_edge(&p, &vertex(198.0, 103.0), Real(10.0)), Some(1));
    assert_eq!(s.select_edge(&p, &vertex(200.0, 100.0), Real(10.0)), Some(0));
}

#[test]
fn select_edge_needs_two_vertices() {
    let s = Selection::new();
    let single = Polygon::new(vec![vertex(1.0, 1.0)]);
    assert_eq!(s.select_edge(&single, &vertex(1.0, 1.0), Real(10.0)), None);
    let empty: Polygon<Real> = Polygon::new(vec![]);
    assert_eq!(s.select_edge(&empty, &vertex(1.0, 1.0), Real(10.0)), None);
    let pair = Polygon::new(vec![vertex(0.0, 0.0), vertex(10.0, 0.0)]);
    assert_eq!(s.select_edge(&pair, &vertex(5.0, 1.0), Real(2.0)), Some(0));
}

#[test]
fn line_of_a_single_pixel() {
    assert_eq!(MyPolygonDrawer::bresenham_line((4, -2), (4, -2)), vec![(4, -2)]);
}

#[test]
fn line_along_the_axes() {
    assert_eq!(
        MyPolygonDrawer::bresenham_line((0, 0), (3, 0)),
        vec![(0, 0), (1, 0), (2, 0), (3, 0)]
    );
    assert_eq!(
        MyPolygonDrawer::bresenham_line((2, 1), (2, -2)),
        vec![(2, 1), (2, 0), (2, -1), (2, -2)]
    );
}

#[test]
fn line_in_a_shallow_octant() {
    assert_eq!(
        MyPolygonDrawer::bresenham_line((0, 0), (3, 1)),
        vec![(0, 0), (1, 0), (2, 1), (3, 1)]
    );
    assert_eq!(
        MyPolygonDrawer::bresenham_line((0, 0), (6, 2)),
        vec![(0, 0), (1, 0), (2, 1), (3, 1), (4, 1), (5, 2), (6, 2)]
    );
}

#[test]
fn line_in_a_steep_octant_backwards() {
    assert_eq!(
        MyPolygonDrawer::bresenham_line((1, 5), (-1, 0)),
        vec![(1, 5), (1, 4), (0, 3), (0, 2), (-1, 1), (-1, 0)]
    );
}

#[test]
fn line_on_the_diagonal() {
    assert_eq!(
        MyPolygonDrawer::bresenham_line((-1, -1), (2, 2)),
        vec![(-1, -1), (0, 0), (1, 1), (2, 2)]
    );
}

#[test]
fn line_across_the_whole_range_has_one_pixel_per_step() {
    let pixels = MyPolygonDrawer::bresenham_line((i32::MIN, 7), (i32::MIN + 100_000, -7));
    assert_eq!(pixels.len(), 100_001);
    assert_eq!(pixels[0], (i32::MIN, 7));
    assert_eq!(pixels[100_000], (i32::MIN + 100_000, -7));
    assert_eq!(pixels[50_000], (i32::MIN + 50_000, 0));
    let far = MyPolygonDrawer::bresenham_line((i32::MAX - 2, i32::MIN), (i32::MAX, i32::MIN + 1));
    assert_eq!(
        far,
        vec![(i32::MAX - 2, i32::MIN), (i32::MAX - 1, i32::MIN), (i32::MAX, i32::MIN + 1)]
    );
}
