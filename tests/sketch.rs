use kurbo::{Affine, BezPath, PathEl, Point, Size};
use whiskers::document::Document;
use whiskers::path::{Color, PathMetadata, DEFAULT_STROKE_WIDTH_BITS};
use whiskers::sketch::{PopOutcome, Sketch, DEFAULT_TOLERANCE_BITS};

fn segment(a: (f64, f64), b: (f64, f64)) -> BezPath {
    let mut p = BezPath::new();
    p.move_to(a);
    p.line_to(b);
    p
}

fn points(p: &BezPath) -> Vec<Point> {
    p.elements()
        .iter()
        .filter_map(|el| match el {
            PathEl::MoveTo(q) | PathEl::LineTo(q) => Some(*q),
            _ => None,
        })
        .collect()
}

fn close(a: Point, b: (f64, f64)) -> bool {
    (a.x - b.0).abs() < 1e-9 && (a.y - b.1).abs() < 1e-9
}

fn first_point(s: &Sketch, layer: usize, index: usize) -> Point {
    points(&s.document().paths(layer).unwrap()[index].data)[0]
}

#[test]
fn new_sketch_targets_layer_zero() {
    let s = Sketch::new();
    let layers = s.document().layers();
    assert_eq!(layers.len(), 1);
    assert_eq!(layers[0].id, 0);
    assert!(layers[0].paths.is_empty());
    assert_eq!(s.path_metadata(), PathMetadata::default());
    assert_eq!(s.path_metadata().stroke_width, 1.0f64.to_bits());
    assert_eq!(s.tolerance(), DEFAULT_TOLERANCE_BITS);
    assert_eq!(f64::from_bits(s.tolerance()), 0.05);
    assert_eq!(s.document().page_size(), None);
}

#[test]
fn with_document_keeps_existing_layers() {
    let mut d = Document::new();
    d.ensure_exists(3);
    let s = Sketch::with_document(d);
    let ids: Vec<usize> = s.document().layers().iter().map(|l| l.id).collect();
    assert_eq!(ids, vec![0, 3]);
}

#[test]
fn translate_then_rotate_keeps_origin_at_translation() {
    let mut s = Sketch::new();
    s.transform(&Affine::translate((5.0, 7.0)));
    s.transform(&Affine::rotate(1.0));
    s.add_path(segment((0.0, 0.0), (1.0, 0.0)));
    assert!(close(first_point(&s, 0, 0), (5.0, 7.0)));
    let second = points(&s.document().paths(0).unwrap()[0].data)[1];
    assert!(close(second, (5.0 + 1.0f64.cos(), 7.0 + 1.0f64.sin())));
}

#[test]
fn rotation_around_a_point_fixes_it() {
    let (cx, cy) = (3.0, -2.0);
    for theta in [0.0, 0.5, 1.0, 3.0, -2.0] {
        let mut s = Sketch::new();
        let around =
            Affine::translate((cx, cy)) * Affine::rotate(theta) * Affine::translate((-cx, -cy));
        s.transform(&around);
        s.add_path(segment((cx, cy), (cx + 1.0, cy)));
        assert!(close(first_point(&s, 0, 0), (cx, cy)));
    }
}

#[test]
fn extra_pop_leaves_base_frame() {
    let mut s = Sketch::new();
    s.transform(&Affine::translate((1.0, 2.0)));
    s.push_matrix();
    s.transform(&Affine::scale(3.0));
    s.push_matrix_reset();
    assert_eq!(s.pop_matrix(), PopOutcome::Popped);
    assert_eq!(s.pop_matrix(), PopOutcome::Popped);
    assert_eq!(s.pop_matrix(), PopOutcome::Underflow);
    assert_eq!(s.pop_matrix(), PopOutcome::Underflow);
    s.add_path(segment((0.0, 0.0), (1.0, 0.0)));
    assert!(close(first_point(&s, 0, 0), (1.0, 2.0)));
}

#[test]
fn push_matrix_copies_current_frame() {
    let mut s = Sketch::new();
    s.transform(&Affine::translate((4.0, 0.0)));
    s.push_matrix();
    s.transform(&Affine::scale(2.0));
    s.add_path(segment((1.0, 1.0), (2.0, 2.0)));
    s.pop_matrix();
    s.add_path(segment((1.0, 1.0), (2.0, 2.0)));
    assert!(close(first_point(&s, 0, 0), (6.0, 2.0)));
    assert!(close(first_point(&s, 0, 1), (5.0, 1.0)));
}

#[test]
fn push_matrix_reset_shadows_frame() {
    let mut s = Sketch::new();
    s.transform(&Affine::translate((4.0, 4.0)));
    s.push_matrix_reset();
    s.add_path(segment((1.0, 1.0), (2.0, 2.0)));
    s.pop_matrix();
    s.add_path(segment((1.0, 1.0), (2.0, 2.0)));
    assert!(close(first_point(&s, 0, 0), (1.0, 1.0)));
    assert!(close(first_point(&s, 0, 1), (5.0, 5.0)));
}

#[test]
fn colour_is_captured_at_draw_time() {
    let red = Color::new(255, 0, 0, 255);
    let green = Color::new(0, 255, 0, 255);
    let mut s = Sketch::new();
    s.color(red);
    s.add_path(segment((0.0, 0.0), (1.0, 0.0)));
    s.add_path(segment((0.0, 1.0), (1.0, 1.0)));
    s.color(green);
    s.add_path(segment((0.0, 2.0), (1.0, 2.0)));
    let paths = s.document().paths(0).unwrap();
    assert_eq!(paths.len(), 3);
    assert_eq!(paths[0].metadata.color, red);
    assert_eq!(paths[1].metadata.color, red);
    assert_eq!(paths[2].metadata.color, green);
}

#[test]
fn stroke_width_is_captured_at_draw_time() {
    let mut s = Sketch::new();
    s.add_path(segment((0.0, 0.0), (1.0, 0.0)));
    s.stroke_width(5.0f64.to_bits());
    s.add_path(segment((0.0, 0.0), (1.0, 0.0)));
    let paths = s.document().paths(0).unwrap();
    assert_eq!(paths[0].metadata.stroke_width, DEFAULT_STROKE_WIDTH_BITS);
    assert_eq!(f64::from_bits(paths[1].metadata.stroke_width), 5.0);
    assert_eq!(paths[0].metadata.color, Color::black());
}

#[test]
fn set_layer_routes_paths() {
    let mut s = Sketch::new();
    s.add_path(segment((0.0, 0.0), (1.0, 0.0)));
    s.set_layer(7);
    s.add_path(segment((0.0, 0.0), (1.0, 0.0)));
    s.add_path(segment((0.0, 0.0), (1.0, 0.0)));
    s.set_layer(2);
    s.set_layer(7);
    let ids: Vec<usize> = s.document().layers().iter().map(|l| l.id).collect();
    assert_eq!(ids, vec![0, 2, 7]);
    assert_eq!(s.document().paths(0).unwrap().len(), 1);
    assert_eq!(s.document().paths(2).unwrap().len(), 0);
    assert_eq!(s.document().paths(7).unwrap().len(), 2);
    assert!(s.document().paths(1).is_none());
}

#[test]
fn page_size_is_recorded() {
    let mut s = Sketch::new();
    s.page_size(Size::new(210.0, 297.0));
    assert_eq!(s.document().page_size(), Some(Size::new(210.0, 297.0)));
}

#[test]
fn tolerance_can_be_changed() {
    let mut s = Sketch::new();
    s.set_tolerance(0.5f64.to_bits());
    assert_eq!(f64::from_bits(s.tolerance()), 0.5);
}

#[test]
fn transform_document_moves_drawn_paths_only() {
    let mut s = Sketch::new();
    s.add_path(segment((1.0, 1.0), (2.0, 1.0)));
    s.transform_document(Affine::translate((10.0, 0.0)));
    s.add_path(segment((1.0, 1.0), (2.0, 1.0)));
    assert!(close(first_point(&s, 0, 0), (11.0, 1.0)));
    assert!(close(first_point(&s, 0, 1), (1.0, 1.0)));
    let d = s.into_document();
    assert_eq!(d.paths(0).unwrap().len(), 2);
}
