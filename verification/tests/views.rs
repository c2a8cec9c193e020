use svg_reader::layout::{bounds_items, map_coordinates, shader_segments, BoundsItem, Segment};
use svg_reader::primitive::Primitive;
use svg_reader::stats::{count_kind, kind, kind_report, PrimitiveKind, ReportLabel};

fn sample() -> Vec<Primitive<f32>> {
    vec![
        Primitive::Move(1.0, 2.0),
        Primitive::Line(3.0, 4.0),
        Primitive::Quadratic(5.0, 6.0, 7.0, 8.0),
        Primitive::Cubic(1.0, 1.0, 2.0, 2.0, 3.0, 3.0),
        Primitive::Arc(2.0, 3.0, 0.0, 1.0, 0.0, 9.0, 9.0),
        Primitive::Close,
        Primitive::Line(1.0, 0.0),
    ]
}

#[test]
fn kinds_and_counts() {
    let prims = sample();
    assert_eq!(kind(&prims[0]), PrimitiveKind::Move);
    assert_eq!(kind(&prims[5]), PrimitiveKind::Close);
    assert_eq!(count_kind(&prims, PrimitiveKind::Line), 2);
    assert_eq!(count_kind(&prims, PrimitiveKind::Quadratic), 1);
    assert_eq!(count_kind(&prims, PrimitiveKind::Close), 1);
    assert_eq!(count_kind(&Vec::<Primitive<f32>>::new(), PrimitiveKind::Line), 0);
}

#[test]
fn report_lists_present_kinds_then_total() {
    let report = kind_report(&sample());
    assert_eq!(
        report,
        vec![
            (ReportLabel::Arc, 1),
            (ReportLabel::Line, 2),
            (ReportLabel::Cubic, 1),
            (ReportLabel::Quadr, 1),
            (ReportLabel::Total, 4),
        ]
    );
    let text: Vec<String> = report.iter().map(|(l, n)| format!("{}: {}", l.text(), n)).collect();
    let mut sorted = text.clone();
    sorted.sort();
    assert_eq!(text, sorted);
    assert_eq!(text[0], " Arc: 1");
}

#[test]
fn report_of_moves_only_has_a_zero_total() {
    let report = kind_report(&vec![Primitive::Move(0.0f32, 0.0), Primitive::Close]);
    assert_eq!(report, vec![(ReportLabel::Total, 0)]);
}

#[test]
fn bounds_items_follow_the_path() {
    let items = bounds_items(&sample(), 0.0);
    let text = format!("{:?}", items);
    let expected = vec![
        BoundsItem::Point((1.0f32, 2.0)),
        BoundsItem::Point((3.0, 4.0)),
        BoundsItem::QuadraticBox((3.0, 4.0), (5.0, 6.0), (7.0, 8.0)),
        BoundsItem::Point((7.0, 8.0)),
        BoundsItem::CubicBox((7.0, 8.0), (1.0, 1.0), (2.0, 2.0), (3.0, 3.0)),
        BoundsItem::Point((3.0, 3.0)),
        BoundsItem::Point((9.0, 9.0)),
        BoundsItem::Point((1.0, 0.0)),
    ];
    assert_eq!(text, format!("{:?}", expected));
}

#[test]
fn shader_segments_start_where_the_pen_is() {
    let segments = shader_segments(&sample(), 0.0);
    let expected = vec![
        Segment::Line((1.0f32, 2.0), (3.0, 4.0)),
        Segment::Quadratic((3.0, 4.0), (5.0, 6.0), (7.0, 8.0)),
        Segment::Line((0.0, 0.0), (1.0, 0.0)),
    ];
    assert_eq!(format!("{:?}", segments), format!("{:?}", expected));
}

#[test]
fn coordinates_mapped_and_radii_scaled() {
    let out = map_coordinates(
        &sample(),
        |x: f32, y: f32| (x * 2.0, 10.0 - y),
        |r: f32| (r / 2.0).max(0.0),
    );
    let expected = vec![
        Primitive::Move(2.0f32, 8.0),
        Primitive::Line(6.0, 6.0),
        Primitive::Quadratic(10.0, 4.0, 14.0, 2.0),
        Primitive::Cubic(2.0, 9.0, 4.0, 8.0, 6.0, 7.0),
        Primitive::Arc(1.0, 1.5, 0.0, 1.0, 0.0, 18.0, 1.0),
        Primitive::Close,
        Primitive::Line(2.0, 10.0),
    ];
    assert_eq!(format!("{:?}", out), format!("{:?}", expected));
}

#[test]
fn close_leaves_the_start_of_the_next_box() {
    let prims = vec![
        Primitive::Move(1.0f32, 1.0),
        Primitive::Close,
        Primitive::Quadratic(2.0, 2.0, 3.0, 3.0),
        Primitive::Close,
        Primitive::Cubic(4.0, 4.0, 5.0, 5.0, 6.0, 6.0),
    ];
    let expected = vec![
        BoundsItem::Point((1.0f32, 1.0)),
        BoundsItem::QuadraticBox((1.0, 1.0), (2.0, 2.0), (3.0, 3.0)),
        BoundsItem::Point((3.0, 3.0)),
        BoundsItem::CubicBox((3.0, 3.0), (4.0, 4.0), (5.0, 5.0), (6.0, 6.0)),
        BoundsItem::Point((6.0, 6.0)),
    ];
    assert_eq!(format!("{:?}", bounds_items(&prims, 0.0)), format!("{:?}", expected));
}
