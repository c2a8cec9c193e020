use svg_reader::path::{arity, read_path, CommandKind, PathCommand};
use svg_reader::primitive::{move_origin, Primitive};

fn cmd(kind: CommandKind, relative: bool, params: &[f32]) -> PathCommand<f32> {
    PathCommand {
        kind,
        relative,
        params: params.to_vec(),
    }
}

fn read(cmds: &[PathCommand<f32>]) -> Vec<Primitive<f32>> {
    read_path(
        &cmds.to_vec(),
        0.0,
        |value: f32, current: f32| value + current,
        |current: f32, control: f32| 2.0 * current - control,
    )
}

fn same(a: &[Primitive<f32>], b: &[Primitive<f32>]) -> bool {
    format!("{:?}", a) == format!("{:?}", b)
}

#[test]
fn move_origin_of_each_variant() {
    assert_eq!(move_origin(&Primitive::Move(1.0f32, 2.0), 0.0), (1.0, 2.0));
    assert_eq!(move_origin(&Primitive::Line(3.0f32, 4.0), 0.0), (3.0, 4.0));
    assert_eq!(move_origin(&Primitive::Quadratic(9.0f32, 9.0, 5.0, 6.0), 0.0), (5.0, 6.0));
    assert_eq!(
        move_origin(&Primitive::Cubic(9.0f32, 9.0, 8.0, 8.0, 7.0, 1.5), 0.0),
        (7.0, 1.5)
    );
    assert_eq!(
        move_origin(&Primitive::Arc(1.0f32, 1.0, 0.0, 0.0, 1.0, 4.0, 2.0), 0.0),
        (4.0, 2.0)
    );
    assert_eq!(move_origin(&Primitive::<f32>::Close, 0.0), (0.0, 0.0));
}

#[test]
fn arity_of_each_command() {
    assert_eq!(arity(CommandKind::Move), 2);
    assert_eq!(arity(CommandKind::Line), 2);
    assert_eq!(arity(CommandKind::HorizontalLine), 1);
    assert_eq!(arity(CommandKind::VerticalLine), 1);
    assert_eq!(arity(CommandKind::QuadraticCurve), 4);
    assert_eq!(arity(CommandKind::SmoothQuadraticCurve), 2);
    assert_eq!(arity(CommandKind::CubicCurve), 6);
    assert_eq!(arity(CommandKind::SmoothCubicCurve), 4);
    assert_eq!(arity(CommandKind::EllipticalArc), 7);
    assert_eq!(arity(CommandKind::Close), 0);
}

#[test]
fn absolute_and_relative_points() {
    let out = read(&[
        cmd(CommandKind::Move, false, &[10.0, 20.0]),
        cmd(CommandKind::Line, true, &[1.0, 2.0, 3.0, 4.0]),
        cmd(CommandKind::Line, false, &[0.5, 0.5]),
    ]);
    assert!(same(
        &out,
        &[
            Primitive::Move(10.0, 20.0),
            Primitive::Line(11.0, 22.0),
            Primitive::Line(14.0, 26.0),
            Primitive::Line(0.5, 0.5),
        ]
    ));
}

#[test]
fn horizontal_and_vertical_lines() {
    let out = read(&[
        cmd(CommandKind::Move, false, &[1.0, 2.0]),
        cmd(CommandKind::HorizontalLine, false, &[5.0]),
        cmd(CommandKind::VerticalLine, true, &[3.0, 1.0]),
        cmd(CommandKind::HorizontalLine, true, &[-1.0]),
    ]);
    assert!(same(
        &out,
        &[
            Primitive::Move(1.0, 2.0),
            Primitive::Line(5.0, 2.0),
            Primitive::Line(5.0, 5.0),
            Primitive::Line(5.0, 6.0),
            Primitive::Line(4.0, 6.0),
        ]
    ));
}

#[test]
fn relative_curve_points_are_offsets_from_the_segment_start() {
    let out = read(&[
        cmd(CommandKind::Move, false, &[1.0, 1.0]),
        cmd(CommandKind::CubicCurve, true, &[1.0, 0.0, 2.0, 0.0, 3.0, 0.0]),
        cmd(CommandKind::QuadraticCurve, true, &[1.0, 1.0, 2.0, 2.0]),
    ]);
    assert!(same(
        &out,
        &[
            Primitive::Move(1.0, 1.0),
            Primitive::Cubic(2.0, 1.0, 3.0, 1.0, 4.0, 1.0),
            Primitive::Quadratic(5.0, 2.0, 6.0, 3.0),
        ]
    ));
}

#[test]
fn smooth_curves_reflect_the_last_control_point() {
    let out = read(&[
        cmd(CommandKind::QuadraticCurve, false, &[1.0, 2.0, 2.0, 0.0]),
        cmd(CommandKind::SmoothQuadraticCurve, false, &[4.0, 0.0]),
        cmd(CommandKind::CubicCurve, false, &[4.0, 1.0, 5.0, 2.0, 6.0, 0.0]),
        cmd(CommandKind::SmoothCubicCurve, false, &[8.0, 1.0, 9.0, 0.0]),
    ]);
    assert!(same(
        &out,
        &[
            Primitive::Quadratic(1.0, 2.0, 2.0, 0.0),
            Primitive::Quadratic(3.0, -2.0, 4.0, 0.0),
            Primitive::Cubic(4.0, 1.0, 5.0, 2.0, 6.0, 0.0),
            Primitive::Cubic(7.0, -2.0, 8.0, 1.0, 9.0, 0.0),
        ]
    ));
}

#[test]
fn lines_leave_the_control_point_as_it_is() {
    // The reflected control point comes from the last curve, lines in between
    // do not reset it.
    let out = read(&[
        cmd(CommandKind::QuadraticCurve, false, &[1.0, 1.0, 2.0, 0.0]),
        cmd(CommandKind::Line, false, &[4.0, 0.0]),
        cmd(CommandKind::SmoothQuadraticCurve, false, &[6.0, 0.0]),
    ]);
    assert!(same(
        &out,
        &[
            Primitive::Quadratic(1.0, 1.0, 2.0, 0.0),
            Primitive::Line(4.0, 0.0),
            Primitive::Quadratic(7.0, -1.0, 6.0, 0.0),
        ]
    ));
}

#[test]
fn arcs_offset_only_their_end_point() {
    let out = read(&[
        cmd(CommandKind::Move, false, &[10.0, 10.0]),
        cmd(CommandKind::EllipticalArc, true, &[5.0, 6.0, 30.0, 1.0, 0.0, 2.0, 3.0]),
    ]);
    assert!(same(
        &out,
        &[
            Primitive::Move(10.0, 10.0),
            Primitive::Arc(5.0, 6.0, 30.0, 1.0, 0.0, 12.0, 13.0),
        ]
    ));
}

#[test]
fn missing_parameters_read_as_zero() {
    let out = read(&[
        cmd(CommandKind::Line, false, &[1.0, 2.0, 3.0]),
        cmd(CommandKind::CubicCurve, false, &[1.0]),
    ]);
    assert!(same(
        &out,
        &[
            Primitive::Line(1.0, 2.0),
            Primitive::Line(3.0, 0.0),
            Primitive::Cubic(1.0, 0.0, 0.0, 0.0, 0.0, 0.0),
        ]
    ));
}

#[test]
fn close_draws_nothing_and_keeps_the_pen() {
    let out = read(&[
        cmd(CommandKind::Move, false, &[3.0, 4.0]),
        cmd(CommandKind::Close, false, &[]),
        cmd(CommandKind::Line, true, &[1.0, 1.0]),
    ]);
    assert!(same(&out, &[Primitive::Move(3.0, 4.0), Primitive::Line(4.0, 5.0)]));
}

#[test]
fn one_primitive_per_started_repetition() {
    let out = read(&[
        cmd(CommandKind::QuadraticCurve, false, &[1.0; 9]),
        cmd(CommandKind::EllipticalArc, false, &[1.0; 14]),
        cmd(CommandKind::Move, false, &[]),
    ]);
    // ceil(9 / 4) + ceil(14 / 7) + 0
    assert_eq!(out.len(), 5);
    assert!(out.iter().all(|p| !matches!(p, Primitive::Close)));
}

#[test]
fn empty_path_reads_to_nothing() {
    assert!(read(&[]).is_empty());
}
