use std::cell::RefCell;

use svg_reader::curves::{flatten_quadratics, reduce_cubics, split_cubics};
use svg_reader::lines::merge_collinear_lines;
use svg_reader::optimize::simplify;
use svg_reader::primitive::{move_origin, Primitive};
use svg_reader::quadratics::merge_quadratic_runs;

type P = (i64, i64);

fn same(a: &[Primitive<i64>], b: &[Primitive<i64>]) -> bool {
    format!("{:?}", a) == format!("{:?}", b)
}

fn end(prims: &[Primitive<i64>]) -> P {
    prims.last().map(|p| move_origin(p, 0)).unwrap_or((0, 0))
}

#[test]
fn cubics_reduced_where_the_fit_succeeds() {
    let prims = vec![
        Primitive::Move(1, 1),
        Primitive::Cubic(2, 2, 3, 3, 4, 4),
        Primitive::Cubic(5, 5, 6, 6, 7, 7),
        Primitive::Line(8, 8),
    ];
    let starts = RefCell::new(Vec::new());
    let out = reduce_cubics(&prims, 0, |s: P, c1: P, _c2: P, _e: P| {
        starts.borrow_mut().push(s);
        if c1.0 == 2 {
            Some((s.0 + 100, s.1 + 100))
        } else {
            None
        }
    });
    assert!(same(
        &out,
        &[
            Primitive::Move(1, 1),
            Primitive::Quadratic(101, 101, 4, 4),
            Primitive::Cubic(5, 5, 6, 6, 7, 7),
            Primitive::Line(8, 8),
        ]
    ));
    assert_eq!(*starts.borrow(), vec![(1, 1), (4, 4)]);
    assert_eq!(end(&out), end(&prims));
}

#[test]
fn cubic_after_close_starts_at_the_origin() {
    let prims = vec![Primitive::Line(5, 5), Primitive::Close, Primitive::Cubic(1, 1, 2, 2, 3, 3)];
    let out = reduce_cubics(&prims, 0, |s: P, _: P, _: P, _: P| Some(s));
    assert!(same(
        &out,
        &[Primitive::Line(5, 5), Primitive::Close, Primitive::Quadratic(0, 0, 3, 3)]
    ));
}

#[test]
fn cubics_split_in_two_quadratics() {
    let prims = vec![
        Primitive::Move(1, 1),
        Primitive::Cubic(2, 2, 3, 3, 4, 4),
        Primitive::Line(5, 5),
        Primitive::Cubic(6, 6, 7, 7, 8, 8),
    ];
    let out = split_cubics(&prims, 0, |s: P, c1: P, c2: P, e: P| {
        ((s.0 + c1.0, s.1), (c2.0 * 10, c2.1 * 10), (e.0 * 100, 0))
    });
    assert!(same(
        &out,
        &[
            Primitive::Move(1, 1),
            Primitive::Quadratic(3, 1, 30, 30),
            Primitive::Quadratic(400, 0, 4, 4),
            Primitive::Line(5, 5),
            Primitive::Quadratic(11, 5, 70, 70),
            Primitive::Quadratic(800, 0, 8, 8),
        ]
    ));
    assert_eq!(out.len(), prims.len() + 2);
    assert!(out.iter().all(|p| !matches!(p, Primitive::Cubic(..))));
    assert_eq!(end(&out), end(&prims));
}

#[test]
fn quadratic_runs_joined_and_anchored() {
    let prims = vec![
        Primitive::Move(1, 1),
        Primitive::Quadratic(2, 2, 3, 3),
        Primitive::Quadratic(4, 4, 5, 5),
        Primitive::Quadratic(6, 6, 7, 7),
        Primitive::Line(9, 9),
    ];
    let calls = RefCell::new(Vec::new());
    // Joins every pair, putting the control point at the start of the run.
    let out = merge_quadratic_runs(&prims, 0, |a: P, c1: P, j: P, c2: P, e: P| {
        calls.borrow_mut().push((a, c1, j, c2, e));
        Some(a)
    });
    assert!(same(
        &out,
        &[Primitive::Move(1, 1), Primitive::Quadratic(1, 1, 7, 7), Primitive::Line(9, 9)]
    ));
    assert_eq!(
        *calls.borrow(),
        vec![
            ((1, 1), (2, 2), (3, 3), (4, 4), (5, 5)),
            ((1, 1), (1, 1), (5, 5), (6, 6), (7, 7)),
        ]
    );
    assert_eq!(end(&out), end(&prims));
}

#[test]
fn refused_join_restarts_the_run_at_the_joint() {
    let prims = vec![
        Primitive::Quadratic(2, 2, 3, 3),
        Primitive::Quadratic(4, 4, 5, 5),
        Primitive::Quadratic(6, 6, 7, 7),
    ];
    let calls = RefCell::new(Vec::new());
    let out = merge_quadratic_runs(&prims, 0, |a: P, _: P, _: P, _: P, _: P| {
        calls.borrow_mut().push(a);
        None
    });
    assert!(same(&out, &prims));
    assert_eq!(*calls.borrow(), vec![(0, 0), (3, 3)]);
}

#[test]
fn flat_quadratics_become_lines() {
    let prims = vec![
        Primitive::Move(1, 1),
        Primitive::Quadratic(2, 2, 3, 3),
        Primitive::Quadratic(9, 0, 5, 5),
    ];
    let out = flatten_quadratics(&prims, 0, |s: P, c: P, e: P| c.0 - s.0 == e.0 - c.0);
    assert!(same(
        &out,
        &[Primitive::Move(1, 1), Primitive::Line(3, 3), Primitive::Quadratic(9, 0, 5, 5)]
    ));
    assert_eq!(end(&out), end(&prims));
}

#[test]
fn collinear_lines_joined() {
    let prims = vec![
        Primitive::Move(0, 0),
        Primitive::Line(1, 1),
        Primitive::Line(2, 2),
        Primitive::Line(3, 3),
        Primitive::Line(3, 5),
        Primitive::Move(7, 7),
        Primitive::Line(8, 8),
    ];
    let calls = RefCell::new(Vec::new());
    let out = merge_collinear_lines(&prims, 0, |s: P, j: P, e: P| {
        calls.borrow_mut().push((s, j, e));
        (j.0 - s.0) * (e.1 - s.1) == (j.1 - s.1) * (e.0 - s.0)
    });
    assert!(same(
        &out,
        &[
            Primitive::Move(0, 0),
            Primitive::Line(3, 3),
            Primitive::Line(3, 5),
            Primitive::Move(7, 7),
            Primitive::Line(8, 8),
        ]
    ));
    assert_eq!(
        *calls.borrow(),
        vec![((0, 0), (1, 1), (2, 2)), ((0, 0), (2, 2), (3, 3)), ((0, 0), (3, 3), (3, 5))]
    );
    assert!(out.len() <= prims.len());
    assert_eq!(end(&out), end(&prims));
}

#[test]
fn simplify_runs_every_pass() {
    let prims = vec![
        Primitive::Move(0, 0),
        Primitive::Cubic(1, 0, 2, 0, 3, 0),
        Primitive::Cubic(4, 1, 5, 1, 6, 0),
        Primitive::Line(7, 0),
        Primitive::Line(8, 0),
    ];
    let out = simplify(
        &prims,
        0,
        // the first cubic fits a quadratic, the second does not
        |s: P, c1: P, _c2: P, e: P| if c1.1 == 0 { Some(((s.0 + e.0) / 2, 0)) } else { None },
        // split at the middle of the chord
        |s: P, _c1: P, _c2: P, e: P| ((s.0, 1), ((s.0 + e.0) / 2, 0), (e.0, 1)),
        // never join quadratics
        |_: P, _: P, _: P, _: P, _: P| None,
        // flat when the control point lies on the x axis
        |_: P, c: P, _: P| c.1 == 0,
        // collinear when all on the x axis
        |s: P, j: P, e: P| s.1 == 0 && j.1 == 0 && e.1 == 0,
    );
    assert!(same(
        &out,
        &[
            Primitive::Move(0, 0),
            Primitive::Line(3, 0),
            Primitive::Quadratic(3, 1, 4, 0),
            Primitive::Quadratic(6, 1, 6, 0),
            Primitive::Line(8, 0),
        ]
    ));
    assert!(out.iter().all(|p| !matches!(p, Primitive::Cubic(..))));
    assert_eq!(end(&out), end(&prims));
}

#[test]
fn simplify_keeps_an_empty_path_empty() {
    let out = simplify(
        &Vec::<Primitive<i64>>::new(),
        0,
        |_: P, _: P, _: P, _: P| None,
        |s: P, _: P, _: P, e: P| (s, s, e),
        |_: P, _: P, _: P, _: P, _: P| None,
        |_: P, _: P, _: P| false,
        |_: P, _: P, _: P| false,
    );
    assert!(out.is_empty());
}
