//! Rewriting single primitives in place of others: cubic curves by
//! quadratic ones, flat quadratic curves by lines.
use vstd::prelude::*;
use crate::kernel::{
    answered3, answered4, deterministic3, deterministic4, lemma_result3, lemma_result4, result3,
    result4,
};
use crate::primitive::{end_point, move_origin, path_end, start_point, Primitive};

verus! {

/// `prim`, started at `start`, with a cubic curve replaced by the quadratic
/// curve through the control point that `fit(start, c1, c2, end)` finds, if it
/// finds one.
pub open spec fn cubic_reduced<S, F: Fn((S, S), (S, S), (S, S), (S, S)) -> Option<(S, S)>>(
    prim: Primitive<S>,
    start: (S, S),
    fit: F,
) -> Primitive<S> {
    match prim {
        Primitive::Cubic(x1, y1, x2, y2, x3, y3) => match result4(
            fit,
            start,
            (x1, y1),
            (x2, y2),
            (x3, y3),
        ) {
            Some(q) => Primitive::Quadratic(q.0, q.1, x3, y3),
            None => prim,
        },
        _ => prim,
    }
}

/// The fit asked for `prim` started at `start` (only cubic curves ask) has
/// been answered.
pub open spec fn fit_answered<S, F: Fn((S, S), (S, S), (S, S), (S, S)) -> R, R>(
    prim: Primitive<S>,
    start: (S, S),
    f: F,
) -> bool {
    match prim {
        Primitive::Cubic(x1, y1, x2, y2, x3, y3) => answered4(f, start, (x1, y1), (x2, y2), (x3, y3)),
        _ => true,
    }
}

/// Every question asked of `f` about the cubic curves of `prims` has been
/// answered (see [`crate::kernel::answered4`]).
pub open spec fn cubics_answered<S, F: Fn((S, S), (S, S), (S, S), (S, S)) -> R, R>(
    prims: Seq<Primitive<S>>,
    zero: S,
    f: F,
) -> bool {
    forall|i: int| 0 <= i < prims.len() ==> #[trigger] fit_answered(prims[i], start_point(prims, i, zero), f)
}

/// The flatness test asked for `prim` started at `start` (only quadratic
/// curves ask) has been answered.
pub open spec fn flat_answered<S, F: Fn((S, S), (S, S), (S, S)) -> bool>(
    prim: Primitive<S>,
    start: (S, S),
    is_flat: F,
) -> bool {
    match prim {
        Primitive::Quadratic(x1, y1, x2, y2) => answered3(is_flat, start, (x1, y1), (x2, y2)),
        _ => true,
    }
}

/// Every flatness test asked about the quadratic curves of `prims` has been answered.
pub open spec fn quadratics_answered<S, F: Fn((S, S), (S, S), (S, S)) -> bool>(
    prims: Seq<Primitive<S>>,
    zero: S,
    is_flat: F,
) -> bool {
    forall|i: int| 0 <= i < prims.len() ==> #[trigger] flat_answered(prims[i], start_point(prims, i, zero), is_flat)
}

/// What a single primitive becomes in the rewriting passes, from where it
/// starts: a cubic curve `(c1, c2, end)` becomes the quadratic `(q, end)`
/// when `fit(start, c1, c2, end)` gives `q` and stays otherwise; a quadratic
/// `(c, end)` becomes a line to `end` exactly when `is_flat(start, c, end)`;
/// a cubic split by `split(start, c1, c2, end) = (q1, m, q2)` becomes the
/// quadratics `(q1, m)` and `(q2, end)`.  Every other primitive stays.
pub proof fn lemma_rewrites<
    S,
    Fit: Fn((S, S), (S, S), (S, S), (S, S)) -> Option<(S, S)>,
    Flat: Fn((S, S), (S, S), (S, S)) -> bool,
    Split: Fn((S, S), (S, S), (S, S), (S, S)) -> ((S, S), (S, S), (S, S)),
>(prim: Primitive<S>, start: (S, S), fit: Fit, is_flat: Flat, split: Split)
    ensures
        prim matches Primitive::Cubic(x1, y1, x2, y2, x3, y3) ==> {
            let q = result4(fit, start, (x1, y1), (x2, y2), (x3, y3));
            let (q1, m, q2) = result4(split, start, (x1, y1), (x2, y2), (x3, y3));
            &&& q matches Some(c) ==> cubic_reduced(prim, start, fit) == Primitive::Quadratic(
                c.0,
                c.1,
                x3,
                y3,
            )
            &&& q is None ==> cubic_reduced(prim, start, fit) == prim
            &&& split_pieces(prim, start, split) == seq![
                Primitive::Quadratic(q1.0, q1.1, m.0, m.1),
                Primitive::Quadratic(q2.0, q2.1, x3, y3),
            ]
        },
        prim matches Primitive::Quadratic(x1, y1, x2, y2) ==> quadratic_flattened(prim, start, is_flat)
            == if result3(is_flat, start, (x1, y1), (x2, y2)) {
            Primitive::Line(x2, y2)
        } else {
            prim
        },
        !(prim is Cubic) ==> cubic_reduced(prim, start, fit) == prim && split_pieces(
            prim,
            start,
            split,
        ) == seq![prim],
        !(prim is Quadratic) ==> quadratic_flattened(prim, start, is_flat) == prim,
{
}

/// The whole path with cubic curves reduced where `fit` allows.
pub open spec fn reduce_spec<S, F: Fn((S, S), (S, S), (S, S), (S, S)) -> Option<(S, S)>>(
    prims: Seq<Primitive<S>>,
    zero: S,
    fit: F,
) -> Seq<Primitive<S>> {
    Seq::new(prims.len(), |i: int| cubic_reduced(prims[i], start_point(prims, i, zero), fit))
}

/// Replaces each cubic curve by a quadratic one where `fit(start, c1, c2, end)`
/// finds a control point for it; `start` is where the cubic begins.  Every
/// other primitive, and every cubic that `fit` rejects, stays as it is.
pub fn reduce_cubics<S: Copy, F: Fn((S, S), (S, S), (S, S), (S, S)) -> Option<(S, S)>>(
    prims: &Vec<Primitive<S>>,
    zero: S,
    fit: F,
) -> (out: Vec<Primitive<S>>)
    requires
        deterministic4(fit),
    ensures
        out@ == reduce_spec(prims@, zero, fit),
        cubics_answered(prims@, zero, fit),
        out.len() == prims.len(),
        forall|i: int|
            0 <= i < prims.len() ==> #[trigger] out@[i] == cubic_reduced(
                prims@[i],
                start_point(prims@, i, zero),
                fit,
            ),
        forall|i: int|
            0 <= i < prims.len() ==> end_point(#[trigger] out@[i], zero) == end_point(
                prims@[i],
                zero,
            ),
        path_end(out@, zero) == path_end(prims@, zero),
{
    let mut out: Vec<Primitive<S>> = Vec::new();
    let mut origin = (zero, zero);
    let n = prims.len();
    for i in 0..n
        invariant
            n == prims.len(),
            deterministic4(fit),
            out.len() == i,
            forall|j: int|
                0 <= j < i ==> #[trigger] fit_answered(prims@[j], start_point(prims@, j, zero), fit),
            origin == start_point(prims@, i as int, zero),
            forall|j: int|
                0 <= j < i ==> #[trigger] out@[j] == cubic_reduced(
                    prims@[j],
                    start_point(prims@, j, zero),
                    fit,
                ),
            forall|j: int|
                0 <= j < i ==> end_point(#[trigger] out@[j], zero) == end_point(prims@[j], zero),
    {
        let prim = prims[i];
        let mut next = prim;
        if let Primitive::Cubic(x1, y1, x2, y2, x3, y3) = prim {
            let r = fit(origin, (x1, y1), (x2, y2), (x3, y3));
            proof {
                lemma_result4(fit, origin, (x1, y1), (x2, y2), (x3, y3), r);
            }
            if let Some((qx, qy)) = r {
                next = Primitive::Quadratic(qx, qy, x3, y3);
            }
        }
        out.push(next);
        origin = move_origin(&next, zero);
    }
    proof {
        assert(out@ =~= reduce_spec(prims@, zero, fit));
    }
    out
}

/// `prim`, started at `start`, with a quadratic curve replaced by a line to
/// its end where `is_flat(start, control, end)` holds.
pub open spec fn quadratic_flattened<S, F: Fn((S, S), (S, S), (S, S)) -> bool>(
    prim: Primitive<S>,
    start: (S, S),
    is_flat: F,
) -> Primitive<S> {
    match prim {
        Primitive::Quadratic(x1, y1, x2, y2) => if result3(is_flat, start, (x1, y1), (x2, y2)) {
            Primitive::Line(x2, y2)
        } else {
            prim
        },
        _ => prim,
    }
}

/// The whole path with flat quadratic curves replaced by lines.
pub open spec fn flatten_spec<S, F: Fn((S, S), (S, S), (S, S)) -> bool>(
    prims: Seq<Primitive<S>>,
    zero: S,
    is_flat: F,
) -> Seq<Primitive<S>> {
    Seq::new(prims.len(), |i: int| quadratic_flattened(prims[i], start_point(prims, i, zero), is_flat))
}

/// Replaces each quadratic curve that `is_flat(start, control, end)` judges
/// flat by a line to its end; `start` is where the curve begins.
pub fn flatten_quadratics<S: Copy, F: Fn((S, S), (S, S), (S, S)) -> bool>(
    prims: &Vec<Primitive<S>>,
    zero: S,
    is_flat: F,
) -> (out: Vec<Primitive<S>>)
    requires
        deterministic3(is_flat),
    ensures
        out@ == flatten_spec(prims@, zero, is_flat),
        quadratics_answered(prims@, zero, is_flat),
        out.len() == prims.len(),
        forall|i: int|
            0 <= i < prims.len() ==> #[trigger] out@[i] == quadratic_flattened(
                prims@[i],
                start_point(prims@, i, zero),
                is_flat,
            ),
        forall|i: int|
            0 <= i < prims.len() ==> end_point(#[trigger] out@[i], zero) == end_point(
                prims@[i],
                zero,
            ),
        path_end(out@, zero) == path_end(prims@, zero),
{
    let mut out: Vec<Primitive<S>> = Vec::new();
    let mut origin = (zero, zero);
    let n = prims.len();
    for i in 0..n
        invariant
            n == prims.len(),
            deterministic3(is_flat),
            out.len() == i,
            forall|j: int|
                0 <= j < i ==> #[trigger] flat_answered(prims@[j], start_point(prims@, j, zero), is_flat),
            origin == start_point(prims@, i as int, zero),
            forall|j: int|
                0 <= j < i ==> #[trigger] out@[j] == quadratic_flattened(
                    prims@[j],
                    start_point(prims@, j, zero),
                    is_flat,
                ),
            forall|j: int|
                0 <= j < i ==> end_point(#[trigger] out@[j], zero) == end_point(prims@[j], zero),
    {
        let prim = prims[i];
        let mut next = prim;
        if let Primitive::Quadratic(x1, y1, x2, y2) = prim {
            let flat = is_flat(origin, (x1, y1), (x2, y2));
            proof {
                lemma_result3(is_flat, origin, (x1, y1), (x2, y2), flat);
            }
            if flat {
                next = Primitive::Line(x2, y2);
            }
        }
        out.push(next);
        origin = move_origin(&next, zero);
    }
    proof {
        assert(out@ =~= flatten_spec(prims@, zero, is_flat));
    }
    out
}

/// What a primitive, started at `start`, becomes when cubic curves are split:
/// a cubic becomes the two quadratics `(q1, mid)` and `(q2, end)` for
/// `(q1, mid, q2) = split(start, c1, c2, end)`; anything else stays.
pub open spec fn split_pieces<S, F: Fn((S, S), (S, S), (S, S), (S, S)) -> ((S, S), (S, S), (S, S))>(
    prim: Primitive<S>,
    start: (S, S),
    split: F,
) -> Seq<Primitive<S>> {
    match prim {
        Primitive::Cubic(x1, y1, x2, y2, x3, y3) => {
            let (q1, m, q2) = result4(split, start, (x1, y1), (x2, y2), (x3, y3));
            seq![Primitive::Quadratic(q1.0, q1.1, m.0, m.1), Primitive::Quadratic(q2.0, q2.1, x3, y3)]
        },
        _ => seq![prim],
    }
}

/// The primitives of `prims` with every cubic curve split in two.
pub open spec fn split_run<S, F: Fn((S, S), (S, S), (S, S), (S, S)) -> ((S, S), (S, S), (S, S))>(
    prims: Seq<Primitive<S>>,
    zero: S,
    split: F,
) -> Seq<Primitive<S>>
    decreases prims.len(),
{
    if prims.len() == 0 {
        Seq::empty()
    } else {
        split_run(prims.drop_last(), zero, split) + split_pieces(
            prims.last(),
            start_point(prims, prims.len() - 1, zero),
            split,
        )
    }
}

/// The number of cubic curves in `s`.
pub open spec fn cubic_count<S>(s: Seq<Primitive<S>>) -> nat
    decreases s.len(),
{
    if s.len() == 0 {
        0
    } else {
        cubic_count(s.drop_last()) + if s.last() is Cubic {
            1nat
        } else {
            0nat
        }
    }
}

/// Splitting leaves no cubic curve, writes one primitive more per cubic, and
/// ends the path where it ended.
pub proof fn lemma_split_run<S, F: Fn((S, S), (S, S), (S, S), (S, S)) -> ((S, S), (S, S), (S, S))>(
    prims: Seq<Primitive<S>>,
    zero: S,
    split: F,
)
    ensures
        ({
            let out = split_run(prims, zero, split);
            &&& forall|j: int| 0 <= j < out.len() ==> !(#[trigger] out[j] is Cubic)
            &&& out.len() == prims.len() + cubic_count(prims)
            &&& path_end(out, zero) == path_end(prims, zero)
        }),
    decreases prims.len(),
{
    if prims.len() > 0 {
        let pre = prims.drop_last();
        lemma_split_run(pre, zero, split);
        let a = split_run(pre, zero, split);
        let b = split_pieces(prims.last(), start_point(prims, prims.len() - 1, zero), split);
        let out = a + b;
        assert forall|j: int| 0 <= j < out.len() implies !(#[trigger] out[j] is Cubic) by {
            if j < a.len() {
                assert(out[j] == a[j]);
            } else {
                assert(out[j] == b[j - a.len()]);
            }
        }
        assert(out[out.len() - 1] == b[b.len() - 1]);
    }
}

/// Splits every cubic curve into two quadratics as `split(start, c1, c2, end)`
/// gives them; `start` is where the cubic begins.  Every other primitive is
/// kept.
pub fn split_cubics<S: Copy, F: Fn((S, S), (S, S), (S, S), (S, S)) -> ((S, S), (S, S), (S, S))>(
    prims: &Vec<Primitive<S>>,
    zero: S,
    split: F,
) -> (out: Vec<Primitive<S>>)
    requires
        deterministic4(split),
    ensures
        out@ == split_run(prims@, zero, split),
        cubics_answered(prims@, zero, split),
        forall|j: int| 0 <= j < out.len() ==> !(#[trigger] out@[j] is Cubic),
        out.len() == prims.len() + cubic_count(prims@),
        path_end(out@, zero) == path_end(prims@, zero),
{
    let mut out: Vec<Primitive<S>> = Vec::new();
    let mut origin = (zero, zero);
    let n = prims.len();
    for i in 0..n
        invariant
            n == prims.len(),
            deterministic4(split),
            origin == start_point(prims@, i as int, zero),
            out@ == split_run(prims@.take(i as int), zero, split),
            forall|j: int|
                0 <= j < i ==> #[trigger] fit_answered(prims@[j], start_point(prims@, j, zero), split),
    {
        let prim = prims[i];
        proof {
            let t = prims@.take(i + 1);
            assert(t.drop_last() =~= prims@.take(i as int));
            assert(t.last() == prim);
            assert(start_point(t, i as int, zero) == start_point(prims@, i as int, zero));
        }
        let ghost before = out@;
        if let Primitive::Cubic(x1, y1, x2, y2, x3, y3) = prim {
            let (q1, m, q2) = split(origin, (x1, y1), (x2, y2), (x3, y3));
            proof {
                lemma_result4(split, origin, (x1, y1), (x2, y2), (x3, y3), (q1, m, q2));
            }
            out.push(Primitive::Quadratic(q1.0, q1.1, m.0, m.1));
            out.push(Primitive::Quadratic(q2.0, q2.1, x3, y3));
        } else {
            out.push(prim);
        }
        proof {
            assert(out@ =~= before + split_pieces(prim, start_point(prims@, i as int, zero), split));
        }
        origin = move_origin(&prim, zero);
    }
    proof {
        assert(prims@.take(n as int) =~= prims@);
        lemma_split_run(prims@, zero, split);
    }
    out
}

} // verus!
