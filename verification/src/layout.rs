//! What a path shows: the pieces its bounding box is made of, the segments a
//! renderer draws, and the path with every coordinate transformed.
use vstd::prelude::*;
use crate::kernel::{
    answered1, answered2, deterministic1, deterministic2, lemma_result1, lemma_result2, result1,
    result2,
};
use crate::primitive::{end_point, move_origin, start_point, Primitive};

verus! {

/// A piece of a path whose extent the bounding box must cover.
#[derive(Debug)]
pub enum BoundsItem<S> {
    /// A quadratic curve: start, control point, end.
    QuadraticBox((S, S), (S, S), (S, S)),
    /// A cubic curve: start, two control points, end.
    CubicBox((S, S), (S, S), (S, S), (S, S)),
    /// A point the path passes through.
    Point((S, S)),
}

/// The pieces one primitive, started at `start`, contributes: the curve
/// itself for quadratic and cubic curves, then its end point; nothing for
/// `Close`.  (Arcs contribute their end point only.)
pub open spec fn bounds_pieces<S>(prim: Primitive<S>, start: (S, S), zero: S) -> Seq<BoundsItem<S>> {
    match prim {
        Primitive::Quadratic(x1, y1, x, y) => seq![
            BoundsItem::QuadraticBox(start, (x1, y1), (x, y)),
            BoundsItem::Point((x, y)),
        ],
        Primitive::Cubic(x1, y1, x2, y2, x, y) => seq![
            BoundsItem::CubicBox(start, (x1, y1), (x2, y2), (x, y)),
            BoundsItem::Point((x, y)),
        ],
        Primitive::Close => Seq::empty(),
        _ => seq![BoundsItem::Point(end_point(prim, zero))],
    }
}

/// The last point the path `s` has drawn to: the end of its last primitive
/// other than `Close` (which leaves it as it is), or `(zero, zero)`.
pub open spec fn last_drawn<S>(s: Seq<Primitive<S>>, zero: S) -> (S, S)
    decreases s.len(),
{
    if s.len() == 0 {
        (zero, zero)
    } else if s.last() is Close {
        last_drawn(s.drop_last(), zero)
    } else {
        end_point(s.last(), zero)
    }
}

/// The pieces of a whole path, in order; each curve is taken from the last
/// point drawn before it.
pub open spec fn bounds_spec<S>(prims: Seq<Primitive<S>>, zero: S) -> Seq<BoundsItem<S>>
    decreases prims.len(),
{
    if prims.len() == 0 {
        Seq::empty()
    } else {
        bounds_spec(prims.drop_last(), zero) + bounds_pieces(
            prims.last(),
            last_drawn(prims.drop_last(), zero),
            zero,
        )
    }
}

/// The last point drawn is the end of the last primitive that is not a
/// `Close`, whatever its variant (an arc included), and the origin when there
/// is none.
pub proof fn lemma_last_drawn<S>(s: Seq<Primitive<S>>, zero: S)
    ensures
        (forall|i: int| 0 <= i < s.len() ==> #[trigger] s[i] is Close) ==> last_drawn(s, zero) == (
            zero,
            zero,
        ),
        forall|i: int|
            0 <= i < s.len() && !(#[trigger] s[i] is Close) && (forall|j: int|
                i < j < s.len() ==> #[trigger] s[j] is Close) ==> last_drawn(s, zero) == end_point(
                s[i],
                zero,
            ),
    decreases s.len(),
{
    if s.len() > 0 {
        let t = s.drop_last();
        lemma_last_drawn(t, zero);
        assert(s.last() == s[s.len() - 1]);
        assert forall|i: int| 0 <= i < t.len() implies #[trigger] t[i] == s[i] by {}
        if (forall|i: int| 0 <= i < s.len() ==> #[trigger] s[i] is Close) {
            assert forall|i: int| 0 <= i < t.len() implies #[trigger] t[i] is Close by {
                assert(s[i] is Close);
            }
        }
        assert forall|i: int|
            0 <= i < s.len() && !(#[trigger] s[i] is Close) && (forall|j: int|
                i < j < s.len() ==> #[trigger] s[j] is Close) implies last_drawn(s, zero) == end_point(
            s[i],
            zero,
        ) by {
            if i < s.len() - 1 {
                assert(s[s.len() - 1] is Close);
                assert(t[i] == s[i]);
                assert forall|j: int| i < j < t.len() implies #[trigger] t[j] is Close by {
                    assert(t[j] == s[j]);
                    assert(s[j] is Close);
                }
            }
        }
    }
}

/// For a path without `Close`, each curve's box starts at the end of the
/// primitive before it, whatever that primitive is.
pub proof fn lemma_bounds_without_close<S>(prims: Seq<Primitive<S>>, zero: S)
    requires
        prims.len() > 0,
        forall|i: int| 0 <= i < prims.len() ==> !(#[trigger] prims[i] is Close),
    ensures
        bounds_spec(prims, zero) == bounds_spec(prims.drop_last(), zero) + bounds_pieces(
            prims.last(),
            start_point(prims, prims.len() - 1, zero),
            zero,
        ),
{
    let t = prims.drop_last();
    lemma_last_drawn(t, zero);
    if t.len() > 0 {
        let i = t.len() - 1;
        assert(t[i] == prims[i]);
        assert(!(t[i] is Close));
    }
}

/// The pieces the bounding box of `prims` covers, in the order the path
/// passes them; the path starts at `(zero, zero)`, and a curve's box starts
/// at the last point drawn before it (`Close` does not move it).
pub fn bounds_items<S: Copy>(prims: &Vec<Primitive<S>>, zero: S) -> (out: Vec<BoundsItem<S>>)
    ensures
        out@ == bounds_spec(prims@, zero),
{
    let mut out: Vec<BoundsItem<S>> = Vec::new();
    let mut origin = (zero, zero);
    let n = prims.len();
    for i in 0..n
        invariant
            n == prims.len(),
            origin == last_drawn(prims@.take(i as int), zero),
            out@ == bounds_spec(prims@.take(i as int), zero),
    {
        let prim = prims[i];
        proof {
            let t = prims@.take(i + 1);
            assert(t.drop_last() =~= prims@.take(i as int));
            assert(t.last() == prim);
        }
        let ghost before = out@;
        match prim {
            Primitive::Quadratic(x1, y1, x, y) => {
                out.push(BoundsItem::QuadraticBox(origin, (x1, y1), (x, y)));
                out.push(BoundsItem::Point((x, y)));
            },
            Primitive::Cubic(x1, y1, x2, y2, x, y) => {
                out.push(BoundsItem::CubicBox(origin, (x1, y1), (x2, y2), (x, y)));
                out.push(BoundsItem::Point((x, y)));
            },
            Primitive::Close => {},
            _ => {
                out.push(BoundsItem::Point(move_origin(&prim, zero)));
            },
        }
        proof {
            assert(out@ =~= before + bounds_pieces(prim, origin, zero));
        }
        if let Primitive::Close = prim {
        } else {
            origin = move_origin(&prim, zero);
        }
    }
    proof {
        assert(prims@.take(n as int) =~= prims@);
    }
    out
}

/// A segment a renderer draws, with the point it starts from.
#[derive(Debug)]
pub enum Segment<S> {
    /// A line from the first point to the second.
    Line((S, S), (S, S)),
    /// A quadratic curve: start, control point, end.
    Quadratic((S, S), (S, S), (S, S)),
}

/// The segment a primitive started at `start` stands for: lines and
/// quadratic curves only.
pub open spec fn segment_pieces<S>(prim: Primitive<S>, start: (S, S)) -> Seq<Segment<S>> {
    match prim {
        Primitive::Line(x, y) => seq![Segment::Line(start, (x, y))],
        Primitive::Quadratic(x1, y1, x, y) => seq![Segment::Quadratic(start, (x1, y1), (x, y))],
        _ => Seq::empty(),
    }
}

/// The segments of a whole path, in order.
pub open spec fn segments_spec<S>(prims: Seq<Primitive<S>>, zero: S) -> Seq<Segment<S>>
    decreases prims.len(),
{
    if prims.len() == 0 {
        Seq::empty()
    } else {
        segments_spec(prims.drop_last(), zero) + segment_pieces(
            prims.last(),
            start_point(prims, prims.len() - 1, zero),
        )
    }
}

/// Appending a primitive appends its segment, drawn from the end of the
/// primitive before it; after a `Close` that is the origin `(zero, zero)`,
/// and for the first primitive too.
pub proof fn lemma_segments_push<S>(prims: Seq<Primitive<S>>, p: Primitive<S>, zero: S)
    ensures
        segments_spec(prims.push(p), zero) == segments_spec(prims, zero) + segment_pieces(
            p,
            if prims.len() == 0 || prims.last() is Close {
                (zero, zero)
            } else {
                end_point(prims.last(), zero)
            },
        ),
{
    assert(prims.push(p).drop_last() =~= prims);
    if prims.len() > 0 {
        assert(prims.push(p)[prims.len() - 1] == prims.last());
    }
}

/// The lines and quadratic curves of `prims`, in order, each with the point
/// it starts from; the path starts at `(zero, zero)`.  Other primitives only
/// move the pen.
pub fn shader_segments<S: Copy>(prims: &Vec<Primitive<S>>, zero: S) -> (out: Vec<Segment<S>>)
    ensures
        out@ == segments_spec(prims@, zero),
{
    let mut out: Vec<Segment<S>> = Vec::new();
    let mut origin = (zero, zero);
    let n = prims.len();
    for i in 0..n
        invariant
            n == prims.len(),
            origin == start_point(prims@, i as int, zero),
            out@ == segments_spec(prims@.take(i as int), zero),
    {
        let prim = prims[i];
        proof {
            let t = prims@.take(i + 1);
            assert(t.drop_last() =~= prims@.take(i as int));
            assert(t.last() == prim);
            assert(start_point(t, i as int, zero) == start_point(prims@, i as int, zero));
        }
        let ghost before = out@;
        match prim {
            Primitive::Line(x, y) => {
                out.push(Segment::Line(origin, (x, y)));
            },
            Primitive::Quadratic(x1, y1, x, y) => {
                out.push(Segment::Quadratic(origin, (x1, y1), (x, y)));
            },
            _ => {},
        }
        proof {
            assert(out@ =~= before + segment_pieces(prim, origin));
        }
        origin = move_origin(&prim, zero);
    }
    proof {
        assert(prims@.take(n as int) =~= prims@);
    }
    out
}

/// `prim` with every point moved by `point(x, y)` and the radii of an arc
/// changed by `radius`; the other arc parameters stay.
pub open spec fn mapped<S, P: Fn(S, S) -> (S, S), Q: Fn(S) -> S>(
    prim: Primitive<S>,
    point: P,
    radius: Q,
) -> Primitive<S> {
    match prim {
        Primitive::Move(x, y) => {
            let p = result2(point, x, y);
            Primitive::Move(p.0, p.1)
        },
        Primitive::Line(x, y) => {
            let p = result2(point, x, y);
            Primitive::Line(p.0, p.1)
        },
        Primitive::Quadratic(x1, y1, x2, y2) => {
            let p1 = result2(point, x1, y1);
            let p2 = result2(point, x2, y2);
            Primitive::Quadratic(p1.0, p1.1, p2.0, p2.1)
        },
        Primitive::Cubic(x1, y1, x2, y2, x3, y3) => {
            let p1 = result2(point, x1, y1);
            let p2 = result2(point, x2, y2);
            let p3 = result2(point, x3, y3);
            Primitive::Cubic(p1.0, p1.1, p2.0, p2.1, p3.0, p3.1)
        },
        Primitive::Arc(rx, ry, rot, large, sweep, x, y) => {
            let p = result2(point, x, y);
            Primitive::Arc(result1(radius, rx), result1(radius, ry), rot, large, sweep, p.0, p.1)
        },
        Primitive::Close => Primitive::Close,
    }
}

/// The calls of `point` and `radius` that mapping `prim` makes have been answered.
pub open spec fn mapping_answered<S, P: Fn(S, S) -> (S, S), Q: Fn(S) -> S>(
    prim: Primitive<S>,
    point: P,
    radius: Q,
) -> bool {
    match prim {
        Primitive::Move(x, y) => answered2(point, x, y),
        Primitive::Line(x, y) => answered2(point, x, y),
        Primitive::Quadratic(x1, y1, x2, y2) => answered2(point, x1, y1) && answered2(point, x2, y2),
        Primitive::Cubic(x1, y1, x2, y2, x3, y3) => answered2(point, x1, y1) && answered2(
            point,
            x2,
            y2,
        ) && answered2(point, x3, y3),
        Primitive::Arc(rx, ry, _, _, _, x, y) => answered2(point, x, y) && answered1(radius, rx)
            && answered1(radius, ry),
        Primitive::Close => true,
    }
}

/// `b` is of the same variant as `a`, and an arc keeps its x-rotation,
/// large-arc flag and sweep flag, each in its own place.
pub open spec fn same_shape<S>(a: Primitive<S>, b: Primitive<S>) -> bool {
    match (a, b) {
        (Primitive::Move(..), Primitive::Move(..)) => true,
        (Primitive::Line(..), Primitive::Line(..)) => true,
        (Primitive::Quadratic(..), Primitive::Quadratic(..)) => true,
        (Primitive::Cubic(..), Primitive::Cubic(..)) => true,
        (
            Primitive::Arc(_, _, rot, large, sweep, _, _),
            Primitive::Arc(_, _, rot2, large2, sweep2, _, _),
        ) => rot2 == rot && large2 == large && sweep2 == sweep,
        (Primitive::Close, Primitive::Close) => true,
        _ => false,
    }
}

/// Mapping a primitive keeps its shape: the variant, and an arc's rotation
/// and flags, which are not coordinates.  Each point of it, the end point and
/// every control point, is the image of the same point under `point`, and an
/// arc's radii are the images of its own radii under `radius`.
pub proof fn lemma_mapped_shape<S, P: Fn(S, S) -> (S, S), Q: Fn(S) -> S>(
    prim: Primitive<S>,
    zero: S,
    point: P,
    radius: Q,
)
    ensures
        same_shape(prim, mapped(prim, point, radius)),
        !(prim is Close) ==> ({
            let e = end_point(prim, zero);
            end_point(mapped(prim, point, radius), zero) == result2(point, e.0, e.1)
        }),
        prim is Arc ==> ({
            let m = mapped(prim, point, radius);
            &&& m->Arc_0 == result1(radius, prim->Arc_0)
            &&& m->Arc_1 == result1(radius, prim->Arc_1)
        }),
        prim is Quadratic ==> ({
            let m = mapped(prim, point, radius);
            (m->Quadratic_0, m->Quadratic_1) == result2(point, prim->Quadratic_0, prim->Quadratic_1)
        }),
        prim is Cubic ==> ({
            let m = mapped(prim, point, radius);
            &&& (m->Cubic_0, m->Cubic_1) == result2(point, prim->Cubic_0, prim->Cubic_1)
            &&& (m->Cubic_2, m->Cubic_3) == result2(point, prim->Cubic_2, prim->Cubic_3)
        }),
{
}

fn map_point<S: Copy, P: Fn(S, S) -> (S, S)>(point: &P, x: S, y: S) -> (r: (S, S))
    requires
        deterministic2(*point),
    ensures
        r == result2(*point, x, y),
        answered2(*point, x, y),
{
    let r = point(x, y);
    proof {
        lemma_result2(*point, x, y, r);
    }
    r
}

fn map_radius<S: Copy, Q: Fn(S) -> S>(radius: &Q, r0: S) -> (r: S)
    requires
        deterministic1(*radius),
    ensures
        r == result1(*radius, r0),
        answered1(*radius, r0),
{
    let r = radius(r0);
    proof {
        lemma_result1(*radius, r0, r);
    }
    r
}

/// Every primitive of `prims` with its points moved by `point(x, y)` and its
/// arc radii changed by `radius`: same length, same variants.
pub fn map_coordinates<S: Copy, P: Fn(S, S) -> (S, S), Q: Fn(S) -> S>(
    prims: &Vec<Primitive<S>>,
    point: P,
    radius: Q,
) -> (out: Vec<Primitive<S>>)
    requires
        deterministic2(point),
        deterministic1(radius),
    ensures
        out.len() == prims.len(),
        forall|i: int| 0 <= i < prims.len() ==> #[trigger] out@[i] == mapped(prims@[i], point, radius),
        forall|i: int| 0 <= i < prims.len() ==> #[trigger] mapping_answered(prims@[i], point, radius),
        forall|i: int| 0 <= i < prims.len() ==> same_shape(prims@[i], #[trigger] out@[i]),
{
    let mut out: Vec<Primitive<S>> = Vec::new();
    let n = prims.len();
    for i in 0..n
        invariant
            n == prims.len(),
            deterministic2(point),
            deterministic1(radius),
            out.len() == i,
            forall|j: int| 0 <= j < i ==> #[trigger] out@[j] == mapped(prims@[j], point, radius),
            forall|j: int| 0 <= j < i ==> #[trigger] mapping_answered(prims@[j], point, radius),
            forall|j: int| 0 <= j < i ==> same_shape(prims@[j], #[trigger] out@[j]),
    {
        let next = match prims[i] {
            Primitive::Move(x, y) => {
                let p = map_point(&point, x, y);
                Primitive::Move(p.0, p.1)
            },
            Primitive::Line(x, y) => {
                let p = map_point(&point, x, y);
                Primitive::Line(p.0, p.1)
            },
            Primitive::Quadratic(x1, y1, x2, y2) => {
                let p1 = map_point(&point, x1, y1);
                let p2 = map_point(&point, x2, y2);
                Primitive::Quadratic(p1.0, p1.1, p2.0, p2.1)
            },
            Primitive::Cubic(x1, y1, x2, y2, x3, y3) => {
                let p1 = map_point(&point, x1, y1);
                let p2 = map_point(&point, x2, y2);
                let p3 = map_point(&point, x3, y3);
                Primitive::Cubic(p1.0, p1.1, p2.0, p2.1, p3.0, p3.1)
            },
            Primitive::Arc(rx, ry, rot, large, sweep, x, y) => {
                let p = map_point(&point, x, y);
                let rxn = map_radius(&radius, rx);
                let ryn = map_radius(&radius, ry);
                Primitive::Arc(rxn, ryn, rot, large, sweep, p.0, p.1)
            },
            Primitive::Close => Primitive::Close,
        };
        out.push(next);
    }
    out
}

} // verus!
