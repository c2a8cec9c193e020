use vstd::prelude::*;

verus! {

/// One drawing instruction of a path.  Every variant but `Close` ends at the
/// point given by its last two fields; the other fields are control points
/// (`Quadratic`, `Cubic`) or the elliptical-arc parameters
/// `rx, ry, x_rotation, large_arc, sweep` (`Arc`).
#[derive(Debug, Clone, Copy)]
pub enum Primitive<S> {
    Move(S, S),
    Line(S, S),
    Quadratic(S, S, S, S),
    Cubic(S, S, S, S, S, S),
    Arc(S, S, S, S, S, S, S),
    Close,
}

/// The point where `prim` leaves the pen; `Close` resets it to `(zero, zero)`.
pub open spec fn end_point<S>(prim: Primitive<S>, zero: S) -> (S, S) {
    match prim {
        Primitive::Move(x, y) => (x, y),
        Primitive::Line(x, y) => (x, y),
        Primitive::Quadratic(_, _, x, y) => (x, y),
        Primitive::Cubic(_, _, _, _, x, y) => (x, y),
        Primitive::Arc(_, _, _, _, _, x, y) => (x, y),
        Primitive::Close => (zero, zero),
    }
}

/// The point where the `i`-th primitive of `prims` starts: the origin
/// `(zero, zero)` for the first one, the end of its predecessor otherwise.
pub open spec fn start_point<S>(prims: Seq<Primitive<S>>, i: int, zero: S) -> (S, S) {
    if i <= 0 {
        (zero, zero)
    } else {
        end_point(prims[i - 1], zero)
    }
}

/// The end point of a whole path: that of its last primitive, or the origin.
pub open spec fn path_end<S>(prims: Seq<Primitive<S>>, zero: S) -> (S, S) {
    start_point(prims, prims.len() as int, zero)
}

/// Every primitive of `out` ends where some primitive of `prims` ends.
pub open spec fn ends_among<S>(out: Seq<Primitive<S>>, prims: Seq<Primitive<S>>, zero: S) -> bool {
    forall|j: int|
        0 <= j < out.len() ==> exists|i: int|
            0 <= i < prims.len() && #[trigger] end_point(prims[i], zero) == end_point(
                #[trigger] out[j],
                zero,
            )
}

/// Every quadratic curve of `out` stands in `prims` too, starting at the same point.
pub open spec fn quadratics_kept<S>(out: Seq<Primitive<S>>, prims: Seq<Primitive<S>>, zero: S) -> bool {
    forall|j: int|
        0 <= j < out.len() && (#[trigger] out[j] is Quadratic) ==> exists|i: int|
            0 <= i < prims.len() && #[trigger] prims[i] == out[j] && start_point(prims, i, zero)
                == start_point(out, j, zero)
}

/// Where the pen stands after `prim`.
pub fn move_origin<S: Copy>(prim: &Primitive<S>, zero: S) -> (r: (S, S))
    ensures
        r == end_point(*prim, zero),
{
    match *prim {
        Primitive::Move(x, y) => (x, y),
        Primitive::Line(x, y) => (x, y),
        Primitive::Quadratic(_, _, x, y) => (x, y),
        Primitive::Cubic(_, _, _, _, x, y) => (x, y),
        Primitive::Arc(_, _, _, _, _, x, y) => (x, y),
        Primitive::Close => (zero, zero),
    }
}

} // verus!
