//! Joining runs of quadratic curves into single quadratics.
use vstd::prelude::*;
use crate::kernel::{answered5, deterministic5, lemma_result5, result5};
use crate::primitive::{end_point, ends_among, move_origin, path_end, start_point, Primitive};

verus! {

/// The control point of a quadratic curve (the origin for other primitives).
pub open spec fn quad_control<S>(prim: Primitive<S>, zero: S) -> (S, S) {
    match prim {
        Primitive::Quadratic(x1, y1, _, _) => (x1, y1),
        _ => (zero, zero),
    }
}

/// State of the quadratic-joining pass: the primitives written so far, the
/// start of the curve that the last written quadratic stands for, and the pen
/// position.
pub type QuadJoin<S> = (Seq<Primitive<S>>, (S, S), (S, S));

/// Whether the pass consults the merging function for `prim`: both `prim`
/// and the last written primitive are quadratic curves.
pub open spec fn quad_join_asks<S>(out: Seq<Primitive<S>>, prim: Primitive<S>) -> bool {
    &&& prim is Quadratic
    &&& out.len() > 0
    &&& out.last() is Quadratic
}

/// The answer of the merging function for `prim` following `out`, started at `anchor`.
pub open spec fn quad_join_answer<S, F: Fn((S, S), (S, S), (S, S), (S, S), (S, S)) -> Option<(S, S)>>(
    out: Seq<Primitive<S>>,
    anchor: (S, S),
    prim: Primitive<S>,
    zero: S,
    merge: F,
) -> Option<(S, S)> {
    result5(
        merge,
        anchor,
        quad_control(out.last(), zero),
        end_point(out.last(), zero),
        quad_control(prim, zero),
        end_point(prim, zero),
    )
}

/// One step of the pass.  A quadratic that follows a written quadratic is
/// offered, together with it and the start of the curve it stands for, to
/// `merge`; where `merge` gives a control point, one quadratic through that
/// control point to the new end replaces the written one.  Otherwise the
/// primitive is appended unchanged.
pub open spec fn quad_join_step<S, F: Fn((S, S), (S, S), (S, S), (S, S), (S, S)) -> Option<(S, S)>>(
    st: QuadJoin<S>,
    prim: Primitive<S>,
    zero: S,
    merge: F,
) -> QuadJoin<S> {
    let (out, anchor, cur) = st;
    let end = end_point(prim, zero);
    if quad_join_asks(out, prim) {
        match quad_join_answer(out, anchor, prim, zero, merge) {
            Some(c) => (out.drop_last().push(Primitive::Quadratic(c.0, c.1, end.0, end.1)), anchor, end),
            None => (out.push(prim), end_point(out.last(), zero), end),
        }
    } else if prim is Quadratic {
        (out.push(prim), cur, end)
    } else {
        (out.push(prim), end, end)
    }
}

/// The pass run over `prims` from the origin.
pub open spec fn quad_join_run<S, F: Fn((S, S), (S, S), (S, S), (S, S), (S, S)) -> Option<(S, S)>>(
    prims: Seq<Primitive<S>>,
    zero: S,
    merge: F,
) -> QuadJoin<S>
    decreases prims.len(),
{
    if prims.len() == 0 {
        (Seq::empty(), (zero, zero), (zero, zero))
    } else {
        quad_join_step(quad_join_run(prims.drop_last(), zero, merge), prims.last(), zero, merge)
    }
}

/// Every merge the pass asks for over `prims` has been answered (see
/// [`answered5`]).
pub open spec fn quad_join_answered<S, F: Fn((S, S), (S, S), (S, S), (S, S), (S, S)) -> Option<(S, S)>>(
    prims: Seq<Primitive<S>>,
    zero: S,
    merge: F,
) -> bool
    decreases prims.len(),
{
    if prims.len() == 0 {
        true
    } else {
        let (out, anchor, _) = quad_join_run(prims.drop_last(), zero, merge);
        let p = prims.last();
        &&& quad_join_answered(prims.drop_last(), zero, merge)
        &&& quad_join_asks(out, p) ==> answered5(
            merge,
            anchor,
            quad_control(out.last(), zero),
            end_point(out.last(), zero),
            quad_control(p, zero),
            end_point(p, zero),
        )
    }
}

/// The primitives of `s` that are not quadratic curves, in order.
pub open spec fn non_quadratics<S>(s: Seq<Primitive<S>>) -> Seq<Primitive<S>>
    decreases s.len(),
{
    if s.len() == 0 {
        Seq::empty()
    } else if s.last() is Quadratic {
        non_quadratics(s.drop_last())
    } else {
        non_quadratics(s.drop_last()).push(s.last())
    }
}

proof fn lemma_non_quadratics_push<S>(s: Seq<Primitive<S>>, p: Primitive<S>)
    ensures
        non_quadratics(s.push(p)) == if p is Quadratic {
            non_quadratics(s)
        } else {
            non_quadratics(s).push(p)
        },
{
    assert(s.push(p).drop_last() =~= s);
}

/// What the pass keeps at every step: the pen stands at the end of the
/// written path, at most one primitive is written per primitive read, the
/// other primitives go through unchanged and in order, and the written path
/// ends where the path read so far ends.
pub proof fn lemma_quad_join_run<S, F: Fn((S, S), (S, S), (S, S), (S, S), (S, S)) -> Option<(S, S)>>(
    prims: Seq<Primitive<S>>,
    zero: S,
    merge: F,
)
    ensures
        ({
            let (out, _, cur) = quad_join_run(prims, zero, merge);
            &&& cur == path_end(out, zero)
            &&& out.len() <= prims.len()
            &&& non_quadratics(out) == non_quadratics(prims)
            &&& path_end(out, zero) == path_end(prims, zero)
        }),
    decreases prims.len(),
{
    if prims.len() > 0 {
        let pre = prims.drop_last();
        let p = prims.last();
        lemma_quad_join_run(pre, zero, merge);
        let (out, anchor, cur) = quad_join_run(pre, zero, merge);
        lemma_non_quadratics_push(pre, p);
        assert(pre.push(p) =~= prims);
        lemma_non_quadratics_push(out, p);
        if quad_join_asks(out, p) {
            if let Some(c) = quad_join_answer(out, anchor, p, zero, merge) {
                let rest = out.drop_last();
                let q = Primitive::Quadratic(c.0, c.1, end_point(p, zero).0, end_point(p, zero).1);
                lemma_non_quadratics_push(rest, out.last());
                assert(rest.push(out.last()) =~= out);
                lemma_non_quadratics_push(rest, q);
            }
        }
    }
}

/// The start the pass keeps is where the last written quadratic starts:
/// every merge is asked from the start of the curve it would extend.
pub proof fn lemma_quad_join_anchor<S, F: Fn((S, S), (S, S), (S, S), (S, S), (S, S)) -> Option<(S, S)>>(
    prims: Seq<Primitive<S>>,
    zero: S,
    merge: F,
)
    ensures
        ({
            let (out, anchor, _) = quad_join_run(prims, zero, merge);
            out.len() > 0 && out.last() is Quadratic ==> anchor == start_point(
                out,
                out.len() - 1,
                zero,
            )
        }),
    decreases prims.len(),
{
    if prims.len() > 0 {
        let pre = prims.drop_last();
        lemma_quad_join_anchor(pre, zero, merge);
        lemma_quad_join_run(pre, zero, merge);
        let (old, _, _) = quad_join_run(pre, zero, merge);
        let (new, _, _) = quad_join_run(prims, zero, merge);
        if new.len() > 1 && old.len() > 1 {
            assert(new[new.len() - 2] == old[old.len() - 2] || new.len() == old.len() + 1);
        }
    }
}

/// Every written primitive ends where a primitive read ends: a joined run
/// ends where its last curve ends.
pub proof fn lemma_quad_join_ends<S, F: Fn((S, S), (S, S), (S, S), (S, S), (S, S)) -> Option<(S, S)>>(
    prims: Seq<Primitive<S>>,
    zero: S,
    merge: F,
)
    ensures
        ends_among(quad_join_run(prims, zero, merge).0, prims, zero),
    decreases prims.len(),
{
    if prims.len() > 0 {
        let pre = prims.drop_last();
        let p = prims.last();
        let last = pre.len() as int;
        lemma_quad_join_ends(pre, zero, merge);
        let (old, anchor, _) = quad_join_run(pre, zero, merge);
        let new = quad_join_step(quad_join_run(pre, zero, merge), p, zero, merge).0;
        assert(prims[last] == p);
        let merged = quad_join_asks(old, p) && quad_join_answer(old, anchor, p, zero, merge) is Some;
        let kept = if merged {
            old.len() - 1
        } else {
            old.len() as int
        };
        assert(new.len() == kept + 1);
        assert(end_point(new[kept], zero) == end_point(p, zero));
        assert forall|j: int| 0 <= j < new.len() implies exists|i: int|
            0 <= i < prims.len() && #[trigger] end_point(prims[i], zero) == end_point(
                #[trigger] new[j],
                zero,
            ) by {
            if j < kept {
                assert(new[j] == old[j]);
                let i = choose|i: int|
                    0 <= i < pre.len() && #[trigger] end_point(pre[i], zero) == end_point(
                        old[j],
                        zero,
                    );
                assert(prims[i] == pre[i]);
            } else {
                assert(end_point(prims[last], zero) == end_point(new[j], zero));
            }
        }
    }
}

/// Joins consecutive quadratic curves where `merge` finds one quadratic that
/// stands for both.  `merge(start, c1, joint, c2, end)` is asked where a
/// quadratic `(c2, end)` follows a written quadratic `(c1, joint)`; `start` is
/// where the curve the written quadratic stands for begins.
pub fn merge_quadratic_runs<S: Copy, F: Fn((S, S), (S, S), (S, S), (S, S), (S, S)) -> Option<(S, S)>>(
    prims: &Vec<Primitive<S>>,
    zero: S,
    merge: F,
) -> (out: Vec<Primitive<S>>)
    requires
        deterministic5(merge),
    ensures
        out@ == quad_join_run(prims@, zero, merge).0,
        quad_join_answered(prims@, zero, merge),
        out.len() <= prims.len(),
        non_quadratics(out@) == non_quadratics(prims@),
        path_end(out@, zero) == path_end(prims@, zero),
        ends_among(out@, prims@, zero),
{
    let mut out: Vec<Primitive<S>> = Vec::new();
    let mut anchor = (zero, zero);
    let mut cur = (zero, zero);
    let n = prims.len();
    for i in 0..n
        invariant
            n == prims.len(),
            deterministic5(merge),
            (out@, anchor, cur) == quad_join_run(prims@.take(i as int), zero, merge),
            quad_join_answered(prims@.take(i as int), zero, merge),
    {
        let prim = prims[i];
        proof {
            assert(prims@.take(i + 1).drop_last() =~= prims@.take(i as int));
            assert(prims@.take(i + 1).last() == prim);
        }
        let mut done = false;
        if let Primitive::Quadratic(x3, y3, x4, y4) = prim {
            if out.len() > 0 {
                let last = out[out.len() - 1];
                if let Primitive::Quadratic(x1, y1, x2, y2) = last {
                    let merged = merge(anchor, (x1, y1), (x2, y2), (x3, y3), (x4, y4));
                    proof {
                        lemma_result5(merge, anchor, (x1, y1), (x2, y2), (x3, y3), (x4, y4), merged);
                    }
                    match merged {
                        Some((cx, cy)) => {
                            out.pop();
                            out.push(Primitive::Quadratic(cx, cy, x4, y4));
                            cur = (x4, y4);
                        },
                        None => {
                            out.push(prim);
                            anchor = (x2, y2);
                            cur = (x4, y4);
                        },
                    }
                    done = true;
                }
            }
        }
        if !done {
            let start = cur;
            out.push(prim);
            cur = move_origin(&prim, zero);
            if let Primitive::Quadratic(..) = prim {
                anchor = start;
            } else {
                anchor = cur;
            }
        }
    }
    proof {
        assert(prims@.take(n as int) =~= prims@);
        lemma_quad_join_run(prims@, zero, merge);
        lemma_quad_join_ends(prims@, zero, merge);
    }
    out
}

} // verus!
