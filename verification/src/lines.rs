//! Joining runs of collinear line segments.
use vstd::prelude::*;
use crate::kernel::{answered3, deterministic3, lemma_result3, result3};
use crate::primitive::{
    end_point, ends_among, move_origin, path_end, quadratics_kept, start_point, Primitive,
};

verus! {

/// State of the line-joining pass: the primitives written so far, the pen
/// position, and the point where the last written line starts.
pub type LineJoin<S> = (Seq<Primitive<S>>, (S, S), (S, S));

/// Whether the pass consults the collinearity test for `prim`: both `prim`
/// and the last written primitive are lines.
pub open spec fn line_join_asks<S>(out: Seq<Primitive<S>>, prim: Primitive<S>) -> bool {
    &&& prim is Line
    &&& out.len() > 0
    &&& out.last() is Line
}

/// One step of the pass.  A line that continues a written line along the same
/// direction (as `collinear(start, joint, end)` judges) replaces it; any other
/// line is appended; every other primitive is appended unchanged.
pub open spec fn line_join_step<S, F: Fn((S, S), (S, S), (S, S)) -> bool>(
    st: LineJoin<S>,
    prim: Primitive<S>,
    zero: S,
    collinear: F,
) -> LineJoin<S> {
    let (out, cur, start) = st;
    if prim is Line {
        let end = end_point(prim, zero);
        if line_join_asks(out, prim) && result3(
            collinear,
            start,
            end_point(out.last(), zero),
            end,
        ) {
            (out.drop_last().push(prim), end, start)
        } else {
            (out.push(prim), end, cur)
        }
    } else {
        (out.push(prim), end_point(prim, zero), end_point(prim, zero))
    }
}

/// The pass run over `prims` from the origin.
pub open spec fn line_join_run<S, F: Fn((S, S), (S, S), (S, S)) -> bool>(
    prims: Seq<Primitive<S>>,
    zero: S,
    collinear: F,
) -> LineJoin<S>
    decreases prims.len(),
{
    if prims.len() == 0 {
        (Seq::empty(), (zero, zero), (zero, zero))
    } else {
        line_join_step(
            line_join_run(prims.drop_last(), zero, collinear),
            prims.last(),
            zero,
            collinear,
        )
    }
}

/// Every collinearity test the pass makes over `prims` has been answered
/// (see [`answered3`]).
pub open spec fn line_join_answered<S, F: Fn((S, S), (S, S), (S, S)) -> bool>(
    prims: Seq<Primitive<S>>,
    zero: S,
    collinear: F,
) -> bool
    decreases prims.len(),
{
    if prims.len() == 0 {
        true
    } else {
        let (out, _, start) = line_join_run(prims.drop_last(), zero, collinear);
        &&& line_join_answered(prims.drop_last(), zero, collinear)
        &&& line_join_asks(out, prims.last()) ==> answered3(
            collinear,
            start,
            end_point(out.last(), zero),
            end_point(prims.last(), zero),
        )
    }
}

/// The primitives of `s` that are not lines, in order.
pub open spec fn non_lines<S>(s: Seq<Primitive<S>>) -> Seq<Primitive<S>>
    decreases s.len(),
{
    if s.len() == 0 {
        Seq::empty()
    } else if s.last() is Line {
        non_lines(s.drop_last())
    } else {
        non_lines(s.drop_last()).push(s.last())
    }
}

proof fn lemma_non_lines_push<S>(s: Seq<Primitive<S>>, p: Primitive<S>)
    ensures
        non_lines(s.push(p)) == if p is Line { non_lines(s) } else { non_lines(s).push(p) },
{
    assert(s.push(p).drop_last() =~= s);
}

/// What the pass keeps at every step: the pen stands at the end of the
/// written path, at most one primitive is written per primitive read, the
/// non-line primitives go through unchanged and in order, and the written
/// path ends where the path read so far ends.
pub proof fn lemma_line_join_run<S, F: Fn((S, S), (S, S), (S, S)) -> bool>(
    prims: Seq<Primitive<S>>,
    zero: S,
    collinear: F,
)
    ensures
        ({
            let (out, cur, _) = line_join_run(prims, zero, collinear);
            &&& cur == path_end(out, zero)
            &&& out.len() <= prims.len()
            &&& non_lines(out) == non_lines(prims)
            &&& path_end(out, zero) == path_end(prims, zero)
        }),
    decreases prims.len(),
{
    if prims.len() > 0 {
        let pre = prims.drop_last();
        let p = prims.last();
        lemma_line_join_run(pre, zero, collinear);
        let (out, cur, start) = line_join_run(pre, zero, collinear);
        lemma_non_lines_push(pre, p);
        assert(pre.push(p) =~= prims);
        lemma_non_lines_push(out, p);
        if p is Line && line_join_asks(out, p) && result3(
            collinear,
            start,
            end_point(out.last(), zero),
            end_point(p, zero),
        ) {
            let rest = out.drop_last();
            lemma_non_lines_push(rest, out.last());
            assert(rest.push(out.last()) =~= out);
            lemma_non_lines_push(rest, p);
        }
    }
}

/// The start the pass keeps is where the last written line starts: every
/// collinearity question is asked from the start of the line it may extend.
pub proof fn lemma_line_join_start<S, F: Fn((S, S), (S, S), (S, S)) -> bool>(
    prims: Seq<Primitive<S>>,
    zero: S,
    collinear: F,
)
    ensures
        ({
            let (out, _, start) = line_join_run(prims, zero, collinear);
            out.len() > 0 && out.last() is Line ==> start == start_point(out, out.len() - 1, zero)
        }),
    decreases prims.len(),
{
    if prims.len() > 0 {
        let pre = prims.drop_last();
        lemma_line_join_start(pre, zero, collinear);
        lemma_line_join_run(pre, zero, collinear);
        let (old, _, _) = line_join_run(pre, zero, collinear);
        let (new, _, _) = line_join_run(prims, zero, collinear);
        if new.len() > 1 && old.len() > 1 {
            assert(new[new.len() - 2] == old[old.len() - 2] || new.len() == old.len() + 1);
        }
    }
}

/// Every written primitive ends where a primitive read ends, and every
/// written quadratic curve is one read, from the same start.
pub proof fn lemma_line_join_keeps<S, F: Fn((S, S), (S, S), (S, S)) -> bool>(
    prims: Seq<Primitive<S>>,
    zero: S,
    collinear: F,
)
    ensures
        ends_among(line_join_run(prims, zero, collinear).0, prims, zero),
        quadratics_kept(line_join_run(prims, zero, collinear).0, prims, zero),
    decreases prims.len(),
{
    if prims.len() > 0 {
        let pre = prims.drop_last();
        let p = prims.last();
        let last = pre.len() as int;
        lemma_line_join_keeps(pre, zero, collinear);
        lemma_line_join_run(pre, zero, collinear);
        let (old, _, start) = line_join_run(pre, zero, collinear);
        let new = line_join_step(line_join_run(pre, zero, collinear), p, zero, collinear).0;
        assert(prims[last] == p);
        let merged = p is Line && line_join_asks(old, p) && result3(
            collinear,
            start,
            end_point(old.last(), zero),
            end_point(p, zero),
        );
        // The primitives written before this step stay, at their places.
        let kept = if merged {
            old.len() - 1
        } else {
            old.len() as int
        };
        assert forall|j: int| 0 <= j < kept implies #[trigger] new[j] == old[j] && start_point(
            new,
            j,
            zero,
        ) == start_point(old, j, zero) by {
            if j > 0 {
                assert(new[j - 1] == old[j - 1]);
            }
        }
        assert(new.len() == kept + 1 && new[kept] == p);
        assert forall|j: int| 0 <= j < new.len() implies exists|i: int|
            0 <= i < prims.len() && #[trigger] end_point(prims[i], zero) == end_point(
                #[trigger] new[j],
                zero,
            ) by {
            if j < kept {
                assert(new[j] == old[j]);
                let i = choose|i: int|
                    0 <= i < pre.len() && #[trigger] end_point(pre[i], zero) == end_point(
                        old[j],
                        zero,
                    );
                assert(prims[i] == pre[i]);
            } else {
                assert(end_point(prims[last], zero) == end_point(new[j], zero));
            }
        }
        assert forall|j: int| 0 <= j < new.len() && (#[trigger] new[j] is Quadratic) implies exists|
            i: int,
        |
            0 <= i < prims.len() && #[trigger] prims[i] == new[j] && start_point(prims, i, zero)
                == start_point(new, j, zero) by {
            if j < kept {
                assert(new[j] == old[j]);
                let i = choose|i: int|
                    0 <= i < pre.len() && #[trigger] pre[i] == old[j] && start_point(pre, i, zero)
                        == start_point(old, j, zero);
                assert(prims[i] == pre[i]);
                if i > 0 {
                    assert(prims[i - 1] == pre[i - 1]);
                }
            } else {
                // Only a primitive other than a line is written unmerged here.
                assert(!merged);
                assert(start_point(new, j, zero) == path_end(old, zero));
                assert(start_point(prims, last, zero) == path_end(pre, zero));
            }
        }
    }
}

/// Joins consecutive lines that `collinear` judges to lie on one straight
/// line.  `collinear(start, joint, end)` is asked only where a line follows a
/// written line, with `start` the point where that written line begins.
pub fn merge_collinear_lines<S: Copy, F: Fn((S, S), (S, S), (S, S)) -> bool>(
    prims: &Vec<Primitive<S>>,
    zero: S,
    collinear: F,
) -> (out: Vec<Primitive<S>>)
    requires
        deterministic3(collinear),
    ensures
        out@ == line_join_run(prims@, zero, collinear).0,
        line_join_answered(prims@, zero, collinear),
        out.len() <= prims.len(),
        non_lines(out@) == non_lines(prims@),
        path_end(out@, zero) == path_end(prims@, zero),
        ends_among(out@, prims@, zero),
        quadratics_kept(out@, prims@, zero),
{
    let mut out: Vec<Primitive<S>> = Vec::new();
    let mut cur = (zero, zero);
    let mut start = (zero, zero);
    let n = prims.len();
    for i in 0..n
        invariant
            n == prims.len(),
            deterministic3(collinear),
            (out@, cur, start) == line_join_run(prims@.take(i as int), zero, collinear),
            line_join_answered(prims@.take(i as int), zero, collinear),
    {
        let prim = prims[i];
        proof {
            assert(prims@.take(i + 1).drop_last() =~= prims@.take(i as int));
            assert(prims@.take(i + 1).last() == prim);
        }
        match prim {
            Primitive::Line(x2, y2) => {
                let mut joined = false;
                if out.len() > 0 {
                    let last = out[out.len() - 1];
                    if let Primitive::Line(x1, y1) = last {
                        let c = collinear(start, (x1, y1), (x2, y2));
                        proof {
                            lemma_result3(collinear, start, (x1, y1), (x2, y2), c);
                        }
                        if c {
                            out.pop();
                            out.push(prim);
                            cur = (x2, y2);
                            joined = true;
                        }
                    }
                }
                if !joined {
                    out.push(prim);
                    start = cur;
                    cur = (x2, y2);
                }
            },
            _ => {
                out.push(prim);
                cur = move_origin(&prim, zero);
                start = cur;
            },
        }
    }
    proof {
        assert(prims@.take(n as int) =~= prims@);
        lemma_line_join_run(prims@, zero, collinear);
        lemma_line_join_keeps(prims@, zero, collinear);
    }
    out
}

} // verus!
