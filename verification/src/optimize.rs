//! The whole simplification of a path, pass after pass.
use vstd::prelude::*;
use crate::curves::{
    cubic_count, cubics_answered, flatten_quadratics, flatten_spec, quadratics_answered,
    reduce_cubics, reduce_spec, split_cubics, split_pieces, split_run,
};
use crate::kernel::{deterministic3, deterministic4, deterministic5, result3, result5};
use crate::lines::{
    lemma_line_join_run, line_join_answered, line_join_asks, line_join_run, line_join_step,
    merge_collinear_lines, non_lines,
};
use crate::primitive::{end_point, path_end, start_point, Primitive};
use crate::quadratics::{
    merge_quadratic_runs, non_quadratics, quad_control, quad_join_answer, quad_join_answered,
    quad_join_asks, quad_join_run, quad_join_step,
};

verus! {

/// `s` holds no cubic curve.
pub open spec fn no_cubics<S>(s: Seq<Primitive<S>>) -> bool {
    forall|j: int| 0 <= j < s.len() ==> !(#[trigger] s[j] is Cubic)
}

/// The quadratic-joining pass writes no cubic curve where it reads none.
pub proof fn lemma_quad_join_no_cubics<S, F: Fn((S, S), (S, S), (S, S), (S, S), (S, S)) -> Option<(S, S)>>(
    prims: Seq<Primitive<S>>,
    zero: S,
    merge: F,
)
    requires
        no_cubics(prims),
    ensures
        no_cubics(quad_join_run(prims, zero, merge).0),
    decreases prims.len(),
{
    if prims.len() > 0 {
        let pre = prims.drop_last();
        assert(no_cubics(pre)) by {
            assert forall|j: int| 0 <= j < pre.len() implies !(#[trigger] pre[j] is Cubic) by {
                assert(pre[j] == prims[j]);
            }
        }
        lemma_quad_join_no_cubics(pre, zero, merge);
        let st = quad_join_run(pre, zero, merge);
        let out = quad_join_step(st, prims.last(), zero, merge).0;
        assert(!(prims.last() is Cubic)) by {
            assert(prims.last() == prims[prims.len() - 1]);
        }
        assert forall|j: int| 0 <= j < out.len() implies !(#[trigger] out[j] is Cubic) by {
            if j < st.0.len() - 1 {
                assert(out[j] == st.0[j]);
            } else if j == st.0.len() - 1 {
                if j < out.len() - 1 {
                    assert(out[j] == st.0[j]);
                }
            }
        }
    }
}

/// The line-joining pass writes no cubic curve where it reads none.
pub proof fn lemma_line_join_no_cubics<S, F: Fn((S, S), (S, S), (S, S)) -> bool>(
    prims: Seq<Primitive<S>>,
    zero: S,
    collinear: F,
)
    requires
        no_cubics(prims),
    ensures
        no_cubics(line_join_run(prims, zero, collinear).0),
    decreases prims.len(),
{
    if prims.len() > 0 {
        let pre = prims.drop_last();
        assert(no_cubics(pre)) by {
            assert forall|j: int| 0 <= j < pre.len() implies !(#[trigger] pre[j] is Cubic) by {
                assert(pre[j] == prims[j]);
            }
        }
        lemma_line_join_no_cubics(pre, zero, collinear);
        let st = line_join_run(pre, zero, collinear);
        let out = line_join_step(st, prims.last(), zero, collinear).0;
        assert(!(prims.last() is Cubic)) by {
            assert(prims.last() == prims[prims.len() - 1]);
        }
        assert forall|j: int| 0 <= j < out.len() implies !(#[trigger] out[j] is Cubic) by {
            if j < st.0.len() - 1 {
                assert(out[j] == st.0[j]);
            } else if j == st.0.len() - 1 {
                if j < out.len() - 1 {
                    assert(out[j] == st.0[j]);
                }
            }
        }
    }
}

/// `prim` only moves the pen or closes the path, or draws an arc: the
/// primitives the simplification leaves as they are.
pub open spec fn is_marker<S>(prim: Primitive<S>) -> bool {
    prim is Move || prim is Arc || prim is Close
}

/// The moves, arcs and closes of `s`, in order.
pub open spec fn markers<S>(s: Seq<Primitive<S>>) -> Seq<Primitive<S>>
    decreases s.len(),
{
    if s.len() == 0 {
        Seq::empty()
    } else if is_marker(s.last()) {
        markers(s.drop_last()).push(s.last())
    } else {
        markers(s.drop_last())
    }
}

proof fn lemma_markers_push<S>(s: Seq<Primitive<S>>, p: Primitive<S>)
    ensures
        markers(s.push(p)) == if is_marker(p) {
            markers(s).push(p)
        } else {
            markers(s)
        },
{
    assert(s.push(p).drop_last() =~= s);
}

proof fn lemma_markers_concat<S>(a: Seq<Primitive<S>>, b: Seq<Primitive<S>>)
    ensures
        markers(a + b) == markers(a) + markers(b),
    decreases b.len(),
{
    if b.len() == 0 {
        assert(a + b =~= a);
        assert(markers(a) + markers(b) =~= markers(a));
    } else {
        let c = b.drop_last();
        lemma_markers_concat(a, c);
        assert((a + b).drop_last() =~= a + c);
        assert((a + b).last() == b.last());
        if is_marker(b.last()) {
            assert(markers(a + b) =~= markers(a) + markers(b));
        }
    }
}

proof fn lemma_markers_pointwise<S>(a: Seq<Primitive<S>>, b: Seq<Primitive<S>>)
    requires
        a.len() == b.len(),
        forall|i: int| 0 <= i < a.len() && (is_marker(#[trigger] a[i]) || is_marker(b[i])) ==> a[i] == b[i],
    ensures
        markers(a) == markers(b),
    decreases a.len(),
{
    if a.len() > 0 {
        let a1 = a.drop_last();
        let b1 = b.drop_last();
        assert forall|i: int| 0 <= i < a1.len() && (is_marker(#[trigger] a1[i]) || is_marker(b1[i])) implies a1[i] == b1[i] by {
            assert(a1[i] == a[i] && b1[i] == b[i]);
        }
        lemma_markers_pointwise(a1, b1);
        assert(a.last() == a[a.len() - 1] && b.last() == b[b.len() - 1]);
    }
}

proof fn lemma_markers_non_lines<S>(s: Seq<Primitive<S>>)
    ensures
        markers(non_lines(s)) == markers(s),
    decreases s.len(),
{
    if s.len() > 0 {
        lemma_markers_non_lines(s.drop_last());
        if !(s.last() is Line) {
            lemma_markers_push(non_lines(s.drop_last()), s.last());
        }
    }
}

proof fn lemma_markers_non_quadratics<S>(s: Seq<Primitive<S>>)
    ensures
        markers(non_quadratics(s)) == markers(s),
    decreases s.len(),
{
    if s.len() > 0 {
        lemma_markers_non_quadratics(s.drop_last());
        if !(s.last() is Quadratic) {
            lemma_markers_push(non_quadratics(s.drop_last()), s.last());
        }
    }
}

proof fn lemma_markers_split<S, F: Fn((S, S), (S, S), (S, S), (S, S)) -> ((S, S), (S, S), (S, S))>(
    prims: Seq<Primitive<S>>,
    zero: S,
    split: F,
)
    ensures
        markers(split_run(prims, zero, split)) == markers(prims),
    decreases prims.len(),
{
    if prims.len() > 0 {
        let pre = prims.drop_last();
        let p = prims.last();
        lemma_markers_split(pre, zero, split);
        let pieces = split_pieces(p, start_point(prims, prims.len() - 1, zero), split);
        lemma_markers_concat(split_run(pre, zero, split), pieces);
        if p is Cubic {
            let q1 = pieces[0];
            let q2 = pieces[1];
            assert(pieces =~= seq![q1].push(q2));
            assert(seq![q1] =~= Seq::<Primitive<S>>::empty().push(q1));
            lemma_markers_push(seq![q1], q2);
            lemma_markers_push(Seq::<Primitive<S>>::empty(), q1);
        } else {
            assert(pieces =~= Seq::<Primitive<S>>::empty().push(p));
            lemma_markers_push(Seq::<Primitive<S>>::empty(), p);
        }
        assert(markers(Seq::<Primitive<S>>::empty()) =~= Seq::<Primitive<S>>::empty());
        assert(markers(pre) + markers(pieces) =~= markers(prims));
    }
}

proof fn lemma_cubic_count_pointwise<S>(a: Seq<Primitive<S>>, b: Seq<Primitive<S>>)
    requires
        a.len() == b.len(),
        forall|i: int| 0 <= i < a.len() && (#[trigger] a[i] is Cubic) ==> b[i] is Cubic,
    ensures
        cubic_count(a) <= cubic_count(b),
    decreases a.len(),
{
    if a.len() > 0 {
        let a1 = a.drop_last();
        let b1 = b.drop_last();
        assert forall|i: int| 0 <= i < a1.len() && (#[trigger] a1[i] is Cubic) implies b1[i] is Cubic by {
            assert(a1[i] == a[i] && b1[i] == b[i]);
        }
        lemma_cubic_count_pointwise(a1, b1);
        assert(a.last() == a[a.len() - 1] && b.last() == b[b.len() - 1]);
    }
}

/// No quadratic curve of `s` passes the flatness test from where it starts.
pub open spec fn no_flat_quadratics<S, F: Fn((S, S), (S, S), (S, S)) -> bool>(
    s: Seq<Primitive<S>>,
    zero: S,
    is_flat: F,
) -> bool {
    forall|i: int|
        0 <= i < s.len() && (#[trigger] s[i] is Quadratic) ==> !result3(
            is_flat,
            start_point(s, i, zero),
            quad_control(s[i], zero),
            end_point(s[i], zero),
        )
}

/// The simplification, pass after pass: cubic curves reduced to quadratic
/// ones where `fit` allows, the remaining cubics split in two by `split`,
/// runs of quadratics joined where `merge` allows, flat quadratics turned
/// into lines by `is_flat`, and runs of collinear lines joined by
/// `collinear`.
pub open spec fn simplify_spec<
    S,
    Fit: Fn((S, S), (S, S), (S, S), (S, S)) -> Option<(S, S)>,
    Split: Fn((S, S), (S, S), (S, S), (S, S)) -> ((S, S), (S, S), (S, S)),
    Merge: Fn((S, S), (S, S), (S, S), (S, S), (S, S)) -> Option<(S, S)>,
    Flat: Fn((S, S), (S, S), (S, S)) -> bool,
    Col: Fn((S, S), (S, S), (S, S)) -> bool,
>(
    prims: Seq<Primitive<S>>,
    zero: S,
    fit: Fit,
    split: Split,
    merge: Merge,
    is_flat: Flat,
    collinear: Col,
) -> Seq<Primitive<S>> {
    let reduced = reduce_spec(prims, zero, fit);
    let split_up = split_run(reduced, zero, split);
    let joined = quad_join_run(split_up, zero, merge).0;
    let flattened = flatten_spec(joined, zero, is_flat);
    line_join_run(flattened, zero, collinear).0
}

/// No two consecutive primitives of `s` are both quadratic curves.
pub open spec fn no_adjacent_quadratics<S>(s: Seq<Primitive<S>>) -> bool {
    forall|j: int| 0 < j < s.len() ==> !(s[j - 1] is Quadratic && #[trigger] s[j] is Quadratic)
}

/// Where `merge` accepts every pair, the quadratic-joining pass leaves no two
/// consecutive quadratic curves: each run becomes one curve.
pub proof fn lemma_quad_join_accepting<S, F: Fn((S, S), (S, S), (S, S), (S, S), (S, S)) -> Option<(S, S)>>(
    prims: Seq<Primitive<S>>,
    zero: S,
    merge: F,
)
    requires
        forall|a: (S, S), b: (S, S), c: (S, S), d: (S, S), e: (S, S)|
            #[trigger] result5(merge, a, b, c, d, e) is Some,
    ensures
        no_adjacent_quadratics(quad_join_run(prims, zero, merge).0),
    decreases prims.len(),
{
    if prims.len() > 0 {
        let pre = prims.drop_last();
        let p = prims.last();
        lemma_quad_join_accepting(pre, zero, merge);
        let (old, anchor, _) = quad_join_run(pre, zero, merge);
        let new = quad_join_run(prims, zero, merge).0;
        if quad_join_asks(old, p) {
            assert(quad_join_answer(old, anchor, p, zero, merge) is Some);
            assert(new.len() == old.len());
            assert forall|j: int| 0 < j < new.len() implies !(new[j - 1] is Quadratic
                && #[trigger] new[j] is Quadratic) by {
                assert(new[j - 1] == old[j - 1]);
                if j < new.len() - 1 {
                    assert(new[j] == old[j]);
                } else {
                    assert(old[j] is Quadratic);
                }
            }
        } else {
            assert(new == old.push(p));
            assert forall|j: int| 0 < j < new.len() implies !(new[j - 1] is Quadratic
                && #[trigger] new[j] is Quadratic) by {
                assert(new[j - 1] == old.push(p)[j - 1]);
                if j < new.len() - 1 {
                    assert(new[j] == old[j]);
                }
            }
        }
    }
}

/// The line-joining pass leaves no two consecutive quadratic curves where it
/// reads none; it writes something for every path read, and its last
/// primitive is a quadratic curve exactly when the last one read is.
pub proof fn lemma_line_join_quadratics<S, F: Fn((S, S), (S, S), (S, S)) -> bool>(
    prims: Seq<Primitive<S>>,
    zero: S,
    collinear: F,
)
    requires
        no_adjacent_quadratics(prims),
    ensures
        no_adjacent_quadratics(line_join_run(prims, zero, collinear).0),
        prims.len() > 0 ==> line_join_run(prims, zero, collinear).0.len() > 0 && (line_join_run(
            prims,
            zero,
            collinear,
        ).0.last() is Quadratic <==> prims.last() is Quadratic),
    decreases prims.len(),
{
    if prims.len() > 0 {
        let pre = prims.drop_last();
        let p = prims.last();
        assert forall|j: int| 0 < j < pre.len() implies !(pre[j - 1] is Quadratic
            && #[trigger] pre[j] is Quadratic) by {
            assert(pre[j] == prims[j] && pre[j - 1] == prims[j - 1]);
        }
        lemma_line_join_quadratics(pre, zero, collinear);
        let (old, _, _) = line_join_run(pre, zero, collinear);
        let new = line_join_run(prims, zero, collinear).0;
        if pre.len() > 0 {
            assert(prims[prims.len() - 2] == pre.last());
            assert(prims[prims.len() - 1] == p);
        }
        assert forall|j: int| 0 < j < new.len() implies !(new[j - 1] is Quadratic
            && #[trigger] new[j] is Quadratic) by {
            if j < old.len() - 1 {
                assert(new[j] == old[j] && new[j - 1] == old[j - 1]);
            } else if j == old.len() - 1 {
                assert(new[j - 1] == old[j - 1]);
                if new.len() > old.len() {
                    assert(new[j] == old[j]);
                }
            } else {
                assert(new[j - 1] == old[j - 1]);
            }
        }
    }
}

/// Where `merge` accepts every pair and `is_flat` no curve, the simplified
/// path holds no two consecutive quadratic curves: the joined runs are what
/// the later passes read.
pub proof fn lemma_simplify_joins_runs<
    S,
    Fit: Fn((S, S), (S, S), (S, S), (S, S)) -> Option<(S, S)>,
    Split: Fn((S, S), (S, S), (S, S), (S, S)) -> ((S, S), (S, S), (S, S)),
    Merge: Fn((S, S), (S, S), (S, S), (S, S), (S, S)) -> Option<(S, S)>,
    Flat: Fn((S, S), (S, S), (S, S)) -> bool,
    Col: Fn((S, S), (S, S), (S, S)) -> bool,
>(
    prims: Seq<Primitive<S>>,
    zero: S,
    fit: Fit,
    split: Split,
    merge: Merge,
    is_flat: Flat,
    collinear: Col,
)
    requires
        forall|a: (S, S), b: (S, S), c: (S, S), d: (S, S), e: (S, S)|
            #[trigger] result5(merge, a, b, c, d, e) is Some,
        forall|a: (S, S), b: (S, S), c: (S, S)| !#[trigger] result3(is_flat, a, b, c),
    ensures
        no_adjacent_quadratics(simplify_spec(prims, zero, fit, split, merge, is_flat, collinear)),
{
    let reduced = reduce_spec(prims, zero, fit);
    let split_up = split_run(reduced, zero, split);
    let joined = quad_join_run(split_up, zero, merge).0;
    lemma_quad_join_accepting(split_up, zero, merge);
    let flattened = flatten_spec(joined, zero, is_flat);
    assert(flattened =~= joined);
    lemma_line_join_quadratics(flattened, zero, collinear);
}

/// Every call of the numeric tests that the simplification makes has been
/// answered (see [`crate::kernel`]).
pub open spec fn simplify_answered<
    S,
    Fit: Fn((S, S), (S, S), (S, S), (S, S)) -> Option<(S, S)>,
    Split: Fn((S, S), (S, S), (S, S), (S, S)) -> ((S, S), (S, S), (S, S)),
    Merge: Fn((S, S), (S, S), (S, S), (S, S), (S, S)) -> Option<(S, S)>,
    Flat: Fn((S, S), (S, S), (S, S)) -> bool,
    Col: Fn((S, S), (S, S), (S, S)) -> bool,
>(
    prims: Seq<Primitive<S>>,
    zero: S,
    fit: Fit,
    split: Split,
    merge: Merge,
    is_flat: Flat,
    collinear: Col,
) -> bool {
    let reduced = reduce_spec(prims, zero, fit);
    let split_up = split_run(reduced, zero, split);
    let joined = quad_join_run(split_up, zero, merge).0;
    let flattened = flatten_spec(joined, zero, is_flat);
    &&& cubics_answered(prims, zero, fit)
    &&& cubics_answered(reduced, zero, split)
    &&& quad_join_answered(split_up, zero, merge)
    &&& quadratics_answered(joined, zero, is_flat)
    &&& line_join_answered(flattened, zero, collinear)
}

/// Simplifies a path with the given numeric tests (see [`simplify_spec`]).
/// The result holds no cubic curve, keeps the moves, arcs and closes in
/// order, writes at most one primitive more per cubic curve, holds no
/// quadratic curve that `is_flat` judges flat from where it starts, and
/// ends where the path ends.
pub fn simplify<
    S: Copy,
    Fit: Fn((S, S), (S, S), (S, S), (S, S)) -> Option<(S, S)>,
    Split: Fn((S, S), (S, S), (S, S), (S, S)) -> ((S, S), (S, S), (S, S)),
    Merge: Fn((S, S), (S, S), (S, S), (S, S), (S, S)) -> Option<(S, S)>,
    Flat: Fn((S, S), (S, S), (S, S)) -> bool,
    Col: Fn((S, S), (S, S), (S, S)) -> bool,
>(
    prims: &Vec<Primitive<S>>,
    zero: S,
    fit: Fit,
    split: Split,
    merge: Merge,
    is_flat: Flat,
    collinear: Col,
) -> (out: Vec<Primitive<S>>)
    requires
        deterministic4(fit),
        deterministic4(split),
        deterministic5(merge),
        deterministic3(is_flat),
        deterministic3(collinear),
    ensures
        out@ == simplify_spec(prims@, zero, fit, split, merge, is_flat, collinear),
        out@ == line_join_run(
            flatten_spec(
                quad_join_run(split_run(reduce_spec(prims@, zero, fit), zero, split), zero, merge).0,
                zero,
                is_flat,
            ),
            zero,
            collinear,
        ).0,
        simplify_answered(prims@, zero, fit, split, merge, is_flat, collinear),
        no_cubics(out@),
        markers(out@) == markers(prims@),
        out.len() <= prims.len() + cubic_count(prims@),
        no_flat_quadratics(out@, zero, is_flat),
        path_end(out@, zero) == path_end(prims@, zero),
{
    let reduced = reduce_cubics(prims, zero, fit);
    proof {
        lemma_markers_pointwise(reduced@, prims@);
        lemma_cubic_count_pointwise(reduced@, prims@);
    }
    let split_up = split_cubics(&reduced, zero, split);
    proof {
        lemma_markers_split(reduced@, zero, split);
    }
    let joined = merge_quadratic_runs(&split_up, zero, merge);
    proof {
        lemma_quad_join_no_cubics(split_up@, zero, merge);
        lemma_markers_non_quadratics(joined@);
        lemma_markers_non_quadratics(split_up@);
    }
    let flattened = flatten_quadratics(&joined, zero, is_flat);
    proof {
        assert forall|j: int| 0 <= j < flattened@.len() implies !(#[trigger] flattened@[j] is Cubic) by {
            assert(!(joined@[j] is Cubic));
        }
        lemma_markers_pointwise(flattened@, joined@);
        assert forall|i: int|
            0 <= i < flattened@.len() && (#[trigger] flattened@[i] is Quadratic) implies !result3(
            is_flat,
            start_point(flattened@, i, zero),
            quad_control(flattened@[i], zero),
            end_point(flattened@[i], zero),
        ) by {
            if i > 0 {
                assert(end_point(flattened@[i - 1], zero) == end_point(joined@[i - 1], zero));
            }
        }
    }
    let out = merge_collinear_lines(&flattened, zero, collinear);
    proof {
        lemma_line_join_no_cubics(flattened@, zero, collinear);
        lemma_markers_non_lines(out@);
        lemma_markers_non_lines(flattened@);
        assert forall|j: int|
            0 <= j < out@.len() && (#[trigger] out@[j] is Quadratic) implies !result3(
            is_flat,
            start_point(out@, j, zero),
            quad_control(out@[j], zero),
            end_point(out@[j], zero),
        ) by {
            let i = choose|i: int|
                0 <= i < flattened@.len() && #[trigger] flattened@[i] == out@[j] && start_point(
                    flattened@,
                    i,
                    zero,
                ) == start_point(out@, j, zero);
        }
    }
    out
}

} // verus!
