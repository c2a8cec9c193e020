//! Counting the primitives of a path by variant.
use vstd::prelude::*;
use crate::primitive::Primitive;

verus! {

/// The variant of a primitive, without its coordinates.
#[derive(Debug, Clone, Copy, PartialEq, Eq, Structural)]
pub enum PrimitiveKind {
    Move,
    Line,
    Quadratic,
    Cubic,
    Arc,
    Close,
}

pub open spec fn kind_of<S>(prim: Primitive<S>) -> PrimitiveKind {
    match prim {
        Primitive::Move(..) => PrimitiveKind::Move,
        Primitive::Line(..) => PrimitiveKind::Line,
        Primitive::Quadratic(..) => PrimitiveKind::Quadratic,
        Primitive::Cubic(..) => PrimitiveKind::Cubic,
        Primitive::Arc(..) => PrimitiveKind::Arc,
        Primitive::Close => PrimitiveKind::Close,
    }
}

/// The variant of `prim`.
pub fn kind<S>(prim: &Primitive<S>) -> (r: PrimitiveKind)
    ensures
        r == kind_of(*prim),
{
    match prim {
        Primitive::Move(..) => PrimitiveKind::Move,
        Primitive::Line(..) => PrimitiveKind::Line,
        Primitive::Quadratic(..) => PrimitiveKind::Quadratic,
        Primitive::Cubic(..) => PrimitiveKind::Cubic,
        Primitive::Arc(..) => PrimitiveKind::Arc,
        Primitive::Close => PrimitiveKind::Close,
    }
}

/// The number of primitives of variant `k` in `s`.
pub open spec fn kind_count<S>(s: Seq<Primitive<S>>, k: PrimitiveKind) -> nat
    decreases s.len(),
{
    if s.len() == 0 {
        0
    } else {
        kind_count(s.drop_last(), k) + if kind_of(s.last()) == k {
            1nat
        } else {
            0nat
        }
    }
}

pub proof fn lemma_kind_count_bound<S>(s: Seq<Primitive<S>>, k: PrimitiveKind)
    ensures
        kind_count(s, k) <= s.len(),
    decreases s.len(),
{
    if s.len() > 0 {
        lemma_kind_count_bound(s.drop_last(), k);
    }
}

/// The counts of the drawing variants together never exceed the length.
pub proof fn lemma_drawing_counts_bound<S>(s: Seq<Primitive<S>>)
    ensures
        kind_count(s, PrimitiveKind::Line) + kind_count(s, PrimitiveKind::Quadratic) + kind_count(
            s,
            PrimitiveKind::Cubic,
        ) + kind_count(s, PrimitiveKind::Arc) <= s.len(),
    decreases s.len(),
{
    if s.len() > 0 {
        lemma_drawing_counts_bound(s.drop_last());
    }
}

/// The number of primitives of variant `k` in `prims`.
pub fn count_kind<S>(prims: &Vec<Primitive<S>>, k: PrimitiveKind) -> (r: usize)
    ensures
        r == kind_count(prims@, k),
{
    let mut r: usize = 0;
    let n = prims.len();
    for i in 0..n
        invariant
            n == prims.len(),
            r == kind_count(prims@.take(i as int), k),
    {
        proof {
            assert(prims@.take(i + 1).drop_last() =~= prims@.take(i as int));
            lemma_kind_count_bound(prims@.take(i as int), k);
        }
        if kind(&prims[i]) == k {
            r = r + 1;
        }
    }
    proof {
        assert(prims@.take(n as int) =~= prims@);
    }
    r
}

/// A line of the summary of a path.
#[derive(Debug, Clone, Copy, PartialEq, Eq, Structural)]
pub enum ReportLabel {
    Arc,
    Line,
    Cubic,
    Quadr,
    Total,
}

impl ReportLabel {
    pub open spec fn spec_text(self) -> &'static str {
        match self {
            ReportLabel::Arc => " Arc",
            ReportLabel::Line => " Line",
            ReportLabel::Cubic => "Cubic",
            ReportLabel::Quadr => "Quadr",
            ReportLabel::Total => "Total",
        }
    }

    /// The name printed for this line (names sort in the order of the variants).
    pub fn text(&self) -> (r: &'static str)
        ensures
            r@ == self.spec_text()@,
    {
        match self {
            ReportLabel::Arc => " Arc",
            ReportLabel::Line => " Line",
            ReportLabel::Cubic => "Cubic",
            ReportLabel::Quadr => "Quadr",
            ReportLabel::Total => "Total",
        }
    }
}

/// `(label, n)` as a one-line sequence where `n > 0`, and nothing otherwise.
pub open spec fn entry_if_present(label: ReportLabel, n: nat) -> Seq<(ReportLabel, nat)> {
    if n > 0 {
        seq![(label, n)]
    } else {
        Seq::empty()
    }
}

/// The summary of a path: arcs, lines, cubic and quadratic curves, each
/// where there is one, then the total of lines and curves.  `Move` and
/// `Close` are not reported.
pub open spec fn report_spec<S>(s: Seq<Primitive<S>>) -> Seq<(ReportLabel, nat)> {
    let arcs = kind_count(s, PrimitiveKind::Arc);
    let lines = kind_count(s, PrimitiveKind::Line);
    let cubics = kind_count(s, PrimitiveKind::Cubic);
    let quads = kind_count(s, PrimitiveKind::Quadratic);
    entry_if_present(ReportLabel::Arc, arcs) + entry_if_present(ReportLabel::Line, lines)
        + entry_if_present(ReportLabel::Cubic, cubics) + entry_if_present(ReportLabel::Quadr, quads)
        + seq![(ReportLabel::Total, cubics + quads + lines)]
}

/// The view of a report as labels and mathematical counts.
pub open spec fn report_view(r: Seq<(ReportLabel, usize)>) -> Seq<(ReportLabel, nat)> {
    r.map_values(|e: (ReportLabel, usize)| (e.0, e.1 as nat))
}

fn push_if_present(out: &mut Vec<(ReportLabel, usize)>, label: ReportLabel, n: usize)
    ensures
        report_view(final(out)@) == report_view(old(out)@) + entry_if_present(label, n as nat),
{
    let ghost before = out@;
    if n > 0 {
        out.push((label, n));
    }
    proof {
        assert(report_view(out@) =~= report_view(before) + entry_if_present(label, n as nat));
    }
}

/// The summary of `prims`, one `(label, count)` per line in printing order.
pub fn kind_report<S>(prims: &Vec<Primitive<S>>) -> (r: Vec<(ReportLabel, usize)>)
    ensures
        report_view(r@) == report_spec(prims@),
{
    let arcs = count_kind(prims, PrimitiveKind::Arc);
    let lines = count_kind(prims, PrimitiveKind::Line);
    let cubics = count_kind(prims, PrimitiveKind::Cubic);
    let quads = count_kind(prims, PrimitiveKind::Quadratic);
    proof {
        lemma_drawing_counts_bound(prims@);
        assert(cubics + quads + lines <= prims.len());
    }
    let mut r: Vec<(ReportLabel, usize)> = Vec::new();
    push_if_present(&mut r, ReportLabel::Arc, arcs);
    push_if_present(&mut r, ReportLabel::Line, lines);
    push_if_present(&mut r, ReportLabel::Cubic, cubics);
    push_if_present(&mut r, ReportLabel::Quadr, quads);
    let ghost before = r@;
    r.push((ReportLabel::Total, cubics + quads + lines));
    proof {
        assert(report_view(r@) =~= report_view(before) + seq![(ReportLabel::Total, (cubics + quads + lines) as nat)]);
    }
    r
}

/// The position of a label in the summary.
pub open spec fn rank(label: ReportLabel) -> int {
    match label {
        ReportLabel::Arc => 0,
        ReportLabel::Line => 1,
        ReportLabel::Cubic => 2,
        ReportLabel::Quadr => 3,
        ReportLabel::Total => 4,
    }
}

/// `a` sorts strictly before `b` as text (by character code, a proper prefix first).
pub open spec fn text_less(a: Seq<char>, b: Seq<char>) -> bool {
    exists|i: int|
        0 <= i <= a.len() && i <= b.len() && (forall|j: int| 0 <= j < i ==> a[j] == b[j]) && ((
        i == a.len() && i < b.len()) || (i < a.len() && i < b.len() && (a[i] as u32) < (
        b[i] as u32)))
}

proof fn lemma_differ_at(a: Seq<char>, b: Seq<char>, i: int, s1: Seq<char>, s2: Seq<char>)
    requires
        0 <= i < a.len(),
        i < b.len(),
        forall|j: int| 0 <= j < i ==> a[j] == b[j],
        (a[i] as u32) < (b[i] as u32),
    ensures
        text_less(a + s1, b + s2),
{
    let x = a + s1;
    let y = b + s2;
    assert(forall|j: int| 0 <= j < i ==> x[j] == y[j]);
    assert(x[i] == a[i] && y[i] == b[i]);
}

/// The lines of the summary come in sorted order whatever follows each
/// label: a label of lower rank sorts before one of higher rank.
pub proof fn lemma_label_order(l1: ReportLabel, l2: ReportLabel, s1: Seq<char>, s2: Seq<char>)
    requires
        rank(l1) < rank(l2),
    ensures
        text_less(l1.spec_text()@ + s1, l2.spec_text()@ + s2),
{
    reveal_strlit(" Arc");
    reveal_strlit(" Line");
    reveal_strlit("Cubic");
    reveal_strlit("Quadr");
    reveal_strlit("Total");
    let a = l1.spec_text()@;
    let b = l2.spec_text()@;
    if l1 == ReportLabel::Arc && l2 == ReportLabel::Line {
        lemma_differ_at(a, b, 1, s1, s2);
    } else {
        lemma_differ_at(a, b, 0, s1, s2);
    }
}

proof fn lemma_rank_chain(r: Seq<(ReportLabel, nat)>, i: int, j: int)
    requires
        0 <= i < j < r.len(),
        forall|m: int|
            0 <= m < r.len() ==> (m >= r.len() - 1 || rank(#[trigger] r[m].0) < rank(r[m + 1].0)),
    ensures
        rank(r[i].0) < rank(r[j].0),
    decreases j - i,
{
    if j > i + 1 {
        lemma_rank_chain(r, i + 1, j);
        assert(rank(r[i].0) < rank(r[i + 1].0));
    } else {
        assert(rank(r[i].0) < rank(r[i + 1].0));
    }
}

/// The labels of a summary strictly increase in rank, so no label occurs
/// twice and (by [`lemma_label_order`]) the lines are sorted.
pub proof fn lemma_report_ranks<S>(s: Seq<Primitive<S>>)
    ensures
        forall|i: int, j: int|
            0 <= i < j < report_spec(s).len() ==> rank(#[trigger] report_spec(s)[i].0) < rank(
                #[trigger] report_spec(s)[j].0,
            ),
{
    let arcs = kind_count(s, PrimitiveKind::Arc);
    let lines = kind_count(s, PrimitiveKind::Line);
    let cubics = kind_count(s, PrimitiveKind::Cubic);
    let quads = kind_count(s, PrimitiveKind::Quadratic);
    let e0 = entry_if_present(ReportLabel::Arc, arcs);
    let e1 = entry_if_present(ReportLabel::Line, lines);
    let e2 = entry_if_present(ReportLabel::Cubic, cubics);
    let e3 = entry_if_present(ReportLabel::Quadr, quads);
    let e4 = seq![(ReportLabel::Total, cubics + quads + lines)];
    let r = report_spec(s);
    let r01 = e0 + e1;
    let r012 = r01 + e2;
    let r0123 = r012 + e3;
    assert(r == r0123 + e4);
    // Each entry's rank is at least the number of entries before it.
    assert forall|i: int| 0 <= i < r.len() implies rank(#[trigger] r[i].0) >= i && (i
        >= r.len() - 1 || rank(r[i].0) < rank(r[i + 1].0)) by {
        if i < r01.len() {
            assert(r[i] == r01[i]);
            if i < e0.len() {
                assert(r01[i] == e0[i]);
            } else {
                assert(r01[i] == e1[i - e0.len()]);
            }
        } else if i < r012.len() {
            assert(r[i] == r012[i]);
            assert(r012[i] == e2[i - r01.len()]);
        } else if i < r0123.len() {
            assert(r[i] == r0123[i]);
            assert(r0123[i] == e3[i - r012.len()]);
        } else {
            assert(r[i] == e4[i - r0123.len()]);
        }
        if i + 1 < r.len() {
            let k = i + 1;
            if k < r01.len() {
                assert(r[k] == r01[k]);
                if k < e0.len() {
                    assert(r01[k] == e0[k]);
                } else {
                    assert(r01[k] == e1[k - e0.len()]);
                }
            } else if k < r012.len() {
                assert(r[k] == r012[k]);
                assert(r012[k] == e2[k - r01.len()]);
            } else if k < r0123.len() {
                assert(r[k] == r0123[k]);
                assert(r0123[k] == e3[k - r012.len()]);
            } else {
                assert(r[k] == e4[k - r0123.len()]);
            }
        }
    }
    assert forall|i: int, j: int| 0 <= i < j < r.len() implies rank(#[trigger] r[i].0) < rank(
        #[trigger] r[j].0,
    ) by {
        lemma_rank_chain(r, i, j);
    }
}

} // verus!
