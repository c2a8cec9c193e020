//! Reading SVG path data: turning drawing commands into primitives.
use vstd::prelude::*;
use crate::kernel::{answered2, deterministic2, lemma_result2, result2};
use crate::primitive::{end_point, path_end, Primitive};

verus! {

/// The drawing commands of SVG path data (`M L H V Q T C S A Z`).
#[derive(Debug, Clone, Copy, PartialEq, Eq, Structural)]
pub enum CommandKind {
    Move,
    Line,
    HorizontalLine,
    VerticalLine,
    QuadraticCurve,
    SmoothQuadraticCurve,
    CubicCurve,
    SmoothCubicCurve,
    EllipticalArc,
    Close,
}

/// One command of path data with its parameters, which may hold several
/// repetitions of the command.  `relative` is set for the lower-case forms,
/// whose points are offsets from the current point.
#[derive(Debug, Clone)]
pub struct PathCommand<S> {
    pub kind: CommandKind,
    pub relative: bool,
    pub params: Vec<S>,
}

/// The number of parameters one repetition of a command reads.
pub open spec fn spec_arity(kind: CommandKind) -> nat {
    match kind {
        CommandKind::Move => 2,
        CommandKind::Line => 2,
        CommandKind::HorizontalLine => 1,
        CommandKind::VerticalLine => 1,
        CommandKind::QuadraticCurve => 4,
        CommandKind::SmoothQuadraticCurve => 2,
        CommandKind::CubicCurve => 6,
        CommandKind::SmoothCubicCurve => 4,
        CommandKind::EllipticalArc => 7,
        CommandKind::Close => 0,
    }
}

/// The number of parameters one repetition of a command reads.
pub fn arity(kind: CommandKind) -> (r: usize)
    ensures
        r == spec_arity(kind),
{
    match kind {
        CommandKind::Move => 2,
        CommandKind::Line => 2,
        CommandKind::HorizontalLine => 1,
        CommandKind::VerticalLine => 1,
        CommandKind::QuadraticCurve => 4,
        CommandKind::SmoothQuadraticCurve => 2,
        CommandKind::CubicCurve => 6,
        CommandKind::SmoothCubicCurve => 4,
        CommandKind::EllipticalArc => 7,
        CommandKind::Close => 0,
    }
}

/// The primitive variant that a command draws.
pub open spec fn draws<S>(kind: CommandKind, prim: Primitive<S>) -> bool {
    match kind {
        CommandKind::Move => prim is Move,
        CommandKind::Line => prim is Line,
        CommandKind::HorizontalLine => prim is Line,
        CommandKind::VerticalLine => prim is Line,
        CommandKind::QuadraticCurve => prim is Quadratic,
        CommandKind::SmoothQuadraticCurve => prim is Quadratic,
        CommandKind::CubicCurve => prim is Cubic,
        CommandKind::SmoothCubicCurve => prim is Cubic,
        CommandKind::EllipticalArc => prim is Arc,
        CommandKind::Close => false,
    }
}

/// The pen: the current point and the last control point of a curve (both
/// start at the origin; the control point is left as it is by other commands).
pub type Pen<S> = ((S, S), (S, S));

/// The `k`-th parameter, or `zero` past the end.
pub open spec fn param<S>(params: Seq<S>, k: int, zero: S) -> S {
    if 0 <= k < params.len() {
        params[k]
    } else {
        zero
    }
}

/// The point made of parameters `k` and `k + 1`, offset by the current point
/// through `offset` for a relative command.
pub open spec fn point_at<S, A: Fn(S, S) -> S>(
    cmd: PathCommand<S>,
    k: int,
    cur: (S, S),
    zero: S,
    offset: A,
) -> (S, S) {
    let px = param(cmd.params@, k, zero);
    let py = param(cmd.params@, k + 1, zero);
    if cmd.relative {
        (result2(offset, px, cur.0), result2(offset, py, cur.1))
    } else {
        (px, py)
    }
}

/// One repetition of `cmd`, reading its parameters from index `k`: the pen
/// after it and the primitive it draws.  `reflect(current, control)` gives the
/// reflection of a control coordinate through the current one for the
/// smooth curves.
pub open spec fn read_segment_spec<S, A: Fn(S, S) -> S, R: Fn(S, S) -> S>(
    pen: Pen<S>,
    cmd: PathCommand<S>,
    k: int,
    zero: S,
    offset: A,
    reflect: R,
) -> (Pen<S>, Primitive<S>) {
    let (cur, ctrl) = pen;
    let mirrored = (result2(reflect, cur.0, ctrl.0), result2(reflect, cur.1, ctrl.1));
    match cmd.kind {
        CommandKind::Move => {
            let e = point_at(cmd, k, cur, zero, offset);
            ((e, ctrl), Primitive::Move(e.0, e.1))
        },
        CommandKind::Line => {
            let e = point_at(cmd, k, cur, zero, offset);
            ((e, ctrl), Primitive::Line(e.0, e.1))
        },
        CommandKind::HorizontalLine => {
            let v = param(cmd.params@, k, zero);
            let x = if cmd.relative {
                result2(offset, v, cur.0)
            } else {
                v
            };
            (((x, cur.1), ctrl), Primitive::Line(x, cur.1))
        },
        CommandKind::VerticalLine => {
            let v = param(cmd.params@, k, zero);
            let y = if cmd.relative {
                result2(offset, v, cur.1)
            } else {
                v
            };
            (((cur.0, y), ctrl), Primitive::Line(cur.0, y))
        },
        CommandKind::QuadraticCurve => {
            let c = point_at(cmd, k, cur, zero, offset);
            let e = point_at(cmd, k + 2, cur, zero, offset);
            ((e, c), Primitive::Quadratic(c.0, c.1, e.0, e.1))
        },
        CommandKind::SmoothQuadraticCurve => {
            let c = mirrored;
            let e = point_at(cmd, k, cur, zero, offset);
            ((e, c), Primitive::Quadratic(c.0, c.1, e.0, e.1))
        },
        CommandKind::CubicCurve => {
            let c1 = point_at(cmd, k, cur, zero, offset);
            let c2 = point_at(cmd, k + 2, cur, zero, offset);
            let e = point_at(cmd, k + 4, cur, zero, offset);
            ((e, c2), Primitive::Cubic(c1.0, c1.1, c2.0, c2.1, e.0, e.1))
        },
        CommandKind::SmoothCubicCurve => {
            let c1 = mirrored;
            let c2 = point_at(cmd, k, cur, zero, offset);
            let e = point_at(cmd, k + 2, cur, zero, offset);
            ((e, c2), Primitive::Cubic(c1.0, c1.1, c2.0, c2.1, e.0, e.1))
        },
        CommandKind::EllipticalArc => {
            let e = point_at(cmd, k + 5, cur, zero, offset);
            (
                (e, ctrl),
                Primitive::Arc(
                    param(cmd.params@, k, zero),
                    param(cmd.params@, k + 1, zero),
                    param(cmd.params@, k + 2, zero),
                    param(cmd.params@, k + 3, zero),
                    param(cmd.params@, k + 4, zero),
                    e.0,
                    e.1,
                ),
            )
        },
        CommandKind::Close => (pen, Primitive::Close),
    }
}

/// Reading the parameters of `cmd` from index `k` on, repetition after
/// repetition, appending what each draws to `out`.  A repetition that runs
/// past the last parameter reads `zero` for the missing ones.  `Close` has no
/// parameters and draws nothing.
pub open spec fn read_command_spec<S, A: Fn(S, S) -> S, R: Fn(S, S) -> S>(
    pen: Pen<S>,
    out: Seq<Primitive<S>>,
    cmd: PathCommand<S>,
    k: int,
    zero: S,
    offset: A,
    reflect: R,
) -> (Pen<S>, Seq<Primitive<S>>)
    decreases cmd.params@.len() - k,
{
    if cmd.kind == CommandKind::Close || k >= cmd.params@.len() || k < 0 {
        (pen, out)
    } else {
        let (pen2, prim) = read_segment_spec(pen, cmd, k, zero, offset, reflect);
        let a = spec_arity(cmd.kind) as int;
        let next = if k + a <= cmd.params@.len() {
            k + a
        } else {
            cmd.params@.len() as int
        };
        read_command_spec(pen2, out.push(prim), cmd, next, zero, offset, reflect)
    }
}

/// Reading a whole sequence of commands from a pen at the origin.
pub open spec fn read_path_spec<S, A: Fn(S, S) -> S, R: Fn(S, S) -> S>(
    cmds: Seq<PathCommand<S>>,
    zero: S,
    offset: A,
    reflect: R,
) -> (Pen<S>, Seq<Primitive<S>>)
    decreases cmds.len(),
{
    if cmds.len() == 0 {
        (((zero, zero), (zero, zero)), Seq::empty())
    } else {
        let (pen, out) = read_path_spec(cmds.drop_last(), zero, offset, reflect);
        read_command_spec(pen, out, cmds.last(), 0, zero, offset, reflect)
    }
}

/// The offsets asked for the point at parameter `k` (relative commands
/// only) have been answered (see [`answered2`]).
pub open spec fn point_answered<S, A: Fn(S, S) -> S>(
    cmd: PathCommand<S>,
    k: int,
    cur: (S, S),
    zero: S,
    offset: A,
) -> bool {
    cmd.relative ==> {
        &&& answered2(offset, param(cmd.params@, k, zero), cur.0)
        &&& answered2(offset, param(cmd.params@, k + 1, zero), cur.1)
    }
}

/// The calls of `offset` and `reflect` that one repetition of `cmd` from
/// parameter `k` makes have been answered.
pub open spec fn segment_answered<S, A: Fn(S, S) -> S, R: Fn(S, S) -> S>(
    pen: Pen<S>,
    cmd: PathCommand<S>,
    k: int,
    zero: S,
    offset: A,
    reflect: R,
) -> bool {
    let (cur, ctrl) = pen;
    let mirrored = answered2(reflect, cur.0, ctrl.0) && answered2(reflect, cur.1, ctrl.1);
    match cmd.kind {
        CommandKind::Move => point_answered(cmd, k, cur, zero, offset),
        CommandKind::Line => point_answered(cmd, k, cur, zero, offset),
        CommandKind::HorizontalLine => cmd.relative ==> answered2(
            offset,
            param(cmd.params@, k, zero),
            cur.0,
        ),
        CommandKind::VerticalLine => cmd.relative ==> answered2(
            offset,
            param(cmd.params@, k, zero),
            cur.1,
        ),
        CommandKind::QuadraticCurve => point_answered(cmd, k, cur, zero, offset) && point_answered(
            cmd,
            k + 2,
            cur,
            zero,
            offset,
        ),
        CommandKind::SmoothQuadraticCurve => mirrored && point_answered(cmd, k, cur, zero, offset),
        CommandKind::CubicCurve => point_answered(cmd, k, cur, zero, offset) && point_answered(
            cmd,
            k + 2,
            cur,
            zero,
            offset,
        ) && point_answered(cmd, k + 4, cur, zero, offset),
        CommandKind::SmoothCubicCurve => mirrored && point_answered(cmd, k, cur, zero, offset)
            && point_answered(cmd, k + 2, cur, zero, offset),
        CommandKind::EllipticalArc => point_answered(cmd, k + 5, cur, zero, offset),
        CommandKind::Close => true,
    }
}

/// Every call that reading `cmd` from parameter `k` makes has been answered.
pub open spec fn command_answered<S, A: Fn(S, S) -> S, R: Fn(S, S) -> S>(
    pen: Pen<S>,
    out: Seq<Primitive<S>>,
    cmd: PathCommand<S>,
    k: int,
    zero: S,
    offset: A,
    reflect: R,
) -> bool
    decreases cmd.params@.len() - k,
{
    if cmd.kind == CommandKind::Close || k >= cmd.params@.len() || k < 0 {
        true
    } else {
        let (pen2, prim) = read_segment_spec(pen, cmd, k, zero, offset, reflect);
        let a = spec_arity(cmd.kind) as int;
        let next = if k + a <= cmd.params@.len() {
            k + a
        } else {
            cmd.params@.len() as int
        };
        &&& segment_answered(pen, cmd, k, zero, offset, reflect)
        &&& command_answered(pen2, out.push(prim), cmd, next, zero, offset, reflect)
    }
}

/// Every call that reading `cmds` makes has been answered.
pub open spec fn path_answered<S, A: Fn(S, S) -> S, R: Fn(S, S) -> S>(
    cmds: Seq<PathCommand<S>>,
    zero: S,
    offset: A,
    reflect: R,
) -> bool
    decreases cmds.len(),
{
    if cmds.len() == 0 {
        true
    } else {
        let (pen, out) = read_path_spec(cmds.drop_last(), zero, offset, reflect);
        &&& path_answered(cmds.drop_last(), zero, offset, reflect)
        &&& command_answered(pen, out, cmds.last(), 0, zero, offset, reflect)
    }
}

/// The control point a curve leaves for the next smooth curve to reflect:
/// the control point of a quadratic, the second one of a cubic; other
/// primitives leave `ctrl` as it was.
pub open spec fn last_control<S>(prim: Primitive<S>, ctrl: (S, S)) -> (S, S) {
    match prim {
        Primitive::Quadratic(x1, y1, _, _) => (x1, y1),
        Primitive::Cubic(_, _, x2, y2, _, _) => (x2, y2),
        _ => ctrl,
    }
}

/// The first control point of a curve (the origin for other primitives).
pub open spec fn first_control<S>(prim: Primitive<S>, zero: S) -> (S, S) {
    match prim {
        Primitive::Quadratic(x1, y1, _, _) => (x1, y1),
        Primitive::Cubic(x1, y1, _, _, _, _) => (x1, y1),
        _ => (zero, zero),
    }
}

/// The control point the last curve of `s` leaves (see [`last_control`]),
/// or `init` if `s` holds no curve.
pub open spec fn curve_control<S>(s: Seq<Primitive<S>>, init: (S, S)) -> (S, S)
    decreases s.len(),
{
    if s.len() == 0 {
        init
    } else {
        last_control(s.last(), curve_control(s.drop_last(), init))
    }
}

/// Where one repetition of `cmd` from parameter `k` ends, read off its
/// parameters: the last two it reads (one for `H` and `V`, which keep the
/// other coordinate), offset from the current point `cur` for a relative
/// command.
pub open spec fn segment_end<S, A: Fn(S, S) -> S>(
    cur: (S, S),
    cmd: PathCommand<S>,
    k: int,
    zero: S,
    offset: A,
) -> (S, S) {
    let a = spec_arity(cmd.kind) as int;
    let last = param(cmd.params@, k + a - 1, zero);
    let before = param(cmd.params@, k + a - 2, zero);
    let at = |v: S, c: S|
        if cmd.relative {
            result2(offset, v, c)
        } else {
            v
        };
    if cmd.kind == CommandKind::HorizontalLine {
        (at(last, cur.0), cur.1)
    } else if cmd.kind == CommandKind::VerticalLine {
        (cur.0, at(last, cur.1))
    } else {
        (at(before, cur.0), at(last, cur.1))
    }
}

/// What one repetition of a drawing command does to the pen, whatever the
/// command: it draws a primitive of the command's variant, the pen moves to
/// that primitive's end, and the control point becomes the last control point
/// of the primitive if it is a curve and stays otherwise.  A smooth curve's
/// first control point is the reflection, through the current point, of the
/// control point the pen held before it.  The end point is read off the last
/// parameters of the repetition (see [`segment_end`]).
pub proof fn lemma_segment_pen<S, A: Fn(S, S) -> S, R: Fn(S, S) -> S>(
    pen: Pen<S>,
    cmd: PathCommand<S>,
    k: int,
    zero: S,
    offset: A,
    reflect: R,
)
    requires
        cmd.kind != CommandKind::Close,
    ensures
        ({
            let (pen2, prim) = read_segment_spec(pen, cmd, k, zero, offset, reflect);
            &&& draws(cmd.kind, prim)
            &&& pen2.0 == end_point(prim, zero)
            &&& pen2.1 == last_control(prim, pen.1)
            &&& (cmd.kind == CommandKind::SmoothQuadraticCurve || cmd.kind
                == CommandKind::SmoothCubicCurve) ==> first_control(prim, zero) == (
                result2(reflect, pen.0.0, pen.1.0),
                result2(reflect, pen.0.1, pen.1.1),
            )
            &&& end_point(prim, zero) == segment_end(pen.0, cmd, k, zero, offset)
        }),
{
}

/// The number of primitives a command with `n` parameters draws: one per
/// started repetition, none for `Close`.
pub open spec fn segment_count(kind: CommandKind, n: nat) -> nat {
    if kind == CommandKind::Close {
        0
    } else {
        ((n + spec_arity(kind) - 1) as nat / spec_arity(kind)) as nat
    }
}

/// The number of primitives a sequence of commands draws.
pub open spec fn total_segments<S>(cmds: Seq<PathCommand<S>>) -> nat
    decreases cmds.len(),
{
    if cmds.len() == 0 {
        0
    } else {
        total_segments(cmds.drop_last()) + segment_count(cmds.last().kind, cmds.last().params@.len())
    }
}

/// Reading a command from parameter `k` keeps what was written, appends one
/// primitive of the command's variant per started repetition, and leaves the
/// pen at the end of the last primitive.
pub proof fn lemma_read_command<S, A: Fn(S, S) -> S, R: Fn(S, S) -> S>(
    pen: Pen<S>,
    out: Seq<Primitive<S>>,
    cmd: PathCommand<S>,
    k: int,
    zero: S,
    offset: A,
    reflect: R,
)
    requires
        0 <= k <= cmd.params@.len(),
        pen.0 == path_end(out, zero),
        pen.1 == curve_control(out, (zero, zero)),
    ensures
        ({
            let (pen2, out2) = read_command_spec(pen, out, cmd, k, zero, offset, reflect);
            &&& out2.len() == out.len() + segment_count(cmd.kind, (cmd.params@.len() - k) as nat)
            &&& out2.subrange(0, out.len() as int) == out
            &&& forall|j: int| out.len() <= j < out2.len() ==> draws(cmd.kind, #[trigger] out2[j])
            &&& pen2.0 == path_end(out2, zero)
            &&& pen2.1 == curve_control(out2, (zero, zero))
        }),
    decreases cmd.params@.len() - k,
{
    let len = cmd.params@.len() as int;
    let a = spec_arity(cmd.kind) as int;
    if cmd.kind == CommandKind::Close {
    } else if k >= len {
        assert((a - 1) / a == 0) by {
            vstd::arithmetic::div_mod::lemma_basic_div(a - 1, a);
        }
        assert(out.subrange(0, out.len() as int) =~= out);
    } else {
        let (pen2, prim) = read_segment_spec(pen, cmd, k, zero, offset, reflect);
        let next = if k + a <= len {
            k + a
        } else {
            len
        };
        let out1 = out.push(prim);
        lemma_segment_pen(pen, cmd, k, zero, offset, reflect);
        assert(out1.drop_last() =~= out);
        assert(pen2.0 == path_end(out1, zero));
        assert(pen2.1 == curve_control(out1, (zero, zero)));
        lemma_read_command(pen2, out1, cmd, next, zero, offset, reflect);
        let (pen3, out2) = read_command_spec(pen2, out1, cmd, next, zero, offset, reflect);
        let rem = len - k;
        assert(1 + (rem - 1) / a == (a + rem - 1) / a) by {
            vstd::arithmetic::div_mod::lemma_div_plus_one(rem - 1, a);
        }
        if rem <= a {
            assert((rem - 1) / a == 0) by {
                vstd::arithmetic::div_mod::lemma_basic_div(rem - 1, a);
            }
            assert((a - 1) / a == 0) by {
                vstd::arithmetic::div_mod::lemma_basic_div(a - 1, a);
            }
        }
        assert(out2.subrange(0, out1.len() as int) == out1);
        assert(out2.subrange(0, out.len() as int) =~= out1.subrange(0, out.len() as int));
        assert(out2[out.len() as int] == out1[out.len() as int]);
        assert(draws(cmd.kind, prim));
    }
}

/// Reading a sequence of commands draws `total_segments` primitives, each of
/// the variant its command draws (so never `Close`), leaves the pen at the
/// end of the last one, and leaves as control point the last control point of
/// the last curve drawn.
pub proof fn lemma_read_path<S, A: Fn(S, S) -> S, R: Fn(S, S) -> S>(
    cmds: Seq<PathCommand<S>>,
    zero: S,
    offset: A,
    reflect: R,
)
    ensures
        ({
            let (pen, out) = read_path_spec(cmds, zero, offset, reflect);
            &&& out.len() == total_segments(cmds)
            &&& forall|j: int| 0 <= j < out.len() ==> !(#[trigger] out[j] is Close)
            &&& pen.0 == path_end(out, zero)
            &&& pen.1 == curve_control(out, (zero, zero))
        }),
    decreases cmds.len(),
{
    if cmds.len() > 0 {
        lemma_read_path(cmds.drop_last(), zero, offset, reflect);
        let (pen, out) = read_path_spec(cmds.drop_last(), zero, offset, reflect);
        lemma_read_command(pen, out, cmds.last(), 0, zero, offset, reflect);
        let out2 = read_path_spec(cmds, zero, offset, reflect).1;
        assert forall|j: int| 0 <= j < out2.len() implies !(#[trigger] out2[j] is Close) by {
            if j < out.len() {
                assert(out2.subrange(0, out.len() as int)[j] == out2[j]);
            } else {
                assert(draws(cmds.last().kind, out2[j]));
            }
        }
    }
}

/// The parameter at `k + j`, or `zero` past the end.
fn param_or<S: Copy>(params: &Vec<S>, k: usize, j: usize, zero: S) -> (r: S)
    requires
        k <= params.len(),
    ensures
        r == param(params@, k + j, zero),
{
    if j < params.len() - k {
        params[k + j]
    } else {
        zero
    }
}

fn point_of<S: Copy, A: Fn(S, S) -> S>(
    cmd: &PathCommand<S>,
    k: usize,
    j: usize,
    cur: (S, S),
    zero: S,
    offset: &A,
) -> (r: (S, S))
    requires
        k <= cmd.params.len(),
        j < 7,
        deterministic2(*offset),
    ensures
        r == point_at(*cmd, k + j, cur, zero, *offset),
        point_answered(*cmd, k + j, cur, zero, *offset),
{
    let px = param_or(&cmd.params, k, j, zero);
    let py = param_or(&cmd.params, k, j + 1, zero);
    if cmd.relative {
        let ax = offset(px, cur.0);
        let ay = offset(py, cur.1);
        proof {
            lemma_result2(*offset, px, cur.0, ax);
            lemma_result2(*offset, py, cur.1, ay);
        }
        (ax, ay)
    } else {
        (px, py)
    }
}

fn read_segment<S: Copy, A: Fn(S, S) -> S, R: Fn(S, S) -> S>(
    pen: Pen<S>,
    cmd: &PathCommand<S>,
    k: usize,
    zero: S,
    offset: &A,
    reflect: &R,
) -> (r: (Pen<S>, Primitive<S>))
    requires
        k <= cmd.params.len(),
        deterministic2(*offset),
        deterministic2(*reflect),
    ensures
        r == read_segment_spec(pen, *cmd, k as int, zero, *offset, *reflect),
        segment_answered(pen, *cmd, k as int, zero, *offset, *reflect),
{
    let (cur, ctrl) = pen;
    match cmd.kind {
        CommandKind::Move => {
            let e = point_of(cmd, k, 0, cur, zero, offset);
            ((e, ctrl), Primitive::Move(e.0, e.1))
        },
        CommandKind::Line => {
            let e = point_of(cmd, k, 0, cur, zero, offset);
            ((e, ctrl), Primitive::Line(e.0, e.1))
        },
        CommandKind::HorizontalLine => {
            let v = param_or(&cmd.params, k, 0, zero);
            let x = if cmd.relative {
                let s = offset(v, cur.0);
                proof {
                    lemma_result2(*offset, v, cur.0, s);
                }
                s
            } else {
                v
            };
            (((x, cur.1), ctrl), Primitive::Line(x, cur.1))
        },
        CommandKind::VerticalLine => {
            let v = param_or(&cmd.params, k, 0, zero);
            let y = if cmd.relative {
                let s = offset(v, cur.1);
                proof {
                    lemma_result2(*offset, v, cur.1, s);
                }
                s
            } else {
                v
            };
            (((cur.0, y), ctrl), Primitive::Line(cur.0, y))
        },
        CommandKind::QuadraticCurve => {
            let c = point_of(cmd, k, 0, cur, zero, offset);
            let e = point_of(cmd, k, 2, cur, zero, offset);
            ((e, c), Primitive::Quadratic(c.0, c.1, e.0, e.1))
        },
        CommandKind::SmoothQuadraticCurve => {
            let mx = reflect(cur.0, ctrl.0);
            let my = reflect(cur.1, ctrl.1);
            proof {
                lemma_result2(*reflect, cur.0, ctrl.0, mx);
                lemma_result2(*reflect, cur.1, ctrl.1, my);
            }
            let e = point_of(cmd, k, 0, cur, zero, offset);
            ((e, (mx, my)), Primitive::Quadratic(mx, my, e.0, e.1))
        },
        CommandKind::CubicCurve => {
            let c1 = point_of(cmd, k, 0, cur, zero, offset);
            let c2 = point_of(cmd, k, 2, cur, zero, offset);
            let e = point_of(cmd, k, 4, cur, zero, offset);
            ((e, c2), Primitive::Cubic(c1.0, c1.1, c2.0, c2.1, e.0, e.1))
        },
        CommandKind::SmoothCubicCurve => {
            let mx = reflect(cur.0, ctrl.0);
            let my = reflect(cur.1, ctrl.1);
            proof {
                lemma_result2(*reflect, cur.0, ctrl.0, mx);
                lemma_result2(*reflect, cur.1, ctrl.1, my);
            }
            let c2 = point_of(cmd, k, 0, cur, zero, offset);
            let e = point_of(cmd, k, 2, cur, zero, offset);
            ((e, c2), Primitive::Cubic(mx, my, c2.0, c2.1, e.0, e.1))
        },
        CommandKind::EllipticalArc => {
            let rx = param_or(&cmd.params, k, 0, zero);
            let ry = param_or(&cmd.params, k, 1, zero);
            let rot = param_or(&cmd.params, k, 2, zero);
            let large = param_or(&cmd.params, k, 3, zero);
            let sweep = param_or(&cmd.params, k, 4, zero);
            let e = point_of(cmd, k, 5, cur, zero, offset);
            ((e, ctrl), Primitive::Arc(rx, ry, rot, large, sweep, e.0, e.1))
        },
        CommandKind::Close => (pen, Primitive::Close),
    }
}

/// Turns path data into primitives.  Each command is repeated for as long as
/// parameters are left, one primitive per repetition, missing parameters read
/// as `zero`.  Relative points are offset by the current point with
/// `offset(value, current)`; smooth curves take as first control point the
/// reflection `reflect(current, control)` of the last control point.  The pen
/// starts at `(zero, zero)` and its state carries from command to command.
pub fn read_path<S: Copy, A: Fn(S, S) -> S, R: Fn(S, S) -> S>(
    cmds: &Vec<PathCommand<S>>,
    zero: S,
    offset: A,
    reflect: R,
) -> (out: Vec<Primitive<S>>)
    requires
        deterministic2(offset),
        deterministic2(reflect),
    ensures
        out@ == read_path_spec(cmds@, zero, offset, reflect).1,
        path_answered(cmds@, zero, offset, reflect),
        out.len() == total_segments(cmds@),
        forall|j: int| 0 <= j < out.len() ==> !(#[trigger] out@[j] is Close),
{
    let mut out: Vec<Primitive<S>> = Vec::new();
    let mut pen: Pen<S> = ((zero, zero), (zero, zero));
    let n = cmds.len();
    for i in 0..n
        invariant
            n == cmds.len(),
            deterministic2(offset),
            deterministic2(reflect),
            (pen, out@) == read_path_spec(cmds@.take(i as int), zero, offset, reflect),
            path_answered(cmds@.take(i as int), zero, offset, reflect),
    {
        let cmd = &cmds[i];
        proof {
            assert(cmds@.take(i + 1).drop_last() =~= cmds@.take(i as int));
            assert(cmds@.take(i + 1).last() == *cmd);
        }
        let ghost target = read_command_spec(pen, out@, *cmd, 0, zero, offset, reflect);
        let ghost pen0 = pen;
        let ghost out0 = out@;
        let len = cmd.params.len();
        let a = arity(cmd.kind);
        let mut k: usize = 0;
        if a > 0 {
            while k < len
                invariant
                    len == cmd.params.len(),
                    a == spec_arity(cmd.kind),
                    a > 0,
                    k <= len,
                    cmd.kind != CommandKind::Close,
                    deterministic2(offset),
                    deterministic2(reflect),
                    read_command_spec(pen, out@, *cmd, k as int, zero, offset, reflect) == target,
                    command_answered(pen, out@, *cmd, k as int, zero, offset, reflect)
                        ==> command_answered(pen0, out0, *cmd, 0, zero, offset, reflect),
                decreases len - k,
            {
                let (pen2, prim) = read_segment(pen, cmd, k, zero, &offset, &reflect);
                pen = pen2;
                out.push(prim);
                if a <= len - k {
                    k = k + a;
                } else {
                    k = len;
                }
            }
            proof {
                assert(command_answered(pen, out@, *cmd, k as int, zero, offset, reflect));
            }
        }
        proof {
            assert(command_answered(pen0, out0, *cmd, 0, zero, offset, reflect));
        }
    }
    proof {
        assert(cmds@.take(n as int) =~= cmds@);
        lemma_read_path(cmds@, zero, offset, reflect);
    }
    out
}

} // verus!
