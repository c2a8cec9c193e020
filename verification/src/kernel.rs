//! Caller-supplied numeric functions.
//!
//! The library hands every computation on coordinates to a function that the
//! caller passes in.  Each such function must accept every argument and give
//! one answer per argument: under that condition the answer it gives is the
//! one that [`result1`] .. [`result5`] name, and contracts speak of those.
//! Each operation also states, through [`answered1`] .. [`answered5`], that
//! the function's own `ensures` holds of the answer for every call it makes,
//! so a verified caller learns what those answers are.
use vstd::prelude::*;

verus! {

/// `f` accepts every argument and answers each one in one way only.
pub open spec fn deterministic1<A, R, F: Fn(A) -> R>(f: F) -> bool {
    &&& forall|a: A| #[trigger] f.requires((a,))
    &&& forall|a: A, r1: R, r2: R|
        #![trigger f.ensures((a,), r1), f.ensures((a,), r2)]
        f.ensures((a,), r1) && f.ensures((a,), r2) ==> r1 == r2
}

/// The answer of `f` on `a`.
pub open spec fn result1<A, R, F: Fn(A) -> R>(f: F, a: A) -> R {
    choose|r: R| f.ensures((a,), r)
}

/// `f` has been seen to give [`result1`] on these arguments: a caller
/// learns from it whatever `f`'s own `ensures` says of that answer.
pub open spec fn answered1<A, R, F: Fn(A) -> R>(f: F, a: A) -> bool {
    f.ensures((a,), result1(f, a))
}

pub proof fn lemma_result1<A, R, F: Fn(A) -> R>(f: F, a: A, r: R)
    requires
        deterministic1(f),
        f.ensures((a,), r),
    ensures
        result1(f, a) == r,
        answered1(f, a),
{
}

/// `f` accepts every pair of arguments and answers each one in one way only.
pub open spec fn deterministic2<A, B, R, F: Fn(A, B) -> R>(f: F) -> bool {
    &&& forall|a: A, b: B| #[trigger] f.requires((a, b))
    &&& forall|a: A, b: B, r1: R, r2: R|
        #![trigger f.ensures((a, b), r1), f.ensures((a, b), r2)]
        f.ensures((a, b), r1) && f.ensures((a, b), r2) ==> r1 == r2
}

/// The answer of `f` on `(a, b)`.
pub open spec fn result2<A, B, R, F: Fn(A, B) -> R>(f: F, a: A, b: B) -> R {
    choose|r: R| f.ensures((a, b), r)
}

/// `f` has been seen to give [`result2`] on these arguments: a caller
/// learns from it whatever `f`'s own `ensures` says of that answer.
pub open spec fn answered2<A, B, R, F: Fn(A, B) -> R>(f: F, a: A, b: B) -> bool {
    f.ensures((a, b), result2(f, a, b))
}

pub proof fn lemma_result2<A, B, R, F: Fn(A, B) -> R>(f: F, a: A, b: B, r: R)
    requires
        deterministic2(f),
        f.ensures((a, b), r),
    ensures
        result2(f, a, b) == r,
        answered2(f, a, b),
{
}

/// `f` accepts every triple of arguments and answers each one in one way only.
pub open spec fn deterministic3<A, B, C, R, F: Fn(A, B, C) -> R>(f: F) -> bool {
    &&& forall|a: A, b: B, c: C| #[trigger] f.requires((a, b, c))
    &&& forall|a: A, b: B, c: C, r1: R, r2: R|
        #![trigger f.ensures((a, b, c), r1), f.ensures((a, b, c), r2)]
        f.ensures((a, b, c), r1) && f.ensures((a, b, c), r2) ==> r1 == r2
}

/// The answer of `f` on `(a, b, c)`.
pub open spec fn result3<A, B, C, R, F: Fn(A, B, C) -> R>(f: F, a: A, b: B, c: C) -> R {
    choose|r: R| f.ensures((a, b, c), r)
}

/// `f` has been seen to give [`result3`] on these arguments: a caller
/// learns from it whatever `f`'s own `ensures` says of that answer.
pub open spec fn answered3<A, B, C, R, F: Fn(A, B, C) -> R>(f: F, a: A, b: B, c: C) -> bool {
    f.ensures((a, b, c), result3(f, a, b, c))
}

pub proof fn lemma_result3<A, B, C, R, F: Fn(A, B, C) -> R>(f: F, a: A, b: B, c: C, r: R)
    requires
        deterministic3(f),
        f.ensures((a, b, c), r),
    ensures
        result3(f, a, b, c) == r,
        answered3(f, a, b, c),
{
}

/// `f` accepts every quadruple of arguments and answers each one in one way only.
pub open spec fn deterministic4<A, B, C, D, R, F: Fn(A, B, C, D) -> R>(f: F) -> bool {
    &&& forall|a: A, b: B, c: C, d: D| #[trigger] f.requires((a, b, c, d))
    &&& forall|a: A, b: B, c: C, d: D, r1: R, r2: R|
        #![trigger f.ensures((a, b, c, d), r1), f.ensures((a, b, c, d), r2)]
        f.ensures((a, b, c, d), r1) && f.ensures((a, b, c, d), r2) ==> r1 == r2
}

/// The answer of `f` on `(a, b, c, d)`.
pub open spec fn result4<A, B, C, D, R, F: Fn(A, B, C, D) -> R>(
    f: F,
    a: A,
    b: B,
    c: C,
    d: D,
) -> R {
    choose|r: R| f.ensures((a, b, c, d), r)
}

/// `f` has been seen to give [`result4`] on these arguments: a caller
/// learns from it whatever `f`'s own `ensures` says of that answer.
pub open spec fn answered4<A, B, C, D, R, F: Fn(A, B, C, D) -> R>(f: F, a: A, b: B, c: C, d: D) -> bool {
    f.ensures((a, b, c, d), result4(f, a, b, c, d))
}

pub proof fn lemma_result4<A, B, C, D, R, F: Fn(A, B, C, D) -> R>(
    f: F,
    a: A,
    b: B,
    c: C,
    d: D,
    r: R,
)
    requires
        deterministic4(f),
        f.ensures((a, b, c, d), r),
    ensures
        result4(f, a, b, c, d) == r,
        answered4(f, a, b, c, d),
{
}

/// `f` accepts every quintuple of arguments and answers each one in one way only.
pub open spec fn deterministic5<A, B, C, D, E, R, F: Fn(A, B, C, D, E) -> R>(f: F) -> bool {
    &&& forall|a: A, b: B, c: C, d: D, e: E| #[trigger] f.requires((a, b, c, d, e))
    &&& forall|a: A, b: B, c: C, d: D, e: E, r1: R, r2: R|
        #![trigger f.ensures((a, b, c, d, e), r1), f.ensures((a, b, c, d, e), r2)]
        f.ensures((a, b, c, d, e), r1) && f.ensures((a, b, c, d, e), r2) ==> r1 == r2
}

/// The answer of `f` on `(a, b, c, d, e)`.
pub open spec fn result5<A, B, C, D, E, R, F: Fn(A, B, C, D, E) -> R>(
    f: F,
    a: A,
    b: B,
    c: C,
    d: D,
    e: E,
) -> R {
    choose|r: R| f.ensures((a, b, c, d, e), r)
}

/// `f` has been seen to give [`result5`] on these arguments: a caller
/// learns from it whatever `f`'s own `ensures` says of that answer.
pub open spec fn answered5<A, B, C, D, E, R, F: Fn(A, B, C, D, E) -> R>(f: F, a: A, b: B, c: C, d: D, e: E) -> bool {
    f.ensures((a, b, c, d, e), result5(f, a, b, c, d, e))
}

pub proof fn lemma_result5<A, B, C, D, E, R, F: Fn(A, B, C, D, E) -> R>(
    f: F,
    a: A,
    b: B,
    c: C,
    d: D,
    e: E,
    r: R,
)
    requires
        deterministic5(f),
        f.ensures((a, b, c, d, e), r),
    ensures
        result5(f, a, b, c, d, e) == r,
        answered5(f, a, b, c, d, e),
{
}

} // verus!
