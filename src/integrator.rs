//! A fixed-step explicit fourth-order Runge-Kutta stepper, generic over the
//! state, derivative and step types. The algebra (addition, scaling by a step,
//! dividing a step) and the derivative are handed in as functions, so the same
//! stepper serves scalars, vectors and compound phase types.
use vstd::prelude::*;

verus! {

/// The intermediate values of one first-order step. Every field is a value that
/// the corresponding operation may return.
pub ghost struct Rk4Trace<T, D, S> {
    pub half: S,
    pub sixth: S,
    pub k1: D,
    pub d1: T,
    pub s1: T,
    pub k2: D,
    pub d2: T,
    pub s2: T,
    pub k3: D,
    pub d3: T,
    pub s3: T,
    pub k4: D,
    pub k12: D,
    pub k23: D,
    pub k1223: D,
    pub k34: D,
    pub total: D,
    pub delta: T,
    pub next: T,
}

/// `tr` records a first-order step from `s0` by `step`:
/// `k1 = f(s0)`, `k2 = f(s0 + k1 * step/2)`, `k3 = f(s0 + k2 * step/2)`,
/// `k4 = f(s0 + k3 * step)`, and
/// `next = s0 + ((k1 + k2) + (k2 + k3) + (k3 + k4)) * step/6`.
pub open spec fn rk4_trace<T, D, S, F, AddT, AddD, MulD, Div>(
    func: F,
    add_t: AddT,
    add_d: AddD,
    mul_d: MulD,
    divide: Div,
    s0: T,
    step: S,
    tr: Rk4Trace<T, D, S>,
) -> bool where
    F: Fn(&T) -> D,
    AddT: Fn(&T, &T) -> T,
    AddD: Fn(&D, &D) -> D,
    MulD: Fn(&D, &S) -> T,
    Div: Fn(&S, u32) -> S,
 {
    &&& divide.ensures((&step, 2u32), tr.half)
    &&& divide.ensures((&step, 6u32), tr.sixth)
    &&& func.ensures((&s0,), tr.k1)
    &&& mul_d.ensures((&tr.k1, &tr.half), tr.d1)
    &&& add_t.ensures((&s0, &tr.d1), tr.s1)
    &&& func.ensures((&tr.s1,), tr.k2)
    &&& mul_d.ensures((&tr.k2, &tr.half), tr.d2)
    &&& add_t.ensures((&s0, &tr.d2), tr.s2)
    &&& func.ensures((&tr.s2,), tr.k3)
    &&& mul_d.ensures((&tr.k3, &step), tr.d3)
    &&& add_t.ensures((&s0, &tr.d3), tr.s3)
    &&& func.ensures((&tr.s3,), tr.k4)
    &&& add_d.ensures((&tr.k1, &tr.k2), tr.k12)
    &&& add_d.ensures((&tr.k2, &tr.k3), tr.k23)
    &&& add_d.ensures((&tr.k12, &tr.k23), tr.k1223)
    &&& add_d.ensures((&tr.k3, &tr.k4), tr.k34)
    &&& add_d.ensures((&tr.k1223, &tr.k34), tr.total)
    &&& mul_d.ensures((&tr.total, &tr.sixth), tr.delta)
    &&& add_t.ensures((&s0, &tr.delta), tr.next)
}

/// Advances `state` by one step of size `step` with the classic four-stage
/// Runge-Kutta formula for `state' = func(state)`. `divide(step, n)` is the
/// step divided by `n`; `mul_d(k, h)` turns a derivative and a step into a
/// state increment.
pub fn rk4<T, D, S, F, AddT, AddD, MulD, Div>(
    func: &F,
    state: &T,
    step: &S,
    add_t: &AddT,
    add_d: &AddD,
    mul_d: &MulD,
    divide: &Div,
) -> (r: T) where
    F: Fn(&T) -> D,
    AddT: Fn(&T, &T) -> T,
    AddD: Fn(&D, &D) -> D,
    MulD: Fn(&D, &S) -> T,
    Div: Fn(&S, u32) -> S,

    requires
        forall|s: &T| #[trigger] func.requires((s,)),
        forall|a: &T, b: &T| #[trigger] add_t.requires((a, b)),
        forall|a: &D, b: &D| #[trigger] add_d.requires((a, b)),
        forall|k: &D, h: &S| #[trigger] mul_d.requires((k, h)),
        forall|h: &S, n: u32| #[trigger] divide.requires((h, n)),
    ensures
        exists|tr: Rk4Trace<T, D, S>|
            #[trigger] rk4_trace(*func, *add_t, *add_d, *mul_d, *divide, *state, *step, tr)
                && tr.next == r,
{
    let half = divide(step, 2);
    let sixth = divide(step, 6);
    let k1 = func(state);
    let d1 = mul_d(&k1, &half);
    let s1 = add_t(state, &d1);
    let k2 = func(&s1);
    let d2 = mul_d(&k2, &half);
    let s2 = add_t(state, &d2);
    let k3 = func(&s2);
    let d3 = mul_d(&k3, step);
    let s3 = add_t(state, &d3);
    let k4 = func(&s3);
    let k12 = add_d(&k1, &k2);
    let k23 = add_d(&k2, &k3);
    let k1223 = add_d(&k12, &k23);
    let k34 = add_d(&k3, &k4);
    let total = add_d(&k1223, &k34);
    let delta = mul_d(&total, &sixth);
    let next = add_t(state, &delta);
    proof {
        let tr = Rk4Trace {
            half, sixth, k1, d1, s1, k2, d2, s2, k3, d3, s3, k4, k12, k23, k1223, k34, total,
            delta, next,
        };
        assert(rk4_trace(*func, *add_t, *add_d, *mul_d, *divide, *state, *step, tr));
    }
    next
}

/// The intermediate values of one second-order step.
pub ghost struct Rk4SecondTrace<P, V, A, S> {
    pub half: S,
    pub sixth: S,
    pub a1: A,
    pub pd1: P,
    pub p1: P,
    pub vd1: V,
    pub v1: V,
    pub a2: A,
    pub pd2: P,
    pub p2: P,
    pub vd2: V,
    pub v2: V,
    pub a3: A,
    pub pd3: P,
    pub p3: P,
    pub vd3: V,
    pub v3: V,
    pub a4: A,
    pub v01: V,
    pub v12: V,
    pub v0112: V,
    pub v23: V,
    pub vsum: V,
    pub a12: A,
    pub a23: A,
    pub a1223: A,
    pub a34: A,
    pub asum: A,
    pub pd: P,
    pub vd: V,
    pub pos: P,
    pub vel: V,
}

/// `tr` records the four-stage formula applied to the pair `(p0, v0)` with
/// derivative `(v, accel(p))`. Stage `i` takes the position and velocity
/// estimates `(p_i, v_i)` of the stage before it (`(p0, v0)` for the first):
/// `a_{i+1} = accel(p_i)`, and the next estimate is
/// `(p0 + v_i * h, v0 + a_{i+1} * h)` with `h` half the step for the first two
/// stages and the whole step for the third. The result is
/// `p0 + ((v0 + v1) + (v1 + v2) + (v2 + v3)) * step/6` and
/// `v0 + ((a1 + a2) + (a2 + a3) + (a3 + a4)) * step/6`.
pub open spec fn rk4_second_trace<P, V, A, S, F, AddP, AddV, AddA, MulV, MulA, Div>(
    accel: F,
    add_p: AddP,
    add_v: AddV,
    add_a: AddA,
    mul_v: MulV,
    mul_a: MulA,
    divide: Div,
    p0: P,
    v0: V,
    step: S,
    tr: Rk4SecondTrace<P, V, A, S>,
) -> bool where
    F: Fn(&P) -> A,
    AddP: Fn(&P, &P) -> P,
    AddV: Fn(&V, &V) -> V,
    AddA: Fn(&A, &A) -> A,
    MulV: Fn(&V, &S) -> P,
    MulA: Fn(&A, &S) -> V,
    Div: Fn(&S, u32) -> S,
 {
    &&& divide.ensures((&step, 2u32), tr.half)
    &&& divide.ensures((&step, 6u32), tr.sixth)
    &&& accel.ensures((&p0,), tr.a1)
    &&& mul_v.ensures((&v0, &tr.half), tr.pd1)
    &&& add_p.ensures((&p0, &tr.pd1), tr.p1)
    &&& mul_a.ensures((&tr.a1, &tr.half), tr.vd1)
    &&& add_v.ensures((&v0, &tr.vd1), tr.v1)
    &&& accel.ensures((&tr.p1,), tr.a2)
    &&& mul_v.ensures((&tr.v1, &tr.half), tr.pd2)
    &&& add_p.ensures((&p0, &tr.pd2), tr.p2)
    &&& mul_a.ensures((&tr.a2, &tr.half), tr.vd2)
    &&& add_v.ensures((&v0, &tr.vd2), tr.v2)
    &&& accel.ensures((&tr.p2,), tr.a3)
    &&& mul_v.ensures((&tr.v2, &step), tr.pd3)
    &&& add_p.ensures((&p0, &tr.pd3), tr.p3)
    &&& mul_a.ensures((&tr.a3, &step), tr.vd3)
    &&& add_v.ensures((&v0, &tr.vd3), tr.v3)
    &&& accel.ensures((&tr.p3,), tr.a4)
    &&& add_v.ensures((&v0, &tr.v1), tr.v01)
    &&& add_v.ensures((&tr.v1, &tr.v2), tr.v12)
    &&& add_v.ensures((&tr.v01, &tr.v12), tr.v0112)
    &&& add_v.ensures((&tr.v2, &tr.v3), tr.v23)
    &&& add_v.ensures((&tr.v0112, &tr.v23), tr.vsum)
    &&& add_a.ensures((&tr.a1, &tr.a2), tr.a12)
    &&& add_a.ensures((&tr.a2, &tr.a3), tr.a23)
    &&& add_a.ensures((&tr.a12, &tr.a23), tr.a1223)
    &&& add_a.ensures((&tr.a3, &tr.a4), tr.a34)
    &&& add_a.ensures((&tr.a1223, &tr.a34), tr.asum)
    &&& mul_v.ensures((&tr.vsum, &tr.sixth), tr.pd)
    &&& mul_a.ensures((&tr.asum, &tr.sixth), tr.vd)
    &&& add_p.ensures((&p0, &tr.pd), tr.pos)
    &&& add_v.ensures((&v0, &tr.vd), tr.vel)
}

/// Advances a second-order system, position `pos` and velocity `vel` driven by
/// an acceleration that depends on the position alone, by one step of size
/// `step` with the four-stage Runge-Kutta formula.
pub fn rk4_2nd<P, V, A, S, F, AddP, AddV, AddA, MulV, MulA, Div>(
    accel: &F,
    pos: &P,
    vel: &V,
    step: &S,
    add_p: &AddP,
    add_v: &AddV,
    add_a: &AddA,
    mul_v: &MulV,
    mul_a: &MulA,
    divide: &Div,
) -> (r: (P, V)) where
    F: Fn(&P) -> A,
    AddP: Fn(&P, &P) -> P,
    AddV: Fn(&V, &V) -> V,
    AddA: Fn(&A, &A) -> A,
    MulV: Fn(&V, &S) -> P,
    MulA: Fn(&A, &S) -> V,
    Div: Fn(&S, u32) -> S,

    requires
        forall|p: &P| #[trigger] accel.requires((p,)),
        forall|a: &P, b: &P| #[trigger] add_p.requires((a, b)),
        forall|a: &V, b: &V| #[trigger] add_v.requires((a, b)),
        forall|a: &A, b: &A| #[trigger] add_a.requires((a, b)),
        forall|v: &V, h: &S| #[trigger] mul_v.requires((v, h)),
        forall|a: &A, h: &S| #[trigger] mul_a.requires((a, h)),
        forall|h: &S, n: u32| #[trigger] divide.requires((h, n)),
    ensures
        exists|tr: Rk4SecondTrace<P, V, A, S>|
            #[trigger] rk4_second_trace(
                *accel,
                *add_p,
                *add_v,
                *add_a,
                *mul_v,
                *mul_a,
                *divide,
                *pos,
                *vel,
                *step,
                tr,
            ) && tr.pos == r.0 && tr.vel == r.1,
{
    let half = divide(step, 2);
    let sixth = divide(step, 6);
    let a1 = accel(pos);
    let pd1 = mul_v(vel, &half);
    let p1 = add_p(pos, &pd1);
    let vd1 = mul_a(&a1, &half);
    let v1 = add_v(vel, &vd1);
    let a2 = accel(&p1);
    let pd2 = mul_v(&v1, &half);
    let p2 = add_p(pos, &pd2);
    let vd2 = mul_a(&a2, &half);
    let v2 = add_v(vel, &vd2);
    let a3 = accel(&p2);
    let pd3 = mul_v(&v2, step);
    let p3 = add_p(pos, &pd3);
    let vd3 = mul_a(&a3, step);
    let v3 = add_v(vel, &vd3);
    let a4 = accel(&p3);
    let v01 = add_v(vel, &v1);
    let v12 = add_v(&v1, &v2);
    let v0112 = add_v(&v01, &v12);
    let v23 = add_v(&v2, &v3);
    let vsum = add_v(&v0112, &v23);
    let a12 = add_a(&a1, &a2);
    let a23 = add_a(&a2, &a3);
    let a1223 = add_a(&a12, &a23);
    let a34 = add_a(&a3, &a4);
    let asum = add_a(&a1223, &a34);
    let pd = mul_v(&vsum, &sixth);
    let vd = mul_a(&asum, &sixth);
    let new_pos = add_p(pos, &pd);
    let new_vel = add_v(vel, &vd);
    proof {
        let tr = Rk4SecondTrace {
            half, sixth, a1, pd1, p1, vd1, v1, a2, pd2, p2, vd2, v2, a3, pd3, p3, vd3, v3, a4,
            v01, v12, v0112, v23, vsum, a12, a23, a1223, a34, asum, pd, vd,
            pos: new_pos,
            vel: new_vel,
        };
        assert(rk4_second_trace(
            *accel, *add_p, *add_v, *add_a, *mul_v, *mul_a, *divide, *pos, *vel, *step, tr,
        ));
    }
    (new_pos, new_vel)
}

} // verus!
