//! The population policy applied after each physics step: bodies that escaped
//! or came too close to a heavier body are removed, and while the population is
//! below its target one new body is added per step.
use vstd::prelude::*;

verus! {

/// The population the policy refills towards.
pub const NUM_STARS: usize = 6;

/// The items of `s` among its first `n` whose flag in `keep` is set, in order.
pub open spec fn kept_upto<T>(s: Seq<T>, keep: Seq<bool>, n: int) -> Seq<T>
    decreases n,
{
    if n <= 0 {
        Seq::empty()
    } else if keep[n - 1] {
        kept_upto(s, keep, n - 1).push(s[n - 1])
    } else {
        kept_upto(s, keep, n - 1)
    }
}

/// The items of `s` whose flag in `keep` is set, in order.
pub open spec fn kept<T>(s: Seq<T>, keep: Seq<bool>) -> Seq<T> {
    kept_upto(s, keep, s.len() as int)
}

/// How many bodies a step leaves, when it began with `bodies` whose survival
/// flags are `keep`.
pub open spec fn population_after<T>(bodies: Seq<T>, keep: Seq<bool>) -> int {
    let survivors = kept(bodies, keep).len() as int;
    if survivors < NUM_STARS {
        survivors + 1
    } else {
        survivors
    }
}

proof fn lemma_kept_upto_len<T>(s: Seq<T>, keep: Seq<bool>, n: int)
    requires
        0 <= n <= s.len(),
        n <= keep.len(),
    ensures
        kept_upto(s, keep, n).len() <= n,
        kept_upto(s, keep, n).len() == kept_upto(keep, keep, n).len(),
    decreases n,
{
    if n > 0 {
        lemma_kept_upto_len(s, keep, n - 1);
        lemma_kept_upto_len(keep, keep, n - 1);
    }
}

/// Decides which of `n` bodies survive: body `i` is removed when
/// `escaped(i)` holds, or when `absorbs(j, i)` holds for some body `j` (a
/// strictly heavier body close enough to swallow it).
pub fn survivors<E, A>(n: usize, escaped: &E, absorbs: &A) -> (keep: Vec<bool>) where
    E: Fn(usize) -> bool,
    A: Fn(usize, usize) -> bool,

    requires
        forall|i: usize| #[trigger] escaped.requires((i,)),
        forall|j: usize, i: usize| #[trigger] absorbs.requires((j, i)),
    ensures
        keep@.len() == n,
        forall|i: int|
            0 <= i < n ==> #[trigger] keep@[i] ==> escaped.ensures((i as usize,), false) && forall|
                j: int,
            |
                0 <= j < n ==> #[trigger] absorbs.ensures((j as usize, i as usize), false),
        forall|i: int|
            0 <= i < n ==> !#[trigger] keep@[i] ==> escaped.ensures((i as usize,), true) || exists|
                j: int,
            |
                0 <= j < n && #[trigger] absorbs.ensures((j as usize, i as usize), true),
{
    let mut keep: Vec<bool> = Vec::new();
    let mut i: usize = 0;
    while i < n
        invariant
            i <= n,
            keep@.len() == i,
            forall|i: usize| #[trigger] escaped.requires((i,)),
            forall|j: usize, i: usize| #[trigger] absorbs.requires((j, i)),
            forall|k: int|
                0 <= k < i ==> #[trigger] keep@[k] ==> escaped.ensures((k as usize,), false)
                    && forall|j: int|
                    0 <= j < n ==> #[trigger] absorbs.ensures((j as usize, k as usize), false),
            forall|k: int|
                0 <= k < i ==> !#[trigger] keep@[k] ==> escaped.ensures((k as usize,), true)
                    || exists|j: int|
                    0 <= j < n && #[trigger] absorbs.ensures((j as usize, k as usize), true),
        decreases n - i,
    {
        let mut alive = !escaped(i);
        let mut j: usize = 0;
        while alive && j < n
            invariant
                i < n,
                j <= n,
                forall|j: usize, i: usize| #[trigger] absorbs.requires((j, i)),
                alive ==> escaped.ensures((i,), false),
                alive ==> forall|k: int|
                    0 <= k < j ==> #[trigger] absorbs.ensures((k as usize, i), false),
                !alive ==> escaped.ensures((i,), true) || exists|k: int|
                    0 <= k < n && #[trigger] absorbs.ensures((k as usize, i), true),
            decreases n - j,
        {
            let hit = absorbs(j, i);
            if hit {
                alive = false;
                assert(absorbs.ensures((j as int as usize, i), true));
            }
            j = j + 1;
        }
        keep.push(alive);
        proof {
            assert(keep@[i as int] == alive);
        }
        i = i + 1;
    }
    keep
}

/// Removes the bodies whose flag is clear, keeping the others in order; then,
/// if fewer than `NUM_STARS` remain, appends one body made by `spawn` from the
/// survivors.
pub fn settle<B, G>(bodies: &mut Vec<B>, keep: &Vec<bool>, spawn: G) where
    G: FnOnce(&Vec<B>) -> B,

    requires
        old(bodies)@.len() == keep@.len(),
        forall|v: &Vec<B>| #[trigger] spawn.requires((v,)),
    ensures
        final(bodies)@.len() == population_after(old(bodies)@, keep@),
        kept(old(bodies)@, keep@).len() < NUM_STARS ==> {
            &&& final(bodies)@.len() == kept(old(bodies)@, keep@).len() + 1
            &&& final(bodies)@.drop_last() == kept(old(bodies)@, keep@)
            &&& exists|v: &Vec<B>|
                v@ == kept(old(bodies)@, keep@) && #[trigger] spawn.ensures(
                    (v,),
                    final(bodies)@.last(),
                )
        },
        kept(old(bodies)@, keep@).len() >= NUM_STARS ==> final(bodies)@ == kept(
            old(bodies)@,
            keep@,
        ),
{
    let ghost start = bodies@;
    let n = keep.len();
    let mut i: usize = 0;
    let mut w: usize = 0;
    while i < n
        invariant
            n == keep@.len(),
            n == start.len(),
            i <= n,
            w <= i,
            bodies@.len() == w + (n - i),
            bodies@.take(w as int) == kept_upto(start, keep@, i as int),
            bodies@.skip(w as int) == start.skip(i as int),
        decreases n - i,
    {
        proof {
            assert(bodies@[w as int] == start[i as int]) by {
                assert(bodies@.skip(w as int)[0] == start.skip(i as int)[0]);
            }
        }
        if keep[i] {
            proof {
                assert(bodies@.take(w + 1) == bodies@.take(w as int).push(start[i as int]));
                assert(bodies@.skip(w + 1) == start.skip(i + 1)) by {
                    assert(bodies@.skip(w + 1) =~= bodies@.skip(w as int).skip(1));
                    assert(start.skip(i + 1) =~= start.skip(i as int).skip(1));
                }
            }
            w = w + 1;
        } else {
            let ghost before = bodies@;
            bodies.remove(w);
            proof {
                assert(bodies@.take(w as int) =~= before.take(w as int));
                assert(bodies@.skip(w as int) =~= before.skip(w as int).skip(1));
                assert(start.skip(i + 1) =~= start.skip(i as int).skip(1));
            }
        }
        i = i + 1;
    }
    proof {
        assert(bodies@ =~= bodies@.take(w as int));
    }
    if bodies.len() < NUM_STARS {
        let ghost survivors = bodies@;
        let ghost snapshot: Vec<B> = *bodies;
        let fresh = spawn(&*bodies);
        proof {
            assert(spawn.ensures((&snapshot,), fresh));
        }
        bodies.push(fresh);
        proof {
            assert(bodies@.drop_last() =~= survivors);
            assert(bodies@.last() == fresh);
            assert(snapshot@ == kept(start, keep@));
            let v = &snapshot;
            assert(v@ == kept(start, keep@) && spawn.ensures((v,), bodies@.last()));
        }
    }
}

proof fn lemma_kept_all<T>(s: Seq<T>, keep: Seq<bool>, n: int)
    requires
        0 <= n <= s.len(),
        n <= keep.len(),
        forall|i: int| 0 <= i < n ==> #[trigger] keep[i],
    ensures
        kept_upto(s, keep, n) == s.take(n),
    decreases n,
{
    if n > 0 {
        lemma_kept_all(s, keep, n - 1);
        assert(s.take(n) =~= s.take(n - 1).push(s[n - 1]));
    }
}

/// The population recovers gradually and stays bounded: a step never leaves
/// the population empty, never raises it by more than one, never takes it above
/// `NUM_STARS` when it began at or below that, and, when it began below
/// `NUM_STARS` and removed nothing, raises it by exactly one.
pub proof fn lemma_population_step<T>(bodies: Seq<T>, keep: Seq<bool>)
    requires
        bodies.len() == keep.len(),
    ensures
        1 <= population_after(bodies, keep) <= bodies.len() + 1,
        bodies.len() <= NUM_STARS ==> population_after(bodies, keep) <= NUM_STARS,
        (forall|i: int| 0 <= i < keep.len() ==> #[trigger] keep[i]) && bodies.len() < NUM_STARS
            ==> population_after(bodies, keep) == bodies.len() + 1,
{
    lemma_kept_upto_len(bodies, keep, bodies.len() as int);
    if forall|i: int| 0 <= i < keep.len() ==> #[trigger] keep[i] {
        lemma_kept_all(bodies, keep, bodies.len() as int);
        assert(bodies.take(bodies.len() as int) =~= bodies);
    }
}

} // verus!
