//! Callbacks that wait for the next commit of a surface.

use vstd::prelude::*;

use crate::desktop_layout::window::SurfaceId;

verus! {

/// The callbacks of `s` registered for `surface`, in order.
pub open spec fn for_surface<C>(s: Seq<(SurfaceId, C)>, surface: SurfaceId) -> Seq<C>
    decreases s.len(),
{
    if s.len() == 0 {
        Seq::empty()
    } else if s.last().0 == surface {
        for_surface(s.drop_last(), surface).push(s.last().1)
    } else {
        for_surface(s.drop_last(), surface)
    }
}

/// The entries of `s` registered for another surface than `surface`, in order.
pub open spec fn not_for_surface<C>(s: Seq<(SurfaceId, C)>, surface: SurfaceId) -> Seq<
    (SurfaceId, C),
>
    decreases s.len(),
{
    if s.len() == 0 {
        Seq::empty()
    } else if s.last().0 == surface {
        not_for_surface(s.drop_last(), surface)
    } else {
        not_for_surface(s.drop_last(), surface).push(s.last())
    }
}

/// Both selections split over a concatenation.
pub proof fn lemma_select_append<C>(a: Seq<(SurfaceId, C)>, b: Seq<(SurfaceId, C)>, surface: SurfaceId)
    ensures
        for_surface(a + b, surface) == for_surface(a, surface) + for_surface(b, surface),
        not_for_surface(a + b, surface) == not_for_surface(a, surface) + not_for_surface(
            b,
            surface,
        ),
    decreases b.len(),
{
    if b.len() == 0 {
        assert(a + b =~= a);
        assert(for_surface(a, surface) + for_surface(b, surface) =~= for_surface(a, surface));
        assert(not_for_surface(a, surface) + not_for_surface(b, surface) =~= not_for_surface(
            a,
            surface,
        ));
    } else {
        lemma_select_append(a, b.drop_last(), surface);
        assert((a + b).drop_last() =~= a + b.drop_last());
        assert((a + b).last() == b.last());
        if b.last().0 == surface {
            assert(for_surface(a, surface) + for_surface(b, surface) =~= (for_surface(a, surface)
                + for_surface(b.drop_last(), surface)).push(b.last().1));
        } else {
            assert(not_for_surface(a, surface) + not_for_surface(b, surface) =~= (
            not_for_surface(a, surface) + not_for_surface(b.drop_last(), surface)).push(b.last()));
        }
    }
}

/// Entries with no one for `surface` select nothing for it and keep everything else.
pub proof fn lemma_select_none<C>(s: Seq<(SurfaceId, C)>, surface: SurfaceId)
    requires
        forall|i: int| 0 <= i < s.len() ==> (#[trigger] s[i]).0 != surface,
    ensures
        for_surface(s, surface) == Seq::<C>::empty(),
        not_for_surface(s, surface) == s,
    decreases s.len(),
{
    if s.len() > 0 {
        lemma_select_none(s.drop_last(), surface);
        assert(s.drop_last().push(s.last()) =~= s);
    }
}

/// The callbacks waiting for the next commit of their surface, in the order they were
/// registered.
pub struct OnCommitDispatcher<C> {
    pub cbs: Vec<(SurfaceId, C)>,
}

impl<C> OnCommitDispatcher<C> {
    pub fn new() -> (d: OnCommitDispatcher<C>)
        ensures
            d.cbs@ == Seq::<(SurfaceId, C)>::empty(),
    {
        OnCommitDispatcher { cbs: Vec::new() }
    }

    /// Run `cb` on the next commit of `surface`.
    pub fn on_next_commit(&mut self, surface: SurfaceId, cb: C)
        ensures
            final(self).cbs@ == old(self).cbs@.push((surface, cb)),
    {
        self.cbs.push((surface, cb));
    }

    /// The index of the first callback registered for `surface`.
    fn position(&self, surface: SurfaceId) -> (r: Option<usize>)
        ensures
            match r {
                Some(k) => k < self.cbs@.len() && self.cbs@[k as int].0 == surface && forall|j: int|
                    0 <= j < k ==> (#[trigger] self.cbs@[j]).0 != surface,
                None => forall|j: int| 0 <= j < self.cbs@.len() ==> (#[trigger] self.cbs@[j]).0 != surface,
            },
    {
        let n = self.cbs.len();
        for i in 0..n
            invariant
                n == self.cbs.len(),
                forall|j: int| 0 <= j < i ==> (#[trigger] self.cbs@[j]).0 != surface,
        {
            if self.cbs[i].0 == surface {
                return Some(i);
            }
        }
        None
    }

    /// `surface` committed: the callbacks registered for it leave the dispatcher and are
    /// returned in the order they were registered, to be run; the others stay, in order.
    pub fn handle_commit(&mut self, surface: SurfaceId) -> (queue: Vec<C>)
        ensures
            queue@ == for_surface(old(self).cbs@, surface),
            final(self).cbs@ == not_for_surface(old(self).cbs@, surface),
    {
        let mut queue: Vec<C> = Vec::new();
        loop
            invariant
                queue@ + for_surface(self.cbs@, surface) == for_surface(old(self).cbs@, surface),
                not_for_surface(self.cbs@, surface) == not_for_surface(old(self).cbs@, surface),
            ensures
                queue@ == for_surface(old(self).cbs@, surface),
                self.cbs@ == not_for_surface(old(self).cbs@, surface),
            decreases self.cbs@.len(),
        {
            match self.position(surface) {
                Some(k) => {
                    let ghost s = self.cbs@;
                    proof {
                        let before = s.take(k as int);
                        let after = s.skip(k + 1);
                        lemma_select_none(before, surface);
                        assert(s =~= before + seq![s[k as int]] + after);
                        assert(s.remove(k as int) =~= before + after);
                        lemma_select_append(before + seq![s[k as int]], after, surface);
                        lemma_select_append(before, seq![s[k as int]], surface);
                        lemma_select_append(before, after, surface);
                        let single = seq![s[k as int]];
                        assert(single.drop_last() =~= Seq::<(SurfaceId, C)>::empty());
                        assert(single.last() == s[k as int]);
                        let none = Seq::<(SurfaceId, C)>::empty();
                        assert(for_surface(none, surface) =~= Seq::<C>::empty());
                        assert(not_for_surface(none, surface) =~= none);
                        assert(for_surface(single, surface) == for_surface(none, surface).push(
                            s[k as int].1,
                        ));
                        assert(not_for_surface(single, surface) == not_for_surface(none, surface));
                        assert(for_surface(single, surface) =~= seq![s[k as int].1]);
                        assert(not_for_surface(single, surface) =~= Seq::<(SurfaceId, C)>::empty());
                        assert(for_surface(s, surface) =~= seq![s[k as int].1] + for_surface(
                            s.remove(k as int),
                            surface,
                        ));
                        assert(not_for_surface(s, surface) =~= not_for_surface(
                            s.remove(k as int),
                            surface,
                        ));
                    }
                    let (_, cb) = self.cbs.remove(k);
                    queue.push(cb);
                    assert(queue@ + for_surface(self.cbs@, surface) =~= for_surface(
                        old(self).cbs@,
                        surface,
                    ));
                },
                None => {
                    proof {
                        lemma_select_none(self.cbs@, surface);
                    }
                    assert(queue@ + Seq::<C>::empty() =~= queue@);
                    break ;
                },
            }
        }
        queue
    }
}

/// `states` are the states a run of the callbacks `cbs` goes through, each with `surface`:
/// callback `i` takes state `i` and leaves state `i + 1`.
pub open spec fn run_through<S, C: FnOnce(S, SurfaceId) -> S>(
    cbs: Seq<C>,
    surface: SurfaceId,
    states: Seq<S>,
) -> bool {
    &&& states.len() == cbs.len() + 1
    &&& forall|i: int|
        0 <= i < cbs.len() ==> #[trigger] call_ensures(cbs[i], (states[i], surface), states[i + 1])
}

/// `state` is what running the callbacks `cbs` in order on `start`, each with `surface`, can
/// give: each callback takes the state the one before it left.
pub open spec fn ran<S, C: FnOnce(S, SurfaceId) -> S>(
    cbs: Seq<C>,
    surface: SurfaceId,
    start: S,
    state: S,
) -> bool {
    exists|states: Seq<S>|
        #![trigger run_through(cbs, surface, states)]
        run_through(cbs, surface, states) && states[0] == start && states.last() == state
}

impl<C> OnCommitDispatcher<C> {
    /// `surface` committed: the callbacks registered for it leave the dispatcher and run, each
    /// exactly once, in the order they were registered, on the state the one before left; the
    /// callbacks of other surfaces stay, in order.
    pub fn run_commit<S>(&mut self, surface: SurfaceId, state: S) -> (r: S) where
        C: FnOnce(S, SurfaceId) -> S,

        requires
            forall|i: int, s: S|
                0 <= i < old(self).cbs@.len() && old(self).cbs@[i].0 == surface ==> #[trigger] call_requires(
                    old(self).cbs@[i].1,
                    (s, surface),
                ),
        ensures
            ran(for_surface(old(self).cbs@, surface), surface, state, r),
            final(self).cbs@ == not_for_surface(old(self).cbs@, surface),
    {
        let ghost cbs0 = self.cbs@;
        proof {
            lemma_for_surface_from(cbs0, surface);
        }
        let mut queue = self.handle_commit(surface);
        let ghost q = queue@;
        let ghost start = state;
        let ghost mut states: Seq<S> = seq![state];
        let mut state = state;
        let n = queue.len();
        let mut i: usize = 0;
        while i < n
            invariant
                n == q.len(),
                i <= n,
                queue@ == q.skip(i as int),
                q == for_surface(cbs0, surface),
                forall|j: int, s: S| 0 <= j < q.len() ==> #[trigger] call_requires(q[j], (s, surface)),
                run_through(q.take(i as int), surface, states),
                states[0] == start,
                states.last() == state,
            decreases n - i,
        {
            let cb = queue.remove(0);
            assert(cb == q[i as int]);
            let ghost before = state;
            state = cb(state, surface);
            proof {
                let old_states = states;
                states = states.push(state);
                let t = q.take(i + 1);
                assert forall|j: int| 0 <= j < t.len() implies #[trigger] call_ensures(
                    t[j],
                    (states[j], surface),
                    states[j + 1],
                ) by {
                    if j < i {
                        assert(t[j] == q.take(i as int)[j]);
                        assert(states[j] == old_states[j] && states[j + 1] == old_states[j + 1]);
                    } else {
                        assert(t[j] == q[i as int]);
                        assert(states[j] == before);
                    }
                }
            }
            assert(queue@ =~= q.skip(i + 1));
            i = i + 1;
        }
        assert(q.take(n as int) =~= q);
        assert(run_through(q, surface, states));
        state
    }
}

/// Every callback that `for_surface` selects was registered for that surface.
pub proof fn lemma_for_surface_from<C>(s: Seq<(SurfaceId, C)>, surface: SurfaceId)
    ensures
        forall|j: int|
            0 <= j < for_surface(s, surface).len() ==> exists|i: int|
                0 <= i < s.len() && s[i].0 == surface && #[trigger] for_surface(s, surface)[j]
                    == s[i].1,
    decreases s.len(),
{
    if s.len() > 0 {
        lemma_for_surface_from(s.drop_last(), surface);
        let prev = for_surface(s.drop_last(), surface);
        let f = for_surface(s, surface);
        assert forall|j: int| 0 <= j < f.len() implies exists|i: int|
            0 <= i < s.len() && s[i].0 == surface && #[trigger] f[j] == s[i].1 by {
            if j < prev.len() {
                let i = choose|i: int|
                    0 <= i < s.drop_last().len() && s.drop_last()[i].0 == surface && prev[j]
                        == s.drop_last()[i].1;
                assert(s[i] == s.drop_last()[i]);
                assert(f[j] == prev[j]);
            } else {
                assert(f[j] == s[s.len() - 1].1);
            }
        }
    }
}

/// Registering a callback and committing its surface gives that callback back, after those
/// registered for the surface before it, and leaves the others waiting as they were.
pub proof fn law_registered_callback_runs_on_commit<C>(
    cbs: Seq<(SurfaceId, C)>,
    surface: SurfaceId,
    cb: C,
)
    ensures
        for_surface(cbs.push((surface, cb)), surface) == for_surface(cbs, surface).push(cb),
        not_for_surface(cbs.push((surface, cb)), surface) == not_for_surface(cbs, surface),
{
    assert(cbs.push((surface, cb)).drop_last() =~= cbs);
}

/// A commit of one surface leaves every callback of another surface waiting, and committing
/// the surface again right after runs nothing.
pub proof fn law_commit_takes_only_its_callbacks<C>(
    cbs: Seq<(SurfaceId, C)>,
    surface: SurfaceId,
    other: SurfaceId,
)
    requires
        surface != other,
    ensures
        for_surface(not_for_surface(cbs, surface), other) == for_surface(cbs, other),
        for_surface(not_for_surface(cbs, surface), surface) == Seq::<C>::empty(),
    decreases cbs.len(),
{
    if cbs.len() > 0 {
        law_commit_takes_only_its_callbacks(cbs.drop_last(), surface, other);
        let rest = not_for_surface(cbs.drop_last(), surface);
        if cbs.last().0 != surface {
            assert(not_for_surface(cbs, surface).drop_last() =~= rest);
        }
    }
}

} // verus!
