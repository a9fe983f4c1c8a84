//! Sequences that keep only their most recent entries.
use vstd::prelude::*;

verus! {

/// `s` with `x` appended, after which only the last `cap` entries are kept.
pub open spec fn push_bounded<A>(s: Seq<A>, x: A, cap: nat) -> Seq<A> {
    let t = s.push(x);
    if t.len() > cap {
        t.subrange(t.len() - cap, t.len() as int)
    } else {
        t
    }
}

/// The last `cap` entries of `s` (all of `s` when it is shorter).
pub open spec fn last_n<A>(s: Seq<A>, cap: nat) -> Seq<A> {
    if s.len() > cap {
        s.subrange(s.len() - cap, s.len() as int)
    } else {
        s
    }
}

/// `s` after `push_bounded` of each entry of `xs`, in order.
pub open spec fn push_all_bounded<A>(s: Seq<A>, xs: Seq<A>, cap: nat) -> Seq<A>
    decreases xs.len(),
{
    if xs.len() == 0 {
        s
    } else {
        push_bounded(push_all_bounded(s, xs.drop_last(), cap), xs.last(), cap)
    }
}

/// Pushing entries one at a time into a sequence bounded by `cap` leaves
/// exactly the last `cap` entries of everything pushed, in the order in which
/// they were pushed.
pub proof fn lemma_push_all_bounded<A>(s: Seq<A>, xs: Seq<A>, cap: nat)
    requires
        s.len() <= cap,
    ensures
        push_all_bounded(s, xs, cap) == last_n(s + xs, cap),
    decreases xs.len(),
{
    if xs.len() == 0 {
        assert(s + xs =~= s);
    } else {
        let ys = xs.drop_last();
        lemma_push_all_bounded(s, ys, cap);
        let p = last_n(s + ys, cap);
        assert((s + ys).push(xs.last()) =~= s + xs);
        let t = p.push(xs.last());
        if (s + ys).len() > cap {
            assert(t.subrange(t.len() - cap, t.len() as int) =~= (s + xs).subrange(
                (s + xs).len() - cap,
                (s + xs).len() as int,
            ));
        } else if t.len() > cap {
            assert(t =~= s + xs);
        } else {
            assert(t =~= s + xs);
        }
    }
}

/// Keeping the last `cap` entries after every push is the same as keeping
/// the last `cap` entries of everything pushed.
pub proof fn lemma_push_bounded_last_n<A>(s: Seq<A>, x: A, cap: nat)
    requires
        0 < cap,
    ensures
        push_bounded(last_n(s, cap), x, cap) == last_n(s.push(x), cap),
{
    let t = s.push(x);
    if s.len() > cap {
        let p = s.subrange(s.len() - cap, s.len() as int).push(x);
        assert(p.subrange(p.len() - cap, p.len() as int) =~= t.subrange(t.len() - cap, t.len() as int));
    }
}

/// Appends `x` to `v`, first dropping the oldest entry when `v` is full.
pub fn push_bounded_vec<A>(v: &mut Vec<A>, x: A, cap: usize)
    requires
        0 < cap,
        old(v)@.len() <= cap,
    ensures
        final(v)@ == push_bounded(old(v)@, x, cap as nat),
        final(v)@.len() <= cap,
{
    if v.len() >= cap {
        v.remove(0);
    }
    v.push(x);
    proof {
        let t = old(v)@.push(x);
        if t.len() > cap {
            assert(v@ =~= t.subrange(t.len() - cap, t.len() as int));
        }
    }
}

} // verus!
