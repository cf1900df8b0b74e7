//! A list whose elements each expire once their own span has elapsed.
use crate::convert::ToDuration;
use crate::timer::EggTimer;
use vstd::prelude::*;

verus! {

/// The elements of `s` whose place is marked `true` in `keep`, in order.
pub open spec fn kept<A>(s: Seq<A>, keep: Seq<bool>) -> Seq<A>
    decreases s.len(),
{
    if s.len() == 0 {
        Seq::empty()
    } else {
        let rest = kept(s.drop_last(), keep);
        if keep[s.len() - 1] {
            rest.push(s.last())
        } else {
            rest
        }
    }
}

/// Whether `keep` could be the outcome of checking each of `timers` for expiry,
/// `true` for a timer that has not run out: one set to zero has always run out.
pub open spec fn alive_mask(timers: Seq<EggTimer>, keep: Seq<bool>) -> bool {
    &&& keep.len() == timers.len()
    &&& forall|i: int| 0 <= i < keep.len() && #[trigger] timers[i].target() == 0 ==> !keep[i]
}

/// `s` back to front.
spec fn reversed<A>(s: Seq<A>) -> Seq<A> {
    Seq::new(s.len(), |i: int| s[s.len() - 1 - i])
}

/// References to the elements of `v` whose place is marked `true` in `keep`, in order.
fn refs_marked<'a, A>(v: &'a Vec<A>, keep: &Vec<bool>) -> (r: Vec<&'a A>)
    requires
        keep@.len() == v@.len(),
    ensures
        r@.unref() == kept(v@, keep@),
{
    let mut r: Vec<&'a A> = Vec::new();
    let mut i: usize = 0;
    proof {
        assert(v@.take(0) =~= Seq::<A>::empty());
        assert(r@.unref() =~= Seq::<A>::empty());
    }
    while i < v.len()
        invariant
            i <= v@.len(),
            keep@.len() == v@.len(),
            r@.unref() == kept(v@.take(i as int), keep@),
        decreases v@.len() - i,
    {
        proof {
            assert(v@.take(i + 1).drop_last() =~= v@.take(i as int));
        }
        if keep[i] {
            let ghost before = r@;
            r.push(&v[i]);
            proof {
                assert(r@.unref() =~= before.unref().push(v@[i as int]));
            }
        }
        i += 1;
    }
    proof {
        assert(v@.take(i as int) =~= v@);
    }
    r
}

/// `v` back to front.
fn reverse_vec<A>(v: Vec<A>) -> (r: Vec<A>)
    ensures
        r@ == reversed(v@),
{
    let ghost whole = v@;
    let mut v = v;
    let mut r: Vec<A> = Vec::new();
    proof {
        assert(whole =~= v@ + reversed(r@));
    }
    while v.len() > 0
        invariant
            whole == v@ + reversed(r@),
        decreases v.len(),
    {
        let ghost before = v@;
        let popped = v.pop();
        match popped {
            Some(x) => {
                proof {
                    assert(reversed(r@.push(x)) =~= seq![x] + reversed(r@));
                    assert(before =~= v@.push(x));
                    assert(before + reversed(r@) =~= v@ + reversed(r@.push(x)));
                }
                r.push(x);
            },
            None => {},
        }
    }
    proof {
        assert(r@ =~= reversed(whole));
    }
    r
}

/// Keeps the elements of `v` whose place is marked `true` in `keep`, in order.
fn keep_marked<A>(v: &mut Vec<A>, keep: &Vec<bool>)
    requires
        keep@.len() == old(v)@.len(),
    ensures
        final(v)@ == kept(old(v)@, keep@),
{
    let ghost whole = v@;
    let mut rev: Vec<A> = Vec::new();
    let mut j: usize = v.len();
    proof {
        assert(whole.take(j as int) =~= whole);
        assert(kept(whole, keep@) + reversed(rev@) =~= kept(whole, keep@));
    }
    while j > 0
        invariant
            j <= whole.len(),
            keep@.len() == whole.len(),
            v@ == whole.take(j as int),
            kept(whole, keep@) == kept(whole.take(j as int), keep@) + reversed(rev@),
        decreases j,
    {
        let popped = v.pop();
        match popped {
            Some(x) => {
                j -= 1;
                proof {
                    assert(whole.take(j + 1).drop_last() =~= whole.take(j as int));
                    assert(x == whole.take(j + 1).last());
                }
                if keep[j] {
                    proof {
                        assert(reversed(rev@.push(x)) =~= seq![x] + reversed(rev@));
                        assert(kept(whole.take(j as int), keep@).push(x) + reversed(rev@) =~= kept(
                            whole.take(j as int),
                            keep@,
                        ) + reversed(rev@.push(x)));
                    }
                    rev.push(x);
                }
            },
            None => {
                j = 0;
            },
        }
    }
    proof {
        assert(whole.take(0) =~= Seq::<A>::empty());
        assert(kept(whole, keep@) =~= reversed(rev@));
        assert(v@ =~= Seq::<A>::empty());
    }
    while rev.len() > 0
        invariant
            v@ + reversed(rev@) == kept(whole, keep@),
        decreases rev.len(),
    {
        let ghost before = rev@;
        let popped = rev.pop();
        match popped {
            Some(x) => {
                proof {
                    assert(reversed(before) =~= seq![x] + reversed(rev@));
                    assert(v@ + reversed(before) =~= v@.push(x) + reversed(rev@));
                }
                v.push(x);
            },
            None => {},
        }
    }
    proof {
        assert(v@ + reversed(rev@) =~= v@);
    }
}

/// A list where each element has its own span; an element whose span has
/// elapsed is never read again, and is dropped by the next call that changes
/// the list.
#[derive(Clone, Debug, PartialEq)]
pub struct TimedList<T> {
    timers: Vec<EggTimer>,
    items: Vec<T>,
}

impl<T> TimedList<T> {
    /// One timer per element, each well formed.
    pub closed spec fn wf(self) -> bool {
        &&& self.timers@.len() == self.items@.len()
        &&& forall|i: int| 0 <= i < self.timers@.len() ==> #[trigger] self.timers@[i].wf()
    }

    /// The stored elements in order of insertion, expired ones included.
    pub closed spec fn values(self) -> Seq<T> {
        self.items@
    }

    /// The timer of each stored element.
    pub closed spec fn timers(self) -> Seq<EggTimer> {
        self.timers@
    }

    /// Creates an empty `TimedList`.
    pub fn new() -> (r: TimedList<T>)
        ensures
            r.wf(),
            r.values() == Seq::<T>::empty(),
            r.timers() == Seq::<EggTimer>::empty(),
    {
        TimedList { timers: Vec::new(), items: Vec::new() }
    }

    /// Appends `element`, to expire once `time` has elapsed from now.
    pub fn insert<D: ToDuration>(&mut self, element: T, time: D)
        requires
            old(self).wf(),
            time.fits_duration(),
        ensures
            final(self).wf(),
            final(self).values() == old(self).values().push(element),
            final(self).timers().drop_last() == old(self).timers(),
            final(self).timers().len() == old(self).timers().len() + 1,
            final(self).timers().last().target() == time.span_nanos(),
    {
        let timer = EggTimer::set(time);
        self.timers.push(timer);
        self.items.push(element);
        proof {
            assert(self.timers@.drop_last() =~= old(self).timers@);
        }
    }

    /// Keeps the elements whose place is marked `true` in `keep`, in order,
    /// with their timers.
    pub fn retain_marked(&mut self, keep: &Vec<bool>)
        requires
            old(self).wf(),
            keep@.len() == old(self).values().len(),
        ensures
            final(self).wf(),
            final(self).values() == kept(old(self).values(), keep@),
            final(self).timers() == kept(old(self).timers(), keep@),
    {
        keep_marked(&mut self.timers, keep);
        keep_marked(&mut self.items, keep);
        proof {
            lemma_kept_len(old(self).timers@, old(self).items@, keep@);
            lemma_kept_all(old(self).timers@, keep@);
        }
    }

    /// Drops every element whose span has elapsed.
    pub fn clean(&mut self)
        requires
            old(self).wf(),
        ensures
            final(self).wf(),
            exists|keep: Seq<bool>|
                {
                    &&& alive_mask(old(self).timers(), keep)
                    &&& final(self).values() == kept(old(self).values(), keep)
                    &&& final(self).timers() == kept(old(self).timers(), keep)
                },
    {
        let keep = self.alive();
        self.retain_marked(&keep);
    }

    /// Removes every element.
    pub fn clear(&mut self)
        ensures
            final(self).wf(),
            final(self).values() == Seq::<T>::empty(),
            final(self).timers() == Seq::<EggTimer>::empty(),
    {
        self.timers.clear();
        self.items.clear();
    }

    /// The number of elements whose span has not elapsed.
    pub fn len(&self) -> (r: usize)
        requires
            self.wf(),
        ensures
            exists|keep: Seq<bool>|
                {
                    &&& alive_mask(self.timers(), keep)
                    &&& r == kept(self.values(), keep).len()
                },
    {
        let keep = self.alive();
        let mut count: usize = 0;
        let mut i: usize = 0;
        proof {
            assert(self.items@.take(0) =~= Seq::<T>::empty());
        }
        while i < keep.len()
            invariant
                self.wf(),
                keep@.len() == self.items@.len(),
                i <= keep@.len(),
                count == kept(self.items@.take(i as int), keep@).len(),
                count <= i,
            decreases keep@.len() - i,
        {
            proof {
                assert(self.items@.take(i + 1).drop_last() =~= self.items@.take(i as int));
            }
            if keep[i] {
                count += 1;
            }
            i += 1;
        }
        proof {
            assert(self.items@.take(i as int) =~= self.items@);
        }
        count
    }

    /// Whether no element's span is still running.
    pub fn is_empty(&self) -> (r: bool)
        requires
            self.wf(),
        ensures
            exists|keep: Seq<bool>|
                {
                    &&& alive_mask(self.timers(), keep)
                    &&& r == (kept(self.values(), keep).len() == 0)
                },
    {
        self.len() == 0
    }

    /// Keeps the elements for which `f` holds, in order, expired ones included.
    pub fn retain<F: Fn(&T) -> bool>(&mut self, f: F)
        requires
            old(self).wf(),
            forall|i: int| 0 <= i < old(self).values().len() ==> f.requires((&old(self).values()[i],)),
        ensures
            final(self).wf(),
            exists|keep: Seq<bool>|
                {
                    &&& keep.len() == old(self).values().len()
                    &&& forall|i: int|
                        0 <= i < keep.len() ==> f.ensures((&old(self).values()[i],), #[trigger] keep[i])
                    &&& final(self).values() == kept(old(self).values(), keep)
                    &&& final(self).timers() == kept(old(self).timers(), keep)
                },
    {
        let mut keep: Vec<bool> = Vec::new();
        let mut i: usize = 0;
        proof {
            assert forall|k: int| 0 <= k < self.items@.len() implies f.requires((&self.items@[k],)) by {
                assert(self.items@[k] == old(self).values()[k]);
            }
        }
        while i < self.items.len()
            invariant
                self.wf(),
                *self == *old(self),
                i <= self.items@.len(),
                keep@.len() == i,
                forall|k: int| 0 <= k < self.items@.len() ==> f.requires((&self.items@[k],)),
                forall|k: int| 0 <= k < i ==> f.ensures((&self.items@[k],), #[trigger] keep@[k]),
            decreases self.items@.len() - i,
        {
            let b = f(&self.items[i]);
            keep.push(b);
            i += 1;
        }
        self.retain_marked(&keep);
    }

    /// References to the elements whose span has not elapsed, in order. The
    /// list itself is left as it is. Each timer is checked once, during this
    /// call: an element that expires while the caller walks the result is
    /// still in it, and a later call may leave out elements that this one gave.
    pub fn iter(&self) -> (r: Vec<&T>)
        requires
            self.wf(),
        ensures
            exists|keep: Seq<bool>|
                {
                    &&& alive_mask(self.timers(), keep)
                    &&& r@.unref() == kept(self.values(), keep)
                },
    {
        let keep = self.alive();
        refs_marked(&self.items, &keep)
    }

    /// The elements whose span has not elapsed, each with a copy of its timer,
    /// in order. The list itself is left as it is. Each timer is checked once,
    /// during this call: an element that expires while the caller walks the
    /// result is still in it, and a later call may leave out elements that this
    /// one gave.
    pub fn timer_iter(&self) -> (r: Vec<(&T, EggTimer)>)
        requires
            self.wf(),
        ensures
            exists|keep: Seq<bool>|
                {
                    &&& alive_mask(self.timers(), keep)
                    &&& r@.len() == kept(self.values(), keep).len()
                    &&& forall|i: int|
                        0 <= i < r@.len() ==> *(#[trigger] r@[i]).0 == kept(self.values(), keep)[i]
                            && r@[i].1 == kept(self.timers(), keep)[i]
                },
    {
        let keep = self.alive();
        let values = refs_marked(&self.items, &keep);
        let timers = refs_marked(&self.timers, &keep);
        proof {
            lemma_kept_len(self.items@, self.timers@, keep@);
        }
        let mut r: Vec<(&T, EggTimer)> = Vec::new();
        let mut i: usize = 0;
        while i < values.len()
            invariant
                values@.unref() == kept(self.items@, keep@),
                timers@.unref() == kept(self.timers@, keep@),
                values@.len() == timers@.len(),
                i <= values@.len(),
                r@.len() == i,
                forall|k: int|
                    0 <= k < i ==> *(#[trigger] r@[k]).0 == kept(self.items@, keep@)[k] && r@[k].1
                        == kept(self.timers@, keep@)[k],
            decreases values@.len() - i,
        {
            proof {
                assert(*values@[i as int] == values@.unref()[i as int]);
                assert(*timers@[i as int] == timers@.unref()[i as int]);
            }
            r.push((values[i], *timers[i]));
            i += 1;
        }
        r
    }

    /// Drops every element whose span has elapsed, then lends the rest, in
    /// order, for change in place.
    pub fn iter_mut(&mut self) -> (r: &mut [T])
        requires
            old(self).wf(),
        ensures
            exists|keep: Seq<bool>|
                {
                    &&& alive_mask(old(self).timers(), keep)
                    &&& r@ == kept(old(self).values(), keep)
                    &&& final(self).timers() == kept(old(self).timers(), keep)
                },
            final(self).values() == final(r)@,
            final(r)@.len() == r@.len() ==> final(self).wf(),
    {
        self.clean();
        self.items.as_mut_slice()
    }

    /// Drops every element whose span has elapsed, then lends the rest, in
    /// order, for change in place, beside a copy of their timers.
    pub fn timer_iter_mut(&mut self) -> (r: (&mut [T], Vec<EggTimer>))
        requires
            old(self).wf(),
        ensures
            exists|keep: Seq<bool>|
                {
                    &&& alive_mask(old(self).timers(), keep)
                    &&& r.0@ == kept(old(self).values(), keep)
                    &&& r.1@ == kept(old(self).timers(), keep)
                    &&& final(self).timers() == kept(old(self).timers(), keep)
                },
            final(self).values() == final(r.0)@,
            final(r.0)@.len() == r.0@.len() ==> final(self).wf(),
    {
        self.clean();
        let mut timers: Vec<EggTimer> = Vec::new();
        let mut i: usize = 0;
        while i < self.timers.len()
            invariant
                i <= self.timers@.len(),
                timers@ == self.timers@.take(i as int),
            decreases self.timers@.len() - i,
        {
            timers.push(self.timers[i]);
            proof {
                assert(timers@ =~= self.timers@.take(i + 1));
            }
            i += 1;
        }
        proof {
            assert(timers@ =~= self.timers@);
        }
        (self.items.as_mut_slice(), timers)
    }

    /// Drops every element whose span has elapsed, then consumes the list,
    /// giving the rest in order.
    pub fn into_vec(self) -> (r: Vec<T>)
        requires
            self.wf(),
        ensures
            exists|keep: Seq<bool>|
                {
                    &&& alive_mask(self.timers(), keep)
                    &&& r@ == kept(self.values(), keep)
                },
    {
        let mut list = self;
        list.clean();
        list.items
    }

    /// A list holding each element of `pairs` in order, each to expire once its
    /// span has elapsed from now.
    pub fn from_pairs<D: ToDuration>(pairs: Vec<(T, D)>) -> (r: TimedList<T>)
        requires
            forall|i: int| 0 <= i < pairs@.len() ==> (#[trigger] pairs@[i]).1.fits_duration(),
        ensures
            r.wf(),
            r.values() == pairs@.map_values(|p: (T, D)| p.0),
            r.timers().len() == pairs@.len(),
            forall|i: int|
                0 <= i < pairs@.len() ==> #[trigger] r.timers()[i].target() == pairs@[i].1.span_nanos(),
    {
        let ghost whole = pairs@;
        let n: usize = pairs.len();
        let mut rest = reverse_vec(pairs);
        let mut list = TimedList::new();
        let mut k: usize = 0;
        while rest.len() > 0
            invariant
                list.wf(),
                k + rest@.len() == whole.len(),
                whole.len() == n,
                forall|i: int| 0 <= i < rest@.len() ==> rest@[i] == whole[whole.len() - 1 - i],
                forall|i: int| 0 <= i < whole.len() ==> (#[trigger] whole[i]).1.fits_duration(),
                list.values() == whole.take(k as int).map_values(|p: (T, D)| p.0),
                list.timers().len() == k,
                forall|i: int|
                    0 <= i < k ==> #[trigger] list.timers()[i].target() == whole[i].1.span_nanos(),
            decreases rest@.len(),
        {
            let popped = rest.pop();
            match popped {
                Some(pair) => {
                    proof {
                        assert(pair == whole[k as int]);
                    }
                    let (element, time) = pair;
                    let ghost before = list;
                    list.insert(element, time);
                    proof {
                        assert(whole.take(k + 1).map_values(|p: (T, D)| p.0) =~= whole.take(
                            k as int,
                        ).map_values(|p: (T, D)| p.0).push(element));
                        assert forall|i: int| 0 <= i < k + 1 implies #[trigger] list.timers()[i].target()
                            == whole[i].1.span_nanos() by {
                            if i < k {
                                assert(list.timers()[i] == list.timers().drop_last()[i]);
                            }
                        }
                    }
                    k += 1;
                },
                None => {},
            }
        }
        proof {
            assert(whole.take(k as int) =~= whole);
        }
        list
    }

    /// Checks each timer in turn: `true` for one that has not run out.
    fn alive(&self) -> (r: Vec<bool>)
        requires
            self.wf(),
        ensures
            alive_mask(self.timers(), r@),
    {
        let mut r: Vec<bool> = Vec::new();
        let mut i: usize = 0;
        while i < self.timers.len()
            invariant
                self.wf(),
                i <= self.timers@.len(),
                r@.len() == i,
                forall|k: int| 0 <= k < i && #[trigger] self.timers@[k].target() == 0 ==> !r@[k],
            decreases self.timers@.len() - i,
        {
            let ready = self.timers[i].is_ready();
            r.push(!ready);
            i += 1;
        }
        r
    }
}

/// Marking two sequences of the same length keeps as many of each.
proof fn lemma_kept_len<A, B>(a: Seq<A>, b: Seq<B>, keep: Seq<bool>)
    requires
        a.len() == b.len(),
    ensures
        kept(a, keep).len() == kept(b, keep).len(),
    decreases a.len(),
{
    if a.len() > 0 {
        lemma_kept_len(a.drop_last(), b.drop_last(), keep);
    }
}

/// What marking keeps of a sequence of well-formed timers is well formed.
proof fn lemma_kept_all(s: Seq<EggTimer>, keep: Seq<bool>)
    requires
        forall|i: int| 0 <= i < s.len() ==> #[trigger] s[i].wf(),
    ensures
        forall|i: int| 0 <= i < kept(s, keep).len() ==> #[trigger] kept(s, keep)[i].wf(),
    decreases s.len(),
{
    if s.len() > 0 {
        lemma_kept_all(s.drop_last(), keep);
        assert(s[s.len() - 1].wf());
        let rest = kept(s.drop_last(), keep);
        assert forall|i: int| 0 <= i < kept(s, keep).len() implies #[trigger] kept(s, keep)[i].wf() by {
            if i < rest.len() {
                assert(kept(s, keep)[i] == rest[i]);
            }
        }
    }
}

/// An element appended to a list comes out, as the last one, exactly when its
/// own timer has not run out; once it has run out, what comes out and how many
/// is as if it had never been added.
pub proof fn lemma_appended_comes_out_last<A>(s: Seq<A>, keep: Seq<bool>, x: A)
    requires
        keep.len() > s.len(),
    ensures
        kept(s.push(x), keep) == if keep[s.len() as int] {
            kept(s, keep).push(x)
        } else {
            kept(s, keep)
        },
        keep[s.len() as int] ==> kept(s.push(x), keep).last() == x && kept(s.push(x), keep).len()
            == kept(s, keep).len() + 1,
        !keep[s.len() as int] ==> kept(s.push(x), keep).len() == kept(s, keep).len(),
{
    assert(s.push(x).drop_last() =~= s);
}

/// Every element that comes out is one whose timer had not run out: an
/// element whose timer has run out is neither yielded nor counted.
pub proof fn lemma_only_alive_come_out<A>(s: Seq<A>, keep: Seq<bool>)
    requires
        keep.len() == s.len(),
    ensures
        kept(s, keep).len() <= s.len(),
        forall|j: int|
            0 <= j < kept(s, keep).len() ==> exists|i: int|
                0 <= i < s.len() && keep[i] && s[i] == #[trigger] kept(s, keep)[j],
        (exists|i: int| 0 <= i < s.len() && !keep[i]) ==> kept(s, keep).len() < s.len(),
    decreases s.len(),
{
    if s.len() > 0 {
        let t = s.drop_last();
        let kt = keep.drop_last();
        lemma_only_alive_come_out(t, kt);
        lemma_kept_prefix_mask(t, keep);
        let rest = kept(t, keep);
        assert forall|j: int| 0 <= j < kept(s, keep).len() implies exists|i: int|
            0 <= i < s.len() && keep[i] && s[i] == #[trigger] kept(s, keep)[j] by {
            if j < rest.len() {
                assert(kept(s, keep)[j] == rest[j]);
                assert(keep.take(t.len() as int) =~= kt);
                assert(kept(t, keep) == kept(t, kt));
                let i = choose|i: int| 0 <= i < t.len() && kt[i] && t[i] == #[trigger] kept(t, kt)[j];
                assert(s[i] == t[i]);
            } else {
                assert(s[s.len() - 1] == kept(s, keep)[j]);
            }
        }
        if exists|i: int| 0 <= i < s.len() && !keep[i] {
            assert(keep.take(t.len() as int) =~= kt);
            assert(kept(t, keep) == kept(t, kt));
            let i = choose|i: int| 0 <= i < s.len() && !keep[i];
            if i < s.len() - 1 {
                assert(!kt[i]);
            }
        }
    }
}

/// The marks past a sequence's own length do not matter.
proof fn lemma_kept_prefix_mask<A>(s: Seq<A>, keep: Seq<bool>)
    requires
        keep.len() >= s.len(),
    ensures
        kept(s, keep) == kept(s, keep.take(s.len() as int)),
    decreases s.len(),
{
    if s.len() > 0 {
        lemma_kept_prefix_mask(s.drop_last(), keep);
        lemma_kept_prefix_mask(s.drop_last(), keep.take(s.len() as int));
        assert(keep.take(s.len() as int).take(s.len() - 1) =~= keep.take(s.len() - 1));
    }
}

/// While no timer has run out, every element comes out, in order.
pub proof fn lemma_all_alive_all_come_out<A>(s: Seq<A>, keep: Seq<bool>)
    requires
        keep.len() == s.len(),
        forall|i: int| 0 <= i < keep.len() ==> keep[i],
    ensures
        kept(s, keep) == s,
    decreases s.len(),
{
    if s.len() > 0 {
        lemma_kept_prefix_mask(s.drop_last(), keep);
        lemma_all_alive_all_come_out(s.drop_last(), keep.take(s.len() - 1));
        assert(s.drop_last().push(s.last()) =~= s);
    }
}

/// No element set to a span of zero ever comes out.
pub proof fn lemma_zero_span_never_comes_out(timers: Seq<EggTimer>, keep: Seq<bool>)
    requires
        alive_mask(timers, keep),
    ensures
        forall|j: int|
            0 <= j < kept(timers, keep).len() ==> #[trigger] kept(timers, keep)[j].target() > 0,
{
    lemma_only_alive_come_out(timers, keep);
    assert forall|j: int| 0 <= j < kept(timers, keep).len() implies #[trigger] kept(
        timers,
        keep,
    )[j].target() > 0 by {
        let i = choose|i: int|
            0 <= i < timers.len() && keep[i] && timers[i] == #[trigger] kept(timers, keep)[j];
        assert(timers[i].target() == 0 ==> !keep[i]);
    }
}

impl<T> Default for TimedList<T> {
    fn default() -> (r: Self)
        ensures
            r.wf(),
            r.values() == Seq::<T>::empty(),
            r.timers() == Seq::<EggTimer>::empty(),
    {
        TimedList::new()
    }
}

} // verus!
