//! A fixed-capacity, FIFO-evicting rolling window over one metric.
use std::collections::VecDeque;
use vstd::prelude::*;

verus! {

/// The window after `v` arrives: `v` is appended, and the oldest value is
/// dropped when the window would exceed `cap`.
pub open spec fn pushed<T>(w: Seq<T>, cap: nat, v: T) -> Seq<T> {
    let grown = w.push(v);
    if grown.len() > cap {
        grown.subrange(1, grown.len() as int)
    } else {
        grown
    }
}

/// The window after each value of `vs` arrives in turn.
pub open spec fn pushed_all<T>(w: Seq<T>, cap: nat, vs: Seq<T>) -> Seq<T>
    decreases vs.len(),
{
    if vs.len() == 0 {
        w
    } else {
        pushed_all(pushed(w, cap, vs[0]), cap, vs.subrange(1, vs.len() as int))
    }
}

/// The last `n` values of `s` (all of them when `s` is shorter).
pub open spec fn last_n<T>(s: Seq<T>, n: nat) -> Seq<T> {
    if s.len() <= n {
        s
    } else {
        s.subrange(s.len() - n, s.len() as int)
    }
}

/// A window that held at most `cap` values loses at most its oldest one when
/// a value arrives: what remains is the last `cap` values of the longer window.
proof fn lemma_pushed_is_last_n<T>(w: Seq<T>, cap: nat, v: T)
    requires
        w.len() <= cap,
    ensures
        pushed(w, cap, v) == last_n(w.push(v), cap),
{
}

/// Keeping the last `cap` values, then appending, then keeping the last `cap`
/// values again, keeps the same values as appending first.
proof fn lemma_last_n_absorbs<T>(s: Seq<T>, t: Seq<T>, cap: nat)
    ensures
        last_n(last_n(s, cap) + t, cap) == last_n(s + t, cap),
{
    if s.len() > cap {
        let kept = s.subrange(s.len() - cap, s.len() as int);
        assert((kept + t) =~= (s + t).subrange(s.len() - cap, (s + t).len() as int));
        if (kept + t).len() > cap {
            assert(last_n(kept + t, cap) =~= last_n(s + t, cap));
        } else {
            assert(last_n(kept + t, cap) =~= last_n(s + t, cap));
        }
    }
}

/// However many values arrive, a window never holds more than its capacity.
pub proof fn lemma_window_never_exceeds_capacity<T>(w: Seq<T>, cap: nat, vs: Seq<T>)
    requires
        w.len() <= cap,
    ensures
        pushed_all(w, cap, vs).len() <= cap,
    decreases vs.len(),
{
    if vs.len() > 0 {
        lemma_window_never_exceeds_capacity(pushed(w, cap, vs[0]), cap, vs.subrange(1, vs.len() as int));
    }
}

/// After values arrive, a window holds exactly the last `cap` values of what
/// it held followed by what arrived, in arrival order.
pub proof fn lemma_window_keeps_latest<T>(w: Seq<T>, cap: nat, vs: Seq<T>)
    requires
        w.len() <= cap,
    ensures
        pushed_all(w, cap, vs) == last_n(w + vs, cap),
    decreases vs.len(),
{
    if vs.len() == 0 {
        assert(w + vs =~= w);
    } else {
        let rest = vs.subrange(1, vs.len() as int);
        let w1 = pushed(w, cap, vs[0]);
        lemma_pushed_is_last_n(w, cap, vs[0]);
        lemma_window_keeps_latest(w1, cap, rest);
        lemma_last_n_absorbs(w.push(vs[0]), rest, cap);
        assert(w.push(vs[0]) + rest =~= w + vs);
    }
}

/// Starting from an empty window, the snapshot after any run of values is
/// exactly the last `cap` of them in arrival order (all of them when fewer
/// arrived).
pub proof fn lemma_snapshot_is_last_values<T>(cap: nat, vs: Seq<T>)
    ensures
        pushed_all(Seq::<T>::empty(), cap, vs) == last_n(vs, cap),
        pushed_all(Seq::<T>::empty(), cap, vs).len() <= cap,
{
    lemma_window_keeps_latest(Seq::<T>::empty(), cap, vs);
    lemma_window_never_exceeds_capacity(Seq::<T>::empty(), cap, vs);
    assert(Seq::<T>::empty() + vs =~= vs);
}

/// The latest value of one metric and its most recent values, oldest first,
/// never more of them than the capacity it was created with.
#[derive(Clone, Debug)]
pub struct HistoricalMetric<T> {
    current_value: T,
    history: VecDeque<T>,
    max_history_length: usize,
}

impl<T> HistoricalMetric<T> {
    /// The latest value pushed (the initial value before any push).
    pub closed spec fn current(&self) -> T {
        self.current_value
    }

    /// The retained values, oldest first.
    pub closed spec fn window(&self) -> Seq<T> {
        self.history@
    }

    /// The most values the window may hold.
    pub closed spec fn capacity(&self) -> nat {
        self.max_history_length as nat
    }

    /// The window never holds more values than the capacity.
    pub open spec fn wf(&self) -> bool {
        self.window().len() <= self.capacity()
    }
}

impl<T: Copy> HistoricalMetric<T> {
    /// An empty window of the given capacity whose current value is `value`.
    pub fn new(value: T, max_history_length: usize) -> (r: Self)
        ensures
            r.wf(),
            r.current() == value,
            r.window() == Seq::<T>::empty(),
            r.capacity() == max_history_length as nat,
    {
        let history = VecDeque::with_capacity(max_history_length);
        HistoricalMetric { current_value: value, history, max_history_length }
    }

    /// Records `value` as the current value and appends it to the window,
    /// evicting the oldest value when the capacity would be exceeded.
    pub fn update(&mut self, value: T)
        requires
            old(self).wf(),
        ensures
            final(self).wf(),
            final(self).current() == value,
            final(self).capacity() == old(self).capacity(),
            final(self).window() == pushed(old(self).window(), old(self).capacity(), value),
    {
        self.current_value = value;
        self.history.push_back(value);
        if self.history.len() > self.max_history_length {
            let _ = self.history.pop_front();
        }
    }

    /// A copy of the window, oldest first; the metric is left as it is.
    pub fn get_values(&self) -> (r: Vec<T>)
        ensures
            r@ == self.window(),
    {
        let mut values: Vec<T> = Vec::with_capacity(self.history.len());
        let n = self.history.len();
        let mut i: usize = 0;
        while i < n
            invariant
                n == self.history@.len(),
                i <= n,
                values@ == self.history@.subrange(0, i as int),
            decreases n - i,
        {
            values.push(self.history[i]);
            i += 1;
        }
        assert(values@ == self.history@.subrange(0, n as int));
        values
    }

    /// The latest value.
    pub fn current_value(&self) -> (r: T)
        ensures
            r == self.current(),
    {
        self.current_value
    }

    /// The capacity the metric was created with.
    pub fn max_history_length(&self) -> (r: usize)
        ensures
            r as nat == self.capacity(),
    {
        self.max_history_length
    }
}

} // verus!
