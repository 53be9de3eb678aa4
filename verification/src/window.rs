//! The bounded window of recent samples that the indicators share, with its
//! count of the bars that went into it.

use vstd::prelude::*;
use crate::scalar::{highest_of, lowest_of, path_length_of, sum_of, weighted_sum_of, Scalar};

verus! {

/// `w` with `x` appended, and the oldest sample dropped where `w` was full.
pub open spec fn slide<S>(w: Seq<S>, capacity: int, x: S) -> Seq<S> {
    if w.len() < capacity {
        w.push(x)
    } else {
        w.subrange(1, w.len() as int).push(x)
    }
}

/// `w` with its newest sample replaced by `x`; an empty `w` takes `x` as its
/// first sample.
pub open spec fn overwrite_last<S>(w: Seq<S>, x: S) -> Seq<S> {
    if w.len() == 0 {
        seq![x]
    } else {
        w.drop_last().push(x)
    }
}

/// The count of bars after one step: a new bar raises it by one, a revision
/// leaves it as it is. It stops only at the largest number a `u64` holds.
pub open spec fn count_bar(bars: int, is_new_bar: bool) -> int {
    if is_new_bar && bars < u64::MAX {
        bars + 1
    } else {
        bars
    }
}

/// What a window is: its capacity, the number of bars seen so far, and the
/// samples it holds, oldest first.
pub struct WindowModel<S> {
    pub capacity: int,
    pub bars: int,
    pub items: Seq<S>,
}

impl<S> WindowModel<S> {
    /// The window never holds more than its capacity, and it holds a sample
    /// for every bar seen until it is full.
    pub open spec fn valid(self) -> bool {
        &&& 1 <= self.capacity
        &&& 0 <= self.bars <= u64::MAX
        &&& self.items.len() <= self.capacity
        &&& self.bars < self.capacity ==> self.bars <= self.items.len()
        &&& self.bars >= self.capacity ==> self.items.len() == self.capacity
    }

    /// Whether as many bars as the capacity were seen.
    pub open spec fn ready(self) -> bool {
        self.bars >= self.capacity
    }

    /// The empty window.
    pub open spec fn fresh(capacity: int) -> Self {
        WindowModel { capacity, bars: 0, items: Seq::empty() }
    }

    /// The window after a new bar with the sample `x`.
    pub open spec fn appended(self, x: S) -> Self {
        WindowModel {
            capacity: self.capacity,
            bars: count_bar(self.bars, true),
            items: slide(self.items, self.capacity, x),
        }
    }

    /// The window after the bar in progress was revised to `x`.
    pub open spec fn revised(self, x: S) -> Self {
        WindowModel {
            capacity: self.capacity,
            bars: self.bars,
            items: overwrite_last(self.items, x),
        }
    }

    /// The window after one step.
    pub open spec fn advanced(self, x: S, is_new_bar: bool) -> Self {
        if is_new_bar {
            self.appended(x)
        } else {
            self.revised(x)
        }
    }

    /// The window after the bars `xs`, each opened in turn on an empty window.
    pub open spec fn run(capacity: int, xs: Seq<S>) -> Self
        decreases xs.len(),
    {
        if xs.len() == 0 {
            Self::fresh(capacity)
        } else {
            Self::run(capacity, xs.drop_last()).appended(xs.last())
        }
    }

    /// The window after the bar in progress was revised to each of `us` in turn.
    pub open spec fn revised_by(self, us: Seq<S>) -> Self
        decreases us.len(),
    {
        if us.len() == 0 {
            self
        } else {
            self.revised_by(us.drop_last()).revised(us.last())
        }
    }
}

/// The newest `k` samples of `xs`, or all of `xs` where it has no more.
pub open spec fn tail<S>(xs: Seq<S>, k: int) -> Seq<S> {
    if xs.len() <= k {
        xs
    } else {
        xs.subrange(xs.len() - k, xs.len() as int)
    }
}

/// Whether `after` is what a stage has been fed once `input` came after
/// `before`: a value is appended; nothing comes only while nothing has come.
pub open spec fn fed<S>(before: Seq<S>, input: Option<S>, after: Seq<S>) -> bool {
    match input {
        Some(v) => after == before.push(v),
        None => after == before && before.len() == 0,
    }
}

/// A step keeps a valid window valid.
pub proof fn lemma_window_advanced_valid<S>(w: WindowModel<S>, x: S, is_new_bar: bool)
    requires
        w.valid(),
    ensures
        w.advanced(x, is_new_bar).valid(),
        w.advanced(x, is_new_bar).capacity == w.capacity,
{
}

/// After the bars `xs` the window has counted every one of them and holds
/// the newest of them.
pub proof fn lemma_window_run<S>(capacity: int, xs: Seq<S>)
    requires
        capacity >= 1,
    ensures
        WindowModel::run(capacity, xs) == (WindowModel {
            capacity,
            bars: if xs.len() < u64::MAX {
                xs.len() as int
            } else {
                u64::MAX as int
            },
            items: tail(xs, capacity),
        }),
        WindowModel::run(capacity, xs).valid(),
    decreases xs.len(),
{
    if xs.len() > 0 {
        let before = xs.drop_last();
        lemma_window_run(capacity, before);
        let w = WindowModel::run(capacity, before);
        assert(slide(w.items, capacity, xs.last()) =~= tail(xs, capacity));
    } else {
        assert(tail(xs, capacity) =~= Seq::<S>::empty());
    }
}

/// Revising the bar that was just opened gives the window that opening the
/// bar with the revised sample would have given.
pub proof fn lemma_window_revision_commutes<S>(w: WindowModel<S>, x: S, u: S)
    requires
        w.valid(),
    ensures
        w.appended(x).revised(u) == w.appended(u),
{
    assert(overwrite_last(slide(w.items, w.capacity, x), u) =~= slide(w.items, w.capacity, u));
}

/// However often the bar that was just opened is revised, the window is the
/// one that opening the bar with the last revision would have given.
pub proof fn lemma_window_revisions_collapse<S>(w: WindowModel<S>, x: S, us: Seq<S>)
    requires
        w.valid(),
        us.len() >= 1,
    ensures
        w.appended(x).revised_by(us) == w.appended(us.last()),
    decreases us.len(),
{
    let before = us.drop_last();
    if before.len() == 0 {
        assert(w.appended(x).revised_by(before) == w.appended(x));
        lemma_window_revision_commutes(w, x, us.last());
    } else {
        lemma_window_revisions_collapse(w, x, before);
        lemma_window_revision_commutes(w, before.last(), us.last());
    }
}

/// A fixed-capacity window of the most recent samples.
pub struct BarWindow<S> {
    capacity: usize,
    bars: u64,
    items: Vec<S>,
}

impl<S> View for BarWindow<S> {
    type V = WindowModel<S>;

    closed spec fn view(&self) -> WindowModel<S> {
        WindowModel { capacity: self.capacity as int, bars: self.bars as int, items: self.items@ }
    }
}

fn copy_range<S: Copy>(v: &Vec<S>, lo: usize, hi: usize) -> (r: Vec<S>)
    requires
        lo <= hi <= v.len(),
    ensures
        r@ == v@.subrange(lo as int, hi as int),
{
    let mut out: Vec<S> = Vec::new();
    let mut i: usize = lo;
    while i < hi
        invariant
            lo <= i <= hi <= v.len(),
            out@ == v@.subrange(lo as int, i as int),
        decreases hi - i,
    {
        out.push(v[i]);
        proof {
            assert(out@ =~= v@.subrange(lo as int, i + 1));
        }
        i = i + 1;
    }
    out
}

impl<S: Scalar> BarWindow<S> {
    /// Whether the window keeps to its bounds.
    pub open spec fn wf(&self) -> bool {
        self@.valid()
    }

    /// An empty window that holds up to `capacity` samples.
    pub fn new(capacity: usize) -> (r: Self)
        requires
            capacity >= 1,
        ensures
            r@ == WindowModel::<S>::fresh(capacity as int),
            r.wf(),
    {
        BarWindow { capacity, bars: 0, items: Vec::new() }
    }

    /// The window after one step: a new bar slides the window, a revision
    /// overwrites the newest sample.
    pub fn advanced(&self, x: S, is_new_bar: bool) -> (r: Self)
        requires
            self.wf(),
        ensures
            r@ == self@.advanced(x, is_new_bar),
            r.wf(),
    {
        let n: usize = self.items.len();
        if is_new_bar {
            let start: usize = if n < self.capacity {
                0
            } else {
                1
            };
            let mut items = copy_range(&self.items, start, n);
            items.push(x);
            let bars: u64 = if self.bars < u64::MAX {
                self.bars + 1
            } else {
                self.bars
            };
            proof {
                assert(self.items@.subrange(0, n as int) =~= self.items@);
            }
            BarWindow { capacity: self.capacity, bars, items }
        } else if n == 0 {
            let mut items: Vec<S> = Vec::new();
            items.push(x);
            proof {
                assert(items@ =~= seq![x]);
            }
            BarWindow { capacity: self.capacity, bars: self.bars, items }
        } else {
            let mut items = copy_range(&self.items, 0, n - 1);
            items.push(x);
            BarWindow { capacity: self.capacity, bars: self.bars, items }
        }
    }

    /// A copy of the window.
    pub fn duplicate(&self) -> (r: Self)
        ensures
            r@ == self@,
    {
        let items = copy_range(&self.items, 0, self.items.len());
        proof {
            assert(self.items@.subrange(0, self.items.len() as int) =~= self.items@);
        }
        BarWindow { capacity: self.capacity, bars: self.bars, items }
    }

    /// Whether as many bars as the capacity were seen.
    pub fn is_ready(&self) -> (r: bool)
        ensures
            r == self@.ready(),
    {
        self.bars >= self.capacity as u64
    }

    /// The number of bars seen so far.
    pub fn bars(&self) -> (r: u64)
        ensures
            r == self@.bars,
    {
        self.bars
    }

    /// The number of samples held.
    pub fn len(&self) -> (r: usize)
        ensures
            r == self@.items.len(),
    {
        self.items.len()
    }

    /// The sample at position `i`, counted from the oldest.
    pub fn get(&self, i: usize) -> (r: S)
        requires
            i < self@.items.len(),
        ensures
            r == self@.items[i as int],
    {
        self.items[i]
    }

    /// The sum of the samples.
    pub fn total(&self) -> (r: S)
        ensures
            r == sum_of(self@.items),
    {
        let mut acc: S = S::from_i64(0);
        let mut i: usize = 0;
        while i < self.items.len()
            invariant
                i <= self.items.len(),
                acc == sum_of(self.items@.take(i as int)),
            decreases self.items.len() - i,
        {
            proof {
                assert(self.items@.take(i + 1).drop_last() =~= self.items@.take(i as int));
            }
            acc = acc.plus(self.items[i]);
            i = i + 1;
        }
        proof {
            assert(self.items@.take(self.items.len() as int) =~= self.items@);
        }
        acc
    }

    /// The sum of the samples with the weights 1, 2, 3, ... from the oldest.
    pub fn weighted_total(&self) -> (r: S)
        requires
            self@.items.len() <= i64::MAX,
        ensures
            r == weighted_sum_of(self@.items),
    {
        let mut acc: S = S::from_i64(0);
        let mut i: usize = 0;
        while i < self.items.len()
            invariant
                i <= self.items.len() <= i64::MAX,
                acc == weighted_sum_of(self.items@.take(i as int)),
            decreases self.items.len() - i,
        {
            proof {
                assert(self.items@.take(i + 1).drop_last() =~= self.items@.take(i as int));
            }
            let weight: i64 = (i + 1) as i64;
            acc = acc.plus(self.items[i].times(S::from_i64(weight)));
            i = i + 1;
        }
        proof {
            assert(self.items@.take(self.items.len() as int) =~= self.items@);
        }
        acc
    }

    /// The largest sample.
    pub fn highest(&self) -> (r: S)
        requires
            self@.items.len() > 0,
        ensures
            r == highest_of(self@.items),
    {
        let mut best: S = self.items[0];
        let mut i: usize = 1;
        proof {
            assert(self.items@.take(1).len() == 1);
        }
        while i < self.items.len()
            invariant
                1 <= i <= self.items.len(),
                best == highest_of(self.items@.take(i as int)),
            decreases self.items.len() - i,
        {
            proof {
                assert(self.items@.take(i + 1).drop_last() =~= self.items@.take(i as int));
            }
            let x: S = self.items[i];
            if best.le(x) {
                best = x;
            }
            i = i + 1;
        }
        proof {
            assert(self.items@.take(self.items.len() as int) =~= self.items@);
        }
        best
    }

    /// The smallest sample.
    pub fn lowest(&self) -> (r: S)
        requires
            self@.items.len() > 0,
        ensures
            r == lowest_of(self@.items),
    {
        let mut best: S = self.items[0];
        let mut i: usize = 1;
        proof {
            assert(self.items@.take(1).len() == 1);
        }
        while i < self.items.len()
            invariant
                1 <= i <= self.items.len(),
                best == lowest_of(self.items@.take(i as int)),
            decreases self.items.len() - i,
        {
            proof {
                assert(self.items@.take(i + 1).drop_last() =~= self.items@.take(i as int));
            }
            let x: S = self.items[i];
            if x.le(best) {
                best = x;
            }
            i = i + 1;
        }
        proof {
            assert(self.items@.take(self.items.len() as int) =~= self.items@);
        }
        best
    }

    /// The sum of the magnitudes of the steps between neighbouring samples.
    pub fn path_length(&self) -> (r: S)
        ensures
            r == path_length_of(self@.items),
    {
        let mut acc: S = S::from_i64(0);
        if self.items.len() == 0 {
            return acc;
        }
        let mut i: usize = 1;
        while i < self.items.len()
            invariant
                1 <= i <= self.items.len(),
                acc == path_length_of(self.items@.take(i as int)),
            decreases self.items.len() - i,
        {
            proof {
                assert(self.items@.take(i + 1).drop_last() =~= self.items@.take(i as int));
            }
            acc = acc.plus(self.items[i].minus(self.items[i - 1]).magnitude());
            i = i + 1;
        }
        proof {
            assert(self.items@.take(self.items.len() as int) =~= self.items@);
        }
        acc
    }
}

} // verus!
