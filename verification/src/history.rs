//! Bounded sliding window of recent rate samples: append-only at the
//! back, with the single oldest element evicted once the configured
//! capacity is reached (ring-buffer semantics).

use vstd::prelude::*;

verus! {

/// One push onto a window of capacity `cap`: append, evicting the
/// oldest element first when the window is already full. A window of
/// capacity zero stays empty.
pub open spec fn spec_push(s: Seq<u64>, v: u64, cap: nat) -> Seq<u64> {
    if cap == 0 {
        s
    } else if s.len() < cap {
        s.push(v)
    } else {
        s.drop_first().push(v)
    }
}

/// All of `vs` pushed in order onto `s`.
pub open spec fn spec_push_all(s: Seq<u64>, vs: Seq<u64>, cap: nat) -> Seq<u64>
    decreases vs.len(),
{
    if vs.len() == 0 {
        s
    } else {
        spec_push_all(spec_push(s, vs[0], cap), vs.drop_first(), cap)
    }
}

/// The last `cap` elements of `s`, or all of `s` if it is shorter.
pub open spec fn last_window(s: Seq<u64>, cap: nat) -> Seq<u64> {
    if s.len() <= cap {
        s
    } else {
        s.subrange(s.len() - cap, s.len() as int)
    }
}

/// Fixed-capacity sliding window of rate samples, oldest first.
pub struct HistoryBuffer {
    data: Vec<u64>,
    cap: usize,
}

impl HistoryBuffer {
    /// The window's contents, oldest first.
    pub closed spec fn view(&self) -> Seq<u64> {
        self.data@
    }

    /// The configured capacity.
    pub closed spec fn spec_capacity(&self) -> nat {
        self.cap as nat
    }

    /// The window never holds more elements than its capacity.
    pub open spec fn wf(&self) -> bool {
        self.view().len() <= self.spec_capacity()
    }

    /// An empty window with the given fixed capacity.
    pub fn new(capacity: usize) -> (h: Self)
        ensures
            h.wf(),
            h.view() == Seq::<u64>::empty(),
            h.spec_capacity() == capacity,
    {
        HistoryBuffer { data: Vec::new(), cap: capacity }
    }

    pub fn capacity(&self) -> (c: usize)
        ensures
            c == self.spec_capacity(),
    {
        self.cap
    }

    pub fn len(&self) -> (n: usize)
        ensures
            n == self.view().len(),
    {
        self.data.len()
    }

    /// Appends `sample`, evicting the single oldest element first if the
    /// window is already at capacity.
    pub fn push(&mut self, sample: u64)
        requires
            old(self).wf(),
        ensures
            final(self).wf(),
            final(self).view() == spec_push(old(self).view(), sample, old(self).spec_capacity()),
            final(self).spec_capacity() == old(self).spec_capacity(),
    {
        if self.cap == 0 {
            return ;
        }
        if self.data.len() == self.cap {
            self.data.remove(0);
            assert(self.data@ =~= old(self).view().drop_first());
        }
        self.data.push(sample);
    }

    /// A read-only ordered copy of the window, oldest first.
    pub fn snapshot(&self) -> (r: Vec<u64>)
        ensures
            r@ == self.view(),
    {
        let mut r: Vec<u64> = Vec::new();
        let n = self.data.len();
        for i in 0..n
            invariant
                n == self.data@.len(),
                r@ =~= self.data@.take(i as int),
        {
            r.push(self.data[i]);
            assert(r@ =~= self.data@.take(i + 1));
        }
        assert(r@ =~= self.data@);
        r
    }
}

/// Pushing never grows the window beyond its capacity.
pub proof fn lemma_push_bounded(s: Seq<u64>, v: u64, cap: nat)
    requires
        s.len() <= cap,
    ensures
        spec_push(s, v, cap).len() <= cap,
{
}

/// Law: however many values are pushed, a window that started within
/// its capacity never exceeds it.
pub proof fn lemma_push_all_bounded(s: Seq<u64>, vs: Seq<u64>, cap: nat)
    requires
        s.len() <= cap,
    ensures
        spec_push_all(s, vs, cap).len() <= cap,
    decreases vs.len(),
{
    if vs.len() > 0 {
        lemma_push_bounded(s, vs[0], cap);
        lemma_push_all_bounded(spec_push(s, vs[0], cap), vs.drop_first(), cap);
    }
}

/// Law: pushing `vs` onto a well-formed window leaves exactly the last
/// `cap` elements of the old contents followed by `vs`, in arrival
/// order.
pub proof fn lemma_push_all_window(s: Seq<u64>, vs: Seq<u64>, cap: nat)
    requires
        s.len() <= cap,
        cap >= 1,
    ensures
        spec_push_all(s, vs, cap) =~= last_window(s + vs, cap),
    decreases vs.len(),
{
    if vs.len() == 0 {
        assert(s + vs =~= s);
    } else {
        let s1 = spec_push(s, vs[0], cap);
        lemma_push_all_window(s1, vs.drop_first(), cap);
        if s.len() < cap {
            assert(s1 + vs.drop_first() =~= s + vs);
        } else {
            assert(s1 + vs.drop_first() =~= (s + vs).drop_first());
            let t = s + vs;
            assert(last_window(t.drop_first(), cap) =~= last_window(t, cap));
        }
    }
}

/// Law: after `cap + k` pushes onto an initially empty window, the
/// window holds exactly the last `cap` pushed values, in arrival order.
pub proof fn lemma_window_after_overflow(vs: Seq<u64>, cap: nat)
    requires
        cap >= 1,
        vs.len() >= cap,
    ensures
        spec_push_all(Seq::<u64>::empty(), vs, cap) =~= vs.subrange(
            vs.len() - cap,
            vs.len() as int,
        ),
{
    lemma_push_all_window(Seq::<u64>::empty(), vs, cap);
    assert(Seq::<u64>::empty() + vs =~= vs);
}

} // verus!
