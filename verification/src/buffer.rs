//! Circular buffer of XY samples shared with the display side.
//!
//! The buffer keeps the last `capacity` samples pushed into it.  Reads return
//! the stored window oldest-to-newest.  A ghost history of everything pushed
//! since creation (or the last clear) ties the stored window to the pushes:
//! after at least `capacity` pushes the window is exactly the last `capacity`
//! pushed samples, and the most recent `n` samples come back in push order.

use vstd::prelude::*;

verus! {

/// A 2D point representing an XY sample: left channel = X, right channel = Y.
#[derive(Clone, Copy, Debug, PartialEq, Eq, Structural)]
pub struct XYSample {
    pub x: i64,
    pub y: i64,
}

impl XYSample {
    pub fn new(x: i64, y: i64) -> (r: Self)
        ensures
            r.x == x && r.y == y,
    {
        XYSample { x, y }
    }
}

impl Default for XYSample {
    /// The equilibrium sample at the origin.
    fn default() -> (r: Self)
        ensures
            r == (XYSample { x: 0, y: 0 }),
    {
        XYSample { x: 0, y: 0 }
    }
}

/// A sequence of `n` equilibrium samples.
pub open spec fn zero_samples(n: int) -> Seq<XYSample> {
    Seq::new(n as nat, |i: int| XYSample { x: 0, y: 0 })
}

/// The window a buffer of capacity `cap` holds after `history` was pushed
/// into it, oldest first: the last `cap` pushes, left-padded with
/// equilibrium samples while fewer than `cap` were pushed.
pub open spec fn window_of(history: Seq<XYSample>, cap: int) -> Seq<XYSample> {
    if history.len() >= cap {
        history.subrange(history.len() - cap, history.len() as int)
    } else {
        zero_samples(cap - history.len()) + history
    }
}

/// Circular buffer of XY samples.
///
/// A single producer overwrites the oldest slot on each push; readers copy
/// the whole window out.  Cross-thread sharing and the non-blocking lock
/// discipline live outside this type; the buffer itself is the verified
/// storage and ordering core.
pub struct SampleBuffer {
    /// Circular storage, always `capacity` slots.
    samples: Vec<XYSample>,
    /// Next slot to overwrite.
    write_pos: usize,
    /// Number of samples written since creation.
    samples_written: u64,
    /// Everything pushed since creation or the last clear, in order.
    history: Ghost<Seq<XYSample>>,
}

impl SampleBuffer {
    /// Number of slots.
    pub closed spec fn capacity_spec(&self) -> int {
        self.samples@.len() as int
    }

    /// All samples pushed since creation or the last clear, in push order.
    pub closed spec fn history(&self) -> Seq<XYSample> {
        self.history@
    }

    /// Total number of samples written since creation.
    pub closed spec fn written(&self) -> int {
        self.samples_written as int
    }

    /// The stored slots in oldest-to-newest order.
    closed spec fn raw_window(&self) -> Seq<XYSample> {
        self.samples@.subrange(self.write_pos as int, self.samples@.len() as int)
            + self.samples@.subrange(0, self.write_pos as int)
    }

    /// Structural invariant tying the slots to the push history.
    pub closed spec fn wf(&self) -> bool {
        &&& self.samples@.len() > 0
        &&& (self.write_pos as int) < self.samples@.len()
        &&& self.write_pos as int == self.history@.len() as int % self.capacity_spec()
        &&& self.raw_window() == window_of(self.history@, self.capacity_spec())
    }

    /// Create a new sample buffer with the given capacity.
    pub fn new(capacity: usize) -> (r: Self)
        requires
            capacity > 0,
        ensures
            r.wf(),
            r.capacity_spec() == capacity,
            r.history() == Seq::<XYSample>::empty(),
            r.written() == 0,
    {
        let mut samples: Vec<XYSample> = Vec::new();
        let mut i: usize = 0;
        while i < capacity
            invariant
                i <= capacity,
                samples@ =~= zero_samples(i as int),
            decreases capacity - i,
        {
            samples.push(XYSample { x: 0, y: 0 });
            proof {
                assert(samples@ =~= zero_samples(i as int + 1));
            }
            i = i + 1;
        }
        let r = SampleBuffer { samples, write_pos: 0, samples_written: 0, history: Ghost(Seq::empty()) };
        proof {
            assert(r.raw_window() =~= window_of(r.history@, r.capacity_spec()));
        }
        r
    }

    /// Overwrites the oldest slot and advances the cursor.
    fn store(&mut self, sample: XYSample)
        requires
            old(self).wf(),
        ensures
            final(self).wf(),
            final(self).capacity_spec() == old(self).capacity_spec(),
            final(self).history() == old(self).history().push(sample),
            final(self).written() == old(self).written(),
    {
        let cap: usize = self.samples.len();
        let pos: usize = self.write_pos;
        self.samples.set(pos, sample);
        self.write_pos = (pos + 1) % cap;
        proof {
            let gs = self.history@;
            self.history = Ghost(gs.push(sample));
            lemma_store_window(old(self).samples@, old(self).history@, sample);
            vstd::arithmetic::div_mod::lemma_add_mod_noop(gs.len() as int, 1, cap as int);
            if cap as int > 1 {
                vstd::arithmetic::div_mod::lemma_small_mod(1nat, cap as nat);
            } else {
                vstd::arithmetic::div_mod::lemma_mod_pos_bound(gs.len() as int + 1, 1);
                vstd::arithmetic::div_mod::lemma_mod_pos_bound(gs.len() as int % 1 + 1, 1);
            }
        }
    }

    /// Push a single XY sample into the buffer, overwriting the oldest slot.
    pub fn push(&mut self, sample: XYSample)
        requires
            old(self).wf(),
            old(self).written() < u64::MAX,
        ensures
            final(self).wf(),
            final(self).capacity_spec() == old(self).capacity_spec(),
            final(self).history() == old(self).history().push(sample),
            final(self).written() == old(self).written() + 1,
    {
        self.store(sample);
        self.samples_written = self.samples_written + 1;
    }

    /// Push a batch of XY samples, in order.
    pub fn push_slice(&mut self, samples: &Vec<XYSample>)
        requires
            old(self).wf(),
            old(self).written() + samples@.len() <= u64::MAX,
        ensures
            final(self).wf(),
            final(self).capacity_spec() == old(self).capacity_spec(),
            final(self).history() == old(self).history() + samples@,
            final(self).written() == old(self).written() + samples@.len(),
    {
        let mut i: usize = 0;
        while i < samples.len()
            invariant
                i <= samples@.len(),
                self.wf(),
                self.capacity_spec() == old(self).capacity_spec(),
                self.history() == old(self).history() + samples@.subrange(0, i as int),
                self.written() == old(self).written(),
            decreases samples@.len() - i,
        {
            self.store(samples[i]);
            proof {
                assert(old(self).history() + samples@.subrange(0, i as int + 1)
                    =~= (old(self).history() + samples@.subrange(0, i as int)).push(samples@[i as int]));
            }
            i = i + 1;
        }
        proof {
            assert(samples@.subrange(0, samples@.len() as int) =~= samples@);
        }
        self.samples_written = self.samples_written + samples.len() as u64;
    }

    /// Get the whole stored window in chronological order (oldest first).
    ///
    /// Once at least `capacity` samples were pushed, this is exactly the last
    /// `capacity` pushed samples, oldest first.
    pub fn get_samples(&self) -> (r: Vec<XYSample>)
        requires
            self.wf(),
        ensures
            r@ == window_of(self.history(), self.capacity_spec()),
            r@.len() == self.capacity_spec(),
            self.history().len() >= self.capacity_spec() ==> r@ == self.history().subrange(
                self.history().len() - self.capacity_spec(),
                self.history().len() as int,
            ),
    {
        let cap: usize = self.samples.len();
        let mut result: Vec<XYSample> = Vec::new();
        let mut i: usize = 0;
        while i < cap
            invariant
                i <= cap,
                cap == self.samples@.len(),
                self.wf(),
                result@ =~= self.raw_window().subrange(0, i as int),
            decreases cap - i,
        {
            let idx: usize = if i < cap - self.write_pos {
                self.write_pos + i
            } else {
                i - (cap - self.write_pos)
            };
            proof {
                if (i as int) < cap as int - self.write_pos as int {
                    assert(self.raw_window()[i as int] == self.samples@[self.write_pos + i]);
                } else {
                    assert(self.raw_window()[i as int] == self.samples@[i as int - (cap as int
                        - self.write_pos as int)]);
                }
            }
            result.push(self.samples[idx]);
            proof {
                assert(result@ =~= self.raw_window().subrange(0, i as int + 1));
            }
            i = i + 1;
        }
        proof {
            assert(result@ =~= self.raw_window());
        }
        result
    }

    /// Get the most recent `count` samples, oldest of them first.
    ///
    /// When `count` is within both the capacity and what was pushed so far,
    /// the result is exactly the last `count` pushed samples, in push order.
    pub fn get_recent_samples(&self, count: usize) -> (r: Vec<XYSample>)
        requires
            self.wf(),
        ensures
            r@ == window_of(self.history(), self.capacity_spec()).skip(
                self.capacity_spec() - min_int(count as int, self.capacity_spec()),
            ),
            count <= self.capacity_spec() && count <= self.history().len() ==> r@
                == self.history().subrange(
                self.history().len() - count,
                self.history().len() as int,
            ),
    {
        let cap: usize = self.samples.len();
        let count: usize = if count < cap {
            count
        } else {
            cap
        };
        let mut result: Vec<XYSample> = Vec::new();
        let mut i: usize = 0;
        while i < count
            invariant
                i <= count,
                count <= cap,
                cap == self.samples@.len(),
                self.wf(),
                result@ =~= self.raw_window().subrange(cap - count, cap - count + i),
            decreases count - i,
        {
            let jj: usize = cap - count + i;
            let idx: usize = if jj < cap - self.write_pos {
                self.write_pos + jj
            } else {
                jj - (cap - self.write_pos)
            };
            proof {
                if (jj as int) < cap as int - self.write_pos as int {
                    assert(self.raw_window()[jj as int] == self.samples@[self.write_pos + jj]);
                } else {
                    assert(self.raw_window()[jj as int] == self.samples@[jj as int - (cap as int
                        - self.write_pos as int)]);
                }
            }
            result.push(self.samples[idx]);
            proof {
                assert(result@ =~= self.raw_window().subrange(cap - count, cap - count + i + 1));
            }
            i = i + 1;
        }
        proof {
            assert(self.raw_window().subrange(cap as int - count as int, cap as int)
                =~= window_of(self.history(), self.capacity_spec()).skip(
                cap as int - min_int(count as int, cap as int)));
            if count <= self.history().len() {
                assert(self.raw_window().subrange(cap as int - count as int, cap as int)
                    =~= self.history().subrange(
                    self.history().len() - count,
                    self.history().len() as int,
                ));
            }
        }
        result
    }

    /// Get the total number of samples written since creation.
    pub fn samples_written(&self) -> (r: u64)
        ensures
            r == self.written(),
    {
        self.samples_written
    }

    /// Clear the buffer (fill with equilibrium samples).
    pub fn clear(&mut self)
        requires
            old(self).wf(),
        ensures
            final(self).wf(),
            final(self).capacity_spec() == old(self).capacity_spec(),
            final(self).history() == Seq::<XYSample>::empty(),
            final(self).written() == old(self).written(),
    {
        let cap: usize = self.samples.len();
        let mut i: usize = 0;
        while i < cap
            invariant
                i <= cap,
                cap == self.samples@.len(),
                forall|j: int| 0 <= j < i ==> self.samples@[j] == (XYSample { x: 0, y: 0 }),
                self.write_pos == old(self).write_pos,
                self.samples_written == old(self).samples_written,
                self.history == old(self).history,
            decreases cap - i,
        {
            self.samples.set(i, XYSample { x: 0, y: 0 });
            i = i + 1;
        }
        self.write_pos = 0;
        proof {
            self.history = Ghost(Seq::empty());
            assert(self.raw_window() =~= window_of(self.history@, self.capacity_spec()));
        }
    }
}

/// Minimum of two integers.
pub open spec fn min_int(a: int, b: int) -> int {
    if a < b {
        a
    } else {
        b
    }
}

/// Storing one sample rotates the window: the new window is the old window
/// without its oldest entry, with the new sample appended.
proof fn lemma_store_window(samples: Seq<XYSample>, history: Seq<XYSample>, sample: XYSample)
    requires
        samples.len() > 0,
        samples.subrange(history.len() as int % samples.len() as int, samples.len() as int)
            + samples.subrange(0, history.len() as int % samples.len() as int)
            == window_of(history, samples.len() as int),
    ensures
        ({
            let cap = samples.len() as int;
            let w = history.len() as int % cap;
            let w2 = (w + 1) % cap;
            let samples2 = samples.update(w, sample);
            samples2.subrange(w2, cap) + samples2.subrange(0, w2) == window_of(
                history.push(sample),
                cap,
            )
        }),
{
    let cap = samples.len() as int;
    let n = history.len() as int;
    let w = n % cap;
    let w2 = (w + 1) % cap;
    let samples2 = samples.update(w, sample);
    let old_window = samples.subrange(w, cap) + samples.subrange(0, w);
    let new_window = samples2.subrange(w2, cap) + samples2.subrange(0, w2);
    vstd::arithmetic::div_mod::lemma_mod_pos_bound(n, cap);
    if w + 1 < cap {
        vstd::arithmetic::div_mod::lemma_small_mod((w + 1) as nat, cap as nat);
    } else {
        vstd::arithmetic::div_mod::lemma_mod_self_0(cap);
    }
    assert forall|k: int| 0 <= k < cap - 1 implies new_window[k] == old_window[k + 1] by {
        if w + 1 < cap {
            if k < cap - 1 - w {
                assert(new_window[k] == samples2[w + 1 + k]);
            } else {
                assert(new_window[k] == samples2[k - (cap - 1 - w)]);
            }
        } else {
            assert(w2 == 0);
            assert(new_window[k] == samples2[k]);
        }
    };
    assert(new_window[cap - 1] == sample) by {
        if w + 1 < cap {
            assert(new_window[cap - 1] == samples2.subrange(0, w2)[w]);
        } else {
            assert(new_window[cap - 1] == samples2.subrange(w2, cap)[cap - 1]);
        }
    }
    let expected2 = window_of(history.push(sample), cap);
    assert(expected2.len() == cap);
    assert forall|k: int| 0 <= k < cap - 1 implies expected2[k] == window_of(history, cap)[k + 1] by {
        if n + 1 >= cap {
            if n >= cap {
                assert(expected2[k] == history.push(sample)[n + 1 - cap + k]);
                assert(window_of(history, cap)[k + 1] == history[n - cap + k + 1]);
            } else {
                assert(n + 1 == cap);
                assert(expected2[k] == history.push(sample)[k]);
            }
        }
    };
    assert(expected2[cap - 1] == sample) by {
        if n + 1 >= cap {
            assert(expected2[cap - 1] == history.push(sample)[n]);
        }
    }
    assert(new_window =~= expected2);
}

} // verus!
