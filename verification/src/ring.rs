//! The report ring consumed by interactive front ends: a window of
//! recent reports at one cadence, and per-graph data sets that fold those
//! reports into fixed-width slots through a selector, an accumulator and
//! an aggregator.
use vstd::prelude::*;

verus! {

/// Keep every timestamp and step well under this, so slot arithmetic
/// stays inside `u64`.
pub const RING_TIME_CAP: u64 = 0x0000_0100_0000_0000;

/// Cadences and steps stay small; one day in seconds is 86400.
pub const RING_CADENCE_CAP: u64 = 100_000;

/// The largest slot step: the stride cap times the cadence cap.
pub const RING_STEP_CAP: u64 = 100_000_000;

/// A ring of loaded reports: strictly ascending, cadence-aligned stamps.
pub struct ReportRing<R> {
    pub ring: Vec<(u64, R)>,
    pub cadence: u64,
    pub tail_cadence: u64,
    pub retention: u64,
}

impl<R> ReportRing<R> {
    pub open spec fn wf(&self) -> bool {
        &&& 0 < self.cadence <= RING_CADENCE_CAP
        &&& 0 < self.tail_cadence <= RING_CADENCE_CAP
        &&& self.retention <= RING_TIME_CAP
        &&& (forall|i: int, j: int|
            0 <= i < j < self.ring@.len() ==> (#[trigger] self.ring@[i].0) < (
            #[trigger] self.ring@[j].0))
        &&& (forall|i: int|
            0 <= i < self.ring@.len() ==> (#[trigger] self.ring@[i].0) <= RING_TIME_CAP)
    }

    pub fn new(cadence: u64, tail_cadence: u64, retention: u64) -> (r: ReportRing<R>)
        requires
            0 < cadence <= RING_CADENCE_CAP,
            0 < tail_cadence <= RING_CADENCE_CAP,
            retention <= RING_TIME_CAP,
        ensures
            r.wf(),
            r.ring@.len() == 0,
            r.cadence == cadence,
            r.tail_cadence == tail_cadence,
            r.retention == retention,
    {
        ReportRing { ring: Vec::new(), cadence, tail_cadence, retention }
    }

    /// Drops entries older than the retention window and says which
    /// stamps to load next: from just after the newest kept entry (or
    /// from the window's start) up to the cadence-aligned present.
    pub fn prune_and_range(&mut self, now: u64) -> (r: (u64, u64))
        requires
            old(self).wf(),
            now <= RING_TIME_CAP,
        ensures
            final(self).wf(),
            final(self).cadence == old(self).cadence,
            final(self).tail_cadence == old(self).tail_cadence,
            final(self).retention == old(self).retention,
            ({
                let now_al = (now as int / old(self).cadence as int) * old(self).cadence as int;
                let start = (spec_sat_sub_ring(now_al, old(self).retention as int) / old(
                    self,
                ).tail_cadence as int) * old(self).tail_cadence as int;
                &&& r.1 as int == now_al
                &&& (forall|i: int|
                    0 <= i < final(self).ring@.len() ==> (#[trigger] final(self).ring@[i].0)
                        >= start)
                &&& (final(self).ring@.len() > 0 ==> r.0 as int
                    == final(self).ring@[final(self).ring@.len() - 1].0 + old(self).cadence)
                &&& (final(self).ring@.len() == 0 ==> r.0 as int == start)
                &&& (exists|k: int|
                    0 <= k <= old(self).ring@.len() && final(self).ring@ == old(
                        self,
                    ).ring@.skip(k))
            }),
    {
        proof {
            assert((now as int / self.cadence as int) * self.cadence as int <= now as int && (
            now as int / self.cadence as int) * self.cadence as int >= 0) by (nonlinear_arith)
                requires
                    self.cadence > 0,
                    now >= 0,
            ;
        }
        let now_al = now / self.cadence * self.cadence;
        let horizon = now_al.saturating_sub(self.retention);
        proof {
            assert((horizon as int / self.tail_cadence as int) * self.tail_cadence as int
                <= horizon as int && (horizon as int / self.tail_cadence as int)
                * self.tail_cadence as int >= 0) by (nonlinear_arith)
                requires
                    self.tail_cadence > 0,
                    horizon >= 0,
            ;
        }
        let start = horizon / self.tail_cadence * self.tail_cadence;
        let mut k: usize = 0;
        while k < self.ring.len() && self.ring[k].0 < start
            invariant
                k <= self.ring@.len(),
                forall|i: int| 0 <= i < k ==> (#[trigger] self.ring@[i].0) < start,
            decreases self.ring@.len() - k,
        {
            k = k + 1;
        }
        let kept = self.ring.split_off(k);
        self.ring = kept;
        proof {
            assert(forall|i: int, j: int|
                0 <= i < j < self.ring@.len() ==> (#[trigger] self.ring@[i].0) < (
                #[trigger] self.ring@[j].0)) by {
                assert(forall|i: int|
                    0 <= i < self.ring@.len() ==> #[trigger] self.ring@[i] == old(
                        self,
                    ).ring@[k + i]);
            }
        }
        let load_from = if self.ring.len() > 0 {
            self.ring[self.ring.len() - 1].0 + self.cadence
        } else {
            start
        };
        (load_from, now_al)
    }

    /// Appends one freshly loaded report.
    pub fn push_loaded(&mut self, at: u64, rep: R)
        requires
            old(self).wf(),
            at <= RING_TIME_CAP,
            old(self).ring@.len() > 0 ==> at > old(self).ring@[old(self).ring@.len() - 1].0,
        ensures
            final(self).wf(),
            final(self).ring@.len() == old(self).ring@.len() + 1,
            forall|i: int|
                0 <= i < old(self).ring@.len() ==> #[trigger] final(self).ring@[i] == old(
                    self,
                ).ring@[i],
            final(self).ring@[old(self).ring@.len() as int].0 == at,
            final(self).cadence == old(self).cadence,
            final(self).tail_cadence == old(self).tail_cadence,
            final(self).retention == old(self).retention,
    {
        self.ring.push((at, rep));
    }
}

pub open spec fn spec_max0(a: int) -> int {
    if a >= 0 {
        a
    } else {
        0
    }
}

pub open spec fn spec_sat_sub_ring(a: int, b: int) -> int {
    if a >= b {
        a - b
    } else {
        0
    }
}

/// How a graph reads the report stream: a selector picking its value out
/// of one report, an accumulator merging values of one slot, and an
/// aggregator turning a slot's accumulation into its final value. Each
/// executable method is held to its spec twin, so a graph's slots can be
/// stated exactly.
pub trait ReportDataOps<R, T>: Sized {
    spec fn spec_zero(&self) -> T;

    spec fn spec_sel(&self, rep: R) -> T;

    spec fn spec_acc(&self, acc: T, v: T) -> T;

    spec fn spec_aggr(&self, acc: T, nr_samples: int) -> T;

    fn zero(&self) -> (r: T)
        ensures
            r == self.spec_zero(),
    ;

    fn sel(&self, rep: &R) -> (r: T)
        ensures
            r == self.spec_sel(*rep),
    ;

    fn acc(&self, acc: &mut T, v: &T)
        ensures
            *final(acc) == self.spec_acc(*old(acc), *v),
    ;

    fn aggr(&self, acc: &mut T, nr_samples: usize)
        ensures
            *final(acc) == self.spec_aggr(*old(acc), nr_samples as int),
    ;
}

/// The slot ring and the open tip, as one mathematical state.
pub struct FillState<T> {
    pub slots: Seq<Option<T>>,
    pub tip_at: int,
    pub tip_data: T,
    pub tip_nr: int,
}

/// Closing the tip: its aggregation (or an empty slot when nothing was
/// sampled) joins the slots and the tip advances one step.
pub open spec fn spec_consume<R, T, O: ReportDataOps<R, T>>(
    ops: O,
    st: FillState<T>,
    step: int,
) -> FillState<T> {
    FillState {
        slots: st.slots.push(
            if st.tip_nr > 0 {
                Some(ops.spec_aggr(st.tip_data, st.tip_nr))
            } else {
                None
            },
        ),
        tip_at: st.tip_at + step,
        tip_data: ops.spec_zero(),
        tip_nr: 0,
    }
}

/// Closing slots until the tip reaches the window holding `at`.
pub open spec fn spec_catch_up<R, T, O: ReportDataOps<R, T>>(
    ops: O,
    st: FillState<T>,
    at: int,
    step: int,
) -> FillState<T>
    decreases (if at - st.tip_at >= 0 {
        at - st.tip_at
    } else {
        0
    })
        when step >= 1
{
    if st.tip_at >= at {
        st
    } else {
        spec_catch_up(ops, spec_consume(ops, st, step), at, step)
    }
}

/// What feeding one source record does: empty windows up to the record's
/// window are closed, the selected value is accumulated, and a record on
/// its window's last sub-slot closes the window.
pub open spec fn spec_feed<R, T, O: ReportDataOps<R, T>>(
    ops: O,
    st: FillState<T>,
    rec_at: int,
    rep: R,
    step: int,
    stride: int,
    cadence: int,
) -> FillState<T> {
    let at = (rec_at / step) * step;
    let st0 = if st.tip_at == 0 {
        FillState { tip_at: at, ..st }
    } else {
        st
    };
    let st1 = spec_catch_up(ops, st0, at, step);
    let st2 = FillState {
        tip_data: ops.spec_acc(st1.tip_data, ops.spec_sel(rep)),
        tip_nr: if st1.tip_nr < usize::MAX as int {
            st1.tip_nr + 1
        } else {
            st1.tip_nr
        },
        ..st1
    };
    if rec_at % step == (stride - 1) * cadence && st2.tip_at <= rec_at {
        spec_consume(ops, st2, step)
    } else {
        st2
    }
}

/// Feeding a run of source records, oldest first.
pub open spec fn spec_feed_all<R, T, O: ReportDataOps<R, T>>(
    ops: O,
    st: FillState<T>,
    recs: Seq<(u64, R)>,
    step: int,
    stride: int,
    cadence: int,
) -> FillState<T>
    decreases recs.len(),
{
    if recs.len() == 0 {
        st
    } else {
        spec_feed(
            ops,
            spec_feed_all(ops, st, recs.drop_last(), step, stride, cadence),
            recs.last().0 as int,
            recs.last().1,
            step,
            stride,
            cadence,
        )
    }
}

/// How many leading records fall before the cutoff.
pub open spec fn spec_first_at<R>(ring: Seq<(u64, R)>, cutoff: int) -> int
    decreases ring.len(),
{
    if ring.len() == 0 {
        0
    } else if (ring[0].0 as int) < cutoff {
        1 + spec_first_at(ring.skip(1), cutoff)
    } else {
        0
    }
}

proof fn lemma_first_at<R>(ring: Seq<(u64, R)>, cutoff: int, k: int)
    requires
        0 <= k <= ring.len(),
        forall|j: int| 0 <= j < k ==> (#[trigger] ring[j].0 as int) < cutoff,
        k == ring.len() || ring[k].0 as int >= cutoff,
    ensures
        spec_first_at(ring, cutoff) == k,
    decreases ring.len(),
{
    if k == 0 {
    } else {
        assert((ring[0].0 as int) < cutoff);
        assert(forall|j: int|
            0 <= j < k - 1 ==> (#[trigger] ring.skip(1)[j].0 as int) < cutoff) by {
            assert(forall|j: int|
                0 <= j < ring.len() - 1 ==> #[trigger] ring.skip(1)[j] == ring[j + 1]);
        }
        if k < ring.len() {
            assert(ring.skip(1)[k - 1] == ring[k]);
        }
        lemma_first_at(ring.skip(1), cutoff, k - 1);
    }
}

/// The newest `n` slots.
pub open spec fn spec_truncate<T>(s: Seq<Option<T>>, n: int) -> Seq<Option<T>> {
    if s.len() > n {
        s.skip(s.len() - n)
    } else {
        s
    }
}

/// What one fill owes: over the (possibly cleared) prior state, the spec
/// fold of every source record at or after the cutoff, truncated to the
/// slot budget.
pub open spec fn spec_fill_result<T, O: ReportDataOps<u64, T>>(
    pre: ReportData<T, O>,
    post: ReportData<T, O>,
    stride: u64,
    nr_slots: usize,
    src_ring: Seq<(u64, u64)>,
    cadence: u64,
) -> bool {
    let ops = pre.ops;
    let cfg_changed = !(stride == pre.stride && nr_slots == pre.nr_slots && pre.src_cadence
        == cadence);
    let step = stride as int * cadence as int;
    let st0 = FillState {
        slots: if cfg_changed {
            Seq::<Option<T>>::empty()
        } else {
            pre.data_ring@
        },
        tip_at: if cfg_changed {
            0
        } else {
            pre.tip_at as int
        },
        tip_data: if cfg_changed {
            ops.spec_zero()
        } else {
            pre.tip_data
        },
        tip_nr: if cfg_changed {
            0
        } else {
            pre.tip_nr as int
        },
    };
    let base_next: int = if cfg_changed {
        0
    } else {
        pre.next_src_at as int
    };
    let newest = src_ring[src_ring.len() - 1].0 as int;
    let floor = spec_max0((newest / step) * step - nr_slots as int * step);
    let cutoff = if base_next >= floor {
        base_next
    } else {
        floor
    };
    let fin = spec_feed_all(
        ops,
        st0,
        src_ring.skip(spec_first_at(src_ring, cutoff)),
        step,
        stride as int,
        cadence as int,
    );
    &&& (src_ring.len() == 0 ==> post.state() == (FillState {
        slots: spec_truncate(st0.slots, nr_slots as int),
        ..st0
    }) && post.next_src_at as int == base_next)
    &&& (src_ring.len() > 0 ==> post.state() == (FillState {
        slots: spec_truncate(fin.slots, nr_slots as int),
        ..fin
    }))
}

/// One graph's slotted data: a ring of aggregated slots plus the open
/// tip slot still accumulating.
pub struct ReportData<T, O> {
    pub ops: O,
    pub next_src_at: u64,
    pub tip_at: u64,
    pub tip_data: T,
    pub tip_nr: usize,
    pub data_ring: Vec<Option<T>>,
    pub stride: u64,
    pub nr_slots: usize,
    pub src_cadence: u64,
    pub step: u64,
}

impl<T, O> ReportData<T, O> {
    pub open spec fn wf(&self) -> bool {
        &&& self.step == self.stride * self.src_cadence
        &&& self.stride <= 1000
        &&& self.src_cadence <= RING_CADENCE_CAP
        &&& self.step <= RING_STEP_CAP
        &&& self.next_src_at <= RING_TIME_CAP as int + RING_STEP_CAP as int
        &&& self.tip_at <= RING_TIME_CAP as int + RING_STEP_CAP as int
        &&& (self.step >= 1 ==> self.tip_at as int % self.step as int == 0)
    }

    /// The slot ring and tip as the specs speak of them.
    pub open spec fn state(&self) -> FillState<T> {
        FillState {
            slots: self.data_ring@,
            tip_at: self.tip_at as int,
            tip_data: self.tip_data,
            tip_nr: self.tip_nr as int,
        }
    }

    pub fn new(ops: O) -> (r: ReportData<T, O>) where T: Default
        ensures
            r.wf(),
            r.data_ring@.len() == 0,
            r.next_src_at == 0,
            r.stride == 0,
            r.nr_slots == 0,
    {
        ReportData {
            ops,
            next_src_at: 0,
            tip_at: 0,
            tip_data: T::default(),
            tip_nr: 0,
            data_ring: Vec::new(),
            stride: 0,
            nr_slots: 0,
            src_cadence: 0,
            step: 0,
        }
    }

    /// The slot a stamp belongs to.
    fn align(&self, at: u64) -> (r: u64)
        requires
            self.wf(),
            self.step > 0,
            at <= RING_TIME_CAP as int + RING_STEP_CAP as int,
        ensures
            r as int == (at as int / self.step as int) * self.step as int,
            r <= at,
            r as int % self.step as int == 0,
    {
        proof {
            assert((at as int / self.step as int) * self.step as int <= at as int && (at as int
                / self.step as int) * self.step as int >= 0 && ((at as int / self.step as int)
                * self.step as int) % self.step as int == 0) by (nonlinear_arith)
                requires
                    self.step > 0,
                    at >= 0,
            ;
        }
        at / self.step * self.step
    }

    /// Closes the open tip slot, exactly as the spec consume does.
    fn consume_tip(&mut self) where O: ReportDataOps<u64, T>
        requires
            old(self).wf(),
            old(self).step > 0,
            old(self).tip_at + old(self).step <= RING_TIME_CAP as int + RING_STEP_CAP as int,
        ensures
            final(self).wf(),
            final(self).state() == spec_consume(
                old(self).ops,
                old(self).state(),
                old(self).step as int,
            ),
            final(self).tip_at == old(self).tip_at + old(self).step,
            final(self).ops == old(self).ops,
            final(self).next_src_at == old(self).next_src_at,
            final(self).stride == old(self).stride,
            final(self).nr_slots == old(self).nr_slots,
            final(self).src_cadence == old(self).src_cadence,
            final(self).step == old(self).step,
    {
        let nr = self.tip_nr;
        let mut data = self.ops.zero();
        core::mem::swap(&mut self.tip_data, &mut data);
        if nr > 0 {
            self.ops.aggr(&mut data, nr);
            self.data_ring.push(Some(data));
        } else {
            self.data_ring.push(None);
        }
        proof {
            assert(self.step >= 1 ==> ((self.tip_at as int + self.step as int)
                % self.step as int) == (self.tip_at as int % self.step as int)) by (
            nonlinear_arith);
        }
        self.tip_at = self.tip_at + self.step;
        self.tip_nr = 0;
        proof {
            assert(self.state().slots =~= spec_consume(
                old(self).ops,
                old(self).state(),
                old(self).step as int,
            ).slots);
        }
    }

    /// Folds the new entries of the source ring into the slot ring:
    /// reconfiguration clears everything; otherwise only reports at or
    /// after `next_src_at` are consumed. The resulting slots and tip are
    /// exactly the spec fold of the consumed records over the (possibly
    /// cleared) prior state, truncated to the slot budget.
    pub fn fill(&mut self, stride: u64, nr_slots: usize, src: &ReportRing<u64>) where
        O: ReportDataOps<u64, T>,
        T: Default,

        requires
            old(self).wf(),
            src.wf(),
            0 < stride <= 1000,
            nr_slots <= 100_000,
        ensures
            final(self).wf(),
            final(self).ops == old(self).ops,
            final(self).stride == stride,
            final(self).nr_slots == nr_slots,
            final(self).src_cadence == src.cadence,
            final(self).step == stride * src.cadence,
            final(self).data_ring@.len() <= nr_slots,
            src.ring@.len() > 0 ==> final(self).next_src_at == src.ring@[src.ring@.len() - 1].0
                + src.cadence,
            spec_fill_result(*old(self), *final(self), stride, nr_slots, src.ring@, src.cadence),
    {
        let ghost ops = self.ops;
        let ghost cfg_changed = !(stride == self.stride && nr_slots == self.nr_slots
            && self.src_cadence == src.cadence);
        if !(stride == self.stride && nr_slots == self.nr_slots && self.src_cadence == src.cadence) {
            self.next_src_at = 0;
            self.tip_at = 0;
            self.tip_data = self.ops.zero();
            self.tip_nr = 0;
            self.data_ring = Vec::new();
            self.stride = stride;
            self.nr_slots = nr_slots;
            self.src_cadence = src.cadence;
            proof {
                assert(stride as int * src.cadence as int <= 1000 * (RING_CADENCE_CAP as int)) by (
                nonlinear_arith)
                    requires
                        0 < stride <= 1000,
                        0 < src.cadence <= RING_CADENCE_CAP,
                ;
            }
            self.step = stride * src.cadence;
        }
        let ghost st0 = self.state();
        let ghost base_next: int = self.next_src_at as int;
        proof {
            if cfg_changed {
                assert(st0.slots =~= Seq::<Option<T>>::empty());
            }
        }
        if src.ring.len() == 0 {
            self.truncate_to_budget(nr_slots);
            return ;
        }
        proof {
            assert(self.step >= 1) by (nonlinear_arith)
                requires
                    self.step == self.stride * self.src_cadence,
                    self.stride >= 1,
                    self.src_cadence >= 1,
            ;
        }
        let newest = src.ring[src.ring.len() - 1].0;
        // no slot older than the window contributes: skip ahead
        proof {
            assert(nr_slots as int * self.step as int <= 100_000 * (RING_STEP_CAP as int)) by (
            nonlinear_arith)
                requires
                    nr_slots <= 100_000,
                    self.step <= RING_STEP_CAP,
            ;
        }
        let window_wide: u128 = nr_slots as u128 * self.step as u128;
        let window: u64 = if window_wide > u64::MAX as u128 {
            u64::MAX
        } else {
            window_wide as u64
        };
        let newest_al = self.align(newest);
        let floor = newest_al.saturating_sub(window);
        if self.next_src_at < floor {
            self.next_src_at = floor;
        }
        let ghost cutoff: int = self.next_src_at as int;
        // scan for the first new record
        let mut start: usize = 0;
        while start < src.ring.len() && src.ring[start].0 < self.next_src_at
            invariant
                start <= src.ring@.len(),
                cutoff == self.next_src_at as int,
                forall|j: int| 0 <= j < start ==> (#[trigger] src.ring@[j].0 as int) < cutoff,
            decreases src.ring@.len() - start,
        {
            start = start + 1;
        }
        proof {
            lemma_first_at(src.ring@, cutoff, start as int);
        }
        self.next_src_at = newest + src.cadence;
        let ghost step_g: int = self.step as int;
        let mut i: usize = start;
        proof {
            assert(src.ring@.subrange(start as int, start as int) =~= Seq::<(u64, u64)>::empty());
        }
        while i < src.ring.len()
            invariant
                src.wf(),
                self.wf(),
                0 < stride <= 1000,
                self.step >= 1,
                self.ops == ops,
                self.stride == stride,
                self.nr_slots == nr_slots,
                self.src_cadence == src.cadence,
                step_g == self.step as int,
                self.next_src_at == newest + src.cadence,
                newest == src.ring@[src.ring@.len() - 1].0,
                start <= i <= src.ring@.len(),
                self.tip_at <= RING_TIME_CAP as int + RING_STEP_CAP as int,
                self.state() == spec_feed_all(
                    ops,
                    st0,
                    src.ring@.subrange(start as int, i as int),
                    step_g,
                    stride as int,
                    src.cadence as int,
                ),
            decreases src.ring@.len() - i,
        {
            proof {
                assert(src.ring@[i as int].0 <= RING_TIME_CAP);
            }
            let ghost pre_st = self.state();
            let rec_at = src.ring[i].0;
            let at = self.align(rec_at);
            if self.tip_at == 0 {
                self.tip_at = at;
            }
            let ghost st_a = self.state();
            let ghost goal = spec_catch_up(ops, st_a, at as int, step_g);
            while self.tip_at < at
                invariant
                    self.wf(),
                    self.step >= 1,
                    self.ops == ops,
                    step_g == self.step as int,
                    self.stride == stride,
                    self.nr_slots == nr_slots,
                    self.src_cadence == src.cadence,
                    self.next_src_at == newest + src.cadence,
                    at <= RING_TIME_CAP,
                    at as int % self.step as int == 0,
                    self.tip_at <= RING_TIME_CAP as int + RING_STEP_CAP as int,
                    spec_catch_up(ops, self.state(), at as int, step_g) == goal,
                decreases at - self.tip_at,
            {
                proof {
                    assert(spec_catch_up(ops, self.state(), at as int, step_g) == spec_catch_up(
                        ops,
                        spec_consume(ops, self.state(), step_g),
                        at as int,
                        step_g,
                    ));
                }
                self.consume_tip();
                proof {
                    if self.tip_at < at + self.step && self.tip_at > at {
                        // two multiples of the step cannot sit strictly between
                        assert(false) by (nonlinear_arith)
                            requires
                                self.step >= 1,
                                self.tip_at as int % self.step as int == 0,
                                at as int % self.step as int == 0,
                                at < self.tip_at,
                                self.tip_at < at + self.step,
                        ;
                    }
                }
            }
            proof {
                assert(self.state() == goal);
            }
            let v = self.ops.sel(&src.ring[i].1);
            let mut tip = T::default();
            core::mem::swap(&mut self.tip_data, &mut tip);
            self.ops.acc(&mut tip, &v);
            self.tip_data = tip;
            if self.tip_nr < usize::MAX {
                self.tip_nr = self.tip_nr + 1;
            }
            proof {
                assert(self.state() == (FillState {
                    tip_data: ops.spec_acc(goal.tip_data, ops.spec_sel(src.ring@[i as int].1)),
                    tip_nr: if goal.tip_nr < usize::MAX as int {
                        goal.tip_nr + 1
                    } else {
                        goal.tip_nr
                    },
                    ..goal
                }));
            }
            // a record on the last sub-slot of its slot closes the slot
            proof {
                assert((stride - 1) as int * src.cadence as int <= 1000 * (
                RING_CADENCE_CAP as int)) by (nonlinear_arith)
                    requires
                        0 < stride <= 1000,
                        0 < src.cadence <= RING_CADENCE_CAP,
                ;
                assert((rec_at as int % self.step as int) >= 0 && (rec_at as int
                    % self.step as int) < self.step as int) by (nonlinear_arith)
                    requires
                        self.step >= 1,
                        rec_at >= 0,
                ;
            }
            let boundary = rec_at % self.step == (stride - 1) * src.cadence;
            if boundary && self.tip_at <= rec_at {
                self.consume_tip();
            }
            i = i + 1;
            proof {
                let done = src.ring@.subrange(start as int, i as int);
                assert(done.drop_last() =~= src.ring@.subrange(start as int, i - 1));
                assert(done.last() == src.ring@[i - 1]);
                assert(self.state() == spec_feed(
                    ops,
                    pre_st,
                    src.ring@[i - 1].0 as int,
                    src.ring@[i - 1].1,
                    step_g,
                    stride as int,
                    src.cadence as int,
                ));
            }
        }
        proof {
            assert(src.ring@.subrange(start as int, src.ring@.len() as int) =~= src.ring@.skip(
                start as int,
            ));
        }
        // keep only the newest slots
        let ghost fin = self.state();
        self.truncate_to_budget(nr_slots);
        proof {
            assert(self.state() == (FillState {
                slots: spec_truncate(fin.slots, nr_slots as int),
                ..fin
            }));
        }
    }

    /// Drops the oldest slots beyond the budget.
    fn truncate_to_budget(&mut self, nr_slots: usize)
        ensures
            final(self).data_ring@.len() <= nr_slots,
            final(self).data_ring@ == spec_truncate(old(self).data_ring@, nr_slots as int),
            final(self).ops == old(self).ops,
            final(self).tip_at == old(self).tip_at,
            final(self).tip_data == old(self).tip_data,
            final(self).tip_nr == old(self).tip_nr,
            final(self).next_src_at == old(self).next_src_at,
            final(self).stride == old(self).stride,
            final(self).nr_slots == old(self).nr_slots,
            final(self).src_cadence == old(self).src_cadence,
            final(self).step == old(self).step,
    {
        if self.data_ring.len() > nr_slots {
            let cut = self.data_ring.len() - nr_slots;
            let kept = self.data_ring.split_off(cut);
            self.data_ring = kept;
        }
    }

    /// The stamp of the newest closed slot.
    pub fn latest_at(&self) -> (r: u64)
        ensures
            r == (if self.next_src_at > self.step {
                (self.next_src_at - self.step) as u64
            } else {
                0u64
            }),
    {
        if self.next_src_at > self.step {
            self.next_src_at - self.step
        } else {
            0
        }
    }

    /// The slots oldest first, each with the stamp its window ends at.
    pub fn iter(&self) -> (r: Vec<(u64, Option<&T>)>)
        requires
            self.wf(),
            self.data_ring@.len() * self.step <= self.next_src_at,
        ensures
            r@.len() == self.data_ring@.len(),
            forall|i: int|
                0 <= i < r@.len() ==> (#[trigger] r@[i].0) as int == self.next_src_at as int - (
                self.data_ring@.len() - i) * self.step as int,
            forall|i: int|
                0 <= i < r@.len() ==> ((#[trigger] r@[i].1) is Some <==> self.data_ring@[i]
                    is Some),
            forall|i: int|
                0 <= i < r@.len() && (#[trigger] r@[i].1) is Some ==> *r@[i].1->0
                    == self.data_ring@[i]->0,
    {
        let mut r: Vec<(u64, Option<&T>)> = Vec::new();
        let n = self.data_ring.len();
        let mut i: usize = 0;
        while i < n
            invariant
                self.wf(),
                n == self.data_ring@.len(),
                n * self.step <= self.next_src_at,
                i <= n,
                r@.len() == i,
                forall|j: int|
                    0 <= j < i ==> (#[trigger] r@[j].0) as int == self.next_src_at as int - (n
                        - j) * self.step as int,
                forall|j: int|
                    0 <= j < i ==> ((#[trigger] r@[j].1) is Some <==> self.data_ring@[j]
                        is Some),
                forall|j: int|
                    0 <= j < i && (#[trigger] r@[j].1) is Some ==> *r@[j].1->0
                        == self.data_ring@[j]->0,
            decreases n - i,
        {
            proof {
                assert((n - i) * self.step as int <= n * self.step as int) by (nonlinear_arith)
                    requires
                        0 <= i <= n,
                        self.step >= 0,
                ;
                assert((n - i) * self.step as int >= self.step as int || i == n) by (
                nonlinear_arith)
                    requires
                        0 <= i < n,
                        self.step >= 0,
                ;
                assert((n - (i + 1)) * self.step as int == (n - i) * self.step as int
                    - self.step as int) by (nonlinear_arith);
            }
            let back_wide: u128 = (n - i) as u128 * self.step as u128;
            let back: u64 = if back_wide > u64::MAX as u128 {
                u64::MAX
            } else {
                back_wide as u64
            };
            let at = self.next_src_at - back;
            r.push((at, self.data_ring[i].as_ref()));
            i = i + 1;
        }
        r
    }
}

/// A value summed across a slot and averaged on aggregation: the ops the
/// built-in graphs use.
pub struct MeanOps {}

impl ReportDataOps<u64, u64> for MeanOps {
    open spec fn spec_zero(&self) -> u64 {
        0
    }

    open spec fn spec_sel(&self, rep: u64) -> u64 {
        rep
    }

    open spec fn spec_acc(&self, acc: u64, v: u64) -> u64 {
        if acc as int + v as int > u64::MAX as int {
            u64::MAX
        } else {
            (acc + v) as u64
        }
    }

    open spec fn spec_aggr(&self, acc: u64, nr_samples: int) -> u64 {
        if nr_samples > 0 {
            (acc as int / nr_samples) as u64
        } else {
            acc
        }
    }

    fn zero(&self) -> (r: u64) {
        0
    }

    fn sel(&self, rep: &u64) -> (r: u64) {
        *rep
    }

    fn acc(&self, acc: &mut u64, v: &u64) {
        *acc = acc.saturating_add(*v);
    }

    fn aggr(&self, acc: &mut u64, nr_samples: usize) {
        if nr_samples > 0 {
            *acc = *acc / (nr_samples as u64);
        }
    }
}

/// The second-cadence and minute-cadence rings a front end reads.
pub struct ReportRingSet<R> {
    pub sec_ring: ReportRing<R>,
    pub min_ring: ReportRing<R>,
}

impl<R> ReportRingSet<R> {
    pub fn new(rep_retention: u64, rep_1min_retention: u64) -> (r: ReportRingSet<R>)
        requires
            rep_retention <= RING_TIME_CAP,
            rep_1min_retention <= RING_TIME_CAP,
        ensures
            r.sec_ring.wf(),
            r.min_ring.wf(),
            r.sec_ring.cadence == 1 && r.sec_ring.tail_cadence == 60,
            r.min_ring.cadence == 60 && r.min_ring.tail_cadence == 60,
    {
        ReportRingSet {
            sec_ring: ReportRing::new(1, 60, rep_retention),
            min_ring: ReportRing::new(60, 60, rep_1min_retention),
        }
    }
}

/// One graph over both rings: fine slots from the second ring, and the
/// span beyond it from the minute ring.
pub struct ReportDataSet<T, O> {
    pub sec_data: ReportData<T, O>,
    pub min_data: ReportData<T, O>,
}

impl<T, O> ReportDataSet<T, O> {
    pub fn new(sec_ops: O, min_ops: O) -> (r: ReportDataSet<T, O>) where T: Default
        ensures
            r.sec_data.wf(),
            r.min_data.wf(),
    {
        ReportDataSet { sec_data: ReportData::new(sec_ops), min_data: ReportData::new(min_ops) }
    }

    /// Fills both graphs for a window of `span` seconds at `stride`
    /// seconds per slot: the second ring covers what it holds, the
    /// minute ring the rest at a stride of whole minutes.
    pub fn fill(&mut self, stride: u64, span: u64, src: &ReportRingSet<u64>) where
        O: ReportDataOps<u64, T>,
        T: Default,

        requires
            old(self).sec_data.wf(),
            old(self).min_data.wf(),
            src.sec_ring.wf(),
            src.min_ring.wf(),
            src.sec_ring.cadence == 1,
            src.min_ring.cadence == 60,
            0 < stride <= 1000,
            span <= 100_000 * stride,
        ensures
            final(self).sec_data.wf(),
            final(self).min_data.wf(),
            final(self).sec_data.nr_slots as int == span as int / stride as int,
            final(self).sec_data.stride == stride,
            spec_fill_result(
                old(self).sec_data,
                final(self).sec_data,
                stride,
                (span as int / stride as int) as usize,
                src.sec_ring.ring@,
                1,
            ),
            span <= src.sec_ring.ring@.len() ==> final(self).min_data == old(self).min_data,
            span > src.sec_ring.ring@.len() ==> ({
                let rest = span as int - src.sec_ring.ring@.len();
                let min_stride = ((stride as int + 59) / 60) as u64;
                let raw = rest / 60 / min_stride as int;
                let min_slots = (if raw > 100_000 {
                    100_000int
                } else {
                    raw
                }) as usize;
                &&& final(self).min_data.stride == min_stride
                &&& final(self).min_data.nr_slots == min_slots
                &&& spec_fill_result(
                    old(self).min_data,
                    final(self).min_data,
                    min_stride,
                    min_slots,
                    src.min_ring.ring@,
                    60,
                )
            }),
    {
        proof {
            assert(span as int / stride as int <= 100_000) by (nonlinear_arith)
                requires
                    0 < stride,
                    span <= 100_000 * stride,
            ;
            assert(span as int / stride as int >= 0) by (nonlinear_arith)
                requires
                    0 < stride,
                    span >= 0,
            ;
        }
        let nr_slots = (span / stride) as usize;
        self.sec_data.fill(stride, nr_slots, &src.sec_ring);

        let src_sec_len = src.sec_ring.ring.len() as u64;
        if span > src_sec_len {
            let rest = span - src_sec_len;
            let min_stride = (stride + 59) / 60;
            proof {
                assert(0 < (stride as int + 59) / 60 && (stride as int + 59) / 60 <= 1000) by (
                nonlinear_arith)
                    requires
                        0 < stride <= 1000,
                ;
                assert(rest as int / 60 / ((stride as int + 59) / 60) >= 0) by (nonlinear_arith)
                    requires
                        rest >= 0,
                        (stride as int + 59) / 60 >= 1,
                ;
            }
            let min_slots_raw = rest / 60 / min_stride;
            let min_slots = (if min_slots_raw > 100_000 {
                100_000
            } else {
                min_slots_raw
            }) as usize;
            self.min_data.fill(min_stride, min_slots, &src.min_ring);
        }
    }

    /// The stamp of the newest closed fine slot.
    pub fn latest_at(&self) -> (r: u64)
        ensures
            r == (if self.sec_data.next_src_at > self.sec_data.step {
                (self.sec_data.next_src_at - self.sec_data.step) as u64
            } else {
                0u64
            }),
    {
        self.sec_data.latest_at()
    }

    /// All slots oldest first: the minute ring's, then the second
    /// ring's.
    pub fn iter(&self) -> (r: Vec<(u64, Option<&T>)>)
        requires
            self.sec_data.wf(),
            self.min_data.wf(),
            self.sec_data.data_ring@.len() * self.sec_data.step <= self.sec_data.next_src_at,
            self.min_data.data_ring@.len() * self.min_data.step <= self.min_data.next_src_at,
        ensures
            r@.len() == self.min_data.data_ring@.len() + self.sec_data.data_ring@.len(),
            forall|i: int|
                0 <= i < self.min_data.data_ring@.len() ==> ((#[trigger] r@[i].0) as int == self
                    .min_data
                    .next_src_at as int - (self.min_data.data_ring@.len() - i)
                    * self.min_data.step as int && (r@[i].1 is Some <==> self
                    .min_data
                    .data_ring@[i] is Some)),
            forall|i: int|
                self.min_data.data_ring@.len() <= i < r@.len() ==> ((#[trigger] r@[i].0) as int
                    == self.sec_data.next_src_at as int - (r@.len() - i)
                    * self.sec_data.step as int && (r@[i].1 is Some <==> self
                    .sec_data
                    .data_ring@[i - self.min_data.data_ring@.len()] is Some)),
    {
        let mut r = self.min_data.iter();
        let mut tail = self.sec_data.iter();
        let ghost head = r@;
        let ghost tail0 = tail@;
        r.append(&mut tail);
        proof {
            assert(forall|i: int| 0 <= i < head.len() ==> #[trigger] r@[i] == head[i]);
            assert(forall|i: int|
                0 <= i < tail0.len() ==> #[trigger] r@[head.len() + i] == tail0[i]);
        }
        r
    }
}

} // verus!
