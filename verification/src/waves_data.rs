//! Running total ledger: one cumulative counter indexed by height.
//!
//! Each appended `(height, delta)` pair stores, at its height, the value of
//! the nearest strictly lower recorded height (the seed row with no height,
//! or zero, if none) plus the delta.  A height already recorded is left
//! alone, so rows must arrive in ascending height order and one at a time —
//! each value depends on its immediate predecessor.

use vstd::prelude::*;

verus! {

/// One delta to apply: the height it lands on and the change in quantity.
#[derive(Clone, Copy, Debug, PartialEq, Eq, Structural)]
pub struct WavesData {
    pub height: i32,
    pub quantity: i64,
}

/// One stored row: a height (or none, for the seed row) and the cumulative
/// quantity standing there.
#[derive(Clone, Copy, Debug, PartialEq, Eq, Structural)]
pub struct TotalRow {
    pub height: Option<i32>,
    pub quantity: i64,
}

/// The mathematical image of a stored row: unbounded height and quantity.
pub type GhostRow = (Option<int>, int);

/// The mathematical image of one delta.
pub type GhostDelta = (int, int);

/// The deltas of a batch, as unbounded integers.
pub open spec fn data_view(data: Seq<WavesData>) -> Seq<GhostDelta> {
    data.map_values(|d: WavesData| (d.height as int, d.quantity as int))
}

/// Whether some row stands at height `h`.
pub open spec fn has_height(rows: Seq<GhostRow>, h: int) -> bool {
    exists|i: int| 0 <= i < rows.len() && (#[trigger] rows[i]).0 == Some(h)
}

/// The predecessor bookkeeping for height `h`: the first row holding the
/// greatest height strictly below `h`, and the first row with no height.
pub open spec fn prev_state(rows: Seq<GhostRow>, h: int) -> (Option<GhostDelta>, Option<int>)
    decreases rows.len(),
{
    if rows.len() == 0 {
        (None, None)
    } else {
        let rest = prev_state(rows.skip(1), h);
        let best = match rows[0].0 {
            Some(g) => if g < h {
                match rest.0 {
                    Some(m) => if m.0 > g {
                        rest.0
                    } else {
                        Some((g, rows[0].1))
                    },
                    None => Some((g, rows[0].1)),
                }
            } else {
                rest.0
            },
            None => rest.0,
        };
        let null_q = match rows[0].0 {
            None => Some(rows[0].1),
            Some(_) => rest.1,
        };
        (best, null_q)
    }
}

/// The value the row inserted at height `h` starts from: the nearest lower
/// height's value, else the seed row's value, else zero.
pub open spec fn prev_total(rows: Seq<GhostRow>, h: int) -> int {
    let (best, null_q) = prev_state(rows, h);
    match best {
        Some(m) => m.1,
        None => match null_q {
            Some(q) => q,
            None => 0,
        },
    }
}

/// The table after applying a batch of deltas in order: a recorded height
/// is skipped; a new one stores predecessor value plus delta.
pub open spec fn apply_totals(rows: Seq<GhostRow>, data: Seq<GhostDelta>) -> Seq<GhostRow>
    decreases data.len(),
{
    if data.len() == 0 {
        rows
    } else {
        let (h, delta) = data[0];
        let rows2 = if has_height(rows, h) {
            rows
        } else {
            rows.push((Some(h), prev_total(rows, h) + delta))
        };
        apply_totals(rows2, data.skip(1))
    }
}

/// Whether every value the batch stores stays representable.
pub open spec fn totals_ok(rows: Seq<GhostRow>, data: Seq<GhostDelta>) -> bool
    decreases data.len(),
{
    if data.len() == 0 {
        true
    } else {
        let (h, delta) = data[0];
        if has_height(rows, h) {
            totals_ok(rows, data.skip(1))
        } else {
            let v = prev_total(rows, h) + delta;
            i64::MIN <= v <= i64::MAX && totals_ok(
                rows.push((Some(h), v)),
                data.skip(1),
            )
        }
    }
}

/// Applying a split batch in two goes equals applying it whole, and it is
/// representable iff both halves are.
pub proof fn lemma_totals_append(rows: Seq<GhostRow>, a: Seq<GhostDelta>, b: Seq<GhostDelta>)
    ensures
        apply_totals(rows, a + b) == apply_totals(apply_totals(rows, a), b),
        totals_ok(rows, a + b) == (totals_ok(rows, a) && totals_ok(apply_totals(rows, a), b)),
    decreases a.len(),
{
    if a.len() == 0 {
        assert(a + b =~= b);
    } else {
        let ab = a + b;
        assert(ab[0] == a[0]);
        assert(ab.skip(1) =~= a.skip(1) + b);
        let (h, delta) = a[0];
        let rows2 = if has_height(rows, h) {
            rows
        } else {
            rows.push((Some(h), prev_total(rows, h) + delta))
        };
        lemma_totals_append(rows2, a.skip(1), b);
    }
}

/// A one-delta batch unfolds to one conditional append.
pub proof fn lemma_totals_single(rows: Seq<GhostRow>, dl: GhostDelta)
    ensures
        apply_totals(rows, seq![dl]) == if has_height(rows, dl.0) {
            rows
        } else {
            rows.push((Some(dl.0), prev_total(rows, dl.0) + dl.1))
        },
        totals_ok(rows, seq![dl]) == (has_height(rows, dl.0) || i64::MIN <= prev_total(rows, dl.0)
            + dl.1 <= i64::MAX),
{
    let s = seq![dl];
    let rows2 = if has_height(rows, dl.0) {
        rows
    } else {
        rows.push((Some(dl.0), prev_total(rows, dl.0) + dl.1))
    };
    assert(s.skip(1) =~= Seq::<GhostDelta>::empty());
    assert(apply_totals(rows2, Seq::<GhostDelta>::empty()) == rows2);
    assert(totals_ok(rows2, Seq::<GhostDelta>::empty()));
    assert(apply_totals(rows, s) == apply_totals(rows2, s.skip(1)));
}

/// Replaying a batch over its own result changes nothing: every height it
/// carries is recorded afterwards, so each replayed delta is skipped.
pub proof fn lemma_totals_idempotent(rows: Seq<GhostRow>, data: Seq<GhostDelta>)
    ensures
        apply_totals(apply_totals(rows, data), data) == apply_totals(rows, data),
    decreases data.len(),
{
    let after = apply_totals(rows, data);
    lemma_totals_heights(rows, data);
    lemma_totals_noop(rows, after, data);
}

/// Every height of the batch is recorded after the batch is applied.
proof fn lemma_totals_heights(rows: Seq<GhostRow>, data: Seq<GhostDelta>)
    ensures
        forall|k: int|
            0 <= k < data.len() ==> has_height(apply_totals(rows, data), (#[trigger] data[k]).0),
        forall|h: int| has_height(rows, h) ==> has_height(apply_totals(rows, data), h),
    decreases data.len(),
{
    if data.len() == 0 {
    } else {
        let (h, delta) = data[0];
        let rows2 = if has_height(rows, h) {
            rows
        } else {
            rows.push((Some(h), prev_total(rows, h) + delta))
        };
        assert forall|g: int| has_height(rows, g) implies has_height(rows2, g) by {
            let i = choose|i: int| 0 <= i < rows.len() && (#[trigger] rows[i]).0 == Some(g);
            assert(rows2[i].0 == Some(g));
        }
        assert(has_height(rows2, h)) by {
            if has_height(rows, h) {
            } else {
                assert(rows2[rows.len() as int].0 == Some(h));
            }
        }
        lemma_totals_heights(rows2, data.skip(1));
        assert(forall|k: int|
            0 <= k < data.skip(1).len() ==> #[trigger] data.skip(1)[k] == data[k + 1]);
        assert forall|k: int| 0 <= k < data.len() implies has_height(
            apply_totals(rows, data),
            (#[trigger] data[k]).0,
        ) by {
            assert(apply_totals(rows, data) == apply_totals(rows2, data.skip(1)));
            if k == 0 {
                assert(has_height(apply_totals(rows2, data.skip(1)), h));
            } else {
                assert(data.skip(1)[k - 1] == data[k]);
                assert(has_height(apply_totals(rows2, data.skip(1)), data.skip(1)[k - 1].0));
            }
        }
    }
}

/// A batch whose every height is already recorded changes nothing.
proof fn lemma_totals_noop(orig: Seq<GhostRow>, rows: Seq<GhostRow>, data: Seq<GhostDelta>)
    requires
        forall|k: int| 0 <= k < data.len() ==> has_height(rows, (#[trigger] data[k]).0),
    ensures
        apply_totals(rows, data) == rows,
    decreases data.len(),
{
    if data.len() != 0 {
        assert(has_height(rows, data[0].0));
        assert(forall|k: int|
            0 <= k < data.skip(1).len() ==> #[trigger] data.skip(1)[k] == data[k + 1]);
        lemma_totals_noop(orig, rows, data.skip(1));
    }
}

/// The running-total table.
pub struct RunningTotals {
    pub rows: Vec<TotalRow>,
}

impl View for RunningTotals {
    type V = Seq<GhostRow>;

    open spec fn view(&self) -> Seq<GhostRow> {
        self.rows@.map_values(
            |r: TotalRow|
                (
                    match r.height {
                        Some(h) => Some(h as int),
                        None => None,
                    },
                    r.quantity as int,
                ),
        )
    }
}

impl RunningTotals {
    /// An empty table.
    pub fn new() -> (s: RunningTotals)
        ensures
            s@ == Seq::<GhostRow>::empty(),
            s.rows@ == Seq::<TotalRow>::empty(),
    {
        let s = RunningTotals { rows: Vec::new() };
        proof {
            assert(s@ =~= Seq::<GhostRow>::empty());
        }
        s
    }

    /// Applies the deltas in order, one statement each: a recorded height is
    /// skipped, a new one stores its predecessor's value plus the delta.
    /// The first value that leaves the representable range stops the batch
    /// with an overflow error, everything before it applied.
    pub fn insert_waves_data(&mut self, waves_data: &Vec<WavesData>) -> (r: Result<
        (),
        crate::StoreError,
    >)
        ensures
            r is Ok <==> totals_ok(old(self)@, data_view(waves_data@)),
            r is Ok ==> final(self)@ == apply_totals(old(self)@, data_view(waves_data@)),
            r is Err ==> r == Result::<(), crate::StoreError>::Err(
                crate::StoreError::ArithmeticOverflow,
            ) && exists|k: int|
                0 <= k < data_view(waves_data@).len() && totals_ok(
                    old(self)@,
                    #[trigger] data_view(waves_data@).take(k),
                ) && !totals_ok(old(self)@, data_view(waves_data@).take(k + 1)) && final(self)@
                == apply_totals(old(self)@, data_view(waves_data@).take(k)),
    {
        let ghost orig = self@;
        let ghost dv = data_view(waves_data@);
        let mut i: usize = 0;
        while i < waves_data.len()
            invariant
                0 <= i <= waves_data@.len(),
                orig == old(self)@,
                dv == data_view(waves_data@),
                self@ == apply_totals(orig, dv.take(i as int)),
                totals_ok(orig, dv.take(i as int)),
            decreases waves_data@.len() - i,
        {
            let d = &waves_data[i];
            let ghost pre = self@;
            proof {
                lemma_totals_append(orig, dv.take(i as int), seq![dv[i as int]]);
                assert(dv.take(i as int) + seq![dv[i as int]] =~= dv.take(i as int + 1));
                lemma_totals_single(pre, dv[i as int]);
            }
            if !self.has_height(d.height) {
                let prev = self.prev_total_at(d.height);
                match prev.checked_add(d.quantity) {
                    Some(q) => {
                        self.rows.push(TotalRow { height: Some(d.height), quantity: q });
                        proof {
                            assert(self@ =~= pre.push((Some(d.height as int), q as int)));
                        }
                    },
                    None => {
                        proof {
                            assert(!totals_ok(pre, seq![dv[i as int]]));
                            assert(!totals_ok(orig, dv.take(i as int + 1)));
                            lemma_totals_append(orig, dv.take(i as int + 1), dv.skip(i as int + 1));
                            assert(dv.take(i as int + 1) + dv.skip(i as int + 1) =~= dv);
                            assert(!totals_ok(orig, dv));
                            assert(totals_ok(orig, dv.take(i as int)) && !totals_ok(
                                orig,
                                dv.take(i as int + 1),
                            ) && self@ == apply_totals(orig, dv.take(i as int)));
                        }
                        return Err(crate::StoreError::ArithmeticOverflow);
                    },
                }
            }
            proof {
                assert(self@ == apply_totals(pre, seq![dv[i as int]]));
                assert(totals_ok(pre, seq![dv[i as int]]));
            }
            i += 1;
        }
        proof {
            assert(dv.take(dv.len() as int) =~= dv);
        }
        Ok(())
    }

    /// Whether a row already stands at height `h`.
    fn has_height(&self, h: i32) -> (b: bool)
        ensures
            b == has_height(self@, h as int),
    {
        let mut i: usize = 0;
        let mut found = false;
        while i < self.rows.len()
            invariant
                0 <= i <= self.rows@.len(),
                found == exists|k: int| 0 <= k < i && (#[trigger] self@[k]).0 == Some(h as int),
            decreases self.rows@.len() - i,
        {
            let row = &self.rows[i];
            match row.height {
                Some(g) => {
                    if g == h {
                        found = true;
                        assert(self@[i as int].0 == Some(h as int));
                    }
                },
                None => {},
            }
            i += 1;
        }
        found
    }

    /// The value a new row at height `h` starts from.
    fn prev_total_at(&self, h: i32) -> (q: i64)
        ensures
            q as int == prev_total(self@, h as int),
    {
        let mut best: Option<(i32, i64)> = None;
        let mut null_q: Option<i64> = None;
        let mut i: usize = self.rows.len();
        proof {
            assert(self@.skip(self.rows@.len() as int) =~= Seq::<GhostRow>::empty());
        }
        while i > 0
            invariant
                0 <= i <= self.rows@.len(),
                prev_state(self@.skip(i as int), h as int) == ({
                    let b = match best {
                        Some((g, q)) => Some((g as int, q as int)),
                        None => None,
                    };
                    let n = match null_q {
                        Some(q) => Some(q as int),
                        None => None,
                    };
                    (b, n)
                }),
            decreases i,
        {
            let ghost rest = self@.skip(i as int - 1);
            proof {
                assert(rest[0] == self@[i as int - 1]);
                assert(rest.skip(1) =~= self@.skip(i as int));
            }
            let row = &self.rows[i - 1];
            match row.height {
                Some(g) => {
                    if g < h {
                        match best {
                            Some((bg, _)) => {
                                if g >= bg {
                                    best = Some((g, row.quantity));
                                }
                            },
                            None => {
                                best = Some((g, row.quantity));
                            },
                        }
                    }
                },
                None => {
                    null_q = Some(row.quantity);
                },
            }
            i -= 1;
        }
        proof {
            assert(self@.skip(0) =~= self@);
        }
        match best {
            Some((_, q)) => q,
            None => match null_q {
                Some(q) => q,
                None => 0,
            },
        }
    }
}

/// The cumulative sum of the first `n` deltas of a batch.
pub open spec fn delta_sum(data: Seq<GhostDelta>, n: int) -> int
    decreases n,
{
    if n <= 0 {
        0
    } else {
        delta_sum(data, n - 1) + data[n - 1].1
    }
}

/// Heights strictly ascending across the batch.
pub open spec fn ascending(data: Seq<GhostDelta>) -> bool {
    forall|i: int, j: int| 0 <= i < j < data.len() ==> (#[trigger] data[i]).0 < (
    #[trigger] data[j]).0
}

/// The rows the first `p` deltas of an ascending batch lay down on an empty
/// table: each height carrying its prefix sum.
pub open spec fn total_rows(data: Seq<GhostDelta>, p: int) -> Seq<GhostRow> {
    Seq::new(p as nat, |j: int| (Some(data[j].0), delta_sum(data, j + 1)))
}

/// On a table of strictly ascending recorded heights all below `h`, the
/// predecessor of `h` is the last row, and there is no seed row.
proof fn lemma_prev_state_ascending(rows: Seq<GhostRow>, h: int)
    requires
        forall|i: int| 0 <= i < rows.len() ==> (#[trigger] rows[i]).0 is Some,
        forall|i: int| 0 <= i < rows.len() ==> (#[trigger] rows[i]).0->0 < h,
        forall|i: int, j: int|
            0 <= i < j < rows.len() ==> (#[trigger] rows[i]).0->0 < (#[trigger] rows[j]).0->0,
    ensures
        prev_state(rows, h) == if rows.len() == 0 {
            (None::<GhostDelta>, None::<int>)
        } else {
            (Some((rows.last().0->0, rows.last().1)), None::<int>)
        },
    decreases rows.len(),
{
    if rows.len() == 0 {
    } else {
        assert(forall|i: int|
            0 <= i < rows.skip(1).len() ==> #[trigger] rows.skip(1)[i] == rows[i + 1]);
        lemma_prev_state_ascending(rows.skip(1), h);
        if rows.len() == 1 {
            assert(rows.last() == rows[0]);
        } else {
            assert(rows.skip(1).last() == rows.last());
            assert(rows[0].0->0 < rows.last().0->0);
        }
    }
}

/// Induction step: with the first `p` deltas laid down, the remaining
/// ascending deltas extend the table row for row with their prefix sums.
proof fn lemma_running_total_step(data: Seq<GhostDelta>, p: int)
    requires
        ascending(data),
        0 <= p <= data.len(),
    ensures
        apply_totals(total_rows(data, p), data.skip(p)) == total_rows(data, data.len() as int),
    decreases data.len() - p,
{
    let rows = total_rows(data, p);
    if p == data.len() {
        assert(data.skip(p) =~= Seq::<GhostDelta>::empty());
        assert(rows =~= total_rows(data, data.len() as int));
    } else {
        let rest = data.skip(p);
        assert(rest[0] == data[p]);
        let h = data[p].0;
        let d = data[p].1;
        assert(forall|i: int|
            0 <= i < rows.len() ==> (#[trigger] rows[i]) == (
            Some(data[i].0),
            delta_sum(data, i + 1),
            ));
        assert(!has_height(rows, h)) by {
            if has_height(rows, h) {
                let i = choose|i: int| 0 <= i < rows.len() && (#[trigger] rows[i]).0 == Some(h);
                assert(data[i].0 < data[p].0);
            }
        }
        lemma_prev_state_ascending(rows, h);
        let prev = prev_total(rows, h);
        if p == 0 {
            assert(delta_sum(data, 0) == 0);
            assert(prev == 0);
        } else {
            assert(rows.last() == (Some(data[p - 1].0), delta_sum(data, p)));
            assert(prev == delta_sum(data, p));
        }
        let rows2 = rows.push((Some(h), prev + d));
        assert(delta_sum(data, p + 1) == delta_sum(data, p) + data[p].1);
        assert(prev + d == delta_sum(data, p + 1));
        assert(rows2 =~= total_rows(data, p + 1));
        assert(rest.skip(1) =~= data.skip(p + 1));
        lemma_running_total_step(data, p + 1);
        assert(apply_totals(rows, rest) == apply_totals(rows2, rest.skip(1)));
    }
}

/// Running-total correctness: a batch of strictly ascending heights applied
/// to an empty table stores, at each height, the sum of all deltas at or
/// below that height.
pub proof fn lemma_running_total(data: Seq<GhostDelta>)
    requires
        ascending(data),
    ensures
        apply_totals(Seq::<GhostRow>::empty(), data).len() == data.len(),
        forall|k: int|
            0 <= k < data.len() ==> apply_totals(Seq::<GhostRow>::empty(), data)[k] == ((
            Some((#[trigger] data[k]).0),
            delta_sum(data, k + 1),
            )),
{
    assert(Seq::<GhostRow>::empty() =~= total_rows(data, 0));
    assert(data.skip(0) =~= data);
    lemma_running_total_step(data, 0);
}

} // verus!
