//! The statistical studies run over a sweep point's report period: the
//! vrate mean and percentiles, and the adjusted memory-offload metrics
//! derived from the protection benchmark's final stable size.
use vstd::prelude::*;
use vstd::relations::{sorted_by, total_ordering};
use vstd::seq_lib::lemma_multiset_commutative;
use vstd::seq_lib::lemma_sorted_unique;
use crate::report_file::spec_sat_sum;
use crate::sweep::{IoCostQoSRecordRun, ProtectionRecord, StorageResult};

verus! {

pub open spec fn u64_le() -> spec_fn(u64, u64) -> bool {
    |a: u64, b: u64| a <= b
}

/// The ascending ordering of a sample set.
pub open spec fn spec_sorted_of(s: Seq<u64>) -> Seq<u64> {
    s.sort_by(u64_le())
}

proof fn lemma_u64_le_total()
    ensures
        total_ordering(u64_le()),
{
    let le = u64_le();
    assert forall|a: u64, b: u64| #[trigger] le(a, b) || #[trigger] le(b, a) by {}
}

/// Inserting anywhere adds exactly that element to the multiset.
proof fn lemma_seq_insert_multiset(s: Seq<u64>, i: int, v: u64)
    requires
        0 <= i <= s.len(),
    ensures
        s.insert(i, v).to_multiset() =~= s.to_multiset().insert(v),
{
    broadcast use vstd::multiset::group_multiset_axioms;
    broadcast use vstd::seq_lib::group_to_multiset_ensures;

    let a = s.subrange(0, i);
    let b = s.subrange(i, s.len() as int);
    assert(s.insert(i, v) == a.push(v) + b);
    lemma_multiset_commutative(a.push(v), b);
    lemma_multiset_commutative(a, b);
    assert(s =~= a + b);
    assert(a.push(v).to_multiset() =~= a.to_multiset().insert(v));
    assert forall|x: u64|
        #[trigger] s.insert(i, v).to_multiset().count(x) == s.to_multiset().insert(v).count(
            x,
        ) by {
        assert(s.insert(i, v).to_multiset().count(x) == a.to_multiset().insert(v).count(x)
            + b.to_multiset().count(x));
        assert(s.to_multiset().count(x) == a.to_multiset().count(x) + b.to_multiset().count(x));
    }
}

/// Sorts the samples ascending; the result is the canonical sorted order
/// of the input's elements.
pub fn sort_u64(v: &Vec<u64>) -> (r: Vec<u64>)
    ensures
        r@ == spec_sorted_of(v@),
        r@.len() == v@.len(),
{
    broadcast use vstd::seq_lib::group_to_multiset_ensures;

    let mut out: Vec<u64> = Vec::new();
    let mut i: usize = 0;
    proof {
        assert(v@.take(0) =~= Seq::<u64>::empty());
        assert(out@.to_multiset() =~= v@.take(0).to_multiset());
    }
    while i < v.len()
        invariant
            i <= v@.len(),
            out@.len() == i,
            sorted_by(out@, u64_le()),
            out@.to_multiset() =~= v@.take(i as int).to_multiset(),
        decreases v@.len() - i,
    {
        let x = v[i];
        let mut pos: usize = 0;
        while pos < out.len() && out[pos] <= x
            invariant
                pos <= out@.len(),
                forall|k: int| 0 <= k < pos ==> #[trigger] out@[k] <= x,
            decreases out@.len() - pos,
        {
            pos = pos + 1;
        }
        let ghost before = out@;
        out.insert(pos, x);
        proof {
            before.insert_ensures(pos as int, x);
            lemma_seq_insert_multiset(before, pos as int, x);
            assert(v@.take(i + 1) =~= v@.take(i as int).push(x));
            v@.take(i as int).to_multiset_ensures();
            assert(v@.take(i as int).push(x).to_multiset() =~= v@.take(
                i as int,
            ).to_multiset().insert(x));
            assert(v@.take(i + 1).to_multiset() =~= v@.take(i as int).to_multiset().insert(x));
            assert(out@.to_multiset() =~= v@.take(i + 1).to_multiset());
            let le = u64_le();
            assert forall|a: int, b: int| 0 <= a < b < out@.len() implies le(
                out@[a],
                out@[b],
            ) by {
                if b < pos {
                    assert(out@[a] == before[a] && out@[b] == before[b]);
                } else if a > pos {
                    assert(out@[a] == before[a - 1] && out@[b] == before[b - 1]);
                } else if a == pos && b > pos {
                    assert(out@[a] == x && out@[b] == before[b - 1]);
                    if pos < before.len() {
                        assert(x < before[pos as int]);
                        assert(le(before[pos as int], before[b - 1]) || b - 1 == pos);
                    }
                } else if b == pos {
                    assert(out@[a] == before[a] && out@[b] == x);
                    assert(before[a] <= x);
                } else {
                    // a < pos < b
                    assert(out@[a] == before[a] && out@[b] == before[b - 1]);
                    assert(before[a] <= x);
                    if pos < before.len() {
                        assert(x < before[pos as int]);
                        assert(le(before[pos as int], before[b - 1]) || b - 1 == pos);
                    }
                }
            }
            assert(sorted_by(out@, u64_le()));
        }
        i = i + 1;
    }
    proof {
        lemma_u64_le_total();
        assert(v@.take(v@.len() as int) =~= v@);
        v@.lemma_sort_by_ensures(u64_le());
        lemma_sorted_unique(out@, spec_sorted_of(v@), u64_le());
        broadcast use vstd::seq_lib::group_to_multiset_ensures;

        assert(out@.len() == out@.to_multiset().len());
        assert(v@.len() == v@.to_multiset().len());
    }
    out
}

/// The index a percentile selects in a sorted sample set of `n` values:
/// the rank rounded to the nearest index.
pub open spec fn spec_pct_idx(n: int, pct: int) -> int {
    ((n - 1) * pct + 50) / 100
}

/// Selection never falls outside the samples.
pub proof fn lemma_pct_idx_in_range(n: int, pct: int)
    requires
        n >= 1,
        0 <= pct <= 100,
    ensures
        0 <= spec_pct_idx(n, pct) < n,
{
    assert(0 <= ((n - 1) * pct + 50) / 100 < n) by (nonlinear_arith)
        requires
            n >= 1,
            0 <= pct <= 100,
    ;
}

/// The percentile point of a sample set: the value at the selected rank
/// of its sorted order, or zero without samples.
pub open spec fn spec_pct_point(samples: Seq<u64>, pct: u64) -> u64 {
    if samples.len() > 0 {
        spec_sorted_of(samples)[spec_pct_idx(samples.len() as int, pct as int)]
    } else {
        0u64
    }
}

/// The percentile value of a sorted sample set.
pub fn pct_value(sorted_vals: &Vec<u64>, pct: u64) -> (r: u64)
    requires
        sorted_vals@.len() >= 1,
        pct <= 100,
    ensures
        r == sorted_vals@[spec_pct_idx(sorted_vals@.len() as int, pct as int)],
{
    proof {
        lemma_pct_idx_in_range(sorted_vals@.len() as int, pct as int);
    }
    let n = sorted_vals.len();
    let idx = (((n as u128 - 1) * pct as u128 + 50) / 100) as usize;
    sorted_vals[idx]
}

/// The saturating mean of a sample set; zero without samples.
pub fn sat_mean(samples: &Vec<u64>) -> (r: u64)
    ensures
        samples@.len() > 0 ==> r as nat == spec_sat_sum(samples@) / samples@.len(),
        samples@.len() == 0 ==> r == 0,
{
    let mut sum: u64 = 0;
    let mut i: usize = 0;
    while i < samples.len()
        invariant
            i <= samples@.len(),
            sum as nat == spec_sat_sum(samples@.take(i as int)),
        decreases samples@.len() - i,
    {
        sum = sum.saturating_add(samples[i]);
        i = i + 1;
        proof {
            assert(samples@.take(i as int).drop_last() =~= samples@.take(i - 1));
            assert(samples@.take(i as int).last() == samples@[i - 1]);
        }
    }
    proof {
        assert(samples@.take(samples@.len() as int) =~= samples@);
    }
    if samples.len() > 0 {
        sum / (samples.len() as u64)
    } else {
        0
    }
}

/// The vrate study over one point's report period: the mean and the asked
/// percentiles of the per-report vrates.
pub fn study_vrate(samples: &Vec<u64>, pcts: &Vec<u64>) -> (r: (u64, Vec<(u64, u64)>))
    requires
        forall|i: int| 0 <= i < pcts@.len() ==> #[trigger] pcts@[i] <= 100,
    ensures
        samples@.len() > 0 ==> r.0 as nat == spec_sat_sum(samples@) / samples@.len(),
        r.1@.len() == pcts@.len(),
        forall|i: int|
            0 <= i < pcts@.len() ==> #[trigger] r.1@[i] == (
                pcts@[i],
                spec_pct_point(samples@, pcts@[i]),
            ),
{
    let mean = sat_mean(samples);
    let sorted_vals = sort_u64(samples);
    let mut points: Vec<(u64, u64)> = Vec::new();
    let mut i: usize = 0;
    while i < pcts.len()
        invariant
            i <= pcts@.len(),
            points@.len() == i,
            sorted_vals@ == spec_sorted_of(samples@),
            sorted_vals@.len() == samples@.len(),
            forall|j: int| 0 <= j < pcts@.len() ==> #[trigger] pcts@[j] <= 100,
            forall|j: int|
                0 <= j < i ==> #[trigger] points@[j] == (
                    pcts@[j],
                    spec_pct_point(samples@, pcts@[j]),
                ),
        decreases pcts@.len() - i,
    {
        let v = if sorted_vals.len() > 0 {
            pct_value(&sorted_vals, pcts[i])
        } else {
            0
        };
        proof {
            if samples@.len() > 0 {
                lemma_pct_idx_in_range(samples@.len() as int, pcts@[i as int] as int);
            }
            assert(v == spec_pct_point(samples@, pcts@[i as int]));
        }
        points.push((pcts[i], v));
        i = i + 1;
    }
    (mean, points)
}

/// The adjusted memory-offload metrics: present exactly when the
/// protection benchmark settled on a final size and the storage study
/// measured a positive memory usage. The adjusted factor is the final
/// size over the measured usage (in thousandths) and the delta is the
/// unadjusted factor minus the adjusted one.
pub open spec fn spec_adjusted(prot: &ProtectionRecord, stor_res: &StorageResult) -> (
    Option<u64>,
    Option<u64>,
    Option<i64>,
) {
    match prot.tune {
        Some(t) => match t.final_size {
            Some(fs) => {
                if stor_res.mem_usage > 0 {
                    let amof = fs as int * 1000 / stor_res.mem_usage as int;
                    (
                        Some(fs),
                        Some(amof as u64),
                        Some((stor_res.mem_offload_factor as int - amof) as i64),
                    )
                } else {
                    (None, None, None)
                }
            },
            None => (None, None, None),
        },
        None => (None, None, None),
    }
}

/// Computes the adjusted offload metrics.
pub fn adjusted_mof(prot: &ProtectionRecord, stor_res: &StorageResult) -> (r: (
    Option<u64>,
    Option<u64>,
    Option<i64>,
))
    requires
        stor_res.mem_offload_factor <= 1_000_000_000,
        prot.tune is Some && prot.tune->0.final_size is Some
            ==> prot.tune->0.final_size->0 as int * 1000 / (if stor_res.mem_usage > 0 {
            stor_res.mem_usage as int
        } else {
            1
        }) <= 1_000_000_000,
    ensures
        r == spec_adjusted(prot, stor_res),
{
    match prot.tune {
        Some(t) => match t.final_size {
            Some(fs) => {
                if stor_res.mem_usage > 0 {
                    let amof_wide: u128 = fs as u128 * 1000 / stor_res.mem_usage as u128;
                    let amof = amof_wide as u64;
                    proof {
                        assert(fs as int * 1000 / stor_res.mem_usage as int >= 0) by (
                        nonlinear_arith)
                            requires
                                stor_res.mem_usage > 0,
                        ;
                    }
                    (
                        Some(fs),
                        Some(amof),
                        Some(stor_res.mem_offload_factor as i64 - amof as i64),
                    )
                } else {
                    (None, None, None)
                }
            },
            None => (None, None, None),
        },
        None => (None, None, None),
    }
}

/// What studying one finished sweep point yields.
pub struct IoCostQoSResultRun {
    pub stor: StorageResult,
    pub prot: ProtectionRecord,
    pub adjusted_mem_size: Option<u64>,
    pub adjusted_mem_offload_factor: Option<u64>,
    pub adjusted_mem_offload_delta: Option<i64>,
    /// percentile (whole percents) -> vrate in thousandths
    pub vrate: Vec<(u64, u64)>,
    pub vrate_mean: u64,
    pub nr_reports: (u64, u64),
}

pub struct IoCostQoSResult {
    pub runs: Vec<Option<IoCostQoSResultRun>>,
}

/// Studies one finished point: the caller hands the storage study result,
/// the per-report vrate samples of the point's period and the report
/// counts; the adjusted offload metrics come from the point's own
/// protection record.
pub fn study_one(
    recr: &IoCostQoSRecordRun,
    stor_res: &StorageResult,
    vrate_samples: &Vec<u64>,
    pcts: &Vec<u64>,
    nr_reports: (u64, u64),
) -> (r: IoCostQoSResultRun)
    requires
        forall|i: int| 0 <= i < pcts@.len() ==> #[trigger] pcts@[i] <= 100,
        stor_res.mem_offload_factor <= 1_000_000_000,
        recr.prot.tune is Some && recr.prot.tune->0.final_size is Some
            ==> recr.prot.tune->0.final_size->0 as int * 1000 / (if stor_res.mem_usage > 0 {
            stor_res.mem_usage as int
        } else {
            1
        }) <= 1_000_000_000,
    ensures
        r.stor == *stor_res,
        r.prot == recr.prot,
        (r.adjusted_mem_size, r.adjusted_mem_offload_factor, r.adjusted_mem_offload_delta)
            == spec_adjusted(&recr.prot, stor_res),
        r.nr_reports == nr_reports,
        vrate_samples@.len() > 0 ==> r.vrate_mean as nat == spec_sat_sum(vrate_samples@)
            / vrate_samples@.len(),
        r.vrate@.len() == pcts@.len(),
        forall|i: int|
            0 <= i < pcts@.len() ==> #[trigger] r.vrate@[i] == (
                pcts@[i],
                spec_pct_point(vrate_samples@, pcts@[i]),
            ),
{
    let (adjusted_mem_size, amof, adelta) = adjusted_mof(&recr.prot, stor_res);
    let (vrate_mean, vrate) = study_vrate(vrate_samples, pcts);
    IoCostQoSResultRun {
        stor: *stor_res,
        prot: recr.prot,
        adjusted_mem_size,
        adjusted_mem_offload_factor: amof,
        adjusted_mem_offload_delta: adelta,
        vrate,
        vrate_mean,
        nr_reports,
    }
}

// ---------------------------------------------------------------------------
// Result formatting.
/// The text of a fixed-point value in thousandths: the whole part, a
/// point, and exactly three fraction digits.
pub open spec fn spec_fixed3_str(v: u64) -> Seq<char> {
    crate::num::dec_digits(v as nat / 1000) + "."@ + spec_pad3(v as nat % 1000)
}

pub open spec fn spec_pad3(f: nat) -> Seq<char> {
    if f < 10 {
        "00"@ + crate::num::dec_digits(f)
    } else if f < 100 {
        "0"@ + crate::num::dec_digits(f)
    } else {
        crate::num::dec_digits(f)
    }
}

/// Prints a fixed-point value in thousandths, `2500` as `2.500`.
pub fn fixed3_to_string(v: u64) -> (s: String)
    ensures
        s@ == spec_fixed3_str(v),
{
    let mut s = crate::num::u64_to_string(v / 1000);
    s.append(".");
    if v % 1000 < 10 {
        s.append("00");
    } else if v % 1000 < 100 {
        s.append("0");
    }
    let frac = crate::num::u64_to_string(v % 1000);
    s.append(frac.as_str());
    proof {
        assert(s@ =~= spec_fixed3_str(v));
    }
    s
}

/// The summary line one studied point yields: its offload factor, its
/// adjusted offload factor (or a failure mark), and its mean vrate, all
/// in thousandths, space-separated. An unstudied point reads `SKIP`.
pub open spec fn spec_result_line(resr: Option<IoCostQoSResultRun>) -> Seq<char> {
    match resr {
        Some(r) => spec_fixed3_str(r.stor.mem_offload_factor) + "  "@ + (
        match r.adjusted_mem_offload_factor {
            Some(amof) => spec_fixed3_str(amof),
            None => "FAIL"@,
        }) + "  "@ + spec_fixed3_str(r.vrate_mean),
        None => "SKIP"@,
    }
}

/// Renders the per-point summary lines of a sweep result, one line per
/// planned point in order.
pub fn format_qos_result_lines(res: &IoCostQoSResult) -> (r: Vec<String>)
    ensures
        r@.len() == res.runs@.len(),
        forall|i: int|
            0 <= i < r@.len() ==> (#[trigger] r@[i]@) == spec_result_line(res.runs@[i]),
{
    let mut r: Vec<String> = Vec::new();
    let mut i: usize = 0;
    while i < res.runs.len()
        invariant
            i <= res.runs@.len(),
            r@.len() == i,
            forall|j: int|
                0 <= j < i ==> (#[trigger] r@[j]@) == spec_result_line(res.runs@[j]),
        decreases res.runs@.len() - i,
    {
        let line = match &res.runs[i] {
            Some(resr) => {
                let mut line = fixed3_to_string(resr.stor.mem_offload_factor);
                line.append("  ");
                match resr.adjusted_mem_offload_factor {
                    Some(amof) => {
                        let a = fixed3_to_string(amof);
                        line.append(a.as_str());
                    },
                    None => {
                        line.append("FAIL");
                    },
                }
                line.append("  ");
                let m = fixed3_to_string(resr.vrate_mean);
                line.append(m.as_str());
                line
            },
            None => String::from_str("SKIP"),
        };
        proof {
            assert(line@ =~= spec_result_line(res.runs@[i as int]));
        }
        r.push(line);
        i = i + 1;
    }
    r
}

} // verus!
